use fastdeploy_rs::enum_variables::{LitePowerMode, ModelFormat, RKNpu2CoreMask, RKNpu2CpuName, ResultType};
use fastdeploy_rs::errors::{decimal_text, FastDeployError};

#[test]
fn messages_of_the_errors() {
    assert_eq!(FastDeployError::InitError.to_string(), "Failed to create a new whisper context.");
    assert_eq!(FastDeployError::PredictError.to_string(), "model predict error");
    assert_eq!(
        FastDeployError::InvalidUtf8 { error_len: Some(3), valid_up_to: 120 }.to_string(),
        "Invalid UTF-8 detected in a string from Whisper. Index: 120, Length: 3."
    );
    assert_eq!(
        FastDeployError::InvalidUtf8 { error_len: None, valid_up_to: 0 }.to_string(),
        "Invalid UTF-8 detected in a string from Whisper. Index: 0."
    );
}

#[test]
fn decimal_text_of_numbers() {
    assert_eq!(decimal_text(0), "0");
    assert_eq!(decimal_text(9), "9");
    assert_eq!(decimal_text(10), "10");
    assert_eq!(decimal_text(1234567890), "1234567890");
    assert_eq!(decimal_text(usize::MAX), usize::MAX.to_string());
}

#[test]
fn error_from_a_failed_utf8_check() {
    let e = std::str::from_utf8(&[0x41, 0xf0, 0x9f]).unwrap_err();
    assert_eq!(FastDeployError::from(e), FastDeployError::InvalidUtf8 { error_len: None, valid_up_to: 1 });
    let e = std::str::from_utf8(&[0x41, 0x42, 0x43, 0xfe]).unwrap_err();
    let converted: FastDeployError = e.into();
    assert_eq!(converted, FastDeployError::InvalidUtf8 { error_len: Some(1), valid_up_to: 3 });
}

#[test]
fn raw_values_of_the_enumerations() {
    assert_eq!(ModelFormat::AUTOREC.to_raw(), 0);
    assert_eq!(ModelFormat::PADDLE.to_raw(), 1);
    assert_eq!(ModelFormat::ONNX.to_raw(), 2);
    assert_eq!(ModelFormat::RKNN.to_raw(), 3);
    assert_eq!(ModelFormat::TORCHSCRIPT.to_raw(), 4);
    assert_eq!(ModelFormat::SOPHGO.to_raw(), 5);
    assert_eq!(RKNpu2CpuName::RK356X.to_raw(), 0);
    assert_eq!(RKNpu2CpuName::RK3588.to_raw(), 1);
    assert_eq!(RKNpu2CpuName::UNDEFINED.to_raw(), 2);
    assert_eq!(RKNpu2CoreMask::RKNN_NPU_CORE_AUTO.to_raw(), 0);
    assert_eq!(RKNpu2CoreMask::RKNN_NPU_CORE_0.to_raw(), 1);
    assert_eq!(RKNpu2CoreMask::RKNN_NPU_CORE_1.to_raw(), 2);
    assert_eq!(RKNpu2CoreMask::RKNN_NPU_CORE_2.to_raw(), 4);
    assert_eq!(RKNpu2CoreMask::RKNN_NPU_CORE_0_1.to_raw(), 3);
    assert_eq!(RKNpu2CoreMask::RKNN_NPU_CORE_0_1_2.to_raw(), 7);
    assert_eq!(RKNpu2CoreMask::RKNN_NPU_CORE_UNDEFINED.to_raw(), 8);
    assert_eq!(LitePowerMode::LITE_POWER_HIGH.to_raw(), 0);
    assert_eq!(LitePowerMode::LITE_POWER_LOW.to_raw(), 1);
    assert_eq!(LitePowerMode::LITE_POWER_FULL.to_raw(), 2);
    assert_eq!(LitePowerMode::LITE_POWER_NO_BIND.to_raw(), 3);
    assert_eq!(LitePowerMode::LITE_POWER_RAND_HIGH.to_raw(), 4);
    assert_eq!(LitePowerMode::LITE_POWER_RAND_LOW.to_raw(), 5);
}

#[test]
fn result_type_from_raw_and_back() {
    let all = [
        ResultType::UNKNOWN_RESULT,
        ResultType::CLASSIFY,
        ResultType::DETECTION,
        ResultType::SEGMENTATION,
        ResultType::OCR,
        ResultType::MOT,
        ResultType::FACE_DETECTION,
        ResultType::FACE_ALIGNMENT,
        ResultType::FACE_RECOGNITION,
        ResultType::MATTING,
        ResultType::MASK,
        ResultType::KEYPOINT_DETECTION,
        ResultType::HEADPOSE,
    ];
    for (i, t) in all.iter().enumerate() {
        assert_eq!(t.to_raw(), i as i32);
        assert_eq!(ResultType::from(i as i32), *t);
    }
    assert_eq!(ResultType::from(13), ResultType::UNKNOWN_RESULT);
    assert_eq!(ResultType::from(-1), ResultType::UNKNOWN_RESULT);
    assert_eq!(ResultType::from(i32::MAX), ResultType::UNKNOWN_RESULT);
}
