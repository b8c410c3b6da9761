//! The enumerations that cross the boundary as plain integers.

#![allow(non_camel_case_types)]

use vstd::prelude::*;
use vstd::std_specs::convert::FromSpecImpl;

verus! {

/// The format of a model file.
#[derive(Debug, Copy, Clone, PartialEq, Eq, Hash, Structural)]
pub enum ModelFormat {
    AUTOREC,
    PADDLE,
    ONNX,
    RKNN,
    TORCHSCRIPT,
    SOPHGO,
}

impl ModelFormat {
    pub open spec fn raw(self) -> i32 {
        match self {
            ModelFormat::AUTOREC => 0,
            ModelFormat::PADDLE => 1,
            ModelFormat::ONNX => 2,
            ModelFormat::RKNN => 3,
            ModelFormat::TORCHSCRIPT => 4,
            ModelFormat::SOPHGO => 5,
        }
    }

    /// The integer that stands for the format on the foreign side.
    pub fn to_raw(&self) -> (r: i32)
        ensures
            r == self.raw(),
    {
        match self {
            ModelFormat::AUTOREC => 0,
            ModelFormat::PADDLE => 1,
            ModelFormat::ONNX => 2,
            ModelFormat::RKNN => 3,
            ModelFormat::TORCHSCRIPT => 4,
            ModelFormat::SOPHGO => 5,
        }
    }
}

/// The processor of an RKNPU2 device.
#[derive(Debug, Copy, Clone, PartialEq, Eq, Hash, Structural)]
pub enum RKNpu2CpuName {
    RK356X,
    RK3588,
    UNDEFINED,
}

impl RKNpu2CpuName {
    pub open spec fn raw(self) -> i32 {
        match self {
            RKNpu2CpuName::RK356X => 0,
            RKNpu2CpuName::RK3588 => 1,
            RKNpu2CpuName::UNDEFINED => 2,
        }
    }

    /// The integer that stands for the processor on the foreign side.
    pub fn to_raw(&self) -> (r: i32)
        ensures
            r == self.raw(),
    {
        match self {
            RKNpu2CpuName::RK356X => 0,
            RKNpu2CpuName::RK3588 => 1,
            RKNpu2CpuName::UNDEFINED => 2,
        }
    }
}

/// The cores of an RKNPU2 device that a model may run on. The integers are
/// bit masks: one bit for each core.
#[derive(Debug, Copy, Clone, PartialEq, Eq, Hash, Structural)]
pub enum RKNpu2CoreMask {
    RKNN_NPU_CORE_AUTO,
    RKNN_NPU_CORE_0,
    RKNN_NPU_CORE_1,
    RKNN_NPU_CORE_2,
    RKNN_NPU_CORE_0_1,
    RKNN_NPU_CORE_0_1_2,
    RKNN_NPU_CORE_UNDEFINED,
}

impl RKNpu2CoreMask {
    pub open spec fn raw(self) -> i32 {
        match self {
            RKNpu2CoreMask::RKNN_NPU_CORE_AUTO => 0,
            RKNpu2CoreMask::RKNN_NPU_CORE_0 => 1,
            RKNpu2CoreMask::RKNN_NPU_CORE_1 => 2,
            RKNpu2CoreMask::RKNN_NPU_CORE_2 => 4,
            RKNpu2CoreMask::RKNN_NPU_CORE_0_1 => 3,
            RKNpu2CoreMask::RKNN_NPU_CORE_0_1_2 => 7,
            RKNpu2CoreMask::RKNN_NPU_CORE_UNDEFINED => 8,
        }
    }

    /// The integer that stands for the choice of cores on the foreign side.
    pub fn to_raw(&self) -> (r: i32)
        ensures
            r == self.raw(),
    {
        match self {
            RKNpu2CoreMask::RKNN_NPU_CORE_AUTO => 0,
            RKNpu2CoreMask::RKNN_NPU_CORE_0 => 1,
            RKNpu2CoreMask::RKNN_NPU_CORE_1 => 2,
            RKNpu2CoreMask::RKNN_NPU_CORE_2 => 4,
            RKNpu2CoreMask::RKNN_NPU_CORE_0_1 => 3,
            RKNpu2CoreMask::RKNN_NPU_CORE_0_1_2 => 7,
            RKNpu2CoreMask::RKNN_NPU_CORE_UNDEFINED => 8,
        }
    }
}

/// The power mode of the Lite backend.
#[derive(Debug, Copy, Clone, PartialEq, Eq, Hash, Structural)]
pub enum LitePowerMode {
    LITE_POWER_HIGH,
    LITE_POWER_LOW,
    LITE_POWER_FULL,
    LITE_POWER_NO_BIND,
    LITE_POWER_RAND_HIGH,
    LITE_POWER_RAND_LOW,
}

impl LitePowerMode {
    pub open spec fn raw(self) -> i32 {
        match self {
            LitePowerMode::LITE_POWER_HIGH => 0,
            LitePowerMode::LITE_POWER_LOW => 1,
            LitePowerMode::LITE_POWER_FULL => 2,
            LitePowerMode::LITE_POWER_NO_BIND => 3,
            LitePowerMode::LITE_POWER_RAND_HIGH => 4,
            LitePowerMode::LITE_POWER_RAND_LOW => 5,
        }
    }

    /// The integer that stands for the power mode on the foreign side.
    pub fn to_raw(&self) -> (r: i32)
        ensures
            r == self.raw(),
    {
        match self {
            LitePowerMode::LITE_POWER_HIGH => 0,
            LitePowerMode::LITE_POWER_LOW => 1,
            LitePowerMode::LITE_POWER_FULL => 2,
            LitePowerMode::LITE_POWER_NO_BIND => 3,
            LitePowerMode::LITE_POWER_RAND_HIGH => 4,
            LitePowerMode::LITE_POWER_RAND_LOW => 5,
        }
    }
}

/// The kind of a result record: the discriminant that every record carries.
#[derive(Debug, Copy, Clone, PartialEq, Eq, Hash, Structural)]
pub enum ResultType {
    UNKNOWN_RESULT,
    CLASSIFY,
    DETECTION,
    SEGMENTATION,
    OCR,
    MOT,
    FACE_DETECTION,
    FACE_ALIGNMENT,
    FACE_RECOGNITION,
    MATTING,
    MASK,
    KEYPOINT_DETECTION,
    HEADPOSE,
}

impl ResultType {
    pub open spec fn raw(self) -> i32 {
        match self {
            ResultType::UNKNOWN_RESULT => 0,
            ResultType::CLASSIFY => 1,
            ResultType::DETECTION => 2,
            ResultType::SEGMENTATION => 3,
            ResultType::OCR => 4,
            ResultType::MOT => 5,
            ResultType::FACE_DETECTION => 6,
            ResultType::FACE_ALIGNMENT => 7,
            ResultType::FACE_RECOGNITION => 8,
            ResultType::MATTING => 9,
            ResultType::MASK => 10,
            ResultType::KEYPOINT_DETECTION => 11,
            ResultType::HEADPOSE => 12,
        }
    }

    /// The kind that the integer `value` stands for; an integer that stands
    /// for none is an unknown result.
    pub open spec fn of_raw(value: i32) -> ResultType {
        if value == 1 {
            ResultType::CLASSIFY
        } else if value == 2 {
            ResultType::DETECTION
        } else if value == 3 {
            ResultType::SEGMENTATION
        } else if value == 4 {
            ResultType::OCR
        } else if value == 5 {
            ResultType::MOT
        } else if value == 6 {
            ResultType::FACE_DETECTION
        } else if value == 7 {
            ResultType::FACE_ALIGNMENT
        } else if value == 8 {
            ResultType::FACE_RECOGNITION
        } else if value == 9 {
            ResultType::MATTING
        } else if value == 10 {
            ResultType::MASK
        } else if value == 11 {
            ResultType::KEYPOINT_DETECTION
        } else if value == 12 {
            ResultType::HEADPOSE
        } else {
            ResultType::UNKNOWN_RESULT
        }
    }

    /// The integer that stands for the kind on the foreign side.
    pub fn to_raw(&self) -> (r: i32)
        ensures
            r == self.raw(),
    {
        match self {
            ResultType::UNKNOWN_RESULT => 0,
            ResultType::CLASSIFY => 1,
            ResultType::DETECTION => 2,
            ResultType::SEGMENTATION => 3,
            ResultType::OCR => 4,
            ResultType::MOT => 5,
            ResultType::FACE_DETECTION => 6,
            ResultType::FACE_ALIGNMENT => 7,
            ResultType::FACE_RECOGNITION => 8,
            ResultType::MATTING => 9,
            ResultType::MASK => 10,
            ResultType::KEYPOINT_DETECTION => 11,
            ResultType::HEADPOSE => 12,
        }
    }

    /// Every kind comes back from its integer.
    pub proof fn lemma_raw_round_trip(self)
        ensures
            Self::of_raw(self.raw()) == self,
    {
    }
}

impl From<i32> for ResultType {
    fn from(value: i32) -> (r: ResultType) {
        match value {
            0 => ResultType::UNKNOWN_RESULT,
            1 => ResultType::CLASSIFY,
            2 => ResultType::DETECTION,
            3 => ResultType::SEGMENTATION,
            4 => ResultType::OCR,
            5 => ResultType::MOT,
            6 => ResultType::FACE_DETECTION,
            7 => ResultType::FACE_ALIGNMENT,
            8 => ResultType::FACE_RECOGNITION,
            9 => ResultType::MATTING,
            10 => ResultType::MASK,
            11 => ResultType::KEYPOINT_DETECTION,
            12 => ResultType::HEADPOSE,
            _ => ResultType::UNKNOWN_RESULT,
        }
    }
}

impl FromSpecImpl<i32> for ResultType {
    open spec fn obeys_from_spec() -> bool {
        true
    }

    open spec fn from_spec(value: i32) -> ResultType {
        ResultType::of_raw(value)
    }
}

} // verus!
