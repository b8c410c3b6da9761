use fastdeploy_rs::descriptor::{FlatArray, Float32};
use fastdeploy_rs::errors::{DecodeError, OwnershipError};
use fastdeploy_rs::heap::Heap;
use fastdeploy_rs::ownership::Side;
use fastdeploy_rs::type_bridge::common::{bool_to_fd_c_bool, fd_c_bool_to_bool, fd_c_cstr_to_string};
use fastdeploy_rs::type_bridge::common::{fd_c_one_dim_array_float_to_vec_f32, fd_c_one_dim_array_int32_to_vec_i32};
use fastdeploy_rs::type_bridge::common::{fd_c_one_dim_array_int64_to_vec_i64, fd_c_one_dim_array_uint8_to_vec_u8};
use fastdeploy_rs::type_bridge::common::{fd_c_two_dim_array_float_to_vec_float, fd_c_two_dim_array_int32_to_vec_i32};
use fastdeploy_rs::type_bridge::common::{fd_one_dim_array_c_str_to_vec_string, string_to_fd_c_cstr};
use fastdeploy_rs::type_bridge::common::{vec_f32_to_fd_c_one_dim_array_float, vec_f32_to_fd_c_two_dim_array_float};
use fastdeploy_rs::type_bridge::common::{vec_i32_to_fd_c_one_dim_array_int32, vec_i32_to_fd_c_two_dim_array_int32};
use fastdeploy_rs::type_bridge::common::{vec_i64_to_fd_c_one_dim_array_int64, vec_string_to_fd_one_dim_array_c_str};
use fastdeploy_rs::type_bridge::common::vec_u8_to_fd_c_one_dim_array_uint8;
use fastdeploy_rs::type_bridge::{CstrWrapper, OneDimArrayCstrWrapper, OneDimArrayFloatWrapper};
use fastdeploy_rs::type_bridge::{OneDimArrayInt32Wrapper, OneDimArrayInt8Wrapper, OneDimArraySizeWrapper};
use fastdeploy_rs::type_bridge::{OneDimArrayUint8Wrapper, ThreeDimArrayInt32Wrapper, TwoDimArrayCstrWrapper};
use fastdeploy_rs::type_bridge::{TwoDimArrayFloatWrapper, TwoDimArrayInt32Wrapper, TwoDimArraySizeWrapper};

fn f(x: f32) -> Float32 {
    Float32::from_bits(x.to_bits())
}

#[test]
fn flags_cross_as_one_or_zero() {
    assert_eq!(bool_to_fd_c_bool(true), 1);
    assert_eq!(bool_to_fd_c_bool(false), 0);
    assert!(fd_c_bool_to_bool(1));
    assert!(fd_c_bool_to_bool(127));
    assert!(!fd_c_bool_to_bool(0));
    assert!(!fd_c_bool_to_bool(-1));
}

#[test]
fn named_conversions_round_trip() {
    let mut heap = Heap::new();
    let a = vec_f32_to_fd_c_one_dim_array_float(&mut heap, vec![f(1.5), f(-2.0)]);
    let b = vec_i32_to_fd_c_one_dim_array_int32(&mut heap, vec![1, 2, 3]);
    let c = vec_i64_to_fd_c_one_dim_array_int64(&mut heap, vec![1 << 40]);
    let d = vec_u8_to_fd_c_one_dim_array_uint8(&mut heap, vec![9, 8]);
    let e = vec_f32_to_fd_c_two_dim_array_float(&mut heap, vec![vec![f(1.0)], vec![f(2.0), f(3.0)]]);
    let g = vec_i32_to_fd_c_two_dim_array_int32(&mut heap, vec![vec![1, 2], vec![3]]);
    let h = string_to_fd_c_cstr(&mut heap, "héllo");
    let i = vec_string_to_fd_one_dim_array_c_str(&mut heap, vec!["a", "", "bc"]);
    assert_eq!(fd_c_one_dim_array_float_to_vec_f32(&heap, a), Ok(vec![f(1.5), f(-2.0)]));
    assert_eq!(fd_c_one_dim_array_int32_to_vec_i32(&heap, b), Ok(vec![1, 2, 3]));
    assert_eq!(fd_c_one_dim_array_int64_to_vec_i64(&heap, c), Ok(vec![1 << 40]));
    assert_eq!(fd_c_one_dim_array_uint8_to_vec_u8(&heap, d), Ok(vec![9, 8]));
    assert_eq!(fd_c_two_dim_array_float_to_vec_float(&heap, e), Ok(vec![vec![f(1.0)], vec![f(2.0), f(3.0)]]));
    assert_eq!(fd_c_two_dim_array_int32_to_vec_i32(&heap, g), Ok(vec![vec![1, 2], vec![3]]));
    assert_eq!(fd_c_cstr_to_string(&heap, h), Ok("héllo".to_string()));
    assert_eq!(
        fd_one_dim_array_c_str_to_vec_string(&heap, i),
        Ok(vec!["a".to_string(), String::new(), "bc".to_string()])
    );
    assert_eq!(fd_c_one_dim_array_float_to_vec_f32(&heap, FlatArray::null()), Ok(vec![]));
    assert_eq!(fd_c_one_dim_array_int32_to_vec_i32(&heap, FlatArray::new(4, b.data)), Err(DecodeError::SizeMismatch));
}

#[test]
fn array_handles_default_to_null() {
    assert!(OneDimArrayUint8Wrapper::default().ptr.is_null());
    assert!(OneDimArrayInt32Wrapper::default().ptr.is_null());
    assert!(OneDimArraySizeWrapper::default().ptr.is_null());
    assert!(OneDimArrayFloatWrapper::default().ptr.is_null());
    assert!(OneDimArrayInt8Wrapper::default().ptr.is_null());
    assert!(TwoDimArrayInt32Wrapper::default().ptr.is_null());
    assert!(ThreeDimArrayInt32Wrapper::default().ptr.is_null());
    assert!(CstrWrapper::default().ptr.is_null());
    assert!(OneDimArrayCstrWrapper::default().ptr.is_null());
    assert!(TwoDimArrayCstrWrapper::default().ptr.is_null());
    assert_eq!(OneDimArrayInt32Wrapper::default().ptr.size, 0);
}

#[test]
fn one_dim_handle_gives_the_vector_back() {
    let mut heap = Heap::new();
    let w = OneDimArrayInt32Wrapper::from_vec(&mut heap.int32s.cells, vec![5, 6]);
    assert_eq!(w.ptr.size, 2);
    assert_eq!(w.to_vec(&heap.int32s.cells), Ok(vec![5, 6]));
    assert_eq!(heap.int32s.cells.live_blocks(), 1);
    assert_eq!(w.into_vec(&mut heap.int32s.cells), Ok(vec![5, 6]));
    assert_eq!(heap.int32s.cells.live_blocks(), 0);

    let w = OneDimArrayFloatWrapper::from_vec(&mut heap.floats.cells, vec![f(2.5)]);
    assert_eq!(w.to_vec(&heap.floats.cells), Ok(vec![f(2.5)]));
    assert_eq!(w.release(&mut heap.floats.cells), Ok(()));
    assert_eq!(heap.floats.cells.live_blocks(), 0);

    let w = OneDimArrayUint8Wrapper::from_vec(&mut heap.bytes.cells, vec![]);
    assert!(w.ptr.is_null());
    assert_eq!(w.into_vec(&mut heap.bytes.cells), Ok(vec![]));
    let w = OneDimArrayInt8Wrapper::from_vec(&mut heap.int8s.cells, vec![-1]);
    assert_eq!(w.into_vec(&mut heap.int8s.cells), Ok(vec![-1]));
    let w = OneDimArraySizeWrapper::from_vec(&mut heap.sizes.cells, vec![usize::MAX]);
    assert_eq!(w.into_vec(&mut heap.sizes.cells), Ok(vec![usize::MAX]));
}

#[test]
fn a_handle_of_foreign_memory_cannot_be_adopted_or_freed() {
    let mut heap = Heap::new();
    let p = heap.int32s.cells.allocate(vec![1, 2], Side::Foreign);
    let w = OneDimArrayInt32Wrapper { ptr: FlatArray::new(2, Some(p)) };
    assert_eq!(w.to_vec(&heap.int32s.cells), Ok(vec![1, 2]));
    assert_eq!(w.into_vec(&mut heap.int32s.cells), Err(DecodeError::AllocatorMismatch));
    let w = OneDimArrayInt32Wrapper { ptr: FlatArray::new(2, Some(p)) };
    assert_eq!(w.release(&mut heap.int32s.cells), Err(OwnershipError::NotOwner));
    assert_eq!(heap.int32s.cells.live_blocks(), 1);
}

#[test]
fn nested_handles_round_trip_and_release() {
    let mut heap = Heap::new();
    let w = TwoDimArrayInt32Wrapper::from_vec(&mut heap.int32s, vec![vec![1, 2], vec![3]]);
    assert_eq!(w.to_vec(&heap.int32s), Ok(vec![vec![1, 2], vec![3]]));
    assert_eq!(w.release(&mut heap.int32s), Ok(()));
    let w = TwoDimArrayFloatWrapper::from_vec(&mut heap.floats, vec![vec![f(1.0)]]);
    assert_eq!(w.to_vec(&heap.floats), Ok(vec![vec![f(1.0)]]));
    assert_eq!(w.release(&mut heap.floats), Ok(()));
    let w = TwoDimArraySizeWrapper::from_vec(&mut heap.sizes, vec![vec![], vec![7]]);
    assert_eq!(w.to_vec(&heap.sizes), Ok(vec![vec![], vec![7]]));
    assert_eq!(w.release(&mut heap.sizes), Ok(()));
    let w = ThreeDimArrayInt32Wrapper::from_vec(&mut heap.int32s, vec![vec![vec![1], vec![2, 3]], vec![]]);
    assert_eq!(w.to_vec(&heap.int32s), Ok(vec![vec![vec![1], vec![2, 3]], vec![]]));
    assert_eq!(w.release(&mut heap.int32s), Ok(()));
    assert_eq!(heap.int32s.cells.live_blocks() + heap.int32s.rows.live_blocks() + heap.int32s.planes.live_blocks(), 0);
    assert_eq!(heap.floats.cells.live_blocks() + heap.floats.rows.live_blocks(), 0);
    assert_eq!(heap.sizes.cells.live_blocks() + heap.sizes.rows.live_blocks(), 0);
}

#[test]
fn string_handles() {
    let mut heap = Heap::new();
    let w = CstrWrapper::new(&mut heap.bytes.cells, "grüß".to_string());
    assert_eq!(w.ptr.size, 6);
    assert_eq!(w.to_str(&heap.bytes.cells), Ok("grüß".to_string()));
    let raw = w.ptr;
    assert_eq!(w.release(&mut heap.bytes.cells, Side::Foreign), Err(OwnershipError::NotOwner));
    let w = CstrWrapper::from_raw(raw);
    assert_eq!(w.release(&mut heap.bytes.cells, Side::Native), Ok(()));
    let w = CstrWrapper::from_text(&mut heap.bytes.cells, "x");
    assert_eq!(w.to_str(&heap.bytes.cells), Ok("x".to_string()));
    assert_eq!(w.release(&mut heap.bytes.cells, Side::Native), Ok(()));
    assert_eq!(CstrWrapper::default().to_str(&heap.bytes.cells), Ok(String::new()));

    let w = OneDimArrayCstrWrapper::new(&mut heap.bytes, vec!["a".to_string(), "b".to_string()]);
    assert_eq!(w.to_vec(&heap.bytes), Ok(vec!["a".to_string(), "b".to_string()]));
    let again = OneDimArrayCstrWrapper::from_raw(w.ptr);
    assert_eq!(w.release(&mut heap.bytes, Side::Native), Ok(()));
    assert_eq!(again.release(&mut heap.bytes, Side::Native), Err(OwnershipError::NotLive));
    assert_eq!(heap.bytes.cells.live_blocks() + heap.bytes.rows.live_blocks(), 0);

    let row = OneDimArrayCstrWrapper::new(&mut heap.bytes, vec!["c".to_string()]);
    let p = heap.bytes.planes.allocate(vec![row.ptr], Side::Native);
    let w = TwoDimArrayCstrWrapper::from_raw(FlatArray::new(1, Some(p)));
    assert_eq!(w.to_vec(&heap.bytes), Ok(vec![vec!["c".to_string()]]));
    assert_eq!(w.release(&mut heap.bytes, Side::Native), Ok(()));
    assert_eq!(heap.bytes.cells.live_blocks() + heap.bytes.rows.live_blocks() + heap.bytes.planes.live_blocks(), 0);
}
