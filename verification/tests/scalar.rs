use fastdeploy_rs::descriptor::{FlatArray, Float32};
use fastdeploy_rs::errors::{DecodeError, OwnershipError};
use fastdeploy_rs::memory::Arena;
use fastdeploy_rs::ownership::{Mode, Side};
use fastdeploy_rs::scalar::{copy_from_foreign, dispose, from_foreign, to_foreign};

#[test]
fn round_trip_int32() {
    let mut cells: Arena<i32> = Arena::new();
    let values = vec![3, -1, i32::MAX, i32::MIN, 0];
    let (d, owner) = to_foreign(&mut cells, &values);
    assert_eq!(owner, Side::Native);
    assert_eq!(d.size, 5);
    assert_eq!(d.data, Some(0));
    assert_eq!(copy_from_foreign(&cells, &d), Ok(values));
}

#[test]
fn round_trip_float_keeps_bits() {
    let mut cells: Arena<Float32> = Arena::new();
    let values: Vec<Float32> = [0.5f32, -0.0, f32::NAN, f32::INFINITY]
        .iter()
        .map(|x| Float32::from_bits(x.to_bits()))
        .collect();
    let (d, _) = to_foreign(&mut cells, &values);
    let back = copy_from_foreign(&cells, &d).unwrap();
    assert_eq!(back, values);
    assert_eq!(f32::from_bits(back[0].to_bits()), 0.5);
}

#[test]
fn empty_encodes_to_null() {
    let mut cells: Arena<u8> = Arena::new();
    let (d, _) = to_foreign(&mut cells, &Vec::new());
    assert_eq!(d.size, 0);
    assert_eq!(d.data, None);
    assert_eq!(cells.slot_count(), 0);
    assert_eq!(copy_from_foreign(&cells, &d), Ok(vec![]));
}

#[test]
fn null_and_zero_size_decode_to_empty() {
    let cells: Arena<i64> = Arena::new();
    assert_eq!(copy_from_foreign(&cells, &FlatArray::new(7, None)), Ok(vec![]));
    assert_eq!(copy_from_foreign(&cells, &FlatArray::new(0, Some(99))), Ok(vec![]));
}

#[test]
fn size_beyond_buffer_is_refused() {
    let mut cells: Arena<i8> = Arena::new();
    let (d, _) = to_foreign(&mut cells, &vec![1, 2, 3]);
    let longer = FlatArray::new(4, d.data);
    assert_eq!(copy_from_foreign(&cells, &longer), Err(DecodeError::SizeMismatch));
    let shorter = FlatArray::new(2, d.data);
    assert_eq!(copy_from_foreign(&cells, &shorter), Ok(vec![1, 2]));
}

#[test]
fn dispose_once_and_only_once() {
    let mut cells: Arena<usize> = Arena::new();
    let (d, _) = to_foreign(&mut cells, &vec![10, 20]);
    assert_eq!(cells.live_blocks(), 1);
    assert_eq!(copy_from_foreign(&cells, &d), Ok(vec![10, 20]));
    assert_eq!(dispose(&mut cells, &d, Side::Native), Ok(()));
    assert_eq!(cells.live_blocks(), 0);
    assert_eq!(dispose(&mut cells, &d, Side::Native), Err(OwnershipError::NotLive));
    assert_eq!(copy_from_foreign(&cells, &d), Err(DecodeError::SizeMismatch));
}

#[test]
fn adopting_takes_native_buffers_only() {
    let mut cells: Arena<i32> = Arena::new();
    let (d, _) = to_foreign(&mut cells, &vec![1, 2]);
    let p = cells.allocate(vec![5, 6, 7], Side::Foreign);
    let foreign = FlatArray::new(3, Some(p));
    assert_eq!(from_foreign(&mut cells, &foreign, Mode::Adopting), Err(DecodeError::AllocatorMismatch));
    assert_eq!(from_foreign(&mut cells, &foreign, Mode::Copying), Ok(vec![5, 6, 7]));
    assert_eq!(cells.live_blocks(), 2);
    assert_eq!(from_foreign(&mut cells, &d, Mode::Adopting), Ok(vec![1, 2]));
    assert_eq!(cells.live_blocks(), 1);
    assert_eq!(from_foreign(&mut cells, &d, Mode::Adopting), Err(DecodeError::SizeMismatch));
}

#[test]
fn round_trip_every_primitive_width() {
    let mut bytes: Arena<u8> = Arena::new();
    let mut int8s: Arena<i8> = Arena::new();
    let mut int64s: Arena<i64> = Arena::new();
    let mut sizes: Arena<usize> = Arena::new();
    let a = vec![0u8, 255, 7];
    let b = vec![i8::MIN, -1, i8::MAX];
    let c = vec![i64::MIN, 0, i64::MAX];
    let d = vec![0usize, usize::MAX];
    let (da, _) = to_foreign(&mut bytes, &a);
    let (db, _) = to_foreign(&mut int8s, &b);
    let (dc, _) = to_foreign(&mut int64s, &c);
    let (dd, _) = to_foreign(&mut sizes, &d);
    assert_eq!(copy_from_foreign(&bytes, &da), Ok(a));
    assert_eq!(copy_from_foreign(&int8s, &db), Ok(b));
    assert_eq!(copy_from_foreign(&int64s, &dc), Ok(c));
    assert_eq!(copy_from_foreign(&sizes, &dd), Ok(d));
}

#[test]
fn copying_leaves_buffer_and_owner() {
    let mut cells: Arena<i32> = Arena::new();
    let (d, _) = to_foreign(&mut cells, &vec![4, 5, 6]);
    assert_eq!(copy_from_foreign(&cells, &d), Ok(vec![4, 5, 6]));
    assert_eq!(copy_from_foreign(&cells, &d), Ok(vec![4, 5, 6]));
    assert_eq!(fastdeploy_rs::scalar::owner_of(&cells, &d), Some(Side::Native));
    assert_eq!(cells.live_blocks(), 1);
    assert_eq!(cells.bound_of(0), 3);
    assert_eq!(cells.get(0, 2), 6);
}

#[test]
fn only_the_owner_frees_with_its_own_allocator() {
    let mut cells: Arena<i32> = Arena::new();
    let (d, _) = to_foreign(&mut cells, &vec![1]);
    assert_eq!(dispose(&mut cells, &d, Side::Foreign), Err(OwnershipError::NotOwner));
    assert_eq!(fastdeploy_rs::scalar::hand_off(&mut cells, &d, Side::Foreign), Err(OwnershipError::NotOwner));
    assert_eq!(fastdeploy_rs::scalar::hand_off(&mut cells, &d, Side::Native), Ok(()));
    assert_eq!(fastdeploy_rs::scalar::owner_of(&cells, &d), Some(Side::Foreign));
    assert_eq!(cells.allocator_of(0), Some(Side::Native));
    assert_eq!(dispose(&mut cells, &d, Side::Native), Err(OwnershipError::NotOwner));
    assert_eq!(dispose(&mut cells, &d, Side::Foreign), Err(OwnershipError::AllocatorMismatch));
    assert_eq!(copy_from_foreign(&cells, &d), Ok(vec![1]));
    assert_eq!(fastdeploy_rs::scalar::hand_off(&mut cells, &d, Side::Foreign), Ok(()));
    assert_eq!(cells.may_release(0, Side::Native), Ok(()));
    assert_eq!(dispose(&mut cells, &d, Side::Native), Ok(()));
    assert!(!cells.is_live(0));
    assert_eq!(fastdeploy_rs::scalar::owner_of(&cells, &d), None);
    assert_eq!(fastdeploy_rs::scalar::hand_off(&mut cells, &d, Side::Native), Err(OwnershipError::NotLive));
}

#[test]
fn null_descriptor_has_nothing_to_free() {
    let mut cells: Arena<u8> = Arena::new();
    let d: FlatArray<u8> = FlatArray::null();
    assert!(d.is_null());
    assert_eq!(dispose(&mut cells, &d, Side::Native), Ok(()));
    assert_eq!(dispose(&mut cells, &d, Side::Foreign), Ok(()));
    assert_eq!(fastdeploy_rs::scalar::hand_off(&mut cells, &d, Side::Native), Ok(()));
    assert_eq!(from_foreign(&mut cells, &d, Mode::Adopting), Ok(vec![]));
}

#[test]
fn adopting_needs_the_exact_size() {
    let mut cells: Arena<i32> = Arena::new();
    let (d, _) = to_foreign(&mut cells, &vec![1, 2, 3]);
    let shorter = FlatArray::new(2, d.data);
    assert_eq!(from_foreign(&mut cells, &shorter, Mode::Adopting), Err(DecodeError::SizeMismatch));
    assert_eq!(cells.live_blocks(), 1);
    assert_eq!(from_foreign(&mut cells, &d, Mode::Adopting), Ok(vec![1, 2, 3]));
    assert_eq!(cells.live_blocks(), 0);
    assert_eq!(cells.slot_count(), 1);
}

#[test]
fn copying_is_the_default_mode() {
    assert_eq!(Mode::default(), Mode::Copying);
    let mut cells: Arena<i32> = Arena::new();
    let (d, _) = to_foreign(&mut cells, &vec![1]);
    assert_eq!(from_foreign(&mut cells, &d, Mode::default()), Ok(vec![1]));
    assert_eq!(cells.live_blocks(), 1);
}

#[test]
fn side_other_swaps() {
    assert_eq!(Side::Native.other(), Side::Foreign);
    assert_eq!(Side::Foreign.other(), Side::Native);
}
