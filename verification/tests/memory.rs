use fastdeploy_rs::descriptor::FlatArray;
use fastdeploy_rs::errors::{DecodeError, OwnershipError};
use fastdeploy_rs::heap::{ForeignClassifyResult, Heap};
use fastdeploy_rs::memory::Arena;
use fastdeploy_rs::nested::{decode_2d, decode_3d, dispose_2d, dispose_3d, Memory};
use fastdeploy_rs::ownership::Side;
use fastdeploy_rs::result::ClassifyResult;

#[test]
fn addresses_are_never_used_again() {
    let mut cells: Arena<u8> = Arena::new();
    let a = cells.allocate(vec![1], Side::Native);
    assert_eq!(cells.release(a, Side::Native), Ok(()));
    let b = cells.allocate(vec![2], Side::Native);
    assert_eq!((a, b), (0, 1));
    assert!(!cells.is_live(a));
    assert!(cells.is_live(b));
    assert!(!cells.is_live(2));
    assert_eq!(cells.slot_count(), 2);
    assert_eq!(cells.live_blocks(), 1);
    assert_eq!(cells.bound_of(a), 0);
    assert_eq!(cells.bound_of(b), 1);
    assert_eq!(cells.bound_of(7), 0);
}

#[test]
fn each_side_frees_what_it_allocated() {
    let mut cells: Arena<i32> = Arena::new();
    let native = cells.allocate(vec![1, 2], Side::Native);
    let foreign = cells.allocate(vec![3], Side::Foreign);
    assert_eq!(cells.owner_of(native), Some(Side::Native));
    assert_eq!(cells.owner_of(foreign), Some(Side::Foreign));
    assert_eq!(cells.owner_of(9), None);
    assert_eq!(cells.allocator_of(foreign), Some(Side::Foreign));
    assert_eq!(cells.may_release(native, Side::Foreign), Err(OwnershipError::NotOwner));
    assert_eq!(cells.may_release(foreign, Side::Native), Err(OwnershipError::NotOwner));
    assert_eq!(cells.may_release(9, Side::Native), Err(OwnershipError::NotLive));
    assert_eq!(cells.live_blocks(), 2);
    assert_eq!(cells.release(foreign, Side::Foreign), Ok(()));
    assert_eq!(cells.release(native, Side::Native), Ok(()));
    assert_eq!(cells.release(native, Side::Native), Err(OwnershipError::NotLive));
    assert_eq!(cells.live_blocks(), 0);
}

#[test]
fn adoption_takes_the_buffer_out() {
    let mut cells: Arena<i64> = Arena::new();
    let native = cells.allocate(vec![5, 6, 7], Side::Native);
    let foreign = cells.allocate(vec![8], Side::Foreign);
    assert_eq!(cells.read(native, 2), vec![5, 6]);
    assert_eq!(cells.get(native, 1), 6);
    assert_eq!(cells.adopt(foreign), Err(OwnershipError::AllocatorMismatch));
    assert_eq!(cells.adopt(native), Ok(vec![5, 6, 7]));
    assert_eq!(cells.adopt(native), Err(OwnershipError::NotLive));
    assert_eq!(cells.adopt(40), Err(OwnershipError::NotLive));
    assert_eq!(cells.live_blocks(), 1);
    assert_eq!(cells.read(foreign, 1), vec![8]);
}

#[test]
fn a_buffer_handed_over_can_be_handed_back() {
    let mut cells: Arena<u8> = Arena::new();
    let p = cells.allocate(vec![1], Side::Native);
    assert_eq!(cells.hand_off(p, Side::Native), Ok(()));
    assert_eq!(cells.owner_of(p), Some(Side::Foreign));
    assert_eq!(cells.release(p, Side::Foreign), Err(OwnershipError::AllocatorMismatch));
    assert_eq!(cells.hand_off(p, Side::Native), Err(OwnershipError::NotOwner));
    assert_eq!(cells.hand_off(p, Side::Foreign), Ok(()));
    assert_eq!(cells.owner_of(p), Some(Side::Native));
    assert_eq!(cells.hand_off(3, Side::Native), Err(OwnershipError::NotLive));
    assert_eq!(cells.read(p, 1), vec![1]);
}

#[test]
fn the_foreign_side_frees_what_it_built() {
    let mut mem: Memory<i32> = Memory::new();
    let a = mem.cells.allocate(vec![1, 2], Side::Foreign);
    let b = mem.cells.allocate(vec![3], Side::Foreign);
    let rows = mem.rows.allocate(vec![FlatArray::new(2, Some(a)), FlatArray::new(1, Some(b))], Side::Foreign);
    let planes = mem.planes.allocate(vec![FlatArray::new(2, Some(rows)), FlatArray::null()], Side::Foreign);
    let d2 = FlatArray::new(2, Some(rows));
    let d3 = FlatArray::new(2, Some(planes));
    assert_eq!(decode_2d(&mem, &d2), Ok(vec![vec![1, 2], vec![3]]));
    assert_eq!(decode_3d(&mem, &d3), Ok(vec![vec![vec![1, 2], vec![3]], vec![]]));
    assert_eq!(dispose_3d(&mut mem, &d3, Side::Native), Err(OwnershipError::NotOwner));
    assert_eq!(dispose_3d(&mut mem, &d3, Side::Foreign), Ok(()));
    assert_eq!(mem.cells.live_blocks() + mem.rows.live_blocks() + mem.planes.live_blocks(), 0);
    assert_eq!(dispose_2d(&mut mem, &d2, Side::Foreign), Err(OwnershipError::NotLive));
    assert_eq!(decode_3d(&mem, &d3), Err(DecodeError::SizeMismatch));
}

#[test]
fn three_levels_fail_on_the_first_bad_plane() {
    let mut mem: Memory<u8> = Memory::new();
    let a = mem.cells.allocate(vec![1], Side::Foreign);
    let good = mem.rows.allocate(vec![FlatArray::new(1, Some(a))], Side::Foreign);
    let bad = mem.rows.allocate(vec![FlatArray::new(2, Some(a))], Side::Foreign);
    let planes = mem.planes.allocate(
        vec![FlatArray::new(1, Some(good)), FlatArray::new(1, Some(bad)), FlatArray::new(9, Some(good))],
        Side::Foreign,
    );
    assert_eq!(decode_3d(&mem, &FlatArray::new(3, Some(planes))), Err(DecodeError::SizeMismatch));
    assert_eq!(decode_3d(&mem, &FlatArray::new(1, Some(planes))), Ok(vec![vec![vec![1]]]));
    assert_eq!(decode_3d(&mem, &FlatArray::new(4, Some(planes))), Err(DecodeError::SizeMismatch));
    assert_eq!(decode_3d(&mem, &FlatArray::new(4, None)), Ok(vec![]));
    // the first plane goes, the second is refused: its row is gone by then
    assert_eq!(dispose_3d(&mut mem, &FlatArray::new(2, Some(planes)), Side::Foreign), Err(OwnershipError::NotLive));
    assert_eq!(mem.cells.live_blocks(), 0);
    assert_eq!(mem.rows.live_blocks(), 1);
    assert_eq!(mem.planes.live_blocks(), 1);
}

#[test]
fn a_record_of_the_engine_is_freed_by_the_engine() {
    let mut heap = Heap::new();
    let labels = heap.int32s.cells.allocate(vec![4], Side::Foreign);
    let scores = heap.floats.cells.allocate(
        vec![fastdeploy_rs::descriptor::Float32::from_bits(1.0f32.to_bits())],
        Side::Foreign,
    );
    let d = ForeignClassifyResult {
        label_ids: FlatArray::new(1, Some(labels)),
        scores: FlatArray::new(1, Some(scores)),
        type_: 1,
    };
    let value = ClassifyResult::decode_record(&heap, &d).unwrap();
    assert_eq!(value.label_ids, vec![4]);
    assert_eq!(ClassifyResult::release_raw_ptr(&mut heap, &d, Side::Native), Err(OwnershipError::NotOwner));
    assert_eq!(heap.int32s.cells.live_blocks(), 1);
    assert_eq!(ClassifyResult::release_raw_ptr(&mut heap, &d, Side::Foreign), Ok(()));
    assert_eq!(heap.int32s.cells.live_blocks() + heap.floats.cells.live_blocks(), 0);
    // what was decoded is the caller's own
    assert_eq!(value.label_ids, vec![4]);
}
