use fastdeploy_rs::descriptor::{FlatArray, Float32, NestedArray};
use fastdeploy_rs::errors::{DecodeError, OwnershipError};
use fastdeploy_rs::nested::{build_2d, build_3d, decode_2d, decode_3d, dispose_2d, dispose_3d, Memory};
use fastdeploy_rs::ownership::Side;
use fastdeploy_rs::scalar::{copy_from_foreign, dispose};

#[test]
fn jagged_rows_keep_their_lengths() {
    let mut mem: Memory<i32> = Memory::new();
    let rows = vec![vec![1, 2], vec![3]];
    let d = build_2d(&mut mem, &rows);
    assert_eq!(d.size, 2);
    let outer = copy_from_foreign(&mem.rows, &d).unwrap();
    assert_eq!(outer[0].size, 2);
    assert_eq!(outer[1].size, 1);
    let back = decode_2d(&mem, &d).unwrap();
    assert_eq!(back, vec![vec![1, 2], vec![3]]);
    assert_eq!(back[0].len(), 2);
    assert_eq!(back[1].len(), 1);
}

#[test]
fn empty_rows_and_empty_arrays() {
    let mut mem: Memory<i64> = Memory::new();
    let none: Vec<Vec<i64>> = Vec::new();
    let d = build_2d(&mut mem, &none);
    assert_eq!((d.size, d.data), (0, None));
    assert_eq!(mem.rows.slot_count(), 0);
    assert_eq!(decode_2d(&mem, &d), Ok(vec![]));

    let rows = vec![vec![], vec![5], vec![]];
    let d = build_2d(&mut mem, &rows);
    assert_eq!(d.size, 3);
    assert_eq!(mem.cells.live_blocks(), 1);
    let outer = copy_from_foreign(&mem.rows, &d).unwrap();
    assert_eq!((outer[0].size, outer[0].data), (0, None));
    assert_eq!((outer[2].size, outer[2].data), (0, None));
    assert_eq!(decode_2d(&mem, &d), Ok(rows));
}

#[test]
fn two_level_floats_round_trip() {
    let mut mem: Memory<Float32> = Memory::new();
    let f = |x: f32| Float32::from_bits(x.to_bits());
    let rows = vec![vec![f(0.0), f(1.5), f(2.25), f(3.0)], vec![f(-7.5)]];
    let d = build_2d(&mut mem, &rows);
    assert_eq!(decode_2d(&mem, &d), Ok(rows));
}

#[test]
fn three_levels_round_trip() {
    let mut mem: Memory<i32> = Memory::new();
    let planes = vec![vec![vec![1, 2, 3], vec![]], vec![], vec![vec![4]]];
    let d = build_3d(&mut mem, &planes);
    assert_eq!(d.size, 3);
    assert_eq!(decode_3d(&mem, &d), Ok(planes));
    assert_eq!(mem.cells.live_blocks(), 2);
    assert_eq!(mem.rows.live_blocks(), 2);
    assert_eq!(mem.planes.live_blocks(), 1);
}

#[test]
fn disposal_frees_rows_and_then_the_outer_buffer() {
    let mut mem: Memory<i32> = Memory::new();
    let (keep, _) = fastdeploy_rs::scalar::to_foreign(&mut mem.cells, &vec![9, 9]);
    let rows = vec![vec![1, 2], vec![], vec![3]];
    let d = build_2d(&mut mem, &rows);
    assert_eq!(mem.cells.live_blocks(), 3);
    assert_eq!(mem.rows.live_blocks(), 1);
    assert_eq!(decode_2d(&mem, &d), Ok(rows));
    assert_eq!(dispose_2d(&mut mem, &d, Side::Native), Ok(()));
    assert_eq!(mem.cells.live_blocks(), 1);
    assert_eq!(mem.rows.live_blocks(), 0);
    assert_eq!(copy_from_foreign(&mem.cells, &keep), Ok(vec![9, 9]));
    assert_eq!(dispose_2d(&mut mem, &d, Side::Native), Err(OwnershipError::NotLive));
    assert_eq!(decode_2d(&mem, &d), Err(DecodeError::SizeMismatch));
}

#[test]
fn disposal_of_three_levels_leaves_nothing() {
    let mut mem: Memory<u8> = Memory::new();
    let planes = vec![vec![vec![1u8], vec![2, 3]], vec![vec![4, 5, 6]]];
    let d = build_3d(&mut mem, &planes);
    assert_eq!(mem.cells.live_blocks(), 3);
    assert_eq!(mem.rows.live_blocks(), 2);
    assert_eq!(mem.planes.live_blocks(), 1);
    assert_eq!(dispose_3d(&mut mem, &d, Side::Native), Ok(()));
    assert_eq!(mem.cells.live_blocks(), 0);
    assert_eq!(mem.rows.live_blocks(), 0);
    assert_eq!(mem.planes.live_blocks(), 0);
    assert_eq!(dispose_3d(&mut mem, &d, Side::Native), Err(OwnershipError::NotLive));
}

#[test]
fn a_row_freed_twice_stops_the_disposal() {
    let mut mem: Memory<i32> = Memory::new();
    let rows = vec![vec![1], vec![2], vec![3]];
    let d = build_2d(&mut mem, &rows);
    let outer = copy_from_foreign(&mem.rows, &d).unwrap();
    assert_eq!(dispose(&mut mem.cells, &outer[1], Side::Native), Ok(()));
    assert_eq!(dispose_2d(&mut mem, &d, Side::Native), Err(OwnershipError::NotLive));
    // the first row went, the third and the outer buffer stay
    assert_eq!(mem.cells.live_blocks(), 1);
    assert_eq!(mem.rows.live_blocks(), 1);
    assert_eq!(copy_from_foreign(&mem.cells, &outer[2]), Ok(vec![3]));
}

#[test]
fn the_foreign_side_may_not_free_native_rows() {
    let mut mem: Memory<i32> = Memory::new();
    let d = build_2d(&mut mem, &vec![vec![1]]);
    assert_eq!(dispose_2d(&mut mem, &d, Side::Foreign), Err(OwnershipError::NotOwner));
    assert_eq!(mem.cells.live_blocks(), 1);
    assert_eq!(mem.rows.live_blocks(), 1);
}

#[test]
fn a_bad_row_fails_the_decode() {
    let mut mem: Memory<i32> = Memory::new();
    let (good, _) = fastdeploy_rs::scalar::to_foreign(&mut mem.cells, &vec![1, 2]);
    let bad: FlatArray<i32> = FlatArray::new(3, good.data);
    let p = mem.rows.allocate(vec![good, bad], Side::Foreign);
    let d: NestedArray<i32> = FlatArray::new(2, Some(p));
    assert_eq!(decode_2d(&mem, &d), Err(DecodeError::SizeMismatch));
    let only_first: NestedArray<i32> = FlatArray::new(1, Some(p));
    assert_eq!(decode_2d(&mem, &only_first), Ok(vec![vec![1, 2]]));
    let too_many: NestedArray<i32> = FlatArray::new(3, Some(p));
    assert_eq!(decode_2d(&mem, &too_many), Err(DecodeError::SizeMismatch));
    assert_eq!(dispose_2d(&mut mem, &too_many, Side::Foreign), Err(OwnershipError::SizeMismatch));
}
