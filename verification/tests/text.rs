use fastdeploy_rs::descriptor::{FlatArray, NestedArray, StringDescriptor, ThreeDimArray};
use fastdeploy_rs::errors::{DecodeError, FastDeployError, OwnershipError};
use fastdeploy_rs::memory::Arena;
use fastdeploy_rs::nested::{dispose_2d, Memory};
use fastdeploy_rs::ownership::Side;
use fastdeploy_rs::scalar::copy_from_foreign;
use fastdeploy_rs::text::{bytes_to_string, foreign_to_string, foreign_to_string_rows, foreign_to_strings};
use fastdeploy_rs::text::{string_to_foreign, strings_to_foreign, text_or_fault};

fn raw_text(cells: &mut Arena<u8>, bytes: &[u8]) -> StringDescriptor {
    let p = cells.allocate(bytes.to_vec(), Side::Foreign);
    FlatArray::new(bytes.len(), Some(p))
}

#[test]
fn multi_byte_text_keeps_its_bytes() {
    let mut cells: Arena<u8> = Arena::new();
    let d = string_to_foreign(&mut cells, "héllo");
    assert_eq!(d.size, 6);
    assert_eq!(copy_from_foreign(&cells, &d), Ok(vec![0x68, 0xc3, 0xa9, 0x6c, 0x6c, 0x6f]));
    let back = foreign_to_string(&cells, &d).unwrap();
    assert_eq!(back, "héllo");
    assert_eq!(back.as_bytes(), "héllo".as_bytes());
}

#[test]
fn text_is_terminated_but_size_decides() {
    let mut cells: Arena<u8> = Arena::new();
    let d = string_to_foreign(&mut cells, "ab");
    assert_eq!(d.size, 2);
    assert_eq!(cells.bound_of(0), 3);
    assert_eq!(cells.get(0, 2), 0);
    let shorter = FlatArray::new(1, d.data);
    assert_eq!(foreign_to_string(&cells, &shorter), Ok("a".to_string()));
    let with_terminator = FlatArray::new(3, d.data);
    assert_eq!(foreign_to_string(&cells, &with_terminator), Ok("ab\0".to_string()));
    let beyond = FlatArray::new(4, d.data);
    assert_eq!(foreign_to_string(&cells, &beyond), Err(DecodeError::SizeMismatch));
}

#[test]
fn text_with_a_zero_byte_inside() {
    let mut cells: Arena<u8> = Arena::new();
    let d = string_to_foreign(&mut cells, "a\0b");
    assert_eq!(d.size, 3);
    assert_eq!(foreign_to_string(&cells, &d), Ok("a\0b".to_string()));
}

#[test]
fn empty_and_null_text() {
    let mut cells: Arena<u8> = Arena::new();
    let d = string_to_foreign(&mut cells, "");
    assert_eq!(d.size, 0);
    assert_eq!(d.data, Some(0));
    assert_eq!(foreign_to_string(&cells, &d), Ok(String::new()));
    assert_eq!(foreign_to_string(&cells, &FlatArray::null()), Ok(String::new()));
    assert_eq!(foreign_to_string(&cells, &FlatArray::new(5, None)), Ok(String::new()));
}

#[test]
fn invalid_byte_is_reported_with_its_offset() {
    let mut cells: Arena<u8> = Arena::new();
    let d = raw_text(&mut cells, &[b'a', b'b', 0xff, b'c']);
    assert_eq!(
        foreign_to_string(&cells, &d),
        Err(DecodeError::InvalidText { offset: 2, length: Some(1) })
    );
    let d = raw_text(&mut cells, &[0xe2, 0x28, 0xa1]);
    assert_eq!(
        foreign_to_string(&cells, &d),
        Err(DecodeError::InvalidText { offset: 0, length: Some(1) })
    );
}

#[test]
fn text_cut_inside_a_character() {
    let mut cells: Arena<u8> = Arena::new();
    let d = string_to_foreign(&mut cells, "héllo");
    let cut = FlatArray::new(2, d.data);
    assert_eq!(foreign_to_string(&cells, &cut), Err(DecodeError::InvalidText { offset: 1, length: None }));
}

#[test]
fn bytes_to_string_checks_utf8() {
    assert_eq!(bytes_to_string("grüß".as_bytes()), Ok("grüß".to_string()));
    assert_eq!(bytes_to_string(&[]), Ok(String::new()));
    assert_eq!(
        bytes_to_string(&[0x61, 0xed, 0xa0, 0x80]),
        Err(DecodeError::InvalidText { offset: 1, length: Some(1) })
    );
    assert_eq!(
        bytes_to_string(&[0xf0, 0x9f, 0x98]),
        Err(DecodeError::InvalidText { offset: 0, length: None })
    );
}

#[test]
fn fault_of_the_check_becomes_the_error() {
    let bytes = [b'o', b'k', 0xc3, 0x28];
    let e = std::str::from_utf8(&bytes).unwrap_err();
    assert_eq!(text_or_fault(Err(e)), Err(DecodeError::InvalidText { offset: 2, length: Some(1) }));
    assert_eq!(DecodeError::invalid_text(&e), DecodeError::InvalidText { offset: 2, length: Some(1) });
    assert_eq!(FastDeployError::from(e), FastDeployError::InvalidUtf8 { error_len: Some(1), valid_up_to: 2 });
    assert_eq!(text_or_fault(Ok("fine")), Ok("fine".to_string()));
}

#[test]
fn arrays_of_strings_round_trip() {
    let mut mem: Memory<u8> = Memory::new();
    let texts = vec!["one".to_string(), String::new(), "dreißig".to_string(), "日本語".to_string()];
    let d = strings_to_foreign(&mut mem, &texts);
    assert_eq!(d.size, 4);
    assert_eq!(mem.cells.live_blocks(), 4);
    assert_eq!(foreign_to_strings(&mem, &d), Ok(texts));
    let none = strings_to_foreign(&mut mem, &Vec::new());
    assert_eq!((none.size, none.data), (0, None));
    assert_eq!(foreign_to_strings(&mem, &none), Ok(vec![]));
}

#[test]
fn first_bad_string_decides() {
    let mut mem: Memory<u8> = Memory::new();
    let good = string_to_foreign(&mut mem.cells, "good");
    let bad = raw_text(&mut mem.cells, &[b'x', 0x80]);
    let worse = raw_text(&mut mem.cells, &[0xff]);
    let p = mem.rows.allocate(vec![good, bad, worse], Side::Foreign);
    let d: NestedArray<u8> = FlatArray::new(3, Some(p));
    assert_eq!(
        foreign_to_strings(&mem, &d),
        Err(DecodeError::InvalidText { offset: 1, length: Some(1) })
    );
    assert_eq!(foreign_to_strings(&mem, &FlatArray::new(1, Some(p))), Ok(vec!["good".to_string()]));
}

#[test]
fn arrays_of_arrays_of_strings_decode() {
    let mut mem: Memory<u8> = Memory::new();
    let first = strings_to_foreign(&mut mem, &vec!["a".to_string(), "b".to_string()]);
    let second = strings_to_foreign(&mut mem, &vec![]);
    let third = strings_to_foreign(&mut mem, &vec!["ç".to_string()]);
    let p = mem.planes.allocate(vec![first, second, third], Side::Native);
    let d: ThreeDimArray<u8> = FlatArray::new(3, Some(p));
    assert_eq!(
        foreign_to_string_rows(&mem, &d),
        Ok(vec![vec!["a".to_string(), "b".to_string()], vec![], vec!["ç".to_string()]])
    );
    let bad = raw_text(&mut mem.cells, &[0xc0]);
    let q = mem.rows.allocate(vec![bad], Side::Foreign);
    let r = mem.planes.allocate(vec![first, FlatArray::new(1, Some(q))], Side::Foreign);
    assert_eq!(
        foreign_to_string_rows(&mem, &FlatArray::new(2, Some(r))),
        Err(DecodeError::InvalidText { offset: 0, length: Some(1) })
    );
}

#[test]
fn strings_are_freed_once() {
    let mut mem: Memory<u8> = Memory::new();
    let texts = vec!["x".to_string(), String::new()];
    let d = strings_to_foreign(&mut mem, &texts);
    assert_eq!(mem.cells.live_blocks(), 2);
    assert_eq!(mem.rows.live_blocks(), 1);
    assert_eq!(foreign_to_strings(&mem, &d), Ok(texts));
    assert_eq!(dispose_2d(&mut mem, &d, Side::Native), Ok(()));
    assert_eq!(mem.cells.live_blocks(), 0);
    assert_eq!(mem.rows.live_blocks(), 0);
    assert_eq!(dispose_2d(&mut mem, &d, Side::Native), Err(OwnershipError::NotLive));
}
