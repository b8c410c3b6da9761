//! One function for each conversion between a native collection and the
//! foreign array of its shape.

use vstd::prelude::*;
use crate::descriptor::{FlatArray, Float32, NestedArray, StringDescriptor};
use crate::errors::DecodeError;
use crate::heap::{flag_of, raw_flag, Heap, HeapView};
use crate::nested::{build_2d, decode_2d, decoded_2d, encoded_2d, rows_of, MemoryView};
use crate::scalar::{copy_from_foreign, decoded, encoded, to_foreign};
use crate::text::{decoded_text, decoded_texts, encoded_text, encoded_text_rows, encoded_texts, texts_of};
use crate::text::{foreign_to_string, foreign_to_strings, string_to_foreign};

verus! {

/// The texts of a native array of string slices.
pub open spec fn slices_of(v: Seq<&str>) -> Seq<Seq<char>> {
    Seq::new(v.len(), |i: int| v[i]@)
}

/// A foreign flag is set where its integer is one or more.
#[inline]
pub fn fd_c_bool_to_bool(ret: i8) -> (b: bool)
    ensures
        b == flag_of(ret),
{
    ret >= 1
}

/// Decodes a string by copying.
pub fn fd_c_cstr_to_string(heap: &Heap, str: StringDescriptor) -> (r: Result<String, DecodeError>)
    ensures
        match decoded_text(heap@.bytes.cells, str) {
            Ok(text) => r is Ok && r->Ok_0@ == text,
            Err(e) => r == Err::<String, DecodeError>(e),
        },
{
    foreign_to_string(&heap.bytes.cells, &str)
}

/// Decodes an array of strings by copying.
pub fn fd_one_dim_array_c_str_to_vec_string(heap: &Heap, array: NestedArray<u8>) -> (r: Result<
    Vec<String>,
    DecodeError,
>)
    ensures
        match decoded_texts(heap@.bytes, array) {
            Ok(v) => r is Ok && texts_of(r->Ok_0@) == v,
            Err(e) => r == Err::<Vec<String>, DecodeError>(e),
        },
{
    foreign_to_strings(&heap.bytes, &array)
}

/// Decodes an array of floats by copying. A null array is empty.
pub fn fd_c_one_dim_array_float_to_vec_f32(heap: &Heap, array: FlatArray<Float32>) -> (r: Result<
    Vec<Float32>,
    DecodeError,
>)
    ensures
        match decoded(heap@.floats.cells, array) {
            Ok(v) => r is Ok && r->Ok_0@ == v,
            Err(e) => r == Err::<Vec<Float32>, DecodeError>(e),
        },
{
    copy_from_foreign(&heap.floats.cells, &array)
}

/// Decodes an array of 32-bit integers by copying. A null array is empty.
pub fn fd_c_one_dim_array_int32_to_vec_i32(heap: &Heap, array: FlatArray<i32>) -> (r: Result<Vec<i32>, DecodeError>)
    ensures
        match decoded(heap@.int32s.cells, array) {
            Ok(v) => r is Ok && r->Ok_0@ == v,
            Err(e) => r == Err::<Vec<i32>, DecodeError>(e),
        },
{
    copy_from_foreign(&heap.int32s.cells, &array)
}

/// Decodes an array of 64-bit integers by copying. A null array is empty.
pub fn fd_c_one_dim_array_int64_to_vec_i64(heap: &Heap, array: FlatArray<i64>) -> (r: Result<Vec<i64>, DecodeError>)
    ensures
        match decoded(heap@.int64s.cells, array) {
            Ok(v) => r is Ok && r->Ok_0@ == v,
            Err(e) => r == Err::<Vec<i64>, DecodeError>(e),
        },
{
    copy_from_foreign(&heap.int64s.cells, &array)
}

/// Decodes an array of bytes by copying. A null array is empty.
pub fn fd_c_one_dim_array_uint8_to_vec_u8(heap: &Heap, array: FlatArray<u8>) -> (r: Result<Vec<u8>, DecodeError>)
    ensures
        match decoded(heap@.bytes.cells, array) {
            Ok(v) => r is Ok && r->Ok_0@ == v,
            Err(e) => r == Err::<Vec<u8>, DecodeError>(e),
        },
{
    copy_from_foreign(&heap.bytes.cells, &array)
}

/// Decodes a two-level array of floats by copying.
pub fn fd_c_two_dim_array_float_to_vec_float(heap: &Heap, array: NestedArray<Float32>) -> (r: Result<
    Vec<Vec<Float32>>,
    DecodeError,
>)
    ensures
        match decoded_2d(heap@.floats, array) {
            Ok(v) => r is Ok && rows_of(r->Ok_0@) == v,
            Err(e) => r == Err::<Vec<Vec<Float32>>, DecodeError>(e),
        },
{
    decode_2d(&heap.floats, &array)
}

/// Decodes a two-level array of 32-bit integers by copying.
pub fn fd_c_two_dim_array_int32_to_vec_i32(heap: &Heap, array: NestedArray<i32>) -> (r: Result<
    Vec<Vec<i32>>,
    DecodeError,
>)
    ensures
        match decoded_2d(heap@.int32s, array) {
            Ok(v) => r is Ok && rows_of(r->Ok_0@) == v,
            Err(e) => r == Err::<Vec<Vec<i32>>, DecodeError>(e),
        },
{
    decode_2d(&heap.int32s, &array)
}

/// A flag crosses as one or zero.
#[inline]
pub fn bool_to_fd_c_bool(ret: bool) -> (raw: i8)
    ensures
        raw == raw_flag(ret),
        flag_of(raw) == ret,
{
    if ret {
        1
    } else {
        0
    }
}

/// Encodes a string.
pub fn string_to_fd_c_cstr(heap: &mut Heap, str: &str) -> (d: StringDescriptor)
    ensures
        final(heap)@ == (HeapView {
            bytes: MemoryView { cells: encoded_text(old(heap)@.bytes.cells, str@).0, ..old(heap)@.bytes },
            ..old(heap)@
        }),
        d == encoded_text(old(heap)@.bytes.cells, str@).1,
{
    string_to_foreign(&mut heap.bytes.cells, str)
}

/// Encodes an array of strings.
pub fn vec_string_to_fd_one_dim_array_c_str(heap: &mut Heap, array: Vec<&str>) -> (d: NestedArray<u8>)
    ensures
        final(heap)@ == (HeapView {
            bytes: encoded_texts(old(heap)@.bytes, slices_of(array@)).0,
            ..old(heap)@
        }),
        d == encoded_texts(old(heap)@.bytes, slices_of(array@)).1,
{
    let ghost before = heap@;
    let ghost v = slices_of(array@);
    let mut result: Vec<StringDescriptor> = Vec::with_capacity(array.len());
    let mut i: usize = 0;
    while i < array.len()
        invariant
            i <= array.len(),
            v == slices_of(array@),
            heap@ == (HeapView { bytes: MemoryView { cells: heap@.bytes.cells, ..before.bytes }, ..before }),
            (heap@.bytes.cells, result@) == encoded_text_rows(before.bytes.cells, v.take(i as int)),
        decreases array.len() - i,
    {
        let d = string_to_foreign(&mut heap.bytes.cells, array[i]);
        result.push(d);
        proof {
            assert(v.take(i + 1).drop_last() =~= v.take(i as int));
            assert(v.take(i + 1).last() == array[i as int]@);
        }
        i += 1;
    }
    proof {
        assert(v.take(i as int) =~= v);
    }
    let (d, _) = to_foreign(&mut heap.bytes.rows, &result);
    d
}

/// Encodes an array of floats.
pub fn vec_f32_to_fd_c_one_dim_array_float(heap: &mut Heap, array: Vec<Float32>) -> (d: FlatArray<Float32>)
    ensures
        final(heap)@ == (HeapView {
            floats: MemoryView { cells: encoded(old(heap)@.floats.cells, array@).0, ..old(heap)@.floats },
            ..old(heap)@
        }),
        d == encoded(old(heap)@.floats.cells, array@).1,
{
    let (d, _) = to_foreign(&mut heap.floats.cells, &array);
    d
}

/// Encodes an array of 32-bit integers.
pub fn vec_i32_to_fd_c_one_dim_array_int32(heap: &mut Heap, array: Vec<i32>) -> (d: FlatArray<i32>)
    ensures
        final(heap)@ == (HeapView {
            int32s: MemoryView { cells: encoded(old(heap)@.int32s.cells, array@).0, ..old(heap)@.int32s },
            ..old(heap)@
        }),
        d == encoded(old(heap)@.int32s.cells, array@).1,
{
    let (d, _) = to_foreign(&mut heap.int32s.cells, &array);
    d
}

/// Encodes an array of 64-bit integers.
pub fn vec_i64_to_fd_c_one_dim_array_int64(heap: &mut Heap, array: Vec<i64>) -> (d: FlatArray<i64>)
    ensures
        final(heap)@ == (HeapView {
            int64s: MemoryView { cells: encoded(old(heap)@.int64s.cells, array@).0, ..old(heap)@.int64s },
            ..old(heap)@
        }),
        d == encoded(old(heap)@.int64s.cells, array@).1,
{
    let (d, _) = to_foreign(&mut heap.int64s.cells, &array);
    d
}

/// Encodes an array of bytes.
pub fn vec_u8_to_fd_c_one_dim_array_uint8(heap: &mut Heap, array: Vec<u8>) -> (d: FlatArray<u8>)
    ensures
        final(heap)@ == (HeapView {
            bytes: MemoryView { cells: encoded(old(heap)@.bytes.cells, array@).0, ..old(heap)@.bytes },
            ..old(heap)@
        }),
        d == encoded(old(heap)@.bytes.cells, array@).1,
{
    let (d, _) = to_foreign(&mut heap.bytes.cells, &array);
    d
}

/// Encodes a two-level array of floats.
pub fn vec_f32_to_fd_c_two_dim_array_float(heap: &mut Heap, array: Vec<Vec<Float32>>) -> (d: NestedArray<Float32>)
    ensures
        final(heap)@ == (HeapView { floats: encoded_2d(old(heap)@.floats, rows_of(array@)).0, ..old(heap)@ }),
        d == encoded_2d(old(heap)@.floats, rows_of(array@)).1,
{
    build_2d(&mut heap.floats, &array)
}

/// Encodes a two-level array of 32-bit integers.
pub fn vec_i32_to_fd_c_two_dim_array_int32(heap: &mut Heap, array: Vec<Vec<i32>>) -> (d: NestedArray<i32>)
    ensures
        final(heap)@ == (HeapView { int32s: encoded_2d(old(heap)@.int32s, rows_of(array@)).0, ..old(heap)@ }),
        d == encoded_2d(old(heap)@.int32s, rows_of(array@)).1,
{
    build_2d(&mut heap.int32s, &array)
}

} // verus!
