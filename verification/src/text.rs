//! The text bridge: strings and arrays of strings.
//!
//! A text crosses as its UTF-8 bytes with a terminator behind them. The size
//! of the descriptor counts the bytes without the terminator, and decoding
//! goes by the size alone.

use vstd::prelude::*;
use vstd::slice::slice_to_vec;
use vstd::string::StringExecFns;
use vstd::utf8::{decode_utf8, encode_utf8, encode_utf8_decode_utf8, valid_utf8};
use core::str::Utf8Error;
use crate::descriptor::{FlatArray, NestedArray, StringDescriptor, ThreeDimArray};
use crate::errors::DecodeError;
use crate::memory::{fresh, Arena, Slots};
use crate::nested::{Memory, MemoryView};
use crate::ownership::Side;
use crate::scalar::{copy_from_foreign, decoded, encoded, to_foreign};
use crate::sequence::{collect, lemma_collect_err, lemma_collect_ok};
use crate::utf8::{fault_length, fault_offset, from_utf8, invalid_run, lemma_valid_prefix_is, valid_prefix};

verus! {

/// The texts of a native array of strings.
pub open spec fn texts_of(v: Seq<String>) -> Seq<Seq<char>> {
    Seq::new(v.len(), |i: int| v[i]@)
}

/// The texts of a native array of arrays of strings.
pub open spec fn text_rows_of(v: Seq<Vec<String>>) -> Seq<Seq<Seq<char>>> {
    Seq::new(v.len(), |i: int| texts_of(v[i]@))
}

/// What encoding `text` does to the arena, and the descriptor it gives: one
/// new buffer with the bytes of the text and a terminator, and a size that
/// counts the bytes of the text.
pub open spec fn encoded_text(cells: Slots<u8>, text: Seq<char>) -> (Slots<u8>, StringDescriptor) {
    let bytes = encode_utf8(text);
    (
        cells.push(fresh(bytes.push(0u8), Side::Native)),
        FlatArray::new(bytes.len() as usize, Some(cells.len() as usize)),
    )
}

/// The text that `bytes` encode, or where they are malformed: the length of
/// the longest valid prefix and the length of the offending run.
pub open spec fn decoded_bytes(bytes: Seq<u8>) -> Result<Seq<char>, DecodeError> {
    if valid_utf8(bytes) {
        Ok(decode_utf8(bytes))
    } else {
        Err(DecodeError::InvalidText { offset: valid_prefix(bytes) as usize, length: invalid_run(bytes) })
    }
}

/// What decoding the string `d` gives.
pub open spec fn decoded_text(cells: Slots<u8>, d: StringDescriptor) -> Result<Seq<char>, DecodeError> {
    match decoded(cells, d) {
        Err(e) => Err(e),
        Ok(bytes) => decoded_bytes(bytes),
    }
}

/// The strings of `v` encoded one after another, first to last.
pub open spec fn encoded_text_rows(cells: Slots<u8>, v: Seq<Seq<char>>) -> (Slots<u8>, Seq<StringDescriptor>)
    decreases v.len(),
{
    if v.len() == 0 {
        (cells, Seq::empty())
    } else {
        let (c1, ds) = encoded_text_rows(cells, v.drop_last());
        let (c2, d) = encoded_text(c1, v.last());
        (c2, ds.push(d))
    }
}

/// What encoding an array of strings does to the memory, and the descriptor
/// it gives.
pub open spec fn encoded_texts(m: MemoryView<u8>, v: Seq<Seq<char>>) -> (MemoryView<u8>, NestedArray<u8>) {
    let (cells, ds) = encoded_text_rows(m.cells, v);
    let (rows, d) = encoded(m.rows, ds);
    (MemoryView { cells, rows, planes: m.planes }, d)
}

/// What decoding each of the strings `ds` by itself gives.
pub open spec fn decoded_text_rows(cells: Slots<u8>, ds: Seq<StringDescriptor>) -> Seq<
    Result<Seq<char>, DecodeError>,
> {
    Seq::new(ds.len(), |i: int| decoded_text(cells, ds[i]))
}

/// What decoding the array of strings `d` gives; the first string that
/// fails decides.
pub open spec fn decoded_texts(m: MemoryView<u8>, d: NestedArray<u8>) -> Result<Seq<Seq<char>>, DecodeError> {
    match decoded(m.rows, d) {
        Err(e) => Err(e),
        Ok(ds) => collect(decoded_text_rows(m.cells, ds)),
    }
}

/// What decoding each of the arrays of strings `ds` by itself gives.
pub open spec fn decoded_text_planes(m: MemoryView<u8>, ds: Seq<NestedArray<u8>>) -> Seq<
    Result<Seq<Seq<char>>, DecodeError>,
> {
    Seq::new(ds.len(), |i: int| decoded_texts(m, ds[i]))
}

/// What decoding the array of arrays of strings `d` gives.
pub open spec fn decoded_text_table(m: MemoryView<u8>, d: ThreeDimArray<u8>) -> Result<
    Seq<Seq<Seq<char>>>,
    DecodeError,
> {
    match decoded(m.planes, d) {
        Err(e) => Err(e),
        Ok(ds) => collect(decoded_text_planes(m, ds)),
    }
}

/// Turns the outcome of the UTF-8 check into the outcome of the decode: the
/// text as an owned string, or the offset and length that the check
/// reported.
pub fn text_or_fault(checked: Result<&str, Utf8Error>) -> (r: Result<String, DecodeError>)
    ensures
        match checked {
            Ok(s) => r is Ok && r->Ok_0@ == s@,
            Err(e) => r == Err::<String, DecodeError>(
                DecodeError::InvalidText { offset: fault_offset(e), length: fault_length(e) },
            ),
        },
{
    match checked {
        Ok(s) => Ok(String::from_str(s)),
        Err(e) => Err(DecodeError::invalid_text(&e)),
    }
}

/// Decodes bytes as text.
pub fn bytes_to_string(bytes: &[u8]) -> (r: Result<String, DecodeError>)
    ensures
        match decoded_bytes(bytes@) {
            Ok(text) => r is Ok && r->Ok_0@ == text,
            Err(e) => r == Err::<String, DecodeError>(e),
        },
{
    let checked = from_utf8(bytes);
    proof {
        match checked {
            Ok(s) => {
                encode_utf8_decode_utf8(s@);
            },
            Err(e) => {
                lemma_valid_prefix_is(bytes@, fault_offset(e) as int);
            },
        }
    }
    text_or_fault(checked)
}

/// Encodes a string.
pub fn string_to_foreign(cells: &mut Arena<u8>, s: &str) -> (d: StringDescriptor)
    ensures
        (final(cells)@, d) == encoded_text(old(cells)@, s@),
{
    let mut buffer = slice_to_vec(s.as_bytes());
    let size = buffer.len();
    buffer.push(0u8);
    let p = cells.allocate(buffer, Side::Native);
    FlatArray::new(size, Some(p))
}

/// Decodes a string by copying. Malformed bytes are reported, with the place
/// where they start.
pub fn foreign_to_string(cells: &Arena<u8>, d: &StringDescriptor) -> (r: Result<String, DecodeError>)
    ensures
        match decoded_text(cells@, *d) {
            Ok(text) => r is Ok && r->Ok_0@ == text,
            Err(e) => r == Err::<String, DecodeError>(e),
        },
{
    match copy_from_foreign(cells, d) {
        Err(e) => Err(e),
        Ok(bytes) => bytes_to_string(bytes.as_slice()),
    }
}

/// Encodes an array of strings: one buffer for each string, and one for
/// their descriptors.
pub fn strings_to_foreign(mem: &mut Memory<u8>, texts: &Vec<String>) -> (d: NestedArray<u8>)
    ensures
        (final(mem)@, d) == encoded_texts(old(mem)@, texts_of(texts@)),
        d.wf(),
{
    let ghost before = mem@;
    let ghost v = texts_of(texts@);
    let mut descriptors: Vec<StringDescriptor> = Vec::with_capacity(texts.len());
    let mut i: usize = 0;
    while i < texts.len()
        invariant
            i <= texts.len(),
            v == texts_of(texts@),
            mem.rows@ == before.rows,
            mem.planes@ == before.planes,
            (mem.cells@, descriptors@) == encoded_text_rows(before.cells, v.take(i as int)),
        decreases texts.len() - i,
    {
        let d = string_to_foreign(&mut mem.cells, texts[i].as_str());
        descriptors.push(d);
        proof {
            assert(v.take(i + 1).drop_last() =~= v.take(i as int));
            assert(v.take(i + 1).last() == texts[i as int]@);
        }
        i += 1;
    }
    proof {
        assert(v.take(i as int) =~= v);
    }
    let (d, _) = to_foreign(&mut mem.rows, &descriptors);
    d
}

/// Decodes an array of strings by copying, string by string.
pub fn foreign_to_strings(mem: &Memory<u8>, d: &NestedArray<u8>) -> (r: Result<Vec<String>, DecodeError>)
    ensures
        match decoded_texts(mem@, *d) {
            Ok(v) => r is Ok && texts_of(r->Ok_0@) == v,
            Err(e) => r == Err::<Vec<String>, DecodeError>(e),
        },
{
    let outer = match copy_from_foreign(&mem.rows, d) {
        Ok(outer) => outer,
        Err(e) => { return Err(e); },
    };
    let ghost rs = decoded_text_rows(mem.cells@, outer@);
    let mut out: Vec<String> = Vec::with_capacity(outer.len());
    let mut i: usize = 0;
    while i < outer.len()
        invariant
            i <= outer.len(),
            out.len() == i,
            decoded(mem.rows@, *d) == Ok::<Seq<StringDescriptor>, DecodeError>(outer@),
            rs == decoded_text_rows(mem.cells@, outer@),
            forall|j: int| 0 <= j < i ==> #[trigger] rs[j] == Ok::<Seq<char>, DecodeError>(out@[j]@),
        decreases outer.len() - i,
    {
        match foreign_to_string(&mem.cells, &outer[i]) {
            Ok(text) => {
                out.push(text);
            },
            Err(e) => {
                proof {
                    assert(rs[i as int] is Err);
                    lemma_collect_err(rs, i as int, e);
                }
                return Err(e);
            },
        }
        i += 1;
    }
    proof {
        lemma_collect_ok(rs, texts_of(out@));
    }
    Ok(out)
}

/// Decodes an array of arrays of strings by copying.
pub fn foreign_to_string_rows(mem: &Memory<u8>, d: &ThreeDimArray<u8>) -> (r: Result<Vec<Vec<String>>, DecodeError>)
    ensures
        match decoded_text_table(mem@, *d) {
            Ok(v) => r is Ok && text_rows_of(r->Ok_0@) == v,
            Err(e) => r == Err::<Vec<Vec<String>>, DecodeError>(e),
        },
{
    let outer = match copy_from_foreign(&mem.planes, d) {
        Ok(outer) => outer,
        Err(e) => { return Err(e); },
    };
    let ghost rs = decoded_text_planes(mem@, outer@);
    let mut out: Vec<Vec<String>> = Vec::with_capacity(outer.len());
    let mut i: usize = 0;
    while i < outer.len()
        invariant
            i <= outer.len(),
            out.len() == i,
            decoded(mem.planes@, *d) == Ok::<Seq<NestedArray<u8>>, DecodeError>(outer@),
            rs == decoded_text_planes(mem@, outer@),
            forall|j: int| 0 <= j < i ==> #[trigger] rs[j] == Ok::<Seq<Seq<char>>, DecodeError>(
                texts_of(out@[j]@),
            ),
        decreases outer.len() - i,
    {
        match foreign_to_strings(mem, &outer[i]) {
            Ok(row) => {
                out.push(row);
            },
            Err(e) => {
                proof {
                    assert(rs[i as int] is Err);
                    lemma_collect_err(rs, i as int, e);
                }
                return Err(e);
            },
        }
        i += 1;
    }
    proof {
        lemma_collect_ok(rs, text_rows_of(out@));
    }
    Ok(out)
}

} // verus!
