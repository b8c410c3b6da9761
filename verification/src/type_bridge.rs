//! Handles: a descriptor together with the duty to dispose of what it
//! describes. A handle cannot be copied, and the functions that give its
//! buffers up consume it.

use vstd::prelude::*;
use crate::descriptor::{FlatArray, Float32, NestedArray, StringDescriptor, ThreeDimArray};
use crate::errors::{DecodeError, OwnershipError};
use crate::memory::Arena;
use crate::nested::{build_2d, build_3d, decode_2d, decode_3d, dispose_2d, dispose_3d};
use crate::nested::{decoded_2d, decoded_3d, encoded_2d, encoded_3d, planes_of, released_2d, released_3d, rows_of};
use crate::nested::Memory;
use crate::ownership::Side;
use crate::scalar::{adopt_from_foreign, adopted_array, copy_from_foreign, decoded, dispose, encoded, released_array};
use crate::text::{decoded_text, decoded_text_table, decoded_texts, encoded_text, encoded_texts};
use crate::text::{foreign_to_string, foreign_to_string_rows, foreign_to_strings};
use crate::text::{string_to_foreign, strings_to_foreign, text_rows_of, texts_of};

pub mod common;

verus! {

/// The handle of an array of `T`.
pub struct OneDimArrayWrapper<T> {
    pub ptr: FlatArray<T>,
}

pub type OneDimArrayUint8Wrapper = OneDimArrayWrapper<u8>;

pub type OneDimArrayInt32Wrapper = OneDimArrayWrapper<i32>;

pub type OneDimArraySizeWrapper = OneDimArrayWrapper<usize>;

pub type OneDimArrayFloatWrapper = OneDimArrayWrapper<Float32>;

pub type OneDimArrayInt8Wrapper = OneDimArrayWrapper<i8>;

impl<T> Default for OneDimArrayWrapper<T> {
    /// The handle of nothing.
    fn default() -> (w: Self)
        ensures
            w.ptr == FlatArray::<T>::null(),
    {
        Self { ptr: FlatArray::null() }
    }
}

impl<T: Copy> OneDimArrayWrapper<T> {
    /// Moves `vec` into a buffer of the native side. An empty vector gets the
    /// null descriptor and no buffer.
    pub fn from_vec(cells: &mut Arena<T>, vec: Vec<T>) -> (w: Self)
        ensures
            (final(cells)@, w.ptr) == encoded(old(cells)@, vec@),
    {
        let size = vec.len();
        if size == 0 {
            Self { ptr: FlatArray::null() }
        } else {
            let p = cells.allocate(vec, Side::Native);
            Self { ptr: FlatArray::new(size, Some(p)) }
        }
    }

    /// Copies the elements out; the handle stays.
    pub fn to_vec(&self, cells: &Arena<T>) -> (r: Result<Vec<T>, DecodeError>)
        ensures
            match decoded(cells@, self.ptr) {
                Ok(v) => r is Ok && r->Ok_0@ == v,
                Err(e) => r == Err::<Vec<T>, DecodeError>(e),
            },
    {
        copy_from_foreign(cells, &self.ptr)
    }

    /// Takes the buffer back as a vector and gives the handle up.
    pub fn into_vec(self, cells: &mut Arena<T>) -> (r: Result<Vec<T>, DecodeError>)
        ensures
            final(cells)@ == adopted_array(old(cells)@, self.ptr).0,
            match adopted_array(old(cells)@, self.ptr).1 {
                Ok(v) => r is Ok && r->Ok_0@ == v,
                Err(e) => r == Err::<Vec<T>, DecodeError>(e),
            },
    {
        adopt_from_foreign(cells, &self.ptr)
    }

    /// Frees the buffer, as the native side, and gives the handle up.
    pub fn release(self, cells: &mut Arena<T>) -> (r: Result<(), OwnershipError>)
        ensures
            match released_array(old(cells)@, self.ptr, Side::Native) {
                Ok(s) => r == Ok::<(), OwnershipError>(()) && final(cells)@ == s,
                Err(e) => r == Err::<(), OwnershipError>(e) && final(cells)@ == old(cells)@,
            },
    {
        dispose(cells, &self.ptr, Side::Native)
    }
}

/// The handle of a two-level array of `T`.
pub struct TwoDimArrayWrapper<T> {
    pub ptr: NestedArray<T>,
}

pub type TwoDimArrayInt32Wrapper = TwoDimArrayWrapper<i32>;

pub type TwoDimArrayFloatWrapper = TwoDimArrayWrapper<Float32>;

pub type TwoDimArraySizeWrapper = TwoDimArrayWrapper<usize>;

impl<T> Default for TwoDimArrayWrapper<T> {
    /// The handle of nothing.
    fn default() -> (w: Self)
        ensures
            w.ptr == NestedArray::<T>::null(),
    {
        Self { ptr: FlatArray::null() }
    }
}

impl<T: Copy> TwoDimArrayWrapper<T> {
    /// Builds the two-level array of `vec`.
    pub fn from_vec(mem: &mut Memory<T>, vec: Vec<Vec<T>>) -> (w: Self)
        ensures
            (final(mem)@, w.ptr) == encoded_2d(old(mem)@, rows_of(vec@)),
    {
        Self { ptr: build_2d(mem, &vec) }
    }

    /// Copies the rows out; the handle stays.
    pub fn to_vec(&self, mem: &Memory<T>) -> (r: Result<Vec<Vec<T>>, DecodeError>)
        ensures
            match decoded_2d(mem@, self.ptr) {
                Ok(v) => r is Ok && rows_of(r->Ok_0@) == v,
                Err(e) => r == Err::<Vec<Vec<T>>, DecodeError>(e),
            },
    {
        decode_2d(mem, &self.ptr)
    }

    /// Frees the rows and then the buffer that referred to them, as the
    /// native side, and gives the handle up.
    pub fn release(self, mem: &mut Memory<T>) -> (r: Result<(), OwnershipError>)
        ensures
            final(mem)@ == released_2d(old(mem)@, self.ptr, Side::Native).0,
            r == released_2d(old(mem)@, self.ptr, Side::Native).1,
    {
        dispose_2d(mem, &self.ptr, Side::Native)
    }
}

/// The handle of a three-level array of `T`.
pub struct ThreeDimArrayWrapper<T> {
    pub ptr: ThreeDimArray<T>,
}

pub type ThreeDimArrayInt32Wrapper = ThreeDimArrayWrapper<i32>;

impl<T> Default for ThreeDimArrayWrapper<T> {
    /// The handle of nothing.
    fn default() -> (w: Self)
        ensures
            w.ptr == ThreeDimArray::<T>::null(),
    {
        Self { ptr: FlatArray::null() }
    }
}

impl<T: Copy> ThreeDimArrayWrapper<T> {
    /// Builds the three-level array of `vec`.
    pub fn from_vec(mem: &mut Memory<T>, vec: Vec<Vec<Vec<T>>>) -> (w: Self)
        ensures
            (final(mem)@, w.ptr) == encoded_3d(old(mem)@, planes_of(vec@)),
    {
        Self { ptr: build_3d(mem, &vec) }
    }

    /// Copies the arrays out; the handle stays.
    pub fn to_vec(&self, mem: &Memory<T>) -> (r: Result<Vec<Vec<Vec<T>>>, DecodeError>)
        ensures
            match decoded_3d(mem@, self.ptr) {
                Ok(v) => r is Ok && planes_of(r->Ok_0@) == v,
                Err(e) => r == Err::<Vec<Vec<Vec<T>>>, DecodeError>(e),
            },
    {
        decode_3d(mem, &self.ptr)
    }

    /// Frees everything, innermost buffers first, as the native side, and
    /// gives the handle up.
    pub fn release(self, mem: &mut Memory<T>) -> (r: Result<(), OwnershipError>)
        ensures
            final(mem)@ == released_3d(old(mem)@, self.ptr, Side::Native).0,
            r == released_3d(old(mem)@, self.ptr, Side::Native).1,
    {
        dispose_3d(mem, &self.ptr, Side::Native)
    }
}

/// The handle of a string.
pub struct CstrWrapper {
    pub ptr: StringDescriptor,
}

impl Default for CstrWrapper {
    /// The handle of no string.
    fn default() -> (w: Self)
        ensures
            w.ptr == StringDescriptor::null(),
    {
        Self { ptr: FlatArray::null() }
    }
}

impl CstrWrapper {
    /// Encodes `value`.
    pub fn new(cells: &mut Arena<u8>, value: String) -> (w: Self)
        ensures
            (final(cells)@, w.ptr) == encoded_text(old(cells)@, value@),
    {
        Self { ptr: string_to_foreign(cells, value.as_str()) }
    }

    /// Encodes `data`.
    pub fn from_text(cells: &mut Arena<u8>, data: &str) -> (w: Self)
        ensures
            (final(cells)@, w.ptr) == encoded_text(old(cells)@, data@),
    {
        Self { ptr: string_to_foreign(cells, data) }
    }

    /// Takes charge of a string that the other side has produced.
    pub fn from_raw(data: StringDescriptor) -> (w: Self)
        ensures
            w.ptr == data,
    {
        Self { ptr: data }
    }

    /// Decodes the string by copying; the handle stays.
    pub fn to_str(&self, cells: &Arena<u8>) -> (r: Result<String, DecodeError>)
        ensures
            match decoded_text(cells@, self.ptr) {
                Ok(text) => r is Ok && r->Ok_0@ == text,
                Err(e) => r == Err::<String, DecodeError>(e),
            },
    {
        foreign_to_string(cells, &self.ptr)
    }

    /// Has the side `by` free the buffer, and gives the handle up.
    pub fn release(self, cells: &mut Arena<u8>, by: Side) -> (r: Result<(), OwnershipError>)
        ensures
            match released_array(old(cells)@, self.ptr, by) {
                Ok(s) => r == Ok::<(), OwnershipError>(()) && final(cells)@ == s,
                Err(e) => r == Err::<(), OwnershipError>(e) && final(cells)@ == old(cells)@,
            },
    {
        dispose(cells, &self.ptr, by)
    }
}

/// The handle of an array of strings.
pub struct OneDimArrayCstrWrapper {
    pub ptr: NestedArray<u8>,
}

impl Default for OneDimArrayCstrWrapper {
    /// The handle of no strings.
    fn default() -> (w: Self)
        ensures
            w.ptr == NestedArray::<u8>::null(),
    {
        Self { ptr: FlatArray::null() }
    }
}

impl OneDimArrayCstrWrapper {
    /// Encodes the strings of `value`.
    pub fn new(mem: &mut Memory<u8>, value: Vec<String>) -> (w: Self)
        ensures
            (final(mem)@, w.ptr) == encoded_texts(old(mem)@, texts_of(value@)),
    {
        Self { ptr: strings_to_foreign(mem, &value) }
    }

    /// Takes charge of an array of strings that the other side has produced.
    pub fn from_raw(value: NestedArray<u8>) -> (w: Self)
        ensures
            w.ptr == value,
    {
        Self { ptr: value }
    }

    /// Decodes the strings by copying; the handle stays.
    pub fn to_vec(&self, mem: &Memory<u8>) -> (r: Result<Vec<String>, DecodeError>)
        ensures
            match decoded_texts(mem@, self.ptr) {
                Ok(v) => r is Ok && texts_of(r->Ok_0@) == v,
                Err(e) => r == Err::<Vec<String>, DecodeError>(e),
            },
    {
        foreign_to_strings(mem, &self.ptr)
    }

    /// Has the side `by` free the strings and then the buffer that referred
    /// to them, and gives the handle up.
    pub fn release(self, mem: &mut Memory<u8>, by: Side) -> (r: Result<(), OwnershipError>)
        ensures
            final(mem)@ == released_2d(old(mem)@, self.ptr, by).0,
            r == released_2d(old(mem)@, self.ptr, by).1,
    {
        dispose_2d(mem, &self.ptr, by)
    }
}

/// The handle of an array of arrays of strings.
pub struct TwoDimArrayCstrWrapper {
    pub ptr: ThreeDimArray<u8>,
}

impl Default for TwoDimArrayCstrWrapper {
    /// The handle of no strings.
    fn default() -> (w: Self)
        ensures
            w.ptr == ThreeDimArray::<u8>::null(),
    {
        Self { ptr: FlatArray::null() }
    }
}

impl TwoDimArrayCstrWrapper {
    /// Takes charge of an array of arrays of strings that the other side has
    /// produced.
    pub fn from_raw(value: ThreeDimArray<u8>) -> (w: Self)
        ensures
            w.ptr == value,
    {
        Self { ptr: value }
    }

    /// Decodes the strings by copying, array by array; the handle stays.
    pub fn to_vec(&self, mem: &Memory<u8>) -> (r: Result<Vec<Vec<String>>, DecodeError>)
        ensures
            match decoded_text_table(mem@, self.ptr) {
                Ok(v) => r is Ok && text_rows_of(r->Ok_0@) == v,
                Err(e) => r == Err::<Vec<Vec<String>>, DecodeError>(e),
            },
    {
        foreign_to_string_rows(mem, &self.ptr)
    }

    /// Has the side `by` free everything, innermost buffers first, and gives
    /// the handle up.
    pub fn release(self, mem: &mut Memory<u8>, by: Side) -> (r: Result<(), OwnershipError>)
        ensures
            final(mem)@ == released_3d(old(mem)@, self.ptr, by).0,
            r == released_3d(old(mem)@, self.ptr, by).1,
    {
        dispose_3d(mem, &self.ptr, by)
    }
}

} // verus!
