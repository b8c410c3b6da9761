//! The flat `{size, pointer}` descriptors that cross the boundary.

use vstd::prelude::*;
use core::marker::PhantomData;

verus! {

/// A 32-bit float, held by its bit pattern: the bridge moves floats and
/// never computes with them.
#[derive(Clone, Copy, Debug, PartialEq, Eq, Structural)]
pub struct Float32 {
    pub bits: u32,
}

impl Float32 {
    pub fn from_bits(bits: u32) -> (x: Self)
        ensures
            x.bits == bits,
    {
        Float32 { bits }
    }

    pub fn to_bits(self) -> (bits: u32)
        ensures
            bits == self.bits,
    {
        self.bits
    }
}

/// A view over a contiguous run of `T`: the number of elements and the
/// address of the buffer, `None` for the null pointer.
#[derive(Debug, PartialEq, Eq)]
pub struct FlatArray<T> {
    pub size: usize,
    pub data: Option<usize>,
    pub element: PhantomData<T>,
}

/// An array of arrays; the rows may differ in length.
pub type NestedArray<T> = FlatArray<FlatArray<T>>;

/// An array of arrays of arrays.
pub type ThreeDimArray<T> = FlatArray<FlatArray<FlatArray<T>>>;

/// The bytes of a text. `size` counts them; the buffer may hold a terminator
/// behind them, which nothing relies on.
pub type StringDescriptor = FlatArray<u8>;

impl<T> Clone for FlatArray<T> {
    fn clone(&self) -> (r: Self)
        ensures
            r == *self,
    {
        FlatArray { size: self.size, data: self.data, element: PhantomData }
    }
}

impl<T> Copy for FlatArray<T> {}

impl<T> FlatArray<T> {
    pub open spec fn spec_new(size: usize, data: Option<usize>) -> Self {
        FlatArray { size, data, element: PhantomData }
    }

    pub open spec fn spec_null() -> Self {
        FlatArray { size: 0, data: None, element: PhantomData }
    }

    /// The size is zero exactly where the pointer is null.
    pub open spec fn wf(self) -> bool {
        self.size == 0 <==> self.data is None
    }

    #[verifier::when_used_as_spec(spec_new)]
    pub fn new(size: usize, data: Option<usize>) -> (d: Self)
        ensures
            d == Self::spec_new(size, data),
    {
        FlatArray { size, data, element: PhantomData }
    }

    /// The descriptor of nothing: size zero, null pointer.
    #[verifier::when_used_as_spec(spec_null)]
    pub fn null() -> (d: Self)
        ensures
            d == Self::spec_null(),
            d.wf(),
    {
        FlatArray { size: 0, data: None, element: PhantomData }
    }

    pub fn is_null(&self) -> (b: bool)
        ensures
            b == (self.data is None),
    {
        self.data.is_none()
    }
}

} // verus!
