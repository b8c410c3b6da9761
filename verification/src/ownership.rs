//! The two sides of the boundary, and the two ways of reading across it.

use vstd::prelude::*;

verus! {

/// A side of the boundary. A buffer is allocated by one side and, at any
/// moment, owned by one side.
#[derive(Clone, Copy, Debug, PartialEq, Eq, Structural)]
pub enum Side {
    Native,
    Foreign,
}

impl Side {
    /// The opposite side.
    pub open spec fn spec_other(self) -> Side {
        match self {
            Side::Native => Side::Foreign,
            Side::Foreign => Side::Native,
        }
    }

    #[verifier::when_used_as_spec(spec_other)]
    pub fn other(self) -> (r: Side)
        ensures
            r == self.spec_other(),
    {
        match self {
            Side::Native => Side::Foreign,
            Side::Foreign => Side::Native,
        }
    }
}

/// How a descriptor is turned back into a native sequence.
#[derive(Clone, Copy, Debug, PartialEq, Eq, Structural)]
pub enum Mode {
    /// Read the elements into a fresh sequence and leave the buffer alone.
    Copying,
    /// Take the buffer itself; only buffers of the native allocator qualify.
    Adopting,
}

impl Default for Mode {
    /// Copying is the way to decode unless adoption is asked for.
    fn default() -> (m: Self)
        ensures
            m == Mode::Copying,
    {
        Mode::Copying
    }
}

} // verus!
