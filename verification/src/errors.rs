//! Error types of the marshaling layer.

use vstd::prelude::*;
use vstd::std_specs::convert::FromSpecImpl;
use vstd::string::StringExecFns;
use core::str::Utf8Error;
use crate::utf8::{fault_length, fault_offset};

verus! {

/// What can go wrong between the caller and the inference engine.
#[derive(Debug, Copy, Clone, PartialEq, Eq, Structural)]
pub enum FastDeployError {
    /// Failed to create a new context.
    InitError,
    /// The engine reported that a prediction failed.
    PredictError,
    /// A text from the engine is not valid UTF-8.
    InvalidUtf8 { error_len: Option<usize>, valid_up_to: usize },
}

impl From<Utf8Error> for FastDeployError {
    fn from(e: Utf8Error) -> (r: Self) {
        Self::InvalidUtf8 { error_len: e.error_len(), valid_up_to: e.valid_up_to() }
    }
}

impl FromSpecImpl<Utf8Error> for FastDeployError {
    open spec fn obeys_from_spec() -> bool {
        true
    }

    open spec fn from_spec(e: Utf8Error) -> Self {
        FastDeployError::InvalidUtf8 { error_len: fault_length(e), valid_up_to: fault_offset(e) }
    }
}

/// The character of the digit `d`.
pub open spec fn digit_char(d: nat) -> char {
    if d == 0 {
        '0'
    } else if d == 1 {
        '1'
    } else if d == 2 {
        '2'
    } else if d == 3 {
        '3'
    } else if d == 4 {
        '4'
    } else if d == 5 {
        '5'
    } else if d == 6 {
        '6'
    } else if d == 7 {
        '7'
    } else if d == 8 {
        '8'
    } else {
        '9'
    }
}

/// The decimal digits of `n`, most significant first, without leading zeros.
pub open spec fn decimal(n: nat) -> Seq<char>
    decreases n,
{
    if n < 10 {
        seq![digit_char(n)]
    } else {
        decimal(n / 10).push(digit_char(n % 10))
    }
}

fn digit_text(d: usize) -> (s: &'static str)
    requires
        d < 10,
    ensures
        s@ == seq![digit_char(d as nat)],
{
    proof {
        reveal_strlit("0");
        reveal_strlit("1");
        reveal_strlit("2");
        reveal_strlit("3");
        reveal_strlit("4");
        reveal_strlit("5");
        reveal_strlit("6");
        reveal_strlit("7");
        reveal_strlit("8");
        reveal_strlit("9");
    }
    let s = if d == 0 {
        "0"
    } else if d == 1 {
        "1"
    } else if d == 2 {
        "2"
    } else if d == 3 {
        "3"
    } else if d == 4 {
        "4"
    } else if d == 5 {
        "5"
    } else if d == 6 {
        "6"
    } else if d == 7 {
        "7"
    } else if d == 8 {
        "8"
    } else {
        "9"
    };
    assert(s@ =~= seq![digit_char(d as nat)]);
    s
}

/// Writes `n` in decimal.
pub fn decimal_text(n: usize) -> (s: String)
    ensures
        s@ == decimal(n as nat),
    decreases n,
{
    if n < 10 {
        String::from_str(digit_text(n))
    } else {
        let mut s = decimal_text(n / 10);
        s.append(digit_text(n % 10));
        assert(s@ =~= decimal(n as nat));
        s
    }
}

impl FastDeployError {
    /// The text of the message that describes the error.
    pub open spec fn message(self) -> Seq<char> {
        match self {
            FastDeployError::InitError => "Failed to create a new whisper context."@,
            FastDeployError::PredictError => "model predict error"@,
            FastDeployError::InvalidUtf8 { error_len: Some(len), valid_up_to } => {
                "Invalid UTF-8 detected in a string from Whisper. Index: "@ + decimal(valid_up_to as nat)
                    + ", Length: "@ + decimal(len as nat) + "."@
            },
            FastDeployError::InvalidUtf8 { error_len: None, valid_up_to } => {
                "Invalid UTF-8 detected in a string from Whisper. Index: "@ + decimal(valid_up_to as nat)
                    + "."@
            },
        }
    }

    /// Describes the error in words.
    pub fn to_string(&self) -> (s: String)
        ensures
            s@ == self.message(),
    {
        match self {
            FastDeployError::InitError => String::from_str("Failed to create a new whisper context."),
            FastDeployError::PredictError => String::from_str("model predict error"),
            FastDeployError::InvalidUtf8 { error_len: Some(len), valid_up_to } => {
                let mut s = String::from_str("Invalid UTF-8 detected in a string from Whisper. Index: ");
                s.append(decimal_text(*valid_up_to).as_str());
                s.append(", Length: ");
                s.append(decimal_text(*len).as_str());
                s.append(".");
                s
            },
            FastDeployError::InvalidUtf8 { error_len: None, valid_up_to } => {
                let mut s = String::from_str("Invalid UTF-8 detected in a string from Whisper. Index: ");
                s.append(decimal_text(*valid_up_to).as_str());
                s.append(".");
                s
            },
        }
    }
}

/// Why a descriptor could not be decoded.
#[derive(Clone, Copy, Debug, PartialEq, Eq, Structural)]
pub enum DecodeError {
    /// The bytes of a text field are not valid UTF-8. `offset` is the length
    /// of the longest valid prefix, `length` the length of the offending run
    /// where one was met before the input ended.
    InvalidText { offset: usize, length: Option<usize> },
    /// A descriptor claims more elements than its buffer holds.
    SizeMismatch,
    /// A buffer was to be adopted that the native allocator did not produce.
    AllocatorMismatch,
}

impl DecodeError {
    /// The decode error that stands for a failed UTF-8 check.
    pub open spec fn spec_invalid_text(e: Utf8Error) -> DecodeError {
        DecodeError::InvalidText { offset: fault_offset(e), length: fault_length(e) }
    }

    /// The decode error that stands for a failed UTF-8 check.
    pub fn invalid_text(e: &Utf8Error) -> (r: DecodeError)
        ensures
            r == Self::spec_invalid_text(*e),
    {
        DecodeError::InvalidText { offset: e.valid_up_to(), length: e.error_len() }
    }
}

/// A field of a result record.
#[derive(Clone, Copy, Debug, PartialEq, Eq, Structural)]
pub enum Field {
    LabelIds,
    Scores,
    Boxes,
    RotatedBoxes,
    Masks,
    LabelMap,
    ScoreMap,
    Shape,
    Text,
    RecScores,
    ClsScores,
    ClsLabels,
    TableBoxes,
    TableStructure,
    TableHtml,
}

/// Why a record could not be decoded: the field that failed, and how.
#[derive(Clone, Copy, Debug, PartialEq, Eq, Structural)]
pub struct RecordError {
    pub field: Field,
    pub cause: DecodeError,
}

/// Why a batch of records could not be decoded.
#[derive(Clone, Copy, Debug, PartialEq, Eq, Structural)]
pub enum BatchError {
    /// The array of records itself could not be read.
    Records { cause: DecodeError },
    /// The record at index `row` is the first that could not be decoded.
    Row { row: usize, field: Field, cause: DecodeError },
}

/// Why a buffer could not be handed over, released or adopted.
#[derive(Clone, Copy, Debug, PartialEq, Eq, Structural)]
pub enum OwnershipError {
    /// No live buffer stands at the address: it was never allocated, or it
    /// was released before.
    NotLive,
    /// The side that acts does not own the buffer.
    NotOwner,
    /// The side that acts did not allocate the buffer.
    AllocatorMismatch,
    /// A descriptor of descriptors claims more elements than its buffer
    /// holds, so what it refers to cannot be found.
    SizeMismatch,
}

} // verus!
