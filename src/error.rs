//! Why a candidate byte string could not become a UTF-8 C string.

use vstd::prelude::*;

use crate::strings::{decimal, push_decimal, string_push_str};

verus! {

/// How a missing or misplaced terminator is reported.
pub const NUL_MESSAGE: &'static str = "Missing nul byte at the end of the string";

/// How an invalid sequence is reported: these words, its length in bytes,
/// `INVALID_FROM`, then the index where it starts.
pub const INVALID_SEQUENCE: &'static str = "invalid utf-8 sequence of ";

/// The words between the length and the index of an invalid sequence.
pub const INVALID_FROM: &'static str = " bytes from index ";

/// How input that ends inside a sequence is reported, before the index where
/// that sequence starts.
pub const INCOMPLETE_SEQUENCE: &'static str = "incomplete utf-8 byte sequence from index ";

/// Where UTF-8 decoding of a candidate failed.
#[derive(Clone, Copy, Debug, PartialEq, Eq, Structural)]
pub struct Utf8Error {
    /// The length of the longest prefix of the input that is valid UTF-8:
    /// the index of the first byte of the first invalid sequence.
    pub valid_up_to: usize,
    /// The length, from 1 to 3, of the invalid sequence that starts at
    /// `valid_up_to`; `None` when the input ended inside a sequence.
    pub error_len: Option<u8>,
}

impl Utf8Error {
    /// The index up to which the input was valid UTF-8.
    pub fn valid_up_to(&self) -> (r: usize)
        ensures
            r == self.valid_up_to,
    {
        self.valid_up_to
    }

    /// The length of the invalid sequence, or `None` when the input ended
    /// inside a sequence.
    pub fn error_len(&self) -> (r: Option<u8>)
        ensures
            r == self.error_len,
    {
        self.error_len
    }

    /// The human-readable description of this decoding failure.
    pub open spec fn spec_message(self) -> Seq<char> {
        match self.error_len {
            Some(n) => INVALID_SEQUENCE@ + decimal(n as nat) + INVALID_FROM@ + decimal(
                self.valid_up_to as nat,
            ),
            None => INCOMPLETE_SEQUENCE@ + decimal(self.valid_up_to as nat),
        }
    }

    /// Describes this decoding failure: an invalid sequence of some length
    /// from an index, or an incomplete sequence from an index.
    pub fn message(&self) -> (r: String)
        ensures
            r@ == self.spec_message(),
    {
        match self.error_len {
            Some(n) => {
                let mut s = INVALID_SEQUENCE.to_owned();
                push_decimal(&mut s, n as usize);
                string_push_str(&mut s, INVALID_FROM);
                push_decimal(&mut s, self.valid_up_to);
                s
            },
            None => {
                let mut s = INCOMPLETE_SEQUENCE.to_owned();
                push_decimal(&mut s, self.valid_up_to);
                s
            },
        }
    }
}

/// The error for converting bytes or text into a C string.
#[derive(Clone, Copy, Debug, PartialEq, Eq, Structural)]
pub enum Error {
    /// The input does not end with a zero byte, or holds one before its end.
    Nul,
    /// The bytes before the terminator are not valid UTF-8.
    Utf8(Utf8Error),
}

impl From<Utf8Error> for Error {
    fn from(err: Utf8Error) -> (r: Error)
        ensures
            r == Error::Utf8(err),
    {
        Error::Utf8(err)
    }
}

impl vstd::std_specs::convert::FromSpecImpl<Utf8Error> for Error {
    open spec fn obeys_from_spec() -> bool {
        true
    }

    open spec fn from_spec(err: Utf8Error) -> Error {
        Error::Utf8(err)
    }
}

impl Error {
    /// The human-readable description of this error; for a decoding failure,
    /// that failure's own.
    pub open spec fn spec_message(self) -> Seq<char> {
        match self {
            Error::Nul => NUL_MESSAGE@,
            Error::Utf8(e) => e.spec_message(),
        }
    }

    /// Describes this error: a missing terminator, or the decoding failure.
    pub fn message(&self) -> (r: String)
        ensures
            r@ == self.spec_message(),
    {
        match *self {
            Error::Nul => NUL_MESSAGE.to_owned(),
            Error::Utf8(e) => e.message(),
        }
    }

    /// The decoding failure, when this error is one.
    pub fn utf8_error(&self) -> (r: Option<Utf8Error>)
        ensures
            r == (match *self {
                Error::Utf8(e) => Some(e),
                Error::Nul => None,
            }),
    {
        match *self {
            Error::Utf8(e) => Some(e),
            Error::Nul => None,
        }
    }
}

} // verus!
