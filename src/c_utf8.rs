//! The borrowed UTF-8 C string: a view over text that ends with its single
//! nul terminator.

use vstd::prelude::*;
use vstd::string::StringSliceAdditionalSpecFns;
use vstd::utf8::*;

use crate::c_utf8_buf::CUtf8Buf;
use crate::error::{Error, Utf8Error};
use crate::internal::no_nul_byte;
use crate::model::{
    is_c_text, is_c_utf8, is_nul_placed, is_valid_up_to, lemma_c_text_iff_c_utf8, lemma_encode_concat,
    lemma_encode_nul, lemma_valid_with_nul,
};

verus! {

/// Relies on `std::str::from_utf8`: it succeeds exactly on valid UTF-8, giving
/// the text that those bytes encode. On failure it relies on
/// `std::str::Utf8Error::valid_up_to`, the length of the longest prefix that
/// is valid UTF-8, and `std::str::Utf8Error::error_len`: the length, 1 to 3,
/// of the invalid sequence found there, or `None` when the end of the input
/// came 1 to 3 bytes after that prefix, inside a sequence.
#[verifier::external_body]
fn str_from_utf8<'a>(bytes: &'a [u8]) -> (r: Result<&'a str, (usize, Option<u8>)>)
    ensures
        match r {
            Ok(s) => valid_utf8(bytes@) && s.spec_bytes() == bytes@,
            Err((n, len)) => {
                &&& !valid_utf8(bytes@)
                &&& is_valid_up_to(bytes@, n as int)
                &&& match len {
                    Some(k) => 1 <= k <= 3 && n + k <= bytes@.len(),
                    None => 1 <= bytes@.len() - n <= 3,
                }
            },
        },
{
    match std::str::from_utf8(bytes) {
        Ok(s) => Ok(s),
        Err(e) => Err((e.valid_up_to(), e.error_len().map(|k| k as u8))),
    }
}

/// Relies on `==` on `str`: two strings are equal when their characters are.
#[verifier::external_body]
fn str_eq(a: &str, b: &str) -> (r: bool)
    ensures
        r == (a@ == b@),
{
    a == b
}

/// Whether `bytes` has a zero byte before index `end`.
fn has_nul_before(bytes: &[u8], end: usize) -> (r: bool)
    requires
        end <= bytes@.len(),
    ensures
        r == !no_nul_byte(bytes@.subrange(0, end as int)),
{
    let mut i: usize = 0;
    while i < end
        invariant
            i <= end <= bytes@.len(),
            no_nul_byte(bytes@.subrange(0, i as int)),
        decreases end - i,
    {
        if bytes[i] == 0 {
            assert(bytes@.subrange(0, end as int)[i as int] == 0);
            return true;
        }
        i = i + 1;
    }
    false
}

/// Whether `bytes` ends with its only zero byte.
fn nul_placed(bytes: &[u8]) -> (r: bool)
    ensures
        r == is_nul_placed(bytes@),
{
    let n = bytes.len();
    if n == 0 || bytes[n - 1] != 0 {
        return false;
    }
    assert(bytes@.subrange(0, n - 1) =~= bytes@.drop_last());
    !has_nul_before(bytes, n - 1)
}

/// For every C string, the bytes with the terminator are the bytes without
/// it followed by one zero byte: one byte longer, ending with zero. (That the
/// text holds no nul character is stated by `CUtf8::as_str` and
/// `CUtf8::as_bytes`.)
pub proof fn lemma_bytes_with_nul(v: CUtf8)
    ensures
        encode_utf8(v@).push(0).len() == encode_utf8(v@).len() + 1,
        encode_utf8(v@).push(0).last() == 0,
        encode_utf8(v@).push(0).drop_last() == encode_utf8(v@),
{
    assert(encode_utf8(v@).push(0).drop_last() =~= encode_utf8(v@));
}

/// A borrowed C string of UTF-8 text. It views text whose last character is
/// the nul terminator, which occurs nowhere else in it.
#[derive(Clone, Copy, Debug, Hash, PartialOrd, Ord)]
pub struct CUtf8<'a> {
    text: &'a str,
}

impl<'a> CUtf8<'a> {
    #[verifier::type_invariant]
    spec fn well_formed(self) -> bool {
        is_c_text(self.text@)
    }
}

impl<'a> PartialEq for CUtf8<'a> {
    /// Two C strings are equal when their texts are.
    fn eq(&self, other: &CUtf8<'a>) -> (r: bool) {
        proof {
            use_type_invariant(self);
            use_type_invariant(other);
            assert(self.text@ =~= self@.push('\0'));
            assert(other.text@ =~= other@.push('\0'));
        }
        str_eq(self.text, other.text)
    }
}

impl<'a> vstd::std_specs::cmp::PartialEqSpecImpl for CUtf8<'a> {
    open spec fn obeys_eq_spec() -> bool {
        true
    }

    open spec fn eq_spec(&self, other: &CUtf8<'a>) -> bool {
        self@ == other@
    }
}

impl<'a> Eq for CUtf8<'a> {
}

impl<'a> View for CUtf8<'a> {
    type V = Seq<char>;

    /// The text before the terminator.
    closed spec fn view(&self) -> Seq<char> {
        self.text@.drop_last()
    }
}

impl<'a> CUtf8<'a> {
    /// The text with its terminator is a C text, and what the view holds.
    proof fn lemma_text(self)
        requires
            is_c_text(self.text@),
        ensures
            is_c_text(self.text@),
            self.text@ == self@.push('\0'),
            !self@.contains('\0'),
            self.text.spec_bytes() == encode_utf8(self@).push(0),
            is_c_utf8(self.text.spec_bytes()),
    {
        assert(self.text@ =~= self@.push('\0'));
        lemma_c_text_iff_c_utf8(self.text@);
        assert(encode_utf8(self.text@) =~= encode_utf8(self@).push(0));
    }

    /// Views `bytes` as a C string. It succeeds exactly when `bytes` ends with
    /// its only zero byte and the bytes before it are valid UTF-8. A misplaced
    /// or missing terminator gives `Error::Nul`; invalid UTF-8 before a well
    /// placed terminator gives `Error::Utf8` with the length of the longest
    /// valid prefix.
    pub fn from_bytes(bytes: &'a [u8]) -> (r: Result<CUtf8<'a>, Error>)
        ensures
            r is Ok <==> is_c_utf8(bytes@),
            match r {
                Ok(c) => encode_utf8(c@).push(0) == bytes@,
                Err(Error::Nul) => !is_nul_placed(bytes@),
                Err(Error::Utf8(e)) => {
                    &&& is_nul_placed(bytes@)
                    &&& !valid_utf8(bytes@.drop_last())
                    &&& is_valid_up_to(bytes@, e.valid_up_to as int)
                    &&& match e.error_len {
                        Some(k) => 1 <= k <= 3 && e.valid_up_to + k <= bytes@.len(),
                        None => 1 <= bytes@.len() - e.valid_up_to <= 3,
                    }
                },
            },
    {
        if !nul_placed(bytes) {
            return Err(Error::Nul);
        }
        proof {
            lemma_valid_with_nul(bytes@);
        }
        match str_from_utf8(bytes) {
            Ok(text) => {
                proof {
                    lemma_c_text_iff_c_utf8(text@);
                }
                let c = CUtf8 { text };
                proof {
                    use_type_invariant(c);
                    c.lemma_text();
                }
                Ok(c)
            },
            Err((n, len)) => Err(Error::Utf8(Utf8Error { valid_up_to: n, error_len: len })),
        }
    }

    /// Views `text` as a C string. It succeeds exactly when `text` ends with
    /// the nul character and holds no other; else it gives `Error::Nul`.
    pub fn from_str(text: &'a str) -> (r: Result<CUtf8<'a>, Error>)
        ensures
            r is Ok <==> is_c_text(text@),
            match r {
                Ok(c) => c@.push('\0') == text@,
                Err(e) => e == Error::Nul,
            },
    {
        let bytes = text.as_bytes();
        proof {
            broadcast use encode_utf8_valid_utf8;
            lemma_c_text_iff_c_utf8(text@);
        }
        if !nul_placed(bytes) {
            return Err(Error::Nul);
        }
        proof {
            lemma_valid_with_nul(bytes@);
        }
        Ok(CUtf8::from_str_unchecked(text))
    }

    /// Views `bytes`, which the caller knows to be a UTF-8 body followed by
    /// its only zero byte, as a C string; no error can arise.
    pub fn from_bytes_unchecked(bytes: &'a [u8]) -> (r: CUtf8<'a>)
        requires
            is_c_utf8(bytes@),
        ensures
            encode_utf8(r@).push(0) == bytes@,
    {
        proof {
            lemma_valid_with_nul(bytes@);
        }
        let text = str_from_utf8(bytes).unwrap();
        proof {
            lemma_c_text_iff_c_utf8(text@);
        }
        let c = CUtf8::from_str_unchecked(text);
        proof {
            use_type_invariant(c);
            c.lemma_text();
        }
        c
    }

    /// Views `text`, which the caller knows to be a C text, as a C string,
    /// without any check.
    pub fn from_str_unchecked(text: &'a str) -> (r: CUtf8<'a>)
        requires
            is_c_text(text@),
        ensures
            r@.push('\0') == text@,
    {
        let c = CUtf8 { text };
        proof {
            c.lemma_text();
        }
        c
    }

    /// Copies this C string into an owned one.
    pub fn to_owned(&self) -> (r: CUtf8Buf)
        ensures
            r@ == self@,
    {
        proof {
            use_type_invariant(self);
            self.lemma_text();
        }
        CUtf8Buf::from_string_unchecked(self.text.to_owned())
    }

    /// The text before the terminator.
    pub fn as_str(&self) -> (r: &'a str)
        ensures
            r@ == self@,
            !r@.contains('\0'),
    {
        proof {
            use_type_invariant(self);
            self.lemma_text();
            broadcast use encode_utf8_valid_utf8, encode_utf8_decode_utf8;
            is_char_boundary_iff_is_leading_byte(self.text.spec_bytes(), self.text.spec_bytes().len() - 1);
        }
        let n = self.text.as_bytes().len();
        let (body, _) = self.text.split_at(n - 1);
        proof {
            assert(body.spec_bytes() =~= encode_utf8(self@));
            assert(decode_utf8(encode_utf8(body@)) == decode_utf8(encode_utf8(self@)));
        }
        body
    }

    /// The text with its terminator.
    pub fn as_str_with_nul(&self) -> (r: &'a str)
        ensures
            r@ == self@.push('\0'),
    {
        proof {
            use_type_invariant(self);
            self.lemma_text();
        }
        self.text
    }

    /// The UTF-8 bytes before the terminator; none of them is zero.
    pub fn as_bytes(&self) -> (r: &'a [u8])
        ensures
            r@ == encode_utf8(self@),
            no_nul_byte(r@),
    {
        proof {
            use_type_invariant(self);
            self.lemma_text();
        }
        let bytes = self.text.as_bytes();
        let (body, _) = bytes.split_at(bytes.len() - 1);
        proof {
            assert(body@ =~= encode_utf8(self@));
        }
        body
    }

    /// The UTF-8 bytes with the terminating zero byte.
    pub fn as_bytes_with_nul(&self) -> (r: &'a [u8])
        ensures
            r@ == encode_utf8(self@).push(0),
    {
        proof {
            use_type_invariant(self);
            self.lemma_text();
        }
        self.text.as_bytes()
    }

    /// The number of bytes before the terminator.
    pub fn len(&self) -> (r: usize)
        ensures
            r == encode_utf8(self@).len(),
    {
        proof {
            use_type_invariant(self);
            self.lemma_text();
        }
        self.text.as_bytes().len() - 1
    }

    /// The number of bytes with the terminator.
    pub fn len_with_nul(&self) -> (r: usize)
        ensures
            r == encode_utf8(self@).len() + 1,
    {
        proof {
            use_type_invariant(self);
            self.lemma_text();
        }
        self.text.as_bytes().len()
    }

    /// Whether the text before the terminator is empty.
    pub fn is_empty(&self) -> (r: bool)
        ensures
            r == (self@.len() == 0),
    {
        proof {
            use_type_invariant(self);
            self.lemma_text();
            lemma_encode_concat(self@, seq!['\0']);
            lemma_encode_nul();
        }
        self.text.as_bytes().len() == 1
    }
}

} // verus!
