//! The owned UTF-8 C string: a growable text buffer that always keeps its
//! single nul terminator.

use vstd::prelude::*;
use vstd::utf8::encode_utf8;

use crate::c_utf8::CUtf8;
use crate::ext::IsNulTerminated;
use crate::model::{is_c_text, lemma_c_text_iff_c_utf8, lemma_encode_concat, lemma_encode_nul};
use crate::strings::{string_into_bytes, string_pop, string_push, string_push_str};

verus! {

/// The text `s` less one trailing nul character, where it has one.
pub open spec fn strip_nul(s: Seq<char>) -> Seq<char> {
    if s.len() > 0 && s.last() == '\0' {
        s.drop_last()
    } else {
        s
    }
}

/// The concatenation of the texts of `parts`, in order.
pub open spec fn joined(parts: Seq<&str>) -> Seq<char> {
    parts.map_values(|p: &str| p@).flatten()
}

/// Building an owned C string from text without a nul character and turning
/// it back into plain text gives that text unchanged: `from_string` keeps it
/// whole and `into_string` returns the text before the terminator.
pub proof fn lemma_round_trip(s: Seq<char>)
    requires
        !s.contains('\0'),
    ensures
        !strip_nul(s).contains('\0'),
        strip_nul(s) == s,
{
}

/// Building an owned C string from text that already ends with its only nul
/// character adds no second terminator: the stored text with its terminator
/// is the given text, of the same length in characters and in bytes.
pub proof fn lemma_no_second_terminator(s: Seq<char>)
    requires
        is_c_text(s),
    ensures
        !strip_nul(s).contains('\0'),
        strip_nul(s).push('\0') == s,
        strip_nul(s).len() + 1 == s.len(),
        encode_utf8(strip_nul(s)).len() + 1 == encode_utf8(s).len(),
{
    assert(strip_nul(s).push('\0') =~= s);
    lemma_c_text_iff_c_utf8(s);
}

/// An owned, growable C string of UTF-8 text. Its storage is the text
/// followed by the nul terminator, which occurs nowhere else in it.
#[derive(Debug, Hash, PartialOrd, Ord)]
pub struct CUtf8Buf {
    inner: String,
}

impl CUtf8Buf {
    #[verifier::type_invariant]
    spec fn well_formed(self) -> bool {
        is_c_text(self.inner@)
    }
}

impl Clone for CUtf8Buf {
    fn clone(&self) -> (r: CUtf8Buf)
        ensures
            r@ == self@,
    {
        proof {
            use_type_invariant(self);
        }
        CUtf8Buf { inner: self.inner.clone() }
    }
}

impl PartialEq for CUtf8Buf {
    /// Two C strings are equal when their texts are.
    fn eq(&self, other: &CUtf8Buf) -> (r: bool) {
        proof {
            use_type_invariant(self);
            use_type_invariant(other);
            assert(self.inner@ =~= self@.push('\0'));
            assert(other.inner@ =~= other@.push('\0'));
        }
        self.inner == other.inner
    }
}

impl vstd::std_specs::cmp::PartialEqSpecImpl for CUtf8Buf {
    open spec fn obeys_eq_spec() -> bool {
        true
    }

    open spec fn eq_spec(&self, other: &CUtf8Buf) -> bool {
        self@ == other@
    }
}

impl Eq for CUtf8Buf {
}

impl<'a> PartialEq<CUtf8<'a>> for CUtf8Buf {
    /// An owned and a borrowed C string are equal when their texts are.
    fn eq(&self, other: &CUtf8<'a>) -> (r: bool) {
        self.as_c_utf8() == *other
    }
}

impl<'a> vstd::std_specs::cmp::PartialEqSpecImpl<CUtf8<'a>> for CUtf8Buf {
    open spec fn obeys_eq_spec() -> bool {
        true
    }

    open spec fn eq_spec(&self, other: &CUtf8<'a>) -> bool {
        self@ == other@
    }
}

impl<'a> PartialEq<CUtf8Buf> for CUtf8<'a> {
    /// A borrowed and an owned C string are equal when their texts are.
    fn eq(&self, other: &CUtf8Buf) -> (r: bool) {
        *self == other.as_c_utf8()
    }
}

impl<'a> vstd::std_specs::cmp::PartialEqSpecImpl<CUtf8Buf> for CUtf8<'a> {
    open spec fn obeys_eq_spec() -> bool {
        true
    }

    open spec fn eq_spec(&self, other: &CUtf8Buf) -> bool {
        self@ == other@
    }
}

impl Default for CUtf8Buf {
    /// The empty C string.
    fn default() -> (r: CUtf8Buf)
        ensures
            r@ == Seq::<char>::empty(),
    {
        CUtf8Buf::new()
    }
}

impl From<CUtf8Buf> for String {
    /// The text before the terminator.
    fn from(buf: CUtf8Buf) -> (r: String)
        ensures
            r@ == buf@,
    {
        buf.into_string()
    }
}

impl vstd::std_specs::convert::FromSpecImpl<CUtf8Buf> for String {
    /// A `String` is known by its view alone, stated on `from` itself.
    open spec fn obeys_from_spec() -> bool {
        false
    }

    open spec fn from_spec(buf: CUtf8Buf) -> String {
        choose|s: String| s@ == buf@
    }
}

impl From<CUtf8Buf> for Vec<u8> {
    /// The UTF-8 bytes before the terminator.
    fn from(buf: CUtf8Buf) -> (r: Vec<u8>)
        ensures
            r@ == encode_utf8(buf@),
    {
        buf.into_bytes()
    }
}

impl vstd::std_specs::convert::FromSpecImpl<CUtf8Buf> for Vec<u8> {
    /// A `Vec` is known by its view alone, stated on `from` itself.
    open spec fn obeys_from_spec() -> bool {
        false
    }

    open spec fn from_spec(buf: CUtf8Buf) -> Vec<u8> {
        choose|v: Vec<u8>| v@ == encode_utf8(buf@)
    }
}

impl<'a> From<CUtf8<'a>> for CUtf8Buf {
    /// Copies the borrowed C string.
    fn from(c: CUtf8<'a>) -> (r: CUtf8Buf)
        ensures
            r@ == c@,
    {
        c.to_owned()
    }
}

impl<'a> vstd::std_specs::convert::FromSpecImpl<CUtf8<'a>> for CUtf8Buf {
    /// An owned C string is known by its view alone, stated on `from` itself.
    open spec fn obeys_from_spec() -> bool {
        false
    }

    open spec fn from_spec(c: CUtf8<'a>) -> CUtf8Buf {
        choose|b: CUtf8Buf| b@ == c@
    }
}

impl View for CUtf8Buf {
    type V = Seq<char>;

    /// The text before the terminator.
    closed spec fn view(&self) -> Seq<char> {
        self.inner@.drop_last()
    }
}

impl CUtf8Buf {
    /// Takes `body`, which holds no nul character, and appends the
    /// terminator.
    fn from_body(body: String) -> (r: CUtf8Buf)
        requires
            !body@.contains('\0'),
        ensures
            r@ == body@,
    {
        let mut s = body;
        string_push(&mut s, '\0');
        assert(s@.drop_last() =~= body@);
        CUtf8Buf { inner: s }
    }

    /// Moves the text before the terminator out of `self`, leaving it empty.
    fn take_body(&mut self) -> (r: String)
        ensures
            r@ == old(self)@,
            !r@.contains('\0'),
            final(self)@ == Seq::<char>::empty(),
    {
        let mut taken = CUtf8Buf::new();
        std::mem::swap(self, &mut taken);
        taken.into_string()
    }

    /// Creates an empty C string: its storage is the terminator alone.
    pub fn new() -> (r: CUtf8Buf)
        ensures
            r@ == Seq::<char>::empty(),
    {
        CUtf8Buf::from_body(String::new())
    }

    /// Creates a C string from `s`, appending the terminator unless `s`
    /// already ends with one. `s` holds no other nul character.
    pub fn from_string(s: String) -> (r: CUtf8Buf)
        requires
            !strip_nul(s@).contains('\0'),
        ensures
            r@ == strip_nul(s@),
    {
        let ghost given = s@;
        let mut s = s;
        if !s.as_str().is_nul_terminated() {
            string_push(&mut s, '\0');
            assert(s@.drop_last() =~= given);
        }
        CUtf8Buf { inner: s }
    }

    /// Creates a C string from the concatenation of `parts`, appending the
    /// terminator unless it already ends with one; it holds no other nul
    /// character.
    pub fn from_strs(parts: &[&str]) -> (r: CUtf8Buf)
        requires
            !strip_nul(joined(parts@)).contains('\0'),
        ensures
            r@ == strip_nul(joined(parts@)),
    {
        let mut s = String::new();
        let mut i: usize = 0;
        while i < parts.len()
            invariant
                i <= parts@.len(),
                s@ == joined(parts@.subrange(0, i as int)),
            decreases parts@.len() - i,
        {
            proof {
                let f = |p: &str| p@;
                assert(parts@.subrange(0, i + 1) =~= parts@.subrange(0, i as int).push(parts@[i as int]));
                parts@.subrange(0, i as int).lemma_push_map_commute(f, parts@[i as int]);
                parts@.subrange(0, i as int).map_values(f).lemma_flatten_push(parts@[i as int]@);
            }
            string_push_str(&mut s, parts[i]);
            i = i + 1;
        }
        assert(parts@.subrange(0, i as int) =~= parts@);
        CUtf8Buf::from_string(s)
    }

    /// Creates a C string from `s`, which the caller knows to end with its
    /// only nul character, without any check.
    pub fn from_string_unchecked(s: String) -> (r: CUtf8Buf)
        requires
            is_c_text(s@),
        ensures
            r@.push('\0') == s@,
    {
        let r = CUtf8Buf { inner: s };
        assert(s@ =~= r@.push('\0'));
        r
    }

    /// Appends `s`, which holds no nul character, to the text.
    pub fn push_str(&mut self, s: &str)
        requires
            !s@.contains('\0'),
        ensures
            final(self)@ == old(self)@ + s@,
    {
        let mut body = self.take_body();
        string_push_str(&mut body, s);
        *self = CUtf8Buf::from_body(body);
    }

    /// Appends `c`, which is not the nul character, to the text.
    pub fn push(&mut self, c: char)
        requires
            c != '\0',
        ensures
            final(self)@ == old(self)@.push(c),
    {
        let mut body = self.take_body();
        string_push(&mut body, c);
        *self = CUtf8Buf::from_body(body);
    }

    /// The text before the terminator, as a plain string.
    pub fn into_string(self) -> (r: String)
        ensures
            r@ == self@,
            !r@.contains('\0'),
    {
        proof {
            use_type_invariant(&self);
        }
        let mut s = self.into_string_with_nul();
        string_pop(&mut s);
        s
    }

    /// The text with its terminator, as a plain string.
    pub fn into_string_with_nul(self) -> (r: String)
        ensures
            r@ == self@.push('\0'),
    {
        proof {
            use_type_invariant(&self);
            assert(self.inner@ =~= self@.push('\0'));
        }
        self.inner
    }

    /// The UTF-8 bytes before the terminator.
    pub fn into_bytes(self) -> (r: Vec<u8>)
        ensures
            r@ == encode_utf8(self@),
    {
        let ghost text = self@;
        let mut bytes = self.into_bytes_with_nul();
        bytes.pop();
        assert(bytes@ =~= encode_utf8(text));
        bytes
    }

    /// The UTF-8 bytes with the terminating zero byte.
    pub fn into_bytes_with_nul(self) -> (r: Vec<u8>)
        ensures
            r@ == encode_utf8(self@).push(0),
    {
        let ghost text = self@;
        let s = self.into_string_with_nul();
        proof {
            lemma_encode_concat(text, seq!['\0']);
            lemma_encode_nul();
            assert(s@ =~= text + seq!['\0']);
        }
        string_into_bytes(s)
    }

    /// A borrowed view of this C string.
    pub fn as_c_utf8(&self) -> (r: CUtf8<'_>)
        ensures
            r@ == self@,
    {
        proof {
            use_type_invariant(self);
        }
        let c = CUtf8::from_str_unchecked(self.inner.as_str());
        assert(c@ =~= self@);
        c
    }
}

} // verus!
