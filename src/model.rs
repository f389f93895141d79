//! The mathematical model shared by the borrowed and the owned C string: a
//! text is a C text when it ends with the nul character and holds no other
//! one, and its UTF-8 encoding is then a nul-terminated byte string.

use vstd::prelude::*;
use vstd::utf8::*;

use crate::internal::no_nul_byte;

verus! {

/// The characters `s` end with a single nul character, found nowhere else.
pub open spec fn is_c_text(s: Seq<char>) -> bool {
    &&& s.len() > 0
    &&& s.last() == '\0'
    &&& !s.drop_last().contains('\0')
}

/// The bytes `b` end with a single zero byte, found nowhere else.
pub open spec fn is_nul_placed(b: Seq<u8>) -> bool {
    &&& b.len() > 0
    &&& b.last() == 0
    &&& no_nul_byte(b.drop_last())
}

/// The bytes `b` form a C string of UTF-8 text: a single trailing zero byte
/// after a valid UTF-8 body.
pub open spec fn is_c_utf8(b: Seq<u8>) -> bool {
    is_nul_placed(b) && valid_utf8(b.drop_last())
}

/// `n` is the length of the longest prefix of `b` that is valid UTF-8.
pub open spec fn is_valid_up_to(b: Seq<u8>, n: int) -> bool {
    &&& 0 <= n <= b.len()
    &&& valid_utf8(b.subrange(0, n))
    &&& forall|j: int| n < j <= b.len() ==> !valid_utf8(#[trigger] b.subrange(0, j))
}

/// Encoding distributes over concatenation.
pub proof fn lemma_encode_concat(a: Seq<char>, b: Seq<char>)
    ensures
        encode_utf8(a + b) == encode_utf8(a) + encode_utf8(b),
    decreases a.len(),
{
    if a.len() == 0 {
        assert(a + b =~= b);
        assert(encode_utf8(a) + encode_utf8(b) =~= encode_utf8(b));
    } else {
        assert((a + b).drop_first() =~= a.drop_first() + b);
        lemma_encode_concat(a.drop_first(), b);
        assert(encode_utf8(a + b) =~= encode_scalar(a[0] as u32) + encode_utf8(a.drop_first() + b));
        assert(encode_utf8(a + b) =~= encode_utf8(a) + encode_utf8(b));
    }
}

/// A character's encoding holds a zero byte exactly when the character is
/// the nul character, which encodes as that one byte.
pub proof fn lemma_encode_scalar_nul(c: char)
    ensures
        c == '\0' ==> encode_scalar(c as u32) == seq![0u8],
        c != '\0' ==> no_nul_byte(encode_scalar(c as u32)),
        encode_scalar(c as u32).len() > 0,
        encode_scalar(c as u32).last() == 0 ==> c == '\0',
{
    let v = c as u32;
    char_is_scalar(c);
    char_u32_cast(c, v);
    if has_width_1_encoding(v) {
        assert(v <= 0x7f ==> ((v & 0x7F) as u8 == 0 <==> v == 0)) by (bit_vector);
        if c == '\0' {
            assert(encode_scalar(v) =~= seq![0u8]);
        } else {
            assert(v != 0);
        }
    } else {
        let a = (v >> 6) & 0x1F;
        let b1 = (v >> 12) & 0x0F;
        let b2 = (v >> 18) & 0x7;
        let c1 = v & 0x3F;
        let c2 = (v >> 6) & 0x3F;
        let c3 = (v >> 12) & 0x3F;
        assert((0xC0u8 | (a as u8)) != 0) by (bit_vector);
        assert((0xE0u8 | (b1 as u8)) != 0) by (bit_vector);
        assert((0xF0u8 | (b2 as u8)) != 0) by (bit_vector);
        assert((0x80u8 | (c1 as u8)) != 0) by (bit_vector);
        assert((0x80u8 | (c2 as u8)) != 0) by (bit_vector);
        assert((0x80u8 | (c3 as u8)) != 0) by (bit_vector);
        assert(v != 0);
    }
}

/// A text has no nul character exactly when its encoding has no zero byte.
pub proof fn lemma_no_nul_char_iff_byte(s: Seq<char>)
    ensures
        !s.contains('\0') <==> no_nul_byte(encode_utf8(s)),
    decreases s.len(),
{
    if s.len() > 0 {
        let head = encode_scalar(s[0] as u32);
        let rest = encode_utf8(s.drop_first());
        lemma_no_nul_char_iff_byte(s.drop_first());
        lemma_encode_scalar_nul(s[0]);
        assert(encode_utf8(s) == head + rest);
        if s.contains('\0') {
            let k = choose|k: int| 0 <= k < s.len() && s[k] == '\0';
            if k == 0 {
                assert((head + rest)[0] == 0);
            } else {
                assert(s.drop_first()[k - 1] == '\0');
                let i = choose|i: int| 0 <= i < rest.len() && rest[i] == 0;
                assert((head + rest)[head.len() + i] == 0);
            }
        } else {
            assert(s[0] != '\0');
            assert forall|j: int| 0 <= j < s.drop_first().len() implies s.drop_first()[j] != '\0' by {
                assert(s.drop_first()[j] == s[j + 1]);
            }
            assert forall|i: int| 0 <= i < (head + rest).len() implies (head + rest)[i] != 0 by {
                if i >= head.len() {
                    assert((head + rest)[i] == rest[i - head.len()]);
                }
            }
        }
    } else {
        assert(!s.contains('\0'));
    }
}

/// The encoding of the nul character alone.
pub proof fn lemma_encode_nul()
    ensures
        encode_utf8(seq!['\0']) == seq![0u8],
{
    lemma_encode_scalar_nul('\0');
    assert(seq!['\0'].drop_first() =~= Seq::<char>::empty());
    assert(encode_utf8(seq!['\0']) =~= encode_scalar('\0' as u32) + encode_utf8(Seq::<char>::empty()));
    assert(encode_utf8(seq!['\0']) =~= seq![0u8]);
}

/// A text ends with the nul character exactly when its encoding ends with a
/// zero byte.
pub proof fn lemma_ends_with_nul(s: Seq<char>)
    ensures
        (s.len() > 0 && s.last() == '\0') <==> (encode_utf8(s).len() > 0 && encode_utf8(s).last() == 0),
{
    if s.len() > 0 {
        let body = s.drop_last();
        let last = s.last();
        assert(s =~= body + seq![last]);
        lemma_encode_concat(body, seq![last]);
        assert(seq![last].drop_first() =~= Seq::<char>::empty());
        assert(encode_utf8(seq![last]) =~= encode_scalar(last as u32) + encode_utf8(Seq::<char>::empty()));
        lemma_encode_scalar_nul(last);
    } else {
        assert(encode_utf8(s).len() == 0);
    }
}

/// A text is a C text exactly when its encoding is a UTF-8 C string, and
/// then the encoding of the body is the encoding without its last byte.
pub proof fn lemma_c_text_iff_c_utf8(s: Seq<char>)
    ensures
        is_c_text(s) <==> is_c_utf8(encode_utf8(s)),
        s.len() > 0 && s.last() == '\0' ==> encode_utf8(s).drop_last() == encode_utf8(s.drop_last()),
{
    broadcast use encode_utf8_valid_utf8;
    if s.len() > 0 {
        let body = s.drop_last();
        let last = s.last();
        assert(s =~= body + seq![last]);
        lemma_encode_concat(body, seq![last]);
        assert(seq![last].drop_first() =~= Seq::<char>::empty());
        assert(encode_utf8(seq![last]) =~= encode_scalar(last as u32) + encode_utf8(Seq::<char>::empty()));
        assert(encode_utf8(seq![last]) =~= encode_scalar(last as u32));
        lemma_encode_scalar_nul(last);
        lemma_no_nul_char_iff_byte(body);
        let e = encode_utf8(s);
        if last == '\0' {
            assert(e == encode_utf8(body) + seq![0u8]);
            assert(e.drop_last() =~= encode_utf8(body));
        } else {
            let t = encode_scalar(last as u32);
            assert(e == encode_utf8(body) + t);
            assert(e.last() == t.last());
        }
    } else {
        assert(encode_utf8(s).len() == 0);
    }
}

/// A nul-terminated byte string is valid UTF-8 exactly when its body is.
pub proof fn lemma_valid_with_nul(b: Seq<u8>)
    requires
        b.len() > 0,
        b.last() == 0,
    ensures
        valid_utf8(b) <==> valid_utf8(b.drop_last()),
{
    broadcast use encode_utf8_valid_utf8;
    lemma_encode_nul();
    let body = b.drop_last();
    assert(b =~= body + seq![0u8]);
    if valid_utf8(body) {
        valid_utf8_concat(body, seq![0u8]);
    }
    if valid_utf8(b) {
        is_char_boundary_iff_is_leading_byte(b, b.len() - 1);
        valid_utf8_split(b, b.len() - 1);
        assert(b.subrange(0, b.len() - 1) =~= body);
    }
}

} // verus!
