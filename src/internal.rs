//! Checks used when a C string is built from a text literal.

use vstd::prelude::*;
use vstd::string::StringSliceAdditionalSpecFns;

verus! {

/// True when no byte of `b` is a zero byte.
pub open spec fn no_nul_byte(b: Seq<u8>) -> bool {
    forall|i: int| 0 <= i < b.len() ==> b[i] != 0
}

/// Admits `x` as the body of a C string literal, whose terminator is
/// appended after it: `x` must hold no zero byte, neither inside nor as its
/// last character. A call on text that holds one fails verification, so such
/// a literal is rejected before the program runs.
pub fn check_no_nul(x: &str)
    requires
        no_nul_byte(x.spec_bytes()),
    ensures
        !x@.contains('\0'),
{
    proof {
        crate::model::lemma_no_nul_char_iff_byte(x@);
    }
}

/// Tells whether `x` may be used as the body of a C string literal: it is
/// accepted exactly when it holds no zero byte, that is, no nul character.
pub fn has_no_nul(x: &str) -> (r: bool)
    ensures
        r == no_nul_byte(x.spec_bytes()),
        r == !x@.contains('\0'),
{
    proof {
        crate::model::lemma_no_nul_char_iff_byte(x@);
    }
    let bytes = x.as_bytes();
    let mut i: usize = 0;
    while i < bytes.len()
        invariant
            bytes@ == x.spec_bytes(),
            !x@.contains('\0') <==> no_nul_byte(x.spec_bytes()),
            i <= bytes@.len(),
            no_nul_byte(bytes@.subrange(0, i as int)),
        decreases bytes@.len() - i,
    {
        if bytes[i] == 0 {
            assert(x.spec_bytes()[i as int] == 0);
            return false;
        }
        i = i + 1;
    }
    assert(bytes@.subrange(0, i as int) =~= bytes@);
    true
}

} // verus!
