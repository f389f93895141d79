//! Whether bytes or text end with a nul terminator.

use vstd::prelude::*;
use vstd::string::StringSliceAdditionalSpecFns;

use crate::model::lemma_ends_with_nul;

verus! {

/// Checks whether bytes or a string are nul terminated.
pub trait IsNulTerminated {
    /// The value's last byte exists and is zero.
    spec fn nul_terminated(&self) -> bool;

    /// Whether the value's last byte is zero.
    fn is_nul_terminated(&self) -> (r: bool)
        ensures
            r == self.nul_terminated(),
    ;
}

impl IsNulTerminated for str {
    /// A text is nul terminated when its last character is the nul character,
    /// which is when its last UTF-8 byte is zero.
    open spec fn nul_terminated(&self) -> bool {
        self@.len() > 0 && self@.last() == '\0'
    }

    fn is_nul_terminated(&self) -> (r: bool) {
        proof {
            lemma_ends_with_nul(self@);
            assert(self.spec_bytes() == vstd::utf8::encode_utf8(self@));
        }
        self.as_bytes().is_nul_terminated()
    }
}

impl IsNulTerminated for [u8] {
    open spec fn nul_terminated(&self) -> bool {
        self@.len() > 0 && self@.last() == 0
    }

    fn is_nul_terminated(&self) -> (r: bool) {
        let n = self.len();
        n > 0 && self[n - 1] == 0
    }
}

impl<const N: usize> IsNulTerminated for [u8; N] {
    open spec fn nul_terminated(&self) -> bool {
        self@.len() > 0 && self@.last() == 0
    }

    fn is_nul_terminated(&self) -> (r: bool) {
        N > 0 && self[N - 1] == 0
    }
}

} // verus!
