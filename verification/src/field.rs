//! The proving backend's prime field, seen as canonical `u64` values.
//!
//! Every value that enters a witness or a public-input slot must be a
//! canonical representative of the Goldilocks field, that is, strictly below
//! the field order.

use vstd::prelude::*;

verus! {

/// Order of the Goldilocks prime field used by the proving backend.
pub const GOLDILOCKS_ORDER: u64 = 0xFFFF_FFFF_0000_0001;

/// A canonical field representative: strictly below the field order.
pub open spec fn canonical(x: u64) -> bool {
    x < GOLDILOCKS_ORDER
}

/// Every element of the sequence is a canonical field representative.
pub open spec fn all_canonical(s: Seq<u64>) -> bool {
    forall|i: int| 0 <= i < s.len() ==> canonical(s[i])
}

/// Runtime check that every element of `v` is a canonical field value.
pub fn check_all_canonical(v: &Vec<u64>) -> (r: bool)
    ensures
        r == all_canonical(v@),
{
    let mut i: usize = 0;
    while i < v.len()
        invariant
            0 <= i <= v@.len(),
            forall|j: int| 0 <= j < i ==> canonical(v@[j]),
        decreases v@.len() - i,
    {
        if v[i] >= GOLDILOCKS_ORDER {
            return false;
        }
        i = i + 1;
    }
    true
}

} // verus!
