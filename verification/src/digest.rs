//! Digest over sequences of field values.
//!
//! The proving backend treats a digest as an opaque commitment to a sequence
//! of field values. This layer only ever compares digests for equality, so
//! the commitment is modelled by a fixed, fully specified accumulator over
//! four independently seeded lanes; each lane folds the input into a running
//! value modulo the field order. Every output limb is a canonical field
//! value.

use vstd::prelude::*;

use crate::field::{all_canonical, canonical, GOLDILOCKS_ORDER};

verus! {

/// Number of field limbs in a digest.
pub const DIGEST_WIDTH: usize = 4;

/// Multiplier folding one absorbed value into a lane.
pub const DIGEST_MULTIPLIER: u64 = 0x5851_F42D_4C95_7F2D;

/// Seed of the first digest lane.
pub const DIGEST_SEED_0: u64 = 0x0123_4567_89AB_CDEF;

/// Seed of the second digest lane.
pub const DIGEST_SEED_1: u64 = 0x0123_4567_89AB_CDF0;

/// Seed of the third digest lane.
pub const DIGEST_SEED_2: u64 = 0x0123_4567_89AB_CDF1;

/// Seed of the fourth digest lane.
pub const DIGEST_SEED_3: u64 = 0x0123_4567_89AB_CDF2;

/// One absorption step of a lane: fold `x` into the accumulator `acc`.
pub open spec fn spec_absorb(acc: u64, x: u64) -> u64 {
    (((acc as int) * (DIGEST_MULTIPLIER as int) + (x as int)) % (GOLDILOCKS_ORDER as int)) as u64
}

/// Value of one digest lane over the whole input.
pub open spec fn spec_lane(s: Seq<u64>, seed: u64) -> u64
    decreases s.len(),
{
    if s.len() == 0 {
        (seed as int % GOLDILOCKS_ORDER as int) as u64
    } else {
        spec_absorb(spec_lane(s.drop_last(), seed), s.last())
    }
}

/// The digest of a sequence of field values: four lanes, seeded apart.
pub open spec fn digest_of(s: Seq<u64>) -> Seq<u64> {
    seq![
        spec_lane(s, DIGEST_SEED_0),
        spec_lane(s, DIGEST_SEED_1),
        spec_lane(s, DIGEST_SEED_2),
        spec_lane(s, DIGEST_SEED_3),
    ]
}

/// Every lane value is a canonical field representative.
proof fn lemma_lane_canonical(s: Seq<u64>, seed: u64)
    ensures
        canonical(spec_lane(s, seed)),
    decreases s.len(),
{
    if s.len() == 0 {
    } else {
        lemma_lane_canonical(s.drop_last(), seed);
    }
}

/// A digest always has `DIGEST_WIDTH` limbs, all canonical.
pub proof fn lemma_digest_shape(s: Seq<u64>)
    ensures
        digest_of(s).len() == DIGEST_WIDTH,
        all_canonical(digest_of(s)),
{
    lemma_lane_canonical(s, DIGEST_SEED_0);
    lemma_lane_canonical(s, DIGEST_SEED_1);
    lemma_lane_canonical(s, DIGEST_SEED_2);
    lemma_lane_canonical(s, DIGEST_SEED_3);
}

/// One executable absorption step.
fn absorb(acc: u64, x: u64) -> (r: u64)
    ensures
        r == spec_absorb(acc, x),
        canonical(r),
{
    proof {
        assert((acc as int) * (DIGEST_MULTIPLIER as int) + (x as int) < 0x1_0000_0000_0000_0000_0000_0000_0000_0000)
            by (nonlinear_arith)
            requires
                acc <= 0xFFFF_FFFF_FFFF_FFFFu64,
                x <= 0xFFFF_FFFF_FFFF_FFFFu64,
        ;
    }
    let wide: u128 = (acc as u128) * (DIGEST_MULTIPLIER as u128) + (x as u128);
    let folded: u128 = wide % (GOLDILOCKS_ORDER as u128);
    folded as u64
}

/// One executable lane over the whole input.
fn lane(s: &Vec<u64>, seed: u64) -> (r: u64)
    ensures
        r == spec_lane(s@, seed),
{
    let mut acc: u64 = seed % GOLDILOCKS_ORDER;
    let mut i: usize = 0;
    while i < s.len()
        invariant
            0 <= i <= s@.len(),
            acc == spec_lane(s@.take(i as int), seed),
        decreases s@.len() - i,
    {
        proof {
            assert(s@.take(i + 1).drop_last() =~= s@.take(i as int));
            assert(s@.take(i + 1).last() == s@[i as int]);
        }
        acc = absorb(acc, s[i]);
        i = i + 1;
    }
    proof {
        assert(s@.take(s@.len() as int) =~= s@);
    }
    acc
}

/// The digest of a vector of field values.
pub fn digest(s: &Vec<u64>) -> (r: Vec<u64>)
    ensures
        r@ == digest_of(s@),
        r@.len() == DIGEST_WIDTH,
        all_canonical(r@),
{
    let mut r: Vec<u64> = Vec::new();
    r.push(lane(s, DIGEST_SEED_0));
    r.push(lane(s, DIGEST_SEED_1));
    r.push(lane(s, DIGEST_SEED_2));
    r.push(lane(s, DIGEST_SEED_3));
    proof {
        assert(r@ =~= digest_of(s@));
        lemma_digest_shape(s@);
    }
    r
}

} // verus!
