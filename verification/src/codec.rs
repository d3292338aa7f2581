//! Byte encodings.
//!
//! Field values are written as eight little-endian bytes. A proof record is
//! written as a length-prefixed run of public-input values followed by its
//! four attestation limbs; decoding is strict: any trailing, missing or
//! non-canonical data is rejected, and decoding inverts encoding exactly.

use vstd::prelude::*;


verus! {

/// The eight little-endian bytes of a field value.
pub open spec fn u64_le(x: u64) -> Seq<u8> {
    seq![
        (x & 0xff) as u8,
        ((x >> 8) & 0xff) as u8,
        ((x >> 16) & 0xff) as u8,
        ((x >> 24) & 0xff) as u8,
        ((x >> 32) & 0xff) as u8,
        ((x >> 40) & 0xff) as u8,
        ((x >> 48) & 0xff) as u8,
        ((x >> 56) & 0xff) as u8,
    ]
}

/// The value read from eight little-endian bytes.
pub open spec fn u64_from_le(b: Seq<u8>) -> u64
    recommends
        b.len() == 8,
{
    (b[0] as u64) | ((b[1] as u64) << 8) | ((b[2] as u64) << 16) | ((b[3] as u64) << 24) | ((
    b[4] as u64) << 32) | ((b[5] as u64) << 40) | ((b[6] as u64) << 48) | ((b[7] as u64) << 56)
}

/// Reading back the eight bytes of a value returns the value.
pub proof fn lemma_u64_le_roundtrip(x: u64)
    ensures
        u64_from_le(u64_le(x)) == x,
{
    let b = u64_le(x);
    assert(b[0] == (x & 0xff) as u8);
    assert(b[1] == ((x >> 8) & 0xff) as u8);
    assert(b[2] == ((x >> 16) & 0xff) as u8);
    assert(b[3] == ((x >> 24) & 0xff) as u8);
    assert(b[4] == ((x >> 32) & 0xff) as u8);
    assert(b[5] == ((x >> 40) & 0xff) as u8);
    assert(b[6] == ((x >> 48) & 0xff) as u8);
    assert(b[7] == ((x >> 56) & 0xff) as u8);
    assert((((x & 0xff) as u8) as u64) | ((((x >> 8) & 0xff) as u8 as u64) << 8) | ((((x >> 16)
        & 0xff) as u8 as u64) << 16) | ((((x >> 24) & 0xff) as u8 as u64) << 24) | ((((x >> 32)
        & 0xff) as u8 as u64) << 32) | ((((x >> 40) & 0xff) as u8 as u64) << 40) | ((((x >> 48)
        & 0xff) as u8 as u64) << 48) | ((((x >> 56) & 0xff) as u8 as u64) << 56) == x)
        by (bit_vector);
}

/// The little-endian bytes of a run of field values, in order.
pub open spec fn flat_le(s: Seq<u64>) -> Seq<u8>
    decreases s.len(),
{
    if s.len() == 0 {
        Seq::<u8>::empty()
    } else {
        flat_le(s.drop_last()) + u64_le(s.last())
    }
}

/// A run of values takes eight bytes each.
pub proof fn lemma_flat_le_len(s: Seq<u64>)
    ensures
        flat_le(s).len() == 8 * s.len(),
    decreases s.len(),
{
    if s.len() > 0 {
        lemma_flat_le_len(s.drop_last());
    }
}

/// The bytes of value `i` in a run sit at offset `8 * i`.
pub proof fn lemma_flat_le_index(s: Seq<u64>, i: int)
    requires
        0 <= i < s.len(),
    ensures
        flat_le(s).subrange(8 * i, 8 * i + 8) == u64_le(s[i]),
    decreases s.len(),
{
    lemma_flat_le_len(s);
    lemma_flat_le_len(s.drop_last());
    if i == s.len() - 1 {
        assert(flat_le(s).subrange(8 * i, 8 * i + 8) =~= u64_le(s.last()));
    } else {
        lemma_flat_le_index(s.drop_last(), i);
        assert(flat_le(s).subrange(8 * i, 8 * i + 8) =~= flat_le(s.drop_last()).subrange(
            8 * i,
            8 * i + 8,
        ));
    }
}

/// The low byte of a field value.
fn low_byte(x: u64) -> (r: u8)
    ensures
        r == (x & 0xff) as u8,
{
    proof {
        assert((x & 0xff) < 256) by (bit_vector);
    }
    (x & 0xff) as u8
}

/// Append the eight little-endian bytes of `x`.
pub fn push_u64_le(out: &mut Vec<u8>, x: u64)
    ensures
        final(out)@ == old(out)@ + u64_le(x),
{
    out.push(low_byte(x));
    out.push(low_byte(x >> 8));
    out.push(low_byte(x >> 16));
    out.push(low_byte(x >> 24));
    out.push(low_byte(x >> 32));
    out.push(low_byte(x >> 40));
    out.push(low_byte(x >> 48));
    out.push(low_byte(x >> 56));
    proof {
        assert(out@ =~= old(out)@ + u64_le(x));
    }
}

/// Read the field value stored at byte offset `pos`.
pub fn read_u64_le(b: &Vec<u8>, pos: usize) -> (r: u64)
    requires
        pos + 8 <= b@.len(),
    ensures
        r == u64_from_le(b@.subrange(pos as int, pos as int + 8)),
{
    let len: usize = b.len();
    let r = (b[pos] as u64) | ((b[pos + 1] as u64) << 8) | ((b[pos + 2] as u64) << 16) | ((b[pos
        + 3] as u64) << 24) | ((b[pos + 4] as u64) << 32) | ((b[pos + 5] as u64) << 40) | ((b[pos
        + 6] as u64) << 48) | ((b[pos + 7] as u64) << 56);
    proof {
        let sub = b@.subrange(pos as int, pos as int + 8);
        assert(sub[0] == b@[pos as int]);
        assert(sub[1] == b@[pos as int + 1]);
        assert(sub[2] == b@[pos as int + 2]);
        assert(sub[3] == b@[pos as int + 3]);
        assert(sub[4] == b@[pos as int + 4]);
        assert(sub[5] == b@[pos as int + 5]);
        assert(sub[6] == b@[pos as int + 6]);
        assert(sub[7] == b@[pos as int + 7]);
    }
    r
}

/// Append the little-endian bytes of every value of `s`.
pub fn push_all_le(out: &mut Vec<u8>, s: &Vec<u64>)
    ensures
        final(out)@ == old(out)@ + flat_le(s@),
{
    let mut i: usize = 0;
    while i < s.len()
        invariant
            0 <= i <= s@.len(),
            out@ == old(out)@ + flat_le(s@.take(i as int)),
        decreases s@.len() - i,
    {
        push_u64_le(out, s[i]);
        proof {
            assert(s@.take(i + 1).drop_last() =~= s@.take(i as int));
            assert(s@.take(i + 1).last() == s@[i as int]);
            assert(out@ =~= old(out)@ + flat_le(s@.take(i + 1)));
        }
        i = i + 1;
    }
    proof {
        assert(s@.take(s@.len() as int) =~= s@);
    }
}

/// Read `n` field values stored back to back at byte offset `pos`.
pub fn read_all_le(b: &Vec<u8>, pos: usize, n: usize) -> (r: Vec<u64>)
    requires
        pos + 8 * n <= b@.len(),
    ensures
        r@.len() == n,
        forall|i: int|
            0 <= i < n ==> r@[i] == u64_from_le(
                b@.subrange(pos + 8 * i, pos + 8 * i + 8),
            ),
{
    let len: usize = b.len();
    let mut r: Vec<u64> = Vec::new();
    let mut i: usize = 0;
    while i < n
        invariant
            b@.len() <= usize::MAX,
            pos + 8 * n <= b@.len(),
            0 <= i <= n,
            r@.len() == i,
            forall|t: int|
                0 <= t < i ==> r@[t] == u64_from_le(
                    b@.subrange(pos + 8 * t, pos + 8 * t + 8),
                ),
        decreases n - i,
    {
        let v = read_u64_le(b, pos + 8 * i);
        r.push(v);
        i = i + 1;
    }
    r
}

/// The bytes of `b` from `start` on.
pub fn tail_from(b: &Vec<u8>, start: usize) -> (r: Vec<u8>)
    requires
        start <= b@.len(),
    ensures
        r@ == b@.subrange(start as int, b@.len() as int),
{
    let mut r: Vec<u8> = Vec::new();
    let mut i: usize = start;
    while i < b.len()
        invariant
            start <= i <= b@.len(),
            r@ =~= b@.subrange(start as int, i as int),
        decreases b@.len() - i,
    {
        r.push(b[i]);
        proof {
            assert(r@ =~= b@.subrange(start as int, i + 1));
        }
        i = i + 1;
    }
    r
}

} // verus!
