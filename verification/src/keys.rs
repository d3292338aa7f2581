//! Canonical key set builder.
//!
//! Raw mapping keys are variable-length byte identifiers. The builder
//! left-pads each key to the protocol width, packs it into field-sized limbs,
//! orders the packed keys ascending by the numeric value of their final limb,
//! and zero-fills the positions past the last occupied one. Two keys that
//! share their final limb are merged: the later one overwrites the earlier,
//! which keeps the in-circuit sorting cost low and is a documented
//! approximation of full-key ordering.

use vstd::prelude::*;

use crate::error::RevelationError;

verus! {

/// Width in bytes of a canonical mapping key.
pub const MAPPING_KEY_LEN: usize = 32;

/// Number of 32-bit limbs in a packed mapping key.
pub const PACKED_MAPPING_KEY_LEN: usize = 8;

/// The sequence of views of a vector of vectors.
pub open spec fn views<T>(s: Seq<Vec<T>>) -> Seq<Seq<T>> {
    Seq::new(s.len(), |i: int| s[i]@)
}

/// A raw mapping key no wider than the protocol width.
pub open spec fn raw_key_wf(key: Seq<u8>) -> bool {
    key.len() <= MAPPING_KEY_LEN
}

/// A packed key: exactly `PACKED_MAPPING_KEY_LEN` limbs.
pub open spec fn key_wf(k: Seq<u32>) -> bool {
    k.len() == PACKED_MAPPING_KEY_LEN
}

/// The limb by which packed keys are ordered: their final one.
pub open spec fn sort_limb(k: Seq<u32>) -> u32
    recommends
        key_wf(k),
{
    k[7]
}

/// A key left-padded with zero bytes to the protocol width.
pub open spec fn spec_left_pad32(key: Seq<u8>) -> Seq<u8>
    recommends
        raw_key_wf(key),
{
    Seq::new(32, |i: int| if i < 32 - key.len() { 0u8 } else { key[i - (32 - key.len())] })
}

/// 32 bytes packed big-endian into 8 limbs of 4 bytes each.
pub open spec fn spec_pack32(b: Seq<u8>) -> Seq<u32>
    recommends
        b.len() == 32,
{
    Seq::new(8, |i: int|
        ((b[4 * i] as u32) * 0x100_0000
        + (b[4 * i + 1] as u32) * 0x1_0000
        + (b[4 * i + 2] as u32) * 0x100
        + (b[4 * i + 3] as u32)) as u32)
}

/// The packed form of a raw key: pad to width, then pack.
pub open spec fn spec_packed_key(key: Seq<u8>) -> Seq<u32>
    recommends
        raw_key_wf(key),
{
    spec_pack32(spec_left_pad32(key))
}

/// The all-zero packed key that fills unoccupied positions.
pub open spec fn zero_key() -> Seq<u32> {
    Seq::new(8, |i: int| 0u32)
}

/// Every entry is a packed key.
pub open spec fn entries_wf(s: Seq<Seq<u32>>) -> bool {
    forall|i: int| 0 <= i < s.len() ==> key_wf(#[trigger] s[i])
}

/// Entries strictly ascend by their final limb.
pub open spec fn entries_sorted(s: Seq<Seq<u32>>) -> bool {
    forall|i: int, j: int|
        0 <= i < j < s.len() ==> #[trigger] sort_limb(s[i]) < #[trigger] sort_limb(s[j])
}

/// Insert a packed key into a list ordered by final limb; an entry with the
/// same final limb is overwritten.
pub open spec fn spec_insert_key(s: Seq<Seq<u32>>, k: Seq<u32>) -> Seq<Seq<u32>>
    decreases s.len(),
{
    if s.len() == 0 {
        seq![k]
    } else if sort_limb(s[0]) < sort_limb(k) {
        seq![s[0]] + spec_insert_key(s.drop_first(), k)
    } else if sort_limb(s[0]) == sort_limb(k) {
        seq![k] + s.drop_first()
    } else {
        seq![k] + s
    }
}

/// The ordered, deduplicated entries of a raw key list, processed in input
/// order so that a later key overwrites an earlier one with the same final
/// limb.
pub open spec fn spec_canonical_entries(keys: Seq<Seq<u8>>) -> Seq<Seq<u32>>
    decreases keys.len(),
{
    if keys.len() == 0 {
        Seq::<Seq<u32>>::empty()
    } else {
        spec_insert_key(spec_canonical_entries(keys.drop_last()), spec_packed_key(keys.last()))
    }
}

/// The canonical array of capacity `l`: ordered entries, zero-filled past the
/// last occupied position.
pub open spec fn spec_canonical_array(keys: Seq<Seq<u8>>, l: int) -> Seq<Seq<u32>>
    recommends
        spec_canonical_entries(keys).len() <= l,
{
    spec_canonical_entries(keys) + Seq::new((l - spec_canonical_entries(keys).len()) as nat, |i: int| zero_key())
}

/// The validation verdict of the builder: a key wider than the protocol
/// width, then a key count above the capacity.
pub open spec fn spec_build_error(keys: Seq<Seq<u8>>, l: int) -> Option<RevelationError> {
    if exists|i: int| 0 <= i < keys.len() && !raw_key_wf(#[trigger] keys[i]) {
        Some(RevelationError::KeyTooLong)
    } else if keys.len() > l {
        Some(RevelationError::TooManyKeys)
    } else {
        None
    }
}

/// Inserting keeps every entry a packed key.
proof fn lemma_insert_wf(s: Seq<Seq<u32>>, k: Seq<u32>)
    requires
        entries_wf(s),
        key_wf(k),
    ensures
        entries_wf(spec_insert_key(s, k)),
        s.len() <= spec_insert_key(s, k).len() <= s.len() + 1,
    decreases s.len(),
{
    if s.len() == 0 {
    } else if sort_limb(s[0]) < sort_limb(k) {
        assert(entries_wf(s.drop_first()));
        lemma_insert_wf(s.drop_first(), k);
    } else {
    }
}

/// Everything in an insertion result has a final limb no below the smaller of
/// the head's and the new key's.
proof fn lemma_insert_lower_bound(s: Seq<Seq<u32>>, k: Seq<u32>, bound: u32)
    requires
        entries_sorted(s),
        forall|i: int| 0 <= i < s.len() ==> bound <= #[trigger] sort_limb(s[i]),
        bound <= sort_limb(k),
    ensures
        forall|i: int|
            0 <= i < spec_insert_key(s, k).len() ==> bound <= #[trigger] sort_limb(
                spec_insert_key(s, k)[i],
            ),
    decreases s.len(),
{
    if s.len() == 0 {
    } else if sort_limb(s[0]) < sort_limb(k) {
        assert(entries_sorted(s.drop_first()));
        lemma_insert_lower_bound(s.drop_first(), k, bound);
        assert forall|i: int| 0 <= i < spec_insert_key(s, k).len() implies bound <= #[trigger] sort_limb(
            spec_insert_key(s, k)[i],
        ) by {
            if i > 0 {
                assert(spec_insert_key(s, k)[i] == spec_insert_key(s.drop_first(), k)[i - 1]);
            }
        }
    } else {
    }
}

/// Inserting preserves strict order by final limb.
proof fn lemma_insert_sorted(s: Seq<Seq<u32>>, k: Seq<u32>)
    requires
        entries_sorted(s),
    ensures
        entries_sorted(spec_insert_key(s, k)),
    decreases s.len(),
{
    if s.len() == 0 {
    } else if sort_limb(s[0]) < sort_limb(k) {
        assert(entries_sorted(s.drop_first()));
        lemma_insert_sorted(s.drop_first(), k);
        let t = spec_insert_key(s.drop_first(), k);
        lemma_insert_lower_bound(s.drop_first(), k, (sort_limb(s[0]) + 1) as u32);
        let r = spec_insert_key(s, k);
        assert forall|i: int, j: int| 0 <= i < j < r.len() implies #[trigger] sort_limb(r[i])
            < #[trigger] sort_limb(r[j]) by {
            if i == 0 {
                assert(r[j] == t[j - 1]);
            } else {
                assert(r[i] == t[i - 1]);
                assert(r[j] == t[j - 1]);
            }
        }
    } else if sort_limb(s[0]) == sort_limb(k) {
        let r = seq![k] + s.drop_first();
        assert forall|i: int, j: int| 0 <= i < j < r.len() implies #[trigger] sort_limb(r[i])
            < #[trigger] sort_limb(r[j]) by {
            if i == 0 {
                assert(r[j] == s[j]);
                assert(sort_limb(s[0]) < sort_limb(s[j]));
            } else {
                assert(r[i] == s[i]);
                assert(r[j] == s[j]);
            }
        }
    } else {
        let r = seq![k] + s;
        assert forall|i: int, j: int| 0 <= i < j < r.len() implies #[trigger] sort_limb(r[i])
            < #[trigger] sort_limb(r[j]) by {
            if i == 0 {
                assert(r[j] == s[j - 1]);
                if j > 1 {
                    assert(sort_limb(s[0]) < sort_limb(s[j - 1]));
                }
            } else {
                assert(r[i] == s[i - 1]);
                assert(r[j] == s[j - 1]);
            }
        }
    }
}

/// The canonical entries are strictly ordered, well formed, and no more
/// numerous than the raw keys.
pub proof fn lemma_canonical_entries_shape(keys: Seq<Seq<u8>>)
    requires
        forall|i: int| 0 <= i < keys.len() ==> raw_key_wf(#[trigger] keys[i]),
    ensures
        entries_sorted(spec_canonical_entries(keys)),
        entries_wf(spec_canonical_entries(keys)),
        spec_canonical_entries(keys).len() <= keys.len(),
    decreases keys.len(),
{
    if keys.len() == 0 {
    } else {
        assert(forall|i: int|
            0 <= i < keys.drop_last().len() ==> raw_key_wf(#[trigger] keys.drop_last()[i]));
        lemma_canonical_entries_shape(keys.drop_last());
        lemma_insert_sorted(spec_canonical_entries(keys.drop_last()), spec_packed_key(keys.last()));
        lemma_insert_wf(spec_canonical_entries(keys.drop_last()), spec_packed_key(keys.last()));
    }
}

/// Inserting a key whose final limb exceeds every present one appends it.
proof fn lemma_insert_greater(s: Seq<Seq<u32>>, k: Seq<u32>)
    requires
        forall|i: int| 0 <= i < s.len() ==> #[trigger] sort_limb(s[i]) < sort_limb(k),
    ensures
        spec_insert_key(s, k) == s.push(k),
    decreases s.len(),
{
    if s.len() == 0 {
        assert(spec_insert_key(s, k) =~= s.push(k));
    } else {
        assert(forall|i: int|
            0 <= i < s.drop_first().len() ==> #[trigger] sort_limb(s.drop_first()[i])
                < sort_limb(k));
        lemma_insert_greater(s.drop_first(), k);
        assert(spec_insert_key(s, k) =~= s.push(k));
    }
}

/// Packing and sorting is idempotent on an already-canonical key list: when
/// the packed keys already ascend strictly by final limb, the builder returns
/// exactly those packed keys, in order.
pub proof fn lemma_canonical_build_idempotent(keys: Seq<Seq<u8>>)
    requires
        forall|i: int| 0 <= i < keys.len() ==> raw_key_wf(#[trigger] keys[i]),
        forall|i: int, j: int|
            0 <= i < j < keys.len() ==> #[trigger] sort_limb(spec_packed_key(keys[i]))
                < #[trigger] sort_limb(spec_packed_key(keys[j])),
    ensures
        spec_canonical_entries(keys) == keys.map_values(|k: Seq<u8>| spec_packed_key(k)),
    decreases keys.len(),
{
    let m = keys.map_values(|k: Seq<u8>| spec_packed_key(k));
    if keys.len() == 0 {
        assert(spec_canonical_entries(keys) =~= m);
    } else {
        let front = keys.drop_last();
        assert(forall|i: int| 0 <= i < front.len() ==> raw_key_wf(#[trigger] front[i]));
        assert(forall|i: int, j: int|
            0 <= i < j < front.len() ==> #[trigger] sort_limb(spec_packed_key(front[i]))
                < #[trigger] sort_limb(spec_packed_key(front[j])));
        lemma_canonical_build_idempotent(front);
        let fm = front.map_values(|k: Seq<u8>| spec_packed_key(k));
        assert forall|i: int| 0 <= i < fm.len() implies #[trigger] sort_limb(fm[i]) < sort_limb(
            spec_packed_key(keys.last()),
        ) by {
            assert(fm[i] == spec_packed_key(keys[i]));
        }
        lemma_insert_greater(fm, spec_packed_key(keys.last()));
        assert(spec_canonical_entries(keys) =~= m);
    }
}


/// One byte of a packed limb, big-endian: byte `r` of four.
pub open spec fn spec_unpack_byte(limb: u32, r: int) -> u8 {
    if r == 0 {
        (limb >> 24) as u8
    } else if r == 1 {
        (limb >> 16) as u8
    } else if r == 2 {
        (limb >> 8) as u8
    } else {
        limb as u8
    }
}

/// The 32 bytes a packed key stands for.
pub open spec fn spec_unpack(k: Seq<u32>) -> Seq<u8>
    recommends
        key_wf(k),
{
    Seq::new(32, |i: int| spec_unpack_byte(k[i / 4], i % 4))
}

/// Unpacking a packed key and packing it again returns the same key.
pub proof fn lemma_pack_unpack(k: Seq<u32>)
    requires
        key_wf(k),
    ensures
        raw_key_wf(spec_unpack(k)),
        spec_packed_key(spec_unpack(k)) == k,
{
    let b = spec_unpack(k);
    assert(spec_left_pad32(b) =~= b);
    let p = spec_pack32(b);
    assert forall|i: int| 0 <= i < 8 implies p[i] == k[i] by {
        assert((4 * i) / 4 == i && (4 * i) % 4 == 0) by (nonlinear_arith)
            requires 0 <= i
        ;
        assert((4 * i + 1) / 4 == i && (4 * i + 1) % 4 == 1) by (nonlinear_arith)
            requires 0 <= i
        ;
        assert((4 * i + 2) / 4 == i && (4 * i + 2) % 4 == 2) by (nonlinear_arith)
            requires 0 <= i
        ;
        assert((4 * i + 3) / 4 == i && (4 * i + 3) % 4 == 3) by (nonlinear_arith)
            requires 0 <= i
        ;
        assert(b[4 * i] == spec_unpack_byte(k[i], 0));
        assert(b[4 * i + 1] == spec_unpack_byte(k[i], 1));
        assert(b[4 * i + 2] == spec_unpack_byte(k[i], 2));
        assert(b[4 * i + 3] == spec_unpack_byte(k[i], 3));
        let limb = k[i];
        assert(((limb >> 24) as u8 as u32) * 0x100_0000 + ((limb >> 16) as u8 as u32) * 0x1_0000
            + ((limb >> 8) as u8 as u32) * 0x100 + (limb as u8 as u32) == limb) by (bit_vector);
    }
    assert(p =~= k);
}

/// Packing and sorting is idempotent on an already-canonical key set: the
/// occupied entries of the builder, unpacked into raw keys and fed through
/// the builder again, come back unchanged.
pub proof fn lemma_canonical_entries_idempotent(keys: Seq<Seq<u8>>)
    requires
        forall|i: int| 0 <= i < keys.len() ==> raw_key_wf(#[trigger] keys[i]),
    ensures
        spec_canonical_entries(
            spec_canonical_entries(keys).map_values(|k: Seq<u32>| spec_unpack(k)),
        ) == spec_canonical_entries(keys),
{
    let arr = spec_canonical_entries(keys);
    lemma_canonical_entries_shape(keys);
    let unpacked = arr.map_values(|k: Seq<u32>| spec_unpack(k));
    assert forall|i: int| 0 <= i < unpacked.len() implies raw_key_wf(#[trigger] unpacked[i]) by {
        assert(unpacked[i] == spec_unpack(arr[i]));
        lemma_pack_unpack(arr[i]);
    }
    assert forall|i: int, j: int|
        0 <= i < j < unpacked.len() implies #[trigger] sort_limb(spec_packed_key(unpacked[i]))
        < #[trigger] sort_limb(spec_packed_key(unpacked[j])) by {
        assert(unpacked[i] == spec_unpack(arr[i]));
        assert(unpacked[j] == spec_unpack(arr[j]));
        lemma_pack_unpack(arr[i]);
        lemma_pack_unpack(arr[j]);
        assert(sort_limb(arr[i]) < sort_limb(arr[j]));
    }
    lemma_canonical_build_idempotent(unpacked);
    let m = unpacked.map_values(|k: Seq<u8>| spec_packed_key(k));
    assert forall|i: int| 0 <= i < m.len() implies #[trigger] m[i] == arr[i] by {
        assert(m[i] == spec_packed_key(unpacked[i]));
        assert(unpacked[i] == spec_unpack(arr[i]));
        lemma_pack_unpack(arr[i]);
    }
    assert(m =~= arr);
}

/// A key left-padded with zero bytes to the protocol width.
pub fn left_pad32(key: &Vec<u8>) -> (r: Vec<u8>)
    requires
        raw_key_wf(key@),
    ensures
        r@ == spec_left_pad32(key@),
{
    let mut r: Vec<u8> = Vec::new();
    let pad: usize = MAPPING_KEY_LEN - key.len();
    let mut i: usize = 0;
    while i < pad
        invariant
            pad == 32 - key@.len(),
            0 <= i <= pad,
            r@ =~= Seq::new(i as nat, |t: int| 0u8),
        decreases pad - i,
    {
        r.push(0u8);
        i = i + 1;
    }
    let mut j: usize = 0;
    while j < key.len()
        invariant
            pad == 32 - key@.len(),
            0 <= j <= key@.len(),
            r@.len() == pad + j,
            forall|t: int| 0 <= t < pad ==> r@[t] == 0u8,
            forall|t: int| 0 <= t < j ==> r@[pad + t] == key@[t],
        decreases key@.len() - j,
    {
        r.push(key[j]);
        j = j + 1;
    }
    proof {
        assert(r@ =~= spec_left_pad32(key@));
    }
    r
}

/// The packed form of a raw key: pad to the protocol width, pack big-endian
/// into 4-byte limbs.
pub fn pack_key(key: &Vec<u8>) -> (r: Vec<u32>)
    requires
        raw_key_wf(key@),
    ensures
        r@ == spec_packed_key(key@),
        key_wf(r@),
{
    let b = left_pad32(key);
    let mut r: Vec<u32> = Vec::new();
    let mut i: usize = 0;
    while i < PACKED_MAPPING_KEY_LEN
        invariant
            b@ == spec_left_pad32(key@),
            b@.len() == 32,
            0 <= i <= 8,
            r@.len() == i,
            forall|t: int| 0 <= t < i ==> r@[t] == spec_pack32(b@)[t],
        decreases PACKED_MAPPING_KEY_LEN - i,
    {
        let limb: u32 = (b[4 * i] as u32) * 0x100_0000 + (b[4 * i + 1] as u32) * 0x1_0000 + (b[4
            * i + 2] as u32) * 0x100 + (b[4 * i + 3] as u32);
        r.push(limb);
        i = i + 1;
    }
    proof {
        assert(r@ =~= spec_pack32(b@));
    }
    r
}

/// A vector holding the all-zero packed key.
pub fn zero_key_vec() -> (r: Vec<u32>)
    ensures
        r@ == zero_key(),
{
    let mut r: Vec<u32> = Vec::new();
    let mut i: usize = 0;
    while i < PACKED_MAPPING_KEY_LEN
        invariant
            0 <= i <= 8,
            r@ =~= Seq::new(i as nat, |t: int| 0u32),
        decreases PACKED_MAPPING_KEY_LEN - i,
    {
        r.push(0u32);
        i = i + 1;
    }
    proof {
        assert(r@ =~= zero_key());
    }
    r
}

/// Position of `k` in the ordered entries: the result of inserting `k` into
/// entries ordered by final limb, expressed by the first position whose final
/// limb reaches `k`'s.
proof fn lemma_insert_key_at(s: Seq<Seq<u32>>, k: Seq<u32>, j: int)
    requires
        entries_sorted(s),
        0 <= j <= s.len(),
        forall|i: int| 0 <= i < j ==> #[trigger] sort_limb(s[i]) < sort_limb(k),
        j < s.len() ==> sort_limb(s[j]) >= sort_limb(k),
    ensures
        spec_insert_key(s, k) == if j < s.len() && sort_limb(s[j]) == sort_limb(k) {
            s.update(j, k)
        } else {
            s.subrange(0, j) + seq![k] + s.subrange(j, s.len() as int)
        },
    decreases s.len(),
{
    if s.len() == 0 {
        assert(spec_insert_key(s, k) =~= s.subrange(0, j) + seq![k] + s.subrange(
            j,
            s.len() as int,
        ));
    } else if j == 0 {
        if sort_limb(s[0]) == sort_limb(k) {
            assert(spec_insert_key(s, k) =~= s.update(0, k));
        } else {
            assert(sort_limb(s[0]) > sort_limb(k));
            assert(spec_insert_key(s, k) =~= s.subrange(0, 0) + seq![k] + s.subrange(
                0,
                s.len() as int,
            ));
        }
    } else {
        let d = s.drop_first();
        assert(entries_sorted(d));
        assert(forall|i: int| 0 <= i < j - 1 ==> #[trigger] sort_limb(d[i]) < sort_limb(k));
        lemma_insert_key_at(d, k, j - 1);
        assert(sort_limb(s[0]) < sort_limb(k));
        if j < s.len() && sort_limb(s[j]) == sort_limb(k) {
            assert(d[j - 1] == s[j]);
            assert(spec_insert_key(s, k) =~= s.update(j, k));
        } else {
            assert(spec_insert_key(s, k) =~= s.subrange(0, j) + seq![k] + s.subrange(
                j,
                s.len() as int,
            ));
        }
    }
}

/// The final limb of entry `j`.
fn limb_at(entries: &Vec<Vec<u32>>, j: usize) -> (r: u32)
    requires
        j < entries@.len(),
        entries_wf(views(entries@)),
    ensures
        r == sort_limb(views(entries@)[j as int]),
{
    proof {
        assert(key_wf(views(entries@)[j as int]));
        assert(views(entries@)[j as int] == entries@[j as int]@);
    }
    let e: &Vec<u32> = &entries[j];
    e[7]
}

/// Insert a packed key into the ordered entries, overwriting an entry with
/// the same final limb.
fn insert_packed_key(entries: &mut Vec<Vec<u32>>, k: Vec<u32>)
    requires
        key_wf(k@),
        entries_wf(views(old(entries)@)),
        entries_sorted(views(old(entries)@)),
    ensures
        views(final(entries)@) == spec_insert_key(views(old(entries)@), k@),
        entries_wf(views(final(entries)@)),
        entries_sorted(views(final(entries)@)),
        old(entries)@.len() <= final(entries)@.len() <= old(entries)@.len() + 1,
{
    let ghost s = views(entries@);
    let k7: u32 = k[7];
    proof {
        assert(k7 == sort_limb(k@));
    }
    let mut j: usize = 0;
    while j < entries.len() && limb_at(entries, j) < k7
        invariant
            s == views(entries@),
            entries_wf(s),
            k@.len() == 8,
            k7 == sort_limb(k@),
            0 <= j <= entries@.len(),
            forall|i: int| 0 <= i < j ==> #[trigger] sort_limb(s[i]) < sort_limb(k@),
        decreases entries@.len() - j,
    {
        j = j + 1;
    }
    proof {
        lemma_insert_sorted(s, k@);
        lemma_insert_wf(s, k@);
    }
    if j < entries.len() && limb_at(entries, j) == k7 {
        proof {
            lemma_insert_key_at(s, k@, j as int);
        }
        entries[j] = k;
        proof {
            assert(views(entries@) =~= s.update(j as int, k@));
        }
    } else {
        proof {
            lemma_insert_key_at(s, k@, j as int);
        }
        entries.insert(j, k);
        proof {
            assert(views(entries@) =~= s.subrange(0, j as int) + seq![k@] + s.subrange(
                j as int,
                s.len() as int,
            ));
        }
    }
}

/// Build the canonical key array of capacity `l` from raw mapping keys: pack,
/// order by final limb (a later key overwriting an earlier one with the same
/// final limb), and zero-fill up to `l`. Fails with a validation error when a
/// key is wider than the protocol width or when more than `l` keys are given.
pub fn canonical_key_array(mapping_keys: &Vec<Vec<u8>>, l: usize) -> (r: Result<
    Vec<Vec<u32>>,
    RevelationError,
>)
    ensures
        match r {
            Ok(arr) => {
                &&& spec_build_error(views(mapping_keys@), l as int) is None
                &&& views(arr@) == spec_canonical_array(views(mapping_keys@), l as int)
                &&& arr@.len() == l
                &&& entries_wf(views(arr@))
            },
            Err(e) => Some(e) == spec_build_error(views(mapping_keys@), l as int),
        },
{
    let ghost ks = views(mapping_keys@);
    let mut v: usize = 0;
    while v < mapping_keys.len()
        invariant
            ks == views(mapping_keys@),
            0 <= v <= ks.len(),
            forall|i: int| 0 <= i < v ==> raw_key_wf(#[trigger] ks[i]),
        decreases ks.len() - v,
    {
        if mapping_keys[v].len() > MAPPING_KEY_LEN {
            proof {
                assert(!raw_key_wf(ks[v as int]));
            }
            return Err(RevelationError::KeyTooLong);
        }
        v = v + 1;
    }
    if mapping_keys.len() > l {
        return Err(RevelationError::TooManyKeys);
    }
    let mut entries: Vec<Vec<u32>> = Vec::new();
    let mut i: usize = 0;
    proof {
        assert(views(entries@) =~= spec_canonical_entries(ks.take(0)));
    }
    while i < mapping_keys.len()
        invariant
            ks == views(mapping_keys@),
            forall|t: int| 0 <= t < ks.len() ==> raw_key_wf(#[trigger] ks[t]),
            ks.len() <= l,
            0 <= i <= ks.len(),
            views(entries@) == spec_canonical_entries(ks.take(i as int)),
            entries_wf(views(entries@)),
            entries_sorted(views(entries@)),
            entries@.len() <= i,
        decreases ks.len() - i,
    {
        proof {
            assert(raw_key_wf(ks[i as int]));
            assert(ks[i as int] == mapping_keys@[i as int]@);
        }
        let packed = pack_key(&mapping_keys[i]);
        insert_packed_key(&mut entries, packed);
        proof {
            assert(ks.take(i + 1).drop_last() =~= ks.take(i as int));
            assert(ks.take(i + 1).last() == ks[i as int]);
        }
        i = i + 1;
    }
    proof {
        assert(ks.take(ks.len() as int) =~= ks);
    }
    let ghost m = entries@.len();
    while entries.len() < l
        invariant
            m == spec_canonical_entries(ks).len(),
            m <= entries@.len() <= l,
            views(entries@) =~= spec_canonical_entries(ks) + Seq::new(
                (entries@.len() - m) as nat,
                |t: int| zero_key(),
            ),
            entries_wf(views(entries@)),
        decreases l - entries@.len(),
    {
        let ghost pre = entries@;
        let z = zero_key_vec();
        entries.push(z);
        proof {
            assert(entries@ == pre.push(z));
            assert(key_wf(z@));
            assert forall|t: int| 0 <= t < entries@.len() implies key_wf(
                #[trigger] views(entries@)[t],
            ) by {
                assert(views(entries@)[t] == entries@[t]@);
                if t < pre.len() {
                    assert(pre.push(z)[t] == pre[t]);
                    assert(views(pre)[t] == pre[t]@);
                } else {
                    assert(pre.push(z)[t] == z);
                }
            }
            assert forall|t: int| 0 <= t < entries@.len() implies #[trigger] views(entries@)[t]
                == (spec_canonical_entries(ks) + Seq::new(
                (entries@.len() - m) as nat,
                |t2: int| zero_key(),
            ))[t] by {
                assert(views(entries@)[t] == entries@[t]@);
                if t < pre.len() {
                    assert(pre.push(z)[t] == pre[t]);
                    assert(views(pre)[t] == pre[t]@);
                    assert(views(pre)[t] == (spec_canonical_entries(ks) + Seq::new(
                        (pre.len() - m) as nat,
                        |t2: int| zero_key(),
                    ))[t]);
                } else {
                    assert(pre.push(z)[t] == z);
                }
            }
            assert(views(entries@) =~= spec_canonical_entries(ks) + Seq::new(
                (entries@.len() - m) as nat,
                |t: int| zero_key(),
            ));
        }
    }
    proof {
        assert(views(entries@) =~= spec_canonical_array(ks, l as int));
    }
    Ok(entries)
}

} // verus!
