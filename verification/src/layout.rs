//! Public-input layouts.
//!
//! Each sub-proof exposes its statement as a fixed-order run of field
//! values, and the revelation proof exposes its own statement the same way:
//! the sorted packed keys, the occupancy, the claimed block range, the
//! imported database-side root and range data, then the imported query-side
//! address and digest data. Downstream wrapping depends on this exact order.

use vstd::prelude::*;

use crate::digest::{digest, digest_of, DIGEST_WIDTH};
use crate::field::all_canonical;
use crate::keys::{entries_wf, views};

verus! {

/// Number of public inputs of a database-side proof: two four-limb roots,
/// the first and the last attested block number.
pub const DB_NUM_IO: usize = 10;

/// Number of public inputs of a query-side proof: maximum block number,
/// range, a four-limb root, a five-limb contract address, an eight-limb user
/// address, a four-limb digest.
pub const QUERY_NUM_IO: usize = 23;

/// Root of the database before the first attested block.
pub open spec fn db_init_root(d: Seq<u64>) -> Seq<u64> {
    d.subrange(0, 4)
}

/// Root of the database after the last attested block.
pub open spec fn db_last_root(d: Seq<u64>) -> Seq<u64> {
    d.subrange(4, 8)
}

/// First block number attested by the database side.
pub open spec fn db_init_block(d: Seq<u64>) -> u64 {
    d[8]
}

/// Last block number attested by the database side.
pub open spec fn db_last_block(d: Seq<u64>) -> u64 {
    d[9]
}

/// Maximum block number claimed by the query side.
pub open spec fn query_max_block(q: Seq<u64>) -> u64 {
    q[0]
}

/// Width of the block range claimed by the query side.
pub open spec fn query_range(q: Seq<u64>) -> u64 {
    q[1]
}

/// Root the query side claims its statement is anchored to.
pub open spec fn query_root(q: Seq<u64>) -> Seq<u64> {
    q.subrange(2, 6)
}

/// Packed contract address the query side speaks of.
pub open spec fn query_smc_address(q: Seq<u64>) -> Seq<u64> {
    q.subrange(6, 11)
}

/// Packed user address the query side speaks of.
pub open spec fn query_user_address(q: Seq<u64>) -> Seq<u64> {
    q.subrange(11, 19)
}

/// Digest of the matching records the query side commits to.
pub open spec fn query_digest(q: Seq<u64>) -> Seq<u64> {
    q.subrange(19, 23)
}

/// The packed limbs of one key, as field values.
pub open spec fn limbs_u64(k: Seq<u32>) -> Seq<u64> {
    Seq::new(k.len(), |i: int| k[i] as u64)
}

/// The limbs of a key array, flattened in order.
pub open spec fn flat_keys(entries: Seq<Seq<u32>>) -> Seq<u64>
    decreases entries.len(),
{
    if entries.len() == 0 {
        Seq::<u64>::empty()
    } else {
        flat_keys(entries.drop_last()) + limbs_u64(entries.last())
    }
}

/// A flattened key array has eight limbs per key, all canonical.
pub proof fn lemma_flat_keys_shape(entries: Seq<Seq<u32>>)
    requires
        entries_wf(entries),
    ensures
        flat_keys(entries).len() == 8 * entries.len(),
        all_canonical(flat_keys(entries)),
    decreases entries.len(),
{
    if entries.len() > 0 {
        assert(entries_wf(entries.drop_last()));
        lemma_flat_keys_shape(entries.drop_last());
        assert(limbs_u64(entries.last()).len() == 8);
    }
}

/// The digest this layer recomputes from the revealed keys: the flattened
/// canonical array followed by the occupancy count.
pub open spec fn spec_keys_digest(entries: Seq<Seq<u32>>, occupancy: u64) -> Seq<u64> {
    digest_of(flat_keys(entries).push(occupancy))
}

/// Flatten a packed key array into field values.
pub fn flatten_keys(keys: &Vec<Vec<u32>>) -> (r: Vec<u64>)
    requires
        entries_wf(views(keys@)),
    ensures
        r@ == flat_keys(views(keys@)),
        all_canonical(r@),
        r@.len() == 8 * keys@.len(),
{
    let ghost ks = views(keys@);
    let mut r: Vec<u64> = Vec::new();
    let mut i: usize = 0;
    while i < keys.len()
        invariant
            ks == views(keys@),
            entries_wf(ks),
            0 <= i <= ks.len(),
            r@ == flat_keys(ks.take(i as int)),
        decreases ks.len() - i,
    {
        let k: &Vec<u32> = &keys[i];
        proof {
            assert(ks[i as int] == keys@[i as int]@);
        }
        let mut j: usize = 0;
        while j < k.len()
            invariant
                ks == views(keys@),
                0 <= i < ks.len(),
                k@ == ks[i as int],
                0 <= j <= k@.len(),
                r@ == flat_keys(ks.take(i as int)) + limbs_u64(k@).take(j as int),
            decreases k@.len() - j,
        {
            r.push(k[j] as u64);
            proof {
                assert(limbs_u64(k@).take(j + 1) =~= limbs_u64(k@).take(j as int).push(
                    k@[j as int] as u64,
                ));
                assert(r@ =~= flat_keys(ks.take(i as int)) + limbs_u64(k@).take(j + 1));
            }
            j = j + 1;
        }
        proof {
            assert(limbs_u64(k@).take(k@.len() as int) =~= limbs_u64(k@));
            assert(ks.take(i + 1).drop_last() =~= ks.take(i as int));
            assert(ks.take(i + 1).last() == ks[i as int]);
            assert(r@ =~= flat_keys(ks.take(i + 1)));
        }
        i = i + 1;
    }
    proof {
        assert(ks.take(ks.len() as int) =~= ks);
        lemma_flat_keys_shape(ks);
    }
    r
}

/// The digest recomputed from the revealed keys and the occupancy count.
pub fn keys_digest(packed_keys: &Vec<Vec<u32>>, occupancy: u64) -> (r: Vec<u64>)
    requires
        entries_wf(views(packed_keys@)),
    ensures
        r@ == spec_keys_digest(views(packed_keys@), occupancy),
        r@.len() == DIGEST_WIDTH,
        all_canonical(r@),
{
    let mut flat = flatten_keys(packed_keys);
    flat.push(occupancy);
    digest(&flat)
}

/// The public-input layout of a revelation proof: the packed keys, the
/// occupancy, the claimed block range, the database side's roots and block
/// numbers, then the query side's addresses and digest.
pub open spec fn spec_layout(
    entries: Seq<Seq<u32>>,
    occupancy: u64,
    min_block: u64,
    max_block: u64,
    db_pis: Seq<u64>,
    q_pis: Seq<u64>,
) -> Seq<u64> {
    flat_keys(entries) + seq![occupancy, min_block, max_block] + db_pis + q_pis.subrange(6, 23)
}

/// Index of the occupancy slot in the layout of a capacity-`l` circuit.
pub open spec fn occupancy_slot(l: int) -> int {
    8 * l
}

/// The layout of a capacity-`l` statement has `8 * l + 30` slots.
pub proof fn lemma_layout_len(
    entries: Seq<Seq<u32>>,
    occupancy: u64,
    min_block: u64,
    max_block: u64,
    db_pis: Seq<u64>,
    q_pis: Seq<u64>,
)
    requires
        entries_wf(entries),
        db_pis.len() == DB_NUM_IO,
        q_pis.len() == QUERY_NUM_IO,
    ensures
        spec_layout(entries, occupancy, min_block, max_block, db_pis, q_pis).len() == 8
            * entries.len() + 30,
        spec_layout(entries, occupancy, min_block, max_block, db_pis, q_pis)[occupancy_slot(
            entries.len() as int,
        )] == occupancy,
{
    lemma_flat_keys_shape(entries);
}

/// Assemble the layout of a revelation statement.
pub fn assemble_layout(
    packed_keys: &Vec<Vec<u32>>,
    occupancy: u64,
    min_block: u64,
    max_block: u64,
    db_pis: &Vec<u64>,
    q_pis: &Vec<u64>,
) -> (r: Vec<u64>)
    requires
        entries_wf(views(packed_keys@)),
        q_pis@.len() == QUERY_NUM_IO,
    ensures
        r@ == spec_layout(
            views(packed_keys@),
            occupancy,
            min_block,
            max_block,
            db_pis@,
            q_pis@,
        ),
{
    let mut r = flatten_keys(packed_keys);
    r.push(occupancy);
    r.push(min_block);
    r.push(max_block);
    let mut i: usize = 0;
    while i < db_pis.len()
        invariant
            0 <= i <= db_pis@.len(),
            r@ =~= flat_keys(views(packed_keys@)) + seq![occupancy, min_block, max_block]
                + db_pis@.take(i as int),
        decreases db_pis@.len() - i,
    {
        r.push(db_pis[i]);
        proof {
            assert(db_pis@.take(i + 1) =~= db_pis@.take(i as int).push(db_pis@[i as int]));
        }
        i = i + 1;
    }
    proof {
        assert(db_pis@.take(db_pis@.len() as int) =~= db_pis@);
    }
    let mut j: usize = 6;
    while j < QUERY_NUM_IO
        invariant
            6 <= j <= 23,
            q_pis@.len() == QUERY_NUM_IO,
            r@ =~= flat_keys(views(packed_keys@)) + seq![occupancy, min_block, max_block] + db_pis@
                + q_pis@.subrange(6, j as int),
        decreases QUERY_NUM_IO - j,
    {
        r.push(q_pis[j]);
        proof {
            assert(q_pis@.subrange(6, j + 1) =~= q_pis@.subrange(6, j as int).push(
                q_pis@[j as int],
            ));
        }
        j = j + 1;
    }
    proof {
        assert(r@ =~= spec_layout(
            views(packed_keys@),
            occupancy,
            min_block,
            max_block,
            db_pis@,
            q_pis@,
        ));
    }
    r
}

/// Read the occupancy slot out of a capacity-`l` public-input run.
pub fn read_occupancy(pis: &Vec<u64>, l: usize) -> (r: u64)
    requires
        8 * l < pis@.len(),
    ensures
        r == pis@[occupancy_slot(l as int)],
{
    let len: usize = pis.len();
    pis[8 * l]
}

} // verus!
