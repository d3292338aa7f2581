//! Parameter and proof orchestration.
//!
//! `Parameters` owns the compiled revelation statement: the capacity, the
//! two circuit sets, the fixed database-side verifying key, and the compiled
//! circuit identity. It is built once per configuration and shared read-only
//! across proof requests. `RevelationRecursiveInput` is the per-request
//! object: the canonicalized keys and block range together with the two
//! deserialized sub-proofs. Proof generation checks, in a fixed order, that
//! the database-side proof names the fixed verifying key, that the
//! query-side key is a member of the known circuit set, that both
//! attestations bind key to public inputs, and that the two statements are
//! mutually consistent: matching digest, matching block range, matching
//! root, and a database fresh up to the queried maximum block. Only then is
//! the public-input layout assembled and the revelation proof emitted.

use vstd::prelude::*;

use crate::digest::{digest, digest_of, lemma_digest_shape, DIGEST_WIDTH};
use crate::error::RevelationError;
use crate::field::{all_canonical, canonical, GOLDILOCKS_ORDER};
use crate::keys::{
    canonical_key_array, entries_wf, raw_key_wf, spec_build_error, spec_canonical_array, views,
};
use crate::layout::{
    assemble_layout, db_last_block, db_last_root, keys_digest, lemma_flat_keys_shape,
    lemma_layout_len, query_digest, query_max_block, query_range, query_root, spec_keys_digest,
    spec_layout, DB_NUM_IO, QUERY_NUM_IO,
};
use crate::proofs::{
    attest, deserialize_proof, lemma_record_roundtrip, serialize_proof, spec_attestation,
    spec_decode_record, spec_decode_subproof, spec_encode_record, ProofFamily, ProofRecord,
    SubProof,
};

verus! {

/// Copy a vector of field values.
fn copy_vec_u64(v: &Vec<u64>) -> (r: Vec<u64>)
    ensures
        r@ == v@,
{
    let mut r: Vec<u64> = Vec::new();
    let mut i: usize = 0;
    while i < v.len()
        invariant
            0 <= i <= v@.len(),
            r@ =~= v@.take(i as int),
        decreases v@.len() - i,
    {
        r.push(v[i]);
        proof {
            assert(r@ =~= v@.take(i + 1));
        }
        i = i + 1;
    }
    proof {
        assert(r@ =~= v@);
    }
    r
}

/// Whether two vectors of field values hold the same run.
fn vec_u64_eq(a: &Vec<u64>, b: &Vec<u64>) -> (r: bool)
    ensures
        r == (a@ == b@),
{
    if a.len() != b.len() {
        return false;
    }
    let mut i: usize = 0;
    while i < a.len()
        invariant
            a@.len() == b@.len(),
            0 <= i <= a@.len(),
            forall|t: int| 0 <= t < i ==> a@[t] == b@[t],
        decreases a@.len() - i,
    {
        if a[i] != b[i] {
            return false;
        }
        i = i + 1;
    }
    proof {
        assert(a@ =~= b@);
    }
    true
}

/// The slots `lo..hi` of a public-input run.
fn subvec(v: &Vec<u64>, lo: usize, hi: usize) -> (r: Vec<u64>)
    requires
        lo <= hi <= v@.len(),
    ensures
        r@ == v@.subrange(lo as int, hi as int),
{
    let mut r: Vec<u64> = Vec::new();
    let mut i: usize = lo;
    while i < hi
        invariant
            lo <= i <= hi <= v@.len(),
            r@ =~= v@.subrange(lo as int, i as int),
        decreases hi - i,
    {
        r.push(v[i]);
        proof {
            assert(r@ =~= v@.subrange(lo as int, i + 1));
        }
        i = i + 1;
    }
    r
}


/// Append every value of `v`.
fn append_vec_u64(out: &mut Vec<u64>, v: &Vec<u64>)
    ensures
        final(out)@ == old(out)@ + v@,
{
    let mut i: usize = 0;
    while i < v.len()
        invariant
            0 <= i <= v@.len(),
            out@ =~= old(out)@ + v@.take(i as int),
        decreases v@.len() - i,
    {
        out.push(v[i]);
        proof {
            assert(out@ =~= old(out)@ + v@.take(i + 1));
        }
        i = i + 1;
    }
    proof {
        assert(out@ =~= old(out)@ + v@);
    }
}

/// Flatten the members of a circuit set, in order.
fn flatten_members(set: &CircuitSet) -> (r: Vec<u64>)
    ensures
        r@ == flat_members(views(set.members@)),
{
    let ghost ms = views(set.members@);
    let mut r: Vec<u64> = Vec::new();
    let mut i: usize = 0;
    while i < set.members.len()
        invariant
            ms == views(set.members@),
            0 <= i <= ms.len(),
            r@ == flat_members(ms.take(i as int)),
        decreases ms.len() - i,
    {
        proof {
            assert(ms[i as int] == set.members@[i as int]@);
        }
        append_vec_u64(&mut r, &set.members[i]);
        proof {
            assert(ms.take(i + 1).drop_last() =~= ms.take(i as int));
            assert(ms.take(i + 1).last() == ms[i as int]);
        }
        i = i + 1;
    }
    proof {
        assert(ms.take(ms.len() as int) =~= ms);
    }
    r
}

/// The flattened members of a circuit set, in order.
pub open spec fn flat_members(s: Seq<Seq<u64>>) -> Seq<u64>
    decreases s.len(),
{
    if s.len() == 0 {
        Seq::<u64>::empty()
    } else {
        flat_members(s.drop_last()) + s.last()
    }
}

/// A closed, immutable registry of known circuit shapes: the verifying-key
/// digests of a finite family.
#[derive(Clone, Debug)]
pub struct CircuitSet {
    /// The verifying-key digests of the member circuits.
    pub members: Vec<Vec<u64>>,
}

impl CircuitSet {
    /// Every member is a digest-wide run of canonical field values.
    pub open spec fn wf(&self) -> bool {
        forall|i: int|
            0 <= i < self.members@.len() ==> (#[trigger] views(self.members@)[i]).len()
                == DIGEST_WIDTH && all_canonical(views(self.members@)[i])
    }

    /// Whether `vk` is a member of the set.
    pub open spec fn spec_contains(&self, vk: Seq<u64>) -> bool {
        exists|i: int|
            0 <= i < self.members@.len() && #[trigger] views(self.members@)[i] == vk
    }

    /// Membership test.
    pub fn contains(&self, vk: &Vec<u64>) -> (r: bool)
        ensures
            r == self.spec_contains(vk@),
    {
        let mut i: usize = 0;
        while i < self.members.len()
            invariant
                0 <= i <= self.members@.len(),
                forall|t: int| 0 <= t < i ==> #[trigger] views(self.members@)[t] != vk@,
            decreases self.members@.len() - i,
        {
            proof {
                assert(views(self.members@)[i as int] == self.members@[i as int]@);
            }
            if vec_u64_eq(&self.members[i], vk) {
                return true;
            }
            i = i + 1;
        }
        false
    }

    /// Copy the registry.
    fn duplicate(&self) -> (r: CircuitSet)
        ensures
            views(r.members@) == views(self.members@),
    {
        let mut members: Vec<Vec<u64>> = Vec::new();
        let mut i: usize = 0;
        while i < self.members.len()
            invariant
                0 <= i <= self.members@.len(),
                members@.len() == i,
                forall|t: int| 0 <= t < i ==> #[trigger] members@[t]@ == self.members@[t]@,
            decreases self.members@.len() - i,
        {
            let ghost pre = members@;
            let m = copy_vec_u64(&self.members[i]);
            members.push(m);
            proof {
                assert forall|t: int| 0 <= t < i + 1 implies #[trigger] members@[t]@
                    == self.members@[t]@ by {
                    if t < pre.len() {
                        assert(members@[t] == pre[t]);
                    } else {
                        assert(members@[t] == m);
                    }
                }
            }
            i = i + 1;
        }
        proof {
            assert forall|t: int| 0 <= t < members@.len() implies #[trigger] views(members@)[t]
                == views(self.members@)[t] by {
                assert(views(members@)[t] == members@[t]@);
                assert(views(self.members@)[t] == self.members@[t]@);
            }
            assert(views(members@) =~= views(self.members@));
        }
        CircuitSet { members }
    }
}

/// The identity of the compiled revelation circuit: how many public inputs
/// its statement exposes, and the digest that proofs are bound to.
#[derive(Clone, Debug)]
pub struct CircuitData {
    /// Number of slots in the public-input layout.
    pub num_public_inputs: usize,
    /// Digest of the compiled configuration.
    pub circuit_digest: Vec<u64>,
}

impl CircuitData {
    /// A digest-wide, canonical circuit digest.
    pub open spec fn wf(&self) -> bool {
        &&& self.circuit_digest@.len() == DIGEST_WIDTH
        &&& all_canonical(self.circuit_digest@)
    }
}

/// The verifier's share of the compiled circuit: enough to check a
/// revelation proof without the proving data.
#[derive(Clone, Debug)]
pub struct VerifierCircuitData {
    /// Number of slots in the public-input layout.
    pub num_public_inputs: usize,
    /// Digest of the compiled configuration.
    pub circuit_digest: Vec<u64>,
}

/// The digest identifying a compiled configuration: capacity, fixed
/// database-side verifying key, the query-side circuit set, then the
/// database-side circuit set.
pub open spec fn spec_circuit_digest(
    l: int,
    db_vk: Seq<u64>,
    q_set: Seq<Seq<u64>>,
    d_set: Seq<Seq<u64>>,
) -> Seq<u64> {
    digest_of(seq![l as u64] + db_vk + flat_members(q_set) + flat_members(d_set))
}

/// The values a revelation circuit takes beyond the imported sub-proofs:
/// the canonical key array, the occupancy, and the claimed block range.
#[derive(Clone, Debug)]
pub struct RevelationCircuitInput {
    /// The canonical key array: packed keys ordered by final limb,
    /// zero-filled past the occupied prefix.
    pub packed_keys: Vec<Vec<u32>>,
    /// How many raw keys the request revealed.
    pub num_entries: u64,
    /// Smallest block number of the queried range.
    pub query_min_block_number: u64,
    /// Largest block number of the queried range.
    pub query_max_block_number: u64,
}

impl RevelationCircuitInput {
    /// Structural validity: packed keys, a bounded count, canonical block
    /// numbers.
    pub open spec fn wf(&self) -> bool {
        &&& entries_wf(views(self.packed_keys@))
        &&& self.num_entries <= self.packed_keys@.len()
        &&& canonical(self.query_min_block_number)
        &&& canonical(self.query_max_block_number)
    }
}

/// One proof request: the circuit inputs and the two sub-proofs to verify
/// and bind.
#[derive(Clone, Debug)]
pub struct RevelationRecursiveInput {
    /// The values of the revelation statement itself.
    pub logic_inputs: RevelationCircuitInput,
    /// The query-aggregation sub-proof, with its verifying key.
    pub query_proof: SubProof,
    /// The block-database sub-proof, with its verifying key.
    pub database_proof: SubProof,
}

impl RevelationRecursiveInput {
    /// Structural validity: both sub-proofs carry the expected family tag
    /// and public-input width.
    pub open spec fn wf(&self) -> bool {
        &&& self.logic_inputs.wf()
        &&& self.query_proof.wf()
        &&& self.query_proof.family == ProofFamily::QueryAggregation
        &&& self.query_proof.record.public_inputs@.len() == QUERY_NUM_IO
        &&& self.database_proof.wf()
        &&& self.database_proof.family == ProofFamily::BlockDatabase
        &&& self.database_proof.record.public_inputs@.len() == DB_NUM_IO
    }
}

/// The verdict of assembling a request: the first failing validation or
/// deserialization check, in the order the assembler runs them.
pub open spec fn spec_new_error(
    mapping_keys: Seq<Seq<u8>>,
    query_min_block: int,
    query_max_block: int,
    query_proof_bytes: Seq<u8>,
    database_proof_bytes: Seq<u8>,
    l: int,
) -> Option<RevelationError> {
    if spec_build_error(mapping_keys, l) is Some {
        spec_build_error(mapping_keys, l)
    } else {
        match spec_decode_subproof(query_proof_bytes) {
            Option::None => Some(RevelationError::MalformedProofBytes),
            Option::Some((qf, qvk, qpis, qatt)) => {
                if qf != ProofFamily::QueryAggregation {
                    Some(RevelationError::WrongFamily)
                } else if qpis.len() != QUERY_NUM_IO {
                    Some(RevelationError::MalformedProofBytes)
                } else {
                    match spec_decode_subproof(database_proof_bytes) {
                        Option::None => Some(RevelationError::MalformedProofBytes),
                        Option::Some((df, dvk, dpis, datt)) => {
                            if df != ProofFamily::BlockDatabase {
                                Some(RevelationError::WrongFamily)
                            } else if dpis.len() != DB_NUM_IO {
                                Some(RevelationError::MalformedProofBytes)
                            } else if !(query_min_block < GOLDILOCKS_ORDER && query_max_block
                                < GOLDILOCKS_ORDER) {
                                Some(RevelationError::BlockNumberOutOfRange)
                            } else {
                                None
                            }
                        },
                    }
                }
            },
        }
    }
}

impl RevelationRecursiveInput {
    /// Assemble a proof request from wire data: canonicalize the raw keys
    /// into the capacity-`l` array and deserialize the two sub-proof blobs,
    /// failing with a validation error on an oversized key set or key, with
    /// a deserialization error on malformed bytes, and with a family error
    /// on a sub-proof tagged to the other side.
    pub fn new(
        mapping_keys: Vec<Vec<u8>>,
        query_min_block: usize,
        query_max_block: usize,
        query_proof_bytes: Vec<u8>,
        database_proof_bytes: Vec<u8>,
        l: usize,
    ) -> (r: Result<RevelationRecursiveInput, RevelationError>)
        ensures
            match r {
                Ok(inp) => {
                    &&& spec_new_error(
                        views(mapping_keys@),
                        query_min_block as int,
                        query_max_block as int,
                        query_proof_bytes@,
                        database_proof_bytes@,
                        l as int,
                    ) is None
                    &&& inp.wf()
                    &&& inp.logic_inputs.packed_keys@.len() == l
                    &&& views(inp.logic_inputs.packed_keys@) == spec_canonical_array(
                        views(mapping_keys@),
                        l as int,
                    )
                    &&& inp.logic_inputs.num_entries == mapping_keys@.len()
                    &&& inp.logic_inputs.query_min_block_number == query_min_block as u64
                    &&& inp.logic_inputs.query_max_block_number == query_max_block as u64
                    &&& Some(
                        (
                            inp.query_proof.family,
                            inp.query_proof.verifier_key@,
                            inp.query_proof.record.public_inputs@,
                            inp.query_proof.record.attestation@,
                        ),
                    ) == spec_decode_subproof(query_proof_bytes@)
                    &&& Some(
                        (
                            inp.database_proof.family,
                            inp.database_proof.verifier_key@,
                            inp.database_proof.record.public_inputs@,
                            inp.database_proof.record.attestation@,
                        ),
                    ) == spec_decode_subproof(database_proof_bytes@)
                },
                Err(e) => Some(e) == spec_new_error(
                    views(mapping_keys@),
                    query_min_block as int,
                    query_max_block as int,
                    query_proof_bytes@,
                    database_proof_bytes@,
                    l as int,
                ),
            },
    {
        let packed_keys = match canonical_key_array(&mapping_keys, l) {
            Ok(arr) => arr,
            Err(e) => {
                return Err(e);
            },
        };
        let query_proof = match SubProof::deserialize(&query_proof_bytes) {
            Ok(p) => p,
            Err(e) => {
                return Err(e);
            },
        };
        if !matches!(query_proof.family, ProofFamily::QueryAggregation) {
            return Err(RevelationError::WrongFamily);
        }
        if query_proof.record.public_inputs.len() != QUERY_NUM_IO {
            return Err(RevelationError::MalformedProofBytes);
        }
        let database_proof = match SubProof::deserialize(&database_proof_bytes) {
            Ok(p) => p,
            Err(e) => {
                return Err(e);
            },
        };
        if !matches!(database_proof.family, ProofFamily::BlockDatabase) {
            return Err(RevelationError::WrongFamily);
        }
        if database_proof.record.public_inputs.len() != DB_NUM_IO {
            return Err(RevelationError::MalformedProofBytes);
        }
        let min64: u64 = query_min_block as u64;
        let max64: u64 = query_max_block as u64;
        if !(min64 < GOLDILOCKS_ORDER && max64 < GOLDILOCKS_ORDER) {
            return Err(RevelationError::BlockNumberOutOfRange);
        }
        let num_entries: u64 = mapping_keys.len() as u64;
        proof {
            assert(num_entries <= l);
        }
        Ok(
            RevelationRecursiveInput {
                logic_inputs: RevelationCircuitInput {
                    packed_keys,
                    num_entries,
                    query_min_block_number: min64,
                    query_max_block_number: max64,
                },
                query_proof,
                database_proof,
            },
        )
    }
}

/// The compiled, immutable revelation parameters: built once per
/// configuration and shared read-only across proof requests.
#[derive(Clone, Debug)]
pub struct Parameters {
    /// Capacity: how many packed keys the statement reveals.
    pub l: usize,
    /// The set of circuit shapes a query-side proof may come from.
    pub query_circuit_set: CircuitSet,
    /// The set of circuit shapes on the database side.
    pub database_circuit_set: CircuitSet,
    /// The single verifying key a database-side proof must name.
    pub database_verifier_key: Vec<u64>,
    /// The compiled circuit identity.
    pub circuit: CircuitData,
}

impl Parameters {
    /// Structural validity, tying the compiled circuit to the
    /// configuration it was built from.
    pub open spec fn wf(&self) -> bool {
        &&& 8 * self.l + 30 <= usize::MAX
        &&& self.query_circuit_set.wf()
        &&& self.database_circuit_set.wf()
        &&& self.database_verifier_key@.len() == DIGEST_WIDTH
        &&& all_canonical(self.database_verifier_key@)
        &&& self.circuit.wf()
        &&& self.circuit.num_public_inputs == 8 * self.l + 30
        &&& self.circuit.circuit_digest@ == spec_circuit_digest(
            self.l as int,
            self.database_verifier_key@,
            views(self.query_circuit_set.members@),
            views(self.database_circuit_set.members@),
        )
    }

    /// Compile the revelation parameters for capacity `l`: fix the
    /// query-side circuit set, the database-side circuit set, and the one
    /// verifying key database-side proofs must come from.
    pub fn build(
        query_circuit_set: &CircuitSet,
        database_circuit_set: &CircuitSet,
        database_verifier_key: &Vec<u64>,
        l: usize,
    ) -> (r: Parameters)
        requires
            query_circuit_set.wf(),
            database_circuit_set.wf(),
            database_verifier_key@.len() == DIGEST_WIDTH,
            all_canonical(database_verifier_key@),
            8 * l + 30 <= usize::MAX,
        ensures
            r.wf(),
            r.l == l,
            views(r.query_circuit_set.members@) == views(query_circuit_set.members@),
            views(r.database_circuit_set.members@) == views(database_circuit_set.members@),
            r.database_verifier_key@ == database_verifier_key@,
    {
        let qset = query_circuit_set.duplicate();
        let dset = database_circuit_set.duplicate();
        let dvk = copy_vec_u64(database_verifier_key);
        let mut joined: Vec<u64> = Vec::new();
        joined.push(l as u64);
        proof {
            assert(joined@ =~= seq![l as u64]);
        }
        append_vec_u64(&mut joined, &dvk);
        let flat = flatten_members(&qset);
        append_vec_u64(&mut joined, &flat);
        let dflat = flatten_members(&dset);
        append_vec_u64(&mut joined, &dflat);
        proof {
            assert(joined@ == seq![l as u64] + dvk@ + flat_members(views(qset.members@))
                + flat_members(views(dset.members@)));
        }
        let circuit_digest = digest(&joined);
        proof {
            assert(circuit_digest@ == spec_circuit_digest(
                l as int,
                dvk@,
                views(qset.members@),
                views(dset.members@),
            ));
            assert(views(qset.members@).len() == qset.members@.len());
            assert(views(query_circuit_set.members@).len() == query_circuit_set.members@.len());
            assert(qset.members@.len() == query_circuit_set.members@.len());
            assert(views(dset.members@).len() == dset.members@.len());
            assert(views(database_circuit_set.members@).len()
                == database_circuit_set.members@.len());
            assert(dset.members@.len() == database_circuit_set.members@.len());
            assert forall|i: int| 0 <= i < qset.members@.len() implies (#[trigger] views(
                qset.members@,
            )[i]).len() == DIGEST_WIDTH && all_canonical(views(qset.members@)[i]) by {
                assert(views(qset.members@)[i] == views(query_circuit_set.members@)[i]);
            }
            assert forall|i: int| 0 <= i < dset.members@.len() implies (#[trigger] views(
                dset.members@,
            )[i]).len() == DIGEST_WIDTH && all_canonical(views(dset.members@)[i]) by {
                assert(views(dset.members@)[i] == views(database_circuit_set.members@)[i]);
            }
        }
        let circuit = CircuitData { num_public_inputs: 8 * l + 30, circuit_digest };
        Parameters {
            l,
            query_circuit_set: qset,
            database_circuit_set: dset,
            database_verifier_key: dvk,
            circuit,
        }
    }

    /// The compiled circuit identity.
    pub fn circuit_data(&self) -> (r: &CircuitData)
        ensures
            r == &self.circuit,
    {
        &self.circuit
    }

    /// The verifier's share of the compiled circuit.
    pub fn verifier_data(&self) -> (r: VerifierCircuitData)
        ensures
            r.num_public_inputs == self.circuit.num_public_inputs,
            r.circuit_digest@ == self.circuit.circuit_digest@,
    {
        VerifierCircuitData {
            num_public_inputs: self.circuit.num_public_inputs,
            circuit_digest: copy_vec_u64(&self.circuit.circuit_digest),
        }
    }

    /// The claims of a request are mutually consistent and both sub-proofs
    /// are genuine members of their expected families: exactly the
    /// conditions under which proof generation succeeds.
    pub open spec fn spec_consistent(&self, inp: RevelationRecursiveInput) -> bool {
        let q = inp.query_proof.record.public_inputs@;
        let d = inp.database_proof.record.public_inputs@;
        &&& inp.database_proof.verifier_key@ == self.database_verifier_key@
        &&& self.query_circuit_set.spec_contains(inp.query_proof.verifier_key@)
        &&& inp.query_proof.genuine()
        &&& inp.database_proof.genuine()
        &&& query_digest(q) == spec_keys_digest(
            views(inp.logic_inputs.packed_keys@),
            inp.logic_inputs.num_entries,
        )
        &&& query_max_block(q) == inp.logic_inputs.query_max_block_number
        &&& query_range(q) as int == inp.logic_inputs.query_max_block_number as int
            - inp.logic_inputs.query_min_block_number as int + 1
        &&& query_root(q) == db_last_root(d)
        &&& db_last_block(d) >= inp.logic_inputs.query_max_block_number
    }

    /// The verdict of proof generation: the first failing check, in the
    /// order they are run, or `None` when a proof is emitted.
    pub open spec fn spec_generation_error(&self, inp: RevelationRecursiveInput) -> Option<
        RevelationError,
    > {
        let q = inp.query_proof.record.public_inputs@;
        let d = inp.database_proof.record.public_inputs@;
        if inp.database_proof.verifier_key@ != self.database_verifier_key@ {
            Some(RevelationError::WrongDatabaseCircuit)
        } else if !self.query_circuit_set.spec_contains(inp.query_proof.verifier_key@) {
            Some(RevelationError::UnknownQueryCircuit)
        } else if !inp.query_proof.genuine() {
            Some(RevelationError::InvalidAttestation)
        } else if !inp.database_proof.genuine() {
            Some(RevelationError::InvalidAttestation)
        } else if query_digest(q) != spec_keys_digest(
            views(inp.logic_inputs.packed_keys@),
            inp.logic_inputs.num_entries,
        ) {
            Some(RevelationError::DigestMismatch)
        } else if !(query_max_block(q) == inp.logic_inputs.query_max_block_number && query_range(
            q,
        ) as int == inp.logic_inputs.query_max_block_number as int
            - inp.logic_inputs.query_min_block_number as int + 1) {
            Some(RevelationError::BlockRangeMismatch)
        } else if query_root(q) != db_last_root(d) {
            Some(RevelationError::RootMismatch)
        } else if db_last_block(d) < inp.logic_inputs.query_max_block_number {
            Some(RevelationError::StaleDatabase)
        } else {
            None
        }
    }

    /// The public-input layout a successful request exposes.
    pub open spec fn spec_public_inputs(&self, inp: RevelationRecursiveInput) -> Seq<u64> {
        spec_layout(
            views(inp.logic_inputs.packed_keys@),
            inp.logic_inputs.num_entries,
            inp.logic_inputs.query_min_block_number,
            inp.logic_inputs.query_max_block_number,
            inp.database_proof.record.public_inputs@,
            inp.query_proof.record.public_inputs@,
        )
    }

    /// The serialized proof a successful request emits: its public-input
    /// layout, bound to the compiled circuit digest.
    pub open spec fn spec_proof_bytes(&self, inp: RevelationRecursiveInput) -> Seq<u8> {
        spec_encode_record(
            self.spec_public_inputs(inp),
            spec_attestation(self.circuit.circuit_digest@, self.spec_public_inputs(inp)),
        )
    }

    /// Generate a revelation proof: verify both sub-proofs against their
    /// expected families, check that their claims are mutually consistent
    /// with the revealed keys and block range, and emit the serialized
    /// proof over the fixed public-input layout. Atomic: a complete proof,
    /// or the error naming the first failed check.
    pub fn generate_proof(&self, inputs: RevelationRecursiveInput) -> (r: Result<
        Vec<u8>,
        RevelationError,
    >)
        requires
            self.wf(),
            inputs.wf(),
            inputs.logic_inputs.packed_keys@.len() == self.l,
        ensures
            match r {
                Ok(bytes) => {
                    &&& self.spec_generation_error(inputs) is None
                    &&& bytes@ == self.spec_proof_bytes(inputs)
                },
                Err(e) => Some(e) == self.spec_generation_error(inputs),
            },
    {
        if !vec_u64_eq(&inputs.database_proof.verifier_key, &self.database_verifier_key) {
            return Err(RevelationError::WrongDatabaseCircuit);
        }
        if !self.query_circuit_set.contains(&inputs.query_proof.verifier_key) {
            return Err(RevelationError::UnknownQueryCircuit);
        }
        let q_expected = attest(
            &inputs.query_proof.verifier_key,
            &inputs.query_proof.record.public_inputs,
        );
        if !vec_u64_eq(&inputs.query_proof.record.attestation, &q_expected) {
            return Err(RevelationError::InvalidAttestation);
        }
        let d_expected = attest(
            &inputs.database_proof.verifier_key,
            &inputs.database_proof.record.public_inputs,
        );
        if !vec_u64_eq(&inputs.database_proof.record.attestation, &d_expected) {
            return Err(RevelationError::InvalidAttestation);
        }
        let recomputed = keys_digest(
            &inputs.logic_inputs.packed_keys,
            inputs.logic_inputs.num_entries,
        );
        let claimed = subvec(&inputs.query_proof.record.public_inputs, 19, 23);
        if !vec_u64_eq(&claimed, &recomputed) {
            return Err(RevelationError::DigestMismatch);
        }
        let max_block = inputs.logic_inputs.query_max_block_number;
        let min_block = inputs.logic_inputs.query_min_block_number;
        let q0 = *pi_at(&inputs.query_proof.record.public_inputs, 0);
        let q1 = *pi_at(&inputs.query_proof.record.public_inputs, 1);
        if q0 != max_block {
            return Err(RevelationError::BlockRangeMismatch);
        }
        if min_block <= max_block {
            if q1 != max_block - min_block + 1 {
                return Err(RevelationError::BlockRangeMismatch);
            }
        } else {
            if !(min_block - max_block == 1 && q1 == 0) {
                return Err(RevelationError::BlockRangeMismatch);
            }
        }
        let q_root = subvec(&inputs.query_proof.record.public_inputs, 2, 6);
        let d_root = subvec(&inputs.database_proof.record.public_inputs, 4, 8);
        if !vec_u64_eq(&q_root, &d_root) {
            return Err(RevelationError::RootMismatch);
        }
        let d_last = *pi_at(&inputs.database_proof.record.public_inputs, 9);
        if d_last < max_block {
            return Err(RevelationError::StaleDatabase);
        }
        let public_inputs = assemble_layout(
            &inputs.logic_inputs.packed_keys,
            inputs.logic_inputs.num_entries,
            min_block,
            max_block,
            &inputs.database_proof.record.public_inputs,
            &inputs.query_proof.record.public_inputs,
        );
        let attestation = attest(&self.circuit.circuit_digest, &public_inputs);
        let record = ProofRecord { public_inputs, attestation };
        Ok(serialize_proof(&record))
    }

    /// The verdict of verification: a decode failure, a statement of the
    /// wrong width, or an attestation not bound to this circuit.
    pub open spec fn spec_verify_error(&self, proof: Seq<u8>) -> Option<RevelationError> {
        match spec_decode_record(proof) {
            Option::None => Some(RevelationError::MalformedProofBytes),
            Option::Some((pis, att)) => {
                if pis.len() != self.circuit.num_public_inputs {
                    Some(RevelationError::VerificationFailure)
                } else if att != spec_attestation(self.circuit.circuit_digest@, pis) {
                    Some(RevelationError::VerificationFailure)
                } else {
                    None
                }
            },
        }
    }

    /// Verify a serialized revelation proof against the compiled circuit.
    /// A negative result is definite: the bytes are not a proof of this
    /// circuit's statement.
    pub fn verify_proof(&self, proof: Vec<u8>) -> (r: Result<(), RevelationError>)
        requires
            self.wf(),
        ensures
            match r {
                Ok(()) => self.spec_verify_error(proof@) is None,
                Err(e) => Some(e) == self.spec_verify_error(proof@),
            },
    {
        let record = match deserialize_proof(&proof) {
            Ok(rec) => rec,
            Err(e) => {
                return Err(e);
            },
        };
        if record.public_inputs.len() != self.circuit.num_public_inputs {
            return Err(RevelationError::VerificationFailure);
        }
        let expected = attest(&self.circuit.circuit_digest, &record.public_inputs);
        if !vec_u64_eq(&record.attestation, &expected) {
            return Err(RevelationError::VerificationFailure);
        }
        Ok(())
    }
}

/// The public-input value at slot `i`.
fn pi_at(v: &Vec<u64>, i: usize) -> (r: &u64)
    requires
        i < v@.len(),
    ensures
        *r == v@[i as int],
{
    &v[i]
}

/// Proof generation succeeds exactly on consistent requests: the verdict is
/// clean if and only if the database-side key matches, the query-side key
/// is a known member, both attestations bind, and the two statements agree
/// on digest, block range, root, and freshness.
pub proof fn lemma_generation_succeeds_iff_consistent(
    params: Parameters,
    inp: RevelationRecursiveInput,
)
    ensures
        params.spec_generation_error(inp) is None <==> params.spec_consistent(inp),
{
}

/// A proof generated from a consistent request verifies: the emitted bytes
/// decode back to exactly the expected layout, whose occupancy slot reads
/// the revealed key count, and carry the attestation of the compiled
/// circuit.
pub proof fn lemma_generate_then_verify(params: Parameters, inp: RevelationRecursiveInput)
    requires
        params.wf(),
        inp.wf(),
        inp.logic_inputs.packed_keys@.len() == params.l,
        params.spec_generation_error(inp) is None,
    ensures
        params.spec_verify_error(params.spec_proof_bytes(inp)) is None,
        spec_decode_record(params.spec_proof_bytes(inp)) == Some(
            (
                params.spec_public_inputs(inp),
                spec_attestation(
                    params.circuit.circuit_digest@,
                    params.spec_public_inputs(inp),
                ),
            ),
        ),
        params.spec_public_inputs(inp)[crate::layout::occupancy_slot(params.l as int)]
            == inp.logic_inputs.num_entries,
{
    let pis = params.spec_public_inputs(inp);
    let cd = params.circuit.circuit_digest@;
    let att = spec_attestation(cd, pis);
    let entries = views(inp.logic_inputs.packed_keys@);
    lemma_layout_len(
        entries,
        inp.logic_inputs.num_entries,
        inp.logic_inputs.query_min_block_number,
        inp.logic_inputs.query_max_block_number,
        inp.database_proof.record.public_inputs@,
        inp.query_proof.record.public_inputs@,
    );
    assert(pis.len() == 8 * params.l + 30);
    lemma_flat_keys_shape(entries);
    assert(canonical(inp.logic_inputs.num_entries)) by {
        assert(inp.logic_inputs.num_entries <= inp.logic_inputs.packed_keys@.len());
        assert(8 * params.l + 30 <= usize::MAX);
    }
    assert forall|i: int| 0 <= i < pis.len() implies canonical(#[trigger] pis[i]) by {
        let fk = crate::layout::flat_keys(entries);
        let mid = seq![
            inp.logic_inputs.num_entries,
            inp.logic_inputs.query_min_block_number,
            inp.logic_inputs.query_max_block_number,
        ];
        let d = inp.database_proof.record.public_inputs@;
        let qtail = inp.query_proof.record.public_inputs@.subrange(6, 23);
        if i < fk.len() {
            assert(pis[i] == fk[i]);
        } else if i < fk.len() + 3 {
            assert(pis[i] == mid[i - fk.len()]);
        } else if i < fk.len() + 3 + d.len() {
            assert(pis[i] == d[i - fk.len() - 3]);
        } else {
            assert(pis[i] == qtail[i - fk.len() - 3 - d.len()]);
            assert(qtail[i - fk.len() - 3 - d.len()] == inp.query_proof.record.public_inputs@[i
                - fk.len() - 3 - d.len() + 6]);
        }
    }
    lemma_digest_shape(cd + pis);
    lemma_record_roundtrip(pis, att);
}

/// An oversized key set is refused by the assembler before any state is
/// built: with more than `l` keys, none of them overwide, the verdict is
/// exactly the validation error.
pub proof fn lemma_oversized_key_set_fails(
    mapping_keys: Seq<Seq<u8>>,
    query_min_block: int,
    query_max_block: int,
    query_proof_bytes: Seq<u8>,
    database_proof_bytes: Seq<u8>,
    l: int,
)
    requires
        forall|i: int| 0 <= i < mapping_keys.len() ==> raw_key_wf(#[trigger] mapping_keys[i]),
        mapping_keys.len() > l,
    ensures
        spec_new_error(
            mapping_keys,
            query_min_block,
            query_max_block,
            query_proof_bytes,
            database_proof_bytes,
            l,
        ) == Some(RevelationError::TooManyKeys),
{
}

/// A request whose query-side digest does not match the digest recomputed
/// from the revealed keys is refused.
pub proof fn lemma_digest_mismatch_fails(params: Parameters, inp: RevelationRecursiveInput)
    requires
        query_digest(inp.query_proof.record.public_inputs@) != spec_keys_digest(
            views(inp.logic_inputs.packed_keys@),
            inp.logic_inputs.num_entries,
        ),
    ensures
        params.spec_generation_error(inp) is Some,
{
}

/// A request whose database-side proof names any verifying key other than
/// the one fixed at build time is refused, with the circuit named.
pub proof fn lemma_wrong_database_circuit_fails(
    params: Parameters,
    inp: RevelationRecursiveInput,
)
    requires
        inp.database_proof.verifier_key@ != params.database_verifier_key@,
    ensures
        params.spec_generation_error(inp) == Some(RevelationError::WrongDatabaseCircuit),
{
}

/// A request whose claimed maximum block number exceeds the database's last
/// attested block number is refused.
pub proof fn lemma_stale_database_fails(params: Parameters, inp: RevelationRecursiveInput)
    requires
        db_last_block(inp.database_proof.record.public_inputs@)
            < inp.logic_inputs.query_max_block_number,
    ensures
        params.spec_generation_error(inp) is Some,
{
}

} // verus!
