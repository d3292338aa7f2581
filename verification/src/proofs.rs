//! Sub-proofs and their serialized forms.
//!
//! A sub-proof is an opaque serialized (proof, verifying-key) pair, tagged to
//! one of the two proof families this layer composes: the query-aggregation
//! side and the block-database side. Its proof part is a record of public
//! inputs plus an attestation: a digest binding the verifying key to those
//! public inputs, which stands for the backend's cryptographic check that
//! the proof was produced under that key. Both the plain record encoding and
//! the record-plus-key encoding round-trip bit for bit.

use vstd::prelude::*;

use crate::codec::{
    flat_le, lemma_flat_le_index, lemma_flat_le_len, lemma_u64_le_roundtrip, push_all_le,
    push_u64_le, read_all_le, read_u64_le, tail_from, u64_from_le, u64_le,
};
use crate::digest::{digest, digest_of, DIGEST_WIDTH};
use crate::error::RevelationError;
use crate::field::{all_canonical, check_all_canonical};

verus! {

/// The two circuit families a sub-proof can come from.
#[derive(Clone, Copy, Debug, PartialEq, Eq, Structural)]
pub enum ProofFamily {
    /// The query-aggregation side: one of a finite set of circuit shapes.
    QueryAggregation,
    /// The block-database side: one fixed incremental circuit.
    BlockDatabase,
}

/// The byte that tags a family in the serialized form.
pub open spec fn family_byte(f: ProofFamily) -> u8 {
    match f {
        ProofFamily::QueryAggregation => 0u8,
        ProofFamily::BlockDatabase => 1u8,
    }
}

/// The family a tag byte denotes, if any.
pub open spec fn spec_family_of_byte(b: u8) -> Option<ProofFamily> {
    if b == 0u8 {
        Some(ProofFamily::QueryAggregation)
    } else if b == 1u8 {
        Some(ProofFamily::BlockDatabase)
    } else {
        None
    }
}

/// A proof stripped of its verifying key: its public inputs and the
/// attestation binding them to the circuit that produced them.
#[derive(Clone, Debug)]
pub struct ProofRecord {
    /// The public inputs the proof exposes, as canonical field values.
    pub public_inputs: Vec<u64>,
    /// The digest binding the producing circuit to the public inputs.
    pub attestation: Vec<u64>,
}

impl ProofRecord {
    /// Structural validity: canonical values, a digest-wide attestation.
    pub open spec fn wf(&self) -> bool {
        &&& all_canonical(self.public_inputs@)
        &&& self.attestation@.len() == DIGEST_WIDTH
        &&& all_canonical(self.attestation@)
    }
}

/// A sub-proof: a proof record together with the verifying key of the
/// circuit claimed to have produced it, tagged to its family.
#[derive(Clone, Debug)]
pub struct SubProof {
    /// The family this proof claims to come from.
    pub family: ProofFamily,
    /// The verifying-key digest of the claimed producing circuit.
    pub verifier_key: Vec<u64>,
    /// The proof itself.
    pub record: ProofRecord,
}

/// The attestation a genuine proof of circuit `vk` over `pis` carries.
pub open spec fn spec_attestation(vk: Seq<u64>, pis: Seq<u64>) -> Seq<u64> {
    digest_of(vk + pis)
}

impl SubProof {
    /// Structural validity: a digest-wide canonical key, a valid record.
    pub open spec fn wf(&self) -> bool {
        &&& self.verifier_key@.len() == DIGEST_WIDTH
        &&& all_canonical(self.verifier_key@)
        &&& self.record.wf()
    }

    /// A genuine member of its family: the attestation binds the claimed
    /// verifying key to the public inputs.
    pub open spec fn genuine(&self) -> bool {
        self.record.attestation@ == spec_attestation(self.verifier_key@, self.record.public_inputs@)
    }
}

/// The attestation over a verifying key and public inputs.
pub fn attest(vk: &Vec<u64>, public_inputs: &Vec<u64>) -> (r: Vec<u64>)
    ensures
        r@ == spec_attestation(vk@, public_inputs@),
        r@.len() == DIGEST_WIDTH,
        all_canonical(r@),
{
    let mut joined: Vec<u64> = Vec::new();
    let mut i: usize = 0;
    while i < vk.len()
        invariant
            0 <= i <= vk@.len(),
            joined@ =~= vk@.take(i as int),
        decreases vk@.len() - i,
    {
        joined.push(vk[i]);
        proof {
            assert(joined@ =~= vk@.take(i + 1));
        }
        i = i + 1;
    }
    let mut j: usize = 0;
    while j < public_inputs.len()
        invariant
            0 <= j <= public_inputs@.len(),
            joined@ =~= vk@ + public_inputs@.take(j as int),
        decreases public_inputs@.len() - j,
    {
        joined.push(public_inputs[j]);
        proof {
            assert(joined@ =~= vk@ + public_inputs@.take(j + 1));
        }
        j = j + 1;
    }
    proof {
        assert(joined@ =~= vk@ + public_inputs@);
    }
    digest(&joined)
}

/// A genuine sub-proof of family `family` under key `verifier_key` over
/// `public_inputs`: what a prover of that family hands this layer.
pub fn make_sub_proof(family: ProofFamily, verifier_key: Vec<u64>, public_inputs: Vec<u64>) -> (r:
    SubProof)
    requires
        verifier_key@.len() == DIGEST_WIDTH,
        all_canonical(verifier_key@),
        all_canonical(public_inputs@),
    ensures
        r.family == family,
        r.verifier_key@ == verifier_key@,
        r.record.public_inputs@ == public_inputs@,
        r.wf(),
        r.genuine(),
{
    let attestation = attest(&verifier_key, &public_inputs);
    SubProof {
        family,
        verifier_key,
        record: ProofRecord { public_inputs, attestation },
    }
}

/// The plain-proof encoding: a value-count prefix, the public inputs, then
/// the four attestation limbs.
pub open spec fn spec_encode_record(pis: Seq<u64>, att: Seq<u64>) -> Seq<u8> {
    u64_le(pis.len() as u64) + flat_le(pis) + flat_le(att)
}

/// The strict decoding of the plain-proof encoding: `None` unless the bytes
/// are exactly an encoded record with canonical values.
pub open spec fn spec_decode_record(b: Seq<u8>) -> Option<(Seq<u64>, Seq<u64>)> {
    if b.len() < 40 {
        None
    } else {
        let n = u64_from_le(b.subrange(0, 8)) as int;
        if b.len() != 40 + 8 * n {
            None
        } else {
            let pis = Seq::new(n as nat, |i: int| u64_from_le(b.subrange(8 + 8 * i, 16 + 8 * i)));
            let att = Seq::new(
                4,
                |i: int| u64_from_le(b.subrange(8 + 8 * n + 8 * i, 16 + 8 * n + 8 * i)),
            );
            if all_canonical(pis) && all_canonical(att) {
                Some((pis, att))
            } else {
                None
            }
        }
    }
}

/// The proof-with-key encoding: a family byte, the four key limbs, then the
/// plain-proof encoding.
pub open spec fn spec_encode_subproof(
    f: ProofFamily,
    vk: Seq<u64>,
    pis: Seq<u64>,
    att: Seq<u64>,
) -> Seq<u8> {
    seq![family_byte(f)] + flat_le(vk) + spec_encode_record(pis, att)
}

/// The strict decoding of the proof-with-key encoding.
pub open spec fn spec_decode_subproof(b: Seq<u8>) -> Option<
    (ProofFamily, Seq<u64>, Seq<u64>, Seq<u64>),
> {
    if b.len() < 33 {
        None
    } else {
        match spec_family_of_byte(b[0]) {
            None => None,
            Some(f) => {
                let vk = Seq::new(4, |i: int| u64_from_le(b.subrange(1 + 8 * i, 9 + 8 * i)));
                if !all_canonical(vk) {
                    None
                } else {
                    match spec_decode_record(b.subrange(33, b.len() as int)) {
                        None => None,
                        Some((pis, att)) => Some((f, vk, pis, att)),
                    }
                }
            },
        }
    }
}

/// Serialize a plain proof record.
pub fn serialize_proof(p: &ProofRecord) -> (r: Vec<u8>)
    ensures
        r@ == spec_encode_record(p.public_inputs@, p.attestation@),
{
    let mut out: Vec<u8> = Vec::new();
    push_u64_le(&mut out, p.public_inputs.len() as u64);
    push_all_le(&mut out, &p.public_inputs);
    push_all_le(&mut out, &p.attestation);
    proof {
        assert(out@ =~= spec_encode_record(p.public_inputs@, p.attestation@));
    }
    out
}

/// Deserialize a plain proof record; fails on anything but an exact,
/// canonical encoding.
pub fn deserialize_proof(b: &Vec<u8>) -> (r: Result<ProofRecord, RevelationError>)
    ensures
        match r {
            Ok(p) => {
                &&& spec_decode_record(b@) == Some((p.public_inputs@, p.attestation@))
                &&& p.wf()
            },
            Err(e) => {
                &&& spec_decode_record(b@) is None
                &&& e == RevelationError::MalformedProofBytes
            },
        },
{
    let len: usize = b.len();
    if len < 40 {
        return Err(RevelationError::MalformedProofBytes);
    }
    let n64 = read_u64_le(b, 0);
    let rest: usize = len - 40;
    if rest % 8 != 0 || (rest / 8) as u64 != n64 {
        proof {
            assert(b@.len() != 40 + 8 * (n64 as int));
        }
        return Err(RevelationError::MalformedProofBytes);
    }
    let n: usize = rest / 8;
    proof {
        assert(8 * (n as int) == rest as int);
        assert(b@.len() == 40 + 8 * (n64 as int));
    }
    let pis = read_all_le(b, 8, n);
    let att = read_all_le(b, 8 + 8 * n, 4);
    proof {
        let ghost spec_pis = Seq::new(
            n as nat,
            |i: int| u64_from_le(b@.subrange(8 + 8 * i, 16 + 8 * i)),
        );
        let ghost spec_att = Seq::new(
            4,
            |i: int|
                u64_from_le(
                    b@.subrange(8 + 8 * (n as int) + 8 * i, 16 + 8 * (n as int) + 8 * i),
                ),
        );
        assert(pis@ =~= spec_pis);
        assert(att@ =~= spec_att);
    }
    if !check_all_canonical(&pis) {
        return Err(RevelationError::MalformedProofBytes);
    }
    if !check_all_canonical(&att) {
        return Err(RevelationError::MalformedProofBytes);
    }
    Ok(ProofRecord { public_inputs: pis, attestation: att })
}

/// Decoding inverts encoding on every valid record.
pub proof fn lemma_record_roundtrip(pis: Seq<u64>, att: Seq<u64>)
    requires
        att.len() == DIGEST_WIDTH,
        all_canonical(pis),
        all_canonical(att),
        pis.len() <= 0xFFFF_FFFF_FFFF_FFFF,
    ensures
        spec_decode_record(spec_encode_record(pis, att)) == Some((pis, att)),
{
    let b = spec_encode_record(pis, att);
    let n = pis.len() as int;
    lemma_flat_le_len(pis);
    lemma_flat_le_len(att);
    assert(b.len() == 40 + 8 * n);
    assert(b.subrange(0, 8) =~= u64_le(pis.len() as u64));
    lemma_u64_le_roundtrip(pis.len() as u64);
    assert(u64_from_le(b.subrange(0, 8)) as int == n);
    let dec_pis = Seq::new(n as nat, |i: int| u64_from_le(b.subrange(8 + 8 * i, 16 + 8 * i)));
    let dec_att = Seq::new(
        4,
        |i: int| u64_from_le(b.subrange(8 + 8 * n + 8 * i, 16 + 8 * n + 8 * i)),
    );
    assert forall|i: int| 0 <= i < n implies dec_pis[i] == pis[i] by {
        lemma_flat_le_index(pis, i);
        assert(b.subrange(8 + 8 * i, 16 + 8 * i) =~= flat_le(pis).subrange(8 * i, 8 * i + 8));
        lemma_u64_le_roundtrip(pis[i]);
    }
    assert forall|i: int| 0 <= i < 4 implies dec_att[i] == att[i] by {
        lemma_flat_le_index(att, i);
        assert(b.subrange(8 + 8 * n + 8 * i, 16 + 8 * n + 8 * i) =~= flat_le(att).subrange(
            8 * i,
            8 * i + 8,
        ));
        lemma_u64_le_roundtrip(att[i]);
    }
    assert(dec_pis =~= pis);
    assert(dec_att =~= att);
}

impl SubProof {
    /// Serialize the (proof, verifying-key) pair.
    pub fn serialize(&self) -> (r: Vec<u8>)
        ensures
            r@ == spec_encode_subproof(
                self.family,
                self.verifier_key@,
                self.record.public_inputs@,
                self.record.attestation@,
            ),
    {
        let mut out: Vec<u8> = Vec::new();
        let tag: u8 = match self.family {
            ProofFamily::QueryAggregation => 0u8,
            ProofFamily::BlockDatabase => 1u8,
        };
        out.push(tag);
        push_all_le(&mut out, &self.verifier_key);
        let mut rec = serialize_proof(&self.record);
        out.append(&mut rec);
        proof {
            assert(out@ =~= spec_encode_subproof(
                self.family,
                self.verifier_key@,
                self.record.public_inputs@,
                self.record.attestation@,
            ));
        }
        out
    }

    /// Deserialize a (proof, verifying-key) pair; fails on anything but an
    /// exact, canonical encoding.
    pub fn deserialize(b: &Vec<u8>) -> (r: Result<SubProof, RevelationError>)
        ensures
            match r {
                Ok(p) => {
                    &&& spec_decode_subproof(b@) == Some(
                        (
                            p.family,
                            p.verifier_key@,
                            p.record.public_inputs@,
                            p.record.attestation@,
                        ),
                    )
                    &&& p.wf()
                },
                Err(e) => {
                    &&& spec_decode_subproof(b@) is None
                    &&& e == RevelationError::MalformedProofBytes
                },
            },
    {
        let len: usize = b.len();
        if len < 33 {
            return Err(RevelationError::MalformedProofBytes);
        }
        let tag: u8 = b[0];
        let family = if tag == 0 {
            ProofFamily::QueryAggregation
        } else if tag == 1 {
            ProofFamily::BlockDatabase
        } else {
            return Err(RevelationError::MalformedProofBytes);
        };
        let vk = read_all_le(b, 1, 4);
        proof {
            assert(vk@ =~= Seq::new(4, |i: int| u64_from_le(b@.subrange(1 + 8 * i, 9 + 8 * i))));
        }
        if !check_all_canonical(&vk) {
            return Err(RevelationError::MalformedProofBytes);
        }
        let rest = tail_from(b, 33);
        let record = match deserialize_proof(&rest) {
            Ok(rec) => rec,
            Err(e) => {
                return Err(e);
            },
        };
        Ok(SubProof { family, verifier_key: vk, record })
    }
}

/// Decoding inverts encoding on every valid (proof, verifying-key) pair.
pub proof fn lemma_subproof_roundtrip(f: ProofFamily, vk: Seq<u64>, pis: Seq<u64>, att: Seq<u64>)
    requires
        vk.len() == DIGEST_WIDTH,
        att.len() == DIGEST_WIDTH,
        all_canonical(vk),
        all_canonical(pis),
        all_canonical(att),
        pis.len() <= 0xFFFF_FFFF_FFFF_FFFF,
    ensures
        spec_decode_subproof(spec_encode_subproof(f, vk, pis, att)) == Some((f, vk, pis, att)),
{
    let b = spec_encode_subproof(f, vk, pis, att);
    lemma_flat_le_len(vk);
    lemma_flat_le_len(pis);
    lemma_flat_le_len(att);
    assert(b[0] == family_byte(f));
    assert(spec_family_of_byte(family_byte(f)) == Some(f));
    let dec_vk = Seq::new(4, |i: int| u64_from_le(b.subrange(1 + 8 * i, 9 + 8 * i)));
    assert forall|i: int| 0 <= i < 4 implies dec_vk[i] == vk[i] by {
        lemma_flat_le_index(vk, i);
        assert(b.subrange(1 + 8 * i, 9 + 8 * i) =~= flat_le(vk).subrange(8 * i, 8 * i + 8));
        lemma_u64_le_roundtrip(vk[i]);
    }
    assert(dec_vk =~= vk);
    assert(b.subrange(33, b.len() as int) =~= spec_encode_record(pis, att));
    lemma_record_roundtrip(pis, att);
}

} // verus!
