//! End-to-end exercises of the parameter/proof orchestrator.

use revelation::error::RevelationError;
use revelation::keys::canonical_key_array;
use revelation::layout::keys_digest;
use revelation::params::{CircuitSet, Parameters, RevelationRecursiveInput};
use revelation::proofs::{make_sub_proof, ProofFamily, SubProof};

/// A query-side public-input run: max block, range, root, contract address,
/// user address, digest.
fn query_pis(
    max_block: u64,
    range: u64,
    root: &[u64; 4],
    smc_address: &[u64; 5],
    user_address: &[u64; 8],
    digest: &[u64],
) -> Vec<u64> {
    let mut pis = vec![max_block, range];
    pis.extend_from_slice(root);
    pis.extend_from_slice(smc_address);
    pis.extend_from_slice(user_address);
    pis.extend_from_slice(digest);
    pis
}

/// A database-side public-input run: initial root, last root, first and
/// last attested block numbers.
fn db_pis(init_root: &[u64; 4], last_root: &[u64; 4], init_block: u64, last_block: u64) -> Vec<u64> {
    let mut pis = Vec::new();
    pis.extend_from_slice(init_root);
    pis.extend_from_slice(last_root);
    pis.push(init_block);
    pis.push(last_block);
    pis
}

#[test]
fn test_revelation_api() {
    // A stand-in query-side circuit set with one known shape.
    let query_vk = vec![11u64, 22, 33, 44];
    let query_set = CircuitSet { members: vec![query_vk.clone()] };

    // A stand-in database-side circuit set and its fixed verifying key.
    let db_vk = vec![55u64, 66, 77, 88];
    let db_set = CircuitSet { members: vec![db_vk.clone()] };

    // Build the params.
    let l: usize = 2;
    let params = Parameters::build(&query_set, &db_set, &db_vk, l);

    // A database-side proof covering a range of 555 blocks.
    let init_root = [1u64, 2, 3, 4];
    let last_root = [9u64, 8, 7, 6];
    let init_block: u64 = 1000;
    let db_range: u64 = 555;
    let last_block = init_block + db_range;
    let database_pis = db_pis(&init_root, &last_root, init_block, last_block);
    let database_proof = make_sub_proof(ProofFamily::BlockDatabase, db_vk.clone(), database_pis);
    let database_blob = database_proof.serialize();

    // A query-side proof asking for a range one block short of the latest.
    let query_max = last_block - 1;
    let query_range: u64 = 10;
    let query_min = query_max - query_range + 1;
    let mapping_keys: Vec<Vec<u8>> = vec![vec![0xAA], vec![0xBB]];
    let canonical = canonical_key_array(&mapping_keys, l).unwrap();
    let digest = keys_digest(&canonical, mapping_keys.len() as u64);
    let smc_address = [21u64, 22, 23, 24, 25];
    let user_address = [31u64, 32, 33, 34, 35, 36, 37, 38];
    let pis = query_pis(query_max, query_range, &last_root, &smc_address, &user_address, &digest);
    let query_proof = make_sub_proof(ProofFamily::QueryAggregation, query_vk.clone(), pis);
    let query_blob = query_proof.serialize();

    let revelation_inputs = RevelationRecursiveInput::new(
        mapping_keys,
        query_min as usize,
        query_max as usize,
        query_blob,
        database_blob,
        l,
    )
    .unwrap();
    println!("generating revelation proof");
    let proof = params.generate_proof(revelation_inputs).unwrap();
    params.verify_proof(proof).unwrap();
}

/// The pieces of a consistent request, shared by the failure scenarios.
struct Scenario {
    query_vk: Vec<u64>,
    db_vk: Vec<u64>,
    params: Parameters,
    mapping_keys: Vec<Vec<u8>>,
    last_root: [u64; 4],
    query_min: u64,
    query_max: u64,
    db_last_block: u64,
    database_pis: Vec<u64>,
    query_pis: Vec<u64>,
}

fn scenario(l: usize) -> Scenario {
    let query_vk = vec![101u64, 102, 103, 104];
    let db_vk = vec![201u64, 202, 203, 204];
    let query_set = CircuitSet { members: vec![query_vk.clone()] };
    let db_set = CircuitSet { members: vec![db_vk.clone()] };
    let params = Parameters::build(&query_set, &db_set, &db_vk, l);

    let mapping_keys: Vec<Vec<u8>> = vec![vec![0x01], vec![0x02]];
    let last_root = [41u64, 42, 43, 44];
    let query_max: u64 = 9000;
    let query_min: u64 = 8991;
    let db_last_block = query_max + 7;

    let database_pis = db_pis(&[5u64, 6, 7, 8], &last_root, 100, db_last_block);
    let canonical = canonical_key_array(&mapping_keys, l).unwrap();
    let digest = keys_digest(&canonical, mapping_keys.len() as u64);
    let query_pis = query_pis(
        query_max,
        query_max - query_min + 1,
        &last_root,
        &[1, 2, 3, 4, 5],
        &[1, 2, 3, 4, 5, 6, 7, 8],
        &digest,
    );
    Scenario {
        query_vk,
        db_vk,
        params,
        mapping_keys,
        last_root,
        query_min,
        query_max,
        db_last_block,
        database_pis,
        query_pis,
    }
}

fn run(s: &Scenario, query_proof: &SubProof, database_proof: &SubProof) -> Result<Vec<u8>, RevelationError> {
    let inputs = RevelationRecursiveInput::new(
        s.mapping_keys.clone(),
        s.query_min as usize,
        s.query_max as usize,
        query_proof.serialize(),
        database_proof.serialize(),
        2,
    )
    .unwrap();
    s.params.generate_proof(inputs)
}

#[test]
fn generate_and_verify_succeed_on_consistent_claims() {
    let s = scenario(2);
    let q = make_sub_proof(ProofFamily::QueryAggregation, s.query_vk.clone(), s.query_pis.clone());
    let d = make_sub_proof(ProofFamily::BlockDatabase, s.db_vk.clone(), s.database_pis.clone());
    let proof = run(&s, &q, &d).unwrap();
    assert!(s.params.verify_proof(proof).is_ok());
}

#[test]
fn generate_fails_on_digest_mismatch() {
    let s = scenario(2);
    let mut bad_pis = s.query_pis.clone();
    let n = bad_pis.len();
    bad_pis[n - 1] ^= 1;
    let q = make_sub_proof(ProofFamily::QueryAggregation, s.query_vk.clone(), bad_pis);
    let d = make_sub_proof(ProofFamily::BlockDatabase, s.db_vk.clone(), s.database_pis.clone());
    assert_eq!(run(&s, &q, &d), Err(RevelationError::DigestMismatch));
}

#[test]
fn generate_fails_on_wrong_database_circuit() {
    let s = scenario(2);
    let other_vk = vec![7u64, 7, 7, 7];
    let q = make_sub_proof(ProofFamily::QueryAggregation, s.query_vk.clone(), s.query_pis.clone());
    let d = make_sub_proof(ProofFamily::BlockDatabase, other_vk, s.database_pis.clone());
    assert_eq!(run(&s, &q, &d), Err(RevelationError::WrongDatabaseCircuit));
}

#[test]
fn generate_fails_on_unknown_query_circuit() {
    let s = scenario(2);
    let other_vk = vec![9u64, 9, 9, 9];
    let q = make_sub_proof(ProofFamily::QueryAggregation, other_vk, s.query_pis.clone());
    let d = make_sub_proof(ProofFamily::BlockDatabase, s.db_vk.clone(), s.database_pis.clone());
    assert_eq!(run(&s, &q, &d), Err(RevelationError::UnknownQueryCircuit));
}

#[test]
fn generate_fails_on_stale_database() {
    let s = scenario(2);
    // The database attests one block less than the queried maximum.
    let stale_pis = db_pis(&[5u64, 6, 7, 8], &s.last_root, 100, s.query_max - 1);
    let q = make_sub_proof(ProofFamily::QueryAggregation, s.query_vk.clone(), s.query_pis.clone());
    let d = make_sub_proof(ProofFamily::BlockDatabase, s.db_vk.clone(), stale_pis);
    assert_eq!(run(&s, &q, &d), Err(RevelationError::StaleDatabase));
}

#[test]
fn generate_fails_on_root_mismatch() {
    let s = scenario(2);
    let other_root = [91u64, 92, 93, 94];
    let db = db_pis(&[5u64, 6, 7, 8], &other_root, 100, s.db_last_block);
    let q = make_sub_proof(ProofFamily::QueryAggregation, s.query_vk.clone(), s.query_pis.clone());
    let d = make_sub_proof(ProofFamily::BlockDatabase, s.db_vk.clone(), db);
    assert_eq!(run(&s, &q, &d), Err(RevelationError::RootMismatch));
}

#[test]
fn generate_fails_on_block_range_mismatch() {
    let s = scenario(2);
    let mut bad_pis = s.query_pis.clone();
    bad_pis[1] += 1;
    let q = make_sub_proof(ProofFamily::QueryAggregation, s.query_vk.clone(), bad_pis);
    let d = make_sub_proof(ProofFamily::BlockDatabase, s.db_vk.clone(), s.database_pis.clone());
    assert_eq!(run(&s, &q, &d), Err(RevelationError::BlockRangeMismatch));
}

#[test]
fn generate_fails_on_invalid_attestation() {
    let s = scenario(2);
    let q = make_sub_proof(ProofFamily::QueryAggregation, s.query_vk.clone(), s.query_pis.clone());
    let mut d = make_sub_proof(ProofFamily::BlockDatabase, s.db_vk.clone(), s.database_pis.clone());
    // Corrupt the attestation: the proof no longer binds key to statement.
    d.record.attestation[0] ^= 1;
    assert_eq!(run(&s, &q, &d), Err(RevelationError::InvalidAttestation));
}

#[test]
fn assembler_fails_on_swapped_families() {
    let s = scenario(2);
    let q = make_sub_proof(ProofFamily::QueryAggregation, s.query_vk.clone(), s.query_pis.clone());
    let d = make_sub_proof(ProofFamily::BlockDatabase, s.db_vk.clone(), s.database_pis.clone());
    let swapped = RevelationRecursiveInput::new(
        s.mapping_keys.clone(),
        s.query_min as usize,
        s.query_max as usize,
        d.serialize(),
        q.serialize(),
        2,
    );
    assert_eq!(swapped.err(), Some(RevelationError::WrongFamily));
}

#[test]
fn assembler_fails_on_oversized_key_set() {
    let s = scenario(2);
    let q = make_sub_proof(ProofFamily::QueryAggregation, s.query_vk.clone(), s.query_pis.clone());
    let d = make_sub_proof(ProofFamily::BlockDatabase, s.db_vk.clone(), s.database_pis.clone());
    let r = RevelationRecursiveInput::new(
        vec![vec![1], vec![2], vec![3]],
        s.query_min as usize,
        s.query_max as usize,
        q.serialize(),
        d.serialize(),
        2,
    );
    assert_eq!(r.err(), Some(RevelationError::TooManyKeys));
}

#[test]
fn assembler_fails_on_block_number_out_of_range() {
    let s = scenario(2);
    let q = make_sub_proof(ProofFamily::QueryAggregation, s.query_vk.clone(), s.query_pis.clone());
    let d = make_sub_proof(ProofFamily::BlockDatabase, s.db_vk.clone(), s.database_pis.clone());
    let r = RevelationRecursiveInput::new(
        s.mapping_keys.clone(),
        s.query_min as usize,
        u64::MAX as usize,
        q.serialize(),
        d.serialize(),
        2,
    );
    assert_eq!(r.err(), Some(RevelationError::BlockNumberOutOfRange));
}

#[test]
fn verify_rejects_tampered_proof() {
    let s = scenario(2);
    let q = make_sub_proof(ProofFamily::QueryAggregation, s.query_vk.clone(), s.query_pis.clone());
    let d = make_sub_proof(ProofFamily::BlockDatabase, s.db_vk.clone(), s.database_pis.clone());
    let mut proof = run(&s, &q, &d).unwrap();
    // Flip one bit of one public-input byte.
    proof[8] ^= 1;
    assert_eq!(
        s.params.verify_proof(proof),
        Err(RevelationError::VerificationFailure)
    );
}

#[test]
fn verify_rejects_garbage_bytes() {
    let s = scenario(2);
    assert_eq!(
        s.params.verify_proof(vec![0u8; 7]),
        Err(RevelationError::MalformedProofBytes)
    );
}

#[test]
fn verify_rejects_proof_of_other_parameters() {
    // The same request proved under capacity 3 does not verify under the
    // capacity-2 parameters: the statement widths differ.
    let s2 = scenario(2);
    let s3 = scenario(3);
    let q = make_sub_proof(
        ProofFamily::QueryAggregation,
        s3.query_vk.clone(),
        {
            let canonical = canonical_key_array(&s3.mapping_keys, 3).unwrap();
            let digest = keys_digest(&canonical, s3.mapping_keys.len() as u64);
            query_pis(
                s3.query_max,
                s3.query_max - s3.query_min + 1,
                &s3.last_root,
                &[1, 2, 3, 4, 5],
                &[1, 2, 3, 4, 5, 6, 7, 8],
                &digest,
            )
        },
    );
    let d = make_sub_proof(ProofFamily::BlockDatabase, s3.db_vk.clone(), s3.database_pis.clone());
    let inputs = RevelationRecursiveInput::new(
        s3.mapping_keys.clone(),
        s3.query_min as usize,
        s3.query_max as usize,
        q.serialize(),
        d.serialize(),
        3,
    )
    .unwrap();
    let proof = s3.params.generate_proof(inputs).unwrap();
    assert_eq!(
        s2.params.verify_proof(proof),
        Err(RevelationError::VerificationFailure)
    );
}

#[test]
fn verifier_data_mirrors_circuit_data() {
    let s = scenario(2);
    let cd = s.params.circuit_data();
    let vd = s.params.verifier_data();
    assert_eq!(vd.num_public_inputs, cd.num_public_inputs);
    assert_eq!(vd.circuit_digest, cd.circuit_digest);
    // Capacity 2: eight limbs per key, plus occupancy, range and the
    // imported sub-proof data.
    assert_eq!(cd.num_public_inputs, 8 * 2 + 30);
}

#[test]
fn occupancy_slot_reads_back_after_roundtrip() {
    // Five identical keys of value zero, a one-block range, a database one
    // block ahead of the queried maximum.
    let l: usize = 5;
    let query_vk = vec![111u64, 112, 113, 114];
    let db_vk = vec![211u64, 212, 213, 214];
    let query_set = CircuitSet { members: vec![query_vk.clone()] };
    let db_set = CircuitSet { members: vec![db_vk.clone()] };
    let params = Parameters::build(&query_set, &db_set, &db_vk, l);

    let mapping_keys: Vec<Vec<u8>> = vec![vec![0u8]; 5];
    let min_block: u64 = 5594951;
    let max_block: u64 = 5594951;
    let last_root = [61u64, 62, 63, 64];
    let database_pis = db_pis(&[0u64, 0, 0, 0], &last_root, 0, max_block + 1);
    let canonical = canonical_key_array(&mapping_keys, l).unwrap();
    let digest = keys_digest(&canonical, 5);
    let pis = query_pis(
        max_block,
        max_block - min_block + 1,
        &last_root,
        &[1, 2, 3, 4, 5],
        &[1, 2, 3, 4, 5, 6, 7, 8],
        &digest,
    );
    let q = make_sub_proof(ProofFamily::QueryAggregation, query_vk, pis);
    let d = make_sub_proof(ProofFamily::BlockDatabase, db_vk, database_pis);
    let inputs = RevelationRecursiveInput::new(
        mapping_keys,
        min_block as usize,
        max_block as usize,
        q.serialize(),
        d.serialize(),
        l,
    )
    .unwrap();
    let proof = params.generate_proof(inputs).unwrap();
    assert!(params.verify_proof(proof.clone()).is_ok());

    let record = revelation::proofs::deserialize_proof(&proof).unwrap();
    let occupancy = revelation::layout::read_occupancy(&record.public_inputs, l);
    assert_eq!(occupancy, 5);
}
