//! The canonical key set builder and the byte codecs, on concrete values.

use revelation::error::RevelationError;
use revelation::keys::{canonical_key_array, left_pad32, pack_key};
use revelation::proofs::{
    deserialize_proof, make_sub_proof, serialize_proof, ProofFamily, ProofRecord, SubProof,
};

#[test]
fn left_pad_fills_from_the_left() {
    let r = left_pad32(&vec![0xAB, 0xCD]);
    assert_eq!(r.len(), 32);
    assert_eq!(&r[..30], &[0u8; 30]);
    assert_eq!(&r[30..], &[0xAB, 0xCD]);
}

#[test]
fn pack_key_is_big_endian_per_limb() {
    let bytes: Vec<u8> = (0u8..32).collect();
    let packed = pack_key(&bytes);
    assert_eq!(
        packed,
        vec![
            0x00010203, 0x04050607, 0x08090A0B, 0x0C0D0E0F, 0x10111213, 0x14151617, 0x18191A1B,
            0x1C1D1E1F,
        ]
    );
}

#[test]
fn builder_sorts_by_final_limb_and_zero_fills() {
    let keys: Vec<Vec<u8>> = vec![vec![9], vec![3]];
    let arr = canonical_key_array(&keys, 4).unwrap();
    assert_eq!(arr.len(), 4);
    assert_eq!(arr[0][7], 3);
    assert_eq!(arr[1][7], 9);
    assert_eq!(arr[2], vec![0u32; 8]);
    assert_eq!(arr[3], vec![0u32; 8]);
}

#[test]
fn builder_merges_keys_sharing_their_final_limb() {
    // Both keys end in the same final limb; the later one wins. This is the
    // documented approximation: ordering considers only the final limb.
    let mut first = vec![0u8; 32];
    first[0] = 1;
    first[31] = 7;
    let mut second = vec![0u8; 32];
    second[0] = 2;
    second[31] = 7;
    let arr = canonical_key_array(&vec![first, second], 3).unwrap();
    // One occupied entry: the second key overwrote the first.
    assert_eq!(arr[0][7], 7);
    assert_eq!(arr[0][0], 0x02000000);
    assert_eq!(arr[1], vec![0u32; 8]);
}

#[test]
fn builder_is_idempotent_on_canonical_input() {
    let keys: Vec<Vec<u8>> = vec![vec![1], vec![2], vec![3]];
    let arr1 = canonical_key_array(&keys, 3).unwrap();
    // Feed the canonical array back as 32-byte keys: nothing changes.
    let back: Vec<Vec<u8>> = arr1
        .iter()
        .map(|k| {
            let mut bytes = Vec::new();
            for limb in k {
                bytes.extend_from_slice(&limb.to_be_bytes());
            }
            bytes
        })
        .collect();
    let arr2 = canonical_key_array(&back, 3).unwrap();
    assert_eq!(arr1, arr2);
}

#[test]
fn builder_rejects_oversized_key_sets() {
    let keys: Vec<Vec<u8>> = vec![vec![1], vec![2], vec![3]];
    assert_eq!(
        canonical_key_array(&keys, 2),
        Err(RevelationError::TooManyKeys)
    );
}

#[test]
fn builder_rejects_overwide_keys() {
    let keys: Vec<Vec<u8>> = vec![vec![0u8; 33]];
    assert_eq!(
        canonical_key_array(&keys, 2),
        Err(RevelationError::KeyTooLong)
    );
}

#[test]
fn empty_key_set_is_all_zero() {
    let arr = canonical_key_array(&Vec::new(), 3).unwrap();
    assert_eq!(arr, vec![vec![0u32; 8]; 3]);
}

#[test]
fn record_encoding_is_exact() {
    let record = ProofRecord {
        public_inputs: vec![5],
        attestation: vec![1, 2, 3, 4],
    };
    let bytes = serialize_proof(&record);
    let mut expected = vec![1u8, 0, 0, 0, 0, 0, 0, 0];
    expected.extend_from_slice(&[5, 0, 0, 0, 0, 0, 0, 0]);
    expected.extend_from_slice(&[1, 0, 0, 0, 0, 0, 0, 0]);
    expected.extend_from_slice(&[2, 0, 0, 0, 0, 0, 0, 0]);
    expected.extend_from_slice(&[3, 0, 0, 0, 0, 0, 0, 0]);
    expected.extend_from_slice(&[4, 0, 0, 0, 0, 0, 0, 0]);
    assert_eq!(bytes, expected);
}

#[test]
fn record_roundtrips_bit_for_bit() {
    let record = ProofRecord {
        public_inputs: vec![0, 1, u32::MAX as u64, 0xFFFF_FFFF_0000_0000],
        attestation: vec![10, 20, 30, 40],
    };
    let bytes = serialize_proof(&record);
    let back = deserialize_proof(&bytes).unwrap();
    assert_eq!(back.public_inputs, record.public_inputs);
    assert_eq!(back.attestation, record.attestation);
    assert_eq!(serialize_proof(&back), bytes);
}

#[test]
fn subproof_roundtrips_bit_for_bit() {
    let p = make_sub_proof(
        ProofFamily::BlockDatabase,
        vec![1, 2, 3, 4],
        vec![9, 8, 7, 6, 5],
    );
    let bytes = p.serialize();
    let back = SubProof::deserialize(&bytes).unwrap();
    assert_eq!(back.family, p.family);
    assert_eq!(back.verifier_key, p.verifier_key);
    assert_eq!(back.record.public_inputs, p.record.public_inputs);
    assert_eq!(back.record.attestation, p.record.attestation);
    assert_eq!(back.serialize(), bytes);
}

#[test]
fn decode_rejects_truncated_bytes() {
    let record = ProofRecord {
        public_inputs: vec![5],
        attestation: vec![1, 2, 3, 4],
    };
    let mut bytes = serialize_proof(&record);
    bytes.pop();
    assert_eq!(
        deserialize_proof(&bytes).err(),
        Some(RevelationError::MalformedProofBytes)
    );
}

#[test]
fn decode_rejects_trailing_bytes() {
    let record = ProofRecord {
        public_inputs: vec![5],
        attestation: vec![1, 2, 3, 4],
    };
    let mut bytes = serialize_proof(&record);
    bytes.push(0);
    assert_eq!(
        deserialize_proof(&bytes).err(),
        Some(RevelationError::MalformedProofBytes)
    );
}

#[test]
fn decode_rejects_noncanonical_values() {
    let record = ProofRecord {
        public_inputs: vec![u64::MAX],
        attestation: vec![1, 2, 3, 4],
    };
    let bytes = serialize_proof(&record);
    assert_eq!(
        deserialize_proof(&bytes).err(),
        Some(RevelationError::MalformedProofBytes)
    );
}

#[test]
fn decode_rejects_unknown_family_tag() {
    let p = make_sub_proof(ProofFamily::QueryAggregation, vec![1, 2, 3, 4], vec![5]);
    let mut bytes = p.serialize();
    bytes[0] = 9;
    assert_eq!(
        SubProof::deserialize(&bytes).err(),
        Some(RevelationError::MalformedProofBytes)
    );
}
