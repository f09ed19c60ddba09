use battleship_game::codec::{encode_board_inputs, encode_hit_inputs};
use battleship_game::{Bn254Verifier, VerifierError};

#[test]
fn test_verify_proof_invalid_length() {
    let short_proof = vec![0u8; 64];
    let public_inputs = vec![0u8; 32];
    let vk_hash = [0u8; 32];
    let result = Bn254Verifier::verify_proof(&short_proof, &public_inputs, &vk_hash);
    assert!(result.is_err());
    assert_eq!(result, Err(VerifierError::InvalidProofLength));
}

#[test]
fn test_verify_hit_proof_structure() {
    let proof = vec![1u8; 128];
    let commitment = [0xABu8; 32];
    let vk_hash = [0u8; 32];
    let result = Bn254Verifier::verify_hit_proof(&proof, &commitment, 3, 5, 1, &vk_hash);
    assert_eq!(result, Ok(true));
}

#[test]
fn proof_of_129_bytes_is_refused() {
    let proof = vec![1u8; 129];
    let r = Bn254Verifier::verify_proof(&proof, &vec![0u8; 32], &[0u8; 32]);
    assert_eq!(r, Err(VerifierError::InvalidProofLength));
}

#[test]
fn empty_proof_is_refused() {
    let r = Bn254Verifier::verify_proof(&Vec::new(), &Vec::new(), &[0u8; 32]);
    assert_eq!(r, Err(VerifierError::InvalidProofLength));
}

#[test]
fn public_inputs_not_whole_blocks_are_refused() {
    let proof = vec![1u8; 128];
    let r = Bn254Verifier::verify_proof(&proof, &vec![0u8; 33], &[0u8; 32]);
    assert_eq!(r, Err(VerifierError::InvalidPublicInputsLength));
    let r = Bn254Verifier::verify_proof(&proof, &vec![0u8; 31], &[0u8; 32]);
    assert_eq!(r, Err(VerifierError::InvalidPublicInputsLength));
}

#[test]
fn proof_length_is_checked_before_inputs() {
    let r = Bn254Verifier::verify_proof(&vec![1u8; 10], &vec![0u8; 7], &[0u8; 32]);
    assert_eq!(r, Err(VerifierError::InvalidProofLength));
}

#[test]
fn well_formed_proof_with_empty_inputs_is_accepted() {
    let r = Bn254Verifier::verify_proof(&vec![9u8; 128], &Vec::new(), &[0u8; 32]);
    assert_eq!(r, Ok(true));
}

#[test]
fn board_proof_checks_length() {
    let hash = [7u8; 32];
    assert_eq!(Bn254Verifier::verify_board_proof(&vec![1u8; 128], &hash, &[0u8; 32]), Ok(true));
    assert_eq!(
        Bn254Verifier::verify_board_proof(&vec![1u8; 127], &hash, &[0u8; 32]),
        Err(VerifierError::InvalidProofLength)
    );
}

#[test]
fn split_proof_takes_points_in_order() {
    let proof: Vec<u8> = (0..128u32).map(|i| i as u8).collect();
    let points = Bn254Verifier::split_proof(&proof);
    assert_eq!(points.a, (0..32u32).map(|i| i as u8).collect::<Vec<u8>>());
    assert_eq!(points.b, (32..96u32).map(|i| i as u8).collect::<Vec<u8>>());
    assert_eq!(points.c, (96..128u32).map(|i| i as u8).collect::<Vec<u8>>());
}

#[test]
fn board_inputs_are_the_commitment() {
    let hash: [u8; 32] = core::array::from_fn(|i| (i * 3) as u8);
    assert_eq!(encode_board_inputs(&hash), hash.to_vec());
}

#[test]
fn hit_inputs_layout() {
    let hash = [0xABu8; 32];
    let bytes = encode_hit_inputs(&hash, 3, 5, 1);
    assert_eq!(bytes.len(), 96);
    assert_eq!(&bytes[0..32], &hash[..]);
    let mut cell = [0u8; 32];
    cell[0] = 35;
    assert_eq!(&bytes[32..64], &cell[..]);
    let mut result = [0u8; 32];
    result[0] = 1;
    assert_eq!(&bytes[64..96], &result[..]);
}

#[test]
fn hit_inputs_little_endian_over_four_bytes() {
    let hash = [0u8; 32];
    let bytes = encode_hit_inputs(&hash, 9, 9, 0x0403_0201);
    assert_eq!(bytes[32], 99);
    assert_eq!(&bytes[33..64], &[0u8; 31][..]);
    assert_eq!(&bytes[64..68], &[1u8, 2, 3, 4][..]);
    assert_eq!(&bytes[68..96], &[0u8; 28][..]);
    let big = encode_hit_inputs(&hash, 100_000, 7, 0);
    assert_eq!(&big[32..36], &1_000_007u32.to_le_bytes()[..]);
}
