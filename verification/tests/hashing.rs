use starknet_syscalls::felt::Felt;
use starknet_syscalls::handler::{
    block_out_of_range_felt, class_hash_not_found_felt, contract_address_unavailable_felt,
    invalid_keccak_size_felt, out_of_gas_felt, syscall_out_of_gas_felt, unsupported_domain_felt,
};
use starknet_syscalls::keccak_hash::{keccak256, sn_keccak};
use starknet_syscalls::pedersen::pedersen;

/// The felt a byte string encodes: its big-endian value.
fn felt_of_ascii(s: &[u8]) -> Felt {
    assert!(s.len() <= 31);
    let mut padded = vec![0u8; 32 - s.len()];
    padded.extend_from_slice(s);
    Felt::from_bytes_be(&padded)
}

#[test]
fn error_felts_encode_their_ascii_strings() {
    assert_eq!(out_of_gas_felt(), felt_of_ascii(b"Out of gas"));
    assert_eq!(block_out_of_range_felt(), felt_of_ascii(b"Block number out of range"));
    assert_eq!(unsupported_domain_felt(), felt_of_ascii(b"Unsupported address domain"));
    assert_eq!(invalid_keccak_size_felt(), felt_of_ascii(b"Invalid keccak input size"));
    assert_eq!(syscall_out_of_gas_felt(), felt_of_ascii(b"Syscall out of gas"));
    assert_eq!(class_hash_not_found_felt(), felt_of_ascii(b"CLASS_HASH_NOT_FOUND"));
    assert_eq!(
        contract_address_unavailable_felt(),
        felt_of_ascii(b"CONTRACT_ADDRESS_UNAVAILABLE")
    );
}

#[test]
fn keccak256_matches_the_known_empty_digest() {
    let digest = keccak256(&Vec::new());
    let expected: [u8; 32] = [
        0xc5, 0xd2, 0x46, 0x01, 0x86, 0xf7, 0x23, 0x3c, 0x92, 0x7e, 0x7d, 0xb2, 0xdc, 0xc7,
        0x03, 0xc0, 0xe5, 0x00, 0xb6, 0x53, 0xca, 0x82, 0x27, 0x3b, 0x7b, 0xfa, 0xd8, 0x04,
        0x5d, 0x85, 0xa4, 0x70,
    ];
    assert_eq!(digest, expected.to_vec());
}

#[test]
fn keccak256_matches_a_known_short_digest() {
    let digest = keccak256(&b"abc".to_vec());
    let expected: [u8; 32] = [
        0x4e, 0x03, 0x65, 0x7a, 0xea, 0x45, 0xa9, 0x4f, 0xc7, 0xd4, 0x7b, 0xa8, 0x26, 0xc8,
        0xd6, 0x67, 0xc0, 0xd1, 0xe6, 0xe3, 0x3a, 0x64, 0xa0, 0x36, 0xec, 0x44, 0xf5, 0x8f,
        0xa1, 0x2d, 0x6c, 0x45,
    ];
    assert_eq!(digest, expected.to_vec());
}

#[test]
fn sn_keccak_fits_250_bits_and_is_deterministic() {
    let a = sn_keccak(&b"constructor".to_vec());
    let b = sn_keccak(&b"constructor".to_vec());
    assert_eq!(a, b);
    // The top six bits of the digest are masked away.
    assert!(a.l3 < 1u64 << 58);
    // Different names give different selectors.
    let c = sn_keccak(&b"get_block_number".to_vec());
    assert_ne!(a, c);
}

#[test]
fn pedersen_depends_on_both_arguments_and_their_order() {
    let one = Felt { l3: 0, l2: 0, l1: 0, l0: 1 };
    let two = Felt { l3: 0, l2: 0, l1: 0, l0: 2 };
    let h12 = pedersen(&one, &two);
    let h21 = pedersen(&two, &one);
    assert_ne!(h12, one);
    assert_ne!(h12, two);
    assert_ne!(h12, h21);
    assert_eq!(h12, pedersen(&one, &two));
}

#[test]
fn felt_byte_encoding_round_trips() {
    let f = Felt { l3: 1, l2: 2, l1: 3, l0: 4 };
    let bytes = f.to_bytes_be();
    assert_eq!(bytes.len(), 32);
    assert_eq!(Felt::from_bytes_be(&bytes), f);
    // Small values narrow back to native integers.
    let g = Felt::from_u128(77);
    assert_eq!(g.to_u128(), Some(77));
    assert_eq!(g.to_u64(), Some(77));
    let big = Felt { l3: 1, l2: 0, l1: 0, l0: 0 };
    assert_eq!(big.to_u128(), None);
}
