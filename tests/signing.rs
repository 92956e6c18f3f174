use ethers_core::types::transaction::eip2718::TypedTransaction;
use ethers_core::utils::rlp::Rlp;
use evm_governance::codec::{from_hex, parse_address};
use evm_governance::gateway::{store_string_call, transaction_request, TARGET_CONTRACT};
use evm_governance::natural::BigNat;
use evm_governance::signing::{
    eth_address_of_public_key, signed_transaction_hex, transaction_digest, unsigned_transaction,
    y_parity, SignRequest, SigningError,
};
use k256::ecdsa::SigningKey;

fn key() -> SigningKey {
    let mut secret = [0u8; 32];
    secret[31] = 1;
    SigningKey::from_slice(&secret).unwrap()
}

#[test]
fn address_of_known_key() {
    let public = key().verifying_key().to_sec1_bytes().to_vec();
    assert_eq!(
        eth_address_of_public_key(&public),
        Ok("0x7E5F4552091A69125d5DfCb7b8C2659029395Bdf".to_string())
    );
    assert_eq!(eth_address_of_public_key(&[1, 2, 3]), Err(SigningError::InvalidPublicKey));
    let uncompressed = key().verifying_key().to_encoded_point(false).as_bytes().to_vec();
    assert_eq!(uncompressed.len(), 65);
    assert_eq!(eth_address_of_public_key(&uncompressed), eth_address_of_public_key(&public));
}

#[test]
fn unsigned_transaction_is_typed() {
    let req = transaction_request(parse_address(TARGET_CONTRACT).unwrap(), vec![1], 3);
    let bytes = unsigned_transaction(&req);
    assert_eq!(bytes[0], 2);
    assert_eq!(transaction_digest(&req).len(), 32);
    assert_eq!(transaction_digest(&req), ethers_core::utils::keccak256(&bytes).to_vec());
}

#[test]
fn parity_recovers_the_signing_key() {
    let req = transaction_request(parse_address(TARGET_CONTRACT).unwrap(), vec![9, 9], 11);
    let digest = transaction_digest(&req);
    let (signature, recovery_id) = key().sign_prehash_recoverable(&digest).unwrap();
    let public = key().verifying_key().to_sec1_bytes().to_vec();
    let parity = y_parity(&digest, &signature.to_bytes(), &public);
    assert_eq!(parity, Some(recovery_id.to_byte()));
    let mut other = [0u8; 32];
    other[31] = 2;
    let other_public = SigningKey::from_slice(&other).unwrap().verifying_key().to_sec1_bytes().to_vec();
    assert_eq!(y_parity(&digest, &signature.to_bytes(), &other_public), None);
}

#[test]
fn signed_transaction_round_trip_recovers_signer_address() {
    let data = store_string_call("aaaaa-aa: Proposal 1: 0% yes");
    let req = transaction_request(parse_address(TARGET_CONTRACT).unwrap(), data.clone(), 10_512_425);
    let digest = transaction_digest(&req);
    let (signature, _) = key().sign_prehash_recoverable(&digest).unwrap();
    let public = key().verifying_key().to_sec1_bytes().to_vec();
    let hex = signed_transaction_hex(&req, &signature.to_bytes(), &public).unwrap();
    assert!(hex.starts_with("0x02"));
    let raw = from_hex(&hex).unwrap();
    let (tx, sig) = TypedTransaction::decode_signed(&Rlp::new(&raw)).unwrap();
    let recovered = sig.recover(tx.sighash()).unwrap();
    assert_eq!(tx.sighash().as_bytes(), &digest[..]);
    assert_eq!(
        ethers_core::utils::to_checksum(&recovered, None),
        eth_address_of_public_key(&public).unwrap()
    );
    assert_eq!(tx.data().unwrap().to_vec(), data);
    assert_eq!(tx.nonce().unwrap().as_u64(), 10_512_425);
}

#[test]
fn signing_rejects_bad_inputs() {
    let req = transaction_request(parse_address(TARGET_CONTRACT).unwrap(), vec![], 1);
    let digest = transaction_digest(&req);
    let (signature, _) = key().sign_prehash_recoverable(&digest).unwrap();
    let public = key().verifying_key().to_sec1_bytes().to_vec();
    assert_eq!(
        signed_transaction_hex(&req, &signature.to_bytes()[..63], &public),
        Err(SigningError::MalformedSignature)
    );
    assert_eq!(
        signed_transaction_hex(&req, &signature.to_bytes(), &[4, 1]),
        Err(SigningError::InvalidPublicKey)
    );
    let mut other = [0u8; 32];
    other[31] = 2;
    let other_public = SigningKey::from_slice(&other).unwrap().verifying_key().to_sec1_bytes().to_vec();
    assert_eq!(
        signed_transaction_hex(&req, &signature.to_bytes(), &other_public),
        Err(SigningError::ParityNotFound)
    );
}

#[test]
fn wide_fields_round_trip_through_signing() {
    let mut value = vec![0u8; 35];
    value[3] = 0x12;
    value[34] = 0x34;
    let req = SignRequest {
        chain_id: 5,
        to: parse_address(TARGET_CONTRACT).unwrap(),
        gas: BigNat::from_u128(21_000),
        max_fee_per_gas: BigNat::from_u128(2),
        max_priority_fee_per_gas: BigNat::from_u128(1),
        value: BigNat::from_be_bytes(value),
        nonce: BigNat::from_be_bytes(vec![1; 20]),
        data: None,
    };
    assert!(req.fits_wire());
    let digest = transaction_digest(&req);
    let (signature, _) = key().sign_prehash_recoverable(&digest).unwrap();
    let public = key().verifying_key().to_sec1_bytes().to_vec();
    let hex = signed_transaction_hex(&req, &signature.to_bytes(), &public).unwrap();
    let raw = from_hex(&hex).unwrap();
    let (tx, _) = TypedTransaction::decode_signed(&Rlp::new(&raw)).unwrap();
    let mut expected = [0u8; 32];
    expected[0] = 0x12;
    expected[31] = 0x34;
    assert_eq!(tx.value().unwrap(), &ethers_core::types::U256::from_big_endian(&expected));
    assert_eq!(tx.nonce().unwrap(), &ethers_core::types::U256::from_big_endian(&[1u8; 20]));
    assert_eq!(tx.gas().unwrap().as_u64(), 21_000);
}

#[test]
fn fields_beyond_256_bits_do_not_fit() {
    let mut too_wide = vec![0u8; 33];
    too_wide[0] = 1;
    let req = SignRequest {
        chain_id: 5,
        to: parse_address(TARGET_CONTRACT).unwrap(),
        gas: BigNat::from_be_bytes(too_wide),
        max_fee_per_gas: BigNat::zero(),
        max_priority_fee_per_gas: BigNat::zero(),
        value: BigNat::zero(),
        nonce: BigNat::zero(),
        data: None,
    };
    assert!(!req.fits_wire());
    assert!(BigNat::from_be_bytes(vec![0u8; 40]).to_word().is_some());
    assert_eq!(BigNat::from_be_bytes(vec![0xff; 32]).to_word(), Some(vec![0xff; 32]));
    assert_eq!(BigNat::from_u128(258).to_word().unwrap()[30..], [1, 2]);
}
