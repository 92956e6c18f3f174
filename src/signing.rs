//! EIP-1559 transactions: the bytes to sign, the recovery parity of a
//! remote signature, the signed wire form, and the signer's own address.

use vstd::prelude::*;
use vstd::slice::slice_subrange;
use ethers_core::types::transaction::eip1559::Eip1559TransactionRequest;
use ethers_core::types::{Address, Signature, U256};
use k256::elliptic_curve::sec1::ToEncodedPoint;
use crate::codec::EthAddress;
use crate::codec::prefixed_hex;
use crate::codec::to_hex;
use crate::natural::BigNat;
use crate::natural::be_value;
use crate::natural::fits_word;

verus! {

/// The fields of an EIP-1559 transaction to be signed. The chain id has the
/// wire's 64 bits; gas, fees, value and nonce are unbounded here and must fit
/// the wire's 256 bits when the transaction is built.
#[derive(Debug)]
pub struct SignRequest {
    pub chain_id: u64,
    pub to: EthAddress,
    pub gas: BigNat,
    pub max_fee_per_gas: BigNat,
    pub max_priority_fee_per_gas: BigNat,
    /// Native currency to send.
    pub value: BigNat,
    pub nonce: BigNat,
    pub data: Option<Vec<u8>>,
}

/// Whether gas, fees, value and nonce all fit in 256 bits.
pub open spec fn request_fits(req: &SignRequest) -> bool {
    &&& fits_word(req.gas@)
    &&& fits_word(req.max_fee_per_gas@)
    &&& fits_word(req.max_priority_fee_per_gas@)
    &&& fits_word(req.value@)
    &&& fits_word(req.nonce@)
}

impl SignRequest {
    /// Whether gas, fees, value and nonce all fit in 256 bits, as building
    /// the transaction needs.
    pub fn fits_wire(&self) -> (r: bool)
        ensures
            r == request_fits(self),
    {
        self.gas.to_word().is_some() && self.max_fee_per_gas.to_word().is_some()
            && self.max_priority_fee_per_gas.to_word().is_some() && self.value.to_word().is_some()
            && self.nonce.to_word().is_some()
    }
}

/// The 32-byte big-endian words of a request's 256-bit fields.
struct FieldWords {
    gas: Vec<u8>,
    max_fee_per_gas: Vec<u8>,
    max_priority_fee_per_gas: Vec<u8>,
    value: Vec<u8>,
    nonce: Vec<u8>,
}

/// Words of 32 bytes each.
spec fn words_sized(w: &FieldWords) -> bool {
    &&& w.gas@.len() == 32
    &&& w.max_fee_per_gas@.len() == 32
    &&& w.max_priority_fee_per_gas@.len() == 32
    &&& w.value@.len() == 32
    &&& w.nonce@.len() == 32
}

/// The words of a request that fits the wire.
fn field_words(req: &SignRequest) -> (r: FieldWords)
    requires
        request_fits(req),
    ensures
        words_sized(&r),
        be_value(r.gas@) == req.gas@,
        be_value(r.max_fee_per_gas@) == req.max_fee_per_gas@,
        be_value(r.max_priority_fee_per_gas@) == req.max_priority_fee_per_gas@,
        be_value(r.value@) == req.value@,
        be_value(r.nonce@) == req.nonce@,
{
    FieldWords {
        gas: req.gas.to_word().unwrap(),
        max_fee_per_gas: req.max_fee_per_gas.to_word().unwrap(),
        max_priority_fee_per_gas: req.max_priority_fee_per_gas.to_word().unwrap(),
        value: req.value.to_word().unwrap(),
        nonce: req.nonce.to_word().unwrap(),
    }
}

/// Why a transaction could not be signed or an address derived.
#[derive(Clone, Copy, Debug, PartialEq, Eq, Structural)]
pub enum SigningError {
    /// The signing service's public key is not a valid curve point.
    InvalidPublicKey,
    /// The signing service's signature is not 64 bytes.
    MalformedSignature,
    /// Neither parity recovers the signing service's public key.
    ParityNotFound,
}

/// The call data of a request; none is the empty string.
pub open spec fn request_data(req: &SignRequest) -> Seq<u8> {
    match req.data {
        Some(d) => d@,
        None => seq![],
    }
}

/// The RLP list of an unsigned EIP-1559 transaction with an empty access list.
pub uninterp spec fn eip1559_payload(
    chain_id: u64,
    nonce: nat,
    max_priority_fee: nat,
    max_fee: nat,
    gas: nat,
    to: Seq<u8>,
    value: nat,
    data: Seq<u8>,
) -> Seq<u8>;

/// The RLP list of a signed EIP-1559 transaction with an empty access list.
pub uninterp spec fn eip1559_signed_payload(
    chain_id: u64,
    nonce: nat,
    max_priority_fee: nat,
    max_fee: nat,
    gas: nat,
    to: Seq<u8>,
    value: nat,
    data: Seq<u8>,
    parity: u8,
    r: Seq<u8>,
    s: Seq<u8>,
) -> Seq<u8>;

/// The Keccak-256 hash.
pub uninterp spec fn keccak256_of(data: Seq<u8>) -> Seq<u8>;

/// The uncompressed SEC1 encoding of the secp256k1 key that recovery from a
/// prehash, a 64-byte signature and a parity yields, where it succeeds.
pub uninterp spec fn recovered_signer(prehash: Seq<u8>, signature: Seq<u8>, parity: u8) -> Option<
    Seq<u8>,
>;

/// The uncompressed SEC1 encoding of a SEC1-encoded secp256k1 public key,
/// where it is a valid point.
pub uninterp spec fn uncompressed_point(public_key: Seq<u8>) -> Option<Seq<u8>>;

/// The EIP-55 mixed-case checksum text of a 20-byte address.
pub uninterp spec fn checksum_text(address: Seq<u8>) -> Seq<char>;

/// Relies on Eip1559TransactionRequest::rlp (ethers-core): the RLP list of
/// the transaction's fields, the 256-bit ones read from big-endian words by
/// U256::from_big_endian; absent call data encodes as empty.
#[verifier::external_body]
fn unsigned_payload(req: &SignRequest, w: &FieldWords) -> (r: Vec<u8>)
    requires
        words_sized(w),
    ensures
        r@ == eip1559_payload(
            req.chain_id,
            be_value(w.nonce@),
            be_value(w.max_priority_fee_per_gas@),
            be_value(w.max_fee_per_gas@),
            be_value(w.gas@),
            req.to.bytes@,
            be_value(w.value@),
            request_data(req),
        ),
{
    let tx = Eip1559TransactionRequest::new().chain_id(req.chain_id)
        .nonce(U256::from_big_endian(&w.nonce))
        .max_priority_fee_per_gas(U256::from_big_endian(&w.max_priority_fee_per_gas))
        .max_fee_per_gas(U256::from_big_endian(&w.max_fee_per_gas))
        .gas(U256::from_big_endian(&w.gas)).to(Address::from(req.to.bytes))
        .value(U256::from_big_endian(&w.value)).data(req.data.clone().unwrap_or_default());
    tx.rlp().to_vec()
}

/// Relies on Eip1559TransactionRequest::rlp_signed (ethers-core): the RLP
/// list of the fields (the 256-bit ones read from big-endian words) followed
/// by parity, r and s, for a parity below 2.
#[verifier::external_body]
fn signed_payload(req: &SignRequest, w: &FieldWords, parity: u8, signature: &[u8]) -> (r: Vec<u8>)
    requires
        words_sized(w),
        signature@.len() == 64,
        parity < 2,
    ensures
        r@ == eip1559_signed_payload(
            req.chain_id,
            be_value(w.nonce@),
            be_value(w.max_priority_fee_per_gas@),
            be_value(w.max_fee_per_gas@),
            be_value(w.gas@),
            req.to.bytes@,
            be_value(w.value@),
            request_data(req),
            parity,
            signature@.subrange(0, 32),
            signature@.subrange(32, 64),
        ),
{
    let tx = Eip1559TransactionRequest::new().chain_id(req.chain_id)
        .nonce(U256::from_big_endian(&w.nonce))
        .max_priority_fee_per_gas(U256::from_big_endian(&w.max_priority_fee_per_gas))
        .max_fee_per_gas(U256::from_big_endian(&w.max_fee_per_gas))
        .gas(U256::from_big_endian(&w.gas)).to(Address::from(req.to.bytes))
        .value(U256::from_big_endian(&w.value)).data(req.data.clone().unwrap_or_default());
    let (r, s) = (U256::from_big_endian(&signature[0..32]), U256::from_big_endian(&signature[32..64]));
    tx.rlp_signed(&Signature { v: parity as u64, r, s }).to_vec()
}

/// Relies on ethers_core::utils::keccak256: the 32-byte Keccak-256 hash.
#[verifier::external_body]
fn keccak256(data: &[u8]) -> (r: Vec<u8>)
    ensures
        r@ == keccak256_of(data@),
        r@.len() == 32,
{
    ethers_core::utils::keccak256(data).to_vec()
}

/// Relies on k256's VerifyingKey::recover_from_prehash, with the signature
/// read by Signature::try_from and the parity by RecoveryId::try_from; the
/// key is returned uncompressed.
#[verifier::external_body]
fn recover_signer(prehash: &[u8], signature: &[u8], parity: u8) -> (r: Option<Vec<u8>>)
    ensures
        r matches Some(k) ==> recovered_signer(prehash@, signature@, parity) == Some(k@),
        r is None ==> recovered_signer(prehash@, signature@, parity) is None,
{
    let signature = k256::ecdsa::Signature::try_from(signature).ok()?;
    let recovery_id = k256::ecdsa::RecoveryId::try_from(parity).ok()?;
    k256::ecdsa::VerifyingKey::recover_from_prehash(prehash, &signature, recovery_id)
        .ok()
        .map(|key| key.to_encoded_point(false).as_bytes().to_vec())
}

/// Relies on k256's PublicKey::from_sec1_bytes and to_encoded_point(false):
/// the uncompressed encoding of a valid key, which is never the identity,
/// is the tag byte 4 followed by the two 32-byte coordinates.
#[verifier::external_body]
fn uncompressed_public_key(public_key: &[u8]) -> (r: Option<Vec<u8>>)
    ensures
        r matches Some(k) ==> uncompressed_point(public_key@) == Some(k@),
        r matches Some(k) ==> k@.len() == 65 && k@[0] == 4,
        r is None ==> uncompressed_point(public_key@) is None,
{
    k256::PublicKey::from_sec1_bytes(public_key)
        .ok()
        .map(|key| key.to_encoded_point(false).as_bytes().to_vec())
}

/// Relies on ethers_core::utils::to_checksum without a chain id: the EIP-55
/// text of a 20-byte address.
#[verifier::external_body]
fn checksum_address(address: &[u8]) -> (r: String)
    requires
        address@.len() == 20,
    ensures
        r@ == checksum_text(address@),
{
    ethers_core::utils::to_checksum(&Address::from_slice(address), None)
}

/// The type byte of EIP-1559 transactions.
pub const EIP1559_TX_ID: u8 = 2;

/// The typed unsigned transaction: the type byte, then the RLP list.
pub open spec fn unsigned_bytes(req: &SignRequest) -> Seq<u8> {
    seq![EIP1559_TX_ID] + eip1559_payload(
        req.chain_id,
        req.nonce@,
        req.max_priority_fee_per_gas@,
        req.max_fee_per_gas@,
        req.gas@,
        req.to.bytes@,
        req.value@,
        request_data(req),
    )
}

/// The digest that the signing service signs.
pub open spec fn signing_digest(req: &SignRequest) -> Seq<u8> {
    keccak256_of(unsigned_bytes(req))
}

/// The typed signed transaction: the type byte, then the RLP list.
pub open spec fn signed_bytes(req: &SignRequest, parity: u8, signature: Seq<u8>) -> Seq<u8> {
    seq![EIP1559_TX_ID] + eip1559_signed_payload(
        req.chain_id,
        req.nonce@,
        req.max_priority_fee_per_gas@,
        req.max_fee_per_gas@,
        req.gas@,
        req.to.bytes@,
        req.value@,
        request_data(req),
        parity,
        signature.subrange(0, 32),
        signature.subrange(32, 64),
    )
}

/// The parity that recovers the public key, trying 0 before 1.
pub open spec fn parity_choice(prehash: Seq<u8>, signature: Seq<u8>, public_key: Seq<u8>) -> Option<
    u8,
> {
    match uncompressed_point(public_key) {
        None => None,
        Some(point) => if recovered_signer(prehash, signature, 0) == Some(point) {
            Some(0u8)
        } else if recovered_signer(prehash, signature, 1) == Some(point) {
            Some(1u8)
        } else {
            None
        },
    }
}

/// The typed unsigned transaction for a request.
pub fn unsigned_transaction(req: &SignRequest) -> (r: Vec<u8>)
    requires
        request_fits(req),
    ensures
        r@ == unsigned_bytes(req),
{
    let words = field_words(req);
    let mut r: Vec<u8> = Vec::new();
    r.push(EIP1559_TX_ID);
    let mut payload = unsigned_payload(req, &words);
    r.append(&mut payload);
    r
}

/// The digest of a request that the signing service is asked to sign.
pub fn transaction_digest(req: &SignRequest) -> (r: Vec<u8>)
    requires
        request_fits(req),
    ensures
        r@ == signing_digest(req),
        r@.len() == 32,
{
    let unsigned = unsigned_transaction(req);
    keccak256(unsigned.as_slice())
}

/// Whether two byte strings are equal.
fn bytes_equal(a: &[u8], b: &[u8]) -> (r: bool)
    ensures
        r == (a@ == b@),
{
    if a.len() != b.len() {
        return false;
    }
    let mut i: usize = 0;
    while i < a.len()
        invariant
            0 <= i <= a@.len(),
            a@.len() == b@.len(),
            forall|j: int| 0 <= j < i ==> a@[j] == b@[j],
        decreases a@.len() - i,
    {
        if a[i] != b[i] {
            return false;
        }
        i += 1;
    }
    assert(a@ =~= b@);
    true
}

/// The recovery parity of a signature: the first of 0 and 1 whose recovered
/// key is the given public key; none when neither is, or the key is invalid.
pub fn y_parity(prehash: &[u8], sig: &[u8], pubkey: &[u8]) -> (r: Option<u8>)
    ensures
        r == parity_choice(prehash@, sig@, pubkey@),
{
    let point = match uncompressed_public_key(pubkey) {
        Some(p) => p,
        None => return None,
    };
    let mut parity: u8 = 0;
    while parity < 2
        invariant
            0 <= parity <= 2,
            uncompressed_point(pubkey@) == Some(point@),
            forall|q: u8| q < parity ==> recovered_signer(prehash@, sig@, q) != Some(point@),
        decreases 2 - parity,
    {
        if let Some(key) = recover_signer(prehash, sig, parity) {
            if bytes_equal(key.as_slice(), point.as_slice()) {
                return Some(parity);
            }
        }
        parity += 1;
    }
    None
}

/// What signing a request yields, given the service's signature and public key.
pub open spec fn signed_outcome(req: &SignRequest, signature: Seq<u8>, public_key: Seq<u8>) -> Result<
    Seq<char>,
    SigningError,
> {
    if signature.len() != 64 {
        Err(SigningError::MalformedSignature)
    } else if uncompressed_point(public_key) is None {
        Err(SigningError::InvalidPublicKey)
    } else {
        match parity_choice(signing_digest(req), signature, public_key) {
            None => Err(SigningError::ParityNotFound),
            Some(p) => Ok(prefixed_hex(signed_bytes(req, p, signature))),
        }
    }
}

/// The `0x`-prefixed hex of the signed transaction, from the signing
/// service's signature over the request's digest and its public key.
pub fn signed_transaction_hex(req: &SignRequest, signature: &[u8], pubkey: &[u8]) -> (r: Result<
    String,
    SigningError,
>)
    requires
        request_fits(req),
    ensures
        r matches Ok(h) ==> signed_outcome(req, signature@, pubkey@) == Ok::<
            Seq<char>,
            SigningError,
        >(h@),
        r matches Err(e) ==> signed_outcome(req, signature@, pubkey@) == Err::<
            Seq<char>,
            SigningError,
        >(e),
{
    if signature.len() != 64 {
        return Err(SigningError::MalformedSignature);
    }
    if uncompressed_public_key(pubkey).is_none() {
        return Err(SigningError::InvalidPublicKey);
    }
    let digest = transaction_digest(req);
    let parity = match y_parity(digest.as_slice(), signature, pubkey) {
        Some(p) => p,
        None => return Err(SigningError::ParityNotFound),
    };
    let mut signed: Vec<u8> = Vec::new();
    signed.push(EIP1559_TX_ID);
    let words = field_words(req);
    let mut payload = signed_payload(req, &words, parity, signature);
    signed.append(&mut payload);
    Ok(to_hex(signed.as_slice()))
}

/// The ledger address of an uncompressed key: the low 20 bytes of the hash
/// of the point without its prefix byte, in checksum text.
pub open spec fn address_of_point(point: Seq<u8>) -> Seq<char> {
    checksum_text(keccak256_of(point.subrange(1, point.len() as int)).subrange(12, 32))
}

/// The ledger address of the signing service's public key.
pub fn eth_address_of_public_key(pubkey: &[u8]) -> (r: Result<String, SigningError>)
    ensures
        r is Ok <==> uncompressed_point(pubkey@) is Some,
        r matches Err(e) ==> e == SigningError::InvalidPublicKey,
        r matches Ok(a) ==> a@ == address_of_point(uncompressed_point(pubkey@)->0),
{
    let point = match uncompressed_public_key(pubkey) {
        Some(p) => p,
        None => return Err(SigningError::InvalidPublicKey),
    };
    let body = slice_subrange(point.as_slice(), 1, point.len());
    let hash = keccak256(body);
    let address = slice_subrange(hash.as_slice(), 12, 32);
    Ok(checksum_address(address))
}

/// A signed transaction carries a parity that recovers the signing
/// service's own key from the digest and signature, so the recovered key
/// has the very address that the service's public key has.
pub proof fn lemma_signed_transaction_recovers_signer(
    req: &SignRequest,
    signature: Seq<u8>,
    public_key: Seq<u8>,
)
    requires
        signed_outcome(req, signature, public_key) is Ok,
    ensures
        exists|p: u8|
            p < 2 && signed_outcome(req, signature, public_key) == Ok::<Seq<char>, SigningError>(
                prefixed_hex(signed_bytes(req, p, signature)),
            ) && recovered_signer(signing_digest(req), signature, p) == uncompressed_point(
                public_key,
            ) && address_of_point(recovered_signer(signing_digest(req), signature, p)->0)
                == address_of_point(uncompressed_point(public_key)->0),
{
    let p = parity_choice(signing_digest(req), signature, public_key)->0;
    assert(p < 2);
}

} // verus!
