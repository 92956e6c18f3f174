//! What is sent to the ledger and how its answers are read: contract-call
//! data, the execution transaction's fields, JSON-RPC replies and the
//! outcome of a multi-provider broadcast.

use vstd::prelude::*;
use vstd::string::StringExecFns;
use vstd::string::StringSliceAdditionalSpecFns;
use vstd::utf8::encode_utf8;
use crate::codec::EthAddress;
use crate::codec::HexError;
use crate::codec::abi_address_word;
use crate::codec::abi_string_argument;
use crate::codec::abi_uint_word;
use crate::codec::decode_uint_output;
use crate::codec::AbiArg;
use crate::codec::abi_encode;
use crate::codec::abi_encoding;
use crate::codec::abi_words;
use crate::codec::from_hex;
use crate::codec::from_hex_quantity;
use crate::codec::quantity_result;
use crate::codec::from_hex_result;
use crate::codec::function_selector;
use crate::codec::hex_decoded;
use crate::codec::is_address_text;
use crate::codec::parse_address;
use crate::codec::selector_of;
use crate::interface::JsonRpcError;
use crate::interface::MultiSendRawTransactionResult;
use crate::interface::SendRawTransactionResult;
use crate::interface::SendRawTransactionStatus;
use crate::natural::BigNat;
use crate::natural::be_value;
use crate::signing::SignRequest;
use crate::signing::request_fits;
use crate::natural::lemma_u128_fits_word;

verus! {

/// The governance token contract that balances are read from and that
/// execution summaries are stored in.
pub const TARGET_CONTRACT: &'static str = "0x2036081922cf3124E9f13b3a3a4bE55410C80D95";

/// The Sepolia chain id.
pub const CHAIN_ID: u64 = 11155111;

/// The gas limit of an execution transaction.
pub const GAS: u128 = 80_000;

/// The fee cap per gas of an execution transaction.
pub const MAX_FEE_PER_GAS: u128 = 156_083_066_522;

/// The priority fee per gas of an execution transaction.
pub const MAX_PRIORITY_FEE_PER_GAS: u128 = 3_000_000_000;

/// What request ids and nonces are offset by.
pub const ID_OFFSET: u64 = 10_512_425;

/// The JSON-RPC request for the latest block number.
pub const BLOCK_NUMBER_REQUEST: &'static str = "{\"jsonrpc\":\"2.0\",\"method\":\"eth_blockNumber\",\"params\":[]}";

/// Hands out the next request id: the counter's value plus the offset; the
/// counter moves on by one.
pub fn next_id(counter: &mut u64) -> (id: u64)
    requires
        *old(counter) + ID_OFFSET <= u64::MAX,
    ensures
        id == *old(counter) + ID_OFFSET,
        *final(counter) == *old(counter) + 1,
{
    let id = *counter;
    *counter = id + 1;
    id + ID_OFFSET
}

/// Call data of `balanceOf(address)` for the address text `user`.
pub fn balance_of_call(user: &str) -> (r: Result<Vec<u8>, &'static str>)
    ensures
        r is Ok <==> is_address_text(user.spec_bytes()),
        r matches Ok(d) ==> d@ == selector_of("balanceOf(address)"@) + abi_address_word(
            hex_decoded(user.spec_bytes().subrange(2, 42)),
        ),
{
    let address = parse_address(user)?;
    let mut data = function_selector("balanceOf(address)");
    let args = vec![AbiArg::Address(address)];
    assert(abi_encoding(args@) =~= abi_address_word(address.bytes@)) by {
        reveal_with_fuel(abi_words, 2);
        assert(args@.drop_last() =~= Seq::<AbiArg>::empty());
    }
    let mut encoded = abi_encode(&args);
    data.append(&mut encoded);
    Ok(data)
}

/// Call data of `storeString(string)` with `text`.
pub fn store_string_call(text: &str) -> (r: Vec<u8>)
    ensures
        r@ == selector_of("storeString(string)"@) + abi_string_argument(encode_utf8(text@)),
{
    let mut data = function_selector("storeString(string)");
    let args = vec![AbiArg::Text(String::from_str(text))];
    let mut encoded = abi_encode(&args);
    data.append(&mut encoded);
    data
}

/// Call data of `transfer(address,uint256)` to the address text `to`.
pub fn transfer_call(to: &str, amount: u128) -> (r: Result<Vec<u8>, &'static str>)
    ensures
        r is Ok <==> is_address_text(to.spec_bytes()),
        r matches Ok(d) ==> d@ == selector_of("transfer(address,uint256)"@) + abi_address_word(
            hex_decoded(to.spec_bytes().subrange(2, 42)),
        ) + abi_uint_word(amount as nat),
{
    let address = parse_address(to)?;
    let mut data = function_selector("transfer(address,uint256)");
    let args = vec![AbiArg::Address(address), AbiArg::Uint(amount)];
    assert(abi_encoding(args@) =~= abi_address_word(address.bytes@) + abi_uint_word(
        amount as nat,
    )) by {
        reveal_with_fuel(abi_words, 3);
        assert(args@.drop_last().drop_last() =~= Seq::<AbiArg>::empty());
        assert(args@.drop_last().last() == AbiArg::Address(address));
    }
    let mut encoded = abi_encode(&args);
    data.append(&mut encoded);
    Ok(data)
}

/// The execution transaction to `to` carrying `data`, with the fixed chain,
/// gas and fee settings and no value; it fits the wire.
pub fn transaction_request(to: EthAddress, data: Vec<u8>, nonce: u64) -> (r: SignRequest)
    ensures
        r.chain_id == CHAIN_ID,
        r.to == to,
        r.gas@ == GAS as nat,
        r.max_fee_per_gas@ == MAX_FEE_PER_GAS as nat,
        r.max_priority_fee_per_gas@ == MAX_PRIORITY_FEE_PER_GAS as nat,
        r.value@ == 0,
        r.nonce@ == nonce as nat,
        r.data == Some(data),
        request_fits(&r),
{
    let r = SignRequest {
        chain_id: CHAIN_ID,
        to,
        gas: BigNat::from_u128(GAS),
        max_fee_per_gas: BigNat::from_u128(MAX_FEE_PER_GAS),
        max_priority_fee_per_gas: BigNat::from_u128(MAX_PRIORITY_FEE_PER_GAS),
        value: BigNat::zero(),
        nonce: BigNat::from_u128(nonce as u128),
        data: Some(data),
    };
    proof {
        lemma_u128_fits_word(GAS as nat);
        lemma_u128_fits_word(MAX_FEE_PER_GAS as nat);
        lemma_u128_fits_word(MAX_PRIORITY_FEE_PER_GAS as nat);
        lemma_u128_fits_word(0);
        lemma_u128_fits_word(nonce as nat);
    }
    r
}

/// A JSON-RPC reply: a result or an error object.
#[derive(Debug)]
pub struct JsonRpcReply {
    pub result: Option<String>,
    pub error: Option<JsonRpcError>,
}

/// Why a ledger reply could not be used.
#[derive(Debug)]
pub enum RpcFailure {
    /// The reply carries an error object.
    JsonRpc(JsonRpcError),
    /// The reply carries neither a result nor an error.
    MissingResult,
    /// The result is not `0x`-prefixed hex.
    InvalidHex(HexError),
    /// The result is too short for the expected ABI value.
    ShortOutput,
}

/// Reads an `eth_blockNumber` reply: the height that its hex digits stand
/// for, whatever their number, and the hex text it came in, which later
/// serves as the block tag of snapshot reads.
pub fn block_number_from_reply(reply: JsonRpcReply) -> (r: Result<(BigNat, String), RpcFailure>)
    ensures
        reply.error matches Some(e) ==> (r matches Err(RpcFailure::JsonRpc(f)) && f == e),
        reply.error is None && reply.result is None ==> r matches Err(RpcFailure::MissingResult),
        reply.error is None && reply.result is Some ==> match quantity_result(
            encode_utf8(reply.result->0@),
        ) {
            Err(e) => (r matches Err(RpcFailure::InvalidHex(f)) && f == e),
            Ok(v) => (r matches Ok((n, t)) && n@ == v && t@ == reply.result->0@),
        },
{
    if let Some(e) = reply.error {
        return Err(RpcFailure::JsonRpc(e));
    }
    let text = match reply.result {
        Some(t) => t,
        None => return Err(RpcFailure::MissingResult),
    };
    match from_hex_quantity(text.as_str()) {
        Ok(height) => Ok((height, text)),
        Err(e) => Err(RpcFailure::InvalidHex(e)),
    }
}

/// Reads the reply of an `eth_call` whose output is one `uint256`.
pub fn uint_from_reply(reply: JsonRpcReply) -> (r: Result<BigNat, RpcFailure>)
    ensures
        reply.error matches Some(e) ==> (r matches Err(RpcFailure::JsonRpc(f)) && f == e),
        reply.error is None && reply.result is None ==> r matches Err(RpcFailure::MissingResult),
        reply.error is None && reply.result is Some ==> match from_hex_result(
            encode_utf8(reply.result->0@),
        ) {
            Err(e) => (r matches Err(RpcFailure::InvalidHex(f)) && f == e),
            Ok(b) => if b.len() < 32 {
                r matches Err(RpcFailure::ShortOutput)
            } else {
                (r matches Ok(n) && n@ == be_value(b.subrange(0, 32)))
            },
        },
{
    if let Some(e) = reply.error {
        return Err(RpcFailure::JsonRpc(e));
    }
    let text = match reply.result {
        Some(t) => t,
        None => return Err(RpcFailure::MissingResult),
    };
    let bytes = match from_hex(text.as_str()) {
        Ok(b) => b,
        Err(e) => return Err(RpcFailure::InvalidHex(e)),
    };
    match decode_uint_output(bytes.as_slice()) {
        Some(word) => Ok(BigNat::from_be_bytes(word)),
        None => Err(RpcFailure::ShortOutput),
    }
}

/// Relies on the `Debug` text that std's formatting gives the outcome.
#[verifier::external_body]
fn debug_text(outcome: &MultiSendRawTransactionResult) -> (r: String) {
    format!("{:?}", outcome)
}

/// What a broadcast came to: the transaction id where the providers agree
/// that it was accepted (`OK` where they gave no hash), else a failure text
/// naming the transaction and the providers' answers.
pub fn send_outcome(signed_hex: &str, outcome: &MultiSendRawTransactionResult) -> (r: Result<
    String,
    String,
>)
    ensures
        outcome matches MultiSendRawTransactionResult::Consistent(
            SendRawTransactionResult::Status(SendRawTransactionStatus::Accepted(Some(h))),
        ) ==> (r matches Ok(t) && t@ == h@),
        outcome matches MultiSendRawTransactionResult::Consistent(
            SendRawTransactionResult::Status(SendRawTransactionStatus::Accepted(None)),
        ) ==> (r matches Ok(t) && t@ == "OK"@),
        !(outcome matches MultiSendRawTransactionResult::Consistent(
            SendRawTransactionResult::Status(SendRawTransactionStatus::Accepted(_)),
        )) ==> (r matches Err(m) && exists|d: Seq<char>|
            m@ == "call: "@ + signed_hex@ + ", error: "@ + d),
{
    match outcome {
        MultiSendRawTransactionResult::Consistent(
            SendRawTransactionResult::Status(SendRawTransactionStatus::Accepted(hash)),
        ) => match hash {
            Some(h) => Ok(h.clone()),
            None => Ok(String::from_str("OK")),
        },
        _ => {
            let details = debug_text(outcome);
            let mut m = String::from_str("call: ");
            m.append(signed_hex);
            m.append(", error: ");
            m.append(details.as_str());
            assert(m@ == "call: "@ + signed_hex@ + ", error: "@ + details@);
            Err(m)
        },
    }
}

} // verus!
