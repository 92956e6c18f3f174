use evm_governance::codec::{from_hex_quantity, parse_address, HexError};
use evm_governance::gateway::{
    balance_of_call, block_number_from_reply, next_id, send_outcome, store_string_call,
    transaction_request, transfer_call, uint_from_reply, JsonRpcReply, RpcFailure, CHAIN_ID, GAS,
    MAX_FEE_PER_GAS, MAX_PRIORITY_FEE_PER_GAS, TARGET_CONTRACT,
};
use evm_governance::interface::{
    GetAddressResponse, JsonRpcError, MultiSendRawTransactionResult, RpcError,
    SendRawTransactionResult, SendRawTransactionStatus,
};

fn reply(result: Option<&str>, error: Option<(i64, &str)>) -> JsonRpcReply {
    JsonRpcReply {
        result: result.map(|r| r.to_string()),
        error: error.map(|(code, message)| JsonRpcError { code, message: message.to_string() }),
    }
}

#[test]
fn next_id_offsets_and_advances() {
    let mut counter = 0u64;
    assert_eq!(next_id(&mut counter), 10_512_425);
    assert_eq!(next_id(&mut counter), 10_512_426);
    assert_eq!(counter, 2);
}

#[test]
fn balance_of_call_has_selector_and_padded_address() {
    let data = balance_of_call("0x00000000000000000000000000000000000000aa").unwrap();
    assert_eq!(data.len(), 36);
    assert_eq!(&data[0..4], &[0x70, 0xa0, 0x82, 0x31]);
    assert!(data[4..35].iter().all(|b| *b == 0));
    assert_eq!(data[35], 0xaa);
    assert!(balance_of_call("nope").is_err());
}

#[test]
fn transfer_call_has_selector_address_and_amount() {
    let data = transfer_call("0x00000000000000000000000000000000000000bb", 258).unwrap();
    assert_eq!(data.len(), 68);
    assert_eq!(&data[0..4], &[0xa9, 0x05, 0x9c, 0xbb]);
    assert_eq!(data[35], 0xbb);
    assert_eq!(&data[66..68], &[1, 2]);
    assert!(data[36..66].iter().all(|b| *b == 0));
}

#[test]
fn store_string_call_encodes_one_string() {
    let data = store_string_call("hi");
    assert_eq!(data.len(), 4 + 32 * 3);
    assert_eq!(data[4 + 31], 32);
    assert_eq!(data[4 + 63], 2);
    assert_eq!(&data[68..70], b"hi");
    assert!(data[70..].iter().all(|b| *b == 0));
    assert_eq!(store_string_call("").len(), 4 + 64);
}

#[test]
fn transaction_request_uses_fixed_settings() {
    let to = parse_address(TARGET_CONTRACT).unwrap();
    let req = transaction_request(to, vec![1, 2], 7);
    assert_eq!(req.chain_id, CHAIN_ID);
    assert_eq!(req.chain_id, 11155111);
    assert_eq!(req.gas.to_decimal(), GAS.to_string());
    assert_eq!(req.max_fee_per_gas.to_decimal(), MAX_FEE_PER_GAS.to_string());
    assert_eq!(req.max_fee_per_gas.to_decimal(), "156083066522");
    assert_eq!(req.max_priority_fee_per_gas.to_decimal(), MAX_PRIORITY_FEE_PER_GAS.to_string());
    assert_eq!(req.value.to_decimal(), "0");
    assert_eq!(req.nonce.to_decimal(), "7");
    assert!(req.fits_wire());
    assert_eq!(req.data, Some(vec![1, 2]));
    assert_eq!(req.to, to);
}

#[test]
fn block_number_reply_gives_height_and_text() {
    let (height, text) = block_number_from_reply(reply(Some("0x5bad55"), None)).unwrap();
    assert_eq!(height.to_decimal(), "6008149");
    assert_eq!(text, "0x5bad55");
}

#[test]
fn block_number_reply_failures() {
    match block_number_from_reply(reply(None, Some((-32000, "boom")))) {
        Err(RpcFailure::JsonRpc(e)) => {
            assert_eq!(e.code, -32000);
            assert_eq!(e.message, "boom");
        }
        other => panic!("unexpected {:?}", other),
    }
    assert!(matches!(block_number_from_reply(reply(None, None)), Err(RpcFailure::MissingResult)));
    assert!(matches!(
        block_number_from_reply(reply(Some("0xabg"), None)),
        Err(RpcFailure::InvalidHex(HexError::InvalidDigits))
    ));
    assert!(matches!(
        block_number_from_reply(reply(Some("0"), None)),
        Err(RpcFailure::InvalidHex(HexError::TooShort))
    ));
}

#[test]
fn block_number_reply_with_odd_digit_count() {
    let (height, text) = block_number_from_reply(reply(Some("0xabc"), None)).unwrap();
    assert_eq!(height.to_decimal(), "2748");
    assert_eq!(text, "0xabc");
    let (height, text) = block_number_from_reply(reply(Some("0x1b4"), None)).unwrap();
    assert_eq!(height.to_decimal(), "436");
    assert_eq!(text, "0x1b4");
    let (height, _) = block_number_from_reply(reply(Some("0x0"), None)).unwrap();
    assert_eq!(height.to_decimal(), "0");
}

#[test]
fn uint_reply_reads_first_word() {
    let word = format!("0x{}{}", "00".repeat(31), "64");
    assert_eq!(uint_from_reply(reply(Some(&word), None)).unwrap().to_decimal(), "100");
    assert!(matches!(uint_from_reply(reply(Some("0x"), None)), Err(RpcFailure::ShortOutput)));
    assert!(matches!(uint_from_reply(reply(Some("0x64"), None)), Err(RpcFailure::ShortOutput)));
}

#[test]
fn consistent_accepted_broadcast_gives_transaction_id() {
    let ok = MultiSendRawTransactionResult::Consistent(SendRawTransactionResult::Status(
        SendRawTransactionStatus::Accepted(Some("0xhash".to_string())),
    ));
    assert_eq!(send_outcome("0x02", &ok), Ok("0xhash".to_string()));
    let ok_no_hash = MultiSendRawTransactionResult::Consistent(SendRawTransactionResult::Status(
        SendRawTransactionStatus::Accepted(None),
    ));
    assert_eq!(send_outcome("0x02", &ok_no_hash), Ok("OK".to_string()));
}

#[test]
fn consistent_rejection_is_a_failure() {
    let rejected = MultiSendRawTransactionResult::Consistent(SendRawTransactionResult::Status(
        SendRawTransactionStatus::InsufficientFunds,
    ));
    let m = send_outcome("0x02ff", &rejected).unwrap_err();
    assert!(m.starts_with("call: 0x02ff, error: "));
    assert!(m.contains("InsufficientFunds"));
    let failed = MultiSendRawTransactionResult::Consistent(SendRawTransactionResult::Failure(
        RpcError::JsonRpcError(JsonRpcError { code: 1, message: "x".to_string() }),
    ));
    assert!(send_outcome("0x02ff", &failed).is_err());
}

#[test]
fn address_response_converts() {
    assert_eq!(GetAddressResponse::Address("0x1".to_string()).into_result(), Ok("0x1".to_string()));
    assert_eq!(GetAddressResponse::Failure("no".to_string()).into_result(), Err("no".to_string()));
}

#[test]
fn hex_quantity_reads_any_digit_count() {
    assert_eq!(from_hex_quantity("0xf").unwrap().to_decimal(), "15");
    assert_eq!(from_hex_quantity("0x0100").unwrap().to_decimal(), "256");
    assert_eq!(from_hex_quantity("0x").unwrap().to_decimal(), "0");
    assert_eq!(from_hex_quantity("0xAbC").unwrap().to_decimal(), "2748");
    assert!(matches!(from_hex_quantity("0x1z"), Err(HexError::InvalidDigits)));
}
