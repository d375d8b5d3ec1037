use pretxsim::inspector::TxTarget;
use pretxsim::primitives::{Addr, Word256};
use pretxsim::request::{
    approves, decode_transaction, forward_reply, gate, refusal, upstream_reply, GateAction, TxRequest, INTERNAL_ERROR,
};
use pretxsim::upstream::{
    account_fields, account_record, block_hash_from_reply, block_tag, code_from_reply, needs_code, slot_param, storage_from_reply,
};

fn empty_request() -> TxRequest {
    TxRequest { from: None, to: None, value: None, data: None, gas: None, gas_price: None, nonce: None }
}

fn s(text: &str) -> Option<String> {
    Some(text.to_string())
}

fn word(v: u64) -> Word256 {
    Word256 { limbs: [v, 0, 0, 0] }
}

#[test]
fn missing_fields_take_their_defaults() {
    let tx = decode_transaction(&empty_request());
    assert_eq!(tx.caller, Addr { bytes: [0x11; 20] });
    assert!(matches!(tx.target, TxTarget::Create));
    assert_eq!(tx.value, word(0));
    assert!(tx.data.is_empty());
    assert_eq!(tx.gas_limit, 21000);
    assert_eq!(tx.gas_price, word(1_000_000_000));
    assert_eq!(tx.nonce, 0);
    assert_eq!(tx.chain_id, 1);
}

#[test]
fn request_fields_are_read() {
    let req = TxRequest {
        from: s("0x90F79bf6EB2c4f870365E785982E1f101E93b906"),
        to: s("0x000000000000000000000000000000000000dEaD"),
        value: s("0xde0b6b3a7640000"),
        data: s("0xa9059cbb"),
        gas: s("0x7530"),
        gas_price: s("0x2540be400"),
        nonce: s("0x2a"),
    };
    let tx = decode_transaction(&req);
    assert_eq!(
        tx.caller.bytes,
        [0x90, 0xF7, 0x9b, 0xf6, 0xEB, 0x2c, 0x4f, 0x87, 0x03, 0x65, 0xE7, 0x85, 0x98, 0x2E, 0x1f, 0x10, 0x1E, 0x93, 0xb9, 0x06]
    );
    let mut dead = [0u8; 20];
    dead[18] = 0xde;
    dead[19] = 0xad;
    match tx.target {
        TxTarget::Call(a) => assert_eq!(a.bytes, dead),
        TxTarget::Create => panic!("expected a call"),
    }
    assert_eq!(tx.value, word(1_000_000_000_000_000_000));
    assert_eq!(tx.data, vec![0xa9, 0x05, 0x9c, 0xbb]);
    assert_eq!(tx.gas_limit, 30000);
    assert_eq!(tx.gas_price, word(10_000_000_000));
    assert_eq!(tx.nonce, 42);
}

#[test]
fn malformed_fields_fall_back() {
    let req = TxRequest {
        from: s("not an address"),
        to: s("0x1234"),
        value: s("0xzz"),
        data: s("0xabc"),
        gas: s("lots"),
        gas_price: s("0x"),
        nonce: s("-1"),
    };
    let tx = decode_transaction(&req);
    assert_eq!(tx.caller, Addr { bytes: [0x11; 20] });
    match tx.target {
        TxTarget::Call(a) => assert_eq!(a.bytes, [0u8; 20]),
        TxTarget::Create => panic!("a non-empty recipient is a call"),
    }
    assert_eq!(tx.value, word(0));
    assert!(tx.data.is_empty());
    assert_eq!(tx.gas_limit, 21000);
    // "0x" leaves no digits, which ruint reads as zero
    assert_eq!(tx.gas_price, word(0));
    assert_eq!(tx.nonce, 0);
}

#[test]
fn empty_recipient_is_a_creation() {
    let mut req = empty_request();
    req.to = s("");
    assert!(matches!(decode_transaction(&req).target, TxTarget::Create));
}

#[test]
fn value_beyond_64_bits_is_kept() {
    let mut req = empty_request();
    req.value = s("0x10000000000000001");
    assert_eq!(decode_transaction(&req).value, Word256 { limbs: [1, 1, 0, 0] });
}

#[test]
fn only_a_trimmed_y_approves() {
    for answer in ["y", "Y", " Y\n", "y\r\n", "\ty  "] {
        assert!(approves(answer), "answer {:?}", answer);
    }
    for answer in ["", "n", "N", "yes", "no", "yy", "\n", "x"] {
        assert!(!approves(answer), "answer {:?}", answer);
    }
}

#[test]
fn refusal_is_an_internal_error() {
    let err = refusal();
    assert_eq!(err.code, INTERNAL_ERROR);
    assert_eq!(err.code, -32603);
    assert_eq!(err.message, "Transaction aborted by user.");
}

#[test]
fn gate_forwards_only_on_yes() {
    assert!(matches!(gate(" y\n"), GateAction::Forward));
    match gate("n") {
        GateAction::Refuse(e) => {
            assert_eq!(e.code, -32603);
            assert_eq!(e.message, "Transaction aborted by user.");
        }
        GateAction::Forward => panic!("a refusal was forwarded"),
    }
    assert!(matches!(gate(""), GateAction::Refuse(_)));
}

#[test]
fn forwarded_transaction_answers_its_hash() {
    let hash = "0x5c504ed432cb51138bcf09aa5e8a410dd4a1e204ef84bfed1be16dfba1b22060";
    assert_eq!(forward_reply(Ok(s(hash))).unwrap(), hash);
    let err = forward_reply(Ok(None)).unwrap_err();
    assert_eq!(err.code, INTERNAL_ERROR);
    assert_eq!(err.message, "Upstream node returned no transaction hash.");
    let err = forward_reply(Err("connection refused".to_string())).unwrap_err();
    assert_eq!(err.code, -32603);
    assert_eq!(err.message, "connection refused");
}

#[test]
fn upstream_answers_are_passed_on() {
    assert_eq!(upstream_reply(Ok(s("0x1312d00"))).unwrap(), "0x1312d00");
    assert_eq!(upstream_reply(Ok(None)).unwrap(), "0x0");
    let err = upstream_reply(Err("connection refused".to_string())).unwrap_err();
    assert_eq!(err.code, -32603);
    assert_eq!(err.message, "connection refused");
}

#[test]
fn account_answer_is_read() {
    let hash_text = "0x6a8ff2e14ad2d0c1e5f3c2b9f7e35c9e23fe2a1b4dd0a7f5e0c0b1a2d3e4f501";
    let fields = account_fields(&s("0x1bc16d674ec80000"), &s("0x7"), &s(hash_text));
    assert_eq!(fields.balance, word(2_000_000_000_000_000_000));
    assert_eq!(fields.nonce, 7);
    assert_eq!(fields.code_hash.bytes[0], 0x6a);
    assert_eq!(fields.code_hash.bytes[31], 0x01);
    assert!(!fields.code_hash.is_zero());
}

#[test]
fn account_answer_defaults() {
    let fields = account_fields(&None, &None, &None);
    assert_eq!(fields.balance, word(0));
    assert_eq!(fields.nonce, 0);
    assert!(fields.code_hash.is_zero());
    let fields = account_fields(&s("junk"), &s("0xffffffffffffffffff"), &s("0x"));
    assert_eq!(fields.balance, word(0));
    assert_eq!(fields.nonce, 0);
    assert!(fields.code_hash.is_zero());
    let fields = account_fields(&s("0x10"), &s("10"), &s("0x12"));
    assert_eq!(fields.balance, word(16));
    assert_eq!(fields.nonce, 16);
    assert!(fields.code_hash.is_zero());
}

#[test]
fn code_is_fetched_only_for_a_nonzero_hash() {
    assert!(!needs_code(&account_fields(&None, &None, &None)));
    let hash = format!("0x{}", "ab".repeat(32));
    assert!(needs_code(&account_fields(&None, &None, &s(&hash))));
}

#[test]
fn code_answer_is_decoded() {
    assert_eq!(code_from_reply(&s("0x6080604052")), vec![0x60, 0x80, 0x60, 0x40, 0x52]);
    assert_eq!(code_from_reply(&s("0xEF0100")), vec![0xEF, 0x01, 0x00]);
    assert!(code_from_reply(&None).is_empty());
    assert!(code_from_reply(&s("0x123")).is_empty());
    assert!(code_from_reply(&s("0xzz")).is_empty());
}

#[test]
fn storage_and_block_answers_are_read() {
    assert_eq!(storage_from_reply(&s("0x0000000000000000000000000000000000000000000000000000000000000020")), word(32));
    assert_eq!(storage_from_reply(&None), word(0));
    let h = block_hash_from_reply(&s("0x00000000000000000000000000000000000000000000000000000000000000ff"));
    assert_eq!(h.bytes[31], 0xff);
    assert!(block_hash_from_reply(&s("0xabc")).is_zero());
    assert!(block_hash_from_reply(&None).is_zero());
}

#[test]
fn query_parameters_are_written_as_quantities() {
    assert_eq!(block_tag(0), "0x0");
    assert_eq!(block_tag(20_000_000), "0x1312d00");
    assert_eq!(slot_param(&word(0)), "0x0");
    assert_eq!(slot_param(&word(255)), "0xff");
    assert_eq!(slot_param(&Word256 { limbs: [0, 0, 0, 1] }), format!("0x1{}", "0".repeat(48)));
}

#[test]
fn account_code_hash_is_the_digest_of_its_code() {
    let fields = account_fields(&s("0x5"), &s("0x1"), &s("0x12"));
    let empty = account_record(&fields, vec![]);
    assert_eq!(empty.balance, word(5));
    assert_eq!(empty.nonce, 1);
    assert!(empty.code.is_empty());
    assert_eq!(empty.code_hash.bytes, revm::primitives::KECCAK_EMPTY.0);
    let code = vec![0x60, 0x80, 0x60, 0x40, 0x52];
    let record = account_record(&fields, code.clone());
    assert_eq!(record.code, code);
    assert_eq!(record.code_hash.bytes, revm::primitives::keccak256(&code).0);
    assert_ne!(record.code_hash.bytes, empty.code_hash.bytes);
}
