use pretxsim::agent::{agent_advice, agent_endpoint, agent_model, agent_prompt};
use pretxsim::inspector::{AccountSnapshot, RiskInspector, TxTarget};
use pretxsim::primitives::{Addr, Hash32, Word256};
use pretxsim::request::{
    decode_transaction, simulation_block, simulation_failed, task_join_failed, TxRequest, INTERNAL_ERROR,
};
use pretxsim::upstream::{account_fields, block_hash_from_reply, block_tag, slot_param, storage_from_reply};

fn request_from(sender: &str) -> TxRequest {
    TxRequest {
        from: Some(sender.to_string()),
        to: None,
        value: None,
        data: None,
        gas: None,
        gas_price: None,
        nonce: None,
    }
}

#[test]
fn rendered_address_reads_back() {
    let mut inspector = RiskInspector::default();
    let mut emitter = Addr { bytes: [0u8; 20] };
    for (i, b) in emitter.bytes.iter_mut().enumerate() {
        *b = (i as u8) * 13 + 7;
    }
    let topic = Hash32 { bytes: [0xC3; 32] };
    inspector.log(&emitter, &vec![topic], &[]);
    let rendered = inspector.report().logs_emitted[0].address.clone();
    assert_eq!(rendered.len(), 42);
    assert_eq!(decode_transaction(&request_from(&rendered)).caller, emitter);
    let rendered_topic = inspector.report().logs_emitted[0].topics[0].clone();
    assert_eq!(block_hash_from_reply(&Some(rendered_topic)), topic);
}

#[test]
fn written_quantities_read_back() {
    for n in [0u64, 1, 15, 16, 255, 20_000_000, u64::MAX] {
        let tag = block_tag(n);
        let fields = account_fields(&Some(tag.clone()), &Some(tag), &None);
        assert_eq!(fields.nonce, n);
        assert_eq!(fields.balance, Word256 { limbs: [n, 0, 0, 0] });
    }
    let big = Word256 { limbs: [5, 6, 7, u64::MAX] };
    assert_eq!(storage_from_reply(&Some(slot_param(&big))), big);
}

#[test]
fn findings_only_grow() {
    let mut inspector = RiskInspector::default();
    let a = Addr { bytes: [1; 20] };
    let b = Addr { bytes: [2; 20] };
    let acc = |balance: u64, code: u8| AccountSnapshot {
        balance: Word256 { limbs: [balance, 0, 0, 0] },
        code_hash: Hash32 { bytes: [code; 32] },
    };
    let mut designator = vec![0xEF, 0x01, 0x00];
    designator.extend_from_slice(&[9u8; 20]);
    inspector.initialize_interp(&a, &TxTarget::Call(b), Some(acc(50, 0)), Some(acc(0, 4)), Some(designator));
    let after_load = inspector.report().clone();
    inspector.step(0xF4);
    inspector.log(&b, &vec![], &[1, 2]);
    inspector.capture_post_state(&a, &TxTarget::Call(b), Some(acc(40, 0)), Some(acc(10, 4)), &vec![]);
    inspector.detect_delegations(&TxTarget::Call(b), Some(acc(10, 5)), None);
    let end = inspector.report();
    assert_eq!(end.delegation_changes.len(), 2);
    assert_eq!(end.delegation_changes[0].address, after_load.delegation_changes[0].address);
    assert_eq!(end.delegation_changes[0].delegated_to, after_load.delegation_changes[0].delegated_to);
    assert_eq!(end.balance_changes.len(), 2);
    assert_eq!(end.logs_emitted.len(), 1);
    assert_eq!(end.delegatecalls_detected, 1);
    assert!(end.token_transfers.is_empty());
    assert!(end.allowance_changes.is_empty());
    assert!(end.storage_diffs.is_empty());
    assert_eq!(end.eth_transferred_wei, "");
}

#[test]
fn simulation_settings() {
    let block = simulation_block();
    assert_eq!(block.number, 20_000_000);
    assert_eq!(block.timestamp, 1_700_000_000);
    assert_eq!(block.gas_limit, 30_000_000);
    assert_eq!(block.chain_id, 1);
}

#[test]
fn failures_are_internal_errors() {
    let e = simulation_failed("out of gas");
    assert_eq!(e.code, INTERNAL_ERROR);
    assert_eq!(e.message, "Simulation failed: out of gas");
    let e = task_join_failed("task panicked");
    assert_eq!(e.code, -32603);
    assert_eq!(e.message, "Task join error: task panicked");
}

#[test]
fn agent_prompt_wraps_the_analysis() {
    let prompt = agent_prompt("{\"delegatecalls_detected\": 1}");
    assert_eq!(
        prompt,
        "You are an EVM security agent. Analyze this transaction pre-execution structural analysis:\n{\"delegatecalls_detected\": 1}\nBriefly assess risk and give a PASS or WARN recommendation."
    );
    assert_eq!(agent_model(), "smollm2:135m");
    assert_eq!(agent_endpoint(), "http://localhost:11434/api/generate");
}

#[test]
fn agent_advice_follows_the_answer() {
    assert_eq!(agent_advice(true, Some("PASS".to_string())), "PASS");
    assert_eq!(agent_advice(true, None), "No response generated.");
    assert_eq!(
        agent_advice(false, Some("PASS".to_string())),
        "Local LLM model smollm2:135m unavailable or Ollama offline."
    );
}
