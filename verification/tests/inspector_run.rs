use pretxsim::inspector::{AccountSnapshot, RiskInspector, TxTarget};
use pretxsim::primitives::{Addr, Hash32, Word256};

fn addr(b: u8) -> Addr {
    Addr { bytes: [b; 20] }
}

fn hash(b: u8) -> Hash32 {
    Hash32 { bytes: [b; 32] }
}

fn word(v: u64) -> Word256 {
    Word256 { limbs: [v, 0, 0, 0] }
}

fn account(balance: u64, code: u8) -> AccountSnapshot {
    AccountSnapshot { balance: word(balance), code_hash: hash(code) }
}

fn text_of(b: u8, n: usize) -> String {
    let mut s = String::from("0x");
    for _ in 0..n {
        s.push_str(&format!("{:02x}", b));
    }
    s
}

fn designator(delegate: u8) -> Vec<u8> {
    let mut v = vec![0xEF, 0x01, 0x00];
    v.extend_from_slice(&[delegate; 20]);
    v
}

#[test]
fn fresh_inspector_reports_nothing() {
    let inspector = RiskInspector::default();
    let a = inspector.report();
    assert_eq!(a.delegatecalls_detected, 0);
    assert_eq!(a.storage_slots_written, 0);
    assert!(!a.selfdestruct_triggered);
    assert_eq!(a.eth_transferred_wei, "");
    assert!(a.balance_changes.is_empty());
    assert!(a.allowance_changes.is_empty());
    assert!(a.token_transfers.is_empty());
    assert!(a.delegation_changes.is_empty());
    assert!(a.storage_diffs.is_empty());
    assert!(a.logs_emitted.is_empty());
}

#[test]
fn opcodes_are_counted() {
    let mut inspector = RiskInspector::default();
    for op in [0xF4u8, 0x55, 0x00, 0xF4, 0x60, 0x55, 0x55, 0xF1] {
        inspector.step(op);
    }
    assert_eq!(inspector.report().delegatecalls_detected, 2);
    assert_eq!(inspector.report().storage_slots_written, 3);
    assert!(!inspector.report().selfdestruct_triggered);
    inspector.step(0xFF);
    assert!(inspector.report().selfdestruct_triggered);
    inspector.step(0x00);
    assert!(inspector.report().selfdestruct_triggered);
}

#[test]
fn logs_are_rendered_in_lowercase_hex() {
    let mut inspector = RiskInspector::default();
    let mut emitter = addr(0);
    emitter.bytes[0] = 0xAB;
    emitter.bytes[19] = 0x0C;
    inspector.log(&emitter, &vec![hash(0xDD), hash(0x01)], &[0xCA, 0xFE, 0x00]);
    inspector.log(&addr(0x10), &vec![], &[]);
    let logs = &inspector.report().logs_emitted;
    assert_eq!(logs.len(), 2);
    assert_eq!(logs[0].address, "0xab0000000000000000000000000000000000000c");
    assert_eq!(logs[0].topics, vec![text_of(0xDD, 32), text_of(0x01, 32)]);
    assert_eq!(logs[0].data, "0xcafe00");
    assert_eq!(logs[1].address, text_of(0x10, 20));
    assert!(logs[1].topics.is_empty());
    assert_eq!(logs[1].data, "0x");
}

#[test]
fn delegated_recipient_is_flagged_at_load() {
    let mut inspector = RiskInspector::default();
    inspector.initialize_interp(
        &addr(1),
        &TxTarget::Call(addr(2)),
        Some(account(10, 0)),
        Some(account(20, 0x77)),
        Some(designator(0x90)),
    );
    let changes = &inspector.report().delegation_changes;
    assert_eq!(changes.len(), 1);
    assert_eq!(changes[0].address, text_of(2, 20));
    assert_eq!(changes[0].old_code_hash, None);
    assert_eq!(changes[0].new_code_hash, Some(text_of(0x77, 32)));
    assert_eq!(changes[0].delegated_to, Some(text_of(0x90, 20)));
    assert_eq!(inspector.pre_code_hash(&addr(2)), Some(hash(0x77)));
}

#[test]
fn plain_contract_recipient_is_not_flagged() {
    let mut inspector = RiskInspector::default();
    inspector.initialize_interp(
        &addr(1),
        &TxTarget::Call(addr(2)),
        Some(account(10, 0)),
        Some(account(20, 0x77)),
        Some(vec![0x60, 0x80, 0x60, 0x40, 0x52]),
    );
    assert!(inspector.report().delegation_changes.is_empty());
    assert_eq!(inspector.pre_code_hash(&addr(2)), Some(hash(0x77)));
}

#[test]
fn creation_and_zero_recipient_are_not_loaded() {
    let mut inspector = RiskInspector::default();
    inspector.initialize_interp(&addr(1), &TxTarget::Create, Some(account(10, 0)), None, None);
    inspector.initialize_interp(
        &addr(1),
        &TxTarget::Call(addr(0)),
        Some(account(10, 0)),
        Some(account(20, 5)),
        Some(designator(3)),
    );
    assert!(inspector.report().delegation_changes.is_empty());
    assert_eq!(inspector.pre_code_hash(&addr(0)), None);
}

#[test]
fn balance_changes_carry_sign_and_size() {
    let mut inspector = RiskInspector::default();
    inspector.initialize_interp(
        &addr(1),
        &TxTarget::Call(addr(2)),
        Some(account(1000, 0)),
        Some(account(5, 0)),
        None,
    );
    inspector.capture_post_state(&addr(1), &TxTarget::Call(addr(2)), Some(account(958, 0)), Some(account(47, 0)), &vec![]);
    let changes = &inspector.report().balance_changes;
    assert_eq!(changes.len(), 2);
    assert_eq!(changes[0].address, text_of(1, 20));
    assert_eq!(changes[0].pre_balance, "1000");
    assert_eq!(changes[0].post_balance, "958");
    assert_eq!(changes[0].delta, "-42");
    assert_eq!(changes[1].address, text_of(2, 20));
    assert_eq!(changes[1].pre_balance, "5");
    assert_eq!(changes[1].post_balance, "47");
    assert_eq!(changes[1].delta, "+42");
}

#[test]
fn unchanged_balance_is_not_reported() {
    let mut inspector = RiskInspector::default();
    inspector.initialize_interp(&addr(1), &TxTarget::Create, Some(account(7, 0)), None, None);
    inspector.capture_post_state(&addr(1), &TxTarget::Create, Some(account(7, 0)), None, &vec![]);
    assert!(inspector.report().balance_changes.is_empty());
}

#[test]
fn unseen_start_balance_counts_as_zero() {
    let mut inspector = RiskInspector::default();
    inspector.capture_post_state(&addr(3), &TxTarget::Create, Some(account(12, 0)), None, &vec![]);
    let changes = &inspector.report().balance_changes;
    assert_eq!(changes.len(), 1);
    assert_eq!(changes[0].pre_balance, "0");
    assert_eq!(changes[0].post_balance, "12");
    assert_eq!(changes[0].delta, "+12");
}

#[test]
fn self_transfer_uses_the_start_balance_once() {
    let mut inspector = RiskInspector::default();
    inspector.initialize_interp(
        &addr(4),
        &TxTarget::Call(addr(4)),
        Some(account(100, 0)),
        Some(account(100, 0)),
        None,
    );
    inspector.capture_post_state(&addr(4), &TxTarget::Call(addr(4)), Some(account(90, 0)), Some(account(90, 0)), &vec![]);
    let changes = &inspector.report().balance_changes;
    assert_eq!(changes.len(), 1);
    assert_eq!(changes[0].pre_balance, "100");
    assert_eq!(changes[0].post_balance, "90");
    assert_eq!(changes[0].delta, "-10");
}

#[test]
fn self_transfer_with_unchanged_balance_reports_nothing() {
    let mut inspector = RiskInspector::default();
    inspector.initialize_interp(
        &addr(4),
        &TxTarget::Call(addr(4)),
        Some(account(100, 0)),
        Some(account(100, 0)),
        None,
    );
    inspector.capture_post_state(&addr(4), &TxTarget::Call(addr(4)), Some(account(100, 0)), Some(account(100, 0)), &vec![]);
    assert!(inspector.report().balance_changes.is_empty());
}

#[test]
fn zero_address_balance_is_skipped() {
    let mut inspector = RiskInspector::default();
    inspector.capture_post_state(&addr(0), &TxTarget::Call(addr(0)), Some(account(5, 0)), Some(account(5, 0)), &vec![]);
    assert!(inspector.report().balance_changes.is_empty());
}

#[test]
fn large_balances_are_written_in_full() {
    let mut inspector = RiskInspector::default();
    let big = Word256 { limbs: [0, 1, 0, 0] }; // 2^64
    inspector.initialize_interp(&addr(1), &TxTarget::Create, Some(AccountSnapshot { balance: big, code_hash: hash(0) }), None, None);
    inspector.capture_post_state(&addr(1), &TxTarget::Create, Some(account(1, 0)), None, &vec![]);
    let change = &inspector.report().balance_changes[0];
    assert_eq!(change.pre_balance, "18446744073709551616");
    assert_eq!(change.post_balance, "1");
    assert_eq!(change.delta, "-18446744073709551615");
}

#[test]
fn changed_code_hash_is_reported_with_delegate() {
    let mut inspector = RiskInspector::default();
    inspector.initialize_interp(&addr(1), &TxTarget::Call(addr(2)), None, Some(account(0, 0x11)), Some(vec![0x00]));
    inspector.detect_delegations(&TxTarget::Call(addr(2)), Some(account(0, 0x22)), Some(designator(0x33)));
    let changes = &inspector.report().delegation_changes;
    assert_eq!(changes.len(), 1);
    assert_eq!(changes[0].address, text_of(2, 20));
    assert_eq!(changes[0].old_code_hash, Some(text_of(0x11, 32)));
    assert_eq!(changes[0].new_code_hash, Some(text_of(0x22, 32)));
    assert_eq!(changes[0].delegated_to, Some(text_of(0x33, 20)));
}

#[test]
fn changed_code_hash_without_designator_has_no_delegate() {
    let mut inspector = RiskInspector::default();
    inspector.initialize_interp(&addr(1), &TxTarget::Call(addr(2)), None, Some(account(0, 0x11)), None);
    inspector.detect_delegations(&TxTarget::Call(addr(2)), Some(account(0, 0x22)), None);
    let changes = &inspector.report().delegation_changes;
    assert_eq!(changes.len(), 1);
    assert_eq!(changes[0].delegated_to, None);
}

#[test]
fn unchanged_code_hash_is_not_reported_again() {
    let mut inspector = RiskInspector::default();
    inspector.initialize_interp(&addr(1), &TxTarget::Call(addr(2)), None, Some(account(0, 0x11)), Some(designator(9)));
    assert_eq!(inspector.report().delegation_changes.len(), 1);
    inspector.step(0x55);
    inspector.detect_delegations(&TxTarget::Call(addr(2)), Some(account(0, 0x11)), Some(designator(9)));
    assert_eq!(inspector.report().delegation_changes.len(), 1);
}

#[test]
fn creation_or_unseen_recipient_is_not_compared() {
    let mut inspector = RiskInspector::default();
    inspector.detect_delegations(&TxTarget::Create, Some(account(0, 1)), None);
    inspector.detect_delegations(&TxTarget::Call(addr(5)), Some(account(0, 1)), None);
    inspector.detect_delegations(&TxTarget::Call(addr(5)), None, None);
    assert!(inspector.report().delegation_changes.is_empty());
}
