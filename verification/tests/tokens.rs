use pretxsim::inspector::{call_key, transfers_of, AllowanceKey, AllowanceReading, RiskInspector, TxTarget};
use pretxsim::primitives::{Addr, Hash32, Word256};
use pretxsim::upstream::allowance_call_data;

const TRANSFER: &str = "ddf252ad1be2c89b69c2b068fc378daa952ba7f163c4a11628f55a4df523b3ef";
const APPROVAL: &str = "8c5be1e5ebec7d5bd14f71427d1e84f3dd0314c0f7b2291e5b200ac8c7c3b925";
const TRANSFER_SINGLE: &str = "c3d58168c5ae7397731d063d5bbf3d657854427343f4c083240f7aacaa2d0f62";
const TRANSFER_BATCH: &str = "4a39dc06d4c0dbc64b70af90fd698a233a518aa5d07e595d983b8c0526c8f7fb";

fn addr(b: u8) -> Addr {
    Addr { bytes: [b; 20] }
}

fn word(v: u64) -> Word256 {
    Word256 { limbs: [v, 0, 0, 0] }
}

fn topic(hex_text: &str) -> Hash32 {
    let bytes = hex::decode(hex_text).unwrap();
    let mut out = [0u8; 32];
    out.copy_from_slice(&bytes);
    Hash32 { bytes: out }
}

fn address_topic(a: Addr) -> Hash32 {
    let mut out = [0u8; 32];
    out[12..].copy_from_slice(&a.bytes);
    Hash32 { bytes: out }
}

fn number_word(v: u64) -> [u8; 32] {
    let mut out = [0u8; 32];
    out[24..].copy_from_slice(&v.to_be_bytes());
    out
}

fn text_of(b: u8) -> String {
    format!("0x{}", format!("{:02x}", b).repeat(20))
}

fn approval_log(inspector: &mut RiskInspector, token: Addr, owner: Addr, spender: Addr, value: u64) {
    let topics = vec![topic(APPROVAL), address_topic(owner), address_topic(spender)];
    inspector.log(&token, &topics, &number_word(value));
}

fn key(token: u8, owner: u8, spender: u8) -> AllowanceKey {
    AllowanceKey { token: addr(token), owner: addr(owner), spender: addr(spender) }
}

fn reading(k: AllowanceKey, before: u64, after: u64) -> AllowanceReading {
    AllowanceReading { key: k, before: word(before), after: word(after) }
}

fn call_data(selector: [u8; 4], args: &[[u8; 32]]) -> Vec<u8> {
    let mut data = selector.to_vec();
    for a in args {
        data.extend_from_slice(a);
    }
    data
}

fn address_word(a: Addr) -> [u8; 32] {
    address_topic(a).bytes
}

fn capture(inspector: &mut RiskInspector, readings: &Vec<AllowanceReading>) {
    inspector.capture_post_state(&addr(0), &TxTarget::Create, None, None, readings);
}

#[test]
fn erc20_transfer_is_reported() {
    let mut inspector = RiskInspector::default();
    let topics = vec![topic(TRANSFER), address_topic(addr(1)), address_topic(addr(2))];
    inspector.log(&addr(9), &topics, &number_word(1_000_000));
    let report = inspector.report();
    assert_eq!(report.logs_emitted.len(), 1);
    assert_eq!(report.token_transfers.len(), 1);
    let t = &report.token_transfers[0];
    assert_eq!(t.token, text_of(9));
    assert_eq!(t.from, text_of(1));
    assert_eq!(t.to, text_of(2));
    assert_eq!(t.value, "1000000");
    assert_eq!(t.token_type, "ERC20");
}

#[test]
fn erc721_transfer_is_reported_with_its_token_id() {
    let topics = vec![topic(TRANSFER), address_topic(addr(1)), address_topic(addr(2)), Hash32 { bytes: number_word(42) }];
    let transfers = transfers_of(&addr(7), &topics, &[]);
    assert_eq!(transfers.len(), 1);
    assert_eq!(transfers[0].value, "42");
    assert_eq!(transfers[0].token_type, "ERC721");
    assert_eq!(transfers[0].to, text_of(2));
}

#[test]
fn erc1155_single_transfer_reports_the_amount() {
    let topics = vec![topic(TRANSFER_SINGLE), address_topic(addr(3)), address_topic(addr(1)), address_topic(addr(2))];
    let mut data = number_word(5).to_vec();
    data.extend_from_slice(&number_word(300));
    let transfers = transfers_of(&addr(7), &topics, &data);
    assert_eq!(transfers.len(), 1);
    assert_eq!(transfers[0].from, text_of(1));
    assert_eq!(transfers[0].to, text_of(2));
    assert_eq!(transfers[0].value, "300");
    assert_eq!(transfers[0].token_type, "ERC1155");
}

#[test]
fn erc1155_batch_reports_each_amount() {
    let topics = vec![topic(TRANSFER_BATCH), address_topic(addr(3)), address_topic(addr(1)), address_topic(addr(2))];
    let mut data = Vec::new();
    for v in [64u64, 160, 2, 10, 11, 2, 7, 8] {
        data.extend_from_slice(&number_word(v));
    }
    let transfers = transfers_of(&addr(7), &topics, &data);
    assert_eq!(transfers.len(), 2);
    assert_eq!(transfers[0].value, "7");
    assert_eq!(transfers[1].value, "8");
    assert_eq!(transfers[1].from, text_of(1));
    assert_eq!(transfers[1].token_type, "ERC1155");
}

#[test]
fn erc1155_batch_with_uneven_arrays_reports_nothing() {
    let topics = vec![topic(TRANSFER_BATCH), address_topic(addr(3)), address_topic(addr(1)), address_topic(addr(2))];
    let mut data = Vec::new();
    for v in [64u64, 128, 1, 10, 2, 7, 8] {
        data.extend_from_slice(&number_word(v));
    }
    assert!(transfers_of(&addr(7), &topics, &data).is_empty());
    assert!(transfers_of(&addr(7), &topics, &data[..100]).is_empty());
}

#[test]
fn other_logs_are_not_transfers() {
    let topics = vec![topic(APPROVAL), address_topic(addr(1)), address_topic(addr(2))];
    assert!(transfers_of(&addr(7), &topics, &number_word(1)).is_empty());
    let short = vec![topic(TRANSFER), address_topic(addr(1))];
    assert!(transfers_of(&addr(7), &short, &number_word(1)).is_empty());
    assert!(transfers_of(&addr(7), &vec![], &[]).is_empty());
    let topics = vec![topic(TRANSFER), address_topic(addr(1)), address_topic(addr(2))];
    assert!(transfers_of(&addr(7), &topics, &[0u8; 31]).is_empty());
}

#[test]
fn approved_allowance_is_reported_with_its_readings() {
    let mut inspector = RiskInspector::default();
    approval_log(&mut inspector, addr(9), addr(1), addr(2), 500);
    assert_eq!(inspector.report().allowance_changes.len(), 0);
    capture(&mut inspector, &vec![reading(key(9, 1, 2), 200, 500)]);
    let changes = &inspector.report().allowance_changes;
    assert_eq!(changes.len(), 1);
    assert_eq!(changes[0].token, text_of(9));
    assert_eq!(changes[0].owner, text_of(1));
    assert_eq!(changes[0].spender, text_of(2));
    assert_eq!(changes[0].pre_allowance, "200");
    assert_eq!(changes[0].post_allowance, "500");
    assert_eq!(changes[0].delta, "+300");
    assert!(inspector.allowance_keys().is_empty());
}

#[test]
fn transfer_from_without_approval_log_is_reported() {
    let mut inspector = RiskInspector::default();
    let input = call_data([0x23, 0xb8, 0x72, 0xdd], &[address_word(addr(1)), address_word(addr(5)), number_word(40)]);
    inspector.call(&addr(2), &addr(9), &input);
    let keys = inspector.allowance_keys();
    assert_eq!(keys.len(), 1);
    assert_eq!(keys[0].token, addr(9));
    assert_eq!(keys[0].owner, addr(1));
    assert_eq!(keys[0].spender, addr(2));
    capture(&mut inspector, &vec![reading(key(9, 1, 2), 100, 60)]);
    let changes = &inspector.report().allowance_changes;
    assert_eq!(changes.len(), 1);
    assert_eq!(changes[0].pre_allowance, "100");
    assert_eq!(changes[0].post_allowance, "60");
    assert_eq!(changes[0].delta, "-40");
}

#[test]
fn approve_then_spend_reports_the_value_after() {
    let mut inspector = RiskInspector::default();
    let approve = call_data([0x09, 0x5e, 0xa7, 0xb3], &[address_word(addr(2)), number_word(500)]);
    inspector.call(&addr(1), &addr(9), &approve);
    approval_log(&mut inspector, addr(9), addr(1), addr(2), 500);
    let spend = call_data([0x23, 0xb8, 0x72, 0xdd], &[address_word(addr(1)), address_word(addr(5)), number_word(300)]);
    inspector.call(&addr(2), &addr(9), &spend);
    assert_eq!(inspector.allowance_keys().len(), 1);
    capture(&mut inspector, &vec![reading(key(9, 1, 2), 0, 200)]);
    let changes = &inspector.report().allowance_changes;
    assert_eq!(changes.len(), 1);
    assert_eq!(changes[0].post_allowance, "200");
    assert_eq!(changes[0].delta, "+200");
}

#[test]
fn allowance_calls_name_the_right_allowance() {
    let caller = addr(1);
    let token = addr(9);
    let arg = address_word(addr(2));
    for selector in [[0x09, 0x5e, 0xa7, 0xb3], [0x39, 0x50, 0x93, 0x51], [0xa4, 0x57, 0xc2, 0xd7]] {
        let k = call_key(&caller, &token, &call_data(selector, &[arg, number_word(1)])).unwrap();
        assert_eq!((k.token, k.owner, k.spender), (addr(9), addr(1), addr(2)));
    }
    let mut permit_args = vec![address_word(addr(3)), address_word(addr(4))];
    permit_args.extend([number_word(0); 5]);
    let k = call_key(&caller, &token, &call_data([0xd5, 0x05, 0xac, 0xcf], &permit_args)).unwrap();
    assert_eq!((k.owner, k.spender), (addr(3), addr(4)));
    let short = call_data([0x23, 0xb8, 0x72, 0xdd], &[address_word(addr(1)), address_word(addr(5))]);
    assert!(call_key(&caller, &token, &short).is_none());
    let transfer = call_data([0xa9, 0x05, 0x9c, 0xbb], &[arg, number_word(1)]);
    assert!(call_key(&caller, &token, &transfer).is_none());
    assert!(call_key(&caller, &token, &[0x09, 0x5e]).is_none());
}

#[test]
fn unread_allowance_is_not_compared() {
    let mut inspector = RiskInspector::default();
    approval_log(&mut inspector, addr(9), addr(1), addr(2), 77);
    capture(&mut inspector, &vec![reading(key(8, 1, 2), 0, 5)]);
    assert!(inspector.report().allowance_changes.is_empty());
}

#[test]
fn revoked_allowance_has_a_negative_delta() {
    let mut inspector = RiskInspector::default();
    approval_log(&mut inspector, addr(9), addr(1), addr(2), 0);
    capture(&mut inspector, &vec![reading(key(9, 1, 2), 40, 0)]);
    assert_eq!(inspector.report().allowance_changes[0].delta, "-40");
}

#[test]
fn unchanged_allowance_is_not_reported() {
    let mut inspector = RiskInspector::default();
    approval_log(&mut inspector, addr(9), addr(1), addr(2), 200);
    capture(&mut inspector, &vec![reading(key(9, 1, 2), 200, 200)]);
    assert!(inspector.report().allowance_changes.is_empty());
}

#[test]
fn touched_allowances_are_kept_once_in_order() {
    let mut inspector = RiskInspector::default();
    approval_log(&mut inspector, addr(9), addr(1), addr(2), 10);
    approval_log(&mut inspector, addr(9), addr(1), addr(3), 20);
    approval_log(&mut inspector, addr(9), addr(1), addr(2), 30);
    let noted = inspector.allowance_keys();
    assert_eq!(noted.len(), 2);
    assert_eq!(noted[0].spender, addr(2));
    assert_eq!(noted[1].spender, addr(3));
    let readings = vec![reading(key(9, 1, 3), 0, 20), reading(key(9, 1, 2), 5, 5), reading(key(9, 1, 2), 0, 30)];
    capture(&mut inspector, &readings);
    let changes = &inspector.report().allowance_changes;
    assert_eq!(changes.len(), 2);
    assert_eq!(changes[0].spender, text_of(2));
    assert_eq!(changes[0].post_allowance, "30");
    assert_eq!(changes[1].spender, text_of(3));
    assert_eq!(changes[1].post_allowance, "20");
}

#[test]
fn allowance_query_encodes_both_addresses() {
    let data = allowance_call_data(&addr(0x11), &addr(0x22));
    assert_eq!(data.len(), 68);
    assert_eq!(&data[..4], &[0xdd, 0x62, 0xed, 0x3e]);
    assert_eq!(&data[4..16], &[0u8; 12]);
    assert_eq!(&data[16..36], &[0x11u8; 20]);
    assert_eq!(&data[36..48], &[0u8; 12]);
    assert_eq!(&data[48..68], &[0x22u8; 20]);
}
