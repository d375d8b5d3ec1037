use std::str::FromStr;

use pretxsim::inspector::parse_delegation_designator;
use pretxsim::primitives::Addr;
use revm::primitives::Address;

const DELEGATEE: &str = "0x90F79bf6EB2c4f870365E785982E1f101E93b906";

fn delegatee() -> Addr {
    Addr { bytes: Address::from_str(DELEGATEE).unwrap().into_array() }
}

fn designator_bytes(delegatee: Addr) -> Vec<u8> {
    let mut v = vec![0xEF, 0x01, 0x00];
    v.extend_from_slice(&delegatee.bytes);
    v
}

#[test]
fn parses_valid_designator() {
    let delegatee = delegatee();
    let code = designator_bytes(delegatee);
    assert_eq!(code.len(), 23);
    assert_eq!(parse_delegation_designator(&code), Some(delegatee));
}

#[test]
fn rejects_short_input() {
    let delegatee = delegatee();
    let mut code = designator_bytes(delegatee);
    code.pop(); // 22 bytes: one short
    assert_eq!(parse_delegation_designator(&code), None);
    assert_eq!(parse_delegation_designator(&[0xEF, 0x01]), None);
    assert_eq!(parse_delegation_designator(&[]), None);
}

#[test]
fn rejects_wrong_prefix() {
    let delegatee = delegatee();
    let mut code = designator_bytes(delegatee);
    code[0] = 0xEF;
    code[1] = 0x02; // EF02: not a designator
    assert_eq!(parse_delegation_designator(&code), None);

    // Regular contract code starting with 0x60 (PUSH1) must not match.
    let contract = vec![0x60, 0x80, 0x60, 0x40, 0x52];
    assert_eq!(parse_delegation_designator(&contract), None);
}

#[test]
fn accepts_exactly_23_bytes_and_nothing_shorter() {
    let delegatee = delegatee();
    let code = designator_bytes(delegatee);
    for n in 0..=23usize {
        let truncated = &code[..n];
        let expected = if n == 23 { Some(delegatee) } else { None };
        assert_eq!(parse_delegation_designator(truncated), expected, "failed at len={}", n);
    }
}

#[test]
fn designator_followed_by_more_bytes_is_rejected() {
    let mut code = designator_bytes(delegatee());
    code.push(0xAA);
    assert_eq!(code.len(), 24);
    assert_eq!(parse_delegation_designator(&code), None);
    code.push(0xBB);
    assert_eq!(parse_delegation_designator(&code), None);
}

#[test]
fn designator_with_wrong_third_byte_is_rejected() {
    let mut code = designator_bytes(delegatee());
    code[2] = 0x01;
    assert_eq!(parse_delegation_designator(&code), None);
}
