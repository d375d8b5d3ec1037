//! The risk inspector: what it records about a transaction while the EVM runs
//! it, and the report it builds.

use vstd::prelude::*;
use vstd::string::StringExecFns;
use crate::primitives::{Addr, Hash32, Word256};
use crate::render::{
    decimal, encode_hex, format_address, format_decimal, format_hash, prefixed_hex,
};
use crate::table::AddrTable;
use crate::abi::{
    abi_array, be_value, read_abi_array, topic_address, word_address, word_at, word_from_be, word_value,
};

verus! {

// ---------------------------------------------------------------------------
// The report
// ---------------------------------------------------------------------------

/// An account whose balance differs before and after the transaction.
#[derive(Clone, Debug)]
pub struct BalanceChange {
    pub address: String,
    pub pre_balance: String,
    pub post_balance: String,
    pub delta: String,
}

pub struct BalanceChangeView {
    pub address: Seq<char>,
    pub pre_balance: Seq<char>,
    pub post_balance: Seq<char>,
    pub delta: Seq<char>,
}

impl View for BalanceChange {
    type V = BalanceChangeView;

    open spec fn view(&self) -> BalanceChangeView {
        BalanceChangeView {
            address: self.address@,
            pre_balance: self.pre_balance@,
            post_balance: self.post_balance@,
            delta: self.delta@,
        }
    }
}

impl Default for BalanceChange {
    fn default() -> (res: Self)
        ensures
            res.address@ == Seq::<char>::empty(),
            res.pre_balance@ == Seq::<char>::empty(),
            res.post_balance@ == Seq::<char>::empty(),
            res.delta@ == Seq::<char>::empty(),
    {
        BalanceChange {
            address: String::new(),
            pre_balance: String::new(),
            post_balance: String::new(),
            delta: String::new(),
        }
    }
}

/// A change of an ERC-20 allowance.
#[derive(Clone, Debug)]
pub struct AllowanceChange {
    pub owner: String,
    pub spender: String,
    pub token: String,
    pub pre_allowance: String,
    pub post_allowance: String,
    pub delta: String,
}

pub struct AllowanceChangeView {
    pub owner: Seq<char>,
    pub spender: Seq<char>,
    pub token: Seq<char>,
    pub pre_allowance: Seq<char>,
    pub post_allowance: Seq<char>,
    pub delta: Seq<char>,
}

impl View for AllowanceChange {
    type V = AllowanceChangeView;

    open spec fn view(&self) -> AllowanceChangeView {
        AllowanceChangeView {
            owner: self.owner@,
            spender: self.spender@,
            token: self.token@,
            pre_allowance: self.pre_allowance@,
            post_allowance: self.post_allowance@,
            delta: self.delta@,
        }
    }
}

impl Default for AllowanceChange {
    fn default() -> (res: Self)
        ensures
            res.owner@ == Seq::<char>::empty(),
            res.spender@ == Seq::<char>::empty(),
            res.token@ == Seq::<char>::empty(),
            res.pre_allowance@ == Seq::<char>::empty(),
            res.post_allowance@ == Seq::<char>::empty(),
            res.delta@ == Seq::<char>::empty(),
    {
        AllowanceChange {
            owner: String::new(),
            spender: String::new(),
            token: String::new(),
            pre_allowance: String::new(),
            post_allowance: String::new(),
            delta: String::new(),
        }
    }
}

/// A token transfer seen in the transaction.
#[derive(Clone, Debug)]
pub struct TokenTransfer {
    pub token: String,
    pub from: String,
    pub to: String,
    pub value: String,
    pub token_type: String,
}

pub struct TokenTransferView {
    pub token: Seq<char>,
    pub from: Seq<char>,
    pub to: Seq<char>,
    pub value: Seq<char>,
    pub token_type: Seq<char>,
}

impl View for TokenTransfer {
    type V = TokenTransferView;

    open spec fn view(&self) -> TokenTransferView {
        TokenTransferView {
            token: self.token@,
            from: self.from@,
            to: self.to@,
            value: self.value@,
            token_type: self.token_type@,
        }
    }
}

impl Default for TokenTransfer {
    fn default() -> (res: Self)
        ensures
            res.token@ == Seq::<char>::empty(),
            res.from@ == Seq::<char>::empty(),
            res.to@ == Seq::<char>::empty(),
            res.value@ == Seq::<char>::empty(),
            res.token_type@ == Seq::<char>::empty(),
    {
        TokenTransfer {
            token: String::new(),
            from: String::new(),
            to: String::new(),
            value: String::new(),
            token_type: String::new(),
        }
    }
}

/// An account whose code is, or became, an EIP-7702 delegation.
#[derive(Clone, Debug)]
pub struct DelegationChange {
    pub address: String,
    pub old_code_hash: Option<String>,
    pub new_code_hash: Option<String>,
    pub delegated_to: Option<String>,
}

pub struct DelegationChangeView {
    pub address: Seq<char>,
    pub old_code_hash: Option<Seq<char>>,
    pub new_code_hash: Option<Seq<char>>,
    pub delegated_to: Option<Seq<char>>,
}

pub open spec fn text_of(s: Option<String>) -> Option<Seq<char>> {
    match s {
        Some(t) => Some(t@),
        None => None,
    }
}

impl View for DelegationChange {
    type V = DelegationChangeView;

    open spec fn view(&self) -> DelegationChangeView {
        DelegationChangeView {
            address: self.address@,
            old_code_hash: text_of(self.old_code_hash),
            new_code_hash: text_of(self.new_code_hash),
            delegated_to: text_of(self.delegated_to),
        }
    }
}

impl Default for DelegationChange {
    fn default() -> (res: Self)
        ensures
            res.address@ == Seq::<char>::empty(),
            res.old_code_hash is None,
            res.new_code_hash is None,
            res.delegated_to is None,
    {
        DelegationChange {
            address: String::new(),
            old_code_hash: None,
            new_code_hash: None,
            delegated_to: None,
        }
    }
}

/// A storage slot whose value differs before and after the transaction.
#[derive(Clone, Debug)]
pub struct StorageDiff {
    pub address: String,
    pub slot: String,
    pub pre_value: String,
    pub post_value: String,
}

pub struct StorageDiffView {
    pub address: Seq<char>,
    pub slot: Seq<char>,
    pub pre_value: Seq<char>,
    pub post_value: Seq<char>,
}

impl View for StorageDiff {
    type V = StorageDiffView;

    open spec fn view(&self) -> StorageDiffView {
        StorageDiffView {
            address: self.address@,
            slot: self.slot@,
            pre_value: self.pre_value@,
            post_value: self.post_value@,
        }
    }
}

impl Default for StorageDiff {
    fn default() -> (res: Self)
        ensures
            res.address@ == Seq::<char>::empty(),
            res.slot@ == Seq::<char>::empty(),
            res.pre_value@ == Seq::<char>::empty(),
            res.post_value@ == Seq::<char>::empty(),
    {
        StorageDiff {
            address: String::new(),
            slot: String::new(),
            pre_value: String::new(),
            post_value: String::new(),
        }
    }
}

/// A log emitted during the transaction.
#[derive(Clone, Debug)]
pub struct EmittedLog {
    pub address: String,
    pub topics: Vec<String>,
    pub data: String,
}

pub struct EmittedLogView {
    pub address: Seq<char>,
    pub topics: Seq<Seq<char>>,
    pub data: Seq<char>,
}

impl View for EmittedLog {
    type V = EmittedLogView;

    open spec fn view(&self) -> EmittedLogView {
        EmittedLogView {
            address: self.address@,
            topics: self.topics@.map_values(|t: String| t@),
            data: self.data@,
        }
    }
}

impl Default for EmittedLog {
    fn default() -> (res: Self)
        ensures
            res.address@ == Seq::<char>::empty(),
            res.topics@.len() == 0,
            res.data@ == Seq::<char>::empty(),
    {
        EmittedLog { address: String::new(), topics: Vec::new(), data: String::new() }
    }
}

/// The structural analysis of one simulated transaction.
#[derive(Clone, Debug)]
pub struct EVMStructuralAnalysis {
    pub delegatecalls_detected: usize,
    pub storage_slots_written: usize,
    pub selfdestruct_triggered: bool,
    pub eth_transferred_wei: String,
    pub balance_changes: Vec<BalanceChange>,
    pub allowance_changes: Vec<AllowanceChange>,
    pub token_transfers: Vec<TokenTransfer>,
    pub delegation_changes: Vec<DelegationChange>,
    pub storage_diffs: Vec<StorageDiff>,
    pub logs_emitted: Vec<EmittedLog>,
}

pub struct AnalysisView {
    pub delegatecalls_detected: nat,
    pub storage_slots_written: nat,
    pub selfdestruct_triggered: bool,
    pub eth_transferred_wei: Seq<char>,
    pub balance_changes: Seq<BalanceChangeView>,
    pub allowance_changes: Seq<AllowanceChangeView>,
    pub token_transfers: Seq<TokenTransferView>,
    pub delegation_changes: Seq<DelegationChangeView>,
    pub storage_diffs: Seq<StorageDiffView>,
    pub logs_emitted: Seq<EmittedLogView>,
}

impl View for EVMStructuralAnalysis {
    type V = AnalysisView;

    open spec fn view(&self) -> AnalysisView {
        AnalysisView {
            delegatecalls_detected: self.delegatecalls_detected as nat,
            storage_slots_written: self.storage_slots_written as nat,
            selfdestruct_triggered: self.selfdestruct_triggered,
            eth_transferred_wei: self.eth_transferred_wei@,
            balance_changes: self.balance_changes@.map_values(|c: BalanceChange| c@),
            allowance_changes: self.allowance_changes@.map_values(|c: AllowanceChange| c@),
            token_transfers: self.token_transfers@.map_values(|t: TokenTransfer| t@),
            delegation_changes: self.delegation_changes@.map_values(|d: DelegationChange| d@),
            storage_diffs: self.storage_diffs@.map_values(|d: StorageDiff| d@),
            logs_emitted: self.logs_emitted@.map_values(|l: EmittedLog| l@),
        }
    }
}

/// The analysis of a transaction in which nothing has been seen yet.
pub open spec fn empty_analysis() -> AnalysisView {
    AnalysisView {
        delegatecalls_detected: 0,
        storage_slots_written: 0,
        selfdestruct_triggered: false,
        eth_transferred_wei: Seq::empty(),
        balance_changes: Seq::empty(),
        allowance_changes: Seq::empty(),
        token_transfers: Seq::empty(),
        delegation_changes: Seq::empty(),
        storage_diffs: Seq::empty(),
        logs_emitted: Seq::empty(),
    }
}

impl Default for EVMStructuralAnalysis {
    fn default() -> (res: Self)
        ensures
            res@ == empty_analysis(),
    {
        let res = EVMStructuralAnalysis {
            delegatecalls_detected: 0,
            storage_slots_written: 0,
            selfdestruct_triggered: false,
            eth_transferred_wei: String::new(),
            balance_changes: Vec::new(),
            allowance_changes: Vec::new(),
            token_transfers: Vec::new(),
            delegation_changes: Vec::new(),
            storage_diffs: Vec::new(),
            logs_emitted: Vec::new(),
        };
        assert(res@.balance_changes =~= Seq::<BalanceChangeView>::empty());
        assert(res@.allowance_changes =~= Seq::<AllowanceChangeView>::empty());
        assert(res@.token_transfers =~= Seq::<TokenTransferView>::empty());
        assert(res@.delegation_changes =~= Seq::<DelegationChangeView>::empty());
        assert(res@.storage_diffs =~= Seq::<StorageDiffView>::empty());
        assert(res@.logs_emitted =~= Seq::<EmittedLogView>::empty());
        res
    }
}

// ---------------------------------------------------------------------------
// EIP-7702 delegation designators
// ---------------------------------------------------------------------------

/// The address that account code delegates to: the code must be exactly 23
/// bytes, the designator prefix `0xEF 0x01 0x00` and the 20 address bytes.
pub open spec fn designator_target(code: Seq<u8>) -> Option<Seq<u8>> {
    if code.len() == 23 && code[0] == 0xEFu8 && code[1] == 0x01u8 && code[2] == 0x00u8 {
        Some(code.subrange(3, 23))
    } else {
        None
    }
}

/// Parse an EIP-7702 delegation designator.
///
/// A delegated EOA's code is exactly: 0xEF0100 || address (23 bytes).
/// Returns the delegated-to address, or None if the code is not a designator.
pub fn parse_delegation_designator(code: &[u8]) -> (res: Option<Addr>)
    ensures
        match res {
            Some(a) => designator_target(code@) == Some(a.bytes@),
            None => designator_target(code@) is None,
        },
{
    if code.len() != 23 || code[0] != 0xEF || code[1] != 0x01 || code[2] != 0x00 {
        return None;
    }
    let mut bytes = [0u8; 20];
    let mut i: usize = 0;
    while i < 20
        invariant
            code@.len() == 23,
            0 <= i <= 20,
            bytes@.len() == 20,
            forall|j: int| 0 <= j < i ==> #[trigger] bytes@[j] == code@[j + 3],
        decreases 20 - i,
    {
        bytes[i] = code[i + 3];
        i = i + 1;
    }
    assert(bytes@ =~= code@.subrange(3, 23));
    Some(Addr { bytes })
}

// ---------------------------------------------------------------------------
// The inspector
// ---------------------------------------------------------------------------

/// What the database gave for an account: its balance and its code hash.
#[derive(Clone, Copy, Debug)]
pub struct AccountSnapshot {
    pub balance: Word256,
    pub code_hash: Hash32,
}

/// Where a transaction goes: a call to an address, or a contract creation.
#[derive(Clone, Copy, Debug)]
pub enum TxTarget {
    Call(Addr),
    Create,
}

/// The all-zero address.
pub open spec fn zero_bytes() -> Seq<u8> {
    Seq::new(20, |i: int| 0u8)
}

/// Whether the first 20 bytes are all zero.
pub open spec fn is_zero_address(a: Seq<u8>) -> bool {
    forall|i: int| 0 <= i < 20 ==> #[trigger] a[i] == 0u8
}

/// The called address, or the zero address for a creation.
pub open spec fn target_or_zero(t: TxTarget) -> Seq<u8> {
    match t {
        TxTarget::Call(a) => a.bytes@,
        TxTarget::Create => zero_bytes(),
    }
}

pub open spec fn bytes_of(code: Option<Vec<u8>>) -> Option<Seq<u8>> {
    match code {
        Some(c) => Some(c@),
        None => None,
    }
}

/// The state of the inspector: the report so far, and the balances and code
/// hashes that it saw when the transaction started.
pub struct InspectorView {
    pub analysis: AnalysisView,
    pub pre_balances: Map<Seq<u8>, nat>,
    pub pre_code_hashes: Map<Seq<u8>, Seq<u8>>,
    pub allowance_keys: Seq<AllowanceKeyView>,
}

/// Which ERC-20 allowance: the one `owner` gives `spender` on `token`.
#[derive(Clone, Copy, Debug)]
pub struct AllowanceKey {
    pub token: Addr,
    pub owner: Addr,
    pub spender: Addr,
}

pub struct AllowanceKeyView {
    pub token: Seq<u8>,
    pub owner: Seq<u8>,
    pub spender: Seq<u8>,
}

impl View for AllowanceKey {
    type V = AllowanceKeyView;

    open spec fn view(&self) -> AllowanceKeyView {
        AllowanceKeyView { token: self.token.bytes@, owner: self.owner.bytes@, spender: self.spender.bytes@ }
    }
}

pub open spec fn key_views(s: Seq<AllowanceKey>) -> Seq<AllowanceKeyView> {
    s.map_values(|k: AllowanceKey| k@)
}

/// An allowance as read from the state before and after the transaction.
#[derive(Clone, Copy, Debug)]
pub struct AllowanceReading {
    pub key: AllowanceKey,
    pub before: Word256,
    pub after: Word256,
}

pub struct AllowanceReadingView {
    pub key: AllowanceKeyView,
    pub before: nat,
    pub after: nat,
}

impl View for AllowanceReading {
    type V = AllowanceReadingView;

    open spec fn view(&self) -> AllowanceReadingView {
        AllowanceReadingView { key: self.key@, before: self.before.value(), after: self.after.value() }
    }
}

pub open spec fn reading_views(s: Seq<AllowanceReading>) -> Seq<AllowanceReadingView> {
    s.map_values(|r: AllowanceReading| r@)
}

/// The allowances touched so far after one more: each is kept once, in the
/// order first touched.
pub open spec fn note_key(s: Seq<AllowanceKeyView>, k: AllowanceKeyView) -> Seq<AllowanceKeyView> {
    if s.contains(k) {
        s
    } else {
        s.push(k)
    }
}

/// Records the structure of a transaction while the EVM runs it: the
/// DELEGATECALL, SSTORE and SELFDESTRUCT opcodes it executes, the logs it
/// emits with the token transfers they stand for, the ERC-20 allowances it
/// changes, balance changes of its sender and recipient, and EIP-7702
/// delegations of its recipient.
pub struct RiskInspector {
    analysis: EVMStructuralAnalysis,
    pre_balances: AddrTable<Word256>,
    pre_code_hashes: AddrTable<Hash32>,
    allowance_keys: Vec<AllowanceKey>,
}

impl View for RiskInspector {
    type V = InspectorView;

    closed spec fn view(&self) -> InspectorView {
        InspectorView {
            analysis: self.analysis@,
            pre_balances: self.pre_balances.map().map_values(|w: Word256| w.value()),
            pre_code_hashes: self.pre_code_hashes.map().map_values(|h: Hash32| h.bytes@),
            allowance_keys: key_views(self.allowance_keys@),
        }
    }
}

/// The inspector before the transaction starts.
pub open spec fn fresh_inspector() -> InspectorView {
    InspectorView {
        analysis: empty_analysis(),
        pre_balances: Map::empty(),
        pre_code_hashes: Map::empty(),
        allowance_keys: Seq::empty(),
    }
}

/// The report after the EVM executes one opcode: DELEGATECALL (0xF4) and
/// SSTORE (0x55) are counted, SELFDESTRUCT (0xFF) is flagged, any other
/// opcode changes nothing.
pub open spec fn count_opcode(a: AnalysisView, opcode: u8) -> AnalysisView {
    if opcode == 0xF4u8 {
        AnalysisView { delegatecalls_detected: a.delegatecalls_detected + 1, ..a }
    } else if opcode == 0x55u8 {
        AnalysisView { storage_slots_written: a.storage_slots_written + 1, ..a }
    } else if opcode == 0xFFu8 {
        AnalysisView { selfdestruct_triggered: true, ..a }
    } else {
        a
    }
}

/// The inspector after the EVM executes one opcode.
pub open spec fn after_step(s: InspectorView, opcode: u8) -> InspectorView {
    InspectorView { analysis: count_opcode(s.analysis, opcode), ..s }
}

/// The bytes of each topic.
pub open spec fn topic_bytes(topics: Seq<Hash32>) -> Seq<Seq<u8>> {
    topics.map_values(|t: Hash32| t.bytes@)
}

/// The report entry of an emitted log.
pub open spec fn log_entry(address: Seq<u8>, topics: Seq<Seq<u8>>, data: Seq<u8>) -> EmittedLogView {
    EmittedLogView {
        address: prefixed_hex(address),
        topics: topics.map_values(|t: Seq<u8>| prefixed_hex(t)),
        data: prefixed_hex(data),
    }
}

/// Whether a topic starts with the four bytes `a b c d`.
pub open spec fn topic_starts(t: Seq<u8>, a: u8, b: u8, c: u8, d: u8) -> bool {
    t[0] == a && t[1] == b && t[2] == c && t[3] == d
}

/// `Transfer(address,address,uint256)` of ERC-20 and ERC-721: 0xddf252ad…
pub open spec fn is_transfer_topic(t: Seq<u8>) -> bool {
    topic_starts(t, 0xddu8, 0xf2u8, 0x52u8, 0xadu8)
}

/// `Approval(address,address,uint256)` of ERC-20: 0x8c5be1e5…
pub open spec fn is_approval_topic(t: Seq<u8>) -> bool {
    topic_starts(t, 0x8cu8, 0x5bu8, 0xe1u8, 0xe5u8)
}

/// `TransferSingle` of ERC-1155: 0xc3d58168…
pub open spec fn is_single_topic(t: Seq<u8>) -> bool {
    topic_starts(t, 0xc3u8, 0xd5u8, 0x81u8, 0x68u8)
}

/// `TransferBatch` of ERC-1155: 0x4a39dc06…
pub open spec fn is_batch_topic(t: Seq<u8>) -> bool {
    topic_starts(t, 0x4au8, 0x39u8, 0xdcu8, 0x06u8)
}

/// The report entry of a token transfer.
pub open spec fn transfer_view(token: Seq<u8>, from: Seq<u8>, to: Seq<u8>, value: nat, kind: Seq<char>) -> TokenTransferView {
    TokenTransferView {
        token: prefixed_hex(token),
        from: prefixed_hex(from),
        to: prefixed_hex(to),
        value: decimal(value),
        token_type: kind,
    }
}

/// The transfers of an ERC-1155 `TransferBatch`: one per amount, if the ids
/// and the amounts are well-formed ABI arrays of the same length.
pub open spec fn batch_transfers(token: Seq<u8>, from: Seq<u8>, to: Seq<u8>, data: Seq<u8>) -> Seq<TokenTransferView> {
    match (abi_array(data, 0), abi_array(data, 32)) {
        (Some(ids), Some(amounts)) => if ids.1 == amounts.1 {
            Seq::new(amounts.1, |k: int| transfer_view(token, from, to, word_value(data, amounts.0 + 32 * k), "ERC1155"@))
        } else {
            Seq::empty()
        },
        _ => Seq::empty(),
    }
}

/// The token transfers a log stands for: an ERC-20 `Transfer` (two indexed
/// addresses and the amount as data), an ERC-721 `Transfer` (the token id
/// indexed too, no data), and ERC-1155 `TransferSingle` and `TransferBatch`
/// (operator, from and to indexed; the value is the amount moved). Any other
/// log stands for none.
pub open spec fn transfers_of_log(address: Seq<u8>, topics: Seq<Seq<u8>>, data: Seq<u8>) -> Seq<TokenTransferView> {
    if topics.len() == 0 {
        Seq::empty()
    } else if is_transfer_topic(topics[0]) && topics.len() == 3 && data.len() == 32 {
        seq![transfer_view(address, word_address(topics[1]), word_address(topics[2]), word_value(data, 0), "ERC20"@)]
    } else if is_transfer_topic(topics[0]) && topics.len() == 4 && data.len() == 0 {
        seq![transfer_view(address, word_address(topics[1]), word_address(topics[2]), be_value(topics[3]), "ERC721"@)]
    } else if is_single_topic(topics[0]) && topics.len() == 4 && data.len() == 64 {
        seq![transfer_view(address, word_address(topics[2]), word_address(topics[3]), word_value(data, 32), "ERC1155"@)]
    } else if is_batch_topic(topics[0]) && topics.len() == 4 {
        batch_transfers(address, word_address(topics[2]), word_address(topics[3]), data)
    } else {
        Seq::empty()
    }
}

/// The allowance an ERC-20 `Approval` log is about: owner and spender
/// indexed, the amount as data.
pub open spec fn approval_key_of_log(address: Seq<u8>, topics: Seq<Seq<u8>>, data: Seq<u8>) -> Option<AllowanceKeyView> {
    if topics.len() == 3 && is_approval_topic(topics[0]) && data.len() == 32 {
        Some(AllowanceKeyView { token: address, owner: word_address(topics[1]), spender: word_address(topics[2]) })
    } else {
        None
    }
}

/// The inspector after the EVM emits a log: the log is reported, with the
/// token transfers it stands for, and the allowance an `Approval` is about
/// is noted as touched.
pub open spec fn after_log(s: InspectorView, address: Seq<u8>, topics: Seq<Seq<u8>>, data: Seq<u8>) -> InspectorView {
    InspectorView {
        analysis: AnalysisView {
            logs_emitted: s.analysis.logs_emitted.push(log_entry(address, topics, data)),
            token_transfers: s.analysis.token_transfers + transfers_of_log(address, topics, data),
            ..s.analysis
        },
        allowance_keys: match approval_key_of_log(address, topics, data) {
            Some(k) => note_key(s.allowance_keys, k),
            None => s.allowance_keys,
        },
        ..s
    }
}

/// Whether call data starts with the selector `a b c d`.
pub open spec fn selector_is(input: Seq<u8>, a: u8, b: u8, c: u8, d: u8) -> bool {
    input.len() >= 4 && input[0] == a && input[1] == b && input[2] == c && input[3] == d
}

/// The address in the ABI argument word `i` of call data.
pub open spec fn arg_address(input: Seq<u8>, i: int) -> Seq<u8> {
    word_address(input.subrange(4 + 32 * i, 36 + 32 * i))
}

/// The allowance an ERC-20 call can change, when its arguments are all
/// there: `approve`, `increaseAllowance` and `decreaseAllowance` that of the
/// caller for the first argument, `transferFrom` that of the first argument
/// for the caller, and `permit` that of the first argument for the second.
pub open spec fn allowance_key_of_call(caller: Seq<u8>, target: Seq<u8>, input: Seq<u8>) -> Option<AllowanceKeyView> {
    if (selector_is(input, 0x09u8, 0x5eu8, 0xa7u8, 0xb3u8) || selector_is(input, 0x39u8, 0x50u8, 0x93u8, 0x51u8)
        || selector_is(input, 0xa4u8, 0x57u8, 0xc2u8, 0xd7u8)) && input.len() >= 68 {
        Some(AllowanceKeyView { token: target, owner: caller, spender: arg_address(input, 0) })
    } else if selector_is(input, 0x23u8, 0xb8u8, 0x72u8, 0xddu8) && input.len() >= 100 {
        Some(AllowanceKeyView { token: target, owner: arg_address(input, 0), spender: caller })
    } else if selector_is(input, 0xd5u8, 0x05u8, 0xacu8, 0xcfu8) && input.len() >= 228 {
        Some(AllowanceKeyView { token: target, owner: arg_address(input, 0), spender: arg_address(input, 1) })
    } else {
        None
    }
}

/// The inspector when `caller` calls `target` with this call data: the
/// allowance the call can change is noted as touched.
pub open spec fn after_call(s: InspectorView, caller: Seq<u8>, target: Seq<u8>, input: Seq<u8>) -> InspectorView {
    match allowance_key_of_call(caller, target, input) {
        Some(k) => InspectorView { allowance_keys: note_key(s.allowance_keys, k), ..s },
        None => s,
    }
}

pub open spec fn with_delegation(s: InspectorView, d: DelegationChangeView) -> InspectorView {
    InspectorView {
        analysis: AnalysisView { delegation_changes: s.analysis.delegation_changes.push(d), ..s.analysis },
        ..s
    }
}

/// The report entry of a recipient whose code is a delegation designator
/// when the transaction starts.
pub open spec fn delegation_at_load(address: Seq<u8>, code_hash: Seq<u8>, delegate: Seq<u8>) -> DelegationChangeView {
    DelegationChangeView {
        address: prefixed_hex(address),
        old_code_hash: None,
        new_code_hash: Some(prefixed_hex(code_hash)),
        delegated_to: Some(prefixed_hex(delegate)),
    }
}

/// The inspector when a frame of the transaction starts: it remembers the
/// sender's balance, and, for a call to a non-zero address whose account
/// exists, the recipient's balance and code hash; if the recipient's code is
/// a delegation designator it is reported at once.
pub open spec fn after_initialize(
    s: InspectorView,
    caller: Seq<u8>,
    target: Seq<u8>,
    caller_account: Option<AccountSnapshot>,
    target_account: Option<AccountSnapshot>,
    target_code: Option<Seq<u8>>,
) -> InspectorView {
    let s1 = match caller_account {
        Some(acc) => InspectorView { pre_balances: s.pre_balances.insert(caller, acc.balance.value()), ..s },
        None => s,
    };
    if !is_zero_address(target) && target_account is Some {
        let acc = target_account->0;
        let s2 = InspectorView {
            pre_balances: s1.pre_balances.insert(target, acc.balance.value()),
            pre_code_hashes: s1.pre_code_hashes.insert(target, acc.code_hash.bytes@),
            ..s1
        };
        match target_code {
            Some(code) => match designator_target(code) {
                Some(d) => with_delegation(s2, delegation_at_load(target, acc.code_hash.bytes@, d)),
                None => s2,
            },
            None => s2,
        }
    } else {
        s1
    }
}

/// How a balance moved: `+` or `-` and the decimal size of the move.
pub open spec fn balance_delta(pre: nat, post: nat) -> Seq<char> {
    if post > pre {
        seq!['+'] + decimal((post - pre) as nat)
    } else {
        seq!['-'] + decimal((pre - post) as nat)
    }
}

/// The inspector after it compares the balance that an account had when the
/// transaction started (zero if none was seen) with the one it has now; the
/// start balance is used up, and a change is reported if the two differ.
pub open spec fn after_balance_check(s: InspectorView, addr: Seq<u8>, account: Option<AccountSnapshot>) -> InspectorView {
    if is_zero_address(addr) || account is None {
        s
    } else {
        let post = account->0.balance.value();
        let pre = if s.pre_balances.contains_key(addr) { s.pre_balances[addr] } else { 0nat };
        let removed = InspectorView { pre_balances: s.pre_balances.remove(addr), ..s };
        if pre != post {
            let change = BalanceChangeView {
                address: prefixed_hex(addr),
                pre_balance: decimal(pre),
                post_balance: decimal(post),
                delta: balance_delta(pre, post),
            };
            InspectorView {
                analysis: AnalysisView {
                    balance_changes: s.analysis.balance_changes.push(change),
                    ..s.analysis
                },
                ..removed
            }
        } else {
            removed
        }
    }
}

/// The last position of a reading of allowance `k`, or -1.
pub open spec fn last_reading_index(readings: Seq<AllowanceReadingView>, k: AllowanceKeyView) -> int
    decreases readings.len(),
{
    if readings.len() == 0 {
        -1
    } else if readings.last().key == k {
        readings.len() - 1
    } else {
        last_reading_index(readings.drop_last(), k)
    }
}

/// The last reading of allowance `k`, if there is one.
pub open spec fn reading_for(readings: Seq<AllowanceReadingView>, k: AllowanceKeyView) -> Option<AllowanceReadingView> {
    let i = last_reading_index(readings, k);
    if i >= 0 {
        Some(readings[i])
    } else {
        None
    }
}

/// The report entry of allowance `k` that moved from `pre` to `post`.
pub open spec fn allowance_change(k: AllowanceKeyView, pre: nat, post: nat) -> AllowanceChangeView {
    AllowanceChangeView {
        owner: prefixed_hex(k.owner),
        spender: prefixed_hex(k.spender),
        token: prefixed_hex(k.token),
        pre_allowance: decimal(pre),
        post_allowance: decimal(post),
        delta: balance_delta(pre, post),
    }
}

/// The allowance changes of the touched allowances, in the order first
/// touched: an allowance is reported when it was read before and after the
/// transaction and the two values differ.
pub open spec fn allowance_changes_for(keys: Seq<AllowanceKeyView>, readings: Seq<AllowanceReadingView>) -> Seq<AllowanceChangeView>
    decreases keys.len(),
{
    if keys.len() == 0 {
        Seq::empty()
    } else {
        let prev = allowance_changes_for(keys.drop_last(), readings);
        let k = keys.last();
        match reading_for(readings, k) {
            Some(r) => if r.before != r.after {
                prev.push(allowance_change(k, r.before, r.after))
            } else {
                prev
            },
            None => prev,
        }
    }
}

/// The inspector after the balances of sender and recipient are compared,
/// in that order (a recipient that is the sender is compared once), and
/// then each allowance touched during the transaction with its readings
/// before and after it; the touched allowances are used up.
pub open spec fn after_capture(
    s: InspectorView,
    caller: Seq<u8>,
    target: Seq<u8>,
    caller_account: Option<AccountSnapshot>,
    target_account: Option<AccountSnapshot>,
    readings: Seq<AllowanceReadingView>,
) -> InspectorView {
    let s1 = after_balance_check(s, caller, caller_account);
    let s2 = if target == caller {
        s1
    } else {
        after_balance_check(s1, target, target_account)
    };
    InspectorView {
        analysis: AnalysisView {
            allowance_changes: s2.analysis.allowance_changes + allowance_changes_for(s2.allowance_keys, readings),
            ..s2.analysis
        },
        allowance_keys: Seq::empty(),
        ..s2
    }
}

/// The inspector after the recipient's code hash is compared with the one
/// seen when the transaction started: if both are known and they differ, the
/// change is reported, with the delegate if the new code is a designator.
pub open spec fn after_detect(
    s: InspectorView,
    target: TxTarget,
    target_account: Option<AccountSnapshot>,
    new_code: Option<Seq<u8>>,
) -> InspectorView {
    match target {
        TxTarget::Create => s,
        TxTarget::Call(to) => match target_account {
            None => s,
            Some(acc) => {
                let addr = to.bytes@;
                let new_hash = acc.code_hash.bytes@;
                if s.pre_code_hashes.contains_key(addr) && s.pre_code_hashes[addr] != new_hash {
                    let delegated_to = match new_code {
                        Some(code) => match designator_target(code) {
                            Some(d) => Some(prefixed_hex(d)),
                            None => None,
                        },
                        None => None,
                    };
                    with_delegation(s, DelegationChangeView {
                        address: prefixed_hex(addr),
                        old_code_hash: Some(prefixed_hex(s.pre_code_hashes[addr])),
                        new_code_hash: Some(prefixed_hex(new_hash)),
                        delegated_to,
                    })
                } else {
                    s
                }
            },
        },
    }
}

impl Default for RiskInspector {
    fn default() -> (res: Self)
        ensures
            res@ == fresh_inspector(),
    {
        let res = RiskInspector {
            analysis: EVMStructuralAnalysis::default(),
            pre_balances: AddrTable::new(),
            pre_code_hashes: AddrTable::new(),
            allowance_keys: Vec::new(),
        };
        assert(res@.pre_balances =~= Map::<Seq<u8>, nat>::empty());
        assert(res@.allowance_keys =~= Seq::<AllowanceKeyView>::empty());
        assert(res@.pre_code_hashes =~= Map::<Seq<u8>, Seq<u8>>::empty());
        res
    }
}

proof fn lemma_insert_then_map<V, W>(m: Map<Seq<u8>, V>, k: Seq<u8>, v: V, f: spec_fn(V) -> W)
    ensures
        m.insert(k, v).map_values(f) == m.map_values(f).insert(k, f(v)),
{
    assert(m.insert(k, v).map_values(f) =~= m.map_values(f).insert(k, f(v)));
}

proof fn lemma_remove_then_map<V, W>(m: Map<Seq<u8>, V>, k: Seq<u8>, f: spec_fn(V) -> W)
    ensures
        m.remove(k).map_values(f) == m.map_values(f).remove(k),
{
    assert(m.remove(k).map_values(f) =~= m.map_values(f).remove(k));
}

impl RiskInspector {
    /// The report built so far.
    pub fn report(&self) -> (res: &EVMStructuralAnalysis)
        ensures
            res@ == self@.analysis,
    {
        &self.analysis
    }

    /// The code hash the recipient `address` had when the transaction
    /// started, if it was seen.
    pub fn pre_code_hash(&self, address: &Addr) -> (res: Option<Hash32>)
        ensures
            match res {
                Some(h) => self@.pre_code_hashes.contains_key(address.bytes@)
                    && self@.pre_code_hashes[address.bytes@] == h.bytes@,
                None => !self@.pre_code_hashes.contains_key(address.bytes@),
            },
    {
        self.pre_code_hashes.get(address)
    }

    /// Records the state that a frame of the transaction starts from.
    ///
    /// `caller_account` and `target_account` are what the database gave for
    /// the sender and the recipient; `target_code` is the code it gave for the
    /// recipient's code hash (it is read only for a call to a non-zero address
    /// whose account exists). A recipient whose code is an EIP-7702
    /// delegation designator is reported at once, so that a delegated EOA is
    /// flagged even when its code does not change during the transaction.
    pub fn initialize_interp(
        &mut self,
        caller: &Addr,
        target: &TxTarget,
        caller_account: Option<AccountSnapshot>,
        target_account: Option<AccountSnapshot>,
        target_code: Option<Vec<u8>>,
    )
        ensures
            final(self)@ == after_initialize(
                old(self)@,
                caller.bytes@,
                target_or_zero(*target),
                caller_account,
                target_account,
                bytes_of(target_code),
            ),
    {
        let ghost fb = |w: Word256| w.value();
        let ghost fh = |h: Hash32| h.bytes@;
        if let Some(acc) = caller_account {
            proof {
                lemma_insert_then_map(self.pre_balances.map(), caller.bytes@, acc.balance, fb);
            }
            self.pre_balances.insert(*caller, acc.balance);
        }
        let to = match target {
            TxTarget::Call(a) => *a,
            TxTarget::Create => Addr::zero(),
        };
        assert(to.bytes@ =~= target_or_zero(*target));
        if !to.is_zero() {
            if let Some(acc) = target_account {
                proof {
                    lemma_insert_then_map(self.pre_balances.map(), to.bytes@, acc.balance, fb);
                    lemma_insert_then_map(self.pre_code_hashes.map(), to.bytes@, acc.code_hash, fh);
                }
                self.pre_balances.insert(to, acc.balance);
                self.pre_code_hashes.insert(to, acc.code_hash);
                if let Some(code) = &target_code {
                    if let Some(delegate) = parse_delegation_designator(code.as_slice()) {
                        let change = DelegationChange {
                            address: format_address(&to),
                            old_code_hash: None,
                            new_code_hash: Some(format_hash(&acc.code_hash)),
                            delegated_to: Some(format_address(&delegate)),
                        };
                        let ghost before = self.analysis@;
                        self.analysis.delegation_changes.push(change);
                        proof {
                            assert(self.analysis@.delegation_changes =~= before.delegation_changes.push(change@));
                        }
                    }
                }
            }
        }
    }
}

// ---------------------------------------------------------------------------
// Token transfers, and the allowances that logs and calls touch
// ---------------------------------------------------------------------------

/// Whether a topic starts with the four bytes `a b c d`.
fn topic_is(t: &Hash32, a: u8, b: u8, c: u8, d: u8) -> (res: bool)
    ensures
        res == topic_starts(t.bytes@, a, b, c, d),
{
    t.bytes[0] == a && t.bytes[1] == b && t.bytes[2] == c && t.bytes[3] == d
}

/// The report entry of a transfer of `amount` (an ABI word) of `token`.
fn transfer_entry(token: &Addr, from: &Addr, to: &Addr, amount: &[u8; 32], kind: &str) -> (res: TokenTransfer)
    ensures
        res@ == transfer_view(token.bytes@, from.bytes@, to.bytes@, be_value(amount@), kind@),
{
    TokenTransfer {
        token: format_address(token),
        from: format_address(from),
        to: format_address(to),
        value: format_decimal(&word_from_be(amount)),
        token_type: String::from_str(kind),
    }
}

/// The transfers of an ERC-1155 `TransferBatch` log.
fn batch_entries(token: &Addr, from: &Addr, to: &Addr, data: &[u8]) -> (res: Vec<TokenTransfer>)
    ensures
        res@.map_values(|t: TokenTransfer| t@) == batch_transfers(token.bytes@, from.bytes@, to.bytes@, data@),
{
    let mut out: Vec<TokenTransfer> = Vec::new();
    let ids = read_abi_array(data, 0);
    let amounts = read_abi_array(data, 32);
    match (ids, amounts) {
        (Some((_, n_ids)), Some((start, n))) => {
            if n_ids != n {
                assert(out@.map_values(|t: TokenTransfer| t@) =~= Seq::<TokenTransferView>::empty());
                return out;
            }
            let ghost want = batch_transfers(token.bytes@, from.bytes@, to.bytes@, data@);
            let len = data.len();
            assert(start + 32 * n <= len);
            let mut k: usize = 0;
            while k < n
                invariant
                    abi_array(data@, 32) == Some((start as int, n as nat)),
                    len == data@.len(),
                    start + 32 * n <= len,
                    want == batch_transfers(token.bytes@, from.bytes@, to.bytes@, data@),
                    want.len() == n,
                    0 <= k <= n,
                    out@.len() == k,
                    forall|j: int| 0 <= j < k ==> #[trigger] out@[j]@ == want[j],
                decreases n - k,
            {
                let pos = start + 32 * k;
                let word = word_at(data, pos);
                let entry = transfer_entry(token, from, to, &word, "ERC1155");
                out.push(entry);
                k = k + 1;
            }
            assert(out@.map_values(|t: TokenTransfer| t@) =~= want);
            out
        },
        _ => {
            assert(out@.map_values(|t: TokenTransfer| t@) =~= Seq::<TokenTransferView>::empty());
            out
        },
    }
}

/// The token transfers that a log emitted by `address` stands for.
pub fn transfers_of(address: &Addr, topics: &Vec<Hash32>, data: &[u8]) -> (res: Vec<TokenTransfer>)
    ensures
        res@.map_values(|t: TokenTransfer| t@) == transfers_of_log(address.bytes@, topic_bytes(topics@), data@),
{
    let ghost ts = topic_bytes(topics@);
    let mut out: Vec<TokenTransfer> = Vec::new();
    if topics.len() == 0 {
        assert(out@.map_values(|t: TokenTransfer| t@) =~= Seq::<TokenTransferView>::empty());
        return out;
    }
    assert(ts[0] == topics@[0].bytes@);
    let transfer = topic_is(&topics[0], 0xdd, 0xf2, 0x52, 0xad);
    if transfer && topics.len() == 3 && data.len() == 32 {
        assert(ts[1] == topics@[1].bytes@ && ts[2] == topics@[2].bytes@);
        let word = word_at(data, 0);
        let entry = transfer_entry(&address, &topic_address(&topics[1]), &topic_address(&topics[2]), &word, "ERC20");
        out.push(entry);
        assert(out@.map_values(|t: TokenTransfer| t@) =~= transfers_of_log(address.bytes@, ts, data@));
        return out;
    }
    if transfer && topics.len() == 4 && data.len() == 0 {
        assert(ts[1] == topics@[1].bytes@ && ts[2] == topics@[2].bytes@ && ts[3] == topics@[3].bytes@);
        let entry = transfer_entry(&address, &topic_address(&topics[1]), &topic_address(&topics[2]), &topics[3].bytes, "ERC721");
        out.push(entry);
        assert(out@.map_values(|t: TokenTransfer| t@) =~= transfers_of_log(address.bytes@, ts, data@));
        return out;
    }
    if topic_is(&topics[0], 0xc3, 0xd5, 0x81, 0x68) && topics.len() == 4 && data.len() == 64 {
        assert(ts[2] == topics@[2].bytes@ && ts[3] == topics@[3].bytes@);
        let word = word_at(data, 32);
        let entry = transfer_entry(&address, &topic_address(&topics[2]), &topic_address(&topics[3]), &word, "ERC1155");
        out.push(entry);
        assert(out@.map_values(|t: TokenTransfer| t@) =~= transfers_of_log(address.bytes@, ts, data@));
        return out;
    }
    if topic_is(&topics[0], 0x4a, 0x39, 0xdc, 0x06) && topics.len() == 4 {
        assert(ts[2] == topics@[2].bytes@ && ts[3] == topics@[3].bytes@);
        return batch_entries(&address, &topic_address(&topics[2]), &topic_address(&topics[3]), data);
    }
    assert(out@.map_values(|t: TokenTransfer| t@) =~= transfers_of_log(address.bytes@, ts, data@));
    out
}

/// The allowance an ERC-20 `Approval` log emitted by `address` is about.
pub fn approval_key(address: &Addr, topics: &Vec<Hash32>, data: &[u8]) -> (res: Option<AllowanceKey>)
    ensures
        match res {
            Some(k) => approval_key_of_log(address.bytes@, topic_bytes(topics@), data@) == Some(k@),
            None => approval_key_of_log(address.bytes@, topic_bytes(topics@), data@) is None,
        },
{
    let ghost ts = topic_bytes(topics@);
    if topics.len() == 3 && topic_is(&topics[0], 0x8c, 0x5b, 0xe1, 0xe5) && data.len() == 32 {
        assert(ts[0] == topics@[0].bytes@ && ts[1] == topics@[1].bytes@ && ts[2] == topics@[2].bytes@);
        Some(AllowanceKey { token: *address, owner: topic_address(&topics[1]), spender: topic_address(&topics[2]) })
    } else {
        proof {
            if topics.len() == 3 {
                assert(ts[0] == topics@[0].bytes@);
            }
        }
        None
    }
}

/// Whether call data starts with the selector `a b c d`.
fn selector_matches(input: &[u8], a: u8, b: u8, c: u8, d: u8) -> (res: bool)
    ensures
        res == selector_is(input@, a, b, c, d),
{
    input.len() >= 4 && input[0] == a && input[1] == b && input[2] == c && input[3] == d
}

/// The address in the ABI argument word `i` of call data.
fn argument_address(input: &[u8], i: usize) -> (res: Addr)
    requires
        i <= 6,
        36 + 32 * i <= input@.len(),
    ensures
        res.bytes@ == arg_address(input@, i as int),
{
    let start = 16 + 32 * i;
    let mut bytes = [0u8; 20];
    let mut j: usize = 0;
    while j < 20
        invariant
            i <= 6,
            start == 16 + 32 * i,
            36 + 32 * i <= input@.len(),
            0 <= j <= 20,
            bytes@.len() == 20,
            forall|m: int| 0 <= m < j ==> #[trigger] bytes@[m] == input@[start + m],
        decreases 20 - j,
    {
        bytes[j] = input[start + j];
        j = j + 1;
    }
    assert(bytes@ =~= arg_address(input@, i as int));
    Addr { bytes }
}

/// The allowance a call of `target` by `caller` with this call data can
/// change, if it is an ERC-20 call that changes one.
pub fn call_key(caller: &Addr, target: &Addr, input: &[u8]) -> (res: Option<AllowanceKey>)
    ensures
        match res {
            Some(k) => allowance_key_of_call(caller.bytes@, target.bytes@, input@) == Some(k@),
            None => allowance_key_of_call(caller.bytes@, target.bytes@, input@) is None,
        },
{
    let len = input.len();
    if (selector_matches(input, 0x09, 0x5e, 0xa7, 0xb3) || selector_matches(input, 0x39, 0x50, 0x93, 0x51)
        || selector_matches(input, 0xa4, 0x57, 0xc2, 0xd7)) && len >= 68 {
        return Some(AllowanceKey { token: *target, owner: *caller, spender: argument_address(input, 0) });
    }
    if selector_matches(input, 0x23, 0xb8, 0x72, 0xdd) && len >= 100 {
        return Some(AllowanceKey { token: *target, owner: argument_address(input, 0), spender: *caller });
    }
    if selector_matches(input, 0xd5, 0x05, 0xac, 0xcf) && len >= 228 {
        return Some(AllowanceKey {
            token: *target,
            owner: argument_address(input, 0),
            spender: argument_address(input, 1),
        });
    }
    None
}

/// Whether two keys name the same allowance.
fn same_key(x: &AllowanceKey, y: &AllowanceKey) -> (res: bool)
    ensures
        res == (x@ == y@),
{
    x.token.same_as(&y.token) && x.owner.same_as(&y.owner) && x.spender.same_as(&y.spender)
}

/// Notes an allowance as touched, once.
fn remember_key(keys: &mut Vec<AllowanceKey>, k: AllowanceKey)
    ensures
        key_views(final(keys)@) == note_key(key_views(old(keys)@), k@),
{
    let ghost v = key_views(keys@);
    let mut i: usize = 0;
    while i < keys.len()
        invariant
            v == key_views(keys@),
            0 <= i <= keys@.len(),
            forall|j: int| 0 <= j < i ==> #[trigger] v[j] != k@,
        decreases keys@.len() - i,
    {
        if same_key(&keys[i], &k) {
            assert(v[i as int] == k@);
            return;
        }
        i = i + 1;
    }
    keys.push(k);
    assert(!v.contains(k@));
    assert(key_views(keys@) =~= v.push(k@));
}

/// The position of the last reading of allowance `k`.
fn find_reading(readings: &Vec<AllowanceReading>, k: &AllowanceKey) -> (res: Option<usize>)
    ensures
        match res {
            Some(i) => last_reading_index(reading_views(readings@), k@) == i as int && i < readings@.len(),
            None => last_reading_index(reading_views(readings@), k@) == -1,
        },
{
    let ghost v = reading_views(readings@);
    let mut i: usize = readings.len();
    assert(v.take(i as int) =~= v);
    while i > 0
        invariant
            v == reading_views(readings@),
            i <= readings@.len(),
            last_reading_index(v, k@) == last_reading_index(v.take(i as int), k@),
        decreases i,
    {
        assert(v.take(i as int).last() == readings@[i - 1]@);
        assert(v.take(i as int).drop_last() =~= v.take(i - 1));
        if same_key(&readings[i - 1].key, k) {
            return Some(i - 1);
        }
        i = i - 1;
    }
    assert(v.take(0) =~= Seq::<AllowanceReadingView>::empty());
    None
}

/// `+` or `-` and the decimal size of the move from `pre` to `post`.
fn delta_text(pre: &Word256, post: &Word256) -> (res: String)
    ensures
        res@ == balance_delta(pre.value(), post.value()),
{
    let delta = if post.greater_than(pre) {
        let mut text = String::from_str("+");
        proof {
            reveal_strlit("+");
        }
        text.append(format_decimal(&post.minus(pre)).as_str());
        text
    } else {
        let mut text = String::from_str("-");
        proof {
            reveal_strlit("-");
        }
        text.append(format_decimal(&pre.minus(post)).as_str());
        text
    };
    assert(delta@ =~= balance_delta(pre.value(), post.value()));
    delta
}

/// The allowance changes of the touched allowances, given the readings of
/// allowances before and after the transaction.
pub fn allowance_changes_of(keys: &Vec<AllowanceKey>, readings: &Vec<AllowanceReading>) -> (res: Vec<AllowanceChange>)
    ensures
        res@.map_values(|c: AllowanceChange| c@)
            == allowance_changes_for(key_views(keys@), reading_views(readings@)),
{
    let ghost kv = key_views(keys@);
    let ghost rv = reading_views(readings@);
    let mut out: Vec<AllowanceChange> = Vec::new();
    let mut i: usize = 0;
    assert(kv.take(0) =~= Seq::<AllowanceKeyView>::empty());
    assert(out@.map_values(|c: AllowanceChange| c@) =~= Seq::<AllowanceChangeView>::empty());
    while i < keys.len()
        invariant
            kv == key_views(keys@),
            rv == reading_views(readings@),
            0 <= i <= keys@.len(),
            out@.map_values(|c: AllowanceChange| c@) == allowance_changes_for(kv.take(i as int), rv),
        decreases keys@.len() - i,
    {
        let k = keys[i];
        assert(kv.take(i + 1).drop_last() =~= kv.take(i as int));
        assert(kv.take(i + 1).last() == k@);
        if let Some(j) = find_reading(readings, &k) {
            let r = readings[j];
            assert(rv[j as int] == r@);
            if !r.before.equals(&r.after) {
                let change = AllowanceChange {
                    owner: format_address(&k.owner),
                    spender: format_address(&k.spender),
                    token: format_address(&k.token),
                    pre_allowance: format_decimal(&r.before),
                    post_allowance: format_decimal(&r.after),
                    delta: delta_text(&r.before, &r.after),
                };
                let ghost before = out@;
                out.push(change);
                assert(out@.map_values(|c: AllowanceChange| c@)
                    =~= before.map_values(|c: AllowanceChange| c@).push(change@));
            }
        }
        i = i + 1;
    }
    assert(kv.take(i as int) =~= kv);
    out
}

impl RiskInspector {
    /// Compares the balance `addr` had when the transaction started (zero if
    /// none was seen) with the one the database gives now.
    fn check_balance(&mut self, addr: &Addr, account: Option<AccountSnapshot>)
        ensures
            final(self)@ == after_balance_check(old(self)@, addr.bytes@, account),
    {
        if addr.is_zero() {
            return;
        }
        if let Some(acc) = account {
            let post = acc.balance;
            let ghost fb = |w: Word256| w.value();
            proof {
                lemma_remove_then_map(self.pre_balances.map(), addr.bytes@, fb);
            }
            let pre = match self.pre_balances.remove(addr) {
                Some(w) => w,
                None => Word256::zero(),
            };
            if !pre.equals(&post) {
                let delta = delta_text(&pre, &post);
                let change = BalanceChange {
                    address: format_address(addr),
                    pre_balance: format_decimal(&pre),
                    post_balance: format_decimal(&post),
                    delta,
                };
                let ghost before = self.analysis@;
                self.analysis.balance_changes.push(change);
                proof {
                    assert(self.analysis@.balance_changes =~= before.balance_changes.push(change@));
                }
            }
        }
    }

    /// Records the balance changes of the sender and of the recipient, and
    /// the allowance changes, once the transaction has run.
    ///
    /// `caller_account` and `target_account` are what the database gives now
    /// for the sender and the recipient (it is not asked for the zero
    /// address, nor for the recipient of a creation). Each address is
    /// compared once, so a transaction to oneself compares the sender alone,
    /// and each compared start balance is used up. `readings` are allowances
    /// read from the state before and after the transaction; each allowance
    /// touched during it is compared by its last reading, and reported when
    /// the two values differ (one with no reading is not compared). The
    /// touched allowances are used up.
    pub fn capture_post_state(
        &mut self,
        caller: &Addr,
        target: &TxTarget,
        caller_account: Option<AccountSnapshot>,
        target_account: Option<AccountSnapshot>,
        readings: &Vec<AllowanceReading>,
    )
        ensures
            final(self)@ == after_capture(
                old(self)@,
                caller.bytes@,
                target_or_zero(*target),
                caller_account,
                target_account,
                reading_views(readings@),
            ),
    {
        let to = match target {
            TxTarget::Call(a) => *a,
            TxTarget::Create => Addr::zero(),
        };
        assert(to.bytes@ =~= target_or_zero(*target));
        self.check_balance(caller, caller_account);
        if !to.same_as(caller) {
            self.check_balance(&to, target_account);
        }
        let mut changes = allowance_changes_of(&self.allowance_keys, readings);
        let ghost before = self.analysis@;
        let ghost added = changes@;
        self.analysis.allowance_changes.append(&mut changes);
        self.allowance_keys = Vec::new();
        proof {
            assert(self.analysis@.allowance_changes =~= before.allowance_changes
                + added.map_values(|c: AllowanceChange| c@));
            assert(key_views(self.allowance_keys@) =~= Seq::<AllowanceKeyView>::empty());
        }
    }

    /// Reports a change of the recipient's code hash between the start of
    /// the transaction and now, with the delegate if the new code is an
    /// EIP-7702 designator.
    ///
    /// `target_account` is what the database gives now for the recipient and
    /// `new_code` the code it gives for the account's code hash; the code is
    /// read only when the hash changed.
    pub fn detect_delegations(
        &mut self,
        target: &TxTarget,
        target_account: Option<AccountSnapshot>,
        new_code: Option<Vec<u8>>,
    )
        ensures
            final(self)@ == after_detect(old(self)@, *target, target_account, bytes_of(new_code)),
    {
        let to = match target {
            TxTarget::Call(a) => *a,
            TxTarget::Create => return,
        };
        if let Some(acc) = target_account {
            let new_hash = acc.code_hash;
            if let Some(old_hash) = self.pre_code_hashes.get(&to) {
                if !old_hash.same_as(&new_hash) {
                    let delegated_to = match &new_code {
                        Some(code) => match parse_delegation_designator(code.as_slice()) {
                            Some(delegate) => Some(format_address(&delegate)),
                            None => None,
                        },
                        None => None,
                    };
                    let change = DelegationChange {
                        address: format_address(&to),
                        old_code_hash: Some(format_hash(&old_hash)),
                        new_code_hash: Some(format_hash(&new_hash)),
                        delegated_to,
                    };
                    let ghost before = self.analysis@;
                    self.analysis.delegation_changes.push(change);
                    proof {
                        assert(self.analysis@.delegation_changes =~= before.delegation_changes.push(change@));
                    }
                }
            }
        }
    }

    /// Records one executed opcode.
    pub fn step(&mut self, opcode: u8)
        requires
            opcode == 0xF4u8 ==> old(self)@.analysis.delegatecalls_detected < usize::MAX,
            opcode == 0x55u8 ==> old(self)@.analysis.storage_slots_written < usize::MAX,
        ensures
            final(self)@ == after_step(old(self)@, opcode),
    {
        match opcode {
            0xF4 => self.analysis.delegatecalls_detected += 1,
            0x55 => self.analysis.storage_slots_written += 1,
            0xFF => self.analysis.selfdestruct_triggered = true,
            _ => {},
        }
    }

    /// Records a log emitted by `address` with these topics and data, the
    /// token transfers it stands for; if it is an ERC-20 `Approval`, the
    /// allowance it is about is noted as touched.
    pub fn log(&mut self, address: &Addr, topics: &Vec<Hash32>, data: &[u8])
        ensures
            final(self)@ == after_log(old(self)@, address.bytes@, topic_bytes(topics@), data@),
    {
        let mut topic_texts: Vec<String> = Vec::new();
        let mut i: usize = 0;
        while i < topics.len()
            invariant
                0 <= i <= topics@.len(),
                topic_texts@.len() == i,
                forall|j: int| 0 <= j < i ==> #[trigger] topic_texts@[j]@ == prefixed_hex(topics@[j].bytes@),
            decreases topics@.len() - i,
        {
            topic_texts.push(format_hash(&topics[i]));
            i = i + 1;
        }
        let mut data_text = String::from_str("0x");
        proof {
            reveal_strlit("0x");
        }
        data_text.append(encode_hex(data).as_str());
        assert(data_text@ =~= prefixed_hex(data@));
        let entry = EmittedLog { address: format_address(address), topics: topic_texts, data: data_text };
        let ghost before = self.analysis@;
        self.analysis.logs_emitted.push(entry);
        proof {
            assert(entry@.topics =~= topic_bytes(topics@).map_values(|t: Seq<u8>| prefixed_hex(t)));
            assert(self.analysis@.logs_emitted =~= before.logs_emitted.push(entry@));
            assert(entry@ == log_entry(address.bytes@, topic_bytes(topics@), data@));
        }
        let mut transfers = transfers_of(address, topics, data);
        let ghost added = transfers@;
        self.analysis.token_transfers.append(&mut transfers);
        proof {
            assert(self.analysis@.token_transfers =~= before.token_transfers
                + added.map_values(|t: TokenTransfer| t@));
        }
        if let Some(k) = approval_key(address, topics, data) {
            remember_key(&mut self.allowance_keys, k);
        }
    }

    /// Records a call of `target` by `caller` with this call data: the
    /// allowance it can change, if it is an ERC-20 `approve`,
    /// `increaseAllowance`, `decreaseAllowance`, `transferFrom` or `permit`,
    /// is noted as touched.
    pub fn call(&mut self, caller: &Addr, target: &Addr, input: &[u8])
        ensures
            final(self)@ == after_call(old(self)@, caller.bytes@, target.bytes@, input@),
    {
        if let Some(k) = call_key(caller, target, input) {
            remember_key(&mut self.allowance_keys, k);
        }
    }

    /// The allowances touched so far, each once, in the order first
    /// touched: those the capture will compare.
    pub fn allowance_keys(&self) -> (res: Vec<AllowanceKey>)
        ensures
            key_views(res@) == self@.allowance_keys,
    {
        let mut out: Vec<AllowanceKey> = Vec::new();
        let mut i: usize = 0;
        while i < self.allowance_keys.len()
            invariant
                0 <= i <= self.allowance_keys@.len(),
                out@ == self.allowance_keys@.take(i as int),
            decreases self.allowance_keys@.len() - i,
        {
            out.push(self.allowance_keys[i]);
            assert(self.allowance_keys@.take(i + 1)
                =~= self.allowance_keys@.take(i as int).push(self.allowance_keys@[i as int]));
            i = i + 1;
        }
        assert(self.allowance_keys@.take(i as int) =~= self.allowance_keys@);
        out
    }
}

} // verus!
