//! Properties of the inspector and of the text forms that hold across calls.

use vstd::prelude::*;
use crate::inspector::{
    after_balance_check, after_capture, after_detect, after_initialize, after_log, after_step,
    after_call, allowance_change, allowance_changes_for, allowance_key_of_call, arg_address, balance_delta,
    designator_target, fresh_inspector, is_zero_address, reading_for, selector_is, AccountSnapshot,
    AllowanceChangeView, AllowanceKeyView, AllowanceReadingView, AnalysisView, BalanceChangeView, InspectorView,
    TxTarget,
};
use crate::render::{hex_char, hex_lower, lemma_hex_lower_len, prefixed_hex};
use crate::parse::{
    decode_hex_fixed, digit_value, digits_value, digits_value_skipping_underscores, hex_digits,
    hex_pairs, hex_u64_or, hex_word_or, strip_prefixes, u256_modulus, without_hex_prefix, zero_x,
};
use crate::upstream::quantity_text;
use crate::inspector::transfers_of_log;
use crate::abi::be_value;
use crate::render::decimal;

verus! {

// ---------------------------------------------------------------------------
// Runs of the inspector
// ---------------------------------------------------------------------------

/// One call made on the inspector while a transaction is simulated.
pub enum InspectorEvent {
    Initialize {
        caller: Seq<u8>,
        target: Seq<u8>,
        caller_account: Option<AccountSnapshot>,
        target_account: Option<AccountSnapshot>,
        target_code: Option<Seq<u8>>,
    },
    Step { opcode: u8 },
    Log { address: Seq<u8>, topics: Seq<Seq<u8>>, data: Seq<u8> },
    Call { caller: Seq<u8>, target: Seq<u8>, input: Seq<u8> },
    Capture {
        caller: Seq<u8>,
        target: Seq<u8>,
        caller_account: Option<AccountSnapshot>,
        target_account: Option<AccountSnapshot>,
        readings: Seq<AllowanceReadingView>,
    },
    Detect { target: TxTarget, target_account: Option<AccountSnapshot>, new_code: Option<Seq<u8>> },
}

/// The inspector after one call.
pub open spec fn apply_event(s: InspectorView, e: InspectorEvent) -> InspectorView {
    match e {
        InspectorEvent::Initialize { caller, target, caller_account, target_account, target_code } =>
            after_initialize(s, caller, target, caller_account, target_account, target_code),
        InspectorEvent::Step { opcode } => after_step(s, opcode),
        InspectorEvent::Log { address, topics, data } => after_log(s, address, topics, data),
        InspectorEvent::Call { caller, target, input } => after_call(s, caller, target, input),
        InspectorEvent::Capture { caller, target, caller_account, target_account, readings } =>
            after_capture(s, caller, target, caller_account, target_account, readings),
        InspectorEvent::Detect { target, target_account, new_code } =>
            after_detect(s, target, target_account, new_code),
    }
}

/// The inspector after a sequence of calls, the first one first.
pub open spec fn run(s: InspectorView, events: Seq<InspectorEvent>) -> InspectorView
    decreases events.len(),
{
    if events.len() == 0 {
        s
    } else {
        apply_event(run(s, events.drop_last()), events.last())
    }
}

/// The number of executed opcodes equal to `opcode` in a run.
pub open spec fn opcode_count(events: Seq<InspectorEvent>, opcode: u8) -> nat
    decreases events.len(),
{
    if events.len() == 0 {
        0
    } else {
        opcode_count(events.drop_last(), opcode) + match events.last() {
            InspectorEvent::Step { opcode: o } => if o == opcode { 1nat } else { 0nat },
            _ => 0nat,
        }
    }
}

/// Whether a run executes `opcode`.
pub open spec fn executes(events: Seq<InspectorEvent>, opcode: u8) -> bool {
    exists|i: int| 0 <= i < events.len() && #[trigger] events[i] == (InspectorEvent::Step { opcode })
}

/// `b` holds everything `a` reported: the counters did not go down, a
/// SELFDESTRUCT seen stays seen, and every list of findings starts with the
/// findings of `a`.
pub open spec fn report_extends(a: AnalysisView, b: AnalysisView) -> bool {
    &&& a.delegatecalls_detected <= b.delegatecalls_detected
    &&& a.storage_slots_written <= b.storage_slots_written
    &&& (a.selfdestruct_triggered ==> b.selfdestruct_triggered)
    &&& b.eth_transferred_wei == a.eth_transferred_wei
    &&& a.balance_changes.is_prefix_of(b.balance_changes)
    &&& a.allowance_changes.is_prefix_of(b.allowance_changes)
    &&& a.token_transfers.is_prefix_of(b.token_transfers)
    &&& a.delegation_changes.is_prefix_of(b.delegation_changes)
    &&& a.storage_diffs.is_prefix_of(b.storage_diffs)
    &&& a.logs_emitted.is_prefix_of(b.logs_emitted)
}

proof fn lemma_prefix_push<A>(a: Seq<A>, x: A)
    ensures
        a.is_prefix_of(a.push(x)),
{
}

proof fn lemma_prefix_append<A>(a: Seq<A>, b: Seq<A>)
    ensures
        a.is_prefix_of(a + b),
{
    assert((a + b).subrange(0, a.len() as int) =~= a);
}

proof fn lemma_prefix_trans<A>(a: Seq<A>, b: Seq<A>, c: Seq<A>)
    requires
        a.is_prefix_of(b),
        b.is_prefix_of(c),
    ensures
        a.is_prefix_of(c),
{
}

proof fn lemma_extends_refl(a: AnalysisView)
    ensures
        report_extends(a, a),
{
}

proof fn lemma_extends_trans(a: AnalysisView, b: AnalysisView, c: AnalysisView)
    requires
        report_extends(a, b),
        report_extends(b, c),
    ensures
        report_extends(a, c),
{
    lemma_prefix_trans(a.balance_changes, b.balance_changes, c.balance_changes);
    lemma_prefix_trans(a.allowance_changes, b.allowance_changes, c.allowance_changes);
    lemma_prefix_trans(a.token_transfers, b.token_transfers, c.token_transfers);
    lemma_prefix_trans(a.delegation_changes, b.delegation_changes, c.delegation_changes);
    lemma_prefix_trans(a.storage_diffs, b.storage_diffs, c.storage_diffs);
    lemma_prefix_trans(a.logs_emitted, b.logs_emitted, c.logs_emitted);
}

proof fn lemma_balance_check_extends(s: InspectorView, addr: Seq<u8>, account: Option<AccountSnapshot>)
    ensures
        report_extends(s.analysis, after_balance_check(s, addr, account).analysis),
{
    let t = after_balance_check(s, addr, account);
    if t.analysis.balance_changes.len() > s.analysis.balance_changes.len() {
        let x = t.analysis.balance_changes.last();
        lemma_prefix_push(s.analysis.balance_changes, x);
    }
}

proof fn lemma_event_extends(s: InspectorView, e: InspectorEvent)
    ensures
        report_extends(s.analysis, apply_event(s, e).analysis),
{
    let t = apply_event(s, e);
    match e {
        InspectorEvent::Capture { caller, target, caller_account, target_account, readings } => {
            let m = after_balance_check(s, caller, caller_account);
            let m2 = if target == caller { m } else { after_balance_check(m, target, target_account) };
            lemma_balance_check_extends(s, caller, caller_account);
            lemma_balance_check_extends(m, target, target_account);
            lemma_extends_refl(m.analysis);
            lemma_extends_trans(s.analysis, m.analysis, m2.analysis);
            let added = t.analysis.allowance_changes.subrange(
                m2.analysis.allowance_changes.len() as int,
                t.analysis.allowance_changes.len() as int,
            );
            assert(t.analysis.allowance_changes =~= m2.analysis.allowance_changes + added);
            lemma_prefix_append(m2.analysis.allowance_changes, added);
            lemma_extends_refl(m2.analysis);
            lemma_extends_trans(s.analysis, m2.analysis, t.analysis);
        },
        InspectorEvent::Log { address, topics, data } => {
            lemma_prefix_push(s.analysis.logs_emitted, t.analysis.logs_emitted.last());
            let added = t.analysis.token_transfers.subrange(
                s.analysis.token_transfers.len() as int,
                t.analysis.token_transfers.len() as int,
            );
            assert(t.analysis.token_transfers =~= s.analysis.token_transfers + added);
            lemma_prefix_append(s.analysis.token_transfers, added);
        },
        _ => {
            if t.analysis.delegation_changes.len() > s.analysis.delegation_changes.len() {
                lemma_prefix_push(s.analysis.delegation_changes, t.analysis.delegation_changes.last());
            }
            if t.analysis.logs_emitted.len() > s.analysis.logs_emitted.len() {
                lemma_prefix_push(s.analysis.logs_emitted, t.analysis.logs_emitted.last());
            }
        },
    }
}

/// Findings are never taken back: whatever calls are made on the inspector,
/// its counters do not go down, a SELFDESTRUCT once seen stays seen, and
/// each list of findings only grows at its end.
pub proof fn lemma_findings_are_never_retracted(s: InspectorView, events: Seq<InspectorEvent>)
    ensures
        report_extends(s.analysis, run(s, events).analysis),
    decreases events.len(),
{
    if events.len() == 0 {
        lemma_extends_refl(s.analysis);
    } else {
        let m = run(s, events.drop_last());
        lemma_findings_are_never_retracted(s, events.drop_last());
        lemma_event_extends(m, events.last());
        lemma_extends_trans(s.analysis, m.analysis, run(s, events).analysis);
    }
}

/// The report has no source for storage diffs or the transferred ether:
/// whatever calls are made on the inspector, those parts of the report stay
/// as they were.
pub proof fn lemma_untracked_findings_stay_unchanged(s: InspectorView, events: Seq<InspectorEvent>)
    ensures
        run(s, events).analysis.storage_diffs == s.analysis.storage_diffs,
        run(s, events).analysis.eth_transferred_wei == s.analysis.eth_transferred_wei,
    decreases events.len(),
{
    if events.len() > 0 {
        lemma_untracked_findings_stay_unchanged(s, events.drop_last());
    }
}

/// Each DELEGATECALL (0xF4) and SSTORE (0x55) that the EVM executes is
/// counted exactly once, and nothing else changes the two counters; the
/// SELFDESTRUCT flag is set exactly when a SELFDESTRUCT (0xFF) was executed
/// or it was set before.
pub proof fn lemma_opcodes_are_counted(s: InspectorView, events: Seq<InspectorEvent>)
    ensures
        run(s, events).analysis.delegatecalls_detected
            == s.analysis.delegatecalls_detected + opcode_count(events, 0xF4u8),
        run(s, events).analysis.storage_slots_written
            == s.analysis.storage_slots_written + opcode_count(events, 0x55u8),
        run(s, events).analysis.selfdestruct_triggered
            == (s.analysis.selfdestruct_triggered || executes(events, 0xFFu8)),
    decreases events.len(),
{
    if events.len() > 0 {
        let prefix = events.drop_last();
        lemma_opcodes_are_counted(s, prefix);
        let e = events.last();
        if executes(prefix, 0xFFu8) {
            let i = choose|i: int| 0 <= i < prefix.len() && #[trigger] prefix[i] == (InspectorEvent::Step { opcode: 0xFFu8 });
            assert(events[i] == prefix[i]);
        }
        if executes(events, 0xFFu8) {
            let i = choose|i: int| 0 <= i < events.len() && #[trigger] events[i] == (InspectorEvent::Step { opcode: 0xFFu8 });
            if i < prefix.len() {
                assert(prefix[i] == events[i]);
            }
        }
        if e == (InspectorEvent::Step { opcode: 0xFFu8 }) {
            assert(events[events.len() - 1] == e);
        }
    } else {
        assert(!executes(events, 0xFFu8));
    }
}

/// A recipient whose code is an EIP-7702 delegation designator when the
/// transaction starts is reported at once, with the delegate it names.
pub proof fn lemma_delegated_recipient_reported_at_load(
    s: InspectorView,
    caller: Seq<u8>,
    target: Seq<u8>,
    caller_account: Option<AccountSnapshot>,
    account: AccountSnapshot,
    code: Seq<u8>,
)
    requires
        !is_zero_address(target),
        designator_target(code) is Some,
    ensures
        ({
            let t = after_initialize(s, caller, target, caller_account, Some(account), Some(code));
            &&& t.analysis.delegation_changes.len() == s.analysis.delegation_changes.len() + 1
            &&& t.analysis.delegation_changes.last().address == crate::render::prefixed_hex(target)
            &&& t.analysis.delegation_changes.last().delegated_to
                == Some(crate::render::prefixed_hex(designator_target(code)->0))
        }),
{
}

/// A recipient whose code hash has not changed since the frame started is
/// not reported again when the transaction ends, whatever opcodes ran and
/// logs were emitted in between; one whose hash changed is reported once,
/// with both hashes.
pub proof fn lemma_code_change_reported_once(
    s: InspectorView,
    caller: Seq<u8>,
    to: crate::primitives::Addr,
    caller_account: Option<AccountSnapshot>,
    start: AccountSnapshot,
    code: Option<Seq<u8>>,
    opcodes: Seq<u8>,
    end: AccountSnapshot,
    new_code: Option<Seq<u8>>,
)
    requires
        !is_zero_address(to.bytes@),
    ensures
        ({
            let s1 = after_initialize(s, caller, to.bytes@, caller_account, Some(start), code);
            let s2 = run_opcodes(s1, opcodes);
            let s3 = after_detect(s2, TxTarget::Call(to), Some(end), new_code);
            &&& (end.code_hash.bytes@ == start.code_hash.bytes@ ==> s3 == s2)
            &&& (end.code_hash.bytes@ != start.code_hash.bytes@ ==> {
                &&& s3.analysis.delegation_changes.len() == s2.analysis.delegation_changes.len() + 1
                &&& s3.analysis.delegation_changes.last().old_code_hash
                    == Some(crate::render::prefixed_hex(start.code_hash.bytes@))
                &&& s3.analysis.delegation_changes.last().new_code_hash
                    == Some(crate::render::prefixed_hex(end.code_hash.bytes@))
            })
        }),
{
    let s1 = after_initialize(s, caller, to.bytes@, caller_account, Some(start), code);
    lemma_opcodes_keep_code_hashes(s1, opcodes);
    assert(s1.pre_code_hashes.contains_key(to.bytes@));
    assert(s1.pre_code_hashes[to.bytes@] == start.code_hash.bytes@);
}

/// The inspector after a sequence of executed opcodes.
pub open spec fn run_opcodes(s: InspectorView, opcodes: Seq<u8>) -> InspectorView
    decreases opcodes.len(),
{
    if opcodes.len() == 0 {
        s
    } else {
        after_step(run_opcodes(s, opcodes.drop_last()), opcodes.last())
    }
}

proof fn lemma_opcodes_keep_code_hashes(s: InspectorView, opcodes: Seq<u8>)
    ensures
        run_opcodes(s, opcodes).pre_code_hashes == s.pre_code_hashes,
        run_opcodes(s, opcodes).pre_balances == s.pre_balances,
    decreases opcodes.len(),
{
    if opcodes.len() > 0 {
        lemma_opcodes_keep_code_hashes(s, opcodes.drop_last());
    }
}

/// The start balance of an account is compared once: after the balances are
/// captured, the start balances of the compared sender and recipient are
/// gone; and a transaction to oneself whose balance did not change reports
/// nothing.
pub proof fn lemma_start_balances_used_up(
    s: InspectorView,
    caller: Seq<u8>,
    target: Seq<u8>,
    caller_account: AccountSnapshot,
    target_account: AccountSnapshot,
    readings: Seq<AllowanceReadingView>,
)
    ensures
        ({
            let t = after_capture(s, caller, target, Some(caller_account), Some(target_account), readings);
            &&& (!is_zero_address(caller) ==> !t.pre_balances.contains_key(caller))
            &&& (!is_zero_address(target) ==> !t.pre_balances.contains_key(target))
            &&& ((target == caller && s.pre_balances.contains_key(caller)
                && s.pre_balances[caller] == caller_account.balance.value())
                ==> t.analysis.balance_changes == s.analysis.balance_changes)
        }),
{
}

/// A balance change is reported exactly when the balance differs, and the
/// report gives both balances and the signed move between them.
pub proof fn lemma_balance_change_reported_iff_changed(
    s: InspectorView,
    addr: Seq<u8>,
    account: AccountSnapshot,
)
    requires
        !is_zero_address(addr),
    ensures
        ({
            let pre = if s.pre_balances.contains_key(addr) { s.pre_balances[addr] } else { 0nat };
            let post = account.balance.value();
            let t = after_balance_check(s, addr, Some(account));
            &&& (pre == post <==> t.analysis.balance_changes == s.analysis.balance_changes)
            &&& (pre != post ==> t.analysis.balance_changes.last() == BalanceChangeView {
                address: crate::render::prefixed_hex(addr),
                pre_balance: crate::render::decimal(pre),
                post_balance: crate::render::decimal(post),
                delta: balance_delta(pre, post),
            })
        }),
{
    let t = after_balance_check(s, addr, Some(account));
    let pre = if s.pre_balances.contains_key(addr) { s.pre_balances[addr] } else { 0nat };
    if pre != account.balance.value() {
        assert(t.analysis.balance_changes.len() == s.analysis.balance_changes.len() + 1);
    }
}

/// A fresh inspector that sees only executed opcodes counts every
/// DELEGATECALL (0xF4) and every SSTORE (0x55) among them, flags
/// SELFDESTRUCT exactly when a 0xFF was executed, and reports nothing else.
pub proof fn lemma_step_counts_from_fresh(opcodes: Seq<u8>)
    ensures
        ({
            let t = run_opcodes(fresh_inspector(), opcodes).analysis;
            &&& t.delegatecalls_detected == opcodes.filter(|o: u8| o == 0xF4u8).len()
            &&& t.storage_slots_written == opcodes.filter(|o: u8| o == 0x55u8).len()
            &&& t.selfdestruct_triggered == opcodes.contains(0xFFu8)
            &&& t.balance_changes.len() == 0
            &&& t.allowance_changes.len() == 0
            &&& t.token_transfers.len() == 0
            &&& t.delegation_changes.len() == 0
            &&& t.logs_emitted.len() == 0
        }),
    decreases opcodes.len(),
{
    if opcodes.len() == 0 {
        assert(opcodes.filter(|o: u8| o == 0xF4u8) =~= Seq::<u8>::empty()) by {
            reveal_with_fuel(Seq::filter, 1);
        }
        assert(opcodes.filter(|o: u8| o == 0x55u8) =~= Seq::<u8>::empty()) by {
            reveal_with_fuel(Seq::filter, 1);
        }
    } else {
        let prefix = opcodes.drop_last();
        let last = opcodes.last();
        lemma_step_counts_from_fresh(prefix);
        assert(prefix.push(last) =~= opcodes);
        prefix.lemma_filter_len_push(|o: u8| o == 0xF4u8, last);
        prefix.lemma_filter_len_push(|o: u8| o == 0x55u8, last);
        if prefix.contains(0xFFu8) {
            let i = choose|i: int| 0 <= i < prefix.len() && prefix[i] == 0xFFu8;
            assert(opcodes[i] == 0xFFu8);
        }
        if opcodes.contains(0xFFu8) && last != 0xFFu8 {
            let i = choose|i: int| 0 <= i < opcodes.len() && opcodes[i] == 0xFFu8;
            assert(prefix[i] == 0xFFu8);
        }
        if last == 0xFFu8 {
            assert(opcodes[opcodes.len() - 1] == 0xFFu8);
        }
    }
}

/// A `transferFrom(owner, to, amount)` call spends the allowance the owner
/// gives the caller, and an `approve(spender, amount)` call sets the one the
/// caller gives the spender: either call notes that allowance of the called
/// token as touched, whether or not the token emits an `Approval`.
pub proof fn lemma_spending_and_approving_touch_the_allowance(
    s: InspectorView,
    caller: Seq<u8>,
    token: Seq<u8>,
    input: Seq<u8>,
)
    ensures
        (selector_is(input, 0x23u8, 0xb8u8, 0x72u8, 0xddu8) && input.len() >= 100) ==> after_call(
            s,
            caller,
            token,
            input,
        ).allowance_keys.contains(AllowanceKeyView { token, owner: arg_address(input, 0), spender: caller }),
        (selector_is(input, 0x09u8, 0x5eu8, 0xa7u8, 0xb3u8) && input.len() >= 68) ==> after_call(
            s,
            caller,
            token,
            input,
        ).allowance_keys.contains(AllowanceKeyView { token, owner: caller, spender: arg_address(input, 0) }),
{
    match allowance_key_of_call(caller, token, input) {
        Some(k) => {
            if !s.allowance_keys.contains(k) {
                assert(s.allowance_keys.push(k)[s.allowance_keys.len() as int] == k);
            }
        },
        None => {},
    }
}

/// The allowance changes reported at capture are exactly the touched
/// allowances whose value read before the transaction differs from the
/// value read after it, each with both values and the signed move.
pub proof fn lemma_allowance_change_reported_iff_moved(
    keys: Seq<AllowanceKeyView>,
    readings: Seq<AllowanceReadingView>,
)
    ensures
        forall|k: AllowanceKeyView|
            #![trigger keys.contains(k)]
            keys.contains(k) && reading_for(readings, k) is Some
                && reading_for(readings, k)->0.before != reading_for(readings, k)->0.after
                ==> allowance_changes_for(keys, readings).contains(
                    allowance_change(k, reading_for(readings, k)->0.before, reading_for(readings, k)->0.after),
                ),
        forall|c: AllowanceChangeView|
            #![trigger allowance_changes_for(keys, readings).contains(c)]
            allowance_changes_for(keys, readings).contains(c) ==> exists|k: AllowanceKeyView|
                #![trigger keys.contains(k)]
                keys.contains(k) && reading_for(readings, k) is Some
                    && reading_for(readings, k)->0.before != reading_for(readings, k)->0.after
                    && c == allowance_change(k, reading_for(readings, k)->0.before, reading_for(readings, k)->0.after),
    decreases keys.len(),
{
    if keys.len() > 0 {
        let prefix = keys.drop_last();
        let last = keys.last();
        lemma_allowance_change_reported_iff_moved(prefix, readings);
        let prev = allowance_changes_for(prefix, readings);
        let all = allowance_changes_for(keys, readings);
        assert forall|k: AllowanceKeyView|
            #![trigger keys.contains(k)]
            keys.contains(k) && reading_for(readings, k) is Some
                && reading_for(readings, k)->0.before != reading_for(readings, k)->0.after
            implies all.contains(
                allowance_change(k, reading_for(readings, k)->0.before, reading_for(readings, k)->0.after),
            ) by {
            let c = allowance_change(k, reading_for(readings, k)->0.before, reading_for(readings, k)->0.after);
            if k == last {
                assert(all == prev.push(c));
                assert(all[prev.len() as int] == c);
            } else {
                let i = choose|i: int| 0 <= i < keys.len() && keys[i] == k;
                assert(i < prefix.len());
                assert(prefix[i] == k);
                assert(prefix.contains(k));
                assert(prev.contains(c));
                let j = choose|j: int| 0 <= j < prev.len() && prev[j] == c;
                assert(all[j] == c);
            }
        }
        assert forall|c: AllowanceChangeView|
            #![trigger all.contains(c)]
            all.contains(c) implies exists|k: AllowanceKeyView|
                #![trigger keys.contains(k)]
                keys.contains(k) && reading_for(readings, k) is Some
                    && reading_for(readings, k)->0.before != reading_for(readings, k)->0.after
                    && c == allowance_change(k, reading_for(readings, k)->0.before, reading_for(readings, k)->0.after) by {
            let j = choose|j: int| 0 <= j < all.len() && all[j] == c;
            if j < prev.len() {
                assert(prev[j] == c);
                assert(prev.contains(c));
                let k = choose|k: AllowanceKeyView|
                    #![trigger prefix.contains(k)]
                    prefix.contains(k) && reading_for(readings, k) is Some
                        && reading_for(readings, k)->0.before != reading_for(readings, k)->0.after
                        && c == allowance_change(k, reading_for(readings, k)->0.before, reading_for(readings, k)->0.after);
                let i = choose|i: int| 0 <= i < prefix.len() && prefix[i] == k;
                assert(keys[i] == k);
                assert(keys.contains(k));
            } else {
                assert(keys[keys.len() - 1] == last);
                assert(keys.contains(last));
            }
        }
    }
}

// ---------------------------------------------------------------------------
// Token transfers and touched allowances, read off the raw bytes
// ---------------------------------------------------------------------------

/// The address in a 32-byte topic or ABI word, as the report writes it:
/// `0x` and the hex of its last 20 bytes, in order.
pub open spec fn word_address_text(word: Seq<u8>) -> Seq<char> {
    prefixed_hex(Seq::new(20, |m: int| word[12 + m]))
}

/// An ERC-20 `Transfer(from, to, amount)` log (topic `0xddf252ad…`, from and
/// to indexed, the amount as its one data word) is reported as one ERC-20
/// transfer of the token that emitted it, from the address in the second
/// topic to the one in the third, of the whole 256-bit amount the data holds.
pub proof fn lemma_erc20_transfer_reports_the_full_amount(
    token: Seq<u8>,
    topics: Seq<Seq<u8>>,
    data: Seq<u8>,
)
    requires
        topics.len() == 3,
        forall|i: int| 0 <= i < 3 ==> #[trigger] topics[i].len() == 32,
        topics[0][0] == 0xddu8 && topics[0][1] == 0xf2u8 && topics[0][2] == 0x52u8 && topics[0][3] == 0xadu8,
        data.len() == 32,
    ensures
        ({
            let t = transfers_of_log(token, topics, data);
            &&& t.len() == 1
            &&& t[0].token == prefixed_hex(token)
            &&& t[0].from == word_address_text(topics[1])
            &&& t[0].to == word_address_text(topics[2])
            &&& t[0].value == decimal(be_value(data))
            &&& t[0].token_type == "ERC20"@
        }),
{
    assert(data.subrange(0, 32) =~= data);
    assert(topics[1].subrange(12, 32) =~= Seq::new(20, |m: int| topics[1][12 + m]));
    assert(topics[2].subrange(12, 32) =~= Seq::new(20, |m: int| topics[2][12 + m]));
}

/// An ERC-721 `Transfer(from, to, tokenId)` log (the same topic, all three
/// arguments indexed, no data) is reported as one ERC-721 transfer from the
/// second topic's address to the third's, whose value is the whole 256-bit
/// token id of the fourth topic.
pub proof fn lemma_erc721_transfer_reports_the_full_token_id(
    token: Seq<u8>,
    topics: Seq<Seq<u8>>,
    data: Seq<u8>,
)
    requires
        topics.len() == 4,
        forall|i: int| 0 <= i < 4 ==> #[trigger] topics[i].len() == 32,
        topics[0][0] == 0xddu8 && topics[0][1] == 0xf2u8 && topics[0][2] == 0x52u8 && topics[0][3] == 0xadu8,
        data.len() == 0,
    ensures
        ({
            let t = transfers_of_log(token, topics, data);
            &&& t.len() == 1
            &&& t[0].token == prefixed_hex(token)
            &&& t[0].from == word_address_text(topics[1])
            &&& t[0].to == word_address_text(topics[2])
            &&& t[0].value == decimal(be_value(topics[3]))
            &&& t[0].token_type == "ERC721"@
        }),
{
    assert(topics[1].subrange(12, 32) =~= Seq::new(20, |m: int| topics[1][12 + m]));
    assert(topics[2].subrange(12, 32) =~= Seq::new(20, |m: int| topics[2][12 + m]));
}

/// An ERC-1155 `TransferSingle(operator, from, to, id, value)` log (topic
/// `0xc3d58168…`, operator, from and to indexed, id and value as the two
/// data words) is reported as one ERC-1155 transfer from the third topic's
/// address to the fourth's, of the whole 256-bit value in the second word.
pub proof fn lemma_erc1155_single_reports_the_full_value(
    token: Seq<u8>,
    topics: Seq<Seq<u8>>,
    data: Seq<u8>,
)
    requires
        topics.len() == 4,
        forall|i: int| 0 <= i < 4 ==> #[trigger] topics[i].len() == 32,
        topics[0][0] == 0xc3u8 && topics[0][1] == 0xd5u8 && topics[0][2] == 0x81u8 && topics[0][3] == 0x68u8,
        data.len() == 64,
    ensures
        ({
            let t = transfers_of_log(token, topics, data);
            &&& t.len() == 1
            &&& t[0].token == prefixed_hex(token)
            &&& t[0].from == word_address_text(topics[2])
            &&& t[0].to == word_address_text(topics[3])
            &&& t[0].value == decimal(be_value(data.subrange(32, 64)))
            &&& t[0].token_type == "ERC1155"@
        }),
{
    assert(topics[2].subrange(12, 32) =~= Seq::new(20, |m: int| topics[2][12 + m]));
    assert(topics[3].subrange(12, 32) =~= Seq::new(20, |m: int| topics[3][12 + m]));
}

/// Every transfer reported for an ERC-1155 `TransferBatch(operator, from, to,
/// ids, values)` log (topic `0x4a39dc06…`) is an ERC-1155 transfer of the
/// token that emitted it, from the third topic's address to the fourth's.
/// The transfers, when there are any, are one per entry of the `values`
/// array, whose offset is the second data word, in order: the `k`-th carries
/// the whole 256-bit `k`-th entry.
pub proof fn lemma_erc1155_batch_reports_sender_and_recipient(
    token: Seq<u8>,
    topics: Seq<Seq<u8>>,
    data: Seq<u8>,
)
    requires
        topics.len() == 4,
        forall|i: int| 0 <= i < 4 ==> #[trigger] topics[i].len() == 32,
        topics[0][0] == 0x4au8 && topics[0][1] == 0x39u8 && topics[0][2] == 0xdcu8 && topics[0][3] == 0x06u8,
    ensures
        ({
            let ts = transfers_of_log(token, topics, data);
            let off = be_value(data.subrange(32, 64)) as int;
            &&& ts.len() > 0 ==> data.len() >= 64 && off + 32 <= data.len()
                && ts.len() == be_value(data.subrange(off, off + 32))
            &&& forall|k: int|
                0 <= k < ts.len() ==> {
                    let t = #[trigger] ts[k];
                    &&& t.token == prefixed_hex(token)
                    &&& t.from == word_address_text(topics[2])
                    &&& t.to == word_address_text(topics[3])
                    &&& t.token_type == "ERC1155"@
                    &&& t.value == decimal(be_value(data.subrange(off + 32 + 32 * k, off + 64 + 32 * k)))
                }
        }),
{
    assert(topics[2].subrange(12, 32) =~= Seq::new(20, |m: int| topics[2][12 + m]));
    assert(topics[3].subrange(12, 32) =~= Seq::new(20, |m: int| topics[3][12 + m]));
}

/// An ERC-20 `Approval(owner, spender, amount)` log (topic `0x8c5be1e5…`,
/// owner and spender indexed, the amount as its one data word) touches the
/// allowance of the token that emitted it, owner and spender being the last
/// 20 bytes of the second and third topics, in order.
pub proof fn lemma_approval_log_reads_topic_bytes(token: Seq<u8>, topics: Seq<Seq<u8>>, data: Seq<u8>)
    requires
        topics.len() == 3,
        forall|i: int| 0 <= i < 3 ==> #[trigger] topics[i].len() == 32,
        topics[0][0] == 0x8cu8 && topics[0][1] == 0x5bu8 && topics[0][2] == 0xe1u8 && topics[0][3] == 0xe5u8,
        data.len() == 32,
    ensures
        ({
            let k = crate::inspector::approval_key_of_log(token, topics, data)->0;
            &&& crate::inspector::approval_key_of_log(token, topics, data) is Some
            &&& k.token == token
            &&& k.owner.len() == 20
            &&& k.spender.len() == 20
            &&& forall|m: int| 0 <= m < 20 ==> #[trigger] k.owner[m] == topics[1][12 + m]
            &&& forall|m: int| 0 <= m < 20 ==> #[trigger] k.spender[m] == topics[2][12 + m]
        }),
{
}

/// The addresses an ERC-20 call names are its ABI address arguments, each
/// the 20 bytes at the end of its 32-byte word, in order: `transferFrom`
/// (`0x23b872dd`) touches what its first argument gives the caller,
/// `approve` (`0x095ea7b3`), `increaseAllowance` (`0x39509351`) and
/// `decreaseAllowance` (`0xa457c2d7`) what the caller gives its first
/// argument, and
/// `permit` (`0xd505accf`) what the first argument gives the second, all on
/// the called token.
pub proof fn lemma_allowance_call_reads_argument_bytes(caller: Seq<u8>, token: Seq<u8>, input: Seq<u8>)
    ensures
        (input.len() >= 100 && input[0] == 0x23u8 && input[1] == 0xb8u8 && input[2] == 0x72u8 && input[3] == 0xddu8)
            ==> ({
            let k = allowance_key_of_call(caller, token, input)->0;
            &&& allowance_key_of_call(caller, token, input) is Some
            &&& k.token == token
            &&& k.spender == caller
            &&& k.owner.len() == 20
            &&& forall|m: int| 0 <= m < 20 ==> #[trigger] k.owner[m] == input[16 + m]
        }),
        (input.len() >= 68 && input[0] == 0x09u8 && input[1] == 0x5eu8 && input[2] == 0xa7u8 && input[3] == 0xb3u8)
            ==> ({
            let k = allowance_key_of_call(caller, token, input)->0;
            &&& allowance_key_of_call(caller, token, input) is Some
            &&& k.token == token
            &&& k.owner == caller
            &&& k.spender.len() == 20
            &&& forall|m: int| 0 <= m < 20 ==> #[trigger] k.spender[m] == input[16 + m]
        }),
        (input.len() >= 68 && ((input[0] == 0x39u8 && input[1] == 0x50u8 && input[2] == 0x93u8 && input[3] == 0x51u8)
            || (input[0] == 0xa4u8 && input[1] == 0x57u8 && input[2] == 0xc2u8 && input[3] == 0xd7u8)))
            ==> ({
            let k = allowance_key_of_call(caller, token, input)->0;
            &&& allowance_key_of_call(caller, token, input) is Some
            &&& k.token == token
            &&& k.owner == caller
            &&& k.spender.len() == 20
            &&& forall|m: int| 0 <= m < 20 ==> #[trigger] k.spender[m] == input[16 + m]
        }),
        (input.len() >= 228 && input[0] == 0xd5u8 && input[1] == 0x05u8 && input[2] == 0xacu8 && input[3] == 0xcfu8)
            ==> ({
            let k = allowance_key_of_call(caller, token, input)->0;
            &&& allowance_key_of_call(caller, token, input) is Some
            &&& k.token == token
            &&& k.owner.len() == 20
            &&& k.spender.len() == 20
            &&& forall|m: int| 0 <= m < 20 ==> #[trigger] k.owner[m] == input[16 + m]
            &&& forall|m: int| 0 <= m < 20 ==> #[trigger] k.spender[m] == input[48 + m]
        }),
{
}

// ---------------------------------------------------------------------------
// Delegation designators
// ---------------------------------------------------------------------------

/// The designator of an address, `0xEF 0x01 0x00` and the 20 address bytes,
/// delegates to that address.
pub proof fn lemma_designator_names_its_address(delegate: Seq<u8>)
    requires
        delegate.len() == 20,
    ensures
        designator_target(seq![0xEFu8, 0x01u8, 0x00u8] + delegate) == Some(delegate),
{
    let code = seq![0xEFu8, 0x01u8, 0x00u8] + delegate;
    assert(code.subrange(3, 23) =~= delegate);
}

/// A designator is exactly 23 bytes: code of any other length, a prefix of
/// a designator or a designator with more bytes after it, delegates nowhere.
pub proof fn lemma_designator_is_exactly_23_bytes(code: Seq<u8>)
    requires
        code.len() != 23,
    ensures
        designator_target(code) is None,
{
}

// ---------------------------------------------------------------------------
// Text forms read back
// ---------------------------------------------------------------------------

proof fn lemma_hex_char_digit(n: int)
    requires
        0 <= n < 16,
    ensures
        digit_value(hex_char(n), 16) == Some(n as nat),
        hex_char(n) != 'x',
        hex_char(n) != '+',
        hex_char(n) != '_',
{
}

proof fn lemma_hex_lower_at(bytes: Seq<u8>, i: int)
    requires
        0 <= i < bytes.len(),
    ensures
        hex_lower(bytes).len() == 2 * bytes.len(),
        hex_lower(bytes)[2 * i] == hex_char(bytes[i] as int / 16),
        hex_lower(bytes)[2 * i + 1] == hex_char(bytes[i] as int % 16),
    decreases bytes.len(),
{
    lemma_hex_lower_len(bytes);
    lemma_hex_lower_len(bytes.drop_first());
    if i > 0 {
        lemma_hex_lower_at(bytes.drop_first(), i - 1);
        assert(bytes.drop_first()[i - 1] == bytes[i]);
    }
}

/// The text form of bytes, `0x` and lowercase hex, decodes back to the same
/// bytes; so an address or hash as the report shows it reads back as itself.
pub proof fn lemma_hex_text_reads_back(bytes: Seq<u8>)
    ensures
        decode_hex_fixed(prefixed_hex(bytes), bytes.len()) == Some(bytes),
{
    let h = hex_lower(bytes);
    lemma_hex_lower_len(bytes);
    assert(without_hex_prefix(prefixed_hex(bytes)) =~= h);
    assert forall|j: int| 0 <= j < h.len() implies (#[trigger] digit_value(h[j], 16)) is Some by {
        let i = j / 2;
        lemma_hex_lower_at(bytes, i);
        if j % 2 == 0 {
            assert(j == 2 * i);
            lemma_hex_char_digit(bytes[i] as int / 16);
        } else {
            assert(j == 2 * i + 1);
            lemma_hex_char_digit(bytes[i] as int % 16);
        }
    }
    assert forall|i: int| 0 <= i < bytes.len() implies #[trigger] hex_pairs(h)[i] == bytes[i] by {
        lemma_hex_lower_at(bytes, i);
        lemma_hex_char_digit(bytes[i] as int / 16);
        lemma_hex_char_digit(bytes[i] as int % 16);
    }
    assert(hex_pairs(h) =~= bytes);
}

proof fn lemma_hex_digits_value(n: nat)
    ensures
        digits_value(hex_digits(n), 16) == Some(n),
        digits_value_skipping_underscores(hex_digits(n), 16) == Some(n),
        hex_digits(n).len() > 0,
        hex_digits(n)[0] != '+',
        forall|i: int| 0 <= i < hex_digits(n).len() ==> #[trigger] hex_digits(n)[i] != 'x',
    decreases n,
{
    if n < 16 {
        lemma_hex_char_digit(n as int);
        let d = hex_digits(n);
        assert(d.drop_last() =~= Seq::<char>::empty());
        assert(digits_value(Seq::<char>::empty(), 16) == Some(0nat));
        assert(digits_value_skipping_underscores(Seq::<char>::empty(), 16) == Some(0nat));
        assert(d.last() == hex_char(n as int));
    } else {
        lemma_hex_digits_value(n / 16);
        lemma_hex_char_digit((n % 16) as int);
        let d = hex_digits(n);
        assert(d.drop_last() =~= hex_digits(n / 16));
        assert(d.last() == hex_char((n % 16) as int));
        assert(n / 16 * 16 + n % 16 == n);
        assert(d[0] == hex_digits(n / 16)[0]);
        assert forall|i: int| 0 <= i < d.len() implies #[trigger] d[i] != 'x' by {
            if i < d.len() - 1 {
                assert(d[i] == hex_digits(n / 16)[i]);
            }
        }
    }
}

/// A `0x` quantity as the gatekeeper writes it (block tags and slot
/// indexes) reads back as the same number, both as a 64-bit and as a
/// 256-bit quantity.
pub proof fn lemma_quantity_reads_back(n: nat, fallback: nat)
    ensures
        n <= u64::MAX ==> hex_u64_or(quantity_text(n), fallback) == n,
        n < u256_modulus() ==> hex_word_or(quantity_text(n), fallback) == n,
{
    let d = hex_digits(n);
    lemma_hex_digits_value(n);
    let q = quantity_text(n);
    assert(q.take(2) =~= zero_x());
    assert(q.skip(2) =~= d);
    if d.len() >= 2 {
        assert(d.take(2) != zero_x()) by {
            assert(d[1] != 'x');
            assert(zero_x()[1] == 'x');
        }
    }
    assert(strip_prefixes(d, zero_x()) == d);
    assert(strip_prefixes(q, zero_x()) == d);
}

} // verus!
