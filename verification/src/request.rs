//! The gatekeeper's decisions: how an intercepted `eth_sendTransaction` is
//! read into a transaction to simulate, what the user's answer at the prompt
//! yields, and how answers of the upstream node are passed on.

use vstd::prelude::*;
use vstd::string::StringExecFns;
use crate::primitives::{Addr, Word256};
use crate::inspector::TxTarget;
use crate::parse::{
    address_from_str, bytes_from_str, decode_hex_fixed, decode_hex_prefixed, eq_ignore_ascii_case,
    eq_ignoring_ascii_case, hex_u64_or, hex_word_or, parse_hex_u64_or,
    parse_hex_word_or, trim, trim_spec,
};

verus! {

/// The JSON-RPC error code the gatekeeper answers failures with.
pub const INTERNAL_ERROR: i32 = -32603;

/// A JSON-RPC error answer.
#[derive(Clone, Debug)]
pub struct RpcError {
    pub code: i32,
    pub message: String,
}

/// The fields of an intercepted `eth_sendTransaction` request that hold
/// strings; `None` where the field is missing or not a string.
#[derive(Clone, Debug)]
pub struct TxRequest {
    pub from: Option<String>,
    pub to: Option<String>,
    pub value: Option<String>,
    pub data: Option<String>,
    pub gas: Option<String>,
    pub gas_price: Option<String>,
    pub nonce: Option<String>,
}

/// The transaction that is simulated.
#[derive(Clone, Debug)]
pub struct SimTx {
    pub caller: Addr,
    pub target: TxTarget,
    pub value: Word256,
    pub data: Vec<u8>,
    pub gas_limit: u64,
    pub gas_price: Word256,
    pub nonce: u64,
    pub chain_id: u64,
}

/// A simulated transaction as plain values; `target` is `None` for a
/// contract creation.
pub struct SimTxView {
    pub caller: Seq<u8>,
    pub target: Option<Seq<u8>>,
    pub value: nat,
    pub data: Seq<u8>,
    pub gas_limit: nat,
    pub gas_price: nat,
    pub nonce: nat,
    pub chain_id: nat,
}

impl View for SimTx {
    type V = SimTxView;

    open spec fn view(&self) -> SimTxView {
        SimTxView {
            caller: self.caller.bytes@,
            target: match self.target {
                TxTarget::Call(a) => Some(a.bytes@),
                TxTarget::Create => None,
            },
            value: self.value.value(),
            data: self.data@,
            gas_limit: self.gas_limit as nat,
            gas_price: self.gas_price.value(),
            nonce: self.nonce as nat,
            chain_id: self.chain_id as nat,
        }
    }
}

/// The text of a field, or `fallback` when it is absent.
pub open spec fn field_or(field: Option<String>, fallback: Seq<char>) -> Seq<char> {
    match field {
        Some(s) => s@,
        None => fallback,
    }
}

/// The sender used when `from` is not an address: 0x1111…1111.
pub open spec fn default_sender() -> Seq<u8> {
    Seq::new(20, |i: int| 0x11u8)
}

/// The transaction that a request asks for. Missing fields default to:
/// no sender, no recipient (a creation), value `0x0`, data `0x`, gas
/// `0x5208`, gas price `0x3b9aca00`, nonce `0x0`. A sender that is not an
/// address becomes 0x1111…1111, a recipient that is not an address the zero
/// address; unparsable numbers become 0, 21000 gas, 1 gwei, nonce 0, and
/// unparsable data becomes empty. The chain id is 1.
pub open spec fn requested_tx(req: TxRequest) -> SimTxView {
    let from = field_or(req.from, Seq::empty());
    let to = field_or(req.to, Seq::empty());
    SimTxView {
        caller: match decode_hex_fixed(from, 20) {
            Some(a) => a,
            None => default_sender(),
        },
        target: if to.len() == 0 {
            None
        } else {
            match decode_hex_fixed(to, 20) {
                Some(a) => Some(a),
                None => Some(Seq::new(20, |i: int| 0u8)),
            }
        },
        value: hex_word_or(field_or(req.value, seq!['0', 'x', '0']), 0),
        data: match decode_hex_prefixed(field_or(req.data, seq!['0', 'x'])) {
            Some(b) => b,
            None => Seq::empty(),
        },
        gas_limit: hex_u64_or(field_or(req.gas, seq!['0', 'x', '5', '2', '0', '8']), 21000),
        gas_price: hex_word_or(
            field_or(req.gas_price, seq!['0', 'x', '3', 'b', '9', 'a', 'c', 'a', '0', '0']),
            1_000_000_000,
        ),
        nonce: hex_u64_or(field_or(req.nonce, seq!['0', 'x', '0']), 0),
        chain_id: 1,
    }
}

/// The text of an optional field, or a fallback.
fn field_text<'a>(field: &'a Option<String>, fallback: &'a str) -> (res: &'a str)
    ensures
        res@ == field_or(*field, fallback@),
{
    match field {
        Some(s) => s.as_str(),
        None => fallback,
    }
}

/// Reads an intercepted `eth_sendTransaction` request into the transaction
/// to simulate.
pub fn decode_transaction(req: &TxRequest) -> (res: SimTx)
    ensures
        res@ == requested_tx(*req),
{
    let empty = "";
    let zero = "0x0";
    let no_data = "0x";
    let default_gas = "0x5208";
    let default_gas_price = "0x3b9aca00";
    proof {
        reveal_strlit("");
        reveal_strlit("0x0");
        reveal_strlit("0x");
        reveal_strlit("0x5208");
        reveal_strlit("0x3b9aca00");
        assert(empty@ =~= Seq::<char>::empty());
        assert(zero@ =~= seq!['0', 'x', '0']);
        assert(no_data@ =~= seq!['0', 'x']);
        assert(default_gas@ =~= seq!['0', 'x', '5', '2', '0', '8']);
        assert(default_gas_price@ =~= seq!['0', 'x', '3', 'b', '9', 'a', 'c', 'a', '0', '0']);
    }
    let from = field_text(&req.from, empty);
    let to = field_text(&req.to, empty);
    let value = field_text(&req.value, zero);
    let data = field_text(&req.data, no_data);
    let gas = field_text(&req.gas, default_gas);
    let gas_price = field_text(&req.gas_price, default_gas_price);
    let nonce = field_text(&req.nonce, zero);

    let caller = match address_from_str(from) {
        Some(a) => a,
        None => Addr { bytes: [0x11u8; 20] },
    };
    let target = if to.is_empty() {
        TxTarget::Create
    } else {
        match address_from_str(to) {
            Some(a) => TxTarget::Call(a),
            None => TxTarget::Call(Addr::zero()),
        }
    };
    let data_bytes = match bytes_from_str(data) {
        Some(b) => b,
        None => Vec::new(),
    };
    let res = SimTx {
        caller,
        target,
        value: parse_hex_word_or(value, Word256::zero()),
        data: data_bytes,
        gas_limit: parse_hex_u64_or(gas, 21000),
        gas_price: parse_hex_word_or(gas_price, Word256 { limbs: [1_000_000_000u64, 0, 0, 0] }),
        nonce: parse_hex_u64_or(nonce, 0),
        chain_id: 1,
    };
    proof {
        assert(caller.bytes@ =~= (match decode_hex_fixed(from@, 20) {
            Some(a) => a,
            None => default_sender(),
        }));
        if to@.len() != 0 {
            assert(res@.target =~= (match decode_hex_fixed(to@, 20) {
                Some(a) => Some(a),
                None => Some(Seq::new(20, |i: int| 0u8)),
            }));
        }
        assert(res@.data =~= (match decode_hex_prefixed(data@) {
            Some(b) => b,
            None => Seq::<u8>::empty(),
        }));
    }
    res
}

/// The block the transaction is simulated in.
#[derive(Clone, Copy, Debug)]
pub struct SimulationBlock {
    pub number: u64,
    pub timestamp: u64,
    pub gas_limit: u64,
    pub chain_id: u64,
}

/// Mainnet block 20,000,000 at timestamp 1,700,000,000, with a 30,000,000
/// gas limit, on chain 1.
pub fn simulation_block() -> (res: SimulationBlock)
    ensures
        res.number == 20_000_000,
        res.timestamp == 1_700_000_000,
        res.gas_limit == 30_000_000,
        res.chain_id == 1,
{
    SimulationBlock { number: 20_000_000, timestamp: 1_700_000_000, gas_limit: 30_000_000, chain_id: 1 }
}

/// The error answered when the simulation fails.
pub fn simulation_failed(detail: &str) -> (res: RpcError)
    ensures
        res.code == INTERNAL_ERROR,
        res.message@ == "Simulation failed: "@ + detail@,
{
    let mut message = String::from_str("Simulation failed: ");
    message.append(detail);
    RpcError { code: INTERNAL_ERROR, message }
}

/// The error answered when the simulation task cannot be joined.
pub fn task_join_failed(detail: &str) -> (res: RpcError)
    ensures
        res.code == INTERNAL_ERROR,
        res.message@ == "Task join error: "@ + detail@,
{
    let mut message = String::from_str("Task join error: ");
    message.append(detail);
    RpcError { code: INTERNAL_ERROR, message }
}

/// Whether the user's answer at the prompt is a yes: `y` or `Y`, with any
/// surrounding whitespace.
pub open spec fn confirmed(answer: Seq<char>) -> bool {
    eq_ignoring_ascii_case(trim_spec(answer), seq!['y'])
}

/// Whether the user approves the transaction: the answer is `y` or `Y`,
/// with any surrounding whitespace.
pub fn approves(answer: &str) -> (res: bool)
    ensures
        res == confirmed(answer@),
{
    let yes = "y";
    proof {
        reveal_strlit("y");
        assert(yes@ =~= seq!['y']);
    }
    eq_ignore_ascii_case(trim(answer), yes)
}

/// The answer to `eth_sendTransaction` when the user does not approve it;
/// nothing is sent to the network.
pub fn refusal() -> (res: RpcError)
    ensures
        res.code == INTERNAL_ERROR,
        res.message@ == "Transaction aborted by user."@,
{
    RpcError { code: INTERNAL_ERROR, message: String::from_str("Transaction aborted by user.") }
}

/// What the gatekeeper does with a simulated transaction once the user has
/// answered: forward it to the network, or refuse it with this error.
#[derive(Clone, Debug)]
pub enum GateAction {
    Forward,
    Refuse(RpcError),
}

/// The gatekeeper's decision on the user's answer: a transaction is
/// forwarded exactly when the user approves it; otherwise it is refused with
/// the aborted-by-user error and nothing is sent.
pub fn gate(answer: &str) -> (res: GateAction)
    ensures
        (res is Forward) == confirmed(answer@),
        match res {
            GateAction::Refuse(e) => e.code == INTERNAL_ERROR && e.message@ == "Transaction aborted by user."@,
            GateAction::Forward => true,
        },
{
    if approves(answer) {
        GateAction::Forward
    } else {
        GateAction::Refuse(refusal())
    }
}

/// The answer to an approved `eth_sendTransaction`, given what the upstream
/// node answered when the transaction was forwarded to it: the transaction
/// hash it returned, or an internal error when it returned none or could not
/// be reached.
pub fn forward_reply(forwarded: Result<Option<String>, String>) -> (res: Result<String, RpcError>)
    ensures
        match forwarded {
            Ok(Some(hash)) => res is Ok && res->Ok_0@ == hash@,
            Ok(None) => res is Err && res->Err_0.code == INTERNAL_ERROR
                && res->Err_0.message@ == "Upstream node returned no transaction hash."@,
            Err(e) => res is Err && res->Err_0.code == INTERNAL_ERROR && res->Err_0.message@ == e@,
        },
{
    match forwarded {
        Ok(Some(hash)) => Ok(hash),
        Ok(None) => Err(RpcError {
            code: INTERNAL_ERROR,
            message: String::from_str("Upstream node returned no transaction hash."),
        }),
        Err(e) => Err(RpcError { code: INTERNAL_ERROR, message: e }),
    }
}

/// The reply to a request passed on to the upstream node, given what the
/// node answered: its `result` when that is a string, `0x0` when it is not,
/// and the transport error as an internal error.
pub fn upstream_reply(fetched: Result<Option<String>, String>) -> (res: Result<String, RpcError>)
    ensures
        match fetched {
            Ok(result) => res is Ok && res->Ok_0@ == field_or(result, seq!['0', 'x', '0']),
            Err(e) => res is Err && res->Err_0.code == INTERNAL_ERROR && res->Err_0.message@ == e@,
        },
{
    match fetched {
        Ok(Some(text)) => Ok(text),
        Ok(None) => {
            let zero = String::from_str("0x0");
            proof {
                reveal_strlit("0x0");
            }
            Ok(zero)
        },
        Err(e) => Err(RpcError { code: INTERNAL_ERROR, message: e }),
    }
}

} // verus!
