//! The contract loader and executor. Given a call descriptor it resolves the
//! program to run — the root system program for the reserved system account,
//! a specialized program for one reserved identity, otherwise the code the
//! account deployed — runs it against the syscall bridge with the attached
//! gas as the budget, and measures what the run consumed. What a run does is
//! mirrored by pure specification functions, so that for one state and one
//! call the outcome is a mathematical function: only a storage fault can make
//! a run deviate from its mirror, and then it is reported as one.

use vstd::prelude::*;

use crate::codec::{
    bytes_eq, bytes_fit, dec_bytes, dec_u128, dec_u32, decode_bytes, decode_u128, decode_u32,
    enc_u64,
};
use crate::context::{CallContext, CallContextV, ExecutionContext};
use crate::contracts::counter::{counter_state, Contract};
use crate::contracts::fib::{fib_w, FibContract};
use crate::contracts::token::{
    enc_token_state, spec_after_debit, spec_burn, spec_mint, spec_set_owner, spec_transfer,
    token_state_of, TokenContract,
};
use crate::errors::ErrorKind;
use crate::gas::{GAS_CALL_BASE, GAS_FIB_STEP};
use crate::names::{
    account_info_method, add_method, balance_of_method, burn_method, compute_method,
    counter_designator, create_account_method, deploy_contract_method, evm_id,
    fibonacci_designator, get_method, get_owner_method, init_method, make_account_info_method,
    make_add_method, make_balance_of_method, make_burn_method, make_compute_method,
    make_counter_designator, make_create_account_method, make_deploy_contract_method,
    make_evm_id, make_fibonacci_designator, make_get_method, make_get_owner_method,
    make_init_method, make_mint_method, make_set_owner_method, make_system_id, make_token_designator,
    make_transfer_method, mint_method, set_owner_method, system_id, token_designator,
    transfer_method,
};
use crate::storage::{effective, read_through, Storage, WriteSet};
use crate::system::{account_record, code_record_key, has_account, new_account, deployed_account};
use crate::types::{AccountId, ExecutionOutcome, ExecutionOutcomeV, TxOutcome, TxOutcomeV,
    TransactionBody, TransactionBodyV};

verus! {

/// The recursion-depth cap on nested calls.
pub const MAX_CALL_DEPTH: u64 = 16;

/// The longest output a run may commit; a longer one is a run failure.
pub const MAX_OUTPUT_BYTES: u64 = 0xff00_0000;

/// The programs this build can run for a deployed account.
#[derive(Clone, Copy, Debug, PartialEq, Eq, Structural)]
pub enum ProgramKind {
    Counter,
    Token,
    Fibonacci,
}

/// The program a deployment's code bytes designate, if any.
pub open spec fn program_of(code: Seq<u8>) -> Option<ProgramKind> {
    if code == counter_designator() {
        Some(ProgramKind::Counter)
    } else if code == token_designator() {
        Some(ProgramKind::Token)
    } else if code == fibonacci_designator() {
        Some(ProgramKind::Fibonacci)
    } else {
        None
    }
}

fn resolve_designator(code: &Vec<u8>) -> (r: Option<ProgramKind>)
    ensures
        r == program_of(code@),
{
    if bytes_eq(code, &make_counter_designator()) {
        Some(ProgramKind::Counter)
    } else if bytes_eq(code, &make_token_designator()) {
        Some(ProgramKind::Token)
    } else if bytes_eq(code, &make_fibonacci_designator()) {
        Some(ProgramKind::Fibonacci)
    } else {
        None
    }
}

/// Whether the account has code registered.
pub open spec fn has_code(eff: Map<Seq<u8>, Seq<u8>>, id: Seq<u8>) -> bool {
    eff.dom().contains(code_record_key(id))
}

/// The code registered for the account, if it is present and decodes whole.
pub open spec fn deployed_code(eff: Map<Seq<u8>, Seq<u8>>, id: Seq<u8>) -> Option<Seq<u8>> {
    let k = code_record_key(id);
    if eff.dom().contains(k) {
        match dec_bytes(eff[k], 0) {
            Some((code, p)) => if p == eff[k].len() {
                Some(code)
            } else {
                None
            },
            None => None,
        }
    } else {
        None
    }
}

/// Resolves an account's deployed program bytes.
fn load_program(storage: &Storage, ws: &WriteSet, id: &AccountId) -> (r: Result<Vec<u8>, ErrorKind>)
    ensures
        ({
            let eff = effective(storage.contents(), ws@);
            match r {
                Ok(code) => deployed_code(eff, id@) == Some(code@),
                Err(e) => match e {
                    ErrorKind::StorageFailure => true,
                    ErrorKind::MissingProgram => !has_code(eff, id@),
                    ErrorKind::CorruptedInput => has_code(eff, id@) && deployed_code(eff, id@)
                        is None,
                    _ => false,
                },
            }
        }),
{
    let system = AccountId { bytes: make_system_id() };
    let key = crate::keys::make_code_key(id);
    let full = crate::keys::make_committed_key(&system, &key);
    match read_through(storage, ws, &full)? {
        Some(bytes) => match decode_bytes(&bytes, 0) {
            Some((code, p)) => {
                if p == bytes.len() {
                    Ok(code)
                } else {
                    Err(ErrorKind::CorruptedInput)
                }
            },
            None => Err(ErrorKind::CorruptedInput),
        },
        None => Err(ErrorKind::MissingProgram),
    }
}

/// One byte string, decoded whole.
pub open spec fn dec_bytes_exact(args: Seq<u8>) -> Option<Seq<u8>> {
    match dec_bytes(args, 0) {
        Some((b, p)) => if p == args.len() {
            Some(b)
        } else {
            None
        },
        None => None,
    }
}

fn args_bytes_exact(args: &Vec<u8>) -> (r: Option<Vec<u8>>)
    ensures
        match r {
            Some(b) => dec_bytes_exact(args@) == Some(b@),
            None => dec_bytes_exact(args@) is None,
        },
{
    match decode_bytes(args, 0) {
        Some((b, p)) => if p == args.len() {
            Some(b)
        } else {
            None
        },
        None => None,
    }
}

/// Two byte strings, decoded whole.
pub open spec fn dec_two_bytes_exact(args: Seq<u8>) -> Option<(Seq<u8>, Seq<u8>)> {
    match dec_bytes(args, 0) {
        Some((a, p1)) => match dec_bytes(args, p1) {
            Some((b, p2)) => if p2 == args.len() {
                Some((a, b))
            } else {
                None
            },
            None => None,
        },
        None => None,
    }
}

fn args_two_bytes_exact(args: &Vec<u8>) -> (r: Option<(Vec<u8>, Vec<u8>)>)
    ensures
        match r {
            Some(v) => dec_two_bytes_exact(args@) == Some((v.0@, v.1@)),
            None => dec_two_bytes_exact(args@) is None,
        },
{
    match decode_bytes(args, 0) {
        Some((a, p1)) => match decode_bytes(args, p1) {
            Some((b, p2)) => if p2 == args.len() {
                Some((a, b))
            } else {
                None
            },
            None => None,
        },
        None => None,
    }
}

/// One 128-bit amount, decoded whole.
pub open spec fn dec_u128_exact(args: Seq<u8>) -> Option<u128> {
    match dec_u128(args, 0) {
        Some((x, p)) => if p == args.len() {
            Some(x)
        } else {
            None
        },
        None => None,
    }
}

fn args_u128_exact(args: &Vec<u8>) -> (r: Option<u128>)
    ensures
        r == dec_u128_exact(args@),
{
    match decode_u128(args, 0) {
        Some((x, p)) => if p == args.len() {
            Some(x)
        } else {
            None
        },
        None => None,
    }
}

/// One 32-bit index, decoded whole.
pub open spec fn dec_u32_exact(args: Seq<u8>) -> Option<u32> {
    match dec_u32(args, 0) {
        Some((x, p)) => if p == args.len() {
            Some(x)
        } else {
            None
        },
        None => None,
    }
}

fn args_u32_exact(args: &Vec<u8>) -> (r: Option<u32>)
    ensures
        r == dec_u32_exact(args@),
{
    match decode_u32(args, 0) {
        Some((x, p)) => if p == args.len() {
            Some(x)
        } else {
            None
        },
        None => None,
    }
}

/// A byte string and a 128-bit amount, decoded whole.
pub open spec fn dec_bytes_u128_exact(args: Seq<u8>) -> Option<(Seq<u8>, u128)> {
    match dec_bytes(args, 0) {
        Some((b, p1)) => match dec_u128(args, p1) {
            Some((x, p2)) => if p2 == args.len() {
                Some((b, x))
            } else {
                None
            },
            None => None,
        },
        None => None,
    }
}

fn args_bytes_u128_exact(args: &Vec<u8>) -> (r: Option<(Vec<u8>, u128)>)
    ensures
        match r {
            Some(v) => dec_bytes_u128_exact(args@) == Some((v.0@, v.1)),
            None => dec_bytes_u128_exact(args@) is None,
        },
{
    match decode_bytes(args, 0) {
        Some((b, p1)) => match decode_u128(args, p1) {
            Some((x, p2)) => if p2 == args.len() {
                Some((b, x))
            } else {
                None
            },
            None => None,
        },
        None => None,
    }
}

/// What one run costs, measured in gas, as a function of the program and the
/// call: the base charge, plus for the fibonacci program a charge per loop
/// step, so more internal work costs more.
pub open spec fn spec_program_cost(kind: ProgramKind, method: Seq<u8>, args: Seq<u8>) -> u64 {
    match kind {
        ProgramKind::Fibonacci => {
            if method == compute_method() {
                match dec_u32_exact(args) {
                    Some(n) => (GAS_CALL_BASE + GAS_FIB_STEP * (n as u64)) as u64,
                    None => GAS_CALL_BASE,
                }
            } else {
                GAS_CALL_BASE
            }
        },
        _ => GAS_CALL_BASE,
    }
}

/// What the counter program does with one call, as a pure function: the new
/// write set and the committed output or failure.
pub open spec fn spec_run_counter(
    eff: Map<Seq<u8>, Seq<u8>>,
    ws: Map<Seq<u8>, Seq<u8>>,
    call: CallContextV,
) -> (Map<Seq<u8>, Seq<u8>>, Result<Seq<u8>, ErrorKind>) {
    let skey = crate::contracts::counter::state_key(call.account);
    if call.method == init_method() {
        if call.args.len() == 0 {
            (ws.insert(skey, enc_u64(0)), Ok(Seq::empty()))
        } else {
            (ws, Err(ErrorKind::CorruptedInput))
        }
    } else if call.method == get_method() {
        if call.args.len() == 0 {
            match counter_state(eff, call.account) {
                Some(v) => (ws, Ok(enc_u64(v))),
                None => (ws, Err(ErrorKind::CorruptedInput)),
            }
        } else {
            (ws, Err(ErrorKind::CorruptedInput))
        }
    } else if call.method == add_method() {
        if call.args.len() == 0 {
            match counter_state(eff, call.account) {
                Some(v) => if v < u64::MAX {
                    (ws.insert(skey, enc_u64((v + 1) as u64)), Ok(Seq::empty()))
                } else {
                    (ws, Err(ErrorKind::InsufficientResource))
                },
                None => (ws, Err(ErrorKind::CorruptedInput)),
            }
        } else {
            (ws, Err(ErrorKind::CorruptedInput))
        }
    } else {
        (ws, Err(ErrorKind::CorruptedInput))
    }
}

/// What the token program does with one call, as a pure function.
pub open spec fn spec_run_token(
    eff: Map<Seq<u8>, Seq<u8>>,
    ws: Map<Seq<u8>, Seq<u8>>,
    call: CallContextV,
) -> (Map<Seq<u8>, Seq<u8>>, Result<Seq<u8>, ErrorKind>) {
    let skey = crate::contracts::token::state_key(call.account);
    if call.method == init_method() {
        match dec_bytes_u128_exact(call.args) {
            Some((ticker, supply)) => (
                ws.insert(
                    skey,
                    enc_token_state(
                        crate::contracts::token::TokenStateV {
                            ticker,
                            owner: call.sender,
                            total_supply: supply,
                            balances: seq![(call.sender, supply)],
                        },
                    ),
                ),
                Ok(Seq::empty()),
            ),
            None => (ws, Err(ErrorKind::CorruptedInput)),
        }
    } else if call.method == balance_of_method() {
        match (dec_bytes_exact(call.args), token_state_of(eff, call.account)) {
            (Some(address), Some(t)) => (ws, Ok(crate::codec::enc_u128(t.balance_of(address)))),
            (Some(address), None) => (ws, Err(ErrorKind::CorruptedInput)),
            _ => (ws, Err(ErrorKind::CorruptedInput)),
        }
    } else if call.method == mint_method() {
        match (dec_u128_exact(call.args), token_state_of(eff, call.account)) {
            (Some(amount), Some(t)) => {
                if call.sender != t.owner {
                    (ws, Err(ErrorKind::Unauthorized))
                } else if t.total_supply + amount > u128::MAX || t.balance_of(call.sender) + amount
                    > u128::MAX || t.balances.len() + 1 > 0xffff_ffff {
                    (ws, Err(ErrorKind::InsufficientResource))
                } else {
                    (
                        ws.insert(skey, enc_token_state(spec_mint(t, call.sender, amount))),
                        Ok(Seq::empty()),
                    )
                }
            },
            _ => (ws, Err(ErrorKind::CorruptedInput)),
        }
    } else if call.method == burn_method() {
        match (dec_u128_exact(call.args), token_state_of(eff, call.account)) {
            (Some(amount), Some(t)) => {
                if t.balance_of(call.sender) < amount || t.total_supply < amount || t.balances.len()
                    + 1 > 0xffff_ffff {
                    (ws, Err(ErrorKind::InsufficientResource))
                } else {
                    (
                        ws.insert(skey, enc_token_state(spec_burn(t, call.sender, amount))),
                        Ok(Seq::empty()),
                    )
                }
            },
            _ => (ws, Err(ErrorKind::CorruptedInput)),
        }
    } else if call.method == transfer_method() {
        match (dec_bytes_u128_exact(call.args), token_state_of(eff, call.account)) {
            (Some((recipient, amount)), Some(t)) => {
                if t.balance_of(call.sender) < amount || spec_after_debit(
                    t,
                    call.sender,
                    amount,
                ).balance_of(recipient) + amount > u128::MAX || t.balances.len() + 2
                    > 0xffff_ffff {
                    (ws, Err(ErrorKind::InsufficientResource))
                } else {
                    (
                        ws.insert(
                            skey,
                            enc_token_state(spec_transfer(t, call.sender, recipient, amount)),
                        ),
                        Ok(Seq::empty()),
                    )
                }
            },
            _ => (ws, Err(ErrorKind::CorruptedInput)),
        }
    } else if call.method == set_owner_method() {
        match (dec_bytes_exact(call.args), token_state_of(eff, call.account)) {
            (Some(new_owner), Some(t)) => {
                if call.sender != t.owner {
                    (ws, Err(ErrorKind::Unauthorized))
                } else {
                    (
                        ws.insert(skey, enc_token_state(spec_set_owner(t, new_owner))),
                        Ok(Seq::empty()),
                    )
                }
            },
            _ => (ws, Err(ErrorKind::CorruptedInput)),
        }
    } else if call.method == get_owner_method() {
        if call.args.len() == 0 {
            match token_state_of(eff, call.account) {
                Some(t) => (ws, Ok(crate::codec::enc_bytes(t.owner))),
                None => (ws, Err(ErrorKind::CorruptedInput)),
            }
        } else {
            (ws, Err(ErrorKind::CorruptedInput))
        }
    } else {
        (ws, Err(ErrorKind::CorruptedInput))
    }
}

/// What the fibonacci program does with one call, as a pure function.
pub open spec fn spec_run_fib(ws: Map<Seq<u8>, Seq<u8>>, call: CallContextV) -> (
    Map<Seq<u8>, Seq<u8>>,
    Result<Seq<u8>, ErrorKind>,
) {
    if call.method == compute_method() {
        match dec_u32_exact(call.args) {
            Some(n) => (ws, Ok(enc_u64(fib_w(n as nat)))),
            None => (ws, Err(ErrorKind::CorruptedInput)),
        }
    } else {
        (ws, Err(ErrorKind::CorruptedInput))
    }
}

/// What the root system program does with one call, as a pure function.
pub open spec fn spec_run_system(
    eff: Map<Seq<u8>, Seq<u8>>,
    ws: Map<Seq<u8>, Seq<u8>>,
    call: CallContextV,
) -> (Map<Seq<u8>, Seq<u8>>, Result<Seq<u8>, ErrorKind>) {
    if call.method == create_account_method() {
        match dec_two_bytes_exact(call.args) {
            Some((id, pk)) => if has_account(eff, id) {
                (ws, Err(ErrorKind::AccountAlreadyExists))
            } else {
                (
                    ws.insert(
                        crate::system::account_record_key(id),
                        crate::wire::enc_account(new_account(id, pk)),
                    ),
                    Ok(Seq::empty()),
                )
            },
            None => (ws, Err(ErrorKind::CorruptedInput)),
        }
    } else if call.method == deploy_contract_method() {
        match dec_bytes_exact(call.args) {
            Some(code) => match account_record(eff, call.signer) {
                Some(a) => (
                    ws.insert(code_record_key(call.signer), crate::codec::enc_bytes(code)).insert(
                        crate::system::account_record_key(call.signer),
                        crate::wire::enc_account(deployed_account(a, code)),
                    ),
                    Ok(Seq::empty()),
                ),
                None => if has_account(eff, call.signer) {
                    (ws, Err(ErrorKind::CorruptedInput))
                } else {
                    (ws, Err(ErrorKind::AccountNotFound))
                },
            },
            None => (ws, Err(ErrorKind::CorruptedInput)),
        }
    } else if call.method == account_info_method() {
        match dec_bytes_exact(call.args) {
            Some(id) => match account_record(eff, id) {
                Some(_) => (ws, Ok(eff[crate::system::account_record_key(id)])),
                None => if has_account(eff, id) {
                    (ws, Err(ErrorKind::CorruptedInput))
                } else {
                    (ws, Err(ErrorKind::AccountNotFound))
                },
            },
            None => (ws, Err(ErrorKind::CorruptedInput)),
        }
    } else {
        (ws, Ok(Seq::empty()))
    }
}

/// What one call does: the new write set, the gas charged, and the committed
/// output or failure, as a pure function of the stored state, the pending
/// writes and the call.
#[verifier::opaque]
pub open spec fn spec_execute_call(
    base: Map<Seq<u8>, Seq<u8>>,
    ws: Map<Seq<u8>, Seq<u8>>,
    call: CallContextV,
) -> (Map<Seq<u8>, Seq<u8>>, u64, Result<Seq<u8>, ErrorKind>) {
    let eff = effective(base, ws);
    if call.account == system_id() {
        if call.attached_gas < GAS_CALL_BASE {
            (ws, call.attached_gas, Err(ErrorKind::GasExhausted))
        } else {
            let (ws2, res) = spec_run_system(eff, ws, call);
            (ws2, GAS_CALL_BASE, res)
        }
    } else if call.account == evm_id() {
        (ws, 0, Err(ErrorKind::MissingProgram))
    } else {
        match deployed_code(eff, call.account) {
            Some(code) => match program_of(code) {
                Some(kind) => {
                    let cost = spec_program_cost(kind, call.method, call.args);
                    if call.attached_gas < cost {
                        (ws, call.attached_gas, Err(ErrorKind::GasExhausted))
                    } else {
                        let (ws2, res) = match kind {
                            ProgramKind::Counter => spec_run_counter(eff, ws, call),
                            ProgramKind::Token => spec_run_token(eff, ws, call),
                            ProgramKind::Fibonacci => spec_run_fib(ws, call),
                        };
                        (ws2, cost, res)
                    }
                },
                None => (ws, 0, Err(ErrorKind::CorruptedInput)),
            },
            None => if has_code(eff, call.account) {
                (ws, 0, Err(ErrorKind::CorruptedInput))
            } else {
                (ws, 0, Err(ErrorKind::MissingProgram))
            },
        }
    }
}

/// A nested call behind the recursion-depth cap.
pub open spec fn spec_cross_call(
    base: Map<Seq<u8>, Seq<u8>>,
    ws: Map<Seq<u8>, Seq<u8>>,
    call: CallContextV,
    depth: nat,
) -> (Map<Seq<u8>, Seq<u8>>, u64, Result<Seq<u8>, ErrorKind>) {
    if depth == 0 {
        (ws, 0, Err(ErrorKind::InsufficientResource))
    } else {
        spec_execute_call(base, ws, call)
    }
}

/// A run never charges more gas than the call attached.
pub proof fn lemma_call_gas_bound(
    base: Map<Seq<u8>, Seq<u8>>,
    ws: Map<Seq<u8>, Seq<u8>>,
    call: CallContextV,
)
    ensures
        spec_execute_call(base, ws, call).1 <= call.attached_gas,
{
    reveal(spec_execute_call);
}

/// What one run came to: the gas charged and the committed output or the
/// failure kind.
pub struct CallResult {
    pub gas_used: u64,
    pub result: Result<Vec<u8>, ErrorKind>,
}

/// The view of a run's result.
pub open spec fn call_result_view(r: CallResult) -> (u64, Result<Seq<u8>, ErrorKind>) {
    (
        r.gas_used,
        match r.result {
            Ok(out) => Ok(out@),
            Err(e) => Err(e),
        },
    )
}

/// Runs one call against the bridge. A storage fault is reported as one; on
/// every other path the run does exactly what its mirror says.
pub fn execute_call(storage: &Storage, ws: &mut WriteSet, call: &CallContext) -> (r: CallResult)
    requires
        call@.wf(),
    ensures
        r.gas_used <= call.attached_gas,
        ({
            let s = spec_execute_call(storage.contents(), old(ws)@, call@);
            if r.result == Err::<Vec<u8>, ErrorKind>(ErrorKind::StorageFailure) {
                final(ws)@ == old(ws)@
            } else {
                final(ws)@ == s.0 && call_result_view(r) == (s.1, s.2)
            }
        }),
{
    proof {
        reveal(spec_execute_call);
    }
    if bytes_eq(&call.account.bytes, &make_system_id()) {
        if call.attached_gas < GAS_CALL_BASE {
            return CallResult { gas_used: call.attached_gas, result: Err(ErrorKind::GasExhausted) };
        }
        let result = run_system(storage, ws, call);
        CallResult { gas_used: GAS_CALL_BASE, result }
    } else if bytes_eq(&call.account.bytes, &make_evm_id()) {
        // the specialized program for the reserved identity is not part of
        // this build's native capability
        CallResult { gas_used: 0, result: Err(ErrorKind::MissingProgram) }
    } else {
        let code = match load_program(storage, ws, &call.account) {
            Ok(code) => code,
            Err(e) => {
                return CallResult { gas_used: 0, result: Err(e) };
            },
        };
        match resolve_designator(&code) {
            Some(kind) => {
                let cost = program_cost(kind, call);
                if call.attached_gas < cost {
                    return CallResult {
                        gas_used: call.attached_gas,
                        result: Err(ErrorKind::GasExhausted),
                    };
                }
                let result = match kind {
                    ProgramKind::Counter => run_counter(storage, ws, call),
                    ProgramKind::Token => run_token(storage, ws, call),
                    ProgramKind::Fibonacci => run_fib(call),
                };
                CallResult { gas_used: cost, result }
            },
            None => CallResult { gas_used: 0, result: Err(ErrorKind::CorruptedInput) },
        }
    }
}

/// The gas one run of the resolved program will cost.
fn program_cost(kind: ProgramKind, call: &CallContext) -> (r: u64)
    ensures
        r == spec_program_cost(kind, call.method@, call.args@),
{
    match kind {
        ProgramKind::Fibonacci => {
            if bytes_eq(&call.method, &make_compute_method()) {
                match args_u32_exact(&call.args) {
                    Some(n) => GAS_CALL_BASE + GAS_FIB_STEP * (n as u64),
                    None => GAS_CALL_BASE,
                }
            } else {
                GAS_CALL_BASE
            }
        },
        _ => GAS_CALL_BASE,
    }
}

fn run_counter(storage: &Storage, ws: &mut WriteSet, call: &CallContext) -> (r: Result<
    Vec<u8>,
    ErrorKind,
>)
    ensures
        ({
            let s = spec_run_counter(effective(storage.contents(), old(ws)@), old(ws)@, call@);
            if r == Err::<Vec<u8>, ErrorKind>(ErrorKind::StorageFailure) {
                final(ws)@ == old(ws)@
            } else {
                final(ws)@ == s.0 && match (r, s.1) {
                    (Ok(out), Ok(sout)) => out@ == sout,
                    (Err(e), Err(se)) => e == se,
                    _ => false,
                }
            }
        }),
{
    if bytes_eq(&call.method, &make_init_method()) {
        if call.args.len() == 0 {
            Ok(Contract::init(ws, call))
        } else {
            Err(ErrorKind::CorruptedInput)
        }
    } else if bytes_eq(&call.method, &make_get_method()) {
        if call.args.len() == 0 {
            Contract::get(storage, ws, call)
        } else {
            Err(ErrorKind::CorruptedInput)
        }
    } else if bytes_eq(&call.method, &make_add_method()) {
        if call.args.len() == 0 {
            Contract::add(storage, ws, call)
        } else {
            Err(ErrorKind::CorruptedInput)
        }
    } else {
        Err(ErrorKind::CorruptedInput)
    }
}

fn run_token(storage: &Storage, ws: &mut WriteSet, call: &CallContext) -> (r: Result<
    Vec<u8>,
    ErrorKind,
>)
    requires
        call@.wf(),
    ensures
        ({
            let s = spec_run_token(effective(storage.contents(), old(ws)@), old(ws)@, call@);
            if r == Err::<Vec<u8>, ErrorKind>(ErrorKind::StorageFailure) {
                final(ws)@ == old(ws)@
            } else {
                final(ws)@ == s.0 && match (r, s.1) {
                    (Ok(out), Ok(sout)) => out@ == sout,
                    (Err(e), Err(se)) => e == se,
                    _ => false,
                }
            }
        }),
{
    if bytes_eq(&call.method, &make_init_method()) {
        match args_bytes_u128_exact(&call.args) {
            Some((ticker, supply)) => Ok(TokenContract::init(ws, call, ticker, supply)),
            None => Err(ErrorKind::CorruptedInput),
        }
    } else if bytes_eq(&call.method, &make_balance_of_method()) {
        match args_bytes_exact(&call.args) {
            Some(address) => TokenContract::balance_of(
                storage,
                ws,
                call,
                &AccountId { bytes: address },
            ),
            None => Err(ErrorKind::CorruptedInput),
        }
    } else if bytes_eq(&call.method, &make_mint_method()) {
        match args_u128_exact(&call.args) {
            Some(amount) => TokenContract::mint(storage, ws, call, amount),
            None => Err(ErrorKind::CorruptedInput),
        }
    } else if bytes_eq(&call.method, &make_burn_method()) {
        match args_u128_exact(&call.args) {
            Some(amount) => TokenContract::burn(storage, ws, call, amount),
            None => Err(ErrorKind::CorruptedInput),
        }
    } else if bytes_eq(&call.method, &make_transfer_method()) {
        match args_bytes_u128_exact(&call.args) {
            Some((recipient, amount)) => TokenContract::transfer(
                storage,
                ws,
                call,
                &AccountId { bytes: recipient },
                amount,
            ),
            None => Err(ErrorKind::CorruptedInput),
        }
    } else if bytes_eq(&call.method, &make_set_owner_method()) {
        match args_bytes_exact(&call.args) {
            Some(new_owner) => TokenContract::set_owner(
                storage,
                ws,
                call,
                &AccountId { bytes: new_owner },
            ),
            None => Err(ErrorKind::CorruptedInput),
        }
    } else if bytes_eq(&call.method, &make_get_owner_method()) {
        if call.args.len() == 0 {
            TokenContract::get_owner(storage, ws, call)
        } else {
            Err(ErrorKind::CorruptedInput)
        }
    } else {
        Err(ErrorKind::CorruptedInput)
    }
}

fn run_fib(call: &CallContext) -> (r: Result<Vec<u8>, ErrorKind>)
    ensures
        ({
            let s = spec_run_fib(Map::<Seq<u8>, Seq<u8>>::empty(), call@);
            match (r, s.1) {
                (Ok(out), Ok(sout)) => out@ == sout,
                (Err(e), Err(se)) => e == se,
                _ => false,
            }
        }),
{
    if bytes_eq(&call.method, &make_compute_method()) {
        match args_u32_exact(&call.args) {
            Some(n) => {
                let value = FibContract::compute(n);
                let mut out: Vec<u8> = Vec::new();
                crate::codec::encode_u64(&mut out, value);
                Ok(out)
            },
            None => Err(ErrorKind::CorruptedInput),
        }
    } else {
        Err(ErrorKind::CorruptedInput)
    }
}

fn run_system(storage: &Storage, ws: &mut WriteSet, call: &CallContext) -> (r: Result<
    Vec<u8>,
    ErrorKind,
>)
    requires
        call@.wf(),
    ensures
        ({
            let s = spec_run_system(effective(storage.contents(), old(ws)@), old(ws)@, call@);
            if r == Err::<Vec<u8>, ErrorKind>(ErrorKind::StorageFailure) {
                final(ws)@ == old(ws)@
            } else {
                final(ws)@ == s.0 && match (r, s.1) {
                    (Ok(out), Ok(sout)) => out@ == sout,
                    (Err(e), Err(se)) => e == se,
                    _ => false,
                }
            }
        }),
{
    if bytes_eq(&call.method, &make_create_account_method()) {
        match args_two_bytes_exact(&call.args) {
            Some((id, pk)) => crate::system::create_account(
                storage,
                ws,
                &AccountId { bytes: id },
                &pk,
            ),
            None => Err(ErrorKind::CorruptedInput),
        }
    } else if bytes_eq(&call.method, &make_deploy_contract_method()) {
        match args_bytes_exact(&call.args) {
            Some(code) => crate::system::deploy_contract(storage, ws, &call.signer, &code),
            None => Err(ErrorKind::CorruptedInput),
        }
    } else if bytes_eq(&call.method, &make_account_info_method()) {
        match args_bytes_exact(&call.args) {
            Some(id) => crate::system::account_info(storage, ws, &AccountId { bytes: id }),
            None => Err(ErrorKind::CorruptedInput),
        }
    } else {
        Ok(Vec::new())
    }
}

/// Re-enters the executor for a nested call, behind the depth cap. The
/// callee's budget is what the caller explicitly attached, so a callee can
/// never spend beyond it.
pub fn cross_contract_call(
    storage: &Storage,
    ws: &mut WriteSet,
    call: &CallContext,
    depth: u64,
) -> (r: CallResult)
    requires
        call@.wf(),
    ensures
        r.gas_used <= call.attached_gas,
        ({
            let s = spec_cross_call(storage.contents(), old(ws)@, call@, depth as nat);
            if r.result == Err::<Vec<u8>, ErrorKind>(ErrorKind::StorageFailure) {
                final(ws)@ == old(ws)@
            } else {
                final(ws)@ == s.0 && call_result_view(r) == (s.1, s.2)
            }
        }),
{
    if depth == 0 {
        CallResult { gas_used: 0, result: Err(ErrorKind::InsufficientResource) }
    } else {
        execute_call(storage, ws, call)
    }
}

/// What one transaction does to the store, and its outcome, as a pure
/// function: a transaction against the system account runs the root program;
/// any other is routed unmodified — contract, method, args and the full
/// attached gas — to a cross-contract call against its target. The dispatch
/// charge stays in the measurement alone, capped at the attached gas; it is
/// never deducted from the callee's budget. The writes of a failing
/// transaction are never applied.
pub open spec fn spec_transaction_call(base: Map<Seq<u8>, Seq<u8>>, tx: TransactionBodyV) -> (
    Map<Seq<u8>, Seq<u8>>,
    u64,
    Result<Seq<u8>, ErrorKind>,
) {
    let empty = Map::<Seq<u8>, Seq<u8>>::empty();
    if tx.contract == system_id() {
        spec_execute_call(
            base,
            empty,
            CallContextV {
                account: tx.contract,
                method: tx.method,
                args: tx.args,
                attached_gas: tx.attached_gas,
                sender: tx.signer,
                signer: tx.signer,
            },
        )
    } else {
        if tx.attached_gas < GAS_CALL_BASE {
            (empty, tx.attached_gas, Err(ErrorKind::GasExhausted))
        } else {
            let (wsm, gas, res) = spec_cross_call(
                base,
                empty,
                CallContextV {
                    account: tx.contract,
                    method: tx.method,
                    args: tx.args,
                    attached_gas: tx.attached_gas,
                    sender: tx.signer,
                    signer: tx.signer,
                },
                MAX_CALL_DEPTH as nat,
            );
            let total = if GAS_CALL_BASE + gas > tx.attached_gas {
                tx.attached_gas
            } else {
                (GAS_CALL_BASE + gas) as u64
            };
            (wsm, total, res)
        }
    }
}

/// What one transaction does to the store, and its outcome, as a pure
/// function: the run's writes are applied whole on success and dropped whole
/// on failure, and an output too long for the wire is a run failure.
pub open spec fn spec_execute_transaction(base: Map<Seq<u8>, Seq<u8>>, tx: TransactionBodyV) -> (
    Map<Seq<u8>, Seq<u8>>,
    TxOutcomeV,
) {
    let (wsm, gas, res) = spec_transaction_call(base, tx);
    match res {
        Ok(out) => if out.len() > MAX_OUTPUT_BYTES {
            (base, TxOutcomeV { gas_used: gas, result: Err(ErrorKind::CorruptedInput) })
        } else {
            (
                base.union_prefer_right(wsm),
                TxOutcomeV { gas_used: gas, result: Ok(ExecutionOutcomeV { output: out }) },
            )
        },
        Err(e) => (base, TxOutcomeV { gas_used: gas, result: Err(e) }),
    }
}

/// Runs the call a transaction asks for, buffering its writes. One
/// execution context serves the run and takes the measured gas usage once,
/// after the run completes.
#[verifier::rlimit(100)]
fn run_transaction_call(storage: &Storage, ws: &mut WriteSet, tx: &TransactionBody) -> (r:
    CallResult)
    requires
        tx@.wf(),
        old(ws)@ == Map::<Seq<u8>, Seq<u8>>::empty(),
    ensures
        r.gas_used <= tx.attached_gas,
        ({
            let s = spec_transaction_call(storage.contents(), tx@);
            if r.result == Err::<Vec<u8>, ErrorKind>(ErrorKind::StorageFailure) {
                final(ws)@ == old(ws)@
            } else {
                final(ws)@ == s.0 && call_result_view(r) == (s.1, s.2)
            }
        }),
{
    let call_res: CallResult = if bytes_eq(&tx.contract.bytes, &make_system_id()) {
        let call = CallContext {
            account: tx.contract.duplicate(),
            method: crate::codec::copy_range(&tx.method, 0, tx.method.len()),
            args: crate::codec::copy_range(&tx.args, 0, tx.args.len()),
            attached_gas: tx.attached_gas,
            sender: tx.signer.duplicate(),
            signer: tx.signer.duplicate(),
        };
        let ghost callv = call@;
        proof {
            assert(call.method@ =~= tx.method@);
            assert(call.args@ =~= tx.args@);
            assert(callv == CallContextV {
                account: tx@.contract,
                method: tx@.method,
                args: tx@.args,
                attached_gas: tx@.attached_gas,
                sender: tx@.signer,
                signer: tx@.signer,
            });
            assert(spec_transaction_call(storage.contents(), tx@) == spec_execute_call(
                storage.contents(),
                old(ws)@,
                callv,
            ));
        }
        let mut ectx = ExecutionContext::new(call);
        let res = execute_call(storage, ws, ectx.call());
        ectx.set_gas_usage(res.gas_used);
        res
    } else {
        if tx.attached_gas < GAS_CALL_BASE {
            CallResult { gas_used: tx.attached_gas, result: Err(ErrorKind::GasExhausted) }
        } else {
            let call = CallContext {
                account: tx.contract.duplicate(),
                method: crate::codec::copy_range(&tx.method, 0, tx.method.len()),
                args: crate::codec::copy_range(&tx.args, 0, tx.args.len()),
                attached_gas: tx.attached_gas,
                sender: tx.signer.duplicate(),
                signer: tx.signer.duplicate(),
            };
            let ghost callv = call@;
            proof {
                assert(call.method@ =~= tx.method@);
                assert(call.args@ =~= tx.args@);
                assert(callv == CallContextV {
                    account: tx@.contract,
                    method: tx@.method,
                    args: tx@.args,
                    attached_gas: tx@.attached_gas,
                    sender: tx@.signer,
                    signer: tx@.signer,
                });
            }
            let mut ectx = ExecutionContext::new(call);
            let inner = cross_contract_call(storage, ws, ectx.call(), MAX_CALL_DEPTH);
            if let Err(e) = &inner.result {
                if *e == ErrorKind::StorageFailure {
                    return CallResult { gas_used: 0, result: Err(ErrorKind::StorageFailure) };
                }
            }
            proof {
                lemma_call_gas_bound(storage.contents(), Map::<Seq<u8>, Seq<u8>>::empty(), callv);
            }
            let total = if inner.gas_used > tx.attached_gas - GAS_CALL_BASE {
                tx.attached_gas
            } else {
                GAS_CALL_BASE + inner.gas_used
            };
            ectx.set_gas_usage(total);
            match inner.result {
                Ok(out) => CallResult { gas_used: total, result: Ok(out) },
                Err(e) => CallResult { gas_used: total, result: Err(e) },
            }
        }
    };
    call_res
}

/// Runs one transaction to its per-transaction outcome. The outcome never
/// aborts a batch: every failure, a storage fault included, is returned as a
/// failure outcome, and the gas charged never exceeds what the transaction
/// attached. Unless a storage fault intervened, the store and the outcome
/// are exactly what the transaction's mirror says.
pub fn execute_transaction(storage: &mut Storage, tx: &TransactionBody) -> (r: TxOutcome)
    requires
        tx@.wf(),
    ensures
        r.gas_used <= tx.attached_gas,
        ({
            let s = spec_execute_transaction(old(storage).contents(), tx@);
            if r@.result == Err::<ExecutionOutcomeV, ErrorKind>(ErrorKind::StorageFailure) {
                true
            } else {
                final(storage).contents() == s.0 && r@ == s.1
            }
        }),
{
    let mut ws = WriteSet::new();
    let call_res = run_transaction_call(storage, &mut ws, tx);
    match call_res.result {
        Ok(out) => {
            if (out.len() as u64) > MAX_OUTPUT_BYTES {
                return TxOutcome {
                    gas_used: call_res.gas_used,
                    result: Err(ErrorKind::CorruptedInput),
                };
            }
            match ws.apply(storage) {
                Ok(_) => TxOutcome {
                    gas_used: call_res.gas_used,
                    result: Ok(ExecutionOutcome { output: out }),
                },
                Err(_) => TxOutcome {
                    gas_used: call_res.gas_used,
                    result: Err(ErrorKind::StorageFailure),
                },
            }
        },
        Err(e) => TxOutcome { gas_used: call_res.gas_used, result: Err(e) },
    }
}

/// After a deployment, the signer's registered code is exactly what was
/// deployed: a later call to the signer resolves that code and routes to the
/// program it designates.
pub proof fn lemma_deploy_registers_code(
    eff: Map<Seq<u8>, Seq<u8>>,
    signer: Seq<u8>,
    a: crate::types::AccountV,
    code: Seq<u8>,
)
    requires
        bytes_fit(code),
    ensures
        deployed_code(
            eff.insert(code_record_key(signer), crate::codec::enc_bytes(code)).insert(
                crate::system::account_record_key(signer),
                crate::wire::enc_account(deployed_account(a, code)),
            ),
            signer,
        ) == Some(code),
{
    crate::system::lemma_account_code_keys_distinct(signer);
    let v = crate::codec::enc_bytes(code);
    assert(v.subrange(0, v.len() as int) =~= v);
    crate::codec::lemma_dec_enc_bytes(v, 0, code);
}

/// Too little attached gas fails deterministically with the gas failure and
/// leaves the store exactly as it was, so no other transaction in the same
/// batch or a later one can be affected by the failed run.
pub proof fn lemma_gas_exhausted_isolated(base: Map<Seq<u8>, Seq<u8>>, tx: TransactionBodyV)
    requires
        tx.attached_gas < GAS_CALL_BASE,
    ensures
        spec_execute_transaction(base, tx) == (
            base,
            TxOutcomeV {
                gas_used: tx.attached_gas,
                result: Err::<ExecutionOutcomeV, ErrorKind>(ErrorKind::GasExhausted),
            },
        ),
{
    reveal(spec_execute_call);
}

/// A fibonacci run asked for strictly more work never costs less gas.
pub proof fn lemma_fib_cost_monotonic(n1: u32, n2: u32)
    requires
        n1 <= n2,
    ensures
        spec_program_cost(ProgramKind::Fibonacci, compute_method(), crate::codec::enc_u32(n1))
            <= spec_program_cost(
            ProgramKind::Fibonacci,
            compute_method(),
            crate::codec::enc_u32(n2),
        ),
{
    let a1 = crate::codec::enc_u32(n1);
    let a2 = crate::codec::enc_u32(n2);
    assert(a1.subrange(0, 4) =~= a1);
    assert(a2.subrange(0, 4) =~= a2);
    crate::codec::lemma_dec_enc_u32(a1, 0, n1);
    crate::codec::lemma_dec_enc_u32(a2, 0, n2);
}

} // verus!
