//! The persisted key layout. Chain state and contract state share one store:
//! account records and code live in the system program's committed namespace,
//! every contract's committed state lives under its own namespace, and blocks
//! live under their height beside the latest-block key.

use vstd::prelude::*;

use crate::codec::append_bytes;
use crate::names::{accounts_dot, block_prefix, code_dot, committed_storage_dot, dot,
    make_accounts_dot, make_block_prefix, make_code_dot, make_committed_storage_dot, make_dot};
use crate::types::AccountId;

verus! {

/// The key of an account record inside the system namespace.
pub open spec fn account_key(id: Seq<u8>) -> Seq<u8> {
    accounts_dot() + id
}

pub fn make_account_key(id: &AccountId) -> (r: Vec<u8>)
    ensures
        r@ == account_key(id@),
{
    let mut v = make_accounts_dot();
    append_bytes(&mut v, &id.bytes);
    v
}

/// The key of an account's deployed code inside the system namespace.
pub open spec fn code_key(id: Seq<u8>) -> Seq<u8> {
    code_dot() + id
}

pub fn make_code_key(id: &AccountId) -> (r: Vec<u8>)
    ensures
        r@ == code_key(id@),
{
    let mut v = make_code_dot();
    append_bytes(&mut v, &id.bytes);
    v
}

/// The full storage key of one entry of one contract's committed state. A
/// contract reaches storage only through keys built this way, under its own
/// identity: that is what keeps one contract's state out of another's reach.
pub open spec fn committed_key(contract: Seq<u8>, key: Seq<u8>) -> Seq<u8> {
    committed_storage_dot() + contract + dot() + key
}

pub fn make_committed_key(contract: &AccountId, key: &Vec<u8>) -> (r: Vec<u8>)
    ensures
        r@ == committed_key(contract@, key@),
{
    let mut v = make_committed_storage_dot();
    append_bytes(&mut v, &contract.bytes);
    let d = make_dot();
    append_bytes(&mut v, &d);
    append_bytes(&mut v, key);
    proof {
        assert(v@ =~= committed_key(contract@, key@));
    }
    v
}

/// The decimal digits of a number, most significant first.
pub open spec fn dec_digits(n: u64) -> Seq<u8>
    decreases n,
{
    if n < 10 {
        seq![(48 + n) as u8]
    } else {
        dec_digits(n / 10).push((48 + n % 10) as u8)
    }
}

/// Appends the decimal rendering of `n`.
pub fn push_dec_digits(out: &mut Vec<u8>, n: u64)
    ensures
        final(out)@ == old(out)@ + dec_digits(n),
    decreases n,
{
    if n < 10 {
        out.push(48 + n as u8);
        assert(out@ =~= old(out)@ + dec_digits(n));
    } else {
        push_dec_digits(out, n / 10);
        out.push(48 + (n % 10) as u8);
        assert(out@ =~= old(out)@ + dec_digits(n));
    }
}

/// The key a block is persisted under: the block prefix and its height in
/// decimal.
pub open spec fn block_key(height: u64) -> Seq<u8> {
    block_prefix() + dec_digits(height)
}

pub fn make_block_key(height: u64) -> (r: Vec<u8>)
    ensures
        r@ == block_key(height),
{
    let mut v = make_block_prefix();
    push_dec_digits(&mut v, height);
    v
}

} // verus!
