//! The root system program: the only program that may create accounts and
//! register code, bound to the reserved system account. Its records live in
//! the system account's own committed namespace, reached through the same
//! syscall bridge every program uses.

use vstd::prelude::*;

use crate::bridge::{sys_get_storage, sys_set_storage};
use crate::codec::bytes_fit;
use crate::digest::{compute_digest, digest_of};
use crate::errors::ErrorKind;
use crate::keys::{account_key, code_key, make_account_key, make_code_key};
use crate::names::{make_system_id, system_id};
use crate::storage::{effective, Storage, WriteSet};
use crate::types::{Account, AccountId, AccountV, Digest, DIGEST_LEN};
use crate::codec::enc_bytes;
use crate::wire::{dec_account, decode_account, enc_account, encode_account};

verus! {

/// The full storage key of an account record.
pub open spec fn account_record_key(id: Seq<u8>) -> Seq<u8> {
    crate::keys::committed_key(system_id(), account_key(id))
}

/// The full storage key of an account's deployed code.
pub open spec fn code_record_key(id: Seq<u8>) -> Seq<u8> {
    crate::keys::committed_key(system_id(), code_key(id))
}

/// Whether the id is taken in the account namespace.
pub open spec fn has_account(eff: Map<Seq<u8>, Seq<u8>>, id: Seq<u8>) -> bool {
    eff.dom().contains(account_record_key(id))
}

/// The stored account record, if it is present and decodes whole.
pub open spec fn account_record(eff: Map<Seq<u8>, Seq<u8>>, id: Seq<u8>) -> Option<AccountV> {
    let k = account_record_key(id);
    if eff.dom().contains(k) {
        match dec_account(eff[k], 0) {
            Some((a, p)) => if p == eff[k].len() {
                Some(a)
            } else {
                None
            },
            None => None,
        }
    } else {
        None
    }
}

/// The all-zero code hash a fresh account starts with.
pub open spec fn zero_digest() -> Seq<u8> {
    Seq::new(DIGEST_LEN as nat, |i: int| 0u8)
}

/// The record a fresh account starts as: no code, no balance, nonce zero.
pub open spec fn new_account(id: Seq<u8>, public_key: Seq<u8>) -> AccountV {
    AccountV { account_id: id, public_key, code_hash: zero_digest(), balance: 0, nonce: 0 }
}

/// The record after a deployment: only the code hash changes.
pub open spec fn deployed_account(a: AccountV, code: Seq<u8>) -> AccountV {
    AccountV {
        account_id: a.account_id,
        public_key: a.public_key,
        code_hash: digest_of(code),
        balance: a.balance,
        nonce: a.nonce,
    }
}

/// Reads an account record through the bridge.
fn load_account(storage: &Storage, ws: &WriteSet, id: &AccountId) -> (r: Result<
    Option<Account>,
    ErrorKind,
>)
    ensures
        ({
            let eff = effective(storage.contents(), ws@);
            match r {
                Ok(Some(a)) => account_record(eff, id@) == Some(a@) && a@.wf(),
                Ok(None) => !has_account(eff, id@),
                Err(e) => match e {
                    ErrorKind::StorageFailure => true,
                    ErrorKind::CorruptedInput => has_account(eff, id@) && account_record(eff, id@)
                        is None,
                    _ => false,
                },
            }
        }),
{
    let system = AccountId { bytes: make_system_id() };
    let key = make_account_key(id);
    match sys_get_storage(storage, ws, &system, &key)? {
        Some(bytes) => match decode_account(&bytes, 0) {
            Some((a, p)) => {
                if p == bytes.len() {
                    Ok(Some(a))
                } else {
                    Err(ErrorKind::CorruptedInput)
                }
            },
            None => Err(ErrorKind::CorruptedInput),
        },
        None => Ok(None),
    }
}

/// Creates an account under a fresh id; an id is taken at most once.
pub fn create_account(
    storage: &Storage,
    ws: &mut WriteSet,
    account_id: &AccountId,
    public_key: &Vec<u8>,
) -> (r: Result<Vec<u8>, ErrorKind>)
    requires
        account_id.wf(),
        bytes_fit(public_key@),
    ensures
        ({
            let eff = effective(storage.contents(), old(ws)@);
            match r {
                Ok(out) => !has_account(eff, account_id@) && final(ws)@ == old(ws)@.insert(
                    account_record_key(account_id@),
                    enc_account(new_account(account_id@, public_key@)),
                ) && out@ == Seq::<u8>::empty(),
                Err(e) => final(ws)@ == old(ws)@ && match e {
                    ErrorKind::StorageFailure => true,
                    ErrorKind::AccountAlreadyExists => has_account(eff, account_id@),
                    _ => false,
                },
            }
        }),
{
    let system = AccountId { bytes: make_system_id() };
    let key = make_account_key(account_id);
    match sys_get_storage(storage, ws, &system, &key)? {
        Some(_) => Err(ErrorKind::AccountAlreadyExists),
        None => {
            let account = Account {
                account_id: account_id.duplicate(),
                public_key: crate::codec::copy_range(public_key, 0, public_key.len()),
                code_hash: Digest::zeroed(),
                balance: 0,
                nonce: 0,
            };
            let mut bytes: Vec<u8> = Vec::new();
            proof {
                assert(account.public_key@ =~= public_key@);
                assert(account@ == new_account(account_id@, public_key@));
            }
            encode_account(&mut bytes, &account);
            sys_set_storage(ws, &system, &key, bytes);
            Ok(Vec::new())
        },
    }
}

/// Registers code for the deploying signer, who must already have an
/// account, and fixes the account's code hash to the code's digest.
pub fn deploy_contract(storage: &Storage, ws: &mut WriteSet, signer: &AccountId, code: &Vec<u8>)
    -> (r: Result<Vec<u8>, ErrorKind>)
    requires
        signer.wf(),
        bytes_fit(code@),
    ensures
        ({
            let eff = effective(storage.contents(), old(ws)@);
            match r {
                Ok(out) => account_record(eff, signer@) matches Some(a) && final(ws)@ == old(
                    ws,
                )@.insert(code_record_key(signer@), enc_bytes(code@)).insert(
                    account_record_key(signer@),
                    enc_account(deployed_account(a, code@)),
                ) && out@ == Seq::<u8>::empty(),
                Err(e) => final(ws)@ == old(ws)@ && match e {
                    ErrorKind::StorageFailure => true,
                    ErrorKind::AccountNotFound => !has_account(eff, signer@),
                    ErrorKind::CorruptedInput => has_account(eff, signer@) && account_record(
                        eff,
                        signer@,
                    ) is None,
                    _ => false,
                },
            }
        }),
{
    let system = AccountId { bytes: make_system_id() };
    match load_account(storage, ws, signer)? {
        Some(mut account) => {
            account.code_hash = compute_digest(code);
            let code_key_vec = make_code_key(signer);
            let mut code_value: Vec<u8> = Vec::new();
            crate::codec::encode_bytes(&mut code_value, code);
            sys_set_storage(ws, &system, &code_key_vec, code_value);
            let account_key_vec = make_account_key(signer);
            let mut account_value: Vec<u8> = Vec::new();
            encode_account(&mut account_value, &account);
            sys_set_storage(ws, &system, &account_key_vec, account_value);
            Ok(Vec::new())
        },
        None => Err(ErrorKind::AccountNotFound),
    }
}

/// Commits the stored record of an existing account, exactly as stored.
pub fn account_info(storage: &Storage, ws: &WriteSet, account_id: &AccountId) -> (r: Result<
    Vec<u8>,
    ErrorKind,
>)
    requires
        account_id.wf(),
    ensures
        ({
            let eff = effective(storage.contents(), ws@);
            match r {
                Ok(out) => account_record(eff, account_id@) is Some && out@ == eff[account_record_key(
                    account_id@,
                )],
                Err(e) => match e {
                    ErrorKind::StorageFailure => true,
                    ErrorKind::AccountNotFound => !has_account(eff, account_id@),
                    ErrorKind::CorruptedInput => has_account(eff, account_id@) && account_record(
                        eff,
                        account_id@,
                    ) is None,
                    _ => false,
                },
            }
        }),
{
    let system = AccountId { bytes: make_system_id() };
    let key = make_account_key(account_id);
    match sys_get_storage(storage, ws, &system, &key)? {
        Some(bytes) => match decode_account(&bytes, 0) {
            Some((_, p)) => {
                if p == bytes.len() {
                    Ok(bytes)
                } else {
                    Err(ErrorKind::CorruptedInput)
                }
            },
            None => Err(ErrorKind::CorruptedInput),
        },
        None => Err(ErrorKind::AccountNotFound),
    }
}

/// An account record and a code record never share a key, whatever the id.
pub proof fn lemma_account_code_keys_distinct(id: Seq<u8>)
    ensures
        account_record_key(id) != code_record_key(id),
{
    let c = crate::names::committed_storage_dot();
    let s = system_id();
    let d = crate::names::dot();
    let p: int = (c.len() + s.len() + d.len()) as int;
    assert(account_record_key(id) == c + s + d + account_key(id));
    assert((c + s + d + account_key(id))[p] == account_key(id)[0]);
    assert(account_key(id)[0] == crate::names::accounts_dot()[0]);
    assert((c + s + d + code_key(id))[p] == code_key(id)[0]);
    assert(code_key(id)[0] == crate::names::code_dot()[0]);
}

/// Creation takes the id: after an account is created under an id, that id
/// is in the account namespace, so a repeated creation finds it taken and
/// fails.
pub proof fn lemma_create_account_once(eff: Map<Seq<u8>, Seq<u8>>, id: Seq<u8>, pk: Seq<u8>)
    ensures
        has_account(
            eff.insert(account_record_key(id), enc_account(new_account(id, pk))),
            id,
        ),
{
}

} // verus!
