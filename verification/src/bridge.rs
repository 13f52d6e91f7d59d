//! The syscall bridge: the synchronous operations a program may invoke while
//! it runs. Storage reads and writes are confined to the executing contract's
//! own committed namespace — the handlers build every key from the current
//! contract's identity, so one contract cannot touch another's state. The
//! fourth operation resolves a derived secondary address for an account. The
//! nested-call operation lives with the executor, which it re-enters.

use vstd::prelude::*;

use crate::codec::copy_range;
use crate::digest::{compute_digest, digest_of};
use crate::errors::ErrorKind;
use crate::keys::{committed_key, make_committed_key};
use crate::storage::{effective, read_through, Storage, WriteSet};
use crate::types::AccountId;

verus! {

/// The numeric identifier of the nested-call operation.
pub const SYSCALL_CROSS_CONTRACT_CALL: u32 = 1;

/// The numeric identifier of the storage-read operation.
pub const SYSCALL_GET_STORAGE: u32 = 2;

/// The numeric identifier of the storage-write operation.
pub const SYSCALL_SET_STORAGE: u32 = 3;

/// The numeric identifier of the account-mapping operation.
pub const SYSCALL_GET_ACCOUNT_MAPPING: u32 = 4;

/// Reads one entry of the executing contract's committed state, as the run
/// observes it: the run's own writes first, then the store. Never mutates.
pub fn sys_get_storage(
    storage: &Storage,
    ws: &WriteSet,
    contract: &AccountId,
    key: &Vec<u8>,
) -> (r: Result<Option<Vec<u8>>, ErrorKind>)
    ensures
        ({
            let eff = effective(storage.contents(), ws@);
            let k = committed_key(contract@, key@);
            match r {
                Ok(Some(v)) => eff.dom().contains(k) && v@ == eff[k],
                Ok(None) => !eff.dom().contains(k),
                Err(e) => e == ErrorKind::StorageFailure,
            }
        }),
{
    let full_key = make_committed_key(contract, key);
    read_through(storage, ws, &full_key)
}

/// Writes one entry of the executing contract's committed state into the
/// run's write set. Only the executing contract's namespace is reachable.
pub fn sys_set_storage(ws: &mut WriteSet, contract: &AccountId, key: &Vec<u8>, value: Vec<u8>)
    ensures
        final(ws)@ == old(ws)@.insert(committed_key(contract@, key@), value@),
{
    let full_key = make_committed_key(contract, key);
    ws.set(full_key, value);
}

/// The derived secondary address of an account, for programs that need an
/// auxiliary address space: the leading bytes of the account id's digest.
pub open spec fn mapping_of(id: Seq<u8>) -> Seq<u8> {
    digest_of(id).subrange(0, 20)
}

pub fn sys_get_account_mapping(id: &AccountId) -> (r: Vec<u8>)
    requires
        id.wf(),
    ensures
        r@ == mapping_of(id@),
{
    let d = compute_digest(&id.bytes);
    copy_range(&d.bytes, 0, 20)
}

} // verus!
