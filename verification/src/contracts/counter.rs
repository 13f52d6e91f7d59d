//! The counter program: a single value under the contract's root state key,
//! set to zero on `init`, read back by `get`, and raised by one on `add`.

use vstd::prelude::*;

use crate::bridge::{sys_get_storage, sys_set_storage};
use crate::codec::{dec_u64, decode_u64, enc_u64, encode_u64};
use crate::context::CallContext;
use crate::errors::ErrorKind;
use crate::keys::committed_key;
use crate::names::{make_root_state_key, root_state_key};
use crate::storage::{effective, Storage, WriteSet};

verus! {

/// The key the counter's state lives under, inside its own namespace.
pub open spec fn state_key(contract: Seq<u8>) -> Seq<u8> {
    committed_key(contract, root_state_key())
}

/// The counter's stored value as the run observes it, if the state is
/// present and decodes whole.
pub open spec fn counter_state(eff: Map<Seq<u8>, Seq<u8>>, contract: Seq<u8>) -> Option<u64> {
    let k = state_key(contract);
    if eff.dom().contains(k) {
        match dec_u64(eff[k], 0) {
            Some((v, p)) => if p == eff[k].len() {
                Some(v)
            } else {
                None
            },
            None => None,
        }
    } else {
        None
    }
}

pub struct Contract;

impl Contract {
    /// Sets the counter's state to zero.
    pub fn init(ws: &mut WriteSet, ctx: &CallContext) -> (r: Vec<u8>)
        ensures
            final(ws)@ == old(ws)@.insert(state_key(ctx.account@), enc_u64(0)),
            r@ == Seq::<u8>::empty(),
    {
        let mut v: Vec<u8> = Vec::new();
        encode_u64(&mut v, 0);
        let key = make_root_state_key();
        sys_set_storage(ws, &ctx.account, &key, v);
        Vec::new()
    }

    /// Commits the counter's stored value.
    pub fn get(storage: &Storage, ws: &WriteSet, ctx: &CallContext) -> (r: Result<
        Vec<u8>,
        ErrorKind,
    >)
        ensures
            ({
                let st = counter_state(effective(storage.contents(), ws@), ctx.account@);
                match r {
                    Ok(out) => st matches Some(v) && out@ == enc_u64(v),
                    Err(e) => match e {
                        ErrorKind::StorageFailure => true,
                        ErrorKind::CorruptedInput => st is None,
                        _ => false,
                    },
                }
            }),
    {
        let key = make_root_state_key();
        match sys_get_storage(storage, ws, &ctx.account, &key)? {
            Some(bytes) => match decode_u64(&bytes, 0) {
                Some((v, p)) => {
                    if p == bytes.len() {
                        let mut out: Vec<u8> = Vec::new();
                        encode_u64(&mut out, v);
                        Ok(out)
                    } else {
                        Err(ErrorKind::CorruptedInput)
                    }
                },
                None => Err(ErrorKind::CorruptedInput),
            },
            None => Err(ErrorKind::CorruptedInput),
        }
    }

    /// Raises the counter's stored value by one.
    pub fn add(storage: &Storage, ws: &mut WriteSet, ctx: &CallContext) -> (r: Result<
        Vec<u8>,
        ErrorKind,
    >)
        ensures
            ({
                let st = counter_state(effective(storage.contents(), old(ws)@), ctx.account@);
                match r {
                    Ok(out) => st matches Some(v) && v < u64::MAX && final(ws)@ == old(
                        ws,
                    )@.insert(state_key(ctx.account@), enc_u64((v + 1) as u64)) && out@
                        == Seq::<u8>::empty(),
                    Err(e) => final(ws)@ == old(ws)@ && match e {
                        ErrorKind::StorageFailure => true,
                        ErrorKind::CorruptedInput => st is None,
                        ErrorKind::InsufficientResource => st == Some(u64::MAX),
                        _ => false,
                    },
                }
            }),
    {
        let key = make_root_state_key();
        match sys_get_storage(storage, ws, &ctx.account, &key)? {
            Some(bytes) => match decode_u64(&bytes, 0) {
                Some((v, p)) => {
                    if p == bytes.len() {
                        if v == u64::MAX {
                            Err(ErrorKind::InsufficientResource)
                        } else {
                            let mut enc: Vec<u8> = Vec::new();
                            encode_u64(&mut enc, v + 1);
                            sys_set_storage(ws, &ctx.account, &key, enc);
                            Ok(Vec::new())
                        }
                    } else {
                        Err(ErrorKind::CorruptedInput)
                    }
                },
                None => Err(ErrorKind::CorruptedInput),
            },
            None => Err(ErrorKind::CorruptedInput),
        }
    }
}

} // verus!
