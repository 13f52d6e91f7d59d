//! The per-call execution context: the call descriptor the syscall handlers
//! observe during one run, and the gas-usage value set exactly once when the
//! run has completed. One context serves one transaction; it is never shared
//! across runs.

use vstd::prelude::*;

use crate::types::AccountId;

verus! {

/// The view of a call descriptor.
pub struct CallContextV {
    pub account: Seq<u8>,
    pub method: Seq<u8>,
    pub args: Seq<u8>,
    pub attached_gas: u64,
    pub sender: Seq<u8>,
    pub signer: Seq<u8>,
}

impl CallContextV {
    pub open spec fn wf(self) -> bool {
        &&& crate::codec::bytes_fit(self.account)
        &&& crate::codec::bytes_fit(self.method)
        &&& crate::codec::bytes_fit(self.args)
        &&& crate::codec::bytes_fit(self.sender)
        &&& crate::codec::bytes_fit(self.signer)
    }
}

/// One call as the executor and the syscall handlers see it: the contract
/// called, the method and arguments, the gas attached, the immediate sender
/// and the transaction's original signer.
pub struct CallContext {
    pub account: AccountId,
    pub method: Vec<u8>,
    pub args: Vec<u8>,
    pub attached_gas: u64,
    pub sender: AccountId,
    pub signer: AccountId,
}

impl View for CallContext {
    type V = CallContextV;

    open spec fn view(&self) -> CallContextV {
        CallContextV {
            account: self.account@,
            method: self.method@,
            args: self.args@,
            attached_gas: self.attached_gas,
            sender: self.sender@,
            signer: self.signer@,
        }
    }
}

/// A call descriptor bound to one run, with the gas-usage value measured for
/// the run, set exactly once after it completes.
pub struct ExecutionContext {
    call: CallContext,
    gas_usage: Option<u64>,
}

impl ExecutionContext {
    pub closed spec fn spec_call(self) -> CallContextV {
        self.call@
    }

    pub closed spec fn spec_gas_usage(self) -> Option<u64> {
        self.gas_usage
    }

    pub fn new(call: CallContext) -> (r: ExecutionContext)
        ensures
            r.spec_call() == call@,
            r.spec_gas_usage() is None,
    {
        ExecutionContext { call, gas_usage: None }
    }

    /// The call descriptor, read-only to handlers.
    pub fn call(&self) -> (r: &CallContext)
        ensures
            r@ == self.spec_call(),
    {
        &self.call
    }

    /// Records the run's measured gas usage; a context takes it only once.
    pub fn set_gas_usage(&mut self, gas: u64)
        requires
            old(self).spec_gas_usage() is None,
        ensures
            final(self).spec_gas_usage() == Some(gas),
            final(self).spec_call() == old(self).spec_call(),
    {
        self.gas_usage = Some(gas);
    }

    pub fn gas_usage(&self) -> (r: Option<u64>)
        ensures
            r == self.spec_gas_usage(),
    {
        self.gas_usage
    }
}

} // verus!
