//! The ledger's data model: accounts, transactions, execution outcomes and
//! blocks. Each executable type has a mathematical view over which every
//! contract speaks; the wire encoding of each type lives in `wire`.

use vstd::prelude::*;

use crate::errors::ErrorKind;

verus! {

/// An opaque identifier with byte-string equality, used as a storage-key
/// component.
#[derive(Clone, Debug, PartialEq, Eq)]
pub struct AccountId {
    pub bytes: Vec<u8>,
}

impl View for AccountId {
    type V = Seq<u8>;

    open spec fn view(&self) -> Seq<u8> {
        self.bytes@
    }
}

impl AccountId {
    /// An id fits the wire format when its length fits the length prefix.
    pub open spec fn wf(self) -> bool {
        crate::codec::bytes_fit(self@)
    }

    pub fn new(bytes: Vec<u8>) -> (r: AccountId)
        ensures
            r@ == bytes@,
    {
        AccountId { bytes }
    }

    /// Byte-string equality of two identifiers.
    pub fn eq_id(&self, other: &AccountId) -> (r: bool)
        ensures
            r == (self@ == other@),
    {
        let r = self.bytes == other.bytes;
        proof {
            if self.bytes@ =~= other.bytes@ {
                assert(self.bytes@ == other.bytes@);
            }
        }
        r
    }

    pub fn duplicate(&self) -> (r: AccountId)
        ensures
            r@ == self@,
    {
        AccountId { bytes: crate::codec::copy_range(&self.bytes, 0, self.bytes.len()) }
    }
}

/// A 32-byte digest value.
#[derive(Clone, Debug, PartialEq, Eq)]
pub struct Digest {
    pub bytes: Vec<u8>,
}

impl View for Digest {
    type V = Seq<u8>;

    open spec fn view(&self) -> Seq<u8> {
        self.bytes@
    }
}

/// The number of bytes in a digest.
pub const DIGEST_LEN: usize = 32;

impl Digest {
    pub open spec fn wf(self) -> bool {
        self@.len() == DIGEST_LEN
    }

    pub fn new(bytes: Vec<u8>) -> (r: Digest)
        requires
            bytes@.len() == DIGEST_LEN,
        ensures
            r@ == bytes@,
            r.wf(),
    {
        Digest { bytes }
    }

    /// The all-zero digest that a fresh account's code hash starts as.
    pub fn zeroed() -> (r: Digest)
        ensures
            r.wf(),
            r@ == Seq::new(DIGEST_LEN as nat, |i: int| 0u8),
    {
        let mut bytes: Vec<u8> = Vec::new();
        let mut i: usize = 0;
        while i < DIGEST_LEN
            invariant
                i <= DIGEST_LEN,
                bytes@ == Seq::new(i as nat, |j: int| 0u8),
            decreases DIGEST_LEN - i,
        {
            bytes.push(0);
            i = i + 1;
            assert(bytes@ =~= Seq::new(i as nat, |j: int| 0u8));
        }
        Digest { bytes }
    }

    pub fn eq_digest(&self, other: &Digest) -> (r: bool)
        ensures
            r == (self@ == other@),
    {
        let r = self.bytes == other.bytes;
        proof {
            if self.bytes@ =~= other.bytes@ {
                assert(self.bytes@ == other.bytes@);
            }
        }
        r
    }

    pub fn duplicate(&self) -> (r: Digest)
        ensures
            r@ == self@,
    {
        Digest { bytes: crate::codec::copy_range(&self.bytes, 0, self.bytes.len()) }
    }
}

/// The view of an account record.
pub struct AccountV {
    pub account_id: Seq<u8>,
    pub public_key: Seq<u8>,
    pub code_hash: Seq<u8>,
    pub balance: u128,
    pub nonce: u64,
}

impl AccountV {
    pub open spec fn wf(self) -> bool {
        &&& crate::codec::bytes_fit(self.account_id)
        &&& crate::codec::bytes_fit(self.public_key)
        &&& self.code_hash.len() == DIGEST_LEN
    }
}

/// An account record: created once, its code hash mutated on deploy, never
/// deleted.
#[derive(Clone, Debug, PartialEq, Eq)]
pub struct Account {
    pub account_id: AccountId,
    pub public_key: Vec<u8>,
    pub code_hash: Digest,
    pub balance: u128,
    pub nonce: u64,
}

impl View for Account {
    type V = AccountV;

    open spec fn view(&self) -> AccountV {
        AccountV {
            account_id: self.account_id@,
            public_key: self.public_key@,
            code_hash: self.code_hash@,
            balance: self.balance,
            nonce: self.nonce,
        }
    }
}

/// The view of a transaction body.
pub struct TransactionBodyV {
    pub contract: Seq<u8>,
    pub method: Seq<u8>,
    pub args: Seq<u8>,
    pub attached_gas: u64,
    pub signer: Seq<u8>,
}

impl TransactionBodyV {
    pub open spec fn wf(self) -> bool {
        &&& crate::codec::bytes_fit(self.contract)
        &&& crate::codec::bytes_fit(self.method)
        &&& crate::codec::bytes_fit(self.args)
        &&& crate::codec::bytes_fit(self.signer)
    }
}

/// What a transaction asks for; immutable once built.
#[derive(Clone, Debug, PartialEq, Eq)]
pub struct TransactionBody {
    pub contract: AccountId,
    pub method: Vec<u8>,
    pub args: Vec<u8>,
    pub attached_gas: u64,
    pub signer: AccountId,
}

impl View for TransactionBody {
    type V = TransactionBodyV;

    open spec fn view(&self) -> TransactionBodyV {
        TransactionBodyV {
            contract: self.contract@,
            method: self.method@,
            args: self.args@,
            attached_gas: self.attached_gas,
            signer: self.signer@,
        }
    }
}

/// The view of a transaction.
pub struct TransactionV {
    pub body: TransactionBodyV,
    pub hash: Seq<u8>,
}

impl TransactionV {
    pub open spec fn wf(self) -> bool {
        &&& self.body.wf()
        &&& self.hash.len() == DIGEST_LEN
    }
}

/// A transaction body together with its hash.
#[derive(Clone, Debug, PartialEq, Eq)]
pub struct Transaction {
    pub body: TransactionBody,
    pub hash: Digest,
}

impl View for Transaction {
    type V = TransactionV;

    open spec fn view(&self) -> TransactionV {
        TransactionV { body: self.body@, hash: self.hash@ }
    }
}

/// The view of a signed transaction.
pub struct SignedTransactionV {
    pub tx: TransactionV,
    pub signature: Seq<u8>,
}

impl SignedTransactionV {
    pub open spec fn wf(self) -> bool {
        &&& self.tx.wf()
        &&& crate::codec::bytes_fit(self.signature)
    }
}

/// A transaction with its signature. The signature is carried but not
/// checked: signature verification is an open design decision upstream.
#[derive(Clone, Debug, PartialEq, Eq)]
pub struct SignedTransaction {
    pub tx: Transaction,
    pub signature: Vec<u8>,
}

impl View for SignedTransaction {
    type V = SignedTransactionV;

    open spec fn view(&self) -> SignedTransactionV {
        SignedTransactionV { tx: self.tx@, signature: self.signature@ }
    }
}

/// The view of a committed output.
pub struct ExecutionOutcomeV {
    pub output: Seq<u8>,
}

impl ExecutionOutcomeV {
    pub open spec fn wf(self) -> bool {
        crate::codec::bytes_fit(self.output)
    }
}

/// The output a run committed.
#[derive(Clone, Debug, PartialEq, Eq)]
pub struct ExecutionOutcome {
    pub output: Vec<u8>,
}

impl View for ExecutionOutcome {
    type V = ExecutionOutcomeV;

    open spec fn view(&self) -> ExecutionOutcomeV {
        ExecutionOutcomeV { output: self.output@ }
    }
}

/// The view of a per-transaction outcome.
pub struct TxOutcomeV {
    pub gas_used: u64,
    pub result: Result<ExecutionOutcomeV, ErrorKind>,
}

impl TxOutcomeV {
    pub open spec fn wf(self) -> bool {
        match self.result {
            Ok(o) => o.wf(),
            Err(_) => true,
        }
    }
}

/// What one transaction run came to: the gas it was charged, and either its
/// committed output or the kind of failure. A failing transaction never
/// aborts the rest of its batch.
#[derive(Debug, PartialEq, Eq)]
pub struct TxOutcome {
    pub gas_used: u64,
    pub result: Result<ExecutionOutcome, ErrorKind>,
}

impl View for TxOutcome {
    type V = TxOutcomeV;

    open spec fn view(&self) -> TxOutcomeV {
        TxOutcomeV {
            gas_used: self.gas_used,
            result: match self.result {
                Ok(ref o) => Ok(o@),
                Err(e) => Err(e),
            },
        }
    }
}

/// The view of a block.
pub struct BlockV {
    pub height: u64,
    pub hash: Seq<u8>,
    pub parent_hash: Seq<u8>,
    pub timestamp: u64,
    pub txs: Seq<SignedTransactionV>,
    pub outcomes: Seq<TxOutcomeV>,
    pub artifacts: Seq<Seq<u8>>,
}

impl BlockV {
    pub open spec fn wf(self) -> bool {
        &&& self.hash.len() == DIGEST_LEN
        &&& self.parent_hash.len() == DIGEST_LEN
        &&& self.txs.len() <= 0xffff_ffff
        &&& self.outcomes.len() == self.txs.len()
        &&& self.artifacts.len() == self.txs.len()
        &&& forall|i: int| 0 <= i < self.txs.len() ==> (#[trigger] self.txs[i]).wf()
        &&& forall|i: int| 0 <= i < self.outcomes.len() ==> (#[trigger] self.outcomes[i]).wf()
        &&& forall|i: int|
            0 <= i < self.artifacts.len() ==> crate::codec::bytes_fit(#[trigger] self.artifacts[i])
    }
}

/// A block: its place in the chain, the transactions it includes in order,
/// and, aligned with them, each transaction's outcome and raw execution
/// artifact. The outcome and artifact of a transaction are looked up by its
/// hash.
#[derive(Debug, PartialEq, Eq)]
pub struct Block {
    pub height: u64,
    pub hash: Digest,
    pub parent_hash: Digest,
    pub timestamp: u64,
    pub txs: Vec<SignedTransaction>,
    pub outcomes: Vec<TxOutcome>,
    pub artifacts: Vec<Vec<u8>>,
}

impl View for Block {
    type V = BlockV;

    open spec fn view(&self) -> BlockV {
        BlockV {
            height: self.height,
            hash: self.hash@,
            parent_hash: self.parent_hash@,
            timestamp: self.timestamp,
            txs: self.txs@.map_values(|t: SignedTransaction| t@),
            outcomes: self.outcomes@.map_values(|o: TxOutcome| o@),
            artifacts: self.artifacts@.map_values(|a: Vec<u8>| a@),
        }
    }
}

impl Block {
    /// The outcome recorded for the transaction with the given hash, if the
    /// block includes one.
    pub fn outcome_by_hash(&self, hash: &Digest) -> (r: Option<&TxOutcome>)
        requires
            self@.wf(),
        ensures
            match r {
                Some(o) => exists|i: int|
                    0 <= i < self@.txs.len() && self@.txs[i].tx.hash == hash@ && o@
                        == self@.outcomes[i],
                None => forall|i: int|
                    0 <= i < self@.txs.len() ==> (#[trigger] self@.txs[i]).tx.hash != hash@,
            },
    {
        let mut i: usize = 0;
        while i < self.txs.len()
            invariant
                self@.wf(),
                i <= self.txs.len(),
                self.outcomes@.len() == self.txs@.len(),
                forall|j: int| 0 <= j < i ==> (#[trigger] self@.txs[j]).tx.hash != hash@,
            decreases self.txs.len() - i,
        {
            if self.txs[i].tx.hash.eq_digest(hash) {
                proof {
                    assert(self@.txs[i as int].tx.hash == hash@);
                    assert(self@.outcomes[i as int] == self.outcomes@[i as int]@);
                }
                return Some(&self.outcomes[i]);
            }
            i = i + 1;
        }
        None
    }
}

} // verus!
