//! The node: a first-in-first-out queue of submitted signed transactions and
//! the persisted chain. Block production takes a batch from the front of the
//! queue, runs each transaction through the executor against the persisted
//! state, and extends the chain by one block whose height, parent hash and
//! contents are pinned by a pure mirror: two nodes with the same queue and
//! the same stored state produce the same block, unless a storage fault
//! intervenes, and then the fault is visible in an outcome or the result.

use vstd::prelude::*;

use crate::codec::{append_bytes, enc_u64, encode_u64};
use crate::digest::{compute_digest, digest_of};
use crate::errors::ErrorKind;
use crate::executor::{execute_transaction, spec_execute_transaction, MAX_OUTPUT_BYTES};
use crate::keys::{block_key, make_block_key};
use crate::names::{latest_block_key, make_latest_block_key};
use crate::storage::Storage;
use crate::types::{Block, BlockV, Digest, ExecutionOutcomeV, SignedTransaction,
    SignedTransactionV, TxOutcome, TxOutcomeV, DIGEST_LEN};
use crate::wire::{dec_block, decode_block, enc_block, enc_tx_outcome, encode_block,
    encode_tx_outcome, outcome_views, stx_views};

verus! {

/// The chain's latest block, as persisted, if it is present and decodes
/// whole.
pub open spec fn spec_latest(c: Map<Seq<u8>, Seq<u8>>) -> Option<BlockV> {
    let k = latest_block_key();
    if c.dom().contains(k) {
        match dec_block(c[k], 0) {
            Some((b, p)) => if p == c[k].len() {
                Some(b)
            } else {
                None
            },
            None => None,
        }
    } else {
        None
    }
}

/// The block persisted at a height, if it is present and decodes whole.
pub open spec fn spec_block_at(c: Map<Seq<u8>, Seq<u8>>, height: u64) -> Option<BlockV> {
    let k = block_key(height);
    if c.dom().contains(k) {
        match dec_block(c[k], 0) {
            Some((b, p)) => if p == c[k].len() {
                Some(b)
            } else {
                None
            },
            None => None,
        }
    } else {
        None
    }
}

/// What running a batch in order does: the state each transaction sees is
/// the state the one before it left.
pub open spec fn spec_run_batch(base: Map<Seq<u8>, Seq<u8>>, txs: Seq<SignedTransactionV>) -> (
    Map<Seq<u8>, Seq<u8>>,
    Seq<TxOutcomeV>,
)
    decreases txs.len(),
{
    if txs.len() == 0 {
        (base, Seq::empty())
    } else {
        let (m1, o) = spec_execute_transaction(base, txs[0].tx.body);
        let (m2, os) = spec_run_batch(m1, txs.skip(1));
        (m2, seq![o] + os)
    }
}

pub proof fn lemma_run_batch_push(
    base: Map<Seq<u8>, Seq<u8>>,
    txs: Seq<SignedTransactionV>,
    t: SignedTransactionV,
)
    ensures
        ({
            let (m, os) = spec_run_batch(base, txs);
            let (m2, o) = spec_execute_transaction(m, t.tx.body);
            spec_run_batch(base, txs.push(t)) == (m2, os.push(o))
        }),
    decreases txs.len(),
{
    if txs.len() == 0 {
        assert(txs.push(t)[0] == t);
        assert(txs.push(t).skip(1) =~= Seq::<SignedTransactionV>::empty());
        let (m2, o) = spec_execute_transaction(base, t.tx.body);
        assert(spec_run_batch(m2, Seq::<SignedTransactionV>::empty()) == (
            m2,
            Seq::<TxOutcomeV>::empty(),
        ));
        assert(seq![o] + Seq::<TxOutcomeV>::empty() =~= Seq::<TxOutcomeV>::empty().push(o));
    } else {
        let (m1, o0) = spec_execute_transaction(base, txs[0].tx.body);
        lemma_run_batch_push(m1, txs.skip(1), t);
        assert(txs.push(t).skip(1) =~= txs.skip(1).push(t));
        assert(txs.push(t)[0] == txs[0]);
        let (mm, os_tail) = spec_run_batch(m1, txs.skip(1));
        let (m2, o) = spec_execute_transaction(mm, t.tx.body);
        assert(seq![o0] + os_tail.push(o) =~= (seq![o0] + os_tail).push(o));
    }
}

/// Whether any outcome in a row reports a storage fault.
pub open spec fn has_fault(os: Seq<TxOutcomeV>) -> bool {
    exists|i: int|
        0 <= i < os.len() && (#[trigger] os[i]).result == Err::<ExecutionOutcomeV, ErrorKind>(
            ErrorKind::StorageFailure,
        )
}

/// An outcome's output fits the executor's output cap.
pub open spec fn outcome_fits(o: TxOutcomeV) -> bool {
    match o.result {
        Ok(e) => e.output.len() <= MAX_OUTPUT_BYTES,
        Err(_) => true,
    }
}

/// Every outcome a transaction run produces fits the output cap.
pub proof fn lemma_outcome_fits(base: Map<Seq<u8>, Seq<u8>>, tx: crate::types::TransactionBodyV)
    ensures
        outcome_fits(spec_execute_transaction(base, tx).1),
{
}

/// The concatenation of the hashes of a row of transactions.
pub open spec fn hash_concat(txs: Seq<SignedTransactionV>) -> Seq<u8>
    decreases txs.len(),
{
    if txs.len() == 0 {
        Seq::empty()
    } else {
        txs[0].tx.hash + hash_concat(txs.skip(1))
    }
}

pub proof fn lemma_hash_concat_push(txs: Seq<SignedTransactionV>, t: SignedTransactionV)
    ensures
        hash_concat(txs.push(t)) == hash_concat(txs) + t.tx.hash,
    decreases txs.len(),
{
    if txs.len() == 0 {
        assert(txs.push(t)[0] == t);
        assert(txs.push(t).skip(1) =~= Seq::<SignedTransactionV>::empty());
        assert(hash_concat(Seq::<SignedTransactionV>::empty()) == Seq::<u8>::empty());
        assert(hash_concat(txs.push(t)) == t.tx.hash + hash_concat(txs.push(t).skip(1)));
        assert(hash_concat(txs.push(t)) =~= hash_concat(txs) + t.tx.hash);
    } else {
        lemma_hash_concat_push(txs.skip(1), t);
        assert(txs.push(t).skip(1) =~= txs.skip(1).push(t));
        assert(txs.push(t)[0] == txs[0]);
        assert(hash_concat(txs.push(t)) == txs[0].tx.hash + hash_concat(txs.skip(1).push(t)));
        assert(hash_concat(txs) == txs[0].tx.hash + hash_concat(txs.skip(1)));
        assert(txs[0].tx.hash + (hash_concat(txs.skip(1)) + t.tx.hash) =~= (txs[0].tx.hash
            + hash_concat(txs.skip(1))) + t.tx.hash);
    }
}

/// What a block's hash is derived from: its height, its parent's hash, and
/// the ordered hashes of the transactions it includes.
pub open spec fn block_seed(height: u64, parent: Seq<u8>, txs: Seq<SignedTransactionV>) -> Seq<
    u8,
> {
    enc_u64(height) + parent + hash_concat(txs)
}

/// The encoded artifacts aligned with a row of outcomes.
pub open spec fn artifacts_of(os: Seq<TxOutcomeV>) -> Seq<Seq<u8>> {
    os.map_values(|o: TxOutcomeV| enc_tx_outcome(o))
}

/// The hand-built block the chain starts from.
pub open spec fn spec_genesis() -> BlockV {
    BlockV {
        height: 1,
        hash: Seq::new(DIGEST_LEN as nat, |i: int| 0u8),
        parent_hash: Seq::new(DIGEST_LEN as nat, |i: int| 0u8),
        timestamp: 0,
        txs: Seq::empty(),
        outcomes: Seq::empty(),
        artifacts: Seq::empty(),
    }
}

/// What block production does, as a pure function of the stored state, the
/// queue and the batch bound: which transactions are taken, every outcome,
/// the new block, and the state it leaves behind.
pub open spec fn spec_produce(
    base: Map<Seq<u8>, Seq<u8>>,
    pool: Seq<SignedTransactionV>,
    batch: nat,
) -> Option<(BlockV, Map<Seq<u8>, Seq<u8>>)> {
    match spec_latest(base) {
        Some(lb) => if lb.height == u64::MAX {
            None
        } else {
            let k = if pool.len() < batch {
                pool.len() as int
            } else {
                batch as int
            };
            let txs = pool.take(k);
            let (m, os) = spec_run_batch(base, txs);
            let height = (lb.height + 1) as u64;
            let b = BlockV {
                height,
                hash: digest_of(block_seed(height, lb.hash, txs)),
                parent_hash: lb.hash,
                timestamp: 0,
                txs,
                outcomes: os,
                artifacts: artifacts_of(os),
            };
            Some(
                (
                    b,
                    m.insert(block_key(height), enc_block(b)).insert(
                        latest_block_key(),
                        enc_block(b),
                    ),
                ),
            )
        },
        None => None,
    }
}

/// The node: the persisted store, the pending queue, and the configured
/// batch bound.
pub struct SpinNode {
    storage: Storage,
    pool: Vec<SignedTransaction>,
    batch_size: usize,
}

impl SpinNode {
    /// The persisted contents.
    pub closed spec fn contents(self) -> Map<Seq<u8>, Seq<u8>> {
        self.storage.contents()
    }

    /// The pending queue, front first.
    pub closed spec fn pool_view(self) -> Seq<SignedTransactionV> {
        stx_views(self.pool@)
    }

    /// The configured batch bound.
    pub closed spec fn spec_batch_size(self) -> nat {
        self.batch_size as nat
    }

    pub closed spec fn wf(self) -> bool {
        &&& forall|i: int|
            0 <= i < self.pool_view().len() ==> (#[trigger] self.pool_view()[i]).wf()
        &&& self.batch_size <= 0xffff_ffff
    }

    /// Starts a node over an opened store with the given batch bound.
    pub fn new(storage: Storage, batch_size: usize) -> (r: SpinNode)
        requires
            batch_size <= 0xffff_ffff,
        ensures
            r.wf(),
            r.contents() == storage.contents(),
            r.pool_view() == Seq::<SignedTransactionV>::empty(),
            r.spec_batch_size() == batch_size as nat,
    {
        let r = SpinNode { storage, pool: Vec::new(), batch_size };
        proof {
            assert(r.pool_view() =~= Seq::<SignedTransactionV>::empty());
        }
        r
    }

    /// Persists one block at its height and as the latest block.
    fn insert_block(&mut self, block: &Block) -> (r: Result<(), ErrorKind>)
        requires
            block@.wf(),
        ensures
            final(self).pool_view() == old(self).pool_view(),
            final(self).spec_batch_size() == old(self).spec_batch_size(),
            old(self).wf() ==> final(self).wf(),
            match r {
                Ok(_) => final(self).contents() == old(self).contents().insert(
                    block_key(block.height),
                    enc_block(block@),
                ).insert(latest_block_key(), enc_block(block@)),
                Err(e) => e == ErrorKind::StorageFailure,
            },
    {
        let mut bytes: Vec<u8> = Vec::new();
        encode_block(&mut bytes, block);
        let key = make_block_key(block.height);
        match self.storage.put(&key, &bytes) {
            Ok(_) => {},
            Err(e) => {
                return Err(e);
            },
        }
        proof {
            assert(self.pool_view() == old(self).pool_view());
            if old(self).wf() {
                assert(self.wf());
            }
        }
        let latest_key = make_latest_block_key();
        match self.storage.put(&latest_key, &bytes) {
            Ok(_) => {},
            Err(e) => {
                return Err(e);
            },
        }
        Ok(())
    }

    /// Writes the hand-built genesis block: height one, zeroed hashes, no
    /// transactions.
    pub fn init_genesis(&mut self) -> (r: Result<(), ErrorKind>)
        ensures
            final(self).pool_view() == old(self).pool_view(),
            final(self).spec_batch_size() == old(self).spec_batch_size(),
            old(self).wf() ==> final(self).wf(),
            match r {
                Ok(_) => final(self).contents() == old(self).contents().insert(
                    block_key(1),
                    enc_block(spec_genesis()),
                ).insert(latest_block_key(), enc_block(spec_genesis())),
                Err(e) => e == ErrorKind::StorageFailure,
            },
    {
        let genesis = Block {
            height: 1,
            hash: Digest::zeroed(),
            parent_hash: Digest::zeroed(),
            timestamp: 0,
            txs: Vec::new(),
            outcomes: Vec::new(),
            artifacts: Vec::new(),
        };
        proof {
            assert(genesis@.txs =~= spec_genesis().txs);
            assert(genesis@.outcomes =~= spec_genesis().outcomes);
            assert(genesis@.artifacts =~= spec_genesis().artifacts);
            assert(genesis@ == spec_genesis());
        }
        self.insert_block(&genesis)
    }

    /// The block persisted at the given height, if any.
    pub fn block_by_height(&self, height: u64) -> (r: Result<Option<Block>, ErrorKind>)
        ensures
            match r {
                Ok(Some(b)) => spec_block_at(self.contents(), height) == Some(b@),
                Ok(None) => !self.contents().dom().contains(block_key(height)),
                Err(e) => match e {
                    ErrorKind::StorageFailure => true,
                    ErrorKind::CorruptedInput => self.contents().dom().contains(block_key(height))
                        && spec_block_at(self.contents(), height) is None,
                    _ => false,
                },
            },
    {
        let key = make_block_key(height);
        match self.storage.get(&key)? {
            Some(bytes) => match decode_block(&bytes, 0) {
                Some((b, p)) => {
                    if p == bytes.len() {
                        Ok(Some(b))
                    } else {
                        Err(ErrorKind::CorruptedInput)
                    }
                },
                None => Err(ErrorKind::CorruptedInput),
            },
            None => Ok(None),
        }
    }

    /// The latest persisted block. Before genesis there is none: that is
    /// reported as corrupted chain state, never as a crash.
    pub fn latest_block(&self) -> (r: Result<Block, ErrorKind>)
        ensures
            match r {
                Ok(b) => spec_latest(self.contents()) == Some(b@),
                Err(e) => match e {
                    ErrorKind::StorageFailure => true,
                    ErrorKind::CorruptedInput => spec_latest(self.contents()) is None,
                    _ => false,
                },
            },
    {
        let key = make_latest_block_key();
        match self.storage.get(&key)? {
            Some(bytes) => match decode_block(&bytes, 0) {
                Some((b, p)) => {
                    if p == bytes.len() {
                        Ok(b)
                    } else {
                        Err(ErrorKind::CorruptedInput)
                    }
                },
                None => Err(ErrorKind::CorruptedInput),
            },
            None => Err(ErrorKind::CorruptedInput),
        }
    }

    /// Enqueues a signed transaction at the back of the pending queue.
    pub fn add_tx(&mut self, tx: SignedTransaction)
        requires
            old(self).wf(),
            tx@.wf(),
        ensures
            final(self).wf(),
            final(self).contents() == old(self).contents(),
            final(self).spec_batch_size() == old(self).spec_batch_size(),
            final(self).pool_view() == old(self).pool_view().push(tx@),
    {
        let ghost txv = tx@;
        self.pool.push(tx);
        proof {
            assert(self.pool_view() =~= old(self).pool_view().push(txv));
        }
    }

    /// Produces the next block: takes a batch from the front of the queue,
    /// runs each transaction in order against the persisted state, and
    /// extends the chain. A failing transaction never aborts the batch. The
    /// block's height, parent hash, timestamp, hash derivation and
    /// outcome/artifact alignment hold whatever the outcomes were; unless an
    /// outcome reports a storage fault, the block and the state it leaves
    /// are exactly what the production mirror says of the old state and
    /// queue. On an error the queue is either untouched or the taken batch
    /// is consumed (a fault while persisting drops it).
    #[verifier::rlimit(100)]
    pub fn produce_block(&mut self) -> (r: Result<Block, ErrorKind>)
        requires
            old(self).wf(),
        ensures
            final(self).wf(),
            final(self).spec_batch_size() == old(self).spec_batch_size(),
            match r {
                Ok(b) => ({
                    let k = if old(self).pool_view().len() < old(self).spec_batch_size() {
                        old(self).pool_view().len() as int
                    } else {
                        old(self).spec_batch_size() as int
                    };
                    &&& final(self).pool_view() == old(self).pool_view().skip(k)
                    &&& b@.txs == old(self).pool_view().take(k)
                    &&& (spec_latest(old(self).contents()) matches Some(lb) && b@.height
                        == lb.height + 1 && b@.parent_hash == lb.hash)
                    &&& b@.timestamp == 0
                    &&& b@.hash == digest_of(block_seed(b@.height, b@.parent_hash, b@.txs))
                    &&& b@.outcomes.len() == b@.txs.len()
                    &&& b@.artifacts == artifacts_of(b@.outcomes)
                    &&& (has_fault(b@.outcomes) || spec_produce(
                        old(self).contents(),
                        old(self).pool_view(),
                        old(self).spec_batch_size(),
                    ) == Some((b@, final(self).contents())))
                }),
                Err(e) => ({
                    let k = if old(self).pool_view().len() < old(self).spec_batch_size() {
                        old(self).pool_view().len() as int
                    } else {
                        old(self).spec_batch_size() as int
                    };
                    &&& (final(self).pool_view() == old(self).pool_view()
                        || final(self).pool_view() == old(self).pool_view().skip(k))
                    &&& match e {
                        ErrorKind::StorageFailure => true,
                        ErrorKind::CorruptedInput => spec_latest(old(self).contents()) is None,
                        ErrorKind::InsufficientResource => spec_latest(
                            old(self).contents(),
                        ) matches Some(lb) && lb.height == u64::MAX,
                        _ => false,
                    }
                }),
            },
    {
        let latest = match self.latest_block() {
            Ok(b) => b,
            Err(e) => {
                return Err(e);
            },
        };
        if latest.height == u64::MAX {
            return Err(ErrorKind::InsufficientResource);
        }
        let height = latest.height + 1;
        let k = if self.pool.len() < self.batch_size {
            self.pool.len()
        } else {
            self.batch_size
        };
        let ghost old_pool = self.pool_view();
        let mut txs: Vec<SignedTransaction> = Vec::new();
        let mut i: usize = 0;
        while i < k
            invariant
                i <= k,
                k <= old_pool.len(),
                old(self).wf(),
                old_pool == old(self).pool_view(),
                self.batch_size == old(self).batch_size,
                self.storage == old(self).storage,
                self.pool@.len() == old_pool.len() - i,
                txs@.len() == i,
                stx_views(txs@) == old_pool.take(i as int),
                stx_views(self.pool@) == old_pool.skip(i as int),
                forall|j: int| 0 <= j < txs@.len() ==> (#[trigger] txs@[j])@.wf(),
            decreases k - i,
        {
            let ghost prepool = self.pool@;
            let t = self.pool.remove(0);
            proof {
                assert(stx_views(prepool)[0] == prepool[0]@);
                assert(old_pool.skip(i as int)[0] == old_pool[i as int]);
                assert(t@ == old_pool[i as int]);
                assert(old_pool[i as int].wf());
                assert(stx_views(txs@.push(t)) =~= stx_views(txs@).push(t@));
                assert(old_pool.take(i + 1) =~= old_pool.take(i as int).push(t@));
                assert(self.pool@ =~= prepool.skip(1));
                assert forall|x: int| 0 <= x < stx_views(self.pool@).len() implies stx_views(
                    self.pool@,
                )[x] == old_pool.skip(i + 1)[x] by {
                    assert(stx_views(self.pool@)[x] == self.pool@[x]@);
                    assert(self.pool@[x] == prepool[x + 1]);
                    assert(stx_views(prepool)[x + 1] == prepool[x + 1]@);
                    assert(old_pool.skip(i as int)[x + 1] == old_pool[i + x + 1]);
                    assert(old_pool.skip(i + 1)[x] == old_pool[i + 1 + x]);
                }
                assert(stx_views(self.pool@) =~= old_pool.skip(i + 1));
            }
            txs.push(t);
            i = i + 1;
        }
        let ghost batch = stx_views(txs@);
        let ghost popped_pool = self.pool@;
        let mut outcomes: Vec<TxOutcome> = Vec::new();
        let mut artifacts: Vec<Vec<u8>> = Vec::new();
        let mut j: usize = 0;
        while j < txs.len()
            invariant
                j <= txs@.len(),
                txs@.len() == k,
                k <= 0xffff_ffff,
                stx_views(txs@) == batch,
                self.pool@ == popped_pool,
                self.batch_size == old(self).batch_size,
                outcomes@.len() == j,
                artifacts@.len() == j,
                forall|t: int| 0 <= t < txs@.len() ==> (#[trigger] txs@[t])@.wf(),
                forall|t: int| 0 <= t < j ==> outcome_fits(#[trigger] outcomes@[t]@),
                forall|t: int| 0 <= t < j ==> (#[trigger] artifacts@[t])@ == enc_tx_outcome(
                    outcomes@[t]@,
                ),
                !has_fault(outcome_views(outcomes@)) ==> (
                self.storage.contents(),
                outcome_views(outcomes@),
                ) == spec_run_batch(old(self).contents(), batch.take(j as int)),
            decreases txs@.len() - j,
        {
            let ghost pre = self.storage.contents();
            let outcome = execute_transaction(&mut self.storage, &txs[j].tx.body);
            proof {
                assert(batch[j as int] == txs@[j as int]@);
                lemma_outcome_fits(pre, txs@[j as int]@.tx.body);
                assert(batch.take(j + 1) =~= batch.take(j as int).push(batch[j as int]));
                let views = outcome_views(outcomes@);
                let pushed = views.push(outcome@);
                assert(outcome_views(outcomes@.push(outcome)) =~= pushed);
                assert(pushed[j as int] == outcome@);
                if has_fault(views) {
                    let w = choose|w: int|
                        0 <= w < views.len() && (#[trigger] views[w]).result == Err::<
                            ExecutionOutcomeV,
                            ErrorKind,
                        >(ErrorKind::StorageFailure);
                    assert(pushed[w] == views[w]);
                    assert(has_fault(pushed));
                }
                if !has_fault(pushed) {
                    assert(!has_fault(views));
                    assert(outcome@.result != Err::<ExecutionOutcomeV, ErrorKind>(
                        ErrorKind::StorageFailure,
                    ));
                    assert((pre, views) == spec_run_batch(
                        old(self).contents(),
                        batch.take(j as int),
                    ));
                    lemma_run_batch_push(
                        old(self).contents(),
                        batch.take(j as int),
                        batch[j as int],
                    );
                    assert((self.storage.contents(), pushed) == spec_run_batch(
                        old(self).contents(),
                        batch.take(j + 1),
                    ));
                }
            }
            let mut artifact: Vec<u8> = Vec::new();
            encode_tx_outcome(&mut artifact, &outcome);
            artifacts.push(artifact);
            outcomes.push(outcome);
            j = j + 1;
        }
        let ghost snap = *self;
        let ghost outcomes_snap = outcomes@;
        let ghost artifacts_snap = artifacts@;
        let mut seed: Vec<u8> = Vec::new();
        encode_u64(&mut seed, height);
        append_bytes(&mut seed, &latest.hash.bytes);
        let mut t: usize = 0;
        while t < txs.len()
            invariant
                t <= txs@.len(),
                *self == snap,
                outcomes@ == outcomes_snap,
                artifacts@ == artifacts_snap,
                stx_views(txs@) == batch,
                seed@ == enc_u64(height) + latest.hash@ + hash_concat(batch.take(t as int)),
            decreases txs@.len() - t,
        {
            proof {
                lemma_hash_concat_push(batch.take(t as int), batch[t as int]);
                assert(batch.take(t + 1) =~= batch.take(t as int).push(batch[t as int]));
            }
            append_bytes(&mut seed, &txs[t].tx.hash.bytes);
            t = t + 1;
            assert(seed@ =~= enc_u64(height) + latest.hash@ + hash_concat(batch.take(t as int)));
        }
        proof {
            assert(batch.take(batch.len() as int) =~= batch);
        }
        let seed_len = seed.len();
        proof {
            assert(seed@.len() == seed_len as int);
        }
        let hash = compute_digest(&seed);
        let block = Block {
            height,
            hash,
            parent_hash: latest.hash,
            timestamp: 0,
            txs,
            outcomes,
            artifacts,
        };
        proof {
            assert forall|x: int| 0 <= x < block@.outcomes.len() implies (
            #[trigger] block@.outcomes[x]).wf() by {
                assert(block@.outcomes[x] == block.outcomes@[x]@);
                assert(outcome_fits(block.outcomes@[x]@));
            }
            assert forall|x: int| 0 <= x < block@.artifacts.len() implies crate::codec::bytes_fit(
                #[trigger] block@.artifacts[x],
            ) by {
                assert(block@.artifacts[x] == block.artifacts@[x]@);
                assert(block.artifacts@[x]@ == enc_tx_outcome(block.outcomes@[x]@));
                assert(outcome_fits(block.outcomes@[x]@));
            }
            assert forall|x: int| 0 <= x < block@.txs.len() implies (
            #[trigger] block@.txs[x]).wf() by {
                assert(block@.txs[x] == block.txs@[x]@);
            }
            assert(block@.wf());
            assert forall|x: int| 0 <= x < block@.artifacts.len() implies block@.artifacts[x]
                == artifacts_of(block@.outcomes)[x] by {
                assert(block@.artifacts[x] == block.artifacts@[x]@);
                assert(block@.outcomes[x] == block.outcomes@[x]@);
            }
            assert(block@.artifacts =~= artifacts_of(block@.outcomes));
        }
        proof {
            assert forall|x: int| 0 <= x < self.pool_view().len() implies (
            #[trigger] self.pool_view()[x]).wf() by {
                assert(self.pool_view()[x] == old_pool.skip(k as int)[x]);
                assert(old_pool.skip(k as int)[x] == old_pool[k + x]);
                assert(old_pool[k + x].wf());
            }
            assert(self.wf());
        }
        match self.insert_block(&block) {
            Ok(_) => Ok(block),
            Err(e) => Err(e),
        }
    }
}

/// Builds a signed transaction over a body: the hash is derived from the
/// encoded body, and the signature is left empty, since signature checking
/// is an open design decision upstream.
pub fn build_transaction(
    contract: crate::types::AccountId,
    method: Vec<u8>,
    args: Vec<u8>,
    attached_gas: u64,
    signer: crate::types::AccountId,
) -> (r: SignedTransaction)
    requires
        contract.wf(),
        signer.wf(),
        crate::codec::bytes_fit(method@),
        crate::codec::bytes_fit(args@),
    ensures
        r@.tx.body == (crate::types::TransactionBodyV {
            contract: contract@,
            method: method@,
            args: args@,
            attached_gas,
            signer: signer@,
        }),
        r@.tx.hash == digest_of(crate::wire::enc_tx_body(r@.tx.body)),
        r@.signature == Seq::<u8>::empty(),
        r@.wf(),
{
    let body = crate::types::TransactionBody { contract, method, args, attached_gas, signer };
    let mut encoded: Vec<u8> = Vec::new();
    crate::wire::encode_tx_body(&mut encoded, &body);
    let hash = compute_digest(&encoded);
    SignedTransaction {
        tx: crate::types::Transaction { body, hash },
        signature: Vec::new(),
    }
}

} // verus!
