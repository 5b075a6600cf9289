//! The state-transition orchestrator: drives one rollup slot through
//! begin-slot, per-blob processing, and end-slot.

use vstd::prelude::*;

use crate::batch::{batch_decode_spec, decode_batch};
use crate::default_signature::{sha256, sha256_of};
use crate::dispatch::{Context, DispatchCall, Genesis};
use crate::hooks::{ApplyBlobHooks, TxHooks};
use crate::stf::{
    tx_receipts_view, BatchReceipt, BatchReceiptModel, TransactionReceipt, TxReceiptModel,
};
use crate::storage::{apply_writes, Storage, StorageCommitError, Witness};
use crate::transaction::{raws_view, verify_all_spec, verify_txs_stateless, Transaction, TxModel};
use crate::working_set::{
    lemma_scoped_effect_trans, lemma_scoped_revert_restores, scoped_effect, WorkingSet, WsModel,
};

verus! {

/// What became of one transaction.
#[derive(Clone, Copy, Debug, PartialEq, Eq, Structural)]
pub enum TxEffect {
    /// The transaction's changes were undone.
    Reverted,
    /// The transaction's changes were committed.
    Successful,
}

/// Why a sequencer was slashed.
#[derive(Clone, Copy, Debug, PartialEq, Eq, Structural)]
pub enum SlashingReason {
    /// The blob payload did not parse as a batch.
    InvalidBatchEncoding,
    /// Some transaction in the batch failed stateless verification.
    StatelessVerificationFailed,
    /// Some transaction's message payload did not decode as a call.
    InvalidTransactionEncoding,
}

/// How the sequencer that proposed a blob fared.
#[derive(Clone, Copy, Debug, PartialEq, Eq, Structural)]
pub enum SequencerOutcome {
    /// The batch was processed to the end.
    Rewarded,
    /// The batch was rejected for the given reason.
    Slashed(SlashingReason),
    /// The blob was not a real attempt; no penalty.
    Ignored,
}


/// The receipt of a transaction whose changes were undone: the pre-dispatch
/// hook rejected it, or its dispatch failed. No events.
pub open spec fn reverted_receipt(raw: Seq<u8>) -> TxReceiptModel {
    TxReceiptModel {
        hash: sha256_of(raw),
        body: None,
        events: Seq::empty(),
        effect: TxEffect::Reverted,
    }
}

/// The receipt of a transaction that dispatched successfully: its events, in
/// emission order.
pub open spec fn successful_receipt(raw: Seq<u8>, events: Seq<(Seq<u8>, Seq<u8>)>)
    -> TxReceiptModel {
    TxReceiptModel { hash: sha256_of(raw), body: None, events, effect: TxEffect::Successful }
}

/// The batch receipt of a blob whose begin hook turned it away.
pub open spec fn ignored_receipt(blob: Seq<u8>) -> BatchReceiptModel {
    BatchReceiptModel {
        hash: sha256_of(blob),
        txs: Seq::empty(),
        outcome: SequencerOutcome::Ignored,
    }
}

/// The batch receipt of a blob whose sequencer was slashed: no transaction
/// receipts survive it.
pub open spec fn slashed_receipt(blob: Seq<u8>, reason: SlashingReason) -> BatchReceiptModel {
    BatchReceiptModel {
        hash: sha256_of(blob),
        txs: Seq::empty(),
        outcome: SequencerOutcome::Slashed(reason),
    }
}

/// The batch receipt of a blob processed to the end.
pub open spec fn rewarded_receipt(blob: Seq<u8>, txs: Seq<TxReceiptModel>) -> BatchReceiptModel {
    BatchReceiptModel { hash: sha256_of(blob), txs, outcome: SequencerOutcome::Rewarded }
}

/// One transaction of the per-transaction loop: scope, pre-dispatch hook,
/// call decoding, dispatch, post-dispatch hook, then commit or revert.
/// Yields the working set, the receipt to append (a rejected or failed
/// transaction is recorded as Reverted), and whether the blob aborts (a
/// call-decode failure slashes the sequencer and discards the accumulated
/// receipts).
pub open spec fn tx_step_spec<S: Storage, RT: DispatchCall<S>, H: TxHooks<S>>(
    rt: RT,
    hooks: H,
    pre: WsModel,
    raw: Seq<u8>,
    tx: TxModel,
) -> (WsModel, Option<TxReceiptModel>, bool) {
    let entered = pre.enter();
    let after_pre = hooks.pre_dispatch_ws_spec(tx, entered);
    if !hooks.pre_dispatch_ok_spec(tx, entered) {
        (after_pre.revert_top(), Some(reverted_receipt(raw)), false)
    } else {
        let sender = hooks.pre_dispatch_addr_spec(tx, entered);
        match RT::decode_spec(tx.msg) {
            None => (after_pre.revert_top(), None, true),
            Some(msg) => {
                let after_dispatch = rt.dispatch_ws_spec(msg, after_pre, sender);
                let outcome = rt.dispatch_result_spec(msg, after_pre, sender);
                let after_post = hooks.post_dispatch_ws_spec(tx, after_dispatch);
                match outcome {
                    Some(events) => (
                        after_post.commit_top(),
                        Some(successful_receipt(raw, events)),
                        false,
                    ),
                    None => (after_post.revert_top(), Some(reverted_receipt(raw)), false),
                }
            },
        }
    }
}

/// The first `n` transactions of a batch, processed in order; an abort
/// absorbs the rest of the loop.
#[verifier::opaque]
pub open spec fn tx_loop_spec<S: Storage, RT: DispatchCall<S>, H: TxHooks<S>>(
    rt: RT,
    hooks: H,
    pre: WsModel,
    raws: Seq<Seq<u8>>,
    txs: Seq<TxModel>,
    n: int,
) -> (WsModel, Seq<TxReceiptModel>, bool)
    decreases n,
{
    if n <= 0 {
        (pre, Seq::empty(), false)
    } else {
        let (w, rs, ab) = tx_loop_spec(rt, hooks, pre, raws, txs, n - 1);
        if ab {
            (w, rs, true)
        } else {
            let (w2, rec, ab2) = tx_step_spec(rt, hooks, w, raws[n - 1], txs[n - 1]);
            match rec {
                Some(r) => (w2, rs.push(r), ab2),
                None => (w2, rs, ab2),
            }
        }
    }
}

/// Helper: the loop over `n` transactions is the loop over `n - 1` followed
/// by one step.
proof fn lemma_tx_loop_unfold<S: Storage, RT: DispatchCall<S>, H: TxHooks<S>>(
    rt: RT,
    hooks: H,
    pre: WsModel,
    raws: Seq<Seq<u8>>,
    txs: Seq<TxModel>,
    n: int,
)
    requires
        n >= 1,
    ensures
        tx_loop_spec(rt, hooks, pre, raws, txs, n) == ({
            let (w, rs, ab) = tx_loop_spec(rt, hooks, pre, raws, txs, n - 1);
            if ab {
                (w, rs, true)
            } else {
                let (w2, rec, ab2) = tx_step_spec(rt, hooks, w, raws[n - 1], txs[n - 1]);
                match rec {
                    Some(r) => (w2, rs.push(r), ab2),
                    None => (w2, rs, ab2),
                }
            }
        }),
{
    reveal_with_fuel(tx_loop_spec, 2);
}

/// Helper: the empty loop does nothing.
proof fn lemma_tx_loop_zero<S: Storage, RT: DispatchCall<S>, H: TxHooks<S>>(
    rt: RT,
    hooks: H,
    pre: WsModel,
    raws: Seq<Seq<u8>>,
    txs: Seq<TxModel>,
)
    ensures
        tx_loop_spec(rt, hooks, pre, raws, txs, 0) == (pre, Seq::<TxReceiptModel>::empty(), false),
{
    reveal_with_fuel(tx_loop_spec, 1);
}

/// Helper: once the loop aborts, it stays aborted with the same state.
proof fn lemma_tx_loop_absorb<S: Storage, RT: DispatchCall<S>, H: TxHooks<S>>(
    rt: RT,
    hooks: H,
    pre: WsModel,
    raws: Seq<Seq<u8>>,
    txs: Seq<TxModel>,
    k: int,
    n: int,
)
    requires
        0 <= k <= n,
        tx_loop_spec(rt, hooks, pre, raws, txs, k).2,
    ensures
        tx_loop_spec(rt, hooks, pre, raws, txs, n) == tx_loop_spec(rt, hooks, pre, raws, txs, k),
    decreases n - k,
{
    if n > k {
        lemma_tx_loop_absorb(rt, hooks, pre, raws, txs, k, n - 1);
        lemma_tx_loop_unfold(rt, hooks, pre, raws, txs, n);
    }
}

/// What one blob does to a slot's working set, and the batch receipt it
/// produces. A `None` receipt means the end-blob hook failed: an
/// unrecoverable internal error.
pub open spec fn apply_blob_spec<
    S: Storage,
    RT: DispatchCall<S>,
    H: TxHooks<S> + ApplyBlobHooks<S>,
>(
    rt: RT,
    hooks: H,
    pre: WsModel,
    blob: Seq<u8>,
    sequencer: Seq<u8>,
) -> (WsModel, Option<BatchReceiptModel>) {
    let entered = pre.enter();
    let after_begin = hooks.begin_blob_ws_spec(sequencer, blob, entered);
    if !hooks.begin_blob_ok_spec(sequencer, blob, entered) {
        // Not a real attempt: discard the scope, no penalty.
        (after_begin.revert_top(), Some(ignored_receipt(blob)))
    } else {
        match batch_decode_spec(blob) {
            None => (
                after_begin.revert_top(),
                Some(slashed_receipt(blob, SlashingReason::InvalidBatchEncoding)),
            ),
            Some(raws) => match verify_all_spec(raws) {
                None => (
                    after_begin.revert_top(),
                    Some(slashed_receipt(blob, SlashingReason::StatelessVerificationFailed)),
                ),
                Some(txs) => {
                    let (w, rs, ab) = tx_loop_spec(
                        rt,
                        hooks,
                        after_begin,
                        raws,
                        txs,
                        raws.len() as int,
                    );
                    if ab {
                        // The accumulated receipts are discarded, but the
                        // writes of the transactions that already committed
                        // stay with the slot: only the failing transaction's
                        // scope was reverted.
                        (
                            w.commit_top(),
                            Some(slashed_receipt(blob, SlashingReason::InvalidTransactionEncoding)),
                        )
                    } else {
                        let after_end = hooks.end_blob_ws_spec(0, w);
                        if !hooks.end_blob_ok_spec(0, w) {
                            (after_end, None)
                        } else {
                            (after_end.commit_top(), Some(rewarded_receipt(blob, rs)))
                        }
                    }
                },
            },
        }
    }
}

/// The end-blob hook failed: the slot cannot continue safely.
#[derive(Clone, Copy, Debug, PartialEq, Eq, Structural)]
pub enum ApplyBlobError {
    EndBlobHookFailed,
}

/// Why one-time chain initialization failed.
#[derive(Clone, Copy, Debug, PartialEq, Eq, Structural)]
pub enum InitChainError {
    /// Module initialization rejected the configuration.
    GenesisFailed,
    /// The storage backend refused the genesis change log: fatal.
    CommitFailed,
}

/// The state-transition orchestrator: owns the storage handle, the runtime
/// dispatcher and the hooks, and the slot's working set while one is open.
pub struct AppTemplate<S: Storage, RT, H> {
    pub current_storage: S,
    pub runtime: RT,
    pub tx_hooks: H,
    pub working_set: Option<WorkingSet<S>>,
}

impl<S: Storage, RT: DispatchCall<S> + Genesis<S>, H: TxHooks<S> + ApplyBlobHooks<S>> AppTemplate<
    S,
    RT,
    H,
> {
    /// Whether a slot is in flight.
    pub open spec fn slot_open(&self) -> bool {
        self.working_set is Some
    }

    /// The model of the open slot's working set.
    pub open spec fn ws_model(&self) -> WsModel
        recommends
            self.slot_open(),
    {
        match self.working_set {
            Some(w) => w@,
            None => arbitrary(),
        }
    }

    /// The hooks the orchestrator was built with.
    pub open spec fn hooks(&self) -> H {
        self.tx_hooks
    }

    /// An open slot always holds a well-formed working set.
    pub open spec fn inv(&self) -> bool {
        self.slot_open() ==> self.ws_model().wf()
    }

    /// A slot is open and back at its root scope, ready for the next blob or
    /// for finalization.
    pub open spec fn slot_ready(&self) -> bool {
        &&& self.slot_open()
        &&& self.ws_model().wf()
        &&& self.ws_model().depth() == 1
    }

    pub fn new(storage: S, runtime: RT, tx_hooks: H) -> (r: Self)
        ensures
            r.current_storage == storage,
            r.runtime == runtime,
            r.hooks() == tx_hooks,
            !r.slot_open(),
            r.inv(),
    {
        AppTemplate { current_storage: storage, runtime, tx_hooks, working_set: None }
    }

    /// Performs one-time initialization for the genesis block: runs every
    /// module's genesis over a fresh working set and commits the result.
    /// Returns the resulting root commitment.
    pub fn init_chain(&mut self, params: &RT::Config) -> (r: Result<Vec<u8>, InitChainError>)
        ensures
            final(self).runtime == old(self).runtime,
            final(self).hooks() == old(self).hooks(),
            final(self).slot_open() == old(self).slot_open(),
            old(self).slot_open() ==> final(self).ws_model() == old(self).ws_model(),
            ({
                let pre = WsModel {
                    backend: old(self).current_storage.state_view(),
                    witness_in: Seq::empty(),
                    witness_out: Seq::empty(),
                    scopes: seq![Seq::empty()],
                };
                let after = old(self).runtime.genesis_ws_spec(params, pre);
                let gok = old(self).runtime.genesis_ok_spec(params, pre);
                let (root, ok) = S::commit_spec(
                    old(self).current_storage.state_view(),
                    old(self).current_storage.root_view(),
                    after.scopes[0],
                    after.witness_out,
                );
                &&& !gok ==> r == Err::<Vec<u8>, InitChainError>(InitChainError::GenesisFailed)
                    && final(self).current_storage == old(self).current_storage
                &&& gok ==> {
                    &&& (r is Ok <==> ok)
                    &&& (r matches Ok(h) ==> h@ == root)
                    &&& (r is Err ==> r == Err::<Vec<u8>, InitChainError>(
                        InitChainError::CommitFailed,
                    ))
                    &&& final(self).current_storage.state_view() == if ok {
                        apply_writes(old(self).current_storage.state_view(), after.scopes[0])
                    } else {
                        old(self).current_storage.state_view()
                    }
                    &&& final(self).current_storage.root_view() == if ok {
                        root
                    } else {
                        old(self).current_storage.root_view()
                    }
                }
            }),
    {
        let storage = self.current_storage.duplicate();
        let mut ws = WorkingSet::new(storage);
        match self.runtime.genesis(params, &mut ws) {
            Ok(_) => {},
            Err(_) => {
                return Err(InitChainError::GenesisFailed);
            },
        }
        let (log, witness) = match ws.freeze() {
            Ok(p) => p,
            Err(_) => vstd::pervasive::unreached(),
        };
        match self.current_storage.commit(&log, &witness) {
            Ok(h) => Ok(h),
            Err(_) => Err(InitChainError::CommitFailed),
        }
    }

    /// Installs a fresh working set for the slot, reading through a second
    /// handle of the current storage. A non-empty witness puts the slot in
    /// constrained replay.
    pub fn begin_slot(&mut self, witness: Witness)
        ensures
            final(self).slot_ready(),
            final(self).inv(),
            final(self).current_storage == old(self).current_storage,
            final(self).runtime == old(self).runtime,
            final(self).hooks() == old(self).hooks(),
            final(self).ws_model() == (WsModel {
                backend: old(self).current_storage.state_view(),
                witness_in: witness@,
                witness_out: Seq::empty(),
                scopes: seq![Seq::empty()],
            }),
    {
        let storage = self.current_storage.duplicate();
        self.working_set = Some(WorkingSet::with_witness(storage, witness));
    }

    /// Processes one blob against the open slot: begin hook, batch decoding,
    /// stateless verification, the per-transaction loop, end hook. Every
    /// failure is folded into the receipt's sequencer outcome; only an
    /// end-blob hook failure escapes, as a fatal error.
    pub fn apply_blob(
        &mut self,
        blob: &Vec<u8>,
        sequencer: &Vec<u8>,
        _misbehavior_hint: Option<()>,
    ) -> (r: Result<BatchReceipt, ApplyBlobError>)
        requires
            old(self).inv(),
            old(self).slot_ready(),
        ensures
            final(self).inv(),
            final(self).slot_open(),
            final(self).current_storage == old(self).current_storage,
            final(self).runtime == old(self).runtime,
            final(self).hooks() == old(self).hooks(),
            ({
                let (w, rec) = apply_blob_spec(
                    old(self).runtime,
                    old(self).hooks(),
                    old(self).ws_model(),
                    blob@,
                    sequencer@,
                );
                &&& final(self).ws_model() == w
                &&& (r is Ok <==> rec is Some)
                &&& (r matches Ok(br) ==> Some(br@) == rec)
                &&& (r is Ok ==> final(self).slot_ready())
            }),
    {
        let ghost m0 = old(self).ws_model();
        let mut ws = match self.working_set.take() {
            Some(w) => w,
            None => vstd::pervasive::unreached(),
        };
        ws.enter_scope();
        let ghost entered = ws@;

        // EnterBlob: the begin hook runs inside the blob scope; a failure
        // discards the scope and ignores the blob without penalty.
        if self.tx_hooks.begin_blob_hook(sequencer, blob, &mut ws).is_err() {
            ws.revert_scope();
            self.working_set = Some(ws);
            let hash = sha256(blob);
            let receipt = BatchReceipt {
                batch_hash: hash,
                tx_receipts: Vec::new(),
                inner: SequencerOutcome::Ignored,
            };
            proof {
                assert(tx_receipts_view(receipt.tx_receipts@) =~= Seq::<TxReceiptModel>::empty());
            }
            return Ok(receipt);
        }
        let ghost after_begin = ws@;

        // DecodeBatch: a blob that does not parse slashes the sequencer and
        // leaves the slot untouched.
        let batch = match decode_batch(blob) {
            Ok(b) => b,
            Err(_) => {
                ws.revert_scope();
                self.working_set = Some(ws);
                let hash = sha256(blob);
                let receipt = BatchReceipt {
                    batch_hash: hash,
                    tx_receipts: Vec::new(),
                    inner: SequencerOutcome::Slashed(SlashingReason::InvalidBatchEncoding),
                };
                proof {
                    assert(tx_receipts_view(receipt.tx_receipts@) =~= Seq::<
                        TxReceiptModel,
                    >::empty());
                }
                return Ok(receipt);
            },
        };
        let raw_txs = batch.take_transactions();
        let ghost raws = raws_view(raw_txs@);

        // StatelessVerify: one bad signature rejects the whole batch; the
        // sequencer answers for proposing it.
        let txs = match verify_txs_stateless(&raw_txs) {
            Ok(ts) => ts,
            Err(_) => {
                ws.revert_scope();
                self.working_set = Some(ws);
                let hash = sha256(blob);
                let receipt = BatchReceipt {
                    batch_hash: hash,
                    tx_receipts: Vec::new(),
                    inner: SequencerOutcome::Slashed(SlashingReason::StatelessVerificationFailed),
                };
                proof {
                    assert(tx_receipts_view(receipt.tx_receipts@) =~= Seq::<
                        TxReceiptModel,
                    >::empty());
                }
                return Ok(receipt);
            },
        };
        let ghost txms = txs@.map_values(|t: Transaction| t@);

        // PerTransactionLoop.
        let mut receipts: Vec<TransactionReceipt> = Vec::new();
        let ghost mut rs_models: Seq<TxReceiptModel> = Seq::empty();
        let mut i: usize = 0;
        proof {
            lemma_tx_loop_zero(old(self).runtime, old(self).hooks(), after_begin, raws, txms);
            assert(rs_models =~= tx_receipts_view(receipts@));
        }
        while i < txs.len()
            invariant
                i <= txs@.len(),
                txs@.len() == raw_txs@.len(),
                raws == raws_view(raw_txs@),
                raws.len() == raw_txs@.len(),
                txms == txs@.map_values(|t: Transaction| t@),
                txms.len() == txs@.len(),
                forall|j: int| 0 <= j < txs@.len() ==> (#[trigger] txs@[j]).wf(),
                self.runtime == old(self).runtime,
                self.tx_hooks == old(self).hooks(),
                self.current_storage == old(self).current_storage,
                ws.wf(),
                m0 == old(self).ws_model(),
                m0.wf(),
                m0.depth() == 1,
                old(self).slot_open(),
                ws@.depth() == m0.depth() + 1,
                after_begin == old(self).hooks().begin_blob_ws_spec(sequencer@, blob@, m0.enter()),
                old(self).hooks().begin_blob_ok_spec(sequencer@, blob@, m0.enter()),
                batch_decode_spec(blob@) == Some(raws),
                verify_all_spec(raws) == Some(txms),
                rs_models == tx_receipts_view(receipts@),
                (ws@, rs_models, false) == tx_loop_spec(
                    old(self).runtime,
                    old(self).hooks(),
                    after_begin,
                    raws,
                    txms,
                    i as int,
                ),
            decreases txs@.len() - i,
        {
            proof {
                lemma_tx_loop_unfold(
                    old(self).runtime,
                    old(self).hooks(),
                    after_begin,
                    raws,
                    txms,
                    i + 1,
                );
                assert(txms[i as int] == txs@[i as int]@);
                assert(raws[i as int] == raw_txs@[i as int]@);
            }
            ws.enter_scope();
            let sender = match self.tx_hooks.pre_dispatch_tx_hook(&txs[i], &mut ws) {
                Ok(a) => a,
                Err(_) => {
                    // Stateful rejection of one transaction: revert it, record
                    // it as reverted, and carry on.
                    ws.revert_scope();
                    let hash = sha256(&raw_txs[i].data);
                    let receipt = TransactionReceipt {
                        tx_hash: hash,
                        body_to_save: None,
                        events: Vec::new(),
                        receipt: TxEffect::Reverted,
                    };
                    let ghost rm = receipt@;
                    receipts.push(receipt);
                    proof {
                        assert(rm.events =~= Seq::<(Seq<u8>, Seq<u8>)>::empty());
                        assert(rm == reverted_receipt(raws[i as int]));
                        rs_models = rs_models.push(rm);
                        assert(rs_models =~= tx_receipts_view(receipts@));
                    }
                    i = i + 1;
                    continue;
                },
            };
            let msg = match RT::decode_call(txs[i].runtime_msg()) {
                Ok(m) => m,
                Err(_) => {
                    // A payload that does not decode is the sequencer's
                    // fault: slash, drop the accumulated receipts, and stop.
                    // Only the failing transaction's scope is reverted; the
                    // writes of the transactions that already committed stay
                    // with the slot.
                    proof {
                        lemma_tx_loop_absorb(
                            old(self).runtime,
                            old(self).hooks(),
                            after_begin,
                            raws,
                            txms,
                            i + 1,
                            raws.len() as int,
                        );
                    }
                    proof {
                        let spec_loop = tx_loop_spec(
                            old(self).runtime,
                            old(self).hooks(),
                            after_begin,
                            raws,
                            txms,
                            raws.len() as int,
                        );
                        assert(spec_loop.2);
                        assert(spec_loop.0 == ws@.revert_top());
                    }
                    ws.revert_scope();
                    ws.commit_scope();
                    self.working_set = Some(ws);
                    let hash = sha256(blob);
                    let receipt = BatchReceipt {
                        batch_hash: hash,
                        tx_receipts: Vec::new(),
                        inner: SequencerOutcome::Slashed(
                            SlashingReason::InvalidTransactionEncoding,
                        ),
                    };
                    proof {
                        assert(tx_receipts_view(receipt.tx_receipts@) =~= Seq::<
                            TxReceiptModel,
                        >::empty());
                    }
                    return Ok(receipt);
                },
            };
            let ctx = Context::new(sender);
            let tx_result = self.runtime.dispatch_call(msg, &mut ws, &ctx);
            self.tx_hooks.post_dispatch_tx_hook(&txs[i], &mut ws);
            match tx_result {
                Ok(resp) => {
                    ws.commit_scope();
                    let hash = sha256(&raw_txs[i].data);
                    let receipt = TransactionReceipt {
                        tx_hash: hash,
                        body_to_save: None,
                        events: resp.events,
                        receipt: TxEffect::Successful,
                    };
                    let ghost rm = receipt@;
                    receipts.push(receipt);
                    proof {
                        rs_models = rs_models.push(rm);
                        assert(rs_models =~= tx_receipts_view(receipts@));
                    }
                },
                Err(_) => {
                    // A failed dispatch is undone and recorded as Reverted;
                    // the batch continues.
                    ws.revert_scope();
                    let hash = sha256(&raw_txs[i].data);
                    let receipt = TransactionReceipt {
                        tx_hash: hash,
                        body_to_save: None,
                        events: Vec::new(),
                        receipt: TxEffect::Reverted,
                    };
                    let ghost rm = receipt@;
                    receipts.push(receipt);
                    proof {
                        assert(rm.events =~= Seq::<(Seq<u8>, Seq<u8>)>::empty());
                        assert(rm == reverted_receipt(raws[i as int]));
                        rs_models = rs_models.push(rm);
                        assert(rs_models =~= tx_receipts_view(receipts@));
                    }
                },
            }
            i = i + 1;
        }

        // ExitBlob: reward the sequencer; this hook failing means prior state
        // was inconsistent, which the slot cannot recover from.
        if self.tx_hooks.end_blob_hook(0, &mut ws).is_err() {
            self.working_set = Some(ws);
            return Err(ApplyBlobError::EndBlobHookFailed);
        }
        ws.commit_scope();
        self.working_set = Some(ws);
        let hash = sha256(blob);
        let receipt = BatchReceipt {
            batch_hash: hash,
            tx_receipts: receipts,
            inner: SequencerOutcome::Rewarded,
        };
        Ok(receipt)
    }

    /// Finalizes the slot: freezes the working set and commits its change log
    /// and witness to storage. Returns the new root commitment and the
    /// witness. A storage failure is fatal.
    pub fn end_slot(&mut self) -> (r: Result<(Vec<u8>, Witness), StorageCommitError>)
        requires
            old(self).inv(),
            old(self).slot_ready(),
        ensures
            !final(self).slot_open(),
            final(self).inv(),
            final(self).runtime == old(self).runtime,
            final(self).hooks() == old(self).hooks(),
            ({
                let m = old(self).ws_model();
                let (root, ok) = S::commit_spec(
                    old(self).current_storage.state_view(),
                    old(self).current_storage.root_view(),
                    m.scopes[0],
                    m.witness_out,
                );
                &&& (r is Ok <==> ok)
                &&& (r matches Ok(p) ==> p.0@ == root && p.1@ == m.witness_out)
                &&& final(self).current_storage.state_view() == (if ok {
                    apply_writes(old(self).current_storage.state_view(), m.scopes[0])
                } else {
                    old(self).current_storage.state_view()
                })
                &&& final(self).current_storage.root_view() == (if ok {
                    root
                } else {
                    old(self).current_storage.root_view()
                })
            }),
    {
        let ws = match self.working_set.take() {
            Some(w) => w,
            None => vstd::pervasive::unreached(),
        };
        let (log, witness) = match ws.freeze() {
            Ok(p) => p,
            Err(_) => vstd::pervasive::unreached(),
        };
        match self.current_storage.commit(&log, &witness) {
            Ok(h) => Ok((h, witness)),
            Err(e) => Err(e),
        }
    }
}


/// A transaction that dispatches successfully, under lawfully scoped hooks,
/// is committed and recorded as Successful, with its emitted events in
/// emission order.
pub proof fn lemma_successful_dispatch_receipt<S: Storage, RT: DispatchCall<S>, H: TxHooks<S>>(
    rt: RT,
    hooks: H,
    pre: WsModel,
    raw: Seq<u8>,
    tx: TxModel,
)
    requires
        pre.wf(),
        hooks.pre_dispatch_ok_spec(tx, pre.enter()),
        RT::decode_spec(tx.msg) is Some,
        ({
            let entered = pre.enter();
            let after_pre = hooks.pre_dispatch_ws_spec(tx, entered);
            let sender = hooks.pre_dispatch_addr_spec(tx, entered);
            rt.dispatch_result_spec(RT::decode_spec(tx.msg).unwrap(), after_pre, sender) is Some
        }),
    ensures
        ({
            let (w, rec, ab) = tx_step_spec(rt, hooks, pre, raw, tx);
            let entered = pre.enter();
            let after_pre = hooks.pre_dispatch_ws_spec(tx, entered);
            let sender = hooks.pre_dispatch_addr_spec(tx, entered);
            let events = rt.dispatch_result_spec(
                RT::decode_spec(tx.msg).unwrap(),
                after_pre,
                sender,
            ).unwrap();
            &&& rec == Some(successful_receipt(raw, events))
            &&& rec.unwrap().effect == TxEffect::Successful
            &&& rec.unwrap().events == events
            &&& !ab
        }),
{
}

/// A transaction whose dispatch fails, under lawfully scoped hooks and
/// dispatcher, is recorded as Reverted with no events, and leaves the visible
/// value of every key byte-identical to before the transaction began.
pub proof fn lemma_failed_dispatch_reverts<S: Storage, RT: DispatchCall<S>, H: TxHooks<S>>(
    rt: RT,
    hooks: H,
    pre: WsModel,
    raw: Seq<u8>,
    tx: TxModel,
)
    requires
        pre.wf(),
        hooks.pre_dispatch_ok_spec(tx, pre.enter()),
        RT::decode_spec(tx.msg) is Some,
        scoped_effect(pre.enter(), hooks.pre_dispatch_ws_spec(tx, pre.enter())),
        ({
            let after_pre = hooks.pre_dispatch_ws_spec(tx, pre.enter());
            let sender = hooks.pre_dispatch_addr_spec(tx, pre.enter());
            let msg = RT::decode_spec(tx.msg).unwrap();
            let after_dispatch = rt.dispatch_ws_spec(msg, after_pre, sender);
            &&& rt.dispatch_result_spec(msg, after_pre, sender) is None
            &&& scoped_effect(after_pre, after_dispatch)
            &&& scoped_effect(after_dispatch, hooks.post_dispatch_ws_spec(tx, after_dispatch))
        }),
    ensures
        ({
            let (w, rec, ab) = tx_step_spec(rt, hooks, pre, raw, tx);
            &&& rec == Some(reverted_receipt(raw))
            &&& rec.unwrap().effect == TxEffect::Reverted
            &&& rec.unwrap().events == Seq::<(Seq<u8>, Seq<u8>)>::empty()
            &&& !ab
            &&& w.scopes == pre.scopes
            &&& forall|key: Seq<u8>| w.lookup(key) == pre.lookup(key)
        }),
{
    let entered = pre.enter();
    let after_pre = hooks.pre_dispatch_ws_spec(tx, entered);
    let sender = hooks.pre_dispatch_addr_spec(tx, entered);
    let msg = RT::decode_spec(tx.msg).unwrap();
    let after_dispatch = rt.dispatch_ws_spec(msg, after_pre, sender);
    let after_post = hooks.post_dispatch_ws_spec(tx, after_dispatch);
    lemma_scoped_effect_trans(entered, after_pre, after_dispatch);
    lemma_scoped_effect_trans(entered, after_dispatch, after_post);
    lemma_scoped_revert_restores(pre, after_post);
}

/// A transaction the pre-dispatch hook rejects, when the hook's effect is
/// lawfully scoped, yields a Reverted receipt with no events and leaves the
/// visible value of every key byte-identical to before it began.
pub proof fn lemma_rejected_tx_receipt<S: Storage, RT: DispatchCall<S>, H: TxHooks<S>>(
    rt: RT,
    hooks: H,
    pre: WsModel,
    raw: Seq<u8>,
    tx: TxModel,
)
    requires
        pre.wf(),
        !hooks.pre_dispatch_ok_spec(tx, pre.enter()),
        scoped_effect(pre.enter(), hooks.pre_dispatch_ws_spec(tx, pre.enter())),
    ensures
        ({
            let (w, rec, ab) = tx_step_spec(rt, hooks, pre, raw, tx);
            &&& rec == Some(reverted_receipt(raw))
            &&& rec.unwrap().effect == TxEffect::Reverted
            &&& rec.unwrap().events == Seq::<(Seq<u8>, Seq<u8>)>::empty()
            &&& !ab
            &&& w.scopes == pre.scopes
            &&& forall|key: Seq<u8>| w.lookup(key) == pre.lookup(key)
        }),
{
    let after_pre = hooks.pre_dispatch_ws_spec(tx, pre.enter());
    lemma_scoped_revert_restores(pre, after_pre);
}

/// A blob whose payload fails to decode as a batch is slashed for invalid
/// batch encoding, yields no transaction receipts, and — when the begin hook
/// behaves as a scoped effect — leaves the visible value of every key in the
/// slot's working set unchanged.
pub proof fn lemma_invalid_batch_slashed<
    S: Storage,
    RT: DispatchCall<S>,
    H: TxHooks<S> + ApplyBlobHooks<S>,
>(rt: RT, hooks: H, pre: WsModel, blob: Seq<u8>, sequencer: Seq<u8>)
    requires
        pre.wf(),
        hooks.begin_blob_ok_spec(sequencer, blob, pre.enter()),
        scoped_effect(pre.enter(), hooks.begin_blob_ws_spec(sequencer, blob, pre.enter())),
        batch_decode_spec(blob) is None,
    ensures
        ({
            let (w, rec) = apply_blob_spec(rt, hooks, pre, blob, sequencer);
            &&& rec == Some(slashed_receipt(blob, SlashingReason::InvalidBatchEncoding))
            &&& rec.unwrap().txs.len() == 0
            &&& w.scopes == pre.scopes
            &&& forall|key: Seq<u8>| w.lookup(key) == pre.lookup(key)
        }),
{
    let after_begin = hooks.begin_blob_ws_spec(sequencer, blob, pre.enter());
    lemma_scoped_revert_restores(pre, after_begin);
}

/// A batch holding any transaction that fails stateless verification is
/// rejected whole: the sequencer is slashed, no transaction receipts are
/// produced — the validity of the other transactions does not save it — and,
/// when the begin hook behaves as a scoped effect, the slot's visible state
/// is unchanged.
pub proof fn lemma_stateless_failure_slashed<
    S: Storage,
    RT: DispatchCall<S>,
    H: TxHooks<S> + ApplyBlobHooks<S>,
>(rt: RT, hooks: H, pre: WsModel, blob: Seq<u8>, sequencer: Seq<u8>)
    requires
        pre.wf(),
        hooks.begin_blob_ok_spec(sequencer, blob, pre.enter()),
        scoped_effect(pre.enter(), hooks.begin_blob_ws_spec(sequencer, blob, pre.enter())),
        batch_decode_spec(blob) is Some,
        verify_all_spec(batch_decode_spec(blob).unwrap()) is None,
    ensures
        ({
            let (w, rec) = apply_blob_spec(rt, hooks, pre, blob, sequencer);
            &&& rec == Some(slashed_receipt(blob, SlashingReason::StatelessVerificationFailed))
            &&& rec.unwrap().txs.len() == 0
            &&& w.scopes == pre.scopes
            &&& forall|key: Seq<u8>| w.lookup(key) == pre.lookup(key)
        }),
{
    let after_begin = hooks.begin_blob_ws_spec(sequencer, blob, pre.enter());
    lemma_scoped_revert_restores(pre, after_begin);
}

/// One slot over a sequence of blobs, at the level of the models: a fresh
/// working set over the storage content and the seeded witness, each blob
/// applied in order (stopping if the end-blob hook ever fails), and the
/// resulting change log and witness committed. Yields the batch receipts and
/// the new root commitment with its success flag.
pub open spec fn slot_run_spec<S: Storage, RT: DispatchCall<S>, H: TxHooks<S> + ApplyBlobHooks<S>>(
    rt: RT,
    hooks: H,
    content: Map<Seq<u8>, Seq<u8>>,
    root: Seq<u8>,
    witness: Seq<(Seq<u8>, Option<Seq<u8>>)>,
    blobs: Seq<(Seq<u8>, Seq<u8>)>,
) -> (Seq<BatchReceiptModel>, Seq<u8>, bool) {
    let fresh = WsModel {
        backend: content,
        witness_in: witness,
        witness_out: Seq::empty(),
        scopes: seq![Seq::empty()],
    };
    let (w, recs) = slot_blobs_fold(rt, hooks, fresh, blobs, blobs.len() as int);
    let (new_root, ok) = S::commit_spec(content, root, w.scopes[0], w.witness_out);
    (recs, new_root, ok)
}

/// The first `n` blobs applied in order; a fatal end-blob hook failure stops
/// the fold.
#[verifier::opaque]
pub open spec fn slot_blobs_fold<S: Storage, RT: DispatchCall<S>, H: TxHooks<S> + ApplyBlobHooks<S>>(
    rt: RT,
    hooks: H,
    ws: WsModel,
    blobs: Seq<(Seq<u8>, Seq<u8>)>,
    n: int,
) -> (WsModel, Seq<BatchReceiptModel>)
    decreases n,
{
    if n <= 0 {
        (ws, Seq::empty())
    } else {
        let (w, recs) = slot_blobs_fold(rt, hooks, ws, blobs, n - 1);
        let (w2, rec) = apply_blob_spec(rt, hooks, w, blobs[n - 1].0, blobs[n - 1].1);
        match rec {
            Some(r) => (w2, recs.push(r)),
            None => (w2, recs),
        }
    }
}

/// Determinism of replay: two slots driven by equal runtimes and hooks, from
/// equal storage content and roots, with equal seeded witnesses and equal
/// blob sequences, produce equal batch receipts and equal root commitments.
/// `begin_slot`, `apply_blob` and `end_slot` pin each execution to exactly
/// these model functions, so two such executions cannot diverge.
pub proof fn lemma_slot_replay_deterministic<
    S: Storage,
    RT: DispatchCall<S>,
    H: TxHooks<S> + ApplyBlobHooks<S>,
>(
    rt1: RT,
    rt2: RT,
    hooks1: H,
    hooks2: H,
    content1: Map<Seq<u8>, Seq<u8>>,
    content2: Map<Seq<u8>, Seq<u8>>,
    root1: Seq<u8>,
    root2: Seq<u8>,
    witness1: Seq<(Seq<u8>, Option<Seq<u8>>)>,
    witness2: Seq<(Seq<u8>, Option<Seq<u8>>)>,
    blobs1: Seq<(Seq<u8>, Seq<u8>)>,
    blobs2: Seq<(Seq<u8>, Seq<u8>)>,
)
    requires
        rt1 == rt2,
        hooks1 == hooks2,
        content1 == content2,
        root1 == root2,
        witness1 == witness2,
        blobs1 == blobs2,
    ensures
        slot_run_spec::<S, RT, H>(rt1, hooks1, content1, root1, witness1, blobs1)
            == slot_run_spec::<S, RT, H>(rt2, hooks2, content2, root2, witness2, blobs2),
{
}

} // verus!
