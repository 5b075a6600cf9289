//! The FIFO mempool and batch builder: raw transactions queue in arrival
//! order; a batch is packed under a byte budget by eagerly validating and
//! executing candidates against the slot's working set, so only transactions
//! that dispatch successfully are included.

use vstd::prelude::*;

use crate::bytes::bytes_seq_view;
use crate::default_signature::sha256_of;
use crate::dispatch::{Context, DispatchCall};
use crate::storage::Storage;
use crate::transaction::{tx_decode_spec, tx_signature_valid, verify_tx_stateless, RawTx};
use crate::working_set::{WorkingSet, WsModel};

verus! {

/// How many raw transactions the mempool holds before it turns new ones away.
pub const MAX_TX_POOL_SIZE: usize = 100;

/// Why the batch builder refused a request.
#[derive(Clone, Copy, Debug, PartialEq, Eq, Structural)]
pub enum BatchBuilderError {
    /// The mempool is at capacity; the caller retries later or drops.
    MempoolFull,
    /// No working set was attached before building: a programming error.
    WorkingSetUninitialized,
}

/// A mempool-and-batch service: queues raw transactions and assembles the
/// next size-bounded batch.
pub trait BatchBuilder {
    /// Accepts a new raw transaction into the mempool. Fails only when the
    /// mempool is full.
    fn accept_tx(&mut self, tx: Vec<u8>) -> Result<(), BatchBuilderError>;

    /// Builds the next batch of raw transactions, in mempool order.
    fn get_next_blob(&mut self) -> Result<Vec<Vec<u8>>, BatchBuilderError>;
}

/// What building a batch from the queued transactions does: pop from the
/// head until the next candidate would exceed the byte budget (it stays at
/// the head for the next batch); decode, signature-check, call-decode and
/// dispatch each popped candidate, including in the batch exactly those whose
/// dispatch succeeds and discarding the rest. Every popped candidate counts
/// against the budget, included or not. Yields the included raw transactions,
/// the queue that remains, and the working set the eager execution leaves.
#[verifier::opaque]
pub open spec fn build_spec<S: Storage, RT: DispatchCall<S>>(
    rt: RT,
    mempool: Seq<Seq<u8>>,
    budget: int,
    used: int,
    ws: WsModel,
) -> (Seq<Seq<u8>>, Seq<Seq<u8>>, WsModel)
    decreases mempool.len(),
{
    if mempool.len() == 0 {
        (Seq::empty(), mempool, ws)
    } else {
        let raw = mempool[0];
        if used + raw.len() > budget {
            (Seq::empty(), mempool, ws)
        } else {
            let used2 = used + raw.len();
            match tx_decode_spec(raw) {
                None => build_spec(rt, mempool.skip(1), budget, used2, ws),
                Some(tx) => if !tx_signature_valid(tx) {
                    build_spec(rt, mempool.skip(1), budget, used2, ws)
                } else {
                    match RT::decode_spec(tx.msg) {
                        None => build_spec(rt, mempool.skip(1), budget, used2, ws),
                        Some(msg) => {
                            let sender = sha256_of(tx.pk);
                            let ws2 = rt.dispatch_ws_spec(msg, ws, sender);
                            let ok = rt.dispatch_result_spec(msg, ws, sender) is Some;
                            let (inc, rem, wsf) = build_spec(
                                rt,
                                mempool.skip(1),
                                budget,
                                used2,
                                ws2,
                            );
                            if ok {
                                (seq![raw] + inc, rem, wsf)
                            } else {
                                (inc, rem, wsf)
                            }
                        },
                    }
                },
            }
        }
    }
}

/// Helper: a head candidate over the budget stops the build.
proof fn lemma_build_stop<S: Storage, RT: DispatchCall<S>>(
    rt: RT,
    mempool: Seq<Seq<u8>>,
    budget: int,
    used: int,
    ws: WsModel,
)
    requires
        mempool.len() > 0,
        used + mempool[0].len() > budget,
    ensures
        build_spec(rt, mempool, budget, used, ws) == (Seq::<Seq<u8>>::empty(), mempool, ws),
{
    reveal_with_fuel(build_spec, 1);
}

/// Helper: a head candidate that fits but fails decoding, signature checking
/// or call decoding is dismissed, counting against the budget.
proof fn lemma_build_dismiss<S: Storage, RT: DispatchCall<S>>(
    rt: RT,
    mempool: Seq<Seq<u8>>,
    budget: int,
    used: int,
    ws: WsModel,
)
    requires
        mempool.len() > 0,
        used + mempool[0].len() <= budget,
        dismissed_before_dispatch::<S, RT>(mempool[0]),
    ensures
        build_spec(rt, mempool, budget, used, ws) == build_spec(
            rt,
            mempool.skip(1),
            budget,
            used + mempool[0].len(),
            ws,
        ),
{
    reveal_with_fuel(build_spec, 1);
}

/// Helper: a head candidate that passes every check is dispatched, and is
/// included exactly when the dispatch succeeds.
proof fn lemma_build_dispatch<S: Storage, RT: DispatchCall<S>>(
    rt: RT,
    mempool: Seq<Seq<u8>>,
    budget: int,
    used: int,
    ws: WsModel,
    tx: crate::transaction::TxModel,
    msg: RT::Message,
)
    requires
        mempool.len() > 0,
        used + mempool[0].len() <= budget,
        tx_decode_spec(mempool[0]) == Some(tx),
        tx_signature_valid(tx),
        RT::decode_spec(tx.msg) == Some(msg),
    ensures
        build_spec(rt, mempool, budget, used, ws) == ({
            let ws2 = rt.dispatch_ws_spec(msg, ws, sha256_of(tx.pk));
            let ok = rt.dispatch_result_spec(msg, ws, sha256_of(tx.pk)) is Some;
            let (inc, rem, wsf) = build_spec(
                rt,
                mempool.skip(1),
                budget,
                used + mempool[0].len(),
                ws2,
            );
            if ok {
                (seq![mempool[0]] + inc, rem, wsf)
            } else {
                (inc, rem, wsf)
            }
        }),
{
    reveal_with_fuel(build_spec, 1);
}

/// Helper: building from an empty queue does nothing.
proof fn lemma_build_empty<S: Storage, RT: DispatchCall<S>>(
    rt: RT,
    mempool: Seq<Seq<u8>>,
    budget: int,
    used: int,
    ws: WsModel,
)
    requires
        mempool.len() == 0,
    ensures
        build_spec(rt, mempool, budget, used, ws) == (Seq::<Seq<u8>>::empty(), mempool, ws),
{
    reveal_with_fuel(build_spec, 1);
}

/// A batch builder that takes transactions in the order they were submitted
/// and includes exactly those that dispatch successfully.
pub struct FiFoStrictBatchBuilder<RT, S: Storage> {
    pub mempool: Vec<Vec<u8>>,
    pub runtime: RT,
    pub batch_size_bytes: usize,
    pub working_set: Option<WorkingSet<S>>,
}

impl<RT: DispatchCall<S>, S: Storage> FiFoStrictBatchBuilder<RT, S> {
    /// The queued raw transactions, head first.
    pub open spec fn mempool_view(&self) -> Seq<Seq<u8>> {
        bytes_seq_view(self.mempool@)
    }

    /// Whether a working set has been attached since the last slot began.
    pub open spec fn ws_attached(&self) -> bool {
        self.working_set is Some
    }

    /// The model of the attached working set.
    pub open spec fn ws_model(&self) -> WsModel
        recommends
            self.ws_attached(),
    {
        match self.working_set {
            Some(w) => w@,
            None => arbitrary(),
        }
    }

    /// An attached working set is always well-formed.
    pub open spec fn inv(&self) -> bool {
        self.ws_attached() ==> self.ws_model().wf()
    }

    pub fn new(batch_size: usize, runtime: RT) -> (r: Self)
        ensures
            r.mempool_view() == Seq::<Seq<u8>>::empty(),
            r.runtime == runtime,
            r.batch_size_bytes == batch_size,
            !r.ws_attached(),
            r.inv(),
    {
        let r = FiFoStrictBatchBuilder {
            mempool: Vec::new(),
            runtime,
            batch_size_bytes: batch_size,
            working_set: None,
        };
        proof {
            assert(r.mempool_view() =~= Seq::<Seq<u8>>::empty());
        }
        r
    }

    /// Attaches the current slot's working set; batches are eagerly executed
    /// against it.
    pub fn reset_working_set(&mut self, working_set: WorkingSet<S>)
        requires
            working_set.wf(),
        ensures
            final(self).mempool_view() == old(self).mempool_view(),
            final(self).runtime == old(self).runtime,
            final(self).batch_size_bytes == old(self).batch_size_bytes,
            final(self).ws_attached(),
            final(self).ws_model() == working_set@,
            final(self).inv(),
    {
        self.working_set = Some(working_set);
    }

    /// Appends a raw transaction to the mempool's tail; no validation happens
    /// here — invalid transactions are paid for lazily at batch-build time.
    /// Fails, leaving everything unchanged, exactly when the pool is at
    /// capacity.
    pub fn accept_tx(&mut self, tx: Vec<u8>) -> (r: Result<(), BatchBuilderError>)
        ensures
            final(self).runtime == old(self).runtime,
            final(self).batch_size_bytes == old(self).batch_size_bytes,
            final(self).working_set == old(self).working_set,
            final(self).inv() == old(self).inv(),
            old(self).mempool_view().len() >= MAX_TX_POOL_SIZE ==> {
                &&& r == Err::<(), BatchBuilderError>(BatchBuilderError::MempoolFull)
                &&& final(self).mempool_view() == old(self).mempool_view()
            },
            old(self).mempool_view().len() < MAX_TX_POOL_SIZE ==> {
                &&& r is Ok
                &&& final(self).mempool_view() == old(self).mempool_view().push(tx@)
            },
    {
        if self.mempool.len() >= MAX_TX_POOL_SIZE {
            return Err(BatchBuilderError::MempoolFull);
        }
        let ghost pre = self.mempool@;
        self.mempool.push(tx);
        proof {
            assert(self.mempool_view() =~= bytes_seq_view(pre).push(self.mempool@.last()@));
        }
        Ok(())
    }

    /// Builds the next batch: pops candidates from the head while they fit
    /// the byte budget, dismisses those that fail decoding, signature
    /// verification, call decoding or dispatch, and returns, in order, the
    /// raw transactions that dispatched successfully. Fails only when no
    /// working set is attached.
    pub fn get_next_blob(&mut self) -> (r: Result<Vec<Vec<u8>>, BatchBuilderError>)
        requires
            old(self).inv(),
        ensures
            final(self).inv(),
            final(self).runtime == old(self).runtime,
            final(self).batch_size_bytes == old(self).batch_size_bytes,
            !old(self).ws_attached() ==> {
                &&& r == Err::<Vec<Vec<u8>>, BatchBuilderError>(
                    BatchBuilderError::WorkingSetUninitialized,
                )
                &&& final(self).mempool_view() == old(self).mempool_view()
                &&& !final(self).ws_attached()
            },
            old(self).ws_attached() ==> ({
                let (inc, rem, wsf) = build_spec(
                    old(self).runtime,
                    old(self).mempool_view(),
                    old(self).batch_size_bytes as int,
                    0,
                    old(self).ws_model(),
                );
                &&& r matches Ok(v) && bytes_seq_view(v@) == inc
                &&& final(self).mempool_view() == rem
                &&& final(self).ws_attached()
                &&& final(self).ws_model() == wsf
            }),
    {
        let mut ws = match self.working_set.take() {
            Some(w) => w,
            None => {
                return Err(BatchBuilderError::WorkingSetUninitialized);
            },
        };
        let ghost m0 = old(self).mempool_view();
        let ghost ws0 = ws@;
        let ghost budget = self.batch_size_bytes as int;
        let ghost rt = old(self).runtime;
        let ghost b0 = build_spec(rt, m0, budget, 0, ws0);
        let mut txs: Vec<Vec<u8>> = Vec::new();
        let mut current_size: usize = 0;
        proof {
            assert(bytes_seq_view(txs@) =~= Seq::<Seq<u8>>::empty());
            assert(bytes_seq_view(txs@) + b0.0 =~= b0.0);
        }
        loop
            invariant
                self.runtime == rt,
                rt == old(self).runtime,
                self.batch_size_bytes == old(self).batch_size_bytes,
                budget == self.batch_size_bytes as int,
                current_size <= self.batch_size_bytes,
                ws.wf(),
                b0 == build_spec(rt, m0, budget, 0, ws0),
                ({
                    let bc = build_spec(
                        rt,
                        self.mempool_view(),
                        budget,
                        current_size as int,
                        ws@,
                    );
                    &&& b0.0 == bytes_seq_view(txs@) + bc.0
                    &&& b0.1 == bc.1
                    &&& b0.2 == bc.2
                }),
            ensures
                ({
                    let bc = build_spec(
                        rt,
                        self.mempool_view(),
                        budget,
                        current_size as int,
                        ws@,
                    );
                    &&& bc.0 == Seq::<Seq<u8>>::empty()
                    &&& bc.1 == self.mempool_view()
                    &&& bc.2 == ws@
                }),
            decreases self.mempool@.len(),
        {
            if self.mempool.len() == 0 {
                proof {
                    lemma_build_empty(rt, self.mempool_view(), budget, current_size as int, ws@);
                }
                break;
            }
            let ghost pool_pre = self.mempool_view();
            let ghost ws_pre = ws@;
            let ghost used_pre = current_size as int;
            proof {
                assert(pool_pre[0] == self.mempool@[0]@);
            }
            let raw_tx = self.mempool.remove(0);
            proof {
                assert(self.mempool_view() =~= pool_pre.skip(1));
            }
            // A candidate that would blow the budget goes back to the head:
            // FIFO order is preserved for the next batch.
            let tx_size = raw_tx.len();
            if tx_size > self.batch_size_bytes - current_size {
                self.mempool.insert(0, raw_tx);
                proof {
                    assert(self.mempool_view() =~= pool_pre);
                    lemma_build_stop(rt, pool_pre, budget, used_pre, ws_pre);
                }
                break;
            }
            current_size = current_size + tx_size;
            // Dismissed candidates still count against the budget.
            let ghost rawv = raw_tx@;
            let included = build_one(&self.runtime, RawTx { data: raw_tx }, &mut ws);
            proof {
                if dismissed_before_dispatch::<S, RT>(rawv) {
                    lemma_build_dismiss(rt, pool_pre, budget, used_pre, ws_pre);
                } else {
                    let txm = tx_decode_spec(rawv).unwrap();
                    lemma_build_dispatch(
                        rt,
                        pool_pre,
                        budget,
                        used_pre,
                        ws_pre,
                        txm,
                        RT::decode_spec(txm.msg).unwrap(),
                    );
                }
            }
            match included {
                Some(data) => {
                    let ghost txs_pre = bytes_seq_view(txs@);
                    txs.push(data);
                    proof {
                        assert(bytes_seq_view(txs@) =~= txs_pre.push(rawv));
                        let bc = build_spec(
                            rt,
                            self.mempool_view(),
                            budget,
                            current_size as int,
                            ws@,
                        );
                        assert(txs_pre + (seq![rawv] + bc.0) =~= txs_pre.push(rawv) + bc.0);
                    }
                },
                None => {},
            }
        }
        proof {
            assert(bytes_seq_view(txs@) + Seq::<Seq<u8>>::empty() =~= bytes_seq_view(txs@));
        }
        self.working_set = Some(ws);
        Ok(txs)
    }
}

/// Whether a candidate is dismissed before dispatch: it does not decode, its
/// signature does not verify, or its message payload does not decode as a
/// call of the runtime `RT`.
pub open spec fn dismissed_before_dispatch<S: Storage, RT: DispatchCall<S>>(raw: Seq<u8>) -> bool {
    match tx_decode_spec(raw) {
        None => true,
        Some(tx) => !tx_signature_valid(tx) || RT::decode_spec(tx.msg) is None,
    }
}

/// Runs one popped candidate through decoding, signature verification, call
/// decoding and dispatch against the working set. Returns the raw bytes to
/// include when the dispatch succeeded, and nothing when the candidate was
/// dismissed; a dismissal before dispatch leaves the working set untouched.
#[verifier::rlimit(100)]
fn build_one<RT: DispatchCall<S>, S: Storage>(rt: &RT, raw: RawTx, ws: &mut WorkingSet<S>) -> (r:
    Option<Vec<u8>>)
    requires
        old(ws).wf(),
    ensures
        final(ws).wf(),
        r matches Some(v) ==> v@ == raw@,
        dismissed_before_dispatch::<S, RT>(raw@) ==> r is None && final(ws)@ == old(ws)@,
        !dismissed_before_dispatch::<S, RT>(raw@) ==> ({
            let tx = tx_decode_spec(raw@).unwrap();
            let msg = RT::decode_spec(tx.msg).unwrap();
            &&& final(ws)@ == rt.dispatch_ws_spec(msg, old(ws)@, sha256_of(tx.pk))
            &&& (r is Some <==> rt.dispatch_result_spec(msg, old(ws)@, sha256_of(tx.pk)) is Some)
        }),
{
    let tx = match verify_tx_stateless(&raw) {
        Ok(t) => t,
        Err(e) => {
            proof {
                if e is InvalidEncoding {
                    assert(tx_decode_spec(raw@) is None);
                } else {
                    assert(tx_decode_spec(raw@) matches Some(t) && !tx_signature_valid(t));
                }
                assert(dismissed_before_dispatch::<S, RT>(raw@));
            }
            return None;
        },
    };
    let msg = match RT::decode_call(tx.runtime_msg()) {
        Ok(m) => m,
        Err(_) => {
            proof {
                assert(tx_decode_spec(raw@) == Some(tx@));
                assert(RT::decode_spec(tx@.msg) is None);
                assert(dismissed_before_dispatch::<S, RT>(raw@));
            }
            return None;
        },
    };
    proof {
        assert(tx_decode_spec(raw@) == Some(tx@));
        assert(!dismissed_before_dispatch::<S, RT>(raw@));
    }
    let sender_address = tx.pub_key().to_address();
    let ctx = Context::new(sender_address);
    match rt.dispatch_call(msg, ws, &ctx) {
        Ok(_) => Some(raw.data),
        Err(_) => None,
    }
}


/// The total byte length of a list of raw transactions.
pub open spec fn sum_lens(items: Seq<Seq<u8>>) -> int
    decreases items.len(),
{
    if items.len() == 0 {
        0
    } else {
        items[0].len() + sum_lens(items.skip(1))
    }
}

/// Helper: the sum over a one-longer prefix adds that element's length.
proof fn lemma_sum_lens_cons(head: Seq<u8>, rest: Seq<Seq<u8>>)
    ensures
        sum_lens(seq![head] + rest) == head.len() + sum_lens(rest),
{
    let s = seq![head] + rest;
    assert(s[0] == head);
    assert(s.skip(1) =~= rest);
}

/// Every batch fits its byte budget: the included raw transactions' lengths,
/// on top of what was already consumed, never exceed it.
pub proof fn lemma_build_within_budget<S: Storage, RT: DispatchCall<S>>(
    rt: RT,
    mempool: Seq<Seq<u8>>,
    budget: int,
    used: int,
    ws: WsModel,
)
    requires
        0 <= used <= budget,
    ensures
        used + sum_lens(build_spec(rt, mempool, budget, used, ws).0) <= budget,
    decreases mempool.len(),
{
    reveal_with_fuel(build_spec, 1);
    reveal_with_fuel(sum_lens, 1);
    if mempool.len() == 0 {
    } else {
        let raw = mempool[0];
        if used + raw.len() > budget {
        } else {
            let used2 = used + raw.len();
            match tx_decode_spec(raw) {
                None => {
                    lemma_build_within_budget(rt, mempool.skip(1), budget, used2, ws);
                },
                Some(tx) => {
                    if !tx_signature_valid(tx) {
                        lemma_build_within_budget(rt, mempool.skip(1), budget, used2, ws);
                    } else {
                        match RT::decode_spec(tx.msg) {
                            None => {
                                lemma_build_within_budget(rt, mempool.skip(1), budget, used2, ws);
                            },
                            Some(msg) => {
                                let ws2 = rt.dispatch_ws_spec(msg, ws, sha256_of(tx.pk));
                                lemma_build_within_budget(rt, mempool.skip(1), budget, used2, ws2);
                                let inc = build_spec(rt, mempool.skip(1), budget, used2, ws2).0;
                                lemma_sum_lens_cons(raw, inc);
                            },
                        }
                    }
                },
            }
        }
    }
}

/// After building, the queue is a suffix of what it was, in its original
/// relative order; and when anything remains, its head is the first
/// transaction that did not fit the budget, counting every popped candidate.
pub proof fn lemma_build_remaining_suffix<S: Storage, RT: DispatchCall<S>>(
    rt: RT,
    mempool: Seq<Seq<u8>>,
    budget: int,
    used: int,
    ws: WsModel,
)
    ensures
        ({
            let rem = build_spec(rt, mempool, budget, used, ws).1;
            exists|k: int|
                {
                    &&& 0 <= k <= mempool.len()
                    &&& rem == mempool.skip(k)
                    &&& (rem.len() > 0 ==> used + sum_lens(mempool.take(k)) + rem[0].len()
                        > budget)
                }
        }),
    decreases mempool.len(),
{
    reveal_with_fuel(build_spec, 1);
    reveal_with_fuel(sum_lens, 1);
    let rem = build_spec(rt, mempool, budget, used, ws).1;
    if mempool.len() == 0 {
        assert(mempool.skip(0) =~= mempool);
        assert(0 <= 0 <= mempool.len() && rem == mempool.skip(0));
    } else {
        let raw = mempool[0];
        if used + raw.len() > budget {
            assert(mempool.skip(0) =~= mempool);
            assert(mempool.take(0) =~= Seq::<Seq<u8>>::empty());
            assert({
                &&& 0 <= 0 <= mempool.len()
                &&& rem == mempool.skip(0)
                &&& (rem.len() > 0 ==> used + sum_lens(mempool.take(0)) + rem[0].len() > budget)
            });
        } else {
            let used2 = used + raw.len();
            let ws2 = ({
                match tx_decode_spec(raw) {
                    None => ws,
                    Some(tx) => if !tx_signature_valid(tx) {
                        ws
                    } else {
                        match RT::decode_spec(tx.msg) {
                            None => ws,
                            Some(msg) => rt.dispatch_ws_spec(msg, ws, sha256_of(tx.pk)),
                        }
                    },
                }
            });
            lemma_build_remaining_suffix(rt, mempool.skip(1), budget, used2, ws2);
            assert(rem == build_spec(rt, mempool.skip(1), budget, used2, ws2).1);
            let k0 = choose|k: int|
                {
                    &&& 0 <= k <= mempool.skip(1).len()
                    &&& rem == mempool.skip(1).skip(k)
                    &&& (rem.len() > 0 ==> used2 + sum_lens(mempool.skip(1).take(k)) + rem[0].len()
                        > budget)
                };
            assert(mempool.skip(1).skip(k0) =~= mempool.skip(k0 + 1));
            assert(mempool.take(k0 + 1) =~= seq![raw] + mempool.skip(1).take(k0));
            lemma_sum_lens_cons(raw, mempool.skip(1).take(k0));
            assert({
                &&& 0 <= k0 + 1 <= mempool.len()
                &&& rem == mempool.skip(k0 + 1)
                &&& (rem.len() > 0 ==> used + sum_lens(mempool.take(k0 + 1)) + rem[0].len()
                    > budget)
            });
        }
    }
}

/// A transaction with an undecodable payload or a corrupted signature is
/// never included in an output batch: everything included decodes and
/// carries a valid signature.
pub proof fn lemma_included_all_valid<S: Storage, RT: DispatchCall<S>>(
    rt: RT,
    mempool: Seq<Seq<u8>>,
    budget: int,
    used: int,
    ws: WsModel,
)
    ensures
        ({
            let inc = build_spec(rt, mempool, budget, used, ws).0;
            forall|j: int| 0 <= j < inc.len() ==> (#[trigger] tx_decode_spec(inc[j])) is Some
                && tx_signature_valid(tx_decode_spec(inc[j]).unwrap())
        }),
    decreases mempool.len(),
{
    reveal_with_fuel(build_spec, 1);
    if mempool.len() == 0 {
    } else {
        let raw = mempool[0];
        if used + raw.len() > budget {
        } else {
            let used2 = used + raw.len();
            match tx_decode_spec(raw) {
                None => {
                    lemma_included_all_valid(rt, mempool.skip(1), budget, used2, ws);
                },
                Some(tx) => {
                    if !tx_signature_valid(tx) {
                        lemma_included_all_valid(rt, mempool.skip(1), budget, used2, ws);
                    } else {
                        match RT::decode_spec(tx.msg) {
                            None => {
                                lemma_included_all_valid(rt, mempool.skip(1), budget, used2, ws);
                            },
                            Some(msg) => {
                                let ws2 = rt.dispatch_ws_spec(msg, ws, sha256_of(tx.pk));
                                lemma_included_all_valid(rt, mempool.skip(1), budget, used2, ws2);
                                let inc0 = build_spec(rt, mempool.skip(1), budget, used2, ws2).0;
                                if rt.dispatch_result_spec(msg, ws, sha256_of(tx.pk)) is Some {
                                    let inc = seq![raw] + inc0;
                                    assert(inc[0] == raw);
                                    assert(forall|j: int| 1 <= j < inc.len() ==> inc[j] == inc0[j
                                        - 1]);
                                }
                            },
                        }
                    }
                },
            }
        }
    }
}

} // verus!
