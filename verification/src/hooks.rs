//! Pluggable stateful checks and side-effects around dispatch: per-transaction
//! hooks (sender and nonce resolution) and per-blob hooks (sequencer bonding
//! and reward accounting).
//!
//! As with the dispatcher, every effect is pinned to spec functions of the
//! working set's model and is a scoped effect, so a slot replays
//! deterministically for every lawful implementation.

use vstd::prelude::*;

use crate::default_signature::Address;
use crate::storage::Storage;
use crate::transaction::{Transaction, TxModel};
use crate::working_set::{scoped_effect, WorkingSet, WsModel};

verus! {

/// A hook rejected what it was shown.
#[derive(Clone, Copy, Debug, PartialEq, Eq, Structural)]
pub enum HookError {
    Rejected,
}

/// Hooks that run immediately before and after each transaction's dispatch.
pub trait TxHooks<S: Storage>: Sized {
    /// The working set the pre-dispatch hook leaves behind.
    spec fn pre_dispatch_ws_spec(&self, tx: TxModel, pre: WsModel) -> WsModel;

    /// Whether the pre-dispatch hook accepts the transaction.
    spec fn pre_dispatch_ok_spec(&self, tx: TxModel, pre: WsModel) -> bool;

    /// The sender address the pre-dispatch hook resolves.
    spec fn pre_dispatch_addr_spec(&self, tx: TxModel, pre: WsModel) -> Seq<u8>;

    /// The working set the post-dispatch hook leaves behind.
    spec fn post_dispatch_ws_spec(&self, tx: TxModel, pre: WsModel) -> WsModel;

    /// Runs just before a transaction is dispatched: stateful checks such as
    /// nonce and sender resolution. On success it resolves the sender address.
    fn pre_dispatch_tx_hook(&self, tx: &Transaction, ws: &mut WorkingSet<S>) -> (r: Result<
        Address,
        HookError,
    >)
        requires
            old(ws).wf(),
        ensures
            final(ws).wf(),
            final(ws)@ == self.pre_dispatch_ws_spec(tx@, old(ws)@),
            scoped_effect(old(ws)@, final(ws)@),
            r is Ok <==> self.pre_dispatch_ok_spec(tx@, old(ws)@),
            r matches Ok(a) ==> a@ == self.pre_dispatch_addr_spec(tx@, old(ws)@),
    ;

    /// Runs after the transaction was dispatched, whatever the outcome.
    fn post_dispatch_tx_hook(&self, tx: &Transaction, ws: &mut WorkingSet<S>)
        requires
            old(ws).wf(),
        ensures
            final(ws).wf(),
            final(ws)@ == self.post_dispatch_ws_spec(tx@, old(ws)@),
            scoped_effect(old(ws)@, final(ws)@),
    ;
}

/// Hooks that run around a whole blob: the sequencer locks a bond when the
/// blob enters and is rewarded when it exits.
pub trait ApplyBlobHooks<S: Storage>: Sized {
    /// The working set the begin-blob hook leaves behind.
    spec fn begin_blob_ws_spec(&self, sequencer: Seq<u8>, blob: Seq<u8>, pre: WsModel) -> WsModel;

    /// Whether the begin-blob hook accepts the claimed sequencer.
    spec fn begin_blob_ok_spec(&self, sequencer: Seq<u8>, blob: Seq<u8>, pre: WsModel) -> bool;

    /// The working set the end-blob hook leaves behind.
    spec fn end_blob_ws_spec(&self, result: u64, pre: WsModel) -> WsModel;

    /// Whether the end-blob hook succeeds; its failure is an unrecoverable
    /// internal error for the caller.
    spec fn end_blob_ok_spec(&self, result: u64, pre: WsModel) -> bool;

    /// Runs when a blob enters processing, with the claimed sequencer
    /// identity; locks the sequencer bond.
    fn begin_blob_hook(&self, sequencer: &Vec<u8>, raw_blob: &Vec<u8>, ws: &mut WorkingSet<S>)
        -> (r: Result<(), HookError>)
        requires
            old(ws).wf(),
        ensures
            final(ws).wf(),
            final(ws)@ == self.begin_blob_ws_spec(sequencer@, raw_blob@, old(ws)@),
            scoped_effect(old(ws)@, final(ws)@),
            r is Ok <==> self.begin_blob_ok_spec(sequencer@, raw_blob@, old(ws)@),
    ;

    /// Runs when a blob finishes processing, with its accounting result;
    /// rewards the sequencer. Not invoked when the sequencer was slashed.
    fn end_blob_hook(&self, result: u64, ws: &mut WorkingSet<S>) -> (r: Result<(), HookError>)
        requires
            old(ws).wf(),
        ensures
            final(ws).wf(),
            final(ws)@ == self.end_blob_ws_spec(result, old(ws)@),
            scoped_effect(old(ws)@, final(ws)@),
            r is Ok <==> self.end_blob_ok_spec(result, old(ws)@),
    ;
}

} // verus!
