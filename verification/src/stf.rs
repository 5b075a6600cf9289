//! Common state-transition-function types: events, transaction and batch
//! receipts, and the marker configurations for the execution modes.

use vstd::prelude::*;
use vstd::string::StringSliceAdditionalSpecFns;

use crate::app_template::{SequencerOutcome, TxEffect};

verus! {

/// The key of an emitted event.
#[derive(Clone, Debug, PartialEq, Eq, PartialOrd, Ord, Hash)]
pub struct EventKey(pub Vec<u8>);

/// The value of an emitted event.
#[derive(Clone, Debug, PartialEq, Eq)]
pub struct EventValue(pub Vec<u8>);

/// A key-value pair emitted by a module during dispatch; ordering inside a
/// receipt is the emission order.
#[derive(Clone, Debug, PartialEq, Eq)]
pub struct Event {
    key: EventKey,
    value: EventValue,
}

impl View for Event {
    type V = (Seq<u8>, Seq<u8>);

    closed spec fn view(&self) -> (Seq<u8>, Seq<u8>) {
        (self.key.0@, self.value.0@)
    }
}

impl Event {
    pub fn new(key: &str, value: &str) -> (r: Self)
        ensures
            r@ == (key.spec_bytes(), value.spec_bytes()),
    {
        Event {
            key: EventKey(vstd::slice::slice_to_vec(key.as_bytes())),
            value: EventValue(vstd::slice::slice_to_vec(value.as_bytes())),
        }
    }

    /// An event from already-encoded parts.
    pub fn from_bytes(key: Vec<u8>, value: Vec<u8>) -> (r: Self)
        ensures
            r@ == (key@, value@),
    {
        Event { key: EventKey(key), value: EventValue(value) }
    }

    pub fn key(&self) -> (r: &EventKey)
        ensures
            r.0@ == self@.0,
    {
        &self.key
    }

    pub fn value(&self) -> (r: &EventValue)
        ensures
            r.0@ == self@.1,
    {
        &self.value
    }
}

/// The views of a sequence of events.
pub open spec fn events_view(events: Seq<Event>) -> Seq<(Seq<u8>, Seq<u8>)> {
    events.map_values(|e: Event| e@)
}

/// The mathematical content of a transaction receipt.
pub ghost struct TxReceiptModel {
    pub hash: Seq<u8>,
    pub body: Option<Seq<u8>>,
    pub events: Seq<(Seq<u8>, Seq<u8>)>,
    pub effect: TxEffect,
}

/// The record of one transaction's execution inside a batch.
#[derive(Clone, Debug, PartialEq, Eq)]
pub struct TransactionReceipt {
    /// The canonical hash of the raw transaction.
    pub tx_hash: Vec<u8>,
    /// The serialized transaction body, if it should be persisted.
    pub body_to_save: Option<Vec<u8>>,
    /// The events the transaction emitted, in order.
    pub events: Vec<Event>,
    /// What became of the transaction.
    pub receipt: TxEffect,
}

impl View for TransactionReceipt {
    type V = TxReceiptModel;

    open spec fn view(&self) -> TxReceiptModel {
        TxReceiptModel {
            hash: self.tx_hash@,
            body: match self.body_to_save {
                Some(ref b) => Some(b@),
                None => None,
            },
            events: events_view(self.events@),
            effect: self.receipt,
        }
    }
}

/// The views of a sequence of transaction receipts.
pub open spec fn tx_receipts_view(receipts: Seq<TransactionReceipt>) -> Seq<TxReceiptModel> {
    receipts.map_values(|r: TransactionReceipt| r@)
}

/// The mathematical content of a batch receipt.
pub ghost struct BatchReceiptModel {
    pub hash: Seq<u8>,
    pub txs: Seq<TxReceiptModel>,
    pub outcome: SequencerOutcome,
}

/// The record of one blob's processing: per-transaction receipts and the
/// sequencer outcome.
#[derive(Clone, Debug, PartialEq, Eq)]
pub struct BatchReceipt {
    /// The canonical hash of the blob.
    pub batch_hash: Vec<u8>,
    /// One receipt per executed transaction, in order.
    pub tx_receipts: Vec<TransactionReceipt>,
    /// How the proposing sequencer fared.
    pub inner: SequencerOutcome,
}

impl View for BatchReceipt {
    type V = BatchReceiptModel;

    open spec fn view(&self) -> BatchReceiptModel {
        BatchReceiptModel {
            hash: self.batch_hash@,
            txs: tx_receipts_view(self.tx_receipts@),
            outcome: self.inner,
        }
    }
}

/// The configuration of a full node that creates proofs.
pub struct ProverConfig;

/// The configuration of the verifier that runs inside the proof system.
pub struct ZkConfig;

/// The configuration of a standard full node that creates no proofs.
pub struct StandardConfig;

/// Marker for the closed set of execution-mode configurations.
pub trait Sealed {

}

impl Sealed for ProverConfig {

}

impl Sealed for ZkConfig {

}

impl Sealed for StandardConfig {

}

/// An execution-mode configuration; only the three provided modes exist.
pub trait StateTransitionConfig: Sealed {

}

impl StateTransitionConfig for ProverConfig {

}

impl StateTransitionConfig for ZkConfig {

}

impl StateTransitionConfig for StandardConfig {

}

/// A mempool-and-batch service as a node front end sees it.
pub trait BlockBuilder {
    /// Queues one raw transaction.
    fn accept_tx(&mut self, tx: Vec<u8>);

    /// Assembles the best batch the mempool currently allows.
    fn get_best_blob(&mut self) -> Vec<u8>;
}

} // verus!
