//! The runtime-dispatcher boundary: a concrete rollup wires its modules into
//! one implementation of `DispatchCall`, which decodes an opaque message
//! payload and routes it to the owning module, and one of `Genesis`, which
//! initializes module state.
//!
//! Both traits pin the full effect of each call to spec functions of the
//! working set's model, so replay of a slot is deterministic for every lawful
//! implementation.

use vstd::prelude::*;

use crate::default_signature::Address;
use crate::stf::{events_view, Event};
use crate::storage::Storage;
use crate::working_set::{scoped_effect, WorkingSet, WsModel};

verus! {

/// The per-transaction execution context: who sent the call.
#[derive(Clone, Debug, PartialEq, Eq)]
pub struct Context {
    sender: Address,
}

impl View for Context {
    type V = Seq<u8>;

    closed spec fn view(&self) -> Seq<u8> {
        self.sender@
    }
}

impl Context {
    pub fn new(sender: Address) -> (r: Self)
        ensures
            r@ == sender@,
    {
        Context { sender }
    }

    pub fn sender(&self) -> (r: &Address)
        ensures
            r@ == self@,
    {
        &self.sender
    }
}

/// What a successful dispatch hands back: the emitted events, in order.
#[derive(Clone, Debug, PartialEq, Eq)]
pub struct CallResponse {
    pub events: Vec<Event>,
}

impl View for CallResponse {
    type V = Seq<(Seq<u8>, Seq<u8>)>;

    open spec fn view(&self) -> Seq<(Seq<u8>, Seq<u8>)> {
        events_view(self.events@)
    }
}

/// The opaque message payload did not parse as a call.
#[derive(Clone, Copy, Debug, PartialEq, Eq, Structural)]
pub enum CallDecodeError {
    InvalidEncoding,
}

/// A module rejected the call: business-logic failure, locally recovered by
/// reverting that transaction only.
#[derive(Clone, Copy, Debug, PartialEq, Eq, Structural)]
pub enum DispatchError {
    Rejected,
}

/// The runtime dispatcher: decodes an opaque payload into a concrete call and
/// routes it to the owning module's handler.
///
/// Every effect is pinned to spec functions of the model, and a dispatched
/// call is a scoped effect: it may read and write through the scope chain (and
/// open balanced nested scopes of its own), but the backend, the seeded trace,
/// the depth, and every scope below the innermost one stay untouched.
pub trait DispatchCall<S: Storage>: Sized {
    /// The decoded form of a call message.
    type Message;

    /// What the opaque payload decodes to, if anything.
    spec fn decode_spec(bytes: Seq<u8>) -> Option<Self::Message>;

    /// The working set a dispatched call leaves behind.
    spec fn dispatch_ws_spec(&self, msg: Self::Message, pre: WsModel, ctx: Seq<u8>) -> WsModel;

    /// The events a dispatched call emits, or `None` if the module rejects it.
    spec fn dispatch_result_spec(&self, msg: Self::Message, pre: WsModel, ctx: Seq<u8>) -> Option<
        Seq<(Seq<u8>, Seq<u8>)>,
    >;

    /// Decodes the opaque message payload of a transaction.
    fn decode_call(bytes: &Vec<u8>) -> (r: Result<Self::Message, CallDecodeError>)
        ensures
            r matches Ok(m) ==> Self::decode_spec(bytes@) == Some(m),
            r is Err <==> Self::decode_spec(bytes@) is None,
    ;

    /// Routes a decoded call to its module and runs it against the innermost
    /// scope of `ws` on behalf of `ctx`.
    fn dispatch_call(&self, msg: Self::Message, ws: &mut WorkingSet<S>, ctx: &Context) -> (r:
        Result<CallResponse, DispatchError>)
        requires
            old(ws).wf(),
        ensures
            final(ws).wf(),
            final(ws)@ == self.dispatch_ws_spec(msg, old(ws)@, ctx@),
            scoped_effect(old(ws)@, final(ws)@),
            r is Ok <==> self.dispatch_result_spec(msg, old(ws)@, ctx@) is Some,
            r matches Ok(resp) ==> Some(resp@) == self.dispatch_result_spec(msg, old(ws)@, ctx@),
    ;
}

/// Module initialization could not run.
#[derive(Clone, Copy, Debug, PartialEq, Eq, Structural)]
pub enum GenesisError {
    Rejected,
}

/// One-time module initialization at chain genesis.
pub trait Genesis<S: Storage>: Sized {
    /// The configuration genesis runs from.
    type Config;

    /// The working set genesis leaves behind.
    spec fn genesis_ws_spec(&self, config: &Self::Config, pre: WsModel) -> WsModel;

    /// Whether genesis succeeds from this configuration and state.
    spec fn genesis_ok_spec(&self, config: &Self::Config, pre: WsModel) -> bool;

    /// Initializes every module's state.
    fn genesis(&self, config: &Self::Config, ws: &mut WorkingSet<S>) -> (r: Result<
        (),
        GenesisError,
    >)
        requires
            old(ws).wf(),
        ensures
            final(ws).wf(),
            final(ws)@ == self.genesis_ws_spec(config, old(ws)@),
            scoped_effect(old(ws)@, final(ws)@),
            r is Ok <==> self.genesis_ok_spec(config, old(ws)@),
    ;
}

} // verus!
