//! A minimal concrete runtime: one module holding a single admin-guarded
//! value. It wires the module into the dispatcher and genesis interfaces, and
//! is what the tests run the orchestrator against.

use vstd::prelude::*;

use crate::bytes::{bytes_eq, bytes_range, encode_u32_le, u32_from_le, u32_le_bytes};
use crate::default_signature::Address;
use crate::dispatch::{
    CallDecodeError, CallResponse, Context, DispatchCall, DispatchError, Genesis, GenesisError,
};
use crate::stf::{events_view, Event};
use crate::storage::Storage;
use crate::working_set::{
    lemma_read_scoped, lemma_scoped_effect_trans, lemma_write_scoped, WorkingSet, WsModel,
};

verus! {

/// The state key holding the value.
pub open spec fn value_key_spec() -> Seq<u8> {
    seq![118u8, 97u8, 108u8, 117u8, 101u8]
}

/// The state key holding the admin address.
pub open spec fn admin_key_spec() -> Seq<u8> {
    seq![97u8, 100u8, 109u8, 105u8, 110u8]
}

/// The event key announcing a set value.
pub open spec fn set_event_key_spec() -> Seq<u8> {
    seq![115u8, 101u8, 116u8]
}

/// The bytes of "value".
pub fn value_key() -> (r: Vec<u8>)
    ensures
        r@ == value_key_spec(),
{
    let mut r: Vec<u8> = Vec::new();
    r.push(118u8);
    r.push(97u8);
    r.push(108u8);
    r.push(117u8);
    r.push(101u8);
    proof {
        assert(r@ =~= value_key_spec());
    }
    r
}

/// The bytes of "admin".
pub fn admin_key() -> (r: Vec<u8>)
    ensures
        r@ == admin_key_spec(),
{
    let mut r: Vec<u8> = Vec::new();
    r.push(97u8);
    r.push(100u8);
    r.push(109u8);
    r.push(105u8);
    r.push(110u8);
    proof {
        assert(r@ =~= admin_key_spec());
    }
    r
}

/// The bytes of "set".
pub fn set_event_key() -> (r: Vec<u8>)
    ensures
        r@ == set_event_key_spec(),
{
    let mut r: Vec<u8> = Vec::new();
    r.push(115u8);
    r.push(101u8);
    r.push(116u8);
    proof {
        assert(r@ =~= set_event_key_spec());
    }
    r
}

/// The calls the value-setter module accepts.
#[derive(Clone, Copy, Debug, PartialEq, Eq, Structural)]
pub enum CallMessage {
    /// Store a new value; only the admin may.
    SetValue(u32),
}

/// A runtime of one module: a value that only the configured admin can set.
#[derive(Clone, Debug, PartialEq, Eq)]
pub struct ValueSetter {}

/// The wire form of a value-setter call: a zero tag byte, then the value in
/// 32-bit little-endian, nothing more.
pub open spec fn call_decode_spec(bytes: Seq<u8>) -> Option<CallMessage> {
    if bytes.len() == 5 && bytes[0] == 0u8 {
        Some(CallMessage::SetValue(u32_from_le(bytes.subrange(1, 5))))
    } else {
        None
    }
}

/// Serializes a value-setter call.
pub fn encode_call(msg: &CallMessage) -> (r: Vec<u8>)
    ensures
        call_decode_spec(r@) == Some(*msg),
{
    match msg {
        CallMessage::SetValue(v) => {
            let mut r: Vec<u8> = Vec::new();
            r.push(0u8);
            let le = encode_u32_le(*v);
            crate::bytes::bytes_extend(&mut r, &le);
            proof {
                reveal(crate::bytes::u32_le_bytes);
                assert(r@.subrange(1, 5) =~= u32_le_bytes(*v));
                crate::bytes::lemma_u32_le_round_trip(*v);
            }
            r
        },
    }
}

impl<S: Storage> DispatchCall<S> for ValueSetter {
    type Message = CallMessage;

    open spec fn decode_spec(bytes: Seq<u8>) -> Option<CallMessage> {
        call_decode_spec(bytes)
    }

    open spec fn dispatch_ws_spec(&self, msg: CallMessage, pre: WsModel, ctx: Seq<u8>) -> WsModel {
        let after = pre.read_effect(admin_key_spec());
        if pre.lookup(admin_key_spec()) == Some(ctx) {
            match msg {
                CallMessage::SetValue(v) => after.write_effect(value_key_spec(), u32_le_bytes(v)),
            }
        } else {
            after
        }
    }

    open spec fn dispatch_result_spec(&self, msg: CallMessage, pre: WsModel, ctx: Seq<u8>)
        -> Option<Seq<(Seq<u8>, Seq<u8>)>> {
        if pre.lookup(admin_key_spec()) == Some(ctx) {
            match msg {
                CallMessage::SetValue(v) => Some(seq![(set_event_key_spec(), u32_le_bytes(v))]),
            }
        } else {
            None
        }
    }

    fn decode_call(bytes: &Vec<u8>) -> (r: Result<CallMessage, CallDecodeError>) {
        if bytes.len() != 5 {
            return Err(CallDecodeError::InvalidEncoding);
        }
        if bytes[0] != 0u8 {
            return Err(CallDecodeError::InvalidEncoding);
        }
        let v = crate::bytes::decode_u32_le(bytes, 1);
        Ok(CallMessage::SetValue(v))
    }

    fn dispatch_call(&self, msg: CallMessage, ws: &mut WorkingSet<S>, ctx: &Context) -> (r: Result<
        CallResponse,
        DispatchError,
    >) {
        let ghost pre = ws@;
        let key = admin_key();
        let admin = ws.read(&key);
        proof {
            lemma_read_scoped(pre, admin_key_spec());
        }
        let allowed = match &admin {
            Some(a) => bytes_eq(a, ctx.sender().as_bytes()),
            None => false,
        };
        if !allowed {
            return Err(DispatchError::Rejected);
        }
        match msg {
            CallMessage::SetValue(v) => {
                let ghost mid = ws@;
                ws.write(value_key(), encode_u32_le(v));
                proof {
                    lemma_write_scoped(mid, value_key_spec(), u32_le_bytes(v));
                    lemma_scoped_effect_trans(pre, mid, ws@);
                }
                let ev = Event::from_bytes(set_event_key(), encode_u32_le(v));
                let mut events: Vec<Event> = Vec::new();
                events.push(ev);
                let resp = CallResponse { events };
                proof {
                    assert(resp@ =~= seq![(set_event_key_spec(), u32_le_bytes(v))]);
                }
                Ok(resp)
            },
        }
    }
}

impl<S: Storage> Genesis<S> for ValueSetter {
    type Config = Address;

    open spec fn genesis_ws_spec(&self, config: &Address, pre: WsModel) -> WsModel {
        pre.write_effect(admin_key_spec(), config@)
    }

    open spec fn genesis_ok_spec(&self, config: &Address, pre: WsModel) -> bool {
        true
    }

    fn genesis(&self, config: &Address, ws: &mut WorkingSet<S>) -> (r: Result<(), GenesisError>) {
        let ghost pre = ws@;
        let addr = config.as_bytes();
        let addr_copy = bytes_range(addr, 0, addr.len());
        proof {
            assert(addr_copy@ =~= config@);
        }
        ws.write(admin_key(), addr_copy);
        proof {
            lemma_write_scoped(pre, admin_key_spec(), config@);
        }
        Ok(())
    }
}

} // verus!
