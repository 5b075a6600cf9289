//! A concrete set of hooks: the pre-dispatch hook resolves the sender address
//! and enforces per-key nonces, the blob hooks lock a bond for the one
//! registered sequencer and record its reward.

use vstd::prelude::*;

use crate::bytes::{bytes_eq, decode_u64_le, encode_u64_le, u64_from_le, u64_le_bytes};
use crate::default_signature::{sha256_of, Address};
use crate::hooks::{ApplyBlobHooks, HookError, TxHooks};
use crate::storage::Storage;
use crate::transaction::{Transaction, TxModel};
use crate::working_set::{
    lemma_read_scoped, lemma_scoped_effect_trans, lemma_write_scoped, WorkingSet, WsModel,
};

verus! {

/// The state key prefix of an account's next expected nonce: "n:" then the
/// public key bytes.
pub open spec fn nonce_key_spec(pk: Seq<u8>) -> Seq<u8> {
    seq![110u8, 58u8] + pk
}

/// The state key under which the sequencer bond marker sits.
pub open spec fn bond_key_spec() -> Seq<u8> {
    seq![98u8, 111u8, 110u8, 100u8]
}

/// The state key under which the sequencer reward is recorded.
pub open spec fn reward_key_spec() -> Seq<u8> {
    seq![114u8, 101u8, 119u8, 97u8, 114u8, 100u8]
}

/// The bytes of "n:" followed by the key.
pub fn nonce_key(pk: &crate::default_signature::DefaultPublicKey) -> (r: Vec<u8>)
    ensures
        r@ == nonce_key_spec(pk@),
{
    let mut r: Vec<u8> = Vec::new();
    r.push(110u8);
    r.push(58u8);
    let kb = pk.to_bytes();
    crate::bytes::bytes_extend(&mut r, &kb);
    proof {
        assert(r@ =~= nonce_key_spec(pk@));
    }
    r
}

/// The bytes of "bond".
pub fn bond_key() -> (r: Vec<u8>)
    ensures
        r@ == bond_key_spec(),
{
    let mut r: Vec<u8> = Vec::new();
    r.push(98u8);
    r.push(111u8);
    r.push(110u8);
    r.push(100u8);
    proof {
        assert(r@ =~= bond_key_spec());
    }
    r
}

/// The bytes of "reward".
pub fn reward_key() -> (r: Vec<u8>)
    ensures
        r@ == reward_key_spec(),
{
    let mut r: Vec<u8> = Vec::new();
    r.push(114u8);
    r.push(101u8);
    r.push(119u8);
    r.push(97u8);
    r.push(114u8);
    r.push(100u8);
    proof {
        assert(r@ =~= reward_key_spec());
    }
    r
}

/// The nonce the working set expects next from this key: the stored 8-byte
/// counter, or zero if none is stored yet.
pub open spec fn expected_nonce(pre: WsModel, pk: Seq<u8>) -> u64 {
    match pre.lookup(nonce_key_spec(pk)) {
        Some(v) => if v.len() == 8 {
            u64_from_le(v)
        } else {
            0
        },
        None => 0,
    }
}

/// Hooks with one registered sequencer and per-key nonce enforcement.
#[derive(Clone, Debug, PartialEq, Eq)]
pub struct BondingHooks {
    /// The only sequencer whose blobs are real attempts.
    pub registered_sequencer: Vec<u8>,
}

impl BondingHooks {
    pub fn new(registered_sequencer: Vec<u8>) -> (r: Self)
        ensures
            r.registered_sequencer@ == registered_sequencer@,
    {
        BondingHooks { registered_sequencer }
    }
}

impl<S: Storage> TxHooks<S> for BondingHooks {
    open spec fn pre_dispatch_ws_spec(&self, tx: TxModel, pre: WsModel) -> WsModel {
        let after = pre.read_effect(nonce_key_spec(tx.pk));
        if <Self as TxHooks<S>>::pre_dispatch_ok_spec(self, tx, pre) {
            after.write_effect(nonce_key_spec(tx.pk), u64_le_bytes((tx.nonce + 1) as u64))
        } else {
            after
        }
    }

    open spec fn pre_dispatch_ok_spec(&self, tx: TxModel, pre: WsModel) -> bool {
        tx.nonce == expected_nonce(pre, tx.pk) && tx.nonce < u64::MAX
    }

    open spec fn pre_dispatch_addr_spec(&self, tx: TxModel, pre: WsModel) -> Seq<u8> {
        sha256_of(tx.pk)
    }

    open spec fn post_dispatch_ws_spec(&self, tx: TxModel, pre: WsModel) -> WsModel {
        pre
    }

    fn pre_dispatch_tx_hook(&self, tx: &Transaction, ws: &mut WorkingSet<S>) -> (r: Result<
        Address,
        HookError,
    >) {
        let ghost pre = ws@;
        let key = nonce_key(tx.pub_key());
        let stored = ws.read(&key);
        proof {
            lemma_read_scoped(pre, nonce_key_spec(tx@.pk));
        }
        let expected: u64 = match &stored {
            Some(v) => if v.len() == 8 {
                let n = decode_u64_le(v, 0);
                proof {
                    assert(v@.subrange(0, 8) =~= v@);
                }
                n
            } else {
                0
            },
            None => 0,
        };
        let nonce = tx.nonce();
        if nonce == expected && nonce < u64::MAX {
            let ghost mid = ws@;
            ws.write(key, encode_u64_le(nonce + 1));
            proof {
                lemma_write_scoped(mid, nonce_key_spec(tx@.pk), u64_le_bytes((tx@.nonce + 1) as u64));
                lemma_scoped_effect_trans(pre, mid, ws@);
            }
            Ok(tx.pub_key().to_address())
        } else {
            Err(HookError::Rejected)
        }
    }

    fn post_dispatch_tx_hook(&self, tx: &Transaction, ws: &mut WorkingSet<S>) {
    }
}

impl<S: Storage> ApplyBlobHooks<S> for BondingHooks {
    open spec fn begin_blob_ws_spec(&self, sequencer: Seq<u8>, blob: Seq<u8>, pre: WsModel)
        -> WsModel {
        if <Self as ApplyBlobHooks<S>>::begin_blob_ok_spec(self, sequencer, blob, pre) {
            pre.write_effect(bond_key_spec(), seq![1u8])
        } else {
            pre
        }
    }

    open spec fn begin_blob_ok_spec(&self, sequencer: Seq<u8>, blob: Seq<u8>, pre: WsModel)
        -> bool {
        sequencer == self.registered_sequencer@
    }

    open spec fn end_blob_ws_spec(&self, result: u64, pre: WsModel) -> WsModel {
        pre.write_effect(reward_key_spec(), u64_le_bytes(result))
    }

    open spec fn end_blob_ok_spec(&self, result: u64, pre: WsModel) -> bool {
        true
    }

    fn begin_blob_hook(&self, sequencer: &Vec<u8>, raw_blob: &Vec<u8>, ws: &mut WorkingSet<S>)
        -> (r: Result<(), HookError>) {
        let ghost pre = ws@;
        if bytes_eq(sequencer, &self.registered_sequencer) {
            let mut marker: Vec<u8> = Vec::new();
            marker.push(1u8);
            proof {
                assert(marker@ =~= seq![1u8]);
            }
            ws.write(bond_key(), marker);
            proof {
                lemma_write_scoped(pre, bond_key_spec(), seq![1u8]);
            }
            Ok(())
        } else {
            Err(HookError::Rejected)
        }
    }

    fn end_blob_hook(&self, result: u64, ws: &mut WorkingSet<S>) -> (r: Result<(), HookError>) {
        let ghost pre = ws@;
        ws.write(reward_key(), encode_u64_le(result));
        proof {
            lemma_write_scoped(pre, reward_key_spec(), u64_le_bytes(result));
        }
        Ok(())
    }
}

} // verus!
