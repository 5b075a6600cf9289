//! The FIFO batch builder: capacity, budget packing, and dismissal of
//! invalid transactions, run against the concrete value-setter runtime.

use rollup_core::batch_builder::{BatchBuilderError, FiFoStrictBatchBuilder, MAX_TX_POOL_SIZE};
use rollup_core::default_signature::{DefaultPublicKey, DefaultSignature};
use rollup_core::dispatch::Genesis;
use rollup_core::storage::InMemoryStorage;
use rollup_core::transaction::{encode_transaction, Transaction};
use rollup_core::value_setter::{encode_call, CallMessage, ValueSetter};
use rollup_core::working_set::WorkingSet;

fn keypair_from(seed: u8) -> ed25519_dalek::Keypair {
    let secret = ed25519_dalek::SecretKey::from_bytes(&[seed; 32]).unwrap();
    let public = ed25519_dalek::PublicKey::from(&secret);
    ed25519_dalek::Keypair { secret, public }
}

fn signed_tx_bytes(keypair: &ed25519_dalek::Keypair, msg: Vec<u8>, nonce: u64) -> Vec<u8> {
    let mut payload = msg.clone();
    payload.extend_from_slice(&nonce.to_le_bytes());
    let digest = <sha2::Sha256 as sha2::Digest>::digest(&payload);
    let sig = ed25519_dalek::Signer::sign(keypair, &digest);
    let tx = Transaction::new(
        msg,
        DefaultPublicKey::new(keypair.public.as_bytes().to_vec()),
        DefaultSignature::new(sig.to_bytes().to_vec()),
        nonce,
    );
    encode_transaction(&tx)
}

/// A working set whose admin is the holder of `keypair`.
fn working_set_with_admin(keypair: &ed25519_dalek::Keypair) -> WorkingSet<InMemoryStorage> {
    let mut ws = WorkingSet::new(InMemoryStorage::new());
    let admin = DefaultPublicKey::new(keypair.public.as_bytes().to_vec()).to_address();
    ValueSetter {}.genesis(&admin, &mut ws).unwrap();
    ws
}

fn builder_with_admin(
    batch_size: usize,
    keypair: &ed25519_dalek::Keypair,
) -> FiFoStrictBatchBuilder<ValueSetter, InMemoryStorage> {
    let mut b = FiFoStrictBatchBuilder::new(batch_size, ValueSetter {});
    b.reset_working_set(working_set_with_admin(keypair));
    b
}

#[test]
fn mempool_capacity_is_enforced_fifo() {
    let mut b = FiFoStrictBatchBuilder::<ValueSetter, InMemoryStorage>::new(512, ValueSetter {});
    for i in 0..MAX_TX_POOL_SIZE {
        b.accept_tx(vec![i as u8]).unwrap();
    }
    // The pool is at capacity now: the next call must fail, and every queued
    // entry stays, in arrival order.
    let result = b.accept_tx(vec![0xff]);
    assert_eq!(result, Err(BatchBuilderError::MempoolFull));
    assert_eq!(b.mempool.len(), MAX_TX_POOL_SIZE);
    for i in 0..MAX_TX_POOL_SIZE {
        assert_eq!(b.mempool[i], vec![i as u8]);
    }
}

#[test]
fn build_without_working_set_fails() {
    let mut b = FiFoStrictBatchBuilder::<ValueSetter, InMemoryStorage>::new(512, ValueSetter {});
    b.accept_tx(vec![1, 2, 3]).unwrap();
    assert_eq!(
        b.get_next_blob(),
        Err(BatchBuilderError::WorkingSetUninitialized)
    );
}

#[test]
fn budget_keeps_unfit_transaction_at_head() {
    let keypair = keypair_from(1);
    let mut b = builder_with_admin(256, &keypair);

    let tx_small = signed_tx_bytes(&keypair, encode_call(&CallMessage::SetValue(9)), 0);
    // Pad the message so the whole transaction is 400 bytes: 64 signature
    // + 32 key + 4 length + message + 8 nonce.
    let tx_big = signed_tx_bytes(&keypair, vec![0u8; 292], 1);
    assert!(tx_small.len() <= 256);
    assert_eq!(tx_big.len(), 400);

    b.accept_tx(tx_small.clone()).unwrap();
    b.accept_tx(tx_big.clone()).unwrap();

    let blob = b.get_next_blob().unwrap();
    assert_eq!(blob, vec![tx_small]);
    assert_eq!(b.mempool, vec![tx_big]);
}

#[test]
fn included_lengths_fit_budget() {
    let keypair = keypair_from(2);
    let mut b = builder_with_admin(300, &keypair);
    for nonce in 0..4u64 {
        b.accept_tx(signed_tx_bytes(
            &keypair,
            encode_call(&CallMessage::SetValue(nonce as u32)),
            nonce,
        ))
        .unwrap();
    }
    let blob = b.get_next_blob().unwrap();
    let total: usize = blob.iter().map(|t| t.len()).sum();
    assert!(total <= 300);
    // Two 113-byte transactions fit a 300-byte budget; the third does not.
    assert_eq!(blob.len(), 2);
    assert_eq!(b.mempool.len(), 2);
}

#[test]
fn corrupted_signature_is_discarded_not_requeued() {
    let keypair = keypair_from(3);
    let mut b = builder_with_admin(1024, &keypair);

    let mut corrupted = signed_tx_bytes(&keypair, encode_call(&CallMessage::SetValue(5)), 0);
    corrupted[0] ^= 0xff;
    let valid = signed_tx_bytes(&keypair, encode_call(&CallMessage::SetValue(6)), 0);

    b.accept_tx(corrupted).unwrap();
    b.accept_tx(valid.clone()).unwrap();

    let blob = b.get_next_blob().unwrap();
    assert_eq!(blob, vec![valid]);
    assert!(b.mempool.is_empty());
}

#[test]
fn undecodable_and_rejected_transactions_are_discarded() {
    let keypair = keypair_from(4);
    let stranger = keypair_from(5);
    let mut b = builder_with_admin(4096, &keypair);

    // Garbage bytes, a call the runtime cannot decode, and a call from a
    // sender who is not the admin: all dismissed, none included or requeued.
    b.accept_tx(vec![1, 2, 3]).unwrap();
    b.accept_tx(signed_tx_bytes(&keypair, vec![7, 7, 7], 0)).unwrap();
    b.accept_tx(signed_tx_bytes(
        &stranger,
        encode_call(&CallMessage::SetValue(1)),
        0,
    ))
    .unwrap();
    let included = signed_tx_bytes(&keypair, encode_call(&CallMessage::SetValue(2)), 0);
    b.accept_tx(included.clone()).unwrap();

    let blob = b.get_next_blob().unwrap();
    assert_eq!(blob, vec![included]);
    assert!(b.mempool.is_empty());
}
