//! Whole-slot scenarios through the orchestrator: happy path, every slashing
//! and ignore path, partial failure isolation, and determinism of replay.

use rollup_core::app_template::{AppTemplate, SequencerOutcome, SlashingReason, TxEffect};
use rollup_core::basic_hooks::BondingHooks;
use rollup_core::batch::{encode_batch, Batch};
use rollup_core::default_signature::{DefaultPublicKey, DefaultSignature};
use rollup_core::stf::BatchReceipt;
use rollup_core::storage::{InMemoryStorage, Storage, Witness};
use rollup_core::transaction::{encode_transaction, RawTx, Transaction};
use rollup_core::value_setter::{encode_call, CallMessage, ValueSetter};

const SEQUENCER: &[u8] = b"seq-1";

fn keypair_from(seed: u8) -> ed25519_dalek::Keypair {
    let secret = ed25519_dalek::SecretKey::from_bytes(&[seed; 32]).unwrap();
    let public = ed25519_dalek::PublicKey::from(&secret);
    ed25519_dalek::Keypair { secret, public }
}

fn signed_tx_bytes(keypair: &ed25519_dalek::Keypair, msg: Vec<u8>, nonce: u64) -> Vec<u8> {
    let mut payload = msg.clone();
    payload.extend_from_slice(&nonce.to_le_bytes());
    let digest = <sha2::Sha256 as sha2::Digest>::digest(&payload);
    let sig = ed25519_dalek::Signer::sign(keypair, &digest);
    let tx = Transaction::new(
        msg,
        DefaultPublicKey::new(keypair.public.as_bytes().to_vec()),
        DefaultSignature::new(sig.to_bytes().to_vec()),
        nonce,
    );
    encode_transaction(&tx)
}

fn blob_of(raw_txs: Vec<Vec<u8>>) -> Vec<u8> {
    let txs = raw_txs.into_iter().map(|data| RawTx { data }).collect();
    encode_batch(&Batch { txs })
}

/// An orchestrator whose chain is initialized with `admin` as the
/// value-setter admin and one registered sequencer.
fn app_for(
    admin: &ed25519_dalek::Keypair,
) -> AppTemplate<InMemoryStorage, ValueSetter, BondingHooks> {
    let mut app = AppTemplate::new(
        InMemoryStorage::new(),
        ValueSetter {},
        BondingHooks::new(SEQUENCER.to_vec()),
    );
    let admin_addr = DefaultPublicKey::new(admin.public.as_bytes().to_vec()).to_address();
    app.init_chain(&admin_addr).unwrap();
    app
}

fn apply_one(
    app: &mut AppTemplate<InMemoryStorage, ValueSetter, BondingHooks>,
    blob: &Vec<u8>,
    sequencer: &[u8],
) -> BatchReceipt {
    app.begin_slot(Witness::new());
    app.apply_blob(blob, &sequencer.to_vec(), None).unwrap()
}

#[test]
fn successful_transaction_commits_events_in_order() {
    let admin = keypair_from(1);
    let mut app = app_for(&admin);
    let blob = blob_of(vec![signed_tx_bytes(
        &admin,
        encode_call(&CallMessage::SetValue(99)),
        0,
    )]);
    let receipt = apply_one(&mut app, &blob, SEQUENCER);

    assert_eq!(receipt.inner, SequencerOutcome::Rewarded);
    assert_eq!(receipt.tx_receipts.len(), 1);
    let tx_receipt = &receipt.tx_receipts[0];
    assert_eq!(tx_receipt.receipt, TxEffect::Successful);
    assert_eq!(tx_receipt.events.len(), 1);
    assert_eq!(tx_receipt.events[0].key().0, b"set".to_vec());
    assert_eq!(tx_receipt.events[0].value().0, 99u32.to_le_bytes().to_vec());

    // Finalizing the slot makes the write durable: the value reads back from
    // the committed storage.
    let (_root, _witness) = app.end_slot().unwrap();
    let stored = app.current_storage.get(&b"value".to_vec()).unwrap();
    assert_eq!(stored, 99u32.to_le_bytes().to_vec());
}

#[test]
fn unknown_sequencer_is_ignored_without_penalty() {
    let admin = keypair_from(1);
    let mut app = app_for(&admin);
    let blob = blob_of(vec![signed_tx_bytes(
        &admin,
        encode_call(&CallMessage::SetValue(1)),
        0,
    )]);
    let receipt = apply_one(&mut app, &blob, b"someone-else");
    assert_eq!(receipt.inner, SequencerOutcome::Ignored);
    assert!(receipt.tx_receipts.is_empty());
}

#[test]
fn undecodable_blob_slashes_and_leaves_state_unchanged() {
    let admin = keypair_from(1);
    let mut app = app_for(&admin);
    let garbage: Vec<u8> = vec![9, 9];
    let receipt = apply_one(&mut app, &garbage, SEQUENCER);
    assert_eq!(
        receipt.inner,
        SequencerOutcome::Slashed(SlashingReason::InvalidBatchEncoding)
    );
    assert!(receipt.tx_receipts.is_empty());

    // The slot's working set saw nothing: finalizing commits an empty change
    // log, and no bond or value key exists afterwards.
    let (_root, _witness) = app.end_slot().unwrap();
    assert!(app.current_storage.get(&b"bond".to_vec()).is_none());
    assert!(app.current_storage.get(&b"value".to_vec()).is_none());
}

#[test]
fn one_bad_signature_rejects_the_whole_batch() {
    let admin = keypair_from(1);
    let mut app = app_for(&admin);

    let good = signed_tx_bytes(&admin, encode_call(&CallMessage::SetValue(7)), 0);
    let mut bad = signed_tx_bytes(&admin, encode_call(&CallMessage::SetValue(8)), 1);
    bad[0] ^= 0xff;

    let receipt = apply_one(&mut app, &blob_of(vec![good, bad]), SEQUENCER);
    assert_eq!(
        receipt.inner,
        SequencerOutcome::Slashed(SlashingReason::StatelessVerificationFailed)
    );
    // The validity of the first transaction does not save the batch.
    assert!(receipt.tx_receipts.is_empty());

    let (_root, _witness) = app.end_slot().unwrap();
    assert!(app.current_storage.get(&b"value".to_vec()).is_none());
}

#[test]
fn undecodable_call_aborts_the_blob_and_discards_receipts() {
    let admin = keypair_from(1);
    let mut app = app_for(&admin);

    // The first transaction succeeds and commits; the second carries a
    // payload the runtime cannot decode: the sequencer is slashed, the
    // accumulated receipts are discarded, and the remaining loop and the
    // end-blob hook are skipped — but only the failing transaction's scope
    // is reverted, so the first transaction's committed write stays.
    let good = signed_tx_bytes(&admin, encode_call(&CallMessage::SetValue(7)), 0);
    let opaque = signed_tx_bytes(&admin, vec![0xde, 0xad], 1);

    let receipt = apply_one(&mut app, &blob_of(vec![good, opaque]), SEQUENCER);
    assert_eq!(
        receipt.inner,
        SequencerOutcome::Slashed(SlashingReason::InvalidTransactionEncoding)
    );
    assert!(receipt.tx_receipts.is_empty());

    let (_root, _witness) = app.end_slot().unwrap();
    let stored = app.current_storage.get(&b"value".to_vec()).unwrap();
    assert_eq!(stored, 7u32.to_le_bytes().to_vec());
    // The begin-blob hook's bond, committed with the blob scope, stays too;
    // no reward was recorded since the end-blob hook never ran.
    assert!(app.current_storage.get(&b"bond".to_vec()).is_some());
    assert!(app.current_storage.get(&b"reward".to_vec()).is_none());
}

#[test]
fn wrong_nonce_reverts_one_transaction_and_batch_continues() {
    let admin = keypair_from(1);
    let mut app = app_for(&admin);

    // Nonce 5 where 0 is expected: the pre-dispatch hook rejects it; the
    // next transaction, with the right nonce, still goes through.
    let stale = signed_tx_bytes(&admin, encode_call(&CallMessage::SetValue(1)), 5);
    let fresh = signed_tx_bytes(&admin, encode_call(&CallMessage::SetValue(2)), 0);

    let receipt = apply_one(&mut app, &blob_of(vec![stale, fresh]), SEQUENCER);
    assert_eq!(receipt.inner, SequencerOutcome::Rewarded);
    assert_eq!(receipt.tx_receipts.len(), 2);
    assert_eq!(receipt.tx_receipts[0].receipt, TxEffect::Reverted);
    assert!(receipt.tx_receipts[0].events.is_empty());
    assert_eq!(receipt.tx_receipts[1].receipt, TxEffect::Successful);

    let (_root, _witness) = app.end_slot().unwrap();
    let stored = app.current_storage.get(&b"value".to_vec()).unwrap();
    assert_eq!(stored, 2u32.to_le_bytes().to_vec());
}

#[test]
fn failed_dispatch_is_reverted_and_undone() {
    let admin = keypair_from(1);
    let stranger = keypair_from(2);
    let mut app = app_for(&admin);

    // A stranger's call passes stateless checks and the nonce hook but the
    // module rejects it: its changes are undone, it is recorded as Reverted
    // with no events, and the batch continues.
    let rejected = signed_tx_bytes(&stranger, encode_call(&CallMessage::SetValue(1)), 0);
    let accepted = signed_tx_bytes(&admin, encode_call(&CallMessage::SetValue(2)), 0);

    let receipt = apply_one(&mut app, &blob_of(vec![rejected, accepted]), SEQUENCER);
    assert_eq!(receipt.inner, SequencerOutcome::Rewarded);
    assert_eq!(receipt.tx_receipts.len(), 2);
    assert_eq!(receipt.tx_receipts[0].receipt, TxEffect::Reverted);
    assert!(receipt.tx_receipts[0].events.is_empty());
    assert_eq!(receipt.tx_receipts[1].receipt, TxEffect::Successful);

    let (_root, _witness) = app.end_slot().unwrap();
    let stored = app.current_storage.get(&b"value".to_vec()).unwrap();
    assert_eq!(stored, 2u32.to_le_bytes().to_vec());
}

#[test]
fn replay_of_a_slot_is_deterministic() {
    let admin = keypair_from(1);
    let blob = blob_of(vec![
        signed_tx_bytes(&admin, encode_call(&CallMessage::SetValue(11)), 0),
        signed_tx_bytes(&admin, encode_call(&CallMessage::SetValue(12)), 1),
    ]);

    let mut run = || {
        let mut app = app_for(&admin);
        app.begin_slot(Witness::new());
        let receipt = app.apply_blob(&blob, &SEQUENCER.to_vec(), None).unwrap();
        let (root, witness) = app.end_slot().unwrap();
        (receipt, root, witness)
    };
    let (receipt1, root1, witness1) = run();
    let (receipt2, root2, witness2) = run();

    assert_eq!(receipt1, receipt2);
    assert_eq!(root1, root2);
    assert_eq!(witness1, witness2);
}

#[test]
fn two_blobs_accumulate_in_one_slot() {
    let admin = keypair_from(1);
    let mut app = app_for(&admin);
    app.begin_slot(Witness::new());
    let first = blob_of(vec![signed_tx_bytes(
        &admin,
        encode_call(&CallMessage::SetValue(5)),
        0,
    )]);
    let second = blob_of(vec![signed_tx_bytes(
        &admin,
        encode_call(&CallMessage::SetValue(6)),
        1,
    )]);
    let r1 = app.apply_blob(&first, &SEQUENCER.to_vec(), None).unwrap();
    let r2 = app.apply_blob(&second, &SEQUENCER.to_vec(), None).unwrap();
    assert_eq!(r1.inner, SequencerOutcome::Rewarded);
    assert_eq!(r2.inner, SequencerOutcome::Rewarded);

    let (_root, _witness) = app.end_slot().unwrap();
    let stored = app.current_storage.get(&b"value".to_vec()).unwrap();
    assert_eq!(stored, 6u32.to_le_bytes().to_vec());
}

#[test]
fn receipt_hashes_are_the_digests_of_the_inputs() {
    let admin = keypair_from(1);
    let mut app = app_for(&admin);
    let raw = signed_tx_bytes(&admin, encode_call(&CallMessage::SetValue(3)), 0);
    let blob = blob_of(vec![raw.clone()]);
    let receipt = apply_one(&mut app, &blob, SEQUENCER);

    let blob_digest = <sha2::Sha256 as sha2::Digest>::digest(&blob).to_vec();
    let tx_digest = <sha2::Sha256 as sha2::Digest>::digest(&raw).to_vec();
    assert_eq!(receipt.batch_hash, blob_digest);
    assert_eq!(receipt.tx_receipts[0].tx_hash, tx_digest);
}

#[test]
fn witness_replay_reproduces_receipts_without_storage() {
    let admin = keypair_from(1);
    let blob = blob_of(vec![
        signed_tx_bytes(&admin, encode_call(&CallMessage::SetValue(21)), 0),
        signed_tx_bytes(&admin, encode_call(&CallMessage::SetValue(22)), 1),
    ]);

    // Native run: initialized storage, empty witness in, a witness out.
    let mut native = app_for(&admin);
    native.begin_slot(Witness::new());
    let native_receipt = native.apply_blob(&blob, &SEQUENCER.to_vec(), None).unwrap();
    let (_root, witness) = native.end_slot().unwrap();

    // Constrained replay: no storage content at all; every backend read is
    // answered from the witness. The receipts come out identical.
    let mut replay = AppTemplate::new(
        InMemoryStorage::new(),
        ValueSetter {},
        BondingHooks::new(SEQUENCER.to_vec()),
    );
    replay.begin_slot(witness);
    let replay_receipt = replay.apply_blob(&blob, &SEQUENCER.to_vec(), None).unwrap();

    assert_eq!(native_receipt, replay_receipt);
    assert_eq!(replay_receipt.inner, SequencerOutcome::Rewarded);
}
