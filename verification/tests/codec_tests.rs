//! The wire codec: little-endian helpers, transaction and batch round trips,
//! and stateless verification against real ed25519 signatures.

use rollup_core::batch::{decode_batch, encode_batch, Batch};
use rollup_core::bytes::{decode_u32_le, decode_u64_le, encode_u32_le, encode_u64_le};
use rollup_core::default_signature::{DefaultPublicKey, DefaultSignature};
use rollup_core::transaction::{
    decode_transaction, encode_transaction, verify_tx_stateless, RawTx, StatelessVerifyError,
    Transaction,
};

fn keypair_from(seed: u8) -> ed25519_dalek::Keypair {
    let secret = ed25519_dalek::SecretKey::from_bytes(&[seed; 32]).unwrap();
    let public = ed25519_dalek::PublicKey::from(&secret);
    ed25519_dalek::Keypair { secret, public }
}

fn signed_tx_bytes(keypair: &ed25519_dalek::Keypair, msg: Vec<u8>, nonce: u64) -> Vec<u8> {
    let mut payload = msg.clone();
    payload.extend_from_slice(&nonce.to_le_bytes());
    let digest = <sha2::Sha256 as sha2::Digest>::digest(&payload);
    let sig = ed25519_dalek::Signer::sign(keypair, &digest);
    let tx = Transaction::new(
        msg,
        DefaultPublicKey::new(keypair.public.as_bytes().to_vec()),
        DefaultSignature::new(sig.to_bytes().to_vec()),
        nonce,
    );
    encode_transaction(&tx)
}

#[test]
fn little_endian_round_trips() {
    let b32 = encode_u32_le(0x01020304);
    assert_eq!(b32, vec![0x04, 0x03, 0x02, 0x01]);
    assert_eq!(decode_u32_le(&b32, 0), 0x01020304);

    let b64 = encode_u64_le(0x0102030405060708);
    assert_eq!(b64, vec![0x08, 0x07, 0x06, 0x05, 0x04, 0x03, 0x02, 0x01]);
    assert_eq!(decode_u64_le(&b64, 0), 0x0102030405060708);
}

#[test]
fn transaction_round_trip() {
    let keypair = keypair_from(3);
    let raw = signed_tx_bytes(&keypair, vec![9, 9, 9], 7);
    let tx = decode_transaction(&raw).unwrap();
    assert_eq!(tx.runtime_msg(), &vec![9, 9, 9]);
    assert_eq!(tx.nonce(), 7);
    assert_eq!(encode_transaction(&tx), raw);
}

#[test]
fn truncated_transaction_is_rejected() {
    let keypair = keypair_from(3);
    let mut raw = signed_tx_bytes(&keypair, vec![9, 9, 9], 7);
    raw.pop();
    assert!(decode_transaction(&raw).is_err());
    assert!(decode_transaction(&vec![1, 2, 3]).is_err());
}

#[test]
fn stateless_verification_accepts_a_signed_transaction() {
    let keypair = keypair_from(4);
    let raw = signed_tx_bytes(&keypair, vec![1, 2, 3, 4], 0);
    let tx = verify_tx_stateless(&RawTx { data: raw }).unwrap();
    assert_eq!(tx.runtime_msg(), &vec![1, 2, 3, 4]);
}

#[test]
fn stateless_verification_rejects_a_corrupted_signature() {
    let keypair = keypair_from(4);
    let mut raw = signed_tx_bytes(&keypair, vec![1, 2, 3, 4], 0);
    raw[0] ^= 0xff;
    let e = verify_tx_stateless(&RawTx { data: raw }).unwrap_err();
    assert_eq!(e, StatelessVerifyError::SignatureInvalid);
}

#[test]
fn stateless_verification_rejects_garbage() {
    let e = verify_tx_stateless(&RawTx { data: vec![0; 12] }).unwrap_err();
    assert_eq!(e, StatelessVerifyError::InvalidEncoding);
}

#[test]
fn batch_round_trip() {
    let batch = Batch {
        txs: vec![
            RawTx { data: vec![1, 2, 3] },
            RawTx { data: vec![] },
            RawTx { data: vec![42; 10] },
        ],
    };
    let blob = encode_batch(&batch);
    let decoded = decode_batch(&blob).unwrap();
    assert_eq!(decoded, batch);
}

#[test]
fn batch_decoding_rejects_short_blobs() {
    assert!(decode_batch(&vec![]).is_err());
    assert!(decode_batch(&vec![1, 0, 0]).is_err());
    // Claims one item but carries none.
    assert!(decode_batch(&vec![1, 0, 0, 0]).is_err());
}

#[test]
fn batch_decoding_tolerates_trailing_bytes() {
    let batch = Batch { txs: vec![RawTx { data: vec![5, 6] }] };
    let mut blob = encode_batch(&batch);
    blob.push(0xaa);
    let decoded = decode_batch(&blob).unwrap();
    assert_eq!(decoded, batch);
}
