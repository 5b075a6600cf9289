//! Address rendering and key/signature serialization, run against the real
//! bech32 and ed25519 crates.

use rollup_core::address::AddressBech32;
use rollup_core::default_signature::{Address, DefaultPublicKey, DefaultSignature};

#[test]
fn test_account_bech32_display() {
    let expected_addr: Vec<u8> = (1..=32).collect();
    let account = AddressBech32::try_from_slice(&expected_addr).unwrap();
    assert_eq!(
        account.to_string(),
        "sov1qypqxpq9qcrsszg2pvxq6rs0zqg3yyc5z5tpwxqergd3c8g7rusq4vrkje"
    );
}

#[test]
fn test_address_conversion() {
    let expected_addr: Vec<u8> = (1..=32).collect();
    let addr = Address::try_from_bytes(&expected_addr).unwrap();

    let addr_bytes: &Vec<u8> = addr.as_bytes();
    assert_eq!(&expected_addr, addr_bytes);

    let addr_from_bytes = Address::try_from_bytes(&addr_bytes.clone()).unwrap();
    assert_eq!(addr_from_bytes, addr);
}

#[test]
fn test_pub_key_serialization() {
    let mut csprng = rand::rngs::OsRng;
    let keypair = ed25519_dalek::Keypair::generate(&mut csprng);
    let pub_key = DefaultPublicKey::new(keypair.public.as_bytes().to_vec());
    let serialized_pub_key = pub_key.to_bytes();

    let deserialized_pub_key = DefaultPublicKey::try_from_slice(&serialized_pub_key).unwrap();
    assert_eq!(pub_key, deserialized_pub_key)
}

#[test]
fn test_signature_serialization() {
    let msg = vec![1u8; 32];
    let mut csprng = rand::rngs::OsRng;
    let keypair = ed25519_dalek::Keypair::generate(&mut csprng);

    let dalek_sig = ed25519_dalek::Signer::sign(&keypair, msg.as_slice());
    let sig = DefaultSignature::new(dalek_sig.to_bytes().to_vec());
    let serialized_sig = sig.to_bytes();
    let deserialized_sig = DefaultSignature::try_from_slice(&serialized_sig).unwrap();
    assert_eq!(sig, deserialized_sig);

    let pub_key = DefaultPublicKey::new(keypair.public.as_bytes().to_vec());
    deserialized_sig.verify(&pub_key, &msg).unwrap()
}

#[test]
fn wrong_hrp_is_rejected() {
    // A valid bech32 string under another prefix parses but is refused.
    let other = bech32::encode(
        "btc",
        bech32::ToBase32::to_base32(&[1u8; 32].as_slice()),
        bech32::Variant::Bech32,
    )
    .unwrap();
    let parsed = AddressBech32::from_str(&other);
    assert!(matches!(
        parsed,
        Err(rollup_core::address::Bech32ParseError::WrongHPR(_))
    ));
}

#[test]
fn malformed_bech32_is_rejected() {
    let parsed = AddressBech32::from_str("not a bech32 string");
    assert!(matches!(
        parsed,
        Err(rollup_core::address::Bech32ParseError::Bech32(_))
    ));
}

#[test]
fn address_round_trip_through_string() {
    let bytes: Vec<u8> = (1..=32).collect();
    let account = AddressBech32::try_from_slice(&bytes).unwrap();
    let reparsed = AddressBech32::from_str(&account.to_string()).unwrap();
    assert_eq!(account, reparsed);
}

#[test]
fn address_requires_32_bytes() {
    let short: Vec<u8> = vec![1, 2, 3];
    assert!(AddressBech32::try_from_slice(&short).is_err());
    assert!(Address::try_from_bytes(&short).is_err());
}
