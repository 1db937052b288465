//! Cryptographic properties against the real backend: deterministic key
//! derivation with distinct directional keys, signature integrity with
//! bit-flip rejection, and voucher-chain verification with tamper detection.

use fdo_engine::cose::{COSEHeaderMap, COSESign, HeaderKeys};
use fdo_engine::errors::{Error, VerificationError};
use fdo_engine::kex::{derive_session_keys, KeyExchange};
use fdo_engine::types::{
    CipherSuite, Guid, HashType, KexSuite, KeyDeriveSide, PublicKey, PublicKeyType,
};
use fdo_engine::voucher::{compute_header_hmac, OwnershipVoucher, VoucherHeader};

fn ec_key_der() -> (Vec<u8>, Vec<u8>) {
    let group = openssl::ec::EcGroup::from_curve_name(openssl::nid::Nid::X9_62_PRIME256V1).unwrap();
    let ec = openssl::ec::EcKey::generate(&group).unwrap();
    let pkey = openssl::pkey::PKey::from_ec_key(ec).unwrap();
    (pkey.private_key_to_der().unwrap(), pkey.public_key_to_der().unwrap())
}

#[test]
fn key_exchange_agreement_and_determinism() {
    // Two sides, fixed material: deriving twice yields byte-identical keys,
    // and the two sides' pairs mirror each other.
    let a = KeyExchange::new(KexSuite::Ecdh384).unwrap();
    let b = KeyExchange::new(KexSuite::Ecdh384).unwrap();

    let a_pub: Vec<u8> = a.get_public().to_vec();
    let b_pub: Vec<u8> = b.get_public().to_vec();

    let ka1 = a.derive_key(KeyDeriveSide::Device, CipherSuite::A256Gcm, &b_pub).unwrap();
    let ka2 = a.derive_key(KeyDeriveSide::Device, CipherSuite::A256Gcm, &b_pub).unwrap();
    assert_eq!(ka1.encrypt_key, ka2.encrypt_key);
    assert_eq!(ka1.decrypt_key, ka2.decrypt_key);

    let kb = b.derive_key(KeyDeriveSide::OwnerService, CipherSuite::A256Gcm, &a_pub).unwrap();
    assert_eq!(ka1.encrypt_key, kb.decrypt_key);
    assert_eq!(ka1.decrypt_key, kb.encrypt_key);

    // The two directions never share a key.
    assert_ne!(ka1.encrypt_key, ka1.decrypt_key);
    assert_eq!(ka1.encrypt_key.len(), 32);
    assert_eq!(ka1.decrypt_key.len(), 32);
}

#[test]
fn session_keys_differ_per_direction_and_cipher() {
    let secret = vec![0x42u8; 48];
    let k256 = derive_session_keys(CipherSuite::A256Gcm, &secret, KeyDeriveSide::Device).unwrap();
    let k128 = derive_session_keys(CipherSuite::A128Gcm, &secret, KeyDeriveSide::Device).unwrap();
    assert_ne!(k256.encrypt_key, k256.decrypt_key);
    assert_ne!(k128.encrypt_key, k128.decrypt_key);
    assert_eq!(k128.encrypt_key.len(), 16);
    // The derivation is a pure function of its inputs.
    let again = derive_session_keys(CipherSuite::A256Gcm, &secret, KeyDeriveSide::Device).unwrap();
    assert_eq!(k256.encrypt_key, again.encrypt_key);
    assert_eq!(k256.decrypt_key, again.decrypt_key);
}

fn signed_envelope(key_der: &[u8]) -> COSESign {
    let mut protected = COSEHeaderMap::new();
    protected.insert(HeaderKeys::CUPHNonce, vec![0xaa; 16]).unwrap();
    COSESign::new_with_protected(
        b"payload under test".to_vec(),
        protected,
        None,
        HashType::Sha256,
        key_der,
    )
    .unwrap()
}

#[test]
fn signature_roundtrip_and_bit_flips_fail() {
    let (priv_der, pub_der) = ec_key_der();
    let envelope = signed_envelope(&priv_der);

    // The original verifies and yields the original payload.
    let payload = envelope.verify(HashType::Sha256, &pub_der).unwrap();
    assert_eq!(payload, b"payload under test".to_vec());

    // Any flipped payload byte fails verification.
    for i in 0..envelope.payload.len() {
        let mut tampered = envelope.clone();
        tampered.payload[i] ^= 1;
        assert!(tampered.verify(HashType::Sha256, &pub_der).is_err(), "flip at {}", i);
    }

    // A flipped protected-header byte fails verification.
    let mut tampered = envelope.clone();
    tampered.protected.entries[0].1[0] ^= 1;
    assert!(tampered.verify(HashType::Sha256, &pub_der).is_err());

    // A flipped signature byte fails verification.
    let mut tampered = envelope.clone();
    let mid = tampered.signature.len() / 2;
    tampered.signature[mid] ^= 1;
    assert!(tampered.verify(HashType::Sha256, &pub_der).is_err());

    // A key other than the signer's fails verification.
    let (_, other_pub) = ec_key_der();
    assert!(envelope.verify(HashType::Sha256, &other_pub).is_err());
}

#[test]
fn protected_value_is_only_released_after_verification() {
    let (priv_der, pub_der) = ec_key_der();
    let envelope = signed_envelope(&priv_der);
    let v = envelope
        .get_protected_value(HeaderKeys::CUPHNonce, HashType::Sha256, &pub_der)
        .unwrap()
        .unwrap();
    assert_eq!(v, vec![0xaa; 16]);
    let (_, other_pub) = ec_key_der();
    assert!(envelope
        .get_protected_value(HeaderKeys::CUPHNonce, HashType::Sha256, &other_pub)
        .is_err());
}

fn sample_voucher() -> (OwnershipVoucher, Vec<(Vec<u8>, Vec<u8>)>) {
    let mfg = ec_key_der();
    let header = VoucherHeader::new(
        Guid::from_value(vec![7; 16]).unwrap(),
        b"testdevice".to_vec(),
        PublicKey::new(PublicKeyType::SECP256R1, mfg.1.clone()),
    );
    let device_secret = vec![0x11u8; 32];
    let hmac = compute_header_hmac(HashType::Sha256, &device_secret, &header).unwrap();
    (OwnershipVoucher::new(HashType::Sha256, header, hmac), vec![mfg])
}

#[test]
fn voucher_chain_verifies_to_the_last_owner() {
    let (mut voucher, mut owners) = sample_voucher();

    // With no entries the current owner is the manufacturer.
    let leaf = voucher.verify_chain().unwrap();
    assert_eq!(leaf.body, owners[0].1);

    // Hand custody along three owners; after each step the chain verifies to
    // the newest key.
    for _ in 0..3 {
        let next = ec_key_der();
        let signer = owners.last().unwrap().0.clone();
        voucher
            .extend(&signer, PublicKey::new(PublicKeyType::SECP256R1, next.1.clone()))
            .unwrap();
        owners.push(next);
        let leaf = voucher.verify_chain().unwrap();
        assert_eq!(leaf.body, owners.last().unwrap().1);
    }
    assert_eq!(voucher.num_entries(), 3);
}

#[test]
fn voucher_chain_rejects_any_flipped_signature_byte() {
    let (mut voucher, owners) = sample_voucher();
    let next = ec_key_der();
    voucher
        .extend(&owners[0].0, PublicKey::new(PublicKeyType::SECP256R1, next.1.clone()))
        .unwrap();
    assert!(voucher.verify_chain().is_ok());

    let sig_len = voucher.entries[0].signature.len();
    for i in 0..sig_len {
        voucher.entries[0].signature[i] ^= 1;
        assert!(voucher.verify_chain().is_err(), "flip at {}", i);
        voucher.entries[0].signature[i] ^= 1;
    }
}

#[test]
fn voucher_chain_rejects_an_entry_signed_by_the_wrong_key() {
    let (mut voucher, _owners) = sample_voucher();
    let interloper = ec_key_der();
    let next = ec_key_der();
    // Signed by a key that is not the current owner's: the link must fail.
    voucher
        .extend(&interloper.0, PublicKey::new(PublicKeyType::SECP256R1, next.1))
        .unwrap();
    assert!(voucher.verify_chain().is_err());
}

#[test]
fn device_hmac_binds_the_header() {
    let (voucher, _owners) = sample_voucher();
    let device_secret = vec![0x11u8; 32];
    let good = compute_header_hmac(HashType::Sha256, &device_secret, &voucher.header).unwrap();
    assert!(voucher.verify_device_hmac(&good));

    // A different header byte yields a different HMAC.
    let mut other_header = VoucherHeader::new(
        Guid::from_value(vec![7; 16]).unwrap(),
        b"testdevicf".to_vec(),
        PublicKey::new(
            voucher.header.manufacturer_public_key.key_type,
            voucher.header.manufacturer_public_key.body.clone(),
        ),
    );
    other_header.device_info = b"testdevicf".to_vec();
    let bad = compute_header_hmac(HashType::Sha256, &device_secret, &other_header).unwrap();
    assert!(!voucher.verify_device_hmac(&bad));

    // A different key yields a different HMAC too.
    let bad_key = compute_header_hmac(HashType::Sha256, &vec![0x12u8; 32], &voucher.header).unwrap();
    assert!(!voucher.verify_device_hmac(&bad_key));
}

#[test]
fn malformed_peer_input_is_an_error_not_a_guess() {
    let kex = KeyExchange::new(KexSuite::Ecdh256).unwrap();
    let garbage = vec![0x5au8; 40];
    assert!(kex
        .derive_key(KeyDeriveSide::Device, CipherSuite::A256Gcm, &garbage)
        .is_err());
}

#[test]
fn hmac_gate_names_its_rejection() {
    let (voucher, _owners) = sample_voucher();
    let other = compute_header_hmac(HashType::Sha256, &vec![0x99u8; 32], &voucher.header).unwrap();
    assert_eq!(
        voucher.ensure_device_hmac(&other),
        Err(Error::Verification(VerificationError::HmacMismatch))
    );
    let device_secret = vec![0x11u8; 32];
    let good = compute_header_hmac(HashType::Sha256, &device_secret, &voucher.header).unwrap();
    assert!(voucher.ensure_device_hmac(&good).is_ok());
}

#[test]
fn hex_digest_parsing() {
    let h = fdo_engine::client::parse_pub_key_hash(
        "00112233445566778899aabbccddeeff00112233445566778899AABBCCDDEEFF",
    )
    .unwrap();
    assert_eq!(h.hash_type(), HashType::Sha256);
    assert_eq!(h.value()[0], 0x00);
    assert_eq!(h.value()[31], 0xff);
    // Odd length, non-hex characters, and wrong widths are all rejected.
    assert!(fdo_engine::client::parse_pub_key_hash("abc").is_err());
    assert!(fdo_engine::client::parse_pub_key_hash("zz").is_err());
    assert!(fdo_engine::client::parse_pub_key_hash("aabb").is_err());
}
