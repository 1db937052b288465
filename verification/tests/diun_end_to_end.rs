//! End-to-end bootstrap scenarios: the full nonce-challenge handshake
//! between the device-side steps and the server-side handlers, the nonce
//! binding on tampered replies, and the ordering violation on a skipped
//! step.

use fdo_engine::constants::{MessageType, ProtocolPhase};
use fdo_engine::cose::HeaderKeys;
use fdo_engine::client::{client_begin_diun, client_handle_accept, DiunTrustAnchor};
use fdo_engine::errors::{ConfigurationError, Error, ProtocolViolation, VerificationError};
use fdo_engine::handlers::{
    diun_connect, diun_provide_key, diun_request_key_parameters, DiunConfiguration,
};
use fdo_engine::diun;
use fdo_engine::session::Session;
use fdo_engine::types::{
    CipherSuite, HashType, KexSuite, KeyStorageType, MfgStringType, Nonce, PublicKey,
    PublicKeyType,
};
use fdo_engine::voucher::{InsecureTrustAnyRoot, X5Chain};

fn ec_pkey() -> openssl::pkey::PKey<openssl::pkey::Private> {
    let group = openssl::ec::EcGroup::from_curve_name(openssl::nid::Nid::X9_62_PRIME256V1).unwrap();
    let ec = openssl::ec::EcKey::generate(&group).unwrap();
    openssl::pkey::PKey::from_ec_key(ec).unwrap()
}

/// A certificate over `subject`'s public key, signed by `signer`.
fn make_cert(
    signer: &openssl::pkey::PKey<openssl::pkey::Private>,
    subject: &openssl::pkey::PKey<openssl::pkey::Private>,
    cn: &str,
) -> Vec<u8> {
    let mut name = openssl::x509::X509NameBuilder::new().unwrap();
    name.append_entry_by_text("CN", cn).unwrap();
    let name = name.build();
    let mut builder = openssl::x509::X509Builder::new().unwrap();
    builder.set_version(2).unwrap();
    builder.set_subject_name(&name).unwrap();
    builder.set_issuer_name(&name).unwrap();
    builder.set_pubkey(subject).unwrap();
    builder
        .set_not_before(&openssl::asn1::Asn1Time::days_from_now(0).unwrap())
        .unwrap();
    builder
        .set_not_after(&openssl::asn1::Asn1Time::days_from_now(1).unwrap())
        .unwrap();
    builder
        .sign(signer, openssl::hash::MessageDigest::sha256())
        .unwrap();
    builder.build().to_der().unwrap()
}

/// The server's bootstrap configuration with a two-certificate chain:
/// a leaf over the signing key, issued by a self-signed root.
fn test_config() -> (DiunConfiguration, Vec<u8>) {
    let root = ec_pkey();
    let diun = ec_pkey();
    let leaf_der = make_cert(&root, &diun, "bootstrap");
    let root_der = make_cert(&root, &root, "anchor");
    let chain = X5Chain::new(vec![leaf_der, root_der.clone()]);
    let config = DiunConfiguration::new(
        false,
        vec![KeyStorageType::FileSystem],
        PublicKeyType::SECP256R1,
        MfgStringType::SerialNumber,
        HashType::Sha256,
        diun.private_key_to_der().unwrap(),
        chain.encode(),
    )
    .unwrap();
    (config, root_der)
}

#[test]
fn test_diun() {
    // The device opens with its nonce challenge and ephemeral key material.
    let (connect, state) =
        client_begin_diun(KexSuite::Ecdh256, CipherSuite::A256Gcm).unwrap();

    // The wire carries only bytes: encode, then let the server decode.
    let connect = diun::Connect::decode(&connect.encode()).unwrap();

    let (config, root_der) = test_config();
    let mut session = Session::new(1, ProtocolPhase::DIUN, 1000);
    let accept = diun_connect(&config, &mut session, &connect).unwrap();
    assert_eq!(session.last_message, Some(MessageType::DIUNAccept));
    // Keys are pending, not applied: the next reply still travels clear.
    assert!(session.pending_keys.is_some());
    assert!(session.active_keys.is_none());

    let accept = diun::Accept::decode(&accept.encode()).unwrap();

    // Trusting any certificate as root: the loud opt-in mode.
    let outcome = client_handle_accept(
        &state,
        &accept,
        HashType::Sha256,
        DiunTrustAnchor::Insecure(InsecureTrustAnyRoot::accept_that_any_root_is_trusted()),
    )
    .unwrap();

    // Same tunnel on both sides: the device's encrypt key is the service's
    // decrypt key and the other way round.
    let server_keys = session.pending_keys.as_ref().unwrap();
    assert_eq!(outcome.keys.encrypt_key, server_keys.decrypt_key);
    assert_eq!(outcome.keys.decrypt_key, server_keys.encrypt_key);

    // The pinned-digest trust anchor accepts the same chain when the pin
    // matches the root certificate.
    let root_digest =
        openssl::hash::hash(openssl::hash::MessageDigest::sha256(), &root_der).unwrap();
    let pin = fdo_engine::client::parse_pub_key_hash(&hex::encode(&*root_digest)).unwrap();
    let outcome2 = client_handle_accept(
        &state,
        &accept,
        HashType::Sha256,
        DiunTrustAnchor::PinnedDigest(pin),
    )
    .unwrap();
    assert_eq!(outcome2.keys.encrypt_key, outcome.keys.encrypt_key);

    // A pin that names a different root rejects the chain.
    let wrong_pin = fdo_engine::types::Hash::guess_new_from_data(vec![0x55; 32]).unwrap();
    assert!(client_handle_accept(
        &state,
        &accept,
        HashType::Sha256,
        DiunTrustAnchor::PinnedDigest(wrong_pin),
    )
    .is_err());

    // The phase runs to its close: key parameters, the device's key, done.
    let rkp = diun::RequestKeyParameters::new();
    let params = diun_request_key_parameters(&config, &mut session, &rkp).unwrap();
    assert_eq!(params.public_key_type(), &PublicKeyType::SECP256R1);
    // The pending keys are applied exactly at the key-parameters step.
    assert!(session.pending_keys.is_none());
    assert!(session.active_keys.is_some());

    // The device builds its key answer straight from the parameters it was
    // handed: the requested type, the first allowed storage kind.
    let (pk, _device_private) =
        fdo_engine::client::client_build_provide_key(&params).unwrap();
    let pk = diun::ProvideKey::decode(&pk.encode()).unwrap();
    let done = diun_provide_key(&config, &mut session, &pk).unwrap();
    assert_eq!(done.mfg_string_type(), &MfgStringType::SerialNumber);
    assert_eq!(session.last_message, Some(MessageType::DIUNDone));
}

#[test]
fn a_key_the_backend_cannot_read_is_a_startup_failure() {
    let r = DiunConfiguration::new(
        false,
        vec![KeyStorageType::FileSystem],
        PublicKeyType::SECP256R1,
        MfgStringType::SerialNumber,
        HashType::Sha256,
        vec![0x5a; 12],
        vec![],
    );
    assert_eq!(
        r.err().unwrap(),
        Error::Configuration(ConfigurationError::MissingSigningKey)
    );
}

#[test]
fn a_reply_without_the_key_chain_header_is_rejected() {
    let (connect, state) =
        client_begin_diun(KexSuite::Ecdh256, CipherSuite::A256Gcm).unwrap();
    let (config, _) = test_config();
    let mut session = Session::new(1, ProtocolPhase::DIUN, 1000);
    let mut accept = diun_connect(&config, &mut session, &connect).unwrap();
    // Strip the unprotected header that carries the service's key chain.
    accept.token.unprotected.entries.clear();
    let r = client_handle_accept(
        &state,
        &accept,
        HashType::Sha256,
        DiunTrustAnchor::Insecure(InsecureTrustAnyRoot::accept_that_any_root_is_trusted()),
    );
    assert_eq!(
        r.err().unwrap(),
        Error::Verification(VerificationError::MissingHeader)
    );
}

#[test]
fn broken_chain_links_are_rejected_even_in_insecure_mode() {
    // A chain whose leaf was not issued by the next certificate's key fails
    // the link walk, with or without a pinned root.
    let a = ec_pkey();
    let b = ec_pkey();
    let unrelated = ec_pkey();
    let leaf = make_cert(&unrelated, &a, "leaf");
    let root = make_cert(&b, &b, "root");
    let chain = X5Chain::new(vec![leaf, root]);
    assert!(chain
        .verify_without_root_verification(InsecureTrustAnyRoot::accept_that_any_root_is_trusted())
        .is_err());
}

#[test]
fn nonce_mismatch_is_rejected_before_the_payload_is_trusted() {
    let (connect, state) =
        client_begin_diun(KexSuite::Ecdh256, CipherSuite::A256Gcm).unwrap();
    let (config, _) = test_config();
    let mut session = Session::new(1, ProtocolPhase::DIUN, 1000);

    // The server answers a connect whose nonce is not the one this client
    // sent: the reply's protected header then echoes the wrong nonce.
    let other_connect = diun::Connect::new(
        Nonce::from_value(vec![0x99; 16]).unwrap(),
        KexSuite::Ecdh256,
        CipherSuite::A256Gcm,
        connect.key_exchange().to_vec(),
    );
    let accept = diun_connect(&config, &mut session, &other_connect).unwrap();

    let r = client_handle_accept(
        &state,
        &accept,
        HashType::Sha256,
        DiunTrustAnchor::Insecure(InsecureTrustAnyRoot::accept_that_any_root_is_trusted()),
    );
    assert_eq!(
        r.err().unwrap(),
        Error::Verification(VerificationError::NonceMismatch)
    );
}

#[test]
fn tampered_nonce_header_fails_the_signature() {
    let (connect, state) =
        client_begin_diun(KexSuite::Ecdh256, CipherSuite::A256Gcm).unwrap();
    let (config, _) = test_config();
    let mut session = Session::new(1, ProtocolPhase::DIUN, 1000);
    let mut accept = diun_connect(&config, &mut session, &connect).unwrap();

    // Flipping a byte of the protected nonce after signing breaks the
    // signature, so the reply is rejected before the nonce is even compared.
    for (key, value) in accept.token.protected.entries.iter_mut() {
        if *key == HeaderKeys::CUPHNonce {
            value[0] ^= 1;
        }
    }
    let r = client_handle_accept(
        &state,
        &accept,
        HashType::Sha256,
        DiunTrustAnchor::Insecure(InsecureTrustAnyRoot::accept_that_any_root_is_trusted()),
    );
    assert_eq!(
        r.err().unwrap(),
        Error::Verification(VerificationError::SignatureInvalid)
    );
}

#[test]
fn skipped_steps_are_a_protocol_violation() {
    // A session that has only completed the opening exchange receives the
    // key-providing message: the two parameter steps were skipped.
    let (connect, _state) =
        client_begin_diun(KexSuite::Ecdh256, CipherSuite::A256Gcm).unwrap();
    let (config, _) = test_config();
    let mut session = Session::new(1, ProtocolPhase::DIUN, 1000);
    diun_connect(&config, &mut session, &connect).unwrap();

    let device_key = ec_pkey();
    let pk = diun::ProvideKey::new(
        PublicKey::new(PublicKeyType::SECP256R1, device_key.public_key_to_der().unwrap()),
        None,
        None,
    );
    let r = diun_provide_key(&config, &mut session, &pk);
    assert_eq!(
        r.err().unwrap(),
        Error::Protocol(ProtocolViolation::OutOfOrder)
    );
    // The failed message did not move the session.
    assert_eq!(session.last_message, Some(MessageType::DIUNAccept));
}

#[test]
fn provide_key_policy_is_enforced() {
    let (connect, _state) =
        client_begin_diun(KexSuite::Ecdh256, CipherSuite::A256Gcm).unwrap();
    let (config, _) = test_config();
    let mut session = Session::new(1, ProtocolPhase::DIUN, 1000);
    diun_connect(&config, &mut session, &connect).unwrap();
    diun_request_key_parameters(&config, &mut session, &diun::RequestKeyParameters::new())
        .unwrap();

    // A key of the wrong type is refused; the session does not advance.
    let device_key = ec_pkey();
    let wrong_type = diun::ProvideKey::new(
        PublicKey::new(PublicKeyType::SECP384R1, device_key.public_key_to_der().unwrap()),
        None,
        None,
    );
    assert!(diun_provide_key(&config, &mut session, &wrong_type).is_err());

    // A storage kind outside the allowed list is refused.
    let wrong_storage = diun::ProvideKey::new(
        PublicKey::new(PublicKeyType::SECP256R1, device_key.public_key_to_der().unwrap()),
        Some(KeyStorageType::Tpm),
        None,
    );
    assert!(diun_provide_key(&config, &mut session, &wrong_storage).is_err());

    // The well-formed message still closes the phase.
    let good = diun::ProvideKey::new(
        PublicKey::new(PublicKeyType::SECP256R1, device_key.public_key_to_der().unwrap()),
        Some(KeyStorageType::FileSystem),
        None,
    );
    assert!(diun_provide_key(&config, &mut session, &good).is_ok());
}

#[test]
fn x5chain_roundtrip() {
    let a = ec_pkey();
    let b = ec_pkey();
    let leaf = make_cert(&b, &a, "leaf");
    let root = make_cert(&b, &b, "root");
    let chain = X5Chain::new(vec![leaf.clone(), root.clone()]);
    let encoded = chain.encode();
    let decoded = X5Chain::decode(&encoded).unwrap();
    assert_eq!(decoded.certs, vec![leaf, root]);
    assert!(X5Chain::decode(&encoded[..encoded.len() - 1]).is_err());
}
