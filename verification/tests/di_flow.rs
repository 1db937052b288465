//! The plain device-initialization flow against the server handlers: the
//! credential header round-trips through the wire message, the HMAC step
//! closes the phase, and a disabled phase or an out-of-order message is
//! refused.

use fdo_engine::constants::{MessageType, ProtocolPhase};
use fdo_engine::di;
use fdo_engine::errors::{ConfigurationError, Error};
use fdo_engine::handlers::{di_app_start, di_set_hmac, ServiceContext};
use fdo_engine::session::Session;
use fdo_engine::types::{CborSimpleType, HashType, PublicKey, PublicKeyType};
use fdo_engine::voucher::{compute_header_hmac, OwnershipVoucher, VoucherHeader};

fn test_ctx(enable_di: bool) -> ServiceContext {
    let group = openssl::ec::EcGroup::from_curve_name(openssl::nid::Nid::X9_62_PRIME256V1).unwrap();
    let ec = openssl::ec::EcKey::generate(&group).unwrap();
    let pkey = openssl::pkey::PKey::from_ec_key(ec).unwrap();
    ServiceContext {
        enable_di,
        diun_configuration: None,
        manufacturer_public_key: PublicKey::new(
            PublicKeyType::SECP256R1,
            pkey.public_key_to_der().unwrap(),
        ),
    }
}

#[test]
fn di_flow_builds_a_usable_credential() {
    let ctx = test_ctx(true);
    let mut session = Session::new(1, ProtocolPhase::DI, 1000);

    let app_start = di::AppStart::new(CborSimpleType::Bytes(b"testdevice".to_vec()));
    let app_start = di::AppStart::decode(&app_start.encode()).unwrap();
    let set_credentials = di_app_start(&ctx, &mut session, &app_start).unwrap();
    assert_eq!(session.last_message, Some(MessageType::DISetCredentials));

    // The device decodes the credential header it was handed, computes its
    // HMAC over it, and sends the HMAC back.
    let device_secret = vec![0x21u8; 32];
    let (set_hmac, header) = fdo_engine::client::client_build_set_hmac(
        HashType::Sha256,
        &device_secret,
        &set_credentials,
    )
    .unwrap();
    assert_eq!(header.manufacturer_public_key, ctx.manufacturer_public_key);
    let set_hmac = di::SetHMAC::decode(&set_hmac.encode()).unwrap();
    let _done = di_set_hmac(&ctx, &mut session, &set_hmac).unwrap();
    assert_eq!(session.last_message, Some(MessageType::DIDone));

    // The voucher assembled from header and HMAC accepts the device's own
    // recomputation and rejects another key's.
    let voucher = OwnershipVoucher::new(
        HashType::Sha256,
        header,
        compute_header_hmac(HashType::Sha256, &device_secret, &VoucherHeader::decode(
            set_credentials.ov_header(),
        )
        .unwrap())
        .unwrap(),
    );
    let recomputed =
        compute_header_hmac(HashType::Sha256, &device_secret, &voucher.header).unwrap();
    assert!(voucher.verify_device_hmac(&recomputed));
}

#[test]
fn di_disabled_is_a_configuration_error() {
    let ctx = test_ctx(false);
    let mut session = Session::new(1, ProtocolPhase::DI, 1000);
    let app_start = di::AppStart::new(CborSimpleType::Null);
    let r = di_app_start(&ctx, &mut session, &app_start);
    assert_eq!(
        r.err().unwrap(),
        Error::Configuration(ConfigurationError::PhaseDisabled)
    );
}

#[test]
fn di_out_of_order_is_rejected() {
    let ctx = test_ctx(true);
    let mut session = Session::new(1, ProtocolPhase::DI, 1000);
    // The HMAC message arrives before the phase was opened.
    let hmac = fdo_engine::types::HMac::new(HashType::Sha256, vec![0; 32]).unwrap();
    let r = di_set_hmac(&ctx, &mut session, &di::SetHMAC::new(hmac));
    assert!(r.is_err());
    assert_eq!(session.last_message, None);
}
