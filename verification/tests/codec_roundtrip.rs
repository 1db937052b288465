//! Round-trip and rejection tests for the whole message catalogue: every
//! message type decodes its own encoding back to itself, and decoders reject
//! truncated or over-long inputs.

use fdo_engine::cose::{COSEHeaderMap, COSESign, HeaderKeys};
use fdo_engine::di;
use fdo_engine::diun;
use fdo_engine::to2;
use fdo_engine::types::{
    CborSimpleType, CipherSuite, DeviceSigType, Guid, HMac, HashType, KexSuite, KeyStorageType,
    MfgStringType, Nonce, PublicKey, PublicKeyType, ServiceInfo, SigInfo,
};

fn nonce(b: u8) -> Nonce {
    Nonce::from_value(vec![b; 16]).unwrap()
}

fn guid(b: u8) -> Guid {
    Guid::from_value(vec![b; 16]).unwrap()
}

fn hmac(b: u8) -> HMac {
    HMac::new(HashType::Sha256, vec![b; 32]).unwrap()
}

fn sample_cose() -> COSESign {
    let mut protected = COSEHeaderMap::new();
    protected.insert(HeaderKeys::CUPHNonce, vec![1, 2, 3]).unwrap();
    let mut unprotected = COSEHeaderMap::new();
    unprotected.insert(HeaderKeys::CUPHOwnerPubKey, vec![9, 9]).unwrap();
    COSESign {
        payload: vec![5, 6, 7, 8],
        protected,
        unprotected,
        signature: vec![0xaa; 20],
    }
}

fn assert_rejects_mangled<T, F: Fn(&[u8]) -> Option<T>>(encoded: &[u8], decode: F) {
    // Truncated inputs are rejected at every cut.
    for cut in 0..encoded.len() {
        assert!(decode(&encoded[..cut]).is_none(), "truncation at {} accepted", cut);
    }
    // Over-long input is rejected.
    let mut long = encoded.to_vec();
    long.push(0);
    assert!(decode(&long).is_none(), "trailing byte accepted");
}

#[test]
fn roundtrip_di_app_start() {
    for mfg_info in [
        CborSimpleType::Null,
        CborSimpleType::Bool(true),
        CborSimpleType::Unsigned(12345),
        CborSimpleType::Bytes(b"testdevice".to_vec()),
    ] {
        let m = di::AppStart::new(mfg_info);
        let e = m.encode();
        assert_eq!(di::AppStart::decode(&e).unwrap(), m);
        assert_rejects_mangled(&e, |b| di::AppStart::decode(b).ok());
    }
}

#[test]
fn roundtrip_di_set_credentials() {
    let m = di::SetCredentials::new(vec![1, 2, 3, 4, 5]);
    let e = m.encode();
    assert_eq!(di::SetCredentials::decode(&e).unwrap(), m);
    assert_rejects_mangled(&e, |b| di::SetCredentials::decode(b).ok());
}

#[test]
fn roundtrip_di_set_hmac() {
    let m = di::SetHMAC::new(hmac(7));
    let e = m.encode();
    assert_eq!(di::SetHMAC::decode(&e).unwrap(), m);
    assert_rejects_mangled(&e, |b| di::SetHMAC::decode(b).ok());
}

#[test]
fn roundtrip_di_done() {
    let m = di::Done::new();
    let e = m.encode();
    assert!(e.is_empty());
    assert_eq!(di::Done::decode(&e).unwrap(), m);
    assert!(di::Done::decode(&[0]).is_err());
}

#[test]
fn roundtrip_diun_connect() {
    let m = diun::Connect::new(nonce(1), KexSuite::Ecdh384, CipherSuite::A256Gcm, vec![4; 97]);
    let e = m.encode();
    assert_eq!(diun::Connect::decode(&e).unwrap(), m);
    assert_rejects_mangled(&e, |b| diun::Connect::decode(b).ok());
}

#[test]
fn roundtrip_diun_accept() {
    let m = diun::Accept::new(sample_cose());
    let e = m.encode();
    assert_eq!(diun::Accept::decode(&e).unwrap(), m);
    assert_rejects_mangled(&e, |b| diun::Accept::decode(b).ok());
}

#[test]
fn roundtrip_diun_accept_payload() {
    let m = diun::AcceptPayload::new(vec![1, 2, 3]);
    let e = m.encode();
    assert_eq!(diun::AcceptPayload::decode(&e).unwrap(), m);
    assert_rejects_mangled(&e, |b| diun::AcceptPayload::decode(b).ok());
}

#[test]
fn roundtrip_diun_request_key_parameters() {
    let m = diun::RequestKeyParameters::new();
    let e = m.encode();
    assert_eq!(diun::RequestKeyParameters::decode(&e).unwrap(), m);
    assert_rejects_mangled(&e, |b| diun::RequestKeyParameters::decode(b).ok());
    // The single boolean byte must be canonical: 2 is not a boolean.
    assert!(diun::RequestKeyParameters::decode(&[2]).is_err());
}

#[test]
fn roundtrip_diun_provide_key_parameters() {
    for m in [
        diun::ProvideKeyParameters::new(PublicKeyType::SECP384R1, None, None),
        diun::ProvideKeyParameters::new(
            PublicKeyType::SECP256R1,
            Some(vec![KeyStorageType::FileSystem, KeyStorageType::Tpm]),
            Some(vec![0xc; 16]),
        ),
    ] {
        let e = m.encode();
        assert_eq!(diun::ProvideKeyParameters::decode(&e).unwrap(), m);
        assert_rejects_mangled(&e, |b| diun::ProvideKeyParameters::decode(b).ok());
    }
}

#[test]
fn roundtrip_diun_provide_key() {
    for m in [
        diun::ProvideKey::new(PublicKey::new(PublicKeyType::SECP256R1, vec![3; 60]), None, None),
        diun::ProvideKey::new(
            PublicKey::new(PublicKeyType::SECP384R1, vec![4; 90]),
            Some(KeyStorageType::FileSystem),
            Some(vec![0xd; 8]),
        ),
    ] {
        let e = m.encode();
        assert_eq!(diun::ProvideKey::decode(&e).unwrap(), m);
        assert_rejects_mangled(&e, |b| diun::ProvideKey::decode(b).ok());
    }
}

#[test]
fn roundtrip_diun_done() {
    let m = diun::Done::new(MfgStringType::SerialNumber);
    let e = m.encode();
    assert_eq!(diun::Done::decode(&e).unwrap(), m);
    assert_rejects_mangled(&e, |b| diun::Done::decode(b).ok());
}

#[test]
fn roundtrip_to2_hello_device() {
    let m = to2::HelloDevice::new(
        guid(9),
        nonce(5),
        KexSuite::Ecdh256,
        CipherSuite::A128Gcm,
        SigInfo::new(DeviceSigType::ES384, vec![1, 2]),
    );
    let e = m.encode();
    assert_eq!(to2::HelloDevice::decode(&e).unwrap(), m);
    assert_rejects_mangled(&e, |b| to2::HelloDevice::decode(b).ok());
}

#[test]
fn roundtrip_to2_token_messages() {
    let t = sample_cose();
    let m = to2::ProveOVHdr::new(t.clone());
    let e = m.encode();
    assert_eq!(to2::ProveOVHdr::decode(&e).unwrap(), m);
    assert_rejects_mangled(&e, |b| to2::ProveOVHdr::decode(b).ok());

    let m = to2::ProveDevice::new(t.clone());
    let e = m.encode();
    assert_eq!(to2::ProveDevice::decode(&e).unwrap(), m);

    let m = to2::SetupDevice::new(t.clone());
    let e = m.encode();
    assert_eq!(to2::SetupDevice::decode(&e).unwrap(), m);
}

#[test]
fn roundtrip_to2_entry_messages() {
    let m = to2::GetOVNextEntry::new(3);
    let e = m.encode();
    assert_eq!(to2::GetOVNextEntry::decode(&e).unwrap(), m);
    assert_rejects_mangled(&e, |b| to2::GetOVNextEntry::decode(b).ok());

    let m = to2::OVNextEntry::new(700, sample_cose());
    let e = m.encode();
    assert_eq!(to2::OVNextEntry::decode(&e).unwrap(), m);
    assert_rejects_mangled(&e, |b| to2::OVNextEntry::decode(b).ok());
}

#[test]
fn roundtrip_to2_service_info_messages() {
    let m = to2::DeviceServiceInfoReady::new(Some(hmac(1)), Some(4096));
    let e = m.encode();
    assert_eq!(to2::DeviceServiceInfoReady::decode(&e).unwrap(), m);
    assert_rejects_mangled(&e, |b| to2::DeviceServiceInfoReady::decode(b).ok());

    let m = to2::DeviceServiceInfoReady::new(None, None);
    let e = m.encode();
    assert_eq!(to2::DeviceServiceInfoReady::decode(&e).unwrap(), m);

    let m = to2::OwnerServiceInfoReady::new(Some(1400));
    let e = m.encode();
    assert_eq!(to2::OwnerServiceInfoReady::decode(&e).unwrap(), m);
    assert_rejects_mangled(&e, |b| to2::OwnerServiceInfoReady::decode(b).ok());

    let m = to2::DeviceServiceInfo::new(true, ServiceInfo::new(vec![1, 2, 3]));
    let e = m.encode();
    assert_eq!(to2::DeviceServiceInfo::decode(&e).unwrap(), m);
    assert_rejects_mangled(&e, |b| to2::DeviceServiceInfo::decode(b).ok());

    let m = to2::OwnerServiceInfo::new(false, true, ServiceInfo::new(vec![]));
    let e = m.encode();
    assert_eq!(to2::OwnerServiceInfo::decode(&e).unwrap(), m);
    assert_rejects_mangled(&e, |b| to2::OwnerServiceInfo::decode(b).ok());
}

#[test]
fn roundtrip_to2_done_messages() {
    let m = to2::Done::new(nonce(6));
    let e = m.encode();
    assert_eq!(to2::Done::decode(&e).unwrap(), m);
    assert_rejects_mangled(&e, |b| to2::Done::decode(b).ok());

    let m = to2::Done2::new(nonce(7));
    let e = m.encode();
    assert_eq!(to2::Done2::decode(&e).unwrap(), m);
    assert_rejects_mangled(&e, |b| to2::Done2::decode(b).ok());
}

#[test]
fn header_map_refuses_duplicate_key() {
    let mut m = COSEHeaderMap::new();
    assert!(m.insert(HeaderKeys::CUPHNonce, vec![1]).is_ok());
    assert!(m.insert(HeaderKeys::CUPHNonce, vec![2]).is_err());
    assert_eq!(m.get(HeaderKeys::CUPHNonce).unwrap(), &vec![1u8]);
    assert!(m.get(HeaderKeys::CUPHOwnerPubKey).is_none());
}

#[test]
fn header_key_constants_are_reserved_negatives() {
    assert_eq!(HeaderKeys::CUPHNonce.value(), -17);
    assert_eq!(HeaderKeys::CUPHOwnerPubKey.value(), -18);
    assert_eq!(HeaderKeys::CUPHNonce.wire(), (-17i64) as u64);
    assert_eq!(HeaderKeys::CUPHOwnerPubKey.wire(), (-18i64) as u64);
}

#[test]
fn hash_and_nonce_widths_are_enforced() {
    assert!(Nonce::from_value(vec![0; 15]).is_err());
    assert!(Nonce::from_value(vec![0; 17]).is_err());
    assert!(HMac::new(HashType::Sha256, vec![0; 31]).is_err());
    assert!(HMac::new(HashType::Sha384, vec![0; 48]).is_ok());
    let h = fdo_engine::types::Hash::guess_new_from_data(vec![0; 32]).unwrap();
    assert_eq!(h.hash_type(), HashType::Sha256);
    let h = fdo_engine::types::Hash::guess_new_from_data(vec![0; 48]).unwrap();
    assert_eq!(h.hash_type(), HashType::Sha384);
    assert!(fdo_engine::types::Hash::guess_new_from_data(vec![0; 20]).is_err());
}
