//! The cryptographic backend boundary: every call into OpenSSL the engine
//! makes goes through one of the trusted wrappers here, and nothing else in
//! the library is trusted.
//!
//! Results that are functions of their arguments alone (digests, HMACs,
//! signature verification, public-key extraction, shared-secret agreement)
//! are given uninterpreted names; the wrappers' contracts speak only through
//! those names plus the output widths the backend documents. Results that
//! depend on randomness (key generation, nonces, signing) promise only what
//! holds of every outcome.

use vstd::prelude::*;

use crate::errors::CryptoError;
use crate::types::{HashType, KexSuite};

verus! {

/// The digest of `data` under the named algorithm.
pub uninterp spec fn digest_of(alg: HashType, data: Seq<u8>) -> Seq<u8>;

/// The keyed digest of `data` under `key` and the named algorithm.
pub uninterp spec fn hmac_of(alg: HashType, key: Seq<u8>, data: Seq<u8>) -> Seq<u8>;

/// Whether `sig` is a valid signature over `data` under the public key
/// given in its standard encoded form, hashing with `alg`.
pub uninterp spec fn signature_verifies(
    alg: HashType,
    public_key_der: Seq<u8>,
    data: Seq<u8>,
    sig: Seq<u8>,
) -> bool;

/// The encoded public half of an encoded private key.
pub uninterp spec fn public_key_of(private_key_der: Seq<u8>) -> Seq<u8>;

/// The shared secret agreed between a private key and a peer public key.
pub uninterp spec fn shared_secret_of(private_key_der: Seq<u8>, peer_public_der: Seq<u8>) -> Seq<
    u8,
>;

/// The encoded public key inside a certificate.
pub uninterp spec fn cert_public_key_of(cert_der: Seq<u8>) -> Seq<u8>;

/// Whether the certificate's signature validates under the given public key.
pub uninterp spec fn cert_signed_by(cert_der: Seq<u8>, public_key_der: Seq<u8>) -> bool;

/// Relies on openssl::hash::hash: the digest depends on the algorithm and
/// the data alone, and its width is the algorithm's documented digest width.
#[verifier::external_body]
pub fn compute_digest(alg: HashType, data: &[u8]) -> (r: Result<Vec<u8>, CryptoError>)
    ensures
        r matches Ok(v) ==> v@ == digest_of(alg, data@) && v@.len() == alg.spec_digest_len(),
{
    let md = match alg {
        HashType::Sha256 => openssl::hash::MessageDigest::sha256(),
        HashType::Sha384 => openssl::hash::MessageDigest::sha384(),
    };
    match openssl::hash::hash(md, data) {
        Ok(d) => Ok(d.to_vec()),
        Err(_) => Err(CryptoError::Backend),
    }
}

/// Relies on openssl::pkey::PKey::hmac and openssl::sign::Signer: the keyed
/// digest depends on the algorithm, key and data alone, and has the
/// algorithm's documented digest width. The backend asserts that the key
/// length fits its C integer type, so longer keys are excluded here rather
/// than left to panic.
#[verifier::external_body]
pub fn compute_hmac(alg: HashType, key: &[u8], data: &[u8]) -> (r: Result<Vec<u8>, CryptoError>)
    requires
        key@.len() <= 0x7fff_ffff,
    ensures
        r matches Ok(v) ==> v@ == hmac_of(alg, key@, data@) && v@.len() == alg.spec_digest_len(),
{
    let md = match alg {
        HashType::Sha256 => openssl::hash::MessageDigest::sha256(),
        HashType::Sha384 => openssl::hash::MessageDigest::sha384(),
    };
    let pkey = openssl::pkey::PKey::hmac(key).map_err(|_| CryptoError::Backend)?;
    let mut signer = openssl::sign::Signer::new(md, &pkey).map_err(|_| CryptoError::Backend)?;
    signer.sign_oneshot_to_vec(data).map_err(|_| CryptoError::Backend)
}

/// Relies on openssl::rand::rand_bytes: fills the buffer from the
/// cryptographic generator. Nothing is promised of the value, only its
/// width. The backend asserts that the width fits its C integer type, so
/// larger requests are excluded here rather than left to panic.
#[verifier::external_body]
pub fn random_bytes(n: usize) -> (r: Result<Vec<u8>, CryptoError>)
    requires
        n <= 0x7fff_ffff,
    ensures
        r matches Ok(v) ==> v@.len() == n,
{
    let mut buf = vec![0u8; n];
    match openssl::rand::rand_bytes(&mut buf) {
        Ok(()) => Ok(buf),
        Err(_) => Err(CryptoError::Backend),
    }
}

/// Relies on openssl::ec::EcKey::generate and the DER serializers of
/// openssl::pkey::PKey: a fresh ephemeral key pair on the suite's curve.
/// The pair is random; what is promised is that the returned public half is
/// the public half of the returned private half.
#[verifier::external_body]
pub fn generate_key_pair(suite: KexSuite) -> (r: Result<(Vec<u8>, Vec<u8>), CryptoError>)
    ensures
        r matches Ok(p) ==> p.1@ == public_key_of(p.0@),
{
    let nid = match suite {
        KexSuite::Ecdh256 => openssl::nid::Nid::X9_62_PRIME256V1,
        KexSuite::Ecdh384 => openssl::nid::Nid::SECP384R1,
    };
    let group = openssl::ec::EcGroup::from_curve_name(nid).map_err(|_| CryptoError::Backend)?;
    let ec = openssl::ec::EcKey::generate(&group).map_err(|_| CryptoError::Backend)?;
    let pkey = openssl::pkey::PKey::from_ec_key(ec).map_err(|_| CryptoError::Backend)?;
    let priv_der = pkey.private_key_to_der().map_err(|_| CryptoError::Backend)?;
    let pub_der = pkey.public_key_to_der().map_err(|_| CryptoError::Backend)?;
    Ok((priv_der, pub_der))
}

/// Relies on openssl::pkey::PKey::private_key_from_der and
/// public_key_to_der: the public half of a private key is a function of the
/// private key alone.
#[verifier::external_body]
pub fn derive_public_key(private_key_der: &[u8]) -> (r: Result<Vec<u8>, CryptoError>)
    ensures
        r matches Ok(v) ==> v@ == public_key_of(private_key_der@),
{
    let pkey = openssl::pkey::PKey::private_key_from_der(private_key_der).map_err(
        |_| CryptoError::MalformedInput,
    )?;
    pkey.public_key_to_der().map_err(|_| CryptoError::Backend)
}

/// Relies on openssl::derive::Deriver: the agreed secret is a function of
/// the local private key and the peer public key alone. A malformed peer
/// value is reported, never misread.
#[verifier::external_body]
pub fn derive_shared_secret(private_key_der: &[u8], peer_public_der: &[u8]) -> (r: Result<
    Vec<u8>,
    CryptoError,
>)
    ensures
        r matches Ok(v) ==> v@ == shared_secret_of(private_key_der@, peer_public_der@),
{
    let pkey = openssl::pkey::PKey::private_key_from_der(private_key_der).map_err(
        |_| CryptoError::MalformedInput,
    )?;
    let peer = openssl::pkey::PKey::public_key_from_der(peer_public_der).map_err(
        |_| CryptoError::MalformedInput,
    )?;
    let mut deriver = openssl::derive::Deriver::new(&pkey).map_err(|_| CryptoError::Backend)?;
    deriver.set_peer(&peer).map_err(|_| CryptoError::MalformedInput)?;
    deriver.derive_to_vec().map_err(|_| CryptoError::Backend)
}

/// Relies on openssl::sign::Signer over an EC private key: signing may draw
/// randomness, so the signature value is not pinned; what every outcome
/// satisfies is that it verifies over the signed data under the signer's
/// public half.
#[verifier::external_body]
pub fn sign_data(alg: HashType, private_key_der: &[u8], data: &[u8]) -> (r: Result<
    Vec<u8>,
    CryptoError,
>)
    ensures
        r matches Ok(sig) ==> signature_verifies(
            alg,
            public_key_of(private_key_der@),
            data@,
            sig@,
        ),
{
    let md = match alg {
        HashType::Sha256 => openssl::hash::MessageDigest::sha256(),
        HashType::Sha384 => openssl::hash::MessageDigest::sha384(),
    };
    let pkey = openssl::pkey::PKey::private_key_from_der(private_key_der).map_err(
        |_| CryptoError::MalformedInput,
    )?;
    let mut signer = openssl::sign::Signer::new(md, &pkey).map_err(|_| CryptoError::Backend)?;
    signer.sign_oneshot_to_vec(data).map_err(|_| CryptoError::Backend)
}

/// Relies on openssl::sign::Verifier: whether a signature verifies is a
/// function of the key, the data and the signature; verification never
/// draws randomness. Fail closed: a key or signature the backend cannot even
/// interpret verifies nothing.
#[verifier::external_body]
pub fn verify_signature(alg: HashType, public_key_der: &[u8], data: &[u8], sig: &[u8]) -> (r:
    bool)
    ensures
        r == signature_verifies(alg, public_key_der@, data@, sig@),
{
    let md = match alg {
        HashType::Sha256 => openssl::hash::MessageDigest::sha256(),
        HashType::Sha384 => openssl::hash::MessageDigest::sha384(),
    };
    let pkey = match openssl::pkey::PKey::public_key_from_der(public_key_der) {
        Ok(k) => k,
        Err(_) => return false,
    };
    let mut verifier = match openssl::sign::Verifier::new(md, &pkey) {
        Ok(v) => v,
        Err(_) => return false,
    };
    verifier.verify_oneshot(sig, data).unwrap_or(false)
}

/// Relies on openssl::x509::X509::from_der and public_key: the key inside a
/// certificate is a function of the certificate bytes. Bytes the backend
/// cannot read as a certificate hold no key; the extraction is empty for
/// them, and verifying anything under an empty key fails.
#[verifier::external_body]
pub fn extract_cert_public_key(cert_der: &[u8]) -> (r: Vec<u8>)
    ensures
        r@ == cert_public_key_of(cert_der@),
{
    let cert = match openssl::x509::X509::from_der(cert_der) {
        Ok(c) => c,
        Err(_) => return Vec::new(),
    };
    let pkey = match cert.public_key() {
        Ok(k) => k,
        Err(_) => return Vec::new(),
    };
    pkey.public_key_to_der().unwrap_or_else(|_| Vec::new())
}

/// Relies on openssl::x509::X509::verify: whether a certificate's own
/// signature validates under a key is a function of the certificate and the
/// key. Fail closed: bytes the backend cannot interpret validate nothing.
#[verifier::external_body]
pub fn verify_cert_signed_by(cert_der: &[u8], public_key_der: &[u8]) -> (r: bool)
    ensures
        r == cert_signed_by(cert_der@, public_key_der@),
{
    let cert = match openssl::x509::X509::from_der(cert_der) {
        Ok(c) => c,
        Err(_) => return false,
    };
    let pkey = match openssl::pkey::PKey::public_key_from_der(public_key_der) {
        Ok(k) => k,
        Err(_) => return false,
    };
    cert.verify(&pkey).unwrap_or(false)
}

} // verus!
