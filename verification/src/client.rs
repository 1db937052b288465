//! Device-side steps of the manufacturer-trust bootstrap.
//!
//! The device opens with a fresh nonce and ephemeral key material, and on
//! the service's signed acceptance: extracts the service's certificate
//! chain, validates it against the chosen trust anchor, verifies the
//! signature under the chain's leaf key, checks — before trusting anything
//! else in the reply — that the signed protected header echoes the very
//! nonce this session sent, and only then derives the directional session
//! keys from the acceptance payload.

use vstd::prelude::*;

use crate::cose::{spec_cose_verifies, spec_map_get, HeaderKeys};
use crate::crypto::{cert_public_key_of, digest_of, shared_secret_of};
use crate::diun::{spec_decode_accept_payload, Accept, AcceptPayload, Connect};
use crate::errors::{DecodeError, Error, VerificationError};
use crate::kex::{spec_session_keys, KeyExchange, SessionKeys};
use crate::types::{bytes_equal, CipherSuite, HashType, KexSuite, KeyDeriveSide, Nonce};
use crate::voucher::{
    spec_decode_x5chain, spec_x5chain_links_valid, InsecureTrustAnyRoot, X5Chain,
};

verus! {

/// What the device remembers between sending its proposal and reading the
/// acceptance: the nonce it challenged with and its ephemeral key material.
pub struct DiunClientState {
    pub nonce: Nonce,
    pub kex: KeyExchange,
    pub kex_suite: KexSuite,
    pub cipher_suite: CipherSuite,
}

/// How the device roots its trust in the service's certificate chain:
/// against a pinned digest of the root, or — only under the loud opt-in —
/// trusting whatever root the chain ends in.
pub enum DiunTrustAnchor {
    PinnedDigest(crate::types::Hash),
    Insecure(InsecureTrustAnyRoot),
}

/// What a verified acceptance yields: the directional keys and the service
/// key the signature was verified under.
pub struct DiunAcceptOutcome {
    pub keys: SessionKeys,
    pub server_public_key: Vec<u8>,
}

/// Opens the bootstrap: draws the nonce challenge, generates ephemeral
/// key-exchange material, and builds the proposal carrying both.
pub fn client_begin_diun(kex_suite: KexSuite, cipher_suite: CipherSuite) -> (r: Result<
    (Connect, DiunClientState),
    Error,
>)
    ensures
        r matches Ok(p) ==> {
            &&& p.1.kex.wf()
            &&& p.1.nonce.wf()
            &&& p.1.kex_suite == kex_suite
            &&& p.1.cipher_suite == cipher_suite
            &&& p.0@.nonce_diun_1 == p.1.nonce@
            &&& p.0@.kex_suite == kex_suite
            &&& p.0@.cipher_suite == cipher_suite
            &&& p.0@.key_exchange == p.1.kex.public_value@
            &&& p.0@.wf()
        },
{
    let nonce_bytes = match crate::crypto::random_bytes(16) {
        Ok(b) => b,
        Err(e) => {
            return Err(Error::Crypto(e));
        },
    };
    let nonce = Nonce { value: nonce_bytes };
    let kex = match KeyExchange::new(kex_suite) {
        Ok(k) => k,
        Err(e) => {
            return Err(Error::Crypto(e));
        },
    };
    let nonce_for_msg = Nonce {
        value: crate::codec::copy_range(nonce.value.as_slice(), 0, nonce.value.len()),
    };
    let public_copy = crate::codec::copy_range(kex.get_public(), 0, kex.public_value.len());
    let connect = Connect::new(nonce_for_msg, kex_suite, cipher_suite, public_copy);
    proof {
        assert(connect@.nonce_diun_1 =~= nonce@);
    }
    Ok((connect, DiunClientState { nonce, kex, kex_suite, cipher_suite }))
}

/// Consumes the service's acceptance. Fail closed at every step: a missing
/// or unparseable key chain, a chain that does not meet the trust anchor, a
/// signature that does not verify under the chain's leaf key, a protected
/// header that does not echo this session's nonce, or an unparseable payload
/// each abort the handshake, in that order; nothing from the reply is used
/// before the check that vouches for it has passed. Only when everything
/// holds are the directional keys derived from the acceptance payload.
pub fn client_handle_accept(
    state: &DiunClientState,
    accept: &Accept,
    sig_alg: HashType,
    trust: DiunTrustAnchor,
) -> (r: Result<DiunAcceptOutcome, Error>)
    ensures
        r matches Ok(o) ==> {
            &&& spec_map_get(accept@.token.unprotected, HeaderKeys::CUPHOwnerPubKey) is Some
            &&& spec_decode_x5chain(
                spec_map_get(accept@.token.unprotected, HeaderKeys::CUPHOwnerPubKey)->Some_0,
            ) is Some
            &&& {
                let certs = spec_decode_x5chain(
                    spec_map_get(accept@.token.unprotected, HeaderKeys::CUPHOwnerPubKey)->Some_0,
                )->Some_0;
                &&& certs.len() > 0
                &&& spec_x5chain_links_valid(certs)
                &&& o.server_public_key@ == cert_public_key_of(certs[0])
                &&& (trust matches DiunTrustAnchor::PinnedDigest(h) ==> digest_of(
                    h@.alg,
                    certs.last(),
                ) == h@.value)
            }
            &&& spec_cose_verifies(accept@.token, sig_alg, o.server_public_key@)
            &&& spec_map_get(accept@.token.protected, HeaderKeys::CUPHNonce) == Some(state.nonce@)
            &&& spec_decode_accept_payload(accept@.token.payload) is Some
            &&& o.keys@ == spec_session_keys(
                state.cipher_suite,
                shared_secret_of(
                    state.kex.private_key_der@,
                    spec_decode_accept_payload(accept@.token.payload)->Some_0.key_exchange,
                ),
                KeyDeriveSide::Device,
            )
        },
        r == Err::<DiunAcceptOutcome, Error>(
            Error::Verification(VerificationError::NonceMismatch),
        ) ==> (spec_map_get(accept@.token.protected, HeaderKeys::CUPHNonce) matches Some(echoed)
            && echoed != state.nonce@),
        r == Err::<DiunAcceptOutcome, Error>(
            Error::Verification(VerificationError::MissingHeader),
        ) ==> (spec_map_get(accept@.token.unprotected, HeaderKeys::CUPHOwnerPubKey) is None
            || spec_map_get(accept@.token.protected, HeaderKeys::CUPHNonce) is None),
        r == Err::<DiunAcceptOutcome, Error>(
            Error::Verification(VerificationError::ChainInvalid),
        ) ==> {
            let hv = spec_map_get(accept@.token.unprotected, HeaderKeys::CUPHOwnerPubKey);
            &&& hv is Some
            &&& spec_decode_x5chain(hv->Some_0) is Some
            &&& !({
                let certs = spec_decode_x5chain(hv->Some_0)->Some_0;
                &&& certs.len() > 0
                &&& spec_x5chain_links_valid(certs)
                &&& (trust matches DiunTrustAnchor::PinnedDigest(h) ==> digest_of(
                    h@.alg,
                    certs.last(),
                ) == h@.value)
            })
        },
{
    let chain_bytes = match accept.token.get_unprotected_value(HeaderKeys::CUPHOwnerPubKey) {
        Some(b) => b,
        None => {
            return Err(Error::Verification(VerificationError::MissingHeader));
        },
    };
    let chain = match X5Chain::decode(chain_bytes.as_slice()) {
        Ok(c) => c,
        Err(e) => {
            return Err(Error::Decode(e));
        },
    };
    let server_public_key = match trust {
        DiunTrustAnchor::PinnedDigest(h) => {
            match chain.verify_from_digest(&h) {
                Ok(k) => k,
                Err(e) => {
                    return Err(e);
                },
            }
        },
        DiunTrustAnchor::Insecure(opt_in) => {
            match chain.verify_without_root_verification(opt_in) {
                Ok(k) => k,
                Err(e) => {
                    return Err(e);
                },
            }
        },
    };
    let echoed = match accept.token.get_protected_value(
        HeaderKeys::CUPHNonce,
        sig_alg,
        server_public_key.as_slice(),
    ) {
        Ok(Some(v)) => v,
        Ok(None) => {
            return Err(Error::Verification(VerificationError::MissingHeader));
        },
        Err(_) => {
            return Err(Error::Verification(VerificationError::SignatureInvalid));
        },
    };
    if !bytes_equal(echoed.as_slice(), state.nonce.value.as_slice()) {
        return Err(Error::Verification(VerificationError::NonceMismatch));
    }
    let payload = match accept.token.get_payload(sig_alg, server_public_key.as_slice()) {
        Ok(p) => p,
        Err(_) => {
            return Err(Error::Verification(VerificationError::SignatureInvalid));
        },
    };
    let accept_payload = match AcceptPayload::decode(payload.as_slice()) {
        Ok(p) => p,
        Err(_) => {
            return Err(Error::Verification(VerificationError::MalformedPayload));
        },
    };
    let keys = match state.kex.derive_key(
        KeyDeriveSide::Device,
        state.cipher_suite,
        accept_payload.key_exchange(),
    ) {
        Ok(k) => k,
        Err(e) => {
            return Err(Error::Crypto(e));
        },
    };
    Ok(DiunAcceptOutcome { keys, server_public_key })
}

/// Builds the device's answer to the service's key parameters: a fresh key
/// of the requested type, kept in the first allowed storage kind. This
/// device holds its keys in ordinary storage and offers no attestation, so a
/// challenge from the service ends the handshake rather than being answered
/// with something the device cannot back.
pub fn client_build_provide_key(params: &crate::diun::ProvideKeyParameters) -> (r: Result<
    (crate::diun::ProvideKey, Vec<u8>),
    Error,
>)
    ensures
        match r {
            Ok(p) => {
                &&& params@.attestation_challenge is None
                &&& p.0@.public_key.key_type == params@.public_key_type
                &&& p.0@.public_key.body == crate::crypto::public_key_of(p.1@)
                &&& p.0@.attestation_response is None
                &&& p.0@.public_key_storage == (match params@.public_key_storage_allowed {
                    Some(l) => if l.len() > 0 {
                        Some(l[0])
                    } else {
                        None
                    },
                    None => None,
                })
            },
            Err(_) => true,
        },
        params@.attestation_challenge is Some ==> r is Err,
{
    if params.attestation_challenge.is_some() {
        return Err(Error::Crypto(crate::errors::CryptoError::UnsupportedSuite));
    }
    let curve = match params.public_key_type {
        crate::types::PublicKeyType::SECP256R1 => KexSuite::Ecdh256,
        crate::types::PublicKeyType::SECP384R1 => KexSuite::Ecdh384,
    };
    let (private_der, public_der) = match crate::crypto::generate_key_pair(curve) {
        Ok(p) => p,
        Err(e) => {
            return Err(Error::Crypto(e));
        },
    };
    let storage = match &params.public_key_storage_allowed {
        Some(l) => {
            if l.len() > 0 {
                Some(l[0])
            } else {
                None
            }
        },
        None => None,
    };
    let pk = crate::diun::ProvideKey::new(
        crate::types::PublicKey::new(params.public_key_type, public_der),
        storage,
        None,
    );
    Ok((pk, private_der))
}

/// The device side of plain initialization's closing step: decodes the
/// credential header it was handed, computes its HMAC over that header keyed
/// by the device secret, and builds the message that reports it. The header
/// comes back too: the device keeps it as its credential.
pub fn client_build_set_hmac(
    alg: HashType,
    device_secret: &[u8],
    set_credentials: &crate::di::SetCredentials,
) -> (r: Result<(crate::di::SetHMAC, crate::voucher::VoucherHeader), Error>)
    ensures
        match r {
            Ok(p) => {
                &&& crate::voucher::spec_decode_voucher_header(set_credentials@.ov_header)
                    == Some(p.1@)
                &&& p.0@.hmac.alg == alg
                &&& p.0@.hmac.value == crate::crypto::hmac_of(
                    alg,
                    device_secret@,
                    crate::voucher::spec_encode_voucher_header(p.1@),
                )
            },
            Err(_) => true,
        },
        crate::voucher::spec_decode_voucher_header(set_credentials@.ov_header) is None ==> r
            is Err,
{
    let header = match crate::voucher::VoucherHeader::decode(set_credentials.ov_header()) {
        Ok(h) => h,
        Err(e) => {
            return Err(Error::Decode(e));
        },
    };
    let hmac = match crate::voucher::compute_header_hmac(alg, device_secret, &header) {
        Ok(h) => h,
        Err(e) => {
            return Err(e);
        },
    };
    Ok((crate::di::SetHMAC::new(hmac), header))
}

// ---------------------------------------------------------------------------
// parsing a pinned trust-anchor digest from its textual form
// ---------------------------------------------------------------------------

/// Whether the character names a hexadecimal digit, in either case.
pub open spec fn spec_is_hex_digit(c: char) -> bool {
    ('0' <= c && c <= '9') || ('a' <= c && c <= 'f') || ('A' <= c && c <= 'F')
}

/// The value of one hexadecimal digit.
pub open spec fn spec_hex_val(c: char) -> u8
    recommends
        spec_is_hex_digit(c),
{
    if '0' <= c && c <= '9' {
        (c as u8 - 48) as u8
    } else if 'a' <= c && c <= 'f' {
        (c as u8 - 97 + 10) as u8
    } else {
        (c as u8 - 65 + 10) as u8
    }
}

/// The bytes named by a string of hexadecimal digit pairs, high digit first.
pub open spec fn spec_hex_bytes(s: Seq<char>) -> Seq<u8>
    decreases s.len(),
{
    if s.len() < 2 {
        Seq::<u8>::empty()
    } else {
        seq![(spec_hex_val(s[0]) * 16 + spec_hex_val(s[1])) as u8] + spec_hex_bytes(s.skip(2))
    }
}

/// Whether the whole string is a well-formed hexadecimal byte string.
pub open spec fn spec_is_hex_string(s: Seq<char>) -> bool {
    &&& s.len() % 2 == 0
    &&& forall|i: int| 0 <= i < s.len() ==> spec_is_hex_digit(#[trigger] s[i])
}

/// Relies on hex::decode: succeeds exactly on strings of hex-digit pairs,
/// upper or lower case, and yields the named bytes, high digit of each pair
/// first.
#[verifier::external_body]
fn hex_decode_str(s: &str) -> (r: Result<Vec<u8>, Error>)
    ensures
        r matches Ok(v) ==> spec_is_hex_string(s@) && v@ == spec_hex_bytes(s@),
        r is Err ==> !spec_is_hex_string(s@),
{
    hex::decode(s).map_err(|_| Error::Decode(DecodeError::BadTag))
}

/// Parses the pinned trust-anchor digest from its textual form: the hex
/// string must name exactly one digest of a supported width, whose algorithm
/// the width tells.
pub fn parse_pub_key_hash(s: &str) -> (r: Result<crate::types::Hash, Error>)
    ensures
        match r {
            Ok(h) => {
                &&& spec_is_hex_string(s@)
                &&& h@.value == spec_hex_bytes(s@)
                &&& h.wf()
            },
            Err(_) => !spec_is_hex_string(s@) || (spec_hex_bytes(s@).len() != 32
                && spec_hex_bytes(s@).len() != 48),
        },
{
    let bytes = match hex_decode_str(s) {
        Ok(b) => b,
        Err(e) => {
            return Err(e);
        },
    };
    match crate::types::Hash::guess_new_from_data(bytes) {
        Ok(h) => Ok(h),
        Err(e) => Err(Error::Decode(e)),
    }
}

} // verus!
