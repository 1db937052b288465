//! Server-side handlers for the initialization phases: the per-message
//! decision logic between the transport binding and the session manager.
//!
//! Each handler checks the ordering of the inbound message against the
//! leased session before touching its payload, performs the phase's
//! cryptographic step, records both the inbound message and its own reply as
//! the session's new position, and hands a fully formed reply back. A
//! handler either returns a valid next message plus the updated session, or
//! an error with the session untouched — the caller then discards the
//! session as unusable.

use vstd::prelude::*;

use crate::constants::MessageType;
use crate::cose::{spec_cose_verifies, spec_map_get, COSEHeaderMap, HeaderKeys};
use crate::crypto::{public_key_of, random_bytes, shared_secret_of};
use crate::diun::{
    spec_decode_accept_payload, Accept, AcceptPayload, Connect, ProvideKey, ProvideKeyParameters,
    RequestKeyParameters,
};
use crate::errors::{ConfigurationError, CryptoError, Error, VerificationError};
use crate::kex::{spec_session_keys, KeyExchange};
use crate::session::{spec_accepts, Session};
use crate::types::{
    Guid, HashType, KeyDeriveSide, KeyStorageType, MfgStringType, PublicKey, PublicKeyType,
};
use crate::voucher::{spec_decode_voucher_header, VoucherHeader};

verus! {

/// The trust material and policy of the manufacturer-trust bootstrap,
/// assembled at startup; a phase without its signing key never starts.
pub struct DiunConfiguration {
    /// Whether devices must answer an attestation challenge.
    pub requires_attestation: bool,
    /// The storage kinds a device may keep its key in.
    pub allowed_key_types: Vec<KeyStorageType>,
    /// The key type the service asks devices to generate.
    pub key_type: PublicKeyType,
    /// How the device is told to compose its manufacturing string.
    pub mfg_string_type: MfgStringType,
    /// The digest algorithm the service signs with.
    pub alg: HashType,
    /// The service's signing key, in its standard encoded form.
    pub diun_key: Vec<u8>,
    /// The public half of the signing key.
    pub diun_key_public: Vec<u8>,
    /// The encoded certificate chain carried in the acceptance's unprotected
    /// header.
    pub public_key_chain: Vec<u8>,
}

impl DiunConfiguration {
    /// The stored public half belongs to the stored signing key.
    pub open spec fn wf(self) -> bool {
        self.diun_key_public@ == public_key_of(self.diun_key@)
    }

    /// Builds the configuration from already-parsed values, deriving the
    /// public half of the signing key. A key the backend cannot read is a
    /// startup failure for the phase, not a per-request one.
    pub fn new(
        requires_attestation: bool,
        allowed_key_types: Vec<KeyStorageType>,
        key_type: PublicKeyType,
        mfg_string_type: MfgStringType,
        alg: HashType,
        diun_key: Vec<u8>,
        public_key_chain: Vec<u8>,
    ) -> (r: Result<DiunConfiguration, Error>)
        ensures
            r matches Ok(c) ==> {
                &&& c.wf()
                &&& c.requires_attestation == requires_attestation
                &&& c.allowed_key_types@ == allowed_key_types@
                &&& c.key_type == key_type
                &&& c.mfg_string_type == mfg_string_type
                &&& c.alg == alg
                &&& c.diun_key@ == diun_key@
                &&& c.public_key_chain@ == public_key_chain@
            },
    {
        let diun_key_public = match crate::crypto::derive_public_key(diun_key.as_slice()) {
            Ok(p) => p,
            Err(_) => {
                return Err(Error::Configuration(ConfigurationError::MissingSigningKey));
            },
        };
        Ok(
            DiunConfiguration {
                requires_attestation,
                allowed_key_types,
                key_type,
                mfg_string_type,
                alg,
                diun_key,
                diun_key_public,
                public_key_chain,
            },
        )
    }
}

/// The context every handler runs against: constructed once at startup and
/// passed by shared reference, never ambient.
pub struct ServiceContext {
    /// Whether plain device initialization is enabled.
    pub enable_di: bool,
    /// The bootstrap configuration, when that phase is enabled.
    pub diun_configuration: Option<DiunConfiguration>,
    /// The manufacturer key written into fresh voucher headers.
    pub manufacturer_public_key: PublicKey,
}

/// A bootstrap message on a server without the bootstrap configured is a
/// configuration failure, detected before any payload is touched.
pub fn fail_if_no_diun(ctx: &ServiceContext) -> (r: Result<&DiunConfiguration, Error>)
    ensures
        match r {
            Ok(c) => ctx.diun_configuration == Some(*c),
            Err(e) => ctx.diun_configuration is None && e == Error::Configuration(
                ConfigurationError::PhaseDisabled,
            ),
        },
{
    match &ctx.diun_configuration {
        Some(c) => Ok(c),
        None => Err(Error::Configuration(ConfigurationError::PhaseDisabled)),
    }
}

/// Byte copy of a vector.
fn clone_bytes(v: &Vec<u8>) -> (r: Vec<u8>)
    ensures
        r@ == v@,
{
    crate::codec::copy_range(v.as_slice(), 0, v.len())
}

/// Copy of a storage-kind list.
fn clone_storage_list(v: &Vec<KeyStorageType>) -> (r: Vec<KeyStorageType>)
    ensures
        r@ == v@,
{
    let mut r: Vec<KeyStorageType> = Vec::new();
    let mut i: usize = 0;
    while i < v.len()
        invariant
            i <= v@.len(),
            r@ == v@.take(i as int),
        decreases v@.len() - i,
    {
        r.push(v[i]);
        proof {
            assert(r@ =~= v@.take(i as int + 1));
        }
        i = i + 1;
    }
    proof {
        assert(v@.take(v@.len() as int) =~= v@);
    }
    r
}

/// Whether the list holds the given storage kind.
fn storage_list_contains(v: &Vec<KeyStorageType>, s: KeyStorageType) -> (r: bool)
    ensures
        r == v@.contains(s),
{
    let mut i: usize = 0;
    while i < v.len()
        invariant
            i <= v@.len(),
            forall|j: int| 0 <= j < i ==> v@[j] != s,
        decreases v@.len() - i,
    {
        if v[i] == s {
            return true;
        }
        i = i + 1;
    }
    proof {
        assert(forall|j: int| 0 <= j < v@.len() ==> v@[j] != s);
    }
    false
}

// ---------------------------------------------------------------------------
// the bootstrap handlers
// ---------------------------------------------------------------------------

/// Answers the device's opening proposal: generates the service's ephemeral
/// key pair, derives this side's directional keys from the device's
/// key-exchange value, and wraps the service's own value in a signed
/// acceptance whose protected header echoes the device's nonce and whose
/// unprotected header carries the service's key chain.
///
/// The derived keys are only set pending: they are applied after the
/// key-parameters step, never for this reply, so the opening exchange stays
/// in the clear.
pub fn diun_connect(config: &DiunConfiguration, session: &mut Session, msg: &Connect) -> (r: Result<
    Accept,
    Error,
>)
    ensures
        match r {
            Ok(a) => {
                &&& spec_accepts(*old(session), MessageType::DIUNConnect)
                &&& final(session).last_message == Some(MessageType::DIUNAccept)
                &&& final(session).active_keys == old(session).active_keys
                &&& final(session).pending_keys is Some
                &&& a@.token.wf()
                &&& spec_map_get(a@.token.protected, HeaderKeys::CUPHNonce) == Some(
                    msg@.nonce_diun_1,
                )
                &&& spec_map_get(a@.token.unprotected, HeaderKeys::CUPHOwnerPubKey) == Some(
                    config.public_key_chain@,
                )
                &&& spec_cose_verifies(a@.token, config.alg, public_key_of(config.diun_key@))
                &&& spec_decode_accept_payload(a@.token.payload) is Some
                &&& (exists|private_half: Seq<u8>|
                    {
                        &&& #[trigger] public_key_of(private_half) == spec_decode_accept_payload(
                            a@.token.payload,
                        )->Some_0.key_exchange
                        &&& final(session).pending_keys->Some_0@ == spec_session_keys(
                            msg@.cipher_suite,
                            shared_secret_of(private_half, msg@.key_exchange),
                            KeyDeriveSide::OwnerService,
                        )
                    })
            },
            Err(_) => *final(session) == *old(session),
        },
        !spec_accepts(*old(session), MessageType::DIUNConnect) ==> r is Err,
        r == Err::<Accept, Error>(Error::Protocol(crate::errors::ProtocolViolation::OutOfOrder))
            ==> !spec_accepts(*old(session), MessageType::DIUNConnect),
{
    if let Err(e) = session.check_message(MessageType::DIUNConnect) {
        return Err(e);
    }
    let kex = match KeyExchange::new(*msg.kex_suite()) {
        Ok(k) => k,
        Err(e) => {
            return Err(Error::Crypto(e));
        },
    };
    let keys = match kex.derive_key(
        KeyDeriveSide::OwnerService,
        *msg.cipher_suite(),
        msg.key_exchange(),
    ) {
        Ok(k) => k,
        Err(e) => {
            return Err(Error::Crypto(e));
        },
    };
    let accept_payload = AcceptPayload::new(
        crate::codec::copy_range(kex.get_public(), 0, kex.public_value.len()),
    );
    let payload_bytes = accept_payload.encode();

    let mut protected = COSEHeaderMap::new();
    if protected.insert(HeaderKeys::CUPHNonce, clone_bytes(&msg.nonce_diun_1.value)).is_err() {
        return Err(Error::Crypto(CryptoError::Backend));
    }
    let mut unprotected = COSEHeaderMap::new();
    if unprotected.insert(
        HeaderKeys::CUPHOwnerPubKey,
        clone_bytes(&config.public_key_chain),
    ).is_err() {
        return Err(Error::Crypto(CryptoError::Backend));
    }
    proof {
        crate::cose::lemma_map_get_push(
            Seq::<(HeaderKeys, Seq<u8>)>::empty(),
            HeaderKeys::CUPHNonce,
            msg@.nonce_diun_1,
            HeaderKeys::CUPHNonce,
        );
        crate::cose::lemma_map_get_push(
            Seq::<(HeaderKeys, Seq<u8>)>::empty(),
            HeaderKeys::CUPHOwnerPubKey,
            config.public_key_chain@,
            HeaderKeys::CUPHOwnerPubKey,
        );
    }
    let token = match crate::cose::COSESign::new_with_protected(
        payload_bytes,
        protected,
        Some(unprotected),
        config.alg,
        config.diun_key.as_slice(),
    ) {
        Ok(t) => t,
        Err(e) => {
            return Err(Error::Crypto(e));
        },
    };
    proof {
        crate::diun::lemma_accept_payload_round_trip(accept_payload@);
        assert(public_key_of(kex.private_key_der@) == spec_decode_accept_payload(
            token@.payload,
        )->Some_0.key_exchange);
    }
    session.record_message(MessageType::DIUNConnect);
    proof {
        assert(spec_accepts(*session, MessageType::DIUNAccept));
    }
    session.record_message(MessageType::DIUNAccept);
    session.set_pending_keys(keys);
    Ok(Accept::new(token))
}

/// Answers the device's request for key parameters, and applies the pending
/// keys: from the next message on, the tunnel is encrypted — exactly one
/// step after the key exchange itself.
pub fn diun_request_key_parameters(
    config: &DiunConfiguration,
    session: &mut Session,
    msg: &RequestKeyParameters,
) -> (r: Result<ProvideKeyParameters, Error>)
    ensures
        match r {
            Ok(p) => {
                &&& spec_accepts(*old(session), MessageType::DIUNRequestKeyParameters)
                &&& final(session).last_message == Some(MessageType::DIUNProvideKeyParameters)
                &&& final(session).active_keys == old(session).pending_keys
                &&& final(session).pending_keys is None
                &&& p@.public_key_type == config.key_type
                &&& p@.public_key_storage_allowed == Some(config.allowed_key_types@)
                &&& (p@.attestation_challenge is Some <==> config.requires_attestation)
            },
            Err(_) => *final(session) == *old(session),
        },
        !spec_accepts(*old(session), MessageType::DIUNRequestKeyParameters) ==> r is Err,
        spec_accepts(*old(session), MessageType::DIUNRequestKeyParameters)
            && !config.requires_attestation ==> r is Ok,
{
    if let Err(e) = session.check_message(MessageType::DIUNRequestKeyParameters) {
        return Err(e);
    }
    let attestation_challenge: Option<Vec<u8>> = if config.requires_attestation {
        match random_bytes(16) {
            Ok(c) => Some(c),
            Err(e) => {
                return Err(Error::Crypto(e));
            },
        }
    } else {
        None
    };
    session.record_message(MessageType::DIUNRequestKeyParameters);
    proof {
        assert(spec_accepts(*session, MessageType::DIUNProvideKeyParameters));
    }
    session.record_message(MessageType::DIUNProvideKeyParameters);
    session.activate_pending_keys();
    Ok(
        ProvideKeyParameters::new(
            config.key_type,
            Some(clone_storage_list(&config.allowed_key_types)),
            attestation_challenge,
        ),
    )
}

/// What the key-providing message must satisfy before the service accepts
/// it: the key type the service asked for, an attestation answer whenever
/// the service demands one, and a storage kind from the allowed list if one
/// is named. No silent downgrade: anything else rejects the session.
pub open spec fn spec_provide_key_acceptable(
    config: DiunConfiguration,
    m: crate::diun::ProvideKeyV,
) -> bool {
    &&& m.public_key.key_type == config.key_type
    &&& (config.requires_attestation ==> m.attestation_response is Some)
    &&& (m.public_key_storage matches Some(s) ==> config.allowed_key_types@.contains(s))
}

/// Accepts the device's key and closes the bootstrap, telling the device
/// how to compose its manufacturing string.
pub fn diun_provide_key(config: &DiunConfiguration, session: &mut Session, msg: &ProvideKey) -> (r:
    Result<crate::diun::Done, Error>)
    ensures
        r is Ok <==> spec_accepts(*old(session), MessageType::DIUNProvideKey)
            && spec_provide_key_acceptable(*config, msg@),
        match r {
            Ok(d) => {
                &&& final(session).last_message == Some(MessageType::DIUNDone)
                &&& d@.mfg_string_type == config.mfg_string_type
            },
            Err(_) => *final(session) == *old(session),
        },
{
    if let Err(e) = session.check_message(MessageType::DIUNProvideKey) {
        return Err(e);
    }
    if !(msg.public_key.key_type == config.key_type) {
        return Err(Error::Crypto(CryptoError::UnsupportedSuite));
    }
    if config.requires_attestation && msg.attestation_response.is_none() {
        return Err(Error::Verification(VerificationError::MissingHeader));
    }
    match &msg.public_key_storage {
        Some(s) => {
            if !storage_list_contains(&config.allowed_key_types, *s) {
                return Err(Error::Crypto(CryptoError::UnsupportedSuite));
            }
        },
        None => {},
    }
    session.record_message(MessageType::DIUNProvideKey);
    proof {
        assert(spec_accepts(*session, MessageType::DIUNDone));
    }
    session.record_message(MessageType::DIUNDone);
    Ok(crate::diun::Done::new(config.mfg_string_type))
}

// ---------------------------------------------------------------------------
// the plain initialization handlers
// ---------------------------------------------------------------------------

/// Opens plain initialization: builds the device's credential header — a
/// fresh identity, the reported manufacturing info, and the manufacturer's
/// key — and hands its encoding back as the credential.
pub fn di_app_start(ctx: &ServiceContext, session: &mut Session, msg: &crate::di::AppStart) -> (r:
    Result<crate::di::SetCredentials, Error>)
    requires
        msg@.wf(),
    ensures
        match r {
            Ok(sc) => {
                &&& ctx.enable_di
                &&& spec_accepts(*old(session), MessageType::DIAppStart)
                &&& final(session).last_message == Some(MessageType::DISetCredentials)
                &&& spec_decode_voucher_header(sc@.ov_header) is Some
                &&& spec_decode_voucher_header(
                    sc@.ov_header,
                )->Some_0.manufacturer_public_key == ctx.manufacturer_public_key@
                &&& spec_decode_voucher_header(sc@.ov_header)->Some_0.device_info
                    == crate::types::spec_enc_cbor(msg@.mfg_info)
            },
            Err(_) => *final(session) == *old(session),
        },
        !ctx.enable_di ==> r == Err::<crate::di::SetCredentials, Error>(
            Error::Configuration(ConfigurationError::PhaseDisabled),
        ),
        !spec_accepts(*old(session), MessageType::DIAppStart) ==> r is Err,
        r == Err::<crate::di::SetCredentials, Error>(
            Error::Configuration(ConfigurationError::PhaseDisabled),
        ) ==> !ctx.enable_di,
        r == Err::<crate::di::SetCredentials, Error>(
            Error::Protocol(crate::errors::ProtocolViolation::OutOfOrder),
        ) ==> !spec_accepts(*old(session), MessageType::DIAppStart),
{
    if !ctx.enable_di {
        return Err(Error::Configuration(ConfigurationError::PhaseDisabled));
    }
    if let Err(e) = session.check_message(MessageType::DIAppStart) {
        return Err(e);
    }
    let guid_bytes = match random_bytes(16) {
        Ok(b) => b,
        Err(e) => {
            return Err(Error::Crypto(e));
        },
    };
    let mut device_info: Vec<u8> = Vec::new();
    crate::types::write_cbor(&mut device_info, &msg.mfg_info);
    let header = VoucherHeader::new(
        Guid { value: guid_bytes },
        device_info,
        PublicKey::new(
            ctx.manufacturer_public_key.key_type,
            clone_bytes(&ctx.manufacturer_public_key.body),
        ),
    );
    proof {
        assert(header@.device_info =~= crate::types::spec_enc_cbor(msg@.mfg_info));
        assert(header@.manufacturer_public_key =~= ctx.manufacturer_public_key@);
        crate::voucher::lemma_voucher_header_round_trip(header@);
    }
    let ov_header = header.encode();
    session.record_message(MessageType::DIAppStart);
    proof {
        assert(spec_accepts(*session, MessageType::DISetCredentials));
    }
    session.record_message(MessageType::DISetCredentials);
    Ok(crate::di::SetCredentials::new(ov_header))
}

/// Accepts the device's HMAC over its credential header and closes the
/// phase. The caller stores the voucher built from the header and this HMAC.
pub fn di_set_hmac(ctx: &ServiceContext, session: &mut Session, msg: &crate::di::SetHMAC) -> (r:
    Result<crate::di::Done, Error>)
    ensures
        r is Ok <==> ctx.enable_di && spec_accepts(*old(session), MessageType::DISetHMAC),
        match r {
            Ok(d) => final(session).last_message == Some(MessageType::DIDone),
            Err(_) => *final(session) == *old(session),
        },
{
    if !ctx.enable_di {
        return Err(Error::Configuration(ConfigurationError::PhaseDisabled));
    }
    if let Err(e) = session.check_message(MessageType::DISetHMAC) {
        return Err(e);
    }
    session.record_message(MessageType::DISetHMAC);
    proof {
        assert(spec_accepts(*session, MessageType::DIDone));
    }
    session.record_message(MessageType::DIDone);
    Ok(crate::di::Done::new())
}

} // verus!
