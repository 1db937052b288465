//! Messages of the manufacturer-trust bootstrap: the device proposes key
//! exchange and cipher suites with a nonce challenge, the service answers
//! with a signed acceptance echoing the nonce, key parameters are exchanged,
//! the device provides its public key, and the phase closes.
//!
//! Each message carries its model (`...V`), a deterministic whole-message
//! codec tied to spec-level encode/decode functions, and the round-trip and
//! encoding-pinned laws.

use vstd::prelude::*;

use crate::codec::{
    lemma_bytes_round_trip, lemma_bytes_sound, lemma_concat_skip, lemma_enc_u64_len,
    lemma_fixed_round_trip, lemma_fixed_sound, lemma_skip_skip, lemma_u8_round_trip,
    lemma_u8_sound, read_bool, read_bytes, read_fixed, read_u8, spec_dec_bool, spec_dec_bytes,
    spec_dec_fixed, spec_dec_u8, spec_enc_bool, spec_enc_bytes, spec_enc_u8, write_bool,
    write_bytes, write_fixed, write_u8,
};
use crate::constants::{EncryptionRequirement, MessageType};
use crate::cose::{
    lemma_cose_round_trip, lemma_cose_sound, read_cose, spec_dec_cose, spec_enc_cose, write_cose,
    COSESign, CoseSignV,
};
use crate::errors::DecodeError;
use crate::types::{
    lemma_opt_bytes_round_trip, lemma_opt_bytes_sound, lemma_opt_storage_list_round_trip,
    lemma_opt_storage_list_sound, lemma_opt_storage_round_trip, lemma_opt_storage_sound,
    lemma_public_key_round_trip, lemma_public_key_sound, read_opt_bytes, read_opt_storage,
    read_opt_storage_list, read_public_key, spec_dec_opt_bytes, spec_dec_opt_storage,
    spec_dec_opt_storage_list, spec_dec_public_key, spec_enc_opt_bytes, spec_enc_opt_storage,
    spec_enc_opt_storage_list, spec_enc_public_key, spec_nonce_len, write_opt_bytes,
    write_opt_storage, write_opt_storage_list, write_public_key, CipherSuite, KexSuite,
    KeyStorageType, MfgStringType, Nonce, PublicKey, PublicKeyType, PublicKeyV,
};

verus! {

// ---------------------------------------------------------------------------
// Connect
// ---------------------------------------------------------------------------

/// Model of `Connect`.
#[verifier::ext_equal]
pub struct ConnectV {
    pub nonce_diun_1: Seq<u8>,
    pub kex_suite: KexSuite,
    pub cipher_suite: CipherSuite,
    pub key_exchange: Seq<u8>,
}

impl ConnectV {
    pub open spec fn wf(self) -> bool {
        &&& self.nonce_diun_1.len() == spec_nonce_len()
        &&& self.key_exchange.len() <= u64::MAX
    }
}

/// The device opens the bootstrap: a fresh nonce challenge, the proposed
/// key-exchange and cipher suites, and its ephemeral public key-exchange
/// value.
#[derive(Clone, Debug, PartialEq, Eq)]
pub struct Connect {
    pub nonce_diun_1: Nonce,
    pub kex_suite: KexSuite,
    pub cipher_suite: CipherSuite,
    pub key_exchange: Vec<u8>,
}

impl View for Connect {
    type V = ConnectV;

    open spec fn view(&self) -> ConnectV {
        ConnectV {
            nonce_diun_1: self.nonce_diun_1@,
            kex_suite: self.kex_suite,
            cipher_suite: self.cipher_suite,
            key_exchange: self.key_exchange@,
        }
    }
}

pub open spec fn spec_encode_connect(m: ConnectV) -> Seq<u8> {
    m.nonce_diun_1 + spec_enc_u8(m.kex_suite.spec_tag()) + spec_enc_u8(m.cipher_suite.spec_tag())
        + spec_enc_bytes(m.key_exchange)
}

pub open spec fn spec_decode_connect(b: Seq<u8>) -> Option<ConnectV> {
    match spec_dec_fixed(b, spec_nonce_len()) {
        Some((nv, _)) => match spec_dec_u8(b.skip(16)) {
            Some((c1, _)) => match KexSuite::spec_from_tag(c1) {
                Some(kex_suite) => match spec_dec_u8(b.skip(17)) {
                    Some((c2, _)) => match CipherSuite::spec_from_tag(c2) {
                        Some(cipher_suite) => match spec_dec_bytes(b.skip(18)) {
                            Some((key_exchange, n)) => {
                                if 18 + n == b.len() {
                                    Some(
                                        ConnectV {
                                            nonce_diun_1: nv,
                                            kex_suite,
                                            cipher_suite,
                                            key_exchange,
                                        },
                                    )
                                } else {
                                    None
                                }
                            },
                            None => None,
                        },
                        None => None,
                    },
                    None => None,
                },
                None => None,
            },
            None => None,
        },
        None => None,
    }
}

/// Decoding an encoding of a well-formed `Connect` yields it back.
pub proof fn lemma_connect_round_trip(m: ConnectV)
    requires
        m.wf(),
    ensures
        spec_decode_connect(spec_encode_connect(m)) == Some(m),
{
    let e1 = m.nonce_diun_1;
    let e2 = spec_enc_u8(m.kex_suite.spec_tag());
    let e3 = spec_enc_u8(m.cipher_suite.spec_tag());
    let e4 = spec_enc_bytes(m.key_exchange);
    let b = spec_encode_connect(m);
    lemma_enc_u64_len(m.key_exchange.len() as u64);
    vstd::seq_lib::lemma_concat_associative(e1 + e2, e3, e4);
    vstd::seq_lib::lemma_concat_associative(e1, e2, e3 + e4);
    assert(b == e1 + (e2 + (e3 + e4)));
    lemma_fixed_round_trip(e1, e2 + (e3 + e4));
    assert(spec_dec_fixed(b, 16) == Some((e1, 16int)));
    lemma_concat_skip(e1, e2 + (e3 + e4));
    assert(b.skip(16) == e2 + (e3 + e4));
    lemma_u8_round_trip(m.kex_suite.spec_tag(), e3 + e4);
    lemma_concat_skip(e2, e3 + e4);
    lemma_skip_skip(b, 16, 1);
    assert(b.skip(17) == e3 + e4);
    lemma_u8_round_trip(m.cipher_suite.spec_tag(), e4);
    lemma_concat_skip(e3, e4);
    lemma_skip_skip(b, 17, 1);
    assert(b.skip(18) == e4);
    lemma_bytes_round_trip(m.key_exchange, Seq::<u8>::empty());
    assert(e4 + Seq::<u8>::empty() =~= e4);
    assert(spec_dec_bytes(b.skip(18)) == Some((m.key_exchange, 8 + m.key_exchange.len() as int)));
}

/// A successful decode pins the input to exactly one encoding.
pub proof fn lemma_connect_decode_pinned(b: Seq<u8>)
    ensures
        spec_decode_connect(b) matches Some(m) ==> m.wf() && b == spec_encode_connect(m),
{
    if spec_decode_connect(b) is Some {
        let m = spec_decode_connect(b)->Some_0;
        lemma_fixed_sound(b, 16);
        lemma_u8_sound(b.skip(16));
        lemma_u8_sound(b.skip(17));
        lemma_bytes_sound(b.skip(18));
        let (ke, n) = spec_dec_bytes(b.skip(18))->Some_0;
        assert(b =~= b.take(16) + b.skip(16).take(1) + b.skip(17).take(1) + b.skip(18).take(n));
    }
}

impl Connect {
    pub fn new(
        nonce_diun_1: Nonce,
        kex_suite: KexSuite,
        cipher_suite: CipherSuite,
        key_exchange: Vec<u8>,
    ) -> (r: Connect)
        ensures
            r@ == (ConnectV {
                nonce_diun_1: nonce_diun_1@,
                kex_suite,
                cipher_suite,
                key_exchange: key_exchange@,
            }),
            nonce_diun_1.wf() ==> r@.wf(),
    {
        proof {
            assert(key_exchange.len() == key_exchange@.len());
        }
        Connect { nonce_diun_1, kex_suite, cipher_suite, key_exchange }
    }

    pub fn nonce_diun_1(&self) -> (r: &Nonce)
        ensures
            r@ == self@.nonce_diun_1,
    {
        &self.nonce_diun_1
    }

    pub fn kex_suite(&self) -> (r: &KexSuite)
        ensures
            *r == self@.kex_suite,
    {
        &self.kex_suite
    }

    pub fn cipher_suite(&self) -> (r: &CipherSuite)
        ensures
            *r == self@.cipher_suite,
    {
        &self.cipher_suite
    }

    pub fn key_exchange(&self) -> (r: &[u8])
        ensures
            r@ == self@.key_exchange,
    {
        self.key_exchange.as_slice()
    }

    pub fn message_type() -> (r: MessageType)
        ensures
            r == MessageType::DIUNConnect,
    {
        MessageType::DIUNConnect
    }

    pub fn encryption_requirement() -> (r: Option<EncryptionRequirement>)
        ensures
            r == MessageType::DIUNConnect.spec_encryption_requirement(),
    {
        MessageType::DIUNConnect.encryption_requirement()
    }

    pub fn is_valid_previous_message(message_type: Option<MessageType>) -> (r: bool)
        ensures
            r == MessageType::DIUNConnect.spec_valid_previous(message_type),
    {
        MessageType::DIUNConnect.valid_previous(message_type)
    }

    pub fn encode(&self) -> (r: Vec<u8>)
        ensures
            r@ == spec_encode_connect(self@),
    {
        let mut out: Vec<u8> = Vec::new();
        write_fixed(&mut out, &self.nonce_diun_1.value);
        write_u8(&mut out, self.kex_suite.tag());
        write_u8(&mut out, self.cipher_suite.tag());
        write_bytes(&mut out, &self.key_exchange);
        proof {
            assert(out@ =~= spec_encode_connect(self@));
        }
        out
    }

    pub fn decode(bytes: &[u8]) -> (r: Result<Connect, DecodeError>)
        ensures
            match r {
                Ok(m) => spec_decode_connect(bytes@) == Some(m@) && m@.wf(),
                Err(_) => spec_decode_connect(bytes@) is None,
            },
    {
        proof {
            assert(bytes@.skip(0) =~= bytes@);
        }
        let (nv, p1) = match read_fixed(bytes, 0, 16) {
            Ok(x) => x,
            Err(e) => {
                return Err(e);
            },
        };
        let (c1, p2) = match read_u8(bytes, p1) {
            Ok(x) => x,
            Err(e) => {
                return Err(e);
            },
        };
        let kex_suite = match KexSuite::from_tag(c1) {
            Some(v) => v,
            None => {
                return Err(DecodeError::BadTag);
            },
        };
        let (c2, p3) = match read_u8(bytes, p2) {
            Ok(x) => x,
            Err(e) => {
                return Err(e);
            },
        };
        let cipher_suite = match CipherSuite::from_tag(c2) {
            Some(v) => v,
            None => {
                return Err(DecodeError::BadTag);
            },
        };
        let (key_exchange, p4) = match read_bytes(bytes, p3) {
            Ok(x) => x,
            Err(e) => {
                return Err(e);
            },
        };
        if p4 != bytes.len() {
            return Err(DecodeError::TrailingBytes);
        }
        proof {
            lemma_bytes_sound(bytes@.skip(18));
        }
        Ok(Connect { nonce_diun_1: Nonce { value: nv }, kex_suite, cipher_suite, key_exchange })
    }
}

// ---------------------------------------------------------------------------
// Accept
// ---------------------------------------------------------------------------

/// Model of `Accept`.
#[verifier::ext_equal]
pub struct AcceptV {
    pub token: CoseSignV,
}

impl AcceptV {
    pub open spec fn wf(self) -> bool {
        self.token.wf()
    }
}

/// The service accepts the proposal: a signed envelope whose protected
/// header echoes the device's nonce, whose unprotected header carries the
/// service's public key chain, and whose payload holds the service's own
/// key-exchange value.
#[derive(Clone, Debug, PartialEq, Eq)]
pub struct Accept {
    pub token: COSESign,
}

impl View for Accept {
    type V = AcceptV;

    open spec fn view(&self) -> AcceptV {
        AcceptV { token: self.token@ }
    }
}

pub open spec fn spec_encode_accept(m: AcceptV) -> Seq<u8> {
    spec_enc_cose(m.token)
}

pub open spec fn spec_decode_accept(b: Seq<u8>) -> Option<AcceptV> {
    match spec_dec_cose(b) {
        Some((c, n)) => {
            if n == b.len() {
                Some(AcceptV { token: c })
            } else {
                None
            }
        },
        None => None,
    }
}

/// Decoding an encoding of a well-formed `Accept` yields it back.
pub proof fn lemma_accept_round_trip(m: AcceptV)
    requires
        m.wf(),
    ensures
        spec_decode_accept(spec_encode_accept(m)) == Some(m),
{
    let b = spec_encode_accept(m);
    lemma_cose_round_trip(m.token, Seq::<u8>::empty());
    assert(b + Seq::<u8>::empty() =~= b);
}

/// A successful decode pins the input to exactly one encoding.
pub proof fn lemma_accept_decode_pinned(b: Seq<u8>)
    ensures
        spec_decode_accept(b) matches Some(m) ==> m.wf() && b == spec_encode_accept(m),
{
    if spec_decode_accept(b) is Some {
        lemma_cose_sound(b);
        let (c, n) = spec_dec_cose(b)->Some_0;
        assert(b.take(n) =~= b);
    }
}

impl Accept {
    pub fn new(token: COSESign) -> (r: Accept)
        ensures
            r@ == (AcceptV { token: token@ }),
    {
        Accept { token }
    }

    pub fn into_token(self) -> (r: COSESign)
        ensures
            r@ == self@.token,
    {
        self.token
    }

    pub fn message_type() -> (r: MessageType)
        ensures
            r == MessageType::DIUNAccept,
    {
        MessageType::DIUNAccept
    }

    pub fn encryption_requirement() -> (r: Option<EncryptionRequirement>)
        ensures
            r == MessageType::DIUNAccept.spec_encryption_requirement(),
    {
        MessageType::DIUNAccept.encryption_requirement()
    }

    pub fn is_valid_previous_message(message_type: Option<MessageType>) -> (r: bool)
        ensures
            r == MessageType::DIUNAccept.spec_valid_previous(message_type),
    {
        MessageType::DIUNAccept.valid_previous(message_type)
    }

    pub fn encode(&self) -> (r: Vec<u8>)
        ensures
            r@ == spec_encode_accept(self@),
    {
        let mut out: Vec<u8> = Vec::new();
        write_cose(&mut out, &self.token);
        proof {
            assert(out@ =~= spec_encode_accept(self@));
        }
        out
    }

    pub fn decode(bytes: &[u8]) -> (r: Result<Accept, DecodeError>)
        ensures
            match r {
                Ok(m) => spec_decode_accept(bytes@) == Some(m@) && m@.wf(),
                Err(_) => spec_decode_accept(bytes@) is None,
            },
    {
        proof {
            assert(bytes@.skip(0) =~= bytes@);
        }
        let (token, p) = match read_cose(bytes, 0) {
            Ok(x) => x,
            Err(e) => {
                return Err(e);
            },
        };
        if p != bytes.len() {
            return Err(DecodeError::TrailingBytes);
        }
        Ok(Accept { token })
    }
}

// ---------------------------------------------------------------------------
// AcceptPayload
// ---------------------------------------------------------------------------

/// Model of `AcceptPayload`.
#[verifier::ext_equal]
pub struct AcceptPayloadV {
    pub key_exchange: Seq<u8>,
}

impl AcceptPayloadV {
    pub open spec fn wf(self) -> bool {
        self.key_exchange.len() <= u64::MAX
    }
}

/// What the acceptance envelope's payload decodes to: the service's
/// ephemeral key-exchange value.
#[derive(Clone, Debug, PartialEq, Eq)]
pub struct AcceptPayload {
    pub key_exchange: Vec<u8>,
}

impl View for AcceptPayload {
    type V = AcceptPayloadV;

    open spec fn view(&self) -> AcceptPayloadV {
        AcceptPayloadV { key_exchange: self.key_exchange@ }
    }
}

pub open spec fn spec_encode_accept_payload(m: AcceptPayloadV) -> Seq<u8> {
    spec_enc_bytes(m.key_exchange)
}

pub open spec fn spec_decode_accept_payload(b: Seq<u8>) -> Option<AcceptPayloadV> {
    match spec_dec_bytes(b) {
        Some((v, n)) => {
            if n == b.len() {
                Some(AcceptPayloadV { key_exchange: v })
            } else {
                None
            }
        },
        None => None,
    }
}

/// Decoding an encoding of a well-formed `AcceptPayload` yields it back.
pub proof fn lemma_accept_payload_round_trip(m: AcceptPayloadV)
    requires
        m.wf(),
    ensures
        spec_decode_accept_payload(spec_encode_accept_payload(m)) == Some(m),
{
    let b = spec_encode_accept_payload(m);
    lemma_enc_u64_len(m.key_exchange.len() as u64);
    lemma_bytes_round_trip(m.key_exchange, Seq::<u8>::empty());
    assert(b + Seq::<u8>::empty() =~= b);
}

/// A successful decode pins the input to exactly one encoding.
pub proof fn lemma_accept_payload_decode_pinned(b: Seq<u8>)
    ensures
        spec_decode_accept_payload(b) matches Some(m) ==> m.wf() && b == spec_encode_accept_payload(
            m,
        ),
{
    if spec_decode_accept_payload(b) is Some {
        lemma_bytes_sound(b);
        let (v, n) = spec_dec_bytes(b)->Some_0;
        assert(b.take(n) =~= b);
    }
}

impl AcceptPayload {
    pub fn new(key_exchange: Vec<u8>) -> (r: AcceptPayload)
        ensures
            r@ == (AcceptPayloadV { key_exchange: key_exchange@ }),
            r@.wf(),
    {
        proof {
            assert(key_exchange.len() == key_exchange@.len());
        }
        AcceptPayload { key_exchange }
    }

    pub fn key_exchange(&self) -> (r: &[u8])
        ensures
            r@ == self@.key_exchange,
    {
        self.key_exchange.as_slice()
    }

    pub fn encode(&self) -> (r: Vec<u8>)
        ensures
            r@ == spec_encode_accept_payload(self@),
    {
        let mut out: Vec<u8> = Vec::new();
        write_bytes(&mut out, &self.key_exchange);
        proof {
            assert(out@ =~= spec_encode_accept_payload(self@));
        }
        out
    }

    pub fn decode(bytes: &[u8]) -> (r: Result<AcceptPayload, DecodeError>)
        ensures
            match r {
                Ok(m) => spec_decode_accept_payload(bytes@) == Some(m@) && m@.wf(),
                Err(_) => spec_decode_accept_payload(bytes@) is None,
            },
    {
        proof {
            assert(bytes@.skip(0) =~= bytes@);
        }
        let (key_exchange, p) = match read_bytes(bytes, 0) {
            Ok(x) => x,
            Err(e) => {
                return Err(e);
            },
        };
        if p != bytes.len() {
            return Err(DecodeError::TrailingBytes);
        }
        proof {
            lemma_bytes_sound(bytes@);
        }
        Ok(AcceptPayload { key_exchange })
    }
}

// ---------------------------------------------------------------------------
// RequestKeyParameters
// ---------------------------------------------------------------------------

/// Model of `RequestKeyParameters`.
#[verifier::ext_equal]
pub struct RequestKeyParametersV {
    pub empty: bool,
}

impl RequestKeyParametersV {
    pub open spec fn wf(self) -> bool {
        true
    }
}

/// The device asks which key parameters the service expects. The single
/// placeholder field is always false; it exists so the message has a body.
#[derive(Clone, Debug, PartialEq, Eq)]
pub struct RequestKeyParameters {
    pub empty: bool,
}

impl View for RequestKeyParameters {
    type V = RequestKeyParametersV;

    open spec fn view(&self) -> RequestKeyParametersV {
        RequestKeyParametersV { empty: self.empty }
    }
}

pub open spec fn spec_encode_request_key_parameters(m: RequestKeyParametersV) -> Seq<u8> {
    spec_enc_bool(m.empty)
}

pub open spec fn spec_decode_request_key_parameters(b: Seq<u8>) -> Option<RequestKeyParametersV> {
    match spec_dec_bool(b) {
        Some((v, n)) => {
            if n == b.len() {
                Some(RequestKeyParametersV { empty: v })
            } else {
                None
            }
        },
        None => None,
    }
}

/// Decoding an encoding of `RequestKeyParameters` yields it back.
pub proof fn lemma_request_key_parameters_round_trip(m: RequestKeyParametersV)
    ensures
        spec_decode_request_key_parameters(spec_encode_request_key_parameters(m)) == Some(m),
{
    let b = spec_encode_request_key_parameters(m);
    crate::codec::lemma_bool_round_trip(m.empty, Seq::<u8>::empty());
    assert(b + Seq::<u8>::empty() =~= b);
}

/// A successful decode pins the input to exactly one encoding.
pub proof fn lemma_request_key_parameters_decode_pinned(b: Seq<u8>)
    ensures
        spec_decode_request_key_parameters(b) matches Some(m) ==> m.wf() && b
            == spec_encode_request_key_parameters(m),
{
    if spec_decode_request_key_parameters(b) is Some {
        crate::codec::lemma_bool_sound(b);
        let (v, n) = spec_dec_bool(b)->Some_0;
        assert(b.take(n) =~= b);
    }
}

impl RequestKeyParameters {
    pub fn new() -> (r: RequestKeyParameters)
        ensures
            r@ == (RequestKeyParametersV { empty: false }),
    {
        RequestKeyParameters { empty: false }
    }

    pub fn message_type() -> (r: MessageType)
        ensures
            r == MessageType::DIUNRequestKeyParameters,
    {
        MessageType::DIUNRequestKeyParameters
    }

    pub fn encryption_requirement() -> (r: Option<EncryptionRequirement>)
        ensures
            r == MessageType::DIUNRequestKeyParameters.spec_encryption_requirement(),
    {
        MessageType::DIUNRequestKeyParameters.encryption_requirement()
    }

    pub fn is_valid_previous_message(message_type: Option<MessageType>) -> (r: bool)
        ensures
            r == MessageType::DIUNRequestKeyParameters.spec_valid_previous(message_type),
    {
        MessageType::DIUNRequestKeyParameters.valid_previous(message_type)
    }

    pub fn encode(&self) -> (r: Vec<u8>)
        ensures
            r@ == spec_encode_request_key_parameters(self@),
    {
        let mut out: Vec<u8> = Vec::new();
        write_bool(&mut out, self.empty);
        proof {
            assert(out@ =~= spec_encode_request_key_parameters(self@));
        }
        out
    }

    pub fn decode(bytes: &[u8]) -> (r: Result<RequestKeyParameters, DecodeError>)
        ensures
            match r {
                Ok(m) => spec_decode_request_key_parameters(bytes@) == Some(m@) && m@.wf(),
                Err(_) => spec_decode_request_key_parameters(bytes@) is None,
            },
    {
        proof {
            assert(bytes@.skip(0) =~= bytes@);
        }
        let (empty, p) = match read_bool(bytes, 0) {
            Ok(x) => x,
            Err(e) => {
                return Err(e);
            },
        };
        if p != bytes.len() {
            return Err(DecodeError::TrailingBytes);
        }
        Ok(RequestKeyParameters { empty })
    }
}

// ---------------------------------------------------------------------------
// ProvideKeyParameters
// ---------------------------------------------------------------------------

/// Model of `ProvideKeyParameters`.
#[verifier::ext_equal]
pub struct ProvideKeyParametersV {
    pub public_key_type: PublicKeyType,
    pub public_key_storage_allowed: Option<Seq<KeyStorageType>>,
    pub attestation_challenge: Option<Seq<u8>>,
}

impl ProvideKeyParametersV {
    pub open spec fn wf(self) -> bool {
        &&& (self.public_key_storage_allowed matches Some(l) ==> l.len() <= u64::MAX)
        &&& (self.attestation_challenge matches Some(c) ==> c.len() <= u64::MAX)
    }
}

/// The service tells the device what key type it expects, which storage
/// kinds it allows, and an attestation challenge if it demands one.
#[derive(Clone, Debug, PartialEq, Eq)]
pub struct ProvideKeyParameters {
    pub public_key_type: PublicKeyType,
    pub public_key_storage_allowed: Option<Vec<KeyStorageType>>,
    pub attestation_challenge: Option<Vec<u8>>,
}

impl View for ProvideKeyParameters {
    type V = ProvideKeyParametersV;

    open spec fn view(&self) -> ProvideKeyParametersV {
        ProvideKeyParametersV {
            public_key_type: self.public_key_type,
            public_key_storage_allowed: match self.public_key_storage_allowed {
                Some(l) => Some(l@),
                None => None,
            },
            attestation_challenge: match self.attestation_challenge {
                Some(c) => Some(c@),
                None => None,
            },
        }
    }
}

pub open spec fn spec_encode_provide_key_parameters(m: ProvideKeyParametersV) -> Seq<u8> {
    spec_enc_u8(m.public_key_type.spec_tag()) + spec_enc_opt_storage_list(
        m.public_key_storage_allowed,
    ) + spec_enc_opt_bytes(m.attestation_challenge)
}

pub open spec fn spec_decode_provide_key_parameters(b: Seq<u8>) -> Option<ProvideKeyParametersV> {
    match spec_dec_u8(b) {
        Some((c, _)) => match PublicKeyType::spec_from_tag(c) {
            Some(public_key_type) => match spec_dec_opt_storage_list(b.skip(1)) {
                Some((public_key_storage_allowed, n1)) => match spec_dec_opt_bytes(
                    b.skip(1 + n1),
                ) {
                    Some((attestation_challenge, n2)) => {
                        if 1 + n1 + n2 == b.len() {
                            Some(
                                ProvideKeyParametersV {
                                    public_key_type,
                                    public_key_storage_allowed,
                                    attestation_challenge,
                                },
                            )
                        } else {
                            None
                        }
                    },
                    None => None,
                },
                None => None,
            },
            None => None,
        },
        None => None,
    }
}

/// Decoding an encoding of a well-formed `ProvideKeyParameters` yields it
/// back.
pub proof fn lemma_provide_key_parameters_round_trip(m: ProvideKeyParametersV)
    requires
        m.wf(),
    ensures
        spec_decode_provide_key_parameters(spec_encode_provide_key_parameters(m)) == Some(m),
{
    let e1 = spec_enc_u8(m.public_key_type.spec_tag());
    let e2 = spec_enc_opt_storage_list(m.public_key_storage_allowed);
    let e3 = spec_enc_opt_bytes(m.attestation_challenge);
    let b = spec_encode_provide_key_parameters(m);
    vstd::seq_lib::lemma_concat_associative(e1, e2, e3);
    assert(b == e1 + (e2 + e3));
    lemma_u8_round_trip(m.public_key_type.spec_tag(), e2 + e3);
    assert(spec_dec_u8(b) == Some((m.public_key_type.spec_tag(), 1int)));
    lemma_concat_skip(e1, e2 + e3);
    assert(b.skip(1) == e2 + e3);
    lemma_opt_storage_list_round_trip(m.public_key_storage_allowed, e3);
    lemma_concat_skip(e2, e3);
    lemma_skip_skip(b, 1, e2.len() as int);
    assert(b.skip(1 + e2.len() as int) == e3);
    lemma_opt_bytes_round_trip(m.attestation_challenge, Seq::<u8>::empty());
    assert(e3 + Seq::<u8>::empty() =~= e3);
}

/// A successful decode pins the input to exactly one encoding.
pub proof fn lemma_provide_key_parameters_decode_pinned(b: Seq<u8>)
    ensures
        spec_decode_provide_key_parameters(b) matches Some(m) ==> m.wf() && b
            == spec_encode_provide_key_parameters(m),
{
    if spec_decode_provide_key_parameters(b) is Some {
        let m = spec_decode_provide_key_parameters(b)->Some_0;
        lemma_u8_sound(b);
        lemma_opt_storage_list_sound(b.skip(1));
        let (l, n1) = spec_dec_opt_storage_list(b.skip(1))->Some_0;
        lemma_opt_bytes_sound(b.skip(1 + n1));
        let (c, n2) = spec_dec_opt_bytes(b.skip(1 + n1))->Some_0;
        lemma_skip_skip(b, 1, n1);
        assert(b =~= b.take(1) + b.skip(1).take(n1) + b.skip(1 + n1).take(n2));
    }
}

impl ProvideKeyParameters {
    pub fn new(
        public_key_type: PublicKeyType,
        public_key_storage_allowed: Option<Vec<KeyStorageType>>,
        attestation_challenge: Option<Vec<u8>>,
    ) -> (r: ProvideKeyParameters)
        ensures
            r@.public_key_type == public_key_type,
            r@.public_key_storage_allowed == (match public_key_storage_allowed {
                Some(l) => Some(l@),
                None => None::<Seq<KeyStorageType>>,
            }),
            r@.attestation_challenge == (match attestation_challenge {
                Some(c) => Some(c@),
                None => None::<Seq<u8>>,
            }),
            r@.wf(),
    {
        proof {
            match public_key_storage_allowed {
                Some(ref l) => {
                    assert(l.len() == l@.len());
                },
                None => {},
            }
            match attestation_challenge {
                Some(ref c) => {
                    assert(c.len() == c@.len());
                },
                None => {},
            }
        }
        ProvideKeyParameters { public_key_type, public_key_storage_allowed, attestation_challenge }
    }

    pub fn public_key_type(&self) -> (r: &PublicKeyType)
        ensures
            *r == self@.public_key_type,
    {
        &self.public_key_type
    }

    pub fn public_key_storage_allowed(&self) -> (r: Option<&Vec<KeyStorageType>>)
        ensures
            match r {
                Some(l) => self@.public_key_storage_allowed == Some(l@),
                None => self@.public_key_storage_allowed is None,
            },
    {
        self.public_key_storage_allowed.as_ref()
    }

    pub fn attestation_challenge(&self) -> (r: Option<&Vec<u8>>)
        ensures
            match r {
                Some(c) => self@.attestation_challenge == Some(c@),
                None => self@.attestation_challenge is None,
            },
    {
        self.attestation_challenge.as_ref()
    }

    pub fn message_type() -> (r: MessageType)
        ensures
            r == MessageType::DIUNProvideKeyParameters,
    {
        MessageType::DIUNProvideKeyParameters
    }

    pub fn encryption_requirement() -> (r: Option<EncryptionRequirement>)
        ensures
            r == MessageType::DIUNProvideKeyParameters.spec_encryption_requirement(),
    {
        MessageType::DIUNProvideKeyParameters.encryption_requirement()
    }

    pub fn is_valid_previous_message(message_type: Option<MessageType>) -> (r: bool)
        ensures
            r == MessageType::DIUNProvideKeyParameters.spec_valid_previous(message_type),
    {
        MessageType::DIUNProvideKeyParameters.valid_previous(message_type)
    }

    pub fn encode(&self) -> (r: Vec<u8>)
        ensures
            r@ == spec_encode_provide_key_parameters(self@),
    {
        let mut out: Vec<u8> = Vec::new();
        write_u8(&mut out, self.public_key_type.tag());
        write_opt_storage_list(&mut out, &self.public_key_storage_allowed);
        write_opt_bytes(&mut out, &self.attestation_challenge);
        proof {
            assert(out@ =~= spec_encode_provide_key_parameters(self@));
        }
        out
    }

    pub fn decode(bytes: &[u8]) -> (r: Result<ProvideKeyParameters, DecodeError>)
        ensures
            match r {
                Ok(m) => spec_decode_provide_key_parameters(bytes@) == Some(m@) && m@.wf(),
                Err(_) => spec_decode_provide_key_parameters(bytes@) is None,
            },
    {
        proof {
            assert(bytes@.skip(0) =~= bytes@);
        }
        let (c, p1) = match read_u8(bytes, 0) {
            Ok(x) => x,
            Err(e) => {
                return Err(e);
            },
        };
        let public_key_type = match PublicKeyType::from_tag(c) {
            Some(v) => v,
            None => {
                return Err(DecodeError::BadTag);
            },
        };
        let (public_key_storage_allowed, p2) = match read_opt_storage_list(bytes, p1) {
            Ok(x) => x,
            Err(e) => {
                return Err(e);
            },
        };
        let (attestation_challenge, p3) = match read_opt_bytes(bytes, p2) {
            Ok(x) => x,
            Err(e) => {
                proof {
                    lemma_skip_skip(bytes@, 1, (p2 - 1) as int);
                }
                return Err(e);
            },
        };
        if p3 != bytes.len() {
            return Err(DecodeError::TrailingBytes);
        }
        proof {
            lemma_skip_skip(bytes@, 1, (p2 - 1) as int);
            lemma_opt_storage_list_sound(bytes@.skip(1));
            lemma_opt_bytes_sound(bytes@.skip(p2 as int));
        }
        Ok(
            ProvideKeyParameters {
                public_key_type,
                public_key_storage_allowed,
                attestation_challenge,
            },
        )
    }
}

// ---------------------------------------------------------------------------
// ProvideKey
// ---------------------------------------------------------------------------

/// Model of `ProvideKey`.
#[verifier::ext_equal]
pub struct ProvideKeyV {
    pub public_key: PublicKeyV,
    pub public_key_storage: Option<KeyStorageType>,
    pub attestation_response: Option<Seq<u8>>,
}

impl ProvideKeyV {
    pub open spec fn wf(self) -> bool {
        &&& self.public_key.wf()
        &&& (self.attestation_response matches Some(c) ==> c.len() <= u64::MAX)
    }
}

/// The device provides the public key the service asked for, where it will
/// keep it, and the attestation answer if one was demanded.
#[derive(Clone, Debug, PartialEq, Eq)]
pub struct ProvideKey {
    pub public_key: PublicKey,
    pub public_key_storage: Option<KeyStorageType>,
    pub attestation_response: Option<Vec<u8>>,
}

impl View for ProvideKey {
    type V = ProvideKeyV;

    open spec fn view(&self) -> ProvideKeyV {
        ProvideKeyV {
            public_key: self.public_key@,
            public_key_storage: self.public_key_storage,
            attestation_response: match self.attestation_response {
                Some(c) => Some(c@),
                None => None,
            },
        }
    }
}

pub open spec fn spec_encode_provide_key(m: ProvideKeyV) -> Seq<u8> {
    spec_enc_public_key(m.public_key) + spec_enc_opt_storage(m.public_key_storage)
        + spec_enc_opt_bytes(m.attestation_response)
}

pub open spec fn spec_decode_provide_key(b: Seq<u8>) -> Option<ProvideKeyV> {
    match spec_dec_public_key(b) {
        Some((public_key, n1)) => match spec_dec_opt_storage(b.skip(n1)) {
            Some((public_key_storage, n2)) => match spec_dec_opt_bytes(b.skip(n1 + n2)) {
                Some((attestation_response, n3)) => {
                    if n1 + n2 + n3 == b.len() {
                        Some(ProvideKeyV { public_key, public_key_storage, attestation_response })
                    } else {
                        None
                    }
                },
                None => None,
            },
            None => None,
        },
        None => None,
    }
}

/// Decoding an encoding of a well-formed `ProvideKey` yields it back.
pub proof fn lemma_provide_key_round_trip(m: ProvideKeyV)
    requires
        m.wf(),
    ensures
        spec_decode_provide_key(spec_encode_provide_key(m)) == Some(m),
{
    let e1 = spec_enc_public_key(m.public_key);
    let e2 = spec_enc_opt_storage(m.public_key_storage);
    let e3 = spec_enc_opt_bytes(m.attestation_response);
    let b = spec_encode_provide_key(m);
    lemma_enc_u64_len(m.public_key.body.len() as u64);
    vstd::seq_lib::lemma_concat_associative(e1, e2, e3);
    assert(b == e1 + (e2 + e3));
    lemma_public_key_round_trip(m.public_key, e2 + e3);
    assert(spec_dec_public_key(b) == Some((m.public_key, e1.len() as int)));
    lemma_concat_skip(e1, e2 + e3);
    assert(b.skip(e1.len() as int) == e2 + e3);
    lemma_opt_storage_round_trip(m.public_key_storage, e3);
    lemma_concat_skip(e2, e3);
    lemma_skip_skip(b, e1.len() as int, e2.len() as int);
    assert(b.skip(e1.len() + e2.len() as int) == e3);
    lemma_opt_bytes_round_trip(m.attestation_response, Seq::<u8>::empty());
    assert(e3 + Seq::<u8>::empty() =~= e3);
}

/// A successful decode pins the input to exactly one encoding.
pub proof fn lemma_provide_key_decode_pinned(b: Seq<u8>)
    ensures
        spec_decode_provide_key(b) matches Some(m) ==> m.wf() && b == spec_encode_provide_key(m),
{
    if spec_decode_provide_key(b) is Some {
        let m = spec_decode_provide_key(b)->Some_0;
        lemma_public_key_sound(b);
        let (k, n1) = spec_dec_public_key(b)->Some_0;
        lemma_opt_storage_sound(b.skip(n1));
        let (s, n2) = spec_dec_opt_storage(b.skip(n1))->Some_0;
        lemma_opt_bytes_sound(b.skip(n1 + n2));
        let (a, n3) = spec_dec_opt_bytes(b.skip(n1 + n2))->Some_0;
        lemma_skip_skip(b, n1, n2);
        assert(b =~= b.take(n1) + b.skip(n1).take(n2) + b.skip(n1 + n2).take(n3));
    }
}

impl ProvideKey {
    pub fn new(
        public_key: PublicKey,
        public_key_storage: Option<KeyStorageType>,
        attestation_response: Option<Vec<u8>>,
    ) -> (r: ProvideKey)
        ensures
            r@.public_key == public_key@,
            r@.public_key_storage == public_key_storage,
            r@.attestation_response == (match attestation_response {
                Some(c) => Some(c@),
                None => None::<Seq<u8>>,
            }),
            public_key.wf() ==> r@.wf(),
    {
        proof {
            match attestation_response {
                Some(ref c) => {
                    assert(c.len() == c@.len());
                },
                None => {},
            }
        }
        ProvideKey { public_key, public_key_storage, attestation_response }
    }

    pub fn public_key(&self) -> (r: &PublicKey)
        ensures
            r@ == self@.public_key,
    {
        &self.public_key
    }

    pub fn public_key_storage(&self) -> (r: Option<&KeyStorageType>)
        ensures
            match r {
                Some(s) => self@.public_key_storage == Some(*s),
                None => self@.public_key_storage is None,
            },
    {
        self.public_key_storage.as_ref()
    }

    pub fn attestation_response(&self) -> (r: Option<&Vec<u8>>)
        ensures
            match r {
                Some(c) => self@.attestation_response == Some(c@),
                None => self@.attestation_response is None,
            },
    {
        self.attestation_response.as_ref()
    }

    pub fn message_type() -> (r: MessageType)
        ensures
            r == MessageType::DIUNProvideKey,
    {
        MessageType::DIUNProvideKey
    }

    pub fn encryption_requirement() -> (r: Option<EncryptionRequirement>)
        ensures
            r == MessageType::DIUNProvideKey.spec_encryption_requirement(),
    {
        MessageType::DIUNProvideKey.encryption_requirement()
    }

    pub fn is_valid_previous_message(message_type: Option<MessageType>) -> (r: bool)
        ensures
            r == MessageType::DIUNProvideKey.spec_valid_previous(message_type),
    {
        MessageType::DIUNProvideKey.valid_previous(message_type)
    }

    pub fn encode(&self) -> (r: Vec<u8>)
        ensures
            r@ == spec_encode_provide_key(self@),
    {
        let mut out: Vec<u8> = Vec::new();
        write_public_key(&mut out, &self.public_key);
        write_opt_storage(&mut out, &self.public_key_storage);
        write_opt_bytes(&mut out, &self.attestation_response);
        proof {
            assert(out@ =~= spec_encode_provide_key(self@));
        }
        out
    }

    pub fn decode(bytes: &[u8]) -> (r: Result<ProvideKey, DecodeError>)
        ensures
            match r {
                Ok(m) => spec_decode_provide_key(bytes@) == Some(m@) && m@.wf(),
                Err(_) => spec_decode_provide_key(bytes@) is None,
            },
    {
        proof {
            assert(bytes@.skip(0) =~= bytes@);
        }
        let (public_key, p1) = match read_public_key(bytes, 0) {
            Ok(x) => x,
            Err(e) => {
                return Err(e);
            },
        };
        let (public_key_storage, p2) = match read_opt_storage(bytes, p1) {
            Ok(x) => x,
            Err(e) => {
                return Err(e);
            },
        };
        let (attestation_response, p3) = match read_opt_bytes(bytes, p2) {
            Ok(x) => x,
            Err(e) => {
                proof {
                    lemma_skip_skip(bytes@, p1 as int, (p2 - p1) as int);
                }
                return Err(e);
            },
        };
        if p3 != bytes.len() {
            return Err(DecodeError::TrailingBytes);
        }
        proof {
            lemma_skip_skip(bytes@, p1 as int, (p2 - p1) as int);
            lemma_public_key_sound(bytes@);
            lemma_opt_bytes_sound(bytes@.skip(p2 as int));
        }
        Ok(ProvideKey { public_key, public_key_storage, attestation_response })
    }
}

// ---------------------------------------------------------------------------
// Done
// ---------------------------------------------------------------------------

/// Model of the closing message.
#[verifier::ext_equal]
pub struct DoneV {
    pub mfg_string_type: MfgStringType,
}

impl DoneV {
    pub open spec fn wf(self) -> bool {
        true
    }
}

/// The service closes the bootstrap and tells the device how to compose its
/// manufacturing string for the initialization that follows.
#[derive(Clone, Debug, PartialEq, Eq)]
pub struct Done {
    pub mfg_string_type: MfgStringType,
}

impl View for Done {
    type V = DoneV;

    open spec fn view(&self) -> DoneV {
        DoneV { mfg_string_type: self.mfg_string_type }
    }
}

pub open spec fn spec_encode_diun_done(m: DoneV) -> Seq<u8> {
    spec_enc_u8(m.mfg_string_type.spec_tag())
}

pub open spec fn spec_decode_diun_done(b: Seq<u8>) -> Option<DoneV> {
    match spec_dec_u8(b) {
        Some((c, n)) => match MfgStringType::spec_from_tag(c) {
            Some(v) => {
                if n == b.len() {
                    Some(DoneV { mfg_string_type: v })
                } else {
                    None
                }
            },
            None => None,
        },
        None => None,
    }
}

/// Decoding an encoding of `Done` yields it back.
pub proof fn lemma_diun_done_round_trip(m: DoneV)
    ensures
        spec_decode_diun_done(spec_encode_diun_done(m)) == Some(m),
{
    let b = spec_encode_diun_done(m);
    lemma_u8_round_trip(m.mfg_string_type.spec_tag(), Seq::<u8>::empty());
    assert(b + Seq::<u8>::empty() =~= b);
}

/// A successful decode pins the input to exactly one encoding.
pub proof fn lemma_diun_done_decode_pinned(b: Seq<u8>)
    ensures
        spec_decode_diun_done(b) matches Some(m) ==> m.wf() && b == spec_encode_diun_done(m),
{
    if spec_decode_diun_done(b) is Some {
        lemma_u8_sound(b);
        assert(b.take(1int) =~= b);
    }
}

impl Done {
    pub fn new(mfg_string_type: MfgStringType) -> (r: Done)
        ensures
            r@ == (DoneV { mfg_string_type }),
    {
        Done { mfg_string_type }
    }

    pub fn mfg_string_type(&self) -> (r: &MfgStringType)
        ensures
            *r == self@.mfg_string_type,
    {
        &self.mfg_string_type
    }

    pub fn message_type() -> (r: MessageType)
        ensures
            r == MessageType::DIUNDone,
    {
        MessageType::DIUNDone
    }

    pub fn encryption_requirement() -> (r: Option<EncryptionRequirement>)
        ensures
            r == MessageType::DIUNDone.spec_encryption_requirement(),
    {
        MessageType::DIUNDone.encryption_requirement()
    }

    pub fn is_valid_previous_message(message_type: Option<MessageType>) -> (r: bool)
        ensures
            r == MessageType::DIUNDone.spec_valid_previous(message_type),
    {
        MessageType::DIUNDone.valid_previous(message_type)
    }

    pub fn encode(&self) -> (r: Vec<u8>)
        ensures
            r@ == spec_encode_diun_done(self@),
    {
        let mut out: Vec<u8> = Vec::new();
        write_u8(&mut out, self.mfg_string_type.tag());
        proof {
            assert(out@ =~= spec_encode_diun_done(self@));
        }
        out
    }

    pub fn decode(bytes: &[u8]) -> (r: Result<Done, DecodeError>)
        ensures
            match r {
                Ok(m) => spec_decode_diun_done(bytes@) == Some(m@) && m@.wf(),
                Err(_) => spec_decode_diun_done(bytes@) is None,
            },
    {
        proof {
            assert(bytes@.skip(0) =~= bytes@);
        }
        let (c, p) = match read_u8(bytes, 0) {
            Ok(x) => x,
            Err(e) => {
                return Err(e);
            },
        };
        let mfg_string_type = match MfgStringType::from_tag(c) {
            Some(v) => v,
            None => {
                return Err(DecodeError::BadTag);
            },
        };
        if p != bytes.len() {
            return Err(DecodeError::TrailingBytes);
        }
        Ok(Done { mfg_string_type })
    }
}

} // verus!
