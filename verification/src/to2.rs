//! Messages of the ownership-transfer phase: the device proves itself to its
//! current owner, fetches the voucher entries one by one, the two sides
//! exchange service info until both signal completion, and the phase closes
//! with a mutual nonce exchange.
//!
//! Each message carries its model (`...V`), a deterministic whole-message
//! codec tied to spec-level encode/decode functions, and the round-trip and
//! encoding-pinned laws.

use vstd::prelude::*;

use crate::codec::{
    lemma_bool_round_trip, lemma_bool_sound, lemma_bytes_round_trip, lemma_bytes_sound,
    lemma_concat_skip, lemma_enc_u16_len, lemma_enc_u64_len, lemma_fixed_round_trip,
    lemma_fixed_sound, lemma_skip_skip, lemma_u16_round_trip, lemma_u16_sound,
    lemma_u8_round_trip, lemma_u8_sound, read_bool, read_bytes, read_fixed, read_u16, read_u8,
    spec_dec_bool, spec_dec_bytes, spec_dec_fixed, spec_dec_u16, spec_dec_u8, spec_enc_bool,
    spec_enc_bytes, spec_enc_u16, spec_enc_u8, write_bool, write_bytes, write_fixed, write_u16,
    write_u8,
};
use crate::constants::{EncryptionRequirement, MessageType};
use crate::cose::{
    lemma_cose_round_trip, lemma_cose_sound, read_cose, spec_dec_cose, spec_enc_cose, write_cose,
    COSESign, CoseSignV,
};
use crate::errors::DecodeError;
use crate::types::{
    lemma_opt_hash_round_trip, lemma_opt_hash_sound, lemma_opt_u64_round_trip, lemma_opt_u64_sound,
    lemma_sig_info_round_trip, lemma_sig_info_sound, read_opt_hmac, read_opt_u64, read_sig_info,
    spec_dec_opt_hash, spec_dec_opt_u64, spec_dec_sig_info, spec_enc_opt_hash, spec_enc_opt_u64,
    spec_enc_sig_info, spec_nonce_len, write_opt_hash, write_opt_u64, write_sig_info, CipherSuite,
    Guid, HMac, HashV, KexSuite, Nonce, ServiceInfo, SigInfo, SigInfoV,
};

verus! {

// ---------------------------------------------------------------------------
// HelloDevice
// ---------------------------------------------------------------------------

/// Model of `HelloDevice`.
#[verifier::ext_equal]
pub struct HelloDeviceV {
    pub guid: Seq<u8>,
    pub nonce5: Seq<u8>,
    pub kex_suite: KexSuite,
    pub cipher_suite: CipherSuite,
    pub a_signature_info: SigInfoV,
}

impl HelloDeviceV {
    pub open spec fn wf(self) -> bool {
        &&& self.guid.len() == spec_nonce_len()
        &&& self.nonce5.len() == spec_nonce_len()
        &&& self.a_signature_info.wf()
    }
}

/// The device opens the transfer: its identifier, a fresh nonce, the
/// proposed suites, and the signature scheme it offers.
#[derive(Clone, Debug, PartialEq, Eq)]
pub struct HelloDevice {
    pub guid: Guid,
    pub nonce5: Nonce,
    pub kex_suite: KexSuite,
    pub cipher_suite: CipherSuite,
    pub a_signature_info: SigInfo,
}

impl View for HelloDevice {
    type V = HelloDeviceV;

    open spec fn view(&self) -> HelloDeviceV {
        HelloDeviceV {
            guid: self.guid@,
            nonce5: self.nonce5@,
            kex_suite: self.kex_suite,
            cipher_suite: self.cipher_suite,
            a_signature_info: self.a_signature_info@,
        }
    }
}

pub open spec fn spec_encode_hello_device(m: HelloDeviceV) -> Seq<u8> {
    m.guid + m.nonce5 + spec_enc_u8(m.kex_suite.spec_tag()) + spec_enc_u8(
        m.cipher_suite.spec_tag(),
    ) + spec_enc_sig_info(m.a_signature_info)
}

pub open spec fn spec_decode_hello_device(b: Seq<u8>) -> Option<HelloDeviceV> {
    match spec_dec_fixed(b, spec_nonce_len()) {
        Some((gv, _)) => match spec_dec_fixed(b.skip(16), spec_nonce_len()) {
            Some((nv, _)) => match spec_dec_u8(b.skip(32)) {
                Some((c1, _)) => match KexSuite::spec_from_tag(c1) {
                    Some(kex_suite) => match spec_dec_u8(b.skip(33)) {
                        Some((c2, _)) => match CipherSuite::spec_from_tag(c2) {
                            Some(cipher_suite) => match spec_dec_sig_info(b.skip(34)) {
                                Some((si, n)) => {
                                    if 34 + n == b.len() {
                                        Some(
                                            HelloDeviceV {
                                                guid: gv,
                                                nonce5: nv,
                                                kex_suite,
                                                cipher_suite,
                                                a_signature_info: si,
                                            },
                                        )
                                    } else {
                                        None
                                    }
                                },
                                None => None,
                            },
                            None => None,
                        },
                        None => None,
                    },
                    None => None,
                },
                None => None,
            },
            None => None,
        },
        None => None,
    }
}

/// Decoding an encoding of a well-formed `HelloDevice` yields it back.
pub proof fn lemma_hello_device_round_trip(m: HelloDeviceV)
    requires
        m.wf(),
    ensures
        spec_decode_hello_device(spec_encode_hello_device(m)) == Some(m),
{
    let e1 = m.guid;
    let e2 = m.nonce5;
    let e3 = spec_enc_u8(m.kex_suite.spec_tag());
    let e4 = spec_enc_u8(m.cipher_suite.spec_tag());
    let e5 = spec_enc_sig_info(m.a_signature_info);
    let b = spec_encode_hello_device(m);
    lemma_enc_u64_len(m.a_signature_info.info.len() as u64);
    vstd::seq_lib::lemma_concat_associative(e1 + e2 + e3, e4, e5);
    vstd::seq_lib::lemma_concat_associative(e1 + e2, e3, e4 + e5);
    vstd::seq_lib::lemma_concat_associative(e1, e2, e3 + (e4 + e5));
    assert(b == e1 + (e2 + (e3 + (e4 + e5))));
    lemma_fixed_round_trip(e1, e2 + (e3 + (e4 + e5)));
    assert(spec_dec_fixed(b, 16) == Some((e1, 16int)));
    lemma_concat_skip(e1, e2 + (e3 + (e4 + e5)));
    assert(b.skip(16) == e2 + (e3 + (e4 + e5)));
    lemma_fixed_round_trip(e2, e3 + (e4 + e5));
    lemma_concat_skip(e2, e3 + (e4 + e5));
    lemma_skip_skip(b, 16, 16);
    assert(b.skip(32) == e3 + (e4 + e5));
    lemma_u8_round_trip(m.kex_suite.spec_tag(), e4 + e5);
    lemma_concat_skip(e3, e4 + e5);
    lemma_skip_skip(b, 32, 1);
    assert(b.skip(33) == e4 + e5);
    lemma_u8_round_trip(m.cipher_suite.spec_tag(), e5);
    lemma_concat_skip(e4, e5);
    lemma_skip_skip(b, 33, 1);
    assert(b.skip(34) == e5);
    lemma_sig_info_round_trip(m.a_signature_info, Seq::<u8>::empty());
    assert(e5 + Seq::<u8>::empty() =~= e5);
    assert(spec_dec_sig_info(b.skip(34)) == Some(
        (m.a_signature_info, 9 + m.a_signature_info.info.len() as int),
    ));
}

/// A successful decode pins the input to exactly one encoding.
pub proof fn lemma_hello_device_decode_pinned(b: Seq<u8>)
    ensures
        spec_decode_hello_device(b) matches Some(m) ==> m.wf() && b == spec_encode_hello_device(m),
{
    if spec_decode_hello_device(b) is Some {
        let m = spec_decode_hello_device(b)->Some_0;
        lemma_fixed_sound(b, 16);
        lemma_fixed_sound(b.skip(16), 16);
        lemma_u8_sound(b.skip(32));
        lemma_u8_sound(b.skip(33));
        lemma_sig_info_sound(b.skip(34));
        let (si, n) = spec_dec_sig_info(b.skip(34))->Some_0;
        assert(b =~= b.take(16) + b.skip(16).take(16) + b.skip(32).take(1) + b.skip(33).take(1)
            + b.skip(34).take(n));
    }
}

impl HelloDevice {
    pub fn new(
        guid: Guid,
        nonce5: Nonce,
        kex_suite: KexSuite,
        cipher_suite: CipherSuite,
        a_signature_info: SigInfo,
    ) -> (r: HelloDevice)
        ensures
            r@ == (HelloDeviceV {
                guid: guid@,
                nonce5: nonce5@,
                kex_suite,
                cipher_suite,
                a_signature_info: a_signature_info@,
            }),
            guid.wf() && nonce5.wf() ==> r@.wf(),
    {
        proof {
            assert(a_signature_info.info.len() == a_signature_info.info@.len());
        }
        HelloDevice { guid, nonce5, kex_suite, cipher_suite, a_signature_info }
    }

    pub fn guid(&self) -> (r: &Guid)
        ensures
            r@ == self@.guid,
    {
        &self.guid
    }

    pub fn nonce5(&self) -> (r: &Nonce)
        ensures
            r@ == self@.nonce5,
    {
        &self.nonce5
    }

    pub fn kex_suite(&self) -> (r: KexSuite)
        ensures
            r == self@.kex_suite,
    {
        self.kex_suite
    }

    pub fn cipher_suite(&self) -> (r: CipherSuite)
        ensures
            r == self@.cipher_suite,
    {
        self.cipher_suite
    }

    pub fn a_signature_info(&self) -> (r: &SigInfo)
        ensures
            r@ == self@.a_signature_info,
    {
        &self.a_signature_info
    }

    pub fn message_type() -> (r: MessageType)
        ensures
            r == MessageType::TO2HelloDevice,
    {
        MessageType::TO2HelloDevice
    }

    pub fn encryption_requirement() -> (r: Option<EncryptionRequirement>)
        ensures
            r == MessageType::TO2HelloDevice.spec_encryption_requirement(),
    {
        MessageType::TO2HelloDevice.encryption_requirement()
    }

    pub fn is_valid_previous_message(message_type: Option<MessageType>) -> (r: bool)
        ensures
            r == MessageType::TO2HelloDevice.spec_valid_previous(message_type),
    {
        MessageType::TO2HelloDevice.valid_previous(message_type)
    }

    pub fn encode(&self) -> (r: Vec<u8>)
        ensures
            r@ == spec_encode_hello_device(self@),
    {
        let mut out: Vec<u8> = Vec::new();
        write_fixed(&mut out, &self.guid.value);
        write_fixed(&mut out, &self.nonce5.value);
        write_u8(&mut out, self.kex_suite.tag());
        write_u8(&mut out, self.cipher_suite.tag());
        write_sig_info(&mut out, &self.a_signature_info);
        proof {
            assert(out@ =~= spec_encode_hello_device(self@));
        }
        out
    }

    pub fn decode(bytes: &[u8]) -> (r: Result<HelloDevice, DecodeError>)
        ensures
            match r {
                Ok(m) => spec_decode_hello_device(bytes@) == Some(m@) && m@.wf(),
                Err(_) => spec_decode_hello_device(bytes@) is None,
            },
    {
        proof {
            assert(bytes@.skip(0) =~= bytes@);
        }
        let (gv, p1) = match read_fixed(bytes, 0, 16) {
            Ok(x) => x,
            Err(e) => {
                return Err(e);
            },
        };
        let (nv, p2) = match read_fixed(bytes, p1, 16) {
            Ok(x) => x,
            Err(e) => {
                return Err(e);
            },
        };
        let (c1, p3) = match read_u8(bytes, p2) {
            Ok(x) => x,
            Err(e) => {
                return Err(e);
            },
        };
        let kex_suite = match KexSuite::from_tag(c1) {
            Some(v) => v,
            None => {
                return Err(DecodeError::BadTag);
            },
        };
        let (c2, p4) = match read_u8(bytes, p3) {
            Ok(x) => x,
            Err(e) => {
                return Err(e);
            },
        };
        let cipher_suite = match CipherSuite::from_tag(c2) {
            Some(v) => v,
            None => {
                return Err(DecodeError::BadTag);
            },
        };
        let (a_signature_info, p5) = match read_sig_info(bytes, p4) {
            Ok(x) => x,
            Err(e) => {
                return Err(e);
            },
        };
        if p5 != bytes.len() {
            return Err(DecodeError::TrailingBytes);
        }
        proof {
            lemma_sig_info_sound(bytes@.skip(34));
        }
        Ok(
            HelloDevice {
                guid: Guid { value: gv },
                nonce5: Nonce { value: nv },
                kex_suite,
                cipher_suite,
                a_signature_info,
            },
        )
    }
}

// ---------------------------------------------------------------------------
// messages that wrap one signed envelope
// ---------------------------------------------------------------------------

/// Model of a message that is exactly one signed envelope.
#[verifier::ext_equal]
pub struct TokenV {
    pub token: CoseSignV,
}

impl TokenV {
    pub open spec fn wf(self) -> bool {
        self.token.wf()
    }
}

pub open spec fn spec_encode_token(m: TokenV) -> Seq<u8> {
    spec_enc_cose(m.token)
}

pub open spec fn spec_decode_token(b: Seq<u8>) -> Option<TokenV> {
    match spec_dec_cose(b) {
        Some((c, n)) => {
            if n == b.len() {
                Some(TokenV { token: c })
            } else {
                None
            }
        },
        None => None,
    }
}

/// Decoding an encoding of a well-formed envelope message yields it back.
pub proof fn lemma_token_round_trip(m: TokenV)
    requires
        m.wf(),
    ensures
        spec_decode_token(spec_encode_token(m)) == Some(m),
{
    let b = spec_encode_token(m);
    lemma_cose_round_trip(m.token, Seq::<u8>::empty());
    assert(b + Seq::<u8>::empty() =~= b);
}

/// A successful decode pins the input to exactly one encoding.
pub proof fn lemma_token_decode_pinned(b: Seq<u8>)
    ensures
        spec_decode_token(b) matches Some(m) ==> m.wf() && b == spec_encode_token(m),
{
    if spec_decode_token(b) is Some {
        lemma_cose_sound(b);
        let (c, n) = spec_dec_cose(b)->Some_0;
        assert(b.take(n) =~= b);
    }
}

fn decode_token_message(bytes: &[u8]) -> (r: Result<COSESign, DecodeError>)
    ensures
        match r {
            Ok(t) => spec_decode_token(bytes@) == Some(TokenV { token: t@ }) && t.wf(),
            Err(_) => spec_decode_token(bytes@) is None,
        },
{
    proof {
        assert(bytes@.skip(0) =~= bytes@);
    }
    let (token, p) = match read_cose(bytes, 0) {
        Ok(x) => x,
        Err(e) => {
            return Err(e);
        },
    };
    if p != bytes.len() {
        return Err(DecodeError::TrailingBytes);
    }
    Ok(token)
}

/// The owner proves it holds the voucher: a signed envelope over the voucher
/// header, carrying the owner's own key-exchange value.
#[derive(Clone, Debug, PartialEq, Eq)]
pub struct ProveOVHdr {
    pub token: COSESign,
}

impl View for ProveOVHdr {
    type V = TokenV;

    open spec fn view(&self) -> TokenV {
        TokenV { token: self.token@ }
    }
}

impl ProveOVHdr {
    pub fn new(token: COSESign) -> (r: ProveOVHdr)
        ensures
            r@ == (TokenV { token: token@ }),
    {
        ProveOVHdr { token }
    }

    pub fn into_token(self) -> (r: COSESign)
        ensures
            r@ == self@.token,
    {
        self.token
    }

    pub fn message_type() -> (r: MessageType)
        ensures
            r == MessageType::TO2ProveOVHdr,
    {
        MessageType::TO2ProveOVHdr
    }

    pub fn encryption_requirement() -> (r: Option<EncryptionRequirement>)
        ensures
            r == MessageType::TO2ProveOVHdr.spec_encryption_requirement(),
    {
        MessageType::TO2ProveOVHdr.encryption_requirement()
    }

    pub fn is_valid_previous_message(message_type: Option<MessageType>) -> (r: bool)
        ensures
            r == MessageType::TO2ProveOVHdr.spec_valid_previous(message_type),
    {
        MessageType::TO2ProveOVHdr.valid_previous(message_type)
    }

    pub fn encode(&self) -> (r: Vec<u8>)
        ensures
            r@ == spec_encode_token(self@),
    {
        let mut out: Vec<u8> = Vec::new();
        write_cose(&mut out, &self.token);
        proof {
            assert(out@ =~= spec_encode_token(self@));
        }
        out
    }

    pub fn decode(bytes: &[u8]) -> (r: Result<ProveOVHdr, DecodeError>)
        ensures
            match r {
                Ok(m) => spec_decode_token(bytes@) == Some(m@) && m@.wf(),
                Err(_) => spec_decode_token(bytes@) is None,
            },
    {
        match decode_token_message(bytes) {
            Ok(token) => Ok(ProveOVHdr { token }),
            Err(e) => Err(e),
        }
    }
}

/// The device proves itself to the owner: a signed envelope over the
/// device's attestation, carrying the device's key-exchange value.
#[derive(Clone, Debug, PartialEq, Eq)]
pub struct ProveDevice {
    pub token: COSESign,
}

impl View for ProveDevice {
    type V = TokenV;

    open spec fn view(&self) -> TokenV {
        TokenV { token: self.token@ }
    }
}

impl ProveDevice {
    pub fn new(token: COSESign) -> (r: ProveDevice)
        ensures
            r@ == (TokenV { token: token@ }),
    {
        ProveDevice { token }
    }

    pub fn into_token(self) -> (r: COSESign)
        ensures
            r@ == self@.token,
    {
        self.token
    }

    pub fn message_type() -> (r: MessageType)
        ensures
            r == MessageType::TO2ProveDevice,
    {
        MessageType::TO2ProveDevice
    }

    pub fn encryption_requirement() -> (r: Option<EncryptionRequirement>)
        ensures
            r == MessageType::TO2ProveDevice.spec_encryption_requirement(),
    {
        MessageType::TO2ProveDevice.encryption_requirement()
    }

    pub fn is_valid_previous_message(message_type: Option<MessageType>) -> (r: bool)
        ensures
            r == MessageType::TO2ProveDevice.spec_valid_previous(message_type),
    {
        MessageType::TO2ProveDevice.valid_previous(message_type)
    }

    pub fn encode(&self) -> (r: Vec<u8>)
        ensures
            r@ == spec_encode_token(self@),
    {
        let mut out: Vec<u8> = Vec::new();
        write_cose(&mut out, &self.token);
        proof {
            assert(out@ =~= spec_encode_token(self@));
        }
        out
    }

    pub fn decode(bytes: &[u8]) -> (r: Result<ProveDevice, DecodeError>)
        ensures
            match r {
                Ok(m) => spec_decode_token(bytes@) == Some(m@) && m@.wf(),
                Err(_) => spec_decode_token(bytes@) is None,
            },
    {
        match decode_token_message(bytes) {
            Ok(token) => Ok(ProveDevice { token }),
            Err(e) => Err(e),
        }
    }
}

/// The owner hands the device its replacement credentials: a signed envelope
/// the device verifies before accepting any of it.
#[derive(Clone, Debug, PartialEq, Eq)]
pub struct SetupDevice {
    pub token: COSESign,
}

impl View for SetupDevice {
    type V = TokenV;

    open spec fn view(&self) -> TokenV {
        TokenV { token: self.token@ }
    }
}

impl SetupDevice {
    pub fn new(token: COSESign) -> (r: SetupDevice)
        ensures
            r@ == (TokenV { token: token@ }),
    {
        SetupDevice { token }
    }

    pub fn into_token(self) -> (r: COSESign)
        ensures
            r@ == self@.token,
    {
        self.token
    }

    pub fn message_type() -> (r: MessageType)
        ensures
            r == MessageType::TO2SetupDevice,
    {
        MessageType::TO2SetupDevice
    }

    pub fn encryption_requirement() -> (r: Option<EncryptionRequirement>)
        ensures
            r == MessageType::TO2SetupDevice.spec_encryption_requirement(),
    {
        MessageType::TO2SetupDevice.encryption_requirement()
    }

    pub fn is_valid_previous_message(message_type: Option<MessageType>) -> (r: bool)
        ensures
            r == MessageType::TO2SetupDevice.spec_valid_previous(message_type),
    {
        MessageType::TO2SetupDevice.valid_previous(message_type)
    }

    pub fn encode(&self) -> (r: Vec<u8>)
        ensures
            r@ == spec_encode_token(self@),
    {
        let mut out: Vec<u8> = Vec::new();
        write_cose(&mut out, &self.token);
        proof {
            assert(out@ =~= spec_encode_token(self@));
        }
        out
    }

    pub fn decode(bytes: &[u8]) -> (r: Result<SetupDevice, DecodeError>)
        ensures
            match r {
                Ok(m) => spec_decode_token(bytes@) == Some(m@) && m@.wf(),
                Err(_) => spec_decode_token(bytes@) is None,
            },
    {
        match decode_token_message(bytes) {
            Ok(token) => Ok(SetupDevice { token }),
            Err(e) => Err(e),
        }
    }
}

// ---------------------------------------------------------------------------
// GetOVNextEntry / OVNextEntry
// ---------------------------------------------------------------------------

/// Model of `GetOVNextEntry`.
#[verifier::ext_equal]
pub struct GetOVNextEntryV {
    pub entry_num: u8,
}

impl GetOVNextEntryV {
    pub open spec fn wf(self) -> bool {
        true
    }
}

/// The device asks for the voucher entry with the given index.
#[derive(Clone, Debug, PartialEq, Eq)]
pub struct GetOVNextEntry {
    pub entry_num: u8,
}

impl View for GetOVNextEntry {
    type V = GetOVNextEntryV;

    open spec fn view(&self) -> GetOVNextEntryV {
        GetOVNextEntryV { entry_num: self.entry_num }
    }
}

pub open spec fn spec_encode_get_ov_next_entry(m: GetOVNextEntryV) -> Seq<u8> {
    spec_enc_u8(m.entry_num)
}

pub open spec fn spec_decode_get_ov_next_entry(b: Seq<u8>) -> Option<GetOVNextEntryV> {
    match spec_dec_u8(b) {
        Some((v, n)) => {
            if n == b.len() {
                Some(GetOVNextEntryV { entry_num: v })
            } else {
                None
            }
        },
        None => None,
    }
}

/// Decoding an encoding of `GetOVNextEntry` yields it back.
pub proof fn lemma_get_ov_next_entry_round_trip(m: GetOVNextEntryV)
    ensures
        spec_decode_get_ov_next_entry(spec_encode_get_ov_next_entry(m)) == Some(m),
{
    let b = spec_encode_get_ov_next_entry(m);
    lemma_u8_round_trip(m.entry_num, Seq::<u8>::empty());
    assert(b + Seq::<u8>::empty() =~= b);
}

/// A successful decode pins the input to exactly one encoding.
pub proof fn lemma_get_ov_next_entry_decode_pinned(b: Seq<u8>)
    ensures
        spec_decode_get_ov_next_entry(b) matches Some(m) ==> m.wf() && b
            == spec_encode_get_ov_next_entry(m),
{
    if spec_decode_get_ov_next_entry(b) is Some {
        lemma_u8_sound(b);
        assert(b.take(1int) =~= b);
    }
}

impl GetOVNextEntry {
    pub fn new(entry_num: u8) -> (r: GetOVNextEntry)
        ensures
            r@ == (GetOVNextEntryV { entry_num }),
    {
        GetOVNextEntry { entry_num }
    }

    pub fn entry_num(&self) -> (r: u8)
        ensures
            r == self@.entry_num,
    {
        self.entry_num
    }

    pub fn message_type() -> (r: MessageType)
        ensures
            r == MessageType::TO2GetOVNextEntry,
    {
        MessageType::TO2GetOVNextEntry
    }

    pub fn encryption_requirement() -> (r: Option<EncryptionRequirement>)
        ensures
            r == MessageType::TO2GetOVNextEntry.spec_encryption_requirement(),
    {
        MessageType::TO2GetOVNextEntry.encryption_requirement()
    }

    pub fn is_valid_previous_message(message_type: Option<MessageType>) -> (r: bool)
        ensures
            r == MessageType::TO2GetOVNextEntry.spec_valid_previous(message_type),
    {
        MessageType::TO2GetOVNextEntry.valid_previous(message_type)
    }

    pub fn encode(&self) -> (r: Vec<u8>)
        ensures
            r@ == spec_encode_get_ov_next_entry(self@),
    {
        let mut out: Vec<u8> = Vec::new();
        write_u8(&mut out, self.entry_num);
        proof {
            assert(out@ =~= spec_encode_get_ov_next_entry(self@));
        }
        out
    }

    pub fn decode(bytes: &[u8]) -> (r: Result<GetOVNextEntry, DecodeError>)
        ensures
            match r {
                Ok(m) => spec_decode_get_ov_next_entry(bytes@) == Some(m@) && m@.wf(),
                Err(_) => spec_decode_get_ov_next_entry(bytes@) is None,
            },
    {
        proof {
            assert(bytes@.skip(0) =~= bytes@);
        }
        let (entry_num, p) = match read_u8(bytes, 0) {
            Ok(x) => x,
            Err(e) => {
                return Err(e);
            },
        };
        if p != bytes.len() {
            return Err(DecodeError::TrailingBytes);
        }
        Ok(GetOVNextEntry { entry_num })
    }
}

/// Model of `OVNextEntry`.
#[verifier::ext_equal]
pub struct OVNextEntryV {
    pub entry_num: u16,
    pub entry: CoseSignV,
}

impl OVNextEntryV {
    pub open spec fn wf(self) -> bool {
        self.entry.wf()
    }
}

/// The owner returns the requested voucher entry: its index and the signed
/// entry itself.
#[derive(Clone, Debug, PartialEq, Eq)]
pub struct OVNextEntry {
    pub entry_num: u16,
    pub entry: COSESign,
}

impl View for OVNextEntry {
    type V = OVNextEntryV;

    open spec fn view(&self) -> OVNextEntryV {
        OVNextEntryV { entry_num: self.entry_num, entry: self.entry@ }
    }
}

pub open spec fn spec_encode_ov_next_entry(m: OVNextEntryV) -> Seq<u8> {
    spec_enc_u16(m.entry_num) + spec_enc_cose(m.entry)
}

pub open spec fn spec_decode_ov_next_entry(b: Seq<u8>) -> Option<OVNextEntryV> {
    match spec_dec_u16(b) {
        Some((v, _)) => match spec_dec_cose(b.skip(2)) {
            Some((c, n)) => {
                if 2 + n == b.len() {
                    Some(OVNextEntryV { entry_num: v, entry: c })
                } else {
                    None
                }
            },
            None => None,
        },
        None => None,
    }
}

/// Decoding an encoding of a well-formed `OVNextEntry` yields it back.
pub proof fn lemma_ov_next_entry_round_trip(m: OVNextEntryV)
    requires
        m.wf(),
    ensures
        spec_decode_ov_next_entry(spec_encode_ov_next_entry(m)) == Some(m),
{
    let e1 = spec_enc_u16(m.entry_num);
    let e2 = spec_enc_cose(m.entry);
    let b = spec_encode_ov_next_entry(m);
    lemma_enc_u16_len(m.entry_num);
    lemma_u16_round_trip(m.entry_num, e2);
    assert(spec_dec_u16(b) == Some((m.entry_num, 2int)));
    lemma_concat_skip(e1, e2);
    assert(b.skip(2) == e2);
    lemma_cose_round_trip(m.entry, Seq::<u8>::empty());
    assert(e2 + Seq::<u8>::empty() =~= e2);
}

/// A successful decode pins the input to exactly one encoding.
pub proof fn lemma_ov_next_entry_decode_pinned(b: Seq<u8>)
    ensures
        spec_decode_ov_next_entry(b) matches Some(m) ==> m.wf() && b == spec_encode_ov_next_entry(
            m,
        ),
{
    if spec_decode_ov_next_entry(b) is Some {
        let m = spec_decode_ov_next_entry(b)->Some_0;
        lemma_u16_sound(b);
        lemma_cose_sound(b.skip(2));
        let (c, n) = spec_dec_cose(b.skip(2))->Some_0;
        assert(b =~= b.take(2) + b.skip(2).take(n));
    }
}

impl OVNextEntry {
    pub fn new(entry_num: u16, entry: COSESign) -> (r: OVNextEntry)
        ensures
            r@ == (OVNextEntryV { entry_num, entry: entry@ }),
    {
        OVNextEntry { entry_num, entry }
    }

    pub fn entry_num(&self) -> (r: u16)
        ensures
            r == self@.entry_num,
    {
        self.entry_num
    }

    pub fn entry(&self) -> (r: &COSESign)
        ensures
            r@ == self@.entry,
    {
        &self.entry
    }

    pub fn message_type() -> (r: MessageType)
        ensures
            r == MessageType::TO2OVNextEntry,
    {
        MessageType::TO2OVNextEntry
    }

    pub fn encryption_requirement() -> (r: Option<EncryptionRequirement>)
        ensures
            r == MessageType::TO2OVNextEntry.spec_encryption_requirement(),
    {
        MessageType::TO2OVNextEntry.encryption_requirement()
    }

    pub fn is_valid_previous_message(message_type: Option<MessageType>) -> (r: bool)
        ensures
            r == MessageType::TO2OVNextEntry.spec_valid_previous(message_type),
    {
        MessageType::TO2OVNextEntry.valid_previous(message_type)
    }

    pub fn encode(&self) -> (r: Vec<u8>)
        ensures
            r@ == spec_encode_ov_next_entry(self@),
    {
        let mut out: Vec<u8> = Vec::new();
        write_u16(&mut out, self.entry_num);
        write_cose(&mut out, &self.entry);
        proof {
            assert(out@ =~= spec_encode_ov_next_entry(self@));
        }
        out
    }

    pub fn decode(bytes: &[u8]) -> (r: Result<OVNextEntry, DecodeError>)
        ensures
            match r {
                Ok(m) => spec_decode_ov_next_entry(bytes@) == Some(m@) && m@.wf(),
                Err(_) => spec_decode_ov_next_entry(bytes@) is None,
            },
    {
        proof {
            assert(bytes@.skip(0) =~= bytes@);
        }
        let (entry_num, p1) = match read_u16(bytes, 0) {
            Ok(x) => x,
            Err(e) => {
                return Err(e);
            },
        };
        let (entry, p2) = match read_cose(bytes, p1) {
            Ok(x) => x,
            Err(e) => {
                return Err(e);
            },
        };
        if p2 != bytes.len() {
            return Err(DecodeError::TrailingBytes);
        }
        Ok(OVNextEntry { entry_num, entry })
    }
}

// ---------------------------------------------------------------------------
// DeviceServiceInfoReady / OwnerServiceInfoReady
// ---------------------------------------------------------------------------

/// Model of `DeviceServiceInfoReady`.
#[verifier::ext_equal]
pub struct DeviceServiceInfoReadyV {
    pub replacement_hmac: Option<HashV>,
    pub max_owner_service_info_size: Option<u64>,
}

impl DeviceServiceInfoReadyV {
    pub open spec fn wf(self) -> bool {
        self.replacement_hmac matches Some(h) ==> h.wf()
    }
}

/// The device signals it is ready for service info, optionally handing over
/// the HMAC for its replacement voucher and its size limit for owner
/// messages.
#[derive(Clone, Debug, PartialEq, Eq)]
pub struct DeviceServiceInfoReady {
    pub replacement_hmac: Option<HMac>,
    pub max_owner_service_info_size: Option<u64>,
}

impl View for DeviceServiceInfoReady {
    type V = DeviceServiceInfoReadyV;

    open spec fn view(&self) -> DeviceServiceInfoReadyV {
        DeviceServiceInfoReadyV {
            replacement_hmac: match self.replacement_hmac {
                Some(h) => Some(h@),
                None => None,
            },
            max_owner_service_info_size: self.max_owner_service_info_size,
        }
    }
}

pub open spec fn spec_encode_device_service_info_ready(m: DeviceServiceInfoReadyV) -> Seq<u8> {
    spec_enc_opt_hash(m.replacement_hmac) + spec_enc_opt_u64(m.max_owner_service_info_size)
}

pub open spec fn spec_decode_device_service_info_ready(b: Seq<u8>) -> Option<
    DeviceServiceInfoReadyV,
> {
    match spec_dec_opt_hash(b) {
        Some((h, n1)) => match spec_dec_opt_u64(b.skip(n1)) {
            Some((s, n2)) => {
                if n1 + n2 == b.len() {
                    Some(
                        DeviceServiceInfoReadyV {
                            replacement_hmac: h,
                            max_owner_service_info_size: s,
                        },
                    )
                } else {
                    None
                }
            },
            None => None,
        },
        None => None,
    }
}

/// Decoding an encoding of a well-formed `DeviceServiceInfoReady` yields it
/// back.
pub proof fn lemma_device_service_info_ready_round_trip(m: DeviceServiceInfoReadyV)
    requires
        m.wf(),
    ensures
        spec_decode_device_service_info_ready(spec_encode_device_service_info_ready(m)) == Some(m),
{
    let e1 = spec_enc_opt_hash(m.replacement_hmac);
    let e2 = spec_enc_opt_u64(m.max_owner_service_info_size);
    let b = spec_encode_device_service_info_ready(m);
    lemma_opt_hash_round_trip(m.replacement_hmac, e2);
    lemma_concat_skip(e1, e2);
    assert(b.skip(e1.len() as int) == e2);
    lemma_opt_u64_round_trip(m.max_owner_service_info_size, Seq::<u8>::empty());
    assert(e2 + Seq::<u8>::empty() =~= e2);
}

/// A successful decode pins the input to exactly one encoding.
pub proof fn lemma_device_service_info_ready_decode_pinned(b: Seq<u8>)
    ensures
        spec_decode_device_service_info_ready(b) matches Some(m) ==> m.wf() && b
            == spec_encode_device_service_info_ready(m),
{
    if spec_decode_device_service_info_ready(b) is Some {
        lemma_opt_hash_sound(b);
        let (h, n1) = spec_dec_opt_hash(b)->Some_0;
        lemma_opt_u64_sound(b.skip(n1));
        let (s, n2) = spec_dec_opt_u64(b.skip(n1))->Some_0;
        assert(b =~= b.take(n1) + b.skip(n1).take(n2));
    }
}

impl DeviceServiceInfoReady {
    pub fn new(replacement_hmac: Option<HMac>, max_owner_service_info_size: Option<u64>) -> (r:
        DeviceServiceInfoReady)
        ensures
            r@.replacement_hmac == (match replacement_hmac {
                Some(h) => Some(h@),
                None => None::<HashV>,
            }),
            r@.max_owner_service_info_size == max_owner_service_info_size,
    {
        DeviceServiceInfoReady { replacement_hmac, max_owner_service_info_size }
    }

    pub fn replacement_hmac(&self) -> (r: Option<&HMac>)
        ensures
            match r {
                Some(h) => self@.replacement_hmac == Some(h@),
                None => self@.replacement_hmac is None,
            },
    {
        self.replacement_hmac.as_ref()
    }

    pub fn max_owner_service_info_size(&self) -> (r: Option<u64>)
        ensures
            r == self@.max_owner_service_info_size,
    {
        self.max_owner_service_info_size
    }

    pub fn message_type() -> (r: MessageType)
        ensures
            r == MessageType::TO2DeviceServiceInfoReady,
    {
        MessageType::TO2DeviceServiceInfoReady
    }

    pub fn encryption_requirement() -> (r: Option<EncryptionRequirement>)
        ensures
            r == MessageType::TO2DeviceServiceInfoReady.spec_encryption_requirement(),
    {
        MessageType::TO2DeviceServiceInfoReady.encryption_requirement()
    }

    pub fn is_valid_previous_message(message_type: Option<MessageType>) -> (r: bool)
        ensures
            r == MessageType::TO2DeviceServiceInfoReady.spec_valid_previous(message_type),
    {
        MessageType::TO2DeviceServiceInfoReady.valid_previous(message_type)
    }

    pub fn encode(&self) -> (r: Vec<u8>)
        ensures
            r@ == spec_encode_device_service_info_ready(self@),
    {
        let mut out: Vec<u8> = Vec::new();
        write_opt_hash(&mut out, &self.replacement_hmac);
        write_opt_u64(&mut out, &self.max_owner_service_info_size);
        proof {
            assert(out@ =~= spec_encode_device_service_info_ready(self@));
        }
        out
    }

    pub fn decode(bytes: &[u8]) -> (r: Result<DeviceServiceInfoReady, DecodeError>)
        ensures
            match r {
                Ok(m) => spec_decode_device_service_info_ready(bytes@) == Some(m@) && m@.wf(),
                Err(_) => spec_decode_device_service_info_ready(bytes@) is None,
            },
    {
        proof {
            assert(bytes@.skip(0) =~= bytes@);
        }
        let (replacement_hmac, p1) = match read_opt_hmac(bytes, 0) {
            Ok(x) => x,
            Err(e) => {
                return Err(e);
            },
        };
        let (max_owner_service_info_size, p2) = match read_opt_u64(bytes, p1) {
            Ok(x) => x,
            Err(e) => {
                return Err(e);
            },
        };
        if p2 != bytes.len() {
            return Err(DecodeError::TrailingBytes);
        }
        proof {
            lemma_opt_hash_sound(bytes@);
        }
        Ok(DeviceServiceInfoReady { replacement_hmac, max_owner_service_info_size })
    }
}

/// Model of `OwnerServiceInfoReady`.
#[verifier::ext_equal]
pub struct OwnerServiceInfoReadyV {
    pub max_device_service_info_size: Option<u64>,
}

impl OwnerServiceInfoReadyV {
    pub open spec fn wf(self) -> bool {
        true
    }
}

/// The owner answers that it too is ready for service info, with its own
/// size limit for device messages.
#[derive(Clone, Debug, PartialEq, Eq)]
pub struct OwnerServiceInfoReady {
    pub max_device_service_info_size: Option<u64>,
}

impl View for OwnerServiceInfoReady {
    type V = OwnerServiceInfoReadyV;

    open spec fn view(&self) -> OwnerServiceInfoReadyV {
        OwnerServiceInfoReadyV { max_device_service_info_size: self.max_device_service_info_size }
    }
}

pub open spec fn spec_encode_owner_service_info_ready(m: OwnerServiceInfoReadyV) -> Seq<u8> {
    spec_enc_opt_u64(m.max_device_service_info_size)
}

pub open spec fn spec_decode_owner_service_info_ready(b: Seq<u8>) -> Option<
    OwnerServiceInfoReadyV,
> {
    match spec_dec_opt_u64(b) {
        Some((s, n)) => {
            if n == b.len() {
                Some(OwnerServiceInfoReadyV { max_device_service_info_size: s })
            } else {
                None
            }
        },
        None => None,
    }
}

/// Decoding an encoding of `OwnerServiceInfoReady` yields it back.
pub proof fn lemma_owner_service_info_ready_round_trip(m: OwnerServiceInfoReadyV)
    ensures
        spec_decode_owner_service_info_ready(spec_encode_owner_service_info_ready(m)) == Some(m),
{
    let b = spec_encode_owner_service_info_ready(m);
    lemma_opt_u64_round_trip(m.max_device_service_info_size, Seq::<u8>::empty());
    assert(b + Seq::<u8>::empty() =~= b);
}

/// A successful decode pins the input to exactly one encoding.
pub proof fn lemma_owner_service_info_ready_decode_pinned(b: Seq<u8>)
    ensures
        spec_decode_owner_service_info_ready(b) matches Some(m) ==> m.wf() && b
            == spec_encode_owner_service_info_ready(m),
{
    if spec_decode_owner_service_info_ready(b) is Some {
        lemma_opt_u64_sound(b);
        let (s, n) = spec_dec_opt_u64(b)->Some_0;
        assert(b.take(n) =~= b);
    }
}

impl OwnerServiceInfoReady {
    pub fn new(max_device_service_info_size: Option<u64>) -> (r: OwnerServiceInfoReady)
        ensures
            r@ == (OwnerServiceInfoReadyV { max_device_service_info_size }),
    {
        OwnerServiceInfoReady { max_device_service_info_size }
    }

    pub fn max_device_service_info_size(&self) -> (r: Option<u64>)
        ensures
            r == self@.max_device_service_info_size,
    {
        self.max_device_service_info_size
    }

    pub fn message_type() -> (r: MessageType)
        ensures
            r == MessageType::TO2OwnerServiceInfoReady,
    {
        MessageType::TO2OwnerServiceInfoReady
    }

    pub fn encryption_requirement() -> (r: Option<EncryptionRequirement>)
        ensures
            r == MessageType::TO2OwnerServiceInfoReady.spec_encryption_requirement(),
    {
        MessageType::TO2OwnerServiceInfoReady.encryption_requirement()
    }

    pub fn is_valid_previous_message(message_type: Option<MessageType>) -> (r: bool)
        ensures
            r == MessageType::TO2OwnerServiceInfoReady.spec_valid_previous(message_type),
    {
        MessageType::TO2OwnerServiceInfoReady.valid_previous(message_type)
    }

    pub fn encode(&self) -> (r: Vec<u8>)
        ensures
            r@ == spec_encode_owner_service_info_ready(self@),
    {
        let mut out: Vec<u8> = Vec::new();
        write_opt_u64(&mut out, &self.max_device_service_info_size);
        proof {
            assert(out@ =~= spec_encode_owner_service_info_ready(self@));
        }
        out
    }

    pub fn decode(bytes: &[u8]) -> (r: Result<OwnerServiceInfoReady, DecodeError>)
        ensures
            match r {
                Ok(m) => spec_decode_owner_service_info_ready(bytes@) == Some(m@) && m@.wf(),
                Err(_) => spec_decode_owner_service_info_ready(bytes@) is None,
            },
    {
        proof {
            assert(bytes@.skip(0) =~= bytes@);
        }
        let (max_device_service_info_size, p) = match read_opt_u64(bytes, 0) {
            Ok(x) => x,
            Err(e) => {
                return Err(e);
            },
        };
        if p != bytes.len() {
            return Err(DecodeError::TrailingBytes);
        }
        Ok(OwnerServiceInfoReady { max_device_service_info_size })
    }
}

// ---------------------------------------------------------------------------
// DeviceServiceInfo / OwnerServiceInfo
// ---------------------------------------------------------------------------

/// Model of `DeviceServiceInfo`.
#[verifier::ext_equal]
pub struct DeviceServiceInfoV {
    pub is_more_service_info: bool,
    pub service_info: Seq<u8>,
}

impl DeviceServiceInfoV {
    pub open spec fn wf(self) -> bool {
        self.service_info.len() <= u64::MAX
    }
}

/// One device-side service-info chunk, with the flag that says whether more
/// chunks follow.
#[derive(Clone, Debug, PartialEq, Eq)]
pub struct DeviceServiceInfo {
    pub is_more_service_info: bool,
    pub service_info: ServiceInfo,
}

impl View for DeviceServiceInfo {
    type V = DeviceServiceInfoV;

    open spec fn view(&self) -> DeviceServiceInfoV {
        DeviceServiceInfoV {
            is_more_service_info: self.is_more_service_info,
            service_info: self.service_info@,
        }
    }
}

pub open spec fn spec_encode_device_service_info(m: DeviceServiceInfoV) -> Seq<u8> {
    spec_enc_bool(m.is_more_service_info) + spec_enc_bytes(m.service_info)
}

pub open spec fn spec_decode_device_service_info(b: Seq<u8>) -> Option<DeviceServiceInfoV> {
    match spec_dec_bool(b) {
        Some((more, _)) => match spec_dec_bytes(b.skip(1)) {
            Some((si, n)) => {
                if 1 + n == b.len() {
                    Some(DeviceServiceInfoV { is_more_service_info: more, service_info: si })
                } else {
                    None
                }
            },
            None => None,
        },
        None => None,
    }
}

/// Decoding an encoding of a well-formed `DeviceServiceInfo` yields it back.
pub proof fn lemma_device_service_info_round_trip(m: DeviceServiceInfoV)
    requires
        m.wf(),
    ensures
        spec_decode_device_service_info(spec_encode_device_service_info(m)) == Some(m),
{
    let e1 = spec_enc_bool(m.is_more_service_info);
    let e2 = spec_enc_bytes(m.service_info);
    let b = spec_encode_device_service_info(m);
    lemma_enc_u64_len(m.service_info.len() as u64);
    lemma_bool_round_trip(m.is_more_service_info, e2);
    lemma_concat_skip(e1, e2);
    assert(b.skip(1) == e2);
    lemma_bytes_round_trip(m.service_info, Seq::<u8>::empty());
    assert(e2 + Seq::<u8>::empty() =~= e2);
}

/// A successful decode pins the input to exactly one encoding.
pub proof fn lemma_device_service_info_decode_pinned(b: Seq<u8>)
    ensures
        spec_decode_device_service_info(b) matches Some(m) ==> m.wf() && b
            == spec_encode_device_service_info(m),
{
    if spec_decode_device_service_info(b) is Some {
        lemma_bool_sound(b);
        lemma_bytes_sound(b.skip(1));
        let (si, n) = spec_dec_bytes(b.skip(1))->Some_0;
        assert(b =~= b.take(1) + b.skip(1).take(n));
    }
}

impl DeviceServiceInfo {
    pub fn new(is_more_service_info: bool, service_info: ServiceInfo) -> (r: DeviceServiceInfo)
        ensures
            r@ == (DeviceServiceInfoV { is_more_service_info, service_info: service_info@ }),
            service_info.wf() ==> r@.wf(),
    {
        DeviceServiceInfo { is_more_service_info, service_info }
    }

    pub fn is_more_service_info(&self) -> (r: bool)
        ensures
            r == self@.is_more_service_info,
    {
        self.is_more_service_info
    }

    pub fn service_info(&self) -> (r: &ServiceInfo)
        ensures
            r@ == self@.service_info,
    {
        &self.service_info
    }

    pub fn message_type() -> (r: MessageType)
        ensures
            r == MessageType::TO2DeviceServiceInfo,
    {
        MessageType::TO2DeviceServiceInfo
    }

    pub fn encryption_requirement() -> (r: Option<EncryptionRequirement>)
        ensures
            r == MessageType::TO2DeviceServiceInfo.spec_encryption_requirement(),
    {
        MessageType::TO2DeviceServiceInfo.encryption_requirement()
    }

    pub fn is_valid_previous_message(message_type: Option<MessageType>) -> (r: bool)
        ensures
            r == MessageType::TO2DeviceServiceInfo.spec_valid_previous(message_type),
    {
        MessageType::TO2DeviceServiceInfo.valid_previous(message_type)
    }

    pub fn encode(&self) -> (r: Vec<u8>)
        ensures
            r@ == spec_encode_device_service_info(self@),
    {
        let mut out: Vec<u8> = Vec::new();
        write_bool(&mut out, self.is_more_service_info);
        write_bytes(&mut out, &self.service_info.body);
        proof {
            assert(out@ =~= spec_encode_device_service_info(self@));
        }
        out
    }

    pub fn decode(bytes: &[u8]) -> (r: Result<DeviceServiceInfo, DecodeError>)
        ensures
            match r {
                Ok(m) => spec_decode_device_service_info(bytes@) == Some(m@) && m@.wf(),
                Err(_) => spec_decode_device_service_info(bytes@) is None,
            },
    {
        proof {
            assert(bytes@.skip(0) =~= bytes@);
        }
        let (is_more_service_info, p1) = match read_bool(bytes, 0) {
            Ok(x) => x,
            Err(e) => {
                return Err(e);
            },
        };
        let (si, p2) = match read_bytes(bytes, p1) {
            Ok(x) => x,
            Err(e) => {
                return Err(e);
            },
        };
        if p2 != bytes.len() {
            return Err(DecodeError::TrailingBytes);
        }
        proof {
            lemma_bytes_sound(bytes@.skip(1));
        }
        Ok(DeviceServiceInfo { is_more_service_info, service_info: ServiceInfo { body: si } })
    }
}

/// Model of `OwnerServiceInfo`.
#[verifier::ext_equal]
pub struct OwnerServiceInfoV {
    pub is_more_service_info: bool,
    pub is_done: bool,
    pub service_info: Seq<u8>,
}

impl OwnerServiceInfoV {
    pub open spec fn wf(self) -> bool {
        self.service_info.len() <= u64::MAX
    }
}

/// One owner-side service-info chunk, with the flags that say whether more
/// chunks follow and whether the exchange is complete.
#[derive(Clone, Debug, PartialEq, Eq)]
pub struct OwnerServiceInfo {
    pub is_more_service_info: bool,
    pub is_done: bool,
    pub service_info: ServiceInfo,
}

impl View for OwnerServiceInfo {
    type V = OwnerServiceInfoV;

    open spec fn view(&self) -> OwnerServiceInfoV {
        OwnerServiceInfoV {
            is_more_service_info: self.is_more_service_info,
            is_done: self.is_done,
            service_info: self.service_info@,
        }
    }
}

pub open spec fn spec_encode_owner_service_info(m: OwnerServiceInfoV) -> Seq<u8> {
    spec_enc_bool(m.is_more_service_info) + spec_enc_bool(m.is_done) + spec_enc_bytes(
        m.service_info,
    )
}

pub open spec fn spec_decode_owner_service_info(b: Seq<u8>) -> Option<OwnerServiceInfoV> {
    match spec_dec_bool(b) {
        Some((more, _)) => match spec_dec_bool(b.skip(1)) {
            Some((done, _)) => match spec_dec_bytes(b.skip(2)) {
                Some((si, n)) => {
                    if 2 + n == b.len() {
                        Some(
                            OwnerServiceInfoV {
                                is_more_service_info: more,
                                is_done: done,
                                service_info: si,
                            },
                        )
                    } else {
                        None
                    }
                },
                None => None,
            },
            None => None,
        },
        None => None,
    }
}

/// Decoding an encoding of a well-formed `OwnerServiceInfo` yields it back.
pub proof fn lemma_owner_service_info_round_trip(m: OwnerServiceInfoV)
    requires
        m.wf(),
    ensures
        spec_decode_owner_service_info(spec_encode_owner_service_info(m)) == Some(m),
{
    let e1 = spec_enc_bool(m.is_more_service_info);
    let e2 = spec_enc_bool(m.is_done);
    let e3 = spec_enc_bytes(m.service_info);
    let b = spec_encode_owner_service_info(m);
    lemma_enc_u64_len(m.service_info.len() as u64);
    vstd::seq_lib::lemma_concat_associative(e1, e2, e3);
    assert(b == e1 + (e2 + e3));
    lemma_bool_round_trip(m.is_more_service_info, e2 + e3);
    lemma_concat_skip(e1, e2 + e3);
    assert(b.skip(1) == e2 + e3);
    lemma_bool_round_trip(m.is_done, e3);
    lemma_concat_skip(e2, e3);
    lemma_skip_skip(b, 1, 1);
    assert(b.skip(2) == e3);
    lemma_bytes_round_trip(m.service_info, Seq::<u8>::empty());
    assert(e3 + Seq::<u8>::empty() =~= e3);
}

/// A successful decode pins the input to exactly one encoding.
pub proof fn lemma_owner_service_info_decode_pinned(b: Seq<u8>)
    ensures
        spec_decode_owner_service_info(b) matches Some(m) ==> m.wf() && b
            == spec_encode_owner_service_info(m),
{
    if spec_decode_owner_service_info(b) is Some {
        lemma_bool_sound(b);
        lemma_bool_sound(b.skip(1));
        lemma_bytes_sound(b.skip(2));
        let (si, n) = spec_dec_bytes(b.skip(2))->Some_0;
        assert(b =~= b.take(1) + b.skip(1).take(1) + b.skip(2).take(n));
    }
}

impl OwnerServiceInfo {
    pub fn new(is_more_service_info: bool, is_done: bool, service_info: ServiceInfo) -> (r:
        OwnerServiceInfo)
        ensures
            r@ == (OwnerServiceInfoV {
                is_more_service_info,
                is_done,
                service_info: service_info@,
            }),
            service_info.wf() ==> r@.wf(),
    {
        OwnerServiceInfo { is_more_service_info, is_done, service_info }
    }

    pub fn is_more_service_info(&self) -> (r: bool)
        ensures
            r == self@.is_more_service_info,
    {
        self.is_more_service_info
    }

    pub fn is_done(&self) -> (r: bool)
        ensures
            r == self@.is_done,
    {
        self.is_done
    }

    pub fn service_info(&self) -> (r: &ServiceInfo)
        ensures
            r@ == self@.service_info,
    {
        &self.service_info
    }

    pub fn message_type() -> (r: MessageType)
        ensures
            r == MessageType::TO2OwnerServiceInfo,
    {
        MessageType::TO2OwnerServiceInfo
    }

    pub fn encryption_requirement() -> (r: Option<EncryptionRequirement>)
        ensures
            r == MessageType::TO2OwnerServiceInfo.spec_encryption_requirement(),
    {
        MessageType::TO2OwnerServiceInfo.encryption_requirement()
    }

    pub fn is_valid_previous_message(message_type: Option<MessageType>) -> (r: bool)
        ensures
            r == MessageType::TO2OwnerServiceInfo.spec_valid_previous(message_type),
    {
        MessageType::TO2OwnerServiceInfo.valid_previous(message_type)
    }

    pub fn encode(&self) -> (r: Vec<u8>)
        ensures
            r@ == spec_encode_owner_service_info(self@),
    {
        let mut out: Vec<u8> = Vec::new();
        write_bool(&mut out, self.is_more_service_info);
        write_bool(&mut out, self.is_done);
        write_bytes(&mut out, &self.service_info.body);
        proof {
            assert(out@ =~= spec_encode_owner_service_info(self@));
        }
        out
    }

    pub fn decode(bytes: &[u8]) -> (r: Result<OwnerServiceInfo, DecodeError>)
        ensures
            match r {
                Ok(m) => spec_decode_owner_service_info(bytes@) == Some(m@) && m@.wf(),
                Err(_) => spec_decode_owner_service_info(bytes@) is None,
            },
    {
        proof {
            assert(bytes@.skip(0) =~= bytes@);
        }
        let (is_more_service_info, p1) = match read_bool(bytes, 0) {
            Ok(x) => x,
            Err(e) => {
                return Err(e);
            },
        };
        let (is_done, p2) = match read_bool(bytes, p1) {
            Ok(x) => x,
            Err(e) => {
                return Err(e);
            },
        };
        let (si, p3) = match read_bytes(bytes, p2) {
            Ok(x) => x,
            Err(e) => {
                return Err(e);
            },
        };
        if p3 != bytes.len() {
            return Err(DecodeError::TrailingBytes);
        }
        proof {
            lemma_bytes_sound(bytes@.skip(2));
        }
        Ok(
            OwnerServiceInfo {
                is_more_service_info,
                is_done,
                service_info: ServiceInfo { body: si },
            },
        )
    }
}

// ---------------------------------------------------------------------------
// Done / Done2
// ---------------------------------------------------------------------------

/// Model of the device's closing message.
#[verifier::ext_equal]
pub struct DoneV {
    pub nonce6: Seq<u8>,
}

impl DoneV {
    pub open spec fn wf(self) -> bool {
        self.nonce6.len() == spec_nonce_len()
    }
}

/// The device closes the transfer, echoing the nonce the owner set for this
/// round.
#[derive(Clone, Debug, PartialEq, Eq)]
pub struct Done {
    pub nonce6: Nonce,
}

impl View for Done {
    type V = DoneV;

    open spec fn view(&self) -> DoneV {
        DoneV { nonce6: self.nonce6@ }
    }
}

pub open spec fn spec_encode_to2_done(m: DoneV) -> Seq<u8> {
    m.nonce6
}

pub open spec fn spec_decode_to2_done(b: Seq<u8>) -> Option<DoneV> {
    if b.len() == spec_nonce_len() {
        Some(DoneV { nonce6: b })
    } else {
        None
    }
}

/// Decoding an encoding of a well-formed `Done` yields it back.
pub proof fn lemma_to2_done_round_trip(m: DoneV)
    requires
        m.wf(),
    ensures
        spec_decode_to2_done(spec_encode_to2_done(m)) == Some(m),
{
}

/// A successful decode pins the input to exactly one encoding.
pub proof fn lemma_to2_done_decode_pinned(b: Seq<u8>)
    ensures
        spec_decode_to2_done(b) matches Some(m) ==> m.wf() && b == spec_encode_to2_done(m),
{
}

impl Done {
    pub fn new(nonce6: Nonce) -> (r: Done)
        ensures
            r@ == (DoneV { nonce6: nonce6@ }),
            nonce6.wf() ==> r@.wf(),
    {
        Done { nonce6 }
    }

    pub fn nonce6(&self) -> (r: &Nonce)
        ensures
            r@ == self@.nonce6,
    {
        &self.nonce6
    }

    pub fn message_type() -> (r: MessageType)
        ensures
            r == MessageType::TO2Done,
    {
        MessageType::TO2Done
    }

    pub fn encryption_requirement() -> (r: Option<EncryptionRequirement>)
        ensures
            r == MessageType::TO2Done.spec_encryption_requirement(),
    {
        MessageType::TO2Done.encryption_requirement()
    }

    pub fn is_valid_previous_message(message_type: Option<MessageType>) -> (r: bool)
        ensures
            r == MessageType::TO2Done.spec_valid_previous(message_type),
    {
        MessageType::TO2Done.valid_previous(message_type)
    }

    pub fn encode(&self) -> (r: Vec<u8>)
        ensures
            r@ == spec_encode_to2_done(self@),
    {
        let mut out: Vec<u8> = Vec::new();
        write_fixed(&mut out, &self.nonce6.value);
        proof {
            assert(out@ =~= spec_encode_to2_done(self@));
        }
        out
    }

    pub fn decode(bytes: &[u8]) -> (r: Result<Done, DecodeError>)
        ensures
            match r {
                Ok(m) => spec_decode_to2_done(bytes@) == Some(m@) && m@.wf(),
                Err(_) => spec_decode_to2_done(bytes@) is None,
            },
    {
        if bytes.len() != 16 {
            return Err(DecodeError::BadLength);
        }
        let v = crate::codec::copy_range(bytes, 0, bytes.len());
        proof {
            assert(v@ =~= bytes@);
        }
        Ok(Done { nonce6: Nonce { value: v } })
    }
}

/// Model of the owner's closing message.
#[verifier::ext_equal]
pub struct Done2V {
    pub nonce7: Seq<u8>,
}

impl Done2V {
    pub open spec fn wf(self) -> bool {
        self.nonce7.len() == spec_nonce_len()
    }
}

/// The owner closes the transfer in turn, echoing the device's final nonce.
#[derive(Clone, Debug, PartialEq, Eq)]
pub struct Done2 {
    pub nonce7: Nonce,
}

impl View for Done2 {
    type V = Done2V;

    open spec fn view(&self) -> Done2V {
        Done2V { nonce7: self.nonce7@ }
    }
}

pub open spec fn spec_encode_to2_done2(m: Done2V) -> Seq<u8> {
    m.nonce7
}

pub open spec fn spec_decode_to2_done2(b: Seq<u8>) -> Option<Done2V> {
    if b.len() == spec_nonce_len() {
        Some(Done2V { nonce7: b })
    } else {
        None
    }
}

/// Decoding an encoding of a well-formed `Done2` yields it back.
pub proof fn lemma_to2_done2_round_trip(m: Done2V)
    requires
        m.wf(),
    ensures
        spec_decode_to2_done2(spec_encode_to2_done2(m)) == Some(m),
{
}

/// A successful decode pins the input to exactly one encoding.
pub proof fn lemma_to2_done2_decode_pinned(b: Seq<u8>)
    ensures
        spec_decode_to2_done2(b) matches Some(m) ==> m.wf() && b == spec_encode_to2_done2(m),
{
}

impl Done2 {
    pub fn new(nonce7: Nonce) -> (r: Done2)
        ensures
            r@ == (Done2V { nonce7: nonce7@ }),
            nonce7.wf() ==> r@.wf(),
    {
        Done2 { nonce7 }
    }

    pub fn nonce7(&self) -> (r: &Nonce)
        ensures
            r@ == self@.nonce7,
    {
        &self.nonce7
    }

    pub fn message_type() -> (r: MessageType)
        ensures
            r == MessageType::TO2Done2,
    {
        MessageType::TO2Done2
    }

    pub fn encryption_requirement() -> (r: Option<EncryptionRequirement>)
        ensures
            r == MessageType::TO2Done2.spec_encryption_requirement(),
    {
        MessageType::TO2Done2.encryption_requirement()
    }

    pub fn is_valid_previous_message(message_type: Option<MessageType>) -> (r: bool)
        ensures
            r == MessageType::TO2Done2.spec_valid_previous(message_type),
    {
        MessageType::TO2Done2.valid_previous(message_type)
    }

    pub fn encode(&self) -> (r: Vec<u8>)
        ensures
            r@ == spec_encode_to2_done2(self@),
    {
        let mut out: Vec<u8> = Vec::new();
        write_fixed(&mut out, &self.nonce7.value);
        proof {
            assert(out@ =~= spec_encode_to2_done2(self@));
        }
        out
    }

    pub fn decode(bytes: &[u8]) -> (r: Result<Done2, DecodeError>)
        ensures
            match r {
                Ok(m) => spec_decode_to2_done2(bytes@) == Some(m@) && m@.wf(),
                Err(_) => spec_decode_to2_done2(bytes@) is None,
            },
    {
        if bytes.len() != 16 {
            return Err(DecodeError::BadLength);
        }
        let v = crate::codec::copy_range(bytes, 0, bytes.len());
        proof {
            assert(v@ =~= bytes@);
        }
        Ok(Done2 { nonce7: Nonce { value: v } })
    }
}

} // verus!
