//! Messages of the plain device-initialization phase: the device reports its
//! manufacturing info, receives its credential header, answers with the HMAC
//! it computed over that header, and the phase closes.
//!
//! Each message carries its model (`...V`), a deterministic whole-message
//! codec tied to spec-level encode/decode functions, and the round-trip and
//! encoding-pinned laws: decoding an encoding yields the message back, and a
//! successful decode pins the input to be exactly one encoding — truncated
//! or over-long inputs are rejected.

use vstd::prelude::*;

use crate::codec::{
    lemma_bytes_round_trip, lemma_bytes_sound, read_bytes, spec_dec_bytes, spec_enc_bytes,
    write_bytes,
};
use crate::constants::{EncryptionRequirement, MessageType};
use crate::errors::DecodeError;
use crate::types::{
    lemma_cbor_round_trip, lemma_cbor_sound, lemma_hash_round_trip, lemma_hash_sound, read_cbor,
    read_hash_fields, spec_dec_cbor, spec_dec_hash, spec_enc_cbor, spec_enc_hash, write_cbor,
    write_hash_fields, CborSimpleType, CborValueV, HMac, HashV,
};

verus! {

// ---------------------------------------------------------------------------
// AppStart
// ---------------------------------------------------------------------------

/// Model of `AppStart`.
#[verifier::ext_equal]
pub struct AppStartV {
    pub mfg_info: CborValueV,
}

impl AppStartV {
    pub open spec fn wf(self) -> bool {
        self.mfg_info.wf()
    }
}

/// The device opens plain initialization by reporting its manufacturing
/// info.
#[derive(Clone, Debug, PartialEq, Eq)]
pub struct AppStart {
    pub mfg_info: CborSimpleType,
}

impl View for AppStart {
    type V = AppStartV;

    open spec fn view(&self) -> AppStartV {
        AppStartV { mfg_info: self.mfg_info@ }
    }
}

pub open spec fn spec_encode_app_start(m: AppStartV) -> Seq<u8> {
    spec_enc_cbor(m.mfg_info)
}

pub open spec fn spec_decode_app_start(b: Seq<u8>) -> Option<AppStartV> {
    match spec_dec_cbor(b) {
        Some((v, n)) => {
            if n == b.len() {
                Some(AppStartV { mfg_info: v })
            } else {
                None
            }
        },
        None => None,
    }
}

/// Decoding an encoding of a well-formed `AppStart` yields it back.
pub proof fn lemma_app_start_round_trip(m: AppStartV)
    requires
        m.wf(),
    ensures
        spec_decode_app_start(spec_encode_app_start(m)) == Some(m),
{
    let b = spec_encode_app_start(m);
    lemma_cbor_round_trip(m.mfg_info, Seq::<u8>::empty());
    assert(b + Seq::<u8>::empty() =~= b);
}

/// A successful decode pins the input: it was exactly the encoding of the
/// decoded message, so trailing bytes or truncation never pass.
pub proof fn lemma_app_start_decode_pinned(b: Seq<u8>)
    ensures
        spec_decode_app_start(b) matches Some(m) ==> m.wf() && b == spec_encode_app_start(m),
{
    if spec_decode_app_start(b) is Some {
        lemma_cbor_sound(b);
        let (v, n) = spec_dec_cbor(b)->Some_0;
        assert(b.take(n) =~= b);
    }
}

impl AppStart {
    pub fn new(mfg_info: CborSimpleType) -> (r: AppStart)
        ensures
            r@ == (AppStartV { mfg_info: mfg_info@ }),
    {
        AppStart { mfg_info }
    }

    pub fn mfg_info(&self) -> (r: &CborSimpleType)
        ensures
            r@ == self@.mfg_info,
    {
        &self.mfg_info
    }

    pub fn message_type() -> (r: MessageType)
        ensures
            r == MessageType::DIAppStart,
    {
        MessageType::DIAppStart
    }

    pub fn encryption_requirement() -> (r: Option<EncryptionRequirement>)
        ensures
            r == MessageType::DIAppStart.spec_encryption_requirement(),
    {
        MessageType::DIAppStart.encryption_requirement()
    }

    pub fn is_valid_previous_message(message_type: Option<MessageType>) -> (r: bool)
        ensures
            r == MessageType::DIAppStart.spec_valid_previous(message_type),
    {
        MessageType::DIAppStart.valid_previous(message_type)
    }

    pub fn encode(&self) -> (r: Vec<u8>)
        ensures
            r@ == spec_encode_app_start(self@),
    {
        let mut out: Vec<u8> = Vec::new();
        write_cbor(&mut out, &self.mfg_info);
        proof {
            assert(out@ =~= spec_encode_app_start(self@));
        }
        out
    }

    pub fn decode(bytes: &[u8]) -> (r: Result<AppStart, DecodeError>)
        ensures
            match r {
                Ok(m) => spec_decode_app_start(bytes@) == Some(m@) && m@.wf(),
                Err(_) => spec_decode_app_start(bytes@) is None,
            },
    {
        proof {
            assert(bytes@.skip(0) =~= bytes@);
        }
        let (mfg_info, p) = match read_cbor(bytes, 0) {
            Ok(x) => x,
            Err(e) => {
                return Err(e);
            },
        };
        if p != bytes.len() {
            return Err(DecodeError::TrailingBytes);
        }
        proof {
            lemma_cbor_sound(bytes@);
        }
        Ok(AppStart { mfg_info })
    }
}

// ---------------------------------------------------------------------------
// SetCredentials
// ---------------------------------------------------------------------------

/// Model of `SetCredentials`.
#[verifier::ext_equal]
pub struct SetCredentialsV {
    pub ov_header: Seq<u8>,
}

impl SetCredentialsV {
    pub open spec fn wf(self) -> bool {
        self.ov_header.len() <= u64::MAX
    }
}

/// The service answers with the encoded ownership-voucher header the device
/// is to hold as its credential.
#[derive(Clone, Debug, PartialEq, Eq)]
pub struct SetCredentials {
    pub ov_header: Vec<u8>,
}

impl View for SetCredentials {
    type V = SetCredentialsV;

    open spec fn view(&self) -> SetCredentialsV {
        SetCredentialsV { ov_header: self.ov_header@ }
    }
}

pub open spec fn spec_encode_set_credentials(m: SetCredentialsV) -> Seq<u8> {
    spec_enc_bytes(m.ov_header)
}

pub open spec fn spec_decode_set_credentials(b: Seq<u8>) -> Option<SetCredentialsV> {
    match spec_dec_bytes(b) {
        Some((v, n)) => {
            if n == b.len() {
                Some(SetCredentialsV { ov_header: v })
            } else {
                None
            }
        },
        None => None,
    }
}

/// Decoding an encoding of a well-formed `SetCredentials` yields it back.
pub proof fn lemma_set_credentials_round_trip(m: SetCredentialsV)
    requires
        m.wf(),
    ensures
        spec_decode_set_credentials(spec_encode_set_credentials(m)) == Some(m),
{
    let b = spec_encode_set_credentials(m);
    crate::codec::lemma_enc_u64_len(m.ov_header.len() as u64);
    lemma_bytes_round_trip(m.ov_header, Seq::<u8>::empty());
    assert(b + Seq::<u8>::empty() =~= b);
}

/// A successful decode pins the input to exactly one encoding.
pub proof fn lemma_set_credentials_decode_pinned(b: Seq<u8>)
    ensures
        spec_decode_set_credentials(b) matches Some(m) ==> m.wf() && b
            == spec_encode_set_credentials(m),
{
    if spec_decode_set_credentials(b) is Some {
        lemma_bytes_sound(b);
        let (v, n) = spec_dec_bytes(b)->Some_0;
        assert(b.take(n) =~= b);
    }
}

impl SetCredentials {
    pub fn new(ov_header: Vec<u8>) -> (r: SetCredentials)
        ensures
            r@ == (SetCredentialsV { ov_header: ov_header@ }),
            r@.wf(),
    {
        proof {
            assert(ov_header.len() == ov_header@.len());
        }
        SetCredentials { ov_header }
    }

    pub fn ov_header(&self) -> (r: &[u8])
        ensures
            r@ == self@.ov_header,
    {
        self.ov_header.as_slice()
    }

    pub fn message_type() -> (r: MessageType)
        ensures
            r == MessageType::DISetCredentials,
    {
        MessageType::DISetCredentials
    }

    pub fn encryption_requirement() -> (r: Option<EncryptionRequirement>)
        ensures
            r == MessageType::DISetCredentials.spec_encryption_requirement(),
    {
        MessageType::DISetCredentials.encryption_requirement()
    }

    pub fn is_valid_previous_message(message_type: Option<MessageType>) -> (r: bool)
        ensures
            r == MessageType::DISetCredentials.spec_valid_previous(message_type),
    {
        MessageType::DISetCredentials.valid_previous(message_type)
    }

    pub fn encode(&self) -> (r: Vec<u8>)
        ensures
            r@ == spec_encode_set_credentials(self@),
    {
        let mut out: Vec<u8> = Vec::new();
        write_bytes(&mut out, &self.ov_header);
        proof {
            assert(out@ =~= spec_encode_set_credentials(self@));
        }
        out
    }

    pub fn decode(bytes: &[u8]) -> (r: Result<SetCredentials, DecodeError>)
        ensures
            match r {
                Ok(m) => spec_decode_set_credentials(bytes@) == Some(m@) && m@.wf(),
                Err(_) => spec_decode_set_credentials(bytes@) is None,
            },
    {
        proof {
            assert(bytes@.skip(0) =~= bytes@);
        }
        let (ov_header, p) = match read_bytes(bytes, 0) {
            Ok(x) => x,
            Err(e) => {
                return Err(e);
            },
        };
        if p != bytes.len() {
            return Err(DecodeError::TrailingBytes);
        }
        proof {
            lemma_bytes_sound(bytes@);
        }
        Ok(SetCredentials { ov_header })
    }
}

// ---------------------------------------------------------------------------
// SetHMAC
// ---------------------------------------------------------------------------

/// Model of `SetHMAC`.
#[verifier::ext_equal]
pub struct SetHMACV {
    pub hmac: HashV,
}

impl SetHMACV {
    pub open spec fn wf(self) -> bool {
        self.hmac.wf()
    }
}

/// The device answers with the HMAC it computed over the credential header,
/// binding the voucher to the device.
#[derive(Clone, Debug, PartialEq, Eq)]
pub struct SetHMAC {
    pub hmac: HMac,
}

impl View for SetHMAC {
    type V = SetHMACV;

    open spec fn view(&self) -> SetHMACV {
        SetHMACV { hmac: self.hmac@ }
    }
}

pub open spec fn spec_encode_set_hmac(m: SetHMACV) -> Seq<u8> {
    spec_enc_hash(m.hmac)
}

pub open spec fn spec_decode_set_hmac(b: Seq<u8>) -> Option<SetHMACV> {
    match spec_dec_hash(b) {
        Some((v, n)) => {
            if n == b.len() {
                Some(SetHMACV { hmac: v })
            } else {
                None
            }
        },
        None => None,
    }
}

/// Decoding an encoding of a well-formed `SetHMAC` yields it back.
pub proof fn lemma_set_hmac_round_trip(m: SetHMACV)
    requires
        m.wf(),
    ensures
        spec_decode_set_hmac(spec_encode_set_hmac(m)) == Some(m),
{
    let b = spec_encode_set_hmac(m);
    lemma_hash_round_trip(m.hmac, Seq::<u8>::empty());
    assert(b + Seq::<u8>::empty() =~= b);
}

/// A successful decode pins the input to exactly one encoding.
pub proof fn lemma_set_hmac_decode_pinned(b: Seq<u8>)
    ensures
        spec_decode_set_hmac(b) matches Some(m) ==> m.wf() && b == spec_encode_set_hmac(m),
{
    if spec_decode_set_hmac(b) is Some {
        lemma_hash_sound(b);
        let (v, n) = spec_dec_hash(b)->Some_0;
        assert(b.take(n) =~= b);
    }
}

impl SetHMAC {
    pub fn new(hmac: HMac) -> (r: SetHMAC)
        ensures
            r@ == (SetHMACV { hmac: hmac@ }),
    {
        SetHMAC { hmac }
    }

    pub fn hmac(&self) -> (r: &HMac)
        ensures
            r@ == self@.hmac,
    {
        &self.hmac
    }

    pub fn message_type() -> (r: MessageType)
        ensures
            r == MessageType::DISetHMAC,
    {
        MessageType::DISetHMAC
    }

    pub fn encryption_requirement() -> (r: Option<EncryptionRequirement>)
        ensures
            r == MessageType::DISetHMAC.spec_encryption_requirement(),
    {
        MessageType::DISetHMAC.encryption_requirement()
    }

    pub fn is_valid_previous_message(message_type: Option<MessageType>) -> (r: bool)
        ensures
            r == MessageType::DISetHMAC.spec_valid_previous(message_type),
    {
        MessageType::DISetHMAC.valid_previous(message_type)
    }

    pub fn encode(&self) -> (r: Vec<u8>)
        ensures
            r@ == spec_encode_set_hmac(self@),
    {
        let mut out: Vec<u8> = Vec::new();
        write_hash_fields(&mut out, self.hmac.alg, &self.hmac.value);
        proof {
            assert(out@ =~= spec_encode_set_hmac(self@));
        }
        out
    }

    pub fn decode(bytes: &[u8]) -> (r: Result<SetHMAC, DecodeError>)
        ensures
            match r {
                Ok(m) => spec_decode_set_hmac(bytes@) == Some(m@) && m@.wf(),
                Err(_) => spec_decode_set_hmac(bytes@) is None,
            },
    {
        proof {
            assert(bytes@.skip(0) =~= bytes@);
        }
        let ((alg, value), p) = match read_hash_fields(bytes, 0) {
            Ok(x) => x,
            Err(e) => {
                return Err(e);
            },
        };
        if p != bytes.len() {
            return Err(DecodeError::TrailingBytes);
        }
        proof {
            lemma_hash_sound(bytes@);
        }
        Ok(SetHMAC { hmac: HMac { alg, value } })
    }
}

// ---------------------------------------------------------------------------
// Done
// ---------------------------------------------------------------------------

/// Model of the empty closing message.
#[verifier::ext_equal]
pub struct DoneV {}

impl DoneV {
    pub open spec fn wf(self) -> bool {
        true
    }
}

/// The service closes the phase. The message carries nothing; its encoding
/// is empty and its decoder accepts nothing else.
#[derive(Clone, Debug, PartialEq, Eq)]
pub struct Done {}

impl View for Done {
    type V = DoneV;

    open spec fn view(&self) -> DoneV {
        DoneV {  }
    }
}

pub open spec fn spec_encode_di_done(m: DoneV) -> Seq<u8> {
    Seq::<u8>::empty()
}

pub open spec fn spec_decode_di_done(b: Seq<u8>) -> Option<DoneV> {
    if b.len() == 0 {
        Some(DoneV {  })
    } else {
        None
    }
}

/// Decoding an encoding of `Done` yields it back.
pub proof fn lemma_di_done_round_trip(m: DoneV)
    ensures
        spec_decode_di_done(spec_encode_di_done(m)) == Some(m),
{
}

/// A successful decode pins the input to the empty encoding.
pub proof fn lemma_di_done_decode_pinned(b: Seq<u8>)
    ensures
        spec_decode_di_done(b) matches Some(m) ==> m.wf() && b == spec_encode_di_done(m),
{
    if spec_decode_di_done(b) is Some {
        assert(b =~= Seq::<u8>::empty());
    }
}

impl Done {
    pub fn new() -> (r: Done)
    {
        Done {  }
    }

    pub fn message_type() -> (r: MessageType)
        ensures
            r == MessageType::DIDone,
    {
        MessageType::DIDone
    }

    pub fn encryption_requirement() -> (r: Option<EncryptionRequirement>)
        ensures
            r == MessageType::DIDone.spec_encryption_requirement(),
    {
        MessageType::DIDone.encryption_requirement()
    }

    pub fn is_valid_previous_message(message_type: Option<MessageType>) -> (r: bool)
        ensures
            r == MessageType::DIDone.spec_valid_previous(message_type),
    {
        MessageType::DIDone.valid_previous(message_type)
    }

    pub fn encode(&self) -> (r: Vec<u8>)
        ensures
            r@ == spec_encode_di_done(self@),
    {
        let out: Vec<u8> = Vec::new();
        proof {
            assert(out@ =~= spec_encode_di_done(self@));
        }
        out
    }

    pub fn decode(bytes: &[u8]) -> (r: Result<Done, DecodeError>)
        ensures
            match r {
                Ok(m) => spec_decode_di_done(bytes@) == Some(m@) && m@.wf(),
                Err(_) => spec_decode_di_done(bytes@) is None,
            },
    {
        if bytes.len() == 0 {
            Ok(Done {  })
        } else {
            Err(DecodeError::TrailingBytes)
        }
    }
}

} // verus!
