//! Value types carried inside protocol messages: nonces, identifiers,
//! digests, public keys, suite selectors — each with its wire format.
//!
//! Every structured type has a view (its mathematical model, with `Seq<u8>`
//! in place of byte vectors), a well-formedness predicate over the view, and
//! a spec-level encoder/decoder pair with round-trip and soundness lemmas.
//! The message modules compose these into whole-message codecs.

use vstd::prelude::*;

use crate::codec::{
    lemma_concat_skip, lemma_u8_round_trip, read_bytes, read_fixed, read_u8, spec_dec_bytes,
    spec_dec_fixed, spec_dec_u8, spec_enc_bytes, spec_enc_u8, write_bytes, write_fixed, write_u8,
};
use crate::errors::DecodeError;

verus! {

/// Byte-for-byte comparison of two byte strings.
pub fn bytes_equal(a: &[u8], b: &[u8]) -> (r: bool)
    ensures
        r == (a@ == b@),
{
    if a.len() != b.len() {
        proof {
            assert(a@.len() != b@.len());
        }
        return false;
    }
    let mut i: usize = 0;
    while i < a.len()
        invariant
            i <= a@.len(),
            a@.len() == b@.len(),
            forall|j: int| 0 <= j < i ==> a@[j] == b@[j],
        decreases a@.len() - i,
    {
        if a[i] != b[i] {
            return false;
        }
        i = i + 1;
    }
    proof {
        assert(a@ =~= b@);
    }
    true
}

// ---------------------------------------------------------------------------
// digest and HMAC algorithm selector
// ---------------------------------------------------------------------------

#[derive(Clone, Copy, Debug, PartialEq, Eq, Structural)]
pub enum HashType {
    Sha256,
    Sha384,
}

impl HashType {
    pub open spec fn spec_tag(self) -> u8 {
        match self {
            HashType::Sha256 => 1,
            HashType::Sha384 => 2,
        }
    }

    pub open spec fn spec_from_tag(c: u8) -> Option<HashType> {
        match c {
            1 => Some(HashType::Sha256),
            2 => Some(HashType::Sha384),
            _ => None,
        }
    }

    /// The width of a digest of this algorithm, in bytes.
    pub open spec fn spec_digest_len(self) -> int {
        match self {
            HashType::Sha256 => 32,
            HashType::Sha384 => 48,
        }
    }

    pub fn tag(self) -> (r: u8)
        ensures
            r == self.spec_tag(),
    {
        match self {
            HashType::Sha256 => 1,
            HashType::Sha384 => 2,
        }
    }

    pub fn from_tag(c: u8) -> (r: Option<HashType>)
        ensures
            r == HashType::spec_from_tag(c),
    {
        match c {
            1 => Some(HashType::Sha256),
            2 => Some(HashType::Sha384),
            _ => None,
        }
    }

    pub fn digest_len(self) -> (r: usize)
        ensures
            r == self.spec_digest_len(),
    {
        match self {
            HashType::Sha256 => 32,
            HashType::Sha384 => 48,
        }
    }
}

// ---------------------------------------------------------------------------
// suite selectors and key-derivation side
// ---------------------------------------------------------------------------

/// Key-exchange suite: which elliptic curve the ephemeral agreement runs on.
#[derive(Clone, Copy, Debug, PartialEq, Eq, Structural)]
pub enum KexSuite {
    Ecdh256,
    Ecdh384,
}

impl KexSuite {
    pub open spec fn spec_tag(self) -> u8 {
        match self {
            KexSuite::Ecdh256 => 1,
            KexSuite::Ecdh384 => 2,
        }
    }

    pub open spec fn spec_from_tag(c: u8) -> Option<KexSuite> {
        match c {
            1 => Some(KexSuite::Ecdh256),
            2 => Some(KexSuite::Ecdh384),
            _ => None,
        }
    }

    pub fn tag(self) -> (r: u8)
        ensures
            r == self.spec_tag(),
    {
        match self {
            KexSuite::Ecdh256 => 1,
            KexSuite::Ecdh384 => 2,
        }
    }

    pub fn from_tag(c: u8) -> (r: Option<KexSuite>)
        ensures
            r == KexSuite::spec_from_tag(c),
    {
        match c {
            1 => Some(KexSuite::Ecdh256),
            2 => Some(KexSuite::Ecdh384),
            _ => None,
        }
    }
}

/// Cipher suite: which symmetric algorithm the derived session keys feed.
#[derive(Clone, Copy, Debug, PartialEq, Eq, Structural)]
pub enum CipherSuite {
    A128Gcm,
    A256Gcm,
}

impl CipherSuite {
    pub open spec fn spec_tag(self) -> u8 {
        match self {
            CipherSuite::A128Gcm => 1,
            CipherSuite::A256Gcm => 2,
        }
    }

    pub open spec fn spec_from_tag(c: u8) -> Option<CipherSuite> {
        match c {
            1 => Some(CipherSuite::A128Gcm),
            2 => Some(CipherSuite::A256Gcm),
            _ => None,
        }
    }

    /// The width of a symmetric key of this suite, in bytes.
    pub open spec fn spec_key_len(self) -> int {
        match self {
            CipherSuite::A128Gcm => 16,
            CipherSuite::A256Gcm => 32,
        }
    }

    pub fn tag(self) -> (r: u8)
        ensures
            r == self.spec_tag(),
    {
        match self {
            CipherSuite::A128Gcm => 1,
            CipherSuite::A256Gcm => 2,
        }
    }

    pub fn from_tag(c: u8) -> (r: Option<CipherSuite>)
        ensures
            r == CipherSuite::spec_from_tag(c),
    {
        match c {
            1 => Some(CipherSuite::A128Gcm),
            2 => Some(CipherSuite::A256Gcm),
            _ => None,
        }
    }

    pub fn key_len(self) -> (r: usize)
        ensures
            r == self.spec_key_len(),
    {
        match self {
            CipherSuite::A128Gcm => 16,
            CipherSuite::A256Gcm => 32,
        }
    }
}

/// Which side of the tunnel a key derivation is for. The two sides feed
/// different context labels into the derivation, so the directional keys
/// are separated by construction.
#[derive(Clone, Copy, Debug, PartialEq, Eq, Structural)]
pub enum KeyDeriveSide {
    Device,
    OwnerService,
}

// ---------------------------------------------------------------------------
// other one-byte selectors
// ---------------------------------------------------------------------------

#[derive(Clone, Copy, Debug, PartialEq, Eq, Structural)]
pub enum PublicKeyType {
    SECP256R1,
    SECP384R1,
}

impl PublicKeyType {
    pub open spec fn spec_tag(self) -> u8 {
        match self {
            PublicKeyType::SECP256R1 => 10,
            PublicKeyType::SECP384R1 => 11,
        }
    }

    pub open spec fn spec_from_tag(c: u8) -> Option<PublicKeyType> {
        match c {
            10 => Some(PublicKeyType::SECP256R1),
            11 => Some(PublicKeyType::SECP384R1),
            _ => None,
        }
    }

    pub fn tag(self) -> (r: u8)
        ensures
            r == self.spec_tag(),
    {
        match self {
            PublicKeyType::SECP256R1 => 10,
            PublicKeyType::SECP384R1 => 11,
        }
    }

    pub fn from_tag(c: u8) -> (r: Option<PublicKeyType>)
        ensures
            r == PublicKeyType::spec_from_tag(c),
    {
        match c {
            10 => Some(PublicKeyType::SECP256R1),
            11 => Some(PublicKeyType::SECP384R1),
            _ => None,
        }
    }
}

#[derive(Clone, Copy, Debug, PartialEq, Eq, Structural)]
pub enum KeyStorageType {
    FileSystem,
    Tpm,
}

impl KeyStorageType {
    pub open spec fn spec_tag(self) -> u8 {
        match self {
            KeyStorageType::FileSystem => 1,
            KeyStorageType::Tpm => 2,
        }
    }

    pub open spec fn spec_from_tag(c: u8) -> Option<KeyStorageType> {
        match c {
            1 => Some(KeyStorageType::FileSystem),
            2 => Some(KeyStorageType::Tpm),
            _ => None,
        }
    }

    pub fn tag(self) -> (r: u8)
        ensures
            r == self.spec_tag(),
    {
        match self {
            KeyStorageType::FileSystem => 1,
            KeyStorageType::Tpm => 2,
        }
    }

    pub fn from_tag(c: u8) -> (r: Option<KeyStorageType>)
        ensures
            r == KeyStorageType::spec_from_tag(c),
    {
        match c {
            1 => Some(KeyStorageType::FileSystem),
            2 => Some(KeyStorageType::Tpm),
            _ => None,
        }
    }
}

/// How the device is told to compose its manufacturing string.
#[derive(Clone, Copy, Debug, PartialEq, Eq, Structural)]
pub enum MfgStringType {
    SerialNumber,
    MacAddress,
}

impl MfgStringType {
    pub open spec fn spec_tag(self) -> u8 {
        match self {
            MfgStringType::SerialNumber => 1,
            MfgStringType::MacAddress => 2,
        }
    }

    pub open spec fn spec_from_tag(c: u8) -> Option<MfgStringType> {
        match c {
            1 => Some(MfgStringType::SerialNumber),
            2 => Some(MfgStringType::MacAddress),
            _ => None,
        }
    }

    pub fn tag(self) -> (r: u8)
        ensures
            r == self.spec_tag(),
    {
        match self {
            MfgStringType::SerialNumber => 1,
            MfgStringType::MacAddress => 2,
        }
    }

    pub fn from_tag(c: u8) -> (r: Option<MfgStringType>)
        ensures
            r == MfgStringType::spec_from_tag(c),
    {
        match c {
            1 => Some(MfgStringType::SerialNumber),
            2 => Some(MfgStringType::MacAddress),
            _ => None,
        }
    }
}

/// The signature scheme a device offers for its proofs.
#[derive(Clone, Copy, Debug, PartialEq, Eq, Structural)]
pub enum DeviceSigType {
    ES256,
    ES384,
}

impl DeviceSigType {
    pub open spec fn spec_tag(self) -> u8 {
        match self {
            DeviceSigType::ES256 => 1,
            DeviceSigType::ES384 => 2,
        }
    }

    pub open spec fn spec_from_tag(c: u8) -> Option<DeviceSigType> {
        match c {
            1 => Some(DeviceSigType::ES256),
            2 => Some(DeviceSigType::ES384),
            _ => None,
        }
    }

    pub fn tag(self) -> (r: u8)
        ensures
            r == self.spec_tag(),
    {
        match self {
            DeviceSigType::ES256 => 1,
            DeviceSigType::ES384 => 2,
        }
    }

    pub fn from_tag(c: u8) -> (r: Option<DeviceSigType>)
        ensures
            r == DeviceSigType::spec_from_tag(c),
    {
        match c {
            1 => Some(DeviceSigType::ES256),
            2 => Some(DeviceSigType::ES384),
            _ => None,
        }
    }
}

// ---------------------------------------------------------------------------
// Nonce and Guid: 16 fixed bytes each
// ---------------------------------------------------------------------------

/// The width of nonces and device identifiers, in bytes.
pub open spec fn spec_nonce_len() -> int {
    16
}

/// A fixed-length random challenge value, equality-compared to detect replay
/// or tampering; never reused across sessions.
#[derive(Clone, Debug, PartialEq, Eq)]
pub struct Nonce {
    pub value: Vec<u8>,
}

impl View for Nonce {
    type V = Seq<u8>;

    open spec fn view(&self) -> Seq<u8> {
        self.value@
    }
}

impl Nonce {
    pub open spec fn wf(self) -> bool {
        self@.len() == spec_nonce_len()
    }

    /// Wraps existing bytes; rejects any width but the fixed one.
    pub fn from_value(value: Vec<u8>) -> (r: Result<Nonce, DecodeError>)
        ensures
            match r {
                Ok(n) => n@ == value@ && n.wf(),
                Err(_) => value@.len() != spec_nonce_len(),
            },
    {
        if value.len() == 16 {
            Ok(Nonce { value })
        } else {
            Err(DecodeError::BadLength)
        }
    }

    pub fn value(&self) -> (r: &[u8])
        ensures
            r@ == self@,
    {
        self.value.as_slice()
    }

    /// Constant-position byte comparison of two nonces.
    pub fn equals(&self, other: &Nonce) -> (r: bool)
        ensures
            r == (self@ == other@),
    {
        bytes_equal(self.value.as_slice(), other.value.as_slice())
    }
}

/// A device identifier: 16 fixed bytes.
#[derive(Clone, Debug, PartialEq, Eq)]
pub struct Guid {
    pub value: Vec<u8>,
}

impl View for Guid {
    type V = Seq<u8>;

    open spec fn view(&self) -> Seq<u8> {
        self.value@
    }
}

impl Guid {
    pub open spec fn wf(self) -> bool {
        self@.len() == spec_nonce_len()
    }

    pub fn from_value(value: Vec<u8>) -> (r: Result<Guid, DecodeError>)
        ensures
            match r {
                Ok(g) => g@ == value@ && g.wf(),
                Err(_) => value@.len() != spec_nonce_len(),
            },
    {
        if value.len() == 16 {
            Ok(Guid { value })
        } else {
            Err(DecodeError::BadLength)
        }
    }

    pub fn value(&self) -> (r: &[u8])
        ensures
            r@ == self@,
    {
        self.value.as_slice()
    }
}

// ---------------------------------------------------------------------------
// Hash and HMac: algorithm tag + digest bytes of the algorithm's width
// ---------------------------------------------------------------------------

/// The model of a digest value: its algorithm and its bytes.
#[verifier::ext_equal]
pub struct HashV {
    pub alg: HashType,
    pub value: Seq<u8>,
}

impl HashV {
    pub open spec fn wf(self) -> bool {
        self.value.len() == self.alg.spec_digest_len()
    }
}

/// A digest value, as carried in messages and compared against pinned trust
/// anchors.
#[derive(Clone, Debug, PartialEq, Eq)]
pub struct Hash {
    pub alg: HashType,
    pub value: Vec<u8>,
}

impl View for Hash {
    type V = HashV;

    open spec fn view(&self) -> HashV {
        HashV { alg: self.alg, value: self.value@ }
    }
}

impl Hash {
    pub open spec fn wf(self) -> bool {
        self@.wf()
    }

    pub fn new(alg: HashType, value: Vec<u8>) -> (r: Result<Hash, DecodeError>)
        ensures
            match r {
                Ok(h) => h@ == (HashV { alg, value: value@ }) && h.wf(),
                Err(_) => value@.len() != alg.spec_digest_len(),
            },
    {
        if value.len() == alg.digest_len() {
            Ok(Hash { alg, value })
        } else {
            Err(DecodeError::BadLength)
        }
    }

    /// Wraps digest bytes whose algorithm is told by their width alone:
    /// 32 bytes name the 256-bit algorithm, 48 the 384-bit one; any other
    /// width is rejected.
    pub fn guess_new_from_data(value: Vec<u8>) -> (r: Result<Hash, DecodeError>)
        ensures
            match r {
                Ok(h) => h@.value == value@ && h.wf() && (value@.len() == 32 ==> h@.alg
                    == HashType::Sha256) && (value@.len() == 48 ==> h@.alg == HashType::Sha384),
                Err(_) => value@.len() != 32 && value@.len() != 48,
            },
    {
        if value.len() == 32 {
            Ok(Hash { alg: HashType::Sha256, value })
        } else if value.len() == 48 {
            Ok(Hash { alg: HashType::Sha384, value })
        } else {
            Err(DecodeError::BadLength)
        }
    }

    pub fn hash_type(&self) -> (r: HashType)
        ensures
            r == self@.alg,
    {
        self.alg
    }

    pub fn value(&self) -> (r: &[u8])
        ensures
            r@ == self@.value,
    {
        self.value.as_slice()
    }

    pub fn equals(&self, other: &Hash) -> (r: bool)
        ensures
            r == (self@ == other@),
    {
        let same = self.alg == other.alg && bytes_equal(
            self.value.as_slice(),
            other.value.as_slice(),
        );
        proof {
            if self@.alg == other@.alg && self@.value == other@.value {
                assert(self@ =~= other@);
            }
        }
        same
    }
}

/// A keyed-digest value: same shape as `Hash`, separate on purpose — an HMAC
/// is never interchangeable with a plain digest.
#[derive(Clone, Debug, PartialEq, Eq)]
pub struct HMac {
    pub alg: HashType,
    pub value: Vec<u8>,
}

impl View for HMac {
    type V = HashV;

    open spec fn view(&self) -> HashV {
        HashV { alg: self.alg, value: self.value@ }
    }
}

impl HMac {
    pub open spec fn wf(self) -> bool {
        self@.wf()
    }

    pub fn new(alg: HashType, value: Vec<u8>) -> (r: Result<HMac, DecodeError>)
        ensures
            match r {
                Ok(h) => h@ == (HashV { alg, value: value@ }) && h.wf(),
                Err(_) => value@.len() != alg.spec_digest_len(),
            },
    {
        if value.len() == alg.digest_len() {
            Ok(HMac { alg, value })
        } else {
            Err(DecodeError::BadLength)
        }
    }

    pub fn hash_type(&self) -> (r: HashType)
        ensures
            r == self@.alg,
    {
        self.alg
    }

    pub fn value(&self) -> (r: &[u8])
        ensures
            r@ == self@.value,
    {
        self.value.as_slice()
    }

    pub fn equals(&self, other: &HMac) -> (r: bool)
        ensures
            r == (self@ == other@),
    {
        let same = self.alg == other.alg && bytes_equal(
            self.value.as_slice(),
            other.value.as_slice(),
        );
        proof {
            if self@.alg == other@.alg && self@.value == other@.value {
                assert(self@ =~= other@);
            }
        }
        same
    }
}

/// Wire form of a digest or HMAC: algorithm tag, then the digest bytes,
/// whose width the algorithm fixes.
pub open spec fn spec_enc_hash(h: HashV) -> Seq<u8> {
    spec_enc_u8(h.alg.spec_tag()) + h.value
}

pub open spec fn spec_dec_hash(b: Seq<u8>) -> Option<(HashV, int)> {
    match spec_dec_u8(b) {
        Some((c, _)) => match HashType::spec_from_tag(c) {
            Some(alg) => match spec_dec_fixed(b.skip(1), alg.spec_digest_len()) {
                Some((v, n)) => Some((HashV { alg, value: v }, 1 + n)),
                None => None,
            },
            None => None,
        },
        None => None,
    }
}

pub proof fn lemma_hash_round_trip(h: HashV, rest: Seq<u8>)
    requires
        h.wf(),
    ensures
        spec_dec_hash(spec_enc_hash(h) + rest) == Some((h, 1 + h.value.len() as int)),
{
    let b = spec_enc_hash(h) + rest;
    lemma_u8_round_trip(h.alg.spec_tag(), h.value + rest);
    vstd::seq_lib::lemma_concat_associative(spec_enc_u8(h.alg.spec_tag()), h.value, rest);
    lemma_concat_skip(spec_enc_u8(h.alg.spec_tag()), h.value + rest);
    assert(b.skip(1).take(h.value.len() as int) =~= h.value);
}

pub proof fn lemma_hash_sound(b: Seq<u8>)
    ensures
        spec_dec_hash(b) matches Some((h, n)) ==> {
            &&& 0 <= n <= b.len()
            &&& h.wf()
            &&& b.take(n) == spec_enc_hash(h)
        },
{
    if spec_dec_hash(b) is Some {
        let (h, n) = spec_dec_hash(b)->Some_0;
        assert(b.take(n) =~= spec_enc_hash(h));
    }
}

pub fn write_hash_fields(out: &mut Vec<u8>, alg: HashType, value: &Vec<u8>)
    ensures
        final(out)@ == old(out)@ + spec_enc_hash(HashV { alg, value: value@ }),
{
    write_u8(out, alg.tag());
    write_fixed(out, value);
    proof {
        assert(out@ =~= old(out)@ + spec_enc_hash(HashV { alg, value: value@ }));
    }
}

pub fn read_hash_fields(buf: &[u8], pos: usize) -> (r: Result<
    ((HashType, Vec<u8>), usize),
    DecodeError,
>)
    requires
        pos <= buf@.len(),
    ensures
        match r {
            Ok(((alg, value), p)) => {
                &&& pos < p <= buf@.len()
                &&& spec_dec_hash(buf@.skip(pos as int)) == Some(
                    (HashV { alg, value: value@ }, p - pos),
                )
            },
            Err(_) => spec_dec_hash(buf@.skip(pos as int)) is None,
        },
{
    let (c, p1) = match read_u8(buf, pos) {
        Ok(x) => x,
        Err(e) => {
            return Err(e);
        },
    };
    let alg = match HashType::from_tag(c) {
        Some(a) => a,
        None => {
            return Err(DecodeError::BadTag);
        },
    };
    let (value, p2) = match read_fixed(buf, p1, alg.digest_len()) {
        Ok(x) => x,
        Err(e) => {
            proof {
                crate::codec::lemma_skip_skip(buf@, pos as int, 1int);
            }
            return Err(e);
        },
    };
    proof {
        crate::codec::lemma_skip_skip(buf@, pos as int, 1int);
    }
    Ok(((alg, value), p2))
}

// ---------------------------------------------------------------------------
// PublicKey: key type tag + encoded key body
// ---------------------------------------------------------------------------

/// Model of a public key: its type selector and its encoded body.
#[verifier::ext_equal]
pub struct PublicKeyV {
    pub key_type: PublicKeyType,
    pub body: Seq<u8>,
}

impl PublicKeyV {
    pub open spec fn wf(self) -> bool {
        self.body.len() <= u64::MAX
    }
}

/// A public key as carried in messages: a type selector and the key body in
/// its standard encoded form, opaque to the engine.
#[derive(Clone, Debug, PartialEq, Eq)]
pub struct PublicKey {
    pub key_type: PublicKeyType,
    pub body: Vec<u8>,
}

impl View for PublicKey {
    type V = PublicKeyV;

    open spec fn view(&self) -> PublicKeyV {
        PublicKeyV { key_type: self.key_type, body: self.body@ }
    }
}

impl PublicKey {
    pub open spec fn wf(self) -> bool {
        self@.wf()
    }

    pub fn new(key_type: PublicKeyType, body: Vec<u8>) -> (r: PublicKey)
        ensures
            r@ == (PublicKeyV { key_type, body: body@ }),
            r.wf(),
    {
        proof {
            assert(body.len() == body@.len());
        }
        PublicKey { key_type, body }
    }

    pub fn key_type(&self) -> (r: PublicKeyType)
        ensures
            r == self@.key_type,
    {
        self.key_type
    }

    pub fn body(&self) -> (r: &[u8])
        ensures
            r@ == self@.body,
    {
        self.body.as_slice()
    }
}

pub open spec fn spec_enc_public_key(k: PublicKeyV) -> Seq<u8> {
    spec_enc_u8(k.key_type.spec_tag()) + spec_enc_bytes(k.body)
}

pub open spec fn spec_dec_public_key(b: Seq<u8>) -> Option<(PublicKeyV, int)> {
    match spec_dec_u8(b) {
        Some((c, _)) => match PublicKeyType::spec_from_tag(c) {
            Some(key_type) => match spec_dec_bytes(b.skip(1)) {
                Some((body, n)) => Some((PublicKeyV { key_type, body }, 1 + n)),
                None => None,
            },
            None => None,
        },
        None => None,
    }
}

pub proof fn lemma_public_key_round_trip(k: PublicKeyV, rest: Seq<u8>)
    requires
        k.wf(),
    ensures
        spec_dec_public_key(spec_enc_public_key(k) + rest) == Some(
            (k, 9 + k.body.len() as int),
        ),
{
    let tag = spec_enc_u8(k.key_type.spec_tag());
    let b = spec_enc_public_key(k) + rest;
    vstd::seq_lib::lemma_concat_associative(tag, spec_enc_bytes(k.body), rest);
    lemma_u8_round_trip(k.key_type.spec_tag(), spec_enc_bytes(k.body) + rest);
    lemma_concat_skip(tag, spec_enc_bytes(k.body) + rest);
    crate::codec::lemma_bytes_round_trip(k.body, rest);
}

pub proof fn lemma_public_key_sound(b: Seq<u8>)
    ensures
        spec_dec_public_key(b) matches Some((k, n)) ==> {
            &&& 0 <= n <= b.len()
            &&& k.wf()
            &&& b.take(n) == spec_enc_public_key(k)
        },
{
    if spec_dec_public_key(b) is Some {
        let (k, n) = spec_dec_public_key(b)->Some_0;
        crate::codec::lemma_bytes_sound(b.skip(1));
        let (body, m) = spec_dec_bytes(b.skip(1))->Some_0;
        assert(b.take(n) =~= spec_enc_u8(b[0]) + b.skip(1).take(m));
    }
}

pub fn write_public_key(out: &mut Vec<u8>, k: &PublicKey)
    ensures
        final(out)@ == old(out)@ + spec_enc_public_key(k@),
{
    write_u8(out, k.key_type.tag());
    write_bytes(out, &k.body);
    proof {
        assert(out@ =~= old(out)@ + spec_enc_public_key(k@));
    }
}

pub fn read_public_key(buf: &[u8], pos: usize) -> (r: Result<(PublicKey, usize), DecodeError>)
    requires
        pos <= buf@.len(),
    ensures
        match r {
            Ok((k, p)) => {
                &&& pos < p <= buf@.len()
                &&& spec_dec_public_key(buf@.skip(pos as int)) == Some((k@, p - pos))
            },
            Err(_) => spec_dec_public_key(buf@.skip(pos as int)) is None,
        },
{
    let (c, p1) = match read_u8(buf, pos) {
        Ok(x) => x,
        Err(e) => {
            return Err(e);
        },
    };
    let key_type = match PublicKeyType::from_tag(c) {
        Some(t) => t,
        None => {
            return Err(DecodeError::BadTag);
        },
    };
    let (body, p2) = match read_bytes(buf, p1) {
        Ok(x) => x,
        Err(e) => {
            proof {
                crate::codec::lemma_skip_skip(buf@, pos as int, 1int);
            }
            return Err(e);
        },
    };
    proof {
        crate::codec::lemma_skip_skip(buf@, pos as int, 1int);
    }
    Ok((PublicKey { key_type, body }, p2))
}

// ---------------------------------------------------------------------------
// SigInfo: signature scheme tag + info bytes
// ---------------------------------------------------------------------------

#[verifier::ext_equal]
pub struct SigInfoV {
    pub sig_type: DeviceSigType,
    pub info: Seq<u8>,
}

impl SigInfoV {
    pub open spec fn wf(self) -> bool {
        self.info.len() <= u64::MAX
    }
}

/// A device's offer of a signature scheme plus scheme-specific data.
#[derive(Clone, Debug, PartialEq, Eq)]
pub struct SigInfo {
    pub sig_type: DeviceSigType,
    pub info: Vec<u8>,
}

impl View for SigInfo {
    type V = SigInfoV;

    open spec fn view(&self) -> SigInfoV {
        SigInfoV { sig_type: self.sig_type, info: self.info@ }
    }
}

impl SigInfo {
    pub open spec fn wf(self) -> bool {
        self@.wf()
    }

    pub fn new(sig_type: DeviceSigType, info: Vec<u8>) -> (r: SigInfo)
        ensures
            r@ == (SigInfoV { sig_type, info: info@ }),
            r.wf(),
    {
        proof {
            assert(info.len() == info@.len());
        }
        SigInfo { sig_type, info }
    }

    pub fn sig_type(&self) -> (r: DeviceSigType)
        ensures
            r == self@.sig_type,
    {
        self.sig_type
    }

    pub fn info(&self) -> (r: &[u8])
        ensures
            r@ == self@.info,
    {
        self.info.as_slice()
    }
}

pub open spec fn spec_enc_sig_info(s: SigInfoV) -> Seq<u8> {
    spec_enc_u8(s.sig_type.spec_tag()) + spec_enc_bytes(s.info)
}

pub open spec fn spec_dec_sig_info(b: Seq<u8>) -> Option<(SigInfoV, int)> {
    match spec_dec_u8(b) {
        Some((c, _)) => match DeviceSigType::spec_from_tag(c) {
            Some(sig_type) => match spec_dec_bytes(b.skip(1)) {
                Some((info, n)) => Some((SigInfoV { sig_type, info }, 1 + n)),
                None => None,
            },
            None => None,
        },
        None => None,
    }
}

#[verifier::rlimit(50)]
pub proof fn lemma_sig_info_round_trip(s: SigInfoV, rest: Seq<u8>)
    requires
        s.wf(),
    ensures
        spec_dec_sig_info(spec_enc_sig_info(s) + rest) == Some((s, 9 + s.info.len() as int)),
{
    let c = s.sig_type.spec_tag();
    let tag = spec_enc_u8(c);
    let b = spec_enc_sig_info(s) + rest;
    vstd::seq_lib::lemma_concat_associative(tag, spec_enc_bytes(s.info), rest);
    assert(b == tag + (spec_enc_bytes(s.info) + rest));
    lemma_u8_round_trip(c, spec_enc_bytes(s.info) + rest);
    assert(spec_dec_u8(b) == Some((c, 1int)));
    assert(DeviceSigType::spec_from_tag(c) == Some(s.sig_type));
    lemma_concat_skip(tag, spec_enc_bytes(s.info) + rest);
    assert(b.skip(1) == spec_enc_bytes(s.info) + rest);
    crate::codec::lemma_bytes_round_trip(s.info, rest);
    assert(spec_dec_bytes(b.skip(1)) == Some((s.info, 8 + s.info.len() as int)));
}

pub proof fn lemma_sig_info_sound(b: Seq<u8>)
    ensures
        spec_dec_sig_info(b) matches Some((s, n)) ==> {
            &&& 0 <= n <= b.len()
            &&& s.wf()
            &&& b.take(n) == spec_enc_sig_info(s)
        },
{
    if spec_dec_sig_info(b) is Some {
        let (s, n) = spec_dec_sig_info(b)->Some_0;
        crate::codec::lemma_bytes_sound(b.skip(1));
        let (info, m) = spec_dec_bytes(b.skip(1))->Some_0;
        assert(b.take(n) =~= spec_enc_u8(b[0]) + b.skip(1).take(m));
    }
}

pub fn write_sig_info(out: &mut Vec<u8>, s: &SigInfo)
    ensures
        final(out)@ == old(out)@ + spec_enc_sig_info(s@),
{
    write_u8(out, s.sig_type.tag());
    write_bytes(out, &s.info);
    proof {
        assert(out@ =~= old(out)@ + spec_enc_sig_info(s@));
    }
}

pub fn read_sig_info(buf: &[u8], pos: usize) -> (r: Result<(SigInfo, usize), DecodeError>)
    requires
        pos <= buf@.len(),
    ensures
        match r {
            Ok((s, p)) => {
                &&& pos < p <= buf@.len()
                &&& spec_dec_sig_info(buf@.skip(pos as int)) == Some((s@, p - pos))
            },
            Err(_) => spec_dec_sig_info(buf@.skip(pos as int)) is None,
        },
{
    let (c, p1) = match read_u8(buf, pos) {
        Ok(x) => x,
        Err(e) => {
            return Err(e);
        },
    };
    let sig_type = match DeviceSigType::from_tag(c) {
        Some(t) => t,
        None => {
            return Err(DecodeError::BadTag);
        },
    };
    let (info, p2) = match read_bytes(buf, p1) {
        Ok(x) => x,
        Err(e) => {
            proof {
                crate::codec::lemma_skip_skip(buf@, pos as int, 1int);
            }
            return Err(e);
        },
    };
    proof {
        crate::codec::lemma_skip_skip(buf@, pos as int, 1int);
    }
    Ok((SigInfo { sig_type, info }, p2))
}

// ---------------------------------------------------------------------------
// ServiceInfo: opaque module/key/value data, carried but not interpreted
// ---------------------------------------------------------------------------

/// Service-info payload exchanged near the end of the ownership transfer.
/// The engine carries it opaquely; its interpretation is the business
/// handlers' affair.
#[derive(Clone, Debug, PartialEq, Eq)]
pub struct ServiceInfo {
    pub body: Vec<u8>,
}

impl View for ServiceInfo {
    type V = Seq<u8>;

    open spec fn view(&self) -> Seq<u8> {
        self.body@
    }
}

impl ServiceInfo {
    pub open spec fn wf(self) -> bool {
        self@.len() <= u64::MAX
    }

    pub fn new(body: Vec<u8>) -> (r: ServiceInfo)
        ensures
            r@ == body@,
            r.wf(),
    {
        proof {
            assert(body.len() == body@.len());
        }
        ServiceInfo { body }
    }

    pub fn body(&self) -> (r: &[u8])
        ensures
            r@ == self@,
    {
        self.body.as_slice()
    }
}

// ---------------------------------------------------------------------------
// CborSimpleType: the small self-describing value a device sends as its
// manufacturing info
// ---------------------------------------------------------------------------

/// Model of the simple tagged value.
#[verifier::ext_equal]
pub enum CborValueV {
    Null,
    Bool(bool),
    Unsigned(u64),
    Bytes(Seq<u8>),
}

impl CborValueV {
    pub open spec fn wf(self) -> bool {
        match self {
            CborValueV::Bytes(b) => b.len() <= u64::MAX,
            _ => true,
        }
    }
}

/// A small self-describing value: absent, a truth value, an unsigned number,
/// or a byte string. What a device reports as its manufacturing info.
#[derive(Clone, Debug, PartialEq, Eq)]
pub enum CborSimpleType {
    Null,
    Bool(bool),
    Unsigned(u64),
    Bytes(Vec<u8>),
}

impl View for CborSimpleType {
    type V = CborValueV;

    open spec fn view(&self) -> CborValueV {
        match self {
            CborSimpleType::Null => CborValueV::Null,
            CborSimpleType::Bool(b) => CborValueV::Bool(*b),
            CborSimpleType::Unsigned(u) => CborValueV::Unsigned(*u),
            CborSimpleType::Bytes(v) => CborValueV::Bytes(v@),
        }
    }
}

impl CborSimpleType {
    pub open spec fn wf(self) -> bool {
        self@.wf()
    }
}

pub open spec fn spec_enc_cbor(v: CborValueV) -> Seq<u8> {
    match v {
        CborValueV::Null => spec_enc_u8(0),
        CborValueV::Bool(b) => spec_enc_u8(1) + crate::codec::spec_enc_bool(b),
        CborValueV::Unsigned(u) => spec_enc_u8(2) + crate::codec::spec_enc_u64(u),
        CborValueV::Bytes(s) => spec_enc_u8(3) + spec_enc_bytes(s),
    }
}

pub open spec fn spec_dec_cbor(b: Seq<u8>) -> Option<(CborValueV, int)> {
    match spec_dec_u8(b) {
        Some((c, _)) => {
            if c == 0 {
                Some((CborValueV::Null, 1int))
            } else if c == 1 {
                match crate::codec::spec_dec_bool(b.skip(1)) {
                    Some((v, n)) => Some((CborValueV::Bool(v), 1 + n)),
                    None => None,
                }
            } else if c == 2 {
                match crate::codec::spec_dec_u64(b.skip(1)) {
                    Some((v, n)) => Some((CborValueV::Unsigned(v), 1 + n)),
                    None => None,
                }
            } else if c == 3 {
                match spec_dec_bytes(b.skip(1)) {
                    Some((v, n)) => Some((CborValueV::Bytes(v), 1 + n)),
                    None => None,
                }
            } else {
                None
            }
        },
        None => None,
    }
}

proof fn lemma_cbor_round_trip_bool(x: bool, rest: Seq<u8>)
    ensures
        spec_dec_cbor(spec_enc_cbor(CborValueV::Bool(x)) + rest) == Some(
            (CborValueV::Bool(x), 2int),
        ),
{
    let b = spec_enc_cbor(CborValueV::Bool(x)) + rest;
    let inner = crate::codec::spec_enc_bool(x);
    vstd::seq_lib::lemma_concat_associative(spec_enc_u8(1), inner, rest);
    assert(b == spec_enc_u8(1) + (inner + rest));
    lemma_u8_round_trip(1, inner + rest);
    assert(spec_dec_u8(b) == Some((1u8, 1int)));
    lemma_concat_skip(spec_enc_u8(1), inner + rest);
    assert(b.skip(1) == inner + rest);
    crate::codec::lemma_bool_round_trip(x, rest);
    assert(crate::codec::spec_dec_bool(b.skip(1)) == Some((x, 1int)));
}

proof fn lemma_cbor_round_trip_unsigned(x: u64, rest: Seq<u8>)
    ensures
        spec_dec_cbor(spec_enc_cbor(CborValueV::Unsigned(x)) + rest) == Some(
            (CborValueV::Unsigned(x), 9int),
        ),
{
    let b = spec_enc_cbor(CborValueV::Unsigned(x)) + rest;
    let inner = crate::codec::spec_enc_u64(x);
    vstd::seq_lib::lemma_concat_associative(spec_enc_u8(2), inner, rest);
    assert(b == spec_enc_u8(2) + (inner + rest));
    lemma_u8_round_trip(2, inner + rest);
    assert(spec_dec_u8(b) == Some((2u8, 1int)));
    lemma_concat_skip(spec_enc_u8(2), inner + rest);
    assert(b.skip(1) == inner + rest);
    crate::codec::lemma_u64_round_trip(x, rest);
    assert(crate::codec::spec_dec_u64(b.skip(1)) == Some((x, 8int)));
}

/// One unfolding of the tagged-value decoder on an input whose tag byte
/// names the byte-string variant, kept apart so larger proofs need not
/// unfold the decoder themselves.
proof fn lemma_cbor_dec_bytes_branch(b: Seq<u8>)
    requires
        b.len() >= 1,
        b[0] == 3,
    ensures
        spec_dec_cbor(b) == (match spec_dec_bytes(b.skip(1)) {
            Some((v, n)) => Some((CborValueV::Bytes(v), 1 + n)),
            None => None::<(CborValueV, int)>,
        }),
{
}

proof fn lemma_cbor_round_trip_bytes(x: Seq<u8>, rest: Seq<u8>)
    requires
        x.len() <= u64::MAX,
    ensures
        spec_dec_cbor(spec_enc_cbor(CborValueV::Bytes(x)) + rest) == Some(
            (CborValueV::Bytes(x), 9 + x.len() as int),
        ),
{
    let b = spec_enc_cbor(CborValueV::Bytes(x)) + rest;
    let inner = spec_enc_bytes(x);
    vstd::seq_lib::lemma_concat_associative(spec_enc_u8(3), inner, rest);
    assert(b == spec_enc_u8(3) + (inner + rest));
    assert(b[0] == 3) by {
        assert((spec_enc_u8(3) + (inner + rest))[0] == 3);
    }
    lemma_concat_skip(spec_enc_u8(3), inner + rest);
    assert(b.skip(1) == inner + rest);
    crate::codec::lemma_bytes_round_trip(x, rest);
    assert(spec_dec_bytes(b.skip(1)) == Some((x, 8 + x.len() as int)));
    lemma_cbor_dec_bytes_branch(b);
}

pub proof fn lemma_cbor_round_trip(v: CborValueV, rest: Seq<u8>)
    requires
        v.wf(),
    ensures
        spec_dec_cbor(spec_enc_cbor(v) + rest) == Some(
            (v, spec_enc_cbor(v).len() as int),
        ),
{
    match v {
        CborValueV::Null => {
            lemma_u8_round_trip(0, rest);
            assert(spec_dec_u8(spec_enc_cbor(v) + rest) == Some((0u8, 1int)));
            assert(spec_dec_cbor(spec_enc_cbor(v) + rest) == Some((CborValueV::Null, 1int)));
            assert(spec_enc_cbor(v).len() == 1);
        },
        CborValueV::Bool(x) => {
            lemma_cbor_round_trip_bool(x, rest);
        },
        CborValueV::Unsigned(x) => {
            lemma_cbor_round_trip_unsigned(x, rest);
            crate::codec::lemma_enc_u64_len(x);
            assert(spec_enc_cbor(v).len() == 9);
        },
        CborValueV::Bytes(x) => {
            lemma_cbor_round_trip_bytes(x, rest);
            crate::codec::lemma_enc_u64_len(x.len() as u64);
            assert(spec_enc_cbor(v).len() == 9 + x.len());
        },
    }
}

pub proof fn lemma_cbor_sound(b: Seq<u8>)
    ensures
        spec_dec_cbor(b) matches Some((v, n)) ==> {
            &&& 0 <= n <= b.len()
            &&& v.wf()
            &&& b.take(n) == spec_enc_cbor(v)
        },
{
    if spec_dec_cbor(b) is Some {
        let (v, n) = spec_dec_cbor(b)->Some_0;
        let c = b[0];
        if c == 1 {
            crate::codec::lemma_bool_sound(b.skip(1));
            let (x, m) = crate::codec::spec_dec_bool(b.skip(1))->Some_0;
            assert(b.take(n) =~= spec_enc_u8(1) + b.skip(1).take(m));
        } else if c == 2 {
            crate::codec::lemma_u64_sound(b.skip(1));
            let (x, m) = crate::codec::spec_dec_u64(b.skip(1))->Some_0;
            assert(b.take(n) =~= spec_enc_u8(2) + b.skip(1).take(m));
        } else if c == 3 {
            crate::codec::lemma_bytes_sound(b.skip(1));
            let (x, m) = spec_dec_bytes(b.skip(1))->Some_0;
            assert(b.take(n) =~= spec_enc_u8(3) + b.skip(1).take(m));
        } else {
            assert(b.take(1int) =~= spec_enc_u8(b[0]));
        }
    }
}

pub fn write_cbor(out: &mut Vec<u8>, v: &CborSimpleType)
    ensures
        final(out)@ == old(out)@ + spec_enc_cbor(v@),
{
    match v {
        CborSimpleType::Null => {
            write_u8(out, 0);
        },
        CborSimpleType::Bool(x) => {
            write_u8(out, 1);
            crate::codec::write_bool(out, *x);
        },
        CborSimpleType::Unsigned(x) => {
            write_u8(out, 2);
            crate::codec::write_u64(out, *x);
        },
        CborSimpleType::Bytes(x) => {
            write_u8(out, 3);
            write_bytes(out, x);
        },
    }
    proof {
        assert(out@ =~= old(out)@ + spec_enc_cbor(v@));
    }
}

pub fn read_cbor(buf: &[u8], pos: usize) -> (r: Result<(CborSimpleType, usize), DecodeError>)
    requires
        pos <= buf@.len(),
    ensures
        match r {
            Ok((v, p)) => {
                &&& pos < p <= buf@.len()
                &&& spec_dec_cbor(buf@.skip(pos as int)) == Some((v@, p - pos))
            },
            Err(_) => spec_dec_cbor(buf@.skip(pos as int)) is None,
        },
{
    let (c, p1) = match read_u8(buf, pos) {
        Ok(x) => x,
        Err(e) => {
            return Err(e);
        },
    };
    proof {
        crate::codec::lemma_skip_skip(buf@, pos as int, 1int);
    }
    if c == 0 {
        Ok((CborSimpleType::Null, p1))
    } else if c == 1 {
        match crate::codec::read_bool(buf, p1) {
            Ok((v, p2)) => Ok((CborSimpleType::Bool(v), p2)),
            Err(e) => Err(e),
        }
    } else if c == 2 {
        match crate::codec::read_u64(buf, p1) {
            Ok((v, p2)) => Ok((CborSimpleType::Unsigned(v), p2)),
            Err(e) => Err(e),
        }
    } else if c == 3 {
        match read_bytes(buf, p1) {
            Ok((v, p2)) => Ok((CborSimpleType::Bytes(v), p2)),
            Err(e) => Err(e),
        }
    } else {
        Err(DecodeError::BadTag)
    }
}

// ---------------------------------------------------------------------------
// lists of storage-type selectors: u64 count, then one tag byte per item
// ---------------------------------------------------------------------------

pub open spec fn spec_enc_storage_list(l: Seq<KeyStorageType>) -> Seq<u8>
    decreases l.len(),
{
    if l.len() == 0 {
        Seq::<u8>::empty()
    } else {
        spec_enc_u8(l[0].spec_tag()) + spec_enc_storage_list(l.skip(1))
    }
}

/// Decodes exactly `count` storage-type tags.
pub open spec fn spec_dec_storage_list(b: Seq<u8>, count: nat) -> Option<
    (Seq<KeyStorageType>, int),
>
    decreases count,
{
    if count == 0 {
        Some((Seq::<KeyStorageType>::empty(), 0int))
    } else {
        match spec_dec_u8(b) {
            Some((c, _)) => match KeyStorageType::spec_from_tag(c) {
                Some(v) => match spec_dec_storage_list(b.skip(1), (count - 1) as nat) {
                    Some((tail, n)) => Some((seq![v] + tail, 1 + n)),
                    None => None,
                },
                None => None,
            },
            None => None,
        }
    }
}

pub proof fn lemma_storage_list_round_trip(l: Seq<KeyStorageType>, rest: Seq<u8>)
    ensures
        spec_dec_storage_list(spec_enc_storage_list(l) + rest, l.len()) == Some(
            (l, l.len() as int),
        ),
    decreases l.len(),
{
    if l.len() == 0 {
        assert(spec_enc_storage_list(l) + rest =~= rest);
        assert(l =~= Seq::<KeyStorageType>::empty());
    } else {
        let b = spec_enc_storage_list(l) + rest;
        let tag = spec_enc_u8(l[0].spec_tag());
        let tail_enc = spec_enc_storage_list(l.skip(1));
        assert(b =~= tag + (tail_enc + rest));
        lemma_u8_round_trip(l[0].spec_tag(), tail_enc + rest);
        lemma_concat_skip(tag, tail_enc + rest);
        lemma_storage_list_round_trip(l.skip(1), rest);
        assert(spec_enc_storage_list(l).len() == l.len()) by {
            lemma_storage_list_enc_len(l);
        }
        assert(seq![l[0]] + l.skip(1) =~= l);
    }
}

pub proof fn lemma_storage_list_enc_len(l: Seq<KeyStorageType>)
    ensures
        spec_enc_storage_list(l).len() == l.len(),
    decreases l.len(),
{
    if l.len() > 0 {
        lemma_storage_list_enc_len(l.skip(1));
    }
}

pub proof fn lemma_storage_list_sound(b: Seq<u8>, count: nat)
    ensures
        spec_dec_storage_list(b, count) matches Some((l, n)) ==> {
            &&& 0 <= n <= b.len()
            &&& l.len() == count
            &&& b.take(n) == spec_enc_storage_list(l)
        },
    decreases count,
{
    if count > 0 && spec_dec_storage_list(b, count) is Some {
        let (l, n) = spec_dec_storage_list(b, count)->Some_0;
        lemma_storage_list_sound(b.skip(1), (count - 1) as nat);
        let (tail, m) = spec_dec_storage_list(b.skip(1), (count - 1) as nat)->Some_0;
        assert(b.take(n) =~= spec_enc_u8(b[0]) + b.skip(1).take(m));
        assert(l.skip(1) =~= tail);
        assert(l[0] == KeyStorageType::spec_from_tag(b[0])->Some_0);
    }
}

pub fn write_storage_list(out: &mut Vec<u8>, l: &Vec<KeyStorageType>)
    ensures
        final(out)@ == old(out)@ + spec_enc_storage_list(l@),
{
    let mut i: usize = 0;
    while i < l.len()
        invariant
            i <= l@.len(),
            out@ == old(out)@ + spec_enc_storage_list(l@.take(i as int)),
        decreases l@.len() - i,
    {
        proof {
            lemma_storage_list_snoc(l@.take(i as int), l@[i as int]);
            assert(l@.take(i as int).push(l@[i as int]) =~= l@.take(i as int + 1));
        }
        write_u8(out, l[i].tag());
        i = i + 1;
    }
    proof {
        assert(l@.take(l@.len() as int) =~= l@);
    }
}

/// Appending one selector to a list appends its tag to the encoding.
pub proof fn lemma_storage_list_snoc(l: Seq<KeyStorageType>, v: KeyStorageType)
    ensures
        spec_enc_storage_list(l.push(v)) == spec_enc_storage_list(l) + spec_enc_u8(v.spec_tag()),
    decreases l.len(),
{
    if l.len() == 0 {
        let e = Seq::<KeyStorageType>::empty();
        assert(l =~= e);
        assert(spec_enc_storage_list(e) == Seq::<u8>::empty());
        assert(l.push(v)[0] == v);
        assert(l.push(v).skip(1) =~= e);
        assert(spec_enc_storage_list(l.push(v)) == spec_enc_u8(v.spec_tag())
            + spec_enc_storage_list(e));
        assert(spec_enc_u8(v.spec_tag()) + Seq::<u8>::empty() =~= spec_enc_u8(v.spec_tag()));
    } else {
        assert(l.push(v)[0] == l[0]);
        assert(l.push(v).skip(1) =~= l.skip(1).push(v));
        lemma_storage_list_snoc(l.skip(1), v);
        assert(spec_enc_storage_list(l.push(v)) =~= spec_enc_storage_list(l) + spec_enc_u8(
            v.spec_tag(),
        ));
    }
}

pub fn read_storage_list(buf: &[u8], pos: usize, count: u64) -> (r: Result<
    (Vec<KeyStorageType>, usize),
    DecodeError,
>)
    requires
        pos <= buf@.len(),
    ensures
        match r {
            Ok((l, p)) => {
                &&& pos <= p <= buf@.len()
                &&& spec_dec_storage_list(buf@.skip(pos as int), count as nat) == Some(
                    (l@, p - pos),
                )
            },
            Err(_) => spec_dec_storage_list(buf@.skip(pos as int), count as nat) is None,
        },
{
    let mut l: Vec<KeyStorageType> = Vec::new();
    let mut i: u64 = 0;
    let mut p: usize = pos;
    while i < count
        invariant
            pos <= p <= buf@.len(),
            i <= count,
            l@.len() == i,
            spec_dec_storage_list(buf@.skip(pos as int), count as nat) == (
            match spec_dec_storage_list(buf@.skip(p as int), (count - i) as nat) {
                Some((t, n)) => Some((l@ + t, p - pos + n)),
                None => None::<(Seq<KeyStorageType>, int)>,
            }),
        decreases count - i,
    {
        let ghost pre_l = l@;
        let ghost pre_p = p as int;
        let ghost pre_i = i;
        let (c, p1) = match read_u8(buf, p) {
            Ok(x) => x,
            Err(e) => {
                proof {
                    assert(spec_dec_storage_list(buf@.skip(pre_p), (count - pre_i) as nat)
                        is None);
                }
                return Err(e);
            },
        };
        let v = match KeyStorageType::from_tag(c) {
            Some(v) => v,
            None => {
                proof {
                    assert(spec_dec_storage_list(buf@.skip(pre_p), (count - pre_i) as nat)
                        is None);
                }
                return Err(DecodeError::BadTag);
            },
        };
        l.push(v);
        p = p1;
        i = i + 1;
        proof {
            crate::codec::lemma_skip_skip(buf@, pre_p, 1int);
            assert(l@ =~= pre_l.push(v));
            let old_rem = spec_dec_storage_list(buf@.skip(pre_p), (count - pre_i) as nat);
            let new_rem = spec_dec_storage_list(buf@.skip(p as int), (count - i) as nat);
            match new_rem {
                Some((t, n)) => {
                    assert(old_rem == Some((seq![v] + t, 1 + n)));
                    assert(pre_l + (seq![v] + t) =~= l@ + t);
                },
                None => {
                    assert(old_rem is None);
                },
            }
        }
    }
    proof {
        assert(l@ + Seq::<KeyStorageType>::empty() =~= l@);
    }
    Ok((l, p))
}

// ---------------------------------------------------------------------------
// optional fields: an explicit presence byte, never a default value
// ---------------------------------------------------------------------------

pub open spec fn spec_enc_opt_bytes(o: Option<Seq<u8>>) -> Seq<u8> {
    match o {
        None => crate::codec::spec_enc_bool(false),
        Some(v) => crate::codec::spec_enc_bool(true) + spec_enc_bytes(v),
    }
}

pub open spec fn spec_dec_opt_bytes(b: Seq<u8>) -> Option<(Option<Seq<u8>>, int)> {
    match crate::codec::spec_dec_bool(b) {
        Some((present, _)) => {
            if present {
                match spec_dec_bytes(b.skip(1)) {
                    Some((v, n)) => Some((Some(v), 1 + n)),
                    None => None,
                }
            } else {
                Some((None, 1int))
            }
        },
        None => None,
    }
}

pub proof fn lemma_opt_bytes_round_trip(o: Option<Seq<u8>>, rest: Seq<u8>)
    requires
        o matches Some(v) ==> v.len() <= u64::MAX,
    ensures
        spec_dec_opt_bytes(spec_enc_opt_bytes(o) + rest) == Some(
            (o, spec_enc_opt_bytes(o).len() as int),
        ),
{
    let b = spec_enc_opt_bytes(o) + rest;
    match o {
        None => {
            crate::codec::lemma_bool_round_trip(false, rest);
        },
        Some(v) => {
            let tag = crate::codec::spec_enc_bool(true);
            let inner = spec_enc_bytes(v);
            vstd::seq_lib::lemma_concat_associative(tag, inner, rest);
            assert(b == tag + (inner + rest));
            crate::codec::lemma_bool_round_trip(true, inner + rest);
            assert(crate::codec::spec_dec_bool(b) == Some((true, 1int)));
            lemma_concat_skip(tag, inner + rest);
            assert(b.skip(1) == inner + rest);
            crate::codec::lemma_bytes_round_trip(v, rest);
            assert(spec_dec_bytes(b.skip(1)) == Some((v, 8 + v.len() as int)));
            crate::codec::lemma_enc_u64_len(v.len() as u64);
        },
    }
}

pub proof fn lemma_opt_bytes_sound(b: Seq<u8>)
    ensures
        spec_dec_opt_bytes(b) matches Some((o, n)) ==> {
            &&& 0 <= n <= b.len()
            &&& (o matches Some(v) ==> v.len() <= u64::MAX)
            &&& b.take(n) == spec_enc_opt_bytes(o)
        },
{
    if spec_dec_opt_bytes(b) is Some {
        let (o, n) = spec_dec_opt_bytes(b)->Some_0;
        crate::codec::lemma_bool_sound(b);
        match o {
            None => {
                assert(b.take(1int) =~= crate::codec::spec_enc_bool(false));
            },
            Some(v) => {
                crate::codec::lemma_bytes_sound(b.skip(1));
                let (v2, m) = spec_dec_bytes(b.skip(1))->Some_0;
                assert(b.take(n) =~= crate::codec::spec_enc_bool(true) + b.skip(1).take(m));
            },
        }
    }
}

pub fn write_opt_bytes(out: &mut Vec<u8>, o: &Option<Vec<u8>>)
    ensures
        final(out)@ == old(out)@ + spec_enc_opt_bytes(match o {
            Some(v) => Some(v@),
            None => None,
        }),
{
    match o {
        None => {
            crate::codec::write_bool(out, false);
        },
        Some(v) => {
            crate::codec::write_bool(out, true);
            write_bytes(out, v);
            proof {
                assert(out@ =~= old(out)@ + spec_enc_opt_bytes(Some(v@)));
            }
        },
    }
}

pub fn read_opt_bytes(buf: &[u8], pos: usize) -> (r: Result<(Option<Vec<u8>>, usize), DecodeError>)
    requires
        pos <= buf@.len(),
    ensures
        match r {
            Ok((o, p)) => {
                &&& pos < p <= buf@.len()
                &&& spec_dec_opt_bytes(buf@.skip(pos as int)) == Some(
                    (
                        match o {
                            Some(v) => Some(v@),
                            None => None,
                        },
                        p - pos,
                    ),
                )
            },
            Err(_) => spec_dec_opt_bytes(buf@.skip(pos as int)) is None,
        },
{
    let (present, p1) = match crate::codec::read_bool(buf, pos) {
        Ok(x) => x,
        Err(e) => {
            return Err(e);
        },
    };
    if !present {
        return Ok((None, p1));
    }
    proof {
        crate::codec::lemma_skip_skip(buf@, pos as int, 1int);
    }
    match read_bytes(buf, p1) {
        Ok((v, p2)) => Ok((Some(v), p2)),
        Err(e) => Err(e),
    }
}

pub open spec fn spec_enc_opt_u64(o: Option<u64>) -> Seq<u8> {
    match o {
        None => crate::codec::spec_enc_bool(false),
        Some(v) => crate::codec::spec_enc_bool(true) + crate::codec::spec_enc_u64(v),
    }
}

pub open spec fn spec_dec_opt_u64(b: Seq<u8>) -> Option<(Option<u64>, int)> {
    match crate::codec::spec_dec_bool(b) {
        Some((present, _)) => {
            if present {
                match crate::codec::spec_dec_u64(b.skip(1)) {
                    Some((v, n)) => Some((Some(v), 1 + n)),
                    None => None,
                }
            } else {
                Some((None, 1int))
            }
        },
        None => None,
    }
}

pub proof fn lemma_opt_u64_round_trip(o: Option<u64>, rest: Seq<u8>)
    ensures
        spec_dec_opt_u64(spec_enc_opt_u64(o) + rest) == Some(
            (o, spec_enc_opt_u64(o).len() as int),
        ),
{
    let b = spec_enc_opt_u64(o) + rest;
    match o {
        None => {
            crate::codec::lemma_bool_round_trip(false, rest);
        },
        Some(v) => {
            let tag = crate::codec::spec_enc_bool(true);
            let inner = crate::codec::spec_enc_u64(v);
            vstd::seq_lib::lemma_concat_associative(tag, inner, rest);
            assert(b == tag + (inner + rest));
            crate::codec::lemma_bool_round_trip(true, inner + rest);
            assert(crate::codec::spec_dec_bool(b) == Some((true, 1int)));
            lemma_concat_skip(tag, inner + rest);
            assert(b.skip(1) == inner + rest);
            crate::codec::lemma_u64_round_trip(v, rest);
            crate::codec::lemma_enc_u64_len(v);
        },
    }
}

pub proof fn lemma_opt_u64_sound(b: Seq<u8>)
    ensures
        spec_dec_opt_u64(b) matches Some((o, n)) ==> 0 <= n <= b.len() && b.take(n)
            == spec_enc_opt_u64(o),
{
    if spec_dec_opt_u64(b) is Some {
        let (o, n) = spec_dec_opt_u64(b)->Some_0;
        crate::codec::lemma_bool_sound(b);
        match o {
            None => {
                assert(b.take(1int) =~= crate::codec::spec_enc_bool(false));
            },
            Some(v) => {
                crate::codec::lemma_u64_sound(b.skip(1));
                assert(b.take(n) =~= crate::codec::spec_enc_bool(true) + b.skip(1).take(8int));
            },
        }
    }
}

pub fn write_opt_u64(out: &mut Vec<u8>, o: &Option<u64>)
    ensures
        final(out)@ == old(out)@ + spec_enc_opt_u64(*o),
{
    match o {
        None => {
            crate::codec::write_bool(out, false);
        },
        Some(v) => {
            crate::codec::write_bool(out, true);
            crate::codec::write_u64(out, *v);
            proof {
                assert(out@ =~= old(out)@ + spec_enc_opt_u64(Some(*v)));
            }
        },
    }
}

pub fn read_opt_u64(buf: &[u8], pos: usize) -> (r: Result<(Option<u64>, usize), DecodeError>)
    requires
        pos <= buf@.len(),
    ensures
        match r {
            Ok((o, p)) => {
                &&& pos < p <= buf@.len()
                &&& spec_dec_opt_u64(buf@.skip(pos as int)) == Some((o, p - pos))
            },
            Err(_) => spec_dec_opt_u64(buf@.skip(pos as int)) is None,
        },
{
    let (present, p1) = match crate::codec::read_bool(buf, pos) {
        Ok(x) => x,
        Err(e) => {
            return Err(e);
        },
    };
    if !present {
        return Ok((None, p1));
    }
    proof {
        crate::codec::lemma_skip_skip(buf@, pos as int, 1int);
    }
    match crate::codec::read_u64(buf, p1) {
        Ok((v, p2)) => Ok((Some(v), p2)),
        Err(e) => Err(e),
    }
}

pub open spec fn spec_enc_opt_hash(o: Option<HashV>) -> Seq<u8> {
    match o {
        None => crate::codec::spec_enc_bool(false),
        Some(h) => crate::codec::spec_enc_bool(true) + spec_enc_hash(h),
    }
}

pub open spec fn spec_dec_opt_hash(b: Seq<u8>) -> Option<(Option<HashV>, int)> {
    match crate::codec::spec_dec_bool(b) {
        Some((present, _)) => {
            if present {
                match spec_dec_hash(b.skip(1)) {
                    Some((h, n)) => Some((Some(h), 1 + n)),
                    None => None,
                }
            } else {
                Some((None, 1int))
            }
        },
        None => None,
    }
}

pub proof fn lemma_opt_hash_round_trip(o: Option<HashV>, rest: Seq<u8>)
    requires
        o matches Some(h) ==> h.wf(),
    ensures
        spec_dec_opt_hash(spec_enc_opt_hash(o) + rest) == Some(
            (o, spec_enc_opt_hash(o).len() as int),
        ),
{
    let b = spec_enc_opt_hash(o) + rest;
    match o {
        None => {
            crate::codec::lemma_bool_round_trip(false, rest);
        },
        Some(h) => {
            let tag = crate::codec::spec_enc_bool(true);
            let inner = spec_enc_hash(h);
            vstd::seq_lib::lemma_concat_associative(tag, inner, rest);
            assert(b == tag + (inner + rest));
            crate::codec::lemma_bool_round_trip(true, inner + rest);
            assert(crate::codec::spec_dec_bool(b) == Some((true, 1int)));
            lemma_concat_skip(tag, inner + rest);
            assert(b.skip(1) == inner + rest);
            lemma_hash_round_trip(h, rest);
        },
    }
}

pub proof fn lemma_opt_hash_sound(b: Seq<u8>)
    ensures
        spec_dec_opt_hash(b) matches Some((o, n)) ==> {
            &&& 0 <= n <= b.len()
            &&& (o matches Some(h) ==> h.wf())
            &&& b.take(n) == spec_enc_opt_hash(o)
        },
{
    if spec_dec_opt_hash(b) is Some {
        let (o, n) = spec_dec_opt_hash(b)->Some_0;
        crate::codec::lemma_bool_sound(b);
        match o {
            None => {
                assert(b.take(1int) =~= crate::codec::spec_enc_bool(false));
            },
            Some(h) => {
                lemma_hash_sound(b.skip(1));
                let (h2, m) = spec_dec_hash(b.skip(1))->Some_0;
                assert(b.take(n) =~= crate::codec::spec_enc_bool(true) + b.skip(1).take(m));
            },
        }
    }
}

pub fn write_opt_hash(out: &mut Vec<u8>, o: &Option<HMac>)
    ensures
        final(out)@ == old(out)@ + spec_enc_opt_hash(match o {
            Some(h) => Some(h@),
            None => None,
        }),
{
    match o {
        None => {
            crate::codec::write_bool(out, false);
        },
        Some(h) => {
            crate::codec::write_bool(out, true);
            write_hash_fields(out, h.alg, &h.value);
            proof {
                assert(out@ =~= old(out)@ + spec_enc_opt_hash(Some(h@)));
            }
        },
    }
}

pub fn read_opt_hmac(buf: &[u8], pos: usize) -> (r: Result<(Option<HMac>, usize), DecodeError>)
    requires
        pos <= buf@.len(),
    ensures
        match r {
            Ok((o, p)) => {
                &&& pos < p <= buf@.len()
                &&& spec_dec_opt_hash(buf@.skip(pos as int)) == Some(
                    (
                        match o {
                            Some(h) => Some(h@),
                            None => None,
                        },
                        p - pos,
                    ),
                )
            },
            Err(_) => spec_dec_opt_hash(buf@.skip(pos as int)) is None,
        },
{
    let (present, p1) = match crate::codec::read_bool(buf, pos) {
        Ok(x) => x,
        Err(e) => {
            return Err(e);
        },
    };
    if !present {
        return Ok((None, p1));
    }
    proof {
        crate::codec::lemma_skip_skip(buf@, pos as int, 1int);
    }
    match read_hash_fields(buf, p1) {
        Ok(((alg, value), p2)) => Ok((Some(HMac { alg, value }), p2)),
        Err(e) => Err(e),
    }
}

// a single optional storage-type selector
pub open spec fn spec_enc_opt_storage(o: Option<KeyStorageType>) -> Seq<u8> {
    match o {
        None => crate::codec::spec_enc_bool(false),
        Some(v) => crate::codec::spec_enc_bool(true) + spec_enc_u8(v.spec_tag()),
    }
}

pub open spec fn spec_dec_opt_storage(b: Seq<u8>) -> Option<(Option<KeyStorageType>, int)> {
    match crate::codec::spec_dec_bool(b) {
        Some((present, _)) => {
            if present {
                match spec_dec_u8(b.skip(1)) {
                    Some((c, _)) => match KeyStorageType::spec_from_tag(c) {
                        Some(v) => Some((Some(v), 2int)),
                        None => None,
                    },
                    None => None,
                }
            } else {
                Some((None, 1int))
            }
        },
        None => None,
    }
}

pub proof fn lemma_opt_storage_round_trip(o: Option<KeyStorageType>, rest: Seq<u8>)
    ensures
        spec_dec_opt_storage(spec_enc_opt_storage(o) + rest) == Some(
            (o, spec_enc_opt_storage(o).len() as int),
        ),
{
    let b = spec_enc_opt_storage(o) + rest;
    match o {
        None => {
            crate::codec::lemma_bool_round_trip(false, rest);
        },
        Some(v) => {
            let tag = crate::codec::spec_enc_bool(true);
            let inner = spec_enc_u8(v.spec_tag());
            vstd::seq_lib::lemma_concat_associative(tag, inner, rest);
            assert(b == tag + (inner + rest));
            crate::codec::lemma_bool_round_trip(true, inner + rest);
            lemma_concat_skip(tag, inner + rest);
            assert(b.skip(1) == inner + rest);
            lemma_u8_round_trip(v.spec_tag(), rest);
        },
    }
}

pub proof fn lemma_opt_storage_sound(b: Seq<u8>)
    ensures
        spec_dec_opt_storage(b) matches Some((o, n)) ==> 0 <= n <= b.len() && b.take(n)
            == spec_enc_opt_storage(o),
{
    if spec_dec_opt_storage(b) is Some {
        let (o, n) = spec_dec_opt_storage(b)->Some_0;
        crate::codec::lemma_bool_sound(b);
        match o {
            None => {
                assert(b.take(1int) =~= crate::codec::spec_enc_bool(false));
            },
            Some(v) => {
                assert(b.take(2int) =~= crate::codec::spec_enc_bool(true) + spec_enc_u8(
                    b.skip(1)[0],
                ));
            },
        }
    }
}

pub fn write_opt_storage(out: &mut Vec<u8>, o: &Option<KeyStorageType>)
    ensures
        final(out)@ == old(out)@ + spec_enc_opt_storage(*o),
{
    match o {
        None => {
            crate::codec::write_bool(out, false);
        },
        Some(v) => {
            crate::codec::write_bool(out, true);
            write_u8(out, v.tag());
            proof {
                assert(out@ =~= old(out)@ + spec_enc_opt_storage(Some(*v)));
            }
        },
    }
}

pub fn read_opt_storage(buf: &[u8], pos: usize) -> (r: Result<
    (Option<KeyStorageType>, usize),
    DecodeError,
>)
    requires
        pos <= buf@.len(),
    ensures
        match r {
            Ok((o, p)) => {
                &&& pos < p <= buf@.len()
                &&& spec_dec_opt_storage(buf@.skip(pos as int)) == Some((o, p - pos))
            },
            Err(_) => spec_dec_opt_storage(buf@.skip(pos as int)) is None,
        },
{
    let (present, p1) = match crate::codec::read_bool(buf, pos) {
        Ok(x) => x,
        Err(e) => {
            return Err(e);
        },
    };
    if !present {
        return Ok((None, p1));
    }
    proof {
        crate::codec::lemma_skip_skip(buf@, pos as int, 1int);
    }
    let (c, p2) = match read_u8(buf, p1) {
        Ok(x) => x,
        Err(e) => {
            return Err(e);
        },
    };
    match KeyStorageType::from_tag(c) {
        Some(v) => Ok((Some(v), p2)),
        None => Err(DecodeError::BadTag),
    }
}

// an optional list of storage-type selectors: presence byte, u64 count, tags
pub open spec fn spec_enc_opt_storage_list(o: Option<Seq<KeyStorageType>>) -> Seq<u8> {
    match o {
        None => crate::codec::spec_enc_bool(false),
        Some(l) => crate::codec::spec_enc_bool(true) + crate::codec::spec_enc_u64(l.len() as u64)
            + spec_enc_storage_list(l),
    }
}

pub open spec fn spec_dec_opt_storage_list(b: Seq<u8>) -> Option<
    (Option<Seq<KeyStorageType>>, int),
> {
    match crate::codec::spec_dec_bool(b) {
        Some((present, _)) => {
            if present {
                match crate::codec::spec_dec_u64(b.skip(1)) {
                    Some((count, _)) => match spec_dec_storage_list(b.skip(9), count as nat) {
                        Some((l, n)) => Some((Some(l), 9 + n)),
                        None => None,
                    },
                    None => None,
                }
            } else {
                Some((None, 1int))
            }
        },
        None => None,
    }
}

pub proof fn lemma_opt_storage_list_round_trip(o: Option<Seq<KeyStorageType>>, rest: Seq<u8>)
    requires
        o matches Some(l) ==> l.len() <= u64::MAX,
    ensures
        spec_dec_opt_storage_list(spec_enc_opt_storage_list(o) + rest) == Some(
            (o, spec_enc_opt_storage_list(o).len() as int),
        ),
{
    let b = spec_enc_opt_storage_list(o) + rest;
    match o {
        None => {
            crate::codec::lemma_bool_round_trip(false, rest);
        },
        Some(l) => {
            let tag = crate::codec::spec_enc_bool(true);
            let e_count = crate::codec::spec_enc_u64(l.len() as u64);
            let e_items = spec_enc_storage_list(l);
            crate::codec::lemma_enc_u64_len(l.len() as u64);
            lemma_storage_list_enc_len(l);
            vstd::seq_lib::lemma_concat_associative(tag + e_count, e_items, rest);
            vstd::seq_lib::lemma_concat_associative(tag, e_count, e_items + rest);
            assert(b == tag + (e_count + (e_items + rest)));
            crate::codec::lemma_bool_round_trip(true, e_count + (e_items + rest));
            assert(crate::codec::spec_dec_bool(b) == Some((true, 1int)));
            lemma_concat_skip(tag, e_count + (e_items + rest));
            assert(b.skip(1) == e_count + (e_items + rest));
            crate::codec::lemma_u64_round_trip(l.len() as u64, e_items + rest);
            lemma_concat_skip(e_count, e_items + rest);
            crate::codec::lemma_skip_skip(b, 1int, 8int);
            assert(b.skip(9) == e_items + rest);
            lemma_storage_list_round_trip(l, rest);
        },
    }
}

pub proof fn lemma_opt_storage_list_sound(b: Seq<u8>)
    ensures
        spec_dec_opt_storage_list(b) matches Some((o, n)) ==> {
            &&& 0 <= n <= b.len()
            &&& (o matches Some(l) ==> l.len() <= u64::MAX)
            &&& b.take(n) == spec_enc_opt_storage_list(o)
        },
{
    if spec_dec_opt_storage_list(b) is Some {
        let (o, n) = spec_dec_opt_storage_list(b)->Some_0;
        crate::codec::lemma_bool_sound(b);
        match o {
            None => {
                assert(b.take(1int) =~= crate::codec::spec_enc_bool(false));
            },
            Some(l) => {
                let count = crate::codec::spec_dec_u64(b.skip(1))->Some_0.0;
                crate::codec::lemma_u64_sound(b.skip(1));
                crate::codec::lemma_skip_skip(b, 1int, 8int);
                lemma_storage_list_sound(b.skip(9), count as nat);
                let (l2, m) = spec_dec_storage_list(b.skip(9), count as nat)->Some_0;
                assert(b.take(n) =~= crate::codec::spec_enc_bool(true) + b.skip(1).take(8int)
                    + b.skip(9).take(m));
            },
        }
    }
}

pub fn write_opt_storage_list(out: &mut Vec<u8>, o: &Option<Vec<KeyStorageType>>)
    ensures
        final(out)@ == old(out)@ + spec_enc_opt_storage_list(
            match o {
                Some(l) => Some(l@),
                None => None,
            },
        ),
{
    match o {
        None => {
            crate::codec::write_bool(out, false);
        },
        Some(l) => {
            crate::codec::write_bool(out, true);
            crate::codec::write_u64(out, l.len() as u64);
            write_storage_list(out, l);
            proof {
                assert(out@ =~= old(out)@ + spec_enc_opt_storage_list(Some(l@)));
            }
        },
    }
}

pub fn read_opt_storage_list(buf: &[u8], pos: usize) -> (r: Result<
    (Option<Vec<KeyStorageType>>, usize),
    DecodeError,
>)
    requires
        pos <= buf@.len(),
    ensures
        match r {
            Ok((o, p)) => {
                &&& pos < p <= buf@.len()
                &&& spec_dec_opt_storage_list(buf@.skip(pos as int)) == Some(
                    (
                        match o {
                            Some(l) => Some(l@),
                            None => None,
                        },
                        p - pos,
                    ),
                )
            },
            Err(_) => spec_dec_opt_storage_list(buf@.skip(pos as int)) is None,
        },
{
    let (present, p1) = match crate::codec::read_bool(buf, pos) {
        Ok(x) => x,
        Err(e) => {
            return Err(e);
        },
    };
    if !present {
        return Ok((None, p1));
    }
    proof {
        crate::codec::lemma_skip_skip(buf@, pos as int, 1int);
    }
    let (count, p2) = match crate::codec::read_u64(buf, p1) {
        Ok(x) => x,
        Err(e) => {
            return Err(e);
        },
    };
    proof {
        crate::codec::lemma_skip_skip(buf@, pos as int, 9int);
    }
    match read_storage_list(buf, p2, count) {
        Ok((l, p3)) => Ok((Some(l), p3)),
        Err(e) => Err(e),
    }
}

} // verus!
