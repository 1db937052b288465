//! The ephemeral key agreement and session-key derivation.
//!
//! A `KeyExchange` holds one side's ephemeral key pair for the negotiated
//! suite. Deriving from a peer's public value yields the shared secret, and
//! the session keys expand from that secret through a keyed derivation whose
//! context bytes name the direction of traffic — the two directions feed
//! provably different derivation inputs (`lemma_directional_contexts_distinct`).
//! The private material lives only inside this type and is dropped with it
//! once the directional keys are derived.

use vstd::prelude::*;

use crate::crypto::{
    compute_hmac, derive_shared_secret, generate_key_pair, hmac_of, public_key_of,
    shared_secret_of,
};
use crate::errors::CryptoError;
use crate::types::{CipherSuite, HashType, KexSuite, KeyDeriveSide};

verus! {

/// The context bytes fed to the key derivation: a fixed label, the byte that
/// names the direction of traffic, and the cipher suite's tag.
pub open spec fn spec_derive_context(cipher: CipherSuite, device_to_service: bool) -> Seq<u8> {
    seq![
        0x6bu8,
        0x64u8,
        0x66u8,
        if device_to_service {
            1u8
        } else {
            2u8
        },
        cipher.spec_tag(),
    ]
}

/// The two directions feed different derivation inputs for every cipher
/// suite, so the directional keys are separated by construction: equal keys
/// would need the keyed derivation to collide on distinct inputs.
pub proof fn lemma_directional_contexts_distinct(cipher: CipherSuite)
    ensures
        spec_derive_context(cipher, true) != spec_derive_context(cipher, false),
{
    assert(spec_derive_context(cipher, true)[3] == 1u8);
    assert(spec_derive_context(cipher, false)[3] == 2u8);
}

/// The session key for one direction: the keyed digest of the directional
/// context under the shared secret, cut to the cipher suite's key width.
pub open spec fn spec_session_key(
    cipher: CipherSuite,
    secret: Seq<u8>,
    device_to_service: bool,
) -> Seq<u8> {
    hmac_of(HashType::Sha256, secret, spec_derive_context(cipher, device_to_service)).take(
        cipher.spec_key_len(),
    )
}

/// Model of a derived key pair, oriented for one side of the tunnel.
#[verifier::ext_equal]
pub struct SessionKeysV {
    pub encrypt: Seq<u8>,
    pub decrypt: Seq<u8>,
}

/// The pair of directional symmetric keys one side holds: the key it
/// encrypts with and the key it decrypts with. The two directions never
/// share a key by construction.
#[derive(Clone, Debug, PartialEq, Eq)]
pub struct SessionKeys {
    pub encrypt_key: Vec<u8>,
    pub decrypt_key: Vec<u8>,
}

impl View for SessionKeys {
    type V = SessionKeysV;

    open spec fn view(&self) -> SessionKeysV {
        SessionKeysV { encrypt: self.encrypt_key@, decrypt: self.decrypt_key@ }
    }
}

/// What a side's key pair is, as a function of the cipher suite, the shared
/// secret and the side: a side encrypts with its own outbound direction's
/// key and decrypts with the other direction's.
pub open spec fn spec_session_keys(
    cipher: CipherSuite,
    secret: Seq<u8>,
    side: KeyDeriveSide,
) -> SessionKeysV {
    match side {
        KeyDeriveSide::Device => SessionKeysV {
            encrypt: spec_session_key(cipher, secret, true),
            decrypt: spec_session_key(cipher, secret, false),
        },
        KeyDeriveSide::OwnerService => SessionKeysV {
            encrypt: spec_session_key(cipher, secret, false),
            decrypt: spec_session_key(cipher, secret, true),
        },
    }
}

/// The two sides of one tunnel hold mirrored pairs: what the device encrypts
/// with, the service decrypts with, and the other way round. With the
/// deterministic contracts of the derivation this is the verified half of
/// key-exchange agreement; that both sides compute the same shared secret is
/// the mathematics of the key agreement itself, exercised by the tests.
pub proof fn lemma_session_keys_mirror(cipher: CipherSuite, secret: Seq<u8>)
    ensures
        spec_session_keys(cipher, secret, KeyDeriveSide::Device).encrypt == spec_session_keys(
            cipher,
            secret,
            KeyDeriveSide::OwnerService,
        ).decrypt,
        spec_session_keys(cipher, secret, KeyDeriveSide::Device).decrypt == spec_session_keys(
            cipher,
            secret,
            KeyDeriveSide::OwnerService,
        ).encrypt,
{
}

/// Takes the first `n` bytes of a derived block.
fn take_prefix(v: &Vec<u8>, n: usize) -> (r: Vec<u8>)
    requires
        n <= v@.len(),
    ensures
        r@ == v@.take(n as int),
{
    let r = crate::codec::copy_range(v.as_slice(), 0, n);
    proof {
        assert(v@.subrange(0, n as int) =~= v@.take(n as int));
    }
    r
}

/// Derives one direction's key from the shared secret.
fn derive_one_key(cipher: CipherSuite, secret: &[u8], device_to_service: bool) -> (r: Result<
    Vec<u8>,
    CryptoError,
>)
    requires
        secret@.len() <= 0x7fff_ffff,
    ensures
        r matches Ok(k) ==> k@ == spec_session_key(cipher, secret@, device_to_service),
{
    let mut context: Vec<u8> = Vec::new();
    context.push(0x6b);
    context.push(0x64);
    context.push(0x66);
    context.push(if device_to_service {
        1
    } else {
        2
    });
    context.push(cipher.tag());
    proof {
        assert(context@ =~= spec_derive_context(cipher, device_to_service));
    }
    let block = match compute_hmac(HashType::Sha256, secret, context.as_slice()) {
        Ok(b) => b,
        Err(e) => {
            return Err(e);
        },
    };
    Ok(take_prefix(&block, cipher.key_len()))
}

/// Expands the shared secret into this side's directional key pair. The
/// result is a function of the cipher suite, the secret and the side alone:
/// repeated derivations from the same material yield byte-identical keys.
/// A secret too wide for the keyed-digest backend is rejected, never fed to
/// it.
pub fn derive_session_keys(cipher: CipherSuite, secret: &[u8], side: KeyDeriveSide) -> (r: Result<
    SessionKeys,
    CryptoError,
>)
    ensures
        r matches Ok(k) ==> k@ == spec_session_keys(cipher, secret@, side),
{
    if secret.len() > 0x7fff_ffff {
        return Err(CryptoError::MalformedInput);
    }
    let d2s = match derive_one_key(cipher, secret, true) {
        Ok(k) => k,
        Err(e) => {
            return Err(e);
        },
    };
    let s2d = match derive_one_key(cipher, secret, false) {
        Ok(k) => k,
        Err(e) => {
            return Err(e);
        },
    };
    match side {
        KeyDeriveSide::Device => Ok(SessionKeys { encrypt_key: d2s, decrypt_key: s2d }),
        KeyDeriveSide::OwnerService => Ok(SessionKeys { encrypt_key: s2d, decrypt_key: d2s }),
    }
}

/// One side's ephemeral key-agreement instance, bound to the negotiated
/// suite. Secret material is held only here and goes away with the value.
pub struct KeyExchange {
    pub suite: KexSuite,
    pub private_key_der: Vec<u8>,
    pub public_value: Vec<u8>,
}

impl KeyExchange {
    /// The stored public value is the public half of the stored private key.
    pub open spec fn wf(self) -> bool {
        self.public_value@ == public_key_of(self.private_key_der@)
    }

    /// Generates fresh ephemeral material on the suite's curve.
    pub fn new(suite: KexSuite) -> (r: Result<KeyExchange, CryptoError>)
        ensures
            r matches Ok(k) ==> k.suite == suite && k.wf(),
    {
        let (private_key_der, public_value) = match generate_key_pair(suite) {
            Ok(p) => p,
            Err(e) => {
                return Err(e);
            },
        };
        Ok(KeyExchange { suite, private_key_der, public_value })
    }

    /// The public value to send to the peer.
    pub fn get_public(&self) -> (r: &[u8])
        ensures
            r@ == self.public_value@,
    {
        self.public_value.as_slice()
    }

    /// Computes the shared secret from the peer's public value and this
    /// side's private material. The secret is a function of the two key
    /// halves alone; malformed peer input is an error, never a guess.
    pub fn derive_shared(&self, peer_public: &[u8]) -> (r: Result<Vec<u8>, CryptoError>)
        ensures
            r matches Ok(s) ==> s@ == shared_secret_of(self.private_key_der@, peer_public@),
    {
        derive_shared_secret(self.private_key_der.as_slice(), peer_public)
    }

    /// Agrees on the shared secret and expands it into this side's key pair
    /// in one step: what a handshake does right after the key-exchange
    /// message.
    pub fn derive_key(&self, side: KeyDeriveSide, cipher: CipherSuite, peer_public: &[u8]) -> (r:
        Result<SessionKeys, CryptoError>)
        ensures
            r matches Ok(k) ==> k@ == spec_session_keys(
                cipher,
                shared_secret_of(self.private_key_der@, peer_public@),
                side,
            ),
    {
        let secret = match self.derive_shared(peer_public) {
            Ok(s) => s,
            Err(e) => {
                return Err(e);
            },
        };
        derive_session_keys(cipher, secret.as_slice(), side)
    }
}

} // verus!
