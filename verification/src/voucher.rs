//! The ownership voucher: the chain of custody for a device's credential.
//!
//! A voucher holds a header (device identity and the original manufacturer's
//! public key), an ordered sequence of entries each handing ownership to a
//! new key, and the device-side HMAC over the header. Every entry's
//! signature must validate against the key of the step before it — the
//! manufacturer's for the first entry — and only then is the final entry's
//! key the voucher's current owner. The walk is `verify_chain`, whose
//! contract says exactly when it hands a key out; `verify_device_hmac`
//! checks header integrity independently of the entry chain.

use vstd::prelude::*;

use crate::codec::{
    lemma_bytes_round_trip, lemma_bytes_sound, lemma_concat_skip, lemma_enc_u64_len,
    lemma_fixed_round_trip, lemma_fixed_sound, lemma_skip_skip, read_bytes, read_fixed,
    spec_dec_bytes, spec_dec_fixed, spec_enc_bytes, write_bytes, write_fixed,
};
use crate::crypto::{
    cert_public_key_of, cert_signed_by, compute_digest, compute_hmac, digest_of, extract_cert_public_key,
    hmac_of, public_key_of, sign_data, signature_verifies, verify_cert_signed_by,
};
use crate::errors::{CryptoError, DecodeError, Error, VerificationError};
use crate::types::{
    lemma_public_key_round_trip, lemma_public_key_sound, read_public_key, spec_dec_public_key,
    spec_enc_public_key, spec_nonce_len, write_public_key, Guid, HMac, HashType, PublicKey,
    PublicKeyV,
};

verus! {

// ---------------------------------------------------------------------------
// voucher header
// ---------------------------------------------------------------------------

/// Model of a voucher header.
#[verifier::ext_equal]
pub struct VoucherHeaderV {
    pub guid: Seq<u8>,
    pub device_info: Seq<u8>,
    pub manufacturer_public_key: PublicKeyV,
}

impl VoucherHeaderV {
    pub open spec fn wf(self) -> bool {
        &&& self.guid.len() == spec_nonce_len()
        &&& self.device_info.len() <= u64::MAX
        &&& self.manufacturer_public_key.wf()
    }
}

/// The header of an ownership voucher: the device's identity and the
/// original manufacturer's public key, from which the custody chain starts.
#[derive(Clone, Debug, PartialEq, Eq)]
pub struct VoucherHeader {
    pub guid: Guid,
    pub device_info: Vec<u8>,
    pub manufacturer_public_key: PublicKey,
}

impl View for VoucherHeader {
    type V = VoucherHeaderV;

    open spec fn view(&self) -> VoucherHeaderV {
        VoucherHeaderV {
            guid: self.guid@,
            device_info: self.device_info@,
            manufacturer_public_key: self.manufacturer_public_key@,
        }
    }
}

pub open spec fn spec_encode_voucher_header(h: VoucherHeaderV) -> Seq<u8> {
    h.guid + spec_enc_bytes(h.device_info) + spec_enc_public_key(h.manufacturer_public_key)
}

pub open spec fn spec_decode_voucher_header(b: Seq<u8>) -> Option<VoucherHeaderV> {
    match spec_dec_fixed(b, spec_nonce_len()) {
        Some((gv, _)) => match spec_dec_bytes(b.skip(16)) {
            Some((di, n1)) => match spec_dec_public_key(b.skip(16 + n1)) {
                Some((k, n2)) => {
                    if 16 + n1 + n2 == b.len() {
                        Some(
                            VoucherHeaderV {
                                guid: gv,
                                device_info: di,
                                manufacturer_public_key: k,
                            },
                        )
                    } else {
                        None
                    }
                },
                None => None,
            },
            None => None,
        },
        None => None,
    }
}

/// Decoding an encoding of a well-formed header yields it back.
pub proof fn lemma_voucher_header_round_trip(h: VoucherHeaderV)
    requires
        h.wf(),
    ensures
        spec_decode_voucher_header(spec_encode_voucher_header(h)) == Some(h),
{
    let e1 = h.guid;
    let e2 = spec_enc_bytes(h.device_info);
    let e3 = spec_enc_public_key(h.manufacturer_public_key);
    let b = spec_encode_voucher_header(h);
    lemma_enc_u64_len(h.device_info.len() as u64);
    lemma_enc_u64_len(h.manufacturer_public_key.body.len() as u64);
    vstd::seq_lib::lemma_concat_associative(e1, e2, e3);
    assert(b == e1 + (e2 + e3));
    lemma_fixed_round_trip(e1, e2 + e3);
    assert(spec_dec_fixed(b, 16) == Some((e1, 16int)));
    lemma_concat_skip(e1, e2 + e3);
    assert(b.skip(16) == e2 + e3);
    lemma_bytes_round_trip(h.device_info, e3);
    lemma_concat_skip(e2, e3);
    lemma_skip_skip(b, 16, e2.len() as int);
    assert(b.skip(16 + e2.len() as int) == e3);
    lemma_public_key_round_trip(h.manufacturer_public_key, Seq::<u8>::empty());
    assert(e3 + Seq::<u8>::empty() =~= e3);
}

/// A successful decode pins the input to exactly one encoding.
pub proof fn lemma_voucher_header_decode_pinned(b: Seq<u8>)
    ensures
        spec_decode_voucher_header(b) matches Some(h) ==> h.wf() && b == spec_encode_voucher_header(
            h,
        ),
{
    if spec_decode_voucher_header(b) is Some {
        lemma_fixed_sound(b, 16);
        lemma_bytes_sound(b.skip(16));
        let (di, n1) = spec_dec_bytes(b.skip(16))->Some_0;
        lemma_public_key_sound(b.skip(16 + n1));
        let (k, n2) = spec_dec_public_key(b.skip(16 + n1))->Some_0;
        lemma_skip_skip(b, 16, n1);
        assert(b =~= b.take(16) + b.skip(16).take(n1) + b.skip(16 + n1).take(n2));
    }
}

impl VoucherHeader {
    pub fn new(guid: Guid, device_info: Vec<u8>, manufacturer_public_key: PublicKey) -> (r:
        VoucherHeader)
        ensures
            r@ == (VoucherHeaderV {
                guid: guid@,
                device_info: device_info@,
                manufacturer_public_key: manufacturer_public_key@,
            }),
            guid.wf() ==> r@.wf(),
    {
        proof {
            assert(device_info.len() == device_info@.len());
            assert(manufacturer_public_key.body.len() == manufacturer_public_key.body@.len());
        }
        VoucherHeader { guid, device_info, manufacturer_public_key }
    }

    pub fn encode(&self) -> (r: Vec<u8>)
        ensures
            r@ == spec_encode_voucher_header(self@),
    {
        let mut out: Vec<u8> = Vec::new();
        write_fixed(&mut out, &self.guid.value);
        write_bytes(&mut out, &self.device_info);
        write_public_key(&mut out, &self.manufacturer_public_key);
        proof {
            assert(out@ =~= spec_encode_voucher_header(self@));
        }
        out
    }

    pub fn decode(bytes: &[u8]) -> (r: Result<VoucherHeader, DecodeError>)
        ensures
            match r {
                Ok(h) => spec_decode_voucher_header(bytes@) == Some(h@) && h@.wf(),
                Err(_) => spec_decode_voucher_header(bytes@) is None,
            },
    {
        proof {
            assert(bytes@.skip(0) =~= bytes@);
        }
        let (gv, p1) = match read_fixed(bytes, 0, 16) {
            Ok(x) => x,
            Err(e) => {
                return Err(e);
            },
        };
        let (device_info, p2) = match read_bytes(bytes, p1) {
            Ok(x) => x,
            Err(e) => {
                return Err(e);
            },
        };
        let (manufacturer_public_key, p3) = match read_public_key(bytes, p2) {
            Ok(x) => x,
            Err(e) => {
                proof {
                    lemma_skip_skip(bytes@, 16, (p2 - 16) as int);
                }
                return Err(e);
            },
        };
        if p3 != bytes.len() {
            return Err(DecodeError::TrailingBytes);
        }
        proof {
            lemma_skip_skip(bytes@, 16, (p2 - 16) as int);
            lemma_bytes_sound(bytes@.skip(16));
            lemma_public_key_sound(bytes@.skip(p2 as int));
        }
        Ok(VoucherHeader { guid: Guid { value: gv }, device_info, manufacturer_public_key })
    }
}

// ---------------------------------------------------------------------------
// voucher entries and the chain predicate
// ---------------------------------------------------------------------------

/// Model of one custody entry.
#[verifier::ext_equal]
pub struct VoucherEntryV {
    pub public_key: PublicKeyV,
    pub signature: Seq<u8>,
}

impl VoucherEntryV {
    pub open spec fn wf(self) -> bool {
        &&& self.public_key.wf()
        &&& self.signature.len() <= u64::MAX
    }
}

/// One entry of the custody chain: the new owner's public key and the
/// previous owner's signature binding it to the chain.
#[derive(Clone, Debug, PartialEq, Eq)]
pub struct VoucherEntry {
    pub public_key: PublicKey,
    pub signature: Vec<u8>,
}

impl View for VoucherEntry {
    type V = VoucherEntryV;

    open spec fn view(&self) -> VoucherEntryV {
        VoucherEntryV { public_key: self.public_key@, signature: self.signature@ }
    }
}

/// The bytes an entry's signature covers: the digest of the preceding step
/// and the new owner's public key.
pub open spec fn spec_entry_tbs(prev_digest: Seq<u8>, public_key: PublicKeyV) -> Seq<u8> {
    spec_enc_bytes(prev_digest) + spec_enc_public_key(public_key)
}

/// The wire form of an entry, which the next step's digest covers.
pub open spec fn spec_enc_entry(e: VoucherEntryV) -> Seq<u8> {
    spec_enc_public_key(e.public_key) + spec_enc_bytes(e.signature)
}

/// The model of a vector of entries.
pub open spec fn spec_entries_view(es: Seq<VoucherEntry>) -> Seq<VoucherEntryV> {
    Seq::new(es.len(), |i: int| es[i]@)
}

/// Chain validity from an intermediate step: the current owner key, the
/// digest of the preceding step, and the entries still to walk. Each entry's
/// signature must validate under the key before it.
pub open spec fn spec_chain_valid_from(
    alg: HashType,
    key: Seq<u8>,
    prev_digest: Seq<u8>,
    entries: Seq<VoucherEntryV>,
) -> bool
    decreases entries.len(),
{
    if entries.len() == 0 {
        true
    } else {
        &&& signature_verifies(
            alg,
            key,
            spec_entry_tbs(prev_digest, entries[0].public_key),
            entries[0].signature,
        )
        &&& spec_chain_valid_from(
            alg,
            entries[0].public_key.body,
            digest_of(alg, spec_enc_entry(entries[0])),
            entries.skip(1),
        )
    }
}

/// The key a fully walked chain ends at: the last entry's, or the
/// manufacturer's if there is no entry.
pub open spec fn spec_chain_leaf(
    header: VoucherHeaderV,
    entries: Seq<VoucherEntryV>,
) -> PublicKeyV {
    if entries.len() == 0 {
        header.manufacturer_public_key
    } else {
        entries.last().public_key
    }
}

/// A voucher's chain is valid when every link from the manufacturer's key
/// onward validates.
pub open spec fn spec_chain_valid(
    alg: HashType,
    header: VoucherHeaderV,
    entries: Seq<VoucherEntryV>,
) -> bool {
    spec_chain_valid_from(
        alg,
        header.manufacturer_public_key.body,
        digest_of(alg, spec_encode_voucher_header(header)),
        entries,
    )
}

/// Extending a chain by one entry: the whole is valid exactly when the old
/// chain is valid and the new entry's signature validates under the old
/// leaf's key over the old last digest.
pub proof fn lemma_chain_snoc(
    alg: HashType,
    key: Seq<u8>,
    prev_digest: Seq<u8>,
    entries: Seq<VoucherEntryV>,
    e: VoucherEntryV,
)
    ensures
        spec_chain_valid_from(alg, key, prev_digest, entries.push(e)) <==> {
            &&& spec_chain_valid_from(alg, key, prev_digest, entries)
            &&& signature_verifies(
                alg,
                spec_chain_step_key(key, entries),
                spec_entry_tbs(spec_chain_step_digest(alg, prev_digest, entries), e.public_key),
                e.signature,
            )
        },
    decreases entries.len(),
{
    let t = entries.push(e);
    let em = Seq::<VoucherEntryV>::empty();
    if entries.len() == 0 {
        assert(entries =~= em);
        assert(t[0] == e);
        assert(t.skip(1) =~= em);
        assert(spec_chain_valid_from(
            alg,
            e.public_key.body,
            digest_of(alg, spec_enc_entry(e)),
            em,
        ));
        assert(spec_chain_valid_from(alg, key, prev_digest, em));
    } else {
        assert(t[0] == entries[0]);
        assert(t.skip(1) =~= entries.skip(1).push(e));
        lemma_chain_snoc(
            alg,
            entries[0].public_key.body,
            digest_of(alg, spec_enc_entry(entries[0])),
            entries.skip(1),
            e,
        );
        if entries.len() == 1 {
            assert(entries.skip(1) =~= em);
            assert(entries.last() == entries[0]);
        } else {
            assert(entries.skip(1).last() == entries.last());
        }
    }
}

/// The owner key after walking the given entries from `key`.
pub open spec fn spec_chain_step_key(key: Seq<u8>, entries: Seq<VoucherEntryV>) -> Seq<u8> {
    if entries.len() == 0 {
        key
    } else {
        entries.last().public_key.body
    }
}

/// The step digest after walking the given entries from `prev_digest`.
pub open spec fn spec_chain_step_digest(
    alg: HashType,
    prev_digest: Seq<u8>,
    entries: Seq<VoucherEntryV>,
) -> Seq<u8> {
    if entries.len() == 0 {
        prev_digest
    } else {
        digest_of(alg, spec_enc_entry(entries.last()))
    }
}

// ---------------------------------------------------------------------------
// the voucher itself
// ---------------------------------------------------------------------------

/// The chain-of-custody document: header, device HMAC over the header, and
/// the ordered custody entries. `alg` names the digest algorithm the chain's
/// digests and signatures use.
pub struct OwnershipVoucher {
    pub alg: HashType,
    pub header: VoucherHeader,
    pub header_hmac: HMac,
    pub entries: Vec<VoucherEntry>,
}

impl OwnershipVoucher {
    pub open spec fn wf(self) -> bool {
        &&& self.header@.wf()
        &&& forall|i: int|
            0 <= i < self.entries@.len() ==> (#[trigger] self.entries@[i])@.wf()
    }

    pub fn new(alg: HashType, header: VoucherHeader, header_hmac: HMac) -> (r: OwnershipVoucher)
        ensures
            r.alg == alg,
            r.header == header,
            r.header_hmac == header_hmac,
            r.entries@.len() == 0,
            header@.wf() ==> r.wf(),
    {
        OwnershipVoucher { alg, header, header_hmac, entries: Vec::new() }
    }

    /// The number of custody entries.
    pub fn num_entries(&self) -> (r: usize)
        ensures
            r == self.entries@.len(),
    {
        self.entries.len()
    }

    /// Walks the chain from the manufacturer's key and returns the current
    /// owner's key only if every link validates. A voucher whose chain does
    /// not validate yields the chain error and no key; only a digest-backend
    /// failure is reported otherwise, without a verdict.
    pub fn verify_chain(&self) -> (r: Result<PublicKey, Error>)
        ensures
            match r {
                Ok(k) => {
                    &&& spec_chain_valid(self.alg, self.header@, spec_entries_view(self.entries@))
                    &&& k@ == spec_chain_leaf(self.header@, spec_entries_view(self.entries@))
                },
                Err(e) => {
                    &&& (e == Error::Verification(VerificationError::ChainInvalid) || e
                        == Error::Crypto(CryptoError::Backend))
                    &&& e == Error::Verification(VerificationError::ChainInvalid)
                        ==> !spec_chain_valid(
                        self.alg,
                        self.header@,
                        spec_entries_view(self.entries@),
                    )
                },
            },
    {
        let ghost entries_v = spec_entries_view(self.entries@);
        let header_bytes = self.header.encode();
        let mut digest = match compute_digest(self.alg, header_bytes.as_slice()) {
            Ok(d) => d,
            Err(_) => {
                return Err(Error::Crypto(CryptoError::Backend));
            },
        };
        let mut key_type = self.header.manufacturer_public_key.key_type;
        let mut key = crate::codec::copy_range(
            self.header.manufacturer_public_key.body.as_slice(),
            0,
            self.header.manufacturer_public_key.body.len(),
        );
        proof {
            assert(key@ =~= self.header@.manufacturer_public_key.body);
            assert(entries_v.skip(0) =~= entries_v);
            assert(entries_v.take(0) =~= Seq::<VoucherEntryV>::empty());
            assert((PublicKeyV { key_type, body: key@ }) =~= spec_chain_leaf(
                self.header@,
                entries_v.take(0),
            ));
        }
        let mut i: usize = 0;
        while i < self.entries.len()
            invariant
                i <= self.entries@.len(),
                entries_v == spec_entries_view(self.entries@),
                entries_v.len() == self.entries@.len(),
                spec_chain_valid(self.alg, self.header@, entries_v) == spec_chain_valid_from(
                    self.alg,
                    key@,
                    digest@,
                    entries_v.skip(i as int),
                ),
                (PublicKeyV { key_type, body: key@ }) == spec_chain_leaf(
                    self.header@,
                    entries_v.take(i as int),
                ),
            decreases self.entries@.len() - i,
        {
            let ghost pre_key = key@;
            let ghost pre_digest = digest@;
            let entry = &self.entries[i];
            let mut tbs: Vec<u8> = Vec::new();
            write_bytes(&mut tbs, &digest);
            write_public_key(&mut tbs, &entry.public_key);
            proof {
                assert(entries_v.skip(i as int)[0] == entries_v[i as int]);
                assert(tbs@ =~= spec_entry_tbs(pre_digest, entries_v[i as int].public_key));
            }
            if !crate::crypto::verify_signature(
                self.alg,
                key.as_slice(),
                tbs.as_slice(),
                entry.signature.as_slice(),
            ) {
                return Err(Error::Verification(VerificationError::ChainInvalid));
            }
            let mut entry_bytes: Vec<u8> = Vec::new();
            write_public_key(&mut entry_bytes, &entry.public_key);
            write_bytes(&mut entry_bytes, &entry.signature);
            proof {
                assert(entry_bytes@ =~= spec_enc_entry(entries_v[i as int]));
            }
            digest = match compute_digest(self.alg, entry_bytes.as_slice()) {
                Ok(d) => d,
                Err(_) => {
                    return Err(Error::Crypto(CryptoError::Backend));
                },
            };
            key_type = entry.public_key.key_type;
            key = crate::codec::copy_range(
                entry.public_key.body.as_slice(),
                0,
                entry.public_key.body.len(),
            );
            i = i + 1;
            proof {
                assert(key@ =~= entries_v[i - 1].public_key.body);
                let rem = entries_v.skip(i - 1);
                assert(rem[0] == entries_v[i - 1]);
                assert(rem.skip(1) =~= entries_v.skip(i as int));
                assert(entries_v.take(i as int).last() == entries_v[i - 1]);
                assert((PublicKeyV { key_type, body: key@ }) =~= entries_v[i - 1].public_key);
            }
        }
        proof {
            assert(entries_v.skip(i as int) =~= Seq::<VoucherEntryV>::empty());
            assert(entries_v.take(i as int) =~= entries_v);
            if entries_v.len() > 0 {
                assert(entries_v.take(i as int).last() == entries_v.last());
            }
        }
        Ok(PublicKey::new(key_type, key))
    }

    /// Compares the device HMAC the voucher carries against one computed
    /// locally by the device; only a match ties the voucher to the device.
    pub fn verify_device_hmac(&self, computed: &HMac) -> (r: bool)
        ensures
            r == (self.header_hmac@ == computed@),
    {
        self.header_hmac.equals(computed)
    }

    /// The same comparison as a hard gate: a mismatch is the security-
    /// critical rejection, never a warning.
    pub fn ensure_device_hmac(&self, computed: &HMac) -> (r: Result<(), Error>)
        ensures
            r is Ok <==> self.header_hmac@ == computed@,
            r is Err ==> r == Err::<(), Error>(
                Error::Verification(VerificationError::HmacMismatch),
            ),
    {
        if self.header_hmac.equals(computed) {
            Ok(())
        } else {
            Err(Error::Verification(VerificationError::HmacMismatch))
        }
    }

    /// Hands custody to a new owner: signs the new owner's key into the
    /// chain with the given signing key. The new link validates under the
    /// signer's public half; it extends the chain's validity exactly when
    /// that half is the current leaf key.
    pub fn extend(&mut self, signer_private_der: &[u8], new_owner: PublicKey) -> (r: Result<
        (),
        Error,
    >)
        ensures
            match r {
                Ok(()) => {
                    &&& final(self).entries@.len() == old(self).entries@.len() + 1
                    &&& spec_entries_view(final(self).entries@) == spec_entries_view(
                        old(self).entries@,
                    ).push(spec_entries_view(final(self).entries@).last())
                    &&& spec_entries_view(final(self).entries@).last().public_key == new_owner@
                    &&& signature_verifies(
                        old(self).alg,
                        public_key_of(signer_private_der@),
                        spec_entry_tbs(
                            spec_chain_step_digest(
                                old(self).alg,
                                digest_of(
                                    old(self).alg,
                                    spec_encode_voucher_header(old(self).header@),
                                ),
                                spec_entries_view(old(self).entries@),
                            ),
                            new_owner@,
                        ),
                        spec_entries_view(final(self).entries@).last().signature,
                    )
                    &&& final(self).alg == old(self).alg
                    &&& final(self).header == old(self).header
                    &&& final(self).header_hmac == old(self).header_hmac
                },
                Err(_) => *final(self) == *old(self),
            },
    {
        let ghost entries_v = spec_entries_view(self.entries@);
        let header_bytes = self.header.encode();
        let mut digest = match compute_digest(self.alg, header_bytes.as_slice()) {
            Ok(d) => d,
            Err(_) => {
                return Err(Error::Crypto(CryptoError::Backend));
            },
        };
        let n = self.entries.len();
        if n > 0 {
            let last = &self.entries[n - 1];
            let mut entry_bytes: Vec<u8> = Vec::new();
            write_public_key(&mut entry_bytes, &last.public_key);
            write_bytes(&mut entry_bytes, &last.signature);
            proof {
                assert(entry_bytes@ =~= spec_enc_entry(entries_v.last()));
            }
            digest = match compute_digest(self.alg, entry_bytes.as_slice()) {
                Ok(d) => d,
                Err(_) => {
                    return Err(Error::Crypto(CryptoError::Backend));
                },
            };
        }
        let mut tbs: Vec<u8> = Vec::new();
        write_bytes(&mut tbs, &digest);
        write_public_key(&mut tbs, &new_owner);
        proof {
            assert(tbs@ =~= spec_entry_tbs(
                spec_chain_step_digest(
                    self.alg,
                    digest_of(self.alg, spec_encode_voucher_header(self.header@)),
                    entries_v,
                ),
                new_owner@,
            ));
        }
        let signature = match sign_data(self.alg, signer_private_der, tbs.as_slice()) {
            Ok(s) => s,
            Err(_) => {
                return Err(Error::Crypto(CryptoError::Backend));
            },
        };
        self.entries.push(VoucherEntry { public_key: new_owner, signature });
        proof {
            assert(spec_entries_view(self.entries@) =~= entries_v.push(
                spec_entries_view(self.entries@).last(),
            ));
        }
        Ok(())
    }
}

/// Computes the device-side HMAC over a header, keyed by the device's
/// secret. A secret too wide for the keyed-digest backend is rejected, never
/// fed to it.
pub fn compute_header_hmac(alg: HashType, device_secret: &[u8], header: &VoucherHeader) -> (r:
    Result<HMac, Error>)
    ensures
        r matches Ok(h) ==> h@.alg == alg && h@.value == hmac_of(
            alg,
            device_secret@,
            spec_encode_voucher_header(header@),
        ),
{
    if device_secret.len() > 0x7fff_ffff {
        return Err(Error::Crypto(CryptoError::MalformedInput));
    }
    let header_bytes = header.encode();
    let value = match compute_hmac(alg, device_secret, header_bytes.as_slice()) {
        Ok(v) => v,
        Err(_) => {
            return Err(Error::Crypto(CryptoError::Backend));
        },
    };
    Ok(HMac { alg, value })
}

// ---------------------------------------------------------------------------
// certificate chains for the trust bootstrap
// ---------------------------------------------------------------------------

/// A certificate chain, leaf first, as carried in the bootstrap acceptance's
/// unprotected header.
pub struct X5Chain {
    pub certs: Vec<Vec<u8>>,
}

/// Each certificate's signature validates under its successor's key.
pub open spec fn spec_x5chain_links_valid(certs: Seq<Seq<u8>>) -> bool {
    forall|i: int|
        0 <= i < certs.len() - 1 ==> cert_signed_by(
            #[trigger] certs[i],
            cert_public_key_of(certs[i + 1]),
        )
}

impl X5Chain {
    pub open spec fn view_certs(self) -> Seq<Seq<u8>> {
        Seq::new(self.certs@.len(), |i: int| self.certs@[i]@)
    }

    pub fn new(certs: Vec<Vec<u8>>) -> (r: X5Chain)
        ensures
            r.certs@ == certs@,
    {
        X5Chain { certs }
    }

    /// Checks every link of the chain. Fail closed: an empty chain validates
    /// nothing.
    fn links_valid(&self) -> (r: bool)
        ensures
            r == spec_x5chain_links_valid(self.view_certs()),
    {
        let n = self.certs.len();
        if n == 0 {
            return true;
        }
        let mut i: usize = 0;
        while i < n - 1
            invariant
                n == self.certs@.len(),
                n >= 1,
                i <= n - 1,
                forall|j: int|
                    0 <= j < i ==> cert_signed_by(
                        #[trigger] self.view_certs()[j],
                        cert_public_key_of(self.view_certs()[j + 1]),
                    ),
            decreases n - i,
        {
            let issuer_key = extract_cert_public_key(self.certs[i + 1].as_slice());
            if !verify_cert_signed_by(self.certs[i].as_slice(), issuer_key.as_slice()) {
                proof {
                    assert(self.view_certs()[i as int] == self.certs@[i as int]@);
                    assert(self.view_certs()[i as int + 1] == self.certs@[i as int + 1]@);
                }
                return false;
            }
            proof {
                assert(self.view_certs()[i as int] == self.certs@[i as int]@);
                assert(self.view_certs()[i as int + 1] == self.certs@[i as int + 1]@);
            }
            i = i + 1;
        }
        true
    }

    /// Validates the chain against a pinned digest of its root certificate —
    /// the trust-anchor mode of the bootstrap — and hands out the leaf's
    /// public key only if the root matches the pin and every link validates.
    pub fn verify_from_digest(&self, expected: &crate::types::Hash) -> (r: Result<Vec<u8>, Error>)
        ensures
            match r {
                Ok(k) => {
                    &&& self.view_certs().len() > 0
                    &&& digest_of(expected@.alg, self.view_certs().last()) == expected@.value
                    &&& spec_x5chain_links_valid(self.view_certs())
                    &&& k@ == cert_public_key_of(self.view_certs()[0])
                },
                Err(e) => {
                    &&& (e == Error::Verification(VerificationError::ChainInvalid) || e
                        == Error::Crypto(CryptoError::Backend) || e == Error::Crypto(
                        CryptoError::MalformedInput,
                    ))
                    &&& (e == Error::Verification(VerificationError::ChainInvalid) ==> !(
                    self.view_certs().len() > 0 && digest_of(
                        expected@.alg,
                        self.view_certs().last(),
                    ) == expected@.value && spec_x5chain_links_valid(self.view_certs())))
                    &&& (e == Error::Crypto(CryptoError::MalformedInput)
                        ==> self.view_certs().len() > 0 && cert_public_key_of(
                        self.view_certs()[0],
                    ).len() == 0)
                },
            },
    {
        if self.certs.len() == 0 {
            return Err(Error::Verification(VerificationError::ChainInvalid));
        }
        let root = &self.certs[self.certs.len() - 1];
        let root_digest = match compute_digest(expected.alg, root.as_slice()) {
            Ok(d) => d,
            Err(_) => {
                return Err(Error::Crypto(CryptoError::Backend));
            },
        };
        if !crate::types::bytes_equal(root_digest.as_slice(), expected.value.as_slice()) {
            proof {
                assert(self.view_certs().last() == self.certs@[self.certs@.len() - 1]@);
            }
            return Err(Error::Verification(VerificationError::ChainInvalid));
        }
        if !self.links_valid() {
            return Err(Error::Verification(VerificationError::ChainInvalid));
        }
        proof {
            assert(self.view_certs().last() == self.certs@[self.certs@.len() - 1]@);
            assert(self.view_certs()[0] == self.certs@[0]@);
        }
        let k = extract_cert_public_key(self.certs[0].as_slice());
        if k.len() == 0 {
            return Err(Error::Crypto(CryptoError::MalformedInput));
        }
        Ok(k)
    }

    /// Validates only the links, trusting whatever root the chain ends in.
    /// This skips root verification entirely: it exists for test and
    /// bootstrap scenarios alone, and the explicit acknowledgement value in
    /// the signature is the loud opt-in that guards it.
    pub fn verify_without_root_verification(&self, opt_in: InsecureTrustAnyRoot) -> (r: Result<
        Vec<u8>,
        Error,
    >)
        ensures
            match r {
                Ok(k) => {
                    &&& self.view_certs().len() > 0
                    &&& spec_x5chain_links_valid(self.view_certs())
                    &&& k@ == cert_public_key_of(self.view_certs()[0])
                },
                Err(e) => {
                    &&& (e == Error::Verification(VerificationError::ChainInvalid) || e
                        == Error::Crypto(CryptoError::MalformedInput))
                    &&& (e == Error::Verification(VerificationError::ChainInvalid) ==> !(
                    self.view_certs().len() > 0 && spec_x5chain_links_valid(self.view_certs())))
                    &&& (e == Error::Crypto(CryptoError::MalformedInput)
                        ==> self.view_certs().len() > 0 && cert_public_key_of(
                        self.view_certs()[0],
                    ).len() == 0)
                },
            },
    {
        let InsecureTrustAnyRoot {  } = opt_in;
        if self.certs.len() == 0 {
            return Err(Error::Verification(VerificationError::ChainInvalid));
        }
        if !self.links_valid() {
            return Err(Error::Verification(VerificationError::ChainInvalid));
        }
        proof {
            assert(self.view_certs()[0] == self.certs@[0]@);
        }
        let k = extract_cert_public_key(self.certs[0].as_slice());
        if k.len() == 0 {
            return Err(Error::Crypto(CryptoError::MalformedInput));
        }
        Ok(k)
    }
}

// ---------------------------------------------------------------------------
// certificate chain wire format: u64 count, then one byte string per cert
// ---------------------------------------------------------------------------

pub open spec fn spec_enc_cert_list(s: Seq<Seq<u8>>) -> Seq<u8>
    decreases s.len(),
{
    if s.len() == 0 {
        Seq::<u8>::empty()
    } else {
        spec_enc_bytes(s[0]) + spec_enc_cert_list(s.skip(1))
    }
}

pub open spec fn spec_dec_cert_list(b: Seq<u8>, count: nat) -> Option<(Seq<Seq<u8>>, int)>
    decreases count,
{
    if count == 0 {
        Some((Seq::<Seq<u8>>::empty(), 0int))
    } else {
        match spec_dec_bytes(b) {
            Some((c, n)) => match spec_dec_cert_list(b.skip(n), (count - 1) as nat) {
                Some((tail, m)) => Some((seq![c] + tail, n + m)),
                None => None,
            },
            None => None,
        }
    }
}

pub open spec fn spec_x5chain_wf(s: Seq<Seq<u8>>) -> bool {
    &&& s.len() <= u64::MAX
    &&& forall|i: int| 0 <= i < s.len() ==> (#[trigger] s[i]).len() <= u64::MAX
}

pub open spec fn spec_encode_x5chain(s: Seq<Seq<u8>>) -> Seq<u8> {
    crate::codec::spec_enc_u64(s.len() as u64) + spec_enc_cert_list(s)
}

pub open spec fn spec_decode_x5chain(b: Seq<u8>) -> Option<Seq<Seq<u8>>> {
    match crate::codec::spec_dec_u64(b) {
        Some((count, _)) => match spec_dec_cert_list(b.skip(8), count as nat) {
            Some((s, n)) => {
                if 8 + n == b.len() {
                    Some(s)
                } else {
                    None
                }
            },
            None => None,
        },
        None => None,
    }
}

pub proof fn lemma_cert_list_round_trip(s: Seq<Seq<u8>>, rest: Seq<u8>)
    requires
        spec_x5chain_wf(s),
    ensures
        spec_dec_cert_list(spec_enc_cert_list(s) + rest, s.len()) == Some(
            (s, spec_enc_cert_list(s).len() as int),
        ),
    decreases s.len(),
{
    if s.len() == 0 {
        assert(spec_enc_cert_list(s) + rest =~= rest);
        assert(s =~= Seq::<Seq<u8>>::empty());
    } else {
        let e_head = spec_enc_bytes(s[0]);
        let e_tail = spec_enc_cert_list(s.skip(1));
        let b = spec_enc_cert_list(s) + rest;
        lemma_enc_u64_len(s[0].len() as u64);
        vstd::seq_lib::lemma_concat_associative(e_head, e_tail, rest);
        assert(b == e_head + (e_tail + rest));
        lemma_bytes_round_trip(s[0], e_tail + rest);
        assert(spec_dec_bytes(b) == Some((s[0], 8 + s[0].len() as int)));
        lemma_concat_skip(e_head, e_tail + rest);
        assert(b.skip(e_head.len() as int) == e_tail + rest);
        assert(spec_x5chain_wf(s.skip(1))) by {
            assert(forall|i: int|
                0 <= i < s.skip(1).len() ==> (#[trigger] s.skip(1)[i]) == s[i + 1]);
        }
        lemma_cert_list_round_trip(s.skip(1), rest);
        assert(seq![s[0]] + s.skip(1) =~= s);
    }
}

pub proof fn lemma_cert_list_sound(b: Seq<u8>, count: nat)
    ensures
        spec_dec_cert_list(b, count) matches Some((s, n)) ==> {
            &&& 0 <= n <= b.len()
            &&& s.len() == count
            &&& forall|i: int| 0 <= i < s.len() ==> (#[trigger] s[i]).len() <= u64::MAX
            &&& b.take(n) == spec_enc_cert_list(s)
        },
    decreases count,
{
    if count > 0 && spec_dec_cert_list(b, count) is Some {
        let (s, n) = spec_dec_cert_list(b, count)->Some_0;
        let (c, m) = spec_dec_bytes(b)->Some_0;
        lemma_bytes_sound(b);
        lemma_cert_list_sound(b.skip(m), (count - 1) as nat);
        let (tail, n2) = spec_dec_cert_list(b.skip(m), (count - 1) as nat)->Some_0;
        assert(s =~= seq![c] + tail);
        assert(s[0] == c);
        assert(s.skip(1) =~= tail);
        assert(b.take(n) =~= b.take(m) + b.skip(m).take(n2));
        assert(forall|i: int| 1 <= i < s.len() ==> (#[trigger] s[i]) == tail[i - 1]);
    }
}

impl X5Chain {
    pub open spec fn wf(self) -> bool {
        spec_x5chain_wf(self.view_certs())
    }

    pub fn encode(&self) -> (r: Vec<u8>)
        ensures
            r@ == spec_encode_x5chain(self.view_certs()),
    {
        let mut out: Vec<u8> = Vec::new();
        crate::codec::write_u64(&mut out, self.certs.len() as u64);
        let mut i: usize = 0;
        while i < self.certs.len()
            invariant
                self.view_certs().len() == self.certs@.len(),
                i <= self.certs@.len(),
                out@ == crate::codec::spec_enc_u64(self.view_certs().len() as u64)
                    + spec_enc_cert_list(self.view_certs().take(i as int)),
            decreases self.certs@.len() - i,
        {
            proof {
                lemma_cert_list_snoc(self.view_certs().take(i as int), self.view_certs()[i as int]);
                assert(self.view_certs().take(i as int).push(self.view_certs()[i as int])
                    =~= self.view_certs().take(i as int + 1));
                assert(self.view_certs()[i as int] == self.certs@[i as int]@);
            }
            write_bytes(&mut out, &self.certs[i]);
            i = i + 1;
        }
        proof {
            assert(self.view_certs().take(self.certs@.len() as int) =~= self.view_certs());
        }
        out
    }

    pub fn decode(bytes: &[u8]) -> (r: Result<X5Chain, DecodeError>)
        ensures
            match r {
                Ok(c) => spec_decode_x5chain(bytes@) == Some(c.view_certs()) && c.wf(),
                Err(_) => spec_decode_x5chain(bytes@) is None,
            },
    {
        proof {
            assert(bytes@.skip(0) =~= bytes@);
        }
        let (count, p0) = match crate::codec::read_u64(bytes, 0) {
            Ok(x) => x,
            Err(e) => {
                return Err(e);
            },
        };
        let mut certs: Vec<Vec<u8>> = Vec::new();
        let mut i: u64 = 0;
        let mut p: usize = p0;
        proof {
            assert(bytes@.skip(0).skip(8) =~= bytes@.skip(8));
        }
        while i < count
            invariant
                p0 == 8,
                crate::codec::spec_dec_u64(bytes@) == Some((count, 8int)),
                p0 <= p <= bytes@.len(),
                i <= count,
                certs@.len() == i,
                (X5Chain { certs }).view_certs().len() == i,
                spec_dec_cert_list(bytes@.skip(8), count as nat) == (
                match spec_dec_cert_list(bytes@.skip(p as int), (count - i) as nat) {
                    Some((t, n)) => Some(
                        ((X5Chain { certs }).view_certs() + t, p - p0 + n),
                    ),
                    None => None::<(Seq<Seq<u8>>, int)>,
                }),
            decreases count - i,
        {
            let ghost pre_view = (X5Chain { certs }).view_certs();
            let ghost pre_p = p as int;
            let ghost pre_i = i;
            let (c, p1) = match read_bytes(bytes, p) {
                Ok(x) => x,
                Err(e) => {
                    proof {
                        assert(spec_dec_cert_list(bytes@.skip(pre_p), (count - pre_i) as nat)
                            is None);
                    }
                    return Err(e);
                },
            };
            let ghost gc = c@;
            proof {
                lemma_skip_skip(bytes@, pre_p, (p1 - p) as int);
            }
            certs.push(c);
            p = p1;
            i = i + 1;
            proof {
                assert((X5Chain { certs }).view_certs() =~= pre_view.push(gc));
                let old_rem = spec_dec_cert_list(bytes@.skip(pre_p), (count - pre_i) as nat);
                let new_rem = spec_dec_cert_list(bytes@.skip(p as int), (count - i) as nat);
                match new_rem {
                    Some((t, n)) => {
                        assert(old_rem == Some((seq![gc] + t, p - pre_p + n)));
                        assert(pre_view + (seq![gc] + t) =~= (X5Chain { certs }).view_certs() + t);
                    },
                    None => {
                        assert(old_rem is None);
                    },
                }
            }
        }
        if p != bytes.len() {
            return Err(DecodeError::TrailingBytes);
        }
        let r = X5Chain { certs };
        proof {
            assert(r.view_certs() + Seq::<Seq<u8>>::empty() =~= r.view_certs());
            lemma_cert_list_sound(bytes@.skip(8), count as nat);
        }
        Ok(r)
    }
}

/// Appending one certificate appends its encoding.
pub proof fn lemma_cert_list_snoc(s: Seq<Seq<u8>>, c: Seq<u8>)
    ensures
        spec_enc_cert_list(s.push(c)) == spec_enc_cert_list(s) + spec_enc_bytes(c),
    decreases s.len(),
{
    if s.len() == 0 {
        let em = Seq::<Seq<u8>>::empty();
        assert(s =~= em);
        assert(spec_enc_cert_list(em) == Seq::<u8>::empty());
        assert(s.push(c)[0] == c);
        assert(s.push(c).skip(1) =~= em);
        assert(spec_enc_cert_list(s.push(c)) == spec_enc_bytes(c) + spec_enc_cert_list(em));
        assert(spec_enc_bytes(c) + Seq::<u8>::empty() =~= Seq::<u8>::empty() + spec_enc_bytes(c));
    } else {
        assert(s.push(c)[0] == s[0]);
        assert(s.push(c).skip(1) =~= s.skip(1).push(c));
        lemma_cert_list_snoc(s.skip(1), c);
        assert(spec_enc_cert_list(s.push(c)) =~= spec_enc_cert_list(s) + spec_enc_bytes(c));
    }
}

/// The loud opt-in for skipping root verification. Constructing it states in
/// the caller's own code that any certificate will be trusted as root.
pub struct InsecureTrustAnyRoot {}

impl InsecureTrustAnyRoot {
    /// The only way to obtain the opt-in: a call that names the danger.
    pub fn accept_that_any_root_is_trusted() -> (r: InsecureTrustAnyRoot)
    {
        InsecureTrustAnyRoot {  }
    }
}

} // verus!
