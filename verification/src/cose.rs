//! The signed envelope: a payload wrapped with a protected header map whose
//! values the signature binds, an unprotected header map carried alongside,
//! and the signature itself.
//!
//! The signature is computed over the payload and the protected headers
//! only; `spec_tbs` names those to-be-signed bytes. Extraction of a
//! protected value is only offered through the verifying accessors in this
//! module, so a protected field is never trusted before the signature is.

use vstd::prelude::*;

use crate::codec::{
    lemma_bytes_round_trip, lemma_bytes_sound, lemma_concat_skip, lemma_enc_u64_len,
    lemma_skip_skip, lemma_u64_round_trip, lemma_u64_sound, read_bytes, read_u64, spec_dec_bytes,
    spec_dec_u64, spec_enc_bytes, spec_enc_u64, write_bytes, write_u64,
};
use crate::crypto::{public_key_of, sign_data, signature_verifies, verify_signature};
use crate::errors::{CryptoError, DecodeError, VerificationError};
use crate::types::HashType;

verus! {

// ---------------------------------------------------------------------------
// header keys
// ---------------------------------------------------------------------------

/// The two header keys this protocol reserves: a nonce carrier (protected)
/// and an owner-public-key carrier (unprotected). Each is a small negative
/// integer constant in the protocol's header-key namespace; on the wire it
/// travels as the 64-bit two's-complement form of that constant.
#[derive(Clone, Copy, Debug, PartialEq, Eq, Structural)]
pub enum HeaderKeys {
    CUPHNonce,
    CUPHOwnerPubKey,
}

impl HeaderKeys {
    /// The reserved integer constant of the key.
    pub open spec fn spec_value(self) -> i64 {
        match self {
            HeaderKeys::CUPHNonce => -17i64,
            HeaderKeys::CUPHOwnerPubKey => -18i64,
        }
    }

    pub fn value(self) -> (r: i64)
        ensures
            r == self.spec_value(),
    {
        match self {
            HeaderKeys::CUPHNonce => -17,
            HeaderKeys::CUPHOwnerPubKey => -18,
        }
    }

    /// The 64-bit wire form: the two's complement of the reserved constant.
    pub open spec fn spec_wire(self) -> u64 {
        match self {
            HeaderKeys::CUPHNonce => 0xffff_ffff_ffff_ffefu64,
            HeaderKeys::CUPHOwnerPubKey => 0xffff_ffff_ffff_ffeeu64,
        }
    }

    pub open spec fn spec_from_wire(w: u64) -> Option<HeaderKeys> {
        if w == 0xffff_ffff_ffff_ffefu64 {
            Some(HeaderKeys::CUPHNonce)
        } else if w == 0xffff_ffff_ffff_ffeeu64 {
            Some(HeaderKeys::CUPHOwnerPubKey)
        } else {
            None
        }
    }

    pub fn wire(self) -> (r: u64)
        ensures
            r == self.spec_wire(),
    {
        match self {
            HeaderKeys::CUPHNonce => 0xffff_ffff_ffff_ffefu64,
            HeaderKeys::CUPHOwnerPubKey => 0xffff_ffff_ffff_ffeeu64,
        }
    }

    pub fn from_wire(w: u64) -> (r: Option<HeaderKeys>)
        ensures
            r == HeaderKeys::spec_from_wire(w),
    {
        if w == 0xffff_ffff_ffff_ffefu64 {
            Some(HeaderKeys::CUPHNonce)
        } else if w == 0xffff_ffff_ffff_ffeeu64 {
            Some(HeaderKeys::CUPHOwnerPubKey)
        } else {
            None
        }
    }
}

/// The wire form is the two's complement of the reserved constant, and the
/// two forms name each other uniquely.
pub proof fn lemma_header_key_wire_faithful(k: HeaderKeys)
    ensures
        k.spec_value() as u64 == k.spec_wire(),
        HeaderKeys::spec_from_wire(k.spec_wire()) == Some(k),
{
    let v = k.spec_value();
    let w = k.spec_wire();
    assert(v as u64 == w) by (bit_vector)
        requires
            (v == -17i64 && w == 0xffff_ffff_ffff_ffefu64) || (v == -18i64 && w
                == 0xffff_ffff_ffff_ffeeu64),
    ;
}

// ---------------------------------------------------------------------------
// header maps
// ---------------------------------------------------------------------------

/// The model of a header map: its entries in insertion order.
pub type HeaderSeq = Seq<(HeaderKeys, Seq<u8>)>;

/// First value stored under `k`, scanning from the front.
pub open spec fn spec_map_get(s: HeaderSeq, k: HeaderKeys) -> Option<Seq<u8>>
    decreases s.len(),
{
    if s.len() == 0 {
        None
    } else if s[0].0 == k {
        Some(s[0].1)
    } else {
        spec_map_get(s.skip(1), k)
    }
}

/// Every value short enough for its length prefix, and no key repeated.
pub open spec fn spec_map_wf(s: HeaderSeq) -> bool {
    &&& s.len() <= u64::MAX
    &&& forall|i: int| 0 <= i < s.len() ==> (#[trigger] s[i]).1.len() <= u64::MAX
    &&& forall|i: int, j: int| 0 <= i < j < s.len() ==> (#[trigger] s[i]).0 != (#[trigger] s[j]).0
}

/// Scanning past a prefix without a match leaves the lookup unchanged.
pub proof fn lemma_map_get_from(s: HeaderSeq, k: HeaderKeys, i: int)
    requires
        0 <= i <= s.len(),
        forall|j: int| 0 <= j < i ==> (#[trigger] s[j]).0 != k,
    ensures
        spec_map_get(s, k) == spec_map_get(s.skip(i), k),
    decreases i,
{
    if i > 0 {
        lemma_map_get_from(s, k, i - 1);
        let t = s.skip(i - 1);
        assert(t[0] == s[i - 1]);
        assert(s[i - 1].0 != k);
        assert(t.skip(1) =~= s.skip(i));
    } else {
        assert(s.skip(0) =~= s);
    }
}

/// A key that occurs in the sequence is found by the lookup.
pub proof fn lemma_map_get_present(s: HeaderSeq, k: HeaderKeys, i: int)
    requires
        0 <= i < s.len(),
        s[i].0 == k,
    ensures
        spec_map_get(s, k) is Some,
    decreases i,
{
    if s[0].0 != k {
        assert(i > 0);
        assert(s.skip(1)[i - 1] == s[i]);
        lemma_map_get_present(s.skip(1), k, i - 1);
    }
}

/// The model of a vector of entries: each value replaced by its bytes.
pub open spec fn spec_entries_view(es: Seq<(HeaderKeys, Vec<u8>)>) -> HeaderSeq {
    Seq::new(es.len(), |i: int| (es[i].0, es[i].1@))
}

/// A header map: keys to byte-string values, kept in insertion order, no key
/// twice.
#[derive(Clone, Debug, PartialEq, Eq)]
pub struct COSEHeaderMap {
    pub entries: Vec<(HeaderKeys, Vec<u8>)>,
}

impl View for COSEHeaderMap {
    type V = HeaderSeq;

    open spec fn view(&self) -> HeaderSeq {
        spec_entries_view(self.entries@)
    }
}

impl COSEHeaderMap {
    pub open spec fn wf(self) -> bool {
        spec_map_wf(self@)
    }

    pub fn new() -> (r: COSEHeaderMap)
        ensures
            r@ == Seq::<(HeaderKeys, Seq<u8>)>::empty(),
            r.wf(),
    {
        let r = COSEHeaderMap { entries: Vec::new() };
        proof {
            assert(r@ =~= Seq::<(HeaderKeys, Seq<u8>)>::empty());
        }
        r
    }

    /// Looks the key up; the first (and, in a well-formed map, only) value
    /// stored under it.
    pub fn get(&self, key: HeaderKeys) -> (r: Option<&Vec<u8>>)
        ensures
            match r {
                Some(v) => spec_map_get(self@, key) == Some(v@),
                None => spec_map_get(self@, key) is None,
            },
    {
        let mut i: usize = 0;
        while i < self.entries.len()
            invariant
                i <= self.entries@.len(),
                forall|j: int| 0 <= j < i ==> (#[trigger] self@[j]).0 != key,
            decreases self.entries@.len() - i,
        {
            if self.entries[i].0 == key {
                proof {
                    lemma_map_get_from(self@, key, i as int);
                    assert(self@.skip(i as int)[0] == self@[i as int]);
                }
                return Some(&self.entries[i].1);
            }
            i = i + 1;
        }
        proof {
            lemma_map_get_from(self@, key, self@.len() as int);
            assert(self@.skip(self@.len() as int) =~= Seq::<(HeaderKeys, Seq<u8>)>::empty());
        }
        None
    }

    /// Appends a binding; refuses a key that is already bound, so a
    /// well-formed map stays well-formed.
    pub fn insert(&mut self, key: HeaderKeys, value: Vec<u8>) -> (r: Result<(), DecodeError>)
        requires
            old(self).wf(),
            old(self)@.len() < u64::MAX,
        ensures
            match r {
                Ok(()) => {
                    &&& final(self)@ == old(self)@.push((key, value@))
                    &&& final(self).wf()
                    &&& spec_map_get(old(self)@, key) is None
                },
                Err(_) => {
                    &&& final(self)@ == old(self)@
                    &&& spec_map_get(old(self)@, key) is Some
                },
            },
    {
        if self.get(key).is_some() {
            return Err(DecodeError::BadTag);
        }
        proof {
            assert(value.len() == value@.len());
        }
        self.entries.push((key, value));
        proof {
            assert(self@ =~= old(self)@.push((key, value@)));
            let s = self@;
            assert forall|i: int, j: int| 0 <= i < j < s.len() implies (#[trigger] s[i]).0 != (
            #[trigger] s[j]).0 by {
                if j == s.len() - 1 {
                    assert(s[i] == old(self)@[i]);
                    if s[i].0 == key {
                        lemma_map_get_present(old(self)@, key, i);
                    }
                } else {
                    assert(s[i] == old(self)@[i] && s[j] == old(self)@[j]);
                }
            }
            assert forall|i: int| 0 <= i < s.len() implies (#[trigger] s[i]).1.len()
                <= u64::MAX by {
                if i < s.len() - 1 {
                    assert(s[i] == old(self)@[i]);
                }
            }
        }
        Ok(())
    }
}

/// Looking up in a map extended by one binding: an already-bound key sees
/// its old value (the first binding wins), the new key its new value, any
/// other key nothing.
pub proof fn lemma_map_get_push(s: HeaderSeq, k: HeaderKeys, v: Seq<u8>, q: HeaderKeys)
    ensures
        spec_map_get(s.push((k, v)), q) == if spec_map_get(s, q) is Some {
            spec_map_get(s, q)
        } else if q == k {
            Some(v)
        } else {
            None::<Seq<u8>>
        },
    decreases s.len(),
{
    let t = s.push((k, v));
    if s.len() == 0 {
        let e = Seq::<(HeaderKeys, Seq<u8>)>::empty();
        assert(spec_map_get(s, q) is None);
        assert(t[0] == (k, v));
        assert(t.skip(1) =~= e);
        assert(spec_map_get(e, q) is None);
        if q == k {
            assert(spec_map_get(t, q) == Some(v));
        } else {
            assert(spec_map_get(t, q) == spec_map_get(e, q));
        }
    } else {
        assert(t[0] == s[0]);
        assert(t.skip(1) =~= s.skip(1).push((k, v)));
        lemma_map_get_push(s.skip(1), k, v, q);
        if s[0].0 == q {
            assert(spec_map_get(t, q) == Some(s[0].1));
            assert(spec_map_get(s, q) == Some(s[0].1));
        } else {
            assert(spec_map_get(t, q) == spec_map_get(t.skip(1), q));
            assert(spec_map_get(s, q) == spec_map_get(s.skip(1), q));
        }
    }
}

// ---------------------------------------------------------------------------
// header map wire format: u64 count, then (u64 key, bytes value) per entry
// ---------------------------------------------------------------------------

pub open spec fn spec_enc_header_entries(s: HeaderSeq) -> Seq<u8>
    decreases s.len(),
{
    if s.len() == 0 {
        Seq::<u8>::empty()
    } else {
        spec_enc_u64(s[0].0.spec_wire()) + spec_enc_bytes(s[0].1) + spec_enc_header_entries(
            s.skip(1),
        )
    }
}

pub open spec fn spec_dec_header_entries(b: Seq<u8>, count: nat) -> Option<(HeaderSeq, int)>
    decreases count,
{
    if count == 0 {
        Some((Seq::<(HeaderKeys, Seq<u8>)>::empty(), 0int))
    } else {
        match spec_dec_u64(b) {
            Some((w, _)) => match HeaderKeys::spec_from_wire(w) {
                Some(k) => match spec_dec_bytes(b.skip(8)) {
                    Some((v, n)) => match spec_dec_header_entries(
                        b.skip(8 + n),
                        (count - 1) as nat,
                    ) {
                        Some((tail, m)) => Some((seq![(k, v)] + tail, 8 + n + m)),
                        None => None,
                    },
                    None => None,
                },
                None => None,
            },
            None => None,
        }
    }
}

pub open spec fn spec_enc_header_map(s: HeaderSeq) -> Seq<u8> {
    spec_enc_u64(s.len() as u64) + spec_enc_header_entries(s)
}

pub open spec fn spec_dec_header_map(b: Seq<u8>) -> Option<(HeaderSeq, int)> {
    match spec_dec_u64(b) {
        Some((count, _)) => match spec_dec_header_entries(b.skip(8), count as nat) {
            Some((s, n)) => Some((s, 8 + n)),
            None => None,
        },
        None => None,
    }
}

pub proof fn lemma_header_entries_round_trip(s: HeaderSeq, rest: Seq<u8>)
    requires
        spec_map_wf(s),
    ensures
        spec_dec_header_entries(spec_enc_header_entries(s) + rest, s.len()) == Some(
            (s, spec_enc_header_entries(s).len() as int),
        ),
    decreases s.len(),
{
    if s.len() == 0 {
        assert(spec_enc_header_entries(s) + rest =~= rest);
        assert(s =~= Seq::<(HeaderKeys, Seq<u8>)>::empty());
    } else {
        let (k, v) = s[0];
        let e_key = spec_enc_u64(k.spec_wire());
        let e_val = spec_enc_bytes(v);
        let e_tail = spec_enc_header_entries(s.skip(1));
        let b = spec_enc_header_entries(s) + rest;
        lemma_enc_u64_len(k.spec_wire());
        lemma_enc_u64_len(v.len() as u64);
        vstd::seq_lib::lemma_concat_associative(e_key + e_val, e_tail, rest);
        vstd::seq_lib::lemma_concat_associative(e_key, e_val, e_tail + rest);
        assert(b == e_key + (e_val + (e_tail + rest)));
        lemma_u64_round_trip(k.spec_wire(), e_val + (e_tail + rest));
        assert(spec_dec_u64(b) == Some((k.spec_wire(), 8int)));
        lemma_concat_skip(e_key, e_val + (e_tail + rest));
        assert(b.skip(8) == e_val + (e_tail + rest));
        assert(spec_map_wf(s.skip(1))) by {
            assert(forall|i: int|
                0 <= i < s.skip(1).len() ==> (#[trigger] s.skip(1)[i]) == s[i + 1]);
        }
        lemma_bytes_round_trip(v, e_tail + rest);
        assert(spec_dec_bytes(b.skip(8)) == Some((v, 8 + v.len() as int)));
        vstd::seq_lib::lemma_concat_associative(e_val, e_tail, rest);
        lemma_concat_skip(e_val, e_tail + rest);
        lemma_skip_skip(b, 8int, 8 + v.len() as int);
        assert(b.skip(16 + v.len() as int) == e_tail + rest);
        lemma_header_entries_round_trip(s.skip(1), rest);
        assert(seq![(k, v)] + s.skip(1) =~= s);
    }
}

pub proof fn lemma_header_entries_sound(b: Seq<u8>, count: nat)
    ensures
        spec_dec_header_entries(b, count) matches Some((s, n)) ==> {
            &&& 0 <= n <= b.len()
            &&& s.len() == count
            &&& forall|i: int| 0 <= i < s.len() ==> (#[trigger] s[i]).1.len() <= u64::MAX
            &&& b.take(n) == spec_enc_header_entries(s)
        },
    decreases count,
{
    if count > 0 && spec_dec_header_entries(b, count) is Some {
        let (s, n) = spec_dec_header_entries(b, count)->Some_0;
        let w = spec_dec_u64(b)->Some_0.0;
        let k = HeaderKeys::spec_from_wire(w)->Some_0;
        let (v, m) = spec_dec_bytes(b.skip(8))->Some_0;
        lemma_u64_sound(b);
        lemma_enc_u64_len(w);
        lemma_bytes_sound(b.skip(8));
        lemma_skip_skip(b, 8int, m);
        lemma_header_entries_sound(b.skip(8 + m), (count - 1) as nat);
        let (tail, n2) = spec_dec_header_entries(b.skip(8 + m), (count - 1) as nat)->Some_0;
        assert(s =~= seq![(k, v)] + tail);
        assert(s[0] == (k, v));
        assert(s.skip(1) =~= tail);
        assert(b.take(n) =~= b.take(8int) + b.skip(8).take(m) + b.skip(8 + m).take(n2));
        assert(spec_enc_header_entries(s) == spec_enc_u64(k.spec_wire()) + spec_enc_bytes(v)
            + spec_enc_header_entries(tail));
        assert(forall|i: int| 0 <= i < s.len() ==> (#[trigger] s[i]).1.len() <= u64::MAX) by {
            assert(forall|i: int| 1 <= i < s.len() ==> (#[trigger] s[i]) == tail[i - 1]);
        }
    }
}

pub proof fn lemma_header_map_round_trip(s: HeaderSeq, rest: Seq<u8>)
    requires
        spec_map_wf(s),
    ensures
        spec_dec_header_map(spec_enc_header_map(s) + rest) == Some(
            (s, spec_enc_header_map(s).len() as int),
        ),
{
    let e_count = spec_enc_u64(s.len() as u64);
    let e_entries = spec_enc_header_entries(s);
    let b = spec_enc_header_map(s) + rest;
    lemma_enc_u64_len(s.len() as u64);
    vstd::seq_lib::lemma_concat_associative(e_count, e_entries, rest);
    assert(b == e_count + (e_entries + rest));
    lemma_u64_round_trip(s.len() as u64, e_entries + rest);
    assert(spec_dec_u64(b) == Some((s.len() as u64, 8int)));
    lemma_concat_skip(e_count, e_entries + rest);
    assert(b.skip(8) == e_entries + rest);
    lemma_header_entries_round_trip(s, rest);
}

pub proof fn lemma_header_map_sound(b: Seq<u8>)
    ensures
        spec_dec_header_map(b) matches Some((s, n)) ==> {
            &&& 0 <= n <= b.len()
            &&& (spec_map_unique(s) ==> spec_map_wf(s))
            &&& s.len() <= u64::MAX
            &&& forall|i: int| 0 <= i < s.len() ==> (#[trigger] s[i]).1.len() <= u64::MAX
            &&& b.take(n) == spec_enc_header_map(s)
        },
{
    if spec_dec_header_map(b) is Some {
        let (s, n) = spec_dec_header_map(b)->Some_0;
        let count = spec_dec_u64(b)->Some_0.0;
        lemma_u64_sound(b);
        lemma_enc_u64_len(count);
        lemma_header_entries_sound(b.skip(8), count as nat);
        let (s2, m) = spec_dec_header_entries(b.skip(8), count as nat)->Some_0;
        assert(b.take(n) =~= b.take(8int) + b.skip(8).take(m));
    }
}

/// No key bound twice.
pub open spec fn spec_map_unique(s: HeaderSeq) -> bool {
    forall|i: int, j: int| 0 <= i < j < s.len() ==> (#[trigger] s[i]).0 != (#[trigger] s[j]).0
}

pub fn write_header_map(out: &mut Vec<u8>, m: &COSEHeaderMap)
    ensures
        final(out)@ == old(out)@ + spec_enc_header_map(m@),
{
    write_u64(out, m.entries.len() as u64);
    let mut i: usize = 0;
    while i < m.entries.len()
        invariant
            i <= m.entries@.len(),
            m@.len() == m.entries@.len(),
            out@ == old(out)@ + spec_enc_u64(m@.len() as u64) + spec_enc_header_entries(
                m@.take(i as int),
            ),
        decreases m.entries@.len() - i,
    {
        proof {
            lemma_header_entries_snoc(m@.take(i as int), m@[i as int]);
            assert(m@.take(i as int).push(m@[i as int]) =~= m@.take(i as int + 1));
        }
        let ghost pre = out@;
        write_u64(out, m.entries[i].0.wire());
        write_bytes(out, &m.entries[i].1);
        proof {
            assert(out@ =~= pre + (spec_enc_u64(m@[i as int].0.spec_wire()) + spec_enc_bytes(
                m@[i as int].1,
            )));
            assert(out@ =~= old(out)@ + spec_enc_u64(m@.len() as u64) + spec_enc_header_entries(
                m@.take(i as int + 1),
            ));
        }
        i = i + 1;
    }
    proof {
        assert(m@.take(m@.len() as int) =~= m@);
        assert(out@ =~= old(out)@ + spec_enc_header_map(m@));
    }
}

/// Appending one entry appends its encoding.
pub proof fn lemma_header_entries_snoc(s: HeaderSeq, e: (HeaderKeys, Seq<u8>))
    ensures
        spec_enc_header_entries(s.push(e)) == spec_enc_header_entries(s) + spec_enc_u64(
            e.0.spec_wire(),
        ) + spec_enc_bytes(e.1),
    decreases s.len(),
{
    if s.len() == 0 {
        let em = Seq::<(HeaderKeys, Seq<u8>)>::empty();
        assert(s =~= em);
        assert(spec_enc_header_entries(em) == Seq::<u8>::empty());
        assert(s.push(e)[0] == e);
        assert(s.push(e).skip(1) =~= em);
        assert(spec_enc_header_entries(s.push(e)) == spec_enc_u64(e.0.spec_wire())
            + spec_enc_bytes(e.1) + spec_enc_header_entries(em));
        assert(spec_enc_u64(e.0.spec_wire()) + spec_enc_bytes(e.1) + Seq::<u8>::empty() =~= (
        Seq::<u8>::empty() + spec_enc_u64(e.0.spec_wire())) + spec_enc_bytes(e.1));
    } else {
        assert(s.push(e)[0] == s[0]);
        assert(s.push(e).skip(1) =~= s.skip(1).push(e));
        lemma_header_entries_snoc(s.skip(1), e);
        assert(spec_enc_header_entries(s.push(e)) =~= spec_enc_header_entries(s) + spec_enc_u64(
            e.0.spec_wire(),
        ) + spec_enc_bytes(e.1));
    }
}

pub fn read_header_map(buf: &[u8], pos: usize) -> (r: Result<(COSEHeaderMap, usize), DecodeError>)
    requires
        pos <= buf@.len(),
    ensures
        match r {
            Ok((m, p)) => {
                &&& pos < p <= buf@.len()
                &&& spec_dec_header_map(buf@.skip(pos as int)) == Some((m@, p - pos))
            },
            Err(_) => spec_dec_header_map(buf@.skip(pos as int)) is None,
        },
{
    let (count, p0) = match read_u64(buf, pos) {
        Ok(x) => x,
        Err(e) => {
            return Err(e);
        },
    };
    proof {
        lemma_skip_skip(buf@, pos as int, 8int);
    }
    let mut entries: Vec<(HeaderKeys, Vec<u8>)> = Vec::new();
    let mut i: u64 = 0;
    let mut p: usize = p0;
    while i < count
        invariant
            p0 <= p <= buf@.len(),
            pos + 8 == p0,
            i <= count,
            spec_dec_u64(buf@.skip(pos as int)) == Some((count, 8int)),
            buf@.skip(pos as int).skip(8) == buf@.skip(p0 as int),
            spec_entries_view(entries@).len() == i,
            spec_dec_header_entries(buf@.skip(p0 as int), count as nat) == (
            match spec_dec_header_entries(buf@.skip(p as int), (count - i) as nat) {
                Some((t, n)) => Some((spec_entries_view(entries@) + t, p - p0 + n)),
                None => None::<(HeaderSeq, int)>,
            }),
        decreases count - i,
    {
        let ghost pre_entries = spec_entries_view(entries@);
        let ghost pre_p = p as int;
        let ghost pre_i = i;
        let (w, p1) = match read_u64(buf, p) {
            Ok(x) => x,
            Err(e) => {
                proof {
                    assert(spec_dec_header_entries(buf@.skip(pre_p), (count - pre_i) as nat)
                        is None);
                }
                return Err(e);
            },
        };
        let k = match HeaderKeys::from_wire(w) {
            Some(k) => k,
            None => {
                proof {
                    assert(spec_dec_header_entries(buf@.skip(pre_p), (count - pre_i) as nat)
                        is None);
                }
                return Err(DecodeError::BadTag);
            },
        };
        proof {
            lemma_skip_skip(buf@, pre_p, 8int);
        }
        let (v, p2) = match read_bytes(buf, p1) {
            Ok(x) => x,
            Err(e) => {
                proof {
                    assert(spec_dec_header_entries(buf@.skip(pre_p), (count - pre_i) as nat)
                        is None);
                }
                return Err(e);
            },
        };
        proof {
            lemma_skip_skip(buf@, pre_p, 8 + (p2 - p1) as int);
        }
        let ghost gv = v@;
        entries.push((k, v));
        p = p2;
        i = i + 1;
        proof {
            assert(spec_entries_view(entries@) =~= pre_entries.push((k, gv)));
            let old_rem = spec_dec_header_entries(buf@.skip(pre_p), (count - pre_i) as nat);
            let new_rem = spec_dec_header_entries(buf@.skip(p as int), (count - i) as nat);
            match new_rem {
                Some((t, n)) => {
                    assert(old_rem == Some((seq![(k, gv)] + t, 8 + (p2 - p1) + n)));
                    assert(pre_entries + (seq![(k, gv)] + t) =~= spec_entries_view(entries@) + t);
                },
                None => {
                    assert(old_rem is None);
                },
            }
        }
    }
    let m = COSEHeaderMap { entries };
    proof {
        assert(spec_entries_view(m.entries@) + Seq::<(HeaderKeys, Seq<u8>)>::empty() =~= m@);
    }
    Ok((m, p))
}

// ---------------------------------------------------------------------------
// the envelope itself
// ---------------------------------------------------------------------------

/// Model of a signed envelope.
#[verifier::ext_equal]
pub struct CoseSignV {
    pub payload: Seq<u8>,
    pub protected: HeaderSeq,
    pub unprotected: HeaderSeq,
    pub signature: Seq<u8>,
}

impl CoseSignV {
    pub open spec fn wf(self) -> bool {
        &&& self.payload.len() <= u64::MAX
        &&& spec_map_wf(self.protected)
        &&& spec_map_wf(self.unprotected)
        &&& self.signature.len() <= u64::MAX
    }
}

/// The bytes a signature of this protocol covers: the payload and the
/// protected header map, in their wire encodings. Unprotected headers are
/// outside.
pub open spec fn spec_tbs(payload: Seq<u8>, protected: HeaderSeq) -> Seq<u8> {
    spec_enc_bytes(payload) + spec_enc_header_map(protected)
}

/// A signature container: payload, signature-bound protected headers,
/// unbound unprotected headers, and the signature over the first two.
#[derive(Clone, Debug, PartialEq, Eq)]
pub struct COSESign {
    pub payload: Vec<u8>,
    pub protected: COSEHeaderMap,
    pub unprotected: COSEHeaderMap,
    pub signature: Vec<u8>,
}

impl View for COSESign {
    type V = CoseSignV;

    open spec fn view(&self) -> CoseSignV {
        CoseSignV {
            payload: self.payload@,
            protected: self.protected@,
            unprotected: self.unprotected@,
            signature: self.signature@,
        }
    }
}

impl COSESign {
    pub open spec fn wf(self) -> bool {
        self@.wf()
    }

    /// Reads a value from the unprotected header map. Nothing vouches for
    /// it: it is carried alongside the signature, not under it.
    pub fn get_unprotected_value(&self, key: HeaderKeys) -> (r: Option<&Vec<u8>>)
        ensures
            match r {
                Some(v) => spec_map_get(self@.unprotected, key) == Some(v@),
                None => spec_map_get(self@.unprotected, key) is None,
            },
    {
        self.unprotected.get(key)
    }

    /// The to-be-signed bytes of this envelope.
    pub fn tbs_bytes(&self) -> (r: Vec<u8>)
        ensures
            r@ == spec_tbs(self@.payload, self@.protected),
    {
        let mut out: Vec<u8> = Vec::new();
        write_bytes(&mut out, &self.payload);
        write_header_map(&mut out, &self.protected);
        proof {
            assert(out@ =~= spec_tbs(self@.payload, self@.protected));
        }
        out
    }
}

// ---------------------------------------------------------------------------
// envelope wire format
// ---------------------------------------------------------------------------

pub open spec fn spec_enc_cose(c: CoseSignV) -> Seq<u8> {
    spec_enc_bytes(c.payload) + spec_enc_header_map(c.protected) + spec_enc_header_map(
        c.unprotected,
    ) + spec_enc_bytes(c.signature)
}

pub open spec fn spec_dec_cose(b: Seq<u8>) -> Option<(CoseSignV, int)> {
    match spec_dec_bytes(b) {
        Some((payload, n1)) => match spec_dec_header_map(b.skip(n1)) {
            Some((protected, n2)) => match spec_dec_header_map(b.skip(n1 + n2)) {
                Some((unprotected, n3)) => {
                    if spec_map_unique(protected) && spec_map_unique(unprotected) {
                        match spec_dec_bytes(b.skip(n1 + n2 + n3)) {
                            Some((signature, n4)) => Some(
                                (
                                    CoseSignV { payload, protected, unprotected, signature },
                                    n1 + n2 + n3 + n4,
                                ),
                            ),
                            None => None,
                        }
                    } else {
                        None
                    }
                },
                None => None,
            },
            None => None,
        },
        None => None,
    }
}

pub proof fn lemma_cose_round_trip(c: CoseSignV, rest: Seq<u8>)
    requires
        c.wf(),
    ensures
        spec_dec_cose(spec_enc_cose(c) + rest) == Some((c, spec_enc_cose(c).len() as int)),
{
    let e1 = spec_enc_bytes(c.payload);
    let e2 = spec_enc_header_map(c.protected);
    let e3 = spec_enc_header_map(c.unprotected);
    let e4 = spec_enc_bytes(c.signature);
    let b = spec_enc_cose(c) + rest;
    lemma_enc_u64_len(c.payload.len() as u64);
    lemma_enc_u64_len(c.signature.len() as u64);
    vstd::seq_lib::lemma_concat_associative(e1 + e2 + e3, e4, rest);
    vstd::seq_lib::lemma_concat_associative(e1 + e2, e3, e4 + rest);
    vstd::seq_lib::lemma_concat_associative(e1, e2, e3 + (e4 + rest));
    assert(b == e1 + (e2 + (e3 + (e4 + rest))));
    lemma_bytes_round_trip(c.payload, e2 + (e3 + (e4 + rest)));
    assert(spec_dec_bytes(b) == Some((c.payload, 8 + c.payload.len() as int)));
    lemma_concat_skip(e1, e2 + (e3 + (e4 + rest)));
    assert(b.skip(e1.len() as int) == e2 + (e3 + (e4 + rest)));
    lemma_header_map_round_trip(c.protected, e3 + (e4 + rest));
    lemma_concat_skip(e2, e3 + (e4 + rest));
    lemma_skip_skip(b, e1.len() as int, e2.len() as int);
    assert(b.skip(e1.len() + e2.len() as int) == e3 + (e4 + rest));
    lemma_header_map_round_trip(c.unprotected, e4 + rest);
    lemma_concat_skip(e3, e4 + rest);
    lemma_skip_skip(b, e1.len() + e2.len() as int, e3.len() as int);
    assert(b.skip(e1.len() + e2.len() + e3.len() as int) == e4 + rest);
    lemma_bytes_round_trip(c.signature, rest);
}

pub proof fn lemma_cose_sound(b: Seq<u8>)
    ensures
        spec_dec_cose(b) matches Some((c, n)) ==> {
            &&& 0 <= n <= b.len()
            &&& c.wf()
            &&& b.take(n) == spec_enc_cose(c)
        },
{
    if spec_dec_cose(b) is Some {
        let (c, n) = spec_dec_cose(b)->Some_0;
        let (payload, n1) = spec_dec_bytes(b)->Some_0;
        lemma_bytes_sound(b);
        let (protected, n2) = spec_dec_header_map(b.skip(n1))->Some_0;
        lemma_header_map_sound(b.skip(n1));
        let (unprotected, n3) = spec_dec_header_map(b.skip(n1 + n2))->Some_0;
        lemma_header_map_sound(b.skip(n1 + n2));
        let (signature, n4) = spec_dec_bytes(b.skip(n1 + n2 + n3))->Some_0;
        lemma_bytes_sound(b.skip(n1 + n2 + n3));
        lemma_skip_skip(b, n1, n2);
        lemma_skip_skip(b, n1 + n2, n3);
        assert(b.take(n) =~= b.take(n1) + b.skip(n1).take(n2) + b.skip(n1 + n2).take(n3) + b.skip(
            n1 + n2 + n3,
        ).take(n4));
    }
}

pub fn write_cose(out: &mut Vec<u8>, c: &COSESign)
    ensures
        final(out)@ == old(out)@ + spec_enc_cose(c@),
{
    write_bytes(out, &c.payload);
    write_header_map(out, &c.protected);
    write_header_map(out, &c.unprotected);
    write_bytes(out, &c.signature);
    proof {
        assert(out@ =~= old(out)@ + spec_enc_cose(c@));
    }
}

pub fn read_cose(buf: &[u8], pos: usize) -> (r: Result<(COSESign, usize), DecodeError>)
    requires
        pos <= buf@.len(),
    ensures
        match r {
            Ok((c, p)) => {
                &&& pos < p <= buf@.len()
                &&& spec_dec_cose(buf@.skip(pos as int)) == Some((c@, p - pos))
                &&& c.wf()
            },
            Err(_) => spec_dec_cose(buf@.skip(pos as int)) is None,
        },
{
    let (payload, p1) = match read_bytes(buf, pos) {
        Ok(x) => x,
        Err(e) => {
            return Err(e);
        },
    };
    proof {
        lemma_skip_skip(buf@, pos as int, (p1 - pos) as int);
    }
    let (protected, p2) = match read_header_map(buf, p1) {
        Ok(x) => x,
        Err(e) => {
            return Err(e);
        },
    };
    proof {
        lemma_skip_skip(buf@, pos as int, (p2 - pos) as int);
    }
    let (unprotected, p3) = match read_header_map(buf, p2) {
        Ok(x) => x,
        Err(e) => {
            return Err(e);
        },
    };
    if !header_map_unique(&protected) || !header_map_unique(&unprotected) {
        return Err(DecodeError::BadTag);
    }
    proof {
        lemma_skip_skip(buf@, pos as int, (p3 - pos) as int);
    }
    let (signature, p4) = match read_bytes(buf, p3) {
        Ok(x) => x,
        Err(e) => {
            return Err(e);
        },
    };
    let c = COSESign { payload, protected, unprotected, signature };
    proof {
        lemma_cose_sound(buf@.skip(pos as int));
        assert(buf@.skip(pos as int).skip((p1 - pos) as int) == buf@.skip(p1 as int));
        assert(buf@.skip(pos as int).skip((p2 - pos) as int) == buf@.skip(p2 as int));
        assert(buf@.skip(pos as int).skip((p3 - pos) as int) == buf@.skip(p3 as int));
    }
    Ok((c, p4))
}

// ---------------------------------------------------------------------------
// signing and fail-closed verification
// ---------------------------------------------------------------------------

/// Whether the envelope's signature validates its payload and protected
/// headers under the given public key.
pub open spec fn spec_cose_verifies(c: CoseSignV, alg: HashType, public_key_der: Seq<u8>) -> bool {
    signature_verifies(alg, public_key_der, spec_tbs(c.payload, c.protected), c.signature)
}

impl COSESign {
    /// Signs `payload` with the protected headers bound under the signature
    /// and the unprotected ones carried alongside. The envelope returned
    /// verifies under the public half of the signing key — the first half of
    /// the signature-integrity law; the second half is `verify`'s exact
    /// contract.
    pub fn new_with_protected(
        payload: Vec<u8>,
        protected: COSEHeaderMap,
        unprotected: Option<COSEHeaderMap>,
        alg: HashType,
        signing_key_der: &[u8],
    ) -> (r: Result<COSESign, CryptoError>)
        requires
            protected.wf(),
            unprotected matches Some(u) ==> u.wf(),
        ensures
            r matches Ok(c) ==> {
                &&& c@.payload == payload@
                &&& c@.protected == protected@
                &&& c@.unprotected == (match unprotected {
                    Some(u) => u@,
                    None => Seq::<(HeaderKeys, Seq<u8>)>::empty(),
                })
                &&& spec_cose_verifies(c@, alg, public_key_of(signing_key_der@))
                &&& c.wf()
            },
    {
        let mut tbs: Vec<u8> = Vec::new();
        write_bytes(&mut tbs, &payload);
        write_header_map(&mut tbs, &protected);
        proof {
            assert(tbs@ =~= spec_tbs(payload@, protected@));
            assert(payload.len() == payload@.len());
        }
        let signature = match sign_data(alg, signing_key_der, tbs.as_slice()) {
            Ok(s) => s,
            Err(e) => {
                return Err(e);
            },
        };
        proof {
            assert(signature.len() == signature@.len());
        }
        let unprotected = match unprotected {
            Some(u) => u,
            None => COSEHeaderMap::new(),
        };
        Ok(COSESign { payload, protected, unprotected, signature })
    }

    /// Verifies the signature under the given public key and, only then,
    /// returns the payload. Fail closed: an envelope whose signature does
    /// not validate yields an error and nothing else.
    pub fn verify(&self, alg: HashType, public_key_der: &[u8]) -> (r: Result<
        Vec<u8>,
        VerificationError,
    >)
        ensures
            match r {
                Ok(p) => spec_cose_verifies(self@, alg, public_key_der@) && p@ == self@.payload,
                Err(_) => !spec_cose_verifies(self@, alg, public_key_der@),
            },
    {
        let tbs = self.tbs_bytes();
        if verify_signature(alg, public_key_der, tbs.as_slice(), self.signature.as_slice()) {
            Ok(crate::codec::copy_range(self.payload.as_slice(), 0, self.payload.len()))
        } else {
            Err(VerificationError::SignatureInvalid)
        }
    }

    /// Reads a value from the protected header map, but only after the
    /// signature that binds that map has been verified under the given key.
    pub fn get_protected_value(&self, key: HeaderKeys, alg: HashType, public_key_der: &[u8]) -> (r:
        Result<Option<Vec<u8>>, VerificationError>)
        ensures
            match r {
                Ok(v) => {
                    &&& spec_cose_verifies(self@, alg, public_key_der@)
                    &&& match v {
                        Some(b) => spec_map_get(self@.protected, key) == Some(b@),
                        None => spec_map_get(self@.protected, key) is None,
                    }
                },
                Err(_) => !spec_cose_verifies(self@, alg, public_key_der@),
            },
    {
        let tbs = self.tbs_bytes();
        if verify_signature(alg, public_key_der, tbs.as_slice(), self.signature.as_slice()) {
            match self.protected.get(key) {
                Some(v) => Ok(Some(crate::codec::copy_range(v.as_slice(), 0, v.len()))),
                None => Ok(None),
            }
        } else {
            Err(VerificationError::SignatureInvalid)
        }
    }

    /// Verifies and returns the payload; named as the callers of the
    /// envelope know it.
    pub fn get_payload(&self, alg: HashType, public_key_der: &[u8]) -> (r: Result<
        Vec<u8>,
        VerificationError,
    >)
        ensures
            match r {
                Ok(p) => spec_cose_verifies(self@, alg, public_key_der@) && p@ == self@.payload,
                Err(_) => !spec_cose_verifies(self@, alg, public_key_der@),
            },
    {
        self.verify(alg, public_key_der)
    }
}

/// Checks that no key is bound twice.
pub fn header_map_unique(m: &COSEHeaderMap) -> (r: bool)
    ensures
        r == spec_map_unique(m@),
{
    let n = m.entries.len();
    let mut i: usize = 0;
    while i < n
        invariant
            n == m.entries@.len(),
            m@.len() == n,
            i <= n,
            forall|a: int, b: int| 0 <= a < b < n && a < i ==> (#[trigger] m@[a]).0 != (
            #[trigger] m@[b]).0,
        decreases n - i,
    {
        let mut j: usize = i + 1;
        while j < n
            invariant
                n == m.entries@.len(),
                m@.len() == n,
                i < j || j == i + 1,
                i <= n,
                j <= n,
                i + 1 <= j,
                forall|b: int| i < b < j ==> (#[trigger] m@[b]).0 != m@[i as int].0,
            decreases n - j,
        {
            if m.entries[i].0 == m.entries[j].0 {
                proof {
                    assert(m@[i as int].0 == m@[j as int].0);
                }
                return false;
            }
            j = j + 1;
        }
        i = i + 1;
    }
    true
}

} // verus!
