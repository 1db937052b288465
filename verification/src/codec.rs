//! Deterministic binary codec primitives.
//!
//! Every message is encoded as a fixed-order sequence of fields built from
//! the primitives here: unsigned integers in big-endian order, booleans as a
//! single checked byte, fixed-width byte strings, and variable byte strings
//! with a 64-bit length prefix. Optional fields carry an explicit presence
//! marker; they are never defaulted.
//!
//! Each primitive comes in four parts: a spec-level encoder, a spec-level
//! decoder over the remaining input (returning the value and the number of
//! bytes consumed), a proof that decoding an encoding followed by anything
//! yields the value back, and a proof that a successful decode pins the
//! consumed prefix to be exactly the encoding. Executable encoders append to
//! a buffer; executable decoders read at a cursor. Their contracts tie them
//! to the spec functions, so message-level round-trip laws compose from the
//! lemmas here.

use vstd::prelude::*;

use crate::errors::DecodeError;

verus! {

// ---------------------------------------------------------------------------
// u8
// ---------------------------------------------------------------------------

pub open spec fn spec_enc_u8(v: u8) -> Seq<u8> {
    seq![v]
}

pub open spec fn spec_dec_u8(b: Seq<u8>) -> Option<(u8, int)> {
    if b.len() >= 1 {
        Some((b[0], 1int))
    } else {
        None
    }
}

pub proof fn lemma_u8_round_trip(v: u8, rest: Seq<u8>)
    ensures
        spec_dec_u8(spec_enc_u8(v) + rest) == Some((v, 1int)),
{
    assert((spec_enc_u8(v) + rest)[0] == v);
}

pub proof fn lemma_u8_sound(b: Seq<u8>)
    ensures
        spec_dec_u8(b) matches Some((v, n)) ==> 0 <= n <= b.len() && b.take(n) == spec_enc_u8(v),
{
    if spec_dec_u8(b) matches Some((v, n)) {
        assert(b.take(1int) =~= spec_enc_u8(b[0]));
    }
}

pub fn write_u8(out: &mut Vec<u8>, v: u8)
    ensures
        final(out)@ == old(out)@ + spec_enc_u8(v),
{
    out.push(v);
    proof {
        assert(out@ =~= old(out)@ + spec_enc_u8(v));
    }
}

pub fn read_u8(buf: &[u8], pos: usize) -> (r: Result<(u8, usize), DecodeError>)
    requires
        pos <= buf@.len(),
    ensures
        match r {
            Ok((v, p)) => {
                &&& pos < p <= buf@.len()
                &&& spec_dec_u8(buf@.skip(pos as int)) == Some((v, p - pos))
            },
            Err(_) => spec_dec_u8(buf@.skip(pos as int)) is None,
        },
{
    if pos < buf.len() {
        let v = buf[pos];
        proof {
            assert(buf@.skip(pos as int)[0] == buf@[pos as int]);
        }
        Ok((v, pos + 1))
    } else {
        Err(DecodeError::Truncated)
    }
}

// ---------------------------------------------------------------------------
// u16, big endian
// ---------------------------------------------------------------------------

#[verifier::opaque]
pub open spec fn spec_enc_u16(v: u16) -> Seq<u8> {
    seq![((v >> 8) & 0xff) as u8, (v & 0xff) as u8]
}

#[verifier::opaque]
pub open spec fn spec_u16_of(b: Seq<u8>) -> u16
    recommends
        b.len() >= 2,
{
    ((b[0] as u16) << 8) | (b[1] as u16)
}

/// The two-byte encoder always yields two bytes.
pub proof fn lemma_enc_u16_len(v: u16)
    ensures
        spec_enc_u16(v).len() == 2,
{
    reveal(spec_enc_u16);
}

pub open spec fn spec_dec_u16(b: Seq<u8>) -> Option<(u16, int)> {
    if b.len() >= 2 {
        Some((spec_u16_of(b), 2int))
    } else {
        None
    }
}

pub proof fn lemma_u16_round_trip(v: u16, rest: Seq<u8>)
    ensures
        spec_dec_u16(spec_enc_u16(v) + rest) == Some((v, 2int)),
{
    reveal(spec_enc_u16);
    reveal(spec_u16_of);
    let b = spec_enc_u16(v) + rest;
    assert(b[0] == ((v >> 8) & 0xff) as u8 && b[1] == (v & 0xff) as u8);
    assert((v >> 8) & 0xff < 256 && v & 0xff < 256) by (bit_vector);
    let h: u16 = (v >> 8) & 0xff;
    let l: u16 = v & 0xff;
    assert((h << 8) | l == v) by (bit_vector)
        requires
            h == (v >> 8) & 0xff && l == v & 0xff,
    ;
    assert(spec_u16_of(b) == v);
}

pub proof fn lemma_u16_sound(b: Seq<u8>)
    ensures
        spec_dec_u16(b) matches Some((v, n)) ==> 0 <= n <= b.len() && b.take(n) == spec_enc_u16(v),
{
    reveal(spec_enc_u16);
    reveal(spec_u16_of);
    if b.len() >= 2 {
        let v = spec_u16_of(b);
        let c0: u16 = b[0] as u16;
        let c1: u16 = b[1] as u16;
        assert((v >> 8) & 0xff == c0 && v & 0xff == c1) by (bit_vector)
            requires
                c0 < 256 && c1 < 256 && v == (c0 << 8) | c1,
        ;
        assert(b.take(2int) =~= spec_enc_u16(v));
    }
}

pub fn write_u16(out: &mut Vec<u8>, v: u16)
    ensures
        final(out)@ == old(out)@ + spec_enc_u16(v),
{
    proof {
        assert((v >> 8) & 0xff < 256 && v & 0xff < 256) by (bit_vector);
    }
    out.push(((v >> 8) & 0xff) as u8);
    out.push((v & 0xff) as u8);
    proof {
        reveal(spec_enc_u16);
        assert(out@ =~= old(out)@ + spec_enc_u16(v));
    }
}

pub fn read_u16(buf: &[u8], pos: usize) -> (r: Result<(u16, usize), DecodeError>)
    requires
        pos <= buf@.len(),
    ensures
        match r {
            Ok((v, p)) => {
                &&& pos < p <= buf@.len()
                &&& spec_dec_u16(buf@.skip(pos as int)) == Some((v, p - pos))
            },
            Err(_) => spec_dec_u16(buf@.skip(pos as int)) is None,
        },
{
    if buf.len() - pos >= 2 {
        let v: u16 = ((buf[pos] as u16) << 8) | (buf[pos + 1] as u16);
        proof {
            reveal(spec_u16_of);
            let t = buf@.skip(pos as int);
            assert(t[0] == buf@[pos as int] && t[1] == buf@[pos as int + 1]);
        }
        Ok((v, pos + 2))
    } else {
        Err(DecodeError::Truncated)
    }
}

// ---------------------------------------------------------------------------
// u64, big endian
// ---------------------------------------------------------------------------

#[verifier::opaque]
pub open spec fn spec_enc_u64(v: u64) -> Seq<u8> {
    seq![
        ((v >> 56) & 0xff) as u8,
        ((v >> 48) & 0xff) as u8,
        ((v >> 40) & 0xff) as u8,
        ((v >> 32) & 0xff) as u8,
        ((v >> 24) & 0xff) as u8,
        ((v >> 16) & 0xff) as u8,
        ((v >> 8) & 0xff) as u8,
        (v & 0xff) as u8,
    ]
}

#[verifier::opaque]
pub open spec fn spec_u64_of(b: Seq<u8>) -> u64
    recommends
        b.len() >= 8,
{
    ((b[0] as u64) << 56) | ((b[1] as u64) << 48) | ((b[2] as u64) << 40) | ((b[3] as u64) << 32)
        | ((b[4] as u64) << 24) | ((b[5] as u64) << 16) | ((b[6] as u64) << 8) | (b[7] as u64)
}

pub open spec fn spec_dec_u64(b: Seq<u8>) -> Option<(u64, int)> {
    if b.len() >= 8 {
        Some((spec_u64_of(b), 8int))
    } else {
        None
    }
}

proof fn lemma_u64_bytes_bounded(v: u64)
    ensures
        (v >> 56) & 0xff < 256,
        (v >> 48) & 0xff < 256,
        (v >> 40) & 0xff < 256,
        (v >> 32) & 0xff < 256,
        (v >> 24) & 0xff < 256,
        (v >> 16) & 0xff < 256,
        (v >> 8) & 0xff < 256,
        v & 0xff < 256,
{
    assert((v >> 56) & 0xff < 256 && (v >> 48) & 0xff < 256 && (v >> 40) & 0xff < 256 && (v >> 32)
        & 0xff < 256 && (v >> 24) & 0xff < 256 && (v >> 16) & 0xff < 256 && (v >> 8) & 0xff < 256
        && v & 0xff < 256) by (bit_vector);
}

/// The eight-byte encoder always yields eight bytes.
pub proof fn lemma_enc_u64_len(v: u64)
    ensures
        spec_enc_u64(v).len() == 8,
{
    reveal(spec_enc_u64);
}

pub proof fn lemma_u64_round_trip(v: u64, rest: Seq<u8>)
    ensures
        spec_dec_u64(spec_enc_u64(v) + rest) == Some((v, 8int)),
{
    reveal(spec_enc_u64);
    reveal(spec_u64_of);
    let b = spec_enc_u64(v) + rest;
    lemma_u64_bytes_bounded(v);
    let c0: u64 = (v >> 56) & 0xff;
    let c1: u64 = (v >> 48) & 0xff;
    let c2: u64 = (v >> 40) & 0xff;
    let c3: u64 = (v >> 32) & 0xff;
    let c4: u64 = (v >> 24) & 0xff;
    let c5: u64 = (v >> 16) & 0xff;
    let c6: u64 = (v >> 8) & 0xff;
    let c7: u64 = v & 0xff;
    assert((c0 << 56) | (c1 << 48) | (c2 << 40) | (c3 << 32) | (c4 << 24) | (c5 << 16) | (c6 << 8)
        | c7 == v) by (bit_vector)
        requires
            c0 == (v >> 56) & 0xff && c1 == (v >> 48) & 0xff && c2 == (v >> 40) & 0xff && c3 == (v
                >> 32) & 0xff && c4 == (v >> 24) & 0xff && c5 == (v >> 16) & 0xff && c6 == (v >> 8)
                & 0xff && c7 == v & 0xff,
    ;
    assert(spec_u64_of(b) == v);
}

pub proof fn lemma_u64_sound(b: Seq<u8>)
    ensures
        spec_dec_u64(b) matches Some((v, n)) ==> 0 <= n <= b.len() && b.take(n) == spec_enc_u64(v),
{
    reveal(spec_enc_u64);
    reveal(spec_u64_of);
    if b.len() >= 8 {
        let v = spec_u64_of(b);
        let c0: u64 = b[0] as u64;
        let c1: u64 = b[1] as u64;
        let c2: u64 = b[2] as u64;
        let c3: u64 = b[3] as u64;
        let c4: u64 = b[4] as u64;
        let c5: u64 = b[5] as u64;
        let c6: u64 = b[6] as u64;
        let c7: u64 = b[7] as u64;
        assert((v >> 56) & 0xff == c0 && (v >> 48) & 0xff == c1 && (v >> 40) & 0xff == c2 && (v
            >> 32) & 0xff == c3 && (v >> 24) & 0xff == c4 && (v >> 16) & 0xff == c5 && (v >> 8)
            & 0xff == c6 && v & 0xff == c7) by (bit_vector)
            requires
                c0 < 256 && c1 < 256 && c2 < 256 && c3 < 256 && c4 < 256 && c5 < 256 && c6 < 256
                    && c7 < 256 && v == (c0 << 56) | (c1 << 48) | (c2 << 40) | (c3 << 32) | (c4
                    << 24) | (c5 << 16) | (c6 << 8) | c7,
        ;
        assert(b.take(8int) =~= spec_enc_u64(v));
    }
}

pub fn write_u64(out: &mut Vec<u8>, v: u64)
    ensures
        final(out)@ == old(out)@ + spec_enc_u64(v),
{
    proof {
        lemma_u64_bytes_bounded(v);
    }
    out.push(((v >> 56) & 0xff) as u8);
    out.push(((v >> 48) & 0xff) as u8);
    out.push(((v >> 40) & 0xff) as u8);
    out.push(((v >> 32) & 0xff) as u8);
    out.push(((v >> 24) & 0xff) as u8);
    out.push(((v >> 16) & 0xff) as u8);
    out.push(((v >> 8) & 0xff) as u8);
    out.push((v & 0xff) as u8);
    proof {
        reveal(spec_enc_u64);
        assert(out@ =~= old(out)@ + spec_enc_u64(v));
    }
}

pub fn read_u64(buf: &[u8], pos: usize) -> (r: Result<(u64, usize), DecodeError>)
    requires
        pos <= buf@.len(),
    ensures
        match r {
            Ok((v, p)) => {
                &&& pos < p <= buf@.len()
                &&& spec_dec_u64(buf@.skip(pos as int)) == Some((v, p - pos))
            },
            Err(_) => spec_dec_u64(buf@.skip(pos as int)) is None,
        },
{
    if buf.len() - pos >= 8 {
        let v: u64 = ((buf[pos] as u64) << 56) | ((buf[pos + 1] as u64) << 48) | ((buf[pos + 2]
            as u64) << 40) | ((buf[pos + 3] as u64) << 32) | ((buf[pos + 4] as u64) << 24) | ((
        buf[pos + 5] as u64) << 16) | ((buf[pos + 6] as u64) << 8) | (buf[pos + 7] as u64);
        proof {
            reveal(spec_u64_of);
            let t = buf@.skip(pos as int);
            assert(forall|i: int| 0 <= i < 8 ==> t[i] == buf@[pos as int + i]);
        }
        Ok((v, pos + 8))
    } else {
        Err(DecodeError::Truncated)
    }
}

// ---------------------------------------------------------------------------
// bool: one byte, 0 or 1, anything else rejected
// ---------------------------------------------------------------------------

pub open spec fn spec_enc_bool(v: bool) -> Seq<u8> {
    seq![
        if v {
            1u8
        } else {
            0u8
        },
    ]
}

pub open spec fn spec_dec_bool(b: Seq<u8>) -> Option<(bool, int)> {
    if b.len() >= 1 && b[0] == 1u8 {
        Some((true, 1int))
    } else if b.len() >= 1 && b[0] == 0u8 {
        Some((false, 1int))
    } else {
        None
    }
}

pub proof fn lemma_bool_round_trip(v: bool, rest: Seq<u8>)
    ensures
        spec_dec_bool(spec_enc_bool(v) + rest) == Some((v, 1int)),
{
    assert((spec_enc_bool(v) + rest)[0] == spec_enc_bool(v)[0]);
}

pub proof fn lemma_bool_sound(b: Seq<u8>)
    ensures
        spec_dec_bool(b) matches Some((v, n)) ==> 0 <= n <= b.len() && b.take(n) == spec_enc_bool(
            v,
        ),
{
    if spec_dec_bool(b) is Some {
        let (v, n) = spec_dec_bool(b)->Some_0;
        assert(b.take(1int) =~= spec_enc_bool(v));
    }
}

pub fn write_bool(out: &mut Vec<u8>, v: bool)
    ensures
        final(out)@ == old(out)@ + spec_enc_bool(v),
{
    out.push(if v {
        1u8
    } else {
        0u8
    });
    proof {
        assert(out@ =~= old(out)@ + spec_enc_bool(v));
    }
}

pub fn read_bool(buf: &[u8], pos: usize) -> (r: Result<(bool, usize), DecodeError>)
    requires
        pos <= buf@.len(),
    ensures
        match r {
            Ok((v, p)) => {
                &&& pos < p <= buf@.len()
                &&& spec_dec_bool(buf@.skip(pos as int)) == Some((v, p - pos))
            },
            Err(_) => spec_dec_bool(buf@.skip(pos as int)) is None,
        },
{
    if pos < buf.len() {
        let c = buf[pos];
        proof {
            assert(buf@.skip(pos as int)[0] == buf@[pos as int]);
        }
        if c == 1u8 {
            Ok((true, pos + 1))
        } else if c == 0u8 {
            Ok((false, pos + 1))
        } else {
            Err(DecodeError::BadTag)
        }
    } else {
        Err(DecodeError::Truncated)
    }
}

// ---------------------------------------------------------------------------
// fixed-width byte strings (nonces, identifiers)
// ---------------------------------------------------------------------------

/// Copies `buf[start..end]` into a fresh vector.
pub fn copy_range(buf: &[u8], start: usize, end: usize) -> (r: Vec<u8>)
    requires
        start <= end <= buf@.len(),
    ensures
        r@ == buf@.subrange(start as int, end as int),
{
    let mut r: Vec<u8> = Vec::new();
    let mut i: usize = start;
    while i < end
        invariant
            start <= i <= end <= buf@.len(),
            r@ == buf@.subrange(start as int, i as int),
        decreases end - i,
    {
        r.push(buf[i]);
        proof {
            assert(r@ =~= buf@.subrange(start as int, i as int + 1));
        }
        i = i + 1;
    }
    r
}

/// The encoding of a fixed-width field is the bytes themselves: the width is
/// part of the message's shape, not of the wire data.
pub open spec fn spec_dec_fixed(b: Seq<u8>, w: int) -> Option<(Seq<u8>, int)> {
    if 0 <= w <= b.len() {
        Some((b.take(w), w))
    } else {
        None
    }
}

pub proof fn lemma_fixed_round_trip(v: Seq<u8>, rest: Seq<u8>)
    ensures
        spec_dec_fixed(v + rest, v.len() as int) == Some((v, v.len() as int)),
{
    assert((v + rest).take(v.len() as int) =~= v);
}

pub proof fn lemma_fixed_sound(b: Seq<u8>, w: int)
    ensures
        spec_dec_fixed(b, w) matches Some((v, n)) ==> 0 <= n <= b.len() && b.take(n) == v,
{
}

pub fn write_fixed(out: &mut Vec<u8>, v: &Vec<u8>)
    ensures
        final(out)@ == old(out)@ + v@,
{
    let mut i: usize = 0;
    while i < v.len()
        invariant
            i <= v@.len(),
            out@ == old(out)@ + v@.take(i as int),
        decreases v@.len() - i,
    {
        out.push(v[i]);
        proof {
            assert(out@ =~= old(out)@ + v@.take(i as int + 1));
        }
        i = i + 1;
    }
    proof {
        assert(v@.take(v@.len() as int) =~= v@);
    }
}

pub fn read_fixed(buf: &[u8], pos: usize, w: usize) -> (r: Result<(Vec<u8>, usize), DecodeError>)
    requires
        pos <= buf@.len(),
    ensures
        match r {
            Ok((v, p)) => {
                &&& pos <= p <= buf@.len()
                &&& spec_dec_fixed(buf@.skip(pos as int), w as int) == Some((v@, p - pos))
                &&& v@.len() == w
            },
            Err(_) => spec_dec_fixed(buf@.skip(pos as int), w as int) is None,
        },
{
    if w <= buf.len() - pos {
        let v = copy_range(buf, pos, pos + w);
        proof {
            assert(buf@.skip(pos as int).take(w as int) =~= buf@.subrange(
                pos as int,
                pos as int + w as int,
            ));
        }
        Ok((v, pos + w))
    } else {
        Err(DecodeError::Truncated)
    }
}

// ---------------------------------------------------------------------------
// variable byte strings: u64 length prefix, then the bytes
// ---------------------------------------------------------------------------

pub open spec fn spec_enc_bytes(s: Seq<u8>) -> Seq<u8>
    recommends
        s.len() <= u64::MAX,
{
    spec_enc_u64(s.len() as u64) + s
}

pub open spec fn spec_dec_bytes(b: Seq<u8>) -> Option<(Seq<u8>, int)> {
    match spec_dec_u64(b) {
        Some((n, _)) => {
            if n <= b.len() - 8 {
                Some((b.subrange(8int, 8 + n as int), 8 + n as int))
            } else {
                None
            }
        },
        None => None,
    }
}

pub proof fn lemma_bytes_round_trip(v: Seq<u8>, rest: Seq<u8>)
    requires
        v.len() <= u64::MAX,
    ensures
        spec_dec_bytes(spec_enc_bytes(v) + rest) == Some((v, 8 + v.len() as int)),
{
    lemma_enc_u64_len(v.len() as u64);
    let b = spec_enc_bytes(v) + rest;
    assert(b =~= spec_enc_u64(v.len() as u64) + (v + rest));
    lemma_u64_round_trip(v.len() as u64, v + rest);
    assert(b.subrange(8int, 8 + v.len() as int) =~= v);
}

pub proof fn lemma_bytes_sound(b: Seq<u8>)
    ensures
        spec_dec_bytes(b) matches Some((v, n)) ==> {
            &&& 0 <= n <= b.len()
            &&& v.len() <= u64::MAX
            &&& b.take(n) == spec_enc_bytes(v)
        },
{
    if spec_dec_bytes(b) is Some {
        let (v, n) = spec_dec_bytes(b)->Some_0;
        lemma_enc_u64_len(spec_u64_of(b));
        lemma_u64_sound(b);
        let len = spec_u64_of(b);
        assert(v.len() == len);
        assert(b.take(n) =~= b.take(8int) + b.subrange(8int, n));
    }
}

pub fn write_bytes(out: &mut Vec<u8>, v: &Vec<u8>)
    ensures
        final(out)@ == old(out)@ + spec_enc_bytes(v@),
{
    write_u64(out, v.len() as u64);
    write_fixed(out, v);
    proof {
        assert(out@ =~= old(out)@ + spec_enc_bytes(v@));
    }
}

pub fn read_bytes(buf: &[u8], pos: usize) -> (r: Result<(Vec<u8>, usize), DecodeError>)
    requires
        pos <= buf@.len(),
    ensures
        match r {
            Ok((v, p)) => {
                &&& pos < p <= buf@.len()
                &&& spec_dec_bytes(buf@.skip(pos as int)) == Some((v@, p - pos))
            },
            Err(_) => spec_dec_bytes(buf@.skip(pos as int)) is None,
        },
{
    let (n, p1) = match read_u64(buf, pos) {
        Ok(x) => x,
        Err(e) => {
            return Err(e);
        },
    };
    if n <= (buf.len() - p1) as u64 {
        let w = n as usize;
        let v = copy_range(buf, p1, p1 + w);
        proof {
            let t = buf@.skip(pos as int);
            assert(t.subrange(8int, 8 + n as int) =~= buf@.subrange(
                p1 as int,
                p1 as int + w as int,
            ));
        }
        Ok((v, p1 + w))
    } else {
        Err(DecodeError::BadLength)
    }
}

// ---------------------------------------------------------------------------
// shared sequence facts used by message-level composition proofs
// ---------------------------------------------------------------------------

/// Dropping the first part of a concatenation leaves the second part.
pub proof fn lemma_concat_skip(a: Seq<u8>, b: Seq<u8>)
    ensures
        (a + b).skip(a.len() as int) == b,
{
    assert((a + b).skip(a.len() as int) =~= b);
}

/// Two successive skips are one skip of the summed amount.
pub proof fn lemma_skip_skip(s: Seq<u8>, a: int, b: int)
    requires
        0 <= a,
        0 <= b,
        a + b <= s.len(),
    ensures
        s.skip(a).skip(b) == s.skip(a + b),
{
    assert(s.skip(a).skip(b) =~= s.skip(a + b));
}

} // verus!
