//! Byte-level wire primitives.
//!
//! Every integer is laid out big-endian. The specification layer defines an
//! encoding function `enc_*` into a byte sequence and a decoding function
//! `sdec_*` that consumes a prefix of a byte sequence and returns the decoded
//! value together with the remaining suffix. For each shape a lemma shows
//! that decoding inverts encoding. The executable layer writes into and reads
//! from `Vec<u8>` buffers against those specifications.
//!
//! Message payloads are built from a small set of field shapes, the
//! [`WireVal`] forms; a payload is a list of fields, and [`enc_vals`] /
//! [`sdec_vals`] give the byte form of such a list.

use vstd::prelude::*;

verus! {

// ---------------------------------------------------------------------------
// Specification: integer encodings
// ---------------------------------------------------------------------------

pub open spec fn enc_u8(x: u8) -> Seq<u8> {
    seq![x]
}

pub open spec fn enc_u16(x: u16) -> Seq<u8> {
    enc_u8((x >> 8) as u8) + enc_u8(x as u8)
}

pub open spec fn enc_u32(x: u32) -> Seq<u8> {
    enc_u16((x >> 16) as u16) + enc_u16(x as u16)
}

pub open spec fn enc_u64(x: u64) -> Seq<u8> {
    enc_u32((x >> 32) as u32) + enc_u32(x as u32)
}

pub open spec fn enc_u128(x: u128) -> Seq<u8> {
    enc_u64((x >> 64) as u64) + enc_u64(x as u64)
}

// ---------------------------------------------------------------------------
// Specification: integer decoders (value and remaining suffix)
// ---------------------------------------------------------------------------

pub open spec fn sdec_u8(s: Seq<u8>) -> Option<(u8, Seq<u8>)> {
    if s.len() >= 1 {
        Some((s[0], s.skip(1)))
    } else {
        None
    }
}

#[verifier::opaque]
pub open spec fn sdec_u16(s: Seq<u8>) -> Option<(u16, Seq<u8>)> {
    match sdec_u8(s) {
        Some((hi, s1)) => match sdec_u8(s1) {
            Some((lo, s2)) => Some(((hi as u16) << 8 | (lo as u16), s2)),
            None => None,
        },
        None => None,
    }
}

#[verifier::opaque]
pub open spec fn sdec_u32(s: Seq<u8>) -> Option<(u32, Seq<u8>)> {
    match sdec_u16(s) {
        Some((hi, s1)) => match sdec_u16(s1) {
            Some((lo, s2)) => Some(((hi as u32) << 16 | (lo as u32), s2)),
            None => None,
        },
        None => None,
    }
}

#[verifier::opaque]
pub open spec fn sdec_u64(s: Seq<u8>) -> Option<(u64, Seq<u8>)> {
    match sdec_u32(s) {
        Some((hi, s1)) => match sdec_u32(s1) {
            Some((lo, s2)) => Some(((hi as u64) << 32 | (lo as u64), s2)),
            None => None,
        },
        None => None,
    }
}

#[verifier::opaque]
pub open spec fn sdec_u128(s: Seq<u8>) -> Option<(u128, Seq<u8>)> {
    match sdec_u64(s) {
        Some((hi, s1)) => match sdec_u64(s1) {
            Some((lo, s2)) => Some(((hi as u128) << 64 | (lo as u128), s2)),
            None => None,
        },
        None => None,
    }
}

// ---------------------------------------------------------------------------
// Round-trip lemmas for the integers
// ---------------------------------------------------------------------------

pub proof fn lemma_enc_u8(x: u8, rest: Seq<u8>)
    ensures
        sdec_u8(enc_u8(x) + rest) == Some((x, rest)),
{
    let s = enc_u8(x) + rest;
    assert(s.len() >= 1);
    assert(s[0] == x);
    assert(s.skip(1) =~= rest);
}

pub proof fn lemma_enc_u16(x: u16, rest: Seq<u8>)
    ensures
        sdec_u16(enc_u16(x) + rest) == Some((x, rest)),
{
    reveal(sdec_u16);
    let hi = (x >> 8) as u8;
    let lo = x as u8;
    assert(enc_u16(x) + rest =~= enc_u8(hi) + (enc_u8(lo) + rest));
    lemma_enc_u8(hi, enc_u8(lo) + rest);
    lemma_enc_u8(lo, rest);
    assert((((x >> 8) as u8) as u16) << 8 | ((x as u8) as u16) == x) by (bit_vector);
}

pub proof fn lemma_enc_u32(x: u32, rest: Seq<u8>)
    ensures
        sdec_u32(enc_u32(x) + rest) == Some((x, rest)),
{
    reveal(sdec_u32);
    let hi = (x >> 16) as u16;
    let lo = x as u16;
    assert(enc_u32(x) + rest =~= enc_u16(hi) + (enc_u16(lo) + rest));
    lemma_enc_u16(hi, enc_u16(lo) + rest);
    lemma_enc_u16(lo, rest);
    assert((((x >> 16) as u16) as u32) << 16 | ((x as u16) as u32) == x) by (bit_vector);
}

pub proof fn lemma_enc_u64(x: u64, rest: Seq<u8>)
    ensures
        sdec_u64(enc_u64(x) + rest) == Some((x, rest)),
{
    reveal(sdec_u64);
    let hi = (x >> 32) as u32;
    let lo = x as u32;
    assert(enc_u64(x) + rest =~= enc_u32(hi) + (enc_u32(lo) + rest));
    lemma_enc_u32(hi, enc_u32(lo) + rest);
    lemma_enc_u32(lo, rest);
    assert((((x >> 32) as u32) as u64) << 32 | ((x as u32) as u64) == x) by (bit_vector);
}

pub proof fn lemma_enc_u128(x: u128, rest: Seq<u8>)
    ensures
        sdec_u128(enc_u128(x) + rest) == Some((x, rest)),
{
    reveal(sdec_u128);
    let hi = (x >> 64) as u64;
    let lo = x as u64;
    assert(enc_u128(x) + rest =~= enc_u64(hi) + (enc_u64(lo) + rest));
    lemma_enc_u64(hi, enc_u64(lo) + rest);
    lemma_enc_u64(lo, rest);
    assert((((x >> 64) as u64) as u128) << 64 | ((x as u64) as u128) == x) by (bit_vector);
}

// ---------------------------------------------------------------------------
// Executable writers
// ---------------------------------------------------------------------------

pub fn write_u8(buf: &mut Vec<u8>, x: u8)
    ensures
        final(buf)@ == old(buf)@ + enc_u8(x),
{
    buf.push(x);
    assert(buf@ =~= old(buf)@ + enc_u8(x));
}

pub fn write_u16(buf: &mut Vec<u8>, x: u16)
    ensures
        final(buf)@ == old(buf)@ + enc_u16(x),
{
    write_u8(buf, (x >> 8) as u8);
    write_u8(buf, x as u8);
    assert(buf@ =~= old(buf)@ + enc_u16(x));
}

pub fn write_u32(buf: &mut Vec<u8>, x: u32)
    ensures
        final(buf)@ == old(buf)@ + enc_u32(x),
{
    write_u16(buf, (x >> 16) as u16);
    write_u16(buf, x as u16);
    assert(buf@ =~= old(buf)@ + enc_u32(x));
}

pub fn write_u64(buf: &mut Vec<u8>, x: u64)
    ensures
        final(buf)@ == old(buf)@ + enc_u64(x),
{
    write_u32(buf, (x >> 32) as u32);
    write_u32(buf, x as u32);
    assert(buf@ =~= old(buf)@ + enc_u64(x));
}

pub fn write_u128(buf: &mut Vec<u8>, x: u128)
    ensures
        final(buf)@ == old(buf)@ + enc_u128(x),
{
    write_u64(buf, (x >> 64) as u64);
    write_u64(buf, x as u64);
    assert(buf@ =~= old(buf)@ + enc_u128(x));
}

// ---------------------------------------------------------------------------
// Executable readers
//
// A reader takes the buffer and a position and either returns the decoded
// value with the position just past it, or None. The contract ties the
// result to the `sdec_*` function applied to the suffix at `pos`.
// ---------------------------------------------------------------------------

pub fn read_u8(buf: &Vec<u8>, pos: usize) -> (r: Option<(u8, usize)>)
    requires
        pos <= buf@.len(),
    ensures
        match sdec_u8(buf@.skip(pos as int)) {
            Some(p) => {
                &&& r is Some
                &&& r.unwrap().0 == p.0
                &&& pos < r.unwrap().1 <= buf@.len()
                &&& buf@.skip(r.unwrap().1 as int) == p.1
            },
            None => r is None,
        },
{
    if pos < buf.len() {
        let x = buf[pos];
        assert(buf@.skip(pos as int)[0] == x);
        assert(buf@.skip(pos as int).skip(1) =~= buf@.skip(pos as int + 1));
        Some((x, pos + 1))
    } else {
        None
    }
}

pub fn read_u16(buf: &Vec<u8>, pos: usize) -> (r: Option<(u16, usize)>)
    requires
        pos <= buf@.len(),
    ensures
        match sdec_u16(buf@.skip(pos as int)) {
            Some(p) => {
                &&& r is Some
                &&& r.unwrap().0 == p.0
                &&& pos < r.unwrap().1 <= buf@.len()
                &&& buf@.skip(r.unwrap().1 as int) == p.1
            },
            None => r is None,
        },
{
    proof {
        reveal(sdec_u16);
    }
    match read_u8(buf, pos) {
        Some((hi, p1)) => match read_u8(buf, p1) {
            Some((lo, p2)) => Some(((hi as u16) << 8 | (lo as u16), p2)),
            None => None,
        },
        None => None,
    }
}

pub fn read_u32(buf: &Vec<u8>, pos: usize) -> (r: Option<(u32, usize)>)
    requires
        pos <= buf@.len(),
    ensures
        match sdec_u32(buf@.skip(pos as int)) {
            Some(p) => {
                &&& r is Some
                &&& r.unwrap().0 == p.0
                &&& pos < r.unwrap().1 <= buf@.len()
                &&& buf@.skip(r.unwrap().1 as int) == p.1
            },
            None => r is None,
        },
{
    proof {
        reveal(sdec_u32);
    }
    match read_u16(buf, pos) {
        Some((hi, p1)) => match read_u16(buf, p1) {
            Some((lo, p2)) => Some(((hi as u32) << 16 | (lo as u32), p2)),
            None => None,
        },
        None => None,
    }
}

pub fn read_u64(buf: &Vec<u8>, pos: usize) -> (r: Option<(u64, usize)>)
    requires
        pos <= buf@.len(),
    ensures
        match sdec_u64(buf@.skip(pos as int)) {
            Some(p) => {
                &&& r is Some
                &&& r.unwrap().0 == p.0
                &&& pos < r.unwrap().1 <= buf@.len()
                &&& buf@.skip(r.unwrap().1 as int) == p.1
            },
            None => r is None,
        },
{
    proof {
        reveal(sdec_u64);
    }
    match read_u32(buf, pos) {
        Some((hi, p1)) => match read_u32(buf, p1) {
            Some((lo, p2)) => Some(((hi as u64) << 32 | (lo as u64), p2)),
            None => None,
        },
        None => None,
    }
}

pub fn read_u128(buf: &Vec<u8>, pos: usize) -> (r: Option<(u128, usize)>)
    requires
        pos <= buf@.len(),
    ensures
        match sdec_u128(buf@.skip(pos as int)) {
            Some(p) => {
                &&& r is Some
                &&& r.unwrap().0 == p.0
                &&& pos < r.unwrap().1 <= buf@.len()
                &&& buf@.skip(r.unwrap().1 as int) == p.1
            },
            None => r is None,
        },
{
    proof {
        reveal(sdec_u128);
    }
    match read_u64(buf, pos) {
        Some((hi, p1)) => match read_u64(buf, p1) {
            Some((lo, p2)) => Some(((hi as u128) << 64 | (lo as u128), p2)),
            None => None,
        },
        None => None,
    }
}

} // verus!

verus! {

// ---------------------------------------------------------------------------
// Specification: variable-length shapes
// ---------------------------------------------------------------------------

/// A byte string: a u64 length followed by the bytes themselves.
pub open spec fn enc_bytes(b: Seq<u8>) -> Seq<u8> {
    enc_u64(b.len() as u64) + b
}

pub open spec fn sdec_bytes(s: Seq<u8>) -> Option<(Seq<u8>, Seq<u8>)> {
    match sdec_u64(s) {
        Some((n, s1)) => if n <= s1.len() {
            Some((s1.take(n as int), s1.skip(n as int)))
        } else {
            None
        },
        None => None,
    }
}

pub proof fn lemma_enc_bytes(b: Seq<u8>, rest: Seq<u8>)
    requires
        b.len() <= u64::MAX,
    ensures
        sdec_bytes(enc_bytes(b) + rest) == Some((b, rest)),
{
    assert(enc_bytes(b) + rest =~= enc_u64(b.len() as u64) + (b + rest));
    lemma_enc_u64(b.len() as u64, b + rest);
    assert((b + rest).take(b.len() as int) =~= b);
    assert((b + rest).skip(b.len() as int) =~= rest);
}

/// A list of 128-bit ids: a u64 count followed by the ids.
pub open spec fn enc_u128s(l: Seq<u128>) -> Seq<u8>
    decreases l.len(),
{
    if l.len() == 0 {
        Seq::empty()
    } else {
        enc_u128(l[0]) + enc_u128s(l.skip(1))
    }
}

pub open spec fn enc_ids(l: Seq<u128>) -> Seq<u8> {
    enc_u64(l.len() as u64) + enc_u128s(l)
}

pub open spec fn sdec_u128s(s: Seq<u8>, n: nat) -> Option<(Seq<u128>, Seq<u8>)>
    decreases n,
{
    if n == 0 {
        Some((Seq::empty(), s))
    } else {
        match sdec_u128(s) {
            Some((x, s1)) => match sdec_u128s(s1, (n - 1) as nat) {
                Some((l, s2)) => Some((seq![x] + l, s2)),
                None => None,
            },
            None => None,
        }
    }
}

pub open spec fn sdec_ids(s: Seq<u8>) -> Option<(Seq<u128>, Seq<u8>)> {
    match sdec_u64(s) {
        Some((n, s1)) => sdec_u128s(s1, n as nat),
        None => None,
    }
}

pub proof fn lemma_enc_u128s_push(l: Seq<u128>, x: u128)
    ensures
        enc_u128s(l.push(x)) == enc_u128s(l) + enc_u128(x),
    decreases l.len(),
{
    if l.len() == 0 {
        assert(l.push(x)[0] == x);
        assert(l.push(x).skip(1) =~= Seq::<u128>::empty());
        assert(enc_u128s(Seq::<u128>::empty()) == Seq::<u8>::empty());
        assert(enc_u128s(l.push(x)) == enc_u128(x) + Seq::<u8>::empty());
        assert(enc_u128(x) + Seq::<u8>::empty() =~= Seq::<u8>::empty() + enc_u128(x));
    } else {
        assert(l.push(x)[0] == l[0]);
        assert(l.push(x).skip(1) =~= l.skip(1).push(x));
        lemma_enc_u128s_push(l.skip(1), x);
        assert(enc_u128s(l.push(x)) == enc_u128(l[0]) + (enc_u128s(l.skip(1)) + enc_u128(x)));
        assert(enc_u128(l[0]) + (enc_u128s(l.skip(1)) + enc_u128(x)) =~= (enc_u128(l[0])
            + enc_u128s(l.skip(1))) + enc_u128(x));
    }
}

#[verifier::rlimit(50)]
pub proof fn lemma_enc_u128s(l: Seq<u128>, rest: Seq<u8>)
    ensures
        sdec_u128s(enc_u128s(l) + rest, l.len()) == Some((l, rest)),
    decreases l.len(),
{
    if l.len() == 0 {
        assert(enc_u128s(l) + rest =~= rest);
        assert(Seq::<u128>::empty() =~= l);
    } else {
        assert(enc_u128s(l) + rest =~= enc_u128(l[0]) + (enc_u128s(l.skip(1)) + rest));
        lemma_enc_u128(l[0], enc_u128s(l.skip(1)) + rest);
        lemma_enc_u128s(l.skip(1), rest);
        assert(seq![l[0]] + l.skip(1) =~= l);
    }
}

#[verifier::rlimit(50)]
pub proof fn lemma_enc_ids(l: Seq<u128>, rest: Seq<u8>)
    requires
        l.len() <= u64::MAX,
    ensures
        sdec_ids(enc_ids(l) + rest) == Some((l, rest)),
{
    assert(enc_ids(l) + rest =~= enc_u64(l.len() as u64) + (enc_u128s(l) + rest));
    lemma_enc_u64(l.len() as u64, enc_u128s(l) + rest);
    lemma_enc_u128s(l, rest);
}

/// A list of byte strings: a u64 count followed by the encoded items.
pub open spec fn enc_texts_items(l: Seq<Seq<u8>>) -> Seq<u8>
    decreases l.len(),
{
    if l.len() == 0 {
        Seq::empty()
    } else {
        enc_bytes(l[0]) + enc_texts_items(l.skip(1))
    }
}

pub open spec fn enc_texts(l: Seq<Seq<u8>>) -> Seq<u8> {
    enc_u64(l.len() as u64) + enc_texts_items(l)
}

pub open spec fn sdec_texts_items(s: Seq<u8>, n: nat) -> Option<(Seq<Seq<u8>>, Seq<u8>)>
    decreases n,
{
    if n == 0 {
        Some((Seq::empty(), s))
    } else {
        match sdec_bytes(s) {
            Some((x, s1)) => match sdec_texts_items(s1, (n - 1) as nat) {
                Some((l, s2)) => Some((seq![x] + l, s2)),
                None => None,
            },
            None => None,
        }
    }
}

pub open spec fn sdec_texts(s: Seq<u8>) -> Option<(Seq<Seq<u8>>, Seq<u8>)> {
    match sdec_u64(s) {
        Some((n, s1)) => sdec_texts_items(s1, n as nat),
        None => None,
    }
}

pub open spec fn texts_wf(l: Seq<Seq<u8>>) -> bool {
    forall|i: int| 0 <= i < l.len() ==> #[trigger] l[i].len() <= u64::MAX
}

pub proof fn lemma_enc_texts_items_push(l: Seq<Seq<u8>>, x: Seq<u8>)
    ensures
        enc_texts_items(l.push(x)) == enc_texts_items(l) + enc_bytes(x),
    decreases l.len(),
{
    if l.len() == 0 {
        assert(l.push(x)[0] == x);
        assert(l.push(x).skip(1) =~= Seq::<Seq<u8>>::empty());
        assert(enc_texts_items(Seq::<Seq<u8>>::empty()) == Seq::<u8>::empty());
        assert(enc_texts_items(l.push(x)) == enc_bytes(x) + Seq::<u8>::empty());
        assert(enc_bytes(x) + Seq::<u8>::empty() =~= Seq::<u8>::empty() + enc_bytes(x));
    } else {
        assert(l.push(x)[0] == l[0]);
        assert(l.push(x).skip(1) =~= l.skip(1).push(x));
        lemma_enc_texts_items_push(l.skip(1), x);
        assert(enc_texts_items(l.push(x)) == enc_bytes(l[0]) + (enc_texts_items(l.skip(1))
            + enc_bytes(x)));
        assert(enc_bytes(l[0]) + (enc_texts_items(l.skip(1)) + enc_bytes(x)) =~= (enc_bytes(l[0])
            + enc_texts_items(l.skip(1))) + enc_bytes(x));
    }
}

#[verifier::rlimit(50)]
pub proof fn lemma_enc_texts_items(l: Seq<Seq<u8>>, rest: Seq<u8>)
    requires
        texts_wf(l),
    ensures
        sdec_texts_items(enc_texts_items(l) + rest, l.len()) == Some((l, rest)),
    decreases l.len(),
{
    if l.len() == 0 {
        assert(enc_texts_items(l) + rest =~= rest);
        assert(Seq::<Seq<u8>>::empty() =~= l);
    } else {
        assert(enc_texts_items(l) + rest =~= enc_bytes(l[0]) + (enc_texts_items(l.skip(1))
            + rest));
        lemma_enc_bytes(l[0], enc_texts_items(l.skip(1)) + rest);
        assert(texts_wf(l.skip(1)));
        lemma_enc_texts_items(l.skip(1), rest);
        assert(seq![l[0]] + l.skip(1) =~= l);
    }
}

#[verifier::rlimit(50)]
pub proof fn lemma_enc_texts(l: Seq<Seq<u8>>, rest: Seq<u8>)
    requires
        l.len() <= u64::MAX,
        texts_wf(l),
    ensures
        sdec_texts(enc_texts(l) + rest) == Some((l, rest)),
{
    assert(enc_texts(l) + rest =~= enc_u64(l.len() as u64) + (enc_texts_items(l) + rest));
    lemma_enc_u64(l.len() as u64, enc_texts_items(l) + rest);
    lemma_enc_texts_items(l, rest);
}

/// A list of u64 triples: a u64 count followed by three u64 values per item.
pub open spec fn enc_trip(t: (u64, u64, u64)) -> Seq<u8> {
    enc_u64(t.0) + enc_u64(t.1) + enc_u64(t.2)
}

pub open spec fn enc_trips_items(l: Seq<(u64, u64, u64)>) -> Seq<u8>
    decreases l.len(),
{
    if l.len() == 0 {
        Seq::empty()
    } else {
        enc_trip(l[0]) + enc_trips_items(l.skip(1))
    }
}

pub open spec fn enc_trips(l: Seq<(u64, u64, u64)>) -> Seq<u8> {
    enc_u64(l.len() as u64) + enc_trips_items(l)
}

pub open spec fn sdec_trip(s: Seq<u8>) -> Option<((u64, u64, u64), Seq<u8>)> {
    match sdec_u64(s) {
        Some((a, s1)) => match sdec_u64(s1) {
            Some((b, s2)) => match sdec_u64(s2) {
                Some((c, s3)) => Some(((a, b, c), s3)),
                None => None,
            },
            None => None,
        },
        None => None,
    }
}

pub open spec fn sdec_trips_items(s: Seq<u8>, n: nat) -> Option<(Seq<(u64, u64, u64)>, Seq<u8>)>
    decreases n,
{
    if n == 0 {
        Some((Seq::empty(), s))
    } else {
        match sdec_trip(s) {
            Some((x, s1)) => match sdec_trips_items(s1, (n - 1) as nat) {
                Some((l, s2)) => Some((seq![x] + l, s2)),
                None => None,
            },
            None => None,
        }
    }
}

pub open spec fn sdec_trips(s: Seq<u8>) -> Option<(Seq<(u64, u64, u64)>, Seq<u8>)> {
    match sdec_u64(s) {
        Some((n, s1)) => sdec_trips_items(s1, n as nat),
        None => None,
    }
}

#[verifier::rlimit(50)]
pub proof fn lemma_enc_trip(t: (u64, u64, u64), rest: Seq<u8>)
    ensures
        sdec_trip(enc_trip(t) + rest) == Some((t, rest)),
{
    assert(enc_trip(t) + rest =~= enc_u64(t.0) + (enc_u64(t.1) + (enc_u64(t.2) + rest)));
    lemma_enc_u64(t.0, enc_u64(t.1) + (enc_u64(t.2) + rest));
    lemma_enc_u64(t.1, enc_u64(t.2) + rest);
    lemma_enc_u64(t.2, rest);
}

pub proof fn lemma_enc_trips_items_push(l: Seq<(u64, u64, u64)>, x: (u64, u64, u64))
    ensures
        enc_trips_items(l.push(x)) == enc_trips_items(l) + enc_trip(x),
    decreases l.len(),
{
    if l.len() == 0 {
        assert(l.push(x)[0] == x);
        assert(l.push(x).skip(1) =~= Seq::<(u64, u64, u64)>::empty());
        assert(enc_trips_items(Seq::<(u64, u64, u64)>::empty()) == Seq::<u8>::empty());
        assert(enc_trips_items(l.push(x)) == enc_trip(x) + Seq::<u8>::empty());
        assert(enc_trip(x) + Seq::<u8>::empty() =~= Seq::<u8>::empty() + enc_trip(x));
    } else {
        assert(l.push(x)[0] == l[0]);
        assert(l.push(x).skip(1) =~= l.skip(1).push(x));
        lemma_enc_trips_items_push(l.skip(1), x);
        assert(enc_trips_items(l.push(x)) == enc_trip(l[0]) + (enc_trips_items(l.skip(1))
            + enc_trip(x)));
        assert(enc_trip(l[0]) + (enc_trips_items(l.skip(1)) + enc_trip(x)) =~= (enc_trip(l[0])
            + enc_trips_items(l.skip(1))) + enc_trip(x));
    }
}

#[verifier::rlimit(100)]
pub proof fn lemma_enc_trips_items(l: Seq<(u64, u64, u64)>, rest: Seq<u8>)
    ensures
        sdec_trips_items(enc_trips_items(l) + rest, l.len()) == Some((l, rest)),
    decreases l.len(),
{
    if l.len() == 0 {
        assert(enc_trips_items(l) + rest =~= rest);
        assert(Seq::<(u64, u64, u64)>::empty() =~= l);
    } else {
        assert(enc_trips_items(l) + rest =~= enc_trip(l[0]) + (enc_trips_items(l.skip(1))
            + rest));
        lemma_enc_trip(l[0], enc_trips_items(l.skip(1)) + rest);
        lemma_enc_trips_items(l.skip(1), rest);
        assert(seq![l[0]] + l.skip(1) =~= l);
    }
}

#[verifier::rlimit(50)]
pub proof fn lemma_enc_trips(l: Seq<(u64, u64, u64)>, rest: Seq<u8>)
    requires
        l.len() <= u64::MAX,
    ensures
        sdec_trips(enc_trips(l) + rest) == Some((l, rest)),
{
    assert(enc_trips(l) + rest =~= enc_u64(l.len() as u64) + (enc_trips_items(l) + rest));
    lemma_enc_u64(l.len() as u64, enc_trips_items(l) + rest);
    lemma_enc_trips_items(l, rest);
}

} // verus!

verus! {

// ---------------------------------------------------------------------------
// Executable writers and readers for the variable-length shapes
// ---------------------------------------------------------------------------

pub fn write_bytes(buf: &mut Vec<u8>, b: &Vec<u8>)
    ensures
        final(buf)@ == old(buf)@ + enc_bytes(b@),
{
    write_u64(buf, b.len() as u64);
    let mut i: usize = 0;
    while i < b.len()
        invariant
            i <= b@.len(),
            buf@ == old(buf)@ + enc_u64(b@.len() as u64) + b@.take(i as int),
        decreases b@.len() - i,
    {
        buf.push(b[i]);
        assert(b@.take(i + 1 as int) =~= b@.take(i as int).push(b@[i as int]));
        assert(buf@ =~= old(buf)@ + enc_u64(b@.len() as u64) + b@.take(i + 1 as int));
        i = i + 1;
    }
    assert(b@.take(b@.len() as int) =~= b@);
    assert(buf@ =~= old(buf)@ + enc_bytes(b@));
}

#[verifier::rlimit(100)]
pub fn read_bytes(buf: &Vec<u8>, pos: usize) -> (r: Option<(Vec<u8>, usize)>)
    requires
        pos <= buf@.len(),
    ensures
        match sdec_bytes(buf@.skip(pos as int)) {
            Some(p) => {
                &&& r is Some
                &&& r.unwrap().0@ == p.0
                &&& pos < r.unwrap().1 <= buf@.len()
                &&& buf@.skip(r.unwrap().1 as int) == p.1
            },
            None => r is None,
        },
{
    match read_u64(buf, pos) {
        Some((n, p1)) => {
            let rem = buf.len() - p1;
            if n > rem as u64 {
                return None;
            }
            let nn = n as usize;
            assert(nn == n);
            let blen = buf.len();
            let mut out: Vec<u8> = Vec::new();
            let mut i: usize = 0;
            while i < nn
                invariant
                    i <= nn,
                    p1 + nn <= blen,
                    blen == buf@.len(),
                    out@ == buf@.subrange(p1 as int, p1 + i),
                decreases nn - i,
            {
                out.push(buf[p1 + i]);
                assert(out@ =~= buf@.subrange(p1 as int, p1 + i + 1));
                i = i + 1;
            }
            assert(out@ =~= buf@.skip(p1 as int).take(n as int));
            assert(buf@.skip((p1 + nn) as int) =~= buf@.skip(p1 as int).skip(n as int));
            Some((out, p1 + nn))
        },
        None => None,
    }
}

pub fn write_ids(buf: &mut Vec<u8>, l: &Vec<u128>)
    ensures
        final(buf)@ == old(buf)@ + enc_ids(l@),
{
    write_u64(buf, l.len() as u64);
    let mut i: usize = 0;
    while i < l.len()
        invariant
            i <= l@.len(),
            buf@ == old(buf)@ + enc_u64(l@.len() as u64) + enc_u128s(l@.take(i as int)),
        decreases l@.len() - i,
    {
        write_u128(buf, l[i]);
        proof {
            lemma_enc_u128s_push(l@.take(i as int), l@[i as int]);
            assert(l@.take(i + 1 as int) =~= l@.take(i as int).push(l@[i as int]));
            assert(buf@ =~= old(buf)@ + enc_u64(l@.len() as u64) + enc_u128s(l@.take(i + 1 as int)));
        }
        i = i + 1;
    }
    assert(l@.take(l@.len() as int) =~= l@);
    assert(buf@ =~= old(buf)@ + enc_ids(l@));
}

#[verifier::rlimit(100)]
#[verifier::loop_isolation(false)]
pub fn read_ids(buf: &Vec<u8>, pos: usize) -> (r: Option<(Vec<u128>, usize)>)
    requires
        pos <= buf@.len(),
    ensures
        match sdec_ids(buf@.skip(pos as int)) {
            Some(p) => {
                &&& r is Some
                &&& r.unwrap().0@ == p.0
                &&& pos < r.unwrap().1 <= buf@.len()
                &&& buf@.skip(r.unwrap().1 as int) == p.1
            },
            None => r is None,
        },
{
    match read_u64(buf, pos) {
        Some((n, p1)) => {
            let mut out: Vec<u128> = Vec::new();
            let mut cur: usize = p1;
            let mut i: u64 = 0;
            while i < n
                invariant
                    i <= n,
                    pos < cur <= buf@.len(),
                    out@.len() == i,
                    sdec_u128s(buf@.skip(p1 as int), n as nat) == (match sdec_u128s(
                        buf@.skip(cur as int),
                        (n - i) as nat,
                    ) {
                        Some(q) => Some((out@ + q.0, q.1)),
                        None => None::<(Seq<u128>, Seq<u8>)>,
                    }),
                decreases n - i,
            {
                let ghost out0 = out@;
                match read_u128(buf, cur) {
                    Some((x, c2)) => {
                        proof {
                            match sdec_u128s(buf@.skip(c2 as int), (n - i - 1) as nat) {
                                Some(q) => {
                                    assert(sdec_u128s(buf@.skip(cur as int), (n - i) as nat)
                                        == Some((seq![x] + q.0, q.1)));
                                    assert(out0 + (seq![x] + q.0) =~= out0.push(x) + q.0);
                                },
                                None => {
                                    assert(sdec_u128s(buf@.skip(cur as int), (n - i) as nat)
                                        is None);
                                },
                            }
                        }
                        out.push(x);
                        cur = c2;
                        i = i + 1;
                    },
                    None => {
                        proof {
                            assert(sdec_u128s(buf@.skip(cur as int), (n - i) as nat) is None);
                        }
                        return None;
                    },
                }
            }
            assert(sdec_u128s(buf@.skip(cur as int), 0) == Some(
                (Seq::<u128>::empty(), buf@.skip(cur as int)),
            ));
            assert(out@ + Seq::<u128>::empty() =~= out@);
            Some((out, cur))
        },
        None => None,
    }
}

pub fn write_texts(buf: &mut Vec<u8>, l: &Vec<Vec<u8>>)
    ensures
        final(buf)@ == old(buf)@ + enc_texts(texts_view(l@)),
{
    write_u64(buf, l.len() as u64);
    let mut i: usize = 0;
    while i < l.len()
        invariant
            i <= l@.len(),
            buf@ == old(buf)@ + enc_u64(l@.len() as u64) + enc_texts_items(
                texts_view(l@.take(i as int)),
            ),
        decreases l@.len() - i,
    {
        write_bytes(buf, &l[i]);
        proof {
            lemma_enc_texts_items_push(texts_view(l@.take(i as int)), l@[i as int]@);
            assert(texts_view(l@.take(i + 1 as int)) =~= texts_view(l@.take(i as int)).push(
                l@[i as int]@,
            ));
            assert(buf@ =~= old(buf)@ + enc_u64(l@.len() as u64) + enc_texts_items(
                texts_view(l@.take(i + 1 as int)),
            ));
        }
        i = i + 1;
    }
    proof {
        assert(texts_view(l@.take(l@.len() as int)) =~= texts_view(l@));
        assert(texts_view(l@).len() == l@.len());
        assert(buf@ =~= old(buf)@ + enc_texts(texts_view(l@)));
    }
}

/// The sequence of views of a list of byte vectors.
pub open spec fn texts_view(l: Seq<Vec<u8>>) -> Seq<Seq<u8>> {
    l.map_values(|v: Vec<u8>| v@)
}

#[verifier::rlimit(100)]
#[verifier::loop_isolation(false)]
pub fn read_texts(buf: &Vec<u8>, pos: usize) -> (r: Option<(Vec<Vec<u8>>, usize)>)
    requires
        pos <= buf@.len(),
    ensures
        match sdec_texts(buf@.skip(pos as int)) {
            Some(p) => {
                &&& r is Some
                &&& texts_view(r.unwrap().0@) == p.0
                &&& pos < r.unwrap().1 <= buf@.len()
                &&& buf@.skip(r.unwrap().1 as int) == p.1
            },
            None => r is None,
        },
{
    match read_u64(buf, pos) {
        Some((n, p1)) => {
            let mut out: Vec<Vec<u8>> = Vec::new();
            let mut cur: usize = p1;
            let mut i: u64 = 0;
            while i < n
                invariant
                    i <= n,
                    pos < cur <= buf@.len(),
                    out@.len() == i,
                    sdec_texts_items(buf@.skip(p1 as int), n as nat) == (match sdec_texts_items(
                        buf@.skip(cur as int),
                        (n - i) as nat,
                    ) {
                        Some(q) => Some((texts_view(out@) + q.0, q.1)),
                        None => None::<(Seq<Seq<u8>>, Seq<u8>)>,
                    }),
                decreases n - i,
            {
                let ghost out0 = out@;
                match read_bytes(buf, cur) {
                    Some((x, c2)) => {
                        proof {
                            match sdec_texts_items(buf@.skip(c2 as int), (n - i - 1) as nat) {
                                Some(q) => {
                                    assert(sdec_texts_items(buf@.skip(cur as int), (n - i) as nat)
                                        == Some((seq![x@] + q.0, q.1)));
                                    assert(texts_view(out0) + (seq![x@] + q.0) =~= texts_view(
                                        out0.push(x),
                                    ) + q.0);
                                },
                                None => {
                                    assert(sdec_texts_items(buf@.skip(cur as int), (n - i) as nat)
                                        is None);
                                },
                            }
                        }
                        out.push(x);
                        cur = c2;
                        i = i + 1;
                    },
                    None => {
                        proof {
                            assert(sdec_texts_items(buf@.skip(cur as int), (n - i) as nat)
                                is None);
                        }
                        return None;
                    },
                }
            }
            assert(sdec_texts_items(buf@.skip(cur as int), 0) == Some(
                (Seq::<Seq<u8>>::empty(), buf@.skip(cur as int)),
            ));
            assert(texts_view(out@) + Seq::<Seq<u8>>::empty() =~= texts_view(out@));
            Some((out, cur))
        },
        None => None,
    }
}

pub fn write_trips(buf: &mut Vec<u8>, l: &Vec<(u64, u64, u64)>)
    ensures
        final(buf)@ == old(buf)@ + enc_trips(l@),
{
    write_u64(buf, l.len() as u64);
    let mut i: usize = 0;
    while i < l.len()
        invariant
            i <= l@.len(),
            buf@ == old(buf)@ + enc_u64(l@.len() as u64) + enc_trips_items(l@.take(i as int)),
        decreases l@.len() - i,
    {
        let t = l[i];
        write_u64(buf, t.0);
        write_u64(buf, t.1);
        write_u64(buf, t.2);
        proof {
            lemma_enc_trips_items_push(l@.take(i as int), l@[i as int]);
            assert(l@.take(i + 1 as int) =~= l@.take(i as int).push(l@[i as int]));
            assert(buf@ =~= old(buf)@ + enc_u64(l@.len() as u64) + enc_trips_items(
                l@.take(i + 1 as int),
            ));
        }
        i = i + 1;
    }
    assert(l@.take(l@.len() as int) =~= l@);
    assert(buf@ =~= old(buf)@ + enc_trips(l@));
}

fn read_trip(buf: &Vec<u8>, pos: usize) -> (r: Option<((u64, u64, u64), usize)>)
    requires
        pos <= buf@.len(),
    ensures
        match sdec_trip(buf@.skip(pos as int)) {
            Some(p) => {
                &&& r is Some
                &&& r.unwrap().0 == p.0
                &&& pos < r.unwrap().1 <= buf@.len()
                &&& buf@.skip(r.unwrap().1 as int) == p.1
            },
            None => r is None,
        },
{
    match read_u64(buf, pos) {
        Some((a, p1)) => match read_u64(buf, p1) {
            Some((b, p2)) => match read_u64(buf, p2) {
                Some((c, p3)) => Some(((a, b, c), p3)),
                None => None,
            },
            None => None,
        },
        None => None,
    }
}

#[verifier::rlimit(100)]
#[verifier::loop_isolation(false)]
pub fn read_trips(buf: &Vec<u8>, pos: usize) -> (r: Option<(Vec<(u64, u64, u64)>, usize)>)
    requires
        pos <= buf@.len(),
    ensures
        match sdec_trips(buf@.skip(pos as int)) {
            Some(p) => {
                &&& r is Some
                &&& r.unwrap().0@ == p.0
                &&& pos < r.unwrap().1 <= buf@.len()
                &&& buf@.skip(r.unwrap().1 as int) == p.1
            },
            None => r is None,
        },
{
    match read_u64(buf, pos) {
        Some((n, p1)) => {
            let mut out: Vec<(u64, u64, u64)> = Vec::new();
            let mut cur: usize = p1;
            let mut i: u64 = 0;
            while i < n
                invariant
                    i <= n,
                    pos < cur <= buf@.len(),
                    out@.len() == i,
                    sdec_trips_items(buf@.skip(p1 as int), n as nat) == (match sdec_trips_items(
                        buf@.skip(cur as int),
                        (n - i) as nat,
                    ) {
                        Some(q) => Some((out@ + q.0, q.1)),
                        None => None::<(Seq<(u64, u64, u64)>, Seq<u8>)>,
                    }),
                decreases n - i,
            {
                let ghost out0 = out@;
                match read_trip(buf, cur) {
                    Some((x, c2)) => {
                        proof {
                            match sdec_trips_items(buf@.skip(c2 as int), (n - i - 1) as nat) {
                                Some(q) => {
                                    assert(sdec_trips_items(buf@.skip(cur as int), (n - i) as nat)
                                        == Some((seq![x] + q.0, q.1)));
                                    assert(out0 + (seq![x] + q.0) =~= out0.push(x) + q.0);
                                },
                                None => {
                                    assert(sdec_trips_items(buf@.skip(cur as int), (n - i) as nat)
                                        is None);
                                },
                            }
                        }
                        out.push(x);
                        cur = c2;
                        i = i + 1;
                    },
                    None => {
                        proof {
                            assert(sdec_trips_items(buf@.skip(cur as int), (n - i) as nat)
                                is None);
                        }
                        return None;
                    },
                }
            }
            assert(sdec_trips_items(buf@.skip(cur as int), 0) == Some(
                (Seq::<(u64, u64, u64)>::empty(), buf@.skip(cur as int)),
            ));
            assert(out@ + Seq::<(u64, u64, u64)>::empty() =~= out@);
            Some((out, cur))
        },
        None => None,
    }
}

} // verus!

verus! {

// ---------------------------------------------------------------------------
// Wire fields
//
// A message payload is a list of fields drawn from a small set of shapes.
// Each field is encoded as a one-byte shape tag followed by the shape's
// encoding from above.
// ---------------------------------------------------------------------------

/// An executable wire field.
#[derive(Debug, Clone)]
pub enum WireVal {
    U8(u8),
    U64(u64),
    U128(u128),
    Bytes(Vec<u8>),
    Ids(Vec<u128>),
    Texts(Vec<Vec<u8>>),
    Trips(Vec<(u64, u64, u64)>),
}

/// The mathematical value of a wire field.
#[verifier::ext_equal]
pub enum WireValV {
    U8(u8),
    U64(u64),
    U128(u128),
    Bytes(Seq<u8>),
    Ids(Seq<u128>),
    Texts(Seq<Seq<u8>>),
    Trips(Seq<(u64, u64, u64)>),
}

impl View for WireVal {
    type V = WireValV;

    open spec fn view(&self) -> WireValV {
        match self {
            WireVal::U8(x) => WireValV::U8(*x),
            WireVal::U64(x) => WireValV::U64(*x),
            WireVal::U128(x) => WireValV::U128(*x),
            WireVal::Bytes(b) => WireValV::Bytes(b@),
            WireVal::Ids(l) => WireValV::Ids(l@),
            WireVal::Texts(l) => WireValV::Texts(texts_view(l@)),
            WireVal::Trips(l) => WireValV::Trips(l@),
        }
    }
}

/// The views of a list of wire fields.
pub open spec fn views_of(vs: Seq<WireVal>) -> Seq<WireValV> {
    vs.map_values(|v: WireVal| v@)
}

pub open spec fn enc_val(v: WireValV) -> Seq<u8> {
    match v {
        WireValV::U8(x) => enc_u8(0) + enc_u8(x),
        WireValV::U64(x) => enc_u8(1) + enc_u64(x),
        WireValV::U128(x) => enc_u8(2) + enc_u128(x),
        WireValV::Bytes(b) => enc_u8(3) + enc_bytes(b),
        WireValV::Ids(l) => enc_u8(4) + enc_ids(l),
        WireValV::Texts(l) => enc_u8(5) + enc_texts(l),
        WireValV::Trips(l) => enc_u8(6) + enc_trips(l),
    }
}

/// Bounds under which a field is encodable: every length fits a u64 count.
pub open spec fn val_wf(v: WireValV) -> bool {
    match v {
        WireValV::Bytes(b) => b.len() <= u64::MAX,
        WireValV::Ids(l) => l.len() <= u64::MAX,
        WireValV::Texts(l) => l.len() <= u64::MAX && texts_wf(l),
        WireValV::Trips(l) => l.len() <= u64::MAX,
        _ => true,
    }
}

pub open spec fn sdec_val(s: Seq<u8>) -> Option<(WireValV, Seq<u8>)> {
    match sdec_u8(s) {
        Some((tag, s1)) => if tag == 0 {
            match sdec_u8(s1) {
                Some((x, s2)) => Some((WireValV::U8(x), s2)),
                None => None,
            }
        } else if tag == 1 {
            match sdec_u64(s1) {
                Some((x, s2)) => Some((WireValV::U64(x), s2)),
                None => None,
            }
        } else if tag == 2 {
            match sdec_u128(s1) {
                Some((x, s2)) => Some((WireValV::U128(x), s2)),
                None => None,
            }
        } else if tag == 3 {
            match sdec_bytes(s1) {
                Some((x, s2)) => Some((WireValV::Bytes(x), s2)),
                None => None,
            }
        } else if tag == 4 {
            match sdec_ids(s1) {
                Some((x, s2)) => Some((WireValV::Ids(x), s2)),
                None => None,
            }
        } else if tag == 5 {
            match sdec_texts(s1) {
                Some((x, s2)) => Some((WireValV::Texts(x), s2)),
                None => None,
            }
        } else if tag == 6 {
            match sdec_trips(s1) {
                Some((x, s2)) => Some((WireValV::Trips(x), s2)),
                None => None,
            }
        } else {
            None
        },
        None => None,
    }
}

#[verifier::rlimit(100)]
pub proof fn lemma_enc_val(v: WireValV, rest: Seq<u8>)
    requires
        val_wf(v),
    ensures
        sdec_val(enc_val(v) + rest) == Some((v, rest)),
        enc_val(v).len() >= 1,
{
    match v {
        WireValV::U8(x) => {
            assert(enc_val(v) + rest =~= enc_u8(0) + (enc_u8(x) + rest));
            lemma_enc_u8(0, enc_u8(x) + rest);
            lemma_enc_u8(x, rest);
        },
        WireValV::U64(x) => {
            assert(enc_val(v) + rest =~= enc_u8(1) + (enc_u64(x) + rest));
            lemma_enc_u8(1, enc_u64(x) + rest);
            lemma_enc_u64(x, rest);
        },
        WireValV::U128(x) => {
            assert(enc_val(v) + rest =~= enc_u8(2) + (enc_u128(x) + rest));
            lemma_enc_u8(2, enc_u128(x) + rest);
            lemma_enc_u128(x, rest);
        },
        WireValV::Bytes(b) => {
            assert(enc_val(v) + rest =~= enc_u8(3) + (enc_bytes(b) + rest));
            lemma_enc_u8(3, enc_bytes(b) + rest);
            lemma_enc_bytes(b, rest);
        },
        WireValV::Ids(l) => {
            assert(enc_val(v) + rest =~= enc_u8(4) + (enc_ids(l) + rest));
            lemma_enc_u8(4, enc_ids(l) + rest);
            lemma_enc_ids(l, rest);
        },
        WireValV::Texts(l) => {
            assert(enc_val(v) + rest =~= enc_u8(5) + (enc_texts(l) + rest));
            lemma_enc_u8(5, enc_texts(l) + rest);
            lemma_enc_texts(l, rest);
        },
        WireValV::Trips(l) => {
            assert(enc_val(v) + rest =~= enc_u8(6) + (enc_trips(l) + rest));
            lemma_enc_u8(6, enc_trips(l) + rest);
            lemma_enc_trips(l, rest);
        },
    }
}

// ---------------------------------------------------------------------------
// A list of fields, encoded back to back
// ---------------------------------------------------------------------------

pub open spec fn enc_vals(vs: Seq<WireValV>) -> Seq<u8>
    decreases vs.len(),
{
    if vs.len() == 0 {
        Seq::empty()
    } else {
        enc_val(vs[0]) + enc_vals(vs.skip(1))
    }
}

pub open spec fn vals_wf(vs: Seq<WireValV>) -> bool {
    forall|i: int| 0 <= i < vs.len() ==> #[trigger] val_wf(vs[i])
}

/// Decodes fields until the input is exhausted; `None` on any malformed or
/// truncated field.
pub open spec fn sdec_vals(s: Seq<u8>) -> Option<Seq<WireValV>>
    decreases s.len(),
{
    if s.len() == 0 {
        Some(Seq::empty())
    } else {
        match sdec_val(s) {
            Some((v, rest)) => if rest.len() < s.len() {
                match sdec_vals(rest) {
                    Some(vs) => Some(seq![v] + vs),
                    None => None,
                }
            } else {
                None
            },
            None => None,
        }
    }
}

pub proof fn lemma_enc_vals_push(vs: Seq<WireValV>, v: WireValV)
    ensures
        enc_vals(vs.push(v)) == enc_vals(vs) + enc_val(v),
    decreases vs.len(),
{
    if vs.len() == 0 {
        assert(vs.push(v)[0] == v);
        assert(vs.push(v).skip(1) =~= Seq::<WireValV>::empty());
        assert(enc_vals(Seq::<WireValV>::empty()) == Seq::<u8>::empty());
        assert(enc_vals(vs.push(v)) == enc_val(v) + Seq::<u8>::empty());
        assert(enc_val(v) + Seq::<u8>::empty() =~= Seq::<u8>::empty() + enc_val(v));
    } else {
        assert(vs.push(v)[0] == vs[0]);
        assert(vs.push(v).skip(1) =~= vs.skip(1).push(v));
        lemma_enc_vals_push(vs.skip(1), v);
        assert(enc_vals(vs.push(v)) == enc_val(vs[0]) + (enc_vals(vs.skip(1)) + enc_val(v)));
        assert(enc_val(vs[0]) + (enc_vals(vs.skip(1)) + enc_val(v)) =~= (enc_val(vs[0])
            + enc_vals(vs.skip(1))) + enc_val(v));
    }
}

#[verifier::rlimit(100)]
pub proof fn lemma_enc_vals(vs: Seq<WireValV>)
    requires
        vals_wf(vs),
    ensures
        sdec_vals(enc_vals(vs)) == Some(vs),
    decreases vs.len(),
{
    if vs.len() == 0 {
        assert(enc_vals(vs) == Seq::<u8>::empty());
        assert(Seq::<WireValV>::empty() =~= vs);
    } else {
        assert(val_wf(vs[0]));
        lemma_enc_val(vs[0], enc_vals(vs.skip(1)));
        assert(vals_wf(vs.skip(1)));
        lemma_enc_vals(vs.skip(1));
        let s = enc_vals(vs);
        assert(s == enc_val(vs[0]) + enc_vals(vs.skip(1)));
        assert(s.len() == enc_val(vs[0]).len() + enc_vals(vs.skip(1)).len());
        assert(s.len() > 0);
        assert(sdec_val(s) == Some((vs[0], enc_vals(vs.skip(1)))));
        assert(enc_vals(vs.skip(1)).len() < s.len());
        assert(sdec_vals(s) == Some(seq![vs[0]] + vs.skip(1)));
        assert(seq![vs[0]] + vs.skip(1) =~= vs);
    }
}

// ---------------------------------------------------------------------------
// Executable field writer and readers
// ---------------------------------------------------------------------------

pub fn write_val(buf: &mut Vec<u8>, v: &WireVal)
    ensures
        final(buf)@ == old(buf)@ + enc_val(v@),
{
    match v {
        WireVal::U8(x) => {
            write_u8(buf, 0);
            write_u8(buf, *x);
        },
        WireVal::U64(x) => {
            write_u8(buf, 1);
            write_u64(buf, *x);
        },
        WireVal::U128(x) => {
            write_u8(buf, 2);
            write_u128(buf, *x);
        },
        WireVal::Bytes(b) => {
            write_u8(buf, 3);
            write_bytes(buf, b);
        },
        WireVal::Ids(l) => {
            write_u8(buf, 4);
            write_ids(buf, l);
        },
        WireVal::Texts(l) => {
            write_u8(buf, 5);
            write_texts(buf, l);
        },
        WireVal::Trips(l) => {
            write_u8(buf, 6);
            write_trips(buf, l);
        },
    }
    assert(buf@ =~= old(buf)@ + enc_val(v@));
}

pub fn write_vals(buf: &mut Vec<u8>, vals: &Vec<WireVal>)
    ensures
        final(buf)@ == old(buf)@ + enc_vals(views_of(vals@)),
{
    let mut i: usize = 0;
    while i < vals.len()
        invariant
            i <= vals@.len(),
            buf@ == old(buf)@ + enc_vals(views_of(vals@.take(i as int))),
        decreases vals@.len() - i,
    {
        write_val(buf, &vals[i]);
        proof {
            lemma_enc_vals_push(views_of(vals@.take(i as int)), vals@[i as int]@);
            assert(views_of(vals@.take(i + 1 as int)) =~= views_of(vals@.take(i as int)).push(
                vals@[i as int]@,
            ));
            assert(buf@ =~= old(buf)@ + enc_vals(views_of(vals@.take(i + 1 as int))));
        }
        i = i + 1;
    }
    assert(vals@.take(vals@.len() as int) =~= vals@);
}

#[verifier::rlimit(100)]
pub fn read_val(buf: &Vec<u8>, pos: usize) -> (r: Option<(WireVal, usize)>)
    requires
        pos <= buf@.len(),
    ensures
        match sdec_val(buf@.skip(pos as int)) {
            Some(p) => {
                &&& r is Some
                &&& r.unwrap().0@ == p.0
                &&& pos < r.unwrap().1 <= buf@.len()
                &&& buf@.skip(r.unwrap().1 as int) == p.1
            },
            None => r is None,
        },
{
    match read_u8(buf, pos) {
        Some((tag, p1)) => {
            if tag == 0 {
                match read_u8(buf, p1) {
                    Some((x, p2)) => Some((WireVal::U8(x), p2)),
                    None => None,
                }
            } else if tag == 1 {
                match read_u64(buf, p1) {
                    Some((x, p2)) => Some((WireVal::U64(x), p2)),
                    None => None,
                }
            } else if tag == 2 {
                match read_u128(buf, p1) {
                    Some((x, p2)) => Some((WireVal::U128(x), p2)),
                    None => None,
                }
            } else if tag == 3 {
                match read_bytes(buf, p1) {
                    Some((x, p2)) => Some((WireVal::Bytes(x), p2)),
                    None => None,
                }
            } else if tag == 4 {
                match read_ids(buf, p1) {
                    Some((x, p2)) => Some((WireVal::Ids(x), p2)),
                    None => None,
                }
            } else if tag == 5 {
                match read_texts(buf, p1) {
                    Some((x, p2)) => Some((WireVal::Texts(x), p2)),
                    None => None,
                }
            } else if tag == 6 {
                match read_trips(buf, p1) {
                    Some((x, p2)) => Some((WireVal::Trips(x), p2)),
                    None => None,
                }
            } else {
                None
            }
        },
        None => None,
    }
}

/// Reads fields from `pos` to the end of the buffer.
#[verifier::rlimit(100)]
#[verifier::loop_isolation(false)]
pub fn read_all_vals(buf: &Vec<u8>, pos: usize) -> (r: Option<Vec<WireVal>>)
    requires
        pos <= buf@.len(),
    ensures
        match sdec_vals(buf@.skip(pos as int)) {
            Some(vs) => {
                &&& r is Some
                &&& views_of(r.unwrap()@) == vs
            },
            None => r is None,
        },
{
    let mut out: Vec<WireVal> = Vec::new();
    let mut cur: usize = pos;
    assert(views_of(out@) =~= Seq::<WireValV>::empty());
    while cur < buf.len()
        invariant
            pos <= cur <= buf@.len(),
            sdec_vals(buf@.skip(pos as int)) == (match sdec_vals(buf@.skip(cur as int)) {
                Some(vs) => Some(views_of(out@) + vs),
                None => None::<Seq<WireValV>>,
            }),
        decreases buf@.len() - cur,
    {
        let ghost out0 = out@;
        match read_val(buf, cur) {
            Some((v, c2)) => {
                proof {
                    let s_cur = buf@.skip(cur as int);
                    assert(s_cur.len() > 0);
                    match sdec_vals(buf@.skip(c2 as int)) {
                        Some(vs) => {
                            assert(sdec_vals(s_cur) == Some(seq![v@] + vs));
                            assert(views_of(out0) + (seq![v@] + vs) =~= views_of(out0.push(v))
                                + vs);
                        },
                        None => {
                            assert(sdec_vals(s_cur) is None);
                        },
                    }
                }
                out.push(v);
                cur = c2;
            },
            None => {
                proof {
                    assert(sdec_vals(buf@.skip(cur as int)) is None);
                }
                return None;
            },
        }
    }
    assert(buf@.skip(cur as int) =~= Seq::<u8>::empty());
    assert(views_of(out@) + Seq::<WireValV>::empty() =~= views_of(out@));
    Some(out)
}

} // verus!

verus! {

// ---------------------------------------------------------------------------
// Copy and comparison helpers for the field payloads
// ---------------------------------------------------------------------------

/// A fresh vector with the same bytes.
pub fn clone_bytes(b: &Vec<u8>) -> (r: Vec<u8>)
    ensures
        r@ == b@,
{
    let mut out: Vec<u8> = Vec::new();
    let mut i: usize = 0;
    while i < b.len()
        invariant
            i <= b@.len(),
            out@ == b@.take(i as int),
        decreases b@.len() - i,
    {
        out.push(b[i]);
        assert(out@ =~= b@.take(i + 1 as int));
        i = i + 1;
    }
    assert(out@ =~= b@);
    out
}

/// A fresh vector with the same ids.
pub fn clone_ids(l: &Vec<u128>) -> (r: Vec<u128>)
    ensures
        r@ == l@,
{
    let mut out: Vec<u128> = Vec::new();
    let mut i: usize = 0;
    while i < l.len()
        invariant
            i <= l@.len(),
            out@ == l@.take(i as int),
        decreases l@.len() - i,
    {
        out.push(l[i]);
        assert(out@ =~= l@.take(i + 1 as int));
        i = i + 1;
    }
    assert(out@ =~= l@);
    out
}

/// A fresh vector of fresh byte vectors with the same contents.
pub fn clone_texts(l: &Vec<Vec<u8>>) -> (r: Vec<Vec<u8>>)
    ensures
        texts_view(r@) == texts_view(l@),
{
    let mut out: Vec<Vec<u8>> = Vec::new();
    let mut i: usize = 0;
    while i < l.len()
        invariant
            i <= l@.len(),
            out@.len() == i,
            forall|j: int| 0 <= j < i ==> #[trigger] out@[j]@ == l@[j]@,
        decreases l@.len() - i,
    {
        let ghost out0 = out@;
        let c = clone_bytes(&l[i]);
        assert(c@ == l@[i as int]@);
        out.push(c);
        assert(forall|j: int| 0 <= j < i ==> #[trigger] out@[j]@ == out0[j]@);
        i = i + 1;
    }
    proof {
        assert forall|j: int| 0 <= j < l@.len() implies texts_view(out@)[j] == texts_view(l@)[j] by {
            assert(out@[j]@ == l@[j]@);
        }
        assert(texts_view(out@) =~= texts_view(l@));
    }
    out
}

/// A fresh vector with the same triples.
pub fn clone_trips(l: &Vec<(u64, u64, u64)>) -> (r: Vec<(u64, u64, u64)>)
    ensures
        r@ == l@,
{
    let mut out: Vec<(u64, u64, u64)> = Vec::new();
    let mut i: usize = 0;
    while i < l.len()
        invariant
            i <= l@.len(),
            out@ == l@.take(i as int),
        decreases l@.len() - i,
    {
        out.push(l[i]);
        assert(out@ =~= l@.take(i + 1 as int));
        i = i + 1;
    }
    assert(out@ =~= l@);
    out
}

/// True iff the two byte strings hold the same bytes.
pub fn bytes_eq(a: &Vec<u8>, b: &Vec<u8>) -> (r: bool)
    ensures
        r == (a@ == b@),
{
    if a.len() != b.len() {
        assert(a@ != b@);
        return false;
    }
    let mut i: usize = 0;
    while i < a.len()
        invariant
            i <= a@.len(),
            a@.len() == b@.len(),
            a@.take(i as int) == b@.take(i as int),
        decreases a@.len() - i,
    {
        if a[i] != b[i] {
            assert(a@[i as int] != b@[i as int]);
            return false;
        }
        assert(a@.take(i + 1 as int) =~= a@.take(i as int).push(a@[i as int]));
        assert(b@.take(i + 1 as int) =~= b@.take(i as int).push(b@[i as int]));
        i = i + 1;
    }
    assert(a@.take(a@.len() as int) =~= a@);
    assert(b@.take(b@.len() as int) =~= b@);
    true
}

} // verus!

verus! {

pub proof fn lemma_views_of_index(vs: Seq<WireVal>)
    ensures
        views_of(vs).len() == vs.len(),
        forall|i: int| 0 <= i < vs.len() ==> #[trigger] views_of(vs)[i] == vs[i]@,
{
}

} // verus!

verus! {

// ---------------------------------------------------------------------------
// Length facts: a fixed-width decoder succeeds exactly on long-enough input
// and leaves the suffix past its width.
// ---------------------------------------------------------------------------

pub proof fn lemma_sdec_u8_len(s: Seq<u8>)
    ensures
        s.len() >= 1 ==> (sdec_u8(s) is Some && sdec_u8(s)->Some_0.1 == s.skip(1)),
        s.len() < 1 ==> sdec_u8(s) is None,
{
}

pub proof fn lemma_sdec_u16_len(s: Seq<u8>)
    ensures
        s.len() >= 2 ==> (sdec_u16(s) is Some && sdec_u16(s)->Some_0.1 == s.skip(2)),
        s.len() < 2 ==> sdec_u16(s) is None,
{
    reveal(sdec_u16);
    if s.len() >= 2 {
        assert(s.skip(1).skip(1) =~= s.skip(2));
    }
}

pub proof fn lemma_sdec_u32_len(s: Seq<u8>)
    ensures
        s.len() >= 4 ==> (sdec_u32(s) is Some && sdec_u32(s)->Some_0.1 == s.skip(4)),
        s.len() < 4 ==> sdec_u32(s) is None,
{
    reveal(sdec_u32);
    lemma_sdec_u16_len(s);
    if s.len() >= 2 {
        lemma_sdec_u16_len(s.skip(2));
        if s.len() >= 4 {
            assert(s.skip(2).skip(2) =~= s.skip(4));
        }
    }
}

pub proof fn lemma_sdec_u64_len(s: Seq<u8>)
    ensures
        s.len() >= 8 ==> (sdec_u64(s) is Some && sdec_u64(s)->Some_0.1 == s.skip(8)),
        s.len() < 8 ==> sdec_u64(s) is None,
{
    reveal(sdec_u64);
    lemma_sdec_u32_len(s);
    if s.len() >= 4 {
        lemma_sdec_u32_len(s.skip(4));
        if s.len() >= 8 {
            assert(s.skip(4).skip(4) =~= s.skip(8));
        }
    }
}

pub proof fn lemma_sdec_u128_len(s: Seq<u8>)
    ensures
        s.len() >= 16 ==> (sdec_u128(s) is Some && sdec_u128(s)->Some_0.1 == s.skip(16)),
        s.len() < 16 ==> sdec_u128(s) is None,
{
    reveal(sdec_u128);
    lemma_sdec_u64_len(s);
    if s.len() >= 8 {
        lemma_sdec_u64_len(s.skip(8));
        if s.len() >= 16 {
            assert(s.skip(8).skip(8) =~= s.skip(16));
        }
    }
}

} // verus!
