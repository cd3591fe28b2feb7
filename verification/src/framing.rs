//! Length-prefixed message framing for the child-process link.
//!
//! A frame is an ASCII header block — one `Content-Length` header, a blank
//! line — followed by exactly that many payload bytes. The decoder mirrors
//! the read loop of a process link: header lines other than
//! `Content-Length` are ignored, a blank line without a preceding
//! `Content-Length` header is skipped, and an incomplete frame leaves the
//! buffer untouched until more bytes arrive.

use vstd::prelude::*;
use crate::strutil::{
    spec_is_digits, spec_dec_val, spec_udec_u8, u64_to_digits, parse_u64_digits,
    lemma_udec_u8_digits, lemma_udec_u8_val,
};
use vstd::slice::{slice_subrange, slice_to_vec};

verus! {

/// The bytes of the header name `Content-Length:`.
pub open spec fn spec_header_name() -> Seq<u8> {
    seq![67u8, 111u8, 110u8, 116u8, 101u8, 110u8, 116u8, 45u8, 76u8, 101u8, 110u8, 103u8, 116u8, 104u8, 58u8]
}

fn header_name_vec() -> (r: Vec<u8>)
    ensures
        r@ == spec_header_name(),
{
    let mut v: Vec<u8> = Vec::new();
    v.push(67);
    v.push(111);
    v.push(110);
    v.push(116);
    v.push(101);
    v.push(110);
    v.push(116);
    v.push(45);
    v.push(76);
    v.push(101);
    v.push(110);
    v.push(103);
    v.push(116);
    v.push(104);
    v.push(58);
    proof {
        assert(v@ =~= spec_header_name());
    }
    v
}

/// An ASCII blank: space or horizontal tab.
pub open spec fn spec_is_ws(b: u8) -> bool {
    b == 32 || b == 9
}

/// A header line of blanks only separates headers from the payload.
pub open spec fn spec_is_blank(line: Seq<u8>) -> bool {
    forall|i: int| 0 <= i < line.len() ==> spec_is_ws(#[trigger] line[i])
}

/// The line with leading blanks removed.
pub open spec fn spec_trim_front(b: Seq<u8>) -> Seq<u8>
    decreases b.len(),
{
    if b.len() > 0 && spec_is_ws(b[0]) {
        spec_trim_front(b.drop_first())
    } else {
        b
    }
}

/// The line with trailing blanks removed.
pub open spec fn spec_trim_back(b: Seq<u8>) -> Seq<u8>
    decreases b.len(),
{
    if b.len() > 0 && spec_is_ws(b.last()) {
        spec_trim_back(b.drop_last())
    } else {
        b
    }
}

/// The line with blanks removed on both sides.
pub open spec fn spec_trim(b: Seq<u8>) -> Seq<u8> {
    spec_trim_back(spec_trim_front(b))
}

pub open spec fn spec_starts_with_bytes(s: Seq<u8>, p: Seq<u8>) -> bool {
    s.len() >= p.len() && s.take(p.len() as int) == p
}

/// The index of the first CRLF pair.
pub open spec fn spec_find_crlf(b: Seq<u8>) -> Option<int>
    decreases b.len(),
{
    if b.len() < 2 {
        None
    } else if b[0] == 13 && b[1] == 10 {
        Some(0int)
    } else {
        match spec_find_crlf(b.drop_first()) {
            Some(i) => Some(i + 1),
            None => None,
        }
    }
}

/// A found CRLF index is in range and marks the first pair.
pub proof fn lemma_find_crlf_bounds(b: Seq<u8>)
    ensures
        match spec_find_crlf(b) {
            Some(i) => {
                &&& 0 <= i
                &&& i + 2 <= b.len()
                &&& b[i] == 13
                &&& b[i + 1] == 10
                &&& forall|j: int| 0 <= j < i ==> !(#[trigger] b[j] == 13 && b[j + 1] == 10)
            },
            None => forall|j: int| 0 <= j && j + 1 < b.len() ==> !(#[trigger] b[j] == 13 && b[j + 1] == 10),
        },
    decreases b.len(),
{
    if b.len() >= 2 && !(b[0] == 13 && b[1] == 10) {
        lemma_find_crlf_bounds(b.drop_first());
        match spec_find_crlf(b.drop_first()) {
            Some(i) => {
                assert(b.drop_first()[i] == b[i + 1]);
                assert(b.drop_first()[i + 1] == b[i + 2]);
                assert forall|j: int| 0 <= j < i + 1 implies !(#[trigger] b[j] == 13 && b[j + 1]
                    == 10) by {
                    if j > 0 {
                        assert(b.drop_first()[j - 1] == b[j]);
                        assert(b.drop_first()[j] == b[j + 1]);
                    }
                }
            },
            None => {
                assert forall|j: int| 0 <= j && j + 1 < b.len() implies !(#[trigger] b[j] == 13
                    && b[j + 1] == 10) by {
                    if j > 0 {
                        assert(b.drop_first()[j - 1] == b[j]);
                        assert(b.drop_first()[j] == b[j + 1]);
                    }
                }
            },
        }
    }
}

/// Where no CRLF pair starts before `i` and one starts at `i`, the search
/// finds exactly `i`.
pub proof fn lemma_find_crlf_at(b: Seq<u8>, i: int)
    requires
        0 <= i,
        i + 2 <= b.len(),
        b[i] == 13,
        b[i + 1] == 10,
        forall|j: int| 0 <= j < i ==> !(#[trigger] b[j] == 13 && b[j + 1] == 10),
    ensures
        spec_find_crlf(b) == Some(i),
    decreases i,
{
    if i > 0 {
        assert(!(b[0] == 13 && b[1] == 10));
        assert(forall|j: int|
            0 <= j < i - 1 ==> #[trigger] b.drop_first()[j] == b[j + 1] && b.drop_first()[j + 1]
                == b[j + 2]);
        assert(b.drop_first()[i - 1] == b[i]);
        assert(b.drop_first()[i] == b[i + 1]);
        lemma_find_crlf_at(b.drop_first(), i - 1);
    }
}

/// The content length that a header line leaves behind: a valid
/// `Content-Length` header replaces it, anything else keeps it.
pub open spec fn spec_cl_value(line: Seq<u8>, cl: nat) -> nat {
    if spec_starts_with_bytes(line, spec_header_name()) {
        let t = spec_trim(line.skip(spec_header_name().len() as int));
        if spec_is_digits(t) && t.len() > 0 && spec_dec_val(t) <= u64::MAX as nat {
            spec_dec_val(t)
        } else {
            cl
        }
    } else {
        cl
    }
}

/// One decoding step over a buffer: the payload of the first complete
/// frame and how many bytes it occupied, or nothing while the frame is
/// still incomplete.
pub open spec fn spec_decode(b: Seq<u8>, cl: nat) -> Option<(Seq<u8>, int)>
    decreases b.len(),
{
    match spec_find_crlf(b) {
        None => None,
        Some(i) => {
            if i < 0 || i + 2 > b.len() {
                None
            } else {
                let line = b.take(i);
                let rest = b.skip(i + 2);
                if spec_is_blank(line) && line.len() >= 0 {
                    if cl == 0 {
                        spec_shift(spec_decode(rest, 0), i + 2)
                    } else if rest.len() >= cl {
                        Some((rest.take(cl as int), i + 2 + cl))
                    } else {
                        None
                    }
                } else {
                    spec_shift(spec_decode(rest, spec_cl_value(line, cl)), i + 2)
                }
            }
        },
    }
}

pub open spec fn spec_shift(r: Option<(Seq<u8>, int)>, d: int) -> Option<(Seq<u8>, int)> {
    match r {
        Some((p, c)) => Some((p, c + d)),
        None => None,
    }
}

fn find_crlf(b: &[u8]) -> (r: Option<usize>)
    ensures
        match r {
            Some(i) => spec_find_crlf(b@) == Some(i as int),
            None => spec_find_crlf(b@) is None,
        },
{
    let n = b.len();
    if n < 2 {
        proof {
            lemma_find_crlf_bounds(b@);
        }
        return None;
    }
    let mut j: usize = 0;
    while j + 1 < n
        invariant
            n == b@.len(),
            2 <= n,
            j + 1 <= n,
            forall|k: int| 0 <= k < j ==> !(#[trigger] b@[k] == 13 && b@[k + 1] == 10),
        decreases n - j,
    {
        if b[j] == 13 && b[j + 1] == 10 {
            proof {
                lemma_find_crlf_at(b@, j as int);
            }
            return Some(j);
        }
        j += 1;
    }
    proof {
        lemma_find_crlf_bounds(b@);
    }
    None
}

fn is_blank_slice(b: &[u8]) -> (r: bool)
    ensures
        r == spec_is_blank(b@),
{
    let n = b.len();
    let mut j: usize = 0;
    while j < n
        invariant
            n == b@.len(),
            j <= n,
            forall|k: int| 0 <= k < j ==> spec_is_ws(#[trigger] b@[k]),
        decreases n - j,
    {
        let c = b[j];
        if !(c == 32 || c == 9) {
            proof {
                assert(!spec_is_ws(b@[j as int]));
            }
            return false;
        }
        j += 1;
    }
    true
}

/// Dropping each leading blank in turn reaches the blank-free suffix.
proof fn lemma_trim_front_skip(s: Seq<u8>, k: int)
    requires
        0 <= k <= s.len(),
        forall|j: int| 0 <= j < k ==> spec_is_ws(#[trigger] s[j]),
        k < s.len() ==> !spec_is_ws(s[k]),
    ensures
        spec_trim_front(s) == s.skip(k),
    decreases k,
{
    if k == 0 {
        assert(s.skip(0) =~= s);
    } else {
        assert(spec_is_ws(s[0]));
        assert(forall|j: int|
            0 <= j < k - 1 ==> #[trigger] s.drop_first()[j] == s[j + 1]);
        if k < s.len() {
            assert(s.drop_first()[k - 1] == s[k]);
        }
        lemma_trim_front_skip(s.drop_first(), k - 1);
        assert(s.drop_first().skip(k - 1) =~= s.skip(k));
    }
}

/// Dropping each trailing blank in turn reaches the blank-free prefix.
proof fn lemma_trim_back_take(s: Seq<u8>, k: int)
    requires
        0 <= k <= s.len(),
        forall|j: int| k <= j < s.len() ==> spec_is_ws(#[trigger] s[j]),
        k > 0 ==> !spec_is_ws(s[k - 1]),
    ensures
        spec_trim_back(s) == s.take(k),
    decreases s.len() - k,
{
    if k == s.len() {
        assert(s.take(k) =~= s);
    } else {
        assert(spec_is_ws(s[s.len() - 1]));
        assert(forall|j: int|
            0 <= j < s.len() - 1 ==> #[trigger] s.drop_last()[j] == s[j]);
        lemma_trim_back_take(s.drop_last(), k);
        assert(s.drop_last().take(k) =~= s.take(k));
    }
}

/// The bounds of the blank-trimmed middle of a line.
fn trim_bounds(b: &[u8]) -> (r: (usize, usize))
    ensures
        r.0 <= r.1 <= b@.len(),
        spec_trim(b@) == b@.subrange(r.0 as int, r.1 as int),
{
    let n = b.len();
    let mut lo: usize = 0;
    while lo < n && (b[lo] == 32 || b[lo] == 9)
        invariant
            n == b@.len(),
            lo <= n,
            forall|j: int| 0 <= j < lo ==> spec_is_ws(#[trigger] b@[j]),
        decreases n - lo,
    {
        lo += 1;
    }
    proof {
        lemma_trim_front_skip(b@, lo as int);
    }
    let mut hi: usize = n;
    while hi > lo && (b[hi - 1] == 32 || b[hi - 1] == 9)
        invariant
            lo <= hi <= n,
            n == b@.len(),
            forall|j: int| 0 <= j < lo ==> spec_is_ws(#[trigger] b@[j]),
            forall|j: int| hi <= j < n ==> spec_is_ws(#[trigger] b@[j]),
        decreases hi,
    {
        hi -= 1;
    }
    proof {
        let tail = b@.skip(lo as int);
        assert(forall|j: int|
            0 <= j < tail.len() ==> #[trigger] tail[j] == b@[j + lo]);
        lemma_trim_back_take(tail, hi - lo);
        assert(tail.take(hi - lo) =~= b@.subrange(lo as int, hi as int));
    }
    (lo, hi)
}

/// Reads a header line: a valid `Content-Length` header yields its value,
/// anything else keeps the current one.
fn content_length_of(line: &[u8], cl: u64) -> (r: u64)
    ensures
        r as nat == spec_cl_value(line@, cl as nat),
{
    let name = header_name_vec();
    if line.len() < name.len() {
        proof {
            assert(!spec_starts_with_bytes(line@, spec_header_name()));
        }
        return cl;
    }
    let mut j: usize = 0;
    while j < name.len()
        invariant
            name@ == spec_header_name(),
            name@.len() <= line@.len(),
            j <= name@.len(),
            forall|k: int| 0 <= k < j ==> #[trigger] line@[k] == name@[k],
        decreases name@.len() - j,
    {
        if line[j] != name[j] {
            proof {
                assert(line@.take(name@.len() as int)[j as int] != name@[j as int]);
            }
            return cl;
        }
        j += 1;
    }
    proof {
        assert(line@.take(name@.len() as int) =~= name@);
    }
    let after = slice_subrange(line, name.len(), line.len());
    let (lo, hi) = trim_bounds(after);
    let t = slice_subrange(after, lo, hi);
    proof {
        assert(t@ == spec_trim(line@.skip(spec_header_name().len() as int)));
    }
    match parse_u64_digits(t) {
        Some(v) => v,
        None => cl,
    }
}

/// An incremental frame decoder: bytes go in as they arrive, complete
/// payloads come out.
pub struct FrameDecoder {
    buf: Vec<u8>,
}

impl FrameDecoder {
    pub closed spec fn spec_buf(&self) -> Seq<u8> {
        self.buf@
    }

    pub fn new() -> (r: Self)
        ensures
            r.spec_buf() == Seq::<u8>::empty(),
    {
        FrameDecoder { buf: Vec::new() }
    }

    /// Appends newly arrived bytes to the buffer.
    pub fn push_bytes(&mut self, data: &[u8])
        ensures
            final(self).spec_buf() == old(self).spec_buf() + data@,
    {
        let mut v = slice_to_vec(data);
        self.buf.append(&mut v);
    }

    /// Takes the first complete frame's payload out of the buffer; leaves
    /// the buffer untouched while the frame is still incomplete.
    pub fn next_frame(&mut self) -> (r: Option<Vec<u8>>)
        ensures
            match spec_decode(old(self).spec_buf(), 0) {
                Some((p, c)) => {
                    &&& r matches Some(v) && v@ == p
                    &&& final(self).spec_buf() == old(self).spec_buf().skip(c)
                    &&& 0 < c <= old(self).spec_buf().len()
                },
                None => r is None && final(self).spec_buf() == old(self).spec_buf(),
            },
    {
        let ghost orig = self.buf@;
        let mut pos: usize = 0;
        let mut cl: u64 = 0;
        proof {
            assert(orig.skip(0) =~= orig);
        }
        loop
            invariant
                orig == old(self).spec_buf(),
                self.buf@ == orig,
                pos <= orig.len(),
                spec_decode(orig, 0) == spec_shift(
                    spec_decode(orig.skip(pos as int), cl as nat),
                    pos as int,
                ),
            decreases orig.len() - pos,
        {
            let rem = slice_subrange(self.buf.as_slice(), pos, self.buf.len());
            proof {
                assert(rem@ =~= orig.skip(pos as int));
            }
            match find_crlf(rem) {
                None => {
                    proof {
                        assert(spec_decode(orig.skip(pos as int), cl as nat) is None);
                    }
                    return None;
                },
                Some(i) => {
                    proof {
                        lemma_find_crlf_bounds(rem@);
                    }
                    let line = slice_subrange(rem, 0, i);
                    proof {
                        assert(line@ =~= rem@.take(i as int));
                        assert(rem@.skip(i + 2) =~= orig.skip(pos + i + 2));
                    }
                    if is_blank_slice(line) {
                        if cl == 0 {
                            pos = pos + i + 2;
                        } else {
                            let after = pos + i + 2;
                            let remaining = self.buf.len() - after;
                            if remaining as u64 >= cl {
                                let cl_us = cl as usize;
                                let payload = slice_to_vec(
                                    slice_subrange(self.buf.as_slice(), after, after + cl_us),
                                );
                                let consumed = after + cl_us;
                                let rest = slice_to_vec(
                                    slice_subrange(self.buf.as_slice(), consumed, self.buf.len()),
                                );
                                proof {
                                    assert(payload@ =~= orig.skip(pos + i + 2).take(cl as int));
                                    assert(rest@ =~= orig.skip(consumed as int));
                                }
                                self.buf = rest;
                                return Some(payload);
                            } else {
                                proof {
                                    assert(orig.skip(pos + i + 2).len() < cl);
                                    assert(spec_decode(orig.skip(pos as int), cl as nat)
                                        is None);
                                }
                                return None;
                            }
                        }
                    } else {
                        cl = content_length_of(line, cl);
                        pos = pos + i + 2;
                    }
                },
            }
        }
    }
}

/// A complete frame around a payload.
pub open spec fn spec_frame(p: Seq<u8>) -> Seq<u8> {
    spec_header_name() + seq![32u8] + spec_udec_u8(p.len()) + seq![13u8, 10u8, 13u8, 10u8] + p
}

/// Wraps a payload in a `Content-Length` header block.
pub fn encode_frame(payload: &[u8]) -> (r: Vec<u8>)
    ensures
        r@ == spec_frame(payload@),
{
    let mut out = header_name_vec();
    out.push(32);
    let mut digits = u64_to_digits(payload.len() as u64);
    out.append(&mut digits);
    out.push(13);
    out.push(10);
    out.push(13);
    out.push(10);
    let mut pv = slice_to_vec(payload);
    out.append(&mut pv);
    proof {
        assert(out@ =~= spec_frame(payload@));
    }
    out
}

/// Framing round trip: a buffer that begins with a complete frame decodes
/// to exactly that frame's payload, consuming exactly the frame, whatever
/// bytes follow it. (A frame around an empty payload is indistinguishable
/// from a stray blank line and is skipped rather than decoded, so the law
/// speaks of non-empty payloads.)
pub proof fn lemma_frame_round_trip(p: Seq<u8>, rest: Seq<u8>)
    requires
        p.len() > 0,
        p.len() <= u64::MAX as nat,
    ensures
        spec_decode(spec_frame(p) + rest, 0) == Some((p, spec_frame(p).len() as int)),
{
    let digits = spec_udec_u8(p.len());
    let name = spec_header_name();
    let hdr = name + seq![32u8] + digits;
    let h = hdr.len() as int;
    let b = spec_frame(p) + rest;
    lemma_udec_u8_digits(p.len());
    lemma_udec_u8_val(p.len());
    assert(b =~= hdr + seq![13u8, 10u8, 13u8, 10u8] + p + rest);
    assert(b.len() == h + 4 + p.len() + rest.len());
    assert(b[h] == 13);
    assert(b[h + 1] == 10);
    assert(b[h + 2] == 13);
    assert(b[h + 3] == 10);
    assert forall|j: int| 0 <= j < h implies !(#[trigger] b[j] == 13 && b[j + 1] == 10) by {
        assert(b[j] == hdr[j]);
        if j < 15 {
            assert(hdr[j] == name[j]);
            assert(name[j] != 13);
        } else if j == 15 {
            assert(hdr[j] == 32);
        } else {
            assert(hdr[j] == digits[j - 16]);
            assert(48 <= digits[j - 16] <= 57);
        }
    }
    lemma_find_crlf_at(b, h);
    let line = b.take(h);
    assert(line =~= hdr);
    assert(line[0] == 67);
    assert(!spec_is_blank(line));
    assert(line.take(15) =~= name);
    assert(spec_starts_with_bytes(line, name));
    let after15 = line.skip(15);
    assert(after15 =~= seq![32u8] + digits);
    assert(spec_is_ws(after15[0]));
    assert(after15.len() > 1 ==> !spec_is_ws(after15[1]));
    lemma_trim_front_skip(after15, 1);
    assert(after15.skip(1) =~= digits);
    assert(digits.len() > 0 ==> !spec_is_ws(digits[digits.len() - 1]));
    lemma_trim_back_take(digits, digits.len() as int);
    assert(digits.take(digits.len() as int) =~= digits);
    assert(spec_trim(after15) == digits);
    assert(spec_cl_value(line, 0) == p.len());
    let rest1 = b.skip(h + 2);
    assert(rest1 =~= seq![13u8, 10u8] + p + rest);
    assert(rest1[0] == 13);
    assert(rest1[1] == 10);
    lemma_find_crlf_at(rest1, 0);
    let line2 = rest1.take(0);
    assert(line2 =~= Seq::<u8>::empty());
    assert(spec_is_blank(line2));
    let rest2 = rest1.skip(2);
    assert(rest2 =~= p + rest);
    assert(rest2.len() >= p.len());
    assert(rest2.take(p.len() as int) =~= p);
    assert(spec_decode(rest1, p.len()) == Some((p, 2 + p.len() as int)));
    assert(spec_decode(b, 0) == spec_shift(
        spec_decode(rest1, spec_cl_value(line, 0)),
        h + 2,
    ));
    assert(spec_decode(b, 0) == Some((p, h + 4 + p.len() as int)));
    assert(spec_frame(p).len() == h + 4 + p.len());
}

} // verus!
