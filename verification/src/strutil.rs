//! Small verified string utilities shared by the rest of the library.

use vstd::prelude::*;

verus! {

use vstd::string::StringSliceAdditionalSpecFns;

/// Equal views have equal encodings.
proof fn lemma_view_eq_bytes_eq(a: &str, b: &str)
    requires
        a@ == b@,
    ensures
        a.spec_bytes() == b.spec_bytes(),
{
}

/// Equal encodings decode to equal views.
proof fn lemma_bytes_eq_view_eq(a: &str, b: &str)
    requires
        a.spec_bytes() == b.spec_bytes(),
    ensures
        a@ == b@,
{
    broadcast use vstd::utf8::encode_utf8_decode_utf8;

    assert(vstd::utf8::decode_utf8(vstd::utf8::encode_utf8(a@)) == a@);
    assert(vstd::utf8::decode_utf8(vstd::utf8::encode_utf8(b@)) == b@);
}

/// Compares two string slices, byte by byte.
pub fn str_eq(a: &str, b: &str) -> (r: bool)
    ensures
        r == (a@ == b@),
{
    let ab = a.as_bytes();
    let bb = b.as_bytes();
    if ab.len() != bb.len() {
        proof {
            if a@ == b@ {
                lemma_view_eq_bytes_eq(a, b);
            }
        }
        return false;
    }
    let n = ab.len();
    let mut i: usize = 0;
    while i < n
        invariant
            n == ab.len() == bb.len(),
            ab@ == a.spec_bytes(),
            bb@ == b.spec_bytes(),
            i <= n,
            forall|j: int| 0 <= j < i ==> ab@[j] == bb@[j],
        decreases n - i,
    {
        if ab[i] != bb[i] {
            proof {
                if a@ == b@ {
                    lemma_view_eq_bytes_eq(a, b);
                }
            }
            return false;
        }
        i += 1;
    }
    proof {
        assert(a.spec_bytes() =~= b.spec_bytes());
        lemma_bytes_eq_view_eq(a, b);
    }
    true
}

/// Relies on String::push: appends one character.
#[verifier::external_body]
pub fn push_char(s: &mut String, c: char)
    ensures
        final(s)@ == old(s)@.push(c),
{
    s.push(c);
}

/// The characters of a string slice, one element each.
pub fn to_char_vec(s: &str) -> (r: Vec<char>)
    ensures
        r@ == s@,
{
    let n = s.unicode_len();
    let mut v: Vec<char> = Vec::new();
    let mut i: usize = 0;
    while i < n
        invariant
            n == s@.len(),
            i <= n,
            v@ == s@.take(i as int),
        decreases n - i,
    {
        v.push(s.get_char(i));
        proof {
            assert(s@.take(i + 1) =~= s@.take(i as int).push(s@[i as int]));
        }
        i += 1;
    }
    proof {
        assert(s@.take(n as int) =~= s@);
    }
    v
}

/// A string holding exactly the given characters.
pub fn from_chars(cs: &Vec<char>) -> (r: String)
    ensures
        r@ == cs@,
{
    let mut s = String::new();
    let mut i: usize = 0;
    while i < cs.len()
        invariant
            i <= cs.len(),
            s@ == cs@.take(i as int),
        decreases cs.len() - i,
    {
        push_char(&mut s, cs[i]);
        proof {
            assert(cs@.take(i + 1) =~= cs@.take(i as int).push(cs@[i as int]));
        }
        i += 1;
    }
    proof {
        assert(cs@.take(cs@.len() as int) =~= cs@);
    }
    s
}

/// The decimal digit character for a value below ten.
pub open spec fn spec_digit(d: nat) -> char {
    ((48 + d) as u8) as char
}

/// The decimal rendering of a natural number, most significant digit first.
pub open spec fn spec_udec(n: nat) -> Seq<char>
    decreases n,
{
    if n < 10 {
        seq![spec_digit(n)]
    } else {
        spec_udec(n / 10).push(spec_digit(n % 10))
    }
}

fn digit_char(d: u8) -> (r: char)
    requires
        d < 10,
    ensures
        r == spec_digit(d as nat),
{
    (48 + d) as char
}

/// Renders a 64-bit value in decimal.
pub fn u64_to_string(n: u64) -> (r: String)
    ensures
        r@ == spec_udec(n as nat),
{
    let mut m: u64 = n;
    let mut rev: Vec<char> = Vec::new();
    while m >= 10
        invariant
            spec_udec(n as nat) =~= spec_udec(m as nat) + rev@.reverse(),
        decreases m,
    {
        let ghost m0 = m as nat;
        let ghost rev0 = rev@;
        let d = (m % 10) as u8;
        rev.push(digit_char(d));
        m = m / 10;
        proof {
            assert(spec_udec(m0) == spec_udec(m0 / 10).push(spec_digit(m0 % 10)));
            assert(rev@.reverse() =~= seq![spec_digit(m0 % 10)] + rev0.reverse());
            assert(spec_udec(m as nat) + rev@.reverse() =~= spec_udec(m0) + rev0.reverse());
        }
    }
    let mut s = String::new();
    push_char(&mut s, digit_char(m as u8));
    proof {
        assert(s@ =~= spec_udec(m as nat));
    }
    let mut i: usize = rev.len();
    while i > 0
        invariant
            i <= rev.len(),
            s@ =~= spec_udec(m as nat) + rev@.skip(i as int).reverse(),
            spec_udec(n as nat) =~= spec_udec(m as nat) + rev@.reverse(),
        decreases i,
    {
        let ghost s0 = s@;
        let ghost i0 = i as int;
        i -= 1;
        push_char(&mut s, rev[i]);
        proof {
            assert(rev@.skip(i0 - 1) =~= seq![rev@[i0 - 1]] + rev@.skip(i0));
            assert(rev@.skip(i0 - 1).reverse() =~= rev@.skip(i0).reverse().push(rev@[i0 - 1]));
            assert(s@ =~= spec_udec(m as nat) + rev@.skip(i0 - 1).reverse());
        }
    }
    proof {
        assert(rev@.skip(0) =~= rev@);
    }
    s
}

/// Whether every byte is an ASCII decimal digit.
pub open spec fn spec_is_digits(s: Seq<u8>) -> bool {
    forall|i: int| 0 <= i < s.len() ==> 48 <= #[trigger] s[i] <= 57
}

/// The value of a digit string, read left to right.
pub open spec fn spec_dec_val(s: Seq<u8>) -> nat
    decreases s.len(),
{
    if s.len() == 0 {
        0
    } else {
        (spec_dec_val(s.drop_last()) * 10 + (s.last() - 48)) as nat
    }
}

/// A digit string's value only grows as digits are appended.
proof fn lemma_dec_val_mono(s: Seq<u8>, j: int)
    requires
        0 <= j <= s.len(),
        spec_is_digits(s),
    ensures
        spec_dec_val(s.take(j)) <= spec_dec_val(s),
    decreases s.len(),
{
    if j < s.len() {
        assert(s.drop_last().take(j) =~= s.take(j));
        lemma_dec_val_mono(s.drop_last(), j);
        assert(spec_dec_val(s.drop_last()) * 10 >= spec_dec_val(s.drop_last()));
    } else {
        assert(s.take(j) =~= s);
    }
}

/// Parses an unsigned decimal number, rejecting anything that is not a
/// digit string or does not fit in 64 bits.
pub fn parse_u64_digits(s: &[u8]) -> (r: Option<u64>)
    ensures
        match r {
            Some(v) => spec_is_digits(s@) && s@.len() > 0 && spec_dec_val(s@) == v as nat,
            None => !(spec_is_digits(s@) && s@.len() > 0 && spec_dec_val(s@) <= u64::MAX as nat),
        },
{
    let n = s.len();
    if n == 0 {
        return None;
    }
    let mut v: u64 = 0;
    let mut i: usize = 0;
    while i < n
        invariant
            n == s@.len(),
            0 < n,
            i <= n,
            spec_is_digits(s@.take(i as int)),
            spec_dec_val(s@.take(i as int)) == v as nat,
        decreases n - i,
    {
        let b = s[i];
        if b < 48 || b > 57 {
            proof {
                assert(!(48 <= s@[i as int] <= 57));
            }
            return None;
        }
        let d = b - 48;
        if v > 1844674407370955161 || (v == 1844674407370955161 && d > 5) {
            proof {
                assert(s@.take(i + 1).drop_last() =~= s@.take(i as int));
                assert(s@.take(i + 1).last() == s@[i as int]);
                assert(spec_dec_val(s@.take(i + 1)) == v as nat * 10 + d);
                assert(spec_dec_val(s@.take(i + 1)) > u64::MAX as nat);
                if spec_is_digits(s@) && spec_dec_val(s@) <= u64::MAX as nat {
                    lemma_dec_val_mono(s@, i + 1);
                }
            }
            return None;
        }
        proof {
            assert(s@.take(i + 1).drop_last() =~= s@.take(i as int));
            assert(s@.take(i + 1).last() == s@[i as int]);
            assert forall|j: int| 0 <= j < i + 1 implies 48 <= #[trigger] s@.take(i + 1)[j]
                <= 57 by {
                if j < i {
                    assert(s@.take(i as int)[j] == s@.take(i + 1)[j]);
                }
            }
        }
        v = v * 10 + d as u64;
        i += 1;
    }
    proof {
        assert(s@.take(n as int) =~= s@);
    }
    Some(v)
}

/// The decimal rendering of a natural number as ASCII bytes.
pub open spec fn spec_udec_u8(n: nat) -> Seq<u8>
    decreases n,
{
    if n < 10 {
        seq![(48 + n) as u8]
    } else {
        spec_udec_u8(n / 10).push((48 + n % 10) as u8)
    }
}

/// A decimal rendering consists of digit bytes only.
pub proof fn lemma_udec_u8_digits(n: nat)
    ensures
        spec_is_digits(spec_udec_u8(n)),
        spec_udec_u8(n).len() > 0,
    decreases n,
{
    if n >= 10 {
        lemma_udec_u8_digits(n / 10);
        assert forall|i: int| 0 <= i < spec_udec_u8(n).len() implies 48 <= #[trigger] spec_udec_u8(
            n,
        )[i] <= 57 by {
            if i < spec_udec_u8(n / 10).len() {
                assert(spec_udec_u8(n)[i] == spec_udec_u8(n / 10)[i]);
            }
        }
    }
}

/// Reading a decimal rendering back gives the number it was made from.
pub proof fn lemma_udec_u8_val(n: nat)
    ensures
        spec_dec_val(spec_udec_u8(n)) == n,
    decreases n,
{
    if n < 10 {
        let s = spec_udec_u8(n);
        assert(s.drop_last() =~= Seq::<u8>::empty());
        assert(((48 + n) as u8) as int == 48 + n);
        assert(spec_dec_val(s) == (spec_dec_val(s.drop_last()) * 10 + (s.last() - 48)) as nat);
    } else {
        lemma_udec_u8_val(n / 10);
        let s = spec_udec_u8(n);
        assert(s.drop_last() =~= spec_udec_u8(n / 10));
        assert(s.last() == (48 + n % 10) as u8);
        assert(((48 + n % 10) as u8) as int == 48 + n % 10);
        assert(spec_dec_val(s) == (spec_dec_val(s.drop_last()) * 10 + (s.last() - 48)) as nat);
        assert(spec_dec_val(s) == ((n / 10) * 10 + n % 10) as nat);
    }
}

/// Renders a 64-bit value in decimal as ASCII bytes.
pub fn u64_to_digits(n: u64) -> (r: Vec<u8>)
    ensures
        r@ == spec_udec_u8(n as nat),
{
    let mut m: u64 = n;
    let mut rev: Vec<u8> = Vec::new();
    while m >= 10
        invariant
            spec_udec_u8(n as nat) =~= spec_udec_u8(m as nat) + rev@.reverse(),
        decreases m,
    {
        let ghost m0 = m as nat;
        let ghost rev0 = rev@;
        let d = (m % 10) as u8;
        rev.push(48 + d);
        m = m / 10;
        proof {
            assert(spec_udec_u8(m0) == spec_udec_u8(m0 / 10).push((48 + m0 % 10) as u8));
            assert(rev@.reverse() =~= seq![(48 + m0 % 10) as u8] + rev0.reverse());
            assert(spec_udec_u8(m as nat) + rev@.reverse() =~= spec_udec_u8(m0) + rev0.reverse());
        }
    }
    let mut out: Vec<u8> = Vec::new();
    out.push(48 + m as u8);
    proof {
        assert(out@ =~= spec_udec_u8(m as nat));
    }
    let mut i: usize = rev.len();
    while i > 0
        invariant
            i <= rev.len(),
            out@ =~= spec_udec_u8(m as nat) + rev@.skip(i as int).reverse(),
            spec_udec_u8(n as nat) =~= spec_udec_u8(m as nat) + rev@.reverse(),
        decreases i,
    {
        let ghost i0 = i as int;
        i -= 1;
        out.push(rev[i]);
        proof {
            assert(rev@.skip(i0 - 1) =~= seq![rev@[i0 - 1]] + rev@.skip(i0));
            assert(rev@.skip(i0 - 1).reverse() =~= rev@.skip(i0).reverse().push(rev@[i0 - 1]));
            assert(out@ =~= spec_udec_u8(m as nat) + rev@.skip(i0 - 1).reverse());
        }
    }
    proof {
        assert(rev@.skip(0) =~= rev@);
    }
    out
}

pub open spec fn spec_starts_with(s: Seq<char>, p: Seq<char>) -> bool {
    s.len() >= p.len() && s.take(p.len() as int) == p
}

pub open spec fn spec_ends_with(s: Seq<char>, p: Seq<char>) -> bool {
    s.len() >= p.len() && s.skip(s.len() - p.len()) == p
}

pub fn str_starts_with(s: &str, p: &str) -> (r: bool)
    ensures
        r == spec_starts_with(s@, p@),
{
    let sn = s.unicode_len();
    let pn = p.unicode_len();
    if sn < pn {
        return false;
    }
    let head = s.substring_char(0, pn);
    proof {
        assert(head@ == s@.subrange(0, pn as int));
        assert(s@.take(pn as int) =~= s@.subrange(0, pn as int));
    }
    str_eq(head, p)
}

pub fn str_ends_with(s: &str, p: &str) -> (r: bool)
    ensures
        r == spec_ends_with(s@, p@),
{
    let sn = s.unicode_len();
    let pn = p.unicode_len();
    if sn < pn {
        return false;
    }
    let tail = s.substring_char(sn - pn, sn);
    proof {
        assert(tail@ == s@.subrange(sn - pn, sn as int));
        assert(s@.skip(sn - pn) =~= s@.subrange(sn - pn, sn as int));
    }
    str_eq(tail, p)
}

/// The rest of `s` after the prefix `p`, when `s` starts with it.
pub fn strip_prefix(s: &str, p: &str) -> (r: Option<String>)
    ensures
        match r {
            Some(t) => spec_starts_with(s@, p@) && t@ == s@.skip(p@.len() as int),
            None => !spec_starts_with(s@, p@),
        },
{
    if !str_starts_with(s, p) {
        return None;
    }
    let sn = s.unicode_len();
    let pn = p.unicode_len();
    let tail = s.substring_char(pn, sn);
    proof {
        assert(tail@ == s@.subrange(pn as int, sn as int));
        assert(s@.skip(pn as int) =~= s@.subrange(pn as int, sn as int));
    }
    Some(tail.to_owned())
}

/// ASCII uppercase letters folded to lowercase; everything else unchanged.
pub open spec fn spec_lower_char(c: char) -> char {
    if 65 <= c as u32 <= 90 {
        (((c as u32) + 32) as u8) as char
    } else {
        c
    }
}

pub open spec fn spec_lower(s: Seq<char>) -> Seq<char> {
    s.map_values(|c: char| spec_lower_char(c))
}

fn lower_char(c: char) -> (r: char)
    ensures
        r == spec_lower_char(c),
{
    let u = c as u32;
    if u >= 65 && u <= 90 {
        ((u + 32) as u8) as char
    } else {
        c
    }
}

/// A copy of the string with ASCII letters lowercased.
pub fn ascii_lowercase(s: &str) -> (r: String)
    ensures
        r@ == spec_lower(s@),
{
    let cs = to_char_vec(s);
    let mut out: Vec<char> = Vec::new();
    let mut i: usize = 0;
    while i < cs.len()
        invariant
            cs@ == s@,
            i <= cs.len(),
            out@ =~= spec_lower(s@.take(i as int)),
        decreases cs.len() - i,
    {
        out.push(lower_char(cs[i]));
        proof {
            assert(out@ =~= spec_lower(s@.take(i + 1)));
        }
        i += 1;
    }
    proof {
        assert(s@.take(s@.len() as int) =~= s@);
    }
    from_chars(&out)
}

} // verus!
