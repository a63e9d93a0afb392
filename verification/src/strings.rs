//! Small string utilities shared by the modules that build or compare text.
use vstd::prelude::*;
use vstd::string::StringSliceAdditionalSpecFns;
use vstd::utf8::*;

verus! {

broadcast use vstd::string::group_string_axioms;

/// `String::push`.  Claimed: the character is appended at the end, as the
/// documentation states.
#[verifier::external_body]
pub(crate) fn push_char(s: &mut String, c: char)
    ensures
        final(s)@ == old(s)@.push(c),
{
    s.push(c);
}

/// Appends `t` at the end of `s`.
pub fn push_str(s: &mut String, t: &str)
    ensures
        final(s)@ == old(s)@ + t@,
{
    s.append(t);
}

/// A fresh string holding `t`.
pub fn to_owned_string(t: &str) -> (r: String)
    ensures
        r@ == t@,
{
    t.to_owned()
}

/// Whether two strings hold the same characters, decided on their bytes.
pub fn str_equal(a: &str, b: &str) -> (r: bool)
    ensures
        r == (a@ == b@),
{
    broadcast use encode_utf8_decode_utf8;

    let x = a.as_bytes();
    let y = b.as_bytes();
    proof {
        assert(decode_utf8(encode_utf8(a@)) == a@);
        assert(decode_utf8(encode_utf8(b@)) == b@);
    }
    if x.len() != y.len() {
        return false;
    }
    let mut i: usize = 0;
    while i < x.len()
        invariant
            x@ == a.spec_bytes(),
            y@ == b.spec_bytes(),
            x@.len() == y@.len(),
            0 <= i <= x@.len(),
            forall|k: int| 0 <= k < i ==> x@[k] == y@[k],
        decreases x@.len() - i,
    {
        if x[i] != y[i] {
            return false;
        }
        i = i + 1;
    }
    assert(x@ =~= y@);
    true
}

/// Whether `a` begins with all the characters of `p`, decided on their bytes.
pub fn str_starts_with(a: &str, p: &str) -> (r: bool)
    ensures
        r == (p@.len() <= a@.len() && a@.subrange(0, p@.len() as int) == p@),
{
    let ca = chars_of(a);
    let cp = chars_of(p);
    if cp.len() > ca.len() {
        return false;
    }
    let mut i: usize = 0;
    while i < cp.len()
        invariant
            ca@ == a@,
            cp@ == p@,
            cp@.len() <= ca@.len(),
            0 <= i <= cp@.len(),
            forall|k: int| 0 <= k < i ==> ca@[k] == cp@[k],
        decreases cp@.len() - i,
    {
        if ca[i] != cp[i] {
            assert(a@.subrange(0, p@.len() as int)[i as int] != p@[i as int]);
            return false;
        }
        i = i + 1;
    }
    assert(a@.subrange(0, p@.len() as int) =~= p@);
    true
}

/// Whether `w` occurs in `s`.
pub open spec fn contains_word(s: Seq<char>, w: Seq<char>) -> bool {
    exists|i: int| 0 <= i && i + w.len() <= s.len() && #[trigger] s.subrange(i, i + w.len()) == w
}

/// Whether `p` occurs in `a`, decided on their characters.
pub fn str_contains(a: &str, p: &str) -> (r: bool)
    ensures
        r == contains_word(a@, p@),
{
    let ca = chars_of(a);
    let cp = chars_of(p);
    let n = ca.len();
    let m = cp.len();
    if m > n {
        assert forall|i: int| 0 <= i && i + p@.len() <= a@.len() implies #[trigger] a@.subrange(
            i,
            i + p@.len(),
        ) != p@ by {}
        return false;
    }
    let mut i: usize = 0;
    while i <= n - m
        invariant
            ca@ == a@,
            cp@ == p@,
            n == ca@.len(),
            m == cp@.len(),
            m <= n,
            i <= n - m + 1,
            forall|k: int| 0 <= k < i ==> #[trigger] a@.subrange(k, k + m) != p@,
        decreases n - m + 1 - i,
    {
        let mut j: usize = 0;
        while j < m && ca[i + j] == cp[j]
            invariant
                ca@ == a@,
                cp@ == p@,
                n == ca@.len(),
                m == cp@.len(),
                i + m <= n,
                j <= m,
                forall|t: int| 0 <= t < j ==> ca@[i + t] == cp@[t],
            decreases m - j,
        {
            j = j + 1;
        }
        if j == m {
            assert(a@.subrange(i as int, i + m) =~= p@);
            return true;
        }
        assert(a@.subrange(i as int, i + m)[j as int] != p@[j as int]);
        i = i + 1;
    }
    assert forall|k: int| 0 <= k && k + p@.len() <= a@.len() implies #[trigger] a@.subrange(
        k,
        k + p@.len(),
    ) != p@ by {
        assert(k < i);
    }
    false
}

/// `char::from_u32`.  Claimed: on a Unicode scalar value it returns the
/// character with that value, as its documentation states.
#[verifier::external_body]
pub(crate) fn char_from_scalar(v: u32) -> (c: char)
    requires
        is_scalar(v),
    ensures
        c as u32 == v,
{
    char::from_u32(v).unwrap()
}

/// The character that valid UTF-8 `bytes[pos..end]` begins with, and the
/// number of bytes it takes.
pub fn decode_at(bytes: &[u8], pos: usize, end: usize) -> (res: (char, usize))
    requires
        pos < end <= bytes@.len(),
        valid_utf8(bytes@.subrange(pos as int, end as int)),
    ensures
        ({
            let r = bytes@.subrange(pos as int, end as int);
            &&& res.0 == decode_first_scalar(r) as char
            &&& res.1 == length_of_first_scalar(r)
            &&& 1 <= res.1 <= end - pos
            &&& valid_utf8(pop_first_scalar(r))
        }),
{
    let ghost r = bytes@.subrange(pos as int, end as int);
    assert(valid_first_scalar(r));
    let b0 = bytes[pos];
    assert(b0 == r[0]);
    if b0 <= 0x7f {
        let v: u32 = (b0 & 0x7f) as u32;
        assert(v <= 0x7f) by (bit_vector)
            requires
                v == (b0 & 0x7f) as u32,
        ;
        let c = char_from_scalar(v);
        proof {
            char_u32_cast(c, v);
        }
        (c, 1)
    } else if b0 >= 0xc0 && b0 <= 0xdf {
        let b1 = bytes[pos + 1];
        assert(b1 == r[1]);
        let v: u32 = (((b0 & 0x1f) as u32) << 6) | ((b1 & 0x3f) as u32);
        assert(v <= 0x7ff) by (bit_vector)
            requires
                v == (((b0 & 0x1f) as u32) << 6) | ((b1 & 0x3f) as u32),
        ;
        let c = char_from_scalar(v);
        proof {
            char_u32_cast(c, v);
        }
        (c, 2)
    } else if b0 >= 0xe0 && b0 <= 0xef {
        let b1 = bytes[pos + 1];
        let b2 = bytes[pos + 2];
        assert(b1 == r[1] && b2 == r[2]);
        let v: u32 = (((b0 & 0x0f) as u32) << 12) | (((b1 & 0x3f) as u32) << 6) | ((b2
            & 0x3f) as u32);
        assert(v <= 0xffff) by (bit_vector)
            requires
                v == (((b0 & 0x0f) as u32) << 12) | (((b1 & 0x3f) as u32) << 6) | ((b2
                    & 0x3f) as u32),
        ;
        let c = char_from_scalar(v);
        proof {
            char_u32_cast(c, v);
        }
        (c, 3)
    } else {
        let b1 = bytes[pos + 1];
        let b2 = bytes[pos + 2];
        let b3 = bytes[pos + 3];
        assert(b1 == r[1] && b2 == r[2] && b3 == r[3]);
        let v: u32 = (((b0 & 0x07) as u32) << 18) | (((b1 & 0x3f) as u32) << 12) | (((b2
            & 0x3f) as u32) << 6) | ((b3 & 0x3f) as u32);
        let c = char_from_scalar(v);
        proof {
            char_u32_cast(c, v);
        }
        (c, 4)
    }
}

/// The characters of `s`, one by one.
pub fn chars_of(s: &str) -> (v: Vec<char>)
    ensures
        v@ == s@,
{
    broadcast use encode_utf8_valid_utf8, encode_utf8_decode_utf8;

    let bytes = s.as_bytes();
    let n = bytes.len();
    let ghost b = bytes@;
    assert(b.subrange(0, n as int) =~= b);
    assert(decode_utf8(b) == s@);
    let mut v: Vec<char> = Vec::new();
    let mut pos: usize = 0;
    while pos < n
        invariant
            bytes@ == b,
            n == b.len(),
            pos <= n,
            valid_utf8(b.subrange(pos as int, n as int)),
            v@ + decode_utf8(b.subrange(pos as int, n as int)) == s@,
        decreases n - pos,
    {
        let (c, w) = decode_at(bytes, pos, n);
        proof {
            let r = b.subrange(pos as int, n as int);
            assert(pop_first_scalar(r) =~= b.subrange(pos + w, n as int));
            assert(decode_utf8(r) == seq![c] + decode_utf8(pop_first_scalar(r)));
            assert(v@.push(c) + decode_utf8(b.subrange(pos + w, n as int)) =~= v@ + decode_utf8(
                r,
            ));
        }
        v.push(c);
        pos = pos + w;
    }
    assert(b.subrange(n as int, n as int) =~= Seq::<u8>::empty());
    assert(decode_utf8(Seq::<u8>::empty()) =~= Seq::<char>::empty());
    assert(v@ + Seq::<char>::empty() =~= v@);
    v
}

/// The texts of a sequence of strings.
pub open spec fn string_views(v: Seq<String>) -> Seq<Seq<char>> {
    Seq::new(v.len(), |i: int| v[i]@)
}

/// The decimal digit character for `d < 10`.
pub open spec fn digit_char(d: nat) -> char {
    if d == 0 {
        '0'
    } else if d == 1 {
        '1'
    } else if d == 2 {
        '2'
    } else if d == 3 {
        '3'
    } else if d == 4 {
        '4'
    } else if d == 5 {
        '5'
    } else if d == 6 {
        '6'
    } else if d == 7 {
        '7'
    } else if d == 8 {
        '8'
    } else {
        '9'
    }
}

/// The decimal notation of `n`, without leading zeros.
pub open spec fn decimal(n: nat) -> Seq<char>
    decreases n,
{
    if n < 10 {
        seq![digit_char(n)]
    } else {
        decimal(n / 10).push(digit_char(n % 10))
    }
}

fn digit(d: u64) -> (c: char)
    requires
        d < 10,
    ensures
        c == digit_char(d as nat),
{
    if d == 0 {
        '0'
    } else if d == 1 {
        '1'
    } else if d == 2 {
        '2'
    } else if d == 3 {
        '3'
    } else if d == 4 {
        '4'
    } else if d == 5 {
        '5'
    } else if d == 6 {
        '6'
    } else if d == 7 {
        '7'
    } else if d == 8 {
        '8'
    } else {
        '9'
    }
}

/// Appends the decimal notation of `n`.
pub fn push_decimal(out: &mut String, n: u64)
    ensures
        final(out)@ == old(out)@ + decimal(n as nat),
    decreases n,
{
    if n < 10 {
        push_char(out, digit(n));
    } else {
        push_decimal(out, n / 10);
        push_char(out, digit(n % 10));
    }
}

} // verus!
