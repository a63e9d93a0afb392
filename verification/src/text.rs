//! Finding the identifier under a cursor.
//!
//! Positions follow the LSP convention used by the proxy: a zero-based line
//! number and a byte offset into that line.  Lines are the pieces that
//! `str::lines` yields: the text is cut after every `\n`, the `\n` is dropped,
//! and a `\r` right before a dropped `\n` is dropped too.
use vstd::prelude::*;
use vstd::string::StringSliceAdditionalSpecFns;
use vstd::utf8::*;
use crate::strings::decode_at;

verus! {

broadcast use vstd::string::group_string_axioms;

/// Whether `c` is alphanumeric in the sense of Unicode (the `Alphabetic` or
/// `Numeric` properties), as `char::is_alphanumeric` decides it.
pub uninterp spec fn unicode_alphanumeric(c: char) -> bool;

/// Whether `c` is an ASCII letter or digit: `A`..=`Z`, `a`..=`z`, `0`..=`9`.
pub open spec fn ascii_alphanumeric(c: char) -> bool {
    ('A' <= c <= 'Z') || ('a' <= c <= 'z') || ('0' <= c <= '9')
}

/// `char::is_alphanumeric`, which its documentation defines as the Unicode
/// `Alphabetic` property or a numeric general category.  Claimed: the result
/// is `unicode_alphanumeric(c)`, a fixed function of the character (the
/// Unicode tables of the standard library); within ASCII those properties
/// hold of the letters and digits alone.  Which other characters qualify is
/// not stated.
#[verifier::external_body]
pub(crate) fn char_is_alphanumeric(c: char) -> (r: bool)
    ensures
        r == unicode_alphanumeric(c),
        (c as u32) < 128 ==> (r <==> ascii_alphanumeric(c)),
{
    c.is_alphanumeric()
}

/// `String::from_utf8`.  Claimed: it succeeds exactly on valid UTF-8 and the
/// string it returns holds exactly the given bytes.
#[verifier::external_body]
fn string_from_utf8(v: Vec<u8>) -> (r: Option<String>)
    ensures
        r is Some <==> valid_utf8(v@),
        r matches Some(s) ==> encode_utf8(s@) == v@,
{
    String::from_utf8(v).ok()
}

/// Characters that may be part of an identifier under the cursor: the
/// alphanumeric ones and `_`.
pub open spec fn is_word_char(c: char) -> bool {
    if (c as u32) < 128 {
        ascii_alphanumeric(c) || c == '_'
    } else {
        unicode_alphanumeric(c)
    }
}

/// The index of the first `\n` at or after `i`, or `b.len()` when there is none
/// (and `i` itself when `i` is already past the end).
pub open spec fn newline_index(b: Seq<u8>, i: int) -> int
    decreases b.len() - i,
{
    if i < 0 || i >= b.len() {
        i
    } else if b[i] == 10 {
        i
    } else {
        newline_index(b, i + 1)
    }
}

/// The byte index at which line `n` starts.
pub open spec fn line_start(b: Seq<u8>, n: nat) -> int
    decreases n,
{
    if n == 0 {
        0
    } else {
        newline_index(b, line_start(b, (n - 1) as nat)) + 1
    }
}

/// The byte index at which the line starting at `s` ends: its `\n` or the end
/// of the text, one byte earlier when a `\r` stands right before that `\n`.
pub open spec fn line_end(b: Seq<u8>, s: int) -> int {
    let e = newline_index(b, s);
    if e < b.len() && e > s && b[e - 1] == 13 {
        e - 1
    } else {
        e
    }
}

/// The bytes of line `n` of the text, if the text has that many lines.
pub open spec fn line_bytes(b: Seq<u8>, n: nat) -> Option<Seq<u8>> {
    let s = line_start(b, n);
    if s < b.len() {
        Some(b.subrange(s, line_end(b, s)))
    } else {
        None
    }
}

/// Start of the word that ends at `i`: walks back over word characters as long
/// as the byte before the current position starts a character.  A character
/// that starts at `i - 1` and ends at the character boundary `i` is the single
/// byte `l[i - 1]`.
pub open spec fn scan_back(l: Seq<u8>, i: int) -> int
    decreases i,
{
    if 0 < i <= l.len() && is_char_boundary(l, i - 1) && is_word_char(l[i - 1] as char) {
        scan_back(l, i - 1)
    } else {
        i
    }
}

/// End of the word that starts at `i`: walks forward over word characters,
/// decoding one UTF-8 character at a time.
pub open spec fn scan_fwd(l: Seq<u8>, i: int) -> int
    decreases l.len() - i,
{
    if 0 <= i < l.len() {
        let rest = l.subrange(i, l.len() as int);
        let k = length_of_first_scalar(rest);
        if i + k <= l.len() && is_word_char(decode_first_scalar(rest) as char) {
            scan_fwd(l, i + k)
        } else {
            i
        }
    } else {
        i
    }
}

/// The bytes of the word around byte `col` of line `line`, if there is one.
pub open spec fn word_bytes_at(b: Seq<u8>, line: nat, col: int) -> Option<Seq<u8>> {
    match line_bytes(b, line) {
        None => None,
        Some(l) => if col > l.len() {
            None
        } else {
            let st = scan_back(l, col);
            let en = scan_fwd(l, col);
            if st < en {
                Some(l.subrange(st, en))
            } else {
                None
            }
        },
    }
}

/// The inputs on which the lookup is defined: a column inside an existing line
/// must fall on a character boundary (slicing a line elsewhere panics).
pub open spec fn position_supported(b: Seq<u8>, line: nat, col: int) -> bool {
    match line_bytes(b, line) {
        None => true,
        Some(l) => col > l.len() || is_char_boundary(l, col),
    }
}

proof fn lemma_newline_index_bounds(b: Seq<u8>, i: int)
    ensures
        newline_index(b, i) >= i,
        0 <= i <= b.len() ==> newline_index(b, i) <= b.len(),
        0 <= i && newline_index(b, i) < b.len() ==> b[newline_index(b, i)] == 10,
    decreases b.len() - i,
{
    if 0 <= i < b.len() && b[i] != 10 {
        lemma_newline_index_bounds(b, i + 1);
    }
}

proof fn lemma_line_start_past_end(b: Seq<u8>, m: nat, j: nat)
    requires
        line_start(b, m) >= b.len(),
    ensures
        line_start(b, m + j) >= b.len(),
    decreases j,
{
    if j > 0 {
        lemma_line_start_past_end(b, m, (j - 1) as nat);
        lemma_newline_index_bounds(b, line_start(b, (m + j - 1) as nat));
    }
}

proof fn lemma_line_start_nonneg(b: Seq<u8>, m: nat)
    ensures
        line_start(b, m) >= 0,
    decreases m,
{
    if m > 0 {
        lemma_line_start_nonneg(b, (m - 1) as nat);
        lemma_newline_index_bounds(b, line_start(b, (m - 1) as nat));
    }
}

/// In valid UTF-8, the bytes after an ASCII byte are valid UTF-8 as well.
proof fn lemma_valid_after_ascii(b: Seq<u8>, i: int)
    requires
        valid_utf8(b),
        0 <= i < b.len(),
        b[i] < 0x80,
    ensures
        valid_utf8(b.subrange(i + 1, b.len() as int)),
{
    broadcast use valid_utf8_split;

    is_char_boundary_iff_not_is_continuation_byte(b, i);
    assert(is_char_boundary(b, i));
    let r = b.subrange(i, b.len() as int);
    assert(valid_utf8(r));
    assert(pop_first_scalar(r) =~= b.subrange(i + 1, b.len() as int));
}

/// A prefix of valid UTF-8 that ends right before an ASCII byte, or at the end,
/// is valid UTF-8.
proof fn lemma_valid_prefix_before_ascii(b: Seq<u8>, j: int)
    requires
        valid_utf8(b),
        0 <= j <= b.len(),
        j < b.len() ==> b[j] < 0x80,
    ensures
        valid_utf8(b.subrange(0, j)),
{
    broadcast use is_char_boundary_iff_not_is_continuation_byte, valid_utf8_split,
        is_char_boundary_start_end_of_seq;

    if j < b.len() {
        is_char_boundary_iff_not_is_continuation_byte(b, j);
        assert(is_char_boundary(b, j));
    } else {
        assert(is_char_boundary(b, j));
    }
}

/// Where line `line` lies in the valid UTF-8 bytes `bytes`: the start and end
/// (line break excluded) of its bytes, if the text has that many lines.
fn locate_line(bytes: &[u8], line: usize) -> (r: Option<(usize, usize)>)
    requires
        valid_utf8(bytes@),
    ensures
        match line_bytes(bytes@, line as nat) {
            None => r is None,
            Some(l) => r matches Some((s, e)) && s <= e <= bytes@.len() && bytes@.subrange(
                s as int,
                e as int,
            ) == l && valid_utf8(l),
        },
{
    let ghost b = bytes@;
    let n = bytes.len();
    assert(b.subrange(0, n as int) =~= b);
    let mut s: usize = 0;
    let mut k: usize = 0;
    while k < line
        invariant
            bytes@ == b,
            n == b.len(),
            k <= line,
            s == line_start(b, k as nat),
            s <= n,
            valid_utf8(b.subrange(s as int, n as int)),
        decreases line - k,
    {
        if s >= n {
            proof {
                lemma_line_start_past_end(b, k as nat, (line - k) as nat);
            }
            return None;
        }
        let e = find_newline(bytes, s);
        proof {
            lemma_newline_index_bounds(b, s as int);
        }
        assert(line_start(b, (k + 1) as nat) == e + 1);
        if e >= n {
            proof {
                lemma_line_start_past_end(b, (k + 1) as nat, (line - k - 1) as nat);
            }
            return None;
        }
        proof {
            let rest = b.subrange(s as int, n as int);
            lemma_valid_after_ascii(rest, e - s);
            assert(rest.subrange(e - s + 1, rest.len() as int) =~= b.subrange(
                e + 1,
                n as int,
            ));
        }
        s = e + 1;
        k = k + 1;
    }
    if s >= n {
        return None;
    }
    let e = find_newline(bytes, s);
    proof {
        lemma_newline_index_bounds(b, s as int);
    }
    let e2 = if e < n && e > s && bytes[e - 1] == 13 {
        e - 1
    } else {
        e
    };
    let ghost l = b.subrange(s as int, e2 as int);
    assert(line_bytes(b, line as nat) == Some(l));
    proof {
        let rest = b.subrange(s as int, n as int);
        lemma_valid_prefix_before_ascii(rest, e2 - s);
        assert(rest.subrange(0, e2 - s) =~= l);
    }
    Some((s, e2))
}

/// Whether `get_word_at_position` is defined on these arguments: the column,
/// when it lies inside an existing line, falls on a character boundary.
pub fn word_lookup_supported(text: &str, line: usize, col: usize) -> (r: bool)
    ensures
        r == position_supported(text.spec_bytes(), line as nat, col as int),
{
    broadcast use encode_utf8_valid_utf8, is_char_boundary_start_end_of_seq;

    let bytes = text.as_bytes();
    let ghost b = bytes@;
    assert(valid_utf8(b));
    match locate_line(bytes, line) {
        None => true,
        Some((s, e)) => {
            let ghost l = b.subrange(s as int, e as int);
            if col >= e - s {
                true
            } else {
                proof {
                    is_char_boundary_iff_not_is_continuation_byte(l, col as int);
                }
                assert(l[col as int] == bytes@[s + col]);
                let byte = bytes[s + col];
                !(0x80 <= byte && byte <= 0xbf)
            }
        },
    }
}

/// The identifier (letters, digits and `_`) around byte `col` of line `line`
/// of `text`, or `None` when the line does not exist, `col` lies past its end,
/// or no word character touches `col`.
pub fn get_word_at_position(text: &str, line: usize, col: usize) -> (r: Option<String>)
    requires
        position_supported(text.spec_bytes(), line as nat, col as int),
    ensures
        match word_bytes_at(text.spec_bytes(), line as nat, col as int) {
            None => r is None,
            Some(w) => r matches Some(s) && encode_utf8(s@) == w,
        },
{
    broadcast use encode_utf8_valid_utf8;

    let bytes = text.as_bytes();
    let ghost b = bytes@;
    let n = bytes.len();
    let (s, e2) = match locate_line(bytes, line) {
        Some(p) => p,
        None => {
            return None;
        },
    };
    let ghost l = b.subrange(s as int, e2 as int);
    let llen = e2 - s;
    if col > llen {
        return None;
    }
    assert(valid_utf8(l));
    assert(is_char_boundary(l, col as int));
    proof {
        broadcast use valid_utf8_split;

        assert(valid_utf8(l.subrange(col as int, llen as int)));
    }
    // Walk back over single-byte word characters.

    let mut st: usize = col;
    loop
        invariant
            b == text.spec_bytes(),
            bytes@ == b,
            l == b.subrange(s as int, e2 as int),
            s + llen == e2,
            e2 <= n == b.len(),
            llen == l.len(),
            col <= llen,
            st <= col,
            valid_utf8(l),
            valid_utf8(l.subrange(st as int, llen as int)),
            valid_utf8(l.subrange(st as int, col as int)),
            scan_back(l, st as int) == scan_back(l, col as int),
        ensures
            st == scan_back(l, col as int),
            valid_utf8(l.subrange(st as int, col as int)),
            valid_utf8(l.subrange(st as int, llen as int)),
        decreases st,
    {
        if st == 0 {
            break;
        }
        let byte = bytes[s + st - 1];
        assert(byte == l[st - 1]);
        if byte >= 0x80 && byte <= 0xbf {
            proof {
                is_char_boundary_iff_not_is_continuation_byte(l, st - 1);
                assert(!is_char_boundary(l, st - 1));
            }
            break;
        }
        let c = byte as char;
        let is_word = char_is_alphanumeric(c) || c == '_';
        proof {
            is_char_boundary_iff_not_is_continuation_byte(l, st - 1);
            assert(is_char_boundary(l, st - 1));
        }
        if !is_word {
            break;
        }
        proof {
            broadcast use valid_utf8_split;

            let whole = l.subrange(st - 1, llen as int);
            assert(valid_utf8(whole));
            assert(valid_first_scalar(whole));
            if byte >= 0x80 {
                // A multi-byte character starting at `st - 1` would make the
                // byte at `st` a continuation byte, which cannot begin valid UTF-8.
                assert(whole[1] == l[st as int]);
                let tail = l.subrange(st as int, llen as int);
                if tail.len() > 0 {
                    assert(valid_first_scalar(tail));
                    assert(tail[0] == l[st as int]);
                }
                assert(false);
            }
            let one = seq![byte];
            reveal_with_fuel(valid_utf8, 2);
            assert(valid_utf8(one)) by {
                assert(pop_first_scalar(one) =~= Seq::<u8>::empty());
            }
            vstd::utf8::valid_utf8_concat(one, l.subrange(st as int, col as int));
            assert(one + l.subrange(st as int, col as int) =~= l.subrange(st - 1, col as int));
        }
        st = st - 1;
    }
    // Walk forward over word characters of any width.

    let mut en: usize = col;
    loop
        invariant
            b == text.spec_bytes(),
            bytes@ == b,
            l == b.subrange(s as int, e2 as int),
            s + llen == e2,
            e2 <= n == b.len(),
            llen == l.len(),
            col <= en <= llen,
            st <= col,
            valid_utf8(l.subrange(st as int, en as int)),
            valid_utf8(l.subrange(en as int, llen as int)),
            scan_fwd(l, en as int) == scan_fwd(l, col as int),
        ensures
            en == scan_fwd(l, col as int),
            valid_utf8(l.subrange(st as int, en as int)),
        decreases llen - en,
    {
        if en >= llen {
            break;
        }
        assert(b.subrange(s + en, s + llen) =~= l.subrange(en as int, llen as int));
        let (c, w) = decode_at(bytes, s + en, s + llen);
        let is_word = char_is_alphanumeric(c) || c == '_';
        if !is_word {
            break;
        }
        proof {
            let r = l.subrange(en as int, llen as int);
            let first = r.subrange(0, w as int);
            reveal_with_fuel(valid_utf8, 2);
            assert(valid_first_scalar(first)) by {
                assert(first[0] == r[0]);
                if w > 1 {
                    assert(first[1] == r[1]);
                }
                if w > 2 {
                    assert(first[2] == r[2]);
                }
                if w > 3 {
                    assert(first[3] == r[3]);
                }
            }
            assert(pop_first_scalar(first) =~= Seq::<u8>::empty());
            assert(valid_utf8(first));
            vstd::utf8::valid_utf8_concat(l.subrange(st as int, en as int), first);
            assert(l.subrange(st as int, en as int) + first =~= l.subrange(
                st as int,
                en + w,
            ));
            assert(pop_first_scalar(r) =~= l.subrange(en + w, llen as int));
        }
        en = en + w;
    }
    if st < en {
        let mut v: Vec<u8> = Vec::new();
        let mut i: usize = s + st;
        while i < s + en
            invariant
                b == text.spec_bytes(),
                bytes@ == b,
                s + st <= i <= s + en,
                s + en <= n == b.len(),
                v@ == b.subrange(s + st, i as int),
            decreases s + en - i,
        {
            v.push(bytes[i]);
            i = i + 1;
            assert(v@ =~= b.subrange(s + st, i as int));
        }
        assert(v@ =~= l.subrange(st as int, en as int));
        string_from_utf8(v)
    } else {
        None
    }
}

proof fn lemma_scan_back_bounds(l: Seq<u8>, i: int)
    requires
        0 <= i <= l.len(),
    ensures
        0 <= scan_back(l, i) <= i,
    decreases i,
{
    if 0 < i <= l.len() && is_char_boundary(l, i - 1) && is_word_char(l[i - 1] as char) {
        lemma_scan_back_bounds(l, i - 1);
    }
}

proof fn lemma_scan_fwd_bounds(l: Seq<u8>, i: int)
    requires
        0 <= i <= l.len(),
    ensures
        i <= scan_fwd(l, i) <= l.len(),
    decreases l.len() - i,
{
    if 0 <= i < l.len() {
        let rest = l.subrange(i, l.len() as int);
        let k = length_of_first_scalar(rest);
        if i + k <= l.len() && is_word_char(decode_first_scalar(rest) as char) {
            lemma_scan_fwd_bounds(l, i + k);
        }
    }
}

/// The word found around a position is a non-empty stretch of its line that
/// reaches from at or before the position to at or after it.
pub proof fn law_word_spans_position(b: Seq<u8>, line: nat, col: int)
    ensures
        match (word_bytes_at(b, line, col), line_bytes(b, line)) {
            (Some(w), Some(l)) => exists|st: int, en: int|
                0 <= st <= col <= en <= l.len() && st < en && w == l.subrange(st, en),
            (Some(_), None) => false,
            (None, _) => true,
        },
{
    match line_bytes(b, line) {
        Some(l) => {
            if 0 <= col <= l.len() {
                lemma_scan_back_bounds(l, col);
                lemma_scan_fwd_bounds(l, col);
                let st = scan_back(l, col);
                let en = scan_fwd(l, col);
                if st < en {
                    assert(word_bytes_at(b, line, col) == Some(l.subrange(st, en)));
                }
            } else if col < 0 {
                assert(scan_back(l, col) == col);
                assert(scan_fwd(l, col) == col);
            }
        },
        None => {},
    }
}

/// The index of the first `\n` at or after `from`, or the length of the text.
fn find_newline(bytes: &[u8], from: usize) -> (r: usize)
    requires
        from <= bytes@.len(),
    ensures
        r == newline_index(bytes@, from as int),
{
    let mut i = from;
    while i < bytes.len()
        invariant
            from <= i <= bytes@.len(),
            newline_index(bytes@, i as int) == newline_index(bytes@, from as int),
        decreases bytes@.len() - i,
    {
        if bytes[i] == 10 {
            return i;
        }
        i = i + 1;
    }
    i
}

} // verus!
