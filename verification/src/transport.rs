//! The base protocol of the language server protocol: every message is a
//! `Content-Length` header, a blank line, and that many bytes of JSON.
//!
//! Writing a message is `format_message`.  Reading one is a loop over header
//! lines; `header_step` decides, for each line, whether to keep reading
//! headers, read a body of some length, or give up.
use vstd::prelude::*;
use vstd::string::StringSliceAdditionalSpecFns;
use vstd::utf8::encode_utf8;
use crate::rpc::{rpc_text, RpcMessage};
use crate::strings::{chars_of, decimal, digit_char, push_char, push_decimal, push_str, str_equal};

verus! {

broadcast use vstd::string::group_string_axioms;

pub open spec fn content_length_label() -> Seq<char> {
    seq!['C', 'o', 'n', 't', 'e', 'n', 't', '-', 'L', 'e', 'n', 'g', 't', 'h', ':', ' ']
}

pub open spec fn crlf() -> Seq<char> {
    seq!['\r', '\n']
}

/// The header line announcing a body of `n` bytes.
pub open spec fn header_line(n: nat) -> Seq<char> {
    content_length_label() + decimal(n) + crlf()
}

/// The framed message: header (with the body's length in UTF-8 bytes),
/// blank line, body.
pub open spec fn framed(body: Seq<char>) -> Seq<char> {
    header_line(encode_utf8(body).len()) + crlf() + body
}

/// Frames `msg` for the wire: `Content-Length: <bytes>\r\n\r\n<msg>`.
pub fn format_message(msg: &str) -> (r: String)
    ensures
        r@ == framed(msg@),
{
    proof {
        reveal_strlit("Content-Length: ");
        assert("Content-Length: "@ =~= content_length_label());
    }
    let n = msg.as_bytes().len() as u64;
    assert(n as nat == msg.spec_bytes().len());
    let mut out = String::new();
    push_str(&mut out, "Content-Length: ");
    assert(out@ =~= content_length_label());
    push_decimal(&mut out, n);
    push_char(&mut out, '\r');
    push_char(&mut out, '\n');
    assert(out@ =~= header_line(n as nat));
    push_char(&mut out, '\r');
    push_char(&mut out, '\n');
    assert(out@ =~= header_line(n as nat) + crlf());
    push_str(&mut out, msg);
    out
}

/// The framed compact JSON text of a message, as it is written to a peer.
pub fn frame_message(msg: &RpcMessage) -> (r: String)
    ensures
        r@ == framed(rpc_text(msg@)),
{
    let body = msg.to_json_string();
    format_message(body.as_str())
}

// ---------------------------------------------------------------------------
// Reading headers
/// Unicode `White_Space`: the characters `char::is_whitespace` accepts.
pub open spec fn is_unicode_whitespace(c: char) -> bool {
    let v = c as u32;
    (0x9 <= v <= 0xd) || v == 0x20 || v == 0x85 || v == 0xa0 || v == 0x1680 || (0x2000 <= v
        <= 0x200a) || v == 0x2028 || v == 0x2029 || v == 0x202f || v == 0x205f || v == 0x3000
}

/// Whether `c` is Unicode white space.
pub fn char_is_whitespace(c: char) -> (r: bool)
    ensures
        r == is_unicode_whitespace(c),
{
    let v = c as u32;
    (0x9 <= v && v <= 0xd) || v == 0x20 || v == 0x85 || v == 0xa0 || v == 0x1680 || (0x2000 <= v
        && v <= 0x200a) || v == 0x2028 || v == 0x2029 || v == 0x202f || v == 0x205f || v == 0x3000
}

pub open spec fn is_prefix_of(p: Seq<char>, s: Seq<char>) -> bool {
    p.len() <= s.len() && s.subrange(0, p.len() as int) == p
}

/// `str::trim_start_matches` with a non-empty literal pattern: every leading
/// repetition of `p` removed.
pub open spec fn strip_prefixes(s: Seq<char>, p: Seq<char>) -> Seq<char>
    decreases s.len(),
{
    if p.len() > 0 && is_prefix_of(p, s) {
        strip_prefixes(s.subrange(p.len() as int, s.len() as int), p)
    } else {
        s
    }
}

pub open spec fn trim_front(s: Seq<char>) -> Seq<char>
    decreases s.len(),
{
    if s.len() > 0 && is_unicode_whitespace(s[0]) {
        trim_front(s.drop_first())
    } else {
        s
    }
}

pub open spec fn trim_back(s: Seq<char>) -> Seq<char>
    decreases s.len(),
{
    if s.len() > 0 && is_unicode_whitespace(s.last()) {
        trim_back(s.drop_last())
    } else {
        s
    }
}

/// `str::trim`: white space removed at both ends.
pub open spec fn trimmed(s: Seq<char>) -> Seq<char> {
    trim_back(trim_front(s))
}

pub open spec fn is_digit(c: char) -> bool {
    '0' <= c <= '9'
}

pub open spec fn all_digits(s: Seq<char>) -> bool {
    forall|i: int| 0 <= i < s.len() ==> is_digit(#[trigger] s[i])
}

/// The number a run of decimal digits denotes.
pub open spec fn digits_value(s: Seq<char>) -> nat
    decreases s.len(),
{
    if s.len() == 0 {
        0
    } else {
        digits_value(s.drop_last()) * 10 + ((s.last() as nat) - 48) as nat
    }
}

/// `str::parse::<usize>`: an optional `+` and at least one decimal digit,
/// denoting a number that fits in a `usize`.
pub open spec fn parsed_usize(s: Seq<char>) -> Option<usize> {
    let ds = if s.len() > 1 && s[0] == '+' {
        s.drop_first()
    } else {
        s
    };
    if ds.len() > 0 && all_digits(ds) && digits_value(ds) <= usize::MAX {
        Some(digits_value(ds) as usize)
    } else {
        None
    }
}

/// The length a `Content-Length` header line announces; 0 when it does not
/// parse.
pub open spec fn announced_length(line: Seq<char>) -> usize {
    match parsed_usize(trimmed(strip_prefixes(line, content_length_label()))) {
        Some(n) => n,
        None => 0,
    }
}

/// What to do after reading a header line.
#[derive(Debug, Clone, Copy, PartialEq, Eq)]
pub enum HeaderStep {
    /// Read the next header line, with this body length so far.
    Continue(usize),
    /// The headers are over: read a body of this many bytes.
    Body(usize),
    /// The headers are over and announced no body: there is no message.
    Stop,
}

/// The decision after the header line `line`, with `length` announced so far.
pub open spec fn next_header_step(length: usize, line: Seq<char>) -> HeaderStep {
    if line == crlf() {
        if length == 0 {
            HeaderStep::Stop
        } else {
            HeaderStep::Body(length)
        }
    } else if is_prefix_of(content_length_label(), line) {
        HeaderStep::Continue(announced_length(line))
    } else {
        HeaderStep::Continue(length)
    }
}

/// Whether `p` occurs in `cs` at position `a`.
fn occurs_at(cs: &Vec<char>, a: usize, p: &Vec<char>) -> (r: bool)
    requires
        a <= cs@.len(),
    ensures
        r == is_prefix_of(p@, cs@.subrange(a as int, cs@.len() as int)),
{
    let n = cs.len();
    if p.len() > n - a {
        return false;
    }
    let mut i: usize = 0;
    while i < p.len()
        invariant
            n == cs@.len(),
            a + p@.len() <= cs@.len(),
            0 <= i <= p@.len(),
            forall|k: int| 0 <= k < i ==> cs@[a + k] == p@[k],
        decreases p@.len() - i,
    {
        assert(a + i < cs@.len());
        if cs[a + i] != p[i] {
            assert(cs@.subrange(a as int, cs@.len() as int).subrange(0, p@.len() as int)[i as int]
                != p@[i as int]);
            return false;
        }
        i = i + 1;
    }
    assert(cs@.subrange(a as int, cs@.len() as int).subrange(0, p@.len() as int) =~= p@);
    true
}

/// Parses the digits in `cs[a..b]` as `str::parse::<usize>` would.
fn parse_usize_in(cs: &Vec<char>, a: usize, b: usize) -> (r: Option<usize>)
    requires
        a <= b <= cs@.len(),
    ensures
        r == parsed_usize(cs@.subrange(a as int, b as int)),
{
    let ghost s = cs@.subrange(a as int, b as int);
    assert(b > a ==> s[0] == cs@[a as int]);
    let mut i = a;
    if b - a > 1 && cs[a] == '+' {
        i = a + 1;
    }
    let ghost ds = if s.len() > 1 && s[0] == '+' {
        s.drop_first()
    } else {
        s
    };
    assert(ds =~= cs@.subrange(i as int, b as int));
    if i == b {
        assert(ds.len() == 0);
        return None;
    }
    let start = i;
    let mut v: usize = 0;
    let mut overflow = false;
    while i < b
        invariant
            start <= i <= b <= cs@.len(),
            a <= b,
            s == cs@.subrange(a as int, b as int),
            ds == (if s.len() > 1 && s[0] == '+' {
                s.drop_first()
            } else {
                s
            }),
            ds == cs@.subrange(start as int, b as int),
            all_digits(cs@.subrange(start as int, i as int)),
            !overflow ==> v == digits_value(cs@.subrange(start as int, i as int)),
            overflow ==> digits_value(cs@.subrange(start as int, i as int)) > usize::MAX,
        decreases b - i,
    {
        let c = cs[i];
        let ghost pre = cs@.subrange(start as int, i as int);
        let ghost next = cs@.subrange(start as int, i + 1);
        assert(next.drop_last() =~= pre);
        assert(next.last() == c);
        if !('0' <= c && c <= '9') {
            assert(ds[i - start] == c);
            assert(!is_digit(ds[i - start]));
            assert(!all_digits(ds));
            return None;
        }
        let d = (c as u32 - 48) as usize;
        if !overflow {
            match v.checked_mul(10) {
                Some(m) => match m.checked_add(d) {
                    Some(x) => {
                        v = x;
                    },
                    None => {
                        overflow = true;
                    },
                },
                None => {
                    overflow = true;
                },
            }
        }
        assert(all_digits(next));
        i = i + 1;
    }
    assert(cs@.subrange(start as int, i as int) =~= ds);
    if overflow {
        None
    } else {
        Some(v)
    }
}

/// The index just past the leading repetitions of `label` in `cs`.
fn skip_labels(cs: &Vec<char>, label: &Vec<char>) -> (a: usize)
    requires
        label@.len() > 0,
    ensures
        a <= cs@.len(),
        strip_prefixes(cs@, label@) == cs@.subrange(a as int, cs@.len() as int),
{
    let n = cs.len();
    let mut a: usize = 0;
    assert(cs@.subrange(0, n as int) =~= cs@);
    while occurs_at(cs, a, label)
        invariant
            n == cs@.len(),
            label@.len() > 0,
            a <= n,
            strip_prefixes(cs@, label@) == strip_prefixes(cs@.subrange(a as int, n as int), label@),
        decreases n - a,
    {
        let ghost rest = cs@.subrange(a as int, n as int);
        assert(rest.subrange(label@.len() as int, rest.len() as int) =~= cs@.subrange(
            a + label@.len(),
            n as int,
        ));
        a = a + label.len();
    }
    a
}

/// The bounds of `cs[a..]` with white space trimmed at both ends.
fn trim_span(cs: &Vec<char>, a: usize) -> (r: (usize, usize))
    requires
        a <= cs@.len(),
    ensures
        a <= r.0 <= r.1 <= cs@.len(),
        trimmed(cs@.subrange(a as int, cs@.len() as int)) == cs@.subrange(r.0 as int, r.1 as int),
{
    let n = cs.len();
    let ghost whole = cs@.subrange(a as int, n as int);
    let ghost a0 = a;
    let mut a = a;
    while a < n && char_is_whitespace(cs[a])
        invariant
            n == cs@.len(),
            a0 <= a <= n,
            trim_front(whole) == trim_front(cs@.subrange(a as int, n as int)),
        decreases n - a,
    {
        assert(cs@.subrange(a as int, n as int).drop_first() =~= cs@.subrange(a + 1, n as int));
        a = a + 1;
    }
    let mut b: usize = n;
    while b > a && char_is_whitespace(cs[b - 1])
        invariant
            n == cs@.len(),
            a <= b <= n,
            a0 <= a,
            trim_back(trim_front(whole)) == trim_back(cs@.subrange(a as int, b as int)),
        decreases b - a,
    {
        assert(cs@.subrange(a as int, b as int).drop_last() =~= cs@.subrange(a as int, b - 1));
        b = b - 1;
    }
    (a, b)
}

/// The length a `Content-Length` header line announces, 0 when it does not
/// parse: the label stripped (as often as it repeats), white space trimmed,
/// and the rest read as a `usize`.
pub fn content_length_of(line: &str) -> (r: usize)
    ensures
        r == announced_length(line@),
{
    let cs = chars_of(line);
    let label = chars_of("Content-Length: ");
    proof {
        reveal_strlit("Content-Length: ");
        assert("Content-Length: "@ =~= content_length_label());
    }
    let a = skip_labels(&cs, &label);
    let (x, y) = trim_span(&cs, a);
    match parse_usize_in(&cs, x, y) {
        Some(v) => v,
        None => 0,
    }
}

/// The decision after the header line `line` (as `read_line` returns it,
/// with its line break), with `length` bytes announced so far: a blank line
/// ends the headers, a `Content-Length` line announces a new length, and any
/// other header is skipped.
pub fn header_step(length: usize, line: &str) -> (r: HeaderStep)
    ensures
        r == next_header_step(length, line@),
{
    proof {
        reveal_strlit("\r\n");
        reveal_strlit("Content-Length: ");
        assert("\r\n"@ =~= crlf());
        assert("Content-Length: "@ =~= content_length_label());
    }
    if str_equal(line, "\r\n") {
        if length == 0 {
            HeaderStep::Stop
        } else {
            HeaderStep::Body(length)
        }
    } else if crate::strings::str_starts_with(line, "Content-Length: ") {
        HeaderStep::Continue(content_length_of(line))
    } else {
        HeaderStep::Continue(length)
    }
}

// ---------------------------------------------------------------------------
// Reading back what was written
proof fn lemma_digit_char(d: nat)
    requires
        d < 10,
    ensures
        digit_char(d) as nat == d + 48,
        is_digit(digit_char(d)),
{
}

/// The decimal notation of `n` is a non-empty run of digits denoting `n`.
proof fn lemma_decimal(n: nat)
    ensures
        decimal(n).len() > 0,
        all_digits(decimal(n)),
        digits_value(decimal(n)) == n,
    decreases n,
{
    if n < 10 {
        lemma_digit_char(n);
        assert(decimal(n).drop_last() =~= Seq::<char>::empty());
        assert(digits_value(Seq::<char>::empty()) == 0);
        assert(digits_value(decimal(n)) == 0 * 10 + ((decimal(n).last() as nat) - 48) as nat);
    } else {
        lemma_decimal(n / 10);
        lemma_digit_char(n % 10);
        let d = decimal(n);
        assert(d.drop_last() == decimal(n / 10));
        assert(d.last() == digit_char(n % 10));
        assert((n / 10) * 10 + n % 10 == n) by (nonlinear_arith);
        assert(digits_value(d) == digits_value(decimal(n / 10)) * 10 + ((d.last() as nat) - 48) as nat);
        assert forall|i: int| 0 <= i < d.len() implies is_digit(#[trigger] d[i]) by {
            if i < d.len() - 1 {
                assert(d[i] == decimal(n / 10)[i]);
            }
        }
    }
}

/// A framed body reads back: whatever the headers before it announced, the
/// header line of a framed message announces exactly the body's length in
/// bytes, and the blank line after it asks for a body of that length.  (An
/// empty body is the exception: a blank line after a zero length means that
/// there is no message.)
pub proof fn law_framing_round_trip(body: Seq<char>, earlier: usize)
    requires
        0 < encode_utf8(body).len() <= usize::MAX,
    ensures
        ({
            let n = encode_utf8(body).len();
            &&& framed(body) == header_line(n) + crlf() + body
            &&& next_header_step(earlier, header_line(n)) == HeaderStep::Continue(n as usize)
            &&& next_header_step(n as usize, crlf()) == HeaderStep::Body(n as usize)
        }),
{
    let n = encode_utf8(body).len();
    let line = header_line(n);
    let label = content_length_label();
    let ds = decimal(n);
    lemma_decimal(n);
    assert(line.subrange(0, label.len() as int) =~= label);
    assert(line != crlf()) by {
        assert(line.len() > 2);
    }
    let rest = line.subrange(label.len() as int, line.len() as int);
    assert(rest =~= ds + crlf());
    assert(is_digit(ds[0]));
    assert(rest[0] == ds[0]);
    assert(!is_prefix_of(label, rest)) by {
        if is_prefix_of(label, rest) {
            assert(rest.subrange(0, label.len() as int)[0] == rest[0]);
        }
    }
    assert(strip_prefixes(rest, label) == rest);
    assert(strip_prefixes(line, label) == rest);
    assert(trim_front(rest) == rest);
    let r1 = rest.drop_last();
    let r2 = r1.drop_last();
    assert(r1 =~= ds.push('\r'));
    assert(r2 =~= ds);
    assert(trim_back(ds) == ds) by {
        assert(is_digit(ds.last()));
    }
    assert(trim_back(r1) == trim_back(r2));
    assert(trim_back(rest) == trim_back(r1));
    assert(trimmed(rest) == ds);
    assert(parsed_usize(ds) == Some(n as usize));
    assert(announced_length(line) == n as usize);
}

} // verus!
