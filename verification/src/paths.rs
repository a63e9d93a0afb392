//! Joining file-system paths held as text, with `/` as the separator.
use vstd::prelude::*;
use crate::strings::{chars_of, push_char, push_str, to_owned_string};

verus! {

broadcast use vstd::string::group_string_axioms;

/// `Path::join` on Unix: an absolute `child` replaces `base`; otherwise
/// `child` is appended, with a `/` between the two unless `base` is empty or
/// already ends with one.
pub open spec fn joined(base: Seq<char>, child: Seq<char>) -> Seq<char> {
    if child.len() > 0 && child[0] == '/' {
        child
    } else if base.len() == 0 || base.last() == '/' {
        base + child
    } else {
        base + seq!['/'] + child
    }
}

/// Joins `child` onto `base` as `Path::join` does on Unix.
pub fn join_path(base: &str, child: &str) -> (r: String)
    ensures
        r@ == joined(base@, child@),
{
    let b = chars_of(base);
    let c = chars_of(child);
    if c.len() > 0 && c[0] == '/' {
        return to_owned_string(child);
    }
    let mut out = to_owned_string(base);
    if b.len() > 0 && b[b.len() - 1] != '/' {
        push_char(&mut out, '/');
    }
    push_str(&mut out, child);
    out
}

} // verus!
