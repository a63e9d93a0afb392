//! Picking one definition among the candidates of a `workspace/symbol` answer.
//!
//! Three passes over the candidates, each taking the first candidate that has
//! a location: first an exact name match on a type (struct, enum, class,
//! interface), then any exact name match, and finally the very first
//! candidate, whatever its name.
use vstd::prelude::*;
use crate::json::{model_get, opt_str, views, Json, JsonModel};
use crate::ranking::{is_type_kind, key_location, key_name, sym_kind};
use crate::strings::str_equal;

verus! {

broadcast use vstd::string::group_string_axioms;

/// Whether the candidate is named exactly `word` (and, when `typed`, is a type).
pub open spec fn name_matches(s: JsonModel, word: Seq<char>, typed: bool) -> bool {
    opt_str(model_get(s, key_name())) == Some(word) && (typed ==> is_type_kind(sym_kind(s)))
}

/// The location of the first candidate that matches and has a location.
pub open spec fn first_match_location(xs: Seq<JsonModel>, word: Seq<char>, typed: bool) -> Option<
    JsonModel,
>
    decreases xs.len(),
{
    if xs.len() == 0 {
        None
    } else if name_matches(xs[0], word, typed) && model_get(xs[0], key_location()) is Some {
        model_get(xs[0], key_location())
    } else {
        first_match_location(xs.drop_first(), word, typed)
    }
}

/// The location chosen for `word` among the candidates `xs`.
pub open spec fn chosen_location(xs: Seq<JsonModel>, word: Seq<char>) -> Option<JsonModel> {
    match first_match_location(xs, word, true) {
        Some(l) => Some(l),
        None => match first_match_location(xs, word, false) {
            Some(l) => Some(l),
            None => if xs.len() > 0 {
                model_get(xs[0], key_location())
            } else {
                None
            },
        },
    }
}

/// Whether the candidate matches; the same test as `name_matches`.
fn matches_word(sym: &Json, word: &str, typed: bool) -> (r: bool)
    ensures
        r == name_matches(sym@, word@, typed),
{
    proof {
        reveal_strlit("name");
        reveal_strlit("kind");
        assert("name"@ =~= key_name());
        assert("kind"@ =~= crate::ranking::key_kind());
    }
    let name_ok = match sym.get("name") {
        Some(n) => match n.as_str() {
            Some(s) => str_equal(s.as_str(), word),
            None => false,
        },
        None => false,
    };
    if !name_ok {
        return false;
    }
    if !typed {
        return true;
    }
    match sym.get("kind") {
        Some(k) => match k.as_u64() {
            Some(kind) => kind == 22 || kind == 13 || kind == 5 || kind == 11,
            None => false,
        },
        None => false,
    }
}

/// One pass: the location of the first matching candidate that has one.
fn first_match(results: &[Json], word: &str, typed: bool) -> (r: Option<Json>)
    ensures
        crate::json::opt_view(r) == first_match_location(views(results@), word@, typed),
{
    broadcast use crate::json::group_json_views;

    proof {
        reveal_strlit("location");
        assert("location"@ =~= key_location());
    }
    let ghost all = views(results@);
    assert(all.subrange(0, all.len() as int) =~= all);
    let mut i: usize = 0;
    while i < results.len()
        invariant
            0 <= i <= results@.len(),
            all == views(results@),
            all.len() == results@.len(),
            first_match_location(all, word@, typed) == first_match_location(
                all.subrange(i as int, all.len() as int),
                word@,
                typed,
            ),
        decreases results@.len() - i,
    {
        proof {
            crate::json::lemma_views(results@);
            reveal_strlit("location");
            assert("location"@ =~= key_location());
        }
        let ghost rest = all.subrange(i as int, all.len() as int);
        assert(rest[0] == results@[i as int]@);
        assert(rest.drop_first() =~= all.subrange(i + 1, all.len() as int));
        let sym = &results[i];
        if matches_word(sym, word, typed) {
            match sym.get("location") {
                Some(loc) => {
                    return Some(loc.copy());
                },
                None => {},
            }
        }
        i = i + 1;
    }
    assert(all.subrange(i as int, all.len() as int) =~= Seq::<JsonModel>::empty());
    None
}

/// The definition location for `word`: the first type named `word`, else the
/// first candidate named `word`, else the first candidate; in each pass only
/// candidates with a location count, and the last pass looks at the first
/// candidate alone.
pub fn find_symbol_location(results: &[Json], word: &str) -> (r: Option<Json>)
    ensures
        crate::json::opt_view(r) == chosen_location(views(results@), word@),
{
    broadcast use crate::json::group_json_views;

    proof {
        reveal_strlit("location");
        assert("location"@ =~= key_location());
    }
    let typed = first_match(results, word, true);
    if typed.is_some() {
        return typed;
    }
    let named = first_match(results, word, false);
    if named.is_some() {
        return named;
    }
    if results.len() > 0 {
        proof {
            crate::json::lemma_views(results@);
        }
        match results[0].get("location") {
            Some(loc) => Some(loc.copy()),
            None => None,
        }
    } else {
        None
    }
}

/// The location of the first candidate that matches, `None` when that
/// candidate has no location or none matches.
pub open spec fn first_match_stop(xs: Seq<JsonModel>, word: Seq<char>, typed: bool) -> Option<
    JsonModel,
>
    decreases xs.len(),
{
    if xs.len() == 0 {
        None
    } else if name_matches(xs[0], word, typed) {
        model_get(xs[0], key_location())
    } else {
        first_match_stop(xs.drop_first(), word, typed)
    }
}

/// The location the proxy answers a definition request with: the location of
/// the first type named `word`; failing that, of the first candidate named
/// `word`; failing that, of the first candidate.  Each pass stops at its
/// first match, whether or not that candidate has a location.
pub open spec fn answered_location(xs: Seq<JsonModel>, word: Seq<char>) -> Option<JsonModel> {
    match first_match_stop(xs, word, true) {
        Some(l) => Some(l),
        None => match first_match_stop(xs, word, false) {
            Some(l) => Some(l),
            None => if xs.len() > 0 {
                model_get(xs[0], key_location())
            } else {
                None
            },
        },
    }
}

/// One pass that stops at the first matching candidate.
fn first_match_stopping(results: &[Json], word: &str, typed: bool) -> (r: Option<Json>)
    ensures
        crate::json::opt_view(r) == first_match_stop(views(results@), word@, typed),
{
    broadcast use crate::json::group_json_views;

    proof {
        reveal_strlit("location");
        assert("location"@ =~= key_location());
    }
    let ghost all = views(results@);
    assert(all.subrange(0, all.len() as int) =~= all);
    let mut i: usize = 0;
    while i < results.len()
        invariant
            0 <= i <= results@.len(),
            all == views(results@),
            all.len() == results@.len(),
            first_match_stop(all, word@, typed) == first_match_stop(
                all.subrange(i as int, all.len() as int),
                word@,
                typed,
            ),
        decreases results@.len() - i,
    {
        proof {
            crate::json::lemma_views(results@);
            reveal_strlit("location");
            assert("location"@ =~= key_location());
        }
        let ghost rest = all.subrange(i as int, all.len() as int);
        assert(rest[0] == results@[i as int]@);
        assert(rest.drop_first() =~= all.subrange(i + 1, all.len() as int));
        let sym = &results[i];
        if matches_word(sym, word, typed) {
            return match sym.get("location") {
                Some(loc) => Some(loc.copy()),
                None => None,
            };
        }
        i = i + 1;
    }
    assert(all.subrange(i as int, all.len() as int) =~= Seq::<JsonModel>::empty());
    None
}

/// The location the proxy answers a definition request for `word` with
/// (see `answered_location`).
pub fn answered_symbol_location(results: &[Json], word: &str) -> (r: Option<Json>)
    ensures
        crate::json::opt_view(r) == answered_location(views(results@), word@),
{
    broadcast use crate::json::group_json_views;

    proof {
        reveal_strlit("location");
        assert("location"@ =~= key_location());
    }
    let typed = first_match_stopping(results, word, true);
    if typed.is_some() {
        return typed;
    }
    let named = first_match_stopping(results, word, false);
    if named.is_some() {
        return named;
    }
    if results.len() > 0 {
        proof {
            crate::json::lemma_views(results@);
        }
        match results[0].get("location") {
            Some(loc) => Some(loc.copy()),
            None => None,
        }
    } else {
        None
    }
}

/// Whether the candidate is named exactly `word` and its kind is a struct,
/// enum, class or interface (22, 13, 5 or 11), read off its members.
pub open spec fn named_type(s: JsonModel, word: Seq<char>) -> bool {
    &&& model_get(s, "name"@) == Some(JsonModel::Str(word))
    &&& (model_get(s, "kind"@) == Some(JsonModel::PosInt(22)) || model_get(s, "kind"@) == Some(
        JsonModel::PosInt(13),
    ) || model_get(s, "kind"@) == Some(JsonModel::PosInt(5)) || model_get(s, "kind"@) == Some(
        JsonModel::PosInt(11),
    ))
}

proof fn lemma_named_type(s: JsonModel, word: Seq<char>)
    ensures
        named_type(s, word) == name_matches(s, word, true),
{
    reveal_strlit("name");
    reveal_strlit("kind");
    assert("name"@ =~= key_name());
    assert("kind"@ =~= crate::ranking::key_kind());
}

proof fn lemma_first_located_type(xs: Seq<JsonModel>, word: Seq<char>, i: int)
    requires
        0 <= i < xs.len(),
        named_type(xs[i], word),
        model_get(xs[i], key_location()) is Some,
        forall|j: int|
            0 <= j < i ==> !(named_type(#[trigger] xs[j], word) && model_get(xs[j], key_location()) is Some),
    ensures
        first_match_location(xs, word, true) == model_get(xs[i], key_location()),
    decreases i,
{
    lemma_named_type(xs[0], word);
    if i > 0 {
        let t = xs.drop_first();
        assert forall|j: int| 0 <= j < i - 1 implies !(named_type(#[trigger] t[j], word) && model_get(
            t[j],
            key_location(),
        ) is Some) by {
            assert(t[j] == xs[j + 1]);
        }
        assert(t[i - 1] == xs[i]);
        lemma_first_located_type(t, word, i - 1);
    }
}

proof fn lemma_first_type_stops(xs: Seq<JsonModel>, word: Seq<char>, i: int)
    requires
        0 <= i < xs.len(),
        named_type(xs[i], word),
        forall|j: int| 0 <= j < i ==> !named_type(#[trigger] xs[j], word),
    ensures
        first_match_stop(xs, word, true) == model_get(xs[i], key_location()),
    decreases i,
{
    lemma_named_type(xs[0], word);
    if i > 0 {
        let t = xs.drop_first();
        assert forall|j: int| 0 <= j < i - 1 implies !named_type(#[trigger] t[j], word) by {
            assert(t[j] == xs[j + 1]);
        }
        assert(t[i - 1] == xs[i]);
        lemma_first_type_stops(t, word, i - 1);
    }
}

/// A type named exactly the word wins: when some candidate with a location
/// is named the word and is a struct, enum, class or interface (kind 22, 13,
/// 5 or 11), the chosen location is that of the first such candidate,
/// whatever comes before it.
pub proof fn law_first_named_type_chosen(xs: Seq<JsonModel>, word: Seq<char>, i: int)
    requires
        0 <= i < xs.len(),
        named_type(xs[i], word),
        model_get(xs[i], "location"@) is Some,
        forall|j: int|
            0 <= j < i ==> !(named_type(#[trigger] xs[j], word) && model_get(xs[j], "location"@) is Some),
    ensures
        chosen_location(xs, word) == model_get(xs[i], "location"@),
{
    reveal_strlit("location");
    assert("location"@ =~= key_location());
    lemma_first_located_type(xs, word, i);
}

/// The proxy's answer prefers a type named exactly the word: when the first
/// candidate named the word that is a struct, enum, class or interface (kind
/// 22, 13, 5 or 11) has a location, the answer is that location, whatever
/// comes before it.
pub proof fn law_first_named_type_answered(xs: Seq<JsonModel>, word: Seq<char>, i: int)
    requires
        0 <= i < xs.len(),
        named_type(xs[i], word),
        model_get(xs[i], "location"@) is Some,
        forall|j: int| 0 <= j < i ==> !named_type(#[trigger] xs[j], word),
    ensures
        answered_location(xs, word) == model_get(xs[i], "location"@),
{
    reveal_strlit("location");
    assert("location"@ =~= key_location());
    lemma_first_type_stops(xs, word, i);
}

} // verus!
