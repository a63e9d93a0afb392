//! Ranking the candidate definitions that a `workspace/symbol` query returns.
//!
//! Each candidate symbol with a location gets a score: an exact name match on
//! a type (struct, enum, class, interface: kinds 22, 13, 5, 11) scores 100, on
//! a function or method (12, 6) 90, on anything else 80; a name that starts
//! with the word scores 50 for a type and 40 otherwise; a name that contains
//! the word elsewhere scores 10.  A candidate whose name does not contain the
//! word is left out.  Locations are listed by descending score, candidates with equal
//! scores in the order they came in, and a location equal to one listed earlier
//! is dropped.
use vstd::prelude::*;
use crate::json::{json_equal, model_equiv, model_get, opt_str, opt_u64, views, Json, JsonModel};
use crate::strings::{contains_word, str_contains, str_equal, str_starts_with};

verus! {

broadcast use vstd::string::group_string_axioms;

pub open spec fn key_name() -> Seq<char> {
    seq!['n', 'a', 'm', 'e']
}

pub open spec fn key_kind() -> Seq<char> {
    seq!['k', 'i', 'n', 'd']
}

pub open spec fn key_location() -> Seq<char> {
    seq!['l', 'o', 'c', 'a', 't', 'i', 'o', 'n']
}

/// The symbol's name, empty when it has none.
pub open spec fn sym_name(s: JsonModel) -> Seq<char> {
    match opt_str(model_get(s, key_name())) {
        Some(n) => n,
        None => Seq::empty(),
    }
}

/// The symbol's kind, 0 when it has none.
pub open spec fn sym_kind(s: JsonModel) -> u64 {
    match opt_u64(model_get(s, key_kind())) {
        Some(k) => k,
        None => 0,
    }
}

/// Struct, enum, class or interface.
pub open spec fn is_type_kind(k: u64) -> bool {
    k == 22 || k == 13 || k == 5 || k == 11
}

/// Function or method.
pub open spec fn is_callable_kind(k: u64) -> bool {
    k == 12 || k == 6
}

pub open spec fn is_prefix(p: Seq<char>, s: Seq<char>) -> bool {
    p.len() <= s.len() && s.subrange(0, p.len() as int) == p
}

/// How well a candidate matches the queried word; 0 when its name does not
/// contain the word at all.
pub open spec fn symbol_score(s: JsonModel, word: Seq<char>) -> nat {
    let name = sym_name(s);
    let kind = sym_kind(s);
    if name == word {
        if is_type_kind(kind) {
            100
        } else if is_callable_kind(kind) {
            90
        } else {
            80
        }
    } else if is_prefix(word, name) {
        if is_type_kind(kind) {
            50
        } else {
            40
        }
    } else if contains_word(name, word) {
        10
    } else {
        0
    }
}

/// The locations of the candidates with the given score, in candidate order.
pub open spec fn tier(results: Seq<JsonModel>, word: Seq<char>, score: nat) -> Seq<JsonModel>
    decreases results.len(),
{
    if results.len() == 0 {
        Seq::empty()
    } else {
        let rest = tier(results.drop_last(), word, score);
        let s = results.last();
        match model_get(s, key_location()) {
            Some(loc) => if symbol_score(s, word) == score {
                rest.push(loc)
            } else {
                rest
            },
            None => rest,
        }
    }
}

/// All candidate locations, by descending score; a stable order among equals.
pub open spec fn by_score(results: Seq<JsonModel>, word: Seq<char>) -> Seq<JsonModel> {
    tier(results, word, 100) + tier(results, word, 90) + tier(results, word, 80) + tier(
        results,
        word,
        50,
    ) + tier(results, word, 40) + tier(results, word, 10)
}

/// Whether `d` holds a value equal to `x`.
pub open spec fn has_equal(d: Seq<JsonModel>, x: JsonModel) -> bool {
    exists|i: int| 0 <= i < d.len() && #[trigger] model_equiv(d[i], x)
}

/// The values of `s`, each dropped when an equal one came before it.
pub open spec fn dedup(s: Seq<JsonModel>) -> Seq<JsonModel>
    decreases s.len(),
{
    if s.len() == 0 {
        Seq::empty()
    } else {
        let d = dedup(s.drop_last());
        if has_equal(d, s.last()) {
            d
        } else {
            d.push(s.last())
        }
    }
}

/// The ranked, deduplicated candidate locations for `word`.
pub open spec fn ranked_locations(results: Seq<JsonModel>, word: Seq<char>) -> Seq<JsonModel> {
    dedup(by_score(results, word))
}

fn symbol_score_of(sym: &Json, word: &str) -> (r: u64)
    ensures
        r == symbol_score(sym@, word@),
{
    proof {
        reveal_strlit("name");
        reveal_strlit("kind");
        assert("name"@ =~= key_name());
        assert("kind"@ =~= key_kind());
    }
    let name: &str = match sym.get("name") {
        Some(n) => match n.as_str() {
            Some(s) => s.as_str(),
            None => "",
        },
        None => "",
    };
    proof {
        reveal_strlit("");
        assert(""@ =~= Seq::<char>::empty());
    }
    let kind: u64 = match sym.get("kind") {
        Some(k) => match k.as_u64() {
            Some(v) => v,
            None => 0,
        },
        None => 0,
    };
    assert(sym_name(sym@) == name@);
    assert(sym_kind(sym@) == kind);
    let type_kind = kind == 22 || kind == 13 || kind == 5 || kind == 11;
    if str_equal(name, word) {
        if type_kind {
            100
        } else if kind == 12 || kind == 6 {
            90
        } else {
            80
        }
    } else if str_starts_with(name, word) {
        if type_kind {
            50
        } else {
            40
        }
    } else if str_contains(name, word) {
        10
    } else {
        0
    }
}

/// Appends the locations of the candidates with the given score.
fn append_tier(results: &[Json], word: &str, score: u64, out: &mut Vec<Json>)
    ensures
        views(final(out)@) == views(old(out)@) + tier(views(results@), word@, score as nat),
{
    broadcast use crate::json::group_json_views;

    proof {
        reveal_strlit("location");
        assert("location"@ =~= key_location());
    }
    let ghost start = views(out@);
    let mut i: usize = 0;
    while i < results.len()
        invariant
            0 <= i <= results@.len(),
            views(out@) == start + tier(views(results@).subrange(0, i as int), word@, score as nat),
        decreases results@.len() - i,
    {
        proof {
            crate::json::lemma_views(results@);
            reveal_strlit("location");
            assert("location"@ =~= key_location());
        }
        let sym = &results[i];
        let ghost sub = views(results@).subrange(0, i + 1);
        assert(sub.drop_last() =~= views(results@).subrange(0, i as int));
        assert(sub.last() == sym@);
        let ghost before = views(out@);
        match sym.get("location") {
            Some(loc) => {
                assert(model_get(sub.last(), key_location()) == Some(loc@));
                if symbol_score_of(sym, word) == score {
                    assert(tier(sub, word@, score as nat) == tier(views(results@).subrange(0, i as int), word@, score as nat).push(loc@));
                    let ghost prev = out@;
                    out.push(loc.copy());
                    assert(out@.drop_last() == prev);
                    proof {
                        crate::json::lemma_views(out@);
                        crate::json::lemma_views(prev);
                        assert(views(out@) =~= views(prev).push(loc@));
                    }
                    assert(views(out@) =~= start + tier(sub, word@, score as nat));
                } else {
                    assert(tier(sub, word@, score as nat) == tier(views(results@).subrange(0, i as int), word@, score as nat));
                }
            },
            None => {
                assert(model_get(sub.last(), key_location()) is None);
                assert(tier(sub, word@, score as nat) == tier(views(results@).subrange(0, i as int), word@, score as nat));
            },
        }
        i = i + 1;
    }
    assert(views(results@).subrange(0, results@.len() as int) =~= views(results@));
}

/// Whether `d` holds a value equal to `x`.
fn contains_equal(d: &Vec<Json>, x: &Json) -> (r: bool)
    ensures
        r == has_equal(views(d@), x@),
{
    broadcast use crate::json::group_json_views;

    let mut i: usize = 0;
    proof {
        crate::json::lemma_views(d@);
    }
    while i < d.len()
        invariant
            views(d@).len() == d@.len(),
            forall|k: int| 0 <= k < d@.len() ==> #[trigger] views(d@)[k] == d@[k]@,
            0 <= i <= d@.len(),
            forall|k: int| 0 <= k < i ==> !model_equiv(views(d@)[k], x@),
        decreases d@.len() - i,
    {
        if json_equal(&d[i], x) {
            assert(model_equiv(views(d@)[i as int], x@));
            return true;
        }
        i = i + 1;
    }
    false
}

/// Ranks and deduplicates the candidate locations for `word`.
pub fn rank_symbol_locations(results: &[Json], word: &str) -> (r: Vec<Json>)
    ensures
        views(r@) == ranked_locations(views(results@), word@),
{
    broadcast use crate::json::group_json_views;

    let mut sorted: Vec<Json> = Vec::new();
    append_tier(results, word, 100, &mut sorted);
    append_tier(results, word, 90, &mut sorted);
    append_tier(results, word, 80, &mut sorted);
    append_tier(results, word, 50, &mut sorted);
    append_tier(results, word, 40, &mut sorted);
    append_tier(results, word, 10, &mut sorted);
    assert(views(sorted@) =~= by_score(views(results@), word@));
    let mut out: Vec<Json> = Vec::new();
    let mut i: usize = 0;
    while i < sorted.len()
        invariant
            0 <= i <= sorted@.len(),
            views(out@) == dedup(views(sorted@).subrange(0, i as int)),
        decreases sorted@.len() - i,
    {
        proof {
            crate::json::lemma_views(sorted@);
            crate::json::lemma_views(out@);
        }
        let ghost sub = views(sorted@).subrange(0, i + 1);
        assert(sub.drop_last() =~= views(sorted@).subrange(0, i as int));
        assert(sub.last() == sorted@[i as int]@);
        if !contains_equal(&out, &sorted[i]) {
            let ghost prev = out@;
            out.push(sorted[i].copy());
            assert(out@.drop_last() == prev);
            proof {
                crate::json::lemma_views(out@);
                crate::json::lemma_views(prev);
            }
            assert(views(out@) =~= views(prev).push(sorted@[i as int]@));
        }
        i = i + 1;
    }
    assert(views(sorted@).subrange(0, sorted@.len() as int) =~= views(sorted@));
    out
}

/// The best-ranked candidate location for `word`, if any.
pub fn find_symbol_location(results: &[Json], word: &str) -> (r: Option<Json>)
    ensures
        match r {
            Some(loc) => ranked_locations(views(results@), word@).len() > 0 && loc@
                == ranked_locations(views(results@), word@)[0],
            None => ranked_locations(views(results@), word@).len() == 0,
        },
{
    broadcast use crate::json::group_json_views;

    let ranked = rank_symbol_locations(results, word);
    proof {
        crate::json::lemma_views(ranked@);
    }
    if ranked.len() > 0 {
        Some(ranked[0].copy())
    } else {
        None
    }
}

// ---------------------------------------------------------------------------
// What the ranking keeps
proof fn lemma_dedup_distinct(s: Seq<JsonModel>)
    ensures
        forall|i: int, j: int|
            0 <= i < j < dedup(s).len() ==> !model_equiv(#[trigger] dedup(s)[i], #[trigger] dedup(s)[j]),
    decreases s.len(),
{
    if s.len() > 0 {
        lemma_dedup_distinct(s.drop_last());
        let d = dedup(s.drop_last());
        if !has_equal(d, s.last()) {
            assert forall|i: int, j: int|
                0 <= i < j < dedup(s).len() implies !model_equiv(#[trigger] dedup(s)[i], #[trigger] dedup(s)[j]) by {
                if j < d.len() {
                    assert(dedup(s)[i] == d[i] && dedup(s)[j] == d[j]);
                } else {
                    assert(dedup(s)[i] == d[i] && dedup(s)[j] == s.last());
                    if model_equiv(d[i], s.last()) {
                        assert(has_equal(d, s.last()));
                    }
                }
            }
        }
    }
}

proof fn lemma_dedup_complete(s: Seq<JsonModel>)
    ensures
        forall|k: int| 0 <= k < s.len() ==> has_equal(dedup(s), #[trigger] s[k]),
    decreases s.len(),
{
    if s.len() > 0 {
        let t = s.drop_last();
        lemma_dedup_complete(t);
        let d = dedup(t);
        assert forall|k: int| 0 <= k < s.len() implies has_equal(dedup(s), #[trigger] s[k]) by {
            if k < t.len() {
                assert(s[k] == t[k]);
                assert(has_equal(d, t[k]));
                let i = choose|i: int| 0 <= i < d.len() && #[trigger] model_equiv(d[i], t[k]);
                assert(dedup(s)[i] == d[i]);
            } else if !has_equal(d, s.last()) {
                crate::json::lemma_model_equiv_refl(s.last());
                assert(dedup(s)[d.len() as int] == s.last());
            }
        }
    }
}

proof fn lemma_dedup_sound(s: Seq<JsonModel>)
    ensures
        forall|i: int|
            0 <= i < dedup(s).len() ==> exists|k: int| 0 <= k < s.len() && #[trigger] dedup(s)[i] == s[k],
    decreases s.len(),
{
    if s.len() > 0 {
        let t = s.drop_last();
        lemma_dedup_sound(t);
        let d = dedup(t);
        assert forall|i: int| 0 <= i < dedup(s).len() implies exists|k: int|
            0 <= k < s.len() && #[trigger] dedup(s)[i] == s[k] by {
            if i < d.len() {
                let k = choose|k: int| 0 <= k < t.len() && d[i] == t[k];
                assert(dedup(s)[i] == s[k]);
            } else {
                assert(dedup(s)[i] == s[s.len() - 1]);
            }
        }
    }
}

/// The location of a candidate, if it has one.
pub open spec fn location_of(s: JsonModel) -> Option<JsonModel> {
    model_get(s, key_location())
}

proof fn lemma_tier_complete(results: Seq<JsonModel>, word: Seq<char>, score: nat, k: int)
    requires
        0 <= k < results.len(),
        location_of(results[k]) is Some,
        symbol_score(results[k], word) == score,
    ensures
        exists|j: int|
            0 <= j < tier(results, word, score).len() && #[trigger] tier(results, word, score)[j]
                == location_of(results[k])->0,
    decreases results.len(),
{
    let t = results.drop_last();
    if k < results.len() - 1 {
        assert(results[k] == t[k]);
        lemma_tier_complete(t, word, score, k);
        let j = choose|j: int|
            0 <= j < tier(t, word, score).len() && #[trigger] tier(t, word, score)[j]
                == location_of(t[k])->0;
        assert(tier(results, word, score)[j] == tier(t, word, score)[j]);
    } else {
        assert(tier(results, word, score)[tier(t, word, score).len() as int] == location_of(
            results[k],
        )->0);
    }
}

proof fn lemma_tier_sound(results: Seq<JsonModel>, word: Seq<char>, score: nat)
    ensures
        forall|j: int|
            0 <= j < tier(results, word, score).len() ==> exists|k: int|
                0 <= k < results.len() && symbol_score(results[k], word) == score && location_of(
                    results[k],
                ) == Some(#[trigger] tier(results, word, score)[j]),
    decreases results.len(),
{
    if results.len() > 0 {
        let t = results.drop_last();
        lemma_tier_sound(t, word, score);
        assert forall|j: int| 0 <= j < tier(results, word, score).len() implies exists|k: int|
            0 <= k < results.len() && symbol_score(results[k], word) == score && location_of(
                results[k],
            ) == Some(#[trigger] tier(results, word, score)[j]) by {
            if j < tier(t, word, score).len() {
                let k = choose|k: int|
                    0 <= k < t.len() && symbol_score(t[k], word) == score && location_of(t[k])
                        == Some(tier(t, word, score)[j]);
                assert(results[k] == t[k]);
                assert(tier(results, word, score)[j] == tier(t, word, score)[j]);
            } else {
                assert(location_of(results[results.len() - 1]) == Some(
                    tier(results, word, score)[j],
                ));
            }
        }
    }
}

proof fn lemma_score_values(s: JsonModel, word: Seq<char>)
    ensures
        ({
            let v = symbol_score(s, word);
            v == 100 || v == 90 || v == 80 || v == 50 || v == 40 || v == 10 || v == 0
        }),
{
}

/// No location is listed twice: any two listed locations differ.
pub proof fn law_ranked_locations_distinct(results: Seq<JsonModel>, word: Seq<char>)
    ensures
        forall|i: int, j: int|
            0 <= i < j < ranked_locations(results, word).len() ==> !model_equiv(
                #[trigger] ranked_locations(results, word)[i],
                #[trigger] ranked_locations(results, word)[j],
            ),
{
    lemma_dedup_distinct(by_score(results, word));
}

/// Every candidate that has a location and whose name contains the word gets
/// its location listed (or an equal one).
pub proof fn law_ranked_locations_complete(results: Seq<JsonModel>, word: Seq<char>)
    ensures
        forall|k: int|
            0 <= k < results.len() && (#[trigger] location_of(results[k])) is Some
                && symbol_score(results[k], word) > 0 ==> has_equal(
                ranked_locations(results, word),
                location_of(results[k])->0,
            ),
{
    let b = by_score(results, word);
    lemma_dedup_complete(b);
    assert forall|k: int|
        0 <= k < results.len() && (#[trigger] location_of(results[k])) is Some && symbol_score(
            results[k],
            word,
        ) > 0 implies has_equal(
            ranked_locations(results, word),
            location_of(results[k])->0,
        ) by {
        let sc = symbol_score(results[k], word);
        lemma_score_values(results[k], word);
        lemma_tier_complete(results, word, sc, k);
        let j = choose|j: int|
            0 <= j < tier(results, word, sc).len() && #[trigger] tier(results, word, sc)[j]
                == location_of(results[k])->0;
        let t100 = tier(results, word, 100);
        let t90 = tier(results, word, 90);
        let t80 = tier(results, word, 80);
        let t50 = tier(results, word, 50);
        let t40 = tier(results, word, 40);
        let t10 = tier(results, word, 10);
        let o1 = t100.len() as int;
        let o2 = o1 + t90.len();
        let o3 = o2 + t80.len();
        let o4 = o3 + t50.len();
        let o5 = o4 + t40.len();
        let off: int = if sc == 100 {
            0
        } else if sc == 90 {
            o1
        } else if sc == 80 {
            o2
        } else if sc == 50 {
            o3
        } else if sc == 40 {
            o4
        } else {
            o5
        };
        assert(b[off + j] == location_of(results[k])->0);
        assert(has_equal(dedup(b), b[off + j]));
    }
}

/// Only the locations of candidates whose names contain the word are listed.
pub proof fn law_ranked_locations_sound(results: Seq<JsonModel>, word: Seq<char>)
    ensures
        forall|i: int|
            0 <= i < ranked_locations(results, word).len() ==> exists|k: int|
                0 <= k < results.len() && symbol_score(results[k], word) > 0 && location_of(
                    results[k],
                ) == Some(#[trigger] ranked_locations(results, word)[i]),
{
    let b = by_score(results, word);
    lemma_dedup_sound(b);
    lemma_tier_sound(results, word, 100);
    lemma_tier_sound(results, word, 90);
    lemma_tier_sound(results, word, 80);
    lemma_tier_sound(results, word, 50);
    lemma_tier_sound(results, word, 40);
    lemma_tier_sound(results, word, 10);
    assert forall|i: int| 0 <= i < ranked_locations(results, word).len() implies exists|k: int|
        0 <= k < results.len() && symbol_score(results[k], word) > 0 && location_of(results[k])
            == Some(#[trigger] ranked_locations(results, word)[i]) by {
        let m = choose|m: int| 0 <= m < b.len() && dedup(b)[i] == b[m];
        let t100 = tier(results, word, 100);
        let t90 = tier(results, word, 90);
        let t80 = tier(results, word, 80);
        let t50 = tier(results, word, 50);
        let t40 = tier(results, word, 40);
        let t10 = tier(results, word, 10);
        let o1 = t100.len() as int;
        let o2 = o1 + t90.len();
        let o3 = o2 + t80.len();
        let o4 = o3 + t50.len();
        let o5 = o4 + t40.len();
        if m < o1 {
            assert(b[m] == t100[m]);
        } else if m < o2 {
            assert(b[m] == t90[m - o1]);
        } else if m < o3 {
            assert(b[m] == t80[m - o2]);
        } else if m < o4 {
            assert(b[m] == t50[m - o3]);
        } else if m < o5 {
            assert(b[m] == t40[m - o4]);
        } else {
            assert(b[m] == t10[m - o5]);
        }
    }
}

proof fn lemma_dedup_first(s: Seq<JsonModel>)
    requires
        s.len() > 0,
    ensures
        dedup(s).len() > 0,
        dedup(s)[0] == s[0],
    decreases s.len(),
{
    let t = s.drop_last();
    if t.len() > 0 {
        lemma_dedup_first(t);
        assert(s[0] == t[0]);
    } else {
        assert(dedup(t) =~= Seq::<JsonModel>::empty());
        assert(!has_equal(dedup(t), s.last()));
    }
}

proof fn lemma_dedup_empty(s: Seq<JsonModel>)
    requires
        s.len() == 0,
    ensures
        dedup(s).len() == 0,
{
}

/// The first listed location belongs to a best candidate: to one whose
/// score no other candidate with a location beats.
pub proof fn law_first_ranked_is_best(results: Seq<JsonModel>, word: Seq<char>)
    requires
        ranked_locations(results, word).len() > 0,
    ensures
        exists|k: int|
            0 <= k < results.len() && location_of(results[k]) == Some(
                ranked_locations(results, word)[0],
            ) && forall|m: int|
                0 <= m < results.len() && (#[trigger] location_of(results[m])) is Some
                    ==> symbol_score(results[m], word) <= symbol_score(results[k], word),
{
    let b = by_score(results, word);
    if b.len() == 0 {
        lemma_dedup_empty(b);
    }
    lemma_dedup_first(b);
    let t100 = tier(results, word, 100);
    let t90 = tier(results, word, 90);
    let t80 = tier(results, word, 80);
    let t50 = tier(results, word, 50);
    let t40 = tier(results, word, 40);
    let t10 = tier(results, word, 10);
    lemma_tier_sound(results, word, 100);
    lemma_tier_sound(results, word, 90);
    lemma_tier_sound(results, word, 80);
    lemma_tier_sound(results, word, 50);
    lemma_tier_sound(results, word, 40);
    lemma_tier_sound(results, word, 10);
    let best: nat = if t100.len() > 0 {
        100
    } else if t90.len() > 0 {
        90
    } else if t80.len() > 0 {
        80
    } else if t50.len() > 0 {
        50
    } else if t40.len() > 0 {
        40
    } else {
        10
    };
    let tb = tier(results, word, best);
    assert(tb.len() > 0 && b[0] == tb[0]);
    let k = choose|k: int|
        0 <= k < results.len() && symbol_score(results[k], word) == best && location_of(results[k])
            == Some(tb[0]);
    assert forall|m: int|
        0 <= m < results.len() && (#[trigger] location_of(results[m])) is Some implies symbol_score(
        results[m],
        word,
    ) <= symbol_score(results[k], word) by {
        let sc = symbol_score(results[m], word);
        lemma_score_values(results[m], word);
        if sc > 0 {
            lemma_tier_complete(results, word, sc, m);
        }
    }
}


// ---------------------------------------------------------------------------
// Order among equal scores
proof fn lemma_tier_prefix(results: Seq<JsonModel>, word: Seq<char>, score: nat, n: int)
    requires
        0 <= n <= results.len(),
    ensures
        tier(results.subrange(0, n), word, score).len() <= tier(results, word, score).len(),
        tier(results, word, score).subrange(0, tier(results.subrange(0, n), word, score).len() as int)
            == tier(results.subrange(0, n), word, score),
    decreases results.len(),
{
    let b = tier(results, word, score);
    if n == results.len() {
        assert(results.subrange(0, n) =~= results);
        assert(b.subrange(0, b.len() as int) =~= b);
    } else {
        let t = results.drop_last();
        lemma_tier_prefix(t, word, score, n);
        assert(t.subrange(0, n) =~= results.subrange(0, n));
        let a = tier(t, word, score);
        let c = tier(results.subrange(0, n), word, score);
        assert(b.subrange(0, c.len() as int) =~= a.subrange(0, c.len() as int));
    }
}

proof fn lemma_tier_position(results: Seq<JsonModel>, word: Seq<char>, score: nat, k: int)
    requires
        0 <= k < results.len(),
        location_of(results[k]) is Some,
        symbol_score(results[k], word) == score,
    ensures
        tier(results.subrange(0, k), word, score).len() < tier(results.subrange(0, k + 1), word, score).len(),
        tier(results.subrange(0, k + 1), word, score).len() <= tier(results, word, score).len(),
        tier(results, word, score)[tier(results.subrange(0, k), word, score).len() as int]
            == location_of(results[k])->0,
{
    let s1 = results.subrange(0, k + 1);
    assert(s1.drop_last() =~= results.subrange(0, k));
    assert(s1.last() == results[k]);
    lemma_tier_prefix(results, word, score, k + 1);
    let c = tier(s1, word, score);
    let p = tier(results.subrange(0, k), word, score).len() as int;
    assert(c[p] == location_of(results[k])->0);
    assert(tier(results, word, score).subrange(0, c.len() as int)[p] == c[p]);
}

proof fn lemma_tier_origin(results: Seq<JsonModel>, word: Seq<char>, score: nat, p: int, q: int)
    requires
        0 <= p < q < tier(results, word, score).len(),
    ensures
        exists|k1: int, k2: int|
            0 <= k1 < k2 < results.len() && symbol_score(results[k1], word) == score
                && symbol_score(results[k2], word) == score && location_of(#[trigger] results[k1])
                == Some(tier(results, word, score)[p]) && location_of(#[trigger] results[k2])
                == Some(tier(results, word, score)[q]),
    decreases results.len(),
{
    let t = results.drop_last();
    let a = tier(t, word, score);
    let b = tier(results, word, score);
    if q < a.len() {
        lemma_tier_origin(t, word, score, p, q);
        let (k1, k2) = choose|k1: int, k2: int|
            0 <= k1 < k2 < t.len() && symbol_score(t[k1], word) == score && symbol_score(t[k2], word)
                == score && location_of(#[trigger] t[k1]) == Some(a[p]) && location_of(
                #[trigger] t[k2],
            ) == Some(a[q]);
        assert(results[k1] == t[k1] && results[k2] == t[k2]);
        assert(b[p] == a[p] && b[q] == a[q]);
    } else {
        lemma_tier_sound(t, word, score);
        let k1 = choose|k1: int|
            0 <= k1 < t.len() && symbol_score(t[k1], word) == score && location_of(t[k1]) == Some(
                #[trigger] a[p],
            );
        assert(results[k1] == t[k1]);
        assert(b[p] == a[p]);
        let k2 = results.len() - 1;
        assert(location_of(results[k2]) == Some(b[q]));
    }
}

proof fn lemma_dedup_prefix(s: Seq<JsonModel>, n: int)
    requires
        0 <= n <= s.len(),
    ensures
        dedup(s.subrange(0, n)).len() <= dedup(s).len(),
        dedup(s).subrange(0, dedup(s.subrange(0, n)).len() as int) == dedup(s.subrange(0, n)),
    decreases s.len(),
{
    let b = dedup(s);
    if n == s.len() {
        assert(s.subrange(0, n) =~= s);
        assert(b.subrange(0, b.len() as int) =~= b);
    } else {
        let t = s.drop_last();
        lemma_dedup_prefix(t, n);
        assert(t.subrange(0, n) =~= s.subrange(0, n));
        let a = dedup(t);
        let c = dedup(s.subrange(0, n));
        assert(b.subrange(0, c.len() as int) =~= a.subrange(0, c.len() as int));
    }
}

proof fn lemma_dedup_position(s: Seq<JsonModel>, a: int)
    requires
        0 <= a < s.len(),
        forall|k: int| 0 <= k < a ==> !model_equiv(#[trigger] s[k], s[a]),
    ensures
        dedup(s.subrange(0, a)).len() < dedup(s.subrange(0, a + 1)).len(),
        dedup(s.subrange(0, a + 1)).len() <= dedup(s).len(),
        dedup(s)[dedup(s.subrange(0, a)).len() as int] == s[a],
{
    let t = s.subrange(0, a);
    lemma_dedup_sound(t);
    if has_equal(dedup(t), s[a]) {
        let i = choose|i: int| 0 <= i < dedup(t).len() && #[trigger] model_equiv(dedup(t)[i], s[a]);
        let k = choose|k: int| 0 <= k < t.len() && #[trigger] dedup(t)[i] == t[k];
        assert(t[k] == s[k]);
        assert(false);
    }
    let s1 = s.subrange(0, a + 1);
    assert(s1.drop_last() =~= t);
    assert(s1.last() == s[a]);
    lemma_dedup_prefix(s, a + 1);
    let c = dedup(s1);
    let p = dedup(t).len() as int;
    assert(c[p] == s[a]);
    assert(dedup(s).subrange(0, c.len() as int)[p] == c[p]);
}

/// Where the locations scored `score` begin in `by_score`.
pub open spec fn tier_start(results: Seq<JsonModel>, word: Seq<char>, score: nat) -> int {
    let l100 = tier(results, word, 100).len() as int;
    let l90 = tier(results, word, 90).len() as int;
    let l80 = tier(results, word, 80).len() as int;
    let l50 = tier(results, word, 50).len() as int;
    let l40 = tier(results, word, 40).len() as int;
    if score == 100 {
        0
    } else if score == 90 {
        l100
    } else if score == 80 {
        l100 + l90
    } else if score == 50 {
        l100 + l90 + l80
    } else if score == 40 {
        l100 + l90 + l80 + l50
    } else {
        l100 + l90 + l80 + l50 + l40
    }
}

/// The score of the candidates whose locations stand at position `x` of
/// `by_score`.
pub open spec fn score_at(results: Seq<JsonModel>, word: Seq<char>, x: int) -> nat {
    if x < tier_start(results, word, 90) {
        100
    } else if x < tier_start(results, word, 80) {
        90
    } else if x < tier_start(results, word, 50) {
        80
    } else if x < tier_start(results, word, 40) {
        50
    } else if x < tier_start(results, word, 10) {
        40
    } else {
        10
    }
}

pub open spec fn is_score(v: nat) -> bool {
    v == 100 || v == 90 || v == 80 || v == 50 || v == 40 || v == 10
}

proof fn lemma_by_score_at(results: Seq<JsonModel>, word: Seq<char>, x: int)
    requires
        0 <= x < by_score(results, word).len(),
    ensures
        is_score(score_at(results, word, x)),
        tier_start(results, word, score_at(results, word, x)) <= x,
        x - tier_start(results, word, score_at(results, word, x)) < tier(
            results,
            word,
            score_at(results, word, x),
        ).len(),
        by_score(results, word)[x] == tier(results, word, score_at(results, word, x))[x
            - tier_start(results, word, score_at(results, word, x))],
{
}

proof fn lemma_by_score_in_tier(results: Seq<JsonModel>, word: Seq<char>, score: nat, y: int)
    requires
        is_score(score),
        0 <= y < tier(results, word, score).len(),
    ensures
        0 <= tier_start(results, word, score) + y < by_score(results, word).len(),
        score_at(results, word, tier_start(results, word, score) + y) == score,
        by_score(results, word)[tier_start(results, word, score) + y] == tier(results, word, score)[y],
{
}

/// Whether no other candidate that gets listed has a location equal to that
/// of candidate `c`.
pub open spec fn location_unique(results: Seq<JsonModel>, word: Seq<char>, c: int) -> bool {
    forall|m: int|
        0 <= m < results.len() && m != c && (#[trigger] location_of(results[m])) is Some
            && symbol_score(results[m], word) > 0 ==> !model_equiv(
            location_of(results[m])->0,
            location_of(results[c])->0,
        )
}

proof fn lemma_nothing_equal_before(results: Seq<JsonModel>, word: Seq<char>, c: int, q: int)
    requires
        0 <= c < results.len(),
        location_of(results[c]) is Some,
        location_unique(results, word, c),
        0 <= q < by_score(results, word).len(),
        by_score(results, word)[q] == location_of(results[c])->0,
    ensures
        forall|k: int|
            0 <= k < q ==> !model_equiv(
                #[trigger] by_score(results, word)[k],
                by_score(results, word)[q],
            ),
{
    let b = by_score(results, word);
    let lc = location_of(results[c])->0;
    crate::json::lemma_model_equiv_refl(lc);
    lemma_by_score_at(results, word, q);
    let sq = score_at(results, word, q);
    let stq = tier_start(results, word, sq);
    assert forall|k: int| 0 <= k < q implies !model_equiv(#[trigger] b[k], b[q]) by {
        lemma_by_score_at(results, word, k);
        let sk = score_at(results, word, k);
        let stk = tier_start(results, word, sk);
        if sk == sq {
            lemma_tier_origin(results, word, sk, k - stk, q - stq);
            let (k1, k2) = choose|k1: int, k2: int|
                0 <= k1 < k2 < results.len() && symbol_score(results[k1], word) == sk
                    && symbol_score(results[k2], word) == sk && location_of(#[trigger] results[k1])
                    == Some(tier(results, word, sk)[k - stk]) && location_of(
                    #[trigger] results[k2],
                ) == Some(tier(results, word, sk)[q - stq]);
            if k2 != c {
                assert(location_of(results[k2]) is Some);
                assert(!model_equiv(location_of(results[k2])->0, lc));
                assert(false);
            }
            assert(location_of(results[k1]) is Some);
            assert(k1 != c);
        } else {
            lemma_tier_sound(results, word, sk);
            lemma_tier_sound(results, word, sq);
            let m = choose|m: int|
                0 <= m < results.len() && symbol_score(results[m], word) == sk && location_of(
                    results[m],
                ) == Some(#[trigger] tier(results, word, sk)[k - stk]);
            let mq = choose|mq: int|
                0 <= mq < results.len() && symbol_score(results[mq], word) == sq && location_of(
                    results[mq],
                ) == Some(#[trigger] tier(results, word, sq)[q - stq]);
            if mq != c {
                assert(location_of(results[mq]) is Some);
                assert(!model_equiv(location_of(results[mq])->0, lc));
                assert(false);
            }
            assert(m != c);
            assert(location_of(results[m]) is Some);
        }
    }
}

/// Candidates with equal scores keep the order in which they came: when two
/// candidates score the same and no other listed candidate has a location
/// equal to either of theirs, the earlier one's location is listed before
/// the later one's.
pub proof fn law_equal_scores_keep_order(results: Seq<JsonModel>, word: Seq<char>, i: int, j: int)
    requires
        0 <= i < j < results.len(),
        location_of(results[i]) is Some,
        location_of(results[j]) is Some,
        symbol_score(results[i], word) > 0,
        symbol_score(results[i], word) == symbol_score(results[j], word),
        location_unique(results, word, i),
        location_unique(results, word, j),
    ensures
        exists|p: int, q: int|
            0 <= p < q < ranked_locations(results, word).len() && #[trigger] ranked_locations(
                results,
                word,
            )[p] == location_of(results[i])->0 && #[trigger] ranked_locations(results, word)[q]
                == location_of(results[j])->0,
{
    let sc = symbol_score(results[i], word);
    lemma_score_values(results[i], word);
    assert(is_score(sc));
    lemma_tier_position(results, word, sc, i);
    lemma_tier_position(results, word, sc, j);
    let sj = results.subrange(0, j);
    lemma_tier_prefix(sj, word, sc, i + 1);
    assert(sj.subrange(0, i + 1) =~= results.subrange(0, i + 1));
    let yi = tier(results.subrange(0, i), word, sc).len() as int;
    let yj = tier(sj, word, sc).len() as int;
    assert(yi < yj);
    let st = tier_start(results, word, sc);
    lemma_by_score_in_tier(results, word, sc, yi);
    lemma_by_score_in_tier(results, word, sc, yj);
    let b = by_score(results, word);
    let xi = st + yi;
    let xj = st + yj;
    lemma_nothing_equal_before(results, word, i, xi);
    lemma_nothing_equal_before(results, word, j, xj);
    lemma_dedup_position(b, xi);
    lemma_dedup_position(b, xj);
    let bj = b.subrange(0, xj);
    lemma_dedup_prefix(bj, xi + 1);
    assert(bj.subrange(0, xi + 1) =~= b.subrange(0, xi + 1));
    let p = dedup(b.subrange(0, xi)).len() as int;
    let q = dedup(bj).len() as int;
    assert(p < q);
    assert(ranked_locations(results, word)[p] == location_of(results[i])->0);
    assert(ranked_locations(results, word)[q] == location_of(results[j])->0);
}

/// How a candidate named `name` of kind `kind` scores for `word`: an exact
/// match scores 100 on a struct, enum, class or interface (kinds 22, 13, 5,
/// 11), 90 on a function or method (12, 6) and 80 otherwise; a name that
/// starts with the word scores 50 on a struct, enum, class or interface and
/// 40 otherwise; a name holding the word elsewhere scores 10, and any other
/// name 0.
pub proof fn law_symbol_scores(s: JsonModel, word: Seq<char>, name: Seq<char>, kind: u64)
    requires
        model_get(s, "name"@) == Some(JsonModel::Str(name)),
        model_get(s, "kind"@) == Some(JsonModel::PosInt(kind)),
    ensures
        name == word ==> symbol_score(s, word) == (if kind == 22 || kind == 13 || kind == 5 || kind
            == 11 {
            100nat
        } else if kind == 12 || kind == 6 {
            90nat
        } else {
            80nat
        }),
        name != word && word.len() <= name.len() && name.subrange(0, word.len() as int) == word
            ==> symbol_score(s, word) == (if kind == 22 || kind == 13 || kind == 5 || kind == 11 {
            50nat
        } else {
            40nat
        }),
        !(word.len() <= name.len() && name.subrange(0, word.len() as int) == word) && (exists|i: int|
            0 <= i && i + word.len() <= name.len() && #[trigger] name.subrange(i, i + word.len())
                == word) ==> symbol_score(s, word) == 10,
        (forall|i: int|
            0 <= i && i + word.len() <= name.len() ==> #[trigger] name.subrange(i, i + word.len())
                != word) ==> symbol_score(s, word) == 0,
{
    reveal_strlit("name");
    reveal_strlit("kind");
    assert("name"@ =~= key_name());
    assert("kind"@ =~= key_kind());
    assert(sym_name(s) == name);
    assert(sym_kind(s) == kind);
    if name == word {
        assert(name.subrange(0, word.len() as int) =~= word);
    }
    if word.len() <= name.len() {
        let z: int = 0;
        assert(name.subrange(z, z + word.len()) == name.subrange(0, word.len() as int));
    }
}

/// A candidate that scores higher is listed before one that scores lower,
/// whatever their order among the candidates, as long as no other listed
/// candidate has a location equal to either of theirs.
pub proof fn law_higher_score_listed_first(results: Seq<JsonModel>, word: Seq<char>, i: int, j: int)
    requires
        0 <= i < results.len(),
        0 <= j < results.len(),
        location_of(results[i]) is Some,
        location_of(results[j]) is Some,
        symbol_score(results[i], word) > symbol_score(results[j], word),
        symbol_score(results[j], word) > 0,
        location_unique(results, word, i),
        location_unique(results, word, j),
    ensures
        exists|p: int, q: int|
            0 <= p < q < ranked_locations(results, word).len() && #[trigger] ranked_locations(
                results,
                word,
            )[p] == location_of(results[i])->0 && #[trigger] ranked_locations(results, word)[q]
                == location_of(results[j])->0,
{
    let si = symbol_score(results[i], word);
    let sj = symbol_score(results[j], word);
    lemma_score_values(results[i], word);
    lemma_score_values(results[j], word);
    assert(is_score(si) && is_score(sj));
    lemma_tier_position(results, word, si, i);
    lemma_tier_position(results, word, sj, j);
    let yi = tier(results.subrange(0, i), word, si).len() as int;
    let yj = tier(results.subrange(0, j), word, sj).len() as int;
    lemma_by_score_in_tier(results, word, si, yi);
    lemma_by_score_in_tier(results, word, sj, yj);
    let b = by_score(results, word);
    let xi = tier_start(results, word, si) + yi;
    let xj = tier_start(results, word, sj) + yj;
    assert(tier_start(results, word, si) + tier(results, word, si).len() <= tier_start(results, word, sj));
    assert(xi < xj);
    lemma_nothing_equal_before(results, word, i, xi);
    lemma_nothing_equal_before(results, word, j, xj);
    lemma_dedup_position(b, xi);
    lemma_dedup_position(b, xj);
    let bj = b.subrange(0, xj);
    lemma_dedup_prefix(bj, xi + 1);
    assert(bj.subrange(0, xi + 1) =~= b.subrange(0, xi + 1));
    let p = dedup(b.subrange(0, xi)).len() as int;
    let q = dedup(bj).len() as int;
    assert(p < q);
    assert(ranked_locations(results, word)[p] == location_of(results[i])->0);
    assert(ranked_locations(results, word)[q] == location_of(results[j])->0);
}

} // verus!
