//! JSON values as the language-server messages carry them.
//!
//! `Json` holds what a parsed message holds: numbers keep the integer they
//! denote when they are integers, and a non-integer number keeps the text that
//! serde_json writes for it.  Objects keep their entries in ascending key
//! order (byte-wise), one entry per key, the order in which serde_json's map
//! yields them; the functions here that add entries keep that order.
//!
//! Every value has a mathematical model, `JsonModel`, over which the contracts
//! speak.
use vstd::prelude::*;
use vstd::utf8::encode_utf8;
use crate::strings::{chars_of, str_equal};

verus! {

broadcast use vstd::string::group_string_axioms;

/// A JSON value.
pub enum Json {
    Null,
    Bool(bool),
    /// A non-negative integer.
    PosInt(u64),
    /// A negative integer.
    NegInt(i64),
    /// Any other number, held as the text serde_json writes for it.
    Float(String),
    Str(String),
    Array(Vec<Json>),
    Object(Vec<(String, Json)>),
}

/// The mathematical model of a JSON value.
pub enum JsonModel {
    Null,
    Bool(bool),
    PosInt(u64),
    NegInt(i64),
    Float(Seq<char>),
    Str(Seq<char>),
    Array(Seq<JsonModel>),
    Object(Seq<(Seq<char>, JsonModel)>),
}

pub open spec fn json_view(j: Json) -> JsonModel
    decreases j,
{
    match j {
        Json::Null => JsonModel::Null,
        Json::Bool(b) => JsonModel::Bool(b),
        Json::PosInt(n) => JsonModel::PosInt(n),
        Json::NegInt(n) => JsonModel::NegInt(n),
        Json::Float(t) => JsonModel::Float(t@),
        Json::Str(s) => JsonModel::Str(s@),
        Json::Array(xs) => JsonModel::Array(views(xs@)),
        Json::Object(es) => JsonModel::Object(entry_views(es@)),
    }
}

pub open spec fn views(xs: Seq<Json>) -> Seq<JsonModel>
    decreases xs,
{
    if xs.len() == 0 {
        Seq::empty()
    } else {
        views(xs.drop_last()).push(json_view(xs.last()))
    }
}

pub open spec fn entry_views(es: Seq<(String, Json)>) -> Seq<(Seq<char>, JsonModel)>
    decreases es,
{
    if es.len() == 0 {
        Seq::empty()
    } else {
        entry_views(es.drop_last()).push((es.last().0@, json_view(es.last().1)))
    }
}

impl View for Json {
    type V = JsonModel;

    open spec fn view(&self) -> JsonModel {
        json_view(*self)
    }
}

pub broadcast proof fn lemma_views(xs: Seq<Json>)
    ensures
        #[trigger] views(xs).len() == xs.len(),
        forall|i: int| 0 <= i < xs.len() ==> #[trigger] views(xs)[i] == json_view(xs[i]),
    decreases xs.len(),
{
    if xs.len() > 0 {
        lemma_views(xs.drop_last());
    }
}

pub broadcast proof fn lemma_entry_views(es: Seq<(String, Json)>)
    ensures
        #[trigger] entry_views(es).len() == es.len(),
        forall|i: int|
            0 <= i < es.len() ==> #[trigger] entry_views(es)[i] == (
                es[i].0@,
                json_view(es[i].1),
            ),
    decreases es.len(),
{
    if es.len() > 0 {
        lemma_entry_views(es.drop_last());
    }
}

pub broadcast group group_json_views {
    lemma_views,
    lemma_entry_views,
}


// ---------------------------------------------------------------------------
// Lookups
/// The value stored under `key`, taking the first entry with that key.
pub open spec fn entries_get(es: Seq<(Seq<char>, JsonModel)>, key: Seq<char>) -> Option<JsonModel>
    decreases es.len(),
{
    if es.len() == 0 {
        None
    } else if es[0].0 == key {
        Some(es[0].1)
    } else {
        entries_get(es.drop_first(), key)
    }
}

/// `Value::get` with a string key: the member of an object, `None` for any
/// other value.
pub open spec fn model_get(m: JsonModel, key: Seq<char>) -> Option<JsonModel> {
    match m {
        JsonModel::Object(es) => entries_get(es, key),
        _ => None,
    }
}

/// `Value::get` on an optional value.
pub open spec fn opt_get(m: Option<JsonModel>, key: Seq<char>) -> Option<JsonModel> {
    match m {
        Some(v) => model_get(v, key),
        None => None,
    }
}

/// `Value::as_str`.
pub open spec fn opt_str(m: Option<JsonModel>) -> Option<Seq<char>> {
    match m {
        Some(JsonModel::Str(s)) => Some(s),
        _ => None,
    }
}

/// `Value::as_u64`: only non-negative integers have one.
pub open spec fn opt_u64(m: Option<JsonModel>) -> Option<u64> {
    match m {
        Some(JsonModel::PosInt(n)) => Some(n),
        _ => None,
    }
}

/// `Value::as_array`.
pub open spec fn opt_array(m: Option<JsonModel>) -> Option<Seq<JsonModel>> {
    match m {
        Some(JsonModel::Array(xs)) => Some(xs),
        _ => None,
    }
}

proof fn lemma_entries_get_index(es: Seq<(Seq<char>, JsonModel)>, key: Seq<char>, i: int)
    requires
        0 <= i < es.len(),
        es[i].0 == key,
        forall|k: int| 0 <= k < i ==> es[k].0 != key,
    ensures
        entries_get(es, key) == Some(es[i].1),
    decreases i,
{
    if i > 0 {
        lemma_entries_get_index(es.drop_first(), key, i - 1);
    }
}

proof fn lemma_entries_get_none(es: Seq<(Seq<char>, JsonModel)>, key: Seq<char>)
    requires
        forall|k: int| 0 <= k < es.len() ==> es[k].0 != key,
    ensures
        entries_get(es, key) is None,
    decreases es.len(),
{
    if es.len() > 0 {
        lemma_entries_get_none(es.drop_first(), key);
    }
}

impl Json {
    /// The member stored under `key` when this is an object.
    #[verifier::loop_isolation(false)]
    pub fn get(&self, key: &str) -> (r: Option<&Json>)
        ensures
            match r {
                Some(v) => model_get(self@, key@) == Some(v@),
                None => model_get(self@, key@) is None,
            },
    {
        broadcast use group_json_views;

        match self {
            Json::Object(es) => {
                proof {
                    lemma_entry_views(es@);
                }
                let mut i: usize = 0;
                while i < es.len()
                    invariant
                        *self == Json::Object(*es),
                        0 <= i <= es@.len(),
                        forall|k: int| 0 <= k < i ==> es@[k].0@ != key@,
                    decreases es@.len() - i,
                {
                    if str_equal(es[i].0.as_str(), key) {
                        proof {
                            lemma_entries_get_index(entry_views(es@), key@, i as int);
                        }
                        return Some(&es[i].1);
                    }
                    i = i + 1;
                }
                proof {
                    lemma_entries_get_none(entry_views(es@), key@);
                }
                None
            },
            _ => None,
        }
    }

    /// The text when this is a string.
    pub fn as_str(&self) -> (r: Option<&String>)
        ensures
            match r {
                Some(s) => opt_str(Some(self@)) == Some(s@),
                None => opt_str(Some(self@)) is None,
            },
    {
        match self {
            Json::Str(s) => Some(s),
            _ => None,
        }
    }

    /// The integer when this is a non-negative integer.
    pub fn as_u64(&self) -> (r: Option<u64>)
        ensures
            r == opt_u64(Some(self@)),
    {
        match self {
            Json::PosInt(n) => Some(*n),
            _ => None,
        }
    }

    /// The elements when this is an array.
    pub fn as_array(&self) -> (r: Option<&Vec<Json>>)
        ensures
            match r {
                Some(xs) => opt_array(Some(self@)) == Some(views(xs@)),
                None => opt_array(Some(self@)) is None,
            },
    {
        match self {
            Json::Array(xs) => Some(xs),
            _ => None,
        }
    }

    /// A copy of this value.
    #[verifier::loop_isolation(false)]
    pub fn copy(&self) -> (r: Json)
        ensures
            r@ == self@,
        decreases *self,
    {
        broadcast use group_json_views;

        match self {
            Json::Null => Json::Null,
            Json::Bool(b) => Json::Bool(*b),
            Json::PosInt(n) => Json::PosInt(*n),
            Json::NegInt(n) => Json::NegInt(*n),
            Json::Float(t) => Json::Float(t.clone()),
            Json::Str(s) => Json::Str(s.clone()),
            Json::Array(xs) => {
                let mut out: Vec<Json> = Vec::new();
                let mut i: usize = 0;
                while i < xs.len()
                    invariant
                        *self == Json::Array(*xs),
                        0 <= i <= xs@.len(),
                        views(out@) =~= views(xs@).subrange(0, i as int),
                    decreases xs@.len() - i,
                {
                    assert(decreases_to!(*self => xs@[i as int])) by {
                        assert(decreases_to!(*self => *xs));
                        assert(decreases_to!(*xs => xs@));
                        assert(decreases_to!(xs@ => xs@[i as int]));
                    }
                    let c = xs[i].copy();
                    out.push(c);
                    i = i + 1;
                    proof {
                        lemma_views(out@);
                        lemma_views(xs@);
                        assert(out@.drop_last() =~= out@.subrange(0, out@.len() - 1));
                    }
                }
                proof {
                    lemma_views(xs@);
                    assert(views(xs@).subrange(0, xs@.len() as int) =~= views(xs@));
                }
                Json::Array(out)
            },
            Json::Object(es) => {
                let mut out: Vec<(String, Json)> = Vec::new();
                let mut i: usize = 0;
                while i < es.len()
                    invariant
                        *self == Json::Object(*es),
                        0 <= i <= es@.len(),
                        entry_views(out@) =~= entry_views(es@).subrange(0, i as int),
                    decreases es@.len() - i,
                {
                    assert(decreases_to!(*self => es@[i as int].1)) by {
                        assert(decreases_to!(*self => *es));
                        assert(decreases_to!(*es => es@));
                        assert(decreases_to!(es@ => es@[i as int]));
                        assert(decreases_to!(es@[i as int] => es@[i as int].1));
                    }
                    let k = es[i].0.clone();
                    let v = es[i].1.copy();
                    out.push((k, v));
                    i = i + 1;
                    proof {
                        lemma_entry_views(out@);
                        lemma_entry_views(es@);
                        assert(out@.drop_last() =~= out@.subrange(0, out@.len() - 1));
                    }
                }
                proof {
                    lemma_entry_views(es@);
                    assert(entry_views(es@).subrange(0, es@.len() as int) =~= entry_views(es@));
                }
                Json::Object(out)
            },
        }
    }
}

/// A copy of an optional value.
pub fn copy_opt(j: &Option<Json>) -> (r: Option<Json>)
    ensures
        opt_view(r) == opt_view(*j),
{
    match j {
        Some(v) => Some(v.copy()),
        None => None,
    }
}

/// The model of an optional value.
pub open spec fn opt_view(j: Option<Json>) -> Option<JsonModel> {
    match j {
        Some(v) => Some(v@),
        None => None,
    }
}


// ---------------------------------------------------------------------------
// Equivalence
/// Whether a number text written by serde_json denotes zero (`0.0 == -0.0`).
pub open spec fn float_text_is_zero(t: Seq<char>) -> bool {
    t == seq!['0', '.', '0'] || t == seq!['-', '0', '.', '0']
}

/// Equality of JSON values as `serde_json::Value` decides it: numbers of
/// different kinds are unequal, floats compare by value, strings by content,
/// arrays element by element and objects entry by entry.
pub open spec fn model_equiv(a: JsonModel, b: JsonModel) -> bool
    decreases a,
{
    match (a, b) {
        (JsonModel::Null, JsonModel::Null) => true,
        (JsonModel::Bool(x), JsonModel::Bool(y)) => x == y,
        (JsonModel::PosInt(x), JsonModel::PosInt(y)) => x == y,
        (JsonModel::NegInt(x), JsonModel::NegInt(y)) => x == y,
        (JsonModel::Float(x), JsonModel::Float(y)) => x == y || (float_text_is_zero(x)
            && float_text_is_zero(y)),
        (JsonModel::Str(x), JsonModel::Str(y)) => x == y,
        (JsonModel::Array(xs), JsonModel::Array(ys)) => seq_equiv(xs, ys),
        (JsonModel::Object(xs), JsonModel::Object(ys)) => entries_equiv(xs, ys),
        _ => false,
    }
}

pub open spec fn seq_equiv(xs: Seq<JsonModel>, ys: Seq<JsonModel>) -> bool
    decreases xs,
{
    if xs.len() == 0 {
        ys.len() == 0
    } else {
        ys.len() > 0 && model_equiv(xs[0], ys[0]) && seq_equiv(xs.drop_first(), ys.drop_first())
    }
}

/// Equal keys and equivalent values.
pub open spec fn entry_equiv(a: (Seq<char>, JsonModel), b: (Seq<char>, JsonModel)) -> bool
    decreases a,
{
    a.0 == b.0 && model_equiv(a.1, b.1)
}

pub open spec fn entries_equiv(xs: Seq<(Seq<char>, JsonModel)>, ys: Seq<(Seq<char>, JsonModel)>) -> bool
    decreases xs,
{
    if xs.len() == 0 {
        ys.len() == 0
    } else {
        ys.len() > 0 && entry_equiv(xs[0], ys[0]) && entries_equiv(xs.drop_first(), ys.drop_first())
    }
}

proof fn lemma_seq_equiv(xs: Seq<JsonModel>, ys: Seq<JsonModel>)
    ensures
        seq_equiv(xs, ys) <==> (xs.len() == ys.len() && forall|i: int|
            0 <= i < xs.len() ==> #[trigger] model_equiv(xs[i], ys[i])),
    decreases xs.len(),
{
    if xs.len() > 0 && ys.len() > 0 {
        lemma_seq_equiv(xs.drop_first(), ys.drop_first());
        if xs.len() == ys.len() && forall|i: int|
            0 <= i < xs.len() ==> #[trigger] model_equiv(xs[i], ys[i]) {
            assert forall|i: int| 0 <= i < xs.drop_first().len() implies #[trigger] model_equiv(
                xs.drop_first()[i],
                ys.drop_first()[i],
            ) by {
                assert(model_equiv(xs[i + 1], ys[i + 1]));
            }
            assert(model_equiv(xs[0], ys[0]));
        }
        if seq_equiv(xs, ys) {
            assert forall|i: int| 0 <= i < xs.len() implies #[trigger] model_equiv(xs[i], ys[i]) by {
                if i > 0 {
                    assert(model_equiv(xs.drop_first()[i - 1], ys.drop_first()[i - 1]));
                }
            }
        }
    }
}

proof fn lemma_entries_equiv(xs: Seq<(Seq<char>, JsonModel)>, ys: Seq<(Seq<char>, JsonModel)>)
    ensures
        entries_equiv(xs, ys) <==> (xs.len() == ys.len() && forall|i: int|
            0 <= i < xs.len() ==> #[trigger] entry_equiv(xs[i], ys[i])),
    decreases xs.len(),
{
    if xs.len() > 0 && ys.len() > 0 {
        lemma_entries_equiv(xs.drop_first(), ys.drop_first());
        if xs.len() == ys.len() && forall|i: int|
            0 <= i < xs.len() ==> #[trigger] entry_equiv(xs[i], ys[i]) {
            assert forall|i: int| 0 <= i < xs.drop_first().len() implies #[trigger] entry_equiv(
                xs.drop_first()[i],
                ys.drop_first()[i],
            ) by {
                assert(entry_equiv(xs[i + 1], ys[i + 1]));
            }
            assert(entry_equiv(xs[0], ys[0]));
        }
        if entries_equiv(xs, ys) {
            assert forall|i: int| 0 <= i < xs.len() implies #[trigger] entry_equiv(xs[i], ys[i]) by {
                if i > 0 {
                    assert(entry_equiv(xs.drop_first()[i - 1], ys.drop_first()[i - 1]));
                }
            }
        }
    }
}

/// Every value is equal to itself.
pub proof fn lemma_model_equiv_refl(a: JsonModel)
    ensures
        model_equiv(a, a),
    decreases a,
{
    match a {
        JsonModel::Array(xs) => {
            assert forall|i: int| 0 <= i < xs.len() implies #[trigger] model_equiv(xs[i], xs[i]) by {
                assert(decreases_to!(a => xs));
                assert(decreases_to!(xs => xs[i]));
                lemma_model_equiv_refl(xs[i]);
            }
            lemma_seq_equiv(xs, xs);
        },
        JsonModel::Object(es) => {
            assert forall|i: int| 0 <= i < es.len() implies #[trigger] entry_equiv(es[i], es[i]) by {
                assert(decreases_to!(a => es));
                assert(decreases_to!(es => es[i]));
                assert(decreases_to!(es[i] => es[i].1));
                lemma_model_equiv_refl(es[i].1);
            }
            lemma_entries_equiv(es, es);
        },
        _ => {},
    }
}

/// Decides `model_equiv` on two values.
#[verifier::loop_isolation(false)]
pub fn json_equal(a: &Json, b: &Json) -> (r: bool)
    ensures
        r == model_equiv(a@, b@),
    decreases *a,
{
    broadcast use group_json_views;

    match (a, b) {
        (Json::Null, Json::Null) => true,
        (Json::Bool(x), Json::Bool(y)) => *x == *y,
        (Json::PosInt(x), Json::PosInt(y)) => *x == *y,
        (Json::NegInt(x), Json::NegInt(y)) => *x == *y,
        (Json::Float(x), Json::Float(y)) => {
            str_equal(x.as_str(), y.as_str()) || (float_text_zero(x.as_str()) && float_text_zero(
                y.as_str(),
            ))
        },
        (Json::Str(x), Json::Str(y)) => str_equal(x.as_str(), y.as_str()),
        (Json::Array(xs), Json::Array(ys)) => {
            proof {
                lemma_seq_equiv(views(xs@), views(ys@));
            }
            if xs.len() != ys.len() {
                return false;
            }
            let mut i: usize = 0;
            while i < xs.len()
                invariant
                    0 <= i <= xs@.len(),
                    xs@.len() == ys@.len(),
                    forall|k: int| 0 <= k < i ==> model_equiv(xs@[k]@, ys@[k]@),
                decreases xs@.len() - i,
            {
                assert(decreases_to!(*a => xs@[i as int])) by {
                    assert(decreases_to!(*a => *xs));
                    assert(decreases_to!(*xs => xs@));
                    assert(decreases_to!(xs@ => xs@[i as int]));
                }
                if !json_equal(&xs[i], &ys[i]) {
                    assert(!model_equiv(views(xs@)[i as int], views(ys@)[i as int]));
                    return false;
                }
                i = i + 1;
            }
            assert forall|k: int| 0 <= k < views(xs@).len() implies #[trigger] model_equiv(
                views(xs@)[k],
                views(ys@)[k],
            ) by {
                assert(model_equiv(xs@[k]@, ys@[k]@));
            }
            true
        },
        (Json::Object(xs), Json::Object(ys)) => {
            proof {
                lemma_entries_equiv(entry_views(xs@), entry_views(ys@));
            }
            if xs.len() != ys.len() {
                return false;
            }
            let mut i: usize = 0;
            while i < xs.len()
                invariant
                    0 <= i <= xs@.len(),
                    xs@.len() == ys@.len(),
                    forall|k: int|
                        0 <= k < i ==> #[trigger] entry_equiv(entry_views(xs@)[k], entry_views(ys@)[k]),
                decreases xs@.len() - i,
            {
                assert(decreases_to!(*a => xs@[i as int].1)) by {
                    assert(decreases_to!(*a => *xs));
                    assert(decreases_to!(*xs => xs@));
                    assert(decreases_to!(xs@ => xs@[i as int]));
                    assert(decreases_to!(xs@[i as int] => xs@[i as int].1));
                }
                if !str_equal(xs[i].0.as_str(), ys[i].0.as_str()) {
                    assert(!entry_equiv(entry_views(xs@)[i as int], entry_views(ys@)[i as int]));
                    return false;
                }
                if !json_equal(&xs[i].1, &ys[i].1) {
                    assert(!entry_equiv(entry_views(xs@)[i as int], entry_views(ys@)[i as int]));
                    return false;
                }
                proof {
                    lemma_entry_views(xs@);
                    lemma_entry_views(ys@);
                }
                assert(entry_equiv(entry_views(xs@)[i as int], entry_views(ys@)[i as int]));
                i = i + 1;
            }
            true
        },
        _ => false,
    }
}

fn float_text_zero(t: &str) -> (r: bool)
    ensures
        r == float_text_is_zero(t@),
{
    let cs = chars_of(t);
    let z1 = cs.len() == 3 && cs[0] == '0' && cs[1] == '.' && cs[2] == '0';
    let z2 = cs.len() == 4 && cs[0] == '-' && cs[1] == '0' && cs[2] == '.' && cs[3] == '0';
    proof {
        if cs@.len() == 3 {
            assert(z1 <==> cs@ =~= seq!['0', '.', '0']);
        }
        if cs@.len() == 4 {
            assert(z2 <==> cs@ =~= seq!['-', '0', '.', '0']);
        }
    }
    z1 || z2
}

// ---------------------------------------------------------------------------
// Objects
/// Byte-wise lexicographic order, the order of `String` keys in serde_json's map.
pub open spec fn bytes_less(a: Seq<u8>, b: Seq<u8>) -> bool
    decreases a.len(),
{
    if a.len() == 0 {
        b.len() > 0
    } else if b.len() == 0 {
        false
    } else if a[0] < b[0] {
        true
    } else if a[0] > b[0] {
        false
    } else {
        bytes_less(a.drop_first(), b.drop_first())
    }
}

pub open spec fn key_less(a: Seq<char>, b: Seq<char>) -> bool {
    bytes_less(encode_utf8(a), encode_utf8(b))
}

/// The entries after inserting `k` with value `v`: an entry with key `k` gets
/// the new value, otherwise the new entry goes before the first larger key.
pub open spec fn sorted_insert(es: Seq<(Seq<char>, JsonModel)>, k: Seq<char>, v: JsonModel) -> Seq<
    (Seq<char>, JsonModel),
>
    decreases es.len(),
{
    if es.len() == 0 {
        seq![(k, v)]
    } else if es[0].0 == k {
        seq![(k, v)] + es.drop_first()
    } else if key_less(k, es[0].0) {
        seq![(k, v)] + es
    } else {
        seq![es[0]] + sorted_insert(es.drop_first(), k, v)
    }
}

/// Decides `key_less` on two strings.
pub fn str_less(a: &str, b: &str) -> (r: bool)
    ensures
        r == key_less(a@, b@),
{
    let x = a.as_bytes();
    let y = b.as_bytes();
    let mut i: usize = 0;
    assert(x@.subrange(0, x@.len() as int) =~= x@);
    assert(y@.subrange(0, y@.len() as int) =~= y@);
    while i < x.len() && i < y.len()
        invariant
            x@ == encode_utf8(a@),
            y@ == encode_utf8(b@),
            0 <= i <= x@.len(),
            i <= y@.len(),
            bytes_less(x@, y@) == bytes_less(x@.subrange(i as int, x@.len() as int), y@.subrange(i as int, y@.len() as int)),
        decreases x@.len() - i,
    {
        let ghost xs = x@.subrange(i as int, x@.len() as int);
        let ghost ys = y@.subrange(i as int, y@.len() as int);
        assert(xs[0] == x@[i as int] && ys[0] == y@[i as int]);
        if x[i] < y[i] {
            return true;
        }
        if x[i] > y[i] {
            return false;
        }
        assert(xs.drop_first() =~= x@.subrange(i + 1, x@.len() as int));
        assert(ys.drop_first() =~= y@.subrange(i + 1, y@.len() as int));
        i = i + 1;
    }
    i == x.len() && i < y.len()
}

proof fn lemma_sorted_insert_at(es: Seq<(Seq<char>, JsonModel)>, k: Seq<char>, v: JsonModel, i: int)
    requires
        0 <= i <= es.len(),
        forall|j: int| 0 <= j < i ==> es[j].0 != k && !key_less(k, es[j].0),
        i < es.len() ==> (es[i].0 == k || key_less(k, es[i].0)),
    ensures
        i < es.len() && es[i].0 == k ==> sorted_insert(es, k, v) == es.subrange(0, i) + seq![(k, v)] + es.subrange(i + 1, es.len() as int),
        !(i < es.len() && es[i].0 == k) ==> sorted_insert(es, k, v) == es.subrange(0, i) + seq![(k, v)] + es.subrange(i, es.len() as int),
    decreases i,
{
    if i == 0 {
        if es.len() > 0 {
            assert(es.subrange(0, 0) + seq![(k, v)] + es.subrange(1, es.len() as int) =~= seq![(k, v)] + es.drop_first());
        }
        assert(es.subrange(0, 0) + seq![(k, v)] + es.subrange(0, es.len() as int) =~= seq![(k, v)] + es);
    } else {
        let t = es.drop_first();
        assert(es[0].0 != k && !key_less(k, es[0].0));
        assert forall|j: int| 0 <= j < i - 1 implies t[j].0 != k && !key_less(k, t[j].0) by {
            assert(t[j] == es[j + 1]);
        }
        if i < es.len() {
            assert(t[i - 1] == es[i]);
        }
        lemma_sorted_insert_at(t, k, v, i - 1);
        assert(sorted_insert(es, k, v) == seq![es[0]] + sorted_insert(t, k, v));
        if i < es.len() && es[i].0 == k {
            assert(seq![es[0]] + (t.subrange(0, i - 1) + seq![(k, v)] + t.subrange(i, t.len() as int)) =~= es.subrange(0, i) + seq![(k, v)] + es.subrange(i + 1, es.len() as int));
        } else {
            assert(seq![es[0]] + (t.subrange(0, i - 1) + seq![(k, v)] + t.subrange(i - 1, t.len() as int)) =~= es.subrange(0, i) + seq![(k, v)] + es.subrange(i, es.len() as int));
        }
    }
}

/// Inserts `k` with value `v` into object entries kept in key order.
#[verifier::loop_isolation(false)]
pub fn object_insert(es: &mut Vec<(String, Json)>, k: String, v: Json)
    ensures
        entry_views(final(es)@) == sorted_insert(entry_views(old(es)@), k@, v@),
{
    broadcast use group_json_views;

    let ghost old_es = entry_views(es@);
    proof {
        lemma_entry_views(es@);
    }
    let mut i: usize = 0;
    while i < es.len()
        invariant
            entry_views(es@) == old_es,
            0 <= i <= es@.len(),
            forall|j: int| 0 <= j < i ==> old_es[j].0 != k@ && !key_less(k@, old_es[j].0),
        decreases es@.len() - i,
    {
        if str_equal(es[i].0.as_str(), k.as_str()) || str_less(k.as_str(), es[i].0.as_str()) {
            break;
        }
        proof {
            lemma_entry_views(es@);
        }
        assert(old_es[i as int].0 == es@[i as int].0@);
        i = i + 1;
    }
    proof {
        if i < es@.len() {
            assert(old_es[i as int].0 == es@[i as int].0@);
        }
        lemma_sorted_insert_at(old_es, k@, v@, i as int);
    }
    if i < es.len() && str_equal(es[i].0.as_str(), k.as_str()) {
        let ghost before = es@;
        es.set(i, (k, v));
        proof {
            lemma_entry_views(es@);
            assert(entry_views(es@) =~= old_es.subrange(0, i as int) + seq![(k@, v@)] + old_es.subrange(i + 1, old_es.len() as int)) by {
                assert forall|j: int| 0 <= j < es@.len() implies #[trigger] entry_views(es@)[j] == (old_es.subrange(0, i as int) + seq![(k@, v@)] + old_es.subrange(i + 1, old_es.len() as int))[j] by {
                    if j < i {
                        assert(es@[j] == before[j]);
                    } else if j > i {
                        assert(es@[j] == before[j]);
                    } else {
                        assert(es@[j] == (k, v));
                        assert(entry_views(es@)[j] == (k@, v@));
                    }
                }
            }
        }
    } else {
        let ghost before = es@;
        es.insert(i, (k, v));
        proof {
            lemma_entry_views(es@);
            assert(entry_views(es@) =~= old_es.subrange(0, i as int) + seq![(k@, v@)] + old_es.subrange(i as int, old_es.len() as int)) by {
                assert forall|j: int| 0 <= j < es@.len() implies #[trigger] entry_views(es@)[j] == (old_es.subrange(0, i as int) + seq![(k@, v@)] + old_es.subrange(i as int, old_es.len() as int))[j] by {
                    if j < i {
                        assert(es@[j] == before[j]);
                    } else if j > i {
                        assert(es@[j] == before[j - 1]);
                    } else {
                        assert(es@[j] == (k, v));
                        assert(entry_views(es@)[j] == (k@, v@));
                    }
                }
            }
        }
    }
}

/// The entries with the value of the first entry under `k` replaced by `v`
/// (unchanged when there is none): assigning to an existing member.
pub open spec fn entries_replace(es: Seq<(Seq<char>, JsonModel)>, k: Seq<char>, v: JsonModel) -> Seq<
    (Seq<char>, JsonModel),
>
    decreases es.len(),
{
    if es.len() == 0 {
        es
    } else if es[0].0 == k {
        seq![(k, v)] + es.drop_first()
    } else {
        seq![es[0]] + entries_replace(es.drop_first(), k, v)
    }
}

proof fn lemma_entries_replace_at(es: Seq<(Seq<char>, JsonModel)>, k: Seq<char>, v: JsonModel, i: int)
    requires
        0 <= i < es.len(),
        es[i].0 == k,
        forall|j: int| 0 <= j < i ==> es[j].0 != k,
    ensures
        entries_replace(es, k, v) == es.update(i, (k, v)),
    decreases i,
{
    if i == 0 {
        assert(seq![(k, v)] + es.drop_first() =~= es.update(0, (k, v)));
    } else {
        let t = es.drop_first();
        assert forall|j: int| 0 <= j < i - 1 implies t[j].0 != k by {
            assert(t[j] == es[j + 1]);
        }
        lemma_entries_replace_at(t, k, v, i - 1);
        assert(seq![es[0]] + t.update(i - 1, (k, v)) =~= es.update(i, (k, v)));
    }
}

/// Assigns `v` to the existing member `k` of object entries.
pub fn object_replace(es: &mut Vec<(String, Json)>, k: &str, v: Json)
    ensures
        entry_views(final(es)@) == entries_replace(entry_views(old(es)@), k@, v@),
{
    broadcast use group_json_views;

    let ghost old_es = entry_views(es@);
    let mut i: usize = 0;
    while i < es.len()
        invariant
            entry_views(es@) == old_es,
            old_es == entry_views(old(es)@),
            old_es.len() == es@.len(),
            forall|j: int| 0 <= j < es@.len() ==> #[trigger] old_es[j] == (es@[j].0@, es@[j].1@),
            0 <= i <= es@.len(),
            forall|j: int| 0 <= j < i ==> old_es[j].0 != k@,
        decreases es@.len() - i,
    {
        if str_equal(es[i].0.as_str(), k) {
            proof {
                lemma_entries_replace_at(old_es, k@, v@, i as int);
            }
            let ghost before = es@;
            let key = es[i].0.clone();
            assert(key@ == k@);
            es.set(i, (key, v));
            assert(es@[i as int].0@ == k@ && es@[i as int].1@ == v@);
            proof {
                lemma_entry_views(es@);
                assert(entry_views(es@) =~= old_es.update(i as int, (k@, v@))) by {
                    assert forall|j: int| 0 <= j < es@.len() implies #[trigger] entry_views(es@)[j]
                        == old_es.update(i as int, (k@, v@))[j] by {
                        if j != i {
                            assert(es@[j] == before[j]);
                        }
                    }
                }
            }
            return;
        }
        i = i + 1;
    }
    proof {
        lemma_entries_replace_none(old_es, k@, v@);
    }
}

proof fn lemma_entries_replace_none(es: Seq<(Seq<char>, JsonModel)>, k: Seq<char>, v: JsonModel)
    requires
        forall|j: int| 0 <= j < es.len() ==> es[j].0 != k,
    ensures
        entries_replace(es, k, v) == es,
    decreases es.len(),
{
    if es.len() > 0 {
        let t = es.drop_first();
        assert forall|j: int| 0 <= j < t.len() implies t[j].0 != k by {
            assert(t[j] == es[j + 1]);
        }
        lemma_entries_replace_none(t, k, v);
        assert(seq![es[0]] + t =~= es);
    }
}

/// After a member is assigned, reading it gives the assigned value back, and
/// assigning the same value again changes nothing.
pub proof fn lemma_entries_replace_twice(es: Seq<(Seq<char>, JsonModel)>, k: Seq<char>, v: JsonModel)
    requires
        entries_get(es, k) is Some,
    ensures
        entries_get(entries_replace(es, k, v), k) == Some(v),
        entries_replace(entries_replace(es, k, v), k, v) == entries_replace(es, k, v),
    decreases es.len(),
{
    let r = entries_replace(es, k, v);
    if es[0].0 == k {
        assert(r =~= seq![(k, v)] + es.drop_first());
        assert(r[0] == (k, v));
        assert(r.drop_first() =~= es.drop_first());
        assert(entries_replace(r, k, v) =~= seq![(k, v)] + r.drop_first());
    } else {
        let t = es.drop_first();
        lemma_entries_replace_twice(t, k, v);
        let rt = entries_replace(t, k, v);
        assert(r =~= seq![es[0]] + rt);
        assert(r[0] == es[0]);
        assert(r.drop_first() =~= rt);
        assert(entries_replace(r, k, v) =~= seq![es[0]] + entries_replace(rt, k, v));
    }
}

// ---------------------------------------------------------------------------
// Text
/// The compact JSON text that `serde_json::to_string` writes for a value.
pub uninterp spec fn json_text(v: JsonModel) -> Seq<char>;

#[verifier::external_type_specification]
#[verifier::external_body]
pub struct ExValue(serde_json::Value);

/// The `serde_json::Value` holding the same JSON as `j`, built variant by
/// variant; a number held as text becomes the number that text denotes.  No
/// contract: the value is only handed to `serde_json::to_string`.
#[verifier::external_body]
fn serde_value(j: &Json) -> serde_json::Value {
    match j {
        Json::Null => serde_json::Value::Null,
        Json::Bool(b) => serde_json::Value::Bool(*b),
        Json::PosInt(n) => serde_json::Value::from(*n),
        Json::NegInt(n) => serde_json::Value::from(*n),
        Json::Float(t) => t.parse().map(serde_json::Value::Number).unwrap_or_default(),
        Json::Str(s) => serde_json::Value::String(s.clone()),
        Json::Array(xs) => serde_json::Value::Array(xs.iter().map(serde_value).collect()),
        Json::Object(es) => es.iter().map(|(k, v)| (k.clone(), serde_value(v))).collect(),
    }
}

/// The decimal digits of a natural number.
pub open spec fn digits_text(n: nat) -> Seq<char>
    decreases n,
{
    let d = ((n % 10) + 48) as char;
    if n < 10 {
        seq![d]
    } else {
        digits_text(n / 10).push(d)
    }
}

/// An integer as decimal text, with a leading `-` when it is negative.
pub open spec fn decimal_text(n: int) -> Seq<char> {
    if n < 0 {
        seq!['-'] + digits_text((-n) as nat)
    } else {
        digits_text(n as nat)
    }
}

/// A string that JSON writes without escapes: no `"`, no backslash and no control
/// character below U+0020.
pub open spec fn plain_string(s: Seq<char>) -> bool {
    forall|i: int| 0 <= i < s.len() ==> #[trigger] s[i] != '"' && s[i] != '\\' && (s[i] as u32) >= 32
}

/// The texts of the elements, separated by commas.
pub open spec fn joined_texts(xs: Seq<JsonModel>) -> Seq<char>
    decreases xs.len(),
{
    if xs.len() == 0 {
        Seq::empty()
    } else if xs.len() == 1 {
        json_text(xs[0])
    } else {
        joined_texts(xs.drop_last()) + seq![','] + json_text(xs.last())
    }
}

/// `serde_json::to_string` on the value `j` holds.  Claimed: the text is
/// `json_text(j@)`, a fixed function of the value; for the simple values the
/// compact writer's text is stated too: `null`, `true`, `false`, an integer's
/// decimal digits, a string without characters to escape between quotes, and
/// an array as its elements' texts, comma-separated, in brackets.  The text of
/// other numbers, of strings that need escapes and of objects (written with
/// their keys sorted, a later duplicate key winning) is not stated.
#[verifier::external_body]
pub(crate) fn to_text(j: &Json) -> (r: String)
    ensures
        r@ == json_text(j@),
        j@ is Null ==> r@ == seq!['n', 'u', 'l', 'l'],
        j@ matches JsonModel::Bool(b) ==> r@ == (if b {
            seq!['t', 'r', 'u', 'e']
        } else {
            seq!['f', 'a', 'l', 's', 'e']
        }),
        j@ matches JsonModel::PosInt(n) ==> r@ == decimal_text(n as int),
        j@ matches JsonModel::NegInt(n) ==> r@ == decimal_text(n as int),
        j@ matches JsonModel::Str(t) ==> (plain_string(t) ==> r@ == seq!['"'] + t + seq!['"']),
        j@ matches JsonModel::Array(xs) ==> r@ == seq!['['] + joined_texts(xs) + seq![']'],
{
    serde_json::to_string(&serde_value(j)).unwrap_or_default()
}

} // verus!
