//! A JSON value model.
use vstd::prelude::*;

verus! {

/// A JSON number as `serde_json` holds it.
#[derive(Clone, Copy, Debug)]
pub enum JsonNumber {
    /// An integer from zero to `u64::MAX`.
    PosInt(u64),
    /// An integer below zero.
    NegInt(i64),
    /// Any other (finite) number, by the bits of its `f64`.
    Other(u64),
}

/// `Number::as_i64`: the number as an `i64`, when it is an integer in range.
pub open spec fn number_as_i64(n: JsonNumber) -> Option<i64> {
    match n {
        JsonNumber::PosInt(u) => if u <= i64::MAX {
            Some(u as i64)
        } else {
            None
        },
        JsonNumber::NegInt(i) => Some(i),
        JsonNumber::Other(_) => None,
    }
}

/// `Number::as_i64` (see [`number_as_i64`]).
pub fn as_i64(n: JsonNumber) -> (r: Option<i64>)
    ensures
        r == number_as_i64(n),
{
    match n {
        JsonNumber::PosInt(u) => if u <= i64::MAX as u64 {
            Some(u as i64)
        } else {
            None
        },
        JsonNumber::NegInt(i) => Some(i),
        JsonNumber::Other(_) => None,
    }
}

/// A JSON value.
#[derive(Debug)]
pub enum Json {
    Null,
    Bool(bool),
    Number(JsonNumber),
    String(String),
    Array(Vec<Json>),
    Object(Vec<(String, Json)>),
}

/// The model of a [`Json`] value.
#[verifier::ext_equal]
pub ghost enum JsonSpec {
    Null,
    Bool(bool),
    Number(JsonNumber),
    Str(Seq<char>),
    Array(Seq<JsonSpec>),
    Object(Seq<(Seq<char>, JsonSpec)>),
}

pub open spec fn json_view(j: Json) -> JsonSpec
    decreases j,
{
    match j {
        Json::Null => JsonSpec::Null,
        Json::Bool(b) => JsonSpec::Bool(b),
        Json::Number(n) => JsonSpec::Number(n),
        Json::String(s) => JsonSpec::Str(s@),
        Json::Array(items) => JsonSpec::Array(items_view(items@)),
        Json::Object(entries) => JsonSpec::Object(entries_view(entries@)),
    }
}

/// The models of the values of `items`.
pub open spec fn items_view(items: Seq<Json>) -> Seq<JsonSpec>
    decreases items,
{
    if items.len() == 0 {
        seq![]
    } else {
        items_view(items.drop_last()).push(json_view(items.last()))
    }
}

/// The models of the entries of an object.
pub open spec fn entries_view(entries: Seq<(String, Json)>) -> Seq<(Seq<char>, JsonSpec)>
    decreases entries,
{
    if entries.len() == 0 {
        seq![]
    } else {
        entries_view(entries.drop_last()).push((entries.last().0@, json_view(entries.last().1)))
    }
}

impl View for Json {
    type V = JsonSpec;

    open spec fn view(&self) -> JsonSpec {
        json_view(*self)
    }
}

/// The position of the first entry named `key`.
pub open spec fn entry_index(entries: Seq<(Seq<char>, JsonSpec)>, key: Seq<char>) -> Option<int> {
    if exists|i: int| 0 <= i < entries.len() && entries[i].0 == key {
        Some(choose|i: int| 0 <= i < entries.len() && entries[i].0 == key && forall|k: int| 0 <= k < i ==> entries[k].0 != key)
    } else {
        None
    }
}

/// `Value::get(key)`: the value of the first entry named `key`, when `v` is
/// an object that has one.
pub open spec fn field(v: JsonSpec, key: Seq<char>) -> Option<JsonSpec> {
    match v {
        JsonSpec::Object(entries) => match entry_index(entries, key) {
            Some(i) => Some(entries[i].1),
            None => None,
        },
        _ => None,
    }
}

/// `Value::as_str`.
pub open spec fn as_str(v: Option<JsonSpec>) -> Option<Seq<char>> {
    match v {
        Some(JsonSpec::Str(s)) => Some(s),
        _ => None,
    }
}

/// The text a string field holds, or the empty text.
pub open spec fn str_or_empty(v: Option<JsonSpec>) -> Seq<char> {
    match as_str(v) {
        Some(s) => s,
        None => seq![],
    }
}

/// `entries` with `key` bound to `value`: an existing entry of that name
/// gets the new value in place, otherwise the entry is added at the end.
pub open spec fn object_insert(entries: Seq<(Seq<char>, JsonSpec)>, key: Seq<char>, value: JsonSpec) -> Seq<(Seq<char>, JsonSpec)> {
    match entry_index(entries, key) {
        Some(i) => entries.update(i, (key, value)),
        None => entries.push((key, value)),
    }
}

/// A deep copy of `j`.
pub fn clone_json(j: &Json) -> (r: Json)
    ensures
        r@ == j@,
    decreases j,
{
    match j {
        Json::Null => {
            let r = Json::Null;
            assert(r@ == j@);
            r
        },
        Json::Bool(b) => {
            let r = Json::Bool(*b);
            assert(r@ == j@);
            r
        },
        Json::Number(n) => {
            let r = Json::Number(*n);
            assert(r@ == j@);
            r
        },
        Json::String(s) => {
            let r = Json::String(s.clone());
            assert(r@ == j@);
            r
        },
        Json::Array(items) => {
            let mut out: Vec<Json> = Vec::new();
            let mut i: usize = 0;
            while i < items.len()
                invariant
                    i <= items@.len(),
                    *j matches Json::Array(v) && v == *items,
                    items_view(out@) == items_view(items@.subrange(0, i as int)),
                decreases items@.len() - i,
            {
                proof {
                    assert(decreases_to!(*j => items@[i as int]));
                }
                let ghost before = out@;
                out.push(clone_json(&items[i]));
                proof {
                    assert(out@.drop_last() =~= before);
                    assert(items@.subrange(0, i + 1).drop_last() =~= items@.subrange(0, i as int));
                }
                i += 1;
            }
            assert(items@.subrange(0, items@.len() as int) =~= items@);
            Json::Array(out)
        },
        Json::Object(entries) => {
            let mut out: Vec<(String, Json)> = Vec::new();
            let mut i: usize = 0;
            while i < entries.len()
                invariant
                    i <= entries@.len(),
                    *j matches Json::Object(v) && v == *entries,
                    entries_view(out@) == entries_view(entries@.subrange(0, i as int)),
                decreases entries@.len() - i,
            {
                proof {
                    assert(decreases_to!(*j => entries@[i as int].1));
                }
                let ghost before = out@;
                out.push((entries[i].0.clone(), clone_json(&entries[i].1)));
                proof {
                    assert(out@.drop_last() =~= before);
                    assert(entries@.subrange(0, i + 1).drop_last() =~= entries@.subrange(0, i as int));
                }
                i += 1;
            }
            assert(entries@.subrange(0, entries@.len() as int) =~= entries@);
            Json::Object(out)
        },
    }
}



pub proof fn lemma_entries_view(entries: Seq<(String, Json)>)
    ensures
        entries_view(entries).len() == entries.len(),
        forall|k: int| 0 <= k < entries.len() ==> #[trigger] entries_view(entries)[k] == (entries[k].0@, json_view(entries[k].1)),
    decreases entries.len(),
{
    if entries.len() > 0 {
        lemma_entries_view(entries.drop_last());
        assert forall|k: int| 0 <= k < entries.len() implies #[trigger] entries_view(entries)[k] == (entries[k].0@, json_view(entries[k].1)) by {
            if k < entries.len() - 1 {
                assert(entries.drop_last()[k] == entries[k]);
            }
        }
    }
}

pub proof fn lemma_items_view(items: Seq<Json>)
    ensures
        items_view(items).len() == items.len(),
        forall|k: int| 0 <= k < items.len() ==> #[trigger] items_view(items)[k] == json_view(items[k]),
    decreases items.len(),
{
    if items.len() > 0 {
        lemma_items_view(items.drop_last());
        assert forall|k: int| 0 <= k < items.len() implies #[trigger] items_view(items)[k] == json_view(items[k]) by {
            if k < items.len() - 1 {
                assert(items.drop_last()[k] == items[k]);
            }
        }
    }
}

pub proof fn lemma_entry_index(entries: Seq<(Seq<char>, JsonSpec)>, key: Seq<char>)
    ensures
        match entry_index(entries, key) {
            Some(i) => 0 <= i < entries.len() && entries[i].0 == key && forall|k: int| 0 <= k < i ==> entries[k].0 != key,
            None => forall|k: int| 0 <= k < entries.len() ==> entries[k].0 != key,
        },
{
    if exists|i: int| 0 <= i < entries.len() && entries[i].0 == key {
        let w = choose|i: int| 0 <= i < entries.len() && entries[i].0 == key;
        lemma_first_exists(entries, key, w);
    }
}

proof fn lemma_first_exists(entries: Seq<(Seq<char>, JsonSpec)>, key: Seq<char>, w: int)
    requires
        0 <= w < entries.len(),
        entries[w].0 == key,
    ensures
        exists|i: int| 0 <= i < entries.len() && entries[i].0 == key && forall|k: int| 0 <= k < i ==> entries[k].0 != key,
    decreases w,
{
    if exists|k: int| 0 <= k < w && entries[k].0 == key {
        let k = choose|k: int| 0 <= k < w && entries[k].0 == key;
        lemma_first_exists(entries, key, k);
    } else {
        assert(forall|k: int| 0 <= k < w ==> entries[k].0 != key);
    }
}

/// A field read back after it was bound gives the value bound; binding a
/// field leaves every other field as it was.
pub proof fn lemma_object_insert_get(entries: Seq<(Seq<char>, JsonSpec)>, key: Seq<char>, value: JsonSpec, other: Seq<char>)
    ensures
        field(JsonSpec::Object(object_insert(entries, key, value)), key) == Some(value),
        other != key ==> field(JsonSpec::Object(object_insert(entries, key, value)), other) == field(
            JsonSpec::Object(entries),
            other,
        ),
{
    let next = object_insert(entries, key, value);
    lemma_entry_index(entries, key);
    lemma_entry_index(entries, other);
    lemma_entry_index(next, key);
    lemma_entry_index(next, other);
    match entry_index(entries, key) {
        Some(i) => {
            assert(next[i].0 == key);
            match entry_index(next, key) {
                Some(j) => {
                    if j < i {
                        assert(next[j] == entries[j]);
                    }
                    if j > i {
                        assert(next[i].0 == key);
                    }
                },
                None => {},
            }
            if other != key {
                match entry_index(entries, other) {
                    Some(k) => {
                        assert(next[k] == entries[k]);
                        match entry_index(next, other) {
                            Some(j) => {
                                if j < k {
                                    assert(next[j].0 == entries[j].0);
                                }
                                if j > k {
                                    assert(next[k].0 == other);
                                }
                            },
                            None => {},
                        }
                    },
                    None => {
                        assert forall|k: int| 0 <= k < next.len() implies next[k].0 != other by {
                            assert(next[k].0 == entries[k].0 || k == i);
                        }
                    },
                }
            }
        },
        None => {
            assert(next[entries.len() as int].0 == key);
            match entry_index(next, key) {
                Some(j) => {
                    if j < entries.len() {
                        assert(next[j] == entries[j]);
                    }
                },
                None => {},
            }
            if other != key {
                match entry_index(entries, other) {
                    Some(k) => {
                        assert(next[k] == entries[k]);
                        match entry_index(next, other) {
                            Some(j) => {
                                if j < k {
                                    assert(next[j] == entries[j]);
                                }
                                if j > k {
                                    assert(next[k].0 == other);
                                }
                            },
                            None => {},
                        }
                    },
                    None => {
                        assert forall|k: int| 0 <= k < next.len() implies next[k].0 != other by {
                            if k < entries.len() {
                                assert(next[k] == entries[k]);
                            }
                        }
                    },
                }
            }
        },
    }
}

/// The position of the first entry named `key`.
pub fn entry_position(entries: &Vec<(String, Json)>, key: &str) -> (r: Option<usize>)
    ensures
        match r {
            Some(i) => i < entries@.len() && entry_index(entries_view(entries@), key@) == Some(i as int),
            None => entry_index(entries_view(entries@), key@) is None,
        },
{
    proof {
        lemma_entries_view(entries@);
        lemma_entry_index(entries_view(entries@), key@);
    }
    let k = crate::text::str_from(key);
    let mut i: usize = 0;
    while i < entries.len()
        invariant
            i <= entries@.len(),
            k@ == key@,
            forall|q: int| 0 <= q < i ==> entries@[q].0@ != key@,
        decreases entries@.len() - i,
    {
        if entries[i].0 == k {
            proof {
                lemma_entries_view(entries@);
                lemma_entry_index(entries_view(entries@), key@);
                let es = entries_view(entries@);
                assert(es[i as int].0 == key@);
                match entry_index(es, key@) {
                    Some(w) => {
                        if w < i {
                            assert(es[w].0 == entries@[w].0@);
                        } else if w > i {
                        }
                    },
                    None => {},
                }
            }
            return Some(i);
        }
        i += 1;
    }
    proof {
        lemma_entries_view(entries@);
        lemma_entry_index(entries_view(entries@), key@);
        let es = entries_view(entries@);
        assert forall|q: int| 0 <= q < es.len() implies es[q].0 != key@ by {
            assert(es[q].0 == entries@[q].0@);
        }
    }
    None
}

// ---------------------------------------------------------------------------
// WebDriver BiDi remote values
// ---------------------------------------------------------------------------

/// Plain JSON for a BiDi `RemoteValue` (`{type, value}`): strings and
/// booleans are their `value`; numbers their numeric `value` (else null);
/// `null` and `undefined` are null; arrays are their converted items; objects
/// are built from their `[key, value]` pairs whose key is a string, later
/// pairs replacing earlier ones of the same key; any other type is its
/// `value` as is. A missing `value` gives null: that is how a value that
/// cannot be represented comes, such as a reference back to an object or
/// array already being serialized (a cycle).
#[verifier::rlimit(60)]
pub open spec fn remote_to_plain(v: JsonSpec) -> JsonSpec
    decreases v, 0nat,
{
    match v {
        JsonSpec::Object(es) => {
            let kind = match entry_index(es, "type"@) {
                Some(t) => if 0 <= t < es.len() {
                    match es[t].1 {
                        JsonSpec::Str(s) => s,
                        _ => seq![],
                    }
                } else {
                    seq![]
                },
                None => seq![],
            };
            match entry_index(es, "value"@) {
                Some(i) => if 0 <= i < es.len() {
                    typed_to_plain(kind, es[i].1)
                } else {
                    JsonSpec::Null
                },
                None => JsonSpec::Null,
            }
        },
        _ => JsonSpec::Null,
    }
}

/// Plain JSON for the `value` of a BiDi `RemoteValue` of type `kind`.
pub open spec fn typed_to_plain(kind: Seq<char>, value: JsonSpec) -> JsonSpec
    decreases value, 1nat,
{
    if kind == "string"@ || kind == "boolean"@ {
        value
    } else if kind == "number"@ {
        match value {
            JsonSpec::Number(n) => JsonSpec::Number(n),
            _ => JsonSpec::Null,
        }
    } else if kind == "null"@ || kind == "undefined"@ {
        JsonSpec::Null
    } else if kind == "array"@ {
        match value {
            JsonSpec::Array(items) => JsonSpec::Array(plain_items(items)),
            _ => JsonSpec::Array(seq![]),
        }
    } else if kind == "object"@ {
        match value {
            JsonSpec::Array(pairs) => JsonSpec::Object(plain_entries(pairs, pairs.len())),
            _ => JsonSpec::Object(seq![]),
        }
    } else {
        value
    }
}

/// Each of `items` converted with [`remote_to_plain`].
pub open spec fn plain_items(items: Seq<JsonSpec>) -> Seq<JsonSpec>
    decreases items, 0nat,
{
    if items.len() == 0 {
        seq![]
    } else {
        plain_items(items.drop_last()).push(remote_to_plain(items.last()))
    }
}

/// The object built from the first `n` of `pairs`: each `[key, value]` pair
/// whose key is a string binds the key to the converted value.
pub open spec fn plain_entries(pairs: Seq<JsonSpec>, n: nat) -> Seq<(Seq<char>, JsonSpec)>
    decreases pairs, n,
{
    if n == 0 || n > pairs.len() {
        seq![]
    } else {
        let acc = plain_entries(pairs, (n - 1) as nat);
        match pairs[n - 1] {
            JsonSpec::Array(pair) => if pair.len() == 2 {
                match pair[0] {
                    JsonSpec::Str(key) => object_insert(acc, key, remote_to_plain(pair[1])),
                    _ => acc,
                }
            } else {
                acc
            },
            _ => acc,
        }
    }
}


/// Binds `key` to `value` in the object `map`: an entry of that name gets the
/// new value in place, otherwise the entry is added at the end.
pub fn insert_entry(map: &mut Vec<(String, Json)>, key: String, value: Json)
    ensures
        entries_view(final(map)@) == object_insert(entries_view(old(map)@), key@, value@),
{
    let ghost before = map@;
    proof {
        lemma_entries_view(before);
    }
    match entry_position(map, key.as_str()) {
        Some(i) => {
            map.set(i, (key, value));
            proof {
                lemma_entries_view(map@);
                assert(entries_view(map@) =~= entries_view(before).update(i as int, (key@, value@)));
            }
        },
        None => {
            map.push((key, value));
            proof {
                lemma_entries_view(map@);
                assert(entries_view(map@) =~= entries_view(before).push((key@, value@)));
            }
        },
    }
}

/// Convert a BiDi `RemoteValue` into plain JSON; see [`remote_to_plain`].
///
/// Objects and arrays are reconstructed; values that cannot be represented
/// (functions, symbols, cycles) become null.
#[verifier::rlimit(80)]
pub fn remote_value_to_json(value: &Json) -> (r: Json)
    ensures
        r@ == remote_to_plain(value@),
    decreases value,
{
    match value {
        Json::Object(entries) => {
            proof {
                lemma_entries_view(entries@);
            }
            let ghost es = entries_view(entries@);
            let kind: Vec<char> = match entry_position(entries, "type") {
                Some(t) => match &entries[t].1 {
                    Json::String(s) => crate::text::chars_of(s.as_str()),
                    _ => Vec::new(),
                },
                None => Vec::new(),
            };
            let ghost spec_kind = match entry_index(es, "type"@) {
                Some(t) => if 0 <= t < es.len() {
                    match es[t].1 {
                        JsonSpec::Str(s) => s,
                        _ => seq![],
                    }
                } else {
                    seq![]
                },
                None => seq![],
            };
            assert(kind@ == spec_kind);
            match entry_position(entries, "value") {
                Some(i) => {
                    proof {
                        assert(decreases_to!(*value => entries@[i as int].1));
                    }
                    convert_typed(&kind, &entries[i].1)
                },
                None => Json::Null,
            }
        },
        _ => Json::Null,
    }
}


/// Each item converted with [`remote_value_to_json`].
fn convert_items(items: &Vec<Json>) -> (r: Vec<Json>)
    ensures
        items_view(r@) == plain_items(items_view(items@)),
    decreases items,
{
    let mut out: Vec<Json> = Vec::new();
    let mut j: usize = 0;
    while j < items.len()
        invariant
            j <= items@.len(),
            items_view(out@) == plain_items(items_view(items@.subrange(0, j as int))),
        decreases items@.len() - j,
    {
        proof {
            assert(decreases_to!(*items => items@[j as int]));
        }
        let ghost before = out@;
        out.push(remote_value_to_json(&items[j]));
        proof {
            assert(out@.drop_last() =~= before);
            let p1 = items@.subrange(0, j + 1);
            assert(p1.drop_last() =~= items@.subrange(0, j as int));
            assert(items_view(p1).drop_last() =~= items_view(items@.subrange(0, j as int)));
        }
        j += 1;
    }
    assert(items@.subrange(0, items@.len() as int) =~= items@);
    out
}

/// The object built from `[key, value]` pairs; see [`plain_entries`].
fn convert_pairs(pairs: &Vec<Json>) -> (r: Vec<(String, Json)>)
    ensures
        entries_view(r@) == plain_entries(items_view(pairs@), pairs@.len() as nat),
    decreases pairs,
{
    proof {
        lemma_items_view(pairs@);
    }
    let ghost ps = items_view(pairs@);
    let mut map: Vec<(String, Json)> = Vec::new();
    let mut j: usize = 0;
    while j < pairs.len()
        invariant
            j <= pairs@.len(),
            ps == items_view(pairs@),
            ps.len() == pairs@.len(),
            forall|k: int| 0 <= k < pairs@.len() ==> #[trigger] ps[k] == json_view(pairs@[k]),
            entries_view(map@) == plain_entries(ps, j as nat),
        decreases pairs@.len() - j,
    {
        let ghost acc = plain_entries(ps, j as nat);
        assert(ps[j as int] == json_view(pairs@[j as int]));
        match &pairs[j] {
            Json::Array(pair) => {
                proof {
                    lemma_items_view(pair@);
                }
                if pair.len() == 2 {
                    match &pair[0] {
                        Json::String(k) => {
                            proof {
                                assert(decreases_to!(*pairs => pair@[1]));
                                assert(items_view(pair@)[0] == JsonSpec::Str(k@));
                                assert(items_view(pair@)[1] == json_view(pair@[1]));
                            }
                            let converted = remote_value_to_json(&pair[1]);
                            insert_entry(&mut map, k.clone(), converted);
                            assert(entries_view(map@) == object_insert(acc, k@, remote_to_plain(json_view(pair@[1]))));
                        },
                        _ => {
                            assert(!(items_view(pair@)[0] is Str));
                        },
                    }
                } else {
                    assert(items_view(pair@).len() != 2);
                }
            },
            _ => {},
        }
        j += 1;
    }
    map
}


/// Plain JSON for the `value` of a BiDi `RemoteValue` of type `kind`; see
/// [`typed_to_plain`].
fn convert_typed(kind: &Vec<char>, val: &Json) -> (r: Json)
    ensures
        r@ == typed_to_plain(kind@, val@),
    decreases val,
{
    if crate::text::chars_are(kind, "string") || crate::text::chars_are(kind, "boolean") {
        clone_json(val)
    } else if crate::text::chars_are(kind, "number") {
        match val {
            Json::Number(n) => Json::Number(*n),
            _ => Json::Null,
        }
    } else if crate::text::chars_are(kind, "null") || crate::text::chars_are(kind, "undefined") {
        Json::Null
    } else if crate::text::chars_are(kind, "array") {
        match val {
            Json::Array(items) => {
                proof {
                    assert(decreases_to!(*val => *items));
                }
                Json::Array(convert_items(items))
            },
            _ => Json::Array(Vec::new()),
        }
    } else if crate::text::chars_are(kind, "object") {
        match val {
            Json::Array(pairs) => {
                proof {
                    assert(decreases_to!(*val => *pairs));
                    lemma_items_view(pairs@);
                }
                Json::Object(convert_pairs(pairs))
            },
            _ => Json::Object(Vec::new()),
        }
    } else {
        clone_json(val)
    }
}


/// `Value::get(key)`: the value of the first entry named `key`, when `value`
/// is an object that has one.
pub fn get<'a>(value: &'a Json, key: &str) -> (r: Option<&'a Json>)
    ensures
        match r {
            Some(v) => field(value@, key@) == Some(v@),
            None => field(value@, key@) is None,
        },
{
    match value {
        Json::Object(entries) => {
            proof {
                lemma_entries_view(entries@);
            }
            match entry_position(entries, key) {
                Some(i) => Some(&entries[i].1),
                None => None,
            }
        },
        _ => None,
    }
}

/// `Value::as_str`, as a new `String`.
pub fn as_string(value: Option<&Json>) -> (r: Option<String>)
    ensures
        match r {
            Some(s) => as_str(opt_json_view(value)) == Some(s@),
            None => as_str(opt_json_view(value)) is None,
        },
{
    match value {
        Some(Json::String(s)) => Some(s.clone()),
        _ => None,
    }
}

/// The model of an optional JSON value.
pub open spec fn opt_json_view(value: Option<&Json>) -> Option<JsonSpec> {
    match value {
        Some(v) => Some(v@),
        None => None,
    }
}

/// `Value::as_bool`.
pub open spec fn as_bool(v: Option<JsonSpec>) -> Option<bool> {
    match v {
        Some(JsonSpec::Bool(b)) => Some(b),
        _ => None,
    }
}

/// `Value::as_i64`.
pub open spec fn as_int(v: Option<JsonSpec>) -> Option<i64> {
    match v {
        Some(JsonSpec::Number(n)) => number_as_i64(n),
        _ => None,
    }
}

/// `Value::as_array`.
pub open spec fn as_array(v: Option<JsonSpec>) -> Option<Seq<JsonSpec>> {
    match v {
        Some(JsonSpec::Array(items)) => Some(items),
        _ => None,
    }
}

}
