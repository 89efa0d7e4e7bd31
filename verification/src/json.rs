//! A JSON value model for tool arguments and tool results, the lookups that
//! the tools make on their arguments, and the compact JSON text of a value.

use vstd::prelude::*;
use crate::text::{owned, str_eq};
use serde_json::Value;

verus! {

broadcast use vstd::string::group_string_axioms;

/// A JSON value.
///
/// Numbers are kept as the three kinds that JSON readers tell apart: a
/// non-negative integer, a negative integer, and a number with a fraction
/// or exponent. Of the last only its text and its integer part (truncated
/// toward zero, saturated to the `i64` range) are kept.
#[derive(Debug, PartialEq)]
pub enum Json {
    Null,
    Bool(bool),
    UInt(u64),
    NegInt(i64),
    Float { text: String, trunc: i64 },
    Str(String),
    Array(Vec<Json>),
    /// Entries in order; keys are expected to be distinct.
    Object(Vec<(String, Json)>),
}

/// Tool arguments: named values, names expected to be distinct.
pub type Arguments = Vec<(String, Json)>;

/// The value stored under `key`, the first entry with that key.
pub open spec fn lookup(args: Seq<(String, Json)>, key: Seq<char>) -> Option<Json>
    decreases args.len(),
{
    if args.len() == 0 {
        None
    } else if args[0].0@ == key {
        Some(args[0].1)
    } else {
        lookup(args.drop_first(), key)
    }
}

/// The value found under `key` is the one of the first entry named `key`.
pub proof fn lemma_lookup_at(es: Seq<(String, Json)>, key: Seq<char>, i: int)
    requires
        0 <= i < es.len(),
        es[i].0@ == key,
        forall|m: int| 0 <= m < i ==> (#[trigger] es[m]).0@ != key,
    ensures
        lookup(es, key) == Some(es[i].1),
    decreases i,
{
    if i > 0 {
        assert forall|m: int| 0 <= m < i - 1 implies (#[trigger] es.drop_first()[m]).0@ != key by {
            assert(es.drop_first()[m] == es[m + 1]);
        }
        lemma_lookup_at(es.drop_first(), key, i - 1);
    }
}

/// The text of a string value (`Value::as_str`).
pub open spec fn as_text(v: Option<Json>) -> Option<Seq<char>> {
    match v {
        Some(Json::Str(s)) => Some(s@),
        _ => None,
    }
}

/// The value of a non-negative integer (`Value::as_u64`).
pub open spec fn as_uint(v: Option<Json>) -> Option<u64> {
    match v {
        Some(Json::UInt(n)) => Some(n),
        _ => None,
    }
}

/// The value of a boolean (`Value::as_bool`).
pub open spec fn as_boolean(v: Option<Json>) -> Option<bool> {
    match v {
        Some(Json::Bool(b)) => Some(b),
        _ => None,
    }
}

/// The value stored under `key` in `args`.
pub fn arg_get<'a>(args: &'a Arguments, key: &str) -> (r: Option<&'a Json>)
    ensures
        match r {
            Some(v) => lookup(args@, key@) == Some(*v),
            None => lookup(args@, key@) is None,
        },
{
    let mut i: usize = 0;
    assert(args@.subrange(0, args@.len() as int) =~= args@);
    while i < args.len()
        invariant
            i <= args.len(),
            lookup(args@, key@) == lookup(args@.subrange(i as int, args@.len() as int), key@),
        decreases args.len() - i,
    {
        let ghost rest = args@.subrange(i as int, args@.len() as int);
        assert(rest.drop_first() =~= args@.subrange(i + 1, args@.len() as int));
        if str_eq(args[i].0.as_str(), key) {
            return Some(&args[i].1);
        }
        i = i + 1;
    }
    None
}

/// The text stored under `key`, when it is a string.
pub fn arg_str(args: &Arguments, key: &str) -> (r: Option<String>)
    ensures
        match r {
            Some(s) => as_text(lookup(args@, key@)) == Some(s@),
            None => as_text(lookup(args@, key@)) is None,
        },
{
    match arg_get(args, key) {
        Some(Json::Str(s)) => Some(s.clone()),
        _ => None,
    }
}

/// The number stored under `key`, when it is a non-negative integer.
pub fn arg_u64(args: &Arguments, key: &str) -> (r: Option<u64>)
    ensures
        r == as_uint(lookup(args@, key@)),
{
    match arg_get(args, key) {
        Some(Json::UInt(n)) => Some(*n),
        _ => None,
    }
}

/// The flag stored under `key`, when it is a boolean.
pub fn arg_bool(args: &Arguments, key: &str) -> (r: Option<bool>)
    ensures
        r == as_boolean(lookup(args@, key@)),
{
    match arg_get(args, key) {
        Some(Json::Bool(b)) => Some(*b),
        _ => None,
    }
}

/// The flag stored under `key`, or `default` when there is no boolean
/// there.
pub fn arg_bool_or(args: &Arguments, key: &str, default: bool) -> (r: bool)
    ensures
        r == match as_boolean(lookup(args@, key@)) {
            Some(b) => b,
            None => default,
        },
{
    match arg_bool(args, key) {
        Some(b) => b,
        None => default,
    }
}

/// The number stored under `key`, or `default` when there is no
/// non-negative integer there.
pub fn arg_u64_or(args: &Arguments, key: &str, default: u64) -> (r: u64)
    ensures
        r == match as_uint(lookup(args@, key@)) {
            Some(n) => n,
            None => default,
        },
{
    match arg_u64(args, key) {
        Some(n) => n,
        None => default,
    }
}

/// The text stored under `key`, or `default` when there is no string
/// there.
pub fn arg_str_or(args: &Arguments, key: &str, default: &str) -> (r: String)
    ensures
        r@ == match as_text(lookup(args@, key@)) {
            Some(s) => s,
            None => default@,
        },
{
    match arg_str(args, key) {
        Some(s) => s,
        None => owned(default),
    }
}

/// The texts of the string items of `items`, in order; other items are
/// skipped.
pub open spec fn strings_in(items: Seq<Json>) -> Seq<Seq<char>>
    decreases items.len(),
{
    if items.len() == 0 {
        Seq::empty()
    } else {
        let before = strings_in(items.drop_last());
        match items.last() {
            Json::Str(s) => before.push(s@),
            _ => before,
        }
    }
}

/// The array stored under `key` (`as_array`).
pub open spec fn as_items(v: Option<Json>) -> Option<Seq<Json>> {
    match v {
        Some(Json::Array(a)) => Some(a@),
        _ => None,
    }
}

/// The entries of `es` whose values are strings, in order, each as its key
/// and its text.
pub open spec fn string_entries(es: Seq<(String, Json)>) -> Seq<(Seq<char>, Seq<char>)>
    decreases es.len(),
{
    if es.len() == 0 {
        Seq::empty()
    } else {
        let before = string_entries(es.drop_last());
        match es.last().1 {
            Json::Str(s) => before.push((es.last().0@, s@)),
            _ => before,
        }
    }
}

/// The texts of the pairs of strings `v`.
pub open spec fn pair_views(v: Seq<(String, String)>) -> Seq<(Seq<char>, Seq<char>)> {
    v.map_values(|p: (String, String)| (p.0@, p.1@))
}

/// The string entries of the object under `key`, none where there is no
/// object.
pub open spec fn string_entries_at(args: Seq<(String, Json)>, key: Seq<char>) -> Seq<(Seq<char>, Seq<char>)> {
    match lookup(args, key) {
        Some(Json::Object(es)) => string_entries(es@),
        _ => Seq::empty(),
    }
}

/// The string entries of the object under `key`, each as its key and its
/// text.
pub fn arg_string_entries(args: &Arguments, key: &str) -> (r: Vec<(String, String)>)
    ensures
        pair_views(r@) == string_entries_at(args@, key@),
{
    let mut out: Vec<(String, String)> = Vec::new();
    match arg_get(args, key) {
        Some(Json::Object(es)) => {
            let mut i: usize = 0;
            assert(es@.take(0) =~= Seq::<(String, Json)>::empty());
            assert(pair_views(out@) =~= Seq::<(Seq<char>, Seq<char>)>::empty());
            while i < es.len()
                invariant
                    i <= es@.len(),
                    pair_views(out@) == string_entries(es@.take(i as int)),
                decreases es@.len() - i,
            {
                assert(es@.take(i + 1).drop_last() =~= es@.take(i as int));
                assert(es@.take(i + 1).last() == es@[i as int]);
                match &es[i].1 {
                    Json::Str(s) => {
                        let ghost before = out@;
                        out.push((es[i].0.clone(), s.clone()));
                        assert(pair_views(out@) =~= pair_views(before).push((es@[i as int].0@, s@)));
                    },
                    _ => {},
                }
                i = i + 1;
            }
            assert(es@.take(es@.len() as int) =~= es@);
        },
        _ => {
            assert(pair_views(out@) =~= Seq::<(Seq<char>, Seq<char>)>::empty());
        },
    }
    out
}

/// The string items of the array stored under `key`, when there is an
/// array there.
pub fn arg_strings(args: &Arguments, key: &str) -> (r: Option<Vec<String>>)
    ensures
        match as_items(lookup(args@, key@)) {
            Some(items) => r matches Some(v) && crate::text::views(v@) == strings_in(items),
            None => r is None,
        },
{
    match arg_get(args, key) {
        Some(Json::Array(items)) => {
            let mut out: Vec<String> = Vec::new();
            let mut i: usize = 0;
            assert(items@.take(0) =~= Seq::<Json>::empty());
            while i < items.len()
                invariant
                    i <= items@.len(),
                    crate::text::views(out@) == strings_in(items@.take(i as int)),
                decreases items@.len() - i,
            {
                assert(items@.take(i + 1).drop_last() =~= items@.take(i as int));
                assert(items@.take(i + 1).last() == items@[i as int]);
                match &items[i] {
                    Json::Str(s) => {
                        let ghost before = out@;
                        out.push(s.clone());
                        assert(crate::text::views(out@) =~= crate::text::views(before).push(s@));
                    },
                    _ => {},
                }
                i = i + 1;
            }
            assert(items@.take(items@.len() as int) =~= items@);
            Some(out)
        },
        _ => None,
    }
}

// ---------------------------------------------------------------------------
// Building values
// ---------------------------------------------------------------------------

/// A string value.
pub fn jstr(s: &str) -> (r: Json)
    ensures
        r matches Json::Str(t) && t@ == s@,
{
    Json::Str(owned(s))
}

/// An optional string value, `null` when absent.
pub fn jopt_str(s: &Option<String>) -> (r: Json)
    ensures
        match s {
            Some(t) => r matches Json::Str(u) && u@ == t@,
            None => r == Json::Null,
        },
{
    match s {
        Some(t) => Json::Str(t.clone()),
        None => Json::Null,
    }
}

/// An optional number value, `null` when absent.
pub fn jopt_u64(n: Option<u64>) -> (r: Json)
    ensures
        match n {
            Some(v) => r == Json::UInt(v),
            None => r == Json::Null,
        },
{
    match n {
        Some(v) => Json::UInt(v),
        None => Json::Null,
    }
}

/// One entry of an object.
pub fn entry(key: &str, value: Json) -> (r: (String, Json))
    ensures
        r.0@ == key@,
        r.1 == value,
{
    (owned(key), value)
}

// ---------------------------------------------------------------------------
// Reading objects
// ---------------------------------------------------------------------------

/// The value of field `key` of an object; `None` for a missing field or a
/// value that is not an object (`value[key]` reads `null` there).
pub open spec fn field(j: Json, key: Seq<char>) -> Option<Json> {
    match j {
        Json::Object(es) => lookup(es@, key),
        _ => None,
    }
}

/// The field names of an object, in order.
pub open spec fn keys(j: Json) -> Seq<Seq<char>> {
    match j {
        Json::Object(es) => es@.map_values(|e: (String, Json)| e.0@),
        _ => Seq::empty(),
    }
}

/// The text of field `key`, when it is a string.
pub open spec fn text_field(j: Json, key: Seq<char>) -> Option<Seq<char>> {
    as_text(field(j, key))
}

/// The text of an optional string.
pub open spec fn opt_view(o: Option<String>) -> Option<Seq<char>> {
    match o {
        Some(s) => Some(s@),
        None => None,
    }
}

/// The value of field `key` of `j`.
pub fn obj_get<'a>(j: &'a Json, key: &str) -> (r: Option<&'a Json>)
    ensures
        match r {
            Some(v) => field(*j, key@) == Some(*v),
            None => field(*j, key@) is None,
        },
{
    match j {
        Json::Object(es) => arg_get(es, key),
        _ => None,
    }
}

/// The text of field `key` of `j`, when it is a string.
pub fn obj_str(j: &Json, key: &str) -> (r: Option<String>)
    ensures
        match r {
            Some(s) => text_field(*j, key@) == Some(s@),
            None => text_field(*j, key@) is None,
        },
{
    match obj_get(j, key) {
        Some(Json::Str(s)) => Some(s.clone()),
        _ => None,
    }
}

/// The number in field `key` of `j`, when it is a non-negative integer.
pub fn obj_u64(j: &Json, key: &str) -> (r: Option<u64>)
    ensures
        r == as_uint(field(*j, key@)),
{
    match obj_get(j, key) {
        Some(Json::UInt(n)) => Some(*n),
        _ => None,
    }
}

/// The `i`th value of an object or array.
pub open spec fn value_at(j: Json, i: int) -> Json {
    match j {
        Json::Object(es) => es@[i].1,
        Json::Array(v) => v@[i],
        _ => Json::Null,
    }
}

/// `v` is a string with text `t`.
pub open spec fn is_text(v: Json, t: Seq<char>) -> bool {
    v matches Json::Str(s) && s@ == t
}

/// `v` is the JSON form of the optional text `t`.
pub open spec fn is_opt_text_value(v: Json, t: Option<Seq<char>>) -> bool {
    match t {
        Some(s) => is_text(v, s),
        None => v == Json::Null,
    }
}

/// `v` is the JSON form of the optional number `n`.
pub open spec fn is_opt_uint_value(v: Json, n: Option<u64>) -> bool {
    match n {
        Some(x) => v == Json::UInt(x),
        None => v == Json::Null,
    }
}

/// `v` is an array of strings with texts `ts`.
pub open spec fn is_text_array(v: Json, ts: Seq<Seq<char>>) -> bool {
    v matches Json::Array(a) && a@.len() == ts.len() && forall|i: int|
        0 <= i < ts.len() ==> is_text(#[trigger] a@[i], ts[i])
}

/// A JSON array of the given strings.
pub fn text_array(v: &Vec<String>) -> (r: Json)
    ensures
        is_text_array(r, v@.map_values(|s: String| s@)),
{
    let mut a: Vec<Json> = Vec::new();
    let mut i: usize = 0;
    while i < v.len()
        invariant
            i <= v.len(),
            a@.len() == i,
            forall|k: int| 0 <= k < i ==> is_text(#[trigger] a@[k], v@[k]@),
        decreases v.len() - i,
    {
        a.push(Json::Str(v[i].clone()));
        i = i + 1;
    }
    Json::Array(a)
}

/// Looking a key up in entries with one more at the end finds what it
/// found before, else the new entry where it has the key.
pub proof fn lemma_lookup_push(es: Seq<(String, Json)>, e: (String, Json), key: Seq<char>)
    ensures
        lookup(es.push(e), key) == match lookup(es, key) {
            Some(v) => Some(v),
            None => if e.0@ == key {
                Some(e.1)
            } else {
                None
            },
        },
    decreases es.len(),
{
    if es.len() > 0 {
        assert(es.push(e).drop_first() =~= es.drop_first().push(e));
        assert(es.push(e)[0] == es[0]);
        lemma_lookup_push(es.drop_first(), e, key);
    } else {
        assert(es.push(e).drop_first() =~= Seq::<(String, Json)>::empty());
        assert(es.push(e)[0] == e);
        reveal_with_fuel(lookup, 2);
    }
}

/// The values of two different fields of `j`, taken out of it.
pub fn take_two_fields(j: Json, k1: &str, k2: &str) -> (r: (Option<Json>, Option<Json>))
    requires
        k1@ != k2@,
    ensures
        r.0 == field(j, k1@),
        r.1 == field(j, k2@),
{
    let es = match j {
        Json::Object(es) => es,
        _ => {
            return (None, None);
        },
    };
    let ghost orig = es@;
    let mut rest = es;
    let mut a: Option<Json> = None;
    let mut b: Option<Json> = None;
    let ghost mut k: int = 0;
    assert(orig.take(0) =~= Seq::<(String, Json)>::empty());
    while rest.len() > 0
        invariant
            0 <= k <= orig.len(),
            rest@ =~= orig.subrange(k, orig.len() as int),
            a == lookup(orig.take(k), k1@),
            b == lookup(orig.take(k), k2@),
            k1@ != k2@,
        decreases rest.len(),
    {
        let e = rest.remove(0);
        proof {
            assert(orig.take(k + 1) =~= orig.take(k).push(e));
            lemma_lookup_push(orig.take(k), e, k1@);
            lemma_lookup_push(orig.take(k), e, k2@);
        }
        let (name, v) = e;
        if a.is_none() && str_eq(name.as_str(), k1) {
            a = Some(v);
        } else if b.is_none() && str_eq(name.as_str(), k2) {
            b = Some(v);
        }
        proof {
            k = k + 1;
        }
    }
    assert(orig.take(k) =~= orig);
    (a, b)
}

/// The value of field `key` of `j`, taken out of it.
pub fn take_field(j: Json, key: &str) -> (r: Option<Json>)
    ensures
        r == field(j, key@),
{
    let es = match j {
        Json::Object(es) => es,
        _ => {
            return None;
        },
    };
    let ghost orig = es@;
    let mut rest = es;
    let mut a: Option<Json> = None;
    let ghost mut k: int = 0;
    assert(orig.take(0) =~= Seq::<(String, Json)>::empty());
    while rest.len() > 0
        invariant
            0 <= k <= orig.len(),
            rest@ =~= orig.subrange(k, orig.len() as int),
            a == lookup(orig.take(k), key@),
        decreases rest.len(),
    {
        let e = rest.remove(0);
        proof {
            assert(orig.take(k + 1) =~= orig.take(k).push(e));
            lemma_lookup_push(orig.take(k), e, key@);
        }
        let (name, v) = e;
        if a.is_none() && str_eq(name.as_str(), key) {
            a = Some(v);
        }
        proof {
            k = k + 1;
        }
    }
    assert(orig.take(k) =~= orig);
    a
}

// ---------------------------------------------------------------------------
// JSON text
// ---------------------------------------------------------------------------

/// The compact JSON text that `serde_json` writes for `v`, as a
/// `serde_json::Value` (its `to_string`): object fields in the order of
/// their keys, a key that occurs twice written once with its last value.
pub uninterp spec fn json_text_of(v: Json) -> Seq<char>;

/// Whether `serde_json` reads `s` as one JSON value.
pub uninterp spec fn is_json_text(s: Seq<char>) -> bool;

/// The compact JSON text of `v`, written by `serde_json`: `v` is turned
/// into a `serde_json::Value` part for part (a number with a fraction
/// through its text) and written with `to_string`. The text depends on
/// `v` alone.
#[verifier::external_body]
pub(crate) fn json_text(v: &Json) -> (r: String)
    ensures
        r@ == json_text_of(*v),
{
    let back = |x: &Json| -> Value { serde_json::from_str(&json_text(x)).unwrap_or_default() };
    let value = match v {
        Json::Null => Value::Null,
        Json::Bool(b) => Value::Bool(*b),
        Json::UInt(n) => Value::from(*n),
        Json::NegInt(n) => Value::from(*n),
        Json::Float { text, .. } => serde_json::from_str(text).unwrap_or_default(),
        Json::Str(s) => Value::String(s.clone()),
        Json::Array(items) => items.iter().map(back).collect(),
        Json::Object(es) => es.iter().map(|(k, x)| (k.clone(), back(x))).collect(),
    };
    value.to_string()
}

/// Whether `serde_json::from_str` reads `s` as a JSON value; the answer
/// depends on `s` alone.
#[verifier::external_body]
pub(crate) fn parses_as_json(s: &str) -> (r: bool)
    ensures
        r == is_json_text(s@),
{
    serde_json::from_str::<Value>(s).is_ok()
}

/// The indented JSON text that `serde_json` writes for `v`
/// (`to_string_pretty`).
pub uninterp spec fn pretty_json_text_of(v: Json) -> Seq<char>;

/// The indented JSON text of `v`, written by `serde_json`
/// (`to_string_pretty` of the value that `json_text` writes). The text
/// depends on `v` alone.
#[verifier::external_body]
pub(crate) fn pretty_json_text(v: &Json) -> (r: String)
    ensures
        r@ == pretty_json_text_of(*v),
{
    let value: Value = serde_json::from_str(&json_text(v)).unwrap_or_default();
    serde_json::to_string_pretty(&value).unwrap_or_default()
}

} // verus!
