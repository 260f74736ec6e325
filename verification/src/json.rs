//! A JSON document as the library reads it.
//!
//! Objects keep their members in document order; when a key occurs more than
//! once, the last member is the one that counts, as in a JSON map where a
//! later member replaces an earlier one.
use vstd::prelude::*;
use vstd::string::StrSliceExecFns;
use crate::case::{camel_to_snake, camel_to_snake_spec, snake_to_camel, snake_to_camel_spec};
use crate::case_laws::{is_plain_snake, law_camel_to_snake_without_uppercase, law_snake_camel_round_trip};
use crate::text::{is_upper, str_eq};

verus! {

/// A JSON number: its textual rendering and, when it is an unsigned integer
/// that fits in 64 bits, that integer.
#[derive(Debug)]
pub struct JsonNumber {
    pub text: String,
    pub unsigned: Option<u64>,
}

/// A JSON value.
#[derive(Debug)]
pub enum JsonValue {
    Null,
    Bool(bool),
    Number(JsonNumber),
    Str(String),
    Array(Vec<JsonValue>),
    Object(Vec<(String, JsonValue)>),
}

/// The value of the last member of `members` whose key is `key`.
pub open spec fn last_member(members: Seq<(String, JsonValue)>, key: Seq<char>) -> Option<JsonValue>
    decreases members.len(),
{
    if members.len() == 0 {
        None
    } else if members.last().0@ == key {
        Some(members.last().1)
    } else {
        last_member(members.drop_last(), key)
    }
}

/// The member `key` of an object; `None` for a missing key or a non-object.
pub open spec fn json_get(v: JsonValue, key: Seq<char>) -> Option<JsonValue> {
    match v {
        JsonValue::Object(members) => last_member(members@, key),
        _ => None,
    }
}

/// The unsigned integer a value holds, if it is one.
pub open spec fn json_as_u64(v: JsonValue) -> Option<u64> {
    match v {
        JsonValue::Number(n) => n.unsigned,
        _ => None,
    }
}

/// The text of a string value.
pub open spec fn json_as_str(v: JsonValue) -> Option<Seq<char>> {
    match v {
        JsonValue::Str(s) => Some(s@),
        _ => None,
    }
}

/// `json_get` followed by `json_as_u64`.
pub open spec fn get_u64(v: JsonValue, key: Seq<char>) -> Option<u64> {
    match json_get(v, key) {
        Some(x) => json_as_u64(x),
        None => None,
    }
}

/// `json_get` followed by `json_as_str`.
pub open spec fn get_str(v: JsonValue, key: Seq<char>) -> Option<Seq<char>> {
    match json_get(v, key) {
        Some(x) => json_as_str(x),
        None => None,
    }
}

impl JsonValue {
    /// The member `key` of an object (the last one, if the key repeats).
    pub fn get(&self, key: &str) -> (r: Option<&JsonValue>)
        ensures
            r is Some <==> json_get(*self, key@) is Some,
            r is Some ==> *r.unwrap() == json_get(*self, key@).unwrap(),
    {
        match self {
            JsonValue::Object(members) => {
                let mut i = members.len();
                assert(members@.take(i as int) =~= members@);
                while i > 0
                    invariant
                        i <= members.len(),
                        json_get(*self, key@) == last_member(members@.take(i as int), key@),
                    decreases i,
                {
                    let ghost prefix = members@.take(i as int);
                    assert(prefix.drop_last() =~= members@.take(i - 1));
                    assert(prefix.last() == members@[i - 1]);
                    if str_eq(members[i - 1].0.as_str(), key) {
                        return Some(&members[i - 1].1);
                    }
                    i = i - 1;
                }
                None
            },
            _ => None,
        }
    }

    /// The unsigned integer this value holds, if it is one.
    pub fn as_u64(&self) -> (r: Option<u64>)
        ensures
            r == json_as_u64(*self),
    {
        match self {
            JsonValue::Number(n) => n.unsigned,
            _ => None,
        }
    }

    /// The text of a string value.
    pub fn as_str(&self) -> (r: Option<&str>)
        ensures
            r is Some <==> json_as_str(*self) is Some,
            r is Some ==> r.unwrap()@ == json_as_str(*self).unwrap(),
    {
        match self {
            JsonValue::Str(s) => Some(s.as_str()),
            _ => None,
        }
    }
}

/// Member `i` is the last member with its key, so it is the one that counts.
pub open spec fn is_last_key(ms: Seq<(String, JsonValue)>, i: int) -> bool {
    forall|j: int| i < j < ms.len() ==> (#[trigger] ms[j]).0@ != ms[i].0@
}

/// Member `i` counts and holds a string.
pub open spec fn counts_as_string(ms: Seq<(String, JsonValue)>, i: int) -> bool {
    is_last_key(ms, i) && ms[i].1 is Str
}

/// The (key, text) pair of member `i`, whose value is a string.
pub open spec fn string_pair(ms: Seq<(String, JsonValue)>, i: int) -> (Seq<char>, Seq<char>) {
    (ms[i].0@, ms[i].1->Str_0@)
}

/// The string-valued entries among the first `n` members of an object,
/// counting only the last member of each key, in member order.
pub open spec fn string_entries_upto(ms: Seq<(String, JsonValue)>, n: int) -> Seq<(Seq<char>, Seq<char>)>
    decreases n,
{
    if n <= 0 {
        Seq::empty()
    } else {
        let rest = string_entries_upto(ms, n - 1);
        if counts_as_string(ms, n - 1) {
            rest.push(string_pair(ms, n - 1))
        } else {
            rest
        }
    }
}

/// The string-valued entries of an object read as a map (the last member of
/// each key counts), as (key, text) pairs in member order.
pub open spec fn string_members(ms: Seq<(String, JsonValue)>) -> Seq<(Seq<char>, Seq<char>)> {
    string_entries_upto(ms, ms.len() as int)
}

/// The string elements of an array, in order.
pub open spec fn string_items(xs: Seq<JsonValue>) -> Seq<Seq<char>>
    decreases xs.len(),
{
    if xs.len() == 0 {
        Seq::empty()
    } else {
        let rest = string_items(xs.drop_last());
        match xs.last() {
            JsonValue::Str(s) => rest.push(s@),
            _ => rest,
        }
    }
}

/// The characters of each string, in order.
pub open spec fn strings_view(v: Seq<String>) -> Seq<Seq<char>> {
    Seq::new(v.len(), |i: int| v[i]@)
}

/// The characters of each pair of strings, in order.
pub open spec fn pairs_view(v: Seq<(String, String)>) -> Seq<(Seq<char>, Seq<char>)> {
    Seq::new(v.len(), |i: int| (v[i].0@, v[i].1@))
}

/// The string-valued members of `v` when it is an object, else none.
pub fn object_string_members(v: Option<&JsonValue>) -> (r: Vec<(String, String)>)
    ensures
        pairs_view(r@) == (match v {
            Some(JsonValue::Object(ms)) => string_members(ms@),
            _ => Seq::empty(),
        }),
{
    let mut out: Vec<(String, String)> = Vec::new();
    match v {
        Some(JsonValue::Object(ms)) => {
            let mut i: usize = 0;
            while i < ms.len()
                invariant
                    i <= ms.len(),
                    pairs_view(out@) == string_entries_upto(ms@, i as int),
                decreases ms.len() - i,
            {
                let last = is_last_member(ms, i);
                match &ms[i].1 {
                    JsonValue::Str(s) => {
                        if last {
                            out.push((ms[i].0.clone(), s.clone()));
                            assert(pairs_view(out@) =~= string_entries_upto(ms@, i as int).push(
                                string_pair(ms@, i as int),
                            ));
                        }
                    },
                    _ => {},
                }
                i = i + 1;
            }
        },
        _ => {
            assert(pairs_view(out@) =~= Seq::empty());
        },
    }
    out
}

/// Whether member `i` is the last member with its key.
fn is_last_member(ms: &Vec<(String, JsonValue)>, i: usize) -> (r: bool)
    requires
        i < ms.len(),
    ensures
        r == is_last_key(ms@, i as int),
{
    let mut j: usize = i + 1;
    while j < ms.len()
        invariant
            i < j <= ms.len(),
            forall|k: int| i < k < j ==> (#[trigger] ms@[k]).0@ != ms@[i as int].0@,
        decreases ms.len() - j,
    {
        if str_eq(ms[j].0.as_str(), ms[i].0.as_str()) {
            return false;
        }
        j = j + 1;
    }
    true
}

/// The string elements of `v` when it is an array, else none.
pub fn array_strings(v: Option<&JsonValue>) -> (r: Vec<String>)
    ensures
        strings_view(r@) == (match v {
            Some(JsonValue::Array(xs)) => string_items(xs@),
            _ => Seq::empty(),
        }),
{
    let mut out: Vec<String> = Vec::new();
    match v {
        Some(JsonValue::Array(xs)) => {
            let mut i: usize = 0;
            while i < xs.len()
                invariant
                    i <= xs.len(),
                    strings_view(out@) == string_items(xs@.take(i as int)),
                decreases xs.len() - i,
            {
                assert(xs@.take(i + 1).drop_last() =~= xs@.take(i as int));
                assert(xs@.take(i + 1).last() == xs@[i as int]);
                match &xs[i] {
                    JsonValue::Str(s) => {
                        out.push(s.clone());
                        assert(strings_view(out@) =~= string_items(xs@.take(i as int)).push(s@));
                    },
                    _ => {},
                }
                i = i + 1;
            }
            assert(xs@.take(xs.len() as int) =~= xs@);
        },
        _ => {
            assert(strings_view(out@) =~= Seq::empty());
        },
    }
    out
}

/// The member `key` of `v` read as an unsigned integer.
pub fn value_u64(v: &JsonValue, key: &str) -> (r: Option<u64>)
    ensures
        r == get_u64(*v, key@),
{
    match v.get(key) {
        Some(x) => x.as_u64(),
        None => None,
    }
}

/// The member `key` of `v` read as a string.
pub fn value_str<'a>(v: &'a JsonValue, key: &str) -> (r: Option<&'a str>)
    ensures
        r is Some <==> get_str(*v, key@) is Some,
        r is Some ==> r.unwrap()@ == get_str(*v, key@).unwrap(),
{
    match v.get(key) {
        Some(x) => x.as_str(),
        None => None,
    }
}

/// The key that a member named `key` gets: camelCase when `to_camel`, else snake_case.
pub open spec fn converted_key(key: Seq<char>, to_camel: bool) -> Seq<char> {
    if to_camel {
        snake_to_camel_spec(key)
    } else {
        camel_to_snake_spec(key)
    }
}

/// `b` is `a` with every object key, at every depth, converted by
/// `converted_key`; members keep their order, and all other values are unchanged.
pub open spec fn keys_converted(a: JsonValue, b: JsonValue, to_camel: bool) -> bool
    decreases a,
{
    match a {
        JsonValue::Array(xs) => match b {
            JsonValue::Array(ys) => {
                &&& ys.len() == xs.len()
                &&& forall|i: int|
                    0 <= i < xs.len() ==> keys_converted(#[trigger] xs@[i], ys@[i], to_camel)
            },
            _ => false,
        },
        JsonValue::Object(ms) => match b {
            JsonValue::Object(ns) => {
                &&& ns.len() == ms.len()
                &&& forall|i: int|
                    0 <= i < ms.len() ==> {
                        &&& (#[trigger] ns@[i]).0@ == converted_key(ms@[i].0@, to_camel)
                        &&& keys_converted(ms@[i].1, ns@[i].1, to_camel)
                    }
            },
            _ => false,
        },
        _ => b == a,
    }
}

/// Copies a leaf value.
fn copy_number(n: &JsonNumber) -> (r: JsonNumber)
    ensures
        r == *n,
{
    JsonNumber { text: n.text.clone(), unsigned: n.unsigned }
}

/// Converts every object key of `v`, at every depth.
fn convert_keys(v: &JsonValue, to_camel: bool) -> (r: JsonValue)
    ensures
        keys_converted(*v, r, to_camel),
    decreases *v,
{
    match v {
        JsonValue::Null => JsonValue::Null,
        JsonValue::Bool(b) => JsonValue::Bool(*b),
        JsonValue::Number(n) => JsonValue::Number(copy_number(n)),
        JsonValue::Str(s) => JsonValue::Str(s.clone()),
        JsonValue::Array(xs) => {
            let mut ys: Vec<JsonValue> = Vec::new();
            let mut i: usize = 0;
            while i < xs.len()
                invariant
                    *v == JsonValue::Array(*xs),
                    i <= xs.len(),
                    ys.len() == i,
                    forall|k: int| 0 <= k < i ==> keys_converted(#[trigger] xs@[k], ys@[k], to_camel),
                decreases xs.len() - i,
            {
                proof {
                    assert(decreases_to!(*v => (*v)->Array_0));
                    assert(decreases_to!(*xs => xs@));
                    assert(decreases_to!(xs@ => xs@[i as int]));
                }
                let y = convert_keys(&xs[i], to_camel);
                ys.push(y);
                i = i + 1;
            }
            JsonValue::Array(ys)
        },
        JsonValue::Object(ms) => {
            let mut ns: Vec<(String, JsonValue)> = Vec::new();
            let mut i: usize = 0;
            while i < ms.len()
                invariant
                    *v == JsonValue::Object(*ms),
                    i <= ms.len(),
                    ns.len() == i,
                    forall|k: int|
                        0 <= k < i ==> {
                            &&& (#[trigger] ns@[k]).0@ == converted_key(ms@[k].0@, to_camel)
                            &&& keys_converted(ms@[k].1, ns@[k].1, to_camel)
                        },
                decreases ms.len() - i,
            {
                let key = if to_camel {
                    snake_to_camel(ms[i].0.as_str())
                } else {
                    camel_to_snake(ms[i].0.as_str())
                };
                proof {
                    assert(decreases_to!(*v => (*v)->Object_0));
                    assert(decreases_to!(*ms => ms@));
                    assert(decreases_to!(ms@ => ms@[i as int]));
                    assert(decreases_to!(ms@[i as int] => ms@[i as int].1));
                }
                let val = convert_keys(&ms[i].1, to_camel);
                ns.push((key, val));
                i = i + 1;
            }
            JsonValue::Object(ns)
        },
    }
}

/// Recursively convert all object keys in a JSON value from `snake_case` to `camelCase`.
///
/// String values are left unchanged, including strings that themselves hold
/// JSON text.
pub fn to_camel_case_keys(value: JsonValue) -> (r: JsonValue)
    ensures
        keys_converted(value, r, true),
{
    convert_keys(&value, true)
}

/// Recursively convert all object keys in a JSON value from `camelCase` to `snake_case`.
pub fn to_snake_case_keys(value: JsonValue) -> (r: JsonValue)
    ensures
        keys_converted(value, r, false),
{
    convert_keys(&value, false)
}

/// Every object key of `a`, at every depth, is a plain snake_case identifier.
pub open spec fn keys_plain_snake(a: JsonValue) -> bool
    decreases a,
{
    match a {
        JsonValue::Array(xs) => forall|i: int| 0 <= i < xs.len() ==> keys_plain_snake(#[trigger] xs@[i]),
        JsonValue::Object(ms) => forall|i: int|
            0 <= i < ms.len() ==> is_plain_snake((#[trigger] ms@[i]).0@) && keys_plain_snake(ms@[i].1),
        _ => true,
    }
}

/// `b` holds the same document as `a`: the same structure, keys with the
/// same characters, and equal leaves.
pub open spec fn same_json(a: JsonValue, b: JsonValue) -> bool
    decreases a,
{
    match a {
        JsonValue::Array(xs) => match b {
            JsonValue::Array(ys) => {
                &&& ys.len() == xs.len()
                &&& forall|i: int| 0 <= i < xs.len() ==> same_json(#[trigger] xs@[i], ys@[i])
            },
            _ => false,
        },
        JsonValue::Object(ms) => match b {
            JsonValue::Object(ns) => {
                &&& ns.len() == ms.len()
                &&& forall|i: int|
                    0 <= i < ms.len() ==> (#[trigger] ns@[i]).0@ == ms@[i].0@ && same_json(ms@[i].1, ns@[i].1)
            },
            _ => false,
        },
        _ => b == a,
    }
}

/// Converting the keys of a document with plain snake_case keys to camelCase
/// and back gives the same document.
pub proof fn law_key_conversion_round_trip(a: JsonValue, b: JsonValue, c: JsonValue)
    requires
        keys_plain_snake(a),
        keys_converted(a, b, true),
        keys_converted(b, c, false),
    ensures
        same_json(a, c),
    decreases a,
{
    match a {
        JsonValue::Array(xs) => {
            let ys = b->Array_0;
            let zs = c->Array_0;
            assert forall|i: int| 0 <= i < xs.len() implies same_json(#[trigger] xs@[i], zs@[i]) by {
                assert(keys_converted(xs@[i], ys@[i], true));
                assert(keys_converted(ys@[i], zs@[i], false));
                assert(decreases_to!(a => a->Array_0));
                assert(decreases_to!(a->Array_0 => xs@));
                assert(decreases_to!(xs@ => xs@[i]));
                law_key_conversion_round_trip(xs@[i], ys@[i], zs@[i]);
            }
        },
        JsonValue::Object(ms) => {
            let ns = b->Object_0;
            let os = c->Object_0;
            assert forall|i: int| 0 <= i < ms.len() implies (#[trigger] os@[i]).0@ == ms@[i].0@ && same_json(
                ms@[i].1,
                os@[i].1,
            ) by {
                assert(is_plain_snake(ms@[i].0@) && keys_plain_snake(ms@[i].1));
                assert(ns@[i].0@ == converted_key(ms@[i].0@, true));
                assert(keys_converted(ns@[i].1, os@[i].1, false));
                law_snake_camel_round_trip(ms@[i].0@);
                assert(decreases_to!(a => a->Object_0));
                assert(decreases_to!(a->Object_0 => ms@));
                assert(decreases_to!(ms@ => ms@[i]));
                assert(decreases_to!(ms@[i] => ms@[i].1));
                law_key_conversion_round_trip(ms@[i].1, ns@[i].1, os@[i].1);
            }
        },
        _ => {},
    }
}

/// No object key of `a`, at any depth, holds an uppercase character.
pub open spec fn keys_without_uppercase(a: JsonValue) -> bool
    decreases a,
{
    match a {
        JsonValue::Array(xs) => forall|i: int| 0 <= i < xs.len() ==> keys_without_uppercase(#[trigger] xs@[i]),
        JsonValue::Object(ms) => forall|i: int|
            0 <= i < ms.len() ==> (forall|j: int|
                0 <= j < (#[trigger] ms@[i]).0@.len() ==> !is_upper(ms@[i].0@[j]))
                && keys_without_uppercase(ms@[i].1),
        _ => true,
    }
}

/// A document whose keys hold no uppercase character comes out of the
/// snake_case key conversion unchanged, so callers may pass keys in either case.
pub proof fn law_snake_keys_unchanged(a: JsonValue, b: JsonValue)
    requires
        keys_without_uppercase(a),
        keys_converted(a, b, false),
    ensures
        same_json(a, b),
    decreases a,
{
    match a {
        JsonValue::Array(xs) => {
            let ys = b->Array_0;
            assert forall|i: int| 0 <= i < xs.len() implies same_json(#[trigger] xs@[i], ys@[i]) by {
                assert(keys_converted(xs@[i], ys@[i], false));
                assert(decreases_to!(a => a->Array_0));
                assert(decreases_to!(a->Array_0 => xs@));
                assert(decreases_to!(xs@ => xs@[i]));
                law_snake_keys_unchanged(xs@[i], ys@[i]);
            }
        },
        JsonValue::Object(ms) => {
            let ns = b->Object_0;
            assert forall|i: int| 0 <= i < ms.len() implies (#[trigger] ns@[i]).0@ == ms@[i].0@ && same_json(
                ms@[i].1,
                ns@[i].1,
            ) by {
                let k = ms@[i].0@;
                assert(forall|j: int| 0 <= j < k.len() ==> !is_upper(k[j]));
                law_camel_to_snake_without_uppercase(k);
                assert(keys_converted(ms@[i].1, ns@[i].1, false));
                assert(decreases_to!(a => a->Object_0));
                assert(decreases_to!(a->Object_0 => ms@));
                assert(decreases_to!(ms@ => ms@[i]));
                assert(decreases_to!(ms@[i] => ms@[i].1));
                law_snake_keys_unchanged(ms@[i].1, ns@[i].1);
            }
        },
        _ => {},
    }
}

proof fn lemma_last_member_index(ms: Seq<(String, JsonValue)>, k: Seq<char>)
    ensures
        last_member(ms, k) is Some ==> exists|i: int|
            0 <= i < ms.len() && ms[i].0@ == k && is_last_key(ms, i) && last_member(ms, k) == Some(ms[i].1),
        last_member(ms, k) is None ==> forall|i: int| 0 <= i < ms.len() ==> (#[trigger] ms[i]).0@ != k,
    decreases ms.len(),
{
    if ms.len() > 0 {
        let t = ms.drop_last();
        lemma_last_member_index(t, k);
        let n = ms.len() - 1;
        if ms.last().0@ == k {
            assert(ms[n].0@ == k && is_last_key(ms, n) && last_member(ms, k) == Some(ms[n].1));
        } else if last_member(t, k) is Some {
            let i = choose|i: int|
                0 <= i < t.len() && t[i].0@ == k && is_last_key(t, i) && last_member(t, k) == Some(t[i].1);
            assert(ms[i] == t[i]);
            assert forall|j: int| i < j < ms.len() implies (#[trigger] ms[j]).0@ != ms[i].0@ by {
                if j < n {
                    assert(ms[j] == t[j]);
                }
            }
            assert(last_member(ms, k) == last_member(t, k));
            assert(0 <= i < ms.len() && ms[i].0@ == k && is_last_key(ms, i) && last_member(ms, k) == Some(ms[i].1));
        } else {
            assert forall|i: int| 0 <= i < ms.len() implies (#[trigger] ms[i]).0@ != k by {
                if i < n {
                    assert(ms[i] == t[i]);
                }
            }
        }
    }
}

proof fn lemma_last_key_is_last_member(ms: Seq<(String, JsonValue)>, i: int)
    requires
        0 <= i < ms.len(),
        is_last_key(ms, i),
    ensures
        last_member(ms, ms[i].0@) == Some(ms[i].1),
{
    let k = ms[i].0@;
    lemma_last_member_index(ms, k);
    if last_member(ms, k) is None {
        assert(ms[i].0@ != k);
    } else {
        let i2 = choose|i2: int|
            0 <= i2 < ms.len() && ms[i2].0@ == k && is_last_key(ms, i2) && last_member(ms, k) == Some(ms[i2].1);
        if i < i2 {
            assert(ms[i2].0@ != ms[i].0@);
        } else if i2 < i {
            assert(ms[i].0@ != ms[i2].0@);
        }
    }
}

/// The member from which entry `t` of the first `n` members' string
/// entries was taken.
spec fn entry_source(ms: Seq<(String, JsonValue)>, n: int, t: int) -> int
    decreases n,
{
    if n <= 0 {
        0
    } else if counts_as_string(ms, n - 1) && t == string_entries_upto(ms, n - 1).len() {
        n - 1
    } else {
        entry_source(ms, n - 1, t)
    }
}

proof fn lemma_entries_prefix(ms: Seq<(String, JsonValue)>, m: int, n: int)
    requires
        0 <= m <= n,
    ensures
        string_entries_upto(ms, m).len() <= string_entries_upto(ms, n).len(),
        forall|t: int|
            0 <= t < string_entries_upto(ms, m).len() ==> #[trigger] string_entries_upto(ms, n)[t]
                == string_entries_upto(ms, m)[t],
    decreases n,
{
    if m < n {
        lemma_entries_prefix(ms, m, n - 1);
        let r = string_entries_upto(ms, n - 1);
        let e = string_entries_upto(ms, n);
        assert forall|t: int| 0 <= t < r.len() implies #[trigger] e[t] == r[t] by {
            if counts_as_string(ms, n - 1) {
                assert(e == r.push(string_pair(ms, n - 1)));
            }
        }
    }
}

proof fn lemma_entry_source(ms: Seq<(String, JsonValue)>, n: int, t: int)
    requires
        0 <= n <= ms.len(),
        0 <= t < string_entries_upto(ms, n).len(),
    ensures
        0 <= entry_source(ms, n, t) < n,
        counts_as_string(ms, entry_source(ms, n, t)),
        string_entries_upto(ms, n)[t] == string_pair(ms, entry_source(ms, n, t)),
    decreases n,
{
    let r = string_entries_upto(ms, n - 1);
    if counts_as_string(ms, n - 1) {
        assert(string_entries_upto(ms, n) == r.push(string_pair(ms, n - 1)));
        if t < r.len() {
            lemma_entry_source(ms, n - 1, t);
        }
    } else {
        lemma_entry_source(ms, n - 1, t);
    }
}

proof fn lemma_entries_distinct(ms: Seq<(String, JsonValue)>, n: int, t1: int, t2: int)
    requires
        0 <= n <= ms.len(),
        0 <= t1 < t2 < string_entries_upto(ms, n).len(),
    ensures
        string_entries_upto(ms, n)[t1].0 != string_entries_upto(ms, n)[t2].0,
    decreases n,
{
    let r = string_entries_upto(ms, n - 1);
    if counts_as_string(ms, n - 1) {
        assert(string_entries_upto(ms, n) == r.push(string_pair(ms, n - 1)));
        if t2 < r.len() {
            lemma_entries_distinct(ms, n - 1, t1, t2);
        } else {
            lemma_entry_source(ms, n - 1, t1);
            let i = entry_source(ms, n - 1, t1);
            assert(ms[n - 1].0@ != ms[i].0@);
        }
    } else {
        lemma_entries_distinct(ms, n - 1, t1, t2);
    }
}

/// The string settings read from an object are the string-valued entries
/// of that object read as a map: no key occurs twice, each pair holds the
/// text of the member that counts for its key, and every key whose counting
/// member is a string is there.
pub proof fn law_string_members_are_map_entries(ms: Seq<(String, JsonValue)>)
    ensures
        forall|t1: int, t2: int|
            #![trigger string_members(ms)[t1], string_members(ms)[t2]]
            0 <= t1 < t2 < string_members(ms).len() ==> string_members(ms)[t1].0 != string_members(ms)[t2].0,
        forall|t: int|
            0 <= t < string_members(ms).len() ==> json_as_str(
                #[trigger] last_member(ms, string_members(ms)[t].0).unwrap(),
            ) == Some(string_members(ms)[t].1) && last_member(ms, string_members(ms)[t].0) is Some,
        forall|k: Seq<char>|
            #![trigger last_member(ms, k)]
            last_member(ms, k) is Some && json_as_str(last_member(ms, k).unwrap()) is Some ==> exists|t: int|
                0 <= t < string_members(ms).len() && string_members(ms)[t] == (
                    k,
                    json_as_str(last_member(ms, k).unwrap()).unwrap(),
                ),
{
    let n = ms.len() as int;
    let e = string_members(ms);
    assert forall|t1: int, t2: int|
        #![trigger e[t1], e[t2]]
        0 <= t1 < t2 < e.len() implies e[t1].0 != e[t2].0 by {
        lemma_entries_distinct(ms, n, t1, t2);
    }
    assert forall|t: int| 0 <= t < e.len() implies json_as_str(
        #[trigger] last_member(ms, e[t].0).unwrap(),
    ) == Some(e[t].1) && last_member(ms, e[t].0) is Some by {
        lemma_entry_source(ms, n, t);
        lemma_last_key_is_last_member(ms, entry_source(ms, n, t));
    }
    assert forall|k: Seq<char>| #![trigger last_member(ms, k)]
        last_member(ms, k) is Some && json_as_str(last_member(ms, k).unwrap()) is Some implies exists|t: int|
            0 <= t < e.len() && e[t] == (k, json_as_str(last_member(ms, k).unwrap()).unwrap()) by {
        lemma_last_member_index(ms, k);
        let i = choose|i: int|
            0 <= i < ms.len() && ms[i].0@ == k && is_last_key(ms, i) && last_member(ms, k) == Some(ms[i].1);
        assert(counts_as_string(ms, i));
        lemma_entries_prefix(ms, i + 1, n);
        let r = string_entries_upto(ms, i);
        assert(string_entries_upto(ms, i + 1) == r.push(string_pair(ms, i)));
        assert(string_entries_upto(ms, i + 1)[r.len() as int] == string_pair(ms, i));
        assert(e[r.len() as int] == string_pair(ms, i));
    }
}

/// The strings read from an array are its string elements, each with its
/// text exactly as written, in array order; other elements are skipped.
pub proof fn law_string_items_are_the_string_elements(xs: Seq<JsonValue>)
    ensures
        string_items(xs) == xs.filter(|v: JsonValue| v is Str).map_values(|v: JsonValue| v->Str_0@),
    decreases xs.len(),
{
    reveal(Seq::filter);
    if xs.len() > 0 {
        let t = xs.drop_last();
        law_string_items_are_the_string_elements(t);
        let f = t.filter(|v: JsonValue| v is Str);
        assert(xs.filter(|v: JsonValue| v is Str) == (if xs.last() is Str {
            f.push(xs.last())
        } else {
            f
        }));
        if xs.last() is Str {
            assert(f.push(xs.last()).map_values(|v: JsonValue| v->Str_0@) =~= f.map_values(
                |v: JsonValue| v->Str_0@,
            ).push(xs.last()->Str_0@));
        }
    }
}

} // verus!
