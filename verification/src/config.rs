//! Configuration parsing shared by the language bindings.
use vstd::prelude::*;
use vstd::string::StrSliceExecFns;
use crate::json::{
    value_str, value_u64, array_strings, get_str, get_u64, json_get, object_string_members, pairs_view,
    string_items, string_members, strings_view, JsonValue,
};
use crate::text::{
    all_ascii, ascii_lower, chars_of, is_ascii_char, lowercase_of, starts_with, str_eq, str_starts_with,
    str_to_lowercase,
};

verus! {

/// Where cached responses are kept.
#[derive(Debug)]
pub enum CacheBackend {
    /// In process memory.
    Memory,
    /// A storage service reached through the named scheme, with its settings
    /// as (key, value) pairs.
    OpenDal { scheme: String, config: Vec<(String, String)> },
}

/// Response cache settings.
#[derive(Debug)]
pub struct CacheConfig {
    pub max_entries: usize,
    pub ttl_secs: u64,
    pub backend: CacheBackend,
}

/// Request rate limits.
#[derive(Debug)]
pub struct RateLimitConfig {
    pub rpm: Option<u32>,
    pub tpm: Option<u64>,
    pub window_secs: u64,
}

/// What happens when a budget is exceeded.
#[derive(Debug, PartialEq, Eq, Structural)]
pub enum Enforcement {
    Soft,
    Hard,
}

/// How the API key is sent.
#[derive(Debug)]
pub enum AuthHeaderFormat {
    /// No authorization header.
    NoHeader,
    /// The key in a header of the given name.
    ApiKey(String),
    /// `Authorization: Bearer <key>`.
    Bearer,
}

/// A provider that the caller describes.
#[derive(Debug)]
pub struct CustomProviderConfig {
    pub name: String,
    pub base_url: String,
    pub auth_header: AuthHeaderFormat,
    pub model_prefixes: Vec<String>,
}

/// `s` begins with `p`; with `fold`, the ASCII letters of `s` are read in
/// lowercase.
pub open spec fn prefix_at(s: Seq<char>, p: Seq<char>, fold: bool) -> bool {
    &&& p.len() <= s.len()
    &&& forall|i: int|
        0 <= i < p.len() ==> (if fold {
            ascii_lower(#[trigger] s[i])
        } else {
            s[i]
        }) == p[i]
}

/// `s` with every leading copy of `p` removed; with `fold`, ASCII case is
/// ignored.
pub open spec fn strip_prefixes(s: Seq<char>, p: Seq<char>, fold: bool) -> Seq<char>
    decreases s.len(),
{
    if p.len() > 0 && prefix_at(s, p, fold) {
        strip_prefixes(s.skip(p.len() as int), p, fold)
    } else {
        s
    }
}

/// The header name of an `api-key:` format string `input` whose lowercase
/// form is `lowered`: an ASCII input keeps the case it was written in (every
/// leading `api-key:` removed, in any ASCII case); any other input is read in
/// its lowercase form, with every leading `api-key:` removed.
pub open spec fn api_key_header(lowered: Seq<char>, input: Seq<char>) -> Seq<char> {
    if all_ascii(input) {
        strip_prefixes(input, "api-key:"@, true)
    } else {
        strip_prefixes(lowered, "api-key:"@, false)
    }
}

/// The header format that the format string `input` names, where `lowered`
/// is its lowercase form: the forms are recognised on `lowered`.
pub open spec fn auth_header_named(lowered: Seq<char>, input: Seq<char>, a: AuthHeaderFormat) -> bool {
    if lowered == "none"@ {
        a is NoHeader
    } else if starts_with(lowered, "api-key:"@) {
        a matches AuthHeaderFormat::ApiKey(k) && k@ == api_key_header(lowered, input)
    } else {
        a is Bearer
    }
}

/// Whether `c` is `p`; with `fold`, once an ASCII uppercase letter is lowered.
fn char_matches(c: char, p: char, fold: bool) -> (r: bool)
    ensures
        r == ((if fold {
            ascii_lower(c)
        } else {
            c
        }) == p),
{
    if fold && 'A' <= c && c <= 'Z' {
        (c as u32) + 32 == (p as u32)
    } else {
        c == p
    }
}

/// Whether `v` holds the characters of `p` from position `start` on; with
/// `fold`, ASCII case ignored.
fn matches_at(v: &Vec<char>, start: usize, p: &Vec<char>, fold: bool) -> (r: bool)
    requires
        start <= v.len(),
    ensures
        r == prefix_at(v@.skip(start as int), p@, fold),
{
    if p.len() > v.len() - start {
        return false;
    }
    let mut j: usize = 0;
    while j < p.len()
        invariant
            start <= v.len(),
            p.len() <= v.len() - start,
            j <= p.len(),
            forall|i: int|
                0 <= i < j ==> (if fold {
                    ascii_lower(#[trigger] v@.skip(start as int)[i])
                } else {
                    v@.skip(start as int)[i]
                }) == p@[i],
        decreases p.len() - j,
    {
        assert(v@.skip(start as int)[j as int] == v@[start + j]);
        if !char_matches(v[start + j], p[j], fold) {
            return false;
        }
        j = j + 1;
    }
    true
}

/// Whether every character of `s` is ASCII.
fn is_all_ascii(s: &str) -> (r: bool)
    ensures
        r == all_ascii(s@),
{
    let v = chars_of(s);
    let mut i: usize = 0;
    while i < v.len()
        invariant
            v@ == s@,
            i <= v.len(),
            forall|k: int| 0 <= k < i ==> is_ascii_char(#[trigger] v@[k]),
        decreases v.len() - i,
    {
        if (v[i] as u32) >= 128 {
            assert(!is_ascii_char(s@[i as int]));
            return false;
        }
        i = i + 1;
    }
    true
}

/// `text` with every leading copy of `prefix` removed; with `fold`, ASCII
/// case is ignored.
fn strip_leading(text: &str, prefix: &str, fold: bool) -> (r: String)
    requires
        prefix@.len() > 0,
    ensures
        r@ == strip_prefixes(text@, prefix@, fold),
{
    let v = chars_of(text);
    let p = chars_of(prefix);
    let n = v.len();
    let m = p.len();
    let mut start: usize = 0;
    assert(text@.skip(0) =~= text@);
    loop
        invariant
            v@ == text@,
            p@ == prefix@,
            n == v.len(),
            m == p.len(),
            m > 0,
            start <= n,
            strip_prefixes(text@, p@, fold) == strip_prefixes(text@.skip(start as int), p@, fold),
        decreases n - start,
    {
        if matches_at(&v, start, &p, fold) {
            assert(text@.skip(start as int).skip(m as int) =~= text@.skip(start + m));
            start = start + m;
        } else {
            let rest = text.substring_char(start, n);
            assert(rest@ =~= text@.skip(start as int));
            return rest.to_owned();
        }
    }
}

/// Chooses the header format named by the format string `input`, given its
/// lowercase form `lowered`: `"none"` gives no header, `"api-key:<header>"`
/// gives the header `<header>` (as written in an ASCII `input`, every leading
/// `api-key:` removed in any ASCII case; from `lowered` otherwise), anything
/// else bearer authorization.
pub fn auth_header_from_lowercase(lowered: &str, input: &str) -> (r: AuthHeaderFormat)
    ensures
        auth_header_named(lowered@, input@, r),
{
    if str_eq(lowered, "none") {
        return AuthHeaderFormat::NoHeader;
    }
    let prefix = "api-key:";
    if !str_starts_with(lowered, prefix) {
        return AuthHeaderFormat::Bearer;
    }
    proof {
        reveal_strlit("api-key:");
    }
    if is_all_ascii(input) {
        AuthHeaderFormat::ApiKey(strip_leading(input, prefix, true))
    } else {
        AuthHeaderFormat::ApiKey(strip_leading(lowered, prefix, false))
    }
}

/// Parse an auth header format string.
///
/// - `"none"` (in any case) gives no header;
/// - `"api-key:X-Custom"` gives the header `X-Custom`;
/// - `"bearer"` or anything else gives bearer authorization.
pub fn parse_auth_header(s: &str) -> (r: AuthHeaderFormat)
    ensures
        auth_header_named(lowercase_of(s@), s@, r),
{
    let lowered = str_to_lowercase(s);
    auth_header_from_lowercase(lowered.as_str(), s)
}

/// The member `key` read as an unsigned integer, or `default`.
pub open spec fn u64_or(val: JsonValue, key: Seq<char>, default: u64) -> u64 {
    match get_u64(val, key) {
        Some(n) => n,
        None => default,
    }
}

/// The member `key` read as a string, or `default`.
pub open spec fn str_or(val: JsonValue, key: Seq<char>, default: Seq<char>) -> Seq<char> {
    match get_str(val, key) {
        Some(s) => s,
        None => default,
    }
}

/// The string-valued members of the member `key`, when that is an object.
pub open spec fn member_string_pairs(val: JsonValue, key: Seq<char>) -> Seq<(Seq<char>, Seq<char>)> {
    match json_get(val, key) {
        Some(JsonValue::Object(ms)) => string_members(ms@),
        _ => Seq::empty(),
    }
}

/// The string elements of the member `key`, when that is an array.
pub open spec fn member_strings(val: JsonValue, key: Seq<char>) -> Seq<Seq<char>> {
    match json_get(val, key) {
        Some(JsonValue::Array(xs)) => string_items(xs@),
        _ => Seq::empty(),
    }
}

/// The cache settings that a JSON object describes.
pub open spec fn cache_config_from(val: JsonValue, c: CacheConfig) -> bool {
    let scheme = str_or(val, "backend"@, "memory"@);
    &&& c.max_entries == u64_or(val, "max_entries"@, 256) as usize
    &&& c.ttl_secs == u64_or(val, "ttl_seconds"@, 300)
    &&& scheme == "memory"@ ==> c.backend is Memory
    &&& scheme != "memory"@ ==> (c.backend matches CacheBackend::OpenDal { scheme: s, config } && s@
        == scheme && pairs_view(config@) == member_string_pairs(val, "backend_config"@))
}

/// Parse a `CacheConfig` from a JSON value.
///
/// Expected shape: `{ "max_entries": 256, "ttl_seconds": 300 }`, with an
/// optional `"backend"` scheme (`"memory"` by default) and, for other
/// schemes, its string settings under `"backend_config"`.
pub fn parse_cache_config(val: &JsonValue) -> (r: Result<CacheConfig, String>)
    ensures
        r matches Ok(c) && cache_config_from(*val, c),
{
    let max_entries = match value_u64(val, "max_entries") {
        Some(n) => n,
        None => 256,
    } as usize;
    let ttl_secs = match value_u64(val, "ttl_seconds") {
        Some(n) => n,
        None => 300,
    };
    let memory = "memory";
    let scheme = match value_str(val, "backend") {
        Some(s) => s,
        None => memory,
    };
    let backend = if str_eq(scheme, "memory") {
        CacheBackend::Memory
    } else {
        CacheBackend::OpenDal {
            scheme: scheme.to_owned(),
            config: object_string_members(val.get("backend_config")),
        }
    };
    Ok(CacheConfig { max_entries, ttl_secs, backend })
}

/// The rate limits that a JSON object describes.
pub open spec fn rate_limit_config_from(val: JsonValue, c: RateLimitConfig) -> bool {
    &&& c.rpm == (match get_u64(val, "rpm"@) {
        Some(n) => Some(n as u32),
        None => None,
    })
    &&& c.tpm == get_u64(val, "tpm"@)
    &&& c.window_secs == u64_or(val, "window_seconds"@, 60)
}

/// Parse a `RateLimitConfig` from a JSON value.
///
/// Expected shape: `{ "rpm": 60, "tpm": 100000, "window_seconds": 60 }`;
/// `rpm` keeps the low 32 bits, the window defaults to 60 seconds.
pub fn parse_rate_limit_config(val: &JsonValue) -> (r: Result<RateLimitConfig, String>)
    ensures
        r matches Ok(c) && rate_limit_config_from(*val, c),
{
    let rpm = match value_u64(val, "rpm") {
        Some(n) => Some(n as u32),
        None => None,
    };
    let tpm = value_u64(val, "tpm");
    let window_secs = match value_u64(val, "window_seconds") {
        Some(n) => n,
        None => 60,
    };
    Ok(RateLimitConfig { rpm, tpm, window_secs })
}

/// The enforcement mode that a budget object names: soft only for `"soft"`.
pub open spec fn enforcement_from(val: JsonValue) -> Enforcement {
    if str_or(val, "enforcement"@, "hard"@) == "soft"@ {
        Enforcement::Soft
    } else {
        Enforcement::Hard
    }
}

/// Reads the `"enforcement"` member of a budget object: `"soft"` gives soft
/// enforcement, anything else (or nothing) hard enforcement.
pub fn parse_enforcement(val: &JsonValue) -> (r: Enforcement)
    ensures
        r == enforcement_from(*val),
{
    let hard = "hard";
    let mode = match value_str(val, "enforcement") {
        Some(s) => s,
        None => hard,
    };
    if str_eq(mode, "soft") {
        Enforcement::Soft
    } else {
        Enforcement::Hard
    }
}

/// The custom provider that a JSON object describes, or the message of the
/// first missing field.
pub open spec fn provider_config_from(val: JsonValue, r: Result<CustomProviderConfig, String>) -> bool {
    if get_str(val, "name"@) is None {
        r matches Err(e) && e@ == "missing 'name' field"@
    } else if get_str(val, "base_url"@) is None {
        r matches Err(e) && e@ == "missing 'base_url' field"@
    } else {
        r matches Ok(c) && {
            &&& c.name@ == get_str(val, "name"@).unwrap()
            &&& c.base_url@ == get_str(val, "base_url"@).unwrap()
            &&& (match get_str(val, "auth_header"@) {
                Some(a) => auth_header_named(lowercase_of(a), a, c.auth_header),
                None => c.auth_header is Bearer,
            })
            &&& strings_view(c.model_prefixes@) == member_strings(val, "model_prefixes"@)
        }
    }
}

/// Parse a `CustomProviderConfig` from a JSON value.
///
/// `"name"` and `"base_url"` are required; `"auth_header"` defaults to bearer
/// and `"model_prefixes"` to none.
pub fn parse_provider_config(val: &JsonValue) -> (r: Result<CustomProviderConfig, String>)
    ensures
        provider_config_from(*val, r),
{
    let name = match value_str(val, "name") {
        Some(s) => s.to_owned(),
        None => return Err("missing 'name' field".to_owned()),
    };
    let base_url = match value_str(val, "base_url") {
        Some(s) => s.to_owned(),
        None => return Err("missing 'base_url' field".to_owned()),
    };
    let auth_header = match value_str(val, "auth_header") {
        Some(s) => parse_auth_header(s),
        None => AuthHeaderFormat::Bearer,
    };
    let model_prefixes = array_strings(val.get("model_prefixes"));
    Ok(CustomProviderConfig { name, base_url, auth_header, model_prefixes })
}

} // verus!
