//! Decisions of the persistent response cache: where an entry is stored,
//! when it expires, and whether a stored entry answers a request.
use vstd::prelude::*;
use vstd::string::StringExecFns;
use crate::text::{str_eq, string_from_chars};

verus! {

/// The decimal digit character for `d < 10`.
pub open spec fn digit_char(d: nat) -> char {
    (('0' as u32) + d) as char
}

/// The decimal rendering of `n`, without leading zeros.
pub open spec fn decimal(n: nat) -> Seq<char>
    decreases n,
{
    if n < 10 {
        seq![digit_char(n)]
    } else {
        decimal(n / 10).push(digit_char(n % 10))
    }
}

/// The decimal rendering of `n`.
pub fn u64_to_decimal(n: u64) -> (r: String)
    ensures
        r@ == decimal(n as nat),
{
    let mut digits: Vec<char> = Vec::new();
    let mut m: u64 = n;
    assert(decimal(n as nat) + digits@ =~= decimal(n as nat));
    while m >= 10
        invariant
            decimal(n as nat) == decimal(m as nat) + digits@,
        decreases m,
    {
        let c = char_of_digit(m % 10);
        let ghost old_digits = digits@;
        digits.insert(0, c);
        assert(decimal(m as nat) == decimal((m / 10) as nat).push(c));
        assert(decimal(m as nat) + old_digits =~= decimal((m / 10) as nat) + digits@);
        m = m / 10;
    }
    let c = char_of_digit(m);
    let ghost old_digits = digits@;
    digits.insert(0, c);
    assert(decimal(m as nat) + old_digits =~= digits@);
    string_from_chars(&digits)
}

/// The character of a decimal digit.
fn char_of_digit(d: u64) -> (c: char)
    requires
        d < 10,
    ensures
        c == digit_char(d as nat),
{
    if d == 0 { '0' }
    else if d == 1 { '1' }
    else if d == 2 { '2' }
    else if d == 3 { '3' }
    else if d == 4 { '4' }
    else if d == 5 { '5' }
    else if d == 6 { '6' }
    else if d == 7 { '7' }
    else if d == 8 { '8' }
    else { '9' }
}

/// The storage path of the entry for `key`: the prefix followed by the key in decimal.
pub fn cache_key_path(prefix: &str, key: u64) -> (r: String)
    ensures
        r@ == prefix@ + decimal(key as nat),
{
    let mut path = prefix.to_owned();
    let digits = u64_to_decimal(key);
    path.append(digits.as_str());
    path
}

/// The time (in seconds since the epoch) at which an entry written at `now`
/// with a time-to-live of `ttl_secs` expires.
pub fn cache_entry_expiry(now: u64, ttl_secs: u64) -> (r: u64)
    requires
        now + ttl_secs <= u64::MAX,
    ensures
        r == now + ttl_secs,
{
    now + ttl_secs
}

/// What a stored entry means for a lookup.
#[derive(PartialEq, Eq, Structural)]
pub enum CacheLookup {
    /// The entry has expired; it should be deleted and the lookup misses.
    Expired,
    /// The entry was stored for another request with the same key; the lookup misses.
    Mismatch,
    /// The entry answers the request.
    Hit,
}

/// The meaning of a stored entry for a lookup at `now`.
pub open spec fn lookup_outcome(now: u64, expires_at: u64, stored_body: Seq<char>, request_body: Seq<char>) -> CacheLookup {
    if now > expires_at {
        CacheLookup::Expired
    } else if stored_body != request_body {
        CacheLookup::Mismatch
    } else {
        CacheLookup::Hit
    }
}

/// Judges a stored entry: expired when `now` is past its expiry, a mismatch
/// when it was stored for a different request body, a hit otherwise.
pub fn check_cached_entry(now: u64, expires_at: u64, stored_body: &str, request_body: &str) -> (r: CacheLookup)
    ensures
        r == lookup_outcome(now, expires_at, stored_body@, request_body@),
{
    if now > expires_at {
        CacheLookup::Expired
    } else if !str_eq(stored_body, request_body) {
        CacheLookup::Mismatch
    } else {
        CacheLookup::Hit
    }
}

/// An entry written at `now` answers the same request body until its
/// time-to-live has passed, answers no other request body, and expires after
/// that.
pub proof fn law_entry_lives_for_its_ttl(written: u64, ttl_secs: u64, now: u64, body: Seq<char>, other: Seq<char>)
    requires
        written + ttl_secs <= u64::MAX,
    ensures
        written <= now <= written + ttl_secs ==> lookup_outcome(now, (written + ttl_secs) as u64, body, body)
            == CacheLookup::Hit,
        now <= written + ttl_secs && other != body ==> lookup_outcome(
            now,
            (written + ttl_secs) as u64,
            body,
            other,
        ) == CacheLookup::Mismatch,
        now > written + ttl_secs ==> lookup_outcome(now, (written + ttl_secs) as u64, body, body)
            == CacheLookup::Expired,
{
}

/// Different keys are stored at different paths.
pub proof fn law_key_paths_distinct(prefix: Seq<char>, a: nat, b: nat)
    requires
        a != b,
    ensures
        prefix + decimal(a) != prefix + decimal(b),
{
    lemma_decimal_injective(a, b);
    if prefix + decimal(a) == prefix + decimal(b) {
        assert((prefix + decimal(a)).skip(prefix.len() as int) =~= decimal(a));
        assert((prefix + decimal(b)).skip(prefix.len() as int) =~= decimal(b));
    }
}

proof fn lemma_decimal_nonempty(n: nat)
    ensures
        decimal(n).len() > 0,
        decimal(n).last() == digit_char(n % 10),
    decreases n,
{
    if n >= 10 {
        lemma_decimal_nonempty(n / 10);
    }
}

proof fn lemma_decimal_injective(a: nat, b: nat)
    requires
        a != b,
    ensures
        decimal(a) != decimal(b),
    decreases a + b,
{
    lemma_decimal_nonempty(a);
    lemma_decimal_nonempty(b);
    if decimal(a) == decimal(b) {
        assert(digit_char(a % 10) == digit_char(b % 10));
        assert(a % 10 == b % 10);
        if a < 10 && b < 10 {
        } else if a < 10 {
            lemma_decimal_nonempty(b / 10);
            assert(decimal(b).len() >= 2);
        } else if b < 10 {
            lemma_decimal_nonempty(a / 10);
            assert(decimal(a).len() >= 2);
        } else {
            assert(decimal(a).drop_last() =~= decimal(a / 10));
            assert(decimal(b).drop_last() =~= decimal(b / 10));
            assert(a / 10 != b / 10);
            lemma_decimal_injective(a / 10, b / 10);
        }
    }
}

} // verus!
