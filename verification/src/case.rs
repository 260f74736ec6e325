//! Bidirectional snake_case / camelCase conversion of identifiers.
use vstd::prelude::*;
use vstd::string::StrSliceExecFns;
use vstd::std_specs::iter::IteratorSpec;
use crate::text::{
    char_is_lowercase, char_is_uppercase, char_to_lowercase, char_to_uppercase, is_lower, is_upper,
    lower_of, string_from_chars, upper_of,
};

verus! {

/// Appends every character of `v` to `out`.
fn push_all(out: &mut Vec<char>, v: &Vec<char>)
    ensures
        final(out)@ == old(out)@ + v@,
{
    let ghost before = out@;
    let mut k: usize = 0;
    while k < v.len()
        invariant
            0 <= k <= v.len(),
            out@ == before + v@.take(k as int),
        decreases v.len() - k,
    {
        out.push(v[k]);
        assert(v@.take(k + 1) =~= v@.take(k as int).push(v@[k as int]));
        k = k + 1;
    }
    assert(v@.take(v.len() as int) =~= v@);
}

/// `n` copies of `c`.
pub open spec fn repeat_char(c: char, n: nat) -> Seq<char> {
    Seq::new(n, |i: int| c)
}

/// One character of the camelCase scan. The state is the output so far,
/// whether only underscores have been seen, and how many underscores have
/// been seen since the last other character.
pub open spec fn camel_step(st: (Seq<char>, bool, nat), c: char) -> (Seq<char>, bool, nat) {
    let (out, leading, pending) = st;
    if leading && c == '_' {
        (out.push('_'), true, 0)
    } else if c == '_' {
        (out, false, pending + 1)
    } else if pending > 0 {
        (out + upper_of(c), false, 0)
    } else {
        (out.push(c), false, 0)
    }
}

/// The camelCase scan over a whole identifier.
pub open spec fn camel_fold(s: Seq<char>) -> (Seq<char>, bool, nat)
    decreases s.len(),
{
    if s.len() == 0 {
        (Seq::<char>::empty(), true, 0)
    } else {
        camel_step(camel_fold(s.drop_last()), s.last())
    }
}

/// camelCase form of a snake_case identifier: the scan's output followed by
/// the underscores still pending at the end.
pub open spec fn snake_to_camel_spec(s: Seq<char>) -> Seq<char> {
    camel_fold(s).0 + repeat_char('_', camel_fold(s).2)
}

/// Convert a `snake_case` identifier to `camelCase`.
///
/// Leading underscores are kept, runs of inner underscores collapse and
/// uppercase the next character, trailing underscores are kept.
pub fn snake_to_camel(s: &str) -> (r: String)
    ensures
        r@ == snake_to_camel_spec(s@),
{
    let mut out: Vec<char> = Vec::new();
    let mut leading = true;
    let mut pending: usize = 0;
    let ghost whole = s@;
    let n = s.unicode_len();
    for ch in it: s.chars()
        invariant
            it.seq() == whole,
            n == whole.len(),
            pending <= it.index(),
            leading ==> pending == 0,
            camel_fold(whole.take(it.index())) == (out@, leading, pending as nat),
    {
        let ghost i = it.index();
        assert(whole.take(i + 1).drop_last() =~= whole.take(i));
        assert(whole.take(i + 1).last() == ch);
        if leading && ch == '_' {
            out.push('_');
        } else if ch == '_' {
            leading = false;
            pending = pending + 1;
        } else if pending > 0 {
            leading = false;
            let up = char_to_uppercase(ch);
            push_all(&mut out, &up);
            pending = 0;
        } else {
            leading = false;
            out.push(ch);
        }
    }
    assert(whole.take(whole.len() as int) =~= whole);
    let ghost before = out@;
    let mut k: usize = 0;
    while k < pending
        invariant
            k <= pending,
            out@ == before + repeat_char('_', k as nat),
        decreases pending - k,
    {
        out.push('_');
        assert(repeat_char('_', (k + 1) as nat) =~= repeat_char('_', k as nat).push('_'));
        k = k + 1;
    }
    string_from_chars(&out)
}

/// One character of the snake_case scan. The state is the output so far,
/// whether the previous character was uppercase, and whether only
/// underscores have been seen.
pub open spec fn snake_step(st: (Seq<char>, bool, bool), c: char) -> (Seq<char>, bool, bool) {
    let (acc, prev_upper, leading) = st;
    if leading && c == '_' {
        (acc.push('_'), false, true)
    } else if is_upper(c) {
        let sep = if acc.len() > 0 && acc.last() != '_' && !prev_upper {
            acc.push('_')
        } else {
            acc
        };
        (sep + lower_of(c), true, false)
    } else {
        let split = if prev_upper && acc.len() > 0 && is_lower(c) {
            let rest = acc.drop_last();
            let sep = if rest.len() > 0 && rest.last() != '_' {
                rest.push('_')
            } else {
                rest
            };
            sep.push(acc.last())
        } else {
            acc
        };
        (split.push(c), false, false)
    }
}

/// The snake_case scan over a whole identifier.
pub open spec fn snake_fold(s: Seq<char>) -> (Seq<char>, bool, bool)
    decreases s.len(),
{
    if s.len() == 0 {
        (Seq::<char>::empty(), false, true)
    } else {
        snake_step(snake_fold(s.drop_last()), s.last())
    }
}

/// snake_case form of a camelCase identifier.
pub open spec fn camel_to_snake_spec(s: Seq<char>) -> Seq<char> {
    snake_fold(s).0
}

/// Convert a `camelCase` identifier to `snake_case`.
///
/// Leading underscores are kept, an uppercase letter is lowered and preceded
/// by `_`, and a run of uppercase letters (an acronym) stays one word.
pub fn camel_to_snake(s: &str) -> (r: String)
    ensures
        r@ == camel_to_snake_spec(s@),
{
    let mut out: Vec<char> = Vec::new();
    let mut prev_upper = false;
    let mut leading = true;
    let ghost whole = s@;
    for ch in it: s.chars()
        invariant
            it.seq() == whole,
            0 <= it.index() <= whole.len(),
            snake_fold(whole.take(it.index())) == (out@, prev_upper, leading),
    {
        let ghost i = it.index();
        assert(whole.take(i + 1).drop_last() =~= whole.take(i));
        assert(whole.take(i + 1).last() == ch);
        if leading && ch == '_' {
            out.push('_');
            prev_upper = false;
        } else if char_is_uppercase(ch) {
            if out.len() > 0 && out[out.len() - 1] != '_' && !prev_upper {
                out.push('_');
            }
            let low = char_to_lowercase(ch);
            push_all(&mut out, &low);
            prev_upper = true;
            leading = false;
        } else {
            if prev_upper && out.len() > 0 && char_is_lowercase(ch) {
                let last = out.pop().unwrap();
                if out.len() > 0 && out[out.len() - 1] != '_' {
                    out.push('_');
                }
                out.push(last);
            }
            out.push(ch);
            prev_upper = false;
            leading = false;
        }
    }
    assert(whole.take(whole.len() as int) =~= whole);
    string_from_chars(&out)
}

} // verus!
