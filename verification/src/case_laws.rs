//! Properties of the identifier case conversions.
use vstd::prelude::*;
use crate::case::{
    camel_fold, camel_step, camel_to_snake_spec, repeat_char, snake_fold, snake_step,
    snake_to_camel_spec,
};
use crate::text::{
    all_ascii, ascii_lower, ascii_upper, is_ascii_char, is_ascii_digit, is_ascii_lower, is_ascii_upper,
    is_lower, is_upper, lemma_ascii_letter_case, lower_of, upper_of,
};

verus! {

/// A character that may appear in a plain snake_case identifier.
pub open spec fn is_snake_char(c: char) -> bool {
    is_ascii_lower(c) || is_ascii_digit(c) || c == '_'
}

/// Some character other than `_` occurs before position `j`.
pub open spec fn word_before(s: Seq<char>, j: int) -> bool {
    exists|k: int| 0 <= k < j && s[k] != '_'
}

/// Some character other than `_` occurs after position `j`.
pub open spec fn word_after(s: Seq<char>, j: int) -> bool {
    exists|k: int| j < k < s.len() && s[k] != '_'
}

/// Position `j` holds an underscore between two words (neither leading nor trailing).
pub open spec fn inner_underscore(s: Seq<char>, j: int) -> bool {
    0 <= j < s.len() && s[j] == '_' && word_before(s, j) && word_after(s, j)
}

/// A plain snake_case identifier: lowercase ASCII letters, digits and
/// underscores, where each inner underscore stands alone, is followed by a
/// letter, and does not open a one-letter word that another inner underscore
/// follows. Leading and trailing underscores are free.
pub open spec fn is_plain_snake(s: Seq<char>) -> bool {
    &&& forall|i: int| 0 <= i < s.len() ==> is_snake_char(#[trigger] s[i])
    &&& forall|j: int|
        #![trigger inner_underscore(s, j)]
        inner_underscore(s, j) ==> {
            &&& s[j - 1] != '_'
            &&& is_ascii_lower(s[j + 1])
            &&& !inner_underscore(s, j + 2)
        }
}

proof fn lemma_take_step<A>(s: Seq<A>, i: int)
    requires
        0 <= i < s.len(),
    ensures
        s.take(i + 1).drop_last() == s.take(i),
        s.take(i + 1).last() == s[i],
{
    assert(s.take(i + 1).drop_last() =~= s.take(i));
}

proof fn lemma_camel_fold_step(s: Seq<char>, i: int)
    requires
        0 <= i < s.len(),
    ensures
        camel_fold(s.take(i + 1)) == camel_step(camel_fold(s.take(i)), s[i]),
{
    lemma_take_step(s, i);
}

proof fn lemma_snake_fold_push(e: Seq<char>, c: char)
    ensures
        snake_fold(e.push(c)) == snake_step(snake_fold(e), c),
{
    assert(e.push(c).drop_last() =~= e);
}

/// Without underscores, the camelCase scan copies its input.
proof fn lemma_camel_fold_no_underscore(s: Seq<char>)
    requires
        forall|i: int| 0 <= i < s.len() ==> s[i] != '_',
    ensures
        camel_fold(s) == (s, s.len() == 0, 0nat),
    decreases s.len(),
{
    if s.len() > 0 {
        lemma_camel_fold_no_underscore(s.drop_last());
        assert(s.drop_last().push(s.last()) =~= s);
    }
}

/// An identifier without underscores is its own camelCase form.
pub proof fn law_snake_to_camel_without_underscores(s: Seq<char>)
    requires
        forall|i: int| 0 <= i < s.len() ==> s[i] != '_',
    ensures
        snake_to_camel_spec(s) == s,
{
    lemma_camel_fold_no_underscore(s);
    assert(s + repeat_char('_', 0) =~= s);
}

/// Without uppercase characters, the snake_case scan copies its input.
proof fn lemma_snake_fold_no_upper(s: Seq<char>)
    requires
        forall|i: int| 0 <= i < s.len() ==> !is_upper(#[trigger] s[i]),
    ensures
        snake_fold(s).0 == s,
        !snake_fold(s).1,
    decreases s.len(),
{
    if s.len() > 0 {
        lemma_snake_fold_no_upper(s.drop_last());
        assert(s.drop_last().push(s.last()) =~= s);
        assert(!is_upper(s[s.len() - 1]));
    }
}

/// An identifier without uppercase characters is its own snake_case form.
pub proof fn law_camel_to_snake_without_uppercase(s: Seq<char>)
    requires
        forall|i: int| 0 <= i < s.len() ==> !is_upper(#[trigger] s[i]),
    ensures
        camel_to_snake_spec(s) == s,
{
    lemma_snake_fold_no_upper(s);
}

/// The camelCase output of a prefix is a prefix of the camelCase output.
proof fn lemma_camel_fold_grows(s: Seq<char>, m: int)
    requires
        0 <= m <= s.len(),
    ensures
        camel_fold(s.take(m)).0.len() <= camel_fold(s).0.len(),
        camel_fold(s).0.take(camel_fold(s.take(m)).0.len() as int) == camel_fold(s.take(m)).0,
    decreases s.len() - m,
{
    if m < s.len() {
        lemma_camel_fold_step(s, m);
        lemma_camel_fold_grows(s, m + 1);
        let a = camel_fold(s.take(m)).0;
        let b = camel_fold(s.take(m + 1)).0;
        let full = camel_fold(s).0;
        assert(b.take(a.len() as int) =~= a);
        assert(full.take(a.len() as int) =~= b.take(b.len() as int).take(a.len() as int));
    } else {
        assert(s.take(m) =~= s);
        assert(camel_fold(s).0.take(camel_fold(s).0.len() as int) =~= camel_fold(s).0);
    }
}

proof fn lemma_camel_fold_leading(s: Seq<char>, k: int)
    requires
        0 <= k <= s.len(),
        forall|j: int| 0 <= j < k ==> s[j] == '_',
    ensures
        camel_fold(s.take(k)) == (repeat_char('_', k as nat), true, 0nat),
    decreases k,
{
    if k > 0 {
        lemma_camel_fold_leading(s, k - 1);
        lemma_camel_fold_step(s, k - 1);
        assert(repeat_char('_', (k - 1) as nat).push('_') =~= repeat_char('_', k as nat));
    } else {
        assert(s.take(0) =~= Seq::<char>::empty());
    }
}

/// Leading underscores are carried over unchanged into the camelCase form.
pub proof fn law_snake_to_camel_keeps_leading_underscores(s: Seq<char>, k: int)
    requires
        0 <= k <= s.len(),
        forall|j: int| 0 <= j < k ==> s[j] == '_',
    ensures
        snake_to_camel_spec(s).len() >= k,
        snake_to_camel_spec(s).take(k) == s.take(k),
{
    lemma_camel_fold_leading(s, k);
    lemma_camel_fold_grows(s, k);
    let full = camel_fold(s).0;
    let out = snake_to_camel_spec(s);
    assert(out.take(k) =~= full.take(k));
    assert(s.take(k) =~= repeat_char('_', k as nat));
}

proof fn lemma_snake_fold_leading(s: Seq<char>, k: int, i: int)
    requires
        0 <= k <= i <= s.len(),
        forall|j: int| 0 <= j < k ==> s[j] == '_',
    ensures
        ({
            let (acc, pu, lead) = snake_fold(s.take(i));
            &&& acc.len() >= k
            &&& acc.take(k) == repeat_char('_', k as nat)
            &&& pu ==> acc.len() > k
            &&& i == k ==> lead && acc.len() == k
        }),
    decreases i,
{
    if i == 0 {
        assert(s.take(0) =~= Seq::<char>::empty());
        assert(repeat_char('_', 0) =~= Seq::<char>::empty());
    } else if i == k {
        lemma_snake_fold_leading(s, k - 1, i - 1);
        lemma_take_step(s, i - 1);
        let (acc, pu, lead) = snake_fold(s.take(i - 1));
        assert(acc =~= acc.take(k - 1));
        assert(acc.push('_').take(k) =~= repeat_char('_', k as nat));
    } else {
        lemma_snake_fold_leading(s, k, i - 1);
        lemma_take_step(s, i - 1);
        let (acc, pu, lead) = snake_fold(s.take(i - 1));
        let c = s[i - 1];
        let (acc2, pu2, lead2) = snake_fold(s.take(i));
        if lead && c == '_' {
            assert(acc2.take(k) =~= acc.take(k));
        } else if is_upper(c) {
            let sep = if acc.len() > 0 && acc.last() != '_' && !pu {
                acc.push('_')
            } else {
                acc
            };
            assert(sep.take(k) =~= acc.take(k));
            assert(acc2.take(k) =~= sep.take(k));
        } else if pu && acc.len() > 0 && is_lower(c) {
            let rest = acc.drop_last();
            let sep = if rest.len() > 0 && rest.last() != '_' {
                rest.push('_')
            } else {
                rest
            };
            assert(rest.take(k) =~= acc.take(k));
            assert(sep.take(k) =~= rest.take(k));
            assert(acc2.take(k) =~= sep.take(k));
        } else {
            assert(acc2.take(k) =~= acc.take(k));
        }
    }
}

/// Leading underscores are carried over unchanged into the snake_case form.
pub proof fn law_camel_to_snake_keeps_leading_underscores(s: Seq<char>, k: int)
    requires
        0 <= k <= s.len(),
        forall|j: int| 0 <= j < k ==> s[j] == '_',
    ensures
        camel_to_snake_spec(s).len() >= k,
        camel_to_snake_spec(s).take(k) == s.take(k),
{
    lemma_snake_fold_leading(s, k, s.len() as int);
    assert(s.take(s.len() as int) =~= s);
    assert(s.take(k) =~= repeat_char('_', k as nat));
}

/// Appending underscores to the snake_case scan's input appends them to its output.
proof fn lemma_snake_fold_trailing(e: Seq<char>, p: nat)
    ensures
        snake_fold(e + repeat_char('_', p)).0 == snake_fold(e).0 + repeat_char('_', p),
    decreases p,
{
    if p == 0 {
        assert(e + repeat_char('_', 0) =~= e);
        assert(snake_fold(e).0 + repeat_char('_', 0) =~= snake_fold(e).0);
    } else {
        let q = (p - 1) as nat;
        lemma_snake_fold_trailing(e, q);
        assert(e + repeat_char('_', p) =~= (e + repeat_char('_', q)).push('_'));
        lemma_snake_fold_push(e + repeat_char('_', q), '_');
        assert(!is_upper('_') && !is_lower('_'));
        assert(snake_fold(e).0 + repeat_char('_', p) =~= (snake_fold(e).0 + repeat_char('_', q)).push('_'));
    }
}

/// What the snake_case scan recovers from the camelCase output of a prefix of
/// a plain snake_case identifier.
proof fn lemma_round_trip_prefix(s: Seq<char>, i: int)
    requires
        is_plain_snake(s),
        0 <= i <= s.len(),
    ensures
        ({
            let (e, lead, p) = camel_fold(s.take(i));
            let (acc, pu, slead) = snake_fold(e);
            &&& slead == lead
            &&& p <= i
            &&& acc == s.take(i - p)
            &&& lead ==> p == 0 && forall|k: int| 0 <= k < i ==> s[k] == '_'
            &&& !lead ==> i - p >= 1 && s[i - p - 1] != '_'
            &&& forall|k: int| i - p <= k < i ==> s[k] == '_'
            &&& pu == (!lead && i - p >= 2 && s[i - p - 2] == '_' && word_before(s, i - p - 2))
        }),
    decreases i,
{
    if i == 0 {
        assert(s.take(0) =~= Seq::<char>::empty());
    } else {
        let j = i - 1;
        lemma_round_trip_prefix(s, j);
        lemma_camel_fold_step(s, j);
        let (e, lead, p) = camel_fold(s.take(j));
        let (acc, pu, slead) = snake_fold(e);
        let c = s[j];
        assert(is_snake_char(s[j]));
        assert(!is_upper('_') && !is_lower('_'));
        if lead && c == '_' {
            lemma_snake_fold_push(e, '_');
            assert(s.take(i) =~= s.take(j).push('_'));
        } else if lead {
            lemma_snake_fold_push(e, c);
            assert(!is_upper(c));
            assert(s.take(i) =~= s.take(j).push(c));
            if j >= 1 && s[j - 1] == '_' && word_before(s, j - 1) {
                let k = choose|k: int| 0 <= k < j - 1 && s[k] != '_';
                assert(s[k] == '_');
            }
        } else if c == '_' {
        } else if p > 0 {
            // the underscore just before `c` stands between two words
            assert(word_before(s, j - 1)) by {
                assert(s[j - p - 1] != '_');
            }
            assert(word_after(s, j - 1)) by {
                assert(s[j] != '_');
            }
            assert(inner_underscore(s, j - 1));
            assert(p == 1) by {
                if p >= 2 {
                    assert(s[j - 2] == '_');
                }
            }
            assert(is_ascii_lower(c));
            lemma_ascii_letter_case(c);
            let x = ascii_upper(c);
            assert(e + upper_of(c) =~= e.push(x));
            lemma_snake_fold_push(e, x);
            assert(!pu) by {
                if pu {
                    assert(word_after(s, j - 3)) by {
                        assert(s[j - 2] != '_');
                    }
                    assert(inner_underscore(s, j - 3));
                    assert(word_after(s, j - 1));
                    assert(inner_underscore(s, j - 1));
                }
            }
            assert(acc.len() > 0 && acc.last() == s[j - 2]);
            assert(s.take(i) =~= acc.push('_') + seq![c]);
            assert(word_before(s, j - 1));
        } else {
            lemma_snake_fold_push(e, c);
            assert(!is_upper(c));
            if pu && acc.len() > 0 && is_lower(c) {
                let rest = acc.drop_last();
                assert(rest.last() == s[j - 2]);
                assert(rest.push(acc.last()) =~= acc);
            }
            assert(s.take(i) =~= s.take(j).push(c));
        }
    }
}

/// Converting a plain snake_case identifier to camelCase and back gives the
/// identifier again.
pub proof fn law_snake_camel_round_trip(s: Seq<char>)
    requires
        is_plain_snake(s),
    ensures
        camel_to_snake_spec(snake_to_camel_spec(s)) == s,
{
    let n = s.len() as int;
    lemma_round_trip_prefix(s, n);
    assert(s.take(n) =~= s);
    let (e, lead, p) = camel_fold(s);
    lemma_snake_fold_trailing(e, p);
    assert(s.take(n - p) + repeat_char('_', p) =~= s);
}

/// While only underscores have been seen, the camelCase scan has copied them.
proof fn lemma_camel_fold_lead(s: Seq<char>)
    ensures
        camel_fold(s).1 ==> camel_fold(s).0 == repeat_char('_', s.len()) && camel_fold(s).2 == 0,
        camel_fold(s).1 ==> forall|j: int| 0 <= j < s.len() ==> s[j] == '_',
    decreases s.len(),
{
    if s.len() > 0 {
        let t = s.drop_last();
        lemma_camel_fold_lead(t);
        if camel_fold(s).1 {
            assert(camel_fold(t).1);
            assert(s.last() == '_');
            assert(repeat_char('_', t.len()).push('_') =~= repeat_char('_', s.len()));
            assert forall|j: int| 0 <= j < s.len() implies s[j] == '_' by {
                if j < t.len() {
                    assert(s[j] == t[j]);
                }
            }
        }
    }
}

/// Trailing underscores of a camelCase scan's input are all still pending.
proof fn lemma_camel_fold_trailing(s: Seq<char>, k: int)
    requires
        0 <= k <= s.len(),
        forall|j: int| s.len() - k <= j < s.len() ==> s[j] == '_',
    ensures
        !camel_fold(s).1 ==> camel_fold(s).2 >= k,
    decreases k,
{
    if k > 0 {
        let t = s.drop_last();
        assert forall|j: int| t.len() - (k - 1) <= j < t.len() implies t[j] == '_' by {
            assert(t[j] == s[j]);
        }
        lemma_camel_fold_trailing(t, k - 1);
        assert(s.last() == '_');
    }
}

/// Trailing underscores are carried over unchanged into the camelCase form.
pub proof fn law_snake_to_camel_keeps_trailing_underscores(s: Seq<char>, k: int)
    requires
        0 <= k <= s.len(),
        forall|j: int| s.len() - k <= j < s.len() ==> s[j] == '_',
    ensures
        snake_to_camel_spec(s).len() >= k,
        snake_to_camel_spec(s).skip(snake_to_camel_spec(s).len() - k) == repeat_char('_', k as nat),
{
    lemma_camel_fold_lead(s);
    lemma_camel_fold_trailing(s, k);
    let (e, lead, p) = camel_fold(s);
    let out = snake_to_camel_spec(s);
    if lead {
        assert(out =~= repeat_char('_', s.len()));
        assert(out.skip(out.len() - k) =~= repeat_char('_', k as nat));
    } else {
        assert(out.skip(out.len() - k) =~= repeat_char('_', k as nat));
    }
}

/// After the scan has left its leading underscores, its output is those
/// underscores followed by characters other than `_`.
proof fn lemma_camel_fold_shape(s: Seq<char>)
    requires
        all_ascii(s),
    ensures
        exists|m: nat, w: Seq<char>|
            camel_fold(s).0 == repeat_char('_', m) + w && (forall|i: int| 0 <= i < w.len() ==> w[i] != '_'),
    decreases s.len(),
{
    if s.len() == 0 {
        assert(camel_fold(s).0 =~= repeat_char('_', 0) + Seq::<char>::empty());
    } else {
        let t = s.drop_last();
        assert(all_ascii(t)) by {
            assert forall|i: int| 0 <= i < t.len() implies is_ascii_char(#[trigger] t[i]) by {
                assert(t[i] == s[i]);
            }
        }
        lemma_camel_fold_shape(t);
        lemma_camel_fold_lead(t);
        let (e, lead, p) = camel_fold(t);
        let (m, w) = choose|m: nat, w: Seq<char>|
            e == repeat_char('_', m) + w && (forall|i: int| 0 <= i < w.len() ==> w[i] != '_');
        let c = s.last();
        assert(is_ascii_char(c));
        if lead && c == '_' {
            assert(e =~= repeat_char('_', t.len()) + Seq::<char>::empty());
            assert(e.push('_') =~= repeat_char('_', s.len()) + Seq::<char>::empty());
        } else if c == '_' {
        } else if p > 0 {
            assert(upper_of(c) == seq![ascii_upper(c)]);
            assert(ascii_upper(c) != '_');
            assert(e + upper_of(c) =~= repeat_char('_', m) + w.push(ascii_upper(c)));
            assert forall|i: int| 0 <= i < w.push(ascii_upper(c)).len() implies w.push(ascii_upper(c))[i] != '_' by {
                if i < w.len() {
                    assert(w.push(ascii_upper(c))[i] == w[i]);
                }
            }
        } else {
            assert(e.push(c) =~= repeat_char('_', m) + w.push(c));
            assert forall|i: int| 0 <= i < w.push(c).len() implies w.push(c)[i] != '_' by {
                if i < w.len() {
                    assert(w.push(c)[i] == w[i]);
                }
            }
        }
    }
}

/// The camelCase form of an ASCII identifier has underscores only in its
/// leading and trailing runs: inner runs of underscores collapse away.
pub proof fn law_snake_to_camel_inner_underscores_collapse(s: Seq<char>)
    requires
        all_ascii(s),
    ensures
        exists|m: nat, w: Seq<char>, p: nat|
            snake_to_camel_spec(s) == repeat_char('_', m) + w + repeat_char('_', p) && (forall|i: int|
                0 <= i < w.len() ==> w[i] != '_'),
{
    lemma_camel_fold_shape(s);
    let (e, lead, p) = camel_fold(s);
    let (m, w) = choose|m: nat, w: Seq<char>|
        e == repeat_char('_', m) + w && (forall|i: int| 0 <= i < w.len() ==> w[i] != '_');
    assert(snake_to_camel_spec(s) == repeat_char('_', m) + w + repeat_char('_', p));
}

/// No ASCII uppercase letter occurs in `s`.
pub open spec fn no_ascii_upper(s: Seq<char>) -> bool {
    forall|i: int| 0 <= i < s.len() ==> !is_ascii_upper(#[trigger] s[i])
}

/// `c` is an ASCII character other than an uppercase letter.
pub open spec fn lower_ascii_char(c: char) -> bool {
    is_ascii_char(c) && !is_ascii_upper(c)
}

/// Every character of `s` is ASCII, and none is an uppercase letter.
pub open spec fn all_lower_ascii(s: Seq<char>) -> bool {
    forall|i: int| 0 <= i < s.len() ==> lower_ascii_char(#[trigger] s[i])
}

proof fn lemma_snake_fold_lower(s: Seq<char>)
    requires
        all_ascii(s),
    ensures
        all_lower_ascii(snake_fold(s).0),
    decreases s.len(),
{
    if s.len() > 0 {
        let t = s.drop_last();
        assert(all_ascii(t)) by {
            assert forall|i: int| 0 <= i < t.len() implies is_ascii_char(#[trigger] t[i]) by {
                assert(t[i] == s[i]);
            }
        }
        lemma_snake_fold_lower(t);
        let (acc, pu, lead) = snake_fold(t);
        let c = s.last();
        assert(is_ascii_char(c));
        let out = snake_fold(s).0;
        if lead && c == '_' {
            assert(out == acc.push('_'));
            assert forall|i: int| 0 <= i < out.len() implies lower_ascii_char(#[trigger] out[i]) by {
                if i < acc.len() {
                    assert(out[i] == acc[i]);
                }
            }
        } else if is_upper(c) {
            let sep = if acc.len() > 0 && acc.last() != '_' && !pu {
                acc.push('_')
            } else {
                acc
            };
            assert(all_lower_ascii(sep)) by {
                assert forall|i: int| 0 <= i < sep.len() implies lower_ascii_char(#[trigger] sep[i]) by {
                    if i < acc.len() {
                        assert(sep[i] == acc[i]);
                    }
                }
            }
            assert(lower_of(c) == seq![ascii_lower(c)]);
            assert(out == sep.push(ascii_lower(c)));
            assert forall|i: int| 0 <= i < out.len() implies lower_ascii_char(#[trigger] out[i]) by {
                if i < sep.len() {
                    assert(out[i] == sep[i]);
                }
            }
        } else {
            let split = if pu && acc.len() > 0 && is_lower(c) {
                let rest = acc.drop_last();
                let sep = if rest.len() > 0 && rest.last() != '_' {
                    rest.push('_')
                } else {
                    rest
                };
                assert(all_lower_ascii(sep)) by {
                    assert forall|i: int| 0 <= i < sep.len() implies lower_ascii_char(#[trigger] sep[i]) by {
                        if i < rest.len() {
                            assert(sep[i] == acc[i]);
                        }
                    }
                }
                assert(lower_ascii_char(acc[acc.len() - 1]));
                let sp = sep.push(acc.last());
                assert forall|i: int| 0 <= i < sp.len() implies lower_ascii_char(#[trigger] sp[i]) by {
                    if i < sep.len() {
                        assert(sp[i] == sep[i]);
                    }
                }
                sp
            } else {
                acc
            };
            assert(out == split.push(c));
            assert forall|i: int| 0 <= i < out.len() implies lower_ascii_char(#[trigger] out[i]) by {
                if i < split.len() {
                    assert(out[i] == split[i]);
                }
            }
        }
    }
}

/// The snake_case form of an ASCII identifier holds no uppercase letter.
pub proof fn law_camel_to_snake_lowercases(s: Seq<char>)
    requires
        all_ascii(s),
    ensures
        no_ascii_upper(camel_to_snake_spec(s)),
        all_ascii(camel_to_snake_spec(s)),
{
    lemma_snake_fold_lower(s);
    let out = camel_to_snake_spec(s);
    assert forall|i: int| 0 <= i < out.len() implies !is_ascii_upper(#[trigger] out[i]) by {
        assert(lower_ascii_char(out[i]));
    }
    assert forall|i: int| 0 <= i < out.len() implies is_ascii_char(#[trigger] out[i]) by {
        assert(lower_ascii_char(out[i]));
    }
}

/// Converting an ASCII identifier to snake_case a second time changes
/// nothing.
pub proof fn law_camel_to_snake_idempotent(s: Seq<char>)
    requires
        all_ascii(s),
    ensures
        camel_to_snake_spec(camel_to_snake_spec(s)) == camel_to_snake_spec(s),
{
    law_camel_to_snake_lowercases(s);
    let out = camel_to_snake_spec(s);
    assert forall|i: int| 0 <= i < out.len() implies !is_upper(#[trigger] out[i]) by {
        assert(is_ascii_char(out[i]) && !is_ascii_upper(out[i]));
    }
    law_camel_to_snake_without_uppercase(out);
}

/// A character that may appear in a plain camelCase identifier.
pub open spec fn is_camel_char(c: char) -> bool {
    is_ascii_lower(c) || is_ascii_upper(c) || is_ascii_digit(c)
}

/// A plain camelCase identifier: ASCII letters and digits, not starting
/// with an uppercase letter, with no two uppercase letters side by side
/// (each uppercase letter opens a word of its own).
pub open spec fn is_plain_camel(s: Seq<char>) -> bool {
    &&& forall|i: int| 0 <= i < s.len() ==> is_camel_char(#[trigger] s[i])
    &&& s.len() > 0 ==> !is_ascii_upper(s[0])
    &&& forall|i: int, j: int|
        #![trigger s[i], s[j]]
        0 <= i && j == i + 1 && j < s.len() ==> !(is_ascii_upper(s[i]) && is_ascii_upper(s[j]))
}

/// The snake_case spelling of a plain camelCase identifier, character by
/// character: an uppercase letter becomes `_` and its lowercase letter.
pub open spec fn snake_spelling(s: Seq<char>) -> Seq<char>
    decreases s.len(),
{
    if s.len() == 0 {
        Seq::empty()
    } else if is_ascii_upper(s.last()) {
        snake_spelling(s.drop_last()) + seq!['_', ascii_lower(s.last())]
    } else {
        snake_spelling(s.drop_last()).push(s.last())
    }
}

/// Lowercasing an ASCII uppercase letter gives an ASCII lowercase letter that
/// uppercases back to it.
proof fn lemma_ascii_upper_letter(c: char)
    requires
        is_ascii_upper(c),
    ensures
        is_ascii_lower(ascii_lower(c)),
        ascii_upper(ascii_lower(c)) == c,
        lower_of(c) == seq![ascii_lower(c)],
        upper_of(ascii_lower(c)) == seq![c],
{
}

proof fn lemma_camel_fold_push(e: Seq<char>, c: char)
    ensures
        camel_fold(e.push(c)) == camel_step(camel_fold(e), c),
{
    assert(e.push(c).drop_last() =~= e);
}

proof fn lemma_snake_spelling_last(s: Seq<char>)
    requires
        s.len() > 0,
        forall|i: int| 0 <= i < s.len() ==> is_camel_char(#[trigger] s[i]),
    ensures
        snake_spelling(s).len() > 0,
        snake_spelling(s).last() != '_',
        is_ascii_upper(s.last()) ==> snake_spelling(s) == snake_spelling(s.drop_last()) + seq![
            '_',
            ascii_lower(s.last()),
        ],
{
    assert(is_camel_char(s[s.len() - 1]));
    if is_ascii_upper(s.last()) {
        lemma_ascii_upper_letter(s.last());
    }
}

/// What the snake_case scan has made of a prefix of a plain camelCase
/// identifier.
proof fn lemma_snake_fold_camel(s: Seq<char>, i: int)
    requires
        is_plain_camel(s),
        0 <= i <= s.len(),
    ensures
        snake_fold(s.take(i)) == (snake_spelling(s.take(i)), i > 0 && is_ascii_upper(s[i - 1]), i == 0),
    decreases i,
{
    if i == 0 {
        assert(s.take(0) =~= Seq::<char>::empty());
    } else {
        let j = i - 1;
        lemma_snake_fold_camel(s, j);
        lemma_take_step(s, j);
        let t = s.take(j);
        let acc = snake_spelling(t);
        let x = s[j];
        assert(is_camel_char(x));
        assert(is_ascii_char(x));
        assert(s.take(i).last() == x && s.take(i).drop_last() == t);
        if is_ascii_upper(x) {
            assert(j > 0);
            assert(!is_ascii_upper(s[j - 1])) by {
                assert(!(is_ascii_upper(s[j - 1]) && is_ascii_upper(s[j])));
            }
            assert forall|k: int| 0 <= k < t.len() implies is_camel_char(#[trigger] t[k]) by {
                assert(t[k] == s[k]);
            }
            lemma_snake_spelling_last(t);
            lemma_ascii_upper_letter(x);
            assert(acc.push('_') + lower_of(x) =~= acc + seq!['_', ascii_lower(x)]);
        } else {
            if j > 0 && is_ascii_upper(s[j - 1]) && is_lower(x) {
                assert(j - 1 > 0) by {
                    assert(!is_ascii_upper(s[0]));
                }
                assert forall|k: int| 0 <= k < t.len() implies is_camel_char(#[trigger] t[k]) by {
                    assert(t[k] == s[k]);
                }
                lemma_snake_spelling_last(t);
                assert(t.last() == s[j - 1]);
                let rest = acc.drop_last();
                assert(rest =~= snake_spelling(t.drop_last()).push('_'));
                assert(rest.push(acc.last()) =~= acc);
            }
        }
    }
}

/// The camelCase scan turns the snake_case spelling of a prefix of a plain
/// camelCase identifier back into that prefix.
proof fn lemma_camel_fold_spelling(s: Seq<char>, i: int)
    requires
        is_plain_camel(s),
        0 <= i <= s.len(),
    ensures
        camel_fold(snake_spelling(s.take(i))) == (s.take(i), i == 0, 0nat),
    decreases i,
{
    if i == 0 {
        assert(s.take(0) =~= Seq::<char>::empty());
        assert(snake_spelling(s.take(0)) =~= Seq::<char>::empty());
    } else {
        let j = i - 1;
        lemma_camel_fold_spelling(s, j);
        lemma_take_step(s, j);
        let t = s.take(j);
        let e = snake_spelling(t);
        let x = s[j];
        assert(is_camel_char(x));
        assert(s.take(i).last() == x && s.take(i).drop_last() == t);
        assert(s.take(i) =~= t.push(x));
        if is_ascii_upper(x) {
            assert(j > 0);
            lemma_ascii_upper_letter(x);
            let lx = ascii_lower(x);
            assert(snake_spelling(s.take(i)) =~= e.push('_').push(lx));
            lemma_camel_fold_push(e, '_');
            lemma_camel_fold_push(e.push('_'), lx);
            assert(t + upper_of(lx) =~= t.push(x));
        } else {
            assert(snake_spelling(s.take(i)) == e.push(x));
            lemma_camel_fold_push(e, x);
        }
    }
}

/// Converting a plain camelCase identifier to snake_case and back gives the
/// identifier again.
pub proof fn law_camel_snake_round_trip(s: Seq<char>)
    requires
        is_plain_camel(s),
    ensures
        snake_to_camel_spec(camel_to_snake_spec(s)) == s,
{
    let n = s.len() as int;
    lemma_snake_fold_camel(s, n);
    lemma_camel_fold_spelling(s, n);
    assert(s.take(n) =~= s);
    assert(s + repeat_char('_', 0) =~= s);
}

/// Every character of `s` is an underscore.
pub open spec fn all_underscores(s: Seq<char>) -> bool {
    forall|j: int| 0 <= j < s.len() ==> s[j] == '_'
}

/// Position `k` of `s` lies in its leading run of underscores.
pub open spec fn in_leading_run(s: Seq<char>, k: int) -> bool {
    forall|j: int| 0 <= j <= k ==> s[j] == '_'
}

/// What character `k` of a snake_case identifier becomes in camelCase: a
/// leading underscore stays, any other underscore is dropped, a character
/// right after inner underscores is uppercased, and any other is kept.
pub open spec fn camel_piece(s: Seq<char>, k: int) -> Seq<char> {
    if s[k] == '_' {
        if in_leading_run(s, k) {
            seq!['_']
        } else {
            Seq::empty()
        }
    } else if k > 0 && s[k - 1] == '_' && !in_leading_run(s, k - 1) {
        upper_of(s[k])
    } else {
        seq![s[k]]
    }
}

/// The camelCase pieces of the first `m` characters of `s`, in order.
pub open spec fn camel_pieces(s: Seq<char>, m: int) -> Seq<char>
    decreases m,
{
    if m <= 0 {
        Seq::empty()
    } else {
        camel_pieces(s, m - 1) + camel_piece(s, m - 1)
    }
}

/// How many underscores end `s` after its last other character (none when
/// `s` holds only underscores).
pub open spec fn trailing_run(s: Seq<char>) -> nat
    decreases s.len(),
{
    if s.len() == 0 || s.last() != '_' || in_leading_run(s, s.len() - 1) {
        0
    } else {
        1 + trailing_run(s.drop_last())
    }
}

proof fn lemma_camel_pieces_agree(a: Seq<char>, b: Seq<char>, m: int)
    requires
        0 <= m <= a.len(),
        m <= b.len(),
        forall|k: int| 0 <= k < m ==> a[k] == b[k],
    ensures
        camel_pieces(a, m) == camel_pieces(b, m),
    decreases m,
{
    if m > 0 {
        lemma_camel_pieces_agree(a, b, m - 1);
        let k = m - 1;
        assert(in_leading_run(a, k) == in_leading_run(b, k));
        if k > 0 {
            assert(in_leading_run(a, k - 1) == in_leading_run(b, k - 1));
        }
        assert(camel_piece(a, k) == camel_piece(b, k));
    }
}

/// The camelCase scan of `t` has put out the pieces of all its characters,
/// is still in the leading underscores exactly when `t` holds only
/// underscores, and holds back the trailing underscores.
proof fn lemma_camel_fold_pieces(t: Seq<char>)
    ensures
        camel_fold(t).0 == camel_pieces(t, t.len() as int),
        camel_fold(t).1 == all_underscores(t),
        camel_fold(t).2 == trailing_run(t),
    decreases t.len(),
{
    if t.len() > 0 {
        let u = t.drop_last();
        let n = u.len() as int;
        let x = t.last();
        lemma_camel_fold_pieces(u);
        lemma_camel_pieces_agree(t, u, n);
        assert(t[n] == x);
        assert(forall|j: int| 0 <= j < n ==> t[j] == u[j]);
        assert(all_underscores(u) == (n == 0 || in_leading_run(t, n - 1)));
        assert(in_leading_run(t, n) == (all_underscores(u) && x == '_'));
        assert(all_underscores(t) == in_leading_run(t, n));
        assert(camel_pieces(t, n + 1) == camel_pieces(t, n) + camel_piece(t, n));
        if n > 0 {
            assert(in_leading_run(u, n - 1) == in_leading_run(t, n - 1));
        }
        assert(u.drop_last() == t.drop_last().drop_last());
    }
}

/// The camelCase form of an identifier, character by character: leading
/// underscores stay, every other underscore is dropped, the character right
/// after a run of inner underscores is uppercased whatever stands before
/// it, every other character is kept, and the underscores that end the
/// identifier after its last other character stay.
pub proof fn law_snake_to_camel_pieces(s: Seq<char>)
    ensures
        snake_to_camel_spec(s) == camel_pieces(s, s.len() as int) + repeat_char('_', trailing_run(s)),
{
    lemma_camel_fold_pieces(s);
}

/// An underscore goes before character `k` of an ASCII camelCase
/// identifier: `k` is an uppercase letter that follows a character other
/// than an underscore and an uppercase letter, or the last letter of an
/// uppercase run that a lowercase letter follows.
pub open spec fn snake_boundary(s: Seq<char>, k: int) -> bool {
    &&& is_ascii_upper(s[k])
    &&& k > 0
    &&& {
        ||| s[k - 1] != '_' && !is_ascii_upper(s[k - 1])
        ||| is_ascii_upper(s[k - 1]) && k + 1 < s.len() && is_ascii_lower(s[k + 1])
    }
}

/// What character `k` of an ASCII camelCase identifier becomes in
/// snake_case: its lowercase, after an underscore at a word boundary.
pub open spec fn snake_piece(s: Seq<char>, k: int) -> Seq<char> {
    if snake_boundary(s, k) {
        seq!['_', ascii_lower(s[k])]
    } else {
        seq![ascii_lower(s[k])]
    }
}

/// The snake_case pieces of the first `m` characters of `s`, in order.
pub open spec fn snake_pieces(s: Seq<char>, m: int) -> Seq<char>
    decreases m,
{
    if m <= 0 {
        Seq::empty()
    } else {
        snake_pieces(s, m - 1) + snake_piece(s, m - 1)
    }
}

proof fn lemma_snake_pieces_shape(s: Seq<char>, m: int)
    requires
        0 <= m <= s.len(),
    ensures
        snake_pieces(s, m).len() >= m,
        m > 0 ==> snake_pieces(s, m).last() == ascii_lower(s[m - 1]),
    decreases m,
{
    if m > 0 {
        lemma_snake_pieces_shape(s, m - 1);
    }
}

proof fn lemma_snake_pieces_agree(a: Seq<char>, b: Seq<char>, m: int)
    requires
        0 <= m <= a.len(),
        m <= b.len(),
        forall|k: int| 0 <= k < m ==> a[k] == b[k],
        forall|k: int| 0 <= k < m ==> snake_boundary(a, k) == snake_boundary(b, k),
    ensures
        snake_pieces(a, m) == snake_pieces(b, m),
    decreases m,
{
    if m > 0 {
        lemma_snake_pieces_agree(a, b, m - 1);
        assert(snake_piece(a, m - 1) == snake_piece(b, m - 1));
    }
}

/// The snake_case scan of an ASCII `t` has put out the pieces of all its
/// characters, with the boundary before its last character decided as if
/// nothing followed; it remembers whether that character is uppercase and
/// whether only underscores have been seen.
proof fn lemma_snake_fold_pieces(t: Seq<char>)
    requires
        all_ascii(t),
    ensures
        snake_fold(t).0 == snake_pieces(t, t.len() as int),
        snake_fold(t).1 == (t.len() > 0 && is_ascii_upper(t.last())),
        snake_fold(t).2 == all_underscores(t),
    decreases t.len(),
{
    if t.len() > 0 {
        let u = t.drop_last();
        let n = u.len() as int;
        let x = t.last();
        assert(t[n] == x);
        assert(forall|j: int| 0 <= j < n ==> t[j] == u[j]);
        assert(is_ascii_char(x));
        assert(all_ascii(u)) by {
            assert forall|i: int| 0 <= i < u.len() implies is_ascii_char(#[trigger] u[i]) by {
                assert(u[i] == t[i]);
            }
        }
        lemma_snake_fold_pieces(u);
        lemma_snake_pieces_shape(u, n);
        let (a, pu, lead) = snake_fold(u);
        assert(snake_fold(t) == snake_step(snake_fold(u), x));
        assert(snake_pieces(t, n + 1) == snake_pieces(t, n) + snake_piece(t, n));
        assert(is_upper(x) == is_ascii_upper(x));
        assert(is_lower(x) == is_ascii_lower(x));
        if n == 0 {
            assert(snake_pieces(t, 0) == Seq::<char>::empty());
            assert(a == Seq::<char>::empty());
            assert(!snake_boundary(t, 0));
            if lead && x == '_' {
                assert(a.push('_') =~= snake_piece(t, 0));
            } else if is_upper(x) {
                assert(lower_of(x) == seq![ascii_lower(x)]);
                assert(a + lower_of(x) =~= snake_piece(t, 0));
            } else {
                assert(ascii_lower(x) == x);
                assert(a.push(x) =~= snake_piece(t, 0));
            }
        } else {
            let y = u[n - 1];
            assert(is_ascii_char(y));
            assert(t[n - 1] == y);
            assert(forall|k: int|
                0 <= k < n - 1 ==> snake_boundary(t, k) == snake_boundary(u, k)) by {
                assert forall|k: int| 0 <= k < n - 1 implies snake_boundary(t, k) == snake_boundary(u, k) by {
                    assert(t[k] == u[k]);
                    assert(t[k + 1] == u[k + 1]);
                    if k > 0 {
                        assert(t[k - 1] == u[k - 1]);
                    }
                }
            }
            lemma_snake_pieces_agree(t, u, n - 1);
            let q = snake_pieces(u, n - 1);
            assert(a == q + snake_piece(u, n - 1));
            assert(snake_pieces(t, n) == q + snake_piece(t, n - 1));
            assert((ascii_lower(y) == '_') == (y == '_'));
            assert(pu == is_ascii_upper(y));
            if n >= 2 {
                lemma_snake_pieces_shape(u, n - 1);
                assert(t[n - 2] == u[n - 2]);
                assert((ascii_lower(u[n - 2]) == '_') == (u[n - 2] == '_'));
            }
            if lead && x == '_' {
                assert(!snake_boundary(t, n - 1) && !snake_boundary(u, n - 1));
                assert(!snake_boundary(t, n));
                assert(a.push('_') =~= snake_pieces(t, n) + snake_piece(t, n));
            } else if is_upper(x) {
                assert(snake_boundary(t, n - 1) == snake_boundary(u, n - 1));
                assert(lower_of(x) == seq![ascii_lower(x)]);
                assert(snake_boundary(t, n) == (a.len() > 0 && a.last() != '_' && !pu));
                let sep = if a.len() > 0 && a.last() != '_' && !pu {
                    a.push('_')
                } else {
                    a
                };
                assert(sep + lower_of(x) =~= snake_pieces(t, n) + snake_piece(t, n));
            } else {
                assert(ascii_lower(x) == x);
                assert(!snake_boundary(t, n));
                if pu && a.len() > 0 && is_lower(x) {
                    let rest = a.drop_last();
                    let sep = if rest.len() > 0 && rest.last() != '_' {
                        rest.push('_')
                    } else {
                        rest
                    };
                    if n >= 2 && is_ascii_upper(u[n - 2]) {
                        assert(snake_boundary(t, n - 1));
                        assert(!snake_boundary(u, n - 1));
                        assert(rest =~= q);
                        assert(sep.push(a.last()) =~= snake_pieces(t, n));
                    } else {
                        assert(snake_boundary(t, n - 1) == snake_boundary(u, n - 1));
                        if snake_boundary(u, n - 1) {
                            assert(rest =~= q.push('_'));
                        } else if n >= 2 {
                            assert(rest =~= q);
                        } else {
                            assert(q =~= Seq::<char>::empty());
                            assert(rest =~= q);
                        }
                        assert(sep.push(a.last()) =~= a);
                    }
                    assert(sep.push(a.last()).push(x) =~= snake_pieces(t, n) + snake_piece(t, n));
                } else {
                    assert(snake_boundary(t, n - 1) == snake_boundary(u, n - 1));
                    assert(a.push(x) =~= snake_pieces(t, n) + snake_piece(t, n));
                }
            }
        }
    }
}

/// The snake_case form of an ASCII identifier, character by character: each
/// character is lowered, and an underscore goes only before an uppercase
/// letter that follows a character other than an underscore and an
/// uppercase letter, or before the last letter of an uppercase run (an
/// acronym) that a lowercase letter follows. A digit after an acronym
/// leaves the acronym whole.
pub proof fn law_camel_to_snake_pieces(s: Seq<char>)
    requires
        all_ascii(s),
    ensures
        camel_to_snake_spec(s) == snake_pieces(s, s.len() as int),
{
    lemma_snake_fold_pieces(s);
}

} // verus!
