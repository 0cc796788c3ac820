//! Explicitly forwarded secrets: which names have values, which were asked
//! for but are missing, and masking of the values in any text.
use vstd::prelude::*;

use crate::env_map::{lemma_map_get_at, lemma_map_insert, map_get, map_insert, EnvMap, EnvMapView};
use crate::text::{
    contains_seq, occurs_at, owned, replace_all, replace_all_exec, sort_strings, sorted, sorted_perm,
    starts_with, string_from_chars, strictly_sorted, to_chars,
};

verus! {

/// Abstract state of a [`SecretSet`]: the names that carry a value, in
/// ascending order, their values at the same positions, and the names that
/// were requested without a usable value, in the order they were recorded.
pub struct SecretSetView {
    pub names: Seq<Seq<char>>,
    pub values: Seq<Seq<char>>,
    pub missing: Seq<Seq<char>>,
}

/// The invariant every secret set keeps.
pub open spec fn secrets_wf(v: SecretSetView) -> bool {
    &&& v.names.len() == v.values.len()
    &&& strictly_sorted(v.names)
    &&& forall|i: int| 0 <= i < v.values.len() ==> (#[trigger] v.values[i]).len() > 0
    &&& v.missing.no_duplicates()
    &&& forall|i: int| 0 <= i < v.missing.len() ==> !v.names.contains(#[trigger] v.missing[i])
}

/// The empty secret set.
pub open spec fn empty_secrets() -> SecretSetView {
    SecretSetView { names: seq![], values: seq![], missing: seq![] }
}

/// Keeps every name but `name`.
pub open spec fn other_than(name: Seq<char>) -> spec_fn(Seq<char>) -> bool {
    |m: Seq<char>| m != name
}

/// Records `name` as missing unless it is already missing or has a value.
pub open spec fn with_missing(v: SecretSetView, name: Seq<char>) -> SecretSetView {
    if !v.missing.contains(name) && !v.names.contains(name) {
        SecretSetView { missing: v.missing.push(name), ..v }
    } else {
        v
    }
}

/// The stored pairs as a map view.
pub open spec fn secret_pairs(v: SecretSetView) -> EnvMapView {
    EnvMapView { keys: v.names, values: v.values }
}

/// Stores `value` under `name`, keeping the names sorted and dropping `name`
/// from the missing names; an empty value records the name as missing.
pub open spec fn with_value(v: SecretSetView, name: Seq<char>, value: Seq<char>) -> SecretSetView {
    if value.len() == 0 {
        with_missing(v, name)
    } else {
        let m = map_insert(secret_pairs(v), name, value);
        SecretSetView { names: m.keys, values: m.values, missing: v.missing.filter(other_than(name)) }
    }
}

/// The value stored under `name`, if any.
pub open spec fn secret_value(v: SecretSetView, name: Seq<char>) -> Option<Seq<char>> {
    map_get(secret_pairs(v), name)
}

/// The text that replaces a secret value.
pub open spec fn redacted() -> Seq<char> {
    seq!['[', 'R', 'E', 'D', 'A', 'C', 'T', 'E', 'D', ']']
}

/// `s` after replacing every occurrence of each nonempty value, one value
/// after another in the given order.
pub open spec fn mask_all(values: Seq<Seq<char>>, s: Seq<char>) -> Seq<char>
    decreases values.len(),
{
    if values.len() == 0 {
        s
    } else {
        mask_all(
            values.drop_first(),
            if values[0].len() > 0 {
                replace_all(s, values[0], redacted())
            } else {
                s
            },
        )
    }
}

/// A secret value that masking is guaranteed to remove from any text: it is
/// nonempty, holds no bracket, and is not itself part of the replacement.
pub open spec fn redaction_safe(v: Seq<char>) -> bool {
    &&& v.len() > 0
    &&& !v.contains('[')
    &&& !v.contains(']')
    &&& !contains_seq(redacted(), v)
}

/// Applies the env lookups for `names[..n]` in order: a nonempty value is
/// stored, anything else records the name as missing.
pub open spec fn env_fold(
    names: Seq<Seq<char>>,
    values: Seq<Option<Seq<char>>>,
    n: int,
) -> SecretSetView
    decreases n,
{
    if n <= 0 {
        empty_secrets()
    } else {
        let prev = env_fold(names, values, n - 1);
        match values[n - 1] {
            Some(val) => if val.len() > 0 {
                with_value(prev, names[n - 1], val)
            } else {
                with_missing(prev, names[n - 1])
            },
            None => with_missing(prev, names[n - 1]),
        }
    }
}

/// A set of secrets that were forwarded by name.
pub struct SecretSet {
    entries: EnvMap,
    missing: Vec<String>,
}

impl View for SecretSet {
    type V = SecretSetView;

    closed spec fn view(&self) -> SecretSetView {
        SecretSetView {
            names: self.entries@.keys,
            values: self.entries@.values,
            missing: self.missing.deep_view(),
        }
    }
}

// ---------------------------------------------------------------------------
// Lemmas about the model
// ---------------------------------------------------------------------------

/// Dropping every occurrence of `name` keeps a duplicate-free list
/// duplicate-free and keeps exactly the other names.
proof fn lemma_filter_without(s: Seq<Seq<char>>, name: Seq<char>)
    requires
        s.no_duplicates(),
    ensures
        s.filter(other_than(name)).no_duplicates(),
        !s.filter(other_than(name)).contains(name),
        forall|n: Seq<char>|
            n != name ==> (s.filter(other_than(name)).contains(n) == #[trigger] s.contains(n)),
    decreases s.len(),
{
    let pred = other_than(name);
    if s.len() == 0 {
        assert(s.filter(pred) =~= Seq::<Seq<char>>::empty()) by {
            reveal(Seq::filter);
        }
    } else {
        let d = s.drop_last();
        let last = s.last();
        assert(d.no_duplicates()) by {
            assert forall|i: int, j: int| 0 <= i < d.len() && 0 <= j < d.len() && i != j implies d[i]
                != d[j] by {
                assert(d[i] == s[i] && d[j] == s[j]);
            }
        }
        lemma_filter_without(d, name);
        assert(s =~= d.push(last));
        d.lemma_filter_push(last, pred);
        let fd = d.filter(pred);
        assert(!d.contains(last)) by {
            if d.contains(last) {
                let i = d.index_of(last);
                assert(s[i] == s[s.len() - 1]);
            }
        }
        if pred(last) {
            let f = fd.push(last);
            assert(!fd.contains(last)) by {
                if fd.contains(last) {
                    d.lemma_filter_contains_rev(pred, last);
                }
            }
            assert forall|i: int, j: int| 0 <= i < f.len() && 0 <= j < f.len() && i != j implies f[i]
                != f[j] by {
                if i == f.len() - 1 {
                    assert(fd.contains(f[j]) || j == f.len() - 1);
                } else if j == f.len() - 1 {
                    assert(fd.contains(f[i]));
                }
            }
            assert forall|n: Seq<char>| n != name implies (f.contains(n) == #[trigger] s.contains(n)) by {
                if s.contains(n) {
                    let i = s.index_of(n);
                    if i < s.len() - 1 {
                        assert(d[i] == n);
                        assert(fd.contains(n));
                        let t = fd.index_of(n);
                        assert(f[t] == n);
                    } else {
                        assert(f[f.len() - 1] == n);
                    }
                }
                if f.contains(n) {
                    let i = f.index_of(n);
                    if i < f.len() - 1 {
                        assert(fd[i] == n);
                        assert(d.contains(n));
                        let t = d.index_of(n);
                        assert(s[t] == n);
                    } else {
                        assert(s[s.len() - 1] == n);
                    }
                }
            }
            assert(!f.contains(name)) by {
                if f.contains(name) {
                    let i = f.index_of(name);
                    if i < f.len() - 1 {
                        assert(fd[i] == name);
                    }
                }
            }
        } else {
            assert forall|n: Seq<char>| n != name implies (fd.contains(n) == #[trigger] s.contains(n)) by {
                if s.contains(n) {
                    let i = s.index_of(n);
                    if i < s.len() - 1 {
                        assert(d[i] == n);
                    }
                }
                if d.contains(n) {
                    let i = d.index_of(n);
                    assert(s[i] == n);
                }
            }
        }
    }
}

/// Every stored name maps to the value at its position.
pub proof fn lemma_secret_value_at(v: SecretSetView, i: int)
    requires
        secrets_wf(v),
        0 <= i < v.names.len(),
    ensures
        secret_value(v, v.names[i]) == Some(v.values[i]),
{
    lemma_map_get_at(secret_pairs(v), i);
}

/// Storing a nonempty value keeps the invariant, makes the name readable
/// with that value, takes it off the missing names, and leaves every other
/// name as it was.
pub proof fn lemma_with_value(v: SecretSetView, name: Seq<char>, value: Seq<char>)
    requires
        secrets_wf(v),
        value.len() > 0,
    ensures
        secrets_wf(with_value(v, name, value)),
        secret_value(with_value(v, name, value), name) == Some(value),
        !with_value(v, name, value).missing.contains(name),
        forall|n: Seq<char>|
            n != name ==> secret_value(with_value(v, name, value), n) == #[trigger] secret_value(
                v,
                n,
            ),
        forall|n: Seq<char>|
            n != name ==> (with_value(v, name, value).missing.contains(n)
                == #[trigger] v.missing.contains(n)),
{
    let w = with_value(v, name, value);
    let m = map_insert(secret_pairs(v), name, value);
    lemma_map_insert(secret_pairs(v), name, value);
    lemma_filter_without(v.missing, name);
    assert(secret_pairs(w) == m);
    assert forall|i: int| 0 <= i < w.values.len() implies (#[trigger] w.values[i]).len() > 0 by {
        assert(m.values[i] == value || v.values.contains(m.values[i]));
        if m.values[i] != value {
            let j = v.values.index_of(m.values[i]);
            assert(v.values[j].len() > 0);
        }
    }
    assert forall|i: int| 0 <= i < w.missing.len() implies !w.names.contains(
        #[trigger] w.missing[i],
    ) by {
        let x = w.missing[i];
        assert(w.missing.contains(x));
        if x != name {
            assert(v.missing.contains(x));
            let j = v.missing.index_of(x);
            assert(!v.names.contains(v.missing[j]));
            assert(m.keys.contains(x) == (v.names.contains(x) || x == name));
        }
    }
}

/// Recording a missing name keeps the invariant; afterwards the name is
/// either stored with a value or listed as missing.
pub proof fn lemma_with_missing(v: SecretSetView, name: Seq<char>)
    requires
        secrets_wf(v),
    ensures
        secrets_wf(with_missing(v, name)),
        with_missing(v, name).names == v.names,
        with_missing(v, name).values == v.values,
        with_missing(v, name).names.contains(name) || with_missing(v, name).missing.contains(name),
{
    let w = with_missing(v, name);
    if !v.missing.contains(name) && !v.names.contains(name) {
        assert(w.missing[w.missing.len() - 1] == name);
        assert forall|i: int, j: int|
            0 <= i < w.missing.len() && 0 <= j < w.missing.len() && i != j implies w.missing[i]
            != w.missing[j] by {
            if i == w.missing.len() - 1 {
                assert(v.missing.contains(w.missing[j]) || j == w.missing.len() - 1);
            } else if j == w.missing.len() - 1 {
                assert(v.missing[i] == w.missing[i]);
            }
        }
        assert forall|i: int| 0 <= i < w.missing.len() implies !w.names.contains(
            #[trigger] w.missing[i],
        ) by {
            if i < v.missing.len() {
                assert(w.missing[i] == v.missing[i]);
            }
        }
    }
}

proof fn lemma_seq_prefix_not_open(w: Seq<char>, i: int)
    requires
        !w.contains('['),
        0 <= i < w.len(),
    ensures
        w[i] != '[',
{
    if w[i] == '[' {
        assert(w.contains(w[i]));
    }
}

/// If the replaced text starts with `w`, and `w` holds no '[', then the
/// input text starts with `w`: replacement never invents such text at
/// the front.
proof fn lemma_replace_prefix(s: Seq<char>, pat: Seq<char>, w: Seq<char>)
    requires
        pat.len() > 0,
        !w.contains('['),
        starts_with(replace_all(s, pat, redacted()), w),
    ensures
        starts_with(s, w),
    decreases s.len(),
{
    let out = replace_all(s, pat, redacted());
    if w.len() == 0 {
        assert(s.take(0) =~= w);
    } else if s.len() == 0 {
    } else if starts_with(s, pat) {
        assert(out[0] == '[');
        assert(w[0] == out.take(w.len() as int)[0]);
        lemma_seq_prefix_not_open(w, 0);
    } else {
        let rest = replace_all(s.drop_first(), pat, redacted());
        assert(out == seq![s[0]] + rest);
        let w2 = w.drop_first();
        assert(!w2.contains('[')) by {
            if w2.contains('[') {
                let j = w2.index_of('[');
                assert(w[j + 1] == '[');
            }
        }
        assert(rest.take(w2.len() as int) =~= out.take(w.len() as int).drop_first());
        lemma_replace_prefix(s.drop_first(), pat, w2);
        assert(w[0] == out.take(w.len() as int)[0]);
        assert(s.take(w.len() as int) =~= seq![s[0]] + s.drop_first().take(w2.len() as int));
        assert(w =~= seq![w[0]] + w2);
    }
}

/// An occurrence of a redaction-safe `w` inside the replacement text, or
/// overlapping its end, is impossible.
proof fn lemma_not_in_redacted_block(w: Seq<char>, rest: Seq<char>, i: int)
    requires
        redaction_safe(w),
        0 <= i < redacted().len(),
    ensures
        !occurs_at(redacted() + rest, w, i),
{
    let t = redacted() + rest;
    if occurs_at(t, w, i) {
        if i + w.len() <= redacted().len() {
            assert(t.subrange(i, i + w.len()) =~= redacted().subrange(i, i + w.len()));
            assert(occurs_at(redacted(), w, i));
        } else {
            let j = 9 - i;
            assert(t[9] == ']');
            assert(w[j] == t.subrange(i, i + w.len())[j]);
            assert(w.contains(w[j]));
        }
    }
}

/// Replacement never creates an occurrence of redaction-safe text.
proof fn lemma_replace_no_new(s: Seq<char>, pat: Seq<char>, w: Seq<char>)
    requires
        pat.len() > 0,
        redaction_safe(w),
        contains_seq(replace_all(s, pat, redacted()), w),
    ensures
        contains_seq(s, w),
    decreases s.len(),
{
    let out = replace_all(s, pat, redacted());
    let i = choose|i: int| occurs_at(out, w, i);
    if s.len() == 0 {
    } else if starts_with(s, pat) {
        let rest = replace_all(s.skip(pat.len() as int), pat, redacted());
        assert(out == redacted() + rest);
        if i < 10 {
            lemma_not_in_redacted_block(w, rest, i);
        } else {
            assert(rest.subrange(i - 10, i - 10 + w.len()) =~= out.subrange(i, i + w.len()));
            assert(occurs_at(rest, w, i - 10));
            lemma_replace_no_new(s.skip(pat.len() as int), pat, w);
            let j = choose|j: int| occurs_at(s.skip(pat.len() as int), w, j);
            assert(s.subrange(j + pat.len(), j + pat.len() + w.len()) =~= s.skip(
                pat.len() as int,
            ).subrange(j, j + w.len()));
            assert(occurs_at(s, w, j + pat.len()));
        }
    } else {
        let rest = replace_all(s.drop_first(), pat, redacted());
        assert(out == seq![s[0]] + rest);
        if i == 0 {
            assert(out.take(w.len() as int) =~= out.subrange(0, w.len() as int));
            lemma_replace_prefix(s, pat, w);
            assert(s.subrange(0, w.len() as int) =~= s.take(w.len() as int));
            assert(occurs_at(s, w, 0));
        } else {
            assert(rest.subrange(i - 1, i - 1 + w.len()) =~= out.subrange(i, i + w.len()));
            assert(occurs_at(rest, w, i - 1));
            lemma_replace_no_new(s.drop_first(), pat, w);
            let j = choose|j: int| occurs_at(s.drop_first(), w, j);
            assert(s.subrange(j + 1, j + 1 + w.len()) =~= s.drop_first().subrange(j, j + w.len()));
            assert(occurs_at(s, w, j + 1));
        }
    }
}

/// After replacing a redaction-safe value, the value no longer occurs.
proof fn lemma_replace_removes(s: Seq<char>, pat: Seq<char>)
    requires
        redaction_safe(pat),
    ensures
        !contains_seq(replace_all(s, pat, redacted()), pat),
    decreases s.len(),
{
    let out = replace_all(s, pat, redacted());
    if contains_seq(out, pat) {
        let i = choose|i: int| occurs_at(out, pat, i);
        if s.len() == 0 {
        } else if starts_with(s, pat) {
            let rest = replace_all(s.skip(pat.len() as int), pat, redacted());
            assert(out == redacted() + rest);
            if i < 10 {
                lemma_not_in_redacted_block(pat, rest, i);
            } else {
                assert(rest.subrange(i - 10, i - 10 + pat.len()) =~= out.subrange(i, i + pat.len()));
                assert(occurs_at(rest, pat, i - 10));
                lemma_replace_removes(s.skip(pat.len() as int), pat);
            }
        } else {
            let rest = replace_all(s.drop_first(), pat, redacted());
            assert(out == seq![s[0]] + rest);
            if i == 0 {
                assert(out.take(pat.len() as int) =~= out.subrange(0, pat.len() as int));
                lemma_replace_prefix(s, pat, pat);
            } else {
                assert(rest.subrange(i - 1, i - 1 + pat.len()) =~= out.subrange(i, i + pat.len()));
                assert(occurs_at(rest, pat, i - 1));
                lemma_replace_removes(s.drop_first(), pat);
            }
        }
    }
}

/// Replacing a value that does not occur leaves the text unchanged.
proof fn lemma_replace_absent(s: Seq<char>, pat: Seq<char>)
    requires
        pat.len() > 0,
        !contains_seq(s, pat),
    ensures
        replace_all(s, pat, redacted()) == s,
    decreases s.len(),
{
    if s.len() > 0 {
        if starts_with(s, pat) {
            assert(s.subrange(0, pat.len() as int) =~= s.take(pat.len() as int));
            assert(occurs_at(s, pat, 0));
        }
        assert(!contains_seq(s.drop_first(), pat)) by {
            if contains_seq(s.drop_first(), pat) {
                let j = choose|j: int| occurs_at(s.drop_first(), pat, j);
                assert(s.subrange(j + 1, j + 1 + pat.len()) =~= s.drop_first().subrange(
                    j,
                    j + pat.len(),
                ));
                assert(occurs_at(s, pat, j + 1));
            }
        }
        lemma_replace_absent(s.drop_first(), pat);
        assert(s =~= seq![s[0]] + s.drop_first());
    }
}

proof fn lemma_mask_keeps_absent(values: Seq<Seq<char>>, s: Seq<char>, w: Seq<char>)
    requires
        redaction_safe(w),
        !contains_seq(s, w),
    ensures
        !contains_seq(mask_all(values, s), w),
    decreases values.len(),
{
    if values.len() > 0 {
        let next = if values[0].len() > 0 {
            replace_all(s, values[0], redacted())
        } else {
            s
        };
        if values[0].len() > 0 && contains_seq(next, w) {
            lemma_replace_no_new(s, values[0], w);
        }
        lemma_mask_keeps_absent(values.drop_first(), next, w);
    }
}

/// Masking hides secrets: no redaction-safe value of the set occurs in
/// masked text, whatever the input.
pub proof fn lemma_mask_hides_values(values: Seq<Seq<char>>, s: Seq<char>, i: int)
    requires
        0 <= i < values.len(),
        redaction_safe(values[i]),
    ensures
        !contains_seq(mask_all(values, s), values[i]),
    decreases values.len(),
{
    let next = if values[0].len() > 0 {
        replace_all(s, values[0], redacted())
    } else {
        s
    };
    if i == 0 {
        lemma_replace_removes(s, values[0]);
        lemma_mask_keeps_absent(values.drop_first(), next, values[0]);
    } else {
        assert(values.drop_first()[i - 1] == values[i]);
        lemma_mask_hides_values(values.drop_first(), next, i - 1);
    }
}

proof fn lemma_missing_from_requested(prev: SecretSetView, name: Seq<char>, asked: Seq<Seq<char>>)
    requires
        asked.contains(name),
        forall|k: Seq<char>| #[trigger] prev.missing.contains(k) ==> asked.contains(k),
    ensures
        forall|k: Seq<char>| #[trigger] with_missing(prev, name).missing.contains(k) ==> asked.contains(k),
{
    let w = with_missing(prev, name);
    assert forall|k: Seq<char>| #[trigger] w.missing.contains(k) implies asked.contains(k) by {
        if k != name {
            let j = choose|j: int| 0 <= j < w.missing.len() && w.missing[j] == k;
            if w.missing.len() != prev.missing.len() {
                assert(j < prev.missing.len());
                assert(prev.missing[j] == k);
            }
            assert(prev.missing.contains(k));
        }
    }
}

/// Only requested names are forwarded: after the environment lookups for
/// `names`, every name that carries a value, and every name listed as
/// missing, is one of the requested names.
pub proof fn lemma_forwards_only_requested(
    names: Seq<Seq<char>>,
    values: Seq<Option<Seq<char>>>,
    n: int,
)
    requires
        0 <= n <= names.len(),
        names.len() == values.len(),
    ensures
        secrets_wf(env_fold(names, values, n)),
        forall|k: Seq<char>|
            #[trigger] env_fold(names, values, n).names.contains(k) ==> names.take(n).contains(k),
        forall|k: Seq<char>|
            #[trigger] env_fold(names, values, n).missing.contains(k) ==> names.take(n).contains(k),
    decreases n,
{
    if n > 0 {
        lemma_forwards_only_requested(names, values, n - 1);
        let prev = env_fold(names, values, n - 1);
        let name = names[n - 1];
        assert(names.take(n) =~= names.take(n - 1).push(name));
        assert(names.take(n).contains(name)) by {
            assert(names.take(n)[n - 1] == name);
        }
        assert forall|k: Seq<char>| names.take(n - 1).contains(k) implies names.take(n).contains(k) by {
            let j = choose|j: int| 0 <= j < n - 1 && #[trigger] names.take(n - 1)[j] == k;
            assert(names.take(n)[j] == k);
        }
        match values[n - 1] {
            Some(val) => {
                if val.len() > 0 {
                    lemma_with_value(prev, name, val);
                    lemma_map_insert(secret_pairs(prev), name, val);
                    let w = with_value(prev, name, val);
                    assert forall|k: Seq<char>| #[trigger] w.missing.contains(k) implies names.take(
                        n,
                    ).contains(k) by {
                        if k != name {
                            assert(prev.missing.contains(k));
                        }
                    }
                } else {
                    lemma_with_missing(prev, name);
                    lemma_missing_from_requested(prev, name, names.take(n));
                }
            },
            None => {
                lemma_with_missing(prev, name);
                lemma_missing_from_requested(prev, name, names.take(n));
            },
        }
    } else {
        assert(env_fold(names, values, n).missing =~= Seq::<Seq<char>>::empty());
    }
}

/// A text that is exactly a nonempty secret value is masked to
/// `[REDACTED]`.
pub proof fn lemma_mask_whole_value(v: Seq<char>)
    requires
        v.len() > 0,
    ensures
        mask_all(seq![v], v) == "[REDACTED]"@,
{
    reveal_strlit("[REDACTED]");
    assert(v.take(v.len() as int) =~= v);
    assert(v.skip(v.len() as int) =~= Seq::<char>::empty());
    assert(starts_with(v, v));
    let e = v.skip(v.len() as int);
    assert(replace_all(e, v, redacted()) == e);
    assert(replace_all(v, v, redacted()) == redacted() + e);
    assert(redacted() + e =~= redacted());
    assert(seq![v].drop_first() =~= Seq::<Seq<char>>::empty());
    assert(mask_all(seq![v], v) == mask_all(seq![v].drop_first(), replace_all(v, v, redacted())));
    assert(redacted() =~= "[REDACTED]"@);
}

/// Masking leaves text that holds no secret value unchanged.
pub proof fn lemma_mask_identity(values: Seq<Seq<char>>, s: Seq<char>)
    requires
        forall|i: int| 0 <= i < values.len() ==> !contains_seq(s, #[trigger] values[i]),
    ensures
        mask_all(values, s) == s,
    decreases values.len(),
{
    if values.len() > 0 {
        if values[0].len() > 0 {
            lemma_replace_absent(s, values[0]);
        }
        assert forall|i: int| 0 <= i < values.drop_first().len() implies !contains_seq(
            s,
            #[trigger] values.drop_first()[i],
        ) by {
            assert(values.drop_first()[i] == values[i + 1]);
        }
        lemma_mask_identity(values.drop_first(), s);
    }
}

// ---------------------------------------------------------------------------
// The executable set
// ---------------------------------------------------------------------------

impl SecretSet {
    #[verifier::type_invariant]
    spec fn inv(&self) -> bool {
        secrets_wf(self@)
    }

    /// An empty set.
    pub fn new() -> (s: Self)
        ensures
            s@ == empty_secrets(),
    {
        let s = SecretSet { entries: EnvMap::new(), missing: Vec::new() };
        assert(s@.missing =~= Seq::<Seq<char>>::empty());
        s
    }

    /// Builds the set from env lookups made by the caller: `values[i]` is
    /// what the environment holds for `names[i]`, if anything.
    pub fn from_env_values(names: &Vec<String>, values: &Vec<Option<String>>) -> (s: Self)
        requires
            names.len() == values.len(),
        ensures
            s@ == env_fold(names.deep_view(), values.deep_view(), names.len() as int),
    {
        let mut set = SecretSet::new();
        let mut i: usize = 0;
        while i < names.len()
            invariant
                i <= names.len(),
                names.len() == values.len(),
                set@ == env_fold(names.deep_view(), values.deep_view(), i as int),
            decreases names.len() - i,
        {
            assert(names.deep_view()[i as int] == names[i as int]@);
            assert(values.deep_view()[i as int] == values[i as int].deep_view());
            match &values[i] {
                Some(v) => {
                    if !v.as_str().is_empty() {
                        set.add_value(names[i].as_str(), v.as_str());
                    } else {
                        set.add_missing(names[i].as_str());
                    }
                },
                None => {
                    set.add_missing(names[i].as_str());
                },
            }
            i = i + 1;
        }
        set
    }

    /// Stores `value` under `name`; an empty value records the name as missing.
    pub fn add_value(&mut self, name: &str, value: &str)
        ensures
            final(self)@ == with_value(old(self)@, name@, value@),
    {
        proof {
            use_type_invariant(&*self);
        }
        if value.is_empty() {
            self.add_missing(name);
            return;
        }
        proof {
            lemma_with_value(self@, name@, value@);
        }
        let ghost old_view = self@;
        let mut entries = self.entries.clone();
        entries.insert(name, value);
        let name_s = owned(name);
        let mut missing: Vec<String> = Vec::new();
        let ghost pred = other_than(name@);
        let mut i: usize = 0;
        assert(missing.deep_view() =~= old_view.missing.take(0).filter(pred));
        while i < self.missing.len()
            invariant
                i <= self.missing.len(),
                self@ == old_view,
                name_s@ == name@,
                pred == other_than(name@),
                missing.deep_view() == old_view.missing.take(i as int).filter(pred),
            decreases self.missing.len() - i,
        {
            let ghost before = missing.deep_view();
            assert(old_view.missing[i as int] == self.missing[i as int]@);
            assert(old_view.missing.take(i + 1) =~= old_view.missing.take(i as int).push(
                old_view.missing[i as int],
            ));
            proof {
                old_view.missing.take(i as int).lemma_filter_push(old_view.missing[i as int], pred);
            }
            if !(self.missing[i] == name_s) {
                missing.push(self.missing[i].clone());
                assert(missing.deep_view() =~= before.push(old_view.missing[i as int]));
            }
            i = i + 1;
        }
        assert(old_view.missing.take(old_view.missing.len() as int) =~= old_view.missing);
        *self = SecretSet { entries, missing };
    }

    /// Records `name` as missing unless it is already known.
    pub fn add_missing(&mut self, name: &str)
        ensures
            final(self)@ == with_missing(old(self)@, name@),
    {
        proof {
            use_type_invariant(&*self);
            lemma_with_missing(self@, name@);
        }
        let name_s = owned(name);
        let names = self.entries.keys();
        let mut known = false;
        let mut i: usize = 0;
        while i < self.missing.len()
            invariant
                i <= self.missing.len(),
                name_s@ == name@,
                known ==> self@.missing.contains(name@),
                !known ==> forall|j: int| 0 <= j < i ==> #[trigger] self@.missing[j] != name@,
            decreases self.missing.len() - i,
        {
            assert(self@.missing[i as int] == self.missing[i as int]@);
            if self.missing[i] == name_s {
                assert(self@.missing[i as int] == name@);
                known = true;
            }
            i = i + 1;
        }
        let mut j: usize = 0;
        while j < names.len()
            invariant
                j <= names.len(),
                names.deep_view() == self@.names,
                name_s@ == name@,
                known ==> self@.missing.contains(name@) || self@.names.contains(name@),
                !known ==> !self@.missing.contains(name@),
                !known ==> forall|t: int| 0 <= t < j ==> #[trigger] self@.names[t] != name@,
            decreases names.len() - j,
        {
            assert(self@.names[j as int] == names[j as int]@);
            if names[j] == name_s {
                assert(self@.names[j as int] == name@);
                known = true;
            }
            j = j + 1;
        }
        if !known {
            let ghost old_view = self@;
            let mut missing = self.missing.clone();
            assert(missing.deep_view() =~= old_view.missing);
            missing.push(name_s);
            assert(missing.deep_view() =~= old_view.missing.push(name@));
            let entries = self.entries.clone();
            *self = SecretSet { entries, missing };
        }
    }

    /// Whether every name in `names` carries a value.
    pub fn has_all(&self, names: &[&str]) -> (b: bool)
        ensures
            b == forall|i: int| 0 <= i < names@.len() ==> self@.names.contains(#[trigger] names@[i]@),
    {
        let stored = self.entries.keys();
        let mut i: usize = 0;
        while i < names.len()
            invariant
                i <= names@.len(),
                stored.deep_view() == self@.names,
                forall|t: int| 0 <= t < i ==> self@.names.contains(#[trigger] names@[t]@),
            decreases names@.len() - i,
        {
            let wanted = owned(names[i]);
            let mut found = false;
            let mut j: usize = 0;
            while j < stored.len()
                invariant
                    j <= stored.len(),
                    stored.deep_view() == self@.names,
                    wanted@ == names@[i as int]@,
                    found == exists|t: int| 0 <= t < j && #[trigger] self@.names[t] == wanted@,
                decreases stored.len() - j,
            {
                assert(self@.names[j as int] == stored[j as int]@);
                if stored[j] == wanted {
                    found = true;
                }
                j = j + 1;
            }
            if !found {
                assert(!self@.names.contains(names@[i as int]@));
                return false;
            }
            i = i + 1;
        }
        true
    }

    /// The names that carry a value, in ascending order.
    pub fn names(&self) -> (r: Vec<String>)
        ensures
            r.deep_view() == self@.names,
            strictly_sorted(r.deep_view()),
    {
        proof {
            use_type_invariant(self);
        }
        self.entries.keys()
    }

    /// The requested names without a value, in ascending order.
    pub fn missing_names(&self) -> (r: Vec<String>)
        ensures
            sorted(r.deep_view()),
            r.deep_view().to_multiset() == self@.missing.to_multiset(),
            r.deep_view() == sorted_perm(self@.missing),
    {
        let m = self.missing.clone();
        assert(m.deep_view() =~= self@.missing);
        sort_strings(m)
    }

    /// The stored names and values, to hand to a command's environment.
    pub fn env_pairs(&self) -> (r: EnvMap)
        ensures
            r@ == secret_pairs(self@),
    {
        self.entries.clone()
    }

    /// `input` with every stored value replaced by `[REDACTED]`, value by
    /// value in name order.
    pub fn mask(&self, input: &str) -> (r: String)
        ensures
            r@ == mask_all(self@.values, input@),
    {
        let values = self.entries.values();
        let red: Vec<char> = vec!['[', 'R', 'E', 'D', 'A', 'C', 'T', 'E', 'D', ']'];
        assert(red@ =~= redacted());
        let mut cur = to_chars(input);
        let mut i: usize = 0;
        assert(self@.values.skip(0) =~= self@.values);
        while i < values.len()
            invariant
                i <= values.len(),
                values.deep_view() == self@.values,
                red@ == redacted(),
                mask_all(self@.values, input@) == mask_all(self@.values.skip(i as int), cur@),
            decreases values.len() - i,
        {
            let v = to_chars(values[i].as_str());
            assert(v@ == self@.values[i as int]);
            assert(self@.values.skip(i as int).drop_first() =~= self@.values.skip(i + 1));
            if v.len() > 0 {
                cur = replace_all_exec(&cur, &v, &red);
            }
            i = i + 1;
        }
        assert(self@.values.skip(i as int) =~= Seq::<Seq<char>>::empty());
        string_from_chars(&cur)
    }
}

impl Clone for SecretSet {
    fn clone(&self) -> (r: Self)
        ensures
            r@ == self@,
    {
        proof {
            use_type_invariant(self);
        }
        let entries = self.entries.clone();
        let missing = self.missing.clone();
        assert(missing.deep_view() =~= self@.missing);
        SecretSet { entries, missing }
    }
}

impl Default for SecretSet {
    fn default() -> (r: Self)
        ensures
            r@ == empty_secrets(),
    {
        SecretSet::new()
    }
}

} // verus!
