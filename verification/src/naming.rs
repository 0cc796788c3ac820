//! Names safe for Docker objects and report titles: lowercase ASCII
//! letters, digits and dashes.
use vstd::prelude::*;

use crate::text::{ascii_lower, is_ascii_alnum, owned, string_from_chars, to_chars};

verus! {

/// Lowercases ASCII letters and digits; every other character becomes '-'.
pub open spec fn safe_char(c: char) -> char {
    if is_ascii_alnum(c) {
        ascii_lower(c)
    } else {
        '-'
    }
}

pub open spec fn safe_chars(s: Seq<char>) -> Seq<char> {
    s.map_values(|c: char| safe_char(c))
}

/// `s` without leading '-' characters.
pub open spec fn trim_start_dashes(s: Seq<char>) -> Seq<char>
    decreases s.len(),
{
    if s.len() > 0 && s[0] == '-' {
        trim_start_dashes(s.drop_first())
    } else {
        s
    }
}

/// `s` without trailing '-' characters.
pub open spec fn trim_end_dashes(s: Seq<char>) -> Seq<char>
    decreases s.len(),
{
    if s.len() > 0 && s.last() == '-' {
        trim_end_dashes(s.drop_last())
    } else {
        s
    }
}

/// `str::trim_matches('-')`.
pub open spec fn trim_dashes(s: Seq<char>) -> Seq<char> {
    trim_end_dashes(trim_start_dashes(s))
}

/// The safe form of `s`, which may be empty.
pub open spec fn safe_core(s: Seq<char>) -> Seq<char> {
    trim_dashes(safe_chars(s))
}

/// The safe form of `s`, or `fallback` when nothing is left.
pub open spec fn safe_name(s: Seq<char>, fallback: Seq<char>) -> Seq<char> {
    if safe_core(s).len() == 0 {
        fallback
    } else {
        safe_core(s)
    }
}

/// A character allowed in a safe name.
pub open spec fn is_safe_name_char(c: char) -> bool {
    ('a' <= c && c <= 'z') || ('0' <= c && c <= '9') || c == '-'
}

pub open spec fn all_safe(s: Seq<char>) -> bool {
    forall|i: int| 0 <= i < s.len() ==> #[trigger] is_safe_name_char(s[i])
}

proof fn lemma_trim_start_dashes(s: Seq<char>)
    ensures
        trim_start_dashes(s).len() <= s.len(),
        trim_start_dashes(s) == s.skip(s.len() - trim_start_dashes(s).len()),
        trim_start_dashes(s).len() == 0 || trim_start_dashes(s)[0] != '-',
    decreases s.len(),
{
    if s.len() > 0 && s[0] == '-' {
        lemma_trim_start_dashes(s.drop_first());
        let k = trim_start_dashes(s).len() as int;
        assert(s.drop_first().skip(s.len() - 1 - k) =~= s.skip(s.len() - k));
    } else {
        assert(s.skip(0) =~= s);
    }
}

proof fn lemma_trim_end_dashes(s: Seq<char>)
    ensures
        trim_end_dashes(s).len() <= s.len(),
        trim_end_dashes(s) == s.take(trim_end_dashes(s).len() as int),
    decreases s.len(),
{
    if s.len() > 0 && s.last() == '-' {
        lemma_trim_end_dashes(s.drop_last());
        let k = trim_end_dashes(s).len() as int;
        assert(s.drop_last().take(k) =~= s.take(k));
    } else {
        assert(s.take(s.len() as int) =~= s);
    }
}

proof fn lemma_trimmed_dashes(s: Seq<char>)
    ensures
        forall|i: int|
            0 <= i < s.len() - trim_start_dashes(s).len() ==> #[trigger] s[i] == '-',
        forall|i: int|
            trim_end_dashes(s).len() <= i < s.len() ==> #[trigger] s[i] == '-',
    decreases s.len(),
{
    if s.len() > 0 && s[0] == '-' {
        lemma_trimmed_dashes(s.drop_first());
        assert forall|i: int| 0 <= i < s.len() - trim_start_dashes(s).len() implies #[trigger] s[i]
            == '-' by {
            if i > 0 {
                assert(s[i] == s.drop_first()[i - 1]);
            }
        }
    }
    if s.len() > 0 && s.last() == '-' {
        lemma_trimmed_dashes(s.drop_last());
        assert forall|i: int| trim_end_dashes(s).len() <= i < s.len() implies #[trigger] s[i]
            == '-' by {
            if i < s.len() - 1 {
                assert(s[i] == s.drop_last()[i]);
            }
        }
    }
}

/// The safe form of `s` is a stretch of `s` read character by character:
/// ASCII letters lowercased, digits kept, anything else turned into `-`;
/// what lies before and after that stretch holds no ASCII letter or digit.
/// The stretch starts at the returned position.
pub proof fn lemma_safe_core_window(s: Seq<char>) -> (a: int)
    ensures
        0 <= a && a + safe_core(s).len() <= s.len(),
        forall|i: int|
            0 <= i < safe_core(s).len() ==> #[trigger] safe_core(s)[i] == (if ('0' <= s[a + i] && s[a
                + i] <= '9') || ('a' <= s[a + i] && s[a + i] <= 'z') {
                s[a + i]
            } else if 'A' <= s[a + i] && s[a + i] <= 'Z' {
                ((s[a + i] as u32) + 32) as char
            } else {
                '-'
            }),
        forall|i: int| 0 <= i < a ==> !is_ascii_alnum(#[trigger] s[i]),
        forall|i: int| a + safe_core(s).len() <= i < s.len() ==> !is_ascii_alnum(#[trigger] s[i]),
{
    let m = safe_chars(s);
    lemma_trim_start_dashes(m);
    let t = trim_start_dashes(m);
    lemma_trim_end_dashes(t);
    let b = trim_end_dashes(t);
    lemma_trimmed_dashes(m);
    lemma_trimmed_dashes(t);
    let a = m.len() - t.len();
    assert(b == safe_core(s));
    assert forall|i: int| 0 <= i < b.len() implies #[trigger] b[i] == (if ('0' <= s[a + i]
        && s[a + i] <= '9') || ('a' <= s[a + i] && s[a + i] <= 'z') {
        s[a + i]
    } else if 'A' <= s[a + i] && s[a + i] <= 'Z' {
        ((s[a + i] as u32) + 32) as char
    } else {
        '-'
    }) by {
        assert(b[i] == t[i]);
        assert(t[i] == m[a + i]);
        assert(m[a + i] == safe_char(s[a + i]));
    }
    assert forall|i: int| 0 <= i < a implies !is_ascii_alnum(#[trigger] s[i]) by {
        assert(m[i] == '-');
        assert(m[i] == safe_char(s[i]));
    }
    assert forall|i: int| a + b.len() <= i < s.len() implies !is_ascii_alnum(#[trigger] s[i]) by {
        assert(t[i - a] == '-');
        assert(t[i - a] == m[i]);
        assert(m[i] == safe_char(s[i]));
    }
    a
}

/// Safe names hold only lowercase ASCII letters, digits and dashes, and
/// neither start nor end with a dash.
pub proof fn lemma_safe_core(s: Seq<char>)
    ensures
        all_safe(safe_core(s)),
        safe_core(s).len() <= s.len(),
        safe_core(s).len() > 0 ==> safe_core(s)[0] != '-' && safe_core(s).last() != '-',
{
    let m = safe_chars(s);
    assert(all_safe(m)) by {
        assert forall|i: int| 0 <= i < m.len() implies #[trigger] is_safe_name_char(m[i]) by {
            let c = s[i];
            assert(m[i] == safe_char(c));
        }
    }
    lemma_trim_start_dashes(m);
    let a = trim_start_dashes(m);
    lemma_trim_end_dashes(a);
    let b = trim_end_dashes(a);
    assert forall|i: int| 0 <= i < b.len() implies #[trigger] is_safe_name_char(b[i]) by {
        assert(b[i] == a[i]);
        assert(a[i] == m[m.len() - a.len() + i]);
    }
    lemma_trim_end_nonempty_first(a);
}

proof fn lemma_trim_end_nonempty_first(a: Seq<char>)
    ensures
        trim_end_dashes(a).len() > 0 ==> trim_end_dashes(a).last() != '-',
        trim_end_dashes(a).len() > 0 ==> trim_end_dashes(a)[0] == a[0],
    decreases a.len(),
{
    if a.len() > 0 && a.last() == '-' {
        lemma_trim_end_nonempty_first(a.drop_last());
    }
}

fn safe_char_exec(c: char) -> (r: char)
    ensures
        r == safe_char(c),
{
    if ('0' <= c && c <= '9') || ('a' <= c && c <= 'z') {
        c
    } else if 'A' <= c && c <= 'Z' {
        ((c as u8) + 32) as char
    } else {
        '-'
    }
}

/// The safe form of `input`, which may be empty.
pub fn safe_name_core(input: &str) -> (r: String)
    ensures
        r@ == safe_core(input@),
{
    let chars = to_chars(input);
    let mut m: Vec<char> = Vec::new();
    let mut i: usize = 0;
    while i < chars.len()
        invariant
            i <= chars.len(),
            chars@ == input@,
            m@ == safe_chars(input@).take(i as int),
        decreases chars.len() - i,
    {
        m.push(safe_char_exec(chars[i]));
        assert(safe_chars(input@).take(i + 1) =~= safe_chars(input@).take(i as int).push(
            safe_char(input@[i as int]),
        ));
        i = i + 1;
    }
    assert(safe_chars(input@).take(chars.len() as int) =~= safe_chars(input@));
    proof {
        lemma_trim_start_dashes(m@);
    }
    let mut start: usize = 0;
    assert(m@.skip(0) =~= m@);
    while start < m.len() && m[start] == '-'
        invariant
            start <= m.len(),
            trim_start_dashes(m@) == trim_start_dashes(m@.skip(start as int)),
        decreases m.len() - start,
    {
        assert(m@.skip(start as int).drop_first() =~= m@.skip(start + 1));
        start = start + 1;
    }
    let mut end: usize = m.len();
    let ghost a = m@.skip(start as int);
    assert(a.take(a.len() as int) =~= a);
    while end > start && m[end - 1] == '-'
        invariant
            start <= end <= m.len(),
            a == m@.skip(start as int),
            trim_end_dashes(a) == trim_end_dashes(a.take(end - start)),
        decreases end,
    {
        assert(a.take(end - start).drop_last() =~= a.take(end - start - 1));
        end = end - 1;
    }
    let mut out: Vec<char> = Vec::new();
    let mut k: usize = start;
    while k < end
        invariant
            start <= k <= end <= m.len(),
            out@ == m@.subrange(start as int, k as int),
        decreases end - k,
    {
        out.push(m[k]);
        assert(m@.subrange(start as int, k + 1) =~= m@.subrange(start as int, k as int).push(
            m@[k as int],
        ));
        k = k + 1;
    }
    assert(out@ =~= a.take(end - start));
    string_from_chars(&out)
}

/// The safe form of `input`, or `fallback` when nothing is left.
pub fn safe_name_or(input: &str, fallback: &str) -> (r: String)
    ensures
        r@ == safe_name(input@, fallback@),
{
    let core = safe_name_core(input);
    if core.as_str().is_empty() {
        owned(fallback)
    } else {
        core
    }
}

} // verus!
