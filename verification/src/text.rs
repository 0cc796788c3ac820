//! Character-level text model shared by the whole library: whitespace,
//! UTF-8 byte lengths, trimming, searching, replacing, decimal rendering,
//! joining and the lexicographic order of strings.
use vstd::prelude::*;
use vstd::utf8::*;

verus! {

broadcast use vstd::string::group_string_axioms;

// ---------------------------------------------------------------------------
// Specifications
// ---------------------------------------------------------------------------

/// Unicode `White_Space`, the property behind `char::is_whitespace`.
pub open spec fn is_ws(c: char) -> bool {
    let u = c as u32;
    ||| (0x9 <= u && u <= 0xd)
    ||| u == 0x20
    ||| u == 0x85
    ||| u == 0xa0
    ||| u == 0x1680
    ||| (0x2000 <= u && u <= 0x200a)
    ||| u == 0x2028
    ||| u == 0x2029
    ||| u == 0x202f
    ||| u == 0x205f
    ||| u == 0x3000
}

/// Some character of `s` is whitespace.
pub open spec fn has_ws(s: Seq<char>) -> bool {
    exists|i: int| 0 <= i < s.len() && #[trigger] is_ws(s[i])
}

/// Every character of `s` is whitespace.
pub open spec fn all_ws(s: Seq<char>) -> bool {
    forall|i: int| 0 <= i < s.len() ==> #[trigger] is_ws(s[i])
}

/// `s` with trailing whitespace removed (`str::trim_end`).
pub open spec fn trim_end(s: Seq<char>) -> Seq<char>
    decreases s.len(),
{
    if s.len() > 0 && is_ws(s.last()) {
        trim_end(s.drop_last())
    } else {
        s
    }
}

/// `s` with leading whitespace removed (`str::trim_start`).
pub open spec fn trim_start(s: Seq<char>) -> Seq<char>
    decreases s.len(),
{
    if s.len() > 0 && is_ws(s[0]) {
        trim_start(s.drop_first())
    } else {
        s
    }
}

/// `s` with whitespace removed from both ends (`str::trim`).
pub open spec fn trim(s: Seq<char>) -> Seq<char> {
    trim_end(trim_start(s))
}

/// Number of bytes in the UTF-8 encoding of `c`.
pub open spec fn char_width(c: char) -> nat {
    let u = c as u32;
    if u <= 0x7f {
        1
    } else if u <= 0x7ff {
        2
    } else if u <= 0xffff {
        3
    } else {
        4
    }
}

/// Number of bytes in the UTF-8 encoding of `s` (`str::len`).
pub open spec fn utf8_len(s: Seq<char>) -> nat
    decreases s.len(),
{
    if s.len() == 0 {
        0
    } else {
        char_width(s[0]) + utf8_len(s.drop_first())
    }
}

/// Number of leading characters of `s` whose encoding fits in `budget`
/// bytes: the longest prefix that ends on a character boundary.
pub open spec fn fit_count(s: Seq<char>, budget: int) -> nat
    decreases s.len(),
{
    if s.len() == 0 || char_width(s[0]) > budget {
        0
    } else {
        1 + fit_count(s.drop_first(), budget - char_width(s[0]))
    }
}

pub open spec fn is_ascii_alnum(c: char) -> bool {
    ('0' <= c && c <= '9') || ('a' <= c && c <= 'z') || ('A' <= c && c <= 'Z')
}

/// `char::to_ascii_lowercase`.
pub open spec fn ascii_lower(c: char) -> char {
    if 'A' <= c && c <= 'Z' {
        ((c as u32) + 32) as char
    } else {
        c
    }
}

/// `pat` occurs in `s` at position `i`.
pub open spec fn occurs_at(s: Seq<char>, pat: Seq<char>, i: int) -> bool {
    0 <= i && i + pat.len() <= s.len() && s.subrange(i, i + pat.len()) == pat
}

/// `pat` occurs somewhere in `s` (`str::contains`).
pub open spec fn contains_seq(s: Seq<char>, pat: Seq<char>) -> bool {
    exists|i: int| #[trigger] occurs_at(s, pat, i)
}

/// `s` starts with `p`.
pub open spec fn starts_with(s: Seq<char>, p: Seq<char>) -> bool {
    p.len() <= s.len() && s.take(p.len() as int) == p
}

/// Replaces every non-overlapping occurrence of a nonempty `pat` in `s`,
/// scanning from the left (`str::replace`).
pub open spec fn replace_all(s: Seq<char>, pat: Seq<char>, rep: Seq<char>) -> Seq<char>
    decreases s.len(),
{
    if s.len() == 0 || pat.len() == 0 {
        s
    } else if starts_with(s, pat) {
        rep + replace_all(s.skip(pat.len() as int), pat, rep)
    } else {
        seq![s[0]] + replace_all(s.drop_first(), pat, rep)
    }
}

pub open spec fn digit_char(d: nat) -> char {
    ((d + 48) as u8) as char
}

/// Decimal digits of `n`, most significant first.
pub open spec fn dec(n: nat) -> Seq<char>
    decreases n,
{
    if n < 10 {
        seq![digit_char(n)]
    } else {
        dec(n / 10).push(digit_char(n % 10))
    }
}

/// Decimal rendering of a signed integer (`Display` for the integer types).
pub open spec fn int_text(n: int) -> Seq<char> {
    if n < 0 {
        seq!['-'] + dec((-n) as nat)
    } else {
        dec(n as nat)
    }
}

/// Parts separated by `sep` (`slice::join`).
pub open spec fn join(parts: Seq<Seq<char>>, sep: Seq<char>) -> Seq<char>
    decreases parts.len(),
{
    if parts.len() == 0 {
        seq![]
    } else if parts.len() == 1 {
        parts[0]
    } else {
        join(parts.drop_last(), sep) + sep + parts.last()
    }
}

/// Strict lexicographic order of strings by code point, which is the byte
/// order of their UTF-8 encodings (`Ord for str`).
pub open spec fn text_lt(a: Seq<char>, b: Seq<char>) -> bool
    decreases a.len(),
{
    if a.len() == 0 {
        b.len() > 0
    } else if b.len() == 0 {
        false
    } else if a[0] != b[0] {
        (a[0] as u32) < (b[0] as u32)
    } else {
        text_lt(a.drop_first(), b.drop_first())
    }
}

pub open spec fn text_le(a: Seq<char>, b: Seq<char>) -> bool {
    a == b || text_lt(a, b)
}

/// Sorted by `text_lt` with no duplicates.
pub open spec fn strictly_sorted(v: Seq<Seq<char>>) -> bool {
    forall|i: int, j: int| 0 <= i < j < v.len() ==> text_lt(#[trigger] v[i], #[trigger] v[j])
}

/// Sorted by `text_le`.
pub open spec fn sorted(v: Seq<Seq<char>>) -> bool {
    forall|i: int, j: int| 0 <= i < j < v.len() ==> text_le(#[trigger] v[i], #[trigger] v[j])
}

// ---------------------------------------------------------------------------
// Lemmas
// ---------------------------------------------------------------------------

/// `char_width` is the length of a character's UTF-8 encoding.
pub proof fn lemma_char_width_encode(c: char)
    ensures
        encode_scalar(c as u32).len() == char_width(c),
        1 <= char_width(c) <= 4,
{
    char_is_scalar(c);
}

/// `utf8_len` is the length of a text's UTF-8 encoding, the byte length
/// that `str::len` reports.
pub proof fn lemma_utf8_len_encode(s: Seq<char>)
    ensures
        utf8_len(s) == encode_utf8(s).len(),
    decreases s.len(),
{
    if s.len() > 0 {
        lemma_char_width_encode(s[0]);
        lemma_utf8_len_encode(s.drop_first());
    }
}

pub proof fn lemma_utf8_len_add(a: Seq<char>, b: Seq<char>)
    ensures
        utf8_len(a + b) == utf8_len(a) + utf8_len(b),
    decreases a.len(),
{
    if a.len() > 0 {
        assert((a + b).drop_first() =~= a.drop_first() + b);
        lemma_utf8_len_add(a.drop_first(), b);
    } else {
        assert(a + b =~= b);
    }
}

pub proof fn lemma_utf8_len_push(a: Seq<char>, c: char)
    ensures
        utf8_len(a.push(c)) == utf8_len(a) + char_width(c),
{
    assert(a.push(c) =~= a + seq![c]);
    lemma_utf8_len_add(a, seq![c]);
    assert(seq![c].drop_first() =~= Seq::<char>::empty());
    assert(utf8_len(seq![c]) == char_width(c) + utf8_len(seq![c].drop_first()));
}

pub proof fn lemma_utf8_len_ge_len(s: Seq<char>)
    ensures
        utf8_len(s) >= s.len(),
    decreases s.len(),
{
    if s.len() > 0 {
        lemma_utf8_len_ge_len(s.drop_first());
    }
}

/// `fit_count` is the longest prefix that fits: all shorter prefixes fit,
/// the next one does not.
pub proof fn lemma_fit_count(s: Seq<char>, budget: int)
    ensures
        fit_count(s, budget) <= s.len(),
        budget >= 0 ==> utf8_len(s.take(fit_count(s, budget) as int)) <= budget,
        fit_count(s, budget) < s.len() ==> utf8_len(s.take(fit_count(s, budget) + 1int)) > budget,
    decreases s.len(),
{
    if s.len() == 0 {
        assert(s.take(0) =~= Seq::<char>::empty());
    } else if char_width(s[0]) > budget {
        assert(s.take(0) =~= Seq::<char>::empty());
        assert(s.take(1).drop_first() =~= Seq::<char>::empty());
    } else {
        let t = s.drop_first();
        let b2 = budget - char_width(s[0]);
        lemma_fit_count(t, b2);
        let k = fit_count(t, b2);
        assert(s.take(k + 1int).drop_first() =~= t.take(k as int));
        if k < t.len() {
            assert(s.take(k + 2int).drop_first() =~= t.take(k + 1int));
        }
    }
}

pub proof fn lemma_trim_end_prefix(s: Seq<char>)
    ensures
        trim_end(s).len() <= s.len(),
        trim_end(s) == s.take(trim_end(s).len() as int),
        trim_end(s).len() == 0 || !is_ws(trim_end(s).last()),
        forall|i: int| trim_end(s).len() <= i < s.len() ==> #[trigger] is_ws(s[i]),
    decreases s.len(),
{
    if s.len() > 0 && is_ws(s.last()) {
        lemma_trim_end_prefix(s.drop_last());
        let k = trim_end(s).len() as int;
        assert(s.drop_last().take(k) =~= s.take(k));
        assert forall|i: int| k <= i < s.len() implies #[trigger] is_ws(s[i]) by {
            if i < s.len() - 1 {
                assert(s.drop_last()[i] == s[i]);
            }
        }
    } else {
        assert(s.take(s.len() as int) =~= s);
    }
}

pub proof fn lemma_trim_start_suffix(s: Seq<char>)
    ensures
        trim_start(s).len() <= s.len(),
        trim_start(s) == s.skip(s.len() - trim_start(s).len()),
        trim_start(s).len() == 0 || !is_ws(trim_start(s)[0]),
        forall|i: int| 0 <= i < s.len() - trim_start(s).len() ==> #[trigger] is_ws(s[i]),
    decreases s.len(),
{
    if s.len() > 0 && is_ws(s[0]) {
        lemma_trim_start_suffix(s.drop_first());
        let k = trim_start(s).len() as int;
        assert(s.drop_first().skip(s.len() - 1 - k) =~= s.skip(s.len() - k));
        assert forall|i: int| 0 <= i < s.len() - k implies #[trigger] is_ws(s[i]) by {
            if i > 0 {
                assert(s[i] == s.drop_first()[i - 1]);
            }
        }
    } else {
        assert(s.skip(0) =~= s);
    }
}

/// The trimmed text is empty exactly when every character is whitespace.
pub proof fn lemma_trim_empty(s: Seq<char>)
    ensures
        (trim(s).len() == 0) == all_ws(s),
{
    lemma_trim_start_suffix(s);
    let t = trim_start(s);
    lemma_trim_end_prefix(t);
    if trim(s).len() == 0 {
        assert forall|i: int| 0 <= i < s.len() implies #[trigger] is_ws(s[i]) by {
            let off = s.len() - t.len();
            if i >= off {
                assert(t[i - off] == s[i]);
            }
        }
    } else {
        if all_ws(s) {
            if t.len() > 0 {
                let off = s.len() - t.len();
                assert(t[0] == s[off]);
            }
        }
    }
}

pub proof fn lemma_text_lt_irreflexive(a: Seq<char>)
    ensures
        !text_lt(a, a),
    decreases a.len(),
{
    if a.len() > 0 {
        lemma_text_lt_irreflexive(a.drop_first());
    }
}

pub proof fn lemma_text_lt_asym(a: Seq<char>, b: Seq<char>)
    ensures
        !(text_lt(a, b) && text_lt(b, a)),
    decreases a.len(),
{
    if a.len() > 0 && b.len() > 0 && a[0] == b[0] {
        lemma_text_lt_asym(a.drop_first(), b.drop_first());
    }
}

pub proof fn lemma_text_lt_trans(a: Seq<char>, b: Seq<char>, c: Seq<char>)
    requires
        text_lt(a, b),
        text_lt(b, c),
    ensures
        text_lt(a, c),
    decreases a.len(),
{
    if a.len() > 0 && b.len() > 0 && c.len() > 0 {
        if a[0] == b[0] && b[0] == c[0] {
            lemma_text_lt_trans(a.drop_first(), b.drop_first(), c.drop_first());
        }
    }
}

pub proof fn lemma_text_lt_total(a: Seq<char>, b: Seq<char>)
    ensures
        a == b || text_lt(a, b) || text_lt(b, a),
    decreases a.len(),
{
    if a.len() > 0 && b.len() > 0 && a[0] != b[0] {
        vstd::utf8::char_u32_cast(a[0], a[0] as u32);
        vstd::utf8::char_u32_cast(b[0], b[0] as u32);
    }
    if a.len() > 0 && b.len() > 0 && a[0] == b[0] {
        lemma_text_lt_total(a.drop_first(), b.drop_first());
        if a.drop_first() == b.drop_first() {
            assert(a =~= seq![a[0]] + a.drop_first());
            assert(b =~= seq![b[0]] + b.drop_first());
        }
    } else if a.len() == 0 && b.len() == 0 {
        assert(a =~= b);
    }
}

pub proof fn lemma_text_le_trans(a: Seq<char>, b: Seq<char>, c: Seq<char>)
    requires
        text_le(a, b),
        text_le(b, c),
    ensures
        text_le(a, c),
{
    if text_lt(a, b) && text_lt(b, c) {
        lemma_text_lt_trans(a, b, c);
    }
}


/// `s`, or its longest prefix that fits in `max` bytes with trailing
/// whitespace removed and `marker` appended when `s` is longer than `max`
/// bytes.
pub open spec fn truncate_with(s: Seq<char>, max: nat, marker: Seq<char>) -> Seq<char> {
    if utf8_len(s) <= max {
        s
    } else {
        trim_end(s.take(fit_count(s, max as int) as int)) + marker
    }
}

/// Debug formatting of a string: quoted, with escapes (`<str as Debug>::fmt`).
pub uninterp spec fn debug_str(s: Seq<char>) -> Seq<char>;

/// Calls `format!` with `{:?}` on a string (`<str as Debug>::fmt`). Claims
/// only that the result is `debug_str` of the string: the same text always
/// renders the same way. What the rendering is (quotes and escapes) is not
/// stated.
#[verifier::external_body]
pub(crate) fn debug_quote(s: &str) -> (r: String)
    ensures
        r@ == debug_str(s@),
{
    format!("{s:?}")
}

/// `s` in Debug quotes when it holds whitespace, else `s` itself.
pub open spec fn quote_if_spaced(s: Seq<char>) -> Seq<char> {
    if has_ws(s) {
        debug_str(s)
    } else {
        s
    }
}

/// Quotes `s` for display in a command line when it holds whitespace.
pub fn quote_if_spaced_exec(s: &str) -> (r: String)
    ensures
        r@ == quote_if_spaced(s@),
{
    if contains_whitespace(s) {
        debug_quote(s)
    } else {
        owned(s)
    }
}

proof fn lemma_fit_step(s: Seq<char>, k: int, rem: int)
    requires
        0 <= k < s.len(),
        char_width(s[k]) <= rem,
    ensures
        fit_count(s.skip(k), rem) == 1 + fit_count(s.skip(k + 1), rem - char_width(s[k])),
{
    assert(s.skip(k).drop_first() =~= s.skip(k + 1));
}

proof fn lemma_utf8_len_prefix(s: Seq<char>, k: int)
    requires
        0 <= k <= s.len(),
    ensures
        utf8_len(s.take(k)) <= utf8_len(s),
{
    assert(s =~= s.take(k) + s.skip(k));
    lemma_utf8_len_add(s.take(k), s.skip(k));
}

/// A truncated text never exceeds the byte budget plus the marker.
pub proof fn lemma_truncate_with_len(s: Seq<char>, max: nat, marker: Seq<char>)
    ensures
        utf8_len(truncate_with(s, max, marker)) <= if utf8_len(s) <= max {
            utf8_len(s)
        } else {
            max + utf8_len(marker)
        },
{
    if utf8_len(s) > max {
        let k = fit_count(s, max as int) as int;
        lemma_fit_count(s, max as int);
        let p = s.take(k);
        lemma_trim_end_prefix(p);
        lemma_utf8_len_prefix(p, trim_end(p).len() as int);
        lemma_utf8_len_add(trim_end(p), marker);
    }
}

/// The UTF-8 byte length of `s`, when it is at most `cap`.
pub fn utf8_len_within(s: &str, cap: usize) -> (r: Option<usize>)
    ensures
        match r {
            Some(n) => n == utf8_len(s@) && n <= cap,
            None => utf8_len(s@) > cap,
        },
{
    let chars = to_chars(s);
    let mut used: usize = 0;
    let mut k: usize = 0;
    assert(chars@.take(0) =~= Seq::<char>::empty());
    while k < chars.len()
        invariant
            k <= chars.len(),
            chars@ == s@,
            used <= cap,
            used == utf8_len(chars@.take(k as int)),
        decreases chars.len() - k,
    {
        let w = char_width_exec(chars[k]);
        proof {
            lemma_utf8_len_push(chars@.take(k as int), chars@[k as int]);
            assert(chars@.take(k + 1) =~= chars@.take(k as int).push(chars@[k as int]));
        }
        if w > cap - used {
            proof {
                lemma_utf8_len_prefix(chars@, k + 1);
            }
            return None;
        }
        used = used + w;
        k = k + 1;
    }
    assert(chars@.take(k as int) =~= chars@);
    Some(used)
}

/// `input` cut to at most `max` bytes on a character boundary, with
/// trailing whitespace removed and `marker` appended, when it is longer.
pub fn truncate_with_marker(input: &str, max: usize, marker: &str) -> (r: String)
    ensures
        r@ == truncate_with(input@, max as nat, marker@),
{
    let chars = to_chars(input);
    let mut k: usize = 0;
    let mut used: usize = 0;
    assert(chars@.take(0) =~= Seq::<char>::empty());
    assert(chars@.skip(0) =~= chars@);
    while k < chars.len() && char_width_exec(chars[k]) <= max - used
        invariant
            k <= chars.len(),
            chars@ == input@,
            used <= max,
            used == utf8_len(chars@.take(k as int)),
            fit_count(chars@, max as int) == k + fit_count(chars@.skip(k as int), max - used),
        decreases chars.len() - k,
    {
        proof {
            lemma_fit_step(chars@, k as int, max - used);
            lemma_utf8_len_push(chars@.take(k as int), chars@[k as int]);
            assert(chars@.take(k + 1) =~= chars@.take(k as int).push(chars@[k as int]));
        }
        used = used + char_width_exec(chars[k]);
        k = k + 1;
    }
    proof {
        if k < chars.len() {
            assert(chars@.skip(k as int)[0] == chars@[k as int]);
            lemma_utf8_len_push(chars@.take(k as int), chars@[k as int]);
            assert(chars@.take(k + 1) =~= chars@.take(k as int).push(chars@[k as int]));
            lemma_utf8_len_prefix(chars@, k + 1);
        } else {
            assert(chars@.skip(k as int).len() == 0);
            assert(chars@.take(k as int) =~= chars@);
        }
    }
    if k == chars.len() {
        return owned(input);
    }
    let mut prefix: Vec<char> = Vec::new();
    let mut i: usize = 0;
    while i < k
        invariant
            i <= k <= chars.len(),
            prefix@ == chars@.take(i as int),
        decreases k - i,
    {
        prefix.push(chars[i]);
        assert(chars@.take(i + 1) =~= chars@.take(i as int).push(chars@[i as int]));
        i = i + 1;
    }
    let n = trim_end_len(&prefix);
    proof {
        lemma_trim_end_prefix(prefix@);
    }
    let mut out: Vec<char> = Vec::new();
    let mut j: usize = 0;
    while j < n
        invariant
            j <= n <= prefix.len(),
            out@ == prefix@.take(j as int),
        decreases n - j,
    {
        out.push(prefix[j]);
        assert(prefix@.take(j + 1) =~= prefix@.take(j as int).push(prefix@[j as int]));
        j = j + 1;
    }
    push_str(&mut out, marker);
    string_from_chars(&out)
}


/// `s` split at every `sep`, empty pieces included (`str::split`).
pub open spec fn split_on(s: Seq<char>, sep: char) -> Seq<Seq<char>>
    decreases s.len(),
{
    if s.len() == 0 {
        seq![seq![]]
    } else {
        let init = split_on(s.drop_last(), sep);
        if s.last() == sep {
            init.push(seq![])
        } else {
            init.update(init.len() - 1, init.last().push(s.last()))
        }
    }
}

pub proof fn lemma_split_on_nonempty(s: Seq<char>, sep: char)
    ensures
        split_on(s, sep).len() > 0,
    decreases s.len(),
{
    if s.len() > 0 {
        lemma_split_on_nonempty(s.drop_last(), sep);
    }
}

/// No piece of a split holds the separator.
pub proof fn lemma_split_on_no_sep(s: Seq<char>, sep: char)
    ensures
        forall|i: int|
            0 <= i < split_on(s, sep).len() ==> !(#[trigger] split_on(s, sep)[i]).contains(sep),
    decreases s.len(),
{
    if s.len() > 0 {
        lemma_split_on_no_sep(s.drop_last(), sep);
        lemma_split_on_nonempty(s.drop_last(), sep);
        let init = split_on(s.drop_last(), sep);
        if s.last() != sep {
            let l = init.last().push(s.last());
            assert(!l.contains(sep)) by {
                if l.contains(sep) {
                    let j = l.index_of(sep);
                    if j < l.len() - 1 {
                        assert(init.last()[j] == sep);
                        assert(init.last().contains(sep));
                    }
                }
            }
            assert forall|i: int| 0 <= i < split_on(s, sep).len() implies !(
            #[trigger] split_on(s, sep)[i]).contains(sep) by {
                if i < init.len() - 1 {
                    assert(split_on(s, sep)[i] == init[i]);
                }
            }
        } else {
            assert forall|i: int| 0 <= i < split_on(s, sep).len() implies !(
            #[trigger] split_on(s, sep)[i]).contains(sep) by {
                if i < init.len() {
                    assert(split_on(s, sep)[i] == init[i]);
                } else {
                    assert(split_on(s, sep)[i] =~= Seq::<char>::empty());
                }
            }
        }
    }
}

/// The pieces of `s` between occurrences of `sep`.
pub fn split_text(s: &str, sep: char) -> (r: Vec<String>)
    ensures
        r.deep_view() == split_on(s@, sep),
{
    let chars = to_chars(s);
    let mut segs: Vec<String> = Vec::new();
    let mut cur: Vec<char> = Vec::new();
    let mut i: usize = 0;
    assert(chars@.take(0) =~= Seq::<char>::empty());
    assert(segs.deep_view().push(cur@) =~= split_on(chars@.take(0), sep));
    while i < chars.len()
        invariant
            i <= chars.len(),
            chars@ == s@,
            segs.deep_view().push(cur@) == split_on(chars@.take(i as int), sep),
        decreases chars.len() - i,
    {
        let c = chars[i];
        let ghost prev = split_on(chars@.take(i as int), sep);
        let ghost before = segs.deep_view();
        assert(chars@.take(i + 1).drop_last() =~= chars@.take(i as int));
        assert(chars@.take(i + 1).last() == c);
        if c == sep {
            segs.push(string_from_chars(&cur));
            cur = Vec::new();
            assert(segs.deep_view() =~= before.push(prev.last()));
            assert(segs.deep_view().push(cur@) =~= prev.push(seq![]));
        } else {
            cur.push(c);
            assert(segs.deep_view().push(cur@) =~= prev.update(prev.len() - 1, prev.last().push(c)));
        }
        i = i + 1;
    }
    assert(chars@.take(chars.len() as int) =~= chars@);
    let ghost before = segs.deep_view();
    segs.push(string_from_chars(&cur));
    assert(segs.deep_view() =~= before.push(cur@));
    segs
}

pub open spec fn is_digit(c: char) -> bool {
    '0' <= c && c <= '9'
}

/// The number written by decimal digits `d`.
pub open spec fn digits_value(d: Seq<char>) -> nat
    decreases d.len(),
{
    if d.len() == 0 {
        0
    } else {
        digits_value(d.drop_last()) * 10 + ((d.last() as u32) - 48) as nat
    }
}

/// `s` without one leading `+`.
pub open spec fn unsigned_digits(s: Seq<char>) -> Seq<char> {
    if s.len() > 0 && s[0] == '+' {
        s.drop_first()
    } else {
        s
    }
}

pub open spec fn all_digits(d: Seq<char>) -> bool {
    forall|i: int| 0 <= i < d.len() ==> #[trigger] is_digit(d[i])
}

/// `str::parse::<usize>()`: an optional `+`, then one or more decimal
/// digits whose value fits in `usize`.
pub open spec fn parse_usize(s: Seq<char>) -> Option<usize> {
    let d = unsigned_digits(s);
    if d.len() == 0 || !all_digits(d) || digits_value(d) > usize::MAX {
        None
    } else {
        Some(digits_value(d) as usize)
    }
}

pub proof fn lemma_digits_value_mono(d: Seq<char>, k: int)
    requires
        0 <= k <= d.len(),
        all_digits(d),
    ensures
        digits_value(d.take(k)) <= digits_value(d),
    decreases d.len() - k,
{
    if k < d.len() {
        lemma_digits_value_mono(d, k + 1);
        assert(d.take(k + 1).drop_last() =~= d.take(k));
        assert(is_digit(d.take(k + 1).last()));
    } else {
        assert(d.take(k) =~= d);
    }
}

/// `dec(n)` writes `n` in decimal: digits only, no leading zero unless
/// `n` is zero, and their value is `n`.
pub proof fn lemma_dec_value(n: nat)
    ensures
        dec(n).len() > 0,
        all_digits(dec(n)),
        digits_value(dec(n)) == n,
        dec(n)[0] == '0' ==> n == 0,
    decreases n,
{
    if n >= 10 {
        lemma_dec_value(n / 10);
        let d = dec(n / 10);
        let c = digit_char(n % 10);
        assert(dec(n) == d.push(c));
        assert(dec(n).drop_last() =~= d);
        assert(dec(n)[0] == d[0]);
        assert forall|i: int| 0 <= i < dec(n).len() implies #[trigger] is_digit(dec(n)[i]) by {
            if i < d.len() {
                assert(dec(n)[i] == d[i]);
            }
        }
        assert((c as u32) - 48 == n % 10);
        assert(digits_value(dec(n)) == digits_value(d) * 10 + ((dec(n).last() as u32) - 48) as nat);
        assert(n == (n / 10) * 10 + n % 10) by (nonlinear_arith);
        assert(digits_value(d) * 10 + n % 10 == n);
    } else {
        let one = seq![digit_char(n)];
        assert(dec(n) == one);
        assert((digit_char(n) as u32) - 48 == n);
        assert(one.drop_last() =~= Seq::<char>::empty());
        assert(digits_value(one.drop_last()) == 0);
        assert(digits_value(one) == digits_value(one.drop_last()) * 10 + ((one.last() as u32) - 48) as nat);
    }
}

/// Parses a decimal `usize` as `str::parse` does.
pub fn parse_usize_exec(s: &str) -> (r: Option<usize>)
    ensures
        r == parse_usize(s@),
{
    let chars = to_chars(s);
    let start: usize = if chars.len() > 0 && chars[0] == '+' {
        1
    } else {
        0
    };
    let ghost d = unsigned_digits(s@);
    assert(d =~= chars@.skip(start as int));
    if start == chars.len() {
        return None;
    }
    let mut i: usize = start;
    let mut value: usize = 0;
    assert(d.take(0) =~= Seq::<char>::empty());
    while i < chars.len()
        invariant
            start <= i <= chars.len(),
            start < chars.len(),
            chars@ == s@,
            d == chars@.skip(start as int),
            d == unsigned_digits(s@),
            value == digits_value(d.take(i - start)),
            forall|t: int| 0 <= t < i - start ==> #[trigger] is_digit(d[t]),
        decreases chars.len() - i,
    {
        let c = chars[i];
        assert(d[i - start] == c);
        if !('0' <= c && c <= '9') {
            assert(!is_digit(d[i - start]));
            assert(!all_digits(d));
            return None;
        }
        let digit = ((c as u32) - 48) as usize;
        assert(d.take(i + 1 - start).drop_last() =~= d.take(i - start));
        assert(d.take(i + 1 - start).last() == c);
        if value > (usize::MAX - digit) / 10 {
            proof {
                assert(forall|t: int| 0 <= t < i + 1 - start ==> #[trigger] is_digit(d[t]));
                assert(digits_value(d.take(i + 1 - start)) > usize::MAX) by (nonlinear_arith)
                    requires
                        digits_value(d.take(i + 1 - start)) == value * 10 + digit,
                        value > (usize::MAX - digit) / 10,
                        digit <= 9,
                ;
                if all_digits(d) {
                    lemma_digits_value_mono(d, i + 1 - start);
                }
            }
            return None;
        }
        assert(value * 10 + digit <= usize::MAX) by (nonlinear_arith)
            requires
                value <= (usize::MAX - digit) / 10,
                digit <= 9,
        ;
        value = value * 10 + digit;
        i = i + 1;
    }
    assert(d.take(chars.len() - start) =~= d);
    Some(value)
}

// ---------------------------------------------------------------------------
// Executable helpers
// ---------------------------------------------------------------------------

/// Calls `Iterator::collect` into a `String` (`FromIterator<&char> for
/// String`). Claims that the string holds exactly the given characters, in
/// order.
#[verifier::external_body]
pub(crate) fn string_from_chars(chars: &Vec<char>) -> (s: String)
    ensures
        s@ == chars@,
{
    chars.iter().collect()
}

/// Appends every character of `s` to `buf`.
pub fn push_str(buf: &mut Vec<char>, s: &str)
    ensures
        final(buf)@ == old(buf)@ + s@,
{
    let ghost start = buf@;
    for c in it: s.chars()
        invariant
            it.seq() == s@,
            buf@ == start + s@.take(it.index() as int),
    {
        buf.push(c);
    }
    assert(s@.take(s@.len() as int) =~= s@);
}

/// Appends every character of `s` to `buf`.
pub fn push_chars(buf: &mut Vec<char>, s: &Vec<char>)
    ensures
        final(buf)@ == old(buf)@ + s@,
{
    let ghost start = buf@;
    let mut i: usize = 0;
    while i < s.len()
        invariant
            i <= s.len(),
            buf@ == start + s@.take(i as int),
        decreases s.len() - i,
    {
        buf.push(s[i]);
        i = i + 1;
        assert(s@.take(i as int) =~= s@.take(i - 1).push(s@[i - 1]));
    }
    assert(s@.take(s@.len() as int) =~= s@);
}

/// The characters of `s`.
pub fn to_chars(s: &str) -> (v: Vec<char>)
    ensures
        v@ == s@,
{
    let mut v: Vec<char> = Vec::new();
    push_str(&mut v, s);
    assert(Seq::<char>::empty() + s@ =~= s@);
    v
}

/// An owned copy of `s`.
pub fn owned(s: &str) -> (r: String)
    ensures
        r@ == s@,
{
    s.to_owned()
}

/// The three strings one after another.
pub fn cat3(a: &str, b: &str, c: &str) -> (r: String)
    ensures
        r@ == a@ + b@ + c@,
{
    let mut v: Vec<char> = Vec::new();
    push_str(&mut v, a);
    push_str(&mut v, b);
    push_str(&mut v, c);
    assert(v@ =~= a@ + b@ + c@);
    string_from_chars(&v)
}

/// The four strings one after another.
pub fn cat4(a: &str, b: &str, c: &str, d: &str) -> (r: String)
    ensures
        r@ == a@ + b@ + c@ + d@,
{
    let mut v: Vec<char> = Vec::new();
    push_str(&mut v, a);
    push_str(&mut v, b);
    push_str(&mut v, c);
    push_str(&mut v, d);
    assert(v@ =~= a@ + b@ + c@ + d@);
    string_from_chars(&v)
}

/// The five strings one after another.
pub fn cat5(a: &str, b: &str, c: &str, d: &str, e: &str) -> (r: String)
    ensures
        r@ == a@ + b@ + c@ + d@ + e@,
{
    let mut v: Vec<char> = Vec::new();
    push_str(&mut v, a);
    push_str(&mut v, b);
    push_str(&mut v, c);
    push_str(&mut v, d);
    push_str(&mut v, e);
    assert(v@ =~= a@ + b@ + c@ + d@ + e@);
    string_from_chars(&v)
}

/// `s` followed by `t`.
pub fn concat(s: &str, t: &str) -> (r: String)
    ensures
        r@ == s@ + t@,
{
    let mut r = s.to_owned();
    r.append(t);
    r
}

pub fn is_ws_char(c: char) -> (b: bool)
    ensures
        b == is_ws(c),
{
    let u = c as u32;
    (0x9 <= u && u <= 0xd) || u == 0x20 || u == 0x85 || u == 0xa0 || u == 0x1680 || (0x2000 <= u
        && u <= 0x200a) || u == 0x2028 || u == 0x2029 || u == 0x202f || u == 0x205f || u == 0x3000
}

pub fn char_width_exec(c: char) -> (w: usize)
    ensures
        w == char_width(c),
{
    let u = c as u32;
    if u <= 0x7f {
        1
    } else if u <= 0x7ff {
        2
    } else if u <= 0xffff {
        3
    } else {
        4
    }
}

/// Whether some character of `s` is whitespace (`s.contains(char::is_whitespace)`).
pub fn contains_whitespace(s: &str) -> (b: bool)
    ensures
        b == has_ws(s@),
{
    let v = to_chars(s);
    let mut i: usize = 0;
    while i < v.len()
        invariant
            i <= v.len(),
            v@ == s@,
            forall|j: int| 0 <= j < i ==> !#[trigger] is_ws(v@[j]),
        decreases v.len() - i,
    {
        if is_ws_char(v[i]) {
            return true;
        }
        i = i + 1;
    }
    false
}

/// Length of `v` once trailing whitespace is removed.
pub fn trim_end_len(v: &Vec<char>) -> (n: usize)
    ensures
        n == trim_end(v@).len(),
{
    let mut n = v.len();
    assert(v@.take(n as int) =~= v@);
    while n > 0 && is_ws_char(v[n - 1])
        invariant
            n <= v.len(),
            trim_end(v@) == trim_end(v@.take(n as int)),
        decreases n,
    {
        assert(v@.take(n as int).drop_last() =~= v@.take(n - 1));
        n = n - 1;
    }
    assert(trim_end(v@.take(n as int)) == v@.take(n as int));
    n
}

/// Number of leading whitespace characters of `v`.
pub fn trim_start_len(v: &Vec<char>) -> (n: usize)
    ensures
        n <= v.len(),
        trim_start(v@) == v@.skip(n as int),
{
    let mut n: usize = 0;
    assert(v@.skip(0) =~= v@);
    while n < v.len() && is_ws_char(v[n])
        invariant
            n <= v.len(),
            trim_start(v@) == trim_start(v@.skip(n as int)),
        decreases v.len() - n,
    {
        assert(v@.skip(n as int).drop_first() =~= v@.skip(n + 1));
        n = n + 1;
    }
    n
}

/// `s` with trailing whitespace removed.
pub fn trim_end_string(s: &str) -> (r: Vec<char>)
    ensures
        r@ == trim_end(s@),
{
    let v = to_chars(s);
    let n = trim_end_len(&v);
    proof {
        lemma_trim_end_prefix(v@);
    }
    let mut r: Vec<char> = Vec::new();
    let mut i: usize = 0;
    while i < n
        invariant
            n <= v.len(),
            i <= n,
            r@ == v@.take(i as int),
        decreases n - i,
    {
        r.push(v[i]);
        i = i + 1;
        assert(v@.take(i as int) =~= v@.take(i - 1).push(v@[i - 1]));
    }
    r
}

/// Whether `s` is empty once trimmed (`s.trim().is_empty()`).
pub fn is_blank(s: &str) -> (b: bool)
    ensures
        b == (trim(s@).len() == 0),
{
    proof {
        lemma_trim_empty(s@);
    }
    let v = to_chars(s);
    let mut i: usize = 0;
    while i < v.len()
        invariant
            i <= v.len(),
            v@ == s@,
            forall|j: int| 0 <= j < i ==> #[trigger] is_ws(v@[j]),
        decreases v.len() - i,
    {
        if !is_ws_char(v[i]) {
            assert(!is_ws(s@[i as int]));
            assert(!all_ws(s@));
            proof {
                lemma_trim_empty(s@);
            }
            return false;
        }
        i = i + 1;
    }
    true
}

/// Whether `pat` occurs in `s` at position `i`.
pub fn occurs_at_exec(s: &Vec<char>, pat: &Vec<char>, i: usize) -> (b: bool)
    ensures
        b == occurs_at(s@, pat@, i as int),
{
    if i > s.len() || pat.len() > s.len() - i {
        return false;
    }
    let mut k: usize = 0;
    while k < pat.len()
        invariant
            i + pat.len() <= s.len(),
            k <= pat.len(),
            forall|j: int| 0 <= j < k ==> s@[i + j] == pat@[j],
        decreases pat.len() - k,
    {
        if s[i + k] != pat[k] {
            assert(s@.subrange(i as int, i + pat.len())[k as int] != pat@[k as int]);
            return false;
        }
        k = k + 1;
    }
    assert(s@.subrange(i as int, i + pat.len()) =~= pat@);
    true
}

/// Whether `pat` occurs in `s` (`str::contains`).
pub fn contains_text(s: &str, pat: &str) -> (b: bool)
    ensures
        b == contains_seq(s@, pat@),
{
    let sv = to_chars(s);
    let pv = to_chars(pat);
    if pv.len() == 0 {
        assert(s@.subrange(0, 0) =~= pat@);
        assert(occurs_at(s@, pat@, 0));
        return true;
    }
    if pv.len() > sv.len() {
        assert forall|j: int| !#[trigger] occurs_at(s@, pat@, j) by {}
        return false;
    }
    let last = sv.len() - pv.len();
    let mut i: usize = 0;
    while i <= last
        invariant
            sv@ == s@,
            pv@ == pat@,
            last == sv.len() - pv.len(),
            pv.len() > 0,
            i <= last + 1,
            forall|j: int| 0 <= j < i ==> !#[trigger] occurs_at(s@, pat@, j),
        decreases last + 1 - i,
    {
        if occurs_at_exec(&sv, &pv, i) {
            return true;
        }
        i = i + 1;
    }
    assert forall|j: int| !#[trigger] occurs_at(s@, pat@, j) by {
        if 0 <= j < i {
        }
    }
    false
}

proof fn lemma_replace_all_step(s: Seq<char>, pat: Seq<char>, rep: Seq<char>, i: int)
    requires
        0 <= i < s.len(),
        pat.len() > 0,
    ensures
        starts_with(s.skip(i), pat) == occurs_at(s, pat, i),
        occurs_at(s, pat, i) ==> replace_all(s.skip(i), pat, rep) == rep + replace_all(
            s.skip(i + pat.len()),
            pat,
            rep,
        ),
        !occurs_at(s, pat, i) ==> replace_all(s.skip(i), pat, rep) == seq![s[i]] + replace_all(
            s.skip(i + 1),
            pat,
            rep,
        ),
{
    let t = s.skip(i);
    if pat.len() <= t.len() {
        assert(t.take(pat.len() as int) =~= s.subrange(i, i + pat.len()));
    }
    if occurs_at(s, pat, i) {
        assert(t.skip(pat.len() as int) =~= s.skip(i + pat.len()));
    }
    assert(t.drop_first() =~= s.skip(i + 1));
}

/// Replaces every non-overlapping occurrence of `pat` by `rep`, left to right.
pub fn replace_all_exec(s: &Vec<char>, pat: &Vec<char>, rep: &Vec<char>) -> (r: Vec<char>)
    requires
        pat.len() > 0,
    ensures
        r@ == replace_all(s@, pat@, rep@),
{
    let mut out: Vec<char> = Vec::new();
    let mut i: usize = 0;
    assert(s@.skip(0) =~= s@);
    assert(out@ + replace_all(s@, pat@, rep@) =~= replace_all(s@, pat@, rep@));
    while i < s.len()
        invariant
            i <= s.len(),
            pat.len() > 0,
            out@ + replace_all(s@.skip(i as int), pat@, rep@) == replace_all(s@, pat@, rep@),
        decreases s.len() - i,
    {
        proof {
            lemma_replace_all_step(s@, pat@, rep@, i as int);
        }
        if occurs_at_exec(s, pat, i) {
            let ghost old_out = out@;
            push_chars(&mut out, rep);
            assert(old_out + (rep@ + replace_all(s@.skip(i + pat.len()), pat@, rep@)) =~= out@
                + replace_all(s@.skip(i + pat.len()), pat@, rep@));
            i = i + pat.len();
        } else {
            let ghost old_out = out@;
            out.push(s[i]);
            assert(old_out + (seq![s@[i as int]] + replace_all(s@.skip(i + 1), pat@, rep@))
                =~= out@ + replace_all(s@.skip(i + 1), pat@, rep@));
            i = i + 1;
        }
    }
    assert(s@.skip(i as int) =~= Seq::<char>::empty());
    assert(out@ + Seq::<char>::empty() =~= out@);
    out
}

/// Decimal digits of `n`.
pub fn dec_u128(n: u128) -> (r: Vec<char>)
    ensures
        r@ == dec(n as nat),
    decreases n,
{
    if n < 10 {
        let mut r: Vec<char> = Vec::new();
        r.push(((n as u8) + 48) as char);
        r
    } else {
        let mut r = dec_u128(n / 10);
        r.push((((n % 10) as u8) + 48) as char);
        r
    }
}

/// `Display` of a `u128`.
pub fn u128_string(n: u128) -> (r: String)
    ensures
        r@ == dec(n as nat),
{
    string_from_chars(&dec_u128(n))
}

/// `Display` of a `u64`.
pub fn u64_string(n: u64) -> (r: String)
    ensures
        r@ == dec(n as nat),
{
    u128_string(n as u128)
}

/// `Display` of an `i64`.
pub fn i64_string(n: i64) -> (r: String)
    ensures
        r@ == int_text(n as int),
{
    if n < 0 {
        let mag: u128 = ((-(n as i128)) as u128);
        let mut v: Vec<char> = Vec::new();
        v.push('-');
        let d = dec_u128(mag);
        push_chars(&mut v, &d);
        string_from_chars(&v)
    } else {
        u128_string(n as u128)
    }
}

/// `parts.join(sep)`.
pub fn join_strings(parts: &Vec<String>, sep: &str) -> (r: String)
    ensures
        r@ == join(parts.deep_view(), sep@),
{
    let mut r: Vec<char> = Vec::new();
    let ghost dv = parts.deep_view();
    let mut i: usize = 0;
    while i < parts.len()
        invariant
            i <= parts.len(),
            dv == parts.deep_view(),
            dv.len() == parts.len(),
            r@ == join(dv.take(i as int), sep@),
        decreases parts.len() - i,
    {
        assert(dv.take(i + 1).drop_last() =~= dv.take(i as int));
        assert(dv[i as int] == parts[i as int]@);
        if i > 0 {
            push_str(&mut r, sep);
        }
        push_str(&mut r, parts[i].as_str());
        i = i + 1;
        assert(i == 1 ==> dv.take(i as int)[0] == dv[0]);
    }
    assert(dv.take(parts.len() as int) =~= dv);
    string_from_chars(&r)
}

/// `a < b` for strings.
pub fn text_lt_exec(a: &str, b: &str) -> (r: bool)
    ensures
        r == text_lt(a@, b@),
{
    let av = to_chars(a);
    let bv = to_chars(b);
    let mut i: usize = 0;
    assert(a@.skip(0) =~= a@);
    assert(b@.skip(0) =~= b@);
    while i < av.len() && i < bv.len() && av[i] == bv[i]
        invariant
            i <= av.len(),
            i <= bv.len(),
            text_lt(a@, b@) == text_lt(a@.skip(i as int), b@.skip(i as int)),
            av@ == a@,
            bv@ == b@,
        decreases av.len() - i,
    {
        assert(a@.skip(i as int).drop_first() =~= a@.skip(i + 1));
        assert(b@.skip(i as int).drop_first() =~= b@.skip(i + 1));
        i = i + 1;
    }
    if i == av.len() {
        i < bv.len()
    } else if i == bv.len() {
        false
    } else {
        (av[i] as u32) < (bv[i] as u32)
    }
}

/// How strings are ordered: as text, or as paths whose components the
/// host separates by '/' (Unix-like) or by '\\' (Windows, where the paths
/// a directory walk builds hold no other separator).
#[derive(Clone, Copy, Debug, PartialEq, Eq, Structural)]
pub enum KeyOrder {
    Text,
    UnixPaths,
    WindowsPaths,
}

/// The character that separates path components under `order`, if any.
pub open spec fn is_key_sep(c: char, order: KeyOrder) -> bool {
    match order {
        KeyOrder::Text => false,
        KeyOrder::UnixPaths => c == '/',
        KeyOrder::WindowsPaths => c == '\\',
    }
}

/// The sort key of a string: itself, or for a path, the path with its
/// separator ranked below every other character, which orders paths
/// component by component (`Ord for Path` on paths without NUL characters).
pub open spec fn order_key(s: Seq<char>, order: KeyOrder) -> Seq<char> {
    if order == KeyOrder::Text {
        s
    } else {
        s.map_values(|c: char| if is_key_sep(c, order) { '\0' } else { c })
    }
}

/// Sorted by `order_key`.
pub open spec fn sorted_by(v: Seq<Seq<char>>, order: KeyOrder) -> bool {
    forall|i: int, j: int|
        0 <= i < j < v.len() ==> text_le(
            order_key(#[trigger] v[i], order),
            order_key(#[trigger] v[j], order),
        )
}

fn key_char(c: char, order: KeyOrder) -> (k: char)
    ensures
        k == (if is_key_sep(c, order) {
            '\0'
        } else {
            c
        }),
{
    let sep = match order {
        KeyOrder::Text => false,
        KeyOrder::UnixPaths => c == '/',
        KeyOrder::WindowsPaths => c == '\\',
    };
    if sep {
        '\0'
    } else {
        c
    }
}

/// Whether `a` sorts strictly before `b` by `order_key`.
pub fn key_lt_exec(a: &str, b: &str, order: KeyOrder) -> (r: bool)
    ensures
        r == text_lt(order_key(a@, order), order_key(b@, order)),
{
    let av = to_chars(a);
    let bv = to_chars(b);
    let mut ka: Vec<char> = Vec::new();
    let mut kb: Vec<char> = Vec::new();
    let mut i: usize = 0;
    while i < av.len()
        invariant
            i <= av.len(),
            av@ == a@,
            ka@ == order_key(a@, order).take(i as int),
        decreases av.len() - i,
    {
        ka.push(key_char(av[i], order));
        assert(order_key(a@, order).take(i + 1) =~= order_key(a@, order).take(i as int).push(
            order_key(a@, order)[i as int],
        ));
        i = i + 1;
    }
    assert(order_key(a@, order).take(av.len() as int) =~= order_key(a@, order));
    let mut j: usize = 0;
    while j < bv.len()
        invariant
            j <= bv.len(),
            bv@ == b@,
            kb@ == order_key(b@, order).take(j as int),
        decreases bv.len() - j,
    {
        kb.push(key_char(bv[j], order));
        assert(order_key(b@, order).take(j + 1) =~= order_key(b@, order).take(j as int).push(
            order_key(b@, order)[j as int],
        ));
        j = j + 1;
    }
    assert(order_key(b@, order).take(bv.len() as int) =~= order_key(b@, order));
    let sa = string_from_chars(&ka);
    let sb = string_from_chars(&kb);
    text_lt_exec(sa.as_str(), sb.as_str())
}

/// Sorts strings ascending by `order_key` (`slice::sort`).
pub fn sort_strings_by(v: Vec<String>, order: KeyOrder) -> (r: Vec<String>)
    ensures
        sorted_by(r.deep_view(), order),
        r.deep_view().to_multiset() == v.deep_view().to_multiset(),
        r.len() == v.len(),
{
    let ghost dv = v.deep_view();
    let mut out: Vec<String> = Vec::new();
    let mut i: usize = 0;
    assert(out.deep_view() =~= dv.take(0));
    while i < v.len()
        invariant
            i <= v.len(),
            dv == v.deep_view(),
            sorted_by(out.deep_view(), order),
            out.deep_view().to_multiset() == dv.take(i as int).to_multiset(),
            out.len() == i,
        decreases v.len() - i,
    {
        let x = v[i].clone();
        let mut k: usize = 0;
        while k < out.len() && !key_lt_exec(x.as_str(), out[k].as_str(), order)
            invariant
                k <= out.len(),
                forall|j: int|
                    0 <= j < k ==> text_le(
                        order_key(#[trigger] out.deep_view()[j], order),
                        order_key(x@, order),
                    ),
            decreases out.len() - k,
        {
            proof {
                lemma_text_lt_total(order_key(x@, order), order_key(out.deep_view()[k as int], order));
            }
            k = k + 1;
        }
        let ghost before = out.deep_view();
        out.insert(k, x);
        proof {
            let after = out.deep_view();
            assert(after =~= before.insert(k as int, x@));
            let kx = order_key(x@, order);
            assert forall|a: int, b: int| 0 <= a < b < after.len() implies text_le(
                order_key(#[trigger] after[a], order),
                order_key(#[trigger] after[b], order),
            ) by {
                if a < k && b == k {
                } else if a < k && b > k {
                    assert(after[b] == before[b - 1]);
                } else if a == k && b > k {
                    assert(after[b] == before[b - 1]);
                    if k < before.len() {
                        if k < b - 1 {
                            lemma_text_le_trans(
                                kx,
                                order_key(before[k as int], order),
                                order_key(before[b - 1], order),
                            );
                        }
                    }
                } else if a > k {
                    assert(after[a] == before[a - 1]);
                    assert(after[b] == before[b - 1]);
                }
            }
            before.insert_ensures(k as int, x@);
            assert(dv.take(i + 1) =~= dv.take(i as int).push(dv[i as int]));
            lemma_insert_multiset(before, k as int, x@);
            dv.take(i as int).to_multiset_ensures();
        }
        i = i + 1;
    }
    assert(dv.take(v.len() as int) =~= dv);
    out
}

/// The ascending arrangement of `s`: the one sorted sequence with the same
/// elements, each as often (see `lemma_sorted_unique`).
pub open spec fn sorted_perm(s: Seq<Seq<char>>) -> Seq<Seq<char>> {
    choose|m: Seq<Seq<char>>| sorted(m) && m.to_multiset() == s.to_multiset()
}

/// Two sorted sequences with the same elements are equal.
pub proof fn lemma_sorted_unique(a: Seq<Seq<char>>, b: Seq<Seq<char>>)
    requires
        sorted(a),
        sorted(b),
        a.to_multiset() == b.to_multiset(),
    ensures
        a == b,
    decreases a.len(),
{
    a.to_multiset_ensures();
    b.to_multiset_ensures();
    if a.len() == 0 {
        assert(a =~= b);
    } else {
        let x = a[0];
        let y = b[0];
        assert(a.contains(x));
        assert(b.contains(y));
        assert(b.to_multiset().count(x) > 0);
        assert(a.to_multiset().count(y) > 0);
        let j = choose|j: int| 0 <= j < b.len() && b[j] == x;
        let k = choose|k: int| 0 <= k < a.len() && a[k] == y;
        assert(text_le(y, x)) by {
            if j > 0 {
                assert(text_le(b[0], b[j]));
            }
        }
        assert(text_le(x, y)) by {
            if k > 0 {
                assert(text_le(a[0], a[k]));
            }
        }
        lemma_text_lt_asym(x, y);
        assert(x == y);
        let ar = a.drop_first();
        let br = b.drop_first();
        assert(a.remove(0) =~= ar);
        assert(b.remove(0) =~= br);
        assert(ar.to_multiset() =~= br.to_multiset());
        assert(sorted(ar)) by {
            assert forall|i: int, t: int| 0 <= i < t < ar.len() implies text_le(
                #[trigger] ar[i],
                #[trigger] ar[t],
            ) by {
                assert(text_le(a[i + 1], a[t + 1]));
            }
        }
        assert(sorted(br)) by {
            assert forall|i: int, t: int| 0 <= i < t < br.len() implies text_le(
                #[trigger] br[i],
                #[trigger] br[t],
            ) by {
                assert(text_le(b[i + 1], b[t + 1]));
            }
        }
        lemma_sorted_unique(ar, br);
        assert(a =~= b) by {
            assert forall|i: int| 0 <= i < a.len() implies a[i] == b[i] by {
                if i > 0 {
                    assert(a[i] == ar[i - 1]);
                    assert(b[i] == br[i - 1]);
                }
            }
        }
    }
}

/// A sorted arrangement of `s` is its ascending arrangement.
pub proof fn lemma_sorted_perm(m: Seq<Seq<char>>, s: Seq<Seq<char>>)
    requires
        sorted(m),
        m.to_multiset() == s.to_multiset(),
    ensures
        sorted_perm(s) == m,
{
    let c = sorted_perm(s);
    assert(sorted(c) && c.to_multiset() == s.to_multiset());
    lemma_sorted_unique(c, m);
}

/// Sorts strings ascending (`slice::sort` on `String`s).
pub fn sort_strings(v: Vec<String>) -> (r: Vec<String>)
    ensures
        sorted(r.deep_view()),
        r.deep_view().to_multiset() == v.deep_view().to_multiset(),
        r.deep_view() == sorted_perm(v.deep_view()),
        r.len() == v.len(),
{
    let r = sort_strings_by(v, KeyOrder::Text);
    assert(sorted(r.deep_view())) by {
        assert forall|i: int, j: int| 0 <= i < j < r.deep_view().len() implies text_le(
            #[trigger] r.deep_view()[i],
            #[trigger] r.deep_view()[j],
        ) by {
            assert(text_le(
                    order_key(r.deep_view()[i], KeyOrder::Text),
                    order_key(r.deep_view()[j], KeyOrder::Text),
                ));
        }
    }
    proof {
        lemma_sorted_perm(r.deep_view(), v.deep_view());
    }
    r
}

/// A string without NUL characters (as every path on the host is).
pub open spec fn nul_free(s: Seq<char>) -> bool {
    !s.contains('\0')
}

/// The strings that `order_key` tells apart: any, or for paths, those
/// without NUL characters.
pub open spec fn keys_faithful(v: Seq<Seq<char>>, order: KeyOrder) -> bool {
    order != KeyOrder::Text ==> forall|k: int| 0 <= k < v.len() ==> nul_free(#[trigger] v[k])
}

/// On strings without NUL characters the path order key loses nothing.
pub proof fn lemma_order_key_injective(a: Seq<char>, b: Seq<char>, order: KeyOrder)
    requires
        order != KeyOrder::Text ==> nul_free(a) && nul_free(b),
        order_key(a, order) == order_key(b, order),
    ensures
        a == b,
{
    if order != KeyOrder::Text {
        let ka = order_key(a, order);
        let kb = order_key(b, order);
        assert(a.len() == ka.len() && b.len() == kb.len());
        assert forall|k: int| 0 <= k < a.len() implies a[k] == b[k] by {
            assert(ka[k] == kb[k]);
            if is_key_sep(a[k], order) {
                assert(ka[k] == '\0');
                if !is_key_sep(b[k], order) {
                    assert(b.contains(b[k]));
                }
            } else {
                assert(a.contains(a[k]));
                if is_key_sep(b[k], order) {
                    assert(ka[k] == '\0');
                }
            }
        }
        assert(a =~= b);
    }
}

/// Sorts and removes repeated strings (`sort` then `dedup`).
pub fn sort_dedup_by(v: Vec<String>, order: KeyOrder) -> (r: Vec<String>)
    requires
        keys_faithful(v.deep_view(), order),
    ensures
        sorted_by(r.deep_view(), order),
        r.deep_view().no_duplicates(),
        r.deep_view().to_set() == v.deep_view().to_set(),
{
    let s = sort_strings_by(v, order);
    let ghost sv = s.deep_view();
    proof {
        sv.to_multiset_ensures();
        v.deep_view().to_multiset_ensures();
        assert forall|k: int| 0 <= k < sv.len() && order != KeyOrder::Text implies nul_free(
            #[trigger] sv[k],
        ) by {
            assert(sv.to_multiset().count(sv[k]) > 0);
            assert(v.deep_view().to_multiset().count(sv[k]) > 0);
            let w = choose|w: int| 0 <= w < v.deep_view().len() && v.deep_view()[w] == sv[k];
            assert(nul_free(v.deep_view()[w]) || order == KeyOrder::Text);
        }
    }
    let mut out: Vec<String> = Vec::new();
    let mut i: usize = 0;
    while i < s.len()
        invariant
            i <= s.len(),
            sv == s.deep_view(),
            sorted_by(sv, order),
            keys_faithful(sv, order),
            sorted_by(out.deep_view(), order),
            out.deep_view().no_duplicates(),
            out.deep_view().to_set() == sv.take(i as int).to_set(),
            i > 0 ==> out.len() > 0 && out.deep_view().last() == sv[i - 1],
            i == 0 ==> out.len() == 0,
            forall|t: int| 0 <= t < out.len() ==> exists|u: int| 0 <= u < i && #[trigger] out.deep_view()[t] == sv[u],
        decreases s.len() - i,
    {
        assert(sv[i as int] == s[i as int]@);
        assert(sv.take(i + 1) =~= sv.take(i as int).push(sv[i as int]));
        let dup = out.len() > 0 && out[out.len() - 1] == s[i];
        if !dup {
            let ghost before = out.deep_view();
            out.push(s[i].clone());
            proof {
                let after = out.deep_view();
                assert(after =~= before.push(sv[i as int]));
                assert forall|a: int, b: int| 0 <= a < b < after.len() implies text_le(
                    order_key(#[trigger] after[a], order),
                    order_key(#[trigger] after[b], order),
                ) by {
                    if b == after.len() - 1 && a < b {
                        let u = choose|u: int| 0 <= u < i && before[a] == sv[u];
                        assert(text_le(order_key(sv[u], order), order_key(sv[i as int], order)));
                    }
                }
                assert forall|a: int, b: int| 0 <= a < after.len() && 0 <= b < after.len() && a != b implies after[a] != after[b] by {
                    if a == after.len() - 1 || b == after.len() - 1 {
                        let o = if a == after.len() - 1 { b } else { a };
                        let u = choose|u: int| 0 <= u < i && before[o] == sv[u];
                        if before[o] == sv[i as int] {
                            // equal keys in sorted order lie between the last pushed and i
                            assert(text_le(order_key(sv[u], order), order_key(sv[i - 1], order)));
                            assert(text_le(order_key(sv[i - 1], order), order_key(sv[i as int], order)));
                            lemma_text_lt_asym(order_key(sv[u], order), order_key(sv[i - 1], order));
                            lemma_dedup_gap(sv, u, i as int, order);
                            lemma_order_key_injective(sv[i - 1], sv[i as int], order);
                        }
                    }
                }
                before.lemma_push_to_set_commute(sv[i as int]);
                sv.take(i as int).lemma_push_to_set_commute(sv[i as int]);
                assert(after.to_set() =~= sv.take(i + 1).to_set());
                assert forall|t: int| 0 <= t < after.len() implies exists|u: int| 0 <= u < i + 1 && #[trigger] after[t] == sv[u] by {
                    if t == after.len() - 1 {
                        assert(after[t] == sv[i as int]);
                    } else {
                        assert(after[t] == before[t]);
                    }
                }
            }
        } else {
            proof {
                assert(out.deep_view().last() == sv[i as int]);
                assert(out.deep_view().to_set() =~= sv.take(i + 1).to_set()) by {
                    assert(out.deep_view().contains(sv[i as int]));
                }
            }
        }
        i = i + 1;
    }
    assert(sv.take(s.len() as int) =~= sv);
    proof {
        assert forall|x: Seq<char>| sv.to_set().contains(x) == v.deep_view().to_set().contains(x) by {
            assert(sv.to_multiset().count(x) == v.deep_view().to_multiset().count(x));
        }
        assert(sv.to_set() =~= v.deep_view().to_set());
    }
    out
}

/// In a sorted list, an element equal to a later one also equals everything
/// in between.
proof fn lemma_dedup_gap(sv: Seq<Seq<char>>, u: int, i: int, order: KeyOrder)
    requires
        sorted_by(sv, order),
        0 <= u < i < sv.len(),
        sv[u] == sv[i],
    ensures
        sv[i - 1] == sv[i] || order_key(sv[i - 1], order) == order_key(sv[i], order),
{
    if u < i - 1 {
        assert(text_le(order_key(sv[u], order), order_key(sv[i - 1], order)));
        assert(text_le(order_key(sv[i - 1], order), order_key(sv[i], order)));
        lemma_text_lt_asym(order_key(sv[u], order), order_key(sv[i - 1], order));
    }
}

proof fn lemma_insert_multiset(s: Seq<Seq<char>>, k: int, x: Seq<char>)
    requires
        0 <= k <= s.len(),
    ensures
        s.insert(k, x).to_multiset() == s.to_multiset().insert(x),
{
    let pre = s.take(k);
    let post = s.skip(k);
    assert(s =~= pre + post);
    assert(s.insert(k, x) =~= pre.push(x) + post);
    vstd::seq_lib::lemma_multiset_commutative(pre.push(x), post);
    vstd::seq_lib::lemma_multiset_commutative(pre, post);
    pre.to_multiset_ensures();
}

} // verus!
