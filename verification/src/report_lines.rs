//! The line structure of rendered reports: which `## ` headings a report
//! has and in what order, the lines of its list sections, and the `### `
//! heading of each command.
use vstd::prelude::*;

use crate::models::{
    classification_text, status_text, CommandResult, FailureClassification, ReportStatus,
    ScenarioReport,
};
use crate::report::{
    bool_text, exit_code_text, ln, markdown_report, md_block, md_command, md_command_head,
    md_commands, md_head, md_items, md_list,
};
use crate::text::{
    dec, digit_char, int_text, is_ws, lemma_split_on_nonempty, split_on, starts_with, trim, trim_end,
};

verus! {

/// The lines of a text that ends each of its lines with a newline.
pub open spec fn doc_lines(t: Seq<char>) -> Seq<Seq<char>> {
    split_on(t, '\n').drop_last()
}

/// `t` is empty or ends with a newline.
pub open spec fn is_doc(t: Seq<char>) -> bool {
    t.len() == 0 || t.last() == '\n'
}

/// The lines of `ls` that start with `marker`, in order.
pub open spec fn marked(ls: Seq<Seq<char>>, marker: Seq<char>) -> Seq<Seq<char>>
    decreases ls.len(),
{
    if ls.len() == 0 {
        seq![]
    } else {
        (if starts_with(ls[0], marker) {
            seq![ls[0]]
        } else {
            seq![]
        }) + marked(ls.drop_first(), marker)
    }
}

/// The lines of the text `t` that start with `marker`, in order.
pub open spec fn marked_lines(t: Seq<char>, marker: Seq<char>) -> Seq<Seq<char>> {
    marked(doc_lines(t), marker)
}

/// No line of `s` starts with `marker`.
pub open spec fn free_of(s: Seq<char>, marker: Seq<char>) -> bool {
    marked(split_on(s, '\n'), marker).len() == 0
}

/// The start of a second-level Markdown heading.
pub open spec fn h2() -> Seq<char> {
    seq!['#', '#', ' ']
}

/// The start of a third-level Markdown heading.
pub open spec fn h3() -> Seq<char> {
    seq!['#', '#', '#', ' ']
}

pub open spec fn no_newline(s: Seq<char>) -> bool {
    !s.contains('\n')
}

proof fn lemma_no_newline_add(a: Seq<char>, b: Seq<char>)
    requires
        no_newline(a),
        no_newline(b),
    ensures
        no_newline(a + b),
{
    if (a + b).contains('\n') {
        let j = choose|j: int| 0 <= j < (a + b).len() && (a + b)[j] == '\n';
        if j < a.len() {
            assert(a[j] == '\n');
        } else {
            assert(b[j - a.len()] == '\n');
        }
    }
}

proof fn lemma_marked_add(a: Seq<Seq<char>>, b: Seq<Seq<char>>, m: Seq<char>)
    ensures
        marked(a + b, m) == marked(a, m) + marked(b, m),
    decreases a.len(),
{
    if a.len() == 0 {
        assert(a + b =~= b);
    } else {
        assert((a + b).drop_first() =~= a.drop_first() + b);
        assert((a + b)[0] == a[0]);
        lemma_marked_add(a.drop_first(), b, m);
    }
}

proof fn lemma_marked_one(l: Seq<char>, m: Seq<char>)
    ensures
        marked(seq![l], m) == (if starts_with(l, m) {
            seq![l]
        } else {
            Seq::<Seq<char>>::empty()
        }),
{
    assert(seq![l].drop_first() =~= Seq::<Seq<char>>::empty());
    assert(marked(Seq::<Seq<char>>::empty(), m) == Seq::<Seq<char>>::empty());
}

/// A text without newlines is one line.
proof fn lemma_split_single(s: Seq<char>)
    requires
        no_newline(s),
    ensures
        split_on(s, '\n') == seq![s],
    decreases s.len(),
{
    if s.len() > 0 {
        let t = s.drop_last();
        assert(no_newline(t)) by {
            if t.contains('\n') {
                let j = choose|j: int| 0 <= j < t.len() && t[j] == '\n';
                assert(s[j] == '\n');
            }
        }
        lemma_split_single(t);
        assert(s.last() != '\n') by {
            if s.last() == '\n' {
                assert(s[s.len() - 1] == '\n');
            }
        }
        assert(t.push(s.last()) =~= s);
        assert(seq![t].update(0, seq![t].last().push(s.last())) =~= seq![s]);
    } else {
        assert(s =~= Seq::<char>::empty());
    }
}

/// A start without newlines joins the first line.
proof fn lemma_split_prefix(p: Seq<char>, x: Seq<char>)
    requires
        no_newline(p),
    ensures
        split_on(p + x, '\n') == split_on(x, '\n').update(0, p + split_on(x, '\n')[0]),
    decreases x.len(),
{
    lemma_split_on_nonempty(x, '\n');
    if x.len() == 0 {
        assert(p + x =~= p);
        lemma_split_single(p);
        assert(p + Seq::<char>::empty() =~= p);
        assert(split_on(x, '\n').update(0, p + split_on(x, '\n')[0]) =~= seq![p]);
    } else {
        let y = x.drop_last();
        let c = x.last();
        lemma_split_prefix(p, y);
        lemma_split_on_nonempty(y, '\n');
        assert((p + x).drop_last() =~= p + y);
        assert((p + x).last() == c);
        let s = split_on(y, '\n');
        if c == '\n' {
            assert(split_on(x, '\n') == s.push(seq![]));
            assert(split_on(p + x, '\n') =~= s.push(seq![]).update(0, p + s[0]));
        } else {
            let u = split_on(x, '\n');
            assert(u == s.update(s.len() - 1, s.last().push(c)));
            if s.len() == 1 {
                assert((p + s[0]).push(c) =~= p + s[0].push(c));
            }
            assert(split_on(p + x, '\n') =~= u.update(0, p + u[0]));
        }
    }
}

/// An end without newlines joins the last line.
proof fn lemma_split_suffix(x: Seq<char>, q: Seq<char>)
    requires
        no_newline(q),
    ensures
        split_on(x + q, '\n') == split_on(x, '\n').update(
            split_on(x, '\n').len() - 1,
            split_on(x, '\n').last() + q,
        ),
    decreases q.len(),
{
    lemma_split_on_nonempty(x, '\n');
    let s = split_on(x, '\n');
    if q.len() == 0 {
        assert(x + q =~= x);
        assert(s.last() + q =~= s.last());
        assert(s.update(s.len() - 1, s.last() + q) =~= s);
    } else {
        let q0 = q.drop_last();
        let c = q.last();
        assert(no_newline(q0)) by {
            if q0.contains('\n') {
                let j = choose|j: int| 0 <= j < q0.len() && q0[j] == '\n';
                assert(q[j] == '\n');
            }
        }
        assert(q[q.len() - 1] == c);
        lemma_split_suffix(x, q0);
        assert((x + q).drop_last() =~= x + q0);
        assert((x + q).last() == c);
        assert((s.last() + q0).push(c) =~= s.last() + q);
        assert(split_on(x + q, '\n') =~= s.update(s.len() - 1, s.last() + q));
    }
}

/// Texts that end their lines with newlines put their lines one after the
/// other.
proof fn lemma_doc_lines_add(a: Seq<char>, b: Seq<char>)
    requires
        is_doc(a),
        is_doc(b),
    ensures
        doc_lines(a + b) == doc_lines(a) + doc_lines(b),
        is_doc(a + b),
{
    lemma_split_add(a, b);
    lemma_split_on_nonempty(b, '\n');
    let d = split_on(a, '\n').drop_last();
    let s = split_on(b, '\n');
    assert((d + s).drop_last() =~= d + s.drop_last());
    if b.len() == 0 {
        assert(a + b =~= a);
    } else {
        assert((a + b).last() == b.last());
    }
}

proof fn lemma_split_add(a: Seq<char>, b: Seq<char>)
    requires
        is_doc(a),
    ensures
        split_on(a + b, '\n') == split_on(a, '\n').drop_last() + split_on(b, '\n'),
    decreases b.len(),
{
    lemma_split_on_nonempty(a, '\n');
    if b.len() == 0 {
        assert(a + b =~= a);
        if a.len() > 0 {
            assert(split_on(a, '\n') == split_on(a.drop_last(), '\n').push(seq![]));
        }
        assert(split_on(a, '\n').last() =~= Seq::<char>::empty());
        assert(split_on(a, '\n') =~= split_on(a, '\n').drop_last() + seq![Seq::<char>::empty()]);
    } else {
        let y = b.drop_last();
        let c = b.last();
        lemma_split_add(a, y);
        lemma_split_on_nonempty(y, '\n');
        assert((a + b).drop_last() =~= a + y);
        assert((a + b).last() == c);
        let s = split_on(y, '\n');
        let d = split_on(a, '\n').drop_last();
        if c == '\n' {
            assert(split_on(a + b, '\n') =~= d + s.push(seq![]));
        } else {
            assert(split_on(a + b, '\n') =~= d + s.update(s.len() - 1, s.last().push(c)));
        }
    }
}

proof fn lemma_ln_lines(x: Seq<char>)
    ensures
        doc_lines(ln(x)) == split_on(x, '\n'),
        is_doc(ln(x)),
{
    assert(ln(x).drop_last() =~= x);
    assert(ln(x).last() == '\n');
    lemma_split_on_nonempty(x, '\n');
    assert(split_on(ln(x), '\n') == split_on(x, '\n').push(seq![]));
    assert(split_on(x, '\n').push(seq![]).drop_last() =~= split_on(x, '\n'));
}

proof fn lemma_marked_text_add(a: Seq<char>, b: Seq<char>, m: Seq<char>)
    requires
        is_doc(a),
        is_doc(b),
    ensures
        marked_lines(a + b, m) == marked_lines(a, m) + marked_lines(b, m),
        is_doc(a + b),
{
    lemma_doc_lines_add(a, b);
    lemma_marked_add(doc_lines(a), doc_lines(b), m);
}

/// The lines after the first of `x` that start with `m`.
pub open spec fn tail_marked(x: Seq<char>, m: Seq<char>) -> Seq<Seq<char>> {
    marked(split_on(x, '\n').drop_first(), m)
}

/// The lines of `x` that start with `m`.
pub open spec fn all_marked(x: Seq<char>, m: Seq<char>) -> Seq<Seq<char>> {
    marked(split_on(x, '\n'), m)
}

/// A line that starts with `p`, where `p` differs from `m` at `i`, and goes
/// on with `x`: its lines that start with `m` are those of `x` after the
/// first.
proof fn lemma_prefixed_line(p: Seq<char>, x: Seq<char>, m: Seq<char>, i: int)
    requires
        no_newline(p),
        0 <= i < p.len(),
        i < m.len(),
        p[i] != m[i],
    ensures
        marked_lines(ln(p + x), m) == tail_marked(x, m),
        is_doc(ln(p + x)),
{
    lemma_ln_lines(p + x);
    lemma_split_prefix(p, x);
    lemma_split_on_nonempty(x, '\n');
    let s = split_on(x, '\n');
    let l = split_on(p + x, '\n');
    assert(l[0] == p + s[0]);
    assert(!starts_with(l[0], m)) by {
        if starts_with(l[0], m) {
            assert(l[0].take(m.len() as int)[i] == m[i]);
            assert(l[0][i] == p[i]);
        }
    }
    assert(l.drop_first() =~= s.drop_first());
    assert(marked(l, m) =~= marked(s.drop_first(), m));
}

/// Nothing after the first line of `x` starts with `m` when no line of it
/// does, or when it is one line.
proof fn lemma_tail_empty(x: Seq<char>, m: Seq<char>)
    requires
        free_of(x, m) || no_newline(x),
    ensures
        tail_marked(x, m) == Seq::<Seq<char>>::empty(),
{
    lemma_split_on_nonempty(x, '\n');
    let s = split_on(x, '\n');
    if no_newline(x) {
        lemma_split_single(x);
        assert(s.drop_first() =~= Seq::<Seq<char>>::empty());
    }
    assert(marked(s, m) == (if starts_with(s[0], m) {
        seq![s[0]]
    } else {
        Seq::<Seq<char>>::empty()
    }) + marked(s.drop_first(), m));
    assert(tail_marked(x, m) =~= Seq::<Seq<char>>::empty());
}

/// A fixed line that differs from `m` at `i`.
proof fn lemma_fixed_line(l: Seq<char>, m: Seq<char>, i: int)
    requires
        no_newline(l),
        0 <= i < l.len(),
        i < m.len(),
        l[i] != m[i],
    ensures
        marked_lines(ln(l), m) == Seq::<Seq<char>>::empty(),
        is_doc(ln(l)),
{
    let e = Seq::<char>::empty();
    assert(l + e =~= l);
    assert(no_newline(e));
    lemma_prefixed_line(l, e, m, i);
    lemma_tail_empty(e, m);
}

/// A line that holds the text `x`.
proof fn lemma_text_line(x: Seq<char>, m: Seq<char>)
    ensures
        marked_lines(ln(x), m) == all_marked(x, m),
        is_doc(ln(x)),
{
    lemma_ln_lines(x);
}

proof fn lemma_empty_line(m: Seq<char>)
    requires
        m.len() > 0,
    ensures
        marked_lines(ln(Seq::<char>::empty()), m) == Seq::<Seq<char>>::empty(),
        is_doc(ln(Seq::<char>::empty())),
{
    let e = Seq::<char>::empty();
    lemma_ln_lines(e);
    assert(split_on(e, '\n') == seq![e]);
    lemma_marked_one(e, m);
}

/// The markers whose lines the laws below count.
pub open spec fn is_marker(m: Seq<char>) -> bool {
    m == h2() || m == h3()
}

proof fn lemma_marker_facts(m: Seq<char>)
    requires
        is_marker(m),
    ensures
        m.len() >= 3,
        m[0] == '#',
        m[1] == '#',
        forall|j: int| 0 <= j < m.len() ==> m[j] == '#' || m[j] == ' ',
{
}

/// A `## ` heading line.
proof fn lemma_heading_line(t: Seq<char>, m: Seq<char>)
    requires
        no_newline(t),
        is_marker(m),
    ensures
        marked_lines(ln(h2() + t), m) == (if m == h2() {
            seq![h2() + t]
        } else {
            Seq::<Seq<char>>::empty()
        }),
        is_doc(ln(h2() + t)),
{
    assert(no_newline(h2())) by {
        if h2().contains('\n') {
            let j = choose|j: int| 0 <= j < h2().len() && h2()[j] == '\n';
        }
    }
    lemma_no_newline_add(h2(), t);
    if m == h3() {
        lemma_fixed_line(h2() + t, m, 2);
    } else {
        lemma_ln_lines(h2() + t);
        lemma_split_single(h2() + t);
        lemma_marked_one(h2() + t, m);
        assert((h2() + t).take(3) =~= h2());
    }
}

proof fn lemma_dec_no_newline(n: nat)
    ensures
        no_newline(dec(n)),
    decreases n,
{
    assert(digit_char((n % 10) as nat) != '\n') by {
        assert(((n % 10) + 48) as u8 == (n % 10) + 48);
    }
    if n < 10 {
        assert(digit_char(n) != '\n') by {
            assert((n + 48) as u8 == n + 48);
        }
        assert(no_newline(seq![digit_char(n)])) by {
            if seq![digit_char(n)].contains('\n') {
                let j = choose|j: int| 0 <= j < 1 && seq![digit_char(n)][j] == '\n';
            }
        }
    } else {
        lemma_dec_no_newline(n / 10);
        let d = dec(n / 10);
        let c = digit_char((n % 10) as nat);
        assert(no_newline(d.push(c))) by {
            if d.push(c).contains('\n') {
                let j = choose|j: int| 0 <= j < d.push(c).len() && d.push(c)[j] == '\n';
                if j < d.len() {
                    assert(d[j] == '\n');
                }
            }
        }
    }
}

proof fn lemma_int_text_no_newline(n: int)
    ensures
        no_newline(int_text(n)),
{
    if n < 0 {
        lemma_dec_no_newline((-n) as nat);
        assert(no_newline(seq!['-'])) by {
            if seq!['-'].contains('\n') {
                let j = choose|j: int| 0 <= j < 1 && seq!['-'][j] == '\n';
            }
        }
        lemma_no_newline_add(seq!['-'], dec((-n) as nat));
    } else {
        lemma_dec_no_newline(n as nat);
    }
}

/// The length of `trim_end(s)` is that of the prefix it keeps.
proof fn lemma_trim_end_prefix(s: Seq<char>)
    ensures
        trim_end(s).len() <= s.len(),
        trim_end(s) == s.take(trim_end(s).len() as int),
    decreases s.len(),
{
    if s.len() > 0 && is_ws(s.last()) {
        lemma_trim_end_prefix(s.drop_last());
        assert(s.drop_last().take(trim_end(s).len() as int) =~= s.take(trim_end(s).len() as int));
    } else {
        assert(s.take(s.len() as int) =~= s);
    }
}

proof fn lemma_free_of_drop_last(s: Seq<char>, m: Seq<char>)
    requires
        s.len() > 0,
        m.len() > 0,
        free_of(s, m),
    ensures
        free_of(s.drop_last(), m),
{
    let t = s.drop_last();
    let c = s.last();
    lemma_split_on_nonempty(t, '\n');
    let a = split_on(t, '\n');
    let l = a.last();
    assert(a =~= a.drop_last() + seq![l]);
    lemma_marked_add(a.drop_last(), seq![l], m);
    lemma_marked_one(l, m);
    if c == '\n' {
        assert(split_on(s, '\n') =~= a + seq![Seq::<char>::empty()]);
        lemma_marked_add(a, seq![Seq::<char>::empty()], m);
    } else {
        let lc = l.push(c);
        assert(split_on(s, '\n') =~= a.drop_last() + seq![lc]);
        lemma_marked_add(a.drop_last(), seq![lc], m);
        lemma_marked_one(lc, m);
        if starts_with(l, m) {
            assert(lc.take(m.len() as int) =~= l.take(m.len() as int));
        }
    }
}

/// Every line of a prefix of `s` is a prefix of a line of `s`, so a prefix
/// of a text none of whose lines starts with `m` has no such line either.
proof fn lemma_free_of_take(s: Seq<char>, k: int, m: Seq<char>)
    requires
        0 <= k <= s.len(),
        m.len() > 0,
        free_of(s, m),
    ensures
        free_of(s.take(k), m),
    decreases s.len(),
{
    if k == s.len() {
        assert(s.take(k) =~= s);
    } else {
        lemma_free_of_drop_last(s, m);
        lemma_free_of_take(s.drop_last(), k, m);
        assert(s.drop_last().take(k) =~= s.take(k));
    }
}

/// Appending `q`, which starts with a character that `m` does not hold, to
/// a text none of whose lines starts with `m` keeps it so.
proof fn lemma_free_of_append(x: Seq<char>, q: Seq<char>, m: Seq<char>)
    requires
        free_of(x, m),
        no_newline(q),
        q.len() > 0,
        forall|j: int| 0 <= j < m.len() ==> m[j] != q[0],
    ensures
        free_of(x + q, m),
{
    lemma_split_suffix(x, q);
    lemma_split_on_nonempty(x, '\n');
    let a = split_on(x, '\n');
    let l = a.last();
    assert(a =~= a.drop_last() + seq![l]);
    lemma_marked_add(a.drop_last(), seq![l], m);
    lemma_marked_one(l, m);
    assert(split_on(x + q, '\n') =~= a.drop_last() + seq![l + q]);
    lemma_marked_add(a.drop_last(), seq![l + q], m);
    lemma_marked_one(l + q, m);
    if starts_with(l + q, m) {
        if l.len() >= m.len() {
            assert((l + q).take(m.len() as int) =~= l.take(m.len() as int));
        } else {
            assert((l + q).take(m.len() as int)[l.len() as int] == m[l.len() as int]);
            assert((l + q)[l.len() as int] == q[0]);
        }
    }
}

/// No item of `xs` has a line that starts with `m`.
pub open spec fn items_free_of(xs: Seq<Seq<char>>, m: Seq<char>) -> bool {
    forall|i: int| 0 <= i < xs.len() ==> free_of(#[trigger] xs[i], m)
}

proof fn lemma_literal_no_newline(s: Seq<char>)
    requires
        forall|j: int| 0 <= j < s.len() ==> s[j] != '\n',
    ensures
        no_newline(s),
{
}

/// The `### ` heading of one command's evidence.
pub open spec fn command_heading(c: CommandResult) -> Seq<char> {
    "### "@ + (if c.success {
        "PASS"@
    } else {
        "FAIL"@
    }) + ": "@ + c.label@
}

/// No text of `c` has a line that starts with `m`.
pub open spec fn command_free_of(c: CommandResult, m: Seq<char>) -> bool {
    &&& free_of(c.label@, m)
    &&& free_of(c.command@, m)
    &&& free_of(c.cwd@, m)
    &&& free_of(c.stdout@, m)
    &&& free_of(c.stderr@, m)
}

/// The `### ` headings of the commands `cs`, one per command, in order.
pub open spec fn command_headings(cs: Seq<CommandResult>) -> Seq<Seq<char>> {
    cs.map_values(|c: CommandResult| command_heading(c))
}

/// No text of the report has a line that starts with `m`.
pub open spec fn report_free_of(r: ScenarioReport, m: Seq<char>) -> bool {
    &&& free_of(r.title@, m)
    &&& free_of(r.summary@, m)
    &&& free_of(r.backend@, m)
    &&& free_of(r.run_dir@, m)
    &&& free_of(r.reproduction@, m)
    &&& items_free_of(r.scenario_steps.deep_view(), m)
    &&& items_free_of(r.docs_observations.deep_view(), m)
    &&& items_free_of(r.provided_secrets.deep_view(), m)
    &&& items_free_of(r.missing_secrets.deep_view(), m)
    &&& items_free_of(r.generated_files.deep_view(), m)
    &&& items_free_of(r.suggestions.deep_view(), m)
    &&& forall|i: int| 0 <= i < r.commands@.len() ==> command_free_of(#[trigger] r.commands@[i], m)
}

/// The opening lines of every report: title, status, failure
/// classification, backend and run directory.
pub open spec fn report_preamble(r: ScenarioReport) -> Seq<char> {
    ln("# "@ + r.title@) + ln(seq![]) + ln("- Status: `"@ + status_text(r.status) + "`"@) + ln(
        "- Failure classification: `"@ + classification_text(r.classification) + "`"@,
    ) + ln("- Backend: `"@ + r.backend@ + "`"@) + ln("- Run dir: `"@ + r.run_dir@ + "`"@)
}

proof fn lemma_h2_titles()
    ensures
        "## Summary"@ == h2() + "Summary"@,
        "## Reproduction"@ == h2() + "Reproduction"@,
        "## Scenario Steps"@ == h2() + "Scenario Steps"@,
        "## Docs Observations"@ == h2() + "Docs Observations"@,
        "## Provided Secrets"@ == h2() + "Provided Secrets"@,
        "## Missing Secrets"@ == h2() + "Missing Secrets"@,
        "## Commands"@ == h2() + "Commands"@,
        "## Generated Files"@ == h2() + "Generated Files"@,
        "## Suggestions"@ == h2() + "Suggestions"@,
{
    assert("## Summary"@ =~= h2() + "Summary"@) by {
        reveal_strlit("## Summary");
        reveal_strlit("Summary");
    }
    assert("## Reproduction"@ =~= h2() + "Reproduction"@) by {
        reveal_strlit("## Reproduction");
        reveal_strlit("Reproduction");
    }
    assert("## Scenario Steps"@ =~= h2() + "Scenario Steps"@) by {
        reveal_strlit("## Scenario Steps");
        reveal_strlit("Scenario Steps");
    }
    assert("## Docs Observations"@ =~= h2() + "Docs Observations"@) by {
        reveal_strlit("## Docs Observations");
        reveal_strlit("Docs Observations");
    }
    assert("## Provided Secrets"@ =~= h2() + "Provided Secrets"@) by {
        reveal_strlit("## Provided Secrets");
        reveal_strlit("Provided Secrets");
    }
    assert("## Missing Secrets"@ =~= h2() + "Missing Secrets"@) by {
        reveal_strlit("## Missing Secrets");
        reveal_strlit("Missing Secrets");
    }
    assert("## Commands"@ =~= h2() + "Commands"@) by {
        reveal_strlit("## Commands");
        reveal_strlit("Commands");
    }
    assert("## Generated Files"@ =~= h2() + "Generated Files"@) by {
        reveal_strlit("## Generated Files");
        reveal_strlit("Generated Files");
    }
    assert("## Suggestions"@ =~= h2() + "Suggestions"@) by {
        reveal_strlit("## Suggestions");
        reveal_strlit("Suggestions");
    }
}

/// Every report opens with its title line, a blank line, and the status,
/// failure classification, backend and run directory lines.
pub proof fn lemma_report_starts_with_preamble(r: ScenarioReport)
    ensures
        starts_with(markdown_report(r), report_preamble(r)),
{
    let p = report_preamble(r);
    assert(markdown_report(r).take(p.len() as int) =~= p);
}

/// The line of one item of a list section.
pub open spec fn bullet(x: Seq<char>) -> Seq<char> {
    "- "@ + x
}

/// The lines of a list section: its `## ` title, a blank line, `- None` when
/// the list is empty or one `- <item>` line per item in order, and a blank
/// line.
pub open spec fn list_section_lines(title: Seq<char>, xs: Seq<Seq<char>>) -> Seq<Seq<char>> {
    seq!["## "@ + title, Seq::<char>::empty()] + (if xs.len() == 0 {
        seq!["- None"@]
    } else {
        xs.map_values(|x: Seq<char>| bullet(x))
    }) + seq![Seq::<char>::empty()]
}

proof fn lemma_items_lines(xs: Seq<Seq<char>>)
    requires
        forall|i: int| 0 <= i < xs.len() ==> no_newline(#[trigger] xs[i]),
    ensures
        doc_lines(md_items(xs)) == xs.map_values(|x: Seq<char>| bullet(x)),
        is_doc(md_items(xs)),
    decreases xs.len(),
{
    if xs.len() == 0 {
        let e = Seq::<char>::empty();
        assert(md_items(xs) == e);
        assert(split_on(e, '\n') == seq![e]);
        assert(doc_lines(e) =~= Seq::<Seq<char>>::empty());
        assert(xs.map_values(|x: Seq<char>| bullet(x)) =~= Seq::<Seq<char>>::empty());
    } else {
        reveal_strlit("- ");
        let rest = xs.drop_first();
        assert forall|i: int| 0 <= i < rest.len() implies no_newline(#[trigger] rest[i]) by {
            assert(rest[i] == xs[i + 1]);
        }
        lemma_literal_no_newline("- "@);
        assert(no_newline(xs[0]));
        lemma_no_newline_add("- "@, xs[0]);
        lemma_ln_lines("- "@ + xs[0]);
        lemma_split_single("- "@ + xs[0]);
        lemma_items_lines(rest);
        lemma_doc_lines_add(ln("- "@ + xs[0]), md_items(rest));
        assert(xs.map_values(|x: Seq<char>| bullet(x)) =~= seq![bullet(xs[0])] + rest.map_values(
            |x: Seq<char>| bullet(x),
        ));
    }
}

/// The lines of a list section, when its title and items hold no newline.
pub proof fn lemma_list_section_lines(title: Seq<char>, xs: Seq<Seq<char>>)
    requires
        no_newline(title),
        forall|i: int| 0 <= i < xs.len() ==> no_newline(#[trigger] xs[i]),
    ensures
        doc_lines(md_list(title, xs)) == list_section_lines(title, xs),
{
    reveal_strlit("## ");
    reveal_strlit("- None");
    let e = Seq::<char>::empty();
    lemma_literal_no_newline("## "@);
    lemma_literal_no_newline("- None"@);
    lemma_no_newline_add("## "@, title);
    let l1 = ln("## "@ + title);
    lemma_ln_lines("## "@ + title);
    lemma_split_single("## "@ + title);
    lemma_ln_lines(e);
    assert(split_on(e, '\n') == seq![e]);
    let body = if xs.len() == 0 {
        ln("- None"@)
    } else {
        md_items(xs)
    };
    if xs.len() == 0 {
        lemma_ln_lines("- None"@);
        lemma_split_single("- None"@);
    } else {
        lemma_items_lines(xs);
    }
    lemma_doc_lines_add(l1, ln(e));
    lemma_doc_lines_add(l1 + ln(e), body);
    lemma_doc_lines_add(l1 + ln(e) + body, ln(e));
    assert(md_list(title, xs) == l1 + ln(e) + body + ln(e));
}

// ---------------------------------------------------------------------------
// The marked lines of every part of a report
// ---------------------------------------------------------------------------

/// The lines of a command's output block that start with `m`: those of
/// the output without its trailing whitespace, none when it is blank.
pub open spec fn output_marked(content: Seq<char>, m: Seq<char>) -> Seq<Seq<char>> {
    if trim(content).len() == 0 {
        Seq::<Seq<char>>::empty()
    } else {
        all_marked(trim_end(content), m)
    }
}

/// The lines of the `- <item>` lines of a list that start with `m`.
pub open spec fn items_marked(xs: Seq<Seq<char>>, m: Seq<char>) -> Seq<Seq<char>>
    decreases xs.len(),
{
    if xs.len() == 0 {
        seq![]
    } else {
        tail_marked(xs[0], m) + items_marked(xs.drop_first(), m)
    }
}

/// The `## <title>` heading line when `m` is `## `.
pub open spec fn heading_marked(title: Seq<char>, m: Seq<char>) -> Seq<Seq<char>> {
    if m == h2() {
        seq![h2() + title]
    } else {
        seq![]
    }
}

/// The heading line of a command: `### PASS: ` or `### FAIL: ` and the
/// first line of its label.
pub open spec fn command_heading_line(c: CommandResult) -> Seq<char> {
    "### "@ + (if c.success {
        "PASS"@
    } else {
        "FAIL"@
    }) + ": "@ + split_on(c.label@, '\n')[0]
}

/// The lines of one command's section that start with `m`: its heading
/// line (when `m` is `### `), then those its label, command, directory and
/// outputs bring.
pub open spec fn command_marked(c: CommandResult, m: Seq<char>) -> Seq<Seq<char>> {
    (if m == h3() {
        seq![command_heading_line(c)]
    } else {
        Seq::<Seq<char>>::empty()
    }) + tail_marked(c.label@, m) + tail_marked(c.command@ + "`"@, m) + tail_marked(
        c.cwd@ + "`"@,
        m,
    ) + output_marked(c.stdout@, m) + output_marked(c.stderr@, m)
}

pub open spec fn commands_marked(cs: Seq<CommandResult>, m: Seq<char>) -> Seq<Seq<char>>
    decreases cs.len(),
{
    if cs.len() == 0 {
        seq![]
    } else {
        command_marked(cs[0], m) + commands_marked(cs.drop_first(), m)
    }
}

/// The lines of a report's opening, summary and reproduction that start
/// with `m`.
pub open spec fn head_marked(r: ScenarioReport, m: Seq<char>) -> Seq<Seq<char>> {
    tail_marked(r.title@, m) + tail_marked(r.backend@ + "`"@, m) + tail_marked(
        r.run_dir@ + "`"@,
        m,
    ) + heading_marked("Summary"@, m) + all_marked(r.summary@, m) + heading_marked(
        "Reproduction"@,
        m,
    ) + all_marked(r.reproduction@, m)
}

/// The lines of a whole report that start with `m`, part by part.
pub open spec fn report_marked(r: ScenarioReport, m: Seq<char>) -> Seq<Seq<char>> {
    head_marked(r, m) + heading_marked("Scenario Steps"@, m) + items_marked(
        r.scenario_steps.deep_view(),
        m,
    ) + heading_marked("Docs Observations"@, m) + items_marked(r.docs_observations.deep_view(), m)
        + heading_marked("Provided Secrets"@, m) + items_marked(r.provided_secrets.deep_view(), m)
        + heading_marked("Missing Secrets"@, m) + items_marked(r.missing_secrets.deep_view(), m)
        + heading_marked("Commands"@, m) + commands_marked(r.commands@, m) + heading_marked(
        "Generated Files"@,
        m,
    ) + items_marked(r.generated_files.deep_view(), m) + heading_marked("Suggestions"@, m)
        + items_marked(r.suggestions.deep_view(), m)
}

proof fn lemma_empty_doc(m: Seq<char>)
    ensures
        marked_lines(Seq::<char>::empty(), m) == Seq::<Seq<char>>::empty(),
        is_doc(Seq::<char>::empty()),
{
    let e = Seq::<char>::empty();
    assert(split_on(e, '\n') == seq![e]);
    assert(doc_lines(e) =~= Seq::<Seq<char>>::empty());
}

proof fn lemma_items_marks(xs: Seq<Seq<char>>, m: Seq<char>)
    requires
        is_marker(m),
    ensures
        marked_lines(md_items(xs), m) == items_marked(xs, m),
        is_doc(md_items(xs)),
    decreases xs.len(),
{
    if xs.len() == 0 {
        assert(md_items(xs) == Seq::<char>::empty());
        lemma_empty_doc(m);
    } else {
        reveal_strlit("- ");
        let rest = xs.drop_first();
        lemma_literal_no_newline("- "@);
        lemma_marker_facts(m);
        lemma_prefixed_line("- "@, xs[0], m, 0);
        lemma_items_marks(rest, m);
        lemma_marked_text_add(ln("- "@ + xs[0]), md_items(rest), m);
    }
}

proof fn lemma_list_marks(title: Seq<char>, xs: Seq<Seq<char>>, m: Seq<char>)
    requires
        is_marker(m),
        no_newline(title),
    ensures
        marked_lines(md_list(title, xs), m) == heading_marked(title, m) + items_marked(xs, m),
        is_doc(md_list(title, xs)),
{
    reveal_strlit("## ");
    reveal_strlit("- None");
    assert("## "@ =~= h2());
    lemma_marker_facts(m);
    let e = Seq::<char>::empty();
    let l1 = ln("## "@ + title);
    let body = if xs.len() == 0 {
        ln("- None"@)
    } else {
        md_items(xs)
    };
    lemma_heading_line(title, m);
    lemma_empty_line(m);
    if xs.len() == 0 {
        lemma_literal_no_newline("- None"@);
        lemma_fixed_line("- None"@, m, 0);
        assert(items_marked(xs, m) == Seq::<Seq<char>>::empty());
    } else {
        lemma_items_marks(xs, m);
    }
    lemma_marked_text_add(l1, ln(e), m);
    lemma_marked_text_add(l1 + ln(e), body, m);
    lemma_marked_text_add(l1 + ln(e) + body, ln(e), m);
    assert(md_list(title, xs) == l1 + ln(e) + body + ln(e));
    assert(marked_lines(md_list(title, xs), m) =~= heading_marked(title, m) + items_marked(xs, m));
}

proof fn lemma_block_marks(title: Seq<char>, content: Seq<char>, m: Seq<char>)
    requires
        is_marker(m),
        no_newline(title),
    ensures
        marked_lines(md_block(title, content), m) == output_marked(content, m),
        is_doc(md_block(title, content)),
{
    reveal_strlit("<details><summary>");
    reveal_strlit("</summary>");
    reveal_strlit("```text");
    reveal_strlit("(empty)");
    reveal_strlit("```");
    reveal_strlit("</details>");
    lemma_marker_facts(m);
    let e = Seq::<char>::empty();
    let open = "<details><summary>"@;
    let close = "</summary>"@;
    lemma_literal_no_newline(open);
    lemma_literal_no_newline(close);
    lemma_literal_no_newline("```text"@);
    lemma_literal_no_newline("(empty)"@);
    lemma_literal_no_newline("```"@);
    lemma_literal_no_newline("</details>"@);
    lemma_no_newline_add(title, close);
    assert(open + title + close =~= open + (title + close));
    lemma_prefixed_line(open, title + close, m, 0);
    lemma_tail_empty(title + close, m);
    let l1 = ln(open + title + close);
    lemma_empty_line(m);
    lemma_fixed_line("```text"@, m, 0);
    let body = if trim(content).len() == 0 {
        ln("(empty)"@)
    } else {
        ln(trim_end(content))
    };
    if trim(content).len() == 0 {
        lemma_fixed_line("(empty)"@, m, 0);
    } else {
        lemma_text_line(trim_end(content), m);
    }
    lemma_fixed_line("```"@, m, 0);
    lemma_fixed_line("</details>"@, m, 0);
    let t2 = l1 + ln(e);
    let t3 = t2 + ln("```text"@);
    let t4 = t3 + body;
    let t5 = t4 + ln("```"@);
    let t6 = t5 + ln(e);
    let t7 = t6 + ln("</details>"@);
    let t8 = t7 + ln(e);
    lemma_marked_text_add(l1, ln(e), m);
    lemma_marked_text_add(t2, ln("```text"@), m);
    lemma_marked_text_add(t3, body, m);
    lemma_marked_text_add(t4, ln("```"@), m);
    lemma_marked_text_add(t5, ln(e), m);
    lemma_marked_text_add(t6, ln("</details>"@), m);
    lemma_marked_text_add(t7, ln(e), m);
    assert(md_block(title, content) == t8);
    assert(marked_lines(t8, m) =~= output_marked(content, m));
}

#[verifier::rlimit(40)]
proof fn lemma_command_head_marks(c: CommandResult, m: Seq<char>)
    requires
        is_marker(m),
    ensures
        marked_lines(md_command_head(c), m) == (if m == h3() {
            seq![command_heading_line(c)]
        } else {
            Seq::<Seq<char>>::empty()
        }) + tail_marked(c.label@, m) + tail_marked(c.command@ + "`"@, m) + tail_marked(
            c.cwd@ + "`"@,
            m,
        ),
        is_doc(md_command_head(c)),
{
    reveal_strlit("### ");
    reveal_strlit("PASS");
    reveal_strlit("FAIL");
    reveal_strlit(": ");
    reveal_strlit("- Command: `");
    reveal_strlit("`");
    reveal_strlit("- Cwd: `");
    reveal_strlit("- Exit code: `");
    reveal_strlit("- Timed out: `");
    reveal_strlit("- Duration: `");
    reveal_strlit(" ms`");
    reveal_strlit("signal-or-unknown");
    reveal_strlit("true");
    reveal_strlit("false");
    lemma_marker_facts(m);
    let e = Seq::<char>::empty();
    let tick = "`"@;
    let mark = if c.success {
        "PASS"@
    } else {
        "FAIL"@
    };
    let p1 = "### "@ + mark + ": "@;
    lemma_literal_no_newline(p1);
    lemma_literal_no_newline(tick);
    lemma_literal_no_newline(" ms`"@);
    lemma_literal_no_newline("- Command: `"@);
    lemma_literal_no_newline("- Cwd: `"@);
    lemma_literal_no_newline("- Exit code: `"@);
    lemma_literal_no_newline("- Timed out: `"@);
    lemma_literal_no_newline("- Duration: `"@);
    let l1 = ln(p1 + c.label@);
    let first: Seq<Seq<char>> = if m == h3() {
        seq![command_heading_line(c)]
    } else {
        Seq::<Seq<char>>::empty()
    };
    if m == h3() {
        lemma_ln_lines(p1 + c.label@);
        lemma_split_prefix(p1, c.label@);
        lemma_split_on_nonempty(c.label@, '\n');
        let s = split_on(c.label@, '\n');
        let l = split_on(p1 + c.label@, '\n');
        assert(l[0] == p1 + s[0]);
        assert(l[0].take(4) =~= h3());
        assert(l.drop_first() =~= s.drop_first());
        assert(command_heading_line(c) == p1 + s[0]);
        assert(marked(l, m) =~= seq![l[0]] + marked(s.drop_first(), m));
    } else {
        lemma_prefixed_line(p1, c.label@, m, 2);
    }
    assert(marked_lines(l1, m) == first + tail_marked(c.label@, m));
    lemma_empty_line(m);
    assert("- Command: `"@ + c.command@ + tick =~= "- Command: `"@ + (c.command@ + tick));
    lemma_prefixed_line("- Command: `"@, c.command@ + tick, m, 0);
    assert("- Cwd: `"@ + c.cwd@ + tick =~= "- Cwd: `"@ + (c.cwd@ + tick));
    lemma_prefixed_line("- Cwd: `"@, c.cwd@ + tick, m, 0);
    let code = exit_code_text(c.exit_code);
    assert(no_newline(code)) by {
        match c.exit_code {
            Some(v) => lemma_int_text_no_newline(v as int),
            None => lemma_literal_no_newline("signal-or-unknown"@),
        }
    }
    lemma_no_newline_add(code, tick);
    assert("- Exit code: `"@ + code + tick =~= "- Exit code: `"@ + (code + tick));
    lemma_prefixed_line("- Exit code: `"@, code + tick, m, 0);
    lemma_tail_empty(code + tick, m);
    let flag = bool_text(c.timed_out);
    lemma_literal_no_newline("true"@);
    lemma_literal_no_newline("false"@);
    lemma_no_newline_add(flag, tick);
    assert("- Timed out: `"@ + flag + tick =~= "- Timed out: `"@ + (flag + tick));
    lemma_prefixed_line("- Timed out: `"@, flag + tick, m, 0);
    lemma_tail_empty(flag + tick, m);
    let ms = dec(c.duration_ms as nat);
    lemma_dec_no_newline(c.duration_ms as nat);
    lemma_no_newline_add(ms, " ms`"@);
    assert("- Duration: `"@ + ms + " ms`"@ =~= "- Duration: `"@ + (ms + " ms`"@));
    lemma_prefixed_line("- Duration: `"@, ms + " ms`"@, m, 0);
    lemma_tail_empty(ms + " ms`"@, m);
    let l3 = ln("- Command: `"@ + c.command@ + tick);
    let l4 = ln("- Cwd: `"@ + c.cwd@ + tick);
    let l5 = ln("- Exit code: `"@ + code + tick);
    let l6 = ln("- Timed out: `"@ + flag + tick);
    let l7 = ln("- Duration: `"@ + ms + " ms`"@);
    let t2 = l1 + ln(e);
    let t3 = t2 + l3;
    let t4 = t3 + l4;
    let t5 = t4 + l5;
    let t6 = t5 + l6;
    let t7 = t6 + l7;
    let t8 = t7 + ln(e);
    lemma_marked_text_add(l1, ln(e), m);
    lemma_marked_text_add(t2, l3, m);
    lemma_marked_text_add(t3, l4, m);
    lemma_marked_text_add(t4, l5, m);
    lemma_marked_text_add(t5, l6, m);
    lemma_marked_text_add(t6, l7, m);
    lemma_marked_text_add(t7, ln(e), m);
    assert(md_command_head(c) == t8);
    assert(marked_lines(t8, m) =~= first + tail_marked(c.label@, m) + tail_marked(c.command@ + tick, m)
        + tail_marked(c.cwd@ + tick, m));
}

proof fn lemma_command_marks(c: CommandResult, m: Seq<char>)
    requires
        is_marker(m),
    ensures
        marked_lines(md_command(c), m) == command_marked(c, m),
        is_doc(md_command(c)),
{
    reveal_strlit("stdout");
    reveal_strlit("stderr");
    lemma_command_head_marks(c, m);
    lemma_literal_no_newline("stdout"@);
    lemma_literal_no_newline("stderr"@);
    lemma_block_marks("stdout"@, c.stdout@, m);
    lemma_block_marks("stderr"@, c.stderr@, m);
    let h = md_command_head(c);
    let b1 = md_block("stdout"@, c.stdout@);
    let b2 = md_block("stderr"@, c.stderr@);
    lemma_marked_text_add(h, b1, m);
    lemma_marked_text_add(h + b1, b2, m);
    assert(md_command(c) == h + b1 + b2);
    assert(marked_lines(md_command(c), m) =~= command_marked(c, m));
}

proof fn lemma_commands_marks(cs: Seq<CommandResult>, m: Seq<char>)
    requires
        is_marker(m),
    ensures
        marked_lines(md_commands(cs), m) == commands_marked(cs, m),
        is_doc(md_commands(cs)),
    decreases cs.len(),
{
    if cs.len() == 0 {
        assert(md_commands(cs) == Seq::<char>::empty());
        lemma_empty_doc(m);
    } else {
        let rest = cs.drop_first();
        lemma_command_marks(cs[0], m);
        lemma_commands_marks(rest, m);
        lemma_marked_text_add(md_command(cs[0]), md_commands(rest), m);
    }
}

#[verifier::rlimit(40)]
proof fn lemma_head_marks(r: ScenarioReport, m: Seq<char>)
    requires
        is_marker(m),
    ensures
        marked_lines(md_head(r), m) == head_marked(r, m),
        is_doc(md_head(r)),
{
    reveal_strlit("# ");
    reveal_strlit("- Status: `");
    reveal_strlit("`");
    reveal_strlit("- Failure classification: `");
    reveal_strlit("- Backend: `");
    reveal_strlit("- Run dir: `");
    reveal_strlit("## Summary");
    reveal_strlit("Summary");
    reveal_strlit("## Reproduction");
    reveal_strlit("Reproduction");
    reveal_strlit("```bash");
    reveal_strlit("```");
    reveal_strlit("passed");
    reveal_strlit("failed");
    reveal_strlit("none");
    reveal_strlit("docs");
    reveal_strlit("product");
    reveal_strlit("environment");
    reveal_strlit("unclear-scenario");
    reveal_strlit("unclear-audit");
    lemma_marker_facts(m);
    let e = Seq::<char>::empty();
    let tick = "`"@;
    lemma_literal_no_newline("# "@);
    lemma_literal_no_newline(tick);
    lemma_literal_no_newline("- Status: `"@);
    lemma_literal_no_newline("- Failure classification: `"@);
    lemma_literal_no_newline("- Backend: `"@);
    lemma_literal_no_newline("- Run dir: `"@);
    lemma_literal_no_newline("Summary"@);
    lemma_literal_no_newline("Reproduction"@);
    lemma_literal_no_newline("```bash"@);
    lemma_literal_no_newline("```"@);
    lemma_empty_line(m);
    lemma_prefixed_line("# "@, r.title@, m, 1);
    let status = status_text(r.status);
    let class = classification_text(r.classification);
    lemma_literal_no_newline(status);
    lemma_literal_no_newline(class);
    lemma_no_newline_add(status, tick);
    lemma_no_newline_add(class, tick);
    assert("- Status: `"@ + status + tick =~= "- Status: `"@ + (status + tick));
    lemma_prefixed_line("- Status: `"@, status + tick, m, 0);
    lemma_tail_empty(status + tick, m);
    assert("- Failure classification: `"@ + class + tick =~= "- Failure classification: `"@ + (
    class + tick));
    lemma_prefixed_line("- Failure classification: `"@, class + tick, m, 0);
    lemma_tail_empty(class + tick, m);
    assert("- Backend: `"@ + r.backend@ + tick =~= "- Backend: `"@ + (r.backend@ + tick));
    lemma_prefixed_line("- Backend: `"@, r.backend@ + tick, m, 0);
    assert("- Run dir: `"@ + r.run_dir@ + tick =~= "- Run dir: `"@ + (r.run_dir@ + tick));
    lemma_prefixed_line("- Run dir: `"@, r.run_dir@ + tick, m, 0);
    assert("## Summary"@ =~= h2() + "Summary"@);
    assert("## Reproduction"@ =~= h2() + "Reproduction"@);
    lemma_heading_line("Summary"@, m);
    lemma_heading_line("Reproduction"@, m);
    lemma_text_line(r.summary@, m);
    lemma_text_line(r.reproduction@, m);
    lemma_fixed_line("```bash"@, m, 0);
    lemma_fixed_line("```"@, m, 0);
    let t1 = ln("# "@ + r.title@);
    let t2 = t1 + ln(e);
    let t3 = t2 + ln("- Status: `"@ + status + tick);
    let t4 = t3 + ln("- Failure classification: `"@ + class + tick);
    let t5 = t4 + ln("- Backend: `"@ + r.backend@ + tick);
    let t6 = t5 + ln("- Run dir: `"@ + r.run_dir@ + tick);
    let t7 = t6 + ln(e);
    let t8 = t7 + ln("## Summary"@);
    let t9 = t8 + ln(e);
    let t10 = t9 + ln(r.summary@);
    let t11 = t10 + ln(e);
    let t12 = t11 + ln("## Reproduction"@);
    let t13 = t12 + ln(e);
    let t14 = t13 + ln("```bash"@);
    let t15 = t14 + ln(r.reproduction@);
    let t16 = t15 + ln("```"@);
    let t17 = t16 + ln(e);
    lemma_marked_text_add(t1, ln(e), m);
    lemma_marked_text_add(t2, ln("- Status: `"@ + status + tick), m);
    lemma_marked_text_add(t3, ln("- Failure classification: `"@ + class + tick), m);
    lemma_marked_text_add(t4, ln("- Backend: `"@ + r.backend@ + tick), m);
    lemma_marked_text_add(t5, ln("- Run dir: `"@ + r.run_dir@ + tick), m);
    lemma_marked_text_add(t6, ln(e), m);
    lemma_marked_text_add(t7, ln("## Summary"@), m);
    lemma_marked_text_add(t8, ln(e), m);
    lemma_marked_text_add(t9, ln(r.summary@), m);
    lemma_marked_text_add(t10, ln(e), m);
    lemma_marked_text_add(t11, ln("## Reproduction"@), m);
    lemma_marked_text_add(t12, ln(e), m);
    lemma_marked_text_add(t13, ln("```bash"@), m);
    lemma_marked_text_add(t14, ln(r.reproduction@), m);
    lemma_marked_text_add(t15, ln("```"@), m);
    lemma_marked_text_add(t16, ln(e), m);
    assert(md_head(r) == t17);
    assert(marked_lines(t17, m) =~= head_marked(r, m));
}

#[verifier::rlimit(80)]
proof fn lemma_report_marks(r: ScenarioReport, m: Seq<char>)
    requires
        is_marker(m),
    ensures
        marked_lines(markdown_report(r), m) == report_marked(r, m),
{
    reveal_strlit("Scenario Steps");
    reveal_strlit("Docs Observations");
    reveal_strlit("Provided Secrets");
    reveal_strlit("Missing Secrets");
    reveal_strlit("Generated Files");
    reveal_strlit("Suggestions");
    reveal_strlit("## Commands");
    reveal_strlit("Commands");
    let e = Seq::<char>::empty();
    lemma_literal_no_newline("Scenario Steps"@);
    lemma_literal_no_newline("Docs Observations"@);
    lemma_literal_no_newline("Provided Secrets"@);
    lemma_literal_no_newline("Missing Secrets"@);
    lemma_literal_no_newline("Generated Files"@);
    lemma_literal_no_newline("Suggestions"@);
    lemma_literal_no_newline("Commands"@);
    lemma_head_marks(r, m);
    let s1 = md_list("Scenario Steps"@, r.scenario_steps.deep_view());
    let s2 = md_list("Docs Observations"@, r.docs_observations.deep_view());
    let s3 = md_list("Provided Secrets"@, r.provided_secrets.deep_view());
    let s4 = md_list("Missing Secrets"@, r.missing_secrets.deep_view());
    let s5 = md_list("Generated Files"@, r.generated_files.deep_view());
    let s6 = md_list("Suggestions"@, r.suggestions.deep_view());
    lemma_list_marks("Scenario Steps"@, r.scenario_steps.deep_view(), m);
    lemma_list_marks("Docs Observations"@, r.docs_observations.deep_view(), m);
    lemma_list_marks("Provided Secrets"@, r.provided_secrets.deep_view(), m);
    lemma_list_marks("Missing Secrets"@, r.missing_secrets.deep_view(), m);
    lemma_list_marks("Generated Files"@, r.generated_files.deep_view(), m);
    lemma_list_marks("Suggestions"@, r.suggestions.deep_view(), m);
    assert("## Commands"@ =~= h2() + "Commands"@);
    lemma_heading_line("Commands"@, m);
    lemma_empty_line(m);
    lemma_commands_marks(r.commands@, m);
    let c = md_commands(r.commands@);
    let t1 = md_head(r);
    let t2 = t1 + s1;
    let t3 = t2 + s2;
    let t4 = t3 + s3;
    let t5 = t4 + s4;
    let t6 = t5 + ln("## Commands"@);
    let t7 = t6 + ln(e);
    let t8 = t7 + c;
    let t9 = t8 + s5;
    let t10 = t9 + s6;
    lemma_marked_text_add(t1, s1, m);
    lemma_marked_text_add(t2, s2, m);
    lemma_marked_text_add(t3, s3, m);
    lemma_marked_text_add(t4, s4, m);
    lemma_marked_text_add(t5, ln("## Commands"@), m);
    lemma_marked_text_add(t6, ln(e), m);
    lemma_marked_text_add(t7, c, m);
    lemma_marked_text_add(t8, s5, m);
    lemma_marked_text_add(t9, s6, m);
    assert(markdown_report(r) == t10);
    assert(marked_lines(t10, m) =~= report_marked(r, m));
}

/// A report's second-level headings, for every report: its lines that
/// start with `## ` are, in order, those its title, backend and run
/// directory lines bring, `## Summary`, those of the summary,
/// `## Reproduction`, those of the reproduction command, then for each of
/// Scenario Steps, Docs Observations, Provided Secrets and Missing Secrets
/// its heading and those of its items, `## Commands` and those of the
/// command sections, and the headings and items of Generated Files and
/// Suggestions (`report_marked`).
pub proof fn lemma_report_heading_lines(r: ScenarioReport)
    ensures
        marked_lines(markdown_report(r), "## "@) == report_marked(r, "## "@),
{
    assert("## "@ =~= h2()) by {
        reveal_strlit("## ");
    }
    lemma_report_marks(r, h2());
}

/// A report's third-level headings, for every report: its lines that start
/// with `### ` are, in order, those its texts before the commands bring,
/// then for each command its `### PASS: ` or `### FAIL: ` line followed by
/// those of its own texts, then those of the last two lists
/// (`report_marked`, where each command adds `command_marked`).
pub proof fn lemma_command_heading_lines(r: ScenarioReport)
    ensures
        marked_lines(markdown_report(r), "### "@) == report_marked(r, "### "@),
{
    assert("### "@ =~= h3()) by {
        reveal_strlit("### ");
    }
    lemma_report_marks(r, h3());
}

proof fn lemma_items_free(xs: Seq<Seq<char>>, m: Seq<char>)
    requires
        items_free_of(xs, m),
    ensures
        items_marked(xs, m) == Seq::<Seq<char>>::empty(),
    decreases xs.len(),
{
    if xs.len() > 0 {
        let rest = xs.drop_first();
        assert forall|i: int| 0 <= i < rest.len() implies free_of(#[trigger] rest[i], m) by {
            assert(rest[i] == xs[i + 1]);
        }
        assert(free_of(xs[0], m));
        lemma_tail_empty(xs[0], m);
        lemma_items_free(rest, m);
        assert(items_marked(xs, m) =~= Seq::<Seq<char>>::empty());
    }
}

proof fn lemma_all_free(x: Seq<char>, m: Seq<char>)
    requires
        free_of(x, m),
    ensures
        all_marked(x, m) == Seq::<Seq<char>>::empty(),
{
    assert(all_marked(x, m) =~= Seq::<Seq<char>>::empty());
}

proof fn lemma_output_free(content: Seq<char>, m: Seq<char>)
    requires
        is_marker(m),
        free_of(content, m),
    ensures
        output_marked(content, m) == Seq::<Seq<char>>::empty(),
{
    if trim(content).len() != 0 {
        lemma_trim_end_prefix(content);
        lemma_free_of_take(content, trim_end(content).len() as int, m);
        lemma_all_free(trim_end(content), m);
    }
}

proof fn lemma_ticked_free(x: Seq<char>, m: Seq<char>)
    requires
        is_marker(m),
        free_of(x, m),
    ensures
        tail_marked(x + "`"@, m) == Seq::<Seq<char>>::empty(),
{
    reveal_strlit("`");
    lemma_literal_no_newline("`"@);
    lemma_marker_facts(m);
    lemma_free_of_append(x, "`"@, m);
    lemma_tail_empty(x + "`"@, m);
}

proof fn lemma_commands_free(cs: Seq<CommandResult>, m: Seq<char>)
    requires
        is_marker(m),
        forall|i: int| 0 <= i < cs.len() ==> command_free_of(#[trigger] cs[i], m),
        m == h3() ==> forall|i: int| 0 <= i < cs.len() ==> no_newline(#[trigger] cs[i].label@),
    ensures
        commands_marked(cs, m) == (if m == h3() {
            command_headings(cs)
        } else {
            Seq::<Seq<char>>::empty()
        }),
    decreases cs.len(),
{
    if cs.len() == 0 {
        assert(command_headings(cs) =~= Seq::<Seq<char>>::empty());
    } else {
        let c = cs[0];
        let rest = cs.drop_first();
        assert forall|i: int| 0 <= i < rest.len() implies command_free_of(#[trigger] rest[i], m) by {
            assert(rest[i] == cs[i + 1]);
        }
        if m == h3() {
            assert forall|i: int| 0 <= i < rest.len() implies no_newline(#[trigger] rest[i].label@) by {
                assert(rest[i] == cs[i + 1]);
            }
            assert(no_newline(c.label@));
            lemma_split_single(c.label@);
            assert(command_heading_line(c) == command_heading(c));
        }
        assert(command_free_of(c, m));
        lemma_tail_empty(c.label@, m);
        lemma_ticked_free(c.command@, m);
        lemma_ticked_free(c.cwd@, m);
        lemma_output_free(c.stdout@, m);
        lemma_output_free(c.stderr@, m);
        lemma_commands_free(rest, m);
        assert(command_headings(cs) =~= seq![command_heading(c)] + command_headings(rest));
        assert(commands_marked(cs, m) =~= (if m == h3() {
            command_headings(cs)
        } else {
            Seq::<Seq<char>>::empty()
        }));
    }
}

proof fn lemma_texts_free(r: ScenarioReport, m: Seq<char>)
    requires
        is_marker(m),
        report_free_of(r, m),
    ensures
        tail_marked(r.title@, m) == Seq::<Seq<char>>::empty(),
        tail_marked(r.backend@ + "`"@, m) == Seq::<Seq<char>>::empty(),
        tail_marked(r.run_dir@ + "`"@, m) == Seq::<Seq<char>>::empty(),
        all_marked(r.summary@, m) == Seq::<Seq<char>>::empty(),
        all_marked(r.reproduction@, m) == Seq::<Seq<char>>::empty(),
        items_marked(r.scenario_steps.deep_view(), m) == Seq::<Seq<char>>::empty(),
        items_marked(r.docs_observations.deep_view(), m) == Seq::<Seq<char>>::empty(),
        items_marked(r.provided_secrets.deep_view(), m) == Seq::<Seq<char>>::empty(),
        items_marked(r.missing_secrets.deep_view(), m) == Seq::<Seq<char>>::empty(),
        items_marked(r.generated_files.deep_view(), m) == Seq::<Seq<char>>::empty(),
        items_marked(r.suggestions.deep_view(), m) == Seq::<Seq<char>>::empty(),
{
    lemma_tail_empty(r.title@, m);
    lemma_ticked_free(r.backend@, m);
    lemma_ticked_free(r.run_dir@, m);
    lemma_all_free(r.summary@, m);
    lemma_all_free(r.reproduction@, m);
    lemma_items_free(r.scenario_steps.deep_view(), m);
    lemma_items_free(r.docs_observations.deep_view(), m);
    lemma_items_free(r.provided_secrets.deep_view(), m);
    lemma_items_free(r.missing_secrets.deep_view(), m);
    lemma_items_free(r.generated_files.deep_view(), m);
    lemma_items_free(r.suggestions.deep_view(), m);
}

/// A report's second-level headings when no text of the report has a line
/// that starts with `## `: exactly Summary, Reproduction, Scenario Steps,
/// Docs Observations, Provided Secrets, Missing Secrets, Commands,
/// Generated Files and Suggestions, each once and in this order.
#[verifier::rlimit(60)]
pub proof fn lemma_report_headings(r: ScenarioReport)
    requires
        report_free_of(r, "## "@),
    ensures
        marked_lines(markdown_report(r), "## "@) == seq![
            "## Summary"@,
            "## Reproduction"@,
            "## Scenario Steps"@,
            "## Docs Observations"@,
            "## Provided Secrets"@,
            "## Missing Secrets"@,
            "## Commands"@,
            "## Generated Files"@,
            "## Suggestions"@,
        ],
{
    assert("## "@ =~= h2()) by {
        reveal_strlit("## ");
    }
    lemma_h2_titles();
    lemma_report_marks(r, h2());
    lemma_texts_free(r, h2());
    lemma_commands_free(r.commands@, h2());
    assert(report_marked(r, h2()) =~= seq![
        "## Summary"@,
        "## Reproduction"@,
        "## Scenario Steps"@,
        "## Docs Observations"@,
        "## Provided Secrets"@,
        "## Missing Secrets"@,
        "## Commands"@,
        "## Generated Files"@,
        "## Suggestions"@,
    ]);
}

/// One heading per command when no text of the report has a line that
/// starts with `### ` and no command label holds a newline: the report's
/// lines that start with `### ` are `### PASS: <label>` for each command
/// that succeeded and `### FAIL: <label>` for each other one, in the order
/// of the commands.
pub proof fn lemma_command_headings(r: ScenarioReport)
    requires
        report_free_of(r, "### "@),
        forall|i: int| 0 <= i < r.commands@.len() ==> no_newline(#[trigger] r.commands@[i].label@),
    ensures
        marked_lines(markdown_report(r), "### "@) == command_headings(r.commands@),
{
    assert("### "@ =~= h3()) by {
        reveal_strlit("### ");
    }
    lemma_report_marks(r, h3());
    lemma_texts_free(r, h3());
    lemma_commands_free(r.commands@, h3());
    assert(report_marked(r, h3()) =~= command_headings(r.commands@));
}

// ---------------------------------------------------------------------------
// The lines of a report's parts
// ---------------------------------------------------------------------------

proof fn lemma_one_line(x: Seq<char>)
    requires
        no_newline(x),
    ensures
        doc_lines(ln(x)) == seq![x],
        is_doc(ln(x)),
{
    lemma_ln_lines(x);
    lemma_split_single(x);
}

/// The lines of a command's section head, when its label, command and
/// working directory hold no newline: `### PASS: <label>` when it succeeded
/// and `### FAIL: <label>` otherwise, a blank line, the command, the
/// working directory, the exit code (`signal-or-unknown` without one),
/// whether it timed out (`true` exactly when it did, whatever its exit),
/// its duration in milliseconds, each in backticks, and a blank line.
#[verifier::rlimit(40)]
pub proof fn lemma_command_head_lines(c: CommandResult)
    requires
        no_newline(c.label@),
        no_newline(c.command@),
        no_newline(c.cwd@),
    ensures
        doc_lines(md_command_head(c)) == seq![
            "### "@ + (if c.success {
                "PASS"@
            } else {
                "FAIL"@
            }) + ": "@ + c.label@,
            Seq::<char>::empty(),
            "- Command: `"@ + c.command@ + "`"@,
            "- Cwd: `"@ + c.cwd@ + "`"@,
            "- Exit code: `"@ + (match c.exit_code {
                Some(v) => int_text(v as int),
                None => "signal-or-unknown"@,
            }) + "`"@,
            "- Timed out: `"@ + (if c.timed_out {
                "true"@
            } else {
                "false"@
            }) + "`"@,
            "- Duration: `"@ + dec(c.duration_ms as nat) + " ms`"@,
            Seq::<char>::empty(),
        ],
{
    reveal_strlit("### ");
    reveal_strlit("PASS");
    reveal_strlit("FAIL");
    reveal_strlit(": ");
    reveal_strlit("- Command: `");
    reveal_strlit("`");
    reveal_strlit("- Cwd: `");
    reveal_strlit("- Exit code: `");
    reveal_strlit("- Timed out: `");
    reveal_strlit("- Duration: `");
    reveal_strlit(" ms`");
    reveal_strlit("signal-or-unknown");
    reveal_strlit("true");
    reveal_strlit("false");
    let e = Seq::<char>::empty();
    let tick = "`"@;
    let mark = if c.success {
        "PASS"@
    } else {
        "FAIL"@
    };
    let p1 = "### "@ + mark + ": "@;
    lemma_literal_no_newline(p1);
    lemma_literal_no_newline(tick);
    lemma_literal_no_newline(" ms`"@);
    lemma_literal_no_newline("- Command: `"@);
    lemma_literal_no_newline("- Cwd: `"@);
    lemma_literal_no_newline("- Exit code: `"@);
    lemma_literal_no_newline("- Timed out: `"@);
    lemma_literal_no_newline("- Duration: `"@);
    lemma_literal_no_newline("true"@);
    lemma_literal_no_newline("false"@);
    lemma_literal_no_newline(e);
    let code = exit_code_text(c.exit_code);
    assert(no_newline(code)) by {
        match c.exit_code {
            Some(v) => lemma_int_text_no_newline(v as int),
            None => lemma_literal_no_newline("signal-or-unknown"@),
        }
    }
    let flag = bool_text(c.timed_out);
    let ms = dec(c.duration_ms as nat);
    lemma_dec_no_newline(c.duration_ms as nat);
    let x1 = p1 + c.label@;
    let x3 = "- Command: `"@ + c.command@ + tick;
    let x4 = "- Cwd: `"@ + c.cwd@ + tick;
    let x5 = "- Exit code: `"@ + code + tick;
    let x6 = "- Timed out: `"@ + flag + tick;
    let x7 = "- Duration: `"@ + ms + " ms`"@;
    lemma_no_newline_add(p1, c.label@);
    lemma_no_newline_add("- Command: `"@, c.command@);
    lemma_no_newline_add("- Command: `"@ + c.command@, tick);
    lemma_no_newline_add("- Cwd: `"@, c.cwd@);
    lemma_no_newline_add("- Cwd: `"@ + c.cwd@, tick);
    lemma_no_newline_add("- Exit code: `"@, code);
    lemma_no_newline_add("- Exit code: `"@ + code, tick);
    lemma_no_newline_add("- Timed out: `"@, flag);
    lemma_no_newline_add("- Timed out: `"@ + flag, tick);
    lemma_no_newline_add("- Duration: `"@, ms);
    lemma_no_newline_add("- Duration: `"@ + ms, " ms`"@);
    lemma_one_line(x1);
    lemma_one_line(e);
    lemma_one_line(x3);
    lemma_one_line(x4);
    lemma_one_line(x5);
    lemma_one_line(x6);
    lemma_one_line(x7);
    let t2 = ln(x1) + ln(e);
    let t3 = t2 + ln(x3);
    let t4 = t3 + ln(x4);
    let t5 = t4 + ln(x5);
    let t6 = t5 + ln(x6);
    let t7 = t6 + ln(x7);
    let t8 = t7 + ln(e);
    lemma_doc_lines_add(ln(x1), ln(e));
    lemma_doc_lines_add(t2, ln(x3));
    lemma_doc_lines_add(t3, ln(x4));
    lemma_doc_lines_add(t4, ln(x5));
    lemma_doc_lines_add(t5, ln(x6));
    lemma_doc_lines_add(t6, ln(x7));
    lemma_doc_lines_add(t7, ln(e));
    assert(md_command_head(c) == t8);
    assert(doc_lines(t8) =~= seq![x1, e, x3, x4, x5, x6, x7, e]);
}

/// The lines that open a report, when its title, backend, run directory,
/// summary and reproduction hold no newline: `# <title>`, a blank line, the
/// status (`passed` or `failed`), the failure classification (`none`,
/// `docs`, `product`, `environment`, `unclear-scenario` or
/// `unclear-audit`), the backend and the run directory, each in backticks,
/// a blank line, then `## Summary` with the summary and `## Reproduction`
/// with the command in a `bash` fence, each followed by a blank line.
#[verifier::rlimit(60)]
pub proof fn lemma_report_head_lines(r: ScenarioReport)
    requires
        no_newline(r.title@),
        no_newline(r.backend@),
        no_newline(r.run_dir@),
        no_newline(r.summary@),
        no_newline(r.reproduction@),
    ensures
        doc_lines(md_head(r)) == seq![
            "# "@ + r.title@,
            Seq::<char>::empty(),
            "- Status: `"@ + (match r.status {
                ReportStatus::Passed => "passed"@,
                ReportStatus::Failed => "failed"@,
            }) + "`"@,
            "- Failure classification: `"@ + (match r.classification {
                FailureClassification::NoFailure => "none"@,
                FailureClassification::Docs => "docs"@,
                FailureClassification::Product => "product"@,
                FailureClassification::Environment => "environment"@,
                FailureClassification::UnclearScenario => "unclear-scenario"@,
                FailureClassification::UnclearAudit => "unclear-audit"@,
            }) + "`"@,
            "- Backend: `"@ + r.backend@ + "`"@,
            "- Run dir: `"@ + r.run_dir@ + "`"@,
            Seq::<char>::empty(),
            "## Summary"@,
            Seq::<char>::empty(),
            r.summary@,
            Seq::<char>::empty(),
            "## Reproduction"@,
            Seq::<char>::empty(),
            "```bash"@,
            r.reproduction@,
            "```"@,
            Seq::<char>::empty(),
        ],
{
    reveal_strlit("# ");
    reveal_strlit("- Status: `");
    reveal_strlit("`");
    reveal_strlit("- Failure classification: `");
    reveal_strlit("- Backend: `");
    reveal_strlit("- Run dir: `");
    reveal_strlit("## Summary");
    reveal_strlit("## Reproduction");
    reveal_strlit("```bash");
    reveal_strlit("```");
    reveal_strlit("passed");
    reveal_strlit("failed");
    reveal_strlit("none");
    reveal_strlit("docs");
    reveal_strlit("product");
    reveal_strlit("environment");
    reveal_strlit("unclear-scenario");
    reveal_strlit("unclear-audit");
    lemma_literal_no_newline("# "@);
    lemma_literal_no_newline("- Status: `"@);
    lemma_literal_no_newline("`"@);
    lemma_literal_no_newline("- Failure classification: `"@);
    lemma_literal_no_newline("- Backend: `"@);
    lemma_literal_no_newline("- Run dir: `"@);
    lemma_literal_no_newline("## Summary"@);
    lemma_literal_no_newline("## Reproduction"@);
    lemma_literal_no_newline("```bash"@);
    lemma_literal_no_newline("```"@);
    lemma_literal_no_newline("passed"@);
    lemma_literal_no_newline("failed"@);
    lemma_literal_no_newline("none"@);
    lemma_literal_no_newline("docs"@);
    lemma_literal_no_newline("product"@);
    lemma_literal_no_newline("environment"@);
    lemma_literal_no_newline("unclear-scenario"@);
    lemma_literal_no_newline("unclear-audit"@);
    let e = Seq::<char>::empty();
    let tick = "`"@;
    lemma_literal_no_newline(e);
    let st = status_text(r.status);
    let cl = classification_text(r.classification);
    assert(no_newline(st));
    assert(no_newline(cl));
    let x1 = "# "@ + r.title@;
    let x3 = "- Status: `"@ + st + tick;
    let x4 = "- Failure classification: `"@ + cl + tick;
    let x5 = "- Backend: `"@ + r.backend@ + tick;
    let x6 = "- Run dir: `"@ + r.run_dir@ + tick;
    lemma_no_newline_add("# "@, r.title@);
    lemma_no_newline_add("- Status: `"@, st);
    lemma_no_newline_add("- Status: `"@ + st, tick);
    lemma_no_newline_add("- Failure classification: `"@, cl);
    lemma_no_newline_add("- Failure classification: `"@ + cl, tick);
    lemma_no_newline_add("- Backend: `"@, r.backend@);
    lemma_no_newline_add("- Backend: `"@ + r.backend@, tick);
    lemma_no_newline_add("- Run dir: `"@, r.run_dir@);
    lemma_no_newline_add("- Run dir: `"@ + r.run_dir@, tick);
    lemma_one_line(x1);
    lemma_one_line(e);
    lemma_one_line(x3);
    lemma_one_line(x4);
    lemma_one_line(x5);
    lemma_one_line(x6);
    lemma_one_line("## Summary"@);
    lemma_one_line(r.summary@);
    lemma_one_line("## Reproduction"@);
    lemma_one_line("```bash"@);
    lemma_one_line(r.reproduction@);
    lemma_one_line("```"@);
    let t1 = ln(x1);
    let t2 = t1 + ln(e);
    lemma_doc_lines_add(t1, ln(e));
    let t3 = t2 + ln(x3);
    lemma_doc_lines_add(t2, ln(x3));
    let t4 = t3 + ln(x4);
    lemma_doc_lines_add(t3, ln(x4));
    let t5 = t4 + ln(x5);
    lemma_doc_lines_add(t4, ln(x5));
    let t6 = t5 + ln(x6);
    lemma_doc_lines_add(t5, ln(x6));
    let t7 = t6 + ln(e);
    lemma_doc_lines_add(t6, ln(e));
    let t8 = t7 + ln("## Summary"@);
    lemma_doc_lines_add(t7, ln("## Summary"@));
    let t9 = t8 + ln(e);
    lemma_doc_lines_add(t8, ln(e));
    let t10 = t9 + ln(r.summary@);
    lemma_doc_lines_add(t9, ln(r.summary@));
    let t11 = t10 + ln(e);
    lemma_doc_lines_add(t10, ln(e));
    let t12 = t11 + ln("## Reproduction"@);
    lemma_doc_lines_add(t11, ln("## Reproduction"@));
    let t13 = t12 + ln(e);
    lemma_doc_lines_add(t12, ln(e));
    let t14 = t13 + ln("```bash"@);
    lemma_doc_lines_add(t13, ln("```bash"@));
    let t15 = t14 + ln(r.reproduction@);
    lemma_doc_lines_add(t14, ln(r.reproduction@));
    let t16 = t15 + ln("```"@);
    lemma_doc_lines_add(t15, ln("```"@));
    let t17 = t16 + ln(e);
    lemma_doc_lines_add(t16, ln(e));
    assert(md_head(r) == t17);
    assert(doc_lines(t17) =~= seq![x1, e, x3, x4, x5, x6, e, "## Summary"@, e, r.summary@, e, "## Reproduction"@, e, "```bash"@, r.reproduction@, "```"@, e]);
}

/// The lines of an output block: its `<details>` opening, a blank line and
/// a `text` fence, then `(empty)` when the output is blank and otherwise
/// the lines of the output without its trailing whitespace, then the
/// closing fence, a blank line, `</details>` and a blank line.
pub proof fn lemma_block_lines(title: Seq<char>, content: Seq<char>)
    requires
        no_newline(title),
    ensures
        doc_lines(md_block(title, content)) == seq![
            "<details><summary>"@ + title + "</summary>"@,
            Seq::<char>::empty(),
            "```text"@,
        ] + (if trim(content).len() == 0 {
            seq!["(empty)"@]
        } else {
            split_on(trim_end(content), '\n')
        }) + seq!["```"@, Seq::<char>::empty(), "</details>"@, Seq::<char>::empty()],
{
    reveal_strlit("<details><summary>");
    reveal_strlit("</summary>");
    reveal_strlit("```text");
    reveal_strlit("(empty)");
    reveal_strlit("```");
    reveal_strlit("</details>");
    let e = Seq::<char>::empty();
    let open = "<details><summary>"@;
    let close = "</summary>"@;
    lemma_literal_no_newline(open);
    lemma_literal_no_newline(close);
    lemma_literal_no_newline("```text"@);
    lemma_literal_no_newline("(empty)"@);
    lemma_literal_no_newline("```"@);
    lemma_literal_no_newline("</details>"@);
    lemma_literal_no_newline(e);
    lemma_no_newline_add(open, title);
    lemma_no_newline_add(open + title, close);
    let x1 = open + title + close;
    lemma_one_line(x1);
    lemma_one_line(e);
    lemma_one_line("```text"@);
    lemma_one_line("```"@);
    lemma_one_line("</details>"@);
    let body = if trim(content).len() == 0 {
        ln("(empty)"@)
    } else {
        ln(trim_end(content))
    };
    if trim(content).len() == 0 {
        lemma_one_line("(empty)"@);
    } else {
        lemma_ln_lines(trim_end(content));
    }
    let t2 = ln(x1) + ln(e);
    let t3 = t2 + ln("```text"@);
    let t4 = t3 + body;
    let t5 = t4 + ln("```"@);
    let t6 = t5 + ln(e);
    let t7 = t6 + ln("</details>"@);
    let t8 = t7 + ln(e);
    lemma_doc_lines_add(ln(x1), ln(e));
    lemma_doc_lines_add(t2, ln("```text"@));
    lemma_doc_lines_add(t3, body);
    lemma_doc_lines_add(t4, ln("```"@));
    lemma_doc_lines_add(t5, ln(e));
    lemma_doc_lines_add(t6, ln("</details>"@));
    lemma_doc_lines_add(t7, ln(e));
    assert(md_block(title, content) == t8);
    assert(doc_lines(t8) =~= seq![x1, e, "```text"@] + doc_lines(body) + seq![
        "```"@,
        e,
        "</details>"@,
        e,
    ]);
}

} // verus!
