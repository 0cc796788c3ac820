//! Paths as `std::path` reads them on Windows: `/` and `\` both separate
//! components, and a path may open with a prefix: a drive (`C:`), a share
//! (`\\server\share`), a device (`\\.\COM1`) or a verbatim path (`\\?\...`,
//! inside which only `\` separates).
use vstd::prelude::*;

use crate::text::{owned, push_str, split_on, split_text, string_from_chars, to_chars};

verus! {

pub open spec fn is_sep_w(c: char) -> bool {
    c == '/' || c == '\\'
}

/// A separator between the parts of a prefix: only `\` in a verbatim one.
pub open spec fn is_part_sep(c: char, verbatim: bool) -> bool {
    c == '\\' || (!verbatim && c == '/')
}

/// Length of the text before the first separator.
pub open spec fn part_len(s: Seq<char>, verbatim: bool) -> nat
    decreases s.len(),
{
    if s.len() == 0 || is_part_sep(s[0], verbatim) {
        0
    } else {
        1 + part_len(s.drop_first(), verbatim)
    }
}

/// The character at `i` as prefix detection reads it: among the first
/// eight, `/` counts as `\`.
pub open spec fn pchar(p: Seq<char>, i: int) -> char {
    if i < 8 && p[i] == '/' {
        '\\'
    } else {
        p[i]
    }
}

pub open spec fn is_ascii_alpha(c: char) -> bool {
    ('a' <= c && c <= 'z') || ('A' <= c && c <= 'Z')
}

pub open spec fn ascii_upper(c: char) -> char {
    if 'a' <= c && c <= 'z' {
        ((c as u32) - 32) as char
    } else {
        c
    }
}

/// The kinds of Windows path prefix (`std::path::Prefix`).
#[derive(Clone, Copy, Debug, PartialEq, Eq, Structural)]
pub enum PrefixKind {
    Verbatim,
    VerbatimUnc,
    VerbatimDisk,
    DeviceNs,
    Unc,
    Disk,
}

/// A server and a share after `start`, and the length they take.
pub open spec fn server_share(p: Seq<char>, start: int, verbatim: bool) -> (nat, Seq<char>, Seq<char>) {
    let a = p.skip(start);
    let sl = part_len(a, verbatim);
    let b = if sl < a.len() {
        a.skip(sl + 1int)
    } else {
        Seq::<char>::empty()
    };
    let hl = part_len(b, verbatim);
    (
        sl + if hl > 0 {
            1 + hl
        } else {
            0
        },
        a.take(sl as int),
        b.take(hl as int),
    )
}

/// The prefix of `p`: its kind, its length, and the parts that identify
/// it (the drive letter in upper case, or the names in it).
pub open spec fn win_prefix(p: Seq<char>) -> Option<(PrefixKind, int, Seq<char>, Seq<char>)> {
    if p.len() >= 2 && pchar(p, 0) == '\\' && pchar(p, 1) == '\\' {
        if p.len() >= 4 && p[0] == '\\' && p[1] == '\\' && p[2] == '?' && p[3] == '\\' {
            if p.len() >= 8 && p[4] == 'U' && p[5] == 'N' && p[6] == 'C' && pchar(p, 7) == '\\' {
                let (l, server, share) = server_share(p, 8, true);
                Some((PrefixKind::VerbatimUnc, 8 + l as int, server, share))
            } else if p.len() >= 6 && is_ascii_alpha(p[4]) && p[5] == ':' && (p.len() == 6 || is_sep_w(
                p[6],
            )) {
                Some((PrefixKind::VerbatimDisk, 6, seq![ascii_upper(p[4])], Seq::<char>::empty()))
            } else {
                let l = part_len(p.skip(4), true);
                Some((PrefixKind::Verbatim, 4 + l as int, p.skip(4).take(l as int), Seq::<char>::empty()))
            }
        } else if p.len() >= 4 && pchar(p, 2) == '.' && pchar(p, 3) == '\\' {
            let l = part_len(p.skip(4), false);
            Some((PrefixKind::DeviceNs, 4 + l as int, p.skip(4).take(l as int), Seq::<char>::empty()))
        } else {
            let (l, server, share) = server_share(p, 2, false);
            if server.len() > 0 && share.len() > 0 {
                Some((PrefixKind::Unc, 2 + l as int, server, share))
            } else {
                None
            }
        }
    } else if p.len() >= 2 && is_ascii_alpha(p[0]) && p[1] == ':' {
        Some((PrefixKind::Disk, 2, seq![ascii_upper(p[0])], Seq::<char>::empty()))
    } else {
        None
    }
}

pub open spec fn prefix_len_w(p: Seq<char>) -> int {
    match win_prefix(p) {
        Some(t) => t.1,
        None => 0,
    }
}

pub open spec fn is_verbatim_w(p: Seq<char>) -> bool {
    match win_prefix(p) {
        Some(t) => t.0 == PrefixKind::Verbatim || t.0 == PrefixKind::VerbatimUnc || t.0
            == PrefixKind::VerbatimDisk,
        None => false,
    }
}

pub open spec fn is_disk_w(p: Seq<char>) -> bool {
    match win_prefix(p) {
        Some(t) => t.0 == PrefixKind::Disk,
        None => false,
    }
}

/// A separator right after the prefix.
pub open spec fn physical_root_w(p: Seq<char>) -> bool {
    let l = prefix_len_w(p);
    0 <= l < p.len() && is_sep_w(p[l])
}

/// `Path::has_root`: a separator after the prefix, or a prefix other than
/// a drive, which implies one.
pub open spec fn has_root_w(p: Seq<char>) -> bool {
    physical_root_w(p) || (win_prefix(p) is Some && !is_disk_w(p))
}

/// `Path::is_absolute`: a prefix and a root.
pub open spec fn is_absolute_w(p: Seq<char>) -> bool {
    has_root_w(p) && win_prefix(p) is Some
}

pub open spec fn slash_to_backslash(c: char) -> char {
    if c == '/' {
        '\\'
    } else {
        c
    }
}

/// The pieces of a path body between separators, empty ones included.
pub open spec fn body_segments_w(s: Seq<char>, verbatim: bool) -> Seq<Seq<char>> {
    if verbatim {
        split_on(s, '\\')
    } else {
        split_on(s.map_values(|c: char| slash_to_backslash(c)), '\\')
    }
}

/// A body piece that is a component: nonempty, and not `.` outside a
/// verbatim path (there `.` is kept as the current directory).
pub open spec fn keep_segment(s: Seq<char>, verbatim: bool) -> bool {
    s.len() > 0 && (verbatim || s != seq!['.'])
}

pub open spec fn keep_filter(verbatim: bool) -> spec_fn(Seq<char>) -> bool {
    |s: Seq<char>| keep_segment(s, verbatim)
}

/// The text of the root component.
pub open spec fn root_w() -> Seq<char> {
    seq!['\\']
}

/// Whether the path opens with a `.` component (`./x`, `.`), which stays
/// when there is neither prefix nor root.
pub open spec fn cur_dir_lead_w(rest: Seq<char>) -> bool {
    rest.len() > 0 && rest[0] == '.' && (rest.len() == 1 || is_sep_w(rest[1]))
}

/// The components of `p` as text (`Path::components`, each as `as_os_str`):
/// the prefix, a root (`\`) or a leading `.`, then the body's components.
pub open spec fn components_w(p: Seq<char>) -> Seq<Seq<char>> {
    let l = prefix_len_w(p);
    let v = is_verbatim_w(p);
    let rest = p.skip(l);
    let phys = physical_root_w(p);
    let pre: Seq<Seq<char>> = if l > 0 {
        seq![p.take(l)]
    } else {
        seq![]
    };
    let lead: Seq<Seq<char>> = if phys || (l > 0 && !is_disk_w(p) && !v) {
        seq![root_w()]
    } else if l == 0 && cur_dir_lead_w(rest) {
        seq![seq!['.']]
    } else {
        seq![]
    };
    let body = if phys {
        rest.skip(1)
    } else {
        rest
    };
    pre + lead + body_segments_w(body, v).filter(keep_filter(v))
}

/// `Path::file_name`: the last component when it names a file or directory.
pub open spec fn file_name_w(p: Seq<char>) -> Option<Seq<char>> {
    let c = components_w(p);
    if c.len() > 0 && !(c.len() == 1 && prefix_len_w(p) > 0) && c.last() != root_w() && c.last()
        != seq!['.'] && c.last() != seq!['.', '.'] {
        Some(c.last())
    } else {
        None
    }
}

/// Two paths agree on their component at `i`: prefixes compare by kind and
/// parts (so `c:` and `C:` agree), other components by their text.
pub open spec fn component_agrees_w(path: Seq<char>, base: Seq<char>, i: int) -> bool {
    if i == 0 && (prefix_len_w(path) > 0 || prefix_len_w(base) > 0) {
        match (win_prefix(path), win_prefix(base)) {
            (Some(a), Some(b)) => a.0 == b.0 && a.2 == b.2 && a.3 == b.3,
            _ => false,
        }
    } else {
        components_w(path)[i] == components_w(base)[i]
    }
}

/// `Path::strip_prefix`: the components of `path` after those of `base`.
pub open spec fn strip_prefix_w(path: Seq<char>, base: Seq<char>) -> Option<Seq<Seq<char>>> {
    let pc = components_w(path);
    let bc = components_w(base);
    if bc.len() <= pc.len() && forall|i: int| 0 <= i < bc.len() ==> component_agrees_w(path, base, i) {
        Some(pc.skip(bc.len() as int))
    } else {
        None
    }
}

/// `PathBuf::push` would add a separator before a relative path.
pub open spec fn need_sep_w(base: Seq<char>) -> bool {
    base.len() > 0 && !is_sep_w(base.last()) && !(is_disk_w(base) && prefix_len_w(base)
        == base.len())
}

pub open spec fn is_normal_text_w(c: Seq<char>) -> bool {
    c != root_w() && c != seq!['.'] && c != seq!['.', '.']
}

/// One component of a relative path applied to the components of a
/// verbatim base: a root keeps only the prefix, `.` is dropped, `..` drops
/// a name, anything else is added.
pub open spec fn verbatim_step(buf: Seq<Seq<char>>, c: Seq<char>) -> Seq<Seq<char>> {
    if c == root_w() {
        buf.take(1).push(c)
    } else if c == seq!['.'] {
        buf
    } else if c == seq!['.', '.'] {
        if buf.len() > 1 && is_normal_text_w(buf.last()) {
            buf.drop_last()
        } else {
            buf
        }
    } else {
        buf.push(c)
    }
}

pub open spec fn verbatim_fold(buf: Seq<Seq<char>>, rc: Seq<Seq<char>>) -> Seq<Seq<char>>
    decreases rc.len(),
{
    if rc.len() == 0 {
        buf
    } else {
        verbatim_step(verbatim_fold(buf, rc.drop_last()), rc.last())
    }
}

/// Components written back with `\` between them: none after a root, and
/// `first_needs_sep` says whether the first one follows a component.
pub open spec fn rebuild_w(cs: Seq<Seq<char>>, first_needs_sep: bool) -> Seq<char>
    decreases cs.len(),
{
    if cs.len() == 0 {
        seq![]
    } else {
        let prev = cs.drop_last();
        let needs = if prev.len() == 0 {
            first_needs_sep
        } else {
            prev.last() != root_w()
        };
        rebuild_w(prev, first_needs_sep) + (if needs && cs.last() != root_w() {
            seq!['\\']
        } else {
            seq![]
        }) + cs.last()
    }
}

/// `base.join(rel)` (`PathBuf::push`): an absolute `rel` or one with a
/// prefix replaces `base`; a verbatim `base` is rebuilt from components; a
/// `rel` with a root keeps only the prefix of `base`; otherwise `\` is
/// added when needed.
pub open spec fn path_join_w(base: Seq<char>, rel: Seq<char>) -> Seq<char> {
    if is_absolute_w(rel) || prefix_len_w(rel) > 0 {
        rel
    } else if is_verbatim_w(base) && rel.len() > 0 {
        let buf = verbatim_fold(components_w(base), components_w(rel));
        buf[0] + rebuild_w(buf.drop_first(), true)
    } else if has_root_w(rel) {
        base.take(prefix_len_w(base)) + rel
    } else if need_sep_w(base) {
        base + seq!['\\'] + rel
    } else {
        base + rel
    }
}

/// Names pushed one after the other onto an empty path.
pub open spec fn pushed_w(names: Seq<Seq<char>>) -> Seq<char>
    decreases names.len(),
{
    if names.len() == 0 {
        seq![]
    } else {
        path_join_w(pushed_w(names.drop_last()), names.last())
    }
}

/// No character of `x` separates.
pub open spec fn no_sep_w(x: Seq<char>) -> bool {
    forall|j: int| 0 <= j < x.len() ==> !is_sep_w(#[trigger] x[j])
}

/// A text that `pushed_w` builds from plain names: empty, or neither
/// starting nor ending with a separator and without a prefix.
pub open spec fn plain_join_w(c: Seq<char>) -> bool {
    c.len() == 0 || (!is_sep_w(c[0]) && !is_sep_w(c.last()) && win_prefix(c) is None)
}

/// Names without separators or a drive prefix, pushed one after the other,
/// give a text without prefix or root.
pub proof fn lemma_pushed_plain(names: Seq<Seq<char>>)
    requires
        forall|k: int|
            0 <= k < names.len() ==> (#[trigger] names[k]).len() > 0 && no_sep_w(names[k])
                && win_prefix(names[k]) is None,
    ensures
        plain_join_w(pushed_w(names)),
    decreases names.len(),
{
    if names.len() > 0 {
        let prev = names.drop_last();
        assert forall|k: int| 0 <= k < prev.len() implies (#[trigger] prev[k]).len() > 0 && no_sep_w(
            prev[k],
        ) && win_prefix(prev[k]) is None by {
            assert(prev[k] == names[k]);
        }
        lemma_pushed_plain(prev);
        let a = pushed_w(prev);
        let x = names.last();
        assert(x.len() > 0 && no_sep_w(x) && win_prefix(x) is None);
        assert(!is_sep_w(x[0]));
        assert(!is_sep_w(x.last()));
        assert(!physical_root_w(x));
        assert(!has_root_w(x));
        assert(!is_verbatim_w(a));
        if a.len() == 0 {
            assert(a + x =~= x);
        } else {
            let c = a + seq!['\\'] + x;
            assert(need_sep_w(a));
            assert(c[0] == a[0]);
            assert(c.last() == x.last());
            if a.len() >= 2 {
                assert(c[1] == a[1]);
            } else {
                assert(c[1] == '\\');
            }
        }
    }
}

// ---------------------------------------------------------------------------
// Executable functions
// ---------------------------------------------------------------------------

/// The characters of `s` from `from` to `to`.
pub(crate) fn slice_chars(s: &Vec<char>, from: usize, to: usize) -> (r: Vec<char>)
    requires
        from <= to <= s.len(),
    ensures
        r@ == s@.subrange(from as int, to as int),
{
    let mut r: Vec<char> = Vec::new();
    let mut i: usize = from;
    while i < to
        invariant
            from <= i <= to <= s.len(),
            r@ == s@.subrange(from as int, i as int),
        decreases to - i,
    {
        r.push(s[i]);
        assert(s@.subrange(from as int, i + 1) =~= s@.subrange(from as int, i as int).push(s@[i as int]));
        i = i + 1;
    }
    r
}

pub(crate) fn chars_eq(a: &Vec<char>, b: &Vec<char>) -> (r: bool)
    ensures
        r == (a@ == b@),
{
    if a.len() != b.len() {
        return false;
    }
    let mut i: usize = 0;
    while i < a.len()
        invariant
            i <= a.len() == b.len(),
            forall|j: int| 0 <= j < i ==> a@[j] == b@[j],
        decreases a.len() - i,
    {
        if a[i] != b[i] {
            return false;
        }
        i = i + 1;
    }
    assert(a@ =~= b@);
    true
}

fn is_part_sep_exec(c: char, verbatim: bool) -> (r: bool)
    ensures
        r == is_part_sep(c, verbatim),
{
    c == '\\' || (!verbatim && c == '/')
}

pub(crate) fn is_sep_w_exec(c: char) -> (r: bool)
    ensures
        r == is_sep_w(c),
{
    c == '/' || c == '\\'
}

fn part_len_at(s: &Vec<char>, start: usize, verbatim: bool) -> (r: usize)
    requires
        start <= s.len(),
    ensures
        r == part_len(s@.skip(start as int), verbatim),
        r <= s.len() - start,
{
    let mut i: usize = start;
    while i < s.len() && !is_part_sep_exec(s[i], verbatim)
        invariant
            start <= i <= s.len(),
            part_len(s@.skip(start as int), verbatim) == (i - start) + part_len(
                s@.skip(i as int),
                verbatim,
            ),
        decreases s.len() - i,
    {
        assert(s@.skip(i as int).drop_first() =~= s@.skip(i + 1));
        assert(s@.skip(i as int)[0] == s@[i as int]);
        i = i + 1;
    }
    if i < s.len() {
        assert(s@.skip(i as int)[0] == s@[i as int]);
    }
    i - start
}

fn pchar_exec(p: &Vec<char>, i: usize) -> (r: char)
    requires
        i < p.len(),
    ensures
        r == pchar(p@, i as int),
{
    if i < 8 && p[i] == '/' {
        '\\'
    } else {
        p[i]
    }
}

fn is_ascii_alpha_exec(c: char) -> (r: bool)
    ensures
        r == is_ascii_alpha(c),
{
    ('a' <= c && c <= 'z') || ('A' <= c && c <= 'Z')
}

fn ascii_upper_exec(c: char) -> (r: char)
    ensures
        r == ascii_upper(c),
{
    if 'a' <= c && c <= 'z' {
        ((c as u8) - 32) as char
    } else {
        c
    }
}

fn server_share_exec(p: &Vec<char>, start: usize, verbatim: bool) -> (r: (usize, Vec<char>, Vec<char>))
    requires
        start <= p.len(),
    ensures
        r.0 == server_share(p@, start as int, verbatim).0,
        r.1@ == server_share(p@, start as int, verbatim).1,
        r.2@ == server_share(p@, start as int, verbatim).2,
        start + r.0 <= p.len(),
{
    let ghost a = p@.skip(start as int);
    let sl = part_len_at(p, start, verbatim);
    let server = slice_chars(p, start, start + sl);
    assert(a.take(sl as int) =~= p@.subrange(start as int, start + sl));
    let mut hl: usize = 0;
    let mut share: Vec<char> = Vec::new();
    if start + sl < p.len() {
        let bstart = start + sl + 1;
        assert(a.skip(sl + 1int) =~= p@.skip(bstart as int));
        hl = part_len_at(p, bstart, verbatim);
        share = slice_chars(p, bstart, bstart + hl);
        assert(p@.skip(bstart as int).take(hl as int) =~= p@.subrange(bstart as int, bstart + hl));
    } else {
        assert(Seq::<char>::empty().take(0) =~= Seq::<char>::empty());
        assert(share@ =~= Seq::<char>::empty());
    }
    let l = if hl > 0 {
        sl + 1 + hl
    } else {
        sl
    };
    (l, server, share)
}

/// The prefix of `p` (see `win_prefix`).
pub fn win_prefix_exec(p: &Vec<char>) -> (r: Option<(PrefixKind, usize, Vec<char>, Vec<char>)>)
    ensures
        match r {
            Some(t) => win_prefix(p@) == Some((t.0, t.1 as int, t.2@, t.3@)),
            None => win_prefix(p@) is None,
        },
        match r {
            Some(t) => 0 < t.1 <= p.len(),
            None => true,
        },
{
    let n = p.len();
    if n >= 2 && pchar_exec(p, 0) == '\\' && pchar_exec(p, 1) == '\\' {
        if n >= 4 && p[0] == '\\' && p[1] == '\\' && p[2] == '?' && p[3] == '\\' {
            if n >= 8 && p[4] == 'U' && p[5] == 'N' && p[6] == 'C' && pchar_exec(p, 7) == '\\' {
                let (l, server, share) = server_share_exec(p, 8, true);
                Some((PrefixKind::VerbatimUnc, 8 + l, server, share))
            } else if n >= 6 && is_ascii_alpha_exec(p[4]) && p[5] == ':' && (n == 6 || is_sep_w_exec(
                p[6],
            )) {
                let d = vec![ascii_upper_exec(p[4])];
                assert(d@ =~= seq![ascii_upper(p@[4])]);
                Some((PrefixKind::VerbatimDisk, 6, d, Vec::new()))
            } else {
                let l = part_len_at(p, 4, true);
                let name = slice_chars(p, 4, 4 + l);
                assert(p@.skip(4).take(l as int) =~= p@.subrange(4, 4 + l));
                Some((PrefixKind::Verbatim, 4 + l, name, Vec::new()))
            }
        } else if n >= 4 && pchar_exec(p, 2) == '.' && pchar_exec(p, 3) == '\\' {
            let l = part_len_at(p, 4, false);
            let name = slice_chars(p, 4, 4 + l);
            assert(p@.skip(4).take(l as int) =~= p@.subrange(4, 4 + l));
            Some((PrefixKind::DeviceNs, 4 + l, name, Vec::new()))
        } else {
            let (l, server, share) = server_share_exec(p, 2, false);
            if server.len() > 0 && share.len() > 0 {
                Some((PrefixKind::Unc, 2 + l, server, share))
            } else {
                None
            }
        }
    } else if n >= 2 && is_ascii_alpha_exec(p[0]) && p[1] == ':' {
        let d = vec![ascii_upper_exec(p[0])];
        assert(d@ =~= seq![ascii_upper(p@[0])]);
        Some((PrefixKind::Disk, 2, d, Vec::new()))
    } else {
        None
    }
}

fn is_verbatim_kind(k: PrefixKind) -> (r: bool)
    ensures
        r == (k == PrefixKind::Verbatim || k == PrefixKind::VerbatimUnc || k == PrefixKind::VerbatimDisk),
{
    match k {
        PrefixKind::Verbatim | PrefixKind::VerbatimUnc | PrefixKind::VerbatimDisk => true,
        _ => false,
    }
}

/// What components and joins need to know of a path's start: the prefix
/// length, whether it is verbatim, a drive, and has a separator after it.
pub(crate) fn path_head(p: &Vec<char>) -> (r: (usize, bool, bool, bool))
    ensures
        r.0 == prefix_len_w(p@),
        r.1 == is_verbatim_w(p@),
        r.2 == is_disk_w(p@),
        r.3 == physical_root_w(p@),
        r.0 <= p.len(),
        (r.0 > 0) == (win_prefix(p@) is Some),
{
    match win_prefix_exec(p) {
        Some(t) => {
            let l = t.1;
            let phys = l < p.len() && is_sep_w_exec(p[l]);
            (l, is_verbatim_kind(t.0), t.0 == PrefixKind::Disk, phys)
        },
        None => {
            let phys = 0 < p.len() && is_sep_w_exec(p[0]);
            (0, false, false, phys)
        },
    }
}

/// The components of a body: its pieces between separators, without the
/// empty ones (and, outside a verbatim path, without `.`).
pub(crate) fn body_components(body: &Vec<char>, verbatim: bool) -> (r: Vec<String>)
    ensures
        r.deep_view() == body_segments_w(body@, verbatim).filter(keep_filter(verbatim)),
{
    let mut norm: Vec<char> = Vec::new();
    let mut i: usize = 0;
    while i < body.len()
        invariant
            i <= body.len(),
            norm.len() == i,
            forall|j: int| 0 <= j < i ==> norm@[j] == (if verbatim {
                body@[j]
            } else {
                slash_to_backslash(body@[j])
            }),
        decreases body.len() - i,
    {
        let c = body[i];
        if !verbatim && c == '/' {
            norm.push('\\');
        } else {
            norm.push(c);
        }
        i = i + 1;
    }
    proof {
        if verbatim {
            assert(norm@ =~= body@);
        } else {
            assert(norm@ =~= body@.map_values(|c: char| slash_to_backslash(c)));
        }
    }
    let text = string_from_chars(&norm);
    let segs = split_text(text.as_str(), '\\');
    let ghost sv = segs.deep_view();
    let ghost pred = keep_filter(verbatim);
    let mut r: Vec<String> = Vec::new();
    let mut k: usize = 0;
    assert(sv.take(0) =~= Seq::<Seq<char>>::empty());
    assert(r.deep_view() =~= sv.take(0).filter(pred)) by {
        reveal(Seq::filter);
    }
    while k < segs.len()
        invariant
            k <= segs.len(),
            sv == segs.deep_view(),
            pred == keep_filter(verbatim),
            r.deep_view() == sv.take(k as int).filter(pred),
        decreases segs.len() - k,
    {
        let ghost before = r.deep_view();
        assert(sv[k as int] == segs[k as int]@);
        assert(sv.take(k + 1) =~= sv.take(k as int).push(sv[k as int]));
        proof {
            sv.take(k as int).lemma_filter_push(sv[k as int], pred);
        }
        let seg = to_chars(segs[k].as_str());
        let keep = seg.len() > 0 && (verbatim || !(seg.len() == 1 && seg[0] == '.'));
        proof {
            if seg@.len() == 1 {
                assert(seg@ =~= seq![seg@[0]]);
            } else {
                assert(seg@ != seq!['.']);
            }
        }
        if keep {
            r.push(segs[k].clone());
            assert(r.deep_view() =~= before.push(sv[k as int]));
        }
        k = k + 1;
    }
    assert(sv.take(segs.len() as int) =~= sv);
    r
}

/// The components of `p` (`Path::components` on Windows).
pub fn win_components(p: &str) -> (r: Vec<String>)
    ensures
        r.deep_view() == components_w(p@),
{
    let chars = to_chars(p);
    let (l, v, disk, phys) = path_head(&chars);
    let mut r: Vec<String> = Vec::new();
    if l > 0 {
        let pre = slice_chars(&chars, 0, l);
        assert(pre@ =~= p@.take(l as int));
        r.push(string_from_chars(&pre));
    }
    let ghost pre_s: Seq<Seq<char>> = if l > 0 {
        seq![p@.take(l as int)]
    } else {
        seq![]
    };
    assert(r.deep_view() =~= pre_s);
    let ghost rest = p@.skip(l as int);
    let ghost lead: Seq<Seq<char>> = if phys || (l > 0 && !disk && !v) {
        seq![root_w()]
    } else if l == 0 && cur_dir_lead_w(rest) {
        seq![seq!['.']]
    } else {
        seq![]
    };
    let n = chars.len();
    if phys || (l > 0 && !disk && !v) {
        let mut root: Vec<char> = Vec::new();
        root.push('\\');
        assert(root@ =~= root_w());
        r.push(string_from_chars(&root));
    } else if l == 0 && n > 0 && chars[0] == '.' && (n == 1 || is_sep_w_exec(chars[1])) {
        let mut dot: Vec<char> = Vec::new();
        dot.push('.');
        assert(dot@ =~= seq!['.']);
        assert(rest =~= p@);
        r.push(string_from_chars(&dot));
    } else {
        proof {
            if l == 0 {
                assert(rest =~= p@);
            }
        }
    }
    assert(r.deep_view() =~= pre_s + lead);
    let start = if phys {
        l + 1
    } else {
        l
    };
    let body = slice_chars(&chars, start, n);
    assert(body@ =~= (if phys {
        rest.skip(1)
    } else {
        rest
    }));
    let comps = body_components(&body, v);
    let ghost before = r.deep_view();
    let mut i: usize = 0;
    while i < comps.len()
        invariant
            i <= comps.len(),
            r.deep_view() == before + comps.deep_view().take(i as int),
        decreases comps.len() - i,
    {
        let ghost b = r.deep_view();
        r.push(comps[i].clone());
        assert(comps.deep_view()[i as int] == comps[i as int]@);
        assert(r.deep_view() =~= b.push(comps[i as int]@));
        assert(comps.deep_view().take(i + 1) =~= comps.deep_view().take(i as int).push(
            comps.deep_view()[i as int],
        ));
        i = i + 1;
    }
    assert(comps.deep_view().take(comps.len() as int) =~= comps.deep_view());
    r
}

fn is_text(s: &String, t: &str) -> (r: bool)
    ensures
        r == (s@ == t@),
{
    let a = to_chars(s.as_str());
    let b = to_chars(t);
    chars_eq(&a, &b)
}

/// `Path::file_name` on Windows.
pub fn win_file_name(p: &str) -> (r: Option<String>)
    ensures
        match r {
            Some(n) => file_name_w(p@) == Some(n@),
            None => file_name_w(p@).is_none(),
        },
{
    let chars = to_chars(p);
    let (l, _v, _disk, _phys) = path_head(&chars);
    let c = win_components(p);
    if c.len() == 0 || (c.len() == 1 && l > 0) {
        return None;
    }
    let last = &c[c.len() - 1];
    assert(last@ == c.deep_view().last());
    proof {
        reveal_strlit("\\");
        reveal_strlit(".");
        reveal_strlit("..");
        assert("\\"@ =~= root_w());
        assert("."@ =~= seq!['.']);
        assert(".."@ =~= seq!['.', '.']);
    }
    if is_text(last, "\\") || is_text(last, ".") || is_text(last, "..") {
        None
    } else {
        Some(last.clone())
    }
}

/// `path.strip_prefix(base)` on Windows: the components after those of
/// `base`, when `base` is a component-wise prefix of `path`.
pub fn win_strip_prefix(path: &str, base: &str) -> (r: Option<Vec<String>>)
    ensures
        match r {
            Some(rest) => strip_prefix_w(path@, base@) == Some(rest.deep_view()),
            None => strip_prefix_w(path@, base@) is None,
        },
{
    let pv = to_chars(path);
    let bv = to_chars(base);
    let pp = win_prefix_exec(&pv);
    let bp = win_prefix_exec(&bv);
    let pc = win_components(path);
    let bc = win_components(base);
    if bc.len() > pc.len() {
        return None;
    }
    let mut i: usize = 0;
    while i < bc.len()
        invariant
            i <= bc.len() <= pc.len(),
            pc.deep_view() == components_w(path@),
            bc.deep_view() == components_w(base@),
            match pp {
                Some(t) => win_prefix(path@) == Some((t.0, t.1 as int, t.2@, t.3@)) && t.1 > 0,
                None => win_prefix(path@) is None,
            },
            match bp {
                Some(t) => win_prefix(base@) == Some((t.0, t.1 as int, t.2@, t.3@)) && t.1 > 0,
                None => win_prefix(base@) is None,
            },
            forall|t: int| 0 <= t < i ==> component_agrees_w(path@, base@, t),
        decreases bc.len() - i,
    {
        let agree = if i == 0 && (pp.is_some() || bp.is_some()) {
            match (&pp, &bp) {
                (Some(a), Some(b)) => a.0 == b.0 && chars_eq(&a.2, &b.2) && chars_eq(&a.3, &b.3),
                _ => false,
            }
        } else {
            assert(pc.deep_view()[i as int] == pc[i as int]@);
            assert(bc.deep_view()[i as int] == bc[i as int]@);
            pc[i] == bc[i]
        };
        if !agree {
            assert(!component_agrees_w(path@, base@, i as int));
            return None;
        }
        assert(component_agrees_w(path@, base@, i as int));
        i = i + 1;
    }
    let mut rest: Vec<String> = Vec::new();
    let mut j: usize = bc.len();
    while j < pc.len()
        invariant
            bc.len() <= j <= pc.len(),
            rest.deep_view() == pc.deep_view().subrange(bc.len() as int, j as int),
        decreases pc.len() - j,
    {
        let ghost before = rest.deep_view();
        assert(pc.deep_view()[j as int] == pc[j as int]@);
        rest.push(pc[j].clone());
        assert(rest.deep_view() =~= before.push(pc[j as int]@));
        assert(pc.deep_view().subrange(bc.len() as int, j + 1) =~= pc.deep_view().subrange(
            bc.len() as int,
            j as int,
        ).push(pc.deep_view()[j as int]));
        j = j + 1;
    }
    assert(rest.deep_view() =~= pc.deep_view().skip(bc.len() as int));
    Some(rest)
}

fn verbatim_step_exec(buf: Vec<String>, c: &String) -> (r: Vec<String>)
    requires
        buf.len() >= 1,
    ensures
        r.deep_view() == verbatim_step(buf.deep_view(), c@),
        r.len() >= 1,
{
    proof {
        reveal_strlit("\\");
        reveal_strlit(".");
        reveal_strlit("..");
        assert("\\"@ =~= root_w());
        assert("."@ =~= seq!['.']);
        assert(".."@ =~= seq!['.', '.']);
    }
    let ghost dv = buf.deep_view();
    if is_text(c, "\\") {
        let mut r: Vec<String> = Vec::new();
        r.push(buf[0].clone());
        r.push(c.clone());
        assert(dv[0] == buf[0]@);
        assert(r.deep_view() =~= dv.take(1).push(c@));
        r
    } else if is_text(c, ".") {
        buf
    } else if is_text(c, "..") {
        let n = buf.len();
        if n > 1 {
            let last = &buf[n - 1];
            assert(last@ == dv.last());
            if !is_text(last, "\\") && !is_text(last, ".") && !is_text(last, "..") {
                let mut b = buf;
                b.pop();
                assert(b.deep_view() =~= dv.drop_last());
                return b;
            }
        }
        buf
    } else {
        let mut b = buf;
        b.push(c.clone());
        assert(b.deep_view() =~= dv.push(c@));
        b
    }
}

/// `base.join(rel)` on Windows (`PathBuf::push`).
pub fn win_join(base: &str, rel: &str) -> (r: String)
    ensures
        r@ == path_join_w(base@, rel@),
{
    let bv = to_chars(base);
    let rv = to_chars(rel);
    let (bl, bverb, bdisk, _bphys) = path_head(&bv);
    let (rl, _rverb, rdisk, rphys) = path_head(&rv);
    let r_has_root = rphys || (rl > 0 && !rdisk);
    if (r_has_root && rl > 0) || rl > 0 {
        return owned(rel);
    }
    if bverb && rv.len() > 0 {
        let bc = win_components(base);
        let rc = win_components(rel);
        assert(bl > 0);
        assert(components_w(base@).len() >= 1) by {
            let l = prefix_len_w(base@);
            let v = is_verbatim_w(base@);
            let pre: Seq<Seq<char>> = seq![base@.take(l)];
            assert(components_w(base@) == pre + (if physical_root_w(base@) || (l > 0 && !is_disk_w(
                base@,
            ) && !v) {
                seq![root_w()]
            } else if l == 0 && cur_dir_lead_w(base@.skip(l)) {
                seq![seq!['.']]
            } else {
                Seq::<Seq<char>>::empty()
            }) + body_segments_w(
                if physical_root_w(base@) {
                    base@.skip(l).skip(1)
                } else {
                    base@.skip(l)
                },
                v,
            ).filter(keep_filter(v)));
        }
        assert(bc.len() >= 1);
        let mut buf: Vec<String> = bc;
        let ghost b0 = buf.deep_view();
        let mut k: usize = 0;
        assert(rc.deep_view().take(0) =~= Seq::<Seq<char>>::empty());
        while k < rc.len()
            invariant
                k <= rc.len(),
                buf.len() >= 1,
                buf.deep_view() == verbatim_fold(b0, rc.deep_view().take(k as int)),
            decreases rc.len() - k,
        {
            assert(rc.deep_view().take(k + 1).drop_last() =~= rc.deep_view().take(k as int));
            assert(rc.deep_view()[k as int] == rc[k as int]@);
            buf = verbatim_step_exec(buf, &rc[k]);
            k = k + 1;
        }
        assert(rc.deep_view().take(rc.len() as int) =~= rc.deep_view());
        let ghost full = buf.deep_view();
        let ghost cs = full.drop_first();
        let mut out: Vec<char> = to_chars(buf[0].as_str());
        assert(full[0] == buf[0]@);
        let ghost head = out@;
        let mut i: usize = 1;
        assert(cs.take(0) =~= Seq::<Seq<char>>::empty());
        while i < buf.len()
            invariant
                1 <= i <= buf.len(),
                full == buf.deep_view(),
                cs == full.drop_first(),
                head == full[0],
                out@ == head + rebuild_w(cs.take(i - 1), true),
            decreases buf.len() - i,
        {
            let ghost prev = cs.take(i - 1);
            assert(cs.take(i as int).drop_last() =~= prev);
            assert(cs.take(i as int).last() == buf[i as int]@);
            let needs = if i == 1 {
                true
            } else {
                assert(prev.last() == buf[i - 1]@);
                !is_text(&buf[i - 1], "\\")
            };
            proof {
                reveal_strlit("\\");
                assert("\\"@ =~= root_w());
            }
            let is_root = is_text(&buf[i], "\\");
            let ghost before = out@;
            if needs && !is_root {
                out.push('\\');
            }
            push_str(&mut out, buf[i].as_str());
            assert(out@ =~= head + rebuild_w(cs.take(i as int), true));
            i = i + 1;
        }
        assert(cs.take(buf.len() - 1) =~= cs);
        return string_from_chars(&out);
    }
    if r_has_root {
        let mut out = slice_chars(&bv, 0, bl);
        assert(out@ =~= base@.take(bl as int));
        push_str(&mut out, rel);
        return string_from_chars(&out);
    }
    let n = bv.len();
    let need = n > 0 && !is_sep_w_exec(bv[n - 1]) && !(bdisk && bl == n);
    let mut out = bv;
    if need {
        out.push('\\');
    }
    push_str(&mut out, rel);
    proof {
        if need {
            assert(out@ =~= base@ + seq!['\\'] + rel@);
        } else {
            assert(out@ =~= base@ + rel@);
        }
    }
    string_from_chars(&out)
}

} // verus!
