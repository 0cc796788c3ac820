//! Paths as text, with the component semantics of `std::path` on the host:
//! on Unix-like hosts only '/' separates components; on Windows the model
//! of `win_path` applies (both separators, prefixes such as `C:`).
use vstd::prelude::*;

use crate::win_path::{
    body_components, components_w, file_name_w, is_absolute_w, keep_filter, path_head,
    path_join_w, physical_root_w, prefix_len_w, pushed_w, strip_prefix_w, win_components,
    win_file_name, win_join, win_strip_prefix, body_segments_w, has_root_w, is_sep_w,
    is_verbatim_w, lemma_pushed_plain, no_sep_w, slash_to_backslash, win_prefix,
};
use crate::text::{
    KeyOrder,
    join, join_strings, lemma_split_on_nonempty, lemma_split_on_no_sep, owned, push_str, split_on,
    split_text, starts_with, string_from_chars, to_chars,
};

verus! {

/// Facts about the host that decide how paths are read and commands are
/// spawned.
#[derive(Clone, Copy, Debug)]
pub struct HostPlatform {
    pub windows: bool,
    pub linux: bool,
}

/// How paths of the host are ordered (`Ord for Path`).
pub open spec fn path_order(w: bool) -> KeyOrder {
    if w {
        KeyOrder::WindowsPaths
    } else {
        KeyOrder::UnixPaths
    }
}

/// The order of paths on the host.
pub fn host_path_order(platform: HostPlatform) -> (o: KeyOrder)
    ensures
        o == path_order(platform.windows),
{
    if platform.windows {
        KeyOrder::WindowsPaths
    } else {
        KeyOrder::UnixPaths
    }
}

/// `p` split at every '/', empty segments included.
pub open spec fn split_slash(p: Seq<char>) -> Seq<Seq<char>> {
    split_on(p, '/')
}

/// A segment that names a component: nonempty and not `.`.
pub open spec fn is_named_segment(s: Seq<char>) -> bool {
    s.len() > 0 && s != seq!['.']
}

pub open spec fn named_segment_filter() -> spec_fn(Seq<char>) -> bool {
    |s: Seq<char>| is_named_segment(s)
}

/// The components of `p` (`Path::components`): `/` for a leading root, `.`
/// for a leading current-directory marker of a relative path, then every
/// named segment (`..` included).
pub open spec fn components_u(p: Seq<char>) -> Seq<Seq<char>> {
    let segs = split_slash(p);
    let lead: Seq<Seq<char>> = if p.len() > 0 && p[0] == '/' {
        seq![seq!['/']]
    } else if segs[0] == seq!['.'] {
        seq![seq!['.']]
    } else {
        seq![]
    };
    lead + segs.filter(named_segment_filter())
}

/// Whether `p` is absolute (`Path::is_absolute`).
pub open spec fn is_absolute_u(p: Seq<char>) -> bool {
    p.len() > 0 && p[0] == '/'
}

/// `base.join(rel)`: an absolute `rel` replaces `base`; otherwise a
/// separator is added unless `base` is empty or already ends with one.
pub open spec fn path_join_u(base: Seq<char>, rel: Seq<char>) -> Seq<char> {
    if is_absolute_u(rel) {
        rel
    } else if base.len() == 0 || base.last() == '/' {
        base + rel
    } else {
        base + seq!['/'] + rel
    }
}

/// The final component when it names a file or directory (`Path::file_name`).
pub open spec fn file_name_u(p: Seq<char>) -> Option<Seq<char>> {
    let c = components_u(p);
    if c.len() > 0 && c.last() != seq!['/'] && c.last() != seq!['.'] && c.last() != seq!['.', '.'] {
        Some(c.last())
    } else {
        None
    }
}

/// The components of `path` after those of `base`, when `base` is a
/// component-wise prefix of `path` (`Path::strip_prefix`).
pub open spec fn strip_prefix_u(path: Seq<char>, base: Seq<char>) -> Option<Seq<Seq<char>>> {
    let pc = components_u(path);
    let bc = components_u(base);
    if bc.len() <= pc.len() && pc.take(bc.len() as int) == bc {
        Some(pc.skip(bc.len() as int))
    } else {
        None
    }
}

/// Why a relative path was refused.
#[derive(Clone, Copy, Debug, PartialEq, Eq, Structural)]
pub enum PathError {
    Absolute,
    ParentTraversal,
    /// A root or a drive prefix inside a path that is not absolute.
    InvalidComponent,
}

pub open spec fn path_error_text(e: PathError) -> Seq<char> {
    match e {
        PathError::Absolute => "absolute paths are not allowed"@,
        PathError::ParentTraversal => "parent traversal is not allowed"@,
        PathError::InvalidComponent => "invalid path component"@,
    }
}

impl PathError {
    pub fn to_text(self) -> (s: String)
        ensures
            s@ == path_error_text(self),
    {
        match self {
            PathError::Absolute => owned("absolute paths are not allowed"),
            PathError::ParentTraversal => owned("parent traversal is not allowed"),
            PathError::InvalidComponent => owned("invalid path component"),
        }
    }
}

/// The named components of a relative path joined by '/', or why the path
/// is refused: it is absolute, or one of its components is `..`.
pub open spec fn clean_relative_u(rel: Seq<char>) -> Result<Seq<char>, PathError> {
    let named = split_slash(rel).filter(named_segment_filter());
    if is_absolute_u(rel) {
        Err(PathError::Absolute)
    } else if named.contains(seq!['.', '.']) {
        Err(PathError::ParentTraversal)
    } else {
        Ok(join(named, seq!['/']))
    }
}

/// `rel` resolved under `root`, or why it is refused.
pub open spec fn resolve_relative_u(root: Seq<char>, rel: Seq<char>) -> Result<Seq<char>, PathError> {
    match clean_relative_u(rel) {
        Ok(c) => Ok(path_join_u(root, c)),
        Err(e) => Err(e),
    }
}

// ---------------------------------------------------------------------------
// On the host: Unix-like (`w` false) or Windows (`w` true)
// ---------------------------------------------------------------------------

/// The components of `p` (`Path::components`), each as text.
pub open spec fn components(p: Seq<char>, w: bool) -> Seq<Seq<char>> {
    if w {
        components_w(p)
    } else {
        components_u(p)
    }
}

/// `Path::is_absolute`.
pub open spec fn is_absolute(p: Seq<char>, w: bool) -> bool {
    if w {
        is_absolute_w(p)
    } else {
        is_absolute_u(p)
    }
}

/// `base.join(rel)`.
pub open spec fn path_join(base: Seq<char>, rel: Seq<char>, w: bool) -> Seq<char> {
    if w {
        path_join_w(base, rel)
    } else {
        path_join_u(base, rel)
    }
}

/// `Path::file_name`.
pub open spec fn file_name(p: Seq<char>, w: bool) -> Option<Seq<char>> {
    if w {
        file_name_w(p)
    } else {
        file_name_u(p)
    }
}

/// `Path::strip_prefix`, as the components that remain.
pub open spec fn strip_prefix(path: Seq<char>, base: Seq<char>, w: bool) -> Option<Seq<Seq<char>>> {
    if w {
        strip_prefix_w(path, base)
    } else {
        strip_prefix_u(path, base)
    }
}

/// The named components of a Windows relative path.
pub open spec fn named_parts_w(rel: Seq<char>) -> Seq<Seq<char>> {
    body_segments_w(rel, false).filter(keep_filter(false))
}

/// A relative path rebuilt from its named components (pushed one by one
/// onto an empty path), or why it is refused: it is absolute, it holds a
/// root or a drive prefix, or one of its components is `..`.
pub open spec fn clean_relative(rel: Seq<char>, w: bool) -> Result<Seq<char>, PathError> {
    if w {
        if is_absolute_w(rel) {
            Err(PathError::Absolute)
        } else if prefix_len_w(rel) > 0 || physical_root_w(rel) {
            Err(PathError::InvalidComponent)
        } else if named_parts_w(rel).contains(seq!['.', '.']) {
            Err(PathError::ParentTraversal)
        } else {
            Ok(pushed_w(named_parts_w(rel)))
        }
    } else {
        clean_relative_u(rel)
    }
}

/// `rel` resolved under `root`, or why it is refused.
pub open spec fn resolve_relative(root: Seq<char>, rel: Seq<char>, w: bool) -> Result<
    Seq<char>,
    PathError,
> {
    match clean_relative(rel, w) {
        Ok(c) => Ok(path_join(root, c, w)),
        Err(e) => Err(e),
    }
}

/// The components of `p` (`Path::components`).
pub fn path_components(p: &str, platform: HostPlatform) -> (r: Vec<String>)
    ensures
        r.deep_view() == components(p@, platform.windows),
{
    if platform.windows {
        win_components(p)
    } else {
        unix_components(p)
    }
}

/// `Path::is_absolute`.
pub fn path_is_absolute(p: &str, platform: HostPlatform) -> (r: bool)
    ensures
        r == is_absolute(p@, platform.windows),
{
    let v = to_chars(p);
    if platform.windows {
        let (l, _verbatim, disk, phys) = path_head(&v);
        (phys || (l > 0 && !disk)) && l > 0
    } else {
        v.len() > 0 && v[0] == '/'
    }
}

/// `base.join(rel)` (`Path::join`).
pub fn join_path(base: &str, rel: &str, platform: HostPlatform) -> (r: String)
    ensures
        r@ == path_join(base@, rel@, platform.windows),
{
    if platform.windows {
        win_join(base, rel)
    } else {
        unix_join(base, rel)
    }
}

/// The final component when it names a file or directory (`Path::file_name`).
pub fn path_file_name(p: &str, platform: HostPlatform) -> (r: Option<String>)
    ensures
        match r {
            Some(n) => file_name(p@, platform.windows) == Some(n@),
            None => file_name(p@, platform.windows).is_none(),
        },
{
    if platform.windows {
        win_file_name(p)
    } else {
        unix_file_name(p)
    }
}

/// The components of `path` after those of `base`, when `base` is a
/// component-wise prefix of `path` (`Path::strip_prefix`).
pub fn path_strip_prefix(path: &str, base: &str, platform: HostPlatform) -> (r: Option<Vec<String>>)
    ensures
        match r {
            Some(rest) => strip_prefix(path@, base@, platform.windows) == Some(rest.deep_view()),
            None => strip_prefix(path@, base@, platform.windows) is None,
        },
{
    if platform.windows {
        win_strip_prefix(path, base)
    } else {
        unix_strip_prefix(path, base)
    }
}

fn unix_strip_prefix(path: &str, base: &str) -> (r: Option<Vec<String>>)
    ensures
        match r {
            Some(rest) => strip_prefix_u(path@, base@) == Some(rest.deep_view()),
            None => strip_prefix_u(path@, base@) is None,
        },
{
    let pc = unix_components(path);
    let bc = unix_components(base);
    if bc.len() > pc.len() {
        return None;
    }
    let mut i: usize = 0;
    while i < bc.len()
        invariant
            i <= bc.len() <= pc.len(),
            pc.deep_view() == components_u(path@),
            bc.deep_view() == components_u(base@),
            forall|t: int| 0 <= t < i ==> pc.deep_view()[t] == bc.deep_view()[t],
        decreases bc.len() - i,
    {
        assert(pc.deep_view()[i as int] == pc[i as int]@);
        assert(bc.deep_view()[i as int] == bc[i as int]@);
        if !(pc[i] == bc[i]) {
            assert(pc.deep_view().take(bc.len() as int)[i as int] != bc.deep_view()[i as int]);
            return None;
        }
        i = i + 1;
    }
    assert(pc.deep_view().take(bc.len() as int) =~= bc.deep_view());
    let mut rest: Vec<String> = Vec::new();
    let mut j: usize = bc.len();
    while j < pc.len()
        invariant
            bc.len() <= j <= pc.len(),
            rest.deep_view() == pc.deep_view().subrange(bc.len() as int, j as int),
        decreases pc.len() - j,
    {
        let ghost before = rest.deep_view();
        assert(pc.deep_view()[j as int] == pc[j as int]@);
        rest.push(pc[j].clone());
        assert(rest.deep_view() =~= before.push(pc[j as int]@));
        assert(pc.deep_view().subrange(bc.len() as int, j + 1) =~= pc.deep_view().subrange(
            bc.len() as int,
            j as int,
        ).push(pc.deep_view()[j as int]));
        j = j + 1;
    }
    assert(rest.deep_view() =~= pc.deep_view().skip(bc.len() as int));
    Some(rest)
}

fn win_clean_relative(rel: &str) -> (r: Result<String, PathError>)
    ensures
        match r {
            Ok(c) => clean_relative(rel@, true) == Ok::<Seq<char>, PathError>(c@),
            Err(e) => clean_relative(rel@, true) == Err::<Seq<char>, PathError>(e),
        },
{
    let v = to_chars(rel);
    let (l, _verbatim, disk, phys) = path_head(&v);
    if (phys || (l > 0 && !disk)) && l > 0 {
        return Err(PathError::Absolute);
    }
    if l > 0 || phys {
        return Err(PathError::InvalidComponent);
    }
    let named = body_components(&v, false);
    let ghost nv = named.deep_view();
    let mut i: usize = 0;
    while i < named.len()
        invariant
            i <= named.len(),
            nv == named.deep_view(),
            nv == named_parts_w(rel@),
            prefix_len_w(rel@) == 0,
            !physical_root_w(rel@),
            !is_absolute_w(rel@),
            forall|t: int| 0 <= t < i ==> nv[t] != seq!['.', '.'],
        decreases named.len() - i,
    {
        let seg = to_chars(named[i].as_str());
        assert(seg@ == nv[i as int]);
        if is_dot_dot(&seg) {
            assert(nv.contains(seq!['.', '.']));
            return Err(PathError::ParentTraversal);
        }
        i = i + 1;
    }
    assert(!nv.contains(seq!['.', '.']));
    let mut acc = String::new();
    let mut k: usize = 0;
    assert(nv.take(0) =~= Seq::<Seq<char>>::empty());
    assert(acc@ =~= Seq::<char>::empty());
    while k < named.len()
        invariant
            k <= named.len(),
            nv == named.deep_view(),
            acc@ == pushed_w(nv.take(k as int)),
        decreases named.len() - k,
    {
        assert(nv.take(k + 1).drop_last() =~= nv.take(k as int));
        assert(nv[k as int] == named[k as int]@);
        acc = win_join(acc.as_str(), named[k].as_str());
        k = k + 1;
    }
    assert(nv.take(named.len() as int) =~= nv);
    Ok(acc)
}

/// Cleans a relative path: its named components put back together, or why
/// it is refused.
pub fn clean_relative_path(rel: &str, platform: HostPlatform) -> (r: Result<String, PathError>)
    ensures
        match r {
            Ok(c) => clean_relative(rel@, platform.windows) == Ok::<Seq<char>, PathError>(c@),
            Err(e) => clean_relative(rel@, platform.windows) == Err::<Seq<char>, PathError>(e),
        },
{
    if platform.windows {
        win_clean_relative(rel)
    } else {
        unix_clean_relative(rel)
    }
}

/// `rel` resolved under `root`, refusing absolute paths, roots and
/// prefixes, and `..`.
pub fn resolve_relative_path(root: &str, rel: &str, platform: HostPlatform) -> (r: Result<
    String,
    PathError,
>)
    ensures
        match r {
            Ok(p) => resolve_relative(root@, rel@, platform.windows) == Ok::<Seq<char>, PathError>(p@),
            Err(e) => resolve_relative(root@, rel@, platform.windows) == Err::<Seq<char>, PathError>(e),
        },
{
    match clean_relative_path(rel, platform) {
        Ok(c) => Ok(join_path(root, c.as_str(), platform)),
        Err(e) => Err(e),
    }
}

fn is_named_segment_exec(s: &Vec<char>) -> (b: bool)
    ensures
        b == is_named_segment(s@),
{
    if s.len() == 0 {
        false
    } else if s.len() == 1 && s[0] == '.' {
        assert(s@ =~= seq!['.']);
        false
    } else {
        assert(s.len() != 1 ==> s@.len() != seq!['.'].len());
        true
    }
}

fn is_dot_dot(s: &Vec<char>) -> (b: bool)
    ensures
        b == (s@ == seq!['.', '.']),
{
    if s.len() == 2 && s[0] == '.' && s[1] == '.' {
        assert(s@ =~= seq!['.', '.']);
        true
    } else {
        false
    }
}

/// The named segments of `p`, in order.
fn named_segments(p: &str) -> (r: Vec<String>)
    ensures
        r.deep_view() == split_slash(p@).filter(named_segment_filter()),
{
    let segs = split_text(p, '/');
    let ghost sv = segs.deep_view();
    let ghost pred = named_segment_filter();
    let mut r: Vec<String> = Vec::new();
    let mut i: usize = 0;
    assert(sv.take(0) =~= Seq::<Seq<char>>::empty());
    assert(r.deep_view() =~= sv.take(0).filter(pred)) by {
        reveal(Seq::filter);
    }
    while i < segs.len()
        invariant
            i <= segs.len(),
            sv == segs.deep_view(),
            pred == named_segment_filter(),
            r.deep_view() == sv.take(i as int).filter(pred),
        decreases segs.len() - i,
    {
        let ghost before = r.deep_view();
        assert(sv[i as int] == segs[i as int]@);
        assert(sv.take(i + 1) =~= sv.take(i as int).push(sv[i as int]));
        proof {
            sv.take(i as int).lemma_filter_push(sv[i as int], pred);
        }
        let seg = to_chars(segs[i].as_str());
        if is_named_segment_exec(&seg) {
            r.push(segs[i].clone());
            assert(r.deep_view() =~= before.push(sv[i as int]));
        }
        i = i + 1;
    }
    assert(sv.take(segs.len() as int) =~= sv);
    r
}

/// The components of `p` (`Path::components`).
fn unix_components(p: &str) -> (r: Vec<String>)
    ensures
        r.deep_view() == components_u(p@),
{
    let segs = split_text(p, '/');
    let chars = to_chars(p);
    let named = named_segments(p);
    proof {
        lemma_split_on_nonempty(p@, '/');
        reveal_strlit("/");
        reveal_strlit(".");
    }
    let mut r: Vec<String> = Vec::new();
    let first = to_chars(segs[0].as_str());
    assert(first@ == split_slash(p@)[0]);
    let rooted = chars.len() > 0 && chars[0] == '/';
    let dotted = first.len() == 1 && first[0] == '.';
    proof {
        if first@.len() == 1 {
            assert(first@ =~= seq![first@[0]]);
        } else {
            assert(first@ != seq!['.']);
        }
    }
    let ghost lead: Seq<Seq<char>> = if p@.len() > 0 && p@[0] == '/' {
        seq![seq!['/']]
    } else if split_slash(p@)[0] == seq!['.'] {
        seq![seq!['.']]
    } else {
        seq![]
    };
    if rooted {
        r.push(owned("/"));
        assert("/"@ =~= seq!['/']);
        assert(r.deep_view() =~= lead);
    } else if dotted {
        r.push(owned("."));
        assert("."@ =~= seq!['.']);
        assert(r.deep_view() =~= lead);
    }
    assert(r.deep_view() =~= lead);
    let mut i: usize = 0;
    while i < named.len()
        invariant
            i <= named.len(),
            r.deep_view() == lead + named.deep_view().take(i as int),
        decreases named.len() - i,
    {
        let ghost before = r.deep_view();
        assert(named.deep_view()[i as int] == named[i as int]@);
        r.push(named[i].clone());
        assert(r.deep_view() =~= before.push(named[i as int]@));
        assert(named.deep_view().take(i + 1) =~= named.deep_view().take(i as int).push(
            named.deep_view()[i as int],
        ));
        assert(r.deep_view() =~= lead + named.deep_view().take(i + 1));
        i = i + 1;
    }
    assert(named.deep_view().take(named.len() as int) =~= named.deep_view());
    r
}

/// `base.join(rel)` (`Path::join`).
fn unix_join(base: &str, rel: &str) -> (r: String)
    ensures
        r@ == path_join_u(base@, rel@),
{
    let b = to_chars(base);
    let rv = to_chars(rel);
    if rv.len() > 0 && rv[0] == '/' {
        return owned(rel);
    }
    let mut out = b.clone();
    assert(out@ == b@);
    if !(b.len() == 0 || b[b.len() - 1] == '/') {
        out.push('/');
    }
    push_str(&mut out, rel);
    proof {
        if b@.len() == 0 || b@.last() == '/' {
            assert(out@ =~= base@ + rel@);
        } else {
            assert(out@ =~= base@ + seq!['/'] + rel@);
        }
    }
    string_from_chars(&out)
}

/// The final component when it names a file or directory (`Path::file_name`).
fn unix_file_name(p: &str) -> (r: Option<String>)
    ensures
        match r {
            Some(n) => file_name_u(p@) == Some(n@),
            None => file_name_u(p@).is_none(),
        },
{
    let c = unix_components(p);
    if c.len() == 0 {
        return None;
    }
    let last = to_chars(c[c.len() - 1].as_str());
    assert(last@ == c.deep_view().last());
    let is_root = last.len() == 1 && last[0] == '/';
    let is_dot = last.len() == 1 && last[0] == '.';
    let is_dotdot = is_dot_dot(&last);
    proof {
        if last@.len() != 1 {
            assert(last@ != seq!['/']);
            assert(last@ != seq!['.']);
        } else {
            assert(last@ =~= seq![last@[0]]);
        }
    }
    if is_root || is_dot || is_dotdot {
        None
    } else {
        Some(c[c.len() - 1].clone())
    }
}

/// Cleans a relative path: its named components joined by '/', or why it
/// is refused.
fn unix_clean_relative(rel: &str) -> (r: Result<String, PathError>)
    ensures
        match r {
            Ok(c) => clean_relative_u(rel@) == Ok::<Seq<char>, PathError>(c@),
            Err(e) => clean_relative_u(rel@) == Err::<Seq<char>, PathError>(e),
        },
{
    let chars = to_chars(rel);
    if chars.len() > 0 && chars[0] == '/' {
        return Err(PathError::Absolute);
    }
    let named = named_segments(rel);
    let mut i: usize = 0;
    assert(!is_absolute_u(rel@));
    while i < named.len()
        invariant
            i <= named.len(),
            !is_absolute_u(rel@),
            named.deep_view() == split_slash(rel@).filter(named_segment_filter()),
            forall|t: int| 0 <= t < i ==> named.deep_view()[t] != seq!['.', '.'],
        decreases named.len() - i,
    {
        let seg = to_chars(named[i].as_str());
        assert(seg@ == named.deep_view()[i as int]);
        if is_dot_dot(&seg) {
            assert(named.deep_view().contains(seq!['.', '.']));
            return Err(PathError::ParentTraversal);
        }
        i = i + 1;
    }
    assert(!named.deep_view().contains(seq!['.', '.']));
    let joined = join_strings(&named, "/");
    proof {
        reveal_strlit("/");
        assert("/"@ =~= seq!['/']);
    }
    Ok(joined)
}

/// Resolved paths stay under the root on a Unix-like host: the result is
/// the root joined with a relative path made only of named components, none
/// of them `..`.
proof fn lemma_resolved_inside_root_unix(root: Seq<char>, rel: Seq<char>)
    requires
        resolve_relative_u(root, rel) is Ok,
    ensures
        ({
            let c = clean_relative_u(rel)->Ok_0;
            &&& resolve_relative_u(root, rel)->Ok_0 == path_join_u(root, c)
            &&& starts_with(resolve_relative_u(root, rel)->Ok_0, root)
            &&& !split_slash(rel).filter(named_segment_filter()).contains(seq!['.', '.'])
            &&& !is_absolute_u(c) || root.len() == 0
        }),
{
    let c = clean_relative_u(rel)->Ok_0;
    let named = split_slash(rel).filter(named_segment_filter());
    let p = path_join_u(root, c);
    lemma_split_on_no_sep(rel, '/');
    broadcast use vstd::seq_lib::group_filter_ensures;
    assert forall|i: int| 0 <= i < named.len() implies !(#[trigger] named[i]).contains('/') by {
        split_slash(rel).lemma_filter_contains_rev(named_segment_filter(), named[i]);
        let j = split_slash(rel).index_of(named[i]);
        assert(!split_slash(rel)[j].contains('/'));
    }
    assert forall|i: int| 0 <= i < named.len() implies is_named_segment(#[trigger] named[i]) by {
        assert(named_segment_filter()(named[i]));
    }
    lemma_join_named_not_absolute(named);
    if !is_absolute_u(c) {
        if root.len() == 0 || root.last() == '/' {
            assert(p.take(root.len() as int) =~= root);
        } else {
            assert(p.take(root.len() as int) =~= root);
        }
    }
}

proof fn lemma_split_pieces_from(s: Seq<char>, sep: char)
    ensures
        forall|i: int, j: int|
            0 <= i < split_on(s, sep).len() && 0 <= j < split_on(s, sep)[i].len() ==> s.contains(
                #[trigger] split_on(s, sep)[i][j],
            ),
    decreases s.len(),
{
    if s.len() > 0 {
        let t = s.drop_last();
        lemma_split_pieces_from(t, sep);
        lemma_split_on_nonempty(t, sep);
        let init = split_on(t, sep);
        assert forall|x: char| t.contains(x) implies s.contains(x) by {
            let k = choose|k: int| 0 <= k < t.len() && t[k] == x;
            assert(s[k] == x);
        }
        assert(s[s.len() - 1] == s.last());
        assert forall|i: int, j: int|
            0 <= i < split_on(s, sep).len() && 0 <= j < split_on(s, sep)[i].len() implies s.contains(
            #[trigger] split_on(s, sep)[i][j],
        ) by {
            if s.last() == sep {
                if i < init.len() {
                    assert(split_on(s, sep)[i] == init[i]);
                    assert(t.contains(init[i][j]));
                }
            } else {
                if i < init.len() - 1 {
                    assert(split_on(s, sep)[i] == init[i]);
                    assert(t.contains(init[i][j]));
                } else {
                    let l = init.last().push(s.last());
                    assert(split_on(s, sep)[i] == l);
                    if j < init.last().len() {
                        assert(l[j] == init[init.len() - 1][j]);
                        assert(t.contains(init[init.len() - 1][j]));
                    }
                }
            }
        }
    }
}

/// The named parts of a Windows path are nonempty and hold no separator.
proof fn lemma_named_parts_plain(rel: Seq<char>)
    ensures
        forall|k: int|
            0 <= k < named_parts_w(rel).len() ==> (#[trigger] named_parts_w(rel)[k]).len() > 0
                && no_sep_w(named_parts_w(rel)[k]),
{
    let norm = rel.map_values(|c: char| slash_to_backslash(c));
    let segs = split_on(norm, '\\');
    assert(body_segments_w(rel, false) == segs);
    let named = named_parts_w(rel);
    lemma_split_on_no_sep(norm, '\\');
    lemma_split_pieces_from(norm, '\\');
    assert forall|k: int| 0 <= k < named.len() implies (#[trigger] named[k]).len() > 0 && no_sep_w(
        named[k],
    ) by {
        let x = named[k];
        broadcast use vstd::seq_lib::group_filter_ensures;
        assert(named.contains(x));
        segs.lemma_filter_contains_rev(keep_filter(false), x);
        let i = segs.index_of(x);
        assert(segs[i] == x);
        assert(keep_filter(false)(x));
        assert(!x.contains('\\'));
        assert forall|j: int| 0 <= j < x.len() implies !is_sep_w(#[trigger] x[j]) by {
            assert(norm.contains(segs[i][j]));
            let q = choose|q: int| 0 <= q < norm.len() && norm[q] == x[j];
            assert(norm[q] == slash_to_backslash(rel[q]));
            if x[j] == '\\' {
                assert(x.contains('\\'));
            }
        }
    }
}

/// An absolute path is refused as absolute, whatever the host. On a
/// Unix-like host a relative path is refused exactly when one of its
/// components is `..`, as parent traversal, and is otherwise resolved.
pub proof fn lemma_refused_paths(root: Seq<char>, rel: Seq<char>, w: bool)
    ensures
        is_absolute(rel, w) ==> resolve_relative(root, rel, w) == Err::<Seq<char>, PathError>(
            PathError::Absolute,
        ),
        !w && !is_absolute(rel, w) ==> (components(rel, w).contains(seq!['.', '.']) <==> resolve_relative(
            root,
            rel,
            w,
        ) == Err::<Seq<char>, PathError>(PathError::ParentTraversal)),
        !w && !is_absolute(rel, w) && !components(rel, w).contains(seq!['.', '.'])
            ==> resolve_relative(root, rel, w) is Ok,
{
    if !w && !is_absolute(rel, w) {
        let segs = split_slash(rel);
        let named = segs.filter(named_segment_filter());
        let comps = components_u(rel);
        let lead: Seq<Seq<char>> = if segs[0] == seq!['.'] {
            seq![seq!['.']]
        } else {
            seq![]
        };
        assert(comps == lead + named);
        if comps.contains(seq!['.', '.']) {
            let k = choose|k: int| 0 <= k < comps.len() && comps[k] == seq!['.', '.'];
            if k < lead.len() {
                assert(comps[k] == seq!['.']);
                assert(comps[k].len() == 1);
            } else {
                assert(named[k - lead.len()] == seq!['.', '.']);
                assert(named.contains(seq!['.', '.']));
            }
        }
        if named.contains(seq!['.', '.']) {
            let k = choose|k: int| 0 <= k < named.len() && named[k] == seq!['.', '.'];
            assert(comps[k + lead.len()] == seq!['.', '.']);
        }
    }
}

/// A resolved path is the root joined with the cleaned relative path, and no
/// component of the relative path is `..`. It starts with the root on a
/// Unix-like host, and on Windows when the root is not verbatim and no name
/// in the relative path opens with a drive: `./C:x` resolves to `C:x`, since
/// pushing a name with a drive replaces the path.
pub proof fn lemma_resolved_inside_root(root: Seq<char>, rel: Seq<char>, w: bool)
    requires
        resolve_relative(root, rel, w) is Ok,
    ensures
        ({
            let c = clean_relative(rel, w)->Ok_0;
            let p = resolve_relative(root, rel, w)->Ok_0;
            &&& p == path_join(root, c, w)
            &&& !components(rel, w).contains(seq!['.', '.'])
            &&& !w ==> starts_with(p, root) && (!is_absolute(c, w) || root.len() == 0)
            &&& w && !is_verbatim_w(root) && (forall|k: int|
                0 <= k < named_parts_w(rel).len() ==> win_prefix(#[trigger] named_parts_w(rel)[k])
                    is None) ==> starts_with(p, root)
        }),
{
    if w {
        lemma_named_parts_plain(rel);
        if !is_verbatim_w(root) && (forall|k: int|
            0 <= k < named_parts_w(rel).len() ==> win_prefix(#[trigger] named_parts_w(rel)[k])
                is None) {
            let named = named_parts_w(rel);
            lemma_pushed_plain(named);
            let c = pushed_w(named);
            assert(win_prefix(c) is None);
            assert(prefix_len_w(c) == 0);
            assert(!is_absolute_w(c));
            assert(!has_root_w(c)) by {
                if c.len() > 0 {
                    assert(!is_sep_w(c[0]));
                }
            }
            let p = path_join_w(root, c);
            assert(p.take(root.len() as int) =~= root);
        }
        let named = named_parts_w(rel);
        let comps = components_w(rel);
        assert(prefix_len_w(rel) == 0);
        assert(rel.skip(0) =~= rel);
        let lead: Seq<Seq<char>> = if crate::win_path::cur_dir_lead_w(rel) {
            seq![seq!['.']]
        } else {
            seq![]
        };
        assert(comps =~= lead + named);
        if comps.contains(seq!['.', '.']) {
            let k = choose|k: int| 0 <= k < comps.len() && comps[k] == seq!['.', '.'];
            if k < lead.len() {
                assert(lead[k] == seq!['.']);
                assert(seq!['.'].len() != seq!['.', '.'].len());
            } else {
                assert(named[k - lead.len()] == seq!['.', '.']);
            }
        }
    } else {
        lemma_resolved_inside_root_unix(root, rel);
        let named = split_slash(rel).filter(named_segment_filter());
        let segs = split_slash(rel);
        let comps = components_u(rel);
        let lead: Seq<Seq<char>> = if rel.len() > 0 && rel[0] == '/' {
            seq![seq!['/']]
        } else if segs[0] == seq!['.'] {
            seq![seq!['.']]
        } else {
            seq![]
        };
        assert(comps == lead + named);
        if comps.contains(seq!['.', '.']) {
            let k = choose|k: int| 0 <= k < comps.len() && comps[k] == seq!['.', '.'];
            if k < lead.len() {
                assert(lead[k].len() == 1);
            } else {
                assert(named[k - lead.len()] == seq!['.', '.']);
            }
        }
    }
}

proof fn lemma_join_named_not_absolute(named: Seq<Seq<char>>)
    requires
        forall|i: int| 0 <= i < named.len() ==> is_named_segment(#[trigger] named[i]),
        forall|i: int| 0 <= i < named.len() ==> !(#[trigger] named[i]).contains('/'),
    ensures
        !is_absolute_u(join(named, seq!['/'])),
    decreases named.len(),
{
    if named.len() > 1 {
        lemma_join_named_not_absolute(named.drop_last());
        let j = join(named.drop_last(), seq!['/']);
        assert(j.len() > 0) by {
            lemma_join_nonempty(named.drop_last());
        }
    } else if named.len() == 1 {
        if named[0][0] == '/' {
            assert(named[0].contains(named[0][0]));
        }
    }
}

proof fn lemma_join_nonempty(named: Seq<Seq<char>>)
    requires
        named.len() > 0,
        forall|i: int| 0 <= i < named.len() ==> is_named_segment(#[trigger] named[i]),
    ensures
        join(named, seq!['/']).len() > 0,
    decreases named.len(),
{
    if named.len() > 1 {
        lemma_join_nonempty(named.drop_last());
    }
}

} // verus!
