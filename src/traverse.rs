//! One render from a walk: the pattern picks the files, the status reports
//! of the directories visited give their markers, and the found files are
//! turned into a tree.

use vstd::prelude::*;
use vstd::string::StringExecFns;
use vstd::string::StringSliceAdditionalSpecFns;
use crate::cli::Args;
use crate::error::NomadError;
use crate::markers::{MarkerMap, MarkerStyle, StatusEntry, status_pairs, lookup, extend_marker_map, get_status_markers};
use crate::modes::NomadMode;
use crate::paths::{components, split_components};
use crate::paths::relative;
use crate::transform::{FoundItem, FoundView, NodeView as FoundNode, TransformFound, flatten, found_views, emit_from, has_dir, dir_node, file_node};
use crate::tree::{ToTree, TreeOutput, renders_as};

verus! {

/// regex's compiled pattern, carried through as an opaque value.
#[verifier::external_type_specification]
#[verifier::external_body]
pub struct ExRegex(regex::Regex);

/// regex's error for a pattern it refuses, carried through as an opaque value.
#[verifier::external_type_specification]
#[verifier::external_body]
pub struct ExRegexError(regex::Error);

/// Whether the regex crate accepts `pattern` (its syntax, and its default
/// size limit).
pub uninterp spec fn pattern_compiles(pattern: Seq<char>) -> bool;

/// Relies on `regex::Regex::new`: whether it succeeds depends on the
/// pattern alone.
#[verifier::external_body]
pub(crate) fn compile_pattern(pattern: &str) -> (r: Result<regex::Regex, regex::Error>)
    ensures
        r is Ok <==> pattern_compiles(pattern@),
{
    regex::Regex::new(pattern)
}

/// Relies on `regex::Error`'s `Display`, for the message shown to the user.
#[verifier::external_body]
pub(crate) fn pattern_error_text(e: &regex::Error) -> String {
    e.to_string()
}

/// The byte range of the leftmost match of `pattern` in `haystack`, as
/// the regex crate finds it; `None` where there is no match.
pub uninterp spec fn leftmost_match(pattern: Seq<char>, haystack: Seq<char>) -> Option<(usize, usize)>;

/// A compiled pattern, with the text it was compiled from.
pub struct Pattern {
    re: regex::Regex,
    source: Ghost<Seq<char>>,
}

impl Pattern {
    /// The text that the pattern was compiled from.
    pub closed spec fn source(&self) -> Seq<char> {
        self.source@
    }
}

/// Compiles `pattern`.
pub fn compile(pattern: &str) -> (r: Result<Pattern, regex::Error>)
    ensures
        r is Ok <==> pattern_compiles(pattern@),
        r is Ok ==> r->Ok_0.source() == pattern@,
{
    match compile_pattern(pattern) {
        Ok(re) => Ok(Pattern { re, source: Ghost(pattern@) }),
        Err(e) => Err(e),
    }
}

/// Relies on `regex::Regex::find`: the byte range of the leftmost match,
/// which depends on the pattern's text and the haystack alone, with
/// `start <= end <= haystack.len()`.
#[verifier::external_body]
pub(crate) fn first_match(p: &Pattern, haystack: &str) -> (r: Option<(usize, usize)>)
    ensures
        r == leftmost_match(p.source(), haystack@),
        r is Some ==> r->Some_0.0 <= r->Some_0.1 <= haystack.spec_bytes().len(),
{
    p.re.find(haystack).map(|m| (m.start(), m.end()))
}

/// Whether the options' pattern, if any, compiles: `RegexError` exactly
/// where it does not. Meant to be asked before a walk starts.
pub fn check_pattern(args: &Args) -> (r: Result<(), NomadError>)
    ensures
        r is Err <==> (args.pattern is Some && !pattern_compiles(args.pattern->Some_0@)),
        r is Err ==> r->Err_0 is RegexError,
{
    match &args.pattern {
        Some(pattern) => match compile_pattern(pattern.as_str()) {
            Ok(_) => Ok(()),
            Err(e) => Err(NomadError::RegexError(pattern_error_text(&e))),
        },
        None => Ok(()),
    }
}

/// An entry of a walk: its path, its canonical path, whether it is a
/// directory, and, for a directory, the status report of version control
/// for it (empty outside a repository).
pub struct WalkEntry {
    pub path: String,
    pub canonical: String,
    pub is_dir: bool,
    pub statuses: Vec<StatusEntry>,
}

/// The name of the entry at `path`: its last component, or `?` where it
/// has none.
pub open spec fn file_name_of(path: Seq<char>) -> Seq<char> {
    let c = components(path);
    if c.len() > 0 {
        c.last()
    } else {
        seq!['?']
    }
}

/// The match found for entry `i`, if any.
pub open spec fn match_at(matches: Seq<Option<(usize, usize)>>, i: int) -> Option<(usize, usize)> {
    if 0 <= i < matches.len() {
        matches[i]
    } else {
        None
    }
}

/// The markers known and the files found after the walk's entries in
/// order: a directory adds its status report (when markers are used), a
/// file is found unless a pattern is used and did not match its name, and
/// takes the marker known for its canonical path at that point.
pub open spec fn gather(
    entries: Seq<WalkEntry>,
    matches: Seq<Option<(usize, usize)>>,
    use_pattern: bool,
    use_git: bool,
    style: MarkerStyle,
    start: Seq<(Seq<char>, Seq<char>)>,
) -> (Seq<(Seq<char>, Seq<char>)>, Seq<FoundView>)
    decreases entries.len(),
{
    if entries.len() == 0 {
        (start, Seq::empty())
    } else {
        let (m, f) = gather(entries.drop_last(), matches, use_pattern, use_git, style, start);
        let i = entries.len() - 1;
        let e = entries.last();
        if e.is_dir {
            (if use_git { m + status_pairs(style, e.statuses@, e.path@) } else { m }, f)
        } else if use_pattern && match_at(matches, i) is None {
            (m, f)
        } else {
            (m, f.push(FoundView {
                marker: lookup(m, e.canonical@),
                matched: if use_pattern { match_at(matches, i) } else { None },
                path: e.path@,
            }))
        }
    }
}

/// The files that a walk finds, with `matches` as the pattern's matches.
pub open spec fn found_in_walk(
    args: Args,
    style: MarkerStyle,
    root: Seq<char>,
    root_statuses: Seq<StatusEntry>,
    entries: Seq<WalkEntry>,
    matches: Seq<Option<(usize, usize)>>,
) -> Seq<FoundView> {
    let use_git = !args.no_git;
    let start = if use_git { status_pairs(style, root_statuses, root) } else { Seq::empty() };
    gather(entries, matches, args.pattern is Some, use_git, style, start).1
}

/// Whether `r` is the render of a walk whose pattern matches are
/// `matches`: `NothingFound` when no file is found, else the tree of the
/// found files.
pub open spec fn walk_result(
    args: Args,
    mode: NomadMode,
    style: MarkerStyle,
    root: Seq<char>,
    root_statuses: Seq<StatusEntry>,
    entries: Seq<WalkEntry>,
    matches: Seq<Option<(usize, usize)>>,
    r: Result<TreeOutput, NomadError>,
) -> bool {
    let found = found_in_walk(args, style, root, root_statuses, entries, matches);
    if found.len() == 0 {
        r is Err && r->Err_0 is NothingFound
    } else {
        r is Ok && renders_as(flatten(found, root), &args, mode, root, r->Ok_0)
    }
}

/// The pattern's match in the name of each file of the walk; none for a
/// directory.
pub open spec fn matches_of(pattern: Seq<char>, entries: Seq<WalkEntry>) -> Seq<Option<(usize, usize)>> {
    Seq::new(entries.len(), |i: int| if entries[i].is_dir { None } else { leftmost_match(pattern, file_name_of(entries[i].path@)) })
}

/// Whether `matches` could come from a pattern: one per entry, none for a
/// directory, and each a byte range within the entry's name.
pub open spec fn matches_fit(entries: Seq<WalkEntry>, matches: Seq<Option<(usize, usize)>>) -> bool {
    &&& matches.len() == entries.len()
    &&& forall|i: int| 0 <= i < entries.len() && #[trigger] entries[i].is_dir ==> matches[i] is None
    &&& forall|i: int| 0 <= i < entries.len() && #[trigger] matches[i] is Some ==> matches[i]->Some_0.0 <= matches[i]->Some_0.1
}

proof fn lemma_gather_single(
    entries: Seq<WalkEntry>,
    matches: Seq<Option<(usize, usize)>>,
    use_git: bool,
    style: MarkerStyle,
    start: Seq<(Seq<char>, Seq<char>)>,
    k: int,
)
    requires
        0 <= k,
        forall|j: int| 0 <= j < entries.len() && j != k ==> #[trigger] match_at(matches, j) is None,
        k < entries.len() ==> !entries[k].is_dir && match_at(matches, k) is Some,
    ensures
        gather(entries, matches, true, use_git, style, start).1.len() == (if k < entries.len() { 1int } else { 0int }),
        k < entries.len() ==> gather(entries, matches, true, use_git, style, start).1[0].path == entries[k].path@,
    decreases entries.len(),
{
    if entries.len() > 0 {
        let n = entries.len() - 1;
        assert forall|j: int| 0 <= j < entries.drop_last().len() && j != k implies #[trigger] match_at(matches, j) is None by {
            assert(match_at(matches, j) is None);
        }
        if k < n {
            assert(!entries.drop_last()[k].is_dir);
        }
        lemma_gather_single(entries.drop_last(), matches, use_git, style, start, k);
        if n != k {
            assert(match_at(matches, n) is None);
        }
    }
}

proof fn lemma_chain(out: Seq<FoundNode>, rel: Seq<Seq<char>>, k: nat, item: FoundView, root: Seq<char>)
    requires
        k < rel.len() || k == 0,
        out.len() == k,
        forall|m: int| 0 <= m < k ==> (#[trigger] out[m]).components == rel.subrange(0, m + 1) && out[m].is_dir,
    ensures
        emit_from(out, rel, k, item, root).len() == rel.len(),
        forall|m: int| 0 <= m < rel.len() ==> (#[trigger] emit_from(out, rel, k, item, root)[m]).components
            == rel.subrange(0, m + 1) && emit_from(out, rel, k, item, root)[m].is_dir == (m + 1 < rel.len()),
    decreases rel.len() - k,
{
    if k < rel.len() {
        let pre = rel.subrange(0, k + 1 as int);
        if k + 1 < rel.len() {
            if has_dir(out, pre) {
                let j = choose|j: int| 0 <= j < out.len() && #[trigger] out[j].is_dir && out[j].components == pre;
                assert(out[j].components.len() == j + 1);
            }
            let o2 = out.push(dir_node(root, pre));
            assert forall|m: int| 0 <= m < k + 1 implies (#[trigger] o2[m]).components == rel.subrange(0, m + 1) && o2[m].is_dir by {
                if m < k {
                    assert(o2[m] == out[m]);
                }
            }
            lemma_chain(o2, rel, k + 1, item, root);
        } else {
            let o2 = out.push(file_node(root, pre, item));
            assert(emit_from(o2, rel, k + 1, item, root) == o2);
            assert forall|m: int| 0 <= m < rel.len() implies (#[trigger] o2[m]).components == rel.subrange(0, m + 1)
                && o2[m].is_dir == (m + 1 < rel.len()) by {
                if m < k {
                    assert(o2[m] == out[m]);
                }
            }
        }
    }
}

/// A pattern that matches the name of one file only gives a tree of that
/// file and its ancestor directories below the root, outermost first, and
/// nothing else: no sibling of any of them that did not match.
pub proof fn lemma_single_match(
    args: Args,
    style: MarkerStyle,
    root: Seq<char>,
    root_statuses: Seq<StatusEntry>,
    entries: Seq<WalkEntry>,
    matches: Seq<Option<(usize, usize)>>,
    k: int,
    rel: Seq<Seq<char>>,
)
    requires
        args.pattern is Some,
        matches_fit(entries, matches),
        0 <= k < entries.len(),
        matches[k] is Some,
        forall|j: int| 0 <= j < entries.len() && j != k ==> #[trigger] matches[j] is None,
        relative(entries[k].path@, root) == Some(rel),
    ensures
        flatten(found_in_walk(args, style, root, root_statuses, entries, matches), root).len() == rel.len(),
        forall|m: int| 0 <= m < rel.len() ==> (#[trigger] flatten(found_in_walk(args, style, root, root_statuses, entries, matches), root)[m]).components
            == rel.subrange(0, m + 1),
        forall|m: int| 0 <= m < rel.len() ==> (#[trigger] flatten(found_in_walk(args, style, root, root_statuses, entries, matches), root)[m]).is_dir
            == (m + 1 < rel.len()),
{
    let use_git = !args.no_git;
    let start = if use_git { status_pairs(style, root_statuses, root) } else { Seq::empty() };
    assert forall|j: int| 0 <= j < entries.len() && j != k implies #[trigger] match_at(matches, j) is None by {
        assert(matches[j] is None);
    }
    assert(entries[k].is_dir ==> matches[k] is None);
    lemma_gather_single(entries, matches, use_git, style, start, k);
    let found = found_in_walk(args, style, root, root_statuses, entries, matches);
    assert(found.drop_last() =~= Seq::<FoundView>::empty());
    assert(flatten(Seq::<FoundView>::empty(), root) == Seq::<FoundNode>::empty());
    lemma_chain(Seq::empty(), rel, 0, found.last(), root);
}

/// The files of a walk, as `found_in_walk` states.
pub fn collect_found(
    args: &Args,
    style: &MarkerStyle,
    target_directory: &str,
    root_statuses: &Vec<StatusEntry>,
    entries: &Vec<WalkEntry>,
    matches: &Vec<Option<(usize, usize)>>,
) -> (r: Vec<FoundItem>)
    ensures
        found_views(r@) == found_in_walk(*args, *style, target_directory@, root_statuses@, entries@, matches@),
{
    let use_git = !args.no_git;
    let use_pattern = args.pattern.is_some();
    let mut markers = if use_git {
        get_status_markers(style, root_statuses, target_directory)
    } else {
        MarkerMap::new()
    };
    let ghost start = markers@;
    proof {
        if !use_git {
            assert(start =~= Seq::<(Seq<char>, Seq<char>)>::empty());
        }
    }
    let mut found: Vec<FoundItem> = Vec::new();
    let mut i: usize = 0;
    while i < entries.len()
        invariant
            i <= entries.len(),
            use_git == !args.no_git,
            use_pattern == (args.pattern is Some),
            start == (if use_git { status_pairs(*style, root_statuses@, target_directory@) } else { Seq::empty() }),
            (markers@, found_views(found@)) == gather(entries@.subrange(0, i as int), matches@, use_pattern, use_git, *style, start),
        decreases entries.len() - i,
    {
        let e = &entries[i];
        proof {
            assert(entries@.subrange(0, i + 1).drop_last() =~= entries@.subrange(0, i as int));
        }
        let m = if i < matches.len() { matches[i] } else { None };
        if e.is_dir {
            if use_git {
                extend_marker_map(&mut markers, style, &e.statuses, e.path.as_str());
            }
        } else if use_pattern && m.is_none() {
        } else {
            let marker = markers.get(&e.canonical);
            let ghost before = found@;
            found.push(FoundItem { marker, matched: if use_pattern { m } else { None }, path: e.path.clone() });
            proof {
                assert(found_views(found@) =~= found_views(before).push(found@.last()@));
            }
        }
        i = i + 1;
    }
    proof {
        assert(entries@.subrange(0, entries.len() as int) =~= entries@);
    }
    found
}

/// The render of a walk whose pattern matches are `matches`, as
/// `walk_result` states.
pub fn assemble(
    args: &Args,
    nomad_mode: NomadMode,
    style: &MarkerStyle,
    target_directory: &str,
    root_statuses: &Vec<StatusEntry>,
    entries: &Vec<WalkEntry>,
    matches: &Vec<Option<(usize, usize)>>,
) -> (r: Result<TreeOutput, NomadError>)
    ensures
        walk_result(*args, nomad_mode, *style, target_directory@, root_statuses@, entries@, matches@, r),
{
    let found = collect_found(args, style, target_directory, root_statuses, entries, matches);
    match found.transform(target_directory) {
        Ok(nodes) => Ok(nodes.to_tree(args, nomad_mode, target_directory)),
        Err(e) => Err(e),
    }
}

/// The name of the entry at `path`.
fn file_name(path: &str) -> (r: String)
    ensures
        r@ == file_name_of(path@),
{
    let c = split_components(path);
    if c.len() > 0 {
        c[c.len() - 1].clone()
    } else {
        let q = String::from_str("?");
        proof {
            reveal_strlit("?");
        }
        q
    }
}

/// The leftmost match of the pattern in the name of each file.
fn find_matches(re: &Pattern, entries: &Vec<WalkEntry>) -> (r: Vec<Option<(usize, usize)>>)
    ensures
        matches_fit(entries@, r@),
        r@ == matches_of(re.source(), entries@),
{
    let mut r: Vec<Option<(usize, usize)>> = Vec::new();
    let mut i: usize = 0;
    while i < entries.len()
        invariant
            i <= entries.len(),
            r@.len() == i,
            forall|j: int| 0 <= j < i ==> #[trigger] r@[j] == matches_of(re.source(), entries@)[j],
            forall|j: int| 0 <= j < i && #[trigger] entries@[j].is_dir ==> r@[j] is None,
            forall|j: int| 0 <= j < i && #[trigger] r@[j] is Some ==> r@[j]->Some_0.0 <= r@[j]->Some_0.1,
        decreases entries.len() - i,
    {
        if entries[i].is_dir {
            r.push(None);
        } else {
            let name = file_name(entries[i].path.as_str());
            r.push(first_match(re, name.as_str()));
        }
        i = i + 1;
    }
    proof {
        assert(r@ =~= matches_of(re.source(), entries@));
    }
    r
}

/// One render of a walk under `target_directory`: fails with `RegexError`
/// exactly when a pattern is given that does not compile; otherwise the
/// render of the walk with the pattern's match in each file name, or, with
/// no pattern, of every file.
pub fn walk_directory(
    args: &Args,
    nomad_mode: NomadMode,
    style: &MarkerStyle,
    target_directory: &str,
    root_statuses: &Vec<StatusEntry>,
    entries: &Vec<WalkEntry>,
) -> (r: Result<TreeOutput, NomadError>)
    ensures
        (args.pattern is Some && !pattern_compiles(args.pattern->Some_0@)) <==> (r is Err && r->Err_0 is RegexError),
        args.pattern is None ==> walk_result(*args, nomad_mode, *style, target_directory@, root_statuses@, entries@, Seq::empty(), r),
        args.pattern is Some && pattern_compiles(args.pattern->Some_0@) ==> walk_result(*args, nomad_mode, *style,
            target_directory@, root_statuses@, entries@, matches_of(args.pattern->Some_0@, entries@), r),
{
    match &args.pattern {
        Some(pattern) => {
            match compile(pattern.as_str()) {
                Ok(re) => {
                    let matches = find_matches(&re, entries);
                    let r = assemble(args, nomad_mode, style, target_directory, root_statuses, entries, &matches);
                    r
                },
                Err(e) => Err(NomadError::RegexError(pattern_error_text(&e))),
            }
        },
        None => {
            let none: Vec<Option<(usize, usize)>> = Vec::new();
            assemble(args, nomad_mode, style, target_directory, root_statuses, entries, &none)
        },
    }
}

} // verus!
