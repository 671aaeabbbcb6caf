//! The tree of the entries that version control reports as changed.

use vstd::prelude::*;
use itertools::Itertools;
use crate::cli::Args;
use crate::error::NomadError;
use crate::markers::MarkerMap;
use crate::modes::NomadMode;
use crate::transform::{FoundItem, FoundView, TransformFound, flatten, found_views};
use crate::traverse::{compile, first_match, pattern_error_text, pattern_compiles, match_at, leftmost_match};
use crate::tree::{ToTree, TreeOutput, renders_as};

verus! {

/// Whether `a` comes before `b` or equals it in the order of strings:
/// lexicographic by character, a prefix first.
pub open spec fn text_le(a: Seq<char>, b: Seq<char>) -> bool
    decreases a.len(),
{
    if a.len() == 0 {
        true
    } else if b.len() == 0 {
        false
    } else if a[0] != b[0] {
        (a[0] as u32) < (b[0] as u32)
    } else {
        text_le(a.drop_first(), b.drop_first())
    }
}

/// Whether the found files are in ascending order of path.
pub open spec fn sorted_by_path(s: Seq<FoundView>) -> bool {
    forall|i: int, j: int| 0 <= i < j < s.len() ==> text_le(#[trigger] s[i].path, #[trigger] s[j].path)
}

/// Relies on itertools' `sorted_by_key` with the path as key, which
/// collects the items and sorts them with `slice::sort_by_key`: the same
/// items in ascending order of path, strings being ordered
/// lexicographically by their UTF-8 bytes, which is the order of their
/// characters.
#[verifier::external_body]
fn sort_by_path(items: Vec<FoundItem>) -> (r: Vec<FoundItem>)
    ensures
        found_views(r@).to_multiset() == found_views(items@).to_multiset(),
        sorted_by_path(found_views(r@)),
{
    items.into_iter().sorted_by_key(|f| f.path.clone()).collect()
}

/// The pattern's match in the path of each entry of the marker map.
pub open spec fn path_matches(pattern: Seq<char>, markers: Seq<(Seq<char>, Seq<char>)>) -> Seq<Option<(usize, usize)>> {
    Seq::new(markers.len(), |i: int| leftmost_match(pattern, markers[i].0))
}

/// The changed files: each entry of the marker map, with its marker, unless
/// a pattern is used and did not match its path.
pub open spec fn status_found(
    markers: Seq<(Seq<char>, Seq<char>)>,
    matches: Seq<Option<(usize, usize)>>,
    use_pattern: bool,
) -> Seq<FoundView>
    decreases markers.len(),
{
    if markers.len() == 0 {
        Seq::empty()
    } else {
        let before = status_found(markers.drop_last(), matches, use_pattern);
        let i = markers.len() - 1;
        if use_pattern && match_at(matches, i) is None {
            before
        } else {
            before.push(FoundView {
                marker: Some(markers.last().1),
                matched: if use_pattern { match_at(matches, i) } else { None },
                path: markers.last().0,
            })
        }
    }
}

/// Whether `r` is the tree of the changed files `found`, in ascending order
/// of path: `NothingFound` when there is none.
pub open spec fn status_result(found: Seq<FoundView>, args: Args, root: Seq<char>, r: Result<TreeOutput, NomadError>) -> bool {
    exists|s: Seq<FoundView>|
        s.to_multiset() == found.to_multiset() && sorted_by_path(s) && #[trigger] sorted_result(s, args, root, r)
}

/// Whether `r` is the tree of the files `s`, in their order.
pub open spec fn sorted_result(s: Seq<FoundView>, args: Args, root: Seq<char>, r: Result<TreeOutput, NomadError>) -> bool {
    if s.len() == 0 {
        r is Err && r->Err_0 is NothingFound
    } else {
        r is Ok && renders_as(flatten(s, root), &args, NomadMode::GitStatus, root, r->Ok_0)
    }
}

/// The changed files of the marker map, as `status_found` states.
pub fn collect_status(markers: &MarkerMap, matches: &Vec<Option<(usize, usize)>>, use_pattern: bool) -> (r: Vec<FoundItem>)
    ensures
        found_views(r@) == status_found(markers@, matches@, use_pattern),
{
    let mut found: Vec<FoundItem> = Vec::new();
    let mut i: usize = 0;
    while i < markers.entries.len()
        invariant
            i <= markers.entries.len(),
            found_views(found@) == status_found(markers@.subrange(0, i as int), matches@, use_pattern),
        decreases markers.entries.len() - i,
    {
        proof {
            assert(markers@.subrange(0, i + 1).drop_last() =~= markers@.subrange(0, i as int));
        }
        let m = if i < matches.len() { matches[i] } else { None };
        if !(use_pattern && m.is_none()) {
            let ghost before = found@;
            found.push(FoundItem {
                marker: Some(markers.entries[i].1.clone()),
                matched: if use_pattern { m } else { None },
                path: markers.entries[i].0.clone(),
            });
            proof {
                assert(found_views(found@) =~= found_views(before).push(found@.last()@));
            }
        }
        i = i + 1;
    }
    proof {
        assert(markers@.subrange(0, markers.entries.len() as int) =~= markers@);
    }
    found
}

/// The tree of the changed files `sorted`, in their order.
pub fn status_tree_from(sorted: Vec<FoundItem>, args: &Args, target_directory: &str) -> (r: Result<TreeOutput, NomadError>)
    ensures
        sorted_result(found_views(sorted@), *args, target_directory@, r),
{
    match sorted.transform(target_directory) {
        Ok(nodes) => Ok(nodes.to_tree(args, NomadMode::GitStatus, target_directory)),
        Err(e) => Err(e),
    }
}

/// The tree of the entries of `markers`, in ascending order of path: fails
/// with `RegexError` exactly when a pattern is given that does not compile;
/// otherwise the tree of the entries whose path the pattern matches (of
/// every entry with no pattern).
pub fn build_status_tree(args: &Args, markers: &MarkerMap, target_directory: &str) -> (r: Result<TreeOutput, NomadError>)
    ensures
        (args.pattern is Some && !pattern_compiles(args.pattern->Some_0@)) <==> (r is Err && r->Err_0 is RegexError),
        args.pattern is None ==> status_result(status_found(markers@, Seq::empty(), false), *args, target_directory@, r),
        args.pattern is Some && pattern_compiles(args.pattern->Some_0@) ==> status_result(
            status_found(markers@, path_matches(args.pattern->Some_0@, markers@), true), *args, target_directory@, r),
{
    let mut matches: Vec<Option<(usize, usize)>> = Vec::new();
    let use_pattern = args.pattern.is_some();
    match &args.pattern {
        Some(pattern) => {
            match compile(pattern.as_str()) {
                Ok(re) => {
                    let mut i: usize = 0;
                    while i < markers.entries.len()
                        invariant
                            i <= markers.entries.len(),
                            matches@.len() == i,
                            re.source() == pattern@,
                            forall|j: int| 0 <= j < i ==> #[trigger] matches@[j] == path_matches(pattern@, markers@)[j],
                        decreases markers.entries.len() - i,
                    {
                        matches.push(first_match(&re, markers.entries[i].0.as_str()));
                        i = i + 1;
                    }
                    proof {
                        assert(matches@ =~= path_matches(pattern@, markers@));
                    }
                },
                Err(e) => {
                    return Err(NomadError::RegexError(pattern_error_text(&e)));
                },
            }
        },
        None => {},
    }
    let found = collect_status(markers, &matches, use_pattern);
    let sorted = sort_by_path(found);
    let ghost s = found_views(sorted@);
    let r = status_tree_from(sorted, args, target_directory);
    proof {
        if !use_pattern {
            assert(status_found(markers@, matches@, false) == status_found(markers@, Seq::empty(), false)) by {
                lemma_status_found_unmatched(markers@, matches@);
            }
        }
        assert(sorted_result(s, *args, target_directory@, r));
        assert(status_result(status_found(markers@, matches@, use_pattern), *args, target_directory@, r));
    }
    r
}

proof fn lemma_status_found_unmatched(markers: Seq<(Seq<char>, Seq<char>)>, m: Seq<Option<(usize, usize)>>)
    ensures
        status_found(markers, m, false) == status_found(markers, Seq::empty(), false),
    decreases markers.len(),
{
    if markers.len() > 0 {
        lemma_status_found_unmatched(markers.drop_last(), m);
    }
}

} // verus!
