//! Version-control status markers: which marker a status earns, and the
//! merged map from path to painted marker that a render consults.

use vstd::prelude::*;
use vstd::string::StringExecFns;
use crate::label::decimal;
use crate::paths::{join_one, same_text};
use crate::transform::opt_view;

verus! {

/// The status flags of one entry, as version control reports them.
#[derive(PartialEq, Eq, Structural, Clone, Copy)]
pub struct StatusFlags {
    pub index_new: bool,
    pub index_modified: bool,
    pub index_deleted: bool,
    pub index_renamed: bool,
    pub wt_new: bool,
    pub wt_modified: bool,
    pub wt_deleted: bool,
    pub wt_renamed: bool,
    pub conflicted: bool,
}

/// The status that a marker shows.
#[derive(PartialEq, Eq, Structural, Clone, Copy)]
pub enum MarkerKind {
    StagedDeleted,
    StagedModified,
    StagedAdded,
    StagedRenamed,
    Deleted,
    Modified,
    Untracked,
    Renamed,
    Conflicted,
}

/// An entry of a status report: its path relative to the repository, and
/// its flags.
pub struct StatusEntry {
    pub path: String,
    pub status: StatusFlags,
}

/// The text of a marker and its colour (a 256-colour terminal code).
pub struct StatusMarker {
    pub marker: String,
    pub colour: u8,
}

/// The marker of each status.
pub struct MarkerStyle {
    pub staged_deleted: StatusMarker,
    pub staged_modified: StatusMarker,
    pub staged_added: StatusMarker,
    pub staged_renamed: StatusMarker,
    pub deleted: StatusMarker,
    pub modified: StatusMarker,
    pub untracked: StatusMarker,
    pub renamed: StatusMarker,
    pub conflicted: StatusMarker,
}

/// The status that an entry's marker shows: staged changes before changes
/// in the working tree, deletions before modifications before additions
/// before renames, and conflicts last; `None` for a clean entry.
pub open spec fn classify(f: StatusFlags) -> Option<MarkerKind> {
    if f.index_deleted {
        Some(MarkerKind::StagedDeleted)
    } else if f.index_modified {
        Some(MarkerKind::StagedModified)
    } else if f.index_new {
        Some(MarkerKind::StagedAdded)
    } else if f.index_renamed {
        Some(MarkerKind::StagedRenamed)
    } else if f.wt_deleted {
        Some(MarkerKind::Deleted)
    } else if f.wt_modified {
        Some(MarkerKind::Modified)
    } else if f.wt_new {
        Some(MarkerKind::Untracked)
    } else if f.wt_renamed {
        Some(MarkerKind::Renamed)
    } else if f.conflicted {
        Some(MarkerKind::Conflicted)
    } else {
        None
    }
}

/// The marker that `s` gives status `k`.
pub open spec fn style_for(s: MarkerStyle, k: MarkerKind) -> StatusMarker {
    match k {
        MarkerKind::StagedDeleted => s.staged_deleted,
        MarkerKind::StagedModified => s.staged_modified,
        MarkerKind::StagedAdded => s.staged_added,
        MarkerKind::StagedRenamed => s.staged_renamed,
        MarkerKind::Deleted => s.deleted,
        MarkerKind::Modified => s.modified,
        MarkerKind::Untracked => s.untracked,
        MarkerKind::Renamed => s.renamed,
        MarkerKind::Conflicted => s.conflicted,
    }
}

/// `text` in the terminal colour `colour`, followed by a reset.
pub open spec fn painted(colour: u8, text: Seq<char>) -> Seq<char> {
    seq!['\x1b', '[', '3', '8', ';', '5', ';'] + decimal(colour as nat) + seq!['m'] + text + seq!['\x1b', '[', '0', 'm']
}

/// The painted marker of status `k`.
pub open spec fn marker_text(s: MarkerStyle, k: MarkerKind) -> Seq<char> {
    painted(style_for(s, k).colour, style_for(s, k).marker@)
}

/// Relies on ansi_term's `Colour::Fixed(colour).paint(text)` and its
/// `Display`: the escape that selects the colour, the text, the escape that
/// resets.
#[verifier::external_body]
fn paint(colour: u8, text: &str) -> (r: String)
    ensures
        r@ == painted(colour, text@),
{
    ansi_term::Colour::Fixed(colour).paint(text).to_string()
}

/// The status that an entry's marker shows.
pub fn classify_status(f: StatusFlags) -> (r: Option<MarkerKind>)
    ensures
        r == classify(f),
{
    if f.index_deleted {
        Some(MarkerKind::StagedDeleted)
    } else if f.index_modified {
        Some(MarkerKind::StagedModified)
    } else if f.index_new {
        Some(MarkerKind::StagedAdded)
    } else if f.index_renamed {
        Some(MarkerKind::StagedRenamed)
    } else if f.wt_deleted {
        Some(MarkerKind::Deleted)
    } else if f.wt_modified {
        Some(MarkerKind::Modified)
    } else if f.wt_new {
        Some(MarkerKind::Untracked)
    } else if f.wt_renamed {
        Some(MarkerKind::Renamed)
    } else if f.conflicted {
        Some(MarkerKind::Conflicted)
    } else {
        None
    }
}

/// The staged or conflicted status whose painted marker is `marker`, if
/// any, looked for in this order: staged deletion, modification, addition,
/// renaming, conflict.
pub open spec fn staged_kind_of(style: MarkerStyle, marker: Seq<char>) -> Option<MarkerKind> {
    if marker == marker_text(style, MarkerKind::StagedDeleted) {
        Some(MarkerKind::StagedDeleted)
    } else if marker == marker_text(style, MarkerKind::StagedModified) {
        Some(MarkerKind::StagedModified)
    } else if marker == marker_text(style, MarkerKind::StagedAdded) {
        Some(MarkerKind::StagedAdded)
    } else if marker == marker_text(style, MarkerKind::StagedRenamed) {
        Some(MarkerKind::StagedRenamed)
    } else if marker == marker_text(style, MarkerKind::Conflicted) {
        Some(MarkerKind::Conflicted)
    } else {
        None
    }
}

/// The staged or conflicted status that a painted marker shows, which
/// decides how the file's name is painted.
pub fn staged_kind(style: &MarkerStyle, marker: &String) -> (r: Option<MarkerKind>)
    ensures
        r == staged_kind_of(*style, marker@),
{
    let kinds = [MarkerKind::StagedDeleted, MarkerKind::StagedModified, MarkerKind::StagedAdded, MarkerKind::StagedRenamed, MarkerKind::Conflicted];
    let mut i: usize = 0;
    while i < 5
        invariant
            i <= 5,
            kinds@ == seq![MarkerKind::StagedDeleted, MarkerKind::StagedModified, MarkerKind::StagedAdded, MarkerKind::StagedRenamed, MarkerKind::Conflicted],
            forall|j: int| 0 <= j < i ==> marker@ != #[trigger] marker_text(*style, kinds@[j]),
        decreases 5 - i,
    {
        let k = kinds[i];
        let sm = style.marker_for(k);
        let text = paint(sm.colour, sm.marker.as_str());
        if same_text(&text, marker) {
            proof {
                assert(forall|j: int| 0 <= j < i ==> marker@ != #[trigger] marker_text(*style, kinds@[j]));
            }
            return Some(k);
        }
        i = i + 1;
    }
    None
}

impl MarkerStyle {
    fn marker_for(&self, k: MarkerKind) -> (r: &StatusMarker)
        ensures
            *r == style_for(*self, k),
    {
        match k {
            MarkerKind::StagedDeleted => &self.staged_deleted,
            MarkerKind::StagedModified => &self.staged_modified,
            MarkerKind::StagedAdded => &self.staged_added,
            MarkerKind::StagedRenamed => &self.staged_renamed,
            MarkerKind::Deleted => &self.deleted,
            MarkerKind::Modified => &self.modified,
            MarkerKind::Untracked => &self.untracked,
            MarkerKind::Renamed => &self.renamed,
            MarkerKind::Conflicted => &self.conflicted,
        }
    }
}

/// Paths and their painted markers, in the order they were added; a later
/// entry for a path overrides an earlier one. A list rather than a hash map
/// keyed by `String`, whose lookups could not be stated and proved.
pub struct MarkerMap {
    pub entries: Vec<(String, String)>,
}

/// The entries as pairs of character sequences.
pub open spec fn pair_views(v: Seq<(String, String)>) -> Seq<(Seq<char>, Seq<char>)> {
    v.map_values(|e: (String, String)| (e.0@, e.1@))
}

impl View for MarkerMap {
    type V = Seq<(Seq<char>, Seq<char>)>;

    open spec fn view(&self) -> Seq<(Seq<char>, Seq<char>)> {
        pair_views(self.entries@)
    }
}

/// The marker of `path` in `m`: that of the last entry for it.
pub open spec fn lookup(m: Seq<(Seq<char>, Seq<char>)>, path: Seq<char>) -> Option<Seq<char>>
    decreases m.len(),
{
    if m.len() == 0 {
        None
    } else if m.last().0 == path {
        Some(m.last().1)
    } else {
        lookup(m.drop_last(), path)
    }
}

/// The entries that a status report under `base` adds: one per entry with a
/// status, keyed by `base` joined with its path, in report order.
pub open spec fn status_pairs(style: MarkerStyle, statuses: Seq<StatusEntry>, base: Seq<char>) -> Seq<(Seq<char>, Seq<char>)>
    decreases statuses.len(),
{
    if statuses.len() == 0 {
        Seq::empty()
    } else {
        let before = status_pairs(style, statuses.drop_last(), base);
        let e = statuses.last();
        match classify(e.status) {
            Some(k) => before.push((join_one(base, e.path@), marker_text(style, k))),
            None => before,
        }
    }
}

impl MarkerMap {
    /// A map with no markers.
    pub fn new() -> (r: MarkerMap)
        ensures
            r@.len() == 0,
    {
        MarkerMap { entries: Vec::new() }
    }

    /// The marker of `path`.
    pub fn get(&self, path: &String) -> (r: Option<String>)
        ensures
            opt_view(r) == lookup(self@, path@),
    {
        let mut i: usize = self.entries.len();
        proof {
            assert(self@.subrange(0, i as int) =~= self@);
        }
        while i > 0
            invariant
                i <= self.entries.len(),
                lookup(self@, path@) == lookup(self@.subrange(0, i as int), path@),
            decreases i,
        {
            let ghost sub = self@.subrange(0, i as int);
            proof {
                assert(sub.drop_last() =~= self@.subrange(0, i - 1));
            }
            if same_text(&self.entries[i - 1].0, path) {
                return Some(self.entries[i - 1].1.clone());
            }
            i = i - 1;
        }
        None
    }
}

/// The painted markers of a status report for the directory
/// `target_directory`.
pub fn get_status_markers(style: &MarkerStyle, statuses: &Vec<StatusEntry>, target_directory: &str) -> (r: MarkerMap)
    ensures
        r@ == status_pairs(*style, statuses@, target_directory@),
{
    let mut m = MarkerMap::new();
    let mut i: usize = 0;
    while i < statuses.len()
        invariant
            i <= statuses.len(),
            m@ == status_pairs(*style, statuses@.subrange(0, i as int), target_directory@),
        decreases statuses.len() - i,
    {
        let e = &statuses[i];
        proof {
            assert(statuses@.subrange(0, i + 1).drop_last() =~= statuses@.subrange(0, i as int));
        }
        match classify_status(e.status) {
            Some(k) => {
                let sm = style.marker_for(k);
                let text = paint(sm.colour, sm.marker.as_str());
                let key = join_path(target_directory, e.path.as_str());
                let ghost before = m@;
                m.entries.push((key, text));
                proof {
                    assert(m@ =~= before.push((join_one(target_directory@, e.path@), marker_text(*style, k))));
                }
            },
            None => {},
        }
        i = i + 1;
    }
    proof {
        assert(statuses@.subrange(0, statuses.len() as int) =~= statuses@);
    }
    m
}

/// `base` and `rest` joined by a separator.
fn join_path(base: &str, rest: &str) -> (r: String)
    ensures
        r@ == join_one(base@, rest@),
{
    let mut one: Vec<String> = Vec::new();
    one.push(String::from_str(rest));
    let r = crate::paths::join_components(base, &one);
    proof {
        let v = crate::paths::views(one@);
        assert(v =~= seq![rest@]);
        assert(v.drop_last() =~= Seq::<Seq<char>>::empty());
        assert(v.last() == rest@);
        assert(crate::paths::join_under(base@, v.drop_last()) == base@);
        assert(crate::paths::join_under(base@, v) == join_one(base@, rest@));
    }
    r
}

/// Adds the markers of a directory's status report to the map; the new
/// entries override older ones for the same paths.
pub fn extend_marker_map(git_markers: &mut MarkerMap, style: &MarkerStyle, statuses: &Vec<StatusEntry>, target_directory: &str)
    ensures
        final(git_markers)@ == old(git_markers)@ + status_pairs(*style, statuses@, target_directory@),
{
    let more = get_status_markers(style, statuses, target_directory);
    let ghost start = git_markers@;
    let mut i: usize = 0;
    while i < more.entries.len()
        invariant
            i <= more.entries.len(),
            git_markers@ == start + more@.subrange(0, i as int),
        decreases more.entries.len() - i,
    {
        let (k, v) = (more.entries[i].0.clone(), more.entries[i].1.clone());
        let ghost before = git_markers@;
        git_markers.entries.push((k, v));
        proof {
            assert(git_markers@ =~= before.push(more@[i as int]));
            assert(start + more@.subrange(0, i + 1) =~= (start + more@.subrange(0, i as int)).push(more@[i as int]));
        }
        i = i + 1;
    }
    proof {
        assert(more@.subrange(0, more.entries.len() as int) =~= more@);
    }
}

} // verus!
