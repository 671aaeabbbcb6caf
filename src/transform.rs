//! Turning a walk's flat list of found files into hierarchy nodes, with
//! every ancestor directory emitted once, before its first descendant.

use vstd::prelude::*;
use crate::error::NomadError;
use crate::paths::{join_under, relative, views, join_components, relative_components, same_components};

verus! {

/// A file that the walk found, with its status marker and the byte range of
/// the pattern's match in its name.
pub struct FoundItem {
    pub marker: Option<String>,
    pub matched: Option<(usize, usize)>,
    pub path: String,
}

/// A node of the hierarchy: its components below the root, its depth, its
/// kind, what it inherits from the found file, and its full path.
pub struct TransformedItem {
    pub components: Vec<String>,
    pub depth: usize,
    pub is_dir: bool,
    pub is_file: bool,
    pub marker: Option<String>,
    pub matched: Option<(usize, usize)>,
    pub path: String,
}

/// A found file as plain sequences.
pub struct FoundView {
    pub marker: Option<Seq<char>>,
    pub matched: Option<(usize, usize)>,
    pub path: Seq<char>,
}

/// A hierarchy node as plain sequences.
pub struct NodeView {
    pub components: Seq<Seq<char>>,
    pub depth: nat,
    pub is_dir: bool,
    pub is_file: bool,
    pub marker: Option<Seq<char>>,
    pub matched: Option<(usize, usize)>,
    pub path: Seq<char>,
}

/// The characters of an optional string.
pub open spec fn opt_view(o: Option<String>) -> Option<Seq<char>> {
    match o {
        Some(s) => Some(s@),
        None => None,
    }
}

impl View for FoundItem {
    type V = FoundView;

    open spec fn view(&self) -> FoundView {
        FoundView { marker: opt_view(self.marker), matched: self.matched, path: self.path@ }
    }
}

impl View for TransformedItem {
    type V = NodeView;

    open spec fn view(&self) -> NodeView {
        NodeView {
            components: views(self.components@),
            depth: self.depth as nat,
            is_dir: self.is_dir,
            is_file: self.is_file,
            marker: opt_view(self.marker),
            matched: self.matched,
            path: self.path@,
        }
    }
}

/// The views of found files.
pub open spec fn found_views(v: Seq<FoundItem>) -> Seq<FoundView> {
    v.map_values(|f: FoundItem| f@)
}

/// The views of hierarchy nodes.
pub open spec fn node_views(v: Seq<TransformedItem>) -> Seq<NodeView> {
    v.map_values(|t: TransformedItem| t@)
}

/// The directory node for the components `pre` under `root`.
pub open spec fn dir_node(root: Seq<char>, pre: Seq<Seq<char>>) -> NodeView {
    NodeView {
        components: pre,
        depth: pre.len(),
        is_dir: true,
        is_file: false,
        marker: None,
        matched: None,
        path: join_under(root, pre),
    }
}

/// The file node for the components `pre` under `root`, carrying what
/// `item` found.
pub open spec fn file_node(root: Seq<char>, pre: Seq<Seq<char>>, item: FoundView) -> NodeView {
    NodeView {
        components: pre,
        depth: pre.len(),
        is_dir: false,
        is_file: true,
        marker: item.marker,
        matched: item.matched,
        path: join_under(root, pre),
    }
}

/// Whether `out` holds a directory node with components `c`.
pub open spec fn has_dir(out: Seq<NodeView>, c: Seq<Seq<char>>) -> bool {
    exists|j: int| 0 <= j < out.len() && #[trigger] out[j].is_dir && out[j].components == c
}

/// `out` after the components of `rel` from position `k` on: each
/// intermediate directory not yet in `out`, then the file itself.
pub open spec fn emit_from(
    out: Seq<NodeView>,
    rel: Seq<Seq<char>>,
    k: nat,
    item: FoundView,
    root: Seq<char>,
) -> Seq<NodeView>
    decreases rel.len() - k,
{
    if k >= rel.len() {
        out
    } else {
        let pre = rel.subrange(0, k + 1 as int);
        if k + 1 < rel.len() {
            if has_dir(out, pre) {
                emit_from(out, rel, k + 1, item, root)
            } else {
                emit_from(out.push(dir_node(root, pre)), rel, k + 1, item, root)
            }
        } else {
            emit_from(out.push(file_node(root, pre, item)), rel, k + 1, item, root)
        }
    }
}

/// The hierarchy for `items` found under `root`, in arrival order; an item
/// that does not lie under `root` is skipped.
pub open spec fn flatten(items: Seq<FoundView>, root: Seq<char>) -> Seq<NodeView>
    decreases items.len(),
{
    if items.len() == 0 {
        Seq::empty()
    } else {
        let before = flatten(items.drop_last(), root);
        match relative(items.last().path, root) {
            Some(rel) => emit_from(before, rel, 0, items.last(), root),
            None => before,
        }
    }
}

/// No directory appears twice, and each file is preceded by a directory
/// node for every proper ancestor of it below the root.
pub open spec fn ancestors_present(nodes: Seq<NodeView>) -> bool {
    &&& forall|i: int, j: int|
        0 <= i < j < nodes.len() && #[trigger] nodes[i].is_dir && #[trigger] nodes[j].is_dir
            ==> nodes[i].components != nodes[j].components
    &&& forall|i: int, m: int|
        0 <= i < nodes.len() && #[trigger] nodes[i].is_file && 1 <= m < nodes[i].components.len()
            ==> #[trigger] has_dir(nodes.subrange(0, i), nodes[i].components.subrange(0, m))
    &&& forall|i: int| 0 <= i < nodes.len() ==> #[trigger] nodes[i].is_dir != nodes[i].is_file
}

proof fn lemma_push_keeps(out: Seq<NodeView>, x: NodeView)
    requires
        ancestors_present(out),
        x.is_dir != x.is_file,
        x.is_dir ==> !has_dir(out, x.components),
        x.is_file ==> forall|m: int| 1 <= m < x.components.len() ==> #[trigger] has_dir(out, x.components.subrange(0, m)),
    ensures
        ancestors_present(out.push(x)),
{
    let o2 = out.push(x);
    assert forall|i: int, j: int|
        0 <= i < j < o2.len() && #[trigger] o2[i].is_dir && #[trigger] o2[j].is_dir
            implies o2[i].components != o2[j].components by {
        if j == out.len() {
            if o2[i].components == o2[j].components {
                assert(out[i].is_dir);
            }
        } else {
            assert(out[i].is_dir && out[j].is_dir);
        }
    }
    assert forall|i: int, m: int|
        0 <= i < o2.len() && #[trigger] o2[i].is_file && 1 <= m < o2[i].components.len()
            implies #[trigger] has_dir(o2.subrange(0, i), o2[i].components.subrange(0, m)) by {
        if i == out.len() {
            assert(has_dir(out, x.components.subrange(0, m)));
            assert(o2.subrange(0, i) =~= out);
        } else {
            assert(out[i].is_file);
            assert(has_dir(out.subrange(0, i), out[i].components.subrange(0, m)));
            assert(o2.subrange(0, i) =~= out.subrange(0, i));
        }
    }
    assert forall|i: int| 0 <= i < o2.len() implies #[trigger] o2[i].is_dir != o2[i].is_file by {
        if i < out.len() {
            assert(out[i].is_dir != out[i].is_file);
        }
    }
}

proof fn lemma_has_dir_push(out: Seq<NodeView>, x: NodeView, c: Seq<Seq<char>>)
    requires
        has_dir(out, c),
    ensures
        has_dir(out.push(x), c),
{
    let j = choose|j: int| 0 <= j < out.len() && #[trigger] out[j].is_dir && out[j].components == c;
    assert(out.push(x)[j].is_dir);
}

proof fn lemma_emit_keeps(out: Seq<NodeView>, rel: Seq<Seq<char>>, k: nat, item: FoundView, root: Seq<char>)
    requires
        ancestors_present(out),
        k <= rel.len(),
        forall|m: int| 1 <= m <= k && m < rel.len() ==> #[trigger] has_dir(out, rel.subrange(0, m)),
    ensures
        ancestors_present(emit_from(out, rel, k, item, root)),
    decreases rel.len() - k,
{
    if k < rel.len() {
        let pre = rel.subrange(0, k + 1 as int);
        if k + 1 < rel.len() {
            if has_dir(out, pre) {
                assert forall|m: int| 1 <= m <= k + 1 && m < rel.len() implies #[trigger] has_dir(out, rel.subrange(0, m)) by {
                    if m == k + 1 {
                        assert(rel.subrange(0, m) == pre);
                    }
                }
                lemma_emit_keeps(out, rel, k + 1, item, root);
            } else {
                let x = dir_node(root, pre);
                lemma_push_keeps(out, x);
                let o2 = out.push(x);
                assert forall|m: int| 1 <= m <= k + 1 && m < rel.len() implies #[trigger] has_dir(o2, rel.subrange(0, m)) by {
                    if m == k + 1 {
                        assert(o2[out.len() as int].is_dir);
                        assert(rel.subrange(0, m) =~= pre);
                    } else {
                        lemma_has_dir_push(out, x, rel.subrange(0, m));
                    }
                }
                lemma_emit_keeps(o2, rel, k + 1, item, root);
            }
        } else {
            let x = file_node(root, pre, item);
            assert forall|m: int| 1 <= m < x.components.len() implies #[trigger] has_dir(out, x.components.subrange(0, m)) by {
                assert(x.components.subrange(0, m) =~= rel.subrange(0, m));
            }
            lemma_push_keeps(out, x);
            assert forall|m: int| 1 <= m <= k + 1 && m < rel.len() implies #[trigger] has_dir(out.push(x), rel.subrange(0, m)) by {
                lemma_has_dir_push(out, x, rel.subrange(0, m));
            }
            lemma_emit_keeps(out.push(x), rel, k + 1, item, root);
        }
    }
}

/// Whatever the order of the found items, every file node's chain of
/// ancestor directories below the root precedes it, each directory appears
/// exactly once, and every node is either a directory or a file.
pub proof fn lemma_ancestors_present(items: Seq<FoundView>, root: Seq<char>)
    ensures
        ancestors_present(flatten(items, root)),
    decreases items.len(),
{
    if items.len() > 0 {
        lemma_ancestors_present(items.drop_last(), root);
        let before = flatten(items.drop_last(), root);
        match relative(items.last().path, root) {
            Some(rel) => lemma_emit_keeps(before, rel, 0, items.last(), root),
            None => {},
        }
    }
}

/// A copy of a list of strings.
pub fn copy_strings(v: &Vec<String>) -> (r: Vec<String>)
    ensures
        views(r@) == views(v@),
{
    let mut r: Vec<String> = Vec::new();
    let mut i: usize = 0;
    while i < v.len()
        invariant
            i <= v.len(),
            views(r@) =~= views(v@).subrange(0, i as int),
        decreases v.len() - i,
    {
        let ghost before = r@;
        r.push(v[i].clone());
        proof {
            assert(views(r@) =~= views(before).push(v@[i as int]@));
        }
        i = i + 1;
    }
    proof {
        assert(views(v@).subrange(0, v.len() as int) =~= views(v@));
    }
    r
}

/// A copy of an optional string.
pub fn copy_opt(o: &Option<String>) -> (r: Option<String>)
    ensures
        opt_view(r) == opt_view(*o),
{
    match o {
        Some(s) => Some(s.clone()),
        None => None,
    }
}

/// Whether `out` already holds a directory node with components `c`.
fn holds_dir(out: &Vec<TransformedItem>, c: &Vec<String>) -> (r: bool)
    ensures
        r == has_dir(node_views(out@), views(c@)),
{
    let mut j: usize = 0;
    while j < out.len()
        invariant
            j <= out.len(),
            forall|k: int| 0 <= k < j ==> !(#[trigger] out@[k].is_dir && views(out@[k].components@) == views(c@)),
        decreases out.len() - j,
    {
        if out[j].is_dir && same_components(&out[j].components, c) {
            proof {
                assert(node_views(out@)[j as int].is_dir);
            }
            return true;
        }
        j = j + 1;
    }
    proof {
        assert forall|k: int| 0 <= k < node_views(out@).len() implies !(#[trigger] node_views(out@)[k].is_dir && node_views(out@)[k].components == views(c@)) by {
            assert(!(out@[k].is_dir && views(out@[k].components@) == views(c@)));
        }
    }
    false
}

/// Converts a list of found files into hierarchy nodes.
pub trait TransformFound: Sized {
    /// The found files that the value holds.
    spec fn found(&self) -> Seq<FoundView>;

    /// The hierarchy of the found files under `target_directory`, in
    /// arrival order, with each ancestor directory emitted once before its
    /// first descendant; fails with `NothingFound` on an empty list.
    fn transform(self, target_directory: &str) -> (r: Result<Vec<TransformedItem>, NomadError>)
        ensures
            self.found().len() == 0 <==> r is Err,
            r is Err ==> r->Err_0 is NothingFound,
            r is Ok ==> node_views(r->Ok_0@) == flatten(self.found(), target_directory@),
    ;
}

impl TransformFound for Vec<FoundItem> {
    open spec fn found(&self) -> Seq<FoundView> {
        found_views(self@)
    }

    fn transform(self, target_directory: &str) -> (r: Result<Vec<TransformedItem>, NomadError>) {
        if self.len() == 0 {
            return Err(NomadError::NothingFound);
        }
        let ghost root = target_directory@;
        let ghost fv = found_views(self@);
        let mut transformed: Vec<TransformedItem> = Vec::new();
        let mut i: usize = 0;
        while i < self.len()
            invariant
                i <= self.len(),
                fv == found_views(self@),
                root == target_directory@,
                node_views(transformed@) == flatten(fv.subrange(0, i as int), root),
            decreases self.len() - i,
        {
            let found_item = &self[i];
            proof {
                let sub = fv.subrange(0, i + 1);
                assert(sub.drop_last() =~= fv.subrange(0, i as int));
                assert(sub.last() == found_item@);
            }
            let ghost before = node_views(transformed@);
            match relative_components(found_item.path.as_str(), target_directory) {
                None => {},
                Some(rel) => {
                    let ghost relv = views(rel@);
                    let mut components: Vec<String> = Vec::new();
                    let mut k: usize = 0;
                    while k < rel.len()
                        invariant
                            k <= rel.len(),
                            relv == views(rel@),
                            root == target_directory@,
                            views(components@) =~= relv.subrange(0, k as int),
                            emit_from(node_views(transformed@), relv, k as nat, found_item@, root)
                                == emit_from(before, relv, 0, found_item@, root),
                        decreases rel.len() - k,
                    {
                        let ghost cur = node_views(transformed@);
                        let ghost cbefore = components@;
                        components.push(rel[k].clone());
                        proof {
                            assert(views(components@) =~= views(cbefore).push(relv[k as int]));
                            assert(views(components@) =~= relv.subrange(0, k + 1));
                        }
                        if k + 1 < rel.len() {
                            if !holds_dir(&transformed, &components) {
                                let path = join_components(target_directory, &components);
                                let node = TransformedItem {
                                    components: copy_strings(&components),
                                    depth: k + 1,
                                    is_dir: true,
                                    is_file: false,
                                    marker: None,
                                    matched: None,
                                    path,
                                };
                                transformed.push(node);
                                proof {
                                    assert(node_views(transformed@) =~= cur.push(dir_node(root, relv.subrange(0, k + 1))));
                                }
                            }
                        } else {
                            let path = join_components(target_directory, &components);
                            let node = TransformedItem {
                                components: copy_strings(&components),
                                depth: k + 1,
                                is_dir: false,
                                is_file: true,
                                marker: copy_opt(&found_item.marker),
                                matched: found_item.matched,
                                path,
                            };
                            transformed.push(node);
                            proof {
                                assert(node_views(transformed@) =~= cur.push(file_node(root, relv.subrange(0, k + 1), found_item@)));
                            }
                        }
                        k = k + 1;
                    }
                },
            }
            i = i + 1;
        }
        proof {
            assert(fv.subrange(0, self.len() as int) =~= fv);
        }
        Ok(transformed)
    }
}

} // verus!
