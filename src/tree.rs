//! Rendering hierarchy nodes as a nested tree: scopes are closed and opened
//! from one node to the next, directories get labels and files numbers,
//! and the address table and counts are collected on the way.

use vstd::prelude::*;
use vstd::string::StringExecFns;
use vstd::string::StringSliceAdditionalSpecFns;
use crate::cli::{Args, shows_labels, shows_numbers};
use crate::label::{label_of, directory_label};
use crate::modes::NomadMode;
use crate::paths::{views, same_text};
use crate::table::AddressTable;
use crate::transform::{NodeView, TransformedItem, node_views, opt_view, copy_opt};

verus! {

/// One step of the rendered tree.
pub enum RenderOp {
    /// Open the scope of a directory, shown with its name and, when labels
    /// are shown, its label.
    OpenDir { name: String, label: Option<String> },
    /// A file, shown with its name, its number when numbers are shown, its
    /// marker, and the byte range in its name that the pattern matched.
    File { name: String, number: Option<usize>, marker: Option<String>, matched: Option<(usize, usize)> },
    /// Close the innermost open scope.
    Close,
}

/// A render step as plain sequences.
pub enum OpView {
    Open { name: Seq<char>, label: Option<Seq<char>> },
    Leaf { name: Seq<char>, number: Option<nat>, marker: Option<Seq<char>>, matched: Option<(usize, usize)> },
    Close,
}

impl View for RenderOp {
    type V = OpView;

    open spec fn view(&self) -> OpView {
        match self {
            RenderOp::OpenDir { name, label } => OpView::Open { name: name@, label: opt_view(*label) },
            RenderOp::File { name, number, marker, matched } => OpView::Leaf {
                name: name@,
                number: match number {
                    Some(n) => Some(*n as nat),
                    None => None,
                },
                marker: opt_view(*marker),
                matched: *matched,
            },
            RenderOp::Close => OpView::Close,
        }
    }
}

/// The views of render steps.
pub open spec fn op_views(v: Seq<RenderOp>) -> Seq<OpView> {
    v.map_values(|o: RenderOp| o@)
}

/// What a render shows.
pub struct RenderOpts {
    pub labels: bool,
    pub numbers: bool,
    pub dirs_only: bool,
}

/// The state of a render after some nodes: the steps so far, the names of
/// the open scopes (outermost first), the labelled and numbered paths, and
/// the path of every node.
pub struct RenderState {
    pub ops: Seq<OpView>,
    pub open: Seq<Seq<char>>,
    pub dirs: Seq<Seq<char>>,
    pub files: Seq<Seq<char>>,
    pub items: Seq<Seq<char>>,
}

/// How many leading names `a` and `b` share, counting from `k`.
pub open spec fn shared_from(a: Seq<Seq<char>>, b: Seq<Seq<char>>, k: nat) -> nat
    decreases a.len() - k,
{
    if k < a.len() && k < b.len() && a[k as int] == b[k as int] {
        shared_from(a, b, k + 1)
    } else {
        k
    }
}

/// `ops` followed by `n` closes.
pub open spec fn push_closes(ops: Seq<OpView>, n: nat) -> Seq<OpView>
    decreases n,
{
    if n == 0 {
        ops
    } else {
        push_closes(ops, (n - 1) as nat).push(OpView::Close)
    }
}

/// The last name of a node, or nothing for the root.
pub open spec fn node_name(n: NodeView) -> Seq<char> {
    if n.components.len() > 0 {
        n.components.last()
    } else {
        Seq::empty()
    }
}

/// The render state after one more node: the open scopes that are not
/// ancestors of the node are closed, innermost first; then a directory
/// opens a scope with the next label, and a file (unless only directories
/// are shown) takes the next number.
pub open spec fn render_step(st: RenderState, n: NodeView, opts: RenderOpts) -> RenderState {
    let parent = if n.components.len() > 0 { n.components.drop_last() } else { n.components };
    let shared = shared_from(st.open, parent, 0);
    let base = push_closes(st.ops, (st.open.len() - shared) as nat);
    let kept = st.open.subrange(0, shared as int);
    let items = st.items.push(n.path);
    if n.is_dir {
        RenderState {
            ops: base.push(OpView::Open {
                name: node_name(n),
                label: if opts.labels { Some(label_of(st.dirs.len())) } else { None },
            }),
            open: kept.push(node_name(n)),
            dirs: st.dirs.push(n.path),
            files: st.files,
            items,
        }
    } else if n.is_file && !opts.dirs_only {
        RenderState {
            ops: base.push(OpView::Leaf {
                name: node_name(n),
                number: if opts.numbers { Some(st.files.len()) } else { None },
                marker: n.marker,
                matched: n.matched,
            }),
            open: kept,
            dirs: st.dirs,
            files: st.files.push(n.path),
            items,
        }
    } else {
        RenderState { ops: base, open: kept, dirs: st.dirs, files: st.files, items }
    }
}

/// The render state after the nodes in order.
pub open spec fn render_nodes(nodes: Seq<NodeView>, opts: RenderOpts) -> RenderState
    decreases nodes.len(),
{
    if nodes.len() == 0 {
        RenderState { ops: Seq::empty(), open: Seq::empty(), dirs: Seq::empty(), files: Seq::empty(), items: Seq::empty() }
    } else {
        render_step(render_nodes(nodes.drop_last(), opts), nodes.last(), opts)
    }
}

/// The steps of the whole render: those of the nodes, then a close for
/// every scope still open, so that only the root remains.
pub open spec fn render_ops(nodes: Seq<NodeView>, opts: RenderOpts) -> Seq<OpView> {
    let st = render_nodes(nodes, opts);
    push_closes(st.ops, st.open.len())
}

/// The change of nesting depth that one step makes.
pub open spec fn delta(o: OpView) -> int {
    match o {
        OpView::Open { .. } => 1,
        OpView::Close => -1,
        OpView::Leaf { .. } => 0,
    }
}

/// The nesting depth after `ops`, the root's scope not counted.
pub open spec fn depth(ops: Seq<OpView>) -> int
    decreases ops.len(),
{
    if ops.len() == 0 {
        0
    } else {
        depth(ops.drop_last()) + delta(ops.last())
    }
}

/// No prefix of `ops` closes more scopes than it opened.
pub open spec fn never_below_root(ops: Seq<OpView>) -> bool {
    forall|k: int| 0 <= k <= ops.len() ==> #[trigger] depth(ops.subrange(0, k)) >= 0
}

proof fn lemma_push_depth(ops: Seq<OpView>, o: OpView)
    requires
        never_below_root(ops),
        depth(ops) + delta(o) >= 0,
    ensures
        never_below_root(ops.push(o)),
        depth(ops.push(o)) == depth(ops) + delta(o),
{
    let p = ops.push(o);
    assert(p.drop_last() =~= ops);
    assert forall|k: int| 0 <= k <= p.len() implies #[trigger] depth(p.subrange(0, k)) >= 0 by {
        if k <= ops.len() {
            assert(p.subrange(0, k) =~= ops.subrange(0, k));
        } else {
            assert(p.subrange(0, k) =~= p);
        }
    }
}

proof fn lemma_push_closes(ops: Seq<OpView>, n: nat)
    requires
        never_below_root(ops),
        n <= depth(ops),
    ensures
        never_below_root(push_closes(ops, n)),
        depth(push_closes(ops, n)) == depth(ops) - n,
    decreases n,
{
    if n > 0 {
        lemma_push_closes(ops, (n - 1) as nat);
        lemma_push_depth(push_closes(ops, (n - 1) as nat), OpView::Close);
    }
}

proof fn lemma_shared_bound(a: Seq<Seq<char>>, b: Seq<Seq<char>>, k: nat)
    requires
        k <= a.len(),
    ensures
        k <= shared_from(a, b, k) <= a.len(),
    decreases a.len() - k,
{
    if k < a.len() && k < b.len() && a[k as int] == b[k as int] {
        lemma_shared_bound(a, b, k + 1);
    }
}

proof fn lemma_render_depth(nodes: Seq<NodeView>, opts: RenderOpts)
    ensures
        never_below_root(render_nodes(nodes, opts).ops),
        depth(render_nodes(nodes, opts).ops) == render_nodes(nodes, opts).open.len(),
    decreases nodes.len(),
{
    if nodes.len() == 0 {
        assert forall|k: int| 0 <= k <= 0 implies #[trigger] depth(Seq::<OpView>::empty().subrange(0, k)) >= 0 by {
            assert(Seq::<OpView>::empty().subrange(0, k) =~= Seq::<OpView>::empty());
        }
    } else {
        lemma_render_depth(nodes.drop_last(), opts);
        let st = render_nodes(nodes.drop_last(), opts);
        let n = nodes.last();
        let parent = if n.components.len() > 0 { n.components.drop_last() } else { n.components };
        lemma_shared_bound(st.open, parent, 0);
        let shared = shared_from(st.open, parent, 0);
        lemma_push_closes(st.ops, (st.open.len() - shared) as nat);
        let base = push_closes(st.ops, (st.open.len() - shared) as nat);
        if n.is_dir {
            lemma_push_depth(base, OpView::Open {
                name: node_name(n),
                label: if opts.labels { Some(label_of(st.dirs.len())) } else { None },
            });
        } else if n.is_file && !opts.dirs_only {
            lemma_push_depth(base, OpView::Leaf {
                name: node_name(n),
                number: if opts.numbers { Some(st.files.len()) } else { None },
                marker: n.marker,
                matched: n.matched,
            });
        }
    }
}

/// Nesting correction never closes a scope that is not open, and at the end
/// of a render every scope but the root's is closed.
pub proof fn lemma_render_nested(nodes: Seq<NodeView>, opts: RenderOpts)
    ensures
        never_below_root(render_ops(nodes, opts)),
        depth(render_ops(nodes, opts)) == 0,
{
    lemma_render_depth(nodes, opts);
    let st = render_nodes(nodes, opts);
    lemma_push_closes(st.ops, st.open.len());
}

/// The components of a node's parent (the root's for a top-level node).
pub open spec fn parent_of(n: NodeView) -> Seq<Seq<char>> {
    if n.components.len() > 0 { n.components.drop_last() } else { n.components }
}

/// The scopes that should be open after a node: the node's own for a
/// directory, its parent's otherwise.
pub open spec fn context(n: NodeView) -> Seq<Seq<char>> {
    if n.is_dir { n.components } else { parent_of(n) }
}

/// The scopes that should be open before node `i`.
pub open spec fn context_before(nodes: Seq<NodeView>, i: int) -> Seq<Seq<char>> {
    if i <= 0 { Seq::empty() } else { context(nodes[i - 1]) }
}

/// Whether `b` is a prefix of `a`.
pub open spec fn is_prefix(b: Seq<Seq<char>>, a: Seq<Seq<char>>) -> bool {
    b.len() <= a.len() && a.subrange(0, b.len() as int) == b
}

/// Whether the nodes come in pre-order: each node lies under the root and
/// its parent is the directory opened last or one of that directory's
/// ancestors, so that depth may drop by any number of levels but rise by
/// one only, through a directory.
pub open spec fn preorder(nodes: Seq<NodeView>) -> bool {
    forall|i: int| 0 <= i < nodes.len() ==> (#[trigger] nodes[i]).components.len() > 0
        && is_prefix(parent_of(nodes[i]), context_before(nodes, i))
}

/// The scopes open when node `i` is attached: those open after the nodes
/// before it, less those that the render closes.
pub open spec fn scopes_at(nodes: Seq<NodeView>, i: int, opts: RenderOpts) -> Seq<Seq<char>> {
    let open = render_nodes(nodes.subrange(0, i), opts).open;
    open.subrange(0, shared_from(open, parent_of(nodes[i]), 0) as int)
}

proof fn lemma_shared_prefix(a: Seq<Seq<char>>, b: Seq<Seq<char>>, k: nat)
    requires
        is_prefix(b, a),
        k <= b.len(),
    ensures
        shared_from(a, b, k) == b.len(),
    decreases b.len() - k,
{
    if k < b.len() {
        assert(a.subrange(0, b.len() as int)[k as int] == a[k as int]);
        lemma_shared_prefix(a, b, k + 1);
    }
}

proof fn lemma_open_prefix(nodes: Seq<NodeView>, opts: RenderOpts, n: int)
    requires
        preorder(nodes),
        0 <= n <= nodes.len(),
    ensures
        render_nodes(nodes.subrange(0, n), opts).open == context_before(nodes, n),
    decreases n,
{
    if n == 0 {
        assert(nodes.subrange(0, 0) =~= Seq::<NodeView>::empty());
    } else {
        let sub = nodes.subrange(0, n);
        assert(sub.drop_last() =~= nodes.subrange(0, n - 1));
        assert(sub.last() == nodes[n - 1]);
        lemma_open_prefix(nodes, opts, n - 1);
        let node = nodes[n - 1];
        let prev = context_before(nodes, n - 1);
        assert(node.components.len() > 0 && is_prefix(parent_of(node), prev));
        lemma_shared_prefix(prev, parent_of(node), 0);
        assert(parent_of(node).push(node.components.last()) =~= node.components);
    }
}

/// For nodes in pre-order, the nesting is exact: when a node is attached,
/// the open scopes below the root are exactly its proper ancestors,
/// outermost first, however many levels the previous node was deeper.
pub proof fn lemma_open_scopes(nodes: Seq<NodeView>, opts: RenderOpts)
    requires
        preorder(nodes),
    ensures
        forall|i: int| 0 <= i < nodes.len() ==> #[trigger] scopes_at(nodes, i, opts) == parent_of(nodes[i]),
{
    assert forall|i: int| 0 <= i < nodes.len() implies #[trigger] scopes_at(nodes, i, opts) == parent_of(nodes[i]) by {
        lemma_open_prefix(nodes, opts, i);
        lemma_shared_prefix(context_before(nodes, i), parent_of(nodes[i]), 0);
    }
}

/// The paths of the directory nodes, in order.
pub open spec fn dir_paths(nodes: Seq<NodeView>) -> Seq<Seq<char>>
    decreases nodes.len(),
{
    if nodes.len() == 0 {
        Seq::empty()
    } else if nodes.last().is_dir {
        dir_paths(nodes.drop_last()).push(nodes.last().path)
    } else {
        dir_paths(nodes.drop_last())
    }
}

/// The paths of the file nodes, in order.
pub open spec fn file_paths(nodes: Seq<NodeView>) -> Seq<Seq<char>>
    decreases nodes.len(),
{
    if nodes.len() == 0 {
        Seq::empty()
    } else if !nodes.last().is_dir && nodes.last().is_file {
        file_paths(nodes.drop_last()).push(nodes.last().path)
    } else {
        file_paths(nodes.drop_last())
    }
}

/// Labels and numbers follow the order of the nodes and count separately:
/// the directory at position `i` among the directories is labelled
/// `label_of(i)` and the file at position `i` among the files (when files
/// are shown) is numbered `i`, however directories and files interleave.
pub proof fn lemma_assignment_order(nodes: Seq<NodeView>, opts: RenderOpts)
    ensures
        render_nodes(nodes, opts).dirs == dir_paths(nodes),
        !opts.dirs_only ==> render_nodes(nodes, opts).files == file_paths(nodes),
        nodes.len() > 0 && nodes.last().is_dir && opts.labels ==> render_nodes(nodes, opts).ops.last()
            == (OpView::Open { name: node_name(nodes.last()), label: Some(label_of((dir_paths(nodes).len() - 1) as nat)) }),
        nodes.len() > 0 && !nodes.last().is_dir && nodes.last().is_file && !opts.dirs_only && opts.numbers
            ==> render_nodes(nodes, opts).ops.last() == (OpView::Leaf {
                name: node_name(nodes.last()),
                number: Some((file_paths(nodes).len() - 1) as nat),
                marker: nodes.last().marker,
                matched: nodes.last().matched,
            }),
    decreases nodes.len(),
{
    if nodes.len() > 0 {
        lemma_assignment_order(nodes.drop_last(), opts);
    }
}

/// Whether a match range fits a name: in order, within its bytes, and on
/// character boundaries.
pub open spec fn splits_at(name: &str, start: usize, end: usize) -> bool {
    start <= end
        && vstd::utf8::is_char_boundary(name.spec_bytes(), start as int)
        && vstd::utf8::is_char_boundary(name.spec_bytes(), end as int)
}

/// Splits a name at a match range, in bytes of the bare name, into the
/// text before the match, the match, and the text after it, so that the
/// match can be emphasised; `None` where the range does not fit the name.
pub fn split_matched<'a>(name: &'a str, start: usize, end: usize) -> (r: Option<(&'a str, &'a str, &'a str)>)
    ensures
        r is Some <==> splits_at(name, start, end),
        r is Some ==> r->Some_0.0.spec_bytes() == name.spec_bytes().subrange(0, start as int),
        r is Some ==> r->Some_0.1.spec_bytes() == name.spec_bytes().subrange(start as int, end as int),
        r is Some ==> r->Some_0.2.spec_bytes() == name.spec_bytes().subrange(end as int, name.spec_bytes().len() as int),
{
    if start > end || !name.is_char_boundary(start) || !name.is_char_boundary(end) {
        return None;
    }
    let (head, rest) = name.split_at(end);
    proof {
        let bytes = name.spec_bytes();
        let hb = head.spec_bytes();
        vstd::utf8::encode_utf8_valid_utf8(name@);
        vstd::utf8::encode_utf8_valid_utf8(head@);
        if start == end {
            vstd::utf8::is_char_boundary_start_end_of_seq(hb);
        } else if start > 0 {
            vstd::utf8::is_char_boundary_iff_not_is_continuation_byte(bytes, start as int);
            vstd::utf8::is_char_boundary_iff_not_is_continuation_byte(hb, start as int);
            assert(hb[start as int] == bytes[start as int]);
        }
    }
    let (before, matched) = head.split_at(start);
    proof {
        assert(matched.spec_bytes() =~= name.spec_bytes().subrange(start as int, end as int));
        assert(before.spec_bytes() =~= name.spec_bytes().subrange(0, start as int));
    }
    Some((before, matched, rest))
}

/// What a render shows, as the options select it.
pub open spec fn opts_of(args: &Args) -> RenderOpts {
    RenderOpts { labels: shows_labels(args), numbers: shows_numbers(args), dirs_only: args.dirs }
}

/// A finished render: its steps, its address table, its counts and, in the
/// interactive session, the path of the root and of every node in order.
pub struct TreeOutput {
    pub ops: Vec<RenderOp>,
    pub table: AddressTable,
    pub num_directories: usize,
    pub num_files: usize,
    pub directory_items: Option<Vec<String>>,
}

/// Whether a render of `nodes` under `root` with `args` in `mode` is `out`.
pub open spec fn renders_as(nodes: Seq<NodeView>, args: &Args, mode: NomadMode, root: Seq<char>, out: TreeOutput) -> bool {
    let st = render_nodes(nodes, opts_of(args));
    &&& op_views(out.ops@) == render_ops(nodes, opts_of(args))
    &&& out.table@.labeled == st.dirs
    &&& out.table@.numbered == st.files
    &&& out.num_directories == st.dirs.len()
    &&& out.num_files == st.files.len()
    &&& match mode {
        NomadMode::Interactive => out.directory_items is Some
            && views(out.directory_items->Some_0@) == seq![root] + st.items,
        _ => out.directory_items is None,
    }
}

/// How many leading names `open` shares with `comps`, not counting the
/// last of `comps`.
fn shared_scopes(open: &Vec<String>, comps: &Vec<String>) -> (r: usize)
    ensures
        r == shared_from(
            views(open@),
            if comps.len() > 0 { views(comps@).drop_last() } else { views(comps@) },
            0,
        ),
{
    let ghost parent = if comps.len() > 0 { views(comps@).drop_last() } else { views(comps@) };
    let parent_len = if comps.len() > 0 { comps.len() - 1 } else { 0 };
    let mut k: usize = 0;
    while k < open.len() && k < parent_len && same_text(&open[k], &comps[k])
        invariant
            k <= open.len(),
            k <= parent_len,
            parent_len == parent.len(),
            parent == (if comps.len() > 0 { views(comps@).drop_last() } else { views(comps@) }),
            shared_from(views(open@), parent, 0) == shared_from(views(open@), parent, k as nat),
        decreases open.len() - k,
    {
        proof {
            assert(views(open@)[k as int] == parent[k as int]);
        }
        k = k + 1;
    }
    proof {
        if k < open.len() && k < parent_len {
            assert(views(open@)[k as int] != parent[k as int]);
        }
    }
    k
}

/// The last name of a node.
fn last_name(comps: &Vec<String>) -> (r: String)
    ensures
        r@ == (if comps.len() > 0 { views(comps@).last() } else { Seq::<char>::empty() }),
{
    if comps.len() > 0 {
        comps[comps.len() - 1].clone()
    } else {
        String::new()
    }
}

/// Renders hierarchy nodes as a nested tree.
pub trait ToTree: Sized {
    /// The nodes that the value holds.
    spec fn nodes(&self) -> Seq<NodeView>;

    /// The render of the nodes in order, as `render_ops` states it, with
    /// the address table, the counts and, in the interactive session, the
    /// paths of the root and the nodes.
    fn to_tree(self, args: &Args, nomad_mode: NomadMode, target_directory: &str) -> (r: TreeOutput)
        ensures
            renders_as(self.nodes(), args, nomad_mode, target_directory@, r),
    ;
}

impl ToTree for Vec<TransformedItem> {
    open spec fn nodes(&self) -> Seq<NodeView> {
        node_views(self@)
    }

    fn to_tree(self, args: &Args, nomad_mode: NomadMode, target_directory: &str) -> (r: TreeOutput) {
        let ghost nv = node_views(self@);
        let ghost opts = opts_of(args);
        let show_labels = args.label_directories || args.all_labels;
        let show_numbers = args.numbers || args.all_labels;
        let mut ops: Vec<RenderOp> = Vec::new();
        let mut open: Vec<String> = Vec::new();
        let mut labeled: Vec<String> = Vec::new();
        let mut numbered: Vec<String> = Vec::new();
        let mut items: Vec<String> = Vec::new();
        let mut i: usize = 0;
        while i < self.len()
            invariant
                i <= self.len(),
                nv == node_views(self@),
                opts == opts_of(args),
                show_labels == opts.labels,
                show_numbers == opts.numbers,
                op_views(ops@) == render_nodes(nv.subrange(0, i as int), opts).ops,
                views(open@) == render_nodes(nv.subrange(0, i as int), opts).open,
                views(labeled@) == render_nodes(nv.subrange(0, i as int), opts).dirs,
                views(numbered@) == render_nodes(nv.subrange(0, i as int), opts).files,
                views(items@) == render_nodes(nv.subrange(0, i as int), opts).items,
            decreases self.len() - i,
        {
            let item = &self[i];
            let ghost st = render_nodes(nv.subrange(0, i as int), opts);
            proof {
                let sub = nv.subrange(0, i + 1);
                assert(sub.drop_last() =~= nv.subrange(0, i as int));
                assert(sub.last() == item@);
            }
            let shared = shared_scopes(&open, &item.components);
            proof {
                let parent = if item@.components.len() > 0 { item@.components.drop_last() } else { item@.components };
                lemma_shared_bound(st.open, parent, 0);
            }
            let ghost open_len = open.len();
            while open.len() > shared
                invariant
                    shared <= open.len() <= open_len,
                    open_len == st.open.len(),
                    views(open@) == st.open.subrange(0, open.len() as int),
                    op_views(ops@) == push_closes(st.ops, (open_len - open.len()) as nat),
                decreases open.len(),
            {
                let ghost before = ops@;
                ops.push(RenderOp::Close);
                open.pop();
                proof {
                    assert(op_views(ops@) =~= op_views(before).push(OpView::Close));
                    assert(views(open@) =~= st.open.subrange(0, open.len() as int));
                }
            }
            let name = last_name(&item.components);
            let ghost ops_base = ops@;
            let ghost open_base = open@;
            if item.is_dir {
                let label = if show_labels { Some(directory_label(labeled.len())) } else { None };
                ops.push(RenderOp::OpenDir { name: name.clone(), label });
                open.push(name);
                labeled.push(item.path.clone());
                proof {
                    assert(op_views(ops@) =~= op_views(ops_base).push(ops@.last()@));
                }
            } else if item.is_file && !args.dirs {
                let number = if show_numbers { Some(numbered.len()) } else { None };
                ops.push(RenderOp::File { name, number, marker: copy_opt(&item.marker), matched: item.matched });
                numbered.push(item.path.clone());
                proof {
                    assert(op_views(ops@) =~= op_views(ops_base).push(ops@.last()@));
                }
            }
            items.push(item.path.clone());
            proof {
                let next = render_nodes(nv.subrange(0, i + 1), opts);
                assert(op_views(ops@) =~= next.ops);
                assert(views(open@) =~= next.open);
                assert(views(labeled@) =~= next.dirs);
                assert(views(numbered@) =~= next.files);
                assert(views(items@) =~= next.items);
            }
            i = i + 1;
        }
        proof {
            assert(nv.subrange(0, self.len() as int) =~= nv);
        }
        let ghost st = render_nodes(nv, opts);
        let ghost open_len = open.len();
        while open.len() > 0
            invariant
                open.len() <= open_len,
                open_len == st.open.len(),
                op_views(ops@) == push_closes(st.ops, (open_len - open.len()) as nat),
            decreases open.len(),
        {
            let ghost before = ops@;
            ops.push(RenderOp::Close);
            open.pop();
            proof {
                assert(op_views(ops@) =~= op_views(before).push(OpView::Close));
            }
        }
        let num_directories = labeled.len();
        let num_files = numbered.len();
        let directory_items = match nomad_mode {
            NomadMode::Interactive => {
                let mut all: Vec<String> = Vec::new();
                all.push(String::from_str(target_directory));
                let mut j: usize = 0;
                while j < items.len()
                    invariant
                        j <= items.len(),
                        views(all@) =~= seq![target_directory@] + views(items@).subrange(0, j as int),
                    decreases items.len() - j,
                {
                    let ghost before = all@;
                    all.push(items[j].clone());
                    proof {
                        assert(views(all@) =~= views(before).push(views(items@)[j as int]));
                    }
                    j = j + 1;
                }
                proof {
                    assert(views(items@).subrange(0, items.len() as int) =~= views(items@));
                }
                Some(all)
            },
            _ => None,
        };
        TreeOutput {
            ops,
            table: AddressTable { labeled, numbered },
            num_directories,
            num_files,
            directory_items,
        }
    }
}

} // verus!
