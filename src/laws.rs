//! Properties that hold of every rendering.
use vstd::prelude::*;

use crate::format::{AnchorPosition, TreeFormatting};
use crate::node::{NodeLabel, TreeNode};

verus! {

/// The column at which the label of a node at the given depth starts, counted after the
/// prefix: each ancestor row is `horizontal_line_count + 1` columns wide, and the node's
/// own connector adds the label spacing, and with left anchors a joint glyph (or, for the
/// root, its down-facing angle).
pub open spec fn label_column(format: TreeFormatting, depth: nat) -> nat {
    let h = format.chars.horizontal_line_count as nat;
    let l = format.chars.label_space_count as nat;
    if format.anchor == AnchorPosition::Left {
        depth * (h + 1) + 1 + l
    } else if depth == 0 {
        0
    } else {
        depth * (h + 1) + l
    }
}

/// The glyphs of the rows above the innermost one are `horizontal_line_count + 1` wide
/// each, whichever of the blank or bar variant is drawn.
proof fn lemma_outer_rows_width(format: TreeFormatting, stack: Seq<usize>, k: nat, has_children: bool)
    requires
        k < stack.len(),
    ensures
        format.rows_view(stack, k, has_children).len() == k * (
        format.chars.horizontal_line_count as nat + 1),
    decreases k,
{
    let h = format.chars.horizontal_line_count as nat;
    if k > 0 {
        lemma_outer_rows_width(format, stack, (k - 1) as nat, has_children);
        assert(k * (h + 1) == (k - 1) * (h + 1) + (h + 1)) by (nonlinear_arith);
    }
}

/// Alignment: the label of every line starts at a column fixed by the prefix's length and
/// the node's depth alone, whatever glyph variants its ancestor rows draw.
pub proof fn lemma_label_alignment(
    format: TreeFormatting,
    stack: Seq<usize>,
    has_children: bool,
    label: Seq<char>,
)
    ensures
        format.line_view(stack, has_children, label).len() == format.prefix_view().len()
            + label_column(format, stack.len()) + label.len(),
        format.line_view(stack, has_children, label).subrange(
            (format.prefix_view().len() + label_column(format, stack.len())) as int,
            format.line_view(stack, has_children, label).len() as int,
        ) == label,
{
    let d = stack.len();
    let h = format.chars.horizontal_line_count as nat;
    let lead = format.lead_view(stack, has_children);
    if d > 0 {
        lemma_outer_rows_width(format, stack, (d - 1) as nat, has_children);
        assert(d * (h + 1) == (d - 1) * (h + 1) + (h + 1)) by (nonlinear_arith);
    }
    assert(lead.len() == format.prefix_view().len() + label_column(format, d));
    assert(format.line_view(stack, has_children, label).subrange(
        lead.len() as int,
        format.line_view(stack, has_children, label).len() as int,
    ) =~= label);
}

proof fn lemma_lines_count<T: NodeLabel>(node: TreeNode<T>, format: TreeFormatting, stack: Seq<usize>)
    ensures
        node.lines_view(format, stack).len() == node.node_count(),
    decreases node, 1nat, 0nat,
{
    lemma_child_lines_count(node, format, stack, node.children@.len());
}

proof fn lemma_child_lines_count<T: NodeLabel>(
    node: TreeNode<T>,
    format: TreeFormatting,
    stack: Seq<usize>,
    k: nat,
)
    ensures
        node.child_lines_view(format, stack, k).len() == node.children_node_count(k),
    decreases node, 0nat, k,
{
    let n = node.children@.len();
    if k > 0 && k <= n {
        lemma_child_lines_count(node, format, stack, (k - 1) as nat);
        lemma_lines_count(
            node.children@[k - 1],
            format,
            stack.push(#[verifier::truncate] ((n - (k - 1)) as usize)),
        );
    }
}

/// Line count: a tree is written as exactly one line per node, the root included.
pub proof fn lemma_line_count<T: NodeLabel>(node: TreeNode<T>, format: TreeFormatting)
    ensures
        node.lines_view(format, Seq::empty()).len() == node.node_count(),
{
    lemma_lines_count(node, format, Seq::empty());
}

proof fn lemma_lines_prefixed<T: NodeLabel>(node: TreeNode<T>, format: TreeFormatting, stack: Seq<usize>)
    ensures
        forall|j: int|
            0 <= j < node.lines_view(format, stack).len() ==> #[trigger] node.lines_view(
                format,
                stack,
            )[j].subrange(0, format.prefix_view().len() as int) == format.prefix_view(),
    decreases node, 1nat, 0nat,
{
    let n = node.children@.len();
    let lines = node.lines_view(format, stack);
    let rest = node.child_lines_view(format, stack, n);
    lemma_child_lines_prefixed(node, format, stack, n);
    assert forall|j: int| 0 <= j < lines.len() implies #[trigger] lines[j].subrange(
        0,
        format.prefix_view().len() as int,
    ) == format.prefix_view() by {
        if j == 0 {
            assert(lines[0].subrange(0, format.prefix_view().len() as int) =~= format.prefix_view());
        } else {
            assert(lines[j] == rest[j - 1]);
        }
    }
}

proof fn lemma_child_lines_prefixed<T: NodeLabel>(
    node: TreeNode<T>,
    format: TreeFormatting,
    stack: Seq<usize>,
    k: nat,
)
    ensures
        forall|j: int|
            0 <= j < node.child_lines_view(format, stack, k).len() ==> #[trigger] node.child_lines_view(
                format,
                stack,
                k,
            )[j].subrange(0, format.prefix_view().len() as int) == format.prefix_view(),
    decreases node, 0nat, k,
{
    let n = node.children@.len();
    if k > 0 && k <= n {
        let sub_stack = stack.push(#[verifier::truncate] ((n - (k - 1)) as usize));
        let before = node.child_lines_view(format, stack, (k - 1) as nat);
        let sub = node.children@[k - 1].lines_view(format, sub_stack);
        lemma_child_lines_prefixed(node, format, stack, (k - 1) as nat);
        lemma_lines_prefixed(node.children@[k - 1], format, sub_stack);
        let all = node.child_lines_view(format, stack, k);
        assert(all == before + sub);
        assert forall|j: int| 0 <= j < all.len() implies #[trigger] all[j].subrange(
            0,
            format.prefix_view().len() as int,
        ) == format.prefix_view() by {
            if j < before.len() {
                assert(all[j] == before[j]);
            } else {
                assert(all[j] == sub[j - before.len()]);
            }
        }
    }
}

/// Prefix propagation: every line of a written tree, the root's included, begins with the
/// configured prefix.
pub proof fn lemma_prefix_on_every_line<T: NodeLabel>(node: TreeNode<T>, format: TreeFormatting)
    ensures
        forall|j: int|
            0 <= j < node.lines_view(format, Seq::empty()).len() ==> (#[trigger] node.lines_view(
                format,
                Seq::empty(),
            )[j]).subrange(0, format.prefix_view().len() as int) == format.prefix_view(),
{
    lemma_lines_prefixed(node, format, Seq::empty());
}

/// Last-child marking: within its parent's block, child `i` of `n` is written right after
/// the lines of the children before it, and its own line draws the angle connector when it
/// is the last child and the tee connector otherwise, after the rows of its ancestors.
pub proof fn lemma_last_child_marking<T: NodeLabel>(
    parent: TreeNode<T>,
    format: TreeFormatting,
    stack: Seq<usize>,
    i: int,
)
    requires
        0 <= i < parent.children@.len(),
        parent.children@.len() <= usize::MAX,
    ensures
        parent.child_lines_view(format, stack, (i + 1) as nat) == parent.child_lines_view(
            format,
            stack,
            i as nat,
        ) + parent.children@[i].lines_view(
            format,
            stack.push((parent.children@.len() - i) as usize),
        ),
        parent.children@[i].lines_view(
            format,
            stack.push((parent.children@.len() - i) as usize),
        )[0] == format.prefix_view() + format.rows_view(
            stack.push((parent.children@.len() - i) as usize),
            stack.len(),
            parent.children@[i].children@.len() > 0,
        ) + (if i == parent.children@.len() - 1 {
            format.angle_view(parent.children@[i].children@.len() > 0)
        } else {
            format.tee_view(parent.children@[i].children@.len() > 0)
        }) + parent.children@[i].data.label_view(),
{
    let n = parent.children@.len();
    let child = parent.children@[i];
    let hc = child.children@.len() > 0;
    let s2 = stack.push((n - i) as usize);
    assert(s2[stack.len() as int] == (n - i) as usize);
    let outer = format.rows_view(s2, stack.len(), hc);
    assert(format.rows_view(s2, s2.len(), hc) == outer + format.row_view(
        (n - i) as usize,
        true,
        hc,
    ));
    let connector = if i == n - 1 {
        format.angle_view(hc)
    } else {
        format.tee_view(hc)
    };
    assert(format.row_view((n - i) as usize, true, hc) == connector);
    assert(child.lines_view(format, s2)[0] == format.line_view(s2, hc, child.data.label_view()));
    assert(format.line_view(s2, hc, child.data.label_view()) =~= format.prefix_view() + outer
        + connector + child.data.label_view());
}

/// A leaf's lines depend on its stack and its value alone.
proof fn lemma_leaf_lines<T: NodeLabel>(
    node: TreeNode<T>,
    format: TreeFormatting,
    stack: Seq<usize>,
)
    requires
        node.children@.len() == 0,
    ensures
        node.lines_view(format, stack) == seq![
            format.line_view(stack, false, node.data.label_view()),
        ],
{
    assert(node.child_lines_view(format, stack, 0) == Seq::<Seq<char>>::empty());
    assert(node.lines_view(format, stack) =~= seq![
        format.line_view(stack, false, node.data.label_view()),
    ]);
}

proof fn lemma_leaf_children_alike<T: NodeLabel>(
    a: TreeNode<T>,
    b: TreeNode<T>,
    values: Seq<T>,
    format: TreeFormatting,
    stack: Seq<usize>,
    k: nat,
)
    requires
        a.has_leaves(values),
        b.has_leaves(values),
    ensures
        a.child_lines_view(format, stack, k) == b.child_lines_view(format, stack, k),
        a.children_node_count(k) == b.children_node_count(k),
    decreases k,
{
    let n = values.len();
    if k > 0 && k <= n {
        lemma_leaf_children_alike(a, b, values, format, stack, (k - 1) as nat);
        let s2 = stack.push(#[verifier::truncate] ((n - (k - 1)) as usize));
        let ca = a.children@[k - 1];
        let cb = b.children@[k - 1];
        assert(ca.is_leaf_of(values[k - 1]));
        assert(cb.is_leaf_of(values[k - 1]));
        lemma_leaf_lines(ca, format, s2);
        lemma_leaf_lines(cb, format, s2);
        assert(ca.children_node_count(0) == 0);
        assert(cb.children_node_count(0) == 0);
        assert(ca.node_count() == 1);
        assert(cb.node_count() == 1);
    }
}

/// Construction: two nodes with the same value whose children are leaves holding the same
/// values, in the same order, are written alike and count alike, however they were built:
/// by `with_children`, by `extend`, or by `push` after `push`.
pub proof fn lemma_leaf_children_render_alike<T: NodeLabel>(
    a: TreeNode<T>,
    b: TreeNode<T>,
    values: Seq<T>,
    format: TreeFormatting,
    stack: Seq<usize>,
)
    requires
        a.data == b.data,
        a.has_leaves(values),
        b.has_leaves(values),
    ensures
        a.lines_view(format, stack) == b.lines_view(format, stack),
        a.node_count() == b.node_count(),
{
    lemma_leaf_children_alike(a, b, values, format, stack, values.len());
}

/// Construction: pushing a leaf holding `x` onto a node whose children are leaves holding
/// `values` gives a node whose children are leaves holding `values` followed by `x`.
pub proof fn lemma_push_appends_leaf<T>(before: TreeNode<T>, after: TreeNode<T>, values: Seq<T>, x: T)
    requires
        before.has_leaves(values),
        after.children@.len() == before.children@.len() + 1,
        after.children@.drop_last() == before.children@,
        after.children@.last().is_leaf_of(x),
    ensures
        after.has_leaves(values.push(x)),
{
    assert forall|i: int| 0 <= i < values.push(x).len() implies (#[trigger] after.children@[i]).is_leaf_of(
        values.push(x)[i],
    ) by {
        if i < values.len() {
            assert(after.children@[i] == after.children@.drop_last()[i]);
        }
    }
}

/// The depth and label of each node of the subtree rooted at `node`, in the order the
/// nodes are written; `node` itself is at depth `depth`.
pub open spec fn outline<T: NodeLabel>(node: TreeNode<T>, depth: nat) -> Seq<(nat, Seq<char>)>
    decreases node, 1nat, 0nat,
{
    seq![(depth, node.data.label_view())] + child_outline(node, depth, node.children@.len())
}

/// The outlines of the first `k` children of `node`, which is at depth `depth`.
pub open spec fn child_outline<T: NodeLabel>(node: TreeNode<T>, depth: nat, k: nat) -> Seq<
    (nat, Seq<char>),
>
    decreases node, 0nat, k,
{
    if k == 0 || k > node.children@.len() {
        Seq::empty()
    } else {
        child_outline(node, depth, (k - 1) as nat) + outline(node.children@[k - 1], depth + 1)
    }
}

/// `line` is the prefix, then glyphs up to the label column of `depth`, then `label`.
pub open spec fn aligned(format: TreeFormatting, line: Seq<char>, depth: nat, label: Seq<char>) -> bool {
    let column = format.prefix_view().len() + label_column(format, depth);
    &&& line.len() == column + label.len()
    &&& line.subrange(column as int, line.len() as int) == label
}

proof fn lemma_lines_aligned<T: NodeLabel>(node: TreeNode<T>, format: TreeFormatting, stack: Seq<usize>)
    ensures
        node.lines_view(format, stack).len() == outline(node, stack.len()).len(),
        forall|j: int|
            0 <= j < node.lines_view(format, stack).len() ==> aligned(
                format,
                #[trigger] node.lines_view(format, stack)[j],
                outline(node, stack.len())[j].0,
                outline(node, stack.len())[j].1,
            ),
    decreases node, 1nat, 0nat,
{
    let n = node.children@.len();
    let lines = node.lines_view(format, stack);
    let out = outline(node, stack.len());
    lemma_child_lines_aligned(node, format, stack, n);
    lemma_label_alignment(format, stack, n > 0, node.data.label_view());
    assert forall|j: int| 0 <= j < lines.len() implies aligned(
        format,
        #[trigger] lines[j],
        out[j].0,
        out[j].1,
    ) by {
        if j > 0 {
            assert(lines[j] == node.child_lines_view(format, stack, n)[j - 1]);
            assert(out[j] == child_outline(node, stack.len(), n)[j - 1]);
        }
    }
}

proof fn lemma_child_lines_aligned<T: NodeLabel>(
    node: TreeNode<T>,
    format: TreeFormatting,
    stack: Seq<usize>,
    k: nat,
)
    ensures
        node.child_lines_view(format, stack, k).len() == child_outline(node, stack.len(), k).len(),
        forall|j: int|
            0 <= j < node.child_lines_view(format, stack, k).len() ==> aligned(
                format,
                #[trigger] node.child_lines_view(format, stack, k)[j],
                child_outline(node, stack.len(), k)[j].0,
                child_outline(node, stack.len(), k)[j].1,
            ),
    decreases node, 0nat, k,
{
    let n = node.children@.len();
    if k > 0 && k <= n {
        let sub_stack = stack.push(#[verifier::truncate] ((n - (k - 1)) as usize));
        let child = node.children@[k - 1];
        lemma_child_lines_aligned(node, format, stack, (k - 1) as nat);
        lemma_lines_aligned(child, format, sub_stack);
        let before = node.child_lines_view(format, stack, (k - 1) as nat);
        let sub = child.lines_view(format, sub_stack);
        let all = node.child_lines_view(format, stack, k);
        let ob = child_outline(node, stack.len(), (k - 1) as nat);
        let os = outline(child, stack.len() + 1);
        let oa = child_outline(node, stack.len(), k);
        assert(all == before + sub);
        assert(oa == ob + os);
        assert(sub_stack.len() == stack.len() + 1);
        assert forall|j: int| 0 <= j < all.len() implies aligned(
            format,
            #[trigger] all[j],
            oa[j].0,
            oa[j].1,
        ) by {
            if j < before.len() {
                assert(all[j] == before[j]);
                assert(oa[j] == ob[j]);
            } else {
                assert(all[j] == sub[j - before.len()]);
                assert(oa[j] == os[j - before.len()]);
            }
        }
    }
}

/// Alignment across a whole tree: line `j` of a written tree holds the label of the `j`-th
/// node in writing order, starting at the label column of that node's depth.
pub proof fn lemma_tree_alignment<T: NodeLabel>(node: TreeNode<T>, format: TreeFormatting)
    ensures
        node.lines_view(format, Seq::empty()).len() == outline(node, 0).len(),
        forall|j: int|
            0 <= j < node.lines_view(format, Seq::empty()).len() ==> aligned(
                format,
                #[trigger] node.lines_view(format, Seq::empty())[j],
                outline(node, 0)[j].0,
                outline(node, 0)[j].1,
            ),
{
    lemma_lines_aligned(node, format, Seq::empty());
}

} // verus!
