//! The line renderer: one line per node, in depth-first pre-order, each made of the
//! prefix, the connector glyphs of its ancestor rows, and its label.
use vstd::prelude::*;

use crate::format::{char_repeat, push_char, AnchorPosition, FormatCharacters, TreeFormatting};
use crate::node::{NodeLabel, TreeNode};

verus! {

/// The lines joined into one text, each followed by a line terminator.
pub open spec fn text_of(lines: Seq<Seq<char>>) -> Seq<char>
    decreases lines.len(),
{
    if lines.len() == 0 {
        Seq::empty()
    } else {
        text_of(lines.drop_last()) + lines.last() + seq!['\n']
    }
}

impl TreeFormatting {
    /// The glyphs drawn in one ancestor row of a line, chosen by how many siblings at that
    /// row are not yet written (the node itself included) and by whether the row is the
    /// innermost one, the node's own connector.
    pub open spec fn row_view(self, remaining: usize, innermost: bool, has_children: bool) -> Seq<
        char,
    > {
        if remaining == 1 {
            if innermost {
                self.angle_view(has_children)
            } else {
                self.chars.just_space_view()
            }
        } else if innermost {
            self.tee_view(has_children)
        } else {
            self.chars.bar_and_space_view()
        }
    }

    /// The glyphs of the first `k` rows of `stack`.
    pub open spec fn rows_view(self, stack: Seq<usize>, k: nat, has_children: bool) -> Seq<char>
        decreases k,
    {
        if k == 0 {
            Seq::empty()
        } else {
            self.rows_view(stack, (k - 1) as nat, has_children) + self.row_view(
                stack[k - 1],
                k - 1 == stack.len() - 1,
                has_children,
            )
        }
    }

    /// Everything a line holds before its label.
    pub open spec fn lead_view(self, stack: Seq<usize>, has_children: bool) -> Seq<char> {
        self.prefix_view() + (if stack.len() == 0 {
            self.root_lead_view()
        } else {
            Seq::empty()
        }) + self.rows_view(stack, stack.len(), has_children)
    }

    /// The line of a node with the given label, below ancestors whose rows are `stack`.
    pub open spec fn line_view(self, stack: Seq<usize>, has_children: bool, label: Seq<char>) -> Seq<
        char,
    > {
        self.lead_view(stack, has_children) + label
    }
}

impl<T: NodeLabel> TreeNode<T> {
    /// The lines of the subtree rooted here, below ancestors whose rows are `stack`.
    pub open spec fn lines_view(self, format: TreeFormatting, stack: Seq<usize>) -> Seq<Seq<char>>
        decreases self, 1nat, 0nat,
    {
        seq![
            format.line_view(
                stack,
                self.children@.len() > 0,
                self.data.label_view(),
            ),
        ] + self.child_lines_view(format, stack, self.children@.len())
    }

    /// The lines of the first `k` children's subtrees; the child at index `i` of `n` is
    /// written with a row whose count of remaining siblings is `n - i`.
    pub open spec fn child_lines_view(self, format: TreeFormatting, stack: Seq<usize>, k: nat) -> Seq<
        Seq<char>,
    >
        decreases self, 0nat, k,
    {
        let n = self.children@.len();
        if k == 0 || k > n {
            Seq::empty()
        } else {
            self.child_lines_view(format, stack, (k - 1) as nat) + self.children@[k - 1].lines_view(
                format,
                stack.push(#[verifier::truncate] ((n - (k - 1)) as usize)),
            )
        }
    }

    /// The text of the whole tree rooted here.
    pub open spec fn render_view(self, format: TreeFormatting) -> Seq<char> {
        text_of(self.lines_view(format, Seq::empty()))
    }
}

/// Joining two runs of lines gives the two texts one after the other.
pub proof fn lemma_text_of_append(a: Seq<Seq<char>>, b: Seq<Seq<char>>)
    ensures
        text_of(a + b) == text_of(a) + text_of(b),
    decreases b.len(),
{
    if b.len() == 0 {
        assert(a + b =~= a);
        assert(text_of(b) =~= Seq::empty());
        assert(text_of(a) + text_of(b) =~= text_of(a));
    } else {
        lemma_text_of_append(a, b.drop_last());
        assert((a + b).drop_last() =~= a + b.drop_last());
        assert(text_of(a + b) =~= text_of(a) + text_of(b));
    }
}

/// Writes the lines of the subtree rooted at `node`, below ancestors whose rows are `stack`.
fn write_tree_inner<T: NodeLabel>(
    node: &TreeNode<T>,
    out: &mut String,
    format: &TreeFormatting,
    stack: &mut Vec<usize>,
)
    ensures
        final(out)@ == old(out)@ + text_of(node.lines_view(*format, old(stack)@)),
        final(stack)@ == old(stack)@,
    decreases node,
{
    let ghost start = out@;
    let ghost st = stack@;
    let has_children = node.has_children();
    if let Some(prefix_str) = &format.prefix_str {
        out.append(prefix_str.as_str());
    }
    if format.anchor == AnchorPosition::Left && stack.len() == 0 {
        push_char(out, format.chars.down_facing_angle);
        let space = char_repeat(format.chars.label_space_char, format.chars.label_space_count);
        out.append(space.as_str());
    }
    let ghost before_rows = out@;
    assert(before_rows =~= start + format.prefix_view() + (if st.len() == 0 {
        format.root_lead_view()
    } else {
        Seq::empty()
    }));
    let depth = stack.len();
    let mut row: usize = 0;
    while row < depth
        invariant
            stack@ == st,
            depth == st.len(),
            row <= depth,
            out@ == before_rows + format.rows_view(st, row as nat, has_children),
        decreases depth - row,
    {
        let glyph = if stack[row] == 1 {
            if row == depth - 1 {
                format.angle(has_children)
            } else {
                format.just_space()
            }
        } else if row == depth - 1 {
            format.tee(has_children)
        } else {
            format.bar_and_space()
        };
        out.append(glyph.as_str());
        row = row + 1;
        assert(out@ =~= before_rows + format.rows_view(st, row as nat, has_children));
    }
    let label = node.label();
    out.append(label.as_str());
    push_char(out, '\n');
    let ghost own = seq![format.line_view(st, has_children, node.data.label_view())];
    assert(text_of(own) =~= format.line_view(st, has_children, node.data.label_view()) + seq!['\n']) by {
        assert(own.drop_last() =~= Seq::<Seq<char>>::empty());
        assert(text_of(own.drop_last()) =~= Seq::<char>::empty());
        assert(own.last() == format.line_view(st, has_children, node.data.label_view()));
    }
    assert(out@ =~= start + text_of(own));
    let n = node.children.len();
    let mut i: usize = 0;
    while i < n
        invariant
            stack@ == st,
            n == node.children@.len(),
            i <= n,
            has_children == (n > 0),
            own == seq![format.line_view(st, has_children, node.data.label_view())],
            out@ == start + text_of(own + node.child_lines_view(*format, st, i as nat)),
        decreases n - i,
    {
        let ghost mid = out@;
        stack.push(n - i);
        assert(decreases_to!(node => node.children));
        write_tree_inner(&node.children[i], out, format, stack);
        stack.pop();
        proof {
            let sub = node.children@[i as int].lines_view(*format, st.push((n - i) as usize));
            assert(node.child_lines_view(*format, st, (i + 1) as nat) == node.child_lines_view(
                *format,
                st,
                i as nat,
            ) + sub);
            lemma_text_of_append(own + node.child_lines_view(*format, st, i as nat), sub);
            assert(own + node.child_lines_view(*format, st, (i + 1) as nat) =~= own
                + node.child_lines_view(*format, st, i as nat) + sub);
            assert(stack@ =~= st);
        }
        i = i + 1;
    }
}

impl<T: NodeLabel> TreeNode<T> {
    /// Append this tree, written with the provided format settings, to `to_writer`.
    pub fn write_with_format(&self, to_writer: &mut String, format: &TreeFormatting)
        ensures
            final(to_writer)@ == old(to_writer)@ + self.render_view(*format),
    {
        let mut stack: Vec<usize> = Vec::new();
        write_tree_inner(self, to_writer, format, &mut stack);
    }

    /// Append this tree, written with the default formatting, to `to_writer`.
    pub fn write(&self, to_writer: &mut String)
        ensures
            final(to_writer)@ == old(to_writer)@ + self.render_view(
                TreeFormatting::dir_tree_spec(FormatCharacters::ascii_spec()),
            ),
    {
        self.write_with_format(to_writer, &TreeFormatting::dir_tree(FormatCharacters::ascii()))
    }

    /// This tree written with the provided format settings.
    pub fn to_string_with_format(&self, format: &TreeFormatting) -> (r: String)
        ensures
            r@ == self.render_view(*format),
    {
        let mut r = String::new();
        self.write_with_format(&mut r, format);
        assert(r@ =~= self.render_view(*format));
        r
    }

    /// This tree written with the default formatting: ASCII characters, lines anchored
    /// below, no prefix.
    pub fn to_string(&self) -> (r: String)
        ensures
            r@ == self.render_view(TreeFormatting::dir_tree_spec(FormatCharacters::ascii_spec())),
    {
        self.to_string_with_format(&TreeFormatting::default())
    }
}

} // verus!
