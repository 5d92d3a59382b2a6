//! Formatting configuration: which glyphs, counts and anchor position are used.
use vstd::prelude::*;

verus! {

/// Appends one character to a string.
///
/// Relies on `String::push`, which appends the given `char` to the end of the string.
#[verifier::external_body]
pub(crate) fn push_char(s: &mut String, c: char)
    ensures
        final(s)@ == old(s)@.push(c),
{
    s.push(c)
}

/// `n` copies of the character `c`.
pub open spec fn repeat_view(c: char, n: nat) -> Seq<char> {
    Seq::new(n, |_i: int| c)
}

/// A string of `n` copies of `c`.
pub fn char_repeat(c: char, n: usize) -> (r: String)
    ensures
        r@ == repeat_view(c, n as nat),
{
    let mut r = String::new();
    let mut i: usize = 0;
    while i < n
        invariant
            i <= n,
            r@ == repeat_view(c, i as nat),
        decreases n - i,
    {
        push_char(&mut r, c);
        i = i + 1;
        assert(r@ =~= repeat_view(c, i as nat));
    }
    r
}

/// The orientation of the tree as it is written.
#[derive(Clone, Copy, Debug, PartialEq, Eq, Structural)]
pub enum TreeOrientation {
    /// The root is at the top-left corner and the tree expands to the right and down, as a
    /// directory listing does.
    TopDown,
}

/// Where the connector lines are anchored relative to the label text.
#[derive(Clone, Copy, Debug, PartialEq, Eq, Structural)]
pub enum AnchorPosition {
    /// The line is anchored below the first letter of the parent's label.
    Below,
    /// The line is anchored to the left of the label and its spacing.
    Left,
}

/// The characters, and counts, used to draw the lines of a tree.
///
/// Each character field is assumed to occupy one display column.
#[derive(Clone, Copy, Debug, PartialEq, Eq, Structural)]
pub struct FormatCharacters {
    /// Connects the root when anchors are on the left.
    pub down_facing_angle: char,
    /// Connects non-root parents when anchors are on the left.
    pub down_facing_tee: char,
    /// The vertical connector between a parent and its later children.
    pub vertical_line: char,
    /// The horizontal connector towards a label.
    pub horizontal_line: char,
    /// Used instead of `horizontal_line` where no line is drawn.
    pub horizontal_space: char,
    /// The number of `horizontal_line` (or `horizontal_space`) characters in a connector.
    pub horizontal_line_count: usize,
    /// Connects a child that has later siblings.
    pub right_facing_tee: char,
    /// Connects the last child of a parent.
    pub right_facing_angle: char,
    /// The spacing between the lines of the tree and a label.
    pub label_space_char: char,
    /// The number of `label_space_char` characters before a label.
    pub label_space_count: usize,
}

/// All the options that control how a tree is written.
#[derive(Clone, Debug)]
pub struct TreeFormatting {
    /// Written verbatim before every line.
    pub prefix_str: Option<String>,
    /// The orientation of the tree.
    pub orientation: TreeOrientation,
    /// Where the lines are anchored.
    pub anchor: AnchorPosition,
    /// The characters used for the lines.
    pub chars: FormatCharacters,
}

impl FormatCharacters {
    /// The plain ASCII character set.
    pub open spec fn ascii_spec() -> FormatCharacters {
        FormatCharacters {
            down_facing_angle: '+',
            down_facing_tee: ',',
            vertical_line: '|',
            horizontal_line: '-',
            horizontal_space: ' ',
            horizontal_line_count: 2,
            right_facing_tee: '+',
            right_facing_angle: '\'',
            label_space_char: ' ',
            label_space_count: 1,
        }
    }

    /// The line-drawing character set.
    pub open spec fn box_chars_spec() -> FormatCharacters {
        FormatCharacters {
            down_facing_angle: '┌',
            down_facing_tee: '┬',
            vertical_line: '│',
            horizontal_line: '─',
            horizontal_space: ' ',
            horizontal_line_count: 2,
            right_facing_tee: '├',
            right_facing_angle: '└',
            label_space_char: ' ',
            label_space_count: 1,
        }
    }

    /// The set of commonly used ASCII characters used for tree formatting.
    pub fn ascii() -> (r: Self)
        ensures
            r == Self::ascii_spec(),
    {
        FormatCharacters {
            down_facing_angle: '+',
            down_facing_tee: ',',
            vertical_line: '|',
            horizontal_line: '-',
            horizontal_space: ' ',
            horizontal_line_count: 2,
            right_facing_tee: '+',
            right_facing_angle: '\'',
            label_space_char: ' ',
            label_space_count: 1,
        }
    }

    /// The set of commonly used line drawing characters used for tree formatting.
    pub fn box_chars() -> (r: Self)
        ensures
            r == Self::box_chars_spec(),
    {
        FormatCharacters {
            down_facing_angle: '┌',
            down_facing_tee: '┬',
            vertical_line: '│',
            horizontal_line: '─',
            horizontal_space: ' ',
            horizontal_line_count: 2,
            right_facing_tee: '├',
            right_facing_angle: '└',
            label_space_char: ' ',
            label_space_count: 1,
        }
    }

    /// `horizontal_line_count` copies of `horizontal_line`.
    pub open spec fn horizontal_line_view(self) -> Seq<char> {
        repeat_view(self.horizontal_line, self.horizontal_line_count as nat)
    }

    /// `horizontal_line_count` copies of `horizontal_space`.
    pub open spec fn horizontal_space_view(self) -> Seq<char> {
        repeat_view(self.horizontal_space, self.horizontal_line_count as nat)
    }

    /// `label_space_count` copies of `label_space_char`.
    pub open spec fn label_space_view(self) -> Seq<char> {
        repeat_view(self.label_space_char, self.label_space_count as nat)
    }

    /// A column that ended above: blank, as wide as a continuing column.
    pub open spec fn just_space_view(self) -> Seq<char> {
        seq![self.horizontal_space] + self.horizontal_space_view()
    }

    /// A column whose ancestor has later siblings: a bar, then blank.
    pub open spec fn bar_and_space_view(self) -> Seq<char> {
        seq![self.vertical_line] + self.horizontal_space_view()
    }

    pub(crate) fn just_space(&self) -> (r: String)
        ensures
            r@ == self.just_space_view(),
    {
        let mut r = String::new();
        push_char(&mut r, self.horizontal_space);
        let tail = self.horizontal_space();
        r.append(tail.as_str());
        r
    }

    pub(crate) fn bar_and_space(&self) -> (r: String)
        ensures
            r@ == self.bar_and_space_view(),
    {
        let mut r = String::new();
        push_char(&mut r, self.vertical_line);
        let tail = self.horizontal_space();
        r.append(tail.as_str());
        r
    }

    pub(crate) fn horizontal_line(&self) -> (r: String)
        ensures
            r@ == self.horizontal_line_view(),
    {
        char_repeat(self.horizontal_line, self.horizontal_line_count)
    }

    pub(crate) fn horizontal_space(&self) -> (r: String)
        ensures
            r@ == self.horizontal_space_view(),
    {
        char_repeat(self.horizontal_space, self.horizontal_line_count)
    }

    pub(crate) fn label_space(&self) -> (r: String)
        ensures
            r@ == self.label_space_view(),
    {
        char_repeat(self.label_space_char, self.label_space_count)
    }
}

impl Default for FormatCharacters {
    fn default() -> (r: Self)
        ensures
            r == Self::ascii_spec(),
    {
        Self::ascii()
    }
}

impl TreeFormatting {
    /// Below-anchored, top-down formatting with no prefix.
    pub open spec fn dir_tree_spec(chars: FormatCharacters) -> TreeFormatting {
        TreeFormatting {
            prefix_str: None,
            orientation: TreeOrientation::TopDown,
            anchor: AnchorPosition::Below,
            chars,
        }
    }

    /// Construct the common options for a directory tree using the provided format characters.
    pub fn dir_tree(chars: FormatCharacters) -> (r: Self)
        ensures
            r == Self::dir_tree_spec(chars),
    {
        TreeFormatting {
            prefix_str: None,
            orientation: TreeOrientation::TopDown,
            anchor: AnchorPosition::Below,
            chars,
        }
    }

    /// Construct the common options for a directory tree using the provided format
    /// characters; `prefix_str` is written before each output line.
    pub fn dir_tree_with_prefix(chars: FormatCharacters, prefix_str: String) -> (r: Self)
        ensures
            r.prefix_str == Some(prefix_str),
            r.orientation == TreeOrientation::TopDown,
            r.anchor == AnchorPosition::Below,
            r.chars == chars,
    {
        TreeFormatting {
            prefix_str: Some(prefix_str),
            orientation: TreeOrientation::TopDown,
            anchor: AnchorPosition::Below,
            chars,
        }
    }

    /// Construct the common options for a directory tree, with lines anchored to the left,
    /// using the provided format characters.
    pub fn dir_tree_left(chars: FormatCharacters) -> (r: Self)
        ensures
            r.prefix_str.is_none(),
            r.orientation == TreeOrientation::TopDown,
            r.anchor == AnchorPosition::Left,
            r.chars == chars,
    {
        TreeFormatting {
            prefix_str: None,
            orientation: TreeOrientation::TopDown,
            anchor: AnchorPosition::Left,
            chars,
        }
    }

    /// Construct the common options for a directory tree, with lines anchored to the left,
    /// using the provided format characters; `prefix_str` is written before each output line.
    pub fn dir_tree_left_with_prefix(chars: FormatCharacters, prefix_str: String) -> (r: Self)
        ensures
            r.prefix_str == Some(prefix_str),
            r.orientation == TreeOrientation::TopDown,
            r.anchor == AnchorPosition::Left,
            r.chars == chars,
    {
        TreeFormatting {
            prefix_str: Some(prefix_str),
            orientation: TreeOrientation::TopDown,
            anchor: AnchorPosition::Left,
            chars,
        }
    }

    /// The text written at the start of every line.
    pub open spec fn prefix_view(self) -> Seq<char> {
        match self.prefix_str {
            Some(p) => p@,
            None => Seq::empty(),
        }
    }

    /// What the root line carries before its label: with left anchors, the root's own
    /// connector and the label spacing; with anchors below, nothing.
    pub open spec fn root_lead_view(self) -> Seq<char> {
        if self.anchor == AnchorPosition::Left {
            seq![self.chars.down_facing_angle] + self.chars.label_space_view()
        } else {
            Seq::empty()
        }
    }

    /// The glyph that joins a node's connector to its label: none with anchors below; with
    /// left anchors, a down-facing tee for a parent and a line for a leaf.
    pub open spec fn joint_view(self, has_children: bool) -> Seq<char> {
        if self.anchor == AnchorPosition::Below {
            Seq::empty()
        } else if has_children {
            seq![self.chars.down_facing_tee]
        } else {
            seq![self.chars.horizontal_line]
        }
    }

    /// The connector of a node that has later siblings.
    pub open spec fn tee_view(self, has_children: bool) -> Seq<char> {
        seq![self.chars.right_facing_tee] + self.chars.horizontal_line_view() + self.joint_view(
            has_children,
        ) + self.chars.label_space_view()
    }

    /// The connector of the last child of a parent.
    pub open spec fn angle_view(self, has_children: bool) -> Seq<char> {
        seq![self.chars.right_facing_angle] + self.chars.horizontal_line_view() + self.joint_view(
            has_children,
        ) + self.chars.label_space_view()
    }

    pub(crate) fn just_space(&self) -> (r: String)
        ensures
            r@ == self.chars.just_space_view(),
    {
        self.chars.just_space()
    }

    pub(crate) fn bar_and_space(&self) -> (r: String)
        ensures
            r@ == self.chars.bar_and_space_view(),
    {
        self.chars.bar_and_space()
    }

    fn push_joint(&self, r: &mut String, has_children: bool)
        ensures
            final(r)@ == old(r)@ + self.joint_view(has_children),
    {
        if self.anchor == AnchorPosition::Below {
            assert(old(r)@ + self.joint_view(has_children) =~= old(r)@);
        } else if has_children {
            push_char(r, self.chars.down_facing_tee);
        } else {
            push_char(r, self.chars.horizontal_line);
        }
    }

    pub(crate) fn tee(&self, has_children: bool) -> (r: String)
        ensures
            r@ == self.tee_view(has_children),
    {
        let mut r = String::new();
        push_char(&mut r, self.chars.right_facing_tee);
        let line = self.chars.horizontal_line();
        r.append(line.as_str());
        self.push_joint(&mut r, has_children);
        let space = self.chars.label_space();
        r.append(space.as_str());
        assert(r@ =~= self.tee_view(has_children));
        r
    }

    pub(crate) fn angle(&self, has_children: bool) -> (r: String)
        ensures
            r@ == self.angle_view(has_children),
    {
        let mut r = String::new();
        push_char(&mut r, self.chars.right_facing_angle);
        let line = self.chars.horizontal_line();
        r.append(line.as_str());
        self.push_joint(&mut r, has_children);
        let space = self.chars.label_space();
        r.append(space.as_str());
        assert(r@ =~= self.angle_view(has_children));
        r
    }
}

impl Default for TreeFormatting {
    fn default() -> (r: Self)
        ensures
            r == Self::dir_tree_spec(FormatCharacters::ascii_spec()),
    {
        Self::dir_tree(FormatCharacters::ascii())
    }
}

} // verus!
