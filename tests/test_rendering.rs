use text_trees::{
    AnchorPosition, FormatCharacters, StringTreeNode, TreeFormatting, TreeNode, TreeOrientation,
};

fn family() -> StringTreeNode {
    StringTreeNode::with_child_nodes(
        "root".to_string(),
        vec![
            "Uncle".into(),
            StringTreeNode::with_child_nodes(
                "Parent".to_string(),
                vec![
                    StringTreeNode::with_children(
                        "Child 1".to_string(),
                        vec!["Grand Child 1".to_string()],
                    ),
                    StringTreeNode::with_children(
                        "Child 2".to_string(),
                        vec!["Grand Child 2".to_string()],
                    ),
                ],
            ),
            StringTreeNode::with_children("Aunt".to_string(), vec!["Child 3".to_string()]),
        ],
    )
}

#[test]
fn single_leaf_with_default_formatting() {
    let node = TreeNode::new("alone".to_string());
    assert_eq!(node.to_string(), "alone\n".to_string());
}

#[test]
fn single_leaf_left_anchored() {
    let node = TreeNode::new("alone".to_string());
    let format = TreeFormatting::dir_tree_left(FormatCharacters::ascii());
    assert_eq!(node.to_string_with_format(&format), "+ alone\n".to_string());
}

#[test]
fn one_line_per_node() {
    let text = family().to_string();
    assert_eq!(text.lines().count(), 9);
    assert!(text.ends_with('\n'));
}

#[test]
fn prefix_begins_every_line() {
    let format = TreeFormatting::dir_tree_with_prefix(FormatCharacters::ascii(), "X ".to_string());
    let text = family().to_string_with_format(&format);
    assert_eq!(text.lines().count(), 9);
    for line in text.lines() {
        assert!(line.starts_with("X "));
    }
    assert!(text.starts_with("X root\n"));
}

#[test]
fn prefix_with_left_anchor() {
    let format =
        TreeFormatting::dir_tree_left_with_prefix(FormatCharacters::ascii(), "> ".to_string());
    let node = TreeNode::with_children("top".to_string(), vec!["a".to_string()]);
    assert_eq!(
        node.to_string_with_format(&format),
        "> + top\n> '--- a\n".to_string()
    );
}

#[test]
fn last_child_uses_angle_others_tee() {
    let node = TreeNode::with_children(
        "p".to_string(),
        vec!["a".to_string(), "b".to_string(), "c".to_string()],
    );
    assert_eq!(node.to_string(), "p\n+-- a\n+-- b\n'-- c\n".to_string());
}

#[test]
fn labels_align_by_depth() {
    // Below-anchored ASCII: each depth below the root adds three columns and the
    // node's own connector adds one column of label spacing.
    let text = family().to_string();
    let expected = [
        ("root", 0usize),
        ("Uncle", 4),
        ("Parent", 4),
        ("Child 1", 7),
        ("Grand Child 1", 10),
        ("Child 2", 7),
        ("Grand Child 2", 10),
        ("Aunt", 4),
        ("Child 3", 7),
    ];
    let lines: Vec<&str> = text.lines().collect();
    assert_eq!(lines.len(), expected.len());
    for (line, (label, column)) in lines.iter().zip(expected.iter()) {
        let chars: Vec<char> = line.chars().collect();
        let tail: String = chars[*column..].iter().collect();
        assert_eq!(tail, label.to_string());
    }
}

#[test]
fn with_children_matches_repeated_push() {
    let built = TreeNode::with_children(
        "p".to_string(),
        vec!["x".to_string(), "y".to_string()],
    );
    let mut pushed = TreeNode::new("p".to_string());
    pushed.push("x".to_string());
    pushed.push("y".to_string());
    let mut extended = TreeNode::new("p".to_string());
    extended.extend(vec!["x".to_string(), "y".to_string()]);
    let format = TreeFormatting::dir_tree_left(FormatCharacters::box_chars());
    assert_eq!(
        built.to_string_with_format(&format),
        pushed.to_string_with_format(&format)
    );
    assert_eq!(
        built.to_string_with_format(&format),
        extended.to_string_with_format(&format)
    );
    assert_eq!(built.to_string(), "p\n+-- x\n'-- y\n".to_string());
}

#[test]
fn rendering_twice_is_identical() {
    let tree = family();
    let format = TreeFormatting::dir_tree_left(FormatCharacters::box_chars());
    assert_eq!(
        tree.to_string_with_format(&format),
        tree.to_string_with_format(&format)
    );
}

#[test]
fn zero_counts_collapse_gaps() {
    let mut chars = FormatCharacters::ascii();
    chars.horizontal_line_count = 0;
    chars.label_space_count = 0;
    let node = TreeNode::with_child_nodes(
        "r".to_string(),
        vec![
            TreeNode::with_children("a".to_string(), vec!["b".to_string()]),
            TreeNode::new("c".to_string()),
        ],
    );
    assert_eq!(
        node.to_string_with_format(&TreeFormatting::dir_tree(chars)),
        "r\n+a\n|'b\n'c\n".to_string()
    );
    assert_eq!(
        node.to_string_with_format(&TreeFormatting::dir_tree_left(chars)),
        "+r\n+,a\n|'-b\n'-c\n".to_string()
    );
}

#[test]
fn wide_label_spacing_below() {
    let mut chars = FormatCharacters::ascii();
    chars.label_space_char = '.';
    chars.label_space_count = 2;
    let node = TreeNode::with_child_nodes(
        "r".to_string(),
        vec![TreeNode::with_children("a".to_string(), vec!["b".to_string()])],
    );
    assert_eq!(
        node.to_string_with_format(&TreeFormatting::dir_tree(chars)),
        "r\n'--..a\n   '--..b\n".to_string()
    );
}

#[test]
fn write_appends_to_the_sink() {
    let node = TreeNode::with_children("p".to_string(), vec!["c".to_string()]);
    let mut sink = "before\n".to_string();
    node.write(&mut sink);
    assert_eq!(sink, "before\np\n'-- c\n".to_string());
    let mut other = String::new();
    node.write_with_format(&mut other, &TreeFormatting::dir_tree_left(FormatCharacters::ascii()));
    assert_eq!(other, "+ p\n'--- c\n".to_string());
}

#[test]
fn default_formatting_is_ascii_below_without_prefix() {
    let format = TreeFormatting::default();
    assert!(format.prefix_str.is_none());
    assert_eq!(format.orientation, TreeOrientation::TopDown);
    assert_eq!(format.anchor, AnchorPosition::Below);
    assert_eq!(format.chars, FormatCharacters::ascii());
    assert_eq!(FormatCharacters::default(), FormatCharacters::ascii());
}

#[test]
fn character_presets() {
    let ascii = FormatCharacters::ascii();
    assert_eq!(ascii.down_facing_angle, '+');
    assert_eq!(ascii.down_facing_tee, ',');
    assert_eq!(ascii.vertical_line, '|');
    assert_eq!(ascii.horizontal_line, '-');
    assert_eq!(ascii.horizontal_space, ' ');
    assert_eq!(ascii.horizontal_line_count, 2);
    assert_eq!(ascii.right_facing_tee, '+');
    assert_eq!(ascii.right_facing_angle, '\'');
    assert_eq!(ascii.label_space_char, ' ');
    assert_eq!(ascii.label_space_count, 1);
    let boxed = FormatCharacters::box_chars();
    assert_eq!(boxed.down_facing_angle, '┌');
    assert_eq!(boxed.down_facing_tee, '┬');
    assert_eq!(boxed.vertical_line, '│');
    assert_eq!(boxed.horizontal_line, '─');
    assert_eq!(boxed.horizontal_space, ' ');
    assert_eq!(boxed.right_facing_tee, '├');
    assert_eq!(boxed.right_facing_angle, '└');
}

#[test]
fn node_accessors() {
    let mut node = TreeNode::new("p".to_string());
    assert!(!node.has_children());
    assert_eq!(node.children().len(), 0);
    node.push_node(TreeNode::with_children("q".to_string(), vec!["r".to_string()]));
    node.push("s".to_string());
    assert!(node.has_children());
    assert_eq!(node.data(), &"p".to_string());
    assert_eq!(node.label(), "p".to_string());
    let labels: Vec<String> = node.children().iter().map(|c| c.label()).collect();
    assert_eq!(labels, vec!["q".to_string(), "s".to_string()]);
    assert!(node.children()[0].has_children());
    let copy: TreeNode<String> = (&"t".to_string()).into();
    assert_eq!(copy.data, "t".to_string());
}
