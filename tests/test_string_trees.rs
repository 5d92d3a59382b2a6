use text_trees::{AnchorPosition, FormatCharacters, StringTreeNode, TreeFormatting, TreeOrientation};

fn make_tree() -> StringTreeNode {
    StringTreeNode::with_child_nodes(
        "root".to_string(),
        vec![
            "Uncle".into(),
            StringTreeNode::with_child_nodes(
                "Parent".to_string(),
                vec![
                    StringTreeNode::with_children(
                        "Child 1".to_string(),
                        vec!["Grand Child 1".to_string()],
                    ),
                    StringTreeNode::with_child_nodes(
                        "Child 2".to_string(),
                        vec![StringTreeNode::with_child_nodes(
                            "Grand Child 2".to_string(),
                            vec![StringTreeNode::with_children(
                                "Great Grand Child 2".to_string(),
                                vec!["Great Great Grand Child 2".to_string()],
                            )],
                        )],
                    ),
                ],
            ),
            StringTreeNode::with_children("Aunt".to_string(), vec!["Child 3".to_string()]),
        ],
    )
}

fn formatting(chars: FormatCharacters, anchor_below: bool) -> TreeFormatting {
    if anchor_below {
        TreeFormatting::dir_tree(chars)
    } else {
        TreeFormatting::dir_tree_left(chars)
    }
}

#[test]
fn test_string_trees_test_ascii_below_tree() {
    let tree = make_tree();

    let result = tree.to_string_with_format(&formatting(FormatCharacters::ascii(), true));
    println!("{}", result);
    assert_eq!(
        result,
        r#"root
+-- Uncle
+-- Parent
|  +-- Child 1
|  |  '-- Grand Child 1
|  '-- Child 2
|     '-- Grand Child 2
|        '-- Great Grand Child 2
|           '-- Great Great Grand Child 2
'-- Aunt
   '-- Child 3
"#
        .to_string()
    );
}

#[test]
fn test_string_trees_test_box_char_below_tree() {
    let tree = make_tree();

    let result = tree.to_string_with_format(&formatting(FormatCharacters::box_chars(), true));
    println!("{}", result);
    assert_eq!(
        result,
        r#"root
├── Uncle
├── Parent
│  ├── Child 1
│  │  └── Grand Child 1
│  └── Child 2
│     └── Grand Child 2
│        └── Great Grand Child 2
│           └── Great Great Grand Child 2
└── Aunt
   └── Child 3
"#
        .to_string()
    );
}

#[test]
fn test_string_trees_test_ascii_side_tree() {
    let tree = make_tree();

    let result = tree.to_string_with_format(&formatting(FormatCharacters::ascii(), false));
    println!("{}", result);
    assert_eq!(
        result,
        r#"+ root
+--- Uncle
+--, Parent
|  +--, Child 1
|  |  '--- Grand Child 1
|  '--, Child 2
|     '--, Grand Child 2
|        '--, Great Grand Child 2
|           '--- Great Great Grand Child 2
'--, Aunt
   '--- Child 3
"#
        .to_string()
    );
}

#[test]
fn test_string_trees_test_box_char_side_tree() {
    let tree = make_tree();

    let result = tree.to_string_with_format(&formatting(FormatCharacters::box_chars(), false));
    println!("{}", result);
    assert_eq!(
        result,
        r#"┌ root
├─── Uncle
├──┬ Parent
│  ├──┬ Child 1
│  │  └─── Grand Child 1
│  └──┬ Child 2
│     └──┬ Grand Child 2
│        └──┬ Great Grand Child 2
│           └─── Great Great Grand Child 2
└──┬ Aunt
   └─── Child 3
"#
        .to_string()
    );
}

#[test]
fn test_string_trees_test_spacing_in_tree() {
    let tree = make_tree();

    let format = TreeFormatting {
        prefix_str: Some(".. ".to_string()),
        orientation: TreeOrientation::TopDown,
        anchor: AnchorPosition::Left,
        chars: FormatCharacters {
            down_facing_angle: '┌',
            down_facing_tee: '┬',
            vertical_line: '│',
            horizontal_line: '─',
            horizontal_space: '#',
            horizontal_line_count: 5,
            right_facing_tee: '├',
            right_facing_angle: '└',
            label_space_char: '.',
            label_space_count: 2,
        },
    };

    let result = tree.to_string_with_format(&format);
    println!("{}", result);
    assert_eq!(
        result,
        r#".. ┌..root
.. ├──────..Uncle
.. ├─────┬..Parent
.. │#####├─────┬..Child 1
.. │#####│#####└──────..Grand Child 1
.. │#####└─────┬..Child 2
.. │###########└─────┬..Grand Child 2
.. │#################└─────┬..Great Grand Child 2
.. │#######################└──────..Great Great Grand Child 2
.. └─────┬..Aunt
.. ######└──────..Child 3
"#
        .to_string()
    );
}
