use ag_accept::tree::{UiNode, UiTree};

fn node(name: Option<&str>, ty: Option<&str>, parent: Option<usize>, children: Vec<usize>) -> UiNode {
    UiNode {
        name: name.map(|s| s.to_string()),
        control_type: ty.map(|s| s.to_string()),
        parent,
        children,
    }
}

/// root(0) -> panel(1) -> [a(2), b(3), c(4), d(5), e(6)]
fn row() -> UiTree {
    UiTree {
        nodes: vec![
            node(Some("Desktop"), None, None, vec![1]),
            node(Some("Panel"), Some("Pane"), Some(0), vec![2, 3, 4, 5, 6]),
            node(Some("a"), Some("Text"), Some(1), vec![]),
            node(Some(""), Some("Image"), Some(1), vec![]),
            node(Some("Accept"), Some("Button"), Some(1), vec![]),
            node(None, None, Some(1), vec![]),
            node(Some("e"), Some("Text"), Some(1), vec![]),
        ],
    }
}

#[test]
fn siblings_in_the_middle_give_five_entries() {
    let t = row();
    assert_eq!(t.neighbours(4), vec![2, 3, 4, 5, 6]);
    let lines = t.inspect_siblings(4);
    assert_eq!(
        lines,
        vec![
            "Prev: \"a\"".to_string(),
            "Prev: [Type:Image]".to_string(),
            "*MATCH*: \"Accept\"".to_string(),
            "Next: <Unknown>".to_string(),
            "Next: \"e\"".to_string(),
        ]
    );
}

#[test]
fn siblings_at_the_edges_have_no_placeholders() {
    let t = row();
    assert_eq!(t.neighbours(2), vec![2, 3, 4]);
    assert_eq!(t.neighbours(6), vec![4, 5, 6]);
    assert_eq!(t.neighbours(3), vec![2, 3, 4, 5]);
    let lines = t.inspect_siblings(2);
    assert_eq!(lines.len(), 3);
    assert_eq!(lines[0], "*MATCH*: \"a\"");
}

#[test]
fn only_child_reports_itself() {
    let t = row();
    assert_eq!(t.inspect_siblings(1), vec!["*MATCH*: \"Panel\"".to_string()]);
}

#[test]
fn ancestry_is_nearest_first() {
    let t = row();
    assert_eq!(t.get_ancestry(4), vec![1, 0]);
    assert_eq!(t.get_ancestry(0), Vec::<usize>::new());
}

#[test]
fn ancestry_is_capped_on_cycles() {
    let t = UiTree {
        nodes: vec![
            node(Some("x"), None, Some(1), vec![1]),
            node(Some("y"), None, Some(0), vec![0]),
        ],
    };
    assert_eq!(t.get_ancestry(0), vec![1, 0, 1, 0, 1, 0, 1, 0, 1, 0]);
}

#[test]
fn reads_of_vanished_elements_fail() {
    let t = row();
    assert_eq!(t.name(99), None);
    assert_eq!(t.control_type(99), None);
    assert_eq!(t.parent(99), None);
    assert!(!t.resolves_now(99));
    assert!(!t.resolves_now(3));
    assert!(t.resolves_now(4));
    assert_eq!(t.element_repr(99), "<Unknown>");
}
