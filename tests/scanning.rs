use ag_accept::scanner::{scan_for_context_and_button, MAX_DEPTH};
use ag_accept::tree::{UiNode, UiTree};

fn node(name: Option<&str>, ty: Option<&str>, parent: Option<usize>, children: Vec<usize>) -> UiNode {
    UiNode {
        name: name.map(|s| s.to_string()),
        control_type: ty.map(|s| s.to_string()),
        parent,
        children,
    }
}

fn texts(v: &[&str]) -> Vec<String> {
    v.iter().map(|s| s.to_string()).collect()
}

/// desktop(0) -> window(1) -> [context text(2), button(3)]
fn dialog() -> UiTree {
    UiTree {
        nodes: vec![
            node(Some("Desktop"), Some("Pane"), None, vec![1]),
            node(Some("FooBar"), Some("Window"), Some(0), vec![2, 3]),
            node(Some("Run command?"), Some("Text"), Some(1), vec![]),
            node(Some("Accept"), Some("Button"), Some(1), vec![]),
        ],
    }
}

#[test]
fn finds_context_and_button() {
    let t = dialog();
    let r = scan_for_context_and_button(&t, 1, &texts(&["Run command?"]), &texts(&["Accept"]));
    assert!(r.context_found);
    assert_eq!(r.button, Some(3));
}

#[test]
fn missing_context_is_reported() {
    let t = dialog();
    let r = scan_for_context_and_button(&t, 1, &texts(&["Delete everything?"]), &texts(&["Accept"]));
    assert!(!r.context_found);
    assert_eq!(r.button, Some(3));
}

#[test]
fn empty_context_list_never_reports_context() {
    let t = dialog();
    let r = scan_for_context_and_button(&t, 1, &texts(&[]), &texts(&["Accept"]));
    assert!(!r.context_found);
    assert_eq!(r.button, Some(3));
}

#[test]
fn non_interactive_text_is_not_a_button() {
    let t = UiTree {
        nodes: vec![
            node(Some("Desktop"), None, None, vec![1]),
            node(Some("W"), Some("Window"), Some(0), vec![2]),
            node(Some("Accept"), Some("Text"), Some(1), vec![]),
        ],
    };
    let r = scan_for_context_and_button(&t, 1, &texts(&[]), &texts(&["Accept"]));
    assert_eq!(r.button, None);
}

#[test]
fn failed_type_query_rejects_button() {
    let t = UiTree {
        nodes: vec![
            node(Some("Desktop"), None, None, vec![1]),
            node(Some("W"), Some("Window"), Some(0), vec![2]),
            node(Some("Accept"), None, Some(1), vec![]),
        ],
    };
    let r = scan_for_context_and_button(&t, 1, &texts(&[]), &texts(&["Accept"]));
    assert_eq!(r.button, None);
}

#[test]
fn hyperlink_counts_as_button() {
    let t = UiTree {
        nodes: vec![
            node(Some("Desktop"), None, None, vec![1]),
            node(Some("W"), Some("Window"), Some(0), vec![2]),
            node(Some("Accept all"), Some("Hyperlink"), Some(1), vec![]),
        ],
    };
    let r = scan_for_context_and_button(&t, 1, &texts(&[]), &texts(&["Accept"]));
    assert_eq!(r.button, Some(2));
}

#[test]
fn unreadable_or_blank_names_are_skipped() {
    let t = UiTree {
        nodes: vec![
            node(Some("Desktop"), None, None, vec![1]),
            node(Some("W"), Some("Window"), Some(0), vec![2, 3, 4]),
            node(None, Some("Button"), Some(1), vec![]),
            node(Some("   "), Some("Button"), Some(1), vec![]),
            node(Some("Accept"), Some("Button"), Some(1), vec![]),
        ],
    };
    let r = scan_for_context_and_button(&t, 1, &texts(&[" "]), &texts(&["Accept", ""]));
    assert!(!r.context_found);
    assert_eq!(r.button, Some(4));
}

#[test]
fn stops_before_poisoned_late_node() {
    // Node 5 is its own child eight times over: walking it would visit
    // 8^25 nodes, so the scan must stop before reaching it.
    let t = UiTree {
        nodes: vec![
            node(Some("Desktop"), None, None, vec![1]),
            node(Some("W"), Some("Window"), Some(0), vec![2, 3, 4, 5]),
            node(Some("Run command?"), Some("Text"), Some(1), vec![]),
            node(Some("Accept"), Some("Button"), Some(1), vec![]),
            node(Some("Accept later"), Some("Button"), Some(1), vec![]),
            node(Some("poison"), Some("Pane"), Some(1), vec![5, 5, 5, 5, 5, 5, 5, 5]),
        ],
    };
    let r = scan_for_context_and_button(&t, 1, &texts(&["Run command?"]), &texts(&["Accept"]));
    assert!(r.context_found);
    assert_eq!(r.button, Some(3));
}

#[test]
fn first_button_in_depth_first_order_wins() {
    // window(1) -> [panel(2) -> [button(4)], button(3)]
    let t = UiTree {
        nodes: vec![
            node(Some("Desktop"), None, None, vec![1]),
            node(Some("W"), Some("Window"), Some(0), vec![2, 3]),
            node(Some("Panel"), Some("Pane"), Some(1), vec![4]),
            node(Some("Accept B"), Some("Button"), Some(1), vec![]),
            node(Some("Accept A"), Some("Button"), Some(2), vec![]),
        ],
    };
    let r = scan_for_context_and_button(&t, 1, &texts(&[]), &texts(&["Accept"]));
    assert_eq!(r.button, Some(4));
}

/// A chain root(0) -> 1 -> 2 -> ... -> n, with a button at the bottom.
fn chain(n: usize) -> UiTree {
    let mut nodes = Vec::new();
    for i in 0..=n {
        let children = if i < n { vec![i + 1] } else { vec![] };
        let parent = if i == 0 { None } else { Some(i - 1) };
        if i == n {
            nodes.push(node(Some("Accept"), Some("Button"), parent, children));
        } else {
            nodes.push(node(Some("level"), Some("Pane"), parent, children));
        }
    }
    UiTree { nodes }
}

#[test]
fn button_at_depth_cap_is_found() {
    let t = chain(MAX_DEPTH);
    let r = scan_for_context_and_button(&t, 0, &texts(&[]), &texts(&["Accept"]));
    assert_eq!(r.button, Some(MAX_DEPTH));
}

#[test]
fn button_below_depth_cap_is_not_found() {
    let t = chain(MAX_DEPTH + 1);
    let r = scan_for_context_and_button(&t, 0, &texts(&[]), &texts(&["Accept"]));
    assert_eq!(r.button, None);
}

#[test]
fn cyclic_tree_terminates() {
    let t = UiTree {
        nodes: vec![
            node(Some("Desktop"), None, None, vec![1]),
            node(Some("loop"), Some("Pane"), Some(1), vec![1]),
        ],
    };
    let r = scan_for_context_and_button(&t, 0, &texts(&["nothing"]), &texts(&["Accept"]));
    assert!(!r.context_found);
    assert_eq!(r.button, None);
}

#[test]
fn vanished_root_yields_nothing() {
    let t = dialog();
    let r = scan_for_context_and_button(&t, 42, &texts(&["Run command?"]), &texts(&["Accept"]));
    assert!(!r.context_found);
    assert_eq!(r.button, None);
}
