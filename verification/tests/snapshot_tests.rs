use devtools::registry::Registry;
use devtools::tree::{ElementId, NodeId, NodeKind, StateAttr, TreeNode};

fn element(id: u64, eid: Option<u64>, tag: &str, listeners: Vec<&str>, children: Vec<TreeNode>) -> TreeNode {
    TreeNode {
        id: NodeId(id),
        element_id: eid.map(ElementId),
        kind: NodeKind::Element {
            tag: tag.to_string(),
            listeners: listeners.into_iter().map(|s| s.to_string()).collect(),
        },
        resolved_state: Vec::new(),
        children,
    }
}

fn text(id: u64, eid: Option<u64>, content: &str) -> TreeNode {
    TreeNode {
        id: NodeId(id),
        element_id: eid.map(ElementId),
        kind: NodeKind::Text { text: content.to_string() },
        resolved_state: Vec::new(),
        children: Vec::new(),
    }
}

fn placeholder(id: u64, eid: Option<u64>, children: Vec<TreeNode>) -> TreeNode {
    TreeNode {
        id: NodeId(id),
        element_id: eid.map(ElementId),
        kind: NodeKind::Placeholder,
        resolved_state: Vec::new(),
        children,
    }
}

#[test]
fn single_element_child_is_captured() {
    // Scenario: root -> one element child with listener "click" and ElementId 1.
    let root = placeholder(0, None, vec![element(1, Some(1), "rect", vec!["click"], vec![])]);
    let reg = Registry::build(&root);
    assert_eq!(reg.len(), 1);
    let rec = reg.get(0);
    assert_eq!(rec.id, NodeId(1));
    assert_eq!(rec.element_id, ElementId(1));
    assert_eq!(rec.tag, "rect");
    assert_eq!(rec.depth, 1);
    assert_eq!(rec.text, None);
    assert_eq!(rec.listeners, Some(vec!["click".to_string()]));
}

#[test]
fn text_node_reports_sentinel_tag_and_text() {
    // Scenario: root -> text node "Hello".
    let root = placeholder(0, None, vec![text(1, Some(1), "Hello")]);
    let reg = Registry::build(&root);
    assert_eq!(reg.len(), 1);
    let rec = reg.get(0);
    assert_eq!(rec.tag, "text");
    assert_eq!(rec.text, Some("Hello".to_string()));
    assert_eq!(rec.listeners, None);
}

#[test]
fn placeholder_node_reports_sentinel_tag() {
    let root = placeholder(0, None, vec![placeholder(1, Some(4), vec![])]);
    let reg = Registry::build(&root);
    assert_eq!(reg.len(), 1);
    let rec = reg.get(0);
    assert_eq!(rec.tag, "placeholder");
    assert_eq!(rec.text, None);
    assert_eq!(rec.listeners, None);
}

#[test]
fn nodes_without_element_id_are_skipped() {
    let root = placeholder(
        0,
        None,
        vec![
            element(1, None, "rect", vec![], vec![]),
            element(2, Some(9), "label", vec![], vec![]),
        ],
    );
    let reg = Registry::build(&root);
    assert_eq!(reg.len(), 1);
    assert_eq!(reg.get(0).id, NodeId(2));
}

#[test]
fn preorder_and_depths() {
    let root = element(
        0,
        Some(1),
        "root",
        vec![],
        vec![
            element(1, Some(2), "a", vec![], vec![element(2, Some(3), "a1", vec![], vec![])]),
            element(3, Some(4), "b", vec![], vec![]),
        ],
    );
    let reg = Registry::build(&root);
    assert_eq!(reg.len(), 4);
    let ids: Vec<u64> = (0..reg.len()).map(|i| reg.get(i).id.0).collect();
    assert_eq!(ids, vec![0, 1, 2, 3]);
    let depths: Vec<usize> = (0..reg.len()).map(|i| reg.get(i).depth).collect();
    assert_eq!(depths, vec![0, 1, 2, 1]);
}

#[test]
fn fresh_registry_ids_are_pairwise_distinct() {
    let root = element(
        0,
        Some(1),
        "root",
        vec![],
        vec![
            element(5, Some(2), "a", vec![], vec![text(6, Some(3), "x")]),
            element(7, Some(4), "b", vec![], vec![]),
        ],
    );
    let reg = Registry::build(&root);
    for i in 0..reg.len() {
        for j in 0..reg.len() {
            if i != j {
                assert_ne!(reg.get(i).id, reg.get(j).id);
            }
        }
    }
}

/// The host's dual-root wrapper: the second node met at depth 2 is the
/// inspector's own panel; it and its whole subtree stay out, however deep.
#[test]
fn inspector_panel_subtree_is_excluded() {
    let panel = element(
        100,
        Some(50),
        "panel",
        vec![],
        vec![
            element(101, Some(51), "tabs", vec![], vec![element(
                102,
                Some(52),
                "deep",
                vec![],
                vec![element(103, Some(53), "deeper", vec![], vec![])],
            )]),
        ],
    );
    let app_root = element(
        10,
        Some(20),
        "app",
        vec![],
        vec![element(11, Some(21), "content", vec![], vec![])],
    );
    let wrapper = element(1, Some(2), "wrapper", vec![], vec![app_root, panel]);
    let root = element(0, Some(1), "root", vec![], vec![wrapper]);
    let reg = Registry::build(&root);
    let ids: Vec<u64> = (0..reg.len()).map(|i| reg.get(i).id.0).collect();
    // Everything above and inside the application subtree is there...
    assert_eq!(ids, vec![0, 1, 10, 11]);
    // ...and nothing of the panel subtree, the panel root included.
    for banned in [100u64, 101, 102, 103] {
        assert!(reg.find(NodeId(banned)).is_none());
    }
}

#[test]
fn later_siblings_of_the_panel_are_excluded_too() {
    let wrapper = element(
        1,
        Some(2),
        "wrapper",
        vec![],
        vec![
            element(10, Some(20), "app", vec![], vec![]),
            element(100, Some(50), "panel", vec![], vec![]),
            element(200, Some(60), "stray", vec![], vec![]),
        ],
    );
    let root = element(0, Some(1), "root", vec![], vec![wrapper]);
    let reg = Registry::build(&root);
    let ids: Vec<u64> = (0..reg.len()).map(|i| reg.get(i).id.0).collect();
    assert_eq!(ids, vec![0, 1, 10]);
}

#[test]
fn empty_like_tree_yields_empty_registry() {
    // A bare structural root without an ElementId is not inspectable.
    let root = placeholder(0, None, vec![]);
    let reg = Registry::build(&root);
    assert!(reg.is_empty());
    assert_eq!(reg.len(), 0);
}

#[test]
fn resolved_attributes_ride_along() {
    let mut child = element(1, Some(1), "rect", vec![], vec![]);
    child.resolved_state = vec![
        StateAttr { name: "background".to_string(), value: "rgb(40, 40, 40)".to_string() },
        StateAttr { name: "width".to_string(), value: "100%".to_string() },
    ];
    let root = placeholder(0, None, vec![child]);
    let reg = Registry::build(&root);
    let rec = reg.get(0);
    assert_eq!(rec.resolved_state.len(), 2);
    assert_eq!(rec.resolved_state[0].name, "background");
    assert_eq!(rec.resolved_state[0].value, "rgb(40, 40, 40)");
    assert_eq!(rec.resolved_state[1].name, "width");
}

#[test]
fn find_by_identity() {
    let root = element(
        0,
        Some(1),
        "root",
        vec![],
        vec![element(4, Some(2), "a", vec!["click"], vec![])],
    );
    let reg = Registry::build(&root);
    let rec = reg.find(NodeId(4)).expect("present id resolves");
    assert_eq!(rec.tag, "a");
    assert!(reg.find(NodeId(5)).is_none());
}
