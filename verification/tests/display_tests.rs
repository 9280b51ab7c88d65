use devtools::display::{decimal, listener_label_color, node_label, pointer_trigger_available, rgb_label};
use devtools::registry::NodeRecord;
use devtools::tree::{ElementId, NodeId};

#[test]
fn decimal_notation() {
    assert_eq!(decimal(0), "0");
    assert_eq!(decimal(7), "7");
    assert_eq!(decimal(10), "10");
    assert_eq!(decimal(907), "907");
    assert_eq!(decimal(u64::MAX), "18446744073709551615");
}

#[test]
fn rgb_labels() {
    assert_eq!(rgb_label(255, 0, 10), "rgb(255, 0, 10)");
    assert_eq!(rgb_label(40, 40, 40), "rgb(40, 40, 40)");
}

#[test]
fn node_line_for_an_element_with_listeners() {
    let rec = NodeRecord {
        id: NodeId(5),
        element_id: ElementId(2),
        tag: "rect".to_string(),
        depth: 3,
        text: None,
        listeners: Some(vec!["click".to_string(), "mouseover".to_string()]),
        resolved_state: Vec::new(),
    };
    assert_eq!(node_label(&rec), "rect #5 (2)");
}

#[test]
fn node_line_for_a_text_node() {
    let rec = NodeRecord {
        id: NodeId(9),
        element_id: ElementId(4),
        tag: "text".to_string(),
        depth: 1,
        text: Some("Hello".to_string()),
        listeners: None,
        resolved_state: Vec::new(),
    };
    assert_eq!(node_label(&rec), "text #9 ");
}

#[test]
fn only_the_pointer_pair_gets_a_trigger() {
    assert!(pointer_trigger_available("click"));
    assert!(pointer_trigger_available("mousedown"));
    assert!(!pointer_trigger_available("mouseover"));
    assert!(!pointer_trigger_available("keydown"));
    assert!(!pointer_trigger_available(""));
}

#[test]
fn listener_row_colors() {
    assert_eq!(listener_label_color("click"), "white");
    assert_eq!(listener_label_color("mousedown"), "white");
    assert_eq!(listener_label_color("mouseover"), "rgb(200, 200, 200)");
}
