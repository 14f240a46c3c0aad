use agent_browser::ax_tree::{kept_properties, process_ax_nodes, ref_injections, AxNodeInfo};
use agent_browser::frames::{find_frame_in_tree, page_frames, FrameAssembly, FrameTreeNode, IframeElement};
use agent_browser::snapshot::{collect_snapshot_nodes, SnapshotNode};

fn ax(id: &str, role: &str, name: &str, children: &[&str]) -> AxNodeInfo {
    AxNodeInfo {
        node_id: id.to_string(),
        ignored: false,
        role: Some(role.to_string()),
        name: Some(name.to_string()),
        description: None,
        value: None,
        properties: Vec::new(),
        child_ids: children.iter().map(|c| c.to_string()).collect(),
        backend_id: None,
    }
}

fn refs(nodes: &[SnapshotNode]) -> Vec<String> {
    let mut all = Vec::new();
    collect_snapshot_nodes(nodes, &mut all);
    all.iter().map(|n| n.ref_id.clone()).collect()
}

#[test]
fn ax_tree_numbers_live_nodes_from_the_counter() {
    let mut ignored = ax("2", "generic", "", &["3"]);
    ignored.ignored = true;
    let nodes = vec![ax("1", "main", "Page", &["2", "3"]), ignored, ax("3", "button", "Go", &[])];
    let (forest, counter) = process_ax_nodes(&nodes, 5);
    assert_eq!(counter, 7);
    assert_eq!(forest.len(), 1);
    assert_eq!(forest[0].ref_id, "ax6");
    assert_eq!(forest[0].children.len(), 1);
    assert_eq!(forest[0].children[0].ref_id, "ax7");
    assert_eq!(forest[0].children[0].name, "Go");
}

#[test]
fn ax_tree_places_each_node_once() {
    // "2" is listed by both "1" and "3"; it is placed at its first visit only.
    let nodes = vec![ax("1", "main", "", &["2", "3"]), ax("2", "button", "A", &[]), ax("3", "list", "", &["2"])];
    let (forest, counter) = process_ax_nodes(&nodes, 0);
    assert_eq!(counter, 3);
    assert_eq!(refs(&forest), vec!["ax1", "ax2", "ax3"]);
    assert_eq!(forest[0].children[1].children.len(), 0);
}

#[test]
fn ax_tree_defaults_role_and_name() {
    let mut n = ax("1", "", "", &[]);
    n.role = None;
    n.description = Some(String::new());
    n.value = Some("42".to_string());
    let (forest, _) = process_ax_nodes(&vec![n], 0);
    assert_eq!(forest[0].role, "generic");
    assert_eq!(forest[0].name, "");
    assert_eq!(forest[0].description, None);
    assert_eq!(forest[0].value, Some("42".to_string()));
}

#[test]
fn ax_tree_cycle_terminates() {
    let nodes = vec![ax("root", "main", "", &["a"]), ax("a", "group", "", &["b"]), ax("b", "group", "", &["a"])];
    let (forest, _) = process_ax_nodes(&nodes, 0);
    assert_eq!(refs(&forest), vec!["ax1", "ax2", "ax3"]);
}

#[test]
fn properties_keep_meaningful_values_last_one_wins() {
    let props = vec![
        ("checked".to_string(), "true".to_string()),
        ("disabled".to_string(), "false".to_string()),
        ("level".to_string(), "null".to_string()),
        ("empty".to_string(), String::new()),
        ("checked".to_string(), "mixed".to_string()),
    ];
    let kept = kept_properties(&props);
    assert_eq!(kept, vec![("checked".to_string(), "mixed".to_string())]);
}

#[test]
fn injections_pair_dom_nodes_with_refs() {
    let mut a = ax("1", "main", "", &[]);
    a.backend_id = Some(10);
    let mut b = ax("2", "button", "", &[]);
    b.ignored = true;
    b.backend_id = Some(11);
    let mut c = ax("3", "link", "", &[]);
    c.backend_id = Some(12);
    let plan = ref_injections(&vec![a, b, c], 3);
    assert_eq!(plan, vec![(10, "ax4".to_string()), (12, "ax5".to_string())]);
}

fn frame(id: &str, name: Option<&str>, url: &str, children: Vec<FrameTreeNode>) -> FrameTreeNode {
    FrameTreeNode { id: id.to_string(), name: name.map(|n| n.to_string()), url: url.to_string(), children }
}

#[test]
fn page_frames_lists_frames_in_pre_order() {
    let tree = frame(
        "main",
        None,
        "https://a.test",
        vec![frame("f1", Some("one"), "https://b.test", vec![frame("f2", None, "https://c.test", vec![])]), frame("f3", None, "https://d.test", vec![])],
    );
    let ids: Vec<String> = page_frames(&tree).into_iter().map(|e| e.id).collect();
    assert_eq!(ids, vec!["main", "f1", "f2", "f3"]);
}

#[test]
fn frames_assemble_main_and_iframes() {
    let tree = frame("main", None, "https://a.test", vec![frame("f1", Some("pay"), "https://pay.test", vec![])]);
    let frames = page_frames(&tree);
    let elements = vec![IframeElement { name: Some("pay".to_string()), src: Some("https://pay.test/widget".to_string()) }];
    let mut page = FrameAssembly::new();
    let (main_nodes, c1) = process_ax_nodes(&vec![ax("1", "main", "Top", &[])], 0);
    page.add_frame(&"main".to_string(), true, main_nodes, c1, &frames, &elements);
    let (inner, c2) = process_ax_nodes(&vec![ax("9", "button", "Pay", &[])], page.global_counter);
    page.add_frame(&"f1".to_string(), false, inner, c2, &frames, &elements);
    assert_eq!(page.global_counter, 2);
    assert_eq!(page.iframe_count, 1);
    assert_eq!(page.nodes.len(), 2);
    let iframe = &page.nodes[1];
    assert_eq!(iframe.ref_id, "iframe1");
    assert_eq!(iframe.role, "iframe");
    assert_eq!(iframe.name, "pay");
    assert_eq!(iframe.description, Some("https://pay.test/widget".to_string()));
    assert_eq!(iframe.children[0].ref_id, "ax2");
    assert_eq!(page.iframe_mappings[0].frame_id, "f1");
}

#[test]
fn unnamed_iframe_is_named_after_its_frame() {
    let tree = frame("main", None, "https://a.test", vec![]);
    let frames = page_frames(&tree);
    let elements = vec![IframeElement { name: None, src: None }];
    let mut page = FrameAssembly::new();
    let (inner, c) = process_ax_nodes(&vec![ax("1", "button", "X", &[])], 0);
    page.add_frame(&"f9".to_string(), false, inner, c, &frames, &elements);
    // Frame unknown: its name and URL are empty strings, and no element matches empty values.
    assert_eq!(page.nodes[0].name, "");
    let (more, c2) = process_ax_nodes(&Vec::new(), page.global_counter);
    page.add_frame(&"f10".to_string(), false, more, c2, &frames, &elements);
    assert_eq!(page.iframe_count, 1);
    assert_eq!(page.global_counter, 1);
}

#[test]
fn nested_frames_are_found_by_id() {
    let tree = frame(
        "MAIN-ax7",
        None,
        "https://a.test/",
        vec![
            frame("F1", None, "https://b.test/", vec![frame("F1-ax7-inner", None, "https://c.test/", vec![])]),
            frame("F2-ax7", None, "https://d.test/", vec![]),
        ],
    );
    assert_eq!(find_frame_in_tree(&tree, "ax7").as_deref(), Some("F1-ax7-inner"));
    assert_eq!(find_frame_in_tree(&tree, "F2").as_deref(), Some("F2-ax7"));
    assert_eq!(find_frame_in_tree(&tree, "MAIN"), None);
}
