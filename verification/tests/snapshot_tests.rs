use agent_browser::snapshot::{
    collect_snapshot_nodes, compact_snapshot, count_nodes, find_node_by_ref, find_nodes_by_role,
    diff_snapshots, format_snapshot, now_secs, timestamp_of_reading, IframeMapping, PageSnapshot, SnapshotNode, SnapshotOptions,
};

fn create_test_node(ref_id: &str, role: &str, name: &str) -> SnapshotNode {
    SnapshotNode {
        ref_id: ref_id.to_string(),
        role: role.to_string(),
        name: name.to_string(),
        value: None,
        description: None,
        attributes: Vec::new(),
        children: Vec::new(),
    }
}

fn create_test_node_with_children(
    ref_id: &str,
    role: &str,
    name: &str,
    children: Vec<SnapshotNode>,
) -> SnapshotNode {
    let mut node = create_test_node(ref_id, role, name);
    node.children = children;
    node
}

#[test]
fn test_count_nodes_empty() {
    let nodes: Vec<SnapshotNode> = Vec::new();
    assert_eq!(count_nodes(&nodes), 0);
}

#[test]
fn test_count_nodes_single() {
    let nodes = vec![create_test_node("ax1", "button", "Click me")];
    assert_eq!(count_nodes(&nodes), 1);
}

#[test]
fn test_count_nodes_with_children() {
    let child1 = create_test_node("ax2", "text", "Hello");
    let child2 = create_test_node("ax3", "text", "World");
    let parent = create_test_node_with_children("ax1", "button", "Submit", vec![child1, child2]);

    assert_eq!(count_nodes(&[parent]), 3);
}

#[test]
fn test_count_nodes_nested() {
    let grandchild = create_test_node("ax3", "span", "Deep");
    let child = create_test_node_with_children("ax2", "div", "Child", vec![grandchild]);
    let root = create_test_node_with_children("ax1", "main", "Root", vec![child]);

    assert_eq!(count_nodes(&[root]), 3);
}

#[test]
fn test_find_node_by_ref_found() {
    let nodes = vec![
        create_test_node("ax1", "button", "Button 1"),
        create_test_node("ax2", "button", "Button 2"),
        create_test_node("ax3", "link", "Link"),
    ];

    let found = find_node_by_ref(&nodes, "ax2");
    assert!(found.is_some());
    assert_eq!(found.unwrap().name, "Button 2");
}

#[test]
fn test_find_node_by_ref_not_found() {
    let nodes = vec![create_test_node("ax1", "button", "Button")];
    let found = find_node_by_ref(&nodes, "ax999");
    assert!(found.is_none());
}

#[test]
fn test_find_node_by_ref_nested() {
    let child = create_test_node("ax2", "span", "Child");
    let parent = create_test_node_with_children("ax1", "div", "Parent", vec![child]);
    let nodes = [parent];

    let found = find_node_by_ref(&nodes, "ax2");
    assert!(found.is_some());
    assert_eq!(found.unwrap().name, "Child");
}

#[test]
fn test_find_nodes_by_role() {
    let nodes = vec![
        create_test_node("ax1", "button", "Button 1"),
        create_test_node("ax2", "link", "Link 1"),
        create_test_node("ax3", "button", "Button 2"),
        create_test_node("ax4", "textbox", "Input"),
    ];

    let buttons = find_nodes_by_role(&nodes, "button");
    assert_eq!(buttons.len(), 2);

    let links = find_nodes_by_role(&nodes, "link");
    assert_eq!(links.len(), 1);

    let forms = find_nodes_by_role(&nodes, "form");
    assert_eq!(forms.len(), 0);
}

#[test]
fn test_find_nodes_by_role_nested() {
    let child_button = create_test_node("ax3", "button", "Child Button");
    let parent = create_test_node_with_children("ax1", "div", "Parent", vec![child_button]);
    let top_button = create_test_node("ax2", "button", "Top Button");
    let nodes = [parent, top_button];

    let buttons = find_nodes_by_role(&nodes, "button");
    assert_eq!(buttons.len(), 2);
}

#[test]
fn compact_snapshot_reserves_budget_for_ancestors() {
    let button = create_test_node("ax2", "button", "Submit");
    let root = create_test_node_with_children("ax1", "main", "Page", vec![button]);
    let snapshot = PageSnapshot {
        snapshot_id: "snapshot-1".to_string(),
        url: "https://example.com".to_string(),
        title: "Example".to_string(),
        nodes: vec![root],
        timestamp: 0,
        iframe_count: 0,
        iframe_mappings: Vec::new(),
    };
    let compact = compact_snapshot(
        &snapshot,
        &SnapshotOptions {
            interactive_only: true,
            root_ref: None,
            max_depth: Some(8),
            max_nodes: 2,
        },
    );

    assert_eq!(count_nodes(&compact.nodes), 2);
    assert_eq!(compact.nodes[0].children[0].ref_id, "ax2");
}

#[test]
fn test_format_snapshot_basic() {
    let nodes = vec![create_test_node("ax1", "button", "Click me")];
    let snapshot = PageSnapshot {
        snapshot_id: "test-id".to_string(),
        url: "https://example.com".to_string(),
        title: "Example".to_string(),
        nodes,
        timestamp: 1234567890,
        iframe_count: 0,
        iframe_mappings: Vec::new(),
    };

    let formatted = format_snapshot(&snapshot);
    assert!(formatted.contains("https://example.com"));
    assert!(formatted.contains("Example"));
    assert!(formatted.contains("ax1"));
    assert!(formatted.contains("button"));
    assert!(formatted.contains("Click me"));
}

#[test]
fn test_format_snapshot_with_iframes() {
    let nodes = vec![create_test_node("ax1", "main", "Content")];
    let snapshot = PageSnapshot {
        snapshot_id: "test-id".to_string(),
        url: "https://example.com".to_string(),
        title: "Example".to_string(),
        nodes,
        timestamp: 1234567890,
        iframe_count: 2,
        iframe_mappings: vec![IframeMapping {
            ref_id: "iframe1".to_string(),
            frame_id: "frame-123".to_string(),
            name: Some("embed".to_string()),
            src: Some("https://other.com".to_string()),
        }],
    };

    let formatted = format_snapshot(&snapshot);
    assert!(formatted.contains("iframe 数量: 2"));
}

#[test]
fn collect_snapshot_nodes_is_recursive() {
    let nodes = vec![create_test_node_with_children(
        "root",
        "generic",
        "",
        vec![create_test_node_with_children(
            "child",
            "generic",
            "",
            vec![create_test_node("leaf", "generic", "")],
        )],
    )];
    let mut collected = Vec::new();
    collect_snapshot_nodes(&nodes, &mut collected);
    let refs: Vec<&str> = collected.iter().map(|node| node.ref_id.as_str()).collect();
    assert_eq!(refs, vec!["root", "child", "leaf"]);
}

#[test]
fn clock_readings_become_timestamps() {
    assert_eq!(timestamp_of_reading(Some(1_700_000_000)), 1_700_000_000i64);
    assert_eq!(timestamp_of_reading(None), 0i64);
    assert!(now_secs() > 0);
}

fn page(nodes: Vec<SnapshotNode>) -> PageSnapshot {
    PageSnapshot {
        snapshot_id: "s".to_string(),
        url: "https://example.com".to_string(),
        title: "T".to_string(),
        nodes,
        timestamp: 0,
        iframe_count: 0,
        iframe_mappings: Vec::new(),
    }
}

fn depth_of(nodes: &[SnapshotNode]) -> usize {
    nodes.iter().map(|n| 1 + depth_of(&n.children)).max().unwrap_or(0)
}

#[test]
fn compaction_keeps_depth_and_actionable_branches() {
    let deep = create_test_node_with_children(
        "ax1",
        "main",
        "Root",
        vec![create_test_node_with_children("ax2", "group", "G", vec![create_test_node("ax3", "button", "Deep")])],
    );
    let plain = create_test_node_with_children("ax4", "region", "R", vec![create_test_node("ax5", "text", "t")]);
    let snapshot = page(vec![deep, plain]);
    let shallow = compact_snapshot(
        &snapshot,
        &SnapshotOptions { interactive_only: false, root_ref: None, max_depth: Some(1), max_nodes: 100 },
    );
    assert_eq!(depth_of(&shallow.nodes), 2);
    assert_eq!(count_nodes(&shallow.nodes), 4);
    let interactive = compact_snapshot(
        &snapshot,
        &SnapshotOptions { interactive_only: true, root_ref: None, max_depth: None, max_nodes: 100 },
    );
    assert_eq!(interactive.nodes.len(), 1);
    assert_eq!(interactive.nodes[0].ref_id, "ax1");
    assert_eq!(interactive.nodes[0].children[0].children[0].ref_id, "ax3");
}

#[test]
fn diff_parts_never_share_a_path() {
    let before = page(vec![create_test_node("ax1", "button", "Old"), create_test_node("ax2", "link", "Gone")]);
    let after = page(vec![create_test_node("ax1", "button", "New"), create_test_node("ax3", "textbox", "Added")]);
    let d = diff_snapshots(&before, &after);
    let paths = |v: &Vec<agent_browser::snapshot::SnapshotNodeSummary>| v.iter().map(|s| s.path.clone()).collect::<Vec<_>>();
    assert_eq!(paths(&d.changed), vec!["root/0:button".to_string()]);
    assert_eq!(paths(&d.added), vec!["root/1:textbox".to_string()]);
    assert_eq!(paths(&d.removed), vec!["root/1:link".to_string()]);
}

#[test]
fn formatting_writes_one_line_per_node() {
    let tree = create_test_node_with_children("ax1", "main", "Root", vec![create_test_node("ax2", "button", "Go")]);
    let text = format_snapshot(&page(vec![tree, create_test_node("ax3", "link", "L")]));
    let body: Vec<&str> = text.lines().filter(|l| l.trim_start().starts_with("[ax")).collect();
    assert_eq!(body.len(), 3);
    assert!(body[0].starts_with("[ax1] main \"Root\""));
    assert!(body[1].starts_with("  [ax2] button \"Go\""));
    assert!(body[2].starts_with("[ax3] link \"L\""));
}

#[test]
fn compaction_keeps_an_actionable_branch() {
    let deep = create_test_node_with_children(
        "ax1",
        "main",
        "Root",
        vec![create_test_node_with_children("ax2", "group", "G", vec![create_test_node("ax3", "link", "L")])],
    );
    let options = SnapshotOptions { interactive_only: true, root_ref: None, max_depth: Some(2), max_nodes: 1 };
    let compact = compact_snapshot(&page(vec![deep]), &options);
    assert_eq!(compact.nodes.len(), 1);
    assert_eq!(compact.nodes[0].ref_id, "ax1");
}
