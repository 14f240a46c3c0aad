use agent_browser::locate::{
    find_ref_by_label, find_ref_by_role, find_ref_by_text, label_not_found, role_not_found, text_not_found,
};
use agent_browser::snapshot::{PageSnapshot, SnapshotNode};
use agent_browser::state::ObservationState;

fn node(ref_id: &str, role: &str, name: &str) -> SnapshotNode {
    SnapshotNode {
        ref_id: ref_id.to_string(),
        role: role.to_string(),
        name: name.to_string(),
        value: None,
        description: None,
        attributes: Vec::new(),
        children: Vec::new(),
    }
}

fn page() -> Vec<SnapshotNode> {
    let mut heading = node("ax1", "heading", "Sign in to continue");
    heading.children = vec![node("ax2", "StaticText", "Sign in to continue")];
    let mut label = node("ax3", "label", "Email address");
    label.children = vec![node("ax4", "StaticText", "Email"), node("ax5", "textbox", "")];
    let password = node("ax6", "textbox", "Password");
    let mut search = node("ax7", "generic", "");
    search.attributes = vec![("title".to_string(), "Search the site".to_string())];
    let mut filled = node("ax8", "textbox", "Promo");
    filled.value = Some("SPRING-SALE".to_string());
    let button = node("ax9", "button", "Sign in");
    vec![heading, label, password, search, filled, button]
}

#[test]
fn role_lookups_take_the_first_match_in_pre_order() {
    let nodes = page();
    assert_eq!(find_ref_by_role(&nodes, "textbox", None).as_deref(), Some("ax5"));
    assert_eq!(find_ref_by_role(&nodes, "textbox", Some("Pass")).as_deref(), Some("ax6"));
    assert_eq!(find_ref_by_role(&nodes, "textbox", Some("pass")), None);
    assert_eq!(find_ref_by_role(&nodes, "slider", None), None);
}

#[test]
fn text_lookups_prefer_interactive_controls() {
    let nodes = page();
    assert_eq!(find_ref_by_text(&nodes, "Sign in").as_deref(), Some("ax9"));
    assert_eq!(find_ref_by_text(&nodes, "continue").as_deref(), Some("ax1"));
    assert_eq!(find_ref_by_text(&nodes, "SPRING").as_deref(), Some("ax8"));
    assert_eq!(find_ref_by_text(&nodes, "nowhere"), None);
}

#[test]
fn label_lookups_reach_form_fields() {
    let nodes = page();
    assert_eq!(find_ref_by_label(&nodes, "Email").as_deref(), Some("ax5"));
    assert_eq!(find_ref_by_label(&nodes, "Password").as_deref(), Some("ax6"));
    assert_eq!(find_ref_by_label(&nodes, "Search").as_deref(), Some("ax7"));
    assert_eq!(find_ref_by_label(&nodes, "Phone"), None);
}

#[test]
fn lookup_failures_name_what_was_sought() {
    assert_eq!(role_not_found("button", None).message(), "Element not found: ref_id=No element with role 'button' found");
    assert_eq!(
        role_not_found("button", Some("Save")).message(),
        "Element not found: ref_id=No element with role 'button' and name containing 'Save' found"
    );
    assert_eq!(text_not_found("Hi").message(), "Element not found: ref_id=No element with text 'Hi' found");
    assert_eq!(label_not_found("Age").message(), "Element not found: ref_id=No element with label 'Age' found");
}

#[test]
fn found_references_are_accepted_by_validation() {
    let mut obs = ObservationState::new();
    let snapshot = PageSnapshot {
        snapshot_id: "s1".to_string(),
        url: "https://a.test/login".to_string(),
        title: "Login".to_string(),
        nodes: page(),
        timestamp: 0,
        iframe_count: 0,
        iframe_mappings: Vec::new(),
    };
    obs.record(snapshot, "P".to_string(), None);
    let nodes = page();
    for found in [
        find_ref_by_role(&nodes, "button", Some("Sign")),
        find_ref_by_text(&nodes, "Promo"),
        find_ref_by_label(&nodes, "Email"),
    ] {
        let r = found.unwrap();
        assert_eq!(obs.validate("s1", Some(&r), Some("P"), None).unwrap(), "https://a.test/login");
    }
}
