use tektii_gateway_core::adapter::BracketLinks;

#[test]
fn records_and_resolves_a_link() {
    let mut links = BracketLinks::new();
    links.record("sl-1", "entry-1");

    assert_eq!(links.parent_of("sl-1"), Some("entry-1".to_string()));
}

#[test]
fn unknown_order_has_no_parent() {
    let mut links = BracketLinks::new();
    links.record("sl-1", "entry-1");

    assert_eq!(links.parent_of("entry-1"), None);
    assert_eq!(links.parent_of("other"), None);
}

#[test]
fn release_drops_the_link() {
    let mut links = BracketLinks::new();
    links.record("sl-1", "entry-1");
    links.release("sl-1");

    assert_eq!(links.parent_of("sl-1"), None);
}

#[test]
fn re_recording_a_leg_replaces_its_parent() {
    let mut links = BracketLinks::new();
    links.record("sl-1", "entry-1");
    links.record("sl-1", "entry-2");

    assert_eq!(links.parent_of("sl-1"), Some("entry-2".to_string()));
}

#[test]
fn releasing_one_leg_keeps_the_other() {
    let mut links = BracketLinks::new();
    links.record("sl-1", "entry-1");
    links.record("tp-1", "entry-1");
    links.release("sl-1");
    links.release("never-recorded");

    assert_eq!(links.parent_of("sl-1"), None);
    assert_eq!(links.parent_of("tp-1"), Some("entry-1".to_string()));
}
