use rustlb::reload::{should_reload, ChangeKind};

fn name(s: &str) -> Option<String> {
    Some(s.to_string())
}

#[test]
fn test_should_reload_modify() {
    assert!(should_reload(ChangeKind::Modify, &[name("config.yaml")], &name("config.yaml")));
}

#[test]
fn test_should_reload_create() {
    assert!(should_reload(ChangeKind::Create, &[name("config.yaml")], &name("config.yaml")));
}

#[test]
fn test_should_reload_wrong_file() {
    assert!(!should_reload(ChangeKind::Modify, &[name("other.yaml")], &name("config.yaml")));
}

#[test]
fn test_should_reload_delete_ignored() {
    assert!(!should_reload(ChangeKind::Remove, &[name("config.yaml")], &name("config.yaml")));
}

#[test]
fn reload_when_any_changed_file_matches() {
    assert!(should_reload(ChangeKind::Modify, &[name("a"), None, name("config.yaml")], &name("config.yaml")));
    assert!(!should_reload(ChangeKind::Other, &[name("config.yaml")], &name("config.yaml")));
    assert!(!should_reload(ChangeKind::Create, &[], &name("config.yaml")));
}
