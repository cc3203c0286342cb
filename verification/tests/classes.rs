use webelements::classes::{add_class, has_class, remove_class, toggle_class};

fn list(names: &[&str]) -> Vec<String> {
    names.iter().map(|s| s.to_string()).collect()
}

#[test]
fn has_class_finds_exact_names() {
    let classes = list(&["menu", "open"]);
    assert!(has_class(&classes, "menu"));
    assert!(has_class(&classes, "open"));
    assert!(!has_class(&classes, "closed"));
    assert!(!has_class(&classes, "men"));
}

#[test]
fn add_class_is_idempotent() {
    let mut classes = list(&["menu"]);
    add_class(&mut classes, "open");
    assert_eq!(classes, list(&["menu", "open"]));
    add_class(&mut classes, "open");
    assert_eq!(classes, list(&["menu", "open"]));
}

#[test]
fn remove_class_removes_all_occurrences() {
    let mut classes = list(&["a", "b", "a", "c"]);
    remove_class(&mut classes, "a");
    assert_eq!(classes, list(&["b", "c"]));
    remove_class(&mut classes, "missing");
    assert_eq!(classes, list(&["b", "c"]));
}

#[test]
fn toggle_class_flips_membership() {
    let mut classes = list(&["on"]);
    toggle_class(&mut classes, "on");
    assert_eq!(classes, Vec::<String>::new());
    toggle_class(&mut classes, "on");
    assert_eq!(classes, list(&["on"]));
}
