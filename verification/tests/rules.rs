use coral::tags::{all, lookup};

#[test]
fn lookup_all_tag_types() {
    for tag in all() {
        assert!(lookup(tag.name).is_some(), "lookup failed for {}", tag.name);
    }
}

#[test]
fn lookup_unknown_returns_none() {
    assert!(lookup("nonexistent").is_none());
}

#[test]
fn all_tags_have_unique_names() {
    let names: Vec<&str> = all().iter().map(|t| t.name).collect();
    for (i, name) in names.iter().enumerate() {
        assert!(!names[i + 1..].contains(name), "duplicate tag name: {name}");
    }
}
