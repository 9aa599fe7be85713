use nexus_client::model::DirEntry;
use nexus_client::ordering::{by_text, sort_by_text, split_files_subdirs};
use std::cmp::Ordering;

fn entry(name: &str, leaf: bool, size: i64) -> DirEntry {
    DirEntry {
        resource_uri: format!("http://localhost/{name}"),
        relative_path: format!("/{name}"),
        text: name.to_string(),
        leaf,
        last_modified: "2023-01-01 00:00:00.0 UTC".to_string(),
        size_on_disk: size,
    }
}

#[test]
fn by_text_orders_by_bytes() {
    assert_eq!(by_text(&entry("a.txt", true, 1), &entry("b.txt", true, 1)), Ordering::Less);
    assert_eq!(by_text(&entry("b", true, 1), &entry("a", true, 1)), Ordering::Greater);
    assert_eq!(by_text(&entry("same", true, 1), &entry("same", false, -1)), Ordering::Equal);
    assert_eq!(by_text(&entry("ab", true, 1), &entry("abc", true, 1)), Ordering::Less);
    assert_eq!(by_text(&entry("Z", true, 1), &entry("a", true, 1)), Ordering::Less);
    assert_eq!(by_text(&entry("z", true, 1), &entry("é", true, 1)), Ordering::Less);
}

#[test]
fn split_keeps_listing_order() {
    let listing = vec![
        entry("b", true, 2),
        entry("sub", false, -1),
        entry("a", true, 1),
        entry("dir", false, -1),
    ];
    let (files, subdirs) = split_files_subdirs(listing);
    let files: Vec<&str> = files.iter().map(|e| e.text.as_str()).collect();
    let subdirs: Vec<&str> = subdirs.iter().map(|e| e.text.as_str()).collect();
    assert_eq!(files, vec!["b", "a"]);
    assert_eq!(subdirs, vec!["sub", "dir"]);
}

#[test]
fn sort_orders_names() {
    let sorted = sort_by_text(vec![
        entry("pom.xml", true, 3),
        entry("a", true, 1),
        entry("maven-metadata.xml", true, 2),
        entry("B", true, 2),
    ]);
    let names: Vec<&str> = sorted.iter().map(|e| e.text.as_str()).collect();
    assert_eq!(names, vec!["B", "a", "maven-metadata.xml", "pom.xml"]);
    assert!(sort_by_text(Vec::new()).is_empty());
}
