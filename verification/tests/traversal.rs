use nexus_client::model::DirEntry;
use nexus_client::traversal::{chunk_of_fetch, order_listing, Coordinator, DirChunk};
use std::collections::VecDeque;

fn file(dir: &str, name: &str, size: i64) -> DirEntry {
    DirEntry {
        resource_uri: format!("http://localhost/content{dir}{name}"),
        relative_path: format!("{dir}{name}"),
        text: name.to_string(),
        leaf: true,
        last_modified: "2023-01-01 00:00:00.0 UTC".to_string(),
        size_on_disk: size,
    }
}

fn subdir(dir: &str, name: &str) -> DirEntry {
    DirEntry {
        resource_uri: format!("http://localhost/content{dir}{name}/"),
        relative_path: format!("{dir}{name}/"),
        text: name.to_string(),
        leaf: false,
        last_modified: "2023-01-01 00:00:00.0 UTC".to_string(),
        size_on_disk: -1,
    }
}

/// A remote tree held in memory: `None` stands for a directory whose
/// listing cannot be fetched.
fn fetch(tree: &[(&str, Option<Vec<DirEntry>>)], dir: &str) -> Option<Vec<DirEntry>> {
    for (path, listing) in tree {
        if *path == dir {
            return listing.clone();
        }
    }
    None
}

struct Run {
    emitted: Vec<String>,
    chunks: usize,
    spawned: usize,
    files: usize,
}

/// Runs the coordinator over the tree; `last_first` picks which of the
/// chunks in flight arrives next.
fn traverse(tree: &[(&str, Option<Vec<DirEntry>>)], start: &str, last_first: bool) -> Run {
    let mut run = Run { emitted: Vec::new(), chunks: 0, spawned: 0, files: 0 };
    let mut coordinator = Coordinator::new();
    let mut channel: VecDeque<DirChunk> = VecDeque::new();
    channel.push_back(DirChunk {
        container: None,
        entries: fetch(tree, start).expect("the root can be listed"),
    });
    loop {
        let chunk = if last_first { channel.pop_back() } else { channel.pop_front() };
        let chunk = chunk.expect("a chunk is in flight while the count is not 0");
        assert!(coordinator.can_process(&chunk));
        let actions = coordinator.process_chunk(chunk);
        run.chunks += 1;
        if let Some(container) = actions.container {
            run.emitted.push(format!("{}/", container.text));
        }
        for entry in actions.files {
            run.files += 1;
            run.emitted.push(entry.text);
        }
        for entry in actions.subdirs {
            run.spawned += 1;
            let fetched = fetch(tree, &entry.relative_path);
            channel.push_back(chunk_of_fetch(entry, fetched));
        }
        assert_eq!(coordinator.pending_count(), channel.len());
        assert_eq!(actions.finished, coordinator.is_complete());
        if actions.finished {
            break;
        }
    }
    assert!(channel.is_empty());
    run
}

fn scenario_tree() -> Vec<(&'static str, Option<Vec<DirEntry>>)> {
    vec![
        ("/", Some(vec![subdir("/", "sub"), file("/", "a.txt", 10)])),
        ("/sub/", Some(vec![file("/sub/", "b.txt", 20)])),
    ]
}

#[test]
fn non_recursive_listing_puts_each_part_in_order() {
    let listing = order_listing(fetch(&scenario_tree(), "/").unwrap());
    let subdirs: Vec<&str> = listing.subdirs.iter().map(|e| e.text.as_str()).collect();
    let files: Vec<&str> = listing.files.iter().map(|e| e.text.as_str()).collect();
    assert_eq!(subdirs, vec!["sub"]);
    assert_eq!(files, vec!["a.txt"]);
    assert_eq!(listing.files[0].size_on_disk, 10);
    let shown: Vec<String> = listing
        .into_display_order()
        .into_iter()
        .map(|e| if e.leaf { e.text } else { format!("{}/", e.text) })
        .collect();
    assert_eq!(shown, vec!["sub/", "a.txt"]);
}

#[test]
fn recursive_listing_emits_nested_file_after_its_directory() {
    for last_first in [false, true] {
        let run = traverse(&scenario_tree(), "/", last_first);
        assert_eq!(run.emitted, vec!["a.txt", "sub/", "b.txt"]);
        assert_eq!(run.chunks, 2);
        assert_eq!(run.spawned, 1);
        assert_eq!(run.files, 2);
    }
}

#[test]
fn empty_directory_yields_nothing_and_traversal_ends() {
    let tree = vec![
        ("/", Some(vec![subdir("/", "empty")])),
        ("/empty/", Some(Vec::new())),
    ];
    let listing = order_listing(fetch(&tree, "/empty/").unwrap());
    assert!(listing.files.is_empty());
    assert!(listing.subdirs.is_empty());
    let run = traverse(&tree, "/", false);
    assert_eq!(run.emitted, vec!["empty/"]);
    assert_eq!(run.chunks, 2);
    assert_eq!(run.files, 0);
}

#[test]
fn empty_root_ends_after_one_chunk() {
    let tree = vec![("/", Some(Vec::new()))];
    let run = traverse(&tree, "/", false);
    assert_eq!(run.chunks, 1);
    assert_eq!(run.spawned, 0);
    assert!(run.emitted.is_empty());
}

fn deep_tree() -> Vec<(&'static str, Option<Vec<DirEntry>>)> {
    vec![
        (
            "/",
            Some(vec![
                file("/", "z.txt", 1),
                subdir("/", "b"),
                file("/", "a.txt", 2),
                subdir("/", "a"),
            ]),
        ),
        ("/a/", Some(vec![subdir("/a/", "x"), file("/a/", "m.jar", 3), file("/a/", "c.pom", 4)])),
        ("/a/x/", Some(vec![file("/a/x/", "deep.txt", 5)])),
        ("/b/", Some(Vec::new())),
    ]
}

#[test]
fn every_file_and_directory_is_visited_once_in_any_order() {
    for last_first in [false, true] {
        let run = traverse(&deep_tree(), "/", last_first);
        assert_eq!(run.chunks, 4);
        assert_eq!(run.spawned, 3);
        assert_eq!(run.files, 5);
        let mut emitted = run.emitted.clone();
        emitted.sort();
        assert_eq!(
            emitted,
            vec!["a.txt", "a/", "b/", "c.pom", "deep.txt", "m.jar", "x/", "z.txt"]
        );
    }
}

#[test]
fn files_of_one_directory_come_in_name_order() {
    let run = traverse(&deep_tree(), "/", false);
    assert_eq!(run.emitted, vec!["a.txt", "z.txt", "a/", "c.pom", "m.jar", "b/", "x/", "deep.txt"]);
    let run = traverse(&deep_tree(), "/", true);
    assert_eq!(run.emitted, vec!["a.txt", "z.txt", "b/", "a/", "c.pom", "m.jar", "x/", "deep.txt"]);
}

#[test]
fn failed_fetch_does_not_stop_the_siblings() {
    let tree = vec![
        ("/", Some(vec![subdir("/", "broken"), subdir("/", "good"), file("/", "top.txt", 1)])),
        ("/broken/", None),
        ("/good/", Some(vec![file("/good/", "kept.txt", 2), subdir("/good/", "inner")])),
        ("/good/inner/", Some(vec![file("/good/inner/", "leaf.txt", 3)])),
    ];
    for last_first in [false, true] {
        let run = traverse(&tree, "/", last_first);
        assert_eq!(run.chunks, 4);
        assert_eq!(run.files, 3);
        assert!(run.emitted.contains(&"kept.txt".to_string()));
        assert!(run.emitted.contains(&"leaf.txt".to_string()));
        assert!(run.emitted.contains(&"broken/".to_string()));
    }
}

#[test]
fn pending_counts_one_up_for_each_subdirectory_and_one_down_for_the_chunk() {
    let mut coordinator = Coordinator::new();
    assert_eq!(coordinator.pending_count(), 1);
    assert!(!coordinator.is_complete());
    let root = DirChunk {
        container: None,
        entries: vec![subdir("/", "a"), subdir("/", "b"), subdir("/", "c"), file("/", "f", 1)],
    };
    let actions = coordinator.process_chunk(root);
    assert_eq!(coordinator.pending_count(), 3);
    assert!(!actions.finished);
    assert!(actions.container.is_none());
    for name in ["a", "b", "c"] {
        let chunk = chunk_of_fetch(subdir("/", name), Some(Vec::new()));
        let actions = coordinator.process_chunk(chunk);
        assert_eq!(actions.container.map(|e| e.text), Some(name.to_string()));
        assert_eq!(actions.finished, name == "c");
    }
    assert_eq!(coordinator.pending_count(), 0);
    assert!(coordinator.is_complete());
}

#[test]
fn no_chunk_is_counted_once_the_traversal_is_complete() {
    let mut coordinator = Coordinator::new();
    let actions = coordinator.process_chunk(DirChunk { container: None, entries: Vec::new() });
    assert!(actions.finished);
    let late = DirChunk { container: None, entries: Vec::new() };
    assert!(!coordinator.can_process(&late));
}

#[test]
fn chunk_of_failed_fetch_has_no_entries() {
    let chunk = chunk_of_fetch(subdir("/", "gone"), None);
    assert_eq!(chunk.container.map(|e| e.text), Some("gone".to_string()));
    assert!(chunk.entries.is_empty());
    let chunk = chunk_of_fetch(subdir("/", "here"), Some(vec![file("/here/", "f", 7)]));
    assert_eq!(chunk.entries.len(), 1);
    assert_eq!(chunk.entries[0].text, "f");
}
