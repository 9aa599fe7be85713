use nexus_client::model::DirEntry;
use nexus_client::nexus_uri::NexusRemoteUri;
use nexus_client::remote_sync::{
    download_mode, plan_upload, summarize, upload_mode, upload_remote_path, DownloadMode,
    DownloadTask, DownloadWalk, TransferError, TransferErrorKind, TransferOutcome,
    UnsupportedTransfer, UploadMode, UploadTask, WalkedPath,
};

fn file(name: &str) -> DirEntry {
    DirEntry {
        resource_uri: String::new(),
        relative_path: String::new(),
        text: name.to_string(),
        leaf: true,
        last_modified: String::new(),
        size_on_disk: 1,
    }
}

fn subdir(name: &str) -> DirEntry {
    DirEntry { leaf: false, size_on_disk: -1, ..file(name) }
}

fn ok(path: &str) -> TransferOutcome {
    TransferOutcome { remote_path: path.to_string(), error: None }
}

fn failure(path: &str, kind: TransferErrorKind, message: &str) -> TransferOutcome {
    TransferOutcome {
        remote_path: path.to_string(),
        error: Some(TransferError { kind, message: message.to_string() }),
    }
}

#[test]
fn remote_path_takes_the_place_of_the_local_root() {
    assert_eq!(
        upload_remote_path("/org/example", "/home/me/repo", "/home/me/repo/a/b.jar"),
        Some("/org/example/a/b.jar".to_string())
    );
    assert_eq!(upload_remote_path("/", "/tmp/x", "/tmp/x"), Some("/".to_string()));
    assert_eq!(upload_remote_path("/r", "/données", "/données/é.txt"), Some("/r/é.txt".to_string()));
    assert_eq!(upload_remote_path("/r", "/tmp/x", "/tmp/y/a"), None);
    assert_eq!(upload_remote_path("/r", "/tmp/long", "/tmp"), None);
}

#[test]
fn upload_plan_skips_directories_and_keeps_walk_order() {
    let walked = vec![
        WalkedPath { path: "/l".to_string(), is_dir: true },
        WalkedPath { path: "/l/a.txt".to_string(), is_dir: false },
        WalkedPath { path: "/l/sub".to_string(), is_dir: true },
        WalkedPath { path: "/l/sub/b.txt".to_string(), is_dir: false },
        WalkedPath { path: "/l/z.txt".to_string(), is_dir: false },
    ];
    let plan = plan_upload("/remote", "/l", &walked).unwrap();
    assert_eq!(
        plan,
        vec![
            UploadTask { local_path: "/l/a.txt".to_string(), remote_path: "/remote/a.txt".to_string() },
            UploadTask {
                local_path: "/l/sub/b.txt".to_string(),
                remote_path: "/remote/sub/b.txt".to_string()
            },
            UploadTask { local_path: "/l/z.txt".to_string(), remote_path: "/remote/z.txt".to_string() },
        ]
    );
    assert_eq!(plan_upload("/remote", "/l", &Vec::new()), Some(Vec::new()));
}

#[test]
fn upload_plan_refuses_a_file_outside_the_root() {
    let walked = vec![
        WalkedPath { path: "/l/a.txt".to_string(), is_dir: false },
        WalkedPath { path: "/elsewhere/b.txt".to_string(), is_dir: false },
    ];
    assert_eq!(plan_upload("/remote", "/l", &walked), None);
    let walked = vec![WalkedPath { path: "/elsewhere".to_string(), is_dir: true }];
    assert_eq!(plan_upload("/remote", "/l", &walked), Some(Vec::new()));
}

#[test]
fn download_tree_mirrors_three_files_in_two_directories() {
    let listings = vec![
        ("", vec![file("a.txt"), subdir("sub"), file("c.txt")]),
        ("sub/", vec![file("b.txt")]),
    ];
    let mut walk = DownloadWalk::new();
    let mut directories: Vec<String> = Vec::new();
    let mut remote_dirs: Vec<String> = Vec::new();
    let mut downloads: Vec<DownloadTask> = Vec::new();
    while let Some(visit) = walk.next_dir("/org/") {
        let entries =
            listings.iter().find(|(dir, _)| *dir == visit.subdir).map(|(_, e)| e.clone()).unwrap();
        downloads.extend(walk.expand("/org/", &visit.subdir, &entries));
        directories.push(visit.subdir);
        remote_dirs.push(visit.remote_dir);
    }
    assert!(walk.is_done());
    assert_eq!(directories, vec!["", "sub/"]);
    assert_eq!(remote_dirs, vec!["/org/", "/org/sub/"]);
    assert_eq!(
        downloads,
        vec![
            DownloadTask { remote_path: "/org/a.txt".to_string(), local_subpath: "a.txt".to_string() },
            DownloadTask { remote_path: "/org/c.txt".to_string(), local_subpath: "c.txt".to_string() },
            DownloadTask {
                remote_path: "/org/sub/b.txt".to_string(),
                local_subpath: "sub/b.txt".to_string()
            },
        ]
    );
}

#[test]
fn download_walk_visits_the_directory_found_last_first() {
    let mut walk = DownloadWalk::new();
    assert!(!walk.is_done());
    let root = walk.next_dir("/").unwrap();
    assert_eq!(root.subdir, "");
    assert_eq!(root.remote_dir, "/");
    assert!(walk.is_done());
    let tasks = walk.expand("/", "", &vec![subdir("x"), subdir("y")]);
    assert!(tasks.is_empty());
    assert_eq!(walk.next_dir("/").unwrap().subdir, "y/");
    let tasks = walk.expand("/", "y/", &vec![subdir("deep")]);
    assert!(tasks.is_empty());
    assert_eq!(walk.next_dir("/").unwrap().remote_dir, "/y/deep/");
    assert_eq!(walk.next_dir("/").unwrap().subdir, "x/");
    assert!(walk.next_dir("/").is_none());
    assert!(walk.is_done());
}

#[test]
fn one_failure_among_many_is_kept_and_the_rest_counted() {
    let outcomes = vec![
        ok("/a"),
        ok("/b"),
        failure("/c", TransferErrorKind::Remote, "HTTP 404 Not Found: "),
        ok("/d"),
    ];
    let summary = summarize(outcomes);
    assert_eq!(summary.transferred, 3);
    assert_eq!(
        summary.failures,
        vec![failure("/c", TransferErrorKind::Remote, "HTTP 404 Not Found: ")]
    );
    assert!(!summary.is_success());
    let error = summary.into_result().unwrap_err();
    assert_eq!(error.transferred, 3);
    assert_eq!(error.failed, 1);
    assert_eq!(error.last.remote_path, "/c");
}

#[test]
fn summary_without_failures_is_a_success() {
    let summary = summarize(vec![ok("/a"), ok("/b")]);
    assert!(summary.is_success());
    assert_eq!(summary.into_result(), Ok(2));
    let summary = summarize(Vec::new());
    assert_eq!(summary.transferred, 0);
    assert_eq!(summary.into_result(), Ok(0));
}

#[test]
fn summary_surfaces_the_failure_observed_last() {
    let summary = summarize(vec![
        failure("/a", TransferErrorKind::LocalIo, "disk full"),
        ok("/b"),
        failure("/c", TransferErrorKind::Remote, "HTTP 500"),
    ]);
    assert_eq!(summary.transferred, 1);
    assert_eq!(summary.failures.len(), 2);
    assert_eq!(summary.failures[0].remote_path, "/a");
    let error = summary.into_result().unwrap_err();
    assert_eq!(error.failed, 2);
    assert_eq!(error.transferred, 1);
    assert_eq!(error.last, failure("/c", TransferErrorKind::Remote, "HTTP 500"));
}

fn uri(path: &str) -> NexusRemoteUri {
    NexusRemoteUri { repo_id: "releases".to_string(), repo_path: path.to_string() }
}

#[test]
fn download_modes() {
    assert_eq!(download_mode(true, &uri("/org/")), DownloadMode::Tree);
    assert_eq!(download_mode(false, &uri("/org/")), DownloadMode::Tree);
    assert_eq!(download_mode(false, &uri("/org/a.jar")), DownloadMode::FileAs);
    assert_eq!(
        download_mode(true, &uri("/org/a.jar")),
        DownloadMode::FileInto { file_name: "a.jar".to_string() }
    );
    assert_eq!(
        download_mode(true, &uri("/top")),
        DownloadMode::FileInto { file_name: "top".to_string() }
    );
}

#[test]
fn upload_modes() {
    assert_eq!(upload_mode(true, "dir", &uri("/org/")), Ok(UploadMode::Tree));
    assert_eq!(
        upload_mode(true, "dir", &uri("/org/a.jar")),
        Err(UnsupportedTransfer { local_is_dir: true, remote_is_dir: false })
    );
    assert_eq!(
        upload_mode(false, "a.jar", &uri("/org/")),
        Ok(UploadMode::File { remote_path: "/org/a.jar".to_string() })
    );
    assert_eq!(
        upload_mode(false, "a.jar", &uri("/org/b.jar")),
        Ok(UploadMode::File { remote_path: "/org/b.jar".to_string() })
    );
}
