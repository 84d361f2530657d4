use trsync::error::Error;
use trsync::index::LocalIndex;
use trsync::local::DiskEntry;
use trsync::local::LocalEvent;
use trsync::local::LocalSync;
use trsync::local::LocalWatcher;
use trsync::operation::OperationalMessage;

fn s(text: &str) -> String {
    text.to_string()
}

fn entry(path: &str, ms: u64) -> DiskEntry {
    DiskEntry { relative_path: s(path), last_modified_ms: ms }
}

fn sample() -> LocalIndex {
    let mut index = LocalIndex::new();
    index.insert_new_file(s("docs"), 100, 7, 1).unwrap();
    index.insert_new_file(s("docs/a.txt"), 200, 8, 4).unwrap();
    index.insert_new_file(s("notes.txt"), 300, 42, 3).unwrap();
    index
}

#[test]
fn digest_event_turns_changes_into_messages() {
    let watcher = LocalWatcher::new(s("/home/ws"));
    assert_eq!(
        watcher.digest_event(&LocalEvent::Create(s("/home/ws/a/b.txt"))).unwrap(),
        vec![OperationalMessage::NewLocalFile(s("a/b.txt"))]
    );
    assert_eq!(
        watcher.digest_event(&LocalEvent::Write(s("/home/ws/a.txt"))).unwrap(),
        vec![OperationalMessage::ModifiedLocalFile(s("a.txt"))]
    );
    assert_eq!(
        watcher.digest_event(&LocalEvent::Remove(s("/home/ws/a.txt"))).unwrap(),
        vec![OperationalMessage::DeletedLocalFile(s("a.txt"))]
    );
    assert_eq!(
        watcher
            .digest_event(&LocalEvent::Rename(s("/home/ws/a.txt"), s("/home/ws/d/b.txt")))
            .unwrap(),
        vec![OperationalMessage::RenamedLocalFile(s("a.txt"), s("d/b.txt"))]
    );
}

#[test]
fn digest_event_suppresses_other_events() {
    let watcher = LocalWatcher::new(s("/home/ws"));
    let quiet = vec![
        LocalEvent::NoticeWrite(s("/home/ws/a")),
        LocalEvent::NoticeRemove(s("/home/ws/a")),
        LocalEvent::Chmod(s("/home/ws/a")),
        LocalEvent::Rescan,
        LocalEvent::Error(s("overflow"), None),
        LocalEvent::Error(s("denied"), Some(s("/home/ws/a"))),
        LocalEvent::Chmod(s("/elsewhere")),
    ];
    for event in quiet {
        assert!(watcher.digest_event(&event).unwrap().is_empty());
    }
}

#[test]
fn digest_event_refuses_paths_outside_workspace() {
    let watcher = LocalWatcher::new(s("/home/ws"));
    let outside = vec![
        LocalEvent::Create(s("/home/other/a.txt")),
        LocalEvent::Write(s("/home/wsx/a.txt")),
        LocalEvent::Remove(s("/home/ws")),
        LocalEvent::Rename(s("/tmp/a"), s("/home/ws/a")),
        LocalEvent::Rename(s("/home/ws/a"), s("/tmp/a")),
    ];
    for event in outside {
        match watcher.digest_event(&event) {
            Err(Error::PathManipulationError(text)) => {
                assert_eq!(text, "path is not below the workspace")
            }
            other => panic!("unexpected {:?}", other),
        }
    }
}

#[test]
fn ignore_entry_looks_at_base_name() {
    let index = LocalIndex::new();
    let sync = LocalSync::new(&index);
    assert!(sync.ignore_entry(".git"));
    assert!(sync.ignore_entry("a/~lock"));
    assert!(sync.ignore_entry("a/b/#tmp#"));
    assert!(!sync.ignore_entry(".git/config"));
    assert!(!sync.ignore_entry("a/b.txt~"));
    assert!(!sync.ignore_entry(""));
}

#[test]
fn sync_disk_file_reports_new_and_modified() {
    let index = sample();
    let sync = LocalSync::new(&index);
    assert_eq!(
        sync.sync_disk_file(&entry("new.txt", 1)),
        Some(OperationalMessage::NewLocalFile(s("new.txt")))
    );
    assert_eq!(
        sync.sync_disk_file(&entry("notes.txt", 301)),
        Some(OperationalMessage::ModifiedLocalFile(s("notes.txt")))
    );
    assert_eq!(
        sync.sync_disk_file(&entry("notes.txt", 299)),
        Some(OperationalMessage::ModifiedLocalFile(s("notes.txt")))
    );
    assert_eq!(sync.sync_disk_file(&entry("notes.txt", 300)), None);
}

#[test]
fn sync_disk_file_skips_root_and_skipped_names() {
    let index = sample();
    let sync = LocalSync::new(&index);
    assert_eq!(sync.sync_disk_file(&entry("", 1)), None);
    assert_eq!(sync.sync_disk_file(&entry(".git", 1)), None);
    assert_eq!(sync.sync_disk_file(&entry(".git/config", 1)), None);
    assert_eq!(sync.sync_disk_file(&entry("docs/#x", 1)), None);
    assert_eq!(sync.sync_disk_file(&entry("~a/b", 1)), None);
}

#[test]
fn sync_from_disk_keeps_order_of_walk() {
    let index = sample();
    let sync = LocalSync::new(&index);
    let walked = vec![
        entry("", 1),
        entry("docs", 100),
        entry("docs/a.txt", 250),
        entry("docs/b.txt", 10),
        entry(".hidden", 10),
        entry("notes.txt", 300),
        entry("z", 5),
    ];
    assert_eq!(
        sync.sync_from_disk(&walked),
        vec![
            OperationalMessage::ModifiedLocalFile(s("docs/a.txt")),
            OperationalMessage::NewLocalFile(s("docs/b.txt")),
            OperationalMessage::NewLocalFile(s("z")),
        ]
    );
}

#[test]
fn sync_from_db_reports_missing_paths() {
    let index = sample();
    let sync = LocalSync::new(&index);
    assert_eq!(
        sync.sync_from_db(&vec![s("docs")]),
        vec![
            OperationalMessage::DeletedLocalFile(s("docs/a.txt")),
            OperationalMessage::DeletedLocalFile(s("notes.txt")),
        ]
    );
    assert!(sync.sync_from_db(&vec![s("notes.txt"), s("docs/a.txt"), s("docs")]).is_empty());
    assert_eq!(sync.sync_from_db(&vec![]).len(), 3);
}

#[test]
fn sync_reports_walk_then_deletions() {
    let index = sample();
    let sync = LocalSync::new(&index);
    let walked = vec![entry("", 1), entry("docs", 100), entry("fresh", 9), entry("notes.txt", 1)];
    let existing = vec![s("docs"), s("notes.txt")];
    assert_eq!(
        sync.sync(&walked, &existing),
        vec![
            OperationalMessage::NewLocalFile(s("fresh")),
            OperationalMessage::ModifiedLocalFile(s("notes.txt")),
            OperationalMessage::DeletedLocalFile(s("docs/a.txt")),
        ]
    );
}

#[test]
fn sync_of_empty_workspace_and_empty_index_is_silent() {
    let index = LocalIndex::new();
    let sync = LocalSync::new(&index);
    assert!(sync.sync(&vec![entry("", 1)], &vec![]).is_empty());
    assert!(sync.sync(&vec![], &vec![]).is_empty());
}

#[test]
fn sync_is_silent_when_disk_and_index_agree() {
    let index = sample();
    let sync = LocalSync::new(&index);
    let walked =
        vec![entry("", 1), entry("docs", 100), entry("docs/a.txt", 200), entry("notes.txt", 300)];
    let existing = vec![s("docs"), s("docs/a.txt"), s("notes.txt")];
    assert!(sync.sync(&walked, &existing).is_empty());
}
