use locafetch::db::FileRecord;
use locafetch::indexer::{
    entry_record, index_exclusions, is_excluded, normalise, Batcher, FsMeta, IndexStatus,
    BATCH_SIZE,
};

fn file(path: &str) -> FileRecord {
    entry_record(path.to_string(), "x".to_string(), false, None, None)
}

#[test]
fn normalise_lowercases_and_ends_with_backslash() {
    assert_eq!(normalise("C:\\Windows"), "c:\\windows\\");
    assert_eq!(normalise("C:\\Windows\\\\"), "c:\\windows\\");
    assert_eq!(normalise("D:/Data//"), "d:/data\\");
    assert_eq!(normalise(""), "\\");
}

#[test]
fn drive_exclusion_matches_as_prefix() {
    let ex = vec![normalise("C:\\Windows")];
    assert!(is_excluded("C:\\Windows\\System32\\drivers", &ex));
    assert!(is_excluded("c:\\WINDOWS\\notepad.exe", &ex));
    assert!(!is_excluded("C:\\WindowsApps\\thing", &ex));
    assert!(!is_excluded("D:\\C:\\Windows\\x", &ex));
}

#[test]
fn drive_exclusion_covers_the_folder_itself() {
    let ex = vec![normalise("C:\\Program Files")];
    assert!(is_excluded("C:\\Program Files", &ex));
    assert!(!is_excluded("C:\\Program Files (x86)", &ex));
}

#[test]
fn bare_exclusion_matches_anywhere() {
    let ex = vec!["\\node_modules\\".to_string()];
    assert!(is_excluded("D:\\code\\app\\node_modules\\react\\index.js", &ex));
    assert!(is_excluded("D:\\code\\app\\NODE_MODULES\\x", &ex));
    assert!(!is_excluded("D:\\code\\app\\node_modules", &ex));
    assert!(!is_excluded("D:\\code\\node_modules_backup\\x", &ex));
}

#[test]
fn nothing_excluded_by_empty_list() {
    assert!(!is_excluded("C:\\anything", &[]));
}

#[test]
fn index_exclusions_put_user_folders_first() {
    let ex = index_exclusions(&["C:\\Temp\\".to_string(), "E:\\Backups".to_string()]);
    assert_eq!(ex.len(), 2 + 21);
    assert_eq!(ex[0], "c:\\temp\\");
    assert_eq!(ex[1], "e:\\backups\\");
    assert_eq!(ex[2], "appdata\\local\\temp");
    assert!(ex.contains(&"\\.git\\".to_string()));
    assert!(ex.contains(&"\\$windows.~bt\\".to_string()));
    assert!(is_excluded("C:\\Users\\me\\AppData\\Local\\Temp\\a.tmp", &ex));
    assert!(is_excluded("D:\\src\\proj\\target\\debug\\build", &ex));
    assert!(!is_excluded("D:\\src\\proj\\target\\x", &ex));
}

#[test]
fn folder_record_has_no_extension_or_size() {
    let r = entry_record(
        "C:\\Photos".to_string(),
        "Photos".to_string(),
        true,
        Some("ignored".to_string()),
        Some(FsMeta { len: 4096, modified_secs: Some(1_700_000_000) }),
    );
    assert_eq!(r.id, 0);
    assert!(r.is_dir);
    assert_eq!(r.extension, None);
    assert_eq!(r.size, None);
    assert_eq!(r.modified_time, Some(1_700_000_000));
}

#[test]
fn file_record_lowercases_extension() {
    let r = entry_record(
        "C:\\Photos\\IMG_1.JPG".to_string(),
        "IMG_1.JPG".to_string(),
        false,
        Some("JPG".to_string()),
        Some(FsMeta { len: 2048, modified_secs: None }),
    );
    assert_eq!(r.path, "C:\\Photos\\IMG_1.JPG");
    assert_eq!(r.filename, "IMG_1.JPG");
    assert_eq!(r.extension.as_deref(), Some("jpg"));
    assert_eq!(r.size, Some(2048));
    assert_eq!(r.modified_time, None);
}

#[test]
fn record_without_metadata() {
    let r = entry_record("C:\\a".to_string(), "a".to_string(), false, None, None);
    assert_eq!(r.size, None);
    assert_eq!(r.modified_time, None);
    assert_eq!(r.extension, None);
}

#[test]
fn huge_sizes_wrap_like_as() {
    let r = entry_record(
        "C:\\big".to_string(),
        "big".to_string(),
        false,
        None,
        Some(FsMeta { len: u64::MAX, modified_secs: Some(u64::MAX) }),
    );
    assert_eq!(r.size, Some(-1));
    assert_eq!(r.modified_time, Some(-1));
}

#[test]
fn batcher_hands_out_full_batches() {
    let mut b = Batcher::new();
    for i in 0..BATCH_SIZE - 1 {
        assert!(b.push(file(&format!("C:\\f{}", i))).is_none());
    }
    let full = b.push(file("C:\\last")).expect("a full batch");
    assert_eq!(full.len(), BATCH_SIZE);
    assert_eq!(full[0].path, "C:\\f0");
    assert_eq!(full[BATCH_SIZE - 1].path, "C:\\last");
    assert!(b.finish().is_none());
}

#[test]
fn batcher_keeps_the_remainder_in_order() {
    let mut b = Batcher::new();
    for i in 0..(BATCH_SIZE + 3) {
        let _ = b.push(file(&format!("C:\\f{}", i)));
    }
    let rest = b.finish().expect("records left");
    assert_eq!(rest.len(), 3);
    assert_eq!(rest[0].path, format!("C:\\f{}", BATCH_SIZE));
    assert_eq!(rest[2].path, format!("C:\\f{}", BATCH_SIZE + 2));
}

#[test]
fn status_follows_a_run() {
    let mut s = IndexStatus::default();
    assert!(!s.is_indexing);
    assert_eq!(s.files_indexed, 0);
    s.files_indexed = 17;
    s.error = Some("old".to_string());
    s.begin_run();
    assert!(s.is_indexing);
    assert_eq!(s.files_indexed, 0);
    assert_eq!(s.error, None);
    s.record_visit("C:\\a".to_string());
    s.record_visit("C:\\b".to_string());
    assert_eq!(s.files_indexed, 2);
    assert_eq!(s.current_path, "C:\\b");
    s.record_error("disk full".to_string());
    assert_eq!(s.error.as_deref(), Some("disk full"));
    s.finish_run(1_700_000_123);
    assert!(!s.is_indexing);
    assert_eq!(s.last_indexed_at, Some(1_700_000_123));
    assert_eq!(s.current_path, "");
    assert_eq!(s.files_indexed, 2);
    assert_eq!(s.error.as_deref(), Some("disk full"));
}

#[test]
fn normalise_twice_changes_nothing() {
    for p in ["C:\\Foo\\", "D:/Data//", "e:\\x", "", "\\\\"] {
        let once = normalise(p);
        assert_eq!(normalise(&once), once);
        assert!(once.ends_with('\\'));
    }
}

#[test]
fn normalise_ignores_case() {
    assert_eq!(normalise("C:\\PROGRAM Files"), normalise("c:\\program files"));
    assert_eq!(normalise(&"c:\\users\\me".to_uppercase()), normalise("c:\\users\\me"));
}

#[test]
fn exclusion_carries_down_to_children() {
    let ex = index_exclusions(&["C:\\Windows".to_string()]);
    for d in ["C:\\Windows", "X:\\a\\node_modules\\b", "C:\\Users\\me\\AppData\\Local\\Temp"] {
        assert!(is_excluded(d, &ex));
        assert!(is_excluded(&format!("{}\\{}", d, "child.txt"), &ex));
    }
}

#[test]
fn run_counts_every_visit_and_writes_every_record() {
    let mut s = IndexStatus::default();
    s.begin_run();
    let mut b = Batcher::new();
    let mut written = 0;
    for i in 0..1234 {
        let path = format!("C:\\f{}", i);
        s.record_visit(path.clone());
        if let Some(batch) = b.push(file(&path)) {
            written += batch.len();
            if i == 999 {
                s.record_error("locked".to_string());
            }
        }
    }
    if let Some(rest) = b.finish() {
        written += rest.len();
    }
    s.finish_run(42);
    assert_eq!(s.files_indexed, 1234);
    assert_eq!(written, 1234);
    assert_eq!(s.error.as_deref(), Some("locked"));
    assert_eq!(s.last_indexed_at, Some(42));
}
