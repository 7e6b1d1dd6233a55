use locafetch::commands::{
    close_hides_window, hotkey_or_error, indexing_guard, partition_existing,
    periodic_reindex_enabled, startup_plan, SEARCH_LIMIT,
};
use locafetch::db::{record_from_columns, FileRecord};
use locafetch::hotkey::KeyCode;
use locafetch::indexer::FsMeta;
use locafetch::settings::Settings;
use locafetch::watcher::{
    build_excluded, handle_event, path_to_record, ChangeEvent, ChangeKind, ChangedPath,
    PendingChanges,
};

fn changed(path: &str, name: Option<&str>) -> ChangedPath {
    ChangedPath {
        path: path.to_string(),
        file_name: name.map(|n| n.to_string()),
        is_dir: false,
        extension: Some("TXT".to_string()),
        meta: Some(FsMeta { len: 10, modified_secs: Some(5) }),
    }
}

fn event(kind: ChangeKind, paths: Vec<ChangedPath>) -> ChangeEvent {
    ChangeEvent { kind, paths }
}

fn flush(p: &mut PendingChanges) -> (Vec<FileRecord>, Vec<String>) {
    p.flush_if_due(2000).expect("a flush is due after two seconds")
}

#[test]
fn watcher_exclusions() {
    let ex = build_excluded(&["D:\\Skip\\".to_string()]);
    assert_eq!(ex.len(), 22);
    assert_eq!(ex[0], "d:\\skip\\");
    assert_eq!(ex[3], "appdata\\local\\packages");
}

#[test]
fn watcher_and_indexer_skip_the_same_patterns() {
    let user = vec!["D:\\Skip\\".to_string(), "C:\\Windows".to_string()];
    let mut w = build_excluded(&user);
    let mut i = locafetch::indexer::index_exclusions(&user);
    w.sort();
    i.sort();
    assert_eq!(w, i);
}

#[test]
fn record_of_changed_path() {
    let r = path_to_record(changed("C:\\docs\\Notes.TXT", Some("Notes.TXT"))).unwrap();
    assert_eq!(r.path, "C:\\docs\\Notes.TXT");
    assert_eq!(r.filename, "Notes.TXT");
    assert_eq!(r.extension.as_deref(), Some("txt"));
    assert_eq!(r.size, Some(10));
    assert_eq!(r.modified_time, Some(5));
    assert!(path_to_record(changed("C:\\", None)).is_none());
}

#[test]
fn created_file_is_upserted() {
    let mut p = PendingChanges::new();
    handle_event(event(ChangeKind::Create, vec![changed("C:\\a.txt", Some("a.txt"))]), &[], &mut p);
    let (ups, rems) = flush(&mut p);
    assert_eq!(ups.len(), 1);
    assert_eq!(ups[0].path, "C:\\a.txt");
    assert!(rems.is_empty());
    let (ups, rems) = flush(&mut p);
    assert!(ups.is_empty() && rems.is_empty());
}

#[test]
fn excluded_and_nameless_paths_are_ignored() {
    let ex = build_excluded(&[]);
    let mut p = PendingChanges::new();
    handle_event(
        event(ChangeKind::ModifyData, vec![
            changed("C:\\p\\node_modules\\x.js", Some("x.js")),
            changed("C:\\", None),
        ]),
        &ex,
        &mut p,
    );
    let (ups, rems) = flush(&mut p);
    assert!(ups.is_empty() && rems.is_empty());
}

#[test]
fn removal_after_creation_wins() {
    let mut p = PendingChanges::new();
    handle_event(event(ChangeKind::Create, vec![changed("C:\\a.txt", Some("a.txt"))]), &[], &mut p);
    handle_event(event(ChangeKind::Remove, vec![changed("C:\\a.txt", None)]), &[], &mut p);
    let (ups, rems) = flush(&mut p);
    assert!(ups.is_empty());
    assert_eq!(rems, vec!["C:\\a.txt".to_string()]);
}

#[test]
fn rename_moves_a_path() {
    let mut p = PendingChanges::new();
    handle_event(event(ChangeKind::RenameFrom, vec![changed("C:\\old.txt", None)]), &[], &mut p);
    handle_event(event(ChangeKind::RenameTo, vec![changed("C:\\new.txt", Some("new.txt"))]), &[], &mut p);
    handle_event(event(ChangeKind::RenameTo, vec![changed("C:\\old.txt", Some("old.txt"))]), &[], &mut p);
    let (ups, rems) = flush(&mut p);
    assert_eq!(ups.len(), 2);
    assert!(rems.is_empty());
}

#[test]
fn repeated_changes_keep_one_entry_per_path() {
    let mut p = PendingChanges::new();
    for _ in 0..3 {
        handle_event(event(ChangeKind::ModifyData, vec![changed("C:\\a.txt", Some("a.txt"))]), &[], &mut p);
        handle_event(event(ChangeKind::Remove, vec![changed("C:\\b.txt", None)]), &[], &mut p);
    }
    let (ups, rems) = flush(&mut p);
    assert_eq!(ups.len(), 1);
    assert_eq!(rems.len(), 1);
}

#[test]
fn other_changes_do_nothing() {
    let mut p = PendingChanges::new();
    handle_event(event(ChangeKind::Other, vec![changed("C:\\a.txt", Some("a.txt"))]), &[], &mut p);
    let (ups, rems) = flush(&mut p);
    assert!(ups.is_empty() && rems.is_empty());
}

#[test]
fn flush_waits_for_time_or_volume() {
    let mut p = PendingChanges::new();
    handle_event(event(ChangeKind::Create, vec![changed("C:\\a.txt", Some("a.txt"))]), &[], &mut p);
    assert!(!p.flush_due(1999));
    assert!(p.flush_if_due(0).is_none());
    assert!(p.flush_due(2000));
    let mut paths = Vec::new();
    for i in 0..200 {
        paths.push(changed(&format!("C:\\f{}", i), None));
    }
    handle_event(event(ChangeKind::Remove, paths), &[], &mut p);
    // 1 upsert and 200 removals: more than 200 pending.
    assert!(p.flush_due(0));
    let (ups, rems) = p.flush_if_due(0).unwrap();
    assert_eq!(ups.len(), 1);
    assert_eq!(rems.len(), 200);
}

#[test]
fn exactly_threshold_is_not_due() {
    let mut p = PendingChanges::new();
    let mut paths = Vec::new();
    for i in 0..200 {
        paths.push(changed(&format!("C:\\f{}", i), None));
    }
    handle_event(event(ChangeKind::Remove, paths), &[], &mut p);
    assert!(!p.flush_due(0));
}

fn result(path: &str) -> FileRecord {
    record_from_columns(0, path.to_string(), "n".to_string(), None, None, None, 0)
}

#[test]
fn missing_results_are_split_off() {
    let rs = vec![result("C:\\a"), result("C:\\gone1"), result("C:\\b"), result("C:\\gone2")];
    let (kept, deleted) = partition_existing(rs, &[true, false, true, false]);
    let kept: Vec<String> = kept.into_iter().map(|r| r.path).collect();
    assert_eq!(kept, vec!["C:\\a".to_string(), "C:\\b".to_string()]);
    assert_eq!(deleted, vec!["C:\\gone1".to_string(), "C:\\gone2".to_string()]);
    assert_eq!(SEARCH_LIMIT, 50);
}

#[test]
fn indexing_guard_refuses_second_run() {
    assert_eq!(indexing_guard(true), Err("Already indexing".to_string()));
    assert_eq!(indexing_guard(false), Ok(()));
}

#[test]
fn invalid_hotkey_message() {
    assert_eq!(hotkey_or_error("ctrl+nope").unwrap_err(), "Invalid hotkey: 'ctrl+nope'");
    assert_eq!(hotkey_or_error("alt+f4").unwrap().code, KeyCode::F4);
}

#[test]
fn window_close_behaviour() {
    assert!(close_hides_window(Some(true)));
    assert!(!close_hides_window(Some(false)));
    assert!(close_hides_window(None));
}

#[test]
fn startup_follows_settings() {
    let mut s = Settings::default();
    let p = startup_plan(false, &s);
    assert!(!p.index_now);
    assert_eq!(p.reindex_every_secs, None);
    assert!(!p.show_window);
    s.reindex_interval_hours = 6;
    s.start_minimized = false;
    let p = startup_plan(true, &s);
    assert!(p.index_now);
    assert_eq!(p.reindex_every_secs, Some(6 * 3600));
    assert!(p.show_window);
    assert!(periodic_reindex_enabled(&s));
    s.reindex_interval_hours = u32::MAX;
    assert_eq!(startup_plan(false, &s).reindex_every_secs, Some(u32::MAX as u64 * 3600));
}
