use sherry::expand::{get_sync_events, FsNodeKind, FsSnapshot};
use sherry::file_event::{
    minify_results, BasedDebounceEvent, RawEventKind, RenameMode, SyncEvent, SyncEventKind,
    FileType,
};
use sherry::filter::filter_events;
use sherry::hash::WatcherHashJSON;
use sherry::optimize::{optimize_events, resolve_event_pair};
use sherry::smap::StrMap;

fn raw(kind: RawEventKind, paths: Vec<&str>, time: i128) -> BasedDebounceEvent {
    BasedDebounceEvent {
        kind,
        paths: paths.into_iter().map(|p| p.to_string()).collect(),
        time,
        base: "/b".to_string(),
    }
}

fn source(allow_dir: bool, max_file_size: u64, globs: Vec<&str>) -> sherry::config::SherryConfigSourceJSON {
    sherry::config::SherryConfigSourceJSON {
        id: "s1".to_string(),
        name: "folder".to_string(),
        access: sherry::config::AccessRights::Write,
        user_id: "u1".to_string(),
        owner_id: "u1".to_string(),
        max_file_size,
        max_dir_size: 0,
        allow_dir,
        allowed_file_names: globs.into_iter().map(|g| g.to_string()).collect(),
        allowed_file_types: Vec::new(),
    }
}

fn sync_event(kind: SyncEventKind, sync: &str, old_sync: &str, hash: &str, ts: i128) -> SyncEvent {
    SyncEvent {
        source_id: "s1".to_string(),
        base: "/b".to_string(),
        file_type: FileType::File,
        kind,
        local_path: format!("/b/{}", sync),
        old_local_path: format!("/b/{}", old_sync),
        sync_path: sync.to_string(),
        old_sync_path: old_sync.to_string(),
        update_hash: hash.to_string(),
        size: 0,
        timestamp: ts,
    }
}

fn empty_index() -> WatcherHashJSON {
    WatcherHashJSON {
        id: "h1".to_string(),
        source_id: "s1".to_string(),
        local_path: "/b".to_string(),
        hashes: StrMap::new(),
    }
}

#[test]
fn editor_save_replace_coalesces_to_update() {
    // Remove(f), Create(f), Modify(Data, f) within one batch
    let batch = vec![
        raw(RawEventKind::Remove, vec!["/b/f"], 1),
        raw(RawEventKind::Create, vec!["/b/f"], 2),
        raw(RawEventKind::ModifyData, vec!["/b/f"], 3),
    ];
    let coalesced = minify_results(&batch);
    // the create is rewritten to a data modify, the remove is dropped
    assert_eq!(coalesced.len(), 2);
    assert!(matches!(coalesced[0].kind, RawEventKind::ModifyData));
    assert!(matches!(coalesced[1].kind, RawEventKind::ModifyData));

    // expansion sees f as a regular file
    let mut fs = FsSnapshot::new();
    fs.record(&"/b/f".to_string(), FsNodeKind::File, 4);
    let cfg = source(true, 100, vec![]);
    let idx = empty_index();
    let mut events: Vec<SyncEvent> = Vec::new();
    for c in &coalesced {
        events.extend(get_sync_events(&cfg, c, &idx, &fs, 10));
    }
    assert_eq!(events.len(), 2);
    assert!(matches!(events[0].kind, SyncEventKind::Updated));

    // the optimizer folds the two updates into one
    let optimized = optimize_events(&events);
    assert_eq!(optimized.len(), 1);
    assert!(matches!(optimized[0].kind, SyncEventKind::Updated));
    assert_eq!(optimized[0].sync_path, "f");
}

#[test]
fn rename_then_edit_becomes_delete_and_create() {
    let batch = vec![
        raw(RawEventKind::ModifyName(RenameMode::From), vec!["/b/a"], 1),
        raw(RawEventKind::ModifyName(RenameMode::To), vec!["/b/x"], 2),
        raw(RawEventKind::ModifyData, vec!["/b/x"], 3),
    ];
    let coalesced = minify_results(&batch);
    assert_eq!(coalesced.len(), 2);
    assert!(matches!(
        coalesced[0].kind,
        RawEventKind::ModifyName(RenameMode::Both)
    ));
    assert_eq!(coalesced[0].paths, vec!["/b/a".to_string(), "/b/x".to_string()]);

    let mut fs = FsSnapshot::new();
    fs.record(&"/b/x".to_string(), FsNodeKind::File, 4);
    let cfg = source(true, 100, vec![]);
    let idx = empty_index();
    let mut events: Vec<SyncEvent> = Vec::new();
    for c in &coalesced {
        events.extend(get_sync_events(&cfg, c, &idx, &fs, 10));
    }
    assert_eq!(events.len(), 2);
    assert!(matches!(events[0].kind, SyncEventKind::Moved));
    assert!(matches!(events[1].kind, SyncEventKind::Updated));

    let optimized = optimize_events(&events);
    assert_eq!(optimized.len(), 2);
    assert!(matches!(optimized[0].kind, SyncEventKind::Deleted));
    assert_eq!(optimized[0].sync_path, "a");
    assert!(matches!(optimized[1].kind, SyncEventKind::Created));
    assert_eq!(optimized[1].sync_path, "x");
}

#[test]
fn rename_cycle_yields_nothing() {
    let events = vec![
        sync_event(SyncEventKind::Moved, "q", "p", "", 1),
        sync_event(SyncEventKind::Moved, "p", "q", "", 2),
    ];
    let optimized = optimize_events(&events);
    assert_eq!(optimized.len(), 0);
}

#[test]
fn create_then_delete_within_window_yields_nothing() {
    let batch = vec![
        raw(RawEventKind::Create, vec!["/b/ghost"], 1),
        raw(RawEventKind::Remove, vec!["/b/ghost"], 2),
    ];
    let coalesced = minify_results(&batch);
    // the path is gone when the batch drains and was never indexed
    let fs = FsSnapshot::new();
    let cfg = source(true, 100, vec![]);
    let idx = empty_index();
    let mut events: Vec<SyncEvent> = Vec::new();
    for c in &coalesced {
        events.extend(get_sync_events(&cfg, c, &idx, &fs, 10));
    }
    assert_eq!(events.len(), 0);
    let optimized = optimize_events(&events);
    assert_eq!(optimized.len(), 0);
}

#[test]
fn remove_contradicted_by_later_modify_is_dropped() {
    let batch = vec![
        raw(RawEventKind::Remove, vec!["/b/f"], 1),
        raw(RawEventKind::ModifyData, vec!["/b/f"], 2),
    ];
    let coalesced = minify_results(&batch);
    assert_eq!(coalesced.len(), 1);
    assert!(matches!(coalesced[0].kind, RawEventKind::ModifyData));
}

#[test]
fn unpaired_rename_halves_are_dropped() {
    let batch = vec![
        raw(RawEventKind::ModifyName(RenameMode::From), vec!["/b/a"], 1),
    ];
    let coalesced = minify_results(&batch);
    assert_eq!(coalesced.len(), 0);
}

#[test]
fn resolver_folds_create_then_update() {
    let a = sync_event(SyncEventKind::Created, "f", "f", "h1", 1);
    let b = sync_event(SyncEventKind::Updated, "f", "f", "h2", 2);
    let r = resolve_event_pair(&a, &b);
    assert_eq!(r.len(), 1);
    assert!(matches!(r[0].kind, SyncEventKind::Created));
    assert_eq!(r[0].update_hash, "h2");
}

#[test]
fn resolver_folds_update_then_move() {
    let a = sync_event(SyncEventKind::Updated, "f", "f", "h1", 1);
    let b = sync_event(SyncEventKind::Moved, "g", "f", "", 2);
    let r = resolve_event_pair(&a, &b);
    assert_eq!(r.len(), 2);
    assert!(matches!(r[0].kind, SyncEventKind::Deleted));
    assert_eq!(r[0].sync_path, "f");
    assert!(matches!(r[1].kind, SyncEventKind::Created));
    assert_eq!(r[1].sync_path, "g");
    assert_eq!(r[1].update_hash, "h1");
}

#[test]
fn directory_create_expands_to_enclosed_files() {
    let mut fs = FsSnapshot::new();
    fs.record(&"/b/d".to_string(), FsNodeKind::Dir, 0);
    fs.record(&"/b/d/one".to_string(), FsNodeKind::File, 1);
    fs.record(&"/b/d/two".to_string(), FsNodeKind::File, 2);
    fs.record(&"/b/other".to_string(), FsNodeKind::File, 3);
    let cfg = source(true, 100, vec![]);
    let idx = empty_index();
    let ev = raw(RawEventKind::Create, vec!["/b/d"], 1);
    let events = get_sync_events(&cfg, &ev, &idx, &fs, 10);
    assert_eq!(events.len(), 2);
    assert_eq!(events[0].sync_path, "d/one");
    assert_eq!(events[1].sync_path, "d/two");
    assert!(matches!(events[0].kind, SyncEventKind::Created));
}

#[test]
fn vanished_path_synthesizes_deletes_from_index() {
    let fs = FsSnapshot::new();
    let cfg = source(true, 100, vec![]);
    let mut idx = empty_index();
    idx.hashes.insert(
        "/b/d/one".to_string(),
        sherry::hash::FileHashJSON { hash: "7".to_string(), timestamp: 5, size: 1 },
    );
    idx.hashes.insert(
        "/b/e".to_string(),
        sherry::hash::FileHashJSON { hash: "8".to_string(), timestamp: 5, size: 1 },
    );
    let ev = raw(RawEventKind::Remove, vec!["/b/d"], 1);
    let events = get_sync_events(&cfg, &ev, &idx, &fs, 10);
    assert_eq!(events.len(), 1);
    assert!(matches!(events[0].kind, SyncEventKind::Deleted));
    assert_eq!(events[0].sync_path, "d/one");
}

#[test]
fn symlinks_are_dropped() {
    let mut fs = FsSnapshot::new();
    fs.record(&"/b/ln".to_string(), FsNodeKind::Symlink, 0);
    let cfg = source(true, 100, vec![]);
    let idx = empty_index();
    let ev = raw(RawEventKind::Create, vec!["/b/ln"], 1);
    let events = get_sync_events(&cfg, &ev, &idx, &fs, 10);
    assert_eq!(events.len(), 0);
}

#[test]
fn subdirectory_events_filtered_when_dirs_forbidden() {
    let cfg = source(false, 100, vec![]);
    let fs = {
        let mut fs = FsSnapshot::new();
        fs.record(&"/b/d/f".to_string(), FsNodeKind::File, 1);
        fs.record(&"/b/g".to_string(), FsNodeKind::File, 1);
        fs
    };
    let events = vec![
        sync_event(SyncEventKind::Updated, "d/f", "d/f", "h", 1),
        sync_event(SyncEventKind::Updated, "g", "g", "h", 2),
    ];
    let kept = filter_events(&cfg, &events, &fs);
    assert_eq!(kept.len(), 1);
    assert_eq!(kept[0].sync_path, "g");
}

#[test]
fn zero_size_cap_filters_non_delete_events() {
    let cfg = source(true, 0, vec![]);
    let fs = {
        let mut fs = FsSnapshot::new();
        fs.record(&"/b/f".to_string(), FsNodeKind::File, 5);
        fs
    };
    let events = vec![
        sync_event(SyncEventKind::Updated, "f", "f", "h", 1),
        sync_event(SyncEventKind::Deleted, "f", "f", "", 2),
    ];
    let kept = filter_events(&cfg, &events, &fs);
    assert_eq!(kept.len(), 1);
    assert!(matches!(kept[0].kind, SyncEventKind::Deleted));
}

#[test]
fn globs_restrict_file_names() {
    let cfg = source(true, 100, vec!["*.txt"]);
    let fs = {
        let mut fs = FsSnapshot::new();
        fs.record(&"/b/a.txt".to_string(), FsNodeKind::File, 1);
        fs.record(&"/b/b.bin".to_string(), FsNodeKind::File, 1);
        fs
    };
    let events = vec![
        sync_event(SyncEventKind::Updated, "a.txt", "a.txt", "h", 1),
        sync_event(SyncEventKind::Updated, "b.bin", "b.bin", "h", 2),
    ];
    let kept = filter_events(&cfg, &events, &fs);
    assert_eq!(kept.len(), 1);
    assert_eq!(kept[0].sync_path, "a.txt");
}

#[test]
fn invalid_globs_are_ignored() {
    // a pattern that does not compile leaves the name check open
    let cfg = source(true, 100, vec!["[unclosed"]);
    let fs = {
        let mut fs = FsSnapshot::new();
        fs.record(&"/b/x".to_string(), FsNodeKind::File, 1);
        fs
    };
    let events = vec![sync_event(SyncEventKind::Updated, "x", "x", "h", 1)];
    let kept = filter_events(&cfg, &events, &fs);
    assert_eq!(kept.len(), 1);
}

#[test]
fn filter_annotates_sizes_from_snapshot() {
    let cfg = source(true, 100, vec![]);
    let fs = {
        let mut fs = FsSnapshot::new();
        fs.record(&"/b/f".to_string(), FsNodeKind::File, 42);
        fs
    };
    let events = vec![sync_event(SyncEventKind::Updated, "f", "f", "h", 1)];
    let kept = filter_events(&cfg, &events, &fs);
    assert_eq!(kept.len(), 1);
    assert_eq!(kept[0].size, 42);
}

#[test]
fn complete_events_fills_hashes_in_order() {
    let events = vec![
        sync_event(SyncEventKind::Updated, "f", "f", "", 1),
        sync_event(SyncEventKind::Created, "g", "g", "", 2),
    ];
    let hashes = vec!["11".to_string(), "22".to_string()];
    let done = sherry::filter::complete_events(&events, &hashes);
    assert_eq!(done.len(), 2);
    assert_eq!(done[0].update_hash, "11");
    assert_eq!(done[1].update_hash, "22");
}

#[test]
fn log_lines_frame_the_batch() {
    let events = vec![sync_event(SyncEventKind::Created, "f", "f", "9", 3)];
    let lines = sherry::file_event::log_events("Received", &events);
    assert_eq!(lines.len(), 3);
    assert_eq!(lines[0], "Received [");
    assert_eq!(lines[1], "  CREATED FILE f <- f hash=9 size=0 ts=3");
    assert_eq!(lines[2], "]");
    let printed = sherry::file_event::print_events("Received", &events);
    assert_eq!(printed, lines);
}

#[test]
fn rewriting_a_pair_preserves_the_net_effect() {
    // replaying [Updated(f), Moved(f -> g)] and its rewritten form against
    // a small state map must end identically
    let a = sync_event(SyncEventKind::Updated, "f", "f", "h1", 1);
    let b = sync_event(SyncEventKind::Moved, "g", "f", "h1", 2);
    let rewritten = resolve_event_pair(&a, &b);

    let apply = |state: &mut std::collections::HashMap<String, String>, e: &SyncEvent| match e.kind
    {
        SyncEventKind::Created | SyncEventKind::Updated => {
            state.insert(e.sync_path.clone(), e.update_hash.clone());
        }
        SyncEventKind::Deleted => {
            state.remove(&e.sync_path);
        }
        SyncEventKind::Moved => {
            state.remove(&e.old_sync_path);
            state.insert(e.sync_path.clone(), e.update_hash.clone());
        }
    };

    let mut direct = std::collections::HashMap::new();
    direct.insert("f".to_string(), "h1".to_string());
    let mut through = direct.clone();
    apply(&mut direct, &a);
    apply(&mut direct, &b);
    for e in &rewritten {
        apply(&mut through, e);
    }
    assert_eq!(direct, through);
}

#[test]
fn rename_halves_with_one_path_stay_apart() {
    // a from/to pair reporting the same path is no rename
    let batch = vec![
        raw(RawEventKind::ModifyName(RenameMode::From), vec!["/b/a"], 1),
        raw(RawEventKind::ModifyName(RenameMode::To), vec!["/b/a"], 2),
    ];
    let coalesced = minify_results(&batch);
    assert_eq!(coalesced.len(), 0);
}
