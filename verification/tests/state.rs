use sherry::auth::{
    revalidate_auth, token_action, Credentials, SherryAuthorizationConfigJSON, TokenAction,
    EXPIRATION_THRESHOLD,
};
use sherry::config::{
    plan_update, revalidate_config_begin, revalidate_config_finish, AccessRights,
    SherryConfigJSON, SherryConfigSourceJSON, SherryConfigUpdateData, SherryConfigUpdateEvent,
    SherryConfigWatcherJSON,
};
use sherry::expand::{FsNodeKind, FsSnapshot};
use sherry::file_event::{SyncEvent, SyncEventKind, FileType};
use sherry::hash::{build_hashes, get_file_hash, FileHashJSON, WatcherHashJSON};
use sherry::hash_json::hash_index_to_json;
use sherry::scheduler::{
    apply_event_to_hashes, debounce_should_flush, scheduler_gate, should_skip_event, GateAction,
    event_wire_fields,
};
use sherry::server_types::{ApiAuthResponse, ApiFileResponse};
use sherry::smap::StrMap;
use sherry::socket::join_active_tokens;
use sherry::watchers::{apply_sync_ops, plan_reconciliation, SyncOp};

fn cred(user: &str, token: &str, expires_in: u64, expired: bool) -> Credentials {
    Credentials {
        user_id: user.to_string(),
        email: format!("{}@example.test", user),
        username: user.to_string(),
        access_token: token.to_string(),
        refresh_token: format!("r-{}", token),
        expires_in,
        expired,
    }
}

fn index_with(entries: Vec<(&str, &str, i128, u64)>) -> WatcherHashJSON {
    let mut hashes = StrMap::new();
    for (k, h, ts, sz) in entries {
        hashes.insert(
            k.to_string(),
            FileHashJSON { hash: h.to_string(), timestamp: ts, size: sz },
        );
    }
    WatcherHashJSON {
        id: "h1".to_string(),
        source_id: "s1".to_string(),
        local_path: "/b".to_string(),
        hashes,
    }
}

fn event(kind: SyncEventKind, path: &str, old: &str, hash: &str) -> SyncEvent {
    SyncEvent {
        source_id: "s1".to_string(),
        base: "/b".to_string(),
        file_type: FileType::File,
        kind,
        local_path: path.to_string(),
        old_local_path: old.to_string(),
        sync_path: path.trim_start_matches("/b/").to_string(),
        old_sync_path: old.trim_start_matches("/b/").to_string(),
        update_hash: hash.to_string(),
        size: 1,
        timestamp: 100,
    }
}

#[test]
fn helpers_normalize_and_relativize_paths() {
    let p = "/b//d\\e/".to_string();
    assert_eq!(sherry::helpers::normalize_path(&p), "/b/d/e");
    let sync = sherry::helpers::get_sync_path(&"/b/d/f".to_string(), &"/b".to_string());
    assert_eq!(sync, "d/f");
    assert_eq!(sherry::helpers::str_err_prefix("Error File Open", "gone"), "Error File Open: gone");
}

#[test]
fn decimal_renderings_are_exact() {
    assert_eq!(sherry::strings::u64_to_dec(0), "0");
    assert_eq!(sherry::strings::u64_to_dec(90210), "90210");
    assert_eq!(sherry::strings::i128_to_dec(-45), "-45");
}

#[test]
fn content_hash_matches_the_hashing_crate() {
    let bytes = b"sherry content".to_vec();
    let expected = seahash::hash(b"sherry content");
    let got = get_file_hash(&Some(bytes));
    assert_eq!(got, expected.to_string());
    assert_eq!(get_file_hash(&None), "");
}

#[test]
fn built_index_records_every_file() {
    let files = vec![
        ("/b/two".to_string(), b"bb".to_vec(), 2u64),
        ("/b/one".to_string(), b"aa".to_vec(), 2u64),
    ];
    let idx = build_hashes(
        &"h1".to_string(),
        &"s1".to_string(),
        &"/b".to_string(),
        &files,
        7,
    );
    assert_eq!(idx.hashes.len(), 2);
    // sorted storage: "one" before "two"
    assert_eq!(idx.hashes.key_at(0), "/b/one");
    assert_eq!(idx.hashes.key_at(1), "/b/two");
    assert_eq!(idx.hashes.val_at(0).hash, seahash::hash(b"aa").to_string());
    assert_eq!(idx.hashes.val_at(0).timestamp, 7);
}

#[test]
fn replaying_an_absorbed_event_is_skipped() {
    let mut idx = index_with(vec![]);
    let e = event(SyncEventKind::Created, "/b/f", "/b/f", "77");
    assert!(!should_skip_event(&idx, &e));
    apply_event_to_hashes(&mut idx, &e, 200);
    assert!(should_skip_event(&idx, &e));

    let d = event(SyncEventKind::Deleted, "/b/f", "/b/f", "");
    assert!(!should_skip_event(&idx, &d));
    apply_event_to_hashes(&mut idx, &d, 201);
    assert!(should_skip_event(&idx, &d));
}

#[test]
fn move_carries_the_index_entry() {
    let mut idx = index_with(vec![("/b/a", "5", 10, 1)]);
    let m = event(SyncEventKind::Moved, "/b/c", "/b/a", "5");
    apply_event_to_hashes(&mut idx, &m, 20);
    assert!(idx.hashes.get(&"/b/a".to_string()).is_none());
    assert_eq!(idx.hashes.get(&"/b/c".to_string()).unwrap().hash, "5");
}

#[test]
fn bidirectional_race_sends_nothing_twice() {
    // the push handler already wrote hash H2 for f; the local scheduler
    // pass sees the same content and skips the upload
    let idx = index_with(vec![("/b/f", "H2", 150, 1)]);
    let local = event(SyncEventKind::Updated, "/b/f", "/b/f", "H2");
    assert!(should_skip_event(&idx, &local));
}

#[test]
fn reconnect_reconciliation_converges() {
    // x was added locally; the server recorded y deleted (empty hash,
    // newer stamp, the ordinary shape after a reconnect)
    let local = index_with(vec![("/b/x", "11", 100, 1), ("/b/y", "22", 100, 1)]);
    let remote = vec![ApiFileResponse {
        sherry_id: "s1".to_string(),
        path: "y".to_string(),
        hash: "".to_string(),
        size: 0,
        created_at: 0,
        updated_at: 150,
    }];
    let plan = plan_reconciliation(&local, &remote, &"/b".to_string());
    assert_eq!(plan.to_upload.len(), 1);
    assert_eq!(plan.to_upload[0].sync_path, "x");
    assert!(matches!(plan.to_upload[0].kind, SyncEventKind::Created));
    // a remote tombstone is a local delete, never a download
    assert_eq!(plan.to_delete.len(), 1);
    assert_eq!(plan.to_delete[0].sync_path, "y");
    assert_eq!(plan.to_download.len(), 0);

    // reflect the confirmed outcomes: y's entry becomes a tombstone
    let mut working = local;
    let ops = vec![SyncOp::Upsert {
        key: "/b/y".to_string(),
        hash: "".to_string(),
        timestamp: 150,
        size: 0,
    }];
    apply_sync_ops(&mut working, &ops);
    let y = working.hashes.get(&"/b/y".to_string()).unwrap();
    assert_eq!(y.hash, "");
    assert!(working.hashes.get(&"/b/x".to_string()).is_some());
}

#[test]
fn older_remote_tombstone_still_deletes_locally() {
    let local = index_with(vec![("/b/y", "22", 100, 1)]);
    let remote = vec![ApiFileResponse {
        sherry_id: "s1".to_string(),
        path: "y".to_string(),
        hash: "".to_string(),
        size: 0,
        created_at: 0,
        updated_at: 50,
    }];
    let plan = plan_reconciliation(&local, &remote, &"/b".to_string());
    assert_eq!(plan.to_delete.len(), 1);
    assert_eq!(plan.to_download.len(), 0);
    assert_eq!(plan.to_upload.len(), 0);
}

#[test]
fn timestamp_tie_prefers_the_remote_copy() {
    let local = index_with(vec![("/b/f", "local", 100, 1)]);
    let remote = vec![ApiFileResponse {
        sherry_id: "s1".to_string(),
        path: "f".to_string(),
        hash: "remote".to_string(),
        size: 3,
        created_at: 0,
        updated_at: 100,
    }];
    let plan = plan_reconciliation(&local, &remote, &"/b".to_string());
    assert_eq!(plan.to_download.len(), 1);
    assert_eq!(plan.to_download[0].sync_path, "f");
    assert_eq!(plan.to_upload.len(), 0);
}

#[test]
fn read_only_sources_take_no_changes() {
    let mut src = test_source();
    src.access = AccessRights::Read;
    assert!(!sherry::scheduler::source_accepts_changes(&src));
    src.access = AccessRights::Write;
    assert!(sherry::scheduler::source_accepts_changes(&src));
}

#[test]
fn newer_remote_copy_wins_a_download() {
    let local = index_with(vec![("/b/f", "old", 100, 1)]);
    let remote = vec![ApiFileResponse {
        sherry_id: "s1".to_string(),
        path: "f".to_string(),
        hash: "new".to_string(),
        size: 3,
        created_at: 0,
        updated_at: 200,
    }];
    let plan = plan_reconciliation(&local, &remote, &"/b".to_string());
    assert_eq!(plan.to_download.len(), 1);
    assert_eq!(plan.to_download[0].sync_path, "f");
    assert_eq!(plan.to_upload.len(), 0);
}

#[test]
fn remote_only_files_are_downloaded_under_the_base() {
    let local = index_with(vec![]);
    let remote = vec![ApiFileResponse {
        sherry_id: "s1".to_string(),
        path: "fresh".to_string(),
        hash: "9".to_string(),
        size: 3,
        created_at: 0,
        updated_at: 200,
    }];
    let plan = plan_reconciliation(&local, &remote, &"/b".to_string());
    assert_eq!(plan.to_download.len(), 1);
    assert_eq!(plan.to_download[0].local_path, "/b/fresh");
}

#[test]
fn stale_tombstones_are_dropped_without_transport() {
    let local = index_with(vec![("/b/gone", "", 100, 0)]);
    let remote = vec![];
    let plan = plan_reconciliation(&local, &remote, &"/b".to_string());
    assert_eq!(plan.to_upload.len(), 0);
    assert_eq!(plan.stale_tombstones, vec!["/b/gone".to_string()]);
}

#[test]
fn token_actions_follow_the_threshold() {
    let now: i64 = 1_000_000;
    let fresh = cred("u", "t", (now as u64) + EXPIRATION_THRESHOLD + 10, false);
    assert!(matches!(token_action(&fresh, now), TokenAction::Keep));
    let due = cred("u", "t", (now as u64) + 259_200, false); // three days
    assert!(matches!(token_action(&due, now), TokenAction::Refresh));
    let overdue = cred("u", "t", (now as u64) - 1, false);
    assert!(matches!(token_action(&overdue, now), TokenAction::MarkExpired));
    let dead = cred("u", "t", 0, true);
    assert!(matches!(token_action(&dead, now), TokenAction::Keep));
}

#[test]
fn token_refresh_replaces_credentials_and_reconnects() {
    let now: i64 = 1_000_000;
    let mut records = StrMap::new();
    records.insert("u1".to_string(), cred("u1", "old-token", (now as u64) + 259_200, false));
    let auth = SherryAuthorizationConfigJSON { default: "u1".to_string(), records };

    let mut refreshed = StrMap::new();
    refreshed.insert(
        "u1".to_string(),
        ApiAuthResponse {
            user_id: "u1".to_string(),
            email: "u1@example.test".to_string(),
            username: "u1".to_string(),
            access_token: "new-token".to_string(),
            refresh_token: "new-refresh".to_string(),
            expires_in: (now as u64) + 10 * EXPIRATION_THRESHOLD,
        },
    );
    let (valid, meta) = revalidate_auth(&auth, &auth, now, &refreshed);
    assert_eq!(valid.default, "u1");
    let rec = valid.records.get(&"u1".to_string()).unwrap();
    assert_eq!(rec.access_token, "new-token");
    assert!(!rec.expired);
    assert_eq!(meta.updated_users.len(), 1);
    assert_eq!(meta.valid_users.len(), 0);

    // a changed user set reconnects the push channel
    let empty_cfg = SherryConfigJSON {
        api_url: "http://localhost:3000".to_string(),
        socket_url: "ws://localhost:3001".to_string(),
        sources: StrMap::new(),
        watchers: Vec::new(),
        webhooks: Vec::new(),
    };
    let update = SherryConfigUpdateEvent {
        old: SherryConfigUpdateData {
            data: clone_config(&empty_cfg),
            auth: clone_auth(&auth),
        },
        new: SherryConfigUpdateData {
            data: clone_config(&empty_cfg),
            auth: clone_auth(&auth),
        },
    };
    let cfg_meta = sherry::config::RevalidateConfigMeta {
        invalid_watchers: Vec::new(),
        valid_watchers: Vec::new(),
        new_watchers: Vec::new(),
        updated_watchers: Vec::new(),
        deleted_watchers: Vec::new(),
        valid_sources: StrMap::new(),
        updated_sources: StrMap::new(),
        invalid_sources: StrMap::new(),
    };
    let plan = plan_update(&update, &empty_cfg, &valid, &cfg_meta, &meta);
    assert!(plan.reconnect_socket);
    assert!(plan.commit); // the refreshed tokens must reach disk
}

fn clone_config(c: &SherryConfigJSON) -> SherryConfigJSON {
    SherryConfigJSON {
        api_url: c.api_url.clone(),
        socket_url: c.socket_url.clone(),
        sources: StrMap::new(),
        watchers: c.watchers.iter().map(|w| w.duplicate()).collect(),
        webhooks: c.webhooks.clone(),
    }
}

fn clone_auth(a: &SherryAuthorizationConfigJSON) -> SherryAuthorizationConfigJSON {
    let mut records = StrMap::new();
    for i in 0..a.records.len() {
        records.insert(a.records.key_at(i).clone(), a.records.val_at(i).duplicate());
    }
    SherryAuthorizationConfigJSON { default: a.default.clone(), records }
}

#[test]
fn failed_refresh_marks_the_user_expired() {
    let now: i64 = 1_000_000;
    let mut records = StrMap::new();
    records.insert("u1".to_string(), cred("u1", "t", (now as u64) + 100, false));
    let auth = SherryAuthorizationConfigJSON { default: "u1".to_string(), records };
    let (valid, _) = revalidate_auth(&auth, &auth, now, &StrMap::new());
    assert!(valid.records.get(&"u1".to_string()).unwrap().expired);
}

#[test]
fn unknown_default_user_is_blanked() {
    let auth = SherryAuthorizationConfigJSON {
        default: "nobody".to_string(),
        records: StrMap::new(),
    };
    let (valid, _) = revalidate_auth(&auth, &auth, 0, &StrMap::new());
    assert_eq!(valid.default, "");
}

#[test]
fn watchers_with_missing_pieces_go_invalid() {
    let mut sources = StrMap::new();
    sources.insert("u1@s1".to_string(), test_source());
    let w_ok = watcher("u1@s1", "/b", "h1", "u1", true);
    let w_gone = watcher("u1@s1", "/missing", "h2", "u1", true);
    let w_nouser = watcher("u1@s1", "/b", "h3", "ghost", true);
    let new_cfg = SherryConfigJSON {
        api_url: "http://localhost:3000".to_string(),
        socket_url: "ws://localhost:3001".to_string(),
        sources,
        watchers: vec![w_ok, w_gone, w_nouser],
        webhooks: Vec::new(),
    };
    let old_cfg = clone_config_empty(&new_cfg);
    let mut records = StrMap::new();
    records.insert("u1".to_string(), cred("u1", "t", 10, false));
    let auth = SherryAuthorizationConfigJSON { default: "u1".to_string(), records };
    let mut fs = FsSnapshot::new();
    fs.record(&"/b".to_string(), FsNodeKind::Dir, 0);
    let mut folders = StrMap::new();
    folders.insert("u1@s1".to_string(), folder_response());

    let pre = revalidate_config_begin(&new_cfg, &old_cfg, &auth, &fs, &folders);
    assert_eq!(pre.invalid_watchers.len(), 2);
    assert_eq!(pre.new_watchers.len(), 1);
    assert_eq!(pre.current_watchers.len(), 1);
    assert_eq!(pre.current_watchers[0].local_path, "/b");
    assert_eq!(pre.valid_sources.len() + pre.updated_sources.len(), 1);

    let actualized = sherry::watchers::ActualizedWatcherMeta {
        invalid_watchers: Vec::new(),
        valid_watchers: vec![sherry::watchers::mark_complete(&pre.current_watchers[0])],
    };
    let (valid_cfg, meta) = revalidate_config_finish(&new_cfg, pre, &actualized);
    assert_eq!(valid_cfg.watchers.len(), 1);
    assert!(valid_cfg.watchers[0].complete);
    assert_eq!(meta.invalid_watchers.len(), 2);
}

fn watcher(source: &str, path: &str, hid: &str, user: &str, complete: bool) -> SherryConfigWatcherJSON {
    SherryConfigWatcherJSON {
        source: source.to_string(),
        local_path: path.to_string(),
        hashes_id: hid.to_string(),
        user_id: user.to_string(),
        complete,
    }
}

fn test_source() -> SherryConfigSourceJSON {
    SherryConfigSourceJSON {
        id: "s1".to_string(),
        name: "folder".to_string(),
        access: AccessRights::Write,
        user_id: "u1".to_string(),
        owner_id: "u1".to_string(),
        max_file_size: 100,
        max_dir_size: 0,
        allow_dir: true,
        allowed_file_names: Vec::new(),
        allowed_file_types: Vec::new(),
    }
}

fn folder_response() -> sherry::server_types::ApiFolderResponse {
    sherry::server_types::ApiFolderResponse {
        sherry_id: "s1".to_string(),
        name: "folder".to_string(),
        allow_dir: true,
        user_id: "u1".to_string(),
        max_file_size: 100,
        max_dir_size: 0,
        allowed_file_names: Vec::new(),
        allowed_file_types: Vec::new(),
        sherry_permission: vec![sherry::server_types::ApiFolderPermissionResponse {
            sherry_permission_id: "p1".to_string(),
            role: sherry::server_types::ApiFolderPermissionAccessRights::Write,
            sherry_id: "s1".to_string(),
            user_id: "u1".to_string(),
        }],
    }
}

fn clone_config_empty(c: &SherryConfigJSON) -> SherryConfigJSON {
    SherryConfigJSON {
        api_url: c.api_url.clone(),
        socket_url: c.socket_url.clone(),
        sources: StrMap::new(),
        watchers: Vec::new(),
        webhooks: Vec::new(),
    }
}

#[test]
fn missing_base_triggers_revalidation_and_no_enqueue() {
    let mut sources = StrMap::new();
    sources.insert("u1@s1".to_string(), test_source());
    let cfg = SherryConfigJSON {
        api_url: "http://localhost:3000".to_string(),
        socket_url: "ws://localhost:3001".to_string(),
        sources,
        watchers: vec![watcher("u1@s1", "/b", "h1", "u1", true)],
        webhooks: Vec::new(),
    };
    let fs = FsSnapshot::new(); // the base is gone
    let action = scheduler_gate(&cfg, &"/b/f".to_string(), &fs);
    assert!(matches!(action, GateAction::Revalidate));

    let mut fs2 = FsSnapshot::new();
    fs2.record(&"/b".to_string(), FsNodeKind::Dir, 0);
    let action2 = scheduler_gate(&cfg, &"/b/f".to_string(), &fs2);
    assert!(matches!(action2, GateAction::Enqueue));

    let incomplete = SherryConfigJSON {
        api_url: cfg.api_url.clone(),
        socket_url: cfg.socket_url.clone(),
        sources: StrMap::new(),
        watchers: vec![watcher("u1@s1", "/b", "h1", "u1", false)],
        webhooks: Vec::new(),
    };
    let action3 = scheduler_gate(&incomplete, &"/b/f".to_string(), &fs2);
    assert!(matches!(action3, GateAction::Ignore));
}

#[test]
fn quiet_window_flushes_the_scheduler() {
    assert!(debounce_should_flush(false, 100, 1100, 1000));
    assert!(!debounce_should_flush(false, 100, 1099, 1000));
    assert!(debounce_should_flush(true, 100, 101, 1000));
}

#[test]
fn wire_fields_carry_the_event() {
    let e = event(SyncEventKind::Created, "/b/f", "/b/f", "99");
    let fields = event_wire_fields(&e);
    assert_eq!(fields[0], ("sherryId".to_string(), "s1".to_string()));
    assert_eq!(fields[1], ("eventType".to_string(), "CREATED".to_string()));
    assert_eq!(fields[2], ("fileType".to_string(), "FILE".to_string()));
    assert_eq!(fields[3], ("path".to_string(), "f".to_string()));
    assert_eq!(fields[6], ("hash".to_string(), "99".to_string()));
}

#[test]
fn hash_index_json_is_canonical() {
    let idx = index_with(vec![("/b/zz", "2", 5, 1), ("/b/aa", "1", 4, 2)]);
    let text = hash_index_to_json(&idx);
    assert_eq!(
        text,
        "{\"hashes\":{\"/b/aa\":{\"hash\":\"1\",\"size\":2,\"timestamp\":4},\
         \"/b/zz\":{\"hash\":\"2\",\"size\":1,\"timestamp\":5}},\
         \"id\":\"h1\",\"localPath\":\"/b\",\"sourceId\":\"s1\"}"
    );
    // the text parses back as JSON with the same contents
    let value: serde_json::Value = serde_json::from_str(&text).unwrap();
    assert_eq!(value["id"], "h1");
    assert_eq!(value["hashes"]["/b/aa"]["size"], 2);
    // equal contents in another insertion order give the same text
    let idx2 = index_with(vec![("/b/aa", "1", 4, 2), ("/b/zz", "2", 5, 1)]);
    assert_eq!(hash_index_to_json(&idx2), text);
}

#[test]
fn json_strings_escape_quotes_and_controls() {
    let s = "a\"b\\c\nd".to_string();
    let rendered = sherry::hash_json::render_json_string(&s);
    assert_eq!(rendered, "\"a\\\"b\\\\c\\u000ad\"");
    let parsed: serde_json::Value = serde_json::from_str(&rendered).unwrap();
    assert_eq!(parsed, serde_json::Value::String(s));
}

#[test]
fn active_tokens_join_in_record_order() {
    let mut records = StrMap::new();
    records.insert("b".to_string(), cred("b", "tb", 10, false));
    records.insert("a".to_string(), cred("a", "ta", 10, false));
    records.insert("c".to_string(), cred("c", "tc", 10, true)); // expired
    let header = join_active_tokens(&records);
    assert_eq!(header, "ta;tb");
}

#[test]
fn pushed_files_find_their_watchers() {
    let mut sources = StrMap::new();
    sources.insert("u1@s1".to_string(), test_source());
    let cfg = SherryConfigJSON {
        api_url: "http://localhost:3000".to_string(),
        socket_url: "ws://localhost:3001".to_string(),
        sources,
        watchers: vec![
            watcher("u1@s1", "/b", "h1", "u1", true),
            watcher("other", "/c", "h2", "u1", true),
        ],
        webhooks: Vec::new(),
    };
    let remote = ApiFileResponse {
        sherry_id: "s1".to_string(),
        path: "doc/readme".to_string(),
        hash: "3".to_string(),
        size: 9,
        created_at: 0,
        updated_at: 1,
    };
    let keys = sherry::socket::find_matching_sources(&cfg, &remote.sherry_id);
    assert_eq!(keys, vec!["u1@s1".to_string()]);
    let targets = sherry::socket::find_payload_targets(&cfg, &keys, &remote);
    assert_eq!(targets.len(), 1);
    assert_eq!(targets[0].1, "/b/doc/readme");

    let mut records = StrMap::new();
    records.insert("u1".to_string(), cred("u1", "tok", 10, false));
    let auth = SherryAuthorizationConfigJSON { default: "u1".to_string(), records };
    let picked = sherry::socket::pick_payload_user(&cfg, &keys, &auth).unwrap();
    assert_eq!(picked.access_token, "tok");
}
