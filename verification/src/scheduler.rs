//! The per-source scheduler's decisions: when to flush, which events to
//! send, and how each event lands in the hash index.
//!
//! The cooperative loop around these decisions (awaiting the channel,
//! calling the transport) lives with the caller; everything that decides
//! is here.

use vstd::prelude::*;
use vstd::map::*;

use crate::config::SherryConfigJSON;
use crate::config::WatcherV;
use crate::config::watcher_covering;
use crate::expand::FsSnapshot;
use crate::file_event::SyncEvent;
use crate::file_event::SyncEventKind;
use crate::file_event::SyncEventV;
use crate::file_event::file_type_str;
use crate::file_event::file_type_word;
use crate::file_event::kind_str;
use crate::file_event::kind_word;
use crate::hash::FileHashJSON;
use crate::hash::FileHashV;
use crate::hash::WatcherHashJSON;
use crate::hash::lemma_view_map_insert;
use crate::hash::lemma_view_map_remove;
use crate::helpers::norm_path;
use crate::strings::dec_of;
use crate::strings::u64_to_dec;

verus! {

/// Whether the index already records the event's content, in which case
/// nothing is sent for it.
pub open spec fn plan_skip(index: Map<Seq<char>, FileHashV>, e: SyncEventV) -> bool {
    index.contains_key(e.local_path) && index[e.local_path].hash == e.update_hash
}

/// Decides whether an event is already absorbed by the index and needs no
/// transport call.
pub fn should_skip_event(hashes: &WatcherHashJSON, e: &SyncEvent) -> (r: bool)
    requires
        hashes.wf(),
    ensures
        r == plan_skip(hashes.hash_map(), e@),
{
    match hashes.hashes.get(&e.local_path) {
        Some(entry) => crate::strings::str_eq(&entry.hash, &e.update_hash),
        None => false,
    }
}

/// The index after recording one event: a delete leaves a tombstone, a
/// move carries the entry from the old path to the new, anything else
/// upserts the new hash and size, all stamped `now`.
pub open spec fn index_after_event(
    index: Map<Seq<char>, FileHashV>,
    e: SyncEventV,
    now: int,
) -> Map<Seq<char>, FileHashV> {
    match e.kind {
        SyncEventKind::Deleted => index.insert(
            e.local_path,
            FileHashV { hash: Seq::empty(), timestamp: now, size: 0 },
        ),
        SyncEventKind::Moved => index.remove(e.old_local_path).insert(
            e.local_path,
            FileHashV { hash: e.update_hash, timestamp: now, size: e.size },
        ),
        _ => index.insert(
            e.local_path,
            FileHashV { hash: e.update_hash, timestamp: now, size: e.size },
        ),
    }
}

/// Records one event in the working copy of the index.
pub fn apply_event_to_hashes(hashes: &mut WatcherHashJSON, e: &SyncEvent, now: i128)
    requires
        old(hashes).wf(),
    ensures
        final(hashes).wf(),
        final(hashes).hash_map() == index_after_event(old(hashes).hash_map(), e@, now as int),
        final(hashes).id@ == old(hashes).id@,
        final(hashes).source_id@ == old(hashes).source_id@,
        final(hashes).local_path@ == old(hashes).local_path@,
{
    match e.kind {
        SyncEventKind::Deleted => {
            let entry = FileHashJSON { hash: String::new(), timestamp: now, size: 0 };
            let ghost m0 = hashes.hashes.as_map();
            let ghost gentry = entry;
            hashes.hashes.insert(e.local_path.clone(), entry);
            proof {
                lemma_view_map_insert(m0, e.local_path@, gentry);
                assert(crate::hash::view_map(hashes.hashes.as_map()) =~= index_after_event(
                    crate::hash::view_map(m0),
                    e@,
                    now as int,
                ));
            }
        },
        SyncEventKind::Moved => {
            let ghost m0 = hashes.hashes.as_map();
            hashes.hashes.remove(&e.old_local_path);
            let ghost m1 = hashes.hashes.as_map();
            let entry = FileHashJSON {
                hash: e.update_hash.clone(),
                timestamp: now,
                size: e.size,
            };
            let ghost gentry = entry;
            hashes.hashes.insert(e.local_path.clone(), entry);
            proof {
                lemma_view_map_remove(m0, e.old_local_path@);
                lemma_view_map_insert(m1, e.local_path@, gentry);
                assert(crate::hash::view_map(hashes.hashes.as_map()) =~= index_after_event(
                    crate::hash::view_map(m0),
                    e@,
                    now as int,
                ));
            }
        },
        _ => {
            let ghost m0 = hashes.hashes.as_map();
            let entry = FileHashJSON {
                hash: e.update_hash.clone(),
                timestamp: now,
                size: e.size,
            };
            let ghost gentry = entry;
            hashes.hashes.insert(e.local_path.clone(), entry);
            proof {
                lemma_view_map_insert(m0, e.local_path@, gentry);
                assert(crate::hash::view_map(hashes.hashes.as_map()) =~= index_after_event(
                    crate::hash::view_map(m0),
                    e@,
                    now as int,
                ));
            }
        },
    }
}

/// Law: a batch replayed after its index updates were applied sends
/// nothing. Once `index_after_event` has absorbed an event, the same event
/// is skipped on the next pass (a delete's hash is empty after completion,
/// matching its tombstone).
pub proof fn lemma_replay_skipped(index: Map<Seq<char>, FileHashV>, e: SyncEventV, now: int)
    requires
        e.kind == SyncEventKind::Deleted ==> e.update_hash == Seq::<char>::empty(),
    ensures
        plan_skip(index_after_event(index, e, now), e),
{
}

/// What the intake does with one raw notification.
#[derive(Clone, Copy, PartialEq, Eq, Structural, Debug)]
pub enum GateAction {
    Ignore,
    Revalidate,
    Enqueue,
}

/// The intake decision for one notification: it depends on the covering
/// watcher, on whether that watcher's base still exists, and on whether
/// its source is still configured.
pub open spec fn spec_scheduler_gate(
    covering: Option<WatcherV>,
    base_exists: bool,
    source_known: bool,
) -> GateAction {
    match covering {
        None => GateAction::Ignore,
        Some(w) => {
            if !w.complete {
                GateAction::Ignore
            } else if !base_exists {
                GateAction::Revalidate
            } else if !source_known {
                GateAction::Revalidate
            } else {
                GateAction::Enqueue
            }
        },
    }
}

/// Decides what to do with a raw notification at `path`: ignore it when no
/// complete watcher covers the path, trigger a config revalidation when
/// the covering watcher's base is gone or its source is no longer
/// configured, and enqueue it to the source's scheduler otherwise.
pub fn scheduler_gate(config: &SherryConfigJSON, path: &String, fs: &FsSnapshot) -> (r: GateAction)
    requires
        config.wf(),
        fs.wf(),
    ensures
        ({
            let i = watcher_covering(config.watchers_view(), path@);
            if i == -1 {
                r == spec_scheduler_gate(None, true, true)
            } else {
                let w = config.watchers_view()[i];
                r == spec_scheduler_gate(
                    Some(w),
                    fs.as_map().contains_key(norm_path(w.local_path)),
                    config.sources_map().contains_key(w.source),
                )
            }
        }),
{
    match crate::config::get_source_by_path(config, path) {
        None => GateAction::Ignore,
        Some(w) => {
            if !w.complete {
                GateAction::Ignore
            } else {
                let base = crate::helpers::normalize_path(&w.local_path);
                let node = fs.lookup(&base);
                let missing = match node {
                    Some(_) => false,
                    None => true,
                };
                if missing {
                    GateAction::Revalidate
                } else if !config.sources.contains_key(&w.source) {
                    GateAction::Revalidate
                } else {
                    GateAction::Enqueue
                }
            }
        },
    }
}

/// Whether a source takes changes from this side at all: a read-only
/// binding processes nothing, so its scheduler pass ends before the
/// pipeline runs.
pub open spec fn spec_source_accepts_changes(src: crate::config::SourceV) -> bool {
    src.access != crate::config::AccessRights::Read
}

/// Decides whether a scheduler pass may process events for this source.
pub fn source_accepts_changes(src: &crate::config::SherryConfigSourceJSON) -> (r: bool)
    ensures
        r == spec_source_accepts_changes(src@),
{
    match src.access {
        crate::config::AccessRights::Read => false,
        _ => true,
    }
}

/// Whether the per-source scheduler should flush and exit: its channel
/// closed, or the quiet interval has passed since the last event.
pub open spec fn spec_should_flush(
    closed: bool,
    last_event_ms: int,
    now_ms: int,
    quiet_ms: int,
) -> bool {
    closed || now_ms - last_event_ms >= quiet_ms
}

/// Decides whether the scheduler's drain loop is over.
pub fn debounce_should_flush(closed: bool, last_event_ms: i128, now_ms: i128, quiet_ms: i128) -> (r:
    bool)
    requires
        0 <= last_event_ms <= now_ms,
        0 <= quiet_ms,
    ensures
        r == spec_should_flush(closed, last_event_ms as int, now_ms as int, quiet_ms as int),
{
    closed || now_ms - last_event_ms >= quiet_ms
}

/// The text fields an event puts on the wire, for the verify call and the
/// multipart send: sherryId, eventType, fileType, path, oldPath, size and
/// hash, in that order.
pub open spec fn wire_fields(e: SyncEventV) -> Seq<(Seq<char>, Seq<char>)> {
    seq![
        ("sherryId"@, e.source_id),
        ("eventType"@, kind_word(e.kind)),
        ("fileType"@, file_type_word(e.file_type)),
        ("path"@, e.sync_path),
        ("oldPath"@, e.old_sync_path),
        ("size"@, dec_of(e.size as nat)),
        ("hash"@, e.update_hash),
    ]
}

/// Renders the wire form of one event.
pub fn event_wire_fields(e: &SyncEvent) -> (r: Vec<(String, String)>)
    ensures
        r@.map_values(|p: (String, String)| (p.0@, p.1@)) == wire_fields(e@),
{
    let mut out: Vec<(String, String)> = Vec::new();
    out.push(("sherryId".to_owned(), e.source_id.clone()));
    out.push(("eventType".to_owned(), kind_str(e.kind)));
    out.push(("fileType".to_owned(), file_type_str(e.file_type)));
    out.push(("path".to_owned(), e.sync_path.clone()));
    out.push(("oldPath".to_owned(), e.old_sync_path.clone()));
    out.push(("size".to_owned(), u64_to_dec(e.size)));
    out.push(("hash".to_owned(), e.update_hash.clone()));
    proof {
        assert(out@.map_values(|p: (String, String)| (p.0@, p.1@)) =~= wire_fields(e@));
    }
    out
}

} // verus!
