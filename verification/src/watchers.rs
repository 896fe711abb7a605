//! Reconciliation planning: the four-way classification of local index
//! entries against the remote listing, the index updates that follow, and
//! the partition of watchers before a sweep.
//!
//! The sweep itself (recomputing the index from disk, the downloads and
//! uploads) is the caller's; it hands the outcomes back as plain values.

use vstd::prelude::*;
use vstd::map::*;

use crate::auth::Credentials;
use crate::config::SherryConfigSourceJSON;
use crate::config::SherryConfigWatcherJSON;
use crate::config::WatcherV;
use crate::config::watcher_views;
use crate::file_event::SyncEventKind;
use crate::hash::FileHashJSON;
use crate::hash::FileHashV;
use crate::hash::WatcherHashJSON;
use crate::hash::lemma_view_map_insert;
use crate::hash::lemma_view_map_remove;
use crate::helpers::get_sync_path;
use crate::helpers::norm_path;
use crate::helpers::sync_path_of;
use crate::server_types::ApiFileResponse;
use crate::server_types::ApiFileV;
use crate::smap::StrMap;
use crate::strings::is_prefix_of;

verus! {

/// One planned upload: the file, its sync path, the index entry that
/// backs it, and whether the server will see a create or an update.
pub struct UploadItem {
    pub local_path: String,
    pub sync_path: String,
    pub hash: FileHashJSON,
    pub kind: SyncEventKind,
}

/// Ghost mirror of `UploadItem`.
pub ghost struct UploadV {
    pub local_path: Seq<char>,
    pub sync_path: Seq<char>,
    pub hash: FileHashV,
    pub kind: SyncEventKind,
}

impl View for UploadItem {
    type V = UploadV;

    open spec fn view(&self) -> UploadV {
        UploadV {
            local_path: self.local_path@,
            sync_path: self.sync_path@,
            hash: self.hash@,
            kind: self.kind,
        }
    }
}

/// One planned transfer towards the local tree: the local target, its
/// sync path, and the remote entry that drives it.
pub struct TransferItem {
    pub local_path: String,
    pub sync_path: String,
    pub remote: ApiFileResponse,
}

/// Ghost mirror of `TransferItem`.
pub ghost struct TransferV {
    pub local_path: Seq<char>,
    pub sync_path: Seq<char>,
    pub remote: ApiFileV,
}

impl View for TransferItem {
    type V = TransferV;

    open spec fn view(&self) -> TransferV {
        TransferV { local_path: self.local_path@, sync_path: self.sync_path@, remote: self.remote@ }
    }
}

/// What a reconciliation sweep has to carry out.
pub struct ReconcilePlan {
    pub to_download: Vec<TransferItem>,
    pub to_delete: Vec<TransferItem>,
    pub to_upload: Vec<UploadItem>,
    pub stale_tombstones: Vec<String>,
}

pub open spec fn transfer_views(s: Seq<TransferItem>) -> Seq<TransferV> {
    s.map_values(|t: TransferItem| t@)
}

pub open spec fn upload_views(s: Seq<UploadItem>) -> Seq<UploadV> {
    s.map_values(|u: UploadItem| u@)
}

/// The first remote entry whose path is `p`, or -1.
pub open spec fn remote_find(s: Seq<ApiFileV>, p: Seq<char>) -> int
    decreases s.len(),
{
    if s.len() == 0 {
        -1
    } else if s[0].path == p {
        0
    } else {
        let r = remote_find(s.skip(1), p);
        if r == -1 {
            -1
        } else {
            1 + r
        }
    }
}

proof fn lemma_remote_find_none(s: Seq<ApiFileV>, p: Seq<char>)
    requires
        forall|j: int| 0 <= j < s.len() ==> (#[trigger] s[j]).path != p,
    ensures
        remote_find(s, p) == -1,
    decreases s.len(),
{
    if s.len() > 0 {
        assert(forall|j: int| 0 <= j < s.skip(1).len() ==> s.skip(1)[j] == s[j + 1]);
        lemma_remote_find_none(s.skip(1), p);
    }
}

proof fn lemma_remote_find_at(s: Seq<ApiFileV>, p: Seq<char>, i: int)
    requires
        0 <= i < s.len(),
        s[i].path == p,
        forall|j: int| 0 <= j < i ==> (#[trigger] s[j]).path != p,
    ensures
        remote_find(s, p) == i,
    decreases s.len(),
{
    if i > 0 {
        assert(forall|j: int| 0 <= j < s.skip(1).len() ==> s.skip(1)[j] == s[j + 1]);
        lemma_remote_find_at(s.skip(1), p, i - 1);
    }
}

/// The working state of the classification: the remote entries not yet
/// claimed, and the four outcome lists so far.
pub ghost struct ReconAcc {
    pub remote: Seq<ApiFileV>,
    pub downloads: Seq<TransferV>,
    pub deletes: Seq<TransferV>,
    pub uploads: Seq<UploadV>,
    pub tombstones: Seq<Seq<char>>,
}

/// Classifies one local index entry against the remote listing: a match
/// with equal hashes is settled; an empty remote hash is a remote delete,
/// whatever its stamp; otherwise the side with the greater timestamp
/// wins, a tie preferring the remote (a download). A local-only tombstone
/// is dropped from the index; any other local-only file is uploaded as a
/// create. A claimed remote entry leaves the working listing by a swap
/// with its last entry.
pub open spec fn recon_step(acc: ReconAcc, key: Seq<char>, entry: FileHashV, base: Seq<char>) -> ReconAcc {
    let sp = sync_path_of(key, base);
    let i = remote_find(acc.remote, sp);
    if i == -1 {
        if entry.hash.len() == 0 {
            ReconAcc { tombstones: acc.tombstones.push(norm_path(key)), ..acc }
        } else {
            ReconAcc {
                uploads: acc.uploads.push(
                    UploadV {
                        local_path: key,
                        sync_path: sp,
                        hash: entry,
                        kind: SyncEventKind::Created,
                    },
                ),
                ..acc
            }
        }
    } else {
        let remote = acc.remote[i];
        let rest = acc.remote.update(i, acc.remote.last()).drop_last();
        if remote.hash == entry.hash {
            ReconAcc { remote: rest, ..acc }
        } else if remote.hash.len() == 0 {
            ReconAcc {
                remote: rest,
                deletes: acc.deletes.push(TransferV { local_path: key, sync_path: sp, remote }),
                ..acc
            }
        } else if remote.updated_at >= entry.timestamp {
            ReconAcc {
                remote: rest,
                downloads: acc.downloads.push(
                    TransferV { local_path: key, sync_path: sp, remote },
                ),
                ..acc
            }
        } else {
            ReconAcc {
                remote: rest,
                uploads: acc.uploads.push(
                    UploadV {
                        local_path: key,
                        sync_path: sp,
                        hash: entry,
                        kind: SyncEventKind::Updated,
                    },
                ),
                ..acc
            }
        }
    }
}

/// The classification after the first `i` local entries.
pub open spec fn recon_fold(
    entries: Seq<(Seq<char>, FileHashV)>,
    remote0: Seq<ApiFileV>,
    base: Seq<char>,
    i: int,
) -> ReconAcc
    decreases i,
{
    if i <= 0 {
        ReconAcc {
            remote: remote0,
            downloads: Seq::empty(),
            deletes: Seq::empty(),
            uploads: Seq::empty(),
            tombstones: Seq::empty(),
        }
    } else {
        let acc = recon_fold(entries, remote0, base, i - 1);
        recon_step(acc, entries[i - 1].0, entries[i - 1].1, base)
    }
}

/// The downloads for remote entries nobody claimed, targeted under the
/// base, appended to `acc` in listing order.
pub open spec fn leftover_downloads(
    acc: Seq<TransferV>,
    remote: Seq<ApiFileV>,
    base: Seq<char>,
    i: int,
) -> Seq<TransferV>
    decreases i,
{
    if i <= 0 {
        acc
    } else {
        leftover_downloads(acc, remote, base, i - 1).push(
            TransferV {
                local_path: base.add(seq!['/']).add(remote[i - 1].path),
                sync_path: remote[i - 1].path,
                remote: remote[i - 1],
            },
        )
    }
}

/// The hash-index entry list, as mirrors, in storage order.
pub open spec fn hash_entries(m: StrMap<FileHashJSON>) -> Seq<(Seq<char>, FileHashV)> {
    m.entries@.map_values(|e: (String, FileHashJSON)| (e.0@, e.1@))
}

/// Plans a reconciliation sweep: classifies every local index entry
/// against the remote listing (a remote tombstone always wins a local
/// delete; otherwise the newer side wins, a tie preferring the remote),
/// and turns every unclaimed remote entry into a download under the
/// base.
pub fn plan_reconciliation(
    local: &WatcherHashJSON,
    remote: &Vec<ApiFileResponse>,
    base: &String,
) -> (r: ReconcilePlan)
    requires
        local.wf(),
        forall|j: int|
            0 <= j < local.hashes.spec_len() ==> is_prefix_of(
                norm_path(base@),
                norm_path(#[trigger] local.hashes.spec_keys()[j]),
            ),
    ensures
        ({
            let acc = recon_fold(
                hash_entries(local.hashes),
                crate::server_types::api_file_views(remote@),
                base@,
                local.hashes.spec_len() as int,
            );
            &&& transfer_views(r.to_download@) == leftover_downloads(
                acc.downloads,
                acc.remote,
                base@,
                acc.remote.len() as int,
            )
            &&& transfer_views(r.to_delete@) == acc.deletes
            &&& upload_views(r.to_upload@) == acc.uploads
            &&& r.stale_tombstones@.map_values(|s: String| s@) == acc.tombstones
        }),
{
    let ghost entries = hash_entries(local.hashes);
    let ghost remote0 = crate::server_types::api_file_views(remote@);

    let mut remote_left: Vec<ApiFileResponse> = Vec::new();
    let rn = remote.len();
    let mut t: usize = 0;
    while t < rn
        invariant
            0 <= t <= rn,
            rn == remote@.len(),
            remote_left@.len() == t,
            forall|j: int| 0 <= j < t ==> (#[trigger] remote_left@[j])@ == remote@[j]@,
        decreases rn - t,
    {
        remote_left.push(remote[t].duplicate());
        t += 1;
    }
    proof {
        assert(crate::server_types::api_file_views(remote_left@) =~= remote0);
    }

    let mut downloads: Vec<TransferItem> = Vec::new();
    let mut deletes: Vec<TransferItem> = Vec::new();
    let mut uploads: Vec<UploadItem> = Vec::new();
    let mut tombstones: Vec<String> = Vec::new();

    let n = local.hashes.len();
    let mut i: usize = 0;
    while i < n
        invariant
            0 <= i <= n,
            n == local.hashes.spec_len(),
            local.wf(),
            entries == hash_entries(local.hashes),
            remote0 == crate::server_types::api_file_views(remote@),
            forall|j: int|
                0 <= j < local.hashes.spec_len() ==> is_prefix_of(
                    norm_path(base@),
                    norm_path(#[trigger] local.hashes.spec_keys()[j]),
                ),
            ({
                let acc = recon_fold(entries, remote0, base@, i as int);
                &&& crate::server_types::api_file_views(remote_left@) == acc.remote
                &&& transfer_views(downloads@) == acc.downloads
                &&& transfer_views(deletes@) == acc.deletes
                &&& upload_views(uploads@) == acc.uploads
                &&& tombstones@.map_values(|s: String| s@) == acc.tombstones
            }),
        decreases n - i,
    {
        let key = local.hashes.key_at(i);
        let entry = local.hashes.val_at(i);
        proof {
            assert(entries[i as int] == (local.hashes.entries@[i as int].0@, local.hashes.entries@[
                i as int].1@));
        }
        let sp = get_sync_path(key, base);
        let found = find_remote(&remote_left, &sp);
        match found {
            None => {
                if entry.is_tombstone() {
                    tombstones.push(crate::helpers::normalize_path(key));
                } else {
                    uploads.push(
                        UploadItem {
                            local_path: key.clone(),
                            sync_path: sp,
                            hash: entry.duplicate(),
                            kind: SyncEventKind::Created,
                        },
                    );
                }
            },
            Some(ri) => {
                let claimed = remote_left.swap_remove(ri);
                if crate::strings::str_eq(&claimed.hash, &entry.hash) {
                } else if claimed.hash.as_str().unicode_len() == 0 {
                    deletes.push(
                        TransferItem { local_path: key.clone(), sync_path: sp, remote: claimed },
                    );
                } else if claimed.updated_at >= entry.timestamp {
                    downloads.push(
                        TransferItem { local_path: key.clone(), sync_path: sp, remote: claimed },
                    );
                } else {
                    uploads.push(
                        UploadItem {
                            local_path: key.clone(),
                            sync_path: sp,
                            hash: entry.duplicate(),
                            kind: SyncEventKind::Updated,
                        },
                    );
                }
            },
        }
        i += 1;
        proof {
            let acc0 = recon_fold(entries, remote0, base@, i - 1);
            let acc1 = recon_fold(entries, remote0, base@, i as int);
            assert(crate::server_types::api_file_views(remote_left@) =~= acc1.remote);
            assert(transfer_views(downloads@) =~= acc1.downloads);
            assert(transfer_views(deletes@) =~= acc1.deletes);
            assert(upload_views(uploads@) =~= acc1.uploads);
            assert(tombstones@.map_values(|s: String| s@) =~= acc1.tombstones);
        }
    }

    // everything the server has that nothing local claimed
    let ghost accf = recon_fold(entries, remote0, base@, n as int);
    let ln = remote_left.len();
    let mut l: usize = 0;
    while l < ln
        invariant
            0 <= l <= ln,
            ln == accf.remote.len(),
            crate::server_types::api_file_views(remote_left@) == accf.remote,
            transfer_views(downloads@) == leftover_downloads(
                accf.downloads,
                accf.remote,
                base@,
                l as int,
            ),
        decreases ln - l,
    {
        let rfile = remote_left[l].duplicate();
        let mut target = base.clone();
        crate::strings::push_char(&mut target, '/');
        let target = target.concat(rfile.path.as_str());
        proof {
            assert(target@ =~= base@.add(seq!['/']).add(remote_left@[l as int]@.path));
        }
        let spath = rfile.path.clone();
        downloads.push(TransferItem { local_path: target, sync_path: spath, remote: rfile });
        l += 1;
        proof {
            assert(transfer_views(downloads@) =~= leftover_downloads(
                accf.downloads,
                accf.remote,
                base@,
                l as int,
            ));
        }
    }

    ReconcilePlan { to_download: downloads, to_delete: deletes, to_upload: uploads, stale_tombstones: tombstones }
}

/// Scans the working listing for the first entry at `p`.
fn find_remote(remote: &Vec<ApiFileResponse>, p: &String) -> (r: Option<usize>)
    ensures
        match r {
            Some(i) => i < remote@.len() && remote_find(
                crate::server_types::api_file_views(remote@),
                p@,
            ) == i as int,
            None => remote_find(crate::server_types::api_file_views(remote@), p@) == -1,
        },
{
    let ghost rv = crate::server_types::api_file_views(remote@);
    let n = remote.len();
    let mut i: usize = 0;
    while i < n
        invariant
            0 <= i <= n,
            n == remote@.len(),
            rv == crate::server_types::api_file_views(remote@),
            forall|j: int| 0 <= j < i ==> (#[trigger] rv[j]).path != p@,
        decreases n - i,
    {
        if crate::strings::str_eq(&remote[i].path, p) {
            proof {
                lemma_remote_find_at(rv, p@, i as int);
            }
            return Some(i);
        }
        i += 1;
    }
    proof {
        lemma_remote_find_none(rv, p@);
    }
    None
}

/// One confirmed outcome to reflect into the index: an upsert from the
/// remote entry, or a removal.
pub enum SyncOp {
    Upsert { key: String, hash: String, timestamp: i128, size: u64 },
    Drop { key: String },
}

/// Ghost mirror of `SyncOp`.
pub ghost enum SyncOpV {
    Upsert { key: Seq<char>, hash: Seq<char>, timestamp: int, size: u64 },
    Drop { key: Seq<char> },
}

impl View for SyncOp {
    type V = SyncOpV;

    open spec fn view(&self) -> SyncOpV {
        match self {
            SyncOp::Upsert { key, hash, timestamp, size } => SyncOpV::Upsert {
                key: key@,
                hash: hash@,
                timestamp: *timestamp as int,
                size: *size,
            },
            SyncOp::Drop { key } => SyncOpV::Drop { key: key@ },
        }
    }
}

/// The index after the first `i` confirmed outcomes.
pub open spec fn ops_applied(
    m: Map<Seq<char>, FileHashV>,
    ops: Seq<SyncOpV>,
    i: int,
) -> Map<Seq<char>, FileHashV>
    decreases i,
{
    if i <= 0 {
        m
    } else {
        let before = ops_applied(m, ops, i - 1);
        match ops[i - 1] {
            SyncOpV::Upsert { key, hash, timestamp, size } => before.insert(
                key,
                FileHashV { hash, timestamp, size },
            ),
            SyncOpV::Drop { key } => before.remove(key),
        }
    }
}

/// Reflects the sweep's confirmed outcomes into the index, in order.
pub fn apply_sync_ops(local: &mut WatcherHashJSON, ops: &Vec<SyncOp>)
    requires
        old(local).wf(),
    ensures
        final(local).wf(),
        final(local).hash_map() == ops_applied(
            old(local).hash_map(),
            ops@.map_values(|o: SyncOp| o@),
            ops@.len() as int,
        ),
        final(local).id@ == old(local).id@,
        final(local).source_id@ == old(local).source_id@,
        final(local).local_path@ == old(local).local_path@,
{
    let ghost ov = ops@.map_values(|o: SyncOp| o@);
    let ghost m0 = old(local).hash_map();
    let n = ops.len();
    let mut i: usize = 0;
    while i < n
        invariant
            0 <= i <= n,
            n == ops@.len(),
            ov == ops@.map_values(|o: SyncOp| o@),
            local.wf(),
            local.hash_map() == ops_applied(m0, ov, i as int),
            local.id@ == old(local).id@,
            local.source_id@ == old(local).source_id@,
            local.local_path@ == old(local).local_path@,
        decreases n - i,
    {
        match &ops[i] {
            SyncOp::Upsert { key, hash, timestamp, size } => {
                let entry = FileHashJSON { hash: hash.clone(), timestamp: *timestamp, size: *size };
                let ghost gentry = entry;
                let ghost mm = local.hashes.as_map();
                local.hashes.insert(key.clone(), entry);
                proof {
                    lemma_view_map_insert(mm, key@, gentry);
                    assert(local.hash_map() =~= ops_applied(m0, ov, i + 1));
                }
            },
            SyncOp::Drop { key } => {
                let ghost mm = local.hashes.as_map();
                local.hashes.remove(key);
                proof {
                    lemma_view_map_remove(mm, key@);
                    assert(local.hash_map() =~= ops_applied(m0, ov, i + 1));
                }
            },
        }
        i += 1;
    }
}

/// The outcome of a reconciliation pass over several watchers.
pub struct ActualizedWatcherMeta {
    pub invalid_watchers: Vec<SherryConfigWatcherJSON>,
    pub valid_watchers: Vec<SherryConfigWatcherJSON>,
}

/// The watchers among the first `i` whose user and source are both known.
pub open spec fn fetchable_watchers(
    ws: Seq<WatcherV>,
    users: Map<Seq<char>, crate::auth::CredentialsV>,
    sources: Map<Seq<char>, crate::config::SourceV>,
    i: int,
) -> Seq<WatcherV>
    decreases i,
{
    if i <= 0 {
        Seq::empty()
    } else {
        let acc = fetchable_watchers(ws, users, sources, i - 1);
        if users.contains_key(ws[i - 1].user_id) && sources.contains_key(ws[i - 1].source) {
            acc.push(ws[i - 1])
        } else {
            acc
        }
    }
}

/// The watchers among the first `i` whose user or source is missing.
pub open spec fn unfetchable_watchers(
    ws: Seq<WatcherV>,
    users: Map<Seq<char>, crate::auth::CredentialsV>,
    sources: Map<Seq<char>, crate::config::SourceV>,
    i: int,
) -> Seq<WatcherV>
    decreases i,
{
    if i <= 0 {
        Seq::empty()
    } else {
        let acc = unfetchable_watchers(ws, users, sources, i - 1);
        if users.contains_key(ws[i - 1].user_id) && sources.contains_key(ws[i - 1].source) {
            acc
        } else {
            acc.push(ws[i - 1])
        }
    }
}

/// Splits the watchers due for a sweep into those whose user and source
/// are known (to be fetched) and those already invalid.
pub fn partition_watchers(
    watchers: &Vec<SherryConfigWatcherJSON>,
    users: &StrMap<Credentials>,
    sources: &StrMap<SherryConfigSourceJSON>,
) -> (r: (Vec<SherryConfigWatcherJSON>, Vec<SherryConfigWatcherJSON>))
    requires
        users.wf(),
        sources.wf(),
    ensures
        watcher_views(r.0@) == fetchable_watchers(
            watcher_views(watchers@),
            crate::auth::cred_view_map(users.as_map()),
            crate::config::source_view_map(sources.as_map()),
            watchers@.len() as int,
        ),
        watcher_views(r.1@) == unfetchable_watchers(
            watcher_views(watchers@),
            crate::auth::cred_view_map(users.as_map()),
            crate::config::source_view_map(sources.as_map()),
            watchers@.len() as int,
        ),
{
    let ghost wv = watcher_views(watchers@);
    let ghost um = crate::auth::cred_view_map(users.as_map());
    let ghost sm = crate::config::source_view_map(sources.as_map());
    let mut fetchable: Vec<SherryConfigWatcherJSON> = Vec::new();
    let mut invalid: Vec<SherryConfigWatcherJSON> = Vec::new();
    let n = watchers.len();
    let mut i: usize = 0;
    while i < n
        invariant
            0 <= i <= n,
            n == watchers@.len(),
            users.wf(),
            sources.wf(),
            wv == watcher_views(watchers@),
            um == crate::auth::cred_view_map(users.as_map()),
            sm == crate::config::source_view_map(sources.as_map()),
            watcher_views(fetchable@) == fetchable_watchers(wv, um, sm, i as int),
            watcher_views(invalid@) == unfetchable_watchers(wv, um, sm, i as int),
        decreases n - i,
    {
        let w = &watchers[i];
        if users.contains_key(&w.user_id) && sources.contains_key(&w.source) {
            fetchable.push(w.duplicate());
        } else {
            invalid.push(w.duplicate());
        }
        i += 1;
        proof {
            assert(watcher_views(fetchable@) =~= fetchable_watchers(wv, um, sm, i as int));
            assert(watcher_views(invalid@) =~= unfetchable_watchers(wv, um, sm, i as int));
        }
    }
    (fetchable, invalid)
}

/// The watcher after a successful sweep: the same binding, complete.
pub fn mark_complete(w: &SherryConfigWatcherJSON) -> (r: SherryConfigWatcherJSON)
    ensures
        r@ == (WatcherV { complete: true, ..w@ }),
{
    let mut c = w.duplicate();
    c.complete = true;
    c
}

} // verus!
