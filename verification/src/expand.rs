//! Expansion of coalesced raw notifications into canonical sync events,
//! against a snapshot of what the file system held when the batch was
//! drained.
//!
//! The snapshot carries, per normalized path, whether the walker saw a
//! regular file, a directory or a symlink, and the size it reported; a
//! path absent from the snapshot did not exist. Expansion never touches
//! the disk itself.

use vstd::prelude::*;
use vstd::map::*;

use crate::config::SherryConfigSourceJSON;
use crate::file_event::BasedDebounceEvent;
use crate::file_event::BdeV;
use crate::file_event::FileType;
use crate::file_event::RawEventKind;
use crate::file_event::RenameMode;
use crate::file_event::SyncEvent;
use crate::file_event::SyncEventKind;
use crate::file_event::SyncEventV;
use crate::file_event::event_views;
use crate::hash::WatcherHashJSON;
use crate::helpers::get_sync_path;
use crate::helpers::norm_path;
use crate::helpers::normalize_path;
use crate::helpers::sync_path_of;
use crate::smap::StrMap;
use crate::strings::is_prefix_of;
use crate::strings::push_char;
use crate::strings::starts_with_str;

verus! {

/// What the walker saw at one path.
#[derive(Clone, Copy, PartialEq, Eq, Structural, Debug)]
pub enum FsNodeKind {
    File,
    Dir,
    Symlink,
}

/// One snapshot entry: the kind of node and the size the walker reported.
#[derive(Clone, Copy, PartialEq, Eq, Structural, Debug)]
pub struct FsNode {
    pub kind: FsNodeKind,
    pub size: u64,
}

/// A snapshot of the watched tree, keyed by normalized path; absence
/// means the path did not exist.
pub struct FsSnapshot {
    pub nodes: StrMap<FsNode>,
}

impl FsSnapshot {
    pub open spec fn wf(self) -> bool {
        self.nodes.wf()
    }

    /// The snapshot as a map from normalized path to node.
    pub open spec fn as_map(self) -> Map<Seq<char>, FsNode> {
        self.nodes.as_map()
    }

    /// An empty snapshot.
    pub fn new() -> (r: Self)
        ensures
            r.wf(),
            r.as_map() == Map::<Seq<char>, FsNode>::empty(),
    {
        FsSnapshot { nodes: StrMap::new() }
    }

    /// Records what the walker saw at `path`, keyed by its normalized form.
    pub fn record(&mut self, path: &String, kind: FsNodeKind, size: u64)
        requires
            old(self).wf(),
        ensures
            final(self).wf(),
            final(self).as_map() == old(self).as_map().insert(
                norm_path(path@),
                FsNode { kind, size },
            ),
    {
        let np = normalize_path(path);
        self.nodes.insert(np, FsNode { kind, size });
    }

    /// Looks a normalized path up.
    pub fn lookup(&self, path: &String) -> (r: Option<FsNode>)
        requires
            self.wf(),
        ensures
            match r {
                Some(n) => self.as_map().contains_key(path@) && self.as_map()[path@] == n,
                None => !self.as_map().contains_key(path@),
            },
    {
        match self.nodes.get(path) {
            Some(n) => Some(*n),
            None => None,
        }
    }
}

/// The snapshot's entry list, in key order.
pub open spec fn fs_entries(fs: FsSnapshot) -> Seq<(Seq<char>, FsNode)> {
    fs.nodes.entries@.map_values(|e: (String, FsNode)| (e.0@, e.1))
}

/// A sync event carrying no hash and no size yet.
pub open spec fn bare_event(
    source_id: Seq<char>,
    base: Seq<char>,
    file_type: FileType,
    kind: SyncEventKind,
    local_path: Seq<char>,
    old_local_path: Seq<char>,
    sync_path: Seq<char>,
    old_sync_path: Seq<char>,
    now: int,
) -> SyncEventV {
    SyncEventV {
        source_id,
        base,
        file_type,
        kind,
        local_path,
        old_local_path,
        sync_path,
        old_sync_path,
        update_hash: Seq::empty(),
        size: 0,
        timestamp: now,
    }
}

/// The deletes synthesized for a vanished path: one per hash-index key
/// among the first `j` that opens with the missing path.
pub open spec fn synth_deletes(
    source_id: Seq<char>,
    base: Seq<char>,
    hkeys: Seq<Seq<char>>,
    nlp: Seq<char>,
    now: int,
    j: int,
) -> Seq<SyncEventV>
    decreases j,
{
    if j <= 0 {
        Seq::empty()
    } else {
        let acc = synth_deletes(source_id, base, hkeys, nlp, now, j - 1);
        if is_prefix_of(nlp, hkeys[j - 1]) {
            acc.push(
                bare_event(
                    source_id,
                    base,
                    FileType::File,
                    SyncEventKind::Deleted,
                    hkeys[j - 1],
                    hkeys[j - 1],
                    sync_path_of(hkeys[j - 1], base),
                    sync_path_of(hkeys[j - 1], base),
                    now,
                ),
            )
        } else {
            acc
        }
    }
}

/// One event of `kind` per regular file among the first `j` snapshot
/// entries that lies strictly under the directory `dirp`.
pub open spec fn files_under(
    source_id: Seq<char>,
    base: Seq<char>,
    fentries: Seq<(Seq<char>, FsNode)>,
    dirp: Seq<char>,
    kind: SyncEventKind,
    now: int,
    j: int,
) -> Seq<SyncEventV>
    decreases j,
{
    if j <= 0 {
        Seq::empty()
    } else {
        let acc = files_under(source_id, base, fentries, dirp, kind, now, j - 1);
        if fentries[j - 1].1.kind == FsNodeKind::File && is_prefix_of(
            dirp.push('/'),
            fentries[j - 1].0,
        ) {
            acc.push(
                bare_event(
                    source_id,
                    base,
                    FileType::File,
                    kind,
                    fentries[j - 1].0,
                    fentries[j - 1].0,
                    sync_path_of(fentries[j - 1].0, base),
                    sync_path_of(fentries[j - 1].0, base),
                    now,
                ),
            )
        } else {
            acc
        }
    }
}

/// The expansion of one coalesced notification: a symlink is dropped; a
/// vanished path synthesizes deletes for every indexed file under it; a
/// directory expands a rename to one move, a create to one create per
/// enclosed file, and a remove to one delete; a regular file maps renames
/// to moves, modifies to updates, creates to creates and removes to
/// deletes.
pub open spec fn sync_events_of(
    source_id: Seq<char>,
    ev: BdeV,
    hkeys: Seq<Seq<char>>,
    fentries: Seq<(Seq<char>, FsNode)>,
    fsm: Map<Seq<char>, FsNode>,
    now: int,
) -> Seq<SyncEventV> {
    let base = ev.base;
    let lp = norm_path(ev.paths.last());
    let olp = norm_path(ev.paths[0]);
    let sp = sync_path_of(ev.paths.last(), base);
    let osp = sync_path_of(ev.paths[0], base);
    if fsm.contains_key(lp) && fsm[lp].kind == FsNodeKind::Symlink {
        Seq::empty()
    } else if !fsm.contains_key(lp) {
        synth_deletes(source_id, base, hkeys, lp, now, hkeys.len() as int)
    } else if fsm[lp].kind == FsNodeKind::Dir {
        match ev.kind {
            RawEventKind::ModifyName(m) => {
                if m == RenameMode::Both {
                    seq![
                        bare_event(
                            source_id,
                            base,
                            FileType::Dir,
                            SyncEventKind::Moved,
                            lp,
                            olp,
                            sp,
                            osp,
                            now,
                        ),
                    ]
                } else {
                    Seq::empty()
                }
            },
            RawEventKind::Create => files_under(
                source_id,
                base,
                fentries,
                lp,
                SyncEventKind::Created,
                now,
                fentries.len() as int,
            ),
            RawEventKind::Remove => seq![
                bare_event(
                    source_id,
                    base,
                    FileType::Dir,
                    SyncEventKind::Deleted,
                    lp,
                    olp,
                    sp,
                    osp,
                    now,
                ),
            ],
            _ => Seq::empty(),
        }
    } else {
        match ev.kind {
            RawEventKind::ModifyName(_) => seq![
                bare_event(
                    source_id,
                    base,
                    FileType::File,
                    SyncEventKind::Moved,
                    lp,
                    olp,
                    sp,
                    osp,
                    now,
                ),
            ],
            RawEventKind::ModifyData => seq![
                bare_event(
                    source_id,
                    base,
                    FileType::File,
                    SyncEventKind::Updated,
                    lp,
                    olp,
                    sp,
                    osp,
                    now,
                ),
            ],
            RawEventKind::ModifyOther => seq![
                bare_event(
                    source_id,
                    base,
                    FileType::File,
                    SyncEventKind::Updated,
                    lp,
                    olp,
                    sp,
                    osp,
                    now,
                ),
            ],
            RawEventKind::Create => seq![
                bare_event(
                    source_id,
                    base,
                    FileType::File,
                    SyncEventKind::Created,
                    lp,
                    olp,
                    sp,
                    osp,
                    now,
                ),
            ],
            RawEventKind::Remove => seq![
                bare_event(
                    source_id,
                    base,
                    FileType::File,
                    SyncEventKind::Deleted,
                    lp,
                    olp,
                    sp,
                    osp,
                    now,
                ),
            ],
            _ => Seq::empty(),
        }
    }
}

fn bare_event_exec(
    source_id: &String,
    base: &String,
    file_type: FileType,
    kind: SyncEventKind,
    local_path: String,
    old_local_path: String,
    sync_path: String,
    old_sync_path: String,
    now: i128,
) -> (r: SyncEvent)
    ensures
        r@ == bare_event(
            source_id@,
            base@,
            file_type,
            kind,
            local_path@,
            old_local_path@,
            sync_path@,
            old_sync_path@,
            now as int,
        ),
{
    SyncEvent {
        source_id: source_id.clone(),
        base: base.clone(),
        file_type,
        kind,
        local_path,
        old_local_path,
        sync_path,
        old_sync_path,
        update_hash: String::new(),
        size: 0,
        timestamp: now,
    }
}

/// Expands one coalesced notification into canonical sync events, against
/// the hash index of its watcher and the file-system snapshot taken when
/// the batch was drained. Every path the result can mention must lie under
/// the watcher base.
pub fn get_sync_events(
    config: &SherryConfigSourceJSON,
    result: &BasedDebounceEvent,
    hashes: &WatcherHashJSON,
    fs: &FsSnapshot,
    now: i128,
) -> (r: Vec<SyncEvent>)
    requires
        result.wf(),
        hashes.wf(),
        fs.wf(),
        is_prefix_of(norm_path(result@.base), norm_path(result@.paths.last())),
        is_prefix_of(norm_path(result@.base), norm_path(result@.paths[0])),
        forall|j: int|
            0 <= j < hashes.hashes.spec_len() ==> is_prefix_of(
                norm_path(result@.base),
                norm_path(#[trigger] hashes.hashes.spec_keys()[j]),
            ),
        forall|j: int|
            0 <= j < fs.nodes.spec_len() ==> is_prefix_of(
                norm_path(result@.base),
                norm_path(#[trigger] fs.nodes.spec_keys()[j]),
            ),
    ensures
        event_views(r@) == sync_events_of(
            config.id@,
            result@,
            hashes.hashes.spec_keys(),
            fs_entries(*fs),
            fs.as_map(),
            now as int,
        ),
{
    let plen = result.paths.len();
    let last_path = &result.paths[plen - 1];
    let first_path = &result.paths[0];
    proof {
        assert(result@.paths.last() == last_path@);
        assert(result@.paths[0] == first_path@);
    }
    let lp = normalize_path(last_path);
    let olp = normalize_path(first_path);
    let sp = get_sync_path(last_path, &result.base);
    let osp = get_sync_path(first_path, &result.base);

    let mut out: Vec<SyncEvent> = Vec::new();
    let node = fs.lookup(&lp);
    match node {
        Some(n) => {
            match n.kind {
                FsNodeKind::Symlink => {
                    proof {
                        assert(event_views(out@) =~= sync_events_of(
                            config.id@,
                            result@,
                            hashes.hashes.spec_keys(),
                            fs_entries(*fs),
                            fs.as_map(),
                            now as int,
                        ));
                    }
                },
                FsNodeKind::Dir => {
                    match result.kind {
                        RawEventKind::ModifyName(m) => {
                            let is_both = match m {
                                RenameMode::Both => true,
                                _ => false,
                            };
                            if is_both {
                                out.push(
                                    bare_event_exec(
                                        &config.id,
                                        &result.base,
                                        FileType::Dir,
                                        SyncEventKind::Moved,
                                        lp,
                                        olp,
                                        sp,
                                        osp,
                                        now,
                                    ),
                                );
                            }
                        },
                        RawEventKind::Create => {
                            let mut dir_prefix = lp.clone();
                            push_char(&mut dir_prefix, '/');
                            let ghost fes = fs_entries(*fs);
                            let fn_count = fs.nodes.len();
                            let mut j: usize = 0;
                            while j < fn_count
                                invariant
                                    0 <= j <= fn_count,
                                    fn_count == fs.nodes.spec_len(),
                                    fs.wf(),
                                    fes == fs_entries(*fs),
                                    dir_prefix@ == norm_path(result@.paths.last()).push('/'),
                                    forall|t: int|
                                        0 <= t < fs.nodes.spec_len() ==> is_prefix_of(
                                            norm_path(result@.base),
                                            norm_path(#[trigger] fs.nodes.spec_keys()[t]),
                                        ),
                                    event_views(out@) == files_under(
                                        config.id@,
                                        result@.base,
                                        fes,
                                        norm_path(result@.paths.last()),
                                        SyncEventKind::Created,
                                        now as int,
                                        j as int,
                                    ),
                                decreases fn_count - j,
                            {
                                let k = fs.nodes.key_at(j);
                                let v = fs.nodes.val_at(j);
                                let is_file = match v.kind {
                                    FsNodeKind::File => true,
                                    _ => false,
                                };
                                let ghost out0 = event_views(out@);
                                if is_file && starts_with_str(k, &dir_prefix) {
                                    proof {
                                        assert(fes[j as int] == (fs.nodes.spec_keys()[j as int],
                                        fs.nodes.entries@[j as int].1));
                                    }
                                    let ksync = get_sync_path(k, &result.base);
                                    out.push(
                                        bare_event_exec(
                                            &config.id,
                                            &result.base,
                                            FileType::File,
                                            SyncEventKind::Created,
                                            k.clone(),
                                            k.clone(),
                                            ksync.clone(),
                                            ksync,
                                            now,
                                        ),
                                    );
                                }
                                j += 1;
                                proof {
                                    assert(fes[j - 1] == (fs.nodes.spec_keys()[j - 1],
                                    fs.nodes.entries@[j - 1].1));
                                    assert(event_views(out@) =~= files_under(
                                        config.id@,
                                        result@.base,
                                        fes,
                                        norm_path(result@.paths.last()),
                                        SyncEventKind::Created,
                                        now as int,
                                        j as int,
                                    ));
                                }
                            }
                        },
                        RawEventKind::Remove => {
                            out.push(
                                bare_event_exec(
                                    &config.id,
                                    &result.base,
                                    FileType::Dir,
                                    SyncEventKind::Deleted,
                                    lp,
                                    olp,
                                    sp,
                                    osp,
                                    now,
                                ),
                            );
                        },
                        _ => {},
                    }
                },
                FsNodeKind::File => {
                    match result.kind {
                        RawEventKind::ModifyName(_) => {
                            out.push(
                                bare_event_exec(
                                    &config.id,
                                    &result.base,
                                    FileType::File,
                                    SyncEventKind::Moved,
                                    lp,
                                    olp,
                                    sp,
                                    osp,
                                    now,
                                ),
                            );
                        },
                        RawEventKind::ModifyData => {
                            out.push(
                                bare_event_exec(
                                    &config.id,
                                    &result.base,
                                    FileType::File,
                                    SyncEventKind::Updated,
                                    lp,
                                    olp,
                                    sp,
                                    osp,
                                    now,
                                ),
                            );
                        },
                        RawEventKind::ModifyOther => {
                            out.push(
                                bare_event_exec(
                                    &config.id,
                                    &result.base,
                                    FileType::File,
                                    SyncEventKind::Updated,
                                    lp,
                                    olp,
                                    sp,
                                    osp,
                                    now,
                                ),
                            );
                        },
                        RawEventKind::Create => {
                            out.push(
                                bare_event_exec(
                                    &config.id,
                                    &result.base,
                                    FileType::File,
                                    SyncEventKind::Created,
                                    lp,
                                    olp,
                                    sp,
                                    osp,
                                    now,
                                ),
                            );
                        },
                        RawEventKind::Remove => {
                            out.push(
                                bare_event_exec(
                                    &config.id,
                                    &result.base,
                                    FileType::File,
                                    SyncEventKind::Deleted,
                                    lp,
                                    olp,
                                    sp,
                                    osp,
                                    now,
                                ),
                            );
                        },
                        _ => {},
                    }
                },
            }
        },
        None => {
            let ghost hkeys = hashes.hashes.spec_keys();
            let hn = hashes.hashes.len();
            let mut j: usize = 0;
            while j < hn
                invariant
                    0 <= j <= hn,
                    hn == hashes.hashes.spec_len(),
                    hashes.wf(),
                    hkeys == hashes.hashes.spec_keys(),
                    lp@ == norm_path(result@.paths.last()),
                    forall|t: int|
                        0 <= t < hashes.hashes.spec_len() ==> is_prefix_of(
                            norm_path(result@.base),
                            norm_path(#[trigger] hashes.hashes.spec_keys()[t]),
                        ),
                    event_views(out@) == synth_deletes(
                        config.id@,
                        result@.base,
                        hkeys,
                        norm_path(result@.paths.last()),
                        now as int,
                        j as int,
                    ),
                decreases hn - j,
            {
                let k = hashes.hashes.key_at(j);
                let ghost out0 = event_views(out@);
                if starts_with_str(k, &lp) {
                    let ksync = get_sync_path(k, &result.base);
                    out.push(
                        bare_event_exec(
                            &config.id,
                            &result.base,
                            FileType::File,
                            SyncEventKind::Deleted,
                            k.clone(),
                            k.clone(),
                            ksync.clone(),
                            ksync,
                            now,
                        ),
                    );
                }
                j += 1;
                proof {
                    assert(event_views(out@) =~= synth_deletes(
                        config.id@,
                        result@.base,
                        hkeys,
                        norm_path(result@.paths.last()),
                        now as int,
                        j as int,
                    ));
                }
            }
        },
    }
    proof {
        assert(event_views(out@) =~= sync_events_of(
            config.id@,
            result@,
            hashes.hashes.spec_keys(),
            fs_entries(*fs),
            fs.as_map(),
            now as int,
        ));
    }
    out
}

/// The per-file events a path expands to when treated as `kind`: one for
/// a regular file, one per enclosed file for a directory, none otherwise.
pub open spec fn dir_file_events(
    source_id: Seq<char>,
    base: Seq<char>,
    fentries: Seq<(Seq<char>, FsNode)>,
    fsm: Map<Seq<char>, FsNode>,
    p: Seq<char>,
    kind: SyncEventKind,
    now: int,
) -> Seq<SyncEventV> {
    let np = norm_path(p);
    if fsm.contains_key(np) && fsm[np].kind == FsNodeKind::File {
        seq![
            bare_event(
                source_id,
                base,
                FileType::File,
                kind,
                np,
                np,
                sync_path_of(p, base),
                sync_path_of(p, base),
                now,
            ),
        ]
    } else if fsm.contains_key(np) && fsm[np].kind == FsNodeKind::Dir {
        files_under(source_id, base, fentries, np, kind, now, fentries.len() as int)
    } else {
        Seq::empty()
    }
}

/// Expands a path into per-file events of `kind`: the file itself, or
/// every regular file under the directory.
pub fn get_dir_file_events(
    config: &SherryConfigSourceJSON,
    path: &String,
    base: &String,
    kind: SyncEventKind,
    fs: &FsSnapshot,
    now: i128,
) -> (r: Vec<SyncEvent>)
    requires
        fs.wf(),
        is_prefix_of(norm_path(base@), norm_path(path@)),
        forall|j: int|
            0 <= j < fs.nodes.spec_len() ==> is_prefix_of(
                norm_path(base@),
                norm_path(#[trigger] fs.nodes.spec_keys()[j]),
            ),
    ensures
        event_views(r@) == dir_file_events(
            config.id@,
            base@,
            fs_entries(*fs),
            fs.as_map(),
            path@,
            kind,
            now as int,
        ),
{
    let np = normalize_path(path);
    let mut out: Vec<SyncEvent> = Vec::new();
    match fs.lookup(&np) {
        Some(n) => {
            match n.kind {
                FsNodeKind::File => {
                    let sp = get_sync_path(path, base);
                    out.push(
                        bare_event_exec(
                            &config.id,
                            base,
                            FileType::File,
                            kind,
                            np.clone(),
                            np,
                            sp.clone(),
                            sp,
                            now,
                        ),
                    );
                    proof {
                        assert(event_views(out@) =~= seq![
                            bare_event(
                                config.id@,
                                base@,
                                FileType::File,
                                kind,
                                norm_path(path@),
                                norm_path(path@),
                                sync_path_of(path@, base@),
                                sync_path_of(path@, base@),
                                now as int,
                            ),
                        ]);
                    }
                },
                FsNodeKind::Dir => {
                    let mut dir_prefix = np.clone();
                    push_char(&mut dir_prefix, '/');
                    let ghost fes = fs_entries(*fs);
                    let fn_count = fs.nodes.len();
                    let mut j: usize = 0;
                    while j < fn_count
                        invariant
                            0 <= j <= fn_count,
                            fn_count == fs.nodes.spec_len(),
                            fs.wf(),
                            fes == fs_entries(*fs),
                            dir_prefix@ == norm_path(path@).push('/'),
                            forall|t: int|
                                0 <= t < fs.nodes.spec_len() ==> is_prefix_of(
                                    norm_path(base@),
                                    norm_path(#[trigger] fs.nodes.spec_keys()[t]),
                                ),
                            event_views(out@) == files_under(
                                config.id@,
                                base@,
                                fes,
                                norm_path(path@),
                                kind,
                                now as int,
                                j as int,
                            ),
                        decreases fn_count - j,
                    {
                        let k = fs.nodes.key_at(j);
                        let v = fs.nodes.val_at(j);
                        let is_file = match v.kind {
                            FsNodeKind::File => true,
                            _ => false,
                        };
                        if is_file && starts_with_str(k, &dir_prefix) {
                            let ksync = get_sync_path(k, base);
                            out.push(
                                bare_event_exec(
                                    &config.id,
                                    base,
                                    FileType::File,
                                    kind,
                                    k.clone(),
                                    k.clone(),
                                    ksync.clone(),
                                    ksync,
                                    now,
                                ),
                            );
                        }
                        j += 1;
                        proof {
                            assert(fes[j - 1] == (fs.nodes.spec_keys()[j - 1], fs.nodes.entries@[j
                                - 1].1));
                            assert(event_views(out@) =~= files_under(
                                config.id@,
                                base@,
                                fes,
                                norm_path(path@),
                                kind,
                                now as int,
                                j as int,
                            ));
                        }
                    }
                },
                FsNodeKind::Symlink => {
                    proof {
                        assert(event_views(out@) =~= Seq::<SyncEventV>::empty());
                    }
                },
            }
        },
        None => {
            proof {
                assert(event_views(out@) =~= Seq::<SyncEventV>::empty());
            }
        },
    }
    proof {
        assert(event_views(out@) =~= dir_file_events(
            config.id@,
            base@,
            fs_entries(*fs),
            fs.as_map(),
            path@,
            kind,
            now as int,
        ));
    }
    out
}

} // verus!
