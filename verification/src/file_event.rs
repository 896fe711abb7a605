//! Sync events and the coalescer that turns raw file-system notifications
//! into a canonical batch.
//!
//! Raw notifications arrive noisy and out of order: a rename is two events,
//! an editor save is a remove followed by a create, and removes may be
//! contradicted by later activity on the same path. `minify_results` sorts
//! a batch by time and rewrites it into a canonical form.

use vstd::prelude::*;

use crate::strings::dec_int_of;
use crate::strings::i128_to_dec;
use crate::strings::u64_to_dec;
use crate::strings::dec_of;

verus! {

/// What a sync event does to its file.
#[derive(Clone, Copy, PartialEq, Eq, Structural, Debug)]
pub enum SyncEventKind {
    Created,
    Updated,
    Moved,
    Deleted,
}

/// Whether an event concerns a directory or a regular file.
#[derive(Clone, Copy, PartialEq, Eq, Structural, Debug)]
pub enum FileType {
    Dir,
    File,
}

/// One canonical change, addressed by sync path, ready for policy checks
/// and transport.
#[derive(Clone, Debug)]
pub struct SyncEvent {
    pub source_id: String,
    pub base: String,
    pub file_type: FileType,
    pub kind: SyncEventKind,
    pub local_path: String,
    pub old_local_path: String,
    pub sync_path: String,
    pub old_sync_path: String,
    pub update_hash: String,
    pub size: u64,
    pub timestamp: i128,
}

/// Ghost mirror of `SyncEvent`.
pub ghost struct SyncEventV {
    pub source_id: Seq<char>,
    pub base: Seq<char>,
    pub file_type: FileType,
    pub kind: SyncEventKind,
    pub local_path: Seq<char>,
    pub old_local_path: Seq<char>,
    pub sync_path: Seq<char>,
    pub old_sync_path: Seq<char>,
    pub update_hash: Seq<char>,
    pub size: u64,
    pub timestamp: int,
}

impl View for SyncEvent {
    type V = SyncEventV;

    open spec fn view(&self) -> SyncEventV {
        SyncEventV {
            source_id: self.source_id@,
            base: self.base@,
            file_type: self.file_type,
            kind: self.kind,
            local_path: self.local_path@,
            old_local_path: self.old_local_path@,
            sync_path: self.sync_path@,
            old_sync_path: self.old_sync_path@,
            update_hash: self.update_hash@,
            size: self.size,
            timestamp: self.timestamp as int,
        }
    }
}

impl SyncEvent {
    /// A field-by-field copy whose contents are known.
    pub fn duplicate(&self) -> (r: Self)
        ensures
            r@ == self@,
    {
        SyncEvent {
            source_id: self.source_id.clone(),
            base: self.base.clone(),
            file_type: self.file_type,
            kind: self.kind,
            local_path: self.local_path.clone(),
            old_local_path: self.old_local_path.clone(),
            sync_path: self.sync_path.clone(),
            old_sync_path: self.old_sync_path.clone(),
            update_hash: self.update_hash.clone(),
            size: self.size,
            timestamp: self.timestamp,
        }
    }
}

/// The views of a list of sync events.
pub open spec fn event_views(s: Seq<SyncEvent>) -> Seq<SyncEventV> {
    s.map_values(|e: SyncEvent| e@)
}

/// The rename phase a raw modify-name notification reports.
#[derive(Clone, Copy, PartialEq, Eq, Structural, Debug)]
pub enum RenameMode {
    Any,
    To,
    From,
    Both,
    Other,
}

/// The kind of a raw, debounced file-system notification.
#[derive(Clone, Copy, PartialEq, Eq, Structural, Debug)]
pub enum RawEventKind {
    Create,
    Remove,
    ModifyName(RenameMode),
    ModifyData,
    ModifyOther,
    Other,
}

impl RawEventKind {
    /// Whether this is a modify notification of any flavour.
    pub open spec fn is_modify(self) -> bool {
        match self {
            RawEventKind::ModifyName(_) => true,
            RawEventKind::ModifyData => true,
            RawEventKind::ModifyOther => true,
            _ => false,
        }
    }
}

/// A raw notification bound to the watcher base it came from: the kind, the
/// paths the OS reported (one, or two for a rename), and its timestamp in
/// milliseconds.
#[derive(Clone, Debug)]
pub struct BasedDebounceEvent {
    pub kind: RawEventKind,
    pub paths: Vec<String>,
    pub time: i128,
    pub base: String,
}

/// Ghost mirror of `BasedDebounceEvent`.
pub ghost struct BdeV {
    pub kind: RawEventKind,
    pub paths: Seq<Seq<char>>,
    pub time: int,
    pub base: Seq<char>,
}

impl View for BasedDebounceEvent {
    type V = BdeV;

    open spec fn view(&self) -> BdeV {
        BdeV {
            kind: self.kind,
            paths: self.paths@.map_values(|p: String| p@),
            time: self.time as int,
            base: self.base@,
        }
    }
}

impl BasedDebounceEvent {
    pub open spec fn wf(self) -> bool {
        self.paths@.len() >= 1
    }

    /// A field-by-field copy whose contents are known.
    pub fn duplicate(&self) -> (r: Self)
        ensures
            r@ == self@,
            r.paths@.len() == self.paths@.len(),
    {
        let mut paths: Vec<String> = Vec::new();
        let n = self.paths.len();
        let mut i: usize = 0;
        while i < n
            invariant
                0 <= i <= n,
                n == self.paths@.len(),
                paths@.len() == i,
                forall|j: int| 0 <= j < i ==> paths@[j]@ == self.paths@[j]@,
            decreases n - i,
        {
            paths.push(self.paths[i].clone());
            i += 1;
        }
        let r = BasedDebounceEvent {
            kind: self.kind,
            paths,
            time: self.time,
            base: self.base.clone(),
        };
        proof {
            assert(r@.paths =~= self@.paths);
        }
        r
    }
}

/// The views of a list of raw events.
pub open spec fn bde_views(s: Seq<BasedDebounceEvent>) -> Seq<BdeV> {
    s.map_values(|e: BasedDebounceEvent| e@)
}

pub open spec fn all_bde_wf(s: Seq<BasedDebounceEvent>) -> bool {
    forall|i: int| 0 <= i < s.len() ==> #[trigger] s[i].wf()
}

// ---------------------------------------------------------------------
// Sorting by timestamp
// ---------------------------------------------------------------------

/// The position where an element with timestamp `t` lands in the sorted
/// list `s`: after every element whose timestamp is at most `t`.
pub open spec fn ins_pos(s: Seq<BdeV>, t: int) -> int
    decreases s.len(),
{
    if s.len() == 0 {
        0
    } else if s[0].time <= t {
        1 + ins_pos(s.skip(1), t)
    } else {
        0
    }
}

proof fn lemma_ins_pos_bounds(s: Seq<BdeV>, t: int)
    ensures
        0 <= ins_pos(s, t) <= s.len(),
        forall|j: int| 0 <= j < ins_pos(s, t) ==> s[j].time <= t,
        ins_pos(s, t) < s.len() ==> s[ins_pos(s, t)].time > t,
    decreases s.len(),
{
    if s.len() > 0 && s[0].time <= t {
        lemma_ins_pos_bounds(s.skip(1), t);
        assert forall|j: int| 0 <= j < ins_pos(s, t) implies s[j].time <= t by {
            if j > 0 {
                assert(s.skip(1)[j - 1] == s[j]);
            }
        }
        if ins_pos(s, t) < s.len() {
            assert(s.skip(1)[ins_pos(s.skip(1), t)] == s[ins_pos(s, t)]);
        }
    }
}

proof fn lemma_ins_pos_unique(s: Seq<BdeV>, t: int, p: int)
    requires
        0 <= p <= s.len(),
        forall|j: int| 0 <= j < p ==> s[j].time <= t,
        p < s.len() ==> s[p].time > t,
    ensures
        ins_pos(s, t) == p,
    decreases s.len(),
{
    if s.len() > 0 {
        if p == 0 {
        } else {
            assert(s[0].time <= t);
            assert(forall|j: int| 0 <= j < s.skip(1).len() ==> s.skip(1)[j] == s[j + 1]);
            lemma_ins_pos_unique(s.skip(1), t, p - 1);
        }
    }
}

/// Insertion sort by timestamp: stable, so notifications with equal stamps
/// keep their arrival order.
pub open spec fn sorted_by_time(s: Seq<BdeV>) -> Seq<BdeV>
    decreases s.len(),
{
    if s.len() == 0 {
        Seq::empty()
    } else {
        let rest = sorted_by_time(s.drop_last());
        rest.insert(ins_pos(rest, s.last().time), s.last())
    }
}

/// Sorts a raw batch by timestamp (stable).
pub fn sort_by_time(events: &Vec<BasedDebounceEvent>) -> (r: Vec<BasedDebounceEvent>)
    ensures
        bde_views(r@) == sorted_by_time(bde_views(events@)),
        all_bde_wf(events@) ==> all_bde_wf(r@),
{
    let ghost sv = bde_views(events@);
    let mut out: Vec<BasedDebounceEvent> = Vec::new();
    let n = events.len();
    let mut i: usize = 0;
    while i < n
        invariant
            0 <= i <= n,
            n == events@.len(),
            sv == bde_views(events@),
            bde_views(out@) == sorted_by_time(sv.take(i as int)),
            all_bde_wf(events@) ==> all_bde_wf(out@),
        decreases n - i,
    {
        let e = events[i].duplicate();
        let t = e.time;
        let m = out.len();
        let mut p: usize = 0;
        while p < m && out[p].time <= t
            invariant
                0 <= p <= m,
                m == out@.len(),
                forall|j: int| 0 <= j < p ==> bde_views(out@)[j].time <= t as int,
            decreases m - p,
        {
            p += 1;
        }
        proof {
            lemma_ins_pos_unique(bde_views(out@), t as int, p as int);
        }
        let ghost out0 = bde_views(out@);
        let ghost outpre = out@;
        out.insert(p, e);
        proof {
            assert(bde_views(out@) =~= out0.insert(p as int, events@[i as int]@));
            assert(sv.take(i + 1).drop_last() =~= sv.take(i as int));
            assert(sv.take(i + 1).last() == sv[i as int]);
            assert(bde_views(out@) =~= sorted_by_time(sv.take(i + 1)));
            if all_bde_wf(events@) {
                assert(events@[i as int].wf());
                assert forall|j: int| 0 <= j < out@.len() implies #[trigger] out@[j].wf() by {
                    if j < p {
                        assert(out@[j] == outpre[j]);
                    } else if j > p {
                        assert(out@[j] == outpre[j - 1]);
                    } else {
                        assert(out@[j] == e);
                        assert(e.paths@.len() == events@[i as int].paths@.len());
                    }
                }
            }
        }
        i += 1;
    }
    proof {
        assert(sv.take(n as int) =~= sv);
    }
    out
}

// ---------------------------------------------------------------------
// The coalescer
// ---------------------------------------------------------------------

/// Whether the event at position `k` is a modify notification that touches
/// path `p` (by its last reported path), which proves the file still
/// exists and cancels a pending remove of `p`.
pub open spec fn modify_touches(e: BdeV, p: Seq<char>) -> bool {
    e.kind.is_modify() && e.paths.len() >= 1 && e.paths.last() == p
}

/// Whether a remove of path `p` is pending just before position `i` of the
/// sorted batch: some earlier remove of `p` has not been contradicted by a
/// later modify touching `p`.
pub open spec fn pending_remove_at(s: Seq<BdeV>, i: int, p: Seq<char>) -> bool {
    exists|j: int|
        0 <= j < i && (#[trigger] s[j].kind) == RawEventKind::Remove && s[j].paths.len() >= 1
            && s[j].paths[0] == p && (forall|k: int| j < k < i ==> !modify_touches(s[k], p))
}

/// The merged rename event for a from/to pair: both paths, the later
/// timestamp.
pub open spec fn merged_move(from: BdeV, to: BdeV) -> BdeV {
    BdeV {
        kind: RawEventKind::ModifyName(RenameMode::Both),
        paths: seq![from.paths[0], to.paths[0]],
        time: to.time,
        base: from.base,
    }
}

/// The save-replace rewrite of a create whose path had a pending remove.
pub open spec fn as_data_modify(e: BdeV) -> BdeV {
    BdeV { kind: RawEventKind::ModifyData, paths: e.paths, time: e.time, base: e.base }
}

/// What position `i` of the sorted batch contributes to the coalesced
/// output.
pub open spec fn emit_at(s: Seq<BdeV>, i: int) -> Seq<BdeV> {
    let e = s[i];
    match e.kind {
        RawEventKind::ModifyName(mode) => {
            if mode == RenameMode::From {
                if i + 1 < s.len() && s[i + 1].kind == RawEventKind::ModifyName(RenameMode::To)
                    && s[i + 1].paths.len() >= 1 && s[i + 1].paths[0] != e.paths[0] {
                    seq![merged_move(e, s[i + 1])]
                } else {
                    Seq::empty()
                }
            } else if mode == RenameMode::Both {
                seq![e]
            } else {
                Seq::empty()
            }
        },
        RawEventKind::ModifyData => seq![e],
        RawEventKind::ModifyOther => seq![e],
        RawEventKind::Create => {
            if pending_remove_at(s, i, e.paths[0]) {
                seq![as_data_modify(e)]
            } else {
                seq![e]
            }
        },
        _ => Seq::empty(),
    }
}

/// The concatenated contributions of the first `i` positions.
pub open spec fn emitted_prefix(s: Seq<BdeV>, i: int) -> Seq<BdeV>
    decreases i,
{
    if i <= 0 {
        Seq::empty()
    } else {
        emitted_prefix(s, i - 1).add(emit_at(s, i - 1))
    }
}

/// Whether position `j` holds a remove that is still standing at the end
/// of the batch: no later remove of the same path (which would supersede
/// it) and no later modify touching it.
pub open spec fn final_remove_at(s: Seq<BdeV>, j: int) -> bool {
    s[j].kind == RawEventKind::Remove && s[j].paths.len() >= 1 && (forall|k: int|
        j < k < s.len() ==> !((#[trigger] s[k].kind) == RawEventKind::Remove && s[k].paths.len()
            >= 1 && s[k].paths[0] == s[j].paths[0]) && !modify_touches(s[k], s[j].paths[0]))
}

/// The removes still standing among the first `j` positions, in order.
pub open spec fn final_removes_prefix(s: Seq<BdeV>, j: int) -> Seq<BdeV>
    decreases j,
{
    if j <= 0 {
        Seq::empty()
    } else if final_remove_at(s, j - 1) {
        final_removes_prefix(s, j - 1).push(s[j - 1])
    } else {
        final_removes_prefix(s, j - 1)
    }
}

/// The coalesced form of a raw batch: sort by time, rewrite pass, append
/// the surviving removes, sort again.
pub open spec fn minified(input: Seq<BdeV>) -> Seq<BdeV> {
    let s = sorted_by_time(input);
    sorted_by_time(
        emitted_prefix(s, s.len() as int).add(final_removes_prefix(s, s.len() as int)),
    )
}

/// Coalesces a raw batch: merges rename pairs into one move, rewrites an
/// editor save-replace (remove then create) into a data modify, drops
/// removes that a later modify contradicts, and keeps the rest, all in
/// timestamp order.
pub fn minify_results(results: &Vec<BasedDebounceEvent>) -> (r: Vec<BasedDebounceEvent>)
    requires
        all_bde_wf(results@),
    ensures
        bde_views(r@) == minified(bde_views(results@)),
        all_bde_wf(r@),
{
    let sorted = sort_by_time(results);
    let ghost s = bde_views(sorted@);
    let n = sorted.len();

    let mut kept: Vec<BasedDebounceEvent> = Vec::new();
    let mut i: usize = 0;
    while i < n
        invariant
            0 <= i <= n,
            n == sorted@.len(),
            s == bde_views(sorted@),
            all_bde_wf(sorted@),
            bde_views(kept@) == emitted_prefix(s, i as int),
            all_bde_wf(kept@),
        decreases n - i,
    {
        let ghost kept0 = bde_views(kept@);
        let e = &sorted[i];
        proof {
            assert(sorted@[i as int].wf());
        }
        match e.kind {
            RawEventKind::ModifyName(mode) => {
                match mode {
                    RenameMode::From => {
                        if i + 1 < n {
                            let next = &sorted[i + 1];
                            proof {
                                assert(sorted@[i + 1].wf());
                            }
                            let next_is_to = match next.kind {
                                RawEventKind::ModifyName(m2) => match m2 {
                                    RenameMode::To => true,
                                    _ => false,
                                },
                                _ => false,
                            };
                            if next_is_to && !crate::strings::str_eq(&next.paths[0], &e.paths[0]) {
                                let mut paths: Vec<String> = Vec::new();
                                paths.push(e.paths[0].clone());
                                paths.push(next.paths[0].clone());
                                let merged = BasedDebounceEvent {
                                    kind: RawEventKind::ModifyName(RenameMode::Both),
                                    paths,
                                    time: next.time,
                                    base: e.base.clone(),
                                };
                                proof {
                                    assert(merged@.paths =~= merged_move(s[i as int], s[i + 1]).paths);
                                    assert(merged@ == merged_move(s[i as int], s[i + 1]));
                                }
                                kept.push(merged);
                            }
                        }
                    },
                    RenameMode::Both => {
                        kept.push(e.duplicate());
                    },
                    _ => {},
                }
            },
            RawEventKind::ModifyData => {
                kept.push(e.duplicate());
            },
            RawEventKind::ModifyOther => {
                kept.push(e.duplicate());
            },
            RawEventKind::Create => {
                let pending = scan_pending_remove(&sorted, i, &e.paths[0]);
                if pending {
                    let rewritten = BasedDebounceEvent {
                        kind: RawEventKind::ModifyData,
                        paths: e.duplicate().paths,
                        time: e.time,
                        base: e.base.clone(),
                    };
                    proof {
                        assert(rewritten@.paths =~= s[i as int].paths);
                        assert(rewritten@ == as_data_modify(s[i as int]));
                    }
                    kept.push(rewritten);
                } else {
                    kept.push(e.duplicate());
                }
            },
            _ => {},
        }
        i += 1;
        proof {
            assert(bde_views(kept@) =~= kept0.add(emit_at(s, i - 1)));
        }
    }

    let mut j: usize = 0;
    while j < n
        invariant
            0 <= j <= n,
            n == sorted@.len(),
            s == bde_views(sorted@),
            all_bde_wf(sorted@),
            bde_views(kept@) == emitted_prefix(s, n as int).add(final_removes_prefix(s, j as int)),
            all_bde_wf(kept@),
        decreases n - j,
    {
        let ghost kept0 = bde_views(kept@);
        let still = scan_final_remove(&sorted, j);
        if still {
            kept.push(sorted[j].duplicate());
        }
        j += 1;
        proof {
            if still {
                assert(final_remove_at(s, j - 1));
                assert(bde_views(kept@) =~= kept0.push(s[j - 1]));
                assert(final_removes_prefix(s, j as int) == final_removes_prefix(
                    s,
                    j - 1,
                ).push(s[j - 1]));
            } else {
                assert(bde_views(kept@) =~= kept0);
                assert(final_removes_prefix(s, j as int) == final_removes_prefix(s, j - 1));
            }
            assert(bde_views(kept@) =~= emitted_prefix(s, n as int).add(
                final_removes_prefix(s, j as int),
            ));
        }
    }

    let r = sort_by_time(&kept);
    r
}

/// Scans backwards for a pending remove of `p` before position `i`.
fn scan_pending_remove(sorted: &Vec<BasedDebounceEvent>, i: usize, p: &String) -> (r: bool)
    requires
        all_bde_wf(sorted@),
        i < sorted@.len(),
    ensures
        r == pending_remove_at(bde_views(sorted@), i as int, p@),
{
    let ghost s = bde_views(sorted@);
    let mut k: usize = i;
    while k > 0
        invariant
            0 <= k <= i < sorted@.len(),
            s == bde_views(sorted@),
            all_bde_wf(sorted@),
            forall|m: int| k <= m < i ==> !modify_touches(s[m], p@) && !((#[trigger] s[m].kind)
                == RawEventKind::Remove && s[m].paths[0] == p@),
        decreases k,
    {
        k -= 1;
        let e = &sorted[k];
        proof {
            assert(sorted@[k as int].wf());
        }
        let is_remove = match e.kind {
            RawEventKind::Remove => true,
            _ => false,
        };
        if is_remove && crate::strings::str_eq(&e.paths[0], p) {
            proof {
                assert(s[k as int].kind == RawEventKind::Remove && s[k as int].paths[0] == p@);
                assert(forall|m: int| k < m < i ==> !modify_touches(s[m], p@));
            }
            return true;
        }
        let last_idx = e.paths.len() - 1;
        let is_modify = match e.kind {
            RawEventKind::ModifyName(_) => true,
            RawEventKind::ModifyData => true,
            RawEventKind::ModifyOther => true,
            _ => false,
        };
        if is_modify && crate::strings::str_eq(&e.paths[last_idx], p) {
            proof {
                assert(modify_touches(s[k as int], p@));
                assert forall|j: int|
                    0 <= j < i && (#[trigger] s[j].kind) == RawEventKind::Remove && s[j].paths.len()
                        >= 1 && s[j].paths[0] == p@ implies !(forall|m: int|
                    j < m < i ==> !modify_touches(s[m], p@)) by {
                    if j < k as int {
                        assert(modify_touches(s[k as int], p@));
                    } else {
                        assert(!((#[trigger] s[j].kind) == RawEventKind::Remove && s[j].paths[0]
                            == p@));
                    }
                }
            }
            return false;
        }
    }
    proof {
        if pending_remove_at(s, i as int, p@) {
            let j = choose|j: int|
                0 <= j < i && (#[trigger] s[j].kind) == RawEventKind::Remove && s[j].paths.len()
                    >= 1 && s[j].paths[0] == p@ && (forall|m: int|
                    j < m < i ==> !modify_touches(s[m], p@));
            assert(false);
        }
    }
    false
}

/// Scans forward to see whether the remove at position `j` still stands at
/// the end of the batch.
fn scan_final_remove(sorted: &Vec<BasedDebounceEvent>, j: usize) -> (r: bool)
    requires
        all_bde_wf(sorted@),
        j < sorted@.len(),
    ensures
        r == final_remove_at(bde_views(sorted@), j as int),
{
    let ghost s = bde_views(sorted@);
    let e = &sorted[j];
    proof {
        assert(sorted@[j as int].wf());
    }
    let is_remove = match e.kind {
        RawEventKind::Remove => true,
        _ => false,
    };
    if !is_remove {
        return false;
    }
    let p = &e.paths[0];
    proof {
        assert(p@ == s[j as int].paths[0]);
    }
    let n = sorted.len();
    let mut k: usize = j + 1;
    while k < n
        invariant
            j < k <= n,
            n == sorted@.len(),
            s == bde_views(sorted@),
            all_bde_wf(sorted@),
            s[j as int].kind == RawEventKind::Remove,
            p@ == s[j as int].paths[0],
            forall|m: int|
                j < m < k ==> !((#[trigger] s[m].kind) == RawEventKind::Remove && s[m].paths.len()
                    >= 1 && s[m].paths[0] == s[j as int].paths[0]) && !modify_touches(
                    s[m],
                    s[j as int].paths[0],
                ),
        decreases n - k,
    {
        let c = &sorted[k];
        proof {
            assert(sorted@[k as int].wf());
        }
        let c_is_remove = match c.kind {
            RawEventKind::Remove => true,
            _ => false,
        };
        if c_is_remove && crate::strings::str_eq(&c.paths[0], p) {
            proof {
                assert((s[k as int].kind) == RawEventKind::Remove && s[k as int].paths.len() >= 1
                    && s[k as int].paths[0] == s[j as int].paths[0]);
            }
            return false;
        }
        let c_is_modify = match c.kind {
            RawEventKind::ModifyName(_) => true,
            RawEventKind::ModifyData => true,
            RawEventKind::ModifyOther => true,
            _ => false,
        };
        let last_idx = c.paths.len() - 1;
        if c_is_modify && crate::strings::str_eq(&c.paths[last_idx], p) {
            proof {
                assert(s[k as int].paths.last() == s[j as int].paths[0]);
                assert(modify_touches(s[k as int], s[j as int].paths[0]));
            }
            return false;
        }
        k += 1;
    }
    true
}

// ---------------------------------------------------------------------
// Rendering events as log lines
// ---------------------------------------------------------------------

/// The wire and log word for an event kind.
pub open spec fn kind_word(k: SyncEventKind) -> Seq<char> {
    match k {
        SyncEventKind::Created => "CREATED"@,
        SyncEventKind::Updated => "UPDATED"@,
        SyncEventKind::Moved => "MOVED"@,
        SyncEventKind::Deleted => "DELETED"@,
    }
}

/// The wire and log word for a file type.
pub open spec fn file_type_word(t: FileType) -> Seq<char> {
    match t {
        FileType::Dir => "DIR"@,
        FileType::File => "FILE"@,
    }
}

/// Renders an event kind for the wire.
pub fn kind_str(k: SyncEventKind) -> (r: String)
    ensures
        r@ == kind_word(k),
{
    match k {
        SyncEventKind::Created => "CREATED".to_owned(),
        SyncEventKind::Updated => "UPDATED".to_owned(),
        SyncEventKind::Moved => "MOVED".to_owned(),
        SyncEventKind::Deleted => "DELETED".to_owned(),
    }
}

/// Renders a file type for the wire.
pub fn file_type_str(t: FileType) -> (r: String)
    ensures
        r@ == file_type_word(t),
{
    match t {
        FileType::Dir => "DIR".to_owned(),
        FileType::File => "FILE".to_owned(),
    }
}

/// The one-line description of an event used in the log.
pub open spec fn event_line(e: SyncEventV) -> Seq<char> {
    "  "@ + kind_word(e.kind) + " "@ + file_type_word(e.file_type) + " "@ + e.sync_path + " <- "@
        + e.old_sync_path + " hash="@ + e.update_hash + " size="@ + dec_of(e.size as nat) + " ts="@
        + dec_int_of(e.timestamp)
}

fn render_event_line(e: &SyncEvent) -> (r: String)
    requires
        e.timestamp != -0x80000000000000000000000000000000i128,
    ensures
        r@ == event_line(e@),
{
    let mut s = "  ".to_owned();
    s.append(kind_str(e.kind).as_str());
    s.append(" ");
    s.append(file_type_str(e.file_type).as_str());
    s.append(" ");
    s.append(e.sync_path.as_str());
    s.append(" <- ");
    s.append(e.old_sync_path.as_str());
    s.append(" hash=");
    s.append(e.update_hash.as_str());
    s.append(" size=");
    s.append(u64_to_dec(e.size).as_str());
    s.append(" ts=");
    s.append(i128_to_dec(e.timestamp).as_str());
    proof {
        assert(s@ =~= event_line(e@));
    }
    s
}

/// The log lines for a named batch: a header, one line per event, and a
/// closing bracket.
pub open spec fn event_log_lines(name: Seq<char>, events: Seq<SyncEventV>) -> Seq<Seq<char>> {
    seq![name + " ["@].add(events.map_values(|e: SyncEventV| event_line(e))).push("]"@)
}

/// Renders a batch of events as log lines for the caller's sink.
pub fn log_events(name: &str, events: &Vec<SyncEvent>) -> (r: Vec<String>)
    requires
        forall|i: int|
            0 <= i < events@.len() ==> (#[trigger] events@[i]).timestamp
                != -0x80000000000000000000000000000000i128,
    ensures
        r@.map_values(|l: String| l@) == event_log_lines(name@, event_views(events@)),
{
    let mut out: Vec<String> = Vec::new();
    let mut header = name.to_owned();
    header.append(" [");
    out.push(header);
    let n = events.len();
    let mut i: usize = 0;
    while i < n
        invariant
            0 <= i <= n,
            n == events@.len(),
            forall|k: int|
                0 <= k < events@.len() ==> (#[trigger] events@[k]).timestamp
                    != -0x80000000000000000000000000000000i128,
            out@.len() == i + 1,
            out@[0]@ == name@ + " ["@,
            forall|k: int| 0 <= k < i ==> out@[k + 1]@ == event_line(events@[k]@),
        decreases n - i,
    {
        out.push(render_event_line(&events[i]));
        i += 1;
    }
    out.push("]".to_owned());
    proof {
        assert(out@.map_values(|l: String| l@) =~= event_log_lines(name@, event_views(events@)));
    }
    out
}

/// Renders a batch of events as log lines; companion of `log_events` for
/// sinks that print rather than log.
pub fn print_events(name: &str, events: &Vec<SyncEvent>) -> (r: Vec<String>)
    requires
        forall|i: int|
            0 <= i < events@.len() ==> (#[trigger] events@[i]).timestamp
                != -0x80000000000000000000000000000000i128,
    ensures
        r@.map_values(|l: String| l@) == event_log_lines(name@, event_views(events@)),
{
    log_events(name, events)
}

} // verus!
