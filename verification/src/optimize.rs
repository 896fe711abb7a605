//! The event optimizer: collapses each file's lifetime of events to a
//! minimal equivalent set.
//!
//! Events are grouped into lifetime chains (paths linked through moves),
//! each chain is sorted by time, and adjacent pairs are rewritten until
//! the chain stops shrinking.

use vstd::prelude::*;

use crate::file_event::SyncEvent;
use crate::file_event::SyncEventKind;
use crate::file_event::SyncEventV;
use crate::file_event::event_views;

verus! {

// ---------------------------------------------------------------------
// The pairwise rewriter
// ---------------------------------------------------------------------

/// The rewrite of two adjacent events of one file lifetime, `a` before `b`.
pub open spec fn resolved_pair(a: SyncEventV, b: SyncEventV) -> Seq<SyncEventV> {
    match a.kind {
        SyncEventKind::Deleted => seq![b],
        SyncEventKind::Created => match b.kind {
            SyncEventKind::Created => seq![SyncEventV { kind: SyncEventKind::Created, ..b }],
            SyncEventKind::Updated => seq![SyncEventV { kind: SyncEventKind::Created, ..b }],
            SyncEventKind::Deleted => seq![b],
            SyncEventKind::Moved => seq![
                SyncEventV {
                    kind: SyncEventKind::Created,
                    old_sync_path: b.sync_path,
                    update_hash: a.update_hash,
                    size: a.size,
                    ..b
                },
            ],
        },
        SyncEventKind::Updated => match b.kind {
            SyncEventKind::Created => seq![SyncEventV { kind: SyncEventKind::Updated, ..b }],
            SyncEventKind::Updated => seq![SyncEventV { kind: SyncEventKind::Updated, ..b }],
            SyncEventKind::Deleted => seq![b],
            SyncEventKind::Moved => seq![
                SyncEventV { kind: SyncEventKind::Deleted, ..a },
                SyncEventV {
                    kind: SyncEventKind::Created,
                    update_hash: a.update_hash,
                    size: a.size,
                    ..b
                },
            ],
        },
        SyncEventKind::Moved => match b.kind {
            SyncEventKind::Deleted => seq![
                SyncEventV { kind: SyncEventKind::Deleted, sync_path: a.old_sync_path, ..a },
                b,
            ],
            SyncEventKind::Moved => {
                if a.old_sync_path == b.sync_path {
                    Seq::empty()
                } else {
                    seq![SyncEventV { old_sync_path: a.old_sync_path, ..b }]
                }
            },
            _ => seq![
                SyncEventV { kind: SyncEventKind::Deleted, sync_path: a.old_sync_path, ..a },
                SyncEventV {
                    kind: SyncEventKind::Created,
                    update_hash: a.update_hash,
                    size: a.size,
                    ..b
                },
            ],
        },
    }
}

/// Rewrites one adjacent pair of a lifetime chain, `a` before `b`: a
/// delete forgets what came before it, creates and updates collapse, a
/// move folds into a delete of its origin and a create of its target, and
/// a move cycle cancels.
pub fn resolve_event_pair(a: &SyncEvent, b: &SyncEvent) -> (r: Vec<SyncEvent>)
    ensures
        event_views(r@) == resolved_pair(a@, b@),
        r@.len() <= 2,
{
    let mut out: Vec<SyncEvent> = Vec::new();
    match a.kind {
        SyncEventKind::Deleted => {
            out.push(b.duplicate());
        },
        SyncEventKind::Created => {
            match b.kind {
                SyncEventKind::Created | SyncEventKind::Updated => {
                    let mut e = b.duplicate();
                    e.kind = SyncEventKind::Created;
                    out.push(e);
                },
                SyncEventKind::Deleted => {
                    out.push(b.duplicate());
                },
                SyncEventKind::Moved => {
                    let mut e = b.duplicate();
                    e.kind = SyncEventKind::Created;
                    e.old_sync_path = b.sync_path.clone();
                    e.update_hash = a.update_hash.clone();
                    e.size = a.size;
                    out.push(e);
                },
            }
        },
        SyncEventKind::Updated => {
            match b.kind {
                SyncEventKind::Created | SyncEventKind::Updated => {
                    let mut e = b.duplicate();
                    e.kind = SyncEventKind::Updated;
                    out.push(e);
                },
                SyncEventKind::Deleted => {
                    out.push(b.duplicate());
                },
                SyncEventKind::Moved => {
                    let mut d = a.duplicate();
                    d.kind = SyncEventKind::Deleted;
                    out.push(d);
                    let mut c = b.duplicate();
                    c.kind = SyncEventKind::Created;
                    c.update_hash = a.update_hash.clone();
                    c.size = a.size;
                    out.push(c);
                },
            }
        },
        SyncEventKind::Moved => {
            match b.kind {
                SyncEventKind::Created | SyncEventKind::Updated => {
                    let mut d = a.duplicate();
                    d.kind = SyncEventKind::Deleted;
                    d.sync_path = a.old_sync_path.clone();
                    out.push(d);
                    let mut c = b.duplicate();
                    c.kind = SyncEventKind::Created;
                    c.update_hash = a.update_hash.clone();
                    c.size = a.size;
                    out.push(c);
                },
                SyncEventKind::Deleted => {
                    let mut d = a.duplicate();
                    d.kind = SyncEventKind::Deleted;
                    d.sync_path = a.old_sync_path.clone();
                    out.push(d);
                    out.push(b.duplicate());
                },
                SyncEventKind::Moved => {
                    if !crate::strings::str_eq(&a.old_sync_path, &b.sync_path) {
                        let mut e = b.duplicate();
                        e.old_sync_path = a.old_sync_path.clone();
                        out.push(e);
                    }
                },
            }
        },
    }
    proof {
        assert(event_views(out@) =~= resolved_pair(a@, b@));
    }
    out
}

// ---------------------------------------------------------------------
// Sorting sync events by timestamp
// ---------------------------------------------------------------------

/// The position where an event with timestamp `t` lands in the sorted
/// chain `s`: after every event stamped at most `t`.
pub open spec fn ev_ins_pos(s: Seq<SyncEventV>, t: int) -> int
    decreases s.len(),
{
    if s.len() == 0 {
        0
    } else if s[0].timestamp <= t {
        1 + ev_ins_pos(s.skip(1), t)
    } else {
        0
    }
}

proof fn lemma_ev_ins_pos_unique(s: Seq<SyncEventV>, t: int, p: int)
    requires
        0 <= p <= s.len(),
        forall|j: int| 0 <= j < p ==> s[j].timestamp <= t,
        p < s.len() ==> s[p].timestamp > t,
    ensures
        ev_ins_pos(s, t) == p,
    decreases s.len(),
{
    if s.len() > 0 {
        if p == 0 {
        } else {
            assert(s[0].timestamp <= t);
            assert(forall|j: int| 0 <= j < s.skip(1).len() ==> s.skip(1)[j] == s[j + 1]);
            lemma_ev_ins_pos_unique(s.skip(1), t, p - 1);
        }
    }
}

/// Insertion sort of a lifetime chain by timestamp (stable).
pub open spec fn ev_sorted_by_time(s: Seq<SyncEventV>) -> Seq<SyncEventV>
    decreases s.len(),
{
    if s.len() == 0 {
        Seq::empty()
    } else {
        let rest = ev_sorted_by_time(s.drop_last());
        rest.insert(ev_ins_pos(rest, s.last().timestamp), s.last())
    }
}

/// Sorts a lifetime chain by timestamp (stable).
pub fn sort_events_by_time(events: Vec<SyncEvent>) -> (r: Vec<SyncEvent>)
    ensures
        event_views(r@) == ev_sorted_by_time(event_views(events@)),
{
    let ghost sv = event_views(events@);
    let mut out: Vec<SyncEvent> = Vec::new();
    let n = events.len();
    let mut i: usize = 0;
    while i < n
        invariant
            0 <= i <= n,
            n == events@.len(),
            sv == event_views(events@),
            event_views(out@) == ev_sorted_by_time(sv.take(i as int)),
        decreases n - i,
    {
        let e = events[i].duplicate();
        let t = e.timestamp;
        let m = out.len();
        let mut p: usize = 0;
        while p < m && out[p].timestamp <= t
            invariant
                0 <= p <= m,
                m == out@.len(),
                forall|j: int| 0 <= j < p ==> event_views(out@)[j].timestamp <= t as int,
            decreases m - p,
        {
            p += 1;
        }
        proof {
            lemma_ev_ins_pos_unique(event_views(out@), t as int, p as int);
        }
        let ghost out0 = event_views(out@);
        out.insert(p, e);
        proof {
            assert(event_views(out@) =~= out0.insert(p as int, events@[i as int]@));
            assert(sv.take(i + 1).drop_last() =~= sv.take(i as int));
            assert(sv.take(i + 1).last() == sv[i as int]);
            assert(event_views(out@) =~= ev_sorted_by_time(sv.take(i + 1)));
        }
        i += 1;
    }
    proof {
        assert(sv.take(n as int) =~= sv);
    }
    out
}

// ---------------------------------------------------------------------
// Lifetime chains
// ---------------------------------------------------------------------

/// One file lifetime under construction: the path it was first seen
/// under, its events, and the path a move sent it to.
pub struct Lifetime {
    pub key: String,
    pub events: Vec<SyncEvent>,
    pub next: Option<String>,
}

/// Ghost mirror of `Lifetime`.
pub ghost struct LifetimeV {
    pub key: Seq<char>,
    pub events: Seq<SyncEventV>,
    pub next: Option<Seq<char>>,
}

impl View for Lifetime {
    type V = LifetimeV;

    open spec fn view(&self) -> LifetimeV {
        LifetimeV {
            key: self.key@,
            events: event_views(self.events@),
            next: match self.next {
                Some(ref n) => Some(n@),
                None => None,
            },
        }
    }
}

/// The views of a lifetime list.
pub open spec fn lt_views(s: Seq<Lifetime>) -> Seq<LifetimeV> {
    s.map_values(|l: Lifetime| l@)
}

/// The first lifetime keyed `k`, or -1.
pub open spec fn lt_find(ls: Seq<LifetimeV>, k: Seq<char>) -> int
    decreases ls.len(),
{
    if ls.len() == 0 {
        -1
    } else if ls[0].key == k {
        0
    } else {
        let r = lt_find(ls.skip(1), k);
        if r == -1 {
            -1
        } else {
            1 + r
        }
    }
}

proof fn lemma_lt_find_none(ls: Seq<LifetimeV>, k: Seq<char>)
    requires
        forall|j: int| 0 <= j < ls.len() ==> (#[trigger] ls[j]).key != k,
    ensures
        lt_find(ls, k) == -1,
    decreases ls.len(),
{
    if ls.len() > 0 {
        assert(forall|j: int| 0 <= j < ls.skip(1).len() ==> ls.skip(1)[j] == ls[j + 1]);
        lemma_lt_find_none(ls.skip(1), k);
    }
}

proof fn lemma_lt_find_at(ls: Seq<LifetimeV>, k: Seq<char>, p: int)
    requires
        0 <= p < ls.len(),
        ls[p].key == k,
        forall|j: int| 0 <= j < p ==> (#[trigger] ls[j]).key != k,
    ensures
        lt_find(ls, k) == p,
    decreases ls.len(),
{
    if p > 0 {
        assert(forall|j: int| 0 <= j < ls.skip(1).len() ==> ls.skip(1)[j] == ls[j + 1]);
        lemma_lt_find_at(ls.skip(1), k, p - 1);
    }
}

/// Adds one event to the lifetime list: appended to the lifetime first
/// seen under the event's old sync path, or opening a new one; a move
/// records where the file went.
pub open spec fn lt_step(ls: Seq<LifetimeV>, e: SyncEventV) -> Seq<LifetimeV> {
    let idx = lt_find(ls, e.old_sync_path);
    let nxt = if e.kind == SyncEventKind::Moved {
        Some(e.sync_path)
    } else {
        Option::<Seq<char>>::None
    };
    if idx == -1 {
        ls.push(LifetimeV { key: e.old_sync_path, events: seq![e], next: nxt })
    } else {
        ls.update(
            idx,
            LifetimeV {
                key: ls[idx].key,
                events: ls[idx].events.push(e),
                next: if e.kind == SyncEventKind::Moved {
                    Some(e.sync_path)
                } else {
                    ls[idx].next
                },
            },
        )
    }
}

/// The lifetime list after the first `i` events.
pub open spec fn built_lifetimes(events: Seq<SyncEventV>, i: int) -> Seq<LifetimeV>
    decreases i,
{
    if i <= 0 {
        Seq::empty()
    } else {
        lt_step(built_lifetimes(events, i - 1), events[i - 1])
    }
}

/// Whether some lifetime moved its file to path `k`.
pub open spec fn is_move_target(ls: Seq<LifetimeV>, k: Seq<char>) -> bool {
    exists|j: int| 0 <= j < ls.len() && (#[trigger] ls[j]).next == Some(k)
}

/// The processing order of the chain heads: keys nobody moves to go to the
/// front, move targets to the back.
pub open spec fn keys_order(ls: Seq<LifetimeV>, i: int) -> Seq<Seq<char>>
    decreases i,
{
    if i <= 0 {
        Seq::empty()
    } else {
        let acc = keys_order(ls, i - 1);
        let k = ls[i - 1].key;
        if is_move_target(ls, k) {
            acc.push(k)
        } else {
            seq![k].add(acc)
        }
    }
}

/// Collects the chain starting at `key`: removes the lifetime, follows its
/// move links while they lead to lifetimes still present, and concatenates
/// their events.
pub open spec fn chain_collect(rem: Seq<LifetimeV>, key: Seq<char>) -> (Seq<LifetimeV>, Seq<
    SyncEventV,
>)
    decreases rem.len(),
{
    let idx = lt_find(rem, key);
    if idx < 0 || idx >= rem.len() {
        (rem, Seq::empty())
    } else {
        let lt = rem[idx];
        let rem2 = rem.remove(idx);
        match lt.next {
            Option::None => (rem2, lt.events),
            Option::Some(nk) => {
                let r = chain_collect(rem2, nk);
                (r.0, lt.events.add(r.1))
            },
        }
    }
}

proof fn lemma_lt_find_in_range(ls: Seq<LifetimeV>, k: Seq<char>)
    ensures
        lt_find(ls, k) == -1 || (0 <= lt_find(ls, k) < ls.len() && ls[lt_find(ls, k)].key == k),
    decreases ls.len(),
{
    if ls.len() > 0 && ls[0].key != k {
        lemma_lt_find_in_range(ls.skip(1), k);
        if lt_find(ls.skip(1), k) != -1 {
            assert(ls.skip(1)[lt_find(ls.skip(1), k)] == ls[lt_find(ls, k)]);
        }
    }
}

// ---------------------------------------------------------------------
// The reduction loops
// ---------------------------------------------------------------------

/// One rewriting pass over a chain from position `start`: rewrites the
/// adjacent pair at `start`, steps past both replacements when the pair
/// did not shrink, and stops when fewer than two events remain ahead.
pub open spec fn reduce_pass(evs: Seq<SyncEventV>, start: int) -> Seq<SyncEventV>
    decreases evs.len() - start
        when 0 <= start
{
    if start < 0 || start + 2 > evs.len() {
        evs
    } else {
        let r = resolved_pair(evs[start], evs[start + 1]);
        let evs2 = evs.take(start).add(r).add(evs.skip(start + 2));
        let start2 = if r.len() > 1 {
            start + r.len() - 1
        } else {
            start
        };
        reduce_pass(evs2, start2)
    }
}

proof fn lemma_reduce_pass_len(evs: Seq<SyncEventV>, start: int)
    requires
        0 <= start,
    ensures
        reduce_pass(evs, start).len() <= evs.len(),
    decreases evs.len() - start,
{
    if start + 2 <= evs.len() {
        let r = resolved_pair(evs[start], evs[start + 1]);
        let evs2 = evs.take(start).add(r).add(evs.skip(start + 2));
        let start2 = if r.len() > 1 {
            start + r.len() - 1
        } else {
            start
        };
        lemma_reduce_pass_len(evs2, start2);
    }
}

/// Rewriting passes run until the chain stops shrinking.
pub open spec fn reduce_chain(evs: Seq<SyncEventV>) -> Seq<SyncEventV>
    decreases evs.len(),
{
    let p = reduce_pass(evs, 0);
    if p.len() >= evs.len() {
        p
    } else {
        reduce_chain(p)
    }
}

/// The optimized output: chains consumed in `keys` order, each sorted by
/// time and reduced.
pub open spec fn optimize_loop(
    rem: Seq<LifetimeV>,
    keys: Seq<Seq<char>>,
    ki: int,
    out: Seq<SyncEventV>,
) -> Seq<SyncEventV>
    decreases keys.len() - ki,
{
    if ki < 0 || ki >= keys.len() {
        out
    } else {
        let r = chain_collect(rem, keys[ki]);
        optimize_loop(r.0, keys, ki + 1, out.add(reduce_chain(ev_sorted_by_time(r.1))))
    }
}

/// What the optimizer returns for a batch.
pub open spec fn optimized(events: Seq<SyncEventV>) -> Seq<SyncEventV> {
    let ls = built_lifetimes(events, events.len() as int);
    let keys = keys_order(ls, ls.len() as int);
    optimize_loop(ls, keys, 0, Seq::empty())
}

fn find_lifetime(ls: &Vec<Lifetime>, k: &String) -> (r: Option<usize>)
    ensures
        match r {
            Some(i) => 0 <= i < ls@.len() && lt_find(lt_views(ls@), k@) == i as int,
            None => lt_find(lt_views(ls@), k@) == -1,
        },
{
    let n = ls.len();
    let mut i: usize = 0;
    while i < n
        invariant
            0 <= i <= n,
            n == ls@.len(),
            forall|j: int| 0 <= j < i ==> (#[trigger] lt_views(ls@)[j]).key != k@,
        decreases n - i,
    {
        if crate::strings::str_eq(&ls[i].key, k) {
            proof {
                lemma_lt_find_at(lt_views(ls@), k@, i as int);
            }
            return Some(i);
        }
        i += 1;
    }
    proof {
        lemma_lt_find_none(lt_views(ls@), k@);
    }
    None
}

/// Collects the chain starting at `key` out of the working lifetime list.
fn collect_chain(rem: &mut Vec<Lifetime>, key: &String) -> (evs: Vec<SyncEvent>)
    ensures
        lt_views(final(rem)@) == chain_collect(lt_views(old(rem)@), key@).0,
        event_views(evs@) == chain_collect(lt_views(old(rem)@), key@).1,
    decreases old(rem)@.len(),
{
    proof {
        lemma_lt_find_in_range(lt_views(rem@), key@);
    }
    let found = find_lifetime(rem, key);
    match found {
        None => Vec::new(),
        Some(idx) => {
            let lt = rem.remove(idx);
            proof {
                assert(lt_views(rem@) =~= lt_views(old(rem)@).remove(idx as int));
            }
            match lt.next {
                None => lt.events,
                Some(nk) => {
                    let mut evs = lt.events;
                    let ghost evs0 = event_views(evs@);
                    let mut more = collect_chain(rem, &nk);
                    let ghost morev = event_views(more@);
                    evs.append(&mut more);
                    proof {
                        assert(event_views(evs@) =~= evs0.add(morev));
                    }
                    evs
                },
            }
        },
    }
}

/// Optimizes a batch of sync events: groups them into per-file lifetime
/// chains linked through moves, sorts each chain by time, and rewrites
/// adjacent pairs until no pass shrinks the chain further.
pub fn optimize_events(events: &Vec<SyncEvent>) -> (r: Vec<SyncEvent>)
    ensures
        event_views(r@) == optimized(event_views(events@)),
{
    let ghost ev = event_views(events@);
    let n = events.len();

    // group into lifetimes
    let mut lifetimes: Vec<Lifetime> = Vec::new();
    let mut i: usize = 0;
    while i < n
        invariant
            0 <= i <= n,
            n == events@.len(),
            ev == event_views(events@),
            lt_views(lifetimes@) == built_lifetimes(ev, i as int),
        decreases n - i,
    {
        let e = &events[i];
        let ghost ls0 = lt_views(lifetimes@);
        let found = find_lifetime(&lifetimes, &e.old_sync_path);
        match found {
            Some(idx) => {
                let ghost pre = lifetimes@;
                let mut lt = lifetimes.remove(idx);
                lt.events.push(e.duplicate());
                match e.kind {
                    SyncEventKind::Moved => {
                        lt.next = Some(e.sync_path.clone());
                    },
                    _ => {},
                }
                let ghost ltv = lt@;
                lifetimes.insert(idx, lt);
                proof {
                    let stepped = lt_step(ls0, ev[i as int]);
                    assert(ltv.events =~= ls0[idx as int].events.push(ev[i as int]));
                    assert(ltv == stepped[idx as int]);
                    assert forall|j: int|
                        0 <= j < stepped.len() && j != idx implies lt_views(lifetimes@)[j]
                        == stepped[j] by {
                        if j < idx {
                            assert(lifetimes@[j] == pre.remove(idx as int)[j]);
                            assert(pre.remove(idx as int)[j] == pre[j]);
                        } else {
                            assert(lifetimes@[j] == pre.remove(idx as int)[j - 1]);
                            assert(pre.remove(idx as int)[j - 1] == pre[j]);
                        }
                    }
                    assert(lt_views(lifetimes@)[idx as int] == ltv);
                    assert(lt_views(lifetimes@) =~= stepped);
                }
            },
            None => {
                let nxt = match e.kind {
                    SyncEventKind::Moved => Some(e.sync_path.clone()),
                    _ => None,
                };
                let mut lev: Vec<SyncEvent> = Vec::new();
                lev.push(e.duplicate());
                lifetimes.push(Lifetime { key: e.old_sync_path.clone(), events: lev, next: nxt });
                proof {
                    assert(event_views(lifetimes@.last().events@) =~= seq![ev[i as int]]);
                    assert(lt_views(lifetimes@) =~= lt_step(ls0, ev[i as int]));
                }
            },
        }
        i += 1;
    }

    // order the chain heads
    let ghost lsv = lt_views(lifetimes@);
    let m = lifetimes.len();
    let mut file_keys: Vec<String> = Vec::new();
    let mut ki: usize = 0;
    while ki < m
        invariant
            0 <= ki <= m,
            m == lifetimes@.len(),
            lsv == lt_views(lifetimes@),
            file_keys@.map_values(|k: String| k@) == keys_order(lsv, ki as int),
        decreases m - ki,
    {
        let k = lifetimes[ki].key.clone();
        let ghost fk0 = file_keys@.map_values(|kk: String| kk@);
        let mut target = false;
        let mut j: usize = 0;
        while j < m
            invariant
                0 <= j <= m,
                m == lifetimes@.len(),
                lsv == lt_views(lifetimes@),
                k@ == lsv[ki as int].key,
                ki < m,
                target == exists|t: int| 0 <= t < j && (#[trigger] lsv[t]).next == Some(k@),
            decreases m - j,
        {
            match &lifetimes[j].next {
                Some(nk) => {
                    if crate::strings::str_eq(nk, &k) {
                        proof {
                            assert(lsv[j as int].next == Some(k@));
                        }
                        target = true;
                    }
                },
                None => {},
            }
            j += 1;
        }
        if target {
            file_keys.push(k);
        } else {
            file_keys.insert(0, k);
        }
        ki += 1;
        proof {
            assert(is_move_target(lsv, lsv[ki - 1].key) == target);
            assert(file_keys@.map_values(|kk: String| kk@) =~= keys_order(lsv, ki as int));
        }
    }

    // consume the chains
    let ghost keysv = file_keys@.map_values(|kk: String| kk@);
    let kn = file_keys.len();
    let mut out: Vec<SyncEvent> = Vec::new();
    let mut kidx: usize = 0;
    while kidx < kn
        invariant
            0 <= kidx <= kn,
            kn == file_keys@.len(),
            keysv == file_keys@.map_values(|kk: String| kk@),
            optimize_loop(lt_views(lifetimes@), keysv, kidx as int, event_views(out@))
                == optimize_loop(lsv, keysv, 0, Seq::empty()),
        decreases kn - kidx,
    {
        let ghost out0 = event_views(out@);
        let chain = collect_chain(&mut lifetimes, &file_keys[kidx]);
        let chain = sort_events_by_time(chain);
        let mut reduced = reduce_chain_exec(chain);
        let ghost redv = event_views(reduced@);
        out.append(&mut reduced);
        kidx += 1;
        proof {
            assert(event_views(out@) =~= out0.add(redv));
        }
    }
    proof {
        assert(optimize_loop(lt_views(lifetimes@), keysv, kn as int, event_views(out@))
            == event_views(out@));
        assert(event_views(out@) == optimized(ev));
    }
    out
}

/// Runs rewriting passes over one sorted chain until it stops shrinking.
fn reduce_chain_exec(chain: Vec<SyncEvent>) -> (r: Vec<SyncEvent>)
    ensures
        event_views(r@) == reduce_chain(event_views(chain@)),
{
    let ghost orig = event_views(chain@);
    let mut evs = chain;
    let mut go = true;
    while go
        invariant
            go ==> reduce_chain(orig) == reduce_chain(event_views(evs@)),
            !go ==> reduce_chain(orig) == event_views(evs@),
        decreases 2 * evs@.len() + (if go { 1int } else { 0int }),
    {
        let pre_len = evs.len();
        let ghost passv = event_views(evs@);

        let mut start: usize = 0;
        while evs.len() > 1 && start < evs.len() - 1
            invariant
                0 <= start,
                reduce_pass(event_views(evs@), start as int) == reduce_pass(passv, 0),
                event_views(evs@).len() <= passv.len(),
            decreases evs@.len() - start,
        {
            let ghost cur = event_views(evs@);
            let a = evs.remove(start);
            let b = evs.remove(start);
            let resolved = resolve_event_pair(&a, &b);
            let rl = resolved.len();
            let ghost rv = event_views(resolved@);
            let mut t: usize = 0;
            while t < rl
                invariant
                    0 <= t <= rl,
                    rl == resolved@.len(),
                    rv == event_views(resolved@),
                    start + 2 <= cur.len(),
                    start + t <= evs@.len(),
                    forall|x: int|
                        0 <= x < resolved@.len() ==> (#[trigger] resolved@[x])@ == rv[x],
                    event_views(evs@) =~= cur.take(start as int).add(rv.take(t as int)).add(
                        cur.skip(start as int + 2),
                    ),
                decreases rl - t,
            {
                let ghost epre = event_views(evs@);
                let el = evs.len();
                assert(start + t <= el);
                evs.insert(start + t, resolved[t].duplicate());
                proof {
                    assert(rv.take(t + 1) =~= rv.take(t as int).push(rv[t as int]));
                    assert(event_views(evs@) =~= epre.insert(start + t, rv[t as int]));
                    assert(epre.subrange(0, start + t) =~= cur.take(start as int).add(
                        rv.take(t as int),
                    ));
                    assert(epre.subrange(start + t, epre.len() as int) =~= cur.skip(
                        start as int + 2,
                    ));
                    assert(event_views(evs@) =~= cur.take(start as int).add(
                        rv.take(t + 1),
                    ).add(cur.skip(start as int + 2)));
                }
                t += 1;
            }
            proof {
                assert(rv.take(rl as int) =~= rv);
                assert(event_views(evs@) =~= cur.take(start as int).add(rv).add(
                    cur.skip(start as int + 2),
                ));
                lemma_reduce_pass_len(event_views(evs@), if rl > 1 {
                    start + rl - 1
                } else {
                    start as int
                });
            }
            if rl > 1 {
                start += rl - 1;
            }
        }
        proof {
            assert(reduce_pass(event_views(evs@), start as int) == event_views(evs@));
        }
        if evs.len() >= pre_len {
            go = false;
        }
    }
    evs
}

} // verus!
