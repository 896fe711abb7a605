//! The engine's laws: statements that tie several functions together,
//! proved once and for all inputs.

use vstd::prelude::*;
use vstd::map::*;

use crate::expand::FsNode;
use crate::expand::sync_events_of;
use crate::expand::synth_deletes;
use crate::file_event::BdeV;
use crate::file_event::SyncEventKind;
use crate::file_event::SyncEventV;
use crate::filter::filtered;
use crate::filter::keep_event;
use crate::helpers::norm_path;
use crate::optimize::resolved_pair;
use crate::strings::is_prefix_of;
use crate::strings::seq_contains_char;

verus! {

// ---------------------------------------------------------------------
// Net effect of the pairwise rewriter
// ---------------------------------------------------------------------

/// The remote state an event stream acts on: each present path bound to
/// its content hash.
pub open spec fn apply_event_effect(
    s: Map<Seq<char>, Seq<char>>,
    e: SyncEventV,
) -> Map<Seq<char>, Seq<char>> {
    match e.kind {
        SyncEventKind::Created => s.insert(e.sync_path, e.update_hash),
        SyncEventKind::Updated => s.insert(e.sync_path, e.update_hash),
        SyncEventKind::Deleted => s.remove(e.sync_path),
        SyncEventKind::Moved => s.remove(e.old_sync_path).insert(e.sync_path, e.update_hash),
    }
}

/// A stream applied left to right.
pub open spec fn apply_events(s: Map<Seq<char>, Seq<char>>, evs: Seq<SyncEventV>) -> Map<
    Seq<char>,
    Seq<char>,
>
    decreases evs.len(),
{
    if evs.len() == 0 {
        s
    } else {
        apply_events(apply_event_effect(s, evs[0]), evs.skip(1))
    }
}

/// A non-move event speaks of one path.
pub open spec fn event_wf(e: SyncEventV) -> bool {
    e.kind == SyncEventKind::Moved || e.old_sync_path == e.sync_path
}

/// Whether an event makes sense against state `s`: a create hits a free
/// path, an update or delete an occupied one, and a move carries the
/// occupant of its old path (hash and all) to a free one, or stays in
/// place.
pub open spec fn event_valid(s: Map<Seq<char>, Seq<char>>, e: SyncEventV) -> bool {
    match e.kind {
        SyncEventKind::Created => !s.contains_key(e.sync_path),
        SyncEventKind::Updated => s.contains_key(e.sync_path),
        SyncEventKind::Deleted => s.contains_key(e.sync_path),
        SyncEventKind::Moved => s.contains_key(e.old_sync_path) && s[e.old_sync_path]
            == e.update_hash && (!s.contains_key(e.sync_path) || e.sync_path == e.old_sync_path),
    }
}

proof fn lemma_apply_one(s: Map<Seq<char>, Seq<char>>, x: SyncEventV)
    ensures
        apply_events(s, seq![x]) == apply_event_effect(s, x),
{
    assert(seq![x].skip(1) =~= Seq::<SyncEventV>::empty());
    assert(apply_events(s, seq![x]) == apply_events(apply_event_effect(s, x), seq![x].skip(1)));
}

proof fn lemma_apply_two(s: Map<Seq<char>, Seq<char>>, x: SyncEventV, y: SyncEventV)
    ensures
        apply_events(s, seq![x, y]) == apply_event_effect(apply_event_effect(s, x), y),
{
    assert(seq![x, y].skip(1) =~= seq![y]);
    assert(apply_events(s, seq![x, y]) == apply_events(
        apply_event_effect(s, x),
        seq![x, y].skip(1),
    ));
    lemma_apply_one(apply_event_effect(s, x), y);
}

/// Law: the pairwise rewriter preserves the net effect on remote state.
/// For two adjacent events of one lifetime (the second picks up where the
/// first left the file), both sensible for the state they meet and
/// carrying one hash, replaying the rewritten pair ends in the same state
/// as replaying the pair itself.
pub proof fn lemma_resolve_pair_preserves_effect(
    s: Map<Seq<char>, Seq<char>>,
    a: SyncEventV,
    b: SyncEventV,
)
    requires
        event_wf(a),
        event_wf(b),
        b.old_sync_path == a.sync_path,
        event_valid(s, a),
        event_valid(apply_event_effect(s, a), b),
        a.update_hash == b.update_hash,
    ensures
        apply_events(s, resolved_pair(a, b)) == apply_events(s, seq![a, b]),
{
    lemma_apply_two(s, a, b);
    let sab = apply_event_effect(apply_event_effect(s, a), b);
    let r = resolved_pair(a, b);
    if r.len() == 0 {
        assert(apply_events(s, r) =~= s) by {
            assert(r =~= Seq::<SyncEventV>::empty());
        }
        assert(sab =~= s);
    } else if r.len() == 1 {
        assert(r =~= seq![r[0]]);
        lemma_apply_one(s, r[0]);
        assert(apply_event_effect(s, r[0]) =~= sab);
    } else {
        assert(r =~= seq![r[0], r[1]]);
        lemma_apply_two(s, r[0], r[1]);
        assert(apply_event_effect(apply_event_effect(s, r[0]), r[1]) =~= sab);
    }
}

// ---------------------------------------------------------------------
// Policy laws
// ---------------------------------------------------------------------

/// Law: a source that forbids subdirectories lets no event with a slash
/// in its sync path through the filter.
pub proof fn lemma_subdirs_filtered(
    src: crate::config::SourceV,
    events: Seq<SyncEventV>,
    fsm: Map<Seq<char>, FsNode>,
    i: int,
)
    requires
        !src.allow_dir,
    ensures
        forall|j: int|
            0 <= j < filtered(src, events, fsm, i).len() ==> !seq_contains_char(
                (#[trigger] filtered(src, events, fsm, i)[j]).sync_path,
                '/',
            ),
    decreases i,
{
    if i > 0 {
        lemma_subdirs_filtered(src, events, fsm, i - 1);
        match keep_event(src, events[i - 1], fsm) {
            Some(e) => {
                assert(e.sync_path == events[i - 1].sync_path);
                assert(!seq_contains_char(e.sync_path, '/'));
            },
            None => {},
        }
    }
}

/// Law: with a zero size cap, everything the filter keeps is either a
/// delete or concerns a file the snapshot reports empty. (An empty file
/// itself still passes: zero is not over a zero cap.)
pub proof fn lemma_zero_cap_filters_content(
    src: crate::config::SourceV,
    events: Seq<SyncEventV>,
    fsm: Map<Seq<char>, FsNode>,
    i: int,
)
    requires
        src.max_file_size == 0,
    ensures
        forall|j: int|
            0 <= j < filtered(src, events, fsm, i).len() ==> ((#[trigger] filtered(
                src,
                events,
                fsm,
                i,
            )[j]).kind == SyncEventKind::Deleted || filtered(src, events, fsm, i)[j].size == 0),
    decreases i,
{
    if i > 0 {
        lemma_zero_cap_filters_content(src, events, fsm, i - 1);
    }
}

// ---------------------------------------------------------------------
// A create and a delete within one quiet window
// ---------------------------------------------------------------------

/// Synthesized deletes for a path no index key opens with come to
/// nothing.
proof fn lemma_synth_deletes_empty(
    source_id: Seq<char>,
    base: Seq<char>,
    hkeys: Seq<Seq<char>>,
    nlp: Seq<char>,
    now: int,
    j: int,
)
    requires
        j <= hkeys.len(),
        forall|t: int| 0 <= t < hkeys.len() ==> !is_prefix_of(nlp, #[trigger] hkeys[t]),
    ensures
        synth_deletes(source_id, base, hkeys, nlp, now, j) == Seq::<SyncEventV>::empty(),
    decreases j,
{
    if j > 0 {
        lemma_synth_deletes_empty(source_id, base, hkeys, nlp, now, j - 1);
        if 0 <= j - 1 < hkeys.len() {
            assert(!is_prefix_of(nlp, hkeys[j - 1]));
        }
    }
}

/// Law: a file created and removed within one quiet window leaves no
/// event. When the batch drains, the path is gone and was never indexed,
/// so whatever the coalescer keeps of the pair expands to nothing.
pub proof fn lemma_create_then_delete_yields_nothing(
    source_id: Seq<char>,
    ev: BdeV,
    hkeys: Seq<Seq<char>>,
    fentries: Seq<(Seq<char>, FsNode)>,
    fsm: Map<Seq<char>, FsNode>,
    now: int,
)
    requires
        ev.paths.len() >= 1,
        !fsm.contains_key(norm_path(ev.paths.last())),
        forall|t: int|
            0 <= t < hkeys.len() ==> !is_prefix_of(
                norm_path(ev.paths.last()),
                #[trigger] hkeys[t],
            ),
    ensures
        sync_events_of(source_id, ev, hkeys, fentries, fsm, now) == Seq::<SyncEventV>::empty(),
{
    lemma_synth_deletes_empty(
        source_id,
        ev.base,
        hkeys,
        norm_path(ev.paths.last()),
        now,
        hkeys.len() as int,
    );
}

// ---------------------------------------------------------------------
// A rename cycle cancels
// ---------------------------------------------------------------------

/// Law: renaming a file away and back within one batch leaves no event.
/// Two moves that return the file to where it started, in time order,
/// optimize to the empty set.
pub proof fn lemma_rename_cycle_cancels(a: SyncEventV, b: SyncEventV)
    requires
        a.kind == SyncEventKind::Moved,
        b.kind == SyncEventKind::Moved,
        b.old_sync_path == a.sync_path,
        b.sync_path == a.old_sync_path,
        a.old_sync_path != a.sync_path,
        a.timestamp <= b.timestamp,
    ensures
        crate::optimize::optimized(seq![a, b]) == Seq::<SyncEventV>::empty(),
{
    let ev = seq![a, b];
    let la = crate::optimize::LifetimeV {
        key: a.old_sync_path,
        events: seq![a],
        next: Some(a.sync_path),
    };
    let lb = crate::optimize::LifetimeV {
        key: b.old_sync_path,
        events: seq![b],
        next: Some(b.sync_path),
    };
    let none_ls = Seq::<crate::optimize::LifetimeV>::empty();
    let none_ev = Seq::<SyncEventV>::empty();

    // the two lifetimes
    assert(crate::optimize::built_lifetimes(ev, 0) == none_ls);
    assert(crate::optimize::lt_find(none_ls, a.old_sync_path) == -1);
    assert(crate::optimize::built_lifetimes(ev, 1) =~= seq![la]);
    assert(seq![la].skip(1) =~= none_ls);
    assert(crate::optimize::lt_find(none_ls, b.old_sync_path) == -1);
    assert(crate::optimize::lt_find(seq![la], b.old_sync_path) == -1);
    assert(crate::optimize::built_lifetimes(ev, 2) =~= seq![la, lb]);
    let ls = seq![la, lb];

    // both heads are move targets, so both keys go to the back, in order
    assert(crate::optimize::is_move_target(ls, la.key)) by {
        assert(ls[1].next == Some(a.old_sync_path));
    }
    assert(crate::optimize::is_move_target(ls, lb.key)) by {
        assert(ls[0].next == Some(a.sync_path));
    }
    let keys = crate::optimize::keys_order(ls, 2);
    assert(crate::optimize::keys_order(ls, 0) == Seq::<Seq<char>>::empty());
    assert(crate::optimize::keys_order(ls, 1) =~= seq![a.old_sync_path]);
    assert(crate::optimize::keys_order(ls, 2) == crate::optimize::keys_order(ls, 1).push(
        lb.key,
    ));
    assert(keys =~= seq![a.old_sync_path, a.sync_path]);

    // the chain gathers both events
    assert(crate::optimize::lt_find(ls, a.old_sync_path) == 0);
    assert(ls.remove(0) =~= seq![lb]);
    assert(crate::optimize::lt_find(seq![lb], a.sync_path) == 0);
    assert(seq![lb].remove(0) =~= none_ls);
    assert(crate::optimize::lt_find(none_ls, b.sync_path) == -1);
    assert(crate::optimize::chain_collect(none_ls, b.sync_path) == (none_ls, none_ev));
    assert(crate::optimize::chain_collect(seq![lb], a.sync_path).0 == none_ls);
    assert(crate::optimize::chain_collect(seq![lb], a.sync_path).1 =~= seq![b]);
    assert(crate::optimize::chain_collect(ls, a.old_sync_path).0 == none_ls);
    assert(crate::optimize::chain_collect(ls, a.old_sync_path).1 =~= seq![a, b]);

    // it is already in time order
    assert(seq![a, b].drop_last() =~= seq![a]);
    assert(seq![a].drop_last() =~= none_ev);
    assert(crate::optimize::ev_sorted_by_time(none_ev) == none_ev);
    assert(none_ev.insert(0, a) =~= seq![a]);
    assert(crate::optimize::ev_sorted_by_time(seq![a]) =~= seq![a]);
    assert(seq![a].skip(1) =~= none_ev);
    assert(crate::optimize::ev_ins_pos(none_ev, b.timestamp) == 0);
    assert(crate::optimize::ev_ins_pos(seq![a], b.timestamp) == 1);
    assert(seq![a].insert(1, b) =~= seq![a, b]);
    assert(crate::optimize::ev_sorted_by_time(seq![a, b]) =~= seq![a, b]);

    // one pass cancels the pair and the chain stops shrinking at nothing
    assert(resolved_pair(a, b) == none_ev);
    assert(seq![a, b].take(0) =~= none_ev);
    assert(seq![a, b].skip(2) =~= none_ev);
    assert(none_ev.add(none_ev).add(none_ev) =~= none_ev);
    assert(crate::optimize::reduce_pass(none_ev, 0) == none_ev);
    assert(crate::optimize::reduce_pass(seq![a, b], 0) == none_ev);
    assert(crate::optimize::reduce_chain(none_ev) == none_ev);
    assert(crate::optimize::reduce_chain(seq![a, b]) == none_ev);

    // the loop over both keys adds nothing
    assert(crate::optimize::chain_collect(none_ls, a.sync_path) == (none_ls, none_ev));
    assert(crate::optimize::ev_sorted_by_time(none_ev) == none_ev);
    assert(none_ev.add(none_ev) =~= none_ev);
    assert(crate::optimize::optimize_loop(none_ls, keys, 2, none_ev) == none_ev);
    assert(crate::optimize::optimize_loop(none_ls, keys, 1, none_ev) == none_ev);
    assert(crate::optimize::optimize_loop(ls, keys, 0, none_ev) == none_ev);
    assert(crate::optimize::optimized(ev) == none_ev);
}

} // verus!
