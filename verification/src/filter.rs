//! Source-policy filtering of sync events, and hash completion.
//!
//! A source forbids subdirectories, caps file sizes and may restrict file
//! names to a set of globs; deletes always pass. The file sizes come from
//! the same snapshot the expansion used.

use vstd::prelude::*;
use vstd::map::*;

use crate::config::SherryConfigSourceJSON;
use crate::config::SourceV;
use crate::expand::FsNode;
use crate::expand::FsNodeKind;
use crate::expand::FsSnapshot;
use crate::file_event::SyncEvent;
use crate::file_event::SyncEventKind;
use crate::file_event::SyncEventV;
use crate::file_event::event_views;
use crate::helpers::norm_path;
use crate::helpers::normalize_path;
use crate::strings::seq_contains_char;
use crate::strings::contains_char;

verus! {

/// Whether the glob pattern compiles, as the glob engine decides it.
pub uninterp spec fn glob_valid(pattern: Seq<char>) -> bool;

/// Whether `text` matches the glob `pattern`, as the glob engine decides
/// it; meaningful only for valid patterns.
pub uninterp spec fn glob_match(pattern: Seq<char>, text: Seq<char>) -> bool;

/// Relies on glob::Pattern::new and glob::Pattern::matches: whether `text`
/// matches the shell-style glob `pattern`, or `None` when the pattern does
/// not compile. Both outcomes depend on the two strings alone.
#[verifier::external_body]
fn glob_match_str(pattern: &String, text: &String) -> (r: Option<bool>)
    ensures
        r is Some <==> glob_valid(pattern@),
        r matches Some(b) ==> b == glob_match(pattern@, text@),
{
    match glob::Pattern::new(pattern.as_str()) {
        Ok(p) => Some(p.matches(text.as_str())),
        Err(_) => None,
    }
}

/// Whether any configured pattern compiles.
pub open spec fn has_valid_glob(patterns: Seq<Seq<char>>) -> bool {
    exists|i: int| 0 <= i < patterns.len() && glob_valid(#[trigger] patterns[i])
}

/// Whether any valid configured pattern matches `text`.
pub open spec fn any_glob_matches(patterns: Seq<Seq<char>>, text: Seq<char>) -> bool {
    exists|i: int|
        0 <= i < patterns.len() && glob_valid(#[trigger] patterns[i]) && glob_match(
            patterns[i],
            text,
        )
}

/// What the policy does with one event: dropped when it names a
/// subdirectory the source forbids, when valid globs are configured and
/// none matches its sync path, or when its file is gone or over the size
/// cap; a delete always passes; anything kept gets the size the snapshot
/// reports (zero for a directory).
pub open spec fn keep_event(src: SourceV, e: SyncEventV, fsm: Map<Seq<char>, FsNode>) -> Option<
    SyncEventV,
> {
    if !src.allow_dir && seq_contains_char(e.sync_path, '/') {
        None
    } else if has_valid_glob(src.allowed_file_names) && !any_glob_matches(
        src.allowed_file_names,
        e.sync_path,
    ) {
        None
    } else if e.kind == SyncEventKind::Deleted {
        Some(e)
    } else {
        let np = norm_path(e.local_path);
        if !fsm.contains_key(np) {
            None
        } else if fsm[np].size > src.max_file_size {
            None
        } else {
            Some(
                SyncEventV {
                    size: if fsm[np].kind == FsNodeKind::Dir {
                        0
                    } else {
                        fsm[np].size
                    },
                    ..e
                },
            )
        }
    }
}

/// The kept events among the first `i`, in order.
pub open spec fn filtered(
    src: SourceV,
    events: Seq<SyncEventV>,
    fsm: Map<Seq<char>, FsNode>,
    i: int,
) -> Seq<SyncEventV>
    decreases i,
{
    if i <= 0 {
        Seq::empty()
    } else {
        let acc = filtered(src, events, fsm, i - 1);
        match keep_event(src, events[i - 1], fsm) {
            Some(e) => acc.push(e),
            None => acc,
        }
    }
}

/// Tests the configured globs against `text`: whether any compiles, and
/// whether any valid one matches.
fn check_globs(patterns: &Vec<String>, text: &String) -> (r: (bool, bool))
    ensures
        r.0 == has_valid_glob(patterns@.map_values(|s: String| s@)),
        r.1 == any_glob_matches(patterns@.map_values(|s: String| s@), text@),
{
    let ghost pv = patterns@.map_values(|s: String| s@);
    let mut any_valid = false;
    let mut any_match = false;
    let n = patterns.len();
    let mut i: usize = 0;
    while i < n
        invariant
            0 <= i <= n,
            n == patterns@.len(),
            pv == patterns@.map_values(|s: String| s@),
            any_valid == exists|j: int| 0 <= j < i && glob_valid(#[trigger] pv[j]),
            any_match == exists|j: int|
                0 <= j < i && glob_valid(#[trigger] pv[j]) && glob_match(pv[j], text@),
        decreases n - i,
    {
        match glob_match_str(&patterns[i], text) {
            Some(m) => {
                proof {
                    assert(glob_valid(pv[i as int]));
                }
                any_valid = true;
                if m {
                    proof {
                        assert(glob_match(pv[i as int], text@));
                    }
                    any_match = true;
                }
            },
            None => {
                proof {
                    assert(!glob_valid(pv[i as int]));
                }
            },
        }
        i += 1;
    }
    (any_valid, any_match)
}

/// Applies the source policy to a batch: forbidden subdirectory paths,
/// unmatched names and oversized or vanished files drop out; deletes pass
/// unconditionally; kept events carry the size the snapshot reports.
pub fn filter_events(
    config: &SherryConfigSourceJSON,
    events: &Vec<SyncEvent>,
    fs: &FsSnapshot,
) -> (r: Vec<SyncEvent>)
    requires
        fs.wf(),
    ensures
        event_views(r@) == filtered(
            config@,
            event_views(events@),
            fs.as_map(),
            events@.len() as int,
        ),
{
    let ghost ev = event_views(events@);
    let mut out: Vec<SyncEvent> = Vec::new();
    let n = events.len();
    let mut i: usize = 0;
    while i < n
        invariant
            0 <= i <= n,
            n == events@.len(),
            fs.wf(),
            ev == event_views(events@),
            event_views(out@) == filtered(config@, ev, fs.as_map(), i as int),
        decreases n - i,
    {
        let e = &events[i];
        let ghost out0 = event_views(out@);
        let subdir_blocked = !config.allow_dir && contains_char(&e.sync_path, '/');
        if !subdir_blocked {
            let (any_valid, any_match) = check_globs(&config.allowed_file_names, &e.sync_path);
            if !(any_valid && !any_match) {
                let is_delete = match e.kind {
                    SyncEventKind::Deleted => true,
                    _ => false,
                };
                if is_delete {
                    out.push(e.duplicate());
                } else {
                    let np = normalize_path(&e.local_path);
                    match fs.lookup(&np) {
                        Some(node) => {
                            if !(node.size > config.max_file_size) {
                                let mut kept = e.duplicate();
                                kept.size = match node.kind {
                                    FsNodeKind::Dir => 0,
                                    _ => node.size,
                                };
                                out.push(kept);
                            }
                        },
                        None => {},
                    }
                }
            }
        }
        i += 1;
        proof {
            assert(event_views(out@) =~= filtered(config@, ev, fs.as_map(), i as int));
        }
    }
    out
}

/// The batch with each event's content hash filled in.
pub open spec fn completed(events: Seq<SyncEventV>, hashes: Seq<Seq<char>>, i: int) -> Seq<
    SyncEventV,
>
    decreases i,
{
    if i <= 0 {
        Seq::empty()
    } else {
        completed(events, hashes, i - 1).push(
            SyncEventV { update_hash: hashes[i - 1], ..events[i - 1] },
        )
    }
}

/// Fills each event's content hash in, pairing the batch with the hashes
/// the caller computed from the files' bytes, in order.
pub fn complete_events(events: &Vec<SyncEvent>, hashes: &Vec<String>) -> (r: Vec<SyncEvent>)
    requires
        hashes@.len() == events@.len(),
    ensures
        event_views(r@) == completed(
            event_views(events@),
            hashes@.map_values(|h: String| h@),
            events@.len() as int,
        ),
{
    let ghost ev = event_views(events@);
    let ghost hv = hashes@.map_values(|h: String| h@);
    let mut out: Vec<SyncEvent> = Vec::new();
    let n = events.len();
    let mut i: usize = 0;
    while i < n
        invariant
            0 <= i <= n,
            n == events@.len(),
            hashes@.len() == events@.len(),
            ev == event_views(events@),
            hv == hashes@.map_values(|h: String| h@),
            event_views(out@) == completed(ev, hv, i as int),
        decreases n - i,
    {
        let mut e = events[i].duplicate();
        e.update_hash = hashes[i].clone();
        out.push(e);
        i += 1;
        proof {
            assert(event_views(out@) =~= completed(ev, hv, i as int));
        }
    }
    out
}

} // verus!
