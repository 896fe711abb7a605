//! The push channel's decisions: the authorization header it connects
//! with, and how a pushed file event finds the watchers it concerns.

use vstd::prelude::*;
use vstd::map::*;

use crate::auth::Credentials;
use crate::auth::cred_entries;
use crate::config::SherryConfigJSON;
use crate::config::SherryConfigWatcherJSON;
use crate::config::WatcherV;
use crate::config::source_entries;
use crate::config::watcher_views;
use crate::server_types::ApiFileResponse;
use crate::smap::StrMap;
use crate::strings::push_char;
use crate::strings::str_eq;
use crate::strings::string_views;

verus! {

/// The access tokens of the non-expired users among the first `i`
/// records, in key order.
pub open spec fn active_tokens(entries: Seq<(Seq<char>, crate::auth::CredentialsV)>, i: int) -> Seq<
    Seq<char>,
>
    decreases i,
{
    if i <= 0 {
        Seq::empty()
    } else {
        let acc = active_tokens(entries, i - 1);
        if !entries[i - 1].1.expired {
            acc.push(entries[i - 1].1.access_token)
        } else {
            acc
        }
    }
}

/// The parts joined by semicolons.
pub open spec fn joined(parts: Seq<Seq<char>>) -> Seq<char>
    decreases parts.len(),
{
    if parts.len() == 0 {
        Seq::empty()
    } else if parts.len() == 1 {
        parts[0]
    } else {
        joined(parts.drop_last()).push(';').add(parts.last())
    }
}

/// Builds the authorization header for the push channel: every
/// non-expired user's access token, joined by semicolons, in record
/// order.
pub fn join_active_tokens(records: &StrMap<Credentials>) -> (r: String)
    requires
        records.wf(),
    ensures
        r@ == joined(active_tokens(cred_entries(*records), records.spec_len() as int)),
{
    let ghost entries = cred_entries(*records);
    let mut parts: Vec<String> = Vec::new();
    let n = records.len();
    let mut i: usize = 0;
    while i < n
        invariant
            0 <= i <= n,
            n == records.spec_len(),
            records.wf(),
            entries == cred_entries(*records),
            string_views(parts@) == active_tokens(entries, i as int),
        decreases n - i,
    {
        let c = records.val_at(i);
        if !c.expired {
            parts.push(c.access_token.clone());
        }
        i += 1;
        proof {
            assert(entries[i - 1] == (records.entries@[i - 1].0@, records.entries@[i - 1].1@));
            assert(string_views(parts@) =~= active_tokens(entries, i as int));
        }
    }
    let mut out = String::new();
    let pn = parts.len();
    let mut j: usize = 0;
    while j < pn
        invariant
            0 <= j <= pn,
            pn == parts@.len(),
            string_views(parts@) == active_tokens(entries, n as int),
            out@ == joined(string_views(parts@).take(j as int)),
        decreases pn - j,
    {
        if j > 0 {
            push_char(&mut out, ';');
        }
        let out2 = out.concat(parts[j].as_str());
        out = out2;
        j += 1;
        proof {
            assert(string_views(parts@).take(j as int).drop_last() =~= string_views(
                parts@,
            ).take(j - 1));
            assert(string_views(parts@).take(j as int).last() == parts@[j - 1]@);
            if j == 1 {
                assert(out@ =~= joined(string_views(parts@).take(j as int)));
            } else {
                assert(out@ =~= joined(string_views(parts@).take(j - 1)).push(';').add(
                    parts@[j - 1]@,
                ));
            }
        }
    }
    proof {
        assert(string_views(parts@).take(pn as int) =~= string_views(parts@));
    }
    out
}

/// The source keys among the first `i` entries whose source carries the
/// pushed folder id.
pub open spec fn matching_source_keys(
    entries: Seq<(Seq<char>, crate::config::SourceV)>,
    sherry_id: Seq<char>,
    i: int,
) -> Seq<Seq<char>>
    decreases i,
{
    if i <= 0 {
        Seq::empty()
    } else {
        let acc = matching_source_keys(entries, sherry_id, i - 1);
        if entries[i - 1].1.id == sherry_id {
            acc.push(entries[i - 1].0)
        } else {
            acc
        }
    }
}

/// Collects the keys of the sources bound to the pushed folder.
pub fn find_matching_sources(config: &SherryConfigJSON, sherry_id: &String) -> (r: Vec<String>)
    requires
        config.wf(),
    ensures
        string_views(r@) == matching_source_keys(
            source_entries(config.sources),
            sherry_id@,
            config.sources.spec_len() as int,
        ),
{
    let ghost entries = source_entries(config.sources);
    let mut out: Vec<String> = Vec::new();
    let n = config.sources.len();
    let mut i: usize = 0;
    while i < n
        invariant
            0 <= i <= n,
            n == config.sources.spec_len(),
            config.wf(),
            entries == source_entries(config.sources),
            string_views(out@) == matching_source_keys(entries, sherry_id@, i as int),
        decreases n - i,
    {
        let key = config.sources.key_at(i);
        let src = config.sources.val_at(i);
        if str_eq(&src.id, sherry_id) {
            out.push(key.clone());
        }
        i += 1;
        proof {
            assert(entries[i - 1] == (config.sources.entries@[i - 1].0@, config.sources.entries@[i
                - 1].1@));
            assert(string_views(out@) =~= matching_source_keys(entries, sherry_id@, i as int));
        }
    }
    out
}

/// Whether `k` occurs among the matched keys.
pub open spec fn key_in(keys: Seq<Seq<char>>, k: Seq<char>) -> bool {
    exists|j: int| 0 <= j < keys.len() && keys[j] == k
}

/// The watchers among the first `i` bound to a matched source, each with
/// the local path the pushed file lands at: the watcher base, a slash,
/// and the pushed path.
pub open spec fn payload_targets(
    ws: Seq<WatcherV>,
    keys: Seq<Seq<char>>,
    remote_path: Seq<char>,
    i: int,
) -> Seq<(WatcherV, Seq<char>)>
    decreases i,
{
    if i <= 0 {
        Seq::empty()
    } else {
        let acc = payload_targets(ws, keys, remote_path, i - 1);
        if key_in(keys, ws[i - 1].source) {
            acc.push((ws[i - 1], ws[i - 1].local_path.add(seq!['/']).add(remote_path)))
        } else {
            acc
        }
    }
}

/// Finds the watchers a pushed file event lands in, with the local path
/// of each copy.
pub fn find_payload_targets(
    config: &SherryConfigJSON,
    keys: &Vec<String>,
    remote: &ApiFileResponse,
) -> (r: Vec<(SherryConfigWatcherJSON, String)>)
    ensures
        r@.map_values(|p: (SherryConfigWatcherJSON, String)| (p.0@, p.1@)) == payload_targets(
            watcher_views(config.watchers@),
            string_views(keys@),
            remote.path@,
            config.watchers@.len() as int,
        ),
{
    let ghost ws = watcher_views(config.watchers@);
    let ghost kv = string_views(keys@);
    let mut out: Vec<(SherryConfigWatcherJSON, String)> = Vec::new();
    let n = config.watchers.len();
    let mut i: usize = 0;
    while i < n
        invariant
            0 <= i <= n,
            n == config.watchers@.len(),
            ws == watcher_views(config.watchers@),
            kv == string_views(keys@),
            out@.map_values(|p: (SherryConfigWatcherJSON, String)| (p.0@, p.1@)) == payload_targets(
                ws,
                kv,
                remote.path@,
                i as int,
            ),
        decreases n - i,
    {
        let w = &config.watchers[i];
        let mut matched = false;
        let kn = keys.len();
        let mut j: usize = 0;
        while j < kn
            invariant
                0 <= j <= kn,
                kn == keys@.len(),
                kv == string_views(keys@),
                i < n,
                n == config.watchers@.len(),
                ws == watcher_views(config.watchers@),
                w@ == ws[i as int],
                matched == exists|t: int| 0 <= t < j && kv[t] == ws[i as int].source,
            decreases kn - j,
        {
            if str_eq(&keys[j], &w.source) {
                proof {
                    assert(kv[j as int] == ws[i as int].source);
                }
                matched = true;
            }
            j += 1;
        }
        if matched {
            let mut target = w.local_path.clone();
            push_char(&mut target, '/');
            let target = target.concat(remote.path.as_str());
            proof {
                assert(target@ =~= ws[i as int].local_path.add(seq!['/']).add(remote.path@));
            }
            out.push((w.duplicate(), target));
        }
        i += 1;
        proof {
            assert(out@.map_values(|p: (SherryConfigWatcherJSON, String)| (p.0@, p.1@))
                =~= payload_targets(ws, kv, remote.path@, i as int));
        }
    }
    out
}

/// The first matched source key whose user has a record, with that user's
/// position, or nothing.
pub open spec fn first_known_user(
    entries: Seq<(Seq<char>, crate::config::SourceV)>,
    keys: Seq<Seq<char>>,
    users: Map<Seq<char>, crate::auth::CredentialsV>,
) -> Option<Seq<char>>
    decreases entries.len(),
{
    if entries.len() == 0 {
        None
    } else if key_in(keys, entries[0].0) && users.contains_key(entries[0].1.user_id) {
        Some(entries[0].1.user_id)
    } else {
        first_known_user(entries.skip(1), keys, users)
    }
}

/// Picks the user whose token authorizes the download: the first matched
/// source, in key order, whose binding user has a credential record.
pub fn pick_payload_user(
    config: &SherryConfigJSON,
    keys: &Vec<String>,
    auth: &crate::auth::SherryAuthorizationConfigJSON,
) -> (r: Option<Credentials>)
    requires
        config.wf(),
        auth.wf(),
    ensures
        match r {
            Some(c) => ({
                let fu = first_known_user(
                    source_entries(config.sources),
                    string_views(keys@),
                    auth.records_map(),
                );
                fu is Some && auth.records_map().contains_key(fu.unwrap())
                    && auth.records_map()[fu.unwrap()] == c@
            }),
            None => first_known_user(
                source_entries(config.sources),
                string_views(keys@),
                auth.records_map(),
            ) is None,
        },
{
    let ghost entries = source_entries(config.sources);
    let ghost kv = string_views(keys@);
    let n = config.sources.len();
    let mut i: usize = 0;
    proof {
        assert(entries.skip(0) =~= entries);
    }
    while i < n
        invariant
            0 <= i <= n,
            n == config.sources.spec_len(),
            config.wf(),
            auth.wf(),
            entries == source_entries(config.sources),
            kv == string_views(keys@),
            first_known_user(entries, kv, auth.records_map()) == first_known_user(
                entries.skip(i as int),
                kv,
                auth.records_map(),
            ),
        decreases n - i,
    {
        let src = config.sources.val_at(i);
        let key = config.sources.key_at(i);
        proof {
            assert(entries[i as int] == (config.sources.entries@[i as int].0@,
            config.sources.entries@[i as int].1@));
            assert(entries.skip(i as int)[0] == entries[i as int]);
        }
        let mut matched = false;
        let kn = keys.len();
        let mut j: usize = 0;
        while j < kn
            invariant
                0 <= j <= kn,
                kn == keys@.len(),
                kv == string_views(keys@),
                i < n,
                n == config.sources.spec_len(),
                entries == source_entries(config.sources),
                key@ == entries[i as int].0,
                matched == exists|t: int| 0 <= t < j && kv[t] == entries[i as int].0,
            decreases kn - j,
        {
            if str_eq(&keys[j], key) {
                proof {
                    assert(kv[j as int] == entries[i as int].0);
                }
                matched = true;
            }
            j += 1;
        }
        if matched {
            match auth.records.get(&src.user_id) {
                Some(c) => {
                    proof {
                        assert(auth.records_map().contains_key(src.user_id@));
                        assert(auth.records_map()[src.user_id@] == c@);
                        assert(src.user_id@ == entries[i as int].1.user_id);
                        assert(first_known_user(entries.skip(i as int), kv, auth.records_map())
                            == Some(entries[i as int].1.user_id));
                        assert(first_known_user(entries, kv, auth.records_map()) == Some(
                            entries[i as int].1.user_id,
                        ));
                    }
                    return Some(c.duplicate());
                },
                None => {
                    proof {
                        assert(!auth.records_map().contains_key(entries[i as int].1.user_id));
                        assert(entries.skip(i as int).skip(1) =~= entries.skip(i + 1));
                    }
                },
            }
        } else {
            proof {
                assert(!key_in(kv, entries[i as int].0));
                assert(entries.skip(i as int).skip(1) =~= entries.skip(i + 1));
            }
        }
        i += 1;
    }
    proof {
        assert(entries.skip(n as int) =~= Seq::<(Seq<char>, crate::config::SourceV)>::empty());
    }
    None
}

} // verus!
