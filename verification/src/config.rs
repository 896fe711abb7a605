//! The configuration model: sources (remote folders), watchers (their
//! local bindings), the main config envelope, and the revalidation rules
//! that keep them consistent with the auth store and the server's view.

use vstd::prelude::*;
use vstd::map::*;

use crate::auth::SherryAuthorizationConfigJSON;
use crate::server_types::ApiFolderPermissionAccessRights;
use crate::server_types::ApiFolderResponse;
use crate::server_types::perm_find;
use crate::server_types::lemma_perm_find_at;
use crate::server_types::lemma_perm_find_none;
use crate::smap::StrMap;
use crate::helpers::norm_path;
use crate::strings::is_prefix_of;
use crate::strings::starts_with_str;
use crate::strings::str_eq;

verus! {

/// The access a user holds on a source.
#[derive(Clone, Copy, PartialEq, Eq, Structural, Debug)]
pub enum AccessRights {
    Read,
    Write,
    Owner,
}

/// A remote folder as configured: identity, the binding user, and the
/// policy the server enforces.
#[derive(Clone, Debug)]
pub struct SherryConfigSourceJSON {
    pub id: String,
    pub name: String,
    pub access: AccessRights,
    pub user_id: String,
    pub owner_id: String,
    pub max_file_size: u64,
    pub max_dir_size: u64,
    pub allow_dir: bool,
    pub allowed_file_names: Vec<String>,
    pub allowed_file_types: Vec<String>,
}

/// Ghost mirror of `SherryConfigSourceJSON`.
pub ghost struct SourceV {
    pub id: Seq<char>,
    pub name: Seq<char>,
    pub access: AccessRights,
    pub user_id: Seq<char>,
    pub owner_id: Seq<char>,
    pub max_file_size: u64,
    pub max_dir_size: u64,
    pub allow_dir: bool,
    pub allowed_file_names: Seq<Seq<char>>,
    pub allowed_file_types: Seq<Seq<char>>,
}

impl View for SherryConfigSourceJSON {
    type V = SourceV;

    open spec fn view(&self) -> SourceV {
        SourceV {
            id: self.id@,
            name: self.name@,
            access: self.access,
            user_id: self.user_id@,
            owner_id: self.owner_id@,
            max_file_size: self.max_file_size,
            max_dir_size: self.max_dir_size,
            allow_dir: self.allow_dir,
            allowed_file_names: self.allowed_file_names@.map_values(|s: String| s@),
            allowed_file_types: self.allowed_file_types@.map_values(|s: String| s@),
        }
    }
}

fn clone_strings(v: &Vec<String>) -> (r: Vec<String>)
    ensures
        r@.map_values(|s: String| s@) == v@.map_values(|s: String| s@),
{
    let mut out: Vec<String> = Vec::new();
    let n = v.len();
    let mut i: usize = 0;
    while i < n
        invariant
            0 <= i <= n,
            n == v@.len(),
            out@.len() == i,
            forall|j: int| 0 <= j < i ==> out@[j]@ == v@[j]@,
        decreases n - i,
    {
        out.push(v[i].clone());
        i += 1;
    }
    proof {
        assert(out@.map_values(|s: String| s@) =~= v@.map_values(|s: String| s@));
    }
    out
}

impl SherryConfigSourceJSON {
    /// A field-by-field copy whose contents are known.
    pub fn duplicate(&self) -> (r: Self)
        ensures
            r@ == self@,
    {
        let r = SherryConfigSourceJSON {
            id: self.id.clone(),
            name: self.name.clone(),
            access: self.access,
            user_id: self.user_id.clone(),
            owner_id: self.owner_id.clone(),
            max_file_size: self.max_file_size,
            max_dir_size: self.max_dir_size,
            allow_dir: self.allow_dir,
            allowed_file_names: clone_strings(&self.allowed_file_names),
            allowed_file_types: clone_strings(&self.allowed_file_types),
        };
        r
    }
}

/// Compares two sources field by field.
pub fn source_eq(a: &SherryConfigSourceJSON, b: &SherryConfigSourceJSON) -> (r: bool)
    ensures
        r == (a@ == b@),
{
    let access_eq = match (a.access, b.access) {
        (AccessRights::Read, AccessRights::Read) => true,
        (AccessRights::Write, AccessRights::Write) => true,
        (AccessRights::Owner, AccessRights::Owner) => true,
        _ => false,
    };
    let r = access_eq && str_eq(&a.id, &b.id) && str_eq(&a.name, &b.name) && str_eq(
        &a.user_id,
        &b.user_id,
    ) && str_eq(&a.owner_id, &b.owner_id) && a.max_file_size == b.max_file_size && a.max_dir_size
        == b.max_dir_size && a.allow_dir == b.allow_dir && string_lists_eq(
        &a.allowed_file_names,
        &b.allowed_file_names,
    ) && string_lists_eq(&a.allowed_file_types, &b.allowed_file_types);
    r
}

fn string_lists_eq(a: &Vec<String>, b: &Vec<String>) -> (r: bool)
    ensures
        r == (a@.map_values(|s: String| s@) == b@.map_values(|s: String| s@)),
{
    let an = a.len();
    let bn = b.len();
    if an != bn {
        proof {
            assert(a@.map_values(|s: String| s@).len() != b@.map_values(|s: String| s@).len());
        }
        return false;
    }
    let mut i: usize = 0;
    while i < an
        invariant
            0 <= i <= an,
            an == a@.len(),
            an == b@.len(),
            forall|j: int| 0 <= j < i ==> a@[j]@ == b@[j]@,
        decreases an - i,
    {
        if !str_eq(&a[i], &b[i]) {
            proof {
                assert(a@.map_values(|s: String| s@)[i as int] != b@.map_values(
                    |s: String| s@,
                )[i as int]);
            }
            return false;
        }
        i += 1;
    }
    proof {
        assert(a@.map_values(|s: String| s@) =~= b@.map_values(|s: String| s@));
    }
    true
}

/// A watcher: the local directory bound to a source on behalf of a user.
/// `complete` turns true only after a successful reconciliation.
#[derive(Clone, Debug)]
pub struct SherryConfigWatcherJSON {
    pub source: String,
    pub local_path: String,
    pub hashes_id: String,
    pub user_id: String,
    pub complete: bool,
}

/// Ghost mirror of `SherryConfigWatcherJSON`.
pub ghost struct WatcherV {
    pub source: Seq<char>,
    pub local_path: Seq<char>,
    pub hashes_id: Seq<char>,
    pub user_id: Seq<char>,
    pub complete: bool,
}

impl View for SherryConfigWatcherJSON {
    type V = WatcherV;

    open spec fn view(&self) -> WatcherV {
        WatcherV {
            source: self.source@,
            local_path: self.local_path@,
            hashes_id: self.hashes_id@,
            user_id: self.user_id@,
            complete: self.complete,
        }
    }
}

impl SherryConfigWatcherJSON {
    /// A field-by-field copy whose contents are known.
    pub fn duplicate(&self) -> (r: Self)
        ensures
            r@ == self@,
    {
        SherryConfigWatcherJSON {
            source: self.source.clone(),
            local_path: self.local_path.clone(),
            hashes_id: self.hashes_id.clone(),
            user_id: self.user_id.clone(),
            complete: self.complete,
        }
    }
}

/// Compares two watchers field by field.
pub fn watcher_eq(a: &SherryConfigWatcherJSON, b: &SherryConfigWatcherJSON) -> (r: bool)
    ensures
        r == (a@ == b@),
{
    let r = str_eq(&a.source, &b.source) && str_eq(&a.local_path, &b.local_path) && str_eq(
        &a.hashes_id,
        &b.hashes_id,
    ) && str_eq(&a.user_id, &b.user_id) && a.complete == b.complete;
    r
}

/// The views of a watcher list.
pub open spec fn watcher_views(s: Seq<SherryConfigWatcherJSON>) -> Seq<WatcherV> {
    s.map_values(|w: SherryConfigWatcherJSON| w@)
}

/// A source map seen through each source's ghost mirror.
pub open spec fn source_view_map(m: Map<Seq<char>, SherryConfigSourceJSON>) -> Map<
    Seq<char>,
    SourceV,
> {
    Map::new(|k: Seq<char>| m.dom().contains(k), |k: Seq<char>| m[k]@)
}

/// The main configuration envelope.
pub struct SherryConfigJSON {
    pub api_url: String,
    pub socket_url: String,
    pub sources: StrMap<SherryConfigSourceJSON>,
    pub watchers: Vec<SherryConfigWatcherJSON>,
    pub webhooks: Vec<String>,
}

impl SherryConfigJSON {
    pub open spec fn wf(self) -> bool {
        self.sources.wf()
    }

    /// The sources as a map of mirrors.
    pub open spec fn sources_map(self) -> Map<Seq<char>, SourceV> {
        source_view_map(self.sources.as_map())
    }

    /// The watchers as mirrors, in order.
    pub open spec fn watchers_view(self) -> Seq<WatcherV> {
        watcher_views(self.watchers@)
    }
}

/// One snapshot of both configuration documents.
pub struct SherryConfigUpdateData {
    pub data: SherryConfigJSON,
    pub auth: SherryAuthorizationConfigJSON,
}

/// A change of the configuration documents: the snapshot before and after.
pub struct SherryConfigUpdateEvent {
    pub old: SherryConfigUpdateData,
    pub new: SherryConfigUpdateData,
}

/// Maps the server's permission role onto local access rights.
pub open spec fn spec_role_to_access(role: ApiFolderPermissionAccessRights) -> AccessRights {
    match role {
        ApiFolderPermissionAccessRights::Read => AccessRights::Read,
        ApiFolderPermissionAccessRights::Write => AccessRights::Write,
        ApiFolderPermissionAccessRights::Owner => AccessRights::Owner,
    }
}

/// Maps the server's permission role onto local access rights.
pub fn response_role_to_access(role: ApiFolderPermissionAccessRights) -> (r: AccessRights)
    ensures
        r == spec_role_to_access(role),
{
    match role {
        ApiFolderPermissionAccessRights::Read => AccessRights::Read,
        ApiFolderPermissionAccessRights::Write => AccessRights::Write,
        ApiFolderPermissionAccessRights::Owner => AccessRights::Owner,
    }
}

/// The source a folder response describes for `user_id`: the server's
/// policy and the role its first permission entry for that user grants;
/// none when the user holds no permission on the folder.
pub open spec fn spec_response_to_folder(response: ApiFolderResponse, user_id: Seq<char>) -> Option<
    SourceV,
> {
    let p = perm_find(response.sherry_permission@, user_id);
    if p == -1 {
        None
    } else {
        Some(
            SourceV {
                id: response.sherry_id@,
                name: response.name@,
                access: spec_role_to_access(response.sherry_permission@[p].role),
                user_id: user_id,
                owner_id: response.user_id@,
                max_file_size: response.max_file_size,
                max_dir_size: response.max_dir_size,
                allow_dir: response.allow_dir,
                allowed_file_names: response.allowed_file_names@.map_values(
                    |n: crate::server_types::ApiFolderAllowedFileNameResponse| n.name@,
                ),
                allowed_file_types: response.allowed_file_types@.map_values(
                    |t: crate::server_types::ApiFolderAllowedFileTypeResponse| t._type@,
                ),
            },
        )
    }
}

/// The first permission entry of `response` held by `user_id`.
fn find_permission(response: &ApiFolderResponse, user_id: &String) -> (r: Option<usize>)
    ensures
        match r {
            Some(p) => perm_find(response.sherry_permission@, user_id@) == p as int && p
                < response.sherry_permission@.len(),
            None => perm_find(response.sherry_permission@, user_id@) == -1,
        },
{
    let pn = response.sherry_permission.len();
    let mut p: usize = 0;
    while p < pn
        invariant
            0 <= p <= pn,
            pn == response.sherry_permission@.len(),
            forall|j: int|
                0 <= j < p ==> (#[trigger] response.sherry_permission@[j]).user_id@ != user_id@,
        decreases pn - p,
    {
        if str_eq(&response.sherry_permission[p].user_id, user_id) {
            proof {
                lemma_perm_find_at(response.sherry_permission@, user_id@, p as int);
            }
            return Some(p);
        }
        p += 1;
    }
    proof {
        lemma_perm_find_none(response.sherry_permission@, user_id@);
    }
    None
}

/// Builds the local source record from a folder response, or fails when
/// the response grants `user_id` no permission.
pub fn response_to_folder(response: &ApiFolderResponse, user_id: &String) -> (r: Result<
    SherryConfigSourceJSON,
    (),
>)
    ensures
        match r {
            Ok(s) => spec_response_to_folder(*response, user_id@) == Some(s@),
            Err(_) => spec_response_to_folder(*response, user_id@) is None,
        },
{
    let found = find_permission(response, user_id);
    match found {
        None => Err(()),
        Some(pi) => {
            let mut names: Vec<String> = Vec::new();
            let nn = response.allowed_file_names.len();
            let mut i: usize = 0;
            while i < nn
                invariant
                    0 <= i <= nn,
                    nn == response.allowed_file_names@.len(),
                    names@.len() == i,
                    forall|j: int|
                        0 <= j < i ==> names@[j]@ == response.allowed_file_names@[j].name@,
                decreases nn - i,
            {
                names.push(response.allowed_file_names[i].name.clone());
                i += 1;
            }
            let mut types: Vec<String> = Vec::new();
            let tn = response.allowed_file_types.len();
            let mut t: usize = 0;
            while t < tn
                invariant
                    0 <= t <= tn,
                    tn == response.allowed_file_types@.len(),
                    types@.len() == t,
                    forall|j: int|
                        0 <= j < t ==> types@[j]@ == response.allowed_file_types@[j]._type@,
                decreases tn - t,
            {
                types.push(response.allowed_file_types[t]._type.clone());
                t += 1;
            }
            let s = SherryConfigSourceJSON {
                id: response.sherry_id.clone(),
                name: response.name.clone(),
                access: response_role_to_access(response.sherry_permission[pi].role),
                user_id: user_id.clone(),
                owner_id: response.user_id.clone(),
                max_file_size: response.max_file_size,
                max_dir_size: response.max_dir_size,
                allow_dir: response.allow_dir,
                allowed_file_names: names,
                allowed_file_types: types,
            };
            proof {
                assert(s@.allowed_file_names =~= response.allowed_file_names@.map_values(
                    |n: crate::server_types::ApiFolderAllowedFileNameResponse| n.name@,
                ));
                assert(s@.allowed_file_types =~= response.allowed_file_types@.map_values(
                    |t2: crate::server_types::ApiFolderAllowedFileTypeResponse| t2._type@,
                ));
            }
            Ok(s)
        },
    }
}

/// The first watcher whose configured path is a prefix of `path`, or -1.
pub open spec fn watcher_covering(ws: Seq<WatcherV>, path: Seq<char>) -> int
    decreases ws.len(),
{
    if ws.len() == 0 {
        -1
    } else if is_prefix_of(ws[0].local_path, path) {
        0
    } else {
        let r = watcher_covering(ws.skip(1), path);
        if r == -1 {
            -1
        } else {
            1 + r
        }
    }
}

proof fn lemma_watcher_covering_none(ws: Seq<WatcherV>, path: Seq<char>)
    requires
        forall|j: int| 0 <= j < ws.len() ==> !is_prefix_of((#[trigger] ws[j]).local_path, path),
    ensures
        watcher_covering(ws, path) == -1,
    decreases ws.len(),
{
    if ws.len() > 0 {
        assert(forall|j: int| 0 <= j < ws.skip(1).len() ==> ws.skip(1)[j] == ws[j + 1]);
        lemma_watcher_covering_none(ws.skip(1), path);
    }
}

proof fn lemma_watcher_covering_at(ws: Seq<WatcherV>, path: Seq<char>, p: int)
    requires
        0 <= p < ws.len(),
        is_prefix_of(ws[p].local_path, path),
        forall|j: int| 0 <= j < p ==> !is_prefix_of((#[trigger] ws[j]).local_path, path),
    ensures
        watcher_covering(ws, path) == p,
    decreases ws.len(),
{
    if p > 0 {
        assert(forall|j: int| 0 <= j < ws.skip(1).len() ==> ws.skip(1)[j] == ws[j + 1]);
        lemma_watcher_covering_at(ws.skip(1), path, p - 1);
    }
}

/// Finds the watcher whose directory contains `path`: the first whose
/// configured path opens it.
pub fn get_source_by_path<'a>(config: &'a SherryConfigJSON, path: &String) -> (r: Option<
    &'a SherryConfigWatcherJSON,
>)
    ensures
        match r {
            Some(w) => {
                let i = watcher_covering(config.watchers_view(), path@);
                0 <= i < config.watchers_view().len() && w@ == config.watchers_view()[i]
            },
            None => watcher_covering(config.watchers_view(), path@) == -1,
        },
{
    let n = config.watchers.len();
    let mut i: usize = 0;
    while i < n
        invariant
            0 <= i <= n,
            n == config.watchers@.len(),
            forall|j: int|
                0 <= j < i ==> !is_prefix_of(
                    (#[trigger] config.watchers_view()[j]).local_path,
                    path@,
                ),
        decreases n - i,
    {
        if starts_with_str(path, &config.watchers[i].local_path) {
            proof {
                lemma_watcher_covering_at(config.watchers_view(), path@, i as int);
            }
            return Some(&config.watchers[i]);
        }
        i += 1;
    }
    proof {
        lemma_watcher_covering_none(config.watchers_view(), path@);
    }
    None
}

// ---------------------------------------------------------------------
// Config revalidation
// ---------------------------------------------------------------------

/// The source entry list, as mirrors, in storage order.
pub open spec fn source_entries(m: StrMap<SherryConfigSourceJSON>) -> Seq<(Seq<char>, SourceV)> {
    m.entries@.map_values(|e: (String, SherryConfigSourceJSON)| (e.0@, e.1@))
}

/// The first watcher configured at `lp`, or -1.
pub open spec fn watcher_by_path(ws: Seq<WatcherV>, lp: Seq<char>) -> int
    decreases ws.len(),
{
    if ws.len() == 0 {
        -1
    } else if ws[0].local_path == lp {
        0
    } else {
        let r = watcher_by_path(ws.skip(1), lp);
        if r == -1 {
            -1
        } else {
            1 + r
        }
    }
}

proof fn lemma_watcher_by_path_none(ws: Seq<WatcherV>, lp: Seq<char>)
    requires
        forall|j: int| 0 <= j < ws.len() ==> (#[trigger] ws[j]).local_path != lp,
    ensures
        watcher_by_path(ws, lp) == -1,
    decreases ws.len(),
{
    if ws.len() > 0 {
        assert(forall|j: int| 0 <= j < ws.skip(1).len() ==> ws.skip(1)[j] == ws[j + 1]);
        lemma_watcher_by_path_none(ws.skip(1), lp);
    }
}

proof fn lemma_watcher_by_path_at(ws: Seq<WatcherV>, lp: Seq<char>, p: int)
    requires
        0 <= p < ws.len(),
        ws[p].local_path == lp,
        forall|j: int| 0 <= j < p ==> (#[trigger] ws[j]).local_path != lp,
    ensures
        watcher_by_path(ws, lp) == p,
    decreases ws.len(),
{
    if p > 0 {
        assert(forall|j: int| 0 <= j < ws.skip(1).len() ==> ws.skip(1)[j] == ws[j + 1]);
        lemma_watcher_by_path_at(ws.skip(1), lp, p - 1);
    }
}

/// Finds the first watcher configured at `lp`.
fn find_watcher_by_path(ws: &Vec<SherryConfigWatcherJSON>, lp: &String) -> (r: Option<usize>)
    ensures
        match r {
            Some(i) => i < ws@.len() && watcher_by_path(watcher_views(ws@), lp@) == i as int,
            None => watcher_by_path(watcher_views(ws@), lp@) == -1,
        },
{
    let n = ws.len();
    let mut i: usize = 0;
    while i < n
        invariant
            0 <= i <= n,
            n == ws@.len(),
            forall|j: int| 0 <= j < i ==> (#[trigger] watcher_views(ws@)[j]).local_path != lp@,
        decreases n - i,
    {
        if str_eq(&ws[i].local_path, lp) {
            proof {
                lemma_watcher_by_path_at(watcher_views(ws@), lp@, i as int);
            }
            return Some(i);
        }
        i += 1;
    }
    proof {
        lemma_watcher_by_path_none(watcher_views(ws@), lp@);
    }
    None
}

/// Whether a watcher can stand: its user is known, its source is
/// configured, and its directory exists.
pub open spec fn watcher_ok(
    w: WatcherV,
    users: Map<Seq<char>, crate::auth::CredentialsV>,
    sources: Map<Seq<char>, SourceV>,
    fsm: Map<Seq<char>, crate::expand::FsNode>,
) -> bool {
    users.contains_key(w.user_id) && sources.contains_key(w.source) && fsm.contains_key(
        norm_path(w.local_path),
    )
}

/// How one watcher of the incoming config is classified.
#[derive(Clone, Copy, PartialEq, Eq, Structural, Debug)]
pub enum WatcherClass {
    Invalid,
    New,
    Updated,
    Valid,
}

/// The class of one watcher: invalid when it cannot stand, new when the
/// old config had no watcher at its path, updated when it differs from
/// that watcher, valid otherwise.
pub open spec fn watcher_class(
    w: WatcherV,
    old_ws: Seq<WatcherV>,
    users: Map<Seq<char>, crate::auth::CredentialsV>,
    sources: Map<Seq<char>, SourceV>,
    fsm: Map<Seq<char>, crate::expand::FsNode>,
) -> WatcherClass {
    if !watcher_ok(w, users, sources, fsm) {
        WatcherClass::Invalid
    } else {
        let i = watcher_by_path(old_ws, w.local_path);
        if i == -1 {
            WatcherClass::New
        } else if old_ws[i] != w {
            WatcherClass::Updated
        } else {
            WatcherClass::Valid
        }
    }
}

/// The watchers among the first `i` that fall in class `c`.
pub open spec fn watchers_in_class(
    ws: Seq<WatcherV>,
    old_ws: Seq<WatcherV>,
    users: Map<Seq<char>, crate::auth::CredentialsV>,
    sources: Map<Seq<char>, SourceV>,
    fsm: Map<Seq<char>, crate::expand::FsNode>,
    c: WatcherClass,
    i: int,
) -> Seq<WatcherV>
    decreases i,
{
    if i <= 0 {
        Seq::empty()
    } else {
        let acc = watchers_in_class(ws, old_ws, users, sources, fsm, c, i - 1);
        if watcher_class(ws[i - 1], old_ws, users, sources, fsm) == c {
            acc.push(ws[i - 1])
        } else {
            acc
        }
    }
}

/// The old watchers among the first `i` whose hashes id vanished from the
/// incoming config.
pub open spec fn watchers_deleted(old_ws: Seq<WatcherV>, new_ws: Seq<WatcherV>, i: int) -> Seq<
    WatcherV,
>
    decreases i,
{
    if i <= 0 {
        Seq::empty()
    } else {
        let acc = watchers_deleted(old_ws, new_ws, i - 1);
        if !(exists|j: int|
            0 <= j < new_ws.len() && (#[trigger] new_ws[j]).hashes_id == old_ws[i - 1].hashes_id) {
            acc.push(old_ws[i - 1])
        } else {
            acc
        }
    }
}

/// Whether any watcher of `ws` binds to source key `k`.
pub open spec fn source_referenced(ws: Seq<WatcherV>, k: Seq<char>) -> bool {
    exists|j: int| 0 <= j < ws.len() && (#[trigger] ws[j]).source == k
}

/// How one configured source fares against the server's view.
#[derive(Clone, Copy, PartialEq, Eq, Structural, Debug)]
pub enum SourceClass {
    Unreferenced,
    FetchFailed,
    NoPermission,
    Updated,
    Valid,
}

/// The class of one source entry: unreferenced when no surviving watcher
/// binds to it, failed when the server lookup brought nothing, without
/// permission when the response grants its user none, and otherwise
/// updated or valid by comparison with the server's view.
pub open spec fn source_class(
    key: Seq<char>,
    src: SourceV,
    current: Seq<WatcherV>,
    folders: Map<Seq<char>, crate::server_types::ApiFolderResponse>,
) -> SourceClass {
    if !source_referenced(current, key) {
        SourceClass::Unreferenced
    } else if !folders.contains_key(key) {
        SourceClass::FetchFailed
    } else {
        match spec_response_to_folder(folders[key], src.user_id) {
            None => SourceClass::NoPermission,
            Some(actual) => {
                if actual != src {
                    SourceClass::Updated
                } else {
                    SourceClass::Valid
                }
            },
        }
    }
}

/// The server's view of entry `j`, where its class grants one.
pub open spec fn source_actual(
    entries: Seq<(Seq<char>, SourceV)>,
    j: int,
    folders: Map<Seq<char>, crate::server_types::ApiFolderResponse>,
) -> SourceV {
    spec_response_to_folder(folders[entries[j].0], entries[j].1.user_id).unwrap()
}

/// The valid sources among the first `i` entries, as a map.
pub open spec fn sources_valid(
    entries: Seq<(Seq<char>, SourceV)>,
    current: Seq<WatcherV>,
    folders: Map<Seq<char>, crate::server_types::ApiFolderResponse>,
    i: int,
) -> Map<Seq<char>, SourceV>
    decreases i,
{
    if i <= 0 {
        Map::empty()
    } else {
        let acc = sources_valid(entries, current, folders, i - 1);
        if source_class(entries[i - 1].0, entries[i - 1].1, current, folders)
            == SourceClass::Valid {
            acc.insert(entries[i - 1].0, source_actual(entries, i - 1, folders))
        } else {
            acc
        }
    }
}

/// The updated sources among the first `i` entries, as a map of the
/// server's views.
pub open spec fn sources_updated(
    entries: Seq<(Seq<char>, SourceV)>,
    current: Seq<WatcherV>,
    folders: Map<Seq<char>, crate::server_types::ApiFolderResponse>,
    i: int,
) -> Map<Seq<char>, SourceV>
    decreases i,
{
    if i <= 0 {
        Map::empty()
    } else {
        let acc = sources_updated(entries, current, folders, i - 1);
        if source_class(entries[i - 1].0, entries[i - 1].1, current, folders)
            == SourceClass::Updated {
            acc.insert(entries[i - 1].0, source_actual(entries, i - 1, folders))
        } else {
            acc
        }
    }
}

/// The sources among the first `i` entries that drop out, with their old
/// records.
pub open spec fn sources_invalid(
    entries: Seq<(Seq<char>, SourceV)>,
    current: Seq<WatcherV>,
    folders: Map<Seq<char>, crate::server_types::ApiFolderResponse>,
    i: int,
) -> Map<Seq<char>, SourceV>
    decreases i,
{
    if i <= 0 {
        Map::empty()
    } else {
        let acc = sources_invalid(entries, current, folders, i - 1);
        let c = source_class(entries[i - 1].0, entries[i - 1].1, current, folders);
        if c == SourceClass::Unreferenced || c == SourceClass::FetchFailed || c
            == SourceClass::NoPermission {
            acc.insert(entries[i - 1].0, entries[i - 1].1)
        } else {
            acc
        }
    }
}

/// Whether a surviving watcher loses its source to a failed server
/// lookup: the source is configured but the lookup brought nothing.
pub open spec fn loses_source(
    w: WatcherV,
    sources: Map<Seq<char>, SourceV>,
    folders: Map<Seq<char>, crate::server_types::ApiFolderResponse>,
) -> bool {
    sources.contains_key(w.source) && !folders.contains_key(w.source)
}

/// The watchers among the first `i` that keep their source.
pub open spec fn current_kept(
    current: Seq<WatcherV>,
    sources: Map<Seq<char>, SourceV>,
    folders: Map<Seq<char>, crate::server_types::ApiFolderResponse>,
    i: int,
) -> Seq<WatcherV>
    decreases i,
{
    if i <= 0 {
        Seq::empty()
    } else {
        let acc = current_kept(current, sources, folders, i - 1);
        if loses_source(current[i - 1], sources, folders) {
            acc
        } else {
            acc.push(current[i - 1])
        }
    }
}

/// The watchers among the first `i` that lose their source.
pub open spec fn current_lost(
    current: Seq<WatcherV>,
    sources: Map<Seq<char>, SourceV>,
    folders: Map<Seq<char>, crate::server_types::ApiFolderResponse>,
    i: int,
) -> Seq<WatcherV>
    decreases i,
{
    if i <= 0 {
        Seq::empty()
    } else {
        let acc = current_lost(current, sources, folders, i - 1);
        if loses_source(current[i - 1], sources, folders) {
            acc.push(current[i - 1])
        } else {
            acc
        }
    }
}

/// The pre-reconciliation stage of a config revalidation: what it
/// classified and what survives so far.
pub struct RevalidatePre {
    pub invalid_watchers: Vec<SherryConfigWatcherJSON>,
    pub valid_watchers: Vec<SherryConfigWatcherJSON>,
    pub new_watchers: Vec<SherryConfigWatcherJSON>,
    pub updated_watchers: Vec<SherryConfigWatcherJSON>,
    pub deleted_watchers: Vec<SherryConfigWatcherJSON>,
    pub current_watchers: Vec<SherryConfigWatcherJSON>,
    pub valid_sources: StrMap<SherryConfigSourceJSON>,
    pub updated_sources: StrMap<SherryConfigSourceJSON>,
    pub invalid_sources: StrMap<SherryConfigSourceJSON>,
}

/// Classifies the incoming config before the reconciliation sweep: each
/// watcher against the auth store, the configured sources and the disk;
/// each referenced source against the server's view (`folders` holds the
/// successful lookups, keyed like the sources); watchers of a source
/// whose lookup failed drop out with it. Invariant of the survivors:
/// every current watcher has a known user, a configured source and an
/// existing directory.
pub fn revalidate_config_begin(
    new: &SherryConfigJSON,
    old: &SherryConfigJSON,
    auth: &SherryAuthorizationConfigJSON,
    fs: &crate::expand::FsSnapshot,
    folders: &StrMap<crate::server_types::ApiFolderResponse>,
) -> (r: RevalidatePre)
    requires
        new.wf(),
        old.wf(),
        auth.wf(),
        fs.wf(),
        folders.wf(),
    ensures
        ({
            let ws = new.watchers_view();
            let old_ws = old.watchers_view();
            let users = auth.records_map();
            let sources = new.sources_map();
            let fsm = fs.as_map();
            let n = ws.len() as int;
            let current0 = watchers_in_class(ws, old_ws, users, sources, fsm, WatcherClass::Valid, n).add(
                watchers_in_class(ws, old_ws, users, sources, fsm, WatcherClass::New, n),
            ).add(watchers_in_class(ws, old_ws, users, sources, fsm, WatcherClass::Updated, n));
            let entries = source_entries(new.sources);
            let sn = entries.len() as int;
            let fm = folders.as_map();
            &&& watcher_views(r.valid_watchers@) == watchers_in_class(ws, old_ws, users, sources, fsm, WatcherClass::Valid, n)
            &&& watcher_views(r.new_watchers@) == watchers_in_class(ws, old_ws, users, sources, fsm, WatcherClass::New, n)
            &&& watcher_views(r.updated_watchers@) == watchers_in_class(ws, old_ws, users, sources, fsm, WatcherClass::Updated, n)
            &&& watcher_views(r.deleted_watchers@) == watchers_deleted(old_ws, ws, old_ws.len() as int)
            &&& watcher_views(r.invalid_watchers@) == watchers_in_class(ws, old_ws, users, sources, fsm, WatcherClass::Invalid, n).add(
                current_lost(current0, sources, fm, current0.len() as int),
            )
            &&& watcher_views(r.current_watchers@) == current_kept(current0, sources, fm, current0.len() as int)
            &&& r.valid_sources.wf()
            &&& r.updated_sources.wf()
            &&& r.invalid_sources.wf()
            &&& source_view_map(r.valid_sources.as_map()) == sources_valid(entries, current0, fm, sn)
            &&& source_view_map(r.updated_sources.as_map()) == sources_updated(entries, current0, fm, sn)
            &&& source_view_map(r.invalid_sources.as_map()) == sources_invalid(entries, current0, fm, sn)
            &&& forall|j: int|
                0 <= j < watcher_views(r.current_watchers@).len() ==> watcher_ok(
                    #[trigger] watcher_views(r.current_watchers@)[j],
                    users,
                    sources,
                    fsm,
                )
        }),
{
    let ghost ws = new.watchers_view();
    let ghost old_ws = old.watchers_view();
    let ghost users = auth.records_map();
    let ghost sources = new.sources_map();
    let ghost fsm = fs.as_map();

    let mut invalid_watchers: Vec<SherryConfigWatcherJSON> = Vec::new();
    let mut valid_watchers: Vec<SherryConfigWatcherJSON> = Vec::new();
    let mut new_watchers: Vec<SherryConfigWatcherJSON> = Vec::new();
    let mut updated_watchers: Vec<SherryConfigWatcherJSON> = Vec::new();

    let n = new.watchers.len();
    let mut i: usize = 0;
    while i < n
        invariant
            0 <= i <= n,
            n == new.watchers@.len(),
            new.wf(),
            old.wf(),
            auth.wf(),
            fs.wf(),
            ws == new.watchers_view(),
            old_ws == old.watchers_view(),
            users == auth.records_map(),
            sources == new.sources_map(),
            fsm == fs.as_map(),
            watcher_views(invalid_watchers@) == watchers_in_class(ws, old_ws, users, sources, fsm, WatcherClass::Invalid, i as int),
            watcher_views(valid_watchers@) == watchers_in_class(ws, old_ws, users, sources, fsm, WatcherClass::Valid, i as int),
            watcher_views(new_watchers@) == watchers_in_class(ws, old_ws, users, sources, fsm, WatcherClass::New, i as int),
            watcher_views(updated_watchers@) == watchers_in_class(ws, old_ws, users, sources, fsm, WatcherClass::Updated, i as int),
            forall|j: int|
                0 <= j < watcher_views(valid_watchers@).len() ==> watcher_ok(
                    #[trigger] watcher_views(valid_watchers@)[j],
                    users,
                    sources,
                    fsm,
                ),
            forall|j: int|
                0 <= j < watcher_views(new_watchers@).len() ==> watcher_ok(
                    #[trigger] watcher_views(new_watchers@)[j],
                    users,
                    sources,
                    fsm,
                ),
            forall|j: int|
                0 <= j < watcher_views(updated_watchers@).len() ==> watcher_ok(
                    #[trigger] watcher_views(updated_watchers@)[j],
                    users,
                    sources,
                    fsm,
                ),
        decreases n - i,
    {
        let w = &new.watchers[i];
        let user_known = auth.records.contains_key(&w.user_id);
        let source_known = new.sources.contains_key(&w.source);
        let base = crate::helpers::normalize_path(&w.local_path);
        let node = fs.lookup(&base);
        let path_exists = match node {
            Some(_) => true,
            None => false,
        };
        if !(user_known && source_known && path_exists) {
            invalid_watchers.push(w.duplicate());
        } else {
            match find_watcher_by_path(&old.watchers, &w.local_path) {
                None => {
                    new_watchers.push(w.duplicate());
                },
                Some(oi) => {
                    if !watcher_eq(&old.watchers[oi], w) {
                        updated_watchers.push(w.duplicate());
                    } else {
                        valid_watchers.push(w.duplicate());
                    }
                },
            }
        }
        i += 1;
        proof {
            assert(watcher_views(invalid_watchers@) =~= watchers_in_class(ws, old_ws, users, sources, fsm, WatcherClass::Invalid, i as int));
            assert(watcher_views(valid_watchers@) =~= watchers_in_class(ws, old_ws, users, sources, fsm, WatcherClass::Valid, i as int));
            assert(watcher_views(new_watchers@) =~= watchers_in_class(ws, old_ws, users, sources, fsm, WatcherClass::New, i as int));
            assert(watcher_views(updated_watchers@) =~= watchers_in_class(ws, old_ws, users, sources, fsm, WatcherClass::Updated, i as int));
        }
    }

    // old watchers that vanished
    let mut deleted_watchers: Vec<SherryConfigWatcherJSON> = Vec::new();
    let on = old.watchers.len();
    let mut oi: usize = 0;
    while oi < on
        invariant
            0 <= oi <= on,
            on == old.watchers@.len(),
            new.wf(),
            old.wf(),
            ws == new.watchers_view(),
            old_ws == old.watchers_view(),
            watcher_views(deleted_watchers@) == watchers_deleted(old_ws, ws, oi as int),
        decreases on - oi,
    {
        let ow = &old.watchers[oi];
        let mut found = false;
        let nn = new.watchers.len();
        let mut j: usize = 0;
        while j < nn
            invariant
                0 <= j <= nn,
                nn == new.watchers@.len(),
                ws == new.watchers_view(),
                oi < on,
                on == old.watchers@.len(),
                old_ws == old.watchers_view(),
                ow@ == old_ws[oi as int],
                found == exists|t: int|
                    0 <= t < j && (#[trigger] ws[t]).hashes_id == old_ws[oi as int].hashes_id,
            decreases nn - j,
        {
            if str_eq(&new.watchers[j].hashes_id, &ow.hashes_id) {
                proof {
                    assert(ws[j as int].hashes_id == old_ws[oi as int].hashes_id);
                }
                found = true;
            }
            j += 1;
        }
        if !found {
            deleted_watchers.push(ow.duplicate());
        }
        oi += 1;
        proof {
            assert(watcher_views(deleted_watchers@) =~= watchers_deleted(old_ws, ws, oi as int));
        }
    }

    // survivors so far, in class order
    let current: Vec<SherryConfigWatcherJSON> = concat_watchers(
        &valid_watchers,
        &new_watchers,
        &updated_watchers,
    );
    let ghost current0 = watcher_views(current@);
    proof {
        assert(current0 =~= watchers_in_class(ws, old_ws, users, sources, fsm, WatcherClass::Valid, n as int).add(
            watchers_in_class(ws, old_ws, users, sources, fsm, WatcherClass::New, n as int),
        ).add(watchers_in_class(ws, old_ws, users, sources, fsm, WatcherClass::Updated, n as int)));
    }

    // sources against the server's view
    let ghost entries = source_entries(new.sources);
    let ghost fm = folders.as_map();
    let mut valid_sources: StrMap<SherryConfigSourceJSON> = StrMap::new();
    let mut updated_sources: StrMap<SherryConfigSourceJSON> = StrMap::new();
    let mut invalid_sources: StrMap<SherryConfigSourceJSON> = StrMap::new();
    let sn = new.sources.len();
    let mut si: usize = 0;
    proof {
        assert(source_view_map(valid_sources.as_map()) =~= sources_valid(entries, current0, fm, 0));
        assert(source_view_map(updated_sources.as_map()) =~= sources_updated(entries, current0, fm, 0));
        assert(source_view_map(invalid_sources.as_map()) =~= sources_invalid(entries, current0, fm, 0));
    }
    while si < sn
        invariant
            0 <= si <= sn,
            sn == new.sources.spec_len(),
            new.wf(),
            folders.wf(),
            entries == source_entries(new.sources),
            fm == folders.as_map(),
            current0 == watcher_views(current@),
            valid_sources.wf(),
            updated_sources.wf(),
            invalid_sources.wf(),
            source_view_map(valid_sources.as_map()) == sources_valid(entries, current0, fm, si as int),
            source_view_map(updated_sources.as_map()) == sources_updated(entries, current0, fm, si as int),
            source_view_map(invalid_sources.as_map()) == sources_invalid(entries, current0, fm, si as int),
        decreases sn - si,
    {
        let key = new.sources.key_at(si);
        let src = new.sources.val_at(si);
        proof {
            assert(entries[si as int] == (new.sources.entries@[si as int].0@, new.sources.entries@[
                si as int].1@));
        }
        let mut referenced = false;
        let cn = current.len();
        let mut cj: usize = 0;
        while cj < cn
            invariant
                0 <= cj <= cn,
                cn == current@.len(),
                current0 == watcher_views(current@),
                si < sn,
                sn == new.sources.spec_len(),
                entries == source_entries(new.sources),
                key@ == entries[si as int].0,
                referenced == exists|t: int|
                    0 <= t < cj && (#[trigger] current0[t]).source == entries[si as int].0,
            decreases cn - cj,
        {
            if str_eq(&current[cj].source, key) {
                proof {
                    assert(current0[cj as int].source == entries[si as int].0);
                }
                referenced = true;
            }
            cj += 1;
        }
        let ghost vm0 = valid_sources.as_map();
        let ghost um0 = updated_sources.as_map();
        let ghost im0 = invalid_sources.as_map();
        if !referenced {
            invalid_sources.insert(key.clone(), src.duplicate());
        } else {
            match folders.get(key) {
                None => {
                    invalid_sources.insert(key.clone(), src.duplicate());
                },
                Some(folder) => {
                    match response_to_folder(folder, &src.user_id) {
                        Err(_) => {
                            invalid_sources.insert(key.clone(), src.duplicate());
                        },
                        Ok(actual) => {
                            if !source_eq(&actual, src) {
                                updated_sources.insert(key.clone(), actual);
                            } else {
                                valid_sources.insert(key.clone(), actual);
                            }
                        },
                    }
                },
            }
        }
        si += 1;
        proof {
            assert(source_view_map(valid_sources.as_map()) =~= sources_valid(entries, current0, fm, si as int));
            assert(source_view_map(updated_sources.as_map()) =~= sources_updated(entries, current0, fm, si as int));
            assert(source_view_map(invalid_sources.as_map()) =~= sources_invalid(entries, current0, fm, si as int));
        }
    }

    // watchers whose source lookup failed drop out with it
    let mut kept: Vec<SherryConfigWatcherJSON> = Vec::new();
    let cn = current.len();
    let mut ci: usize = 0;
    proof {
        assert(watcher_views(kept@) =~= current_kept(current0, sources, fm, 0));
        assert(watcher_views(invalid_watchers@) =~= watchers_in_class(ws, old_ws, users, sources, fsm, WatcherClass::Invalid, n as int).add(
            current_lost(current0, sources, fm, 0),
        ));
    }
    while ci < cn
        invariant
            0 <= ci <= cn,
            cn == current@.len(),
            new.wf(),
            folders.wf(),
            sources == new.sources_map(),
            fm == folders.as_map(),
            current0 == watcher_views(current@),
            users == auth.records_map(),
            fsm == fs.as_map(),
            watcher_views(kept@) == current_kept(current0, sources, fm, ci as int),
            watcher_views(invalid_watchers@) == watchers_in_class(ws, old_ws, users, sources, fsm, WatcherClass::Invalid, n as int).add(
                current_lost(current0, sources, fm, ci as int),
            ),
            ws == new.watchers_view(),
            old_ws == old.watchers_view(),
            n == new.watchers@.len(),
            forall|j: int|
                0 <= j < current0.len() ==> watcher_ok(#[trigger] current0[j], users, sources, fsm),
            forall|j: int|
                0 <= j < watcher_views(kept@).len() ==> watcher_ok(
                    #[trigger] watcher_views(kept@)[j],
                    users,
                    sources,
                    fsm,
                ),
        decreases cn - ci,
    {
        let w = &current[ci];
        proof {
            assert(w@ == current0[ci as int]);
        }
        let src_configured = new.sources.contains_key(&w.source);
        let fetched = folders.contains_key(&w.source);
        proof {
            assert(src_configured == sources.contains_key(current0[ci as int].source));
            assert(fetched == fm.contains_key(current0[ci as int].source));
            assert((src_configured && !fetched) == loses_source(current0[ci as int], sources, fm));
        }
        let ghost inv0 = watcher_views(invalid_watchers@);
        if src_configured && !fetched {
            invalid_watchers.push(w.duplicate());
        } else {
            kept.push(w.duplicate());
        }
        ci += 1;
        proof {
            if loses_source(current0[ci - 1], sources, fm) {
                assert(watcher_views(invalid_watchers@) =~= inv0.push(current0[ci - 1]));
                assert(current_lost(current0, sources, fm, ci as int) == current_lost(
                    current0,
                    sources,
                    fm,
                    ci - 1,
                ).push(current0[ci - 1]));
                assert(watchers_in_class(ws, old_ws, users, sources, fsm, WatcherClass::Invalid, n as int).add(
                    current_lost(current0, sources, fm, ci - 1),
                ).push(current0[ci - 1]) =~= watchers_in_class(ws, old_ws, users, sources, fsm, WatcherClass::Invalid, n as int).add(
                    current_lost(current0, sources, fm, ci as int),
                ));
            } else {
                assert(watcher_views(invalid_watchers@) =~= inv0);
            }
            assert(current_kept(current0, sources, fm, ci as int) == if loses_source(
                current0[ci - 1],
                sources,
                fm,
            ) {
                current_kept(current0, sources, fm, ci - 1)
            } else {
                current_kept(current0, sources, fm, ci - 1).push(current0[ci - 1])
            });
            assert(watcher_views(kept@) =~= current_kept(current0, sources, fm, ci as int));
            assert(watcher_views(invalid_watchers@) =~= watchers_in_class(ws, old_ws, users, sources, fsm, WatcherClass::Invalid, n as int).add(
                current_lost(current0, sources, fm, ci as int),
            ));
        }
    }

    RevalidatePre {
        invalid_watchers,
        valid_watchers,
        new_watchers,
        updated_watchers,
        deleted_watchers,
        current_watchers: kept,
        valid_sources,
        updated_sources,
        invalid_sources,
    }
}

/// Concatenates copies of three watcher lists.
fn concat_watchers(
    a: &Vec<SherryConfigWatcherJSON>,
    b: &Vec<SherryConfigWatcherJSON>,
    c: &Vec<SherryConfigWatcherJSON>,
) -> (r: Vec<SherryConfigWatcherJSON>)
    ensures
        watcher_views(r@) == watcher_views(a@).add(watcher_views(b@)).add(watcher_views(c@)),
{
    let mut out: Vec<SherryConfigWatcherJSON> = Vec::new();
    let an = a.len();
    let mut i: usize = 0;
    while i < an
        invariant
            0 <= i <= an,
            an == a@.len(),
            out@.len() == i,
            forall|j2: int| 0 <= j2 < i ==> out@[j2]@ == a@[j2]@,
        decreases an - i,
    {
        out.push(a[i].duplicate());
        i += 1;
    }
    let bn = b.len();
    let mut j: usize = 0;
    while j < bn
        invariant
            0 <= j <= bn,
            bn == b@.len(),
            an == a@.len(),
            out@.len() == an + j,
            forall|t: int| 0 <= t < an ==> out@[t]@ == a@[t]@,
            forall|t: int| 0 <= t < j ==> out@[an + t]@ == b@[t]@,
        decreases bn - j,
    {
        out.push(b[j].duplicate());
        j += 1;
    }
    let cn = c.len();
    let mut k: usize = 0;
    while k < cn
        invariant
            0 <= k <= cn,
            cn == c@.len(),
            an == a@.len(),
            bn == b@.len(),
            out@.len() == an + bn + k,
            forall|t: int| 0 <= t < an ==> out@[t]@ == a@[t]@,
            forall|t: int| 0 <= t < bn ==> out@[an + t]@ == b@[t]@,
            forall|t: int| 0 <= t < k ==> out@[an + bn + t]@ == c@[t]@,
        decreases cn - k,
    {
        out.push(c[k].duplicate());
        k += 1;
    }
    proof {
        assert(watcher_views(out@) =~= watcher_views(a@).add(watcher_views(b@)).add(
            watcher_views(c@),
        ));
    }
    out
}

/// Inserting into a source map and mirroring commute.
pub proof fn lemma_source_view_map_insert(
    m: Map<Seq<char>, SherryConfigSourceJSON>,
    k: Seq<char>,
    v: SherryConfigSourceJSON,
)
    ensures
        source_view_map(m.insert(k, v)) == source_view_map(m).insert(k, v@),
{
    assert(source_view_map(m.insert(k, v)) =~= source_view_map(m).insert(k, v@));
}

/// Whether `w` occurs in `ws` (field-for-field).
pub open spec fn watcher_in(ws: Seq<WatcherV>, w: WatcherV) -> bool {
    exists|j: int| 0 <= j < ws.len() && ws[j] == w
}

/// The survivors among the first `i` that reconciliation did not reject.
pub open spec fn actualize_kept(current: Seq<WatcherV>, rejected: Seq<WatcherV>, i: int) -> Seq<
    WatcherV,
>
    decreases i,
{
    if i <= 0 {
        Seq::empty()
    } else {
        let acc = actualize_kept(current, rejected, i - 1);
        if watcher_in(rejected, current[i - 1]) {
            acc
        } else {
            acc.push(current[i - 1])
        }
    }
}

/// The watchers among the first `i` that reconciliation rejected.
pub open spec fn actualize_rejected(current: Seq<WatcherV>, rejected: Seq<WatcherV>, i: int) -> Seq<
    WatcherV,
>
    decreases i,
{
    if i <= 0 {
        Seq::empty()
    } else {
        let acc = actualize_rejected(current, rejected, i - 1);
        if watcher_in(rejected, current[i - 1]) {
            acc.push(current[i - 1])
        } else {
            acc
        }
    }
}

/// Each watcher replaced by the reconciled record at its path, where one
/// came back.
pub open spec fn actualize_replaced(kept: Seq<WatcherV>, fresh: Seq<WatcherV>) -> Seq<WatcherV> {
    Seq::new(
        kept.len(),
        |i: int|
            {
                let f = watcher_by_path(fresh, kept[i].local_path);
                if f == -1 {
                    kept[i]
                } else {
                    fresh[f]
                }
            },
    )
}

/// What a config revalidation classified, for the caller's rewiring.
pub struct RevalidateConfigMeta {
    pub invalid_watchers: Vec<SherryConfigWatcherJSON>,
    pub valid_watchers: Vec<SherryConfigWatcherJSON>,
    pub new_watchers: Vec<SherryConfigWatcherJSON>,
    pub updated_watchers: Vec<SherryConfigWatcherJSON>,
    pub deleted_watchers: Vec<SherryConfigWatcherJSON>,
    pub valid_sources: StrMap<SherryConfigSourceJSON>,
    pub updated_sources: StrMap<SherryConfigSourceJSON>,
    pub invalid_sources: StrMap<SherryConfigSourceJSON>,
}

/// Closes a config revalidation after the reconciliation sweep: watchers
/// the sweep rejected move to the invalid list, survivors are replaced by
/// their reconciled records, and the validated config carries the
/// survivors with the sources the server confirmed (its view winning over
/// the configured one).
pub fn revalidate_config_finish(
    new: &SherryConfigJSON,
    pre: RevalidatePre,
    actualized: &crate::watchers::ActualizedWatcherMeta,
) -> (r: (SherryConfigJSON, RevalidateConfigMeta))
    requires
        new.wf(),
        pre.valid_sources.wf(),
        pre.updated_sources.wf(),
        pre.invalid_sources.wf(),
    ensures
        ({
            let currentv = watcher_views(pre.current_watchers@);
            let rejected = watcher_views(actualized.invalid_watchers@);
            let fresh = watcher_views(actualized.valid_watchers@);
            let kept = actualize_kept(currentv, rejected, currentv.len() as int);
            &&& r.0.wf()
            &&& r.0.api_url@ == new.api_url@
            &&& r.0.socket_url@ == new.socket_url@
            &&& r.0.webhooks@.map_values(|w: String| w@) == new.webhooks@.map_values(
                |w: String| w@,
            )
            &&& watcher_views(r.0.watchers@) == actualize_replaced(kept, fresh)
            &&& source_view_map(r.0.sources.as_map()) == source_view_map(
                pre.valid_sources.as_map(),
            ).union_prefer_right(source_view_map(pre.updated_sources.as_map()))
            &&& watcher_views(r.1.invalid_watchers@) == watcher_views(pre.invalid_watchers@).add(
                actualize_rejected(currentv, rejected, currentv.len() as int),
            )
            &&& watcher_views(r.1.valid_watchers@) == watcher_views(pre.valid_watchers@)
            &&& watcher_views(r.1.new_watchers@) == watcher_views(pre.new_watchers@)
            &&& watcher_views(r.1.updated_watchers@) == watcher_views(pre.updated_watchers@)
            &&& watcher_views(r.1.deleted_watchers@) == watcher_views(pre.deleted_watchers@)
            &&& r.1.valid_sources == pre.valid_sources
            &&& r.1.updated_sources == pre.updated_sources
            &&& r.1.invalid_sources == pre.invalid_sources
        }),
{
    let RevalidatePre {
        mut invalid_watchers,
        valid_watchers,
        new_watchers,
        updated_watchers,
        deleted_watchers,
        current_watchers,
        valid_sources,
        updated_sources,
        invalid_sources,
    } = pre;
    let ghost currentv = watcher_views(current_watchers@);
    let ghost rejected = watcher_views(actualized.invalid_watchers@);
    let ghost fresh = watcher_views(actualized.valid_watchers@);
    let ghost inv0 = watcher_views(invalid_watchers@);

    // reject what the sweep rejected
    let mut kept: Vec<SherryConfigWatcherJSON> = Vec::new();
    let n = current_watchers.len();
    let mut i: usize = 0;
    proof {
        assert(watcher_views(kept@) =~= actualize_kept(currentv, rejected, 0));
        assert(watcher_views(invalid_watchers@) =~= inv0.add(
            actualize_rejected(currentv, rejected, 0),
        ));
    }
    while i < n
        invariant
            0 <= i <= n,
            n == current_watchers@.len(),
            currentv == watcher_views(current_watchers@),
            rejected == watcher_views(actualized.invalid_watchers@),
            watcher_views(kept@) == actualize_kept(currentv, rejected, i as int),
            watcher_views(invalid_watchers@) == inv0.add(
                actualize_rejected(currentv, rejected, i as int),
            ),
        decreases n - i,
    {
        let w = &current_watchers[i];
        let ghost invpre = watcher_views(invalid_watchers@);
        let mut found = false;
        let rn = actualized.invalid_watchers.len();
        let mut j: usize = 0;
        while j < rn
            invariant
                0 <= j <= rn,
                rn == actualized.invalid_watchers@.len(),
                i < n,
                n == current_watchers@.len(),
                currentv == watcher_views(current_watchers@),
                rejected == watcher_views(actualized.invalid_watchers@),
                w@ == currentv[i as int],
                found == exists|t: int| 0 <= t < j && rejected[t] == currentv[i as int],
            decreases rn - j,
        {
            if watcher_eq(&actualized.invalid_watchers[j], w) {
                proof {
                    assert(rejected[j as int] == currentv[i as int]);
                }
                found = true;
            }
            j += 1;
        }
        if found {
            invalid_watchers.push(w.duplicate());
        } else {
            kept.push(w.duplicate());
        }
        i += 1;
        proof {
            if watcher_in(rejected, currentv[i - 1]) {
                assert(watcher_views(invalid_watchers@) =~= invpre.push(currentv[i - 1]));
                assert(inv0.add(actualize_rejected(currentv, rejected, i - 1)).push(
                    currentv[i - 1],
                ) =~= inv0.add(actualize_rejected(currentv, rejected, i as int)));
            }
            assert(watcher_views(kept@) =~= actualize_kept(currentv, rejected, i as int));
            assert(watcher_views(invalid_watchers@) =~= inv0.add(
                actualize_rejected(currentv, rejected, i as int),
            ));
        }
    }

    // take the reconciled record where one came back
    let ghost keptv = watcher_views(kept@);
    let mut replaced: Vec<SherryConfigWatcherJSON> = Vec::new();
    let kn = kept.len();
    let mut ki: usize = 0;
    while ki < kn
        invariant
            0 <= ki <= kn,
            kn == kept@.len(),
            keptv == watcher_views(kept@),
            fresh == watcher_views(actualized.valid_watchers@),
            replaced@.len() == ki,
            forall|t: int|
                0 <= t < ki ==> replaced@[t]@ == actualize_replaced(keptv, fresh)[t],
        decreases kn - ki,
    {
        let w = &kept[ki];
        match find_watcher_by_path(&actualized.valid_watchers, &w.local_path) {
            Some(f) => {
                replaced.push(actualized.valid_watchers[f].duplicate());
            },
            None => {
                replaced.push(w.duplicate());
            },
        }
        ki += 1;
        proof {
            assert(replaced@[ki - 1]@ == actualize_replaced(keptv, fresh)[ki - 1]);
        }
    }
    proof {
        assert(watcher_views(replaced@) =~= actualize_replaced(keptv, fresh));
    }

    // sources the server confirmed: its view wins
    let mut merged: StrMap<SherryConfigSourceJSON> = StrMap::new();
    let vn = valid_sources.len();
    let mut vi: usize = 0;
    proof {
        valid_sources.lemma_entries_in_map();
        assert(source_view_map(merged.as_map()) =~= source_view_map(
            crate::smap::map_of_entries(valid_sources.entries@.take(0)),
        ));
    }
    while vi < vn
        invariant
            0 <= vi <= vn,
            vn == valid_sources.spec_len(),
            valid_sources.wf(),
            merged.wf(),
            source_view_map(merged.as_map()) == source_view_map(
                crate::smap::map_of_entries(valid_sources.entries@.take(vi as int)),
            ),
        decreases vn - vi,
    {
        let k = valid_sources.key_at(vi).clone();
        let v = valid_sources.val_at(vi).duplicate();
        let ghost m0 = merged.as_map();
        let ghost gv = v;
        merged.insert(k, v);
        proof {
            lemma_source_view_map_insert(m0, valid_sources.entries@[vi as int].0@, gv);
            assert(valid_sources.entries@.take(vi + 1).drop_last() =~= valid_sources.entries@.take(
                vi as int,
            ));
            assert(valid_sources.entries@.take(vi + 1).last() == valid_sources.entries@[vi as int]);
            lemma_source_view_map_insert(
                crate::smap::map_of_entries(valid_sources.entries@.take(vi as int)),
                valid_sources.entries@[vi as int].0@,
                valid_sources.entries@[vi as int].1,
            );
            assert(source_view_map(merged.as_map()) =~= source_view_map(
                crate::smap::map_of_entries(valid_sources.entries@.take(vi + 1)),
            ));
        }
        vi += 1;
    }
    proof {
        assert(valid_sources.entries@.take(vn as int) =~= valid_sources.entries@);
    }
    let un = updated_sources.len();
    let mut ui: usize = 0;
    proof {
        updated_sources.lemma_entries_in_map();
        assert(source_view_map(merged.as_map()) =~= source_view_map(
            valid_sources.as_map(),
        ).union_prefer_right(
            source_view_map(crate::smap::map_of_entries(updated_sources.entries@.take(0))),
        ));
    }
    while ui < un
        invariant
            0 <= ui <= un,
            un == updated_sources.spec_len(),
            updated_sources.wf(),
            valid_sources.wf(),
            merged.wf(),
            source_view_map(merged.as_map()) == source_view_map(
                valid_sources.as_map(),
            ).union_prefer_right(
                source_view_map(
                    crate::smap::map_of_entries(updated_sources.entries@.take(ui as int)),
                ),
            ),
        decreases un - ui,
    {
        let k = updated_sources.key_at(ui).clone();
        let v = updated_sources.val_at(ui).duplicate();
        let ghost m0 = merged.as_map();
        let ghost gv = v;
        merged.insert(k, v);
        proof {
            lemma_source_view_map_insert(m0, updated_sources.entries@[ui as int].0@, gv);
            assert(updated_sources.entries@.take(ui + 1).drop_last()
                =~= updated_sources.entries@.take(ui as int));
            assert(updated_sources.entries@.take(ui + 1).last() == updated_sources.entries@[ui
                as int]);
            lemma_source_view_map_insert(
                crate::smap::map_of_entries(updated_sources.entries@.take(ui as int)),
                updated_sources.entries@[ui as int].0@,
                updated_sources.entries@[ui as int].1,
            );
            assert(source_view_map(merged.as_map()) =~= source_view_map(
                valid_sources.as_map(),
            ).union_prefer_right(
                source_view_map(
                    crate::smap::map_of_entries(updated_sources.entries@.take(ui + 1)),
                ),
            ));
        }
        ui += 1;
    }
    proof {
        assert(updated_sources.entries@.take(un as int) =~= updated_sources.entries@);
    }

    let config = SherryConfigJSON {
        api_url: new.api_url.clone(),
        socket_url: new.socket_url.clone(),
        sources: merged,
        watchers: replaced,
        webhooks: clone_strings(&new.webhooks),
    };
    let meta = RevalidateConfigMeta {
        invalid_watchers,
        valid_watchers,
        new_watchers,
        updated_watchers,
        deleted_watchers,
        valid_sources,
        updated_sources,
        invalid_sources,
    };
    (config, meta)
}

/// Compares two credential stores entry for entry.
pub fn auth_eq(
    a: &SherryAuthorizationConfigJSON,
    b: &SherryAuthorizationConfigJSON,
) -> (r: bool)
    ensures
        r == (a.default@ == b.default@ && crate::auth::cred_entries(a.records)
            == crate::auth::cred_entries(b.records)),
{
    if !str_eq(&a.default, &b.default) {
        return false;
    }
    let an = a.records.len();
    let bn = b.records.len();
    if an != bn {
        proof {
            assert(crate::auth::cred_entries(a.records).len() != crate::auth::cred_entries(
                b.records,
            ).len());
        }
        return false;
    }
    let mut i: usize = 0;
    while i < an
        invariant
            0 <= i <= an,
            an == a.records.spec_len(),
            an == b.records.spec_len(),
            forall|j: int|
                0 <= j < i ==> crate::auth::cred_entries(a.records)[j] == crate::auth::cred_entries(
                    b.records,
                )[j],
        decreases an - i,
    {
        let ka = a.records.key_at(i);
        let kb = b.records.key_at(i);
        let va = a.records.val_at(i);
        let vb = b.records.val_at(i);
        if !str_eq(ka, kb) || !crate::auth::cred_eq(va, vb) {
            proof {
                assert(crate::auth::cred_entries(a.records)[i as int]
                    != crate::auth::cred_entries(b.records)[i as int]);
            }
            return false;
        }
        proof {
            assert(crate::auth::cred_entries(a.records)[i as int] == crate::auth::cred_entries(
                b.records,
            )[i as int]);
        }
        i += 1;
    }
    proof {
        assert(crate::auth::cred_entries(a.records) =~= crate::auth::cred_entries(b.records));
    }
    true
}

/// Compares two watcher lists element for element.
pub fn watchers_eq(a: &Vec<SherryConfigWatcherJSON>, b: &Vec<SherryConfigWatcherJSON>) -> (r: bool)
    ensures
        r == (watcher_views(a@) == watcher_views(b@)),
{
    let an = a.len();
    let bn = b.len();
    if an != bn {
        proof {
            assert(watcher_views(a@).len() != watcher_views(b@).len());
        }
        return false;
    }
    let mut i: usize = 0;
    while i < an
        invariant
            0 <= i <= an,
            an == a@.len(),
            an == b@.len(),
            forall|j: int| 0 <= j < i ==> watcher_views(a@)[j] == watcher_views(b@)[j],
        decreases an - i,
    {
        if !watcher_eq(&a[i], &b[i]) {
            proof {
                assert(watcher_views(a@)[i as int] != watcher_views(b@)[i as int]);
            }
            return false;
        }
        i += 1;
    }
    proof {
        assert(watcher_views(a@) =~= watcher_views(b@));
    }
    true
}

/// Compares two configs entry for entry: the urls, the source entries in
/// order, the watchers in order, and the webhooks.
pub fn config_eq(a: &SherryConfigJSON, b: &SherryConfigJSON) -> (r: bool)
    ensures
        r == (a.api_url@ == b.api_url@ && a.socket_url@ == b.socket_url@ && source_entries(
            a.sources,
        ) == source_entries(b.sources) && watcher_views(a.watchers@) == watcher_views(b.watchers@)
            && a.webhooks@.map_values(|w: String| w@) == b.webhooks@.map_values(|w: String| w@)),
{
    if !str_eq(&a.api_url, &b.api_url) || !str_eq(&a.socket_url, &b.socket_url) {
        return false;
    }
    if !watchers_eq(&a.watchers, &b.watchers) {
        return false;
    }
    if !string_lists_eq(&a.webhooks, &b.webhooks) {
        return false;
    }
    let an = a.sources.len();
    let bn = b.sources.len();
    if an != bn {
        proof {
            assert(source_entries(a.sources).len() != source_entries(b.sources).len());
        }
        return false;
    }
    let mut i: usize = 0;
    while i < an
        invariant
            0 <= i <= an,
            an == a.sources.spec_len(),
            an == b.sources.spec_len(),
            forall|j: int|
                0 <= j < i ==> source_entries(a.sources)[j] == source_entries(b.sources)[j],
        decreases an - i,
    {
        let ka = a.sources.key_at(i);
        let kb = b.sources.key_at(i);
        let va = a.sources.val_at(i);
        let vb = b.sources.val_at(i);
        if !str_eq(ka, kb) || !source_eq(va, vb) {
            proof {
                assert(source_entries(a.sources)[i as int] != source_entries(b.sources)[i as int]);
            }
            return false;
        }
        proof {
            assert(source_entries(a.sources)[i as int] == source_entries(b.sources)[i as int]);
        }
        i += 1;
    }
    proof {
        assert(source_entries(a.sources) =~= source_entries(b.sources));
    }
    true
}

/// The configured paths of a watcher list, in order.
pub open spec fn watcher_paths(ws: Seq<WatcherV>) -> Seq<Seq<char>> {
    Seq::new(ws.len(), |i: int| ws[i].local_path)
}

fn watcher_path_list(
    a: &Vec<SherryConfigWatcherJSON>,
    b: &Vec<SherryConfigWatcherJSON>,
    c: &Vec<SherryConfigWatcherJSON>,
) -> (r: Vec<String>)
    ensures
        crate::strings::string_views(r@) == watcher_paths(watcher_views(a@)).add(
            watcher_paths(watcher_views(b@)),
        ).add(watcher_paths(watcher_views(c@))),
{
    let mut out: Vec<String> = Vec::new();
    let an = a.len();
    let mut i: usize = 0;
    while i < an
        invariant
            0 <= i <= an,
            an == a@.len(),
            out@.len() == i,
            forall|t: int| 0 <= t < i ==> out@[t]@ == a@[t].local_path@,
        decreases an - i,
    {
        out.push(a[i].local_path.clone());
        i += 1;
    }
    let bn = b.len();
    let mut j: usize = 0;
    while j < bn
        invariant
            0 <= j <= bn,
            bn == b@.len(),
            an == a@.len(),
            out@.len() == an + j,
            forall|t: int| 0 <= t < an ==> out@[t]@ == a@[t].local_path@,
            forall|t: int| 0 <= t < j ==> out@[an + t]@ == b@[t].local_path@,
        decreases bn - j,
    {
        out.push(b[j].local_path.clone());
        j += 1;
    }
    let cn = c.len();
    let mut k: usize = 0;
    while k < cn
        invariant
            0 <= k <= cn,
            cn == c@.len(),
            an == a@.len(),
            bn == b@.len(),
            out@.len() == an + bn + k,
            forall|t: int| 0 <= t < an ==> out@[t]@ == a@[t].local_path@,
            forall|t: int| 0 <= t < bn ==> out@[an + t]@ == b@[t].local_path@,
            forall|t: int| 0 <= t < k ==> out@[an + bn + t]@ == c@[t].local_path@,
        decreases cn - k,
    {
        out.push(c[k].local_path.clone());
        k += 1;
    }
    proof {
        assert(crate::strings::string_views(out@) =~= watcher_paths(watcher_views(a@)).add(
            watcher_paths(watcher_views(b@)),
        ).add(watcher_paths(watcher_views(c@))));
    }
    out
}

/// What the controller does after a revalidation pass.
pub struct UpdatePlan {
    pub commit: bool,
    pub rewire_watchers: bool,
    pub unwatch_paths: Vec<String>,
    pub watch_paths: Vec<String>,
    pub reconnect_socket: bool,
}

/// Plans the controller's follow-up to a revalidation: commit the files
/// when validation changed either document, unwatch the paths of invalid,
/// deleted and updated watchers and watch those of new and updated ones
/// when the validated config differs from the one in force, and reconnect
/// the push channel when the user set changed in any way.
pub fn plan_update(
    update: &SherryConfigUpdateEvent,
    valid_config: &SherryConfigJSON,
    valid_auth: &SherryAuthorizationConfigJSON,
    config_meta: &RevalidateConfigMeta,
    auth_meta: &crate::auth::RevalidateAuthMeta,
) -> (r: UpdatePlan)
    ensures
        ({
            let auth_same = valid_auth.default@ == update.new.auth.default@
                && crate::auth::cred_entries(valid_auth.records) == crate::auth::cred_entries(
                update.new.auth.records,
            );
            let main_same = valid_config.api_url@ == update.new.data.api_url@
                && valid_config.socket_url@ == update.new.data.socket_url@ && source_entries(
                valid_config.sources,
            ) == source_entries(update.new.data.sources) && watcher_views(valid_config.watchers@)
                == watcher_views(update.new.data.watchers@) && valid_config.webhooks@.map_values(
                |w: String| w@,
            ) == update.new.data.webhooks@.map_values(|w: String| w@);
            let old_same = update.old.data.api_url@ == valid_config.api_url@
                && update.old.data.socket_url@ == valid_config.socket_url@ && source_entries(
                update.old.data.sources,
            ) == source_entries(valid_config.sources) && watcher_views(update.old.data.watchers@)
                == watcher_views(valid_config.watchers@) && update.old.data.webhooks@.map_values(
                |w: String| w@,
            ) == valid_config.webhooks@.map_values(|w: String| w@);
            &&& r.commit == (!auth_same || !main_same)
            &&& r.rewire_watchers == !old_same
            &&& r.rewire_watchers ==> crate::strings::string_views(r.unwatch_paths@) == watcher_paths(
                watcher_views(config_meta.invalid_watchers@),
            ).add(watcher_paths(watcher_views(config_meta.deleted_watchers@))).add(
                watcher_paths(watcher_views(config_meta.updated_watchers@)),
            )
            &&& r.rewire_watchers ==> crate::strings::string_views(r.watch_paths@) == watcher_paths(
                watcher_views(config_meta.new_watchers@),
            ).add(watcher_paths(watcher_views(config_meta.updated_watchers@)))
            &&& !r.rewire_watchers ==> r.unwatch_paths@.len() == 0 && r.watch_paths@.len() == 0
            &&& r.reconnect_socket == (auth_meta.deleted_users@.len() > 0
                || auth_meta.new_users@.len() > 0 || auth_meta.updated_users@.len() > 0
                || auth_meta.invalid_users@.len() > 0)
        }),
{
    let auth_same = auth_eq(valid_auth, &update.new.auth);
    let main_same = config_eq(valid_config, &update.new.data);
    let commit = !auth_same || !main_same;
    let old_same = config_eq(&update.old.data, valid_config);

    let mut unwatch_paths: Vec<String> = Vec::new();
    let mut watch_paths: Vec<String> = Vec::new();
    if !old_same {
        unwatch_paths = watcher_path_list(
            &config_meta.invalid_watchers,
            &config_meta.deleted_watchers,
            &config_meta.updated_watchers,
        );
        let none: Vec<SherryConfigWatcherJSON> = Vec::new();
        watch_paths = watcher_path_list(&config_meta.new_watchers, &config_meta.updated_watchers, &none);
        proof {
            assert(crate::strings::string_views(watch_paths@) =~= watcher_paths(
                watcher_views(config_meta.new_watchers@),
            ).add(watcher_paths(watcher_views(config_meta.updated_watchers@))));
        }
    }
    let reconnect_socket = auth_meta.deleted_users.len() > 0 || auth_meta.new_users.len() > 0
        || auth_meta.updated_users.len() > 0 || auth_meta.invalid_users.len() > 0;

    UpdatePlan { commit, rewire_watchers: !old_same, unwatch_paths, watch_paths, reconnect_socket }
}

} // verus!
