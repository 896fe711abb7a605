//! Credentials and the auth-revalidation step: expiry marking, token
//! refresh, default-user fixup, and the classification of users that
//! drives socket reconnection.

use vstd::prelude::*;
use vstd::map::*;

use crate::server_types::ApiAuthResponse;
use crate::server_types::ApiAuthV;
use crate::smap::StrMap;

verus! {

/// How close to expiry a token may come, in seconds, before it is
/// refreshed: one week.
pub const EXPIRATION_THRESHOLD: u64 = 604800;

/// One user's stored credentials. `expires_in` is a unix timestamp in
/// seconds; an `expired` credential is unusable until replaced.
#[derive(Clone, Debug)]
pub struct Credentials {
    pub user_id: String,
    pub email: String,
    pub username: String,
    pub access_token: String,
    pub refresh_token: String,
    pub expires_in: u64,
    pub expired: bool,
}

/// Ghost mirror of `Credentials`.
pub ghost struct CredentialsV {
    pub user_id: Seq<char>,
    pub email: Seq<char>,
    pub username: Seq<char>,
    pub access_token: Seq<char>,
    pub refresh_token: Seq<char>,
    pub expires_in: u64,
    pub expired: bool,
}

impl View for Credentials {
    type V = CredentialsV;

    open spec fn view(&self) -> CredentialsV {
        CredentialsV {
            user_id: self.user_id@,
            email: self.email@,
            username: self.username@,
            access_token: self.access_token@,
            refresh_token: self.refresh_token@,
            expires_in: self.expires_in,
            expired: self.expired,
        }
    }
}

impl Credentials {
    /// A field-by-field copy whose contents are known.
    pub fn duplicate(&self) -> (r: Self)
        ensures
            r@ == self@,
    {
        Credentials {
            user_id: self.user_id.clone(),
            email: self.email.clone(),
            username: self.username.clone(),
            access_token: self.access_token.clone(),
            refresh_token: self.refresh_token.clone(),
            expires_in: self.expires_in,
            expired: self.expired,
        }
    }
}

/// Compares two credentials field by field.
pub fn cred_eq(a: &Credentials, b: &Credentials) -> (r: bool)
    ensures
        r == (a@ == b@),
{
    let r = crate::strings::str_eq(&a.user_id, &b.user_id) && crate::strings::str_eq(
        &a.email,
        &b.email,
    ) && crate::strings::str_eq(&a.username, &b.username) && crate::strings::str_eq(
        &a.access_token,
        &b.access_token,
    ) && crate::strings::str_eq(&a.refresh_token, &b.refresh_token) && a.expires_in
        == b.expires_in && a.expired == b.expired;
    r
}

/// The views of a list of credentials.
pub open spec fn cred_views(s: Seq<Credentials>) -> Seq<CredentialsV> {
    s.map_values(|c: Credentials| c@)
}

/// A credential map seen through each record's ghost mirror.
pub open spec fn cred_view_map(m: Map<Seq<char>, Credentials>) -> Map<Seq<char>, CredentialsV> {
    Map::new(|k: Seq<char>| m.dom().contains(k), |k: Seq<char>| m[k]@)
}

/// A refresh-response map seen through each response's ghost mirror.
pub open spec fn auth_view_map(m: Map<Seq<char>, ApiAuthResponse>) -> Map<Seq<char>, ApiAuthV> {
    Map::new(|k: Seq<char>| m.dom().contains(k), |k: Seq<char>| m[k]@)
}

/// The credential store: the default user id and one record per user id.
pub struct SherryAuthorizationConfigJSON {
    pub default: String,
    pub records: StrMap<Credentials>,
}

impl SherryAuthorizationConfigJSON {
    pub open spec fn wf(self) -> bool {
        self.records.wf()
    }

    /// The records as a map of mirrors.
    pub open spec fn records_map(self) -> Map<Seq<char>, CredentialsV> {
        cred_view_map(self.records.as_map())
    }
}

/// The entry list of a credential map, as mirrors, in storage order.
pub open spec fn cred_entries(m: StrMap<Credentials>) -> Seq<(Seq<char>, CredentialsV)> {
    m.entries@.map_values(|e: (String, Credentials)| (e.0@, e.1@))
}

/// What the controller does with one credential at time `now`.
#[derive(Clone, Copy, PartialEq, Eq, Structural, Debug)]
pub enum TokenAction {
    Keep,
    MarkExpired,
    Refresh,
}

/// The action due for a credential at time `now` (seconds): an already
/// expired record is left alone; one past its expiry is marked expired;
/// one within the refresh threshold of expiry is refreshed; any other is
/// kept.
pub open spec fn spec_token_action(c: CredentialsV, now: int) -> TokenAction {
    if c.expired {
        TokenAction::Keep
    } else if (c.expires_in as int) < now {
        TokenAction::MarkExpired
    } else if (c.expires_in as int) - (EXPIRATION_THRESHOLD as int) <= now {
        TokenAction::Refresh
    } else {
        TokenAction::Keep
    }
}

/// Decides what to do with one credential at time `now`.
pub fn token_action(c: &Credentials, now: i64) -> (r: TokenAction)
    ensures
        r == spec_token_action(c@, now as int),
{
    if c.expired {
        TokenAction::Keep
    } else if (c.expires_in as i128) < (now as i128) {
        TokenAction::MarkExpired
    } else if (c.expires_in as i128) - (EXPIRATION_THRESHOLD as i128) <= (now as i128) {
        TokenAction::Refresh
    } else {
        TokenAction::Keep
    }
}

/// The credential built from a refresh response: the fresh tokens, not
/// expired.
pub open spec fn spec_response_to_user(a: ApiAuthV) -> CredentialsV {
    CredentialsV {
        user_id: a.user_id,
        email: a.email,
        username: a.username,
        access_token: a.access_token,
        refresh_token: a.refresh_token,
        expires_in: a.expires_in,
        expired: false,
    }
}

/// Turns a refresh response into a stored credential.
pub fn response_to_user(response: ApiAuthResponse) -> (r: Credentials)
    ensures
        r@ == spec_response_to_user(response@),
{
    Credentials {
        user_id: response.user_id,
        email: response.email,
        username: response.username,
        access_token: response.access_token,
        refresh_token: response.refresh_token,
        expires_in: response.expires_in,
        expired: false,
    }
}

/// The credential after revalidation at `now`: untouched when kept, marked
/// expired when overdue, and replaced by the refresh outcome when one was
/// due (a failed refresh marks it expired).
pub open spec fn revalidated_cred(c: CredentialsV, now: int, refreshed: Option<ApiAuthV>) -> CredentialsV {
    match spec_token_action(c, now) {
        TokenAction::Keep => c,
        TokenAction::MarkExpired => CredentialsV { expired: true, ..c },
        TokenAction::Refresh => match refreshed {
            Some(a) => spec_response_to_user(a),
            None => CredentialsV { expired: true, ..c },
        },
    }
}

/// The revalidated form of entry `j`, given the refresh outcomes.
pub open spec fn rv_of(
    entries: Seq<(Seq<char>, CredentialsV)>,
    j: int,
    now: int,
    refreshed: Map<Seq<char>, ApiAuthV>,
) -> CredentialsV {
    revalidated_cred(
        entries[j].1,
        now,
        if refreshed.contains_key(entries[j].0) {
            Some(refreshed[entries[j].0])
        } else {
            None
        },
    )
}

/// The revalidated records over the first `i` entries.
pub open spec fn reval_records(
    entries: Seq<(Seq<char>, CredentialsV)>,
    now: int,
    refreshed: Map<Seq<char>, ApiAuthV>,
    i: int,
) -> Map<Seq<char>, CredentialsV>
    decreases i,
{
    if i <= 0 {
        Map::empty()
    } else {
        reval_records(entries, now, refreshed, i - 1).insert(
            entries[i - 1].0,
            rv_of(entries, i - 1, now, refreshed),
        )
    }
}

/// Users among the first `i` entries that the old store did not know.
pub open spec fn meta_new(
    entries: Seq<(Seq<char>, CredentialsV)>,
    old: Map<Seq<char>, CredentialsV>,
    now: int,
    refreshed: Map<Seq<char>, ApiAuthV>,
    i: int,
) -> Seq<CredentialsV>
    decreases i,
{
    if i <= 0 {
        Seq::empty()
    } else {
        let acc = meta_new(entries, old, now, refreshed, i - 1);
        if !old.contains_key(entries[i - 1].0) {
            acc.push(rv_of(entries, i - 1, now, refreshed))
        } else {
            acc
        }
    }
}

/// Users among the first `i` entries whose revalidated record equals the
/// old one.
pub open spec fn meta_valid(
    entries: Seq<(Seq<char>, CredentialsV)>,
    old: Map<Seq<char>, CredentialsV>,
    now: int,
    refreshed: Map<Seq<char>, ApiAuthV>,
    i: int,
) -> Seq<CredentialsV>
    decreases i,
{
    if i <= 0 {
        Seq::empty()
    } else {
        let acc = meta_valid(entries, old, now, refreshed, i - 1);
        if old.contains_key(entries[i - 1].0) && rv_of(entries, i - 1, now, refreshed) == old[entries[i
            - 1].0] {
            acc.push(rv_of(entries, i - 1, now, refreshed))
        } else {
            acc
        }
    }
}

/// Users among the first `i` entries whose revalidated record differs from
/// the old one.
pub open spec fn meta_updated(
    entries: Seq<(Seq<char>, CredentialsV)>,
    old: Map<Seq<char>, CredentialsV>,
    now: int,
    refreshed: Map<Seq<char>, ApiAuthV>,
    i: int,
) -> Seq<CredentialsV>
    decreases i,
{
    if i <= 0 {
        Seq::empty()
    } else {
        let acc = meta_updated(entries, old, now, refreshed, i - 1);
        if old.contains_key(entries[i - 1].0) && rv_of(entries, i - 1, now, refreshed) != old[entries[i
            - 1].0] {
            acc.push(rv_of(entries, i - 1, now, refreshed))
        } else {
            acc
        }
    }
}

/// Old users among the first `i` old entries that the new store dropped.
pub open spec fn meta_deleted(
    old_entries: Seq<(Seq<char>, CredentialsV)>,
    new_keys: Map<Seq<char>, CredentialsV>,
    i: int,
) -> Seq<CredentialsV>
    decreases i,
{
    if i <= 0 {
        Seq::empty()
    } else {
        let acc = meta_deleted(old_entries, new_keys, i - 1);
        if !new_keys.contains_key(old_entries[i - 1].0) {
            acc.push(old_entries[i - 1].1)
        } else {
            acc
        }
    }
}

/// Whether some record carries `d` as its user id.
pub open spec fn has_default(entries: Seq<(Seq<char>, CredentialsV)>, d: Seq<char>) -> bool {
    exists|j: int| 0 <= j < entries.len() && (#[trigger] entries[j].1).user_id == d
}

/// The classification a revalidation pass produces.
pub struct RevalidateAuthMeta {
    pub new_users: Vec<Credentials>,
    pub deleted_users: Vec<Credentials>,
    pub valid_users: Vec<Credentials>,
    pub updated_users: Vec<Credentials>,
    pub invalid_users: Vec<Credentials>,
}

/// Revalidates the credential store at time `now`. `refreshed` holds the
/// outcome of the refresh call for each user whose token was due: a user
/// due for refresh but absent from it is marked expired. Every record in
/// the result is the revalidated form of its input; the default user is
/// blanked when no record carries it; and users are classified against
/// `old` for the caller to rewire the push channel.
pub fn revalidate_auth(
    new: &SherryAuthorizationConfigJSON,
    old: &SherryAuthorizationConfigJSON,
    now: i64,
    refreshed: &StrMap<ApiAuthResponse>,
) -> (r: (SherryAuthorizationConfigJSON, RevalidateAuthMeta))
    requires
        new.wf(),
        old.wf(),
        refreshed.wf(),
    ensures
        r.0.wf(),
        cred_view_map(r.0.records.as_map()) == reval_records(
            cred_entries(new.records),
            now as int,
            auth_view_map(refreshed.as_map()),
            cred_entries(new.records).len() as int,
        ),
        r.0.default@ == (if has_default(cred_entries(new.records), new.default@) {
            new.default@
        } else {
            Seq::<char>::empty()
        }),
        cred_views(r.1.new_users@) == meta_new(
            cred_entries(new.records),
            old.records_map(),
            now as int,
            auth_view_map(refreshed.as_map()),
            cred_entries(new.records).len() as int,
        ),
        cred_views(r.1.valid_users@) == meta_valid(
            cred_entries(new.records),
            old.records_map(),
            now as int,
            auth_view_map(refreshed.as_map()),
            cred_entries(new.records).len() as int,
        ),
        cred_views(r.1.updated_users@) == meta_updated(
            cred_entries(new.records),
            old.records_map(),
            now as int,
            auth_view_map(refreshed.as_map()),
            cred_entries(new.records).len() as int,
        ),
        cred_views(r.1.deleted_users@) == meta_deleted(
            cred_entries(old.records),
            cred_view_map(new.records.as_map()),
            cred_entries(old.records).len() as int,
        ),
        r.1.invalid_users@.len() == 0,
{
    let ghost entries = cred_entries(new.records);
    let ghost oldm = old.records_map();
    let ghost refm = auth_view_map(refreshed.as_map());

    let mut out: StrMap<Credentials> = StrMap::new();
    let mut new_users: Vec<Credentials> = Vec::new();
    let mut valid_users: Vec<Credentials> = Vec::new();
    let mut updated_users: Vec<Credentials> = Vec::new();

    let n = new.records.len();
    let mut i: usize = 0;
    proof {
        assert(cred_view_map(out.as_map()) =~= reval_records(entries, now as int, refm, 0));
    }
    while i < n
        invariant
            0 <= i <= n,
            n == new.records.spec_len(),
            new.wf(),
            old.wf(),
            refreshed.wf(),
            entries == cred_entries(new.records),
            oldm == old.records_map(),
            refm == auth_view_map(refreshed.as_map()),
            out.wf(),
            cred_view_map(out.as_map()) == reval_records(entries, now as int, refm, i as int),
            cred_views(new_users@) == meta_new(entries, oldm, now as int, refm, i as int),
            cred_views(valid_users@) == meta_valid(entries, oldm, now as int, refm, i as int),
            cred_views(updated_users@) == meta_updated(entries, oldm, now as int, refm, i as int),
        decreases n - i,
    {
        let k = new.records.key_at(i).clone();
        let c = new.records.val_at(i);
        proof {
            assert(entries[i as int] == (new.records.entries@[i as int].0@, new.records.entries@[i
                as int].1@));
        }
        let action = token_action(c, now);
        let rc: Credentials = match action {
            TokenAction::Keep => c.duplicate(),
            TokenAction::MarkExpired => {
                let mut d = c.duplicate();
                d.expired = true;
                d
            },
            TokenAction::Refresh => {
                match refreshed.get(&k) {
                    Some(a) => response_to_user(a.duplicate()),
                    None => {
                        let mut d = c.duplicate();
                        d.expired = true;
                        d
                    },
                }
            },
        };
        proof {
            assert(rc@ == rv_of(entries, i as int, now as int, refm));
        }
        match old.records.get(&k) {
            Some(oc) => {
                if cred_eq(&rc, oc) {
                    valid_users.push(rc.duplicate());
                } else {
                    updated_users.push(rc.duplicate());
                }
            },
            None => {
                new_users.push(rc.duplicate());
            },
        }
        let ghost outm0 = out.as_map();
        out.insert(k, rc);
        proof {
            assert(cred_view_map(out.as_map()) =~= cred_view_map(outm0).insert(
                entries[i as int].0,
                rv_of(entries, i as int, now as int, refm),
            ));
            assert(cred_views(new_users@) =~= meta_new(entries, oldm, now as int, refm, i + 1));
            assert(cred_views(valid_users@) =~= meta_valid(entries, oldm, now as int, refm, i + 1));
            assert(cred_views(updated_users@) =~= meta_updated(
                entries,
                oldm,
                now as int,
                refm,
                i + 1,
            ));
        }
        i += 1;
    }

    // dropped users
    let ghost old_entries = cred_entries(old.records);
    let ghost newm = cred_view_map(new.records.as_map());
    let mut deleted_users: Vec<Credentials> = Vec::new();
    let on = old.records.len();
    let mut j: usize = 0;
    while j < on
        invariant
            0 <= j <= on,
            on == old.records.spec_len(),
            new.wf(),
            old.wf(),
            old_entries == cred_entries(old.records),
            newm == cred_view_map(new.records.as_map()),
            cred_views(deleted_users@) == meta_deleted(old_entries, newm, j as int),
        decreases on - j,
    {
        let k = old.records.key_at(j);
        let gone = !new.records.contains_key(k);
        if gone {
            deleted_users.push(old.records.val_at(j).duplicate());
        }
        j += 1;
        proof {
            assert(old_entries[j - 1] == (old.records.entries@[j - 1].0@, old.records.entries@[j
                - 1].1@));
            assert(cred_views(deleted_users@) =~= meta_deleted(old_entries, newm, j as int));
        }
    }

    // default-user fixup
    let mut default_ok = false;
    let mut d: usize = 0;
    while d < n
        invariant
            0 <= d <= n,
            n == new.records.spec_len(),
            new.wf(),
            entries == cred_entries(new.records),
            default_ok == exists|t: int|
                0 <= t < d && (#[trigger] entries[t].1).user_id == new.default@,
        decreases n - d,
    {
        if crate::strings::str_eq(&new.records.val_at(d).user_id, &new.default) {
            proof {
                assert(entries[d as int].1.user_id == new.default@);
            }
            default_ok = true;
        }
        d += 1;
    }
    let default = if default_ok {
        new.default.clone()
    } else {
        String::new()
    };

    let ghost flen = entries.len() as int;
    proof {
        assert(n as int == flen);
    }
    (
        SherryAuthorizationConfigJSON { default, records: out },
        RevalidateAuthMeta {
            new_users,
            deleted_users,
            valid_users,
            updated_users,
            invalid_users: Vec::new(),
        },
    )
}

} // verus!
