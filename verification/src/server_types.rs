//! The shapes of the central service's REST responses, as plain values.

use vstd::prelude::*;

verus! {

/// What `POST /auth/refresh` returns.
#[derive(Clone, Debug)]
pub struct ApiAuthResponse {
    pub user_id: String,
    pub email: String,
    pub username: String,
    pub access_token: String,
    pub refresh_token: String,
    pub expires_in: u64,
}

/// Ghost mirror of `ApiAuthResponse`.
pub ghost struct ApiAuthV {
    pub user_id: Seq<char>,
    pub email: Seq<char>,
    pub username: Seq<char>,
    pub access_token: Seq<char>,
    pub refresh_token: Seq<char>,
    pub expires_in: u64,
}

impl View for ApiAuthResponse {
    type V = ApiAuthV;

    open spec fn view(&self) -> ApiAuthV {
        ApiAuthV {
            user_id: self.user_id@,
            email: self.email@,
            username: self.username@,
            access_token: self.access_token@,
            refresh_token: self.refresh_token@,
            expires_in: self.expires_in,
        }
    }
}

impl ApiAuthResponse {
    /// A field-by-field copy whose contents are known.
    pub fn duplicate(&self) -> (r: Self)
        ensures
            r@ == self@,
    {
        ApiAuthResponse {
            user_id: self.user_id.clone(),
            email: self.email.clone(),
            username: self.username.clone(),
            access_token: self.access_token.clone(),
            refresh_token: self.refresh_token.clone(),
            expires_in: self.expires_in,
        }
    }
}

/// One file of a remote folder listing.
#[derive(Clone, Debug)]
pub struct ApiFileResponse {
    pub sherry_id: String,
    pub path: String,
    pub hash: String,
    pub size: u64,
    pub created_at: i128,
    pub updated_at: i128,
}

/// Ghost mirror of `ApiFileResponse`.
pub ghost struct ApiFileV {
    pub sherry_id: Seq<char>,
    pub path: Seq<char>,
    pub hash: Seq<char>,
    pub size: u64,
    pub created_at: int,
    pub updated_at: int,
}

impl View for ApiFileResponse {
    type V = ApiFileV;

    open spec fn view(&self) -> ApiFileV {
        ApiFileV {
            sherry_id: self.sherry_id@,
            path: self.path@,
            hash: self.hash@,
            size: self.size,
            created_at: self.created_at as int,
            updated_at: self.updated_at as int,
        }
    }
}

impl ApiFileResponse {
    /// A field-by-field copy whose contents are known.
    pub fn duplicate(&self) -> (r: Self)
        ensures
            r@ == self@,
    {
        ApiFileResponse {
            sherry_id: self.sherry_id.clone(),
            path: self.path.clone(),
            hash: self.hash.clone(),
            size: self.size,
            created_at: self.created_at,
            updated_at: self.updated_at,
        }
    }
}

/// The views of a remote listing.
pub open spec fn api_file_views(s: Seq<ApiFileResponse>) -> Seq<ApiFileV> {
    s.map_values(|f: ApiFileResponse| f@)
}

/// A permission role as the server reports it.
#[derive(Clone, Copy, PartialEq, Eq, Structural, Debug)]
pub enum ApiFolderPermissionAccessRights {
    Read,
    Write,
    Owner,
}

/// One permission entry of a folder.
#[derive(Clone, Debug)]
pub struct ApiFolderPermissionResponse {
    pub sherry_permission_id: String,
    pub role: ApiFolderPermissionAccessRights,
    pub sherry_id: String,
    pub user_id: String,
}

/// Ghost mirror of `ApiFolderPermissionResponse`.
pub ghost struct ApiFolderPermissionV {
    pub sherry_permission_id: Seq<char>,
    pub role: ApiFolderPermissionAccessRights,
    pub sherry_id: Seq<char>,
    pub user_id: Seq<char>,
}

impl View for ApiFolderPermissionResponse {
    type V = ApiFolderPermissionV;

    open spec fn view(&self) -> ApiFolderPermissionV {
        ApiFolderPermissionV {
            sherry_permission_id: self.sherry_permission_id@,
            role: self.role,
            sherry_id: self.sherry_id@,
            user_id: self.user_id@,
        }
    }
}

/// One allowed file-name glob of a folder.
#[derive(Clone, Debug)]
pub struct ApiFolderAllowedFileNameResponse {
    pub file_name_id: String,
    pub name: String,
    pub sherry_id: String,
}

/// One allowed file-type tag of a folder.
#[derive(Clone, Debug)]
pub struct ApiFolderAllowedFileTypeResponse {
    pub file_type_id: String,
    pub _type: String,
    pub sherry_id: String,
}

/// What `GET /sherry/{folderId}` returns.
#[derive(Clone, Debug)]
pub struct ApiFolderResponse {
    pub sherry_id: String,
    pub name: String,
    pub allow_dir: bool,
    pub user_id: String,
    pub max_file_size: u64,
    pub max_dir_size: u64,
    pub allowed_file_names: Vec<ApiFolderAllowedFileNameResponse>,
    pub allowed_file_types: Vec<ApiFolderAllowedFileTypeResponse>,
    pub sherry_permission: Vec<ApiFolderPermissionResponse>,
}

/// The first index of a permission entry for `user_id`, or -1.
pub open spec fn perm_find(perms: Seq<ApiFolderPermissionResponse>, user_id: Seq<char>) -> int
    decreases perms.len(),
{
    if perms.len() == 0 {
        -1
    } else if perms[0].user_id@ == user_id {
        0
    } else {
        let r = perm_find(perms.skip(1), user_id);
        if r == -1 {
            -1
        } else {
            1 + r
        }
    }
}

pub proof fn lemma_perm_find_none(perms: Seq<ApiFolderPermissionResponse>, user_id: Seq<char>)
    requires
        forall|j: int| 0 <= j < perms.len() ==> (#[trigger] perms[j]).user_id@ != user_id,
    ensures
        perm_find(perms, user_id) == -1,
    decreases perms.len(),
{
    if perms.len() > 0 {
        assert(forall|j: int| 0 <= j < perms.skip(1).len() ==> perms.skip(1)[j] == perms[j + 1]);
        lemma_perm_find_none(perms.skip(1), user_id);
    }
}

pub proof fn lemma_perm_find_at(perms: Seq<ApiFolderPermissionResponse>, user_id: Seq<char>, p: int)
    requires
        0 <= p < perms.len(),
        perms[p].user_id@ == user_id,
        forall|j: int| 0 <= j < p ==> (#[trigger] perms[j]).user_id@ != user_id,
    ensures
        perm_find(perms, user_id) == p,
    decreases perms.len(),
{
    if p > 0 {
        assert(forall|j: int| 0 <= j < perms.skip(1).len() ==> perms.skip(1)[j] == perms[j + 1]);
        lemma_perm_find_at(perms.skip(1), user_id, p - 1);
    }
}

} // verus!
