//! The `Folder` domain entity and its wire-facing request/response shapes.
//!
//! A folder is a named container owned by exactly one user, optionally nested
//! under a parent folder. Folders are keyed by a generated identifier and carry
//! creation/update timestamps in milliseconds.

use vstd::prelude::*;

verus! {

/// Classification of a folder: the single default folder that is created
/// automatically for each user, or a folder created by an explicit user action.
#[derive(Clone, Copy, Debug, PartialEq, Eq, Structural)]
pub enum FolderType {
    SystemDefined,
    UserDefined,
}

/// A failure arising from the backing document store.
///
/// `DuplicateId` reports an insert whose key is already present;
/// `Backend` stands for any failure communicating with or executing against
/// an external store (adapters outside this library map driver errors to it).
#[derive(Clone, Copy, Debug, PartialEq, Eq, Structural)]
pub enum PersistenceError {
    DuplicateId,
    Backend,
}

/// A folder document as persisted: one user owns it, `id` is the primary key,
/// timestamps are milliseconds since the Unix epoch.
pub struct Folder {
    pub id: String,
    pub parent_id: Option<String>,
    pub user_id: String,
    pub created_at: i64,
    pub updated_at: i64,
    pub name: String,
    pub description: Option<String>,
    pub folder_type: FolderType,
}

/// The mathematical value of a `Folder`: every text field as a sequence of
/// characters.
pub ghost struct FolderView {
    pub id: Seq<char>,
    pub parent_id: Option<Seq<char>>,
    pub user_id: Seq<char>,
    pub created_at: i64,
    pub updated_at: i64,
    pub name: Seq<char>,
    pub description: Option<Seq<char>>,
    pub folder_type: FolderType,
}

impl View for Folder {
    type V = FolderView;

    open spec fn view(&self) -> FolderView {
        FolderView {
            id: self.id@,
            parent_id: self.parent_id.deep_view(),
            user_id: self.user_id@,
            created_at: self.created_at,
            updated_at: self.updated_at,
            name: self.name@,
            description: self.description.deep_view(),
            folder_type: self.folder_type,
        }
    }
}

impl DeepView for Folder {
    type V = FolderView;

    open spec fn deep_view(&self) -> FolderView {
        self.view()
    }
}

impl Clone for Folder {
    fn clone(&self) -> (r: Folder)
        ensures
            r@ == self@,
    {
        Folder {
            id: self.id.clone(),
            parent_id: clone_opt_string(&self.parent_id),
            user_id: self.user_id.clone(),
            created_at: self.created_at,
            updated_at: self.updated_at,
            name: self.name.clone(),
            description: clone_opt_string(&self.description),
            folder_type: self.folder_type,
        }
    }
}

/// Clones an optional text field, keeping its mathematical value.
fn clone_opt_string(o: &Option<String>) -> (r: Option<String>)
    ensures
        r.deep_view() == o.deep_view(),
{
    match o {
        Some(s) => Some(s.clone()),
        None => None,
    }
}

/// The name given to each user's default folder.
pub open spec fn default_folder_name() -> Seq<char> {
    "默认"@
}

/// The description given to each user's default folder.
pub open spec fn default_folder_description() -> Seq<char> {
    "System-defined folder."@
}

/// Relies on uuid::Uuid::new_v4 and its hyphenated rendering: a freshly
/// generated random version-4 identifier, always 36 characters. The value
/// depends on fresh randomness, so nothing more is promised about it.
#[verifier::external_body]
fn generate_uuid_string() -> (r: String)
    ensures
        r@.len() == 36,
{
    uuid::Uuid::new_v4().to_string()
}

/// Relies on bson::DateTime::now and timestamp_millis: the current wall-clock
/// time in milliseconds since the Unix epoch. The value depends on the clock,
/// so nothing is promised about it.
#[verifier::external_body]
fn current_time_millis() -> (r: i64) {
    bson::DateTime::now().timestamp_millis()
}

impl Folder {
    /// The one default folder automatically created for a new user: system
    /// defined, at the root of the user's tree, with a generated identifier
    /// and both timestamps set to the same creation instant.
    pub fn default_system_folder(user_id: &str) -> (r: Folder)
        ensures
            r@.id.len() == 36,
            r@.parent_id is None,
            r@.user_id == user_id@,
            r@.created_at == r@.updated_at,
            r@.name == default_folder_name(),
            r@.description == Some(default_folder_description()),
            r@.folder_type == FolderType::SystemDefined,
    {
        let now = current_time_millis();
        Folder {
            id: generate_uuid_string(),
            parent_id: None,
            user_id: user_id.to_owned(),
            created_at: now,
            updated_at: now,
            name: "默认".to_owned(),
            description: Some("System-defined folder.".to_owned()),
            folder_type: FolderType::SystemDefined,
        }
    }
}

/// The request shape for creating a folder. The created folder is always
/// user defined; a `parent_id` of `None` places it at the root of the owning
/// user's folder tree.
pub struct CreateFolderRequest {
    pub parent_id: Option<String>,
    pub name: String,
    pub description: Option<String>,
}

/// The request shape for updating a folder: every field optional, and only a
/// supplied field overrides the stored one.
pub struct UpdateFolderRequest {
    pub parent_id: Option<String>,
    pub name: Option<String>,
    pub description: Option<String>,
}

impl Folder {
    /// A folder created by an explicit user action: user defined, owned by
    /// `user_id`, with the requested parent, name and description, a
    /// generated identifier, and both timestamps set to the same creation
    /// instant.
    pub fn new_from_request(user_id: &str, request: CreateFolderRequest) -> (r: Folder)
        ensures
            r@.id.len() == 36,
            r@.parent_id == request.parent_id.deep_view(),
            r@.user_id == user_id@,
            r@.created_at == r@.updated_at,
            r@.name == request.name@,
            r@.description == request.description.deep_view(),
            r@.folder_type == FolderType::UserDefined,
    {
        let now = current_time_millis();
        Folder {
            id: generate_uuid_string(),
            parent_id: request.parent_id,
            user_id: user_id.to_owned(),
            created_at: now,
            updated_at: now,
            name: request.name,
            description: request.description,
            folder_type: FolderType::UserDefined,
        }
    }

    /// The merge step that precedes an update: applies only the supplied
    /// fields of `request` onto this folder and stamps `updated_at` with
    /// `updated_at_millis`; identifier, owner, creation time and type are
    /// never changed by an update request.
    pub fn apply_update(&self, request: UpdateFolderRequest, updated_at_millis: i64) -> (r: Folder)
        ensures
            r@.id == self@.id,
            r@.user_id == self@.user_id,
            r@.created_at == self@.created_at,
            r@.updated_at == updated_at_millis,
            r@.folder_type == self@.folder_type,
            r@.parent_id == (match request.parent_id {
                Some(p) => Some(p@),
                None => self@.parent_id,
            }),
            r@.name == (match request.name {
                Some(n) => n@,
                None => self@.name,
            }),
            r@.description == (match request.description {
                Some(d) => Some(d@),
                None => self@.description,
            }),
    {
        Folder {
            id: self.id.clone(),
            parent_id: match request.parent_id {
                Some(p) => Some(p),
                None => clone_opt_string(&self.parent_id),
            },
            user_id: self.user_id.clone(),
            created_at: self.created_at,
            updated_at: updated_at_millis,
            name: match request.name {
                Some(n) => n,
                None => self.name.clone(),
            },
            description: match request.description {
                Some(d) => Some(d),
                None => clone_opt_string(&self.description),
            },
            folder_type: self.folder_type,
        }
    }
}

/// The wire shape of one folder in a response: its stored fields without the
/// owner and the timestamps.
pub struct FolderResponse {
    pub id: String,
    pub parent_id: Option<String>,
    pub name: String,
    pub description: Option<String>,
    pub folder_type: FolderType,
}

/// The mathematical value of a `FolderResponse`.
pub ghost struct FolderResponseView {
    pub id: Seq<char>,
    pub parent_id: Option<Seq<char>>,
    pub name: Seq<char>,
    pub description: Option<Seq<char>>,
    pub folder_type: FolderType,
}

impl View for FolderResponse {
    type V = FolderResponseView;

    open spec fn view(&self) -> FolderResponseView {
        FolderResponseView {
            id: self.id@,
            parent_id: self.parent_id.deep_view(),
            name: self.name@,
            description: self.description.deep_view(),
            folder_type: self.folder_type,
        }
    }
}

impl DeepView for FolderResponse {
    type V = FolderResponseView;

    open spec fn deep_view(&self) -> FolderResponseView {
        self.view()
    }
}

/// The wire shape of a stored folder value.
pub open spec fn response_of(f: FolderView) -> FolderResponseView {
    FolderResponseView {
        id: f.id,
        parent_id: f.parent_id,
        name: f.name,
        description: f.description,
        folder_type: f.folder_type,
    }
}

impl From<Folder> for FolderResponse {
    fn from(folder: Folder) -> (r: FolderResponse) {
        FolderResponse {
            id: folder.id,
            parent_id: folder.parent_id,
            name: folder.name,
            description: folder.description,
            folder_type: folder.folder_type,
        }
    }
}

impl vstd::std_specs::convert::FromSpecImpl<Folder> for FolderResponse {
    open spec fn obeys_from_spec() -> bool {
        true
    }

    open spec fn from_spec(folder: Folder) -> FolderResponse {
        FolderResponse {
            id: folder.id,
            parent_id: folder.parent_id,
            name: folder.name,
            description: folder.description,
            folder_type: folder.folder_type,
        }
    }
}

/// The wire shape of a collection of folders.
pub struct ListFoldersResponse(pub Vec<FolderResponse>);

impl ListFoldersResponse {
    /// The response listing `folders`, element by element and in order.
    pub fn from_folders(folders: Vec<Folder>) -> (r: ListFoldersResponse)
        ensures
            r.0.deep_view() == folders.deep_view().map_values(
                |f: FolderView| response_of(f),
            ),
    {
        let mut out: Vec<FolderResponse> = Vec::new();
        let n = folders.len();
        let mut i: usize = 0;
        proof {
            assert(out.deep_view() =~= folders.deep_view().take(0).map_values(
                |f: FolderView| response_of(f),
            ));
        }
        while i < n
            invariant
                n == folders.len(),
                i <= n,
                out.deep_view() == folders.deep_view().take(i as int).map_values(
                    |f: FolderView| response_of(f),
                ),
            decreases n - i,
        {
            let ghost pre = out.deep_view();
            let ghost s = folders.deep_view();
            out.push(FolderResponse::from(folders[i].clone()));
            proof {
                assert(out.deep_view() =~= pre.push(response_of(s[i as int])));
                assert(s.take(i as int + 1).map_values(|f: FolderView| response_of(f))
                    =~= s.take(i as int).map_values(|f: FolderView| response_of(f)).push(
                    response_of(s[i as int]),
                ));
            }
            i += 1;
        }
        proof {
            assert(folders.deep_view().take(n as int) =~= folders.deep_view());
        }
        ListFoldersResponse(out)
    }
}

} // verus!
