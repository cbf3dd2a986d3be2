use paper_backend::folder::{
    CreateFolderRequest, Folder, FolderResponse, FolderType, ListFoldersResponse,
    UpdateFolderRequest,
};

fn folder(id: &str, user: &str, name: &str, parent: Option<&str>) -> Folder {
    Folder {
        id: id.to_string(),
        parent_id: parent.map(|p| p.to_string()),
        user_id: user.to_string(),
        created_at: 1_000,
        updated_at: 1_000,
        name: name.to_string(),
        description: None,
        folder_type: FolderType::UserDefined,
    }
}

#[test]
fn default_system_folder_shape() {
    let f = Folder::default_system_folder("user-1");
    assert_eq!(f.user_id, "user-1");
    assert_eq!(f.parent_id, None);
    assert_eq!(f.name, "默认");
    assert_eq!(f.description, Some("System-defined folder.".to_string()));
    assert_eq!(f.folder_type, FolderType::SystemDefined);
    assert_eq!(f.created_at, f.updated_at);
}

#[test]
fn default_system_folder_fresh_ids() {
    let a = Folder::default_system_folder("user-1");
    let b = Folder::default_system_folder("user-1");
    assert_ne!(a.id, b.id);
    assert_eq!(a.id.len(), 36);
    assert_eq!(b.id.len(), 36);
}

#[test]
fn new_from_request_shape() {
    let request = CreateFolderRequest {
        parent_id: Some("parent-1".to_string()),
        name: "Notes".to_string(),
        description: Some("my notes".to_string()),
    };
    let f = Folder::new_from_request("user-2", request);
    assert_eq!(f.user_id, "user-2");
    assert_eq!(f.parent_id, Some("parent-1".to_string()));
    assert_eq!(f.name, "Notes");
    assert_eq!(f.description, Some("my notes".to_string()));
    assert_eq!(f.folder_type, FolderType::UserDefined);
    assert_eq!(f.created_at, f.updated_at);
    assert_eq!(f.id.len(), 36);
}

#[test]
fn new_from_request_root_folder() {
    let request = CreateFolderRequest {
        parent_id: None,
        name: "Top".to_string(),
        description: None,
    };
    let f = Folder::new_from_request("user-3", request);
    assert_eq!(f.parent_id, None);
    assert_eq!(f.description, None);
    assert_eq!(f.folder_type, FolderType::UserDefined);
}

#[test]
fn apply_update_overrides_supplied_fields() {
    let f = folder("id-1", "user-1", "Old", Some("parent-old"));
    let request = UpdateFolderRequest {
        parent_id: Some("parent-new".to_string()),
        name: Some("New".to_string()),
        description: Some("fresh".to_string()),
    };
    let g = f.apply_update(request, 2_000);
    assert_eq!(g.id, "id-1");
    assert_eq!(g.user_id, "user-1");
    assert_eq!(g.parent_id, Some("parent-new".to_string()));
    assert_eq!(g.name, "New");
    assert_eq!(g.description, Some("fresh".to_string()));
    assert_eq!(g.created_at, 1_000);
    assert_eq!(g.updated_at, 2_000);
    assert_eq!(g.folder_type, FolderType::UserDefined);
}

#[test]
fn apply_update_keeps_unsupplied_fields() {
    let mut f = folder("id-2", "user-1", "Kept", Some("parent-kept"));
    f.description = Some("kept".to_string());
    let request = UpdateFolderRequest {
        parent_id: None,
        name: None,
        description: None,
    };
    let g = f.apply_update(request, 3_000);
    assert_eq!(g.parent_id, Some("parent-kept".to_string()));
    assert_eq!(g.name, "Kept");
    assert_eq!(g.description, Some("kept".to_string()));
    assert_eq!(g.updated_at, 3_000);
}

#[test]
fn folder_response_from_folder() {
    let mut f = folder("id-3", "user-9", "Shape", Some("parent-3"));
    f.description = Some("described".to_string());
    let r = FolderResponse::from(f);
    assert_eq!(r.id, "id-3");
    assert_eq!(r.parent_id, Some("parent-3".to_string()));
    assert_eq!(r.name, "Shape");
    assert_eq!(r.description, Some("described".to_string()));
    assert_eq!(r.folder_type, FolderType::UserDefined);
}

#[test]
fn list_folders_response_in_order() {
    let folders = vec![
        folder("id-a", "user-1", "A", None),
        folder("id-b", "user-1", "B", Some("id-a")),
    ];
    let list = ListFoldersResponse::from_folders(folders);
    assert_eq!(list.0.len(), 2);
    assert_eq!(list.0[0].id, "id-a");
    assert_eq!(list.0[0].name, "A");
    assert_eq!(list.0[1].id, "id-b");
    assert_eq!(list.0[1].parent_id, Some("id-a".to_string()));
}
