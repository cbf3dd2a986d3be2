use paper_backend::folder::{Folder, FolderType, PersistenceError};
use paper_backend::repo::{FolderRepository, MemoryFolderRepository};

fn folder(id: &str, user: &str, name: &str, parent: Option<&str>) -> Folder {
    Folder {
        id: id.to_string(),
        parent_id: parent.map(|p| p.to_string()),
        user_id: user.to_string(),
        created_at: 1_000,
        updated_at: 1_000,
        name: name.to_string(),
        description: None,
        folder_type: FolderType::UserDefined,
    }
}

#[test]
fn create_then_get_returns_equal_folder() {
    let mut repo = MemoryFolderRepository::new();
    let f = folder("id-1", "user-1", "Inbox", None);
    repo.create_folder(f).unwrap();
    let got = repo.get_folder_by_id("id-1").unwrap().unwrap();
    assert_eq!(got.id, "id-1");
    assert_eq!(got.user_id, "user-1");
    assert_eq!(got.name, "Inbox");
    assert_eq!(got.parent_id, None);
    assert_eq!(got.description, None);
    assert_eq!(got.created_at, 1_000);
    assert_eq!(got.updated_at, 1_000);
    assert_eq!(got.folder_type, FolderType::UserDefined);
}

#[test]
fn create_duplicate_id_fails() {
    let mut repo = MemoryFolderRepository::new();
    repo.create_folder(folder("id-1", "user-1", "First", None)).unwrap();
    let err = repo.create_folder(folder("id-1", "user-2", "Second", None));
    assert_eq!(err, Err(PersistenceError::DuplicateId));
    // The failed insert modified nothing.
    let got = repo.get_folder_by_id("id-1").unwrap().unwrap();
    assert_eq!(got.user_id, "user-1");
    assert_eq!(got.name, "First");
}

#[test]
fn get_absent_id_returns_none() {
    let mut repo = MemoryFolderRepository::new();
    assert!(repo.get_folder_by_id("never").unwrap().is_none());
    repo.create_folder(folder("id-1", "user-1", "A", None)).unwrap();
    assert!(repo.get_folder_by_id("never").unwrap().is_none());
}

#[test]
fn get_folders_by_user_id_filters_by_owner() {
    let mut repo = MemoryFolderRepository::new();
    repo.create_folder(folder("id-1", "user-1", "A", None)).unwrap();
    repo.create_folder(folder("id-2", "user-2", "B", None)).unwrap();
    repo.create_folder(folder("id-3", "user-1", "C", None)).unwrap();
    let mine = repo.get_folders_by_user_id("user-1").unwrap();
    let mut ids: Vec<String> = mine.iter().map(|f| f.id.clone()).collect();
    ids.sort();
    assert_eq!(ids, vec!["id-1".to_string(), "id-3".to_string()]);
    assert!(mine.iter().all(|f| f.user_id == "user-1"));
    let theirs = repo.get_folders_by_user_id("user-2").unwrap();
    assert_eq!(theirs.len(), 1);
    assert_eq!(theirs[0].id, "id-2");
}

#[test]
fn get_folders_by_user_id_empty_for_unknown_user() {
    let mut repo = MemoryFolderRepository::new();
    repo.create_folder(folder("id-1", "user-1", "A", None)).unwrap();
    assert!(repo.get_folders_by_user_id("user-none").unwrap().is_empty());
}

#[test]
fn update_existing_replaces_all_mutable_fields() {
    let mut repo = MemoryFolderRepository::new();
    repo.create_folder(folder("id-1", "user-1", "Before", None)).unwrap();
    let mut replacement = folder("id-1", "user-1", "After", Some("parent-9"));
    replacement.description = Some("changed".to_string());
    replacement.updated_at = 2_000;
    let returned = repo.update_folder(replacement).unwrap();
    assert_eq!(returned.name, "After");
    let got = repo.get_folder_by_id("id-1").unwrap().unwrap();
    assert_eq!(got.name, "After");
    assert_eq!(got.parent_id, Some("parent-9".to_string()));
    assert_eq!(got.description, Some("changed".to_string()));
    assert_eq!(got.updated_at, 2_000);
}

#[test]
fn update_absent_succeeds_without_creating() {
    let mut repo = MemoryFolderRepository::new();
    let ghostly = folder("id-gone", "user-1", "Nowhere", None);
    let returned = repo.update_folder(ghostly).unwrap();
    assert_eq!(returned.id, "id-gone");
    assert_eq!(returned.name, "Nowhere");
    assert!(repo.get_folder_by_id("id-gone").unwrap().is_none());
    assert!(repo.get_folders_by_user_id("user-1").unwrap().is_empty());
}

#[test]
fn delete_then_get_returns_none() {
    let mut repo = MemoryFolderRepository::new();
    repo.create_folder(folder("id-1", "user-1", "A", None)).unwrap();
    repo.delete_folder("id-1").unwrap();
    assert!(repo.get_folder_by_id("id-1").unwrap().is_none());
    // Deleting an id that never existed is also a success.
    repo.delete_folder("id-never").unwrap();
    assert!(repo.get_folder_by_id("id-never").unwrap().is_none());
}

#[test]
fn default_then_user_folder_then_orphan() {
    let mut repo = MemoryFolderRepository::new();
    let default = Folder::default_system_folder("user-u");
    let default_id = default.id.clone();
    assert_eq!(default.folder_type, FolderType::SystemDefined);
    assert_eq!(default.parent_id, None);
    repo.create_folder(default).unwrap();

    let mut notes = folder("id-notes", "user-u", "Notes", None);
    notes.parent_id = Some(default_id.clone());
    repo.create_folder(notes).unwrap();

    let all = repo.get_folders_by_user_id("user-u").unwrap();
    assert_eq!(all.len(), 2);

    repo.delete_folder(&default_id).unwrap();
    let left = repo.get_folders_by_user_id("user-u").unwrap();
    assert_eq!(left.len(), 1);
    assert_eq!(left[0].name, "Notes");
    // The surviving folder still references the deleted parent: no cascading
    // cleanup and no reparenting happened.
    assert_eq!(left[0].parent_id, Some(default_id));
}
