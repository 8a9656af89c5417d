use bookmark::domain::image::error::{image_error_from_storage, ImageError, StorageError};
use bookmark::infra::storage::local::LocalStorage;

#[test]
fn files_live_under_the_root() {
    let s = LocalStorage::new("/data/uploads".to_string());
    assert_eq!(s.root_dir(), "/data/uploads");
    assert_eq!(s.join("abc.webp"), "/data/uploads/abc.webp");
    assert_eq!(s.join("/etc/passwd"), "/etc/passwd");
}

#[test]
fn paths_outside_the_root_are_not_found() {
    let s = LocalStorage::new("/data/uploads".to_string());
    assert_eq!(s.checked_path(Some("/data/uploads/a.webp".to_string())).unwrap(), "/data/uploads/a.webp");
    assert!(matches!(s.checked_path(Some("/data/uploadsX/a.webp".to_string())), Err(StorageError::NotFound)));
    assert!(matches!(s.checked_path(Some("/etc/passwd".to_string())), Err(StorageError::NotFound)));
    assert!(matches!(s.checked_path(None), Err(StorageError::NotFound)));
}

#[test]
fn storage_errors_become_image_errors() {
    assert!(matches!(image_error_from_storage(StorageError::NotFound), ImageError::Unkown(m) if m == "file not found"));
    assert!(matches!(image_error_from_storage(StorageError::SaveFailed), ImageError::Unkown(m) if m == "file save failed"));
    assert!(matches!(image_error_from_storage(StorageError::Unkown("disk".to_string())), ImageError::Unkown(m) if m == "disk"));
}
