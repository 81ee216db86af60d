use mod_store::blob::{BlobCache, BlobRef};

fn temp_dir_string(dir: &tempfile::TempDir) -> String {
    dir.path().to_str().unwrap().to_string()
}

fn visible_files(dir: &str) -> Vec<String> {
    let mut names = Vec::new();
    for entry in fs_err::read_dir(dir).unwrap() {
        let name = entry.unwrap().file_name().to_str().unwrap().to_string();
        if !name.starts_with('.') {
            names.push(name);
        }
    }
    names
}

#[test]
fn write_same_bytes_yields_same_ref_and_one_file() {
    let dir = tempfile::tempdir().unwrap();
    let cache = BlobCache::new(temp_dir_string(&dir));
    let bytes = b"identical content".to_vec();
    let r1 = cache.write(&bytes).unwrap();
    let r2 = cache.write(&bytes).unwrap();
    assert_eq!(r1.0, r2.0);
    let files = visible_files(dir.path().to_str().unwrap());
    assert_eq!(files.len(), 1);
    assert_eq!(files[0], r1.0);
}

#[test]
fn write_then_get_path_returns_written_contents() {
    let dir = tempfile::tempdir().unwrap();
    let cache = BlobCache::new(temp_dir_string(&dir));
    let bytes = vec![0u8, 1, 2, 255, 42];
    let blob = cache.write(&bytes).unwrap();
    let path = cache.get_path(&blob).expect("blob just written must be present");
    assert_eq!(fs_err::read(&path).unwrap(), bytes);
}

#[test]
fn write_known_digest_abc() {
    let dir = tempfile::tempdir().unwrap();
    let cache = BlobCache::new(temp_dir_string(&dir));
    let blob = cache.write(&b"abc".to_vec()).unwrap();
    assert_eq!(
        blob.0,
        "ba7816bf8f01cfea414140de5dae2223b00361a396177a9cb410ff61f20015ad"
    );
}

#[test]
fn write_known_digest_empty() {
    let dir = tempfile::tempdir().unwrap();
    let cache = BlobCache::new(temp_dir_string(&dir));
    let blob = cache.write(&Vec::new()).unwrap();
    assert_eq!(
        blob.0,
        "e3b0c44298fc1c149afbf4c8996fb92427ae41e4649b934ca495991b7852b855"
    );
}

#[test]
fn get_path_of_absent_blob_is_none() {
    let dir = tempfile::tempdir().unwrap();
    let cache = BlobCache::new(temp_dir_string(&dir));
    let absent = BlobRef("00".repeat(32));
    assert!(cache.get_path(&absent).is_none());
}

#[test]
fn no_temporary_files_remain_after_writes() {
    let dir = tempfile::tempdir().unwrap();
    let cache = BlobCache::new(temp_dir_string(&dir));
    cache.write(&b"one".to_vec()).unwrap();
    cache.write(&b"two".to_vec()).unwrap();
    for entry in fs_err::read_dir(dir.path().to_str().unwrap()).unwrap() {
        let name = entry.unwrap().file_name().to_str().unwrap().to_string();
        assert!(!name.starts_with('.'));
    }
}

#[test]
fn distinct_bytes_get_distinct_refs() {
    let dir = tempfile::tempdir().unwrap();
    let cache = BlobCache::new(temp_dir_string(&dir));
    let r1 = cache.write(&b"first".to_vec()).unwrap();
    let r2 = cache.write(&b"second".to_vec()).unwrap();
    assert_ne!(r1.0, r2.0);
    assert_eq!(visible_files(dir.path().to_str().unwrap()).len(), 2);
}

#[test]
fn write_into_missing_directory_is_store_write_error() {
    let dir = tempfile::tempdir().unwrap();
    let missing = format!("{}/absent/blobs", dir.path().to_str().unwrap());
    let cache = BlobCache::new(missing);
    match cache.write(&b"data".to_vec()).unwrap_err() {
        mod_store::error::Error::StoreWrite { .. } => {},
        other => panic!("expected StoreWrite, got {:?}", other),
    }
}
