use lattica::fs_blockstore::{
    exists_outcome, join_path, read_outcome, remove_outcome, write_outcome, FsBlockstore, IoFailure, StoreError,
};

#[test]
fn join_adds_one_separator() {
    assert_eq!(join_path("/tmp/store", "ba"), "/tmp/store/ba");
    assert_eq!(join_path("/tmp/store/", "ba"), "/tmp/store/ba");
    assert_eq!(join_path("", "ba"), "ba");
    assert_eq!(join_path("/tmp/store", "ba"), std::path::Path::new("/tmp/store").join("ba").to_str().unwrap());
}

#[test]
fn directories_include_common_prefixes() {
    let s = FsBlockstore::new("/data".to_string());
    assert_eq!(
        s.directories(),
        vec!["/data", "/data/ba", "/data/bb", "/data/bc", "/data/bd", "/data/be", "/data/bf"]
    );
}

#[test]
fn block_paths_use_two_character_prefix() {
    let s = FsBlockstore::new("/data".to_string());
    assert_eq!(s.block_path_for_text("bafkreiabc"), "/data/ba/bafkreiabc");
    assert_eq!(s.block_path_for_text("Q"), "/data/Q/Q");
}

#[test]
fn block_path_from_cid_bytes() {
    let cid: cid::Cid = "bafkreigh2akiscaildcqabsyg3dfr6chu3fgpregiymsck7e7aqa4s52zy".parse().unwrap();
    let s = FsBlockstore::new("/data".to_string());
    assert_eq!(
        s.block_path(&cid.to_bytes()).unwrap(),
        "/data/ba/bafkreigh2akiscaildcqabsyg3dfr6chu3fgpregiymsck7e7aqa4s52zy"
    );
    assert!(s.block_path(&[0xff, 0xff]).is_none());
}

fn failure(not_found: bool) -> IoFailure {
    IoFailure { not_found, message: "disk on fire".to_string() }
}

#[test]
fn outcomes_of_file_operations() {
    assert_eq!(read_outcome(Ok(vec![1])).unwrap(), Some(vec![1]));
    assert_eq!(read_outcome(Err(failure(true))).unwrap(), None);
    assert!(matches!(read_outcome(Err(failure(false))), Err(StoreError::Executor(m)) if m == "disk on fire"));
    assert!(write_outcome(Ok(())).is_ok());
    assert!(matches!(write_outcome(Err(failure(true))), Err(StoreError::Executor(_))));
    assert!(remove_outcome(Err(failure(true))).is_ok());
    assert!(matches!(remove_outcome(Err(failure(false))), Err(StoreError::Executor(_))));
    assert!(exists_outcome(Ok(true)));
    assert!(!exists_outcome(Ok(false)));
    assert!(!exists_outcome(Err(failure(false))));
}
