use samaritan_fs::errors::Error;
use samaritan_fs::event::Event;
use samaritan_fs::store::{DirectoryStore, StoreConfig};

fn cfg() -> StoreConfig {
    StoreConfig { max_inode_count: 16, max_did_len: 32, hash_len: 4 }
}

fn b(s: &[u8]) -> Vec<u8> {
    s.to_vec()
}

#[test]
fn root_creation_defaults() {
    let mut st = DirectoryStore::new(cfg());
    let r = st.create_root_dir(b(b"did:sam:alice"), b(b"h000"), b(b"m000"), 100);
    match r {
        Ok(Event::RootDirCreated { did, hash }) => {
            assert_eq!(did, b(b"did:sam:alice"));
            assert_eq!(hash, b(b"h000"));
        }
        other => panic!("unexpected outcome: {:?}", other.map(|_| ()).err()),
    }
    let files = st.file_reg(&b(b"did:sam:alice")).expect("owner list");
    assert_eq!(files.len(), 1);
    assert_eq!(files[0].hash, b(b"h000"));
    assert_eq!(files[0].metadata, b(b"m000"));
    assert_eq!(files[0].permission, 700);
    assert!(files[0].is_dir);
    assert!(files[0].parent.is_none());
    assert_eq!(files[0].index, 0);
    assert_eq!(files[0].created, 100);
    let children = st.dir_reg(&b(b"h000")).expect("children entry");
    assert!(children.is_empty());
    assert_eq!(st.inode_count(), 1);
}

#[test]
fn monotonic_child_indices() {
    let mut st = DirectoryStore::new(cfg());
    st.create_root_dir(b(b"a"), b(b"h000"), b(b"m000"), 1).unwrap();
    let hashes = [b(b"h001"), b(b"h002"), b(b"h003")];
    for (i, h) in hashes.iter().enumerate() {
        let r = st.add_inode(b(b"a"), b(b"m001"), h.clone(), b(b"h000"), false, 2);
        match r {
            Ok(Event::NewInodeEntryCreated { height, .. }) => {
                assert_eq!(height, (i + 1) as u64);
            }
            _ => panic!("add failed"),
        }
    }
    let files = st.file_reg(&b(b"a")).unwrap();
    assert_eq!(files.len(), 4);
    for (i, h) in hashes.iter().enumerate() {
        assert_eq!(files[i + 1].hash, *h);
        assert_eq!(files[i + 1].index, i as u64);
        assert_eq!(files[i + 1].parent.as_ref().unwrap(), &b(b"h000"));
    }
    let children = st.dir_reg(&b(b"h000")).unwrap();
    assert_eq!(children.len(), 3);
    for (i, h) in hashes.iter().enumerate() {
        assert_eq!(children[i], *h);
    }
}

#[test]
fn round_trip_metadata() {
    let mut st = DirectoryStore::new(cfg());
    st.create_root_dir(b(b"a"), b(b"h000"), b(b"m000"), 1).unwrap();
    st.add_inode(b(b"a"), b(b"m123"), b(b"h001"), b(b"h000"), false, 2).unwrap();
    let r = st.fetch_metadata(b(b"a"), b(b"a"), 1, b(b"h001"));
    match r {
        Ok(Event::FileMetaDataFetched { meta, files }) => {
            assert_eq!(meta, b(b"m123"));
            assert!(files.is_empty());
        }
        _ => panic!("fetch failed"),
    }
}

#[test]
fn permission_gating() {
    let mut st = DirectoryStore::new(cfg());
    st.create_root_dir(b(b"a"), b(b"h000"), b(b"m000"), 1).unwrap();
    // The owner reads whatever the mode says.
    assert!(st.fetch_metadata(b(b"a"), b(b"a"), 0, b(b"h000")).is_ok());
    // Mode 700: last digit 0, so no one else reads.
    let r = st.fetch_metadata(b(b"eve"), b(b"a"), 0, b(b"h000"));
    assert!(matches!(r, Err(Error::PermissionDenied)));
    // Mode 704: last digit 4 grants reading, not writing.
    st.change_permission(b(b"a"), b(b"a"), 0, b(b"h000"), 704).unwrap();
    assert!(st.fetch_metadata(b(b"eve"), b(b"a"), 0, b(b"h000")).is_ok());
    let r = st.change_permission(b(b"eve"), b(b"a"), 0, b(b"h000"), 777);
    assert!(matches!(r, Err(Error::PermissionDenied)));
    // Mode 747: last digit 7 grants writing to anyone.
    st.change_permission(b(b"a"), b(b"a"), 0, b(b"h000"), 747).unwrap();
    let r = st.change_permission(b(b"eve"), b(b"a"), 0, b(b"h000"), 700);
    match r {
        Ok(Event::InodePermissionModified { old_mode, mode, .. }) => {
            assert_eq!(old_mode, 747);
            assert_eq!(mode, 700);
        }
        _ => panic!("chmod failed"),
    }
}

#[test]
fn short_mode_reads_as_zero_padded() {
    // A mode below 100 has no written third digit; it is read as
    // zero-padded, so its last digit still decides.
    let mut st = DirectoryStore::new(cfg());
    st.create_root_dir(b(b"a"), b(b"h000"), b(b"m000"), 1).unwrap();
    // Mode 7 stands for 007: anyone reads and writes.
    st.change_permission(b(b"a"), b(b"a"), 0, b(b"h000"), 7).unwrap();
    assert!(st.fetch_metadata(b(b"eve"), b(b"a"), 0, b(b"h000")).is_ok());
    assert!(st.change_permission(b(b"eve"), b(b"a"), 0, b(b"h000"), 4).is_ok());
    // Mode 4 stands for 004: anyone reads, no one else writes.
    assert!(st.fetch_metadata(b(b"eve"), b(b"a"), 0, b(b"h000")).is_ok());
    let r = st.change_permission(b(b"eve"), b(b"a"), 0, b(b"h000"), 7);
    assert!(matches!(r, Err(Error::PermissionDenied)));
    // Mode 0: owner-only.
    st.change_permission(b(b"a"), b(b"a"), 0, b(b"h000"), 0).unwrap();
    let r = st.fetch_metadata(b(b"eve"), b(b"a"), 0, b(b"h000"));
    assert!(matches!(r, Err(Error::PermissionDenied)));
    assert!(st.fetch_metadata(b(b"a"), b(b"a"), 0, b(b"h000")).is_ok());
}

#[test]
fn nonempty_directory_guard() {
    let mut st = DirectoryStore::new(cfg());
    st.create_root_dir(b(b"a"), b(b"h000"), b(b"m000"), 1).unwrap();
    st.add_inode(b(b"a"), b(b"m001"), b(b"h001"), b(b"h000"), false, 2).unwrap();
    let r = st.unlink_inode(b(b"a"), b(b"a"), 0, b(b"h000"));
    assert!(matches!(r, Err(Error::DirectoryNotEmpty)));
    // Neither the inode table nor the children index changed.
    let files = st.file_reg(&b(b"a")).unwrap();
    assert_eq!(files.len(), 2);
    assert_eq!(files[0].hash, b(b"h000"));
    let children = st.dir_reg(&b(b"h000")).unwrap();
    assert_eq!(children.len(), 1);
    assert_eq!(children[0], b(b"h001"));
}

#[test]
fn capacity_enforcement() {
    let small = StoreConfig { max_inode_count: 2, max_did_len: 32, hash_len: 4 };
    let mut st = DirectoryStore::new(small);
    st.create_root_dir(b(b"a"), b(b"h000"), b(b"m000"), 1).unwrap();
    st.add_inode(b(b"a"), b(b"m001"), b(b"h001"), b(b"h000"), false, 2).unwrap();
    // The owner's list is full.
    let r = st.add_inode(b(b"a"), b(b"m002"), b(b"h002"), b(b"h000"), false, 3);
    assert!(matches!(r, Err(Error::InodeCountOverflow)));
    assert_eq!(st.file_reg(&b(b"a")).unwrap().len(), 2);
    assert_eq!(st.dir_reg(&b(b"h000")).unwrap().len(), 1);
    // Another identity may still add under the same parent, once.
    st.add_inode(b(b"b"), b(b"m002"), b(b"h002"), b(b"h000"), false, 4).unwrap();
    assert_eq!(st.dir_reg(&b(b"h000")).unwrap().len(), 2);
    // Now the parent's children list is full: the next addition fails and
    // leaves nothing behind.
    let count = st.inode_count();
    let r = st.add_inode(b(b"c"), b(b"m003"), b(b"h003"), b(b"h000"), false, 5);
    assert!(matches!(r, Err(Error::InodeCountOverflow)));
    assert!(st.file_reg(&b(b"c")).is_none());
    assert_eq!(st.dir_reg(&b(b"h000")).unwrap().len(), 2);
    assert_eq!(st.inode_count(), count);
}

#[test]
fn scenario_walkthrough() {
    let mut st = DirectoryStore::new(cfg());
    st.create_root_dir(b(b"a"), b(b"h000"), b(b"m000"), 1).unwrap();
    let r = st.add_inode(b(b"a"), b(b"m001"), b(b"h001"), b(b"h000"), false, 2);
    match r {
        Ok(Event::NewInodeEntryCreated { height, is_dir, .. }) => {
            assert_eq!(height, 1);
            assert!(!is_dir);
        }
        _ => panic!("add failed"),
    }
    let files = st.file_reg(&b(b"a")).unwrap();
    assert_eq!(files[1].index, 0);
    let r = st.fetch_metadata(b(b"a"), b(b"a"), 1, b(b"h001"));
    match r {
        Ok(Event::FileMetaDataFetched { meta, files }) => {
            assert_eq!(meta, b(b"m001"));
            assert!(files.is_empty());
        }
        _ => panic!("fetch failed"),
    }
    let r = st.unlink_inode(b(b"a"), b(b"a"), 0, b(b"h000"));
    assert!(matches!(r, Err(Error::DirectoryNotEmpty)));
}

#[test]
fn unlink_removes_everywhere() {
    let mut st = DirectoryStore::new(cfg());
    st.create_root_dir(b(b"a"), b(b"h000"), b(b"m000"), 1).unwrap();
    st.add_inode(b(b"a"), b(b"m001"), b(b"h001"), b(b"h000"), false, 2).unwrap();
    let r = st.unlink_inode(b(b"a"), b(b"a"), 1, b(b"h001"));
    match r {
        Ok(Event::InodeEntryDeleted { hash, is_dir }) => {
            assert_eq!(hash, b(b"h001"));
            assert!(!is_dir);
        }
        _ => panic!("unlink failed"),
    }
    assert_eq!(st.file_reg(&b(b"a")).unwrap().len(), 1);
    assert!(st.dir_reg(&b(b"h000")).unwrap().is_empty());
    // The root directory is empty now, so it may go too.
    let r = st.unlink_inode(b(b"a"), b(b"a"), 0, b(b"h000"));
    match r {
        Ok(Event::InodeEntryDeleted { hash, is_dir }) => {
            assert_eq!(hash, b(b"h000"));
            assert!(is_dir);
        }
        _ => panic!("unlink failed"),
    }
    assert!(st.file_reg(&b(b"a")).unwrap().is_empty());
    assert!(st.dir_reg(&b(b"h000")).is_none());
}

#[test]
fn unlink_after_sibling_removed_uses_stable_key() {
    let mut st = DirectoryStore::new(cfg());
    st.create_root_dir(b(b"a"), b(b"h000"), b(b"m000"), 1).unwrap();
    st.add_inode(b(b"a"), b(b"m001"), b(b"h001"), b(b"h000"), false, 2).unwrap();
    st.add_inode(b(b"a"), b(b"m002"), b(b"h002"), b(b"h000"), false, 3).unwrap();
    st.unlink_inode(b(b"a"), b(b"a"), 1, b(b"h001")).unwrap();
    // The second child kept its stored position index, yet its hash moved
    // down the children list; it still leaves by value.
    let files = st.file_reg(&b(b"a")).unwrap();
    assert_eq!(files[1].hash, b(b"h002"));
    assert_eq!(files[1].index, 1);
    st.unlink_inode(b(b"a"), b(b"a"), 1, b(b"h002")).unwrap();
    assert!(st.dir_reg(&b(b"h000")).unwrap().is_empty());
    assert_eq!(st.file_reg(&b(b"a")).unwrap().len(), 1);
}

#[test]
fn directory_child_gets_children_entry() {
    let mut st = DirectoryStore::new(cfg());
    st.create_root_dir(b(b"a"), b(b"h000"), b(b"m000"), 1).unwrap();
    st.add_inode(b(b"a"), b(b"m001"), b(b"h001"), b(b"h000"), true, 2).unwrap();
    let children = st.dir_reg(&b(b"h001")).expect("children entry for new directory");
    assert!(children.is_empty());
    // A further entry nests under the new directory.
    st.add_inode(b(b"a"), b(b"m002"), b(b"h002"), b(b"h001"), false, 3).unwrap();
    assert_eq!(st.dir_reg(&b(b"h001")).unwrap().len(), 1);
    // Fetching the directory reports its children.
    let r = st.fetch_metadata(b(b"a"), b(b"a"), 1, b(b"h001"));
    match r {
        Ok(Event::FileMetaDataFetched { meta, files }) => {
            assert_eq!(meta, b(b"m001"));
            assert_eq!(files, vec![b(b"h002")]);
        }
        _ => panic!("fetch failed"),
    }
}

#[test]
fn identity_without_root_adds_at_height_zero() {
    let mut st = DirectoryStore::new(cfg());
    st.create_root_dir(b(b"a"), b(b"h000"), b(b"m000"), 1).unwrap();
    let r = st.add_inode(b(b"b"), b(b"m001"), b(b"h001"), b(b"h000"), false, 2);
    match r {
        Ok(Event::NewInodeEntryCreated { height, .. }) => assert_eq!(height, 0),
        _ => panic!("add failed"),
    }
    assert_eq!(st.file_reg(&b(b"b")).unwrap().len(), 1);
}

#[test]
fn create_root_replaces_existing_tree() {
    let mut st = DirectoryStore::new(cfg());
    st.create_root_dir(b(b"a"), b(b"h000"), b(b"m000"), 1).unwrap();
    st.add_inode(b(b"a"), b(b"m001"), b(b"h001"), b(b"h000"), false, 2).unwrap();
    st.create_root_dir(b(b"a"), b(b"h009"), b(b"m009"), 3).unwrap();
    let files = st.file_reg(&b(b"a")).unwrap();
    assert_eq!(files.len(), 1);
    assert_eq!(files[0].hash, b(b"h009"));
    // The old tree's children entries are left behind.
    assert!(st.dir_reg(&b(b"h000")).is_some());
    assert!(st.dir_reg(&b(b"h009")).unwrap().is_empty());
}

#[test]
fn input_validation_errors() {
    let mut st = DirectoryStore::new(StoreConfig { max_inode_count: 4, max_did_len: 3, hash_len: 4 });
    // Identity too long.
    let r = st.create_root_dir(b(b"toolong"), b(b"h000"), b(b"m000"), 1);
    assert!(matches!(r, Err(Error::DIDLengthOverflow)));
    let r = st.fetch_metadata(b(b"toolong"), b(b"a"), 0, b(b"h000"));
    assert!(matches!(r, Err(Error::DIDLengthOverflow)));
    // A hash must have the configured width exactly.
    let r = st.create_root_dir(b(b"a"), b(b"h0"), b(b"m000"), 1);
    assert!(matches!(r, Err(Error::HashLengthOverflow)));
    let r = st.create_root_dir(b(b"a"), b(b"h000"), b(b"m00000"), 1);
    assert!(matches!(r, Err(Error::HashLengthOverflow)));
    st.create_root_dir(b(b"a"), b(b"h000"), b(b"m000"), 1).unwrap();
    let r = st.add_inode(b(b"a"), b(b"m001"), b(b"h1"), b(b"h000"), false, 2);
    assert!(matches!(r, Err(Error::HashLengthOverflow)));
    // Nothing was stored by the failed attempts.
    assert_eq!(st.file_reg(&b(b"a")).unwrap().len(), 1);
    assert_eq!(st.inode_count(), 1);
}

#[test]
fn missing_reference_errors() {
    let mut st = DirectoryStore::new(cfg());
    st.create_root_dir(b(b"a"), b(b"h000"), b(b"m000"), 1).unwrap();
    // Unknown parent directory.
    let r = st.add_inode(b(b"a"), b(b"m001"), b(b"h001"), b(b"h999"), false, 2);
    assert!(matches!(r, Err(Error::InvalidDirectory)));
    // Unknown owner.
    let r = st.fetch_metadata(b(b"a"), b(b"nobody"), 0, b(b"h000"));
    assert!(matches!(r, Err(Error::InvalidInodeEntry)));
    // Index out of range.
    let r = st.fetch_metadata(b(b"a"), b(b"a"), 5, b(b"h000"));
    assert!(matches!(r, Err(Error::InvalidInodeEntry)));
    // Hash does not match the entry at the index.
    let r = st.fetch_metadata(b(b"a"), b(b"a"), 0, b(b"h999"));
    assert!(matches!(r, Err(Error::InvalidInodeEntry)));
    // The same validation guards unlink and chmod.
    let r = st.unlink_inode(b(b"a"), b(b"a"), 7, b(b"h000"));
    assert!(matches!(r, Err(Error::InvalidInodeEntry)));
    let r = st.change_permission(b(b"a"), b(b"a"), 0, b(b"h999"), 700);
    assert!(matches!(r, Err(Error::InvalidInodeEntry)));
}

#[test]
fn zero_capacity_refuses_root() {
    let mut st = DirectoryStore::new(StoreConfig { max_inode_count: 0, max_did_len: 8, hash_len: 4 });
    let r = st.create_root_dir(b(b"a"), b(b"h000"), b(b"m000"), 1);
    assert!(matches!(r, Err(Error::InodeCountOverflow)));
    assert!(st.file_reg(&b(b"a")).is_none());
    assert_eq!(st.inode_count(), 0);
}

#[test]
fn counter_counts_creations_only() {
    let mut st = DirectoryStore::new(cfg());
    assert_eq!(st.inode_count(), 0);
    st.create_root_dir(b(b"a"), b(b"h000"), b(b"m000"), 1).unwrap();
    st.add_inode(b(b"a"), b(b"m001"), b(b"h001"), b(b"h000"), false, 2).unwrap();
    assert_eq!(st.inode_count(), 2);
    st.change_permission(b(b"a"), b(b"a"), 0, b(b"h000"), 704).unwrap();
    st.fetch_metadata(b(b"a"), b(b"a"), 0, b(b"h000")).unwrap();
    st.unlink_inode(b(b"a"), b(b"a"), 1, b(b"h001")).unwrap();
    assert_eq!(st.inode_count(), 2);
}
