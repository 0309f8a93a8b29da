use vstd::prelude::*;

use crate::errors::Error;
use crate::event::EventModel;
use crate::inode::InodeModel;
use crate::perm::{can_access, Access, DEFAULT_MODE};

verus! {

/// The mathematical state of the store.
///
/// `owners` maps each identity to its insertion-ordered inode list;
/// `children` maps a directory's content hash to the ordered hashes of its
/// immediate children — a directory exists exactly when its hash is a key
/// here, even with no children yet. `count` is the global creation counter,
/// kept for reporting only. The three bounds are the configuration the
/// store was initialised with and never change.
#[verifier::ext_equal]
pub struct StoreModel {
    pub owners: Map<Seq<u8>, Seq<InodeModel>>,
    pub children: Map<Seq<u8>, Seq<Seq<u8>>>,
    pub count: u64,
    pub max_inodes: nat,
    pub max_did_len: nat,
    pub hash_len: nat,
}

/// The global counter after one more creation. It is metrics-only and pegs
/// at the largest representable value instead of wrapping.
pub open spec fn bump_count(c: u64) -> u64 {
    if c == u64::MAX {
        c
    } else {
        (c + 1) as u64
    }
}

/// Whether an identity string fits the configured bound.
pub open spec fn did_ok(s: StoreModel, did: Seq<u8>) -> bool {
    did.len() <= s.max_did_len
}

/// Whether a hash has the configured fixed width.
pub open spec fn hash_ok(s: StoreModel, h: Seq<u8>) -> bool {
    h.len() == s.hash_len
}

/// The inode list an identity owns; empty when none was created yet.
pub open spec fn owner_list(s: StoreModel, did: Seq<u8>) -> Seq<InodeModel> {
    if s.owners.contains_key(did) {
        s.owners[did]
    } else {
        Seq::empty()
    }
}

/// Creating the root of an identity's tree.
///
/// The identity must fit the configured length and both hashes the
/// configured width; a configuration that admits no inode at all refuses
/// the root too. On success the identity's list becomes the one-element
/// list holding the root — an existing list is silently replaced — the
/// root is a directory with index 0, no parent and the default mode, an
/// empty children entry is keyed by its hash, and the counter moves up.
pub open spec fn create_root_spec(
    s: StoreModel,
    did: Seq<u8>,
    hash: Seq<u8>,
    metadata: Seq<u8>,
    now: u64,
) -> (StoreModel, Result<EventModel, Error>) {
    if !did_ok(s, did) {
        (s, Err(Error::DIDLengthOverflow))
    } else if !hash_ok(s, hash) || !hash_ok(s, metadata) {
        (s, Err(Error::HashLengthOverflow))
    } else if s.max_inodes == 0 {
        (s, Err(Error::InodeCountOverflow))
    } else {
        let root = InodeModel {
            hash,
            metadata,
            permission: DEFAULT_MODE,
            is_dir: true,
            parent: None,
            index: 0,
            created: now,
            last_access: now,
        };
        (
            StoreModel {
                owners: s.owners.insert(did, seq![root]),
                children: s.children.insert(hash, Seq::empty()),
                count: bump_count(s.count),
                ..s
            },
            Ok(EventModel::RootDirCreated { did, hash }),
        )
    }
}

/// Appending an inode under an existing directory.
///
/// After the length checks, the parent must have a children entry, and
/// both the owner's list and the parent's children list must have room.
/// The whole effect then applies at once: the reported `height` is the
/// owner's list length before the insertion, the stored `index` is the
/// children list's length before the insertion, the entry is appended to
/// the owner's list, its hash to the parent's children, a directory gets a
/// fresh empty children entry of its own, and the counter moves up. On any
/// error nothing changes.
pub open spec fn add_inode_spec(
    s: StoreModel,
    did: Seq<u8>,
    metadata: Seq<u8>,
    hash: Seq<u8>,
    parent_hash: Seq<u8>,
    is_dir: bool,
    now: u64,
) -> (StoreModel, Result<EventModel, Error>) {
    if !did_ok(s, did) {
        (s, Err(Error::DIDLengthOverflow))
    } else if !hash_ok(s, metadata) || !hash_ok(s, hash) || !hash_ok(s, parent_hash) {
        (s, Err(Error::HashLengthOverflow))
    } else if !s.children.contains_key(parent_hash) {
        (s, Err(Error::InvalidDirectory))
    } else {
        let files = owner_list(s, did);
        let dir = s.children[parent_hash];
        if files.len() >= s.max_inodes || dir.len() >= s.max_inodes {
            (s, Err(Error::InodeCountOverflow))
        } else {
            let entry = InodeModel {
                hash,
                metadata,
                permission: DEFAULT_MODE,
                is_dir,
                parent: Some(parent_hash),
                index: dir.len(),
                created: now,
                last_access: now,
            };
            let with_child = s.children.insert(parent_hash, dir.push(hash));
            (
                StoreModel {
                    owners: s.owners.insert(did, files.push(entry)),
                    children: if is_dir {
                        with_child.insert(hash, Seq::empty())
                    } else {
                        with_child
                    },
                    count: bump_count(s.count),
                    ..s
                },
                Ok(
                    EventModel::NewInodeEntryCreated {
                        did,
                        file_hash: hash,
                        is_dir,
                        height: files.len(),
                    },
                ),
            )
        }
    }
}

/// Reading an inode's metadata hash.
///
/// The caller names the owner, a position in the owner's list and the hash
/// it expects there; a missing owner, a position out of range or a hash
/// that does not match the stored one all look alike from outside. Reading
/// needs `Read` access. The store never changes; a directory also reports
/// the hashes of its immediate children.
pub open spec fn fetch_metadata_spec(
    s: StoreModel,
    caller: Seq<u8>,
    owner: Seq<u8>,
    index: int,
    hash: Seq<u8>,
) -> Result<EventModel, Error> {
    if !did_ok(s, caller) || !did_ok(s, owner) {
        Err(Error::DIDLengthOverflow)
    } else if !hash_ok(s, hash) {
        Err(Error::HashLengthOverflow)
    } else if !s.owners.contains_key(owner) {
        Err(Error::InvalidInodeEntry)
    } else {
        let files = s.owners[owner];
        if !(0 <= index < files.len()) {
            Err(Error::InvalidInodeEntry)
        } else {
            let entry = files[index];
            if entry.hash != hash {
                Err(Error::InvalidInodeEntry)
            } else if !can_access(owner, caller, entry.permission, Access::Read) {
                Err(Error::PermissionDenied)
            } else {
                Ok(
                    EventModel::FileMetaDataFetched {
                        meta: entry.metadata,
                        files: if entry.is_dir && s.children.contains_key(hash) {
                            s.children[hash]
                        } else {
                            Seq::empty()
                        },
                    },
                )
            }
        }
    }
}

/// Unlinking an inode.
///
/// Validation is as for a fetch, but writing needs `Write` access, and a
/// directory must have an empty children list before it may go. The whole
/// effect then applies at once: a directory's own children entry is
/// removed, the inode's hash leaves its parent's children list — found by
/// the hash itself, the stable key, since stored positions go stale once a
/// sibling has been removed — and the entry leaves the owner's list, with
/// later entries shifting down. On any error nothing changes.
pub open spec fn unlink_inode_spec(
    s: StoreModel,
    caller: Seq<u8>,
    owner: Seq<u8>,
    index: int,
    hash: Seq<u8>,
) -> (StoreModel, Result<EventModel, Error>) {
    if !did_ok(s, caller) || !did_ok(s, owner) {
        (s, Err(Error::DIDLengthOverflow))
    } else if !hash_ok(s, hash) {
        (s, Err(Error::HashLengthOverflow))
    } else if !s.owners.contains_key(owner) {
        (s, Err(Error::InvalidInodeEntry))
    } else {
        let files = s.owners[owner];
        if !(0 <= index < files.len()) {
            (s, Err(Error::InvalidInodeEntry))
        } else {
            let entry = files[index];
            if entry.hash != hash {
                (s, Err(Error::InvalidInodeEntry))
            } else if !can_access(owner, caller, entry.permission, Access::Write) {
                (s, Err(Error::PermissionDenied))
            } else if entry.is_dir && s.children.contains_key(hash) && s.children[hash].len()
                > 0 {
                (s, Err(Error::DirectoryNotEmpty))
            } else {
                let pruned = if entry.is_dir {
                    s.children.remove(hash)
                } else {
                    s.children
                };
                let unlinked = match entry.parent {
                    Some(p) => if pruned.contains_key(p) {
                        pruned.insert(p, pruned[p].remove_value(hash))
                    } else {
                        pruned
                    },
                    None => pruned,
                };
                (
                    StoreModel {
                        owners: s.owners.insert(owner, files.remove(index)),
                        children: unlinked,
                        ..s
                    },
                    Ok(EventModel::InodeEntryDeleted { hash, is_dir: entry.is_dir }),
                )
            }
        }
    }
}

/// Overwriting an inode's mode.
///
/// Validation is as for a fetch, but writing needs `Write` access. Only
/// the permission field changes, and the mode it held is reported back.
pub open spec fn change_permission_spec(
    s: StoreModel,
    caller: Seq<u8>,
    owner: Seq<u8>,
    index: int,
    hash: Seq<u8>,
    mode: u32,
) -> (StoreModel, Result<EventModel, Error>) {
    if !did_ok(s, caller) || !did_ok(s, owner) {
        (s, Err(Error::DIDLengthOverflow))
    } else if !hash_ok(s, hash) {
        (s, Err(Error::HashLengthOverflow))
    } else if !s.owners.contains_key(owner) {
        (s, Err(Error::InvalidInodeEntry))
    } else {
        let files = s.owners[owner];
        if !(0 <= index < files.len()) {
            (s, Err(Error::InvalidInodeEntry))
        } else {
            let entry = files[index];
            if entry.hash != hash {
                (s, Err(Error::InvalidInodeEntry))
            } else if !can_access(owner, caller, entry.permission, Access::Write) {
                (s, Err(Error::PermissionDenied))
            } else {
                let updated = InodeModel { permission: mode, ..entry };
                (
                    StoreModel { owners: s.owners.insert(owner, files.update(index, updated)), ..s },
                    Ok(
                        EventModel::InodePermissionModified {
                            hash,
                            old_mode: entry.permission,
                            mode,
                        },
                    ),
                )
            }
        }
    }
}

} // verus!
