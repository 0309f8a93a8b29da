use vstd::prelude::*;

use crate::bytes::{bytes_eq, clone_byte_list, clone_bytes, find_first};
use crate::errors::Error;
use crate::event::{result_view, Event, EventModel};
use crate::inode::Inode;
use crate::keyed_list::KeyedList;
use crate::model::{
    add_inode_spec, change_permission_spec, create_root_spec, fetch_metadata_spec, owner_list,
    unlink_inode_spec, StoreModel,
};
use crate::perm::{check_access, Access, DEFAULT_MODE};
use crate::views::{lemma_deep_push, lemma_deep_remove, lemma_deep_update};

verus! {

/// The capacity limits a store is initialised with; they never change at
/// run time.
#[derive(Clone, Copy)]
pub struct StoreConfig {
    /// Upper bound on one identity's inode list and on one directory's
    /// children list alike.
    pub max_inode_count: u32,
    /// Upper bound on an identity string's length, in bytes.
    pub max_did_len: u32,
    /// Exact width of every content and metadata hash, in bytes.
    pub hash_len: u32,
}

/// The hierarchical object store: the inode table (identity to owned
/// inode list), the children index (directory hash to child hashes) and
/// the global creation counter, behind the limits of a `StoreConfig`.
pub struct DirectoryStore {
    owners: KeyedList<Vec<Inode>>,
    children: KeyedList<Vec<Vec<u8>>>,
    count: u64,
    config: StoreConfig,
}

impl View for DirectoryStore {
    type V = StoreModel;

    closed spec fn view(&self) -> StoreModel {
        StoreModel {
            owners: self.owners@,
            children: self.children@,
            count: self.count,
            max_inodes: self.config.max_inode_count as nat,
            max_did_len: self.config.max_did_len as nat,
            hash_len: self.config.hash_len as nat,
        }
    }
}

impl DirectoryStore {
    /// Both internal indexes keep their keys unique.
    pub closed spec fn wf(self) -> bool {
        self.owners.wf() && self.children.wf()
    }

    /// An empty store with the given limits.
    pub fn new(config: StoreConfig) -> (s: DirectoryStore)
        ensures
            s.wf(),
            s@ == (StoreModel {
                owners: Map::empty(),
                children: Map::empty(),
                count: 0,
                max_inodes: config.max_inode_count as nat,
                max_did_len: config.max_did_len as nat,
                hash_len: config.hash_len as nat,
            }),
    {
        DirectoryStore {
            owners: KeyedList::new(),
            children: KeyedList::new(),
            count: 0,
            config,
        }
    }

    /// The inode list an identity owns, if any was created.
    pub fn file_reg<'a>(&'a self, did: &Vec<u8>) -> (r: Option<&'a Vec<Inode>>)
        requires
            self.wf(),
        ensures
            match r {
                Some(v) => self@.owners.contains_key(did@) && v.deep_view() == self@.owners[did@],
                None => !self@.owners.contains_key(did@),
            },
    {
        self.owners.get(did)
    }

    /// The children list a directory hash keys, if the directory exists.
    pub fn dir_reg<'a>(&'a self, hash: &Vec<u8>) -> (r: Option<&'a Vec<Vec<u8>>>)
        requires
            self.wf(),
        ensures
            match r {
                Some(v) => self@.children.contains_key(hash@) && v.deep_view()
                    == self@.children[hash@],
                None => !self@.children.contains_key(hash@),
            },
    {
        self.children.get(hash)
    }

    /// The global creation counter, kept for reporting only.
    pub fn inode_count(&self) -> (n: u64)
        ensures
            n == self@.count,
    {
        self.count
    }

    /// Creates the root of an identity's tree: a directory inode with
    /// index 0, no parent and the default mode, plus an empty children
    /// entry keyed by its hash. An identity that already holds a tree has
    /// it silently replaced; the old tree's children entries are left
    /// behind. `create_root_spec` states the exact effect.
    pub fn create_root_dir(
        &mut self,
        did: Vec<u8>,
        hash: Vec<u8>,
        metadata: Vec<u8>,
        now: u64,
    ) -> (r: Result<Event, Error>)
        requires
            old(self).wf(),
        ensures
            final(self).wf(),
            final(self)@ == create_root_spec(old(self)@, did@, hash@, metadata@, now).0,
            result_view(r) == create_root_spec(old(self)@, did@, hash@, metadata@, now).1,
    {
        if did.len() > self.config.max_did_len as usize {
            return Err(Error::DIDLengthOverflow);
        }
        if hash.len() != self.config.hash_len as usize || metadata.len() != self.config.hash_len
            as usize {
            return Err(Error::HashLengthOverflow);
        }
        if self.config.max_inode_count == 0 {
            return Err(Error::InodeCountOverflow);
        }
        let did_ev = clone_bytes(&did);
        let hash_ev = clone_bytes(&hash);
        let hash_key = clone_bytes(&hash);
        let root = Inode {
            hash,
            metadata,
            permission: DEFAULT_MODE,
            is_dir: true,
            parent: None,
            index: 0,
            created: now,
            last_access: now,
        };
        let ghost root_m = root@;
        let mut files: Vec<Inode> = Vec::new();
        files.push(root);
        proof {
            assert(files.deep_view() =~= seq![root_m]);
        }
        self.owners.set(did, files);
        let empty_children: Vec<Vec<u8>> = Vec::new();
        proof {
            assert(empty_children.deep_view() =~= Seq::<Seq<u8>>::empty());
        }
        self.children.set(hash_key, empty_children);
        if self.count < u64::MAX {
            self.count = self.count + 1;
        }
        proof {
            let target = create_root_spec(old(self)@, did@, hash@, metadata@, now).0;
            assert(self@.owners =~= target.owners);
            assert(self@.children =~= target.children);
            assert(self@ =~= target);
        }
        Ok(Event::RootDirCreated { did: did_ev, hash: hash_ev })
    }

    /// Reads the metadata hash of the entry at `index` in the owner's
    /// list, after checking that the entry holds `hash` and that the
    /// caller may read it. A directory also reports the hashes of its
    /// immediate children, in order; any other entry reports none. The
    /// store itself never changes. `fetch_metadata_spec` states the exact
    /// outcome.
    pub fn fetch_metadata(
        &self,
        did: Vec<u8>,
        owner_did: Vec<u8>,
        index: u64,
        hash: Vec<u8>,
    ) -> (r: Result<Event, Error>)
        requires
            self.wf(),
        ensures
            result_view(r) == fetch_metadata_spec(self@, did@, owner_did@, index as int, hash@),
    {
        if did.len() > self.config.max_did_len as usize || owner_did.len() > self.config.max_did_len
            as usize {
            return Err(Error::DIDLengthOverflow);
        }
        if hash.len() != self.config.hash_len as usize {
            return Err(Error::HashLengthOverflow);
        }
        let files = match self.owners.get(&owner_did) {
            None => {
                return Err(Error::InvalidInodeEntry);
            },
            Some(f) => f,
        };
        if index >= files.len() as u64 {
            return Err(Error::InvalidInodeEntry);
        }
        let entry = &files[index as usize];
        proof {
            assert(files.deep_view()[index as int] == files@[index as int]@);
            assert(entry@ == self@.owners[owner_did@][index as int]);
        }
        if !bytes_eq(&entry.hash, &hash) {
            return Err(Error::InvalidInodeEntry);
        }
        if !check_access(&owner_did, &did, entry.permission, Access::Read) {
            return Err(Error::PermissionDenied);
        }
        let contained: Vec<Vec<u8>> = if entry.is_dir {
            match self.children.get(&hash) {
                Some(d) => clone_byte_list(d),
                None => Vec::new(),
            }
        } else {
            Vec::new()
        };
        let meta = clone_bytes(&entry.metadata);
        proof {
            let expected = fetch_metadata_spec(self@, did@, owner_did@, index as int, hash@);
            assert(expected matches Ok(e) && e matches EventModel::FileMetaDataFetched {
                files: fs,
                ..
            } ==> contained.deep_view() =~= fs);
        }
        Ok(Event::FileMetaDataFetched { meta, files: contained })
    }

    /// Appends a new inode under an existing directory, for the given
    /// identity. All checks run before any mutation, so an error leaves
    /// the store exactly as it was; on success the owner's list, the
    /// parent's children list, a directory's own fresh children entry and
    /// the counter all change together. The reported `height` is the
    /// owner's list length before the insertion. `add_inode_spec` states
    /// the exact effect.
    pub fn add_inode(
        &mut self,
        did: Vec<u8>,
        metadata: Vec<u8>,
        hash: Vec<u8>,
        p_dir_hash: Vec<u8>,
        is_dir: bool,
        now: u64,
    ) -> (r: Result<Event, Error>)
        requires
            old(self).wf(),
        ensures
            final(self).wf(),
            final(self)@ == add_inode_spec(
                old(self)@,
                did@,
                metadata@,
                hash@,
                p_dir_hash@,
                is_dir,
                now,
            ).0,
            result_view(r) == add_inode_spec(
                old(self)@,
                did@,
                metadata@,
                hash@,
                p_dir_hash@,
                is_dir,
                now,
            ).1,
    {
        if did.len() > self.config.max_did_len as usize {
            return Err(Error::DIDLengthOverflow);
        }
        if metadata.len() != self.config.hash_len as usize || hash.len() != self.config.hash_len
            as usize || p_dir_hash.len() != self.config.hash_len as usize {
            return Err(Error::HashLengthOverflow);
        }
        let dir_len: usize = match self.children.get(&p_dir_hash) {
            None => {
                return Err(Error::InvalidDirectory);
            },
            Some(d) => d.len(),
        };
        let files_len: usize = match self.owners.get(&did) {
            Some(f) => f.len(),
            None => 0,
        };
        if files_len >= self.config.max_inode_count as usize || dir_len >= self.config
            .max_inode_count as usize {
            return Err(Error::InodeCountOverflow);
        }
        let height: u64 = files_len as u64;
        let did_ev = clone_bytes(&did);
        let hash_ev = clone_bytes(&hash);
        let entry = Inode {
            hash: clone_bytes(&hash),
            metadata,
            permission: DEFAULT_MODE,
            is_dir,
            parent: Some(clone_bytes(&p_dir_hash)),
            index: dir_len as u64,
            created: now,
            last_access: now,
        };
        let ghost entry_m = entry@;
        let ghost s0 = old(self)@;
        let ghost files0 = owner_list(s0, did@);
        let mut files: Vec<Inode> = match self.owners.take(&did) {
            Some(f) => f,
            None => Vec::new(),
        };
        proof {
            assert(files.deep_view() =~= files0);
        }
        let ghost files_before = files;
        files.push(entry);
        proof {
            lemma_deep_push(files_before, files, entry);
        }
        self.owners.set(did, files);
        let mut dir: Vec<Vec<u8>> = match self.children.take(&p_dir_hash) {
            Some(d) => d,
            None => {
                proof {
                    assert(false);
                }
                Vec::new()
            },
        };
        let child = clone_bytes(&hash);
        let ghost dir_before = dir;
        dir.push(child);
        proof {
            assert(child.deep_view() =~= child@);
            lemma_deep_push(dir_before, dir, child);
        }
        self.children.set(p_dir_hash, dir);
        if is_dir {
            let fresh: Vec<Vec<u8>> = Vec::new();
            proof {
                assert(fresh.deep_view() =~= Seq::<Seq<u8>>::empty());
            }
            self.children.set(hash, fresh);
        }
        if self.count < u64::MAX {
            self.count = self.count + 1;
        }
        proof {
            let target = add_inode_spec(s0, did@, metadata@, hash@, p_dir_hash@, is_dir, now).0;
            assert(self@.owners =~= target.owners);
            assert(self@.children =~= target.children);
            assert(self@ =~= target);
        }
        Ok(Event::NewInodeEntryCreated { did: did_ev, file_hash: hash_ev, is_dir, height })
    }

    /// Unlinks the entry at `index` in the owner's list, after the same
    /// index and hash validation as a fetch and a `Write` access check. A
    /// directory must be empty first; its own children entry then goes
    /// too. The hash also leaves the parent's children list, found by
    /// value rather than by the stored position, which goes stale once a
    /// sibling has been removed. All checks run before any mutation.
    /// `unlink_inode_spec` states the exact effect.
    pub fn unlink_inode(
        &mut self,
        did: Vec<u8>,
        owner_did: Vec<u8>,
        index: u64,
        hash: Vec<u8>,
    ) -> (r: Result<Event, Error>)
        requires
            old(self).wf(),
        ensures
            final(self).wf(),
            final(self)@ == unlink_inode_spec(old(self)@, did@, owner_did@, index as int, hash@).0,
            result_view(r) == unlink_inode_spec(
                old(self)@,
                did@,
                owner_did@,
                index as int,
                hash@,
            ).1,
    {
        if did.len() > self.config.max_did_len as usize || owner_did.len() > self.config.max_did_len
            as usize {
            return Err(Error::DIDLengthOverflow);
        }
        if hash.len() != self.config.hash_len as usize {
            return Err(Error::HashLengthOverflow);
        }
        let ghost s0 = self@;
        let files = match self.owners.get(&owner_did) {
            None => {
                return Err(Error::InvalidInodeEntry);
            },
            Some(f) => f,
        };
        if index >= files.len() as u64 {
            return Err(Error::InvalidInodeEntry);
        }
        let entry = &files[index as usize];
        proof {
            assert(files.deep_view()[index as int] == files@[index as int]@);
            assert(entry@ == s0.owners[owner_did@][index as int]);
        }
        if !bytes_eq(&entry.hash, &hash) {
            return Err(Error::InvalidInodeEntry);
        }
        if !check_access(&owner_did, &did, entry.permission, Access::Write) {
            return Err(Error::PermissionDenied);
        }
        let is_dir = entry.is_dir;
        if is_dir {
            match self.children.get(&hash) {
                Some(d) => {
                    if d.len() > 0 {
                        return Err(Error::DirectoryNotEmpty);
                    }
                },
                None => {},
            }
        }
        let parent_hash: Option<Vec<u8>> = match &entry.parent {
            Some(p) => Some(clone_bytes(p)),
            None => None,
        };
        if is_dir {
            self.children.remove_key(&hash);
        }
        let ghost pruned = if is_dir {
            s0.children.remove(hash@)
        } else {
            s0.children
        };
        proof {
            assert(self@.children == pruned);
        }
        if let Some(p) = parent_hash {
            match self.children.take(&p) {
                Some(mut plist) => {
                    match find_first(&plist, &hash) {
                        Some(j) => {
                            proof {
                                let dv = plist.deep_view();
                                assert(dv[j as int] == plist@[j as int]@);
                                assert forall|k: int| 0 <= k < j implies dv[k] != hash@ by {
                                    assert(dv[k] == plist@[k]@);
                                }
                                assert(dv.contains(hash@));
                                dv.index_of_first_ensures(hash@);
                                match dv.index_of_first(hash@) {
                                    Some(i) => {
                                        assert(i == j);
                                    },
                                    None => {
                                        assert(false);
                                    },
                                }
                                assert(dv.remove_value(hash@) == dv.remove(j as int));
                            }
                            let ghost before = plist;
                            plist.remove(j);
                            proof {
                                lemma_deep_remove(before, plist, j as int);
                            }
                        },
                        None => {
                            proof {
                                let dv = plist.deep_view();
                                assert forall|k: int| 0 <= k < dv.len() implies dv[k] != hash@ by {
                                    assert(dv[k] == plist@[k]@);
                                }
                                assert(!dv.contains(hash@));
                                dv.index_of_first_ensures(hash@);
                                assert(dv.remove_value(hash@) == dv);
                            }
                        },
                    }
                    self.children.set(p, plist);
                },
                None => {},
            }
        }
        match self.owners.take(&owner_did) {
            Some(mut f) => {
                let ghost before = f;
                f.remove(index as usize);
                proof {
                    lemma_deep_remove(before, f, index as int);
                }
                self.owners.set(owner_did, f);
            },
            None => {
                proof {
                    assert(false);
                }
            },
        }
        proof {
            let target = unlink_inode_spec(s0, did@, owner_did@, index as int, hash@).0;
            assert(self@.owners =~= target.owners);
            assert(self@.children =~= target.children);
            assert(self@ =~= target);
        }
        Ok(Event::InodeEntryDeleted { hash, is_dir })
    }

    /// Overwrites the mode of the entry at `index` in the owner's list,
    /// after the same index and hash validation as a fetch and a `Write`
    /// access check, and reports the mode it held. Nothing else about the
    /// entry changes. `change_permission_spec` states the exact effect.
    pub fn change_permission(
        &mut self,
        did: Vec<u8>,
        owner_did: Vec<u8>,
        index: u64,
        hash: Vec<u8>,
        mode: u32,
    ) -> (r: Result<Event, Error>)
        requires
            old(self).wf(),
        ensures
            final(self).wf(),
            final(self)@ == change_permission_spec(
                old(self)@,
                did@,
                owner_did@,
                index as int,
                hash@,
                mode,
            ).0,
            result_view(r) == change_permission_spec(
                old(self)@,
                did@,
                owner_did@,
                index as int,
                hash@,
                mode,
            ).1,
    {
        if did.len() > self.config.max_did_len as usize || owner_did.len() > self.config.max_did_len
            as usize {
            return Err(Error::DIDLengthOverflow);
        }
        if hash.len() != self.config.hash_len as usize {
            return Err(Error::HashLengthOverflow);
        }
        let ghost s0 = self@;
        let files = match self.owners.get(&owner_did) {
            None => {
                return Err(Error::InvalidInodeEntry);
            },
            Some(f) => f,
        };
        if index >= files.len() as u64 {
            return Err(Error::InvalidInodeEntry);
        }
        let entry = &files[index as usize];
        proof {
            assert(files.deep_view()[index as int] == files@[index as int]@);
            assert(entry@ == s0.owners[owner_did@][index as int]);
        }
        if !bytes_eq(&entry.hash, &hash) {
            return Err(Error::InvalidInodeEntry);
        }
        if !check_access(&owner_did, &did, entry.permission, Access::Write) {
            return Err(Error::PermissionDenied);
        }
        let old_mode = entry.permission;
        let updated = Inode {
            hash: clone_bytes(&entry.hash),
            metadata: clone_bytes(&entry.metadata),
            permission: mode,
            is_dir: entry.is_dir,
            parent: match &entry.parent {
                Some(p) => Some(clone_bytes(p)),
                None => None,
            },
            index: entry.index,
            created: entry.created,
            last_access: entry.last_access,
        };
        match self.owners.take(&owner_did) {
            Some(mut f) => {
                let ghost before = f;
                f.set(index as usize, updated);
                proof {
                    lemma_deep_update(before, f, index as int, updated);
                }
                self.owners.set(owner_did, f);
            },
            None => {
                proof {
                    assert(false);
                }
            },
        }
        proof {
            let target = change_permission_spec(s0, did@, owner_did@, index as int, hash@, mode).0;
            assert(self@.owners =~= target.owners);
            assert(self@ =~= target);
        }
        Ok(Event::InodePermissionModified { hash, old_mode, mode })
    }
}

} // verus!
