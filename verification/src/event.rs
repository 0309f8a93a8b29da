use vstd::prelude::*;

use crate::errors::Error;

verus! {

/// The mathematical value of a notification record.
#[verifier::ext_equal]
pub enum EventModel {
    NewInodeEntryCreated { did: Seq<u8>, file_hash: Seq<u8>, is_dir: bool, height: nat },
    RootDirCreated { did: Seq<u8>, hash: Seq<u8> },
    FileMetaDataFetched { meta: Seq<u8>, files: Seq<Seq<u8>> },
    InodeEntryDeleted { hash: Seq<u8>, is_dir: bool },
    InodePermissionModified { hash: Seq<u8>, old_mode: u32, mode: u32 },
    InodeOwnerChanged { hash: Seq<u8>, old_owner: Seq<u8>, owner: Seq<u8> },
}

/// The notification record a successful operation hands back for external
/// consumers: the operation kind, the identity and hash concerned, and the
/// operation-specific payload.
pub enum Event {
    /// A new inode entry was appended under an existing directory.
    NewInodeEntryCreated { did: Vec<u8>, file_hash: Vec<u8>, is_dir: bool, height: u64 },
    /// A root directory was created for an identity.
    RootDirCreated { did: Vec<u8>, hash: Vec<u8> },
    /// Metadata was fetched; `files` lists the immediate children when the
    /// entry is a directory, and is empty otherwise.
    FileMetaDataFetched { meta: Vec<u8>, files: Vec<Vec<u8>> },
    /// An inode entry was unlinked.
    InodeEntryDeleted { hash: Vec<u8>, is_dir: bool },
    /// An inode's mode was overwritten; `old_mode` is the value it held.
    InodePermissionModified { hash: Vec<u8>, old_mode: u32, mode: u32 },
    /// An inode's ownership was transferred.
    InodeOwnerChanged { hash: Vec<u8>, old_owner: Vec<u8>, owner: Vec<u8> },
}

impl View for Event {
    type V = EventModel;

    open spec fn view(&self) -> EventModel {
        match self {
            Event::NewInodeEntryCreated { did, file_hash, is_dir, height } => {
                EventModel::NewInodeEntryCreated {
                    did: did@,
                    file_hash: file_hash@,
                    is_dir: *is_dir,
                    height: *height as nat,
                }
            },
            Event::RootDirCreated { did, hash } => {
                EventModel::RootDirCreated { did: did@, hash: hash@ }
            },
            Event::FileMetaDataFetched { meta, files } => {
                EventModel::FileMetaDataFetched { meta: meta@, files: files.deep_view() }
            },
            Event::InodeEntryDeleted { hash, is_dir } => {
                EventModel::InodeEntryDeleted { hash: hash@, is_dir: *is_dir }
            },
            Event::InodePermissionModified { hash, old_mode, mode } => {
                EventModel::InodePermissionModified {
                    hash: hash@,
                    old_mode: *old_mode,
                    mode: *mode,
                }
            },
            Event::InodeOwnerChanged { hash, old_owner, owner } => {
                EventModel::InodeOwnerChanged {
                    hash: hash@,
                    old_owner: old_owner@,
                    owner: owner@,
                }
            },
        }
    }
}

/// The outcome of an operation, lifted to model values.
pub open spec fn result_view(r: Result<Event, Error>) -> Result<EventModel, Error> {
    match r {
        Ok(e) => Ok(e@),
        Err(x) => Err(x),
    }
}

} // verus!
