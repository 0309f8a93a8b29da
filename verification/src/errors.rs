use vstd::prelude::*;

verus! {

/// Why an operation on the store was refused.
///
/// Every error is reported synchronously and no operation that reports one
/// leaves any partial mutation behind.
#[derive(Clone, Copy, Debug, PartialEq, Eq, Structural)]
pub enum Error {
    /// The identity string is longer than the configured maximum.
    DIDLengthOverflow,
    /// A content or metadata hash does not have the configured width.
    HashLengthOverflow,
    /// The named parent directory has no children-index entry.
    InvalidDirectory,
    /// The owner's inode list or the parent's children list is full.
    InodeCountOverflow,
    /// The index is out of range, the owner is unknown, or the hash at the
    /// index does not match the one supplied.
    InvalidInodeEntry,
    /// The caller is not the owner and the stored mode does not grant the
    /// required access.
    PermissionDenied,
    /// A directory can only be unlinked once its children list is empty.
    DirectoryNotEmpty,
    /// An internal buffer could not take another element.
    BufferOverflow,
}

} // verus!
