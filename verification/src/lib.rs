//! A capacity-bounded, permission-checked hierarchical object store.
//!
//! Each identity (an opaque, length-bounded byte string) owns a tree of
//! inode entries (files and directories) addressed by content hash. Every
//! operation validates its inputs, consults a small permission engine when
//! the caller is not the owning identity, and either applies its whole
//! effect or reports an error while leaving the store untouched.

pub mod bytes;
pub mod errors;
pub mod event;
pub mod inode;
pub mod keyed_list;
pub mod laws;
pub mod model;
pub mod perm;
pub mod store;
pub mod views;
