use vstd::prelude::*;

verus! {

/// The mathematical value of an inode entry, as contracts speak of it.
#[verifier::ext_equal]
pub struct InodeModel {
    pub hash: Seq<u8>,
    pub metadata: Seq<u8>,
    pub permission: u32,
    pub is_dir: bool,
    pub parent: Option<Seq<u8>>,
    pub index: nat,
    pub created: u64,
    pub last_access: u64,
}

/// One file or directory record.
///
/// `hash` identifies the content, `metadata` points at an external metadata
/// blob, and `permission` holds the three-digit mode that gates callers
/// other than the owner. For every entry but a root, `parent` names the
/// directory it was inserted under and `index` the position its hash took
/// in that directory's children list at insertion time.
pub struct Inode {
    pub hash: Vec<u8>,
    pub metadata: Vec<u8>,
    pub permission: u32,
    pub is_dir: bool,
    pub parent: Option<Vec<u8>>,
    pub index: u64,
    pub created: u64,
    pub last_access: u64,
}

impl View for Inode {
    type V = InodeModel;

    open spec fn view(&self) -> InodeModel {
        InodeModel {
            hash: self.hash@,
            metadata: self.metadata@,
            permission: self.permission,
            is_dir: self.is_dir,
            parent: match self.parent {
                Some(p) => Some(p@),
                None => None,
            },
            index: self.index as nat,
            created: self.created,
            last_access: self.last_access,
        }
    }
}

impl DeepView for Inode {
    type V = InodeModel;

    open spec fn deep_view(&self) -> InodeModel {
        self.view()
    }
}

} // verus!
