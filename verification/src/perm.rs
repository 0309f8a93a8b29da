use vstd::prelude::*;

use crate::bytes::bytes_eq;

verus! {

/// The mode every new inode starts with: owner full access, everyone else
/// denied.
pub const DEFAULT_MODE: u32 = 700;

/// The access level an operation needs on an inode.
#[derive(Clone, Copy, Debug)]
pub enum Access {
    Read,
    Write,
}

/// The digit of a mode that gates callers other than the owner: the last
/// decimal digit. A mode shorter than three digits is read as zero-padded
/// to three (`7` stands for `007`), which leaves its last digit unchanged.
pub open spec fn last_digit(mode: u32) -> u32 {
    mode % 10
}

/// Whether `caller` may perform `access` on an inode owned by `owner` and
/// stored with `mode`: the owner always may, regardless of the mode;
/// anyone else needs the mode's last digit to be at least 4 to read, and
/// exactly 7 to write.
pub open spec fn can_access(owner: Seq<u8>, caller: Seq<u8>, mode: u32, access: Access) -> bool {
    caller == owner || (match access {
        Access::Read => last_digit(mode) >= 4,
        Access::Write => last_digit(mode) == 7,
    })
}

/// Evaluates `can_access` on concrete values.
pub fn check_access(owner: &Vec<u8>, caller: &Vec<u8>, mode: u32, access: Access) -> (r: bool)
    ensures
        r == can_access(owner@, caller@, mode, access),
{
    if bytes_eq(caller, owner) {
        true
    } else {
        match access {
            Access::Read => mode % 10 >= 4,
            Access::Write => mode % 10 == 7,
        }
    }
}

} // verus!
