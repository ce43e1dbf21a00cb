//! How much room is left where her films go, and how big that disk is, from the counts the
//! operating system reports for the filesystem.

use vstd::prelude::*;

verus! {

/// Room on a disk, in bytes.
#[derive(Clone, Copy, Debug)]
pub struct Space {
    /// Bytes available to this user, which is not the same as bytes unused: filesystems keep a
    /// margin.
    pub free: u64,
    pub total: u64,
}

/// The room a filesystem reports as blocks: the blocks available to this user and the blocks
/// in all, each `block_size` bytes long.
pub fn space(available_blocks: u64, all_blocks: u64, block_size: u64) -> (r: Space)
    requires
        available_blocks * block_size <= u64::MAX,
        all_blocks * block_size <= u64::MAX,
    ensures
        r.free == available_blocks * block_size,
        r.total == all_blocks * block_size,
        available_blocks <= all_blocks ==> r.free <= r.total,
{
    proof {
        if available_blocks <= all_blocks {
            assert(available_blocks * block_size <= all_blocks * block_size) by (nonlinear_arith)
                requires
                    available_blocks <= all_blocks,
            ;
        }
    }
    Space { free: available_blocks * block_size, total: all_blocks * block_size }
}

} // verus!
