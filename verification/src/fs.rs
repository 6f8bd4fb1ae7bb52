//! Mounting an image as a filesystem.

use vstd::prelude::*;

use crate::disk::Disk;
use crate::error::Ext2Error;
use crate::ext2::Ext2Filesystem;
use crate::group::spec_gdt_offset;
use crate::superblock::{spec_sb_valid, spec_superblock};

verus! {

/// Mounts a filesystem image, validating its superblock and loading its
/// group table.  A bad magic or out-of-bounds geometry is
/// `InvalidFilesystem`; an image too short for either structure is
/// `UnexpectedEof`; the mount succeeds on every image whose superblock is
/// valid and whose group-descriptor table lies within it.
pub fn mount(image: Vec<u8>) -> (r: Result<Ext2Filesystem, Ext2Error>)
    ensures
        r matches Ok(fs) ==> fs.wf() && fs.disk@ == image@,
        image@.len() >= 2048 && !spec_sb_valid(image@) ==> r == Err::<Ext2Filesystem, Ext2Error>(
            Ext2Error::InvalidFilesystem,
        ),
        image@.len() < 2048 ==> r == Err::<Ext2Filesystem, Ext2Error>(Ext2Error::UnexpectedEof),
        spec_sb_valid(image@) ==> (r is Ok <==> spec_gdt_offset(
            spec_superblock(image@).spec_block_size(),
        ) + 32 * spec_superblock(image@).spec_groups_count() <= image@.len()),
        spec_sb_valid(image@) && r is Err ==> r == Err::<Ext2Filesystem, Ext2Error>(
            Ext2Error::UnexpectedEof,
        ),
{
    Ext2Filesystem::mount(Disk::new(image))
}

} // verus!
