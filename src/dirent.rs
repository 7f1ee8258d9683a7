use vstd::prelude::*;

verus! {

/// Longest name that a directory entry holds.
pub const NAME_LEN: usize = 255;

/// One name-to-inode binding stored in a directory's data blocks.
pub struct Dirent {
    /// Inode number the name refers to.
    pub inode: u32,
    /// Length in bytes of the whole entry.
    pub entry_length: u16,
    /// Number of bytes of `name` in use.
    pub name_length: u8,
    /// Type of the file the entry refers to.
    pub file_type: u8,
    /// The name, padded to `NAME_LEN` bytes.
    pub name: [u8; NAME_LEN],
}

} // verus!
