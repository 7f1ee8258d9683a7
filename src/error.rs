use vstd::prelude::*;

verus! {

/// Why an operation on the image failed.
#[derive(Clone, Copy, Debug, PartialEq, Eq, Structural)]
pub enum FsError {
    /// Formatting failed; the code tells the failing step: `0` an image whose
    /// block count is outside the supported range, `1` no free inode, `2` no
    /// free data block.
    FormatError(usize),
    /// A superblock whose magic number is not `0xEF53`.
    CorruptSuperblock,
}

} // verus!
