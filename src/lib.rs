pub mod bitmap;
pub mod block;
pub mod dirent;
pub mod error;
pub mod ext2;
pub mod inode;
pub mod superblock;

pub use error::FsError;
pub use ext2::Ext2Fs;
pub use inode::Inode;
pub use superblock::SuperBlk;
