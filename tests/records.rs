use ext2fs::inode::{IFDIR, INODE_SIZE, N_BLOCKS};
use ext2fs::superblock::MAGIC;
use ext2fs::{FsError, Inode, SuperBlk};

fn sample_superblock() -> SuperBlk {
    SuperBlk {
        s_inodes_count: 1,
        s_blocks_count: 1024,
        s_free_blocks_count: 960,
        s_free_inodes_count: 1023,
        s_first_data_block: 63,
        s_block_size: 1024,
        s_last_allocate: 64,
        s_magic: MAGIC,
    }
}

#[test]
fn superblock_encoding_layout() {
    let bytes = sample_superblock().encode();
    assert_eq!(bytes.len(), 1024);
    assert_eq!(
        &bytes[..16],
        &[1, 0, 0x00, 0x04, 0xC0, 0x03, 0xFF, 0x03, 63, 0, 0x00, 0x04, 64, 0, 0x53, 0xEF]
    );
    assert!(bytes[16..].iter().all(|&b| b == 0));
}

#[test]
fn superblock_round_trip() {
    let sb = sample_superblock();
    assert_eq!(SuperBlk::decode(&sb.encode()), Ok(sb));
    let odd = SuperBlk {
        s_inodes_count: 0xFFFF,
        s_blocks_count: 0x1234,
        s_free_blocks_count: 0,
        s_free_inodes_count: 0x00FF,
        s_first_data_block: 0xFF00,
        s_block_size: 7,
        s_last_allocate: 0x8001,
        s_magic: MAGIC,
    };
    assert_eq!(SuperBlk::decode(&odd.encode()), Ok(odd));
}

#[test]
fn superblock_decode_rejects_bad_magic() {
    let mut bytes = sample_superblock().encode();
    bytes[14] = 0x54;
    assert_eq!(SuperBlk::decode(&bytes), Err(FsError::CorruptSuperblock));
    assert_eq!(SuperBlk::decode(&[0u8; 1024]), Err(FsError::CorruptSuperblock));
    let mut swapped = sample_superblock().encode();
    swapped[14] = 0xEF;
    swapped[15] = 0x53;
    assert_eq!(SuperBlk::decode(&swapped), Err(FsError::CorruptSuperblock));
}

#[test]
fn new_dir_fields() {
    let ino = Inode::new_dir(1_700_000_000, 5, 63);
    assert_eq!(ino.i_mode, IFDIR);
    assert_eq!(ino.i_size, 0);
    assert_eq!(ino.i_atime, 1_700_000_000);
    assert_eq!(ino.i_ctime, 1_700_000_000);
    assert_eq!(ino.i_mtime, 1_700_000_000);
    assert_eq!(ino.i_links_count, 1);
    assert_eq!(ino.i_blocks, 1);
    assert_eq!(ino.i_flags, 5);
    let mut blocks = [0u16; N_BLOCKS];
    blocks[0] = 63;
    assert_eq!(ino.i_block, blocks);
}

#[test]
fn inode_record_layout() {
    let ino = Inode::new_dir(0x0102_0304_0506_0708, 0xAABB_CCDD, 0x1234);
    let bytes = ino.to_bytes();
    assert_eq!(bytes.len(), INODE_SIZE);
    assert_eq!(&bytes[0..2], &[0x00, 0x40]);
    assert_eq!(&bytes[2..10], &[0; 8]);
    for start in [10usize, 18, 26] {
        assert_eq!(&bytes[start..start + 8], &[8, 7, 6, 5, 4, 3, 2, 1]);
    }
    assert_eq!(&bytes[34..36], &[1, 0]);
    assert_eq!(&bytes[36..38], &[1, 0]);
    assert_eq!(&bytes[38..42], &[0xDD, 0xCC, 0xBB, 0xAA]);
    assert_eq!(&bytes[42..44], &[0x34, 0x12]);
    assert!(bytes[44..].iter().all(|&b| b == 0));
}

#[test]
fn new_dir_is_deterministic() {
    let a = Inode::new_dir(1_000, 0, 63);
    let b = Inode::new_dir(1_000, 0, 63);
    assert_eq!(a.to_bytes(), b.to_bytes());
    let c = Inode::new_dir(1_000, 0, 64);
    let (ab, cb) = (a.to_bytes(), c.to_bytes());
    let changed: Vec<usize> = (0..INODE_SIZE).filter(|&i| ab[i] != cb[i]).collect();
    assert_eq!(changed, vec![42]);
}
