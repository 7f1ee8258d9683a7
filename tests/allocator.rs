use ext2fs::ext2::{FREE_BITMAP_BLOCK, INODE_BITMAP_BLOCK};
use ext2fs::Ext2Fs;

const BLOCK: usize = 1024;

fn image_with_bitmap(bitmap: &[u8]) -> Ext2Fs {
    let mut image = vec![0u8; 3 * BLOCK];
    image[2 * BLOCK..2 * BLOCK + bitmap.len()].copy_from_slice(bitmap);
    Ext2Fs::new(image)
}

#[test]
fn fresh_bitmap_allocates_bit_zero() {
    let mut fs = Ext2Fs::new(vec![0u8; 3 * BLOCK]);
    assert_eq!(fs.first_match(2), Some(0));
    assert_eq!(fs.image()[2 * BLOCK], 0x80);
    assert!(fs.image()[2 * BLOCK + 1..3 * BLOCK].iter().all(|&b| b == 0));
    assert!(fs.image()[..2 * BLOCK].iter().all(|&b| b == 0));
}

#[test]
fn second_allocation_takes_next_bit() {
    let mut fs = Ext2Fs::new(vec![0u8; 3 * BLOCK]);
    assert_eq!(fs.first_match(2), Some(0));
    assert_eq!(fs.first_match(2), Some(1));
    assert_eq!(fs.first_match(2), Some(2));
    assert_eq!(fs.image()[2 * BLOCK], 0xE0);
}

#[test]
fn lowest_free_bit_most_significant_first() {
    let mut fs = image_with_bitmap(&[0xFF, 0xFF, 0b1110_1011]);
    let before = fs.image().clone();
    assert_eq!(fs.first_match(2), Some(19));
    let after = fs.image().clone();
    assert_eq!(after[2 * BLOCK + 2], 0b1111_1011);
    let changed: Vec<usize> = (0..after.len()).filter(|&i| after[i] != before[i]).collect();
    assert_eq!(changed, vec![2 * BLOCK + 2]);
    assert_eq!((after[2 * BLOCK + 2] ^ before[2 * BLOCK + 2]).count_ones(), 1);
}

#[test]
fn free_bit_in_second_word() {
    let mut fs = image_with_bitmap(&[0xFF; 8]);
    assert_eq!(fs.first_match(2), Some(64));
    assert_eq!(fs.image()[2 * BLOCK + 8], 0x80);
}

#[test]
fn last_bit_of_bitmap() {
    let mut bitmap = vec![0xFFu8; BLOCK];
    bitmap[BLOCK - 1] = 0xFE;
    let mut fs = image_with_bitmap(&bitmap);
    assert_eq!(fs.first_match(2), Some(8191));
    assert_eq!(fs.image()[3 * BLOCK - 1], 0xFF);
    assert_eq!(fs.first_match(2), None);
}

#[test]
fn full_bitmap_is_exhausted_without_write() {
    let mut fs = image_with_bitmap(&[0xFF; BLOCK]);
    let before = fs.image().clone();
    assert_eq!(fs.first_match(2), None);
    assert_eq!(fs.image(), &before);
}

#[test]
fn ialloc_scans_inode_bitmap() {
    let mut image = vec![0u8; 3 * BLOCK];
    image[INODE_BITMAP_BLOCK * BLOCK] = 0xC0;
    let mut fs = Ext2Fs::new(image);
    assert_eq!(fs.ialloc(), Some(2));
    assert_eq!(fs.image()[INODE_BITMAP_BLOCK * BLOCK], 0xE0);
    assert_eq!(fs.image()[FREE_BITMAP_BLOCK * BLOCK], 0);
}

#[test]
fn balloc_scans_free_block_bitmap() {
    let mut fs = Ext2Fs::new(vec![0u8; 3 * BLOCK]);
    assert_eq!(fs.balloc(), Some(0));
    assert_eq!(fs.balloc(), Some(1));
    assert_eq!(fs.image()[FREE_BITMAP_BLOCK * BLOCK], 0xC0);
    assert_eq!(fs.image()[INODE_BITMAP_BLOCK * BLOCK], 0);
}

#[test]
fn alloc_exhausted_on_full_bitmaps() {
    let mut fs = Ext2Fs::new(vec![0xFFu8; 3 * BLOCK]);
    assert_eq!(fs.ialloc(), None);
    assert_eq!(fs.balloc(), None);
    assert!(fs.image().iter().all(|&b| b == 0xFF));
}

#[test]
fn block_read_and_write() {
    let mut fs = Ext2Fs::new(vec![0u8; 4 * BLOCK]);
    let data: Vec<u8> = (0..BLOCK).map(|i| (i % 251) as u8).collect();
    fs.bwrite(&data, 2);
    let mut buf = vec![0u8; BLOCK];
    fs.bread(&mut buf, 2);
    assert_eq!(buf, data);
    fs.bread(&mut buf, 3);
    assert!(buf.iter().all(|&b| b == 0));
    assert!(fs.image()[..2 * BLOCK].iter().all(|&b| b == 0));
}

#[test]
fn balloc_last_free_bit() {
    let mut image = vec![0u8; 3 * BLOCK];
    for b in &mut image[FREE_BITMAP_BLOCK * BLOCK..(FREE_BITMAP_BLOCK + 1) * BLOCK] {
        *b = 0xFF;
    }
    image[(FREE_BITMAP_BLOCK + 1) * BLOCK - 1] = 0xFE;
    let mut fs = Ext2Fs::new(image);
    assert_eq!(fs.balloc(), Some(8191));
    assert_eq!(fs.balloc(), None);
}
