use vstd::prelude::*;
use crate::bitmap::{
    bitmap_bit,
    bitmap_full,
    bit_in_byte,
    lowest_free,
    set_bitmap_bit,
    lemma_all_bits_full,
    lemma_full_byte,
    lemma_set_bit_changes_one,
    lemma_zero_bitmap,
    BITMAP_BITS,
};
use crate::block::{BLOCK_SIZE, block_at, with_block, zero_block, zero_bytes};
use crate::error::FsError;
use crate::inode::{Inode, INODE_SIZE, dir_record_bytes, lemma_inode_bytes_len};
use crate::superblock::{MAGIC, SuperBlk, superblock_bytes};

verus! {

/// Most files an image is meant to hold.
pub const MAX_FILE_COUNT: usize = 1024;

/// Block id of the superblock.
pub const SUPER_BLOCK: usize = 0;

/// Number of superblock blocks.
pub const SUPER_BLOCK_NUM: usize = 1;

/// Block id of the free-block bitmap.
pub const FREE_BITMAP_BLOCK: usize = SUPER_BLOCK + SUPER_BLOCK_NUM;

/// Number of free-block bitmap blocks.
pub const FREE_BITMAP_BLOCK_SZ: usize = 1;

/// Block id of the free-inode bitmap.
pub const INODE_BITMAP_BLOCK: usize = FREE_BITMAP_BLOCK + FREE_BITMAP_BLOCK_SZ;

/// Number of free-inode bitmap blocks.
pub const INODE_BITMAP_BLOCK_NUM: usize = 1;

/// Block id of the first block of the inode table.
pub const INODE_TABLE_BLOCKS: usize = INODE_BITMAP_BLOCK + INODE_BITMAP_BLOCK_NUM;

/// Number of blocks of the inode table.
pub const INODE_TABLE_BLOCKS_SZ: usize = 60;

/// Block id of the first data block.
pub const DATA_BLOCKS: usize = INODE_TABLE_BLOCKS + INODE_TABLE_BLOCKS_SZ;

/// Number of metadata blocks before the data region.
pub const META_BLOCKS_SZ: usize = DATA_BLOCKS;

/// Fewest blocks an image can be formatted with: the metadata blocks and the
/// root directory's first data block.
pub const MIN_BLOCK_COUNT: usize = META_BLOCKS_SZ + 1;

/// Most blocks an image can be formatted with: the largest 16-bit block count.
pub const MAX_BLOCK_COUNT: usize = 0xFFFF;

/// A filesystem image held in memory as a sequence of 1024-byte blocks.
pub struct Ext2Fs {
    image: Vec<u8>,
}

impl View for Ext2Fs {
    type V = Seq<u8>;

    closed spec fn view(&self) -> Seq<u8> {
        self.image@
    }
}

/// Block `bid` lies wholly inside an image of `len` bytes.
pub open spec fn block_in(len: int, bid: int) -> bool {
    0 <= bid && bid * BLOCK_SIZE + BLOCK_SIZE <= len
}

/// `new` is what first-fit allocation on the bitmap in block `bid` of `old`
/// leaves, with result `r`: on `None` the bitmap was full and nothing was
/// written; on `Some(i)`, `i` was the lowest free bit and is now set.
pub open spec fn allocation(old: Seq<u8>, new: Seq<u8>, bid: int, r: Option<usize>) -> bool {
    let bm = block_at(old, bid);
    match r {
        None => bitmap_full(bm) && new == old,
        Some(i) => lowest_free(bm, i as int) && new == with_block(
            old,
            bid,
            set_bitmap_bit(bm, i as int),
        ),
    }
}

/// The superblock written when formatting an image of `n` blocks.
pub open spec fn format_superblock(n: int) -> SuperBlk {
    SuperBlk {
        s_inodes_count: 1,
        s_blocks_count: n as u16,
        s_free_blocks_count: (n - MIN_BLOCK_COUNT) as u16,
        s_free_inodes_count: (MAX_FILE_COUNT - 1) as u16,
        s_first_data_block: META_BLOCKS_SZ as u16,
        s_block_size: BLOCK_SIZE as u16,
        s_last_allocate: (META_BLOCKS_SZ + 1) as u16,
        s_magic: MAGIC,
    }
}

/// A bitmap block whose bit 0 alone is allocated.
pub open spec fn first_bit_bitmap() -> Seq<u8> {
    zero_bytes().update(0, 0x80u8)
}

/// The root directory's data block: its inode record at offset 0, zero bytes
/// after it.
pub open spec fn root_block(time: u64) -> Seq<u8> {
    Seq::new(
        BLOCK_SIZE as nat,
        |i: int|
            if i < INODE_SIZE {
                dir_record_bytes(time, 0, DATA_BLOCKS as u16)[i]
            } else {
                0u8
            },
    )
}

/// The number of whole blocks in an image of `len` bytes.
pub open spec fn block_count(len: int) -> int {
    len / (BLOCK_SIZE as int)
}

/// The image that formatting `img` at `time` leaves: superblock, both bitmaps
/// with bit 0 allocated (root inode 0 and data block `DATA_BLOCKS`), and the
/// root directory's data block; every other byte kept.
pub open spec fn formatted_image(img: Seq<u8>, time: u64) -> Seq<u8> {
    with_block(
        with_block(
            with_block(
                with_block(
                    img,
                    SUPER_BLOCK as int,
                    superblock_bytes(format_superblock(block_count(img.len() as int))),
                ),
                FREE_BITMAP_BLOCK as int,
                first_bit_bitmap(),
            ),
            INODE_BITMAP_BLOCK as int,
            first_bit_bitmap(),
        ),
        DATA_BLOCKS as int,
        root_block(time),
    )
}

impl Ext2Fs {
    /// Wraps a raw image.
    pub fn new(image: Vec<u8>) -> (r: Ext2Fs)
        ensures
            r@ == image@,
    {
        Ext2Fs { image }
    }

    /// The bytes of the image.
    pub fn image(&self) -> (r: &Vec<u8>)
        ensures
            r@ == self@,
    {
        &self.image
    }

    /// Copies block `bid` of the image into `buf`.
    pub fn bread(&self, buf: &mut Vec<u8>, bid: usize)
        requires
            old(buf)@.len() == BLOCK_SIZE,
            block_in(self@.len() as int, bid as int),
        ensures
            final(buf)@ == block_at(self@, bid as int),
    {
        let len = self.image.len();
        assert(bid * BLOCK_SIZE <= len);
        let base = bid * BLOCK_SIZE;
        let mut j: usize = 0;
        while j < BLOCK_SIZE
            invariant
                j <= BLOCK_SIZE,
                base == bid * BLOCK_SIZE,
                base + BLOCK_SIZE <= self.image@.len(),
                buf@.len() == BLOCK_SIZE,
                forall|k: int| 0 <= k < j ==> buf@[k] == self.image@[base + k],
            decreases BLOCK_SIZE - j,
        {
            buf.set(j, self.image[base + j]);
            j = j + 1;
        }
        assert(buf@ =~= block_at(self@, bid as int));
    }

    /// Writes `buf` over block `bid` of the image.
    pub fn bwrite(&mut self, buf: &[u8], bid: usize)
        requires
            buf@.len() == BLOCK_SIZE,
            block_in(old(self)@.len() as int, bid as int),
        ensures
            final(self)@ == with_block(old(self)@, bid as int, buf@),
    {
        let len = self.image.len();
        assert(bid * BLOCK_SIZE <= len);
        let base = bid * BLOCK_SIZE;
        let ghost start = self.image@;
        let mut j: usize = 0;
        while j < BLOCK_SIZE
            invariant
                j <= BLOCK_SIZE,
                base == bid * BLOCK_SIZE,
                base + BLOCK_SIZE <= start.len(),
                buf@.len() == BLOCK_SIZE,
                self.image@.len() == start.len(),
                forall|k: int|
                    0 <= k < start.len() ==> #[trigger] self.image@[k] == if base <= k < base
                        + j {
                        buf@[k - base]
                    } else {
                        start[k]
                    },
            decreases BLOCK_SIZE - j,
        {
            self.image.set(base + j, buf[j]);
            j = j + 1;
        }
        assert(self.image@ =~= with_block(start, bid as int, buf@));
    }

    /// Finds the lowest free bit of the bitmap in block `bitmap_bid`, marks it
    /// allocated and writes the bitmap back. Bits are numbered most significant
    /// first within each byte. Returns the bit's index, or `None`, writing
    /// nothing, when every bit is allocated.
    pub fn first_match(&mut self, bitmap_bid: usize) -> (r: Option<usize>)
        requires
            block_in(old(self)@.len() as int, bitmap_bid as int),
        ensures
            allocation(old(self)@, final(self)@, bitmap_bid as int, r),
    {
        let ghost bm = block_at(self@, bitmap_bid as int);
        let mut buf = zero_block();
        self.bread(&mut buf, bitmap_bid);
        let mut w: usize = 0;
        while w < BLOCK_SIZE && buf[w] == 0xffu8
            invariant
                w <= BLOCK_SIZE,
                buf@ == bm,
                bm.len() == BLOCK_SIZE,
                forall|k: int| 0 <= k < w ==> bm[k] == 0xffu8,
            decreases BLOCK_SIZE - w,
        {
            w = w + 1;
        }
        if w == BLOCK_SIZE {
            assert forall|k: int| 0 <= k < BITMAP_BITS implies #[trigger] bitmap_bit(bm, k) by {
                lemma_full_byte((k % 8) as u8);
            }
            return None;
        }
        let b = buf[w];
        let mut j: u8 = 0;
        while j < 8 && (b >> (7 - j)) & 1u8 == 1u8
            invariant
                j <= 8,
                forall|jj: u8| jj < j ==> #[trigger] bit_in_byte(b, jj),
            decreases 8 - j,
        {
            j = j + 1;
        }
        if j == 8 {
            assert(bit_in_byte(b, 0) && bit_in_byte(b, 1) && bit_in_byte(b, 2) && bit_in_byte(b, 3));
            assert(bit_in_byte(b, 4) && bit_in_byte(b, 5) && bit_in_byte(b, 6) && bit_in_byte(b, 7));
            proof {
                lemma_all_bits_full(b);
            }
        }
        let i = w * 8 + j as usize;
        assert(i / 8 == w && i % 8 == j);
        assert forall|k: int| 0 <= k < i implies #[trigger] bitmap_bit(bm, k) by {
            if k / 8 < w {
                lemma_full_byte((k % 8) as u8);
            } else {
                assert(((k % 8) as u8) < j);
            }
        }
        buf.set(w, b | (0x80u8 >> j));
        assert(buf@ =~= set_bitmap_bit(bm, i as int));
        self.bwrite(&buf, bitmap_bid);
        Some(i)
    }

    /// Allocates the lowest free inode number of the inode bitmap.
    pub fn ialloc(&mut self) -> (r: Option<u16>)
        requires
            block_in(old(self)@.len() as int, INODE_BITMAP_BLOCK as int),
        ensures
            match r {
                Some(n) => allocation(
                    old(self)@,
                    final(self)@,
                    INODE_BITMAP_BLOCK as int,
                    Some(n as usize),
                ),
                None => allocation(old(self)@, final(self)@, INODE_BITMAP_BLOCK as int, None),
            },
    {
        match self.first_match(INODE_BITMAP_BLOCK) {
            Some(i) => Some(i as u16),
            None => None,
        }
    }

    /// Allocates the lowest free bit of the free-block bitmap and returns its
    /// index: the offset of the data block from `DATA_BLOCKS`.
    pub fn balloc(&mut self) -> (r: Option<u16>)
        requires
            block_in(old(self)@.len() as int, FREE_BITMAP_BLOCK as int),
        ensures
            match r {
                Some(n) => allocation(
                    old(self)@,
                    final(self)@,
                    FREE_BITMAP_BLOCK as int,
                    Some(n as usize),
                ),
                None => allocation(old(self)@, final(self)@, FREE_BITMAP_BLOCK as int, None),
            },
    {
        match self.first_match(FREE_BITMAP_BLOCK) {
            Some(i) => Some(i as u16),
            None => None,
        }
    }

    /// Formats the image: superblock in block 0, both bitmaps cleared, then the
    /// root directory's inode and its first data block allocated, and the root
    /// inode's record written at offset `inode number * 64` of that data block,
    /// whose id is `DATA_BLOCKS` plus the allocated offset. Fails before writing
    /// anything when the image's length is not a multiple of `BLOCK_SIZE`, or
    /// when it holds fewer than `MIN_BLOCK_COUNT` or more than `MAX_BLOCK_COUNT`
    /// blocks.
    pub fn format(&mut self, time: u64) -> (r: Result<(), FsError>)
        ensures
            ({
                let n = block_count(old(self)@.len() as int);
                if old(self)@.len() as int % (BLOCK_SIZE as int) == 0 && MIN_BLOCK_COUNT <= n
                    <= MAX_BLOCK_COUNT {
                    r == Ok::<(), FsError>(()) && final(self)@ == formatted_image(old(self)@, time)
                } else {
                    r == Err::<(), FsError>(FsError::FormatError(0)) && final(self)@ == old(self)@
                }
            }),
    {
        let ghost start = self@;
        let image_size = self.image.len();
        let block_count = image_size / BLOCK_SIZE;
        if image_size % BLOCK_SIZE != 0 || block_count < MIN_BLOCK_COUNT || block_count
            > MAX_BLOCK_COUNT {
            return Err(FsError::FormatError(0));
        }
        let super_blk = SuperBlk {
            s_inodes_count: 1,
            s_blocks_count: block_count as u16,
            s_free_blocks_count: (block_count - MIN_BLOCK_COUNT) as u16,
            s_free_inodes_count: (MAX_FILE_COUNT - 1) as u16,
            s_first_data_block: META_BLOCKS_SZ as u16,
            s_block_size: BLOCK_SIZE as u16,
            s_last_allocate: (META_BLOCKS_SZ + 1) as u16,
            s_magic: MAGIC,
        };
        let super_block = super_blk.encode();
        self.bwrite(&super_block, SUPER_BLOCK);
        let free_bitmap = zero_block();
        self.bwrite(&free_bitmap, FREE_BITMAP_BLOCK);
        let inode_bitmap = zero_block();
        self.bwrite(&inode_bitmap, INODE_BITMAP_BLOCK);
        let ghost cleared = self@;
        proof {
            assert(block_at(cleared, INODE_BITMAP_BLOCK as int) =~= zero_bytes());
            lemma_zero_bitmap(block_at(cleared, INODE_BITMAP_BLOCK as int));
        }
        let ino = match self.ialloc() {
            Some(x) => x,
            None => return Err(FsError::FormatError(1)),
        };
        let ghost after_ialloc = self@;
        proof {
            assert(ino == 0);
            assert(block_at(after_ialloc, FREE_BITMAP_BLOCK as int) =~= zero_bytes());
            lemma_zero_bitmap(block_at(after_ialloc, FREE_BITMAP_BLOCK as int));
        }
        let offset = match self.balloc() {
            Some(x) => x,
            None => return Err(FsError::FormatError(2)),
        };
        assert(offset == 0);
        let bid = DATA_BLOCKS as u16 + offset;
        let inode = Inode::new_dir(time, 0u32, bid);
        let record = inode.to_bytes();
        proof {
            lemma_inode_bytes_len(inode);
        }
        let mut inode_block = zero_block();
        let off = ino as usize * INODE_SIZE;
        let mut j: usize = 0;
        while j < INODE_SIZE
            invariant
                j <= INODE_SIZE,
                off == 0,
                record@ == dir_record_bytes(time, 0, DATA_BLOCKS as u16),
                record@.len() == INODE_SIZE,
                inode_block@.len() == BLOCK_SIZE,
                forall|k: int|
                    0 <= k < BLOCK_SIZE ==> #[trigger] inode_block@[k] == if k < j {
                        record@[k]
                    } else {
                        0u8
                    },
            decreases INODE_SIZE - j,
        {
            inode_block.set(off + j, record[j]);
            j = j + 1;
        }
        assert(inode_block@ =~= root_block(time));
        self.bwrite(&inode_block, bid as usize);
        assert(self@ =~= formatted_image(start, time));
        Ok(())
    }
}

/// First-fit allocation on a bitmap of zero bytes returns bit 0, and bit 0 is
/// allocated afterwards.
pub proof fn lemma_fresh_bitmap_gives_zero(old: Seq<u8>, new: Seq<u8>, bid: int, r: Option<usize>)
    requires
        block_in(old.len() as int, bid),
        block_at(old, bid) == zero_bytes(),
        allocation(old, new, bid, r),
    ensures
        r == Some(0usize),
        bitmap_bit(block_at(new, bid), 0),
{
    let bm = block_at(old, bid);
    lemma_zero_bitmap(bm);
    match r {
        None => {
            assert(bitmap_bit(bm, 0));
        },
        Some(i) => {
            if i > 0 {
                assert(bitmap_bit(bm, 0));
            }
            assert(block_at(new, bid) =~= set_bitmap_bit(bm, 0));
            lemma_set_bit_changes_one(bm, 0);
        },
    }
}

/// When the bitmap has a free bit, first-fit allocation returns the lowest
/// free bit, and exactly that bit changes state.
pub proof fn lemma_allocation_takes_lowest(old: Seq<u8>, new: Seq<u8>, bid: int, r: Option<usize>)
    requires
        block_in(old.len() as int, bid),
        !bitmap_full(block_at(old, bid)),
        allocation(old, new, bid, r),
    ensures
        r is Some,
        lowest_free(block_at(old, bid), r->0 as int),
        forall|k: int|
            0 <= k < BITMAP_BITS ==> (#[trigger] bitmap_bit(block_at(new, bid), k) != bitmap_bit(
                block_at(old, bid),
                k,
            )) == (k == r->0),
        forall|i: int|
            0 <= i < old.len() && !(bid * BLOCK_SIZE <= i < bid * BLOCK_SIZE + BLOCK_SIZE)
                ==> #[trigger] new[i] == old[i],
{
    let bm = block_at(old, bid);
    let i = r->0 as int;
    assert(block_at(new, bid) =~= set_bitmap_bit(bm, i));
    lemma_set_bit_changes_one(bm, i);
}

/// First-fit allocation on a full bitmap returns `None` and leaves the image
/// as it was.
pub proof fn lemma_full_bitmap_exhausted(old: Seq<u8>, new: Seq<u8>, bid: int, r: Option<usize>)
    requires
        block_in(old.len() as int, bid),
        bitmap_full(block_at(old, bid)),
        allocation(old, new, bid, r),
    ensures
        r is None,
        new == old,
{
}

} // verus!
