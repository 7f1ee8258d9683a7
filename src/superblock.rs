use vstd::prelude::*;
use crate::block::{BLOCK_SIZE, zero_block, zero_bytes};
use crate::error::FsError;

verus! {

/// Signature that every superblock carries.
pub const MAGIC: u16 = 0xEF53;

/// Length in bytes of the encoded superblock record.
pub const SUPERBLOCK_LEN: usize = 16;

/// The geometry and capacity counters of an image, stored in block 0.
#[derive(Clone, Copy, Debug, PartialEq, Eq, Structural)]
pub struct SuperBlk {
    /// Number of inodes in the image.
    pub s_inodes_count: u16,
    /// Number of blocks in the image.
    pub s_blocks_count: u16,
    /// Number of free blocks.
    pub s_free_blocks_count: u16,
    /// Number of unused inodes.
    pub s_free_inodes_count: u16,
    /// Block id of the first data block.
    pub s_first_data_block: u16,
    /// Size of one block in bytes.
    pub s_block_size: u16,
    /// Block id of the last allocated block, plus one.
    pub s_last_allocate: u16,
    /// Signature, `MAGIC` in a valid superblock.
    pub s_magic: u16,
}

/// Field `k` of the superblock, in on-disk order.
pub open spec fn sb_field(sb: SuperBlk, k: int) -> u16 {
    if k == 0 {
        sb.s_inodes_count
    } else if k == 1 {
        sb.s_blocks_count
    } else if k == 2 {
        sb.s_free_blocks_count
    } else if k == 3 {
        sb.s_free_inodes_count
    } else if k == 4 {
        sb.s_first_data_block
    } else if k == 5 {
        sb.s_block_size
    } else if k == 6 {
        sb.s_last_allocate
    } else {
        sb.s_magic
    }
}

/// The block that holds `sb`: its eight fields as little-endian 16-bit words at
/// the start, zero bytes after them.
pub open spec fn superblock_bytes(sb: SuperBlk) -> Seq<u8> {
    Seq::new(
        BLOCK_SIZE as nat,
        |i: int|
            if i < SUPERBLOCK_LEN {
                if i % 2 == 0 {
                    (sb_field(sb, i / 2) % 256) as u8
                } else {
                    (sb_field(sb, i / 2) / 256) as u8
                }
            } else {
                0u8
            },
    )
}

/// The little-endian 16-bit word at word offset `k` of `s`.
pub open spec fn u16_at(s: Seq<u8>, k: int) -> u16 {
    (s[2 * k] + 256 * s[2 * k + 1]) as u16
}

/// The superblock whose fields are read from the start of `s`.
pub open spec fn superblock_of(s: Seq<u8>) -> SuperBlk {
    SuperBlk {
        s_inodes_count: u16_at(s, 0),
        s_blocks_count: u16_at(s, 1),
        s_free_blocks_count: u16_at(s, 2),
        s_free_inodes_count: u16_at(s, 3),
        s_first_data_block: u16_at(s, 4),
        s_block_size: u16_at(s, 5),
        s_last_allocate: u16_at(s, 6),
        s_magic: u16_at(s, 7),
    }
}

/// What decoding `s` gives: the superblock when its magic field is `MAGIC`.
pub open spec fn decoded(s: Seq<u8>) -> Result<SuperBlk, FsError> {
    if u16_at(s, 7) == MAGIC {
        Ok(superblock_of(s))
    } else {
        Err(FsError::CorruptSuperblock)
    }
}

fn put_u16(buf: &mut Vec<u8>, off: usize, v: u16)
    requires
        off + 1 < SUPERBLOCK_LEN,
        old(buf)@.len() >= SUPERBLOCK_LEN,
    ensures
        final(buf)@ == old(buf)@.update(off as int, (v % 256) as u8).update(
            off + 1,
            (v / 256) as u8,
        ),
{
    buf.set(off, (v % 256) as u8);
    buf.set(off + 1, (v / 256) as u8);
}

fn get_u16(buf: &[u8], k: usize) -> (r: u16)
    requires
        k < 8,
        buf@.len() >= SUPERBLOCK_LEN,
    ensures
        r == u16_at(buf@, k as int),
{
    buf[2 * k] as u16 + 256 * (buf[2 * k + 1] as u16)
}

impl SuperBlk {
    /// Encodes the superblock into a block-sized buffer.
    pub fn encode(&self) -> (r: Vec<u8>)
        ensures
            r@ == superblock_bytes(*self),
    {
        let mut r = zero_block();
        put_u16(&mut r, 0, self.s_inodes_count);
        put_u16(&mut r, 2, self.s_blocks_count);
        put_u16(&mut r, 4, self.s_free_blocks_count);
        put_u16(&mut r, 6, self.s_free_inodes_count);
        put_u16(&mut r, 8, self.s_first_data_block);
        put_u16(&mut r, 10, self.s_block_size);
        put_u16(&mut r, 12, self.s_last_allocate);
        put_u16(&mut r, 14, self.s_magic);
        assert(r@ =~= superblock_bytes(*self));
        r
    }

    /// Decodes the superblock at the start of `buf`, rejecting it when its magic
    /// field is not `MAGIC`.
    pub fn decode(buf: &[u8]) -> (r: Result<SuperBlk, FsError>)
        requires
            buf@.len() >= SUPERBLOCK_LEN,
        ensures
            r == decoded(buf@),
            r is Err <==> u16_at(buf@, 7) != MAGIC,
    {
        let magic = get_u16(buf, 7);
        if magic != MAGIC {
            return Err(FsError::CorruptSuperblock);
        }
        Ok(
            SuperBlk {
                s_inodes_count: get_u16(buf, 0),
                s_blocks_count: get_u16(buf, 1),
                s_free_blocks_count: get_u16(buf, 2),
                s_free_inodes_count: get_u16(buf, 3),
                s_first_data_block: get_u16(buf, 4),
                s_block_size: get_u16(buf, 5),
                s_last_allocate: get_u16(buf, 6),
                s_magic: magic,
            },
        )
    }
}

/// Decoding the encoding of a superblock with a valid magic number gives back
/// that superblock; any block whose magic field differs is rejected.
pub proof fn lemma_superblock_round_trip(sb: SuperBlk, other: Seq<u8>)
    requires
        sb.s_magic == MAGIC,
        other.len() >= SUPERBLOCK_LEN,
        u16_at(other, 7) != MAGIC,
    ensures
        decoded(superblock_bytes(sb)) == Ok::<SuperBlk, FsError>(sb),
        decoded(other) == Err::<SuperBlk, FsError>(FsError::CorruptSuperblock),
{
    let s = superblock_bytes(sb);
    assert forall|k: int| 0 <= k < 8 implies #[trigger] u16_at(s, k) == sb_field(sb, k) by {
        let f = sb_field(sb, k);
        assert(s[2 * k] == (f % 256) as u8);
        assert(s[2 * k + 1] == (f / 256) as u8);
    }
    assert(u16_at(s, 0) == sb_field(sb, 0));
    assert(u16_at(s, 1) == sb_field(sb, 1));
    assert(u16_at(s, 2) == sb_field(sb, 2));
    assert(u16_at(s, 3) == sb_field(sb, 3));
    assert(u16_at(s, 4) == sb_field(sb, 4));
    assert(u16_at(s, 5) == sb_field(sb, 5));
    assert(u16_at(s, 6) == sb_field(sb, 6));
    assert(u16_at(s, 7) == sb_field(sb, 7));
}

} // verus!
