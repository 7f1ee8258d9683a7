use vstd::prelude::*;

verus! {

/// Number of direct block pointers of an inode.
pub const N_DIR_BLOCKS: usize = 10;

/// Slot of the indirect block pointer.
pub const INDIR_BLOCK: usize = N_DIR_BLOCKS;

/// Number of block-pointer slots of an inode.
pub const N_BLOCKS: usize = 11;

/// Length in bytes of an encoded inode record.
pub const INODE_SIZE: usize = 64;

/// Offset of block-pointer slot 0 within an encoded inode record.
pub const BLOCK_POINTERS_OFFSET: usize = 42;

/// Mode tag of a symbolic link.
pub const IFLNK: u16 = 0xA000;

/// Mode tag of a regular file.
pub const IFREG: u16 = 0x8000;

/// Mode tag of a directory.
pub const IFDIR: u16 = 0x4000;

/// The fixed-size metadata record of a file, directory or symbolic link.
#[derive(Clone, Copy, Debug, PartialEq, Eq)]
pub struct Inode {
    /// Type tag: `IFDIR`, `IFREG` or `IFLNK`.
    pub i_mode: u16,
    /// Size of the content in bytes.
    pub i_size: u64,
    /// Last access time, in Unix seconds.
    pub i_atime: u64,
    /// Last status change time, in Unix seconds.
    pub i_ctime: u64,
    /// Last modification time, in Unix seconds.
    pub i_mtime: u64,
    /// Number of links to the inode.
    pub i_links_count: u16,
    /// Number of data blocks owned.
    pub i_blocks: u16,
    /// Flags.
    pub i_flags: u32,
    /// Direct block pointers, then the indirect pointer slot.
    pub i_block: [u16; N_BLOCKS],
}

/// The `n` low-order bytes of `v`, least significant first.
pub open spec fn le_bytes(v: nat, n: nat) -> Seq<u8>
    decreases n,
{
    if n == 0 {
        Seq::empty()
    } else {
        seq![(v % 256) as u8] + le_bytes(v / 256, (n - 1) as nat)
    }
}

/// Block pointers as consecutive little-endian 16-bit words.
pub open spec fn pointer_bytes(p: Seq<u16>) -> Seq<u8> {
    Seq::new(
        2 * p.len(),
        |i: int|
            if i % 2 == 0 {
                (p[i / 2] % 256) as u8
            } else {
                (p[i / 2] / 256) as u8
            },
    )
}

/// The fields of an inode before its block pointers, in on-disk order, each
/// little-endian.
pub open spec fn inode_head_bytes(ino: Inode) -> Seq<u8> {
    le_bytes(ino.i_mode as nat, 2) + le_bytes(ino.i_size as nat, 8) + le_bytes(
        ino.i_atime as nat,
        8,
    ) + le_bytes(ino.i_ctime as nat, 8) + le_bytes(ino.i_mtime as nat, 8) + le_bytes(
        ino.i_links_count as nat,
        2,
    ) + le_bytes(ino.i_blocks as nat, 2) + le_bytes(ino.i_flags as nat, 4)
}

/// The encoded inode record: its fields in declaration order, packed and
/// little-endian.
pub open spec fn inode_bytes(ino: Inode) -> Seq<u8> {
    inode_head_bytes(ino) + pointer_bytes(ino.i_block@)
}

/// The record of the directory inode made at `time` with `flags` and first
/// data block `first_block`.
pub open spec fn dir_record_bytes(time: u64, flags: u32, first_block: u16) -> Seq<u8> {
    le_bytes(IFDIR as nat, 2) + le_bytes(0, 8) + le_bytes(time as nat, 8) + le_bytes(
        time as nat,
        8,
    ) + le_bytes(time as nat, 8) + le_bytes(1, 2) + le_bytes(1, 2) + le_bytes(flags as nat, 4)
        + pointer_bytes(dir_pointers(first_block))
}

/// Block pointers of a new directory: `first_block` in slot 0, zero elsewhere.
pub open spec fn dir_pointers(first_block: u16) -> Seq<u16> {
    Seq::new(N_BLOCKS as nat, |i: int| if i == 0 { first_block } else { 0u16 })
}

/// `ino` is the directory inode made at `time` with `flags` and first data block
/// `first_block`.
pub open spec fn is_dir_inode(ino: Inode, time: u64, flags: u32, first_block: u16) -> bool {
    &&& ino.i_mode == IFDIR
    &&& ino.i_size == 0
    &&& ino.i_atime == time
    &&& ino.i_ctime == time
    &&& ino.i_mtime == time
    &&& ino.i_links_count == 1
    &&& ino.i_blocks == 1
    &&& ino.i_flags == flags
    &&& ino.i_block@ == dir_pointers(first_block)
}

pub proof fn lemma_le_bytes_len(v: nat, n: nat)
    ensures
        le_bytes(v, n).len() == n,
    decreases n,
{
    if n > 0 {
        lemma_le_bytes_len(v / 256, (n - 1) as nat);
    }
}

pub proof fn lemma_inode_bytes_len(ino: Inode)
    ensures
        inode_head_bytes(ino).len() == BLOCK_POINTERS_OFFSET,
        inode_bytes(ino).len() == INODE_SIZE,
        forall|time: u64, flags: u32, first_block: u16|
            #[trigger] is_dir_inode(ino, time, flags, first_block) ==> inode_bytes(ino)
                == dir_record_bytes(time, flags, first_block),
{
    lemma_le_bytes_len(ino.i_mode as nat, 2);
    lemma_le_bytes_len(ino.i_size as nat, 8);
    lemma_le_bytes_len(ino.i_atime as nat, 8);
    lemma_le_bytes_len(ino.i_ctime as nat, 8);
    lemma_le_bytes_len(ino.i_mtime as nat, 8);
    lemma_le_bytes_len(ino.i_links_count as nat, 2);
    lemma_le_bytes_len(ino.i_blocks as nat, 2);
    lemma_le_bytes_len(ino.i_flags as nat, 4);
}

fn push_le(buf: &mut Vec<u8>, v: u64, n: usize)
    ensures
        final(buf)@ == old(buf)@ + le_bytes(v as nat, n as nat),
    decreases n,
{
    let ghost start = buf@;
    if n > 0 {
        buf.push((v % 256) as u8);
        push_le(buf, v / 256, n - 1);
        assert(buf@ =~= start + le_bytes(v as nat, n as nat));
    } else {
        assert(buf@ =~= start + le_bytes(v as nat, n as nat));
    }
}

impl Inode {
    /// Makes the inode of a new directory: mode `IFDIR`, size 0, all three
    /// timestamps `time`, one link, one data block `first_block` in pointer
    /// slot 0, the other slots zero.
    pub fn new_dir(time: u64, flags: u32, first_block: u16) -> (r: Inode)
        ensures
            is_dir_inode(r, time, flags, first_block),
    {
        let mut blocks = [0u16; N_BLOCKS];
        blocks[0] = first_block;
        assert(blocks@ =~= dir_pointers(first_block));
        Inode {
            i_mode: IFDIR,
            i_size: 0,
            i_atime: time,
            i_ctime: time,
            i_mtime: time,
            i_links_count: 1,
            i_blocks: 1,
            i_flags: flags,
            i_block: blocks,
        }
    }

    /// Encodes the inode as its 64-byte on-disk record.
    pub fn to_bytes(&self) -> (r: Vec<u8>)
        ensures
            r@ == inode_bytes(*self),
            r@.len() == INODE_SIZE,
    {
        let mut r: Vec<u8> = Vec::new();
        push_le(&mut r, self.i_mode as u64, 2);
        push_le(&mut r, self.i_size, 8);
        push_le(&mut r, self.i_atime, 8);
        push_le(&mut r, self.i_ctime, 8);
        push_le(&mut r, self.i_mtime, 8);
        push_le(&mut r, self.i_links_count as u64, 2);
        push_le(&mut r, self.i_blocks as u64, 2);
        push_le(&mut r, self.i_flags as u64, 4);
        assert(r@ =~= inode_head_bytes(*self));
        let ghost head = r@;
        let mut i: usize = 0;
        while i < N_BLOCKS
            invariant
                i <= N_BLOCKS,
                self.i_block@.len() == N_BLOCKS,
                r@ == head + pointer_bytes(self.i_block@.subrange(0, i as int)),
            decreases N_BLOCKS - i,
        {
            let p = self.i_block[i];
            r.push((p % 256) as u8);
            r.push((p / 256) as u8);
            assert(r@ =~= head + pointer_bytes(self.i_block@.subrange(0, i + 1)));
            i = i + 1;
        }
        assert(self.i_block@.subrange(0, N_BLOCKS as int) =~= self.i_block@);
        proof {
            lemma_inode_bytes_len(*self);
        }
        r
    }
}

/// Two directory inodes made with the same time and flags have identical
/// records but for the bytes of block-pointer slot 0, and identical records
/// when their first blocks are equal too.
pub proof fn lemma_new_dir_deterministic(
    a: Inode,
    b: Inode,
    time: u64,
    flags: u32,
    block_a: u16,
    block_b: u16,
)
    requires
        is_dir_inode(a, time, flags, block_a),
        is_dir_inode(b, time, flags, block_b),
    ensures
        inode_bytes(a).len() == INODE_SIZE,
        inode_bytes(b).len() == INODE_SIZE,
        forall|i: int|
            0 <= i < INODE_SIZE && !(BLOCK_POINTERS_OFFSET <= i < BLOCK_POINTERS_OFFSET + 2)
                ==> #[trigger] inode_bytes(a)[i] == inode_bytes(b)[i],
        block_a == block_b ==> inode_bytes(a) == inode_bytes(b),
{
    lemma_inode_bytes_len(a);
    lemma_inode_bytes_len(b);
    assert(inode_head_bytes(a) == inode_head_bytes(b));
    if block_a == block_b {
        assert(pointer_bytes(a.i_block@) =~= pointer_bytes(b.i_block@));
    }
}

} // verus!
