use vstd::prelude::*;

verus! {

/// Number of bits held by one bitmap block of 1024 bytes.
pub const BITMAP_BITS: usize = 8192;

/// Bit `j` (0 to 7) of a byte, counted from the most significant bit.
pub open spec fn bit_in_byte(b: u8, j: u8) -> bool {
    (b >> ((7 - j) as u8)) & 1u8 == 1u8
}

/// The byte `b` with its bit `j` (counted from the most significant bit) set.
pub open spec fn with_bit(b: u8, j: u8) -> u8 {
    b | (0x80u8 >> j)
}

/// Bit `k` of a bitmap: bit `k % 8` of byte `k / 8`, most significant bit first,
/// so that bit `k` is bit `k % 64`, counted from the most significant end, of
/// the 64-bit word `k / 64` read big-endian. Words are read big-endian, not in
/// the host's byte order, so that bit 0 is the first bit of the block on every
/// machine and the bits run in one order through bytes and words alike.
/// `true` means allocated, `false` free.
pub open spec fn bitmap_bit(bm: Seq<u8>, k: int) -> bool {
    bit_in_byte(bm[k / 8], (k % 8) as u8)
}

/// The bitmap `bm` with bit `i` set.
pub open spec fn set_bitmap_bit(bm: Seq<u8>, i: int) -> Seq<u8> {
    bm.update(i / 8, with_bit(bm[i / 8], (i % 8) as u8))
}

/// Every bit of the bitmap is allocated.
pub open spec fn bitmap_full(bm: Seq<u8>) -> bool {
    forall|k: int| 0 <= k < BITMAP_BITS ==> #[trigger] bitmap_bit(bm, k)
}

/// `i` is the lowest free bit of the bitmap.
pub open spec fn lowest_free(bm: Seq<u8>, i: int) -> bool {
    &&& 0 <= i < BITMAP_BITS
    &&& !bitmap_bit(bm, i)
    &&& forall|k: int| 0 <= k < i ==> #[trigger] bitmap_bit(bm, k)
}

pub proof fn lemma_with_bit(b: u8, j: u8, jj: u8)
    requires
        j < 8,
        jj < 8,
    ensures
        bit_in_byte(with_bit(b, j), jj) == (jj == j || bit_in_byte(b, jj)),
{
    assert(bit_in_byte(with_bit(b, j), jj) == (jj == j || bit_in_byte(b, jj))) by (bit_vector)
        requires
            j < 8,
            jj < 8,
    ;
}

pub proof fn lemma_full_byte(j: u8)
    requires
        j < 8,
    ensures
        bit_in_byte(0xffu8, j),
{
    assert(bit_in_byte(0xffu8, j)) by (bit_vector)
        requires
            j < 8,
    ;
}

pub proof fn lemma_zero_byte(j: u8)
    requires
        j < 8,
    ensures
        !bit_in_byte(0u8, j),
{
    assert(!bit_in_byte(0u8, j)) by (bit_vector)
        requires
            j < 8,
    ;
}

pub proof fn lemma_all_bits_full(b: u8)
    requires
        bit_in_byte(b, 0),
        bit_in_byte(b, 1),
        bit_in_byte(b, 2),
        bit_in_byte(b, 3),
        bit_in_byte(b, 4),
        bit_in_byte(b, 5),
        bit_in_byte(b, 6),
        bit_in_byte(b, 7),
    ensures
        b == 0xffu8,
{
    assert(b == 0xffu8) by (bit_vector)
        requires
            bit_in_byte(b, 0),
            bit_in_byte(b, 1),
            bit_in_byte(b, 2),
            bit_in_byte(b, 3),
            bit_in_byte(b, 4),
            bit_in_byte(b, 5),
            bit_in_byte(b, 6),
            bit_in_byte(b, 7),
    ;
}

/// Setting bit `i` of a bitmap changes that bit alone: afterwards bit `i` is
/// allocated and every other bit keeps its state.
pub proof fn lemma_set_bit_changes_one(bm: Seq<u8>, i: int)
    requires
        bm.len() == 1024,
        0 <= i < BITMAP_BITS,
    ensures
        set_bitmap_bit(bm, i).len() == 1024,
        forall|k: int|
            0 <= k < BITMAP_BITS ==> #[trigger] bitmap_bit(set_bitmap_bit(bm, i), k) == (k == i
                || bitmap_bit(bm, k)),
{
    assert forall|k: int| 0 <= k < BITMAP_BITS implies #[trigger] bitmap_bit(
        set_bitmap_bit(bm, i),
        k,
    ) == (k == i || bitmap_bit(bm, k)) by {
        if k / 8 == i / 8 {
            lemma_with_bit(bm[i / 8], (i % 8) as u8, (k % 8) as u8);
        }
    }
}

/// A bitmap of zero bytes has bit 0 as its lowest free bit, and setting it
/// gives a bitmap whose first byte is `0x80`.
pub proof fn lemma_zero_bitmap(bm: Seq<u8>)
    requires
        bm.len() == 1024,
        forall|k: int| 0 <= k < 1024 ==> bm[k] == 0u8,
    ensures
        lowest_free(bm, 0),
        set_bitmap_bit(bm, 0) == bm.update(0, 0x80u8),
{
    lemma_zero_byte(0);
    assert(with_bit(0u8, 0u8) == 0x80u8) by (bit_vector);
}

} // verus!
