use vstd::prelude::*;

verus! {

/// Size in bytes of one block of the image.
pub const BLOCK_SIZE: usize = 1024;

/// The bytes of block `bid` of an image.
pub open spec fn block_at(img: Seq<u8>, bid: int) -> Seq<u8> {
    img.subrange(bid * BLOCK_SIZE, bid * BLOCK_SIZE + BLOCK_SIZE)
}

/// The image `img` with block `bid` replaced by `buf`.
pub open spec fn with_block(img: Seq<u8>, bid: int, buf: Seq<u8>) -> Seq<u8> {
    Seq::new(
        img.len(),
        |i: int|
            if bid * BLOCK_SIZE <= i < bid * BLOCK_SIZE + BLOCK_SIZE {
                buf[i - bid * BLOCK_SIZE]
            } else {
                img[i]
            },
    )
}

/// A block of zero bytes.
pub open spec fn zero_bytes() -> Seq<u8> {
    Seq::new(BLOCK_SIZE as nat, |i: int| 0u8)
}

/// Returns a block-sized buffer of zero bytes.
pub fn zero_block() -> (r: Vec<u8>)
    ensures
        r@ == zero_bytes(),
{
    let mut r: Vec<u8> = Vec::new();
    let mut i: usize = 0;
    while i < BLOCK_SIZE
        invariant
            i <= BLOCK_SIZE,
            r@.len() == i,
            forall|k: int| 0 <= k < i ==> r@[k] == 0u8,
        decreases BLOCK_SIZE - i,
    {
        r.push(0u8);
        i = i + 1;
    }
    assert(r@ =~= zero_bytes());
    r
}

} // verus!
