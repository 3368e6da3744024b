use vstd::prelude::*;
use crate::bytes_le::{le16, le32, le64, read_u16, read_u32, read_u64};
use crate::error::Error;

verus! {

/// Byte offset of the superblock within the image.
pub const SUPERBLOCK_OFFSET: usize = 1024;

/// Number of superblock bytes that are decoded.
pub const SUPERBLOCK_SIZE: usize = 128;

/// Signature stored in the first word of the superblock.
pub const EROFS_MAGIC: u32 = 0xE0F5E1E2;

/// The decoded image header.
#[derive(Debug, Clone, Copy, PartialEq, Eq, Structural)]
pub struct SuperBlock {
    pub blkszbits: u8,
    pub block_size: u64,
    pub root_nid: u64,
    pub inos: u64,
    pub build_time: u64,
    pub blocks: u32,
    pub meta_blkaddr: u32,
    pub feature_incompat: u32,
}

impl SuperBlock {
    /// The block size is a power of two between 512 and 65536 bytes.
    pub open spec fn wf(&self) -> bool {
        &&& 9 <= self.blkszbits <= 16
        &&& self.block_size == (1u64 << self.blkszbits)
        &&& 512 <= self.block_size <= 65536
    }
}

/// Whether a header region carries the signature and a supported block size.
pub open spec fn superblock_valid(s: Seq<u8>) -> bool {
    &&& s.len() >= SUPERBLOCK_SIZE
    &&& le32(s, 0) == EROFS_MAGIC
    &&& 9 <= s[12] <= 16
}

/// The header that a valid region encodes.
pub open spec fn superblock_of(s: Seq<u8>) -> SuperBlock {
    SuperBlock {
        blkszbits: s[12],
        block_size: (1u64 << s[12]),
        root_nid: le16(s, 14) as u64,
        inos: le64(s, 16) as u64,
        build_time: le64(s, 24) as u64,
        blocks: le32(s, 36) as u32,
        meta_blkaddr: le32(s, 40) as u32,
        feature_incompat: le32(s, 80) as u32,
    }
}

/// Decodes the superblock region (the bytes from `SUPERBLOCK_OFFSET` on).
pub fn decode_superblock(s: &[u8]) -> (r: Result<SuperBlock, Error>)
    ensures
        r is Ok <==> superblock_valid(s@),
        r matches Ok(sb) ==> sb == superblock_of(s@) && sb.wf(),
        r matches Err(e) ==> e == (if s@.len() < SUPERBLOCK_SIZE {
            Error::Truncated
        } else {
            Error::MalformedImage
        }),
{
    if s.len() < SUPERBLOCK_SIZE {
        return Err(Error::Truncated);
    }
    let magic = read_u32(s, 0);
    if magic != EROFS_MAGIC {
        return Err(Error::MalformedImage);
    }
    let bits = s[12];
    if bits < 9 || bits > 16 {
        return Err(Error::MalformedImage);
    }
    let block_size = 1u64 << bits;
    assert(512 <= (1u64 << bits) <= 65536) by (bit_vector)
        requires
            9 <= bits <= 16,
    ;
    Ok(SuperBlock {
        blkszbits: bits,
        block_size,
        root_nid: read_u16(s, 14) as u64,
        inos: read_u64(s, 16),
        build_time: read_u64(s, 24),
        blocks: read_u32(s, 36),
        meta_blkaddr: read_u32(s, 40),
        feature_incompat: read_u32(s, 80),
    })
}

} // verus!
