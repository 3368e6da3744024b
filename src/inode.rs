use vstd::prelude::*;
use crate::bytes_le::{le16, le32, le64, read_u16, read_u32, read_u64};
use crate::error::Error;
use crate::superblock::SuperBlock;

verus! {

/// Size of one inode slot; a node id counts slots from the metadata base.
pub const INODE_SLOT_SIZE: u64 = 32;

/// On-disk size of a compact inode.
pub const COMPACT_INODE_SIZE: u64 = 32;

/// On-disk size of an extended inode.
pub const EXTENDED_INODE_SIZE: u64 = 64;

/// How the bytes of a file are placed in the image.
#[derive(Debug, Clone, Copy, PartialEq, Eq, Structural)]
pub enum Layout {
    /// Contiguous blocks from a start block.
    Plain,
    /// Contiguous blocks, with the last partial block packed after the inode.
    Inline,
    /// Fixed-size chunks mapped through an index array after the inode.
    Chunked,
}

/// The kind of node an inode's mode describes.
#[derive(Debug, Clone, Copy, PartialEq, Eq, Structural)]
pub enum NodeKind {
    Regular,
    Directory,
    Symlink,
    Other,
}

/// A decoded inode, uniform over the compact and extended encodings.
#[derive(Debug, Clone, Copy, PartialEq, Eq, Structural)]
pub struct Inode {
    pub nid: u64,
    /// Byte position of the on-disk record in the image.
    pub pos: u64,
    pub extended: bool,
    pub layout: Layout,
    pub xattr_icount: u16,
    pub mode: u16,
    pub nlink: u32,
    pub uid: u32,
    pub gid: u32,
    pub mtime: u64,
    pub mtime_nsec: u32,
    pub size: u64,
    /// Start block (plain and inline) or chunk format word (chunked).
    pub raw_u: u32,
}

/// The layout that a format word's layout field names, if supported.
pub open spec fn layout_of_format(fmt: int) -> Option<Layout> {
    let tag = (fmt / 2) % 8;
    if tag == 0 {
        Some(Layout::Plain)
    } else if tag == 2 {
        Some(Layout::Inline)
    } else if tag == 4 {
        Some(Layout::Chunked)
    } else {
        None
    }
}

/// Size of the record encoded by a format word.
pub open spec fn record_size(fmt: int) -> int {
    if fmt % 2 == 1 {
        EXTENDED_INODE_SIZE as int
    } else {
        COMPACT_INODE_SIZE as int
    }
}

/// The inode that the record `h`, at position `pos`, encodes.
pub open spec fn inode_of(sb: SuperBlock, nid: u64, pos: u64, h: Seq<u8>) -> Inode {
    let fmt = le16(h, 0);
    let layout = layout_of_format(fmt).unwrap();
    if fmt % 2 == 1 {
        Inode {
            nid,
            pos,
            extended: true,
            layout,
            xattr_icount: le16(h, 2) as u16,
            mode: le16(h, 4) as u16,
            nlink: le32(h, 44) as u32,
            uid: le32(h, 24) as u32,
            gid: le32(h, 28) as u32,
            mtime: le64(h, 32) as u64,
            mtime_nsec: le32(h, 40) as u32,
            size: le64(h, 8) as u64,
            raw_u: le32(h, 16) as u32,
        }
    } else {
        Inode {
            nid,
            pos,
            extended: false,
            layout,
            xattr_icount: le16(h, 2) as u16,
            mode: le16(h, 4) as u16,
            nlink: le16(h, 6) as u32,
            uid: le16(h, 24) as u32,
            gid: le16(h, 26) as u32,
            mtime: sb.build_time,
            mtime_nsec: 0,
            size: le32(h, 8) as u64,
            raw_u: le32(h, 16) as u32,
        }
    }
}

/// The outcome of decoding the record `h` found at `pos`.
pub open spec fn decode_record(sb: SuperBlock, nid: u64, pos: u64, h: Seq<u8>) -> Result<
    Inode,
    Error,
> {
    if h.len() < 2 || h.len() < record_size(le16(h, 0)) {
        Err(Error::Truncated)
    } else if layout_of_format(le16(h, 0)) is None {
        Err(Error::UnsupportedLayout)
    } else {
        Ok(inode_of(sb, nid, pos, h))
    }
}

/// Decodes an on-disk inode record, compact or extended.
pub fn decode_inode(sb: &SuperBlock, nid: u64, pos: u64, h: &[u8]) -> (r: Result<Inode, Error>)
    ensures
        r == decode_record(*sb, nid, pos, h@),
{
    if h.len() < 2 {
        return Err(Error::Truncated);
    }
    let fmt = read_u16(h, 0);
    let extended = fmt % 2 == 1;
    let need: usize = if extended {
        64
    } else {
        32
    };
    if h.len() < need {
        return Err(Error::Truncated);
    }
    let tag = (fmt / 2) % 8;
    let layout = if tag == 0 {
        Layout::Plain
    } else if tag == 2 {
        Layout::Inline
    } else if tag == 4 {
        Layout::Chunked
    } else {
        return Err(Error::UnsupportedLayout);
    };
    if extended {
        Ok(Inode {
            nid,
            pos,
            extended: true,
            layout,
            xattr_icount: read_u16(h, 2),
            mode: read_u16(h, 4),
            nlink: read_u32(h, 44),
            uid: read_u32(h, 24),
            gid: read_u32(h, 28),
            mtime: read_u64(h, 32),
            mtime_nsec: read_u32(h, 40),
            size: read_u64(h, 8),
            raw_u: read_u32(h, 16),
        })
    } else {
        Ok(Inode {
            nid,
            pos,
            extended: false,
            layout,
            xattr_icount: read_u16(h, 2),
            mode: read_u16(h, 4),
            nlink: read_u16(h, 6) as u32,
            uid: read_u16(h, 24) as u32,
            gid: read_u16(h, 26) as u32,
            mtime: sb.build_time,
            mtime_nsec: 0,
            size: read_u32(h, 8) as u64,
            raw_u: read_u32(h, 16),
        })
    }
}

/// The kind of node that a mode word describes.
pub open spec fn kind_of_mode(mode: int) -> NodeKind {
    let t = (mode / 4096) % 16;
    if t == 8 {
        NodeKind::Regular
    } else if t == 4 {
        NodeKind::Directory
    } else if t == 10 {
        NodeKind::Symlink
    } else {
        NodeKind::Other
    }
}

/// Size of the in-inode extended attribute area for an attribute count.
pub open spec fn xattr_area_size(icount: int) -> int {
    if icount == 0 {
        0
    } else {
        12 + (icount - 1) * 4
    }
}

impl Inode {
    /// Position of the first byte after the record and its attribute area.
    pub open spec fn spec_meta_end(&self) -> int {
        self.pos + (if self.extended {
            EXTENDED_INODE_SIZE as int
        } else {
            COMPACT_INODE_SIZE as int
        }) + xattr_area_size(self.xattr_icount as int)
    }

    pub fn kind(&self) -> (r: NodeKind)
        ensures
            r == kind_of_mode(self.mode as int),
    {
        let t = (self.mode / 4096) % 16;
        if t == 8 {
            NodeKind::Regular
        } else if t == 4 {
            NodeKind::Directory
        } else if t == 10 {
            NodeKind::Symlink
        } else {
            NodeKind::Other
        }
    }

    pub fn is_dir(&self) -> (r: bool)
        ensures
            r <==> kind_of_mode(self.mode as int) == NodeKind::Directory,
    {
        (self.mode / 4096) % 16 == 4
    }

    /// Logical length of the file's data in bytes.
    pub fn data_size(&self) -> (r: u64)
        ensures
            r == self.size,
    {
        self.size
    }

    /// Permission bits of the mode.
    pub fn permissions(&self) -> (r: u16)
        ensures
            r as int == self.mode as int % 4096,
    {
        self.mode % 4096
    }

    /// Position of the first byte after the record and its attribute area,
    /// or `None` where it does not fit in 64 bits.
    pub fn meta_end(&self) -> (r: Option<u64>)
        ensures
            r is Some <==> self.spec_meta_end() <= u64::MAX,
            r matches Some(e) ==> e as int == self.spec_meta_end(),
    {
        let rec: u64 = if self.extended {
            EXTENDED_INODE_SIZE
        } else {
            COMPACT_INODE_SIZE
        };
        let xattr: u64 = if self.xattr_icount == 0 {
            0
        } else {
            12 + (self.xattr_icount as u64 - 1) * 4
        };
        if self.pos > u64::MAX - rec - xattr {
            None
        } else {
            Some(self.pos + rec + xattr)
        }
    }
}

} // verus!
