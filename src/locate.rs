use vstd::prelude::*;
use vstd::arithmetic::div_mod::{lemma_fundamental_div_mod, lemma_fundamental_div_mod_converse};
use crate::bytes_le::le32;
use crate::error::Error;
use crate::image::{read_u32_at, Image};
use crate::inode::{Inode, Layout};
use crate::superblock::SuperBlock;

verus! {

/// Chunk index value marking a chunk with no backing block.
pub const NULL_ADDR: u32 = 0xFFFF_FFFF;

/// Where a run of logical file bytes comes from.
#[derive(Debug, Clone, Copy, PartialEq, Eq, Structural)]
pub enum Extent {
    /// `len` bytes at image position `pos`, in a data block.
    Mapped { pos: u64, len: u64 },
    /// `len` bytes at image position `pos`, packed after the inode record.
    Inline { pos: u64, len: u64 },
    /// `len` zero bytes of an unmapped chunk.
    Hole { len: u64 },
}

impl Extent {
    pub open spec fn spec_len(&self) -> u64 {
        match *self {
            Extent::Mapped { len, .. } => len,
            Extent::Inline { len, .. } => len,
            Extent::Hole { len } => len,
        }
    }

    /// Source of the extent's `i`-th byte: an image position, or `None` for zero.
    pub open spec fn source(&self, i: int) -> Option<int> {
        match *self {
            Extent::Mapped { pos, .. } => Some(pos + i),
            Extent::Inline { pos, .. } => Some(pos + i),
            Extent::Hole { .. } => None,
        }
    }

    pub fn len(&self) -> (r: u64)
        ensures
            r == self.spec_len(),
    {
        match *self {
            Extent::Mapped { len, .. } => len,
            Extent::Inline { len, .. } => len,
            Extent::Hole { len } => len,
        }
    }
}

pub open spec fn min_int(a: int, b: int) -> int {
    if a < b {
        a
    } else {
        b
    }
}

/// log2 of the chunk size of a chunked inode.
pub open spec fn chunk_bits(sb: SuperBlock, ino: Inode) -> u64 {
    (sb.blkszbits + ino.raw_u % 32) as u64
}

pub open spec fn chunk_size(sb: SuperBlock, ino: Inode) -> int {
    (1u64 << chunk_bits(sb, ino)) as int
}

/// Width of one chunk index entry: 8 bytes in the full form, else 4.
pub open spec fn index_entry_size(ino: Inode) -> int {
    if (ino.raw_u / 32) % 2 == 1 {
        8
    } else {
        4
    }
}

/// Image position of the chunk index array.
pub open spec fn index_base(ino: Inode) -> int {
    if index_entry_size(ino) == 8 {
        (ino.spec_meta_end() + 7) / 8 * 8
    } else {
        ino.spec_meta_end()
    }
}

/// Image position of the index entry of chunk `c`.
pub open spec fn index_entry_pos(ino: Inode, c: int) -> int {
    index_base(ino) + c * index_entry_size(ino)
}

/// Block address that the index entry of chunk `c` holds.
pub open spec fn chunk_addr(ino: Inode, img: Seq<u8>, c: int) -> int {
    let e = index_entry_pos(ino, c);
    if index_entry_size(ino) == 8 {
        le32(img, e + 4)
    } else {
        le32(img, e)
    }
}

/// Number of logical bytes stored in whole blocks for the inline layout.
pub open spec fn full_blocks_len(sb: SuperBlock, ino: Inode) -> int {
    ino.size as int / sb.block_size as int * sb.block_size as int
}

/// Where logical byte `o` of a file lives: an image position, or `None` for a
/// byte of a hole.
pub open spec fn byte_source(sb: SuperBlock, ino: Inode, img: Seq<u8>, o: int) -> Option<int> {
    let bs = sb.block_size as int;
    match ino.layout {
        Layout::Plain => Some(ino.raw_u * bs + o),
        Layout::Inline => {
            let full = full_blocks_len(sb, ino);
            if o < full {
                Some(ino.raw_u * bs + o)
            } else {
                Some(ino.spec_meta_end() + (o - full))
            }
        },
        Layout::Chunked => {
            let cs = chunk_size(sb, ino);
            let addr = chunk_addr(ino, img, o / cs);
            if addr == NULL_ADDR {
                None
            } else {
                Some(addr * bs + o % cs)
            }
        },
    }
}

/// Length of the extent that starts at logical offset `o`: up to the end of
/// its block (and chunk), and never past the end of the data.
pub open spec fn extent_len(sb: SuperBlock, ino: Inode, o: int) -> int {
    let bs = sb.block_size as int;
    let to_end = min_int(ino.size - o, bs - o % bs);
    match ino.layout {
        Layout::Chunked => {
            let cs = chunk_size(sb, ino);
            min_int(to_end, cs - o % cs)
        },
        _ => to_end,
    }
}

/// The outcome of locating logical offset `o` of a file.
pub open spec fn locate_spec(sb: SuperBlock, ino: Inode, img: Seq<u8>, o: int) -> Result<
    Extent,
    Error,
> {
    let len = extent_len(sb, ino, o);
    let src = byte_source(sb, ino, img, o);
    if o >= ino.size {
        Err(Error::OutOfBounds)
    } else if ino.layout == Layout::Chunked && index_entry_pos(ino, o / chunk_size(sb, ino))
        + index_entry_size(ino) > img.len() {
        Err(Error::Truncated)
    } else if src matches Some(p) && p + len > img.len() {
        Err(Error::Truncated)
    } else if src is None {
        Ok(Extent::Hole { len: len as u64 })
    } else if ino.layout == Layout::Inline && o >= full_blocks_len(sb, ino) {
        Ok(Extent::Inline { pos: src.unwrap() as u64, len: len as u64 })
    } else {
        Ok(Extent::Mapped { pos: src.unwrap() as u64, len: len as u64 })
    }
}

/// Offsets `o..o + i` stay within one unit of size `d` while `i` is below what
/// is left of `o`'s unit.
proof fn lemma_same_unit(o: int, i: int, d: int)
    requires
        d > 0,
        0 <= o,
        0 <= i < d - o % d,
    ensures
        (o + i) / d == o / d,
        (o + i) % d == o % d + i,
{
    lemma_fundamental_div_mod(o, d);
    assert(o + i == (o / d) * d + (o % d + i)) by (nonlinear_arith)
        requires
            o == d * (o / d) + o % d,
    ;
    lemma_fundamental_div_mod_converse(o + i, d, o / d, o % d + i);
}

/// A whole-block prefix that `o` lies in also holds the rest of `o`'s block.
proof fn lemma_within_full_blocks(o: int, i: int, bs: int, n: int)
    requires
        bs > 0,
        0 <= o < n / bs * bs,
        0 <= n,
        0 <= i < bs - o % bs,
    ensures
        o + i < n / bs * bs,
{
    let k = n / bs;
    lemma_fundamental_div_mod(o, bs);
    let q = o / bs;
    assert(q < k) by (nonlinear_arith)
        requires
            o == bs * q + o % bs,
            o % bs >= 0,
            o < k * bs,
            bs > 0,
    ;
    assert(q * bs + bs <= k * bs) by (nonlinear_arith)
        requires
            q < k,
            bs > 0,
    ;
    assert(bs * q == q * bs) by (nonlinear_arith);
}

/// Each byte of a located extent comes from where the layout puts the
/// corresponding logical byte, and the extent is non-empty and ends within
/// the data.
pub proof fn lemma_extent_sources(sb: SuperBlock, ino: Inode, img: Seq<u8>, o: int)
    requires
        sb.wf(),
        0 <= o,
        img.len() <= u64::MAX,
        locate_spec(sb, ino, img, o) is Ok,
    ensures
        ({
            let e = locate_spec(sb, ino, img, o).unwrap();
            &&& 1 <= e.spec_len()
            &&& o + e.spec_len() <= ino.size
            &&& match e {
                Extent::Hole { .. } => true,
                Extent::Mapped { pos, len } => pos + len <= img.len(),
                Extent::Inline { pos, len } => pos + len <= img.len(),
            }
            &&& forall|i: int|
                0 <= i < e.spec_len() ==> #[trigger] byte_source(sb, ino, img, o + i) == e.source(i)
        }),
{
    let e = locate_spec(sb, ino, img, o).unwrap();
    let bs = sb.block_size as int;
    lemma_fundamental_div_mod(o, bs);
    if ino.layout == Layout::Chunked {
        let cbits = chunk_bits(sb, ino);
        assert((1u64 << cbits) >= 512) by (bit_vector)
            requires
                9 <= cbits < 64,
        ;
        lemma_fundamental_div_mod(o, chunk_size(sb, ino));
    }
    let len = extent_len(sb, ino, o);
    assert(1 <= len <= ino.size - o);
    if ino.layout == Layout::Chunked {
        let a = chunk_addr(ino, img, o / chunk_size(sb, ino));
        assert(a * bs >= 0) by (nonlinear_arith)
            requires
                a >= 0,
                bs >= 0,
        ;
    }
    assert(ino.raw_u * bs >= 0) by (nonlinear_arith)
        requires
            bs >= 0,
    ;
    assert(e.spec_len() == len);
    assert forall|i: int| 0 <= i < e.spec_len() implies #[trigger] byte_source(sb, ino, img, o + i)
        == e.source(i) by {
        match ino.layout {
            Layout::Plain => {},
            Layout::Inline => {
                let full = full_blocks_len(sb, ino);
                if o < full {
                    lemma_within_full_blocks(o, i, bs, ino.size as int);
                }
            },
            Layout::Chunked => {
                lemma_same_unit(o, i, chunk_size(sb, ino));
            },
        }
    }
}

/// Locating any offset inside a located extent succeeds as well: the extent
/// found there is the rest of the first one.
pub proof fn lemma_locate_inside(sb: SuperBlock, ino: Inode, img: Seq<u8>, o: int, k: int)
    requires
        sb.wf(),
        0 <= o,
        img.len() <= u64::MAX,
        locate_spec(sb, ino, img, o) is Ok,
        0 <= k < locate_spec(sb, ino, img, o).unwrap().spec_len(),
    ensures
        locate_spec(sb, ino, img, o + k) is Ok,
{
    lemma_extent_sources(sb, ino, img, o);
    let bs = sb.block_size as int;
    lemma_fundamental_div_mod(o, bs);
    if ino.layout == Layout::Chunked {
        let cbits = chunk_bits(sb, ino);
        assert((1u64 << cbits) >= 512) by (bit_vector)
            requires
                9 <= cbits < 64,
        ;
        lemma_fundamental_div_mod(o, chunk_size(sb, ino));
    }
    assert(0 < extent_len(sb, ino, o) <= ino.size - o);
    assert(locate_spec(sb, ino, img, o).unwrap().spec_len() == extent_len(sb, ino, o));
    lemma_same_unit(o, k, bs);
    if ino.layout == Layout::Chunked {
        lemma_same_unit(o, k, chunk_size(sb, ino));
    }
    assert(extent_len(sb, ino, o + k) == extent_len(sb, ino, o) - k);
    assert(byte_source(sb, ino, img, o + k) == locate_spec(sb, ino, img, o).unwrap().source(k));
}

/// Locating the end of the data or beyond fails with `OutOfBounds`; locating
/// the last byte gives a non-empty extent unless the image is cut short.
pub proof fn lemma_locate_boundary(sb: SuperBlock, ino: Inode, img: Seq<u8>, o: int)
    requires
        sb.wf(),
        0 <= o,
        img.len() <= u64::MAX,
    ensures
        o >= ino.size ==> locate_spec(sb, ino, img, o) == Err::<Extent, Error>(Error::OutOfBounds),
        ino.size > 0 ==> match locate_spec(sb, ino, img, ino.size - 1) {
            Ok(e) => e.spec_len() == 1,
            Err(err) => err == Error::Truncated,
        },
{
    if ino.size > 0 {
        let last = ino.size - 1;
        if locate_spec(sb, ino, img, last) is Ok {
            lemma_extent_sources(sb, ino, img, last);
        }
    }
}

/// `Some(base + off)` when `base + off + len` stays within `img_len`.
fn place(base: u64, off: u64, len: u64, img_len: u64) -> (r: Option<u64>)
    ensures
        r is Some <==> base + off + len <= img_len,
        r matches Some(p) ==> p == base + off,
{
    if base > img_len || off > img_len - base || len > img_len - base - off {
        None
    } else {
        Some(base + off)
    }
}

fn min_u64(a: u64, b: u64) -> (r: u64)
    ensures
        r as int == min_int(a as int, b as int),
{
    if a < b {
        a
    } else {
        b
    }
}

/// Translates logical offset `o` of a file into the extent that holds it.
pub fn locate<I: Image>(sb: &SuperBlock, ino: &Inode, img: &I, o: u64) -> (r: Result<Extent, Error>)
    requires
        sb.wf(),
    ensures
        r == locate_spec(*sb, *ino, img.bytes(), o as int),
{
    if o >= ino.size {
        return Err(Error::OutOfBounds);
    }
    let img_len = img.len();
    let bs = sb.block_size;
    let to_end = min_u64(ino.size - o, bs - o % bs);
    let raw = ino.raw_u as u64;
    assert(raw * bs <= 4294967295 * 65536) by (nonlinear_arith)
        requires
            raw <= 4294967295,
            bs <= 65536,
    ;
    match ino.layout {
        Layout::Plain => {
            match place(raw * bs, o, to_end, img_len) {
                Some(p) => Ok(Extent::Mapped { pos: p, len: to_end }),
                None => Err(Error::Truncated),
            }
        },
        Layout::Inline => {
            assert(ino.size / bs * bs <= ino.size) by (nonlinear_arith)
                requires
                    bs > 0,
            ;
            let full = ino.size / bs * bs;
            if o < full {
                match place(raw * bs, o, to_end, img_len) {
                    Some(p) => Ok(Extent::Mapped { pos: p, len: to_end }),
                    None => Err(Error::Truncated),
                }
            } else {
                match ino.meta_end() {
                    Some(me) => match place(me, o - full, to_end, img_len) {
                        Some(p) => Ok(Extent::Inline { pos: p, len: to_end }),
                        None => Err(Error::Truncated),
                    },
                    None => Err(Error::Truncated),
                }
            }
        },
        Layout::Chunked => locate_chunked(sb, ino, img, o, to_end),
    }
}

fn locate_chunked<I: Image>(sb: &SuperBlock, ino: &Inode, img: &I, o: u64, to_end: u64) -> (r:
    Result<Extent, Error>)
    requires
        sb.wf(),
        ino.layout == Layout::Chunked,
        o < ino.size,
        to_end as int == min_int(ino.size - o, sb.block_size - (o % sb.block_size) as int),
    ensures
        r == locate_spec(*sb, *ino, img.bytes(), o as int),
{
    let img_len = img.len();
    let bs = sb.block_size;
    let cbits: u64 = sb.blkszbits as u64 + (ino.raw_u % 32) as u64;
    assert(cbits < 64);
    let cs: u64 = 1u64 << cbits;
    assert((1u64 << cbits) >= 512) by (bit_vector)
        requires
            9 <= cbits < 64,
    ;
    let c = o / cs;
    let esz: u64 = if (ino.raw_u / 32) % 2 == 1 {
        8
    } else {
        4
    };
    let me = match ino.meta_end() {
        Some(me) => me,
        None => return Err(Error::Truncated),
    };
    if img_len < esz || me > img_len - esz {
        return Err(Error::Truncated);
    }
    let base = if esz == 8 {
        (me + 7) / 8 * 8
    } else {
        me
    };
    assert(c * esz <= o) by (nonlinear_arith)
        requires
            c == o / cs,
            cs >= 512,
            esz <= 8,
    ;
    if base > img_len || c * esz > img_len - base {
        return Err(Error::Truncated);
    }
    let epos = base + c * esz;
    if esz > img_len - epos {
        return Err(Error::Truncated);
    }
    let word_pos = if esz == 8 {
        epos + 4
    } else {
        epos
    };
    let addr = match read_u32_at(img, word_pos) {
        Some(a) => a,
        None => return Err(Error::Truncated),
    };
    let len = min_u64(to_end, cs - o % cs);
    if addr == NULL_ADDR {
        return Ok(Extent::Hole { len });
    }
    let a = addr as u64;
    assert(a * bs <= 4294967295 * 65536) by (nonlinear_arith)
        requires
            a <= 4294967295,
            bs <= 65536,
    ;
    match place(a * bs, o % cs, len, img_len) {
        Some(p) => Ok(Extent::Mapped { pos: p, len }),
        None => Err(Error::Truncated),
    }
}

} // verus!
