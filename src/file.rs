use vstd::prelude::*;
use bytes::Bytes;
use crate::error::Error;
use crate::filesystem::{extent_content, read_inode_spec, walk_path, EroFS};
use crate::path::components;
use vstd::string::StringSliceAdditionalSpecFns;
use vstd::arithmetic::div_mod::{lemma_fundamental_div_mod, lemma_fundamental_div_mod_converse};
use crate::image::Image;
use crate::inode::{Inode, Layout};
use crate::locate::{
    byte_source, chunk_addr, chunk_size, full_blocks_len, lemma_extent_sources, lemma_locate_inside,
    locate_spec, Extent,
    NULL_ADDR,
};
use crate::superblock::SuperBlock;

verus! {

/// Logical byte `o` of a file: the image byte its layout points to, or zero
/// inside a hole (or where the image has no such byte).
pub open spec fn file_byte(sb: SuperBlock, ino: Inode, img: Seq<u8>, o: int) -> u8 {
    match byte_source(sb, ino, img, o) {
        Some(p) => if 0 <= p < img.len() {
            img[p]
        } else {
            0
        },
        None => 0,
    }
}

/// The full logical content of a file: `size` bytes.
pub open spec fn file_content(sb: SuperBlock, ino: Inode, img: Seq<u8>) -> Seq<u8> {
    Seq::new(ino.size as nat, |o: int| file_byte(sb, ino, img, o))
}

/// The bytes of a located extent are the file bytes it covers.
pub proof fn lemma_extent_content(sb: SuperBlock, ino: Inode, img: Seq<u8>, o: int)
    requires
        sb.wf(),
        0 <= o,
        img.len() <= u64::MAX,
        locate_spec(sb, ino, img, o) is Ok,
    ensures
        ({
            let e = locate_spec(sb, ino, img, o).unwrap();
            &&& o + e.spec_len() <= ino.size
            &&& 1 <= e.spec_len()
            &&& extent_content(img, e) =~= file_content(sb, ino, img).subrange(o, o + e.spec_len())
        }),
{
    lemma_extent_sources(sb, ino, img, o);
    let e = locate_spec(sb, ino, img, o).unwrap();
    assert forall|i: int| 0 <= i < e.spec_len() implies extent_content(img, e)[i]
        == file_content(sb, ino, img)[o + i] by {
        assert(byte_source(sb, ino, img, o + i) == e.source(i));
    }
}

/// What a `Bytes` buffer holds.
pub uninterp spec fn bytes_content(b: Bytes) -> Seq<u8>;

#[verifier::external_type_specification]
#[verifier::external_body]
pub struct ExBytes(Bytes);

/// Relies on `bytes::Bytes::copy_from_slice`: the new buffer holds a copy of
/// `data`.
#[verifier::external_body]
fn copy_to_bytes(data: &[u8]) -> (r: Bytes)
    ensures
        bytes_content(r) == data@,
{
    Bytes::copy_from_slice(data)
}

/// Relies on `Deref for bytes::Bytes`: the slice of the bytes the buffer holds.
#[verifier::external_body]
fn bytes_slice(b: &Bytes) -> (r: &[u8])
    ensures
        r@ == bytes_content(*b),
{
    &b[..]
}

/// A sequential reader over the data of one inode.
pub struct File<'a, I: Image> {
    inode: Inode,
    erofs: &'a EroFS<I>,
    offset: u64,
    buf: Option<Bytes>,
    buf_start: u64,
}

impl<'a, I: Image> File<'a, I> {
    /// The file's full content.
    pub closed spec fn content(&self) -> Seq<u8> {
        file_content(self.erofs.spec_superblock(), self.inode, self.erofs.spec_image())
    }

    /// Number of bytes read so far.
    pub closed spec fn position(&self) -> int {
        self.offset as int
    }

    pub closed spec fn spec_inode(&self) -> Inode {
        self.inode
    }

    pub closed spec fn spec_superblock(&self) -> SuperBlock {
        self.erofs.spec_superblock()
    }

    pub closed spec fn spec_image(&self) -> Seq<u8> {
        self.erofs.spec_image()
    }

    /// Whether locating the byte at the cursor fails.
    pub open spec fn read_fails(&self) -> bool {
        locate_spec(self.spec_superblock(), self.spec_inode(), self.spec_image(), self.position())
            is Err
    }

    /// The bytes held in the internal buffer.
    pub closed spec fn buffered(&self) -> Seq<u8> {
        match self.buf {
            Some(b) => bytes_content(b),
            None => seq![],
        }
    }

    /// The buffered bytes are the file bytes they stand for, and the cursor
    /// never passes the end of the data.
    pub closed spec fn wf(&self) -> bool {
        &&& self.erofs.wf()
        &&& self.offset <= self.inode.size
        &&& self.buf_start + self.buffered().len() <= self.inode.size
        &&& self.buffered() == self.content().subrange(
            self.buf_start as int,
            self.buf_start + self.buffered().len(),
        )
        &&& self.buffered().len() > 0 ==> (locate_spec(
            self.erofs.spec_superblock(),
            self.inode,
            self.erofs.spec_image(),
            self.buf_start as int,
        ) matches Ok(e) && e.spec_len() == self.buffered().len())
    }

    pub fn new(inode: Inode, erofs: &'a EroFS<I>) -> (r: Self)
        requires
            erofs.wf(),
        ensures
            r.wf(),
            r.position() == 0,
            r.spec_inode() == inode,
            r.content() == file_content(erofs.spec_superblock(), inode, erofs.spec_image()),
    {
        let r = File { inode, erofs, offset: 0, buf: None, buf_start: 0 };
        assert(r.buffered() =~= r.content().subrange(0, 0));
        r
    }

    /// Size of the file in bytes.
    pub fn size(&self) -> (r: u64)
        ensures
            r == self.spec_inode().size,
            r as int == self.content().len(),
    {
        self.inode.size
    }

    /// Copies the next bytes of the file into `out` and advances past them.
    /// Returns 0 only at the end of the data or for an empty `out`.
    pub fn read_bytes(&mut self, out: &mut [u8]) -> (r: Result<usize, Error>)
        requires
            old(self).wf(),
        ensures
            final(self).wf(),
            final(self).content() == old(self).content(),
            final(self).spec_inode() == old(self).spec_inode(),
            final(self).spec_superblock() == old(self).spec_superblock(),
            final(self).spec_image() == old(self).spec_image(),
            final(self).position() <= final(self).content().len(),
            final(out)@.len() == old(out)@.len(),
            (old(out)@.len() == 0 || old(self).position() >= old(self).content().len()) ==> r
                == Ok::<usize, Error>(0),
            r is Err ==> old(self).read_fails(),
            (old(out)@.len() > 0 && old(self).position() < old(self).content().len()
                && old(self).read_fails()) ==> r is Err,
            match r {
                Ok(n) => {
                    &&& n <= old(out)@.len()
                    &&& final(self).position() == old(self).position() + n
                    &&& final(out)@.subrange(0, n as int) == old(self).content().subrange(
                        old(self).position(),
                        old(self).position() + n,
                    )
                    &&& final(out)@.subrange(n as int, old(out)@.len() as int) == old(out)@.subrange(
                        n as int,
                        old(out)@.len() as int,
                    )
                    &&& (n == 0 <==> (old(out)@.len() == 0 || old(self).position()
                        == old(self).content().len()))
                },
                Err(e) => e == Error::Truncated && final(self).position() == old(self).position()
                    && final(out)@ == old(out)@,
            },
    {
        let size = self.inode.size;
        if self.offset >= size || out.len() == 0 {
            return Ok(0);
        }
        let inside = match &self.buf {
            Some(b) => {
                let held = bytes_slice(b);
                self.offset >= self.buf_start && self.offset - self.buf_start < held.len() as u64
            },
            None => false,
        };
        proof {
            if inside {
                lemma_locate_inside(
                    self.erofs.spec_superblock(),
                    self.inode,
                    self.erofs.spec_image(),
                    self.buf_start as int,
                    self.offset - self.buf_start,
                );
            }
        }
        if !inside {
            let e = match self.erofs.locate(&self.inode, self.offset) {
                Ok(e) => e,
                Err(err) => return Err(err),
            };
            proof {
                lemma_extent_sources(
                    self.erofs.spec_superblock(),
                    self.inode,
                    self.erofs.spec_image(),
                    self.offset as int,
                );
                lemma_extent_content(
                    self.erofs.spec_superblock(),
                    self.inode,
                    self.erofs.spec_image(),
                    self.offset as int,
                );
            }
            let data = match self.erofs.read_extent(&e) {
                Ok(d) => d,
                Err(err) => return Err(err),
            };
            self.buf = Some(copy_to_bytes(data.as_slice()));
            self.buf_start = self.offset;
        }
        let ghost held_view = self.buffered();
        let held: &[u8] = match &self.buf {
            Some(b) => bytes_slice(b),
            None => return Ok(0),
        };
        let start = (self.offset - self.buf_start) as usize;
        let avail = held.len() - start;
        let n: usize = if out.len() < avail {
            out.len()
        } else {
            avail
        };
        let ghost out0 = out@;
        let mut i: usize = 0;
        while i < n
            invariant
                i <= n,
                n <= out@.len(),
                start + n <= held.len(),
                held@ == held_view,
                out@.len() == out0.len(),
                forall|k: int| 0 <= k < i ==> out@[k] == held@[start + k],
                forall|k: int| n <= k < out@.len() ==> out@[k] == out0[k],
            decreases n - i,
        {
            out[i] = held[start + i];
            i = i + 1;
        }
        self.offset = self.offset + n as u64;
        assert(out@.subrange(0, n as int) =~= self.content().subrange(
            self.offset - n,
            self.offset as int,
        ));
        assert(out@.subrange(n as int, out@.len() as int) =~= out0.subrange(
            n as int,
            out0.len() as int,
        ));
        Ok(n)
    }
    /// Reads the rest of the file, `chunk` bytes at a time at most.
    pub fn read_to_end(&mut self, chunk: usize) -> (r: Result<Vec<u8>, Error>)
        requires
            old(self).wf(),
            chunk > 0,
        ensures
            final(self).wf(),
            final(self).content() == old(self).content(),
            r matches Ok(v) ==> {
                &&& v@ == old(self).content().subrange(
                    old(self).position(),
                    old(self).content().len() as int,
                )
                &&& final(self).position() == old(self).content().len()
            },
            r is Err ==> r == Err::<Vec<u8>, Error>(Error::Truncated),
            r is Err ==> exists|o: int|
                old(self).position() <= o < old(self).content().len() && #[trigger] locate_spec(
                    old(self).spec_superblock(),
                    old(self).spec_inode(),
                    old(self).spec_image(),
                    o,
                ) is Err,
            final(self).spec_inode() == old(self).spec_inode(),
            final(self).spec_superblock() == old(self).spec_superblock(),
            final(self).spec_image() == old(self).spec_image(),
            (forall|o: int|
                old(self).position() <= o < old(self).content().len() ==> #[trigger] locate_spec(
                    old(self).spec_superblock(),
                    old(self).spec_inode(),
                    old(self).spec_image(),
                    o,
                ) is Ok) ==> r is Ok,
    {
        let ghost start = self.position();
        let ghost content = self.content();
        let mut scratch: Vec<u8> = Vec::new();
        let mut k: usize = 0;
        while k < chunk
            invariant
                k <= chunk,
                scratch@.len() == k,
            decreases chunk - k,
        {
            scratch.push(0u8);
            k = k + 1;
        }
        let mut acc: Vec<u8> = Vec::new();
        loop
            invariant
                self.wf(),
                self.content() == content,
                content == old(self).content(),
                start == old(self).position(),
                self.spec_inode() == old(self).spec_inode(),
                self.spec_superblock() == old(self).spec_superblock(),
                self.spec_image() == old(self).spec_image(),
                scratch@.len() == chunk,
                chunk > 0,
                start <= self.position() <= content.len(),
                acc@ == content.subrange(start, self.position()),
            decreases content.len() - self.position(),
        {
            let ghost p0 = self.position();
            let n = match self.read_bytes(scratch.as_mut_slice()) {
                Ok(n) => n,
                Err(e) => {
                    assert(locate_spec(
                        old(self).spec_superblock(),
                        old(self).spec_inode(),
                        old(self).spec_image(),
                        p0,
                    ) is Err);
                    return Err(e);
                },
            };
            if n == 0 {
                return Ok(acc);
            }
            let ghost before = acc@;
            let mut i: usize = 0;
            while i < n
                invariant
                    i <= n,
                    n <= scratch@.len(),
                    acc@ == before + scratch@.subrange(0, i as int),
                decreases n - i,
            {
                acc.push(scratch[i]);
                i = i + 1;
                assert(acc@ =~= before + scratch@.subrange(0, i as int));
            }
            assert(scratch@.subrange(0, n as int) == content.subrange(p0, p0 + n));
            assert(acc@ =~= content.subrange(start, self.position()));
        }
    }
}

/// A byte-stream reader.
pub trait Read {
    /// Whether the reader's internal state is consistent.
    spec fn ready(&self) -> bool;

    /// The whole byte stream the reader delivers.
    spec fn stream(&self) -> Seq<u8>;

    /// How many bytes of the stream have been delivered.
    spec fn cursor(&self) -> int;

    /// Whether the bytes at the cursor cannot be fetched.
    spec fn stalled(&self) -> bool;

    /// Copies the next bytes of the stream into `buf` and returns how many
    /// were copied: 0 only at the end of the stream or for an empty `buf`.
    fn read(&mut self, buf: &mut [u8]) -> (r: Result<usize, Error>)
        requires
            old(self).ready(),
        ensures
            final(self).ready(),
            final(self).stream() == old(self).stream(),
            final(self).cursor() <= final(self).stream().len(),
            final(buf)@.len() == old(buf)@.len(),
            (old(buf)@.len() == 0 || old(self).cursor() >= old(self).stream().len()) ==> r
                == Ok::<usize, Error>(0),
            r is Err ==> old(self).stalled(),
            (old(buf)@.len() > 0 && old(self).cursor() < old(self).stream().len()
                && old(self).stalled()) ==> r is Err,
            match r {
                Ok(n) => {
                    &&& n <= old(buf)@.len()
                    &&& final(self).cursor() == old(self).cursor() + n
                    &&& final(buf)@.subrange(0, n as int) == old(self).stream().subrange(
                        old(self).cursor(),
                        old(self).cursor() + n,
                    )
                    &&& final(buf)@.subrange(n as int, old(buf)@.len() as int) == old(buf)@.subrange(
                        n as int,
                        old(buf)@.len() as int,
                    )
                    &&& (n == 0 <==> (old(buf)@.len() == 0 || old(self).cursor()
                        == old(self).stream().len()))
                },
                Err(_) => final(self).cursor() == old(self).cursor() && final(buf)@ == old(buf)@,
            },
    ;
}

impl<'a, I: Image> Read for File<'a, I> {
    open spec fn ready(&self) -> bool {
        self.wf()
    }

    open spec fn stream(&self) -> Seq<u8> {
        self.content()
    }

    open spec fn cursor(&self) -> int {
        self.position()
    }

    open spec fn stalled(&self) -> bool {
        self.read_fails()
    }

    fn read(&mut self, buf: &mut [u8]) -> (r: Result<usize, Error>) {
        self.read_bytes(buf)
    }
}

impl<I: Image> EroFS<I> {
    /// A reader over the data of `inode`.
    pub fn open_inode_file(&self, inode: Inode) -> (r: File<'_, I>)
        requires
            self.wf(),
        ensures
            r.wf(),
            r.position() == 0,
            r.spec_inode() == inode,
            r.content() == file_content(self.spec_superblock(), inode, self.spec_image()),
    {
        File::new(inode, self)
    }

    /// Resolves `path` and opens a reader over the node it names.
    pub fn open(&self, path: &str) -> (r: Result<File<'_, I>, Error>)
        requires
            self.wf(),
        ensures
            r matches Ok(f) ==> {
                &&& f.wf()
                &&& f.position() == 0
                &&& walk_path(
                    self.spec_superblock(),
                    self.spec_image(),
                    self.spec_superblock().root_nid,
                    components(path.spec_bytes()),
                ) matches Ok(nid)
                &&& read_inode_spec(self.spec_superblock(), self.spec_image(), nid) == Ok::<
                    Inode,
                    Error,
                >(f.spec_inode())
                &&& f.content() == file_content(self.spec_superblock(), f.spec_inode(), self.spec_image())
            },
            r matches Err(e) ==> match walk_path(
                self.spec_superblock(),
                self.spec_image(),
                self.spec_superblock().root_nid,
                components(path.spec_bytes()),
            ) {
                Err(e2) => e == e2,
                Ok(nid) => read_inode_spec(self.spec_superblock(), self.spec_image(), nid)
                    == Err::<Inode, Error>(e),
            },
    {
        let nid = match self.resolve(path) {
            Ok(n) => n,
            Err(e) => return Err(e),
        };
        match self.read_inode(nid) {
            Ok(ino) => Ok(File::new(ino, self)),
            Err(e) => Err(e),
        }
    }
}

/// In the inline layout, the bytes of the last partial block are the bytes
/// packed after the inode record, and locating them gives that inline region.
pub proof fn lemma_inline_tail(sb: SuperBlock, ino: Inode, img: Seq<u8>, o: int)
    requires
        sb.wf(),
        img.len() <= u64::MAX,
        ino.layout == Layout::Inline,
        full_blocks_len(sb, ino) <= o < ino.size,
        locate_spec(sb, ino, img, o) is Ok,
    ensures
        locate_spec(sb, ino, img, o) matches Ok(Extent::Inline { pos, len }) ==> {
            &&& pos == ino.spec_meta_end() + (o - full_blocks_len(sb, ino))
            &&& o + len == ino.size
            &&& img.subrange(pos as int, pos + len) == file_content(sb, ino, img).subrange(
                o,
                ino.size as int,
            )
        },
        locate_spec(sb, ino, img, o) is Ok,
        locate_spec(sb, ino, img, o).unwrap() is Inline,
{
    lemma_extent_content(sb, ino, img, o);
    let bs = sb.block_size as int;
    assert(o % bs == o - full_blocks_len(sb, ino)) by {
        let k = ino.size as int / bs;
        lemma_fundamental_div_mod(ino.size as int, bs);
        assert(o - k * bs < bs) by (nonlinear_arith)
            requires
                o < ino.size,
                ino.size == bs * k + ino.size as int % bs,
                ino.size as int % bs < bs,
        ;
        lemma_fundamental_div_mod_converse(o, bs, k, o - k * bs);
    }
    assert(ino.size - full_blocks_len(sb, ino) < bs) by {
        lemma_fundamental_div_mod(ino.size as int, bs);
        assert(bs * (ino.size as int / bs) == ino.size as int / bs * bs) by (nonlinear_arith);
    }
}

/// Every byte of an unmapped chunk reads as zero.
pub proof fn lemma_hole_reads_zero(sb: SuperBlock, ino: Inode, img: Seq<u8>, o: int)
    requires
        sb.wf(),
        ino.layout == Layout::Chunked,
        0 <= o < ino.size,
        chunk_addr(ino, img, o / chunk_size(sb, ino)) == NULL_ADDR,
    ensures
        file_content(sb, ino, img)[o] == 0,
{
}

} // verus!
