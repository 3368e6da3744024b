use vstd::prelude::*;
use vstd::string::StringSliceAdditionalSpecFns;
use crate::bytes_le::le16;
use crate::dirent::{block_entries, entry_result_view, parse_dir_block, DirEntry, EntryModel};
use crate::error::Error;
use crate::image::Image;
use crate::inode::{decode_inode, decode_record, kind_of_mode, record_size, Inode, NodeKind};
use crate::path::{components, split_path, views_of};
use crate::locate::{lemma_extent_sources, locate, locate_spec, Extent};
use crate::superblock::{
    decode_superblock, superblock_of, superblock_valid, SuperBlock, SUPERBLOCK_OFFSET,
    SUPERBLOCK_SIZE,
};

verus! {

/// Whether two byte strings are equal.
pub fn bytes_eq(a: &[u8], b: &[u8]) -> (r: bool)
    ensures
        r <==> a@ == b@,
{
    if a.len() != b.len() {
        return false;
    }
    let mut i: usize = 0;
    while i < a.len()
        invariant
            a@.len() == b@.len(),
            i <= a@.len(),
            forall|k: int| 0 <= k < i ==> a@[k] == b@[k],
        decreases a@.len() - i,
    {
        if a[i] != b[i] {
            return false;
        }
        i = i + 1;
    }
    assert(a@ =~= b@);
    true
}

/// Image position of the record of node `nid`.
pub open spec fn inode_pos(sb: SuperBlock, nid: u64) -> int {
    sb.meta_blkaddr * sb.block_size + nid * 32
}

/// The outcome of decoding node `nid` of an image.
///
/// A node id counts 32-byte slots from the start of the metadata area, so ids
/// are sparse: the superblock's inode count says how many inodes exist, not
/// how far their ids reach, and bounds no id. An id is rejected when its slot
/// does not lie inside the image.
pub open spec fn read_inode_spec(sb: SuperBlock, img: Seq<u8>, nid: u64) -> Result<Inode, Error> {
    let pos = inode_pos(sb, nid);
    if pos + 32 > img.len() {
        Err(Error::InvalidNodeId)
    } else {
        let size = record_size(le16(img, pos));
        if pos + size > img.len() {
            Err(Error::Truncated)
        } else {
            decode_record(sb, nid, pos as u64, img.subrange(pos, pos + size))
        }
    }
}

/// The bytes an extent stands for.
pub open spec fn extent_content(img: Seq<u8>, e: Extent) -> Seq<u8> {
    match e {
        Extent::Hole { len } => Seq::new(len as nat, |i: int| 0u8),
        Extent::Mapped { pos, len } => img.subrange(pos as int, pos + len),
        Extent::Inline { pos, len } => img.subrange(pos as int, pos + len),
    }
}

/// The data from logical offset `o` to the end of its extent.
pub open spec fn data_at(sb: SuperBlock, ino: Inode, img: Seq<u8>, o: int) -> Result<Seq<u8>, Error> {
    match locate_spec(sb, ino, img, o) {
        Ok(e) => Ok(extent_content(img, e)),
        Err(err) => Err(err),
    }
}

/// The entries of a directory from block-aligned offset `o` on.
pub open spec fn listing_from(sb: SuperBlock, ino: Inode, img: Seq<u8>, o: int) -> Result<
    Seq<Result<EntryModel, Error>>,
    Error,
>
    decreases (if o >= ino.size {
        0
    } else {
        ino.size - o
    }),
{
    if o >= ino.size || sb.block_size == 0 {
        Ok(seq![])
    } else {
        match data_at(sb, ino, img, o) {
            Err(err) => Err(err),
            Ok(b) => match listing_from(sb, ino, img, o + sb.block_size) {
                Err(err) => Err(err),
                Ok(rest) => Ok(block_entries(b) + rest),
            },
        }
    }
}

/// The whole listing of a directory inode, in on-disk order.
pub open spec fn listing(sb: SuperBlock, ino: Inode, img: Seq<u8>) -> Result<
    Seq<Result<EntryModel, Error>>,
    Error,
> {
    listing_from(sb, ino, img, 0)
}

pub open spec fn prepend(
    acc: Seq<Result<EntryModel, Error>>,
    r: Result<Seq<Result<EntryModel, Error>>, Error>,
) -> Result<Seq<Result<EntryModel, Error>>, Error> {
    match r {
        Ok(rest) => Ok(acc + rest),
        Err(err) => Err(err),
    }
}

/// The listing of node `ino`, which must be a directory.
pub open spec fn dir_listing(sb: SuperBlock, ino: Inode, img: Seq<u8>) -> Result<
    Seq<Result<EntryModel, Error>>,
    Error,
> {
    if kind_of_mode(ino.mode as int) != NodeKind::Directory {
        Err(Error::NotADirectory)
    } else {
        listing(sb, ino, img)
    }
}

pub open spec fn entry_views(v: Seq<Result<DirEntry, Error>>) -> Seq<Result<EntryModel, Error>> {
    v.map_values(|r: Result<DirEntry, Error>| entry_result_view(r))
}

/// Node id of the first well-formed entry from index `i` on named `name`.
pub open spec fn find_entry(l: Seq<Result<EntryModel, Error>>, name: Seq<u8>, i: int) -> Option<u64>
    decreases l.len() - i,
{
    if i >= l.len() {
        None
    } else {
        match l[i] {
            Ok(e) => if e.1 == name {
                Some(e.0)
            } else {
                find_entry(l, name, i + 1)
            },
            Err(_) => find_entry(l, name, i + 1),
        }
    }
}

/// The child named `name` of directory node `nid`.
pub open spec fn lookup_spec(sb: SuperBlock, img: Seq<u8>, nid: u64, name: Seq<u8>) -> Result<
    u64,
    Error,
> {
    match read_inode_spec(sb, img, nid) {
        Err(e) => Err(e),
        Ok(ino) => match dir_listing(sb, ino, img) {
            Err(e) => Err(e),
            Ok(l) => match find_entry(l, name, 0) {
                None => Err(Error::NotFound),
                Some(c) => Ok(c),
            },
        },
    }
}

/// The node reached from `nid` by following `comps` one directory at a time.
pub open spec fn walk_path(sb: SuperBlock, img: Seq<u8>, nid: u64, comps: Seq<Seq<u8>>) -> Result<
    u64,
    Error,
>
    decreases comps.len(),
{
    if comps.len() == 0 {
        Ok(nid)
    } else {
        match lookup_spec(sb, img, nid, comps[0]) {
            Err(e) => Err(e),
            Ok(c) => walk_path(sb, img, c, comps.drop_first()),
        }
    }
}

/// Following `a` and then `b` reaches the node that following `a + b` reaches:
/// resolution by components composes.
pub proof fn lemma_walk_path_concat(
    sb: SuperBlock,
    img: Seq<u8>,
    nid: u64,
    a: Seq<Seq<u8>>,
    b: Seq<Seq<u8>>,
)
    ensures
        walk_path(sb, img, nid, a + b) == match walk_path(sb, img, nid, a) {
            Ok(m) => walk_path(sb, img, m, b),
            Err(e) => Err(e),
        },
    decreases a.len(),
{
    if a.len() == 0 {
        assert(a + b =~= b);
    } else {
        assert((a + b)[0] == a[0]);
        assert((a + b).drop_first() =~= a.drop_first() + b);
        if let Ok(c) = lookup_spec(sb, img, nid, a[0]) {
            lemma_walk_path_concat(sb, img, c, a.drop_first(), b);
        }
    }
}

/// The header region of an image.
pub open spec fn superblock_region(img: Seq<u8>) -> Seq<u8> {
    img.subrange(SUPERBLOCK_OFFSET as int, SUPERBLOCK_OFFSET + SUPERBLOCK_SIZE)
}

/// Whether an image has a valid header whose root node decodes to a directory.
pub open spec fn image_opens(img: Seq<u8>) -> bool {
    &&& img.len() >= SUPERBLOCK_OFFSET + SUPERBLOCK_SIZE
    &&& superblock_valid(superblock_region(img))
    &&& read_inode_spec(
        superblock_of(superblock_region(img)),
        img,
        superblock_of(superblock_region(img)).root_nid,
    ) matches Ok(root)
    &&& kind_of_mode(root.mode as int) == NodeKind::Directory
}

/// An opened image: the byte source and its decoded superblock.
pub struct EroFS<I: Image> {
    image: I,
    sb: SuperBlock,
}

impl<I: Image> EroFS<I> {
    pub closed spec fn spec_image(&self) -> Seq<u8> {
        self.image.bytes()
    }

    pub closed spec fn spec_superblock(&self) -> SuperBlock {
        self.sb
    }

    pub open spec fn wf(&self) -> bool {
        &&& self.spec_superblock().wf()
        &&& self.spec_image().len() <= usize::MAX
    }

    /// Opens an image by decoding its superblock and checking that the root
    /// node decodes to a directory.
    pub fn new(image: I) -> (r: Result<Self, Error>)
        ensures
            r is Ok <==> image_opens(image.bytes()),
            r matches Ok(fs) ==> {
                &&& fs.wf()
                &&& fs.spec_image() == image.bytes()
                &&& fs.spec_superblock() == superblock_of(superblock_region(image.bytes()))
            },
            r matches Err(e) ==> e == (if image.bytes().len() < SUPERBLOCK_OFFSET + SUPERBLOCK_SIZE {
                Error::Truncated
            } else {
                Error::MalformedImage
            }),
    {
        if image.len() < (SUPERBLOCK_OFFSET + SUPERBLOCK_SIZE) as u64 {
            return Err(Error::Truncated);
        }
        let sb = match image.get(SUPERBLOCK_OFFSET, SUPERBLOCK_OFFSET + SUPERBLOCK_SIZE) {
            Some(s) => decode_superblock(s),
            None => Err(Error::Truncated),
        };
        match sb {
            Ok(sb) => {
                let fs = EroFS { image, sb };
                match fs.read_inode(sb.root_nid) {
                    Ok(root) => if root.is_dir() {
                        Ok(fs)
                    } else {
                        Err(Error::MalformedImage)
                    },
                    Err(_) => Err(Error::MalformedImage),
                }
            },
            Err(e) => Err(e),
        }
    }

    pub fn superblock(&self) -> (r: &SuperBlock)
        ensures
            *r == self.spec_superblock(),
    {
        &self.sb
    }

    pub fn image(&self) -> (r: &I)
        ensures
            r.bytes() == self.spec_image(),
    {
        &self.image
    }

    pub fn block_size(&self) -> (r: u64)
        ensures
            r == self.spec_superblock().block_size,
    {
        self.sb.block_size
    }

    /// Decodes the inode of node `nid`.
    pub fn read_inode(&self, nid: u64) -> (r: Result<Inode, Error>)
        requires
            self.wf(),
        ensures
            r == read_inode_spec(self.spec_superblock(), self.spec_image(), nid),
    {
        let img_len = self.image.len();
        let bs = self.sb.block_size;
        let meta = self.sb.meta_blkaddr as u64;
        assert(meta * bs <= 4294967295 * 65536) by (nonlinear_arith)
            requires
                meta <= 4294967295,
                bs <= 65536,
        ;
        let base = meta * bs;
        if base > img_len || nid > (img_len - base) / 32 {
            return Err(Error::InvalidNodeId);
        }
        let pos = base + nid * 32;
        if 32 > img_len - pos {
            return Err(Error::InvalidNodeId);
        }
        let head = match self.image.get(pos as usize, (pos + 32) as usize) {
            Some(h) => h,
            None => return Err(Error::InvalidNodeId),
        };
        let fmt = crate::bytes_le::read_u16(head, 0);
        assert(head@[0] == self.image.bytes()[pos as int]);
        assert(head@[1] == self.image.bytes()[pos + 1]);
        let size: u64 = if fmt % 2 == 1 {
            64
        } else {
            32
        };
        if size > img_len - pos {
            return Err(Error::Truncated);
        }
        match self.image.get(pos as usize, (pos + size) as usize) {
            Some(h) => decode_inode(&self.sb, nid, pos, h),
            None => Err(Error::Truncated),
        }
    }

    /// Translates logical offset `o` of an inode into the extent holding it.
    pub fn locate(&self, ino: &Inode, o: u64) -> (r: Result<Extent, Error>)
        requires
            self.wf(),
        ensures
            r == locate_spec(self.spec_superblock(), *ino, self.spec_image(), o as int),
    {
        locate(&self.sb, ino, &self.image, o)
    }

    /// The bytes an extent located in this image stands for.
    pub fn read_extent(&self, e: &Extent) -> (r: Result<Vec<u8>, Error>)
        ensures
            r matches Ok(v) ==> v@ == extent_content(self.spec_image(), *e),
            r is Err ==> r == Err::<Vec<u8>, Error>(Error::Truncated),
            (match *e {
                Extent::Hole { .. } => true,
                Extent::Mapped { pos, len } => pos + len <= self.spec_image().len(),
                Extent::Inline { pos, len } => pos + len <= self.spec_image().len(),
            }) ==> r is Ok,
    {
        let (pos, len) = match *e {
            Extent::Hole { len } => {
                let mut v: Vec<u8> = Vec::new();
                let mut i: u64 = 0;
                while i < len
                    invariant
                        i <= len,
                        v@ == Seq::new(i as nat, |k: int| 0u8),
                    decreases len - i,
                {
                    v.push(0u8);
                    i = i + 1;
                    assert(v@ =~= Seq::new(i as nat, |k: int| 0u8));
                }
                return Ok(v);
            },
            Extent::Mapped { pos, len } => (pos, len),
            Extent::Inline { pos, len } => (pos, len),
        };
        let img_len = self.image.len();
        if pos > img_len || len > img_len - pos {
            return Err(Error::Truncated);
        }
        match self.image.get(pos as usize, (pos + len) as usize) {
            Some(s) => Ok(vstd::slice::slice_to_vec(s)),
            None => Err(Error::Truncated),
        }
    }

    /// The file data from logical offset `o` to the end of its extent.
    pub fn read_data(&self, ino: &Inode, o: u64) -> (r: Result<Vec<u8>, Error>)
        requires
            self.wf(),
        ensures
            r matches Ok(v) ==> data_at(self.spec_superblock(), *ino, self.spec_image(), o as int)
                == Ok::<Seq<u8>, Error>(v@),
            r matches Err(e) ==> data_at(self.spec_superblock(), *ino, self.spec_image(), o as int)
                == Err::<Seq<u8>, Error>(e),
    {
        match self.locate(ino, o) {
            Ok(e) => {
                proof {
                    lemma_extent_sources(self.spec_superblock(), *ino, self.spec_image(), o as int);
                }
                self.read_extent(&e)
            },
            Err(err) => Err(err),
        }
    }
    /// Lists a directory inode, block by block, in on-disk order.
    pub fn read_dir(&self, ino: &Inode) -> (r: Result<Vec<Result<DirEntry, Error>>, Error>)
        requires
            self.wf(),
        ensures
            r matches Ok(v) ==> dir_listing(self.spec_superblock(), *ino, self.spec_image())
                == Ok::<Seq<Result<EntryModel, Error>>, Error>(entry_views(v@)),
            r matches Err(e) ==> dir_listing(self.spec_superblock(), *ino, self.spec_image())
                == Err::<Seq<Result<EntryModel, Error>>, Error>(e),
    {
        if !ino.is_dir() {
            return Err(Error::NotADirectory);
        }
        let ghost sb = self.spec_superblock();
        let ghost img = self.spec_image();
        let bs = self.sb.block_size;
        let mut out: Vec<Result<DirEntry, Error>> = Vec::new();
        let mut o: u64 = 0;
        assert(entry_views(out@) =~= seq![]);
        assert(prepend(seq![], listing_from(sb, *ino, img, 0)) == listing_from(sb, *ino, img, 0));
        while o < ino.size
            invariant
                self.wf(),
                sb == self.spec_superblock(),
                img == self.spec_image(),
                bs == sb.block_size,
                kind_of_mode(ino.mode as int) == NodeKind::Directory,
                o <= ino.size,
                listing(sb, *ino, img) == prepend(entry_views(out@), listing_from(sb, *ino, img, o as int)),
            decreases ino.size - o,
        {
            let b = match self.read_data(ino, o) {
                Ok(b) => b,
                Err(e) => {
                    assert(listing_from(sb, *ino, img, o as int) == Err::<
                        Seq<Result<EntryModel, Error>>,
                        Error,
                    >(e));
                    assert(listing(sb, *ino, img) == Err::<Seq<Result<EntryModel, Error>>, Error>(e));
                    return Err(e);
                },
            };
            let mut es = parse_dir_block(b.as_slice());
            let ghost before = out@;
            let ghost es_view = es@;
            out.append(&mut es);
            assert(entry_views(es_view) =~= block_entries(b@));
            assert(entry_views(out@) =~= entry_views(before) + entry_views(es_view));
            let next: u64 = if bs > ino.size - o {
                ino.size
            } else {
                o + bs
            };
            assert(listing_from(sb, *ino, img, next as int) == listing_from(sb, *ino, img, o + bs));
            proof {
                if let Ok(rest) = listing_from(sb, *ino, img, o + bs) {
                    assert(entry_views(out@) + rest =~= entry_views(before) + (block_entries(b@)
                        + rest));
                }
            }
            o = next;
        }
        assert(entry_views(out@) + seq![] =~= entry_views(out@));
        Ok(out)
    }

    /// Finds the child named `name` of directory node `nid`.
    pub fn lookup(&self, nid: u64, name: &[u8]) -> (r: Result<u64, Error>)
        requires
            self.wf(),
        ensures
            r == lookup_spec(self.spec_superblock(), self.spec_image(), nid, name@),
    {
        let ino = match self.read_inode(nid) {
            Ok(i) => i,
            Err(e) => return Err(e),
        };
        let entries = match self.read_dir(&ino) {
            Ok(v) => v,
            Err(e) => return Err(e),
        };
        let ghost l = entry_views(entries@);
        let mut i: usize = 0;
        while i < entries.len()
            invariant
                read_inode_spec(self.spec_superblock(), self.spec_image(), nid) == Ok::<Inode, Error>(ino),
                dir_listing(self.spec_superblock(), ino, self.spec_image()) == Ok::<
                    Seq<Result<EntryModel, Error>>,
                    Error,
                >(l),
                l == entry_views(entries@),
                i <= entries@.len(),
                find_entry(l, name@, 0) == find_entry(l, name@, i as int),
            decreases entries@.len() - i,
        {
            assert(l[i as int] == entry_result_view(entries@[i as int]));
            match &entries[i] {
                Ok(e) => {
                    if bytes_eq(e.name.as_slice(), name) {
                        assert(l[i as int] == Ok::<EntryModel, Error>(e@));
                        assert(e@.1 == name@);
                        assert(find_entry(l, name@, i as int) == Some(e.nid));
                        return Ok(e.nid);
                    }
                },
                Err(_) => {},
            }
            i = i + 1;
        }
        Err(Error::NotFound)
    }

    /// Resolves `path`, relative to directory node `nid`, to a node id.
    pub fn resolve_from(&self, nid: u64, path: &str) -> (r: Result<u64, Error>)
        requires
            self.wf(),
        ensures
            r == walk_path(
                self.spec_superblock(),
                self.spec_image(),
                nid,
                components(path.spec_bytes()),
            ),
    {
        let comps = split_path(path.as_bytes());
        let ghost all = views_of(comps@);
        let mut cur = nid;
        let mut i: usize = 0;
        assert(all.skip(0) =~= all);
        while i < comps.len()
            invariant
                self.wf(),
                all == views_of(comps@),
                all == components(path.spec_bytes()),
                all.len() == comps@.len(),
                i <= comps@.len(),
                walk_path(self.spec_superblock(), self.spec_image(), nid, all) == walk_path(
                    self.spec_superblock(),
                    self.spec_image(),
                    cur,
                    all.skip(i as int),
                ),
            decreases comps@.len() - i,
        {
            assert(all.skip(i as int)[0] == comps@[i as int]@);
            assert(all.skip(i as int).drop_first() =~= all.skip(i + 1));
            match self.lookup(cur, comps[i].as_slice()) {
                Ok(c) => cur = c,
                Err(e) => {
                    assert(walk_path(self.spec_superblock(), self.spec_image(), cur, all.skip(i as int)) == Err::<u64, Error>(e));
                    return Err(e);
                },
            }
            i = i + 1;
        }
        assert(all.skip(i as int) =~= seq![]);
        Ok(cur)
    }

    /// Resolves an absolute path to a node id, starting at the root directory.
    pub fn resolve(&self, path: &str) -> (r: Result<u64, Error>)
        requires
            self.wf(),
        ensures
            r == walk_path(
                self.spec_superblock(),
                self.spec_image(),
                self.spec_superblock().root_nid,
                components(path.spec_bytes()),
            ),
    {
        self.resolve_from(self.sb.root_nid, path)
    }
}

/// Decoding depends on the superblock, the image bytes and the node id alone:
/// two decodings of one node of one image give the same inode.
pub proof fn lemma_read_inode_deterministic<I: Image>(a: &EroFS<I>, b: &EroFS<I>, nid: u64)
    requires
        a.spec_superblock() == b.spec_superblock(),
        a.spec_image() == b.spec_image(),
    ensures
        read_inode_spec(a.spec_superblock(), a.spec_image(), nid) == read_inode_spec(
            b.spec_superblock(),
            b.spec_image(),
            nid,
        ),
{
}

} // verus!
