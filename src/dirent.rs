use vstd::prelude::*;
use crate::bytes_le::{le16, le64, read_u16, read_u64};
use crate::error::Error;

verus! {

/// Size of one on-disk directory entry header.
pub const DIRENT_SIZE: usize = 12;

/// The file type recorded in a directory entry.
#[derive(Debug, Clone, Copy, PartialEq, Eq, Structural)]
pub enum FileType {
    Unknown,
    Regular,
    Directory,
    CharDevice,
    BlockDevice,
    Fifo,
    Socket,
    Symlink,
}

impl FileType {
    pub fn is_dir(&self) -> (r: bool)
        ensures
            r <==> *self == FileType::Directory,
    {
        match self {
            FileType::Directory => true,
            _ => false,
        }
    }
}

/// The file type that an on-disk tag names, if any.
pub open spec fn file_type_of(tag: u8) -> Option<FileType> {
    if tag == 0 {
        Some(FileType::Unknown)
    } else if tag == 1 {
        Some(FileType::Regular)
    } else if tag == 2 {
        Some(FileType::Directory)
    } else if tag == 3 {
        Some(FileType::CharDevice)
    } else if tag == 4 {
        Some(FileType::BlockDevice)
    } else if tag == 5 {
        Some(FileType::Fifo)
    } else if tag == 6 {
        Some(FileType::Socket)
    } else if tag == 7 {
        Some(FileType::Symlink)
    } else {
        None
    }
}

fn decode_file_type(tag: u8) -> (r: Option<FileType>)
    ensures
        r == file_type_of(tag),
{
    match tag {
        0 => Some(FileType::Unknown),
        1 => Some(FileType::Regular),
        2 => Some(FileType::Directory),
        3 => Some(FileType::CharDevice),
        4 => Some(FileType::BlockDevice),
        5 => Some(FileType::Fifo),
        6 => Some(FileType::Socket),
        7 => Some(FileType::Symlink),
        _ => None,
    }
}

/// One entry of a directory: a child's node id, name and file type.
#[derive(Debug, Clone, PartialEq, Eq)]
pub struct DirEntry {
    pub nid: u64,
    pub name: Vec<u8>,
    pub file_type: FileType,
}

/// What an entry holds, as plain values.
pub type EntryModel = (u64, Seq<u8>, FileType);

impl View for DirEntry {
    type V = EntryModel;

    open spec fn view(&self) -> EntryModel {
        (self.nid, self.name@, self.file_type)
    }
}

impl DirEntry {
    pub fn file_type(&self) -> (r: FileType)
        ensures
            r == self.file_type,
    {
        self.file_type
    }
}

pub open spec fn entry_result_view(r: Result<DirEntry, Error>) -> Result<EntryModel, Error> {
    match r {
        Ok(e) => Ok(e@),
        Err(err) => Err(err),
    }
}

/// End of a name that starts at `i`: the first zero byte before `end`, or `end`.
pub open spec fn name_end(b: Seq<u8>, i: int, end: int) -> int
    decreases end - i,
{
    if i >= end {
        end
    } else if b[i] == 0 {
        i
    } else {
        name_end(b, i + 1, end)
    }
}

/// Name offset stored in the header of entry `i`.
pub open spec fn name_off(b: Seq<u8>, i: int) -> int {
    le16(b, i * 12 + 8)
}

/// Number of entries a block's first header announces.
pub open spec fn entry_count(b: Seq<u8>) -> int {
    name_off(b, 0) / 12
}

/// Whether the first header of a block describes a usable header array.
pub open spec fn block_header_ok(b: Seq<u8>) -> bool {
    &&& b.len() >= DIRENT_SIZE
    &&& name_off(b, 0) >= 12
    &&& name_off(b, 0) % 12 == 0
    &&& name_off(b, 0) <= b.len()
}

/// Entry `i` of a block whose header array holds `count` entries.
pub open spec fn entry_spec(b: Seq<u8>, i: int, count: int) -> Result<EntryModel, Error> {
    let off = name_off(b, i);
    let end = if i + 1 < count {
        name_off(b, i + 1)
    } else {
        b.len() as int
    };
    let tag = b[i * 12 + 10];
    if off < count * 12 || off > end || end > b.len() || file_type_of(tag) is None {
        Err(Error::CorruptEntry)
    } else {
        let nend = if i + 1 < count {
            end
        } else {
            name_end(b, off, end)
        };
        Ok((le64(b, i * 12) as u64, b.subrange(off, nend), file_type_of(tag).unwrap()))
    }
}

/// The entries that one directory block yields, in on-disk order; a block
/// whose header array is unusable yields a single `CorruptEntry`.
pub open spec fn block_entries(b: Seq<u8>) -> Seq<Result<EntryModel, Error>> {
    if !block_header_ok(b) {
        seq![Err(Error::CorruptEntry)]
    } else {
        Seq::new(entry_count(b) as nat, |i: int| entry_spec(b, i, entry_count(b)))
    }
}

fn find_name_end(b: &[u8], off: usize, end: usize) -> (r: usize)
    requires
        off <= end <= b@.len(),
    ensures
        r as int == name_end(b@, off as int, end as int),
        off <= r <= end,
{
    let mut j = off;
    while j < end && b[j] != 0
        invariant
            off <= j <= end,
            end <= b@.len(),
            name_end(b@, off as int, end as int) == name_end(b@, j as int, end as int),
        decreases end - j,
    {
        j = j + 1;
    }
    j
}

fn parse_entry(b: &[u8], i: usize, count: usize) -> (r: Result<DirEntry, Error>)
    requires
        i < count,
        count * 12 <= b@.len(),
    ensures
        entry_result_view(r) == entry_spec(b@, i as int, count as int),
{
    assert(b@.len() == b.len());
    assert((i + 1) * 12 <= count * 12) by (nonlinear_arith)
        requires
            i < count,
    ;
    assert(i + 1 < count ==> (i + 2) * 12 <= count * 12) by (nonlinear_arith);
    let off = read_u16(b, i * 12 + 8) as usize;
    let end = if i + 1 < count {
        read_u16(b, (i + 1) * 12 + 8) as usize
    } else {
        b.len()
    };
    let tag = b[i * 12 + 10];
    let ft = decode_file_type(tag);
    if off < count * 12 || off > end || end > b.len() || ft.is_none() {
        return Err(Error::CorruptEntry);
    }
    let nend = if i + 1 < count {
        end
    } else {
        find_name_end(b, off, end)
    };
    let name = vstd::slice::slice_to_vec(vstd::slice::slice_subrange(b, off, nend));
    let nid = read_u64(b, i * 12);
    Ok(DirEntry { nid, name, file_type: ft.unwrap() })
}

/// Parses the filled bytes of one directory block.
pub fn parse_dir_block(b: &[u8]) -> (r: Vec<Result<DirEntry, Error>>)
    ensures
        r@.len() == block_entries(b@).len(),
        forall|i: int|
            0 <= i < r@.len() ==> #[trigger] entry_result_view(r@[i]) == block_entries(b@)[i],
{
    let mut out: Vec<Result<DirEntry, Error>> = Vec::new();
    if b.len() < DIRENT_SIZE {
        out.push(Err(Error::CorruptEntry));
        return out;
    }
    let first = read_u16(b, 8) as usize;
    if first < 12 || first % 12 != 0 || first > b.len() {
        out.push(Err(Error::CorruptEntry));
        return out;
    }
    let count = first / 12;
    let mut i: usize = 0;
    while i < count
        invariant
            count as int == entry_count(b@),
            block_header_ok(b@),
            count * 12 <= b@.len(),
            i <= count,
            out@.len() == i,
            forall|k: int|
                0 <= k < i ==> #[trigger] entry_result_view(out@[k]) == entry_spec(
                    b@,
                    k,
                    count as int,
                ),
        decreases count - i,
    {
        let e = parse_entry(b, i, count);
        out.push(e);
        i = i + 1;
    }
    out
}

} // verus!
