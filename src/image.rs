use vstd::prelude::*;

verus! {

/// A read-only source of image bytes.
pub trait Image {
    /// The whole image as a byte sequence.
    spec fn bytes(&self) -> Seq<u8>;

    /// The bytes `start..end`, or `None` where the range leaves the image.
    fn get(&self, start: usize, end: usize) -> (r: Option<&[u8]>)
        ensures
            r is Some <==> start <= end <= self.bytes().len(),
            r matches Some(s) ==> s@ == self.bytes().subrange(start as int, end as int),
    ;

    /// Total length of the image in bytes.
    fn len(&self) -> (r: u64)
        ensures
            r as int == self.bytes().len(),
            r <= usize::MAX,
    ;

    /// Whether the image holds no byte at all.
    fn is_empty(&self) -> (r: bool)
        ensures
            r <==> self.bytes().len() == 0,
    ;
}

/// An image held in memory as a borrowed byte slice.
#[derive(Debug)]
pub struct SliceImage<'a>(&'a [u8]);

impl<'a> SliceImage<'a> {
    pub fn new(data: &'a [u8]) -> (r: Self)
        ensures
            r.bytes() == data@,
    {
        SliceImage(data)
    }
}

impl<'a> Image for SliceImage<'a> {
    closed spec fn bytes(&self) -> Seq<u8> {
        self.0@
    }

    fn get(&self, start: usize, end: usize) -> (r: Option<&[u8]>) {
        if start <= end && end <= self.0.len() {
            Some(vstd::slice::slice_subrange(self.0, start, end))
        } else {
            None
        }
    }

    fn len(&self) -> (r: u64) {
        self.0.len() as u64
    }

    fn is_empty(&self) -> (r: bool) {
        self.0.len() == 0
    }
}

} // verus!

verus! {

/// Reads the little-endian 32-bit word at byte `pos` of an image.
pub fn read_u32_at<I: Image>(img: &I, pos: u64) -> (r: Option<u32>)
    ensures
        r is Some <==> pos + 4 <= img.bytes().len(),
        r matches Some(v) ==> v as int == crate::bytes_le::le32(img.bytes(), pos as int),
{
    let n = img.len();
    if pos > n || 4 > n - pos {
        return None;
    }
    let s = img.get(pos as usize, (pos + 4) as usize);
    match s {
        Some(s) => {
            let v = crate::bytes_le::read_u32(s, 0);
            assert(s@[0] == img.bytes()[pos as int]);
            assert(s@[1] == img.bytes()[pos + 1]);
            assert(s@[2] == img.bytes()[pos + 2]);
            assert(s@[3] == img.bytes()[pos + 3]);
            Some(v)
        },
        None => None,
    }
}

} // verus!
