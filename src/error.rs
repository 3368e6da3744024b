use vstd::prelude::*;

verus! {

/// Failures reported while decoding an image.
#[derive(Debug, Clone, Copy, PartialEq, Eq, Structural)]
pub enum Error {
    /// The byte source cannot supply a required range.
    Truncated,
    /// The superblock signature or a structural invariant is violated.
    MalformedImage,
    /// A node id does not name an inode inside the image.
    InvalidNodeId,
    /// An unknown or unimplemented layout or inode version tag.
    UnsupportedLayout,
    /// A single directory record cannot be parsed.
    CorruptEntry,
    /// A path component has no matching directory entry.
    NotFound,
    /// An intermediate path component is not a directory.
    NotADirectory,
    /// A logical offset lies at or beyond the end of the data.
    OutOfBounds,
}

} // verus!
