//! Read-only decoding of EROFS filesystem images: superblock and inode
//! decoding, directory listing, path resolution, tree walks and file reading
//! over the plain, inline-tail and chunk-indexed data layouts.

pub mod bytes_le;
pub mod dirent;
pub mod error;
pub mod file;
pub mod filesystem;
pub mod image;
pub mod inode;
pub mod locate;
pub mod path;
pub mod superblock;
pub mod walkdir;
