//! What a non-dereferencing probe of a path reports, and the library's errors.
use vstd::prelude::*;

verus! {

/// The kind of an on-disk entry, as a metadata read that does not follow
/// symlinks reports it.
#[derive(Clone, Copy, Debug, PartialEq, Eq, Structural)]
pub enum FileKind {
    Directory,
    RegularFile,
    Symlink,
    /// A device, FIFO, socket or anything else that cannot be copied.
    Other,
}

/// The outcome of probing a path without following symlinks.
#[derive(Clone, Copy, Debug, PartialEq, Eq, Structural)]
pub enum Probe {
    /// Nothing exists at the path.
    Missing,
    /// An entry of the given kind exists at the path.
    Found(FileKind),
}

/// The failures that the copy engine decides on by itself.
#[derive(Clone, Copy, Debug, PartialEq, Eq, Structural)]
pub enum CopyError {
    /// The source is neither a directory, a regular file nor a symlink.
    InvalidSourceKind(FileKind),
    /// A path in the content store exists but is not a regular file.
    StoreEntryNotFile(FileKind),
    /// A copied store entry hashes differently from its source.
    ContentMismatch,
    /// The destination ended up a different kind than its source.
    KindMismatch(FileKind, FileKind),
    /// The backup suffix is empty.
    EmptySuffix,
}

impl CopyError {
    /// Whether the error stands for bad input, as opposed to a failed
    /// integrity check of data written by the engine.
    pub fn is_invalid_input(&self) -> (r: bool)
        ensures
            r == !(*self is ContentMismatch),
    {
        match self {
            CopyError::ContentMismatch => false,
            _ => true,
        }
    }
}

} // verus!
