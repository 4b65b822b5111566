//! The decisions of the copy orchestrator and its per-kind handlers.
//!
//! Each handler observes the destination with a non-dereferencing probe and
//! picks one step; the caller performs the step, syncs what it changed, and
//! reports further observations where a step asks for them.
use vstd::prelude::*;
use crate::kinds::{CopyError, FileKind, Probe};
use crate::bytes::same_bytes;
use vstd::slice::slice_to_vec;

verus! {

/// The handler that copies a source node of a given kind.
#[derive(Clone, Copy, Debug, PartialEq, Eq, Structural)]
pub enum Handler {
    Directory,
    RegularFile,
    Symlink,
}

pub open spec fn handler_spec(kind: FileKind) -> Option<Handler> {
    match kind {
        FileKind::Directory => Some(Handler::Directory),
        FileKind::RegularFile => Some(Handler::RegularFile),
        FileKind::Symlink => Some(Handler::Symlink),
        FileKind::Other => None,
    }
}

/// Picks the handler for a source node; a node of any other kind is invalid
/// input.
pub fn dispatch(kind: FileKind) -> (r: Result<Handler, CopyError>)
    ensures
        handler_spec(kind) is Some ==> r == Ok::<Handler, CopyError>(handler_spec(kind)->0),
        handler_spec(kind) is None ==> r == Err::<Handler, CopyError>(CopyError::InvalidSourceKind(kind)),
{
    match kind {
        FileKind::Directory => Ok(Handler::Directory),
        FileKind::RegularFile => Ok(Handler::RegularFile),
        FileKind::Symlink => Ok(Handler::Symlink),
        FileKind::Other => Err(CopyError::InvalidSourceKind(kind)),
    }
}

/// Picks the handler for a source node under the "skip invalid file types"
/// policy: with `skip_invalid`, a node of an invalid kind is skipped
/// (`Ok(None)`) instead of failing the run.
pub fn dispatch_with_policy(kind: FileKind, skip_invalid: bool) -> (r: Result<Option<Handler>, CopyError>)
    ensures
        handler_spec(kind) is Some ==> r == Ok::<Option<Handler>, CopyError>(handler_spec(kind)),
        handler_spec(kind) is None && skip_invalid ==> r == Ok::<Option<Handler>, CopyError>(None),
        handler_spec(kind) is None && !skip_invalid
            ==> r == Err::<Option<Handler>, CopyError>(CopyError::InvalidSourceKind(kind)),
{
    match dispatch(kind) {
        Ok(h) => Ok(Some(h)),
        Err(e) => if skip_invalid {
            Ok(None)
        } else {
            Err(e)
        },
    }
}

/// Whether the orchestrator goes on into a node's children after handling it.
pub fn descends(handler: Handler, recurse: bool) -> (r: bool)
    ensures
        r == (recurse && handler == Handler::Directory),
{
    recurse && matches!(handler, Handler::Directory)
}

/// What happens at the destination of a source directory.
#[derive(Clone, Copy, Debug, PartialEq, Eq, Structural)]
pub enum DirStep {
    /// Create the directory and sync it.
    Create,
    /// A directory is already there: merge into it.
    Keep,
    /// Remove the entry in the way, then create the directory.
    RemoveThenCreate,
    /// Rename the entry in the way aside, then create the directory.
    BackupThenCreate,
}

pub open spec fn dir_step_spec(dst: Probe, overwrite: bool) -> DirStep {
    match dst {
        Probe::Missing => DirStep::Create,
        Probe::Found(FileKind::Directory) => DirStep::Keep,
        Probe::Found(_) => if overwrite {
            DirStep::RemoveThenCreate
        } else {
            DirStep::BackupThenCreate
        },
    }
}

/// Decides what the directory handler does at the destination.
pub fn dir_step(dst: Probe, overwrite: bool) -> (r: DirStep)
    ensures
        r == dir_step_spec(dst, overwrite),
{
    match dst {
        Probe::Missing => DirStep::Create,
        Probe::Found(FileKind::Directory) => DirStep::Keep,
        Probe::Found(_) => if overwrite {
            DirStep::RemoveThenCreate
        } else {
            DirStep::BackupThenCreate
        },
    }
}

/// What happens at a content-store path before a file's content is linked
/// from it.
#[derive(Clone, Copy, Debug, PartialEq, Eq, Structural)]
pub enum StoreStep {
    /// The entry is present: use it as it is, writing nothing.
    Reuse,
    /// The entry is missing: reflink or copy the source into it.
    Populate,
}

pub open spec fn store_step_spec(entry: Probe) -> Result<StoreStep, CopyError> {
    match entry {
        Probe::Missing => Ok(StoreStep::Populate),
        Probe::Found(FileKind::RegularFile) => Ok(StoreStep::Reuse),
        Probe::Found(k) => Err(CopyError::StoreEntryNotFile(k)),
    }
}

/// Decides what to do at a store path; anything there but a regular file is
/// an inconsistency of the store.
pub fn store_step(entry: Probe) -> (r: Result<StoreStep, CopyError>)
    ensures
        r == store_step_spec(entry),
{
    match entry {
        Probe::Missing => Ok(StoreStep::Populate),
        Probe::Found(FileKind::RegularFile) => Ok(StoreStep::Reuse),
        Probe::Found(k) => Err(CopyError::StoreEntryNotFile(k)),
    }
}

/// How a missing store entry gets its content.
#[derive(Clone, Copy, Debug, PartialEq, Eq, Structural)]
pub enum PopulateStep {
    /// The reflink succeeded: sync the new entry.
    Sync,
    /// The reflink failed: copy the bytes, sync, re-hash the copy and check it.
    CopyThenCheck,
}

/// Decides how to go on after trying to reflink a source into the store.
pub fn populate_step(reflinked: bool) -> (r: PopulateStep)
    ensures
        r == (if reflinked { PopulateStep::Sync } else { PopulateStep::CopyThenCheck }),
{
    if reflinked {
        PopulateStep::Sync
    } else {
        PopulateStep::CopyThenCheck
    }
}

/// Accepts a freshly copied store entry only if its hash is the one it was
/// copied under.
pub fn check_copy(expected: &[u8], copied: &[u8]) -> (r: Result<(), CopyError>)
    ensures
        r is Ok <==> copied@ == expected@,
        r is Err ==> r == Err::<(), CopyError>(CopyError::ContentMismatch),
{
    if same_bytes(expected, copied) {
        Ok(())
    } else {
        Err(CopyError::ContentMismatch)
    }
}

/// What happens at the destination of a regular file.
#[derive(Clone, Copy, Debug, PartialEq, Eq, Structural)]
pub enum FileStep {
    /// Reflink the store entry to the destination and sync it.
    Link,
    /// The destination already holds the content: leave it.
    Keep,
    /// Remove the entry in the way, then link.
    RemoveThenLink,
    /// A regular file of the same length is there: hash it, then settle.
    CompareHash,
    /// Rename the entry in the way aside, then link.
    BackupThenLink,
}

pub open spec fn file_step_spec(dst: Probe, overwrite: bool, same_len: bool) -> FileStep {
    match dst {
        Probe::Missing => FileStep::Link,
        Probe::Found(k) => if overwrite && k != FileKind::Directory {
            FileStep::RemoveThenLink
        } else if k == FileKind::RegularFile && same_len {
            FileStep::CompareHash
        } else {
            FileStep::BackupThenLink
        },
    }
}

/// Decides what the file handler does at the destination; `same_len` says
/// whether the entry there has the source's length.
pub fn file_step(dst: Probe, overwrite: bool, same_len: bool) -> (r: FileStep)
    ensures
        r == file_step_spec(dst, overwrite, same_len),
{
    match dst {
        Probe::Missing => FileStep::Link,
        Probe::Found(k) => {
            let is_dir = matches!(k, FileKind::Directory);
            if overwrite && !is_dir {
                FileStep::RemoveThenLink
            } else if matches!(k, FileKind::RegularFile) && same_len {
                FileStep::CompareHash
            } else {
                FileStep::BackupThenLink
            }
        },
    }
}

pub open spec fn settle_file_spec(src_hash: Seq<u8>, dst_hash: Seq<u8>) -> FileStep {
    if src_hash == dst_hash {
        FileStep::Keep
    } else {
        FileStep::BackupThenLink
    }
}

/// Settles a `CompareHash` step: an equal hash is taken as a destination that
/// an earlier run already linked.
pub fn settle_file(src_hash: &[u8], dst_hash: &[u8]) -> (r: FileStep)
    ensures
        r == settle_file_spec(src_hash@, dst_hash@),
{
    if same_bytes(src_hash, dst_hash) {
        FileStep::Keep
    } else {
        FileStep::BackupThenLink
    }
}

/// What happens at the destination of a symlink.
#[derive(Debug, PartialEq, Eq)]
pub enum LinkStep {
    /// Create a symlink to `target` and sync its parent directory.
    Create { target: Vec<u8> },
    /// A symlink with the same target is already there: leave it.
    Keep,
    /// Remove the entry in the way, then create a symlink to `target`.
    RemoveThenCreate { target: Vec<u8> },
    /// A symlink is there: read its target, then settle.
    CompareTarget,
    /// Rename the entry in the way aside, then create a symlink to `target`.
    BackupThenCreate { target: Vec<u8> },
}

/// The target that a step writes, if it writes one.
pub open spec fn written_target(step: LinkStep) -> Option<Seq<u8>> {
    match step {
        LinkStep::Create { target } => Some(target@),
        LinkStep::RemoveThenCreate { target } => Some(target@),
        LinkStep::BackupThenCreate { target } => Some(target@),
        _ => None,
    }
}

pub open spec fn link_step_is(step: LinkStep, dst: Probe, overwrite: bool) -> bool {
    match dst {
        Probe::Missing => step is Create,
        Probe::Found(k) => if overwrite && k != FileKind::Directory {
            step is RemoveThenCreate
        } else if k == FileKind::Symlink {
            step is CompareTarget
        } else {
            step is BackupThenCreate
        },
    }
}

/// Decides what the symlink handler does at the destination. Whatever it
/// writes is the source's target, byte for byte.
pub fn symlink_step(dst: Probe, overwrite: bool, src_target: &[u8]) -> (r: LinkStep)
    ensures
        link_step_is(r, dst, overwrite),
        r is CompareTarget || written_target(r) == Some(src_target@),
{
    let target = slice_to_vec(src_target);
    match dst {
        Probe::Missing => LinkStep::Create { target },
        Probe::Found(k) => {
            let is_dir = matches!(k, FileKind::Directory);
            if overwrite && !is_dir {
                LinkStep::RemoveThenCreate { target }
            } else if matches!(k, FileKind::Symlink) {
                LinkStep::CompareTarget
            } else {
                LinkStep::BackupThenCreate { target }
            }
        },
    }
}

pub open spec fn settle_link_is(step: LinkStep, src_target: Seq<u8>, dst_target: Seq<u8>) -> bool {
    if src_target == dst_target {
        step is Keep
    } else {
        step is BackupThenCreate && written_target(step) == Some(src_target)
    }
}

/// Settles a `CompareTarget` step: an existing symlink with the same target is
/// kept, any other is renamed aside.
pub fn settle_symlink(src_target: &[u8], dst_target: &[u8]) -> (r: LinkStep)
    ensures
        settle_link_is(r, src_target@, dst_target@),
{
    if same_bytes(src_target, dst_target) {
        LinkStep::Keep
    } else {
        LinkStep::BackupThenCreate { target: slice_to_vec(src_target) }
    }
}

/// Where the durability sync after a change of an entry goes.
#[derive(Clone, Copy, Debug, PartialEq, Eq, Structural)]
pub enum SyncTarget {
    /// Sync the entry itself.
    Entry,
    /// Sync the directory that holds it: a symlink cannot be flushed itself.
    Parent,
}

/// Picks where to sync after changing an entry of the given kind.
pub fn sync_target(kind: FileKind) -> (r: SyncTarget)
    ensures
        r == (if kind == FileKind::Symlink { SyncTarget::Parent } else { SyncTarget::Entry }),
{
    if matches!(kind, FileKind::Symlink) {
        SyncTarget::Parent
    } else {
        SyncTarget::Entry
    }
}

/// How metadata goes from a source node to its destination.
#[derive(Clone, Copy, Debug, PartialEq, Eq, Structural)]
pub struct MetadataPlan {
    /// Copy the permission bits (never for symlinks).
    pub set_permissions: bool,
    /// Where to sync once the timestamps are set.
    pub sync: SyncTarget,
}

pub open spec fn same_kind_spec(src: FileKind, dst: FileKind) -> bool {
    (src == FileKind::Directory ==> dst == FileKind::Directory)
    && (src == FileKind::RegularFile ==> dst == FileKind::RegularFile)
    && (src == FileKind::Symlink ==> dst == FileKind::Symlink)
}

/// Plans the replication of permissions and timestamps; a destination of
/// another kind than its source is an error. Timestamps are always set,
/// without following a symlink.
pub fn metadata_plan(src: FileKind, dst: FileKind) -> (r: Result<MetadataPlan, CopyError>)
    ensures
        r is Ok <==> same_kind_spec(src, dst),
        r is Err ==> r == Err::<MetadataPlan, CopyError>(CopyError::KindMismatch(src, dst)),
        r is Ok ==> r->Ok_0.set_permissions == (src != FileKind::Symlink)
            && r->Ok_0.sync == (if dst == FileKind::Symlink { SyncTarget::Parent } else { SyncTarget::Entry }),
{
    let mismatch = matches!(src, FileKind::Directory) && !matches!(dst, FileKind::Directory)
        || matches!(src, FileKind::RegularFile) && !matches!(dst, FileKind::RegularFile)
        || matches!(src, FileKind::Symlink) && !matches!(dst, FileKind::Symlink);
    if mismatch {
        return Err(CopyError::KindMismatch(src, dst));
    }
    Ok(MetadataPlan { set_permissions: !matches!(src, FileKind::Symlink), sync: sync_target(dst) })
}

/// Running a copy again over what an earlier run produced, without
/// "overwrite", changes nothing: a directory is merged into, the store entry is
/// reused without a write, a regular file of the same length and hash is kept,
/// and a symlink with the same target is kept.
pub proof fn lemma_rerun_writes_nothing(hash: Seq<u8>, target: Seq<u8>, link: LinkStep, settled: LinkStep)
    requires
        link_step_is(link, Probe::Found(FileKind::Symlink), false),
        settle_link_is(settled, target, target),
    ensures
        dir_step_spec(Probe::Found(FileKind::Directory), false) == DirStep::Keep,
        store_step_spec(Probe::Found(FileKind::RegularFile)) == Ok::<StoreStep, CopyError>(StoreStep::Reuse),
        file_step_spec(Probe::Found(FileKind::RegularFile), false, true) == FileStep::CompareHash,
        settle_file_spec(hash, hash) == FileStep::Keep,
        link is CompareTarget,
        settled is Keep,
{
}

} // verus!
