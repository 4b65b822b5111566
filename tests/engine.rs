use cpdd::hasher::{hash_bytes, to_hex, ContentHasher, DIGEST_LEN};
use cpdd::kinds::{CopyError, FileKind, Probe};
use cpdd::paths::{
    backup_candidate, backup_renames, check_suffix, destination_path, join, store_entry_path,
};
use cpdd::plan::{
    check_copy, descends, dir_step, dispatch, dispatch_with_policy, file_step, metadata_plan,
    populate_step, settle_file, settle_symlink, store_step, symlink_step, sync_target, DirStep,
    FileStep, Handler, LinkStep, PopulateStep, StoreStep, SyncTarget,
};
use cpdd::store::mismatches;
use cpdd::walk::{Walk, WalkJob};

#[test]
fn dispatch_picks_handler_by_kind() {
    assert_eq!(dispatch(FileKind::Directory), Ok(Handler::Directory));
    assert_eq!(dispatch(FileKind::RegularFile), Ok(Handler::RegularFile));
    assert_eq!(dispatch(FileKind::Symlink), Ok(Handler::Symlink));
}

#[test]
fn other_kind_is_invalid_input_unless_skipped() {
    let err = dispatch(FileKind::Other).unwrap_err();
    assert_eq!(err, CopyError::InvalidSourceKind(FileKind::Other));
    assert!(err.is_invalid_input());
    assert_eq!(
        dispatch_with_policy(FileKind::Other, false),
        Err(CopyError::InvalidSourceKind(FileKind::Other))
    );
    assert_eq!(dispatch_with_policy(FileKind::Other, true), Ok(None));
    assert_eq!(dispatch_with_policy(FileKind::Symlink, true), Ok(Some(Handler::Symlink)));
}

#[test]
fn directory_steps() {
    assert_eq!(dir_step(Probe::Missing, false), DirStep::Create);
    assert_eq!(dir_step(Probe::Found(FileKind::Directory), true), DirStep::Keep);
    assert_eq!(dir_step(Probe::Found(FileKind::RegularFile), true), DirStep::RemoveThenCreate);
    assert_eq!(dir_step(Probe::Found(FileKind::Symlink), false), DirStep::BackupThenCreate);
}

#[test]
fn store_steps() {
    assert_eq!(store_step(Probe::Missing), Ok(StoreStep::Populate));
    assert_eq!(store_step(Probe::Found(FileKind::RegularFile)), Ok(StoreStep::Reuse));
    assert_eq!(
        store_step(Probe::Found(FileKind::Directory)),
        Err(CopyError::StoreEntryNotFile(FileKind::Directory))
    );
    assert_eq!(populate_step(true), PopulateStep::Sync);
    assert_eq!(populate_step(false), PopulateStep::CopyThenCheck);
}

#[test]
fn file_steps() {
    assert_eq!(file_step(Probe::Missing, true, false), FileStep::Link);
    assert_eq!(file_step(Probe::Found(FileKind::Symlink), true, false), FileStep::RemoveThenLink);
    assert_eq!(file_step(Probe::Found(FileKind::Directory), true, true), FileStep::BackupThenLink);
    assert_eq!(file_step(Probe::Found(FileKind::RegularFile), false, true), FileStep::CompareHash);
    assert_eq!(file_step(Probe::Found(FileKind::RegularFile), false, false), FileStep::BackupThenLink);
    assert_eq!(settle_file(b"ab12", b"ab12"), FileStep::Keep);
    assert_eq!(settle_file(b"ab12", b"ab13"), FileStep::BackupThenLink);
}

#[test]
fn symlink_target_is_copied_verbatim() {
    let target = b"../elsewhere";
    match symlink_step(Probe::Missing, false, target) {
        LinkStep::Create { target: t } => assert_eq!(t, b"../elsewhere".to_vec()),
        other => panic!("unexpected step {:?}", other),
    }
    match symlink_step(Probe::Found(FileKind::RegularFile), false, target) {
        LinkStep::BackupThenCreate { target: t } => assert_eq!(t, b"../elsewhere".to_vec()),
        other => panic!("unexpected step {:?}", other),
    }
    assert_eq!(symlink_step(Probe::Found(FileKind::Symlink), false, target), LinkStep::CompareTarget);
    assert_eq!(settle_symlink(target, b"../elsewhere"), LinkStep::Keep);
    assert_eq!(
        settle_symlink(target, b"elsewhere"),
        LinkStep::BackupThenCreate { target: b"../elsewhere".to_vec() }
    );
}

#[test]
fn metadata_and_sync() {
    let p = metadata_plan(FileKind::RegularFile, FileKind::RegularFile).unwrap();
    assert!(p.set_permissions);
    assert_eq!(p.sync, SyncTarget::Entry);
    let l = metadata_plan(FileKind::Symlink, FileKind::Symlink).unwrap();
    assert!(!l.set_permissions);
    assert_eq!(l.sync, SyncTarget::Parent);
    assert_eq!(
        metadata_plan(FileKind::Directory, FileKind::RegularFile),
        Err(CopyError::KindMismatch(FileKind::Directory, FileKind::RegularFile))
    );
    assert_eq!(sync_target(FileKind::Directory), SyncTarget::Entry);
    assert_eq!(sync_target(FileKind::Symlink), SyncTarget::Parent);
}

#[test]
fn copied_entry_must_hash_as_expected() {
    let h = hash_bytes(b"payload");
    assert_eq!(check_copy(&h, &hash_bytes(b"payload")), Ok(()));
    let err = check_copy(&h, &hash_bytes(b"pay1oad")).unwrap_err();
    assert_eq!(err, CopyError::ContentMismatch);
    assert!(!err.is_invalid_input());
}

#[test]
fn joins_paths() {
    assert_eq!(join(b"dst", b"A"), b"dst/A".to_vec());
    assert_eq!(join(b"dst/", b"A"), b"dst/A".to_vec());
    assert_eq!(join(b"", b"A"), b"A".to_vec());
    assert_eq!(join(b"dst", b"/abs"), b"/abs".to_vec());
    assert_eq!(store_entry_path(b"/store", b"00ff"), b"/store/00ff".to_vec());
}

#[test]
fn recursion_mirrors_tree() {
    let a = destination_path(b"dst", b"A");
    assert_eq!(a, b"dst/A".to_vec());
    assert!(descends(Handler::Directory, true));
    assert!(!descends(Handler::Directory, false));
    assert!(!descends(Handler::RegularFile, true));
    let f1 = destination_path(&a, b"f1");
    let b = destination_path(&a, b"B");
    let f2 = destination_path(&b, b"f2");
    assert_eq!(f1, b"dst/A/f1".to_vec());
    assert_eq!(f2, b"dst/A/B/f2".to_vec());
    assert_eq!(hash_bytes(b"one"), hash_bytes(b"one"));
}

#[test]
fn backup_chain() {
    assert_eq!(check_suffix(b""), Err(CopyError::EmptySuffix));
    assert_eq!(check_suffix(b"~"), Ok(()));
    assert_eq!(backup_candidate(b"d/x", b"~", 0), b"d/x".to_vec());
    assert_eq!(backup_candidate(b"d/x", b"~", 3), b"d/x~~~".to_vec());
    let r = backup_renames(b"d/x", b"~", 0);
    assert_eq!(r.len(), 1);
    assert_eq!((r[0].from.clone(), r[0].to.clone()), (b"d/x".to_vec(), b"d/x~".to_vec()));
    let r = backup_renames(b"d/x", b".bak", 2);
    let pairs: Vec<(Vec<u8>, Vec<u8>)> = r.iter().map(|m| (m.from.clone(), m.to.clone())).collect();
    assert_eq!(
        pairs,
        vec![
            (b"d/x.bak.bak".to_vec(), b"d/x.bak.bak.bak".to_vec()),
            (b"d/x.bak".to_vec(), b"d/x.bak.bak".to_vec()),
            (b"d/x".to_vec(), b"d/x.bak".to_vec()),
        ]
    );
}

#[test]
fn hex_rendering() {
    assert_eq!(to_hex(&[0xab, 0x01, 0x00, 0xff]), b"ab0100ff".to_vec());
    assert_eq!(to_hex(&[]), Vec::<u8>::new());
}

#[test]
fn content_hash_shape_and_streaming() {
    let whole = hash_bytes(b"hello, store");
    assert_eq!(whole.len(), 2 * DIGEST_LEN);
    assert!(whole.iter().all(|c| c.is_ascii_digit() || (b'a'..=b'f').contains(c)));
    let mut h = ContentHasher::new();
    h.update(b"hello");
    h.update(b"");
    h.update(b", store");
    assert_eq!(h.finish(), whole);
    assert_ne!(hash_bytes(b"hello, store"), hash_bytes(b"hello, stord"));
    assert_ne!(hash_bytes(b""), b"".to_vec());
    assert_eq!(hash_bytes(b"").len(), 64);
}

#[test]
fn large_input_streams_in_chunks() {
    let data: Vec<u8> = (0..100_000u32).map(|i| (i % 251) as u8).collect();
    let mut h = ContentHasher::new();
    for chunk in data.chunks(4096) {
        h.update(chunk);
    }
    assert_eq!(h.finish(), hash_bytes(&data));
}

#[test]
fn store_scan_reports_mismatches() {
    let good = hash_bytes(b"a");
    let other = hash_bytes(b"b");
    let names = vec![good.clone(), good.clone(), other.clone()];
    let hashes = vec![good.clone(), hash_bytes(b"a changed"), other.clone()];
    assert_eq!(mismatches(&names, &hashes), vec![1]);
    let clean = vec![good.clone(), other.clone()];
    assert!(mismatches(&clean, &clean).is_empty());
    assert!(mismatches(&Vec::new(), &Vec::new()).is_empty());
}

#[test]
fn rerun_leaves_everything_in_place() {
    let h = hash_bytes(b"content");
    assert_eq!(store_step(Probe::Found(FileKind::RegularFile)), Ok(StoreStep::Reuse));
    assert_eq!(file_step(Probe::Found(FileKind::RegularFile), false, true), FileStep::CompareHash);
    assert_eq!(settle_file(&h, &hash_bytes(b"content")), FileStep::Keep);
    assert_eq!(dir_step(Probe::Found(FileKind::Directory), false), DirStep::Keep);
    assert_eq!(settle_symlink(b"t", b"t"), LinkStep::Keep);
}

#[test]
fn identical_content_shares_one_entry() {
    let first = store_entry_path(b"store", &hash_bytes(b"same bytes"));
    let mut h = ContentHasher::new();
    h.update(b"same ");
    h.update(b"bytes");
    let second = store_entry_path(b"store", &h.finish());
    assert_eq!(first, second);
    assert_eq!(first.len(), b"store/".len() + 64);
    assert_ne!(first, store_entry_path(b"store", &hash_bytes(b"other bytes")));
}

fn job(j: &WalkJob) -> (bool, Vec<u8>, Vec<u8>) {
    match j {
        WalkJob::Copy { src, dst_dir } => (true, src.clone(), dst_dir.clone()),
        WalkJob::Finish { src, dst } => (false, src.clone(), dst.clone()),
    }
}

#[test]
fn walk_is_depth_first_in_listing_order() {
    let mut walk = Walk::new(b"src/A", b"dst");
    assert!(!walk.is_done());
    let first = walk.next().unwrap();
    assert_eq!(job(&first), (true, b"src/A".to_vec(), b"dst".to_vec()));
    assert!(walk.is_done());
    walk.enter_dir(b"src/A", b"dst/A", vec![b"src/A/f1".to_vec(), b"src/A/B".to_vec()]);
    assert_eq!(job(&walk.next().unwrap()), (true, b"src/A/f1".to_vec(), b"dst/A".to_vec()));
    assert_eq!(job(&walk.next().unwrap()), (true, b"src/A/B".to_vec(), b"dst/A".to_vec()));
    walk.enter_dir(b"src/A/B", b"dst/A/B", vec![b"src/A/B/f2".to_vec()]);
    assert_eq!(job(&walk.next().unwrap()), (true, b"src/A/B/f2".to_vec(), b"dst/A/B".to_vec()));
    assert_eq!(job(&walk.next().unwrap()), (false, b"src/A/B".to_vec(), b"dst/A/B".to_vec()));
    assert_eq!(job(&walk.next().unwrap()), (false, b"src/A".to_vec(), b"dst/A".to_vec()));
    assert!(walk.next().is_none());
    assert!(walk.is_done());
}

#[test]
fn walk_of_empty_directory_finishes_it() {
    let mut walk = Walk::new(b"a", b"d");
    walk.next();
    walk.enter_dir(b"a", b"d/a", Vec::new());
    assert_eq!(job(&walk.next().unwrap()), (false, b"a".to_vec(), b"d/a".to_vec()));
    assert!(walk.next().is_none());
}
