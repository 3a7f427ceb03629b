use twodrive::fs::filesystem::fuse::{
    created_mode, open_refreshed, read_allowed, unlink_allowed, Opening, ReadKind, Reading, Release,
    Safe,
};
use twodrive::fs::filesystem::mutations::{
    delete_record, Deletion, RenameEvent, RenameOrder, Renaming, Unlink,
};
use twodrive::fs::filesystem::reads::{ReadRelease, SyncTarget};
use twodrive::fs::filesystem::writes::{
    is_valid_name, sync_cached_record, truncate_without_handle, CreateEvent, CreateOrder, Creating,
    QueueStep, UploadEvent, UploadOrder, WriteCache,
};
use twodrive::fs::filesystem::{
    filesystem_stats, refresh_record, Errno, FsError, Shown, StorageStats, TwoDriveFs,
};
use twodrive::fs::inodes::{parent_of, ROOT_INO};
use twodrive::fs::record::{FileRecord, FileState, MetadataEntry};
use twodrive::fs::upload_queue::UploadCommand;

fn record(id: &str, path: &str) -> FileRecord {
    FileRecord {
        metadata: MetadataEntry {
            remote_id: id.to_string(),
            path: path.to_string(),
            parent_path: parent_of(path),
            name: path.rsplit('/').next().unwrap().to_string(),
            is_dir: false,
            size: 10,
            etag: format!("etag-{id}"),
            modified_unix: 5,
        },
        state: FileState::Cached,
        cache_path: Some(format!("/cache/{id}")),
        cloud_remote_id: Some(format!("cloud-{id}")),
        local_mode: None,
        effective_pinned: false,
    }
}

fn directory(id: &str, path: &str) -> FileRecord {
    let mut d = record(id, path);
    d.metadata.is_dir = true;
    d.cache_path = None;
    d
}

fn text(s: &str) -> Option<String> {
    Some(s.to_string())
}

fn three() -> TwoDriveFs {
    TwoDriveFs::new(&vec![record("a", "/a"), record("b", "/b"), directory("d", "/d")])
}

/// Opens a file for writing, its content being at its cache path.
fn open_for_writing(fs: &mut TwoDriveFs, f: FileRecord, truncate: bool) -> u64 {
    let path = f.cache_path.clone().unwrap();
    let (state, order) = fs.create_overwrite_upload(f.clone(), truncate);
    assert!(matches!(order, CreateOrder::Cache(..)));
    let (state, order) = fs.go_on_creating(state, CreateEvent::Cached(path));
    assert!(matches!(order, CreateOrder::Open(_)));
    let (state, order) = fs.go_on_creating(state, CreateEvent::Opened(true));
    assert!(matches!(order, CreateOrder::Mark { truncate: t, .. } if t == truncate));
    let mut updated = f;
    updated.state = FileState::Writing;
    match fs.go_on_creating(state, CreateEvent::Marked(Some(updated))).1 {
        CreateOrder::Opened(_, fh, _) => fh,
        _ => panic!("not opened"),
    }
}

fn open_for_reading(fs: &mut TwoDriveFs, path: &str) -> u64 {
    let ino = fs.inodes.ino_for_path(path).unwrap();
    let attr = match fs.attr_for_ino(ino, 0) {
        Shown::Attr(a) => Some(a),
        _ => None,
    };
    let cache = fs.record_for_ino(ino).unwrap().cache_path.unwrap();
    fs.open_read_handle(ino, attr, cache).unwrap()
}

#[test]
fn numbers_stand_for_items() {
    let mut fs = three();
    let a = fs.inodes.ino_for_path("/a").unwrap();
    assert!(fs.record_for_ino(ROOT_INO).is_none());
    assert_eq!(fs.lookup("/a", None), Ok(a));
    assert_eq!(fs.lookup("/new", None), Err(Errno::NoEntry));
    let n = fs.lookup("/new", Some(record("n", "/new"))).unwrap();
    assert_eq!(fs.lookup("/new", None), Ok(n));
    assert!(matches!(fs.attr_for_ino(n, 0), Shown::Attr(at) if at.size == 10 && at.time == 5));
    assert!(matches!(fs.attr_for_ino(ROOT_INO, 9), Shown::Attr(at) if at.is_dir && at.time == 9));
    assert!(matches!(fs.attr_for_ino(999, 0), Shown::Missing));
}

#[test]
fn directories_are_read_as_they_were_opened() {
    let mut fs = three();
    let fh = fs.opendir(ROOT_INO).unwrap();
    fs.lookup("/late", Some(record("l", "/late"))).unwrap();
    let names: Vec<String> =
        fs.readdir(fh, 0).unwrap().into_iter().map(|e| e.name).collect();
    assert_eq!(names, vec![".", "..", "d", "a", "b"]);
    assert_eq!(fs.readdir(fh, 4).unwrap().len(), 1);
    assert_eq!(fs.readdir(fh, 99).unwrap().len(), 0);
    assert!(matches!(fs.readdir(fh, -1), Err(Errno::Invalid)));
    fs.releasedir(fh);
    assert!(matches!(fs.readdir(fh, 0), Err(Errno::BadHandle)));
    assert_eq!(fs.opendir(999), Err(Errno::NoEntry));
    let d = fs.inodes.ino_for_path("/d").unwrap();
    let fh = fs.opendir(d).unwrap();
    let entries = fs.readdir(fh, 0).unwrap();
    assert_eq!((entries[0].ino, entries[1].ino), (d, ROOT_INO));
}

#[test]
fn files_are_opened_as_asked() {
    let f = record("a", "/a");
    let mut online = f.clone();
    online.state = FileState::OnlineOnly;
    online.cache_path = None;
    let read = libc::O_RDONLY;
    assert!(matches!(open_refreshed(&f, true, read, true, true), Opening::Cached(p) if p == "/cache/a"));
    assert!(matches!(open_refreshed(&f, false, read, false, false), Opening::Deferred));
    assert!(matches!(open_refreshed(&online, false, read, false, false), Opening::Deferred));
    assert!(matches!(
        open_refreshed(&online, false, read, true, false),
        Opening::Refused(Errno::NoData)
    ));
    assert!(matches!(
        open_refreshed(&online, false, read, false, true),
        Opening::Refused(Errno::NoData)
    ));
    assert!(matches!(
        open_refreshed(&online, false, libc::O_WRONLY | libc::O_TRUNC, true, true),
        Opening::Write { truncate: true }
    ));
    assert!(matches!(
        open_refreshed(&online, false, libc::O_RDWR, false, false),
        Opening::Write { truncate: false }
    ));
    assert_eq!(read_allowed(&online, false, true), ReadKind::Refused(Errno::NoData));
    assert_eq!(read_allowed(&online, false, false), ReadKind::Content);
    assert_eq!(read_allowed(&f, true, true), ReadKind::Content);
    let fs = three();
    let d = fs.inodes.ino_for_path("/d").unwrap();
    assert!(matches!(fs.open(d), Err(Errno::IsDirectory)));
    assert!(matches!(fs.open(999), Err(Errno::NoEntry)));
    let a = fs.inodes.ino_for_path("/a").unwrap();
    assert_eq!(fs.open(a).unwrap().metadata.remote_id, "a");
}

#[test]
fn reads_find_their_content() {
    let mut fs = three();
    let a = fs.inodes.ino_for_path("/a").unwrap();
    let d = fs.inodes.ino_for_path("/d").unwrap();
    assert!(matches!(fs.read(a, 99, -1), Reading::Refused(Errno::Invalid)));
    assert!(matches!(fs.read(a, 99, 0), Reading::Item(f) if f.metadata.remote_id == "a"));
    assert!(matches!(fs.read(d, 99, 0), Reading::Refused(Errno::IsDirectory)));
    assert!(matches!(fs.read(999, 99, 0), Reading::Refused(Errno::NoEntry)));
    let fh = open_for_reading(&mut fs, "/a");
    assert!(matches!(fs.read(a, fh, 0), Reading::Open(p) if p == "/cache/a"));
    assert_eq!(fs.read_open_handle(fh), Ok("/cache/a".to_string()));
    let later = fs.open_deferred_handle(a, record("a", "/a"), "/cache/a".into(), 7);
    assert!(matches!(fs.read(a, later, 0), Reading::Deferred { generation: 7, .. }));
    assert!(matches!(fs.sync_read_handle(later), Ok(SyncTarget::Nothing)));
    assert!(matches!(fs.sync_read_handle(fh), Ok(SyncTarget::File(p)) if p == "/cache/a"));
    assert!(matches!(fs.sync_read_handle(99), Err(FsError::NoHandle)));
    assert_eq!(fs.read_open_handle(99), Err(FsError::NoHandle));
    assert_eq!(
        fs.open_read_handle(a, None, "x".into()),
        Err(FsError::InodeDisappeared)
    );
    let w = open_for_writing(&mut fs, record("b", "/b"), false);
    assert!(matches!(fs.read(a, w, 0), Reading::Open(p) if p == "/cache/b"));
}

#[test]
fn writes_grow_the_item() {
    let mut fs = three();
    let b = fs.inodes.ino_for_path("/b").unwrap();
    let fh = open_for_writing(&mut fs, record("b", "/b"), false);
    assert_eq!(fs.write(fh, -1), Err(Errno::Invalid));
    assert_eq!(fs.write(99, 0), Err(Errno::BadHandle));
    assert_eq!(fs.write(fh, 8), Ok("/cache/b".to_string()));
    fs.written(fh, 8, 1);
    assert_eq!(fs.record_for_ino(b).unwrap().metadata.size, 10);
    fs.written(fh, 8, 30);
    assert_eq!(fs.record_for_ino(b).unwrap().metadata.size, 38);
    fs.written(99, 8, 300);
    fs.resized(b, 3);
    assert_eq!(fs.record_for_ino(b).unwrap().metadata.size, 3);
    assert_eq!(fs.sync_handle(fh), Ok("/cache/b".to_string()));
    assert_eq!(fs.sync_handle(99), Err(FsError::NoHandle));
    assert!(matches!(fs.fsync(fh, &None), Safe::File(p) if p == "/cache/b"));
    assert!(matches!(fs.fsync(99, &None), Safe::Failed(FsError::RecordMissing)));
    assert!(matches!(fs.fsync(99, &Some(record("a", "/a"))), Safe::File(p) if p == "/cache/a"));
    let mut bare = record("a", "/a");
    bare.cache_path = None;
    assert_eq!(sync_cached_record(&Some(bare)), Err(FsError::NoCache));
    let r = open_for_reading(&mut fs, "/a");
    assert!(matches!(fs.fsync(r, &None), Safe::File(p) if p == "/cache/a"));
}

#[test]
fn a_new_file_is_made_recorded_and_opened() {
    let mut fs = three();
    let begin = |fs: &TwoDriveFs, parent: u64, name: Option<String>| {
        fs.create_upload_with_mode(parent, &name, 0, 0o600, "local-upload-1".into()).1
    };
    let a = fs.inodes.ino_for_path("/a").unwrap();
    assert!(matches!(begin(&fs, 999, text("x")), CreateOrder::Failed(FsError::ParentMissing)));
    assert!(matches!(begin(&fs, a, text("x")), CreateOrder::Failed(FsError::ParentNotDirectory)));
    assert!(matches!(begin(&fs, ROOT_INO, None), CreateOrder::Failed(FsError::BadName)));
    assert!(matches!(begin(&fs, ROOT_INO, text("")), CreateOrder::Failed(FsError::BadName)));
    assert!(matches!(begin(&fs, ROOT_INO, text("x/y")), CreateOrder::Failed(FsError::BadName)));
    assert!(is_valid_name("x") && !is_valid_name("/") && !is_valid_name(""));

    let (state, order) = fs.create_upload_with_mode(
        ROOT_INO,
        &text("x"),
        0,
        0o600,
        "local-upload-1".into(),
    );
    assert!(matches!(order, CreateOrder::Find(p, n) if p == "/" && n == "x"));
    let (state, order) = fs.go_on_creating(state, CreateEvent::Existing("/x".into(), None));
    assert!(matches!(order, CreateOrder::MakeCache(n) if n == "local-upload-1"));
    let (state, order) =
        fs.go_on_creating(state, CreateEvent::Made("/cache/local-upload-1".into()));
    assert!(matches!(order, CreateOrder::Record { id, path, cache_path, mode: 0o600 }
        if id == "local-upload-1" && path == "/x" && cache_path == "/cache/local-upload-1"));
    let mut made = record("local-upload-1", "/x");
    made.cloud_remote_id = None;
    let (state, order) = fs.go_on_creating(state, CreateEvent::Recorded(made));
    assert!(matches!(state, Creating::Ended));
    let (ino, fh) = match order {
        CreateOrder::Opened(ino, fh, attr) => {
            assert_eq!(attr.ino, ino);
            (ino, fh)
        }
        _ => panic!("not opened"),
    };
    assert_eq!(fs.inodes.ino_for_path("/x"), Some(ino));
    let handle = fs.writes.get(fh).unwrap();
    assert!(handle.created_new_record && handle.base_etag.is_none() && !handle.uploaded);
}

#[test]
fn what_cannot_be_recorded_is_undone() {
    let mut fs = three();
    let state = Creating::Recording {
        id: "l".into(),
        path: "/x".into(),
        cache_path: "/cache/l".into(),
    };
    let (state, order) = fs.go_on_creating(state, CreateEvent::Failed);
    assert!(matches!(order, CreateOrder::Undo { id, cache_path } if id == "l" && cache_path == "/cache/l"));
    let (_, order) = fs.go_on_creating(state, CreateEvent::Undone);
    assert!(matches!(order, CreateOrder::GivenUp));
    assert!(fs.inodes.ino_for_path("/x").is_none());
}

#[test]
fn an_existing_file_is_overwritten_or_refused() {
    let mut fs = three();
    let looking = |flags: i32| Creating::Looking { id: "l".into(), flags, mode: 0o644 };
    let existing = || CreateEvent::Existing("/a".into(), Some(record("a", "/a")));
    let (_, order) = fs.go_on_creating(looking(libc::O_EXCL), existing());
    assert!(matches!(order, CreateOrder::Failed(FsError::AlreadyExists)));
    let (_, order) = fs.go_on_creating(looking(libc::O_TRUNC), existing());
    assert!(matches!(order, CreateOrder::Cache(_, WriteCache::Path(p)) if p == "/cache/a"));
    let (_, order) = fs.go_on_creating(looking(0), existing());
    assert!(matches!(order, CreateOrder::Cache(_, WriteCache::Hydrate)));
    let mut bare = record("a", "/a");
    bare.cache_path = None;
    let (_, order) = fs.create_overwrite_upload(bare, true);
    assert!(matches!(order, CreateOrder::Cache(_, WriteCache::Name(n)) if n == "a"));
    let (_, order) = fs.create_overwrite_upload(directory("d", "/d"), true);
    assert!(matches!(order, CreateOrder::Failed(FsError::IsDirectory)));
    let (_, order) = fs.create_overwrite_upload(record("q", "/q"), true);
    assert!(matches!(order, CreateOrder::Failed(FsError::InodeDisappeared)));
}

#[test]
fn released_content_is_not_written() {
    let mut fs = three();
    let (state, _) = fs.create_overwrite_upload(record("a", "/a"), false);
    let (state, _) = fs.go_on_creating(state, CreateEvent::Cached("/cache/a".into()));
    let (_, order) = fs.go_on_creating(state, CreateEvent::Opened(false));
    assert!(matches!(order, CreateOrder::Failed(FsError::CacheReleased)));
    let (state, _) = fs.create_overwrite_upload(record("a", "/a"), false);
    let (state, _) = fs.go_on_creating(state, CreateEvent::Cached("/cache/a".into()));
    let (state, _) = fs.go_on_creating(state, CreateEvent::Opened(true));
    let (_, order) = fs.go_on_creating(state, CreateEvent::Marked(None));
    assert!(matches!(order, CreateOrder::Failed(FsError::RecordDisappeared)));
}

#[test]
fn a_closed_file_waits_to_be_uploaded() {
    let mut fs = three();
    let b = fs.inodes.ino_for_path("/b").unwrap();
    let fh = open_for_writing(&mut fs, record("b", "/b"), false);
    assert!(matches!(fs.queue_upload_handle(99), QueueStep::Nothing));
    assert!(matches!(fs.queue_upload_handle(fh), QueueStep::Record(p, id)
        if p == "/cache/b" && id == "b"));
    assert!(matches!(fs.upload_queued(fh, None), Err(FsError::RecordDisappeared)));
    let mut dirty = record("b", "/b");
    dirty.state = FileState::Dirty;
    dirty.metadata.modified_unix = 99;
    let command = fs.upload_queued(fh, Some(dirty)).unwrap();
    assert!(matches!(command, UploadCommand::Upload(id) if id == "b"));
    assert_eq!(fs.record_for_ino(b).unwrap().metadata.modified_unix, 99);
    assert!(matches!(fs.queue_upload_handle(fh), QueueStep::Nothing));
    assert!(matches!(fs.release(fh), Release::Write(None)));
    fs.remove_write_handle(fh);
    assert!(matches!(fs.upload_queued(fh, None), Err(FsError::NoHandle)));
}

#[test]
fn an_upload_is_recorded_or_discarded() {
    let mut fs = three();
    let b = fs.inodes.ino_for_path("/b").unwrap();
    let fh = open_for_writing(&mut fs, record("b", "/b"), false);
    let (state, order) = fs.upload_handle(fh);
    assert!(matches!(order, UploadOrder::Mark(id) if id == "b"));
    let (state, order) =
        fs.go_on_uploading(fh, state, UploadEvent::Marked(text("cloud-b")));
    assert!(matches!(order, UploadOrder::Upload { path, cache_path, remote_id, etag }
        if path == "/b" && cache_path == "/cache/b" && remote_id == text("cloud-b")
            && etag == text("etag-b")));
    let (state, order) = fs.go_on_uploading(fh, state, UploadEvent::Uploaded("cloud-b".into()));
    assert!(matches!(order, UploadOrder::Commit { id, uploaded, .. }
        if id == "b" && uploaded == "cloud-b"));
    let mut other = record("b", "/b");
    other.cloud_remote_id = text("cloud-other");
    let (state, order) = fs.go_on_uploading(fh, state, UploadEvent::Committed(other));
    assert!(matches!(order, UploadOrder::Discard { uploaded, path }
        if uploaded == "cloud-b" && path == "/b"));
    let (_, order) = fs.go_on_uploading(fh, state, UploadEvent::Done);
    assert!(matches!(order, UploadOrder::Done));
    assert!(fs.writes.get(fh).unwrap().uploaded);
    assert_eq!(fs.record_for_ino(b).unwrap().cloud_remote_id, text("cloud-other"));
    assert!(matches!(fs.upload_handle(fh).1, UploadOrder::Done));
}

#[test]
fn a_conflict_keeps_a_copy() {
    let mut fs = three();
    let fh = open_for_writing(&mut fs, record("b", "/b"), false);
    let (state, _) = fs.upload_handle(fh);
    let (state, _) = fs.go_on_uploading(fh, state, UploadEvent::Marked(text("cloud-b")));
    let (state, order) = fs.go_on_uploading(fh, state, UploadEvent::Conflict);
    assert!(matches!(order, UploadOrder::MarkConflict(id) if id == "b"));
    let (state, order) =
        fs.go_on_uploading(fh, state, UploadEvent::Record(Some(record("b", "/b"))));
    assert!(matches!(order, UploadOrder::Preserve(_, p) if p == "/cache/b"));
    let (state, order) = fs.go_on_uploading(fh, state, UploadEvent::Preserved("copy".into()));
    assert!(matches!(order, UploadOrder::Find(id) if id == "b"));
    let (state, order) =
        fs.go_on_uploading(fh, state, UploadEvent::Record(Some(record("b", "/b"))));
    assert!(matches!(order, UploadOrder::Find(id) if id == "copy"));
    let (_, order) =
        fs.go_on_uploading(fh, state, UploadEvent::Record(Some(record("copy", "/b copy"))));
    assert!(matches!(order, UploadOrder::Done));
    assert!(fs.inodes.ino_for_path("/b copy").is_some());

    let fh = open_for_writing(&mut fs, record("a", "/a"), false);
    let (state, _) = fs.upload_handle(fh);
    let (state, _) = fs.go_on_uploading(fh, state, UploadEvent::Marked(None));
    let (state, order) = fs.go_on_uploading(fh, state, UploadEvent::Failed);
    assert!(matches!(order, UploadOrder::MarkDirty(id) if id == "a"));
    let (_, order) = fs.go_on_uploading(fh, state, UploadEvent::Done);
    assert!(matches!(order, UploadOrder::GivenUp));
}

#[test]
fn open_files_outlast_their_names() {
    let mut fs = three();
    let a = fs.inodes.ino_for_path("/a").unwrap();
    let f = record("a", "/a");
    assert!(matches!(fs.unlink_record_with_open_handles(a, &f), Unlink::NotOpen));
    let one = open_for_reading(&mut fs, "/a");
    let two = open_for_reading(&mut fs, "/a");
    assert!(matches!(fs.unlink_record_with_open_handles(a, &f), Unlink::Delete(r, UploadCommand::Delete(id))
        if r.cache_path.is_none() && id == "cloud-a"));
    fs.unlinked(a, "a");
    assert!(fs.inodes.ino_for_path("/a").is_none());
    assert!(matches!(fs.attr_for_ino(a, 0), Shown::Attr(at) if at.nlink == 0 && at.size == 10));
    assert_eq!(fs.read_open_handle(one), Ok("/cache/a".to_string()));
    assert!(matches!(fs.release(one), Release::Read));
    assert!(matches!(fs.release_read_handle(one), ReadRelease::Finish));
    assert!(matches!(fs.release_read_handle(two), ReadRelease::Remove(p) if p == "/cache/a"));
    assert!(matches!(fs.release_read_handle(two), ReadRelease::Nothing));
    assert!(matches!(fs.attr_for_ino(a, 0), Shown::Missing));
}

#[test]
fn a_new_file_without_a_name_is_forgotten() {
    let mut fs = three();
    let b = fs.inodes.ino_for_path("/b").unwrap();
    let mut f = record("b", "/b");
    let fh = open_for_writing(&mut fs, f.clone(), false);
    f.cloud_remote_id = None;
    assert!(matches!(fs.unlink_record_with_open_handles(b, &f), Unlink::Forget));
    fs.unlinked(b, "b");
    assert!(matches!(fs.attr_for_ino(b, 0), Shown::OpenFile(h) if h == fh));
    assert!(matches!(fs.release(fh), Release::Write(Some(p)) if p == "/cache/b"));
    assert!(matches!(fs.queue_upload_handle(fh), QueueStep::Nothing));
    assert!(!fs.cleanup_unlinked_cache("/cache/b"));
    fs.remove_write_handle(fh);
    assert!(fs.cleanup_unlinked_cache("/cache/b"));
}

#[test]
fn items_are_deleted_when_they_do_not_change() {
    let mut f = record("a", "/a");
    assert!(matches!(delete_record(&f), Deletion::Delete(UploadCommand::Delete(id)) if id == "cloud-a"));
    for state in
        [FileState::Writing, FileState::Dirty, FileState::Hydrating, FileState::Uploading]
    {
        f.state = state;
        assert!(matches!(delete_record(&f), Deletion::Changing));
    }
    f.state = FileState::Cached;
    f.cloud_remote_id = None;
    assert!(matches!(delete_record(&f), Deletion::Forget(Some(p)) if p == "/cache/a"));
    let mut fs = three();
    let a = fs.inodes.ino_for_path("/a").unwrap();
    fs.deleted(a);
    assert!(fs.inodes.ino_for_path("/a").is_none());
}

#[test]
fn removal_checks_what_an_item_is() {
    let mut fs = three();
    assert!(matches!(fs.unlink("/none"), Err(Errno::NoEntry)));
    assert!(matches!(fs.unlink("/"), Err(Errno::NoEntry)));
    let (d, f) = fs.unlink("/d").unwrap();
    assert_eq!(unlink_allowed(&f), Err(Errno::IsDirectory));
    assert_eq!(unlink_allowed(&record("a", "/a")), Ok(()));
    assert_eq!(fs.rmdir(d, &f), Ok(()));
    fs.lookup("/d/x", Some(record("x", "/d/x"))).unwrap();
    assert_eq!(fs.rmdir(d, &f), Err(Errno::NotEmpty));
    assert_eq!(fs.rmdir(d, &record("a", "/a")), Err(Errno::NotDirectory));
}

#[test]
fn directories_are_made() {
    let mut fs = three();
    assert_eq!(fs.create_directory(ROOT_INO, &text("n")), Ok("/".to_string()));
    assert_eq!(fs.create_directory(999, &text("n")), Err(FsError::ParentMissing));
    assert_eq!(fs.create_directory(ROOT_INO, &text("a/b")), Err(FsError::BadName));
    assert_eq!(fs.create_directory(ROOT_INO, &None), Err(FsError::BadName));
    assert_eq!(TwoDriveFs::directory_absent(&None), Ok(()));
    assert_eq!(
        TwoDriveFs::directory_absent(&Some(directory("d", "/d"))),
        Err(FsError::AlreadyExists)
    );
    let (ino, attr, command) = fs.created_directory(directory("n", "/n"), "n".into());
    assert!(attr.is_dir);
    assert_eq!(fs.inodes.ino_for_path("/n"), Some(ino));
    assert!(matches!(command, UploadCommand::Upload(id) if id == "n"));
    assert_eq!(created_mode(0o777, 0o022), 0o755);
}

#[test]
fn permissions_and_sizes_are_changed() {
    let mut fs = three();
    let a = fs.inodes.ino_for_path("/a").unwrap();
    assert!(matches!(fs.chmod_target(ROOT_INO), Err(Errno::NotSupported)));
    assert!(matches!(fs.chmod_target(999), Err(Errno::NoEntry)));
    let f = fs.chmod_target(a).unwrap();
    fs.chmod(a, f, 0o100755);
    assert!(matches!(fs.attr_for_ino(a, 0), Shown::Attr(at) if at.perm == 0o755));
    assert!(matches!(truncate_without_handle(&None, 0), Err(FsError::RecordMissing)));
    assert!(matches!(
        truncate_without_handle(&Some(directory("d", "/d")), 0),
        Err(FsError::IsDirectory)
    ));
    let f = record("a", "/a");
    assert!(matches!(truncate_without_handle(&Some(f.clone()), 0), Ok(WriteCache::Path(_))));
    assert!(matches!(truncate_without_handle(&Some(f.clone()), 1), Ok(WriteCache::Hydrate)));
    assert!(matches!(fs.truncated(a, &f, 4), UploadCommand::Upload(id) if id == "a"));
    assert!(matches!(fs.attr_for_ino(a, 0), Shown::Attr(at) if at.size == 4));
    assert_eq!(fs.resize_target(None), None);
    assert_eq!(fs.resize_target(Some(99)), None);
    let fh = open_for_writing(&mut fs, record("a", "/a"), false);
    assert_eq!(fs.resize_target(Some(fh)), record("a", "/a").cache_path);
}

fn rename(fs: &mut TwoDriveFs, from: &str, to: &str) -> (Renaming, RenameOrder) {
    let (state, order) = fs.begin_rename(ROOT_INO, ROOT_INO);
    assert!(matches!(order, RenameOrder::Join(p, q) if p == "/" && q == "/"));
    fs.rename_record(state, RenameEvent::Paths(from.into(), to.into()))
}

#[test]
fn a_file_replaces_a_file_and_open_readers_keep_the_old_one() {
    let mut fs = three();
    let a = fs.inodes.ino_for_path("/a").unwrap();
    let b = fs.inodes.ino_for_path("/b").unwrap();
    let reader = open_for_reading(&mut fs, "/b");
    let writer = open_for_writing(&mut fs, record("a", "/a"), false);
    let (state, order) = rename(&mut fs, "/a", "/b");
    assert!(matches!(order, RenameOrder::Refresh(f) if f.metadata.remote_id == "a"));
    let (state, order) = fs.rename_record(state, RenameEvent::Record(record("a", "/a")));
    assert!(matches!(order, RenameOrder::Find(p) if p == "/b"));
    let (state, order) =
        fs.rename_record(state, RenameEvent::Target(Some(record("b", "/b"))));
    assert!(matches!(order, RenameOrder::Replace(x, y, p) if x == "a" && y == "b" && p == "/b"));
    let mut updated = record("b", "/b");
    updated.state = FileState::Dirty;
    let (_, order) = fs.rename_record(state, RenameEvent::Replaced(updated));
    match order {
        RenameOrder::Done(commands) => {
            let texts: Vec<String> = commands.iter().map(|c| format!("{c:?}")).collect();
            assert_eq!(texts, vec!["Delete(\"cloud-a\")", "Upload(\"b\")"]);
        }
        _ => panic!("not done"),
    }
    assert_eq!(fs.inodes.ino_for_path("/b"), Some(a));
    assert!(fs.inodes.ino_for_path("/a").is_none());
    assert!(matches!(fs.attr_for_ino(b, 0), Shown::Attr(at) if at.nlink == 0));
    assert_eq!(fs.read_open_handle(reader), Ok("/cache/b".to_string()));
    let w = fs.writes.get(writer).unwrap();
    assert_eq!((w.path.as_str(), w.record_remote_id.as_str()), ("/b", "b"));
    assert_eq!(w.base_etag, text("etag-b"));
}

#[test]
fn a_directory_moves_with_what_is_below_it() {
    let mut fs = three();
    fs.lookup("/d/x", Some(record("x", "/d/x"))).unwrap();
    let x = fs.inodes.ino_for_path("/d/x").unwrap();
    let writer = open_for_writing(&mut fs, record("a", "/a"), false);
    let (state, _) = rename(&mut fs, "/d", "/e");
    let (state, _) = fs.rename_record(state, RenameEvent::Record(directory("d", "/d")));
    let (state, order) = fs.rename_record(state, RenameEvent::Target(None));
    assert!(matches!(order, RenameOrder::Move(id, p) if id == "d" && p == "/e"));
    let (state, order) = fs.rename_record(state, RenameEvent::Moved);
    assert!(matches!(order, RenameOrder::List(id, p) if id == "d" && p == "/e"));
    let (_, order) = fs.rename_record(
        state,
        RenameEvent::Listed(Some(directory("d", "/e")), vec![record("x", "/e/x")]),
    );
    assert!(matches!(order, RenameOrder::Done(c)
        if c.len() == 1 && matches!(&c[0], UploadCommand::Upload(id) if id == "d")));
    assert_eq!(fs.inodes.ino_for_path("/e/x"), Some(x));
    assert!(fs.inodes.ino_for_path("/d").is_none());
    assert_eq!(fs.writes.get(writer).unwrap().path, "/a");
}

#[test]
fn who_writes_a_file_follows_it() {
    let mut fs = three();
    let writer = open_for_writing(&mut fs, record("a", "/a"), false);
    let (state, _) = rename(&mut fs, "/a", "/z");
    let (state, _) = fs.rename_record(state, RenameEvent::Record(record("a", "/a")));
    let (state, _) = fs.rename_record(state, RenameEvent::Target(None));
    let (state, _) = fs.rename_record(state, RenameEvent::Moved);
    assert_eq!(fs.writes.get(writer).unwrap().path, "/z");
    let (_, order) = fs.rename_record(state, RenameEvent::Listed(None, Vec::new()));
    assert!(matches!(order, RenameOrder::Failed(FsError::RecordDisappeared)));
}

#[test]
fn renames_are_refused_for_each_reason() {
    let mut fs = three();
    assert!(matches!(
        fs.begin_rename(999, ROOT_INO).1,
        RenameOrder::Failed(FsError::SourceParentMissing)
    ));
    assert!(matches!(
        fs.begin_rename(ROOT_INO, 999).1,
        RenameOrder::Failed(FsError::TargetParentMissing)
    ));
    assert!(matches!(rename(&mut fs, "/a", "/a").1, RenameOrder::Done(c) if c.is_empty()));
    assert!(matches!(
        rename(&mut fs, "/none", "/a").1,
        RenameOrder::Failed(FsError::SourceMissing)
    ));
    assert!(matches!(
        rename(&mut fs, "/", "/a").1,
        RenameOrder::Failed(FsError::SourceRecordMissing)
    ));
    let (state, _) = rename(&mut fs, "/a", "/d");
    let (state, _) = fs.rename_record(state, RenameEvent::Record(record("a", "/a")));
    let (_, order) = fs.rename_record(state, RenameEvent::Target(Some(directory("d", "/d"))));
    assert!(matches!(order, RenameOrder::Failed(FsError::ReplacesDirectory)));
    let (state, _) = rename(&mut fs, "/a", "/q");
    let (state, _) = fs.rename_record(state, RenameEvent::Record(record("a", "/a")));
    let (_, order) = fs.rename_record(state, RenameEvent::Target(Some(record("q", "/q"))));
    assert!(matches!(order, RenameOrder::Failed(FsError::TargetMissing)));
    let (state, _) = rename(&mut fs, "/a", "/q");
    let (_, order) = fs.rename_record(state, RenameEvent::Failed);
    assert!(matches!(order, RenameOrder::GivenUp));
}

#[test]
fn what_is_known_is_refreshed() {
    let old = record("a", "/a");
    assert_eq!(
        refresh_record(old.clone(), Some(record("1", "/1")), Some(record("2", "/2")))
            .metadata
            .remote_id,
        "1"
    );
    assert_eq!(
        refresh_record(old.clone(), None, Some(record("2", "/2"))).metadata.remote_id,
        "2"
    );
    assert_eq!(refresh_record(old, None, None).metadata.remote_id, "a");
}

#[test]
fn numbers_of_the_storage_are_clamped() {
    let mut s = StorageStats {
        blocks: 1,
        blocks_free: 2,
        blocks_available: 3,
        files: 4,
        files_free: 5,
        block_size: 4096,
        fragment_size: 0,
        name_length: u64::MAX,
    };
    let r = filesystem_stats(&s);
    assert_eq!((r.blocks, r.blocks_free, r.blocks_available), (1, 2, 3));
    assert_eq!((r.files, r.files_free), (4, 5));
    assert_eq!((r.block_size, r.fragment_size, r.name_length), (4096, 4096, u32::MAX));
    s.fragment_size = 512;
    assert_eq!(filesystem_stats(&s).fragment_size, 512);
}
