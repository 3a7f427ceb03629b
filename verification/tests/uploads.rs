use twodrive::fs::hydration::Seen;
use twodrive::fs::record::{FileRecord, FileState, MetadataEntry};
use twodrive::fs::recovery::{
    enqueue_recovery, find_pending_delete, recover_dirty_record, recover_dirty_uploads,
    recover_dirty_uploads_concurrent, recover_interrupted_writes, recover_pending_deletes,
    recover_pending_metadata_record, remote_item, ChangeEvent, ChangeOrder, DeleteEvent, DeleteOrder, Deleting,
    PendingMetadata, Recovered, Recovery, RecoveryEvent, RecoveryOrder, RemoteItem,
};
use twodrive::fs::upload_queue::{
    begin_upload_worker, run_upload_worker, UploadCommand, UploadQueue, WorkerEvent, WorkerOrder,
};

fn entry(id: &str, path: &str) -> MetadataEntry {
    MetadataEntry {
        remote_id: id.to_string(),
        path: path.to_string(),
        parent_path: "/".to_string(),
        name: path.rsplit('/').next().unwrap().to_string(),
        is_dir: false,
        size: 3,
        etag: "etag-1".to_string(),
        modified_unix: 0,
    }
}

fn dirty(id: &str, path: &str) -> FileRecord {
    FileRecord {
        metadata: entry(id, path),
        state: FileState::Dirty,
        cache_path: Some(format!("/cache/{id}")),
        cloud_remote_id: Some(id.to_string()),
        local_mode: None,
        effective_pinned: false,
    }
}

fn cache() -> String {
    "/cache/cloud".to_string()
}

fn upload(id: &str) -> UploadCommand {
    UploadCommand::Upload(id.to_string())
}

#[test]
fn recovery_queue_coalesces_repeated_scans_and_retains_work() {
    let mut queue = UploadQueue::new();
    for _ in 0..100 {
        assert!(queue.send(upload("same")));
        assert!(queue.send(UploadCommand::Delete("same".into())));
    }
    let mut count = 0;
    while queue.receive().is_some() {
        count += 1;
    }
    assert_eq!(count, 2);
}

#[test]
fn running_upload_coalesces_retries_without_occupying_other_workers() {
    let mut queue = UploadQueue::new();
    assert!(queue.send(upload("large")));
    let command = queue.receive().unwrap();
    queue.start(&command);
    for _ in 0..100 {
        assert!(queue.send(upload("large")));
    }
    assert!(queue.receive().is_none());
    assert!(queue.send(upload("small")));
    assert!(matches!(queue.receive().unwrap(), UploadCommand::Upload(id) if id == "small"));
    queue.finish(command);
    assert!(matches!(queue.receive().unwrap(), UploadCommand::Upload(id) if id == "large"));
    assert!(queue.receive().is_none());
}

#[test]
fn a_closed_queue_takes_nothing_new() {
    let mut queue = UploadQueue::new();
    assert!(queue.send(upload("a")));
    queue.close();
    assert!(queue.send(upload("a")));
    assert!(!queue.send(upload("b")));
    assert!(!queue.send(UploadCommand::Shutdown));
    assert!(matches!(queue.receive(), Some(UploadCommand::Upload(id)) if id == "a"));
    assert!(queue.receive().is_none());
}

#[test]
fn work_that_was_not_asked_for_again_ends() {
    let mut queue = UploadQueue::new();
    assert!(queue.send(upload("a")));
    let command = queue.receive().unwrap();
    queue.start(&command);
    queue.finish(command);
    assert!(queue.receive().is_none());
    assert!(queue.send(upload("a")));
    assert!(queue.receive().is_some());
}

#[test]
fn a_worker_makes_changes_before_it_brings_content() {
    let (phase, order) = begin_upload_worker(&upload("a"));
    assert!(matches!(order, WorkerOrder::AskOperation(id) if id == "a"));
    let (phase, order) = run_upload_worker(phase, WorkerEvent::Operation(true));
    assert!(matches!(order, WorkerOrder::Change(id) if id == "a"));
    let (phase, order) = run_upload_worker(phase, WorkerEvent::Changed(true));
    assert!(matches!(order, WorkerOrder::Find(id) if id == "a"));
    let mut pinned = dirty("a", "/a");
    pinned.effective_pinned = true;
    let (phase, order) = run_upload_worker(
        phase,
        WorkerEvent::Record(Some(Seen { record: pinned, exists: false })),
    );
    assert!(matches!(order, WorkerOrder::Hydrate(_)));
    let (phase, order) = run_upload_worker(phase, WorkerEvent::Hydrated);
    assert!(matches!(order, WorkerOrder::FindAgain(id) if id == "a"));
    let (phase, order) =
        run_upload_worker(phase, WorkerEvent::RecordAgain(Some(dirty("a", "/a"))));
    assert!(matches!(order, WorkerOrder::Upload(r) if r.metadata.remote_id == "a"));
    let (_, order) = run_upload_worker(phase, WorkerEvent::Done);
    assert!(matches!(order, WorkerOrder::Next));
}

#[test]
fn a_worker_gives_up_when_a_change_fails_or_nothing_is_left() {
    let (phase, _) = begin_upload_worker(&upload("a"));
    let (phase, _) = run_upload_worker(phase, WorkerEvent::Operation(true));
    let (_, order) = run_upload_worker(phase, WorkerEvent::Changed(false));
    assert!(matches!(order, WorkerOrder::Next));

    let (phase, _) = begin_upload_worker(&upload("a"));
    let (phase, order) = run_upload_worker(phase, WorkerEvent::Operation(false));
    assert!(matches!(order, WorkerOrder::Find(_)));
    let (phase, order) = run_upload_worker(phase, WorkerEvent::Record(None));
    assert!(matches!(order, WorkerOrder::FindAgain(_)));
    let (_, order) = run_upload_worker(phase, WorkerEvent::RecordAgain(None));
    assert!(matches!(order, WorkerOrder::Next));

    let (_, order) = begin_upload_worker(&UploadCommand::Delete("d".into()));
    assert!(matches!(order, WorkerOrder::Delete(id) if id == "d"));
    let (_, order) = begin_upload_worker(&UploadCommand::Shutdown);
    assert!(matches!(order, WorkerOrder::Stop));
}

#[test]
fn changed_content_is_uploaded_and_recorded() {
    let record = dirty("cloud", "/a");
    let there = RecoveryEvent::Surveyed { pending_above: false, exists: true };
    let (state, order) = recover_dirty_record(Recovery::Surveying, &record, there);
    assert!(matches!(order, RecoveryOrder::Begin));
    let (state, order) = recover_dirty_record(state, &record, RecoveryEvent::Began(true));
    match order {
        RecoveryOrder::Upload { path, cache_path, remote_id, etag } => {
            assert_eq!(path, "/a");
            assert_eq!(Some(cache_path), record.cache_path);
            assert_eq!(remote_id, Some("cloud".to_string()));
            assert_eq!(etag, Some("etag-1".to_string()));
        }
        _ => panic!("no upload"),
    }
    let (state, order) =
        recover_dirty_record(state, &record, RecoveryEvent::Uploaded(entry("cloud", "/a")));
    match order {
        RecoveryOrder::Commit { id, path, uploaded, cache_path } => {
            assert_eq!((id.as_str(), path.as_str()), ("cloud", "/a"));
            assert_eq!(uploaded.remote_id, "cloud");
            assert_eq!(Some(cache_path), record.cache_path);
        }
        _ => panic!("no commit"),
    }
    let (state, order) = recover_dirty_record(
        state,
        &record,
        RecoveryEvent::Committed(Some("cloud".to_string())),
    );
    assert!(matches!(order, RecoveryOrder::Release));
    let (_, order) = recover_dirty_record(state, &record, RecoveryEvent::Released);
    assert!(matches!(order, RecoveryOrder::Finish(true)));
}

#[test]
fn an_upload_that_is_not_recorded_is_discarded() {
    let record = dirty("cloud", "/a");
    let committing = Recovery::Committing { uploaded: "new".to_string() };
    let (state, order) = recover_dirty_record(
        committing,
        &record,
        RecoveryEvent::Committed(Some("other".to_string())),
    );
    assert!(matches!(order, RecoveryOrder::Discard { item, path } if item == "new" && path == "/a"));
    let (_, order) = recover_dirty_record(state, &record, RecoveryEvent::Discarded);
    assert!(matches!(order, RecoveryOrder::Release));

    let committing = Recovery::Committing { uploaded: "new".to_string() };
    let (state, order) = recover_dirty_record(committing, &record, RecoveryEvent::CommitFailed);
    assert!(matches!(order, RecoveryOrder::Discard { item, path } if item == "new" && path == "/a"));
    let (_, order) = recover_dirty_record(state, &record, RecoveryEvent::Discarded);
    assert!(matches!(order, RecoveryOrder::Fail));
}

#[test]
fn what_stands_at_a_path_is_told() {
    let record = dirty("a", "/a");
    let told = |owner: Option<FileRecord>, deletes: &[&str]| {
        let deletes = deletes.iter().map(|d| d.to_string()).collect();
        let item = remote_item("remote", &record, &owner, &deletes);
        (item.owned_by_another, item.awaiting_delete)
    };
    assert_eq!(told(None, &[]), (false, false));
    assert_eq!(told(Some(dirty("a", "/old")), &["other"]), (false, false));
    assert_eq!(told(Some(dirty("b", "/a")), &["other", "remote"]), (true, true));
}

#[test]
fn new_content_waits_for_what_stands_at_its_path() {
    let mut record = dirty("local-upload-1", "/a");
    record.cloud_remote_id = None;
    let there = RecoveryEvent::Surveyed { pending_above: false, exists: true };
    let (state, order) = recover_dirty_record(Recovery::Surveying, &record, there);
    assert!(matches!(&order, RecoveryOrder::LookUp(path) if path == "/a"));
    let foreign = RemoteItem { owned_by_another: true, awaiting_delete: false };
    let (_, order) = recover_dirty_record(state, &record, RecoveryEvent::Remote(Some(foreign)));
    assert!(matches!(order, RecoveryOrder::Finish(false)));
    let going = RemoteItem { owned_by_another: false, awaiting_delete: true };
    let (_, order) =
        recover_dirty_record(Recovery::LookingUp { cache: cache() }, &record, RecoveryEvent::Remote(Some(going)));
    assert!(matches!(order, RecoveryOrder::Finish(false)));
    let (state, order) =
        recover_dirty_record(Recovery::LookingUp { cache: cache() }, &record, RecoveryEvent::Remote(None));
    assert!(matches!(order, RecoveryOrder::Begin));
    let (_, order) = recover_dirty_record(state, &record, RecoveryEvent::Began(true));
    assert!(matches!(order, RecoveryOrder::Upload { remote_id: None, etag: None, .. }));

    let above = RecoveryEvent::Surveyed { pending_above: true, exists: true };
    let (_, order) = recover_dirty_record(Recovery::Surveying, &record, above);
    assert!(matches!(order, RecoveryOrder::Finish(false)));
    let gone = RecoveryEvent::Surveyed { pending_above: false, exists: false };
    let (_, order) = recover_dirty_record(Recovery::Surveying, &record, gone);
    assert!(matches!(order, RecoveryOrder::Finish(false)));
}

#[test]
fn conflicts_are_kept_as_copies_and_failures_are_marked() {
    let record = dirty("cloud", "/a");
    let failed = RecoveryEvent::UploadFailed { conflict: true, message: String::new() };
    let (state, order) = recover_dirty_record(Recovery::Uploading { cache: cache() }, &record, failed);
    assert!(matches!(order, RecoveryOrder::Mark { id, state: FileState::Conflict } if id == "cloud"));
    let (state, order) = recover_dirty_record(state, &record, RecoveryEvent::Marked);
    assert!(matches!(order, RecoveryOrder::Preserve { cache_path } if cache_path == cache()));
    let (_, order) = recover_dirty_record(state, &record, RecoveryEvent::Preserved(true));
    assert!(matches!(order, RecoveryOrder::Finish(true)));

    let failed = RecoveryEvent::UploadFailed {
        conflict: false,
        message: "bad: unsupported OneDrive file name: a".to_string(),
    };
    let (_, order) = recover_dirty_record(Recovery::Uploading { cache: cache() }, &record, failed);
    assert!(matches!(order, RecoveryOrder::Mark { id, state: FileState::Error } if id == "cloud"));
    let failed = RecoveryEvent::UploadFailed { conflict: false, message: "offline".to_string() };
    let (state, order) = recover_dirty_record(Recovery::Uploading { cache: cache() }, &record, failed);
    assert!(matches!(order, RecoveryOrder::Mark { id, state: FileState::Dirty } if id == "cloud"));
    let (_, order) = recover_dirty_record(state, &record, RecoveryEvent::Marked);
    assert!(matches!(order, RecoveryOrder::Finish(false)));

    let mut conflict = dirty("cloud", "/a");
    conflict.state = FileState::Conflict;
    let there = RecoveryEvent::Surveyed { pending_above: false, exists: true };
    let (_, order) = recover_dirty_record(Recovery::Surveying, &conflict, there);
    assert!(matches!(order, RecoveryOrder::Preserve { cache_path } if cache_path == cache()));
}

#[test]
fn only_changed_records_with_content_are_recovered() {
    let mut cached = dirty("c", "/c");
    cached.state = FileState::Cached;
    let mut uploading = dirty("u", "/u");
    uploading.state = FileState::Uploading;
    let seen = vec![
        Seen { record: dirty("a", "/a"), exists: true },
        Seen { record: dirty("b", "/b"), exists: false },
        Seen { record: cached, exists: true },
        Seen { record: uploading, exists: true },
    ];
    let ids: Vec<String> =
        recover_dirty_uploads(&seen).into_iter().map(|r| r.metadata.remote_id).collect();
    assert_eq!(ids, vec!["a".to_string(), "u".to_string()]);
}

#[test]
fn the_first_failure_counts() {
    let well = vec![Recovered::Content(true), Recovered::Content(false), Recovered::Content(true)];
    assert_eq!(recover_dirty_uploads_concurrent(&well), Ok(2));
    let badly = vec![Recovered::Content(true), Recovered::Failed(7), Recovered::Failed(8)];
    assert_eq!(recover_dirty_uploads_concurrent(&badly), Err(7));
    assert_eq!(recover_dirty_uploads_concurrent(&Vec::new()), Ok(0));
}

#[test]
fn deletions_are_struck_off_when_the_cloud_made_them() {
    let (state, order) = recover_pending_deletes("cloud", true);
    assert_eq!((state, order), (Deleting::Remote, DeleteOrder::DeleteRemote));
    assert_eq!(
        state.next(true, DeleteEvent::Deleted(false)),
        (Deleting::Ended, DeleteOrder::Keep)
    );
    let (state, order) = state.next(true, DeleteEvent::Deleted(true));
    assert_eq!(order, DeleteOrder::RemoveCache);
    assert_eq!(
        state.next(true, DeleteEvent::Removed(false)),
        (Deleting::Ended, DeleteOrder::Fail)
    );
    let (state, order) = state.next(true, DeleteEvent::Removed(true));
    assert_eq!(order, DeleteOrder::Strike);
    assert_eq!(
        state.next(true, DeleteEvent::Struck),
        (Deleting::Ended, DeleteOrder::Done)
    );
}

#[test]
fn deletions_of_local_items_need_no_cloud() {
    assert_eq!(
        recover_pending_deletes("local-upload-legacy-pending", false),
        (Deleting::Record, DeleteOrder::Strike)
    );
    assert_eq!(
        recover_pending_deletes("local-upload-legacy-pending", true),
        (Deleting::Cache, DeleteOrder::RemoveCache)
    );
    let ids = vec!["a".to_string(), "b".to_string(), "b".to_string()];
    assert_eq!(find_pending_delete(&ids, "b"), Some(1));
    assert_eq!(find_pending_delete(&ids, "c"), None);
}

#[test]
fn changes_of_place_wait_and_are_overtaken() {
    let operation = PendingMetadata {
        local_id: "a".to_string(),
        path: "/New/a".to_string(),
        create_folder: false,
    };
    let record = dirty("cloud", "/New/a");
    let (state, order) =
        recover_pending_metadata_record(&operation, &Some(record.clone()), false);
    assert!(matches!(order, ChangeOrder::Move(id, to) if id == "cloud" && to == "/New/a"));
    let (state, order) =
        state.next(&operation, ChangeEvent::Changed(Some(entry("cloud", "/New/a"))));
    assert!(matches!(order, ChangeOrder::Complete(_)));
    let (_, order) = state.next(&operation, ChangeEvent::Completed(true));
    assert!(matches!(order, ChangeOrder::Finish(true)));

    let (_, order) = recover_pending_metadata_record(&operation, &Some(record.clone()), true);
    assert!(matches!(order, ChangeOrder::Finish(false)));
    let (_, order) =
        recover_pending_metadata_record(&operation, &Some(dirty("cloud", "/Old/a")), false);
    assert!(matches!(order, ChangeOrder::Finish(false)));
    let (_, order) = recover_pending_metadata_record(&operation, &None, false);
    assert!(matches!(order, ChangeOrder::Finish(false)));
    let mut local = record;
    local.cloud_remote_id = None;
    let (_, order) = recover_pending_metadata_record(&operation, &Some(local), false);
    assert!(matches!(order, ChangeOrder::Fail));
}

#[test]
fn a_folder_that_is_there_already_is_taken() {
    let operation = PendingMetadata {
        local_id: "local-folder".to_string(),
        path: "/Recovered folder".to_string(),
        create_folder: true,
    };
    let mut record = dirty("local-folder", "/Recovered folder");
    record.metadata.is_dir = true;
    record.cloud_remote_id = None;
    let (state, order) = recover_pending_metadata_record(&operation, &Some(record), false);
    assert!(matches!(order, ChangeOrder::CreateFolder(p) if p == "/Recovered folder"));
    let (state, order) = state.next(&operation, ChangeEvent::Changed(None));
    assert!(matches!(order, ChangeOrder::LookUp(p) if p == "/Recovered folder"));
    let mut folder = entry("remote", "/Recovered folder");
    folder.is_dir = true;
    let (_, order) = state.next(&operation, ChangeEvent::Found(Some(folder)));
    assert!(matches!(order, ChangeOrder::Complete(e) if e.remote_id == "remote"));
}

#[test]
fn interrupted_writes_are_found() {
    let mut record = dirty("a", "/a");
    record.state = FileState::Writing;
    assert!(recover_interrupted_writes(&record, true));
    assert!(!recover_interrupted_writes(&record, false));
    record.state = FileState::Dirty;
    assert!(!recover_interrupted_writes(&record, true));
}

#[test]
fn everything_that_waits_is_queued_once() {
    let mut pinned = dirty("p", "/p");
    pinned.state = FileState::OnlineOnly;
    pinned.cache_path = None;
    pinned.effective_pinned = true;
    let mut loose = dirty("l", "/l");
    loose.state = FileState::Cached;
    let seen = vec![
        Seen { record: dirty("a", "/a"), exists: true },
        Seen { record: dirty("m", "/m"), exists: true },
        Seen { record: pinned, exists: false },
        Seen { record: loose, exists: true },
    ];
    let commands = enqueue_recovery(
        &vec!["d".to_string()],
        &vec!["m".to_string()],
        &seen,
    );
    let texts: Vec<String> = commands.iter().map(|c| format!("{c:?}")).collect();
    assert_eq!(
        texts,
        vec![
            "Delete(\"d\")".to_string(),
            "Upload(\"m\")".to_string(),
            "Upload(\"a\")".to_string(),
            "Upload(\"p\")".to_string(),
        ]
    );
}
