use twodrive::fs::activity::{drop_stale, finish, set_progress, write_entry, Activity, ActivityGuard};
use twodrive::fs::conflicts::{
    conflict_copy_name, preserve_conflict_copy, record_upload_etag, record_upload_remote_id,
    stable_path_fingerprint, truncate_utf8, PreserveEvent, PreserveOrder, Preserving,
};
use twodrive::fs::inodes::{
    attr_for_record, parent_of, root_attr, sort_child_records, unlinked_file_attr, InodeTable,
    ROOT_INO,
};
use twodrive::fs::metadata::sync_delta_metadata;
use twodrive::fs::probes::{
    is_gio_probe_open, is_thumbnail_or_indexer, is_thumbnail_or_indexer_request,
    request_process_text, O_ACCMODE, O_EXCL, O_NOATIME, O_RDONLY, O_TRUNC,
};
use twodrive::fs::record::{
    has_existing_cache, local_upload_id, sanitize_cache_name, unique_suffix, FileRecord, FileState,
    MetadataEntry,
};

fn record(id: &str, path: &str, size: u64) -> FileRecord {
    FileRecord {
        metadata: MetadataEntry {
            remote_id: id.to_string(),
            path: path.to_string(),
            parent_path: parent_of(path),
            name: path.rsplit('/').next().unwrap().to_string(),
            is_dir: false,
            size,
            etag: "etag".to_string(),
            modified_unix: 0,
        },
        state: FileState::OnlineOnly,
        cache_path: None,
        cloud_remote_id: Some(id.to_string()),
        local_mode: None,
        effective_pinned: false,
    }
}

fn named(name: &str) -> Option<String> {
    Some(name.to_string())
}

#[test]
fn gio_probe_detection_does_not_block_normal_reads_or_other_tools() {
    assert!(is_gio_probe_open(libc::O_RDONLY | libc::O_NOATIME, &named("nautilus")));
    assert!(is_gio_probe_open(libc::O_RDONLY | libc::O_NOATIME, &named("gio")));
    assert!(!is_gio_probe_open(libc::O_RDONLY, &named("gio")));
    assert!(!is_gio_probe_open(libc::O_RDONLY | libc::O_NOATIME, &named("cp")));
    assert!(!is_gio_probe_open(libc::O_WRONLY | libc::O_NOATIME, &named("nautilus")));
    assert!(!is_gio_probe_open(libc::O_RDONLY | libc::O_NOATIME, &None));
}

#[test]
fn the_flags_are_those_of_the_system() {
    assert_eq!(O_ACCMODE, libc::O_ACCMODE);
    assert_eq!(O_RDONLY, libc::O_RDONLY);
    assert_eq!(O_NOATIME, libc::O_NOATIME);
    assert_eq!(O_TRUNC, libc::O_TRUNC);
    assert_eq!(O_EXCL, libc::O_EXCL);
}

#[test]
fn thumbnailers_and_indexers_are_known() {
    assert!(is_thumbnail_or_indexer("/usr/bin/evince-thumbnailer x"));
    assert!(is_thumbnail_or_indexer("/usr/libexec/localsearch-3"));
    assert!(is_thumbnail_or_indexer("soffice --headless --convert-to png"));
    assert!(!is_thumbnail_or_indexer("soffice letter.odt"));
    assert!(!is_thumbnail_or_indexer("cp a b"));
    assert!(is_thumbnail_or_indexer_request("/usr/libexec/Tracker-Extract-3"));
    assert!(!is_thumbnail_or_indexer("/usr/libexec/Tracker-Extract-3"));
    assert_eq!(request_process_text("/bin/cp", "cp", "cp\0a\0b"), "/bin/cp cp cp a b");
}

#[test]
fn large_directory_refresh_preserves_inodes_and_removes_stale_names() {
    let records: Vec<FileRecord> = (0..10_000u64)
        .map(|index| record(&format!("id-{index}"), &format!("/file-{index:05}"), index))
        .collect();
    let mut table = InodeTable::new(&Vec::new());
    table.refresh_children("/", &records);
    let stable = table.ino_for_path("/file-00001").unwrap();
    table.refresh_children("/", &records[1..].to_vec());
    assert_eq!(table.ino_for_path("/file-00001"), Some(stable));
    assert_eq!(table.ino_for_path("/file-00000"), None);
    table.set_size(stable, 12345);
    let children = table.children_for_ino(ROOT_INO);
    assert_eq!(children.len(), 9999);
    assert_eq!(children[0].1.metadata.size, 12345);
}

#[test]
fn numbers_are_kept_and_forgotten() {
    let mut table = InodeTable::new(&vec![record("b", "/b", 1), record("a", "/a", 1)]);
    assert_eq!(table.ino_for_path("/"), Some(ROOT_INO));
    assert_eq!(table.ino_for_path("/a"), Some(2));
    assert_eq!(table.ino_for_path("/b"), Some(3));
    assert_eq!(table.ino_for_remote_id("b"), Some(3));
    assert_eq!(table.parent_ino("/a"), Some(ROOT_INO));
    assert_eq!(table.parent_ino("/"), Some(ROOT_INO));
    assert_eq!(table.parent_ino("/x/y"), None);
    assert_eq!(table.insert_or_update(record("c", "/c", 1)), 4);
    assert_eq!(table.insert_or_update(record("a2", "/a", 9)), 2);
    assert_eq!(table.record_for_ino(2).unwrap().metadata.remote_id, "a2");
    table.set_size(2, 3);
    assert_eq!(table.record_for_ino(2).unwrap().metadata.size, 9);
    table.replace_size(2, 3);
    assert_eq!(table.record_for_ino(2).unwrap().metadata.size, 3);
    table.replace_ino_record(2, record("a2", "/moved", 3));
    assert_eq!(table.ino_for_path("/a"), None);
    assert_eq!(table.ino_for_path("/moved"), Some(2));
    assert_eq!(table.path_for_ino(2).unwrap(), "/moved");
    table.remove_ino(2);
    assert_eq!(table.ino_for_path("/moved"), None);
    assert!(table.record_for_ino(2).is_none());
    assert_eq!(table.insert_or_update(record("d", "/d", 1)), 5);
    assert!(!table.is_empty(ROOT_INO));
}

fn numbers(table: &InodeTable, ino: u64) -> Vec<u64> {
    table.children_for_ino(ino).into_iter().map(|c| c.0).collect()
}

#[test]
fn a_new_table_lists_each_item_in_its_directory() {
    let mut dir = record("d", "/d", 0);
    dir.metadata.is_dir = true;
    let table = InodeTable::new(&vec![
        record("x", "/d/x", 1),
        record("z", "/zz", 1),
        dir,
        record("s", "/strange/s", 1),
    ]);
    assert_eq!(table.path_for_ino(2).unwrap(), "/d");
    assert_eq!(table.path_for_ino(3).unwrap(), "/d/x");
    assert_eq!(table.path_for_ino(4).unwrap(), "/strange/s");
    assert_eq!(table.path_for_ino(5).unwrap(), "/zz");
    assert_eq!(numbers(&table, ROOT_INO), vec![2, 4, 5]);
    assert_eq!(numbers(&table, 2), vec![3]);
    assert!(table.is_empty(3));
}

#[test]
fn a_path_that_occurs_twice_stands_for_the_last_item() {
    let table = InodeTable::new(&vec![record("a", "/same", 1), record("b", "/same", 2)]);
    assert_eq!(table.ino_for_path("/same"), Some(3));
    assert_eq!(table.path_for_ino(2).unwrap(), "/same");
    assert_eq!(numbers(&table, ROOT_INO), vec![2, 3]);
}

#[test]
fn a_number_is_listed_once() {
    let mut dir = record("d", "/d", 0);
    dir.metadata.is_dir = true;
    let mut table = InodeTable::new(&vec![dir, record("x", "/d/x", 1)]);
    table.insert_or_update(record("x", "/d/x", 2));
    assert_eq!(numbers(&table, 2), vec![3]);
    table.replace_ino_record(3, record("x", "/x", 2));
    assert!(table.is_empty(2));
    assert_eq!(numbers(&table, ROOT_INO), vec![2, 3]);
    table.refresh_children("/", &vec![record("y", "/y", 1), record("x", "/x", 3)]);
    assert_eq!(numbers(&table, ROOT_INO), vec![3, 4]);
    table.remove_ino(3);
    assert_eq!(numbers(&table, ROOT_INO), vec![4]);
}

#[test]
fn an_item_whose_directory_became_known_late_stays_where_it_was_too() {
    let mut table = InodeTable::new(&Vec::new());
    assert_eq!(table.insert_or_update(record("x", "/d/x", 1)), 2);
    let mut dir = record("d", "/d", 0);
    dir.metadata.is_dir = true;
    assert_eq!(table.insert_or_update(dir), 3);
    table.insert_or_update(record("x", "/d/x", 2));
    assert_eq!(numbers(&table, 3), vec![2]);
    assert_eq!(numbers(&table, ROOT_INO), vec![3, 2]);
}

#[test]
fn children_are_shown_directories_first_and_by_name() {
    let mut dir = record("z", "/zeta", 0);
    dir.metadata.is_dir = true;
    let list = vec![
        (2, record("b", "/b", 0)),
        (3, record("A", "/A", 0)),
        (4, dir),
        (5, record("a", "/a", 0)),
    ];
    let names: Vec<String> =
        sort_child_records(&list).into_iter().map(|c| c.1.metadata.name).collect();
    assert_eq!(names, vec!["zeta", "A", "a", "b"]);
}

#[test]
fn attributes_follow_the_record() {
    let mut r = record("a", "/a", 1025);
    r.metadata.modified_unix = 77;
    let attr = attr_for_record(9, &r);
    assert_eq!((attr.ino, attr.size, attr.blocks, attr.time), (9, 1025, 3, 77));
    assert_eq!((attr.perm, attr.nlink, attr.is_dir), (0o644, 1, false));
    r.local_mode = Some(0o755);
    assert_eq!(attr_for_record(9, &r).perm, 0o755);
    let root = root_attr(5);
    assert_eq!((root.ino, root.perm, root.nlink, root.is_dir), (ROOT_INO, 0o755, 2, true));
    assert_eq!(unlinked_file_attr(4, 10, 3).nlink, 0);
    assert_eq!(parent_of("/a/b/c"), "/a/b");
    assert_eq!(parent_of("/a"), "/");
}

#[test]
fn cache_names_are_plain() {
    assert_eq!(sanitize_cache_name("ab-C_9"), "ab-C_9");
    assert_eq!(sanitize_cache_name("../x!é"), "___x__");
    assert_eq!(unique_suffix(12345678901234567890123, 42), "12345678901234567890123-42");
    assert_eq!(local_upload_id("7-8"), "local-upload-7-8");
}

#[test]
fn the_cache_counts_where_state_and_file_say_so() {
    let mut r = record("a", "/a", 1);
    r.cache_path = Some("/cache/a".to_string());
    assert!(!has_existing_cache(&r, true));
    r.state = FileState::Cached;
    assert!(has_existing_cache(&r, true));
    assert!(!has_existing_cache(&r, false));
    r.cache_path = None;
    assert!(!has_existing_cache(&r, true));
}

#[test]
fn conflict_copies_have_names_of_their_own() {
    let mut r = record("remote", "/report.final.txt", 1);
    assert_eq!(stable_path_fingerprint(""), 0x811c9dc5);
    assert_eq!(stable_path_fingerprint("a"), 0xe40c292c);
    assert_eq!(stable_path_fingerprint("foobar"), 0xbf9cf968);
    let digits = format!("{:08x}", stable_path_fingerprint("remote"));
    assert_eq!(
        conflict_copy_name(&r, Some(1700000000)),
        format!("report.final (TwoDrive conflict 1700000000-{digits}).txt")
    );
    r.metadata.modified_unix = -5;
    r.metadata.name = ".profile".to_string();
    assert_eq!(
        conflict_copy_name(&r, None),
        format!(".profile (TwoDrive conflict 0-{digits})")
    );
    r.metadata.name = format!("{}.{}", "é".repeat(200), "x".repeat(100));
    let long = conflict_copy_name(&r, Some(u64::MAX));
    assert!(long.len() <= 240);
    assert!(long.contains(" (TwoDrive conflict 18446744073709551615-"));
    assert!(long.ends_with(&format!(").{}", "x".repeat(31))));
    assert_eq!(truncate_utf8("aéb", 2), "a");
    assert_eq!(truncate_utf8("aéb", 3), "aé");
    assert_eq!(truncate_utf8("aéb", 9), "aéb");
}

#[test]
fn uploads_replace_the_version_that_was_known() {
    let mut r = record("remote", "/a", 1);
    assert_eq!(record_upload_etag(&r), Some("etag".to_string()));
    assert_eq!(record_upload_remote_id(&r), Some("remote".to_string()));
    r.metadata.etag = String::new();
    assert_eq!(record_upload_etag(&r), None);
    r.metadata.etag = "etag".to_string();
    r.cloud_remote_id = None;
    assert_eq!(record_upload_etag(&r), None);
    assert_eq!(record_upload_remote_id(&r), None);
}

#[test]
fn the_original_is_given_up_after_the_copy_is_kept() {
    let r = record("remote", "/a", 1);
    let copy = record("copy", "/a (copy)", 1).metadata;
    let latest = record("remote", "/a", 2).metadata;
    let (state, order) =
        preserve_conflict_copy(Preserving::Dating, &r, "/cache/a", PreserveEvent::Dated(Some(7)));
    match order {
        PreserveOrder::Upload { parent, name, cache_path, remote_id, etag } => {
            assert_eq!(parent, "/");
            assert_eq!(name, conflict_copy_name(&r, Some(7)));
            assert_eq!(cache_path, "/cache/a");
            assert_eq!((remote_id, etag), (None, None));
        }
        _ => panic!("no upload"),
    }
    let (state, order) =
        preserve_conflict_copy(state, &r, "/cache/a", PreserveEvent::Uploaded(copy));
    assert!(matches!(order, PreserveOrder::Ask(id) if id == "remote"));
    let (state, order) =
        preserve_conflict_copy(state, &r, "/cache/a", PreserveEvent::Latest(Some(latest)));
    assert!(matches!(order, PreserveOrder::Record { copy, cache_path, latest, id }
        if copy.remote_id == "copy" && cache_path == "/cache/a" && latest.size == 2
            && id == "remote"));
    let (_, order) = preserve_conflict_copy(state, &r, "/cache/a", PreserveEvent::Recorded);
    assert!(matches!(order, PreserveOrder::Kept(e) if e.remote_id == "copy"));

    let copy = record("copy", "/a (copy)", 1).metadata;
    let asking = Preserving::Asking { copy };
    let (_, order) = preserve_conflict_copy(asking, &r, "/cache/a", PreserveEvent::Latest(None));
    assert!(matches!(order, PreserveOrder::Disappeared));
    let mut local = r;
    local.cloud_remote_id = None;
    let copy = record("copy", "/a (copy)", 1).metadata;
    let (_, order) =
        preserve_conflict_copy(Preserving::Uploading, &local, "/c", PreserveEvent::Uploaded(copy));
    assert!(matches!(order, PreserveOrder::LocalOnly));
}

#[test]
fn local_changes_outlast_a_deletion_in_the_cloud() {
    let mut r = record("a", "/a", 1);
    assert!(sync_delta_metadata(&Some(r.clone()), false));
    assert!(!sync_delta_metadata(&Some(r.clone()), true));
    assert!(!sync_delta_metadata(&None, false));
    for state in [FileState::Writing, FileState::Dirty, FileState::Uploading] {
        r.state = state;
        assert!(!sync_delta_metadata(&Some(r.clone()), false));
    }
    r.state = FileState::Conflict;
    assert!(sync_delta_metadata(&Some(r), false));
}

fn activity(id: &str, updated: Option<i64>) -> Activity {
    Activity {
        id: Some(id.to_string()),
        bytes_done: None,
        bytes_total: Some(10),
        updated_unix: updated,
        rest: "{}".to_string(),
    }
}

#[test]
fn the_list_of_transfers_is_kept() {
    let list = vec![
        activity("old", Some(0)),
        activity("new", Some(1)),
        activity("none", None),
    ];
    let mut list = drop_stale(list, 21600);
    assert_eq!(list.len(), 1);
    write_entry(&mut list, activity("x", Some(2)), "x");
    write_entry(&mut list, activity("new", Some(3)), "new");
    let ids: Vec<String> = list.iter().map(|a| a.id.clone().unwrap()).collect();
    assert_eq!(ids, vec!["x".to_string(), "new".to_string()]);
    set_progress(&mut list, "x", 5, None, 9);
    assert_eq!(list[0].bytes_done, Some(5));
    assert_eq!(list[0].bytes_total, Some(10));
    assert_eq!(list[0].updated_unix, Some(9));
    set_progress(&mut list, "x", 6, Some(7), 9);
    assert_eq!(list[0].bytes_total, Some(7));
    set_progress(&mut list, "missing", 6, Some(7), 9);
    finish(&mut list, "x");
    assert_eq!(list.len(), 1);
}

#[test]
fn progress_is_written_now_and_then() {
    let mut guard = ActivityGuard::start("download", "5-6", 1_000);
    assert_eq!(guard.id, "download-5-6");
    assert!(!guard.set_progress(1_048_575, None, 2_000));
    assert!(guard.set_progress(1_048_576, None, 2_000));
    assert!(!guard.set_progress(1_048_577, None, 750_001_999));
    assert!(guard.set_progress(1_048_577, None, 750_002_000));
    assert!(guard.set_progress(1_048_578, Some(1_048_578), 750_002_000));
    assert!(guard.finish());
    assert!(!guard.finish());
}
