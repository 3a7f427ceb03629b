//! Files that are open for writing, and new files.

use super::{lemma_handles_after, record_at, FsError, FsView, TwoDriveFs, WriteHandle};
use crate::fs::conflicts::{record_upload_etag, upload_etag};
use crate::fs::inodes::{
    attr_for_record, attr_of, inserted, number_of, replaced, sized, FileAttr,
};
use crate::fs::probes::{O_EXCL, O_TRUNC};
use crate::fs::record::{cache_name, copy_option, sanitize_cache_name, FileRecord};
use crate::fs::upload_queue::UploadCommand;
use crate::text::{chars_of, option_text, same_text};
use vstd::prelude::*;

verus! {

/// A name that an item can have: not empty and without a slash.
pub open spec fn valid_name(name: Seq<char>) -> bool {
    name.len() > 0 && forall|i: int| 0 <= i < name.len() ==> #[trigger] name[i] != '/'
}

/// Whether a name is one that an item can have.
pub fn is_valid_name(name: &str) -> (r: bool)
    ensures
        r == valid_name(name@),
{
    let c = chars_of(name);
    let mut i: usize = 0;
    while i < c.len()
        invariant
            i <= c@.len(),
            c@ == name@,
            forall|j: int| 0 <= j < i ==> #[trigger] name@[j] != '/',
        decreases c@.len() - i,
    {
        if c[i] == '/' {
            assert(name@[i as int] == '/');
            return false;
        }
        i += 1;
    }
    c.len() > 0
}

/// Why nothing can be made in a directory under a name, if it cannot.
pub open spec fn creation_refusal(v: FsView, parent: u64, name: Option<Seq<char>>) -> Option<
    FsError,
> {
    if !v.inodes.paths.contains_key(parent) {
        Some(FsError::ParentMissing)
    } else if record_at(v, parent) matches Some(f) && !f.metadata.is_dir {
        Some(FsError::ParentNotDirectory)
    } else {
        match name {
            None => Some(FsError::BadName),
            Some(n) => if valid_name(n) {
                None
            } else {
                Some(FsError::BadName)
            },
        }
    }
}

/// Where the content of a file that is to be written is.
pub enum WriteCache {
    /// At a path that is known.
    Path(String),
    /// In the cache file of a name.
    Name(String),
    /// It is to be brought.
    Hydrate,
}

/// The content is to be where it is, or in a cache file of its own; it is to be
/// brought only if some of it stays.
pub open spec fn write_cache(record: FileRecord, emptied: bool, r: WriteCache) -> bool {
    if !emptied {
        r == WriteCache::Hydrate
    } else {
        match record.cache_path {
            Some(p) => r == WriteCache::Path(p),
            None => r matches WriteCache::Name(n) && n@ == cache_name(record.metadata.remote_id@),
        }
    }
}

fn choose_cache(record: &FileRecord, emptied: bool) -> (r: WriteCache)
    ensures
        write_cache(*record, emptied, r),
{
    if !emptied {
        return WriteCache::Hydrate;
    }
    match &record.cache_path {
        Some(p) => WriteCache::Path(p.clone()),
        None => WriteCache::Name(sanitize_cache_name(record.metadata.remote_id.as_str())),
    }
}

/// A file that is being made, or opened for writing.
pub enum Creating {
    /// What is stored at the path is awaited.
    Looking { id: String, flags: i32, mode: u32 },
    /// The new cache file is awaited.
    Making { id: String, path: String, mode: u32 },
    /// The new file is being recorded.
    Recording { id: String, path: String, cache_path: String },
    /// What was begun is being undone.
    Undoing,
    /// The path of the content is awaited.
    Caching { ino: u64, record: FileRecord, truncate: bool },
    /// The content is being opened.
    Opening { ino: u64, record: FileRecord, truncate: bool, cache_path: String },
    /// It is being recorded that the item is written.
    Marking { ino: u64, record: FileRecord, cache_path: String },
    Ended,
}

/// What came of an order.
pub enum CreateEvent {
    /// The path, and what is stored there.
    Existing(String, Option<FileRecord>),
    /// The cache file at a path is there and open.
    Made(String),
    Recorded(FileRecord),
    Undone,
    /// The path of the content.
    Cached(String),
    /// The content was opened; whether it is still there.
    Opened(bool),
    /// What is known of the item now.
    Marked(Option<FileRecord>),
    /// The order failed.
    Failed,
}

/// What is to be done next about a file that is being made, or opened for
/// writing.
pub enum CreateOrder {
    /// The name is to be joined to the path of its directory, and what is
    /// stored there to be looked up.
    Find(String, String),
    /// A new cache file of a name is to be made.
    MakeCache(String),
    /// A new item is to be recorded.
    Record { id: String, path: String, cache_path: String, mode: u32 },
    /// What is known of an item is to be forgotten, and its cache file removed.
    Undo { id: String, cache_path: String },
    /// The path of the content is to be found.
    Cache(FileRecord, WriteCache),
    /// The content at a path is to be opened, and made if it is not there.
    Open(String),
    /// The content is to be emptied, if that is asked for, and it is to be
    /// recorded where it is and that the item is written.
    Mark { id: String, cache_path: String, truncate: bool },
    /// It is open: the number of the item, of the open file, and what is shown.
    Opened(u64, u64, FileAttr),
    /// It failed.
    Failed(FsError),
    /// It failed because an order did.
    GivenUp,
}

/// The number of the item that is opened was given.
pub open spec fn creating_sound(s: Creating, v: FsView) -> bool {
    match s {
        Creating::Caching { ino, .. } => ino < v.inodes.next_ino,
        Creating::Opening { ino, .. } => ino < v.inodes.next_ino,
        Creating::Marking { ino, .. } => ino < v.inodes.next_ino,
        _ => true,
    }
}

/// How the opening of an item for writing begins.
pub open spec fn overwriting(
    v: FsView,
    record: FileRecord,
    truncate: bool,
    t: Creating,
    o: CreateOrder,
) -> bool {
    if record.metadata.is_dir {
        t == Creating::Ended && o == CreateOrder::Failed(FsError::IsDirectory)
    } else if !v.inodes.inos.contains_key(record.metadata.path@) {
        t == Creating::Ended && o == CreateOrder::Failed(FsError::InodeDisappeared)
    } else {
        &&& t == (Creating::Caching {
            ino: v.inodes.inos[record.metadata.path@],
            record,
            truncate,
        })
        &&& o matches CreateOrder::Cache(f, c) && f == record && write_cache(record, truncate, c)
    }
}

/// The file system after a new file was opened for writing.
pub open spec fn with_new_file(
    v: FsView,
    record: FileRecord,
    path: String,
    id: String,
    cache_path: String,
) -> FsView {
    FsView {
        inodes: inserted(v.inodes, record),
        writes: v.writes.insert(
            v.next_fh,
            WriteHandle {
                ino: number_of(v.inodes, record.metadata.path@),
                path,
                record_remote_id: id,
                cache_path,
                active: true,
                uploaded: false,
                created_new_record: true,
                unlinked: false,
                base_etag: None,
            },
        ),
        next_fh: (v.next_fh + 1) as u64,
        ..v
    }
}

/// The file system after an item was opened for writing.
pub open spec fn with_open_file(
    v: FsView,
    ino: u64,
    record: FileRecord,
    updated: FileRecord,
    cache_path: String,
) -> FsView {
    FsView {
        inodes: replaced(v.inodes, ino, updated),
        writes: v.writes.insert(
            v.next_fh,
            WriteHandle {
                ino,
                path: record.metadata.path,
                record_remote_id: record.metadata.remote_id,
                cache_path,
                active: true,
                uploaded: false,
                created_new_record: false,
                unlinked: false,
                base_etag: upload_etag(record),
            },
        ),
        next_fh: (v.next_fh + 1) as u64,
        ..v
    }
}

/// One step of making a file, or of opening one for writing: an item that is
/// there is opened, unless it may not be there; what cannot be recorded is
/// undone; content that is gone when it was opened is not written, since what
/// would be written to a file without a name would be lost. An event that
/// answers no order ends it.
pub open spec fn creates(
    v: FsView,
    s: Creating,
    e: CreateEvent,
    w: FsView,
    t: Creating,
    o: CreateOrder,
) -> bool {
    match (s, e) {
        (Creating::Looking { id, flags, mode }, CreateEvent::Existing(path, Some(f))) => {
            &&& w == v
            &&& if flags & O_EXCL != 0 {
                t == Creating::Ended && o == CreateOrder::Failed(FsError::AlreadyExists)
            } else {
                overwriting(v, f, flags & O_TRUNC != 0, t, o)
            }
        },
        (Creating::Looking { id, flags, mode }, CreateEvent::Existing(path, None)) => {
            &&& w == v
            &&& t == (Creating::Making { id, path, mode })
            &&& o matches CreateOrder::MakeCache(n) && n@ == cache_name(id@)
        },
        (Creating::Making { id, path, mode }, CreateEvent::Made(cache_path)) => {
            &&& w == v
            &&& t == (Creating::Recording { id, path, cache_path })
            &&& o == (CreateOrder::Record { id, path, cache_path, mode })
        },
        (Creating::Recording { id, path, cache_path }, CreateEvent::Recorded(record)) => {
            let ino = number_of(v.inodes, record.metadata.path@);
            &&& w == with_new_file(v, record, path, id, cache_path)
            &&& t == Creating::Ended
            &&& o == CreateOrder::Opened(ino, v.next_fh, attr_of(ino, record))
        },
        (Creating::Recording { id, path, cache_path }, CreateEvent::Failed) => {
            &&& w == v
            &&& t == Creating::Undoing
            &&& o == (CreateOrder::Undo { id, cache_path })
        },
        (Creating::Caching { ino, record, truncate }, CreateEvent::Cached(cache_path)) => {
            &&& w == v
            &&& t == (Creating::Opening { ino, record, truncate, cache_path })
            &&& o == CreateOrder::Open(cache_path)
        },
        (
            Creating::Opening { ino, record, truncate, cache_path },
            CreateEvent::Opened(exists),
        ) => {
            &&& w == v
            &&& if exists {
                &&& t == (Creating::Marking { ino, record, cache_path })
                &&& o == (CreateOrder::Mark { id: record.metadata.remote_id, cache_path, truncate })
            } else {
                t == Creating::Ended && o == CreateOrder::Failed(FsError::CacheReleased)
            }
        },
        (Creating::Marking { ino, record, cache_path }, CreateEvent::Marked(Some(updated))) => {
            &&& w == with_open_file(v, ino, record, updated, cache_path)
            &&& t == Creating::Ended
            &&& o == CreateOrder::Opened(ino, v.next_fh, attr_of(ino, updated))
        },
        (Creating::Marking { ino, record, cache_path }, CreateEvent::Marked(None)) => {
            w == v && t == Creating::Ended && o == CreateOrder::Failed(FsError::RecordDisappeared)
        },
        _ => w == v && t == Creating::Ended && o == CreateOrder::GivenUp,
    }
}

/// What is to be done when a file that was open for writing is closed.
pub enum QueueStep {
    /// Nothing.
    Nothing,
    /// The cache file is to be made safe and its size recorded for an item.
    Record(String, String),
}

/// An upload for a file that is open for writing.
pub enum Uploading {
    /// What the cloud knows of the item is awaited.
    Marking,
    /// The content is being uploaded.
    Sending,
    /// What is known of the item that is in conflict is awaited.
    Conflicted,
    /// A copy is being kept.
    Preserving,
    /// What is known of the item after a copy was kept is awaited.
    Original { copy: String },
    /// What is known of the copy is awaited.
    Copied,
    /// The upload is being recorded.
    Committing { uploaded: String },
    /// What was uploaded is being given up, in favour of what is recorded.
    Discarding { record: FileRecord },
    /// The last order before it fails was given.
    Failing,
    Ended,
}

/// What came of an order.
pub enum UploadEvent {
    /// The identifier that the cloud has for the item, if there is one.
    Marked(Option<String>),
    /// The content was uploaded, to the item with an identifier.
    Uploaded(String),
    /// The cloud has another content.
    Conflict,
    /// What is known of an item.
    Record(Option<FileRecord>),
    /// A copy was kept, as the item with an identifier.
    Preserved(String),
    /// The upload was recorded; what is known of the item now.
    Committed(FileRecord),
    /// The order was carried out.
    Done,
    /// The order failed.
    Failed,
}

/// What is to be done next about an upload.
pub enum UploadOrder {
    /// The item, if it is known, is to be recorded as uploading, and the
    /// identifier that the cloud has for it to be looked up.
    Mark(String),
    /// The content is to be uploaded.
    Upload {
        path: String,
        cache_path: String,
        remote_id: Option<String>,
        etag: Option<String>,
    },
    /// The item is to be recorded as being in conflict, and what is known of it
    /// to be looked up.
    MarkConflict(String),
    /// A copy of the content is to be kept.
    Preserve(FileRecord, String),
    /// What is known of an item is to be looked up.
    Find(String),
    /// The item is to be recorded as changed.
    MarkDirty(String),
    /// The upload is to be recorded.
    Commit { id: String, path: String, uploaded: String, cache_path: String },
    /// An item is to be deleted from the cloud.
    Discard { uploaded: String, path: String },
    /// It is done.
    Done,
    /// It failed.
    Failed(FsError),
    /// It failed because an order did.
    GivenUp,
}

/// One step of an upload for a file that is open for writing: a conflict keeps
/// both contents; what was uploaded and is not what is recorded is deleted
/// again. An event that answers no order ends it.
pub open spec fn uploads(
    v: FsView,
    fh: u64,
    s: Uploading,
    e: UploadEvent,
    w: FsView,
    t: Uploading,
    o: UploadOrder,
) -> bool {
    if !v.writes.contains_key(fh) {
        w == v && t == Uploading::Ended && o == UploadOrder::GivenUp
    } else {
        let h = v.writes[fh];
        match (s, e) {
            (Uploading::Marking, UploadEvent::Marked(remote_id)) => {
                &&& w == v
                &&& t == Uploading::Sending
                &&& o == (UploadOrder::Upload {
                    path: h.path,
                    cache_path: h.cache_path,
                    remote_id,
                    etag: h.base_etag,
                })
            },
            (Uploading::Sending, UploadEvent::Uploaded(uploaded)) => {
                &&& w == v
                &&& t == (Uploading::Committing { uploaded })
                &&& o == (UploadOrder::Commit {
                    id: h.record_remote_id,
                    path: h.path,
                    uploaded,
                    cache_path: h.cache_path,
                })
            },
            (Uploading::Sending, UploadEvent::Conflict) => {
                &&& w == v
                &&& t == Uploading::Conflicted
                &&& o == UploadOrder::MarkConflict(h.record_remote_id)
            },
            (Uploading::Sending, UploadEvent::Failed) => {
                &&& w == v
                &&& t == Uploading::Failing
                &&& o == UploadOrder::MarkDirty(h.record_remote_id)
            },
            (Uploading::Conflicted, UploadEvent::Record(Some(f))) => {
                &&& w == v
                &&& t == Uploading::Preserving
                &&& o == UploadOrder::Preserve(f, h.cache_path)
            },
            (Uploading::Preserving, UploadEvent::Preserved(copy)) => {
                &&& w == v
                &&& t == (Uploading::Original { copy })
                &&& o == UploadOrder::Find(h.record_remote_id)
            },
            (Uploading::Original { copy }, UploadEvent::Record(Some(f))) => {
                &&& w == (FsView { inodes: replaced(v.inodes, h.ino, f), ..v })
                &&& t == Uploading::Copied
                &&& o == UploadOrder::Find(copy)
            },
            (Uploading::Copied, UploadEvent::Record(Some(f))) => {
                &&& w == handle_done(FsView { inodes: inserted(v.inodes, f), ..v }, fh)
                &&& t == Uploading::Ended
                &&& o == UploadOrder::Done
            },
            (Uploading::Conflicted, UploadEvent::Record(None))
            | (Uploading::Original { .. }, UploadEvent::Record(None))
            | (Uploading::Copied, UploadEvent::Record(None)) => {
                &&& w == v
                &&& t == Uploading::Ended
                &&& o == UploadOrder::Failed(FsError::RecordDisappeared)
            },
            (Uploading::Committing { uploaded }, UploadEvent::Committed(f)) => {
                if option_text(f.cloud_remote_id) == Some(uploaded@) {
                    &&& w == handle_done(FsView { inodes: replaced(v.inodes, h.ino, f), ..v }, fh)
                    &&& t == Uploading::Ended
                    &&& o == UploadOrder::Done
                } else {
                    &&& w == v
                    &&& t == (Uploading::Discarding { record: f })
                    &&& o == (UploadOrder::Discard { uploaded, path: h.path })
                }
            },
            (Uploading::Committing { uploaded }, UploadEvent::Failed) => {
                &&& w == v
                &&& t == Uploading::Failing
                &&& o == (UploadOrder::Discard { uploaded, path: h.path })
            },
            (Uploading::Discarding { record }, UploadEvent::Done) => {
                &&& w == handle_done(
                    FsView { inodes: replaced(v.inodes, h.ino, record), ..v },
                    fh,
                )
                &&& t == Uploading::Ended
                &&& o == UploadOrder::Done
            },
            _ => w == v && t == Uploading::Ended && o == UploadOrder::GivenUp,
        }
    }
}

/// A handle whose content is done with.
pub open spec fn done_with(h: WriteHandle) -> WriteHandle {
    WriteHandle { uploaded: true, active: false, ..h }
}

/// The file system after the content of a handle is done with.
pub open spec fn handle_done(v: FsView, fh: u64) -> FsView {
    if v.writes.contains_key(fh) {
        FsView { writes: v.writes.insert(fh, done_with(v.writes[fh])), ..v }
    } else {
        v
    }
}

impl TwoDriveFs {
    fn add_write(&mut self, handle: WriteHandle) -> (fh: u64)
        requires
            old(self).wf(),
            handle.ino < old(self)@.inodes.next_ino,
            old(self)@.next_fh < u64::MAX,
        ensures
            final(self).wf(),
            fh == old(self)@.next_fh,
            final(self)@ == (FsView {
                writes: old(self)@.writes.insert(fh, handle),
                next_fh: (fh + 1) as u64,
                ..old(self)@
            }),
    {
        let fh: u64 = self.next_fh;
        self.next_fh = fh + 1;
        let _ = self.writes.insert(fh, handle);
        proof {
            lemma_handles_after(old(self)@, self@);
        }
        fh
    }

    /// Begins to make a file in a directory, under a name that is given where
    /// it is text, with the flags and permissions that are asked for. `id`
    /// identifies the item if it is new.
    pub fn create_upload_with_mode(
        &self,
        parent: u64,
        name: &Option<String>,
        flags: i32,
        mode: u32,
        id: String,
    ) -> (r: (Creating, CreateOrder))
        ensures
            match creation_refusal(self@, parent, option_text(*name)) {
                Some(e) => r == (Creating::Ended, CreateOrder::Failed(e)),
                None => r == (
                    Creating::Looking { id, flags, mode },
                    CreateOrder::Find(self@.inodes.paths[parent], name->0),
                ),
            },
    {
        let path = match self.inodes.path_for_ino(parent) {
            Some(p) => p.clone(),
            None => return (Creating::Ended, CreateOrder::Failed(FsError::ParentMissing)),
        };
        match self.record_for_ino(parent) {
            Some(f) => if !f.metadata.is_dir {
                return (Creating::Ended, CreateOrder::Failed(FsError::ParentNotDirectory));
            },
            None => {},
        }
        match name {
            None => (Creating::Ended, CreateOrder::Failed(FsError::BadName)),
            Some(n) => if is_valid_name(n.as_str()) {
                (Creating::Looking { id, flags, mode }, CreateOrder::Find(path, n.clone()))
            } else {
                (Creating::Ended, CreateOrder::Failed(FsError::BadName))
            },
        }
    }

    /// Begins to open an item for writing, and to empty it or not.
    pub fn create_overwrite_upload(&self, record: FileRecord, truncate: bool) -> (r: (
        Creating,
        CreateOrder,
    ))
        requires
            self.wf(),
        ensures
            overwriting(self@, record, truncate, r.0, r.1),
            creating_sound(r.0, self@),
    {
        if record.metadata.is_dir {
            return (Creating::Ended, CreateOrder::Failed(FsError::IsDirectory));
        }
        proof {
            self.inodes.lemma_wf();
        }
        match self.inodes.ino_for_path(record.metadata.path.as_str()) {
            None => (Creating::Ended, CreateOrder::Failed(FsError::InodeDisappeared)),
            Some(ino) => {
                let cache = choose_cache(&record, truncate);
                let order = CreateOrder::Cache(record.clone(), cache);
                (Creating::Caching { ino, record, truncate }, order)
            },
        }
    }

    /// Goes on with making a file, or opening one for writing, with what came
    /// of the last order.
    pub fn go_on_creating(&mut self, state: Creating, event: CreateEvent) -> (r: (
        Creating,
        CreateOrder,
    ))
        requires
            old(self).wf(),
            old(self)@.next_fh < u64::MAX,
            old(self)@.inodes.next_ino < u64::MAX,
            creating_sound(state, old(self)@),
        ensures
            final(self).wf(),
            creating_sound(r.0, final(self)@),
            creates(old(self)@, state, event, final(self)@, r.0, r.1),
    {
        match (state, event) {
            (Creating::Looking { id, flags, mode }, CreateEvent::Existing(path, Some(f))) => {
                if flags & O_EXCL != 0 {
                    return (Creating::Ended, CreateOrder::Failed(FsError::AlreadyExists));
                }
                self.create_overwrite_upload(f, flags & O_TRUNC != 0)
            },
            (Creating::Looking { id, flags, mode }, CreateEvent::Existing(path, None)) => {
                let order = CreateOrder::MakeCache(sanitize_cache_name(id.as_str()));
                (Creating::Making { id, path, mode }, order)
            },
            (Creating::Making { id, path, mode }, CreateEvent::Made(cache_path)) => {
                let order = CreateOrder::Record {
                    id: id.clone(),
                    path: path.clone(),
                    cache_path: cache_path.clone(),
                    mode,
                };
                (Creating::Recording { id, path, cache_path }, order)
            },
            (Creating::Recording { id, path, cache_path }, CreateEvent::Recorded(record)) => {
                let (ino, fh, attr) = self.created_upload(record, path, id, cache_path);
                (Creating::Ended, CreateOrder::Opened(ino, fh, attr))
            },
            (Creating::Recording { id, path, cache_path }, CreateEvent::Failed) => (
                Creating::Undoing,
                CreateOrder::Undo { id, cache_path },
            ),
            (Creating::Caching { ino, record, truncate }, CreateEvent::Cached(cache_path)) => {
                let order = CreateOrder::Open(cache_path.clone());
                (Creating::Opening { ino, record, truncate, cache_path }, order)
            },
            (
                Creating::Opening { ino, record, truncate, cache_path },
                CreateEvent::Opened(exists),
            ) => {
                if !exists {
                    return (Creating::Ended, CreateOrder::Failed(FsError::CacheReleased));
                }
                let order = CreateOrder::Mark {
                    id: record.metadata.remote_id.clone(),
                    cache_path: cache_path.clone(),
                    truncate,
                };
                (Creating::Marking { ino, record, cache_path }, order)
            },
            (
                Creating::Marking { ino, record, cache_path },
                CreateEvent::Marked(Some(updated)),
            ) => {
                let (fh, attr) = self.overwrite_opened(ino, record, updated, cache_path);
                (Creating::Ended, CreateOrder::Opened(ino, fh, attr))
            },
            (Creating::Marking { ino, record, cache_path }, CreateEvent::Marked(None)) => (
                Creating::Ended,
                CreateOrder::Failed(FsError::RecordDisappeared),
            ),
            _ => (Creating::Ended, CreateOrder::GivenUp),
        }
    }

    /// Adds a new file, recorded with an identifier and a cache file, and opens
    /// it for writing.
    fn created_upload(
        &mut self,
        record: FileRecord,
        path: String,
        id: String,
        cache_path: String,
    ) -> (r: (u64, u64, FileAttr))
        requires
            old(self).wf(),
            old(self)@.next_fh < u64::MAX,
            old(self)@.inodes.next_ino < u64::MAX,
        ensures
            final(self).wf(),
            r.0 == number_of(old(self)@.inodes, record.metadata.path@),
            r.1 == old(self)@.next_fh,
            r.2 == attr_of(r.0, record),
            final(self)@ == with_new_file(old(self)@, record, path, id, cache_path),
    {
        let ino = self.inodes.insert_or_update(record.clone());
        proof {
            lemma_handles_after(old(self)@, self@);
            self.inodes.lemma_wf();
            assert(self@.inodes.inos.contains_key(record.metadata.path@));
        }
        let fh = self.add_write(
            WriteHandle {
                ino,
                path,
                record_remote_id: id,
                cache_path,
                active: true,
                uploaded: false,
                created_new_record: true,
                unlinked: false,
                base_etag: None,
            },
        );
        (ino, fh, attr_for_record(ino, &record))
    }

    /// Opens an item for writing that was recorded as being written; `updated`
    /// is what is known of it after that.
    fn overwrite_opened(
        &mut self,
        ino: u64,
        record: FileRecord,
        updated: FileRecord,
        cache_path: String,
    ) -> (r: (u64, FileAttr))
        requires
            old(self).wf(),
            old(self)@.next_fh < u64::MAX,
            ino < old(self)@.inodes.next_ino,
        ensures
            final(self).wf(),
            r == (old(self)@.next_fh, attr_of(ino, updated)),
            final(self)@ == with_open_file(old(self)@, ino, record, updated, cache_path),
    {
        self.inodes.replace_ino_record(ino, updated.clone());
        proof {
            lemma_handles_after(old(self)@, self@);
        }
        let base_etag = record_upload_etag(&record);
        let fh = self.add_write(
            WriteHandle {
                ino,
                path: record.metadata.path,
                record_remote_id: record.metadata.remote_id,
                cache_path,
                active: true,
                uploaded: false,
                created_new_record: false,
                unlinked: false,
                base_etag,
            },
        );
        (fh, attr_for_record(ino, &updated))
    }

    fn finish_handle(&mut self, fh: u64)
        requires
            old(self).wf(),
        ensures
            final(self).wf(),
            final(self)@ == handle_done(old(self)@, fh),
    {
        match self.writes.remove(fh) {
            None => {
                assert(self@.writes =~= old(self)@.writes);
            },
            Some(h) => {
                let mut h = h;
                h.uploaded = true;
                h.active = false;
                let ghost done = h;
                let _ = self.writes.insert(fh, h);
                assert(self@.writes =~= old(self)@.writes.insert(fh, done));
            },
        }
        proof {
            lemma_handles_after(old(self)@, self@);
        }
    }

    /// Begins the upload for a file that is open for writing. Nothing is to be
    /// done where that was done or the file has no name any more.
    pub fn upload_handle(&mut self, fh: u64) -> (r: (Uploading, UploadOrder))
        requires
            old(self).wf(),
        ensures
            final(self).wf(),
            !old(self)@.writes.contains_key(fh) || old(self)@.writes[fh].uploaded ==> r == (
                Uploading::Ended,
                UploadOrder::Done,
            ) && final(self)@ == old(self)@,
            old(self)@.writes.contains_key(fh) && !old(self)@.writes[fh].uploaded ==> {
                let h = old(self)@.writes[fh];
                if h.unlinked {
                    r == (Uploading::Ended, UploadOrder::Done) && final(self)@ == handle_done(
                        old(self)@,
                        fh,
                    )
                } else {
                    r == (Uploading::Marking, UploadOrder::Mark(h.record_remote_id)) && final(self)@ == old(self)@
                }
            },
    {
        let (uploaded, unlinked, id) = match self.writes.get(fh) {
            None => return (Uploading::Ended, UploadOrder::Done),
            Some(h) => (h.uploaded, h.unlinked, h.record_remote_id.clone()),
        };
        if uploaded {
            return (Uploading::Ended, UploadOrder::Done);
        }
        if unlinked {
            self.finish_handle(fh);
            return (Uploading::Ended, UploadOrder::Done);
        }
        (Uploading::Marking, UploadOrder::Mark(id))
    }

    /// Goes on with the upload for a file that is open for writing, with what
    /// came of the last order.
    pub fn go_on_uploading(&mut self, fh: u64, state: Uploading, event: UploadEvent) -> (r: (
        Uploading,
        UploadOrder,
    ))
        requires
            old(self).wf(),
            old(self)@.inodes.next_ino < u64::MAX,
        ensures
            final(self).wf(),
            uploads(old(self)@, fh, state, event, final(self)@, r.0, r.1),
    {
        let (ino, path, id, cache_path, base_etag) = match self.writes.get(fh) {
            None => return (Uploading::Ended, UploadOrder::GivenUp),
            Some(h) => (
                h.ino,
                h.path.clone(),
                h.record_remote_id.clone(),
                h.cache_path.clone(),
                copy_option(&h.base_etag),
            ),
        };
        match (state, event) {
            (Uploading::Marking, UploadEvent::Marked(remote_id)) => (
                Uploading::Sending,
                UploadOrder::Upload { path, cache_path, remote_id, etag: base_etag },
            ),
            (Uploading::Sending, UploadEvent::Uploaded(uploaded)) => {
                let order = UploadOrder::Commit {
                    id,
                    path,
                    uploaded: uploaded.clone(),
                    cache_path,
                };
                (Uploading::Committing { uploaded }, order)
            },
            (Uploading::Sending, UploadEvent::Conflict) => (
                Uploading::Conflicted,
                UploadOrder::MarkConflict(id),
            ),
            (Uploading::Sending, UploadEvent::Failed) => (
                Uploading::Failing,
                UploadOrder::MarkDirty(id),
            ),
            (Uploading::Conflicted, UploadEvent::Record(Some(f))) => (
                Uploading::Preserving,
                UploadOrder::Preserve(f, cache_path),
            ),
            (Uploading::Preserving, UploadEvent::Preserved(copy)) => (
                Uploading::Original { copy },
                UploadOrder::Find(id),
            ),
            (Uploading::Original { copy }, UploadEvent::Record(Some(f))) => {
                self.inodes.replace_ino_record(ino, f);
                proof {
                    lemma_handles_after(old(self)@, self@);
                }
                (Uploading::Copied, UploadOrder::Find(copy))
            },
            (Uploading::Copied, UploadEvent::Record(Some(f))) => {
                let _ = self.inodes.insert_or_update(f);
                proof {
                    lemma_handles_after(old(self)@, self@);
                }
                self.finish_handle(fh);
                (Uploading::Ended, UploadOrder::Done)
            },
            (Uploading::Conflicted, UploadEvent::Record(None))
            | (Uploading::Original { .. }, UploadEvent::Record(None))
            | (Uploading::Copied, UploadEvent::Record(None)) => (
                Uploading::Ended,
                UploadOrder::Failed(FsError::RecordDisappeared),
            ),
            (Uploading::Committing { uploaded }, UploadEvent::Committed(f)) => {
                let same = match &f.cloud_remote_id {
                    Some(id) => same_text(id.as_str(), uploaded.as_str()),
                    None => false,
                };
                if !same {
                    return (
                        Uploading::Discarding { record: f },
                        UploadOrder::Discard { uploaded, path },
                    );
                }
                self.replace_and_finish(fh, ino, f);
                (Uploading::Ended, UploadOrder::Done)
            },
            (Uploading::Committing { uploaded }, UploadEvent::Failed) => (
                Uploading::Failing,
                UploadOrder::Discard { uploaded, path },
            ),
            (Uploading::Discarding { record }, UploadEvent::Done) => {
                self.replace_and_finish(fh, ino, record);
                (Uploading::Ended, UploadOrder::Done)
            },
            _ => (Uploading::Ended, UploadOrder::GivenUp),
        }
    }

    fn replace_and_finish(&mut self, fh: u64, ino: u64, record: FileRecord)
        requires
            old(self).wf(),
            ino < old(self)@.inodes.next_ino,
        ensures
            final(self).wf(),
            final(self)@ == handle_done(
                FsView { inodes: replaced(old(self)@.inodes, ino, record), ..old(self)@ },
                fh,
            ),
    {
        self.inodes.replace_ino_record(ino, record);
        proof {
            lemma_handles_after(old(self)@, self@);
        }
        self.finish_handle(fh);
    }

    /// What is to be done about the content of a file that is being closed.
    pub fn queue_upload_handle(&mut self, fh: u64) -> (r: QueueStep)
        requires
            old(self).wf(),
        ensures
            final(self).wf(),
            !old(self)@.writes.contains_key(fh) || old(self)@.writes[fh].uploaded ==> r
                == QueueStep::Nothing && final(self)@ == old(self)@,
            old(self)@.writes.contains_key(fh) && !old(self)@.writes[fh].uploaded ==> {
                let h = old(self)@.writes[fh];
                if h.unlinked {
                    r == QueueStep::Nothing && final(self)@ == handle_done(old(self)@, fh)
                } else {
                    r == QueueStep::Record(h.cache_path, h.record_remote_id) && final(self)@
                        == old(self)@
                }
            },
    {
        let (uploaded, unlinked) = match self.writes.get(fh) {
            None => return QueueStep::Nothing,
            Some(h) => (h.uploaded, h.unlinked),
        };
        if uploaded {
            return QueueStep::Nothing;
        }
        if unlinked {
            self.finish_handle(fh);
            return QueueStep::Nothing;
        }
        match self.writes.get(fh) {
            None => QueueStep::Nothing,
            Some(h) => QueueStep::Record(h.cache_path.clone(), h.record_remote_id.clone()),
        }
    }

    /// The content of a file that is being closed was recorded: what is known
    /// of the item now is shown at once, and the item waits to be uploaded.
    pub fn upload_queued(&mut self, fh: u64, record: Option<FileRecord>) -> (r: Result<
        UploadCommand,
        FsError,
    >)
        requires
            old(self).wf(),
        ensures
            final(self).wf(),
            !old(self)@.writes.contains_key(fh) ==> r == Err::<UploadCommand, FsError>(
                FsError::NoHandle,
            ) && final(self)@ == old(self)@,
            old(self)@.writes.contains_key(fh) ==> match record {
                None => r == Err::<UploadCommand, FsError>(FsError::RecordDisappeared) && final(self)@ == old(self)@,
                Some(f) => {
                    &&& r == Ok::<UploadCommand, FsError>(
                        UploadCommand::Upload(old(self)@.writes[fh].record_remote_id),
                    )
                    &&& final(self)@ == handle_done(
                        FsView {
                            inodes: replaced(old(self)@.inodes, old(self)@.writes[fh].ino, f),
                            ..old(self)@
                        },
                        fh,
                    )
                },
            },
    {
        let (ino, id) = match self.writes.get(fh) {
            None => return Err(FsError::NoHandle),
            Some(h) => (h.ino, h.record_remote_id.clone()),
        };
        let record = match record {
            Some(f) => f,
            None => return Err(FsError::RecordDisappeared),
        };
        self.replace_and_finish(fh, ino, record);
        Ok(UploadCommand::Upload(id))
    }

    /// Where the content of a file that is open for writing is.
    pub fn sync_handle(&self, fh: u64) -> (r: Result<String, FsError>)
        ensures
            r == if self@.writes.contains_key(fh) {
                Ok(self@.writes[fh].cache_path)
            } else {
                Err(FsError::NoHandle)
            },
    {
        match self.writes.get(fh) {
            Some(h) => Ok(h.cache_path.clone()),
            None => Err(FsError::NoHandle),
        }
    }

    /// Closes a file that was open for writing.
    pub fn remove_write_handle(&mut self, fh: u64)
        requires
            old(self).wf(),
        ensures
            final(self).wf(),
            final(self)@ == (FsView { writes: old(self)@.writes.remove(fh), ..old(self)@ }),
    {
        let _ = self.writes.remove(fh);
        proof {
            lemma_handles_after(old(self)@, self@);
        }
    }

    /// The size of an item was changed without it being open, and was recorded:
    /// the item waits to be uploaded.
    pub fn truncated(&mut self, ino: u64, record: &FileRecord, size: u64) -> (r: UploadCommand)
        requires
            old(self).wf(),
        ensures
            final(self).wf(),
            final(self)@ == (FsView {
                inodes: sized(old(self)@.inodes, ino, size),
                ..old(self)@
            }),
            r == UploadCommand::Upload(record.metadata.remote_id),
    {
        self.inodes.replace_size(ino, size);
        proof {
            lemma_handles_after(old(self)@, self@);
        }
        UploadCommand::Upload(record.metadata.remote_id.clone())
    }
}

/// Where the content of a cached item is that is to be made safe. `record` is
/// what is known of it now.
pub fn sync_cached_record(record: &Option<FileRecord>) -> (r: Result<String, FsError>)
    ensures
        r == match *record {
            None => Err(FsError::RecordMissing),
            Some(f) => match f.cache_path {
                None => Err(FsError::NoCache),
                Some(p) => Ok(p),
            },
        },
{
    match record {
        None => Err(FsError::RecordMissing),
        Some(f) => match &f.cache_path {
            None => Err(FsError::NoCache),
            Some(p) => Ok(p.clone()),
        },
    }
}

/// Where the content of an item is whose size is to be changed without it being
/// open. `record` is what is known of it now.
pub fn truncate_without_handle(record: &Option<FileRecord>, size: u64) -> (r: Result<
    WriteCache,
    FsError,
>)
    ensures
        match *record {
            None => r == Err::<WriteCache, FsError>(FsError::RecordMissing),
            Some(f) => if f.metadata.is_dir {
                r == Err::<WriteCache, FsError>(FsError::IsDirectory)
            } else {
                r matches Ok(c) && write_cache(f, size == 0, c)
            },
        },
{
    match record {
        None => Err(FsError::RecordMissing),
        Some(f) => if f.metadata.is_dir {
            Err(FsError::IsDirectory)
        } else {
            Ok(choose_cache(f, size == 0))
        },
    }
}

/// What was uploaded is recorded, or is deleted again: an upload never ends
/// well with an item in the cloud that nothing stands for.
pub proof fn lemma_uploaded_is_recorded_or_discarded(
    v: FsView,
    fh: u64,
    uploaded: String,
    e: UploadEvent,
    w: FsView,
    t: Uploading,
    o: UploadOrder,
)
    requires
        v.writes.contains_key(fh),
        uploads(v, fh, Uploading::Committing { uploaded }, e, w, t, o),
        e is Committed || e is Failed,
    ensures
        o == UploadOrder::Done ==> (e matches UploadEvent::Committed(f) && option_text(
            f.cloud_remote_id,
        ) == Some(uploaded@)),
        o != UploadOrder::Done ==> (o matches UploadOrder::Discard { uploaded: u, .. } && u
            == uploaded),
{
}

/// A file is opened for writing only where its content was there after it was
/// opened.
pub proof fn lemma_released_content_is_not_written(
    v: FsView,
    s: Creating,
    e: CreateEvent,
    w: FsView,
    t: Creating,
    o: CreateOrder,
)
    requires
        creates(v, s, e, w, t, o),
        s is Opening,
        e == CreateEvent::Opened(false),
    ensures
        w == v,
        o == CreateOrder::Failed(FsError::CacheReleased),
{
}

} // verus!
