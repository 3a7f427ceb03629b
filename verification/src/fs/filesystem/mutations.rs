//! Names: making, moving and removing items.

use super::writes::{is_valid_name, valid_name};
use super::{
    lemma_handles_after, record_at, shows, FsError, FsView, ReadHandle, Shown,
    TwoDriveFs, WriteHandle,
};
use crate::fs::conflicts::{record_upload_etag, upload_etag};
use crate::fs::inodes::{
    attr_for_record, attr_of, inodes_sound, inserted, number_of, removed, replaced, FileAttr,
    InodeView, ROOT_INO,
};
use crate::fs::record::{FileRecord, FileState};
use crate::fs::upload_queue::UploadCommand;
use crate::text::{option_text, same_option, same_text};
use vstd::prelude::*;

verus! {

/// An item is open.
pub open spec fn is_open(v: FsView, ino: u64, id: Seq<char>) -> bool {
    ||| exists|k: u64| #[trigger] v.writes.contains_key(k) && v.writes[k].record_remote_id@ == id
    ||| exists|k: u64| #[trigger] v.reads.contains_key(k) && v.reads[k].ino == ino
}

/// The cloud does not know an item: it has none of it, or the file was made by
/// one that is still open.
pub open spec fn made_here(v: FsView, record: FileRecord) -> bool {
    ||| record.cloud_remote_id is None
    ||| exists|k: u64| #[trigger]
        v.writes.contains_key(k) && v.writes[k].record_remote_id@ == record.metadata.remote_id@
            && v.writes[k].created_new_record
}

/// What is to be recorded when the name of an open file is removed.
pub enum Unlink {
    /// Nothing has the file open.
    NotOpen,
    /// What is known of the item is to be forgotten.
    Forget,
    /// The deletion is to wait for the cloud; what is recorded of it has no
    /// cache file, since its content is in use.
    Delete(FileRecord, UploadCommand),
}

/// What is to be recorded when an item is deleted.
pub enum Deletion {
    /// The item is changing.
    Changing,
    /// The cache file, if there is one, is to be removed, and what is known of
    /// the item to be forgotten.
    Forget(Option<String>),
    /// The deletion is to wait for the cloud.
    Delete(UploadCommand),
}

/// A read handle of a number has no name any more.
pub open spec fn read_unlinked(ino: u64) -> spec_fn(ReadHandle) -> ReadHandle {
    |h: ReadHandle|
        if h.ino == ino {
            ReadHandle { unlinked: true, ..h }
        } else {
            h
        }
}

/// A write handle of an item has no name any more.
pub open spec fn write_unlinked(id: Seq<char>) -> spec_fn(WriteHandle) -> WriteHandle {
    |h: WriteHandle|
        if h.record_remote_id@ == id {
            WriteHandle { unlinked: true, ..h }
        } else {
            h
        }
}

/// A write handle of an item that took the place of another.
pub open spec fn retargeted(source: FileRecord, target: FileRecord, path: String) -> spec_fn(
    WriteHandle,
) -> WriteHandle {
    |h: WriteHandle|
        if h.record_remote_id@ == source.metadata.remote_id@ {
            WriteHandle {
                path,
                record_remote_id: target.metadata.remote_id,
                created_new_record: target.cloud_remote_id is None,
                base_etag: if h.uploaded {
                    h.base_etag
                } else {
                    upload_etag(target)
                },
                ..h
            }
        } else {
            h
        }
}

/// The file system after the name of an open file was removed.
pub open spec fn unlinked(v: FsView, ino: u64, id: Seq<char>) -> FsView {
    FsView {
        inodes: removed(v.inodes, ino),
        writes: v.writes.map_values(write_unlinked(id)),
        reads: v.reads.map_values(read_unlinked(ino)),
        ..v
    }
}

/// The file system after an item took the place of another.
pub open spec fn displacing(
    v: FsView,
    ino: u64,
    target_ino: u64,
    source: FileRecord,
    target: FileRecord,
    updated: FileRecord,
    path: String,
) -> FsView {
    FsView {
        inodes: replaced(removed(v.inodes, target_ino), ino, updated),
        reads: v.reads.map_values(read_unlinked(target_ino)),
        writes: v.writes.map_values(write_unlinked(target.metadata.remote_id@)).map_values(
            retargeted(source, target, path),
        ),
        ..v
    }
}

/// A change of name or place that is being made.
pub enum Renaming {
    /// The paths are awaited.
    Joining,
    /// What is known now of the item is awaited.
    Refreshing { ino: u64, new_path: String },
    /// What is stored at the new path is awaited.
    Looking { ino: u64, record: FileRecord, new_path: String },
    /// It is being recorded that the item takes the place of another.
    Replacing {
        ino: u64,
        target_ino: u64,
        record: FileRecord,
        target: FileRecord,
        new_path: String,
    },
    /// It is being recorded that the item moves.
    Moving { record: FileRecord, new_path: String },
    /// What is known now of the items that moved is awaited.
    Listing { record: FileRecord },
    Ended,
}

/// What came of an order.
pub enum RenameEvent {
    /// The paths from which and to which the change goes.
    Paths(String, String),
    Record(FileRecord),
    Target(Option<FileRecord>),
    /// It was recorded that the item took the place of another; what is known
    /// of it now.
    Replaced(FileRecord),
    Moved,
    /// What is known now of the item and, in order, of what is below it.
    Listed(Option<FileRecord>, Vec<FileRecord>),
    /// The order failed.
    Failed,
}

/// What is to be done next about a change of name or place.
pub enum RenameOrder {
    /// The names are to be joined to the paths of their directories.
    Join(String, String),
    /// What is known of an item is to be looked up again.
    Refresh(FileRecord),
    /// What is stored at a path is to be looked up.
    Find(String),
    /// It is to be recorded that the item with the first identifier takes the
    /// place of the one with the second, at a path.
    Replace(String, String, String),
    /// It is to be recorded that the item and what is below it moves to a path.
    Move(String, String),
    /// What is known of the item and of what is below the path is to be looked
    /// up.
    List(String, String),
    /// It is done; the commands are to be given to those that upload.
    Done(Vec<UploadCommand>),
    /// It failed.
    Failed(FsError),
    /// It failed because the last order did.
    GivenUp,
}

/// What is to be done next, with the commands as a sequence.
pub enum RenameStep {
    Join(String, String),
    Refresh(FileRecord),
    Find(String),
    Replace(String, String, String),
    Move(String, String),
    List(String, String),
    Done(Seq<UploadCommand>),
    Failed(FsError),
    GivenUp,
}

impl View for RenameOrder {
    type V = RenameStep;

    open spec fn view(&self) -> RenameStep {
        match *self {
            RenameOrder::Join(a, b) => RenameStep::Join(a, b),
            RenameOrder::Refresh(f) => RenameStep::Refresh(f),
            RenameOrder::Find(p) => RenameStep::Find(p),
            RenameOrder::Replace(a, b, p) => RenameStep::Replace(a, b, p),
            RenameOrder::Move(a, p) => RenameStep::Move(a, p),
            RenameOrder::List(a, p) => RenameStep::List(a, p),
            RenameOrder::Done(c) => RenameStep::Done(c@),
            RenameOrder::Failed(e) => RenameStep::Failed(e),
            RenameOrder::GivenUp => RenameStep::GivenUp,
        }
    }
}

/// The number of the item that changes was given.
pub open spec fn renaming_sound(s: Renaming, v: FsView) -> bool {
    match s {
        Renaming::Refreshing { ino, .. } => ino < v.inodes.next_ino,
        Renaming::Looking { ino, .. } => ino < v.inodes.next_ino,
        Renaming::Replacing { ino, .. } => ino < v.inodes.next_ino,
        _ => true,
    }
}

/// What is to be brought to the cloud after an item took the place of another.
pub open spec fn replacing_commands(
    source: FileRecord,
    target: FileRecord,
    updated: FileRecord,
) -> Seq<UploadCommand> {
    if source.cloud_remote_id is Some && option_text(source.cloud_remote_id) != option_text(
        target.cloud_remote_id,
    ) {
        seq![
            UploadCommand::Delete(source.cloud_remote_id->0),
            UploadCommand::Upload(updated.metadata.remote_id),
        ]
    } else {
        seq![UploadCommand::Upload(updated.metadata.remote_id)]
    }
}

/// One step of a change of name or place: an item is found by its path; a file
/// can take the place of a file, and only then; everything is recorded before
/// it is shown. An event that answers no order ends it.
pub open spec fn renames(
    v: FsView,
    s: Renaming,
    e: RenameEvent,
    w: FsView,
    t: Renaming,
    o: RenameStep,
) -> bool {
    match (s, e) {
        (Renaming::Joining, RenameEvent::Paths(path, new_path)) => {
            &&& w == v
            &&& if path@ == new_path@ {
                t == Renaming::Ended && o == RenameStep::Done(Seq::empty())
            } else if !v.inodes.inos.contains_key(path@) {
                t == Renaming::Ended && o == RenameStep::Failed(FsError::SourceMissing)
            } else {
                let ino = v.inodes.inos[path@];
                match record_at(v, ino) {
                    None => t == Renaming::Ended && o == RenameStep::Failed(
                        FsError::SourceRecordMissing,
                    ),
                    Some(f) => t == (Renaming::Refreshing { ino, new_path }) && o
                        == RenameStep::Refresh(f),
                }
            }
        },
        (Renaming::Refreshing { ino, new_path }, RenameEvent::Record(record)) => {
            &&& w == v
            &&& t == (Renaming::Looking { ino, record, new_path })
            &&& o == RenameStep::Find(new_path)
        },
        (Renaming::Looking { ino, record, new_path }, RenameEvent::Target(Some(target))) => {
            &&& w == v
            &&& if target.metadata.is_dir || record.metadata.is_dir {
                t == Renaming::Ended && o == RenameStep::Failed(FsError::ReplacesDirectory)
            } else if !v.inodes.inos.contains_key(target.metadata.path@) {
                t == Renaming::Ended && o == RenameStep::Failed(FsError::TargetMissing)
            } else {
                &&& t == (Renaming::Replacing {
                    ino,
                    target_ino: v.inodes.inos[target.metadata.path@],
                    record,
                    target,
                    new_path,
                })
                &&& o == RenameStep::Replace(
                    record.metadata.remote_id,
                    target.metadata.remote_id,
                    new_path,
                )
            }
        },
        (Renaming::Looking { ino, record, new_path }, RenameEvent::Target(None)) => {
            &&& w == v
            &&& t == (Renaming::Moving { record, new_path })
            &&& o == RenameStep::Move(record.metadata.remote_id, new_path)
        },
        (
            Renaming::Replacing { ino, target_ino, record, target, new_path },
            RenameEvent::Replaced(updated),
        ) => {
            &&& w == displacing(v, ino, target_ino, record, target, updated, new_path)
            &&& t == Renaming::Ended
            &&& o == RenameStep::Done(replacing_commands(record, target, updated))
        },
        (Renaming::Moving { record, new_path }, RenameEvent::Moved) => {
            &&& w == (FsView { writes: w.writes, ..v })
            &&& followed(v.writes, record.metadata.remote_id@, new_path, w.writes)
            &&& t == (Renaming::Listing { record })
            &&& o == RenameStep::List(record.metadata.remote_id, new_path)
        },
        (Renaming::Listing { record }, RenameEvent::Listed(Some(updated), below)) => {
            &&& w == (FsView { inodes: w.inodes, ..v })
            &&& exists|states: Seq<InodeView>| #[trigger]
                updated_all(states, seq![updated] + below@) && states[0] == v.inodes
                    && states.last() == w.inodes
            &&& t == Renaming::Ended
            &&& o == RenameStep::Done(seq![UploadCommand::Upload(record.metadata.remote_id)])
        },
        (Renaming::Listing { record }, RenameEvent::Listed(None, below)) => {
            w == v && t == Renaming::Ended && o == RenameStep::Failed(FsError::RecordDisappeared)
        },
        _ => w == v && t == Renaming::Ended && o == RenameStep::GivenUp,
    }
}

/// One item that is known was replaced by what is known of it now.
pub open spec fn updated_one(a: InodeView, record: FileRecord, b: InodeView) -> bool {
    ||| exists|ino: u64|
        a.records.contains_key(ino) && a.records[ino].metadata.remote_id@
            == record.metadata.remote_id@ && b == #[trigger] replaced(a, ino, record)
    ||| {
        &&& forall|k: u64| #[trigger]
            a.records.contains_key(k) ==> a.records[k].metadata.remote_id@
                != record.metadata.remote_id@
        &&& b == a
    }
}

/// Items that are known were replaced one after another.
pub open spec fn updated_all(states: Seq<InodeView>, records: Seq<FileRecord>) -> bool {
    &&& states.len() == records.len() + 1
    &&& forall|i: int|
        0 <= i < records.len() ==> #[trigger] updated_one(states[i], records[i], states[i + 1])
}

/// The path of a handle has changed.
pub open spec fn at_path(a: Map<u64, WriteHandle>, fh: u64, path: String) -> Map<u64, WriteHandle> {
    a.insert(fh, WriteHandle { path, ..a[fh] })
}

/// The path of one handle that still writes an item has changed, if there is
/// one.
pub open spec fn followed(
    a: Map<u64, WriteHandle>,
    id: Seq<char>,
    path: String,
    b: Map<u64, WriteHandle>,
) -> bool {
    ||| exists|fh: u64|
        a.contains_key(fh) && a[fh].record_remote_id@ == id && !a[fh].uploaded && b
            == #[trigger] at_path(a, fh, path)
    ||| {
        &&& forall|k: u64| #[trigger]
            a.contains_key(k) ==> !(a[k].record_remote_id@ == id && !a[k].uploaded)
        &&& b == a
    }
}

proof fn lemma_values_keep_keys<V>(m: Map<u64, V>, f: spec_fn(V) -> V)
    ensures
        forall|k: u64| #[trigger] m.map_values(f).contains_key(k) <==> m.contains_key(k),
{
}

impl TwoDriveFs {
    fn unlink_writes(&mut self, id: &str)
        requires
            old(self).wf(),
        ensures
            final(self).wf(),
            final(self)@ == (FsView {
                writes: old(self)@.writes.map_values(write_unlinked(id@)),
                ..old(self)@
            }),
    {
        let f = |h: WriteHandle| -> (r: WriteHandle)
            ensures
                r == write_unlinked(id@)(h),
            {
                if same_text(h.record_remote_id.as_str(), id) {
                    let mut h = h;
                    h.unlinked = true;
                    h
                } else {
                    h
                }
            };
        self.writes.change(f, Ghost(write_unlinked(id@)));
        proof {
            lemma_values_keep_keys(old(self)@.writes, write_unlinked(id@));
            lemma_handles_after(old(self)@, self@);
        }
    }

    fn unlink_reads(&mut self, ino: u64)
        requires
            old(self).wf(),
        ensures
            final(self).wf(),
            final(self)@ == (FsView {
                reads: old(self)@.reads.map_values(read_unlinked(ino)),
                ..old(self)@
            }),
    {
        let f = |h: ReadHandle| -> (r: ReadHandle)
            ensures
                r == read_unlinked(ino)(h),
            {
                if h.ino == ino {
                    let mut h = h;
                    h.unlinked = true;
                    h
                } else {
                    h
                }
            };
        self.reads.change(f, Ghost(read_unlinked(ino)));
        proof {
            lemma_values_keep_keys(old(self)@.reads, read_unlinked(ino));
            lemma_handles_after(old(self)@, self@);
        }
    }

    /// What is to be recorded when the name of a file is removed that may be
    /// open.
    pub fn unlink_record_with_open_handles(&self, ino: u64, record: &FileRecord) -> (r: Unlink)
        ensures
            r == if !is_open(self@, ino, record.metadata.remote_id@) {
                Unlink::NotOpen
            } else if made_here(self@, *record) {
                Unlink::Forget
            } else {
                Unlink::Delete(
                    FileRecord { cache_path: None, ..*record },
                    UploadCommand::Delete(record.cloud_remote_id->0),
                )
            },
    {
        let id = record.metadata.remote_id.as_str();
        let ghost p = |h: WriteHandle| h.record_remote_id@ == id@;
        let writing = |h: &WriteHandle| -> (b: bool)
            ensures
                b == (h.record_remote_id@ == id@),
            { same_text(h.record_remote_id.as_str(), id) };
        let ghost q = |h: ReadHandle| h.ino == ino;
        let reading = |h: &ReadHandle| -> (b: bool)
            ensures
                b == (h.ino == ino),
            { h.ino == ino };
        let written = self.writes.find(writing, Ghost(p)).is_some();
        let read = self.reads.find(reading, Ghost(q)).is_some();
        if !written && !read {
            return Unlink::NotOpen;
        }
        let ghost c = |h: WriteHandle| h.record_remote_id@ == id@ && h.created_new_record;
        let creating = |h: &WriteHandle| -> (b: bool)
            ensures
                b == (h.record_remote_id@ == id@ && h.created_new_record),
            { same_text(h.record_remote_id.as_str(), id) && h.created_new_record };
        let created = self.writes.find(creating, Ghost(c)).is_some();
        match &record.cloud_remote_id {
            None => Unlink::Forget,
            Some(cloud) => if created {
                Unlink::Forget
            } else {
                let mut queued = record.clone();
                queued.cache_path = None;
                Unlink::Delete(queued, UploadCommand::Delete(cloud.clone()))
            },
        }
    }

    /// The removal of the name of an open file was recorded: who has it open
    /// keeps it, without a name.
    pub fn unlinked(&mut self, ino: u64, id: &str)
        requires
            old(self).wf(),
        ensures
            final(self).wf(),
            final(self)@ == unlinked(old(self)@, ino, id@),
    {
        self.inodes.remove_ino(ino);
        proof {
            lemma_handles_after(old(self)@, self@);
        }
        self.unlink_writes(id);
        self.unlink_reads(ino);
    }

    /// The deletion of an item was recorded.
    pub fn deleted(&mut self, ino: u64)
        requires
            old(self).wf(),
        ensures
            final(self).wf(),
            final(self)@ == (FsView { inodes: removed(old(self)@.inodes, ino), ..old(self)@ }),
    {
        self.inodes.remove_ino(ino);
        proof {
            lemma_handles_after(old(self)@, self@);
        }
    }

    /// Whether a directory can be made in a directory under a name, which is
    /// given where it is text.
    pub fn create_directory(&self, parent: u64, name: &Option<String>) -> (r: Result<
        String,
        FsError,
    >)
        ensures
            r == if !self@.inodes.paths.contains_key(parent) {
                Err(FsError::ParentMissing)
            } else if *name is Some && valid_name(name->0@) {
                Ok(self@.inodes.paths[parent])
            } else {
                Err(FsError::BadName)
            },
    {
        let path = match self.inodes.path_for_ino(parent) {
            Some(p) => p.clone(),
            None => return Err(FsError::ParentMissing),
        };
        match name {
            None => Err(FsError::BadName),
            Some(n) => if is_valid_name(n.as_str()) {
                Ok(path)
            } else {
                Err(FsError::BadName)
            },
        }
    }

    /// Whether a directory can be made at a path, with what is stored there.
    pub fn directory_absent(existing: &Option<FileRecord>) -> (r: Result<(), FsError>)
        ensures
            r == if *existing is Some {
                Err(FsError::AlreadyExists)
            } else {
                Ok(())
            },
    {
        if existing.is_some() {
            Err(FsError::AlreadyExists)
        } else {
            Ok(())
        }
    }

    /// Adds a new directory, recorded with an identifier; it waits to be made
    /// in the cloud.
    pub fn created_directory(&mut self, record: FileRecord, id: String) -> (r: (
        u64,
        FileAttr,
        UploadCommand,
    ))
        requires
            old(self).wf(),
            old(self)@.inodes.next_ino < u64::MAX,
        ensures
            final(self).wf(),
            final(self)@ == (FsView {
                inodes: inserted(old(self)@.inodes, record),
                ..old(self)@
            }),
            r.0 == number_of(old(self)@.inodes, record.metadata.path@),
            r.1 == attr_of(r.0, record),
            r.2 == UploadCommand::Upload(id),
    {
        let ino = self.inodes.insert_or_update(record.clone());
        proof {
            lemma_handles_after(old(self)@, self@);
        }
        (ino, attr_for_record(ino, &record), UploadCommand::Upload(id))
    }

    /// Begins a change of name or place, from a directory to a directory: the
    /// names are to be joined to their paths.
    pub fn begin_rename(&self, parent: u64, newparent: u64) -> (r: (Renaming, RenameOrder))
        ensures
            if !self@.inodes.paths.contains_key(parent) {
                r.0 == Renaming::Ended && r.1@ == RenameStep::Failed(FsError::SourceParentMissing)
            } else if !self@.inodes.paths.contains_key(newparent) {
                r.0 == Renaming::Ended && r.1@ == RenameStep::Failed(FsError::TargetParentMissing)
            } else {
                r.0 == Renaming::Joining && r.1@ == RenameStep::Join(
                    self@.inodes.paths[parent],
                    self@.inodes.paths[newparent],
                )
            },
    {
        match self.inodes.path_for_ino(parent) {
            None => (Renaming::Ended, RenameOrder::Failed(FsError::SourceParentMissing)),
            Some(p) => match self.inodes.path_for_ino(newparent) {
                None => (Renaming::Ended, RenameOrder::Failed(FsError::TargetParentMissing)),
                Some(q) => (Renaming::Joining, RenameOrder::Join(p.clone(), q.clone())),
            },
        }
    }

    /// Goes on with a change of name or place, with what came of the last
    /// order.
    pub fn rename_record(&mut self, state: Renaming, event: RenameEvent) -> (r: (
        Renaming,
        RenameOrder,
    ))
        requires
            old(self).wf(),
            renaming_sound(state, old(self)@),
        ensures
            final(self).wf(),
            renaming_sound(r.0, final(self)@),
            renames(old(self)@, state, event, final(self)@, r.0, r.1@),
    {
        match (state, event) {
            (Renaming::Joining, RenameEvent::Paths(path, new_path)) => {
                if same_text(path.as_str(), new_path.as_str()) {
                    let none: Vec<UploadCommand> = Vec::new();
                    return (Renaming::Ended, RenameOrder::Done(none));
                }
                let ino: u64 = match self.inodes.ino_for_path(path.as_str()) {
                    Some(ino) => ino,
                    None => return (
                        Renaming::Ended,
                        RenameOrder::Failed(FsError::SourceMissing),
                    ),
                };
                proof {
                    self.inodes.lemma_wf();
                }
                match self.record_for_ino(ino) {
                    None => (Renaming::Ended, RenameOrder::Failed(FsError::SourceRecordMissing)),
                    Some(f) => (Renaming::Refreshing { ino, new_path }, RenameOrder::Refresh(f)),
                }
            },
            (Renaming::Refreshing { ino, new_path }, RenameEvent::Record(record)) => {
                let order = RenameOrder::Find(new_path.clone());
                (Renaming::Looking { ino, record, new_path }, order)
            },
            (Renaming::Looking { ino, record, new_path }, RenameEvent::Target(Some(target))) => {
                if target.metadata.is_dir || record.metadata.is_dir {
                    return (Renaming::Ended, RenameOrder::Failed(FsError::ReplacesDirectory));
                }
                let target_ino: u64 = match self.inodes.ino_for_path(
                    target.metadata.path.as_str(),
                ) {
                    Some(ino) => ino,
                    None => return (
                        Renaming::Ended,
                        RenameOrder::Failed(FsError::TargetMissing),
                    ),
                };
                let order = RenameOrder::Replace(
                    record.metadata.remote_id.clone(),
                    target.metadata.remote_id.clone(),
                    new_path.clone(),
                );
                (Renaming::Replacing { ino, target_ino, record, target, new_path }, order)
            },
            (Renaming::Looking { ino, record, new_path }, RenameEvent::Target(None)) => {
                let order = RenameOrder::Move(
                    record.metadata.remote_id.clone(),
                    new_path.clone(),
                );
                (Renaming::Moving { record, new_path }, order)
            },
            (
                Renaming::Replacing { ino, target_ino, record, target, new_path },
                RenameEvent::Replaced(updated),
            ) => {
                let commands = self.rename_replaced(
                    ino,
                    target_ino,
                    &record,
                    &target,
                    updated,
                    &new_path,
                );
                (Renaming::Ended, RenameOrder::Done(commands))
            },
            (Renaming::Moving { record, new_path }, RenameEvent::Moved) => {
                self.follow(record.metadata.remote_id.as_str(), &new_path);
                let order = RenameOrder::List(record.metadata.remote_id.clone(), new_path);
                (Renaming::Listing { record }, order)
            },
            (Renaming::Listing { record }, RenameEvent::Listed(Some(updated), below)) => {
                let ghost all = seq![updated] + below@;
                let mut below = below;
                below.insert(0, updated);
                assert(below@ =~= all);
                self.update_all(&below);
                let mut commands: Vec<UploadCommand> = Vec::new();
                commands.push(UploadCommand::Upload(record.metadata.remote_id));
                assert(commands@ =~= seq![UploadCommand::Upload(record.metadata.remote_id)]);
                (Renaming::Ended, RenameOrder::Done(commands))
            },
            (Renaming::Listing { record }, RenameEvent::Listed(None, below)) => (
                Renaming::Ended,
                RenameOrder::Failed(FsError::RecordDisappeared),
            ),
            _ => (Renaming::Ended, RenameOrder::GivenUp),
        }
    }

    /// It was recorded that an item took the place of another: who has the
    /// other open keeps it, without a name; who writes the item writes the
    /// other's content from now on. The result is what is to be brought to the
    /// cloud.
    fn rename_replaced(
        &mut self,
        ino: u64,
        target_ino: u64,
        source: &FileRecord,
        target: &FileRecord,
        updated: FileRecord,
        path: &String,
    ) -> (r: Vec<UploadCommand>)
        requires
            old(self).wf(),
            ino < old(self)@.inodes.next_ino,
        ensures
            final(self).wf(),
            final(self)@ == displacing(
                old(self)@,
                ino,
                target_ino,
                *source,
                *target,
                updated,
                *path,
            ),
            r@ == replacing_commands(*source, *target, updated),
    {
        let id = updated.metadata.remote_id.clone();
        self.inodes.remove_ino(target_ino);
        self.inodes.replace_ino_record(ino, updated);
        proof {
            lemma_handles_after(old(self)@, self@);
        }
        self.unlink_writes(target.metadata.remote_id.as_str());
        self.unlink_reads(target_ino);
        let ghost before = self@;
        let f = |h: WriteHandle| -> (r: WriteHandle)
            ensures
                r == retargeted(*source, *target, *path)(h),
            {
                if same_text(
                    h.record_remote_id.as_str(),
                    source.metadata.remote_id.as_str(),
                ) {
                    let base_etag = if h.uploaded {
                        h.base_etag
                    } else {
                        record_upload_etag(target)
                    };
                    WriteHandle {
                        ino: h.ino,
                        path: path.clone(),
                        record_remote_id: target.metadata.remote_id.clone(),
                        cache_path: h.cache_path,
                        active: h.active,
                        uploaded: h.uploaded,
                        created_new_record: target.cloud_remote_id.is_none(),
                        unlinked: h.unlinked,
                        base_etag,
                    }
                } else {
                    h
                }
            };
        self.writes.change(f, Ghost(retargeted(*source, *target, *path)));
        proof {
            lemma_values_keep_keys(before.writes, retargeted(*source, *target, *path));
            lemma_handles_after(before, self@);
        }
        let mut r: Vec<UploadCommand> = Vec::new();
        let same = same_option(&source.cloud_remote_id, &target.cloud_remote_id);
        match &source.cloud_remote_id {
            Some(cloud) => if !same {
                r.push(UploadCommand::Delete(cloud.clone()));
            },
            None => {},
        }
        r.push(UploadCommand::Upload(id));
        assert(r@ =~= replacing_commands(*source, *target, updated));
        r
    }

    /// Who still writes an item goes on under a new path.
    fn follow(&mut self, id: &str, path: &String)
        requires
            old(self).wf(),
        ensures
            final(self).wf(),
            final(self)@ == (FsView { writes: final(self)@.writes, ..old(self)@ }),
            followed(old(self)@.writes, id@, *path, final(self)@.writes),
    {
        let ghost p = |h: WriteHandle| h.record_remote_id@ == id@ && !h.uploaded;
        let writing = |h: &WriteHandle| -> (b: bool)
            ensures
                b == (h.record_remote_id@ == id@ && !h.uploaded),
            { same_text(h.record_remote_id.as_str(), id) && !h.uploaded };
        match self.writes.find(writing, Ghost(p)) {
            None => {},
            Some(fh) => match self.writes.remove(fh) {
                None => {},
                Some(h) => {
                    let mut h = h;
                    h.path = path.clone();
                    let _ = self.writes.insert(fh, h);
                    assert(self@.writes =~= at_path(old(self)@.writes, fh, *path));
                },
            },
        }
        proof {
            lemma_handles_after(old(self)@, self@);
        }
    }

    /// What is known now of items takes the place of what was known of them,
    /// one after another, where they are known.
    fn update_all(&mut self, updated: &Vec<FileRecord>)
        requires
            old(self).wf(),
        ensures
            final(self).wf(),
            final(self)@ == (FsView { inodes: final(self)@.inodes, ..old(self)@ }),
            exists|states: Seq<InodeView>| #[trigger]
                updated_all(states, updated@) && states[0] == old(self)@.inodes && states.last()
                    == final(self)@.inodes,
    {
        let ghost v = self@;
        let ghost mut states = seq![self.inodes@];
        let mut i: usize = 0;
        while i < updated.len()
            invariant
                i <= updated@.len(),
                self.wf(),
                self@ == (FsView { inodes: self@.inodes, ..v }),
                updated_all(states, updated@.take(i as int)),
                states[0] == v.inodes,
                states.last() == self@.inodes,
            decreases updated@.len() - i,
        {
            let ghost now = self@;
            let ghost before = self@.inodes;
            match self.inodes.ino_for_remote_id(updated[i].metadata.remote_id.as_str()) {
                None => {},
                Some(ino) => {
                    proof {
                        self.inodes.lemma_wf();
                    }
                    self.inodes.replace_ino_record(ino, updated[i].clone());
                    assert(self@.inodes == replaced(before, ino, updated@[i as int]));
                },
            }
            proof {
                assert(updated_one(before, updated@[i as int], self@.inodes));
                let grown = states.push(self@.inodes);
                assert forall|j: int| 0 <= j < i + 1 implies #[trigger] updated_one(
                    grown[j],
                    updated@.take(i + 1)[j],
                    grown[j + 1],
                ) by {
                    if j < i {
                        assert(updated_one(
                            states[j],
                            updated@.take(i as int)[j],
                            states[j + 1],
                        ));
                    }
                }
                states = grown;
                lemma_handles_after(now, self@);
            }
            i += 1;
        }
        proof {
            assert(updated@.take(updated@.len() as int) =~= updated@);
            assert(updated_all(states, updated@));
        }
    }
}

/// What is to be recorded when an item is deleted that nothing has open. One
/// that is changing is not deleted.
pub fn delete_record(record: &FileRecord) -> (r: Deletion)
    ensures
        r == if record.state == FileState::Writing || record.state == FileState::Dirty
            || record.state == FileState::Hydrating || record.state == FileState::Uploading {
            Deletion::Changing
        } else {
            match record.cloud_remote_id {
                None => Deletion::Forget(record.cache_path),
                Some(id) => Deletion::Delete(UploadCommand::Delete(id)),
            }
        },
{
    if record.state == FileState::Writing || record.state == FileState::Dirty || record.state
        == FileState::Hydrating || record.state == FileState::Uploading {
        return Deletion::Changing;
    }
    match &record.cloud_remote_id {
        None => Deletion::Forget(
            match &record.cache_path {
                Some(p) => Some(p.clone()),
                None => None,
            },
        ),
        Some(id) => Deletion::Delete(UploadCommand::Delete(id.clone())),
    }
}

/// Where an item took the place of another under a path, the path stands for
/// the item, and the other's number for nothing.
pub proof fn lemma_replacing_rename(
    v: FsView,
    ino: u64,
    target_ino: u64,
    source: FileRecord,
    target: FileRecord,
    updated: FileRecord,
    path: String,
)
    requires
        inodes_sound(v.inodes),
        ino != target_ino,
    ensures
        displacing(v, ino, target_ino, source, target, updated, path).inodes.inos[updated.metadata.path@]
            == ino,
        displacing(v, ino, target_ino, source, target, updated, path).inodes.records[ino]
            == updated,
        !displacing(
            v,
            ino,
            target_ino,
            source,
            target,
            updated,
            path,
        ).inodes.records.contains_key(target_ino),
{
}

/// Who has a file open keeps it when its name is removed, and it counts as
/// having none.
pub proof fn lemma_unlink_keeps_open_files(v: FsView, ino: u64, id: Seq<char>, fh: u64)
    ensures
        v.reads.contains_key(fh) ==> unlinked(v, ino, id).reads.contains_key(fh) && unlinked(
            v,
            ino,
            id,
        ).reads[fh].cache_path == v.reads[fh].cache_path && (v.reads[fh].ino == ino ==> unlinked(
            v,
            ino,
            id,
        ).reads[fh].unlinked),
        v.writes.contains_key(fh) ==> unlinked(v, ino, id).writes.contains_key(fh) && unlinked(
            v,
            ino,
            id,
        ).writes[fh].cache_path == v.writes[fh].cache_path && (v.writes[fh].record_remote_id@
            == id ==> unlinked(v, ino, id).writes[fh].unlinked),
        !unlinked(v, ino, id).inodes.records.contains_key(ino),
{
}

/// A file whose place was taken is still shown to who has it open, without a
/// name.
pub proof fn lemma_replaced_file_stays_shown(
    v: FsView,
    ino: u64,
    target_ino: u64,
    source: FileRecord,
    target: FileRecord,
    updated: FileRecord,
    path: String,
    fh: u64,
    now: u64,
    r: Shown,
)
    requires
        ino != target_ino,
        target_ino != ROOT_INO,
        v.reads.contains_key(fh),
        v.reads[fh].ino == target_ino,
        shows(
            displacing(v, ino, target_ino, source, target, updated, path),
            target_ino,
            now,
            r,
        ),
    ensures
        r matches Shown::Attr(a) && a.nlink == 0,
{
    let w = displacing(v, ino, target_ino, source, target, updated, path);
    assert(w.reads.contains_key(fh));
    assert(record_at(w, target_ino) is None);
}

/// A change of name or place shows nothing before it was recorded, and nothing
/// where recording it failed.
pub proof fn lemma_rename_shows_what_was_recorded(
    v: FsView,
    s: Renaming,
    e: RenameEvent,
    w: FsView,
    t: Renaming,
    o: RenameStep,
)
    requires
        renames(v, s, e, w, t, o),
        e !is Replaced && e !is Moved && e !is Listed,
    ensures
        w == v,
{
}

} // verus!
