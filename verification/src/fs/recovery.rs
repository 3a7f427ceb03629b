//! Bringing to the cloud what was left behind: changed content, deletions, and
//! changes of names and places.

use super::conflicts::{record_upload_etag, record_upload_remote_id, upload_etag};
use super::hydration::Seen;
use super::record::{
    awaits_upload, has_existing_cache, is_awaiting_upload, FileRecord, FileState, MetadataEntry,
};
use super::sweep::{done_count, lemma_sweep_takes_all, swept, Ended, SweepOrder};
use super::upload_queue::UploadCommand;
use crate::text::{begins, begins_with, contains_text, occurs, option_text, same_text};
use vstd::hash_map::StringHashMap;
use vstd::prelude::*;

verus! {

/// What is being done to bring changed content to the cloud. `cache` is the cache
/// file that holds it.
pub enum Recovery {
    /// It is being found out what stands in the way.
    Surveying,
    /// What the cloud has at the path is being looked up.
    LookingUp { cache: String },
    /// The beginning is being recorded.
    Beginning { cache: String },
    /// The content is being uploaded.
    Uploading { cache: String },
    /// The upload is being recorded.
    Committing { uploaded: String },
    /// What was uploaded in vain is being marked for deletion; `failed` says
    /// that recording the upload failed.
    Discarding { failed: bool },
    /// Releases that waited for the upload are being made.
    Releasing,
    /// A conflict is being recorded.
    MarkingConflict { cache: String },
    /// A failed upload is being recorded.
    MarkingFailure,
    /// A copy is being kept.
    Preserving,
    Ended,
}

/// What happened.
pub enum RecoveryEvent {
    /// Whether a change of the item's name or place, or of a directory above
    /// it, waits; and whether the cache file exists.
    Surveyed { pending_above: bool, exists: bool },
    /// What the cloud has at the path: nothing, or an item that belongs to
    /// another record or awaits its deletion, or neither.
    Remote(Option<RemoteItem>),
    Began(bool),
    Uploaded(MetadataEntry),
    /// The upload failed: by a conflict, or with a message.
    UploadFailed { conflict: bool, message: String },
    /// The upload was recorded; the record has this item of the cloud now.
    Committed(Option<String>),
    /// Recording the upload failed.
    CommitFailed,
    Discarded,
    Released,
    Marked,
    /// Whether a copy was kept.
    Preserved(bool),
    /// Something outside failed.
    Failed,
}

/// An item of the cloud at the path of a record that the cloud does not know.
#[derive(Clone, Copy, PartialEq, Eq, Structural, Debug)]
pub struct RemoteItem {
    pub owned_by_another: bool,
    pub awaiting_delete: bool,
}

/// What is to be done.
pub enum RecoveryOrder {
    /// Look up what the cloud has at a path.
    LookUp(String),
    Begin,
    /// Upload a cache file to a path, in the place of an item of the cloud, if it
    /// has this version.
    Upload {
        path: String,
        cache_path: String,
        remote_id: Option<String>,
        etag: Option<String>,
    },
    /// Record what was uploaded, for a record, at a path and from a cache file.
    Commit { id: String, path: String, uploaded: MetadataEntry, cache_path: String },
    /// Mark an item of the cloud, at a path, for deletion.
    Discard { item: String, path: String },
    /// Make the releases that waited.
    Release,
    /// Record the state of a record.
    Mark { id: String, state: FileState },
    /// Keep the content of a cache file as a copy.
    Preserve { cache_path: String },
    /// The end: whether the content is in the cloud.
    Finish(bool),
    /// The end: something outside failed.
    Fail,
    /// Nothing: what happened does not belong here.
    Nothing,
}

/// The state of content that could not be uploaded.
pub open spec fn failure_state(message: Seq<char>) -> FileState {
    if occurs(message, "unsupported OneDrive file name"@) {
        FileState::Error
    } else {
        FileState::Dirty
    }
}

impl Recovery {
    /// The next state and order for a record.
    pub open spec fn followed(self, record: FileRecord, event: RecoveryEvent) -> (
        Recovery,
        RecoveryOrder,
    ) {
        let id = record.metadata.remote_id;
        let path = record.metadata.path;
        match (self, event) {
            (Recovery::Ended, _) => (Recovery::Ended, RecoveryOrder::Nothing),
            (_, RecoveryEvent::Failed) => (Recovery::Ended, RecoveryOrder::Fail),
            (Recovery::Surveying, RecoveryEvent::Surveyed { pending_above, exists }) => match record.cache_path {
                Some(cache) => if pending_above || !exists {
                    (Recovery::Ended, RecoveryOrder::Finish(false))
                } else if record.state == FileState::Conflict {
                    (Recovery::Preserving, RecoveryOrder::Preserve { cache_path: cache })
                } else if record.cloud_remote_id is None {
                    (Recovery::LookingUp { cache }, RecoveryOrder::LookUp(path))
                } else {
                    (Recovery::Beginning { cache }, RecoveryOrder::Begin)
                },
                None => (Recovery::Ended, RecoveryOrder::Finish(false)),
            },
            (Recovery::LookingUp { cache }, RecoveryEvent::Remote(item)) => if item matches Some(i) && (
            i.owned_by_another || i.awaiting_delete) {
                (Recovery::Ended, RecoveryOrder::Finish(false))
            } else {
                (Recovery::Beginning { cache }, RecoveryOrder::Begin)
            },
            (Recovery::Beginning { cache }, RecoveryEvent::Began(began)) => if began {
                (
                    Recovery::Uploading { cache },
                    RecoveryOrder::Upload {
                        path,
                        cache_path: cache,
                        remote_id: record.cloud_remote_id,
                        etag: upload_etag(record),
                    },
                )
            } else {
                (Recovery::Ended, RecoveryOrder::Finish(false))
            },
            (Recovery::Uploading { cache }, RecoveryEvent::Uploaded(uploaded)) => (
                Recovery::Committing { uploaded: uploaded.remote_id },
                RecoveryOrder::Commit { id, path, uploaded, cache_path: cache },
            ),
            (Recovery::Uploading { cache }, RecoveryEvent::UploadFailed { conflict, message }) => if conflict {
                (
                    Recovery::MarkingConflict { cache },
                    RecoveryOrder::Mark { id, state: FileState::Conflict },
                )
            } else {
                (
                    Recovery::MarkingFailure,
                    RecoveryOrder::Mark { id, state: failure_state(message@) },
                )
            },
            (Recovery::Committing { uploaded }, RecoveryEvent::Committed(now)) => if option_text(
                now,
            ) == Some(uploaded@) {
                (Recovery::Releasing, RecoveryOrder::Release)
            } else {
                (
                    Recovery::Discarding { failed: false },
                    RecoveryOrder::Discard { item: uploaded, path },
                )
            },
            (Recovery::Committing { uploaded }, RecoveryEvent::CommitFailed) => (
                Recovery::Discarding { failed: true },
                RecoveryOrder::Discard { item: uploaded, path },
            ),
            (Recovery::Discarding { failed }, RecoveryEvent::Discarded) => if failed {
                (Recovery::Ended, RecoveryOrder::Fail)
            } else {
                (Recovery::Releasing, RecoveryOrder::Release)
            },
            (Recovery::Releasing, RecoveryEvent::Released) => (
                Recovery::Ended,
                RecoveryOrder::Finish(true),
            ),
            (Recovery::MarkingConflict { cache }, RecoveryEvent::Marked) => (
                Recovery::Preserving,
                RecoveryOrder::Preserve { cache_path: cache },
            ),
            (Recovery::MarkingFailure, RecoveryEvent::Marked) => (
                Recovery::Ended,
                RecoveryOrder::Finish(false),
            ),
            (Recovery::Preserving, RecoveryEvent::Preserved(kept)) => (
                Recovery::Ended,
                RecoveryOrder::Finish(kept),
            ),
            (s, _) => (s, RecoveryOrder::Nothing),
        }
    }
}

/// The next step of bringing the changed content of a record to the cloud,
/// which begins by finding out what stands in the way.
///
/// Where a save moved the old item aside, the new content waits until that
/// move is in the cloud: uploaded by path it would take over the old item, and
/// deleting that would delete the new content.
pub fn recover_dirty_record(state: Recovery, record: &FileRecord, event: RecoveryEvent) -> (r: (
    Recovery,
    RecoveryOrder,
))
    ensures
        r == state.followed(*record, event),
{
    match (state, event) {
        (Recovery::Ended, _) => (Recovery::Ended, RecoveryOrder::Nothing),
        (_, RecoveryEvent::Failed) => (Recovery::Ended, RecoveryOrder::Fail),
        (Recovery::Surveying, RecoveryEvent::Surveyed { pending_above, exists }) => match &record.cache_path {
            Some(cache) => {
                let cache = cache.clone();
                if pending_above || !exists {
                    (Recovery::Ended, RecoveryOrder::Finish(false))
                } else if record.state == FileState::Conflict {
                    (Recovery::Preserving, RecoveryOrder::Preserve { cache_path: cache })
                } else if record.cloud_remote_id.is_none() {
                    (
                        Recovery::LookingUp { cache },
                        RecoveryOrder::LookUp(record.metadata.path.clone()),
                    )
                } else {
                    (Recovery::Beginning { cache }, RecoveryOrder::Begin)
                }
            },
            None => (Recovery::Ended, RecoveryOrder::Finish(false)),
        },
        (Recovery::LookingUp { cache }, RecoveryEvent::Remote(item)) => {
            let taken = match item {
                Some(i) => i.owned_by_another || i.awaiting_delete,
                None => false,
            };
            if taken {
                (Recovery::Ended, RecoveryOrder::Finish(false))
            } else {
                (Recovery::Beginning { cache }, RecoveryOrder::Begin)
            }
        },
        (Recovery::Beginning { cache }, RecoveryEvent::Began(began)) => if began {
            (
                Recovery::Uploading { cache: cache.clone() },
                RecoveryOrder::Upload {
                    path: record.metadata.path.clone(),
                    cache_path: cache,
                    remote_id: record_upload_remote_id(record),
                    etag: record_upload_etag(record),
                },
            )
        } else {
            (Recovery::Ended, RecoveryOrder::Finish(false))
        },
        (Recovery::Uploading { cache }, RecoveryEvent::Uploaded(uploaded)) => (
            Recovery::Committing { uploaded: uploaded.remote_id.clone() },
            RecoveryOrder::Commit {
                id: record.metadata.remote_id.clone(),
                path: record.metadata.path.clone(),
                uploaded,
                cache_path: cache,
            },
        ),
        (Recovery::Uploading { cache }, RecoveryEvent::UploadFailed { conflict, message }) => {
            let id = record.metadata.remote_id.clone();
            if conflict {
                (
                    Recovery::MarkingConflict { cache },
                    RecoveryOrder::Mark { id, state: FileState::Conflict },
                )
            } else if contains_text(message.as_str(), "unsupported OneDrive file name") {
                (Recovery::MarkingFailure, RecoveryOrder::Mark { id, state: FileState::Error })
            } else {
                (Recovery::MarkingFailure, RecoveryOrder::Mark { id, state: FileState::Dirty })
            }
        },
        (Recovery::Committing { uploaded }, RecoveryEvent::Committed(now)) => {
            let same = match &now {
                Some(id) => same_text(id.as_str(), uploaded.as_str()),
                None => false,
            };
            if same {
                (Recovery::Releasing, RecoveryOrder::Release)
            } else {
                (
                    Recovery::Discarding { failed: false },
                    RecoveryOrder::Discard {
                        item: uploaded,
                        path: record.metadata.path.clone(),
                    },
                )
            }
        },
        (Recovery::Committing { uploaded }, RecoveryEvent::CommitFailed) => (
            Recovery::Discarding { failed: true },
            RecoveryOrder::Discard { item: uploaded, path: record.metadata.path.clone() },
        ),
        (Recovery::Discarding { failed }, RecoveryEvent::Discarded) => if failed {
            (Recovery::Ended, RecoveryOrder::Fail)
        } else {
            (Recovery::Releasing, RecoveryOrder::Release)
        },
        (Recovery::Releasing, RecoveryEvent::Released) => (
            Recovery::Ended,
            RecoveryOrder::Finish(true),
        ),
        (Recovery::MarkingConflict { cache }, RecoveryEvent::Marked) => (
            Recovery::Preserving,
            RecoveryOrder::Preserve { cache_path: cache },
        ),
        (Recovery::MarkingFailure, RecoveryEvent::Marked) => (
            Recovery::Ended,
            RecoveryOrder::Finish(false),
        ),
        (Recovery::Preserving, RecoveryEvent::Preserved(kept)) => (
            Recovery::Ended,
            RecoveryOrder::Finish(kept),
        ),
        (s, _) => (s, RecoveryOrder::Nothing),
    }
}

/// The content counts as brought to the cloud only after its upload was
/// recorded or a copy of it was kept.
pub proof fn lemma_success_was_recorded(s: Recovery, record: FileRecord, event: RecoveryEvent)
    requires
        s.followed(record, event).1 == RecoveryOrder::Finish(true),
    ensures
        (s is Releasing && event is Released) || (s is Preserving && event
            == RecoveryEvent::Preserved(true)),
{
}

/// Nothing is left in the cloud unknown: what was uploaded becomes the
/// record's own item, or is marked for deletion, unless something outside
/// fails.
pub proof fn lemma_upload_is_owned_or_discarded(
    s: Recovery,
    record: FileRecord,
    event: RecoveryEvent,
)
    requires
        s is Committing,
        !(event is Failed),
        s.followed(record, event).0 != s,
    ensures
        (event matches RecoveryEvent::Committed(now) && option_text(now) == Some(s->uploaded@))
            || s.followed(record, event).1 == (RecoveryOrder::Discard {
            item: s->uploaded,
            path: record.metadata.path,
        }),
{
}

/// What happens while the content of a record is brought to the cloud, step by
/// step: the states, what happened and what was ordered.
pub open spec fn is_recovery_run(
    record: FileRecord,
    states: Seq<Recovery>,
    events: Seq<RecoveryEvent>,
    orders: Seq<RecoveryOrder>,
) -> bool {
    &&& states.len() == events.len() + 1
    &&& orders.len() == events.len()
    &&& states[0] is Surveying
    &&& forall|i: int|
        0 <= i < events.len() ==> #[trigger] states[i].followed(record, events[i]) == (
            states[i + 1],
            orders[i],
        )
}

/// The cache file that a state speaks of is that of the record.
pub open spec fn keeps_cache(state: Recovery, record: FileRecord) -> bool {
    match state {
        Recovery::LookingUp { cache } => record.cache_path == Some(cache),
        Recovery::Beginning { cache } => record.cache_path == Some(cache),
        Recovery::Uploading { cache } => record.cache_path == Some(cache),
        Recovery::MarkingConflict { cache } => record.cache_path == Some(cache),
        _ => true,
    }
}

proof fn lemma_run_keeps_cache(
    record: FileRecord,
    states: Seq<Recovery>,
    events: Seq<RecoveryEvent>,
    orders: Seq<RecoveryOrder>,
    n: int,
)
    requires
        is_recovery_run(record, states, events, orders),
        0 <= n <= events.len(),
    ensures
        keeps_cache(states[n], record),
    decreases n,
{
    if n > 0 {
        lemma_run_keeps_cache(record, states, events, orders, n - 1);
        assert(states[n - 1].followed(record, events[n - 1]) == (states[n - 1 + 1], orders[n - 1]));
    }
}

/// Whatever happens, what is handed to the cloud is the record's own: the content
/// goes up from the record's cache file to the record's path, in the place of the
/// item that the record stands for; it is recorded for the same record, path and
/// file; and a copy is made of the same file.
pub proof fn lemma_recovery_hands_over_the_record(
    record: FileRecord,
    states: Seq<Recovery>,
    events: Seq<RecoveryEvent>,
    orders: Seq<RecoveryOrder>,
    n: int,
)
    requires
        is_recovery_run(record, states, events, orders),
        0 <= n < orders.len(),
    ensures
        match orders[n] {
            RecoveryOrder::LookUp(path) => path == record.metadata.path,
            RecoveryOrder::Upload { path, cache_path, remote_id, etag } => {
                &&& path == record.metadata.path
                &&& record.cache_path == Some(cache_path)
                &&& remote_id == record.cloud_remote_id
                &&& etag == upload_etag(record)
            },
            RecoveryOrder::Commit { id, path, uploaded, cache_path } => {
                &&& id == record.metadata.remote_id
                &&& path == record.metadata.path
                &&& record.cache_path == Some(cache_path)
                &&& events[n] == RecoveryEvent::Uploaded(uploaded)
            },
            RecoveryOrder::Discard { path, .. } => path == record.metadata.path,
            RecoveryOrder::Mark { id, .. } => id == record.metadata.remote_id,
            RecoveryOrder::Preserve { cache_path } => record.cache_path == Some(cache_path),
            _ => true,
        },
{
    lemma_run_keeps_cache(record, states, events, orders, n);
    assert(states[n].followed(record, events[n]) == (states[n + 1], orders[n]));
}

/// A record that the cloud does not know is never uploaded over an item that
/// belongs to another record or awaits its deletion.
pub proof fn lemma_no_upload_over_foreign_item(
    record: FileRecord,
    cache: String,
    item: RemoteItem,
)
    requires
        item.owned_by_another || item.awaiting_delete,
    ensures
        (Recovery::LookingUp { cache }).followed(record, RecoveryEvent::Remote(Some(item))) == (
            Recovery::Ended,
            RecoveryOrder::Finish(false),
        ),
        record.cloud_remote_id is None && record.state != FileState::Conflict ==> forall|
            pending_above: bool,
            exists_: bool,
        |
            !(#[trigger] Recovery::Surveying.followed(
                record,
                RecoveryEvent::Surveyed { pending_above, exists: exists_ },
            ).0 is Beginning),
{
}

/// The records whose changed content can be brought to the cloud, in order.
pub open spec fn recoverable(seen: Seq<Seen>) -> Seq<FileRecord>
    decreases seen.len(),
{
    if seen.len() == 0 {
        Seq::empty()
    } else {
        let s = seen.last();
        let rest = recoverable(seen.drop_last());
        if awaits_upload(s.record.state) && s.record.cache_path is Some && s.exists {
            rest.push(s.record)
        } else {
            rest
        }
    }
}

/// The records whose changed content can be brought to the cloud.
pub fn recover_dirty_uploads(seen: &Vec<Seen>) -> (r: Vec<FileRecord>)
    ensures
        r@ == recoverable(seen@),
{
    let mut r: Vec<FileRecord> = Vec::new();
    let mut i: usize = 0;
    while i < seen.len()
        invariant
            i <= seen@.len(),
            r@ == recoverable(seen@.take(i as int)),
        decreases seen@.len() - i,
    {
        proof {
            let upto = seen@.take(i + 1);
            assert(upto.drop_last() =~= seen@.take(i as int));
            assert(upto.last() == seen@[i as int]);
        }
        let s = &seen[i];
        if is_awaiting_upload(&s.record) && s.record.cache_path.is_some() && s.exists {
            r.push(s.record.clone());
        }
        i += 1;
    }
    assert(seen@.take(seen@.len() as int) =~= seen@);
    r
}

/// What became of one record: whether its content is in the cloud, or the
/// number of a failure.
pub enum Recovered {
    Content(bool),
    Failed(usize),
}

/// The number of the failure that came first.
pub open spec fn first_failure(list: Seq<Recovered>) -> Option<usize>
    decreases list.len(),
{
    if list.len() == 0 {
        None
    } else {
        match first_failure(list.drop_last()) {
            Some(e) => Some(e),
            None => match list.last() {
                Recovered::Failed(e) => Some(e),
                Recovered::Content(_) => None,
            },
        }
    }
}

/// How many are in the cloud.
pub open spec fn recovered_count(list: Seq<Recovered>) -> nat
    decreases list.len(),
{
    if list.len() == 0 {
        0
    } else {
        recovered_count(list.drop_last()) + if list.last() == Recovered::Content(true) {
            1nat
        } else {
            0nat
        }
    }
}

/// What became of all records, in the order in which they came to an end: the
/// first failure, or how many are in the cloud.
pub fn recover_dirty_uploads_concurrent(list: &Vec<Recovered>) -> (r: Result<usize, usize>)
    ensures
        match first_failure(list@) {
            Some(e) => r == Err::<usize, usize>(e),
            None => r == Ok::<usize, usize>(recovered_count(list@) as usize),
        },
{
    let mut count: usize = 0;
    let mut first: Option<usize> = None;
    let mut i: usize = 0;
    while i < list.len()
        invariant
            i <= list@.len(),
            count <= i,
            count == recovered_count(list@.take(i as int)),
            first == first_failure(list@.take(i as int)),
        decreases list@.len() - i,
    {
        proof {
            let upto = list@.take(i + 1);
            assert(upto.drop_last() =~= list@.take(i as int));
            assert(upto.last() == list@[i as int]);
        }
        match &list[i] {
            Recovered::Content(done) => if *done {
                count += 1;
            },
            Recovered::Failed(e) => if first.is_none() {
                first = Some(*e);
            },
        }
        i += 1;
    }
    assert(list@.take(list@.len() as int) =~= list@);
    match first {
        Some(e) => Err(e),
        None => Ok(count),
    }
}

/// What is being done about a deletion that waits.
#[derive(Clone, Copy, PartialEq, Eq, Structural, Debug)]
pub enum Deleting {
    /// The item is being deleted in the cloud.
    Remote,
    /// The cache file is being removed.
    Cache,
    /// The deletion is being struck off.
    Record,
    Ended,
}

/// What happened about a deletion.
#[derive(Clone, Copy, PartialEq, Eq, Structural, Debug)]
pub enum DeleteEvent {
    /// Whether the cloud has deleted the item.
    Deleted(bool),
    /// Whether the cache file is gone.
    Removed(bool),
    Struck,
}

/// What is to be done about a deletion.
#[derive(Clone, Copy, PartialEq, Eq, Structural, Debug)]
pub enum DeleteOrder {
    DeleteRemote,
    RemoveCache,
    Strike,
    /// It is done.
    Done,
    /// It goes on waiting.
    Keep,
    /// Something outside failed.
    Fail,
    /// Nothing: what happened does not belong here.
    Nothing,
}

/// An item that the cloud never knew.
pub open spec fn is_local_id(id: Seq<char>) -> bool {
    begins(id, "local-upload-"@)
}

/// How a deletion begins: where the cloud never knew the item, there is
/// nothing to delete there.
pub open spec fn deletion_begins(remote_id: Seq<char>, has_cache: bool) -> (Deleting, DeleteOrder) {
    if !is_local_id(remote_id) {
        (Deleting::Remote, DeleteOrder::DeleteRemote)
    } else if has_cache {
        (Deleting::Cache, DeleteOrder::RemoveCache)
    } else {
        (Deleting::Record, DeleteOrder::Strike)
    }
}

/// The state in which an order is carried out.
pub open spec fn deletion_state(order: DeleteOrder) -> Deleting {
    match order {
        DeleteOrder::DeleteRemote => Deleting::Remote,
        DeleteOrder::RemoveCache => Deleting::Cache,
        DeleteOrder::Strike => Deleting::Record,
        _ => Deleting::Ended,
    }
}

/// How a deletion begins.
pub fn recover_pending_deletes(remote_id: &str, has_cache: bool) -> (r: (Deleting, DeleteOrder))
    ensures
        r == deletion_begins(remote_id@, has_cache),
{
    if !begins_with(remote_id, "local-upload-") {
        (Deleting::Remote, DeleteOrder::DeleteRemote)
    } else if has_cache {
        (Deleting::Cache, DeleteOrder::RemoveCache)
    } else {
        (Deleting::Record, DeleteOrder::Strike)
    }
}

impl Deleting {
    /// The next state and order.
    pub open spec fn followed(self, has_cache: bool, event: DeleteEvent) -> (Deleting, DeleteOrder) {
        match (self, event) {
            (Deleting::Remote, DeleteEvent::Deleted(done)) => if !done {
                (Deleting::Ended, DeleteOrder::Keep)
            } else if has_cache {
                (Deleting::Cache, DeleteOrder::RemoveCache)
            } else {
                (Deleting::Record, DeleteOrder::Strike)
            },
            (Deleting::Cache, DeleteEvent::Removed(gone)) => if gone {
                (Deleting::Record, DeleteOrder::Strike)
            } else {
                (Deleting::Ended, DeleteOrder::Fail)
            },
            (Deleting::Record, DeleteEvent::Struck) => (Deleting::Ended, DeleteOrder::Done),
            (s, _) => (s, DeleteOrder::Nothing),
        }
    }

    /// The next step of a deletion. It is struck off only after the cloud has
    /// deleted the item, where it knew it.
    pub fn next(self, has_cache: bool, event: DeleteEvent) -> (r: (Deleting, DeleteOrder))
        ensures
            r == self.followed(has_cache, event),
    {
        match (self, event) {
            (Deleting::Remote, DeleteEvent::Deleted(done)) => if !done {
                (Deleting::Ended, DeleteOrder::Keep)
            } else if has_cache {
                (Deleting::Cache, DeleteOrder::RemoveCache)
            } else {
                (Deleting::Record, DeleteOrder::Strike)
            },
            (Deleting::Cache, DeleteEvent::Removed(gone)) => if gone {
                (Deleting::Record, DeleteOrder::Strike)
            } else {
                (Deleting::Ended, DeleteOrder::Fail)
            },
            (Deleting::Record, DeleteEvent::Struck) => (Deleting::Ended, DeleteOrder::Done),
            (s, _) => (s, DeleteOrder::Nothing),
        }
    }
}

/// What became of a deletion among those that wait: it is struck off, it goes on
/// waiting while the others go on, or it ended them all.
pub open spec fn deletion_end(last: DeleteOrder) -> Ended {
    match last {
        DeleteOrder::Done => Ended::Done,
        DeleteOrder::Keep => Ended::Left,
        _ => Ended::Failed,
    }
}

/// What became of a deletion, by its last order.
pub fn deletion_ended(last: &DeleteOrder) -> (r: Ended)
    ensures
        r == deletion_end(*last),
{
    match last {
        DeleteOrder::Done => Ended::Done,
        DeleteOrder::Keep => Ended::Left,
        _ => Ended::Failed,
    }
}

/// The orders of a deletion, where the cloud would say `deleted` and removing
/// its cache file would give `removed`.
pub open spec fn deletion_orders(
    remote_id: Seq<char>,
    has_cache: bool,
    deleted: bool,
    removed: bool,
) -> Seq<DeleteOrder> {
    let remote = if is_local_id(remote_id) {
        Seq::empty()
    } else {
        seq![DeleteOrder::DeleteRemote]
    };
    if !is_local_id(remote_id) && !deleted {
        remote.push(DeleteOrder::Keep)
    } else if has_cache && !removed {
        remote.push(DeleteOrder::RemoveCache).push(DeleteOrder::Fail)
    } else if has_cache {
        remote.push(DeleteOrder::RemoveCache).push(DeleteOrder::Strike).push(DeleteOrder::Done)
    } else {
        remote.push(DeleteOrder::Strike).push(DeleteOrder::Done)
    }
}

/// What happens when an order of a deletion is carried out.
pub open spec fn deletion_answer(order: DeleteOrder, deleted: bool, removed: bool) -> DeleteEvent {
    match order {
        DeleteOrder::DeleteRemote => DeleteEvent::Deleted(deleted),
        DeleteOrder::RemoveCache => DeleteEvent::Removed(removed),
        _ => DeleteEvent::Struck,
    }
}

/// An order of a deletion follows another one.
pub open spec fn deletion_goes_on(
    has_cache: bool,
    deleted: bool,
    removed: bool,
    order: DeleteOrder,
    next: DeleteOrder,
) -> bool {
    deletion_state(order).followed(has_cache, deletion_answer(order, deleted, removed)) == (
        deletion_state(next),
        next,
    )
}

/// A deletion asks the cloud once, or never where the cloud did not know the
/// item. It leaves the queue exactly where the cloud made it, or never knew the
/// item, and its cache file is gone; where the cloud refused, it goes on waiting
/// and nothing else is done about it.
pub proof fn lemma_deletion_runs(
    remote_id: Seq<char>,
    has_cache: bool,
    deleted: bool,
    removed: bool,
)
    ensures
        ({
            let orders = deletion_orders(remote_id, has_cache, deleted, removed);
            let local = is_local_id(remote_id);
            &&& orders[0] == deletion_begins(remote_id, has_cache).1
            &&& forall|i: int|
                0 <= i < orders.len() - 1 ==> #[trigger] deletion_goes_on(
                    has_cache,
                    deleted,
                    removed,
                    orders[i],
                    orders[i + 1],
                )
            &&& forall|i: int|
                0 <= i < orders.len() && #[trigger] orders[i] is DeleteRemote ==> i == 0 && !local
            &&& deletion_end(orders.last()) is Done <==> (local || deleted) && (!has_cache
                || removed)
            &&& deletion_end(orders.last()) is Left <==> !local && !deleted
        }),
{
}

/// Where the cloud and the files allow it, all deletions that wait are gone
/// through: one that the cloud refused stays and the rest go on, and the result
/// is the number of those that left the queue.
pub proof fn lemma_deletions_are_counted(last: Seq<DeleteOrder>)
    requires
        last.len() <= usize::MAX,
        forall|i: int| 0 <= i < last.len() ==> #[trigger] last[i] is Done || last[i] is Keep,
    ensures
        swept(last.len() as usize, last.map_values(|o: DeleteOrder| deletion_end(o))).1
            == SweepOrder::Finish(
            done_count(last.map_values(|o: DeleteOrder| deletion_end(o))) as usize,
        ),
        done_count(last.map_values(|o: DeleteOrder| deletion_end(o))) == last.filter(
            |o: DeleteOrder| o is Done,
        ).len(),
{
    let ends = last.map_values(|o: DeleteOrder| deletion_end(o));
    assert forall|i: int| 0 <= i < ends.len() implies !(#[trigger] ends[i] is Failed) by {
        assert(last[i] is Done || last[i] is Keep);
    }
    lemma_sweep_takes_all(last.len() as usize, ends);
    lemma_done_deletions(last);
}

proof fn lemma_done_deletions(last: Seq<DeleteOrder>)
    ensures
        done_count(last.map_values(|o: DeleteOrder| deletion_end(o))) == last.filter(
            |o: DeleteOrder| o is Done,
        ).len(),
    decreases last.len(),
{
    reveal(Seq::filter);
    let ends = last.map_values(|o: DeleteOrder| deletion_end(o));
    if last.len() > 0 {
        lemma_done_deletions(last.drop_last());
        assert(ends.drop_last() =~= last.drop_last().map_values(|o: DeleteOrder| deletion_end(o)));
    }
}

/// The place of the deletion of an item among those that wait.
pub fn find_pending_delete(ids: &Vec<String>, id: &str) -> (r: Option<usize>)
    ensures
        match r {
            Some(i) => i < ids@.len() && ids@[i as int]@ == id@ && forall|j: int|
                0 <= j < i ==> (#[trigger] ids@[j])@ != id@,
            None => forall|j: int| 0 <= j < ids@.len() ==> (#[trigger] ids@[j])@ != id@,
        },
{
    let mut i: usize = 0;
    while i < ids.len()
        invariant
            i <= ids@.len(),
            forall|j: int| 0 <= j < i ==> (#[trigger] ids@[j])@ != id@,
        decreases ids@.len() - i,
    {
        if same_text(ids[i].as_str(), id) {
            return Some(i);
        }
        i += 1;
    }
    None
}

/// What is known of an item of the cloud at the path of a record: whether the
/// record that it belongs to is another one, and whether it awaits its deletion.
pub fn remote_item(
    remote_id: &str,
    record: &FileRecord,
    owner: &Option<FileRecord>,
    deletes: &Vec<String>,
) -> (r: RemoteItem)
    ensures
        r.owned_by_another == (owner matches Some(o) && o.metadata.remote_id@
            != record.metadata.remote_id@),
        r.awaiting_delete == exists|i: int|
            0 <= i < deletes@.len() && (#[trigger] deletes@[i])@ == remote_id@,
{
    let owned_by_another = match owner {
        Some(o) => !same_text(
            o.metadata.remote_id.as_str(),
            record.metadata.remote_id.as_str(),
        ),
        None => false,
    };
    RemoteItem {
        owned_by_another,
        awaiting_delete: find_pending_delete(deletes, remote_id).is_some(),
    }
}

/// A change of an item's name or place that waits.
pub struct PendingMetadata {
    pub local_id: String,
    pub path: String,
    pub create_folder: bool,
}

/// What is being done about such a change.
pub enum Changing {
    /// The directory is being made.
    Creating,
    /// A directory that may be there already is being looked up.
    LookingUp,
    /// The item is being moved.
    Moving,
    /// The change is being recorded.
    Completing,
    Ended,
}

/// What happened about such a change.
pub enum ChangeEvent {
    /// What the cloud says of the item after the change, unless it failed.
    Changed(Option<MetadataEntry>),
    /// What the cloud has at the path.
    Found(Option<MetadataEntry>),
    /// Whether the change was recorded.
    Completed(bool),
    /// Something outside failed.
    Failed,
}

/// What is to be done about such a change.
pub enum ChangeOrder {
    CreateFolder(String),
    LookUp(String),
    /// Move the cloud's item to a path.
    Move(String, String),
    Complete(MetadataEntry),
    /// The end: whether the change is made.
    Finish(bool),
    /// The end: something failed, and the change goes on waiting.
    Fail,
    /// Nothing: what happened does not belong here.
    Nothing,
}

/// How a change begins. One that was overtaken by a later change of the item,
/// or that has to wait for a change above it, is left alone.
pub open spec fn change_begins(
    operation: PendingMetadata,
    record: Option<FileRecord>,
    pending_above: bool,
) -> (Changing, ChangeOrder) {
    match record {
        None => (Changing::Ended, ChangeOrder::Finish(false)),
        Some(f) => if f.metadata.path@ != operation.path@ || pending_above {
            (Changing::Ended, ChangeOrder::Finish(false))
        } else if operation.create_folder {
            (Changing::Creating, ChangeOrder::CreateFolder(operation.path))
        } else {
            match f.cloud_remote_id {
                None => (Changing::Ended, ChangeOrder::Fail),
                Some(id) => (Changing::Moving, ChangeOrder::Move(id, operation.path)),
            }
        },
    }
}

/// How a change of an item's name or place begins. `pending_above` says
/// whether one of a directory above it waits.
pub fn recover_pending_metadata_record(
    operation: &PendingMetadata,
    record: &Option<FileRecord>,
    pending_above: bool,
) -> (r: (Changing, ChangeOrder))
    ensures
        r == change_begins(*operation, *record, pending_above),
{
    match record {
        None => (Changing::Ended, ChangeOrder::Finish(false)),
        Some(f) => if !same_text(f.metadata.path.as_str(), operation.path.as_str())
            || pending_above {
            (Changing::Ended, ChangeOrder::Finish(false))
        } else if operation.create_folder {
            (Changing::Creating, ChangeOrder::CreateFolder(operation.path.clone()))
        } else {
            match &f.cloud_remote_id {
                None => (Changing::Ended, ChangeOrder::Fail),
                Some(id) => (
                    Changing::Moving,
                    ChangeOrder::Move(id.clone(), operation.path.clone()),
                ),
            }
        },
    }
}

/// What became of a change among those that wait: it is made, or it goes on
/// waiting while the others go on.
pub fn change_ended(last: &ChangeOrder) -> (r: Ended)
    ensures
        r == if *last == ChangeOrder::Finish(true) {
            Ended::Done
        } else {
            Ended::Left
        },
{
    match last {
        ChangeOrder::Finish(true) => Ended::Done,
        _ => Ended::Left,
    }
}

/// A change that was overtaken by a later one, or that has to wait for one above
/// it, is never made: neither a directory is created nor an item moved.
pub proof fn lemma_stale_change_is_not_replayed(
    operation: PendingMetadata,
    record: FileRecord,
    pending_above: bool,
)
    requires
        record.metadata.path@ != operation.path@ || pending_above,
    ensures
        change_begins(operation, Some(record), pending_above) == (
            Changing::Ended,
            ChangeOrder::Finish(false),
        ),
        forall|event: ChangeEvent| #[trigger]
            Changing::Ended.followed(operation, event) == (Changing::Ended, ChangeOrder::Nothing),
{
}

impl Changing {
    /// The next state and order.
    pub open spec fn followed(self, operation: PendingMetadata, event: ChangeEvent) -> (
        Changing,
        ChangeOrder,
    ) {
        match (self, event) {
            (Changing::Ended, _) => (Changing::Ended, ChangeOrder::Nothing),
            (_, ChangeEvent::Failed) => (Changing::Ended, ChangeOrder::Fail),
            (Changing::Creating, ChangeEvent::Changed(entry)) => match entry {
                Some(e) => (Changing::Completing, ChangeOrder::Complete(e)),
                None => (Changing::LookingUp, ChangeOrder::LookUp(operation.path)),
            },
            (Changing::LookingUp, ChangeEvent::Found(entry)) => match entry {
                Some(e) => if e.is_dir {
                    (Changing::Completing, ChangeOrder::Complete(e))
                } else {
                    (Changing::Ended, ChangeOrder::Fail)
                },
                None => (Changing::Ended, ChangeOrder::Fail),
            },
            (Changing::Moving, ChangeEvent::Changed(entry)) => match entry {
                Some(e) => (Changing::Completing, ChangeOrder::Complete(e)),
                None => (Changing::Ended, ChangeOrder::Fail),
            },
            (Changing::Completing, ChangeEvent::Completed(done)) => (
                Changing::Ended,
                ChangeOrder::Finish(done),
            ),
            (s, _) => (s, ChangeOrder::Nothing),
        }
    }

    /// The next step of a change. Where a directory cannot be made because it
    /// is there already, that one is taken.
    pub fn next(self, operation: &PendingMetadata, event: ChangeEvent) -> (r: (
        Changing,
        ChangeOrder,
    ))
        ensures
            r == self.followed(*operation, event),
    {
        match (self, event) {
            (Changing::Ended, _) => (Changing::Ended, ChangeOrder::Nothing),
            (_, ChangeEvent::Failed) => (Changing::Ended, ChangeOrder::Fail),
            (Changing::Creating, ChangeEvent::Changed(entry)) => match entry {
                Some(e) => (Changing::Completing, ChangeOrder::Complete(e)),
                None => (Changing::LookingUp, ChangeOrder::LookUp(operation.path.clone())),
            },
            (Changing::LookingUp, ChangeEvent::Found(entry)) => match entry {
                Some(e) => if e.is_dir {
                    (Changing::Completing, ChangeOrder::Complete(e))
                } else {
                    (Changing::Ended, ChangeOrder::Fail)
                },
                None => (Changing::Ended, ChangeOrder::Fail),
            },
            (Changing::Moving, ChangeEvent::Changed(entry)) => match entry {
                Some(e) => (Changing::Completing, ChangeOrder::Complete(e)),
                None => (Changing::Ended, ChangeOrder::Fail),
            },
            (Changing::Completing, ChangeEvent::Completed(done)) => (
                Changing::Ended,
                ChangeOrder::Finish(done),
            ),
            (s, _) => (s, ChangeOrder::Nothing),
        }
    }
}

/// Whether a record was left in the middle of being written: its content,
/// whatever it is, is then to be brought to the cloud. `exists` says whether
/// its cache file does.
pub fn recover_interrupted_writes(record: &FileRecord, exists: bool) -> (r: bool)
    ensures
        r == (record.state == FileState::Writing && record.cache_path is Some && exists),
{
    record.state == FileState::Writing && record.cache_path.is_some() && exists
}

/// A record has to be worked on.
pub open spec fn needs_work(s: Seen) -> bool {
    awaits_upload(s.record.state) || (!s.record.metadata.is_dir && s.record.effective_pinned
        && !super::record::cached(s.record, s.exists))
}

/// The commands for deletions.
pub open spec fn delete_commands(deletes: Seq<String>) -> Seq<UploadCommand> {
    deletes.map_values(|id: String| UploadCommand::Delete(id))
}

/// The commands for changes of names and places.
pub open spec fn change_commands(operations: Seq<String>) -> Seq<UploadCommand> {
    operations.map_values(|id: String| UploadCommand::Upload(id))
}

/// An item has a command for a change already, or one for its record.
pub open spec fn has_command(operations: Seq<String>, seen: Seq<Seen>, id: Seq<char>) -> bool {
    ||| exists|i: int| 0 <= i < operations.len() && #[trigger] operations[i]@ == id
    ||| exists|i: int|
        0 <= i < seen.len() && #[trigger] needs_work(seen[i]) && seen[i].record.metadata.remote_id@
            == id
}

/// The commands for records, each item once.
pub open spec fn record_commands(operations: Seq<String>, seen: Seq<Seen>) -> Seq<UploadCommand>
    decreases seen.len(),
{
    if seen.len() == 0 {
        Seq::empty()
    } else {
        let rest = record_commands(operations, seen.drop_last());
        let s = seen.last();
        if needs_work(s) && !has_command(
            operations,
            seen.drop_last(),
            s.record.metadata.remote_id@,
        ) {
            rest.push(UploadCommand::Upload(s.record.metadata.remote_id))
        } else {
            rest
        }
    }
}

/// Everything that is to be brought to the cloud: the deletions that wait, the
/// changes of names and places that wait, and the records with content that
/// the cloud or the cache lacks, each item once.
pub fn enqueue_recovery(deletes: &Vec<String>, operations: &Vec<String>, seen: &Vec<Seen>) -> (r:
    Vec<UploadCommand>)
    ensures
        r@ == delete_commands(deletes@) + change_commands(operations@) + record_commands(
            operations@,
            seen@,
        ),
{
    let mut r: Vec<UploadCommand> = Vec::new();
    let mut i: usize = 0;
    while i < deletes.len()
        invariant
            i <= deletes@.len(),
            r@ == delete_commands(deletes@.take(i as int)),
        decreases deletes@.len() - i,
    {
        r.push(UploadCommand::Delete(deletes[i].clone()));
        assert(r@ =~= delete_commands(deletes@.take(i + 1)));
        i += 1;
    }
    assert(deletes@.take(deletes@.len() as int) =~= deletes@);
    let ghost first = r@;
    let mut queued: StringHashMap<bool> = StringHashMap::new();
    i = 0;
    assert(change_commands(operations@.take(0)) =~= Seq::empty());
    assert(first + change_commands(operations@.take(0)) =~= first);
    while i < operations.len()
        invariant
            i <= operations@.len(),
            r@ == first + change_commands(operations@.take(i as int)),
            forall|k: Seq<char>| #[trigger]
                queued@.contains_key(k) <==> exists|j: int|
                    0 <= j < i && #[trigger] operations@[j]@ == k,
        decreases operations@.len() - i,
    {
        queued.insert(operations[i].clone(), true);
        r.push(UploadCommand::Upload(operations[i].clone()));
        proof {
            assert(r@ =~= first + change_commands(operations@.take(i + 1)));
            assert forall|k: Seq<char>| #[trigger]
                queued@.contains_key(k) <==> exists|j: int|
                    0 <= j < i + 1 && #[trigger] operations@[j]@ == k by {
                if operations@[i as int]@ == k {
                    assert(queued@.contains_key(k));
                }
            }
        }
        i += 1;
    }
    assert(operations@.take(operations@.len() as int) =~= operations@);
    let ghost second = r@;
    i = 0;
    assert(second + record_commands(operations@, seen@.take(0)) =~= second);
    assert forall|k: Seq<char>| #[trigger]
        queued@.contains_key(k) <==> has_command(operations@, seen@.take(0), k) by {}
    while i < seen.len()
        invariant
            i <= seen@.len(),
            r@ == second + record_commands(operations@, seen@.take(i as int)),
            forall|k: Seq<char>| #[trigger]
                queued@.contains_key(k) <==> has_command(operations@, seen@.take(i as int), k),
        decreases seen@.len() - i,
    {
        let ghost before = seen@.take(i as int);
        let ghost upto = seen@.take(i + 1);
        let ghost had = queued@;
        proof {
            assert(upto.drop_last() =~= before);
            assert(upto.last() == seen@[i as int]);
        }
        let s = &seen[i];
        let work = is_awaiting_upload(&s.record) || (!s.record.metadata.is_dir
            && s.record.effective_pinned && !has_existing_cache(&s.record, s.exists));
        let ghost id = s.record.metadata.remote_id@;
        if work {
            if !queued.contains_key(s.record.metadata.remote_id.as_str()) {
                queued.insert(s.record.metadata.remote_id.clone(), true);
                r.push(UploadCommand::Upload(s.record.metadata.remote_id.clone()));
                assert(r@ =~= second + record_commands(operations@, upto));
            }
        }
        proof {
            assert forall|k: Seq<char>| #[trigger]
                queued@.contains_key(k) <==> has_command(operations@, upto, k) by {
                if has_command(operations@, before, k) {
                    if !(exists|j: int| 0 <= j < operations@.len() && #[trigger] operations@[j]@
                        == k) {
                        let j = choose|j: int|
                            0 <= j < before.len() && #[trigger] needs_work(before[j])
                                && before[j].record.metadata.remote_id@ == k;
                        assert(upto[j] == before[j]);
                        assert(needs_work(upto[j]));
                    }
                    assert(has_command(operations@, upto, k));
                }
                if work && k == id {
                    assert(needs_work(upto[i as int]));
                    assert(has_command(operations@, upto, k));
                }
                if has_command(operations@, upto, k) && !has_command(operations@, before, k) {
                    let j = choose|j: int|
                        0 <= j < upto.len() && #[trigger] needs_work(upto[j])
                            && upto[j].record.metadata.remote_id@ == k;
                    if j < i {
                        assert(before[j] == upto[j]);
                        assert(needs_work(before[j]));
                    }
                    assert(j == i);
                }
            }
        }
        i += 1;
    }
    assert(seen@.take(seen@.len() as int) =~= seen@);
    r
}

} // verus!
