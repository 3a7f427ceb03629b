//! What bringing content in and out is for, over everything that can happen.

use crate::fs::hydration::{
    is_run, pinned_files, pins_lacking, Hydration, HydrationError, HydrationEvent, HydrationOrder,
    Phase, Seen,
};
use crate::fs::record::{cache_name, FileRecord, FileState};
use crate::fs::recovery::recoverable;
use crate::fs::upload_queue::{
    accepted, ended, key_of, sent, started, worker_begins, worker_follows, QueueView,
    UploadCommand, WorkerEvent, WorkerOrder, WorkerPhase,
};
use vstd::prelude::*;

verus! {

/// The local content of a record is newer than the cloud's, or in conflict with
/// it.
pub open spec fn unsaved(state: FileState) -> bool {
    state is Dirty || state is Uploading || state is Conflict
}

/// A record is that of a pinned file whose content is not in the cache.
pub open spec fn pinned_without_content(s: Seen) -> bool {
    !s.record.metadata.is_dir && s.record.effective_pinned && (s.record.cache_path is None
        || !s.exists)
}

/// A worker that is told to upload an item makes the change of name or place that
/// waits, brings pinned content that lacks, and then uploads the item as it finds
/// it, whatever else is recorded of it, as long as the cloud lacks its content.
pub proof fn lemma_worker_uploads_unsaved_content(
    id: String,
    waits: bool,
    seen: Option<Seen>,
    found: FileRecord,
)
    requires
        unsaved(found.state),
    ensures
        ({
            let begun = worker_begins(UploadCommand::Upload(id));
            let asked = worker_follows(begun.0, WorkerEvent::Operation(waits));
            let changed = if waits {
                worker_follows(asked.0, WorkerEvent::Changed(true))
            } else {
                asked
            };
            let looked = worker_follows(changed.0, WorkerEvent::Record(seen));
            let brought = if seen is Some && pinned_without_content(seen->0) {
                worker_follows(looked.0, WorkerEvent::Hydrated)
            } else {
                looked
            };
            let uploading = worker_follows(brought.0, WorkerEvent::RecordAgain(Some(found)));
            &&& begun.1 == WorkerOrder::AskOperation(id)
            &&& waits ==> asked.1 == WorkerOrder::Change(id)
            &&& changed.1 == WorkerOrder::Find(id)
            &&& seen is Some && pinned_without_content(seen->0) ==> looked.1
                == WorkerOrder::Hydrate(seen->0.record)
            &&& brought.1 == WorkerOrder::FindAgain(id)
            &&& uploading.1 == WorkerOrder::Upload(found)
            &&& worker_follows(uploading.0, WorkerEvent::Done).1 == WorkerOrder::Next
        }),
{
}

/// A worker uploads exactly what the second look finds to be unsaved: whatever it
/// did before, it goes on to the next command where the item is gone or saved.
pub proof fn lemma_worker_uploads_nothing_else(
    phase: WorkerPhase,
    event: WorkerEvent,
    record: FileRecord,
)
    ensures
        worker_follows(phase, event).1 == WorkerOrder::Upload(record) ==> {
            &&& phase is LookUpAgain
            &&& event == WorkerEvent::RecordAgain(Some(record))
            &&& unsaved(record.state)
        },
        phase is LookUpAgain && event == WorkerEvent::RecordAgain(Some(record)) && unsaved(
            record.state,
        ) ==> worker_follows(phase, event).1 == WorkerOrder::Upload(record),
        phase is LookUpAgain && event == WorkerEvent::RecordAgain(None) ==> worker_follows(
            phase,
            event,
        ).1 == WorkerOrder::Next,
        phase is LookUpAgain && event == WorkerEvent::RecordAgain(Some(record)) && !unsaved(
            record.state,
        ) ==> worker_follows(phase, event).1 == WorkerOrder::Next,
        worker_follows(phase, event).1 == WorkerOrder::Next ==> {
            ||| phase is Changing && event == WorkerEvent::Changed(false)
            ||| phase is LookUpAgain && event == WorkerEvent::RecordAgain(None)
            ||| phase is LookUpAgain && (event matches WorkerEvent::RecordAgain(Some(f))
                && !unsaved(f.state))
            ||| (phase is Uploading || phase is Deleting) && event == WorkerEvent::Done
        },
{
}

/// A worker gives up an item whose waiting change fails, deletes what it is told
/// to delete, and stops when it is told to.
pub proof fn lemma_worker_ends(id: String)
    ensures
        worker_follows(WorkerPhase::Changing(id), WorkerEvent::Changed(false)).1
            == WorkerOrder::Next,
        worker_begins(UploadCommand::Delete(id)).1 == WorkerOrder::Delete(id),
        worker_follows(worker_begins(UploadCommand::Delete(id)).0, WorkerEvent::Done).1
            == WorkerOrder::Next,
        worker_begins(UploadCommand::Shutdown).1 == WorkerOrder::Stop,
{
}

/// Two commands are known under the same name exactly where they ask for the same
/// thing of the same item.
pub proof fn lemma_keys_tell_commands_apart(a: String, b: String)
    ensures
        key_of(UploadCommand::Upload(a)) is Some,
        key_of(UploadCommand::Delete(a)) is Some,
        key_of(UploadCommand::Shutdown) is None,
        key_of(UploadCommand::Upload(a)) == key_of(UploadCommand::Upload(b)) <==> a@ == b@,
        key_of(UploadCommand::Delete(a)) == key_of(UploadCommand::Delete(b)) <==> a@ == b@,
        key_of(UploadCommand::Upload(a)) != key_of(UploadCommand::Delete(b)),
{
    reveal_strlit("upload:");
    reveal_strlit("delete:");
    let (u, d) = ("upload:"@, "delete:"@);
    assert((u + a@).skip(7) =~= a@ && (u + b@).skip(7) =~= b@);
    assert((d + a@).skip(7) =~= a@ && (d + b@).skip(7) =~= b@);
    assert((u + a@)[0] == 'u' && (d + b@)[0] == 'd');
}

/// A command that nothing waits under is put at the end of an open queue; one that
/// something waits under or is worked on is only noted; a closed queue takes
/// nothing new. Whatever waited before still waits, in its place.
pub proof fn lemma_sending(q: QueueView, c: UploadCommand)
    ensures
        ({
            let known = key_of(c) is Some && q.pending.contains_key(key_of(c)->0);
            let w = sent(q, c);
            &&& accepted(q, c) <==> known || !q.closed
            &&& w.closed == q.closed
            &&& known ==> w.waiting == q.waiting && w.pending[key_of(c)->0]
            &&& !known && q.closed ==> w == q
            &&& !known && !q.closed ==> {
                &&& w.waiting == q.waiting.push(c)
                &&& key_of(c) is Some ==> w.pending.contains_key(key_of(c)->0)
                    && !w.pending[key_of(c)->0]
            }
            &&& forall|k: Seq<char>|
                key_of(c) != Some(k) ==> (#[trigger] w.pending.contains_key(k)
                    <==> q.pending.contains_key(k)) && (q.pending.contains_key(k)
                    ==> w.pending[k] == q.pending[k])
        }),
{
}

/// Work that nobody asked for again is over when it has ended: it does not wait
/// any more, and its item can be asked for anew. Other items are not touched.
pub proof fn lemma_ended_work_is_over(q: QueueView, c: UploadCommand)
    requires
        key_of(c) is Some,
    ensures
        ({
            let k = key_of(c)->0;
            let w = ended(started(q, c), c);
            &&& w.waiting == q.waiting
            &&& !w.pending.contains_key(k)
            &&& !q.closed ==> sent(w, c).waiting == q.waiting.push(c)
            &&& forall|o: Seq<char>|
                o != k ==> (#[trigger] w.pending.contains_key(o) <==> q.pending.contains_key(o))
                    && (q.pending.contains_key(o) ==> w.pending[o] == q.pending[o])
        }),
{
}

/// The record that counts after a look that a run took, if it took one before a
/// step.
pub open spec fn looked_at(
    start: FileRecord,
    events: Seq<HydrationEvent>,
    n: int,
    f: FileRecord,
) -> bool {
    exists|j: int|
        0 <= j < n && (#[trigger] events[j] matches HydrationEvent::Refreshed(seen, _) && f
            == match seen {
            Some(r) => r,
            None => start,
        })
}

proof fn lemma_record_in_hand(
    states: Seq<Hydration>,
    events: Seq<HydrationEvent>,
    orders: Seq<HydrationOrder>,
    n: int,
)
    requires
        is_run(states, events, orders),
        states[0].phase == Phase::Checking,
        0 <= n < states.len(),
    ensures
        states[n].phase is Checking || states[n].phase is Refreshing ==> states[n].record
            == states[0].record,
        !(states[n].phase is Checking || states[n].phase is Refreshing || states[n].phase is Ended)
            ==> looked_at(states[0].record, events, n, states[n].record),
        states[n].phase matches Phase::Cleaning { error } ==> error == HydrationError::Canceled
            || error == HydrationError::Outside,
    decreases n,
{
    if n > 0 {
        lemma_record_in_hand(states, events, orders, n - 1);
        assert(states[n - 1].follows(events[n - 1], (states[n - 1 + 1], orders[n - 1])));
        let f = states[n].record;
        if looked_at(states[0].record, events, n - 1, f) {
            let j = choose|j: int|
                0 <= j < n - 1 && (#[trigger] events[j] matches HydrationEvent::Refreshed(seen, _)
                    && f == match seen {
                    Some(r) => r,
                    None => states[0].record,
                });
            assert(0 <= j < n);
        }
        if states[n - 1].phase is Refreshing && events[n - 1] is Refreshed {
            assert(looked_at(states[0].record, events, n, f));
        }
    }
}

/// Every download names the item that the cloud has for the record, and its size,
/// as the record was found by the look before; the temporary file is named after
/// the record's own identifier; and content that is there is that of the record's
/// cache file. That holds in every run, also where the two identifiers differ.
pub proof fn lemma_hydration_asks_for_the_clouds_item(
    states: Seq<Hydration>,
    events: Seq<HydrationEvent>,
    orders: Seq<HydrationOrder>,
    n: int,
)
    requires
        is_run(states, events, orders),
        states[0].phase == Phase::Checking,
        0 <= n < orders.len(),
    ensures
        match orders[n] {
            HydrationOrder::Download(id, size) => exists|f: FileRecord| #[trigger]
                looked_at(states[0].record, events, n, f) && f.cloud_remote_id == Some(id)
                    && f.metadata.size == size,
            HydrationOrder::Prepare(name) => exists|f: FileRecord| #[trigger]
                looked_at(states[0].record, events, n, f) && name@ == cache_name(
                    f.metadata.remote_id@,
                ),
            HydrationOrder::Present(path) => exists|f: FileRecord| #[trigger]
                looked_at(states[0].record, events, n, f) && f.cache_path == Some(path),
            HydrationOrder::Fail(HydrationError::LocalOnly) => exists|f: FileRecord| #[trigger]
                looked_at(states[0].record, events, n, f) && f.cloud_remote_id is None,
            _ => true,
        },
{
    lemma_record_in_hand(states, events, orders, n);
    assert(states[n].follows(events[n], (states[n + 1], orders[n])));
}

/// Content that the cache holds in a state that keeps it.
pub open spec fn in_cache(f: FileRecord, exists: bool) -> bool {
    &&& f.state is Cached || f.state is Pinned || f.state is Writing || f.state is Dirty
        || f.state is Uploading
    &&& f.cache_path is Some
    &&& exists
}

/// Where nothing fails and nobody releases the file, its content comes: the
/// generation is asked for, the record looked at, the beginning recorded, the
/// temporary file made, the cloud's content downloaded, the generation asked for
/// again and the content taken over. `h` are the states on the way.
pub proof fn lemma_content_comes(
    h: Seq<Hydration>,
    o: Seq<HydrationOrder>,
    seen: Option<FileRecord>,
    exists: bool,
    id: String,
    waited: u64,
)
    requires
        waited < 100,
        h.len() == 9,
        o.len() == 8,
        h[0].phase == Phase::Checking,
        h[0].follows(HydrationEvent::Generation(h[0].generation), (h[1], o[0])),
        h[1].follows(HydrationEvent::Refreshed(seen, exists), (h[2], o[1])),
        ({
            let f = if seen is Some {
                seen->0
            } else {
                h[0].record
            };
            !in_cache(f, exists) && f.cloud_remote_id == Some(id)
        }),
        h[2].follows(HydrationEvent::Began(true), (h[3], o[2])),
        h[3].follows(HydrationEvent::Prepared, (h[4], o[3])),
        h[4].follows(HydrationEvent::Chunk(waited), (h[5], o[4])),
        h[5].follows(HydrationEvent::Downloaded(true), (h[6], o[5])),
        h[6].follows(HydrationEvent::Generation(h[0].generation), (h[7], o[6])),
        h[7].follows(HydrationEvent::Committed(true), (h[8], o[7])),
    ensures
        ({
            let f = if seen is Some {
                seen->0
            } else {
                h[0].record
            };
            &&& o[0] == HydrationOrder::Refresh
            &&& o[1] == HydrationOrder::Begin
            &&& o[2] matches HydrationOrder::Prepare(name) && name@ == cache_name(
                f.metadata.remote_id@,
            )
            &&& o[3] == HydrationOrder::Download(id, f.metadata.size)
            &&& o[4] == HydrationOrder::Continue
            &&& o[5] == HydrationOrder::AskGeneration
            &&& o[6] == HydrationOrder::Commit
            &&& o[7] == HydrationOrder::Hydrated
        }),
{
}

/// Content that the cache holds is marked as used and handed out from where it
/// is; nothing is downloaded for it.
pub proof fn lemma_present_content_is_handed_out(
    a: Hydration,
    seen: Option<FileRecord>,
    exists: bool,
    b: Hydration,
    c: Hydration,
    o: HydrationOrder,
    p: HydrationOrder,
)
    requires
        a.phase == Phase::Refreshing,
        in_cache(
            if seen is Some {
                seen->0
            } else {
                a.record
            },
            exists,
        ),
        a.follows(HydrationEvent::Refreshed(seen, exists), (b, o)),
        b.follows(HydrationEvent::Touched, (c, p)),
    ensures
        o == HydrationOrder::Touch,
        p == HydrationOrder::Present(
            if seen is Some {
                seen->0.cache_path->0
            } else {
                a.record.cache_path->0
            },
        ),
{
}

/// A release is noticed before the work begins, when its beginning is recorded,
/// within a tenth of a second of a download, and at its end; and what came in is
/// removed then.
pub proof fn lemma_release_is_noticed(
    a: Hydration,
    event: HydrationEvent,
    b: Hydration,
    o: HydrationOrder,
    cleaned: (Hydration, HydrationOrder),
)
    requires
        a.follows(event, (b, o)),
        b.phase is Cleaning ==> b.follows(HydrationEvent::Cleaned, cleaned),
    ensures
        a.phase is Checking && (event matches HydrationEvent::Generation(g) && g != a.generation)
            ==> o == HydrationOrder::Fail(HydrationError::Canceled),
        a.phase is Opening && event == HydrationEvent::Began(false) ==> o == HydrationOrder::Fail(
            HydrationError::Canceled,
        ),
        a.phase is Downloading && (event matches HydrationEvent::Chunk(waited) && waited >= 100)
            ==> o == HydrationOrder::AskGeneration && b.phase is Glancing,
        a.phase is Downloading && (event matches HydrationEvent::Chunk(waited) && waited < 100)
            ==> o == HydrationOrder::Continue && b.phase is Downloading,
        a.phase is Glancing && (event matches HydrationEvent::Generation(g) && g != a.generation)
            ==> o == HydrationOrder::Stop && b.phase is Downloading,
        a.phase is Glancing && event == HydrationEvent::Generation(a.generation) ==> o
            == HydrationOrder::Continue && b.phase is Downloading,
        a.phase is Rechecking && (event matches HydrationEvent::Generation(g) && g
            != a.generation) ==> o == HydrationOrder::Clean && cleaned.1 == HydrationOrder::Fail(
            HydrationError::Canceled,
        ),
        a.phase is Committing && event == HydrationEvent::Committed(false) ==> o
            == HydrationOrder::Clean && cleaned.1 == HydrationOrder::Fail(
            HydrationError::Canceled,
        ),
        a.phase == (Phase::Rechecking { complete: false }) && event == HydrationEvent::Generation(
            a.generation,
        ) ==> o == HydrationOrder::Clean && cleaned.1 == HydrationOrder::Fail(
            HydrationError::Outside,
        ),
        a.phase is Downloading && event == HydrationEvent::Downloaded(false) ==> b.phase == (
        Phase::Rechecking { complete: false }) && o == HydrationOrder::AskGeneration,
{
}

/// A failure outside ends the work as failed, after what came in was removed, and
/// stops a download that runs.
pub proof fn lemma_failure_outside_ends_hydration(
    a: Hydration,
    b: Hydration,
    o: HydrationOrder,
    cleaned: (Hydration, HydrationOrder),
)
    requires
        a.follows(HydrationEvent::Failed, (b, o)),
        b.phase is Cleaning ==> b.follows(HydrationEvent::Cleaned, cleaned),
    ensures
        match a.phase {
            Phase::Downloading => o == HydrationOrder::AskGeneration && b.phase == (
            Phase::Rechecking { complete: false }),
            Phase::Glancing => o == HydrationOrder::Stop && b.phase is Downloading,
            Phase::Rechecking { .. } | Phase::Committing => o == HydrationOrder::Clean && cleaned.1
                == HydrationOrder::Fail(HydrationError::Outside),
            Phase::Cleaning { error } => o == HydrationOrder::Fail(error),
            Phase::Ended => o == HydrationOrder::Nothing,
            _ => o == HydrationOrder::Fail(HydrationError::Outside) && b.phase is Ended,
        },
{
}

/// The pinned files that lack their content, those that wait to be brought to the
/// cloud, and the pinned files below a directory are those of the list with that
/// property, each as often and in the order as it stands there.
pub proof fn lemma_selected_records(seen: Seq<Seen>, below: Seq<FileRecord>)
    ensures
        pins_lacking(seen) == seen.filter(|s: Seen| pinned_without_content(s)).map_values(
            |s: Seen| s.record,
        ),
        recoverable(seen) == seen.filter(
            |s: Seen| unsaved(s.record.state) && s.record.cache_path is Some && s.exists,
        ).map_values(|s: Seen| s.record),
        pinned_files(below) == below.filter(
            |f: FileRecord| !f.metadata.is_dir && f.effective_pinned,
        ),
    decreases seen.len() + below.len(),
{
    reveal(Seq::filter);
    let p = |s: Seen| pinned_without_content(s);
    let q = |s: Seen| unsaved(s.record.state) && s.record.cache_path is Some && s.exists;
    let r = |f: FileRecord| !f.metadata.is_dir && f.effective_pinned;
    let record = |s: Seen| s.record;
    if seen.len() > 0 {
        lemma_selected_records(seen.drop_last(), below);
        let (a, b) = (seen.drop_last().filter(p), seen.drop_last().filter(q));
        assert(a.push(seen.last()).map_values(record) =~= a.map_values(record).push(
            seen.last().record,
        ));
        assert(b.push(seen.last()).map_values(record) =~= b.map_values(record).push(
            seen.last().record,
        ));
    } else {
        assert(pins_lacking(seen) =~= seen.filter(p).map_values(record));
        assert(recoverable(seen) =~= seen.filter(q).map_values(record));
        if below.len() > 0 {
            lemma_selected_records(seen, below.drop_last());
        }
    }
}

} // verus!
