//! The queue of items to be brought to the cloud. An item waits in it at most
//! once, and what is asked for while the item is being worked on is done once
//! more afterwards.

use super::hydration::Seen;
use super::record::{
    awaits_upload, is_awaiting_upload, is_lacking_pinned_content, lacks_pinned_content, FileRecord,
};
use crate::text::joined;
use std::collections::VecDeque;
use vstd::hash_map::StringHashMap;
use vstd::prelude::*;

verus! {

/// What is to be brought to the cloud.
#[derive(Debug)]
pub enum UploadCommand {
    Upload(String),
    Delete(String),
    Shutdown,
}

impl Clone for UploadCommand {
    fn clone(&self) -> (r: Self)
        ensures
            r == *self,
    {
        match self {
            UploadCommand::Upload(id) => UploadCommand::Upload(id.clone()),
            UploadCommand::Delete(id) => UploadCommand::Delete(id.clone()),
            UploadCommand::Shutdown => UploadCommand::Shutdown,
        }
    }
}

/// The name under which a command is known, unless it is to stop.
pub open spec fn key_of(command: UploadCommand) -> Option<Seq<char>> {
    match command {
        UploadCommand::Upload(id) => Some("upload:"@ + id@),
        UploadCommand::Delete(id) => Some("delete:"@ + id@),
        UploadCommand::Shutdown => None,
    }
}

fn command_key(command: &UploadCommand) -> (r: Option<String>)
    ensures
        crate::text::option_text(r) == key_of(*command),
{
    match command {
        UploadCommand::Upload(id) => Some(joined("upload:", id.as_str())),
        UploadCommand::Delete(id) => Some(joined("delete:", id.as_str())),
        UploadCommand::Shutdown => None,
    }
}

/// The queue: what waits, and under which names something waits or is being
/// worked on, with whether it is to be done again.
pub struct UploadQueue {
    waiting: VecDeque<UploadCommand>,
    pending: StringHashMap<bool>,
    closed: bool,
}

/// The model of the queue.
pub struct QueueView {
    pub waiting: Seq<UploadCommand>,
    pub pending: Map<Seq<char>, bool>,
    pub closed: bool,
}

impl View for UploadQueue {
    type V = QueueView;

    closed spec fn view(&self) -> QueueView {
        QueueView { waiting: self.waiting@, pending: self.pending@, closed: self.closed }
    }
}

/// The state after a command was sent.
pub open spec fn sent(q: QueueView, command: UploadCommand) -> QueueView {
    match key_of(command) {
        Some(k) => if q.pending.contains_key(k) {
            QueueView { pending: q.pending.insert(k, true), ..q }
        } else if q.closed {
            q
        } else {
            QueueView {
                waiting: q.waiting.push(command),
                pending: q.pending.insert(k, false),
                ..q
            }
        },
        None => if q.closed {
            q
        } else {
            QueueView { waiting: q.waiting.push(command), ..q }
        },
    }
}

/// A command is taken: what waits under its name, or is being worked on.
pub open spec fn accepted(q: QueueView, command: UploadCommand) -> bool {
    !q.closed || (key_of(command) matches Some(k) && q.pending.contains_key(k))
}

/// The state after work on a command has begun.
pub open spec fn started(q: QueueView, command: UploadCommand) -> QueueView {
    match key_of(command) {
        Some(k) => QueueView { pending: q.pending.insert(k, false), ..q },
        None => q,
    }
}

/// The state after work on a command has ended.
pub open spec fn ended(q: QueueView, command: UploadCommand) -> QueueView {
    match key_of(command) {
        Some(k) => {
            let rest = QueueView { pending: q.pending.remove(k), ..q };
            if q.pending.contains_key(k) && q.pending[k] {
                sent(rest, command)
            } else {
                rest
            }
        },
        None => q,
    }
}

impl UploadQueue {
    /// An empty queue.
    pub fn new() -> (r: Self)
        ensures
            r@ == (QueueView { waiting: Seq::empty(), pending: Map::empty(), closed: false }),
    {
        UploadQueue { waiting: VecDeque::new(), pending: StringHashMap::new(), closed: false }
    }

    /// Closes the queue: nothing more is put into it.
    pub fn close(&mut self)
        ensures
            final(self)@ == (QueueView { closed: true, ..old(self)@ }),
    {
        self.closed = true;
    }

    /// Puts a command into the queue. Where its item waits or is being worked
    /// on already, it is only noted to be done again. The result says whether
    /// the command was taken.
    pub fn send(&mut self, command: UploadCommand) -> (r: bool)
        ensures
            final(self)@ == sent(old(self)@, command),
            r == accepted(old(self)@, command),
    {
        match command_key(&command) {
            Some(key) => {
                if self.pending.contains_key(key.as_str()) {
                    self.pending.insert(key, true);
                    return true;
                }
                if self.closed {
                    return false;
                }
                self.pending.insert(key, false);
                self.waiting.push_back(command);
                true
            },
            None => {
                if self.closed {
                    return false;
                }
                self.waiting.push_back(command);
                true
            },
        }
    }

    /// Takes the next command out of the queue.
    pub fn receive(&mut self) -> (r: Option<UploadCommand>)
        ensures
            r is Some <==> old(self)@.waiting.len() > 0,
            r is None ==> final(self)@ == old(self)@,
            r matches Some(c) ==> c == old(self)@.waiting[0] && final(self)@ == (QueueView {
                waiting: old(self)@.waiting.drop_first(),
                ..old(self)@
            }),
    {
        let r = self.waiting.pop_front();
        proof {
            if old(self)@.waiting.len() > 0 {
                assert(self@.waiting =~= old(self)@.waiting.drop_first());
            }
        }
        r
    }

    /// Work on a command begins.
    pub fn start(&mut self, command: &UploadCommand)
        ensures
            final(self)@ == started(old(self)@, *command),
    {
        match command_key(command) {
            Some(key) => self.pending.insert(key, false),
            None => {},
        }
    }

    /// Work on a command has ended: where it was asked for meanwhile, it waits
    /// again.
    pub fn finish(&mut self, command: UploadCommand)
        ensures
            final(self)@ == ended(old(self)@, command),
    {
        match command_key(&command) {
            Some(key) => {
                let again = match self.pending.get(key.as_str()) {
                    Some(b) => *b,
                    None => false,
                };
                self.pending.remove(key.as_str());
                if again {
                    let _ = self.send(command);
                }
            },
            None => {},
        }
    }
}

/// How many commands of a name wait.
pub open spec fn waiting_for(waiting: Seq<UploadCommand>, k: Seq<char>) -> nat
    decreases waiting.len(),
{
    if waiting.len() == 0 {
        0
    } else {
        waiting_for(waiting.drop_last(), k) + if key_of(waiting.last()) == Some(k) {
            1nat
        } else {
            0nat
        }
    }
}

/// Every item waits at most once, and what waits is known under its name.
pub open spec fn queue_sound(q: QueueView) -> bool {
    forall|k: Seq<char>|
        {
            &&& #[trigger] waiting_for(q.waiting, k) <= 1
            &&& waiting_for(q.waiting, k) == 1 ==> q.pending.contains_key(k)
        }
}

proof fn lemma_waiting_push(waiting: Seq<UploadCommand>, c: UploadCommand, k: Seq<char>)
    ensures
        waiting_for(waiting.push(c), k) == waiting_for(waiting, k) + if key_of(c) == Some(k) {
            1nat
        } else {
            0nat
        },
{
    assert(waiting.push(c).drop_last() =~= waiting);
}

proof fn lemma_waiting_drop_first(waiting: Seq<UploadCommand>, k: Seq<char>)
    requires
        waiting.len() > 0,
    ensures
        waiting_for(waiting, k) == waiting_for(waiting.drop_first(), k) + if key_of(waiting[0])
            == Some(k) {
            1nat
        } else {
            0nat
        },
    decreases waiting.len(),
{
    if waiting.len() > 1 {
        lemma_waiting_drop_first(waiting.drop_last(), k);
        assert(waiting.drop_last().drop_first() =~= waiting.drop_first().drop_last());
    } else {
        assert(waiting.drop_last() =~= Seq::empty());
        assert(waiting.drop_first() =~= Seq::empty());
    }
}

/// Sending keeps the queue sound: an item never waits twice.
pub proof fn lemma_send_keeps_sound(q: QueueView, c: UploadCommand)
    requires
        queue_sound(q),
    ensures
        queue_sound(sent(q, c)),
{
    assert forall|k: Seq<char>|
        {
            &&& #[trigger] waiting_for(sent(q, c).waiting, k) <= 1
            &&& waiting_for(sent(q, c).waiting, k) == 1 ==> sent(q, c).pending.contains_key(k)
        } by {
        lemma_waiting_push(q.waiting, c, k);
        assert(waiting_for(q.waiting, k) <= 1);
    }
}

/// Taking a command out and beginning to work on it keeps the queue sound, and
/// no other command of the same item waits then.
pub proof fn lemma_start_keeps_sound(q: QueueView)
    requires
        queue_sound(q),
        q.waiting.len() > 0,
    ensures
        queue_sound(
            started(QueueView { waiting: q.waiting.drop_first(), ..q }, q.waiting[0]),
        ),
        key_of(q.waiting[0]) matches Some(k) ==> waiting_for(q.waiting.drop_first(), k) == 0,
{
    let c = q.waiting[0];
    let rest = QueueView { waiting: q.waiting.drop_first(), ..q };
    assert forall|k: Seq<char>|
        {
            &&& #[trigger] waiting_for(started(rest, c).waiting, k) <= 1
            &&& waiting_for(started(rest, c).waiting, k) == 1
                ==> started(rest, c).pending.contains_key(k)
        } by {
        lemma_waiting_drop_first(q.waiting, k);
        assert(waiting_for(q.waiting, k) <= 1);
    }
    if let Some(k) = key_of(c) {
        lemma_waiting_drop_first(q.waiting, k);
        assert(waiting_for(q.waiting, k) <= 1);
    }
}

/// Ending the work on a command of which no other waits keeps the queue sound.
pub proof fn lemma_finish_keeps_sound(q: QueueView, c: UploadCommand)
    requires
        queue_sound(q),
        key_of(c) matches Some(k) ==> waiting_for(q.waiting, k) == 0,
    ensures
        queue_sound(ended(q, c)),
{
    if let Some(key) = key_of(c) {
        let rest = QueueView { pending: q.pending.remove(key), ..q };
        assert forall|k: Seq<char>|
            {
                &&& #[trigger] waiting_for(rest.waiting, k) <= 1
                &&& waiting_for(rest.waiting, k) == 1 ==> rest.pending.contains_key(k)
            } by {
            assert(waiting_for(q.waiting, k) <= 1);
        }
        if q.pending.contains_key(key) && q.pending[key] {
            lemma_send_keeps_sound(rest, c);
        }
    }
}

/// Nothing is lost: what is asked for while its item is being worked on waits
/// again, once, when that work has ended.
pub proof fn lemma_request_during_work_is_done_again(
    q: QueueView,
    c: UploadCommand,
    again: UploadCommand,
)
    requires
        queue_sound(q),
        !q.closed,
        key_of(c) is Some,
        key_of(again) == key_of(c),
        q.pending.contains_key(key_of(c)->0),
        waiting_for(q.waiting, key_of(c)->0) == 0,
    ensures
        waiting_for(ended(sent(q, again), c).waiting, key_of(c)->0) == 1,
        ended(sent(q, again), c).waiting == q.waiting.push(c),
{
    lemma_waiting_push(q.waiting, c, key_of(c)->0);
}

/// What a worker is about.
pub enum WorkerPhase {
    /// The change of an item's name or place, if one waits, is being looked up.
    Operation(String),
    /// That change is being made.
    Changing(String),
    /// The item is being looked up.
    LookUp(String),
    /// Its content is being brought because it is pinned.
    Hydrating(String),
    /// The item is being looked up again.
    LookUpAgain(String),
    /// Its content is being brought to the cloud.
    Uploading,
    /// A deletion is being brought to the cloud.
    Deleting,
    Ended,
}

/// What happened to a worker.
pub enum WorkerEvent {
    /// Whether a change of name or place waits.
    Operation(bool),
    /// Whether it was made without failing.
    Changed(bool),
    /// What is known of the item.
    Record(Option<Seen>),
    /// The content came or did not.
    Hydrated,
    /// What is known of the item now.
    RecordAgain(Option<FileRecord>),
    /// The work is done.
    Done,
}

/// What a worker is to do.
pub enum WorkerOrder {
    Delete(String),
    AskOperation(String),
    Change(String),
    Find(String),
    Hydrate(FileRecord),
    FindAgain(String),
    Upload(FileRecord),
    /// This command is done with; the next one.
    Next,
    Stop,
    /// Nothing: what happened does not belong here.
    Nothing,
}

/// The first step of a worker for a command.
pub open spec fn worker_begins(command: UploadCommand) -> (WorkerPhase, WorkerOrder) {
    match command {
        UploadCommand::Upload(id) => (WorkerPhase::Operation(id), WorkerOrder::AskOperation(id)),
        UploadCommand::Delete(id) => (WorkerPhase::Deleting, WorkerOrder::Delete(id)),
        UploadCommand::Shutdown => (WorkerPhase::Ended, WorkerOrder::Stop),
    }
}

/// The next step of a worker.
pub open spec fn worker_follows(phase: WorkerPhase, event: WorkerEvent) -> (
    WorkerPhase,
    WorkerOrder,
) {
    match (phase, event) {
        (WorkerPhase::Operation(id), WorkerEvent::Operation(waits)) => if waits {
            (WorkerPhase::Changing(id), WorkerOrder::Change(id))
        } else {
            (WorkerPhase::LookUp(id), WorkerOrder::Find(id))
        },
        (WorkerPhase::Changing(id), WorkerEvent::Changed(well)) => if well {
            (WorkerPhase::LookUp(id), WorkerOrder::Find(id))
        } else {
            (WorkerPhase::Ended, WorkerOrder::Next)
        },
        (WorkerPhase::LookUp(id), WorkerEvent::Record(seen)) => match seen {
            Some(s) => if lacks_pinned_content(s.record, s.exists) {
                (WorkerPhase::Hydrating(id), WorkerOrder::Hydrate(s.record))
            } else {
                (WorkerPhase::LookUpAgain(id), WorkerOrder::FindAgain(id))
            },
            None => (WorkerPhase::LookUpAgain(id), WorkerOrder::FindAgain(id)),
        },
        (WorkerPhase::Hydrating(id), WorkerEvent::Hydrated) => (
            WorkerPhase::LookUpAgain(id),
            WorkerOrder::FindAgain(id),
        ),
        (WorkerPhase::LookUpAgain(id), WorkerEvent::RecordAgain(record)) => match record {
            Some(f) => if awaits_upload(f.state) {
                (WorkerPhase::Uploading, WorkerOrder::Upload(f))
            } else {
                (WorkerPhase::Ended, WorkerOrder::Next)
            },
            None => (WorkerPhase::Ended, WorkerOrder::Next),
        },
        (WorkerPhase::Uploading, WorkerEvent::Done) => (WorkerPhase::Ended, WorkerOrder::Next),
        (WorkerPhase::Deleting, WorkerEvent::Done) => (WorkerPhase::Ended, WorkerOrder::Next),
        (p, _) => (p, WorkerOrder::Nothing),
    }
}

/// The first step of a worker for a command.
pub fn begin_upload_worker(command: &UploadCommand) -> (r: (WorkerPhase, WorkerOrder))
    ensures
        r == worker_begins(*command),
{
    match command {
        UploadCommand::Upload(id) => (
            WorkerPhase::Operation(id.clone()),
            WorkerOrder::AskOperation(id.clone()),
        ),
        UploadCommand::Delete(id) => (WorkerPhase::Deleting, WorkerOrder::Delete(id.clone())),
        UploadCommand::Shutdown => (WorkerPhase::Ended, WorkerOrder::Stop),
    }
}

/// The next step of a worker: a waiting change of name or place first, then
/// pinned content that is lacking, then content that the cloud lacks, of the
/// item as it is then.
pub fn run_upload_worker(phase: WorkerPhase, event: WorkerEvent) -> (r: (WorkerPhase, WorkerOrder))
    ensures
        r == worker_follows(phase, event),
{
    match (phase, event) {
        (WorkerPhase::Operation(id), WorkerEvent::Operation(waits)) => {
            let same = id.clone();
            if waits {
                (WorkerPhase::Changing(id), WorkerOrder::Change(same))
            } else {
                (WorkerPhase::LookUp(id), WorkerOrder::Find(same))
            }
        },
        (WorkerPhase::Changing(id), WorkerEvent::Changed(well)) => {
            let same = id.clone();
            if well {
                (WorkerPhase::LookUp(id), WorkerOrder::Find(same))
            } else {
                (WorkerPhase::Ended, WorkerOrder::Next)
            }
        },
        (WorkerPhase::LookUp(id), WorkerEvent::Record(seen)) => {
            let same = id.clone();
            match seen {
                Some(s) => if is_lacking_pinned_content(&s.record, s.exists) {
                    (WorkerPhase::Hydrating(id), WorkerOrder::Hydrate(s.record))
                } else {
                    (WorkerPhase::LookUpAgain(id), WorkerOrder::FindAgain(same))
                },
                None => (WorkerPhase::LookUpAgain(id), WorkerOrder::FindAgain(same)),
            }
        },
        (WorkerPhase::Hydrating(id), WorkerEvent::Hydrated) => {
            let same = id.clone();
            (WorkerPhase::LookUpAgain(id), WorkerOrder::FindAgain(same))
        },
        (WorkerPhase::LookUpAgain(id), WorkerEvent::RecordAgain(record)) => match record {
            Some(f) => if is_awaiting_upload(&f) {
                (WorkerPhase::Uploading, WorkerOrder::Upload(f))
            } else {
                (WorkerPhase::Ended, WorkerOrder::Next)
            },
            None => (WorkerPhase::Ended, WorkerOrder::Next),
        },
        (WorkerPhase::Uploading, WorkerEvent::Done) => (WorkerPhase::Ended, WorkerOrder::Next),
        (WorkerPhase::Deleting, WorkerEvent::Done) => (WorkerPhase::Ended, WorkerOrder::Next),
        (p, _) => (p, WorkerOrder::Nothing),
    }
}

} // verus!
