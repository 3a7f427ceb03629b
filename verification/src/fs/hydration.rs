//! Bringing the content of a file into the cache. A release of the file starts
//! another generation of it, and what was begun for an earlier one is
//! cancelled.

use super::record::{
    cache_name, cached, has_existing_cache, is_lacking_pinned_content, lacks_pinned_content,
    sanitize_cache_name, FileRecord,
};
use super::sweep::{done_count, lemma_sweep_takes_all, swept, Ended, SweepOrder};
use vstd::prelude::*;

verus! {

/// Why the content was not brought.
#[derive(Clone, Copy, PartialEq, Eq, Structural, Debug)]
pub enum HydrationError {
    /// A directory has no content.
    Directory,
    /// The file was released in the meantime.
    Canceled,
    /// The cloud has no content of the file.
    LocalOnly,
    /// Something outside failed.
    Outside,
}

/// What is being done.
#[derive(Clone, Copy, PartialEq, Eq, Structural, Debug)]
pub enum Phase {
    /// The generation is being asked for.
    Checking,
    /// What is known of the file is being looked up again.
    Refreshing,
    /// Content that is there already is being marked as used.
    Touching,
    /// The beginning is being recorded.
    Opening,
    /// The temporary file is being made.
    Preparing,
    /// The content comes in.
    Downloading,
    /// The generation is being asked for while the content comes in.
    Glancing,
    /// The generation is being asked for after the content came in, or failed
    /// to.
    Rechecking { complete: bool },
    /// The temporary file is being made the content.
    Committing,
    /// The temporary file is being removed and the failure recorded.
    Cleaning { error: HydrationError },
    Ended,
}

/// What happened.
pub enum HydrationEvent {
    Generation(i64),
    /// What is known of the file now, and whether its cache file exists.
    Refreshed(Option<FileRecord>, bool),
    Touched,
    Began(bool),
    Prepared,
    /// Some content came in, so many milliseconds after the generation was
    /// last asked for.
    Chunk(u64),
    /// The download has ended, well or badly.
    Downloaded(bool),
    /// Whether the content was taken over.
    Committed(bool),
    Cleaned,
    /// Something outside failed.
    Failed,
}

/// What is to be done.
pub enum HydrationOrder {
    AskGeneration,
    Refresh,
    Touch,
    Begin,
    /// Make the temporary file for the cache file of a name.
    Prepare(String),
    /// Download the content of the cloud's item, of so many bytes.
    Download(String, u64),
    /// Go on with the download.
    Continue,
    /// Stop the download.
    Stop,
    Commit,
    Clean,
    /// The content was there already, at a path.
    Present(String),
    /// The content is there now.
    Hydrated,
    Fail(HydrationError),
    /// Nothing: what happened does not belong here.
    Nothing,
}

/// The work of bringing one generation of a file's content.
pub struct Hydration {
    pub record: FileRecord,
    pub generation: i64,
    pub phase: Phase,
}

/// What follows a failure: before anything came in, nothing is left to clean.
pub open spec fn failing(phase: Phase) -> (Phase, HydrationOrder) {
    match phase {
        Phase::Rechecking { complete } => (
            Phase::Cleaning { error: HydrationError::Outside },
            HydrationOrder::Clean,
        ),
        Phase::Committing => (
            Phase::Cleaning { error: HydrationError::Outside },
            HydrationOrder::Clean,
        ),
        Phase::Cleaning { error } => (Phase::Ended, HydrationOrder::Fail(error)),
        Phase::Downloading => (
            Phase::Rechecking { complete: false },
            HydrationOrder::AskGeneration,
        ),
        Phase::Glancing => (Phase::Downloading, HydrationOrder::Stop),
        Phase::Ended => (Phase::Ended, HydrationOrder::Nothing),
        _ => (Phase::Ended, HydrationOrder::Fail(HydrationError::Outside)),
    }
}

impl Hydration {
    /// The record that counts after another look.
    pub open spec fn refreshed(self, seen: Option<FileRecord>) -> FileRecord {
        match seen {
            Some(r) => r,
            None => self.record,
        }
    }

    /// The next phase and order, apart from the name of the cache file.
    pub open spec fn follows(self, event: HydrationEvent, r: (Hydration, HydrationOrder)) -> bool {
        let (next, order) = r;
        &&& next.generation == self.generation
        &&& match (self.phase, event) {
            (p, HydrationEvent::Failed) => {
                &&& next.record == self.record
                &&& next.phase == failing(p).0
                &&& order == failing(p).1
            },
            (Phase::Checking, HydrationEvent::Generation(g)) => {
                &&& next.record == self.record
                &&& if g == self.generation {
                    next.phase == Phase::Refreshing && order == HydrationOrder::Refresh
                } else {
                    next.phase == Phase::Ended && order == HydrationOrder::Fail(
                        HydrationError::Canceled,
                    )
                }
            },
            (Phase::Refreshing, HydrationEvent::Refreshed(seen, exists)) => {
                &&& next.record == self.refreshed(seen)
                &&& if cached(next.record, exists) {
                    next.phase == Phase::Touching && order == HydrationOrder::Touch
                } else {
                    next.phase == Phase::Opening && order == HydrationOrder::Begin
                }
            },
            (Phase::Touching, HydrationEvent::Touched) => {
                &&& next.record == self.record
                &&& next.phase == Phase::Ended
                &&& match self.record.cache_path {
                    Some(p) => order == HydrationOrder::Present(p),
                    None => order == HydrationOrder::Fail(HydrationError::Outside),
                }
            },
            (Phase::Opening, HydrationEvent::Began(began)) => {
                &&& next.record == self.record
                &&& if began {
                    next.phase == Phase::Preparing && (order matches HydrationOrder::Prepare(name)
                        && name@ == cache_name(self.record.metadata.remote_id@))
                } else {
                    next.phase == Phase::Ended && order == HydrationOrder::Fail(
                        HydrationError::Canceled,
                    )
                }
            },
            (Phase::Preparing, HydrationEvent::Prepared) => {
                &&& next.record == self.record
                &&& match self.record.cloud_remote_id {
                    None => next.phase == Phase::Ended && order == HydrationOrder::Fail(
                        HydrationError::LocalOnly,
                    ),
                    Some(id) => next.phase == Phase::Downloading && order
                        == HydrationOrder::Download(id, self.record.metadata.size),
                }
            },
            (Phase::Downloading, HydrationEvent::Chunk(waited)) => {
                &&& next.record == self.record
                &&& if waited >= 100 {
                    next.phase == Phase::Glancing && order == HydrationOrder::AskGeneration
                } else {
                    next.phase == Phase::Downloading && order == HydrationOrder::Continue
                }
            },
            (Phase::Glancing, HydrationEvent::Generation(g)) => {
                &&& next.record == self.record
                &&& next.phase == Phase::Downloading
                &&& order == if g == self.generation {
                    HydrationOrder::Continue
                } else {
                    HydrationOrder::Stop
                }
            },
            (Phase::Downloading, HydrationEvent::Downloaded(complete)) => {
                &&& next.record == self.record
                &&& next.phase == (Phase::Rechecking { complete })
                &&& order == HydrationOrder::AskGeneration
            },
            (Phase::Rechecking { complete }, HydrationEvent::Generation(g)) => {
                &&& next.record == self.record
                &&& if g != self.generation {
                    next.phase == (Phase::Cleaning { error: HydrationError::Canceled }) && order
                        == HydrationOrder::Clean
                } else if !complete {
                    next.phase == (Phase::Cleaning { error: HydrationError::Outside }) && order
                        == HydrationOrder::Clean
                } else {
                    next.phase == Phase::Committing && order == HydrationOrder::Commit
                }
            },
            (Phase::Committing, HydrationEvent::Committed(done)) => {
                &&& next.record == self.record
                &&& if done {
                    next.phase == Phase::Ended && order == HydrationOrder::Hydrated
                } else {
                    next.phase == (Phase::Cleaning { error: HydrationError::Canceled }) && order
                        == HydrationOrder::Clean
                }
            },
            (Phase::Cleaning { error }, HydrationEvent::Cleaned) => {
                &&& next.record == self.record
                &&& next.phase == Phase::Ended
                &&& order == HydrationOrder::Fail(error)
            },
            (p, _) => next == self && order == HydrationOrder::Nothing,
        }
    }

    /// Begins to bring one generation of a file's content.
    pub fn hydrate_generation(record: FileRecord, generation: i64) -> (r: (
        Hydration,
        HydrationOrder,
    ))
        ensures
            r.0.record == record,
            r.0.generation == generation,
            record.metadata.is_dir ==> r.0.phase == Phase::Ended && r.1 == HydrationOrder::Fail(
                HydrationError::Directory,
            ),
            !record.metadata.is_dir ==> r.0.phase == Phase::Checking && r.1
                == HydrationOrder::AskGeneration,
    {
        if record.metadata.is_dir {
            (
                Hydration { record, generation, phase: Phase::Ended },
                HydrationOrder::Fail(HydrationError::Directory),
            )
        } else {
            (
                Hydration { record, generation, phase: Phase::Checking },
                HydrationOrder::AskGeneration,
            )
        }
    }

    fn in_phase(self, phase: Phase) -> (r: Hydration)
        ensures
            r == (Hydration { phase, ..self }),
    {
        Hydration { record: self.record, generation: self.generation, phase }
    }

    /// The next step.
    pub fn next(self, event: HydrationEvent) -> (r: (Hydration, HydrationOrder))
        ensures
            self.follows(event, r),
    {
        let generation: i64 = self.generation;
        match (self.phase, event) {
            (phase, HydrationEvent::Failed) => {
                let (phase, order) = fail(phase);
                (self.in_phase(phase), order)
            },
            (Phase::Checking, HydrationEvent::Generation(g)) => if g == generation {
                (self.in_phase(Phase::Refreshing), HydrationOrder::Refresh)
            } else {
                (
                    self.in_phase(Phase::Ended),
                    HydrationOrder::Fail(HydrationError::Canceled),
                )
            },
            (Phase::Refreshing, HydrationEvent::Refreshed(seen, exists)) => {
                let record = match seen {
                    Some(r) => r,
                    None => self.record,
                };
                if has_existing_cache(&record, exists) {
                    (
                        Hydration { record, generation, phase: Phase::Touching },
                        HydrationOrder::Touch,
                    )
                } else {
                    (
                        Hydration { record, generation, phase: Phase::Opening },
                        HydrationOrder::Begin,
                    )
                }
            },
            (Phase::Touching, HydrationEvent::Touched) => {
                let order = match &self.record.cache_path {
                    Some(p) => HydrationOrder::Present(p.clone()),
                    None => HydrationOrder::Fail(HydrationError::Outside),
                };
                (self.in_phase(Phase::Ended), order)
            },
            (Phase::Opening, HydrationEvent::Began(began)) => if began {
                let name = sanitize_cache_name(self.record.metadata.remote_id.as_str());
                (self.in_phase(Phase::Preparing), HydrationOrder::Prepare(name))
            } else {
                (
                    self.in_phase(Phase::Ended),
                    HydrationOrder::Fail(HydrationError::Canceled),
                )
            },
            (Phase::Preparing, HydrationEvent::Prepared) => {
                let (phase, order) = match &self.record.cloud_remote_id {
                    None => (Phase::Ended, HydrationOrder::Fail(HydrationError::LocalOnly)),
                    Some(id) => (
                        Phase::Downloading,
                        HydrationOrder::Download(id.clone(), self.record.metadata.size),
                    ),
                };
                (self.in_phase(phase), order)
            },
            (Phase::Downloading, HydrationEvent::Chunk(waited)) => if waited >= 100 {
                (self.in_phase(Phase::Glancing), HydrationOrder::AskGeneration)
            } else {
                (self, HydrationOrder::Continue)
            },
            (Phase::Glancing, HydrationEvent::Generation(g)) => {
                let order = if g == generation {
                    HydrationOrder::Continue
                } else {
                    HydrationOrder::Stop
                };
                (self.in_phase(Phase::Downloading), order)
            },
            (Phase::Downloading, HydrationEvent::Downloaded(complete)) => (
                self.in_phase(Phase::Rechecking { complete }),
                HydrationOrder::AskGeneration,
            ),
            (Phase::Rechecking { complete }, HydrationEvent::Generation(g)) => if g != generation {
                (
                    self.in_phase(Phase::Cleaning { error: HydrationError::Canceled }),
                    HydrationOrder::Clean,
                )
            } else if !complete {
                (
                    self.in_phase(Phase::Cleaning { error: HydrationError::Outside }),
                    HydrationOrder::Clean,
                )
            } else {
                (self.in_phase(Phase::Committing), HydrationOrder::Commit)
            },
            (Phase::Committing, HydrationEvent::Committed(done)) => if done {
                (self.in_phase(Phase::Ended), HydrationOrder::Hydrated)
            } else {
                (
                    self.in_phase(Phase::Cleaning { error: HydrationError::Canceled }),
                    HydrationOrder::Clean,
                )
            },
            (Phase::Cleaning { error }, HydrationEvent::Cleaned) => (
                self.in_phase(Phase::Ended),
                HydrationOrder::Fail(error),
            ),
            _ => (self, HydrationOrder::Nothing),
        }
    }
}

fn fail(phase: Phase) -> (r: (Phase, HydrationOrder))
    ensures
        r == failing(phase),
{
    match phase {
        Phase::Rechecking { .. } => (
            Phase::Cleaning { error: HydrationError::Outside },
            HydrationOrder::Clean,
        ),
        Phase::Committing => (
            Phase::Cleaning { error: HydrationError::Outside },
            HydrationOrder::Clean,
        ),
        Phase::Cleaning { error } => (Phase::Ended, HydrationOrder::Fail(error)),
        Phase::Downloading => (
            Phase::Rechecking { complete: false },
            HydrationOrder::AskGeneration,
        ),
        Phase::Glancing => (Phase::Downloading, HydrationOrder::Stop),
        Phase::Ended => (Phase::Ended, HydrationOrder::Nothing),
        _ => (Phase::Ended, HydrationOrder::Fail(HydrationError::Outside)),
    }
}

/// Steps of one work, each with what happened and what was ordered.
pub open spec fn is_run(
    states: Seq<Hydration>,
    events: Seq<HydrationEvent>,
    orders: Seq<HydrationOrder>,
) -> bool {
    &&& states.len() == events.len() + 1
    &&& orders.len() == events.len()
    &&& forall|i: int|
        0 <= i < events.len() ==> #[trigger] states[i].follows(
            events[i],
            (states[i + 1], orders[i]),
        )
}

/// The work is past the point at which the temporary file is there.
pub open spec fn has_partial(phase: Phase) -> bool {
    match phase {
        Phase::Downloading => true,
        Phase::Glancing => true,
        Phase::Rechecking { .. } => true,
        Phase::Committing => true,
        Phase::Cleaning { .. } => true,
        _ => false,
    }
}

/// The generation that is brought never changes.
pub proof fn lemma_generation_kept(
    states: Seq<Hydration>,
    events: Seq<HydrationEvent>,
    orders: Seq<HydrationOrder>,
    i: int,
)
    requires
        is_run(states, events, orders),
        0 <= i < states.len(),
    ensures
        states[i].generation == states[0].generation,
    decreases i,
{
    if i > 0 {
        lemma_generation_kept(states, events, orders, i - 1);
        assert(states[i - 1].follows(events[i - 1], (states[i - 1 + 1], orders[i - 1])));
    }
}

/// Content is taken over only after a whole download of the generation that
/// was still current when the download had ended: the three steps before are
/// the end of the download, the question for the generation with the right
/// answer, and the taking over.
pub proof fn lemma_only_current_content_is_taken(
    states: Seq<Hydration>,
    events: Seq<HydrationEvent>,
    orders: Seq<HydrationOrder>,
    i: int,
)
    requires
        is_run(states, events, orders),
        states[0].phase == Phase::Checking,
        0 <= i < events.len(),
        orders[i] == HydrationOrder::Hydrated,
    ensures
        events[i] == HydrationEvent::Committed(true),
        exists|j: int|
            {
                &&& 0 < j <= i
                &&& #[trigger] events[j] == HydrationEvent::Generation(states[0].generation)
                &&& states[j].phase == (Phase::Rechecking { complete: true })
            },
{
    assert(states[i].follows(events[i], (states[i + 1], orders[i])));
    assert(states[i].phase == Phase::Committing);
    lemma_committing_was_checked(states, events, orders, i);
}

proof fn lemma_committing_was_checked(
    states: Seq<Hydration>,
    events: Seq<HydrationEvent>,
    orders: Seq<HydrationOrder>,
    i: int,
)
    requires
        is_run(states, events, orders),
        states[0].phase == Phase::Checking,
        0 <= i < states.len(),
        states[i].phase == Phase::Committing,
    ensures
        exists|j: int|
            {
                &&& 0 < j < i
                &&& #[trigger] events[j] == HydrationEvent::Generation(states[0].generation)
                &&& states[j].phase == (Phase::Rechecking { complete: true })
            },
    decreases i,
{
    assert(i > 0);
    assert(states[i - 1].follows(events[i - 1], (states[i - 1 + 1], orders[i - 1])));
    lemma_generation_kept(states, events, orders, i - 1);
    if states[i - 1].phase == Phase::Committing {
        lemma_committing_was_checked(states, events, orders, i - 1);
    } else {
        assert(events[i - 1] == HydrationEvent::Generation(states[0].generation));
        assert(states[i - 1].phase == (Phase::Rechecking { complete: true }));
        assert(i - 1 > 0);
    }
}

/// What was begun does not stay half done: once there is a temporary file, the
/// work ends only by taking it over or, after it was ordered to be removed, by
/// failing.
pub proof fn lemma_partial_content_is_cleaned(
    a: Hydration,
    event: HydrationEvent,
    b: Hydration,
    order: HydrationOrder,
)
    requires
        a.follows(event, (b, order)),
        has_partial(a.phase),
        !has_partial(b.phase),
    ensures
        order == HydrationOrder::Hydrated || a.phase is Cleaning,
        !(a.phase is Cleaning) ==> a.phase == Phase::Committing,
{
}

/// A release during a download is noticed: whatever the download gave, the
/// work is cancelled when the generation is another one at its end.
pub proof fn lemma_release_cancels(
    a: Hydration,
    g: i64,
    b: Hydration,
    order: HydrationOrder,
)
    requires
        a.phase is Rechecking,
        g != a.generation,
        a.follows(HydrationEvent::Generation(g), (b, order)),
    ensures
        b.phase == (Phase::Cleaning { error: HydrationError::Canceled }),
        order == HydrationOrder::Clean,
{
}

/// A record, and whether its cache file exists.
pub struct Seen {
    pub record: FileRecord,
    pub exists: bool,
}

/// The pinned files whose content is not in the cache, in order.
pub open spec fn pins_lacking(seen: Seq<Seen>) -> Seq<FileRecord>
    decreases seen.len(),
{
    if seen.len() == 0 {
        Seq::empty()
    } else if lacks_pinned_content(seen.last().record, seen.last().exists) {
        pins_lacking(seen.drop_last()).push(seen.last().record)
    } else {
        pins_lacking(seen.drop_last())
    }
}

/// The pinned files whose content is not in the cache.
pub fn hydrate_pending_pins(seen: &Vec<Seen>) -> (r: Vec<FileRecord>)
    ensures
        r@ == pins_lacking(seen@),
{
    let mut r: Vec<FileRecord> = Vec::new();
    let mut i: usize = 0;
    while i < seen.len()
        invariant
            i <= seen@.len(),
            r@ == pins_lacking(seen@.take(i as int)),
        decreases seen@.len() - i,
    {
        proof {
            let upto = seen@.take(i + 1);
            assert(upto.drop_last() =~= seen@.take(i as int));
            assert(upto.last() == seen@[i as int]);
        }
        if is_lacking_pinned_content(&seen[i].record, seen[i].exists) {
            r.push(seen[i].record.clone());
        }
        i += 1;
    }
    assert(seen@.take(seen@.len() as int) =~= seen@);
    r
}

/// The pinned files among the items below a directory, in order.
pub open spec fn pinned_files(list: Seq<FileRecord>) -> Seq<FileRecord>
    decreases list.len(),
{
    if list.len() == 0 {
        Seq::empty()
    } else if !list.last().metadata.is_dir && list.last().effective_pinned {
        pinned_files(list.drop_last()).push(list.last())
    } else {
        pinned_files(list.drop_last())
    }
}

/// What became of a pinned file: its content was brought, or is left for another
/// time while the others go on.
pub open spec fn pin_end(brought: bool) -> Ended {
    if brought {
        Ended::Done
    } else {
        Ended::Left
    }
}

/// What became of a pinned file.
pub fn pin_ended(brought: bool) -> (r: Ended)
    ensures
        r == pin_end(brought),
{
    if brought {
        Ended::Done
    } else {
        Ended::Left
    }
}

/// All pinned files that lack their content are tried, in order, whatever became
/// of the others, and the result is the number of those whose content was
/// brought.
pub proof fn lemma_pins_are_all_tried(seen: Seq<Seen>, brought: Seq<bool>)
    requires
        pins_lacking(seen).len() <= usize::MAX,
        brought.len() <= pins_lacking(seen).len(),
    ensures
        swept(
            pins_lacking(seen).len() as usize,
            brought.map_values(|b: bool| pin_end(b)),
        ).1 == if brought.len() < pins_lacking(seen).len() {
            SweepOrder::Take(brought.len() as usize)
        } else {
            SweepOrder::Finish(brought.filter(|b: bool| b).len() as usize)
        },
{
    lemma_sweep_takes_all(
        pins_lacking(seen).len() as usize,
        brought.map_values(|b: bool| pin_end(b)),
    );
    lemma_brought(brought);
}

proof fn lemma_brought(brought: Seq<bool>)
    ensures
        done_count(brought.map_values(|b: bool| pin_end(b))) == brought.filter(|b: bool| b).len(),
    decreases brought.len(),
{
    reveal(Seq::filter);
    let ends = brought.map_values(|b: bool| pin_end(b));
    if brought.len() > 0 {
        lemma_brought(brought.drop_last());
        assert(ends.drop_last() =~= brought.drop_last().map_values(|b: bool| pin_end(b)));
    }
}

/// The files whose content is to be brought after an item was pinned: the
/// file itself, or the pinned files below the directory.
pub fn pin_path(record: &FileRecord, below: &Vec<FileRecord>) -> (r: Vec<FileRecord>)
    ensures
        r@ == if record.metadata.is_dir {
            pinned_files(below@)
        } else {
            seq![*record]
        },
{
    let mut r: Vec<FileRecord> = Vec::new();
    if !record.metadata.is_dir {
        r.push(record.clone());
        assert(r@ =~= seq![*record]);
        return r;
    }
    let mut i: usize = 0;
    while i < below.len()
        invariant
            i <= below@.len(),
            r@ == pinned_files(below@.take(i as int)),
        decreases below@.len() - i,
    {
        proof {
            let upto = below@.take(i + 1);
            assert(upto.drop_last() =~= below@.take(i as int));
            assert(upto.last() == below@[i as int]);
        }
        if !below[i].metadata.is_dir && below[i].effective_pinned {
            r.push(below[i].clone());
        }
        i += 1;
    }
    assert(below@.take(below@.len() as int) =~= below@);
    r
}

/// How many items are no longer pinned after an item was unpinned.
pub fn unpin_path(record: &FileRecord, below: usize) -> (r: usize)
    ensures
        r == if record.metadata.is_dir {
            below
        } else {
            1
        },
{
    if record.metadata.is_dir {
        below
    } else {
        1
    }
}

} // verus!
