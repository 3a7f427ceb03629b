//! One round of the peer: it announces the device, challenges the peers, takes
//! its mail, sends what waits and reports.

use super::crypto::{Envelope, Signed};
use super::identity::Presence;
use super::local::read;
use super::protocol::{opening, peers_listed, received, Message};
use super::runtime::{
    announced, begun, challenged, counts, discover, greets, mail_refusal, noticed_through,
    presences, rejected, reported, sends, set_of, takes_mail, Announced, Counters, Greeting,
    Outgoing, PeerStatus, Queued, Worker, WorkerView,
};
use super::PeerError;
use crate::ordered::StringSet;
use vstd::prelude::*;

verus! {

/// An object of the mailbox.
pub struct Mail {
    pub name: String,
    pub size: u64,
}

/// How far a round has come.
pub enum Phase {
    /// The trusted devices are asked for.
    Trusting,
    /// The presence is being published.
    Publishing,
    /// The announced devices are asked for.
    Discovering,
    /// The peer at a position is the next to be challenged.
    Greeting { peers: Vec<String>, at: usize },
    /// The peer at a position is being challenged.
    Challenging { peers: Vec<String>, at: usize },
    /// The mailbox is being listed.
    Listing,
    /// The object at a position is the next to be received.
    Opening { mail: Vec<Mail>, at: usize },
    /// The object is being read.
    Fetching { mail: Vec<Mail>, at: usize },
    /// The text of its envelope is being read.
    Parsing { mail: Vec<Mail>, at: usize, env: Envelope },
    /// The answer to its message is being sent.
    Answering { mail: Vec<Mail>, at: usize, from: String, message: Message },
    /// Its message is being shown; it may name a release to be tried.
    Telling { mail: Vec<Mail>, at: usize, tag: Option<String> },
    /// The release is being staged.
    Updating { mail: Vec<Mail>, at: usize },
    /// The object is being deleted; a release may have been staged.
    Deleting { mail: Vec<Mail>, at: usize, staged: bool },
    /// A message that waits is asked for, after some others.
    Sending { taken: usize },
    /// The message is being sent.
    Posting { taken: usize },
    /// The message is being removed.
    Removing { taken: usize },
    /// The trusted devices are asked for again, to be reported.
    Asking,
    /// The report is being written.
    Reporting,
    /// The end.
    Ended,
}

/// A round that began at some time, and the devices that it found.
pub struct Round {
    pub now: i64,
    pub found: Vec<Presence>,
    pub phase: Phase,
}

/// What happened.
pub enum TickEvent {
    /// The trusted devices are known.
    Trusted(StringSet),
    /// What was ordered is done.
    Done,
    /// The objects among the announced devices.
    Announced(Vec<Announced>),
    /// The objects of the mailbox.
    Listed(Vec<Mail>),
    /// What was read in an object, if it is an envelope.
    Fetched(Option<Envelope>),
    /// What a text was read as, if it is a signed message.
    Parsed(Option<Signed>),
    /// The release was staged, or not.
    Staged(bool),
    /// A message waits.
    Waiting(Queued),
    /// What was found in its place is no message.
    NoMessage,
    /// No more messages wait.
    NoMore,
    /// The trusted devices, if they are known.
    Known(Option<StringSet>),
    /// What was ordered failed.
    Failed,
}

/// What is to be done.
pub enum TickOrder {
    /// Nothing; the round goes on.
    GoOn,
    AskTrusted,
    Publish(Presence),
    Discover,
    /// Put an envelope into its recipient's mailbox.
    Put(Envelope),
    /// List the mailbox of this name.
    List(String),
    /// Read the object of this name.
    Fetch(String),
    /// Read a text as a signed message.
    Parse(Vec<u8>),
    /// Show a message and who sent it.
    Tell(String, Message),
    /// Try the release of this tag.
    Update(String),
    /// Delete the object of this name.
    Delete(String),
    /// Take the next message that waits.
    Take,
    /// Remove the message that was taken.
    Remove,
    Report(Vec<PeerStatus>),
    /// The round has ended; a release may have been staged.
    Finish(bool),
    /// The round has ended with an error.
    Fail(PeerError),
    /// The round has ended because something failed.
    GiveUp,
}

impl Round {
    /// A position is one of the list that it belongs to, and at most two
    /// hundred and fifty-six messages are taken.
    pub open spec fn sound(self) -> bool {
        match self.phase {
            Phase::Greeting { peers, at } => at <= peers@.len(),
            Phase::Challenging { peers, at } => at < peers@.len(),
            Phase::Opening { mail, at } => at <= mail@.len(),
            Phase::Sending { taken } => taken < 256,
            Phase::Posting { taken } => taken < 256,
            Phase::Removing { taken } => taken < 256,
            phase => in_hand(phase) matches Some((mail, at)) ==> at < mail.len(),
        }
    }

    /// The same round in another phase.
    pub open spec fn turned(self, phase: Phase) -> Round {
        Round { phase, ..self }
    }
}

/// The object that is in hand: the mail and the position in it.
pub open spec fn in_hand(phase: Phase) -> Option<(Seq<Mail>, int)> {
    match phase {
        Phase::Fetching { mail, at } => Some((mail@, at as int)),
        Phase::Parsing { mail, at, .. } => Some((mail@, at as int)),
        Phase::Answering { mail, at, .. } => Some((mail@, at as int)),
        Phase::Telling { mail, at, .. } => Some((mail@, at as int)),
        Phase::Updating { mail, at } => Some((mail@, at as int)),
        Phase::Deleting { mail, at, .. } => Some((mail@, at as int)),
        _ => None,
    }
}

/// The counters can count on.
pub open spec fn can_count(c: Counters) -> bool {
    c.received < u64::MAX && c.pings < u64::MAX && c.pongs < u64::MAX && c.rejected < u64::MAX
}

/// The object at a position is to be deleted.
pub open spec fn deletes(
    round: Round,
    mail: Vec<Mail>,
    at: usize,
    staged: bool,
    r: (Round, TickOrder),
) -> bool {
    &&& r.0 == round.turned(Phase::Deleting { mail, at, staged })
    &&& r.1 == TickOrder::Delete(mail@[at as int].name)
}

/// A message was received and answered: it is counted and shown.
pub open spec fn tells(
    a: WorkerView,
    round: Round,
    mail: Vec<Mail>,
    at: usize,
    from: String,
    message: Message,
    b: WorkerView,
    r: (Round, TickOrder),
) -> bool {
    &&& r.0.phase matches Phase::Telling { tag, .. } && counts(a, message, round.now, b, tag)
        && r.0 == round.turned(Phase::Telling { mail, at, tag })
    &&& r.1 == TickOrder::Tell(from, message)
}

/// The state after an object of the mailbox was received.
pub open spec fn after_mail(
    a: WorkerView,
    mail: Mail,
    env: Envelope,
    parsed: Option<Signed>,
    now: int,
) -> WorkerView {
    if mail_refusal(a.engine, mail.name@, mail.size, Some(env)) is Some {
        a
    } else {
        WorkerView { engine: received(a.engine, env, parsed, now), ..a }
    }
}

/// The object at a position, whose text was read, is received: refused mail is
/// deleted, an answer is sent, and what needs no answer is counted and shown.
pub open spec fn receives(
    a: WorkerView,
    round: Round,
    mail: Vec<Mail>,
    at: usize,
    env: Envelope,
    parsed: Option<Signed>,
    b: WorkerView,
    r: (Round, TickOrder),
) -> bool {
    let now = round.now as int;
    let object = mail@[at as int];
    let mid = after_mail(a, object, env, parsed, now);
    exists|out: Result<(Message, Option<Envelope>), PeerError>|
        {
            &&& #[trigger] takes_mail(a, object.name@, object.size, Some(env), parsed, now, mid, out)
            &&& match out {
                Err(_) => b == rejected(mid) && deletes(round, mail, at, false, r),
                Ok((message, Some(reply))) => {
                    &&& b == mid
                    &&& r.0 == round.turned(
                        Phase::Answering { mail, at, from: env.header.from, message },
                    )
                    &&& r.1 == TickOrder::Put(reply)
                },
                Ok((message, None)) => tells(
                    mid,
                    round,
                    mail,
                    at,
                    env.header.from,
                    message,
                    b,
                    r,
                ),
            }
        }
}

/// The next message is taken, up to two hundred and fifty-six of them; then the
/// report is made.
pub open spec fn takes_next(round: Round, taken: usize) -> (Round, TickOrder) {
    if taken + 1 < 256 {
        (round.turned(Phase::Sending { taken: (taken + 1) as usize }), TickOrder::Take)
    } else {
        (round.turned(Phase::Asking), TickOrder::AskTrusted)
    }
}

/// What a worker does in a round upon an event.
pub open spec fn ticks(
    a: WorkerView,
    round: Round,
    event: TickEvent,
    b: WorkerView,
    r: (Round, TickOrder),
) -> bool {
    let now = round.now as int;
    match (round.phase, event) {
        (Phase::Trusting, TickEvent::Trusted(trusted)) => {
            &&& b == begun(a, trusted@)
            &&& if now - a.last_publish >= 30 {
                &&& r.0 == round.turned(Phase::Publishing)
                &&& r.1 matches TickOrder::Publish(p) && announced(a.engine, now, p)
            } else {
                r == (round.turned(Phase::Discovering), TickOrder::Discover)
            }
        },
        (Phase::Publishing, TickEvent::Done) => {
            &&& b == WorkerView { last_publish: round.now, ..a }
            &&& r == (round.turned(Phase::Discovering), TickOrder::Discover)
        },
        (Phase::Discovering, TickEvent::Announced(list)) => {
            &&& r.0.now == round.now
            &&& r.0.found@ == presences(list@, a.engine.limit as int, now)
            &&& b == WorkerView { engine: b.engine, ..a }
            &&& noticed_through(a.engine, r.0.found@, now, b.engine)
            &&& r.0.phase matches Phase::Greeting { peers, at } && at == 0 && peers_listed(
                b.engine,
                peers@,
            )
            &&& r.1 is GoOn
        },
        (Phase::Greeting { peers, at }, TickEvent::Done) => if at >= peers@.len() {
            &&& b == a
            &&& r.0 == round.turned(Phase::Listing)
            &&& r.1 matches TickOrder::List(bucket) && bucket@ == "in-"@
                + a.engine.identity.device()
        } else {
            let id = peers@[at as int]@;
            let passed = round.turned(Phase::Greeting { peers, at: (at + 1) as usize });
            exists|g: Greeting|
                {
                    &&& #[trigger] greets(a, id, now, g)
                    &&& match g {
                        Greeting::Skip => b == a && r == (passed, TickOrder::GoOn),
                        Greeting::Silent(_) => b == challenged(a, id, round.now) && r == (
                            passed,
                            TickOrder::GoOn,
                        ),
                        Greeting::Send(env) => b == a && r == (
                            round.turned(Phase::Challenging { peers, at }),
                            TickOrder::Put(env),
                        ),
                    }
                }
        },
        (Phase::Challenging { peers, at }, TickEvent::Done) => {
            &&& b == challenged(a, peers@[at as int]@, round.now)
            &&& r == (
                round.turned(Phase::Greeting { peers, at: (at + 1) as usize }),
                TickOrder::GoOn,
            )
        },
        (Phase::Listing, TickEvent::Listed(mail)) => {
            &&& b == a
            &&& r == (round.turned(Phase::Opening { mail, at: 0 }), TickOrder::GoOn)
        },
        (Phase::Opening { mail, at }, TickEvent::Done) => if at >= mail@.len() {
            b == a && r == (round.turned(Phase::Sending { taken: 0 }), TickOrder::Take)
        } else if mail@[at as int].size > a.engine.limit {
            b == rejected(a) && deletes(round, mail, at, false, r)
        } else {
            b == a && r == (
                round.turned(Phase::Fetching { mail, at }),
                TickOrder::Fetch(mail@[at as int].name),
            )
        },
        (Phase::Fetching { mail, at }, TickEvent::Fetched(None)) => {
            b == rejected(a) && deletes(round, mail, at, false, r)
        },
        (Phase::Fetching { mail, at }, TickEvent::Fetched(Some(env))) => match opening(
            a.engine,
            env,
            now,
        ) {
            Err(_) => b == rejected(a) && deletes(round, mail, at, false, r),
            Ok(text) => {
                &&& b == a
                &&& r.0 == round.turned(Phase::Parsing { mail, at, env })
                &&& r.1 matches TickOrder::Parse(t) && t@ == text
            },
        },
        (Phase::Parsing { mail, at, env }, TickEvent::Parsed(parsed)) => receives(
            a,
            round,
            mail,
            at,
            env,
            parsed,
            b,
            r,
        ),
        (Phase::Answering { mail, at, from, message }, TickEvent::Done) => tells(
            a,
            round,
            mail,
            at,
            from,
            message,
            b,
            r,
        ),
        (Phase::Telling { mail, at, tag }, TickEvent::Done) => b == a && match tag {
            Some(tag) => r == (round.turned(Phase::Updating { mail, at }), TickOrder::Update(tag)),
            None => deletes(round, mail, at, false, r),
        },
        (Phase::Updating { mail, at }, TickEvent::Staged(staged)) => {
            b == a && deletes(round, mail, at, staged, r)
        },
        (Phase::Deleting { mail, at, staged }, TickEvent::Done) => b == a && r == if staged {
            (round.turned(Phase::Ended), TickOrder::Finish(true))
        } else {
            (round.turned(Phase::Opening { mail, at: (at + 1) as usize }), TickOrder::GoOn)
        },
        (Phase::Sending { taken }, TickEvent::Waiting(q)) => exists|o: Outgoing|
            {
                &&& #[trigger] sends(a, q, now, b, o)
                &&& match o {
                    Outgoing::Expired => r == (
                        round.turned(Phase::Removing { taken }),
                        TickOrder::Remove,
                    ),
                    Outgoing::Wait => r == takes_next(round, taken),
                    Outgoing::Send(env) => r == (
                        round.turned(Phase::Posting { taken }),
                        TickOrder::Put(env),
                    ),
                    Outgoing::Failed(e) => r == (round.turned(Phase::Ended), TickOrder::Fail(e)),
                }
            },
        (Phase::Sending { taken }, TickEvent::NoMessage) => b == a && r == takes_next(round, taken),
        (Phase::Sending { .. }, TickEvent::NoMore) => {
            b == a && r == (round.turned(Phase::Asking), TickOrder::AskTrusted)
        },
        (Phase::Posting { taken }, TickEvent::Done) => {
            b == a && r == (round.turned(Phase::Removing { taken }), TickOrder::Remove)
        },
        (Phase::Removing { taken }, TickEvent::Done) => b == a && r == takes_next(round, taken),
        (Phase::Asking, TickEvent::Known(trusted)) => {
            &&& b == a
            &&& r.0 == round.turned(Phase::Reporting)
            &&& r.1 matches TickOrder::Report(list) && reported(
                a,
                round.found@,
                set_of(trusted),
                now,
                list@,
            )
        },
        (Phase::Reporting, TickEvent::Done) => {
            b == a && r == (round.turned(Phase::Ended), TickOrder::Finish(false))
        },
        _ => b == a && r == (round.turned(Phase::Ended), TickOrder::GiveUp),
    }
}

/// A round that begins at some time.
pub fn begin_tick(now: i64) -> (r: (Round, TickOrder))
    ensures
        r.0.sound(),
        r.0.now == now,
        r.0.found@ == Seq::<Presence>::empty(),
        r.0.phase is Trusting,
        r.1 is AskTrusted,
{
    (Round { now, found: Vec::new(), phase: Phase::Trusting }, TickOrder::AskTrusted)
}

/// Takes the next message, or goes on to the report.
fn take_next(now: i64, found: Vec<Presence>, taken: usize) -> (r: (Round, TickOrder))
    requires
        taken < 256,
    ensures
        r == takes_next(Round { now, found, phase: Phase::Ended }, taken),
{
    if taken + 1 < 256 {
        (Round { now, found, phase: Phase::Sending { taken: taken + 1 } }, TickOrder::Take)
    } else {
        (Round { now, found, phase: Phase::Asking }, TickOrder::AskTrusted)
    }
}

/// Has the object at a position deleted.
fn delete(now: i64, found: Vec<Presence>, mail: Vec<Mail>, at: usize, staged: bool) -> (r: (
    Round,
    TickOrder,
))
    requires
        at < mail@.len(),
    ensures
        deletes(Round { now, found, phase: Phase::Ended }, mail, at, staged, r),
{
    let name = mail[at].name.clone();
    (Round { now, found, phase: Phase::Deleting { mail, at, staged } }, TickOrder::Delete(name))
}

impl Worker {
    /// Counts a message that was received and answered, and has it shown.
    fn tell(
        &mut self,
        now: i64,
        found: Vec<Presence>,
        mail: Vec<Mail>,
        at: usize,
        from: String,
        message: Message,
    ) -> (r: (Round, TickOrder))
        requires
            old(self).wf(),
            at < mail@.len(),
            0 <= now,
            now + 210 <= i64::MAX,
            can_count(old(self)@.counters),
        ensures
            final(self).wf(),
            tells(
                old(self)@,
                Round { now, found, phase: Phase::Ended },
                mail,
                at,
                from,
                message,
                final(self)@,
                r,
            ),
    {
        let tag = self.count(&message, now);
        (
            Round { now, found, phase: Phase::Telling { mail, at, tag } },
            TickOrder::Tell(from, message),
        )
    }

    /// The next step of a round.
    pub fn tick(&mut self, round: Round, event: TickEvent) -> (r: (Round, TickOrder))
        requires
            old(self).wf(),
            round.sound(),
            0 <= round.now,
            round.now + 210 <= i64::MAX,
            can_count(old(self)@.counters),
            event matches TickEvent::Trusted(trusted) ==> trusted.wf(),
            event matches TickEvent::Known(Some(trusted)) ==> trusted.wf(),
        ensures
            final(self).wf(),
            r.0.sound(),
            ticks(old(self)@, round, event, final(self)@, r),
    {
        let Round { now, found, phase } = round;
        match (phase, event) {
            (Phase::Trusting, TickEvent::Trusted(trusted)) => match self.begin(trusted, now) {
                Some(p) => (
                    Round { now, found, phase: Phase::Publishing },
                    TickOrder::Publish(p),
                ),
                None => (Round { now, found, phase: Phase::Discovering }, TickOrder::Discover),
            },
            (Phase::Publishing, TickEvent::Done) => {
                self.published(now);
                (Round { now, found, phase: Phase::Discovering }, TickOrder::Discover)
            },
            (Phase::Discovering, TickEvent::Announced(list)) => {
                let found = discover(&list, self.limit(), now);
                self.discovered(&found, now);
                let peers = self.peer_ids();
                (Round { now, found, phase: Phase::Greeting { peers, at: 0 } }, TickOrder::GoOn)
            },
            (Phase::Greeting { peers, at }, TickEvent::Done) => {
                if at >= peers.len() {
                    let bucket = self.bucket();
                    return (Round { now, found, phase: Phase::Listing }, TickOrder::List(bucket));
                }
                let g = self.greet(peers[at].as_str(), now);
                assert(greets(old(self)@, peers@[at as int]@, now as int, g));
                match g {
                    Greeting::Skip => {},
                    Greeting::Silent(_) => self.greeted(peers[at].as_str(), now),
                    Greeting::Send(env) => {
                        return (
                            Round { now, found, phase: Phase::Challenging { peers, at } },
                            TickOrder::Put(env),
                        );
                    },
                }
                (
                    Round { now, found, phase: Phase::Greeting { peers, at: at + 1 } },
                    TickOrder::GoOn,
                )
            },
            (Phase::Challenging { peers, at }, TickEvent::Done) => {
                self.greeted(peers[at].as_str(), now);
                assert(at < peers.len());
                (
                    Round { now, found, phase: Phase::Greeting { peers, at: at + 1 } },
                    TickOrder::GoOn,
                )
            },
            (Phase::Listing, TickEvent::Listed(mail)) => (
                Round { now, found, phase: Phase::Opening { mail, at: 0 } },
                TickOrder::GoOn,
            ),
            (Phase::Opening { mail, at }, TickEvent::Done) => {
                if at >= mail.len() {
                    (Round { now, found, phase: Phase::Sending { taken: 0 } }, TickOrder::Take)
                } else if read(mail[at].size, self.limit()).is_err() {
                    self.reject();
                    delete(now, found, mail, at, false)
                } else {
                    let name = mail[at].name.clone();
                    (
                        Round { now, found, phase: Phase::Fetching { mail, at } },
                        TickOrder::Fetch(name),
                    )
                }
            },
            (Phase::Fetching { mail, at }, TickEvent::Fetched(None)) => {
                self.reject();
                delete(now, found, mail, at, false)
            },
            (Phase::Fetching { mail, at }, TickEvent::Fetched(Some(env))) => {
                match self.open(&env, now) {
                    Ok(text) => (
                        Round { now, found, phase: Phase::Parsing { mail, at, env } },
                        TickOrder::Parse(text),
                    ),
                    Err(_) => {
                        self.reject();
                        delete(now, found, mail, at, false)
                    },
                }
            },
            (Phase::Parsing { mail, at, env }, TickEvent::Parsed(parsed)) => {
                let from = env.header.from.clone();
                let env = Some(env);
                let out = self.incoming(mail[at].name.as_str(), mail[at].size, &env, &parsed, now);
                proof {
                    let object = mail@[at as int];
                    let mid = after_mail(old(self)@, object, env->0, parsed, now as int);
                    assert(self@ == mid);
                    assert(takes_mail(
                        old(self)@,
                        object.name@,
                        object.size,
                        env,
                        parsed,
                        now as int,
                        mid,
                        out,
                    ));
                }
                match out {
                    Err(_) => {
                        self.reject();
                        delete(now, found, mail, at, false)
                    },
                    Ok((message, Some(reply))) => (
                        Round {
                            now,
                            found,
                            phase: Phase::Answering { mail, at, from, message },
                        },
                        TickOrder::Put(reply),
                    ),
                    Ok((message, None)) => self.tell(now, found, mail, at, from, message),
                }
            },
            (Phase::Answering { mail, at, from, message }, TickEvent::Done) => self.tell(
                now,
                found,
                mail,
                at,
                from,
                message,
            ),
            (Phase::Telling { mail, at, tag }, TickEvent::Done) => match tag {
                Some(tag) => (
                    Round { now, found, phase: Phase::Updating { mail, at } },
                    TickOrder::Update(tag),
                ),
                None => delete(now, found, mail, at, false),
            },
            (Phase::Updating { mail, at }, TickEvent::Staged(staged)) => delete(
                now,
                found,
                mail,
                at,
                staged,
            ),
            (Phase::Deleting { mail, at, staged }, TickEvent::Done) => if staged {
                (Round { now, found, phase: Phase::Ended }, TickOrder::Finish(true))
            } else {
                assert(at < mail.len());
                (
                    Round { now, found, phase: Phase::Opening { mail, at: at + 1 } },
                    TickOrder::GoOn,
                )
            },
            (Phase::Sending { taken }, TickEvent::Waiting(q)) => {
                let o = self.outgoing(&q, now);
                assert(sends(old(self)@, q, now as int, self@, o));
                match o {
                    Outgoing::Expired => (
                        Round { now, found, phase: Phase::Removing { taken } },
                        TickOrder::Remove,
                    ),
                    Outgoing::Wait => take_next(now, found, taken),
                    Outgoing::Send(env) => (
                        Round { now, found, phase: Phase::Posting { taken } },
                        TickOrder::Put(env),
                    ),
                    Outgoing::Failed(e) => (
                        Round { now, found, phase: Phase::Ended },
                        TickOrder::Fail(e),
                    ),
                }
            },
            (Phase::Sending { taken }, TickEvent::NoMessage) => take_next(now, found, taken),
            (Phase::Sending { .. }, TickEvent::NoMore) => (
                Round { now, found, phase: Phase::Asking },
                TickOrder::AskTrusted,
            ),
            (Phase::Posting { taken }, TickEvent::Done) => (
                Round { now, found, phase: Phase::Removing { taken } },
                TickOrder::Remove,
            ),
            (Phase::Removing { taken }, TickEvent::Done) => take_next(now, found, taken),
            (Phase::Asking, TickEvent::Known(trusted)) => {
                let list = self.report(&found, &trusted, now);
                (Round { now, found, phase: Phase::Reporting }, TickOrder::Report(list))
            },
            (Phase::Reporting, TickEvent::Done) => (
                Round { now, found, phase: Phase::Ended },
                TickOrder::Finish(false),
            ),
            _ => (Round { now, found, phase: Phase::Ended }, TickOrder::GiveUp),
        }
    }
}

/// Broken mail cannot hold up the mailbox: whatever becomes of an object, the
/// round either gives up or deletes it before it goes on to the next one.
pub proof fn lemma_mail_is_deleted(
    a: WorkerView,
    round: Round,
    event: TickEvent,
    b: WorkerView,
    r: (Round, TickOrder),
)
    requires
        ticks(a, round, event, b, r),
        in_hand(round.phase) is Some,
    ensures
        ({
            ||| in_hand(r.0.phase) == in_hand(round.phase)
            ||| r.1 is GiveUp
            ||| round.phase is Deleting && event is Done
        }),
        r.0.phase is Deleting ==> ({
            let (mail, at) = in_hand(round.phase)->0;
            r.1 == TickOrder::Delete(mail[at].name)
        }),
{
}

/// A message that waits is removed only once it was put into the recipient's
/// mailbox, or when it has expired.
pub proof fn lemma_message_is_kept_until_sent(
    a: WorkerView,
    round: Round,
    event: TickEvent,
    b: WorkerView,
    r: (Round, TickOrder),
)
    requires
        ticks(a, round, event, b, r),
    ensures
        r.1 is Remove ==> {
            ||| round.phase is Posting && event is Done
            ||| event matches TickEvent::Waiting(q) && q.expires <= round.now
        },
        r.0.phase is Posting ==> r.1 is Put,
{
}

/// A round asks for a restart only after a release was staged and the object
/// that told of it deleted.
pub proof fn lemma_restart_follows_staging(
    a: WorkerView,
    round: Round,
    event: TickEvent,
    b: WorkerView,
    r: (Round, TickOrder),
)
    requires
        ticks(a, round, event, b, r),
    ensures
        r.1 == TickOrder::Finish(true) ==> event is Done && (round.phase matches Phase::Deleting {
            staged,
            ..
        } && staged),
        (r.0.phase matches Phase::Deleting { staged, .. } && staged) ==> event
            == TickEvent::Staged(true) && round.phase is Updating,
        r.0.phase is Updating ==> (r.1 is Update && round.phase is Telling),
{
}

} // verus!
