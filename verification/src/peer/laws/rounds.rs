//! What the rounds of the peer and the supervision of its process are for.

use crate::peer::crypto::{Envelope, Signed};
use crate::peer::identity::Presence;
use crate::peer::local::{listed, preparation, Found};
use crate::peer::protocol::{
    carries, is_authenticated, opening, outcome, peers_listed, received, refusal, sent, EngineView,
    Message, Peer,
};
use crate::peer::runtime::{
    begun, challenged, counted, counts, greets, last, members, noticed, noticed_all,
    noticed_through, others, presences, rejected, reported, reports, sends, takes_mail, Announced,
    Greeting, Occurrence, Order, Outgoing, PeerStatus, Queued, Supervision, WorkerView,
};
use crate::peer::tick::{after_mail, ticks, Phase, Round, TickEvent, TickOrder};
use crate::peer::PeerError;
use vstd::prelude::*;

verus! {

/// The presences that are found are those of the objects that are small enough,
/// named after their device and valid, in order.
pub proof fn lemma_found_presences(found: Seq<Announced>, limit: int, now: int)
    ensures
        presences(found, limit, now) == found.filter(
            |a: Announced|
                a.size <= limit && a.presence is Some && a.name@ == a.presence->0.device@
                    + ".json"@ && a.presence->0.check(now) is Ok,
        ).map_values(|a: Announced| a.presence->0),
    decreases found.len(),
{
    reveal(Seq::filter);
    let p = |a: Announced|
        a.size <= limit && a.presence is Some && a.name@ == a.presence->0.device@ + ".json"@
            && a.presence->0.check(now) is Ok;
    let f = |a: Announced| a.presence->0;
    if found.len() > 0 {
        lemma_found_presences(found.drop_last(), limit, now);
        let rest = found.drop_last().filter(p);
        assert(rest.push(found.last()).map_values(f) =~= rest.map_values(f).push(
            found.last().presence->0,
        ));
    } else {
        assert(presences(found, limit, now) =~= found.filter(p).map_values(f));
    }
}

/// The devices that are stored as trusted are those of the list.
pub proof fn lemma_trusted_devices(list: Seq<String>, i: int, id: Seq<char>)
    ensures
        0 <= i < list.len() ==> members(list).contains(list[i]@),
        members(list).contains(id) ==> exists|j: int|
            0 <= j < list.len() && (#[trigger] list[j])@ == id,
{
    if members(list).contains(id) {
        let j = choose|j: int| 0 <= j < list.len() && #[trigger] list[j]@ == id;
        assert(list[j]@ == id);
    }
}

/// A peer is challenged when it is not authenticated and was not challenged within
/// the last twenty seconds; the challenge that it gets is the one that it has to
/// answer, sealed for it.
pub proof fn lemma_peer_is_greeted(w: WorkerView, id: Seq<char>, now: int, r: Greeting)
    requires
        greets(w, id, now, r),
    ensures
        ({
            let authenticated = w.engine.peers.contains_key(id)
                && w.engine.peers[id].authenticated && w.engine.peers[id].presence is Some
                && w.engine.peers[id].presence->0.check(now) is Ok;
            let before = if w.last_hello.contains_key(id) {
                w.last_hello[id] as int
            } else {
                0
            };
            &&& r is Skip <==> authenticated || now < before + 20
            &&& r matches Greeting::Send(env) ==> carries(
                w.engine,
                id,
                Message::Hello { challenge: w.engine.peers[id].challenge },
                env,
                now,
            )
        }),
{
}

/// A challenge is noted for its peer, and for no other.
pub proof fn lemma_challenge_is_noted(w: WorkerView, id: Seq<char>, now: i64, other: Seq<char>)
    ensures
        ({
            let x = challenged(w, id, now);
            &&& x.last_hello.contains_key(id) && x.last_hello[id] == now
            &&& other != id ==> (x.last_hello.contains_key(other) <==> w.last_hello.contains_key(
                other,
            )) && (w.last_hello.contains_key(other) ==> x.last_hello[other]
                == w.last_hello[other])
            &&& x.engine == w.engine && x.counters == w.counters && x.last_publish
                == w.last_publish && x.update_attempts == w.update_attempts && x.auto_update
                == w.auto_update
        }),
{
}

/// An object of the mailbox is taken if it is not too large, is an envelope and is
/// named after it; then it is received as an envelope is. Otherwise nothing
/// changes and why is told.
pub proof fn lemma_mail_is_taken(
    a: WorkerView,
    name: Seq<char>,
    size: u64,
    env: Option<Envelope>,
    parsed: Option<Signed>,
    now: int,
    b: WorkerView,
    r: Result<(Message, Option<Envelope>), PeerError>,
)
    requires
        takes_mail(a, name, size, env, parsed, now, b, r),
    ensures
        size > a.engine.limit ==> r == Err::<(Message, Option<Envelope>), PeerError>(
            PeerError::TooLarge,
        ) && b == a,
        size <= a.engine.limit && env is None ==> r == Err::<
            (Message, Option<Envelope>),
            PeerError,
        >(PeerError::Malformed) && b == a,
        size <= a.engine.limit && env is Some && name != env->0.header.id@ + ".json"@ ==> r
            == Err::<(Message, Option<Envelope>), PeerError>(PeerError::MailName) && b == a,
        size <= a.engine.limit && env is Some && name == env->0.header.id@ + ".json"@ ==> {
            &&& b.engine == received(a.engine, env->0, parsed, now)
            &&& outcome(a.engine, env->0, parsed, now, r)
            &&& b.counters == a.counters && b.last_hello == a.last_hello && b.last_publish
                == a.last_publish && b.update_attempts == a.update_attempts && b.auto_update
                == a.auto_update
        },
{
}

/// A message that was taken counts as received, a ping and a pong as such too, and
/// nothing as rejected. The release of an update is tried where updates are
/// installed by themselves and it was not tried within the last hour; then that it
/// was is noted.
pub proof fn lemma_message_is_counted(
    a: WorkerView,
    m: Message,
    now: i64,
    b: WorkerView,
    r: Option<String>,
    other: Seq<char>,
)
    requires
        counts(a, m, now, b, r),
        a.counters.received < u64::MAX && a.counters.pings < u64::MAX && a.counters.pongs
            < u64::MAX,
    ensures
        b.counters.received == a.counters.received + 1,
        b.counters.pings == a.counters.pings + if m is Ping {
            1int
        } else {
            0
        },
        b.counters.pongs == a.counters.pongs + if m is Pong {
            1int
        } else {
            0
        },
        b.counters.rejected == a.counters.rejected,
        ({
            let tag = m->UpdateAvailable_tag@;
            let before = if a.update_attempts.contains_key(tag) {
                a.update_attempts[tag] as int
            } else {
                0
            };
            r is Some <==> m is UpdateAvailable && a.auto_update && now - before > 3600
        }),
        r matches Some(t) ==> {
            &&& m == (Message::UpdateAvailable { tag: t })
            &&& b.update_attempts.contains_key(t@) && b.update_attempts[t@] == now
            &&& other != t@ ==> (b.update_attempts.contains_key(other)
                <==> a.update_attempts.contains_key(other) && now - a.update_attempts[other] < 3600)
        },
        r is None ==> b.update_attempts == a.update_attempts,
        b.engine == a.engine && b.last_hello == a.last_hello && b.last_publish == a.last_publish,
{
}

/// What was rejected is counted, and nothing else changes.
pub proof fn lemma_rejection_is_counted(w: WorkerView)
    requires
        w.counters.rejected < u64::MAX,
    ensures
        rejected(w).counters.rejected == w.counters.rejected + 1,
        rejected(w).counters.received == w.counters.received,
        rejected(w).counters.pings == w.counters.pings,
        rejected(w).counters.pongs == w.counters.pongs,
        rejected(w).engine == w.engine && rejected(w).last_hello == w.last_hello && rejected(
            w,
        ).last_publish == w.last_publish && rejected(w).update_attempts == w.update_attempts,
{
}

/// A message that waits is dropped when it has expired, waits on while its
/// recipient is not authenticated, and else is sealed for it and sent.
pub proof fn lemma_waiting_message(a: WorkerView, q: Queued, now: int, b: WorkerView, r: Outgoing)
    requires
        sends(a, q, now, b, r),
    ensures
        r is Expired <==> q.expires <= now,
        ({
            let peers = a.engine.peers;
            let authenticated = peers.contains_key(q.to@) && peers[q.to@].authenticated
                && peers[q.to@].presence is Some && peers[q.to@].presence->0.check(now) is Ok;
            &&& r is Wait <==> q.expires > now && !authenticated
            &&& r is Expired || r is Wait ==> b == a
        }),
        r matches Outgoing::Send(env) ==> carries(a.engine, q.to@, q.message, env, now)
            && b.engine == sent(a.engine, q.to@, q.message, now),
        b.counters == a.counters && b.last_hello == a.last_hello && b.last_publish == a.last_publish
            && b.update_attempts == a.update_attempts,
{
}

/// Every device that was found is reported, but for the own one, in order, with
/// whether it is trusted and authenticated and when its presence expires.
pub proof fn lemma_devices_are_reported(
    w: WorkerView,
    list: Seq<Presence>,
    trusted: Option<Set<Seq<char>>>,
    now: int,
    r: Seq<PeerStatus>,
    i: int,
)
    requires
        reported(w, list, trusted, now, r),
    ensures
        ({
            let told = list.filter(|p: Presence| p.device@ != w.engine.identity.device());
            &&& r.len() == told.len()
            &&& 0 <= i < r.len() ==> {
                &&& r[i].device@ == told[i].device@
                &&& r[i].trusted == (trusted is Some && trusted->0.contains(told[i].device@))
                &&& r[i].authenticated == is_authenticated(w.engine, told[i].device@, now)
                &&& r[i].expires == told[i].expires
            }
        }),
{
    lemma_others(list, w.engine.identity.device());
    if 0 <= i < r.len() {
        let told = others(list, w.engine.identity.device());
        assert(reports(w, trusted, told[i], now, r[i]));
    }
}

proof fn lemma_others(list: Seq<Presence>, own: Seq<char>)
    ensures
        others(list, own) == list.filter(|p: Presence| p.device@ != own),
    decreases list.len(),
{
    reveal(Seq::filter);
    if list.len() > 0 {
        lemma_others(list.drop_last(), own);
    }
}

/// A round begins with the devices that are trusted then: those that are no more
/// are forgotten as peers, and nothing else changes.
pub proof fn lemma_trust_is_renewed(w: WorkerView, trusted: Set<Seq<char>>, id: Seq<char>)
    ensures
        ({
            let x = begun(w, trusted);
            &&& x.engine.trusted == trusted
            &&& x.engine.peers.contains_key(id) <==> w.engine.peers.contains_key(id)
                && trusted.contains(id)
            &&& x.engine.peers.contains_key(id) ==> x.engine.peers[id] == w.engine.peers[id]
            &&& x.engine.seen == w.engine.seen && x.engine.pings == w.engine.pings
                && x.engine.session == w.engine.session && x.engine.identity == w.engine.identity
            &&& x.counters == w.counters && x.last_hello == w.last_hello && x.last_publish
                == w.last_publish && x.update_attempts == w.update_attempts
        }),
{
}

/// A device that was found is taken notice of unless it is the own one, and what
/// is found of others does not touch it.
pub proof fn lemma_found_device_is_noticed(a: EngineView, p: Presence, now: int, b: EngineView)
    requires
        noticed(a, p, now, b),
    ensures
        super::devices::takes_notice(a, p, now) ==> b.peers.contains_key(p.device@)
            && b.peers[p.device@].presence == Some(p) && (super::devices::goes_on_in_session(a, p)
            ==> b.peers[p.device@].authenticated == a.peers[p.device@].authenticated),
        !super::devices::takes_notice(a, p, now) ==> b == a,
        b.trusted == a.trusted && b.seen == a.seen && b.pings == a.pings,
        forall|id: Seq<char>|
            id != p.device@ ==> (#[trigger] b.peers.contains_key(id) <==> a.peers.contains_key(id))
                && (a.peers.contains_key(id) ==> b.peers[id] == a.peers[id]),
{
}

/// A round goes from the trusted devices to the presence, which is published every
/// half minute, to the devices that are found, the peers that are challenged, the
/// mailbox, the messages that wait and the report; then it has ended. Each step
/// follows from what the one before gave.
pub proof fn lemma_round_goes_on(
    a: WorkerView,
    round: Round,
    event: TickEvent,
    b: WorkerView,
    r: (Round, TickOrder),
)
    requires
        ticks(a, round, event, b, r),
    ensures
        round.phase is Trusting && event is Trusted ==> {
            &&& round.now >= a.last_publish + 30 ==> r.1 is Publish && r.0.phase is Publishing
            &&& round.now < a.last_publish + 30 ==> r.1 is Discover && r.0.phase is Discovering
            &&& b == begun(a, event->Trusted_0@)
        },
        round.phase is Publishing && event is Done ==> r.1 is Discover && r.0.phase is Discovering
            && b.last_publish == round.now && b.engine == a.engine,
        round.phase is Discovering && event is Announced ==> {
            &&& r.1 is GoOn
            &&& r.0.found@ == presences(
                event->Announced_0@,
                a.engine.limit as int,
                round.now as int,
            )
            &&& r.0.phase matches Phase::Greeting { peers, at } && at == 0 && peers_listed(
                b.engine,
                peers@,
            )
        },
        round.phase is Listing && event is Listed ==> r.0.phase == (Phase::Opening {
            mail: event->Listed_0,
            at: 0,
        }) && b == a,
        (round.phase matches Phase::Opening { mail, at } && at >= mail@.len() && event is Done)
            ==> r.1 is Take && r.0.phase == (Phase::Sending { taken: 0 }) && b == a,
        round.phase is Sending && event is NoMore ==> r.1 is AskTrusted && r.0.phase is Asking && b
            == a,
        round.phase is Asking && event is Known ==> r.1 is Report && r.0.phase is Reporting && b
            == a,
        round.phase is Reporting && event is Done ==> r.1 == TickOrder::Finish(false) && b == a,
        event is Failed ==> r.1 is GiveUp && r.0.phase is Ended && b == a,
        r.0.now == round.now,
        !(round.phase is Discovering) ==> r.0.found == round.found,
{
}

/// Every peer is challenged in its turn, and after the last of them the own mailbox
/// is listed. A challenge that is due is sent and then noted; one that cannot be
/// made is noted at once; and one that is not due is passed over.
pub proof fn lemma_peers_are_challenged_in_turn(
    a: WorkerView,
    round: Round,
    event: TickEvent,
    b: WorkerView,
    r: (Round, TickOrder),
)
    requires
        ticks(a, round, event, b, r),
        event is Done,
    ensures
        (round.phase matches Phase::Greeting { peers, at } && at >= peers@.len()) ==> {
            &&& r.1 matches TickOrder::List(bucket) && bucket@ == "in-"@
                + a.engine.identity.device()
            &&& r.0.phase is Listing
            &&& b == a
        },
        (round.phase matches Phase::Greeting { peers, at } && at < peers@.len()) ==> ({
            let (peers, at) = (round.phase->Greeting_peers, round.phase->Greeting_at);
            let id = peers@[at as int]@;
            let due = !is_authenticated(a.engine, id, round.now as int) && round.now - last(
                a.last_hello,
                id,
            ) >= 20;
            &&& !due ==> r.1 is GoOn && b == a
            &&& r.1 is Put ==> due && b == a && r.0.phase == (Phase::Challenging { peers, at })
            &&& due && !(r.1 is Put) ==> r.1 is GoOn && b == challenged(a, id, round.now)
            &&& r.1 is GoOn ==> (r.0.phase matches Phase::Greeting { peers: p, at: n } && p == peers
                && n == (at + 1) as usize)
        }),
        (round.phase matches Phase::Challenging { peers, at }) ==> ({
            let (peers, at) = (round.phase->Challenging_peers, round.phase->Challenging_at);
            &&& b == challenged(a, peers@[at as int]@, round.now)
            &&& r.1 is GoOn
            &&& r.0.phase matches Phase::Greeting { peers: p, at: n } && p == peers && n == (at
                + 1) as usize
        }),
{
}

/// An object of the mailbox is fetched unless it is too large; what is no envelope
/// or does not open is rejected and deleted; what opens is read as a message. A
/// message that is taken is answered, where it is to be, and then told; one that
/// is refused is rejected and deleted.
pub proof fn lemma_mail_is_dealt_with(
    a: WorkerView,
    round: Round,
    event: TickEvent,
    b: WorkerView,
    r: (Round, TickOrder),
)
    requires
        ticks(a, round, event, b, r),
    ensures
        (round.phase matches Phase::Opening { mail, at } && at < mail@.len() && event is Done)
            ==> ({
            let (mail, at) = (round.phase->Opening_mail, round.phase->Opening_at);
            let object = mail@[at as int];
            &&& object.size > a.engine.limit ==> r.1 == TickOrder::Delete(object.name) && b
                == rejected(a)
            &&& object.size <= a.engine.limit ==> r.1 == TickOrder::Fetch(object.name) && b == a
                && r.0.phase == (Phase::Fetching { mail, at })
        }),
        (round.phase matches Phase::Fetching { mail, at } && event is Fetched) ==> ({
            let (mail, at) = (round.phase->Fetching_mail, round.phase->Fetching_at);
            let env = event->Fetched_0;
            let open = opening(a.engine, env->0, round.now as int);
            &&& env is None || open is Err ==> r.1 == TickOrder::Delete(mail@[at as int].name) && b
                == rejected(a)
            &&& env is Some && open is Ok ==> (r.1 matches TickOrder::Parse(t) && t@ == open->Ok_0)
                && b == a && r.0.phase == (Phase::Parsing { mail, at, env: env->0 })
        }),
        (round.phase matches Phase::Parsing { mail, at, env } && event is Parsed) ==> ({
            let (mail, at, env) = (
                round.phase->Parsing_mail,
                round.phase->Parsing_at,
                round.phase->Parsing_env,
            );
            let object = mail@[at as int];
            let now = round.now as int;
            let parsed = event->Parsed_0;
            let taken = object.size <= a.engine.limit && object.name@ == env.header.id@ + ".json"@
                && refusal(a.engine, env, parsed, now) is None;
            &&& !taken ==> r.1 == TickOrder::Delete(object.name) && b.counters.rejected
                == (a.counters.rejected + 1) as u64
            &&& r.1 matches TickOrder::Put(reply) ==> taken && b.counters == a.counters && (
            r.0.phase matches Phase::Answering { message, from, .. } && message
                == parsed->0.message && from == env.header.from && (message is Hello
                || message is Ping || message is StatusRequest))
            &&& r.1 matches TickOrder::Tell(from, message) ==> taken && from == env.header.from
                && message == parsed->0.message && b.counters.received == (a.counters.received
                + 1) as u64
            &&& taken && !(parsed->0.message is Hello || parsed->0.message is Ping
                || parsed->0.message is StatusRequest) ==> r.1 is Tell
            &&& b.engine == after_mail(a, object, env, parsed, now).engine
        }),
        (round.phase is Answering && event is Done) ==> r.1 == TickOrder::Tell(
            round.phase->Answering_from,
            round.phase->Answering_message,
        ) && b.counters.received == (a.counters.received + 1) as u64,
        (round.phase is Telling && event is Done) ==> match round.phase->Telling_tag {
            Some(tag) => r.1 == TickOrder::Update(tag) && b == a,
            None => r.1 == TickOrder::Delete(
                round.phase->Telling_mail@[round.phase->Telling_at as int].name,
            ) && b == a,
        },
        (round.phase is Updating && event is Staged) ==> r.1 == TickOrder::Delete(
            round.phase->Updating_mail@[round.phase->Updating_at as int].name,
        ) && (r.0.phase matches Phase::Deleting { staged, .. } && staged == event->Staged_0),
        (round.phase is Deleting && event is Done) ==> if round.phase->Deleting_staged {
            r.1 == TickOrder::Finish(true)
        } else {
            r.1 is GoOn && r.0.phase == (Phase::Opening {
                mail: round.phase->Deleting_mail,
                at: (round.phase->Deleting_at + 1) as usize,
            })
        },
{
}

/// At most two hundred and fifty-six messages are taken in a round, each in its
/// turn: one that has expired is removed, one whose recipient is not authenticated
/// is left, one that can be sent is sent and then removed, and one that cannot
/// ends the round.
pub proof fn lemma_messages_are_sent_in_turn(
    a: WorkerView,
    round: Round,
    event: TickEvent,
    b: WorkerView,
    r: (Round, TickOrder),
)
    requires
        ticks(a, round, event, b, r),
        round.sound(),
    ensures
        (round.phase is Sending && (event matches TickEvent::Waiting(q) && q.expires <= round.now))
            ==> r.1 is Remove && r.0.phase is Removing && b == a,
        (round.phase is Sending && (event matches TickEvent::Waiting(q) && q.expires > round.now
            && !is_authenticated(a.engine, q.to@, round.now as int))) || (round.phase is Sending
            && event is NoMessage) || (round.phase is Removing && event is Done) ==> ({
            let taken = match round.phase {
                Phase::Sending { taken } => taken,
                Phase::Removing { taken } => taken,
                _ => 0,
            };
            &&& taken < 255 ==> r.1 is Take && r.0.phase == (Phase::Sending {
                taken: (taken + 1) as usize,
            })
            &&& taken >= 255 ==> r.1 is AskTrusted && r.0.phase is Asking
            &&& b == a
        }),
        (round.phase is Sending && (event matches TickEvent::Waiting(q) && q.expires > round.now
            && is_authenticated(a.engine, q.to@, round.now as int))) ==> {
            &&& r.1 is Put && r.0.phase is Posting || r.1 is Fail && r.0.phase is Ended
            &&& r.1 matches TickOrder::Put(env) ==> carries(
                a.engine,
                event->Waiting_0.to@,
                event->Waiting_0.message,
                env,
                round.now as int,
            )
        },
        round.phase is Posting && event is Done ==> r.1 is Remove && r.0.phase == (
        Phase::Removing { taken: round.phase->Posting_taken }) && b == a,
{
}

/// The worker's process is watched: an update is activated first, then the active
/// executable is looked for and started. One that is ready is waited for; one that
/// ended or was not ready within half a minute did not start.
pub proof fn lemma_worker_is_started(first: bool, again: bool, elapsed: u64)
    ensures
        Supervision::Activating.followed(Occurrence::Activated) == (
            Supervision::Locating { again: false },
            Order::Locate,
        ),
        (Supervision::Locating { again }).followed(Occurrence::Located { first }) == (
            Supervision::Starting { first },
            Order::Start,
        ),
        (Supervision::Starting { first }).followed(
            Occurrence::Polled { ready: true, exited: again, elapsed },
        ) == (Supervision::Running { first }, Order::Wait),
        elapsed > 30_000_000_000 ==> (Supervision::Starting { first }).followed(
            Occurrence::Polled { ready: false, exited: false, elapsed },
        ) == (Supervision::Killing { first }, Order::Kill),
        elapsed <= 30_000_000_000 ==> (Supervision::Starting { first }).followed(
            Occurrence::Polled { ready: false, exited: false, elapsed },
        ) == (Supervision::Starting { first }, Order::Poll),
{
}

/// A version that does not start, or whose worker fails within half a minute, is
/// given up: the version before it is made active again and everything begins
/// anew. The first executable, which no update installed, ends the supervision
/// instead. Where no executable is found, the version before is tried once.
pub proof fn lemma_failing_version_is_given_up(first: bool, elapsed: u64, success: bool)
    ensures
        ({
            let ended = (Supervision::Starting { first }).followed(
                Occurrence::Polled { ready: false, exited: true, elapsed },
            );
            let killed = (Supervision::Killing { first }).followed(Occurrence::Killed);
            &&& ended == killed
            &&& first ==> ended == (Supervision::Ended, Order::Fail(PeerError::StartupFailed))
            &&& !first ==> ended == (Supervision::Retreating, Order::GoBack)
        }),
        Supervision::Retreating.followed(Occurrence::WentBack) == (
            Supervision::Activating,
            Order::Activate,
        ),
        (Supervision::Locating { again: false }).followed(Occurrence::NotLocated) == (
            Supervision::Recovering,
            Order::GoBack,
        ),
        Supervision::Recovering.followed(Occurrence::WentBack) == (
            Supervision::Locating { again: true },
            Order::Locate,
        ),
        (Supervision::Locating { again: true }).followed(Occurrence::NotLocated) == (
            Supervision::Ended,
            Order::Fail(PeerError::Unreadable),
        ),
        ({
            let ran = (Supervision::Running { first }).followed(
                Occurrence::Exited { restart: false, success, elapsed },
            );
            &&& success ==> ran == (Supervision::Ended, Order::Finish)
            &&& !success && !first && elapsed < 30_000_000_000 ==> ran == (
                Supervision::Retreating,
                Order::GoBack,
            )
            &&& !success && (first || elapsed >= 30_000_000_000) ==> ran == (
                Supervision::Ended,
                Order::Fail(PeerError::WorkerStopped),
            )
        }),
        (Supervision::Running { first }).followed(
            Occurrence::Exited { restart: true, success, elapsed },
        ) == (Supervision::Activating, Order::Activate),
{
}

/// A directory can serve as the peer's if it is not the file system's, and is
/// either empty, not there, or marked as the peer's.
pub proof fn lemma_prepared_directory(found: Found)
    ensures
        preparation(found) is Ok <==> !found.database && !found.config && (found.marker is None
            ==> !found.exists || found.empty) && (found.marker is Some ==> found.marker->0@
            == "TwoDrive Peer state v1\n"@),
        found.database || found.config ==> preparation(found) == Err::<(), PeerError>(
            PeerError::ForeignState,
        ),
{
}

/// An object stays in hand from its opening to its deletion: what is deleted is the
/// object that was opened, and a restart is called for only where its message
/// brought a release that was staged. The moment of the round stays.
pub proof fn lemma_object_stays_in_hand(
    a: WorkerView,
    round: Round,
    event: TickEvent,
    b: WorkerView,
    r: (Round, TickOrder),
)
    requires
        ticks(a, round, event, b, r),
    ensures
        r.0.now == round.now,
        r.1 is Delete ==> match round.phase {
            Phase::Opening { mail, at } => r.0.phase == (Phase::Deleting {
                mail,
                at,
                staged: false,
            }) && r.1 == TickOrder::Delete(mail@[at as int].name),
            Phase::Fetching { mail, at } => r.0.phase == (Phase::Deleting {
                mail,
                at,
                staged: false,
            }) && r.1 == TickOrder::Delete(mail@[at as int].name),
            Phase::Parsing { mail, at, .. } => r.0.phase == (Phase::Deleting {
                mail,
                at,
                staged: false,
            }) && r.1 == TickOrder::Delete(mail@[at as int].name),
            Phase::Telling { mail, at, .. } => r.0.phase == (Phase::Deleting {
                mail,
                at,
                staged: false,
            }) && r.1 == TickOrder::Delete(mail@[at as int].name),
            Phase::Updating { mail, at } => r.0.phase == (Phase::Deleting {
                mail,
                at,
                staged: event->Staged_0,
            }) && r.1 == TickOrder::Delete(mail@[at as int].name),
            _ => false,
        },
        r.1 is Put && round.phase is Parsing ==> (r.0.phase matches Phase::Answering { mail, at, .. }
            && mail == round.phase->Parsing_mail && at == round.phase->Parsing_at),
        r.1 is Tell && round.phase is Parsing ==> (r.0.phase matches Phase::Telling { mail, at, .. }
            && mail == round.phase->Parsing_mail && at == round.phase->Parsing_at),
        r.1 is Tell && round.phase is Answering ==> (r.0.phase matches Phase::Telling {
            mail,
            at,
            ..
        } && mail == round.phase->Answering_mail && at == round.phase->Answering_at),
        r.1 is Update ==> round.phase is Telling && r.0.phase == (Phase::Updating {
            mail: round.phase->Telling_mail,
            at: round.phase->Telling_at,
        }),
{
}

proof fn lemma_notice_keeps(states: Seq<EngineView>, list: Seq<Presence>, now: int, n: int)
    requires
        noticed_all(states, list, now),
        0 <= n <= list.len(),
    ensures
        states[n].trusted == states[0].trusted,
        states[n].identity == states[0].identity,
        forall|id: Seq<char>| #[trigger]
            states[0].peers.contains_key(id) ==> states[n].peers.contains_key(id),
    decreases n,
{
    if n > 0 {
        lemma_notice_keeps(states, list, now, n - 1);
        assert(noticed(states[n - 1], list[n - 1], now, states[n - 1 + 1]));
        lemma_found_device_is_noticed(states[n - 1], list[n - 1], now, states[n]);
    }
}

proof fn lemma_notice_stays(
    states: Seq<EngineView>,
    list: Seq<Presence>,
    now: int,
    i: int,
    n: int,
)
    requires
        noticed_all(states, list, now),
        0 <= i < n <= list.len(),
        states[i + 1].peers.contains_key(list[i].device@),
        forall|j: int| i < j < list.len() ==> (#[trigger] list[j]).device@ != list[i].device@,
    ensures
        states[n].peers.contains_key(list[i].device@),
        states[n].peers[list[i].device@] == states[i + 1].peers[list[i].device@],
    decreases n,
{
    if n > i + 1 {
        lemma_notice_stays(states, list, now, i, n - 1);
        assert(noticed(states[n - 1], list[n - 1], now, states[n - 1 + 1]));
        lemma_found_device_is_noticed(states[n - 1], list[n - 1], now, states[n]);
    }
}

/// Of the presences that are found of a known and trusted device, the last valid one
/// is what is known of it afterwards. Where nothing is found nothing changes.
pub proof fn lemma_last_found_presence_is_known(
    a: EngineView,
    list: Seq<Presence>,
    now: int,
    b: EngineView,
    i: int,
)
    requires
        noticed_through(a, list, now, b),
    ensures
        list.len() == 0 ==> b == a,
        b.trusted == a.trusted,
        0 <= i < list.len() && super::devices::takes_notice(a, list[i], now)
            && a.peers.contains_key(list[i].device@) && (forall|j: int|
            i < j < list.len() ==> (#[trigger] list[j]).device@ != list[i].device@)
            ==> b.peers.contains_key(list[i].device@) && b.peers[list[i].device@].presence == Some(
            list[i],
        ),
{
    let states = choose|states: Seq<EngineView>| #[trigger]
        noticed_all(states, list, now) && states[0] == a && states.last() == b;
    lemma_notice_keeps(states, list, now, list.len() as int);
    if 0 <= i < list.len() && super::devices::takes_notice(a, list[i], now)
        && a.peers.contains_key(list[i].device@) && (forall|j: int|
        i < j < list.len() ==> (#[trigger] list[j]).device@ != list[i].device@) {
        lemma_notice_keeps(states, list, now, i);
        assert(noticed(states[i], list[i], now, states[i + 1]));
        lemma_found_device_is_noticed(states[i], list[i], now, states[i + 1]);
        lemma_notice_stays(states, list, now, i, list.len() as int);
    }
}

} // verus!
