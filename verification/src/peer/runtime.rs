//! The peer at work: whom it trusts, what it sends and receives in one round,
//! and the supervision of its process.

use super::crypto::{
    message_signature, opened, seal_with, sealed, signed_text, Chance, Envelope, Signed,
};
use super::identity::{
    is_valid_id, nonce, presence_stands, presents, valid_id, Identity, Presence,
};
use super::local::{json_name, read};
use super::primitives::{hex_of, lemma_unhex_hex, x25519_public_of};
use super::protocol::{
    carries, discovery, discovery_refusal, is_authenticated, opening, outcome, peers_listed, received,
    send_refusal, sent, wrapped, Engine, EngineView, Message, Peer,
};
use super::PeerError;
use crate::ordered::{kept, StringMap, StringSet};
use crate::text::{joined, same_text};
use vstd::prelude::*;
use vstd::utf8::encode_utf8;

verus! {

/// A message that waits to be sent.
pub struct Queued {
    pub to: String,
    pub message: Message,
    pub expires: i64,
}

/// The texts in a list.
pub open spec fn members(list: Seq<String>) -> Set<Seq<char>> {
    Set::new(|k: Seq<char>| super::local::listed(list, k))
}

/// The trusted devices: those that were stored, or none.
pub fn trusted(stored: &Option<Vec<String>>) -> (r: StringSet)
    ensures
        r.wf(),
        r@ == match *stored {
            Some(list) => members(list@),
            None => Set::empty(),
        },
{
    let mut r = StringSet::new();
    match stored {
        None => {},
        Some(list) => {
            let mut i: usize = 0;
            assert(r@ =~= members(list@.take(0)));
            while i < list.len()
                invariant
                    i <= list@.len(),
                    r.wf(),
                    r@ == members(list@.take(i as int)),
                decreases list@.len() - i,
            {
                r.insert(list[i].clone());
                proof {
                    let a = list@.take(i as int);
                    let b = list@.take(i + 1);
                    assert forall|k: Seq<char>|
                        super::local::listed(b, k) == (super::local::listed(a, k) || k
                            == list@[i as int]@) by {
                        if super::local::listed(b, k) {
                            let j = choose|j: int| 0 <= j < b.len() && #[trigger] b[j]@ == k;
                            if j < i {
                                assert(a[j]@ == k);
                            }
                        }
                        if super::local::listed(a, k) {
                            let j = choose|j: int| 0 <= j < a.len() && #[trigger] a[j]@ == k;
                            assert(b[j]@ == k);
                        }
                        assert(b[i as int] == list@[i as int]);
                    }
                    assert(r@ =~= members(b));
                }
                i += 1;
            }
            assert(list@.take(list@.len() as int) =~= list@);
        },
    }
    r
}

/// Trusts a device from now on, or no longer. At most sixty-four devices are
/// trusted.
pub fn trust(ids: &mut StringSet, fingerprint: &str, remove: bool) -> (r: Result<(), PeerError>)
    requires
        old(ids).wf(),
    ensures
        final(ids).wf(),
        r == if !is_valid_id(fingerprint@) {
            Err(PeerError::BadFingerprint)
        } else if !remove && old(ids)@.len() >= 64 {
            Err(PeerError::TrustLimit)
        } else {
            Ok(())
        },
        final(ids)@ == if r is Err {
            old(ids)@
        } else if remove {
            old(ids)@.remove(fingerprint@)
        } else {
            old(ids)@.insert(fingerprint@)
        },
{
    if !valid_id(fingerprint) {
        return Err(PeerError::BadFingerprint);
    }
    if remove {
        ids.remove(fingerprint);
    } else {
        if !(ids.len() < 64) {
            return Err(PeerError::TrustLimit);
        }
        ids.insert(fingerprint.to_owned());
    }
    Ok(())
}

/// Makes a message wait for five minutes to be sent to a trusted device.
pub fn queue(to: &str, message: Message, trusted: &StringSet, waiting: usize, now: i64) -> (r:
    Result<Queued, PeerError>)
    requires
        trusted.wf(),
        now + 300 <= i64::MAX,
    ensures
        match r {
            Err(e) => {
                ||| e == PeerError::UntrustedRecipient && !(is_valid_id(to@) && trusted@.contains(
                    to@,
                ))
                ||| e == PeerError::OutboxFull && is_valid_id(to@) && trusted@.contains(to@)
                    && waiting >= 256
            },
            Ok(q) => {
                &&& is_valid_id(to@)
                &&& trusted@.contains(to@)
                &&& waiting < 256
                &&& q.to@ == to@
                &&& q.message == message
                &&& q.expires == now + 300
            },
        },
{
    if !(valid_id(to) && trusted.contains(to)) {
        return Err(PeerError::UntrustedRecipient);
    }
    if !(waiting < 256) {
        return Err(PeerError::OutboxFull);
    }
    Ok(Queued { to: to.to_owned(), message, expires: now + 300 })
}

/// An object among the announced devices: its name, its size in bytes and what
/// was read in it.
pub struct Announced {
    pub name: String,
    pub size: u64,
    pub presence: Option<Presence>,
}

/// An object announces a device: it is within the limit and holds a valid
/// presence under the device's own name.
pub open spec fn announces(a: Announced, limit: int, now: int) -> bool {
    &&& a.size <= limit
    &&& a.presence matches Some(p) && a.name@ == p.device@ + ".json"@ && p.check(now) is Ok
}

/// The presences that objects announce, in order.
pub open spec fn presences(found: Seq<Announced>, limit: int, now: int) -> Seq<Presence>
    decreases found.len(),
{
    if found.len() == 0 {
        Seq::empty()
    } else if announces(found.last(), limit, now) {
        presences(found.drop_last(), limit, now).push(found.last().presence->0)
    } else {
        presences(found.drop_last(), limit, now)
    }
}

/// The devices that are announced. What is too large, does not parse, has a
/// wrong name or does not verify is passed over.
pub fn discover(found: &Vec<Announced>, limit: usize, now: i64) -> (r: Vec<Presence>)
    requires
        now + 210 <= i64::MAX,
    ensures
        r@ == presences(found@, limit as int, now as int),
{
    let mut r: Vec<Presence> = Vec::new();
    let mut i: usize = 0;
    while i < found.len()
        invariant
            i <= found@.len(),
            now + 210 <= i64::MAX,
            r@ == presences(found@.take(i as int), limit as int, now as int),
        decreases found@.len() - i,
    {
        let ghost upto = found@.take(i + 1);
        proof {
            assert(upto.drop_last() =~= found@.take(i as int));
            assert(upto.last() == found@[i as int]);
        }
        match &found[i].presence {
            None => {},
            Some(p) => if read(found[i].size, limit).is_ok() && same_text(
                found[i].name.as_str(),
                json_name(p.device.as_str()).as_str(),
            ) && p.verify(now).is_ok() {
                r.push(p.clone());
            },
        }
        i += 1;
    }
    assert(found@.take(found@.len() as int) =~= found@);
    r
}

/// How much the peer has done.
#[derive(Clone, Copy, PartialEq, Eq, Structural, Debug)]
pub struct Counters {
    pub received: u64,
    pub pings: u64,
    pub pongs: u64,
    pub rejected: u64,
}

impl Default for Counters {
    fn default() -> (r: Self)
        ensures
            r.received == 0 && r.pings == 0 && r.pongs == 0 && r.rejected == 0,
    {
        Counters { received: 0, pings: 0, pongs: 0, rejected: 0 }
    }
}

/// What a round of the peer works on, apart from the engine.
pub struct Worker {
    pub engine: Engine,
    pub counters: Counters,
    last_publish: i64,
    last_hello: StringMap<i64>,
    update_attempts: StringMap<i64>,
    pub auto_update: bool,
}

/// The state of a worker: its engine, when it last announced itself, when it
/// last challenged each peer, and when it last tried each release.
pub struct WorkerView {
    pub engine: EngineView,
    pub counters: Counters,
    pub last_publish: i64,
    pub last_hello: Map<Seq<char>, i64>,
    pub update_attempts: Map<Seq<char>, i64>,
    pub auto_update: bool,
}

impl View for Worker {
    type V = WorkerView;

    closed spec fn view(&self) -> WorkerView {
        WorkerView {
            engine: self.engine@,
            counters: self.counters,
            last_publish: self.last_publish,
            last_hello: self.last_hello@,
            update_attempts: self.update_attempts@,
            auto_update: self.auto_update,
        }
    }
}

/// No time that is kept lies before the epoch.
pub open spec fn past_epoch(times: Map<Seq<char>, i64>) -> bool {
    forall|k: Seq<char>| #[trigger] times.contains_key(k) ==> times[k] >= 0
}

/// When something last happened, or the epoch.
pub open spec fn last(times: Map<Seq<char>, i64>, k: Seq<char>) -> int {
    if times.contains_key(k) {
        times[k] as int
    } else {
        0
    }
}

/// A presence announces the device of an engine.
pub open spec fn announced(v: EngineView, now: int, p: Presence) -> bool {
    &&& presents(v.identity, v.session, v.platform, now, p)
    &&& is_valid_id(v.session) ==> presence_stands(v.identity, now, p)
}

/// One presence is taken notice of, unless it is the device's own. Whether the
/// engine takes it makes no difference.
pub open spec fn noticed(a: EngineView, presence: Presence, now: int, b: EngineView) -> bool {
    let id = presence.device@;
    if id == a.identity.device() || discovery_refusal(a, presence, now) is Some
        || !a.trusted.contains(id) {
        b == a
    } else {
        exists|drawn: String|
            is_valid_id(drawn@) && b == #[trigger] discovery(a, presence, drawn, now)
    }
}

/// Presences are taken notice of one after another.
pub open spec fn noticed_all(
    states: Seq<EngineView>,
    list: Seq<Presence>,
    now: int,
) -> bool {
    &&& states.len() == list.len() + 1
    &&& forall|i: int|
        0 <= i < list.len() ==> #[trigger] noticed(states[i], list[i], now, states[i + 1])
}

/// What is to be done about a peer that may have to be challenged.
pub enum Greeting {
    /// Nothing: it is authenticated, or was challenged a moment ago.
    Skip,
    /// No challenge can be made; the attempt counts.
    Silent(PeerError),
    /// The challenge is to be sent; then the attempt counts.
    Send(Envelope),
}

/// A peer is to be challenged: it is not authenticated and was not challenged
/// for twenty seconds.
pub open spec fn greeting_due(w: WorkerView, id: Seq<char>, now: int) -> bool {
    !is_authenticated(w.engine, id, now) && now - last(w.last_hello, id) >= 20
}

/// What is to be done about a message that waits to be sent.
pub enum Outgoing {
    /// It has expired and is to be removed.
    Expired,
    /// Its recipient is not authenticated yet.
    Wait,
    /// It is to be put into the recipient's mailbox and removed.
    Send(Envelope),
    /// It cannot be sent; the round ends.
    Failed(PeerError),
}

/// What the peer reports of another device.
pub struct PeerStatus {
    pub device: String,
    pub trusted: bool,
    pub authenticated: bool,
    pub expires: i64,
}

/// Reports tell of presences whether they are trusted and authenticated.
pub open spec fn reports(
    w: WorkerView,
    trusted: Option<Set<Seq<char>>>,
    p: Presence,
    now: int,
    s: PeerStatus,
) -> bool {
    &&& s.device@ == p.device@
    &&& s.trusted == (trusted matches Some(t) && t.contains(p.device@))
    &&& s.authenticated == is_authenticated(w.engine, p.device@, now)
    &&& s.expires == p.expires
}

/// The model of an optional set.
pub open spec fn set_of(s: Option<StringSet>) -> Option<Set<Seq<char>>> {
    match s {
        Some(t) => Some(t@),
        None => None,
    }
}

/// The presences of other devices.
pub open spec fn others(list: Seq<Presence>, own: Seq<char>) -> Seq<Presence>
    decreases list.len(),
{
    if list.len() == 0 {
        Seq::empty()
    } else if list.last().device@ != own {
        others(list.drop_last(), own).push(list.last())
    } else {
        others(list.drop_last(), own)
    }
}

/// Attempts that are less than an hour old.
pub open spec fn recent(attempts: Map<Seq<char>, i64>, now: int) -> Map<Seq<char>, i64> {
    kept(attempts, |k: Seq<char>, t: i64| now - t < 3600)
}

/// The counters after a message was received.
pub open spec fn counted(c: Counters, message: Message) -> Counters {
    Counters {
        received: (c.received + 1) as u64,
        pings: if message is Ping {
            (c.pings + 1) as u64
        } else {
            c.pings
        },
        pongs: if message is Pong {
            (c.pongs + 1) as u64
        } else {
            c.pongs
        },
        rejected: c.rejected,
    }
}

/// A release notification is to be followed: updates are wanted and the
/// release was not tried for an hour.
pub open spec fn update_due(w: WorkerView, message: Message, now: int) -> bool {
    message matches Message::UpdateAvailable { tag } && w.auto_update && now - last(
        w.update_attempts,
        tag@,
    ) > 3600
}

/// The state in which a round begins, with a set of trusted devices.
pub open spec fn begun(w: WorkerView, trusted: Set<Seq<char>>) -> WorkerView {
    WorkerView {
        engine: EngineView {
            trusted,
            peers: kept(w.engine.peers, |id: Seq<char>, p: Peer| trusted.contains(id)),
            ..w.engine
        },
        ..w
    }
}

/// All presences of a list are taken notice of.
pub open spec fn noticed_through(
    a: EngineView,
    list: Seq<Presence>,
    now: int,
    b: EngineView,
) -> bool {
    exists|states: Seq<EngineView>| #[trigger]
        noticed_all(states, list, now) && states[0] == a && states.last() == b
}

/// What is done about a peer that may have to be challenged.
pub open spec fn greets(w: WorkerView, id: Seq<char>, now: int, r: Greeting) -> bool {
    let hello = Message::Hello { challenge: w.engine.peers[id].challenge };
    match r {
        Greeting::Skip => !greeting_due(w, id, now),
        Greeting::Send(env) => greeting_due(w, id, now) && carries(w.engine, id, hello, env, now),
        Greeting::Silent(e) => greeting_due(w, id, now) && if w.engine.peers.contains_key(id) {
            wrapped(w.engine, id, hello, now, Err::<Envelope, PeerError>(e))
        } else {
            e == PeerError::UnknownPeer
        },
    }
}

/// The state after a peer was challenged or could not be.
pub open spec fn challenged(w: WorkerView, id: Seq<char>, now: i64) -> WorkerView {
    WorkerView { last_hello: w.last_hello.insert(id, now), ..w }
}

/// What receiving an object of the mailbox gives.
pub open spec fn takes_mail(
    a: WorkerView,
    name: Seq<char>,
    size: u64,
    env: Option<Envelope>,
    parsed: Option<Signed>,
    now: int,
    b: WorkerView,
    r: Result<(Message, Option<Envelope>), PeerError>,
) -> bool {
    match mail_refusal(a.engine, name, size, env) {
        Some(e) => r == Err::<(Message, Option<Envelope>), PeerError>(e) && b == a,
        None => {
            &&& b == WorkerView { engine: received(a.engine, env->0, parsed, now), ..a }
            &&& outcome(a.engine, env->0, parsed, now, r)
        },
    }
}

/// A message is counted, and the release that it tells of is to be tried where
/// that is due.
pub open spec fn counts(
    a: WorkerView,
    message: Message,
    now: i64,
    b: WorkerView,
    r: Option<String>,
) -> bool {
    &&& r is Some <==> update_due(a, message, now as int)
    &&& r matches Some(t) ==> message == (Message::UpdateAvailable { tag: t })
    &&& b == WorkerView {
        counters: counted(a.counters, message),
        update_attempts: match r {
            Some(tag) => recent(a.update_attempts, now as int).insert(tag@, now),
            None => a.update_attempts,
        },
        ..a
    }
}

/// The state after an object of the mailbox was refused.
pub open spec fn rejected(w: WorkerView) -> WorkerView {
    WorkerView {
        counters: Counters { rejected: (w.counters.rejected + 1) as u64, ..w.counters },
        ..w
    }
}

/// What is done about a message that waits to be sent.
pub open spec fn sends(a: WorkerView, q: Queued, now: int, b: WorkerView, r: Outgoing) -> bool {
    let after = WorkerView { engine: sent(a.engine, q.to@, q.message, now), ..a };
    if q.expires <= now {
        r is Expired && b == a
    } else if !is_authenticated(a.engine, q.to@, now) {
        r is Wait && b == a
    } else {
        &&& b == after
        &&& match send_refusal(a.engine, q.to@, q.message, now) {
            Some(e) => r == Outgoing::Failed(e),
            None => match r {
                Outgoing::Send(env) => wrapped(a.engine, q.to@, q.message, now, Ok(env)),
                Outgoing::Failed(e) => wrapped(
                    a.engine,
                    q.to@,
                    q.message,
                    now,
                    Err::<Envelope, PeerError>(e),
                ),
                _ => false,
            },
        }
    }
}

/// What is told of the other devices that are announced.
pub open spec fn reported(
    w: WorkerView,
    list: Seq<Presence>,
    trusted: Option<Set<Seq<char>>>,
    now: int,
    r: Seq<PeerStatus>,
) -> bool {
    let told = others(list, w.engine.identity.device());
    &&& r.len() == told.len()
    &&& forall|i: int| 0 <= i < r.len() ==> reports(w, trusted, told[i], now, #[trigger] r[i])
}

impl Worker {
    pub closed spec fn wf(&self) -> bool {
        &&& self.engine.wf()
        &&& self.last_hello.wf()
        &&& self.update_attempts.wf()
        &&& self.last_publish >= 0
        &&& past_epoch(self.last_hello@)
        &&& past_epoch(self.update_attempts@)
    }

    /// A worker that has done nothing yet.
    pub fn new(engine: Engine, auto_update: bool) -> (r: Self)
        requires
            engine.wf(),
        ensures
            r.wf(),
            r@ == (WorkerView {
                engine: engine@,
                counters: r@.counters,
                last_publish: 0,
                last_hello: Map::empty(),
                update_attempts: Map::empty(),
                auto_update,
            }),
            r@.counters.received == 0 && r@.counters.pings == 0 && r@.counters.pongs == 0
                && r@.counters.rejected == 0,
    {
        Worker {
            engine,
            counters: Counters::default(),
            last_publish: 0,
            last_hello: StringMap::new(),
            update_attempts: StringMap::new(),
            auto_update,
        }
    }

    /// Begins a round: takes over the set of trusted devices, and gives the
    /// presence to publish where the last was published half a minute ago.
    pub fn begin(&mut self, trusted: StringSet, now: i64) -> (r: Option<Presence>)
        requires
            old(self).wf(),
            trusted.wf(),
            0 <= now,
            now + 210 <= i64::MAX,
        ensures
            final(self).wf(),
            final(self)@ == begun(old(self)@, trusted@),
            r is Some <==> now - old(self)@.last_publish >= 30,
            r matches Some(p) ==> announced(old(self)@.engine, now as int, p),
    {
        self.engine.trust(trusted);
        if now - self.last_publish >= 30 {
            Some(self.engine.presence(now))
        } else {
            None
        }
    }

    /// The presence has been published.
    pub fn published(&mut self, now: i64)
        requires
            old(self).wf(),
            0 <= now,
        ensures
            final(self).wf(),
            final(self)@ == (WorkerView { last_publish: now, ..old(self)@ }),
    {
        self.last_publish = now;
    }

    /// Takes notice of the devices that are announced.
    pub fn discovered(&mut self, list: &Vec<Presence>, now: i64)
        requires
            old(self).wf(),
            now + 210 <= i64::MAX,
        ensures
            final(self).wf(),
            final(self)@ == (WorkerView { engine: final(self)@.engine, ..old(self)@ }),
            noticed_through(old(self)@.engine, list@, now as int, final(self)@.engine),
    {
        let ghost mut states = seq![self.engine@];
        let mut i: usize = 0;
        while i < list.len()
            invariant
                i <= list@.len(),
                self.wf(),
                now + 210 <= i64::MAX,
                self@ == (WorkerView { engine: self@.engine, ..old(self)@ }),
                noticed_all(states, list@.take(i as int), now as int),
                states[0] == old(self)@.engine,
                states.last() == self@.engine,
            decreases list@.len() - i,
        {
            let ghost before = self.engine@;
            let own = self.engine.id();
            if !same_text(list[i].device.as_str(), own.as_str()) {
                let _ = self.engine.discover(list[i].clone(), now);
            }
            proof {
                let grown = states.push(self.engine@);
                assert(noticed(before, list@[i as int], now as int, self.engine@));
                assert forall|j: int| 0 <= j < i + 1 implies #[trigger] noticed(
                    grown[j],
                    list@.take(i + 1)[j],
                    now as int,
                    grown[j + 1],
                ) by {
                    if j < i {
                        assert(noticed(
                            states[j],
                            list@.take(i as int)[j],
                            now as int,
                            states[j + 1],
                        ));
                    }
                }
                states = grown;
            }
            i += 1;
        }
        proof {
            assert(list@.take(list@.len() as int) =~= list@);
            assert(noticed_all(states, list@, now as int));
        }
    }

    /// What is to be done about a peer that may have to be challenged.
    pub fn greet(&mut self, id: &str, now: i64) -> (r: Greeting)
        requires
            old(self).wf(),
            0 <= now,
            now + 210 <= i64::MAX,
        ensures
            final(self).wf(),
            final(self)@ == old(self)@,
            greets(old(self)@, id@, now as int, r),
    {
        if self.engine.authenticated(id, now) {
            return Greeting::Skip;
        }
        let before: i64 = match self.last_hello.get(id) {
            Some(t) => *t,
            None => 0,
        };
        if !(now - before >= 20) {
            return Greeting::Skip;
        }
        match self.engine.hello(id, now) {
            Ok(env) => Greeting::Send(env),
            Err(e) => Greeting::Silent(e),
        }
    }

    /// A challenge was sent or could not be made.
    pub fn greeted(&mut self, id: &str, now: i64)
        requires
            old(self).wf(),
            0 <= now,
        ensures
            final(self).wf(),
            final(self)@ == challenged(old(self)@, id@, now),
    {
        self.last_hello.insert(id.to_owned(), now);
    }

    /// The largest object that is taken.
    pub fn limit(&self) -> (r: usize)
        ensures
            r == self@.engine.limit,
    {
        self.engine.limit()
    }

    /// The known peers in order.
    pub fn peer_ids(&self) -> (r: Vec<String>)
        requires
            self.wf(),
        ensures
            peers_listed(self@.engine, r@),
    {
        self.engine.peer_ids()
    }

    /// The text that an envelope held.
    pub fn open(&self, env: &Envelope, now: i64) -> (r: Result<Vec<u8>, PeerError>)
        requires
            self.wf(),
            now + 210 <= i64::MAX,
        ensures
            match r {
                Ok(text) => opening(self@.engine, *env, now as int) == Ok::<Seq<u8>, PeerError>(
                    text@,
                ),
                Err(e) => opening(self@.engine, *env, now as int) == Err::<Seq<u8>, PeerError>(e),
            },
    {
        self.engine.open(env, now)
    }

    /// The name of the device's own mailbox.
    pub fn bucket(&self) -> (r: String)
        ensures
            r@ == "in-"@ + self@.engine.identity.device(),
    {
        let id = self.engine.id();
        joined("in-", id.as_str())
    }

    /// Receives an object of the mailbox: an envelope that has the object's
    /// name, whose text was read as `parsed`. What is no envelope is refused.
    pub fn incoming(
        &mut self,
        name: &str,
        size: u64,
        env: &Option<Envelope>,
        parsed: &Option<Signed>,
        now: i64,
    ) -> (r: Result<(Message, Option<Envelope>), PeerError>)
        requires
            old(self).wf(),
            now + 210 <= i64::MAX,
        ensures
            final(self).wf(),
            takes_mail(old(self)@, name@, size, *env, *parsed, now as int, final(self)@, r),
    {
        match read(size, self.engine.limit()) {
            Ok(_) => {},
            Err(e) => return Err(e),
        }
        let env = match env {
            Some(env) => env,
            None => return Err(PeerError::Malformed),
        };
        if !same_text(name, json_name(env.header.id.as_str()).as_str()) {
            return Err(PeerError::MailName);
        }
        self.engine.receive(env, parsed, now)
    }

    /// A message was received and answered: counts it, and gives the tag of a
    /// release that is to be tried, at most once an hour.
    pub fn count(&mut self, message: &Message, now: i64) -> (r: Option<String>)
        requires
            old(self).wf(),
            0 <= now,
            now + 210 <= i64::MAX,
            old(self)@.counters.received < u64::MAX,
            old(self)@.counters.pings < u64::MAX,
            old(self)@.counters.pongs < u64::MAX,
        ensures
            final(self).wf(),
            counts(old(self)@, *message, now, final(self)@, r),
    {
        self.counters.received = self.counters.received + 1;
        match message {
            Message::Ping { .. } => {
                self.counters.pings = self.counters.pings + 1;
                None
            },
            Message::Pong { .. } => {
                self.counters.pongs = self.counters.pongs + 1;
                None
            },
            Message::UpdateAvailable { tag } => {
                let before: i64 = match self.update_attempts.get(tag.as_str()) {
                    Some(t) => *t,
                    None => 0,
                };
                if !(self.auto_update && now - before > 3600) {
                    return None;
                }
                let ghost p = |k: Seq<char>, t: i64| now as int - t < 3600;
                let keep = |k: &String, t: &i64| -> (b: bool)
                    ensures
                        b == (now as int - *t < 3600),
                    { *t > now - 3600 };
                self.update_attempts.retain(keep, Ghost(p));
                assert(self.update_attempts@ =~= recent(
                    old(self)@.update_attempts,
                    now as int,
                ));
                self.update_attempts.insert(tag.clone(), now);
                Some(tag.clone())
            },
            _ => None,
        }
    }

    /// An object of the mailbox was refused.
    pub fn reject(&mut self)
        requires
            old(self).wf(),
            old(self)@.counters.rejected < u64::MAX,
        ensures
            final(self).wf(),
            final(self)@ == rejected(old(self)@),
    {
        self.counters.rejected = self.counters.rejected + 1;
    }

    /// What is to be done about a message that waits to be sent.
    pub fn outgoing(&mut self, q: &Queued, now: i64) -> (r: Outgoing)
        requires
            old(self).wf(),
            now + 210 <= i64::MAX,
        ensures
            final(self).wf(),
            sends(old(self)@, *q, now as int, final(self)@, r),
    {
        if q.expires <= now {
            return Outgoing::Expired;
        }
        if !self.engine.authenticated(q.to.as_str(), now) {
            return Outgoing::Wait;
        }
        match self.engine.send(q.to.as_str(), &q.message, now) {
            Ok(env) => Outgoing::Send(env),
            Err(e) => Outgoing::Failed(e),
        }
    }

    /// What the peer reports of the other devices that are announced.
    pub fn report(&self, list: &Vec<Presence>, trusted: &Option<StringSet>, now: i64) -> (r: Vec<
        PeerStatus,
    >)
        requires
            self.wf(),
            *trusted matches Some(t) ==> t.wf(),
            now + 210 <= i64::MAX,
        ensures
            reported(self@, list@, set_of(*trusted), now as int, r@),
    {
        let own = self.engine.id();
        let ghost set = set_of(*trusted);
        let mut r: Vec<PeerStatus> = Vec::new();
        let mut i: usize = 0;
        while i < list.len()
            invariant
                i <= list@.len(),
                self.wf(),
                *trusted matches Some(t) ==> t.wf(),
                now + 210 <= i64::MAX,
                own@ == self@.engine.identity.device(),
                set == set_of(*trusted),
                r@.len() == others(list@.take(i as int), own@).len(),
                forall|j: int|
                    0 <= j < r@.len() ==> reports(
                        self@,
                        set,
                        others(list@.take(i as int), own@)[j],
                        now as int,
                        #[trigger] r@[j],
                    ),
            decreases list@.len() - i,
        {
            let ghost upto = list@.take(i + 1);
            proof {
                assert(upto.drop_last() =~= list@.take(i as int));
                assert(upto.last() == list@[i as int]);
            }
            let p = &list[i];
            if !same_text(p.device.as_str(), own.as_str()) {
                let known = match trusted {
                    Some(t) => t.contains(p.device.as_str()),
                    None => false,
                };
                let status = PeerStatus {
                    device: p.device.clone(),
                    trusted: known,
                    authenticated: self.engine.authenticated(p.device.as_str(), now),
                    expires: p.expires,
                };
                r.push(status);
            }
            i += 1;
        }
        assert(list@.take(list@.len() as int) =~= list@);
        r
    }
}

/// Discovery is not trust: whatever devices are announced, the trusted ones stay
/// the same, no other becomes a peer, and none is authenticated by it.
pub proof fn lemma_discovery_is_not_trust(
    a: EngineView,
    list: Seq<Presence>,
    now: int,
    b: EngineView,
)
    requires
        noticed_through(a, list, now, b),
    ensures
        b.trusted == a.trusted,
        forall|id: Seq<char>| #[trigger]
            b.peers.contains_key(id) ==> a.peers.contains_key(id) || a.trusted.contains(id),
        forall|id: Seq<char>|
            b.peers.contains_key(id) && (#[trigger] b.peers[id]).authenticated
                ==> a.peers.contains_key(id) && a.peers[id].authenticated,
    decreases list.len(),
{
    let states = choose|states: Seq<EngineView>| #[trigger]
        noticed_all(states, list, now) && states[0] == a && states.last() == b;
    if list.len() > 0 {
        let n = list.len() - 1;
        let mid = states[n as int];
        let before = states.drop_last();
        assert forall|i: int| 0 <= i < list.drop_last().len() implies #[trigger] noticed(
            before[i],
            list.drop_last()[i],
            now,
            before[i + 1],
        ) by {
            assert(noticed(states[i], list[i], now, states[i + 1]));
        }
        assert(noticed_all(before, list.drop_last(), now));
        assert(noticed_through(a, list.drop_last(), now, mid));
        lemma_discovery_is_not_trust(a, list.drop_last(), now, mid);
        assert(noticed(mid, list[n as int], now, b));
    }
}

/// Why an object of the mailbox is no envelope to be received, if it is not.
pub open spec fn mail_refusal(
    v: EngineView,
    name: Seq<char>,
    size: u64,
    env: Option<Envelope>,
) -> Option<PeerError> {
    if size > v.limit {
        Some(PeerError::TooLarge)
    } else {
        match env {
            None => Some(PeerError::Malformed),
            Some(env) => if name != env.header.id@ + ".json"@ {
                Some(PeerError::MailName)
            } else {
                None
            },
        }
    }
}

/// Where an envelope is put: the mailbox of its recipient, under its own
/// identifier.
pub fn put(env: &Envelope) -> (r: (String, String))
    ensures
        r.0@ == "in-"@ + env.header.to@,
        r.1@ == env.header.id@ + ".json"@,
{
    (joined("in-", env.header.to.as_str()), json_name(env.header.id.as_str()))
}

/// What a worker does after a round: it ends with the code that asks for a
/// restart when an update was staged, and goes on in every other case.
pub fn worker(round: Option<bool>) -> (r: Option<i32>)
    ensures
        r == if round == Some(true) {
            Some(75i32)
        } else {
            None
        },
{
    match round {
        Some(true) => Some(75),
        _ => None,
    }
}

/// What the supervisor is about.
#[derive(Clone, Copy, PartialEq, Eq, Structural, Debug)]
pub enum Supervision {
    /// A pending update is being activated.
    Activating,
    /// The active executable is being looked for; `again` after going back.
    Locating { again: bool },
    /// Going back because no executable was found.
    Recovering,
    /// The worker is being started; `first` says that it is the first
    /// executable, which no update installed.
    Starting { first: bool },
    /// A worker that did not start in time is being killed.
    Killing { first: bool },
    /// The worker runs.
    Running { first: bool },
    /// Going back because the worker of an update failed.
    Retreating,
    /// The end.
    Ended,
}

/// What happened.
#[derive(Clone, Copy, PartialEq, Eq, Structural, Debug)]
pub enum Occurrence {
    /// The activation has ended, well or badly.
    Activated,
    /// An executable was found.
    Located { first: bool },
    /// No executable was found.
    NotLocated,
    /// The previous version is the active one again.
    WentBack,
    /// The worker was looked at after some nanoseconds.
    Polled { ready: bool, exited: bool, elapsed: u64 },
    /// The worker was killed.
    Killed,
    /// The worker has ended after some nanoseconds.
    Exited { restart: bool, success: bool, elapsed: u64 },
}

/// What is to be done.
#[derive(Clone, Copy, PartialEq, Eq, Structural, Debug)]
pub enum Order {
    Activate,
    Locate,
    GoBack,
    Start,
    Poll,
    Kill,
    Wait,
    Finish,
    Fail(PeerError),
    /// Nothing: what happened does not belong here.
    Nothing,
}

/// How long a worker may take to start, and how long it must run not to count
/// as broken, in nanoseconds.
pub const STARTUP: u64 = 30_000_000_000;

/// What follows a failed start.
pub open spec fn startup_failed(first: bool) -> (Supervision, Order) {
    if first {
        (Supervision::Ended, Order::Fail(PeerError::StartupFailed))
    } else {
        (Supervision::Retreating, Order::GoBack)
    }
}

impl Supervision {
    pub open spec fn followed(self, o: Occurrence) -> (Supervision, Order) {
        match (self, o) {
            (Supervision::Activating, Occurrence::Activated) => (
                Supervision::Locating { again: false },
                Order::Locate,
            ),
            (Supervision::Locating { again }, Occurrence::Located { first }) => (
                Supervision::Starting { first },
                Order::Start,
            ),
            (Supervision::Locating { again }, Occurrence::NotLocated) => if again {
                (Supervision::Ended, Order::Fail(PeerError::Unreadable))
            } else {
                (Supervision::Recovering, Order::GoBack)
            },
            (Supervision::Recovering, Occurrence::WentBack) => (
                Supervision::Locating { again: true },
                Order::Locate,
            ),
            (Supervision::Starting { first }, Occurrence::Polled { ready, exited, elapsed }) => if ready {
                (Supervision::Running { first }, Order::Wait)
            } else if exited {
                startup_failed(first)
            } else if elapsed > STARTUP {
                (Supervision::Killing { first }, Order::Kill)
            } else {
                (self, Order::Poll)
            },
            (Supervision::Killing { first }, Occurrence::Killed) => startup_failed(first),
            (Supervision::Running { first }, Occurrence::Exited { restart, success, elapsed }) => if restart {
                (Supervision::Activating, Order::Activate)
            } else if !success && elapsed < STARTUP && !first {
                (Supervision::Retreating, Order::GoBack)
            } else if success {
                (Supervision::Ended, Order::Finish)
            } else {
                (Supervision::Ended, Order::Fail(PeerError::WorkerStopped))
            },
            (Supervision::Retreating, Occurrence::WentBack) => (
                Supervision::Activating,
                Order::Activate,
            ),
            _ => (self, Order::Nothing),
        }
    }
}

/// The next step of the supervisor, which begins by activating a pending
/// update.
pub fn supervise(s: Supervision, o: Occurrence) -> (r: (Supervision, Order))
    ensures
        r == s.followed(o),
{
    match (s, o) {
        (Supervision::Activating, Occurrence::Activated) => (
            Supervision::Locating { again: false },
            Order::Locate,
        ),
        (Supervision::Locating { .. }, Occurrence::Located { first }) => (
            Supervision::Starting { first },
            Order::Start,
        ),
        (Supervision::Locating { again }, Occurrence::NotLocated) => if again {
            (Supervision::Ended, Order::Fail(PeerError::Unreadable))
        } else {
            (Supervision::Recovering, Order::GoBack)
        },
        (Supervision::Recovering, Occurrence::WentBack) => (
            Supervision::Locating { again: true },
            Order::Locate,
        ),
        (Supervision::Starting { first }, Occurrence::Polled { ready, exited, elapsed }) => if ready {
            (Supervision::Running { first }, Order::Wait)
        } else if exited {
            fail_startup(first)
        } else if elapsed > STARTUP {
            (Supervision::Killing { first }, Order::Kill)
        } else {
            (s, Order::Poll)
        },
        (Supervision::Killing { first }, Occurrence::Killed) => fail_startup(first),
        (Supervision::Running { first }, Occurrence::Exited { restart, success, elapsed }) => if restart {
            (Supervision::Activating, Order::Activate)
        } else if !success && elapsed < STARTUP && !first {
            (Supervision::Retreating, Order::GoBack)
        } else if success {
            (Supervision::Ended, Order::Finish)
        } else {
            (Supervision::Ended, Order::Fail(PeerError::WorkerStopped))
        },
        (Supervision::Retreating, Occurrence::WentBack) => (
            Supervision::Activating,
            Order::Activate,
        ),
        _ => (s, Order::Nothing),
    }
}

fn fail_startup(first: bool) -> (r: (Supervision, Order))
    ensures
        r == startup_failed(first),
{
    if first {
        (Supervision::Ended, Order::Fail(PeerError::StartupFailed))
    } else {
        (Supervision::Retreating, Order::GoBack)
    }
}

/// A worker whose update fails to start, or fails within half a minute, is
/// followed by going back; one of the first executable never is.
pub proof fn lemma_broken_update_goes_back(s: Supervision, o: Occurrence)
    ensures
        (s matches Supervision::Starting { first } && first) || (s matches Supervision::Running {
            first,
        } && first) ==> s.followed(o).1 != Order::GoBack,
        s matches Supervision::Starting { first } && !first && (o matches Occurrence::Polled {
            ready,
            exited,
            elapsed,
        } && !ready && exited) ==> s.followed(o).1 == Order::GoBack,
        s matches Supervision::Running { first } && !first && (o matches Occurrence::Exited {
            restart,
            success,
            elapsed,
        } && !restart && !success && elapsed < STARTUP) ==> s.followed(o).1 == Order::GoBack,
{
}

/// The devices and the envelope of a self test.
pub struct SelfTest {
    pub sender: Presence,
    pub envelope: Envelope,
}

/// What the first half of a self test gives with two devices, a session and
/// random choices: a message that is sealed for the second device and opened
/// there.
pub open spec fn self_tested(
    a: Identity,
    b: Identity,
    session: Seq<char>,
    chance: Chance,
    limit: nat,
    platform: Seq<char>,
    r: Result<(SelfTest, Vec<u8>), PeerError>,
) -> bool {
    exists|sender: Presence, peer: Presence, env: Result<Envelope, PeerError>|
        {
            &&& #[trigger] presents(a, session, platform, 1000, sender)
            &&& presents(b, session, platform, 1000, peer)
            &&& #[trigger] sealed(a, session, peer, Message::StatusRequest, 1000, chance, env)
            &&& match env {
                Err(e) => r == Err::<(SelfTest, Vec<u8>), PeerError>(e),
                Ok(env) => match opened(b, session, sender, env, 1000, limit) {
                    Err(e) => r == Err::<(SelfTest, Vec<u8>), PeerError>(e),
                    Ok(text) => r matches Ok((test, t)) && test == (SelfTest {
                        sender,
                        envelope: env,
                    }) && t@ == text,
                },
            }
        }
}

impl SelfTest {
    /// Seals a message from one device to another and opens it there. The
    /// result holds the text that was opened.
    pub fn between(
        a: &Identity,
        b: &Identity,
        session: &str,
        chance: &Chance,
        limit: usize,
        platform: &str,
    ) -> (r: Result<(SelfTest, Vec<u8>), PeerError>)
        ensures
            self_tested(*a, *b, session@, *chance, limit as nat, platform@, r),
            r matches Ok((test, text)) ==> text@ == encode_utf8(
                signed_text(
                    Message::StatusRequest,
                    hex_of(message_signature(*a, test.envelope.header, Message::StatusRequest)),
                ),
            ),
    {
        let peer = b.presence(session, 1000, platform);
        let sender = a.presence(session, 1000, platform);
        let out = seal_with(a, session, &peer, &Message::StatusRequest, 1000, chance);
        let ghost env = out;
        assert(sealed(*a, session@, peer, Message::StatusRequest, 1000, *chance, env));
        let envelope = match out {
            Ok(e) => e,
            Err(e) => return Err(e),
        };
        proof {
            lemma_unhex_hex(x25519_public_of(b.agreement_secret()));
        }
        match super::crypto::open(b, session, &sender, &envelope, 1000, limit) {
            Ok(text) => Ok((SelfTest { sender, envelope }, text)),
            Err(e) => Err(e),
        }
    }

    /// Seals a message from one new device to another and opens it there. The
    /// result holds the text that was opened.
    pub fn begin(limit: usize, platform: &str) -> (r: Result<(SelfTest, Vec<u8>), PeerError>)
        ensures
            exists|a: Identity, b: Identity, session: Seq<char>, chance: Chance| #[trigger]
                self_tested(a, b, session, chance, limit as nat, platform@, r) && is_valid_id(
                    session,
                ),
    {
        let a = Identity::generate();
        let b = Identity::generate();
        let session = nonce();
        let chance = super::crypto::chance();
        let r = SelfTest::between(&a, &b, session.as_str(), &chance, limit, platform);
        assert(self_tested(a, b, session@, chance, limit as nat, platform@, r));
        r
    }

    /// Whether the text was read as the message that was sent, with a signature
    /// of the sender.
    pub fn finish(&self, parsed: &Option<Signed>) -> (r: Result<(), PeerError>)
        ensures
            r == match *parsed {
                None => Err(PeerError::Malformed),
                Some(s) => match super::identity::signature_check(
                    self.sender.signing@,
                    encode_utf8(self.envelope.header.signing_text(s.message)),
                    s.signature@,
                ) {
                    Err(e) => Err(e),
                    Ok(_) => if s.message is StatusRequest {
                        Ok(())
                    } else {
                        Err(PeerError::SelfTest)
                    },
                },
            },
    {
        match parsed {
            None => Err(PeerError::Malformed),
            Some(s) => match super::crypto::accept(&self.sender, &self.envelope.header, s) {
                Err(e) => Err(e),
                Ok(_) => match &s.message {
                    Message::StatusRequest => Ok(()),
                    _ => Err(PeerError::SelfTest),
                },
            },
        }
    }
}

} // verus!
