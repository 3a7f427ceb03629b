//! The control protocol: the messages between devices and the engine that
//! authenticates peers, answers them and refuses replays.

use super::crypto::{
    accept, delivers, message_signature, open, opened, seal, seal_failure, Envelope, Signed,
};
use super::identity::{
    is_valid_id, key_of, nonce, presence_stands, presents, signature_check, valid_id, Identity,
    Presence,
};
use super::primitives::{hex_of, neutral_point, x25519_public_of};
use super::update::{is_tag, validate_tag};
use super::version::Version;
use super::{PeerError, VERSION};
use crate::json::{Json, ObjectText};
use crate::ordered::{kept, StringMap, StringSet};
use crate::text::same_text;
use vstd::prelude::*;
use vstd::utf8::encode_utf8;

verus! {

/// What one device tells another.
#[derive(Debug, PartialEq)]
pub enum Message {
    Hello { challenge: String },
    HelloAck { challenge: String },
    Ping { nonce: String },
    Pong { nonce: String },
    StatusRequest,
    Status { version: String, platform: String, selected_roots: usize },
    UpdateAvailable { tag: String },
}

impl Clone for Message {
    fn clone(&self) -> (r: Self)
        ensures
            r == *self,
    {
        match self {
            Message::Hello { challenge } => Message::Hello { challenge: challenge.clone() },
            Message::HelloAck { challenge } => Message::HelloAck { challenge: challenge.clone() },
            Message::Ping { nonce } => Message::Ping { nonce: nonce.clone() },
            Message::Pong { nonce } => Message::Pong { nonce: nonce.clone() },
            Message::StatusRequest => Message::StatusRequest,
            Message::Status { version, platform, selected_roots } => Message::Status {
                version: version.clone(),
                platform: platform.clone(),
                selected_roots: *selected_roots,
            },
            Message::UpdateAvailable { tag } => Message::UpdateAvailable { tag: tag.clone() },
        }
    }
}

/// Two messages say the same.
pub open spec fn same_message(a: Message, b: Message) -> bool {
    match (a, b) {
        (Message::Hello { challenge: x }, Message::Hello { challenge: y }) => x@ == y@,
        (Message::HelloAck { challenge: x }, Message::HelloAck { challenge: y }) => x@ == y@,
        (Message::Ping { nonce: x }, Message::Ping { nonce: y }) => x@ == y@,
        (Message::Pong { nonce: x }, Message::Pong { nonce: y }) => x@ == y@,
        (Message::StatusRequest, Message::StatusRequest) => true,
        (
            Message::Status { version: v, platform: p, selected_roots: n },
            Message::Status { version: w, platform: q, selected_roots: m },
        ) => v@ == w@ && p@ == q@ && n == m,
        (Message::UpdateAvailable { tag: x }, Message::UpdateAvailable { tag: y }) => x@ == y@,
        _ => false,
    }
}

impl Message {
    /// The message as it is sent.
    pub open spec fn json(&self) -> Json {
        Json::Object(
            match *self {
                Message::Hello { challenge } => seq![
                    ("type"@, Json::Text("hello"@)),
                    ("challenge"@, Json::Text(challenge@)),
                ],
                Message::HelloAck { challenge } => seq![
                    ("type"@, Json::Text("hello_ack"@)),
                    ("challenge"@, Json::Text(challenge@)),
                ],
                Message::Ping { nonce } => seq![
                    ("type"@, Json::Text("ping"@)),
                    ("nonce"@, Json::Text(nonce@)),
                ],
                Message::Pong { nonce } => seq![
                    ("type"@, Json::Text("pong"@)),
                    ("nonce"@, Json::Text(nonce@)),
                ],
                Message::StatusRequest => seq![("type"@, Json::Text("status_request"@))],
                Message::Status { version, platform, selected_roots } => seq![
                    ("type"@, Json::Text("status"@)),
                    ("version"@, Json::Text(version@)),
                    ("platform"@, Json::Text(platform@)),
                    ("selected_roots"@, Json::Number(selected_roots as int)),
                ],
                Message::UpdateAvailable { tag } => seq![
                    ("type"@, Json::Text("update_available"@)),
                    ("tag"@, Json::Text(tag@)),
                ],
            },
        )
    }

    /// The text of the message as it is sent.
    pub fn to_json(&self) -> (r: String)
        ensures
            r@ == crate::json::json_of(self.json()),
    {
        let mut o = ObjectText::new();
        match self {
            Message::Hello { challenge } => {
                o.string("type", "hello");
                o.string("challenge", challenge.as_str());
            },
            Message::HelloAck { challenge } => {
                o.string("type", "hello_ack");
                o.string("challenge", challenge.as_str());
            },
            Message::Ping { nonce } => {
                o.string("type", "ping");
                o.string("nonce", nonce.as_str());
            },
            Message::Pong { nonce } => {
                o.string("type", "pong");
                o.string("nonce", nonce.as_str());
            },
            Message::StatusRequest => {
                o.string("type", "status_request");
            },
            Message::Status { version, platform, selected_roots } => {
                o.string("type", "status");
                o.string("version", version.as_str());
                o.string("platform", platform.as_str());
                o.unsigned("selected_roots", *selected_roots as u64);
            },
            Message::UpdateAvailable { tag } => {
                o.string("type", "update_available");
                o.string("tag", tag.as_str());
            },
        }
        proof {
            assert(o.fields() =~= self.json()->Object_0);
        }
        o.finish()
    }
}

/// Different messages are sent as different values.
pub proof fn lemma_message_json_injective(a: Message, b: Message)
    requires
        a.json() == b.json(),
    ensures
        same_message(a, b),
{
    reveal_strlit("hello");
    reveal_strlit("hello_ack");
    reveal_strlit("ping");
    reveal_strlit("pong");
    reveal_strlit("status_request");
    reveal_strlit("status");
    reveal_strlit("update_available");
    let f = a.json()->Object_0;
    let g = b.json()->Object_0;
    assert(f[0] == g[0]);
    let s = f[0].1->Text_0;
    let t = g[0].1->Text_0;
    assert(s == t);
    assert(s.len() == t.len() && s[1] == t[1]);
    if f.len() > 1 {
        assert(f[1] == g[1]);
    }
    if f.len() > 2 {
        assert(f[2] == g[2]);
        assert(f[3] == g[3]);
    }
}

/// What the engine knows of a peer: its latest presence, the challenge that it
/// has to answer, and whether it has.
#[derive(Debug)]
pub struct Peer {
    pub presence: Option<Presence>,
    pub challenge: String,
    pub authenticated: bool,
}

impl View for Peer {
    type V = Peer;

    open spec fn view(&self) -> Peer {
        *self
    }
}

impl Clone for Peer {
    fn clone(&self) -> (r: Self)
        ensures
            r == *self,
    {
        Peer {
            presence: match &self.presence {
                Some(p) => Some(p.clone()),
                None => None,
            },
            challenge: self.challenge.clone(),
            authenticated: self.authenticated,
        }
    }
}

/// The engine of a device in one session.
pub struct Engine {
    pub identity: Identity,
    pub session: String,
    trusted: StringSet,
    peers: StringMap<Peer>,
    seen: StringMap<i64>,
    pings: StringMap<(String, i64)>,
    pub selected_roots: usize,
    pub limit: usize,
    pub platform: String,
}

/// The state of an engine: the devices that are trusted, the peers among them
/// that were discovered, the messages that were received with the times at
/// which they expire, and the outstanding pings with the peers they went to.
pub struct EngineView {
    pub identity: Identity,
    pub session: Seq<char>,
    pub trusted: Set<Seq<char>>,
    pub peers: Map<Seq<char>, Peer>,
    pub seen: Map<Seq<char>, i64>,
    pub pings: Map<Seq<char>, (Seq<char>, i64)>,
    pub selected_roots: usize,
    pub limit: usize,
    pub platform: Seq<char>,
}

impl View for Engine {
    type V = EngineView;

    closed spec fn view(&self) -> EngineView {
        EngineView {
            identity: self.identity,
            session: self.session@,
            trusted: self.trusted@,
            peers: self.peers@,
            seen: self.seen@,
            pings: self.pings@,
            selected_roots: self.selected_roots,
            limit: self.limit,
            platform: self.platform@,
        }
    }
}

/// The presence of a peer.
pub open spec fn presence_of(v: EngineView, id: Seq<char>) -> Option<Presence> {
    if v.peers.contains_key(id) {
        v.peers[id].presence
    } else {
        None
    }
}

/// A peer has answered its challenge and its presence is valid.
pub open spec fn is_authenticated(v: EngineView, id: Seq<char>, now: int) -> bool {
    &&& v.peers.contains_key(id)
    &&& v.peers[id].authenticated
    &&& v.peers[id].presence matches Some(p) && p.check(now) is Ok
}

/// What was received and has not expired.
pub open spec fn unexpired(seen: Map<Seq<char>, i64>, now: int) -> Map<Seq<char>, i64> {
    kept(seen, |k: Seq<char>, expires: i64| expires > now)
}

/// The pings that have not expired.
pub open spec fn outstanding(pings: Map<Seq<char>, (Seq<char>, i64)>, now: int) -> Map<
    Seq<char>,
    (Seq<char>, i64),
> {
    kept(pings, |k: Seq<char>, ping: (Seq<char>, i64)| ping.1 > now)
}

/// A known peer announces another session or key than it did.
pub open spec fn renewed(v: EngineView, presence: Presence) -> bool {
    match presence_of(v, presence.device@) {
        None => true,
        Some(p) => p.session@ != presence.session@ || p.encryption@ != presence.encryption@,
    }
}

/// Why a presence is not taken, if it is not.
pub open spec fn discovery_refusal(v: EngineView, presence: Presence, now: int) -> Option<
    PeerError,
> {
    if presence.check(now) is Err {
        Some(presence.check(now)->Err_0)
    } else if presence.device@ == v.identity.device() {
        Some(PeerError::SelfPresence)
    } else if !v.trusted.contains(presence.device@) {
        None
    } else if v.peers.dom().len() >= 64 && !v.peers.contains_key(presence.device@) {
        Some(PeerError::PeerLimit)
    } else {
        None
    }
}

/// The state after a presence was taken notice of. `drawn` is the challenge of
/// a peer that is new, begins a session or changes its key; any other peer keeps
/// its challenge and stays authenticated if it was.
pub open spec fn discovery(v: EngineView, presence: Presence, drawn: String, now: int) -> EngineView {
    let id = presence.device@;
    if discovery_refusal(v, presence, now) is Some || !v.trusted.contains(id) {
        v
    } else {
        let peer = if renewed(v, presence) {
            Peer { presence: Some(presence), challenge: drawn, authenticated: false }
        } else {
            Peer { presence: Some(presence), ..v.peers[id] }
        };
        EngineView { peers: v.peers.insert(id, peer), ..v }
    }
}

/// Why a received envelope is refused before it is looked up among the
/// messages that were received, if it is.
pub open spec fn envelope_refusal(
    v: EngineView,
    env: Envelope,
    parsed: Option<Signed>,
    now: int,
) -> Option<PeerError> {
    match presence_of(v, env.header.from@) {
        None => Some(PeerError::UntrustedSender),
        Some(p) => if p.check(now) is Err {
            Some(p.check(now)->Err_0)
        } else {
            match opened(v.identity, v.session, p, env, now, v.limit as nat) {
                Err(e) => Some(e),
                Ok(_) => match parsed {
                    None => Some(PeerError::Malformed),
                    Some(s) => match signature_check(
                        p.signing@,
                        encode_utf8(env.header.signing_text(s.message)),
                        s.signature@,
                    ) {
                        Err(e) => Some(e),
                        Ok(_) => None,
                    },
                },
            }
        },
    }
}

/// Why a message from a peer is refused for what it says, if it is.
pub open spec fn message_refusal(
    v: EngineView,
    id: Seq<char>,
    message: Message,
    now: int,
) -> Option<PeerError> {
    match message {
        Message::Hello { challenge } => if is_valid_id(challenge@) {
            None
        } else {
            Some(PeerError::Challenge)
        },
        Message::HelloAck { challenge } => if v.peers[id].challenge@.len() > 0 && challenge@
            == v.peers[id].challenge@ {
            None
        } else {
            Some(PeerError::ChallengeMismatch)
        },
        _ => if !is_authenticated(v, id, now) {
            Some(PeerError::BeforeHandshake)
        } else {
            match message {
                Message::Ping { nonce } => if is_valid_id(nonce@) {
                    None
                } else {
                    Some(PeerError::BadPing)
                },
                Message::Pong { nonce } => if v.pings.contains_key(nonce@) && v.pings[nonce@].0
                    == id && v.pings[nonce@].1 > now {
                    None
                } else {
                    Some(PeerError::UnsolicitedPong)
                },
                Message::Status { version, platform, selected_roots } => if encode_utf8(
                    version@,
                ).len() <= 40 && encode_utf8(platform@).len() <= 40 && selected_roots <= 1024 {
                    None
                } else {
                    Some(PeerError::BadStatus)
                },
                Message::UpdateAvailable { tag } => if exists|w: Version| is_tag(tag@, w) {
                    None
                } else {
                    Some(PeerError::Tag)
                },
                _ => None,
            }
        },
    }
}

/// Why a received envelope is refused, if it is.
pub open spec fn refusal(v: EngineView, env: Envelope, parsed: Option<Signed>, now: int) -> Option<
    PeerError,
> {
    if envelope_refusal(v, env, parsed, now) is Some {
        envelope_refusal(v, env, parsed, now)
    } else if unexpired(v.seen, now).contains_key(env.header.id@) {
        Some(PeerError::Replayed)
    } else if unexpired(v.seen, now).dom().len() >= 2048 {
        Some(PeerError::ReplayWindow)
    } else {
        message_refusal(v, env.header.from@, parsed->0.message, now)
    }
}

/// What an envelope holds for this engine: it must come from a peer whose
/// presence is valid, on its way to this device and session, and timely.
pub open spec fn opening(v: EngineView, env: Envelope, now: int) -> Result<Seq<u8>, PeerError> {
    match presence_of(v, env.header.from@) {
        None => Err(PeerError::UntrustedSender),
        Some(p) => match p.check(now) {
            Err(e) => Err(e),
            Ok(_) => opened(v.identity, v.session, p, env, now, v.limit as nat),
        },
    }
}

/// A list holds the known peers in order.
pub open spec fn peers_listed(v: EngineView, list: Seq<String>) -> bool {
    &&& forall|i: int, j: int|
        0 <= i < j < list.len() ==> crate::text::earlier(#[trigger] list[i]@, #[trigger] list[j]@)
    &&& forall|k: Seq<char>| #[trigger]
        v.peers.contains_key(k) <==> exists|i: int|
            0 <= i < list.len() && #[trigger] list[i]@ == k
}

/// The state after an envelope was received.
pub open spec fn received(
    v: EngineView,
    env: Envelope,
    parsed: Option<Signed>,
    now: int,
) -> EngineView {
    let id = env.header.from@;
    let seen = unexpired(v.seen, now);
    if envelope_refusal(v, env, parsed, now) is Some {
        v
    } else if refusal(v, env, parsed, now) is Some {
        EngineView { seen, ..v }
    } else {
        EngineView {
            seen: seen.insert(env.header.id@, env.header.expires),
            peers: match parsed->0.message {
                Message::HelloAck { .. } => v.peers.insert(
                    id,
                    Peer { authenticated: true, ..v.peers[id] },
                ),
                _ => v.peers,
            },
            pings: match parsed->0.message {
                Message::Pong { nonce } => v.pings.remove(nonce@),
                _ => v.pings,
            },
            ..v
        }
    }
}

/// What the engine answers to a message that it takes.
pub open spec fn answers(v: EngineView, message: Message, answer: Option<Message>) -> bool {
    match message {
        Message::Hello { challenge } => answer == Some(Message::HelloAck { challenge }),
        Message::Ping { nonce } => answer == Some(Message::Pong { nonce }),
        Message::StatusRequest => answer matches Some(Message::Status {
            version,
            platform,
            selected_roots,
        }) && version@ == VERSION@ && platform@ == v.platform && selected_roots
            == v.selected_roots,
        _ => answer is None,
    }
}

/// An envelope carries a message from this engine's device and session to a
/// peer: it is addressed so, the device whose key the peer announces decrypts it
/// to the message with its signature, and the signature verifies unless its
/// commitment is the neutral point of the curve.
pub open spec fn carries(
    v: EngineView,
    id: Seq<char>,
    message: Message,
    env: Envelope,
    now: int,
) -> bool {
    &&& presence_of(v, id) is Some
    &&& delivers(v.identity, v.session, presence_of(v, id)->0, message, now, env)
}

/// Why no envelope can be made for a peer, as far as that does not depend on
/// random choices.
pub open spec fn wrap_refusal(v: EngineView, id: Seq<char>, now: int) -> Option<PeerError> {
    match presence_of(v, id) {
        None => Some(PeerError::NotDiscovered),
        Some(p) => match p.check(now) {
            Err(e) => Some(e),
            Ok(_) => None,
        },
    }
}

/// What sealing a message for a peer gives, whatever the random choices.
pub open spec fn wrapped(
    v: EngineView,
    id: Seq<char>,
    message: Message,
    now: int,
    r: Result<Envelope, PeerError>,
) -> bool {
    match wrap_refusal(v, id, now) {
        Some(e) => r == Err::<Envelope, PeerError>(e),
        None => match r {
            Ok(env) => carries(v, id, message, env, now),
            Err(e) => seal_failure(
                v.identity,
                v.session,
                presence_of(v, id)->0,
                message,
                now,
                e,
            ),
        },
    }
}

/// What receiving an envelope gives: the refusal, or the message with its
/// answer, sealed for the sender where there is one.
pub open spec fn outcome(
    v: EngineView,
    env: Envelope,
    parsed: Option<Signed>,
    now: int,
    r: Result<(Message, Option<Envelope>), PeerError>,
) -> bool {
    match refusal(v, env, parsed, now) {
        Some(e) => r == Err::<(Message, Option<Envelope>), PeerError>(e),
        None => exists|answer: Option<Message>| #[trigger]
            answers(v, parsed->0.message, answer) && match answer {
                None => r == Ok::<(Message, Option<Envelope>), PeerError>(
                    (parsed->0.message, None),
                ),
                Some(a) => match r {
                    Ok((m, reply)) => m == parsed->0.message && reply is Some && carries(
                        received(v, env, parsed, now),
                        env.header.from@,
                        a,
                        reply->0,
                        now,
                    ),
                    Err(e) => wrapped(
                        received(v, env, parsed, now),
                        env.header.from@,
                        a,
                        now,
                        Err::<Envelope, PeerError>(e),
                    ),
                },
            },
    }
}

impl Engine {
    /// Every known peer is trusted, has announced a presence under its own
    /// identifier and has a challenge to answer.
    pub closed spec fn wf(&self) -> bool {
        &&& self.trusted.wf()
        &&& self.peers.wf()
        &&& self.seen.wf()
        &&& self.pings.wf()
        &&& peers_sound(self@)
    }

    /// What being well-formed says of the state.
    pub proof fn lemma_wf(&self)
        requires
            self.wf(),
        ensures
            peers_sound(self@),
    {
    }

    /// An engine in a fresh session. `limit` is the largest ciphertext that it
    /// takes.
    pub fn new(identity: Identity, trusted: StringSet, limit: usize, platform: &str) -> (r: Self)
        requires
            trusted.wf(),
        ensures
            r.wf(),
            is_valid_id(r@.session),
            r@ == (EngineView {
                identity,
                session: r@.session,
                trusted: trusted@,
                peers: Map::empty(),
                seen: Map::empty(),
                pings: Map::empty(),
                selected_roots: 0,
                limit,
                platform: platform@,
            }),
    {
        Engine {
            identity,
            session: nonce(),
            trusted,
            peers: StringMap::new(),
            seen: StringMap::new(),
            pings: StringMap::new(),
            selected_roots: 0,
            limit,
            platform: platform.to_owned(),
        }
    }

    /// The identifier of the device.
    pub fn id(&self) -> (r: String)
        ensures
            r@ == self@.identity.device(),
            is_valid_id(r@),
    {
        self.identity.id()
    }

    /// The largest ciphertext that the engine takes.
    pub fn limit(&self) -> (r: usize)
        ensures
            r == self@.limit,
    {
        self.limit
    }

    /// What the device announces of this session.
    pub fn presence(&self, now: i64) -> (r: Presence)
        requires
            now + 180 <= i64::MAX,
        ensures
            presents(self@.identity, self@.session, self@.platform, now as int, r),
            is_valid_id(self@.session) ==> presence_stands(self@.identity, now as int, r),
    {
        self.identity.presence(self.session.as_str(), now, self.platform.as_str())
    }

    /// Replaces the set of trusted devices. Peers that are trusted no more are
    /// forgotten.
    pub fn trust(&mut self, trusted: StringSet)
        requires
            old(self).wf(),
            trusted.wf(),
        ensures
            final(self).wf(),
            final(self)@ == (EngineView {
                trusted: trusted@,
                peers: kept(old(self)@.peers, |id: Seq<char>, p: Peer| trusted@.contains(id)),
                ..old(self)@
            }),
    {
        let ghost p = |id: Seq<char>, p: Peer| trusted@.contains(id);
        let keep = |id: &String, peer: &Peer| -> (b: bool)
            ensures
                b == trusted@.contains(id@),
            { trusted.contains(id.as_str()) };
        self.peers.retain(keep, Ghost(p));
        self.trusted = trusted;
    }

    /// Takes notice of a presence. Only trusted devices become peers; a peer
    /// that begins a session or changes its key has to be authenticated anew,
    /// with a new challenge.
    pub fn discover(&mut self, presence: Presence, now: i64) -> (r: Result<bool, PeerError>)
        requires
            old(self).wf(),
            now + 210 <= i64::MAX,
        ensures
            final(self).wf(),
            r == match discovery_refusal(old(self)@, presence, now as int) {
                Some(e) => Err(e),
                None => Ok(old(self)@.trusted.contains(presence.device@)),
            },
            exists|drawn: String|
                is_valid_id(drawn@) && final(self)@ == #[trigger] discovery(
                    old(self)@,
                    presence,
                    drawn,
                    now as int,
                ),
    {
        let drawn = nonce();
        self.discover_with(presence, drawn, now)
    }

    /// Takes notice of a presence. `drawn` is the challenge that a peer gets
    /// where it has to be authenticated anew.
    pub fn discover_with(&mut self, presence: Presence, drawn: String, now: i64) -> (r: Result<
        bool,
        PeerError,
    >)
        requires
            old(self).wf(),
            is_valid_id(drawn@),
            now + 210 <= i64::MAX,
        ensures
            final(self).wf(),
            r == match discovery_refusal(old(self)@, presence, now as int) {
                Some(e) => Err(e),
                None => Ok(old(self)@.trusted.contains(presence.device@)),
            },
            final(self)@ == discovery(old(self)@, presence, drawn, now as int),
    {
        match presence.verify(now) {
            Ok(_) => {},
            Err(e) => return Err(e),
        }
        let own = self.identity.id();
        if same_text(presence.device.as_str(), own.as_str()) {
            return Err(PeerError::SelfPresence);
        }
        if !self.trusted.contains(presence.device.as_str()) {
            return Ok(false);
        }
        if !(self.peers.len() < 64 || self.peers.contains_key(presence.device.as_str())) {
            return Err(PeerError::PeerLimit);
        }
        let key = presence.device.clone();
        let mut peer = match self.peers.get(presence.device.as_str()) {
            Some(p) => p.clone(),
            None => Peer { presence: None, challenge: String::new(), authenticated: false },
        };
        let fresh = match &peer.presence {
            None => true,
            Some(p) => !same_text(p.session.as_str(), presence.session.as_str()) || !same_text(
                p.encryption.as_str(),
                presence.encryption.as_str(),
            ),
        };
        if fresh {
            peer.authenticated = false;
            peer.challenge = drawn;
        }
        peer.presence = Some(presence);
        self.peers.insert(key, peer);
        Ok(true)
    }

    /// The known peers in order.
    pub fn peer_ids(&self) -> (r: Vec<String>)
        requires
            self.wf(),
        ensures
            peers_listed(self@, r@),
    {
        self.peers.keys()
    }

    /// Whether a peer has answered its challenge and its presence is valid.
    pub fn authenticated(&self, id: &str, now: i64) -> (r: bool)
        requires
            self.wf(),
            now + 210 <= i64::MAX,
        ensures
            r == is_authenticated(self@, id@, now as int),
    {
        match self.peers.get(id) {
            None => false,
            Some(peer) => peer.authenticated && match &peer.presence {
                None => false,
                Some(p) => p.verify(now).is_ok(),
            },
        }
    }

    fn wrap(&self, id: &str, message: &Message, now: i64) -> (r: Result<Envelope, PeerError>)
        requires
            self.wf(),
            now + 210 <= i64::MAX,
        ensures
            wrapped(self@, id@, *message, now as int, r),
    {
        match self.peers.get(id) {
            None => Err(PeerError::NotDiscovered),
            Some(peer) => match &peer.presence {
                None => Err(PeerError::NotDiscovered),
                Some(p) => seal(&self.identity, self.session.as_str(), p, message, now),
            },
        }
    }

    /// Challenges a peer.
    pub fn hello(&mut self, id: &str, now: i64) -> (r: Result<Envelope, PeerError>)
        requires
            old(self).wf(),
            now + 210 <= i64::MAX,
        ensures
            final(self).wf(),
            final(self)@ == old(self)@,
            !old(self)@.peers.contains_key(id@) ==> r == Err::<Envelope, PeerError>(
                PeerError::UnknownPeer,
            ),
            old(self)@.peers.contains_key(id@) ==> wrapped(
                old(self)@,
                id@,
                Message::Hello { challenge: old(self)@.peers[id@].challenge },
                now as int,
                r,
            ),
    {
        let challenge = match self.peers.get(id) {
            None => return Err(PeerError::UnknownPeer),
            Some(p) => p.challenge.clone(),
        };
        self.wrap(id, &Message::Hello { challenge }, now)
    }

    /// Sends a message to an authenticated peer. An outstanding ping is
    /// remembered for two minutes.
    pub fn send(&mut self, id: &str, message: &Message, now: i64) -> (r: Result<
        Envelope,
        PeerError,
    >)
        requires
            old(self).wf(),
            now + 210 <= i64::MAX,
        ensures
            final(self).wf(),
            send_refusal(old(self)@, id@, *message, now as int) matches Some(e) ==> r == Err::<
                Envelope,
                PeerError,
            >(e),
            send_refusal(old(self)@, id@, *message, now as int) is None ==> wrapped(
                old(self)@,
                id@,
                *message,
                now as int,
                r,
            ),
            final(self)@ == sent(old(self)@, id@, *message, now as int),
    {
        if !self.authenticated(id, now) {
            return Err(PeerError::HandshakeIncomplete);
        }
        match message {
            Message::Hello { .. } => return Err(PeerError::ReservedMessage),
            Message::HelloAck { .. } => return Err(PeerError::ReservedMessage),
            Message::Ping { nonce } => {
                let ghost p = |k: Seq<char>, ping: (Seq<char>, i64)| ping.1 > now as int;
                let keep = |k: &String, ping: &(String, i64)| -> (b: bool)
                    ensures
                        b == (ping.1 > now),
                    { ping.1 > now };
                self.pings.retain(keep, Ghost(p));
                proof {
                    assert(self@.pings =~= outstanding(old(self)@.pings, now as int));
                }
                if !(valid_id(nonce.as_str()) && self.pings.len() < 256) {
                    return Err(PeerError::PingLimit);
                }
                self.pings.insert(nonce.clone(), (id.to_owned(), now + 120));
            },
            _ => {},
        }
        self.wrap(id, message, now)
    }

    /// The first half of receiving: the text that an envelope held, which
    /// `receive` takes once it has been read as a signed message.
    pub fn open(&self, env: &Envelope, now: i64) -> (r: Result<Vec<u8>, PeerError>)
        requires
            self.wf(),
            now + 210 <= i64::MAX,
        ensures
            match r {
                Ok(text) => opening(self@, *env, now as int) == Ok::<Seq<u8>, PeerError>(text@),
                Err(e) => opening(self@, *env, now as int) == Err::<Seq<u8>, PeerError>(e),
            },
    {
        let peer = match self.peers.get(env.header.from.as_str()) {
            None => return Err(PeerError::UntrustedSender),
            Some(p) => p,
        };
        let presence = match &peer.presence {
            None => return Err(PeerError::UntrustedSender),
            Some(p) => p,
        };
        match presence.verify(now) {
            Ok(_) => {},
            Err(e) => return Err(e),
        }
        open(&self.identity, self.session.as_str(), presence, env, now, self.limit)
    }

    fn judge(&self, id: &str, message: &Message, now: i64) -> (r: Result<(), PeerError>)
        requires
            self.wf(),
            self@.peers.contains_key(id@),
            now + 210 <= i64::MAX,
        ensures
            r == match message_refusal(self@, id@, *message, now as int) {
                Some(e) => Err(e),
                None => Ok(()),
            },
    {
        match message {
            Message::Hello { challenge } => return if valid_id(challenge.as_str()) {
                Ok(())
            } else {
                Err(PeerError::Challenge)
            },
            Message::HelloAck { challenge } => {
                return match self.peers.get(id) {
                    None => Err(PeerError::ChallengeMismatch),
                    Some(peer) => {
                        proof {
                            reveal_strlit("");
                            assert(peer.challenge@.len() == 0 ==> peer.challenge@ =~= ""@);
                        }
                        if !same_text(peer.challenge.as_str(), "") && same_text(
                            challenge.as_str(),
                            peer.challenge.as_str(),
                        ) {
                            Ok(())
                        } else {
                            Err(PeerError::ChallengeMismatch)
                        }
                    },
                };
            },
            _ => {},
        }
        if !self.authenticated(id, now) {
            return Err(PeerError::BeforeHandshake);
        }
        match message {
            Message::Ping { nonce } => if valid_id(nonce.as_str()) {
                Ok(())
            } else {
                Err(PeerError::BadPing)
            },
            Message::Pong { nonce } => {
                let known = match self.pings.get(nonce.as_str()) {
                    None => false,
                    Some(ping) => same_text(ping.0.as_str(), id) && ping.1 > now,
                };
                if known {
                    Ok(())
                } else {
                    Err(PeerError::UnsolicitedPong)
                }
            },
            Message::Status { version, platform, selected_roots } => if version.as_str().as_bytes().len()
                <= 40 && platform.as_str().as_bytes().len() <= 40 && *selected_roots <= 1024 {
                Ok(())
            } else {
                Err(PeerError::BadStatus)
            },
            Message::UpdateAvailable { tag } => match validate_tag(tag.as_str()) {
                Ok(_) => Ok(()),
                Err(e) => Err(e),
            },
            _ => Ok(()),
        }
    }

    /// Takes or refuses an envelope whose text was read as `parsed`, and says
    /// what is to be answered.
    pub fn decide(&mut self, env: &Envelope, parsed: &Option<Signed>, now: i64) -> (r: Result<
        Option<Message>,
        PeerError,
    >)
        requires
            old(self).wf(),
            now + 210 <= i64::MAX,
        ensures
            final(self).wf(),
            final(self)@ == received(old(self)@, *env, *parsed, now as int),
            match refusal(old(self)@, *env, *parsed, now as int) {
                Some(e) => r == Err::<Option<Message>, PeerError>(e),
                None => r matches Ok(answer) && answers(old(self)@, parsed->0.message, answer),
            },
    {
        match self.open(env, now) {
            Ok(_) => {},
            Err(e) => return Err(e),
        }
        let signed = match parsed {
            Some(s) => s,
            None => return Err(PeerError::Malformed),
        };
        let id = env.header.from.as_str();
        let peer = match self.peers.get(id) {
            None => return Err(PeerError::UntrustedSender),
            Some(p) => p.clone(),
        };
        match &peer.presence {
            None => return Err(PeerError::UntrustedSender),
            Some(p) => match accept(p, &env.header, signed) {
                Ok(_) => {},
                Err(e) => return Err(e),
            },
        }
        assert(envelope_refusal(self@, *env, *parsed, now as int) is None);
        let ghost p = |k: Seq<char>, expires: i64| expires > now as int;
        let keep = |k: &String, expires: &i64| -> (b: bool)
            ensures
                b == (*expires > now),
            { *expires > now };
        self.seen.retain(keep, Ghost(p));
        proof {
            assert(self@.seen =~= unexpired(old(self)@.seen, now as int));
        }
        if self.seen.contains_key(env.header.id.as_str()) {
            return Err(PeerError::Replayed);
        }
        if !(self.seen.len() < 2048) {
            return Err(PeerError::ReplayWindow);
        }
        proof {
            assert(message_refusal(self@, id@, signed.message, now as int) == message_refusal(
                old(self)@,
                id@,
                signed.message,
                now as int,
            ));
        }
        match self.judge(id, &signed.message, now) {
            Ok(_) => {},
            Err(e) => return Err(e),
        }
        let answer = match &signed.message {
            Message::Hello { challenge } => Some(Message::HelloAck { challenge: challenge.clone() }),
            Message::HelloAck { .. } => {
                let mut known = peer;
                known.authenticated = true;
                self.peers.insert(env.header.from.clone(), known);
                None
            },
            Message::Ping { nonce } => Some(Message::Pong { nonce: nonce.clone() }),
            Message::Pong { nonce } => {
                self.pings.remove(nonce.as_str());
                None
            },
            Message::StatusRequest => Some(
                Message::Status {
                    version: VERSION.to_owned(),
                    platform: self.platform.clone(),
                    selected_roots: self.selected_roots,
                },
            ),
            _ => None,
        };
        self.seen.insert(env.header.id.clone(), env.header.expires);
        Ok(answer)
    }

    /// Receives an envelope whose text was read as `parsed`: the message, and
    /// the envelope with the answer where there is one.
    pub fn receive(&mut self, env: &Envelope, parsed: &Option<Signed>, now: i64) -> (r: Result<
        (Message, Option<Envelope>),
        PeerError,
    >)
        requires
            old(self).wf(),
            now + 210 <= i64::MAX,
        ensures
            final(self).wf(),
            final(self)@ == received(old(self)@, *env, *parsed, now as int),
            outcome(old(self)@, *env, *parsed, now as int, r),
    {
        let answer = match self.decide(env, parsed, now) {
            Ok(a) => a,
            Err(e) => return Err(e),
        };
        let message = match parsed {
            Some(s) => s.message.clone(),
            None => return Err(PeerError::Malformed),
        };
        let ghost was = answer;
        match answer {
            None => {
                assert(answers(old(self)@, parsed->0.message, was));
                Ok((message, None))
            },
            Some(a) => {
                assert(answers(old(self)@, parsed->0.message, was));
                match self.wrap(env.header.from.as_str(), &a, now) {
                    Ok(reply) => Ok((message, Some(reply))),
                    Err(e) => Err(e),
                }
            },
        }
    }
}

/// Why a message is not sent to a peer, if it is not.
pub open spec fn send_refusal(v: EngineView, id: Seq<char>, message: Message, now: int) -> Option<
    PeerError,
> {
    if !is_authenticated(v, id, now) {
        Some(PeerError::HandshakeIncomplete)
    } else {
        match message {
            Message::Hello { .. } => Some(PeerError::ReservedMessage),
            Message::HelloAck { .. } => Some(PeerError::ReservedMessage),
            Message::Ping { nonce } => if is_valid_id(nonce@) && outstanding(
                v.pings,
                now,
            ).dom().len() < 256 {
                None
            } else {
                Some(PeerError::PingLimit)
            },
            _ => None,
        }
    }
}

/// The state after sending a message.
pub open spec fn sent(v: EngineView, id: Seq<char>, message: Message, now: int) -> EngineView {
    match message {
        Message::Ping { nonce } => if !is_authenticated(v, id, now) {
            v
        } else {
            let pings = outstanding(v.pings, now);
            EngineView {
                pings: if send_refusal(v, id, message, now) is None {
                    pings.insert(nonce@, (id, (now + 120) as i64))
                } else {
                    pings
                },
                ..v
            }
        },
        _ => v,
    }
}

/// Every known peer is trusted, has announced a presence under its own
/// identifier and has a challenge to answer.
pub open spec fn peers_sound(v: EngineView) -> bool {
    forall|id: Seq<char>| #[trigger]
        v.peers.contains_key(id) ==> {
            &&& v.trusted.contains(id)
            &&& v.peers[id].presence is Some
            &&& v.peers[id].presence->0.device@ == id
            &&& is_valid_id(v.peers[id].challenge@)
        }
}

/// What one engine sends arrives at the other: an envelope that carries a
/// message to a device in its session passes there until it expires, when it is
/// read as the message with its signature, unless the commitment of the
/// signature is the neutral point of the curve.
pub proof fn lemma_sent_is_received(
    sender: EngineView,
    receiver: EngineView,
    env: Envelope,
    message: Message,
    signature: String,
    issued: int,
    now: int,
)
    requires
        carries(sender, receiver.identity.device(), message, env, issued),
        presence_of(sender, receiver.identity.device())->0.device@ == receiver.identity.device(),
        presence_of(sender, receiver.identity.device())->0.session@ == receiver.session,
        key_of(presence_of(sender, receiver.identity.device())->0.encryption@) == Ok::<
            Seq<u8>,
            PeerError,
        >(x25519_public_of(receiver.identity.agreement_secret())),
        presence_of(receiver, sender.identity.device()) matches Some(p) && {
            &&& p.check(now) is Ok
            &&& p.device@ == sender.identity.device()
            &&& p.session@ == sender.session
            &&& p.signing@ == hex_of(sender.identity.public())
        },
        signature@ == hex_of(message_signature(sender.identity, env.header, message)),
        message_signature(sender.identity, env.header, message).take(32) != neutral_point(),
        encode_utf8(env.ciphertext@).len() <= receiver.limit,
        issued - 30 <= now < issued + 120,
    ensures
        envelope_refusal(receiver, env, Some(Signed { message, signature }), now) is None,
{
    let p = presence_of(receiver, sender.identity.device())->0;
    let peer = presence_of(sender, receiver.identity.device())->0;
    super::crypto::lemma_sealed_opens(
        sender.identity,
        receiver.identity,
        p,
        peer,
        message,
        issued,
        env,
        now,
        receiver.limit as nat,
    );
}

/// A refused envelope changes neither the peers nor the pings.
pub proof fn lemma_refusal_keeps_peers(
    v: EngineView,
    env: Envelope,
    parsed: Option<Signed>,
    now: int,
)
    requires
        refusal(v, env, parsed, now) is Some,
    ensures
        received(v, env, parsed, now).peers == v.peers,
        received(v, env, parsed, now).pings == v.pings,
{
}

/// A peer becomes authenticated only by a message that it signed for this
/// device and session and that answers its own standing challenge.
pub proof fn lemma_authentication_answers_challenge(
    v: EngineView,
    env: Envelope,
    parsed: Option<Signed>,
    now: int,
    id: Seq<char>,
)
    requires
        v.peers.contains_key(id),
        !v.peers[id].authenticated,
        received(v, env, parsed, now).peers[id].authenticated,
    ensures
        env.header.from@ == id,
        env.header.to@ == v.identity.device(),
        env.header.to_session@ == v.session,
        parsed matches Some(s) && s.message matches Message::HelloAck { challenge } && challenge@
            == v.peers[id].challenge@ && signature_check(
            v.peers[id].presence->0.signing@,
            encode_utf8(env.header.signing_text(s.message)),
            s.signature@,
        ) is Ok,
{
}

/// A right answer to the standing challenge authenticates the peer.
pub proof fn lemma_handshake_completes(
    v: EngineView,
    env: Envelope,
    parsed: Option<Signed>,
    now: int,
)
    requires
        refusal(v, env, parsed, now) is None,
        parsed->0.message is HelloAck,
    ensures
        is_authenticated(received(v, env, parsed, now), env.header.from@, now),
{
}

/// Once a pong was taken, no pong to the same ping is.
pub proof fn lemma_pong_once(
    v: EngineView,
    env: Envelope,
    parsed: Option<Signed>,
    now: int,
    id: Seq<char>,
    again: Message,
    at: int,
)
    requires
        refusal(v, env, parsed, now) is None,
        parsed->0.message is Pong,
        same_message(again, parsed->0.message),
    ensures
        message_refusal(received(v, env, parsed, now), id, again, at) is Some,
{
}

/// One step of an engine as far as it concerns the messages that were
/// received: it receives an envelope, or leaves them as they are.
pub open spec fn step(a: EngineView, b: EngineView, at: int) -> bool {
    ||| b.seen == a.seen
    ||| exists|env: Envelope, parsed: Option<Signed>| b == #[trigger] received(a, env, parsed, at)
}

/// Every call that changes an engine is such a step: trusting other devices, taking
/// notice of a presence, sending a message and receiving an envelope.
pub proof fn lemma_calls_are_steps(
    v: EngineView,
    trusted: Set<Seq<char>>,
    peers: Map<Seq<char>, Peer>,
    presence: Presence,
    drawn: String,
    id: Seq<char>,
    message: Message,
    env: Envelope,
    parsed: Option<Signed>,
    now: int,
)
    ensures
        step(v, EngineView { trusted, peers, ..v }, now),
        step(v, discovery(v, presence, drawn, now), now),
        step(v, sent(v, id, message, now), now),
        step(v, received(v, env, parsed, now), now),
{
}

proof fn lemma_step_keeps_seen(a: EngineView, b: EngineView, at: int, id: Seq<char>)
    requires
        step(a, b, at),
        a.seen.contains_key(id),
        a.seen[id] > at,
    ensures
        b.seen.contains_key(id),
        b.seen[id] == a.seen[id],
{
    if b.seen != a.seen {
        let (env, parsed) = choose|env: Envelope, parsed: Option<Signed>|
            b == #[trigger] received(a, env, parsed, at);
        assert(unexpired(a.seen, at).contains_key(id));
    }
}

proof fn lemma_seen_until_expiry(
    states: Seq<EngineView>,
    times: Seq<int>,
    id: Seq<char>,
    expires: i64,
    n: int,
)
    requires
        states.len() == times.len() + 1,
        0 <= n <= times.len(),
        forall|i: int| 0 <= i < times.len() ==> #[trigger] step(states[i], states[i + 1], times[i]),
        states[0].seen.contains_key(id),
        states[0].seen[id] == expires,
        forall|i: int| 0 <= i < times.len() ==> times[i] < expires,
    ensures
        states[n].seen.contains_key(id),
        states[n].seen[id] == expires,
    decreases n,
{
    if n > 0 {
        lemma_seen_until_expiry(states, times, id, expires, n - 1);
        assert(step(states[n - 1], states[n - 1 + 1], times[n - 1]));
        lemma_step_keeps_seen(states[n - 1], states[n], times[n - 1], id);
    }
}

/// An envelope is taken at most once: after it was taken, and after any
/// further steps at times up to then, it is refused however it is read.
pub proof fn lemma_no_replay(
    v: EngineView,
    env: Envelope,
    parsed: Option<Signed>,
    now: int,
    states: Seq<EngineView>,
    times: Seq<int>,
    again: Option<Signed>,
    at: int,
)
    requires
        refusal(v, env, parsed, now) is None,
        states.len() == times.len() + 1,
        states[0] == received(v, env, parsed, now),
        forall|i: int| 0 <= i < times.len() ==> #[trigger] step(states[i], states[i + 1], times[i]),
        forall|i: int| 0 <= i < times.len() ==> times[i] <= at,
    ensures
        refusal(states.last(), env, again, at) is Some,
{
    let id = env.header.id@;
    let expires = env.header.expires;
    let last = states.last();
    if at < expires {
        lemma_seen_until_expiry(states, times, id, expires, times.len() as int);
        assert(unexpired(last.seen, at).contains_key(id));
    } else {
        assert(!env.header.timely(at));
    }
}

/// No envelope is accepted twice: after a call that accepted it, and after any
/// further steps at times up to then, a call on it fails, however it is read and
/// whatever became of sessions, trust and presences meanwhile.
pub proof fn lemma_no_envelope_is_accepted_twice(
    v: EngineView,
    env: Envelope,
    parsed: Option<Signed>,
    now: int,
    first: Result<(Message, Option<Envelope>), PeerError>,
    states: Seq<EngineView>,
    times: Seq<int>,
    again: Option<Signed>,
    at: int,
    second: Result<(Message, Option<Envelope>), PeerError>,
)
    requires
        outcome(v, env, parsed, now, first),
        first is Ok,
        states.len() == times.len() + 1,
        states[0] == received(v, env, parsed, now),
        forall|i: int| 0 <= i < times.len() ==> #[trigger] step(states[i], states[i + 1], times[i]),
        forall|i: int| 0 <= i < times.len() ==> times[i] <= at,
        outcome(states.last(), env, again, at, second),
    ensures
        second is Err,
{
    lemma_no_replay(v, env, parsed, now, states, times, again, at);
}

} // verus!
