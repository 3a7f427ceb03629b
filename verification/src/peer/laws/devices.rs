//! What devices know of each other, and what they take and send.

use crate::peer::crypto::{opened, sealed, Chance, Envelope, Signed};
use crate::peer::identity::{
    fingerprint, is_valid_id, key_of, platform_name, presents, signature_check, Identity, Presence,
};
use crate::peer::primitives::{
    ed25519_signature_of, hex_of, lemma_unhex_hex, sha256_of, unhex, x25519_public_of,
    x25519_shared_of,
};
use crate::peer::protocol::{
    answers, carries, discovery, discovery_refusal, is_authenticated, message_refusal, opening,
    outcome, outstanding, presence_of, received, refusal, send_refusal, sent, unexpired,
    wrap_refusal, EngineView, Message,
};
use crate::peer::update::{
    announced, inspection, is_tag, launchable, stage_result, Installed, Location, Release,
    UpdateState,
};
use crate::peer::version::{is_own_version, stable_text, Version};
use crate::peer::{PeerError, VERSION};
use crate::ordered::kept;
use vstd::prelude::*;
use vstd::utf8::encode_utf8;

verus! {

/// A presence can be taken notice of: it is valid, of another device that is
/// trusted, and there is room for it or the device is known.
pub open spec fn takes_notice(v: EngineView, p: Presence, now: int) -> bool {
    &&& p.check(now) is Ok
    &&& p.device@ != v.identity.device()
    &&& v.trusted.contains(p.device@)
    &&& v.peers.dom().len() < 64 || v.peers.contains_key(p.device@)
}

/// The device of a presence is known with the same session and key.
pub open spec fn goes_on_in_session(v: EngineView, p: Presence) -> bool {
    &&& v.peers.contains_key(p.device@)
    &&& v.peers[p.device@].presence is Some
    &&& v.peers[p.device@].presence->0.session@ == p.session@
    &&& v.peers[p.device@].presence->0.encryption@ == p.encryption@
}

/// A presence that is taken notice of is what is known of its device afterwards,
/// whatever was known before. A device that goes on in its session keeps its
/// challenge and stays authenticated if it was; any other has to answer the drawn
/// challenge first. Nothing is changed of other devices, nor anything else.
pub proof fn lemma_newest_presence_is_kept(
    v: EngineView,
    p: Presence,
    drawn: String,
    now: int,
    other: Seq<char>,
)
    requires
        takes_notice(v, p, now),
    ensures
        ({
            let w = discovery(v, p, drawn, now);
            let id = p.device@;
            &&& discovery_refusal(v, p, now) is None
            &&& w.peers.contains_key(id)
            &&& w.peers[id].presence == Some(p)
            &&& goes_on_in_session(v, p) ==> w.peers[id].challenge == v.peers[id].challenge
                && w.peers[id].authenticated == v.peers[id].authenticated
            &&& !goes_on_in_session(v, p) ==> w.peers[id].challenge == drawn
                && !w.peers[id].authenticated
            &&& other != id ==> (w.peers.contains_key(other) <==> v.peers.contains_key(other)) && (
            v.peers.contains_key(other) ==> w.peers[other] == v.peers[other])
            &&& w.identity == v.identity && w.session == v.session && w.trusted == v.trusted
                && w.seen == v.seen && w.pings == v.pings && w.limit == v.limit && w.platform
                == v.platform && w.selected_roots == v.selected_roots
        }),
{
}

/// A device that was authenticated and announces itself again in its session stays
/// authenticated for as long as its newest presence is valid, and messages can be
/// sent to it and are taken from it until then, however old the presence is that
/// was known before.
pub proof fn lemma_renewed_device_stays_authenticated(
    v: EngineView,
    p: Presence,
    drawn: String,
    now: int,
    at: int,
    message: Message,
)
    requires
        takes_notice(v, p, now),
        goes_on_in_session(v, p),
        v.peers[p.device@].authenticated,
        p.check(at) is Ok,
    ensures
        ({
            let w = discovery(v, p, drawn, now);
            &&& is_authenticated(w, p.device@, at)
            &&& wrap_refusal(w, p.device@, at) is None
            &&& send_refusal(w, p.device@, Message::StatusRequest, at) is None
            &&& message is Status || message is StatusRequest ==> message_refusal(
                w,
                p.device@,
                message,
                at,
            ) != Some(PeerError::BeforeHandshake)
        }),
{
}

/// A presence that is not taken notice of changes nothing, and why it is not is
/// told: it is not valid, it is the device's own, or as many peers are known as
/// can be. A device that is not trusted is passed over without an error.
pub proof fn lemma_presence_is_passed_over(v: EngineView, p: Presence, drawn: String, now: int)
    requires
        !takes_notice(v, p, now),
    ensures
        discovery(v, p, drawn, now) == v,
        p.check(now) is Err ==> discovery_refusal(v, p, now) == Some(p.check(now)->Err_0),
        p.check(now) is Ok && p.device@ == v.identity.device() ==> discovery_refusal(v, p, now)
            == Some(PeerError::SelfPresence),
        p.check(now) is Ok && p.device@ != v.identity.device() && !v.trusted.contains(p.device@)
            ==> discovery_refusal(v, p, now) is None,
        p.check(now) is Ok && p.device@ != v.identity.device() && v.trusted.contains(p.device@)
            ==> discovery_refusal(v, p, now) == Some(PeerError::PeerLimit),
{
}

/// A presence that is valid is of this protocol, names a device by the fingerprint
/// of the key that signed it, was issued at most half a minute later and has not
/// expired, and was to last three minutes.
pub proof fn lemma_valid_presence(p: Presence, now: int)
    ensures
        p.check(now) is Ok <==> {
            &&& p.protocol == 1
            &&& is_valid_id(p.device@)
            &&& is_valid_id(p.session@)
            &&& p.issued - 30 <= now < p.expires
            &&& p.expires <= now + 210
            &&& p.expires == p.issued + 180
            &&& encode_utf8(p.version@).len() < 40
            &&& encode_utf8(p.platform@).len() < 40
            &&& key_of(p.signing@) matches Ok(k) && fingerprint(k) == p.device@
            &&& key_of(p.encryption@) is Ok
            &&& signature_check(p.signing@, encode_utf8(p.signing_text()), p.signature@) is Ok
        },
{
}

/// A peer is authenticated while it has answered its challenge and its presence is
/// valid; nothing else counts.
pub proof fn lemma_authenticated_peer(v: EngineView, id: Seq<char>, now: int)
    ensures
        is_authenticated(v, id, now) <==> v.peers.contains_key(id) && v.peers[id].authenticated
            && v.peers[id].presence is Some && v.peers[id].presence->0.check(now) is Ok,
        presence_of(v, id) is Some <==> v.peers.contains_key(id) && v.peers[id].presence is Some,
        presence_of(v, id) is Some ==> presence_of(v, id) == v.peers[id].presence,
{
}

/// An envelope is taken only from a peer whose presence is valid, if it is on its
/// way from that peer's session to this device and session, timely, and holds a
/// message that the peer signed; if it was not taken before; and if it is not the
/// two thousand and forty-ninth within two minutes.
pub proof fn lemma_taken_envelope(v: EngineView, env: Envelope, parsed: Option<Signed>, now: int)
    requires
        refusal(v, env, parsed, now) is None,
    ensures
        v.peers.contains_key(env.header.from@),
        v.peers[env.header.from@].presence matches Some(p) && {
            &&& p.check(now) is Ok
            &&& env.header.from@ == p.device@
            &&& env.header.from_session@ == p.session@
            &&& parsed matches Some(s) && signature_check(
                p.signing@,
                encode_utf8(env.header.signing_text(s.message)),
                s.signature@,
            ) is Ok
        },
        env.header.to@ == v.identity.device(),
        env.header.to_session@ == v.session,
        env.header.issued - 30 <= now < env.header.expires,
        env.header.expires == env.header.issued + 120,
        encode_utf8(env.ciphertext@).len() <= v.limit,
        !(v.seen.contains_key(env.header.id@) && v.seen[env.header.id@] > now),
        unexpired(v.seen, now).dom().len() < 2048,
        message_refusal(v, env.header.from@, parsed->0.message, now) is None,
{
    assert(v.seen.contains_key(env.header.id@) && v.seen[env.header.id@] > now ==> unexpired(
        v.seen,
        now,
    ).contains_key(env.header.id@));
}

/// An envelope from a peer whose presence is valid, that opens and holds a message
/// that the peer signed, is taken unless it was taken before, too many were, or the
/// message is refused; and the first of these that holds is told. Before that, the
/// first that is missing is.
pub proof fn lemma_refused_envelope(v: EngineView, env: Envelope, parsed: Option<Signed>, now: int)
    ensures
        ({
            let from = env.header.from@;
            let r = refusal(v, env, parsed, now);
            let p = v.peers[from].presence->0;
            let known = v.peers.contains_key(from) && v.peers[from].presence is Some;
            let open = opened(v.identity, v.session, p, env, now, v.limit as nat);
            let signed = parsed is Some && signature_check(
                p.signing@,
                encode_utf8(env.header.signing_text(parsed->0.message)),
                parsed->0.signature@,
            ) is Ok;
            let good = known && p.check(now) is Ok && open is Ok && signed;
            let again = v.seen.contains_key(env.header.id@) && v.seen[env.header.id@] > now;
            &&& !known ==> r == Some(PeerError::UntrustedSender)
            &&& known && p.check(now) is Err ==> r == Some(p.check(now)->Err_0)
            &&& known && p.check(now) is Ok && open is Err ==> r == Some(open->Err_0)
            &&& known && p.check(now) is Ok && open is Ok && parsed is None ==> r == Some(
                PeerError::Malformed,
            )
            &&& known && p.check(now) is Ok && open is Ok && !signed ==> r is Some
            &&& good && again ==> r == Some(PeerError::Replayed)
            &&& good && !again && unexpired(v.seen, now).dom().len() >= 2048 ==> r == Some(
                PeerError::ReplayWindow,
            )
            &&& good && !again && unexpired(v.seen, now).dom().len() < 2048 ==> r
                == message_refusal(v, from, parsed->0.message, now)
            &&& known && p.check(now) is Ok ==> opening(v, env, now) == open
        }),
{
    assert(unexpired(v.seen, now).contains_key(env.header.id@) <==> v.seen.contains_key(
        env.header.id@,
    ) && v.seen[env.header.id@] > now);
}

/// What taking an envelope changes: it is remembered until it expires, and what
/// expired is forgotten. The answer to a challenge authenticates its sender, a
/// pong ends its ping, and nothing else changes.
pub proof fn lemma_taken_envelope_changes(
    v: EngineView,
    env: Envelope,
    parsed: Option<Signed>,
    now: int,
    id: Seq<char>,
    other: Seq<char>,
)
    requires
        refusal(v, env, parsed, now) is None,
    ensures
        ({
            let w = received(v, env, parsed, now);
            let m = parsed->0.message;
            &&& w.seen.contains_key(env.header.id@) && w.seen[env.header.id@] == env.header.expires
            &&& id != env.header.id@ ==> (w.seen.contains_key(id) <==> v.seen.contains_key(id)
                && v.seen[id] > now) && (w.seen.contains_key(id) ==> w.seen[id] == v.seen[id])
            &&& w.peers.dom() == v.peers.dom()
            &&& v.peers.contains_key(other) ==> {
                &&& w.peers[other].presence == v.peers[other].presence
                &&& w.peers[other].challenge == v.peers[other].challenge
                &&& w.peers[other].authenticated == (v.peers[other].authenticated || (other
                    == env.header.from@ && m is HelloAck))
            }
            &&& m matches Message::Pong { nonce } ==> w.pings == v.pings.remove(nonce@)
            &&& !(m is Pong) ==> w.pings == v.pings
            &&& w.identity == v.identity && w.session == v.session && w.trusted == v.trusted
                && w.limit == v.limit && w.platform == v.platform && w.selected_roots
                == v.selected_roots
        }),
{
    assert(received(v, env, parsed, now).peers.dom() =~= v.peers.dom());
}

/// Which messages of a peer are taken: a greeting always if its challenge is one,
/// an answer exactly if it repeats the standing challenge, and anything else only
/// from a peer that is authenticated. Of those a ping must be one, a pong must
/// answer a ping to that peer that has not expired, a status be short, and an
/// update have the tag of a release.
pub proof fn lemma_taken_messages(v: EngineView, id: Seq<char>, m: Message, now: int)
    requires
        v.peers.contains_key(id),
        v.peers[id].presence is Some,
    ensures
        ({
            let peer = v.peers[id];
            let known = peer.authenticated && peer.presence->0.check(now) is Ok;
            match m {
                Message::Hello { challenge } => message_refusal(v, id, m, now) is None
                    <==> is_valid_id(challenge@),
                Message::HelloAck { challenge } => message_refusal(v, id, m, now) is None
                    <==> challenge@ == peer.challenge@ && challenge@.len() > 0,
                Message::Ping { nonce } => message_refusal(v, id, m, now) is None <==> known
                    && is_valid_id(nonce@),
                Message::Pong { nonce } => message_refusal(v, id, m, now) is None <==> known
                    && v.pings.contains_key(nonce@) && v.pings[nonce@].0 == id
                    && v.pings[nonce@].1 > now,
                Message::StatusRequest => message_refusal(v, id, m, now) is None <==> known,
                Message::Status { version, platform, selected_roots } => message_refusal(
                    v,
                    id,
                    m,
                    now,
                ) is None <==> known && encode_utf8(version@).len() <= 40 && encode_utf8(
                    platform@,
                ).len() <= 40 && selected_roots <= 1024,
                Message::UpdateAvailable { tag } => message_refusal(v, id, m, now) is None
                    <==> known && exists|w: Version| is_tag(tag@, w),
            }
        }),
{
}

/// Which messages are answered, and how: a greeting with its challenge, a ping
/// with its nonce, and a request for the status with the version, the platform and
/// how many directories are selected. Anything else is not.
pub proof fn lemma_answers(v: EngineView, m: Message, answer: Option<Message>)
    requires
        answers(v, m, answer),
    ensures
        match m {
            Message::Hello { challenge } => answer matches Some(Message::HelloAck { challenge: c })
                && c@ == challenge@,
            Message::Ping { nonce } => answer matches Some(Message::Pong { nonce: n }) && n@
                == nonce@,
            Message::StatusRequest => answer matches Some(
                Message::Status { version, platform, selected_roots },
            ) && version@ == VERSION@ && platform@ == v.platform && selected_roots
                == v.selected_roots,
            _ => answer is None,
        },
{
}

/// What a taken envelope gives is the message that it held, with the answer to it,
/// sealed for its sender, where there is one; a refused one gives its refusal.
pub proof fn lemma_result_of_receiving(
    v: EngineView,
    env: Envelope,
    parsed: Option<Signed>,
    now: int,
    r: Result<(Message, Option<Envelope>), PeerError>,
)
    requires
        outcome(v, env, parsed, now, r),
    ensures
        refusal(v, env, parsed, now) matches Some(e) ==> r == Err::<
            (Message, Option<Envelope>),
            PeerError,
        >(e),
        r matches Ok((m, reply)) ==> {
            &&& refusal(v, env, parsed, now) is None
            &&& parsed matches Some(s) && m == s.message
            &&& reply is Some <==> m is Hello || m is Ping || m is StatusRequest
            &&& reply matches Some(a) ==> exists|answer: Message| #[trigger]
                answers(v, m, Some(answer)) && carries(
                    received(v, env, parsed, now),
                    env.header.from@,
                    answer,
                    a,
                    now,
                )
        },
{
}

/// A message can be sent to a peer that is authenticated, but for those of the
/// handshake, and pings while fewer than two hundred and fifty-six are
/// outstanding. A ping that is sent is outstanding for two minutes, for that peer;
/// no other message changes anything.
pub proof fn lemma_sending(v: EngineView, id: Seq<char>, m: Message, now: int, other: Seq<char>)
    requires
        i64::MIN <= now && now + 120 <= i64::MAX,
    ensures
        !is_authenticated(v, id, now) ==> send_refusal(v, id, m, now) == Some(
            PeerError::HandshakeIncomplete,
        ) && sent(v, id, m, now) == v,
        is_authenticated(v, id, now) && (m is Hello || m is HelloAck) ==> send_refusal(
            v,
            id,
            m,
            now,
        ) == Some(PeerError::ReservedMessage),
        is_authenticated(v, id, now) && !(m is Hello || m is HelloAck || m is Ping)
            ==> send_refusal(v, id, m, now) is None,
        !(m is Ping) ==> sent(v, id, m, now) == v,
        is_authenticated(v, id, now) && m is Ping ==> ({
            let nonce = m->Ping_nonce@;
            let w = sent(v, id, m, now);
            let good = is_valid_id(nonce) && outstanding(v.pings, now).dom().len() < 256;
            &&& good ==> send_refusal(v, id, m, now) is None && w.pings.contains_key(nonce)
                && w.pings[nonce].0 == id && w.pings[nonce].1 == now + 120
            &&& !good ==> send_refusal(v, id, m, now) == Some(PeerError::PingLimit)
            &&& other != nonce || !good ==> (w.pings.contains_key(other) <==> v.pings.contains_key(
                other,
            ) && v.pings[other].1 > now) && (w.pings.contains_key(other) ==> w.pings[other]
                == v.pings[other])
            &&& w.peers == v.peers && w.seen == v.seen && w.trusted == v.trusted && w.session
                == v.session
        }),
{
}

/// What is kept of a map are the entries of which a property holds, as they were.
pub proof fn lemma_kept_entries<A>(
    m: Map<Seq<char>, A>,
    p: spec_fn(Seq<char>, A) -> bool,
    k: Seq<char>,
)
    ensures
        kept(m, p).contains_key(k) <==> m.contains_key(k) && p(k, m[k]),
        kept(m, p).contains_key(k) ==> kept(m, p)[k] == m[k],
{
}

/// An envelope opens only for the device and session to which it is addressed, as
/// one from the peer and session from which it comes, while it lasts; and then to
/// what its key decrypts.
pub proof fn lemma_opened_envelope(
    identity: Identity,
    session: Seq<char>,
    peer: Presence,
    env: Envelope,
    now: int,
    limit: nat,
)
    ensures
        ({
            let h = env.header;
            let shaped = encode_utf8(env.ciphertext@).len() <= limit && h.protocol == 1
                && is_valid_id(h.id@);
            let routed = h.to@ == identity.device() && h.from@ == peer.device@ && h.to_session@
                == session && h.from_session@ == peer.session@;
            let timely = h.issued - 30 <= now && now < h.expires && h.expires <= now + 150
                && h.expires == h.issued + 120;
            let r = opened(identity, session, peer, env, now, limit);
            &&& !shaped ==> r == Err::<Seq<u8>, PeerError>(PeerError::EnvelopeShape)
            &&& shaped && !routed ==> r == Err::<Seq<u8>, PeerError>(PeerError::EnvelopeRoute)
            &&& shaped && routed && !timely ==> r == Err::<Seq<u8>, PeerError>(
                PeerError::EnvelopeTime,
            )
            &&& shaped && routed && timely ==> r == crate::peer::crypto::decrypted(identity, env)
        }),
{
}

/// Going back after an activation makes the version active again that was active
/// before it: an activation that succeeded remembers that version, whatever was
/// remembered before, and makes the pending version the active one and the floor.
pub proof fn lemma_rollback_undoes_activation(state: UpdateState)
    ensures
        state.settled(true).active == state.pending,
        state.settled(true).previous == state.active,
        state.settled(true).highwater == state.pending,
        state.settled(true).pending is None,
        state.settled(true).rolled_back().active == state.active,
        state.settled(true).rolled_back().highwater == state.pending,
{
}

/// Going back makes the version active that was remembered, once: nothing is
/// remembered or pending then, and the floor stays.
pub proof fn lemma_rollback(state: UpdateState)
    ensures
        state.rolled_back().active == state.previous,
        state.rolled_back().previous is None,
        state.rolled_back().pending is None,
        state.rolled_back().highwater == state.highwater,
        state.settled(false).rolled_back() == state.rolled_back(),
{
}

/// A release can be staged exactly where it is of this product, platform and file,
/// stable and above the floor, of a size that can be, signed by the publisher, and
/// its file the one it describes; and where what is installed under its version,
/// if anything is, is the same file with the same proof. Its files are to be
/// installed exactly where nothing is.
pub proof fn lemma_staged_release(
    state: UpdateState,
    release: Release,
    bytes: Seq<u8>,
    existing: Option<Installed>,
    key: Seq<char>,
    platform: Seq<char>,
)
    ensures
        stage_result(state, release, bytes, existing, key, platform) is Ok <==> {
            &&& genuine(release, key, platform)
            &&& state.above_floor(release.version)
            &&& bytes.len() == release.size && release.describes(bytes)
            &&& existing matches Some(i) ==> release.describes(i.bytes@)
                && i.release.signature@ == release.signature@
        },
        stage_result(state, release, bytes, existing, key, platform) matches Ok(install) ==> install
            == (existing is None),
{
}

/// A release is the publisher's, for a platform.
pub open spec fn genuine(release: Release, key: Seq<char>, platform: Seq<char>) -> bool {
    &&& release.schema == 1
    &&& release.product@ == "twodrive-peer"@
    &&& release.platform@ == platform
    &&& release.file@ == if platform == "windows-x86_64"@ {
        "twodrive-peer.exe"@
    } else {
        "twodrive-peer"@
    }
    &&& release.version.stable()
    &&& 0 < release.size <= 134217728
    &&& is_valid_id(release.sha256@)
    &&& signature_check(key, encode_utf8(release.signing_text()), release.signature@) is Ok
}

/// What is installed under a version runs only if its proof is the publisher's, of
/// that version, and describes the file.
pub proof fn lemma_installed_release(
    version: Version,
    installed: Option<Installed>,
    key: Seq<char>,
    platform: Seq<char>,
)
    ensures
        inspection(version, installed, key, platform) is Ok ==> {
            &&& installed is Some
            &&& genuine(installed->0.release, key, platform)
            &&& installed->0.release.version.same(version)
            &&& installed->0.release.describes(installed->0.bytes@)
        },
        installed is Some && genuine(installed->0.release, key, platform)
            && installed->0.release.version.same(version) && installed->0.release.describes(
            installed->0.bytes@,
        ) && version.newer(Version { major: 0, minor: 0, patch: 0, ..version }) ==> inspection(
            version,
            installed,
            key,
            platform,
        ) is Ok,
        installed is None ==> inspection(version, installed, key, platform) == Err::<
            (),
            PeerError,
        >(PeerError::Unreadable),
{
}

/// The candidate that is launched is the pending version above the floor, with
/// what is installed under it verified, at its own place.
pub proof fn lemma_launched_candidate(
    state: UpdateState,
    installed: Option<Installed>,
    key: Seq<char>,
    platform: Seq<char>,
    place: Location,
    version: Version,
)
    requires
        launchable(state, installed, key, platform, place, version),
    ensures
        state.pending == Some(version),
        state.above_floor(version),
        installed is Some && genuine(installed->0.release, key, platform)
            && installed->0.release.version.same(version) && installed->0.release.describes(
            installed->0.bytes@,
        ),
        place.directory@ == version.text(),
        place.file@ == installed->0.release.file@,
{
}

/// The file that a release describes has its size and digest, and no other does.
pub proof fn lemma_described_file(release: Release, bytes: Seq<u8>)
    ensures
        release.describes(bytes) <==> bytes.len() == release.size
            && crate::peer::primitives::hex_of(crate::peer::primitives::sha256_of(bytes)) == release.sha256@,
{
}

/// A tag names a stable version, and only one: the text of the version behind its
/// prefix.
pub proof fn lemma_tag_names_a_version(tag: Seq<char>, v: Version)
    ensures
        is_tag(tag, v) <==> v.stable() && tag == "peer-v"@ + v.text() && encode_utf8(tag).len()
            < 64,
{
    assert(v.stable() ==> v.text() =~= stable_text(v.major, v.minor, v.patch));
}

/// Stable versions are ordered by their three numbers, the first that differs
/// deciding: one is newer than another, or the other way round, or they are the
/// same, and never two of these; and the order is transitive.
pub proof fn lemma_versions_are_ordered(a: Version, b: Version, c: Version)
    requires
        a.stable() && b.stable() && c.stable(),
    ensures
        a.newer(b) <==> a.major > b.major || (a.major == b.major && (a.minor > b.minor || (a.minor
            == b.minor && a.patch > b.patch))),
        a.newer(b) || b.newer(a) || a.same(b),
        !(a.newer(b) && b.newer(a)),
        a.same(b) ==> !a.newer(b),
        a.newer(b) && b.newer(c) ==> a.newer(c),
{
    assert(a.pre@ =~= b.pre@ && a.build@ =~= b.build@);
}

/// An update has to exceed both the announced version and the highest that was ever
/// active, and what exceeds both may be staged.
pub proof fn lemma_floor_is_the_highest(state: UpdateState, own: Version, v: Version)
    requires
        is_own_version(own),
        v.stable(),
        state.highwater is Some ==> state.highwater->0.stable(),
    ensures
        own.major == 0 && own.minor == 1 && own.patch == 0 && own.stable(),
        state.above_floor(v) <==> {
            &&& v.newer(own)
            &&& state.highwater is Some ==> v.newer(state.highwater->0)
        },
        state.is_floor(v) ==> {
            &&& !own.newer(v)
            &&& state.highwater is Some ==> !state.highwater->0.newer(v)
            &&& v.same(own) || (state.highwater is Some && v == state.highwater->0)
        },
{
    assert(is_own_version(announced()));
    assert(own.pre@ =~= announced().pre@ && own.build@ =~= announced().build@);
    assert(own.pre@ =~= v.pre@ && own.build@ =~= v.build@);
}

/// The platforms that updates are published for are told apart by operating system
/// and architecture, and every other one is unsupported.
pub proof fn lemma_platform_is_told(os: Seq<char>, arch: Seq<char>)
    ensures
        platform_name(os, arch) == "windows-x86_64"@ <==> os == "windows"@ && arch == "x86_64"@,
        platform_name(os, arch) == "linux-x86_64"@ <==> os == "linux"@ && arch == "x86_64"@,
        platform_name(os, arch) == "windows-x86_64"@ || platform_name(os, arch) == "linux-x86_64"@
            || platform_name(os, arch) == "unsupported"@,
{
    reveal_strlit("windows");
    reveal_strlit("linux");
    reveal_strlit("windows-x86_64");
    reveal_strlit("linux-x86_64");
    reveal_strlit("unsupported");
    assert("windows"@.len() == 7 && "linux"@.len() == 5);
    assert("windows-x86_64"@.len() == 14 && "linux-x86_64"@.len() == 12 && "unsupported"@.len()
        == 11);
}

/// A sealed envelope goes from the device and its session to the peer and the
/// session that the peer announced, for two minutes from now, and shows what was
/// drawn for it: its identifier, the public half of its key and its nonce. Nothing
/// is sealed for a peer whose presence is not valid.
pub proof fn lemma_sealed_envelope(
    identity: Identity,
    session: Seq<char>,
    peer: Presence,
    message: Message,
    now: int,
    chance: Chance,
    env: Envelope,
)
    requires
        sealed(identity, session, peer, message, now, chance, Ok(env)),
    ensures
        peer.check(now) is Ok,
        env.header.protocol == 1,
        env.header.from@ == identity.device(),
        env.header.from_session@ == session,
        env.header.to@ == peer.device@,
        env.header.to_session@ == peer.session@,
        env.header.issued == now,
        env.header.expires == now + 120,
        env.header.id@ == hex_of(chance.id@),
        env.header.ephemeral@ == hex_of(x25519_public_of(chance.secret@)),
        env.header.nonce@ == hex_of(chance.nonce@),
{
}

/// What a device announces of itself: its own keys, under the identifier that is
/// the digest of its signing key, the session, three minutes from now on, its
/// version and platform, and its signature of the whole of it.
pub proof fn lemma_presented_device(
    identity: Identity,
    session: Seq<char>,
    platform: Seq<char>,
    now: int,
    p: Presence,
)
    requires
        presents(identity, session, platform, now, p),
    ensures
        p.protocol == 1,
        p.device@ == hex_of(sha256_of(identity.public())),
        p.signing@ == hex_of(identity.public()),
        p.encryption@ == hex_of(x25519_public_of(identity.agreement_secret())),
        p.session@ == session,
        p.issued == now,
        p.expires == now + 180,
        p.version@ == "0.1.0"@,
        p.platform@ == platform,
        p.signature@ == hex_of(
            ed25519_signature_of(identity.signing_seed(), encode_utf8(p.signing_text())),
        ),
{
}

/// A key that is written down is read back as it was if it has thirty-two bytes, and
/// nothing else is taken for one.
pub proof fn lemma_key_is_read(key: Seq<u8>, text: Seq<char>)
    ensures
        key.len() == 32 ==> key_of(hex_of(key)) == Ok::<Seq<u8>, PeerError>(key),
        key.len() != 32 ==> key_of(hex_of(key)) == Err::<Seq<u8>, PeerError>(PeerError::KeyLength),
        unhex(text) is None ==> key_of(text) == Err::<Seq<u8>, PeerError>(PeerError::NotHex),
        key_of(text) matches Ok(k) ==> k.len() == 32 && unhex(text) == Some(k),
{
    lemma_unhex_hex(key);
}

/// An envelope that carries a message to a peer goes from this device in its session
/// to the peer in the session that it last announced, for two minutes from now.
pub proof fn lemma_carried_envelope(
    v: EngineView,
    id: Seq<char>,
    m: Message,
    env: Envelope,
    now: int,
)
    requires
        carries(v, id, m, env, now),
    ensures
        v.peers.contains_key(id) && v.peers[id].presence is Some,
        env.header.from@ == v.identity.device(),
        env.header.from_session@ == v.session,
        env.header.to@ == v.peers[id].presence->0.device@,
        env.header.to_session@ == v.peers[id].presence->0.session@,
        env.header.issued == now,
        env.header.expires == now + 120,
{
}

/// Devices agree on what their keys give, unless that is all zero; then the other
/// key contributed nothing, and there is no agreement.
pub proof fn lemma_agreement(identity: Identity, public: Seq<char>)
    ensures
        identity.agreed(public) matches Ok(s) ==> {
            &&& key_of(public) is Ok
            &&& s == x25519_shared_of(identity.agreement_secret(), key_of(public)->Ok_0)
            &&& exists|i: int| 0 <= i < s.len() && #[trigger] s[i] != 0
        },
        identity.agreed(public) == Err::<Seq<u8>, PeerError>(PeerError::NotContributory) <==> {
            &&& key_of(public) is Ok
            &&& forall|i: int|
                0 <= i < x25519_shared_of(
                    identity.agreement_secret(),
                    key_of(public)->Ok_0,
                ).len() ==> #[trigger] x25519_shared_of(
                    identity.agreement_secret(),
                    key_of(public)->Ok_0,
                )[i] == 0
        },
{
}

} // verus!
