use twodrive::ordered::StringSet;
use twodrive::peer::crypto::{accept, chance, open, seal, seal_with, Chance, Envelope, Signed};
use twodrive::peer::identity::{
    bytes32, nonce, platform, valid_id, verify, Identity, Presence, Stored,
};
use twodrive::peer::protocol::{Engine, Message};
use twodrive::peer::{PeerError, VERSION};

const LIMIT: usize = 65_536;

fn text(v: &serde_json::Value, name: &str) -> String {
    v.get(name).unwrap().as_str().unwrap().to_string()
}

fn parsed(plaintext: &[u8]) -> Option<Signed> {
    let v: serde_json::Value = serde_json::from_slice(plaintext).ok()?;
    let m = v.get("message")?;
    let message = match m.get("type")?.as_str()? {
        "hello" => Message::Hello { challenge: text(m, "challenge") },
        "hello_ack" => Message::HelloAck { challenge: text(m, "challenge") },
        "ping" => Message::Ping { nonce: text(m, "nonce") },
        "pong" => Message::Pong { nonce: text(m, "nonce") },
        "status_request" => Message::StatusRequest,
        "status" => Message::Status {
            version: text(m, "version"),
            platform: text(m, "platform"),
            selected_roots: m.get("selected_roots")?.as_u64()? as usize,
        },
        "update_available" => Message::UpdateAvailable { tag: text(m, "tag") },
        _ => return None,
    };
    Some(Signed { message, signature: text(&v, "signature") })
}

fn receive(
    engine: &mut Engine,
    env: &Envelope,
    now: i64,
) -> Result<(Message, Option<Envelope>), PeerError> {
    let signed = match engine.open(env, now) {
        Ok(bytes) => parsed(&bytes),
        Err(_) => None,
    };
    engine.receive(env, &signed, now)
}

fn set(ids: &[String]) -> StringSet {
    let mut s = StringSet::new();
    for id in ids {
        s.insert(id.clone());
    }
    s
}

fn pair() -> (Engine, Engine) {
    let a = Identity::generate();
    let b = Identity::generate();
    let (ai, bi) = (a.id(), b.id());
    (
        Engine::new(a, set(&[bi]), LIMIT, "linux-x86_64"),
        Engine::new(b, set(&[ai]), LIMIT, "linux-x86_64"),
    )
}

fn discover(a: &mut Engine, b: &mut Engine) {
    a.discover(b.presence(1000), 1000).unwrap();
    b.discover(a.presence(1000), 1000).unwrap();
}

fn handshake(a: &mut Engine, b: &mut Engine) {
    let hello = a.hello(&b.id(), 1000).unwrap();
    let (_, ack) = receive(b, &hello, 1000).unwrap();
    receive(a, &ack.unwrap(), 1000).unwrap();
}

#[test]
fn mutual_handshake_bidirectional_control_replay_and_restart() {
    let (mut a, mut b) = pair();
    discover(&mut a, &mut b);
    assert!(a.send(&b.id(), &Message::StatusRequest, 1000).is_err());
    handshake(&mut a, &mut b);
    handshake(&mut b, &mut a);
    for _ in 0..2 {
        let ping = a.send(&b.id(), &Message::Ping { nonce: nonce() }, 1001).unwrap();
        let (_, pong) = receive(&mut b, &ping, 1001).unwrap();
        assert!(matches!(
            receive(&mut a, &pong.unwrap(), 1001).unwrap().0,
            Message::Pong { .. }
        ));
        assert!(receive(&mut b, &ping, 1001).is_err());
        b.session = nonce();
        assert!(receive(&mut b, &ping, 1001).is_err());
        discover(&mut a, &mut b);
        handshake(&mut a, &mut b);
        handshake(&mut b, &mut a);
        std::mem::swap(&mut a, &mut b);
    }
}

#[test]
fn tamper_unknown_sender_expiry_version_and_wrong_session_rejected() {
    let (mut a, mut b) = pair();
    discover(&mut a, &mut b);
    let original = a.hello(&b.id(), 1000).unwrap();
    let mut bad = original.clone();
    bad.header.protocol = 2;
    assert!(receive(&mut b, &bad, 1000).is_err());
    let mut bad = original.clone();
    bad.header.to = nonce();
    assert!(receive(&mut b, &bad, 1000).is_err());
    let mut bad = original.clone();
    bad.header.id = nonce();
    assert!(receive(&mut b, &bad, 1000).is_err());
    let mut bad = original.clone();
    let replacement = if bad.ciphertext.starts_with('0') { "1" } else { "0" };
    bad.ciphertext.replace_range(..1, replacement);
    assert_ne!(bad.ciphertext, original.ciphertext);
    assert!(receive(&mut b, &bad, 1000).is_err());
    assert!(receive(&mut b, &original, 1121).is_err());
    let c = Identity::generate();
    assert!(!b.discover(c.presence(&nonce(), 1000, "linux-x86_64"), 1000).unwrap());
    let mut presence = a.presence(1000);
    presence.encryption = nonce();
    assert!(b.discover(presence, 1000).is_err());
}

#[test]
fn identity_persists_and_low_order_keys_fail() {
    let a = Identity::generate();
    let stored = a.to_stored();
    assert_eq!(a.id(), Identity::from_stored(&stored).unwrap().id());
    assert!(a.shared(&"00".repeat(32)).is_err());
}

#[test]
fn cloud_presence_rejects_terminal_controls_and_unknown_platform() {
    let id = Identity::generate();
    let mut p = id.presence(&nonce(), 1000, "linux-x86_64");
    p.platform = "\x1b[2J".into();
    assert!(p.verify(1000).is_err());
    p.platform = "windows-x86_64".into();
    p.version = "\nforged output".into();
    assert!(p.verify(1000).is_err());
}

#[test]
fn an_identity_of_another_version_is_refused() {
    let mut stored = Identity::generate().to_stored();
    stored.version = 9;
    assert!(matches!(Identity::from_stored(&stored), Err(PeerError::IdentityVersion)));
}

/// The keys of a fixed device.
fn device() -> Identity {
    let stored = Identity::generate().to_stored();
    Identity::from_stored(&Stored {
        version: stored.version,
        signing: [7; 32],
        encryption: [9; 32],
    })
    .unwrap()
}

#[test]
fn keys_and_signatures_are_those_of_the_curves() {
    let id = device();
    let key = ed25519_dalek::SigningKey::from_bytes(&[7; 32]);
    let p = id.presence(&nonce(), 1000, "linux-x86_64");
    assert_eq!(p.signing, hex::encode(key.verifying_key().as_bytes()));
    let secret = x25519_dalek::StaticSecret::from([9; 32]);
    let public = x25519_dalek::PublicKey::from(&secret);
    assert_eq!(p.encryption, hex::encode(public.as_bytes()));
    assert_eq!(p.device, id.id());
    assert!(valid_id(&id.id()));
    let signature = id.sign(b"text");
    let outside = ed25519_dalek::Signer::sign(&key, b"text");
    assert_eq!(signature, hex::encode(outside.to_bytes()));
    assert_eq!(verify(&p.signing, b"text", &signature), Ok(()));
    assert_eq!(verify(&p.signing, b"texts", &signature), Err(PeerError::Signature));
    let other = x25519_dalek::StaticSecret::from([11; 32]);
    let theirs = x25519_dalek::PublicKey::from(&other);
    assert_eq!(
        id.shared(&hex::encode(theirs.as_bytes())).unwrap(),
        *secret.diffie_hellman(&theirs).as_bytes()
    );
}

#[test]
fn the_identifier_is_the_fingerprint_of_the_signing_key() {
    let id = device();
    let p = id.presence(&nonce(), 1000, "linux-x86_64");
    let key = hex::decode(&p.signing).unwrap();
    let digest = <sha2::Sha256 as sha2::Digest>::digest(&key);
    assert_eq!(p.device, hex::encode(digest));
}

#[test]
fn identifiers_and_platforms() {
    assert!(valid_id(&"0a".repeat(32)));
    assert!(!valid_id(&"0A".repeat(32)));
    assert!(!valid_id(&"0a".repeat(31)));
    assert!(!valid_id(&"0g".repeat(32)));
    assert!(valid_id(&nonce()));
    assert_ne!(nonce(), nonce());
    assert_eq!(bytes32(&"01".repeat(32)), Ok([1; 32]));
    assert_eq!(bytes32("zz"), Err(PeerError::NotHex));
    assert_eq!(bytes32("01"), Err(PeerError::KeyLength));
    assert_eq!(platform("windows", "x86_64"), "windows-x86_64");
    assert_eq!(platform("linux", "x86_64"), "linux-x86_64");
    assert_eq!(platform("linux", "aarch64"), "unsupported");
}

#[test]
fn a_presence_is_refused_for_each_reason() {
    let id = device();
    let good = id.presence(&nonce(), 1000, "linux-x86_64");
    assert_eq!(good.version, VERSION);
    assert_eq!((good.issued, good.expires), (1000, 1180));
    assert_eq!(good.verify(1000), Ok(()));
    let check = |f: &dyn Fn(&mut Presence)| {
        let mut p = good.clone();
        f(&mut p);
        p.verify(1000)
    };
    assert_eq!(check(&|p| p.protocol = 2), Err(PeerError::PresenceShape));
    assert_eq!(check(&|p| p.session = "x".into()), Err(PeerError::PresenceShape));
    assert_eq!(check(&|p| p.issued = 0), Err(PeerError::PresenceTime));
    assert_eq!(check(&|p| p.version = "9".repeat(100)), Err(PeerError::PresenceMetadata));
    assert_eq!(check(&|p| p.device = nonce()), Err(PeerError::Fingerprint));
    assert_eq!(check(&|p| p.session = nonce()), Err(PeerError::Signature));
    assert_eq!(good.verify(1180), Err(PeerError::PresenceTime));
}

#[test]
fn what_is_sealed_can_be_opened_by_its_recipient() {
    let (a, b) = (Identity::generate(), Identity::generate());
    let session = nonce();
    let (pa, pb) = (
        a.presence(&nonce(), 1000, "linux-x86_64"),
        b.presence(&session, 1000, "linux-x86_64"),
    );
    let message = Message::UpdateAvailable { tag: "peer-v0.2.0 \"quoted\" \u{1f600}".to_string() };
    let env = seal(&a, &pa.session, &pb, &message, 1000).unwrap();
    assert_eq!((env.header.issued, env.header.expires), (1000, 1120));
    assert_eq!(env.header.from, a.id());
    assert_eq!(env.header.to, b.id());
    let plain = open(&b, &session, &pa, &env, 1000, LIMIT).unwrap();
    let signed = parsed(&plain).unwrap();
    assert_eq!(accept(&pa, &env.header, &signed), Ok(()));
    assert!(matches!(&signed.message, Message::UpdateAvailable { tag }
        if tag == "peer-v0.2.0 \"quoted\" \u{1f600}"));
    let forged = Signed { message: Message::StatusRequest, signature: signed.signature.clone() };
    assert_eq!(accept(&pa, &env.header, &forged), Err(PeerError::Signature));

    let stranger = Identity::generate();
    assert_eq!(
        open(&stranger, &session, &pa, &env, 1000, LIMIT),
        Err(PeerError::EnvelopeRoute)
    );
    assert_eq!(open(&b, &nonce(), &pa, &env, 1000, LIMIT), Err(PeerError::EnvelopeRoute));
    assert_eq!(open(&b, &session, &pa, &env, 1120, LIMIT), Err(PeerError::EnvelopeTime));
    assert_eq!(open(&b, &session, &pa, &env, 1000, 3), Err(PeerError::EnvelopeShape));
    let mut bad = env.clone();
    bad.header.nonce = "00".to_string();
    assert_eq!(open(&b, &session, &pa, &bad, 1000, LIMIT), Err(PeerError::NonceLength));
    let mut bad = env.clone();
    bad.header.ephemeral = "00".repeat(32);
    assert_eq!(open(&b, &session, &pa, &bad, 1000, LIMIT), Err(PeerError::NotContributory));
    let mut bad = env.clone();
    bad.header.issued = 999;
    assert_eq!(open(&b, &session, &pa, &bad, 1000, LIMIT), Err(PeerError::EnvelopeTime));
    let mut bad = env;
    bad.ciphertext = "00".repeat(40);
    assert_eq!(open(&b, &session, &pa, &bad, 1000, LIMIT), Err(PeerError::Authentication));
}

#[test]
fn what_is_sealed_opens_in_its_time_only() {
    let (a, b) = (Identity::generate(), Identity::generate());
    let session = nonce();
    let (pa, pb) = (
        a.presence(&nonce(), 1000, "linux-x86_64"),
        b.presence(&session, 1000, "linux-x86_64"),
    );
    let env = seal(&a, &pa.session, &pb, &Message::StatusRequest, 1000).unwrap();
    let at = |now: i64| open(&b, &session, &pa, &env, now, LIMIT);
    assert_eq!(at(969), Err(PeerError::EnvelopeTime));
    assert!(at(970).is_ok());
    assert_eq!(at(970), at(1119));
    assert_eq!(at(1120), Err(PeerError::EnvelopeTime));
    let elsewhere = a.presence(&nonce(), 1000, "linux-x86_64");
    assert_eq!(
        open(&b, &session, &elsewhere, &env, 1000, LIMIT),
        Err(PeerError::EnvelopeRoute)
    );
    assert_eq!(pa.verify(969), Err(PeerError::PresenceTime));
    assert_eq!(pa.verify(970), Ok(()));
    assert_eq!(pa.verify(1179), Ok(()));
}

fn challenge(a: &mut Engine, b: &Engine) -> String {
    let hello = a.hello(&b.id(), 1000).unwrap();
    match parsed(&b.open(&hello, 1000).unwrap()).unwrap().message {
        Message::Hello { challenge } => challenge,
        _ => panic!("no challenge"),
    }
}

#[test]
fn a_peer_keeps_its_challenge_until_it_begins_a_session() {
    let (a, b) = (device(), Identity::generate());
    let (ai, bi) = (a.id(), b.id());
    let stored = b.to_stored();
    let mut a = Engine::new(a, set(&[bi]), LIMIT, "linux-x86_64");
    let mut b = Engine::new(b, set(&[ai.clone()]), LIMIT, "linux-x86_64");
    b.discover(a.presence(1000), 1000).unwrap();
    let (one, two) = ("a1".repeat(32), "b2".repeat(32));
    assert_eq!(a.discover_with(b.presence(1000), one.clone(), 1000), Ok(true));
    assert_eq!(challenge(&mut a, &b), one);
    assert_eq!(a.discover_with(b.presence(1000), two.clone(), 1000), Ok(true));
    assert_eq!(challenge(&mut a, &b), one);
    let again = Identity::from_stored(&stored).unwrap();
    let mut b = Engine::new(again, set(&[ai]), LIMIT, "linux-x86_64");
    b.discover(a.presence(1000), 1000).unwrap();
    assert_eq!(a.discover_with(b.presence(1000), two.clone(), 1000), Ok(true));
    assert_eq!(challenge(&mut a, &b), two);
}

#[test]
fn the_same_choices_seal_the_same_envelope() {
    let (a, b) = (device(), Identity::generate());
    let pb = b.presence(&nonce(), 1000, "linux-x86_64");
    let choices = Chance { secret: [3; 32], id: [4; 32], nonce: [5; 24] };
    let session = nonce();
    let one = seal_with(&a, &session, &pb, &Message::StatusRequest, 1000, &choices).unwrap();
    let two = seal_with(&a, &session, &pb, &Message::StatusRequest, 1000, &choices).unwrap();
    assert_eq!(one.ciphertext, two.ciphertext);
    assert_eq!(one.header.id, "04".repeat(32));
    assert_eq!(one.header.nonce, "05".repeat(24));
    let other = chance();
    let three = seal_with(&a, &session, &pb, &Message::StatusRequest, 1000, &other).unwrap();
    assert_ne!(one.ciphertext, three.ciphertext);
}

#[test]
fn messages_are_written_as_they_are_read() {
    assert_eq!(
        Message::Status {
            version: "0.1.0".to_string(),
            platform: "linux-x86_64".to_string(),
            selected_roots: 12,
        }
        .to_json(),
        "{\"type\":\"status\",\"version\":\"0.1.0\",\"platform\":\"linux-x86_64\",\"selected_roots\":12}"
    );
    assert_eq!(Message::StatusRequest.to_json(), "{\"type\":\"status_request\"}");
    assert_eq!(
        Message::Ping { nonce: "a\"\\\n\u{1}é".to_string() }.to_json(),
        "{\"type\":\"ping\",\"nonce\":\"a\\\"\\\\\\n\\u0001é\"}"
    );
}

#[test]
fn the_protocol_refuses_for_each_reason() {
    let (mut a, mut b) = pair();
    assert_eq!(a.hello(&nonce(), 1000).err(), Some(PeerError::UnknownPeer));
    assert_eq!(a.discover(a.presence(1000), 1000), Err(PeerError::SelfPresence));
    discover(&mut a, &mut b);
    let bid = b.id();
    assert_eq!(
        a.send(&bid, &Message::StatusRequest, 1000).err(),
        Some(PeerError::HandshakeIncomplete)
    );
    handshake(&mut a, &mut b);
    assert!(a.authenticated(&bid, 1000));
    assert!(!b.authenticated(&a.id(), 1000));
    assert_eq!(
        a.send(&bid, &Message::Hello { challenge: nonce() }, 1000).err(),
        Some(PeerError::ReservedMessage)
    );
    assert_eq!(
        a.send(&bid, &Message::Ping { nonce: "short".to_string() }, 1000).err(),
        Some(PeerError::PingLimit)
    );
    let status = a.send(&bid, &Message::StatusRequest, 1000).unwrap();
    assert_eq!(receive(&mut b, &status, 1000).err(), Some(PeerError::BeforeHandshake));
    handshake(&mut b, &mut a);
    let status = a.send(&bid, &Message::StatusRequest, 1000).unwrap();
    let (_, answer) = receive(&mut b, &status, 1000).unwrap();
    let (message, none) = receive(&mut a, &answer.unwrap(), 1000).unwrap();
    assert!(none.is_none());
    assert!(matches!(message, Message::Status { selected_roots: 0, .. }));
    let pong = a.send(&bid, &Message::Pong { nonce: nonce() }, 1000).unwrap();
    assert_eq!(receive(&mut b, &pong, 1000).err(), Some(PeerError::UnsolicitedPong));
    let long = Message::Status {
        version: "9".repeat(65),
        platform: "linux-x86_64".to_string(),
        selected_roots: 0,
    };
    let status = a.send(&bid, &long, 1000).unwrap();
    assert_eq!(receive(&mut b, &status, 1000).err(), Some(PeerError::BadStatus));
    let tag = a.send(&bid, &Message::UpdateAvailable { tag: "evil".to_string() }, 1000).unwrap();
    assert_eq!(receive(&mut b, &tag, 1000).err(), Some(PeerError::Tag));
    let fine = a
        .send(&bid, &Message::UpdateAvailable { tag: "peer-v0.2.0".to_string() }, 1000)
        .unwrap();
    assert!(receive(&mut b, &fine, 1000).is_ok());
    assert_eq!(receive(&mut b, &fine, 1000).err(), Some(PeerError::Replayed));
    b.trust(StringSet::new());
    assert!(b.peer_ids().is_empty());
    let late = a.send(&bid, &Message::StatusRequest, 1000).unwrap();
    assert_eq!(receive(&mut b, &late, 1000).err(), Some(PeerError::UntrustedSender));
}

#[test]
fn a_plaintext_that_is_no_message_is_refused() {
    let (mut a, mut b) = pair();
    discover(&mut a, &mut b);
    let hello = a.hello(&b.id(), 1000).unwrap();
    assert_eq!(b.receive(&hello, &None, 1000).err(), Some(PeerError::Malformed));
}

#[test]
fn a_pong_answers_one_ping() {
    let (mut a, mut b) = pair();
    discover(&mut a, &mut b);
    handshake(&mut a, &mut b);
    handshake(&mut b, &mut a);
    let n = nonce();
    let ping = a.send(&b.id(), &Message::Ping { nonce: n.clone() }, 1001).unwrap();
    let (_, pong) = receive(&mut b, &ping, 1001).unwrap();
    assert!(receive(&mut a, &pong.unwrap(), 1001).is_ok());
    let again = b.send(&a.id(), &Message::Pong { nonce: n }, 1001).unwrap();
    assert_eq!(receive(&mut a, &again, 1001).err(), Some(PeerError::UnsolicitedPong));
}

#[test]
fn no_envelope_is_accepted_twice_whatever_happens_meanwhile() {
    let (mut a, mut b) = pair();
    discover(&mut a, &mut b);
    let hello = a.hello(&b.id(), 1000).unwrap();
    assert!(receive(&mut b, &hello, 1000).is_ok());
    assert!(receive(&mut b, &hello, 1000).is_err());
    b.trust(set(&[]));
    assert!(receive(&mut b, &hello, 1001).is_err());
    b.trust(set(&[a.id()]));
    b.discover(a.presence(1002), 1002).unwrap();
    assert!(receive(&mut b, &hello, 1002).is_err());
    assert!(receive(&mut b, &hello, 1120).is_err());
    let fresh = a.hello(&b.id(), 1002).unwrap();
    assert!(receive(&mut b, &fresh, 1002).is_ok());
}
