use twodrive::ordered::{StringMap, StringSet};
use twodrive::peer::crypto::{chance, Envelope, Signed};
use twodrive::peer::identity::{nonce, Identity};
use twodrive::peer::local::{
    default_home, is_listed, json_name, prepare, read, select_root, with_app_folder, Found,
};
use twodrive::peer::protocol::{Engine, Message};
use twodrive::peer::runtime::{
    discover, put, queue, supervise, trust, trusted, worker, Announced, Greeting, Occurrence, Order,
    Outgoing, Queued, SelfTest, Supervision, Worker, STARTUP,
};
use twodrive::peer::PeerError;

const LIMIT: usize = 65_536;

fn parsed(plaintext: &[u8]) -> Option<Signed> {
    let v: serde_json::Value = serde_json::from_slice(plaintext).ok()?;
    let text = |o: &serde_json::Value, n: &str| Some(o.get(n)?.as_str()?.to_string());
    let m = v.get("message")?;
    let message = match text(m, "type")?.as_str() {
        "hello" => Message::Hello { challenge: text(m, "challenge")? },
        "hello_ack" => Message::HelloAck { challenge: text(m, "challenge")? },
        "ping" => Message::Ping { nonce: text(m, "nonce")? },
        "pong" => Message::Pong { nonce: text(m, "nonce")? },
        "status_request" => Message::StatusRequest,
        "update_available" => Message::UpdateAvailable { tag: text(m, "tag")? },
        _ => return None,
    };
    Some(Signed { message, signature: text(&v, "signature")? })
}

fn deliver(
    to: &mut Worker,
    env: &Envelope,
    now: i64,
) -> Result<(Message, Option<Envelope>), PeerError> {
    let (_, name) = put(env);
    let signed = to.engine.open(env, now).ok().and_then(|b| parsed(&b));
    to.incoming(&name, 100, &Some(env.clone()), &signed, now)
}

fn set(ids: &[String]) -> StringSet {
    trusted(&Some(ids.to_vec()))
}

fn workers() -> (Worker, Worker) {
    let (a, b) = (Identity::generate(), Identity::generate());
    let (ai, bi) = (a.id(), b.id());
    (
        Worker::new(Engine::new(a, set(&[bi]), LIMIT, "linux-x86_64"), true),
        Worker::new(Engine::new(b, set(&[ai]), LIMIT, "linux-x86_64"), true),
    )
}

#[test]
fn rounds_of_two_devices_authenticate_and_carry_messages() {
    let (mut a, mut b) = workers();
    let (aid, bid) = (a.engine.id(), b.engine.id());
    let pa = a.begin(set(&[bid.clone()]), 1000).unwrap();
    a.published(1000);
    assert!(a.begin(set(&[bid.clone()]), 1029).is_none());
    assert!(a.begin(set(&[bid.clone()]), 1030).is_some());
    let pb = b.begin(set(&[aid.clone()]), 1000).unwrap();
    let found = vec![
        Announced { name: json_name(&aid), size: 100, presence: Some(pa.clone()) },
        Announced { name: "wrong.json".to_string(), size: 1, presence: Some(pb.clone()) },
        Announced { name: json_name(&bid), size: 101, presence: Some(pb.clone()) },
        Announced { name: "broken.json".to_string(), size: 1, presence: None },
        Announced { name: json_name(&bid), size: 0, presence: Some(pb) },
    ];
    let list = discover(&found, 100, 1000);
    assert_eq!(list.len(), 2);
    a.discovered(&list, 1000);
    b.discovered(&list, 1000);
    assert_eq!(a.engine.peer_ids(), vec![bid.clone()]);

    for (from, to, id) in [(0, 1, &bid), (1, 0, &aid)] {
        let (one, two) = if from < to { (&mut a, &mut b) } else { (&mut b, &mut a) };
        let hello = match one.greet(id, 1000) {
            Greeting::Send(e) => e,
            _ => panic!("no challenge"),
        };
        one.greeted(id, 1000);
        assert!(matches!(one.greet(id, 1019), Greeting::Skip));
        let (_, ack) = deliver(two, &hello, 1000).unwrap();
        deliver(one, &ack.unwrap(), 1000).unwrap();
    }
    assert!(a.engine.authenticated(&bid, 1000));
    assert!(matches!(a.greet(&bid, 1100), Greeting::Skip));

    let ping = queue(&bid, Message::Ping { nonce: nonce() }, &set(&[bid.clone()]), 0, 1000).unwrap();
    assert_eq!(ping.expires, 1300);
    let env = match a.outgoing(&ping, 1000) {
        Outgoing::Send(e) => e,
        _ => panic!("not sent"),
    };
    assert_eq!(put(&env), (format!("in-{bid}"), format!("{}.json", env.header.id)));
    assert_eq!(b.bucket(), format!("in-{bid}"));
    let (message, pong) = deliver(&mut b, &env, 1000).unwrap();
    assert!(b.count(&message, 1000).is_none());
    assert_eq!((b.counters.received, b.counters.pings), (1, 1));
    let (message, _) = deliver(&mut a, &pong.unwrap(), 1000).unwrap();
    a.count(&message, 1000);
    assert_eq!(a.counters.pongs, 1);

    let status = a.report(&list, &Some(set(&[bid.clone()])), 1000);
    assert_eq!(status.len(), 1);
    assert!(status[0].trusted && status[0].authenticated);
    assert_eq!((status[0].device.clone(), status[0].expires), (bid, 1180));
}

#[test]
fn mail_is_refused_for_each_reason() {
    let (mut a, b) = workers();
    let presence = b.engine.presence(1000);
    a.discovered(&vec![presence], 1000);
    let env = match a.greet(&b.engine.id(), 1000) {
        Greeting::Send(e) => e,
        _ => panic!("no challenge"),
    };
    let mut b = b;
    let err = |r: Result<(Message, Option<Envelope>), PeerError>| r.err();
    assert_eq!(
        err(b.incoming("x.json", LIMIT as u64 + 1, &None, &None, 1000)),
        Some(PeerError::TooLarge)
    );
    assert_eq!(err(b.incoming("x.json", 9, &None, &None, 1000)), Some(PeerError::Malformed));
    assert_eq!(
        err(b.incoming("x.json", 9, &Some(env.clone()), &None, 1000)),
        Some(PeerError::MailName)
    );
    let (_, name) = put(&env);
    assert_eq!(
        err(b.incoming(&name, 9, &Some(env), &None, 1000)),
        Some(PeerError::UntrustedSender)
    );
    b.reject();
    assert_eq!(b.counters.rejected, 1);
}

#[test]
fn a_challenge_that_cannot_be_made_counts() {
    let (mut a, b) = workers();
    let id = b.engine.id();
    assert!(matches!(a.greet(&id, 1000), Greeting::Silent(PeerError::UnknownPeer)));
    a.greeted(&id, 1000);
    assert!(matches!(a.greet(&id, 1001), Greeting::Skip));
    assert!(matches!(a.greet(&id, 1020), Greeting::Silent(_)));
}

#[test]
fn waiting_messages_expire() {
    let (mut a, b) = workers();
    let q = Queued { to: b.engine.id(), message: Message::StatusRequest, expires: 1000 };
    assert!(matches!(a.outgoing(&q, 1000), Outgoing::Expired));
    assert!(matches!(a.outgoing(&q, 999), Outgoing::Wait));
}

#[test]
fn a_release_is_tried_once_an_hour() {
    let (mut a, _) = workers();
    let news = Message::UpdateAvailable { tag: "peer-v0.2.0".to_string() };
    assert_eq!(a.count(&news, 10_000), Some("peer-v0.2.0".to_string()));
    assert_eq!(a.count(&news, 13_600), None);
    assert_eq!(a.count(&news, 13_601), Some("peer-v0.2.0".to_string()));
    a.auto_update = false;
    assert_eq!(a.count(&news, 99_999), None);
    assert_eq!(a.counters.received, 4);
}

#[test]
fn trust_is_bounded_and_checked() {
    let mut ids = trusted(&None);
    assert_eq!(ids.len(), 0);
    assert_eq!(trust(&mut ids, "short", false), Err(PeerError::BadFingerprint));
    let first = nonce();
    assert_eq!(trust(&mut ids, &first, false), Ok(()));
    assert!(ids.contains(&first));
    for _ in 1..64 {
        assert_eq!(trust(&mut ids, &nonce(), false), Ok(()));
    }
    assert_eq!(trust(&mut ids, &nonce(), false), Err(PeerError::TrustLimit));
    assert_eq!(trust(&mut ids, &first, true), Ok(()));
    assert_eq!(ids.len(), 63);
    assert!(matches!(
        queue(&first, Message::StatusRequest, &ids, 0, 0),
        Err(PeerError::UntrustedRecipient)
    ));
    let known = ids.list()[0].clone();
    assert!(matches!(
        queue(&known, Message::StatusRequest, &ids, 256, 0),
        Err(PeerError::OutboxFull)
    ));
}

#[test]
fn the_supervisor_goes_back_from_a_broken_update() {
    let (s, o) = supervise(Supervision::Activating, Occurrence::Activated);
    assert_eq!(o, Order::Locate);
    let (s, o) = supervise(s, Occurrence::Located { first: false });
    assert_eq!(o, Order::Start);
    let polled = |ready, exited, elapsed| Occurrence::Polled { ready, exited, elapsed };
    let (s, o) = supervise(s, polled(false, false, STARTUP));
    assert_eq!(o, Order::Poll);
    let (killing, o) = supervise(s, polled(false, false, STARTUP + 1));
    assert_eq!(o, Order::Kill);
    let (back, o) = supervise(killing, Occurrence::Killed);
    assert_eq!(o, Order::GoBack);
    assert_eq!(supervise(back, Occurrence::WentBack), (Supervision::Activating, Order::Activate));
    let (running, o) = supervise(s, polled(true, false, 1));
    assert_eq!(o, Order::Wait);
    let exited = |restart, success, elapsed| Occurrence::Exited { restart, success, elapsed };
    assert_eq!(supervise(running, exited(false, false, STARTUP - 1)).1, Order::GoBack);
    assert_eq!(
        supervise(running, exited(false, false, STARTUP)).1,
        Order::Fail(PeerError::WorkerStopped)
    );
    assert_eq!(supervise(running, exited(false, true, 1)).1, Order::Finish);
    assert_eq!(supervise(running, exited(true, false, 1)).1, Order::Activate);
    let first = Supervision::Starting { first: true };
    assert_eq!(
        supervise(first, polled(false, true, 1)).1,
        Order::Fail(PeerError::StartupFailed)
    );
    let missing = Supervision::Locating { again: false };
    let (s, o) = supervise(missing, Occurrence::NotLocated);
    assert_eq!(o, Order::GoBack);
    let (s, _) = supervise(s, Occurrence::WentBack);
    assert_eq!(
        supervise(s, Occurrence::NotLocated).1,
        Order::Fail(PeerError::Unreadable)
    );
}

#[test]
fn a_worker_ends_to_restart() {
    assert_eq!(worker(Some(true)), Some(75));
    assert_eq!(worker(Some(false)), None);
    assert_eq!(worker(None), None);
}

#[test]
fn the_self_test_passes() {
    let (test, text) = SelfTest::begin(LIMIT, "linux-x86_64").unwrap();
    assert_eq!(test.finish(&parsed(&text)), Ok(()));
    assert_eq!(test.finish(&None), Err(PeerError::Malformed));
    let mut other = parsed(&text).unwrap();
    other.message = Message::Ping { nonce: nonce() };
    assert_eq!(test.finish(&Some(other)), Err(PeerError::Signature));
}

#[test]
fn the_self_test_fails_for_each_reason() {
    let (a, b) = (Identity::generate(), Identity::generate());
    let session = nonce();
    let between = |limit: usize, platform: &str| {
        SelfTest::between(&a, &b, &session, &chance(), limit, platform).err()
    };
    assert_eq!(between(LIMIT, "windows-x86_64"), None);
    assert_eq!(between(0, "windows-x86_64"), Some(PeerError::EnvelopeShape));
    assert_eq!(between(LIMIT, &"x".repeat(40)), Some(PeerError::PresenceMetadata));
}

#[test]
fn local_directories_are_kept_apart() {
    assert_eq!(read(10, 10), Ok(()));
    assert_eq!(read(11, 10), Err(PeerError::TooLarge));
    let some = |s: &str| Some(s.to_string());
    assert_eq!(
        default_home(true, some("C:\\L"), None, None),
        Ok(("C:\\L".to_string(), "twodrive-peer-lab"))
    );
    assert_eq!(default_home(true, None, some("/x"), some("/h")), Err(PeerError::NoHome));
    assert_eq!(
        default_home(false, None, some("/x"), some("/h")),
        Ok(("/x".to_string(), "twodrive-peer-lab"))
    );
    assert_eq!(
        default_home(false, None, None, some("/h")),
        Ok(("/h".to_string(), ".local/share/twodrive-peer-lab"))
    );
    let mut found =
        Found { database: false, config: false, exists: true, empty: true, marker: None };
    assert_eq!(prepare(&found), Ok(()));
    found.empty = false;
    assert_eq!(prepare(&found), Err(PeerError::OccupiedState));
    found.marker = some("TwoDrive Peer state v1\n");
    assert_eq!(prepare(&found), Ok(()));
    found.marker = some("other");
    assert_eq!(prepare(&found), Err(PeerError::StateMarker));
    found.config = true;
    assert_eq!(prepare(&found), Err(PeerError::ForeignState));
    let mut roots = Vec::new();
    assert_eq!(select_root(&mut roots, "/a".into(), false), Err(PeerError::NotDirectory));
    assert_eq!(select_root(&mut roots, "/a".into(), true), Ok(()));
    assert_eq!(select_root(&mut roots, "/a".into(), true), Ok(()));
    assert_eq!(roots.len(), 1);
    assert!(is_listed(&roots, "/a"));
    let mut scopes = vec!["User.Read".to_string()];
    assert!(with_app_folder(&mut scopes));
    assert!(!with_app_folder(&mut scopes));
    assert_eq!(scopes[1], "Files.ReadWrite.AppFolder");
}

#[test]
fn ordered_collections_keep_their_order() {
    let mut set = StringSet::new();
    for s in ["b", "a", "c", "a", "é", "Z"] {
        set.insert(s.to_string());
    }
    assert_eq!(set.list(), vec!["Z", "a", "b", "c", "é"]);
    set.remove("b");
    assert!(!set.contains("b"));
    assert_eq!(set.len(), 4);
    let mut map: StringMap<i64> = StringMap::new();
    map.insert("b".into(), 1);
    map.insert("a".into(), 2);
    map.insert("b".into(), 3);
    assert_eq!(map.len(), 2);
    assert_eq!(map.get("b"), Some(&3));
    assert_eq!(map.keys(), vec!["a", "b"]);
    map.remove("a");
    assert!(!map.contains_key("a"));
    assert_eq!(map.get("a"), None);
}
