use std::collections::BTreeMap;
use twodrive::ordered::StringSet;
use twodrive::peer::crypto::{Envelope, Signed};
use twodrive::peer::identity::{nonce, Identity, Presence};
use twodrive::peer::local::json_name;
use twodrive::peer::protocol::{Engine, Message};
use twodrive::peer::runtime::{put, trusted, Announced, PeerStatus, Queued, Worker};
use twodrive::peer::tick::{begin_tick, Mail, Phase, Round, TickEvent, TickOrder};
use twodrive::peer::PeerError;

const LIMIT: usize = 65_536;
const T: i64 = 1_000_000;

fn parsed(plaintext: &[u8]) -> Option<Signed> {
    let v: serde_json::Value = serde_json::from_slice(plaintext).ok()?;
    let text = |o: &serde_json::Value, n: &str| Some(o.get(n)?.as_str()?.to_string());
    let m = v.get("message")?;
    let message = match text(m, "type")?.as_str() {
        "hello" => Message::Hello { challenge: text(m, "challenge")? },
        "hello_ack" => Message::HelloAck { challenge: text(m, "challenge")? },
        "ping" => Message::Ping { nonce: text(m, "nonce")? },
        "pong" => Message::Pong { nonce: text(m, "nonce")? },
        "update_available" => Message::UpdateAvailable { tag: text(m, "tag")? },
        _ => return None,
    };
    Some(Signed { message, signature: text(&v, "signature")? })
}

fn set(ids: &[String]) -> StringSet {
    trusted(&Some(ids.to_vec()))
}

/// The folder that the devices share: who is announced, and their mailboxes.
#[derive(Default)]
struct Folder {
    devices: BTreeMap<String, Presence>,
    boxes: BTreeMap<String, BTreeMap<String, (u64, Option<Envelope>)>>,
}

/// What a round did.
#[derive(Default)]
struct Seen {
    finish: Option<bool>,
    failed: Option<PeerError>,
    told: Vec<String>,
    tried: Vec<String>,
    report: Vec<PeerStatus>,
    taken: usize,
}

/// Runs a round of a worker that trusts some devices and has messages to send.
fn run(
    w: &mut Worker,
    folder: &mut Folder,
    trusts: &[String],
    outbox: &mut Vec<Option<Queued>>,
    staged: bool,
    now: i64,
) -> Seen {
    let mut seen = Seen::default();
    let own = w.bucket();
    let (mut round, mut order) = begin_tick(now);
    let mut next: usize = 0;
    loop {
        let event = match order {
            TickOrder::GoOn => TickEvent::Done,
            TickOrder::AskTrusted => match round.phase {
                Phase::Asking => TickEvent::Known(Some(set(trusts))),
                _ => TickEvent::Trusted(set(trusts)),
            },
            TickOrder::Publish(p) => {
                folder.devices.insert(json_name(&p.device), p);
                TickEvent::Done
            }
            TickOrder::Discover => TickEvent::Announced(
                folder
                    .devices
                    .iter()
                    .map(|(name, p)| Announced {
                        name: name.clone(),
                        size: 1,
                        presence: Some(p.clone()),
                    })
                    .collect(),
            ),
            TickOrder::Put(env) => {
                let (bucket, name) = put(&env);
                folder.boxes.entry(bucket).or_default().insert(name, (1, Some(env)));
                TickEvent::Done
            }
            TickOrder::List(bucket) => {
                assert_eq!(bucket, own);
                let mail = folder.boxes.entry(bucket).or_default();
                TickEvent::Listed(
                    mail.iter().map(|(n, (s, _))| Mail { name: n.clone(), size: *s }).collect(),
                )
            }
            TickOrder::Fetch(name) => {
                TickEvent::Fetched(folder.boxes[&own].get(&name).unwrap().1.clone())
            }
            TickOrder::Parse(text) => TickEvent::Parsed(parsed(&text)),
            TickOrder::Tell(_, message) => {
                seen.told.push(message.to_json());
                TickEvent::Done
            }
            TickOrder::Update(tag) => {
                seen.tried.push(tag);
                TickEvent::Staged(staged)
            }
            TickOrder::Delete(name) => {
                assert!(folder.boxes.get_mut(&own).unwrap().remove(&name).is_some());
                TickEvent::Done
            }
            TickOrder::Take => {
                seen.taken += 1;
                next += 1;
                match outbox.get(next - 1) {
                    None => TickEvent::NoMore,
                    Some(None) => TickEvent::NoMessage,
                    Some(Some(q)) => TickEvent::Waiting(Queued {
                        to: q.to.clone(),
                        message: q.message.clone(),
                        expires: q.expires,
                    }),
                }
            }
            TickOrder::Remove => {
                outbox[next - 1] = None;
                TickEvent::Done
            }
            TickOrder::Report(list) => {
                seen.report = list;
                TickEvent::Done
            }
            TickOrder::Finish(b) => {
                seen.finish = Some(b);
                return seen;
            }
            TickOrder::Fail(e) => {
                seen.failed = Some(e);
                return seen;
            }
            TickOrder::GiveUp => return seen,
        };
        (round, order) = w.tick(round, event);
    }
}

fn workers() -> (Worker, Worker, String, String) {
    let (a, b) = (Identity::generate(), Identity::generate());
    let (ai, bi) = (a.id(), b.id());
    (
        Worker::new(Engine::new(a, set(&[]), LIMIT, "linux-x86_64"), true),
        Worker::new(Engine::new(b, set(&[]), LIMIT, "linux-x86_64"), true),
        ai,
        bi,
    )
}

/// Two workers that have authenticated each other.
fn acquainted() -> (Worker, Worker, String, String, Folder) {
    let (mut a, mut b, ai, bi) = workers();
    let mut folder = Folder::default();
    for now in T..T + 5 {
        run(&mut a, &mut folder, &[bi.clone()], &mut vec![], false, now);
        run(&mut b, &mut folder, &[ai.clone()], &mut vec![], false, now);
    }
    assert!(a.engine.authenticated(&bi, T + 5) && b.engine.authenticated(&ai, T + 5));
    (a, b, ai, bi, folder)
}

#[test]
fn rounds_authenticate_and_report() {
    let (mut a, _, ai, bi, mut folder) = acquainted();
    assert_eq!(folder.devices.len(), 2);
    let seen = run(&mut a, &mut folder, &[bi.clone()], &mut vec![], false, T + 5);
    assert_eq!(seen.finish, Some(false));
    assert_eq!(seen.report.len(), 1);
    assert_eq!(seen.report[0].device, bi);
    assert!(seen.report[0].trusted && seen.report[0].authenticated);
    assert!(folder.boxes[&format!("in-{ai}")].is_empty());
}

#[test]
fn waiting_messages_are_sent_and_removed() {
    let (mut a, mut b, ai, bi, mut folder) = acquainted();
    let ping = Message::Ping { nonce: nonce() };
    let queued = |message: Message, expires| Queued { to: bi.clone(), message, expires };
    let mut outbox = vec![
        Some(queued(Message::StatusRequest, T + 5)),
        None,
        Some(queued(ping, T + 300)),
        Some(Queued { to: nonce(), message: Message::StatusRequest, expires: T + 300 }),
    ];
    let seen = run(&mut a, &mut folder, &[bi.clone()], &mut outbox, false, T + 5);
    assert_eq!((seen.finish, seen.taken), (Some(false), 5));
    assert!(outbox[0].is_none() && outbox[2].is_none() && outbox[3].is_some());
    assert_eq!(folder.boxes[&format!("in-{bi}")].len(), 1);
    run(&mut b, &mut folder, &[ai], &mut vec![], false, T + 6);
    assert_eq!(b.counters.pings, 1);
    run(&mut a, &mut folder, &[bi], &mut vec![], false, T + 7);
    assert_eq!(a.counters.pongs, 1);
}

#[test]
fn at_most_256_messages_are_taken() {
    let (mut a, _, _, bi, mut folder) = acquainted();
    let mut outbox: Vec<Option<Queued>> = (0..300).map(|_| None).collect();
    let seen = run(&mut a, &mut folder, &[bi], &mut outbox, false, T + 5);
    assert_eq!((seen.finish, seen.taken), (Some(false), 256));
}

#[test]
fn a_message_that_cannot_be_sent_ends_the_round() {
    let (mut a, _, _, bi, mut folder) = acquainted();
    let hello = Message::Hello { challenge: nonce() };
    let mut outbox = vec![Some(Queued { to: bi.clone(), message: hello, expires: T + 300 })];
    let seen = run(&mut a, &mut folder, &[bi], &mut outbox, false, T + 5);
    assert_eq!(seen.failed, Some(PeerError::ReservedMessage));
    assert!(outbox[0].is_some());
}

#[test]
fn broken_mail_does_not_hold_up_the_mailbox() {
    let (mut a, mut b, ai, bi, mut folder) = acquainted();
    let tag = "peer-v0.9.0".to_string();
    let news = Message::UpdateAvailable { tag: tag.clone() };
    let mut outbox = vec![Some(Queued { to: bi.clone(), message: news, expires: T + 300 })];
    run(&mut a, &mut folder, &[bi.clone()], &mut outbox, false, T + 5);
    let mail = folder.boxes.get_mut(&format!("in-{bi}")).unwrap();
    let copy = mail.values().next().unwrap().1.clone();
    mail.insert("0-large".into(), (LIMIT as u64 + 1, None));
    mail.insert("0-no-envelope".into(), (1, None));
    mail.insert("0-wrong-name".into(), (1, copy));
    let seen = run(&mut b, &mut folder, &[ai], &mut vec![], false, T + 6);
    assert_eq!(seen.finish, Some(false));
    assert_eq!(b.counters.rejected, 3);
    assert_eq!(seen.tried, vec![tag]);
    assert_eq!(seen.told.len(), 1);
    assert!(folder.boxes[&format!("in-{bi}")].is_empty());
}

#[test]
fn a_staged_update_ends_the_round() {
    let (mut a, mut b, ai, bi, mut folder) = acquainted();
    let news = Message::UpdateAvailable { tag: "peer-v0.9.0".to_string() };
    let mut outbox = vec![Some(Queued { to: bi.clone(), message: news, expires: T + 300 })];
    run(&mut a, &mut folder, &[bi.clone()], &mut outbox, false, T + 5);
    let seen = run(&mut b, &mut folder, &[ai], &mut vec![], true, T + 6);
    assert_eq!(seen.finish, Some(true));
    assert!(seen.report.is_empty());
    assert!(folder.boxes[&format!("in-{bi}")].is_empty());
}

#[test]
fn a_failure_ends_the_round() {
    let (mut a, _, _, _) = workers();
    let (round, order) = begin_tick(T);
    assert!(matches!(order, TickOrder::AskTrusted));
    let (round, order) = a.tick(round, TickEvent::Failed);
    assert!(matches!((round, order), (Round { phase: Phase::Ended, .. }, TickOrder::GiveUp)));
}
