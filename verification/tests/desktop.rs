use twodrive::desktop::engine::{
    import_id, open, refusal_text, Engine, Event, Found, Job, Listed, Outcome, Refusal, Step, Work,
};
use twodrive::desktop::ipc::{
    check_input, check_length, check_reply, lock_name, pipe_name, read_frame, write_frame,
    FrameError,
};
use twodrive::desktop::protocol::{Command, Reply, Request, Snapshot, MAX_FRAME, VERSION};
use twodrive::desktop::tray::{
    chosen, launch, menu, run, tooltip, Choice, Launch, TrayOptions, Usage,
};

/// A file of the mock database.
struct File {
    id: String,
    name: String,
    state: &'static str,
    content: Vec<u8>,
    cached: Option<Vec<u8>>,
}

/// An engine with a directory, a database and a cloud in memory.
struct World {
    marker: Option<String>,
    paused: Option<String>,
    files: Vec<File>,
    engine: Engine,
}

fn named(name: &str) -> File {
    File {
        id: format!("id-{name}"),
        name: name.to_string(),
        state: "online_only",
        content: b"cloud".to_vec(),
        cached: None,
    }
}

impl World {
    fn open(mock: bool) -> World {
        let mark = open(&None, &Vec::new(), mock).unwrap().unwrap();
        let files = if mock {
            vec![named("a.txt"), named("b.txt"), named("c.txt"), named("d.txt")]
        } else {
            Vec::new()
        };
        World {
            marker: Some(mark.to_string()),
            paused: None,
            files,
            engine: Engine::new(mock, 77, &None),
        }
    }

    fn reopen(&self, mock: bool) -> Result<Engine, Refusal> {
        open(&self.marker, &Vec::new(), mock)?;
        Ok(Engine::new(mock, 78, &self.paused))
    }

    fn listed(&self) -> Vec<Listed> {
        let mut list = vec![Listed {
            id: "dir".to_string(),
            name: "dir".to_string(),
            state: "online_only".to_string(),
            size: 0,
            is_dir: true,
        }];
        if !self.engine.mock {
            list.clear();
        }
        for f in &self.files {
            list.push(Listed {
                id: f.id.clone(),
                name: f.name.clone(),
                state: f.state.to_string(),
                size: f.content.len() as u64,
                is_dir: false,
            });
        }
        list
    }

    fn snapshot(&self) -> Snapshot {
        self.engine.snapshot(&self.listed())
    }

    fn handle(&mut self, request: Request) -> Reply {
        let mut step = self.engine.handle(&request);
        loop {
            let event = match step {
                Step::Answer(reply) => return reply,
                Step::Reused => return self.engine.refuse_reused(&request, &self.listed()),
                Step::Conclude(outcome) => {
                    let list = Some(self.listed());
                    return self.engine.conclude(request, outcome, &list);
                }
                Step::StorePaused(paused) => {
                    self.paused = Some(paused.to_string());
                    Event::PausedStored
                }
                Step::Find(id) => Event::Found(self.files.iter().find(|f| f.id == id).map(|f| {
                    Found { is_dir: false, online_only: f.state == "online_only" }
                })),
                Step::Release(id) => {
                    let f = self.files.iter_mut().find(|f| f.id == id).unwrap();
                    if f.state == "cached" {
                        f.state = "online_only";
                        f.cached = None;
                        Event::Released(true)
                    } else {
                        Event::Released(false)
                    }
                }
                Step::Import(name, content) => {
                    let id = import_id(77, self.files.len() as u128);
                    self.files.push(File {
                        id: id.clone(),
                        name,
                        state: "dirty",
                        content: content.clone().into_bytes(),
                        cached: Some(content.into_bytes()),
                    });
                    Event::Imported(id)
                }
                Step::Nothing => panic!("an order was not answered"),
            };
            step = self.engine.resume(&request, event);
        }
    }

    fn call(&mut self, id: &str, command: Command) -> Reply {
        self.handle(Request { version: VERSION, id: id.into(), command })
    }

    fn run_one(&mut self) -> bool {
        let job = match self.engine.run_one() {
            Some(job) => job,
            None => return false,
        };
        let found = self
            .files
            .iter()
            .find(|f| f.id == job.id)
            .map(|f| (f.name.clone(), f.content.len() as u64));
        if self.engine.begin(&job, found).is_err() {
            return true;
        }
        let f = self.files.iter_mut().find(|f| f.id == job.id).unwrap();
        let total = f.content.len() as u64;
        match self.engine.work(&job, true).unwrap() {
            Work::Upload => f.state = "cached",
            Work::Download => {
                f.cached = Some(f.content.clone());
                f.state = "cached";
            }
        }
        self.engine.progress(total, total);
        self.engine.finish(true);
        true
    }
}

#[test]
fn pause_blocks_real_scheduler_and_upload_confirmations() {
    let mut world = World::open(true);
    assert!(world.call("pause", Command::SetPaused { paused: true }).ok);
    let imported = world.call(
        "import",
        Command::MockImport {
            name: "regression.txt".into(),
            content: "synthetic bytes".into(),
        },
    );
    assert!(imported.ok);
    let item =
        imported.snapshot.files.iter().find(|f| f.name == "regression.txt").unwrap();
    let id = item.id.clone();
    assert_eq!(item.state, "dirty");
    assert!(!world.run_one());
    assert_eq!(world.snapshot().queued, 1);
    assert!(!world.call("release-dirty", Command::Release { id: id.clone() }).ok);
    assert!(world.files.iter().any(|f| f.cached.is_some()));
    assert!(world.call("resume", Command::SetPaused { paused: false }).ok);
    assert!(world.run_one());
    let snap = world.snapshot();
    assert_eq!(snap.recent[0].outcome, "completed");
    assert_eq!(snap.recent[0].done, 15);
    assert!(world.call("release-clean", Command::Release { id: id.clone() }).ok);
    assert!(world.call("download", Command::Download { id: id.clone() }).ok);
    assert!(world.run_one());
    let file = world.files.iter().find(|f| f.id == id).unwrap();
    assert_eq!(file.cached.as_deref(), Some(b"synthetic bytes".as_slice()));
}

#[test]
fn listing_does_not_hydrate_and_default_has_no_mock_data() {
    let world = World::open(true);
    for _ in 0..10 {
        assert_eq!(world.snapshot().files.len(), 4);
    }
    assert_eq!(world.files.iter().filter(|f| f.cached.is_some()).count(), 0);
    let mut production = World::open(false);
    let snap = production.snapshot();
    assert_eq!(snap.status, "signed_out");
    assert!(snap.files.is_empty());
    assert!(
        !production
            .call("mock", Command::MockImport { name: "a".into(), content: "b".into() })
            .ok
    );
    assert!(production.reopen(true).is_err());
}

#[test]
fn version_idempotency_and_persistence() {
    let mut world = World::open(true);
    let rejected = world.handle(Request {
        version: 999,
        id: "bad-version".into(),
        command: Command::SetPaused { paused: true },
    });
    assert!(!rejected.ok);
    assert!(!rejected.snapshot.paused);
    let first = world.call("stable", Command::SetPaused { paused: true });
    let replay = world.call("stable", Command::SetPaused { paused: true });
    assert_eq!(first.snapshot.revision, replay.snapshot.revision);
    assert!(!world.call("stable", Command::SetPaused { paused: false }).ok);
    let engine = world.reopen(true).unwrap();
    assert!(engine.snapshot(&world.listed()).paused);
}

#[test]
fn framed_protocol_rejects_oversized_and_truncated_frames() {
    let mut input = (MAX_FRAME as u32 + 1).to_le_bytes().to_vec();
    assert!(read_frame(&input).is_err());
    input = 8u32.to_le_bytes().to_vec();
    input.push(b'x');
    assert!(read_frame(&input).is_err());
}

#[test]
fn frames_are_read_as_they_are_written() {
    let frame = write_frame(b"hello").unwrap();
    assert_eq!(frame, b"\x05\0\0\0hello");
    assert_eq!(read_frame(&frame), Ok(b"hello".to_vec()));
    assert_eq!(read_frame(&frame[..8]), Err(FrameError::Truncated));
    assert_eq!(read_frame(&frame[..3]), Err(FrameError::Truncated));
    assert_eq!(read_frame(&[0, 0, 0, 0]), Err(FrameError::InvalidLength));
    assert_eq!(write_frame(b""), Err(FrameError::InvalidLength));
    assert_eq!(write_frame(&vec![0; MAX_FRAME + 1]), Err(FrameError::InvalidLength));
    assert_eq!(check_length(1), Ok(()));
    assert_eq!(check_length(0), Err(FrameError::InvalidLength));
    assert_eq!(check_input(MAX_FRAME), Ok(()));
    assert_eq!(check_input(MAX_FRAME + 1), Err(FrameError::RequestTooLarge));
    assert_eq!(lock_name("engine"), "engine.lock");
    assert_eq!(pipe_name("aBC"), pipe_name("abc"));
    assert_eq!(
        pipe_name("abc"),
        "\\\\.\\pipe\\TwoDrive-ba7816bf8f01cfea414140de5dae2223b00361a396177a9cb410ff61f20015ad-v1"
    );
}

#[test]
fn requests_are_refused_for_each_reason() {
    let mut world = World::open(true);
    let mut error = |id: &str, command: Command| world.call(id, command).error;
    let id = || "id-a.txt".to_string();
    let word = |r: Refusal| Some(refusal_text(r).to_string());
    assert_eq!(error("", Command::Snapshot), word(Refusal::InvalidRequestId));
    assert_eq!(error(&"x".repeat(129), Command::Snapshot), word(Refusal::InvalidRequestId));
    assert_eq!(
        error("1", Command::Download { id: "none".into() }),
        word(Refusal::UnknownItem)
    );
    assert_eq!(error("2", Command::Release { id: id() }), word(Refusal::ReleaseRefused));
    assert_eq!(error("3", Command::Download { id: id() }), None);
    assert_eq!(error("4", Command::Download { id: id() }), word(Refusal::AlreadyQueued));
    assert_eq!(error("5", Command::Release { id: id() }), word(Refusal::FileBusy));
    for (n, name) in ["..", ".", "", "a/b", "é", &"x".repeat(128)].iter().enumerate() {
        assert_eq!(
            error(
                &format!("name-{n}"),
                Command::MockImport { name: name.to_string(), content: String::new() }
            ),
            word(Refusal::InvalidMockName)
        );
    }
    assert_eq!(
        error(
            "6",
            Command::MockImport { name: "big".into(), content: "x".repeat(262_145) }
        ),
        word(Refusal::MockInputLimit)
    );
    world.files[1].state = "cached";
    assert_eq!(
        world.call("7", Command::Download { id: "id-b.txt".into() }).error,
        word(Refusal::DownloadRequiresOnlineOnlyFile)
    );
    while world.engine.queue.len() < 128 {
        world.engine.queue.push(Job { id: "filler".into(), upload: false });
    }
    assert_eq!(
        world.call("8", Command::Download { id: "id-c.txt".into() }).error,
        word(Refusal::QueueFull)
    );
    let mut production = World::open(false);
    assert_eq!(
        production.call("9", Command::Download { id: "x".into() }).error,
        word(Refusal::CapabilityUnavailable)
    );
}

#[test]
fn what_fails_outside_is_told() {
    let mut world = World::open(true);
    let request = Request {
        version: VERSION,
        id: "1".into(),
        command: Command::Download { id: "id-a.txt".into() },
    };
    assert!(matches!(world.engine.handle(&request), Step::Find(id) if id == "id-a.txt"));
    let step = world.engine.resume(&request, Event::Failed("disk".into()));
    assert!(matches!(&step, Step::Conclude(Outcome::Broken(e)) if e == "disk"));
    let reply =
        world.engine.conclude(request, Outcome::Broken("disk".to_string()), &None);
    assert!(!reply.ok);
    assert_eq!(reply.error, Some("disk".to_string()));
    assert_eq!(reply.snapshot.status, "error");
    assert_eq!(reply.snapshot.unsupported, vec!["all".to_string()]);
}

#[test]
fn failed_transfers_are_shown() {
    let mut world = World::open(true);
    assert!(world.call("1", Command::Download { id: "id-a.txt".into() }).ok);
    assert_eq!(world.snapshot().status, "queued");
    let job = world.engine.run_one().unwrap();
    world.engine.begin(&job, Some(("a.txt".into(), 10))).unwrap();
    assert_eq!(world.snapshot().status, "transferring");
    assert!(world.engine.run_one().is_none());
    world.engine.progress(4, 10);
    world.engine.paused = true;
    assert_eq!(world.snapshot().status, "draining");
    world.engine.finish(false);
    let snap = world.snapshot();
    assert_eq!((snap.recent[0].outcome.as_str(), snap.recent[0].done), ("failed", 4));
    assert_eq!(snap.status, "paused");
    assert!(matches!(
        world.engine.work(&Job { id: "x".into(), upload: true }, false),
        Err(Refusal::UnknownItem)
    ));
}

#[test]
fn directories_serve_one_mode() {
    let mark = |s: &str| Some(s.to_string());
    assert_eq!(open(&None, &vec!["engine.lock".into()], true), Ok(Some("isolated_mock_v1")));
    assert_eq!(open(&None, &vec!["tray.lock".into()], false), Ok(Some("unconfigured_v1")));
    assert_eq!(open(&None, &vec!["x".into()], true), Err(Refusal::UnownedDirectory));
    assert_eq!(open(&mark("isolated_mock_v1"), &vec!["x".into()], true), Ok(None));
    assert_eq!(
        open(&mark("unconfigured_v1"), &Vec::new(), true),
        Err(Refusal::ModeMismatch)
    );
    assert_eq!(import_id(12, 34), "local-12-34");
}

#[test]
fn two_hundred_and_fifty_six_answers_are_kept() {
    let mut world = World::open(true);
    let first = world.call("0", Command::SetPaused { paused: false });
    for n in 1..256 {
        world.call(&n.to_string(), Command::SetPaused { paused: false });
    }
    assert_eq!(
        world.call("0", Command::SetPaused { paused: false }).snapshot.revision,
        first.snapshot.revision
    );
    world.call("256", Command::SetPaused { paused: false });
    assert_ne!(
        world.call("0", Command::SetPaused { paused: false }).snapshot.revision,
        first.snapshot.revision
    );
}

#[test]
fn fingerprints_are_the_requests() {
    let request = Request {
        version: 1,
        id: "a\"b".into(),
        command: Command::MockImport { name: "n".into(), content: "c\n".into() },
    };
    assert_eq!(
        request.fingerprint(),
        "{\"version\":1,\"id\":\"a\\\"b\",\"command\":{\"type\":\"mock_import\",\"name\":\"n\",\"content\":\"c\\n\"}}"
    );
}

#[test]
fn replies_belong_to_requests() {
    let mut world = World::open(true);
    let request =
        Request { version: VERSION, id: "1".into(), command: Command::Snapshot };
    let mut reply = world.handle(request.clone());
    assert_eq!(check_reply(&request, &reply), Ok(()));
    reply.id = "2".into();
    assert_eq!(check_reply(&request, &reply), Err(FrameError::ResponseMismatch));
    reply.id = "1".into();
    reply.version = 2;
    assert_eq!(check_reply(&request, &reply), Err(FrameError::ResponseMismatch));
}

#[test]
fn the_tray_shows_and_asks() {
    let world = World::open(true);
    let mut snap = world.snapshot();
    assert_eq!(tooltip(&None), "TwoDrive Preview - backend disconnected");
    assert_eq!(
        tooltip(&Some(snap.clone())),
        "TwoDrive Preview - isolated_mock / mock_idle"
    );
    let m = menu(true, &Some(snap.clone()));
    assert_eq!((m.center, m.connected, m.pause), (true, true, "Pause new transfers"));
    snap.paused = true;
    let m = menu(false, &Some(snap.clone()));
    assert_eq!((m.center, m.connected, m.pause), (false, true, "Resume"));
    assert!(!menu(false, &None).connected);
    assert!(matches!(chosen(1, &None), Choice::OpenCenter));
    assert!(matches!(
        chosen(2, &Some(snap)),
        Choice::Ask(Command::SetPaused { paused: false })
    ));
    assert!(matches!(chosen(2, &None), Choice::Ask(Command::SetPaused { paused: true })));
    assert!(matches!(chosen(3, &None), Choice::Close));
    assert!(matches!(chosen(0, &None), Choice::Nothing));
}

#[test]
fn arguments_are_read() {
    let args = |a: &[&str]| a.iter().map(|s| s.to_string()).collect::<Vec<String>>();
    assert_eq!(launch(&args(&["--version"]), false), Ok(Launch::Version));
    assert_eq!(launch(&args(&["serve"]), true), Err(Usage::Form));
    assert_eq!(
        launch(&args(&["serve", "--state", "x"]), false),
        Err(Usage::AbsoluteDirectory)
    );
    assert_eq!(
        launch(&args(&["serve", "--state", "/x", "--mock"]), true),
        Ok(Launch::Serve { mock: true })
    );
    assert_eq!(
        launch(&args(&["serve", "--state", "/x", "--what"]), true),
        Err(Usage::UnknownOption)
    );
    assert_eq!(launch(&args(&["ipc", "--state", "/x"]), true), Ok(Launch::Ipc));
    assert_eq!(
        launch(&args(&["dance", "--state", "/x"]), true),
        Err(Usage::UnknownCommand)
    );
    assert_eq!(
        run(&args(&["--state", "/x", "--full"]), true),
        Ok(TrayOptions { full: true, mock: false })
    );
    assert_eq!(run(&args(&["--state"]), true), Err(Usage::Form));
    assert_eq!(run(&args(&["--state", "/x", "-v"]), true), Err(Usage::UnknownOption));
    assert_eq!(run(&args(&["--state", "x"]), false), Err(Usage::AbsoluteDirectory));
}
