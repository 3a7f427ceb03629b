//! The desktop engine: one transfer at a time from a queue, requests that are
//! answered once, and what the engine shows of itself.

use super::protocol::{
    copy_transfer, copy_transfers, lemma_fingerprint_injective, lemma_fingerprint_stable,
    same_request, texts, Command, Item, Reply, ReplyView, Request, Snapshot, SnapshotView, Transfer,
    ENGINE_VERSION, VERSION,
};
use crate::json::json_of;
use crate::text::{chars_of, decimal, decimal_text, joined, option_text, same_text, wide_decimal_text};
use vstd::prelude::*;
use vstd::utf8::encode_utf8;

verus! {

/// Why the engine refuses a request.
#[derive(Clone, Copy, PartialEq, Eq, Structural, Debug)]
pub enum Refusal {
    RequestIdReused,
    UnsupportedProtocol,
    InvalidRequestId,
    CapabilityUnavailable,
    QueueFull,
    UnknownItem,
    NotAFile,
    DownloadRequiresOnlineOnlyFile,
    AlreadyQueued,
    FileBusy,
    ReleaseRefused,
    InvalidMockName,
    MockInputLimit,
    UploadUnconfirmed,
    ModeMismatch,
    UnownedDirectory,
}

/// The word for a refusal.
pub open spec fn refusal_word(r: Refusal) -> Seq<char> {
    match r {
        Refusal::RequestIdReused => "request_id_reused"@,
        Refusal::UnsupportedProtocol => "unsupported_protocol"@,
        Refusal::InvalidRequestId => "invalid_request_id"@,
        Refusal::CapabilityUnavailable => "capability_unavailable"@,
        Refusal::QueueFull => "queue_full"@,
        Refusal::UnknownItem => "unknown_item"@,
        Refusal::NotAFile => "not_a_file"@,
        Refusal::DownloadRequiresOnlineOnlyFile => "download_requires_online_only_file"@,
        Refusal::AlreadyQueued => "already_queued"@,
        Refusal::FileBusy => "file_busy"@,
        Refusal::ReleaseRefused => "release_refused_dirty_pinned_busy_or_online"@,
        Refusal::InvalidMockName => "invalid_mock_name"@,
        Refusal::MockInputLimit => "mock_input_limit"@,
        Refusal::UploadUnconfirmed => "upload_unconfirmed_content_retained"@,
        Refusal::ModeMismatch => "state mode mismatch; use a new isolated directory"@,
        Refusal::UnownedDirectory => "refusing nonempty unowned state directory"@,
    }
}

/// The word for a refusal.
pub fn refusal_text(r: Refusal) -> (t: &'static str)
    ensures
        t@ == refusal_word(r),
{
    match r {
        Refusal::RequestIdReused => "request_id_reused",
        Refusal::UnsupportedProtocol => "unsupported_protocol",
        Refusal::InvalidRequestId => "invalid_request_id",
        Refusal::CapabilityUnavailable => "capability_unavailable",
        Refusal::QueueFull => "queue_full",
        Refusal::UnknownItem => "unknown_item",
        Refusal::NotAFile => "not_a_file",
        Refusal::DownloadRequiresOnlineOnlyFile => "download_requires_online_only_file",
        Refusal::AlreadyQueued => "already_queued",
        Refusal::FileBusy => "file_busy",
        Refusal::ReleaseRefused => "release_refused_dirty_pinned_busy_or_online",
        Refusal::InvalidMockName => "invalid_mock_name",
        Refusal::MockInputLimit => "mock_input_limit",
        Refusal::UploadUnconfirmed => "upload_unconfirmed_content_retained",
        Refusal::ModeMismatch => "state mode mismatch; use a new isolated directory",
        Refusal::UnownedDirectory => "refusing nonempty unowned state directory",
    }
}

/// A transfer that waits.
#[derive(Debug)]
pub struct Job {
    pub id: String,
    pub upload: bool,
}

impl Clone for Job {
    fn clone(&self) -> (r: Self)
        ensures
            r == *self,
    {
        Job { id: self.id.clone(), upload: self.upload }
    }
}

/// A request that was answered.
pub struct Answered {
    pub id: String,
    pub fingerprint: String,
    pub reply: Reply,
}

/// The engine of a process.
pub struct Engine {
    pub mock: bool,
    pub pid: u32,
    pub paused: bool,
    pub revision: u64,
    pub queue: Vec<Job>,
    pub active: Option<Transfer>,
    pub recent: Vec<Transfer>,
    pub replies: Vec<Answered>,
}

/// The model of a request that was answered.
pub struct AnsweredView {
    pub id: Seq<char>,
    pub fingerprint: Seq<char>,
    pub reply: ReplyView,
}

impl View for Answered {
    type V = AnsweredView;

    open spec fn view(&self) -> AnsweredView {
        AnsweredView { id: self.id@, fingerprint: self.fingerprint@, reply: self.reply@ }
    }
}

/// The state of an engine.
pub struct EngineView {
    pub mock: bool,
    pub pid: u32,
    pub paused: bool,
    pub revision: u64,
    pub queue: Seq<Job>,
    pub active: Option<Transfer>,
    pub recent: Seq<Transfer>,
    pub replies: Seq<AnsweredView>,
}

/// The models of requests that were answered.
pub open spec fn answered(v: Seq<Answered>) -> Seq<AnsweredView> {
    v.map_values(|a: Answered| a@)
}

impl View for Engine {
    type V = EngineView;

    open spec fn view(&self) -> EngineView {
        EngineView {
            mock: self.mock,
            pid: self.pid,
            paused: self.paused,
            revision: self.revision,
            queue: self.queue@,
            active: self.active,
            recent: self.recent@,
            replies: answered(self.replies@),
        }
    }
}

/// What the database lists of an item.
pub struct Listed {
    pub id: String,
    pub name: String,
    pub state: String,
    pub size: u64,
    pub is_dir: bool,
}

/// The files among the items, in order.
pub open spec fn files_of(list: Seq<Listed>) -> Seq<Item>
    decreases list.len(),
{
    if list.len() == 0 {
        Seq::empty()
    } else if list.last().is_dir {
        files_of(list.drop_last())
    } else {
        let l = list.last();
        files_of(list.drop_last()).push(
            Item { id: l.id, name: l.name, state: l.state, size: l.size },
        )
    }
}

/// The first of a sequence.
pub open spec fn at_most<A>(s: Seq<A>, n: int) -> Seq<A> {
    if s.len() <= n {
        s
    } else {
        s.take(n)
    }
}

/// The one word for what the engine is doing.
pub open spec fn status_word(v: EngineView) -> Seq<char> {
    if v.paused && v.active is Some {
        "draining"@
    } else if v.paused {
        "paused"@
    } else if v.active is Some {
        "transferring"@
    } else if v.queue.len() > 0 {
        "queued"@
    } else if v.mock {
        "mock_idle"@
    } else {
        "signed_out"@
    }
}

/// What the engine can do.
pub open spec fn capability_words(mock: bool) -> Seq<Seq<char>> {
    if mock {
        seq!["pause"@, "download"@, "release"@, "mock_import"@]
    } else {
        seq!["pause"@]
    }
}

/// What the engine cannot do.
pub open spec fn unsupported_words() -> Seq<Seq<char>> {
    seq![
        "cfapi"@,
        "browser_login"@,
        "account_switch"@,
        "peer_file_sync"@,
        "open_sync_root"@,
        "pin"@,
        "bandwidth"@,
        "autostart"@,
    ]
}

/// What the engine shows of itself, with the items that the database lists.
pub open spec fn shown(v: EngineView, list: Seq<Listed>) -> SnapshotView {
    SnapshotView {
        engine_version: ENGINE_VERSION@,
        engine_pid: v.pid,
        revision: v.revision,
        mode: if v.mock {
            "isolated_mock"@
        } else {
            "unconfigured"@
        },
        status: status_word(v),
        paused: v.paused,
        queued: v.queue.len() as usize,
        active: v.active,
        recent: v.recent,
        files: at_most(files_of(list), 200),
        file_count: files_of(list).len() as usize,
        capabilities: capability_words(v.mock),
        unsupported: unsupported_words(),
    }
}

/// What the engine shows of itself when the database cannot be listed.
pub open spec fn shown_broken(v: EngineView) -> SnapshotView {
    SnapshotView {
        engine_version: ENGINE_VERSION@,
        engine_pid: v.pid,
        revision: v.revision,
        mode: "error"@,
        status: "error"@,
        paused: v.paused,
        queued: v.queue.len() as usize,
        active: None,
        recent: Seq::empty(),
        files: Seq::empty(),
        file_count: 0,
        capabilities: Seq::empty(),
        unsupported: seq!["all"@],
    }
}

/// What the engine shows of itself, whether the database can be listed or not.
pub open spec fn shown_either(v: EngineView, list: Option<Vec<Listed>>) -> SnapshotView {
    match list {
        Some(l) => shown(v, l@),
        None => shown_broken(v),
    }
}

/// An item is being transferred or waits to be.
pub open spec fn busy(v: EngineView, id: Seq<char>) -> bool {
    ||| v.active matches Some(a) && a.id@ == id
    ||| exists|i: int| 0 <= i < v.queue.len() && #[trigger] v.queue[i].id@ == id
}

/// A letter or digit of ASCII.
pub open spec fn is_ascii_alnum(c: char) -> bool {
    '0' <= c <= '9' || 'a' <= c <= 'z' || 'A' <= c <= 'Z'
}

/// A name that can be imported: short, of harmless characters, and no name of
/// a directory.
pub open spec fn importable(name: Seq<char>) -> bool {
    &&& name.len() > 0
    &&& encode_utf8(name).len() < 128
    &&& forall|i: int|
        0 <= i < name.len() ==> is_ascii_alnum(#[trigger] name[i]) || name[i] == '.' || name[i]
            == '_' || name[i] == '-'
    &&& name != "."@
    &&& name != ".."@
}

/// What became of a request.
pub enum Outcome {
    Accepted,
    Refused(Refusal),
    /// Something outside the engine failed.
    Broken(String),
}

/// What is to be done next about a request.
pub enum Step {
    /// The request was answered before: this is the answer.
    Answer(Reply),
    /// The identifier belongs to another request.
    Reused,
    /// The items are to be listed and the request to be answered.
    Conclude(Outcome),
    /// Whether the engine is paused is to be stored.
    StorePaused(bool),
    /// An item is to be looked up.
    Find(String),
    /// An item's content is to be released.
    Release(String),
    /// A new file is to be stored and recorded.
    Import(String, String),
    /// Nothing: what happened does not belong to the request.
    Nothing,
}

/// What happened about a request.
pub enum Event {
    PausedStored,
    Found(Option<Found>),
    Released(bool),
    Imported(String),
    Failed(String),
}

/// What is known of an item that was looked up.
#[derive(Clone, Copy, PartialEq, Eq, Structural, Debug)]
pub struct Found {
    pub is_dir: bool,
    pub online_only: bool,
}

/// The place of the answer to a request identifier.
pub open spec fn answer_at(v: EngineView, id: Seq<char>, i: int) -> bool {
    &&& 0 <= i < v.replies.len()
    &&& v.replies[i].id == id
    &&& forall|j: int| 0 <= j < i ==> (#[trigger] v.replies[j]).id != id
}

/// Why a request is refused at once, if it is.
pub open spec fn refused_at_once(v: EngineView, request: Request) -> Option<Refusal> {
    if request.version != VERSION {
        Some(Refusal::UnsupportedProtocol)
    } else if request.id@.len() == 0 || encode_utf8(request.id@).len() > 128 {
        Some(Refusal::InvalidRequestId)
    } else {
        match request.command {
            Command::Snapshot => None,
            Command::SetPaused { paused } => None,
            Command::Download { id } => if !v.mock {
                Some(Refusal::CapabilityUnavailable)
            } else if v.queue.len() >= 128 {
                Some(Refusal::QueueFull)
            } else {
                None
            },
            Command::Release { id } => if !v.mock {
                Some(Refusal::CapabilityUnavailable)
            } else if busy(v, id@) {
                Some(Refusal::FileBusy)
            } else {
                None
            },
            Command::MockImport { name, content } => if !v.mock {
                Some(Refusal::CapabilityUnavailable)
            } else if !importable(name@) {
                Some(Refusal::InvalidMockName)
            } else if encode_utf8(content@).len() > 262144 || v.queue.len() >= 128 {
                Some(Refusal::MockInputLimit)
            } else {
                None
            },
        }
    }
}

/// The first step of a request that is neither answered nor refused.
pub open spec fn first_work(request: Request) -> Step {
    match request.command {
        Command::Snapshot => Step::Conclude(Outcome::Accepted),
        Command::SetPaused { paused } => Step::StorePaused(paused),
        Command::Download { id } => Step::Find(id),
        Command::Release { id } => Step::Find(id),
        Command::MockImport { name, content } => Step::Import(name, content),
    }
}

/// `step` is the first step of a request.
pub open spec fn begins_with(v: EngineView, request: Request, step: Step) -> bool {
    if exists|i: int| answer_at(v, request.id@, i) {
        let i = choose|i: int| answer_at(v, request.id@, i);
        if v.replies[i].fingerprint == json_of(request.json()) {
            step matches Step::Answer(r) && r@ == v.replies[i].reply
        } else {
            step == Step::Reused
        }
    } else {
        match refused_at_once(v, request) {
            Some(r) => step == Step::Conclude(Outcome::Refused(r)),
            None => step == first_work(request),
        }
    }
}

/// The step that follows an event, and the state after it.
pub open spec fn follows(v: EngineView, request: Request, event: Event) -> (EngineView, Step) {
    let next = (v.revision + 1) as u64;
    match (request.command, event) {
        (_, Event::Failed(e)) => (v, Step::Conclude(Outcome::Broken(e))),
        (Command::SetPaused { paused }, Event::PausedStored) => (
            EngineView { paused, revision: next, ..v },
            Step::Conclude(Outcome::Accepted),
        ),
        (Command::Download { id }, Event::Found(found)) => match found {
            None => (v, Step::Conclude(Outcome::Refused(Refusal::UnknownItem))),
            Some(f) => if f.is_dir {
                (v, Step::Conclude(Outcome::Refused(Refusal::NotAFile)))
            } else if !f.online_only {
                (
                    v,
                    Step::Conclude(Outcome::Refused(Refusal::DownloadRequiresOnlineOnlyFile)),
                )
            } else if busy(v, id@) {
                (v, Step::Conclude(Outcome::Refused(Refusal::AlreadyQueued)))
            } else {
                (
                    EngineView {
                        queue: v.queue.push(Job { id, upload: false }),
                        revision: next,
                        ..v
                    },
                    Step::Conclude(Outcome::Accepted),
                )
            },
        },
        (Command::Release { id }, Event::Found(found)) => match found {
            None => (v, Step::Conclude(Outcome::Refused(Refusal::UnknownItem))),
            Some(f) => (v, Step::Release(id)),
        },
        (Command::Release { id }, Event::Released(done)) => if done {
            (EngineView { revision: next, ..v }, Step::Conclude(Outcome::Accepted))
        } else {
            (v, Step::Conclude(Outcome::Refused(Refusal::ReleaseRefused)))
        },
        (Command::MockImport { name, content }, Event::Imported(id)) => (
            EngineView {
                queue: v.queue.push(Job { id, upload: true }),
                revision: next,
                ..v
            },
            Step::Conclude(Outcome::Accepted),
        ),
        _ => (v, Step::Nothing),
    }
}

/// The reply to a request of which something became.
pub open spec fn concluded(
    v: EngineView,
    request: Request,
    outcome: Outcome,
    list: Option<Vec<Listed>>,
) -> ReplyView {
    ReplyView {
        version: VERSION,
        id: request.id@,
        ok: outcome is Accepted,
        error: match outcome {
            Outcome::Accepted => None,
            Outcome::Refused(r) => Some(refusal_word(r)),
            Outcome::Broken(e) => Some(e@),
        },
        snapshot: shown_either(v, list),
    }
}

/// The state after a reply: every reply but to a mere look is kept, the last
/// two hundred and fifty-six of them.
pub open spec fn remembering(v: EngineView, request: Request, reply: ReplyView) -> EngineView {
    if request.command is Snapshot {
        v
    } else {
        let all = v.replies.push(
            AnsweredView {
                id: request.id@,
                fingerprint: json_of(request.json()),
                reply,
            },
        );
        EngineView {
            replies: if all.len() > 256 {
                all.drop_first()
            } else {
                all
            },
            ..v
        }
    }
}

/// What a transfer that begins shows.
pub open spec fn beginning(t: Transfer, job: Job, name: Seq<char>, size: u64) -> bool {
    &&& t.id == job.id
    &&& t.name@ == name
    &&& t.direction@ == if job.upload {
        "upload"@
    } else {
        "download"@
    }
    &&& t.done == 0
    &&& t.total == size
    &&& t.outcome@ == "running"@
}

/// What a transfer that has ended shows.
pub open spec fn ending(t: Transfer, ended: Transfer, success: bool) -> bool {
    &&& ended.id == t.id
    &&& ended.name == t.name
    &&& ended.direction == t.direction
    &&& ended.total == t.total
    &&& ended.done == if success {
        t.total
    } else {
        t.done
    }
    &&& ended.outcome@ == if success {
        "completed"@
    } else {
        "failed"@
    }
}

/// What is to be done for a job.
#[derive(Clone, Copy, PartialEq, Eq, Structural, Debug)]
pub enum Work {
    Upload,
    Download,
}

fn word_list(words: &[&str]) -> (r: Vec<String>)
    ensures
        r@.len() == words@.len(),
        forall|i: int| 0 <= i < r@.len() ==> (#[trigger] r@[i])@ == words@[i]@,
{
    let mut r: Vec<String> = Vec::new();
    let mut i: usize = 0;
    while i < words.len()
        invariant
            i <= words@.len(),
            r@.len() == i,
            forall|j: int| 0 <= j < i ==> (#[trigger] r@[j])@ == words@[j]@,
        decreases words@.len() - i,
    {
        r.push(words[i].to_owned());
        i += 1;
    }
    r
}

fn capabilities(mock: bool) -> (r: Vec<String>)
    ensures
        texts(r@) == capability_words(mock),
{
    if mock {
        let words: [&str; 4] = ["pause", "download", "release", "mock_import"];
        let r = word_list(words.as_slice());
        assert(texts(r@) =~= capability_words(mock));
        r
    } else {
        let words: [&str; 1] = ["pause"];
        let r = word_list(words.as_slice());
        assert(texts(r@) =~= capability_words(mock));
        r
    }
}

fn unsupported() -> (r: Vec<String>)
    ensures
        texts(r@) == unsupported_words(),
{
    let words: [&str; 8] = [
        "cfapi",
        "browser_login",
        "account_switch",
        "peer_file_sync",
        "open_sync_root",
        "pin",
        "bandwidth",
        "autostart",
    ];
    let r = word_list(words.as_slice());
    assert(texts(r@) =~= unsupported_words());
    r
}

fn is_importable(name: &str) -> (r: bool)
    ensures
        r == importable(name@),
{
    let c = chars_of(name);
    if !(c.len() > 0 && name.as_bytes().len() < 128) {
        return false;
    }
    let mut i: usize = 0;
    while i < c.len()
        invariant
            i <= c@.len(),
            c@ == name@,
            forall|j: int|
                0 <= j < i ==> is_ascii_alnum(#[trigger] name@[j]) || name@[j] == '.' || name@[j]
                    == '_' || name@[j] == '-',
        decreases c@.len() - i,
    {
        let x = c[i];
        let alnum = ('0' <= x && x <= '9') || ('a' <= x && x <= 'z') || ('A' <= x && x <= 'Z');
        if !(alnum || x == '.' || x == '_' || x == '-') {
            assert(!is_ascii_alnum(name@[i as int]));
            return false;
        }
        i += 1;
    }
    !same_text(name, ".") && !same_text(name, "..")
}

/// The mode that a directory is marked with.
pub open spec fn mode_word(mock: bool) -> Seq<char> {
    if mock {
        "isolated_mock_v1"@
    } else {
        "unconfigured_v1"@
    }
}

/// Only the locks of the engine and the tray.
pub open spec fn only_locks(entries: Seq<String>) -> bool {
    forall|i: int|
        0 <= i < entries.len() ==> (#[trigger] entries[i])@ == "engine.lock"@ || entries[i]@
            == "tray.lock"@
}

/// Whether a directory can serve the engine in a mode: it is marked with that
/// mode, or is not marked and holds nothing but locks. The result is the mark
/// to write, where there is none.
pub fn open(marker: &Option<String>, entries: &Vec<String>, mock: bool) -> (r: Result<
    Option<&'static str>,
    Refusal,
>)
    ensures
        match *marker {
            Some(m) => if m@ == mode_word(mock) {
                r == Ok::<Option<&'static str>, Refusal>(None)
            } else {
                r == Err::<Option<&'static str>, Refusal>(Refusal::ModeMismatch)
            },
            None => if only_locks(entries@) {
                r matches Ok(Some(mark)) && mark@ == mode_word(mock)
            } else {
                r == Err::<Option<&'static str>, Refusal>(Refusal::UnownedDirectory)
            },
        },
{
    let mode = if mock {
        "isolated_mock_v1"
    } else {
        "unconfigured_v1"
    };
    match marker {
        Some(m) => if same_text(m.as_str(), mode) {
            Ok(None)
        } else {
            Err(Refusal::ModeMismatch)
        },
        None => {
            let mut i: usize = 0;
            while i < entries.len()
                invariant
                    *marker is None,
                    i <= entries@.len(),
                    forall|j: int|
                        0 <= j < i ==> (#[trigger] entries@[j])@ == "engine.lock"@ || entries@[j]@
                            == "tray.lock"@,
                decreases entries@.len() - i,
            {
                let e = entries[i].as_str();
                if !(same_text(e, "engine.lock") || same_text(e, "tray.lock")) {
                    assert(!(entries@[i as int]@ == "engine.lock"@));
                    return Err(Refusal::UnownedDirectory);
                }
                i += 1;
            }
            Ok(Some(mode))
        },
    }
}

/// The identifier of a file that is imported.
pub fn import_id(pid: u32, nanos: u128) -> (r: String)
    ensures
        r@ == "local-"@ + decimal(pid as nat) + "-"@ + decimal(nanos as nat),
{
    let p = decimal_text(pid as u64);
    let n = wide_decimal_text(nanos);
    let head = joined("local-", p.as_str());
    let head = joined(head.as_str(), "-");
    joined(head.as_str(), n.as_str())
}

/// The replies that are kept are of this version and carry the identifiers of
/// their requests, and each says that all is well exactly where it names no error.
pub open spec fn replies_sound(replies: Seq<AnsweredView>) -> bool {
    forall|i: int|
        0 <= i < replies.len() ==> {
            &&& (#[trigger] replies[i]).reply.version == VERSION
            &&& replies[i].reply.id == replies[i].id
            &&& replies[i].reply.ok <==> replies[i].reply.error is None
        }
}

impl Engine {
    /// The lists of what has ended and of replies are bounded, and the replies
    /// are sound.
    pub open spec fn wf(&self) -> bool {
        self@.recent.len() <= 32 && self@.replies.len() <= 256 && replies_sound(self@.replies)
    }

    /// An engine that has done nothing yet. `stored` is what was stored about
    /// being paused.
    pub fn new(mock: bool, pid: u32, stored: &Option<String>) -> (r: Self)
        ensures
            r.wf(),
            r@ == (EngineView {
                mock,
                pid,
                paused: option_text(*stored) == Some("true"@),
                revision: 0,
                queue: Seq::empty(),
                active: None,
                recent: Seq::empty(),
                replies: Seq::empty(),
            }),
    {
        let paused = match stored {
            Some(t) => same_text(t.as_str(), "true"),
            None => false,
        };
        let r = Engine {
            mock,
            pid,
            paused,
            revision: 0,
            queue: Vec::new(),
            active: None,
            recent: Vec::new(),
            replies: Vec::new(),
        };
        assert(r@.replies =~= Seq::empty());
        r
    }

    /// What the engine shows of itself, with the items that the database lists.
    pub fn snapshot(&self, list: &Vec<Listed>) -> (r: Snapshot)
        ensures
            r@ == shown(self@, list@),
    {
        let mut files: Vec<Item> = Vec::new();
        let mut count: usize = 0;
        let mut i: usize = 0;
        while i < list.len()
            invariant
                i <= list@.len(),
                count <= i,
                count == files_of(list@.take(i as int)).len(),
                files@ == at_most(files_of(list@.take(i as int)), 200),
            decreases list@.len() - i,
        {
            let ghost upto = list@.take(i + 1);
            proof {
                assert(upto.drop_last() =~= list@.take(i as int));
                assert(upto.last() == list@[i as int]);
            }
            let l = &list[i];
            if !l.is_dir {
                if files.len() < 200 {
                    files.push(
                        Item {
                            id: l.id.clone(),
                            name: l.name.clone(),
                            state: l.state.clone(),
                            size: l.size,
                        },
                    );
                    assert(files@ =~= at_most(files_of(upto), 200));
                } else {
                    assert(files@ =~= at_most(files_of(upto), 200));
                }
                count += 1;
            }
            i += 1;
        }
        assert(list@.take(list@.len() as int) =~= list@);
        let status = if self.paused && self.active.is_some() {
            "draining"
        } else if self.paused {
            "paused"
        } else if self.active.is_some() {
            "transferring"
        } else if self.queue.len() > 0 {
            "queued"
        } else if self.mock {
            "mock_idle"
        } else {
            "signed_out"
        };
        let mode = if self.mock {
            "isolated_mock"
        } else {
            "unconfigured"
        };
        Snapshot {
            engine_version: ENGINE_VERSION.to_owned(),
            engine_pid: self.pid,
            revision: self.revision,
            mode: mode.to_owned(),
            status: status.to_owned(),
            paused: self.paused,
            queued: self.queue.len(),
            active: copy_transfer(&self.active),
            recent: copy_transfers(&self.recent),
            files,
            file_count: count,
            capabilities: capabilities(self.mock),
            unsupported: unsupported(),
        }
    }

    fn broken_snapshot(&self) -> (r: Snapshot)
        ensures
            r@ == shown_broken(self@),
    {
        let words: [&str; 1] = ["all"];
        let unsupported = word_list(words.as_slice());
        let r = Snapshot {
            engine_version: ENGINE_VERSION.to_owned(),
            engine_pid: self.pid,
            revision: self.revision,
            mode: "error".to_owned(),
            status: "error".to_owned(),
            paused: self.paused,
            queued: self.queue.len(),
            active: None,
            recent: Vec::new(),
            files: Vec::new(),
            file_count: 0,
            capabilities: Vec::new(),
            unsupported,
        };
        proof {
            assert(r@.capabilities =~= Seq::empty());
            assert(r@.unsupported =~= seq!["all"@]);
        }
        r
    }

    fn is_busy(&self, id: &str) -> (r: bool)
        ensures
            r == busy(self@, id@),
    {
        match &self.active {
            Some(a) => if same_text(a.id.as_str(), id) {
                return true;
            },
            None => {},
        }
        let mut i: usize = 0;
        while i < self.queue.len()
            invariant
                i <= self.queue@.len(),
                forall|j: int| 0 <= j < i ==> (#[trigger] self.queue@[j]).id@ != id@,
            decreases self.queue@.len() - i,
        {
            if same_text(self.queue[i].id.as_str(), id) {
                assert(self@.queue[i as int].id@ == id@);
                return true;
            }
            i += 1;
        }
        false
    }

    fn find_answer(&self, id: &str) -> (r: Option<usize>)
        ensures
            match r {
                Some(i) => answer_at(self@, id@, i as int),
                None => forall|i: int| !answer_at(self@, id@, i),
            },
    {
        let mut i: usize = 0;
        while i < self.replies.len()
            invariant
                i <= self.replies@.len(),
                forall|j: int| 0 <= j < i ==> (#[trigger] self@.replies[j]).id != id@,
            decreases self.replies@.len() - i,
        {
            if same_text(self.replies[i].id.as_str(), id) {
                assert(self@.replies[i as int].id == id@);
                return Some(i);
            }
            assert(self@.replies[i as int].id != id@);
            i += 1;
        }
        None
    }

    fn refuse_at_once(&self, request: &Request) -> (r: Option<Refusal>)
        ensures
            r == refused_at_once(self@, *request),
    {
        if request.version != VERSION {
            return Some(Refusal::UnsupportedProtocol);
        }
        proof {
            reveal_strlit("");
            assert(request.id@.len() == 0 ==> request.id@ =~= ""@);
        }
        if same_text(request.id.as_str(), "") || request.id.as_str().as_bytes().len() > 128 {
            return Some(Refusal::InvalidRequestId);
        }
        match &request.command {
            Command::Snapshot => None,
            Command::SetPaused { .. } => None,
            Command::Download { id } => if !self.mock {
                Some(Refusal::CapabilityUnavailable)
            } else if self.queue.len() >= 128 {
                Some(Refusal::QueueFull)
            } else {
                None
            },
            Command::Release { id } => if !self.mock {
                Some(Refusal::CapabilityUnavailable)
            } else if self.is_busy(id.as_str()) {
                Some(Refusal::FileBusy)
            } else {
                None
            },
            Command::MockImport { name, content } => if !self.mock {
                Some(Refusal::CapabilityUnavailable)
            } else if !is_importable(name.as_str()) {
                Some(Refusal::InvalidMockName)
            } else if content.as_str().as_bytes().len() > 262144 || self.queue.len() >= 128 {
                Some(Refusal::MockInputLimit)
            } else {
                None
            },
        }
    }

    /// The first step of a request: an answer that was given before, a refusal,
    /// or work to be done.
    pub fn handle(&self, request: &Request) -> (r: Step)
        ensures
            begins_with(self@, *request, r),
    {
        match self.find_answer(request.id.as_str()) {
            Some(i) => {
                let fingerprint = request.fingerprint();
                proof {
                    let c = choose|c: int| answer_at(self@, request.id@, c);
                    assert(answer_at(self@, request.id@, i as int));
                    assert(c == i) by {
                        if c < i {
                            assert(self@.replies[c].id != request.id@);
                        } else if i < c {
                            assert(self@.replies[i as int].id != request.id@);
                        }
                    }
                }
                return if same_text(self.replies[i].fingerprint.as_str(), fingerprint.as_str()) {
                    Step::Answer(self.replies[i].reply.clone())
                } else {
                    Step::Reused
                };
            },
            None => {},
        }
        match self.refuse_at_once(request) {
            Some(r) => Step::Conclude(Outcome::Refused(r)),
            None => match &request.command {
                Command::Snapshot => Step::Conclude(Outcome::Accepted),
                Command::SetPaused { paused } => Step::StorePaused(*paused),
                Command::Download { id } => Step::Find(id.clone()),
                Command::Release { id } => Step::Find(id.clone()),
                Command::MockImport { name, content } => Step::Import(
                    name.clone(),
                    content.clone(),
                ),
            },
        }
    }

    /// The step after something happened about a request.
    pub fn resume(&mut self, request: &Request, event: Event) -> (r: Step)
        requires
            old(self).wf(),
            old(self).revision < u64::MAX,
        ensures
            final(self).wf(),
            final(self)@ == follows(old(self)@, *request, event).0,
            r == follows(old(self)@, *request, event).1,
    {
        match (&request.command, event) {
            (_, Event::Failed(e)) => Step::Conclude(Outcome::Broken(e)),
            (Command::SetPaused { paused }, Event::PausedStored) => {
                self.paused = *paused;
                self.revision = self.revision + 1;
                Step::Conclude(Outcome::Accepted)
            },
            (Command::Download { id }, Event::Found(found)) => match found {
                None => Step::Conclude(Outcome::Refused(Refusal::UnknownItem)),
                Some(f) => if f.is_dir {
                    Step::Conclude(Outcome::Refused(Refusal::NotAFile))
                } else if !f.online_only {
                    Step::Conclude(Outcome::Refused(Refusal::DownloadRequiresOnlineOnlyFile))
                } else if self.is_busy(id.as_str()) {
                    Step::Conclude(Outcome::Refused(Refusal::AlreadyQueued))
                } else {
                    self.queue.push(Job { id: id.clone(), upload: false });
                    self.revision = self.revision + 1;
                    Step::Conclude(Outcome::Accepted)
                },
            },
            (Command::Release { id }, Event::Found(found)) => match found {
                None => Step::Conclude(Outcome::Refused(Refusal::UnknownItem)),
                Some(_) => Step::Release(id.clone()),
            },
            (Command::Release { .. }, Event::Released(done)) => if done {
                self.revision = self.revision + 1;
                Step::Conclude(Outcome::Accepted)
            } else {
                Step::Conclude(Outcome::Refused(Refusal::ReleaseRefused))
            },
            (Command::MockImport { .. }, Event::Imported(id)) => {
                self.queue.push(Job { id, upload: true });
                self.revision = self.revision + 1;
                Step::Conclude(Outcome::Accepted)
            },
            _ => Step::Nothing,
        }
    }

    fn either_snapshot(&self, list: &Option<Vec<Listed>>) -> (r: Snapshot)
        ensures
            r@ == shown_either(self@, *list),
    {
        match list {
            Some(l) => self.snapshot(l),
            None => self.broken_snapshot(),
        }
    }

    /// Answers a request of which something became, and keeps the answer.
    pub fn conclude(&mut self, request: Request, outcome: Outcome, list: &Option<Vec<Listed>>) -> (r:
        Reply)
        requires
            old(self).wf(),
        ensures
            final(self).wf(),
            r@ == concluded(old(self)@, request, outcome, *list),
            final(self)@ == remembering(old(self)@, request, r@),
    {
        let snapshot = self.either_snapshot(list);
        let ok = match &outcome {
            Outcome::Accepted => true,
            _ => false,
        };
        let error: Option<String> = match outcome {
            Outcome::Accepted => None,
            Outcome::Refused(r) => Some(refusal_text(r).to_owned()),
            Outcome::Broken(e) => Some(e),
        };
        let reply = Reply { version: VERSION, id: request.id.clone(), ok, error, snapshot };
        match &request.command {
            Command::Snapshot => {},
            _ => {
                let fingerprint = request.fingerprint();
                let ghost before = self.replies@;
                let kept = Answered { id: request.id, fingerprint, reply: reply.clone() };
                let ghost k = kept;
                self.replies.push(kept);
                assert(answered(self.replies@) =~= answered(before).push(k@));
                if self.replies.len() > 256 {
                    let ghost all = self.replies@;
                    let _ = self.replies.remove(0);
                    assert(answered(self.replies@) =~= answered(all).drop_first());
                }
            },
        }
        reply
    }

    /// Answers a request whose identifier belongs to another one.
    pub fn refuse_reused(&self, request: &Request, list: &Vec<Listed>) -> (r: Reply)
        ensures
            r@ == concluded(
                self@,
                *request,
                Outcome::Refused(Refusal::RequestIdReused),
                Some(*list),
            ),
    {
        Reply {
            version: VERSION,
            id: request.id.clone(),
            ok: false,
            error: Some(refusal_text(Refusal::RequestIdReused).to_owned()),
            snapshot: self.snapshot(list),
        }
    }

    /// Takes the next transfer from the queue, unless the engine is paused or a
    /// transfer runs.
    pub fn run_one(&mut self) -> (r: Option<Job>)
        requires
            old(self).wf(),
        ensures
            final(self).wf(),
            r is Some <==> !old(self)@.paused && old(self)@.active is None
                && old(self)@.queue.len() > 0,
            r matches Some(job) ==> job == old(self)@.queue[0] && final(self)@ == (EngineView {
                queue: old(self)@.queue.drop_first(),
                ..old(self)@
            }),
            r is None ==> final(self)@ == old(self)@,
    {
        if self.paused || self.active.is_some() {
            return None;
        }
        if self.queue.len() == 0 {
            return None;
        }
        let job = self.queue.remove(0);
        assert(self@.queue =~= old(self)@.queue.drop_first());
        Some(job)
    }

    /// Begins the transfer of an item that was looked up.
    pub fn begin(&mut self, job: &Job, found: Option<(String, u64)>) -> (r: Result<(), Refusal>)
        requires
            old(self).wf(),
            old(self).revision < u64::MAX,
        ensures
            final(self).wf(),
            match found {
                None => r == Err::<(), Refusal>(Refusal::UnknownItem) && final(self)@ == old(
                    self,
                )@,
                Some(f) => {
                    &&& r is Ok
                    &&& final(self)@.active matches Some(t) && beginning(t, *job, f.0@, f.1)
                    &&& final(self)@ == (EngineView {
                        active: final(self)@.active,
                        revision: (old(self)@.revision + 1) as u64,
                        ..old(self)@
                    })
                },
            },
    {
        match found {
            None => Err(Refusal::UnknownItem),
            Some((name, size)) => {
                let direction = if job.upload {
                    "upload"
                } else {
                    "download"
                };
                self.active = Some(
                    Transfer {
                        id: job.id.clone(),
                        name,
                        direction: direction.to_owned(),
                        done: 0,
                        total: size,
                        outcome: "running".to_owned(),
                    },
                );
                self.revision = self.revision + 1;
                Ok(())
            },
        }
    }

    /// What is to be done for a job, if the engine can and the item is still
    /// known.
    pub fn work(&self, job: &Job, known: bool) -> (r: Result<Work, Refusal>)
        ensures
            r == if !self@.mock {
                Err(Refusal::CapabilityUnavailable)
            } else if !known {
                Err(Refusal::UnknownItem)
            } else if job.upload {
                Ok(Work::Upload)
            } else {
                Ok(Work::Download)
            },
    {
        if !self.mock {
            Err(Refusal::CapabilityUnavailable)
        } else if !known {
            Err(Refusal::UnknownItem)
        } else if job.upload {
            Ok(Work::Upload)
        } else {
            Ok(Work::Download)
        }
    }

    /// Ends the running transfer. The last thirty-two are kept, the newest
    /// first; a transfer that failed never shows as complete.
    pub fn finish(&mut self, success: bool)
        requires
            old(self).wf(),
            old(self).revision < u64::MAX,
        ensures
            final(self).wf(),
            old(self)@.active is None ==> final(self)@ == (EngineView {
                revision: (old(self)@.revision + 1) as u64,
                ..old(self)@
            }),
            old(self)@.active is Some ==> {
                &&& final(self)@.recent.len() > 0
                &&& ending(old(self)@.active->0, final(self)@.recent[0], success)
                &&& final(self)@ == (EngineView {
                    active: None,
                    recent: at_most(
                        seq![final(self)@.recent[0]] + old(self)@.recent,
                        32,
                    ),
                    revision: (old(self)@.revision + 1) as u64,
                    ..old(self)@
                })
            },
    {
        match self.active.take() {
            None => {},
            Some(t) => {
                let mut t = t;
                if success {
                    t.outcome = "completed".to_owned();
                    t.done = t.total;
                } else {
                    t.outcome = "failed".to_owned();
                }
                let ghost ended = t;
                self.recent.insert(0, t);
                assert(self.recent@ =~= seq![ended] + old(self)@.recent);
                self.recent.truncate(32);
                assert(self.recent@ =~= at_most(seq![ended] + old(self)@.recent, 32));
            },
        }
        self.revision = self.revision + 1;
    }

    /// Takes notice of the progress of the running transfer.
    pub fn progress(&mut self, done: u64, total: u64)
        requires
            old(self).wf(),
            old(self).revision < u64::MAX,
        ensures
            final(self).wf(),
            final(self)@ == (EngineView {
                active: match old(self)@.active {
                    Some(t) => Some(
                        Transfer {
                            done: if done <= total {
                                done
                            } else {
                                total
                            },
                            total,
                            ..t
                        },
                    ),
                    None => None,
                },
                revision: (old(self)@.revision + 1) as u64,
                ..old(self)@
            }),
    {
        match self.active.take() {
            None => {},
            Some(t) => {
                let mut t = t;
                t.done = if done <= total {
                    done
                } else {
                    total
                };
                t.total = total;
                self.active = Some(t);
            },
        }
        self.revision = self.revision + 1;
    }
}

/// Requests were answered one after another: `states` are the states after each
/// answer, the first one the state before any.
pub open spec fn answered_in_turn(
    states: Seq<EngineView>,
    later: Seq<(Request, ReplyView)>,
) -> bool {
    &&& states.len() == later.len() + 1
    &&& forall|i: int|
        0 <= i < later.len() ==> states[i + 1].replies == remembering(
            states[i],
            (#[trigger] later[i]).0,
            later[i].1,
        ).replies
}

/// How many of the requests were more than a mere look.
pub open spec fn kept_count(later: Seq<(Request, ReplyView)>) -> nat
    decreases later.len(),
{
    if later.len() == 0 {
        0
    } else {
        kept_count(later.drop_last()) + if later.last().0.command is Snapshot {
            0nat
        } else {
            1nat
        }
    }
}

/// A request with an identifier of its own was answered, and others, with other
/// identifiers, after it.
pub open spec fn answered_before_others(
    v: EngineView,
    request: Request,
    reply: ReplyView,
    states: Seq<EngineView>,
    later: Seq<(Request, ReplyView)>,
) -> bool {
    &&& v.replies.len() <= 256
    &&& forall|i: int| !answer_at(v, request.id@, i)
    &&& !(request.command is Snapshot)
    &&& answered_in_turn(states, later)
    &&& states[0].replies == remembering(v, request, reply).replies
    &&& forall|i: int| 0 <= i < later.len() ==> (#[trigger] later[i]).0.id@ != request.id@
}

/// Where the answer to a request stands after others were answered: as many
/// places before the end as there are newer answers.
proof fn lemma_place_of_answer(
    v: EngineView,
    request: Request,
    reply: ReplyView,
    states: Seq<EngineView>,
    later: Seq<(Request, ReplyView)>,
)
    requires
        answered_before_others(v, request, reply, states, later),
    ensures
        states.last().replies.len() <= 256,
        forall|j: int|
            0 <= j < states.last().replies.len() && (#[trigger] states.last().replies[j]).id
                == request.id@ ==> j == states.last().replies.len() - 1 - kept_count(later),
        kept_count(later) <= 255 ==> {
            let place = states.last().replies.len() - 1 - kept_count(later);
            &&& 0 <= place
            &&& states.last().replies[place] == (AnsweredView {
                id: request.id@,
                fingerprint: json_of(request.json()),
                reply,
            })
        },
    decreases later.len(),
{
    let n = later.len() as int;
    if n == 0 {
        let w = states[0].replies;
        lemma_unanswered(v, request.id@);
        assert(states.last() == states[0]);
        assert forall|j: int|
            0 <= j < w.len() && (#[trigger] w[j]).id == request.id@ implies j == w.len() - 1 by {
            if j < w.len() - 1 {
                let k = if v.replies.len() == 256 {
                    j + 1
                } else {
                    j
                };
                assert(w[j] == v.replies[k]);
            }
        }
    } else {
        let (less, before) = (later.drop_last(), states.drop_last());
        assert forall|i: int| 0 <= i < less.len() implies before[i + 1].replies == remembering(
            before[i],
            (#[trigger] less[i]).0,
            less[i].1,
        ).replies by {
            assert(less[i] == later[i]);
            assert(before[i] == states[i] && before[i + 1] == states[i + 1]);
        }
        assert forall|i: int| 0 <= i < less.len() implies (#[trigger] less[i]).0.id@
            != request.id@ by {
            assert(less[i] == later[i]);
        }
        assert(before[0] == states[0]);
        lemma_place_of_answer(v, request, reply, before, less);
        let (m, w) = (before.last(), states.last().replies);
        assert(m == states[n - 1]);
        assert(later[n - 1] == later.last());
        assert(states[n - 1 + 1].replies == remembering(
            states[n - 1],
            later[n - 1].0,
            later[n - 1].1,
        ).replies);
        assert(w == remembering(m, later.last().0, later.last().1).replies);
        if !(later.last().0.command is Snapshot) {
            let shift: int = if m.replies.len() == 256 {
                1
            } else {
                0
            };
            assert forall|j: int| 0 <= j < w.len() - 1 implies #[trigger] w[j] == m.replies[j
                + shift] by {}
            assert(w[w.len() - 1].id == later[n - 1].0.id@);
        }
    }
}

/// A request that was answered is answered alike when it is repeated, and changes
/// nothing then, unless more than two hundred and fifty-five others, mere looks
/// apart, were answered since.
pub proof fn lemma_repeated_request_is_answered(
    v: EngineView,
    request: Request,
    reply: ReplyView,
    states: Seq<EngineView>,
    later: Seq<(Request, ReplyView)>,
    again: Request,
    step: Step,
)
    requires
        answered_before_others(v, request, reply, states, later),
        kept_count(later) <= 255,
        same_request(request, again),
        begins_with(states.last(), again, step),
    ensures
        step matches Step::Answer(r) && r@ == reply,
{
    let w = states.last();
    let place = w.replies.len() - 1 - kept_count(later);
    lemma_place_of_answer(v, request, reply, states, later);
    assert(answer_at(w, again.id@, place));
    let i = choose|i: int| answer_at(w, again.id@, i);
    assert(w.replies[i].id == again.id@);
    lemma_fingerprint_stable(request, again);
}

proof fn lemma_unanswered(v: EngineView, id: Seq<char>)
    requires
        forall|i: int| !answer_at(v, id, i),
    ensures
        forall|j: int| 0 <= j < v.replies.len() ==> (#[trigger] v.replies[j]).id != id,
{
    assert forall|j: int| 0 <= j < v.replies.len() implies (#[trigger] v.replies[j]).id != id by {
        lemma_unanswered_to(v, id, j);
    }
}

proof fn lemma_unanswered_to(v: EngineView, id: Seq<char>, n: int)
    requires
        forall|i: int| !answer_at(v, id, i),
        0 <= n < v.replies.len(),
    ensures
        v.replies[n].id != id,
    decreases n,
{
    assert forall|j: int| 0 <= j < n implies (#[trigger] v.replies[j]).id != id by {
        lemma_unanswered_to(v, id, j);
    }
    assert(!answer_at(v, id, n));
}

/// An identifier that was used is refused for any other request, unless more than
/// two hundred and fifty-five others, mere looks apart, were answered since.
pub proof fn lemma_reused_id_is_refused(
    v: EngineView,
    request: Request,
    reply: ReplyView,
    states: Seq<EngineView>,
    later: Seq<(Request, ReplyView)>,
    other: Request,
    step: Step,
)
    requires
        answered_before_others(v, request, reply, states, later),
        kept_count(later) <= 255,
        other.id@ == request.id@,
        !same_request(request, other),
        begins_with(states.last(), other, step),
    ensures
        step == Step::Reused,
{
    let w = states.last();
    let place = w.replies.len() - 1 - kept_count(later);
    lemma_place_of_answer(v, request, reply, states, later);
    assert(answer_at(w, other.id@, place));
    let i = choose|i: int| answer_at(w, other.id@, i);
    assert(w.replies[i].id == other.id@);
    if w.replies[i].fingerprint == json_of(other.json()) {
        lemma_fingerprint_injective(request, other);
    }
}

/// An answer is forgotten once two hundred and fifty-six others, mere looks
/// apart, were given: its identifier is free again.
pub proof fn lemma_old_answer_is_forgotten(
    v: EngineView,
    request: Request,
    reply: ReplyView,
    states: Seq<EngineView>,
    later: Seq<(Request, ReplyView)>,
)
    requires
        answered_before_others(v, request, reply, states, later),
        kept_count(later) > 255,
    ensures
        forall|i: int| !answer_at(states.last(), request.id@, i),
{
    lemma_place_of_answer(v, request, reply, states, later);
}

/// What happens about a request raises the revision by one where the request
/// is accepted, and leaves the state alone where it is refused.
pub proof fn lemma_revision_tells_changes(v: EngineView, request: Request, event: Event)
    requires
        v.revision < u64::MAX,
    ensures
        follows(v, request, event).1 == Step::Conclude(Outcome::Accepted) ==> follows(
            v,
            request,
            event,
        ).0.revision == v.revision + 1,
        follows(v, request, event).1 != Step::Conclude(Outcome::Accepted) ==> follows(
            v,
            request,
            event,
        ).0 == v,
{
}

} // verus!
