//! The requests that the desktop engine takes and the replies that it gives.

use crate::json::{
    ends_number, json_of, lemma_json_decodes, Json, ObjectText,
};
use vstd::prelude::*;

verus! {

/// The version of the protocol.
pub const VERSION: u32 = 1;

/// The largest frame of the local connection.
pub const MAX_FRAME: usize = 1048576;

/// The version of the engine.
pub const ENGINE_VERSION: &'static str = "0.1.0";

/// What a client asks for.
#[derive(Debug)]
pub struct Request {
    pub version: u32,
    pub id: String,
    pub command: Command,
}

/// What the engine is to do.
#[derive(Debug)]
pub enum Command {
    Snapshot,
    SetPaused { paused: bool },
    Download { id: String },
    Release { id: String },
    MockImport { name: String, content: String },
}

/// A file that the engine knows.
#[derive(Debug)]
pub struct Item {
    pub id: String,
    pub name: String,
    pub state: String,
    pub size: u64,
}

/// A transfer that runs or has ended.
#[derive(Debug)]
pub struct Transfer {
    pub id: String,
    pub name: String,
    pub direction: String,
    pub done: u64,
    pub total: u64,
    pub outcome: String,
}

/// What the engine shows of itself.
#[derive(Debug)]
pub struct Snapshot {
    pub engine_version: String,
    pub engine_pid: u32,
    pub revision: u64,
    pub mode: String,
    pub status: String,
    pub paused: bool,
    pub queued: usize,
    pub active: Option<Transfer>,
    pub recent: Vec<Transfer>,
    pub files: Vec<Item>,
    pub file_count: usize,
    pub capabilities: Vec<String>,
    pub unsupported: Vec<String>,
}

/// What the engine answers.
#[derive(Debug)]
pub struct Reply {
    pub version: u32,
    pub id: String,
    pub ok: bool,
    pub error: Option<String>,
    pub snapshot: Snapshot,
}

/// The model of a snapshot.
pub struct SnapshotView {
    pub engine_version: Seq<char>,
    pub engine_pid: u32,
    pub revision: u64,
    pub mode: Seq<char>,
    pub status: Seq<char>,
    pub paused: bool,
    pub queued: usize,
    pub active: Option<Transfer>,
    pub recent: Seq<Transfer>,
    pub files: Seq<Item>,
    pub file_count: usize,
    pub capabilities: Seq<Seq<char>>,
    pub unsupported: Seq<Seq<char>>,
}

/// The model of a reply.
pub struct ReplyView {
    pub version: u32,
    pub id: Seq<char>,
    pub ok: bool,
    pub error: Option<Seq<char>>,
    pub snapshot: SnapshotView,
}

/// The models of texts.
pub open spec fn texts(v: Seq<String>) -> Seq<Seq<char>> {
    v.map_values(|s: String| s@)
}

impl View for Snapshot {
    type V = SnapshotView;

    open spec fn view(&self) -> SnapshotView {
        SnapshotView {
            engine_version: self.engine_version@,
            engine_pid: self.engine_pid,
            revision: self.revision,
            mode: self.mode@,
            status: self.status@,
            paused: self.paused,
            queued: self.queued,
            active: self.active,
            recent: self.recent@,
            files: self.files@,
            file_count: self.file_count,
            capabilities: texts(self.capabilities@),
            unsupported: texts(self.unsupported@),
        }
    }
}

impl View for Reply {
    type V = ReplyView;

    open spec fn view(&self) -> ReplyView {
        ReplyView {
            version: self.version,
            id: self.id@,
            ok: self.ok,
            error: crate::text::option_text(self.error),
            snapshot: self.snapshot@,
        }
    }
}

impl Clone for Command {
    fn clone(&self) -> (r: Self)
        ensures
            r == *self,
    {
        match self {
            Command::Snapshot => Command::Snapshot,
            Command::SetPaused { paused } => Command::SetPaused { paused: *paused },
            Command::Download { id } => Command::Download { id: id.clone() },
            Command::Release { id } => Command::Release { id: id.clone() },
            Command::MockImport { name, content } => Command::MockImport {
                name: name.clone(),
                content: content.clone(),
            },
        }
    }
}

impl Clone for Request {
    fn clone(&self) -> (r: Self)
        ensures
            r == *self,
    {
        Request { version: self.version, id: self.id.clone(), command: self.command.clone() }
    }
}

impl Clone for Item {
    fn clone(&self) -> (r: Self)
        ensures
            r == *self,
    {
        Item {
            id: self.id.clone(),
            name: self.name.clone(),
            state: self.state.clone(),
            size: self.size,
        }
    }
}

impl Clone for Transfer {
    fn clone(&self) -> (r: Self)
        ensures
            r == *self,
    {
        Transfer {
            id: self.id.clone(),
            name: self.name.clone(),
            direction: self.direction.clone(),
            done: self.done,
            total: self.total,
            outcome: self.outcome.clone(),
        }
    }
}

/// A copy of a list of transfers.
pub(crate) fn copy_transfers(v: &Vec<Transfer>) -> (r: Vec<Transfer>)
    ensures
        r@ == v@,
{
    let mut r: Vec<Transfer> = Vec::new();
    let mut i: usize = 0;
    while i < v.len()
        invariant
            i <= v@.len(),
            r@ == v@.take(i as int),
        decreases v@.len() - i,
    {
        r.push(v[i].clone());
        assert(v@.take(i + 1) =~= v@.take(i as int).push(v@[i as int]));
        i += 1;
    }
    assert(v@.take(v@.len() as int) =~= v@);
    r
}

/// A copy of an optional transfer.
pub(crate) fn copy_transfer(t: &Option<Transfer>) -> (r: Option<Transfer>)
    ensures
        r == *t,
{
    match t {
        Some(t) => Some(t.clone()),
        None => None,
    }
}

fn copy_items(v: &Vec<Item>) -> (r: Vec<Item>)
    ensures
        r@ == v@,
{
    let mut r: Vec<Item> = Vec::new();
    let mut i: usize = 0;
    while i < v.len()
        invariant
            i <= v@.len(),
            r@ == v@.take(i as int),
        decreases v@.len() - i,
    {
        r.push(v[i].clone());
        assert(v@.take(i + 1) =~= v@.take(i as int).push(v@[i as int]));
        i += 1;
    }
    assert(v@.take(v@.len() as int) =~= v@);
    r
}

fn copy_texts(v: &Vec<String>) -> (r: Vec<String>)
    ensures
        texts(r@) == texts(v@),
{
    let mut r: Vec<String> = Vec::new();
    let mut i: usize = 0;
    while i < v.len()
        invariant
            i <= v@.len(),
            r@ == v@.take(i as int),
        decreases v@.len() - i,
    {
        r.push(v[i].clone());
        assert(v@.take(i + 1) =~= v@.take(i as int).push(v@[i as int]));
        i += 1;
    }
    assert(v@.take(v@.len() as int) =~= v@);
    r
}

impl Clone for Snapshot {
    fn clone(&self) -> (r: Self)
        ensures
            r@ == self@,
    {
        Snapshot {
            engine_version: self.engine_version.clone(),
            engine_pid: self.engine_pid,
            revision: self.revision,
            mode: self.mode.clone(),
            status: self.status.clone(),
            paused: self.paused,
            queued: self.queued,
            active: copy_transfer(&self.active),
            recent: copy_transfers(&self.recent),
            files: copy_items(&self.files),
            file_count: self.file_count,
            capabilities: copy_texts(&self.capabilities),
            unsupported: copy_texts(&self.unsupported),
        }
    }
}

impl Clone for Reply {
    fn clone(&self) -> (r: Self)
        ensures
            r@ == self@,
    {
        Reply {
            version: self.version,
            id: self.id.clone(),
            ok: self.ok,
            error: match &self.error {
                Some(e) => Some(e.clone()),
                None => None,
            },
            snapshot: self.snapshot.clone(),
        }
    }
}

/// Two commands ask for the same.
pub open spec fn same_command(a: Command, b: Command) -> bool {
    match (a, b) {
        (Command::Snapshot, Command::Snapshot) => true,
        (Command::SetPaused { paused: x }, Command::SetPaused { paused: y }) => x == y,
        (Command::Download { id: x }, Command::Download { id: y }) => x@ == y@,
        (Command::Release { id: x }, Command::Release { id: y }) => x@ == y@,
        (
            Command::MockImport { name: m, content: x },
            Command::MockImport { name: n, content: y },
        ) => m@ == n@ && x@ == y@,
        _ => false,
    }
}

/// Two requests are the same.
pub open spec fn same_request(a: Request, b: Request) -> bool {
    a.version == b.version && a.id@ == b.id@ && same_command(a.command, b.command)
}

impl Command {
    /// The command as it is sent.
    pub open spec fn json(&self) -> Json {
        Json::Object(
            match *self {
                Command::Snapshot => seq![("type"@, Json::Text("snapshot"@))],
                Command::SetPaused { paused } => seq![
                    ("type"@, Json::Text("set_paused"@)),
                    ("paused"@, Json::Flag(paused)),
                ],
                Command::Download { id } => seq![
                    ("type"@, Json::Text("download"@)),
                    ("id"@, Json::Text(id@)),
                ],
                Command::Release { id } => seq![
                    ("type"@, Json::Text("release"@)),
                    ("id"@, Json::Text(id@)),
                ],
                Command::MockImport { name, content } => seq![
                    ("type"@, Json::Text("mock_import"@)),
                    ("name"@, Json::Text(name@)),
                    ("content"@, Json::Text(content@)),
                ],
            },
        )
    }

    fn to_json(&self) -> (r: String)
        ensures
            r@ == json_of(self.json()),
    {
        let mut o = ObjectText::new();
        match self {
            Command::Snapshot => {
                o.string("type", "snapshot");
            },
            Command::SetPaused { paused } => {
                o.string("type", "set_paused");
                o.flag("paused", *paused);
            },
            Command::Download { id } => {
                o.string("type", "download");
                o.string("id", id.as_str());
            },
            Command::Release { id } => {
                o.string("type", "release");
                o.string("id", id.as_str());
            },
            Command::MockImport { name, content } => {
                o.string("type", "mock_import");
                o.string("name", name.as_str());
                o.string("content", content.as_str());
            },
        }
        proof {
            assert(o.fields() =~= self.json()->Object_0);
        }
        o.finish()
    }
}

impl Request {
    /// The request as it is sent.
    pub open spec fn json(&self) -> Json {
        Json::Object(
            seq![
                ("version"@, Json::Number(self.version as int)),
                ("id"@, Json::Text(self.id@)),
                ("command"@, self.command.json()),
            ],
        )
    }

    /// The text by which a request is recognised.
    pub fn fingerprint(&self) -> (r: String)
        ensures
            r@ == json_of(self.json()),
    {
        let mut o = ObjectText::new();
        o.unsigned("version", self.version as u64);
        o.string("id", self.id.as_str());
        let command = self.command.to_json();
        o.raw("command", command.as_str(), Ghost(self.command.json()));
        proof {
            assert(o.fields() =~= self.json()->Object_0);
        }
        o.finish()
    }
}

/// Requests are recognised rightly: different requests have different texts.
pub proof fn lemma_fingerprint_injective(a: Request, b: Request)
    requires
        json_of(a.json()) == json_of(b.json()),
    ensures
        same_request(a, b),
{
    let end = seq!['.'];
    assert(ends_number(end));
    lemma_json_decodes(a.json(), b.json(), end, end);
    let f = a.json()->Object_0;
    let g = b.json()->Object_0;
    assert(f[0] == g[0] && f[1] == g[1] && f[2] == g[2]);
    let c = a.command.json()->Object_0;
    let d = b.command.json()->Object_0;
    assert(c == d);
    assert(c[0] == d[0]);
    reveal_strlit("snapshot");
    reveal_strlit("set_paused");
    reveal_strlit("download");
    reveal_strlit("release");
    reveal_strlit("mock_import");
    let s = c[0].1->Text_0;
    let t = d[0].1->Text_0;
    assert(s == t);
    assert(s.len() == t.len() && s[0] == t[0]);
    if c.len() > 1 {
        assert(c[1] == d[1]);
    }
    if c.len() > 2 {
        assert(c[2] == d[2]);
    }
}

/// The same request has the same text.
pub proof fn lemma_fingerprint_stable(a: Request, b: Request)
    requires
        same_request(a, b),
    ensures
        json_of(a.json()) == json_of(b.json()),
{
    assert(a.command.json()->Object_0 =~= b.command.json()->Object_0);
    assert(a.json()->Object_0 =~= b.json()->Object_0);
}

} // verus!
