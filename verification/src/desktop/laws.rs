//! What the desktop engine is for: what holds of its operations whatever happens.

use super::engine::{
    at_most, beginning, begins_with, busy, concluded, ending, files_of, follows, mode_word,
    only_locks, refusal_word, remembering, shown, EngineView, Event, Found, Job, Listed, Outcome,
    Refusal, Step,
};
use super::ipc::{frame_in, frame_length, length_bytes, length_of, FrameError};
use super::protocol::{Command, Item, ReplyView, Request, Transfer, ENGINE_VERSION};
use super::tray::{given, launch_of, only_options, Launch, Usage};
use vstd::prelude::*;
use vstd::utf8::encode_utf8;

verus! {

/// A request is new: no answer to its identifier is kept.
pub open spec fn is_new(v: EngineView, request: Request) -> bool {
    forall|i: int| 0 <= i < v.replies.len() ==> (#[trigger] v.replies[i]).id != request.id@
}

/// A request of this protocol with an identifier of a proper length.
pub open spec fn well_formed(request: Request) -> bool {
    request.version == 1 && request.id@ != Seq::<char>::empty() && encode_utf8(request.id@).len()
        <= 128
}

/// A new request of another protocol or with an improper identifier is refused,
/// whatever it asks for.
pub proof fn lemma_malformed_request_is_refused(v: EngineView, request: Request, step: Step)
    requires
        begins_with(v, request, step),
        is_new(v, request),
    ensures
        request.version != 1 ==> step == Step::Conclude(
            Outcome::Refused(Refusal::UnsupportedProtocol),
        ),
        request.version == 1 && (request.id@.len() == 0 || encode_utf8(request.id@).len() > 128)
            ==> step == Step::Conclude(Outcome::Refused(Refusal::InvalidRequestId)),
{
    lemma_new_has_no_answer(v, request);
}

proof fn lemma_new_has_no_answer(v: EngineView, request: Request)
    requires
        is_new(v, request),
    ensures
        forall|i: int| !super::engine::answer_at(v, request.id@, i),
{
}

/// A new look is answered at once; pausing is stored first; a file that is to be
/// downloaded or released is looked up; a file that is to be imported is stored.
/// Without the capability, with a full queue, for a busy file or with a name or
/// content that cannot be, it is refused instead.
pub proof fn lemma_new_request_begins(v: EngineView, request: Request, step: Step)
    requires
        begins_with(v, request, step),
        is_new(v, request),
        well_formed(request),
    ensures
        match request.command {
            Command::Snapshot => step == Step::Conclude(Outcome::Accepted),
            Command::SetPaused { paused } => step == Step::StorePaused(paused),
            Command::Download { id } => step == if !v.mock {
                Step::Conclude(Outcome::Refused(Refusal::CapabilityUnavailable))
            } else if v.queue.len() >= 128 {
                Step::Conclude(Outcome::Refused(Refusal::QueueFull))
            } else {
                Step::Find(id)
            },
            Command::Release { id } => {
                let running = v.active is Some && v.active->0.id@ == id@;
                let waiting = exists|i: int|
                    0 <= i < v.queue.len() && (#[trigger] v.queue[i]).id@ == id@;
                &&& !v.mock ==> step == Step::Conclude(
                    Outcome::Refused(Refusal::CapabilityUnavailable),
                )
                &&& v.mock && (running || waiting) ==> step == Step::Conclude(
                    Outcome::Refused(Refusal::FileBusy),
                )
                &&& v.mock && !running && !waiting ==> step == Step::Find(id)
            },
            Command::MockImport { name, content } => {
                let proper = proper_name(name@);
                &&& !v.mock ==> step == Step::Conclude(
                    Outcome::Refused(Refusal::CapabilityUnavailable),
                )
                &&& v.mock && !proper ==> step == Step::Conclude(
                    Outcome::Refused(Refusal::InvalidMockName),
                )
                &&& v.mock && proper && (encode_utf8(content@).len() > 262144 || v.queue.len()
                    >= 128) ==> step == Step::Conclude(Outcome::Refused(Refusal::MockInputLimit))
                &&& v.mock && proper && encode_utf8(content@).len() <= 262144 && v.queue.len()
                    < 128 ==> step == Step::Import(name, content)
            },
        },
{
    lemma_new_has_no_answer(v, request);
    assert(request.id@.len() == 0 ==> request.id@ =~= Seq::<char>::empty());
}

/// The name of a file that can be imported: letters, digits, dots, underscores and
/// hyphens, not too many, and no name of a directory.
pub open spec fn proper_name(name: Seq<char>) -> bool {
    &&& 0 < name.len()
    &&& encode_utf8(name).len() < 128
    &&& name != "."@ && name != ".."@
    &&& forall|i: int|
        0 <= i < name.len() ==> ('a' <= #[trigger] name[i] && name[i] <= 'z') || ('A' <= name[i]
            && name[i] <= 'Z') || ('0' <= name[i] && name[i] <= '9') || name[i] == '.' || name[i]
            == '_' || name[i] == '-'
}

/// Being paused changes when it is stored, to what was asked for, and nothing else
/// does but the revision.
pub proof fn lemma_pause_is_set(v: EngineView, request: Request, paused: bool)
    requires
        request.command == (Command::SetPaused { paused }),
        v.revision < u64::MAX,
    ensures
        follows(v, request, Event::PausedStored) == (
            EngineView { paused, revision: (v.revision + 1) as u64, ..v },
            Step::Conclude(Outcome::Accepted),
        ),
{
}

/// A file that can be downloaded is put at the end of the queue, as a download: it
/// must be known, a file whose content is in the cloud only, and neither running
/// nor waiting. Otherwise nothing changes and why is told.
pub proof fn lemma_download_is_queued(v: EngineView, request: Request, id: String, f: Found)
    requires
        request.command == (Command::Download { id }),
        v.revision < u64::MAX,
    ensures
        follows(v, request, Event::Found(None)) == (
            v,
            Step::Conclude(Outcome::Refused(Refusal::UnknownItem)),
        ),
        ({
            let running = v.active is Some && v.active->0.id@ == id@;
            let waiting = exists|i: int|
                0 <= i < v.queue.len() && (#[trigger] v.queue[i]).id@ == id@;
            let r = follows(v, request, Event::Found(Some(f)));
            &&& f.is_dir ==> r == (v, Step::Conclude(Outcome::Refused(Refusal::NotAFile)))
            &&& !f.is_dir && !f.online_only ==> r == (
                v,
                Step::Conclude(Outcome::Refused(Refusal::DownloadRequiresOnlineOnlyFile)),
            )
            &&& !f.is_dir && f.online_only && (running || waiting) ==> r == (
                v,
                Step::Conclude(Outcome::Refused(Refusal::AlreadyQueued)),
            )
            &&& !f.is_dir && f.online_only && !running && !waiting ==> r == (
                EngineView {
                    queue: v.queue.push(Job { id, upload: false }),
                    revision: (v.revision + 1) as u64,
                    ..v
                },
                Step::Conclude(Outcome::Accepted),
            )
        }),
{
}

/// A file that is known is released, and whether that was done is told; a file that
/// was imported is put at the end of the queue, as an upload.
pub proof fn lemma_release_and_import(
    v: EngineView,
    request: Request,
    id: String,
    f: Found,
    done: bool,
)
    requires
        v.revision < u64::MAX,
    ensures
        request.command == (Command::Release { id }) ==> {
            &&& follows(v, request, Event::Found(None)) == (
                v,
                Step::Conclude(Outcome::Refused(Refusal::UnknownItem)),
            )
            &&& follows(v, request, Event::Found(Some(f))) == (v, Step::Release(id))
            &&& follows(v, request, Event::Released(true)) == (
                EngineView { revision: (v.revision + 1) as u64, ..v },
                Step::Conclude(Outcome::Accepted),
            )
            &&& follows(v, request, Event::Released(false)) == (
                v,
                Step::Conclude(Outcome::Refused(Refusal::ReleaseRefused)),
            )
        },
        request.command is MockImport ==> follows(v, request, Event::Imported(id)) == (
            EngineView {
                queue: v.queue.push(Job { id, upload: true }),
                revision: (v.revision + 1) as u64,
                ..v
            },
            Step::Conclude(Outcome::Accepted),
        ),
{
}

/// What fails outside is told in its own words and changes nothing.
pub proof fn lemma_failure_is_told(
    v: EngineView,
    request: Request,
    e: String,
    list: Option<Vec<Listed>>,
)
    ensures
        follows(v, request, Event::Failed(e)) == (v, Step::Conclude(Outcome::Broken(e))),
        concluded(v, request, Outcome::Broken(e), list).error == Some(e@),
        !concluded(v, request, Outcome::Broken(e), list).ok,
{
}

/// A reply is of this protocol, carries the identifier of its request, says that
/// all is well exactly where the request was accepted and names the refusal
/// otherwise, and shows the engine as it is.
pub proof fn lemma_reply_tells_the_outcome(
    v: EngineView,
    request: Request,
    outcome: Outcome,
    list: Option<Vec<Listed>>,
)
    ensures
        ({
            let r = concluded(v, request, outcome, list);
            &&& r.version == 1
            &&& r.id == request.id@
            &&& r.ok <==> outcome is Accepted
            &&& outcome is Accepted ==> r.error is None
            &&& outcome matches Outcome::Refused(e) ==> r.error == Some(refusal_word(e))
            &&& list matches Some(l) ==> r.snapshot == shown(v, l@)
            &&& list is None ==> r.snapshot.status == "error"@ && r.snapshot.mode == "error"@
                && r.snapshot.files.len() == 0 && r.snapshot.revision == v.revision
        }),
{
}

/// Every reason for a refusal is told by a word of its own.
pub proof fn lemma_refusals_are_told_apart(a: Refusal, b: Refusal)
    requires
        refusal_word(a) == refusal_word(b),
    ensures
        a == b,
{
    reveal_strlit("request_id_reused");
    reveal_strlit("unsupported_protocol");
    reveal_strlit("invalid_request_id");
    reveal_strlit("capability_unavailable");
    reveal_strlit("queue_full");
    reveal_strlit("unknown_item");
    reveal_strlit("not_a_file");
    reveal_strlit("download_requires_online_only_file");
    reveal_strlit("already_queued");
    reveal_strlit("file_busy");
    reveal_strlit("release_refused_dirty_pinned_busy_or_online");
    reveal_strlit("invalid_mock_name");
    reveal_strlit("mock_input_limit");
    reveal_strlit("upload_unconfirmed_content_retained");
    reveal_strlit("state mode mismatch; use a new isolated directory");
    reveal_strlit("refusing nonempty unowned state directory");
    let (x, y) = (refusal_word(a), refusal_word(b));
    assert(x.len() == y.len() && x[0] == y[0] && x[1] == y[1] && x[2] == y[2] && x[3] == y[3]);
}

/// The words of the refusals.
pub proof fn lemma_words_of_refusals()
    ensures
        refusal_word(Refusal::RequestIdReused) == "request_id_reused"@,
        refusal_word(Refusal::UnsupportedProtocol) == "unsupported_protocol"@,
        refusal_word(Refusal::InvalidRequestId) == "invalid_request_id"@,
        refusal_word(Refusal::CapabilityUnavailable) == "capability_unavailable"@,
        refusal_word(Refusal::QueueFull) == "queue_full"@,
        refusal_word(Refusal::UnknownItem) == "unknown_item"@,
        refusal_word(Refusal::NotAFile) == "not_a_file"@,
        refusal_word(Refusal::DownloadRequiresOnlineOnlyFile)
            == "download_requires_online_only_file"@,
        refusal_word(Refusal::AlreadyQueued) == "already_queued"@,
        refusal_word(Refusal::FileBusy) == "file_busy"@,
        refusal_word(Refusal::InvalidMockName) == "invalid_mock_name"@,
        refusal_word(Refusal::MockInputLimit) == "mock_input_limit"@,
{
}

/// A reply to anything but a look is kept as the newest, and what was kept before
/// stays, but for the oldest of more than two hundred and fifty-six. A look leaves
/// everything as it is, and nothing but the replies changes in any case.
pub proof fn lemma_reply_is_kept(v: EngineView, request: Request, reply: ReplyView, i: int)
    ensures
        ({
            let w = remembering(v, request, reply);
            let n = v.replies.len();
            &&& request.command is Snapshot ==> w == v
            &&& !(request.command is Snapshot) ==> {
                &&& w.replies.len() == if n >= 256 {
                    n
                } else {
                    n + 1
                }
                &&& w.replies.last().id == request.id@
                &&& w.replies.last().reply == reply
                &&& n < 256 && 0 <= i < n ==> w.replies[i] == v.replies[i]
                &&& n >= 256 && 0 < i < n ==> w.replies[i - 1] == v.replies[i]
            }
            &&& w.queue == v.queue && w.active == v.active && w.recent == v.recent && w.paused
                == v.paused && w.revision == v.revision && w.mock == v.mock && w.pid == v.pid
        }),
{
}

/// What the engine shows of itself: its version and process, what it is doing, what
/// runs, waits and has ended, and the files, of which it counts all and lists two
/// hundred.
pub proof fn lemma_engine_is_shown(v: EngineView, list: Seq<Listed>)
    requires
        v.queue.len() <= usize::MAX && list.len() <= usize::MAX,
    ensures
        ({
            let s = shown(v, list);
            let files = list.filter(|l: Listed| !l.is_dir).map_values(
                |l: Listed| Item { id: l.id, name: l.name, state: l.state, size: l.size },
            );
            &&& s.engine_version == ENGINE_VERSION@ && s.engine_pid == v.pid && s.revision
                == v.revision
            &&& s.mode == if v.mock {
                "isolated_mock"@
            } else {
                "unconfigured"@
            }
            &&& s.paused == v.paused && s.queued == v.queue.len() && s.active == v.active
                && s.recent == v.recent
            &&& s.file_count == files.len()
            &&& files.len() <= 200 ==> s.files == files
            &&& files.len() > 200 ==> s.files == files.take(200)
            &&& v.paused && v.active is Some ==> s.status == "draining"@
            &&& v.paused && v.active is None ==> s.status == "paused"@
            &&& !v.paused && v.active is Some ==> s.status == "transferring"@
            &&& !v.paused && v.active is None && v.queue.len() > 0 ==> s.status == "queued"@
            &&& !v.paused && v.active is None && v.queue.len() == 0 ==> s.status == if v.mock {
                "mock_idle"@
            } else {
                "signed_out"@
            }
            &&& v.mock ==> s.capabilities == seq![
                "pause"@,
                "download"@,
                "release"@,
                "mock_import"@,
            ]
            &&& !v.mock ==> s.capabilities == seq!["pause"@]
        }),
{
    lemma_files(list);
}

proof fn lemma_files(list: Seq<Listed>)
    ensures
        files_of(list) == list.filter(|l: Listed| !l.is_dir).map_values(
            |l: Listed| Item { id: l.id, name: l.name, state: l.state, size: l.size },
        ),
        files_of(list).len() <= list.len(),
    decreases list.len(),
{
    reveal(Seq::filter);
    let p = |l: Listed| !l.is_dir;
    let f = |l: Listed| Item { id: l.id, name: l.name, state: l.state, size: l.size };
    if list.len() > 0 {
        lemma_files(list.drop_last());
        let rest = list.drop_last().filter(p);
        assert(rest.push(list.last()).map_values(f) =~= rest.map_values(f).push(f(list.last())));
    } else {
        assert(files_of(list) =~= list.filter(p).map_values(f));
    }
}

/// A transfer begins as that of its job, with nothing done yet; one that ends well
/// is complete, and one that fails shows how far it came.
pub proof fn lemma_transfer_begins_and_ends(
    t: Transfer,
    e: Transfer,
    job: Job,
    name: Seq<char>,
    size: u64,
    success: bool,
)
    requires
        beginning(t, job, name, size),
        ending(t, e, success),
    ensures
        t.id@ == job.id@ && t.name@ == name && t.total == size && t.done == 0 && t.outcome@
            == "running"@,
        t.direction@ == if job.upload {
            "upload"@
        } else {
            "download"@
        },
        e.id@ == job.id@ && e.name@ == name && e.total == size && e.direction@ == t.direction@,
        success ==> e.done == size && e.outcome@ == "completed"@,
        !success ==> e.done == 0 && e.outcome@ == "failed"@,
{
}

/// A list that is cut keeps its beginning, and nothing is cut that fits.
pub proof fn lemma_cut_list<A>(s: Seq<A>, n: int)
    requires
        0 <= n,
    ensures
        s.len() <= n ==> at_most(s, n) == s,
        s.len() > n ==> at_most(s, n).len() == n && at_most(s, n) == s.take(n),
{
}

/// A frame is its length in four bytes, the least first, and then its bytes; and
/// it is read as it was written. One that is empty or beyond a mebibyte is
/// refused.
pub proof fn lemma_frames(n: u32, input: Seq<u8>)
    ensures
        length_bytes(n).len() == 4,
        length_of(length_bytes(n)) == n,
        length_bytes(n)[0] == n % 256,
        frame_length(n as int) <==> 0 < n <= 1048576,
        input.len() < 4 ==> frame_in(input) == Err::<Seq<u8>, FrameError>(FrameError::Truncated),
        input.len() >= 4 ==> ({
            let len = input[0] + 256 * input[1] + 65536 * input[2] + 16777216 * input[3];
            &&& len == 0 || len > 1048576 ==> frame_in(input) == Err::<Seq<u8>, FrameError>(
                FrameError::InvalidLength,
            )
            &&& 0 < len <= 1048576 && input.len() < 4 + len ==> frame_in(input) == Err::<
                Seq<u8>,
                FrameError,
            >(FrameError::Truncated)
            &&& 0 < len <= 1048576 && input.len() >= 4 + len ==> frame_in(input) == Ok::<
                Seq<u8>,
                FrameError,
            >(input.subrange(4, 4 + len))
        }),
{
}

/// A directory is marked by the mode of its engine, and one that is not marked may
/// hold nothing but locks.
pub proof fn lemma_marks(entries: Seq<String>)
    ensures
        mode_word(true) == "isolated_mock_v1"@,
        mode_word(false) == "unconfigured_v1"@,
        only_locks(entries) <==> forall|i: int|
            0 <= i < entries.len() ==> (#[trigger] entries[i])@ == "engine.lock"@ || entries[i]@
                == "tray.lock"@,
{
}

/// What the arguments ask for: the version; or, with an absolute directory of
/// state, to serve, perhaps isolated, or to carry requests. Anything else is told
/// to be wrong.
pub proof fn lemma_arguments(args: Seq<String>, absolute: bool)
    ensures
        args.len() > 0 && args[0]@ == "--version"@ ==> launch_of(args, absolute) == Ok::<
            Launch,
            Usage,
        >(Launch::Version),
        args.len() < 3 && !(args.len() > 0 && args[0]@ == "--version"@) ==> launch_of(
            args,
            absolute,
        ) == Err::<Launch, Usage>(Usage::Form),
        args.len() >= 3 && args[0]@ != "--version"@ && args[1]@ != "--state"@ ==> launch_of(
            args,
            absolute,
        ) == Err::<Launch, Usage>(Usage::Form),
        args.len() >= 3 && args[0]@ != "--version"@ && args[1]@ == "--state"@ ==> ({
            let r = launch_of(args, absolute);
            let mock = args.len() == 4 && args[3]@ == "--mock"@;
            &&& !absolute ==> r == Err::<Launch, Usage>(Usage::AbsoluteDirectory)
            &&& absolute && args[0]@ == "serve"@ && args.len() == 3 ==> r == Ok::<Launch, Usage>(
                Launch::Serve { mock: false },
            )
            &&& absolute && args[0]@ == "serve"@ && mock ==> r == Ok::<Launch, Usage>(
                Launch::Serve { mock: true },
            )
            &&& absolute && args[0]@ == "serve"@ && args.len() > 3 && !mock ==> r == Err::<
                Launch,
                Usage,
            >(Usage::UnknownOption)
            &&& absolute && args[0]@ == "ipc"@ && args[0]@ != "serve"@ && args.len() == 3 ==> r
                == Ok::<Launch, Usage>(Launch::Ipc)
            &&& absolute && args[0]@ == "ipc"@ && args[0]@ != "serve"@ && args.len() > 3 ==> r
                == Err::<Launch, Usage>(Usage::UnknownOption)
            &&& absolute && args[0]@ != "serve"@ && args[0]@ != "ipc"@ ==> r == Err::<
                Launch,
                Usage,
            >(Usage::UnknownCommand)
        }),
{
}

/// The options of the tray are given anywhere behind the directory, and there are
/// two of them.
pub proof fn lemma_tray_options(args: Seq<String>, option: Seq<char>, i: int)
    ensures
        0 <= i < args.len() && args[i]@ == option ==> given(args, option),
        given(args, option) ==> exists|j: int| 0 <= j < args.len() && (#[trigger] args[j])@
            == option,
        only_options(args) && 2 <= i < args.len() ==> args[i]@ == "--full"@ || args[i]@
            == "--mock"@,
        (forall|j: int|
            2 <= j < args.len() ==> (#[trigger] args[j])@ == "--full"@ || args[j]@ == "--mock"@)
            ==> only_options(args),
{
    if given(args, option) {
        let j = choose|j: int| 0 <= j < args.len() && #[trigger] args[j]@ == option;
        assert(args[j]@ == option);
    }
}

} // verus!
