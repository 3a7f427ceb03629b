//! The words and choices of the tray, and the arguments of the programs.

use super::protocol::{Command, Snapshot};
use crate::text::{joined, same_text};
use vstd::prelude::*;

verus! {

/// What the tray says of the engine.
pub fn tooltip(status: &Option<Snapshot>) -> (r: String)
    ensures
        r@ == match *status {
            None => "TwoDrive Preview - backend disconnected"@,
            Some(s) => "TwoDrive Preview - "@ + s.mode@ + " / "@ + s.status@,
        },
{
    match status {
        None => "TwoDrive Preview - backend disconnected".to_owned(),
        Some(s) => {
            let head = joined("TwoDrive Preview - ", s.mode.as_str());
            let head = joined(head.as_str(), " / ");
            joined(head.as_str(), s.status.as_str())
        },
    }
}

/// The entries of the tray's menu.
pub struct Menu {
    /// The management center can be opened.
    pub center: bool,
    /// The engine can be paused or resumed.
    pub connected: bool,
    /// The word for pausing or resuming.
    pub pause: &'static str,
}

/// The menu for what is known of the engine.
pub fn menu(full: bool, status: &Option<Snapshot>) -> (r: Menu)
    ensures
        r.center == full,
        r.connected == (*status is Some),
        r.pause@ == if *status is Some && status->0.paused {
            "Resume"@
        } else {
            "Pause new transfers"@
        },
{
    let paused = match status {
        Some(s) => s.paused,
        None => false,
    };
    let pause = if paused {
        "Resume"
    } else {
        "Pause new transfers"
    };
    Menu { center: full, connected: status.is_some(), pause }
}

/// What the tray does about a choice from its menu.
pub enum Choice {
    OpenCenter,
    Ask(Command),
    Close,
    Nothing,
}

/// What is to be done about the entry that was chosen.
pub fn chosen(entry: i32, status: &Option<Snapshot>) -> (r: Choice)
    ensures
        r == match entry {
            1 => Choice::OpenCenter,
            2 => Choice::Ask(
                Command::SetPaused { paused: !(*status is Some && status->0.paused) },
            ),
            3 => Choice::Close,
            _ => Choice::Nothing,
        },
{
    let paused = match status {
        Some(s) => s.paused,
        None => false,
    };
    if entry == 1 {
        Choice::OpenCenter
    } else if entry == 2 {
        Choice::Ask(Command::SetPaused { paused: !paused })
    } else if entry == 3 {
        Choice::Close
    } else {
        Choice::Nothing
    }
}

/// What is wrong with the arguments of a program.
#[derive(Clone, Copy, PartialEq, Eq, Structural, Debug)]
pub enum Usage {
    Form,
    UnknownOption,
    UnknownCommand,
    AbsoluteDirectory,
}

/// What the engine's program is to do.
#[derive(Clone, Copy, PartialEq, Eq, Structural, Debug)]
pub enum Launch {
    Version,
    Serve { mock: bool },
    Ipc,
}

/// What the arguments of the engine's program ask for. `absolute` says whether
/// the third argument is an absolute path.
pub open spec fn launch_of(args: Seq<String>, absolute: bool) -> Result<Launch, Usage> {
    if args.len() > 0 && args[0]@ == "--version"@ {
        Ok(Launch::Version)
    } else if !(args.len() >= 3 && args[1]@ == "--state"@) {
        Err(Usage::Form)
    } else if !absolute {
        Err(Usage::AbsoluteDirectory)
    } else if args[0]@ == "serve"@ {
        if args.len() == 3 {
            Ok(Launch::Serve { mock: false })
        } else if args.len() == 4 && args[3]@ == "--mock"@ {
            Ok(Launch::Serve { mock: true })
        } else {
            Err(Usage::UnknownOption)
        }
    } else if args[0]@ == "ipc"@ {
        if args.len() == 3 {
            Ok(Launch::Ipc)
        } else {
            Err(Usage::UnknownOption)
        }
    } else {
        Err(Usage::UnknownCommand)
    }
}

/// What the arguments of the engine's program ask for.
pub fn launch(args: &Vec<String>, absolute: bool) -> (r: Result<Launch, Usage>)
    ensures
        r == launch_of(args@, absolute),
{
    if args.len() > 0 && same_text(args[0].as_str(), "--version") {
        return Ok(Launch::Version);
    }
    if !(args.len() >= 3 && same_text(args[1].as_str(), "--state")) {
        return Err(Usage::Form);
    }
    if !absolute {
        return Err(Usage::AbsoluteDirectory);
    }
    if same_text(args[0].as_str(), "serve") {
        if args.len() == 3 {
            Ok(Launch::Serve { mock: false })
        } else if args.len() == 4 && same_text(args[3].as_str(), "--mock") {
            Ok(Launch::Serve { mock: true })
        } else {
            Err(Usage::UnknownOption)
        }
    } else if same_text(args[0].as_str(), "ipc") {
        if args.len() == 3 {
            Ok(Launch::Ipc)
        } else {
            Err(Usage::UnknownOption)
        }
    } else {
        Err(Usage::UnknownCommand)
    }
}

/// An option of the tray's program is among its arguments.
pub open spec fn given(args: Seq<String>, option: Seq<char>) -> bool {
    exists|i: int| 0 <= i < args.len() && #[trigger] args[i]@ == option
}

fn is_given(args: &Vec<String>, option: &str) -> (r: bool)
    ensures
        r == given(args@, option@),
{
    let mut i: usize = 0;
    while i < args.len()
        invariant
            i <= args@.len(),
            forall|j: int| 0 <= j < i ==> #[trigger] args@[j]@ != option@,
        decreases args@.len() - i,
    {
        if same_text(args[i].as_str(), option) {
            assert(args@[i as int]@ == option@);
            return true;
        }
        i += 1;
    }
    false
}

/// Every argument behind the directory is an option.
pub open spec fn only_options(args: Seq<String>) -> bool {
    forall|i: int|
        2 <= i < args.len() ==> (#[trigger] args[i])@ == "--full"@ || args[i]@ == "--mock"@
}

/// The options of the tray's program.
#[derive(Clone, Copy, PartialEq, Eq, Structural, Debug)]
pub struct TrayOptions {
    pub full: bool,
    pub mock: bool,
}

/// What the arguments of the tray's program ask for. `absolute` says whether
/// the second argument is an absolute path.
pub fn run(args: &Vec<String>, absolute: bool) -> (r: Result<TrayOptions, Usage>)
    ensures
        r == if !(args@.len() >= 2 && args@[0]@ == "--state"@) {
            Err(Usage::Form)
        } else if !only_options(args@) {
            Err(Usage::UnknownOption)
        } else if !absolute {
            Err(Usage::AbsoluteDirectory)
        } else {
            Ok(TrayOptions { full: given(args@, "--full"@), mock: given(args@, "--mock"@) })
        },
{
    if !(args.len() >= 2 && same_text(args[0].as_str(), "--state")) {
        return Err(Usage::Form);
    }
    let mut i: usize = 2;
    while i < args.len()
        invariant
            2 <= i <= args@.len(),
            args@[0]@ == "--state"@,
            forall|j: int|
                2 <= j < i ==> (#[trigger] args@[j])@ == "--full"@ || args@[j]@ == "--mock"@,
        decreases args@.len() - i,
    {
        if !(same_text(args[i].as_str(), "--full") || same_text(args[i].as_str(), "--mock")) {
            assert(!(args@[i as int]@ == "--full"@));
            return Err(Usage::UnknownOption);
        }
        i += 1;
    }
    if !absolute {
        return Err(Usage::AbsoluteDirectory);
    }
    Ok(TrayOptions { full: is_given(args, "--full"), mock: is_given(args, "--mock") })
}

} // verus!
