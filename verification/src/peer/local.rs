//! What the peer's local directory may hold and how it is used.

use super::PeerError;
use crate::text::{joined, same_text};
use vstd::prelude::*;

verus! {

/// Whether an input of some length is within its limit.
pub fn read(len: u64, max: usize) -> (r: Result<(), PeerError>)
    ensures
        r == if len <= max {
            Ok(())
        } else {
            Err(PeerError::TooLarge)
        },
{
    if len <= max as u64 {
        Ok(())
    } else {
        Err(PeerError::TooLarge)
    }
}

/// The parent directory of the peer's directory: on Windows that of local
/// application data, elsewhere that of user data, which lies in the home
/// directory unless it is set. The result is a directory and what to append.
pub fn default_home(
    windows: bool,
    local_app_data: Option<String>,
    xdg_data_home: Option<String>,
    home: Option<String>,
) -> (r: Result<(String, &'static str), PeerError>)
    ensures
        r == match (windows, local_app_data, xdg_data_home, home) {
            (true, Some(d), _, _) => Ok((d, "twodrive-peer-lab")),
            (true, None, _, _) => Err(PeerError::NoHome),
            (false, _, Some(d), _) => Ok((d, "twodrive-peer-lab")),
            (false, _, None, Some(d)) => Ok((d, ".local/share/twodrive-peer-lab")),
            (false, _, None, None) => Err(PeerError::NoHome),
        },
{
    if windows {
        match local_app_data {
            Some(d) => Ok((d, "twodrive-peer-lab")),
            None => Err(PeerError::NoHome),
        }
    } else {
        match (xdg_data_home, home) {
            (Some(d), _) => Ok((d, "twodrive-peer-lab")),
            (None, Some(d)) => Ok((d, ".local/share/twodrive-peer-lab")),
            (None, None) => Err(PeerError::NoHome),
        }
    }
}

/// What is found at the place of the peer's directory.
pub struct Found {
    pub database: bool,
    pub config: bool,
    pub exists: bool,
    pub empty: bool,
    pub marker: Option<String>,
}

/// Why a directory cannot serve as the peer's, if it cannot: it holds the data
/// or settings of the file system, is neither empty nor marked, or has a wrong
/// marker.
pub open spec fn preparation(found: Found) -> Result<(), PeerError> {
    if found.database || found.config {
        Err(PeerError::ForeignState)
    } else if found.exists && found.marker is None && !found.empty {
        Err(PeerError::OccupiedState)
    } else if found.marker is Some && found.marker->0@ != "TwoDrive Peer state v1\n"@ {
        Err(PeerError::StateMarker)
    } else {
        Ok(())
    }
}

/// Whether a directory can serve as the peer's.
pub fn prepare(found: &Found) -> (r: Result<(), PeerError>)
    ensures
        r == preparation(*found),
{
    if found.database || found.config {
        return Err(PeerError::ForeignState);
    }
    match &found.marker {
        None => if found.exists && !found.empty {
            Err(PeerError::OccupiedState)
        } else {
            Ok(())
        },
        Some(m) => if same_text(m.as_str(), "TwoDrive Peer state v1\n") {
            Ok(())
        } else {
            Err(PeerError::StateMarker)
        },
    }
}

/// A list holds a text.
pub open spec fn listed(list: Seq<String>, text: Seq<char>) -> bool {
    exists|i: int| 0 <= i < list.len() && #[trigger] list[i]@ == text
}

/// Whether a list holds a text.
pub fn is_listed(list: &Vec<String>, text: &str) -> (r: bool)
    ensures
        r == listed(list@, text@),
{
    let mut i: usize = 0;
    while i < list.len()
        invariant
            i <= list@.len(),
            forall|j: int| 0 <= j < i ==> #[trigger] list@[j]@ != text@,
        decreases list@.len() - i,
    {
        if same_text(list[i].as_str(), text) {
            assert(list@[i as int]@ == text@);
            return true;
        }
        i += 1;
    }
    false
}

/// Adds a directory to the selected ones, unless it is among them.
pub fn select_root(roots: &mut Vec<String>, root: String, directory: bool) -> (r: Result<
    (),
    PeerError,
>)
    ensures
        !directory ==> r == Err::<(), PeerError>(PeerError::NotDirectory) && final(roots)@ == old(
            roots,
        )@,
        directory ==> r is Ok && final(roots)@ == if listed(old(roots)@, root@) {
            old(roots)@
        } else {
            old(roots)@.push(root)
        },
{
    if !directory {
        return Err(PeerError::NotDirectory);
    }
    if !is_listed(roots, root.as_str()) {
        roots.push(root);
    }
    Ok(())
}

/// The permissions to ask for: those that are configured and the one for the
/// application's own folder. The result says whether anything was added.
pub fn with_app_folder(scopes: &mut Vec<String>) -> (r: bool)
    ensures
        r == !listed(old(scopes)@, "Files.ReadWrite.AppFolder"@),
        !r ==> final(scopes)@ == old(scopes)@,
        r ==> {
            &&& final(scopes)@.len() == old(scopes)@.len() + 1
            &&& final(scopes)@.drop_last() == old(scopes)@
            &&& final(scopes)@.last()@ == "Files.ReadWrite.AppFolder"@
        },
{
    if is_listed(scopes, "Files.ReadWrite.AppFolder") {
        false
    } else {
        scopes.push("Files.ReadWrite.AppFolder".to_owned());
        assert(scopes@.drop_last() =~= old(scopes)@);
        true
    }
}

/// The name of the file that keeps what is stored under an identifier.
pub fn json_name(id: &str) -> (r: String)
    ensures
        r@ == id@ + ".json"@,
{
    joined(id, ".json")
}

} // verus!
