//! Taking over what the cloud says of its items.

use super::record::{FileRecord, FileState};
use vstd::prelude::*;

verus! {

/// A record has local changes that a deletion in the cloud must not undo.
pub open spec fn protects(record: FileRecord, pending: bool) -> bool {
    record.state == FileState::Writing || record.state == FileState::Dirty || record.state
        == FileState::Uploading || pending
}

/// Whether an item that the cloud has deleted is to be forgotten here too: it
/// is known, and there are no local changes of its content, name or place.
/// `pending` says whether a change of its name or place waits.
pub fn sync_delta_metadata(record: &Option<FileRecord>, pending: bool) -> (r: bool)
    ensures
        r == (*record matches Some(f) && !protects(f, pending)),
{
    match record {
        None => false,
        Some(f) => !(f.state == FileState::Writing || f.state == FileState::Dirty || f.state
            == FileState::Uploading || pending),
    }
}

} // verus!
