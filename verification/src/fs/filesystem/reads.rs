//! Files that are open for reading.

use super::{lemma_handles_after, FsError, FsView, ReadHandle, TwoDriveFs, WriteHandle};
use crate::fs::inodes::{attr_for_record, attr_of, FileAttr};
use crate::fs::record::FileRecord;
use crate::text::same_text;
use vstd::prelude::*;

verus! {

/// Some open file has its content at a path.
pub open spec fn uses_cache(v: FsView, path: Seq<char>) -> bool {
    ||| exists|k: u64| #[trigger] v.reads.contains_key(k) && v.reads[k].cache_path@ == path
    ||| exists|k: u64| #[trigger] v.writes.contains_key(k) && v.writes[k].cache_path@ == path
}

/// What is to be done when a file that was open for reading is closed.
pub enum ReadRelease {
    /// Nothing was open under the number.
    Nothing,
    /// The releases that waited are to be made.
    Finish,
    /// The cache file is to be removed first, which nothing else uses.
    Remove(String),
}

/// The content of an open file is to be made safe.
pub enum SyncTarget {
    /// There is none yet.
    Nothing,
    /// The cache file at a path.
    File(String),
}

impl TwoDriveFs {
    fn add_read(&mut self, handle: ReadHandle) -> (fh: u64)
        requires
            old(self).wf(),
            old(self)@.next_fh < u64::MAX,
        ensures
            final(self).wf(),
            fh == old(self)@.next_fh,
            final(self)@ == (FsView {
                reads: old(self)@.reads.insert(fh, handle),
                next_fh: (fh + 1) as u64,
                ..old(self)@
            }),
    {
        let fh: u64 = self.next_fh;
        self.next_fh = fh + 1;
        let _ = self.reads.insert(fh, handle);
        proof {
            lemma_handles_after(old(self)@, self@);
        }
        fh
    }

    /// Opens a file whose content is in the cache, where there is something to
    /// show of it.
    pub fn open_read_handle(&mut self, ino: u64, attr: Option<FileAttr>, cache_path: String) -> (r:
        Result<u64, FsError>)
        requires
            old(self).wf(),
            old(self)@.next_fh < u64::MAX,
        ensures
            final(self).wf(),
            match attr {
                None => r == Err::<u64, FsError>(FsError::InodeDisappeared) && final(self)@ == old(self)@,
                Some(open_attr) => {
                    let fh = old(self)@.next_fh;
                    &&& r == Ok::<u64, FsError>(fh)
                    &&& final(self)@ == (FsView {
                        reads: old(self)@.reads.insert(
                            fh,
                            ReadHandle {
                                open_attr,
                                ino,
                                cache_path,
                                unlinked: false,
                                deferred: None,
                                generation: 0,
                            },
                        ),
                        next_fh: (fh + 1) as u64,
                        ..old(self)@
                    })
                },
            },
    {
        match attr {
            None => Err(FsError::InodeDisappeared),
            Some(open_attr) => Ok(
                self.add_read(
                    ReadHandle {
                        open_attr,
                        ino,
                        cache_path,
                        unlinked: false,
                        deferred: None,
                        generation: 0,
                    },
                ),
            ),
        }
    }

    /// Opens a file whose content is not in the cache: it is brought, at a path
    /// and of a generation, when it is read.
    pub fn open_deferred_handle(
        &mut self,
        ino: u64,
        record: FileRecord,
        cache_path: String,
        generation: i64,
    ) -> (fh: u64)
        requires
            old(self).wf(),
            old(self)@.next_fh < u64::MAX,
        ensures
            final(self).wf(),
            fh == old(self)@.next_fh,
            final(self)@ == (FsView {
                reads: old(self)@.reads.insert(
                    fh,
                    ReadHandle {
                        open_attr: attr_of(ino, record),
                        ino,
                        cache_path,
                        unlinked: false,
                        deferred: Some(record),
                        generation,
                    },
                ),
                next_fh: (fh + 1) as u64,
                ..old(self)@
            }),
    {
        let open_attr = attr_for_record(ino, &record);
        self.add_read(
            ReadHandle {
                open_attr,
                ino,
                cache_path,
                unlinked: false,
                deferred: Some(record),
                generation,
            },
        )
    }

    /// Where the content of an open file is.
    pub fn read_open_handle(&self, fh: u64) -> (r: Result<String, FsError>)
        ensures
            r == if self@.reads.contains_key(fh) {
                Ok(self@.reads[fh].cache_path)
            } else if self@.writes.contains_key(fh) {
                Ok(self@.writes[fh].cache_path)
            } else {
                Err(FsError::NoHandle)
            },
    {
        match self.reads.get(fh) {
            Some(h) => Ok(h.cache_path.clone()),
            None => match self.writes.get(fh) {
                Some(h) => Ok(h.cache_path.clone()),
                None => Err(FsError::NoHandle),
            },
        }
    }

    /// What is to be made safe of a file that is open for reading.
    pub fn sync_read_handle(&self, fh: u64) -> (r: Result<SyncTarget, FsError>)
        ensures
            r == if !self@.reads.contains_key(fh) {
                Err(FsError::NoHandle)
            } else if self@.reads[fh].deferred is Some {
                Ok(SyncTarget::Nothing)
            } else {
                Ok(SyncTarget::File(self@.reads[fh].cache_path))
            },
    {
        match self.reads.get(fh) {
            None => Err(FsError::NoHandle),
            Some(h) => if h.deferred.is_some() {
                Ok(SyncTarget::Nothing)
            } else {
                Ok(SyncTarget::File(h.cache_path.clone()))
            },
        }
    }

    /// Whether the cache file at a path, of an item without a name, is to be
    /// removed: nothing that is open has its content there.
    pub fn cleanup_unlinked_cache(&self, path: &str) -> (r: bool)
        ensures
            r == !uses_cache(self@, path@),
    {
        let ghost p = |h: ReadHandle| h.cache_path@ == path@;
        let reading = |h: &ReadHandle| -> (b: bool)
            ensures
                b == (h.cache_path@ == path@),
            { same_text(h.cache_path.as_str(), path) };
        if self.reads.find(reading, Ghost(p)).is_some() {
            return false;
        }
        let ghost q = |h: WriteHandle| h.cache_path@ == path@;
        let writing = |h: &WriteHandle| -> (b: bool)
            ensures
                b == (h.cache_path@ == path@),
            { same_text(h.cache_path.as_str(), path) };
        self.writes.find(writing, Ghost(q)).is_none()
    }

    /// Closes a file that was open for reading. The content of one that has no
    /// name any more goes with the last that uses it.
    pub fn release_read_handle(&mut self, fh: u64) -> (r: ReadRelease)
        requires
            old(self).wf(),
        ensures
            final(self).wf(),
            final(self)@ == (FsView { reads: old(self)@.reads.remove(fh), ..old(self)@ }),
            r == if !old(self)@.reads.contains_key(fh) {
                ReadRelease::Nothing
            } else {
                let h = old(self)@.reads[fh];
                if h.unlinked && !uses_cache(final(self)@, h.cache_path@) {
                    ReadRelease::Remove(h.cache_path)
                } else {
                    ReadRelease::Finish
                }
            },
    {
        let removed = self.reads.remove(fh);
        proof {
            lemma_handles_after(old(self)@, self@);
        }
        match removed {
            None => ReadRelease::Nothing,
            Some(h) => if h.unlinked && self.cleanup_unlinked_cache(h.cache_path.as_str()) {
                ReadRelease::Remove(h.cache_path)
            } else {
                ReadRelease::Finish
            },
        }
    }
}

/// Closing a file never orders the removal of content that another open file
/// uses.
pub proof fn lemma_release_spares_open_content(v: FsView, fh: u64, other: u64)
    requires
        ({
            ||| other != fh && v.reads.contains_key(other) && v.reads[other].cache_path@
                == v.reads[fh].cache_path@
            ||| v.writes.contains_key(other) && v.writes[other].cache_path@
                == v.reads[fh].cache_path@
        }),
    ensures
        uses_cache(FsView { reads: v.reads.remove(fh), ..v }, v.reads[fh].cache_path@),
{
    let w = FsView { reads: v.reads.remove(fh), ..v };
    if v.writes.contains_key(other) && v.writes[other].cache_path@ == v.reads[fh].cache_path@ {
        assert(w.writes.contains_key(other));
    } else {
        assert(w.reads.contains_key(other));
    }
}

} // verus!
