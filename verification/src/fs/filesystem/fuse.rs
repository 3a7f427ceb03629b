//! What is to be done about each request of the system.

use super::reads::SyncTarget;
use super::writes::sync_cached_record;
use super::{lemma_handles_after, record_at, Errno, FsError, FsView, TwoDriveFs};
use crate::fs::inodes::{listing, live, replaced, sized, ROOT_INO};
use crate::fs::probes::{O_ACCMODE, O_RDONLY, O_TRUNC};
use crate::fs::record::{cached, has_existing_cache, FileRecord};
use vstd::prelude::*;

verus! {

/// What is to be done about a file that is to be opened.
pub enum Opening {
    /// It is to be opened for writing, and emptied or not.
    Write { truncate: bool },
    /// Its content is in the cache, at a path.
    Cached(String),
    /// Its content is to be brought when it is read.
    Deferred,
    Refused(Errno),
}

/// What is to be done about a file that is to be opened: it is known already,
/// or is to be brought, which is not done for a reader that makes thumbnails or
/// indexes files, nor for one that only wants to know what the file is.
pub open spec fn opening(
    f: FileRecord,
    exists: bool,
    flags: i32,
    indexer: bool,
    probe: bool,
) -> Opening {
    if flags & O_ACCMODE != O_RDONLY {
        Opening::Write { truncate: flags & O_TRUNC != 0 }
    } else if cached(f, exists) {
        Opening::Cached(f.cache_path->0)
    } else if indexer || probe {
        Opening::Refused(Errno::NoData)
    } else {
        Opening::Deferred
    }
}

/// What is to be done about a file that is to be opened. `record` is what is
/// known of it now, `exists` whether its cache file does, `indexer` whether
/// the reader makes thumbnails or indexes files, and `probe` whether it only
/// wants to know what the file is.
pub fn open_refreshed(
    record: &FileRecord,
    exists: bool,
    flags: i32,
    indexer: bool,
    probe: bool,
) -> (r: Opening)
    ensures
        r == opening(*record, exists, flags, indexer, probe),
{
    if flags & O_ACCMODE != O_RDONLY {
        return Opening::Write { truncate: flags & O_TRUNC != 0 };
    }
    let here = has_existing_cache(record, exists);
    if !here && (indexer || probe) {
        return Opening::Refused(Errno::NoData);
    }
    if !here {
        return Opening::Deferred;
    }
    match &record.cache_path {
        Some(p) => Opening::Cached(p.clone()),
        None => Opening::Deferred,
    }
}

/// Where what is to be read comes from.
pub enum Reading {
    Refused(Errno),
    /// A file that is open, whose content is to be brought, of a generation.
    Deferred { record: FileRecord, generation: i64 },
    /// A file that is open, with its content at a path.
    Open(String),
    /// An item that is not open.
    Item(FileRecord),
}

/// What a record allows to read.
#[derive(Clone, Copy, PartialEq, Eq, Structural, Debug)]
pub enum ReadKind {
    Refused(Errno),
    /// The content is to be brought first, if it is not in the cache.
    Content,
}

/// Whether the content of an item may be read, and brought for it. A descriptor
/// can come into the hands of a reader for whom nothing is brought.
pub fn read_allowed(record: &FileRecord, exists: bool, indexer: bool) -> (r: ReadKind)
    ensures
        r == if !cached(*record, exists) && indexer {
            ReadKind::Refused(Errno::NoData)
        } else {
            ReadKind::Content
        },
{
    if !has_existing_cache(record, exists) && indexer {
        ReadKind::Refused(Errno::NoData)
    } else {
        ReadKind::Content
    }
}

/// What is to be made safe.
pub enum Safe {
    Nothing,
    File(String),
    Failed(FsError),
}

/// What is to be done about a file that is being closed.
pub enum Release {
    /// It was open for reading.
    Read,
    /// It was open for writing, and its content is to be dealt with; the cache
    /// file at the path, if there is one, is to be removed if nothing uses it.
    Write(Option<String>),
}

impl TwoDriveFs {
    /// What is known of a file that is to be opened; it is to be looked up
    /// again.
    pub fn open(&self, ino: u64) -> (r: Result<FileRecord, Errno>)
        ensures
            r == match record_at(self@, ino) {
                None => Err(Errno::NoEntry),
                Some(f) => if f.metadata.is_dir {
                    Err(Errno::IsDirectory)
                } else {
                    Ok(f)
                },
            },
    {
        match self.record_for_ino(ino) {
            None => Err(Errno::NoEntry),
            Some(f) => if f.metadata.is_dir {
                Err(Errno::IsDirectory)
            } else {
                Ok(f)
            },
        }
    }

    /// Where what is to be read comes from.
    pub fn read(&self, ino: u64, fh: u64, offset: i64) -> (r: Reading)
        ensures
            r == if offset < 0 {
                Reading::Refused(Errno::Invalid)
            } else if self@.reads.contains_key(fh) && self@.reads[fh].deferred is Some {
                Reading::Deferred {
                    record: self@.reads[fh].deferred->0,
                    generation: self@.reads[fh].generation,
                }
            } else if self@.reads.contains_key(fh) {
                Reading::Open(self@.reads[fh].cache_path)
            } else if self@.writes.contains_key(fh) {
                Reading::Open(self@.writes[fh].cache_path)
            } else {
                match record_at(self@, ino) {
                    None => Reading::Refused(Errno::NoEntry),
                    Some(f) => if f.metadata.is_dir {
                        Reading::Refused(Errno::IsDirectory)
                    } else {
                        Reading::Item(f)
                    },
                }
            },
    {
        if offset < 0 {
            return Reading::Refused(Errno::Invalid);
        }
        match self.reads.get(fh) {
            Some(h) => {
                return match &h.deferred {
                    Some(f) => Reading::Deferred { record: f.clone(), generation: h.generation },
                    None => Reading::Open(h.cache_path.clone()),
                };
            },
            None => {},
        }
        match self.writes.get(fh) {
            Some(h) => return Reading::Open(h.cache_path.clone()),
            None => {},
        }
        match self.record_for_ino(ino) {
            None => Reading::Refused(Errno::NoEntry),
            Some(f) => if f.metadata.is_dir {
                Reading::Refused(Errno::IsDirectory)
            } else {
                Reading::Item(f)
            },
        }
    }

    /// Where something is to be written.
    pub fn write(&self, fh: u64, offset: i64) -> (r: Result<String, Errno>)
        ensures
            r == if offset < 0 {
                Err(Errno::Invalid)
            } else if self@.writes.contains_key(fh) {
                Ok(self@.writes[fh].cache_path)
            } else {
                Err(Errno::BadHandle)
            },
    {
        if offset < 0 {
            return Err(Errno::Invalid);
        }
        match self.writes.get(fh) {
            Some(h) => Ok(h.cache_path.clone()),
            None => Err(Errno::BadHandle),
        }
    }

    /// Something was written: the item is at least so large.
    pub fn written(&mut self, fh: u64, offset: i64, len: u64)
        requires
            old(self).wf(),
            offset >= 0,
            offset + len <= u64::MAX,
        ensures
            final(self).wf(),
            final(self)@ == if old(self)@.writes.contains_key(fh) {
                let ino = old(self)@.writes[fh].ino;
                let end = (offset + len) as u64;
                if old(self)@.inodes.records.contains_key(ino)
                    && old(self)@.inodes.records[ino].metadata.size < end {
                    (FsView { inodes: sized(old(self)@.inodes, ino, end), ..old(self)@ })
                } else {
                    old(self)@
                }
            } else {
                old(self)@
            },
    {
        let ino: u64 = match self.writes.get(fh) {
            Some(h) => h.ino,
            None => return,
        };
        self.inodes.set_size(ino, offset as u64 + len);
        proof {
            lemma_handles_after(old(self)@, self@);
        }
    }

    /// What is to be made safe; `record` is what is known now of the item with
    /// the number, for which it counts where nothing is open.
    pub fn fsync(&self, fh: u64, record: &Option<FileRecord>) -> (r: Safe)
        ensures
            r == if self@.writes.contains_key(fh) {
                Safe::File(self@.writes[fh].cache_path)
            } else if self@.reads.contains_key(fh) {
                if self@.reads[fh].deferred is Some {
                    Safe::Nothing
                } else {
                    Safe::File(self@.reads[fh].cache_path)
                }
            } else {
                match *record {
                    None => Safe::Failed(FsError::RecordMissing),
                    Some(f) => match f.cache_path {
                        None => Safe::Failed(FsError::NoCache),
                        Some(p) => Safe::File(p),
                    },
                }
            },
    {
        match self.sync_handle(fh) {
            Ok(p) => return Safe::File(p),
            Err(_) => {},
        }
        match self.sync_read_handle(fh) {
            Ok(SyncTarget::Nothing) => return Safe::Nothing,
            Ok(SyncTarget::File(p)) => return Safe::File(p),
            Err(_) => {},
        }
        match sync_cached_record(record) {
            Ok(p) => Safe::File(p),
            Err(e) => Safe::Failed(e),
        }
    }

    /// How a file is to be closed.
    pub fn release(&self, fh: u64) -> (r: Release)
        ensures
            r == if self@.reads.contains_key(fh) {
                Release::Read
            } else if self@.writes.contains_key(fh) && self@.writes[fh].unlinked {
                Release::Write(Some(self@.writes[fh].cache_path))
            } else {
                Release::Write(None)
            },
    {
        if self.reads.contains(fh) {
            return Release::Read;
        }
        match self.writes.get(fh) {
            Some(h) => if h.unlinked {
                Release::Write(Some(h.cache_path.clone()))
            } else {
                Release::Write(None)
            },
            None => Release::Write(None),
        }
    }

    /// The item whose permissions are to be changed.
    pub fn chmod_target(&self, ino: u64) -> (r: Result<FileRecord, Errno>)
        ensures
            r == match record_at(self@, ino) {
                Some(f) => Ok(f),
                None => if ino == ROOT_INO {
                    Err(Errno::NotSupported)
                } else {
                    Err(Errno::NoEntry)
                },
            },
    {
        match self.record_for_ino(ino) {
            Some(f) => Ok(f),
            None => if ino == ROOT_INO {
                Err(Errno::NotSupported)
            } else {
                Err(Errno::NoEntry)
            },
        }
    }

    /// The permissions of an item were recorded.
    pub fn chmod(&mut self, ino: u64, record: FileRecord, mode: u32)
        requires
            old(self).wf(),
            ino < old(self)@.inodes.next_ino,
        ensures
            final(self).wf(),
            final(self)@ == (FsView {
                inodes: replaced(
                    old(self)@.inodes,
                    ino,
                    FileRecord { local_mode: Some((mode & 0o777) as u16), ..record },
                ),
                ..old(self)@
            }),
    {
        let mut record = record;
        record.local_mode = Some((mode & 0o777) as u16);
        self.inodes.replace_ino_record(ino, record);
        proof {
            lemma_handles_after(old(self)@, self@);
        }
    }

    /// The cache file whose size is to be changed, where the file is open for
    /// writing.
    pub fn resize_target(&self, fh: Option<u64>) -> (r: Option<String>)
        ensures
            r == match fh {
                Some(fh) => if self@.writes.contains_key(fh) {
                    Some(self@.writes[fh].cache_path)
                } else {
                    None
                },
                None => None,
            },
    {
        match fh {
            Some(fh) => match self.writes.get(fh) {
                Some(h) => Some(h.cache_path.clone()),
                None => None,
            },
            None => None,
        }
    }

    /// The size of an item was changed.
    pub fn resized(&mut self, ino: u64, size: u64)
        requires
            old(self).wf(),
        ensures
            final(self).wf(),
            final(self)@ == (FsView {
                inodes: sized(old(self)@.inodes, ino, size),
                ..old(self)@
            }),
    {
        self.inodes.replace_size(ino, size);
        proof {
            lemma_handles_after(old(self)@, self@);
        }
    }

    /// The item whose name is to be removed, with its number.
    pub fn unlink(&self, path: &str) -> (r: Result<(u64, FileRecord), Errno>)
        ensures
            r == named_item(self@, path@),
    {
        match self.inodes.ino_for_path(path) {
            None => Err(Errno::NoEntry),
            Some(ino) => match self.record_for_ino(ino) {
                None => Err(Errno::NoEntry),
                Some(f) => Ok((ino, f)),
            },
        }
    }

    /// Whether a directory may be removed; `record` is what is known of it now.
    pub fn rmdir(&self, ino: u64, record: &FileRecord) -> (r: Result<(), Errno>)
        ensures
            r == if !record.metadata.is_dir {
                Err(Errno::NotDirectory)
            } else if live(self@.inodes, listing(self@.inodes.children, ino)).len() > 0 {
                Err(Errno::NotEmpty)
            } else {
                Ok(())
            },
    {
        if !record.metadata.is_dir {
            return Err(Errno::NotDirectory);
        }
        if !self.inodes.is_empty(ino) {
            return Err(Errno::NotEmpty);
        }
        Ok(())
    }
}

/// The item that a path stands for.
pub open spec fn named_item(v: FsView, path: Seq<char>) -> Result<(u64, FileRecord), Errno> {
    if !v.inodes.inos.contains_key(path) {
        Err(Errno::NoEntry)
    } else {
        match record_at(v, v.inodes.inos[path]) {
            None => Err(Errno::NoEntry),
            Some(f) => Ok((v.inodes.inos[path], f)),
        }
    }
}

/// The permissions of an item that is made: those that are asked for, without
/// those that the maker leaves out.
pub fn created_mode(mode: u32, umask: u32) -> (r: u32)
    ensures
        r == mode & !umask,
{
    mode & !umask
}

/// Whether a file may be removed; `record` is what is known of it now.
pub fn unlink_allowed(record: &FileRecord) -> (r: Result<(), Errno>)
    ensures
        r == if record.metadata.is_dir {
            Err(Errno::IsDirectory)
        } else {
            Ok(())
        },
{
    if record.metadata.is_dir {
        Err(Errno::IsDirectory)
    } else {
        Ok(())
    }
}

/// A reader that makes thumbnails or indexes files, or only wants to know what
/// a file is, never causes content to be brought.
pub proof fn lemma_probes_bring_nothing(
    record: FileRecord,
    exists: bool,
    flags: i32,
    indexer: bool,
    probe: bool,
)
    requires
        indexer || probe,
        flags & O_ACCMODE == O_RDONLY,
    ensures
        opening(record, exists, flags, indexer, probe) != Opening::Deferred,
        !cached(record, exists) ==> opening(record, exists, flags, indexer, probe)
            == Opening::Refused(Errno::NoData),
{
}

} // verus!
