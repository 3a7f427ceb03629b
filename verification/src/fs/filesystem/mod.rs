//! The file system: the numbers of items, what is open, and what is to be done
//! about what the system asks for.

pub mod fuse;
pub mod mutations;
pub mod reads;
pub mod writes;

use super::inodes::{
    attr_for_record, attr_of, inserted, live, listing, number_of, root_attr,
    sorted_children, FileAttr, InodeTable, InodeView, ROOT_INO,
};
use super::record::FileRecord;
use crate::table::Table;
use vstd::prelude::*;

verus! {

/// What the system is told instead of an answer.
#[derive(Clone, Copy, PartialEq, Eq, Structural, Debug)]
pub enum Errno {
    /// There is no such item.
    NoEntry,
    /// The request makes no sense.
    Invalid,
    /// The item is a directory.
    IsDirectory,
    /// The item is no directory.
    NotDirectory,
    /// The directory is not empty.
    NotEmpty,
    /// That cannot be done.
    NotSupported,
    /// Nothing is open under the number.
    BadHandle,
    /// The content is not here and is not brought for this reader.
    NoData,
    /// It was given up.
    Canceled,
    /// It failed.
    Io,
}

/// Why an operation fails.
#[derive(Clone, Copy, PartialEq, Eq, Structural, Debug)]
pub enum FsError {
    ParentMissing,
    ParentNotDirectory,
    BadName,
    AlreadyExists,
    SourceParentMissing,
    TargetParentMissing,
    SourceMissing,
    SourceRecordMissing,
    ReplacesDirectory,
    TargetMissing,
    RecordDisappeared,
    Changing,
    IsDirectory,
    InodeDisappeared,
    CacheReleased,
    RecordMissing,
    NoCache,
    NoHandle,
}

/// A file that is open for reading. A deferred one has no content yet; it is
/// brought when it is read, of the generation that was current at opening.
pub struct ReadHandle {
    pub open_attr: FileAttr,
    pub ino: u64,
    pub cache_path: String,
    pub unlinked: bool,
    pub deferred: Option<FileRecord>,
    pub generation: i64,
}

/// A file that is open for writing.
pub struct WriteHandle {
    pub ino: u64,
    pub path: String,
    pub record_remote_id: String,
    pub cache_path: String,
    pub active: bool,
    pub uploaded: bool,
    pub created_new_record: bool,
    pub unlinked: bool,
    pub base_etag: Option<String>,
}

/// An entry of a directory as it is shown.
#[derive(Debug)]
pub struct DirEntry {
    pub ino: u64,
    pub is_dir: bool,
    pub name: String,
}

/// The state of the file system.
pub struct TwoDriveFs {
    pub inodes: InodeTable,
    pub reads: Table<ReadHandle>,
    pub writes: Table<WriteHandle>,
    pub dirs: Table<Vec<DirEntry>>,
    pub next_fh: u64,
}

/// The model of the file system.
pub struct FsView {
    pub inodes: InodeView,
    pub reads: Map<u64, ReadHandle>,
    pub writes: Map<u64, WriteHandle>,
    pub dirs: Map<u64, Seq<DirEntry>>,
    pub next_fh: u64,
}

impl View for TwoDriveFs {
    type V = FsView;

    open spec fn view(&self) -> FsView {
        FsView {
            inodes: self.inodes@,
            reads: self.reads@,
            writes: self.writes@,
            dirs: self.dirs@.map_values(|v: Vec<DirEntry>| v@),
            next_fh: self.next_fh,
        }
    }
}

/// No number of an open file or directory is yet to be given, nor that of an
/// item that is open for writing.
pub open spec fn handles_sound(v: FsView) -> bool {
    &&& forall|k: u64| #[trigger] v.reads.contains_key(k) ==> k < v.next_fh
    &&& forall|k: u64| #[trigger] v.writes.contains_key(k) ==> k < v.next_fh
    &&& forall|k: u64| #[trigger] v.dirs.contains_key(k) ==> k < v.next_fh
    &&& forall|k: u64| #[trigger]
        v.writes.contains_key(k) ==> v.writes[k].ino < v.inodes.next_ino
}

/// What is known under a number; nothing of the topmost directory.
pub open spec fn record_at(v: FsView, ino: u64) -> Option<FileRecord> {
    if ino != ROOT_INO && v.inodes.records.contains_key(ino) {
        Some(v.inodes.records[ino])
    } else {
        None
    }
}

/// What is shown of a number.
pub enum Shown {
    Attr(FileAttr),
    /// The size and times of the file that is open for writing under a number.
    OpenFile(u64),
    Missing,
}

/// An open file that has no name any more keeps being shown: as it was when it
/// was opened for reading, or as it is where it is open for writing.
pub open spec fn shows(v: FsView, ino: u64, now: u64, r: Shown) -> bool {
    if ino == ROOT_INO {
        r == Shown::Attr(
            FileAttr {
                ino: ROOT_INO,
                size: 0,
                blocks: 0,
                time: now,
                is_dir: true,
                perm: 0o755,
                nlink: 2,
            },
        )
    } else if record_at(v, ino) is Some {
        r == Shown::Attr(attr_of(ino, record_at(v, ino)->0))
    } else {
        match r {
            Shown::Attr(a) => exists|fh: u64| #[trigger]
                v.reads.contains_key(fh) && v.reads[fh].ino == ino && v.reads[fh].unlinked && a == (
                FileAttr { nlink: 0, ..v.reads[fh].open_attr }),
            Shown::OpenFile(fh) => {
                &&& forall|k: u64| #[trigger]
                    v.reads.contains_key(k) ==> !(v.reads[k].ino == ino && v.reads[k].unlinked)
                &&& v.writes.contains_key(fh)
                &&& v.writes[fh].ino == ino
                &&& v.writes[fh].unlinked
            },
            Shown::Missing => {
                &&& forall|k: u64| #[trigger]
                    v.reads.contains_key(k) ==> !(v.reads[k].ino == ino && v.reads[k].unlinked)
                &&& forall|k: u64| #[trigger]
                    v.writes.contains_key(k) ==> !(v.writes[k].ino == ino && v.writes[k].unlinked)
            },
        }
    }
}

/// The entries of a directory as they are shown: itself, the one that holds
/// it, and what is in it.
pub open spec fn entries(
    v: InodeView,
    ino: u64,
    parent: u64,
    sorted: Seq<(u64, FileRecord)>,
    r: Seq<DirEntry>,
) -> bool {
    &&& r.len() == sorted.len() + 2
    &&& r[0].ino == ino && r[0].is_dir && r[0].name@ == "."@
    &&& r[1].ino == parent && r[1].is_dir && r[1].name@ == ".."@
    &&& forall|i: int|
        0 <= i < sorted.len() ==> (#[trigger] r[i + 2]) == (DirEntry {
            ino: sorted[i].0,
            is_dir: sorted[i].1.metadata.is_dir,
            name: sorted[i].1.metadata.name,
        })
}

impl TwoDriveFs {
    pub open spec fn wf(&self) -> bool {
        self.inodes.wf() && handles_sound(self@)
    }

    /// The file system of the items that are known.
    pub fn new(records: &Vec<FileRecord>) -> (r: Self)
        requires
            records@.len() + 2 <= u64::MAX,
        ensures
            r.wf(),
            r@.reads == Map::<u64, ReadHandle>::empty(),
            r@.writes == Map::<u64, WriteHandle>::empty(),
            r@.dirs == Map::<u64, Seq<DirEntry>>::empty(),
            r@.next_fh == 1,
            exists|bare: InodeView, sorted: Seq<FileRecord>| #[trigger]
                super::inodes::is_bare(bare) && #[trigger] super::inodes::sorted_by_path(
                    records@,
                    sorted,
                ) && r@.inodes == super::inodes::held_all(
                    super::inodes::numbered_all(bare, sorted),
                    sorted,
                ) && super::listings::table_of(r@.inodes, sorted),
    {
        let r = TwoDriveFs {
            inodes: InodeTable::new(records),
            reads: Table::new(),
            writes: Table::new(),
            dirs: Table::new(),
            next_fh: 1,
        };
        assert(r@.dirs =~= Map::<u64, Seq<DirEntry>>::empty());
        r
    }

    /// What is known under a number; nothing of the topmost directory.
    pub fn record_for_ino(&self, ino: u64) -> (r: Option<FileRecord>)
        ensures
            r == record_at(self@, ino),
    {
        if ino == ROOT_INO {
            return None;
        }
        match self.inodes.record_for_ino(ino) {
            Some(f) => Some(f.clone()),
            None => None,
        }
    }

    /// What is shown of a number, at a time.
    pub fn attr_for_ino(&self, ino: u64, now: u64) -> (r: Shown)
        ensures
            shows(self@, ino, now, r),
    {
        if ino == ROOT_INO {
            return Shown::Attr(root_attr(now));
        }
        match self.inodes.record_for_ino(ino) {
            Some(f) => return Shown::Attr(attr_for_record(ino, f)),
            None => {},
        }
        let ghost p = |h: ReadHandle| h.ino == ino && h.unlinked;
        let gone = |h: &ReadHandle| -> (b: bool)
            ensures
                b == (h.ino == ino && h.unlinked),
            { h.ino == ino && h.unlinked };
        match self.reads.find(gone, Ghost(p)) {
            Some(fh) => match self.reads.get(fh) {
                Some(h) => {
                    let mut attr = h.open_attr;
                    attr.nlink = 0;
                    return Shown::Attr(attr);
                },
                None => {},
            },
            None => {},
        }
        let ghost q = |h: WriteHandle| h.ino == ino && h.unlinked;
        let gone = |h: &WriteHandle| -> (b: bool)
            ensures
                b == (h.ino == ino && h.unlinked),
            { h.ino == ino && h.unlinked };
        match self.writes.find(gone, Ghost(q)) {
            Some(fh) => Shown::OpenFile(fh),
            None => Shown::Missing,
        }
    }

    /// The number of the item at a path: known already, or learned now from
    /// what is stored of it.
    pub fn lookup(&mut self, path: &str, stored: Option<FileRecord>) -> (r: Result<u64, Errno>)
        requires
            old(self).wf(),
            old(self)@.inodes.next_ino < u64::MAX,
        ensures
            final(self).wf(),
            old(self)@.inodes.inos.contains_key(path@) ==> r == Ok::<u64, Errno>(
                old(self)@.inodes.inos[path@],
            ) && final(self)@ == old(self)@,
            !old(self)@.inodes.inos.contains_key(path@) ==> match stored {
                None => r == Err::<u64, Errno>(Errno::NoEntry) && final(self)@ == old(self)@,
                Some(f) => {
                    &&& r == Ok::<u64, Errno>(number_of(old(self)@.inodes, f.metadata.path@))
                    &&& final(self)@ == (FsView {
                        inodes: inserted(old(self)@.inodes, f),
                        ..old(self)@
                    })
                },
            },
    {
        match self.inodes.ino_for_path(path) {
            Some(ino) => Ok(ino),
            None => match stored {
                None => Err(Errno::NoEntry),
                Some(f) => Ok(self.inodes.insert_or_update(f)),
            },
        }
    }

    /// Opens a directory: what is in it now is what will be read of it.
    pub fn opendir(&mut self, ino: u64) -> (r: Result<u64, Errno>)
        requires
            old(self).wf(),
            old(self)@.next_fh < u64::MAX,
        ensures
            final(self).wf(),
            !old(self)@.inodes.paths.contains_key(ino) ==> r == Err::<u64, Errno>(Errno::NoEntry)
                && final(self)@ == old(self)@,
            old(self)@.inodes.paths.contains_key(ino) ==> {
                let fh = old(self)@.next_fh;
                let list = final(self)@.dirs[fh];
                let path = old(self)@.inodes.paths[ino]@;
                &&& r == Ok::<u64, Errno>(fh)
                &&& final(self)@ == (FsView {
                    dirs: old(self)@.dirs.insert(fh, list),
                    next_fh: (fh + 1) as u64,
                    ..old(self)@
                })
                &&& exists|sorted: Seq<(u64, FileRecord)>| #[trigger]
                    sorted_children(
                        live(old(self)@.inodes, listing(old(self)@.inodes.children, ino)),
                        sorted,
                    ) && entries(
                        old(self)@.inodes,
                        ino,
                        holding(old(self)@.inodes, path),
                        sorted,
                        list,
                    )
            },
    {
        let path = match self.inodes.path_for_ino(ino) {
            Some(p) => p.clone(),
            None => return Err(Errno::NoEntry),
        };
        let parent: u64 = match self.inodes.parent_ino(path.as_str()) {
            Some(p) => p,
            None => ROOT_INO,
        };
        let sorted = self.inodes.children_for_ino(ino);
        let mut list: Vec<DirEntry> = Vec::new();
        list.push(DirEntry { ino, is_dir: true, name: ".".to_owned() });
        list.push(DirEntry { ino: parent, is_dir: true, name: "..".to_owned() });
        let mut i: usize = 0;
        while i < sorted.len()
            invariant
                i <= sorted@.len(),
                list@.len() == i + 2,
                list@[0].ino == ino && list@[0].is_dir && list@[0].name@ == "."@,
                list@[1].ino == parent && list@[1].is_dir && list@[1].name@ == ".."@,
                forall|j: int|
                    0 <= j < i ==> (#[trigger] list@[j + 2]) == (DirEntry {
                        ino: sorted@[j].0,
                        is_dir: sorted@[j].1.metadata.is_dir,
                        name: sorted@[j].1.metadata.name,
                    }),
            decreases sorted@.len() - i,
        {
            let c = &sorted[i];
            let ghost before = list@;
            list.push(
                DirEntry {
                    ino: c.0,
                    is_dir: c.1.metadata.is_dir,
                    name: c.1.metadata.name.clone(),
                },
            );
            proof {
                assert forall|j: int| 0 <= j < i + 1 implies (#[trigger] list@[j + 2]) == (DirEntry {
                    ino: sorted@[j].0,
                    is_dir: sorted@[j].1.metadata.is_dir,
                    name: sorted@[j].1.metadata.name,
                }) by {
                    if j < i {
                        assert(list@[j + 2] == before[j + 2]);
                    }
                }
            }
            i += 1;
        }
        let fh: u64 = self.next_fh;
        self.next_fh = fh + 1;
        let ghost shown = list@;
        let _ = self.dirs.insert(fh, list);
        proof {
            assert(self@.dirs =~= old(self)@.dirs.insert(fh, shown));
            assert(entries(
                old(self)@.inodes,
                ino,
                holding(old(self)@.inodes, old(self)@.inodes.paths[ino]@),
                sorted@,
                shown,
            ));
            lemma_handles_after(old(self)@, self@);
        }
        Ok(fh)
    }

    /// What is left to read of an open directory from a place on.
    pub fn readdir(&self, fh: u64, offset: i64) -> (r: Result<Vec<DirEntry>, Errno>)
        ensures
            match r {
                Err(e) => {
                    ||| offset < 0 && e == Errno::Invalid
                    ||| offset >= 0 && !self@.dirs.contains_key(fh) && e == Errno::BadHandle
                },
                Ok(list) => {
                    &&& offset >= 0
                    &&& self@.dirs.contains_key(fh)
                    &&& list@ == from(self@.dirs[fh], offset as int)
                },
            },
    {
        if offset < 0 {
            return Err(Errno::Invalid);
        }
        let all = match self.dirs.get(fh) {
            Some(l) => l,
            None => return Err(Errno::BadHandle),
        };
        assert(self@.dirs[fh] == all@);
        let mut r: Vec<DirEntry> = Vec::new();
        if offset as u64 >= all.len() as u64 {
            assert(r@ =~= from(all@, offset as int));
            return Ok(r);
        }
        let start: usize = offset as usize;
        let mut i: usize = start;
        while i < all.len()
            invariant
                start <= i <= all@.len(),
                r@ == all@.subrange(start as int, i as int),
            decreases all@.len() - i,
        {
            let e = &all[i];
            r.push(DirEntry { ino: e.ino, is_dir: e.is_dir, name: e.name.clone() });
            assert(r@ =~= all@.subrange(start as int, i + 1));
            i += 1;
        }
        assert(r@ =~= from(all@, offset as int));
        Ok(r)
    }

    /// Closes a directory.
    pub fn releasedir(&mut self, fh: u64)
        requires
            old(self).wf(),
        ensures
            final(self).wf(),
            final(self)@ == (FsView { dirs: old(self)@.dirs.remove(fh), ..old(self)@ }),
    {
        let _ = self.dirs.remove(fh);
        proof {
            assert(self@.dirs =~= old(self)@.dirs.remove(fh));
            lemma_handles_after(old(self)@, self@);
        }
    }
}

/// The number of the directory that holds an item, or of the topmost one.
pub open spec fn holding(v: InodeView, path: Seq<char>) -> u64 {
    if path != "/"@ && v.inos.contains_key(super::inodes::parent_path(path)) {
        v.inos[super::inodes::parent_path(path)]
    } else {
        ROOT_INO
    }
}

/// What is left of a sequence from a place on.
pub open spec fn from<A>(s: Seq<A>, n: int) -> Seq<A> {
    if n >= s.len() {
        Seq::empty()
    } else {
        s.skip(n)
    }
}

/// A number that is given for an open file or directory stands for nothing
/// else.
pub proof fn lemma_handles_are_fresh(v: FsView)
    requires
        handles_sound(v),
    ensures
        !v.reads.contains_key(v.next_fh),
        !v.writes.contains_key(v.next_fh),
        !v.dirs.contains_key(v.next_fh),
{
}

/// Nothing but the number before the next was given.
pub(crate) proof fn lemma_handles_after(v: FsView, w: FsView)
    requires
        handles_sound(v),
        v.next_fh <= w.next_fh,
        v.inodes.next_ino <= w.inodes.next_ino,
        forall|k: u64| #[trigger] w.reads.contains_key(k) ==> v.reads.contains_key(k) || (k
            == v.next_fh && k < w.next_fh),
        forall|k: u64| #[trigger]
            w.writes.contains_key(k) ==> (v.writes.contains_key(k) && w.writes[k].ino
                == v.writes[k].ino) || (k == v.next_fh && k < w.next_fh && w.writes[k].ino
                < w.inodes.next_ino),
        forall|k: u64| #[trigger] w.dirs.contains_key(k) ==> v.dirs.contains_key(k) || (k
            == v.next_fh && k < w.next_fh),
    ensures
        handles_sound(w),
{
    assert forall|k: u64| #[trigger] w.reads.contains_key(k) implies k < w.next_fh by {
        if v.reads.contains_key(k) {
        }
    }
    assert forall|k: u64| #[trigger] w.writes.contains_key(k) implies k < w.next_fh by {
        if v.writes.contains_key(k) {
        }
    }
    assert forall|k: u64| #[trigger] w.writes.contains_key(k) implies w.writes[k].ino
        < w.inodes.next_ino by {
        if v.writes.contains_key(k) {
        }
    }
    assert forall|k: u64| #[trigger] w.dirs.contains_key(k) implies k < w.next_fh by {
        if v.dirs.contains_key(k) {
        }
    }
}

/// What is known of an item now: by its identifier, or else by its path, or
/// else what was known before.
pub fn refresh_record(
    record: FileRecord,
    by_id: Option<FileRecord>,
    by_path: Option<FileRecord>,
) -> (r: FileRecord)
    ensures
        r == match (by_id, by_path) {
            (Some(f), _) => f,
            (None, Some(f)) => f,
            (None, None) => record,
        },
{
    match by_id {
        Some(f) => f,
        None => match by_path {
            Some(f) => f,
            None => record,
        },
    }
}

/// The numbers that the system is told about the storage.
#[derive(Clone, Copy, PartialEq, Eq, Structural, Debug)]
pub struct FilesystemStats {
    pub blocks: u64,
    pub blocks_free: u64,
    pub blocks_available: u64,
    pub files: u64,
    pub files_free: u64,
    pub block_size: u32,
    pub name_length: u32,
    pub fragment_size: u32,
}

/// The largest number of thirty-two bits that is not above a number.
pub open spec fn clamped(n: u64) -> u32 {
    if n <= u32::MAX {
        n as u32
    } else {
        u32::MAX
    }
}

fn clamp(n: u64) -> (r: u32)
    ensures
        r == clamped(n),
{
    if n <= u32::MAX as u64 {
        n as u32
    } else {
        u32::MAX
    }
}

/// What the storage says of itself.
pub struct StorageStats {
    pub blocks: u64,
    pub blocks_free: u64,
    pub blocks_available: u64,
    pub files: u64,
    pub files_free: u64,
    pub block_size: u64,
    pub fragment_size: u64,
    pub name_length: u64,
}

/// What the system is told about the storage: where the storage has no
/// fragments, they count as blocks.
pub fn filesystem_stats(s: &StorageStats) -> (r: FilesystemStats)
    ensures
        r == (FilesystemStats {
            blocks: s.blocks,
            blocks_free: s.blocks_free,
            blocks_available: s.blocks_available,
            files: s.files,
            files_free: s.files_free,
            block_size: clamped(s.block_size),
            name_length: clamped(s.name_length),
            fragment_size: if s.fragment_size == 0 {
                clamped(s.block_size)
            } else {
                clamped(s.fragment_size)
            },
        }),
{
    FilesystemStats {
        blocks: s.blocks,
        blocks_free: s.blocks_free,
        blocks_available: s.blocks_available,
        files: s.files,
        files_free: s.files_free,
        block_size: clamp(s.block_size),
        name_length: clamp(s.name_length),
        fragment_size: if s.fragment_size == 0 {
            clamp(s.block_size)
        } else {
            clamp(s.fragment_size)
        },
    }
}

} // verus!
