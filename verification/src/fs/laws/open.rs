//! What opening, writing, renaming and removing files is for.

use super::cloud::{known_version, lemma_uploads_replace_what_is_known};
use super::content::in_cache;
use super::tree::lemma_replaced_item;
use crate::fs::filesystem::fuse::{named_item, opening, Opening};
use crate::fs::filesystem::mutations::{
    followed, is_open, made_here, renames, unlinked, updated_one, RenameEvent, RenameStep,
    Renaming,
};
use crate::fs::filesystem::reads::uses_cache;
use crate::fs::filesystem::writes::{
    creates, creation_refusal, handle_done, uploads, CreateEvent, CreateOrder, Creating,
    UploadEvent, UploadOrder, Uploading, WriteCache,
};
use crate::fs::filesystem::{
    clamped, from, record_at, shows, Errno, FsError, FsView, ReadHandle, Shown, WriteHandle,
};
use crate::fs::inodes::{
    attr_of, inodes_sound, inserted, removed, replaced, FileAttr, InodeView, ROOT_INO,
};
use crate::fs::probes::{O_ACCMODE, O_EXCL, O_TRUNC};
use crate::fs::record::{cache_name, FileRecord};
use crate::fs::upload_queue::UploadCommand;
use vstd::prelude::*;

verus! {

/// After a file took the place of another, the commands end with the upload of the
/// item that now stands under the path, whether or not the cloud knew the file
/// that was moved. Before it stands the deletion of the cloud's item of that file,
/// exactly where it had one and it is not the one that is kept.
pub proof fn lemma_replaced_content_is_uploaded(
    v: FsView,
    ino: u64,
    target_ino: u64,
    record: FileRecord,
    target: FileRecord,
    new_path: String,
    updated: FileRecord,
    w: FsView,
    t: Renaming,
    o: RenameStep,
)
    requires
        renames(
            v,
            Renaming::Replacing { ino, target_ino, record, target, new_path },
            RenameEvent::Replaced(updated),
            w,
            t,
            o,
        ),
    ensures
        t is Ended,
        o matches RenameStep::Done(commands) && {
            &&& commands.len() > 0
            &&& commands.last() == UploadCommand::Upload(updated.metadata.remote_id)
            &&& (record.cloud_remote_id matches Some(c) && !(target.cloud_remote_id matches Some(d)
                && d@ == c@)) ==> commands.len() == 2 && commands[0] == UploadCommand::Delete(
                record.cloud_remote_id->0,
            )
            &&& !(record.cloud_remote_id matches Some(c) && !(target.cloud_remote_id matches Some(d)
                && d@ == c@)) ==> commands.len() == 1
        },
{
}

/// After a file took the place of another, its number stands for the item that was
/// recorded, under its path, and the other's number for nothing.
pub proof fn lemma_replaced_item_is_shown(
    v: FsView,
    ino: u64,
    target_ino: u64,
    record: FileRecord,
    target: FileRecord,
    new_path: String,
    updated: FileRecord,
    w: FsView,
    t: Renaming,
    o: RenameStep,
)
    requires
        inodes_sound(v.inodes),
        ino != target_ino,
        renames(
            v,
            Renaming::Replacing { ino, target_ino, record, target, new_path },
            RenameEvent::Replaced(updated),
            w,
            t,
            o,
        ),
    ensures
        w.inodes.records.contains_key(ino) && w.inodes.records[ino] == updated,
        w.inodes.paths.contains_key(ino) && w.inodes.paths[ino] == updated.metadata.path,
        w.inodes.inos.contains_key(updated.metadata.path@)
            && w.inodes.inos[updated.metadata.path@] == ino,
        !w.inodes.records.contains_key(target_ino),
        !w.inodes.paths.contains_key(target_ino),
        w.dirs == v.dirs && w.next_fh == v.next_fh,
{
}

/// Who writes the file that took the place of another goes on writing it, now as
/// the other's content, at its new path and over the other's version; who has the
/// other open keeps it, without a name. Nobody else's open file changes.
pub proof fn lemma_replacing_keeps_open_files(
    v: FsView,
    ino: u64,
    target_ino: u64,
    record: FileRecord,
    target: FileRecord,
    new_path: String,
    updated: FileRecord,
    w: FsView,
    t: Renaming,
    o: RenameStep,
    fh: u64,
)
    requires
        renames(
            v,
            Renaming::Replacing { ino, target_ino, record, target, new_path },
            RenameEvent::Replaced(updated),
            w,
            t,
            o,
        ),
        record.metadata.remote_id@ != target.metadata.remote_id@,
    ensures
        w.writes.contains_key(fh) <==> v.writes.contains_key(fh),
        w.reads.contains_key(fh) <==> v.reads.contains_key(fh),
        v.writes.contains_key(fh) ==> ({
            let (a, b) = (v.writes[fh], w.writes[fh]);
            &&& b.ino == a.ino && b.cache_path == a.cache_path && b.active == a.active
                && b.uploaded == a.uploaded
            &&& a.record_remote_id@ == record.metadata.remote_id@ ==> {
                &&& b.path == new_path
                &&& b.record_remote_id == target.metadata.remote_id
                &&& b.created_new_record == (target.cloud_remote_id is None)
                &&& b.unlinked == a.unlinked
                &&& b.base_etag == if a.uploaded {
                    a.base_etag
                } else {
                    known_version(target)
                }
            }
            &&& a.record_remote_id@ == target.metadata.remote_id@ ==> b.unlinked && b.path == a.path
                && b.record_remote_id == a.record_remote_id && b.base_etag == a.base_etag
            &&& a.record_remote_id@ != record.metadata.remote_id@ && a.record_remote_id@
                != target.metadata.remote_id@ ==> b == a
        }),
        v.reads.contains_key(fh) ==> ({
            let (a, b) = (v.reads[fh], w.reads[fh]);
            &&& b.cache_path == a.cache_path && b.ino == a.ino && b.open_attr == a.open_attr
                && b.deferred == a.deferred && b.generation == a.generation
            &&& b.unlinked == (a.unlinked || a.ino == target_ino)
        }),
{
    lemma_uploads_replace_what_is_known(target);
}

/// A change of name or place is made in order: the item is found by its path and
/// looked at again, then what stands at the new path. A file takes the place of a
/// file there; into a free place the item moves; then it and what is below it is
/// listed, and its upload waits. Nothing is shown before it is recorded.
pub proof fn lemma_rename_goes_on(
    v: FsView,
    s: Renaming,
    e: RenameEvent,
    w: FsView,
    t: Renaming,
    o: RenameStep,
)
    requires
        renames(v, s, e, w, t, o),
    ensures
        (s is Joining && e is Paths) ==> ({
            let (path, new_path) = (e->Paths_0, e->Paths_1);
            &&& w == v
            &&& path@ == new_path@ ==> (o matches RenameStep::Done(c) && c.len() == 0)
            &&& path@ != new_path@ && !v.inodes.inos.contains_key(path@) ==> o
                == RenameStep::Failed(FsError::SourceMissing)
            &&& path@ != new_path@ && v.inodes.inos.contains_key(path@) ==> ({
                let ino = v.inodes.inos[path@];
                &&& ino == ROOT_INO || !v.inodes.records.contains_key(ino) ==> o
                    == RenameStep::Failed(FsError::SourceRecordMissing)
                &&& ino != ROOT_INO && v.inodes.records.contains_key(ino) ==> o
                    == RenameStep::Refresh(v.inodes.records[ino]) && t == (Renaming::Refreshing {
                    ino,
                    new_path,
                })
            })
        }),
        (s matches Renaming::Refreshing { ino, new_path } && e matches RenameEvent::Record(f)) ==> ({
            let (ino, new_path) = (s->Refreshing_ino, s->Refreshing_new_path);
            o == RenameStep::Find(new_path) && t == (Renaming::Looking {
                ino,
                record: e->Record_0,
                new_path,
            }) && w == v
        }),
        (s is Looking && e == RenameEvent::Target(None)) ==> o == RenameStep::Move(
            s->Looking_record.metadata.remote_id,
            s->Looking_new_path,
        ) && t == (Renaming::Moving {
            record: s->Looking_record,
            new_path: s->Looking_new_path,
        }) && w == v,
        (s is Looking && (e matches RenameEvent::Target(Some(target)) && (target.metadata.is_dir
            || s->Looking_record.metadata.is_dir))) ==> o == RenameStep::Failed(
            FsError::ReplacesDirectory,
        ) && w == v,
        (s is Looking && (e matches RenameEvent::Target(Some(target)) && !target.metadata.is_dir
            && !s->Looking_record.metadata.is_dir && v.inodes.inos.contains_key(
            target.metadata.path@,
        ))) ==> ({
            let target = e->Target_0->0;
            &&& o == RenameStep::Replace(
                s->Looking_record.metadata.remote_id,
                target.metadata.remote_id,
                s->Looking_new_path,
            )
            &&& t == (Renaming::Replacing {
                ino: s->Looking_ino,
                target_ino: v.inodes.inos[target.metadata.path@],
                record: s->Looking_record,
                target,
                new_path: s->Looking_new_path,
            })
            &&& w == v
        }),
        (s is Moving && e is Moved) ==> o == RenameStep::List(
            s->Moving_record.metadata.remote_id,
            s->Moving_new_path,
        ) && t == (Renaming::Listing { record: s->Moving_record }) && w.inodes == v.inodes
            && w.reads == v.reads,
        (s is Listing && (e matches RenameEvent::Listed(u, b) && u is Some)) ==> (o matches RenameStep::Done(
            commands,
        ) && commands == seq![
            UploadCommand::Upload(s->Listing_record.metadata.remote_id),
        ] && w.writes == v.writes && w.reads == v.reads),
        (s is Listing && (e matches RenameEvent::Listed(u, b) && u is None)) ==> o
            == RenameStep::Failed(FsError::RecordDisappeared) && w == v,
        e is Failed ==> o == RenameStep::GivenUp && w == v && t is Ended,
{
}

/// Who still writes an item that moves goes on at its new path: one open file of
/// it that is not uploaded, if there is one, and no other changes in anything.
pub proof fn lemma_writer_follows_a_move(
    a: Map<u64, WriteHandle>,
    id: Seq<char>,
    path: String,
    b: Map<u64, WriteHandle>,
)
    requires
        followed(a, id, path, b),
    ensures
        a.dom() == b.dom(),
        (exists|fh: u64| #[trigger] a.contains_key(fh) && a[fh].record_remote_id@ == id
            && !a[fh].uploaded) ==> exists|fh: u64| #[trigger]
            a.contains_key(fh) && a[fh].record_remote_id@ == id && !a[fh].uploaded && b[fh].path
                == path,
        forall|fh: u64| #[trigger]
            a.contains_key(fh) ==> b[fh] == a[fh] || (a[fh].record_remote_id@ == id
                && !a[fh].uploaded && b[fh] == (WriteHandle { path, ..a[fh] })),
{
    assert(a.dom() =~= b.dom());
}

/// An item that moved is known as it was listed, under its new path, by the number
/// that it had; the other items are known as they were.
pub proof fn lemma_moved_item_is_known(a: InodeView, f: FileRecord, b: InodeView)
    requires
        inodes_sound(a),
        updated_one(a, f, b),
        exists|k: u64| #[trigger]
            a.records.contains_key(k) && a.records[k].metadata.remote_id@ == f.metadata.remote_id@,
    ensures
        exists|ino: u64|
            {
                &&& #[trigger] a.records.contains_key(ino)
                &&& a.records[ino].metadata.remote_id@ == f.metadata.remote_id@
                &&& b.records[ino] == f
                &&& b.inos.contains_key(f.metadata.path@) && b.inos[f.metadata.path@] == ino
                &&& b.paths[ino] == f.metadata.path
                &&& a.paths[ino]@ != f.metadata.path@ ==> !b.inos.contains_key(a.paths[ino]@)
                &&& forall|k: u64|
                    k != ino && #[trigger] a.records.contains_key(k) ==> b.records[k] == a.records[k]
            },
{
    let ino = choose|ino: u64|
        a.records.contains_key(ino) && a.records[ino].metadata.remote_id@ == f.metadata.remote_id@
            && b == #[trigger] replaced(a, ino, f);
    lemma_replaced_item(a, ino, f);
}

/// An item that moved and is not known by any number changes nothing that is known.
pub proof fn lemma_unknown_item_moves_unseen(a: InodeView, f: FileRecord, b: InodeView)
    requires
        updated_one(a, f, b),
        forall|k: u64| #[trigger]
            a.records.contains_key(k) ==> a.records[k].metadata.remote_id@
                != f.metadata.remote_id@,
    ensures
        b == a,
{
}

/// What is open, and what the cloud does not know: an item is open while a file of
/// it is, and the cloud does not know one that was never uploaded or whose maker
/// still has it open.
pub proof fn lemma_open_and_made_here(v: FsView, ino: u64, f: FileRecord, fh: u64)
    ensures
        v.reads.contains_key(fh) && v.reads[fh].ino == ino ==> is_open(
            v,
            ino,
            f.metadata.remote_id@,
        ),
        v.writes.contains_key(fh) && v.writes[fh].record_remote_id@ == f.metadata.remote_id@
            ==> is_open(v, ino, f.metadata.remote_id@),
        f.cloud_remote_id is None ==> made_here(v, f),
        v.writes.contains_key(fh) && v.writes[fh].record_remote_id@ == f.metadata.remote_id@
            && v.writes[fh].created_new_record ==> made_here(v, f),
        (forall|k: u64| #[trigger] v.reads.contains_key(k) ==> v.reads[k].ino != ino) && (forall|
            k: u64,
        | #[trigger]
            v.writes.contains_key(k) ==> v.writes[k].record_remote_id@ != f.metadata.remote_id@)
            ==> !is_open(v, ino, f.metadata.remote_id@),
        made_here(v, f) && f.cloud_remote_id is Some ==> exists|k: u64| #[trigger]
            v.writes.contains_key(k) && v.writes[k].record_remote_id@ == f.metadata.remote_id@
                && v.writes[k].created_new_record,
{
}

/// Removing a name forgets the number; open files of it go on, without a name, and
/// no other open file changes.
pub proof fn lemma_removed_name(v: FsView, ino: u64, id: Seq<char>, fh: u64)
    ensures
        unlinked(v, ino, id).inodes == removed(v.inodes, ino),
        unlinked(v, ino, id).dirs == v.dirs && unlinked(v, ino, id).next_fh == v.next_fh,
        unlinked(v, ino, id).reads.contains_key(fh) <==> v.reads.contains_key(fh),
        unlinked(v, ino, id).writes.contains_key(fh) <==> v.writes.contains_key(fh),
        v.reads.contains_key(fh) ==> unlinked(v, ino, id).reads[fh] == (ReadHandle {
            unlinked: v.reads[fh].unlinked || v.reads[fh].ino == ino,
            ..v.reads[fh]
        }),
        v.writes.contains_key(fh) ==> unlinked(v, ino, id).writes[fh] == (WriteHandle {
            unlinked: v.writes[fh].unlinked || v.writes[fh].record_remote_id@ == id,
            ..v.writes[fh]
        }),
{
}

/// An open for anything but reading writes, and empties where that is asked for;
/// content that is in the cache is read from there; anything else is brought when
/// it is read, but for indexers and probes, who are refused.
pub proof fn lemma_file_is_opened(
    f: FileRecord,
    there: bool,
    flags: i32,
    indexer: bool,
    probe: bool,
)
    ensures
        flags & O_ACCMODE != 0 ==> opening(f, there, flags, indexer, probe) == (Opening::Write {
            truncate: flags & O_TRUNC != 0,
        }),
        flags & O_ACCMODE == 0 && in_cache(f, there) ==> opening(f, there, flags, indexer, probe)
            == Opening::Cached(f.cache_path->0),
        flags & O_ACCMODE == 0 && !in_cache(f, there) && (indexer || probe) ==> opening(
            f,
            there,
            flags,
            indexer,
            probe,
        ) == Opening::Refused(Errno::NoData),
        flags & O_ACCMODE == 0 && !in_cache(f, there) && !indexer && !probe ==> opening(
            f,
            there,
            flags,
            indexer,
            probe,
        ) == Opening::Deferred,
{
}

/// A number other than the topmost directory's gives what is known under it; a
/// path gives its number and what is known.
pub proof fn lemma_items_are_found(v: FsView, ino: u64, path: Seq<char>)
    ensures
        ino != ROOT_INO && v.inodes.records.contains_key(ino) ==> record_at(v, ino) == Some(
            v.inodes.records[ino],
        ),
        ino == ROOT_INO || !v.inodes.records.contains_key(ino) ==> record_at(v, ino) is None,
        v.inodes.inos.contains_key(path) && v.inodes.inos[path] != ROOT_INO
            && v.inodes.records.contains_key(v.inodes.inos[path]) ==> named_item(v, path) == Ok::<
            (u64, FileRecord),
            Errno,
        >((v.inodes.inos[path], v.inodes.records[v.inodes.inos[path]])),
        !v.inodes.inos.contains_key(path) || v.inodes.inos[path] == ROOT_INO
            || !v.inodes.records.contains_key(v.inodes.inos[path]) ==> named_item(v, path) == Err::<
            (u64, FileRecord),
            Errno,
        >(Errno::NoEntry),
{
}

/// What is known under a number is shown; a file without a name is shown to who
/// has it open, with no links; and what is neither known nor open is missing.
pub proof fn lemma_what_is_shown(v: FsView, ino: u64, now: u64, r: Shown)
    requires
        shows(v, ino, now, r),
    ensures
        ino == ROOT_INO ==> (r matches Shown::Attr(a) && a.ino == ROOT_INO && a.is_dir && a.time
            == now && a.nlink == 2 && a.perm == 0o755),
        ino != ROOT_INO && v.inodes.records.contains_key(ino) ==> r == Shown::Attr(
            attr_of(ino, v.inodes.records[ino]),
        ),
        ino != ROOT_INO && !v.inodes.records.contains_key(ino) ==> match r {
            Shown::Attr(a) => exists|fh: u64| #[trigger]
                v.reads.contains_key(fh) && v.reads[fh].ino == ino && v.reads[fh].unlinked && a.size
                    == v.reads[fh].open_attr.size && a.nlink == 0,
            Shown::OpenFile(fh) => v.writes.contains_key(fh) && v.writes[fh].ino == ino
                && v.writes[fh].unlinked,
            Shown::Missing => forall|fh: u64|
                !(#[trigger] v.reads.contains_key(fh) && v.reads[fh].ino == ino
                    && v.reads[fh].unlinked) && !(v.writes.contains_key(fh) && v.writes[fh].ino
                    == ino && v.writes[fh].unlinked),
        },
{
    if r is Missing && ino != ROOT_INO && !v.inodes.records.contains_key(ino) {
        assert forall|fh: u64|
            !(#[trigger] v.reads.contains_key(fh) && v.reads[fh].ino == ino && v.reads[fh].unlinked)
                && !(v.writes.contains_key(fh) && v.writes[fh].ino == ino
                && v.writes[fh].unlinked) by {
            if v.writes.contains_key(fh) {
                assert(!(v.writes[fh].ino == ino && v.writes[fh].unlinked));
            }
        }
    }
}

/// The topmost directory is shown as a directory of no size. A number of which
/// nothing is known is missing exactly while no file without a name is open under
/// it, and one that is open for reading is shown before one that is open for
/// writing.
pub proof fn lemma_files_without_a_name(v: FsView, ino: u64, now: u64, r: Shown)
    ensures
        shows(v, ROOT_INO, now, r) <==> r == Shown::Attr(
            FileAttr {
                ino: 1,
                size: 0,
                blocks: 0,
                time: now,
                is_dir: true,
                perm: 0o755,
                nlink: 2,
            },
        ),
        ino != ROOT_INO && !v.inodes.records.contains_key(ino) ==> {
            let read = exists|k: u64| #[trigger]
                v.reads.contains_key(k) && v.reads[k].ino == ino && v.reads[k].unlinked;
            let written = exists|k: u64| #[trigger]
                v.writes.contains_key(k) && v.writes[k].ino == ino && v.writes[k].unlinked;
            &&& shows(v, ino, now, Shown::Missing) <==> !read && !written
            &&& shows(v, ino, now, r) && read ==> r is Attr
            &&& shows(v, ino, now, r) && !read && written ==> r is OpenFile
        },
{
}

/// A cache file is in use exactly while a file is open on it.
pub proof fn lemma_cache_in_use(v: FsView, path: Seq<char>, fh: u64)
    ensures
        v.reads.contains_key(fh) && v.reads[fh].cache_path@ == path ==> uses_cache(v, path),
        v.writes.contains_key(fh) && v.writes[fh].cache_path@ == path ==> uses_cache(v, path),
        (forall|k: u64| #[trigger] v.reads.contains_key(k) ==> v.reads[k].cache_path@ != path) && (
        forall|k: u64| #[trigger] v.writes.contains_key(k) ==> v.writes[k].cache_path@ != path)
            ==> !uses_cache(v, path),
{
}

/// Reading a directory from an offset gives all that comes after the entries
/// before it, and a size that does not fit is shown as the largest that does.
pub proof fn lemma_rest_of_a_listing<A>(s: Seq<A>, n: int, size: u64)
    requires
        0 <= n,
    ensures
        n <= s.len() ==> s.take(n) + from(s, n) == s,
        n >= s.len() ==> from(s, n).len() == 0,
        size <= 4294967295 ==> clamped(size) == size,
        size > 4294967295 ==> clamped(size) == 4294967295,
{
    if n <= s.len() {
        assert(s.take(n) + from(s, n) =~= s);
    }
}

/// A file can be made in a directory that is known, under a name that is text and
/// has a character and no slash.
pub proof fn lemma_creation_is_refused(v: FsView, parent: u64, name: Option<Seq<char>>)
    ensures
        !v.inodes.paths.contains_key(parent) ==> creation_refusal(v, parent, name) == Some(
            FsError::ParentMissing,
        ),
        v.inodes.paths.contains_key(parent) && parent != ROOT_INO && v.inodes.records.contains_key(
            parent,
        ) && !v.inodes.records[parent].metadata.is_dir ==> creation_refusal(v, parent, name)
            == Some(FsError::ParentNotDirectory),
        v.inodes.paths.contains_key(parent) && (parent == ROOT_INO
            || !v.inodes.records.contains_key(parent)
            || v.inodes.records[parent].metadata.is_dir) ==> ({
            let good = name is Some && name->0.len() > 0 && forall|i: int|
                0 <= i < name->0.len() ==> #[trigger] name->0[i] != '/';
            &&& good ==> creation_refusal(v, parent, name) is None
            &&& !good ==> creation_refusal(v, parent, name) == Some(FsError::BadName)
        }),
{
}

/// A new file gets a cache file of its own, named after its identifier, and is
/// recorded with it; then it is known under its number and open for writing, as a
/// file that was made here. Where recording it fails, what was begun is undone.
pub proof fn lemma_new_file_is_made(
    v: FsView,
    id: String,
    flags: i32,
    mode: u32,
    path: String,
    cache_path: String,
    f: FileRecord,
    t: Seq<Creating>,
    o: Seq<CreateOrder>,
    between: Seq<FsView>,
    w: FsView,
)
    requires
        inodes_sound(v.inodes),
        v.inodes.next_ino < u64::MAX && v.next_fh < u64::MAX,
        t.len() == 4 && o.len() == 4,
        creates(
            v,
            Creating::Looking { id, flags, mode },
            CreateEvent::Existing(path, None),
            between[0],
            t[0],
            o[0],
        ),
        creates(between[0], t[0], CreateEvent::Made(cache_path), between[1], t[1], o[1]),
        creates(between[1], t[1], CreateEvent::Recorded(f), w, t[2], o[2]),
        creates(between[1], t[1], CreateEvent::Failed, between[2], t[3], o[3]),
    ensures
        between[0] == v && between[1] == v && between[2] == v,
        o[0] matches CreateOrder::MakeCache(name) && name@ == cache_name(id@),
        o[1] == (CreateOrder::Record { id, path, cache_path, mode }),
        o[2] matches CreateOrder::Opened(ino, fh, attr) && {
            &&& fh == v.next_fh
            &&& w.next_fh == fh + 1
            &&& w.inodes.inos.contains_key(f.metadata.path@) && w.inodes.inos[f.metadata.path@]
                == ino
            &&& w.inodes.records.contains_key(ino) && w.inodes.records[ino] == f
            &&& attr == attr_of(ino, f)
            &&& w.inodes == inserted(v.inodes, f)
            &&& w.writes == v.writes.insert(
                fh,
                WriteHandle {
                    ino,
                    path,
                    record_remote_id: id,
                    cache_path,
                    active: true,
                    uploaded: false,
                    created_new_record: true,
                    unlinked: false,
                    base_etag: None,
                },
            )
            &&& w.reads == v.reads && w.dirs == v.dirs
        },
        o[3] == (CreateOrder::Undo { id, cache_path }),
{
}

/// A file that is there is not made anew: it is refused where that was asked for
/// and where it is a directory, and else opened for writing. Content that is
/// emptied needs not be brought; any other is.
pub proof fn lemma_existing_file_is_overwritten(
    v: FsView,
    id: String,
    flags: i32,
    mode: u32,
    path: String,
    f: FileRecord,
    w: FsView,
    t: Creating,
    o: CreateOrder,
)
    requires
        creates(
            v,
            Creating::Looking { id, flags, mode },
            CreateEvent::Existing(path, Some(f)),
            w,
            t,
            o,
        ),
    ensures
        w == v,
        flags & O_EXCL != 0 ==> o == CreateOrder::Failed(FsError::AlreadyExists),
        flags & O_EXCL == 0 && f.metadata.is_dir ==> o == CreateOrder::Failed(FsError::IsDirectory),
        flags & O_EXCL == 0 && !f.metadata.is_dir && !v.inodes.inos.contains_key(f.metadata.path@)
            ==> o == CreateOrder::Failed(FsError::InodeDisappeared),
        flags & O_EXCL == 0 && !f.metadata.is_dir && v.inodes.inos.contains_key(f.metadata.path@)
            ==> (o matches CreateOrder::Cache(g, c) && {
            &&& g == f
            &&& flags & O_TRUNC == 0 ==> c == WriteCache::Hydrate
            &&& flags & O_TRUNC != 0 && f.cache_path is Some ==> c == WriteCache::Path(
                f.cache_path->0,
            )
            &&& flags & O_TRUNC != 0 && f.cache_path is None ==> (c matches WriteCache::Name(n)
                && n@ == cache_name(f.metadata.remote_id@))
            &&& t == (Creating::Caching {
                ino: v.inodes.inos[f.metadata.path@],
                record: f,
                truncate: flags & O_TRUNC != 0,
            })
        }),
{
}

/// A file that is there is opened for writing: its content is opened where it is,
/// it is recorded as being written, emptied if that was asked for, and then it is
/// known as it was recorded and open over the version that was known. Content that
/// was released meanwhile is not written.
pub proof fn lemma_existing_file_is_opened(
    v: FsView,
    ino: u64,
    f: FileRecord,
    truncate: bool,
    cache_path: String,
    updated: FileRecord,
    t: Seq<Creating>,
    o: Seq<CreateOrder>,
    between: Seq<FsView>,
    w: FsView,
)
    requires
        inodes_sound(v.inodes),
        v.next_fh < u64::MAX,
        t.len() == 5 && o.len() == 5,
        creates(
            v,
            Creating::Caching { ino, record: f, truncate },
            CreateEvent::Cached(cache_path),
            between[0],
            t[0],
            o[0],
        ),
        creates(between[0], t[0], CreateEvent::Opened(true), between[1], t[1], o[1]),
        creates(between[1], t[1], CreateEvent::Marked(Some(updated)), w, t[2], o[2]),
        creates(between[0], t[0], CreateEvent::Opened(false), between[2], t[3], o[3]),
        creates(between[1], t[1], CreateEvent::Marked(None), between[3], t[4], o[4]),
    ensures
        between[0] == v && between[1] == v && between[2] == v && between[3] == v,
        o[0] == CreateOrder::Open(cache_path),
        o[1] == (CreateOrder::Mark { id: f.metadata.remote_id, cache_path, truncate }),
        o[2] == CreateOrder::Opened(ino, v.next_fh, attr_of(ino, updated)),
        w.next_fh == v.next_fh + 1,
        w.inodes == replaced(v.inodes, ino, updated),
        w.writes == v.writes.insert(
            v.next_fh,
            WriteHandle {
                ino,
                path: f.metadata.path,
                record_remote_id: f.metadata.remote_id,
                cache_path,
                active: true,
                uploaded: false,
                created_new_record: false,
                unlinked: false,
                base_etag: known_version(f),
            },
        ),
        w.reads == v.reads && w.dirs == v.dirs,
        o[3] == CreateOrder::Failed(FsError::CacheReleased),
        o[4] == CreateOrder::Failed(FsError::RecordDisappeared),
{
    lemma_uploads_replace_what_is_known(f);
}

/// An open file whose content is dealt with is uploaded and active no more, and
/// keeps everything else; no other changes.
pub proof fn lemma_handle_is_done(v: FsView, fh: u64)
    ensures
        v.writes.contains_key(fh) ==> handle_done(v, fh).writes == v.writes.insert(
            fh,
            WriteHandle { uploaded: true, active: false, ..v.writes[fh] },
        ),
        !v.writes.contains_key(fh) ==> handle_done(v, fh) == v,
        handle_done(v, fh).inodes == v.inodes && handle_done(v, fh).reads == v.reads && handle_done(
            v,
            fh,
        ).dirs == v.dirs && handle_done(v, fh).next_fh == v.next_fh,
{
}

/// What an open file holds is uploaded to its path, in the place of the cloud's
/// item and over the version that it was opened with, and recorded; then the item
/// is known as it was recorded and the open file is done with. What was uploaded
/// and is not what was recorded is deleted again first.
pub proof fn lemma_open_file_is_uploaded(
    v: FsView,
    fh: u64,
    remote_id: Option<String>,
    uploaded: String,
    f: FileRecord,
    t: Seq<Uploading>,
    o: Seq<UploadOrder>,
    between: Seq<FsView>,
    w: FsView,
    x: FsView,
)
    requires
        v.writes.contains_key(fh),
        t.len() == 4 && o.len() == 4,
        uploads(v, fh, Uploading::Marking, UploadEvent::Marked(remote_id), between[0], t[0], o[0]),
        uploads(between[0], fh, t[0], UploadEvent::Uploaded(uploaded), between[1], t[1], o[1]),
        uploads(between[1], fh, t[1], UploadEvent::Committed(f), w, t[2], o[2]),
        uploads(w, fh, t[2], UploadEvent::Done, x, t[3], o[3]),
    ensures
        between[0] == v && between[1] == v,
        ({
            let h = v.writes[fh];
            let own = f.cloud_remote_id matches Some(c) && c@ == uploaded@;
            let done = FsView {
                inodes: replaced(v.inodes, h.ino, f),
                writes: v.writes.insert(fh, WriteHandle { uploaded: true, active: false, ..h }),
                ..v
            };
            &&& o[0] == (UploadOrder::Upload {
                path: h.path,
                cache_path: h.cache_path,
                remote_id,
                etag: h.base_etag,
            })
            &&& o[1] == (UploadOrder::Commit {
                id: h.record_remote_id,
                path: h.path,
                uploaded,
                cache_path: h.cache_path,
            })
            &&& own ==> o[2] == UploadOrder::Done && w == done
            &&& !own ==> o[2] == (UploadOrder::Discard { uploaded, path: h.path }) && w == v && o[3]
                == UploadOrder::Done && x == done
        }),
{
}

/// A conflict of an open file keeps both contents: the item is recorded as being in
/// conflict, a copy of the cache file is kept, and then both are known as they are
/// recorded. A failed upload leaves the item recorded as changed; one that could
/// not be recorded is deleted again. Neither counts as done.
pub proof fn lemma_conflict_of_an_open_file(
    v: FsView,
    fh: u64,
    f: FileRecord,
    copy: String,
    original: FileRecord,
    copied: FileRecord,
    t: Seq<Uploading>,
    o: Seq<UploadOrder>,
    between: Seq<FsView>,
    w: FsView,
    x: FsView,
)
    requires
        v.writes.contains_key(fh),
        t.len() == 8 && o.len() == 8,
        uploads(v, fh, Uploading::Sending, UploadEvent::Conflict, between[0], t[0], o[0]),
        uploads(between[0], fh, t[0], UploadEvent::Record(Some(f)), between[1], t[1], o[1]),
        uploads(between[1], fh, t[1], UploadEvent::Preserved(copy), between[2], t[2], o[2]),
        uploads(between[2], fh, t[2], UploadEvent::Record(Some(original)), w, t[3], o[3]),
        uploads(w, fh, t[3], UploadEvent::Record(Some(copied)), x, t[4], o[4]),
        uploads(v, fh, Uploading::Sending, UploadEvent::Failed, between[3], t[5], o[5]),
        uploads(v, fh, Uploading::Committing { uploaded: copy }, UploadEvent::Failed, between[4], t[6], o[6]),
        uploads(v, fh, t[0], UploadEvent::Record(None), between[5], t[7], o[7]),
    ensures
        between[0] == v && between[1] == v && between[2] == v && between[3] == v && between[4] == v
            && between[5] == v,
        ({
            let h = v.writes[fh];
            &&& o[0] == UploadOrder::MarkConflict(h.record_remote_id)
            &&& o[1] == UploadOrder::Preserve(f, h.cache_path)
            &&& o[2] == UploadOrder::Find(h.record_remote_id)
            &&& o[3] == UploadOrder::Find(copy)
            &&& w == (FsView { inodes: replaced(v.inodes, h.ino, original), ..v })
            &&& o[4] == UploadOrder::Done
            &&& x.inodes == inserted(w.inodes, copied)
            &&& x.writes == v.writes.insert(fh, WriteHandle { uploaded: true, active: false, ..h })
            &&& o[5] == UploadOrder::MarkDirty(h.record_remote_id)
            &&& o[6] == (UploadOrder::Discard { uploaded: copy, path: h.path })
            &&& o[7] == UploadOrder::Failed(FsError::RecordDisappeared)
        }),
{
}

} // verus!
