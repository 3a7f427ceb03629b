//! What becomes of local changes on their way to the cloud.

use super::content::unsaved;
use crate::fs::activity::{fresh, progress_due, progressed, without, Activity, ActivityGuard};
use crate::fs::conflicts::{
    conflict_mark, conflict_name, eight_digits, extension_at, fingerprint_of, fitting, less,
    upload_etag, PreserveEvent, PreserveOrder, Preserving,
};
use crate::fs::metadata::protects;
use crate::fs::probes::{blanked, gio_probe, thumbnails_or_indexes};
use crate::fs::record::{
    awaits_upload, cache_name, cached, lacks_pinned_content, FileRecord, FileState, MetadataEntry,
};
use crate::fs::recovery::{
    change_begins, deletion_begins, deletion_end, first_failure, recovered_count, ChangeEvent,
    ChangeOrder, Changing, DeleteEvent, DeleteOrder, PendingMetadata, Recovered, Recovery,
    RecoveryEvent, RecoveryOrder, RemoteItem,
};
use crate::fs::sweep::Ended;
use crate::peer::primitives::{lemma_unhex_hex, unhex};
use crate::text::{begins, decimal, occurs};
use vstd::prelude::*;
use vstd::utf8::encode_utf8;

verus! {

/// The version of the cloud's item that an upload may replace: the one that is
/// known, where the cloud has the item and a version is known.
pub open spec fn known_version(f: FileRecord) -> Option<String> {
    if f.cloud_remote_id is Some && f.metadata.etag@ != Seq::<char>::empty() {
        Some(f.metadata.etag)
    } else {
        None
    }
}

/// An upload replaces the version that is known, if one is, and nothing else.
pub proof fn lemma_uploads_replace_what_is_known(f: FileRecord)
    ensures
        upload_etag(f) == known_version(f),
{
    assert(f.metadata.etag@.len() == 0 ==> f.metadata.etag@ =~= Seq::<char>::empty());
}

/// Content that can be uploaded is uploaded and recorded: it goes from its cache
/// file to its path, in the place of the item that the cloud has for it and of the
/// version that is known; what the cloud answers is recorded for the same record,
/// path and file; and if the record ends up with that item, or after it was marked
/// for deletion otherwise, the releases that waited are made and the work is done.
/// What the cloud has at the path of an unknown item is looked up first.
pub proof fn lemma_changed_content_goes_up(
    f: FileRecord,
    cache: String,
    item: Option<RemoteItem>,
    uploaded: MetadataEntry,
    now: Option<String>,
)
    requires
        f.cache_path == Some(cache),
        !(f.state is Conflict),
        item is Some ==> !item->0.owned_by_another && !item->0.awaiting_delete,
    ensures
        ({
            let surveyed = Recovery::Surveying.followed(
                f,
                RecoveryEvent::Surveyed { pending_above: false, exists: true },
            );
            let ready = if f.cloud_remote_id is None {
                surveyed.0.followed(f, RecoveryEvent::Remote(item))
            } else {
                surveyed
            };
            let began = ready.0.followed(f, RecoveryEvent::Began(true));
            let up = began.0.followed(f, RecoveryEvent::Uploaded(uploaded));
            let committed = up.0.followed(f, RecoveryEvent::Committed(now));
            let own = now is Some && now->0@ == uploaded.remote_id@;
            let kept = if own {
                committed
            } else {
                committed.0.followed(f, RecoveryEvent::Discarded)
            };
            &&& f.cloud_remote_id is None ==> surveyed.1 == RecoveryOrder::LookUp(f.metadata.path)
            &&& ready.1 == RecoveryOrder::Begin
            &&& began.1 == (RecoveryOrder::Upload {
                path: f.metadata.path,
                cache_path: cache,
                remote_id: f.cloud_remote_id,
                etag: known_version(f),
            })
            &&& up.1 == (RecoveryOrder::Commit {
                id: f.metadata.remote_id,
                path: f.metadata.path,
                uploaded,
                cache_path: cache,
            })
            &&& !own ==> committed.1 == (RecoveryOrder::Discard {
                item: uploaded.remote_id,
                path: f.metadata.path,
            })
            &&& kept.1 == RecoveryOrder::Release
            &&& kept.0.followed(f, RecoveryEvent::Released).1 == RecoveryOrder::Finish(true)
        }),
{
    lemma_uploads_replace_what_is_known(f);
}

/// Content that cannot be uploaded now is left as it is: while a change of a name
/// or place above it waits, without its cache file, where another item stands at
/// its path, or where another upload of it has begun.
pub proof fn lemma_blocked_content_waits(
    f: FileRecord,
    pending_above: bool,
    there: bool,
    item: RemoteItem,
    cache: String,
)
    ensures
        pending_above || !there || f.cache_path is None ==> Recovery::Surveying.followed(
            f,
            RecoveryEvent::Surveyed { pending_above, exists: there },
        ).1 == RecoveryOrder::Finish(false),
        item.owned_by_another || item.awaiting_delete ==> (Recovery::LookingUp { cache }).followed(
            f,
            RecoveryEvent::Remote(Some(item)),
        ).1 == RecoveryOrder::Finish(false),
        (Recovery::Beginning { cache }).followed(f, RecoveryEvent::Began(false)).1
            == RecoveryOrder::Finish(false),
{
}

/// A conflict keeps both contents: the record is marked, and a copy of the same
/// cache file is kept; the content counts as saved exactly where the copy was. A
/// record that was in conflict before goes to the copy at once. Another failure
/// marks the record as changed, or as erroneous where the cloud does not take its
/// name, and leaves it.
pub proof fn lemma_failed_upload_is_marked(
    f: FileRecord,
    cache: String,
    message: String,
    kept: bool,
)
    ensures
        ({
            let uploading = Recovery::Uploading { cache };
            let marked = uploading.followed(
                f,
                RecoveryEvent::UploadFailed { conflict: true, message },
            );
            let copying = marked.0.followed(f, RecoveryEvent::Marked);
            let failed = uploading.followed(
                f,
                RecoveryEvent::UploadFailed { conflict: false, message },
            );
            &&& marked.1 == (RecoveryOrder::Mark {
                id: f.metadata.remote_id,
                state: FileState::Conflict,
            })
            &&& copying.1 == (RecoveryOrder::Preserve { cache_path: cache })
            &&& copying.0.followed(f, RecoveryEvent::Preserved(kept)).1 == RecoveryOrder::Finish(
                kept,
            )
            &&& failed.1 == (RecoveryOrder::Mark {
                id: f.metadata.remote_id,
                state: if occurs(message@, "unsupported OneDrive file name"@) {
                    FileState::Error
                } else {
                    FileState::Dirty
                },
            })
            &&& failed.0.followed(f, RecoveryEvent::Marked).1 == RecoveryOrder::Finish(false)
        }),
        f.cache_path == Some(cache) && f.state is Conflict ==> ({
            let surveyed = Recovery::Surveying.followed(
                f,
                RecoveryEvent::Surveyed { pending_above: false, exists: true },
            );
            &&& surveyed.1 == (RecoveryOrder::Preserve { cache_path: cache })
            &&& surveyed.0.followed(f, RecoveryEvent::Preserved(kept)).1 == RecoveryOrder::Finish(
                kept,
            )
        }),
{
}

/// Where the upload cannot be recorded, what was uploaded is marked for deletion
/// and the work fails. It fails too where anything else outside does, and nothing
/// follows its end.
pub proof fn lemma_unrecorded_upload_fails(
    f: FileRecord,
    s: Recovery,
    uploaded: String,
    event: RecoveryEvent,
)
    ensures
        ({
            let failed = (Recovery::Committing { uploaded }).followed(
                f,
                RecoveryEvent::CommitFailed,
            );
            &&& failed.1 == (RecoveryOrder::Discard { item: uploaded, path: f.metadata.path })
            &&& failed.0.followed(f, RecoveryEvent::Discarded).1 == RecoveryOrder::Fail
        }),
        !(s is Ended) ==> s.followed(f, RecoveryEvent::Failed).1 == RecoveryOrder::Fail,
        Recovery::Ended.followed(f, event) == (Recovery::Ended, RecoveryOrder::Nothing),
{
}

/// A copy is kept under its own name, beside the original and as a new item; then
/// the original is asked for, and once the cloud has both they are recorded and
/// the original's content is given up. The copy is what is handed back. An
/// original that the cloud never knew, or knows no more, keeps its content.
pub proof fn lemma_copy_is_kept(
    f: FileRecord,
    cache: Seq<char>,
    modified: Option<u64>,
    copy: MetadataEntry,
    latest: MetadataEntry,
    dated: (Preserving, PreserveOrder),
    up: (Preserving, PreserveOrder),
    asked: (Preserving, PreserveOrder),
    gone: (Preserving, PreserveOrder),
    done: (Preserving, PreserveOrder),
)
    requires
        Preserving::Dating.follows(f, cache, PreserveEvent::Dated(modified), dated),
        dated.0.follows(f, cache, PreserveEvent::Uploaded(copy), up),
        up.0.follows(f, cache, PreserveEvent::Latest(Some(latest)), asked),
        up.0.follows(f, cache, PreserveEvent::Latest(None), gone),
        asked.0.follows(f, cache, PreserveEvent::Recorded, done),
    ensures
        dated.1 matches PreserveOrder::Upload { parent, name, cache_path, remote_id, etag } && {
            &&& parent == f.metadata.parent_path
            &&& name@ == conflict_name(
                f.metadata.name@,
                match modified {
                    Some(t) => t as nat,
                    None => if f.metadata.modified_unix > 0 {
                        f.metadata.modified_unix as nat
                    } else {
                        0
                    },
                },
                f.metadata.remote_id@,
            )
            &&& cache_path@ == cache
            &&& remote_id is None
            &&& etag is None
        },
        f.cloud_remote_id is None ==> up.1 == PreserveOrder::LocalOnly && up.0 is Ended,
        f.cloud_remote_id matches Some(id) ==> {
            &&& up.1 == PreserveOrder::Ask(id)
            &&& asked.1 matches PreserveOrder::Record { copy: c, cache_path, latest: l, id: own }
            &&& c == copy
            &&& cache_path@ == cache
            &&& l == latest
            &&& own == f.metadata.remote_id
            &&& gone.1 == PreserveOrder::Disappeared
            &&& done.1 == PreserveOrder::Kept(copy)
        },
{
}

/// The first failure among the records that were worked on ends the whole; without
/// one, those whose content is in the cloud are counted.
pub proof fn lemma_recovered_records(list: Seq<Recovered>)
    ensures
        first_failure(list) is None <==> forall|i: int|
            0 <= i < list.len() ==> !(#[trigger] list[i] is Failed),
        first_failure(list) matches Some(e) ==> exists|i: int|
            0 <= i < list.len() && #[trigger] list[i] == Recovered::Failed(e) && forall|j: int|
                0 <= j < i ==> !(#[trigger] list[j] is Failed),
        recovered_count(list) == list.filter(|r: Recovered| r == Recovered::Content(true)).len(),
    decreases list.len(),
{
    reveal(Seq::filter);
    if list.len() > 0 {
        let less = list.drop_last();
        lemma_recovered_records(less);
        assert forall|i: int| 0 <= i < less.len() implies #[trigger] list[i] == less[i] by {}
        let last = list.len() - 1;
        match first_failure(less) {
            Some(e) => {
                let i = choose|i: int|
                    0 <= i < less.len() && #[trigger] less[i] == Recovered::Failed(e) && forall|
                        j: int,
                    |
                        0 <= j < i ==> !(#[trigger] less[j] is Failed);
                assert(list[i] == Recovered::Failed(e));
                assert forall|j: int| 0 <= j < i implies !(#[trigger] list[j] is Failed) by {
                    assert(!(less[j] is Failed));
                }
            },
            None => {
                assert forall|i: int| 0 <= i < last implies !(#[trigger] list[i] is Failed) by {
                    assert(!(less[i] is Failed));
                }
                if list[last] is Failed {
                    assert(first_failure(list) is Some);
                } else {
                    assert(first_failure(list) is None);
                }
            },
        }
    }
}

/// A deletion is made in the cloud unless the cloud never knew the item; then its
/// cache file is removed, if there is one; and only then is it struck off. Where
/// the cloud does not delete the item it goes on waiting, and where the cache file
/// cannot be removed the whole fails.
pub proof fn lemma_deletion_is_carried_out(id: Seq<char>, has_cache: bool)
    ensures
        ({
            let local = id.len() >= 13 && id.take(13) == "local-upload-"@;
            let begun = deletion_begins(id, has_cache);
            let deleted = if local {
                begun
            } else {
                begun.0.followed(has_cache, DeleteEvent::Deleted(true))
            };
            let removed = if has_cache {
                deleted.0.followed(has_cache, DeleteEvent::Removed(true))
            } else {
                deleted
            };
            &&& !local ==> begun.1 == DeleteOrder::DeleteRemote && begun.0.followed(
                has_cache,
                DeleteEvent::Deleted(false),
            ).1 == DeleteOrder::Keep
            &&& has_cache ==> deleted.1 == DeleteOrder::RemoveCache && deleted.0.followed(
                has_cache,
                DeleteEvent::Removed(false),
            ).1 == DeleteOrder::Fail
            &&& removed.1 == DeleteOrder::Strike
            &&& removed.0.followed(has_cache, DeleteEvent::Struck).1 == DeleteOrder::Done
        }),
        deletion_end(DeleteOrder::Done) == Ended::Done,
        deletion_end(DeleteOrder::Keep) == Ended::Left,
        deletion_end(DeleteOrder::Fail) == Ended::Failed,
{
    reveal_strlit("local-upload-");
}

/// A change of a name or place is made while the record still has that place and
/// nothing above it waits: a directory is made at the path, or the cloud's item
/// moved to it; what the cloud answers is recorded, and the change is made exactly
/// where that was. A directory that could not be made may be there already, and
/// only a directory counts.
pub proof fn lemma_change_is_carried_out(
    operation: PendingMetadata,
    f: FileRecord,
    entry: MetadataEntry,
    done: bool,
)
    requires
        f.metadata.path@ == operation.path@,
    ensures
        operation.create_folder ==> ({
            let begun = change_begins(operation, Some(f), false);
            let made = begun.0.followed(operation, ChangeEvent::Changed(Some(entry)));
            let unmade = begun.0.followed(operation, ChangeEvent::Changed(None));
            let found = unmade.0.followed(operation, ChangeEvent::Found(Some(entry)));
            &&& begun.1 == ChangeOrder::CreateFolder(operation.path)
            &&& made.1 == ChangeOrder::Complete(entry)
            &&& made.0.followed(operation, ChangeEvent::Completed(done)).1 == ChangeOrder::Finish(
                done,
            )
            &&& unmade.1 == ChangeOrder::LookUp(operation.path)
            &&& entry.is_dir ==> found.1 == ChangeOrder::Complete(entry) && found.0.followed(
                operation,
                ChangeEvent::Completed(done),
            ).1 == ChangeOrder::Finish(done)
            &&& !entry.is_dir ==> found.1 == ChangeOrder::Fail
            &&& unmade.0.followed(operation, ChangeEvent::Found(None)).1 == ChangeOrder::Fail
        }),
        !operation.create_folder && f.cloud_remote_id is Some ==> ({
            let begun = change_begins(operation, Some(f), false);
            let moved = begun.0.followed(operation, ChangeEvent::Changed(Some(entry)));
            &&& begun.1 == ChangeOrder::Move(f.cloud_remote_id->0, operation.path)
            &&& moved.1 == ChangeOrder::Complete(entry)
            &&& moved.0.followed(operation, ChangeEvent::Completed(done)).1 == ChangeOrder::Finish(
                done,
            )
            &&& begun.0.followed(operation, ChangeEvent::Changed(None)).1 == ChangeOrder::Fail
        }),
        !operation.create_folder && f.cloud_remote_id is None ==> change_begins(
            operation,
            Some(f),
            false,
        ).1 == ChangeOrder::Fail,
{
}

/// A change of an item that is gone, or is elsewhere by now, or below another
/// change that waits, is not made; and a failure outside leaves it waiting.
pub proof fn lemma_change_is_left(
    operation: PendingMetadata,
    f: FileRecord,
    pending_above: bool,
    s: Changing,
)
    ensures
        change_begins(operation, None, pending_above).1 == ChangeOrder::Finish(false),
        f.metadata.path@ != operation.path@ || pending_above ==> change_begins(
            operation,
            Some(f),
            pending_above,
        ).1 == ChangeOrder::Finish(false),
        !(s is Ended) ==> s.followed(operation, ChangeEvent::Failed).1 == ChangeOrder::Fail,
{
}

/// What is recorded of a local change outlasts what the cloud says, and content is
/// where the record says: exactly in these states.
pub proof fn lemma_states_tell(f: FileRecord, flag: bool)
    ensures
        protects(f, flag) <==> f.state is Writing || f.state is Dirty || f.state is Uploading
            || flag,
        awaits_upload(f.state) <==> unsaved(f.state),
        cached(f, flag) <==> (f.state is Cached || f.state is Pinned || f.state is Writing
            || f.state is Dirty || f.state is Uploading) && f.cache_path is Some && flag,
        lacks_pinned_content(f, flag) <==> !f.metadata.is_dir && f.effective_pinned && (
        f.cache_path is None || !flag),
{
}

/// The name of a cache file is the identifier with everything but letters, digits,
/// hyphens and underscores replaced by an underscore.
pub proof fn lemma_cache_name_replaces(id: Seq<char>, i: int)
    requires
        0 <= i < id.len(),
    ensures
        cache_name(id).len() == id.len(),
        cache_name(id)[i] == if ('a' <= id[i] && id[i] <= 'z') || ('A' <= id[i] && id[i] <= 'Z')
            || ('0' <= id[i] && id[i] <= '9') || id[i] == '-' || id[i] == '_' {
            id[i]
        } else {
            '_'
        },
{
}

/// A text that was cut to a number of bytes is the longest beginning of it that
/// fits: it fits, and one more character would not.
pub proof fn lemma_cut_text_is_longest(s: Seq<char>, max: nat)
    ensures
        encode_utf8(fitting(s, max)).len() <= max,
        fitting(s, max).len() <= s.len(),
        fitting(s, max) == s.take(fitting(s, max).len() as int),
        fitting(s, max).len() < s.len() ==> encode_utf8(
            s.take(fitting(s, max).len() + 1int),
        ).len() > max,
    decreases s.len(),
{
    if s.len() == 0 {
        assert(encode_utf8(s).len() == 0);
        assert(s.take(0) =~= s);
    } else if encode_utf8(s).len() <= max {
        assert(s.take(s.len() as int) =~= s);
    } else {
        let less = s.drop_last();
        lemma_cut_text_is_longest(less, max);
        let n = fitting(less, max).len();
        assert(less.take(n as int) =~= s.take(n as int));
        if n < less.len() {
            assert(less.take(n + 1int) =~= s.take(n + 1int));
        } else {
            assert(s.take(n + 1int) =~= s);
        }
    }
}

/// The extension of a name begins at its last dot that is not its first character.
proof fn lemma_extension_at(stem: Seq<char>, extension: Seq<char>)
    requires
        forall|i: int| 0 < i < extension.len() ==> (#[trigger] extension[i]) != '.',
        extension.len() > 0 ==> extension[0] == '.' && stem.len() > 0,
        extension.len() == 0 ==> forall|i: int| 0 < i < stem.len() ==> #[trigger] stem[i] != '.',
    ensures
        extension_at(stem + extension) == if extension.len() > 0 {
            stem.len() as int
        } else {
            -1
        },
    decreases stem.len() + extension.len(),
{
    let name = stem + extension;
    if extension.len() > 1 {
        assert(name.drop_last() =~= stem + extension.drop_last());
        assert(name.last() == extension[extension.len() - 1]);
        lemma_extension_at(stem, extension.drop_last());
    } else if extension.len() == 1 {
        assert(name.last() == '.');
    } else {
        assert(name =~= stem);
        if stem.len() > 1 {
            assert(name.last() == stem[stem.len() - 1]);
            assert(name.drop_last() =~= stem.drop_last() + extension);
            lemma_extension_at(stem.drop_last(), extension);
        }
    }
}

/// The name of a copy is that of the item with a mark before the extension, where
/// all of it fits: the mark holds the time of the change and the fingerprint of
/// the identifier, so that the copy is known by its name.
pub proof fn lemma_conflict_name_marks_the_name(
    stem: Seq<char>,
    extension: Seq<char>,
    modified: nat,
    id: Seq<char>,
)
    requires
        forall|i: int| 0 < i < extension.len() ==> (#[trigger] extension[i]) != '.',
        extension.len() > 0 ==> extension[0] == '.' && stem.len() > 0,
        extension.len() == 0 ==> forall|i: int| 0 < i < stem.len() ==> #[trigger] stem[i] != '.',
        encode_utf8(extension).len() <= 32,
        encode_utf8(stem).len() + encode_utf8(
            " (TwoDrive conflict "@ + decimal(modified) + "-"@ + eight_digits(
                fingerprint_of(encode_utf8(id)),
            ) + ")"@,
        ).len() + encode_utf8(extension).len() <= 240,
    ensures
        conflict_name(stem + extension, modified, id) == stem + (" (TwoDrive conflict "@ + decimal(
            modified,
        ) + "-"@ + eight_digits(fingerprint_of(encode_utf8(id))) + ")"@) + extension,
{
    let name = stem + extension;
    lemma_extension_at(stem, extension);
    if extension.len() > 0 {
        assert(name.take(stem.len() as int) =~= stem);
        assert(name.skip(stem.len() as int) =~= extension);
    } else {
        assert(name =~= stem);
        assert(extension =~= Seq::empty());
    }
    assert(fitting(extension, 32) == extension);
    assert(encode_utf8(stem).len() <= less(
        less(240, encode_utf8(conflict_mark(modified, id)).len() as int),
        encode_utf8(extension).len() as int,
    ));
}

/// The fingerprint of an identifier is its FNV-1a hash, in eight hexadecimal
/// digits.
pub proof fn lemma_fingerprint_is_fnv(bytes: Seq<u8>, b: u8, n: u32)
    ensures
        fingerprint_of(Seq::<u8>::empty()) == 2166136261,
        fingerprint_of(bytes.push(b)) == ((fingerprint_of(bytes) ^ (b as u32)) as int) * 16777619
            % 4294967296,
        unhex(eight_digits(n)) matches Some(d) && d.len() == 4 && n == 16777216 * d[0] + 65536
            * d[1] + 256 * d[2] + d[3],
{
    assert(bytes.push(b).drop_last() =~= bytes);
    lemma_unhex_hex(
        seq![
            (n / 16777216) as u8,
            (n / 65536 % 256) as u8,
            (n / 256 % 256) as u8,
            (n % 256) as u8,
        ],
    );
}

/// Ending an activity takes its entries out of the list and no others; entries
/// that were not touched for six hours, or never, go; the rest stays in order.
pub proof fn lemma_activities_are_taken_out(list: Seq<Activity>, id: Seq<char>, now: i64)
    ensures
        without(list, id) == list.filter(|a: Activity| !(a.id is Some && a.id->0@ == id)),
        fresh(list, now) == list.filter(
            |a: Activity| a.updated_unix is Some && now - a.updated_unix->0 < 6 * 60 * 60,
        ),
    decreases list.len(),
{
    reveal(Seq::filter);
    if list.len() > 0 {
        lemma_activities_are_taken_out(list.drop_last(), id, now);
    }
}

/// Progress is what was done and when; the total stays where none is told, and
/// everything else does.
pub proof fn lemma_progress_is_noted(a: Activity, done: u64, total: Option<u64>, now: i64)
    ensures
        ({
            let b = progressed(a, done, total, now);
            &&& b.bytes_done == Some(done)
            &&& b.updated_unix == Some(now)
            &&& total is Some ==> b.bytes_total == total
            &&& total is None ==> b.bytes_total == a.bytes_total
            &&& b.id == a.id && b.rest == a.rest
        }),
{
}

/// Progress is told after a mebibyte or three quarters of a second, and when all
/// is done; else it is not.
pub proof fn lemma_progress_is_told(g: ActivityGuard, done: u64, total: Option<u64>, now: u128)
    ensures
        g.last_bytes_done + 1048576 <= done ==> progress_due(g, done, total, now),
        g.last_update + 750_000_000 <= now ==> progress_due(g, done, total, now),
        total is Some && done >= total->0 ==> progress_due(g, done, total, now),
        done < u64::MAX && done < g.last_bytes_done + 1048576 && now < g.last_update + 750_000_000
            && (total is None || done < total->0) ==> !progress_due(g, done, total, now),
{
}

/// A probe opens for reading only, without touching the time of access, from one
/// of two programs.
pub proof fn lemma_probe_is_known(flags: i32, executable: Option<Seq<char>>)
    ensures
        gio_probe(flags, executable) <==> flags & 3 == 0 && flags & 262144 != 0 && (executable
            == Some("gio"@) || executable == Some("nautilus"@)),
{
}

/// A process makes previews or indexes exactly where one of these words occurs in
/// its command line, or where it is an office program that converts.
pub proof fn lemma_indexers_are_known(process: Seq<char>)
    ensures
        thumbnails_or_indexes(process) <==> {
            ||| exists|i: int|
                0 <= i < indexer_words().len() && occurs(process, #[trigger] indexer_words()[i])
            ||| (occurs(process, "soffice"@) || occurs(process, "libreoffice"@)) && (occurs(
                process,
                "--headless"@,
            ) || occurs(process, "--convert-to"@))
        },
{
    let words = indexer_words();
    assert(words.len() == 11);
    if thumbnails_or_indexes(process) {
        assert(words[0] == "thumbnail"@ && words[1] == "thumbnailer"@);
        assert(words[2] == "tracker-extract"@ && words[3] == "tracker-miner"@);
        assert(words[4] == "tracker3"@ && words[5] == "localsearch"@);
        assert(words[6] == "evince-thumbnailer"@ && words[7] == "ffmpegthumbnailer"@);
        assert(words[8] == "totem-video-thumbnailer"@ && words[9] == "gdk-pixbuf-thumbnailer"@);
        assert(words[10] == "gnome-epub-thumbnailer"@);
    }
}

/// The words that tell programs that make previews or indexes.
pub open spec fn indexer_words() -> Seq<Seq<char>> {
    seq![
        "thumbnail"@,
        "thumbnailer"@,
        "tracker-extract"@,
        "tracker-miner"@,
        "tracker3"@,
        "localsearch"@,
        "evince-thumbnailer"@,
        "ffmpegthumbnailer"@,
        "totem-video-thumbnailer"@,
        "gdk-pixbuf-thumbnailer"@,
        "gnome-epub-thumbnailer"@,
    ]
}

/// The arguments of a command line are told apart by blanks.
pub proof fn lemma_arguments_are_blanked(s: Seq<char>, i: int)
    requires
        0 <= i < s.len(),
    ensures
        blanked(s).len() == s.len(),
        blanked(s)[i] == if s[i] == '\0' {
            ' '
        } else {
            s[i]
        },
{
}

} // verus!
