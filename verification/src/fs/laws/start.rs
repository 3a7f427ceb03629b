//! What is taken up again when the programs start.

use crate::fs::activity::{entry_at, Activity};
use crate::fs::hydration::Seen;
use crate::fs::inodes::{holder, listing, InodeView};
use crate::fs::laws::content::{in_cache, unsaved};
use crate::fs::listings::{has_path, is_last_of_path, table_of, under};
use crate::fs::record::FileRecord;
use crate::fs::recovery::{
    change_commands, delete_commands, has_command, needs_work, record_commands,
};
use crate::fs::upload_queue::UploadCommand;
use crate::text::option_text;
use vstd::prelude::*;

verus! {

/// The cloud lacks the content of a record, or the cache lacks pinned content.
pub open spec fn lacking(s: Seen) -> bool {
    unsaved(s.record.state) || (!s.record.metadata.is_dir && s.record.effective_pinned && !in_cache(
        s.record,
        s.exists,
    ))
}

/// A command is to upload an item.
pub open spec fn brings(command: UploadCommand, id: Seq<char>) -> bool {
    command matches UploadCommand::Upload(x) && x@ == id
}

proof fn lemma_record_commands(operations: Seq<String>, seen: Seq<Seen>)
    ensures
        ({
            let c = record_commands(operations, seen);
            &&& forall|i: int|
                0 <= i < c.len() ==> #[trigger] c[i] is Upload && (exists|j: int|
                    0 <= j < seen.len() && lacking(#[trigger] seen[j]) && brings(
                        c[i],
                        seen[j].record.metadata.remote_id@,
                    ))
            &&& forall|i: int, k: int|
                0 <= i < c.len() && 0 <= k < operations.len() ==> !brings(
                    #[trigger] c[i],
                    (#[trigger] operations[k])@,
                )
            &&& forall|i: int, k: int|
                0 <= i < k < c.len() ==> (#[trigger] c[i])->Upload_0@ != (
                #[trigger] c[k])->Upload_0@
            &&& forall|j: int|
                0 <= j < seen.len() && lacking(#[trigger] seen[j]) ==> (exists|k: int|
                    0 <= k < operations.len() && #[trigger] operations[k]@
                        == seen[j].record.metadata.remote_id@) || (exists|i: int|
                    0 <= i < c.len() && #[trigger] brings(
                        c[i],
                        seen[j].record.metadata.remote_id@,
                    ))
        }),
    decreases seen.len(),
{
    if seen.len() > 0 {
        let less = seen.drop_last();
        let s = seen.last();
        let id = s.record.metadata.remote_id@;
        let before = record_commands(operations, less);
        let c = record_commands(operations, seen);
        lemma_record_commands(operations, less);
        assert(forall|x: Seen| #[trigger] needs_work(x) == lacking(x));
        let added = needs_work(s) && !has_command(operations, less, id);
        assert forall|i: int| 0 <= i < c.len() implies #[trigger] c[i] is Upload && (exists|j: int|
            0 <= j < seen.len() && lacking(#[trigger] seen[j]) && brings(
                c[i],
                seen[j].record.metadata.remote_id@,
            )) by {
            if i < before.len() {
                assert(c[i] == before[i]);
                let j = choose|j: int|
                    0 <= j < less.len() && lacking(#[trigger] less[j]) && brings(
                        before[i],
                        less[j].record.metadata.remote_id@,
                    );
                assert(seen[j] == less[j]);
            } else {
                assert(seen[seen.len() - 1] == s);
                assert(needs_work(s));
            }
        }
        assert forall|i: int, k: int| 0 <= i < c.len() && 0 <= k < operations.len() implies !brings(
            #[trigger] c[i],
            (#[trigger] operations[k])@,
        ) by {
            if i < before.len() {
                assert(c[i] == before[i]);
            }
        }
        assert forall|i: int, k: int| 0 <= i < k < c.len() implies (#[trigger] c[i])->Upload_0@ != (
        #[trigger] c[k])->Upload_0@ by {
            assert(c[i] == before[i]);
            if k < before.len() {
                assert(c[k] == before[k]);
            } else {
                let j = choose|j: int|
                    0 <= j < less.len() && lacking(#[trigger] less[j]) && brings(
                        before[i],
                        less[j].record.metadata.remote_id@,
                    );
                assert(needs_work(less[j]));
            }
        }
        assert forall|j: int| 0 <= j < seen.len() && lacking(#[trigger] seen[j]) implies (exists|
            k: int,
        |
            0 <= k < operations.len() && #[trigger] operations[k]@
                == seen[j].record.metadata.remote_id@) || (exists|i: int|
            0 <= i < c.len() && #[trigger] brings(c[i], seen[j].record.metadata.remote_id@)) by {
            let wanted = seen[j].record.metadata.remote_id@;
            if !(exists|k: int| 0 <= k < operations.len() && #[trigger] operations[k]@ == wanted) {
                if j == seen.len() - 1 && added {
                    assert(brings(c[before.len() as int], wanted));
                } else {
                    let n = if j < less.len() {
                        j
                    } else {
                        assert(needs_work(seen[j]));
                        choose|n: int|
                            0 <= n < less.len() && #[trigger] needs_work(less[n])
                                && less[n].record.metadata.remote_id@ == id
                    };
                    assert(less[n] == seen[n]);
                    assert(needs_work(less[n]));
                    assert(lacking(less[n]));
                    let i = choose|i: int| 0 <= i < before.len() && #[trigger] brings(before[i], wanted);
                    assert(c[i] == before[i]);
                    assert(brings(c[i], wanted));
                }
            }
        }
    }
}

/// What is taken up again: first the deletions that wait, then the changes of name
/// or place that wait, each in its order, and then an upload of each item whose
/// content the cloud lacks, or whose pinned content the cache lacks, and of nothing
/// else. No such item is left out, and none is uploaded twice.
pub proof fn lemma_work_is_taken_up_again(
    deletes: Seq<String>,
    operations: Seq<String>,
    seen: Seq<Seen>,
    r: Seq<UploadCommand>,
)
    requires
        r == delete_commands(deletes) + change_commands(operations) + record_commands(
            operations,
            seen,
        ),
    ensures
        r.len() >= deletes.len() + operations.len(),
        forall|i: int|
            0 <= i < deletes.len() ==> #[trigger] r[i] == UploadCommand::Delete(deletes[i]),
        forall|i: int|
            deletes.len() <= i < deletes.len() + operations.len() ==> #[trigger] r[i]
                == UploadCommand::Upload(operations[i - deletes.len()]),
        forall|i: int|
            deletes.len() + operations.len() <= i < r.len() ==> #[trigger] r[i] is Upload && (
            exists|j: int|
                0 <= j < seen.len() && lacking(#[trigger] seen[j]) && brings(
                    r[i],
                    seen[j].record.metadata.remote_id@,
                )),
        forall|i: int, k: int|
            deletes.len() <= k < i < r.len() && deletes.len() + operations.len() <= i ==> (
            #[trigger] r[k])->Upload_0@ != (#[trigger] r[i])->Upload_0@,
        forall|j: int|
            0 <= j < seen.len() && lacking(#[trigger] seen[j]) ==> exists|i: int|
                deletes.len() <= i < r.len() && #[trigger] brings(
                    r[i],
                    seen[j].record.metadata.remote_id@,
                ),
{
    lemma_record_commands(operations, seen);
    let c = record_commands(operations, seen);
    let n = deletes.len() + operations.len();
    assert forall|i: int| n <= i < r.len() implies #[trigger] r[i] == c[i - n] by {}
    assert forall|i: int, k: int|
        deletes.len() <= k < i < r.len() && n <= i implies (#[trigger] r[k])->Upload_0@ != (
    #[trigger] r[i])->Upload_0@ by {
        assert(r[i] == c[i - n]);
        if k < n {
            assert(!brings(c[i - n], operations[k - deletes.len()]@));
        } else {
            assert(r[k] == c[k - n]);
        }
    }
    assert forall|j: int| 0 <= j < seen.len() && lacking(#[trigger] seen[j]) implies exists|i: int|
        deletes.len() <= i < r.len() && #[trigger] brings(
            r[i],
            seen[j].record.metadata.remote_id@,
        ) by {
        let id = seen[j].record.metadata.remote_id@;
        if exists|k: int| 0 <= k < operations.len() && #[trigger] operations[k]@ == id {
            let k = choose|k: int| 0 <= k < operations.len() && #[trigger] operations[k]@ == id;
            assert(brings(r[deletes.len() + k], id));
        } else {
            let i = choose|i: int| 0 <= i < c.len() && #[trigger] brings(c[i], id);
            assert(r[n + i] == c[i]);
            assert(brings(r[n + i], id));
        }
    }
}

/// Progress is written into the first entry of a transfer, and there is one as soon
/// as any entry is the transfer's.
pub proof fn lemma_first_entry(list: Seq<Activity>, id: Seq<char>, i: int, j: int)
    requires
        0 <= j < list.len(),
        list[j].id matches Some(t) && t@ == id,
    ensures
        entry_at(list, id, i) ==> {
            &&& 0 <= i <= j
            &&& list[i].id matches Some(t) && t@ == id
        },
        exists|k: int| entry_at(list, id, k),
    decreases j,
{
    if forall|k: int| 0 <= k < j ==> option_text((#[trigger] list[k]).id) != Some(id) {
        assert(entry_at(list, id, j));
    } else {
        let k = choose|k: int|
            0 <= k < j && option_text((#[trigger] list[k]).id) == Some(id);
        lemma_first_entry(list, id, i, k);
    }
}

/// Where an entry is the first of a transfer it is the transfer's, and none before
/// it is.
pub proof fn lemma_entry_of_a_transfer(list: Seq<Activity>, id: Seq<char>, i: int, j: int)
    requires
        entry_at(list, id, i),
    ensures
        0 <= i < list.len(),
        list[i].id matches Some(t) && t@ == id,
        0 <= j < i ==> !(list[j].id matches Some(t) && t@ == id),
{
    if 0 <= j < i {
        assert(option_text(list[j].id) != Some(id));
    }
}

proof fn lemma_under(inos: Map<Seq<char>, u64>, records: Seq<FileRecord>, dir: u64)
    requires
        records.len() + 2 <= u64::MAX,
    ensures
        ({
            let u = under(inos, records, dir);
            &&& forall|k: int|
                0 <= k < u.len() ==> {
                    &&& 2 <= (#[trigger] u[k]).ino < 2 + records.len()
                    &&& u[k].path == records[u[k].ino - 2].metadata.path
                    &&& holder(inos, u[k].path@) == dir
                }
            &&& forall|k: int, l: int|
                0 <= k < l < u.len() ==> (#[trigger] u[k]).ino < (#[trigger] u[l]).ino
            &&& forall|i: int|
                0 <= i < records.len() && holder(inos, (#[trigger] records[i]).metadata.path@)
                    == dir ==> exists|k: int| 0 <= k < u.len() && (#[trigger] u[k]).ino == i + 2
        }),
    decreases records.len(),
{
    if records.len() > 0 {
        let less = records.drop_last();
        let before = under(inos, less, dir);
        let u = under(inos, records, dir);
        lemma_under(inos, less, dir);
        assert forall|k: int| 0 <= k < u.len() implies {
            &&& 2 <= (#[trigger] u[k]).ino < 2 + records.len()
            &&& u[k].path == records[u[k].ino - 2].metadata.path
            &&& holder(inos, u[k].path@) == dir
        } by {
            if k < before.len() {
                assert(u[k] == before[k]);
            }
        }
        assert forall|k: int, l: int| 0 <= k < l < u.len() implies (#[trigger] u[k]).ino < (
        #[trigger] u[l]).ino by {
            assert(u[k] == before[k]);
            if l < before.len() {
                assert(u[l] == before[l]);
            }
        }
        assert forall|i: int|
            0 <= i < records.len() && holder(inos, (#[trigger] records[i]).metadata.path@)
                == dir implies exists|k: int| 0 <= k < u.len() && (#[trigger] u[k]).ino == i + 2 by {
            if i < less.len() {
                assert(less[i] == records[i]);
                let k = choose|k: int|
                    0 <= k < before.len() && (#[trigger] before[k]).ino == i + 2;
                assert(u[k] == before[k]);
            } else {
                assert(u[before.len() as int].ino == i + 2);
            }
        }
    }
}

/// A new table numbers its records one after another from two on, the topmost
/// directory being one. The path of a record stands for its number where no later
/// record has the same path; a path that is neither a record's nor the topmost
/// directory's stands for nothing.
pub proof fn lemma_new_table_numbers(v: InodeView, records: Seq<FileRecord>, i: int, path: Seq<char>)
    requires
        table_of(v, records),
        records.len() + 2 <= u64::MAX,
        0 <= i < records.len(),
    ensures
        v.next_ino == records.len() + 2,
        v.records.contains_key((i + 2) as u64),
        v.records[(i + 2) as u64] == records[i],
        v.paths[(i + 2) as u64] == records[i].metadata.path,
        v.paths[1]@ == "/"@,
        (forall|j: int|
            i < j < records.len() ==> (#[trigger] records[j]).metadata.path@
                != records[i].metadata.path@) ==> v.inos[records[i].metadata.path@] == i + 2,
        path != "/"@ && (forall|j: int|
            0 <= j < records.len() ==> (#[trigger] records[j]).metadata.path@ != path)
            ==> !v.inos.contains_key(path),
        (forall|j: int|
            0 <= j < records.len() ==> (#[trigger] records[j]).metadata.path@ != "/"@)
            ==> v.inos["/"@] == 1,
{
    if forall|j: int|
        i < j < records.len() ==> (#[trigger] records[j]).metadata.path@
            != records[i].metadata.path@ {
        assert(is_last_of_path(records, i));
    }
    assert(!(exists|j: int|
        0 <= j < records.len() && (#[trigger] records[j]).metadata.path@ == path) ==> !has_path(
        records,
        path,
    ));
    assert(v.records.contains_key((i + 2) as u64));
    assert(v.records[(i + 2) as u64] == records[i]);
}

/// What a directory of a new table lists are the records whose path lies in it, in
/// the order of their numbers, and nothing else.
pub proof fn lemma_new_table_lists(
    v: InodeView,
    records: Seq<FileRecord>,
    dir: u64,
    k: int,
    l: int,
    i: int,
)
    requires
        table_of(v, records),
        records.len() + 2 <= u64::MAX,
    ensures
        0 <= k < listing(v.children, dir).len() ==> {
            let c = listing(v.children, dir)[k];
            &&& 2 <= c.ino < 2 + records.len()
            &&& c.path == records[c.ino - 2].metadata.path
            &&& holder(v.inos, c.path@) == dir
        },
        0 <= k < l < listing(v.children, dir).len() ==> listing(v.children, dir)[k].ino < listing(
            v.children,
            dir,
        )[l].ino,
        0 <= i < records.len() && holder(v.inos, records[i].metadata.path@) == dir ==> exists|n: int|
            0 <= n < listing(v.children, dir).len() && (#[trigger] listing(v.children, dir)[n]).ino
                == i + 2,
{
    lemma_under(v.inos, records, dir);
    assert(listing(v.children, dir) == under(v.inos, records, dir));
}

} // verus!
