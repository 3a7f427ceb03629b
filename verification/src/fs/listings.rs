//! What holds of the listings of directories, whatever becomes known of the
//! items.
//!
//! An item whose directory is not known is listed in the topmost one, and stays
//! listed there when its directory becomes known. If it becomes better known
//! after that, it is listed in both. So that a number is listed once is kept by
//! each change as long as the item stands where its path says.

use super::inodes::{
    among, displaced, held, held_all, holder, inodes_sound, inserted, is_bare, is_place,
    lemma_named_sound, lemma_next_sound, lemma_without, listed_once, listing, named, noted_all,
    number_of, numbered, numbered_all, refreshed, removed, replaced, without, Child, InodeView,
    ROOT_INO,
};
use super::record::FileRecord;
use vstd::prelude::*;

verus! {

/// A number is in no directory.
pub open spec fn unlisted(v: InodeView, ino: u64) -> bool {
    forall|dir: u64| !among(#[trigger] listing(v.children, dir), ino)
}

/// A number is in no directory but one.
pub open spec fn listed_only_in(v: InodeView, ino: u64, home: u64) -> bool {
    forall|dir: u64| #[trigger] among(listing(v.children, dir), ino) ==> dir == home
}

/// The paths of records differ.
pub open spec fn distinct_paths(records: Seq<FileRecord>) -> bool {
    forall|i: int, j: int|
        0 <= i < records.len() && 0 <= j < records.len() && (
        #[trigger] records[i]).metadata.path@ == (#[trigger] records[j]).metadata.path@ ==> i == j
}

/// The number of a record of a new table.
pub open spec fn nth_ino(i: int) -> u64 {
    (ROOT_INO + 1 + i) as u64
}

/// A path is that of a record.
pub open spec fn has_path(records: Seq<FileRecord>, path: Seq<char>) -> bool {
    exists|i: int| 0 <= i < records.len() && (#[trigger] records[i]).metadata.path@ == path
}

/// No later record has the path of a record.
pub open spec fn is_last_of_path(records: Seq<FileRecord>, i: int) -> bool {
    forall|j: int|
        i < j < records.len() ==> (#[trigger] records[j]).metadata.path@
            != records[i].metadata.path@
}

/// The records that a directory holds, in their order.
pub open spec fn under(inos: Map<Seq<char>, u64>, records: Seq<FileRecord>, dir: u64) -> Seq<Child>
    decreases records.len(),
{
    if records.len() == 0 {
        Seq::empty()
    } else {
        let rest = under(inos, records.drop_last(), dir);
        let path = records.last().metadata.path;
        if holder(inos, path@) == dir {
            rest.push(Child { ino: nth_ino(records.len() - 1), path })
        } else {
            rest
        }
    }
}

/// Numbers, paths and records of a table of the records: each record has the
/// number of its place, counted from the one after the topmost directory's, and
/// its path stands for that number, unless a later record has the same path.
pub open spec fn numbers_of(v: InodeView, records: Seq<FileRecord>) -> bool {
    &&& v.next_ino == ROOT_INO + 1 + records.len()
    &&& forall|k: u64| #[trigger]
        v.paths.contains_key(k) <==> ROOT_INO <= k <= ROOT_INO + records.len()
    &&& forall|k: u64| #[trigger]
        v.records.contains_key(k) <==> ROOT_INO < k <= ROOT_INO + records.len()
    &&& v.paths[ROOT_INO]@ == "/"@
    &&& forall|i: int|
        0 <= i < records.len() ==> {
            &&& v.paths[nth_ino(i)] == (#[trigger] records[i]).metadata.path
            &&& v.records[nth_ino(i)] == records[i]
        }
    &&& forall|p: Seq<char>| #[trigger]
        v.inos.contains_key(p) <==> p == "/"@ || has_path(records, p)
    &&& !has_path(records, "/"@) ==> v.inos["/"@] == ROOT_INO
    &&& forall|i: int|
        0 <= i < records.len() && is_last_of_path(records, i) ==> v.inos[(
        #[trigger] records[i]).metadata.path@] == nth_ino(i)
}

/// A table is that of the records: they are numbered in their order, each
/// directory lists the records that it holds, in their order, and nothing else,
/// and no number is listed twice.
pub open spec fn table_of(v: InodeView, records: Seq<FileRecord>) -> bool {
    &&& numbers_of(v, records)
    &&& forall|dir: u64| #[trigger]
        listing(v.children, dir) == under(v.inos, records, dir)
    &&& listed_once(v)
}

proof fn lemma_place(v: InodeView, dir: u64, i: int)
    requires
        is_place(v, dir, i),
    ensures
        among(listing(v.children, dir), v.children[dir][i].ino),
{
    assert(listing(v.children, dir)[i].ino == v.children[dir][i].ino);
}

proof fn lemma_among(v: InodeView, dir: u64, ino: u64) -> (i: int)
    requires
        among(listing(v.children, dir), ino),
    ensures
        is_place(v, dir, i),
        v.children[dir][i].ino == ino,
{
    let list = listing(v.children, dir);
    choose|i: int| 0 <= i < list.len() && #[trigger] list[i].ino == ino
}

proof fn lemma_unknown_is_unlisted(v: InodeView, ino: u64)
    requires
        inodes_sound(v),
        !v.paths.contains_key(ino),
    ensures
        unlisted(v, ino),
{
    assert forall|dir: u64| !among(#[trigger] listing(v.children, dir), ino) by {
        if among(listing(v.children, dir), ino) {
            let i = lemma_among(v, dir, ino);
            assert(v.paths.contains_key(v.children[dir][i].ino));
        }
    }
}

proof fn lemma_held_once(v: InodeView, ino: u64, path: String)
    requires
        listed_once(v),
        unlisted(v, ino),
    ensures
        listed_once(held(v, ino, path)),
        among(listing(held(v, ino, path).children, holder(v.inos, path@)), ino),
        listed_only_in(held(v, ino, path), ino, holder(v.inos, path@)),
{
    let w = held(v, ino, path);
    let home = holder(v.inos, path@);
    let last = listing(v.children, home).len() as int;
    assert(listing(w.children, home)[last].ino == ino);
    assert forall|a: u64, i: int| is_place(w, a, i) && !(a == home && i == last) implies is_place(
        v,
        a,
        i,
    ) && #[trigger] w.children[a][i] == v.children[a][i] && w.children[a][i].ino != ino by {
        lemma_place(v, a, i);
        assert(!among(listing(v.children, a), ino));
    }
    assert forall|a: u64, i: int, b: u64, j: int|
        is_place(w, a, i) && is_place(w, b, j) && (#[trigger] w.children[a][i]).ino == (
        #[trigger] w.children[b][j]).ino implies a == b && i == j by {
        if !(a == home && i == last) && !(b == home && j == last) {
            assert(is_place(v, a, i) && is_place(v, b, j));
            assert(v.children[a][i].ino == v.children[b][j].ino);
        }
    }
    assert forall|dir: u64| #[trigger] among(listing(w.children, dir), ino) implies dir == home by {
        let i = lemma_among(w, dir, ino);
        assert(w.children[dir][i].ino == ino);
    }
}

proof fn lemma_displaced_once(v: InodeView, ino: u64)
    requires
        inodes_sound(v),
        listed_once(v),
        v.paths.contains_key(ino) ==> listed_only_in(v, ino, holder(v.inos, v.paths[ino]@)),
    ensures
        listed_once(displaced(v, ino)),
        unlisted(displaced(v, ino), ino),
{
    if !v.paths.contains_key(ino) {
        lemma_unknown_is_unlisted(v, ino);
    } else {
        let w = displaced(v, ino);
        let home = holder(v.inos, v.paths[ino]@);
        if v.children.contains_key(home) {
            let list = v.children[home];
            lemma_without(list, ino);
            assert forall|i: int, j: int|
                0 <= i < list.len() && 0 <= j < list.len() && (#[trigger] list[i]).ino == (
                #[trigger] list[j]).ino implies i == j by {
                assert(is_place(v, home, i) && is_place(v, home, j));
                assert(v.children[home][i].ino == v.children[home][j].ino);
            }
            assert forall|a: u64, i: int, b: u64, j: int|
                is_place(w, a, i) && is_place(w, b, j) && (#[trigger] w.children[a][i]).ino == (
                #[trigger] w.children[b][j]).ino implies a == b && i == j by {
                let (k, l) = (lemma_older(v, w, home, ino, a, i), lemma_older(v, w, home, ino, b, j));
                assert(v.children[a][k].ino == v.children[b][l].ino);
                if a == home {
                    assert(w.children[a][i] == without(list, ino)[i]);
                    assert(w.children[b][j] == without(list, ino)[j]);
                }
            }
        }
        assert forall|dir: u64| !among(#[trigger] listing(w.children, dir), ino) by {
            if among(listing(w.children, dir), ino) {
                let i = lemma_among(w, dir, ino);
                if dir == home {
                    assert(w.children[dir][i] == without(v.children[home], ino)[i]);
                    lemma_without(v.children[home], ino);
                } else {
                    assert(is_place(v, dir, i) && v.children[dir][i].ino == ino);
                    lemma_place(v, dir, i);
                }
            }
        }
    }
}

/// Where an item stood before another was taken out of a directory.
proof fn lemma_older(v: InodeView, w: InodeView, home: u64, ino: u64, dir: u64, i: int) -> (k: int)
    requires
        v.children.contains_key(home),
        w.children == v.children.insert(home, without(v.children[home], ino)),
        is_place(w, dir, i),
    ensures
        is_place(v, dir, k),
        v.children[dir][k] == w.children[dir][i],
        dir != home ==> k == i,
{
    if dir == home {
        let c = w.children[dir][i];
        lemma_without(v.children[home], ino);
        assert(without(v.children[home], ino)[i] == c);
        choose|k: int| 0 <= k < v.children[home].len() && v.children[home][k] == c
    } else {
        i
    }
}

/// Replacing what is known under a number lists the number once, in the
/// directory that its path names, and no number twice, as long as the number
/// stood in no other directory than the one that its former path names.
pub proof fn lemma_replace_lists_once(v: InodeView, ino: u64, record: FileRecord)
    requires
        inodes_sound(v),
        listed_once(v),
        v.paths.contains_key(ino) ==> listed_only_in(v, ino, holder(v.inos, v.paths[ino]@)),
    ensures
        ({
            let w = replaced(v, ino, record);
            let home = holder(w.inos, record.metadata.path@);
            &&& listed_once(w)
            &&& among(listing(w.children, home), ino)
            &&& listed_only_in(w, ino, home)
        }),
{
    lemma_displaced_once(v, ino);
    let m = named(displaced(v, ino), ino, record);
    assert(m.children == displaced(v, ino).children);
    lemma_same_listings(displaced(v, ino), m, ino);
    lemma_held_once(m, ino, record.metadata.path);
}

proof fn lemma_same_listings(v: InodeView, w: InodeView, ino: u64)
    requires
        v.children == w.children,
        listed_once(v),
        unlisted(v, ino),
    ensures
        listed_once(w),
        unlisted(w, ino),
{
    assert forall|a: u64, i: int, b: u64, j: int|
        is_place(w, a, i) && is_place(w, b, j) && (#[trigger] w.children[a][i]).ino == (
        #[trigger] w.children[b][j]).ino implies a == b && i == j by {
        assert(is_place(v, a, i) && is_place(v, b, j));
        assert(v.children[a][i].ino == v.children[b][j].ino);
    }
}

/// An item that becomes known, or better known, is listed once, in the directory
/// that its path names, and no number twice, as long as an item that was known
/// stood in no other directory than that.
pub proof fn lemma_insert_lists_once(v: InodeView, record: FileRecord)
    requires
        inodes_sound(v),
        listed_once(v),
        v.next_ino < u64::MAX,
        v.inos.contains_key(record.metadata.path@) ==> listed_only_in(
            v,
            v.inos[record.metadata.path@],
            holder(v.inos, record.metadata.path@),
        ),
    ensures
        ({
            let w = inserted(v, record);
            let ino = number_of(v, record.metadata.path@);
            let home = holder(w.inos, record.metadata.path@);
            &&& listed_once(w)
            &&& among(listing(w.children, home), ino)
            &&& listed_only_in(w, ino, home)
        }),
{
    let path = record.metadata.path@;
    if v.inos.contains_key(path) {
        lemma_replace_lists_once(v, v.inos[path], record);
    } else {
        let m = numbered(v, record);
        lemma_unknown_is_unlisted(v, v.next_ino);
        lemma_same_listings(v, m, v.next_ino);
        lemma_held_once(m, v.next_ino, record.metadata.path);
    }
}

/// A number that was forgotten is in no directory, and no number is listed twice.
pub proof fn lemma_remove_lists_once(v: InodeView, ino: u64)
    requires
        listed_once(v),
    ensures
        listed_once(removed(v, ino)),
        unlisted(removed(v, ino), ino),
{
    let w = removed(v, ino);
    assert forall|a: u64, i: int, b: u64, j: int|
        is_place(w, a, i) && is_place(w, b, j) && (#[trigger] w.children[a][i]).ino == (
        #[trigger] w.children[b][j]).ino implies a == b && i == j by {
        let (la, lb) = (v.children[a], v.children[b]);
        lemma_without(la, ino);
        lemma_without(lb, ino);
        assert(w.children[a] == without(la, ino) && w.children[b] == without(lb, ino));
        let k = choose|k: int| 0 <= k < la.len() && la[k] == w.children[a][i];
        let l = choose|l: int| 0 <= l < lb.len() && lb[l] == w.children[b][j];
        assert(la.contains(without(la, ino)[i]) && lb.contains(without(lb, ino)[j]));
        assert(is_place(v, a, k) && is_place(v, b, l));
        assert(v.children[a][k].ino == v.children[b][l].ino);
        assert forall|x: int, y: int|
            0 <= x < la.len() && 0 <= y < la.len() && (#[trigger] la[x]).ino == (
            #[trigger] la[y]).ino implies x == y by {
            assert(is_place(v, a, x) && is_place(v, a, y));
            assert(v.children[a][x].ino == v.children[a][y].ino);
        }
        assert(without(la, ino)[i].ino == without(la, ino)[j].ino);
    }
    assert forall|dir: u64| !among(#[trigger] listing(w.children, dir), ino) by {
        if among(listing(w.children, dir), ino) {
            let i = lemma_among(w, dir, ino);
            lemma_without(v.children[dir], ino);
            assert(w.children[dir] == without(v.children[dir], ino));
            assert(without(v.children[dir], ino)[i].ino == ino);
        }
    }
}

pub(crate) proof fn lemma_noted(v: InodeView, records: Seq<FileRecord>)
    requires
        inodes_sound(v),
        v.next_ino + records.len() <= u64::MAX,
    ensures
        inodes_sound(noted_all(v, records).0),
        v.next_ino <= noted_all(v, records).0.next_ino <= v.next_ino + records.len(),
        noted_all(v, records).0.children == v.children,
        noted_all(v, records).1.len() == records.len(),
        forall|p: Seq<char>| #[trigger]
            v.inos.contains_key(p) ==> noted_all(v, records).0.inos.contains_key(p) && noted_all(
                v,
                records,
            ).0.inos[p] == v.inos[p],
        forall|p: Seq<char>| #[trigger]
            noted_all(v, records).0.inos.contains_key(p) && !v.inos.contains_key(p) ==> noted_all(
                v,
                records,
            ).0.inos[p] >= v.next_ino,
        forall|i: int|
            0 <= i < records.len() ==> noted_all(v, records).0.inos.contains_key(
                (#[trigger] records[i]).metadata.path@,
            ) && noted_all(v, records).0.inos[records[i].metadata.path@] == noted_all(
                v,
                records,
            ).1[i].ino,
    decreases records.len(),
{
    if records.len() > 0 {
        let less = records.drop_last();
        let f = records.last();
        let path = f.metadata.path@;
        lemma_noted(v, less);
        let (m, rest) = noted_all(v, less);
        let (w, list) = noted_all(v, records);
        let ino = number_of(m, path);
        if m.inos.contains_key(path) {
            assert(m.paths.contains_key(ino));
            assert forall|p: Seq<char>| #[trigger]
                m.inos.contains_key(p) && m.inos[p] == ino implies p == path by {
                assert(m.paths[m.inos[p]]@ == p);
            }
            lemma_named_sound(m, ino, f);
        } else {
            lemma_next_sound(m);
            lemma_named_sound(InodeView { next_ino: (m.next_ino + 1) as u64, ..m }, ino, f);
        }
        assert forall|i: int| 0 <= i < records.len() implies w.inos.contains_key(
            (#[trigger] records[i]).metadata.path@,
        ) && w.inos[records[i].metadata.path@] == list[i].ino by {
            if i < rest.len() {
                assert(less[i] == records[i]);
                assert(list[i] == rest[i]);
                assert(m.inos.contains_key(less[i].metadata.path@));
            }
        }
        assert forall|p: Seq<char>| #[trigger] v.inos.contains_key(p) implies w.inos.contains_key(p)
            && w.inos[p] == v.inos[p] by {
            assert(m.inos.contains_key(p));
        }
        assert forall|p: Seq<char>| #[trigger]
            w.inos.contains_key(p) && !v.inos.contains_key(p) implies w.inos[p] >= v.next_ino by {
            if p != path {
                assert(m.inos.contains_key(p));
            }
        }
    }
}

/// Listing a directory anew lists no number twice, as long as the records have
/// different paths and none that was known stood in another directory.
pub proof fn lemma_refresh_lists_once(v: InodeView, parent: Seq<char>, records: Seq<FileRecord>)
    requires
        inodes_sound(v),
        listed_once(v),
        v.next_ino + records.len() <= u64::MAX,
        distinct_paths(records),
        v.inos.contains_key(parent),
        forall|i: int|
            0 <= i < records.len() && v.inos.contains_key((
            #[trigger] records[i]).metadata.path@) ==> listed_only_in(
                v,
                v.inos[records[i].metadata.path@],
                v.inos[parent],
            ),
    ensures
        listed_once(refreshed(v, parent, records)),
{
    let dir = v.inos[parent];
    let (m, list) = noted_all(v, records);
    let w = refreshed(v, parent, records);
    lemma_noted(v, records);
    assert(w.children == v.children.insert(dir, list));
    assert forall|i: int, j: int|
        0 <= i < list.len() && 0 <= j < list.len() && (#[trigger] list[i]).ino == (
        #[trigger] list[j]).ino implies i == j by {
        assert(m.paths[m.inos[records[i].metadata.path@]]@ == records[i].metadata.path@);
        assert(m.paths[m.inos[records[j].metadata.path@]]@ == records[j].metadata.path@);
    }
    assert forall|a: u64, i: int, k: int|
        a != dir && is_place(w, a, i) && 0 <= k < list.len() implies (
    #[trigger] w.children[a][i]).ino != (#[trigger] list[k]).ino by {
        assert(is_place(v, a, i));
        assert(v.paths.contains_key(v.children[a][i].ino));
        let p = records[k].metadata.path@;
        assert(m.inos.contains_key(p) && m.inos[p] == list[k].ino);
        if v.inos.contains_key(p) {
            lemma_place(v, a, i);
            assert(listed_only_in(v, v.inos[p], dir));
        }
    }
    assert forall|a: u64, i: int, b: u64, j: int|
        is_place(w, a, i) && is_place(w, b, j) && (#[trigger] w.children[a][i]).ino == (
        #[trigger] w.children[b][j]).ino implies a == b && i == j by {
        if a == dir && b == dir {
            assert(w.children[a][i] == list[i] && w.children[b][j] == list[j]);
        } else if a == dir {
            assert(w.children[a][i] == list[i]);
        } else if b == dir {
            assert(w.children[b][j] == list[j]);
        } else {
            assert(is_place(v, a, i) && is_place(v, b, j));
            assert(v.children[a][i].ino == v.children[b][j].ino);
        }
    }
}

proof fn lemma_numbered(bare: InodeView, records: Seq<FileRecord>)
    requires
        is_bare(bare),
        records.len() + 2 <= u64::MAX,
    ensures
        numbers_of(numbered_all(bare, records), records),
        numbered_all(bare, records).children == bare.children,
    decreases records.len(),
{
    let w = numbered_all(bare, records);
    if records.len() == 0 {
        assert forall|k: u64| #[trigger] w.paths.contains_key(k) <==> ROOT_INO <= k <= ROOT_INO
            + records.len() by {
            assert(bare.paths.dom().contains(k) <==> k == ROOT_INO);
        }
    } else {
        let less = records.drop_last();
        let f = records.last();
        let path = f.metadata.path@;
        let n = less.len() as int;
        lemma_numbered(bare, less);
        let v = numbered_all(bare, less);
        assert(v.next_ino == nth_ino(n));
        assert forall|i: int| 0 <= i < records.len() implies {
            &&& w.paths[nth_ino(i)] == (#[trigger] records[i]).metadata.path
            &&& w.records[nth_ino(i)] == records[i]
        } by {
            if i < n {
                assert(less[i] == records[i]);
            }
        }
        assert forall|p: Seq<char>| has_path(records, p) <==> p == path || #[trigger] has_path(
            less,
            p,
        ) by {
            if has_path(less, p) {
                let i = choose|i: int|
                    0 <= i < less.len() && (#[trigger] less[i]).metadata.path@ == p;
                assert(records[i].metadata.path@ == p);
            }
            if has_path(records, p) {
                let i = choose|i: int|
                    0 <= i < records.len() && (#[trigger] records[i]).metadata.path@ == p;
                if i < n {
                    assert(less[i].metadata.path@ == p);
                }
            }
            assert(records[n].metadata.path@ == path);
        }
        assert forall|p: Seq<char>| #[trigger] w.inos.contains_key(p) <==> p == "/"@ || has_path(
            records,
            p,
        ) by {
            assert(v.inos.contains_key(p) <==> p == "/"@ || has_path(less, p));
        }
        assert forall|i: int|
            0 <= i < records.len() && is_last_of_path(records, i) implies w.inos[(
        #[trigger] records[i]).metadata.path@] == nth_ino(i) by {
            if i < n {
                assert(less[i] == records[i]);
                assert(records[n].metadata.path@ != records[i].metadata.path@);
                assert forall|j: int| i < j < less.len() implies (
                #[trigger] less[j]).metadata.path@ != less[i].metadata.path@ by {
                    assert(less[j] == records[j]);
                }
                assert(is_last_of_path(less, i));
            }
        }
        assert(!has_path(records, "/"@) ==> !has_path(less, "/"@) && path != "/"@);
    }
}

proof fn lemma_held(v: InodeView, records: Seq<FileRecord>)
    requires
        v.children == Map::<u64, Seq<Child>>::empty(),
        records.len() + 2 <= u64::MAX,
    ensures
        ({
            let w = held_all(v, records);
            &&& w == (InodeView { children: w.children, ..v })
            &&& listed_once(w)
            &&& forall|dir: u64| #[trigger]
                listing(w.children, dir) == under(v.inos, records, dir)
            &&& forall|dir: u64, i: int|
                is_place(w, dir, i) ==> (#[trigger] w.children[dir][i]).ino <= ROOT_INO
                    + records.len()
        }),
    decreases records.len(),
{
    if records.len() > 0 {
        let less = records.drop_last();
        let path = records.last().metadata.path;
        let ino = nth_ino(records.len() - 1);
        lemma_held(v, less);
        let m = held_all(v, less);
        let w = held_all(v, records);
        let home = holder(v.inos, path@);
        assert(w == held(m, ino, path));
        assert forall|dir: u64| !among(#[trigger] listing(m.children, dir), ino) by {
            if among(listing(m.children, dir), ino) {
                let i = lemma_among(m, dir, ino);
                assert(m.children[dir][i].ino <= ROOT_INO + less.len());
            }
        }
        lemma_held_once(m, ino, path);
        assert forall|dir: u64| #[trigger]
            listing(w.children, dir) == under(v.inos, records, dir) by {
            assert(listing(m.children, dir) == under(v.inos, less, dir));
        }
        assert forall|dir: u64, i: int| is_place(w, dir, i) implies (
        #[trigger] w.children[dir][i]).ino <= ROOT_INO + records.len() by {
            let last = listing(m.children, home).len() as int;
            if !(dir == home && i == last) {
                assert(is_place(m, dir, i));
                assert(w.children[dir][i] == m.children[dir][i]);
            }
        }
    }
}

/// A table that is filled with records, first with their numbers and then with
/// their places in directories, is the table of the records.
pub proof fn lemma_new_table(bare: InodeView, records: Seq<FileRecord>)
    requires
        is_bare(bare),
        records.len() + 2 <= u64::MAX,
    ensures
        table_of(held_all(numbered_all(bare, records), records), records),
{
    lemma_numbered(bare, records);
    lemma_held(numbered_all(bare, records), records);
}

} // verus!
