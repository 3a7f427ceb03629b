//! What the numbers, names and listings of items are for.

use crate::fs::filesystem::{entries, holding, DirEntry};
use crate::fs::inodes::{
    attr_of, holder, inodes_sound, inserted, last_slash, listing, live, noted_all, number_of,
    parent_path, refreshed, removed, replaced, shown_by, sized, sorted_by_path, sorted_children,
    without, Child, InodeView, ROOT_INO,
};
use crate::fs::listings::lemma_noted;
use crate::fs::probes::lowercase_of;
use crate::fs::record::FileRecord;
use crate::sorting::{is_order, SortKey};
use crate::text::earlier;
use vstd::prelude::*;

verus! {

proof fn lemma_last_slash(dir: Seq<char>, name: Seq<char>)
    requires
        forall|i: int| 0 <= i < name.len() ==> #[trigger] name[i] != '/',
    ensures
        last_slash(dir.push('/') + name) == dir.len(),
    decreases name.len(),
{
    let path = dir.push('/') + name;
    if name.len() > 0 {
        assert(path.last() == name[name.len() - 1]);
        assert(path.drop_last() =~= dir.push('/') + name.drop_last());
        lemma_last_slash(dir, name.drop_last());
    } else {
        assert(path.last() == '/');
    }
}

/// The directory of an item is its path up to the last slash, and the topmost one
/// where that is all that comes before the name.
pub proof fn lemma_parent_holds_the_name(dir: Seq<char>, name: Seq<char>)
    requires
        forall|i: int| 0 <= i < name.len() ==> #[trigger] name[i] != '/',
    ensures
        dir.len() > 0 ==> parent_path(dir.push('/') + name) == dir,
        parent_path(Seq::<char>::empty().push('/') + name) == "/"@,
        parent_path("/"@) == "/"@,
{
    reveal_strlit("/");
    lemma_last_slash(dir, name);
    lemma_last_slash(Seq::empty(), name);
    if dir.len() > 0 {
        let path = dir.push('/') + name;
        assert(path.take(dir.len() as int) =~= dir);
        assert(path.len() >= 2);
    }
}

/// The directory that holds an item is the one that its path names, if it is
/// known, and else the topmost one.
pub proof fn lemma_holder(inos: Map<Seq<char>, u64>, v: InodeView, path: Seq<char>)
    ensures
        path != "/"@ && inos.contains_key(parent_path(path)) ==> holder(inos, path)
            == inos[parent_path(path)],
        path == "/"@ || !inos.contains_key(parent_path(path)) ==> holder(inos, path) == ROOT_INO,
        holding(v, path) == holder(v.inos, path),
{
}

/// What is known under a number after it was replaced is what was given; its path
/// stands for the number, and the path that it had before for nothing, unless it
/// is the same. No other number changes what is known or called, and no other path
/// its number.
pub proof fn lemma_replaced_item(v: InodeView, ino: u64, f: FileRecord)
    requires
        inodes_sound(v),
    ensures
        ({
            let w = replaced(v, ino, f);
            &&& w.next_ino == v.next_ino
            &&& w.records.contains_key(ino) && w.records[ino] == f
            &&& w.paths.contains_key(ino) && w.paths[ino] == f.metadata.path
            &&& w.inos.contains_key(f.metadata.path@) && w.inos[f.metadata.path@] == ino
            &&& v.paths.contains_key(ino) && v.paths[ino]@ != f.metadata.path@
                ==> !w.inos.contains_key(v.paths[ino]@)
            &&& forall|k: u64|
                k != ino ==> (#[trigger] w.records.contains_key(k) <==> v.records.contains_key(k))
                    && (v.records.contains_key(k) ==> w.records[k] == v.records[k])
            &&& forall|k: u64|
                k != ino ==> (#[trigger] w.paths.contains_key(k) <==> v.paths.contains_key(k)) && (
                v.paths.contains_key(k) ==> w.paths[k] == v.paths[k])
            &&& forall|p: Seq<char>|
                p != f.metadata.path@ && !(v.paths.contains_key(ino) && v.paths[ino]@ == p) ==> (
                #[trigger] w.inos.contains_key(p) <==> v.inos.contains_key(p)) && (
                v.inos.contains_key(p) ==> w.inos[p] == v.inos[p])
        }),
{
}

/// What is listed after an item was replaced: it stands at the end of the
/// directory that its path names, and no more in the one that its former path
/// named; the other directories list what they listed.
pub proof fn lemma_replaced_item_is_listed(v: InodeView, ino: u64, f: FileRecord, dir: u64)
    requires
        inodes_sound(v),
    ensures
        ({
            let w = replaced(v, ino, f);
            let home = holder(w.inos, f.metadata.path@);
            let was = v.paths.contains_key(ino) && dir == holder(v.inos, v.paths[ino]@);
            let rest = if was {
                listing(v.children, dir).filter(|c: Child| c.ino != ino)
            } else {
                listing(v.children, dir)
            };
            listing(w.children, dir) == if dir == home {
                rest.push(Child { ino, path: f.metadata.path })
            } else {
                rest
            }
        }),
{
    lemma_without_filters(listing(v.children, dir), ino);
    let w = replaced(v, ino, f);
    let rest = listing(v.children, dir).filter(|c: Child| c.ino != ino);
    assert(!v.children.contains_key(dir) ==> rest =~= Seq::<Child>::empty()) by {
        reveal(Seq::filter);
    }
}

proof fn lemma_without_filters(list: Seq<Child>, ino: u64)
    ensures
        without(list, ino) == list.filter(|c: Child| c.ino != ino),
    decreases list.len(),
{
    reveal(Seq::filter);
    if list.len() > 0 {
        lemma_without_filters(list.drop_last(), ino);
    }
}

/// An item that becomes known has the next number, stands under its path and at
/// the end of the directory that its path names; nothing else changes.
pub proof fn lemma_new_item(v: InodeView, f: FileRecord, dir: u64)
    requires
        inodes_sound(v),
        v.next_ino < u64::MAX,
        !v.inos.contains_key(f.metadata.path@),
    ensures
        ({
            let w = inserted(v, f);
            let ino = v.next_ino;
            &&& number_of(v, f.metadata.path@) == ino
            &&& w.next_ino == ino + 1
            &&& w.paths == v.paths.insert(ino, f.metadata.path)
            &&& w.inos == v.inos.insert(f.metadata.path@, ino)
            &&& w.records == v.records.insert(ino, f)
            &&& listing(w.children, dir) == if dir == holder(w.inos, f.metadata.path@) {
                listing(v.children, dir).push(Child { ino, path: f.metadata.path })
            } else {
                listing(v.children, dir)
            }
        }),
{
}

/// An item that is known keeps its number when it becomes better known.
pub proof fn lemma_known_item_keeps_its_number(v: InodeView, f: FileRecord)
    requires
        inodes_sound(v),
        v.inos.contains_key(f.metadata.path@),
    ensures
        number_of(v, f.metadata.path@) == v.inos[f.metadata.path@],
        inserted(v, f) == replaced(v, v.inos[f.metadata.path@], f),
        inserted(v, f).next_ino == v.next_ino,
{
}

/// A number that is forgotten has neither path nor record, its path stands for
/// nothing, and no directory lists it; everything else stays, but for the listing
/// of what it held.
pub proof fn lemma_forgotten_item(v: InodeView, ino: u64, dir: u64)
    requires
        inodes_sound(v),
    ensures
        ({
            let w = removed(v, ino);
            &&& w.next_ino == v.next_ino
            &&& w.paths == v.paths.remove(ino)
            &&& w.records == v.records.remove(ino)
            &&& v.paths.contains_key(ino) ==> w.inos == v.inos.remove(v.paths[ino]@)
            &&& !v.paths.contains_key(ino) ==> w.inos == v.inos
            &&& listing(w.children, dir) == if dir == ino {
                Seq::empty()
            } else {
                listing(v.children, dir).filter(|c: Child| c.ino != ino)
            }
        }),
{
    lemma_without_filters(listing(v.children, dir), ino);
    reveal(Seq::filter);
    let w = removed(v, ino);
    if dir != ino && v.children.contains_key(dir) {
        assert(w.children[dir] == without(v.children[dir], ino));
    }
}

/// Another size changes the size of that item and nothing else.
pub proof fn lemma_resized_item(v: InodeView, ino: u64, size: u64)
    ensures
        ({
            let w = sized(v, ino, size);
            &&& w.next_ino == v.next_ino && w.paths == v.paths && w.inos == v.inos && w.children
                == v.children
            &&& w.records.dom() == v.records.dom()
            &&& v.records.contains_key(ino) ==> w.records[ino].metadata.size == size
                && w.records[ino].metadata.path == v.records[ino].metadata.path
                && w.records[ino].metadata.remote_id == v.records[ino].metadata.remote_id
                && w.records[ino].state == v.records[ino].state && w.records[ino].cache_path
                == v.records[ino].cache_path && w.records[ino].cloud_remote_id
                == v.records[ino].cloud_remote_id
            &&& forall|k: u64|
                k != ino && #[trigger] v.records.contains_key(k) ==> w.records[k] == v.records[k]
        }),
{
    assert(sized(v, ino, size).records.dom() =~= v.records.dom());
}

/// A directory that was listed anew lists the items that were found, in the order
/// in which they were found, each under the number of its path: the one that it
/// had, or a new one. What is known of each is what was found last under its path.
/// The other directories list what they listed.
pub proof fn lemma_directory_is_listed_anew(
    v: InodeView,
    parent: Seq<char>,
    records: Seq<FileRecord>,
    i: int,
    dir: u64,
)
    requires
        inodes_sound(v),
        v.inos.contains_key(parent),
        v.next_ino + records.len() <= u64::MAX,
        0 <= i < records.len(),
    ensures
        ({
            let w = refreshed(v, parent, records);
            let list = listing(w.children, v.inos[parent]);
            let path = records[i].metadata.path;
            &&& list.len() == records.len()
            &&& list[i].path == path
            &&& v.inos.contains_key(path@) ==> list[i].ino == v.inos[path@]
            &&& !v.inos.contains_key(path@) ==> list[i].ino >= v.next_ino
            &&& w.inos.contains_key(path@) && w.inos[path@] == list[i].ino
            &&& w.paths.contains_key(list[i].ino) && w.paths[list[i].ino]@ == path@
            &&& (forall|j: int|
                i < j < records.len() ==> (#[trigger] records[j]).metadata.path@ != path@)
                ==> w.records.contains_key(list[i].ino) && w.records[list[i].ino] == records[i]
            &&& dir != v.inos[parent] ==> listing(w.children, dir) == listing(v.children, dir)
        }),
{
    lemma_noted(v, records);
    lemma_noted_records(v, records, i);
    let (m, list) = noted_all(v, records);
    let w = refreshed(v, parent, records);
    let path = records[i].metadata.path@;
    assert(m.inos[path] == list[i].ino);
    assert(w.children[v.inos[parent]] == list);
    assert(!crate::fs::inodes::vanished(m.inos, listing(m.children, v.inos[parent]), list, path)) by {
        assert(list[i].ino == m.inos[path]);
        assert(crate::fs::inodes::among(list, m.inos[path]));
    }
}

proof fn lemma_noted_records(v: InodeView, records: Seq<FileRecord>, i: int)
    requires
        inodes_sound(v),
        v.next_ino + records.len() <= u64::MAX,
        0 <= i < records.len(),
    ensures
        noted_all(v, records).1.len() == records.len(),
        noted_all(v, records).1[i].path == records[i].metadata.path,
        (forall|j: int|
            i < j < records.len() ==> (#[trigger] records[j]).metadata.path@
                != records[i].metadata.path@) ==> noted_all(v, records).0.records.contains_key(
            noted_all(v, records).1[i].ino,
        ) && noted_all(v, records).0.records[noted_all(v, records).1[i].ino] == records[i],
    decreases records.len(),
{
    let less = records.drop_last();
    lemma_noted(v, less);
    lemma_noted(v, records);
    let (m, rest) = noted_all(v, less);
    let (w, list) = noted_all(v, records);
    if i < less.len() {
        lemma_noted_records(v, less, i);
        assert(list[i] == rest[i]);
        assert(less[i] == records[i]);
        if forall|j: int|
            i < j < records.len() ==> (#[trigger] records[j]).metadata.path@
                != records[i].metadata.path@ {
            assert forall|j: int| i < j < less.len() implies (
            #[trigger] less[j]).metadata.path@ != less[i].metadata.path@ by {
                assert(less[j] == records[j]);
            }
            let last = records[records.len() - 1].metadata.path@;
            assert(last != records[i].metadata.path@);
            let ino = list[i].ino;
            assert(m.inos[less[i].metadata.path@] == ino);
            if m.inos.contains_key(last) {
                assert(m.paths[m.inos[last]]@ == last);
                assert(m.paths[ino]@ == less[i].metadata.path@);
            } else {
                assert(m.paths.contains_key(ino));
            }
        }
    }
}

/// A path of a directory that was listed anew stands for nothing any more where
/// what it stood for is not found.
pub proof fn lemma_missing_item_loses_its_path(
    v: InodeView,
    parent: Seq<char>,
    records: Seq<FileRecord>,
    i: int,
)
    requires
        inodes_sound(v),
        v.inos.contains_key(parent),
        v.next_ino + records.len() <= u64::MAX,
        0 <= i < listing(v.children, v.inos[parent]).len(),
        ({
            let c = listing(v.children, v.inos[parent])[i];
            &&& v.inos.contains_key(c.path@)
            &&& v.inos[c.path@] == c.ino
            &&& forall|j: int|
                0 <= j < records.len() ==> (#[trigger] records[j]).metadata.path@ != c.path@
        }),
    ensures
        !refreshed(v, parent, records).inos.contains_key(
            listing(v.children, v.inos[parent])[i].path@,
        ),
{
    lemma_noted(v, records);
    let (m, list) = noted_all(v, records);
    let was = listing(m.children, v.inos[parent]);
    let c = was[i];
    assert(m.inos[c.path@] == c.ino);
    assert(!crate::fs::inodes::among(list, c.ino)) by {
        if crate::fs::inodes::among(list, c.ino) {
            let j = choose|j: int| 0 <= j < list.len() && #[trigger] list[j].ino == c.ino;
            let p = records[j].metadata.path@;
            assert(m.inos.contains_key(p) && m.inos[p] == list[j].ino);
            assert(m.paths[m.inos[p]]@ == p);
            assert(m.paths[m.inos[c.path@]]@ == c.path@);
        }
    }
    assert(crate::fs::inodes::vanished(m.inos, was, list, c.path@));
}

/// A listing of a directory that is not known changes nothing.
pub proof fn lemma_unknown_directory_is_not_listed(
    v: InodeView,
    parent: Seq<char>,
    records: Seq<FileRecord>,
)
    requires
        !v.inos.contains_key(parent),
    ensures
        refreshed(v, parent, records) == v,
{
}

/// What a directory shows are the items that it lists and of which something is
/// known, as it is known.
pub proof fn lemma_live_items(v: InodeView, list: Seq<Child>)
    ensures
        live(v, list) == list.filter(|c: Child| v.records.contains_key(c.ino)).map_values(
            |c: Child| (c.ino, v.records[c.ino]),
        ),
    decreases list.len(),
{
    reveal(Seq::filter);
    let known = |c: Child| v.records.contains_key(c.ino);
    let shown = |c: Child| (c.ino, v.records[c.ino]);
    if list.len() > 0 {
        lemma_live_items(v, list.drop_last());
        let rest = list.drop_last().filter(known);
        assert(rest.push(list.last()).map_values(shown) =~= rest.map_values(shown).push(
            shown(list.last()),
        ));
    } else {
        assert(live(v, list) =~= list.filter(known).map_values(shown));
    }
}

/// A directory shows its directories before its files, and either by name
/// regardless of case, those that differ in case only by name; and it shows every
/// item once.
pub proof fn lemma_shown_in_order(
    list: Seq<(u64, FileRecord)>,
    r: Seq<(u64, FileRecord)>,
    i: int,
    j: int,
)
    requires
        sorted_children(list, r),
        0 <= i < j < r.len(),
    ensures
        r.len() == list.len(),
        r[j].1.metadata.is_dir ==> r[i].1.metadata.is_dir,
        r[i].1.metadata.is_dir == r[j].1.metadata.is_dir ==> ({
            let (a, b) = (r[i].1.metadata.name@, r[j].1.metadata.name@);
            ||| lowercase_of(a) != lowercase_of(b) && earlier(lowercase_of(a), lowercase_of(b))
            ||| lowercase_of(a) == lowercase_of(b) && (a == b || earlier(a, b))
        }),
{
    let (keys, places) = choose|keys: Seq<SortKey>, places: Seq<usize>|
        {
            &&& keys.len() == list.len()
            &&& forall|k: int| 0 <= k < list.len() ==> shown_by(#[trigger] keys[k], list[k].1)
            &&& #[trigger] is_order(keys, places, 0, list.len() as int)
            &&& r.len() == list.len()
            &&& forall|k: int| 0 <= k < r.len() ==> #[trigger] r[k] == list[places[k] as int]
        };
    assert(crate::sorting::place_before(keys, places[i] as int, places[j] as int));
    assert(shown_by(keys[places[i] as int], list[places[i] as int].1));
    assert(shown_by(keys[places[j] as int], list[places[j] as int].1));
    assert(r[i] == list[places[i] as int] && r[j] == list[places[j] as int]);
}

/// Every item of a directory is shown.
pub proof fn lemma_every_item_is_shown(
    list: Seq<(u64, FileRecord)>,
    r: Seq<(u64, FileRecord)>,
    i: int,
)
    requires
        sorted_children(list, r),
        0 <= i < list.len(),
        list.len() <= usize::MAX,
    ensures
        r.contains(list[i]),
{
    let (keys, places) = choose|keys: Seq<SortKey>, places: Seq<usize>|
        {
            &&& keys.len() == list.len()
            &&& forall|k: int| 0 <= k < list.len() ==> shown_by(#[trigger] keys[k], list[k].1)
            &&& #[trigger] is_order(keys, places, 0, list.len() as int)
            &&& r.len() == list.len()
            &&& forall|k: int| 0 <= k < r.len() ==> #[trigger] r[k] == list[places[k] as int]
        };
    assert(places.contains(i as usize));
    let k = choose|k: int| 0 <= k < places.len() && places[k] == i as usize;
    assert(r[k] == list[i]);
}

/// The records of a new table are numbered in the order of their paths.
pub proof fn lemma_numbered_by_path(list: Seq<FileRecord>, r: Seq<FileRecord>, i: int, j: int)
    requires
        sorted_by_path(list, r),
        0 <= i < j < r.len(),
    ensures
        r.len() == list.len(),
        r[i].metadata.path@ == r[j].metadata.path@ || earlier(
            r[i].metadata.path@,
            r[j].metadata.path@,
        ),
{
    let (keys, places) = choose|keys: Seq<SortKey>, places: Seq<usize>|
        {
            &&& keys.len() == list.len()
            &&& forall|k: int|
                0 <= k < list.len() ==> !(#[trigger] keys[k]).last && keys[k].first@
                    == list[k].metadata.path@ && keys[k].second@ == Seq::<char>::empty()
            &&& #[trigger] is_order(keys, places, 0, list.len() as int)
            &&& r.len() == list.len()
            &&& forall|k: int| 0 <= k < r.len() ==> #[trigger] r[k] == list[places[k] as int]
        };
    assert(crate::sorting::place_before(keys, places[i] as int, places[j] as int));
    assert(!keys[places[i] as int].last && !keys[places[j] as int].last);
    assert(r[i] == list[places[i] as int] && r[j] == list[places[j] as int]);
}

/// A directory is read as itself, the one above it and then what it shows, each
/// with its number, kind and name.
pub proof fn lemma_directory_entries(
    v: InodeView,
    ino: u64,
    parent: u64,
    sorted: Seq<(u64, FileRecord)>,
    r: Seq<DirEntry>,
    i: int,
)
    requires
        entries(v, ino, parent, sorted, r),
        0 <= i < sorted.len(),
    ensures
        r.len() == sorted.len() + 2,
        r[0].ino == ino && r[0].is_dir && r[0].name@ == "."@,
        r[1].ino == parent && r[1].is_dir && r[1].name@ == ".."@,
        r[i + 2].ino == sorted[i].0,
        r[i + 2].is_dir == sorted[i].1.metadata.is_dir,
        r[i + 2].name@ == sorted[i].1.metadata.name@,
{
    assert(r[i + 2].ino == sorted[i].0);
}

/// What is shown of an item: its number, its size in bytes and in blocks of five
/// hundred and twelve, when it was changed, whether it is a directory, and the
/// permissions that were set here, or the usual ones.
pub proof fn lemma_shown_attributes(ino: u64, f: FileRecord)
    ensures
        ({
            let a = attr_of(ino, f);
            &&& a.ino == ino
            &&& a.is_dir == f.metadata.is_dir
            &&& a.size == if f.metadata.is_dir {
                0
            } else {
                f.metadata.size
            }
            &&& 512 * a.blocks >= a.size && 512 * a.blocks < a.size + 512
            &&& f.metadata.modified_unix >= 0 ==> a.time == f.metadata.modified_unix
            &&& f.metadata.modified_unix < 0 ==> a.time == 0
            &&& f.local_mode is Some ==> a.perm == f.local_mode->0
            &&& f.local_mode is None && f.metadata.is_dir ==> a.perm == 0o755
            &&& f.local_mode is None && !f.metadata.is_dir ==> a.perm == 0o644
            &&& a.nlink == if f.metadata.is_dir {
                2int
            } else {
                1
            }
        }),
{
}

} // verus!
