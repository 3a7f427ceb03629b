//! The numbers by which the system knows items, and what is shown of them.

use super::listings::{lemma_new_table, table_of};
use super::probes::{lowercase_of, to_lowercase};
use super::record::FileRecord;
use crate::sorting::{is_order, order, SortKey};
use crate::table::Table;
use crate::text::{chars_of, same_text, text_of};
use vstd::hash_map::StringHashMap;
use vstd::prelude::*;

verus! {

/// The number of the topmost directory.
pub const ROOT_INO: u64 = 1;

/// An item in a directory: its number, and its path when it came there.
#[derive(Debug)]
pub struct Child {
    pub ino: u64,
    pub path: String,
}

/// The place of the last slash, or minus one.
pub open spec fn last_slash(path: Seq<char>) -> int
    decreases path.len(),
{
    if path.len() == 0 {
        -1
    } else if path.last() == '/' {
        path.len() - 1
    } else {
        last_slash(path.drop_last())
    }
}

/// The path of the directory that holds an item.
pub open spec fn parent_path(path: Seq<char>) -> Seq<char> {
    if path == "/"@ || last_slash(path) <= 0 {
        "/"@
    } else {
        path.take(last_slash(path))
    }
}

/// The path of the directory that holds an item.
pub fn parent_of(path: &str) -> (r: String)
    ensures
        r@ == parent_path(path@),
{
    if same_text(path, "/") {
        return "/".to_owned();
    }
    let c = chars_of(path);
    let mut at: usize = c.len();
    assert(c@.take(c@.len() as int) =~= c@);
    while at > 0 && c[at - 1] != '/'
        invariant
            at <= c@.len(),
            last_slash(c@) == last_slash(c@.take(at as int)),
        decreases at,
    {
        assert(c@.take(at as int).drop_last() =~= c@.take(at - 1));
        at -= 1;
    }
    if at <= 1 {
        return "/".to_owned();
    }
    assert(last_slash(c@) == at - 1);
    let r = text_of(c.as_slice(), 0, at - 1);
    assert(r@ =~= c@.take(at - 1));
    r
}

/// The numbers of items, by path and back, what is known of the items, and
/// what is in each directory.
pub struct InodeTable {
    next_ino: u64,
    paths: Table<String>,
    inos: StringHashMap<u64>,
    records: Table<FileRecord>,
    children: Table<Vec<Child>>,
}

/// The model of the table.
pub struct InodeView {
    pub next_ino: u64,
    pub paths: Map<u64, String>,
    pub inos: Map<Seq<char>, u64>,
    pub records: Map<u64, FileRecord>,
    pub children: Map<u64, Seq<Child>>,
}

/// The models of lists.
pub open spec fn lists(m: Map<u64, Vec<Child>>) -> Map<u64, Seq<Child>> {
    m.map_values(|v: Vec<Child>| v@)
}

impl View for InodeTable {
    type V = InodeView;

    closed spec fn view(&self) -> InodeView {
        InodeView {
            next_ino: self.next_ino,
            paths: self.paths@,
            inos: self.inos@,
            records: self.records@,
            children: lists(self.children@),
        }
    }
}

/// The number of the directory that holds an item: the topmost one where the
/// directory is not known.
pub open spec fn holder(inos: Map<Seq<char>, u64>, path: Seq<char>) -> u64 {
    if path != "/"@ && inos.contains_key(parent_path(path)) {
        inos[parent_path(path)]
    } else {
        ROOT_INO
    }
}

/// What is in a directory.
pub open spec fn listing(children: Map<u64, Seq<Child>>, ino: u64) -> Seq<Child> {
    if children.contains_key(ino) {
        children[ino]
    } else {
        Seq::empty()
    }
}

/// What is in a directory without an item.
pub open spec fn without(list: Seq<Child>, ino: u64) -> Seq<Child>
    decreases list.len(),
{
    if list.len() == 0 {
        Seq::empty()
    } else if list.last().ino == ino {
        without(list.drop_last(), ino)
    } else {
        without(list.drop_last(), ino).push(list.last())
    }
}

/// The table with an item put into the directory that holds it.
pub open spec fn held(v: InodeView, ino: u64, path: String) -> InodeView {
    let parent = holder(v.inos, path@);
    InodeView {
        children: v.children.insert(parent, listing(v.children, parent).push(Child { ino, path })),
        ..v
    }
}

/// The table with an item taken out of the directory that holds it, and its
/// path forgotten.
pub open spec fn displaced(v: InodeView, ino: u64) -> InodeView {
    if !v.paths.contains_key(ino) {
        v
    } else {
        let path = v.paths[ino]@;
        let parent = holder(v.inos, path);
        InodeView {
            children: if v.children.contains_key(parent) {
                v.children.insert(parent, without(v.children[parent], ino))
            } else {
                v.children
            },
            inos: v.inos.remove(path),
            ..v
        }
    }
}

/// The table with a number standing for an item.
pub open spec fn named(v: InodeView, ino: u64, record: FileRecord) -> InodeView {
    InodeView {
        paths: v.paths.insert(ino, record.metadata.path),
        inos: v.inos.insert(record.metadata.path@, ino),
        records: v.records.insert(ino, record),
        ..v
    }
}

/// The table after what is known under a number was replaced.
pub open spec fn replaced(v: InodeView, ino: u64, record: FileRecord) -> InodeView {
    held(named(displaced(v, ino), ino, record), ino, record.metadata.path)
}

/// The table after an item became known, or better known.
pub open spec fn inserted(v: InodeView, record: FileRecord) -> InodeView {
    if v.inos.contains_key(record.metadata.path@) {
        replaced(v, v.inos[record.metadata.path@], record)
    } else {
        let next = InodeView { next_ino: (v.next_ino + 1) as u64, ..v };
        held(named(next, v.next_ino, record), v.next_ino, record.metadata.path)
    }
}

/// The number of an item that becomes known, or better known.
pub open spec fn number_of(v: InodeView, path: Seq<char>) -> u64 {
    if v.inos.contains_key(path) {
        v.inos[path]
    } else {
        v.next_ino
    }
}

/// The table after a number was forgotten.
pub open spec fn removed(v: InodeView, ino: u64) -> InodeView {
    InodeView {
        next_ino: v.next_ino,
        paths: v.paths.remove(ino),
        inos: if v.paths.contains_key(ino) {
            v.inos.remove(v.paths[ino]@)
        } else {
            v.inos
        },
        records: v.records.remove(ino),
        children: v.children.remove(ino).map_values(|l: Seq<Child>| without(l, ino)),
    }
}

/// The table with another size of an item.
pub open spec fn sized(v: InodeView, ino: u64, size: u64) -> InodeView {
    if v.records.contains_key(ino) {
        let f = v.records[ino];
        InodeView {
            records: v.records.insert(
                ino,
                FileRecord {
                    metadata: super::record::MetadataEntry { size, ..f.metadata },
                    ..f
                },
            ),
            ..v
        }
    } else {
        v
    }
}

/// The table after an item of a directory was seen.
pub open spec fn noted(v: InodeView, record: FileRecord) -> InodeView {
    let ino = number_of(v, record.metadata.path@);
    let next = if v.inos.contains_key(record.metadata.path@) {
        v
    } else {
        InodeView { next_ino: (v.next_ino + 1) as u64, ..v }
    };
    named(next, ino, record)
}

/// The table, and what is in the directory, after the items were seen.
pub open spec fn noted_all(v: InodeView, records: Seq<FileRecord>) -> (InodeView, Seq<Child>)
    decreases records.len(),
{
    if records.len() == 0 {
        (v, Seq::empty())
    } else {
        let (w, list) = noted_all(v, records.drop_last());
        let f = records.last();
        (
            noted(w, f),
            list.push(Child { ino: number_of(w, f.metadata.path@), path: f.metadata.path }),
        )
    }
}

/// A number is in a directory.
pub open spec fn among(list: Seq<Child>, ino: u64) -> bool {
    exists|i: int| 0 <= i < list.len() && #[trigger] list[i].ino == ino
}

/// A path stood for an item that is in the directory no more.
pub open spec fn vanished(
    inos: Map<Seq<char>, u64>,
    was: Seq<Child>,
    list: Seq<Child>,
    path: Seq<char>,
) -> bool {
    exists|i: int|
        0 <= i < was.len() && #[trigger] was[i].path@ == path && inos[path] == was[i].ino && !among(
            list,
            was[i].ino,
        )
}

/// The table after a directory was listed anew.
pub open spec fn refreshed(v: InodeView, parent: Seq<char>, records: Seq<FileRecord>) -> InodeView {
    if !v.inos.contains_key(parent) {
        v
    } else {
        let ino = v.inos[parent];
        let (w, list) = noted_all(v, records);
        let was = listing(w.children, ino);
        InodeView {
            inos: Map::new(
                |k: Seq<char>| w.inos.contains_key(k) && !vanished(w.inos, was, list, k),
                |k: Seq<char>| w.inos[k],
            ),
            children: w.children.insert(ino, list),
            ..w
        }
    }
}

/// A place in the listing of a directory.
pub open spec fn is_place(v: InodeView, dir: u64, i: int) -> bool {
    v.children.contains_key(dir) && 0 <= i < v.children[dir].len()
}

/// Whatever is listed in a directory has a path, and with it a number that was
/// given.
pub open spec fn listings_sound(v: InodeView) -> bool {
    forall|dir: u64, i: int|
        is_place(v, dir, i) ==> v.paths.contains_key((#[trigger] v.children[dir][i]).ino)
}

/// No number is listed twice, neither in one directory nor in two.
pub open spec fn listed_once(v: InodeView) -> bool {
    forall|a: u64, i: int, b: u64, j: int|
        is_place(v, a, i) && is_place(v, b, j) && (#[trigger] v.children[a][i]).ino == (
        #[trigger] v.children[b][j]).ino ==> a == b && i == j
}

/// Numbers, paths, records and listings agree: a path stands for the number that
/// it is the path of, no number has been given that is yet to be, and whatever is
/// listed has a path.
pub open spec fn inodes_sound(v: InodeView) -> bool {
    &&& listings_sound(v)
    &&& forall|p: Seq<char>| #[trigger]
        v.inos.contains_key(p) ==> v.paths.contains_key(v.inos[p]) && v.paths[v.inos[p]]@ == p
    &&& forall|k: u64| #[trigger] v.paths.contains_key(k) ==> k < v.next_ino
    &&& forall|k: u64| #[trigger] v.records.contains_key(k) ==> v.paths.contains_key(k)
}

/// What is in a directory and known, with what is known.
pub open spec fn live(v: InodeView, list: Seq<Child>) -> Seq<(u64, FileRecord)>
    decreases list.len(),
{
    if list.len() == 0 {
        Seq::empty()
    } else {
        let rest = live(v, list.drop_last());
        let ino = list.last().ino;
        if v.records.contains_key(ino) {
            rest.push((ino, v.records[ino]))
        } else {
            rest
        }
    }
}

/// The key by which items of a directory are shown: directories first, then by
/// name regardless of case, then by name.
pub open spec fn shown_by(k: SortKey, record: FileRecord) -> bool {
    &&& k.last == !record.metadata.is_dir
    &&& k.first@ == lowercase_of(record.metadata.name@)
    &&& k.second@ == record.metadata.name@
}

/// A list has the same items, in the order in which they are shown.
pub open spec fn sorted_children(
    list: Seq<(u64, FileRecord)>,
    r: Seq<(u64, FileRecord)>,
) -> bool {
    exists|keys: Seq<SortKey>, places: Seq<usize>|
        {
            &&& keys.len() == list.len()
            &&& forall|i: int| 0 <= i < list.len() ==> shown_by(#[trigger] keys[i], list[i].1)
            &&& #[trigger] is_order(keys, places, 0, list.len() as int)
            &&& r.len() == list.len()
            &&& forall|i: int| 0 <= i < r.len() ==> #[trigger] r[i] == list[places[i] as int]
        }
}

/// Sorts the items of a directory as they are shown.
pub fn sort_child_records(list: &Vec<(u64, FileRecord)>) -> (r: Vec<(u64, FileRecord)>)
    ensures
        sorted_children(list@, r@),
{
    let mut keys: Vec<SortKey> = Vec::new();
    let mut i: usize = 0;
    while i < list.len()
        invariant
            i <= list@.len(),
            keys@.len() == i,
            forall|j: int| 0 <= j < i ==> shown_by(#[trigger] keys@[j], list@[j].1),
        decreases list@.len() - i,
    {
        let m = &list[i].1.metadata;
        keys.push(
            SortKey {
                last: !m.is_dir,
                first: to_lowercase(m.name.as_str()),
                second: m.name.clone(),
            },
        );
        i += 1;
    }
    let places = order(&keys);
    let mut r: Vec<(u64, FileRecord)> = Vec::new();
    i = 0;
    while i < places.len()
        invariant
            i <= places@.len(),
            r@.len() == i,
            keys@.len() == list@.len(),
            is_order(keys@, places@, 0, keys@.len() as int),
            forall|j: int| 0 <= j < i ==> #[trigger] r@[j] == list@[places@[j] as int],
        decreases places@.len() - i,
    {
        assert(0 <= places@[i as int] < keys@.len());
        let c = &list[places[i]];
        r.push((c.0, c.1.clone()));
        i += 1;
    }
    proof {
        assert(is_order(keys@, places@, 0, list@.len() as int));
    }
    r
}

/// A list of records has the same items, in the order of their paths.
pub open spec fn sorted_by_path(list: Seq<FileRecord>, r: Seq<FileRecord>) -> bool {
    exists|keys: Seq<SortKey>, places: Seq<usize>|
        {
            &&& keys.len() == list.len()
            &&& forall|i: int|
                0 <= i < list.len() ==> !(#[trigger] keys[i]).last && keys[i].first@
                    == list[i].metadata.path@ && keys[i].second@ == Seq::<char>::empty()
            &&& #[trigger] is_order(keys, places, 0, list.len() as int)
            &&& r.len() == list.len()
            &&& forall|i: int| 0 <= i < r.len() ==> #[trigger] r[i] == list[places[i] as int]
        }
}

fn sort_by_path(list: &Vec<FileRecord>) -> (r: Vec<FileRecord>)
    ensures
        sorted_by_path(list@, r@),
{
    let mut keys: Vec<SortKey> = Vec::new();
    let mut i: usize = 0;
    while i < list.len()
        invariant
            i <= list@.len(),
            keys@.len() == i,
            forall|j: int|
                0 <= j < i ==> !(#[trigger] keys@[j]).last && keys@[j].first@
                    == list@[j].metadata.path@ && keys@[j].second@ == Seq::<char>::empty(),
        decreases list@.len() - i,
    {
        keys.push(
            SortKey {
                last: false,
                first: list[i].metadata.path.clone(),
                second: String::new(),
            },
        );
        i += 1;
    }
    let places = order(&keys);
    let mut r: Vec<FileRecord> = Vec::new();
    i = 0;
    while i < places.len()
        invariant
            i <= places@.len(),
            r@.len() == i,
            keys@.len() == list@.len(),
            is_order(keys@, places@, 0, keys@.len() as int),
            forall|j: int| 0 <= j < i ==> #[trigger] r@[j] == list@[places@[j] as int],
        decreases places@.len() - i,
    {
        assert(0 <= places@[i as int] < keys@.len());
        r.push(list[places[i]].clone());
        i += 1;
    }
    proof {
        assert(is_order(keys@, places@, 0, list@.len() as int));
    }
    r
}

/// A table that knows the topmost directory only.
pub open spec fn is_bare(v: InodeView) -> bool {
    &&& v.next_ino == ROOT_INO + 1
    &&& v.paths.dom() == set![ROOT_INO]
    &&& v.paths[ROOT_INO]@ == "/"@
    &&& v.inos == map!["/"@ => ROOT_INO]
    &&& v.records == Map::<u64, FileRecord>::empty()
    &&& v.children == Map::<u64, Seq<Child>>::empty()
}

/// The table with the next number standing for an item.
pub open spec fn numbered(v: InodeView, record: FileRecord) -> InodeView {
    let next = InodeView { next_ino: (v.next_ino + 1) as u64, ..v };
    named(next, v.next_ino, record)
}

/// The table with the next numbers standing for items.
pub open spec fn numbered_all(v: InodeView, records: Seq<FileRecord>) -> InodeView
    decreases records.len(),
{
    if records.len() == 0 {
        v
    } else {
        numbered(numbered_all(v, records.drop_last()), records.last())
    }
}

/// The table with items, of consecutive numbers, put into the directories that
/// hold them.
pub open spec fn held_all(v: InodeView, records: Seq<FileRecord>) -> InodeView
    decreases records.len(),
{
    if records.len() == 0 {
        v
    } else {
        held(
            held_all(v, records.drop_last()),
            (ROOT_INO + records.len()) as u64,
            records.last().metadata.path,
        )
    }
}

/// What is left of a list without an item comes from the list, in order, and is
/// no such item.
pub(crate) proof fn lemma_without(list: Seq<Child>, ino: u64)
    ensures
        without(list, ino).len() <= list.len(),
        forall|i: int|
            0 <= i < without(list, ino).len() ==> (#[trigger] without(list, ino)[i]).ino != ino
                && list.contains(without(list, ino)[i]),
        (forall|i: int, j: int|
            0 <= i < list.len() && 0 <= j < list.len() && (#[trigger] list[i]).ino == (
            #[trigger] list[j]).ino ==> i == j) ==> forall|i: int, j: int|
            0 <= i < without(list, ino).len() && 0 <= j < without(list, ino).len() && (
            #[trigger] without(list, ino)[i]).ino == (#[trigger] without(list, ino)[j]).ino ==> i
                == j,
    decreases list.len(),
{
    if list.len() > 0 {
        let less = list.drop_last();
        lemma_without(less, ino);
        let w = without(list, ino);
        assert forall|i: int| 0 <= i < w.len() implies (#[trigger] w[i]).ino != ino
            && list.contains(w[i]) by {
            if i < without(less, ino).len() {
                assert(w[i] == without(less, ino)[i]);
                let k = choose|k: int| 0 <= k < less.len() && less[k] == w[i];
                assert(list[k] == w[i]);
            } else {
                assert(list[list.len() - 1] == w[i]);
            }
        }
        if forall|i: int, j: int|
            0 <= i < list.len() && 0 <= j < list.len() && (#[trigger] list[i]).ino == (
            #[trigger] list[j]).ino ==> i == j {
            assert forall|i: int, j: int|
                0 <= i < less.len() && 0 <= j < less.len() && (#[trigger] less[i]).ino == (
                #[trigger] less[j]).ino implies i == j by {
                assert(list[i] == less[i] && list[j] == less[j]);
            }
            assert forall|i: int, j: int|
                0 <= i < w.len() && 0 <= j < w.len() && (#[trigger] w[i]).ino == (
                #[trigger] w[j]).ino implies i == j by {
                let n = without(less, ino).len();
                if i < n && j < n {
                    assert(w[i] == without(less, ino)[i] && w[j] == without(less, ino)[j]);
                } else if i < n {
                    assert(w[i] == without(less, ino)[i]);
                    let k = choose|k: int| 0 <= k < less.len() && less[k] == w[i];
                    assert(list[k].ino == list[list.len() - 1].ino);
                } else if j < n {
                    assert(w[j] == without(less, ino)[j]);
                    let k = choose|k: int| 0 <= k < less.len() && less[k] == w[j];
                    assert(list[k].ino == list[list.len() - 1].ino);
                }
            }
        }
    }
}

pub(crate) proof fn lemma_named_sound(v: InodeView, ino: u64, record: FileRecord)
    requires
        inodes_sound(v),
        ino < v.next_ino,
        forall|p: Seq<char>| #[trigger]
            v.inos.contains_key(p) && v.inos[p] == ino ==> p == record.metadata.path@,
    ensures
        inodes_sound(named(v, ino, record)),
{
    let w = named(v, ino, record);
    assert(listings_sound(w)) by {
        assert forall|dir: u64, i: int| is_place(w, dir, i) implies w.paths.contains_key(
            (#[trigger] w.children[dir][i]).ino,
        ) by {
            assert(is_place(v, dir, i) && v.paths.contains_key(v.children[dir][i].ino));
        }
    }
    assert forall|p: Seq<char>| #[trigger] w.inos.contains_key(p) implies w.paths.contains_key(
        w.inos[p],
    ) && w.paths[w.inos[p]]@ == p by {
        if p != record.metadata.path@ {
            assert(v.inos.contains_key(p));
        }
    }
    assert forall|k: u64| #[trigger] w.paths.contains_key(k) implies k < w.next_ino by {
        if k != ino {
            assert(v.paths.contains_key(k));
        }
    }
    assert forall|k: u64| #[trigger] w.records.contains_key(k) implies w.paths.contains_key(k) by {
        if k != ino {
            assert(v.records.contains_key(k));
        }
    }
}

pub(crate) proof fn lemma_next_sound(v: InodeView)
    requires
        inodes_sound(v),
        v.next_ino < u64::MAX,
    ensures
        inodes_sound(InodeView { next_ino: (v.next_ino + 1) as u64, ..v }),
        forall|p: Seq<char>| #[trigger] v.inos.contains_key(p) ==> v.inos[p] != v.next_ino,
{
    let w = InodeView { next_ino: (v.next_ino + 1) as u64, ..v };
    assert(listings_sound(w)) by {
        assert forall|dir: u64, i: int| is_place(w, dir, i) implies w.paths.contains_key(
            (#[trigger] w.children[dir][i]).ino,
        ) by {
            assert(is_place(v, dir, i) && v.paths.contains_key(v.children[dir][i].ino));
        }
    }
    assert forall|p: Seq<char>| #[trigger] w.inos.contains_key(p) implies w.paths.contains_key(
        w.inos[p],
    ) && w.paths[w.inos[p]]@ == p by {
        assert(v.inos.contains_key(p));
    }
    assert forall|k: u64| #[trigger] w.paths.contains_key(k) implies k < w.next_ino by {
        assert(v.paths.contains_key(k));
    }
    assert forall|k: u64| #[trigger] w.records.contains_key(k) implies w.paths.contains_key(k) by {
        assert(v.records.contains_key(k));
    }
}

proof fn lemma_displaced_sound(v: InodeView, ino: u64)
    requires
        inodes_sound(v),
    ensures
        inodes_sound(displaced(v, ino)),
        forall|p: Seq<char>| #[trigger]
            displaced(v, ino).inos.contains_key(p) ==> displaced(v, ino).inos[p] != ino,
{
    let w = displaced(v, ino);
    assert(listings_sound(w)) by {
        assert forall|dir: u64, i: int| is_place(w, dir, i) implies w.paths.contains_key(
            (#[trigger] w.children[dir][i]).ino,
        ) by {
            let c = w.children[dir][i];
            assert(v.children.contains_key(dir));
            lemma_without(v.children[dir], ino);
            let k = choose|k: int| 0 <= k < v.children[dir].len() && #[trigger] v.children[dir][k] == c;
            assert(v.children[dir].contains(c) || w.children[dir] == v.children[dir]);
            if w.children[dir] == v.children[dir] {
                assert(is_place(v, dir, i) && v.paths.contains_key(v.children[dir][i].ino));
            } else {
                assert(is_place(v, dir, k) && v.paths.contains_key(v.children[dir][k].ino));
            }
        }
    }
    assert forall|p: Seq<char>| #[trigger] w.inos.contains_key(p) implies w.paths.contains_key(
        w.inos[p],
    ) && w.paths[w.inos[p]]@ == p by {
        assert(v.inos.contains_key(p));
    }
    assert forall|p: Seq<char>| #[trigger] w.inos.contains_key(p) implies w.inos[p] != ino by {
        assert(v.inos.contains_key(p));
    }
    assert forall|k: u64| #[trigger] w.paths.contains_key(k) implies k < w.next_ino by {
        assert(v.paths.contains_key(k));
    }
    assert forall|k: u64| #[trigger] w.records.contains_key(k) implies w.paths.contains_key(k) by {
        assert(v.records.contains_key(k));
    }
}

proof fn lemma_fewer_paths_sound(v: InodeView, w: InodeView)
    requires
        inodes_sound(v),
        w.next_ino == v.next_ino,
        w.paths == v.paths,
        listings_sound(w),
        w.records.dom().subset_of(v.records.dom()),
        forall|p: Seq<char>| #[trigger]
            w.inos.contains_key(p) ==> v.inos.contains_key(p) && w.inos[p] == v.inos[p],
    ensures
        inodes_sound(w),
{
    assert forall|p: Seq<char>| #[trigger] w.inos.contains_key(p) implies w.paths.contains_key(
        w.inos[p],
    ) && w.paths[w.inos[p]]@ == p by {
        assert(v.inos.contains_key(p));
    }
    assert forall|k: u64| #[trigger] w.paths.contains_key(k) implies k < w.next_ino by {
        assert(v.paths.contains_key(k));
    }
    assert forall|k: u64| #[trigger] w.records.contains_key(k) implies w.paths.contains_key(k) by {
        assert(v.records.dom().contains(k));
        assert(v.records.contains_key(k));
    }
}

proof fn lemma_removed_sound(v: InodeView, ino: u64)
    requires
        inodes_sound(v),
    ensures
        inodes_sound(removed(v, ino)),
{
    let w = removed(v, ino);
    assert(listings_sound(w)) by {
        assert forall|dir: u64, i: int| is_place(w, dir, i) implies w.paths.contains_key(
            (#[trigger] w.children[dir][i]).ino,
        ) by {
            let c = w.children[dir][i];
            lemma_without(v.children[dir], ino);
            assert(w.children[dir] == without(v.children[dir], ino));
            assert(without(v.children[dir], ino)[i] == c);
            let k = choose|k: int| 0 <= k < v.children[dir].len() && #[trigger] v.children[dir][k] == c;
            assert(is_place(v, dir, k) && v.paths.contains_key(v.children[dir][k].ino));
        }
    }
    assert forall|p: Seq<char>| #[trigger] w.inos.contains_key(p) implies w.paths.contains_key(
        w.inos[p],
    ) && w.paths[w.inos[p]]@ == p by {
        assert(v.inos.contains_key(p));
    }
    assert forall|k: u64| #[trigger] w.paths.contains_key(k) implies k < w.next_ino by {
        assert(v.paths.contains_key(k));
    }
    assert forall|k: u64| #[trigger] w.records.contains_key(k) implies w.paths.contains_key(k) by {
        assert(v.records.contains_key(k));
    }
}

fn drop_child(list: &mut Vec<Child>, ino: u64)
    ensures
        final(list)@ == without(old(list)@, ino),
{
    let ghost all = list@;
    let mut i: usize = list.len();
    assert(all.take(all.len() as int) =~= all);
    let ghost mut tail = Seq::<Child>::empty();
    while i > 0
        invariant
            i <= all.len(),
            list@ == all.take(i as int) + tail,
            without(all, ino) == without(all.take(i as int), ino) + tail,
        decreases i,
    {
        i -= 1;
        let ghost c = all[i as int];
        proof {
            let upto = all.take(i + 1);
            assert(upto.drop_last() =~= all.take(i as int));
            assert(upto.last() == c);
            assert(list@[i as int] == c);
        }
        if list[i].ino == ino {
            let _ = list.remove(i);
            assert(list@ =~= all.take(i as int) + tail);
        } else {
            proof {
                let grown = seq![c] + tail;
                assert(list@ =~= all.take(i as int) + grown);
                assert(without(all.take(i as int), ino).push(c) + tail =~= without(
                    all.take(i as int),
                    ino,
                ) + grown);
                tail = grown;
            }
        }
    }
    assert(list@ =~= tail);
    assert(without(all.take(0), ino) =~= Seq::empty());
    assert(without(all, ino) =~= tail);
}

impl InodeTable {
    pub closed spec fn wf(&self) -> bool {
        inodes_sound(self@)
    }

    /// What being well-formed says of the table.
    pub proof fn lemma_wf(&self)
        requires
            self.wf(),
        ensures
            inodes_sound(self@),
    {
    }

    /// How many more numbers can be given.
    pub fn room(&self) -> (r: u64)
        ensures
            r == u64::MAX - self@.next_ino,
    {
        u64::MAX - self.next_ino
    }

    /// The table of items that are known, numbered in the order of their paths.
    pub fn new(records: &Vec<FileRecord>) -> (r: Self)
        requires
            records@.len() + 2 <= u64::MAX,
        ensures
            r.wf(),
            exists|bare: InodeView, sorted: Seq<FileRecord>| #[trigger]
                is_bare(bare) && #[trigger] sorted_by_path(records@, sorted) && r@ == held_all(
                    numbered_all(bare, sorted),
                    sorted,
                ) && table_of(r@, sorted),
    {
        let mut paths: Table<String> = Table::new();
        let mut inos: StringHashMap<u64> = StringHashMap::new();
        let _ = paths.insert(ROOT_INO, "/".to_owned());
        inos.insert("/".to_owned(), ROOT_INO);
        let mut t = InodeTable {
            next_ino: ROOT_INO + 1,
            paths,
            inos,
            records: Table::new(),
            children: Table::new(),
        };
        let ghost bare = t@;
        proof {
            assert(bare.paths.dom() =~= set![ROOT_INO]);
            assert(bare.inos =~= map!["/"@ => ROOT_INO]);
            assert(bare.children =~= Map::<u64, Seq<Child>>::empty());
            assert(is_bare(bare));
        }
        let sorted = sort_by_path(records);
        let mut i: usize = 0;
        assert(numbered_all(bare, sorted@.take(0)) == bare);
        while i < sorted.len()
            invariant
                i <= sorted@.len(),
                sorted@.len() == records@.len(),
                records@.len() + 2 <= u64::MAX,
                t.next_ino == ROOT_INO + 1 + i,
                t@ == numbered_all(bare, sorted@.take(i as int)),
                forall|k: u64| ROOT_INO < k <= ROOT_INO + i ==> #[trigger] t@.paths.contains_key(k),
                inodes_sound(t@),
            decreases sorted@.len() - i,
        {
            let ghost v = t@;
            proof {
                let upto = sorted@.take(i + 1);
                assert(upto.drop_last() =~= sorted@.take(i as int));
                assert(upto.last() == sorted@[i as int]);
            }
            let ino: u64 = t.next_ino;
            t.next_ino = ino + 1;
            proof {
                lemma_next_sound(v);
                assert(t@ == (InodeView { next_ino: (v.next_ino + 1) as u64, ..v }));
            }
            t.name(ino, &sorted[i]);
            assert(t@ == numbered(v, sorted@[i as int]));
            i += 1;
        }
        assert(sorted@.take(sorted@.len() as int) =~= sorted@);
        let ghost all = t@;
        assert(all == numbered_all(bare, sorted@));
        i = 0;
        assert(held_all(all, sorted@.take(0)) == all);
        while i < sorted.len()
            invariant
                i <= sorted@.len(),
                sorted@.len() == records@.len(),
                records@.len() + 2 <= u64::MAX,
                t@ == held_all(all, sorted@.take(i as int)),
                t@.paths == all.paths,
                forall|k: u64|
                    ROOT_INO < k <= ROOT_INO + sorted@.len() ==> #[trigger] all.paths.contains_key(k),
                inodes_sound(t@),
            decreases sorted@.len() - i,
        {
            proof {
                let upto = sorted@.take(i + 1);
                assert(upto.drop_last() =~= sorted@.take(i as int));
                assert(upto.last() == sorted@[i as int]);
                assert(upto.len() == i + 1);
            }
            t.hold(ROOT_INO + 1 + i as u64, &sorted[i].metadata.path);
            i += 1;
        }
        assert(sorted@.take(sorted@.len() as int) =~= sorted@);
        proof {
            lemma_new_table(bare, sorted@);
        }
        t
    }

    fn name(&mut self, ino: u64, record: &FileRecord)
        requires
            inodes_sound(old(self)@),
            ino < old(self)@.next_ino,
            forall|p: Seq<char>| #[trigger]
                old(self)@.inos.contains_key(p) && old(self)@.inos[p] == ino ==> p
                    == record.metadata.path@,
        ensures
            final(self)@ == named(old(self)@, ino, *record),
            inodes_sound(final(self)@),
    {
        proof {
            lemma_named_sound(self@, ino, *record);
        }
        let _ = self.paths.insert(ino, record.metadata.path.clone());
        self.inos.insert(record.metadata.path.clone(), ino);
        let _ = self.records.insert(ino, record.clone());
    }

    fn holder_of(&self, path: &str) -> (r: u64)
        ensures
            r == holder(self@.inos, path@),
    {
        if same_text(path, "/") {
            return ROOT_INO;
        }
        let parent = parent_of(path);
        match self.inos.get(parent.as_str()) {
            Some(ino) => *ino,
            None => ROOT_INO,
        }
    }

    fn hold(&mut self, ino: u64, path: &String)
        requires
            inodes_sound(old(self)@),
            old(self)@.paths.contains_key(ino),
        ensures
            final(self)@ == held(old(self)@, ino, *path),
            inodes_sound(final(self)@),
    {
        let parent = self.holder_of(path.as_str());
        let mut list: Vec<Child> = match self.children.remove(parent) {
            Some(l) => l,
            None => Vec::new(),
        };
        list.push(Child { ino, path: path.clone() });
        let ghost pushed = list@;
        let _ = self.children.insert(parent, list);
        proof {
            assert(pushed == listing(old(self)@.children, parent).push(
                Child { ino, path: *path },
            ));
            assert(self@.children =~= old(self)@.children.insert(parent, pushed));
            let (v, w) = (old(self)@, self@);
            assert forall|dir: u64, i: int| is_place(w, dir, i) implies w.paths.contains_key(
                (#[trigger] w.children[dir][i]).ino,
            ) by {
                if dir != parent || i < pushed.len() - 1 {
                    assert(is_place(v, dir, i) && v.paths.contains_key(v.children[dir][i].ino));
                }
            }
            lemma_fewer_paths_sound(old(self)@, self@);
        }
    }

    /// The path of a number.
    pub fn path_for_ino(&self, ino: u64) -> (r: Option<&String>)
        ensures
            match r {
                Some(p) => self@.paths.contains_key(ino) && self@.paths[ino] == *p,
                None => !self@.paths.contains_key(ino),
            },
    {
        self.paths.get(ino)
    }

    /// The number of a path.
    pub fn ino_for_path(&self, path: &str) -> (r: Option<u64>)
        ensures
            match r {
                Some(ino) => self@.inos.contains_key(path@) && self@.inos[path@] == ino,
                None => !self@.inos.contains_key(path@),
            },
    {
        match self.inos.get(path) {
            Some(ino) => Some(*ino),
            None => None,
        }
    }

    /// The number of the item with an identifier.
    pub fn ino_for_remote_id(&self, remote_id: &str) -> (r: Option<u64>)
        ensures
            match r {
                Some(ino) => self@.records.contains_key(ino)
                    && self@.records[ino].metadata.remote_id@ == remote_id@,
                None => forall|k: u64| #[trigger]
                    self@.records.contains_key(k) ==> self@.records[k].metadata.remote_id@
                        != remote_id@,
            },
    {
        let keys = self.records.keys();
        let mut i: usize = 0;
        while i < keys.len()
            invariant
                i <= keys@.len(),
                forall|k: u64| keys@.contains(k) <==> #[trigger] self@.records.contains_key(k),
                forall|j: int|
                    0 <= j < i ==> self@.records[#[trigger] keys@[j]].metadata.remote_id@
                        != remote_id@,
            decreases keys@.len() - i,
        {
            let k: u64 = keys[i];
            match self.records.get(k) {
                Some(f) => if same_text(f.metadata.remote_id.as_str(), remote_id) {
                    return Some(k);
                },
                None => {
                    assert(keys@.contains(k));
                },
            }
            i += 1;
        }
        proof {
            assert forall|k: u64| #[trigger]
                self@.records.contains_key(k) implies self@.records[k].metadata.remote_id@
                != remote_id@ by {
                assert(keys@.contains(k));
                let j = choose|j: int| 0 <= j < keys@.len() && keys@[j] == k;
                assert(self@.records[keys@[j]].metadata.remote_id@ != remote_id@);
            }
        }
        None
    }

    /// What is known under a number.
    pub fn record_for_ino(&self, ino: u64) -> (r: Option<&FileRecord>)
        ensures
            match r {
                Some(f) => self@.records.contains_key(ino) && self@.records[ino] == *f,
                None => !self@.records.contains_key(ino),
            },
    {
        self.records.get(ino)
    }

    /// Makes an item known, or better known, and gives its number.
    pub fn insert_or_update(&mut self, record: FileRecord) -> (r: u64)
        requires
            old(self).wf(),
            old(self)@.next_ino < u64::MAX,
        ensures
            final(self).wf(),
            final(self)@ == inserted(old(self)@, record),
            r == number_of(old(self)@, record.metadata.path@),
    {
        match self.ino_for_path(record.metadata.path.as_str()) {
            Some(ino) => {
                self.replace_ino_record(ino, record);
                return ino;
            },
            None => {},
        }
        let ino: u64 = self.next_ino;
        self.next_ino = ino + 1;
        proof {
            let v = old(self)@;
            lemma_next_sound(v);
            assert(self@ == (InodeView { next_ino: (v.next_ino + 1) as u64, ..v }));
        }
        self.name(ino, &record);
        self.hold(ino, &record.metadata.path);
        ino
    }

    /// Replaces what is known under a number; the item moves to the directory
    /// that its path names.
    pub fn replace_ino_record(&mut self, ino: u64, record: FileRecord)
        requires
            old(self).wf(),
            ino < old(self)@.next_ino,
        ensures
            final(self).wf(),
            final(self)@ == replaced(old(self)@, ino, record),
    {
        let previous = match self.paths.get(ino) {
            Some(p) => Some(p.clone()),
            None => None,
        };
        match previous {
            Some(path) => {
                let parent = self.holder_of(path.as_str());
                match self.children.remove(parent) {
                    Some(list) => {
                        let mut list = list;
                        drop_child(&mut list, ino);
                        let ghost rest = list@;
                        let _ = self.children.insert(parent, list);
                        assert(self@.children =~= old(self)@.children.insert(parent, rest));
                    },
                    None => {
                        assert(self@.children =~= old(self)@.children);
                    },
                }
                self.inos.remove(path.as_str());
                assert(self@ == displaced(old(self)@, ino));
            },
            None => {},
        }
        proof {
            assert(self@ == displaced(old(self)@, ino));
            lemma_displaced_sound(old(self)@, ino);
        }
        self.name(ino, &record);
        self.hold(ino, &record.metadata.path);
    }

    /// Makes the size of an item at least so much.
    pub fn set_size(&mut self, ino: u64, size: u64)
        requires
            old(self).wf(),
        ensures
            final(self).wf(),
            final(self)@ == if old(self)@.records.contains_key(ino)
                && old(self)@.records[ino].metadata.size < size {
                sized(old(self)@, ino, size)
            } else {
                old(self)@
            },
    {
        let smaller = match self.records.get(ino) {
            Some(f) => f.metadata.size < size,
            None => false,
        };
        if smaller {
            self.replace_size(ino, size);
        }
    }

    /// Replaces the size of an item.
    pub fn replace_size(&mut self, ino: u64, size: u64)
        requires
            old(self).wf(),
        ensures
            final(self).wf(),
            final(self)@ == sized(old(self)@, ino, size),
    {
        match self.records.remove(ino) {
            Some(f) => {
                let mut f = f;
                f.metadata.size = size;
                let ghost changed = f;
                let _ = self.records.insert(ino, f);
                assert(self@.records =~= old(self)@.records.insert(ino, changed));
            },
            None => {
                assert(self@.records =~= old(self)@.records);
            },
        }
        proof {
            assert(self@.records.dom() =~= old(self)@.records.dom());
            let (v, w) = (old(self)@, self@);
            assert forall|dir: u64, i: int| is_place(w, dir, i) implies w.paths.contains_key(
                (#[trigger] w.children[dir][i]).ino,
            ) by {
                assert(is_place(v, dir, i) && v.paths.contains_key(v.children[dir][i].ino));
            }
            lemma_fewer_paths_sound(old(self)@, self@);
        }
    }

    /// Forgets a number.
    pub fn remove_ino(&mut self, ino: u64)
        requires
            old(self).wf(),
        ensures
            final(self).wf(),
            final(self)@ == removed(old(self)@, ino),
    {
        match self.paths.remove(ino) {
            Some(path) => self.inos.remove(path.as_str()),
            None => {},
        }
        let _ = self.records.remove(ino);
        let _ = self.children.remove(ino);
        let ghost start = lists(self.children@);
        assert(start =~= old(self)@.children.remove(ino));
        assert(self@.paths =~= old(self)@.paths.remove(ino));
        let ghost v = self@;
        let keys = self.children.keys();
        let mut i: usize = 0;
        while i < keys.len()
            invariant
                i <= keys@.len(),
                keys@.no_duplicates(),
                forall|k: u64| keys@.contains(k) <==> #[trigger] start.contains_key(k),
                self@ == (InodeView { children: lists(self.children@), ..v }),
                lists(self.children@).dom() == start.dom(),
                forall|j: int|
                    0 <= j < i ==> lists(self.children@)[#[trigger] keys@[j]] == without(
                        start[keys@[j]],
                        ino,
                    ),
                forall|j: int|
                    i <= j < keys@.len() ==> lists(self.children@)[#[trigger] keys@[j]]
                        == start[keys@[j]],
            decreases keys@.len() - i,
        {
            let k: u64 = keys[i];
            let ghost before = lists(self.children@);
            proof {
                assert(keys@.contains(k));
                assert(start.dom().contains(k));
                assert(before.dom().contains(k));
                assert(before[keys@[i as int]] == start[keys@[i as int]]);
            }
            match self.children.remove(k) {
                Some(list) => {
                    let mut list = list;
                    drop_child(&mut list, ino);
                    let ghost rest = list@;
                    let _ = self.children.insert(k, list);
                    assert(lists(self.children@) =~= before.insert(k, rest));
                    assert(before.insert(k, rest).dom() =~= start.dom());
                },
                None => {},
            }
            proof {
                let after = lists(self.children@);
                assert(after == before.insert(k, without(start[k], ino)));
                assert forall|j: int| 0 <= j < i + 1 implies after[#[trigger] keys@[j]] == without(
                    start[keys@[j]],
                    ino,
                ) by {
                    if j < i {
                        assert(keys@[j] != keys@[i as int]);
                        assert(before[keys@[j]] == without(start[keys@[j]], ino));
                    }
                }
                assert forall|j: int| i + 1 <= j < keys@.len() implies after[#[trigger] keys@[j]]
                    == start[keys@[j]] by {
                    assert(keys@[j] != keys@[i as int]);
                    assert(before[keys@[j]] == start[keys@[j]]);
                }
            }
            i += 1;
        }
        proof {
            let whole = start.map_values(|l: Seq<Child>| without(l, ino));
            assert forall|k: u64| #[trigger] start.contains_key(k) implies lists(self.children@)[k]
                == whole[k] by {
                assert(keys@.contains(k));
                let j = choose|j: int| 0 <= j < keys@.len() && keys@[j] == k;
                assert(lists(self.children@)[keys@[j]] == without(start[keys@[j]], ino));
            }
            assert(lists(self.children@) =~= whole);
            assert(self@ == removed(old(self)@, ino));
            lemma_removed_sound(old(self)@, ino);
        }
    }

    /// Takes over what is in a directory. Paths of items that are gone no
    /// longer stand for them; who has such an item open keeps its number.
    pub fn refresh_children(&mut self, parent: &str, records: &Vec<FileRecord>)
        requires
            old(self).wf(),
            old(self)@.next_ino + records@.len() <= u64::MAX,
        ensures
            final(self).wf(),
            final(self)@ == refreshed(old(self)@, parent@, records@),
    {
        let parent_ino: u64 = match self.ino_for_path(parent) {
            Some(ino) => ino,
            None => return,
        };
        let ghost v = self@;
        let mut list: Vec<Child> = Vec::new();
        let mut i: usize = 0;
        while i < records.len()
            invariant
                i <= records@.len(),
                inodes_sound(self@),
                v.next_ino + records@.len() <= u64::MAX,
                self@.next_ino <= v.next_ino + i,
                (self@, list@) == noted_all(v, records@.take(i as int)),
                forall|j: int| 0 <= j < i ==> self@.paths.contains_key((#[trigger] list@[j]).ino),
                list@.len() == i,
            decreases records@.len() - i,
        {
            let ghost w = self@;
            let ghost had = list@;
            proof {
                let upto = records@.take(i + 1);
                assert(upto.drop_last() =~= records@.take(i as int));
                assert(upto.last() == records@[i as int]);
            }
            let path = &records[i].metadata.path;
            let ino: u64 = match self.ino_for_path(path.as_str()) {
                Some(ino) => ino,
                None => {
                    let ino: u64 = self.next_ino;
                    self.next_ino = ino + 1;
                    proof {
                        lemma_next_sound(w);
                        assert(self@ == (InodeView { next_ino: (w.next_ino + 1) as u64, ..w }));
                    }
                    ino
                },
            };
            self.name(ino, &records[i]);
            list.push(Child { ino, path: path.clone() });
            proof {
                assert(self@ == noted(w, records@[i as int]));
                assert(list@ =~= had.push(
                    Child {
                        ino: number_of(w, records@[i as int].metadata.path@),
                        path: records@[i as int].metadata.path,
                    },
                ));
            }
            i += 1;
        }
        assert(records@.take(records@.len() as int) =~= records@);
        let ghost w = self@;
        let mut present: Table<bool> = Table::new();
        i = 0;
        while i < list.len()
            invariant
                i <= list@.len(),
                forall|k: u64| #[trigger]
                    present@.contains_key(k) <==> among(list@.take(i as int), k),
            decreases list@.len() - i,
        {
            let ghost before = present@;
            let _ = present.insert(list[i].ino, true);
            proof {
                let a = list@.take(i as int);
                let b = list@.take(i + 1);
                assert forall|k: u64| #[trigger]
                    present@.contains_key(k) <==> among(b, k) by {
                    if among(a, k) {
                        let j = choose|j: int| 0 <= j < a.len() && #[trigger] a[j].ino == k;
                        assert(b[j].ino == k);
                    }
                    if k == list@[i as int].ino {
                        assert(b[i as int].ino == k);
                    }
                    if among(b, k) {
                        let j = choose|j: int| 0 <= j < b.len() && #[trigger] b[j].ino == k;
                        if j < i {
                            assert(a[j].ino == k);
                        }
                    }
                }
            }
            i += 1;
        }
        assert(list@.take(list@.len() as int) =~= list@);
        let was: Vec<Child> = match self.children.remove(parent_ino) {
            Some(l) => l,
            None => Vec::new(),
        };
        assert(was@ == listing(w.children, parent_ino));
        i = 0;
        let ghost rest = self@;
        assert(rest.children =~= w.children.remove(parent_ino));
        while i < was.len()
            invariant
                i <= was@.len(),
                self@ == (InodeView { inos: self@.inos, ..rest }),
                forall|k: u64| #[trigger] present@.contains_key(k) <==> among(list@, k),
                forall|k: Seq<char>| #[trigger]
                    self@.inos.contains_key(k) <==> w.inos.contains_key(k) && !vanished(
                        w.inos,
                        was@.take(i as int),
                        list@,
                        k,
                    ),
                forall|k: Seq<char>| #[trigger]
                    self@.inos.contains_key(k) ==> self@.inos[k] == w.inos[k],
            decreases was@.len() - i,
        {
            let ghost a = was@.take(i as int);
            let ghost b = was@.take(i + 1);
            let ghost before = self@.inos;
            let ghost c = was@[i as int];
            let same = match self.inos.get(was[i].path.as_str()) {
                Some(ino) => *ino == was[i].ino,
                None => false,
            };
            if !present.contains(was[i].ino) && same {
                self.inos.remove(was[i].path.as_str());
            }
            proof {
                assert forall|k: Seq<char>| #[trigger]
                    self@.inos.contains_key(k) <==> w.inos.contains_key(k) && !vanished(
                        w.inos,
                        b,
                        list@,
                        k,
                    ) by {
                    assert(before.contains_key(k) <==> w.inos.contains_key(k) && !vanished(
                        w.inos,
                        a,
                        list@,
                        k,
                    ));
                    if vanished(w.inos, a, list@, k) {
                        let j = choose|j: int|
                            0 <= j < a.len() && #[trigger] a[j].path@ == k && w.inos[k] == a[j].ino
                                && !among(list@, a[j].ino);
                        assert(b[j].path@ == k);
                    }
                    if c.path@ == k && w.inos[k] == c.ino && !among(list@, c.ino) {
                        assert(b[i as int].path@ == k);
                        assert(vanished(w.inos, b, list@, k));
                    }
                    if vanished(w.inos, b, list@, k) && !vanished(w.inos, a, list@, k) {
                        let j = choose|j: int|
                            0 <= j < b.len() && #[trigger] b[j].path@ == k && w.inos[k] == b[j].ino
                                && !among(list@, b[j].ino);
                        if j < i {
                            assert(a[j].path@ == k);
                        }
                        assert(j == i);
                    }
                }
            }
            i += 1;
        }
        assert(was@.take(was@.len() as int) =~= was@);
        let ghost listed = list@;
        let _ = self.children.insert(parent_ino, list);
        proof {
            let target = refreshed(v, parent@, records@);
            assert(self@.inos =~= target.inos);
            assert(self@.children =~= rest.children.insert(parent_ino, listed));
            assert(self@.children =~= target.children);
            let now = self@;
            assert forall|dir: u64, i: int| is_place(now, dir, i) implies now.paths.contains_key(
                (#[trigger] now.children[dir][i]).ino,
            ) by {
                if dir == parent_ino {
                    assert(w.paths.contains_key(listed[i].ino));
                } else {
                    assert(is_place(w, dir, i) && w.paths.contains_key(w.children[dir][i].ino));
                }
            }
            lemma_fewer_paths_sound(w, self@);
        }
    }

    /// What is in a directory, as it is shown.
    pub fn children_for_ino(&self, ino: u64) -> (r: Vec<(u64, FileRecord)>)
        ensures
            sorted_children(live(self@, listing(self@.children, ino)), r@),
    {
        let mut known: Vec<(u64, FileRecord)> = Vec::new();
        match self.children.get(ino) {
            None => {},
            Some(list) => {
                let mut i: usize = 0;
                while i < list.len()
                    invariant
                        i <= list@.len(),
                        known@ == live(self@, list@.take(i as int)),
                    decreases list@.len() - i,
                {
                    proof {
                        let upto = list@.take(i + 1);
                        assert(upto.drop_last() =~= list@.take(i as int));
                        assert(upto.last() == list@[i as int]);
                    }
                    let k: u64 = list[i].ino;
                    match self.records.get(k) {
                        Some(f) => known.push((k, f.clone())),
                        None => {},
                    }
                    i += 1;
                }
                assert(list@.take(list@.len() as int) =~= list@);
                assert(listing(self@.children, ino) == list@);
            },
        }
        sort_child_records(&known)
    }

    /// Whether nothing that is known is in a directory.
    pub fn is_empty(&self, ino: u64) -> (r: bool)
        ensures
            r == (live(self@, listing(self@.children, ino)).len() == 0),
    {
        let c = self.children_for_ino(ino);
        c.len() == 0
    }

    /// The number of the directory that holds an item.
    pub fn parent_ino(&self, path: &str) -> (r: Option<u64>)
        ensures
            r == if path@ == "/"@ {
                Some(ROOT_INO)
            } else if self@.inos.contains_key(parent_path(path@)) {
                Some(self@.inos[parent_path(path@)])
            } else {
                None
            },
    {
        if same_text(path, "/") {
            return Some(ROOT_INO);
        }
        let parent = parent_of(path);
        self.ino_for_path(parent.as_str())
    }
}

/// What is shown of an item.
#[derive(Clone, Copy, PartialEq, Eq, Structural, Debug)]
pub struct FileAttr {
    pub ino: u64,
    pub size: u64,
    pub blocks: u64,
    /// Seconds since the epoch.
    pub time: u64,
    pub is_dir: bool,
    pub perm: u16,
    pub nlink: u32,
}

/// The blocks of five hundred and twelve bytes that a size takes.
pub open spec fn blocks_of(size: u64) -> int {
    (size + 511) / 512
}

/// What is shown of an item.
pub open spec fn attr_of(ino: u64, record: FileRecord) -> FileAttr {
    let m = record.metadata;
    let size: u64 = if m.is_dir {
        0
    } else {
        m.size
    };
    FileAttr {
        ino,
        size,
        blocks: blocks_of(size) as u64,
        time: if m.modified_unix >= 0 {
            m.modified_unix as u64
        } else {
            0
        },
        is_dir: m.is_dir,
        perm: match record.local_mode {
            Some(p) => p,
            None => if m.is_dir {
                0o755
            } else {
                0o644
            },
        },
        nlink: if m.is_dir {
            2
        } else {
            1
        },
    }
}

fn blocks(size: u64) -> (r: u64)
    ensures
        r == blocks_of(size),
{
    if size % 512 == 0 {
        size / 512
    } else {
        size / 512 + 1
    }
}

/// What is shown of an item.
pub fn attr_for_record(ino: u64, record: &FileRecord) -> (r: FileAttr)
    ensures
        r == attr_of(ino, *record),
{
    let m = &record.metadata;
    let size: u64 = if m.is_dir {
        0
    } else {
        m.size
    };
    let perm: u16 = match record.local_mode {
        Some(p) => p,
        None => if m.is_dir {
            0o755
        } else {
            0o644
        },
    };
    FileAttr {
        ino,
        size,
        blocks: blocks(size),
        time: if m.modified_unix >= 0 {
            m.modified_unix as u64
        } else {
            0
        },
        is_dir: m.is_dir,
        perm,
        nlink: if m.is_dir {
            2
        } else {
            1
        },
    }
}

/// What is shown of an open file that has no name any more.
pub fn unlinked_file_attr(ino: u64, size: u64, time: u64) -> (r: FileAttr)
    ensures
        r == (FileAttr {
            ino,
            size,
            blocks: blocks_of(size) as u64,
            time,
            is_dir: false,
            perm: 0o644,
            nlink: 0,
        }),
{
    FileAttr { ino, size, blocks: blocks(size), time, is_dir: false, perm: 0o644, nlink: 0 }
}

/// What is shown of the topmost directory at a time.
pub fn root_attr(time: u64) -> (r: FileAttr)
    ensures
        r == (FileAttr {
            ino: ROOT_INO,
            size: 0,
            blocks: 0,
            time,
            is_dir: true,
            perm: 0o755,
            nlink: 2,
        }),
{
    FileAttr { ino: ROOT_INO, size: 0, blocks: 0, time, is_dir: true, perm: 0o755, nlink: 2 }
}

/// A number, once given, is never given to another item: what becomes known
/// later has a number that no item had.
pub proof fn lemma_numbers_are_fresh(v: InodeView, record: FileRecord)
    requires
        inodes_sound(v),
        !v.inos.contains_key(record.metadata.path@),
    ensures
        !v.paths.contains_key(number_of(v, record.metadata.path@)),
        !v.records.contains_key(number_of(v, record.metadata.path@)),
{
}

/// After an item became known, its path stands for its number, and what is
/// known under the number is what was given.
pub proof fn lemma_insert_then_find(v: InodeView, record: FileRecord)
    requires
        inodes_sound(v),
    ensures
        inserted(v, record).inos.contains_key(record.metadata.path@),
        inserted(v, record).inos[record.metadata.path@] == number_of(v, record.metadata.path@),
        inserted(v, record).records[number_of(v, record.metadata.path@)] == record,
{
}

/// After a number was forgotten neither it nor its path stands for anything.
pub proof fn lemma_removed_is_gone(v: InodeView, ino: u64, path: Seq<char>)
    requires
        inodes_sound(v),
        v.inos.contains_key(path),
        v.inos[path] == ino,
    ensures
        !removed(v, ino).inos.contains_key(path),
        !removed(v, ino).records.contains_key(ino),
        !removed(v, ino).paths.contains_key(ino),
{
}

} // verus!
