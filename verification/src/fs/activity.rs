//! The list of running transfers that other programs can watch.

use crate::text::{joined, option_text, same_text};
use vstd::prelude::*;

verus! {

/// An entry of the list: what this program reads and writes of it, and the
/// rest as it was.
pub struct Activity {
    pub id: Option<String>,
    pub bytes_done: Option<u64>,
    pub bytes_total: Option<u64>,
    pub updated_unix: Option<i64>,
    pub rest: String,
}

/// An entry was updated less than six hours ago.
pub open spec fn is_fresh(a: Activity, now: i64) -> bool {
    a.updated_unix matches Some(t) && now - t < 21600
}

/// The fresh entries, in order.
pub open spec fn fresh(list: Seq<Activity>, now: i64) -> Seq<Activity>
    decreases list.len(),
{
    if list.len() == 0 {
        Seq::empty()
    } else if is_fresh(list.last(), now) {
        fresh(list.drop_last(), now).push(list.last())
    } else {
        fresh(list.drop_last(), now)
    }
}

/// The entries that are not of a transfer, in order.
pub open spec fn without(list: Seq<Activity>, id: Seq<char>) -> Seq<Activity>
    decreases list.len(),
{
    if list.len() == 0 {
        Seq::empty()
    } else if option_text(list.last().id) != Some(id) {
        without(list.drop_last(), id).push(list.last())
    } else {
        without(list.drop_last(), id)
    }
}

/// The place of the first entry of a transfer.
pub open spec fn entry_at(list: Seq<Activity>, id: Seq<char>, i: int) -> bool {
    &&& 0 <= i < list.len()
    &&& option_text(list[i].id) == Some(id)
    &&& forall|j: int| 0 <= j < i ==> option_text((#[trigger] list[j]).id) != Some(id)
}

/// An entry after progress.
pub open spec fn progressed(a: Activity, done: u64, total: Option<u64>, now: i64) -> Activity {
    Activity {
        bytes_done: Some(done),
        bytes_total: if total is Some {
            total
        } else {
            a.bytes_total
        },
        updated_unix: Some(now),
        ..a
    }
}

/// Drops the entries that are not fresh, which programs that have ended left
/// behind.
pub fn drop_stale(list: Vec<Activity>, now: i64) -> (r: Vec<Activity>)
    ensures
        r@ == fresh(list@, now),
{
    let mut list = list;
    let ghost all = list@;
    let mut back: Vec<Activity> = Vec::new();
    while list.len() > 0
        invariant
            list@ == all.take(list@.len() as int),
            list@.len() <= all.len(),
            fresh(all, now) == fresh(list@, now) + back@.reverse(),
        decreases list@.len(),
    {
        let ghost before = list@;
        let last = list.pop();
        match last {
            None => {},
            Some(a) => {
                let keep = match a.updated_unix {
                    Some(t) => (now as i128) - (t as i128) < 21600,
                    None => false,
                };
                proof {
                    assert(before.drop_last() =~= list@);
                    assert(before.last() == a);
                    assert(list@ =~= all.take(list@.len() as int));
                }
                let ghost kept = back@;
                if keep {
                    back.push(a);
                    assert(back@.reverse() =~= seq![a] + kept.reverse());
                    assert(fresh(before, now) =~= fresh(list@, now).push(a));
                    assert(fresh(before, now) + kept.reverse() =~= fresh(list@, now)
                        + back@.reverse());
                }
            },
        }
    }
    let mut r: Vec<Activity> = Vec::new();
    assert(fresh(all, now) =~= back@.reverse());
    let ghost whole = back@;
    while back.len() > 0
        invariant
            back@ == whole.take(back@.len() as int),
            back@.len() <= whole.len(),
            r@ == whole.reverse().take(whole.len() - back@.len()),
        decreases back@.len(),
    {
        let ghost before = back@;
        match back.pop() {
            None => {},
            Some(a) => {
                r.push(a);
                proof {
                    assert(back@ =~= whole.take(back@.len() as int));
                    assert(a == whole[before.len() - 1]);
                    assert(r@ =~= whole.reverse().take(whole.len() - back@.len()));
                }
            },
        }
    }
    assert(whole.reverse().take(whole.len() as int) =~= whole.reverse());
    r
}

/// Takes the entries of a transfer out.
pub fn finish(list: &mut Vec<Activity>, id: &str)
    ensures
        final(list)@ == without(old(list)@, id@),
{
    let ghost all = list@;
    let mut i: usize = list.len();
    assert(all.take(all.len() as int) =~= all);
    assert(all.skip(all.len() as int) =~= Seq::empty());
    let ghost mut tail = Seq::<Activity>::empty();
    while i > 0
        invariant
            i <= all.len(),
            list@ == all.take(i as int) + tail,
            without(all, id@) == without(all.take(i as int), id@) + tail,
        decreases i,
    {
        i -= 1;
        let ghost a = all[i as int];
        let other = match &list[i].id {
            Some(t) => !same_text(t.as_str(), id),
            None => true,
        };
        proof {
            let upto = all.take(i + 1);
            assert(upto.drop_last() =~= all.take(i as int));
            assert(upto.last() == a);
            assert(list@[i as int] == a);
        }
        if other {
            proof {
                let grown = seq![a] + tail;
                assert(list@ =~= all.take(i as int) + grown);
                assert(without(all.take(i as int), id@).push(a) + tail =~= without(
                    all.take(i as int),
                    id@,
                ) + grown);
                tail = grown;
            }
        } else {
            let _ = list.remove(i);
            assert(list@ =~= all.take(i as int) + tail);
        }
    }
    assert(list@ =~= tail);
    assert(without(all.take(0), id@) =~= Seq::empty());
    assert(without(all, id@) =~= tail);
}

/// Puts the entry of a transfer at the end of the list, in the place of others
/// of the same transfer.
pub fn write_entry(list: &mut Vec<Activity>, entry: Activity, id: &str)
    ensures
        final(list)@ == without(old(list)@, id@).push(entry),
{
    finish(list, id);
    list.push(entry);
}

/// Writes progress into the entry of a transfer, if there is one.
pub fn set_progress(list: &mut Vec<Activity>, id: &str, done: u64, total: Option<u64>, now: i64)
    ensures
        forall|i: int|
            entry_at(old(list)@, id@, i) ==> final(list)@ == #[trigger] old(list)@.update(
                i,
                progressed(old(list)@[i], done, total, now),
            ),
        (forall|i: int| !entry_at(old(list)@, id@, i)) ==> final(list)@ == old(list)@,
{
    let ghost all = list@;
    let mut i: usize = 0;
    while i < list.len()
        invariant
            list@ == all,
            all == old(list)@,
            i <= all.len(),
            forall|j: int| 0 <= j < i ==> option_text((#[trigger] all[j]).id) != Some(id@),
        decreases all.len() - i,
    {
        let found = match &list[i].id {
            Some(t) => same_text(t.as_str(), id),
            None => false,
        };
        if found {
            assert(entry_at(all, id@, i as int));
            let a = list.remove(i);
            let total = match total {
                Some(t) => Some(t),
                None => a.bytes_total,
            };
            let changed = Activity {
                id: a.id,
                bytes_done: Some(done),
                bytes_total: total,
                updated_unix: Some(now),
                rest: a.rest,
            };
            list.insert(i, changed);
            proof {
                assert(list@ =~= all.update(i as int, list@[i as int]));
                assert forall|k: int| entry_at(all, id@, k) implies k == i by {
                    if k < i {
                        assert(option_text(all[k].id) != Some(id@));
                    } else if i < k {
                        assert(option_text(all[i as int].id) != Some(id@));
                    }
                }
            }
            return;
        }
        i += 1;
    }
}

/// When the entry of a transfer was last written.
pub struct ActivityGuard {
    pub id: String,
    pub last_bytes_done: u64,
    pub last_update: u128,
    pub finished: bool,
}

/// Progress is worth writing: a mebibyte more, three quarters of a second
/// later, or at the end.
pub open spec fn progress_due(
    guard: ActivityGuard,
    done: u64,
    total: Option<u64>,
    now: u128,
) -> bool {
    ||| done >= guard.last_bytes_done + 1048576 || (done == u64::MAX && guard.last_bytes_done
        + 1048576 > u64::MAX)
    ||| now >= guard.last_update + 750_000_000
    ||| total matches Some(t) && done >= t
}

impl ActivityGuard {
    /// The guard of a transfer of a kind that begins at a time, in
    /// nanoseconds. `suffix` makes its identifier unique.
    pub fn start(kind: &str, suffix: &str, now: u128) -> (r: Self)
        ensures
            r.id@ == kind@ + "-"@ + suffix@,
            r.last_bytes_done == 0,
            r.last_update == now,
            !r.finished,
    {
        let head = joined(kind, "-");
        ActivityGuard {
            id: joined(head.as_str(), suffix),
            last_bytes_done: 0,
            last_update: now,
            finished: false,
        }
    }

    /// Whether progress is to be written, at a time in nanoseconds; if so it
    /// counts as written.
    pub fn set_progress(&mut self, done: u64, total: Option<u64>, now: u128) -> (r: bool)
        requires
            old(self).last_update + 750_000_000 <= u128::MAX,
        ensures
            r == progress_due(*old(self), done, total, now),
            *final(self) == if r {
                (ActivityGuard { last_bytes_done: done, last_update: now, ..*old(self) })
            } else {
                *old(self)
            },
    {
        let enough_bytes = done >= self.last_bytes_done.saturating_add(1048576);
        let enough_time = now >= self.last_update + 750_000_000;
        let complete = match total {
            Some(t) => done >= t,
            None => false,
        };
        if !enough_bytes && !enough_time && !complete {
            return false;
        }
        self.last_bytes_done = done;
        self.last_update = now;
        true
    }

    /// Whether the entry is to be taken out, which happens once.
    pub fn finish(&mut self) -> (r: bool)
        ensures
            r == !old(self).finished,
            *final(self) == (ActivityGuard { finished: true, ..*old(self) }),
    {
        if self.finished {
            return false;
        }
        self.finished = true;
        true
    }
}

} // verus!
