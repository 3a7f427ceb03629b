//! Dealing with the items of a list one after another, and counting those that
//! came to a good end.

use vstd::prelude::*;

verus! {

/// What became of one item.
#[derive(Clone, Copy, PartialEq, Eq, Structural, Debug)]
pub enum Ended {
    /// It came to a good end, and counts.
    Done,
    /// It is left for another time; the others go on.
    Left,
    /// It failed in a way that ends the whole.
    Failed,
}

/// What is to be done.
#[derive(Clone, Copy, PartialEq, Eq, Structural, Debug)]
pub enum SweepOrder {
    /// Deal with the item at a position.
    Take(usize),
    /// All items were dealt with, so many to a good end.
    Finish(usize),
    /// The whole has failed.
    Fail,
    /// Nothing: it has ended.
    Nothing,
}

/// How far a list has been dealt with.
#[derive(Clone, Copy, PartialEq, Eq, Structural, Debug)]
pub struct Sweep {
    pub total: usize,
    pub at: usize,
    pub done: usize,
    pub ended: bool,
}

/// How many items came to a good end.
pub open spec fn done_count(ends: Seq<Ended>) -> nat
    decreases ends.len(),
{
    if ends.len() == 0 {
        0
    } else {
        done_count(ends.drop_last()) + if ends.last() is Done {
            1nat
        } else {
            0nat
        }
    }
}

impl Sweep {
    pub open spec fn sound(self) -> bool {
        self.done <= self.at <= self.total && (self.ended || self.at < self.total)
    }

    /// The items from a position on.
    pub open spec fn standing(total: usize, at: usize, done: usize) -> (Sweep, SweepOrder) {
        if at < total {
            (Sweep { total, at, done, ended: false }, SweepOrder::Take(at))
        } else {
            (Sweep { total, at, done, ended: true }, SweepOrder::Finish(done))
        }
    }

    /// What follows when the item at hand has ended.
    pub open spec fn followed(self, end: Ended) -> (Sweep, SweepOrder) {
        let next = (self.at + 1) as usize;
        if self.ended {
            (self, SweepOrder::Nothing)
        } else {
            match end {
                Ended::Done => Sweep::standing(self.total, next, (self.done + 1) as usize),
                Ended::Left => Sweep::standing(self.total, next, self.done),
                Ended::Failed => (Sweep { ended: true, ..self }, SweepOrder::Fail),
            }
        }
    }

    fn go(total: usize, at: usize, done: usize) -> (r: (Sweep, SweepOrder))
        requires
            done <= at <= total,
        ensures
            r == Sweep::standing(total, at, done),
            r.0.sound(),
    {
        if at < total {
            (Sweep { total, at, done, ended: false }, SweepOrder::Take(at))
        } else {
            (Sweep { total, at, done, ended: true }, SweepOrder::Finish(done))
        }
    }

    /// Begins with the first of so many items.
    pub fn begin(total: usize) -> (r: (Sweep, SweepOrder))
        ensures
            r == Sweep::standing(total, 0, 0),
            r.0.sound(),
    {
        Sweep::go(total, 0, 0)
    }

    /// The item at hand has ended.
    pub fn next(self, end: Ended) -> (r: (Sweep, SweepOrder))
        requires
            self.sound(),
        ensures
            r == self.followed(end),
            r.0.sound(),
    {
        if self.ended {
            return (self, SweepOrder::Nothing);
        }
        match end {
            Ended::Done => Sweep::go(self.total, self.at + 1, self.done + 1),
            Ended::Left => Sweep::go(self.total, self.at + 1, self.done),
            Ended::Failed => (
                Sweep { total: self.total, at: self.at, done: self.done, ended: true },
                SweepOrder::Fail,
            ),
        }
    }
}

/// Where a sweep stands after items have ended, one after another.
pub open spec fn swept(total: usize, ends: Seq<Ended>) -> (Sweep, SweepOrder)
    decreases ends.len(),
{
    if ends.len() == 0 {
        Sweep::standing(total, 0, 0)
    } else {
        swept(total, ends.drop_last()).0.followed(ends.last())
    }
}

/// Each item is taken in its turn whatever became of those before it, unless one
/// of them failed; and at the end those that came to a good end are counted.
pub proof fn lemma_sweep_takes_all(total: usize, ends: Seq<Ended>)
    requires
        ends.len() <= total,
        forall|i: int| 0 <= i < ends.len() ==> !(#[trigger] ends[i] is Failed),
    ensures
        swept(total, ends).1 == if ends.len() < total {
            SweepOrder::Take(ends.len() as usize)
        } else {
            SweepOrder::Finish(done_count(ends) as usize)
        },
        swept(total, ends) == Sweep::standing(total, ends.len() as usize, done_count(ends) as usize),
        done_count(ends) <= ends.len(),
    decreases ends.len(),
{
    if ends.len() > 0 {
        assert forall|i: int| 0 <= i < ends.drop_last().len() implies !(
        #[trigger] ends.drop_last()[i] is Failed) by {
            assert(!(ends[i] is Failed));
        }
        lemma_sweep_takes_all(total, ends.drop_last());
        assert(!(ends[ends.len() - 1] is Failed));
    }
}

/// An item that failed ends the whole at once.
pub proof fn lemma_failure_ends_sweep(total: usize, ends: Seq<Ended>)
    requires
        0 < ends.len() <= total,
        forall|i: int| 0 <= i < ends.len() - 1 ==> !(#[trigger] ends[i] is Failed),
        ends.last() is Failed,
    ensures
        swept(total, ends).1 == SweepOrder::Fail,
        swept(total, ends).0.ended,
{
    assert forall|i: int| 0 <= i < ends.drop_last().len() implies !(
    #[trigger] ends.drop_last()[i] is Failed) by {
        assert(!(ends[i] is Failed));
    }
    lemma_sweep_takes_all(total, ends.drop_last());
}

} // verus!
