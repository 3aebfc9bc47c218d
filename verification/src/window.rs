//! The merge window of an undo manager: which transactions become one step.
//!
//! Each local transaction that is recorded becomes an entry of the undo stack.
//! It joins the entry before it if it follows within the merge interval and no
//! checkpoint lies between the two; else it starts an entry of its own. The
//! stack keeps no more than a given number of entries and drops the oldest
//! first.

use vstd::prelude::*;
use crate::err::ErrorKind;

verus! {

/// One push onto a stack of an undo manager: onto which stack, and when, in
/// milliseconds.
#[derive(Clone, Copy, Debug, PartialEq, Eq, Structural)]
pub struct PushRecord {
    pub undo: bool,
    pub at: i64,
}

/// The stacks of an undo manager as numbers: for each entry, from the oldest to
/// the newest, the number of transactions that it holds.
pub struct MergeWindow {
    undo: Vec<usize>,
    redo: Vec<usize>,
    interval: i64,
    max_steps: usize,
    last: Option<i64>,
    sealed: bool,
}

pub struct WindowView {
    /// The entries of the undo stack, the newest last.
    pub undo: Seq<usize>,
    /// The entries of the redo stack, the newest last.
    pub redo: Seq<usize>,
    /// The merge interval in milliseconds; 0 for no merging.
    pub interval: i64,
    /// The number of entries that the undo stack keeps.
    pub max_steps: usize,
    /// When the last transaction was recorded.
    pub last: Option<i64>,
    /// Whether a checkpoint was set since the last transaction was recorded.
    pub sealed: bool,
}

/// The newest `max` entries of `s`.
pub open spec fn trimmed(s: Seq<usize>, max: usize) -> Seq<usize> {
    if s.len() > max {
        s.subrange(s.len() - max, s.len() as int)
    } else {
        s
    }
}

/// The stack `s` with an entry of `count` transactions put on top. An entry of
/// no transaction is not put.
pub open spec fn grown(s: Seq<usize>, count: nat) -> Seq<usize> {
    if count == 0 {
        s
    } else {
        s.push(count as usize)
    }
}

/// The time of a push in milliseconds, from the milliseconds that the clock
/// counts since 1970: 0 where the clock stands before that, and the greatest
/// number that can be written where it counts more.
pub open spec fn stamp_of(clock: Option<u128>) -> i64 {
    match clock {
        None => 0,
        Some(ms) => if ms > i64::MAX {
            i64::MAX
        } else {
            ms as i64
        },
    }
}

impl PushRecord {
    /// The record of a push onto the undo stack, if `undo`, or onto the redo
    /// stack, at the time that the clock shows.
    pub fn noted(undo: bool, clock: Option<u128>) -> (r: PushRecord)
        ensures
            r == (PushRecord { undo, at: stamp_of(clock) }),
    {
        let at: i64 = match clock {
            None => 0,
            Some(ms) => if ms > 9223372036854775807u128 {
                i64::MAX
            } else {
                ms as i64
            },
        };
        PushRecord { undo, at }
    }
}

impl WindowView {
    /// The window after the newest entry of the undo stack was taken off and
    /// `done` of its transactions were taken back, while the pushes in `back`
    /// were written down: those onto the redo stack make one entry there, and
    /// the transactions that were not taken back stay as one entry on the undo
    /// stack.
    pub open spec fn undone(self, done: usize, back: Seq<PushRecord>) -> WindowView {
        WindowView {
            undo: grown(self.undo.drop_last(), (self.undo.last() - done) as nat),
            redo: grown(self.redo, Self::pushes(back, false)),
            ..self
        }
    }

    /// The window after the newest entry of the redo stack was taken off and
    /// `done` of its transactions were brought back, while the pushes in `back`
    /// were written down: those onto the undo stack make one entry there, and
    /// the transactions that were not brought back stay as one entry on the redo
    /// stack.
    pub open spec fn redone(self, done: usize, back: Seq<PushRecord>) -> WindowView {
        WindowView {
            redo: grown(self.redo.drop_last(), (self.redo.last() - done) as nat),
            undo: grown(self.undo, Self::pushes(back, true)),
            ..self
        }
    }

    /// Whether a transaction recorded at `now` joins the newest entry: there is
    /// one, merging is on, no checkpoint was set since the transaction before,
    /// and that one was recorded less than the merge interval ago.
    pub open spec fn merges(self, now: i64) -> bool {
        &&& self.undo.len() > 0
        &&& self.interval > 0
        &&& !self.sealed
        &&& self.last matches Some(t) && now - t < self.interval
        &&& self.undo.last() < usize::MAX
    }

    /// The window after a local transaction was recorded at `now`.
    pub open spec fn recorded(self, now: i64) -> WindowView {
        WindowView {
            undo: trimmed(
                if self.merges(now) {
                    self.undo.update(self.undo.len() - 1, (self.undo.last() + 1) as usize)
                } else {
                    self.undo.push(1)
                },
                self.max_steps,
            ),
            redo: Seq::empty(),
            last: Some(now),
            sealed: false,
            ..self
        }
    }

    /// The window after the pushes in `log` were recorded, in their order. Only
    /// pushes onto the undo stack stand for transactions.
    pub open spec fn folded(self, log: Seq<PushRecord>) -> WindowView
        decreases log.len(),
    {
        if log.len() == 0 {
            self
        } else {
            let before = self.folded(log.drop_last());
            if log.last().undo {
                before.recorded(log.last().at)
            } else {
                before
            }
        }
    }

    /// The number of pushes onto the undo stack, or onto the redo stack, in
    /// `log`.
    pub open spec fn pushes(log: Seq<PushRecord>, undo: bool) -> nat
        decreases log.len(),
    {
        if log.len() == 0 {
            0
        } else {
            Self::pushes(log.drop_last(), undo) + if log.last().undo == undo {
                1nat
            } else {
                0nat
            }
        }
    }
}

impl View for MergeWindow {
    type V = WindowView;

    closed spec fn view(&self) -> WindowView {
        WindowView {
            undo: self.undo@,
            redo: self.redo@,
            interval: self.interval,
            max_steps: self.max_steps,
            last: self.last,
            sealed: self.sealed,
        }
    }
}

impl MergeWindow {
    /// A window with empty stacks, room for 100 entries, and no merging.
    pub fn new() -> (w: MergeWindow)
        ensures
            w@ == (WindowView {
                undo: Seq::empty(),
                redo: Seq::empty(),
                interval: 0,
                max_steps: 100,
                last: None,
                sealed: false,
            }),
    {
        MergeWindow {
            undo: Vec::new(),
            redo: Vec::new(),
            interval: 0,
            max_steps: 100,
            last: None,
            sealed: false,
        }
    }

    /// The number of entries of the undo stack.
    pub fn undo_len(&self) -> (n: usize)
        ensures
            n == self@.undo.len(),
    {
        self.undo.len()
    }

    /// The number of entries of the redo stack.
    pub fn redo_len(&self) -> (n: usize)
        ensures
            n == self@.redo.len(),
    {
        self.redo.len()
    }

    /// Whether a transaction recorded at `now` joins the newest entry.
    pub fn merges(&self, now: i64) -> (r: bool)
        ensures
            r == self@.merges(now),
    {
        if self.undo.len() == 0 || self.interval <= 0 || self.sealed {
            return false;
        }
        let close = match self.last {
            Some(t) => {
                let since: i128 = now as i128 - t as i128;
                since < self.interval as i128
            },
            None => false,
        };
        close && self.undo[self.undo.len() - 1] < usize::MAX
    }

    /// Drops the oldest entries of the undo stack beyond the number that it
    /// keeps.
    fn trim(&mut self)
        ensures
            final(self)@ == (WindowView {
                undo: trimmed(old(self)@.undo, old(self)@.max_steps),
                ..old(self)@
            }),
    {
        let ghost all = self.undo@;
        assert(self.undo@ =~= all.subrange(0, all.len() as int));
        while self.undo.len() > self.max_steps
            invariant
                self.undo@.len() <= all.len(),
                all.len() > self.max_steps ==> self.undo@.len() >= self.max_steps,
                all.len() <= self.max_steps ==> self.undo@.len() == all.len(),
                self.undo@ == all.subrange(all.len() - self.undo@.len(), all.len() as int),
                self.redo == old(self).redo,
                self.interval == old(self).interval,
                self.max_steps == old(self).max_steps,
                self.last == old(self).last,
                self.sealed == old(self).sealed,
            decreases self.undo.len(),
        {
            let ghost before = self.undo@;
            self.undo.remove(0);
            assert(self.undo@ =~= all.subrange(all.len() - self.undo@.len(), all.len() as int));
        }
        assert(self.undo@ =~= trimmed(all, self.max_steps));
    }

    /// Records a local transaction at `now`: it joins the newest entry of the
    /// undo stack or becomes a new one, the redo stack is emptied, and the
    /// oldest entries beyond the number that the stack keeps are dropped.
    pub fn record(&mut self, now: i64)
        ensures
            final(self)@ == old(self)@.recorded(now),
    {
        if self.merges(now) {
            let top = self.undo.len() - 1;
            let count = self.undo[top];
            self.undo.set(top, count + 1);
        } else {
            self.undo.push(1);
        }
        self.redo.clear();
        self.last = Some(now);
        self.sealed = false;
        self.trim();
        assert(self@.redo =~= Seq::<usize>::empty());
    }

    /// Records the pushes in `log`, in their order.
    pub fn fold(&mut self, log: &Vec<PushRecord>)
        ensures
            final(self)@ == old(self)@.folded(log@),
    {
        let mut i: usize = 0;
        assert(log@.take(0) =~= Seq::<PushRecord>::empty());
        while i < log.len()
            invariant
                i <= log.len(),
                self@ == old(self)@.folded(log@.take(i as int)),
            decreases log.len() - i,
        {
            assert(log@.take(i + 1).drop_last() =~= log@.take(i as int));
            if log[i].undo {
                self.record(log[i].at);
            }
            i += 1;
        }
        assert(log@.take(log.len() as int) =~= log@);
    }

    /// Sets a checkpoint: the next transaction starts an entry of its own.
    pub fn seal(&mut self)
        ensures
            final(self)@ == (WindowView { sealed: true, ..old(self)@ }),
    {
        self.sealed = true;
    }

    /// Sets the merge interval in milliseconds; 0 for no merging.
    pub fn set_interval(&mut self, interval: i64)
        ensures
            final(self)@ == (WindowView { interval, ..old(self)@ }),
    {
        self.interval = interval;
    }

    /// Sets the number of entries that the undo stack keeps, and drops the
    /// oldest beyond it.
    pub fn set_max_steps(&mut self, max_steps: usize)
        ensures
            final(self)@ == (WindowView {
                max_steps,
                undo: trimmed(old(self)@.undo, max_steps),
                ..old(self)@
            }),
    {
        self.max_steps = max_steps;
        self.trim();
    }

    /// Empties both stacks.
    pub fn clear(&mut self)
        ensures
            final(self)@ == (WindowView {
                undo: Seq::empty(),
                redo: Seq::empty(),
                ..old(self)@
            }),
    {
        self.undo.clear();
        self.redo.clear();
    }

    /// Takes the newest entry from the undo stack, if there is one.
    pub fn take_undo(&mut self) -> (r: Option<usize>)
        ensures
            old(self)@.undo.len() == 0 ==> r is None && final(self)@ == old(self)@,
            old(self)@.undo.len() > 0 ==> r == Some(old(self)@.undo.last()) && final(self)@ == (
            WindowView { undo: old(self)@.undo.drop_last(), ..old(self)@ }),
    {
        self.undo.pop()
    }

    /// Takes the newest entry from the redo stack, if there is one.
    pub fn take_redo(&mut self) -> (r: Option<usize>)
        ensures
            old(self)@.redo.len() == 0 ==> r is None && final(self)@ == old(self)@,
            old(self)@.redo.len() > 0 ==> r == Some(old(self)@.redo.last()) && final(self)@ == (
            WindowView { redo: old(self)@.redo.drop_last(), ..old(self)@ }),
    {
        self.redo.pop()
    }

    /// Puts an entry of `count` transactions onto the undo stack, as a redo does.
    /// An entry of no transaction is not put.
    pub fn put_undo(&mut self, count: usize)
        ensures
            final(self)@ == (WindowView {
                undo: if count == 0 {
                    old(self)@.undo
                } else {
                    old(self)@.undo.push(count)
                },
                ..old(self)@
            }),
    {
        if count > 0 {
            self.undo.push(count);
        }
    }

    /// Puts an entry of `count` transactions onto the redo stack, as an undo
    /// does. An entry of no transaction is not put.
    pub fn put_redo(&mut self, count: usize)
        ensures
            final(self)@ == (WindowView {
                redo: if count == 0 {
                    old(self)@.redo
                } else {
                    old(self)@.redo.push(count)
                },
                ..old(self)@
            }),
    {
        if count > 0 {
            self.redo.push(count);
        }
    }
}

/// What an undo or a redo returns once it has taken an entry: `true` where all
/// transactions of the entry were dealt with, and the error that stopped it,
/// `failed`, where one was not.
pub open spec fn outcome(failed: Option<ErrorKind>) -> Result<bool, ErrorKind> {
    match failed {
        Some(e) => Err(e),
        None => Ok(true),
    }
}

impl MergeWindow {
    /// Settles an undo whose entry, of `count` transactions, was taken off the
    /// undo stack before: `done` of them were taken back, `failed` stopped the
    /// others if it is an error, and `back` holds the pushes that were written
    /// down meanwhile.
    pub fn settle_undo(
        &mut self,
        count: usize,
        done: usize,
        failed: Option<ErrorKind>,
        back: &Vec<PushRecord>,
    ) -> (r: Result<bool, ErrorKind>)
        requires
            done <= count,
        ensures
            r == outcome(failed),
            final(self)@ == (WindowView {
                undo: grown(old(self)@.undo, (count - done) as nat),
                redo: grown(old(self)@.redo, WindowView::pushes(back@, false)),
                ..old(self)@
            }),
    {
        self.put_redo(count_pushes(back, false));
        self.put_undo(count - done);
        match failed {
            Some(e) => Err(e),
            None => Ok(true),
        }
    }

    /// Settles a redo whose entry, of `count` transactions, was taken off the
    /// redo stack before: `done` of them were brought back, `failed` stopped the
    /// others if it is an error, and `back` holds the pushes that were written
    /// down meanwhile.
    pub fn settle_redo(
        &mut self,
        count: usize,
        done: usize,
        failed: Option<ErrorKind>,
        back: &Vec<PushRecord>,
    ) -> (r: Result<bool, ErrorKind>)
        requires
            done <= count,
        ensures
            r == outcome(failed),
            final(self)@ == (WindowView {
                redo: grown(old(self)@.redo, (count - done) as nat),
                undo: grown(old(self)@.undo, WindowView::pushes(back@, true)),
                ..old(self)@
            }),
    {
        self.put_undo(count_pushes(back, true));
        self.put_redo(count - done);
        match failed {
            Some(e) => Err(e),
            None => Ok(true),
        }
    }
}

/// The number of pushes onto the undo stack, or onto the redo stack, in `log`.
pub fn count_pushes(log: &Vec<PushRecord>, undo: bool) -> (n: usize)
    ensures
        n == WindowView::pushes(log@, undo),
{
    let mut n: usize = 0;
    let mut i: usize = 0;
    assert(log@.take(0) =~= Seq::<PushRecord>::empty());
    while i < log.len()
        invariant
            i <= log.len(),
            n <= i,
            n == WindowView::pushes(log@.take(i as int), undo),
        decreases log.len() - i,
    {
        assert(log@.take(i + 1).drop_last() =~= log@.take(i as int));
        if log[i].undo == undo {
            n += 1;
        }
        i += 1;
    }
    assert(log@.take(log.len() as int) =~= log@);
    n
}

/// Merge window. Of two transactions that are recorded one after the other,
/// with no checkpoint between them, the second joins the entry of the first if
/// it follows within the merge interval; with a merge interval of 0 it never
/// does, and each is an entry of its own.
pub proof fn lemma_merge_window(w: WindowView, first: i64, second: i64)
    requires
        w.max_steps >= 2,
        w.undo.len() < w.max_steps - 1,
        !w.merges(first),
    ensures
        w.interval > 0 && second - first < w.interval ==> w.recorded(first).recorded(second).undo
            == w.undo.push(2),
        w.interval == 0 ==> w.recorded(first).recorded(second).undo == w.undo.push(1).push(1),
        !(second - first < w.interval) ==> w.recorded(first).recorded(second).undo == w.undo.push(
            1,
        ).push(1),
{
    let a = w.recorded(first);
    assert(a.undo == w.undo.push(1));
    let b = a.recorded(second);
    if a.merges(second) {
        assert(a.undo.update(a.undo.len() - 1, 2) =~= w.undo.push(2));
    }
}

/// A checkpoint ends the merge window: the transaction after it starts an entry
/// of its own, however soon it follows.
pub proof fn lemma_checkpoint_separates(w: WindowView, now: i64)
    requires
        w.sealed,
        w.undo.len() < w.max_steps,
    ensures
        w.recorded(now).undo == w.undo.push(1),
        !w.recorded(now).sealed,
{
}

/// The undo stack never holds more entries than it keeps, and the entries that
/// it drops are the oldest.
pub proof fn lemma_oldest_dropped_first(w: WindowView, now: i64)
    requires
        w.undo.len() <= w.max_steps,
    ensures
        w.recorded(now).undo.len() <= w.max_steps,
        w.max_steps > 0 && !w.merges(now) && w.undo.len() == w.max_steps ==> w.recorded(now).undo
            == w.undo.subrange(1, w.undo.len() as int).push(1),
{
    if w.max_steps > 0 && !w.merges(now) && w.undo.len() == w.max_steps {
        let grown = w.undo.push(1);
        assert(trimmed(grown, w.max_steps) =~= w.undo.subrange(1, w.undo.len() as int).push(1));
    }
}

} // verus!
