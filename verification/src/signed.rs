//! Earliest-deadline-first selection under the signed reading of the
//! 8-bit domain.
//!
//! Remaining time-to-deadline is a signed quantity: a negative value
//! means the deadline has already passed, so overdue tasks are always
//! preferred over not-yet-due ones, and the most overdue task wins among
//! the overdue. This reading is faithful only while the true displacement
//! from `now` stays within half the domain (128 ticks); larger
//! displacements alias to the wrong sign, an inherent limit of the
//! fixed-width domain.

use vstd::prelude::*;

use crate::domain::{remaining_signed, wrap_add_signed, wrapping_add_i8, wrapping_sub_i8};

verus! {

/// A pending task: an opaque identifier (never used for ordering) and an
/// absolute deadline in the signed 8-bit domain, fixed at admission.
#[derive(Debug, Clone, Copy)]
pub struct Task {
    pub id: &'static str,
    pub abs_dl: i8,
}

/// The absolute deadlines of a task sequence, in insertion order.
pub open spec fn deadlines_of(tasks: Seq<Task>) -> Seq<i8> {
    tasks.map_values(|t: Task| t.abs_dl)
}

/// Characterizes a winning position: `idx` carries remaining value `rem`,
/// no deadline has a smaller remaining value, and every earlier position
/// has a strictly larger one — so on ties the lowest insertion index wins.
pub open spec fn is_selected(ds: Seq<i8>, now: i8, rem: i8, idx: int) -> bool {
    &&& 0 <= idx < ds.len()
    &&& rem == remaining_signed(ds[idx], now)
    &&& forall|j: int| 0 <= j < ds.len() ==> remaining_signed(ds[j], now) >= rem
    &&& forall|j: int| 0 <= j < idx ==> remaining_signed(ds[j], now) > rem
}

/// Selection is deterministic: the minimal remaining value together with
/// the first-wins tie-break admit exactly one winning position.
pub proof fn lemma_selected_unique(ds: Seq<i8>, now: i8, rem1: i8, idx1: int, rem2: i8, idx2: int)
    requires
        is_selected(ds, now, rem1, idx1),
        is_selected(ds, now, rem2, idx2),
    ensures
        rem1 == rem2,
        idx1 == idx2,
{
    assert(remaining_signed(ds[idx2], now) >= rem1);
    assert(remaining_signed(ds[idx1], now) >= rem2);
}

/// Stateless selector kernel: scan the deadlines once and return the
/// minimal wrapped remaining value with its index, first index winning
/// ties; `None` exactly when there is nothing to select.
pub fn select_only(deadlines: &Vec<i8>, now: i8) -> (r: Option<(i8, usize)>)
    ensures
        r is Some <==> deadlines@.len() > 0,
        r matches Some((rem, idx)) ==> is_selected(deadlines@, now, rem, idx as int),
{
    let mut best: Option<(i8, usize)> = None;
    let mut i: usize = 0;
    while i < deadlines.len()
        invariant
            i <= deadlines@.len(),
            best is Some <==> i > 0,
            best matches Some((rem, idx)) ==> idx < i
                && rem == remaining_signed(deadlines@[idx as int], now)
                && (forall|j: int| 0 <= j < i ==> remaining_signed(deadlines@[j], now) >= rem)
                && (forall|j: int| 0 <= j < idx ==> remaining_signed(deadlines@[j], now) > rem),
        decreases deadlines@.len() - i,
    {
        let rd = wrapping_sub_i8(deadlines[i], now);
        match best {
            None => {
                best = Some((rd, i));
            }
            Some((m, _)) => {
                if rd < m {
                    best = Some((rd, i));
                }
            }
        }
        i = i + 1;
    }
    best
}

/// The EDF state under the signed policy: the wrapping clock and the
/// pending tasks in admission order.
#[derive(Debug)]
pub struct Edf {
    pub now: i8,
    pub tasks: Vec<Task>,
}

impl Edf {
    /// A fresh scheduler: clock at zero, no pending tasks.
    pub fn new() -> (r: Edf)
        ensures
            r.now == 0,
            r.tasks@ == Seq::<Task>::empty(),
    {
        Edf { now: 0, tasks: Vec::new() }
    }

    /// Number of pending tasks.
    pub fn len(&self) -> (n: usize)
        ensures
            n == self.tasks@.len(),
    {
        self.tasks.len()
    }

    /// Admission: append a task whose absolute deadline is the relative
    /// deadline wrapping-added to the clock value at this moment.
    pub fn pend(&mut self, rel_dl: i8, id: &'static str)
        ensures
            final(self).now == old(self).now,
            final(self).tasks@ == old(self).tasks@.push(
                (Task { id: id, abs_dl: wrap_add_signed(rel_dl, old(self).now) }),
            ),
    {
        let abs_dl = wrapping_add_i8(rel_dl, self.now);
        self.tasks.push(Task { id, abs_dl });
    }

    /// Advance the clock by `tick`, wrapping silently; the store is
    /// untouched.
    pub fn advance(&mut self, tick: i8)
        ensures
            final(self).tasks@ == old(self).tasks@,
            final(self).now == wrap_add_signed(old(self).now, tick),
    {
        self.now = wrapping_add_i8(self.now, tick);
    }

    /// Delete exactly one entry by index; later entries shift down by
    /// one. Callers must not hold indices across this mutation.
    pub fn remove_at(&mut self, index: usize) -> (t: Task)
        requires
            index < old(self).tasks@.len(),
        ensures
            final(self).now == old(self).now,
            t == old(self).tasks@[index as int],
            final(self).tasks@ == old(self).tasks@.remove(index as int),
    {
        self.tasks.remove(index)
    }

    /// Select the task with the minimal wrapped remaining time at the
    /// current clock (ties to the earliest admitted) and remove it from
    /// the store. On an empty store returns `None` and changes nothing.
    pub fn select_and_remove(&mut self) -> (r: Option<(i8, Task)>)
        ensures
            final(self).now == old(self).now,
            r is Some <==> old(self).tasks@.len() > 0,
            r is None ==> final(self).tasks@ == old(self).tasks@,
            r is Some ==> final(self).tasks@.len() + 1 == old(self).tasks@.len(),
            r matches Some((rem, task)) ==> (exists|idx: int|
                is_selected(deadlines_of(old(self).tasks@), old(self).now, rem, idx)
                    && task == old(self).tasks@[idx]
                    && final(self).tasks@ == old(self).tasks@.remove(idx)),
    {
        let mut ds: Vec<i8> = Vec::new();
        let mut i: usize = 0;
        while i < self.tasks.len()
            invariant
                i <= self.tasks@.len(),
                ds@ == deadlines_of(self.tasks@.take(i as int)),
            decreases self.tasks@.len() - i,
        {
            let d = self.tasks[i].abs_dl;
            ds.push(d);
            proof {
                assert(ds@ =~= deadlines_of(self.tasks@.take(i + 1)));
            }
            i = i + 1;
        }
        proof {
            assert(self.tasks@.take(self.tasks@.len() as int) =~= self.tasks@);
        }
        match select_only(&ds, self.now) {
            None => None,
            Some((rem, idx)) => {
                let t = self.remove_at(idx);
                proof {
                    assert(is_selected(deadlines_of(old(self).tasks@), old(self).now, rem, idx as int)
                        && t == old(self).tasks@[idx as int]
                        && self.tasks@ == old(self).tasks@.remove(idx as int));
                }
                Some((rem, t))
            }
        }
    }

    /// One scheduling cycle: advance the clock by `tick`, then select
    /// and remove the most urgent task at the new time, if any.
    pub fn schedule(&mut self, tick: i8) -> (r: Option<(i8, Task)>)
        ensures
            final(self).now == wrap_add_signed(old(self).now, tick),
            r is Some <==> old(self).tasks@.len() > 0,
            r is None ==> final(self).tasks@ == old(self).tasks@,
            r is Some ==> final(self).tasks@.len() + 1 == old(self).tasks@.len(),
            r matches Some((rem, task)) ==> (exists|idx: int|
                is_selected(deadlines_of(old(self).tasks@), wrap_add_signed(old(self).now, tick), rem, idx)
                    && task == old(self).tasks@[idx]
                    && final(self).tasks@ == old(self).tasks@.remove(idx)),
    {
        self.advance(tick);
        self.select_and_remove()
    }
}

} // verus!
