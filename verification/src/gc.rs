//! The parts of garbage collection that the Temporal handles take part in:
//! marking reachable records and shifting handles over compacted heaps.
use vstd::prelude::*;

use crate::heap::OrdinaryObject;
use crate::instant::TemporalInstant;
use crate::zoned_date_time::TemporalZonedDateTime;

verus! {

/// The handles that marking has reached and not yet visited.
#[derive(Debug)]
pub struct WorkQueues {
    pub objects: Vec<OrdinaryObject>,
    pub instants: Vec<TemporalInstant>,
    pub zoned_date_times: Vec<TemporalZonedDateTime>,
}

/// The marks of one kind of record after marking: `marks[i]` tells whether
/// record `i` is kept. Compaction moves each kept record down past the
/// records dropped before it.
#[derive(Debug)]
pub struct CompactionList {
    pub marks: Vec<bool>,
}

/// The compaction lists of the kinds of record.
#[derive(Debug)]
pub struct CompactionLists {
    pub objects: CompactionList,
    pub instants: CompactionList,
    pub zoned_date_times: CompactionList,
}

/// The number of kept records among the first `n`.
pub open spec fn kept_before(marks: Seq<bool>, n: int) -> int
    decreases n,
{
    if n <= 0 {
        0
    } else {
        kept_before(marks, n - 1) + if marks[n - 1] {
            1int
        } else {
            0int
        }
    }
}

/// The number of kept records.
pub open spec fn kept_count(marks: Seq<bool>) -> int {
    kept_before(marks, marks.len() as int)
}

/// Counting kept records is monotone, and a kept record adds one.
proof fn lemma_kept_before_monotone(marks: Seq<bool>, i: int, j: int)
    requires
        0 <= i <= j <= marks.len(),
    ensures
        kept_before(marks, i) <= kept_before(marks, j),
        i < j && marks[i] ==> kept_before(marks, i) < kept_before(marks, j),
        kept_before(marks, j) - kept_before(marks, i) <= j - i,
    decreases j - i,
{
    if i < j {
        lemma_kept_before_monotone(marks, i, j - 1);
        if marks[i] && i + 1 <= j - 1 {
            lemma_kept_before_monotone(marks, i + 1, j - 1);
        }
    }
}

impl CompactionList {
    /// The index of record `index` once the heap is compacted.
    pub open spec fn shifted(&self, index: int) -> int {
        kept_before(self.marks@, index)
    }

    /// The number of records left once the heap is compacted.
    pub open spec fn kept(&self) -> int {
        kept_count(self.marks@)
    }

    /// The compacted index of record `index`.
    fn shift_of(&self, index: u32) -> (r: u32)
        requires
            (index as int) < self.marks.len(),
        ensures
            r as int == self.shifted(index as int),
    {
        let mut count: u32 = 0;
        let mut i: u32 = 0;
        while i < index
            invariant
                i <= index,
                (index as int) < self.marks.len(),
                count as int == kept_before(self.marks@, i as int),
                count <= i,
            decreases index - i,
        {
            if self.marks[i as usize] {
                count = count + 1;
            }
            i = i + 1;
        }
        count
    }

    /// Moves a handle of a kept record to its compacted index.
    pub fn shift_index(&self, index: &mut u32)
        requires
            (*old(index) as int) < self.marks.len(),
        ensures
            *final(index) as int == self.shifted(*old(index) as int),
    {
        *index = self.shift_of(*index);
    }

    /// The compacted index of a weakly held record, or `None` where the
    /// record is dropped.
    pub fn shift_weak_index(&self, index: u32) -> (r: Option<u32>)
        requires
            (index as int) < self.marks.len(),
        ensures
            match r {
                Some(i) => self.marks@[index as int] && i as int == self.shifted(index as int),
                None => !self.marks@[index as int],
            },
    {
        if self.marks[index as usize] {
            Some(self.shift_of(index))
        } else {
            None
        }
    }
}

/// Compaction keeps the order of the kept records and moves them into the
/// compacted heap: a kept record lands below the number of kept records,
/// never above its old index, and below every kept record that followed it.
pub proof fn compaction_keeps_order(list: &CompactionList, i: int, j: int)
    requires
        0 <= i < j < list.marks.len(),
        list.marks@[i],
    ensures
        list.shifted(i) < list.shifted(j),
        list.shifted(i) <= i,
        list.shifted(i) < list.kept(),
{
    lemma_kept_before_monotone(list.marks@, i, j);
    lemma_kept_before_monotone(list.marks@, 0, i);
    lemma_kept_before_monotone(list.marks@, i, list.marks.len() as int);
}

/// The root-list entry of a handle that is held by its heap data.
#[derive(Clone, Copy, Debug, PartialEq, Eq, Structural)]
pub enum HeapRootData {
    Object(OrdinaryObject),
    Instant(TemporalInstant),
    ZonedDateTime(TemporalZonedDateTime),
}

/// A reference to a slot of the root list.
#[derive(Clone, Copy, Debug, PartialEq, Eq, Structural)]
pub struct HeapRootRef(pub u32);

impl OrdinaryObject {
    /// Marks the object as reached.
    pub fn mark_values(&self, queues: &mut WorkQueues)
        ensures
            final(queues).objects@ == old(queues).objects@.push(*self),
            final(queues).instants == old(queues).instants,
            final(queues).zoned_date_times == old(queues).zoned_date_times,
    {
        queues.objects.push(*self);
    }

    /// Moves the handle to the object's compacted index.
    pub fn sweep_values(&mut self, compactions: &CompactionLists)
        requires
            (old(self).0 as int) < compactions.objects.marks.len(),
        ensures
            final(self).0 as int == compactions.objects.shifted(old(self).0 as int),
    {
        compactions.objects.shift_index(&mut self.0);
    }
}

} // verus!
