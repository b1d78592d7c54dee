use crate::tile::TileCoord;
use vstd::prelude::*;

verus! {

/// Whether slot `i` is the lowest free slot of `slots`.
pub open spec fn is_first_free(slots: Seq<Option<TileCoord>>, i: int) -> bool {
    &&& 0 <= i < slots.len()
    &&& slots[i] is None
    &&& forall|j: int| 0 <= j < i ==> slots[j] is Some
}

/// Whether some slot of `slots` is free.
pub open spec fn has_free(slots: Seq<Option<TileCoord>>) -> bool {
    exists|i: int| 0 <= i < slots.len() && slots[i] is None
}

/// The lowest free slot of `slots`; meaningful when `has_free(slots)`.
pub open spec fn first_free(slots: Seq<Option<TileCoord>>) -> int {
    choose|i: int| is_first_free(slots, i)
}

/// No slot at all is busy.
pub open spec fn all_free(slots: Seq<Option<TileCoord>>) -> bool {
    forall|i: int| 0 <= i < slots.len() ==> slots[i] is None
}

/// The lowest free slot is the only one of its kind.
pub proof fn lemma_first_free(slots: Seq<Option<TileCoord>>, i: int)
    requires
        is_first_free(slots, i),
    ensures
        has_free(slots),
        first_free(slots) == i,
{
    let k = first_free(slots);
    assert(is_first_free(slots, k));
    if k < i {
        assert(slots[k] is Some);
    } else if i < k {
        assert(slots[i] is Some);
    }
}

/// The bookkeeping of a fixed set of render workers: for each worker slot, the
/// tile that it is working on, if any.
///
/// A slot takes one job at a time and there is no queue: a request made while
/// every slot is busy is refused, and the caller tries again later.
pub struct WorkerPool {
    jobs: Vec<Option<TileCoord>>,
}

impl View for WorkerPool {
    type V = Seq<Option<TileCoord>>;

    closed spec fn view(&self) -> Seq<Option<TileCoord>> {
        self.jobs@
    }
}

impl WorkerPool {
    /// A pool of `workers` slots, all free.
    pub fn new(workers: usize) -> (r: Self)
        requires
            workers >= 1,
        ensures
            r@ == Seq::new(workers as nat, |i: int| None::<TileCoord>),
    {
        let mut jobs: Vec<Option<TileCoord>> = Vec::new();
        let mut i: usize = 0;
        while i < workers
            invariant
                i <= workers,
                jobs@ == Seq::new(i as nat, |k: int| None::<TileCoord>),
            decreases workers - i,
        {
            jobs.push(None);
            i = i + 1;
        }
        WorkerPool { jobs }
    }

    /// The number of slots.
    pub fn size(&self) -> (r: usize)
        ensures
            r == self@.len(),
    {
        self.jobs.len()
    }

    /// The tile that slot `slot` works on, if it is busy.
    pub fn job(&self, slot: usize) -> (r: Option<TileCoord>)
        requires
            slot < self@.len(),
        ensures
            r == self@[slot as int],
    {
        self.jobs[slot]
    }

    /// Every slot is free.
    pub fn is_idle(&self) -> (r: bool)
        ensures
            r == all_free(self@),
    {
        let mut i: usize = 0;
        while i < self.jobs.len()
            invariant
                i <= self@.len(),
                forall|k: int| 0 <= k < i ==> self@[k] is None,
            decreases self@.len() - i,
        {
            if self.jobs[i].is_some() {
                return false;
            }
            i = i + 1;
        }
        true
    }

    /// No slot is free.
    pub fn is_busy(&self) -> (r: bool)
        ensures
            r == !has_free(self@),
    {
        match self.free_slot() {
            Some(_) => false,
            None => true,
        }
    }

    /// The lowest free slot, if any.
    pub fn free_slot(&self) -> (r: Option<usize>)
        ensures
            r is Some <==> has_free(self@),
            r matches Some(i) ==> is_first_free(self@, i as int) && i == first_free(self@),
    {
        let mut i: usize = 0;
        while i < self.jobs.len()
            invariant
                i <= self@.len(),
                forall|k: int| 0 <= k < i ==> self@[k] is Some,
            decreases self@.len() - i,
        {
            if self.jobs[i].is_none() {
                proof {
                    lemma_first_free(self@, i as int);
                }
                return Some(i);
            }
            i = i + 1;
        }
        None
    }

    /// Hands `coord` to the lowest free slot and returns that slot; with every slot
    /// busy, does nothing and returns `None`.
    pub fn draw_request(&mut self, coord: TileCoord) -> (r: Option<usize>)
        ensures
            r is Some <==> has_free(old(self)@),
            r matches Some(i) ==> is_first_free(old(self)@, i as int) && i == first_free(old(self)@)
                && final(self)@ == old(self)@.update(
                i as int,
                Some(coord),
            ),
            r is None ==> final(self)@ == old(self)@,
    {
        match self.free_slot() {
            Some(i) => {
                self.jobs.set(i, Some(coord));
                Some(i)
            },
            None => None,
        }
    }

    /// Marks slot `slot` free again.
    pub fn release(&mut self, slot: usize)
        requires
            slot < old(self)@.len(),
        ensures
            final(self)@ == old(self)@.update(slot as int, None),
    {
        self.jobs.set(slot, None);
    }
}

/// On teardown, the workers that get a terminate signal: those whose thread has
/// not finished (`finished[i]` is false), in slot order. Nothing waits for them:
/// a worker in the middle of a job finishes it or is abandoned.
pub fn threads_to_terminate(finished: &Vec<bool>) -> (r: Vec<usize>)
    ensures
        forall|k: int| 0 <= k < r@.len() ==> r@[k] < finished@.len() && !finished@[r@[k] as int],
        forall|i: int| 0 <= i < finished@.len() && !finished@[i] ==> r@.contains(i as usize),
        forall|k: int, l: int| 0 <= k < l < r@.len() ==> r@[k] < r@[l],
{
    let mut r: Vec<usize> = Vec::new();
    let mut i: usize = 0;
    while i < finished.len()
        invariant
            i <= finished@.len(),
            forall|k: int| 0 <= k < r@.len() ==> r@[k] < i && !finished@[r@[k] as int],
            forall|j: int| 0 <= j < i && !finished@[j] ==> r@.contains(j as usize),
            forall|k: int, l: int| 0 <= k < l < r@.len() ==> r@[k] < r@[l],
        decreases finished@.len() - i,
    {
        let ghost before = r@;
        if !finished[i] {
            r.push(i);
            assert forall|j: int| 0 <= j <= i && !finished@[j] implies r@.contains(j as usize) by {
                if j < i {
                    let k = choose|k: int| 0 <= k < before.len() && before[k] == j as usize;
                    assert(r@[k] == j as usize);
                } else {
                    assert(r@[r@.len() - 1] == i);
                }
            }
        }
        i = i + 1;
    }
    r
}

} // verus!
