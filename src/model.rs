use crate::pool::{first_free, has_free, is_first_free};
use crate::progress::{ProgressReport, TileState};
use crate::tile::TileCoord;
use vstd::prelude::*;

verus! {

/// A tile handed to a worker slot.
#[derive(Clone, Copy, Debug, PartialEq, Eq, Structural)]
pub struct DrawJob {
    pub slot: usize,
    pub coord: TileCoord,
}

/// The abstract state of a tile provider: the tile that each worker slot works
/// on, and the state of every tile that the cache has seen.
pub struct TilesView<T> {
    pub slots: Seq<Option<TileCoord>>,
    pub states: Map<TileCoord, TileState<T>>,
}

/// No tile that had reached a terminal state has changed between `a` and `b`.
pub open spec fn keeps_terminal<T>(a: TilesView<T>, b: TilesView<T>) -> bool {
    forall|c: TileCoord|
        #![trigger a.states.contains_key(c)]
        a.states.contains_key(c) && a.states[c].spec_is_terminal() ==> b.states.contains_key(c)
            && b.states[c] == a.states[c]
}

impl<T> TilesView<T> {
    /// Tiles that have been handed to a worker and have not reached a terminal state.
    pub open spec fn in_flight(self) -> Set<TileCoord> {
        Set::new(|c: TileCoord| self.states.contains_key(c) && !self.states[c].spec_is_terminal())
    }

    /// Slot `i` exists and works on `c`.
    pub open spec fn works_on(self, i: int, c: TileCoord) -> bool {
        0 <= i < self.slots.len() && self.slots[i] == Some(c)
    }

    /// Well-formed: there is at least one slot, every tile in flight is the job of
    /// exactly one slot, and every busy slot works on a tile in flight.
    pub open spec fn wf(self) -> bool {
        &&& self.slots.len() >= 1
        &&& forall|c: TileCoord| #[trigger]
            self.in_flight().contains(c) ==> exists|i: int| self.works_on(i, c)
        &&& forall|i: int, c: TileCoord| #[trigger]
            self.works_on(i, c) ==> self.in_flight().contains(c)
        &&& forall|i: int, j: int, c: TileCoord|
            #![trigger self.works_on(i, c), self.works_on(j, c)]
            self.works_on(i, c) && self.works_on(j, c) ==> i == j
    }

    /// What the provider shows for `c`: its state, or `Waiting` for a tile that
    /// has not been handed to a worker yet.
    pub open spec fn shown(self, c: TileCoord) -> TileState<T> {
        if self.states.contains_key(c) {
            self.states[c]
        } else {
            TileState::Waiting
        }
    }

    /// A query for `c`: a supported tile that the cache has not seen is handed to
    /// the lowest free slot, if there is one, and recorded as `Waiting`. Nothing
    /// else changes.
    pub open spec fn query(self, c: TileCoord) -> (TilesView<T>, Option<DrawJob>) {
        if c.spec_is_supported() && !self.states.contains_key(c) && has_free(self.slots) {
            let i = first_free(self.slots);
            (
                TilesView {
                    slots: self.slots.update(i, Some(c)),
                    states: self.states.insert(c, TileState::Waiting),
                },
                Some(DrawJob { slot: i as usize, coord: c }),
            )
        } else {
            (self, None)
        }
    }

    /// A report from slot `slot` is taken when that slot works on the report's
    /// tile and the report moves the tile strictly forward.
    pub open spec fn accepts(self, slot: int, r: ProgressReport<T>) -> bool {
        &&& self.works_on(slot, r.spec_coord())
        &&& self.states.contains_key(r.spec_coord())
        &&& self.states[r.spec_coord()].spec_rank() < r.spec_state().spec_rank()
    }

    /// The effect of a report from slot `slot`: a report that is taken sets the
    /// state of its tile, and a terminal one frees the slot. Any other report
    /// changes nothing.
    pub open spec fn report(self, slot: int, r: ProgressReport<T>) -> TilesView<T> {
        if self.accepts(slot, r) {
            TilesView {
                slots: if r.spec_is_terminal() {
                    self.slots.update(slot, None)
                } else {
                    self.slots
                },
                states: self.states.insert(r.spec_coord(), r.spec_state()),
            }
        } else {
            self
        }
    }

    /// The effect of the reports `rs`, taken in order.
    pub open spec fn report_all(self, rs: Seq<(usize, ProgressReport<T>)>) -> TilesView<T>
        decreases rs.len(),
    {
        if rs.len() == 0 {
            self
        } else {
            self.report_all(rs.drop_last()).report(rs.last().0 as int, rs.last().1)
        }
    }
}

/// A query keeps the view well-formed.
pub proof fn lemma_query_wf<T>(m: TilesView<T>, c: TileCoord)
    requires
        m.wf(),
    ensures
        m.query(c).0.wf(),
{
    if c.spec_is_supported() && !m.states.contains_key(c) && has_free(m.slots) {
        let i = first_free(m.slots);
        assert(is_first_free(m.slots, i)) by {
            let k = choose|k: int| 0 <= k < m.slots.len() && m.slots[k] is None;
            lemma_exists_first_free(m.slots, k);
        }
        let n = m.query(c).0;
        assert forall|d: TileCoord| #[trigger] n.in_flight().contains(d) implies exists|j: int|
            n.works_on(j, d) by {
            if d == c {
                assert(n.works_on(i, d));
            } else {
                assert(m.in_flight().contains(d));
                let j = choose|j: int| m.works_on(j, d);
                assert(n.works_on(j, d));
            }
        }
        assert forall|j: int, d: TileCoord| #[trigger] n.works_on(j, d) implies n.in_flight().contains(
            d,
        ) by {
            if j != i {
                assert(m.works_on(j, d));
            }
        }
        assert forall|j: int, k: int, d: TileCoord|
            #![trigger n.works_on(j, d), n.works_on(k, d)]
            n.works_on(j, d) && n.works_on(k, d) implies j == k by {
            if j != i && k != i {
                assert(m.works_on(j, d) && m.works_on(k, d));
            } else if j != i {
                assert(m.works_on(j, d));
                assert(m.in_flight().contains(d));
            } else if k != i {
                assert(m.works_on(k, d));
                assert(m.in_flight().contains(d));
            }
        }
    }
}

/// Where some slot is free, there is a lowest free slot.
pub proof fn lemma_exists_first_free(slots: Seq<Option<TileCoord>>, k: int)
    requires
        0 <= k < slots.len(),
        slots[k] is None,
    ensures
        exists|j: int| is_first_free(slots, j),
    decreases k,
{
    if forall|j: int| 0 <= j < k ==> slots[j] is Some {
        assert(is_first_free(slots, k));
    } else {
        let j = choose|j: int| 0 <= j < k && slots[j] is None;
        lemma_exists_first_free(slots, j);
    }
}

/// A report keeps the view well-formed.
pub proof fn lemma_report_wf<T>(m: TilesView<T>, slot: int, r: ProgressReport<T>)
    requires
        m.wf(),
    ensures
        m.report(slot, r).wf(),
{
    if m.accepts(slot, r) {
        let c = r.spec_coord();
        let n = m.report(slot, r);
        assert forall|d: TileCoord| #[trigger] n.in_flight().contains(d) implies exists|j: int|
            n.works_on(j, d) by {
            if d == c {
                assert(n.works_on(slot, d));
            } else {
                assert(m.in_flight().contains(d));
                let j = choose|j: int| m.works_on(j, d);
                assert(n.works_on(j, d));
            }
        }
        assert forall|j: int, d: TileCoord| #[trigger] n.works_on(j, d) implies n.in_flight().contains(
            d,
        ) by {
            assert(m.works_on(j, d));
            if d != c {
                assert(m.in_flight().contains(d));
            }
        }
        assert forall|j: int, k: int, d: TileCoord|
            #![trigger n.works_on(j, d), n.works_on(k, d)]
            n.works_on(j, d) && n.works_on(k, d) implies j == k by {
            assert(m.works_on(j, d) && m.works_on(k, d));
        }
    }
}

/// The effect of reports taken in order, one more at a time.
pub proof fn lemma_report_all_push<T>(m: TilesView<T>, rs: Seq<(usize, ProgressReport<T>)>, i: int)
    requires
        0 <= i < rs.len(),
    ensures
        m.report_all(rs.take(i + 1)) == m.report_all(rs.take(i)).report(rs[i].0 as int, rs[i].1),
{
    assert(rs.take(i + 1).drop_last() =~= rs.take(i));
}

/// Reports taken in order keep the view well-formed and every terminal tile as it was.
pub proof fn lemma_report_all_wf<T>(m: TilesView<T>, rs: Seq<(usize, ProgressReport<T>)>)
    requires
        m.wf(),
    ensures
        m.report_all(rs).wf(),
        keeps_terminal(m, m.report_all(rs)),
    decreases rs.len(),
{
    if rs.len() > 0 {
        lemma_report_all_wf(m, rs.drop_last());
        lemma_report_wf(m.report_all(rs.drop_last()), rs.last().0 as int, rs.last().1);
    }
}

} // verus!
