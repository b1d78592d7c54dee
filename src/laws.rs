use crate::model::{keeps_terminal, lemma_query_wf, lemma_report_wf, TilesView};
use crate::progress::ProgressReport;
use crate::tile::TileCoord;
use vstd::prelude::*;
use vstd::set_lib::{lemma_int_range, lemma_len_subset, lemma_map_size_bound, set_int_range};

verus! {

/// Until a worker reports back, querying a tile again changes nothing, hands out
/// no job, and shows the same image as the first query did.
pub proof fn lemma_pending_query_repeats<T>(m: TilesView<T>, c: TileCoord)
    requires
        m.wf(),
    ensures
        m.query(c).0.query(c) == (m.query(c).0, None::<crate::model::DrawJob>),
        m.query(c).0.shown(c) == m.shown(c),
{
}

/// A tile in a terminal state keeps that state through any query and any report.
pub proof fn lemma_terminal_state_final<T>(
    m: TilesView<T>,
    c: TileCoord,
    slot: int,
    r: ProgressReport<T>,
)
    requires
        m.wf(),
    ensures
        keeps_terminal(m, m.query(c).0),
        keeps_terminal(m, m.report(slot, r)),
        m.query(c).0.wf(),
        m.report(slot, r).wf(),
{
    lemma_query_wf(m, c);
    lemma_report_wf(m, slot, r);
}

/// There are never more tiles in flight than worker slots.
pub proof fn lemma_in_flight_bounded<T>(m: TilesView<T>)
    requires
        m.wf(),
    ensures
        m.in_flight().finite(),
        m.in_flight().len() <= m.slots.len(),
{
    let n = m.slots.len() as int;
    let busy = Set::new(|i: int| 0 <= i < n && m.slots[i] is Some);
    let job = |i: int| m.slots[i]->Some_0;
    lemma_int_range(0, n);
    lemma_len_subset(busy, set_int_range(0, n));
    assert forall|c: TileCoord| #[trigger] busy.map(job).contains(c) == m.in_flight().contains(c) by {
        if m.in_flight().contains(c) {
            let i = choose|i: int| m.works_on(i, c);
            assert(busy.contains(i) && job(i) == c);
        }
        if busy.map(job).contains(c) {
            let i = choose|i: int| busy.contains(i) && job(i) == c;
            assert(m.works_on(i, c));
        }
    }
    assert(busy.map(job) =~= m.in_flight());
    lemma_map_size_bound(busy, m.in_flight(), job);
}

/// A tile outside the grid of its zoom level is never handed out and changes
/// nothing, whatever the workers are doing.
pub proof fn lemma_unsupported_tile<T>(m: TilesView<T>, c: TileCoord)
    requires
        !c.spec_is_supported(),
    ensures
        m.query(c) == (m, None::<crate::model::DrawJob>),
{
}

/// A query hands out a job only for a tile that no worker works on and that
/// the cache has never seen, so no tile is ever rendered twice at once.
pub proof fn lemma_no_double_dispatch<T>(m: TilesView<T>, c: TileCoord)
    requires
        m.wf(),
    ensures
        m.in_flight().contains(c) ==> m.query(c).1 is None,
        m.query(c).1 matches Some(j) ==> {
            &&& j.coord == c
            &&& !m.states.contains_key(c)
            &&& forall|i: int| !m.works_on(i, c)
        },
        forall|i: int, j: int, d: TileCoord|
            #![trigger m.query(c).0.works_on(i, d), m.query(c).0.works_on(j, d)]
            m.query(c).0.works_on(i, d) && m.query(c).0.works_on(j, d) ==> i == j,
{
    lemma_query_wf(m, c);
    if m.query(c).1 is Some {
        assert forall|i: int| !m.works_on(i, c) by {
            if m.works_on(i, c) {
                assert(m.in_flight().contains(c));
            }
        }
    }
}

} // verus!
