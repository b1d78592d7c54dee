use crate::cache::TileCache;
use crate::model::{
    keeps_terminal, lemma_query_wf, lemma_report_all_push, lemma_report_all_wf, lemma_report_wf,
    DrawJob, TilesView,
};
use crate::pool::{all_free, has_free, WorkerPool};
use crate::progress::{ProgressReport, TileState};
use crate::tile::TileCoord;
use vstd::pervasive::cloned;
use vstd::prelude::*;

verus! {

/// The images shown in place of a tile that is not finished, one per state.
pub struct Placeholders<T> {
    pub waiting: T,
    pub collecting: T,
    pub styling: T,
    pub drawing: T,
    pub empty: T,
    pub failed: T,
}

impl<T> Placeholders<T> {
    /// The image for a tile in state `s`: its texture once it is `Ready`, else
    /// the placeholder of the state.
    pub open spec fn image(self, s: TileState<T>) -> T {
        match s {
            TileState::Waiting => self.waiting,
            TileState::Collecting => self.collecting,
            TileState::Styling => self.styling,
            TileState::Drawing => self.drawing,
            TileState::Ready(t) => t,
            TileState::Empty => self.empty,
            TileState::Failed => self.failed,
        }
    }
}

/// What a query hands back: the image to draw, `None` for a tile outside the
/// grid, and the job to send to a worker, if the query handed one out.
#[derive(Debug)]
pub struct TileAnswer<T> {
    pub texture: Option<T>,
    pub dispatch: Option<DrawJob>,
}

/// Renders map tiles from local geodata on a fixed set of workers, and answers
/// each frame's queries without waiting for them.
///
/// The caller runs the workers: it sends each `DrawJob` that a query hands out
/// to the worker of its slot, and passes every report that comes back to
/// `apply_report`. Only the caller's thread touches this value.
pub struct LocalOSMTiles<T> {
    pool: WorkerPool,
    cache: TileCache<T>,
    images: Placeholders<T>,
}

impl<T> View for LocalOSMTiles<T> {
    type V = TilesView<T>;

    closed spec fn view(&self) -> TilesView<T> {
        TilesView { slots: self.pool@, states: self.cache@ }
    }
}

impl<T> LocalOSMTiles<T> {
    pub open spec fn wf(&self) -> bool {
        self@.wf()
    }

    /// The placeholder images.
    pub closed spec fn images(&self) -> Placeholders<T> {
        self.images
    }

    /// A provider with `workers` idle worker slots and an empty cache.
    pub fn new(workers: usize, images: Placeholders<T>) -> (r: Self)
        requires
            workers >= 1,
        ensures
            r.wf(),
            r@.slots == Seq::new(workers as nat, |i: int| None::<TileCoord>),
            r@.states == Map::<TileCoord, TileState<T>>::empty(),
            r.images() == images,
    {
        let r = LocalOSMTiles { pool: WorkerPool::new(workers), cache: TileCache::new(), images };
        assert(r@.in_flight() =~= Set::empty());
        r
    }

    /// The number of worker slots.
    pub fn pool_size(&self) -> (r: usize)
        ensures
            r == self@.slots.len(),
    {
        self.pool.size()
    }

    /// The state of `coord`, or `None` for a tile that has not been handed to a
    /// worker yet.
    pub fn state(&self, coord: &TileCoord) -> (r: Option<&TileState<T>>)
        ensures
            r matches Some(s) ==> self@.states.contains_key(*coord) && *s == self@.states[*coord],
            r is None ==> !self@.states.contains_key(*coord),
    {
        self.cache.get(coord)
    }

    /// No worker has a job, so there is no report to wait for.
    pub fn is_idle(&self) -> (r: bool)
        ensures
            r == all_free(self@.slots),
    {
        self.pool.is_idle()
    }

    /// Every worker has a job, so no tile can be handed out now.
    pub fn is_busy(&self) -> (r: bool)
        ensures
            r == !has_free(self@.slots),
    {
        self.pool.is_busy()
    }

    /// Takes a report that the worker of slot `slot` sent. A report from a slot
    /// that does not work on its tile, or one that would move its tile backwards,
    /// is ignored; the result says whether the report was taken.
    pub fn apply_report(&mut self, slot: usize, report: ProgressReport<T>) -> (r: bool)
        requires
            old(self).wf(),
        ensures
            final(self).wf(),
            r == old(self)@.accepts(slot as int, report),
            final(self)@ == old(self)@.report(slot as int, report),
            keeps_terminal(old(self)@, final(self)@),
            final(self).images() == old(self).images(),
    {
        proof {
            lemma_report_wf(self@, slot as int, report);
        }
        let coord = report.coord();
        if slot >= self.pool.size() {
            return false;
        }
        match self.pool.job(slot) {
            Some(job) => {
                if job != coord {
                    return false;
                }
            },
            None => {
                return false;
            },
        }
        let current = match self.cache.get(&coord) {
            Some(s) => s.rank(),
            None => {
                return false;
            },
        };
        if current >= report.rank() {
            return false;
        }
        let terminal = report.rank() == 4;
        self.cache.insert(coord, report.into_state());
        if terminal {
            self.pool.release(slot);
        }
        proof {
            assert(self@.slots =~= old(self)@.report(slot as int, report).slots);
        }
        true
    }

    /// Takes the reports `reports`, in order, as `apply_report` does.
    pub fn apply_reports(&mut self, reports: Vec<(usize, ProgressReport<T>)>)
        requires
            old(self).wf(),
        ensures
            final(self).wf(),
            final(self)@ == old(self)@.report_all(reports@),
            keeps_terminal(old(self)@, final(self)@),
            final(self).images() == old(self).images(),
    {
        let ghost start = self@;
        let ghost all = reports@;
        let total = reports.len();
        let mut rest = reports;
        let mut i: usize = 0;
        proof {
            assert(all.take(0) =~= Seq::<(usize, ProgressReport<T>)>::empty());
        }
        while rest.len() > 0
            invariant
                i + rest@.len() == all.len(),
                all.len() == total,
                rest@ == all.skip(i as int),
                self.wf(),
                self@ == start.report_all(all.take(i as int)),
                self.images() == old(self).images(),
            decreases rest@.len(),
        {
            let (slot, report) = rest.remove(0);
            proof {
                assert(all[i as int] == (slot, report));
                lemma_report_all_push(start, all, i as int);
            }
            self.apply_report(slot, report);
            i = i + 1;
            proof {
                assert(rest@ =~= all.skip(i as int));
            }
        }
        proof {
            assert(all.take(i as int) =~= all);
            lemma_report_all_wf(start, all);
        }
    }

    /// The image for tile `coord`, and the job that the query hands out.
    ///
    /// A tile outside the grid gets no image and no job. A supported tile that the
    /// cache has not seen is handed to the lowest free worker slot, if there is
    /// one, and becomes `Waiting`; with every slot busy it stays unseen, and a later
    /// query tries again. The image is the texture of a `Ready` tile, and the
    /// placeholder of its state for any other (`waiting` for an unseen tile).
    pub fn at(&mut self, coord: TileCoord) -> (r: TileAnswer<T>)
        where T: Clone
        requires
            old(self).wf(),
        ensures
            final(self).wf(),
            final(self)@ == old(self)@.query(coord).0,
            r.dispatch == old(self)@.query(coord).1,
            r.texture is None <==> !coord.spec_is_supported(),
            r.texture matches Some(t) ==> cloned(old(self).images().image(old(self)@.shown(coord)), t),
            keeps_terminal(old(self)@, final(self)@),
            final(self).images() == old(self).images(),
    {
        proof {
            lemma_query_wf(self@, coord);
        }
        if !coord.is_supported() {
            return TileAnswer { texture: None, dispatch: None };
        }
        let texture = match self.cache.get(&coord) {
            Some(state) => {
                let image = match state {
                    TileState::Waiting => self.images.waiting.clone(),
                    TileState::Collecting => self.images.collecting.clone(),
                    TileState::Styling => self.images.styling.clone(),
                    TileState::Drawing => self.images.drawing.clone(),
                    TileState::Ready(t) => t.clone(),
                    TileState::Empty => self.images.empty.clone(),
                    TileState::Failed => self.images.failed.clone(),
                };
                return TileAnswer { texture: Some(image), dispatch: None };
            },
            None => self.images.waiting.clone(),
        };
        let dispatch = match self.pool.draw_request(coord) {
            Some(slot) => {
                self.cache.insert(coord, TileState::Waiting);
                Some(DrawJob { slot, coord })
            },
            None => None,
        };
        TileAnswer { texture: Some(texture), dispatch }
    }
}

} // verus!
