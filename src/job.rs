use crate::progress::ProgressReport;
use crate::tile::TileCoord;
use vstd::prelude::*;

verus! {

/// What a worker does next for its tile.
#[derive(Clone, Copy, Debug, PartialEq, Eq, Structural)]
pub enum JobStage {
    /// Read the geodata in and around the tile.
    Collecting,
    /// Resolve the styles of what was read.
    Styling,
    /// Rasterize the styled entities.
    Drawing,
    /// Nothing: the job has sent its terminal report.
    Finished,
}

impl JobStage {
    /// The rank, as `TileState::spec_rank` counts, of the last report that a job
    /// in this stage has sent.
    pub open spec fn spec_rank(self) -> nat {
        match self {
            JobStage::Collecting => 1,
            JobStage::Styling => 2,
            JobStage::Drawing => 3,
            JobStage::Finished => 4,
        }
    }
}

/// One tile's render job on a worker: collect the entities, style them, draw
/// them, reporting each step before taking it.
///
/// The steps run in a fixed order, with no retry and no cancel. A tile with
/// no entities, or none left after styling, ends with `EmptyResult`; one whose
/// rasterizing fails ends with `Failed`. Every report moves the tile strictly
/// forward, and the last one is terminal.
#[derive(Clone, Copy, Debug, PartialEq, Eq, Structural)]
pub struct RenderJob {
    pub coord: TileCoord,
    pub stage: JobStage,
}

impl RenderJob {
    /// Starts the job for `coord`, with the report that it has begun collecting.
    pub fn start<T>(coord: TileCoord) -> (r: (RenderJob, ProgressReport<T>))
        ensures
            r.0 == (RenderJob { coord, stage: JobStage::Collecting }),
            r.1 == ProgressReport::<T>::Collecting(coord),
            r.1.spec_state().spec_rank() == r.0.stage.spec_rank(),
    {
        (RenderJob { coord, stage: JobStage::Collecting }, ProgressReport::Collecting(coord))
    }

    /// The collecting step is over; `found` says whether it found any entity.
    pub fn entities_collected<T>(&mut self, found: bool) -> (r: ProgressReport<T>)
        requires
            old(self).stage == JobStage::Collecting,
        ensures
            final(self).coord == old(self).coord,
            found ==> final(self).stage == JobStage::Styling && r == ProgressReport::<T>::Styling(
                old(self).coord,
            ),
            !found ==> final(self).stage == JobStage::Finished && r
                == ProgressReport::<T>::EmptyResult(old(self).coord),
            r.spec_state().spec_rank() == final(self).stage.spec_rank(),
    {
        if found {
            self.stage = JobStage::Styling;
            ProgressReport::Styling(self.coord)
        } else {
            self.stage = JobStage::Finished;
            ProgressReport::EmptyResult(self.coord)
        }
    }

    /// The styling step is over; `any` says whether any styled entity is left.
    pub fn entities_styled<T>(&mut self, any: bool) -> (r: ProgressReport<T>)
        requires
            old(self).stage == JobStage::Styling,
        ensures
            final(self).coord == old(self).coord,
            any ==> final(self).stage == JobStage::Drawing && r == ProgressReport::<T>::Drawing(
                old(self).coord,
            ),
            !any ==> final(self).stage == JobStage::Finished && r
                == ProgressReport::<T>::EmptyResult(old(self).coord),
            r.spec_state().spec_rank() == final(self).stage.spec_rank(),
    {
        if any {
            self.stage = JobStage::Drawing;
            ProgressReport::Drawing(self.coord)
        } else {
            self.stage = JobStage::Finished;
            ProgressReport::EmptyResult(self.coord)
        }
    }

    /// The drawing step is over, with the finished texture or `None` if
    /// rasterizing failed.
    pub fn tile_drawn<T>(&mut self, texture: Option<T>) -> (r: ProgressReport<T>)
        requires
            old(self).stage == JobStage::Drawing,
        ensures
            final(self).coord == old(self).coord,
            final(self).stage == JobStage::Finished,
            texture matches Some(t) ==> r == ProgressReport::Done(old(self).coord, t),
            texture is None ==> r == ProgressReport::<T>::Failed(old(self).coord),
            r.spec_state().spec_rank() == final(self).stage.spec_rank(),
    {
        self.stage = JobStage::Finished;
        match texture {
            Some(t) => ProgressReport::Done(self.coord, t),
            None => ProgressReport::Failed(self.coord),
        }
    }

    /// The job has sent its terminal report.
    pub fn is_finished(&self) -> (r: bool)
        ensures
            r == (self.stage == JobStage::Finished),
    {
        self.stage == JobStage::Finished
    }
}

} // verus!
