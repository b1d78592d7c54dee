use crate::tile::TileCoord;
use vstd::prelude::*;

verus! {

/// What the cache knows about one tile.
///
/// A tile with no entry has not been handed to a worker yet. Once handed over it
/// moves strictly forward: `Waiting`, then the stages that its worker reports,
/// then one of the terminal states `Ready`, `Empty` or `Failed`, which it keeps.
#[derive(Debug)]
pub enum TileState<T> {
    /// Handed to a worker that has not reported on it yet.
    Waiting,
    /// The worker is reading the geodata around the tile.
    Collecting,
    /// The worker is resolving the styles of the tile's entities.
    Styling,
    /// The worker is rasterizing the tile.
    Drawing,
    /// The finished texture.
    Ready(T),
    /// The tile has nothing to draw.
    Empty,
    /// Rasterizing the tile failed.
    Failed,
}

/// A message from a worker about the tile that it works on.
#[derive(Debug)]
pub enum ProgressReport<T> {
    Collecting(TileCoord),
    Styling(TileCoord),
    Drawing(TileCoord),
    Done(TileCoord, T),
    EmptyResult(TileCoord),
    Failed(TileCoord),
}

impl<T> TileState<T> {
    /// How far along the tile is: `Waiting` is 0 and the terminal states are 4.
    pub open spec fn spec_rank(self) -> nat {
        match self {
            TileState::Waiting => 0,
            TileState::Collecting => 1,
            TileState::Styling => 2,
            TileState::Drawing => 3,
            _ => 4,
        }
    }

    pub open spec fn spec_is_terminal(self) -> bool {
        self.spec_rank() == 4
    }

    pub fn rank(&self) -> (r: u8)
        ensures
            r as nat == self.spec_rank(),
    {
        match self {
            TileState::Waiting => 0,
            TileState::Collecting => 1,
            TileState::Styling => 2,
            TileState::Drawing => 3,
            _ => 4,
        }
    }

    pub fn is_terminal(&self) -> (r: bool)
        ensures
            r == self.spec_is_terminal(),
    {
        match self {
            TileState::Ready(_) | TileState::Empty | TileState::Failed => true,
            _ => false,
        }
    }
}

impl<T> ProgressReport<T> {
    pub open spec fn spec_coord(self) -> TileCoord {
        match self {
            ProgressReport::Collecting(c) => c,
            ProgressReport::Styling(c) => c,
            ProgressReport::Drawing(c) => c,
            ProgressReport::Done(c, _) => c,
            ProgressReport::EmptyResult(c) => c,
            ProgressReport::Failed(c) => c,
        }
    }

    /// The state that the report puts its tile in.
    pub open spec fn spec_state(self) -> TileState<T> {
        match self {
            ProgressReport::Collecting(_) => TileState::Collecting,
            ProgressReport::Styling(_) => TileState::Styling,
            ProgressReport::Drawing(_) => TileState::Drawing,
            ProgressReport::Done(_, t) => TileState::Ready(t),
            ProgressReport::EmptyResult(_) => TileState::Empty,
            ProgressReport::Failed(_) => TileState::Failed,
        }
    }

    /// A terminal report ends the job of the worker that sent it.
    pub open spec fn spec_is_terminal(self) -> bool {
        self.spec_state().spec_is_terminal()
    }

    pub fn coord(&self) -> (r: TileCoord)
        ensures
            r == self.spec_coord(),
    {
        match self {
            ProgressReport::Collecting(c) => *c,
            ProgressReport::Styling(c) => *c,
            ProgressReport::Drawing(c) => *c,
            ProgressReport::Done(c, _) => *c,
            ProgressReport::EmptyResult(c) => *c,
            ProgressReport::Failed(c) => *c,
        }
    }

    /// How far along the report puts its tile, as `TileState::rank` counts.
    pub fn rank(&self) -> (r: u8)
        ensures
            r as nat == self.spec_state().spec_rank(),
    {
        match self {
            ProgressReport::Collecting(_) => 1,
            ProgressReport::Styling(_) => 2,
            ProgressReport::Drawing(_) => 3,
            _ => 4,
        }
    }

    /// The state that the report puts its tile in.
    pub fn into_state(self) -> (r: TileState<T>)
        ensures
            r == self.spec_state(),
    {
        match self {
            ProgressReport::Collecting(_) => TileState::Collecting,
            ProgressReport::Styling(_) => TileState::Styling,
            ProgressReport::Drawing(_) => TileState::Drawing,
            ProgressReport::Done(_, t) => TileState::Ready(t),
            ProgressReport::EmptyResult(_) => TileState::Empty,
            ProgressReport::Failed(_) => TileState::Failed,
        }
    }
}

} // verus!
