//! A renderer of map tiles from local geodata, for a map widget that asks for
//! every visible tile once per frame: a fixed set of workers, each tile's
//! progress from request to texture, and a cache that never blocks the caller.

pub mod cache;
pub mod color;
pub mod job;
pub mod laws;
pub mod model;
pub mod pool;
pub mod progress;
pub mod provider;
pub mod source;
pub mod tile;

pub use cache::TileCache;
pub use color::{Color, ColorParseError};
pub use job::{JobStage, RenderJob};
pub use model::{DrawJob, TilesView};
pub use pool::{threads_to_terminate, WorkerPool};
pub use progress::{ProgressReport, TileState};
pub use provider::{LocalOSMTiles, Placeholders, TileAnswer};
pub use source::Source;
pub use tile::TileCoord;
