use vstd::prelude::*;

verus! {

/// Where the map's tiles come from.
#[derive(Clone, Copy, Debug, PartialEq, Eq, Hash, Structural)]
pub enum Source {
    /// Tiles fetched from the OpenStreetMap tile servers.
    OpenStreetMap,
    /// Tiles rendered here from the local geodata.
    LocalOSMTiles,
}

impl Source {
    /// The source selected at start: the local renderer when it could be set up,
    /// else the remote tiles.
    pub fn default_for(local_available: bool) -> (r: Source)
        ensures
            r == (if local_available {
                Source::LocalOSMTiles
            } else {
                Source::OpenStreetMap
            }),
    {
        if local_available {
            Source::LocalOSMTiles
        } else {
            Source::OpenStreetMap
        }
    }

    /// The sources on offer: the remote tiles always, and the local renderer when
    /// it could be set up.
    pub fn available(local_available: bool) -> (r: Vec<Source>)
        ensures
            r@ == (if local_available {
                seq![Source::OpenStreetMap, Source::LocalOSMTiles]
            } else {
                seq![Source::OpenStreetMap]
            }),
    {
        let mut r: Vec<Source> = Vec::new();
        r.push(Source::OpenStreetMap);
        if local_available {
            r.push(Source::LocalOSMTiles);
        }
        r
    }
}

} // verus!
