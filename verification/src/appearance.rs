//! Which model a spawned entity gets: procedural models built in code, and
//! the identity marker of each faction.

use vstd::prelude::*;

use crate::lobby::Faction;
use crate::text::same_text;

verus! {

/// Entities whose model is built in code.
#[derive(Clone, Copy, Debug, PartialEq, Eq, Structural)]
pub enum ProceduralEntityModel {
    LandMine,
    TeslaFenceSegment,
}

impl ProceduralEntityModel {
    /// The procedural model of an entity kind, if it has one.
    pub fn for_entity_id(id: &str) -> (model: Option<ProceduralEntityModel>)
        ensures
            model == (if id@ == "LandMine"@ {
                Some(ProceduralEntityModel::LandMine)
            } else if id@ == "TeslaFenceSegment"@ {
                Some(ProceduralEntityModel::TeslaFenceSegment)
            } else {
                None
            }),
    {
        if same_text(id, "LandMine") {
            Some(ProceduralEntityModel::LandMine)
        } else if same_text(id, "TeslaFenceSegment") {
            Some(ProceduralEntityModel::TeslaFenceSegment)
        } else {
            None
        }
    }

    /// Number of mesh parts the model is built from.
    pub fn part_count(self) -> (count: usize)
        ensures
            count == (match self {
                ProceduralEntityModel::LandMine => 2usize,
                ProceduralEntityModel::TeslaFenceSegment => 7usize,
            }),
    {
        match self {
            ProceduralEntityModel::LandMine => 2,
            ProceduralEntityModel::TeslaFenceSegment => 7,
        }
    }
}

/// The emblem above a faction's units.
#[derive(Clone, Copy, Debug, PartialEq, Eq, Structural)]
pub enum FactionIdentityMarker {
    Human,
    Demon,
    Chaos,
}

impl FactionIdentityMarker {
    /// The marker of a faction: the Alliance shows the human marker.
    pub fn for_faction(faction: Faction) -> (marker: FactionIdentityMarker)
        ensures
            marker == (match faction {
                Faction::Alliance => FactionIdentityMarker::Human,
                Faction::Demon => FactionIdentityMarker::Demon,
                Faction::Chaos => FactionIdentityMarker::Chaos,
            }),
    {
        match faction {
            Faction::Alliance => FactionIdentityMarker::Human,
            Faction::Demon => FactionIdentityMarker::Demon,
            Faction::Chaos => FactionIdentityMarker::Chaos,
        }
    }

    /// Number of mesh parts the marker is built from.
    pub fn part_count(self) -> (count: usize)
        ensures
            count == (match self {
                FactionIdentityMarker::Human => 2usize,
                FactionIdentityMarker::Demon => 3usize,
                FactionIdentityMarker::Chaos => 2usize,
            }),
    {
        match self {
            FactionIdentityMarker::Human => 2,
            FactionIdentityMarker::Demon => 3,
            FactionIdentityMarker::Chaos => 2,
        }
    }
}

} // verus!
