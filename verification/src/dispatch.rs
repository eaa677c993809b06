//! The host's checks on each kind of player command, in the order it makes
//! them, from the command and the facts it looked up to the action it
//! takes. Floating-point facts (a point being finite, sites overlapping,
//! the nearest builder) arrive as plain values.

use vstd::prelude::*;

use crate::netcmd::{
    entity_with_id, online_entity_id_acceptable, production_cancel_request, rally_target_permitted, request_granted,
    resolve_online_constructors, resolve_online_producers, resolve_owned_online_structure_entities, Eligibility, EntityFacts,
    ProductionCancel, ONLINE_MAX_CONSTRUCTORS_PER_COMMAND, ONLINE_MAX_ENTITY_ID_BYTES, ONLINE_MAX_PRODUCERS_PER_COMMAND,
    ONLINE_MAX_RALLY_STRUCTURES_PER_COMMAND,
};
use crate::team::Team;
use crate::text::utf8_bytes;

verus! {

/// A product or structure id a peer may name and the registry knows.
pub open spec fn known_entity_id(id: Seq<char>, known: bool) -> bool {
    id.len() > 0 && utf8_bytes(id) <= ONLINE_MAX_ENTITY_ID_BYTES && known
}

/// The requested entities resolved to positions in `entities`, one per id.
pub open spec fn resolved_to(requested: Seq<u64>, entities: Seq<EntityFacts>, positions: Seq<usize>) -> bool {
    positions.len() == requested.len()
        && forall|k: int| 0 <= k < requested.len() ==> entity_with_id(entities, requested[k]) == Some(#[trigger] positions[k] as int)
}

/// A training command: the product id must be well formed and known, every
/// named producer a finished structure of the sender's team that can make
/// it, and the product's prerequisites must stand. Returns the producers'
/// positions, at which the caller then enqueues.
pub fn decide_train_units(
    team: Team,
    product_id: &str,
    product_known: bool,
    requested: &Vec<u64>,
    entities: &Vec<EntityFacts>,
    requirements_met: bool,
) -> (producers: Option<Vec<usize>>)
    ensures
        producers is Some <==> (known_entity_id(product_id@, product_known)
            && request_granted(Eligibility::Producer, team, requested@, entities@, ONLINE_MAX_PRODUCERS_PER_COMMAND, false)
            && requirements_met),
        producers matches Some(positions) ==> resolved_to(requested@, entities@, positions@),
{
    if !online_entity_id_acceptable(product_id) || !product_known {
        return None;
    }
    let positions = match resolve_online_producers(team, requested, entities) {
        Some(positions) => positions,
        None => return None,
    };
    if !requirements_met {
        return None;
    }
    Some(positions)
}

/// A cancel-production command: the product id must be well formed and
/// known, every named producer a finished structure of the sender's team,
/// and a named queue position needs a single producer and a position inside
/// the queue limit.
pub fn decide_cancel_production(
    team: Team,
    product_id: &str,
    product_known: bool,
    requested: &Vec<u64>,
    entities: &Vec<EntityFacts>,
    local_index: Option<u16>,
) -> (decision: Option<(Vec<usize>, ProductionCancel)>)
    ensures
        decision is Some <==> (known_entity_id(product_id@, product_known)
            && request_granted(Eligibility::OwnedConstructedStructure, team, requested@, entities@, ONLINE_MAX_PRODUCERS_PER_COMMAND, false)
            && production_cancel_request_spec(requested@.len(), local_index) is Some),
        decision matches Some((positions, cancel)) ==> resolved_to(requested@, entities@, positions@)
            && Some(cancel) == production_cancel_request_spec(requested@.len(), local_index),
{
    if !online_entity_id_acceptable(product_id) || !product_known {
        return None;
    }
    let positions = match resolve_owned_online_structure_entities(team, requested, ONLINE_MAX_PRODUCERS_PER_COMMAND, entities) {
        Some(positions) => positions,
        None => return None,
    };
    match production_cancel_request(positions.len(), local_index) {
        Some(cancel) => Some((positions, cancel)),
        None => None,
    }
}

/// Which job a cancel takes back; see `production_cancel_request`.
pub open spec fn production_cancel_request_spec(producer_count: nat, local_index: Option<u16>) -> Option<ProductionCancel> {
    match local_index {
        None => Some(ProductionCancel::Latest),
        Some(index) => if producer_count == 1 && (index as usize) < crate::production::PRODUCTION_QUEUE_LIMIT {
            Some(ProductionCancel::AtLocalIndex(index as usize))
        } else {
            None
        },
    }
}

/// Who builds a structure placed by a command.
#[derive(Clone, Copy, Debug, PartialEq, Eq, Structural)]
pub enum PlacementBuilders {
    /// The named builders, whose positions come with the decision.
    Named,
    /// None was named: the sender's nearest builder, at this position.
    Nearest(usize),
}

/// A placement command: the structure id must be well formed and known, the
/// point and rotation finite, the site clear of sites accepted earlier in
/// the tick, and every named builder a living builder of the sender's team
/// (at most 64). When none is named the nearest builder takes the job, and
/// without one the command is dropped. Returns the named builders'
/// positions and who builds.
pub fn decide_place_structure(
    team: Team,
    structure_id: &str,
    structure_known: bool,
    site_finite: bool,
    overlaps_accepted_site: bool,
    requested: &Vec<u64>,
    entities: &Vec<EntityFacts>,
    nearest_builder: Option<usize>,
) -> (decision: Option<(Vec<usize>, PlacementBuilders)>)
    ensures
        decision is Some <==> (known_entity_id(structure_id@, structure_known)
            && site_finite && !overlaps_accepted_site
            && request_granted(Eligibility::Constructor, team, requested@, entities@, ONLINE_MAX_CONSTRUCTORS_PER_COMMAND, true)
            && (requested@.len() > 0 || nearest_builder is Some)),
        decision matches Some((positions, builders)) ==> resolved_to(requested@, entities@, positions@)
            && builders == (if requested@.len() > 0 { PlacementBuilders::Named } else { PlacementBuilders::Nearest(nearest_builder->0) }),
{
    if !online_entity_id_acceptable(structure_id) || !structure_known {
        return None;
    }
    if !site_finite || overlaps_accepted_site {
        return None;
    }
    let positions = match resolve_online_constructors(team, requested, entities) {
        Some(positions) => positions,
        None => return None,
    };
    if positions.len() > 0 {
        return Some((positions, PlacementBuilders::Named));
    }
    match nearest_builder {
        Some(builder) => Some((positions, PlacementBuilders::Nearest(builder))),
        None => None,
    }
}

/// What the host knows of the entity a rally command points at.
#[derive(Clone, Copy, Debug, PartialEq, Eq, Structural)]
pub struct RallyTargetFacts<V> {
    pub entity: u64,
    pub position: V,
    pub alive: bool,
    pub is_resource: bool,
    pub resource_left: bool,
    pub allied: bool,
    pub is_unit_or_structure: bool,
}

pub open spec fn rally_target_of<V>(target: Option<RallyTargetFacts<V>>) -> Option<(u64, V)> {
    match target {
        Some(t) => if t.alive && (!t.is_resource || t.resource_left) && (t.is_resource || (t.allied && t.is_unit_or_structure)) {
            Some((t.entity, t.position))
        } else {
            None
        },
        None => None,
    }
}

/// A rally command for `structure_count` structures (1 to 64): a named
/// target entity must exist (`target` is `None` when it does not) and be
/// one a rally point may follow; without a target entity the ground point
/// must lie on the map (`ground` is `None` when it does not). Returns the
/// unit target and the ground point to set on the sender's named
/// structures.
pub fn decide_rally_command<V: Copy>(
    structure_count: usize,
    names_target: bool,
    target: Option<RallyTargetFacts<V>>,
    ground: Option<V>,
) -> (decision: Option<(Option<(u64, V)>, Option<V>)>)
    ensures
        decision is Some <==> (0 < structure_count <= ONLINE_MAX_RALLY_STRUCTURES_PER_COMMAND
            && !(names_target && rally_target_of(target) is None)
            && !(rally_target_of(target) is None && ground is None)),
        decision matches Some(chosen) ==> chosen == (rally_target_of(target), ground),
{
    if structure_count == 0 || structure_count > ONLINE_MAX_RALLY_STRUCTURES_PER_COMMAND {
        return None;
    }
    let rally_target = match target {
        Some(t) => if rally_target_permitted(t.alive, t.is_resource, t.resource_left, t.allied, t.is_unit_or_structure) {
            Some((t.entity, t.position))
        } else {
            None
        },
        None => None,
    };
    if names_target && rally_target.is_none() {
        return None;
    }
    if rally_target.is_none() && ground.is_none() {
        return None;
    }
    Some((rally_target, ground))
}

} // verus!
