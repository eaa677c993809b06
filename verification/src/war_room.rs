//! The buttons of the online war room: each click turns into the lobby
//! command it asks the host for.

use vstd::prelude::*;

use crate::lobby::{
    human_count_spec, human_slot_spec, map_position, AiDifficulty, CatalogView, LobbyCatalog, LobbyCommand,
    LobbySnapshot, OccupantView, SlotOccupant,
};

verus! {

/// Toggle ready: the command flips the readiness of the local player's row,
/// when the local player sits in the war room.
pub fn toggle_ready_command(lobby: Option<&LobbySnapshot>, local_player: Option<u64>) -> (command: Option<LobbyCommand>)
    ensures
        match (lobby, local_player) {
            (Some(lobby), Some(player_id)) => match human_slot_spec(lobby@.slots, player_id) {
                Some(slot) => match lobby@.slots[slot].occupant {
                    OccupantView::Human { ready, .. } => command matches Some(LobbyCommand::Ready(flag)) && flag == !ready,
                    _ => command is None,
                },
                None => command is None,
            },
            _ => command is None,
        },
{
    let lobby = match lobby {
        Some(lobby) => lobby,
        None => {
            return None;
        },
    };
    let player_id = match local_player {
        Some(player_id) => player_id,
        None => {
            return None;
        },
    };
    match lobby.human_slot(player_id) {
        Some(slot) => match &lobby.slots[slot].occupant {
            SlotOccupant::Human { ready, .. } => Some(LobbyCommand::Ready(!*ready)),
            _ => None,
        },
        None => None,
    }
}

/// The map after `current` in the catalog (wrapping around, `current`
/// itself last) with room for at least `minimum` players, searching from
/// `offset` on.
pub open spec fn next_map_from(catalog: CatalogView, current: int, minimum: nat, offset: int) -> Option<int>
    decreases catalog.maps.len() + 1 - offset,
{
    if offset < 1 || offset > catalog.maps.len() {
        None
    } else {
        let index = (current + offset) % (catalog.maps.len() as int);
        if catalog.maps[index].players >= minimum {
            Some(index)
        } else {
            next_map_from(catalog, current, minimum, offset + 1)
        }
    }
}

/// Cycle map: the next map of the catalog with room for every human in the
/// war room; the current map counts as the first when it is unknown.
pub open spec fn cycled_map(catalog: CatalogView, map_id: Seq<char>, humans: nat) -> Option<int> {
    let current = match map_position(catalog.maps, map_id) {
        Some(i) => i,
        None => 0,
    };
    next_map_from(catalog, current, humans, 1)
}

/// Cycle map: the command to select the next map that fits every human.
pub fn cycle_map_command(lobby: &LobbySnapshot, catalog: &LobbyCatalog) -> (command: Option<LobbyCommand>)
    requires
        catalog@.maps.len() > 0,
    ensures
        match cycled_map(catalog@, lobby@.map_id, human_count_spec(lobby@.slots)) {
            Some(index) => command matches Some(LobbyCommand::SelectMap { map_id }) && map_id@ == catalog@.maps[index].id,
            None => command is None,
        },
{
    let count = catalog.maps.len();
    let current: usize = match crate::lobby::find_map(catalog, &lobby.map_id) {
        Some(index) => index,
        None => 0,
    };
    let minimum = lobby.human_count();
    let mut step: usize = 0;
    while step < count
        invariant
            count == catalog@.maps.len(),
            count > 0,
            current < count,
            step <= count,
            current == match map_position(catalog@.maps, lobby@.map_id) {
                Some(i) => i,
                None => 0,
            },
            minimum == human_count_spec(lobby@.slots),
            cycled_map(catalog@, lobby@.map_id, minimum as nat) == next_map_from(catalog@, current as int, minimum as nat, step + 1),
        decreases count - step,
    {
        let offset = step + 1;
        let gap = count - current;
        let index = if offset < gap { current + offset } else { offset - gap };
        proof {
            let c = current as int;
            let o = offset as int;
            let n = count as int;
            if o < n - c {
                assert((c + o) % n == c + o) by (nonlinear_arith)
                    requires
                        0 <= c + o < n,
                ;
            } else {
                assert((c + o) % n == c + o - n) by (nonlinear_arith)
                    requires
                        n <= c + o < 2 * n,
                ;
            }
        }
        if catalog.maps[index].players >= minimum {
            return Some(LobbyCommand::SelectMap { map_id: catalog.maps[index].id.clone() });
        }
        step = step + 1;
    }
    None
}

/// Cycle starting resources: the next option, wrapping around; the first
/// option without a war room.
pub fn cycle_resources_command(lobby: Option<&LobbySnapshot>, catalog: &LobbyCatalog) -> (command: LobbyCommand)
    requires
        catalog@.starting_resource_option_count > 0,
        lobby matches Some(lobby) ==> lobby@.starting_resources_index < usize::MAX,
    ensures
        command@ == crate::lobby::CommandView::StartingResources(match lobby {
            Some(lobby) => ((lobby@.starting_resources_index + 1) % (catalog@.starting_resource_option_count as int)) as usize,
            None => 0,
        }),
{
    let next = match lobby {
        Some(lobby) => {
            (lobby.starting_resources_index + 1) % catalog.starting_resource_option_count
        },
        None => 0,
    };
    LobbyCommand::StartingResources(next)
}

/// Cycle victory condition: the next one, wrapping around; the first without
/// a war room.
pub fn cycle_victory_command(lobby: Option<&LobbySnapshot>, catalog: &LobbyCatalog) -> (command: LobbyCommand)
    requires
        catalog@.victory_condition_count > 0,
        lobby matches Some(lobby) ==> lobby@.victory_condition_index < usize::MAX,
    ensures
        command@ == crate::lobby::CommandView::VictoryCondition(match lobby {
            Some(lobby) => ((lobby@.victory_condition_index + 1) % (catalog@.victory_condition_count as int)) as usize,
            None => 0,
        }),
{
    let next = match lobby {
        Some(lobby) => {
            (lobby.victory_condition_index + 1) % catalog.victory_condition_count
        },
        None => 0,
    };
    LobbyCommand::VictoryCondition(next)
}

/// Cycle a row's occupant: open, then an easy AI, then closed, then open
/// again; a human's row does not cycle.
pub open spec fn cycled_occupant(occupant: OccupantView) -> Option<OccupantView> {
    match occupant {
        OccupantView::Open => Some(OccupantView::Ai(AiDifficulty::Easy)),
        OccupantView::Ai(_) => Some(OccupantView::Closed),
        OccupantView::Closed => Some(OccupantView::Open),
        OccupantView::Human { .. } => None,
    }
}

/// Cycle the occupant of row `slot`.
pub fn cycle_occupant_command(lobby: Option<&LobbySnapshot>, slot: usize) -> (command: Option<LobbyCommand>)
    ensures
        match lobby {
            Some(lobby) => if slot < lobby@.slots.len() {
                match cycled_occupant(lobby@.slots[slot as int].occupant) {
                    Some(next) => command matches Some(c) && c@ == crate::lobby::CommandView::SlotOccupant { slot, occupant: next },
                    None => command is None,
                }
            } else {
                command is None
            },
            None => command is None,
        },
{
    let lobby = match lobby {
        Some(lobby) => lobby,
        None => {
            return None;
        },
    };
    if slot >= lobby.slots.len() {
        return None;
    }
    let next = match &lobby.slots[slot].occupant {
        SlotOccupant::Open => SlotOccupant::Ai(AiDifficulty::Easy),
        SlotOccupant::Ai(_) => SlotOccupant::Closed,
        SlotOccupant::Closed => SlotOccupant::Open,
        SlotOccupant::Human { .. } => {
            return None;
        },
    };
    Some(LobbyCommand::SlotOccupant { slot, occupant: next })
}

/// Cycle the faction of row `slot` to the next one.
pub fn cycle_faction_command(lobby: Option<&LobbySnapshot>, slot: usize) -> (command: Option<LobbyCommand>)
    ensures
        match lobby {
            Some(lobby) => if slot < lobby@.slots.len() {
                command matches Some(c) && c@ == crate::lobby::CommandView::Faction { slot, faction: lobby@.slots[slot as int].faction.successor() }
            } else {
                command is None
            },
            None => command is None,
        },
{
    let lobby = match lobby {
        Some(lobby) => lobby,
        None => {
            return None;
        },
    };
    if slot >= lobby.slots.len() {
        return None;
    }
    Some(LobbyCommand::Faction { slot, faction: lobby.slots[slot].faction.next() })
}

/// Cycle the team of row `slot`: the next team number, wrapping at the
/// largest war room.
pub fn cycle_team_command(lobby: Option<&LobbySnapshot>, slot: usize, catalog: &LobbyCatalog) -> (command: Option<LobbyCommand>)
    requires
        catalog@.max_lobby_slots > 0,
        lobby matches Some(lobby) ==> slot < lobby@.slots.len() ==> lobby@.slots[slot as int].team_id < usize::MAX,
    ensures
        match lobby {
            Some(lobby) => if slot < lobby@.slots.len() {
                command matches Some(c) && c@ == crate::lobby::CommandView::Team {
                    slot,
                    team_id: ((lobby@.slots[slot as int].team_id + 1) % (catalog@.max_lobby_slots as int)) as usize,
                }
            } else {
                command is None
            },
            None => command is None,
        },
{
    let lobby = match lobby {
        Some(lobby) => lobby,
        None => {
            return None;
        },
    };
    if slot >= lobby.slots.len() {
        return None;
    }
    let team_id = lobby.slots[slot].team_id;
    let next = (team_id + 1) % catalog.max_lobby_slots;
    Some(LobbyCommand::Team { slot, team_id: next })
}

/// Cycle the color of row `slot`: the next palette entry, wrapping around.
pub fn cycle_color_command(lobby: Option<&LobbySnapshot>, slot: usize, catalog: &LobbyCatalog) -> (command: Option<LobbyCommand>)
    requires
        catalog@.color_palette_len > 0,
        lobby matches Some(lobby) ==> slot < lobby@.slots.len() ==> lobby@.slots[slot as int].color_slot < usize::MAX,
    ensures
        match lobby {
            Some(lobby) => if slot < lobby@.slots.len() {
                command matches Some(c) && c@ == crate::lobby::CommandView::Color {
                    slot,
                    color_slot: ((lobby@.slots[slot as int].color_slot + 1) % (catalog@.color_palette_len as int)) as usize,
                }
            } else {
                command is None
            },
            None => command is None,
        },
{
    let lobby = match lobby {
        Some(lobby) => lobby,
        None => {
            return None;
        },
    };
    if slot >= lobby.slots.len() {
        return None;
    }
    let color = lobby.slots[slot].color_slot;
    let next = (color + 1) % catalog.color_palette_len;
    Some(LobbyCommand::Color { slot, color_slot: next })
}

} // verus!
