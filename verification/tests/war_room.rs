use open_rts::lobby::{AiDifficulty, Faction, LobbyCatalog, LobbyCommand, LobbySnapshot, MapDef, SlotOccupant};
use open_rts::war_room::{
    cycle_color_command, cycle_faction_command, cycle_map_command, cycle_occupant_command, cycle_resources_command,
    cycle_team_command, cycle_victory_command, toggle_ready_command,
};

fn catalog() -> LobbyCatalog {
    LobbyCatalog {
        maps: vec![
            MapDef { id: "PlainAndSimple".to_string(), players: 4 },
            MapDef { id: "Duel".to_string(), players: 2 },
            MapDef { id: "Crossroads".to_string(), players: 3 },
        ],
        default_factions: vec![Faction::Alliance, Faction::Demon, Faction::Chaos, Faction::Alliance],
        default_starting_resources_index: 1,
        starting_resource_option_count: 4,
        victory_condition_count: 3,
        color_palette_len: 8,
        max_lobby_slots: 8,
    }
}

#[test]
fn map_cycling_skips_maps_too_small_for_the_humans() {
    let catalog = catalog();
    let mut lobby = LobbySnapshot::new("ABC123".to_string(), "Host".to_string(), &catalog);
    assert!(matches!(cycle_map_command(&lobby, &catalog), Some(LobbyCommand::SelectMap { ref map_id }) if map_id == "Duel"));
    lobby.slots[1].occupant = SlotOccupant::Human { player_id: 2, name: "B".to_string(), ready: false, connected: true };
    lobby.slots[2].occupant = SlotOccupant::Human { player_id: 3, name: "C".to_string(), ready: false, connected: true };
    assert!(matches!(cycle_map_command(&lobby, &catalog), Some(LobbyCommand::SelectMap { ref map_id }) if map_id == "Crossroads"));
    lobby.slots[3].occupant = SlotOccupant::Human { player_id: 4, name: "D".to_string(), ready: false, connected: true };
    assert!(matches!(cycle_map_command(&lobby, &catalog), Some(LobbyCommand::SelectMap { ref map_id }) if map_id == "PlainAndSimple"));
}

#[test]
fn option_cycles_wrap_around() {
    let catalog = catalog();
    let mut lobby = LobbySnapshot::new("ABC123".to_string(), "Host".to_string(), &catalog);
    lobby.starting_resources_index = 3;
    assert!(matches!(cycle_resources_command(Some(&lobby), &catalog), LobbyCommand::StartingResources(0)));
    assert!(matches!(cycle_resources_command(None, &catalog), LobbyCommand::StartingResources(0)));
    assert!(matches!(cycle_victory_command(Some(&lobby), &catalog), LobbyCommand::VictoryCondition(1)));
    lobby.slots[1].team_id = 7;
    lobby.slots[1].color_slot = 2;
    assert!(matches!(cycle_team_command(Some(&lobby), 1, &catalog), Some(LobbyCommand::Team { slot: 1, team_id: 0 })));
    assert!(matches!(cycle_color_command(Some(&lobby), 1, &catalog), Some(LobbyCommand::Color { slot: 1, color_slot: 3 })));
    assert!(matches!(cycle_faction_command(Some(&lobby), 1, ), Some(LobbyCommand::Faction { slot: 1, faction: Faction::Chaos })));
    assert!(cycle_faction_command(Some(&lobby), 9).is_none());
}

#[test]
fn occupants_cycle_open_ai_closed() {
    let catalog = catalog();
    let mut lobby = LobbySnapshot::new("ABC123".to_string(), "Host".to_string(), &catalog);
    assert!(matches!(cycle_occupant_command(Some(&lobby), 1), Some(LobbyCommand::SlotOccupant { occupant: SlotOccupant::Ai(AiDifficulty::Easy), .. })));
    lobby.slots[1].occupant = SlotOccupant::Ai(AiDifficulty::Hard);
    assert!(matches!(cycle_occupant_command(Some(&lobby), 1), Some(LobbyCommand::SlotOccupant { occupant: SlotOccupant::Closed, .. })));
    assert!(matches!(cycle_occupant_command(Some(&lobby), 2), Some(LobbyCommand::SlotOccupant { occupant: SlotOccupant::Open, .. })));
    assert!(cycle_occupant_command(Some(&lobby), 0).is_none());
}

#[test]
fn ready_toggles_the_local_players_flag() {
    let catalog = catalog();
    let lobby = LobbySnapshot::new("ABC123".to_string(), "Host".to_string(), &catalog);
    assert!(matches!(toggle_ready_command(Some(&lobby), Some(1)), Some(LobbyCommand::Ready(false))));
    assert!(toggle_ready_command(Some(&lobby), Some(5)).is_none());
    assert!(toggle_ready_command(None, Some(1)).is_none());
}
