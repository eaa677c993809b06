use open_rts::host::{host_handle_hello, prepare_lobby_for_rematch, AdmitError, HelloOutcome, HelloRejection, HostLobbyRuntime, RTS_ONLINE_PROTOCOL};
use open_rts::lifecycle::{LifecycleAction, LifecycleControl, OnlinePhase, RECONNECT_GRACE_MS};
use open_rts::lobby::{
    online_match_setup, AiDifficulty, Faction, LobbyCatalog, LobbyCommand, LobbySnapshot, MapDef, MatchConfig,
    MatchSetupError, PlayerController, SlotOccupant,
};
use open_rts::netcmd::{
    network_id_dynamic, network_id_map_resource, network_id_supply_crate, plan_snapshot_application, CommandEnvelope,
    LocalEntityFate,
    CommandInbox, CommandOutbox, Replication,
};
use open_rts::session::{
    new_session_key, online_client_match, online_match_is_authoritative, online_match_is_host,
    online_match_uses_command_transport, MatchEntry, OnlineSession, OnlineTextField, StartBlocked,
};
use open_rts::team::Team;

fn catalog() -> LobbyCatalog {
    LobbyCatalog {
        maps: vec![
            MapDef { id: "PlainAndSimple".to_string(), players: 4 },
            MapDef { id: "Duel".to_string(), players: 2 },
            MapDef { id: "Crossroads".to_string(), players: 3 },
        ],
        default_factions: vec![Faction::Alliance, Faction::Demon, Faction::Chaos, Faction::Alliance],
        default_starting_resources_index: 1,
        starting_resource_option_count: 4,
        victory_condition_count: 3,
        color_palette_len: 8,
        max_lobby_slots: 8,
    }
}

fn human(player_id: u64, name: &str, ready: bool, connected: bool) -> SlotOccupant {
    SlotOccupant::Human { player_id, name: name.to_string(), ready, connected }
}

#[test]
fn session_keys_are_random_browser_safe_identifiers() {
    let first = new_session_key();
    let second = new_session_key();
    assert_ne!(first, second);
    assert_eq!(first.len(), 32);
    assert!(first.bytes().all(|byte| byte.is_ascii_hexdigit()));
}

#[test]
fn session_keys_are_lowercase() {
    let key = new_session_key();
    assert!(key.chars().all(|c| c.is_ascii_digit() || ('a'..='f').contains(&c)));
}

#[test]
fn network_entity_namespaces_never_overlap() {
    let dynamic = network_id_dynamic(u32::MAX);
    let resource = network_id_map_resource(0);
    let next_resource = network_id_map_resource(1);
    let crate_id = network_id_supply_crate(0);

    assert_ne!(dynamic, resource);
    assert_ne!(resource, crate_id);
    assert_ne!(resource, next_resource);
}

#[test]
fn network_ids_carry_their_namespace_bits() {
    assert_eq!(network_id_dynamic(7), 7);
    assert_eq!(network_id_map_resource(5), 0x4000_0000_0000_0005);
    assert_eq!(network_id_supply_crate(5), 0x8000_0000_0000_0005);
}

#[test]
fn world_snapshot_rejects_stale_and_wrong_protocol_packets() {
    let mut replication: Replication<u64> = Replication::new();
    replication.last_applied_tick = 10;
    assert!(!replication.queue_snapshot(RTS_ONLINE_PROTOCOL, 10, 10));
    assert!(replication.queue_snapshot(RTS_ONLINE_PROTOCOL, 12, 12));
    assert!(!replication.queue_snapshot(RTS_ONLINE_PROTOCOL, 11, 11));
    assert!(!replication.queue_snapshot(RTS_ONLINE_PROTOCOL + 1, 13, 13));
    assert_eq!(replication.pending.unwrap().0, 12);
}

#[test]
fn replication_applies_each_snapshot_once() {
    let mut replication: Replication<u64> = Replication::new();
    assert!(replication.queue_snapshot(RTS_ONLINE_PROTOCOL, 5, 50));
    assert_eq!(replication.take_for_apply(), Some(50));
    assert_eq!(replication.last_applied_tick, 5);
    assert_eq!(replication.take_for_apply(), None);
    assert!(!replication.queue_snapshot(RTS_ONLINE_PROTOCOL, 5, 51));
    assert_eq!(replication.advance_tick(), 1);
    assert_eq!(replication.advance_tick(), 2);
}

#[test]
fn lobby_has_exactly_one_row_per_map_spawn() {
    let catalog = catalog();
    let lobby = LobbySnapshot::new("ABC123".to_string(), "Host".to_string(), &catalog);
    let map = &catalog.maps[lobby.map_index(&catalog)];
    assert_eq!(lobby.slots.len(), map.players);
    assert_eq!(lobby.slots[0].spawn_slot, 0);
    assert_eq!(lobby.slots.last().unwrap().spawn_slot, map.players - 1);
}

#[test]
fn new_lobby_seats_the_host_and_opens_one_guest_row() {
    let catalog = catalog();
    let lobby = LobbySnapshot::new("ABC123".to_string(), "Host".to_string(), &catalog);
    assert_eq!(lobby.revision, 1);
    assert_eq!(lobby.host_player_id, 1);
    assert_eq!(lobby.starting_resources_index, 1);
    assert!(matches!(lobby.slots[0].occupant, SlotOccupant::Human { player_id: 1, ready: true, connected: true, .. }));
    assert!(matches!(lobby.slots[1].occupant, SlotOccupant::Open));
    assert!(matches!(lobby.slots[2].occupant, SlotOccupant::Closed));
    assert_eq!(lobby.slots[1].faction, Faction::Demon);
    assert!(!lobby.can_start());
}

#[test]
fn reconnecting_player_keeps_public_identity_and_slot() {
    let catalog = catalog();
    let mut lobby = LobbySnapshot::new("ABC123".to_string(), "Host".to_string(), &catalog);
    let mut runtime = HostLobbyRuntime::new("host-key".to_string());
    let first_peer: u128 = 0x0000_0000_0000_0000_0000_0000_0000_0001;
    let (player_id, slot) = runtime
        .admit_peer(&mut lobby, first_peer, "resume-key".to_string(), "Player".to_string(), true)
        .unwrap();
    assert_eq!(runtime.disconnect(&mut lobby, first_peer), Some(player_id));
    let second_peer: u128 = 0x0000_0000_0000_0000_0000_0000_0000_0002;
    let resumed = runtime
        .admit_peer(&mut lobby, second_peer, "resume-key".to_string(), "Player".to_string(), false)
        .unwrap();
    assert_eq!(resumed, (player_id, slot));
}

#[test]
fn running_match_rejects_unknown_late_joiners() {
    let catalog = catalog();
    let mut lobby = LobbySnapshot::new("ABC123".to_string(), "Host".to_string(), &catalog);
    let mut runtime = HostLobbyRuntime::new("host-key".to_string());
    let peer: u128 = 0x0000_0000_0000_0000_0000_0000_0000_0004;

    let result = runtime.admit_peer(&mut lobby, peer, "unknown-key".to_string(), "Late Player".to_string(), false);

    assert_eq!(result, Err(AdmitError::MatchInProgress));
    assert_eq!(AdmitError::MatchInProgress.message(), "the match is already in progress");
    assert!(runtime.peer_players.is_empty());
    assert_eq!(lobby.active_slot_count(), 1);
}

#[test]
fn full_lobby_refuses_a_new_player() {
    let catalog = catalog();
    let mut lobby = LobbySnapshot::new("ABC123".to_string(), "Host".to_string(), &catalog);
    let mut runtime = HostLobbyRuntime::new("host-key".to_string());
    assert_eq!(runtime.admit_peer(&mut lobby, 1, "a".to_string(), "A".to_string(), true), Ok((2, 1)));
    assert_eq!(runtime.admit_peer(&mut lobby, 2, "b".to_string(), "B".to_string(), true), Err(AdmitError::LobbyFull));
    assert_eq!(AdmitError::LobbyFull.message(), "the lobby has no open player slot");
}

#[test]
fn hello_with_wrong_protocol_or_after_forfeit_is_rejected() {
    let catalog = catalog();
    let mut lobby = LobbySnapshot::new("ABC123".to_string(), "Host".to_string(), &catalog);
    let mut runtime = HostLobbyRuntime::new("host-key".to_string());
    let mut lifecycle = LifecycleControl::new();
    let outcome = host_handle_hello(
        &mut runtime, &mut lobby, &mut lifecycle, false, 9, RTS_ONLINE_PROTOCOL + 1, "k".to_string(), "P".to_string(),
    );
    assert_eq!(outcome, HelloOutcome::Rejected(HelloRejection::ProtocolMismatch));
    let outcome = host_handle_hello(
        &mut runtime, &mut lobby, &mut lifecycle, false, 9, RTS_ONLINE_PROTOCOL, "k".to_string(), "P".to_string(),
    );
    assert_eq!(outcome, HelloOutcome::Welcome { player_id: 2, assigned_slot: 1 });
    lifecycle.forfeited_players.push(2);
    let outcome = host_handle_hello(
        &mut runtime, &mut lobby, &mut lifecycle, true, 10, RTS_ONLINE_PROTOCOL, "k".to_string(), "P".to_string(),
    );
    assert_eq!(outcome, HelloOutcome::Rejected(HelloRejection::AlreadyForfeited));
    assert_eq!(HelloRejection::AlreadyForfeited.message(), "the player already forfeited this match");
    let outcome = host_handle_hello(
        &mut runtime, &mut lobby, &mut lifecycle, true, 11, RTS_ONLINE_PROTOCOL, "other".to_string(), "Q".to_string(),
    );
    assert_eq!(outcome, HelloOutcome::Rejected(HelloRejection::MatchInProgress));
}

#[test]
fn disconnect_grace_allows_resume_then_forfeits_after_expiry() {
    let mut lifecycle = LifecycleControl::new();
    lifecycle.note_disconnect(2);
    assert!(lifecycle.tick_disconnects(29_000).is_empty());
    lifecycle.note_reconnect(2);
    assert!(lifecycle.tick_disconnects(2_000).is_empty());
    assert!(!lifecycle.forfeited_players.contains(&2));

    lifecycle.note_disconnect(2);
    assert_eq!(lifecycle.tick_disconnects(30_000), vec![2]);
    assert!(lifecycle.forfeited_players.contains(&2));
    lifecycle.note_reconnect(2);
    assert!(lifecycle.forfeited_players.contains(&2));
}

#[test]
fn grace_period_is_thirty_seconds() {
    assert_eq!(RECONNECT_GRACE_MS, 30_000);
    let mut lifecycle = LifecycleControl::new();
    lifecycle.note_disconnect(5);
    assert!(lifecycle.tick_disconnects(RECONNECT_GRACE_MS - 1).is_empty());
    assert_eq!(lifecycle.tick_disconnects(1), vec![5]);
}

#[test]
fn rematch_lobby_keeps_connected_players_and_reclaims_forfeited_slots() {
    let catalog = catalog();
    let mut lobby = LobbySnapshot::new("ABC123".to_string(), "Host".to_string(), &catalog);
    lobby.slots[1].occupant = human(2, "Connected", true, true);
    lobby.slots[2].occupant = human(3, "Forfeited", true, false);
    let peer: u128 = 0x0000_0000_0000_0000_0000_0000_0000_0005;
    let mut runtime = HostLobbyRuntime::new("host-key".to_string());
    runtime.peer_players.push((peer, 2));
    runtime.resume_players.push(("player-2".to_string(), 2));
    runtime.resume_players.push(("player-3".to_string(), 3));
    let forfeited = vec![3];

    let rematch = prepare_lobby_for_rematch(&mut lobby, &mut runtime, &forfeited);

    assert!(matches!(rematch.slots[0].occupant, SlotOccupant::Human { player_id: 1, ready: false, connected: true, .. }));
    assert!(matches!(rematch.slots[1].occupant, SlotOccupant::Human { player_id: 2, ready: false, connected: true, .. }));
    assert!(matches!(rematch.slots[2].occupant, SlotOccupant::Open));
    assert_eq!(runtime.player_for_session(&"player-2".to_string()), Some(2));
    assert_eq!(runtime.player_for_session(&"player-3".to_string()), None);
}

#[test]
fn reconnect_welcome_keeps_client_inside_running_match() {
    let catalog = catalog();
    let mut lobby = LobbySnapshot::new("ABC123".to_string(), "Host".to_string(), &catalog);
    lobby.slots[1].occupant = human(2, "Player", true, true);
    let config = MatchConfig::from_lobby(&lobby);
    let mut session = OnlineSession::new("wss://rooms.example".to_string(), "Commander".to_string(), "Ready".to_string());
    session.phase = OnlinePhase::InMatch;
    session.match_config = Some(MatchConfig::from_lobby(&lobby));
    let peer: u128 = 0x0000_0000_0000_0000_0000_0000_0000_0003;

    let entry = session.accept_welcome(peer, 2, 1, lobby, Some(config), &catalog);

    assert!(matches!(entry, MatchEntry::Started(_)));
    assert_eq!(session.phase, OnlinePhase::InMatch);
    assert_eq!(session.host_peer, Some(peer));
    assert_eq!(session.local_player_id, Some(2));
    assert_eq!(session.assigned_slot, Some(1));
    assert_eq!(session.status, "Host connection restored; synchronizing match...");
}

#[test]
fn lobby_welcome_returns_reconnecting_client_from_stale_match() {
    let catalog = catalog();
    let lobby = LobbySnapshot::new("ABC123".to_string(), "Host".to_string(), &catalog);
    let mut session = OnlineSession::new("wss://rooms.example".to_string(), "Commander".to_string(), "Ready".to_string());
    session.phase = OnlinePhase::InMatch;
    session.match_config = Some(MatchConfig::from_lobby(&lobby));
    let peer: u128 = 0x0000_0000_0000_0000_0000_0000_0000_0006;

    let entry = session.accept_welcome(peer, 1, 0, lobby, None, &catalog);

    assert!(matches!(entry, MatchEntry::Joined));
    assert_eq!(session.phase, OnlinePhase::Lobby);
    assert!(session.match_config.is_none());
    assert_eq!(session.status, "Joined online war room");
}

#[test]
fn welcome_into_unknown_map_keeps_previous_state() {
    let catalog = catalog();
    let lobby = LobbySnapshot::new("ABC123".to_string(), "Host".to_string(), &catalog);
    let mut config = MatchConfig::from_lobby(&lobby);
    config.map_id = "Nowhere".to_string();
    let mut session = OnlineSession::new("wss://rooms.example".to_string(), "Commander".to_string(), "Ready".to_string());
    let entry = session.accept_welcome(7, 1, 0, lobby, Some(config), &catalog);
    assert!(matches!(entry, MatchEntry::Failed(MatchSetupError::UnknownMap)));
    assert_eq!(session.phase, OnlinePhase::Home);
    assert_eq!(session.host_peer, Some(7));
    assert_eq!(session.status, "online match selected an unknown map");
}

#[test]
fn client_return_request_waits_for_match_end_then_restores_everyone() {
    let catalog = catalog();
    let mut lobby = LobbySnapshot::new("ABC123".to_string(), "Host".to_string(), &catalog);
    lobby.slots[1].occupant = human(2, "Player", true, true);
    let peer: u128 = 0x0000_0000_0000_0000_0000_0000_0000_0007;
    let mut runtime = HostLobbyRuntime::new("host-key".to_string());
    runtime.peer_players.push((peer, 2));
    runtime.resume_players.push(("player-key".to_string(), 2));
    let mut lifecycle = LifecycleControl::new();
    lifecycle.remote_return_requests.push(2);

    let action = lifecycle.step(OnlinePhase::InMatch, true, true, true, 16);
    assert!(matches!(action, LifecycleAction::Host { return_to_lobby: false, .. }));

    lifecycle.note_return_request(2);
    let action = lifecycle.step(OnlinePhase::InMatch, true, false, true, 16);
    assert!(matches!(action, LifecycleAction::Host { return_to_lobby: true, .. }));

    let mut session = OnlineSession::new("wss://rooms.example".to_string(), "Commander".to_string(), "Ready".to_string());
    session.phase = OnlinePhase::InMatch;
    session.is_host = true;
    session.match_config = Some(MatchConfig::from_lobby(&lobby));
    let forfeited = lifecycle.forfeited_players.clone();
    let rematch = prepare_lobby_for_rematch(&mut lobby, &mut runtime, &forfeited);
    session.accept_return_to_lobby(&mut lifecycle, rematch);
    assert_eq!(session.phase, OnlinePhase::Lobby);
    assert!(session.match_config.is_none());
    assert!(matches!(
        session.lobby.as_ref().unwrap().slots[1].occupant,
        SlotOccupant::Human { player_id: 2, ready: false, connected: true, .. }
    ));
}

#[test]
fn online_match_menu_keeps_authoritative_actions_host_only() {
    let mut client = OnlineSession::new("wss://rooms.example".to_string(), "Commander".to_string(), "Ready".to_string());
    client.phase = OnlinePhase::InMatch;
    assert!(!online_match_is_authoritative(Some(&client)));
    assert!(online_match_uses_command_transport(Some(&client)));
    assert!(online_client_match(Some(&client)));
    assert!(!online_match_is_host(Some(&client)));
    client.is_host = true;
    assert!(online_match_is_authoritative(Some(&client)));
    assert!(online_match_is_host(Some(&client)));
    assert!(online_match_is_authoritative(None));
}

#[test]
fn online_match_conversion_preserves_all_active_slots() {
    let catalog = catalog();
    let mut lobby = LobbySnapshot::new("ABC123".to_string(), "Host".to_string(), &catalog);
    lobby.slots[1].occupant = human(2, "Player", true, true);
    lobby.slots[2].occupant = SlotOccupant::Ai(AiDifficulty::Normal);
    let config = MatchConfig::from_lobby(&lobby);
    let host = online_match_setup(&config, 0, &catalog).unwrap();
    let client = online_match_setup(&config, 1, &catalog).unwrap();
    assert_eq!(host.active_teams.len(), 3);
    assert_eq!(host.player_spawn_slots, vec![0, 1, 2]);
    assert_eq!(host.player_factions, client.player_factions);
    assert_eq!(host.team_ids, client.team_ids);
    assert_eq!(host.local_runtime_slot, 0);
    assert_eq!(client.local_runtime_slot, 1);
    assert_eq!(host.player_controllers[2], PlayerController::Ai(AiDifficulty::Normal));
    assert_eq!(config.runtime_team_for_player(2), Some(Team::Player(1)));
    assert_eq!(config.runtime_team_for_player(9), None);
}

#[test]
fn match_setup_reports_each_error() {
    let catalog = catalog();
    let lobby = LobbySnapshot::new("ABC123".to_string(), "Host".to_string(), &catalog);
    let mut config = MatchConfig::from_lobby(&lobby);
    assert!(matches!(online_match_setup(&config, 3, &catalog), Err(MatchSetupError::LocalSlotInactive)));
    config.victory_condition_index = 3;
    assert!(matches!(online_match_setup(&config, 0, &catalog), Err(MatchSetupError::InvalidVictoryCondition)));
    config.starting_resources_index = 4;
    assert!(matches!(online_match_setup(&config, 0, &catalog), Err(MatchSetupError::InvalidStartingResources)));
    config.map_id = "Nowhere".to_string();
    assert!(matches!(online_match_setup(&config, 0, &catalog), Err(MatchSetupError::UnknownMap)));
}

#[test]
fn player_command_sequences_reject_replays_and_wrong_protocols() {
    let mut inbox: CommandInbox<&str> = CommandInbox::new();
    let envelope = CommandEnvelope { protocol: RTS_ONLINE_PROTOCOL, sequence: 1, command: "move" };
    assert!(inbox.enqueue(2, envelope));
    assert!(!inbox.enqueue(2, CommandEnvelope { protocol: RTS_ONLINE_PROTOCOL, sequence: 1, command: "move" }));
    assert!(!inbox.enqueue(2, CommandEnvelope { protocol: RTS_ONLINE_PROTOCOL + 1, sequence: 2, command: "move" }));
    assert_eq!(inbox.pending.len(), 1);
}

#[test]
fn outbox_numbers_commands_and_flushes_into_inbox() {
    let mut outbox: CommandOutbox<u8> = CommandOutbox::new();
    outbox.submit(1);
    outbox.submit(2);
    assert_eq!(outbox.pending[1].sequence, 2);
    let mut inbox: CommandInbox<u8> = CommandInbox::new();
    assert_eq!(open_rts::netcmd::flush_to_inbox(&mut outbox, &mut inbox, 1), 2);
    assert!(outbox.pending.is_empty());
    assert_eq!(inbox.take_pending(), vec![(1, 1), (1, 2)]);
}

#[test]
fn host_start_is_blocked_until_players_are_ready() {
    let catalog = catalog();
    let mut session = OnlineSession::new("wss://rooms.example".to_string(), "Commander".to_string(), "Ready".to_string());
    assert!(matches!(session.host_prepare_start(&catalog), Err(StartBlocked::NotHost)));
    session.is_host = true;
    assert!(matches!(session.host_prepare_start(&catalog), Err(StartBlocked::NoLobby)));
    let mut lobby = LobbySnapshot::new("ABC123".to_string(), "Host".to_string(), &catalog);
    session.lobby = Some(LobbySnapshot::new("ABC123".to_string(), "Host".to_string(), &catalog));
    assert!(matches!(session.host_prepare_start(&catalog), Err(StartBlocked::NotReady)));
    lobby.slots[1].occupant = human(2, "Player", true, true);
    session.lobby = Some(lobby);
    let (config, setup) = session.host_prepare_start(&catalog).unwrap();
    assert_eq!(setup.local_runtime_slot, 0);
    session.commit_match_start(config);
    assert_eq!(session.phase, OnlinePhase::InMatch);
}

#[test]
fn lobby_commands_from_guests_only_touch_their_own_row() {
    let catalog = catalog();
    let mut lobby = LobbySnapshot::new("ABC123".to_string(), "Host".to_string(), &catalog);
    lobby.slots[1].occupant = human(2, "Player", false, true);
    assert!(lobby.apply_command(&catalog, 2, LobbyCommand::Ready(true)));
    assert!(matches!(lobby.slots[1].occupant, SlotOccupant::Human { ready: true, .. }));
    assert!(!lobby.apply_command(&catalog, 2, LobbyCommand::Faction { slot: 0, faction: Faction::Chaos }));
    assert!(!lobby.apply_command(&catalog, 2, LobbyCommand::SelectMap { map_id: "Duel".to_string() }));
    assert!(lobby.apply_command(&catalog, 1, LobbyCommand::SelectMap { map_id: "Duel".to_string() }));
    assert_eq!(lobby.slots.len(), 2);
}

#[test]
fn status_lines_are_cut_on_character_boundaries() {
    let mut session = OnlineSession::new("wss://rooms.example".to_string(), "Commander".to_string(), "Ready".to_string());
    assert_eq!(session.status, "Ready");
    session.set_status("é".repeat(100));
    assert_eq!(session.status.len(), 180);
    assert_eq!(session.status.chars().count(), 90);
    session.set_status("ab".to_string() + &"€".repeat(60));
    assert_eq!(session.status.len(), 179);
    assert!(session.ui_dirty);
}

#[test]
fn typed_room_codes_are_upper_case_letters_and_digits() {
    let mut session = OnlineSession::new("wss://rooms.example".to_string(), String::new(), String::new());
    session.type_into_field(OnlineTextField::RoomCode, "ab-c 12xyzQRSTUVW");
    assert_eq!(session.room_code_input, "ABC12XYZQRST");
    session.type_into_field(OnlineTextField::PlayerName, "Neo/\\\nTrinity");
    assert_eq!(session.player_name, "NeoTrinity");
    session.type_into_field(OnlineTextField::PlayerName, &"x".repeat(40));
    assert_eq!(session.player_name.len(), 32);
    session.focus(OnlineTextField::JoinToken);
    assert_eq!(session.focused_field, Some(OnlineTextField::JoinToken));
}

#[test]
fn resetting_the_connection_keeps_the_session_key() {
    let mut session = OnlineSession::new("wss://rooms.example".to_string(), "Commander".to_string(), String::new());
    let key = session.session_key.clone();
    session.is_host = true;
    session.phase = OnlinePhase::Lobby;
    session.host_peer = Some(4);
    session.reset_connection();
    assert_eq!(session.session_key, key);
    assert_eq!(session.phase, OnlinePhase::Home);
    assert!(!session.is_host);
    assert_eq!(session.host_peer, None);
}

#[test]
fn client_only_follows_its_own_host() {
    let catalog = catalog();
    let mut lobby = LobbySnapshot::new("ABC123".to_string(), "Host".to_string(), &catalog);
    lobby.slots[1].occupant = human(2, "Player", true, true);
    let mut session = OnlineSession::new(String::new(), String::new(), String::new());
    session.host_peer = Some(1);
    assert!(!session.accept_lobby_snapshot(2, LobbySnapshot::new("X".to_string(), "H".to_string(), &catalog)));
    assert!(session.lobby.is_none());
    assert!(matches!(session.accept_start_match(2, MatchConfig::from_lobby(&lobby), &catalog), MatchEntry::Ignored));
    assert!(matches!(session.accept_start_match(1, MatchConfig::from_lobby(&lobby), &catalog), MatchEntry::MissingLocalSlot));
    assert_eq!(session.status, "Missing local player slot");
    session.assigned_slot = Some(1);
    assert!(matches!(session.accept_start_match(1, MatchConfig::from_lobby(&lobby), &catalog), MatchEntry::Started(_)));
    assert_eq!(session.phase, OnlinePhase::InMatch);
    let mut lifecycle = LifecycleControl::new();
    assert!(!session.accept_session_closed(2, "bye".to_string(), &mut lifecycle));
    assert!(session.accept_session_closed(1, "bye".to_string(), &mut lifecycle));
    assert_eq!(lifecycle.session_closed_reason, Some("bye".to_string()));
}

#[test]
fn host_applies_lobby_commands_only_while_holding_a_lobby() {
    let catalog = catalog();
    let mut session = OnlineSession::new("wss://rooms.example".to_string(), "Commander".to_string(), String::new());
    assert!(!session.host_apply_lobby_command(&catalog, 1, LobbyCommand::Ready(false)));
    assert!(session.lobby.is_none());

    let mut lobby = LobbySnapshot::new("ABC123".to_string(), "Host".to_string(), &catalog);
    lobby.slots[1].occupant = human(2, "Player", false, true);
    session.lobby = Some(lobby);
    assert!(session.host_apply_lobby_command(&catalog, 2, LobbyCommand::Ready(true)));
    assert!(matches!(
        session.lobby.as_ref().unwrap().slots[1].occupant,
        SlotOccupant::Human { player_id: 2, ready: true, .. }
    ));
    assert!(!session.host_apply_lobby_command(&catalog, 2, LobbyCommand::Faction { slot: 0, faction: Faction::Chaos }));
    assert_eq!(session.lobby.as_ref().unwrap().slots[0].faction, Faction::Alliance);
}

#[test]
fn host_finds_the_player_behind_a_peer() {
    let catalog = catalog();
    let mut session = OnlineSession::new(String::new(), String::new(), String::new());
    assert_eq!(session.host_player_for_peer(3), None);
    let mut lobby = LobbySnapshot::new("ABC123".to_string(), "Host".to_string(), &catalog);
    let mut runtime = HostLobbyRuntime::new("host-key".to_string());
    let (player_id, _) = runtime.admit_peer(&mut lobby, 3, "k".to_string(), "P".to_string(), true).unwrap();
    session.host_runtime = Some(runtime);
    assert_eq!(session.host_player_for_peer(3), Some(player_id));
    assert_eq!(session.host_player_for_peer(4), None);
}

#[test]
fn leaving_the_session_comes_before_returning_to_the_war_room() {
    let mut lifecycle = LifecycleControl::new();
    lifecycle.request_return_to_lobby();
    lifecycle.request_leave_session();
    assert!(lifecycle.local_return_to_lobby);
    let action = lifecycle.step(OnlinePhase::InMatch, true, true, true, 16);
    assert!(matches!(action, LifecycleAction::LeaveSession { notify_peers: true }));
    assert!(!lifecycle.local_leave_session);
    assert!(!lifecycle.local_return_to_lobby);
}

#[test]
fn host_return_request_returns_everyone_even_while_running() {
    let mut lifecycle = LifecycleControl::new();
    lifecycle.request_return_to_lobby();
    let action = lifecycle.step(OnlinePhase::InMatch, true, true, true, 16);
    match action {
        LifecycleAction::Host { forfeited, return_to_lobby } => {
            assert!(forfeited.is_empty());
            assert!(return_to_lobby);
        }
        _ => panic!("the host decides the return itself"),
    }
}

#[test]
fn client_return_request_is_refused_while_the_match_runs() {
    let mut lifecycle = LifecycleControl::new();
    lifecycle.request_return_to_lobby();
    assert!(matches!(lifecycle.step(OnlinePhase::InMatch, false, true, true, 16), LifecycleAction::ClientReturnRefused));
    lifecycle.request_return_to_lobby();
    assert!(matches!(lifecycle.step(OnlinePhase::InMatch, false, false, false, 16), LifecycleAction::ClientHostUnreachable));
    lifecycle.request_return_to_lobby();
    assert!(matches!(lifecycle.step(OnlinePhase::InMatch, false, false, true, 16), LifecycleAction::ClientRequestReturn));
    assert!(matches!(lifecycle.step(OnlinePhase::InMatch, false, false, true, 16), LifecycleAction::ClientIdle));
    assert!(matches!(lifecycle.step(OnlinePhase::Lobby, false, false, true, 16), LifecycleAction::NotInMatch));
}

#[test]
fn slot_occupants_report_open_and_closed_rows() {
    assert!(SlotOccupant::Open.is_open());
    assert!(!SlotOccupant::Open.is_closed());
    assert!(SlotOccupant::Closed.is_closed());
    assert!(!SlotOccupant::Closed.is_open());
    let seated = human(2, "P", true, true);
    assert!(!seated.is_open());
    assert!(!seated.is_closed());
    assert!(seated.is_human());
}

#[test]
fn runtime_faction_follows_the_player_row() {
    let catalog = catalog();
    let mut lobby = LobbySnapshot::new("ABC123".to_string(), "Host".to_string(), &catalog);
    lobby.slots[1].occupant = human(2, "Player", true, true);
    lobby.slots[1].faction = Faction::Chaos;
    let config = MatchConfig::from_lobby(&lobby);
    assert_eq!(config.runtime_faction_for_player(2), Faction::Chaos);
    assert_eq!(config.runtime_faction_for_player(1), Faction::Alliance);
    assert_eq!(config.runtime_faction_for_player(99), Faction::Alliance);
}

#[test]
fn snapshots_update_known_entities_spawn_new_ones_and_drop_the_rest() {
    let local = vec![10, 11, 12, 10];
    let incoming = vec![12, 13, 10, 13];
    let (fates, spawns) = plan_snapshot_application(&local, &incoming);
    assert_eq!(
        fates,
        vec![LocalEntityFate::Update(2), LocalEntityFate::Despawn, LocalEntityFate::Update(0), LocalEntityFate::Despawn]
    );
    assert_eq!(spawns, vec![3]);
    let (fates, spawns) = plan_snapshot_application(&vec![], &vec![5, 6]);
    assert!(fates.is_empty());
    assert_eq!(spawns, vec![0, 1]);
}

#[test]
fn a_start_that_does_not_fit_shows_the_setup_error() {
    let catalog = catalog();
    let lobby = LobbySnapshot::new("ABC123".to_string(), "Host".to_string(), &catalog);
    let mut config = MatchConfig::from_lobby(&lobby);
    config.victory_condition_index = 7;
    let mut session = OnlineSession::new(String::new(), String::new(), "Ready".to_string());
    session.host_peer = Some(1);
    session.assigned_slot = Some(0);
    let entry = session.accept_start_match(1, config, &catalog);
    assert!(matches!(entry, MatchEntry::Failed(MatchSetupError::InvalidVictoryCondition)));
    assert_eq!(session.status, "online match selected an invalid victory condition");
    assert_eq!(session.phase, OnlinePhase::Home);
    assert_eq!(MatchSetupError::LocalSlotInactive.message(), "local player slot is not active in the match");
}
