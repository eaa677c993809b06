use open_rts::production::{
    build_queue_has_capacity, build_structure_order_compare, build_structure_order_stage, build_structure_tab_for, cancel_jobs_for_producer,
    cancel_latest_queued_product_for_producers, cancel_queued_job_at_local_index, cancel_selected_under_construction_structure,
    apply_structure_action, construction_cancel_refund, settle_queued_job, enqueue_build_jobs_for_producers, forfeit_disconnected_player, producer_build_queue_len, production_origins_for,
    production_queue_hud_entries, production_structure_hotkey_select_all, production_veterancy_slot, remove_team_jobs, sell_selected_structures, sell_structure,
    selected_under_construction_stop_target, structure_has_production_queue, structure_placement_validity_for_faction, BuildJob, BuildStructureTab, Cost,
    EnqueueBuildActionResult, JobAdvance, JobOutcome, TimedJob, StructureAction, StructureActionFacts, PlacementSite, ProductionFrame, SaleCandidate, ProducerCandidate, StructurePlacementValidity, TeamEconomy, PRODUCTION_QUEUE_LIMIT,
};
use open_rts::host::RTS_ONLINE_PROTOCOL;
use open_rts::lifecycle::{LifecycleControl, RECONNECT_GRACE_MS};
use open_rts::lobby::{Faction, LobbyCatalog, LobbySnapshot, MapDef, MatchConfig, SlotOccupant};
use open_rts::netcmd::{resolve_online_producers, resolve_owned_online_action_structures, resolve_owned_online_structure_entities, CommandEnvelope, CommandInbox, EntityFacts};
use open_rts::team::Team;

const WORKER: Cost = Cost { ore: 4, crystal: 2 };

fn producers(ids: &[u64]) -> Vec<(u64, String, u8)> {
    ids.iter().map(|id| (*id, "CommandCenter".to_string(), 0u8)).collect()
}

fn job(team: Team, product: &str, producer: u64, cost: Cost) -> BuildJob<u8> {
    BuildJob {
        team,
        product: product.to_string(),
        producer,
        producer_kind: "CommandCenter".to_string(),
        cost,
        payload: 0,
    }
}

#[test]
fn host_validates_training_ownership_and_authoritative_refunds() {
    // The host's command centre 10 (team 0) and player 2's command centre 20 (team 1).
    let command_center = |network_id, team| EntityFacts {
        network_id,
        team,
        is_unit: false,
        is_structure: true,
        alive: true,
        constructed: true,
        can_construct: false,
        can_produce: true,
    };
    let entities = vec![command_center(10, Team::Player(0)), command_center(20, Team::Player(1))];
    let player_team = Team::Player(1);
    let mut economy = TeamEconomy { ore: 1_000, crystal: 1_000 };
    let mut jobs: Vec<BuildJob<u8>> = Vec::new();
    let mut inbox: CommandInbox<Vec<u64>> = CommandInbox::new();
    for (sequence, producer) in [(1, 10), (2, 20)] {
        assert!(inbox.enqueue(2, CommandEnvelope { protocol: RTS_ONLINE_PROTOCOL, sequence, command: vec![producer] }));
    }
    for (_, requested) in inbox.take_pending() {
        // Training at the opponent's producer is refused before anything is charged.
        let Some(positions) = resolve_online_producers(player_team, &requested, &entities) else {
            continue;
        };
        let chosen: Vec<u64> = positions.iter().map(|&p| entities[p].network_id).collect();
        let result = enqueue_build_jobs_for_producers(
            player_team,
            &"Worker".to_string(),
            WORKER,
            &producers(&chosen),
            false,
            &mut economy,
            &mut jobs,
        );
        assert_eq!(result, EnqueueBuildActionResult::Enqueued);
    }
    assert_eq!(resolve_online_producers(player_team, &vec![10], &entities), None);
    assert_eq!(jobs.len(), 1);
    assert_eq!(jobs[0].producer, 20);
    assert_eq!(jobs[0].team, player_team);
    assert_eq!(economy, TeamEconomy { ore: 1_000 - WORKER.ore, crystal: 1_000 - WORKER.crystal });

    // Cancelling at the player's own producer refunds what was charged.
    assert_eq!(resolve_owned_online_structure_entities(player_team, &vec![10], 64, &entities), None);
    let positions = resolve_owned_online_structure_entities(player_team, &vec![20], 64, &entities).unwrap();
    let cancel_at: Vec<u64> = positions.iter().map(|&p| entities[p].network_id).collect();
    assert!(cancel_latest_queued_product_for_producers(player_team, &"Worker".to_string(), &cancel_at, &mut jobs, &mut economy));
    assert!(jobs.is_empty());
    assert_eq!(economy, TeamEconomy { ore: 1_000, crystal: 1_000 });
}

#[test]
fn cancelling_at_an_unlisted_producer_changes_nothing() {
    let mut economy = TeamEconomy { ore: 1_000, crystal: 1_000 };
    let mut jobs: Vec<BuildJob<u8>> = Vec::new();
    let result = enqueue_build_jobs_for_producers(
        Team::Player(1),
        &"Worker".to_string(),
        WORKER,
        &producers(&[20]),
        false,
        &mut economy,
        &mut jobs,
    );
    assert_eq!(result, EnqueueBuildActionResult::Enqueued);
    assert_eq!(economy, TeamEconomy { ore: 996, crystal: 998 });
    assert!(!cancel_latest_queued_product_for_producers(Team::Player(1), &"Worker".to_string(), &vec![10], &mut jobs, &mut economy));
    assert_eq!(jobs.len(), 1);
}

#[test]
fn enqueue_is_unavailable_without_producers() {
    let mut economy = TeamEconomy { ore: 10, crystal: 10 };
    let mut jobs: Vec<BuildJob<u8>> = Vec::new();
    let result = enqueue_build_jobs_for_producers(Team::Player(0), &"Worker".to_string(), WORKER, &Vec::new(), false, &mut economy, &mut jobs);
    assert_eq!(result, EnqueueBuildActionResult::Unavailable);
    assert_eq!(economy.ore, 10);
}

#[test]
fn batch_enqueue_fills_to_the_limit_then_reports_full() {
    let mut economy = TeamEconomy { ore: 1_000, crystal: 1_000 };
    let mut jobs: Vec<BuildJob<u8>> = Vec::new();
    let result = enqueue_build_jobs_for_producers(Team::Player(0), &"Worker".to_string(), WORKER, &producers(&[7]), true, &mut economy, &mut jobs);
    assert_eq!(result, EnqueueBuildActionResult::Enqueued);
    assert_eq!(producer_build_queue_len(&jobs, 7), PRODUCTION_QUEUE_LIMIT);
    assert!(!build_queue_has_capacity(&jobs, 7));
    assert_eq!(economy.ore, 1_000 - 5 * 4);
    let result = enqueue_build_jobs_for_producers(Team::Player(0), &"Worker".to_string(), WORKER, &producers(&[7]), false, &mut economy, &mut jobs);
    assert_eq!(result, EnqueueBuildActionResult::QueueFull);
    assert_eq!(jobs.len(), PRODUCTION_QUEUE_LIMIT);
}

#[test]
fn enqueue_stops_when_money_runs_out() {
    let mut economy = TeamEconomy { ore: 9, crystal: 100 };
    let mut jobs: Vec<BuildJob<u8>> = Vec::new();
    let result = enqueue_build_jobs_for_producers(Team::Player(0), &"Worker".to_string(), WORKER, &producers(&[7]), true, &mut economy, &mut jobs);
    assert_eq!(result, EnqueueBuildActionResult::Enqueued);
    assert_eq!(jobs.len(), 2);
    assert_eq!(economy.ore, 1);
    let result = enqueue_build_jobs_for_producers(Team::Player(0), &"Worker".to_string(), WORKER, &producers(&[7]), false, &mut economy, &mut jobs);
    assert_eq!(result, EnqueueBuildActionResult::NotEnoughResources);
    assert_eq!(economy, TeamEconomy { ore: 1, crystal: 96 });
}

#[test]
fn each_selected_producer_gets_its_own_job() {
    let mut economy = TeamEconomy { ore: 100, crystal: 100 };
    let mut jobs: Vec<BuildJob<u8>> = Vec::new();
    enqueue_build_jobs_for_producers(Team::Player(0), &"Worker".to_string(), WORKER, &producers(&[1, 2, 3]), false, &mut economy, &mut jobs);
    assert_eq!(jobs.iter().map(|job| job.producer).collect::<Vec<_>>(), vec![1, 2, 3]);
    assert_eq!(economy.ore, 88);
}

#[test]
fn cancel_at_local_index_counts_only_that_producers_jobs() {
    let mut economy = TeamEconomy { ore: 0, crystal: 0 };
    let mut jobs = vec![
        job(Team::Player(0), "Worker", 1, Cost { ore: 1, crystal: 0 }),
        job(Team::Player(0), "Tank", 2, Cost { ore: 2, crystal: 0 }),
        job(Team::Player(0), "Drone", 1, Cost { ore: 3, crystal: 0 }),
    ];
    assert!(!cancel_queued_job_at_local_index(Team::Player(0), 1, 2, &mut jobs, &mut economy));
    assert!(cancel_queued_job_at_local_index(Team::Player(0), 1, 1, &mut jobs, &mut economy));
    assert_eq!(economy.ore, 3);
    assert_eq!(jobs.iter().map(|job| job.product.clone()).collect::<Vec<_>>(), vec!["Worker".to_string(), "Tank".to_string()]);
    assert!(!cancel_queued_job_at_local_index(Team::Player(1), 1, 0, &mut jobs, &mut economy));
}

#[test]
fn cancel_latest_takes_the_newest_matching_job() {
    let mut economy = TeamEconomy { ore: 0, crystal: 0 };
    let mut jobs = vec![
        job(Team::Player(0), "Worker", 1, Cost { ore: 1, crystal: 1 }),
        job(Team::Player(0), "Worker", 1, Cost { ore: 5, crystal: 5 }),
        job(Team::Player(0), "Tank", 1, Cost { ore: 9, crystal: 9 }),
    ];
    assert!(cancel_latest_queued_product_for_producers(Team::Player(0), &"Worker".to_string(), &vec![1], &mut jobs, &mut economy));
    assert_eq!(economy, TeamEconomy { ore: 5, crystal: 5 });
    assert_eq!(jobs.len(), 2);
    assert_eq!(jobs[1].product, "Tank");
}

#[test]
fn disconnect_expiry_removes_owned_entities_and_queued_production() {
    let catalog = LobbyCatalog {
        maps: vec![MapDef { id: "PlainAndSimple".to_string(), players: 2 }],
        default_factions: vec![Faction::Alliance, Faction::Demon],
        default_starting_resources_index: 1,
        starting_resource_option_count: 4,
        victory_condition_count: 3,
        color_palette_len: 8,
        max_lobby_slots: 8,
    };
    let mut lobby = LobbySnapshot::new("ABC123".to_string(), "Host".to_string(), &catalog);
    lobby.slots[1].occupant = SlotOccupant::Human { player_id: 2, name: "Player".to_string(), ready: true, connected: false };
    let config = MatchConfig::from_lobby(&lobby);

    // Player 2 dropped and their grace period runs out.
    let mut lifecycle = LifecycleControl::new();
    lifecycle.note_disconnect(2);
    let expired = lifecycle.tick_disconnects(RECONNECT_GRACE_MS);
    assert_eq!(expired, vec![2]);
    assert!(lifecycle.forfeited_players.contains(&2));

    // Their producer (7) and pending paradrop (8) go, and so does their queued job.
    let mut jobs = vec![job(Team::Player(1), "Worker", 7, WORKER), job(Team::Player(0), "Worker", 6, WORKER)];
    let entities = vec![(6, Team::Player(0)), (7, Team::Player(1)), (8, Team::Player(1))];
    let removed = forfeit_disconnected_player(&config, expired[0], &mut jobs, &entities);
    assert_eq!(removed, Some(vec![7, 8]));
    assert_eq!(jobs.len(), 1);
    assert_eq!(jobs[0].team, Team::Player(0));

    // A player without a team forfeits nothing.
    assert_eq!(forfeit_disconnected_player(&config, 9, &mut jobs, &entities), None);
    assert_eq!(jobs.len(), 1);
}

#[test]
fn dropping_a_teams_jobs_keeps_the_others() {
    let mut jobs = vec![job(Team::Player(1), "Worker", 5, WORKER), job(Team::Player(0), "Worker", 6, WORKER)];
    remove_team_jobs(&mut jobs, Team::Player(1));
    assert_eq!(jobs.len(), 1);
    assert_eq!(jobs[0].team, Team::Player(0));
    remove_team_jobs(&mut jobs, Team::Player(0));
    assert!(jobs.is_empty());
}

#[test]
fn selling_a_producer_refunds_its_queue() {
    let mut economy = TeamEconomy { ore: 10, crystal: 10 };
    let mut jobs = vec![
        job(Team::Player(0), "Worker", 5, WORKER),
        job(Team::Player(0), "Worker", 6, WORKER),
        job(Team::Player(0), "Tank", 5, Cost { ore: 10, crystal: 3 }),
    ];
    assert_eq!(cancel_jobs_for_producer(Team::Player(0), 5, &mut jobs, &mut economy), 2);
    assert_eq!(economy, TeamEconomy { ore: 24, crystal: 15 });
    assert_eq!(jobs.len(), 1);
    assert_eq!(jobs[0].producer, 6);
}

#[test]
fn stop_cancels_a_lone_structure_under_construction() {
    let reactor = Cost { ore: 30, crystal: 0 };
    let items = vec![(40u64, Team::Player(0), true, Some(reactor)), (41u64, Team::Player(1), true, None)];
    assert_eq!(selected_under_construction_stop_target(Team::Player(0), 0, &items), Some((40, reactor)));
    assert_eq!(selected_under_construction_stop_target(Team::Player(0), 1, &items), None);
    let two = vec![(40u64, Team::Player(0), true, Some(reactor)), (42u64, Team::Player(0), true, None)];
    assert_eq!(selected_under_construction_stop_target(Team::Player(0), 0, &two), None);

    let mut economy = TeamEconomy { ore: 0, crystal: 0 };
    let mut jobs = vec![job(Team::Player(0), "Worker", 40, WORKER)];
    assert_eq!(cancel_selected_under_construction_structure(Team::Player(0), 0, &items, &mut jobs, &mut economy), Some(40));
    assert_eq!(economy, TeamEconomy { ore: 34, crystal: 2 });
    assert!(jobs.is_empty());
    assert_eq!(construction_cancel_refund(reactor), (30, 0));
}

#[test]
fn origins_prefer_selected_producers_with_room() {
    let jobs: Vec<BuildJob<u8>> = (0..5).map(|_| job(Team::Player(0), "Worker", 1, WORKER)).collect();
    let candidate = |entity: u64, team: Team, constructed: bool| ProducerCandidate {
        entity,
        kind: "Barracks".to_string(),
        team,
        constructed,
        can_produce: true,
        payload: 0u8,
    };
    let selected = vec![candidate(1, Team::Player(0), true)];
    let all = vec![candidate(1, Team::Player(0), true), candidate(2, Team::Player(0), true)];
    assert!(matches!(production_origins_for(&selected, &all, Team::Player(0), &jobs), Err(EnqueueBuildActionResult::QueueFull)));
    let found = production_origins_for(&Vec::new(), &all, Team::Player(0), &jobs).unwrap();
    assert_eq!(found.len(), 1);
    assert_eq!(found[0].0, 2);
    let foreign = vec![candidate(3, Team::Player(1), true), candidate(4, Team::Player(0), false)];
    assert!(matches!(production_origins_for(&Vec::new(), &foreign, Team::Player(0), &jobs), Err(EnqueueBuildActionResult::Unavailable)));
}

#[test]
fn queue_panel_groups_runs_of_the_same_product() {
    let jobs = vec![
        job(Team::Player(0), "Worker", 1, WORKER),
        job(Team::Player(0), "Worker", 1, WORKER),
        job(Team::Player(0), "Tank", 1, WORKER),
        job(Team::Player(0), "Worker", 2, WORKER),
        job(Team::Player(0), "Worker", 1, WORKER),
    ];
    let entries = production_queue_hud_entries(Team::Player(0), &jobs, &vec![1, 2]);
    assert_eq!(entries.len(), 4);
    assert_eq!((entries[0].count, entries[0].local_index, entries[0].active), (2, 0, true));
    assert_eq!((entries[1].product.as_str(), entries[1].local_index), ("Tank", 2));
    assert_eq!((entries[2].count, entries[2].local_index), (1, 3));
    assert_eq!((entries[3].producer, entries[3].local_index, entries[3].active), (2, 0, true));
}

#[test]
fn structure_ids_map_to_slots_tabs_and_stages() {
    assert_eq!(production_veterancy_slot("Barracks"), Some(0));
    assert_eq!(production_veterancy_slot("AircraftFactory"), Some(2));
    assert_eq!(production_veterancy_slot("Refinery"), None);
    assert_eq!(build_structure_tab_for("RailCannonBunker"), BuildStructureTab::Defense);
    assert_eq!(build_structure_tab_for("Refinery"), BuildStructureTab::Production);
    assert_eq!(build_structure_order_stage("PowerReactor"), 0);
    assert_eq!(build_structure_order_stage("TechLab"), 40);
    assert_eq!(build_structure_order_stage("Mystery"), 90);
    assert!(structure_has_production_queue("CommandCenter"));
    assert!(!structure_has_production_queue("Refinery"));
}

#[test]
fn production_hotkey_needs_alt_without_ctrl() {
    assert_eq!(production_structure_hotkey_select_all(true, false, true, true), Some(true));
    assert_eq!(production_structure_hotkey_select_all(true, false, false, true), Some(false));
    assert_eq!(production_structure_hotkey_select_all(true, true, false, true), None);
    assert_eq!(production_structure_hotkey_select_all(false, false, false, true), None);
    assert_eq!(production_structure_hotkey_select_all(true, false, false, false), None);
}

#[test]
fn spending_and_refunding_balance_out() {
    let mut economy = TeamEconomy { ore: 5, crystal: 5 };
    assert!(!economy.spend(Cost { ore: 6, crystal: 0 }));
    assert_eq!(economy, TeamEconomy { ore: 5, crystal: 5 });
    assert!(economy.spend(Cost { ore: 5, crystal: 1 }));
    economy.refund(Cost { ore: 5, crystal: 1 });
    assert_eq!(economy, TeamEconomy { ore: 5, crystal: 5 });
}

#[test]
fn affordability_needs_both_resources() {
    let economy = TeamEconomy { ore: 4, crystal: 1 };
    assert!(!economy.can_afford(WORKER));
    assert!(economy.can_afford(Cost { ore: 4, crystal: 1 }));
    assert!(!economy.can_afford(Cost { ore: 5, crystal: 0 }));
}

#[test]
fn only_player_teams_have_an_economy() {
    assert_eq!(Team::Player(3).economy_index(), Some(3));
    assert_eq!(Team::Neutral.economy_index(), None);
}

fn good_site() -> PlacementSite {
    PlacementSite {
        known_structure: true,
        inside_map: true,
        faction_known: true,
        buildable_by_faction: true,
        requirements_met: true,
        near_base: true,
        collides: false,
        level_ground: true,
    }
}

#[test]
fn placement_reports_the_first_failed_check() {
    let rich = TeamEconomy { ore: 100, crystal: 100 };
    let poor = TeamEconomy { ore: 0, crystal: 0 };
    let cost = Cost { ore: 10, crystal: 0 };
    assert_eq!(structure_placement_validity_for_faction(&good_site(), &rich, cost), StructurePlacementValidity::Valid);
    assert_eq!(structure_placement_validity_for_faction(&good_site(), &poor, cost), StructurePlacementValidity::NotEnoughResources);

    let mut site = good_site();
    site.inside_map = false;
    site.collides = true;
    assert_eq!(structure_placement_validity_for_faction(&site, &poor, cost), StructurePlacementValidity::OutOfMap);
    site.known_structure = false;
    assert_eq!(structure_placement_validity_for_faction(&site, &poor, cost), StructurePlacementValidity::MissingTech);

    let mut site = good_site();
    site.requirements_met = false;
    assert_eq!(structure_placement_validity_for_faction(&site, &poor, cost), StructurePlacementValidity::MissingTech);

    let mut site = good_site();
    site.near_base = false;
    site.level_ground = false;
    assert_eq!(structure_placement_validity_for_faction(&site, &rich, cost), StructurePlacementValidity::OutOfBaseRadius);
    site.near_base = true;
    site.collides = true;
    assert_eq!(structure_placement_validity_for_faction(&site, &rich, cost), StructurePlacementValidity::CollidesWithObject);
    site.collides = false;
    assert_eq!(structure_placement_validity_for_faction(&site, &rich, cost), StructurePlacementValidity::UnevenTerrain);
}

fn candidate(entity: u64, team: Team, alive: bool, construction_cost: Option<Cost>) -> SaleCandidate {
    SaleCandidate { entity, team, alive, construction_cost, sell_refund: Cost { ore: 50, crystal: 5 } }
}

#[test]
fn selling_pays_the_refund_and_cancels_the_queue() {
    let mut economy = TeamEconomy { ore: 0, crystal: 0 };
    let mut jobs = vec![job(Team::Player(0), "Worker", 7, WORKER), job(Team::Player(0), "Worker", 8, WORKER)];
    assert!(sell_structure(Team::Player(0), &candidate(7, Team::Player(0), true, None), &mut jobs, &mut economy));
    assert_eq!(economy, TeamEconomy { ore: 54, crystal: 7 });
    assert_eq!(jobs.len(), 1);
    assert_eq!(jobs[0].producer, 8);
}

#[test]
fn selling_a_foundation_pays_back_its_cost() {
    let mut economy = TeamEconomy { ore: 1, crystal: 1 };
    let mut jobs: Vec<BuildJob<u8>> = Vec::new();
    let sold = sell_structure(Team::Player(0), &candidate(3, Team::Player(0), true, Some(Cost { ore: 200, crystal: 20 })), &mut jobs, &mut economy);
    assert!(sold);
    assert_eq!(economy, TeamEconomy { ore: 201, crystal: 21 });
}

#[test]
fn only_own_standing_structures_are_sold() {
    let mut economy = TeamEconomy { ore: 0, crystal: 0 };
    let mut jobs = vec![job(Team::Player(1), "Worker", 9, WORKER)];
    assert!(!sell_structure(Team::Player(0), &candidate(9, Team::Player(1), true, None), &mut jobs, &mut economy));
    assert!(!sell_structure(Team::Player(0), &candidate(9, Team::Player(0), false, None), &mut jobs, &mut economy));
    assert_eq!(economy, TeamEconomy { ore: 0, crystal: 0 });
    assert_eq!(jobs.len(), 1);

    let selection = vec![candidate(9, Team::Player(1), true, None), candidate(4, Team::Player(0), false, None)];
    assert!(!sell_selected_structures(Team::Player(0), &selection, &mut jobs, &mut economy));
    let selection = vec![candidate(4, Team::Player(0), true, None), candidate(5, Team::Player(0), true, None)];
    assert!(sell_selected_structures(Team::Player(0), &selection, &mut jobs, &mut economy));
    assert_eq!(economy, TeamEconomy { ore: 100, crystal: 10 });
}

#[test]
fn producers_spend_their_frame_time_in_queue_order() {
    let mut frame = ProductionFrame::new();
    assert_eq!(frame.advance(7, 600, true, true, 1_000), JobAdvance::Ready);
    assert_eq!(frame.advance(7, 1_000, true, true, 1_000), JobAdvance::Progress(600));
    assert_eq!(frame.advance(7, 300, true, true, 1_000), JobAdvance::Hold);
    assert_eq!(frame.advance(8, 300, true, true, 1_000), JobAdvance::Ready);
    assert_eq!(frame.advance(8, 700, true, true, 1_000), JobAdvance::Ready);
    assert_eq!(frame.advance(8, 1, true, true, 1_000), JobAdvance::Hold);
    assert_eq!(frame.advance(9, 5, false, true, 1_000), JobAdvance::Cancel);
    assert_eq!(frame.advance(9, 5, true, false, 1_000), JobAdvance::Cancel);
}

#[test]
fn a_blocked_producer_waits_for_the_next_frame() {
    let mut frame = ProductionFrame::new();
    assert_eq!(frame.advance(7, 0, true, true, 500), JobAdvance::Ready);
    frame.block(7);
    assert_eq!(frame.advance(7, 100, true, true, 500), JobAdvance::Hold);
    assert!(frame.blocked.contains(&7));
    assert_eq!(frame.advance(3, 100, true, true, 0), JobAdvance::Hold);
}

#[test]
fn build_menu_orders_by_grid_position_then_name() {
    assert_eq!(build_structure_order_compare("PowerReactor", "Barracks"), std::cmp::Ordering::Less);
    assert_eq!(build_structure_order_compare("Barracks", "Refinery"), std::cmp::Ordering::Greater);
    assert_eq!(build_structure_order_compare("Barracks", "Barracks"), std::cmp::Ordering::Equal);
    let mut menu = vec!["VehicleFactory", "Barracks", "PowerReactor", "Refinery"];
    menu.sort_by(|a, b| build_structure_order_compare(a, b));
    assert_eq!(menu, vec!["PowerReactor", "Refinery", "Barracks", "VehicleFactory"]);
}

#[test]
fn host_structure_actions_are_owned_and_idempotent_per_tick() {
    let structure = |network_id, team, constructed| EntityFacts {
        network_id,
        team,
        is_unit: false,
        is_structure: true,
        alive: true,
        constructed,
        can_construct: false,
        can_produce: false,
    };
    // The opponent's reactor 10, player 2's damaged reactor 20 and their foundation 21.
    let entities = vec![structure(10, Team::Player(0), true), structure(20, Team::Player(1), true), structure(21, Team::Player(1), false)];
    let player_team = Team::Player(1);
    let repair_cost = Cost { ore: 25, crystal: 5 };
    let foundation_cost = Cost { ore: 13, crystal: 7 };
    let damaged = StructureActionFacts {
        entity: 20,
        construction_cost: None,
        sell_refund: Cost { ore: 50, crystal: 0 },
        damaged: true,
        being_repaired: false,
        repair_cost,
    };
    let foundation = StructureActionFacts {
        entity: 21,
        construction_cost: Some(foundation_cost),
        sell_refund: Cost { ore: 0, crystal: 0 },
        damaged: false,
        being_repaired: false,
        repair_cost: Cost { ore: 0, crystal: 0 },
    };
    let mut economy = TeamEconomy { ore: 100, crystal: 100 };
    let mut jobs: Vec<BuildJob<u8>> = Vec::new();
    let mut acted: Vec<u64> = Vec::new();
    let commands = [
        (vec![10], StructureAction::Sell),
        (vec![20], StructureAction::Repair),
        (vec![20], StructureAction::Repair),
        (vec![21], StructureAction::CancelConstruction),
        (vec![21], StructureAction::CancelConstruction),
    ];
    let mut applied = Vec::new();
    for (structures, action) in commands {
        let Some(positions) = resolve_owned_online_action_structures(player_team, &structures, &entities) else {
            applied.push(false);
            continue;
        };
        for position in positions {
            let facts = if entities[position].network_id == 20 { damaged } else { foundation };
            applied.push(apply_structure_action(player_team, action, &facts, &mut acted, &mut jobs, &mut economy));
        }
    }
    // The opponent's structure is untouched; the repair is charged once and the
    // foundation refunded once.
    assert_eq!(applied, vec![false, true, false, true, false]);
    assert_eq!(economy.ore, 100 - repair_cost.ore + foundation_cost.ore);
    assert_eq!(economy.crystal, 100 - repair_cost.crystal + foundation_cost.crystal);
}

#[test]
fn repairs_need_damage_money_and_no_running_repair() {
    let facts = StructureActionFacts {
        entity: 3,
        construction_cost: None,
        sell_refund: Cost { ore: 10, crystal: 0 },
        damaged: true,
        being_repaired: false,
        repair_cost: Cost { ore: 30, crystal: 0 },
    };
    let mut jobs: Vec<BuildJob<u8>> = Vec::new();
    let mut acted = Vec::new();
    let mut poor = TeamEconomy { ore: 29, crystal: 0 };
    assert!(!apply_structure_action(Team::Player(0), StructureAction::Repair, &facts, &mut acted, &mut jobs, &mut poor));
    let mut rich = TeamEconomy { ore: 100, crystal: 0 };
    let running = StructureActionFacts { being_repaired: true, ..facts };
    assert!(!apply_structure_action(Team::Player(0), StructureAction::Repair, &running, &mut acted, &mut jobs, &mut rich));
    let whole = StructureActionFacts { damaged: false, ..facts };
    assert!(!apply_structure_action(Team::Player(0), StructureAction::Repair, &whole, &mut acted, &mut jobs, &mut rich));
    assert!(!apply_structure_action(Team::Player(0), StructureAction::CancelConstruction, &facts, &mut acted, &mut jobs, &mut rich));
    assert!(acted.is_empty());
    assert!(apply_structure_action(Team::Player(0), StructureAction::Sell, &facts, &mut acted, &mut jobs, &mut rich));
    assert_eq!(rich.ore, 110);
    assert_eq!(acted, vec![3]);
}

#[test]
fn settling_jobs_refunds_cancellations_once_and_keeps_queue_order() {
    let timed = |producer, remaining_ms| TimedJob { job: job(Team::Player(1), "Worker", producer, WORKER), remaining_ms };
    let mut queue = vec![timed(1, 100), timed(2, 200), timed(3, 300)];
    let mut economies = vec![TeamEconomy { ore: 0, crystal: 0 }, TeamEconomy { ore: 10, crystal: 10 }];
    settle_queued_job(&mut queue, 1, JobOutcome::Cancel, &mut economies);
    assert_eq!(queue.iter().map(|t| t.job.producer).collect::<Vec<_>>(), vec![1, 3]);
    assert_eq!(economies[1], TeamEconomy { ore: 14, crystal: 12 });
    assert_eq!(economies[0], TeamEconomy { ore: 0, crystal: 0 });
    settle_queued_job(&mut queue, 1, JobOutcome::Progress(120), &mut economies);
    assert_eq!(queue[1].remaining_ms, 120);
    assert_eq!(queue[1].job.producer, 3);
    settle_queued_job(&mut queue, 0, JobOutcome::Blocked, &mut economies);
    assert_eq!(queue[0].remaining_ms, 0);
    settle_queued_job(&mut queue, 0, JobOutcome::Hold, &mut economies);
    assert_eq!(queue.len(), 2);
    settle_queued_job(&mut queue, 0, JobOutcome::Spawned, &mut economies);
    assert_eq!(queue.iter().map(|t| t.job.producer).collect::<Vec<_>>(), vec![3]);
    assert_eq!(economies[1], TeamEconomy { ore: 14, crystal: 12 });
}
