use open_rts::host::RTS_ONLINE_PROTOCOL;
use open_rts::netcmd::{
    plan_unit_action, CommandInbox, UnitAction, UnitActionFacts, UnitActionPlan,
    resolve_online_constructors, resolve_online_producers, resolve_owned_entities, resolve_owned_online_action_structures,
    resolve_owned_online_structure_entities, resolve_owned_online_unit_entities, unit_order_positions, CommandEnvelope,
    online_entity_id_acceptable, CommandOutbox, EntityFacts, Eligibility,
};
use open_rts::team::Team;

fn unit(network_id: u64, team: Team) -> EntityFacts {
    EntityFacts {
        network_id,
        team,
        is_unit: true,
        is_structure: false,
        alive: true,
        constructed: true,
        can_construct: false,
        can_produce: false,
    }
}

fn structure(network_id: u64, team: Team, constructed: bool, can_produce: bool) -> EntityFacts {
    EntityFacts {
        network_id,
        team,
        is_unit: false,
        is_structure: true,
        alive: true,
        constructed,
        can_construct: false,
        can_produce,
    }
}

fn world() -> Vec<EntityFacts> {
    let mut builder = unit(40, Team::Player(0));
    builder.can_construct = true;
    let mut dead = unit(50, Team::Player(0));
    dead.alive = false;
    vec![
        unit(10, Team::Player(0)),
        unit(11, Team::Player(1)),
        structure(20, Team::Player(0), true, true),
        structure(21, Team::Player(0), false, true),
        structure(22, Team::Player(0), true, false),
        builder,
        dead,
    ]
}

#[test]
fn owned_units_resolve_to_their_positions() {
    let entities = world();
    assert_eq!(resolve_owned_online_unit_entities(Team::Player(0), &vec![40, 10], &entities), Some(vec![5, 0]));
    assert_eq!(resolve_owned_online_unit_entities(Team::Player(0), &vec![11], &entities), None);
    assert_eq!(resolve_owned_online_unit_entities(Team::Player(0), &vec![50], &entities), None);
    assert_eq!(resolve_owned_online_unit_entities(Team::Player(0), &vec![10, 10], &entities), None);
    assert_eq!(resolve_owned_online_unit_entities(Team::Player(0), &vec![], &entities), None);
    assert_eq!(resolve_owned_online_unit_entities(Team::Player(0), &vec![99], &entities), None);
}

#[test]
fn structure_requests_check_construction_and_production() {
    let entities = world();
    assert_eq!(resolve_owned_online_action_structures(Team::Player(0), &vec![21, 22], &entities), Some(vec![3, 4]));
    assert_eq!(resolve_owned_online_action_structures(Team::Player(0), &vec![10], &entities), None);
    assert_eq!(resolve_owned_online_structure_entities(Team::Player(0), &vec![20, 22], 64, &entities), Some(vec![2, 4]));
    assert_eq!(resolve_owned_online_structure_entities(Team::Player(0), &vec![21], 64, &entities), None);
    assert_eq!(resolve_owned_online_structure_entities(Team::Player(0), &vec![20, 22], 1, &entities), None);
    assert_eq!(resolve_online_producers(Team::Player(0), &vec![20], &entities), Some(vec![2]));
    assert_eq!(resolve_online_producers(Team::Player(0), &vec![21], &entities), None);
    assert_eq!(resolve_online_producers(Team::Player(0), &vec![22], &entities), None);
}

#[test]
fn constructors_may_be_left_to_the_host() {
    let entities = world();
    assert_eq!(resolve_online_constructors(Team::Player(0), &vec![], &entities), Some(vec![]));
    assert_eq!(resolve_online_constructors(Team::Player(0), &vec![40], &entities), Some(vec![5]));
    assert_eq!(resolve_online_constructors(Team::Player(0), &vec![10], &entities), None);
}

#[test]
fn oversized_requests_are_refused() {
    let entities = world();
    assert_eq!(resolve_owned_entities(Eligibility::OwnedUnit, Team::Player(0), &vec![10, 40], &entities, 1, false), None);
    assert_eq!(resolve_owned_entities(Eligibility::OwnedUnit, Team::Player(0), &vec![10], &entities, 1, false), Some(vec![0]));
    let many: Vec<u64> = (0..65).collect();
    assert_eq!(resolve_online_producers(Team::Player(0), &many, &entities), None);
}

#[test]
fn unit_orders_keep_the_first_order_per_unit() {
    assert_eq!(unit_order_positions(&vec![7, 8, 7, 9, 8]), vec![0, 1, 3]);
    assert_eq!(unit_order_positions(&vec![]), Vec::<usize>::new());
    let too_many: Vec<u64> = (0..257).collect();
    assert_eq!(unit_order_positions(&too_many), Vec::<usize>::new());
    let most: Vec<u64> = (0..256).collect();
    assert_eq!(unit_order_positions(&most).len(), 256);
}

#[test]
fn unsent_commands_go_back_to_the_front() {
    let mut outbox: CommandOutbox<u32> = CommandOutbox::new();
    outbox.submit(30);
    let unsent = vec![
        CommandEnvelope { protocol: 1, sequence: 1, command: 10 },
        CommandEnvelope { protocol: 1, sequence: 2, command: 20 },
    ];
    outbox.requeue_front(unsent);
    let order: Vec<u32> = outbox.pending.iter().map(|envelope| envelope.command).collect();
    assert_eq!(order, vec![10, 20, 30]);
    assert_eq!(outbox.next_sequence, 1);
}

#[test]
fn entity_ids_in_commands_are_short_and_not_empty() {
    assert!(online_entity_id_acceptable("Rifleman"));
    assert!(!online_entity_id_acceptable(""));
    assert!(online_entity_id_acceptable(&"x".repeat(64)));
    assert!(!online_entity_id_acceptable(&"x".repeat(65)));
    assert!(online_entity_id_acceptable(&"é".repeat(32)));
    assert!(!online_entity_id_acceptable(&"é".repeat(33)));
}

#[test]
fn host_applies_owned_unit_actions_and_rejects_opponent_control() {
    // The host's unit 10 (team 0) and player 2's unit 20 (team 1).
    let entities = vec![unit(10, Team::Player(0)), unit(20, Team::Player(1))];
    let player_team = Team::Player(1);
    let mut inbox: CommandInbox<(Vec<u64>, UnitAction)> = CommandInbox::new();
    assert!(inbox.enqueue(2, CommandEnvelope { protocol: RTS_ONLINE_PROTOCOL, sequence: 1, command: (vec![10], UnitAction::ToggleHoldPosition) }));
    assert!(inbox.enqueue(2, CommandEnvelope { protocol: RTS_ONLINE_PROTOCOL, sequence: 2, command: (vec![20], UnitAction::ToggleHoldPosition) }));
    let commands = inbox.take_pending();
    assert_eq!(commands.len(), 2);

    // Player 2 may not touch the host's unit.
    assert_eq!(resolve_owned_online_unit_entities(player_team, &commands[0].1.0, &entities), None);
    // Its own unit starts holding position, which drops its move order.
    let positions = resolve_owned_online_unit_entities(player_team, &commands[1].1.0, &entities).unwrap();
    assert_eq!(positions, vec![1]);
    let rifleman = UnitActionFacts {
        supports_hold_position: true,
        can_guard_area: true,
        supports_patrol: true,
        deployable: false,
        holding_position: false,
    };
    assert_eq!(plan_unit_action(commands[1].1.1, &vec![rifleman]), Some(UnitActionPlan::SetHoldPosition(true)));

    // Scattering the holding unit is allowed and moves it again.
    assert!(inbox.enqueue(2, CommandEnvelope { protocol: RTS_ONLINE_PROTOCOL, sequence: 3, command: (vec![20], UnitAction::Scatter) }));
    let commands = inbox.take_pending();
    assert_eq!(resolve_owned_online_unit_entities(player_team, &commands[0].1.0, &entities), Some(vec![1]));
    let holding = UnitActionFacts { holding_position: true, ..rifleman };
    assert_eq!(plan_unit_action(commands[0].1.1, &vec![holding]), Some(UnitActionPlan::Scatter));
}
