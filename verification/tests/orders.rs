use open_rts::orders::{
    active_terrain_order_target, apply_selected_rally_points, should_set_attack_rally_points, attack_order_target_valid, can_repair_order_target, capture_order_step, construct_order_step,
    follow_order_step, repair_order_step, CaptureStep, CaptureTargetFacts, ContactStep, RepairTargetFacts, settle_garrison_orders, Bunker, GarrisonOrderFacts, GarrisonStep, attack_move_and_patrol_step, MarchStep, desired_order_for_selected_unit, group_deploy_target, hold_position_toggle_target, is_deployable_vehicle, is_rally_point_structure, issue_or_queue_unit_order, next_queued_order,
    queued_terrain_order_target, should_draw_action_queue_path, should_queue_selected_order, should_set_terrain_rally_points,
    spawned_unit_rally_order, vehicle_can_toggle_deploy_mode, CommandMode, HarvestLeg, OrderDispatch, OrderTargetChoices,
    QueuedOrder, RallyMode, RallyPoint, RightClickRoute, UnitAbilities, UnitOrderContext,
};
use open_rts::host::RTS_ONLINE_PROTOCOL;
use open_rts::netcmd::{
    apply_unit_orders_command, CommandEnvelope, CommandInbox, OrderActorFacts,
    online_order_from_local, plan_unit_action, production_cancel_request, rally_target_permitted, resolve_online_unit_order, HarvestDestination,
    OnlineUnitOrder, OrderTargetFacts, ProductionCancel, UnitAction, UnitActionFacts, UnitActionPlan, UnitOrderRequest,
};
use open_rts::team::Team;

fn worker() -> UnitAbilities {
    UnitAbilities {
        movable: true,
        can_capture: false,
        armed: false,
        can_repair: true,
        can_construct: true,
        can_collect: true,
        can_garrison: false,
    }
}

fn no_targets() -> OrderTargetChoices<(i32, i32)> {
    OrderTargetChoices {
        supply_crate_position: None,
        resource_target: None,
        resource_dropoff_target: None,
        enemy_target: None,
        repair_target: None,
        construct_target: None,
        garrison_target: None,
        follow_target: None,
    }
}

fn context() -> UnitOrderContext<(i32, i32)> {
    UnitOrderContext {
        force_move: false,
        enemy_target_capturable: false,
        attack_move: false,
        patrol: false,
        origin: (0, 0),
        destination: (5, 5),
        offset: (1, 0),
    }
}

fn facts(entity: u64) -> OrderTargetFacts {
    OrderTargetFacts {
        entity,
        same_team: false,
        enemy: true,
        allied: false,
        capturable_team: true,
        is_unit: true,
        is_structure: false,
        is_resource: false,
        resource_left: false,
        has_health: true,
        alive: true,
        constructed: true,
        under_construction: false,
        garrison_ok: false,
        dropoff: false,
        repairable: false,
    }
}

#[test]
fn unarmed_worker_clicking_an_enemy_moves_instead() {
    let choices = OrderTargetChoices { enemy_target: Some(9), ..no_targets() };
    assert_eq!(desired_order_for_selected_unit(worker(), choices, context()), Some(QueuedOrder::Move((5, 5))));
    let tank = UnitAbilities { armed: true, ..worker() };
    assert_eq!(desired_order_for_selected_unit(tank, choices, context()), Some(QueuedOrder::Attack(9)));
}

#[test]
fn right_click_priorities() {
    let choices = OrderTargetChoices { resource_target: Some(3), repair_target: Some(4), ..no_targets() };
    assert_eq!(desired_order_for_selected_unit(worker(), choices, context()), Some(QueuedOrder::Repair(4)));
    let choices = OrderTargetChoices { resource_target: Some(3), ..no_targets() };
    assert_eq!(
        desired_order_for_selected_unit(worker(), choices, context()),
        Some(QueuedOrder::Harvest { target: 3, leg: HarvestLeg::MovingToResource })
    );
    let forced = UnitOrderContext { force_move: true, ..context() };
    assert_eq!(
        desired_order_for_selected_unit(worker(), choices, forced),
        Some(QueuedOrder::ForceFollow { target: 3, offset: (1, 0) })
    );
    let patrol = UnitOrderContext { patrol: true, ..context() };
    assert_eq!(
        desired_order_for_selected_unit(worker(), no_targets(), patrol),
        Some(QueuedOrder::Patrol { origin: (0, 0), destination: (5, 5) })
    );
    let turret = UnitAbilities { movable: false, ..worker() };
    assert_eq!(desired_order_for_selected_unit(turret, no_targets(), context()), None);
    assert_eq!(no_targets().force_follow_target(), None);
}

#[test]
fn orders_queue_only_behind_busy_units() {
    assert!(should_queue_selected_order(true, true, true, 0));
    assert!(should_queue_selected_order(true, true, false, 2));
    assert!(!should_queue_selected_order(true, true, false, 0));
    assert!(!should_queue_selected_order(false, true, true, 3));
    match issue_or_queue_unit_order(QueuedOrder::Move((1, 1)), true, true, true, Some(vec![QueuedOrder::Move((0, 0))])) {
        OrderDispatch::Queue(orders) => assert_eq!(orders, vec![QueuedOrder::Move((0, 0)), QueuedOrder::Move((1, 1))]),
        OrderDispatch::IssueNow(_) => panic!("a busy unit queues the order"),
    }
    assert!(matches!(issue_or_queue_unit_order(QueuedOrder::Attack(2), false, true, true, None::<Vec<QueuedOrder<(i32, i32)>>>), OrderDispatch::IssueNow(QueuedOrder::Attack(2))));
    let mut queue = vec![QueuedOrder::Move((1, 1)), QueuedOrder::Attack(3)];
    assert_eq!(next_queued_order(true, &mut queue), None);
    assert_eq!(next_queued_order(false, &mut queue), Some(QueuedOrder::Move((1, 1))));
    assert_eq!(queue, vec![QueuedOrder::Attack(3)]);
    assert_eq!(queued_terrain_order_target(&QueuedOrder::Patrol { origin: (0, 0), destination: (2, 3) }), Some((2, 3)));
    assert_eq!(queued_terrain_order_target(&QueuedOrder::<(i32, i32)>::Attack(1)), None);
}

#[test]
fn targeting_modes_exclude_each_other() {
    let mut mode: CommandMode<u8, u8> = CommandMode::new();
    assert!(!mode.has_pending_interaction());
    assert!(mode.toggle_attack_move_mode());
    assert!(mode.begin_patrol_mode(true));
    assert!(!mode.attack_move && mode.patrol);
    assert!(mode.begin_rally_point_mode(true));
    assert!(!mode.patrol && mode.rally_point);
    assert!(!mode.toggle_attack_move_mode() || mode.attack_move);
    assert!(!mode.toggle_attack_move_mode());
    assert!(!mode.has_pending_interaction());
    mode.support_power = Some(1);
    assert!(!mode.begin_attack_move_mode(true));
    assert_eq!(mode.support_power, Some(1));
    assert!(!mode.begin_patrol_mode(false));
    mode.clear_targeting_modes();
    assert!(!mode.has_pending_interaction());
}

#[test]
fn new_units_attack_move_to_an_attack_rally_point_when_armed() {
    assert_eq!(spawned_unit_rally_order(true, true, Some(RallyMode::AttackMove), (1, 2)), QueuedOrder::AttackMove((1, 2)));
    assert_eq!(spawned_unit_rally_order(false, true, Some(RallyMode::AttackMove), (1, 2)), QueuedOrder::Move((1, 2)));
    assert_eq!(spawned_unit_rally_order(true, true, Some(RallyMode::Move), (1, 2)), QueuedOrder::Move((1, 2)));
    assert_eq!(spawned_unit_rally_order(true, true, None, (1, 2)), QueuedOrder::Move((1, 2)));
}

#[test]
fn small_order_rules() {
    assert!(should_set_terrain_rally_points(false, false, false));
    assert!(!should_set_terrain_rally_points(true, false, false));
    assert!(should_draw_action_queue_path(Team::Player(1), Team::Player(1)));
    assert!(!should_draw_action_queue_path(Team::Player(1), Team::Player(0)));
    assert!(is_rally_point_structure("Barracks"));
    assert!(!is_rally_point_structure("PowerReactor"));
    assert!(is_deployable_vehicle("RailgunTank"));
    assert!(!is_deployable_vehicle("Worker"));
    assert!(vehicle_can_toggle_deploy_mode("SiegeDrillTank", true, true, false));
    assert!(!vehicle_can_toggle_deploy_mode("SiegeDrillTank", true, true, true));
}

#[test]
fn host_applies_owned_unit_orders_and_rejects_opponent_control() {
    // The host's worker 10 (team 0) and player 2's worker 20 (team 1).
    let actors = vec![
        OrderActorFacts { network_id: 10, team: Team::Player(0), alive: true, abilities: worker() },
        OrderActorFacts { network_id: 20, team: Team::Player(1), alive: true, abilities: worker() },
    ];
    let mut inbox: CommandInbox<Vec<(u64, UnitOrderRequest<(i32, i32)>)>> = CommandInbox::new();
    for (sequence, unit_id, destination) in [(1, 10, (9, 9)), (2, 20, (4, 5))] {
        assert!(inbox.enqueue(
            2,
            CommandEnvelope {
                protocol: RTS_ONLINE_PROTOCOL,
                sequence,
                command: vec![(unit_id, UnitOrderRequest::Move { destination: Some(destination) })],
            }
        ));
    }
    let player_team = Team::Player(1);
    let mut issued = Vec::new();
    for (player_id, command) in inbox.take_pending() {
        assert_eq!(player_id, 2);
        issued.extend(apply_unit_orders_command(player_team, &actors, &command));
    }
    // The host's unit gets no order; the player's own unit moves.
    assert_eq!(issued, vec![(1, QueuedOrder::Move((4, 5)))]);
}

#[test]
fn unit_orders_skip_dead_repeated_and_unauthorised_units() {
    let actors = vec![
        OrderActorFacts { network_id: 20, team: Team::Player(1), alive: true, abilities: worker() },
        OrderActorFacts { network_id: 21, team: Team::Player(1), alive: false, abilities: worker() },
    ];
    let command = vec![
        (20, UnitOrderRequest::Move { destination: Some((1, 1)) }),
        (20, UnitOrderRequest::Move { destination: Some((2, 2)) }),
        (21, UnitOrderRequest::Move { destination: Some((3, 3)) }),
        (22, UnitOrderRequest::Move { destination: Some((4, 4)) }),
    ];
    assert_eq!(apply_unit_orders_command(Team::Player(1), &actors, &command), vec![(0, QueuedOrder::Move((1, 1)))]);
    let attack = vec![(20, UnitOrderRequest::<(i32, i32)>::Attack { target: Some(facts(30)) })];
    assert_eq!(apply_unit_orders_command(Team::Player(1), &actors, &attack), Vec::new(), "a worker is unarmed");
    assert_eq!(apply_unit_orders_command::<(i32, i32)>(Team::Player(1), &actors, &Vec::new()), Vec::new());
}

#[test]
fn unit_order_targets_follow_the_order_rules() {
    let tank = UnitAbilities { armed: true, ..worker() };
    let attack = UnitOrderRequest::<(i32, i32)>::Attack { target: Some(facts(20)) };
    assert_eq!(resolve_online_unit_order(10, tank, attack), Some(QueuedOrder::Attack(20)));
    assert_eq!(resolve_online_unit_order(20, tank, attack), None, "a unit never attacks itself");
    assert_eq!(resolve_online_unit_order(10, worker(), attack), None, "unarmed units do not attack");
    let friend = OrderTargetFacts { enemy: false, same_team: true, ..facts(21) };
    assert_eq!(resolve_online_unit_order(10, tank, UnitOrderRequest::<(i32, i32)>::Attack { target: Some(friend) }), None);
    assert_eq!(resolve_online_unit_order(10, tank, UnitOrderRequest::<(i32, i32)>::Attack { target: None }), None);
    assert_eq!(resolve_online_unit_order(10, tank, UnitOrderRequest::Move { destination: Some((3, 4)) }), Some(QueuedOrder::Move((3, 4))));
    assert_eq!(resolve_online_unit_order(10, tank, UnitOrderRequest::<(i32, i32)>::Move { destination: None }), None);
    let ore = OrderTargetFacts { is_unit: false, is_resource: true, resource_left: true, enemy: false, ..facts(30) };
    assert_eq!(
        resolve_online_unit_order(10, worker(), UnitOrderRequest::<(i32, i32)>::Harvest { target: Some(ore), destination: HarvestDestination::Resource }),
        Some(QueuedOrder::Harvest { target: 30, leg: HarvestLeg::MovingToResource })
    );
}

#[test]
fn group_actions_need_every_unit_to_support_them() {
    let soldier = UnitActionFacts {
        supports_hold_position: true,
        can_guard_area: true,
        supports_patrol: true,
        deployable: false,
        holding_position: false,
    };
    let holding = UnitActionFacts { holding_position: true, ..soldier };
    let worker = UnitActionFacts { supports_hold_position: false, can_guard_area: false, ..soldier };
    assert_eq!(plan_unit_action(UnitAction::ToggleHoldPosition, &vec![soldier, holding]), Some(UnitActionPlan::SetHoldPosition(true)));
    assert_eq!(plan_unit_action(UnitAction::ToggleHoldPosition, &vec![holding, holding]), Some(UnitActionPlan::SetHoldPosition(false)));
    assert_eq!(plan_unit_action(UnitAction::ToggleHoldPosition, &vec![soldier, worker]), None);
    assert_eq!(plan_unit_action(UnitAction::GuardArea, &vec![worker]), None);
    assert_eq!(plan_unit_action(UnitAction::Scatter, &vec![worker, soldier]), Some(UnitActionPlan::Scatter));
    assert_eq!(plan_unit_action(UnitAction::ToggleDeployMode, &vec![soldier]), None);
    assert_eq!(plan_unit_action(UnitAction::Stop, &vec![worker]), Some(UnitActionPlan::Stop));
}

#[test]
fn cancel_requests_and_rally_targets_are_checked() {
    assert_eq!(production_cancel_request(3, None), Some(ProductionCancel::Latest));
    assert_eq!(production_cancel_request(1, Some(4)), Some(ProductionCancel::AtLocalIndex(4)));
    assert_eq!(production_cancel_request(1, Some(5)), None);
    assert_eq!(production_cancel_request(2, Some(0)), None);
    assert!(rally_target_permitted(true, true, true, false, false));
    assert!(!rally_target_permitted(true, true, false, false, false));
    assert!(rally_target_permitted(true, false, false, true, true));
    assert!(!rally_target_permitted(true, false, false, false, true));
    assert!(!rally_target_permitted(false, false, false, true, true));
}

#[test]
fn patrol_toggle_enters_then_leaves_patrol() {
    let mut mode: CommandMode<u8, u8> = CommandMode::new();
    mode.attack_move = true;
    assert!(mode.toggle_patrol_mode());
    assert!(mode.patrol && !mode.attack_move);
    assert!(!mode.toggle_patrol_mode());
    assert!(!mode.has_pending_interaction());
    mode.support_power = Some(2);
    assert!(!mode.toggle_patrol_mode());
    assert!(!mode.patrol);
    assert_eq!(mode.support_power, Some(2));
}

#[test]
fn local_orders_travel_with_network_ids() {
    let ids: Vec<(u64, u64)> = vec![(3, 300), (4, 400)];
    assert_eq!(
        online_order_from_local(&QueuedOrder::Move((1, 2)), &ids),
        Some(OnlineUnitOrder::Move { destination: (1, 2) })
    );
    assert_eq!(online_order_from_local(&QueuedOrder::<(i32, i32)>::Attack(4), &ids), Some(OnlineUnitOrder::Attack { target: 400 }));
    assert_eq!(online_order_from_local(&QueuedOrder::<(i32, i32)>::Attack(5), &ids), None);
    assert_eq!(
        online_order_from_local(&QueuedOrder::<(i32, i32)>::Harvest { target: 3, leg: HarvestLeg::MovingToDropoff }, &ids),
        Some(OnlineUnitOrder::Harvest { target: 300, destination: HarvestDestination::Dropoff })
    );
    assert_eq!(
        online_order_from_local(&QueuedOrder::ForceFollow { target: 3, offset: (0, 1) }, &ids),
        Some(OnlineUnitOrder::Follow { target: 300, offset: (0, 1), allow_enemy: true })
    );
    assert_eq!(
        online_order_from_local(&QueuedOrder::Follow { target: 4, offset: (0, 1) }, &ids),
        Some(OnlineUnitOrder::Follow { target: 400, offset: (0, 1), allow_enemy: false })
    );
    assert_eq!(
        online_order_from_local(&QueuedOrder::Patrol { origin: (0, 0), destination: (5, 5) }, &ids),
        Some(OnlineUnitOrder::Patrol { origin: (0, 0), destination: (5, 5) })
    );
}

#[test]
fn deploy_toggle_deploys_all_unless_all_are_deployed() {
    assert!(group_deploy_target(&vec![false, true]));
    assert!(group_deploy_target(&vec![false]));
    assert!(!group_deploy_target(&vec![true, true]));
    assert!(!group_deploy_target(&vec![]));
}

#[test]
fn hold_toggle_holds_all_unless_all_hold() {
    assert_eq!(hold_position_toggle_target(&vec![]), None);
    assert_eq!(hold_position_toggle_target(&vec![true, false]), Some(true));
    assert_eq!(hold_position_toggle_target(&vec![true, true]), Some(false));
}

#[test]
fn rally_points_follow_units_until_they_die() {
    let mut rally = RallyPoint { target: None, target_unit: None, mode: RallyMode::Move };
    assert!(!rally.apply_command(None, None, RallyMode::AttackMove));
    assert_eq!(rally.target, None);
    assert!(rally.apply_command(Some((4, 4)), Some((9, (1, 1))), RallyMode::AttackMove));
    assert_eq!(rally, RallyPoint { target: Some((1, 1)), target_unit: Some(9), mode: RallyMode::AttackMove });
    assert!(rally.refresh_target(Some(((2, 3), true))));
    assert_eq!(rally.target, Some((2, 3)));
    assert!(rally.refresh_target(Some(((2, 4), false))));
    assert_eq!(rally, RallyPoint { target: None, target_unit: None, mode: RallyMode::AttackMove });
    assert!(!rally.refresh_target(None));

    assert!(rally.apply_command(Some((5, 6)), None, RallyMode::Move));
    assert_eq!(rally, RallyPoint { target: Some((5, 6)), target_unit: None, mode: RallyMode::Move });
    assert!(!rally.refresh_target(None));
    assert_eq!(rally.target, Some((5, 6)));
}

#[test]
fn only_the_watching_teams_producers_get_the_rally_point() {
    let empty = RallyPoint { target: None, target_unit: None, mode: RallyMode::Move };
    let mut producers = vec![(Team::Player(0), empty), (Team::Player(1), empty)];
    assert!(apply_selected_rally_points(Team::Player(0), Some((3, 3)), None, RallyMode::Move, &mut producers));
    assert_eq!(producers[0].1.target, Some((3, 3)));
    assert_eq!(producers[1].1, empty);
    assert!(!apply_selected_rally_points(Team::Player(0), None, None, RallyMode::Move, &mut producers));
    assert!(!apply_selected_rally_points(Team::Player(2), Some((1, 1)), None, RallyMode::Move, &mut producers));
    assert_eq!(producers[0].1.target, Some((3, 3)));
}

#[test]
fn patrols_report_the_end_of_their_current_leg() {
    assert_eq!(active_terrain_order_target(Some(1), Some(2), Some((3, 4, true))), Some(4));
    assert_eq!(active_terrain_order_target(Some(1), Some(2), Some((3, 4, false))), Some(3));
    assert_eq!(active_terrain_order_target(Some(1), Some(2), None), Some(2));
    assert_eq!(active_terrain_order_target(Some(1), None, None), Some(1));
    assert_eq!(active_terrain_order_target::<u8>(None, None, None), None);
}

#[test]
fn patrols_turn_at_leg_ends_and_attack_moves_finish() {
    let leg = ((0, 0), (9, 9), true);
    assert_eq!(attack_move_and_patrol_step(false, Some(leg), None, true, Some(4), true), MarchStep::Halt);
    assert_eq!(attack_move_and_patrol_step(true, Some(leg), Some((5, 5)), true, Some(4), true), MarchStep::Engage(4));
    assert_eq!(
        attack_move_and_patrol_step(true, Some(leg), None, true, None, true),
        MarchStep::TurnPatrol { moving_to_destination: false, next_target: (0, 0) }
    );
    assert_eq!(attack_move_and_patrol_step(true, Some(leg), None, false, None, false), MarchStep::Advance((9, 9)));
    assert_eq!(attack_move_and_patrol_step(true, Some(leg), None, true, None, false), MarchStep::Continue);
    assert_eq!(attack_move_and_patrol_step(true, None, Some((5, 5)), true, None, true), MarchStep::Arrive);
    assert_eq!(attack_move_and_patrol_step(true, None, Some((5, 5)), false, None, false), MarchStep::Advance((5, 5)));
    assert_eq!(attack_move_and_patrol_step(true, None, Some((5, 5)), true, Some(2), false), MarchStep::Engage(2));
    assert_eq!(attack_move_and_patrol_step::<(i32, i32)>(true, None, None, false, None, false), MarchStep::Continue);
}

fn garrison_order(target: u64, in_entry_range: bool) -> GarrisonOrderFacts {
    GarrisonOrderFacts { can_garrison: true, mobile: true, target, allied_with_target: true, in_entry_range }
}

#[test]
fn bunkers_take_units_until_full() {
    let mut bunkers = vec![Bunker { entity: 5, is_tech_bunker: true, alive: true, constructed: true, count: 0, capacity: 2 }];
    let orders = vec![
        garrison_order(5, true),
        garrison_order(5, false),
        garrison_order(5, true),
        garrison_order(5, true),
        garrison_order(6, true),
        GarrisonOrderFacts { can_garrison: false, ..garrison_order(5, true) },
    ];
    let steps = settle_garrison_orders(&orders, &mut bunkers);
    assert_eq!(
        steps,
        vec![GarrisonStep::Enter, GarrisonStep::Approach, GarrisonStep::Enter, GarrisonStep::Drop, GarrisonStep::Drop, GarrisonStep::Drop]
    );
    assert_eq!(bunkers[0].count, 2);
}

#[test]
fn only_finished_allied_tech_bunkers_take_units() {
    let bunker = Bunker { entity: 5, is_tech_bunker: true, alive: true, constructed: true, count: 0, capacity: 4 };
    let mut unfinished = vec![Bunker { constructed: false, ..bunker }];
    assert_eq!(settle_garrison_orders(&vec![garrison_order(5, true)], &mut unfinished), vec![GarrisonStep::Drop]);
    let mut other_kind = vec![Bunker { is_tech_bunker: false, ..bunker }];
    assert_eq!(settle_garrison_orders(&vec![garrison_order(5, true)], &mut other_kind), vec![GarrisonStep::Drop]);
    let mut fine = vec![bunker];
    let enemy = GarrisonOrderFacts { allied_with_target: false, ..garrison_order(5, true) };
    assert_eq!(settle_garrison_orders(&vec![enemy], &mut fine), vec![GarrisonStep::Drop]);
    let stuck = GarrisonOrderFacts { mobile: false, ..garrison_order(5, false) };
    assert_eq!(settle_garrison_orders(&vec![stuck], &mut fine), vec![GarrisonStep::Drop]);
    assert_eq!(fine[0].count, 0);
}

fn damaged_ally() -> RepairTargetFacts {
    RepairTargetFacts { allied: true, is_unit: true, is_structure: false, constructed: true, alive: true, damaged: true }
}

#[test]
fn repairs_need_a_damaged_living_ally() {
    assert!(can_repair_order_target(&damaged_ally()));
    assert!(!can_repair_order_target(&RepairTargetFacts { damaged: false, ..damaged_ally() }));
    assert!(!can_repair_order_target(&RepairTargetFacts { is_unit: false, is_structure: true, constructed: false, ..damaged_ally() }));
    assert!(can_repair_order_target(&RepairTargetFacts { is_unit: false, is_structure: true, ..damaged_ally() }));
    assert_eq!(repair_order_step(true, false, false, Some(damaged_ally()), true, true), ContactStep::Act);
    assert_eq!(repair_order_step(true, false, false, Some(damaged_ally()), false, true), ContactStep::Approach);
    assert_eq!(repair_order_step(true, false, false, Some(damaged_ally()), false, false), ContactStep::Drop);
    assert_eq!(repair_order_step(true, true, false, Some(damaged_ally()), true, true), ContactStep::Pause);
    assert_eq!(repair_order_step(false, true, false, Some(damaged_ally()), true, true), ContactStep::Drop);
    assert_eq!(repair_order_step(true, false, true, Some(damaged_ally()), true, true), ContactStep::Drop);
    assert_eq!(repair_order_step(true, false, false, None, true, true), ContactStep::Drop);
    let enemy = RepairTargetFacts { allied: false, ..damaged_ally() };
    assert_eq!(repair_order_step(true, false, false, Some(enemy), true, true), ContactStep::Drop);
}

#[test]
fn builders_work_only_on_their_own_standing_foundations() {
    assert_eq!(construct_order_step(true, Some((true, true)), true, true), ContactStep::Act);
    assert_eq!(construct_order_step(true, Some((false, true)), true, true), ContactStep::Drop);
    assert_eq!(construct_order_step(true, Some((true, false)), true, true), ContactStep::Drop);
    assert_eq!(construct_order_step(false, Some((true, true)), true, true), ContactStep::Drop);
    assert_eq!(construct_order_step(true, Some((true, true)), false, true), ContactStep::Approach);
    assert_eq!(construct_order_step(true, None, false, true), ContactStep::Drop);
}

#[test]
fn followers_keep_up_with_living_targets() {
    assert_eq!(follow_order_step(false, false, None, false, false), ContactStep::Pause);
    assert_eq!(follow_order_step(true, false, Some((true, true)), false, false), ContactStep::Drop);
    assert_eq!(follow_order_step(true, true, Some((true, true)), false, false), ContactStep::Approach);
    assert_eq!(follow_order_step(true, true, Some((true, true)), false, true), ContactStep::Act);
    assert_eq!(follow_order_step(true, true, Some((false, true)), false, false), ContactStep::Drop);
    assert_eq!(follow_order_step(true, true, Some((false, true)), true, false), ContactStep::Approach);
    assert_eq!(follow_order_step(true, true, Some((true, false)), true, false), ContactStep::Drop);
    assert_eq!(follow_order_step(true, true, None, true, false), ContactStep::Drop);
}

#[test]
fn captures_complete_after_the_capture_time_at_the_structure() {
    let neutral = CaptureTargetFacts { alive: true, player_owned: false, enemy: false };
    let friendly = CaptureTargetFacts { alive: true, player_owned: true, enemy: false };
    let hostile = CaptureTargetFacts { alive: true, player_owned: true, enemy: true };
    assert_eq!(capture_order_step(true, Some(neutral), true, true, 1_000, 500, 3_000), CaptureStep::Progress(1_500));
    assert_eq!(capture_order_step(true, Some(hostile), true, true, 2_500, 500, 3_000), CaptureStep::Capture);
    assert_eq!(capture_order_step(true, Some(friendly), true, true, 0, 16, 3_000), CaptureStep::Drop);
    assert_eq!(capture_order_step(true, Some(neutral), false, true, 2_000, 16, 3_000), CaptureStep::Approach);
    assert_eq!(capture_order_step(true, Some(neutral), false, false, 2_000, 16, 3_000), CaptureStep::Drop);
    assert_eq!(capture_order_step(false, Some(neutral), true, true, 0, 16, 3_000), CaptureStep::Drop);
    assert_eq!(capture_order_step(true, None, true, true, 0, 16, 3_000), CaptureStep::Drop);
    assert_eq!(capture_order_step(true, Some(neutral), true, true, u64::MAX, 16, u64::MAX), CaptureStep::Capture);
}

#[test]
fn attacks_need_a_living_enemy_the_weapon_reaches() {
    assert!(attack_order_target_valid(true, true, false, false, true));
    assert!(!attack_order_target_valid(true, true, true, false, true));
    assert!(attack_order_target_valid(true, true, true, true, false));
    assert!(!attack_order_target_valid(false, true, false, true, true));
    assert!(!attack_order_target_valid(true, false, false, true, true));
}

#[test]
fn right_clicks_cancel_support_powers_then_set_rally_points_then_give_orders() {
    let mut mode: CommandMode<u8, u8> = CommandMode::new();
    assert_eq!(mode.route_right_click(false, false, true), RightClickRoute::Ignore);
    assert_eq!(mode.route_right_click(true, true, true), RightClickRoute::Ignore);
    assert_eq!(mode.route_right_click(true, false, false), RightClickRoute::Ignore);
    mode.support_power = Some(3);
    mode.rally_point = true;
    assert_eq!(mode.route_right_click(true, false, true), RightClickRoute::CancelSupportPower);
    assert_eq!(mode.support_power, None);
    assert!(mode.rally_point);
    assert_eq!(mode.route_right_click(true, false, true), RightClickRoute::SetRallyPoints);
    assert!(!mode.rally_point);
    assert_eq!(mode.route_right_click(true, false, true), RightClickRoute::GiveOrders);
    mode.pending_structure_placement = Some(1);
    assert_eq!(mode.route_right_click(true, false, true), RightClickRoute::Ignore);
    mode.pending_structure_placement = None;
    mode.attack_move = true;
    mode.patrol = true;
    mode.finish_right_click_orders();
    assert!(!mode.attack_move && !mode.patrol);
    assert!(should_set_attack_rally_points(0, true, true));
    assert!(!should_set_attack_rally_points(1, true, true));
    assert!(!should_set_attack_rally_points(0, true, false));
}
