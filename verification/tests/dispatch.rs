use open_rts::dispatch::{
    decide_cancel_production, decide_place_structure, decide_rally_command, decide_train_units, PlacementBuilders,
    RallyTargetFacts,
};
use open_rts::netcmd::{EntityFacts, ProductionCancel};
use open_rts::team::Team;

fn structure(network_id: u64, team: Team, can_produce: bool) -> EntityFacts {
    EntityFacts { network_id, team, is_unit: false, is_structure: true, alive: true, constructed: true, can_construct: false, can_produce }
}

fn builder(network_id: u64, team: Team) -> EntityFacts {
    EntityFacts { network_id, team, is_unit: true, is_structure: false, alive: true, constructed: true, can_construct: true, can_produce: false }
}

#[test]
fn training_needs_a_known_product_own_producers_and_tech() {
    let entities = vec![structure(10, Team::Player(0), true), structure(20, Team::Player(1), true), structure(21, Team::Player(1), false)];
    let team = Team::Player(1);
    assert_eq!(decide_train_units(team, "Worker", true, &vec![20], &entities, true), Some(vec![1]));
    assert_eq!(decide_train_units(team, "Worker", true, &vec![10], &entities, true), None);
    assert_eq!(decide_train_units(team, "Worker", true, &vec![21], &entities, true), None);
    assert_eq!(decide_train_units(team, "Worker", false, &vec![20], &entities, true), None);
    assert_eq!(decide_train_units(team, "", true, &vec![20], &entities, true), None);
    assert_eq!(decide_train_units(team, "Worker", true, &vec![20], &entities, false), None);
}

#[test]
fn cancels_need_own_producers_and_a_valid_queue_position() {
    let entities = vec![structure(20, Team::Player(1), true), structure(21, Team::Player(1), false)];
    let team = Team::Player(1);
    assert_eq!(decide_cancel_production(team, "Worker", true, &vec![20, 21], &entities, None), Some((vec![0, 1], ProductionCancel::Latest)));
    assert_eq!(decide_cancel_production(team, "Worker", true, &vec![20], &entities, Some(2)), Some((vec![0], ProductionCancel::AtLocalIndex(2))));
    assert_eq!(decide_cancel_production(team, "Worker", true, &vec![20, 21], &entities, Some(0)), None);
    assert_eq!(decide_cancel_production(team, "Worker", true, &vec![20], &entities, Some(5)), None);
    assert_eq!(decide_cancel_production(Team::Player(0), "Worker", true, &vec![20], &entities, None), None);
}

#[test]
fn placements_fall_back_to_the_nearest_builder() {
    let entities = vec![builder(30, Team::Player(1)), builder(31, Team::Player(0))];
    let team = Team::Player(1);
    assert_eq!(decide_place_structure(team, "Barracks", true, true, false, &vec![30], &entities, None), Some((vec![0], PlacementBuilders::Named)));
    assert_eq!(decide_place_structure(team, "Barracks", true, true, false, &vec![], &entities, Some(0)), Some((vec![], PlacementBuilders::Nearest(0))));
    assert_eq!(decide_place_structure(team, "Barracks", true, true, false, &vec![], &entities, None), None);
    assert_eq!(decide_place_structure(team, "Barracks", true, true, false, &vec![31], &entities, Some(0)), None);
    assert_eq!(decide_place_structure(team, "Barracks", true, true, true, &vec![30], &entities, None), None);
    assert_eq!(decide_place_structure(team, "Barracks", true, false, false, &vec![30], &entities, None), None);
    assert_eq!(decide_place_structure(team, "Barracks", false, true, false, &vec![30], &entities, None), None);
}

#[test]
fn rally_commands_need_a_valid_target_or_ground() {
    let ally = RallyTargetFacts { entity: 5, position: (2, 3), alive: true, is_resource: false, resource_left: false, allied: true, is_unit_or_structure: true };
    assert_eq!(decide_rally_command(1, true, Some(ally), None), Some((Some((5, (2, 3))), None)));
    let enemy = RallyTargetFacts { allied: false, ..ally };
    assert_eq!(decide_rally_command(1, true, Some(enemy), Some((1, 1))), None);
    assert_eq!(decide_rally_command(1, true, None, Some((1, 1))), None);
    assert_eq!(decide_rally_command::<(i32, i32)>(1, false, None, Some((1, 1))), Some((None, Some((1, 1)))));
    assert_eq!(decide_rally_command::<(i32, i32)>(1, false, None, None), None);
    assert_eq!(decide_rally_command::<(i32, i32)>(0, false, None, Some((1, 1))), None);
    assert_eq!(decide_rally_command::<(i32, i32)>(65, false, None, Some((1, 1))), None);
}
