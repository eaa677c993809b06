use open_rts::selection::{
    cycle_selection_subgroup, distinct_subgroup_types, exact_control_group_slot, is_exact_current_selection, is_idle_worker,
    is_unit_idle, next_idle_worker, next_subgroup_cursor, single_click_selection_action, valid_group_entities, ActiveOrders,
    box_selectable, box_selection, selection_gate, SelectionGate, click_selectable, BoxCandidate, ClickOutcome, ClickedEntity, DoubleClickState, GroupAssignment, SelectionDrag, SelectionGesture, SingleClickSelectionAction,
    UnitGroups,
};
use open_rts::team::Team;

fn idle() -> ActiveOrders {
    ActiveOrders {
        moving: false,
        following: false,
        attacking: false,
        capturing: false,
        garrisoning: false,
        harvesting: false,
        repairing: false,
        constructing: false,
        attack_moving: false,
        patrolling: false,
    }
}

#[test]
fn tab_cursor_cycles_full_then_each_type_then_full() {
    assert_eq!(next_subgroup_cursor(None, 3), Some(0));
    assert_eq!(next_subgroup_cursor(Some(0), 3), Some(1));
    assert_eq!(next_subgroup_cursor(Some(2), 3), None, "wraps back to the full selection");
    assert_eq!(next_subgroup_cursor(None, 0), None, "empty selection never enters a subgroup");
}

#[test]
fn subgroup_type_order_is_stable_and_deduped() {
    let ids: Vec<String> = ["Tank", "Worker", "Tank", "Drone"].iter().map(|s| s.to_string()).collect();
    let types = distinct_subgroup_types(&ids);
    assert_eq!(types, vec!["Drone".to_string(), "Tank".to_string(), "Worker".to_string()]);
}

#[test]
fn tab_keeps_only_the_next_type_selected() {
    let full = vec![(1u64, "Tank".to_string()), (2, "Worker".to_string()), (3, "Tank".to_string())];
    let step = cycle_selection_subgroup(&vec![1, 2, 3], full.clone(), full.clone(), None).unwrap();
    assert_eq!(step.cursor, Some(0));
    assert_eq!(step.keep, vec![true, false, true]);
    let step = cycle_selection_subgroup(&vec![1, 3], full.clone(), Vec::new(), step.cursor).unwrap();
    assert_eq!(step.cursor, Some(1));
    assert_eq!(step.keep, vec![false, true, false]);
    let step = cycle_selection_subgroup(&vec![2], full.clone(), Vec::new(), step.cursor).unwrap();
    assert_eq!(step.cursor, None);
    assert_eq!(step.keep, vec![true, true, true]);
    assert!(cycle_selection_subgroup(&Vec::new(), Vec::new(), Vec::new(), None).is_none());
}

#[test]
fn fresh_selection_restarts_the_cycle() {
    let remembered = vec![(1u64, "Tank".to_string())];
    let fresh = vec![(9u64, "Drone".to_string())];
    let step = cycle_selection_subgroup(&vec![9], remembered, fresh, Some(0)).unwrap();
    assert_eq!(step.full[0].0, 9);
    assert_eq!(step.cursor, Some(0));
}

#[test]
fn additive_click_on_selected_unit_deselects_it() {
    assert_eq!(single_click_selection_action(true, true), SingleClickSelectionAction::ToggleDeselect);
    assert_eq!(single_click_selection_action(true, false), SingleClickSelectionAction::Select);
    assert_eq!(single_click_selection_action(false, true), SingleClickSelectionAction::Select);
}

#[test]
fn control_groups_assign_merge_and_recall() {
    let selectable = vec![(1u64, Team::Player(0)), (2, Team::Player(0)), (3, Team::Player(0)), (4, Team::Player(1))];
    let mut groups = UnitGroups::new();
    assert_eq!(groups.assign(0, &vec![1, 2]), GroupAssignment::Assigned(2));
    assert_eq!(exact_control_group_slot(&groups, &vec![2, 1]), Some(1));
    assert_eq!(groups.merge(0, &selectable, Team::Player(0), &vec![2, 3, 4]), 4);
    assert_eq!(groups.slots[0], vec![1, 2, 3, 4]);
    let (group, focus) = groups.recall(0, &selectable, Team::Player(0), &vec![1]);
    assert_eq!(group, vec![1, 2, 3]);
    assert!(!focus);
    let (_, focus) = groups.recall(0, &selectable, Team::Player(0), &vec![3, 2, 1]);
    assert!(focus);
    assert_eq!(groups.assign(0, &Vec::new()), GroupAssignment::Cleared);
    assert_eq!(groups.assign(0, &Vec::new()), GroupAssignment::Unchanged);
    assert_eq!(groups.last_accessed, None);
}

#[test]
fn group_members_must_still_exist_on_the_team() {
    let selectable = vec![(1u64, Team::Player(0)), (2, Team::Player(1))];
    assert_eq!(valid_group_entities(&selectable, Team::Player(0), &vec![2, 1, 5]), vec![1]);
    assert!(is_exact_current_selection(&vec![1, 2], &vec![2, 1]));
    assert!(!is_exact_current_selection(&vec![1], &vec![1, 2]));
    assert!(!is_exact_current_selection(&Vec::new(), &Vec::new()));
}

#[test]
fn idle_workers_cycle_in_index_order() {
    let keys = vec![30u64, 10, 20];
    assert_eq!(next_idle_worker(&keys, None), Some(10));
    assert_eq!(next_idle_worker(&keys, Some(10)), Some(20));
    assert_eq!(next_idle_worker(&keys, Some(30)), Some(10));
    assert_eq!(next_idle_worker(&keys, Some(99)), Some(10));
    assert_eq!(next_idle_worker(&Vec::new(), Some(10)), None);
}

#[test]
fn a_worker_with_any_order_is_not_idle() {
    assert!(is_unit_idle(0, idle()));
    assert!(!is_unit_idle(1, idle()));
    assert!(!is_unit_idle(0, ActiveOrders { harvesting: true, ..idle() }));
    assert!(is_idle_worker(Team::Player(0), Team::Player(0), true, true, 0, idle()));
    assert!(!is_idle_worker(Team::Player(0), Team::Player(0), false, true, 0, idle()));
    assert!(!is_idle_worker(Team::Player(0), Team::Player(1), true, true, 0, idle()));
}

#[test]
fn presses_become_clicks_or_box_drags() {
    let mut drag = SelectionDrag::new();
    assert_eq!(drag.release(), SelectionGesture::Untracked);
    drag.press(false, false, false);
    drag.hold(false, false);
    assert_eq!(drag.release(), SelectionGesture::ClickSelect);
    drag.press(false, false, false);
    drag.hold(false, true);
    assert!(drag.dragging);
    assert_eq!(drag.release(), SelectionGesture::BoxSelect);
    assert!(!drag.active && !drag.dragging);
}

#[test]
fn hud_presses_edges_and_support_fire_start_no_selection() {
    let mut drag = SelectionDrag::new();
    drag.press(false, true, true);
    drag.hold(true, true);
    assert!(drag.active && !drag.dragging);
    assert_eq!(drag.release(), SelectionGesture::Swallowed);
    drag.press(false, false, true);
    assert!(!drag.active);
    assert_eq!(drag.release(), SelectionGesture::Untracked);
    drag.press(false, false, false);
    drag.hold(true, false);
    assert_eq!(drag.release(), SelectionGesture::Untracked);
    drag.press(true, false, false);
    assert_eq!(drag.release(), SelectionGesture::Untracked);
}

fn clicked(entity: u64, unit_type: Option<&str>, selected: bool) -> Option<ClickedEntity> {
    Some(ClickedEntity { entity, unit_type: unit_type.map(|t| t.to_string()), selected })
}

#[test]
fn double_clicks_pick_the_whole_unit_type() {
    let mut state = DoubleClickState::new();
    assert_eq!(state.register_click(clicked(4, Some("Rifleman"), false), false, 1_000, 50, 400), ClickOutcome::Select);
    assert_eq!(state.register_click(clicked(4, Some("Rifleman"), true), false, 1_200, 50, 400), ClickOutcome::SelectSameType);
    assert_eq!(state.last_unit, Some(4));
    assert_eq!(state.register_click(clicked(4, Some("Rifleman"), true), false, 1_900, 50, 400), ClickOutcome::Select);
    assert_eq!(state.register_click(clicked(4, Some("Rifleman"), true), false, 1_910, 50, 400), ClickOutcome::Select);
    assert_eq!(state.register_click(clicked(9, None, false), false, 2_100, 50, 400), ClickOutcome::Select);
    assert_eq!(state.register_click(clicked(9, None, true), false, 2_200, 50, 400), ClickOutcome::Select);
}

#[test]
fn additive_clicks_on_selected_entities_deselect_and_forget() {
    let mut state = DoubleClickState::new();
    assert_eq!(state.register_click(clicked(4, Some("Rifleman"), true), true, 1_000, 50, 400), ClickOutcome::ToggleDeselect);
    assert_eq!(state.last_unit, None);
    assert_eq!(state.last_click_ms, 1_000);
    assert_eq!(state.register_click(None, false, 1_100, 50, 400), ClickOutcome::Nothing);
    assert_eq!(state.last_unit_type, None);
}

#[test]
fn boxes_select_own_visible_units_and_clicks_may_pick_resources() {
    let own = Team::Player(0);
    let other = Team::Player(1);
    assert!(box_selectable(own, own, true, false));
    assert!(!box_selectable(own, own, false, false));
    assert!(!box_selectable(other, own, true, false));
    assert!(!box_selectable(Team::Neutral, own, true, true));
    assert!(click_selectable(Team::Neutral, own, true, true, true));
    assert!(!click_selectable(Team::Neutral, own, true, true, false));
    assert!(!click_selectable(other, own, true, false, false));
    assert!(click_selectable(own, own, true, false, false));
    let candidates = vec![
        BoxCandidate { entity: 1, team: own, visible: true, is_resource: false, in_box: true },
        BoxCandidate { entity: 2, team: other, visible: true, is_resource: false, in_box: true },
        BoxCandidate { entity: 3, team: own, visible: true, is_resource: false, in_box: false },
        BoxCandidate { entity: 4, team: Team::Neutral, visible: true, is_resource: true, in_box: true },
        BoxCandidate { entity: 5, team: own, visible: true, is_resource: false, in_box: true },
    ];
    assert_eq!(box_selection(&candidates, own), vec![1, 5]);
}

#[test]
fn selection_waits_while_placing_and_clears_without_a_player() {
    assert_eq!(selection_gate(true, false, false, false), SelectionGate::Ignore);
    assert_eq!(selection_gate(false, false, true, true), SelectionGate::ClearAll);
    assert_eq!(selection_gate(false, true, false, true), SelectionGate::Ignore);
    assert_eq!(selection_gate(false, true, true, false), SelectionGate::LoseCursor);
    assert_eq!(selection_gate(false, true, true, true), SelectionGate::Handle);
    let mut drag = SelectionDrag::new();
    drag.press(false, false, false);
    drag.hold(false, true);
    drag.cancel();
    assert!(!drag.active && !drag.dragging);
    let mut clicks = DoubleClickState::new();
    clicks.register_click(Some(ClickedEntity { entity: 4, unit_type: Some("Rifleman".to_string()), selected: false }), false, 10, 50, 400);
    clicks.forget();
    assert_eq!(clicks.last_unit, None);
    assert_eq!(clicks.last_unit_type, None);
    assert_eq!(clicks.last_click_ms, 10);
}
