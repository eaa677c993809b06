//! Unit orders: which order a right click gives a unit, order queueing, the
//! targeting modes of the command card, and rally orders of new units.
//! Entities are their ids; `V` is a world position, kept as the caller gives it.

use vstd::prelude::*;

use crate::production::has_production_queue;
use crate::team::Team;
use crate::text::same_text;

verus! {

/// Which way a harvester is heading.
#[derive(Clone, Copy, Debug, PartialEq, Eq, Structural)]
pub enum HarvestLeg {
    MovingToResource,
    MovingToDropoff,
}

/// An order a unit carries out or keeps queued.
#[derive(Clone, Copy, Debug, PartialEq, Eq, Structural)]
pub enum QueuedOrder<V> {
    Move(V),
    Attack(u64),
    Capture(u64),
    Garrison(u64),
    Harvest { target: u64, leg: HarvestLeg },
    Repair(u64),
    Construct(u64),
    Follow { target: u64, offset: V },
    AttackMove(V),
    Patrol { origin: V, destination: V },
    ForceFollow { target: u64, offset: V },
}

/// What lies under the cursor for a right click, by kind.
#[derive(Clone, Copy, Debug, PartialEq, Eq, Structural)]
pub struct OrderTargetChoices<V> {
    pub supply_crate_position: Option<V>,
    pub resource_target: Option<u64>,
    pub resource_dropoff_target: Option<u64>,
    pub enemy_target: Option<u64>,
    pub repair_target: Option<u64>,
    pub construct_target: Option<u64>,
    pub garrison_target: Option<u64>,
    pub follow_target: Option<u64>,
}

/// The first of `options` that is present.
pub open spec fn first_present(options: Seq<Option<u64>>) -> Option<u64>
    decreases options.len(),
{
    if options.len() == 0 {
        None
    } else if options[0] is Some {
        options[0]
    } else {
        first_present(options.drop_first())
    }
}

impl<V> OrderTargetChoices<V> {
    /// What a forced follow sticks to: an enemy, then a resource, a dropoff,
    /// something to repair, to construct, to garrison, or to follow.
    pub open spec fn force_follow_spec(&self) -> Option<u64> {
        first_present(seq![
            self.enemy_target,
            self.resource_target,
            self.resource_dropoff_target,
            self.repair_target,
            self.construct_target,
            self.garrison_target,
            self.follow_target,
        ])
    }

    /// What a forced follow sticks to.
    pub fn force_follow_target(&self) -> (target: Option<u64>)
        ensures
            target == self.force_follow_spec(),
    {
        proof {
            reveal_with_fuel(first_present, 8);
        }
        if self.enemy_target.is_some() {
            self.enemy_target
        } else if self.resource_target.is_some() {
            self.resource_target
        } else if self.resource_dropoff_target.is_some() {
            self.resource_dropoff_target
        } else if self.repair_target.is_some() {
            self.repair_target
        } else if self.construct_target.is_some() {
            self.construct_target
        } else if self.garrison_target.is_some() {
            self.garrison_target
        } else {
            self.follow_target
        }
    }
}

/// What a unit can do.
#[derive(Clone, Copy, Debug, PartialEq, Eq, Structural)]
pub struct UnitAbilities {
    pub movable: bool,
    pub can_capture: bool,
    pub armed: bool,
    pub can_repair: bool,
    pub can_construct: bool,
    pub can_collect: bool,
    pub can_garrison: bool,
}

/// How the right click was given: with the force-move modifier, on a
/// capturable enemy, in attack-move or patrol mode; `destination` is the
/// clicked point plus the unit's formation `offset`, `origin` where the unit is.
#[derive(Clone, Copy, Debug, PartialEq, Eq, Structural)]
pub struct UnitOrderContext<V> {
    pub force_move: bool,
    pub enemy_target_capturable: bool,
    pub attack_move: bool,
    pub patrol: bool,
    pub origin: V,
    pub destination: V,
    pub offset: V,
}

/// The order a right click gives one selected unit, by priority: a forced
/// follow; picking up a supply crate; capturing or (armed units only)
/// attacking an enemy; repairing; constructing; harvesting; returning cargo;
/// garrisoning; following a friend; else moving, attack-moving or patrolling
/// to the destination. Units that cannot move take no order that needs
/// movement.
pub open spec fn desired_order<V>(unit: UnitAbilities, choices: OrderTargetChoices<V>, context: UnitOrderContext<V>) -> Option<QueuedOrder<V>> {
    if context.force_move && choices.force_follow_spec() is Some {
        if unit.movable {
            Some(QueuedOrder::ForceFollow { target: choices.force_follow_spec()->0, offset: context.offset })
        } else {
            None
        }
    } else if choices.supply_crate_position is Some {
        if unit.movable { Some(QueuedOrder::Move(choices.supply_crate_position->0)) } else { None }
    } else if choices.enemy_target is Some && context.enemy_target_capturable && unit.can_capture {
        Some(QueuedOrder::Capture(choices.enemy_target->0))
    } else if choices.enemy_target is Some && unit.armed {
        Some(QueuedOrder::Attack(choices.enemy_target->0))
    } else if choices.repair_target is Some && unit.can_repair {
        Some(QueuedOrder::Repair(choices.repair_target->0))
    } else if choices.construct_target is Some && unit.can_construct {
        Some(QueuedOrder::Construct(choices.construct_target->0))
    } else if choices.resource_target is Some && unit.can_collect {
        if unit.movable {
            Some(QueuedOrder::Harvest { target: choices.resource_target->0, leg: HarvestLeg::MovingToResource })
        } else {
            None
        }
    } else if choices.resource_dropoff_target is Some && unit.can_collect {
        Some(QueuedOrder::Harvest { target: choices.resource_dropoff_target->0, leg: HarvestLeg::MovingToDropoff })
    } else if choices.garrison_target is Some && unit.can_garrison {
        Some(QueuedOrder::Garrison(choices.garrison_target->0))
    } else if choices.follow_target is Some {
        if unit.movable {
            Some(QueuedOrder::Follow { target: choices.follow_target->0, offset: context.offset })
        } else {
            None
        }
    } else if !unit.movable {
        None
    } else if context.attack_move {
        Some(QueuedOrder::AttackMove(context.destination))
    } else if context.patrol {
        Some(QueuedOrder::Patrol { origin: context.origin, destination: context.destination })
    } else {
        Some(QueuedOrder::Move(context.destination))
    }
}

/// The order a right click gives one selected unit; see `desired_order`.
pub fn desired_order_for_selected_unit<V: Copy>(unit: UnitAbilities, choices: OrderTargetChoices<V>, context: UnitOrderContext<V>) -> (order: Option<QueuedOrder<V>>)
    ensures
        order == desired_order(unit, choices, context),
{
    if context.force_move {
        match choices.force_follow_target() {
            Some(target) => {
                return if unit.movable {
                    Some(QueuedOrder::ForceFollow { target, offset: context.offset })
                } else {
                    None
                };
            },
            None => {},
        }
    }
    if let Some(position) = choices.supply_crate_position {
        return if unit.movable { Some(QueuedOrder::Move(position)) } else { None };
    }
    if let Some(target) = choices.enemy_target {
        if context.enemy_target_capturable && unit.can_capture {
            return Some(QueuedOrder::Capture(target));
        }
        if unit.armed {
            return Some(QueuedOrder::Attack(target));
        }
    }
    if let Some(target) = choices.repair_target {
        if unit.can_repair {
            return Some(QueuedOrder::Repair(target));
        }
    }
    if let Some(target) = choices.construct_target {
        if unit.can_construct {
            return Some(QueuedOrder::Construct(target));
        }
    }
    if let Some(target) = choices.resource_target {
        if unit.can_collect {
            return if unit.movable {
                Some(QueuedOrder::Harvest { target, leg: HarvestLeg::MovingToResource })
            } else {
                None
            };
        }
    }
    if let Some(target) = choices.resource_dropoff_target {
        if unit.can_collect {
            return Some(QueuedOrder::Harvest { target, leg: HarvestLeg::MovingToDropoff });
        }
    }
    if let Some(target) = choices.garrison_target {
        if unit.can_garrison {
            return Some(QueuedOrder::Garrison(target));
        }
    }
    if let Some(target) = choices.follow_target {
        return if unit.movable { Some(QueuedOrder::Follow { target, offset: context.offset }) } else { None };
    }
    if !unit.movable {
        return None;
    }
    if context.attack_move {
        Some(QueuedOrder::AttackMove(context.destination))
    } else if context.patrol {
        Some(QueuedOrder::Patrol { origin: context.origin, destination: context.destination })
    } else {
        Some(QueuedOrder::Move(context.destination))
    }
}

/// A right click on open ground (nothing under the cursor to pick up, attack,
/// repair, build, harvest, enter or follow) sends a unit that can move to the
/// destination: attack-moving in attack-move mode (whatever the patrol
/// mode), patrolling from where it stands in patrol mode, else moving. A
/// unit that cannot move takes no order there.
pub proof fn law_ground_clicks_follow_the_targeting_mode<V>(
    unit: UnitAbilities,
    choices: OrderTargetChoices<V>,
    context: UnitOrderContext<V>,
)
    requires
        choices.supply_crate_position is None,
        choices.resource_target is None,
        choices.resource_dropoff_target is None,
        choices.enemy_target is None,
        choices.repair_target is None,
        choices.construct_target is None,
        choices.garrison_target is None,
        choices.follow_target is None,
    ensures
        unit.movable && context.attack_move ==> desired_order(unit, choices, context)
            == Some(QueuedOrder::AttackMove(context.destination)),
        unit.movable && !context.attack_move && context.patrol ==> desired_order(unit, choices, context)
            == Some(QueuedOrder::Patrol { origin: context.origin, destination: context.destination }),
        unit.movable && !context.attack_move && !context.patrol ==> desired_order(unit, choices, context)
            == Some(QueuedOrder::Move(context.destination)),
        context.attack_move ==> !(desired_order(unit, choices, context) matches Some(QueuedOrder::Move(_))),
        !unit.movable ==> desired_order(unit, choices, context) is None,
{
    reveal_with_fuel(first_present, 8);
    assert(choices.force_follow_spec() is None);
}

/// A right click on something acts on it, by priority: with the force-move
/// modifier a unit that can move sticks to an enemy under the cursor before
/// anything else; otherwise a supply crate is picked up by walking onto it;
/// an enemy is captured by a unit that can capture it, else attacked by an
/// armed unit; a friendly target alone is followed, without the modifier,
/// by a unit that can move.
pub proof fn law_clicked_targets_take_priority<V>(
    unit: UnitAbilities,
    choices: OrderTargetChoices<V>,
    context: UnitOrderContext<V>,
)
    ensures
        context.force_move && unit.movable && choices.enemy_target is Some ==> desired_order(unit, choices, context)
            == Some(QueuedOrder::ForceFollow { target: choices.enemy_target->0, offset: context.offset }),
        !context.force_move && choices.supply_crate_position is Some ==> desired_order(unit, choices, context)
            == (if unit.movable { Some(QueuedOrder::Move(choices.supply_crate_position->0)) } else { None }),
        !context.force_move && choices.supply_crate_position is None && choices.enemy_target is Some
            && context.enemy_target_capturable && unit.can_capture ==> desired_order(unit, choices, context)
            == Some(QueuedOrder::<V>::Capture(choices.enemy_target->0)),
        !context.force_move && choices.supply_crate_position is None && choices.enemy_target is Some
            && !(context.enemy_target_capturable && unit.can_capture) && unit.armed ==> desired_order(unit, choices, context)
            == Some(QueuedOrder::<V>::Attack(choices.enemy_target->0)),
        ({
            let only_friend = choices.supply_crate_position is None && choices.resource_target is None
                && choices.resource_dropoff_target is None && choices.enemy_target is None && choices.repair_target is None
                && choices.construct_target is None && choices.garrison_target is None && choices.follow_target is Some;
            only_friend && !context.force_move && unit.movable ==> desired_order(unit, choices, context)
                == Some(QueuedOrder::Follow { target: choices.follow_target->0, offset: context.offset })
        }),
{
    reveal_with_fuel(first_present, 8);
}

/// A new order joins the unit's queue only in queue mode, when the order
/// allows queueing and the unit is busy or already has orders queued.
pub fn should_queue_selected_order(queue_mode: bool, allow_queue: bool, has_active: bool, queued_orders: usize) -> (queue: bool)
    ensures
        queue == (allow_queue && queue_mode && (has_active || queued_orders > 0)),
{
    allow_queue && queue_mode && (has_active || queued_orders > 0)
}

/// What happens to a new order: it joins the queue, or it is carried out now
/// and the queue is dropped.
pub enum OrderDispatch<V> {
    Queue(Vec<QueuedOrder<V>>),
    IssueNow(QueuedOrder<V>),
}

/// Queue `order` behind the unit's queued orders, or carry it out now; see
/// `should_queue_selected_order`.
pub fn issue_or_queue_unit_order<V>(order: QueuedOrder<V>, queue_mode: bool, allow_queue: bool, has_active: bool, queue: Option<Vec<QueuedOrder<V>>>) -> (dispatch: OrderDispatch<V>)
    ensures
        ({
            let queued = match queue {
                Some(orders) => orders@,
                None => Seq::empty(),
            };
            if allow_queue && queue_mode && (has_active || queued.len() > 0) {
                dispatch matches OrderDispatch::Queue(orders) && orders@ == queued.push(order)
            } else {
                dispatch == OrderDispatch::IssueNow(order)
            }
        }),
{
    let mut orders = match queue {
        Some(orders) => orders,
        None => Vec::new(),
    };
    if should_queue_selected_order(queue_mode, allow_queue, has_active, orders.len()) {
        orders.push(order);
        OrderDispatch::Queue(orders)
    } else {
        OrderDispatch::IssueNow(order)
    }
}

/// A unit with no order in progress takes the first queued one; the queue
/// keeps the rest.
pub fn next_queued_order<V>(has_active: bool, queue: &mut Vec<QueuedOrder<V>>) -> (next: Option<QueuedOrder<V>>)
    ensures
        has_active || old(queue)@.len() == 0 ==> next is None && final(queue)@ == old(queue)@,
        !has_active && old(queue)@.len() > 0 ==> next == Some(old(queue)@[0]) && final(queue)@ == old(queue)@.drop_first(),
{
    if has_active || queue.len() == 0 {
        return None;
    }
    let first = queue.remove(0);
    proof {
        assert(queue@ =~= old(queue)@.drop_first());
    }
    Some(first)
}

/// The point a queued order heads for on the ground, if it has one.
pub fn queued_terrain_order_target<V: Copy>(order: &QueuedOrder<V>) -> (target: Option<V>)
    ensures
        target == match *order {
            QueuedOrder::Move(point) => Some(point),
            QueuedOrder::AttackMove(point) => Some(point),
            QueuedOrder::Patrol { destination, .. } => Some(destination),
            _ => None,
        },
{
    match order {
        QueuedOrder::Move(point) => Some(*point),
        QueuedOrder::AttackMove(point) => Some(*point),
        QueuedOrder::Patrol { destination, .. } => Some(*destination),
        _ => None,
    }
}

/// How units leave a producer towards its rally point.
#[derive(Clone, Copy, Debug, PartialEq, Eq, Structural)]
pub enum RallyMode {
    Move,
    AttackMove,
}

/// The first order of a new unit: attack-move to the rally point when the
/// rally point says so and the unit is armed and mobile, else move there.
pub fn spawned_unit_rally_order<V>(armed: bool, movable: bool, rally_mode: Option<RallyMode>, rally_target: V) -> (order: QueuedOrder<V>)
    ensures
        order == (if rally_mode == Some(RallyMode::AttackMove) && armed && movable {
            QueuedOrder::AttackMove(rally_target)
        } else {
            QueuedOrder::Move(rally_target)
        }),
{
    let attack_move = match rally_mode {
        Some(RallyMode::AttackMove) => true,
        _ => false,
    };
    if attack_move && armed && movable {
        QueuedOrder::AttackMove(rally_target)
    } else {
        QueuedOrder::Move(rally_target)
    }
}

/// Where a producer sends its new units: a ground point, or a unit it
/// follows (`target` then tracks that unit's position), and how they go.
#[derive(Clone, Copy, Debug, PartialEq, Eq, Structural)]
pub struct RallyPoint<V> {
    pub target: Option<V>,
    pub target_unit: Option<u64>,
    pub mode: RallyMode,
}

/// The rally point a command sets: at the unit when one was clicked, else
/// at the ground point.
pub open spec fn rallied<V>(ground: Option<V>, unit_target: Option<(u64, V)>, mode: RallyMode) -> RallyPoint<V> {
    RallyPoint {
        target: match unit_target {
            Some(unit) => Some(unit.1),
            None => ground,
        },
        target_unit: match unit_target {
            Some(unit) => Some(unit.0),
            None => None,
        },
        mode,
    }
}

impl<V: Copy> RallyPoint<V> {
    /// Point the rally point at a unit (given with its position) or else at
    /// a ground point; `ground` is `None` when the clicked point lies off
    /// the map, and then nothing changes. Returns whether it was set.
    pub fn apply_command(&mut self, ground: Option<V>, unit_target: Option<(u64, V)>, mode: RallyMode) -> (set: bool)
        ensures
            set == (unit_target is Some || ground is Some),
            set ==> *final(self) == rallied(ground, unit_target, mode),
            !set ==> *final(self) == *old(self),
    {
        let target = match unit_target {
            Some(unit) => unit.1,
            None => match ground {
                Some(point) => point,
                None => return false,
            },
        };
        self.target = Some(target);
        self.target_unit = match unit_target {
            Some(unit) => Some(unit.0),
            None => None,
        };
        self.mode = mode;
        true
    }

    /// Follow the unit a rally point tracks: `target_state` is its position
    /// and whether it still lives (or, for a resource node, still holds
    /// something), `None` when it is gone. A living target moves the rally
    /// point along; otherwise the rally point is cleared. A ground rally
    /// point is left alone. Returns whether the rally point follows a unit.
    pub fn refresh_target(&mut self, target_state: Option<(V, bool)>) -> (following: bool)
        ensures
            following == (old(self).target_unit is Some),
            !following ==> *final(self) == *old(self),
            following ==> *final(self) == match target_state {
                Some(state) => if state.1 {
                    RallyPoint { target: Some(state.0), ..*old(self) }
                } else {
                    RallyPoint { target: None, target_unit: None, ..*old(self) }
                },
                None => RallyPoint { target: None, target_unit: None, ..*old(self) },
            },
    {
        if self.target_unit.is_none() {
            return false;
        }
        match target_state {
            Some(state) => {
                if state.1 {
                    self.target = Some(state.0);
                    return true;
                }
            },
            None => {},
        }
        self.target = None;
        self.target_unit = None;
        true
    }
}

/// Set the rally point of every selected producer of `visible_team` (each
/// entry is a producer's team and rally point). Returns whether any was set.
pub fn apply_selected_rally_points<V: Copy>(
    visible_team: Team,
    ground: Option<V>,
    unit_target: Option<(u64, V)>,
    mode: RallyMode,
    rally_points: &mut Vec<(Team, RallyPoint<V>)>,
) -> (set_any: bool)
    ensures
        final(rally_points)@.len() == old(rally_points)@.len(),
        forall|i: int| 0 <= i < old(rally_points)@.len() ==> #[trigger] final(rally_points)@[i] == (
            old(rally_points)@[i].0,
            if old(rally_points)@[i].0 == visible_team && (unit_target is Some || ground is Some) {
                rallied(ground, unit_target, mode)
            } else {
                old(rally_points)@[i].1
            },
        ),
        set_any == ((unit_target is Some || ground is Some)
            && exists|i: int| 0 <= i < old(rally_points)@.len() && (#[trigger] old(rally_points)@[i]).0 == visible_team),
{
    let ghost start = rally_points@;
    let mut set_any = false;
    let mut i: usize = 0;
    while i < rally_points.len()
        invariant
            i <= rally_points@.len(),
            rally_points@.len() == start.len(),
            forall|j: int| i <= j < start.len() ==> #[trigger] rally_points@[j] == start[j],
            forall|j: int| 0 <= j < i ==> #[trigger] rally_points@[j] == (
                start[j].0,
                if start[j].0 == visible_team && (unit_target is Some || ground is Some) {
                    rallied(ground, unit_target, mode)
                } else {
                    start[j].1
                },
            ),
            set_any == ((unit_target is Some || ground is Some)
                && exists|j: int| 0 <= j < i && (#[trigger] start[j]).0 == visible_team),
        decreases rally_points@.len() - i,
    {
        let mut entry = rally_points[i];
        if entry.0 == visible_team {
            if entry.1.apply_command(ground, unit_target, mode) {
                set_any = true;
            }
        }
        rally_points.set(i, entry);
        i = i + 1;
    }
    set_any
}

/// The ground point a unit is heading for: a patroller's current leg end,
/// else an attack-move destination, else a move target.
/// `patrol` is the patrol's origin, destination and whether it is on its
/// way to the destination.
pub fn active_terrain_order_target<V: Copy>(move_target: Option<V>, attack_move: Option<V>, patrol: Option<(V, V, bool)>) -> (target: Option<V>)
    ensures
        target == match patrol {
            Some(leg) => Some(if leg.2 { leg.1 } else { leg.0 }),
            None => match attack_move {
                Some(destination) => Some(destination),
                None => move_target,
            },
        },
{
    match patrol {
        Some(leg) => Some(if leg.2 { leg.1 } else { leg.0 }),
        None => match attack_move {
            Some(destination) => Some(destination),
            None => move_target,
        },
    }
}

/// What an attack-moving or patrolling unit does this frame.
#[derive(Clone, Copy, Debug, PartialEq, Eq, Structural)]
pub enum MarchStep<V> {
    /// The unit cannot move: its attack-move, patrol and move orders end.
    Halt,
    /// An enemy came into range: attack it and stop walking.
    Engage(u64),
    /// The patroller reached the end of its leg: walk the other leg.
    TurnPatrol { moving_to_destination: bool, next_target: V },
    /// Walk (again) towards this point.
    Advance(V),
    /// The attack-move reached its destination: the order ends.
    Arrive,
    /// Keep walking.
    Continue,
}

/// One frame of attack-move and patrol: `patrol` is the patrol's origin,
/// destination and whether the unit walks towards the destination;
/// `enemy_in_range` the nearest enemy within sight that the unit's weapon
/// can hit; `reached` whether the unit stands at the point it walks to (the
/// patrol leg's end, else the attack-move destination). A patrol comes
/// before an attack-move.
pub open spec fn march_step<V>(
    mobile: bool,
    patrol: Option<(V, V, bool)>,
    attack_move: Option<V>,
    has_move_order: bool,
    enemy_in_range: Option<u64>,
    reached: bool,
) -> MarchStep<V> {
    if !mobile {
        MarchStep::Halt
    } else {
        match patrol {
            Some(leg) => match enemy_in_range {
                Some(enemy) => MarchStep::Engage(enemy),
                None => if reached {
                    MarchStep::TurnPatrol { moving_to_destination: !leg.2, next_target: if leg.2 { leg.0 } else { leg.1 } }
                } else if !has_move_order {
                    MarchStep::Advance(if leg.2 { leg.1 } else { leg.0 })
                } else {
                    MarchStep::Continue
                },
            },
            None => match attack_move {
                Some(destination) => match enemy_in_range {
                    Some(enemy) => MarchStep::Engage(enemy),
                    None => if reached {
                        MarchStep::Arrive
                    } else if !has_move_order {
                        MarchStep::Advance(destination)
                    } else {
                        MarchStep::Continue
                    },
                },
                None => MarchStep::Continue,
            },
        }
    }
}

/// Decide one frame of a unit's attack-move or patrol.
pub fn attack_move_and_patrol_step<V: Copy>(
    mobile: bool,
    patrol: Option<(V, V, bool)>,
    attack_move: Option<V>,
    has_move_order: bool,
    enemy_in_range: Option<u64>,
    reached: bool,
) -> (step: MarchStep<V>)
    ensures
        step == march_step(mobile, patrol, attack_move, has_move_order, enemy_in_range, reached),
{
    if !mobile {
        return MarchStep::Halt;
    }
    match patrol {
        Some(leg) => match enemy_in_range {
            Some(enemy) => MarchStep::Engage(enemy),
            None => if reached {
                let moving_to_destination = !leg.2;
                let next_target = if moving_to_destination { leg.1 } else { leg.0 };
                MarchStep::TurnPatrol { moving_to_destination, next_target }
            } else if !has_move_order {
                MarchStep::Advance(if leg.2 { leg.1 } else { leg.0 })
            } else {
                MarchStep::Continue
            },
        },
        None => match attack_move {
            Some(destination) => match enemy_in_range {
                Some(enemy) => MarchStep::Engage(enemy),
                None => if reached {
                    MarchStep::Arrive
                } else if !has_move_order {
                    MarchStep::Advance(destination)
                } else {
                    MarchStep::Continue
                },
            },
            None => MarchStep::Continue,
        },
    }
}

/// A patrol never ends by itself: a patroller that can move keeps a patrol
/// step (engaging, turning or walking) whatever it meets, and at the end of
/// a leg it turns to walk the other one.
pub proof fn law_patrols_never_end<V>(
    leg: (V, V, bool),
    attack_move: Option<V>,
    has_move_order: bool,
    enemy_in_range: Option<u64>,
    reached: bool,
)
    ensures
        !(march_step(true, Some(leg), attack_move, has_move_order, enemy_in_range, reached) is Halt),
        !(march_step(true, Some(leg), attack_move, has_move_order, enemy_in_range, reached) is Arrive),
        reached && enemy_in_range is None ==> march_step(true, Some(leg), attack_move, has_move_order, enemy_in_range, reached)
            == (MarchStep::TurnPatrol { moving_to_destination: !leg.2, next_target: if leg.2 { leg.0 } else { leg.1 } }),
{
}

/// A right click on the ground sets the rally points of selected producers
/// unless it queues an order or gives an attack-move or patrol.
pub fn should_set_terrain_rally_points(queue_mode: bool, attack_move: bool, patrol: bool) -> (set: bool)
    ensures
        set == (!queue_mode && !attack_move && !patrol),
{
    !queue_mode && !attack_move && !patrol
}

/// The queued order path of a unit is drawn only for the watching team.
pub fn should_draw_action_queue_path(team: Team, visible_team: Team) -> (draw: bool)
    ensures
        draw == (team == visible_team),
{
    team == visible_team
}

/// Structures that keep a rally point: those that produce units.
pub fn is_rally_point_structure(id: &str) -> (rally: bool)
    ensures
        rally == has_production_queue(id@),
{
    same_text(id, "CommandCenter") || same_text(id, "Barracks") || same_text(id, "VehicleFactory")
        || same_text(id, "AircraftFactory")
}

/// Vehicles that can trade their mobility for range and firepower.
pub open spec fn deployable(id: Seq<char>) -> bool {
    id == "SiegeDrillTank"@ || id == "HammerSiegeTank"@ || id == "SiegeArtilleryVehicle"@
        || id == "LongbowMissileCrawler"@ || id == "RailArtilleryWalker"@ || id == "HeavySiegeWalker"@
        || id == "RailgunTank"@
}

/// Whether a vehicle kind can deploy.
pub fn is_deployable_vehicle(id: &str) -> (deployable_vehicle: bool)
    ensures
        deployable_vehicle == deployable(id@),
{
    same_text(id, "SiegeDrillTank") || same_text(id, "HammerSiegeTank") || same_text(id, "SiegeArtilleryVehicle")
        || same_text(id, "LongbowMissileCrawler") || same_text(id, "RailArtilleryWalker")
        || same_text(id, "HeavySiegeWalker") || same_text(id, "RailgunTank")
}

/// A vehicle may switch deploy mode when its kind deploys, it is armed, alive
/// and not disabled by an EMP.
pub fn vehicle_can_toggle_deploy_mode(id: &str, has_weapon: bool, alive: bool, emp_disabled: bool) -> (can_toggle: bool)
    ensures
        can_toggle == (deployable(id@) && has_weapon && alive && !emp_disabled),
{
    is_deployable_vehicle(id) && has_weapon && alive && !emp_disabled
}

/// The deploy mode a toggle request sets for all selected vehicles that may
/// switch (`deployed` tells, for each of them, whether it is deployed now):
/// they all deploy unless every one of them already is, in which case they
/// all pack up. With no such vehicle nothing deploys.
pub fn group_deploy_target(deployed: &Vec<bool>) -> (target: bool)
    ensures
        target == some_unset(deployed@),
{
    any_unset(deployed)
}

/// Some flag of `flags` is off.
pub open spec fn some_unset(flags: Seq<bool>) -> bool {
    exists|i: int| 0 <= i < flags.len() && !#[trigger] flags[i]
}

fn any_unset(flags: &Vec<bool>) -> (found: bool)
    ensures
        found == some_unset(flags@),
{
    let mut i: usize = 0;
    while i < flags.len()
        invariant
            i <= flags@.len(),
            forall|j: int| 0 <= j < i ==> #[trigger] flags@[j],
        decreases flags@.len() - i,
    {
        if !flags[i] {
            return true;
        }
        i = i + 1;
    }
    false
}

/// The hold-position state a toggle gives the selected units that can hold
/// (`holding` tells, for each, whether it holds now): all hold unless every
/// one of them already does, in which case all are released. `None` when no
/// selected unit can hold: nothing changes.
pub fn hold_position_toggle_target(holding: &Vec<bool>) -> (target: Option<bool>)
    ensures
        target == if holding@.len() == 0 { None } else { Some(some_unset(holding@)) },
{
    if holding.len() == 0 {
        return None;
    }
    Some(any_unset(holding))
}

/// The targeting modes of the command card: attack-move, patrol, rally
/// point, a support power being aimed (`S`), a structure being placed (`P`).
pub struct CommandMode<S, P> {
    pub attack_move: bool,
    pub patrol: bool,
    pub rally_point: bool,
    pub support_power: Option<S>,
    pub pending_structure_placement: Option<P>,
}

impl<S, P> CommandMode<S, P> {
    /// No targeting mode is active.
    pub open spec fn is_cleared(&self) -> bool {
        !self.attack_move && !self.patrol && !self.rally_point && self.support_power is None
            && self.pending_structure_placement is None
    }

    /// Some click is waiting for a target.
    pub open spec fn pending(&self) -> bool {
        self.attack_move || self.patrol || self.rally_point || self.support_power is Some
            || self.pending_structure_placement is Some
    }

    /// All modes off.
    pub fn new() -> (mode: CommandMode<S, P>)
        ensures
            mode.is_cleared(),
    {
        CommandMode { attack_move: false, patrol: false, rally_point: false, support_power: None, pending_structure_placement: None }
    }

    /// Whether some click is waiting for a target.
    pub fn has_pending_interaction(&self) -> (pending: bool)
        ensures
            pending == self.pending(),
    {
        self.attack_move || self.patrol || self.rally_point || self.support_power.is_some()
            || self.pending_structure_placement.is_some()
    }

    /// Turn every targeting mode off.
    pub fn clear_targeting_modes(&mut self)
        ensures
            final(self).is_cleared(),
    {
        self.attack_move = false;
        self.patrol = false;
        self.rally_point = false;
        self.support_power = None;
        self.pending_structure_placement = None;
    }

    /// Enter attack-move targeting, unless disabled or a support power is
    /// being aimed; every other mode ends.
    pub fn begin_attack_move_mode(&mut self, enabled: bool) -> (begun: bool)
        ensures
            begun == (enabled && old(self).support_power is None),
            begun ==> final(self).attack_move && !final(self).patrol && !final(self).rally_point
                && final(self).support_power is None && final(self).pending_structure_placement is None,
            !begun ==> *final(self) == *old(self),
    {
        if !enabled || self.support_power.is_some() {
            return false;
        }
        self.clear_targeting_modes();
        self.attack_move = true;
        true
    }

    /// Leave attack-move targeting when in it; else try to enter it.
    pub fn toggle_attack_move_mode(&mut self) -> (active: bool)
        ensures
            old(self).attack_move ==> !active && final(self).is_cleared(),
            !old(self).attack_move ==> active == (old(self).support_power is None),
            !old(self).attack_move && active ==> final(self).attack_move && !final(self).patrol && !final(self).rally_point
                && final(self).support_power is None && final(self).pending_structure_placement is None,
            !old(self).attack_move && !active ==> *final(self) == *old(self),
    {
        if self.attack_move {
            self.clear_targeting_modes();
            return false;
        }
        self.begin_attack_move_mode(true)
    }

    /// Enter patrol targeting, unless disabled or a support power is being
    /// aimed; every other mode ends.
    pub fn begin_patrol_mode(&mut self, enabled: bool) -> (begun: bool)
        ensures
            begun == (enabled && old(self).support_power is None),
            begun ==> final(self).patrol && !final(self).attack_move && !final(self).rally_point
                && final(self).support_power is None && final(self).pending_structure_placement is None,
            !begun ==> *final(self) == *old(self),
    {
        if !enabled || self.support_power.is_some() {
            return false;
        }
        self.clear_targeting_modes();
        self.patrol = true;
        true
    }

    /// Leave patrol targeting when in it; else try to enter it.
    pub fn toggle_patrol_mode(&mut self) -> (active: bool)
        ensures
            old(self).patrol ==> !active && final(self).is_cleared(),
            !old(self).patrol ==> active == (old(self).support_power is None),
            !old(self).patrol && active ==> final(self).patrol && !final(self).attack_move && !final(self).rally_point
                && final(self).support_power is None && final(self).pending_structure_placement is None,
            !old(self).patrol && !active ==> *final(self) == *old(self),
    {
        if self.patrol {
            self.clear_targeting_modes();
            return false;
        }
        self.begin_patrol_mode(true)
    }

    /// Enter rally-point targeting, unless disabled or a support power is
    /// being aimed; every other mode ends.
    pub fn begin_rally_point_mode(&mut self, enabled: bool) -> (begun: bool)
        ensures
            begun == (enabled && old(self).support_power is None),
            begun ==> final(self).rally_point && !final(self).attack_move && !final(self).patrol
                && final(self).support_power is None && final(self).pending_structure_placement is None,
            !begun ==> *final(self) == *old(self),
    {
        if !enabled || self.support_power.is_some() {
            return false;
        }
        self.clear_targeting_modes();
        self.rally_point = true;
        true
    }

    /// Where a right click goes before any order is given. Nothing happens
    /// without a controlled team, while a structure is being placed, when
    /// the click lands on the HUD or off the playable ground. An armed
    /// support power is cancelled (and nothing else happens); in rally-point
    /// mode the click sets rally points and leaves the mode; otherwise the
    /// click gives orders.
    pub fn route_right_click(&mut self, controls_team: bool, over_hud: bool, on_ground: bool) -> (route: RightClickRoute)
        ensures
            route == right_click_route(controls_team, old(self).pending_structure_placement is Some, over_hud, on_ground,
                old(self).support_power is Some, old(self).rally_point),
            route == RightClickRoute::CancelSupportPower ==> *final(self) == (CommandMode { support_power: None, ..*old(self) }),
            route == RightClickRoute::SetRallyPoints ==> *final(self) == (CommandMode { rally_point: false, ..*old(self) }),
            route == RightClickRoute::Ignore || route == RightClickRoute::GiveOrders ==> *final(self) == *old(self),
    {
        if !controls_team || self.pending_structure_placement.is_some() || over_hud || !on_ground {
            return RightClickRoute::Ignore;
        }
        if self.support_power.is_some() {
            self.support_power = None;
            return RightClickRoute::CancelSupportPower;
        }
        if self.rally_point {
            self.rally_point = false;
            return RightClickRoute::SetRallyPoints;
        }
        RightClickRoute::GiveOrders
    }

    /// After a right click gave orders, attack-move and patrol targeting end.
    pub fn finish_right_click_orders(&mut self)
        ensures
            *final(self) == (CommandMode { attack_move: false, patrol: false, ..*old(self) }),
    {
        self.attack_move = false;
        self.patrol = false;
    }
}

/// Where a right click goes; see `CommandMode::route_right_click`.
#[derive(Clone, Copy, Debug, PartialEq, Eq, Structural)]
pub enum RightClickRoute {
    Ignore,
    CancelSupportPower,
    SetRallyPoints,
    GiveOrders,
}

pub open spec fn right_click_route(
    controls_team: bool,
    placing_structure: bool,
    over_hud: bool,
    on_ground: bool,
    support_power_armed: bool,
    rally_point_mode: bool,
) -> RightClickRoute {
    if !controls_team || placing_structure || over_hud || !on_ground {
        RightClickRoute::Ignore
    } else if support_power_armed {
        RightClickRoute::CancelSupportPower
    } else if rally_point_mode {
        RightClickRoute::SetRallyPoints
    } else {
        RightClickRoute::GiveOrders
    }
}

/// An attack-move click with no unit selected sets the selected producers'
/// rally points to attack-move there, when it hit bare ground.
pub fn should_set_attack_rally_points(selected_unit_count: usize, attack_move: bool, terrain_target_only: bool) -> (set: bool)
    ensures
        set == (selected_unit_count == 0 && attack_move && terrain_target_only),
{
    selected_unit_count == 0 && attack_move && terrain_target_only
}

/// A structure units may garrison: whether it is a tech bunker that stands
/// finished, and how many units it holds of how many it can.
#[derive(Clone, Copy, Debug, PartialEq, Eq, Structural)]
pub struct Bunker {
    pub entity: u64,
    pub is_tech_bunker: bool,
    pub alive: bool,
    pub constructed: bool,
    pub count: u32,
    pub capacity: u32,
}

/// A unit under a garrison order: whether it is infantry (only infantry may
/// garrison) and can move, the bunker it heads for, whether that bunker's
/// team is allied to it, and whether it stands close enough to enter.
#[derive(Clone, Copy, Debug, PartialEq, Eq, Structural)]
pub struct GarrisonOrderFacts {
    pub can_garrison: bool,
    pub mobile: bool,
    pub target: u64,
    pub allied_with_target: bool,
    pub in_entry_range: bool,
}

/// What becomes of a garrison order this frame.
#[derive(Clone, Copy, Debug, PartialEq, Eq, Structural)]
pub enum GarrisonStep {
    /// The order ends (and the unit stops walking).
    Drop,
    /// Walk up to the bunker.
    Approach,
    /// Enter: the unit leaves the map and the bunker holds one more.
    Enter,
}

/// The first bunker at or after `from` with entity `entity`.
pub open spec fn bunker_index_from(bunkers: Seq<Bunker>, entity: u64, from: int) -> Option<int>
    decreases bunkers.len() - from,
{
    if from < 0 || from >= bunkers.len() {
        None
    } else if bunkers[from].entity == entity {
        Some(from)
    } else {
        bunker_index_from(bunkers, entity, from + 1)
    }
}

pub open spec fn bunker_index(bunkers: Seq<Bunker>, entity: u64) -> Option<int> {
    bunker_index_from(bunkers, entity, 0)
}

/// A bunker takes a unit when it is a standing, finished tech bunker of an
/// allied team with room left.
pub open spec fn bunker_accepts(bunker: Bunker, allied: bool) -> bool {
    bunker.is_tech_bunker && bunker.alive && bunker.constructed && allied && bunker.count < bunker.capacity
}

pub open spec fn garrison_decision(order: GarrisonOrderFacts, bunkers: Seq<Bunker>) -> GarrisonStep {
    if !order.can_garrison {
        GarrisonStep::Drop
    } else {
        match bunker_index(bunkers, order.target) {
            None => GarrisonStep::Drop,
            Some(i) => if !bunker_accepts(bunkers[i], order.allied_with_target) {
                GarrisonStep::Drop
            } else if !order.in_entry_range {
                if order.mobile { GarrisonStep::Approach } else { GarrisonStep::Drop }
            } else {
                GarrisonStep::Enter
            },
        }
    }
}

/// The bunkers after one order's step: an entering unit adds one to its
/// bunker.
pub open spec fn bunkers_after(order: GarrisonOrderFacts, bunkers: Seq<Bunker>) -> Seq<Bunker> {
    match bunker_index(bunkers, order.target) {
        Some(i) => if garrison_decision(order, bunkers) is Enter {
            bunkers.update(i, Bunker { count: (bunkers[i].count + 1) as u32, ..bunkers[i] })
        } else {
            bunkers
        },
        None => bunkers,
    }
}

/// The steps of the orders taken in turn, each seeing the bunkers as the
/// earlier ones left them, and the bunkers at the end.
pub open spec fn garrison_steps(orders: Seq<GarrisonOrderFacts>, bunkers: Seq<Bunker>) -> (Seq<GarrisonStep>, Seq<Bunker>)
    decreases orders.len(),
{
    if orders.len() == 0 {
        (Seq::empty(), bunkers)
    } else {
        let earlier = garrison_steps(orders.drop_last(), bunkers);
        (earlier.0.push(garrison_decision(orders.last(), earlier.1)), bunkers_after(orders.last(), earlier.1))
    }
}

fn find_bunker(bunkers: &Vec<Bunker>, entity: u64) -> (found: Option<usize>)
    ensures
        match found {
            Some(i) => bunker_index(bunkers@, entity) == Some(i as int) && i < bunkers@.len(),
            None => bunker_index(bunkers@, entity) is None,
        },
{
    let mut index: usize = 0;
    while index < bunkers.len()
        invariant
            index <= bunkers.len(),
            bunker_index_from(bunkers@, entity, index as int) == bunker_index(bunkers@, entity),
        decreases bunkers.len() - index,
    {
        if bunkers[index].entity == entity {
            return Some(index);
        }
        index = index + 1;
    }
    None
}

/// Settle this frame's garrison orders in turn: each is dropped, walks on,
/// or enters its bunker, which then holds one more unit.
pub fn settle_garrison_orders(orders: &Vec<GarrisonOrderFacts>, bunkers: &mut Vec<Bunker>) -> (steps: Vec<GarrisonStep>)
    ensures
        steps@ == garrison_steps(orders@, old(bunkers)@).0,
        final(bunkers)@ == garrison_steps(orders@, old(bunkers)@).1,
{
    let ghost start = bunkers@;
    let mut steps: Vec<GarrisonStep> = Vec::new();
    let mut k: usize = 0;
    while k < orders.len()
        invariant
            k <= orders@.len(),
            steps@ == garrison_steps(orders@.take(k as int), start).0,
            bunkers@ == garrison_steps(orders@.take(k as int), start).1,
        decreases orders@.len() - k,
    {
        assert(orders@.take(k + 1).drop_last() =~= orders@.take(k as int));
        assert(orders@.take(k + 1).last() == orders@[k as int]);
        let order = orders[k];
        let mut step = GarrisonStep::Drop;
        if order.can_garrison {
            match find_bunker(bunkers, order.target) {
                Some(i) => {
                    let bunker = bunkers[i];
                    if bunker.is_tech_bunker && bunker.alive && bunker.constructed && order.allied_with_target
                        && bunker.count < bunker.capacity {
                        if !order.in_entry_range {
                            if order.mobile {
                                step = GarrisonStep::Approach;
                            }
                        } else {
                            step = GarrisonStep::Enter;
                            bunkers.set(i, Bunker { count: bunker.count + 1, ..bunker });
                        }
                    }
                },
                None => {},
            }
        }
        steps.push(step);
        k = k + 1;
    }
    assert(orders@.take(orders@.len() as int) =~= orders@);
    steps
}

/// No bunker holds more than it can.
pub open spec fn within_capacity(bunkers: Seq<Bunker>) -> bool {
    forall|i: int| 0 <= i < bunkers.len() ==> #[trigger] bunkers[i].count <= bunkers[i].capacity
}

/// Settling garrison orders never overfills a bunker, and keeps every
/// bunker's identity and capacity.
pub proof fn law_bunkers_never_overfill(orders: Seq<GarrisonOrderFacts>, bunkers: Seq<Bunker>)
    requires
        within_capacity(bunkers),
    ensures
        within_capacity(garrison_steps(orders, bunkers).1),
        garrison_steps(orders, bunkers).1.len() == bunkers.len(),
        forall|i: int| 0 <= i < bunkers.len() ==> (#[trigger] garrison_steps(orders, bunkers).1[i]).entity == bunkers[i].entity
            && garrison_steps(orders, bunkers).1[i].capacity == bunkers[i].capacity,
    decreases orders.len(),
{
    if orders.len() > 0 {
        law_bunkers_never_overfill(orders.drop_last(), bunkers);
        let earlier = garrison_steps(orders.drop_last(), bunkers).1;
        lemma_bunker_index_in_range(earlier, orders.last().target, 0);
    }
}

proof fn lemma_bunker_index_in_range(bunkers: Seq<Bunker>, entity: u64, from: int)
    requires
        0 <= from,
    ensures
        bunker_index_from(bunkers, entity, from) matches Some(i) ==> from <= i < bunkers.len() && bunkers[i].entity == entity,
    decreases bunkers.len() - from,
{
    if from < bunkers.len() && bunkers[from].entity != entity {
        lemma_bunker_index_in_range(bunkers, entity, from + 1);
    }
}

/// What a unit's contact order (repair, build, capture, follow) does this
/// frame.
#[derive(Clone, Copy, Debug, PartialEq, Eq, Structural)]
pub enum ContactStep {
    /// Nothing this frame: the unit is stunned or down, the order stays.
    Pause,
    /// The order ends (and the unit stops walking).
    Drop,
    /// Walk up to the target.
    Approach,
    /// Work on the target (or, following, stand by it).
    Act,
}

/// The common tail of every contact order: a target it may no longer act
/// on ends the order; in reach the unit acts; out of reach it walks there,
/// unless it cannot move, which ends the order.
pub open spec fn contact_step(target_valid: bool, in_reach: bool, mobile: bool) -> ContactStep {
    if !target_valid {
        ContactStep::Drop
    } else if in_reach {
        ContactStep::Act
    } else if mobile {
        ContactStep::Approach
    } else {
        ContactStep::Drop
    }
}

fn contact_step_exec(target_valid: bool, in_reach: bool, mobile: bool) -> (step: ContactStep)
    ensures
        step == contact_step(target_valid, in_reach, mobile),
{
    if !target_valid {
        ContactStep::Drop
    } else if in_reach {
        ContactStep::Act
    } else if mobile {
        ContactStep::Approach
    } else {
        ContactStep::Drop
    }
}

/// What a repairer knows of the entity it was told to repair.
#[derive(Clone, Copy, Debug, PartialEq, Eq, Structural)]
pub struct RepairTargetFacts {
    pub allied: bool,
    pub is_unit: bool,
    pub is_structure: bool,
    pub constructed: bool,
    pub alive: bool,
    /// Below its full health.
    pub damaged: bool,
}

/// A unit or a finished structure that lives and lacks health.
pub open spec fn repairable(target: RepairTargetFacts) -> bool {
    target.alive && target.damaged && (target.is_unit || target.is_structure) && (target.is_structure ==> target.constructed)
}

/// Whether an entity can take repairs.
pub fn can_repair_order_target(target: &RepairTargetFacts) -> (repairable_now: bool)
    ensures
        repairable_now == repairable(*target),
{
    target.alive && target.damaged && (target.is_unit || target.is_structure) && (!target.is_structure || target.constructed)
}

/// One frame of a repair order: a downed repairer gives it up, a stunned one
/// waits, and a repairer never repairs itself; the target must be allied
/// and repairable. `target` is `None` when the entity is gone.
pub open spec fn repair_step(
    repairer_alive: bool,
    disabled: bool,
    targets_itself: bool,
    target: Option<RepairTargetFacts>,
    in_reach: bool,
    mobile: bool,
) -> ContactStep {
    if !repairer_alive {
        ContactStep::Drop
    } else if disabled {
        ContactStep::Pause
    } else if targets_itself {
        ContactStep::Drop
    } else {
        match target {
            Some(t) => contact_step(t.allied && repairable(t), in_reach, mobile),
            None => ContactStep::Drop,
        }
    }
}

/// Decide one frame of a repair order.
pub fn repair_order_step(
    repairer_alive: bool,
    disabled: bool,
    targets_itself: bool,
    target: Option<RepairTargetFacts>,
    in_reach: bool,
    mobile: bool,
) -> (step: ContactStep)
    ensures
        step == repair_step(repairer_alive, disabled, targets_itself, target, in_reach, mobile),
{
    if !repairer_alive {
        return ContactStep::Drop;
    }
    if disabled {
        return ContactStep::Pause;
    }
    if targets_itself {
        return ContactStep::Drop;
    }
    match target {
        Some(t) => contact_step_exec(t.allied && can_repair_order_target(&t), in_reach, mobile),
        None => ContactStep::Drop,
    }
}

/// One frame of a build order: the builder must live, not be stunned and be
/// able to build; the foundation must belong to its team and stand.
/// `target` is the foundation's team match and whether it stands, `None`
/// when it is gone or already finished.
pub open spec fn construct_step(able: bool, target: Option<(bool, bool)>, in_reach: bool, mobile: bool) -> ContactStep {
    if !able {
        ContactStep::Drop
    } else {
        match target {
            Some(t) => contact_step(t.0 && t.1, in_reach, mobile),
            None => ContactStep::Drop,
        }
    }
}

/// Decide one frame of a build order.
pub fn construct_order_step(able: bool, target: Option<(bool, bool)>, in_reach: bool, mobile: bool) -> (step: ContactStep)
    ensures
        step == construct_step(able, target, in_reach, mobile),
{
    if !able {
        return ContactStep::Drop;
    }
    match target {
        Some(t) => contact_step_exec(t.0 && t.1, in_reach, mobile),
        None => ContactStep::Drop,
    }
}

/// One frame of a follow order: a downed or stunned follower waits; one
/// that cannot move gives the order up; the target must exist, live, and be
/// allied unless the order may follow an enemy. Acting means staying close:
/// `in_reach` is whether the follower is within its desired distance.
pub open spec fn follow_step(
    active: bool,
    mobile: bool,
    target: Option<(bool, bool)>,
    allow_enemy: bool,
    in_reach: bool,
) -> ContactStep {
    if !active {
        ContactStep::Pause
    } else if !mobile {
        ContactStep::Drop
    } else {
        match target {
            Some(t) => contact_step((allow_enemy || t.0) && t.1, in_reach, true),
            None => ContactStep::Drop,
        }
    }
}

/// `target` is whether the followed entity is allied and whether it lives.
pub fn follow_order_step(active: bool, mobile: bool, target: Option<(bool, bool)>, allow_enemy: bool, in_reach: bool) -> (step: ContactStep)
    ensures
        step == follow_step(active, mobile, target, allow_enemy, in_reach),
{
    if !active {
        return ContactStep::Pause;
    }
    if !mobile {
        return ContactStep::Drop;
    }
    match target {
        Some(t) => contact_step_exec((allow_enemy || t.0) && t.1, in_reach, true),
        None => ContactStep::Drop,
    }
}

/// What a capture order does this frame.
#[derive(Clone, Copy, Debug, PartialEq, Eq, Structural)]
pub enum CaptureStep {
    Drop,
    /// Walk to the structure; the capture clock starts over.
    Approach,
    /// Stand at the structure; the clock now shows this many milliseconds.
    Progress(u64),
    /// The structure changes hands and the capturer is used up.
    Capture,
}

/// What a capturer knows of the structure it was sent to: whether it
/// stands, whether a player owns it, and whether that owner is an enemy.
#[derive(Clone, Copy, Debug, PartialEq, Eq, Structural)]
pub struct CaptureTargetFacts {
    pub alive: bool,
    pub player_owned: bool,
    pub enemy: bool,
}

/// A structure can be taken when it stands and is neutral or an enemy's.
pub open spec fn capturable(target: CaptureTargetFacts) -> bool {
    target.alive && (!target.player_owned || target.enemy)
}

/// One frame of a capture order: only capturing units capture; at the
/// structure the clock runs (saturating) and the capture happens once it
/// reaches the unit's capture time.
pub open spec fn capture_step(
    can_capture: bool,
    target: Option<CaptureTargetFacts>,
    in_reach: bool,
    mobile: bool,
    elapsed_ms: u64,
    delta_ms: u64,
    capture_time_ms: u64,
) -> CaptureStep {
    if !can_capture {
        CaptureStep::Drop
    } else {
        match target {
            None => CaptureStep::Drop,
            Some(t) => if !capturable(t) {
                CaptureStep::Drop
            } else if !in_reach {
                if mobile { CaptureStep::Approach } else { CaptureStep::Drop }
            } else if elapsed_ms + delta_ms < capture_time_ms {
                CaptureStep::Progress((elapsed_ms + delta_ms) as u64)
            } else {
                CaptureStep::Capture
            },
        }
    }
}

/// Decide one frame of a capture order.
pub fn capture_order_step(
    can_capture: bool,
    target: Option<CaptureTargetFacts>,
    in_reach: bool,
    mobile: bool,
    elapsed_ms: u64,
    delta_ms: u64,
    capture_time_ms: u64,
) -> (step: CaptureStep)
    ensures
        step == capture_step(can_capture, target, in_reach, mobile, elapsed_ms, delta_ms, capture_time_ms),
{
    if !can_capture {
        return CaptureStep::Drop;
    }
    match target {
        None => CaptureStep::Drop,
        Some(t) => {
            if !(t.alive && (!t.player_owned || t.enemy)) {
                CaptureStep::Drop
            } else if !in_reach {
                if mobile { CaptureStep::Approach } else { CaptureStep::Drop }
            } else {
                let elapsed = elapsed_ms.saturating_add(delta_ms);
                if elapsed < capture_time_ms {
                    CaptureStep::Progress(elapsed)
                } else {
                    CaptureStep::Capture
                }
            }
        },
    }
}

/// A weapon reaches a target in the air or on the ground.
pub open spec fn weapon_reaches(target_airborne: bool, can_attack_air: bool, can_attack_ground: bool) -> bool {
    if target_airborne { can_attack_air } else { can_attack_ground }
}

/// An attack order holds while its target lives, belongs to an enemy, and
/// moves where the attacker's weapon reaches.
pub fn attack_order_target_valid(
    target_alive: bool,
    enemies: bool,
    target_airborne: bool,
    can_attack_air: bool,
    can_attack_ground: bool,
) -> (valid: bool)
    ensures
        valid == (target_alive && enemies && weapon_reaches(target_airborne, can_attack_air, can_attack_ground)),
{
    target_alive && enemies && if target_airborne { can_attack_air } else { can_attack_ground }
}

} // verus!
