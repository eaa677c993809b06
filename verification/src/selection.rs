//! Selection rules: single clicks, control groups, Tab cycling through the
//! unit types of a selection, and idle-worker cycling. Entities are their
//! ids.

use vstd::prelude::*;

use crate::table::contains_u64;
use crate::team::Team;
use crate::text::{lemma_text_order, lemma_text_transitive, text_before, text_less};

verus! {

/// Number of control groups (keys 1 to 9).
pub const CONTROL_GROUP_COUNT: usize = 9;

/// What a single click on a unit does.
#[derive(Clone, Copy, Debug, PartialEq, Eq, Structural)]
pub enum SingleClickSelectionAction {
    Select,
    ToggleDeselect,
}

/// A click with the additive modifier on an already selected unit removes it;
/// any other click selects.
pub fn single_click_selection_action(additive: bool, already_selected: bool) -> (action: SingleClickSelectionAction)
    ensures
        action == (if additive && already_selected {
            SingleClickSelectionAction::ToggleDeselect
        } else {
            SingleClickSelectionAction::Select
        }),
{
    if additive && already_selected {
        SingleClickSelectionAction::ToggleDeselect
    } else {
        SingleClickSelectionAction::Select
    }
}

/// Tab cycling: the full selection (`None`), then each unit type in turn,
/// then the full selection again. An empty selection never enters a type.
pub open spec fn next_cursor(cursor: Option<usize>, type_count: usize) -> Option<usize> {
    match cursor {
        None => if type_count > 0 { Some(0) } else { None },
        Some(index) => if index + 1 < type_count { Some((index + 1) as usize) } else { None },
    }
}

/// The next Tab cursor.
pub fn next_subgroup_cursor(cursor: Option<usize>, type_count: usize) -> (next: Option<usize>)
    ensures
        next == next_cursor(cursor, type_count),
        next matches Some(index) ==> index < type_count,
{
    match cursor {
        None => if type_count > 0 { Some(0) } else { None },
        Some(index) => if index < type_count && index + 1 < type_count { Some(index + 1) } else { None },
    }
}

/// Starting from the full selection, `type_count` presses of Tab visit every
/// type once and the next press returns to the full selection.
pub proof fn law_tab_cycle_returns_to_full(type_count: usize, presses: nat)
    requires
        presses <= type_count,
    ensures
        cursor_after(None, type_count, presses) == (if presses == 0 { None } else { Some((presses - 1) as usize) }),
        cursor_after(None, type_count, (type_count + 1) as nat) is None,
    decreases presses,
{
    if presses > 0 {
        law_tab_cycle_returns_to_full(type_count, (presses - 1) as nat);
    }
    lemma_cursor_after_full(type_count, type_count as nat);
}

/// The cursor after `presses` presses of Tab.
pub open spec fn cursor_after(cursor: Option<usize>, type_count: usize, presses: nat) -> Option<usize>
    decreases presses,
{
    if presses == 0 {
        cursor
    } else {
        next_cursor(cursor_after(cursor, type_count, (presses - 1) as nat), type_count)
    }
}

proof fn lemma_cursor_after_full(type_count: usize, presses: nat)
    requires
        presses <= type_count,
    ensures
        cursor_after(None, type_count, presses) == (if presses == 0 { None } else { Some((presses - 1) as usize) }),
    decreases presses,
{
    if presses > 0 {
        lemma_cursor_after_full(type_count, (presses - 1) as nat);
    }
}

/// The entities of `entities` that still exist on `team`, in order.
pub open spec fn valid_members(selectable: Seq<(u64, Team)>, team: Team, entities: Seq<u64>) -> Seq<u64> {
    entities.filter(|entity: u64| selectable.contains((entity, team)))
}

fn selectable_on_team(selectable: &Vec<(u64, Team)>, team: Team, entity: u64) -> (found: bool)
    ensures
        found == selectable@.contains((entity, team)),
{
    let mut index: usize = 0;
    while index < selectable.len()
        invariant
            index <= selectable.len(),
            forall|i: int| 0 <= i < index ==> selectable@[i] != (entity, team),
        decreases selectable.len() - index,
    {
        let (candidate, owner) = selectable[index];
        if candidate == entity && owner == team {
            assert(selectable@[index as int] == (entity, team));
            return true;
        }
        index = index + 1;
    }
    false
}

/// The members of a control group that still exist on `team`, in order.
pub fn valid_group_entities(selectable: &Vec<(u64, Team)>, team: Team, entities: &Vec<u64>) -> (valid: Vec<u64>)
    ensures
        valid@ == valid_members(selectable@, team, entities@),
{
    let mut valid: Vec<u64> = Vec::new();
    let mut index: usize = 0;
    while index < entities.len()
        invariant
            index <= entities.len(),
            valid@ == valid_members(selectable@, team, entities@.take(index as int)),
        decreases entities.len() - index,
    {
        proof {
            reveal_with_fuel(Seq::filter, 1);
            assert(entities@.take(index as int + 1).drop_last() =~= entities@.take(index as int));
        }
        if selectable_on_team(selectable, team, entities[index]) {
            valid.push(entities[index]);
        }
        index = index + 1;
    }
    proof {
        assert(entities@.take(index as int) =~= entities@);
    }
    valid
}

/// Two entity lists hold the same entities.
pub open spec fn same_members(left: Seq<u64>, right: Seq<u64>) -> bool {
    forall|entity: u64| left.contains(entity) <==> right.contains(entity)
}

fn contains_all(values: &Vec<u64>, wanted: &Vec<u64>) -> (all: bool)
    ensures
        all == (forall|i: int| 0 <= i < wanted@.len() ==> values@.contains(#[trigger] wanted@[i])),
{
    let mut index: usize = 0;
    while index < wanted.len()
        invariant
            index <= wanted.len(),
            forall|i: int| 0 <= i < index ==> values@.contains(#[trigger] wanted@[i]),
        decreases wanted.len() - index,
    {
        if !contains_u64(values, wanted[index]) {
            return false;
        }
        index = index + 1;
    }
    true
}

/// Whether the current selection is exactly a control group: both are
/// non-empty and hold the same entities.
pub fn is_exact_current_selection(selected: &Vec<u64>, group: &Vec<u64>) -> (exact: bool)
    ensures
        exact == (selected@.len() > 0 && group@.len() > 0 && same_members(selected@, group@)),
{
    if selected.len() == 0 || group.len() == 0 {
        return false;
    }
    let forward = contains_all(group, selected);
    let backward = contains_all(selected, group);
    proof {
        if forward && backward {
            assert forall|entity: u64| selected@.contains(entity) <==> group@.contains(entity) by {
                if selected@.contains(entity) {
                    let i = choose|i: int| 0 <= i < selected@.len() && selected@[i] == entity;
                    assert(group@.contains(selected@[i]));
                }
                if group@.contains(entity) {
                    let i = choose|i: int| 0 <= i < group@.len() && group@[i] == entity;
                    assert(selected@.contains(group@[i]));
                }
            }
        }
        if !forward {
            let i = choose|i: int| 0 <= i < selected@.len() && !group@.contains(#[trigger] selected@[i]);
            assert(selected@.contains(selected@[i]));
        }
        if !backward {
            let i = choose|i: int| 0 <= i < group@.len() && !selected@.contains(#[trigger] group@[i]);
            assert(group@.contains(group@[i]));
        }
    }
    forward && backward
}

/// The nine control groups and the one recalled last.
pub struct UnitGroups {
    pub slots: Vec<Vec<u64>>,
    pub last_accessed: Option<usize>,
}

/// The first group (numbered from 1) that is exactly the selection.
pub open spec fn exact_group_slot(slots: Seq<Vec<u64>>, selected: Seq<u64>) -> Option<usize> {
    if selected.len() > 0 && exists|i: int| 0 <= i < slots.len() && #[trigger] slots[i]@.len() > 0 && same_members(selected, slots[i]@) {
        let i = choose|i: int| 0 <= i < slots.len() && #[trigger] slots[i]@.len() > 0 && same_members(selected, slots[i]@)
            && forall|j: int| 0 <= j < i ==> !(#[trigger] slots[j]@.len() > 0 && same_members(selected, slots[j]@));
        Some((i + 1) as usize)
    } else {
        None
    }
}

/// What a control-group assignment did, for the battle log.
#[derive(Clone, Copy, Debug, PartialEq, Eq, Structural)]
pub enum GroupAssignment {
    Assigned(usize),
    Cleared,
    Unchanged,
}

impl UnitGroups {
    pub open spec fn well_formed(&self) -> bool {
        &&& self.slots@.len() == CONTROL_GROUP_COUNT
        &&& self.last_accessed matches Some(index) ==> index < CONTROL_GROUP_COUNT
    }

    /// Nine empty groups, none recalled.
    pub fn new() -> (groups: UnitGroups)
        ensures
            groups.well_formed(),
            groups.last_accessed is None,
            forall|i: int| 0 <= i < CONTROL_GROUP_COUNT ==> (#[trigger] groups.slots@[i])@.len() == 0,
    {
        let mut slots: Vec<Vec<u64>> = Vec::new();
        let mut index: usize = 0;
        while index < CONTROL_GROUP_COUNT
            invariant
                index <= CONTROL_GROUP_COUNT,
                slots@.len() == index,
                forall|i: int| 0 <= i < index ==> (#[trigger] slots@[i])@.len() == 0,
            decreases CONTROL_GROUP_COUNT - index,
        {
            slots.push(Vec::new());
            index = index + 1;
        }
        UnitGroups { slots, last_accessed: None }
    }

    /// Ctrl with a group key: the group becomes the selection; no group
    /// counts as recalled afterwards.
    pub fn assign(&mut self, index: usize, selected: &Vec<u64>) -> (outcome: GroupAssignment)
        requires
            old(self).well_formed(),
            index < CONTROL_GROUP_COUNT,
        ensures
            final(self).well_formed(),
            final(self).slots@[index as int]@ == selected@,
            forall|i: int| 0 <= i < CONTROL_GROUP_COUNT && i != index ==> #[trigger] final(self).slots@[i] == old(self).slots@[i],
            final(self).last_accessed is None,
            outcome == (if selected@.len() > 0 {
                GroupAssignment::Assigned(selected@.len() as usize)
            } else if old(self).slots@[index as int]@.len() > 0 {
                GroupAssignment::Cleared
            } else {
                GroupAssignment::Unchanged
            }),
    {
        let previous_len = self.slots[index].len();
        let mut copy: Vec<u64> = Vec::new();
        let mut position: usize = 0;
        while position < selected.len()
            invariant
                position <= selected.len(),
                copy@ == selected@.take(position as int),
            decreases selected.len() - position,
        {
            copy.push(selected[position]);
            position = position + 1;
            proof {
                assert(copy@ =~= selected@.take(position as int));
            }
        }
        proof {
            assert(selected@.take(position as int) =~= selected@);
        }
        self.slots.set(index, copy);
        self.last_accessed = None;
        if selected.len() > 0 {
            GroupAssignment::Assigned(selected.len())
        } else if previous_len > 0 {
            GroupAssignment::Cleared
        } else {
            GroupAssignment::Unchanged
        }
    }

    /// Ctrl+Shift with a group key: the group keeps its members that still
    /// exist on `team` and gains the selected entities it lacks, in selection
    /// order; no group counts as recalled afterwards.
    pub fn merge(&mut self, index: usize, selectable: &Vec<(u64, Team)>, team: Team, selected: &Vec<u64>) -> (size: usize)
        requires
            old(self).well_formed(),
            index < CONTROL_GROUP_COUNT,
        ensures
            final(self).well_formed(),
            final(self).slots@[index as int]@ == merged_group(valid_members(selectable@, team, old(self).slots@[index as int]@), selected@),
            size == final(self).slots@[index as int]@.len(),
            forall|i: int| 0 <= i < CONTROL_GROUP_COUNT && i != index ==> #[trigger] final(self).slots@[i] == old(self).slots@[i],
            final(self).last_accessed is None,
    {
        let mut target = valid_group_entities(selectable, team, &self.slots[index]);
        let ghost base = target@;
        let mut position: usize = 0;
        while position < selected.len()
            invariant
                position <= selected.len(),
                target@ == merged_group(base, selected@.take(position as int)),
            decreases selected.len() - position,
        {
            proof {
                assert(selected@.take(position as int + 1).drop_last() =~= selected@.take(position as int));
            }
            let entity = selected[position];
            if !contains_u64(&target, entity) {
                target.push(entity);
            }
            position = position + 1;
        }
        proof {
            assert(selected@.take(position as int) =~= selected@);
        }
        let size = target.len();
        self.slots.set(index, target);
        self.last_accessed = None;
        size
    }

    /// A group key alone: the group drops members that no longer exist on
    /// `team` and is selected (added to the selection with Shift). The camera
    /// jumps to it when the same group is recalled twice in a row while the
    /// selection is still exactly that group. Returns the group and whether to
    /// jump.
    pub fn recall(&mut self, index: usize, selectable: &Vec<(u64, Team)>, team: Team, selected: &Vec<u64>) -> (recalled: (Vec<u64>, bool))
        requires
            old(self).well_formed(),
            index < CONTROL_GROUP_COUNT,
        ensures
            final(self).well_formed(),
            recalled.0@ == valid_members(selectable@, team, old(self).slots@[index as int]@),
            final(self).slots@[index as int]@ == recalled.0@,
            forall|i: int| 0 <= i < CONTROL_GROUP_COUNT && i != index ==> #[trigger] final(self).slots@[i] == old(self).slots@[i],
            recalled.1 == (old(self).last_accessed == Some(index) && selected@.len() > 0 && recalled.0@.len() > 0
                && same_members(selected@, recalled.0@)),
            final(self).last_accessed == (if recalled.0@.len() == 0 { None } else { Some(index) }),
    {
        let group = valid_group_entities(selectable, team, &self.slots[index]);
        let mut stored: Vec<u64> = Vec::new();
        let mut position: usize = 0;
        while position < group.len()
            invariant
                position <= group.len(),
                stored@ == group@.take(position as int),
            decreases group.len() - position,
        {
            stored.push(group[position]);
            position = position + 1;
            proof {
                assert(stored@ =~= group@.take(position as int));
            }
        }
        proof {
            assert(group@.take(position as int) =~= group@);
        }
        self.slots.set(index, stored);
        let should_focus = self.last_accessed == Some(index) && is_exact_current_selection(selected, &group);
        self.last_accessed = if group.len() == 0 { None } else { Some(index) };
        (group, should_focus)
    }
}

/// `base` followed by the entities of `added` it does not hold yet, each once.
pub open spec fn merged_group(base: Seq<u64>, added: Seq<u64>) -> Seq<u64>
    decreases added.len(),
{
    if added.len() == 0 {
        base
    } else {
        let earlier = merged_group(base, added.drop_last());
        if earlier.contains(added.last()) {
            earlier
        } else {
            earlier.push(added.last())
        }
    }
}

/// The number (from 1) of the first control group that is exactly the
/// current selection.
pub fn exact_control_group_slot(groups: &UnitGroups, selected: &Vec<u64>) -> (slot: Option<usize>)
    ensures
        slot == exact_group_slot(groups.slots@, selected@),
{
    if selected.len() == 0 {
        return None;
    }
    let mut index: usize = 0;
    while index < groups.slots.len()
        invariant
            index <= groups.slots@.len(),
            selected@.len() > 0,
            forall|j: int| 0 <= j < index ==> !(#[trigger] groups.slots@[j]@.len() > 0 && same_members(selected@, groups.slots@[j]@)),
        decreases groups.slots@.len() - index,
    {
        if is_exact_current_selection(selected, &groups.slots[index]) {
            proof {
                let i = index as int;
                assert(groups.slots@[i]@.len() > 0 && same_members(selected@, groups.slots@[i]@)
                    && forall|j: int| 0 <= j < i ==> !(#[trigger] groups.slots@[j]@.len() > 0 && same_members(selected@, groups.slots@[j]@)));
                let chosen = choose|c: int| 0 <= c < groups.slots@.len() && #[trigger] groups.slots@[c]@.len() > 0 && same_members(selected@, groups.slots@[c]@)
                    && forall|j: int| 0 <= j < c ==> !(#[trigger] groups.slots@[j]@.len() > 0 && same_members(selected@, groups.slots@[j]@));
                if chosen < i {
                    assert(!(groups.slots@[chosen]@.len() > 0 && same_members(selected@, groups.slots@[chosen]@)));
                } else if chosen > i {
                    assert(!(groups.slots@[i]@.len() > 0 && same_members(selected@, groups.slots@[i]@)));
                }
            }
            return Some(index + 1);
        }
        index = index + 1;
    }
    None
}

/// Strictly increasing in text order, so no text occurs twice.
pub open spec fn strictly_sorted(texts: Seq<String>) -> bool {
    forall|i: int, j: int| 0 <= i < j < texts.len() ==> text_less(#[trigger] texts[i]@, #[trigger] texts[j]@)
}

/// Some entry of `texts` reads `text`.
pub open spec fn holds_text(texts: Seq<String>, text: Seq<char>) -> bool {
    exists|i: int| 0 <= i < texts.len() && (#[trigger] texts[i])@ == text
}

/// The distinct unit types of a selection in text order: the order Tab
/// cycles them in, the same whatever order the units were selected in.
pub fn distinct_subgroup_types(ids: &Vec<String>) -> (types: Vec<String>)
    ensures
        strictly_sorted(types@),
        forall|i: int| 0 <= i < ids@.len() ==> holds_text(types@, (#[trigger] ids@[i])@),
        forall|k: int| 0 <= k < types@.len() ==> holds_text(ids@, (#[trigger] types@[k])@),
{
    let mut types: Vec<String> = Vec::new();
    let mut index: usize = 0;
    while index < ids.len()
        invariant
            index <= ids.len(),
            strictly_sorted(types@),
            forall|i: int| 0 <= i < index ==> holds_text(types@, (#[trigger] ids@[i])@),
            forall|k: int| 0 <= k < types@.len() ==> holds_text(ids@, (#[trigger] types@[k])@),
        decreases ids.len() - index,
    {
        let id = &ids[index];
        let mut position: usize = 0;
        while position < types.len() && text_before(types[position].as_str(), id.as_str())
            invariant
                position <= types@.len(),
                id == ids@[index as int],
                forall|k: int| 0 <= k < position ==> text_less((#[trigger] types@[k])@, id@),
            decreases types@.len() - position,
        {
            position = position + 1;
        }
        proof {
            assert(ids@[index as int] == *id);
        }
        if position < types.len() && types[position] == *id {
            proof {
                assert(types@[position as int]@ == ids@[index as int]@);
                assert forall|i: int| 0 <= i < index + 1 implies holds_text(types@, (#[trigger] ids@[i])@) by {
                    if i == index {
                        assert(types@[position as int]@ == ids@[i]@);
                    }
                }
            }
        } else {
            let ghost before = types@;
            proof {
                if position < before.len() {
                    lemma_text_order(before[position as int]@, id@);
                    assert(text_less(id@, before[position as int]@));
                }
            }
            types.insert(position, id.clone());
            proof {
                let after = types@;
                assert(after == before.insert(position as int, *id));
                assert forall|i: int, j: int| 0 <= i < j < after.len() implies text_less(#[trigger] after[i]@, #[trigger] after[j]@) by {
                    if j < position {
                        assert(after[i] == before[i] && after[j] == before[j]);
                    } else if j == position {
                        assert(after[i] == before[i]);
                    } else if i == position {
                        assert(after[j] == before[j - 1]);
                        if j - 1 > position {
                            lemma_text_transitive(id@, before[position as int]@, before[j - 1]@);
                        }
                    } else if i < position {
                        assert(after[i] == before[i] && after[j] == before[j - 1]);
                        if j - 1 > position {
                            lemma_text_transitive(id@, before[position as int]@, before[j - 1]@);
                        }
                        lemma_text_transitive(before[i]@, id@, before[j - 1]@);
                    } else {
                        assert(after[i] == before[i - 1] && after[j] == before[j - 1]);
                    }
                }
                assert forall|i: int| 0 <= i < index + 1 implies holds_text(after, (#[trigger] ids@[i])@) by {
                    if i == index {
                        assert(after[position as int]@ == ids@[i]@);
                    } else {
                        let k = choose|k: int| 0 <= k < before.len() && (#[trigger] before[k])@ == ids@[i]@;
                        if k < position {
                            assert(after[k] == before[k]);
                        } else {
                            assert(after[k + 1] == before[k]);
                        }
                    }
                }
                assert forall|k: int| 0 <= k < after.len() implies holds_text(ids@, (#[trigger] after[k])@) by {
                    if k == position {
                        assert(ids@[index as int]@ == after[k]@);
                    } else if k < position {
                        assert(after[k] == before[k]);
                    } else {
                        assert(after[k] == before[k - 1]);
                    }
                }
            }
        }
        index = index + 1;
    }
    types
}

/// One press of Tab: the full selection remembered from now on, its unit types
/// in cycling order, the new cursor, and for each remembered unit whether it
/// stays selected.
pub struct SubgroupStep {
    pub full: Vec<(u64, String)>,
    pub types: Vec<String>,
    pub cursor: Option<usize>,
    pub keep: Vec<bool>,
}

/// Cycling continues while the current selection is non-empty and lies
/// within the remembered full selection (its living units); any other
/// selection restarts the cycle from itself.
pub open spec fn subgroup_continuing(current: Seq<u64>, full_alive: Seq<(u64, String)>) -> bool {
    &&& current.len() > 0
    &&& full_alive.len() > 0
    &&& forall|i: int| 0 <= i < current.len() ==> remembered(full_alive, #[trigger] current[i])
}

/// `entity` is one of the remembered units.
pub open spec fn remembered(full_alive: Seq<(u64, String)>, entity: u64) -> bool {
    exists|k: int| 0 <= k < full_alive.len() && (#[trigger] full_alive[k]).0 == entity
}

/// The selection Tab cycles through: the remembered one while cycling
/// continues, else the current one.
pub open spec fn cycle_source(current: Seq<u64>, full_alive: Seq<(u64, String)>, fresh: Seq<(u64, String)>) -> Seq<(u64, String)> {
    if subgroup_continuing(current, full_alive) { full_alive } else { fresh }
}

/// The cursor cycling resumes from: the remembered one while cycling
/// continues, else the full selection.
pub open spec fn cycle_start(current: Seq<u64>, full_alive: Seq<(u64, String)>, cursor: Option<usize>) -> Option<usize> {
    if subgroup_continuing(current, full_alive) { cursor } else { None }
}

/// The unit types of a remembered selection, in order.
pub open spec fn unit_types(full: Seq<(u64, String)>) -> Seq<String> {
    full.map_values(|pair: (u64, String)| pair.1)
}

fn in_remembered(full_alive: &Vec<(u64, String)>, entity: u64) -> (found: bool)
    ensures
        found == remembered(full_alive@, entity),
{
    let mut index: usize = 0;
    while index < full_alive.len()
        invariant
            index <= full_alive.len(),
            forall|k: int| 0 <= k < index ==> (#[trigger] full_alive@[k]).0 != entity,
        decreases full_alive.len() - index,
    {
        if full_alive[index].0 == entity {
            return true;
        }
        index = index + 1;
    }
    false
}

fn selection_continues(current: &Vec<u64>, full_alive: &Vec<(u64, String)>) -> (continuing: bool)
    ensures
        continuing == subgroup_continuing(current@, full_alive@),
{
    if current.len() == 0 || full_alive.len() == 0 {
        return false;
    }
    let mut index: usize = 0;
    while index < current.len()
        invariant
            current@.len() > 0,
            full_alive@.len() > 0,
            index <= current.len(),
            forall|i: int| 0 <= i < index ==> remembered(full_alive@, #[trigger] current@[i]),
        decreases current.len() - index,
    {
        if !in_remembered(full_alive, current[index]) {
            return false;
        }
        index = index + 1;
    }
    true
}

/// Press Tab over a selection of `team`'s units. `current` is the selection,
/// `full_alive` the living units of the remembered full selection and
/// `fresh` the selection with unit types. `None` when there is nothing to
/// cycle.
pub fn cycle_selection_subgroup(
    current: &Vec<u64>,
    full_alive: Vec<(u64, String)>,
    fresh: Vec<(u64, String)>,
    cursor: Option<usize>,
) -> (step: Option<SubgroupStep>)
    ensures
        step is None <==> cycle_source(current@, full_alive@, fresh@).len() == 0,
        step matches Some(step) ==> {
            &&& step.full@ == cycle_source(current@, full_alive@, fresh@)
            &&& strictly_sorted(step.types@)
            &&& forall|i: int| 0 <= i < step.full@.len() ==> holds_text(step.types@, (#[trigger] step.full@[i]).1@)
            &&& forall|k: int| 0 <= k < step.types@.len() ==> holds_text(unit_types(step.full@), (#[trigger] step.types@[k])@)
            &&& step.cursor == next_cursor(cycle_start(current@, full_alive@, cursor), step.types@.len() as usize)
            &&& step.keep@.len() == step.full@.len()
            &&& forall|i: int| 0 <= i < step.full@.len() ==> #[trigger] step.keep@[i] == match step.cursor {
                None => true,
                Some(c) => step.full@[i].1@ == step.types@[c as int]@,
            }
        },
{
    let continuing = selection_continues(current, &full_alive);
    let (full, start) = if continuing { (full_alive, cursor) } else { (fresh, None) };
    if full.len() == 0 {
        return None;
    }
    let mut ids: Vec<String> = Vec::new();
    let mut index: usize = 0;
    while index < full.len()
        invariant
            index <= full.len(),
            ids@ == unit_types(full@).take(index as int),
        decreases full.len() - index,
    {
        ids.push(full[index].1.clone());
        index = index + 1;
        proof {
            assert(ids@ =~= unit_types(full@).take(index as int));
        }
    }
    proof {
        assert(unit_types(full@).take(index as int) =~= unit_types(full@));
    }
    let types = distinct_subgroup_types(&ids);
    let next = next_subgroup_cursor(start, types.len());
    let mut keep: Vec<bool> = Vec::new();
    let mut index: usize = 0;
    while index < full.len()
        invariant
            index <= full.len(),
            keep@.len() == index,
            next matches Some(c) ==> c < types@.len(),
            forall|i: int| 0 <= i < index ==> #[trigger] keep@[i] == match next {
                None => true,
                Some(c) => full@[i].1@ == types@[c as int]@,
            },
        decreases full.len() - index,
    {
        let stays = match next {
            None => true,
            Some(c) => full[index].1 == types[c],
        };
        keep.push(stays);
        index = index + 1;
    }
    proof {
        assert forall|i: int| 0 <= i < full@.len() implies holds_text(types@, (#[trigger] full@[i]).1@) by {
            assert(ids@[i] == full@[i].1);
        }
    }
    Some(SubgroupStep { full, types, cursor: next, keep })
}

/// The orders a unit is carrying out.
#[derive(Clone, Copy, Debug, PartialEq, Eq, Structural)]
pub struct ActiveOrders {
    pub moving: bool,
    pub following: bool,
    pub attacking: bool,
    pub capturing: bool,
    pub garrisoning: bool,
    pub harvesting: bool,
    pub repairing: bool,
    pub constructing: bool,
    pub attack_moving: bool,
    pub patrolling: bool,
}

/// A unit is idle when no order is queued and none is being carried out.
pub open spec fn unit_idle(queued_orders: usize, orders: ActiveOrders) -> bool {
    queued_orders == 0 && !orders.moving && !orders.following && !orders.attacking && !orders.capturing
        && !orders.garrisoning && !orders.harvesting && !orders.repairing && !orders.constructing
        && !orders.attack_moving && !orders.patrolling
}

/// Whether a unit is idle.
pub fn is_unit_idle(queued_orders: usize, orders: ActiveOrders) -> (idle: bool)
    ensures
        idle == unit_idle(queued_orders, orders),
{
    if queued_orders > 0 {
        return false;
    }
    !orders.moving && !orders.following && !orders.attacking && !orders.capturing && !orders.garrisoning
        && !orders.harvesting && !orders.repairing && !orders.constructing && !orders.attack_moving
        && !orders.patrolling
}

/// Whether a unit counts as an idle worker of `team`: one of its builders,
/// visible, and idle.
pub fn is_idle_worker(team: Team, unit_team: Team, visible: bool, builder: bool, queued_orders: usize, orders: ActiveOrders) -> (idle_worker: bool)
    ensures
        idle_worker == (unit_team == team && visible && builder && unit_idle(queued_orders, orders)),
{
    unit_team == team && visible && builder && is_unit_idle(queued_orders, orders)
}

/// No key occurs twice.
pub open spec fn distinct_keys(keys: Seq<u64>) -> bool {
    forall|i: int, j: int| 0 <= i < j < keys.len() ==> keys[i] != keys[j]
}

/// `key` lies above `bound`, when a bound is given.
pub open spec fn above(bound: Option<u64>, key: u64) -> bool {
    match bound {
        Some(b) => key > b,
        None => true,
    }
}

/// `key` is the least of `keys` above `bound`.
pub open spec fn least_above(keys: Seq<u64>, bound: Option<u64>, key: u64) -> bool {
    &&& keys.contains(key)
    &&& above(bound, key)
    &&& forall|i: int| 0 <= i < keys.len() && above(bound, keys[i]) ==> key <= #[trigger] keys[i]
}

/// The idle worker that the idle-worker key selects, cycling through the
/// candidates in increasing key order: the one after `last`, wrapping around
/// to the first; the first when `last` is not a candidate.
pub open spec fn idle_worker_pick(keys: Seq<u64>, last: Option<u64>, pick: u64) -> bool {
    match last {
        Some(l) => if keys.contains(l) && exists|i: int| 0 <= i < keys.len() && #[trigger] keys[i] > l {
            least_above(keys, Some(l), pick)
        } else {
            least_above(keys, None, pick)
        },
        None => least_above(keys, None, pick),
    }
}

fn least_key_above(keys: &Vec<u64>, bound: Option<u64>) -> (found: Option<u64>)
    ensures
        found matches Some(key) ==> least_above(keys@, bound, key),
        found is None ==> forall|i: int| 0 <= i < keys@.len() ==> !above(bound, #[trigger] keys@[i]),
{
    let mut best: Option<u64> = None;
    let mut index: usize = 0;
    while index < keys.len()
        invariant
            index <= keys.len(),
            match best {
                Some(key) => least_above(keys@.take(index as int), bound, key),
                None => forall|i: int| 0 <= i < index ==> !above(bound, #[trigger] keys@[i]),
            },
        decreases keys.len() - index,
    {
        let key = keys[index];
        let qualifies = match bound {
            Some(b) => key > b,
            None => true,
        };
        let ghost before = keys@.take(index as int);
        let ghost after = keys@.take(index as int + 1);
        proof {
            assert(after == before.push(key));
        }
        if qualifies {
            match best {
                Some(current) => {
                    if key < current {
                        best = Some(key);
                    }
                },
                None => {
                    best = Some(key);
                },
            }
        }
        proof {
            match best {
                Some(b) => {
                    assert(after.contains(b)) by {
                        if b == key {
                            assert(after[index as int] == key);
                        } else {
                            let k = choose|k: int| 0 <= k < before.len() && before[k] == b;
                            assert(after[k] == b);
                        }
                    }
                    assert forall|i: int| 0 <= i < after.len() && above(bound, after[i]) implies b <= #[trigger] after[i] by {
                        if i < index {
                            assert(after[i] == before[i]);
                        }
                    }
                },
                None => {},
            }
        }
        index = index + 1;
    }
    proof {
        let all = keys@.take(index as int);
        assert(all =~= keys@);
        match best {
            Some(b) => {
                assert forall|i: int| 0 <= i < keys@.len() && above(bound, keys@[i]) implies b <= #[trigger] keys@[i] by {
                    assert(all[i] == keys@[i]);
                }
            },
            None => {
                assert forall|i: int| 0 <= i < keys@.len() implies !above(bound, #[trigger] keys@[i]) by {
                    assert(all[i] == keys@[i]);
                }
            },
        }
    }
    best
}

/// The idle worker the idle-worker key selects next; `None` when there is
/// none. Keys are the workers' entity indices.
pub fn next_idle_worker(keys: &Vec<u64>, last: Option<u64>) -> (pick: Option<u64>)
    requires
        distinct_keys(keys@),
    ensures
        pick is None <==> keys@.len() == 0,
        pick matches Some(key) ==> idle_worker_pick(keys@, last, key),
{
    if keys.len() == 0 {
        return None;
    }
    match last {
        Some(previous) => {
            if contains_u64(keys, previous) {
                match least_key_above(keys, Some(previous)) {
                    Some(key) => {
                        return Some(key);
                    },
                    None => {},
                }
            }
        },
        None => {},
    }
    let first = least_key_above(keys, None);
    proof {
        assert(above(None, keys@[0]));
    }
    first
}

/// The left-button gesture in progress: whether a press is being tracked,
/// whether it became a drag, and whether it began over the HUD.
#[derive(Clone, Copy, Debug, PartialEq, Eq, Structural)]
pub struct SelectionDrag {
    pub active: bool,
    pub dragging: bool,
    pub started_in_hud: bool,
}

/// What a released left button asks for.
#[derive(Clone, Copy, Debug, PartialEq, Eq, Structural)]
pub enum SelectionGesture {
    /// No press was being tracked.
    Untracked,
    /// The press began over the HUD: the HUD had the click.
    Swallowed,
    /// Select what the dragged box covers.
    BoxSelect,
    /// Select what lies under the cursor.
    ClickSelect,
}

impl SelectionDrag {
    pub fn new() -> (drag: SelectionDrag)
        ensures
            !drag.active && !drag.dragging && !drag.started_in_hud,
    {
        SelectionDrag { active: false, dragging: false, started_in_hud: false }
    }

    /// The left button went down. A click that fired an armed support power
    /// (`guarded`) starts nothing; otherwise tracking begins, and is dropped
    /// at once when the cursor sits on the screen edge outside the HUD (the
    /// edge scrolls the camera instead).
    pub fn press(&mut self, guarded: bool, in_hud: bool, at_screen_edge: bool)
        ensures
            final(self).active == (!guarded && (in_hud || !at_screen_edge)),
            !final(self).dragging,
            !guarded ==> final(self).started_in_hud == in_hud,
            guarded ==> final(self).started_in_hud == old(self).started_in_hud,
    {
        if guarded {
            self.active = false;
            self.dragging = false;
            return;
        }
        self.active = true;
        self.dragging = false;
        self.started_in_hud = in_hud;
        if self.active && !self.started_in_hud && at_screen_edge {
            self.active = false;
            self.dragging = false;
        }
    }

    /// The left button is held: the gesture ends at the screen edge, and
    /// becomes a drag once the cursor moved far enough from where it began.
    pub fn hold(&mut self, at_screen_edge: bool, moved_far_enough: bool)
        ensures
            final(self).started_in_hud == old(self).started_in_hud,
            !old(self).active ==> *final(self) == *old(self),
            old(self).active && !old(self).started_in_hud && at_screen_edge ==> !final(self).active && !final(self).dragging,
            old(self).active && !(!old(self).started_in_hud && at_screen_edge) ==> final(self).active
                && final(self).dragging == (old(self).dragging || (!old(self).started_in_hud && moved_far_enough)),
    {
        if !self.active {
            return;
        }
        if !self.started_in_hud && at_screen_edge {
            self.active = false;
            self.dragging = false;
            return;
        }
        if !self.started_in_hud && moved_far_enough {
            self.dragging = true;
        }
    }

    /// The left button came up: say what to select, and stop tracking.
    pub fn release(&mut self) -> (gesture: SelectionGesture)
        ensures
            gesture == (if !old(self).active {
                SelectionGesture::Untracked
            } else if old(self).started_in_hud {
                SelectionGesture::Swallowed
            } else if old(self).dragging {
                SelectionGesture::BoxSelect
            } else {
                SelectionGesture::ClickSelect
            }),
            !old(self).active ==> *final(self) == *old(self),
            old(self).active ==> !final(self).active && !final(self).dragging,
    {
        if !self.active {
            return SelectionGesture::Untracked;
        }
        let gesture = if self.started_in_hud {
            SelectionGesture::Swallowed
        } else if self.dragging {
            SelectionGesture::BoxSelect
        } else {
            SelectionGesture::ClickSelect
        };
        self.active = false;
        self.dragging = false;
        gesture
    }
}

/// The entity under a single click: its id, its unit type (`None` for a
/// structure), and whether it is selected already.
pub struct ClickedEntity {
    pub entity: u64,
    pub unit_type: Option<String>,
    pub selected: bool,
}

/// The last click on an entity, for double clicks: when it happened, on
/// which entity and of which unit type.
pub struct DoubleClickState {
    pub last_click_ms: u64,
    pub last_unit: Option<u64>,
    pub last_unit_type: Option<String>,
}

/// What a single click selects.
#[derive(Clone, Copy, Debug, PartialEq, Eq, Structural)]
pub enum ClickOutcome {
    /// Nothing lies under the cursor.
    Nothing,
    /// A double click on a unit: every visible own unit of its type.
    SelectSameType,
    /// Remove the clicked entity from the selection.
    ToggleDeselect,
    /// Select the clicked entity.
    Select,
}

pub open spec fn text_option_view(text: Option<String>) -> Option<Seq<char>> {
    match text {
        Some(t) => Some(t@),
        None => None,
    }
}

/// A second click on the same unit, of the same type, within the double-click
/// window after the first.
pub open spec fn is_double_click(
    last_click_ms: u64,
    last_unit: Option<u64>,
    last_unit_type: Option<Seq<char>>,
    entity: u64,
    unit_type: Option<Seq<char>>,
    now_ms: u64,
    min_gap_ms: u64,
    max_gap_ms: u64,
) -> bool {
    &&& last_unit == Some(entity)
    &&& last_unit_type == unit_type
    &&& unit_type is Some
    &&& last_click_ms + min_gap_ms <= now_ms <= last_click_ms + max_gap_ms
}

fn same_text_option(left: &Option<String>, right: &Option<String>) -> (same: bool)
    ensures
        same == (text_option_view(*left) == text_option_view(*right)),
{
    match (left, right) {
        (Some(a), Some(b)) => crate::text::same_text(a.as_str(), b.as_str()),
        (None, None) => true,
        _ => false,
    }
}

fn clone_text_option(text: &Option<String>) -> (copy: Option<String>)
    ensures
        text_option_view(copy) == text_option_view(*text),
{
    match text {
        Some(t) => Some(t.clone()),
        None => None,
    }
}

impl DoubleClickState {
    pub fn new() -> (state: DoubleClickState)
        ensures
            state.last_click_ms == 0,
            state.last_unit is None,
            state.last_unit_type is None,
    {
        DoubleClickState { last_click_ms: 0, last_unit: None, last_unit_type: None }
    }

    /// Register a single click at `now_ms` and say what it selects: a
    /// double click on a unit picks its whole type; otherwise the additive
    /// modifier on a selected entity deselects it, and any other click
    /// selects. The click is remembered for the next one, except a
    /// deselecting click or a click on nothing, which forget the last unit.
    pub fn register_click(
        &mut self,
        clicked: Option<ClickedEntity>,
        additive: bool,
        now_ms: u64,
        min_gap_ms: u64,
        max_gap_ms: u64,
    ) -> (outcome: ClickOutcome)
        ensures
            final(self).last_click_ms == now_ms,
            match clicked {
                None => outcome == ClickOutcome::Nothing && final(self).last_unit is None
                    && final(self).last_unit_type is None,
                Some(c) => {
                    let double = is_double_click(old(self).last_click_ms, old(self).last_unit,
                        text_option_view(old(self).last_unit_type), c.entity, text_option_view(c.unit_type), now_ms,
                        min_gap_ms, max_gap_ms);
                    &&& outcome == (if double {
                        ClickOutcome::SelectSameType
                    } else if additive && c.selected {
                        ClickOutcome::ToggleDeselect
                    } else {
                        ClickOutcome::Select
                    })
                    &&& outcome == ClickOutcome::ToggleDeselect ==> final(self).last_unit is None
                        && final(self).last_unit_type is None
                    &&& outcome != ClickOutcome::ToggleDeselect ==> final(self).last_unit == Some(c.entity)
                        && text_option_view(final(self).last_unit_type) == text_option_view(c.unit_type)
                },
            },
    {
        match clicked {
            None => {
                self.last_click_ms = now_ms;
                self.last_unit = None;
                self.last_unit_type = None;
                ClickOutcome::Nothing
            },
            Some(c) => {
                let in_window = match now_ms.checked_sub(self.last_click_ms) {
                    Some(gap) => min_gap_ms <= gap && gap <= max_gap_ms,
                    None => false,
                };
                let same_unit = match self.last_unit {
                    Some(last) => last == c.entity,
                    None => false,
                };
                let double = same_unit && same_text_option(&self.last_unit_type, &c.unit_type)
                    && c.unit_type.is_some() && in_window;
                let outcome = if double {
                    ClickOutcome::SelectSameType
                } else if additive && c.selected {
                    ClickOutcome::ToggleDeselect
                } else {
                    ClickOutcome::Select
                };
                self.last_click_ms = now_ms;
                match outcome {
                    ClickOutcome::ToggleDeselect => {
                        self.last_unit = None;
                        self.last_unit_type = None;
                    },
                    _ => {
                        self.last_unit = Some(c.entity);
                        self.last_unit_type = clone_text_option(&c.unit_type);
                    },
                }
                outcome
            },
        }
    }
}

/// A box drag selects only the watching team's own visible units and
/// structures, never resource nodes.
pub open spec fn box_selects(team: Team, visible_team: Team, visible: bool, is_resource: bool) -> bool {
    visible && team == visible_team && !is_resource
}

/// A single click may pick the watching team's own visible entities, and a
/// visible resource node that still holds something.
pub open spec fn click_selects(team: Team, visible_team: Team, visible: bool, is_resource: bool, resource_left: bool) -> bool {
    visible && (team == visible_team || is_resource) && (!is_resource || resource_left)
}

/// Whether a box drag may select an entity.
pub fn box_selectable(team: Team, visible_team: Team, visible: bool, is_resource: bool) -> (selectable: bool)
    ensures
        selectable == box_selects(team, visible_team, visible, is_resource),
{
    visible && team == visible_team && !is_resource
}

/// Whether a single click may pick an entity.
pub fn click_selectable(team: Team, visible_team: Team, visible: bool, is_resource: bool, resource_left: bool) -> (selectable: bool)
    ensures
        selectable == click_selects(team, visible_team, visible, is_resource, resource_left),
{
    visible && (team == visible_team || is_resource) && (!is_resource || resource_left)
}

/// An entity under a box drag: its id, team, whether the watching player
/// sees it, whether it is a resource node, and whether the box covers it
/// on screen.
#[derive(Clone, Copy, Debug, PartialEq, Eq, Structural)]
pub struct BoxCandidate {
    pub entity: u64,
    pub team: Team,
    pub visible: bool,
    pub is_resource: bool,
    pub in_box: bool,
}

/// The ids a box drag selects, in order.
pub open spec fn box_selection_of(candidates: Seq<BoxCandidate>, visible_team: Team) -> Seq<u64>
    decreases candidates.len(),
{
    if candidates.len() == 0 {
        Seq::empty()
    } else {
        let earlier = box_selection_of(candidates.drop_last(), visible_team);
        let c = candidates.last();
        if c.in_box && box_selects(c.team, visible_team, c.visible, c.is_resource) { earlier.push(c.entity) } else { earlier }
    }
}

/// What a finished box drag selects: the covered entities it may select.
pub fn box_selection(candidates: &Vec<BoxCandidate>, visible_team: Team) -> (selected: Vec<u64>)
    ensures
        selected@ == box_selection_of(candidates@, visible_team),
{
    let mut selected: Vec<u64> = Vec::new();
    let mut k: usize = 0;
    while k < candidates.len()
        invariant
            k <= candidates@.len(),
            selected@ == box_selection_of(candidates@.take(k as int), visible_team),
        decreases candidates@.len() - k,
    {
        assert(candidates@.take(k + 1).drop_last() =~= candidates@.take(k as int));
        let c = candidates[k];
        if c.in_box && box_selectable(c.team, visible_team, c.visible, c.is_resource) {
            selected.push(c.entity);
        }
        k = k + 1;
    }
    assert(candidates@.take(candidates@.len() as int) =~= candidates@);
    selected
}

/// What the selection input does this frame before any click is read.
#[derive(Clone, Copy, Debug, PartialEq, Eq, Structural)]
pub enum SelectionGate {
    /// A structure is being placed: selection waits.
    Ignore,
    /// Nobody is controlled: the selection is emptied, the gesture dropped
    /// and the last click forgotten.
    ClearAll,
    /// The cursor left the window: the gesture is dropped.
    LoseCursor,
    /// Read the mouse.
    Handle,
}

pub open spec fn selection_gate_of(placing_structure: bool, controls_team: bool, has_window: bool, has_cursor: bool) -> SelectionGate {
    if placing_structure {
        SelectionGate::Ignore
    } else if !controls_team {
        SelectionGate::ClearAll
    } else if !has_window {
        SelectionGate::Ignore
    } else if !has_cursor {
        SelectionGate::LoseCursor
    } else {
        SelectionGate::Handle
    }
}

/// The early exits of the selection input, in order.
pub fn selection_gate(placing_structure: bool, controls_team: bool, has_window: bool, has_cursor: bool) -> (gate: SelectionGate)
    ensures
        gate == selection_gate_of(placing_structure, controls_team, has_window, has_cursor),
{
    if placing_structure {
        SelectionGate::Ignore
    } else if !controls_team {
        SelectionGate::ClearAll
    } else if !has_window {
        SelectionGate::Ignore
    } else if !has_cursor {
        SelectionGate::LoseCursor
    } else {
        SelectionGate::Handle
    }
}

impl SelectionDrag {
    /// Drop the gesture in progress.
    pub fn cancel(&mut self)
        ensures
            !final(self).active && !final(self).dragging,
            final(self).started_in_hud == old(self).started_in_hud,
    {
        self.active = false;
        self.dragging = false;
    }
}

impl DoubleClickState {
    /// Forget the last clicked unit; the time of the last click stays.
    pub fn forget(&mut self)
        ensures
            final(self).last_unit is None,
            final(self).last_unit_type is None,
            final(self).last_click_ms == old(self).last_click_ms,
    {
        self.last_unit = None;
        self.last_unit_type = None;
    }
}

} // verus!
