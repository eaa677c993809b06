//! The online war room: lobby slots, who may edit what, and the host's
//! lobby commands. Everything here is plain data that the host owns and
//! broadcasts; the transport lives outside the library.

use vstd::prelude::*;

use crate::team::Team;

verus! {

/// The three playable factions, in their menu order.
#[derive(Clone, Copy, Debug, PartialEq, Eq, Structural)]
pub enum Faction {
    Alliance,
    Demon,
    Chaos,
}

/// Number of factions (the length of the faction list).
pub const FACTION_COUNT: usize = 3;

pub open spec fn faction_index_spec(faction: Faction) -> nat {
    match faction {
        Faction::Alliance => 0,
        Faction::Demon => 1,
        Faction::Chaos => 2,
    }
}

pub open spec fn faction_at_spec(index: nat) -> Faction {
    if index % 3 == 0 {
        Faction::Alliance
    } else if index % 3 == 1 {
        Faction::Demon
    } else {
        Faction::Chaos
    }
}

impl Faction {
    /// The faction that follows this one when a lobby button cycles it.
    pub open spec fn successor(self) -> Faction {
        faction_at_spec(faction_index_spec(self) + 1)
    }

    pub fn next(self) -> (next: Faction)
        ensures
            next == self.successor(),
    {
        match self {
            Faction::Alliance => Faction::Demon,
            Faction::Demon => Faction::Chaos,
            Faction::Chaos => Faction::Alliance,
        }
    }

    /// Position of the faction in the faction list.
    pub fn index(self) -> (index: usize)
        ensures
            index == faction_index_spec(self),
            index < FACTION_COUNT,
    {
        match self {
            Faction::Alliance => 0,
            Faction::Demon => 1,
            Faction::Chaos => 2,
        }
    }

    /// The faction at `index`, wrapping around the faction list.
    pub fn from_index(index: usize) -> (faction: Faction)
        ensures
            faction == faction_at_spec(index as nat),
    {
        let wrapped = index % FACTION_COUNT;
        if wrapped == 0 {
            Faction::Alliance
        } else if wrapped == 1 {
            Faction::Demon
        } else {
            Faction::Chaos
        }
    }
}

/// AI strength of a computer-controlled slot.
#[derive(Clone, Copy, Debug, PartialEq, Eq, Structural)]
pub enum AiDifficulty {
    Beginner,
    Easy,
    Normal,
    Hard,
}

/// Who sits in a lobby slot.
pub enum SlotOccupant {
    Open,
    Closed,
    Human { player_id: u64, name: String, ready: bool, connected: bool },
    Ai(AiDifficulty),
}

/// Mathematical view of a slot occupant (names as character sequences).
pub enum OccupantView {
    Open,
    Closed,
    Human { player_id: u64, name: Seq<char>, ready: bool, connected: bool },
    Ai(AiDifficulty),
}

impl View for SlotOccupant {
    type V = OccupantView;

    open spec fn view(&self) -> OccupantView {
        match self {
            SlotOccupant::Open => OccupantView::Open,
            SlotOccupant::Closed => OccupantView::Closed,
            SlotOccupant::Human { player_id, name, ready, connected } => OccupantView::Human {
                player_id: *player_id,
                name: name@,
                ready: *ready,
                connected: *connected,
            },
            SlotOccupant::Ai(difficulty) => OccupantView::Ai(*difficulty),
        }
    }
}

pub open spec fn is_human_view(occupant: OccupantView) -> bool {
    occupant is Human
}

pub open spec fn is_player_view(occupant: OccupantView, player_id: u64) -> bool {
    occupant matches OccupantView::Human { player_id: id, .. } && id == player_id
}

/// Occupants that take part in a match: humans and AI players.
pub open spec fn is_active_view(occupant: OccupantView) -> bool {
    occupant is Human || occupant is Ai
}

impl SlotOccupant {
    pub fn duplicate(&self) -> (copy: SlotOccupant)
        ensures
            copy@ == self@,
    {
        match self {
            SlotOccupant::Open => SlotOccupant::Open,
            SlotOccupant::Closed => SlotOccupant::Closed,
            SlotOccupant::Human { player_id, name, ready, connected } => SlotOccupant::Human {
                player_id: *player_id,
                name: name.clone(),
                ready: *ready,
                connected: *connected,
            },
            SlotOccupant::Ai(difficulty) => SlotOccupant::Ai(*difficulty),
        }
    }

    pub fn same_as(&self, other: &SlotOccupant) -> (same: bool)
        ensures
            same <==> (self@ == other@),
    {
        match self {
            SlotOccupant::Open => match other {
                SlotOccupant::Open => true,
                _ => false,
            },
            SlotOccupant::Closed => match other {
                SlotOccupant::Closed => true,
                _ => false,
            },
            SlotOccupant::Human { player_id: a_id, name: a_name, ready: a_ready, connected: a_conn } => {
                match other {
                    SlotOccupant::Human { player_id: b_id, name: b_name, ready: b_ready, connected: b_conn } => {
                        let same_name = a_name.eq(b_name);
                        *a_id == *b_id && same_name && *a_ready == *b_ready && *a_conn == *b_conn
                    },
                    _ => false,
                }
            },
            SlotOccupant::Ai(a) => match other {
                SlotOccupant::Ai(b) => *a == *b,
                _ => false,
            },
        }
    }

    pub fn is_open(&self) -> (open: bool)
        ensures
            open == (self@ is Open),
    {
        match self {
            SlotOccupant::Open => true,
            _ => false,
        }
    }

    pub fn is_closed(&self) -> (closed: bool)
        ensures
            closed == (self@ is Closed),
    {
        match self {
            SlotOccupant::Closed => true,
            _ => false,
        }
    }

    pub fn is_human(&self) -> (human: bool)
        ensures
            human == is_human_view(self@),
    {
        match self {
            SlotOccupant::Human { .. } => true,
            _ => false,
        }
    }

    pub fn is_player(&self, player_id: u64) -> (found: bool)
        ensures
            found == is_player_view(self@, player_id),
    {
        match self {
            SlotOccupant::Human { player_id: id, .. } => *id == player_id,
            _ => false,
        }
    }

    pub fn is_active(&self) -> (active: bool)
        ensures
            active == is_active_view(self@),
    {
        match self {
            SlotOccupant::Human { .. } => true,
            SlotOccupant::Ai(_) => true,
            _ => false,
        }
    }
}

/// One row of the lobby.
pub struct LobbySlot {
    pub occupant: SlotOccupant,
    pub faction: Faction,
    pub team_id: usize,
    pub color_slot: usize,
    pub spawn_slot: usize,
}

pub struct SlotView {
    pub occupant: OccupantView,
    pub faction: Faction,
    pub team_id: usize,
    pub color_slot: usize,
    pub spawn_slot: usize,
}

impl View for LobbySlot {
    type V = SlotView;

    open spec fn view(&self) -> SlotView {
        SlotView {
            occupant: self.occupant@,
            faction: self.faction,
            team_id: self.team_id,
            color_slot: self.color_slot,
            spawn_slot: self.spawn_slot,
        }
    }
}

impl LobbySlot {
    pub fn duplicate(&self) -> (copy: LobbySlot)
        ensures
            copy@ == self@,
    {
        LobbySlot {
            occupant: self.occupant.duplicate(),
            faction: self.faction,
            team_id: self.team_id,
            color_slot: self.color_slot,
            spawn_slot: self.spawn_slot,
        }
    }
}

/// A skirmish map as the lobby sees it: its identifier and its spawn count.
pub struct MapDef {
    pub id: String,
    pub players: usize,
}

pub struct MapView {
    pub id: Seq<char>,
    pub players: usize,
}

impl View for MapDef {
    type V = MapView;

    open spec fn view(&self) -> MapView {
        MapView { id: self.id@, players: self.players }
    }
}

/// The game data the lobby rules read: the map list (the first map is the
/// default), the default faction of every spawn, and the sizes of the
/// option lists that lobby commands index into.
pub struct LobbyCatalog {
    pub maps: Vec<MapDef>,
    pub default_factions: Vec<Faction>,
    pub default_starting_resources_index: usize,
    pub starting_resource_option_count: usize,
    pub victory_condition_count: usize,
    pub color_palette_len: usize,
    pub max_lobby_slots: usize,
}

pub struct CatalogView {
    pub maps: Seq<MapView>,
    pub default_factions: Seq<Faction>,
    pub default_starting_resources_index: usize,
    pub starting_resource_option_count: usize,
    pub victory_condition_count: usize,
    pub color_palette_len: usize,
    pub max_lobby_slots: usize,
}

impl View for LobbyCatalog {
    type V = CatalogView;

    open spec fn view(&self) -> CatalogView {
        CatalogView {
            maps: self.maps@.map_values(|map: MapDef| map@),
            default_factions: self.default_factions@,
            default_starting_resources_index: self.default_starting_resources_index,
            starting_resource_option_count: self.starting_resource_option_count,
            victory_condition_count: self.victory_condition_count,
            color_palette_len: self.color_palette_len,
            max_lobby_slots: self.max_lobby_slots,
        }
    }
}

impl CatalogView {
    /// There is a default map with room for a host and one more player, every
    /// map's spawns have a default faction, and the cycled lists are non-empty.
    pub open spec fn well_formed(self) -> bool {
        &&& self.maps.len() > 0
        &&& self.maps[0].players >= 2
        &&& forall|i: int| 0 <= i < self.maps.len() ==> #[trigger] self.maps[i].players <= self.default_factions.len()
        &&& self.color_palette_len > 0
        &&& self.max_lobby_slots > 0
    }
}

/// The lobby state the host owns and broadcasts.
pub struct LobbySnapshot {
    pub revision: u64,
    pub room_code: String,
    pub map_id: String,
    pub starting_resources_index: usize,
    pub victory_condition_index: usize,
    pub host_player_id: u64,
    pub slots: Vec<LobbySlot>,
}

pub struct LobbyView {
    pub revision: u64,
    pub room_code: Seq<char>,
    pub map_id: Seq<char>,
    pub starting_resources_index: usize,
    pub victory_condition_index: usize,
    pub host_player_id: u64,
    pub slots: Seq<SlotView>,
}

impl View for LobbySnapshot {
    type V = LobbyView;

    open spec fn view(&self) -> LobbyView {
        LobbyView {
            revision: self.revision,
            room_code: self.room_code@,
            map_id: self.map_id@,
            starting_resources_index: self.starting_resources_index,
            victory_condition_index: self.victory_condition_index,
            host_player_id: self.host_player_id,
            slots: self.slots@.map_values(|slot: LobbySlot| slot@),
        }
    }
}

/// First slot at or after `from` that holds the human `player_id`.
pub open spec fn human_slot_from(slots: Seq<SlotView>, player_id: u64, from: int) -> Option<int>
    decreases slots.len() - from,
{
    if from < 0 || from >= slots.len() {
        None
    } else if is_player_view(slots[from].occupant, player_id) {
        Some(from)
    } else {
        human_slot_from(slots, player_id, from + 1)
    }
}

/// The slot of the human `player_id`: the first slot that holds them.
pub open spec fn human_slot_spec(slots: Seq<SlotView>, player_id: u64) -> Option<int> {
    human_slot_from(slots, player_id, 0)
}

/// First slot at or after `from` that is open.
pub open spec fn open_slot_from(slots: Seq<SlotView>, from: int) -> Option<int>
    decreases slots.len() - from,
{
    if from < 0 || from >= slots.len() {
        None
    } else if slots[from].occupant is Open {
        Some(from)
    } else {
        open_slot_from(slots, from + 1)
    }
}

pub open spec fn count_where(slots: Seq<SlotView>, pred: spec_fn(OccupantView) -> bool) -> nat
    decreases slots.len(),
{
    if slots.len() == 0 {
        0
    } else {
        count_where(slots.drop_last(), pred) + if pred(slots.last().occupant) { 1nat } else { 0nat }
    }
}

pub open spec fn human_count_spec(slots: Seq<SlotView>) -> nat {
    count_where(slots, |o: OccupantView| is_human_view(o))
}

pub open spec fn active_count_spec(slots: Seq<SlotView>) -> nat {
    count_where(slots, |o: OccupantView| is_active_view(o))
}

/// At least two humans, and every human is both ready and connected.
pub open spec fn connected_humans_ready_spec(slots: Seq<SlotView>) -> bool {
    &&& human_count_spec(slots) >= 2
    &&& forall|i: int| 0 <= i < slots.len() && #[trigger] is_human_view(slots[i].occupant)
        ==> (slots[i].occupant->ready && slots[i].occupant->connected)
}

pub open spec fn can_start_spec(slots: Seq<SlotView>) -> bool {
    connected_humans_ready_spec(slots) && active_count_spec(slots) >= 2
}

/// First map at or after `from` whose identifier is `id`.
pub open spec fn map_position_from(maps: Seq<MapView>, id: Seq<char>, from: int) -> Option<int>
    decreases maps.len() - from,
{
    if from < 0 || from >= maps.len() {
        None
    } else if maps[from].id == id {
        Some(from)
    } else {
        map_position_from(maps, id, from + 1)
    }
}

pub open spec fn map_position(maps: Seq<MapView>, id: Seq<char>) -> Option<int> {
    map_position_from(maps, id, 0)
}

/// The slots of a freshly created room: the host in slot 0, slot 1 open for a
/// guest, every further spawn closed, each spawn with its default faction
/// and its own team, color and spawn point.
pub open spec fn initial_slot(catalog: CatalogView, host_name: Seq<char>, index: int) -> SlotView {
    SlotView {
        occupant: if index == 0 {
            OccupantView::Human { player_id: 1, name: host_name, ready: true, connected: true }
        } else if index == 1 {
            OccupantView::Open
        } else {
            OccupantView::Closed
        },
        faction: catalog.default_factions[index],
        team_id: index as usize,
        color_slot: index as usize,
        spawn_slot: index as usize,
    }
}

pub open spec fn initial_lobby(catalog: CatalogView, room_code: Seq<char>, host_name: Seq<char>) -> LobbyView {
    LobbyView {
        revision: 1,
        room_code,
        map_id: catalog.maps[0].id,
        starting_resources_index: catalog.default_starting_resources_index,
        victory_condition_index: 0,
        host_player_id: 1,
        slots: Seq::new(catalog.maps[0].players as nat, |i: int| initial_slot(catalog, host_name, i)),
    }
}

impl LobbySnapshot {
    /// A new room on the default map, hosted by player 1.
    pub fn new(room_code: String, host_name: String, catalog: &LobbyCatalog) -> (lobby: LobbySnapshot)
        requires
            catalog@.well_formed(),
        ensures
            lobby@ == initial_lobby(catalog@, room_code@, host_name@),
    {
        let map = &catalog.maps[0];
        let players = map.players;
        assert(catalog@.maps[0] == map@);
        let mut slots: Vec<LobbySlot> = Vec::new();
        let mut host_name = Some(host_name);
        let ghost name_view = host_name->0@;
        let mut index: usize = 0;
        while index < players
            invariant
                catalog@.well_formed(),
                players == catalog@.maps[0].players,
                index <= players,
                slots@.len() == index,
                index == 0 ==> host_name is Some && host_name->0@ == name_view,
                forall|j: int| 0 <= j < index ==> #[trigger] slots@[j]@ == initial_slot(catalog@, name_view, j),
            decreases players - index,
        {
            assert(catalog@.maps[0].players <= catalog@.default_factions.len());
            let occupant = if index == 0 {
                let name = host_name.take().unwrap();
                SlotOccupant::Human { player_id: 1, name, ready: true, connected: true }
            } else if index == 1 {
                SlotOccupant::Open
            } else {
                SlotOccupant::Closed
            };
            let slot = LobbySlot {
                occupant,
                faction: catalog.default_factions[index],
                team_id: index,
                color_slot: index,
                spawn_slot: index,
            };
            slots.push(slot);
            index = index + 1;
        }
        let lobby = LobbySnapshot {
            revision: 1,
            room_code,
            map_id: map.id.clone(),
            starting_resources_index: catalog.default_starting_resources_index,
            victory_condition_index: 0,
            host_player_id: 1,
            slots,
        };
        assert(lobby@.slots =~= initial_lobby(catalog@, room_code@, name_view).slots);
        lobby
    }

    pub fn duplicate(&self) -> (copy: LobbySnapshot)
        ensures
            copy@ == self@,
    {
        let mut slots: Vec<LobbySlot> = Vec::new();
        let mut index: usize = 0;
        while index < self.slots.len()
            invariant
                index <= self.slots.len(),
                slots@.len() == index,
                forall|j: int| 0 <= j < index ==> #[trigger] slots@[j]@ == self.slots@[j]@,
            decreases self.slots.len() - index,
        {
            slots.push(self.slots[index].duplicate());
            index = index + 1;
        }
        let copy = LobbySnapshot {
            revision: self.revision,
            room_code: self.room_code.clone(),
            map_id: self.map_id.clone(),
            starting_resources_index: self.starting_resources_index,
            victory_condition_index: self.victory_condition_index,
            host_player_id: self.host_player_id,
            slots,
        };
        assert(copy@.slots =~= self@.slots);
        copy
    }

    /// Index into the catalog's maps of this lobby's map; the default map when
    /// the identifier is unknown.
    pub fn map_index(&self, catalog: &LobbyCatalog) -> (index: usize)
        requires
            catalog@.well_formed(),
        ensures
            index as int == (match map_position(catalog@.maps, self@.map_id) {
                Some(i) => i,
                None => 0,
            }),
            index < catalog@.maps.len(),
    {
        match find_map(catalog, &self.map_id) {
            Some(index) => index,
            None => 0,
        }
    }

    /// The slot of the human `player_id`, if they hold one.
    pub fn human_slot(&self, player_id: u64) -> (slot: Option<usize>)
        ensures
            match slot {
                Some(i) => human_slot_spec(self@.slots, player_id) == Some(i as int) && i < self@.slots.len()
                    && is_player_view(self@.slots[i as int].occupant, player_id),
                None => human_slot_spec(self@.slots, player_id) is None,
            },
    {
        let mut index: usize = 0;
        while index < self.slots.len()
            invariant
                index <= self.slots.len(),
                human_slot_from(self@.slots, player_id, index as int) == human_slot_spec(self@.slots, player_id),
            decreases self.slots.len() - index,
        {
            if self.slots[index].occupant.is_player(player_id) {
                return Some(index);
            }
            index = index + 1;
        }
        None
    }

    /// The first open slot, if any.
    pub fn open_slot(&self) -> (slot: Option<usize>)
        ensures
            match slot {
                Some(i) => open_slot_from(self@.slots, 0) == Some(i as int) && i < self@.slots.len()
                    && self@.slots[i as int].occupant is Open,
                None => open_slot_from(self@.slots, 0) is None,
            },
    {
        let mut index: usize = 0;
        while index < self.slots.len()
            invariant
                index <= self.slots.len(),
                open_slot_from(self@.slots, index as int) == open_slot_from(self@.slots, 0),
            decreases self.slots.len() - index,
        {
            match &self.slots[index].occupant {
                SlotOccupant::Open => {
                    return Some(index);
                },
                _ => {},
            }
            index = index + 1;
        }
        None
    }

    /// Number of slots held by humans.
    pub fn human_count(&self) -> (count: usize)
        ensures
            count == human_count_spec(self@.slots),
    {
        let mut count: usize = 0;
        let mut index: usize = 0;
        while index < self.slots.len()
            invariant
                index <= self.slots.len(),
                count == human_count_spec(self@.slots.take(index as int)),
                count <= index,
            decreases self.slots.len() - index,
        {
            assert(self@.slots.take(index + 1).drop_last() =~= self@.slots.take(index as int));
            if self.slots[index].occupant.is_human() {
                count = count + 1;
            }
            index = index + 1;
        }
        assert(self@.slots.take(self.slots.len() as int) =~= self@.slots);
        count
    }

    /// Number of slots that take part in a match (humans and AI).
    pub fn active_slot_count(&self) -> (count: usize)
        ensures
            count == active_count_spec(self@.slots),
    {
        let mut count: usize = 0;
        let mut index: usize = 0;
        while index < self.slots.len()
            invariant
                index <= self.slots.len(),
                count == active_count_spec(self@.slots.take(index as int)),
                count <= index,
            decreases self.slots.len() - index,
        {
            assert(self@.slots.take(index + 1).drop_last() =~= self@.slots.take(index as int));
            if self.slots[index].occupant.is_active() {
                count = count + 1;
            }
            index = index + 1;
        }
        assert(self@.slots.take(self.slots.len() as int) =~= self@.slots);
        count
    }

    /// At least two humans are present and all of them are ready and connected.
    pub fn connected_humans_ready(&self) -> (ready: bool)
        ensures
            ready == connected_humans_ready_spec(self@.slots),
    {
        let humans = self.human_count();
        if humans < 2 {
            return false;
        }
        let mut index: usize = 0;
        while index < self.slots.len()
            invariant
                index <= self.slots.len(),
                forall|i: int| 0 <= i < index && #[trigger] is_human_view(self@.slots[i].occupant)
                    ==> (self@.slots[i].occupant->ready && self@.slots[i].occupant->connected),
            decreases self.slots.len() - index,
        {
            match &self.slots[index].occupant {
                SlotOccupant::Human { ready, connected, .. } => {
                    if !(*ready && *connected) {
                        assert(is_human_view(self@.slots[index as int].occupant));
                        return false;
                    }
                },
                _ => {},
            }
            index = index + 1;
        }
        true
    }

    /// The host may start once two connected, ready humans and at least two
    /// active slots are present.
    pub fn can_start(&self) -> (start: bool)
        ensures
            start == can_start_spec(self@.slots),
    {
        self.connected_humans_ready() && self.active_slot_count() >= 2
    }
}

/// Position of the map whose identifier is `id`.
pub fn find_map(catalog: &LobbyCatalog, id: &String) -> (found: Option<usize>)
    ensures
        match found {
            Some(i) => map_position(catalog@.maps, id@) == Some(i as int) && i < catalog@.maps.len()
                && catalog@.maps[i as int].id == id@,
            None => map_position(catalog@.maps, id@) is None,
        },
{
    let mut index: usize = 0;
    while index < catalog.maps.len()
        invariant
            index <= catalog.maps.len(),
            map_position_from(catalog@.maps, id@, index as int) == map_position(catalog@.maps, id@),
        decreases catalog.maps.len() - index,
    {
        assert(catalog@.maps[index as int] == catalog.maps@[index as int]@);
        if catalog.maps[index].id == *id {
            return Some(index);
        }
        index = index + 1;
    }
    None
}


/// A lobby edit sent by a player to the host.
pub enum LobbyCommand {
    Ready(bool),
    Faction { slot: usize, faction: Faction },
    Team { slot: usize, team_id: usize },
    Color { slot: usize, color_slot: usize },
    SelectMap { map_id: String },
    StartingResources(usize),
    VictoryCondition(usize),
    SlotOccupant { slot: usize, occupant: SlotOccupant },
}

pub enum CommandView {
    Ready(bool),
    Faction { slot: usize, faction: Faction },
    Team { slot: usize, team_id: usize },
    Color { slot: usize, color_slot: usize },
    SelectMap { map_id: Seq<char> },
    StartingResources(usize),
    VictoryCondition(usize),
    SlotOccupant { slot: usize, occupant: OccupantView },
}

impl View for LobbyCommand {
    type V = CommandView;

    open spec fn view(&self) -> CommandView {
        match self {
            LobbyCommand::Ready(ready) => CommandView::Ready(*ready),
            LobbyCommand::Faction { slot, faction } => CommandView::Faction { slot: *slot, faction: *faction },
            LobbyCommand::Team { slot, team_id } => CommandView::Team { slot: *slot, team_id: *team_id },
            LobbyCommand::Color { slot, color_slot } => CommandView::Color { slot: *slot, color_slot: *color_slot },
            LobbyCommand::SelectMap { map_id } => CommandView::SelectMap { map_id: map_id@ },
            LobbyCommand::StartingResources(index) => CommandView::StartingResources(*index),
            LobbyCommand::VictoryCondition(index) => CommandView::VictoryCondition(*index),
            LobbyCommand::SlotOccupant { slot, occupant } => CommandView::SlotOccupant { slot: *slot, occupant: occupant@ },
        }
    }
}

/// A slot may be edited by the human sitting in it, and by the host when no
/// human sits in it.
pub open spec fn editable_slot(lobby: LobbyView, player_id: u64, slot: usize) -> bool {
    &&& slot < lobby.slots.len()
    &&& (human_slot_spec(lobby.slots, player_id) == Some(slot as int)
        || (lobby.host_player_id == player_id && !is_human_view(lobby.slots[slot as int].occupant)))
}

pub open spec fn with_slot(lobby: LobbyView, index: int, slot: SlotView) -> LobbyView {
    LobbyView { slots: lobby.slots.update(index, slot), ..lobby }
}

pub open spec fn bump_revision(lobby: LobbyView) -> LobbyView {
    LobbyView { revision: if lobby.revision < u64::MAX { (lobby.revision + 1) as u64 } else { lobby.revision }, ..lobby }
}

pub open spec fn with_ready(occupant: OccupantView, ready: bool) -> OccupantView {
    match occupant {
        OccupantView::Human { player_id, name, connected, .. } => OccupantView::Human { player_id, name, ready, connected },
        _ => occupant,
    }
}

/// The slots after switching to a map with `players` spawns: existing rows are
/// kept (up to the new count) and renumbered to their spawn, new rows are
/// closed with the spawn's default faction, team and color.
pub open spec fn resized_slots(slots: Seq<SlotView>, catalog: CatalogView, players: nat) -> Seq<SlotView> {
    Seq::new(players, |i: int| if i < slots.len() {
        SlotView { spawn_slot: i as usize, ..slots[i] }
    } else {
        SlotView {
            occupant: OccupantView::Closed,
            faction: catalog.default_factions[i],
            team_id: i as usize,
            color_slot: i as usize,
            spawn_slot: i as usize,
        }
    })
}

pub open spec fn lobby_on_map(lobby: LobbyView, catalog: CatalogView, map: int) -> LobbyView {
    LobbyView {
        map_id: catalog.maps[map].id,
        slots: resized_slots(lobby.slots, catalog, catalog.maps[map].players as nat),
        ..lobby
    }
}

/// The edited lobby (revision not yet advanced) and whether anything changed.
pub open spec fn command_outcome(lobby: LobbyView, catalog: CatalogView, player_id: u64, command: CommandView) -> (LobbyView, bool) {
    let is_host = lobby.host_player_id == player_id;
    match command {
        CommandView::Ready(ready) => match human_slot_spec(lobby.slots, player_id) {
            Some(i) => {
                let slot = lobby.slots[i];
                (with_slot(lobby, i, SlotView { occupant: with_ready(slot.occupant, ready), ..slot }),
                 slot.occupant->ready != ready)
            },
            None => (lobby, false),
        },
        CommandView::Faction { slot, faction } => if editable_slot(lobby, player_id, slot) {
            let old = lobby.slots[slot as int];
            (with_slot(lobby, slot as int, SlotView { faction, ..old }), old.faction != faction)
        } else {
            (lobby, false)
        },
        CommandView::Team { slot, team_id } => if editable_slot(lobby, player_id, slot) {
            let old = lobby.slots[slot as int];
            let team_id = (team_id % catalog.max_lobby_slots) as usize;
            (with_slot(lobby, slot as int, SlotView { team_id, ..old }), old.team_id != team_id)
        } else {
            (lobby, false)
        },
        CommandView::Color { slot, color_slot } => if editable_slot(lobby, player_id, slot) {
            let old = lobby.slots[slot as int];
            let color_slot = (color_slot % catalog.color_palette_len) as usize;
            (with_slot(lobby, slot as int, SlotView { color_slot, ..old }), old.color_slot != color_slot)
        } else {
            (lobby, false)
        },
        CommandView::SelectMap { map_id } => if !is_host {
            (lobby, false)
        } else {
            match map_position(catalog.maps, map_id) {
                None => (lobby, false),
                Some(m) => if catalog.maps[m].players < human_count_spec(lobby.slots) || lobby.map_id == catalog.maps[m].id {
                    (lobby, false)
                } else {
                    (lobby_on_map(lobby, catalog, m), true)
                },
            }
        },
        CommandView::StartingResources(index) => if !is_host || index >= catalog.starting_resource_option_count {
            (lobby, false)
        } else {
            (LobbyView { starting_resources_index: index, ..lobby }, lobby.starting_resources_index != index)
        },
        CommandView::VictoryCondition(index) => if !is_host || index >= catalog.victory_condition_count {
            (lobby, false)
        } else {
            (LobbyView { victory_condition_index: index, ..lobby }, lobby.victory_condition_index != index)
        },
        CommandView::SlotOccupant { slot, occupant } => if !is_host || slot >= lobby.slots.len()
            || is_human_view(lobby.slots[slot as int].occupant) || is_human_view(occupant) {
            (lobby, false)
        } else {
            let old = lobby.slots[slot as int];
            (with_slot(lobby, slot as int, SlotView { occupant, ..old }), old.occupant != occupant)
        },
    }
}

/// The lobby after `player_id` sends `command`, and whether it changed; a
/// change advances the revision (saturating).
pub open spec fn lobby_after_command(lobby: LobbyView, catalog: CatalogView, player_id: u64, command: CommandView) -> (LobbyView, bool) {
    let (edited, changed) = command_outcome(lobby, catalog, player_id, command);
    (if changed { bump_revision(edited) } else { lobby }, changed)
}

impl LobbySnapshot {
    fn set_slot(&mut self, index: usize, slot: LobbySlot)
        requires
            index < old(self).slots.len(),
        ensures
            final(self)@ == with_slot(old(self)@, index as int, slot@),
    {
        self.slots.set(index, slot);
        assert(final(self)@.slots =~= old(self)@.slots.update(index as int, slot@));
    }

    fn bump_revision(&mut self)
        ensures
            final(self)@ == bump_revision(old(self)@),
    {
        self.revision = self.revision.saturating_add(1);
    }

    /// Whether `player_id` may edit slot `slot`.
    pub fn editable_slot(&self, player_id: u64, slot: usize) -> (editable: bool)
        ensures
            editable == editable_slot(self@, player_id, slot),
    {
        if slot >= self.slots.len() {
            return false;
        }
        match self.human_slot(player_id) {
            Some(own) => {
                if own == slot {
                    return true;
                }
            },
            None => {},
        }
        self.host_player_id == player_id && !self.slots[slot].occupant.is_human()
    }

    /// Switch the lobby to `map` of the catalog, resizing the slot list to the
    /// map's spawn count.
    pub fn resize_for_map(&mut self, catalog: &LobbyCatalog, map: usize)
        requires
            catalog@.well_formed(),
            map < catalog@.maps.len(),
        ensures
            final(self)@ == lobby_on_map(old(self)@, catalog@, map as int),
    {
        let players = catalog.maps[map].players;
        assert(catalog@.maps[map as int].players <= catalog@.default_factions.len());
        let previous_len = self.slots.len();
        let mut slots: Vec<LobbySlot> = Vec::new();
        let mut index: usize = 0;
        while index < players
            invariant
                players == catalog@.maps[map as int].players,
                players <= catalog@.default_factions.len(),
                previous_len == self.slots.len(),
                index <= players,
                slots@.len() == index,
                forall|j: int| 0 <= j < index ==> #[trigger] slots@[j]@ == resized_slots(self@.slots, catalog@, players as nat)[j],
            decreases players - index,
        {
            if index < previous_len {
                let old = &self.slots[index];
                slots.push(LobbySlot {
                    occupant: old.occupant.duplicate(),
                    faction: old.faction,
                    team_id: old.team_id,
                    color_slot: old.color_slot,
                    spawn_slot: index,
                });
            } else {
                slots.push(LobbySlot {
                    occupant: SlotOccupant::Closed,
                    faction: catalog.default_factions[index],
                    team_id: index,
                    color_slot: index,
                    spawn_slot: index,
                });
            }
            index = index + 1;
        }
        self.map_id = catalog.maps[map].id.clone();
        self.slots = slots;
        assert(self@.slots =~= resized_slots(old(self)@.slots, catalog@, players as nat));
    }

    /// The host applies a lobby command from `player_id`; returns whether the
    /// lobby changed (and then advances the revision).
    pub fn apply_command(&mut self, catalog: &LobbyCatalog, player_id: u64, command: LobbyCommand) -> (changed: bool)
        requires
            catalog@.well_formed(),
        ensures
            (final(self)@, changed) == lobby_after_command(old(self)@, catalog@, player_id, command@),
    {
        let ghost start = self@;
        let is_host = self.host_player_id == player_id;
        let changed = match command {
            LobbyCommand::Ready(ready) => match self.human_slot(player_id) {
                Some(index) => {
                    let old = &self.slots[index];
                    let (occupant, was_ready) = match &old.occupant {
                        SlotOccupant::Human { player_id: id, name, ready: current, connected } => (
                            SlotOccupant::Human { player_id: *id, name: name.clone(), ready, connected: *connected },
                            *current,
                        ),
                        _ => (old.occupant.duplicate(), false),
                    };
                    let slot = LobbySlot {
                        occupant,
                        faction: old.faction,
                        team_id: old.team_id,
                        color_slot: old.color_slot,
                        spawn_slot: old.spawn_slot,
                    };
                    let changed = was_ready != ready;
                    if changed {
                        self.set_slot(index, slot);
                    }
                    changed
                },
                None => false,
            },
            LobbyCommand::Faction { slot, faction } => {
                if self.editable_slot(player_id, slot) {
                    let old = &self.slots[slot];
                    let changed = old.faction != faction;
                    if changed {
                        let updated = LobbySlot {
                            occupant: old.occupant.duplicate(),
                            faction,
                            team_id: old.team_id,
                            color_slot: old.color_slot,
                            spawn_slot: old.spawn_slot,
                        };
                        self.set_slot(slot, updated);
                    }
                    changed
                } else {
                    false
                }
            },
            LobbyCommand::Team { slot, team_id } => {
                if self.editable_slot(player_id, slot) {
                    let team_id = team_id % catalog.max_lobby_slots;
                    let old = &self.slots[slot];
                    let changed = old.team_id != team_id;
                    if changed {
                        let updated = LobbySlot {
                            occupant: old.occupant.duplicate(),
                            faction: old.faction,
                            team_id,
                            color_slot: old.color_slot,
                            spawn_slot: old.spawn_slot,
                        };
                        self.set_slot(slot, updated);
                    }
                    changed
                } else {
                    false
                }
            },
            LobbyCommand::Color { slot, color_slot } => {
                if self.editable_slot(player_id, slot) {
                    let color_slot = color_slot % catalog.color_palette_len;
                    let old = &self.slots[slot];
                    let changed = old.color_slot != color_slot;
                    if changed {
                        let updated = LobbySlot {
                            occupant: old.occupant.duplicate(),
                            faction: old.faction,
                            team_id: old.team_id,
                            color_slot,
                            spawn_slot: old.spawn_slot,
                        };
                        self.set_slot(slot, updated);
                    }
                    changed
                } else {
                    false
                }
            },
            LobbyCommand::SelectMap { map_id } => {
                if !is_host {
                    false
                } else {
                    match find_map(catalog, &map_id) {
                        None => false,
                        Some(map) => {
                            assert(catalog@.maps[map as int] == catalog.maps@[map as int]@);
                            let humans = self.human_count();
                            if catalog.maps[map].players < humans || self.map_id == catalog.maps[map].id {
                                false
                            } else {
                                self.resize_for_map(catalog, map);
                                true
                            }
                        },
                    }
                }
            },
            LobbyCommand::StartingResources(index) => {
                if !is_host || index >= catalog.starting_resource_option_count {
                    false
                } else {
                    let changed = self.starting_resources_index != index;
                    self.starting_resources_index = index;
                    changed
                }
            },
            LobbyCommand::VictoryCondition(index) => {
                if !is_host || index >= catalog.victory_condition_count {
                    false
                } else {
                    let changed = self.victory_condition_index != index;
                    self.victory_condition_index = index;
                    changed
                }
            },
            LobbyCommand::SlotOccupant { slot, occupant } => {
                if !is_host || slot >= self.slots.len() || self.slots[slot].occupant.is_human() || occupant.is_human() {
                    false
                } else {
                    let old = &self.slots[slot];
                    let changed = !old.occupant.same_as(&occupant);
                    if changed {
                        let updated = LobbySlot {
                            occupant,
                            faction: old.faction,
                            team_id: old.team_id,
                            color_slot: old.color_slot,
                            spawn_slot: old.spawn_slot,
                        };
                        self.set_slot(slot, updated);
                    }
                    changed
                }
            },
        };
        if changed {
            self.bump_revision();
        }
        changed
    }
}


/// How a match slot is played.
#[derive(Clone, Copy, Debug, PartialEq, Eq, Structural)]
pub enum PlayerController {
    Nobody,
    Human,
    Ai(AiDifficulty),
}

/// An active lobby slot carried into a match; `source_slot` is its lobby row.
pub struct MatchSlot {
    pub source_slot: usize,
    pub occupant: SlotOccupant,
    pub faction: Faction,
    pub team_id: usize,
    pub color_slot: usize,
}

pub struct MatchSlotView {
    pub source_slot: usize,
    pub occupant: OccupantView,
    pub faction: Faction,
    pub team_id: usize,
    pub color_slot: usize,
}

impl View for MatchSlot {
    type V = MatchSlotView;

    open spec fn view(&self) -> MatchSlotView {
        MatchSlotView {
            source_slot: self.source_slot,
            occupant: self.occupant@,
            faction: self.faction,
            team_id: self.team_id,
            color_slot: self.color_slot,
        }
    }
}

/// What the host broadcasts when a match starts.
pub struct MatchConfig {
    pub map_id: String,
    pub starting_resources_index: usize,
    pub victory_condition_index: usize,
    pub slots: Vec<MatchSlot>,
}

pub struct MatchConfigView {
    pub map_id: Seq<char>,
    pub starting_resources_index: usize,
    pub victory_condition_index: usize,
    pub slots: Seq<MatchSlotView>,
}

impl View for MatchConfig {
    type V = MatchConfigView;

    open spec fn view(&self) -> MatchConfigView {
        MatchConfigView {
            map_id: self.map_id@,
            starting_resources_index: self.starting_resources_index,
            victory_condition_index: self.victory_condition_index,
            slots: self.slots@.map_values(|slot: MatchSlot| slot@),
        }
    }
}

pub open spec fn match_slot_of(slots: Seq<SlotView>, index: int) -> MatchSlotView {
    MatchSlotView {
        source_slot: index as usize,
        occupant: slots[index].occupant,
        faction: slots[index].faction,
        team_id: slots[index].team_id,
        color_slot: slots[index].color_slot,
    }
}

/// The active slots among the first `count` lobby rows, in lobby order.
pub open spec fn active_match_slots(slots: Seq<SlotView>, count: int) -> Seq<MatchSlotView>
    decreases count,
{
    if count <= 0 {
        Seq::empty()
    } else {
        let earlier = active_match_slots(slots, count - 1);
        if is_active_view(slots[count - 1].occupant) {
            earlier.push(match_slot_of(slots, count - 1))
        } else {
            earlier
        }
    }
}

pub open spec fn match_config_of(lobby: LobbyView) -> MatchConfigView {
    MatchConfigView {
        map_id: lobby.map_id,
        starting_resources_index: lobby.starting_resources_index,
        victory_condition_index: lobby.victory_condition_index,
        slots: active_match_slots(lobby.slots, lobby.slots.len() as int),
    }
}

/// First match slot at or after `from` held by the human `player_id`.
pub open spec fn match_slot_of_player_from(slots: Seq<MatchSlotView>, player_id: u64, from: int) -> Option<int>
    decreases slots.len() - from,
{
    if from < 0 || from >= slots.len() {
        None
    } else if is_player_view(slots[from].occupant, player_id) {
        Some(from)
    } else {
        match_slot_of_player_from(slots, player_id, from + 1)
    }
}

/// First match slot at or after `from` that came from lobby row `source`.
pub open spec fn match_slot_of_source_from(slots: Seq<MatchSlotView>, source: usize, from: int) -> Option<int>
    decreases slots.len() - from,
{
    if from < 0 || from >= slots.len() {
        None
    } else if slots[from].source_slot == source {
        Some(from)
    } else {
        match_slot_of_source_from(slots, source, from + 1)
    }
}

/// The runtime team of a human player: `Team::Player` of their match slot.
pub open spec fn runtime_team_spec(config: MatchConfigView, player_id: u64) -> Option<Team> {
    match match_slot_of_player_from(config.slots, player_id, 0) {
        Some(i) => Some(Team::Player(i as usize)),
        None => None,
    }
}

/// The faction of a human player; Alliance when they hold no slot.
pub open spec fn runtime_faction_spec(config: MatchConfigView, player_id: u64) -> Faction {
    match match_slot_of_player_from(config.slots, player_id, 0) {
        Some(i) => config.slots[i].faction,
        None => Faction::Alliance,
    }
}

pub open spec fn controller_of(occupant: OccupantView) -> PlayerController {
    match occupant {
        OccupantView::Human { .. } => PlayerController::Human,
        OccupantView::Ai(difficulty) => PlayerController::Ai(difficulty),
        _ => PlayerController::Nobody,
    }
}

impl MatchSlot {
    pub fn duplicate(&self) -> (copy: MatchSlot)
        ensures
            copy@ == self@,
    {
        MatchSlot {
            source_slot: self.source_slot,
            occupant: self.occupant.duplicate(),
            faction: self.faction,
            team_id: self.team_id,
            color_slot: self.color_slot,
        }
    }
}

impl MatchConfig {
    /// The match configuration of a lobby: its settings and its active slots.
    pub fn from_lobby(lobby: &LobbySnapshot) -> (config: MatchConfig)
        ensures
            config@ == match_config_of(lobby@),
    {
        let mut slots: Vec<MatchSlot> = Vec::new();
        let mut index: usize = 0;
        while index < lobby.slots.len()
            invariant
                index <= lobby.slots.len(),
                slots@.map_values(|slot: MatchSlot| slot@) == active_match_slots(lobby@.slots, index as int),
            decreases lobby.slots.len() - index,
        {
            let slot = &lobby.slots[index];
            if slot.occupant.is_active() {
                let ghost before = slots@;
                slots.push(MatchSlot {
                    source_slot: index,
                    occupant: slot.occupant.duplicate(),
                    faction: slot.faction,
                    team_id: slot.team_id,
                    color_slot: slot.color_slot,
                });
                assert(slots@.map_values(|slot: MatchSlot| slot@) =~= before.map_values(|slot: MatchSlot| slot@).push(
                    match_slot_of(lobby@.slots, index as int)));
            }
            index = index + 1;
        }
        assert(lobby@.slots.len() == lobby.slots.len());
        MatchConfig {
            map_id: lobby.map_id.clone(),
            starting_resources_index: lobby.starting_resources_index,
            victory_condition_index: lobby.victory_condition_index,
            slots,
        }
    }

    /// Match slot index of the human `player_id`.
    pub fn player_slot(&self, player_id: u64) -> (slot: Option<usize>)
        ensures
            match slot {
                Some(i) => match_slot_of_player_from(self@.slots, player_id, 0) == Some(i as int) && i < self@.slots.len(),
                None => match_slot_of_player_from(self@.slots, player_id, 0) is None,
            },
    {
        let mut index: usize = 0;
        while index < self.slots.len()
            invariant
                index <= self.slots.len(),
                match_slot_of_player_from(self@.slots, player_id, index as int)
                    == match_slot_of_player_from(self@.slots, player_id, 0),
            decreases self.slots.len() - index,
        {
            if self.slots[index].occupant.is_player(player_id) {
                return Some(index);
            }
            index = index + 1;
        }
        None
    }

    /// Match slot index of lobby row `source`.
    pub fn slot_from_source(&self, source: usize) -> (slot: Option<usize>)
        ensures
            match slot {
                Some(i) => match_slot_of_source_from(self@.slots, source, 0) == Some(i as int) && i < self@.slots.len(),
                None => match_slot_of_source_from(self@.slots, source, 0) is None,
            },
    {
        let mut index: usize = 0;
        while index < self.slots.len()
            invariant
                index <= self.slots.len(),
                match_slot_of_source_from(self@.slots, source, index as int)
                    == match_slot_of_source_from(self@.slots, source, 0),
            decreases self.slots.len() - index,
        {
            if self.slots[index].source_slot == source {
                return Some(index);
            }
            index = index + 1;
        }
        None
    }

    /// The runtime team of a human player.
    pub fn runtime_team_for_player(&self, player_id: u64) -> (team: Option<Team>)
        ensures
            team == runtime_team_spec(self@, player_id),
    {
        match self.player_slot(player_id) {
            Some(index) => Some(Team::Player(index)),
            None => None,
        }
    }

    /// The faction a human player plays; Alliance when they hold no slot.
    pub fn runtime_faction_for_player(&self, player_id: u64) -> (faction: Faction)
        ensures
            faction == runtime_faction_spec(self@, player_id),
    {
        match self.player_slot(player_id) {
            Some(index) => self.slots[index].faction,
            None => Faction::Alliance,
        }
    }
}

/// Why a match configuration cannot start a local match.
#[derive(Clone, Copy, Debug, PartialEq, Eq, Structural)]
pub enum MatchSetupError {
    UnknownMap,
    InvalidStartingResources,
    InvalidVictoryCondition,
    LocalSlotInactive,
}

/// The status line that reports a setup error.
pub open spec fn setup_error_message(error: MatchSetupError) -> Seq<char> {
    match error {
        MatchSetupError::UnknownMap => "online match selected an unknown map"@,
        MatchSetupError::InvalidStartingResources => "online match selected invalid starting resources"@,
        MatchSetupError::InvalidVictoryCondition => "online match selected an invalid victory condition"@,
        MatchSetupError::LocalSlotInactive => "local player slot is not active in the match"@,
    }
}

impl MatchSetupError {
    /// The status line that reports this error.
    pub fn message(self) -> (text: &'static str)
        ensures
            text@ == setup_error_message(self),
    {
        match self {
            MatchSetupError::UnknownMap => "online match selected an unknown map",
            MatchSetupError::InvalidStartingResources => "online match selected invalid starting resources",
            MatchSetupError::InvalidVictoryCondition => "online match selected an invalid victory condition",
            MatchSetupError::LocalSlotInactive => "local player slot is not active in the match",
        }
    }
}

/// The local match settings derived from a match configuration: indices into
/// the catalog's lists, the local player's runtime team, and one entry per
/// match slot.
pub struct MatchSetup {
    pub map_index: usize,
    pub starting_resources_index: usize,
    pub victory_condition_index: usize,
    pub local_runtime_slot: usize,
    pub active_teams: Vec<bool>,
    pub player_factions: Vec<Faction>,
    pub player_color_slots: Vec<usize>,
    pub player_controllers: Vec<PlayerController>,
    pub player_spawn_slots: Vec<usize>,
    pub team_ids: Vec<usize>,
}

/// The settings of a match setup, slot by slot, follow the match slots.
pub open spec fn setup_follows(setup: MatchSetup, config: MatchConfigView) -> bool {
    let n = config.slots.len();
    &&& setup.active_teams@ == Seq::new(n, |i: int| true)
    &&& setup.player_factions@ == Seq::new(n, |i: int| config.slots[i].faction)
    &&& setup.player_color_slots@ == Seq::new(n, |i: int| config.slots[i].color_slot)
    &&& setup.player_controllers@ == Seq::new(n, |i: int| controller_of(config.slots[i].occupant))
    &&& setup.player_spawn_slots@ == Seq::new(n, |i: int| config.slots[i].source_slot)
    &&& setup.team_ids@ == Seq::new(n, |i: int| config.slots[i].team_id)
}

fn controller_for(occupant: &SlotOccupant) -> (controller: PlayerController)
    ensures
        controller == controller_of(occupant@),
{
    match occupant {
        SlotOccupant::Human { .. } => PlayerController::Human,
        SlotOccupant::Ai(difficulty) => PlayerController::Ai(*difficulty),
        _ => PlayerController::Nobody,
    }
}

/// A match configuration gives local settings for lobby row `local`: its map
/// is known, its options are in range, and the row is one of its slots.
pub open spec fn setup_succeeds(config: MatchConfigView, local: usize, catalog: CatalogView) -> bool {
    &&& map_position(catalog.maps, config.map_id) is Some
    &&& config.starting_resources_index < catalog.starting_resource_option_count
    &&& config.victory_condition_index < catalog.victory_condition_count
    &&& match_slot_of_source_from(config.slots, local, 0) is Some
}

/// The settings a successful setup produces: the catalog's indices of the
/// map and options, the local player's match slot, and one entry per match
/// slot.
pub open spec fn setup_matches(setup: MatchSetup, config: MatchConfigView, local: usize, catalog: CatalogView) -> bool {
    &&& map_position(catalog.maps, config.map_id) == Some(setup.map_index as int)
    &&& setup.starting_resources_index == config.starting_resources_index
    &&& setup.victory_condition_index == config.victory_condition_index
    &&& match_slot_of_source_from(config.slots, local, 0) == Some(setup.local_runtime_slot as int)
    &&& setup_follows(setup, config)
}

/// The first check a failing setup fails.
pub open spec fn setup_error_of(config: MatchConfigView, local: usize, catalog: CatalogView) -> MatchSetupError {
    if map_position(catalog.maps, config.map_id) is None {
        MatchSetupError::UnknownMap
    } else if config.starting_resources_index >= catalog.starting_resource_option_count {
        MatchSetupError::InvalidStartingResources
    } else if config.victory_condition_index >= catalog.victory_condition_count {
        MatchSetupError::InvalidVictoryCondition
    } else {
        MatchSetupError::LocalSlotInactive
    }
}

/// The local settings for a match as seen from lobby row `local_source_slot`.
/// Fails on an unknown map, an out-of-range starting-resources or victory
/// option, or when the local row is not among the match slots (in that order).
pub fn online_match_setup(config: &MatchConfig, local_source_slot: usize, catalog: &LobbyCatalog) -> (result: Result<MatchSetup, MatchSetupError>)
    ensures
        match result {
            Ok(setup) => setup_succeeds(config@, local_source_slot, catalog@) && setup_matches(setup, config@, local_source_slot, catalog@),
            Err(error) => !setup_succeeds(config@, local_source_slot, catalog@) && error == setup_error_of(config@, local_source_slot, catalog@),
        },
{
    let map_index = match find_map(catalog, &config.map_id) {
        Some(index) => index,
        None => {
            return Err(MatchSetupError::UnknownMap);
        },
    };
    if config.starting_resources_index >= catalog.starting_resource_option_count {
        return Err(MatchSetupError::InvalidStartingResources);
    }
    if config.victory_condition_index >= catalog.victory_condition_count {
        return Err(MatchSetupError::InvalidVictoryCondition);
    }
    let local = config.slot_from_source(local_source_slot);
    let local_runtime_slot = match local {
        Some(slot) => slot,
        None => {
            return Err(MatchSetupError::LocalSlotInactive);
        },
    };
    let n = config.slots.len();
    let mut active_teams: Vec<bool> = Vec::new();
    let mut player_factions: Vec<Faction> = Vec::new();
    let mut player_color_slots: Vec<usize> = Vec::new();
    let mut player_controllers: Vec<PlayerController> = Vec::new();
    let mut player_spawn_slots: Vec<usize> = Vec::new();
    let mut team_ids: Vec<usize> = Vec::new();
    let mut i: usize = 0;
    while i < n
        invariant
            n == config.slots.len(),
            i <= n,
            active_teams@ == Seq::new(i as nat, |k: int| true),
            player_factions@ == Seq::new(i as nat, |k: int| config@.slots[k].faction),
            player_color_slots@ == Seq::new(i as nat, |k: int| config@.slots[k].color_slot),
            player_controllers@ == Seq::new(i as nat, |k: int| controller_of(config@.slots[k].occupant)),
            player_spawn_slots@ == Seq::new(i as nat, |k: int| config@.slots[k].source_slot),
            team_ids@ == Seq::new(i as nat, |k: int| config@.slots[k].team_id),
        decreases n - i,
    {
        let slot = &config.slots[i];
        active_teams.push(true);
        player_factions.push(slot.faction);
        player_color_slots.push(slot.color_slot);
        player_controllers.push(controller_for(&slot.occupant));
        player_spawn_slots.push(slot.source_slot);
        team_ids.push(slot.team_id);
        i = i + 1;
        assert(active_teams@ =~= Seq::new(i as nat, |k: int| true));
        assert(player_factions@ =~= Seq::new(i as nat, |k: int| config@.slots[k].faction));
        assert(player_color_slots@ =~= Seq::new(i as nat, |k: int| config@.slots[k].color_slot));
        assert(player_controllers@ =~= Seq::new(i as nat, |k: int| controller_of(config@.slots[k].occupant)));
        assert(player_spawn_slots@ =~= Seq::new(i as nat, |k: int| config@.slots[k].source_slot));
        assert(team_ids@ =~= Seq::new(i as nat, |k: int| config@.slots[k].team_id));
    }
    Ok(MatchSetup {
        map_index,
        starting_resources_index: config.starting_resources_index,
        victory_condition_index: config.victory_condition_index,
        local_runtime_slot,
        active_teams,
        player_factions,
        player_color_slots,
        player_controllers,
        player_spawn_slots,
        team_ids,
    })
}

/// The war room has exactly one row per spawn of its map, the row at
/// position `i` playing from spawn `i`: for a new room, and after every
/// change of map.
pub proof fn law_one_row_per_map_spawn(lobby: LobbyView, catalog: CatalogView, room_code: Seq<char>, host_name: Seq<char>, map: int)
    requires
        catalog.well_formed(),
        0 <= map < catalog.maps.len(),
    ensures
        initial_lobby(catalog, room_code, host_name).slots.len() == catalog.maps[0].players,
        forall|i: int| 0 <= i < catalog.maps[0].players ==>
            #[trigger] initial_lobby(catalog, room_code, host_name).slots[i].spawn_slot == i,
        lobby_on_map(lobby, catalog, map).slots.len() == catalog.maps[map].players,
        forall|i: int| 0 <= i < catalog.maps[map].players ==> #[trigger] lobby_on_map(lobby, catalog, map).slots[i].spawn_slot == i,
{
}

/// Only the host changes the room's settings and the occupants of rows;
/// a guest may edit only their own row, and an edit refused leaves the room
/// exactly as it was (same revision).
pub proof fn law_guests_edit_only_their_own_row(lobby: LobbyView, catalog: CatalogView, player_id: u64, command: CommandView)
    requires
        lobby.host_player_id != player_id,
    ensures
        (command is SelectMap || command is StartingResources || command is VictoryCondition || command is SlotOccupant)
            ==> lobby_after_command(lobby, catalog, player_id, command) == (lobby, false),
        (command matches CommandView::Faction { slot, .. } && human_slot_spec(lobby.slots, player_id) != Some(slot as int))
            ==> lobby_after_command(lobby, catalog, player_id, command) == (lobby, false),
        (command matches CommandView::Team { slot, .. } && human_slot_spec(lobby.slots, player_id) != Some(slot as int))
            ==> lobby_after_command(lobby, catalog, player_id, command) == (lobby, false),
        (command matches CommandView::Color { slot, .. } && human_slot_spec(lobby.slots, player_id) != Some(slot as int))
            ==> lobby_after_command(lobby, catalog, player_id, command) == (lobby, false),
{
}


/// The host's choice of a map in the catalog takes effect when the map has a
/// spawn for every human in the room and is not the current one: the room
/// then plays on that map, with one row per spawn, and the revision advances
/// (until it saturates). A map with too few spawns, the current map or one
/// missing from the catalog changes nothing.
pub proof fn law_host_map_choice_takes_effect(lobby: LobbyView, catalog: CatalogView, map_id: Seq<char>, m: int)
    requires
        map_position(catalog.maps, map_id) == Some(m),
        0 <= m < catalog.maps.len(),
    ensures
        ({
            let (after, changed) = lobby_after_command(lobby, catalog, lobby.host_player_id, CommandView::SelectMap { map_id });
            &&& changed == (catalog.maps[m].players >= human_count_spec(lobby.slots) && lobby.map_id != catalog.maps[m].id)
            &&& (changed ==> after.map_id == catalog.maps[m].id && after.slots.len() == catalog.maps[m].players
                && after.host_player_id == lobby.host_player_id
                && (lobby.revision < u64::MAX ==> after.revision == lobby.revision + 1))
            &&& (!changed ==> after == lobby)
        }),
{
}

/// The host's choice of starting resources or victory condition takes effect
/// when the catalog offers it: the room afterwards holds the chosen index,
/// the command reports a change exactly when the index was another one, a
/// change advances the revision by one (until it saturates), and nothing
/// else in the room moves. A choice beyond the catalog changes nothing.
pub proof fn law_host_settings_take_effect(lobby: LobbyView, catalog: CatalogView, index: usize)
    ensures
        index < catalog.victory_condition_count ==> {
            let (after, changed) = lobby_after_command(lobby, catalog, lobby.host_player_id, CommandView::VictoryCondition(index));
            &&& after.victory_condition_index == index
            &&& changed == (lobby.victory_condition_index != index)
            &&& after.starting_resources_index == lobby.starting_resources_index
            &&& after.map_id == lobby.map_id
            &&& after.slots == lobby.slots
            &&& after.host_player_id == lobby.host_player_id
            &&& after.room_code == lobby.room_code
            &&& (changed && lobby.revision < u64::MAX ==> after.revision == lobby.revision + 1)
            &&& (!changed ==> after == lobby)
        },
        index >= catalog.victory_condition_count ==> lobby_after_command(
            lobby,
            catalog,
            lobby.host_player_id,
            CommandView::VictoryCondition(index),
        ) == (lobby, false),
        index < catalog.starting_resource_option_count ==> {
            let (after, changed) = lobby_after_command(lobby, catalog, lobby.host_player_id, CommandView::StartingResources(index));
            &&& after.starting_resources_index == index
            &&& changed == (lobby.starting_resources_index != index)
            &&& after.victory_condition_index == lobby.victory_condition_index
            &&& after.map_id == lobby.map_id
            &&& after.slots == lobby.slots
            &&& after.host_player_id == lobby.host_player_id
            &&& after.room_code == lobby.room_code
            &&& (changed && lobby.revision < u64::MAX ==> after.revision == lobby.revision + 1)
            &&& (!changed ==> after == lobby)
        },
        index >= catalog.starting_resource_option_count ==> lobby_after_command(
            lobby,
            catalog,
            lobby.host_player_id,
            CommandView::StartingResources(index),
        ) == (lobby, false),
{
}

/// A slot found for a player lies in the list and holds that player.
proof fn lemma_human_slot_found(slots: Seq<SlotView>, player_id: u64, from: int)
    ensures
        human_slot_from(slots, player_id, from) matches Some(r) ==> from <= r < slots.len()
            && is_player_view(slots[r].occupant, player_id),
    decreases slots.len() - from,
{
    if from >= 0 && from < slots.len() && !is_player_view(slots[from].occupant, player_id) {
        lemma_human_slot_found(slots, player_id, from + 1);
    }
}

/// A player's ready toggle lands on their own row: afterwards that row says
/// ready exactly as asked, the player stays seated there, and the command
/// reports a change exactly when the row said otherwise before.
pub proof fn law_ready_lands_on_own_row(lobby: LobbyView, catalog: CatalogView, player_id: u64, ready: bool, row: int)
    requires
        human_slot_spec(lobby.slots, player_id) == Some(row),
    ensures
        0 <= row < lobby.slots.len(),
        lobby_after_command(lobby, catalog, player_id, CommandView::Ready(ready)).0.slots[row].occupant
            matches OccupantView::Human { player_id: id, ready: r, .. } && id == player_id && r == ready,
        lobby_after_command(lobby, catalog, player_id, CommandView::Ready(ready)).1 == (lobby.slots[row].occupant->ready != ready),
        lobby_after_command(lobby, catalog, player_id, CommandView::Ready(ready)).0.slots.len() == lobby.slots.len(),
{
    lemma_human_slot_found(lobby.slots, player_id, 0);
}

/// A player's edit of their own row lands there: afterwards the row has the
/// faction asked for, the team asked for (wrapped to the lobby's size) or the
/// color asked for (wrapped to the palette), the player stays seated in it,
/// the command reports a change exactly when the value was another one, and
/// every other row stays as it was.
pub proof fn law_own_row_edits_land(lobby: LobbyView, catalog: CatalogView, player_id: u64, row: usize, faction: Faction, team_id: usize, color_slot: usize)
    requires
        human_slot_spec(lobby.slots, player_id) == Some(row as int),
        catalog.max_lobby_slots > 0,
        catalog.color_palette_len > 0,
    ensures
        ({
            let (after, changed) = lobby_after_command(lobby, catalog, player_id, CommandView::Faction { slot: row, faction });
            &&& after.slots.len() == lobby.slots.len()
            &&& after.slots[row as int].faction == faction
            &&& after.slots[row as int].occupant == lobby.slots[row as int].occupant
            &&& changed == (lobby.slots[row as int].faction != faction)
            &&& forall|j: int| 0 <= j < lobby.slots.len() && j != row ==> #[trigger] after.slots[j] == lobby.slots[j]
        }),
        ({
            let (after, changed) = lobby_after_command(lobby, catalog, player_id, CommandView::Team { slot: row, team_id });
            &&& after.slots.len() == lobby.slots.len()
            &&& after.slots[row as int].team_id == team_id % catalog.max_lobby_slots
            &&& after.slots[row as int].team_id < catalog.max_lobby_slots
            &&& after.slots[row as int].occupant == lobby.slots[row as int].occupant
            &&& changed == (lobby.slots[row as int].team_id != team_id % catalog.max_lobby_slots)
            &&& forall|j: int| 0 <= j < lobby.slots.len() && j != row ==> #[trigger] after.slots[j] == lobby.slots[j]
        }),
        ({
            let (after, changed) = lobby_after_command(lobby, catalog, player_id, CommandView::Color { slot: row, color_slot });
            &&& after.slots.len() == lobby.slots.len()
            &&& after.slots[row as int].color_slot == color_slot % catalog.color_palette_len
            &&& after.slots[row as int].color_slot < catalog.color_palette_len
            &&& after.slots[row as int].occupant == lobby.slots[row as int].occupant
            &&& changed == (lobby.slots[row as int].color_slot != color_slot % catalog.color_palette_len)
            &&& forall|j: int| 0 <= j < lobby.slots.len() && j != row ==> #[trigger] after.slots[j] == lobby.slots[j]
        }),
{
    lemma_human_slot_found(lobby.slots, player_id, 0);
}

/// The host seats an AI, opens or closes a row that no human holds: the row
/// afterwards holds exactly the occupant asked for, and the command reports a
/// change exactly when it held another one. A human row, or a human asked
/// for, is refused and changes nothing.
pub proof fn law_host_sets_non_human_rows(lobby: LobbyView, catalog: CatalogView, row: usize, occupant: OccupantView)
    requires
        row < lobby.slots.len(),
    ensures
        !is_human_view(lobby.slots[row as int].occupant) && !is_human_view(occupant) ==> {
            let (after, changed) = lobby_after_command(lobby, catalog, lobby.host_player_id, CommandView::SlotOccupant { slot: row, occupant });
            &&& after.slots.len() == lobby.slots.len()
            &&& after.slots[row as int].occupant == occupant
            &&& changed == (lobby.slots[row as int].occupant != occupant)
            &&& forall|j: int| 0 <= j < lobby.slots.len() && j != row ==> #[trigger] after.slots[j] == lobby.slots[j]
        },
        is_human_view(lobby.slots[row as int].occupant) || is_human_view(occupant) ==> lobby_after_command(
            lobby,
            catalog,
            lobby.host_player_id,
            CommandView::SlotOccupant { slot: row, occupant },
        ) == (lobby, false),
{
}

/// The match waits for every human in the room: while some human row is not
/// ready, or not connected, the humans are not all ready and the host cannot
/// start. With at least two humans, all of them ready and connected, the
/// humans are ready.
pub proof fn law_match_waits_for_every_human(slots: Seq<SlotView>, row: int)
    ensures
        0 <= row < slots.len() && (slots[row].occupant matches OccupantView::Human { ready, .. } && !ready)
            ==> !connected_humans_ready_spec(slots) && !can_start_spec(slots),
        0 <= row < slots.len() && (slots[row].occupant matches OccupantView::Human { connected, .. } && !connected)
            ==> !connected_humans_ready_spec(slots) && !can_start_spec(slots),
        human_count_spec(slots) >= 2 && (forall|i: int| 0 <= i < slots.len() ==>
            (#[trigger] slots[i].occupant matches OccupantView::Human { ready, connected, .. } ==> ready && connected))
            ==> connected_humans_ready_spec(slots),
{
    if 0 <= row < slots.len() && is_human_view(slots[row].occupant) {
        assert(is_human_view(slots[row].occupant));
    }
}

} // verus!
