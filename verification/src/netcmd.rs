//! The host-authoritative match protocol: stable network ids, player command
//! envelopes with replay protection, world-snapshot ordering, and the host's
//! ownership checks on the entities a command names.

use vstd::prelude::*;

use crate::host::RTS_ONLINE_PROTOCOL;
use crate::table::{insert_entry, lemma_insert_lookup, lemma_unique_insert, lookup, lookup_u64, remove_key_u64, unique_keys};
use crate::orders::{HarvestLeg, QueuedOrder, UnitAbilities};
use crate::team::Team;
use crate::text::{utf8_bytes, utf8_bytes_capped};

verus! {

/// Ids of map-owned resource nodes carry this bit.
pub const NETWORK_RESOURCE_NAMESPACE: u64 = 0x4000_0000_0000_0000;
/// Ids of map-owned supply crates carry this bit.
pub const NETWORK_SUPPLY_CRATE_NAMESPACE: u64 = 0x8000_0000_0000_0000;
/// Largest map index that still fits below the namespace bits.
pub const NETWORK_MAP_INDEX_LIMIT: u64 = 0x4000_0000_0000_0000;

/// Network id of a dynamically spawned entity: its spawn counter.
pub fn network_id_dynamic(spawn_id: u32) -> (id: u64)
    ensures
        id == spawn_id as u64,
{
    spawn_id as u64
}

/// Network id of the map's `index`-th resource node.
pub fn network_id_map_resource(index: usize) -> (id: u64)
    ensures
        id == (NETWORK_RESOURCE_NAMESPACE | (index as u64)),
        (index as u64) < NETWORK_MAP_INDEX_LIMIT ==> id == NETWORK_RESOURCE_NAMESPACE + index,
{
    let raw = index as u64;
    let id = NETWORK_RESOURCE_NAMESPACE | raw;
    proof {
        if raw < NETWORK_MAP_INDEX_LIMIT {
            assert(raw < 0x4000_0000_0000_0000u64 ==> (0x4000_0000_0000_0000u64 | raw) == 0x4000_0000_0000_0000u64 + raw) by (bit_vector);
        }
    }
    id
}

/// Network id of the map's `index`-th supply crate.
pub fn network_id_supply_crate(index: usize) -> (id: u64)
    ensures
        id == (NETWORK_SUPPLY_CRATE_NAMESPACE | (index as u64)),
        (index as u64) < NETWORK_MAP_INDEX_LIMIT ==> id == NETWORK_SUPPLY_CRATE_NAMESPACE + index,
{
    let raw = index as u64;
    let id = NETWORK_SUPPLY_CRATE_NAMESPACE | raw;
    proof {
        if raw < NETWORK_MAP_INDEX_LIMIT {
            assert(raw < 0x4000_0000_0000_0000u64 ==> (0x8000_0000_0000_0000u64 | raw) == 0x8000_0000_0000_0000u64 + raw) by (bit_vector);
        }
    }
    id
}

/// Dynamic entities, resource nodes and supply crates never share a network
/// id, and distinct map indices give distinct ids, for every spawn counter and
/// every map index below the namespace bits.
pub proof fn law_network_namespaces_disjoint(spawn_id: u32, i: u64, j: u64)
    requires
        i < NETWORK_MAP_INDEX_LIMIT,
        j < NETWORK_MAP_INDEX_LIMIT,
    ensures
        (spawn_id as u64) != (NETWORK_RESOURCE_NAMESPACE | i),
        (spawn_id as u64) != (NETWORK_SUPPLY_CRATE_NAMESPACE | i),
        (NETWORK_RESOURCE_NAMESPACE | i) != (NETWORK_SUPPLY_CRATE_NAMESPACE | j),
        i != j ==> (NETWORK_RESOURCE_NAMESPACE | i) != (NETWORK_RESOURCE_NAMESPACE | j),
        i != j ==> (NETWORK_SUPPLY_CRATE_NAMESPACE | i) != (NETWORK_SUPPLY_CRATE_NAMESPACE | j),
{
    let s = spawn_id as u64;
    assert(s < 0x1_0000_0000u64);
    assert(i < 0x4000_0000_0000_0000u64 ==> (0x4000_0000_0000_0000u64 | i) == 0x4000_0000_0000_0000u64 + i) by (bit_vector);
    assert(j < 0x4000_0000_0000_0000u64 ==> (0x4000_0000_0000_0000u64 | j) == 0x4000_0000_0000_0000u64 + j) by (bit_vector);
    assert(i < 0x4000_0000_0000_0000u64 ==> (0x8000_0000_0000_0000u64 | i) == 0x8000_0000_0000_0000u64 + i) by (bit_vector);
    assert(j < 0x4000_0000_0000_0000u64 ==> (0x8000_0000_0000_0000u64 | j) == 0x8000_0000_0000_0000u64 + j) by (bit_vector);
}

/// A player command stamped with the protocol version and a per-sender sequence number.
pub struct CommandEnvelope<C> {
    pub protocol: u16,
    pub sequence: u64,
    pub command: C,
}

/// Commands a peer has issued but not yet handed to the transport.
pub struct CommandOutbox<C> {
    pub next_sequence: u64,
    pub pending: Vec<CommandEnvelope<C>>,
}

impl<C> CommandOutbox<C> {
    pub fn new() -> (outbox: CommandOutbox<C>)
        ensures
            outbox.next_sequence == 0,
            outbox.pending@.len() == 0,
    {
        CommandOutbox { next_sequence: 0, pending: Vec::new() }
    }

    /// Stamp `command` with the next sequence number (saturating) and queue it.
    pub fn submit(&mut self, command: C)
        ensures
            final(self).next_sequence == if old(self).next_sequence < u64::MAX {
                (old(self).next_sequence + 1) as u64
            } else {
                old(self).next_sequence
            },
            final(self).pending@ == old(self).pending@.push(CommandEnvelope {
                protocol: RTS_ONLINE_PROTOCOL,
                sequence: final(self).next_sequence,
                command,
            }),
    {
        self.next_sequence = self.next_sequence.saturating_add(1);
        self.pending.push(CommandEnvelope { protocol: RTS_ONLINE_PROTOCOL, sequence: self.next_sequence, command });
    }

    /// Hand every queued envelope over, oldest first.
    pub fn drain(&mut self) -> (sent: Vec<CommandEnvelope<C>>)
        ensures
            sent@ == old(self).pending@,
            final(self).pending@.len() == 0,
            final(self).next_sequence == old(self).next_sequence,
    {
        let mut sent: Vec<CommandEnvelope<C>> = Vec::new();
        std::mem::swap(&mut sent, &mut self.pending);
        sent
    }

    /// Put envelopes the transport could not send back in front of the queue.
    pub fn requeue_front(&mut self, unsent: Vec<CommandEnvelope<C>>)
        ensures
            final(self).pending@ == unsent@ + old(self).pending@,
            final(self).next_sequence == old(self).next_sequence,
    {
        let mut queue = unsent;
        let mut rest: Vec<CommandEnvelope<C>> = Vec::new();
        std::mem::swap(&mut rest, &mut self.pending);
        queue.append(&mut rest);
        self.pending = queue;
    }

    /// Outside a match nothing is sent: drop the queue.
    pub fn clear(&mut self)
        ensures
            final(self).pending@.len() == 0,
            final(self).next_sequence == old(self).next_sequence,
    {
        self.pending = Vec::new();
    }
}

/// Commands the host has accepted, with the newest sequence seen per player.
pub struct CommandInbox<C> {
    pub last_sequence_by_player: Vec<(u64, u64)>,
    pub pending: Vec<(u64, C)>,
}

/// The newest sequence accepted from `player_id` (0 before any).
pub open spec fn last_sequence(entries: Seq<(u64, u64)>, player_id: u64) -> u64 {
    match lookup(entries, player_id) {
        Some(sequence) => sequence,
        None => 0,
    }
}

/// An envelope is accepted when it speaks this protocol and its sequence is
/// positive and newer than the sender's last accepted one.
pub open spec fn envelope_accepted(entries: Seq<(u64, u64)>, player_id: u64, protocol: u16, sequence: u64) -> bool {
    protocol == RTS_ONLINE_PROTOCOL && sequence != 0 && sequence > last_sequence(entries, player_id)
}

impl<C> CommandInbox<C> {
    pub fn new() -> (inbox: CommandInbox<C>)
        ensures
            inbox.last_sequence_by_player@.len() == 0,
            inbox.pending@.len() == 0,
            inbox.well_formed(),
    {
        CommandInbox { last_sequence_by_player: Vec::new(), pending: Vec::new() }
    }

    /// One sequence record per player.
    pub open spec fn well_formed(&self) -> bool {
        unique_keys(self.last_sequence_by_player@)
    }

    /// Accept `envelope` from `player_id` unless it is stale, replayed or of
    /// another protocol; an accepted command is queued and its sequence recorded.
    pub fn enqueue(&mut self, player_id: u64, envelope: CommandEnvelope<C>) -> (accepted: bool)
        requires
            old(self).well_formed(),
        ensures
            final(self).well_formed(),
            accepted == envelope_accepted(old(self).last_sequence_by_player@, player_id, envelope.protocol, envelope.sequence),
            accepted ==> final(self).last_sequence_by_player@
                == insert_entry(old(self).last_sequence_by_player@, player_id, envelope.sequence),
            accepted ==> final(self).pending@ == old(self).pending@.push((player_id, envelope.command)),
            !accepted ==> final(self).last_sequence_by_player@ == old(self).last_sequence_by_player@,
            !accepted ==> final(self).pending@ == old(self).pending@,
    {
        if envelope.protocol != RTS_ONLINE_PROTOCOL || envelope.sequence == 0 {
            return false;
        }
        let previous = match lookup_u64(&self.last_sequence_by_player, player_id) {
            Some(sequence) => sequence,
            None => 0,
        };
        if envelope.sequence <= previous {
            return false;
        }
        proof {
            lemma_unique_insert(self.last_sequence_by_player@, player_id, envelope.sequence);
        }
        remove_key_u64(&mut self.last_sequence_by_player, player_id);
        self.last_sequence_by_player.push((player_id, envelope.sequence));
        self.pending.push((player_id, envelope.command));
        true
    }

    /// Hand every accepted command over, oldest first.
    pub fn take_pending(&mut self) -> (commands: Vec<(u64, C)>)
        ensures
            commands@ == old(self).pending@,
            final(self).pending@.len() == 0,
            final(self).last_sequence_by_player@ == old(self).last_sequence_by_player@,
    {
        let mut commands: Vec<(u64, C)> = Vec::new();
        std::mem::swap(&mut commands, &mut self.pending);
        commands
    }
}

/// Once an envelope with sequence `s` from a player is accepted, no envelope
/// from that player with a sequence at most `s` is accepted again: replays and
/// reorderings are refused, whatever other players send in between.
pub proof fn law_accepted_sequence_blocks_replays(entries: Seq<(u64, u64)>, player_id: u64, sequence: u64, other_player: u64, other_sequence: u64, replay: u64, protocol: u16)
    requires
        envelope_accepted(entries, player_id, RTS_ONLINE_PROTOCOL, sequence),
        other_player != player_id,
        replay <= sequence,
    ensures
        !envelope_accepted(insert_entry(entries, player_id, sequence), player_id, protocol, replay),
        !envelope_accepted(insert_entry(insert_entry(entries, player_id, sequence), other_player, other_sequence), player_id, protocol, replay),
{
    lemma_insert_lookup(entries, player_id, sequence, player_id);
    lemma_insert_lookup(insert_entry(entries, player_id, sequence), other_player, other_sequence, player_id);
}

/// The sequence table and the accepted commands after `player_id`'s
/// envelopes arrive in order, each accepted or refused as `enqueue` does.
pub open spec fn inbox_after<C>(
    sequences: Seq<(u64, u64)>,
    pending: Seq<(u64, C)>,
    player_id: u64,
    envelopes: Seq<CommandEnvelope<C>>,
) -> (Seq<(u64, u64)>, Seq<(u64, C)>)
    decreases envelopes.len(),
{
    if envelopes.len() == 0 {
        (sequences, pending)
    } else {
        let before = inbox_after(sequences, pending, player_id, envelopes.drop_last());
        let envelope = envelopes.last();
        if envelope_accepted(before.0, player_id, envelope.protocol, envelope.sequence) {
            (insert_entry(before.0, player_id, envelope.sequence), before.1.push((player_id, envelope.command)))
        } else {
            before
        }
    }
}

/// The host flushes its own queued commands straight into its inbox as
/// `player_id`, oldest first; returns how many were accepted.
pub fn flush_to_inbox<C>(outbox: &mut CommandOutbox<C>, inbox: &mut CommandInbox<C>, player_id: u64) -> (accepted: usize)
    requires
        old(inbox).well_formed(),
    ensures
        final(inbox).well_formed(),
        final(outbox).pending@.len() == 0,
        final(outbox).next_sequence == old(outbox).next_sequence,
        (final(inbox).last_sequence_by_player@, final(inbox).pending@)
            == inbox_after(old(inbox).last_sequence_by_player@, old(inbox).pending@, player_id, old(outbox).pending@),
        accepted == final(inbox).pending@.len() - old(inbox).pending@.len(),
{
    let envelopes = outbox.drain();
    let ghost all = envelopes@;
    let ghost start_sequences = inbox.last_sequence_by_player@;
    let ghost start_pending = inbox.pending@;
    let mut accepted: usize = 0;
    let total = envelopes.len();
    let mut remaining = envelopes;
    while remaining.len() > 0
        invariant
            inbox.well_formed(),
            total == all.len(),
            remaining@.len() <= total,
            remaining@ == all.skip(total - remaining@.len()),
            (inbox.last_sequence_by_player@, inbox.pending@)
                == inbox_after(start_sequences, start_pending, player_id, all.take(total - remaining@.len())),
            accepted <= total - remaining@.len(),
            inbox.pending@.len() == start_pending.len() + accepted,
        decreases remaining.len(),
    {
        let ghost done = total - remaining@.len();
        proof {
            assert(all.take(done + 1).drop_last() =~= all.take(done));
            assert(all.take(done + 1).last() == all[done]);
            assert(remaining@[0] == all[done]);
        }
        let envelope = remaining.remove(0);
        if inbox.enqueue(player_id, envelope) {
            accepted = accepted + 1;
        }
        proof {
            assert(remaining@ =~= all.skip(total - remaining@.len()));
        }
    }
    proof {
        assert(all.take(total as int) =~= all);
    }
    accepted
}

/// Snapshot replication state of one peer. `S` is the snapshot payload.
pub struct Replication<S> {
    pub next_tick: u64,
    pub last_applied_tick: u64,
    pub pending: Option<(u64, S)>,
}

impl<S> Replication<S> {
    pub fn new() -> (replication: Replication<S>)
        ensures
            replication.next_tick == 0,
            replication.last_applied_tick == 0,
            replication.pending is None,
    {
        Replication { next_tick: 0, last_applied_tick: 0, pending: None }
    }

    /// Keep an arriving snapshot when it speaks this protocol and is newer than
    /// both the last applied snapshot and the one waiting to be applied.
    pub fn queue_snapshot(&mut self, protocol: u16, tick: u64, snapshot: S) -> (queued: bool)
        ensures
            queued == (protocol == RTS_ONLINE_PROTOCOL && tick > old(self).last_applied_tick
                && !(old(self).pending matches Some((pending_tick, _)) && pending_tick >= tick)),
            queued ==> final(self).pending == Some((tick, snapshot)),
            !queued ==> final(self).pending == old(self).pending,
            final(self).last_applied_tick == old(self).last_applied_tick,
            final(self).next_tick == old(self).next_tick,
    {
        if protocol != RTS_ONLINE_PROTOCOL || tick <= self.last_applied_tick {
            return false;
        }
        match &self.pending {
            Some((pending_tick, _)) => {
                if *pending_tick >= tick {
                    return false;
                }
            },
            None => {},
        }
        self.pending = Some((tick, snapshot));
        true
    }

    /// Take the waiting snapshot for application: only one newer than the
    /// last applied tick is returned, and its tick becomes the last applied.
    pub fn take_for_apply(&mut self) -> (snapshot: Option<S>)
        ensures
            final(self).pending is None,
            final(self).next_tick == old(self).next_tick,
            match old(self).pending {
                Some((tick, payload)) => if tick > old(self).last_applied_tick {
                    snapshot == Some(payload) && final(self).last_applied_tick == tick
                } else {
                    snapshot is None && final(self).last_applied_tick == old(self).last_applied_tick
                },
                None => snapshot is None && final(self).last_applied_tick == old(self).last_applied_tick,
            },
            snapshot is Some ==> final(self).last_applied_tick > old(self).last_applied_tick,
    {
        let pending = self.pending.take();
        match pending {
            Some((tick, payload)) => {
                if tick <= self.last_applied_tick {
                    None
                } else {
                    self.last_applied_tick = tick;
                    Some(payload)
                }
            },
            None => None,
        }
    }

    /// The host's next broadcast tick (saturating).
    pub fn advance_tick(&mut self) -> (tick: u64)
        ensures
            tick == final(self).next_tick,
            final(self).next_tick == if old(self).next_tick < u64::MAX { (old(self).next_tick + 1) as u64 } else { old(self).next_tick },
            final(self).last_applied_tick == old(self).last_applied_tick,
    {
        self.next_tick = self.next_tick.saturating_add(1);
        self.next_tick
    }
}

/// At most this many unit orders in one command.
pub const ONLINE_MAX_UNIT_ORDERS_PER_COMMAND: usize = 256;
/// At most this many units in one instant unit action.
pub const ONLINE_MAX_UNIT_ACTIONS_PER_COMMAND: usize = 256;
/// At most this many structures in one rally command.
pub const ONLINE_MAX_RALLY_STRUCTURES_PER_COMMAND: usize = 64;
/// At most this many producers in one production command.
pub const ONLINE_MAX_PRODUCERS_PER_COMMAND: usize = 64;
/// At most this many structures in one structure action.
pub const ONLINE_MAX_STRUCTURE_ACTIONS_PER_COMMAND: usize = 64;
/// At most this many constructors in one placement command.
pub const ONLINE_MAX_CONSTRUCTORS_PER_COMMAND: usize = 64;

/// An entity kind named in a command is at most this many bytes long.
pub const ONLINE_MAX_ENTITY_ID_BYTES: usize = 64;

/// Whether a peer may name an entity kind by `id`: it is not empty and at
/// most `ONLINE_MAX_ENTITY_ID_BYTES` long in UTF-8 (the kind must then
/// still be known to the registry).
pub fn online_entity_id_acceptable(id: &str) -> (acceptable: bool)
    ensures
        acceptable == (id@.len() > 0 && utf8_bytes(id@) <= ONLINE_MAX_ENTITY_ID_BYTES),
{
    let bytes = utf8_bytes_capped(id, ONLINE_MAX_ENTITY_ID_BYTES + 1);
    proof {
        if id@.len() > 0 {
            assert(utf8_bytes(id@) >= 1);
        }
    }
    bytes > 0 && bytes <= ONLINE_MAX_ENTITY_ID_BYTES
}

/// What the host knows of an entity a command may name.
#[derive(Clone, Copy, Debug, PartialEq, Eq, Structural)]
pub struct EntityFacts {
    pub network_id: u64,
    pub team: Team,
    /// A unit that can receive orders.
    pub is_unit: bool,
    pub is_structure: bool,
    /// Has health, and more than none of it.
    pub alive: bool,
    /// Not a foundation under construction.
    pub constructed: bool,
    /// A unit that can build structures.
    pub can_construct: bool,
    /// A structure that can produce the requested product for its faction.
    pub can_produce: bool,
}

/// Which entities a command may name.
#[derive(Clone, Copy, Debug, PartialEq, Eq, Structural)]
pub enum Eligibility {
    OwnedUnit,
    OwnedStructure,
    OwnedConstructedStructure,
    Producer,
    Constructor,
}

pub open spec fn eligible(kind: Eligibility, team: Team, facts: EntityFacts) -> bool {
    &&& facts.team == team
    &&& facts.alive
    &&& match kind {
        Eligibility::OwnedUnit => facts.is_unit,
        Eligibility::OwnedStructure => facts.is_structure,
        Eligibility::OwnedConstructedStructure => facts.is_structure && facts.constructed,
        Eligibility::Producer => facts.is_structure && facts.constructed && facts.can_produce,
        Eligibility::Constructor => facts.is_unit && facts.can_construct,
    }
}

/// The first entity at or after `from` with network id `id`.
pub open spec fn entity_with_id_from(entities: Seq<EntityFacts>, id: u64, from: int) -> Option<int>
    decreases entities.len() - from,
{
    if from < 0 || from >= entities.len() {
        None
    } else if entities[from].network_id == id {
        Some(from)
    } else {
        entity_with_id_from(entities, id, from + 1)
    }
}

pub open spec fn entity_with_id(entities: Seq<EntityFacts>, id: u64) -> Option<int> {
    entity_with_id_from(entities, id, 0)
}

/// Every requested id names an entity that passes the check.
pub open spec fn all_eligible(kind: Eligibility, team: Team, requested: Seq<u64>, entities: Seq<EntityFacts>) -> bool {
    forall|k: int| 0 <= k < requested.len() ==> match #[trigger] entity_with_id(entities, requested[k]) {
        Some(e) => eligible(kind, team, entities[e]),
        None => false,
    }
}

pub open spec fn no_duplicates(ids: Seq<u64>) -> bool {
    forall|a: int, b: int| 0 <= a < b < ids.len() ==> #[trigger] ids[a] != #[trigger] ids[b]
}

/// A request is granted when its size is within bounds, it names no entity
/// twice, and every entity it names passes the check.
pub open spec fn request_granted(kind: Eligibility, team: Team, requested: Seq<u64>, entities: Seq<EntityFacts>, maximum: usize, allow_empty: bool) -> bool {
    &&& (allow_empty || requested.len() > 0)
    &&& requested.len() <= maximum
    &&& no_duplicates(requested)
    &&& all_eligible(kind, team, requested, entities)
}

fn find_entity(entities: &Vec<EntityFacts>, id: u64) -> (found: Option<usize>)
    ensures
        match found {
            Some(i) => entity_with_id(entities@, id) == Some(i as int) && i < entities@.len(),
            None => entity_with_id(entities@, id) is None,
        },
{
    let mut index: usize = 0;
    while index < entities.len()
        invariant
            index <= entities.len(),
            entity_with_id_from(entities@, id, index as int) == entity_with_id(entities@, id),
        decreases entities.len() - index,
    {
        if entities[index].network_id == id {
            return Some(index);
        }
        index = index + 1;
    }
    None
}

fn passes(kind: Eligibility, team: Team, facts: &EntityFacts) -> (ok: bool)
    ensures
        ok == eligible(kind, team, *facts),
{
    facts.team == team && facts.alive && match kind {
        Eligibility::OwnedUnit => facts.is_unit,
        Eligibility::OwnedStructure => facts.is_structure,
        Eligibility::OwnedConstructedStructure => facts.is_structure && facts.constructed,
        Eligibility::Producer => facts.is_structure && facts.constructed && facts.can_produce,
        Eligibility::Constructor => facts.is_unit && facts.can_construct,
    }
}

/// The entities a command names, as positions in `entities`, when the host
/// grants the request; `None` when any check fails.
pub fn resolve_owned_entities(
    kind: Eligibility,
    team: Team,
    requested: &Vec<u64>,
    entities: &Vec<EntityFacts>,
    maximum: usize,
    allow_empty: bool,
) -> (resolved: Option<Vec<usize>>)
    ensures
        resolved is Some <==> request_granted(kind, team, requested@, entities@, maximum, allow_empty),
        resolved matches Some(positions) ==> positions@.len() == requested@.len()
            && forall|k: int| 0 <= k < requested@.len() ==> entity_with_id(entities@, requested@[k]) == Some(#[trigger] positions@[k] as int),
{
    if (!allow_empty && requested.len() == 0) || requested.len() > maximum {
        return None;
    }
    let mut positions: Vec<usize> = Vec::new();
    let mut k: usize = 0;
    while k < requested.len()
        invariant
            k <= requested@.len(),
            positions@.len() == k,
            no_duplicates(requested@.take(k as int)),
            forall|j: int| 0 <= j < k ==> entity_with_id(entities@, requested@[j]) == Some(#[trigger] positions@[j] as int),
            forall|j: int| 0 <= j < k ==> match #[trigger] entity_with_id(entities@, requested@[j]) {
                Some(e) => eligible(kind, team, entities@[e]),
                None => false,
            },
        decreases requested@.len() - k,
    {
        let id = requested[k];
        let mut j: usize = 0;
        while j < k
            invariant
                j <= k,
                k < requested@.len(),
                id == requested@[k as int],
                forall|a: int| 0 <= a < j ==> requested@[a] != id,
            decreases k - j,
        {
            if requested[j] == id {
                assert(!no_duplicates(requested@)) by {
                    assert(requested@[j as int] == requested@[k as int]);
                }
                return None;
            }
            j = j + 1;
        }
        let position = match find_entity(entities, id) {
            Some(position) => position,
            None => {
                assert(!all_eligible(kind, team, requested@, entities@)) by {
                    assert(entity_with_id(entities@, requested@[k as int]) is None);
                }
                return None;
            },
        };
        if !passes(kind, team, &entities[position]) {
            assert(!all_eligible(kind, team, requested@, entities@)) by {
                assert(entity_with_id(entities@, requested@[k as int]) == Some(position as int));
            }
            return None;
        }
        positions.push(position);
        assert(no_duplicates(requested@.take(k + 1))) by {
            assert forall|a: int, b: int| 0 <= a < b < k + 1 implies
                #[trigger] requested@.take(k + 1)[a] != #[trigger] requested@.take(k + 1)[b] by {
                if b < k {
                    assert(requested@.take(k as int)[a] != requested@.take(k as int)[b]);
                }
            }
        }
        k = k + 1;
    }
    assert(requested@.take(requested@.len() as int) =~= requested@);
    Some(positions)
}

/// Units named by an instant unit action.
pub fn resolve_owned_online_unit_entities(team: Team, requested: &Vec<u64>, entities: &Vec<EntityFacts>) -> (resolved: Option<Vec<usize>>)
    ensures
        resolved is Some <==> request_granted(Eligibility::OwnedUnit, team, requested@, entities@, ONLINE_MAX_UNIT_ACTIONS_PER_COMMAND, false),
        resolved matches Some(positions) ==> positions@.len() == requested@.len()
            && forall|k: int| 0 <= k < requested@.len() ==> entity_with_id(entities@, requested@[k]) == Some(#[trigger] positions@[k] as int),
{
    resolve_owned_entities(Eligibility::OwnedUnit, team, requested, entities, ONLINE_MAX_UNIT_ACTIONS_PER_COMMAND, false)
}

/// Structures named by a sell, repair or cancel action.
pub fn resolve_owned_online_action_structures(team: Team, requested: &Vec<u64>, entities: &Vec<EntityFacts>) -> (resolved: Option<Vec<usize>>)
    ensures
        resolved is Some <==> request_granted(Eligibility::OwnedStructure, team, requested@, entities@, ONLINE_MAX_STRUCTURE_ACTIONS_PER_COMMAND, false),
        resolved matches Some(positions) ==> positions@.len() == requested@.len()
            && forall|k: int| 0 <= k < requested@.len() ==> entity_with_id(entities@, requested@[k]) == Some(#[trigger] positions@[k] as int),
{
    resolve_owned_entities(Eligibility::OwnedStructure, team, requested, entities, ONLINE_MAX_STRUCTURE_ACTIONS_PER_COMMAND, false)
}

/// Producers named by a training command.
pub fn resolve_online_producers(team: Team, requested: &Vec<u64>, entities: &Vec<EntityFacts>) -> (resolved: Option<Vec<usize>>)
    ensures
        resolved is Some <==> request_granted(Eligibility::Producer, team, requested@, entities@, ONLINE_MAX_PRODUCERS_PER_COMMAND, false),
        resolved matches Some(positions) ==> positions@.len() == requested@.len()
            && forall|k: int| 0 <= k < requested@.len() ==> entity_with_id(entities@, requested@[k]) == Some(#[trigger] positions@[k] as int),
{
    resolve_owned_entities(Eligibility::Producer, team, requested, entities, ONLINE_MAX_PRODUCERS_PER_COMMAND, false)
}

/// Finished structures named by a cancel-production command.
pub fn resolve_owned_online_structure_entities(team: Team, requested: &Vec<u64>, maximum: usize, entities: &Vec<EntityFacts>) -> (resolved: Option<Vec<usize>>)
    ensures
        resolved is Some <==> request_granted(Eligibility::OwnedConstructedStructure, team, requested@, entities@, maximum, false),
        resolved matches Some(positions) ==> positions@.len() == requested@.len()
            && forall|k: int| 0 <= k < requested@.len() ==> entity_with_id(entities@, requested@[k]) == Some(#[trigger] positions@[k] as int),
{
    resolve_owned_entities(Eligibility::OwnedConstructedStructure, team, requested, entities, maximum, false)
}

/// Builders named by a placement command (none is allowed: the host then
/// picks the nearest builder).
pub fn resolve_online_constructors(team: Team, requested: &Vec<u64>, entities: &Vec<EntityFacts>) -> (resolved: Option<Vec<usize>>)
    ensures
        resolved is Some <==> request_granted(Eligibility::Constructor, team, requested@, entities@, ONLINE_MAX_CONSTRUCTORS_PER_COMMAND, true),
        resolved matches Some(positions) ==> positions@.len() == requested@.len()
            && forall|k: int| 0 <= k < requested@.len() ==> entity_with_id(entities@, requested@[k]) == Some(#[trigger] positions@[k] as int),
{
    resolve_owned_entities(Eligibility::Constructor, team, requested, entities, ONLINE_MAX_CONSTRUCTORS_PER_COMMAND, true)
}

/// Whether `id` occurs among the first `count` of `ids`.
pub open spec fn seen_before(ids: Seq<u64>, id: u64, count: int) -> bool {
    exists|j: int| 0 <= j < count && ids[j] == id
}

/// Positions of the unit orders the host considers: a batch of 1 to 256
/// orders, each unit at its first order only (later orders for the same unit
/// are skipped).
pub fn unit_order_positions(unit_ids: &Vec<u64>) -> (positions: Vec<usize>)
    ensures
        (unit_ids@.len() == 0 || unit_ids@.len() > ONLINE_MAX_UNIT_ORDERS_PER_COMMAND) ==> positions@.len() == 0,
        0 < unit_ids@.len() <= ONLINE_MAX_UNIT_ORDERS_PER_COMMAND ==> positions@ == Seq::new(unit_ids@.len(), |k: int| k as usize)
            .filter(|k: usize| !seen_before(unit_ids@, unit_ids@[k as int], k as int)),
{
    if unit_ids.len() == 0 || unit_ids.len() > ONLINE_MAX_UNIT_ORDERS_PER_COMMAND {
        return Vec::new();
    }
    let ghost all = Seq::new(unit_ids@.len(), |k: int| k as usize);
    let ghost keep = |k: usize| !seen_before(unit_ids@, unit_ids@[k as int], k as int);
    let mut positions: Vec<usize> = Vec::new();
    let mut k: usize = 0;
    while k < unit_ids.len()
        invariant
            k <= unit_ids@.len(),
            all == Seq::new(unit_ids@.len(), |k: int| k as usize),
            keep == |k: usize| !seen_before(unit_ids@, unit_ids@[k as int], k as int),
            positions@ == all.take(k as int).filter(keep),
        decreases unit_ids@.len() - k,
    {
        let id = unit_ids[k];
        let mut j: usize = 0;
        let mut seen = false;
        while j < k
            invariant
                j <= k,
                k < unit_ids@.len(),
                id == unit_ids@[k as int],
                seen == seen_before(unit_ids@, id, j as int),
            decreases k - j,
        {
            if unit_ids[j] == id {
                seen = true;
            }
            proof {
                if seen_before(unit_ids@, id, j + 1) && !seen_before(unit_ids@, id, j as int) {
                    assert(unit_ids@[j as int] == id);
                }
                if seen_before(unit_ids@, id, j as int) {
                    let w = choose|w: int| 0 <= w < j && unit_ids@[w] == id;
                    assert(0 <= w < j + 1 && unit_ids@[w] == id);
                }
                if unit_ids@[j as int] == id {
                    assert(seen_before(unit_ids@, id, j + 1));
                }
            }
            j = j + 1;
        }
        proof {
            assert(all.take(k + 1) =~= all.take(k as int).push(k as usize));
            all.take(k as int).lemma_filter_push(k as usize, keep);
        }
        if !seen {
            positions.push(k);
        }
        k = k + 1;
    }
    assert(all.take(unit_ids@.len() as int) =~= all);
    positions
}

/// What the host knows of the entity an order names, as plain facts.
#[derive(Clone, Copy, Debug, PartialEq, Eq, Structural)]
pub struct OrderTargetFacts {
    pub entity: u64,
    /// On the acting unit's team.
    pub same_team: bool,
    /// An enemy of the acting unit's team.
    pub enemy: bool,
    /// An ally of the acting unit's team.
    pub allied: bool,
    /// Its team is one the acting unit's team may capture from.
    pub capturable_team: bool,
    pub is_unit: bool,
    pub is_structure: bool,
    pub is_resource: bool,
    /// A resource node with something left in it.
    pub resource_left: bool,
    pub has_health: bool,
    /// Has health above zero (when it has health at all).
    pub alive: bool,
    pub constructed: bool,
    pub under_construction: bool,
    /// A structure the acting unit may garrison now.
    pub garrison_ok: bool,
    /// A structure that takes harvested resources.
    pub dropoff: bool,
    /// Something the acting unit may repair now.
    pub repairable: bool,
}

/// Where a harvest order sends the harvester.
#[derive(Clone, Copy, Debug, PartialEq, Eq, Structural)]
pub enum HarvestDestination {
    Resource,
    Dropoff,
}

/// A unit order as a player sent it, with the ground points already checked
/// against the map (`None` when a point lies off it) and the target looked up
/// (`None` when its network id is unknown).
#[derive(Clone, Copy, Debug, PartialEq, Eq, Structural)]
pub enum UnitOrderRequest<V> {
    Move { destination: Option<V> },
    Attack { target: Option<OrderTargetFacts> },
    Capture { target: Option<OrderTargetFacts> },
    Garrison { target: Option<OrderTargetFacts> },
    Harvest { target: Option<OrderTargetFacts>, destination: HarvestDestination },
    Repair { target: Option<OrderTargetFacts> },
    Construct { target: Option<OrderTargetFacts> },
    Follow { target: Option<OrderTargetFacts>, offset: V, offset_finite: bool, allow_enemy: bool },
    AttackMove { destination: Option<V> },
    Patrol { origin: V, destination: Option<V> },
}

/// The order the host lets a unit carry out for a player's request, or
/// `None` when the request is refused: the target must exist, not be the
/// unit itself, and suit the order and the unit's abilities.
pub open spec fn authorized_unit_order<V>(actor: u64, unit: UnitAbilities, request: UnitOrderRequest<V>) -> Option<QueuedOrder<V>> {
    match request {
        UnitOrderRequest::Move { destination } => match destination {
            Some(point) => if unit.movable { Some(QueuedOrder::Move(point)) } else { None },
            None => None,
        },
        UnitOrderRequest::Attack { target } => match target {
            Some(t) => if t.entity != actor && unit.armed && (t.is_unit || t.is_structure) && t.has_health && t.alive && t.enemy {
                Some(QueuedOrder::Attack(t.entity))
            } else {
                None
            },
            None => None,
        },
        UnitOrderRequest::Capture { target } => match target {
            Some(t) => if t.entity != actor && unit.can_capture && t.is_structure && t.has_health && t.alive && t.constructed
                && t.capturable_team {
                Some(QueuedOrder::Capture(t.entity))
            } else {
                None
            },
            None => None,
        },
        UnitOrderRequest::Garrison { target } => match target {
            Some(t) => if t.entity != actor && unit.can_garrison && t.is_structure && t.has_health && t.garrison_ok {
                Some(QueuedOrder::Garrison(t.entity))
            } else {
                None
            },
            None => None,
        },
        UnitOrderRequest::Harvest { target, destination } => match target {
            Some(t) => if !unit.can_collect || t.entity == actor {
                None
            } else {
                match destination {
                    HarvestDestination::Resource => if t.is_resource && t.resource_left {
                        Some(QueuedOrder::Harvest { target: t.entity, leg: HarvestLeg::MovingToResource })
                    } else {
                        None
                    },
                    HarvestDestination::Dropoff => if t.is_structure && t.dropoff && t.same_team && t.has_health && t.alive
                        && t.constructed {
                        Some(QueuedOrder::Harvest { target: t.entity, leg: HarvestLeg::MovingToDropoff })
                    } else {
                        None
                    },
                }
            },
            None => None,
        },
        UnitOrderRequest::Repair { target } => match target {
            Some(t) => if t.has_health && t.entity != actor && unit.can_repair && t.same_team && t.repairable {
                Some(QueuedOrder::Repair(t.entity))
            } else {
                None
            },
            None => None,
        },
        UnitOrderRequest::Construct { target } => match target {
            Some(t) => if t.entity != actor && unit.can_construct && t.same_team && t.is_structure && t.under_construction
                && t.has_health && t.alive {
                Some(QueuedOrder::Construct(t.entity))
            } else {
                None
            },
            None => None,
        },
        UnitOrderRequest::Follow { target, offset, offset_finite, allow_enemy } => match target {
            Some(t) => {
                let alive = (!t.has_health || t.alive) && (!t.is_resource || t.resource_left);
                let targetable = t.is_unit || t.is_structure || t.is_resource;
                if t.entity != actor && unit.movable && offset_finite && alive && targetable && (allow_enemy || t.allied) {
                    if allow_enemy {
                        Some(QueuedOrder::ForceFollow { target: t.entity, offset })
                    } else {
                        Some(QueuedOrder::Follow { target: t.entity, offset })
                    }
                } else {
                    None
                }
            },
            None => None,
        },
        UnitOrderRequest::AttackMove { destination } => if unit.movable && unit.armed {
            match destination {
                Some(point) => Some(QueuedOrder::AttackMove(point)),
                None => None,
            }
        } else {
            None
        },
        UnitOrderRequest::Patrol { origin, destination } => if unit.movable {
            match destination {
                Some(point) => Some(QueuedOrder::Patrol { origin, destination: point }),
                None => None,
            }
        } else {
            None
        },
    }
}

/// The order the host lets `actor` carry out for a player's request; see
/// `authorized_unit_order`.
pub fn resolve_online_unit_order<V: Copy>(actor: u64, unit: UnitAbilities, request: UnitOrderRequest<V>) -> (order: Option<QueuedOrder<V>>)
    ensures
        order == authorized_unit_order(actor, unit, request),
{
    match request {
        UnitOrderRequest::Move { destination } => match destination {
            Some(point) => if unit.movable { Some(QueuedOrder::Move(point)) } else { None },
            None => None,
        },
        UnitOrderRequest::Attack { target } => match target {
            Some(t) => if t.entity != actor && unit.armed && (t.is_unit || t.is_structure) && t.has_health && t.alive && t.enemy {
                Some(QueuedOrder::Attack(t.entity))
            } else {
                None
            },
            None => None,
        },
        UnitOrderRequest::Capture { target } => match target {
            Some(t) => if t.entity != actor && unit.can_capture && t.is_structure && t.has_health && t.alive && t.constructed
                && t.capturable_team {
                Some(QueuedOrder::Capture(t.entity))
            } else {
                None
            },
            None => None,
        },
        UnitOrderRequest::Garrison { target } => match target {
            Some(t) => if t.entity != actor && unit.can_garrison && t.is_structure && t.has_health && t.garrison_ok {
                Some(QueuedOrder::Garrison(t.entity))
            } else {
                None
            },
            None => None,
        },
        UnitOrderRequest::Harvest { target, destination } => match target {
            Some(t) => if !unit.can_collect || t.entity == actor {
                None
            } else {
                match destination {
                    HarvestDestination::Resource => if t.is_resource && t.resource_left {
                        Some(QueuedOrder::Harvest { target: t.entity, leg: HarvestLeg::MovingToResource })
                    } else {
                        None
                    },
                    HarvestDestination::Dropoff => if t.is_structure && t.dropoff && t.same_team && t.has_health && t.alive
                        && t.constructed {
                        Some(QueuedOrder::Harvest { target: t.entity, leg: HarvestLeg::MovingToDropoff })
                    } else {
                        None
                    },
                }
            },
            None => None,
        },
        UnitOrderRequest::Repair { target } => match target {
            Some(t) => if t.has_health && t.entity != actor && unit.can_repair && t.same_team && t.repairable {
                Some(QueuedOrder::Repair(t.entity))
            } else {
                None
            },
            None => None,
        },
        UnitOrderRequest::Construct { target } => match target {
            Some(t) => if t.entity != actor && unit.can_construct && t.same_team && t.is_structure && t.under_construction
                && t.has_health && t.alive {
                Some(QueuedOrder::Construct(t.entity))
            } else {
                None
            },
            None => None,
        },
        UnitOrderRequest::Follow { target, offset, offset_finite, allow_enemy } => match target {
            Some(t) => {
                let alive = (!t.has_health || t.alive) && (!t.is_resource || t.resource_left);
                let targetable = t.is_unit || t.is_structure || t.is_resource;
                if t.entity != actor && unit.movable && offset_finite && alive && targetable && (allow_enemy || t.allied) {
                    if allow_enemy {
                        Some(QueuedOrder::ForceFollow { target: t.entity, offset })
                    } else {
                        Some(QueuedOrder::Follow { target: t.entity, offset })
                    }
                } else {
                    None
                }
            },
            None => None,
        },
        UnitOrderRequest::AttackMove { destination } => if unit.movable && unit.armed {
            match destination {
                Some(point) => Some(QueuedOrder::AttackMove(point)),
                None => None,
            }
        } else {
            None
        },
        UnitOrderRequest::Patrol { origin, destination } => if unit.movable {
            match destination {
                Some(point) => Some(QueuedOrder::Patrol { origin, destination: point }),
                None => None,
            }
        } else {
            None
        },
    }
}

/// The host never lets a unit act on itself, whatever the request.
pub proof fn law_unit_orders_never_target_the_actor<V>(actor: u64, unit: UnitAbilities, request: UnitOrderRequest<V>)
    ensures
        match authorized_unit_order(actor, unit, request) {
            Some(QueuedOrder::Attack(target)) => target != actor,
            Some(QueuedOrder::Capture(target)) => target != actor,
            Some(QueuedOrder::Garrison(target)) => target != actor,
            Some(QueuedOrder::Harvest { target, .. }) => target != actor,
            Some(QueuedOrder::Repair(target)) => target != actor,
            Some(QueuedOrder::Construct(target)) => target != actor,
            Some(QueuedOrder::Follow { target, .. }) => target != actor,
            Some(QueuedOrder::ForceFollow { target, .. }) => target != actor,
            _ => true,
        },
{
}

/// The host keeps the kind of a ground order it grants: a unit that can move
/// and is sent to a point on the map moves there, patrols between the
/// requested origin and that point, or (when armed) attack-moves there; a
/// point off the map, or a unit that cannot move, gets no order.
pub proof fn law_ground_orders_keep_their_kind<V>(actor: u64, unit: UnitAbilities, origin: V, point: V)
    ensures
        unit.movable ==> authorized_unit_order(actor, unit, UnitOrderRequest::Move { destination: Some(point) })
            == Some(QueuedOrder::Move(point)),
        unit.movable ==> authorized_unit_order(actor, unit, UnitOrderRequest::Patrol { origin, destination: Some(point) })
            == Some(QueuedOrder::Patrol { origin, destination: point }),
        unit.movable && unit.armed ==> authorized_unit_order(
            actor,
            unit,
            UnitOrderRequest::AttackMove { destination: Some(point) },
        ) == Some(QueuedOrder::AttackMove(point)),
        !(unit.movable && unit.armed) ==> authorized_unit_order(
            actor,
            unit,
            UnitOrderRequest::AttackMove { destination: Some(point) },
        ) is None,
        !unit.movable ==> authorized_unit_order(actor, unit, UnitOrderRequest::Move { destination: Some(point) }) is None,
        !unit.movable ==> authorized_unit_order(actor, unit, UnitOrderRequest::Patrol { origin, destination: Some(point) })
            is None,
        authorized_unit_order(actor, unit, UnitOrderRequest::<V>::Move { destination: None }) is None,
        authorized_unit_order(actor, unit, UnitOrderRequest::<V>::AttackMove { destination: None }) is None,
        authorized_unit_order(actor, unit, UnitOrderRequest::Patrol { origin, destination: None }) is None,
{
}

/// A granted targeted order is the order asked for, on the target asked
/// for: an attack request yields at most an attack on that target, a capture
/// request a capture of it, and so on; a harvest keeps the requested leg, and
/// a follow is forced exactly when the request allows enemies.
pub proof fn law_targeted_orders_keep_kind_and_target<V>(
    actor: u64,
    unit: UnitAbilities,
    t: OrderTargetFacts,
    offset: V,
    offset_finite: bool,
    allow_enemy: bool,
)
    ensures
        authorized_unit_order(actor, unit, UnitOrderRequest::<V>::Attack { target: Some(t) }) matches Some(order)
            ==> order == QueuedOrder::<V>::Attack(t.entity),
        authorized_unit_order(actor, unit, UnitOrderRequest::<V>::Capture { target: Some(t) }) matches Some(order)
            ==> order == QueuedOrder::<V>::Capture(t.entity),
        authorized_unit_order(actor, unit, UnitOrderRequest::<V>::Garrison { target: Some(t) }) matches Some(order)
            ==> order == QueuedOrder::<V>::Garrison(t.entity),
        authorized_unit_order(actor, unit, UnitOrderRequest::<V>::Repair { target: Some(t) }) matches Some(order)
            ==> order == QueuedOrder::<V>::Repair(t.entity),
        authorized_unit_order(actor, unit, UnitOrderRequest::<V>::Construct { target: Some(t) }) matches Some(order)
            ==> order == QueuedOrder::<V>::Construct(t.entity),
        authorized_unit_order(actor, unit, UnitOrderRequest::<V>::Harvest { target: Some(t), destination: HarvestDestination::Resource })
            matches Some(order) ==> order == (QueuedOrder::<V>::Harvest { target: t.entity, leg: HarvestLeg::MovingToResource }),
        authorized_unit_order(actor, unit, UnitOrderRequest::<V>::Harvest { target: Some(t), destination: HarvestDestination::Dropoff })
            matches Some(order) ==> order == (QueuedOrder::<V>::Harvest { target: t.entity, leg: HarvestLeg::MovingToDropoff }),
        authorized_unit_order(actor, unit, UnitOrderRequest::Follow { target: Some(t), offset, offset_finite, allow_enemy })
            matches Some(order) ==> order == (if allow_enemy {
                QueuedOrder::ForceFollow { target: t.entity, offset }
            } else {
                QueuedOrder::Follow { target: t.entity, offset }
            }),
        authorized_unit_order(actor, unit, UnitOrderRequest::<V>::Attack { target: None }) is None,
        authorized_unit_order(actor, unit, UnitOrderRequest::<V>::Capture { target: None }) is None,
        authorized_unit_order(actor, unit, UnitOrderRequest::<V>::Garrison { target: None }) is None,
        authorized_unit_order(actor, unit, UnitOrderRequest::<V>::Repair { target: None }) is None,
        authorized_unit_order(actor, unit, UnitOrderRequest::<V>::Construct { target: None }) is None,
        !unit.armed ==> authorized_unit_order(actor, unit, UnitOrderRequest::<V>::Attack { target: Some(t) }) is None,
        !unit.can_capture ==> authorized_unit_order(actor, unit, UnitOrderRequest::<V>::Capture { target: Some(t) }) is None,
        !t.enemy ==> authorized_unit_order(actor, unit, UnitOrderRequest::<V>::Attack { target: Some(t) }) is None,
        !unit.movable ==> authorized_unit_order(actor, unit, UnitOrderRequest::Follow { target: Some(t), offset, offset_finite, allow_enemy }) is None,
{
}

/// Actions a player applies to a group of their units at once.
#[derive(Clone, Copy, Debug, PartialEq, Eq, Structural)]
pub enum UnitAction {
    Stop,
    ToggleHoldPosition,
    GuardArea,
    Scatter,
    ToggleDeployMode,
}

/// What the host knows of each unit named by a group action.
#[derive(Clone, Copy, Debug, PartialEq, Eq, Structural)]
pub struct UnitActionFacts {
    pub supports_hold_position: bool,
    pub can_guard_area: bool,
    pub supports_patrol: bool,
    pub deployable: bool,
    pub holding_position: bool,
}

/// What the host does to every unit of the group.
#[derive(Clone, Copy, Debug, PartialEq, Eq, Structural)]
pub enum UnitActionPlan {
    /// Drop all orders.
    Stop,
    /// Hold position on or off; holding drops all orders.
    SetHoldPosition(bool),
    /// Guard where they stand.
    Guard,
    /// Spread out.
    Scatter,
    /// Ask each vehicle to switch deploy mode.
    ToggleDeploy,
}

/// A group action applies only when every unit of the group supports it;
/// hold position turns on unless every unit already holds.
pub open spec fn unit_action_plan(action: UnitAction, units: Seq<UnitActionFacts>) -> Option<UnitActionPlan> {
    match action {
        UnitAction::Stop => Some(UnitActionPlan::Stop),
        UnitAction::ToggleHoldPosition => if forall|i: int| 0 <= i < units.len() ==> (#[trigger] units[i]).supports_hold_position {
            Some(UnitActionPlan::SetHoldPosition(!(forall|i: int| 0 <= i < units.len() ==> (#[trigger] units[i]).holding_position)))
        } else {
            None
        },
        UnitAction::GuardArea => if forall|i: int| 0 <= i < units.len() ==> (#[trigger] units[i]).can_guard_area {
            Some(UnitActionPlan::Guard)
        } else {
            None
        },
        UnitAction::Scatter => if forall|i: int| 0 <= i < units.len() ==> (#[trigger] units[i]).supports_patrol {
            Some(UnitActionPlan::Scatter)
        } else {
            None
        },
        UnitAction::ToggleDeployMode => if forall|i: int| 0 <= i < units.len() ==> (#[trigger] units[i]).deployable {
            Some(UnitActionPlan::ToggleDeploy)
        } else {
            None
        },
    }
}

/// The plan for a group action; see `unit_action_plan`.
pub fn plan_unit_action(action: UnitAction, units: &Vec<UnitActionFacts>) -> (plan: Option<UnitActionPlan>)
    ensures
        plan == unit_action_plan(action, units@),
{
    let mut all_hold = true;
    let mut all_guard = true;
    let mut all_patrol = true;
    let mut all_deploy = true;
    let mut all_holding = true;
    let mut index: usize = 0;
    while index < units.len()
        invariant
            index <= units.len(),
            all_hold == forall|i: int| 0 <= i < index ==> (#[trigger] units@[i]).supports_hold_position,
            all_guard == forall|i: int| 0 <= i < index ==> (#[trigger] units@[i]).can_guard_area,
            all_patrol == forall|i: int| 0 <= i < index ==> (#[trigger] units@[i]).supports_patrol,
            all_deploy == forall|i: int| 0 <= i < index ==> (#[trigger] units@[i]).deployable,
            all_holding == forall|i: int| 0 <= i < index ==> (#[trigger] units@[i]).holding_position,
        decreases units.len() - index,
    {
        let unit = units[index];
        all_hold = all_hold && unit.supports_hold_position;
        all_guard = all_guard && unit.can_guard_area;
        all_patrol = all_patrol && unit.supports_patrol;
        all_deploy = all_deploy && unit.deployable;
        all_holding = all_holding && unit.holding_position;
        index = index + 1;
    }
    match action {
        UnitAction::Stop => Some(UnitActionPlan::Stop),
        UnitAction::ToggleHoldPosition => if all_hold { Some(UnitActionPlan::SetHoldPosition(!all_holding)) } else { None },
        UnitAction::GuardArea => if all_guard { Some(UnitActionPlan::Guard) } else { None },
        UnitAction::Scatter => if all_patrol { Some(UnitActionPlan::Scatter) } else { None },
        UnitAction::ToggleDeployMode => if all_deploy { Some(UnitActionPlan::ToggleDeploy) } else { None },
    }
}

/// Which queued job a cancel-production command takes back.
#[derive(Clone, Copy, Debug, PartialEq, Eq, Structural)]
pub enum ProductionCancel {
    /// The newest job of the product at one of the producers.
    Latest,
    /// The job at this position of the one producer's queue.
    AtLocalIndex(usize),
}

/// A cancel naming a queue position is accepted only for a single producer
/// and a position inside the queue limit; without one the newest job goes.
pub fn production_cancel_request(producer_count: usize, local_index: Option<u16>) -> (cancel: Option<ProductionCancel>)
    ensures
        cancel == match local_index {
            None => Some(ProductionCancel::Latest),
            Some(index) => if producer_count == 1 && (index as usize) < crate::production::PRODUCTION_QUEUE_LIMIT {
                Some(ProductionCancel::AtLocalIndex(index as usize))
            } else {
                None
            },
        },
{
    match local_index {
        None => Some(ProductionCancel::Latest),
        Some(index) => {
            let position = index as usize;
            if producer_count == 1 && position < crate::production::PRODUCTION_QUEUE_LIMIT {
                Some(ProductionCancel::AtLocalIndex(position))
            } else {
                None
            }
        },
    }
}

/// A rally point may follow a living resource node, or a living unit or
/// structure of an allied team.
pub fn rally_target_permitted(alive: bool, is_resource: bool, resource_left: bool, allied: bool, is_unit_or_structure: bool) -> (permitted: bool)
    ensures
        permitted == (alive && (!is_resource || resource_left) && (is_resource || (allied && is_unit_or_structure))),
{
    alive && (!is_resource || resource_left) && (is_resource || (allied && is_unit_or_structure))
}

/// A unit order as a peer sends it: ground points as they are, targets by
/// network id.
#[derive(Clone, Copy, Debug, PartialEq, Eq, Structural)]
pub enum OnlineUnitOrder<V> {
    Move { destination: V },
    Attack { target: u64 },
    Capture { target: u64 },
    Garrison { target: u64 },
    Harvest { target: u64, destination: HarvestDestination },
    Repair { target: u64 },
    Construct { target: u64 },
    Follow { target: u64, offset: V, allow_enemy: bool },
    AttackMove { destination: V },
    Patrol { origin: V, destination: V },
}

/// The network form of a local order, given the network id of each local
/// entity (`ids` pairs an entity with its network id); `None` when the order
/// names an entity without one. A forced follow travels as a follow that may
/// target an enemy.
pub open spec fn online_order_of<V>(order: QueuedOrder<V>, ids: Seq<(u64, u64)>) -> Option<OnlineUnitOrder<V>> {
    match order {
        QueuedOrder::Move(destination) => Some(OnlineUnitOrder::Move { destination }),
        QueuedOrder::AttackMove(destination) => Some(OnlineUnitOrder::AttackMove { destination }),
        QueuedOrder::Patrol { origin, destination } => Some(OnlineUnitOrder::Patrol { origin, destination }),
        QueuedOrder::Attack(entity) => match lookup(ids, entity) {
            Some(target) => Some(OnlineUnitOrder::Attack { target }),
            None => None,
        },
        QueuedOrder::Capture(entity) => match lookup(ids, entity) {
            Some(target) => Some(OnlineUnitOrder::Capture { target }),
            None => None,
        },
        QueuedOrder::Garrison(entity) => match lookup(ids, entity) {
            Some(target) => Some(OnlineUnitOrder::Garrison { target }),
            None => None,
        },
        QueuedOrder::Harvest { target: entity, leg } => match lookup(ids, entity) {
            Some(target) => Some(OnlineUnitOrder::Harvest {
                target,
                destination: match leg {
                    HarvestLeg::MovingToResource => HarvestDestination::Resource,
                    HarvestLeg::MovingToDropoff => HarvestDestination::Dropoff,
                },
            }),
            None => None,
        },
        QueuedOrder::Repair(entity) => match lookup(ids, entity) {
            Some(target) => Some(OnlineUnitOrder::Repair { target }),
            None => None,
        },
        QueuedOrder::Construct(entity) => match lookup(ids, entity) {
            Some(target) => Some(OnlineUnitOrder::Construct { target }),
            None => None,
        },
        QueuedOrder::Follow { target: entity, offset } => match lookup(ids, entity) {
            Some(target) => Some(OnlineUnitOrder::Follow { target, offset, allow_enemy: false }),
            None => None,
        },
        QueuedOrder::ForceFollow { target: entity, offset } => match lookup(ids, entity) {
            Some(target) => Some(OnlineUnitOrder::Follow { target, offset, allow_enemy: true }),
            None => None,
        },
    }
}

/// Convert a local order into the form a client sends to the host.
pub fn online_order_from_local<V: Copy>(order: &QueuedOrder<V>, network_ids: &Vec<(u64, u64)>) -> (online: Option<OnlineUnitOrder<V>>)
    ensures
        online == online_order_of(*order, network_ids@),
{
    match *order {
        QueuedOrder::Move(destination) => Some(OnlineUnitOrder::Move { destination }),
        QueuedOrder::AttackMove(destination) => Some(OnlineUnitOrder::AttackMove { destination }),
        QueuedOrder::Patrol { origin, destination } => Some(OnlineUnitOrder::Patrol { origin, destination }),
        QueuedOrder::Attack(entity) => match lookup_u64(network_ids, entity) {
            Some(target) => Some(OnlineUnitOrder::Attack { target }),
            None => None,
        },
        QueuedOrder::Capture(entity) => match lookup_u64(network_ids, entity) {
            Some(target) => Some(OnlineUnitOrder::Capture { target }),
            None => None,
        },
        QueuedOrder::Garrison(entity) => match lookup_u64(network_ids, entity) {
            Some(target) => Some(OnlineUnitOrder::Garrison { target }),
            None => None,
        },
        QueuedOrder::Harvest { target: entity, leg } => match lookup_u64(network_ids, entity) {
            Some(target) => {
                let destination = match leg {
                    HarvestLeg::MovingToResource => HarvestDestination::Resource,
                    HarvestLeg::MovingToDropoff => HarvestDestination::Dropoff,
                };
                Some(OnlineUnitOrder::Harvest { target, destination })
            },
            None => None,
        },
        QueuedOrder::Repair(entity) => match lookup_u64(network_ids, entity) {
            Some(target) => Some(OnlineUnitOrder::Repair { target }),
            None => None,
        },
        QueuedOrder::Construct(entity) => match lookup_u64(network_ids, entity) {
            Some(target) => Some(OnlineUnitOrder::Construct { target }),
            None => None,
        },
        QueuedOrder::Follow { target: entity, offset } => match lookup_u64(network_ids, entity) {
            Some(target) => Some(OnlineUnitOrder::Follow { target, offset, allow_enemy: false }),
            None => None,
        },
        QueuedOrder::ForceFollow { target: entity, offset } => match lookup_u64(network_ids, entity) {
            Some(target) => Some(OnlineUnitOrder::Follow { target, offset, allow_enemy: true }),
            None => None,
        },
    }
}

/// What becomes of a networked entity a client holds when a world snapshot
/// arrives: it takes the state of the snapshot's entry at this position, or
/// it is removed.
#[derive(Clone, Copy, Debug, PartialEq, Eq, Structural)]
pub enum LocalEntityFate {
    Update(usize),
    Despawn,
}

/// The last position below `end` at which `id` occurs.
pub open spec fn last_index_from(ids: Seq<u64>, id: u64, end: int) -> Option<int>
    decreases end,
{
    if end <= 0 || end > ids.len() {
        None
    } else if ids[end - 1] == id {
        Some(end - 1)
    } else {
        last_index_from(ids, id, end - 1)
    }
}

/// The entry that describes `id` in a snapshot: a later entry for the same
/// id replaces an earlier one.
pub open spec fn last_index_of(ids: Seq<u64>, id: u64) -> Option<int> {
    last_index_from(ids, id, ids.len() as int)
}

/// The `i`-th local entity takes the snapshot's entry for its id, unless an
/// earlier local entity with the same id took it already or the snapshot no
/// longer has the id: then it is removed.
pub open spec fn local_fate(local: Seq<u64>, incoming: Seq<u64>, i: int) -> LocalEntityFate {
    match last_index_of(incoming, local[i]) {
        Some(k) => if seen_before(local, local[i], i) { LocalEntityFate::Despawn } else { LocalEntityFate::Update(k as usize) },
        None => LocalEntityFate::Despawn,
    }
}

/// The snapshot's `k`-th entry makes a new entity: it is the entry for its
/// id, and no local entity has that id.
pub open spec fn spawned_from_snapshot(local: Seq<u64>, incoming: Seq<u64>, k: int) -> bool {
    last_index_of(incoming, incoming[k]) == Some(k) && !local.contains(incoming[k])
}

fn find_last_u64(ids: &Vec<u64>, id: u64) -> (found: Option<usize>)
    ensures
        match found {
            Some(k) => last_index_of(ids@, id) == Some(k as int),
            None => last_index_of(ids@, id) is None,
        },
{
    let mut end = ids.len();
    while end > 0
        invariant
            end <= ids@.len(),
            last_index_of(ids@, id) == last_index_from(ids@, id, end as int),
        decreases end,
    {
        if ids[end - 1] == id {
            return Some(end - 1);
        }
        end = end - 1;
    }
    None
}

fn occurs_before(ids: &Vec<u64>, id: u64, count: usize) -> (seen: bool)
    requires
        count <= ids@.len(),
    ensures
        seen == seen_before(ids@, id, count as int),
{
    let mut j: usize = 0;
    while j < count
        invariant
            j <= count,
            count <= ids@.len(),
            !seen_before(ids@, id, j as int),
        decreases count - j,
    {
        if ids[j] == id {
            assert(seen_before(ids@, id, j + 1));
            proof {
                assert forall|n: int| j + 1 <= n <= count implies seen_before(ids@, id, n) by {
                    assert(0 <= j < n && ids@[j as int] == id);
                }
            }
            return true;
        }
        proof {
            if seen_before(ids@, id, j + 1) {
                let w = choose|w: int| 0 <= w < j + 1 && ids@[w] == id;
                assert(w < j);
            }
        }
        j = j + 1;
    }
    false
}

/// How a client applies a world snapshot to the networked entities it
/// holds: `local` lists their network ids, `incoming` those of the
/// snapshot's entries. Returns each local entity's fate, and the positions
/// of the entries that make new entities, in snapshot order.
pub fn plan_snapshot_application(local: &Vec<u64>, incoming: &Vec<u64>) -> (plan: (Vec<LocalEntityFate>, Vec<usize>))
    ensures
        plan.0@.len() == local@.len(),
        forall|i: int| 0 <= i < local@.len() ==> #[trigger] plan.0@[i] == local_fate(local@, incoming@, i),
        plan.1@ == Seq::new(incoming@.len(), |k: int| k as usize).filter(|k: usize| spawned_from_snapshot(local@, incoming@, k as int)),
{
    let mut fates: Vec<LocalEntityFate> = Vec::new();
    let mut i: usize = 0;
    while i < local.len()
        invariant
            i <= local@.len(),
            fates@.len() == i,
            forall|j: int| 0 <= j < i ==> #[trigger] fates@[j] == local_fate(local@, incoming@, j),
        decreases local@.len() - i,
    {
        let id = local[i];
        let fate = match find_last_u64(incoming, id) {
            Some(k) => if occurs_before(local, id, i) { LocalEntityFate::Despawn } else { LocalEntityFate::Update(k) },
            None => LocalEntityFate::Despawn,
        };
        fates.push(fate);
        i = i + 1;
    }
    let ghost all = Seq::new(incoming@.len(), |k: int| k as usize);
    let ghost keep = |k: usize| spawned_from_snapshot(local@, incoming@, k as int);
    let mut spawns: Vec<usize> = Vec::new();
    let mut k: usize = 0;
    while k < incoming.len()
        invariant
            k <= incoming@.len(),
            all == Seq::new(incoming@.len(), |k: int| k as usize),
            keep == |k: usize| spawned_from_snapshot(local@, incoming@, k as int),
            spawns@ == all.take(k as int).filter(keep),
        decreases incoming@.len() - k,
    {
        let id = incoming[k];
        let newest = match find_last_u64(incoming, id) {
            Some(last) => last == k,
            None => false,
        };
        let spawn = newest && !crate::table::contains_u64(local, id);
        proof {
            assert(all.take(k + 1) =~= all.take(k as int).push(k as usize));
            all.take(k as int).lemma_filter_push(k as usize, keep);
        }
        if spawn {
            spawns.push(k);
        }
        k = k + 1;
    }
    assert(all.take(incoming@.len() as int) =~= all);
    (fates, spawns)
}

proof fn lemma_last_index_from(ids: Seq<u64>, id: u64, end: int)
    ensures
        last_index_from(ids, id, end) matches Some(k) ==> 0 <= k < end && k < ids.len() && ids[k] == id,
    decreases end,
{
    if end > 0 && end <= ids.len() && ids[end - 1] != id {
        lemma_last_index_from(ids, id, end - 1);
    }
}

proof fn lemma_first_occurrence(ids: Seq<u64>, id: u64, count: int) -> (first: int)
    requires
        0 <= count <= ids.len(),
        seen_before(ids, id, count),
    ensures
        0 <= first < count,
        ids[first] == id,
        !seen_before(ids, id, first),
    decreases count,
{
    if seen_before(ids, id, count - 1) {
        lemma_first_occurrence(ids, id, count - 1)
    } else {
        let w = choose|w: int| 0 <= w < count && ids[w] == id;
        if w < count - 1 {
            assert(seen_before(ids, id, count - 1));
        }
        count - 1
    }
}

/// After a snapshot, each of its entries is held by exactly one entity:
/// the first local entity with its id takes it, or else a new entity is
/// spawned for it; no two local entities take the same entry.
pub proof fn law_snapshot_entries_each_get_one_entity(local: Seq<u64>, incoming: Seq<u64>, k: int)
    requires
        0 <= k < incoming.len() <= usize::MAX,
        last_index_of(incoming, incoming[k]) == Some(k),
    ensures
        spawned_from_snapshot(local, incoming, k)
            || exists|i: int| 0 <= i < local.len() && #[trigger] local_fate(local, incoming, i) == LocalEntityFate::Update(k as usize),
        !(spawned_from_snapshot(local, incoming, k)
            && exists|i: int| 0 <= i < local.len() && #[trigger] local_fate(local, incoming, i) == LocalEntityFate::Update(k as usize)),
        forall|i: int, j: int| 0 <= i < j < local.len() && #[trigger] local_fate(local, incoming, i) == LocalEntityFate::Update(k as usize)
            ==> #[trigger] local_fate(local, incoming, j) != LocalEntityFate::Update(k as usize),
{
    let id = incoming[k];
    if local.contains(id) {
        let w = choose|w: int| 0 <= w < local.len() && local[w] == id;
        assert(seen_before(local, id, local.len() as int)) by {
            assert(0 <= w < local.len() && local[w] == id);
        }
        let first = lemma_first_occurrence(local, id, local.len() as int);
        assert(local_fate(local, incoming, first) == LocalEntityFate::Update(k as usize));
    }
    assert forall|i: int| 0 <= i < local.len() && #[trigger] local_fate(local, incoming, i) == LocalEntityFate::Update(k as usize)
        implies local[i] == id by {
        lemma_last_index_from(incoming, local[i], incoming.len() as int);
        let found = last_index_of(incoming, local[i]);
        assert(found is Some);
        let f = found->0;
        assert(incoming[f] == local[i]);
        assert(0 <= f < incoming.len());
        assert(f as usize == k as usize);
        assert(f == k);
    }
    assert forall|i: int, j: int| 0 <= i < j < local.len() && #[trigger] local_fate(local, incoming, i) == LocalEntityFate::Update(k as usize)
        implies #[trigger] local_fate(local, incoming, j) != LocalEntityFate::Update(k as usize) by {
        if local_fate(local, incoming, j) == LocalEntityFate::Update(k as usize) {
            assert(local[i] == id);
            assert(local[j] == id);
            assert(seen_before(local, local[j], j)) by {
                assert(0 <= i < j && local[i] == local[j]);
            }
        }
    }
}

/// A unit named in a unit-orders command, as the host sees it: its network
/// id, team, whether it lives, and what it can do.
#[derive(Clone, Copy, Debug, PartialEq, Eq, Structural)]
pub struct OrderActorFacts {
    pub network_id: u64,
    pub team: Team,
    pub alive: bool,
    pub abilities: UnitAbilities,
}

/// The first actor at or after `from` with network id `id`.
pub open spec fn actor_with_id_from(actors: Seq<OrderActorFacts>, id: u64, from: int) -> Option<int>
    decreases actors.len() - from,
{
    if from < 0 || from >= actors.len() {
        None
    } else if actors[from].network_id == id {
        Some(from)
    } else {
        actor_with_id_from(actors, id, from + 1)
    }
}

pub open spec fn actor_with_id(actors: Seq<OrderActorFacts>, id: u64) -> Option<int> {
    actor_with_id_from(actors, id, 0)
}

/// The units a unit-orders command names, in order.
pub open spec fn order_unit_ids<V>(orders: Seq<(u64, UnitOrderRequest<V>)>) -> Seq<u64> {
    orders.map_values(|entry: (u64, UnitOrderRequest<V>)| entry.0)
}

/// What the `k`-th entry of a unit-orders command from `team` gives: an
/// order for the actor at the returned position, or nothing. Only the first
/// entry for a unit counts; the unit must exist, belong to the sender's team
/// and live; and the order must be one the host authorises for it.
pub open spec fn commanded_order<V>(team: Team, actors: Seq<OrderActorFacts>, orders: Seq<(u64, UnitOrderRequest<V>)>, k: int) -> Option<(usize, QueuedOrder<V>)> {
    let id = orders[k].0;
    if seen_before(order_unit_ids(orders), id, k) {
        None
    } else {
        match actor_with_id(actors, id) {
            None => None,
            Some(a) => if actors[a].team == team && actors[a].alive {
                match authorized_unit_order(id, actors[a].abilities, orders[k].1) {
                    Some(order) => Some((a as usize, order)),
                    None => None,
                }
            } else {
                None
            },
        }
    }
}

/// The orders the first `n` entries give, in command order.
pub open spec fn commanded_orders<V>(team: Team, actors: Seq<OrderActorFacts>, orders: Seq<(u64, UnitOrderRequest<V>)>, n: int) -> Seq<(usize, QueuedOrder<V>)>
    decreases n,
{
    if n <= 0 {
        Seq::empty()
    } else {
        let earlier = commanded_orders(team, actors, orders, n - 1);
        match commanded_order(team, actors, orders, n - 1) {
            Some(issued) => earlier.push(issued),
            None => earlier,
        }
    }
}

fn find_actor(actors: &Vec<OrderActorFacts>, id: u64) -> (found: Option<usize>)
    ensures
        match found {
            Some(i) => actor_with_id(actors@, id) == Some(i as int) && i < actors@.len(),
            None => actor_with_id(actors@, id) is None,
        },
{
    let mut index: usize = 0;
    while index < actors.len()
        invariant
            index <= actors.len(),
            actor_with_id_from(actors@, id, index as int) == actor_with_id(actors@, id),
        decreases actors.len() - index,
    {
        if actors[index].network_id == id {
            return Some(index);
        }
        index = index + 1;
    }
    None
}

/// The host applies a unit-orders command from a player of `team`: a batch
/// of 1 to 256 entries, each naming a unit by network id with the order
/// asked for it (targets already looked up). Returns the orders to issue,
/// each with the position of its unit in `actors`; an opponent's unit, a
/// dead or unknown unit, a repeated unit or an order the unit may not take
/// gives nothing.
pub fn apply_unit_orders_command<V: Copy>(
    team: Team,
    actors: &Vec<OrderActorFacts>,
    orders: &Vec<(u64, UnitOrderRequest<V>)>,
) -> (issued: Vec<(usize, QueuedOrder<V>)>)
    ensures
        issued@ == if orders@.len() == 0 || orders@.len() > ONLINE_MAX_UNIT_ORDERS_PER_COMMAND {
            Seq::empty()
        } else {
            commanded_orders(team, actors@, orders@, orders@.len() as int)
        },
{
    if orders.len() == 0 || orders.len() > ONLINE_MAX_UNIT_ORDERS_PER_COMMAND {
        return Vec::new();
    }
    let mut ids: Vec<u64> = Vec::new();
    let mut j: usize = 0;
    while j < orders.len()
        invariant
            j <= orders@.len(),
            ids@.len() == j,
            forall|i: int| 0 <= i < j ==> #[trigger] ids@[i] == orders@[i].0,
        decreases orders@.len() - j,
    {
        ids.push(orders[j].0);
        j = j + 1;
    }
    assert(ids@ =~= order_unit_ids(orders@));
    let mut issued: Vec<(usize, QueuedOrder<V>)> = Vec::new();
    let mut k: usize = 0;
    while k < orders.len()
        invariant
            k <= orders@.len(),
            ids@ == order_unit_ids(orders@),
            issued@ == commanded_orders(team, actors@, orders@, k as int),
        decreases orders@.len() - k,
    {
        let (id, request) = orders[k];
        if !occurs_before(&ids, id, k) {
            match find_actor(actors, id) {
                Some(a) => {
                    let actor = actors[a];
                    if actor.team == team && actor.alive {
                        match resolve_online_unit_order(id, actor.abilities, request) {
                            Some(order) => {
                                issued.push((a, order));
                            },
                            None => {},
                        }
                    }
                },
                None => {},
            }
        }
        k = k + 1;
    }
    issued
}

} // verus!
