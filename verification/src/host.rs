//! The host's bookkeeping of who is who: peers, the session keys that let a
//! player resume their slot, admissions, disconnects and the rematch lobby.

use vstd::prelude::*;

use crate::lifecycle::LifecycleControl;
use crate::lobby::{
    bump_revision, human_slot_from, human_slot_spec, is_player_view, open_slot_from, with_slot, LobbySlot, LobbySnapshot, LobbyView,
    OccupantView, SlotOccupant, SlotView,
};
use crate::table::{
    contains_u64, insert_entry, lemma_insert_lookup, lemma_unique_insert, lemma_unique_with_values_in, lemma_unique_without_value, lemma_without_key_lookup,
    lookup, lookup_string, lookup_u128, remove_key_string, remove_key_u128, remove_value_u128,
    string_table_view, unique_keys, values_of, with_values_in, without_key, without_value,
};

verus! {

/// Version of the lobby and match protocol spoken by this build.
pub const RTS_ONLINE_PROTOCOL: u16 = 3;

/// Identity of a network peer (the 128 bits of its id).
pub type PeerKey = u128;

/// Host-side table of players: which peer plays whom, which session key
/// resumes whom, and the next fresh player id.
pub struct HostLobbyRuntime {
    pub next_player_id: u64,
    pub peer_players: Vec<(PeerKey, u64)>,
    pub resume_players: Vec<(String, u64)>,
}

pub struct RuntimeView {
    pub next_player_id: u64,
    pub peers: Seq<(PeerKey, u64)>,
    pub resumes: Seq<(Seq<char>, u64)>,
}

impl View for HostLobbyRuntime {
    type V = RuntimeView;

    open spec fn view(&self) -> RuntimeView {
        RuntimeView {
            next_player_id: self.next_player_id,
            peers: self.peer_players@,
            resumes: string_table_view(self.resume_players@),
        }
    }
}

impl RuntimeView {
    /// Each peer and each session key maps to one player.
    pub open spec fn well_formed(self) -> bool {
        unique_keys(self.peers) && unique_keys(self.resumes)
    }
}

/// Why a peer could not take a seat.
#[derive(Clone, Copy, Debug, PartialEq, Eq, Structural)]
pub enum AdmitError {
    SlotUnavailable,
    MatchInProgress,
    LobbyFull,
}

impl AdmitError {
    /// The reason sent to a refused peer.
    pub fn message(self) -> (text: &'static str)
        ensures
            text@ == match self {
                AdmitError::SlotUnavailable => "the previous player slot is no longer available"@,
                AdmitError::MatchInProgress => "the match is already in progress"@,
                AdmitError::LobbyFull => "the lobby has no open player slot"@,
            },
    {
        match self {
            AdmitError::SlotUnavailable => "the previous player slot is no longer available",
            AdmitError::MatchInProgress => "the match is already in progress",
            AdmitError::LobbyFull => "the lobby has no open player slot",
        }
    }
}

pub open spec fn reconnected(occupant: OccupantView, name: Seq<char>) -> OccupantView {
    match occupant {
        OccupantView::Human { player_id, ready, .. } => OccupantView::Human { player_id, name, ready, connected: true },
        _ => occupant,
    }
}

pub open spec fn dropped(occupant: OccupantView) -> OccupantView {
    match occupant {
        OccupantView::Human { player_id, name, .. } => OccupantView::Human { player_id, name, ready: false, connected: false },
        _ => occupant,
    }
}

/// The runtime, the lobby and the outcome after a peer presents `key`: a
/// known key resumes its player's slot (the peer takes over that player);
/// otherwise, while new players are allowed, the first open slot goes to a
/// fresh player id, remembered under `key`.
pub open spec fn admission_spec(runtime: RuntimeView, lobby: LobbyView, peer: PeerKey, key: Seq<char>, name: Seq<char>, allow_new_player: bool)
    -> (RuntimeView, LobbyView, Result<(u64, usize), AdmitError>)
{
    match lookup(runtime.resumes, key) {
        Some(player_id) => match human_slot_spec(lobby.slots, player_id) {
            None => (runtime, lobby, Err(AdmitError::SlotUnavailable)),
            Some(slot) => {
                let current = lobby.slots[slot];
                (RuntimeView { peers: insert_entry(without_value(runtime.peers, player_id), peer, player_id), ..runtime },
                 bump_revision(with_slot(lobby, slot, SlotView { occupant: reconnected(current.occupant, name), ..current })),
                 Ok((player_id, slot as usize)))
            },
        },
        None => if !allow_new_player {
            (runtime, lobby, Err(AdmitError::MatchInProgress))
        } else {
            match open_slot_from(lobby.slots, 0) {
                None => (runtime, lobby, Err(AdmitError::LobbyFull)),
                Some(slot) => {
                    let player_id = runtime.next_player_id;
                    let current = lobby.slots[slot];
                    (RuntimeView {
                        next_player_id: if player_id < u64::MAX { (player_id + 1) as u64 } else { player_id },
                        peers: insert_entry(runtime.peers, peer, player_id),
                        resumes: insert_entry(runtime.resumes, key, player_id),
                     },
                     bump_revision(with_slot(lobby, slot, SlotView {
                        occupant: OccupantView::Human { player_id, name, ready: false, connected: true },
                        ..current
                     })),
                     Ok((player_id, slot as usize)))
                },
            }
        },
    }
}

/// The runtime, the lobby and the dropped player after `peer` disconnects:
/// the peer is forgotten, and the slot of its player (if any) is marked
/// disconnected and not ready.
pub open spec fn disconnect_spec(runtime: RuntimeView, lobby: LobbyView, peer: PeerKey) -> (RuntimeView, LobbyView, Option<u64>) {
    match lookup(runtime.peers, peer) {
        None => (runtime, lobby, None),
        Some(player_id) => {
            let runtime = RuntimeView { peers: without_key(runtime.peers, peer), ..runtime };
            match human_slot_spec(lobby.slots, player_id) {
                None => (runtime, lobby, None),
                Some(slot) => {
                    let current = lobby.slots[slot];
                    (runtime, bump_revision(with_slot(lobby, slot, SlotView { occupant: dropped(current.occupant), ..current })), Some(player_id))
                },
            }
        },
    }
}

impl HostLobbyRuntime {
    /// A fresh host: the host is player 1, resumable under its own session key.
    pub fn new(host_session_key: String) -> (runtime: HostLobbyRuntime)
        ensures
            runtime@.next_player_id == 2,
            runtime@.peers.len() == 0,
            runtime@.resumes == seq![(host_session_key@, 1u64)],
            runtime@.well_formed(),
    {
        let mut resume_players: Vec<(String, u64)> = Vec::new();
        resume_players.push((host_session_key, 1));
        let runtime = HostLobbyRuntime { next_player_id: 2, peer_players: Vec::new(), resume_players };
        assert(runtime@.resumes =~= seq![(host_session_key@, 1u64)]);
        runtime
    }

    /// The player a session key resumes.
    pub fn player_for_session(&self, session_key: &String) -> (player: Option<u64>)
        ensures
            player == lookup(self@.resumes, session_key@),
    {
        lookup_string(&self.resume_players, session_key)
    }

    /// The player a peer plays.
    pub fn player_for_peer(&self, peer: PeerKey) -> (player: Option<u64>)
        ensures
            player == lookup(self@.peers, peer),
    {
        lookup_u128(&self.peer_players, peer)
    }

    /// Seat a peer: resume the player of a known session key, or (when
    /// allowed) give a fresh player the first open slot.
    pub fn admit_peer(
        &mut self,
        lobby: &mut LobbySnapshot,
        peer: PeerKey,
        session_key: String,
        player_name: String,
        allow_new_player: bool,
    ) -> (result: Result<(u64, usize), AdmitError>)
        requires
            old(self)@.well_formed(),
        ensures
            (final(self)@, final(lobby)@, result) == admission_spec(old(self)@, old(lobby)@, peer, session_key@, player_name@, allow_new_player),
            final(self)@.well_formed(),
    {
        match self.player_for_session(&session_key) {
            Some(player_id) => {
                let slot = match lobby.human_slot(player_id) {
                    Some(slot) => slot,
                    None => {
                        return Err(AdmitError::SlotUnavailable);
                    },
                };
                proof {
                    lemma_unique_without_value(self@.peers, player_id);
                    lemma_unique_insert(without_value(self@.peers, player_id), peer, player_id);
                }
                remove_value_u128(&mut self.peer_players, player_id);
                remove_key_u128(&mut self.peer_players, peer);
                self.peer_players.push((peer, player_id));
                let current = &lobby.slots[slot];
                let occupant = match &current.occupant {
                    SlotOccupant::Human { player_id: id, ready, .. } => SlotOccupant::Human {
                        player_id: *id,
                        name: player_name,
                        ready: *ready,
                        connected: true,
                    },
                    _ => current.occupant.duplicate(),
                };
                let updated = LobbySlot {
                    occupant,
                    faction: current.faction,
                    team_id: current.team_id,
                    color_slot: current.color_slot,
                    spawn_slot: current.spawn_slot,
                };
                lobby.slots.set(slot, updated);
                lobby.revision = lobby.revision.saturating_add(1);
                assert(lobby@.slots =~= with_slot(old(lobby)@, slot as int, updated@).slots);
                Ok((player_id, slot))
            },
            None => {
                if !allow_new_player {
                    return Err(AdmitError::MatchInProgress);
                }
                let slot = match lobby.open_slot() {
                    Some(slot) => slot,
                    None => {
                        return Err(AdmitError::LobbyFull);
                    },
                };
                let player_id = self.next_player_id;
                self.next_player_id = self.next_player_id.saturating_add(1);
                let current = &lobby.slots[slot];
                let updated = LobbySlot {
                    occupant: SlotOccupant::Human { player_id, name: player_name, ready: false, connected: true },
                    faction: current.faction,
                    team_id: current.team_id,
                    color_slot: current.color_slot,
                    spawn_slot: current.spawn_slot,
                };
                lobby.slots.set(slot, updated);
                lobby.revision = lobby.revision.saturating_add(1);
                assert(lobby@.slots =~= with_slot(old(lobby)@, slot as int, updated@).slots);
                proof {
                    lemma_unique_insert(self@.resumes, session_key@, player_id);
                    lemma_unique_insert(self@.peers, peer, player_id);
                }
                let ghost resumes_before = self.resume_players@;
                remove_key_string(&mut self.resume_players, &session_key);
                let ghost resumes_removed = self.resume_players@;
                self.resume_players.push((session_key, player_id));
                assert(string_table_view(self.resume_players@) =~= string_table_view(resumes_removed).push((session_key@, player_id)));
                remove_key_u128(&mut self.peer_players, peer);
                self.peer_players.push((peer, player_id));
                Ok((player_id, slot))
            },
        }
    }

    /// A peer dropped: forget it and mark its player's slot disconnected.
    pub fn disconnect(&mut self, lobby: &mut LobbySnapshot, peer: PeerKey) -> (dropped_player: Option<u64>)
        requires
            old(self)@.well_formed(),
        ensures
            (final(self)@, final(lobby)@, dropped_player) == disconnect_spec(old(self)@, old(lobby)@, peer),
            final(self)@.well_formed(),
    {
        let player_id = match self.player_for_peer(peer) {
            Some(player_id) => player_id,
            None => {
                return None;
            },
        };
        proof {
            lemma_unique_insert(self@.peers, peer, 0);
            assert(insert_entry(self@.peers, peer, 0u64).drop_last() =~= without_key(self@.peers, peer));
            assert forall|i: int, j: int| 0 <= i < j < without_key(self@.peers, peer).len() implies
                #[trigger] without_key(self@.peers, peer)[i].0 != #[trigger] without_key(self@.peers, peer)[j].0 by {
                let inserted = insert_entry(self@.peers, peer, 0u64);
                assert(inserted[i] == without_key(self@.peers, peer)[i]);
                assert(inserted[j] == without_key(self@.peers, peer)[j]);
            }
        }
        remove_key_u128(&mut self.peer_players, peer);
        let slot = match lobby.human_slot(player_id) {
            Some(slot) => slot,
            None => {
                return None;
            },
        };
        let current = &lobby.slots[slot];
        let occupant = match &current.occupant {
            SlotOccupant::Human { player_id: id, name, .. } => SlotOccupant::Human {
                player_id: *id,
                name: name.clone(),
                ready: false,
                connected: false,
            },
            _ => current.occupant.duplicate(),
        };
        let updated = LobbySlot {
            occupant,
            faction: current.faction,
            team_id: current.team_id,
            color_slot: current.color_slot,
            spawn_slot: current.spawn_slot,
        };
        lobby.slots.set(slot, updated);
        lobby.revision = lobby.revision.saturating_add(1);
        assert(lobby@.slots =~= with_slot(old(lobby)@, slot as int, updated@).slots);
        Some(player_id)
    }

    /// Keep only the peers and session keys of the players in `retained`.
    pub fn retain_players(&mut self, retained: &Vec<u64>)
        requires
            old(self)@.well_formed(),
        ensures
            final(self)@.next_player_id == old(self)@.next_player_id,
            final(self)@.peers == with_values_in(old(self)@.peers, retained@),
            final(self)@.resumes == with_values_in(old(self)@.resumes, retained@),
            final(self)@.well_formed(),
    {
        proof {
            lemma_unique_with_values_in(self@.peers, retained@);
            lemma_unique_with_values_in(self@.resumes, retained@);
        }
        let mut peers: Vec<(PeerKey, u64)> = Vec::new();
        let mut index: usize = 0;
        while index < self.peer_players.len()
            invariant
                index <= self.peer_players.len(),
                peers@ == with_values_in(self.peer_players@.take(index as int), retained@),
            decreases self.peer_players.len() - index,
        {
            assert(self.peer_players@.take(index + 1).drop_last() =~= self.peer_players@.take(index as int));
            let entry = self.peer_players[index];
            if contains_u64(retained, entry.1) {
                peers.push(entry);
            }
            index = index + 1;
        }
        assert(self.peer_players@.take(self.peer_players.len() as int) =~= self.peer_players@);
        let mut resumes: Vec<(String, u64)> = Vec::new();
        let mut index: usize = 0;
        while index < self.resume_players.len()
            invariant
                index <= self.resume_players.len(),
                string_table_view(resumes@) == with_values_in(string_table_view(self.resume_players@.take(index as int)), retained@),
            decreases self.resume_players.len() - index,
        {
            assert(self.resume_players@.take(index + 1).drop_last() =~= self.resume_players@.take(index as int));
            assert(string_table_view(self.resume_players@.take(index + 1)).drop_last()
                =~= string_table_view(self.resume_players@.take(index as int)));
            let entry = &self.resume_players[index];
            if contains_u64(retained, entry.1) {
                let ghost before = resumes@;
                resumes.push((entry.0.clone(), entry.1));
                assert(string_table_view(resumes@) =~= string_table_view(before).push((entry.0@, entry.1)));
            }
            index = index + 1;
        }
        assert(self.resume_players@.take(self.resume_players.len() as int) =~= self.resume_players@);
        self.peer_players = peers;
        self.resume_players = resumes;
    }
}


/// A human is still connected to the host: the host itself, or a player some
/// peer plays.
pub open spec fn connected_to_host(peers: Seq<(PeerKey, u64)>, host_player_id: u64, player_id: u64) -> bool {
    player_id == host_player_id || values_of(peers).contains(player_id)
}

/// A human keeps their seat for the rematch when still connected and not forfeited.
pub open spec fn kept_for_rematch(peers: Seq<(PeerKey, u64)>, host_player_id: u64, forfeited: Seq<u64>, player_id: u64) -> bool {
    connected_to_host(peers, host_player_id, player_id) && !forfeited.contains(player_id)
}

/// A kept human returns not ready and connected; any other human's seat opens up.
pub open spec fn rematch_occupant(occupant: OccupantView, peers: Seq<(PeerKey, u64)>, host_player_id: u64, forfeited: Seq<u64>) -> OccupantView {
    match occupant {
        OccupantView::Human { player_id, name, .. } => if kept_for_rematch(peers, host_player_id, forfeited, player_id) {
            OccupantView::Human { player_id, name, ready: false, connected: true }
        } else {
            OccupantView::Open
        },
        _ => occupant,
    }
}

pub open spec fn rematch_slots(slots: Seq<SlotView>, peers: Seq<(PeerKey, u64)>, host_player_id: u64, forfeited: Seq<u64>) -> Seq<SlotView> {
    Seq::new(slots.len(), |i: int| SlotView { occupant: rematch_occupant(slots[i].occupant, peers, host_player_id, forfeited), ..slots[i] })
}

/// The players kept for the rematch among the first `count` slots, in slot order.
pub open spec fn rematch_players(slots: Seq<SlotView>, peers: Seq<(PeerKey, u64)>, host_player_id: u64, forfeited: Seq<u64>, count: int) -> Seq<u64>
    decreases count,
{
    if count <= 0 {
        Seq::empty()
    } else {
        let earlier = rematch_players(slots, peers, host_player_id, forfeited, count - 1);
        match slots[count - 1].occupant {
            OccupantView::Human { player_id, .. } => if kept_for_rematch(peers, host_player_id, forfeited, player_id) {
                earlier.push(player_id)
            } else {
                earlier
            },
            _ => earlier,
        }
    }
}

fn peer_values_contain(peers: &Vec<(PeerKey, u64)>, player_id: u64) -> (found: bool)
    ensures
        found == values_of(peers@).contains(player_id),
{
    let mut index: usize = 0;
    while index < peers.len()
        invariant
            index <= peers.len(),
            forall|j: int| 0 <= j < index ==> peers@[j].1 != player_id,
        decreases peers.len() - index,
    {
        if peers[index].1 == player_id {
            assert(values_of(peers@)[index as int] == player_id);
            return true;
        }
        index = index + 1;
    }
    proof {
        if values_of(peers@).contains(player_id) {
            let j = choose|j: int| 0 <= j < values_of(peers@).len() && values_of(peers@)[j] == player_id;
            assert(peers@[j].1 == player_id);
        }
    }
    false
}

/// Reopen the war room after a match: connected humans who did not forfeit
/// keep their seats (not ready), every other human seat opens, the revision
/// advances, and the runtime forgets everyone who left. Returns the new lobby.
pub fn prepare_lobby_for_rematch(lobby: &mut LobbySnapshot, runtime: &mut HostLobbyRuntime, forfeited: &Vec<u64>) -> (rematch: LobbySnapshot)
    requires
        old(runtime)@.well_formed(),
    ensures
        final(lobby)@ == bump_revision(LobbyView {
            slots: rematch_slots(old(lobby)@.slots, old(runtime)@.peers, old(lobby)@.host_player_id, forfeited@),
            ..old(lobby)@
        }),
        rematch@ == final(lobby)@,
        final(runtime)@.next_player_id == old(runtime)@.next_player_id,
        final(runtime)@.peers == with_values_in(old(runtime)@.peers,
            rematch_players(old(lobby)@.slots, old(runtime)@.peers, old(lobby)@.host_player_id, forfeited@, old(lobby)@.slots.len() as int)),
        final(runtime)@.resumes == with_values_in(old(runtime)@.resumes,
            rematch_players(old(lobby)@.slots, old(runtime)@.peers, old(lobby)@.host_player_id, forfeited@, old(lobby)@.slots.len() as int)),
        final(runtime)@.well_formed(),
{
    let ghost start = lobby@;
    let host_player_id = lobby.host_player_id;
    let mut retained: Vec<u64> = Vec::new();
    let mut slots: Vec<LobbySlot> = Vec::new();
    let mut index: usize = 0;
    while index < lobby.slots.len()
        invariant
            start == lobby@,
            host_player_id == start.host_player_id,
            index <= lobby.slots.len(),
            slots@.len() == index,
            forall|j: int| 0 <= j < index ==> #[trigger] slots@[j]@
                == rematch_slots(start.slots, runtime@.peers, host_player_id, forfeited@)[j],
            retained@ == rematch_players(start.slots, runtime@.peers, host_player_id, forfeited@, index as int),
        decreases lobby.slots.len() - index,
    {
        let current = &lobby.slots[index];
        let occupant = match &current.occupant {
            SlotOccupant::Human { player_id, name, .. } => {
                let connected = *player_id == host_player_id || peer_values_contain(&runtime.peer_players, *player_id);
                if connected && !contains_u64(forfeited, *player_id) {
                    retained.push(*player_id);
                    SlotOccupant::Human { player_id: *player_id, name: name.clone(), ready: false, connected: true }
                } else {
                    SlotOccupant::Open
                }
            },
            _ => current.occupant.duplicate(),
        };
        slots.push(LobbySlot {
            occupant,
            faction: current.faction,
            team_id: current.team_id,
            color_slot: current.color_slot,
            spawn_slot: current.spawn_slot,
        });
        index = index + 1;
    }
    lobby.slots = slots;
    lobby.revision = lobby.revision.saturating_add(1);
    assert(lobby@.slots =~= rematch_slots(start.slots, old(runtime)@.peers, host_player_id, forfeited@));
    runtime.retain_players(&retained);
    lobby.duplicate()
}

/// How the host answers a peer's hello.
#[derive(Clone, Copy, Debug, PartialEq, Eq, Structural)]
pub enum HelloOutcome {
    Welcome { player_id: u64, assigned_slot: usize },
    Rejected(HelloRejection),
}

/// Why the host turned a peer away.
#[derive(Clone, Copy, Debug, PartialEq, Eq, Structural)]
pub enum HelloRejection {
    ProtocolMismatch,
    MatchInProgress,
    AlreadyForfeited,
    SlotUnavailable,
    LobbyFull,
}

impl HelloRejection {
    /// The reason sent to a refused peer.
    pub fn message(self) -> (text: &'static str)
        ensures
            text@ == match self {
                HelloRejection::ProtocolMismatch => "RTS lobby protocol mismatch"@,
                HelloRejection::MatchInProgress => "the match is already in progress"@,
                HelloRejection::AlreadyForfeited => "the player already forfeited this match"@,
                HelloRejection::SlotUnavailable => "the previous player slot is no longer available"@,
                HelloRejection::LobbyFull => "the lobby has no open player slot"@,
            },
    {
        match self {
            HelloRejection::ProtocolMismatch => "RTS lobby protocol mismatch",
            HelloRejection::MatchInProgress => "the match is already in progress",
            HelloRejection::AlreadyForfeited => "the player already forfeited this match",
            HelloRejection::SlotUnavailable => "the previous player slot is no longer available",
            HelloRejection::LobbyFull => "the lobby has no open player slot",
        }
    }
}

pub open spec fn rejection_of(error: AdmitError) -> HelloRejection {
    match error {
        AdmitError::SlotUnavailable => HelloRejection::SlotUnavailable,
        AdmitError::MatchInProgress => HelloRejection::MatchInProgress,
        AdmitError::LobbyFull => HelloRejection::LobbyFull,
    }
}

/// The host answers a hello: a wrong protocol is refused; during a match only
/// known session keys may come back, and not after forfeiting; otherwise the
/// peer is seated, and a resumed player's grace timer stops.
pub fn host_handle_hello(
    runtime: &mut HostLobbyRuntime,
    lobby: &mut LobbySnapshot,
    lifecycle: &mut LifecycleControl,
    in_match: bool,
    peer: PeerKey,
    protocol: u16,
    session_key: String,
    player_name: String,
) -> (outcome: HelloOutcome)
    requires
        old(runtime)@.well_formed(),
        old(lifecycle).well_formed(),
    ensures
        final(runtime)@.well_formed(),
        final(lifecycle).well_formed(),
        final(lifecycle).forfeited_players@ == old(lifecycle).forfeited_players@,
        protocol != RTS_ONLINE_PROTOCOL ==> outcome == HelloOutcome::Rejected(HelloRejection::ProtocolMismatch),
        protocol == RTS_ONLINE_PROTOCOL && in_match && lookup(old(runtime)@.resumes, session_key@) is None
            ==> outcome == HelloOutcome::Rejected(HelloRejection::MatchInProgress),
        protocol == RTS_ONLINE_PROTOCOL && (lookup(old(runtime)@.resumes, session_key@) matches Some(player_id)
            && old(lifecycle).forfeited_players@.contains(player_id))
            ==> outcome == HelloOutcome::Rejected(HelloRejection::AlreadyForfeited),
        outcome is Rejected && (protocol != RTS_ONLINE_PROTOCOL || (in_match && lookup(old(runtime)@.resumes, session_key@) is None)
            || (lookup(old(runtime)@.resumes, session_key@) matches Some(player_id) && old(lifecycle).forfeited_players@.contains(player_id)))
            ==> final(runtime)@ == old(runtime)@ && final(lobby)@ == old(lobby)@
                && final(lifecycle).disconnected_players@ == old(lifecycle).disconnected_players@,
        protocol == RTS_ONLINE_PROTOCOL && !(in_match && lookup(old(runtime)@.resumes, session_key@) is None)
            && !(lookup(old(runtime)@.resumes, session_key@) matches Some(player_id) && old(lifecycle).forfeited_players@.contains(player_id))
            ==> {
                let (runtime_after, lobby_after, result) = admission_spec(old(runtime)@, old(lobby)@, peer, session_key@, player_name@, !in_match);
                &&& final(runtime)@ == runtime_after
                &&& final(lobby)@ == lobby_after
                &&& match result {
                    Ok((player_id, slot)) => outcome == HelloOutcome::Welcome { player_id, assigned_slot: slot }
                        && final(lifecycle).disconnected_players@ == without_key(old(lifecycle).disconnected_players@, player_id),
                    Err(error) => outcome == HelloOutcome::Rejected(rejection_of(error))
                        && final(lifecycle).disconnected_players@ == old(lifecycle).disconnected_players@,
                }
            },
{
    if protocol != RTS_ONLINE_PROTOCOL {
        return HelloOutcome::Rejected(HelloRejection::ProtocolMismatch);
    }
    let allow_new_player = !in_match;
    let resumed = runtime.player_for_session(&session_key);
    if !allow_new_player && resumed.is_none() {
        return HelloOutcome::Rejected(HelloRejection::MatchInProgress);
    }
    match resumed {
        Some(player_id) => {
            if contains_u64(&lifecycle.forfeited_players, player_id) {
                return HelloOutcome::Rejected(HelloRejection::AlreadyForfeited);
            }
        },
        None => {},
    }
    match runtime.admit_peer(lobby, peer, session_key, player_name, allow_new_player) {
        Ok((player_id, assigned_slot)) => {
            lifecycle.note_reconnect(player_id);
            HelloOutcome::Welcome { player_id, assigned_slot }
        },
        Err(AdmitError::SlotUnavailable) => HelloOutcome::Rejected(HelloRejection::SlotUnavailable),
        Err(AdmitError::MatchInProgress) => HelloOutcome::Rejected(HelloRejection::MatchInProgress),
        Err(AdmitError::LobbyFull) => HelloOutcome::Rejected(HelloRejection::LobbyFull),
    }
}

proof fn lemma_first_player_slot(slots: Seq<SlotView>, player_id: u64, slot: int, from: int)
    requires
        0 <= from <= slot < slots.len(),
        forall|j: int| from <= j < slot ==> !is_player_view(#[trigger] slots[j].occupant, player_id),
        is_player_view(slots[slot].occupant, player_id),
    ensures
        human_slot_from(slots, player_id, from) == Some(slot),
    decreases slot - from,
{
    if from < slot {
        lemma_first_player_slot(slots, player_id, slot, from + 1);
    }
}

proof fn lemma_player_slot_is_first(slots: Seq<SlotView>, player_id: u64, from: int)
    requires
        0 <= from,
    ensures
        human_slot_from(slots, player_id, from) matches Some(slot) ==> {
            &&& from <= slot < slots.len()
            &&& is_player_view(slots[slot].occupant, player_id)
            &&& forall|j: int| from <= j < slot ==> !is_player_view(#[trigger] slots[j].occupant, player_id)
        },
        human_slot_from(slots, player_id, from) is None ==>
            forall|j: int| from <= j < slots.len() ==> !is_player_view(#[trigger] slots[j].occupant, player_id),
    decreases slots.len() - from,
{
    if from < slots.len() {
        lemma_player_slot_is_first(slots, player_id, from + 1);
    }
}

proof fn lemma_slot_kept_after_update(slots: Seq<SlotView>, player_id: u64, slot: int, replacement: SlotView)
    requires
        0 <= slot < slots.len(),
        forall|j: int| 0 <= j < slot ==> !is_player_view(#[trigger] slots[j].occupant, player_id),
        is_player_view(replacement.occupant, player_id),
    ensures
        human_slot_spec(slots.update(slot, replacement), player_id) == Some(slot),
{
    let updated = slots.update(slot, replacement);
    assert forall|j: int| 0 <= j < slot implies !is_player_view(#[trigger] updated[j].occupant, player_id) by {
        assert(updated[j] == slots[j]);
    }
    lemma_first_player_slot(updated, player_id, slot, 0);
}

/// A player who joins, drops and comes back with the same session key gets
/// the same player id and the same slot again, on whatever peer and with
/// whatever name, even while the match runs (when new players are refused).
/// The only conditions are that a fresh player id is not already seated and
/// that the lobby is one a vector can hold.
pub proof fn law_reconnect_keeps_identity_and_slot(
    runtime: RuntimeView,
    lobby: LobbyView,
    first_peer: PeerKey,
    second_peer: PeerKey,
    key: Seq<char>,
    first_name: Seq<char>,
    second_name: Seq<char>,
    allow_new_player: bool,
)
    requires
        lobby.slots.len() <= usize::MAX,
        lookup(runtime.resumes, key) is None ==> human_slot_spec(lobby.slots, runtime.next_player_id) is None,
    ensures
        ({
            let (joined_runtime, joined_lobby, joined) = admission_spec(runtime, lobby, first_peer, key, first_name, true);
            let (left_runtime, left_lobby, dropped_player) = disconnect_spec(joined_runtime, joined_lobby, first_peer);
            let (_, _, resumed) = admission_spec(left_runtime, left_lobby, second_peer, key, second_name, allow_new_player);
            joined matches Ok((player_id, slot)) ==> dropped_player == Some(player_id) && resumed == Ok::<(u64, usize), AdmitError>((player_id, slot))
        }),
{
    let (joined_runtime, joined_lobby, joined) = admission_spec(runtime, lobby, first_peer, key, first_name, true);
    if let Ok((player_id, slot)) = joined {
        let s = slot as int;
        lemma_insert_lookup(without_value(runtime.peers, player_id), first_peer, player_id, first_peer);
        lemma_insert_lookup(runtime.peers, first_peer, player_id, first_peer);
        lemma_insert_lookup(runtime.resumes, key, player_id, key);
        match lookup(runtime.resumes, key) {
            Some(resumed_player) => {
                assert(player_id == resumed_player);
                lemma_player_slot_is_first(lobby.slots, resumed_player, 0);
                assert(human_slot_spec(lobby.slots, player_id) == Some(s));
                let current = lobby.slots[s];
                assert(is_player_view(current.occupant, player_id));
                let replacement = SlotView { occupant: reconnected(current.occupant, first_name), ..current };
                assert(is_player_view(replacement.occupant, player_id));
                lemma_slot_kept_after_update(lobby.slots, player_id, s, replacement);
                assert(joined_lobby.slots == lobby.slots.update(s, replacement));
            },
            None => {
                lemma_player_slot_is_first(lobby.slots, player_id, 0);
                lemma_open_slot_is_open(lobby.slots, 0);
                let current = lobby.slots[s];
                let replacement = SlotView { occupant: OccupantView::Human { player_id, name: first_name, ready: false, connected: true }, ..current };
                lemma_slot_kept_after_update(lobby.slots, player_id, s, replacement);
                assert(joined_lobby.slots == lobby.slots.update(s, replacement));
            },
        }
        assert(lookup(joined_runtime.peers, first_peer) == Some(player_id));
        assert(human_slot_spec(joined_lobby.slots, player_id) == Some(s));
        let (left_runtime, left_lobby, dropped_player) = disconnect_spec(joined_runtime, joined_lobby, first_peer);
        assert(dropped_player == Some(player_id));
        lemma_player_slot_is_first(joined_lobby.slots, player_id, 0);
        let current = joined_lobby.slots[s];
        let replacement = SlotView { occupant: dropped(current.occupant), ..current };
        lemma_slot_kept_after_update(joined_lobby.slots, player_id, s, replacement);
        assert(left_lobby.slots == joined_lobby.slots.update(s, replacement));
        assert(left_runtime.resumes == joined_runtime.resumes);
        assert(lookup(left_runtime.resumes, key) == Some(player_id));
        assert(human_slot_spec(left_lobby.slots, player_id) == Some(s));
    }
}

proof fn lemma_open_slot_is_open(slots: Seq<SlotView>, from: int)
    requires
        0 <= from,
    ensures
        open_slot_from(slots, from) matches Some(slot) ==> from <= slot < slots.len() && slots[slot].occupant is Open,
    decreases slots.len() - from,
{
    if from < slots.len() {
        lemma_open_slot_is_open(slots, from + 1);
    }
}


/// When a seated player's peer drops, the host reports that player, forgets
/// the peer, and marks the player's row not connected and not ready; the
/// player keeps the row (name, faction, team, color and spawn unchanged), so
/// the session key can resume it, and every other row stays as it was.
pub proof fn law_dropped_player_is_marked_away(runtime: RuntimeView, lobby: LobbyView, peer: PeerKey, player_id: u64, row: int)
    requires
        lookup(runtime.peers, peer) == Some(player_id),
        human_slot_spec(lobby.slots, player_id) == Some(row),
    ensures
        ({
            let (after_runtime, after_lobby, dropped_player) = disconnect_spec(runtime, lobby, peer);
            &&& dropped_player == Some(player_id)
            &&& lookup(after_runtime.peers, peer) is None
            &&& after_runtime.resumes == runtime.resumes
            &&& 0 <= row < lobby.slots.len()
            &&& after_lobby.slots.len() == lobby.slots.len()
            &&& (after_lobby.slots[row].occupant matches OccupantView::Human { player_id: id, name, ready, connected }
                && id == player_id && !ready && !connected && name == lobby.slots[row].occupant->name)
            &&& after_lobby.slots[row].faction == lobby.slots[row].faction
            &&& after_lobby.slots[row].team_id == lobby.slots[row].team_id
            &&& after_lobby.slots[row].color_slot == lobby.slots[row].color_slot
            &&& after_lobby.slots[row].spawn_slot == lobby.slots[row].spawn_slot
            &&& human_slot_spec(after_lobby.slots, player_id) == Some(row)
            &&& forall|j: int| 0 <= j < lobby.slots.len() && j != row ==> #[trigger] after_lobby.slots[j] == lobby.slots[j]
        }),
{
    lemma_without_key_lookup(runtime.peers, peer, peer);
    lemma_player_slot_is_first(lobby.slots, player_id, 0);
    let current = lobby.slots[row];
    let replacement = SlotView { occupant: dropped(current.occupant), ..current };
    lemma_slot_kept_after_update(lobby.slots, player_id, row, replacement);
}


/// A peer with an unknown session key, while new players are allowed, takes
/// the first open row as a fresh player: the next player id, seated there
/// under the given name, not ready and connected, reachable from its peer and
/// resumable under its key; every other row stays as it was. While new
/// players are refused it is told the match is in progress, and with no open
/// row that the lobby is full, and nothing changes.
pub proof fn law_new_peer_takes_first_open_row(
    runtime: RuntimeView,
    lobby: LobbyView,
    peer: PeerKey,
    key: Seq<char>,
    name: Seq<char>,
    allow_new_player: bool,
)
    requires
        lookup(runtime.resumes, key) is None,
    ensures
        ({
            let (after_runtime, after_lobby, outcome) = admission_spec(runtime, lobby, peer, key, name, allow_new_player);
            &&& (allow_new_player ==> (open_slot_from(lobby.slots, 0) matches Some(row) ==> {
                &&& outcome == Ok::<(u64, usize), AdmitError>((runtime.next_player_id, row as usize))
                &&& 0 <= row < lobby.slots.len()
                &&& lobby.slots[row].occupant is Open
                &&& after_lobby.slots.len() == lobby.slots.len()
                &&& after_lobby.slots[row].occupant == (OccupantView::Human {
                    player_id: runtime.next_player_id,
                    name,
                    ready: false,
                    connected: true,
                })
                &&& lookup(after_runtime.peers, peer) == Some(runtime.next_player_id)
                &&& lookup(after_runtime.resumes, key) == Some(runtime.next_player_id)
                &&& forall|j: int| 0 <= j < lobby.slots.len() && j != row ==> #[trigger] after_lobby.slots[j] == lobby.slots[j]
            }))
            &&& (allow_new_player && open_slot_from(lobby.slots, 0) is None ==> after_runtime == runtime && after_lobby == lobby
                && outcome == Err::<(u64, usize), AdmitError>(AdmitError::LobbyFull))
            &&& (!allow_new_player ==> after_runtime == runtime && after_lobby == lobby
                && outcome == Err::<(u64, usize), AdmitError>(AdmitError::MatchInProgress))
        }),
{
    lemma_open_slot_is_open(lobby.slots, 0);
    lemma_insert_lookup(runtime.peers, peer, runtime.next_player_id, peer);
    lemma_insert_lookup(runtime.resumes, key, runtime.next_player_id, key);
}

} // verus!
