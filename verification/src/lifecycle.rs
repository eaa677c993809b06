//! The online match lifecycle: disconnect grace periods, forfeits, requests
//! to return to the war room, and the per-frame decision the host and the
//! clients take from them. Time is counted in whole milliseconds.

use vstd::prelude::*;

use crate::table::{contains_u64, insert_entry, lemma_unique_insert, lemma_without_key_subset, lookup, remove_key_u64, unique_keys, without_key};

verus! {

/// How long a disconnected player may take to reconnect before forfeiting.
pub const RECONNECT_GRACE_MS: u64 = 30_000;

/// Where the local peer stands in the online flow.
#[derive(Clone, Copy, Debug, PartialEq, Eq, Structural)]
pub enum OnlinePhase {
    Home,
    Connecting,
    Lobby,
    InMatch,
}

/// Lifecycle requests and timers of one online match.
pub struct LifecycleControl {
    pub local_return_to_lobby: bool,
    pub local_leave_session: bool,
    pub remote_return_requests: Vec<u64>,
    /// Disconnected players and the milliseconds left before they forfeit.
    pub disconnected_players: Vec<(u64, u64)>,
    pub forfeited_players: Vec<u64>,
    pub session_closed_reason: Option<String>,
    pub transport_stopped_reason: Option<String>,
}

/// Entries of the grace table after `delta` milliseconds: those with more time
/// left than `delta`, with `delta` taken off.
pub open spec fn still_waiting(entries: Seq<(u64, u64)>, delta: u64) -> Seq<(u64, u64)>
    decreases entries.len(),
{
    if entries.len() == 0 {
        entries
    } else {
        let earlier = still_waiting(entries.drop_last(), delta);
        let (player, remaining) = entries.last();
        if remaining > delta {
            earlier.push((player, (remaining - delta) as u64))
        } else {
            earlier
        }
    }
}

/// Players whose grace period runs out within `delta` milliseconds, in table order.
pub open spec fn expiring(entries: Seq<(u64, u64)>, delta: u64) -> Seq<u64>
    decreases entries.len(),
{
    if entries.len() == 0 {
        Seq::empty()
    } else {
        let earlier = expiring(entries.drop_last(), delta);
        let (player, remaining) = entries.last();
        if remaining <= delta {
            earlier.push(player)
        } else {
            earlier
        }
    }
}

impl LifecycleControl {
    pub fn new() -> (control: LifecycleControl)
        ensures
            control.is_reset(),
    {
        LifecycleControl {
            local_return_to_lobby: false,
            local_leave_session: false,
            remote_return_requests: Vec::new(),
            disconnected_players: Vec::new(),
            forfeited_players: Vec::new(),
            session_closed_reason: None,
            transport_stopped_reason: None,
        }
    }

    /// Nothing pending: the state of a fresh match.
    pub open spec fn is_reset(&self) -> bool {
        &&& !self.local_return_to_lobby
        &&& !self.local_leave_session
        &&& self.remote_return_requests@.len() == 0
        &&& self.disconnected_players@.len() == 0
        &&& self.forfeited_players@.len() == 0
        &&& self.session_closed_reason is None
        &&& self.transport_stopped_reason is None
    }

    /// Each disconnected player has one grace timer.
    pub open spec fn well_formed(&self) -> bool {
        unique_keys(self.disconnected_players@)
    }

    /// The local player asks to go back to the war room.
    pub fn request_return_to_lobby(&mut self)
        ensures
            final(self).local_return_to_lobby,
            final(self).local_leave_session == old(self).local_leave_session,
            final(self).remote_return_requests@ == old(self).remote_return_requests@,
            final(self).disconnected_players@ == old(self).disconnected_players@,
            final(self).forfeited_players@ == old(self).forfeited_players@,
            final(self).session_closed_reason == old(self).session_closed_reason,
            final(self).transport_stopped_reason == old(self).transport_stopped_reason,
    {
        self.local_return_to_lobby = true;
    }

    /// The local player asks to leave the session.
    pub fn request_leave_session(&mut self)
        ensures
            final(self).local_leave_session,
            final(self).local_return_to_lobby == old(self).local_return_to_lobby,
            final(self).remote_return_requests@ == old(self).remote_return_requests@,
            final(self).disconnected_players@ == old(self).disconnected_players@,
            final(self).forfeited_players@ == old(self).forfeited_players@,
            final(self).session_closed_reason == old(self).session_closed_reason,
            final(self).transport_stopped_reason == old(self).transport_stopped_reason,
    {
        self.local_leave_session = true;
    }

    /// A player dropped during the match: start (or restart) their grace
    /// period, unless they already forfeited.
    pub fn note_disconnect(&mut self, player_id: u64)
        requires
            old(self).well_formed(),
        ensures
            final(self).well_formed(),
            final(self).disconnected_players@ == if old(self).forfeited_players@.contains(player_id) {
                old(self).disconnected_players@
            } else {
                insert_entry(old(self).disconnected_players@, player_id, RECONNECT_GRACE_MS)
            },
            final(self).forfeited_players@ == old(self).forfeited_players@,
            final(self).remote_return_requests@ == old(self).remote_return_requests@,
            final(self).local_return_to_lobby == old(self).local_return_to_lobby,
            final(self).local_leave_session == old(self).local_leave_session,
            final(self).session_closed_reason == old(self).session_closed_reason,
            final(self).transport_stopped_reason == old(self).transport_stopped_reason,
    {
        if !contains_u64(&self.forfeited_players, player_id) {
            proof {
                lemma_unique_insert(self.disconnected_players@, player_id, RECONNECT_GRACE_MS);
            }
            remove_key_u64(&mut self.disconnected_players, player_id);
            self.disconnected_players.push((player_id, RECONNECT_GRACE_MS));
        }
    }

    /// A player came back: their grace timer stops. A forfeit stands.
    pub fn note_reconnect(&mut self, player_id: u64)
        requires
            old(self).well_formed(),
        ensures
            final(self).well_formed(),
            final(self).disconnected_players@ == without_key(old(self).disconnected_players@, player_id),
            final(self).forfeited_players@ == old(self).forfeited_players@,
            final(self).remote_return_requests@ == old(self).remote_return_requests@,
            final(self).local_return_to_lobby == old(self).local_return_to_lobby,
            final(self).local_leave_session == old(self).local_leave_session,
            final(self).session_closed_reason == old(self).session_closed_reason,
            final(self).transport_stopped_reason == old(self).transport_stopped_reason,
    {
        proof {
            lemma_without_key_subset(self.disconnected_players@, player_id);
            lemma_unique_insert(self.disconnected_players@, player_id, 0);
            assert(insert_entry(self.disconnected_players@, player_id, 0u64).drop_last()
                =~= without_key(self.disconnected_players@, player_id));
            assert forall|i: int, j: int| 0 <= i < j < without_key(self.disconnected_players@, player_id).len() implies
                #[trigger] without_key(self.disconnected_players@, player_id)[i].0
                != #[trigger] without_key(self.disconnected_players@, player_id)[j].0 by {
                let inserted = insert_entry(self.disconnected_players@, player_id, 0u64);
                assert(inserted[i] == without_key(self.disconnected_players@, player_id)[i]);
                assert(inserted[j] == without_key(self.disconnected_players@, player_id)[j]);
            }
        }
        remove_key_u64(&mut self.disconnected_players, player_id);
    }

    /// A client asked to return to the war room; each player is recorded once.
    pub fn note_return_request(&mut self, player_id: u64)
        ensures
            final(self).remote_return_requests@ == if old(self).remote_return_requests@.contains(player_id) {
                old(self).remote_return_requests@
            } else {
                old(self).remote_return_requests@.push(player_id)
            },
            final(self).disconnected_players@ == old(self).disconnected_players@,
            final(self).forfeited_players@ == old(self).forfeited_players@,
            final(self).local_return_to_lobby == old(self).local_return_to_lobby,
            final(self).local_leave_session == old(self).local_leave_session,
            final(self).session_closed_reason == old(self).session_closed_reason,
            final(self).transport_stopped_reason == old(self).transport_stopped_reason,
    {
        if !contains_u64(&self.remote_return_requests, player_id) {
            self.remote_return_requests.push(player_id);
        }
    }

    /// Advance every grace timer by `delta_ms`. Players whose grace runs out
    /// stop waiting, join the forfeited players, and are returned.
    pub fn tick_disconnects(&mut self, delta_ms: u64) -> (expired: Vec<u64>)
        requires
            old(self).well_formed(),
        ensures
            final(self).well_formed(),
            expired@ == expiring(old(self).disconnected_players@, delta_ms),
            final(self).disconnected_players@ == still_waiting(old(self).disconnected_players@, delta_ms),
            forall|player: u64| #[trigger] final(self).forfeited_players@.contains(player)
                <==> (old(self).forfeited_players@.contains(player) || expired@.contains(player)),
            final(self).remote_return_requests@ == old(self).remote_return_requests@,
            final(self).local_return_to_lobby == old(self).local_return_to_lobby,
            final(self).local_leave_session == old(self).local_leave_session,
            final(self).session_closed_reason == old(self).session_closed_reason,
            final(self).transport_stopped_reason == old(self).transport_stopped_reason,
    {
        let ghost start = self.disconnected_players@;
        let mut waiting: Vec<(u64, u64)> = Vec::new();
        let mut expired: Vec<u64> = Vec::new();
        let mut index: usize = 0;
        while index < self.disconnected_players.len()
            invariant
                start == self.disconnected_players@,
                unique_keys(start),
                index <= start.len(),
                waiting@ == still_waiting(start.take(index as int), delta_ms),
                expired@ == expiring(start.take(index as int), delta_ms),
                forall|k: int| 0 <= k < waiting@.len() ==> exists|j: int| 0 <= j < index && #[trigger] waiting@[k].0 == start[j].0,
            decreases start.len() - index,
        {
            assert(start.take(index + 1).drop_last() =~= start.take(index as int));
            let (player, remaining) = self.disconnected_players[index];
            if remaining > delta_ms {
                waiting.push((player, remaining - delta_ms));
            } else {
                expired.push(player);
            }
            index = index + 1;
        }
        assert(start.take(start.len() as int) =~= start);
        proof {
            lemma_still_waiting_unique(start, delta_ms);
        }
        let ghost old_forfeited = self.forfeited_players@;
        let ghost old_requests = self.remote_return_requests@;
        let mut k: usize = 0;
        while k < expired.len()
            invariant
                k <= expired@.len(),
                self.remote_return_requests@ == old_requests,
                self.disconnected_players@ == start,
                self.local_return_to_lobby == old(self).local_return_to_lobby,
                self.local_leave_session == old(self).local_leave_session,
                self.session_closed_reason == old(self).session_closed_reason,
                self.transport_stopped_reason == old(self).transport_stopped_reason,
                forall|player: u64| #[trigger] self.forfeited_players@.contains(player)
                    <==> (old_forfeited.contains(player) || expired@.take(k as int).contains(player)),
            decreases expired.len() - k,
        {
            let player = expired[k];
            let ghost before = self.forfeited_players@;
            assert(expired@.take(k + 1) =~= expired@.take(k as int).push(player));
            if !contains_u64(&self.forfeited_players, player) {
                self.forfeited_players.push(player);
            }
            proof {
                broadcast use vstd::seq_lib::lemma_seq_contains_after_push;
                assert forall|p: u64| #[trigger] self.forfeited_players@.contains(p)
                    <==> (old_forfeited.contains(p) || expired@.take(k + 1).contains(p)) by {
                    assert(expired@.take(k + 1).contains(p) <==> (p == player || expired@.take(k as int).contains(p)));
                    if before.contains(player) {
                        assert(self.forfeited_players@ == before);
                    } else {
                        assert(self.forfeited_players@ == before.push(player));
                    }
                }
            }
            k = k + 1;
        }
        assert(expired@.take(expired@.len() as int) =~= expired@);
        self.disconnected_players = waiting;
        expired
    }

    /// Forget everything about the previous match.
    pub fn reset_match(&mut self)
        ensures
            final(self).is_reset(),
    {
        self.local_return_to_lobby = false;
        self.local_leave_session = false;
        self.remote_return_requests = Vec::new();
        self.disconnected_players = Vec::new();
        self.forfeited_players = Vec::new();
        self.session_closed_reason = None;
        self.transport_stopped_reason = None;
    }
}

/// What the online flow must do after one lifecycle step.
pub enum LifecycleAction {
    /// The host closed the session: leave it and show the reason.
    SessionClosed(String),
    /// The transport stopped: leave the session and show the reason.
    TransportStopped(String),
    /// The local player leaves; a host in a match tells the peers first.
    LeaveSession { notify_peers: bool },
    /// Outside a match nothing is tracked.
    NotInMatch,
    /// The host forfeits the expired players and may return everyone to the
    /// war room.
    Host { forfeited: Vec<u64>, return_to_lobby: bool },
    /// A client has nothing to do.
    ClientIdle,
    /// A client asked to return while the match still runs: only the host may end it.
    ClientReturnRefused,
    /// A client asks the host to return everyone to the war room.
    ClientRequestReturn,
    /// A client asked to return but the host cannot be reached yet.
    ClientHostUnreachable,
}

impl LifecycleControl {
    /// One frame of the online lifecycle. Closing and stopping reasons come
    /// first, then a local request to leave; outside a match all tracking is
    /// dropped; in a match the host advances the grace timers and decides on
    /// a return to the war room (its own request, or a client's once the match
    /// is over), while a client forwards its own request when the match is over.
    pub fn step(&mut self, phase: OnlinePhase, is_host: bool, match_running: bool, host_reachable: bool, delta_ms: u64) -> (action: LifecycleAction)
        requires
            old(self).well_formed(),
        ensures
            final(self).well_formed(),
            match action {
                LifecycleAction::SessionClosed(reason) => old(self).session_closed_reason == Some(reason) && final(self).is_reset(),
                LifecycleAction::TransportStopped(reason) => old(self).session_closed_reason is None
                    && old(self).transport_stopped_reason == Some(reason) && final(self).is_reset(),
                LifecycleAction::LeaveSession { notify_peers } => old(self).session_closed_reason is None
                    && old(self).transport_stopped_reason is None && old(self).local_leave_session
                    && notify_peers == (is_host && phase == OnlinePhase::InMatch) && final(self).is_reset(),
                _ => old(self).session_closed_reason is None && old(self).transport_stopped_reason is None
                    && !old(self).local_leave_session && !final(self).local_leave_session
                    && final(self).session_closed_reason is None && final(self).transport_stopped_reason is None,
            },
            (action is NotInMatch) == (old(self).session_closed_reason is None && old(self).transport_stopped_reason is None
                && !old(self).local_leave_session && phase != OnlinePhase::InMatch),
            action is NotInMatch ==> final(self).is_reset(),
            match action {
                LifecycleAction::Host { forfeited, return_to_lobby } => {
                    &&& phase == OnlinePhase::InMatch && is_host
                    &&& forfeited@ == expiring(old(self).disconnected_players@, delta_ms)
                    &&& final(self).disconnected_players@ == still_waiting(old(self).disconnected_players@, delta_ms)
                    &&& forall|player: u64| #[trigger] final(self).forfeited_players@.contains(player)
                        <==> (old(self).forfeited_players@.contains(player) || forfeited@.contains(player))
                    &&& return_to_lobby == (old(self).local_return_to_lobby
                        || (!match_running && old(self).remote_return_requests@.len() > 0))
                    &&& !final(self).local_return_to_lobby
                    &&& final(self).remote_return_requests@.len() == 0
                },
                LifecycleAction::ClientIdle => phase == OnlinePhase::InMatch && !is_host && !old(self).local_return_to_lobby
                    && final(self).disconnected_players@ == old(self).disconnected_players@
                    && final(self).forfeited_players@ == old(self).forfeited_players@,
                LifecycleAction::ClientReturnRefused => phase == OnlinePhase::InMatch && !is_host
                    && old(self).local_return_to_lobby && match_running && !final(self).local_return_to_lobby,
                LifecycleAction::ClientRequestReturn => phase == OnlinePhase::InMatch && !is_host
                    && old(self).local_return_to_lobby && !match_running && host_reachable && !final(self).local_return_to_lobby,
                LifecycleAction::ClientHostUnreachable => phase == OnlinePhase::InMatch && !is_host
                    && old(self).local_return_to_lobby && !match_running && !host_reachable && !final(self).local_return_to_lobby,
                _ => true,
            },
    {
        if let Some(reason) = self.session_closed_reason.take() {
            self.reset_match();
            return LifecycleAction::SessionClosed(reason);
        }
        if let Some(reason) = self.transport_stopped_reason.take() {
            self.reset_match();
            return LifecycleAction::TransportStopped(reason);
        }
        if self.local_leave_session {
            self.reset_match();
            return LifecycleAction::LeaveSession { notify_peers: is_host && phase == OnlinePhase::InMatch };
        }
        if phase != OnlinePhase::InMatch {
            self.reset_match();
            return LifecycleAction::NotInMatch;
        }
        if is_host {
            let forfeited = self.tick_disconnects(delta_ms);
            let host_requested = self.local_return_to_lobby;
            self.local_return_to_lobby = false;
            let client_requested_after_match = !match_running && self.remote_return_requests.len() > 0;
            self.remote_return_requests = Vec::new();
            return LifecycleAction::Host { forfeited, return_to_lobby: host_requested || client_requested_after_match };
        }
        if self.local_return_to_lobby {
            self.local_return_to_lobby = false;
            if match_running {
                LifecycleAction::ClientReturnRefused
            } else if host_reachable {
                LifecycleAction::ClientRequestReturn
            } else {
                LifecycleAction::ClientHostUnreachable
            }
        } else {
            LifecycleAction::ClientIdle
        }
    }
}

proof fn lemma_still_waiting_keys(entries: Seq<(u64, u64)>, delta: u64)
    ensures
        forall|k: int| 0 <= k < still_waiting(entries, delta).len() ==>
            exists|j: int| 0 <= j < entries.len() && #[trigger] still_waiting(entries, delta)[k].0 == entries[j].0,
    decreases entries.len(),
{
    if entries.len() > 0 {
        lemma_still_waiting_keys(entries.drop_last(), delta);
        let earlier = still_waiting(entries.drop_last(), delta);
        let result = still_waiting(entries, delta);
        assert forall|k: int| 0 <= k < result.len() implies
            exists|j: int| 0 <= j < entries.len() && #[trigger] result[k].0 == entries[j].0 by {
            if k < earlier.len() {
                let j = choose|j: int| 0 <= j < entries.drop_last().len() && earlier[k].0 == entries.drop_last()[j].0;
                assert(result[k] == earlier[k]);
                assert(entries[j] == entries.drop_last()[j]);
            } else {
                assert(result[k].0 == entries[entries.len() - 1].0);
            }
        }
    }
}

proof fn lemma_still_waiting_unique(entries: Seq<(u64, u64)>, delta: u64)
    requires
        unique_keys(entries),
    ensures
        unique_keys(still_waiting(entries, delta)),
    decreases entries.len(),
{
    if entries.len() > 0 {
        let earlier_entries = entries.drop_last();
        assert(unique_keys(earlier_entries)) by {
            assert forall|i: int, j: int| 0 <= i < j < earlier_entries.len() implies
                #[trigger] earlier_entries[i].0 != #[trigger] earlier_entries[j].0 by {
                assert(entries[i] == earlier_entries[i] && entries[j] == earlier_entries[j]);
            }
        }
        lemma_still_waiting_unique(earlier_entries, delta);
        lemma_still_waiting_keys(earlier_entries, delta);
        let earlier = still_waiting(earlier_entries, delta);
        let result = still_waiting(entries, delta);
        if entries.last().1 > delta {
            assert forall|i: int, j: int| 0 <= i < j < result.len() implies
                #[trigger] result[i].0 != #[trigger] result[j].0 by {
                if j == result.len() - 1 {
                    let k = choose|k: int| 0 <= k < earlier_entries.len() && #[trigger] earlier[i].0 == earlier_entries[k].0;
                    assert(entries[k] == earlier_entries[k]);
                    assert(result[i] == earlier[i]);
                    assert(result[j].0 == entries[entries.len() - 1].0);
                } else {
                    assert(result[i] == earlier[i] && result[j] == earlier[j]);
                }
            }
        }
    }
}

proof fn lemma_absent_key_never_expires(entries: Seq<(u64, u64)>, player_id: u64, delta: u64)
    requires
        forall|i: int| 0 <= i < entries.len() ==> (#[trigger] entries[i]).0 != player_id,
    ensures
        !expiring(entries, delta).contains(player_id),
        lookup(still_waiting(entries, delta), player_id) is None,
    decreases entries.len(),
{
    if entries.len() > 0 {
        assert forall|i: int| 0 <= i < entries.drop_last().len() implies (#[trigger] entries.drop_last()[i]).0 != player_id by {
            assert(entries.drop_last()[i] == entries[i]);
        }
        lemma_absent_key_never_expires(entries.drop_last(), player_id, delta);
        assert(entries.last() == entries[entries.len() - 1]);
        let earlier = still_waiting(entries.drop_last(), delta);
        let (player, remaining) = entries.last();
        if remaining > delta {
            assert(earlier.push((player, (remaining - delta) as u64)).drop_last() =~= earlier);
        }
    }
}

proof fn lemma_without_key_absent(entries: Seq<(u64, u64)>, player_id: u64)
    ensures
        forall|i: int| 0 <= i < without_key(entries, player_id).len() ==> (#[trigger] without_key(entries, player_id)[i]).0 != player_id,
    decreases entries.len(),
{
    if entries.len() > 0 {
        lemma_without_key_absent(entries.drop_last(), player_id);
        let earlier = without_key(entries.drop_last(), player_id);
        if entries.last().0 != player_id {
            assert forall|i: int| 0 <= i < earlier.push(entries.last()).len() implies (#[trigger] earlier.push(entries.last())[i]).0 != player_id by {
                if i < earlier.len() {
                    assert(earlier.push(entries.last())[i] == earlier[i]);
                }
            }
        }
    }
}

/// A player who drops out of a match and does not come back forfeits once
/// the grace period has run out, and not before: before it they are still
/// waiting with the rest of the grace left. A player who comes back in time
/// never forfeits through the timers. Holds for every table of other
/// waiting players.
pub proof fn law_grace_then_forfeit(entries: Seq<(u64, u64)>, player_id: u64, elapsed: u64, later: u64)
    ensures
        ({
            let waiting = insert_entry(entries, player_id, RECONNECT_GRACE_MS);
            &&& elapsed >= RECONNECT_GRACE_MS ==> expiring(waiting, elapsed).contains(player_id)
                && lookup(still_waiting(waiting, elapsed), player_id) is None
            &&& elapsed < RECONNECT_GRACE_MS ==> !expiring(waiting, elapsed).contains(player_id)
                && lookup(still_waiting(waiting, elapsed), player_id) == Some((RECONNECT_GRACE_MS - elapsed) as u64)
            &&& !expiring(without_key(waiting, player_id), later).contains(player_id)
        }),
{
    let others = without_key(entries, player_id);
    let waiting = insert_entry(entries, player_id, RECONNECT_GRACE_MS);
    lemma_without_key_absent(entries, player_id);
    lemma_absent_key_never_expires(others, player_id, elapsed);
    assert(waiting.drop_last() =~= others);
    assert(waiting.last() == (player_id, RECONNECT_GRACE_MS));
    if elapsed >= RECONNECT_GRACE_MS {
        let expired = expiring(waiting, elapsed);
        assert(expired == expiring(others, elapsed).push(player_id));
        assert(expired[expired.len() - 1] == player_id);
        assert(still_waiting(waiting, elapsed) == still_waiting(others, elapsed));
    } else {
        assert(expiring(waiting, elapsed) == expiring(others, elapsed));
        let kept = still_waiting(others, elapsed);
        assert(still_waiting(waiting, elapsed) == kept.push((player_id, (RECONNECT_GRACE_MS - elapsed) as u64)));
        assert(kept.push((player_id, (RECONNECT_GRACE_MS - elapsed) as u64)).last().0 == player_id);
    }
    lemma_without_key_absent(waiting, player_id);
    lemma_absent_key_never_expires(without_key(waiting, player_id), player_id, later);
}

} // verus!
