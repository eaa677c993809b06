//! The local side of an online session: who we are, whom we talk to, and how
//! the messages of the host change where we stand.

use vstd::prelude::*;
use vstd::string::*;

use crate::host::{HostLobbyRuntime, PeerKey};
use crate::lifecycle::{LifecycleControl, OnlinePhase};
use crate::text::{char_utf8_len, truncate_utf8, utf8_bytes, utf8_bytes_capped, utf8_len, longest_fitting_prefix};
use crate::lobby::{
    can_start_spec, match_config_of, online_match_setup, setup_error_message, setup_error_of, setup_matches, setup_succeeds, LobbyCatalog, LobbyCommand,
    LobbySnapshot, MatchConfig, MatchSetup, MatchSetupError,
};

verus! {

/// `c` is a lowercase hexadecimal digit.
pub open spec fn is_lower_hex(c: char) -> bool {
    (48 <= (c as int) <= 57) || (97 <= (c as int) <= 102)
}

/// Calls `uuid::Uuid::new_v4` and renders it with `simple()`. The uuid crate
/// renders the simple form as the 32 hexadecimal digits of the id, lowercase,
/// without hyphens; that is all this contract claims. Which digits come out is
/// random and left unsaid.
#[verifier::external_body]
fn random_session_key() -> (key: String)
    ensures
        key@.len() == 32,
        forall|i: int| 0 <= i < 32 ==> is_lower_hex(#[trigger] key@[i]),
{
    uuid::Uuid::new_v4().simple().to_string()
}

/// A fresh session key: 32 lowercase hexadecimal digits, safe to use in a
/// browser.
pub fn new_session_key() -> (key: String)
    ensures
        key@.len() == 32,
        forall|i: int| 0 <= i < 32 ==> is_lower_hex(#[trigger] key@[i]),
{
    random_session_key()
}

/// Status lines are cut to this many bytes.
pub const ONLINE_MAX_STATUS_BYTES: usize = 180;

/// The text fields of the online screen.
#[derive(Clone, Copy, Debug, PartialEq, Eq, Structural)]
pub enum OnlineTextField {
    PlayerName,
    ServiceUrl,
    RoomCode,
    JoinToken,
}

/// How many bytes a field holds.
pub open spec fn field_max_bytes(field: OnlineTextField) -> nat {
    match field {
        OnlineTextField::PlayerName => 32,
        OnlineTextField::ServiceUrl => 160,
        OnlineTextField::RoomCode => 12,
        OnlineTextField::JoinToken => 128,
    }
}

/// A control character (general category Cc).
pub open spec fn is_control_char(c: char) -> bool {
    (c as int) <= 0x1F || (0x7F <= (c as int) && (c as int) <= 0x9F)
}

/// An ASCII letter or digit.
pub open spec fn is_ascii_alphanumeric_char(c: char) -> bool {
    (48 <= (c as int) <= 57) || (65 <= (c as int) <= 90) || (97 <= (c as int) <= 122)
}

/// The character typed into `field`: room codes are upper-cased.
pub open spec fn field_char(field: OnlineTextField, c: char) -> char {
    if field == OnlineTextField::RoomCode && 97 <= (c as int) <= 122 {
        "ABCDEFGHIJKLMNOPQRSTUVWXYZ"@[(c as int) - 97]
    } else {
        c
    }
}

/// Which characters a field takes: letters and digits in a room code; no
/// control characters anywhere, and no slashes in a player name.
pub open spec fn field_accepts(field: OnlineTextField, c: char) -> bool {
    match field {
        OnlineTextField::RoomCode => is_ascii_alphanumeric_char(c),
        OnlineTextField::PlayerName => !is_control_char(c) && c != '/' && c != '\\',
        _ => !is_control_char(c),
    }
}

/// The field's text after typing `typed`: each accepted character is added
/// while it still fits in the field.
pub open spec fn typed_text(value: Seq<char>, field: OnlineTextField, typed: Seq<char>) -> Seq<char>
    decreases typed.len(),
{
    if typed.len() == 0 {
        value
    } else {
        let before = typed_text(value, field, typed.drop_last());
        let c = field_char(field, typed.last());
        if field_accepts(field, c) && utf8_bytes(before) + utf8_len(c) <= field_max_bytes(field) {
            before.push(c)
        } else {
            before
        }
    }
}

fn accepts_char(field: OnlineTextField, c: char) -> (accepted: bool)
    ensures
        accepted == field_accepts(field, c),
{
    let code = c as u32;
    let control = code <= 0x1F || (0x7F <= code && code <= 0x9F);
    match field {
        OnlineTextField::RoomCode => (48 <= code && code <= 57) || (65 <= code && code <= 90) || (97 <= code && code <= 122),
        OnlineTextField::PlayerName => !control && c != '/' && c != '\\',
        _ => !control,
    }
}

/// Add typed text to a field; see `typed_text`.
pub fn append_online_field(value: &mut String, field: OnlineTextField, text: &str)
    ensures
        final(value)@ == typed_text(old(value)@, field, text@),
{
    let max: usize = match field {
        OnlineTextField::PlayerName => 32,
        OnlineTextField::ServiceUrl => 160,
        OnlineTextField::RoomCode => 12,
        OnlineTextField::JoinToken => 128,
    };
    let letters = "ABCDEFGHIJKLMNOPQRSTUVWXYZ";
    proof {
        reveal_strlit("ABCDEFGHIJKLMNOPQRSTUVWXYZ");
    }
    let mut bytes = utf8_bytes_capped(value.as_str(), max + 1);
    let length = text.unicode_len();
    let mut index: usize = 0;
    let ghost start = value@;
    while index < length
        invariant
            index <= length,
            length == text@.len(),
            letters@.len() == 26,
            letters@ == "ABCDEFGHIJKLMNOPQRSTUVWXYZ"@,
            max == field_max_bytes(field),
            max <= 160,
            value@ == typed_text(start, field, text@.take(index as int)),
            bytes == if utf8_bytes(value@) < max + 1 { utf8_bytes(value@) } else { (max + 1) as nat },
        decreases length - index,
    {
        let c = text.get_char(index);
        let code = c as u32;
        let upper = field == OnlineTextField::RoomCode && 97 <= code && code <= 122;
        let piece = if upper {
            letters.substring_char((code - 97) as usize, (code - 96) as usize)
        } else {
            text.substring_char(index, index + 1)
        };
        let typed = piece.get_char(0);
        proof {
            assert(text@.take(index as int + 1).drop_last() =~= text@.take(index as int));
            assert(text@.take(index as int + 1).last() == c);
            assert(typed == field_char(field, c));
            assert(piece@ =~= seq![typed]);
        }
        let width = char_utf8_len(typed);
        if accepts_char(field, typed) && bytes <= max && width <= max - bytes {
            let ghost before = value@;
            value.append(piece);
            proof {
                assert(value@ =~= before.push(typed));
                assert(value@.drop_last() =~= before);
            }
            bytes = bytes + width;
        }
        index = index + 1;
    }
    proof {
        assert(text@.take(index as int) =~= text@);
    }
}

/// The online session of this peer.
pub struct OnlineSession {
    pub phase: OnlinePhase,
    pub is_host: bool,
    pub service_url: String,
    pub player_name: String,
    pub room_code_input: String,
    pub join_token_input: String,
    pub focused_field: Option<OnlineTextField>,
    pub status: String,
    pub session_key: String,
    pub local_player_id: Option<u64>,
    pub assigned_slot: Option<usize>,
    pub host_peer: Option<PeerKey>,
    pub lobby: Option<LobbySnapshot>,
    pub match_config: Option<MatchConfig>,
    pub host_runtime: Option<HostLobbyRuntime>,
    pub ui_dirty: bool,
}

/// Shown when a welcome puts us back into a running match.
pub const MATCH_RESUMED_STATUS: &'static str = "Host connection restored; synchronizing match...";
/// Shown when a welcome seats us in the war room.
pub const JOINED_WAR_ROOM_STATUS: &'static str = "Joined online war room";
/// Shown when the host starts a match but we hold no seat.
pub const MISSING_LOCAL_SLOT_STATUS: &'static str = "Missing local player slot";

/// How a client's attempt to enter a match ended.
pub enum MatchEntry {
    /// The message was not from our host and was ignored.
    Ignored,
    /// The welcome seated us in the war room: no match runs.
    Joined,
    /// We have no seat to play from.
    MissingLocalSlot,
    /// The configuration does not fit this build.
    Failed(MatchSetupError),
    /// The match starts with these local settings.
    Started(MatchSetup),
}

/// Why the host could not start the match.
#[derive(Clone, Copy, Debug, PartialEq, Eq, Structural)]
pub enum StartBlocked {
    NotHost,
    NoLobby,
    NotReady,
    Setup(MatchSetupError),
}

impl OnlineSession {
    /// A session at home with a fresh session key, the given service address
    /// and player name, and the given status line.
    pub fn new(service_url: String, player_name: String, status: String) -> (session: OnlineSession)
        ensures
            session.service_url == service_url,
            session.player_name == player_name,
            longest_fitting_prefix(status@, ONLINE_MAX_STATUS_BYTES as nat, session.status@),
            session.room_code_input@.len() == 0,
            session.join_token_input@.len() == 0,
            session.focused_field is None,
            session.phase == OnlinePhase::Home,
            !session.is_host,
            session.session_key@.len() == 32,
            session.local_player_id is None,
            session.assigned_slot is None,
            session.host_peer is None,
            session.lobby is None,
            session.match_config is None,
            session.host_runtime is None,
            session.ui_dirty,
    {
        let mut status = status;
        truncate_utf8(&mut status, ONLINE_MAX_STATUS_BYTES);
        OnlineSession {
            phase: OnlinePhase::Home,
            is_host: false,
            service_url,
            player_name,
            room_code_input: String::new(),
            join_token_input: String::new(),
            focused_field: None,
            status,
            session_key: new_session_key(),
            local_player_id: None,
            assigned_slot: None,
            host_peer: None,
            lobby: None,
            match_config: None,
            host_runtime: None,
            ui_dirty: true,
        }
    }

    /// Show `status`, cut to the status line's byte limit.
    pub fn set_status(&mut self, status: String)
        ensures
            longest_fitting_prefix(status@, ONLINE_MAX_STATUS_BYTES as nat, final(self).status@),
            final(self).ui_dirty,
            final(self).phase == old(self).phase,
            final(self).lobby == old(self).lobby,
            final(self).match_config == old(self).match_config,
            final(self).is_host == old(self).is_host,
            final(self).host_peer == old(self).host_peer,
            final(self).local_player_id == old(self).local_player_id,
            final(self).assigned_slot == old(self).assigned_slot,
            final(self).session_key == old(self).session_key,
    {
        let mut status = status;
        truncate_utf8(&mut status, ONLINE_MAX_STATUS_BYTES);
        self.status = status;
        self.ui_dirty = true;
    }

    /// Text typed while `field` has the focus; see `typed_text`.
    pub fn type_into_field(&mut self, field: OnlineTextField, text: &str)
        ensures
            field == OnlineTextField::PlayerName ==> final(self).player_name@ == typed_text(old(self).player_name@, field, text@),
            field == OnlineTextField::ServiceUrl ==> final(self).service_url@ == typed_text(old(self).service_url@, field, text@),
            field == OnlineTextField::RoomCode ==> final(self).room_code_input@ == typed_text(old(self).room_code_input@, field, text@),
            field == OnlineTextField::JoinToken ==> final(self).join_token_input@ == typed_text(old(self).join_token_input@, field, text@),
            field != OnlineTextField::PlayerName ==> final(self).player_name == old(self).player_name,
            field != OnlineTextField::ServiceUrl ==> final(self).service_url == old(self).service_url,
            field != OnlineTextField::RoomCode ==> final(self).room_code_input == old(self).room_code_input,
            field != OnlineTextField::JoinToken ==> final(self).join_token_input == old(self).join_token_input,
            final(self).phase == old(self).phase,
    {
        match field {
            OnlineTextField::PlayerName => append_online_field(&mut self.player_name, field, text),
            OnlineTextField::ServiceUrl => append_online_field(&mut self.service_url, field, text),
            OnlineTextField::RoomCode => append_online_field(&mut self.room_code_input, field, text),
            OnlineTextField::JoinToken => append_online_field(&mut self.join_token_input, field, text),
        }
    }

    /// A text field takes the focus.
    pub fn focus(&mut self, field: OnlineTextField)
        ensures
            final(self).focused_field == Some(field),
            final(self).ui_dirty,
            final(self).phase == old(self).phase,
    {
        self.focused_field = Some(field);
        self.ui_dirty = true;
    }

    /// Back home: everything learned from the last connection is forgotten;
    /// the session key stays, so that we can resume later.
    pub fn reset_connection(&mut self)
        ensures
            final(self).phase == OnlinePhase::Home,
            !final(self).is_host,
            final(self).session_key == old(self).session_key,
            final(self).local_player_id is None,
            final(self).assigned_slot is None,
            final(self).host_peer is None,
            final(self).lobby is None,
            final(self).match_config is None,
            final(self).host_runtime is None,
            final(self).focused_field is None,
            final(self).ui_dirty,
            final(self).player_name == old(self).player_name,
            final(self).service_url == old(self).service_url,
            final(self).status == old(self).status,
    {
        self.focused_field = None;
        self.phase = OnlinePhase::Home;
        self.is_host = false;
        self.local_player_id = None;
        self.assigned_slot = None;
        self.host_peer = None;
        self.lobby = None;
        self.match_config = None;
        self.host_runtime = None;
        self.ui_dirty = true;
    }

    /// A welcome from the host: we are `player_id` in lobby row
    /// `assigned_slot`. With a running match we rejoin it (when its
    /// configuration fits this build) and say that the match is being
    /// synchronized; a configuration that does not fit leaves the phase and
    /// the match as they were and shows the setup error. Without a match we
    /// are in the war room and say so.
    pub fn accept_welcome(
        &mut self,
        peer: PeerKey,
        player_id: u64,
        assigned_slot: usize,
        snapshot: LobbySnapshot,
        match_config: Option<MatchConfig>,
        catalog: &LobbyCatalog,
    ) -> (entry: MatchEntry)
        ensures
            final(self).host_peer == Some(peer),
            final(self).local_player_id == Some(player_id),
            final(self).assigned_slot == Some(assigned_slot),
            final(self).lobby == Some(snapshot),
            final(self).is_host == old(self).is_host,
            final(self).session_key == old(self).session_key,
            final(self).ui_dirty,
            match match_config {
                Some(config) => if setup_succeeds(config@, assigned_slot, catalog@) {
                    &&& entry matches MatchEntry::Started(setup) && setup_matches(setup, config@, assigned_slot, catalog@)
                    &&& final(self).match_config == Some(config)
                    &&& final(self).phase == OnlinePhase::InMatch
                    &&& longest_fitting_prefix(MATCH_RESUMED_STATUS@, ONLINE_MAX_STATUS_BYTES as nat, final(self).status@)
                } else {
                    &&& entry matches MatchEntry::Failed(error) && error == setup_error_of(config@, assigned_slot, catalog@)
                    &&& final(self).match_config == old(self).match_config
                    &&& final(self).phase == old(self).phase
                    &&& longest_fitting_prefix(setup_error_message(setup_error_of(config@, assigned_slot, catalog@)),
                        ONLINE_MAX_STATUS_BYTES as nat, final(self).status@)
                },
                None => {
                    &&& entry is Joined
                    &&& final(self).match_config is None
                    &&& final(self).phase == OnlinePhase::Lobby
                    &&& longest_fitting_prefix(JOINED_WAR_ROOM_STATUS@, ONLINE_MAX_STATUS_BYTES as nat, final(self).status@)
                },
            },
    {
        self.host_peer = Some(peer);
        self.local_player_id = Some(player_id);
        self.assigned_slot = Some(assigned_slot);
        self.lobby = Some(snapshot);
        self.ui_dirty = true;
        match match_config {
            Some(config) => match online_match_setup(&config, assigned_slot, catalog) {
                Ok(setup) => {
                    self.match_config = Some(config);
                    self.phase = OnlinePhase::InMatch;
                    self.set_status(MATCH_RESUMED_STATUS.to_owned());
                    MatchEntry::Started(setup)
                },
                Err(error) => {
                    self.set_status(error.message().to_owned());
                    MatchEntry::Failed(error)
                },
            },
            None => {
                self.match_config = None;
                self.phase = OnlinePhase::Lobby;
                self.set_status(JOINED_WAR_ROOM_STATUS.to_owned());
                MatchEntry::Joined
            },
        }
    }

    /// The host ended the match and sent the war room back: we return to it
    /// and the lifecycle of the match is forgotten.
    pub fn accept_return_to_lobby(&mut self, lifecycle: &mut LifecycleControl, snapshot: LobbySnapshot)
        ensures
            final(self).lobby == Some(snapshot),
            final(self).match_config is None,
            final(self).phase == OnlinePhase::Lobby,
            final(self).is_host == old(self).is_host,
            final(self).host_peer == old(self).host_peer,
            final(self).local_player_id == old(self).local_player_id,
            final(self).assigned_slot == old(self).assigned_slot,
            final(self).ui_dirty,
            final(lifecycle).is_reset(),
    {
        self.lobby = Some(snapshot);
        self.match_config = None;
        self.phase = OnlinePhase::Lobby;
        self.ui_dirty = true;
        lifecycle.reset_match();
    }

    /// A newer war room from our host replaces ours; anything from another
    /// peer is ignored.
    pub fn accept_lobby_snapshot(&mut self, peer: PeerKey, snapshot: LobbySnapshot) -> (accepted: bool)
        ensures
            accepted == (old(self).host_peer == Some(peer)),
            accepted ==> final(self).lobby == Some(snapshot) && final(self).ui_dirty,
            !accepted ==> final(self).lobby == old(self).lobby && final(self).ui_dirty == old(self).ui_dirty,
            final(self).phase == old(self).phase,
            final(self).host_peer == old(self).host_peer,
            final(self).match_config == old(self).match_config,
    {
        if self.host_peer == Some(peer) {
            self.lobby = Some(snapshot);
            self.ui_dirty = true;
            true
        } else {
            false
        }
    }

    /// Our host starts the match: we enter it from our lobby row when its
    /// configuration fits this build.
    pub fn accept_start_match(&mut self, peer: PeerKey, config: MatchConfig, catalog: &LobbyCatalog) -> (entry: MatchEntry)
        ensures
            old(self).host_peer != Some(peer) ==> entry is Ignored && final(self).status == old(self).status,
            old(self).host_peer == Some(peer) && old(self).assigned_slot is None ==> entry is MissingLocalSlot
                && longest_fitting_prefix(MISSING_LOCAL_SLOT_STATUS@, ONLINE_MAX_STATUS_BYTES as nat, final(self).status@),
            old(self).host_peer == Some(peer) ==> (old(self).assigned_slot matches Some(slot) ==> if setup_succeeds(config@, slot, catalog@) {
                &&& entry matches MatchEntry::Started(setup) && setup_matches(setup, config@, slot, catalog@)
                &&& final(self).match_config == Some(config)
                &&& final(self).phase == OnlinePhase::InMatch
                &&& final(self).status == old(self).status
            } else {
                &&& entry matches MatchEntry::Failed(error) && error == setup_error_of(config@, slot, catalog@)
                &&& longest_fitting_prefix(setup_error_message(setup_error_of(config@, slot, catalog@)),
                    ONLINE_MAX_STATUS_BYTES as nat, final(self).status@)
            }),
            !(entry is Started) ==> final(self).match_config == old(self).match_config && final(self).phase == old(self).phase,
            final(self).lobby == old(self).lobby,
            final(self).host_peer == old(self).host_peer,
            final(self).assigned_slot == old(self).assigned_slot,
    {
        if self.host_peer != Some(peer) {
            return MatchEntry::Ignored;
        }
        let slot = match self.assigned_slot {
            Some(slot) => slot,
            None => {
                self.set_status(MISSING_LOCAL_SLOT_STATUS.to_owned());
                return MatchEntry::MissingLocalSlot;
            },
        };
        match online_match_setup(&config, slot, catalog) {
            Ok(setup) => {
                self.match_config = Some(config);
                self.phase = OnlinePhase::InMatch;
                MatchEntry::Started(setup)
            },
            Err(error) => {
                self.set_status(error.message().to_owned());
                MatchEntry::Failed(error)
            },
        }
    }

    /// Our host closed the session: the lifecycle remembers why.
    pub fn accept_session_closed(&self, peer: PeerKey, reason: String, lifecycle: &mut LifecycleControl) -> (accepted: bool)
        ensures
            accepted == (self.host_peer == Some(peer)),
            accepted ==> final(lifecycle).session_closed_reason == Some(reason),
            !accepted ==> final(lifecycle).session_closed_reason == old(lifecycle).session_closed_reason,
            final(lifecycle).disconnected_players == old(lifecycle).disconnected_players,
            final(lifecycle).forfeited_players == old(lifecycle).forfeited_players,
    {
        if self.host_peer == Some(peer) {
            lifecycle.session_closed_reason = Some(reason);
            true
        } else {
            false
        }
    }

    /// Whether the host can start the match now: it must host, have a war
    /// room whose players are connected and ready, and a configuration that
    /// fits this build (seen from the host's own row 0).
    pub fn host_prepare_start(&self, catalog: &LobbyCatalog) -> (plan: Result<(MatchConfig, MatchSetup), StartBlocked>)
        ensures
            !self.is_host ==> plan == Err::<(MatchConfig, MatchSetup), StartBlocked>(StartBlocked::NotHost),
            self.is_host && self.lobby is None ==> plan == Err::<(MatchConfig, MatchSetup), StartBlocked>(StartBlocked::NoLobby),
            self.is_host && (self.lobby matches Some(lobby) && !can_start_spec(lobby@.slots))
                ==> plan == Err::<(MatchConfig, MatchSetup), StartBlocked>(StartBlocked::NotReady),
            self.is_host && (self.lobby matches Some(lobby) && can_start_spec(lobby@.slots)) ==> {
                let config = match_config_of(self.lobby->0@);
                &&& setup_succeeds(config, 0, catalog@) ==> (plan matches Ok((made, setup)) && made@ == config
                    && setup_matches(setup, config, 0, catalog@))
                &&& !setup_succeeds(config, 0, catalog@) ==> (plan matches Err(StartBlocked::Setup(error))
                    && error == setup_error_of(config, 0, catalog@))
            },
    {
        if !self.is_host {
            return Err(StartBlocked::NotHost);
        }
        let lobby = match &self.lobby {
            Some(lobby) => lobby,
            None => {
                return Err(StartBlocked::NoLobby);
            },
        };
        if !lobby.can_start() {
            return Err(StartBlocked::NotReady);
        }
        let config = MatchConfig::from_lobby(lobby);
        match online_match_setup(&config, 0, catalog) {
            Ok(setup) => Ok((config, setup)),
            Err(error) => Err(StartBlocked::Setup(error)),
        }
    }

    /// The start was announced: the host is in the match.
    pub fn commit_match_start(&mut self, config: MatchConfig)
        ensures
            final(self).match_config == Some(config),
            final(self).phase == OnlinePhase::InMatch,
            final(self).lobby == old(self).lobby,
            final(self).is_host == old(self).is_host,
    {
        self.match_config = Some(config);
        self.phase = OnlinePhase::InMatch;
    }

    /// The player a peer plays, as the host's runtime records it.
    pub fn host_player_for_peer(&self, peer: PeerKey) -> (player: Option<u64>)
        ensures
            self.host_runtime is None ==> player is None,
            self.host_runtime matches Some(runtime) ==> player == crate::table::lookup(runtime@.peers, peer),
    {
        match &self.host_runtime {
            Some(runtime) => runtime.player_for_peer(peer),
            None => None,
        }
    }

    /// The host applies a war-room command from `player_id` to its lobby;
    /// returns whether the lobby changed (and must be broadcast).
    pub fn host_apply_lobby_command(&mut self, catalog: &LobbyCatalog, player_id: u64, command: LobbyCommand) -> (changed: bool)
        requires
            catalog@.well_formed(),
        ensures
            old(self).lobby is None ==> !changed && final(self).lobby == old(self).lobby,
            old(self).lobby matches Some(lobby) ==> {
                let outcome = crate::lobby::lobby_after_command(lobby@, catalog@, player_id, command@);
                &&& final(self).lobby matches Some(after) && after@ == outcome.0
                &&& changed == outcome.1
            },
            final(self).phase == old(self).phase,
            final(self).is_host == old(self).is_host,
    {
        match &mut self.lobby {
            Some(lobby) => lobby.apply_command(catalog, player_id, command),
            None => false,
        }
    }
}

/// The world is simulated here: offline, or online as the host.
pub fn online_match_is_authoritative(session: Option<&OnlineSession>) -> (authoritative: bool)
    ensures
        authoritative == match session {
            Some(session) => session.phase != OnlinePhase::InMatch || session.is_host,
            None => true,
        },
{
    match session {
        Some(session) => session.phase != OnlinePhase::InMatch || session.is_host,
        None => true,
    }
}

/// Orders travel as commands over the network: in an online match.
pub fn online_match_uses_command_transport(session: Option<&OnlineSession>) -> (uses: bool)
    ensures
        uses == (session matches Some(session) && session.phase == OnlinePhase::InMatch),
{
    match session {
        Some(session) => session.phase == OnlinePhase::InMatch,
        None => false,
    }
}

/// We host a running online match.
pub fn online_match_is_host(session: Option<&OnlineSession>) -> (host: bool)
    ensures
        host == (session matches Some(session) && session.phase == OnlinePhase::InMatch && session.is_host),
{
    match session {
        Some(session) => session.phase == OnlinePhase::InMatch && session.is_host,
        None => false,
    }
}

/// We play a running online match as a client.
pub fn online_client_match(session: Option<&OnlineSession>) -> (client: bool)
    ensures
        client == (session matches Some(session) && session.phase == OnlinePhase::InMatch && !session.is_host),
{
    match session {
        Some(session) => session.phase == OnlinePhase::InMatch && !session.is_host,
        None => false,
    }
}

} // verus!
