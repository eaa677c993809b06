//! Saved games and the replay timeline: how match settings are written as
//! plain numbers and read back, and which keyframe a replay jump lands on.
//! Match clocks are whole milliseconds.

use vstd::prelude::*;

use crate::lobby::{faction_at_spec, AiDifficulty, Faction, PlayerController};
use crate::team::Team;
use crate::text::same_text;

verus! {

/// Version written into every save; others are refused on load.
pub const SAVE_VERSION: u32 = 1;

/// A keyframe is recorded every this many milliseconds of match clock.
pub const REPLAY_KEYFRAME_INTERVAL_MS: u64 = 30_000;

/// Pressing "back" within this many milliseconds after a keyframe skips to
/// the one before it.
pub const REPLAY_JUMP_EPSILON_MS: u64 = 1_500;

/// The ordinal of an AI difficulty, as saves store it.
pub open spec fn difficulty_ordinal(difficulty: AiDifficulty) -> u8 {
    match difficulty {
        AiDifficulty::Beginner => 0,
        AiDifficulty::Easy => 1,
        AiDifficulty::Normal => 2,
        AiDifficulty::Hard => 3,
    }
}

/// The AI difficulty a saved ordinal stands for; unknown ordinals read as the
/// hardest.
pub open spec fn difficulty_of_ordinal(ordinal: u8) -> AiDifficulty {
    if ordinal == 0 {
        AiDifficulty::Beginner
    } else if ordinal == 1 {
        AiDifficulty::Easy
    } else if ordinal == 2 {
        AiDifficulty::Normal
    } else {
        AiDifficulty::Hard
    }
}

/// The ordinal of an AI difficulty.
pub fn difficulty_to_ordinal(difficulty: AiDifficulty) -> (ordinal: u8)
    ensures
        ordinal == difficulty_ordinal(difficulty),
{
    match difficulty {
        AiDifficulty::Beginner => 0,
        AiDifficulty::Easy => 1,
        AiDifficulty::Normal => 2,
        AiDifficulty::Hard => 3,
    }
}

/// The AI difficulty of a saved ordinal.
pub fn difficulty_from_ordinal(ordinal: u8) -> (difficulty: AiDifficulty)
    ensures
        difficulty == difficulty_of_ordinal(ordinal),
{
    match ordinal {
        0 => AiDifficulty::Beginner,
        1 => AiDifficulty::Easy,
        2 => AiDifficulty::Normal,
        _ => AiDifficulty::Hard,
    }
}

/// How a save stores who controls a player: 0 nobody, 1 a human, 2 plus the
/// difficulty ordinal for an AI.
pub open spec fn controller_repr(controller: PlayerController) -> u8 {
    match controller {
        PlayerController::Nobody => 0,
        PlayerController::Human => 1,
        PlayerController::Ai(difficulty) => (2 + difficulty_ordinal(difficulty)) as u8,
    }
}

/// The controller a saved number stands for.
pub open spec fn controller_of_repr(repr: u8) -> PlayerController {
    if repr == 0 {
        PlayerController::Nobody
    } else if repr == 1 {
        PlayerController::Human
    } else {
        PlayerController::Ai(difficulty_of_ordinal((repr - 2) as u8))
    }
}

/// The number a save stores for a controller.
pub fn controller_to_repr(controller: PlayerController) -> (repr: u8)
    ensures
        repr == controller_repr(controller),
{
    match controller {
        PlayerController::Nobody => 0,
        PlayerController::Human => 1,
        PlayerController::Ai(difficulty) => 2 + difficulty_to_ordinal(difficulty),
    }
}

/// The controller of a saved number.
pub fn controller_from_repr(repr: u8) -> (controller: PlayerController)
    ensures
        controller == controller_of_repr(repr),
{
    match repr {
        0 => PlayerController::Nobody,
        1 => PlayerController::Human,
        n => PlayerController::Ai(difficulty_from_ordinal(n - 2)),
    }
}

/// Reading back what was saved gives the same controller, for every
/// controller; and every number a save can hold reads as some controller
/// whose number reads back as that controller again.
pub proof fn law_controller_repr_roundtrip(controller: PlayerController, repr: u8)
    ensures
        controller_of_repr(controller_repr(controller)) == controller,
        controller_of_repr(controller_repr(controller_of_repr(repr))) == controller_of_repr(repr),
{
}

/// How the starting army is laid out.
#[derive(Clone, Copy, Debug, PartialEq, Eq, Structural)]
pub enum StartupLoadoutMode {
    GodotSkirmish,
    PlaytestExpanded,
}

/// The ordinal a save stores for a startup loadout.
pub open spec fn loadout_ordinal(mode: StartupLoadoutMode) -> u8 {
    match mode {
        StartupLoadoutMode::GodotSkirmish => 0,
        StartupLoadoutMode::PlaytestExpanded => 1,
    }
}

/// The ordinal of a startup loadout.
pub fn startup_loadout_to_ordinal(mode: StartupLoadoutMode) -> (ordinal: u8)
    ensures
        ordinal == loadout_ordinal(mode),
{
    match mode {
        StartupLoadoutMode::GodotSkirmish => 0,
        StartupLoadoutMode::PlaytestExpanded => 1,
    }
}

/// The loadout of a saved ordinal: the expanded playtest loadout only for its
/// own ordinal, the skirmish loadout for anything else.
pub fn startup_loadout_from_ordinal(ordinal: u8) -> (mode: StartupLoadoutMode)
    ensures
        mode == (if ordinal == loadout_ordinal(StartupLoadoutMode::PlaytestExpanded) {
            StartupLoadoutMode::PlaytestExpanded
        } else {
            StartupLoadoutMode::GodotSkirmish
        }),
{
    if ordinal == startup_loadout_to_ordinal(StartupLoadoutMode::PlaytestExpanded) {
        StartupLoadoutMode::PlaytestExpanded
    } else {
        StartupLoadoutMode::GodotSkirmish
    }
}

/// The match setup as a save stores it: plain numbers in place of enums.
pub struct SavedSettings {
    pub map_path: String,
    pub starting_ore: i32,
    pub starting_crystal: i32,
    pub active_teams: Vec<bool>,
    /// Faction of each player by its index in the faction list.
    pub player_factions: Vec<usize>,
    pub player_color_slots: Vec<usize>,
    /// Controller of each player, as `controller_repr` writes it.
    pub player_controllers: Vec<u8>,
    pub player_spawn_slots: Vec<usize>,
    /// AI difficulty ordinal of each player.
    pub ai_difficulties: Vec<u8>,
    pub allied: Vec<Vec<bool>>,
    /// Startup loadout ordinal.
    pub startup_loadout: u8,
    pub visible_team: usize,
}

/// The settings a match is started from.
pub struct MatchSetupSettings {
    pub map_path: String,
    pub starting_ore: i32,
    pub starting_crystal: i32,
    pub visible_team: Team,
    pub ai_difficulties: Vec<AiDifficulty>,
    pub allied: Vec<Vec<bool>>,
    pub startup_loadout: StartupLoadoutMode,
    pub active_teams: Vec<bool>,
    pub player_factions: Vec<Faction>,
    pub player_color_slots: Vec<usize>,
    pub player_controllers: Vec<PlayerController>,
    pub player_spawn_slots: Vec<usize>,
}

/// The relation table as plain rows.
pub open spec fn rows_of(table: Seq<Vec<bool>>) -> Seq<Seq<bool>> {
    Seq::new(table.len(), |i: int| table[i]@)
}

/// Index of the first known map path equal to `path`.
pub open spec fn map_path_index(paths: Seq<String>, path: Seq<char>) -> Option<int> {
    if exists|i: int| 0 <= i < paths.len() && (#[trigger] paths[i])@ == path {
        Some(choose|i: int| 0 <= i < paths.len() && (#[trigger] paths[i])@ == path
            && forall|j: int| 0 <= j < i ==> (#[trigger] paths[j])@ != path)
    } else {
        None
    }
}

fn copy_flags(values: &Vec<bool>) -> (copy: Vec<bool>)
    ensures
        copy@ == values@,
{
    let mut copy: Vec<bool> = Vec::new();
    let mut index: usize = 0;
    while index < values.len()
        invariant
            index <= values.len(),
            copy@ == values@.take(index as int),
        decreases values.len() - index,
    {
        copy.push(values[index]);
        index = index + 1;
        proof {
            assert(copy@ =~= values@.take(index as int));
        }
    }
    proof {
        assert(values@.take(index as int) =~= values@);
    }
    copy
}

fn copy_numbers(values: &Vec<usize>) -> (copy: Vec<usize>)
    ensures
        copy@ == values@,
{
    let mut copy: Vec<usize> = Vec::new();
    let mut index: usize = 0;
    while index < values.len()
        invariant
            index <= values.len(),
            copy@ == values@.take(index as int),
        decreases values.len() - index,
    {
        copy.push(values[index]);
        index = index + 1;
        proof {
            assert(copy@ =~= values@.take(index as int));
        }
    }
    proof {
        assert(values@.take(index as int) =~= values@);
    }
    copy
}

fn copy_table(rows: &Vec<Vec<bool>>) -> (copy: Vec<Vec<bool>>)
    ensures
        rows_of(copy@) == rows_of(rows@),
{
    let mut copy: Vec<Vec<bool>> = Vec::new();
    let mut index: usize = 0;
    while index < rows.len()
        invariant
            index <= rows.len(),
            copy@.len() == index,
            forall|i: int| 0 <= i < index ==> (#[trigger] copy@[i])@ == rows@[i]@,
        decreases rows.len() - index,
    {
        copy.push(copy_flags(&rows[index]));
        index = index + 1;
    }
    proof {
        assert(rows_of(copy@) =~= rows_of(rows@));
    }
    copy
}

fn find_map_path(paths: &Vec<String>, path: &String) -> (found: Option<usize>)
    ensures
        match found {
            Some(index) => map_path_index(paths@, path@) == Some(index as int) && index < paths@.len()
                && paths@[index as int]@ == path@,
            None => map_path_index(paths@, path@) is None,
        },
{
    let mut index: usize = 0;
    while index < paths.len()
        invariant
            index <= paths.len(),
            forall|j: int| 0 <= j < index ==> (#[trigger] paths@[j])@ != path@,
        decreases paths.len() - index,
    {
        if paths[index] == *path {
            proof {
                let chosen = choose|i: int| 0 <= i < paths@.len() && (#[trigger] paths@[i])@ == path@
                    && forall|j: int| 0 <= j < i ==> (#[trigger] paths@[j])@ != path@;
                assert(0 <= index < paths@.len() && paths@[index as int]@ == path@
                    && forall|j: int| 0 <= j < index ==> (#[trigger] paths@[j])@ != path@);
                if chosen < index {
                    assert(paths@[chosen]@ != path@);
                } else if chosen > index {
                    assert(paths@[index as int]@ != path@);
                }
            }
            return Some(index);
        }
        index = index + 1;
    }
    None
}

/// Rebuild the match setup from a save: `None` when the saved map is not one
/// of `map_paths`. Numbers read back as `difficulty_of_ordinal`,
/// `controller_of_repr` and the faction list (wrapping) say; the loadout is
/// the expanded playtest one only for its own ordinal.
pub fn match_settings_from_save(save: &SavedSettings, map_paths: &Vec<String>) -> (settings: Option<MatchSetupSettings>)
    ensures
        map_path_index(map_paths@, save.map_path@) is None <==> settings is None,
        settings matches Some(settings) ==> {
            &&& settings.map_path@ == save.map_path@
            &&& settings.starting_ore == save.starting_ore
            &&& settings.starting_crystal == save.starting_crystal
            &&& settings.visible_team == Team::Player(save.visible_team)
            &&& settings.ai_difficulties@ == save.ai_difficulties@.map_values(|ordinal: u8| difficulty_of_ordinal(ordinal))
            &&& rows_of(settings.allied@) == rows_of(save.allied@)
            &&& settings.startup_loadout == (if save.startup_loadout == loadout_ordinal(StartupLoadoutMode::PlaytestExpanded) {
                StartupLoadoutMode::PlaytestExpanded
            } else {
                StartupLoadoutMode::GodotSkirmish
            })
            &&& settings.active_teams@ == save.active_teams@
            &&& settings.player_factions@ == save.player_factions@.map_values(|index: usize| faction_at_spec(index as nat))
            &&& settings.player_color_slots@ == save.player_color_slots@
            &&& settings.player_controllers@ == save.player_controllers@.map_values(|repr: u8| controller_of_repr(repr))
            &&& settings.player_spawn_slots@ == save.player_spawn_slots@
        },
{
    let map = match find_map_path(map_paths, &save.map_path) {
        Some(index) => index,
        None => return None,
    };
    let mut ai_difficulties: Vec<AiDifficulty> = Vec::new();
    let mut index: usize = 0;
    while index < save.ai_difficulties.len()
        invariant
            index <= save.ai_difficulties.len(),
            ai_difficulties@ == save.ai_difficulties@.take(index as int).map_values(|ordinal: u8| difficulty_of_ordinal(ordinal)),
        decreases save.ai_difficulties.len() - index,
    {
        ai_difficulties.push(difficulty_from_ordinal(save.ai_difficulties[index]));
        index = index + 1;
        proof {
            assert(ai_difficulties@ =~= save.ai_difficulties@.take(index as int).map_values(|ordinal: u8| difficulty_of_ordinal(ordinal)));
        }
    }
    proof {
        assert(save.ai_difficulties@.take(index as int) =~= save.ai_difficulties@);
    }
    let mut player_factions: Vec<Faction> = Vec::new();
    let mut index: usize = 0;
    while index < save.player_factions.len()
        invariant
            index <= save.player_factions.len(),
            player_factions@ == save.player_factions@.take(index as int).map_values(|i: usize| faction_at_spec(i as nat)),
        decreases save.player_factions.len() - index,
    {
        player_factions.push(Faction::from_index(save.player_factions[index]));
        index = index + 1;
        proof {
            assert(player_factions@ =~= save.player_factions@.take(index as int).map_values(|i: usize| faction_at_spec(i as nat)));
        }
    }
    proof {
        assert(save.player_factions@.take(index as int) =~= save.player_factions@);
    }
    let mut player_controllers: Vec<PlayerController> = Vec::new();
    let mut index: usize = 0;
    while index < save.player_controllers.len()
        invariant
            index <= save.player_controllers.len(),
            player_controllers@ == save.player_controllers@.take(index as int).map_values(|repr: u8| controller_of_repr(repr)),
        decreases save.player_controllers.len() - index,
    {
        player_controllers.push(controller_from_repr(save.player_controllers[index]));
        index = index + 1;
        proof {
            assert(player_controllers@ =~= save.player_controllers@.take(index as int).map_values(|repr: u8| controller_of_repr(repr)));
        }
    }
    proof {
        assert(save.player_controllers@.take(index as int) =~= save.player_controllers@);
    }
    Some(MatchSetupSettings {
        map_path: map_paths[map].clone(),
        starting_ore: save.starting_ore,
        starting_crystal: save.starting_crystal,
        visible_team: Team::Player(save.visible_team),
        ai_difficulties,
        allied: copy_table(&save.allied),
        startup_loadout: startup_loadout_from_ordinal(save.startup_loadout),
        active_teams: copy_flags(&save.active_teams),
        player_factions,
        player_color_slots: copy_numbers(&save.player_color_slots),
        player_controllers,
        player_spawn_slots: copy_numbers(&save.player_spawn_slots),
    })
}

/// Whether a save of `version` can be loaded.
pub fn save_version_supported(version: u32) -> (supported: bool)
    ensures
        supported == (version == SAVE_VERSION),
{
    version == SAVE_VERSION
}

/// The keyframe a replay jump lands on, from the keyframe clocks and the
/// current clock: going back, the last keyframe more than the jump epsilon
/// before now; going forward, the first more than the epsilon after now.
pub open spec fn jump_target(clocks: Seq<u64>, now: u64, back: bool) -> Option<int> {
    if back {
        if exists|i: int| 0 <= i < clocks.len() && #[trigger] clocks[i] + REPLAY_JUMP_EPSILON_MS < now {
            Some(choose|i: int| 0 <= i < clocks.len() && #[trigger] clocks[i] + REPLAY_JUMP_EPSILON_MS < now
                && forall|j: int| i < j < clocks.len() ==> !(#[trigger] clocks[j] + REPLAY_JUMP_EPSILON_MS < now))
        } else {
            None
        }
    } else {
        if exists|i: int| 0 <= i < clocks.len() && #[trigger] clocks[i] > now + REPLAY_JUMP_EPSILON_MS {
            Some(choose|i: int| 0 <= i < clocks.len() && #[trigger] clocks[i] > now + REPLAY_JUMP_EPSILON_MS
                && forall|j: int| 0 <= j < i ==> !(#[trigger] clocks[j] > now + REPLAY_JUMP_EPSILON_MS))
        } else {
            None
        }
    }
}

/// Index of the keyframe a back or forward jump lands on; see `jump_target`.
pub fn replay_jump_target(clocks: &Vec<u64>, now: u64, back: bool) -> (target: Option<usize>)
    ensures
        match target {
            Some(index) => jump_target(clocks@, now, back) == Some(index as int) && index < clocks@.len(),
            None => jump_target(clocks@, now, back) is None,
        },
        target matches Some(index) ==> (if back {
            clocks@[index as int] + REPLAY_JUMP_EPSILON_MS < now
        } else {
            clocks@[index as int] > now + REPLAY_JUMP_EPSILON_MS
        }),
{
    if back {
        let mut index: usize = clocks.len();
        while index > 0
            invariant
                back,
                index <= clocks.len(),
                forall|j: int| index <= j < clocks@.len() ==> !(#[trigger] clocks@[j] + REPLAY_JUMP_EPSILON_MS < now),
            decreases index,
        {
            index = index - 1;
            if now > REPLAY_JUMP_EPSILON_MS && clocks[index] < now - REPLAY_JUMP_EPSILON_MS {
                proof {
                    assert(clocks@[index as int] + REPLAY_JUMP_EPSILON_MS < now
                        && forall|j: int| index < j < clocks@.len() ==> !(#[trigger] clocks@[j] + REPLAY_JUMP_EPSILON_MS < now));
                    let chosen = choose|i: int| 0 <= i < clocks@.len() && #[trigger] clocks@[i] + REPLAY_JUMP_EPSILON_MS < now
                        && forall|j: int| i < j < clocks@.len() ==> !(#[trigger] clocks@[j] + REPLAY_JUMP_EPSILON_MS < now);
                    if chosen < index {
                        assert(!(clocks@[index as int] + REPLAY_JUMP_EPSILON_MS < now));
                    } else if chosen > index {
                        assert(!(clocks@[chosen] + REPLAY_JUMP_EPSILON_MS < now));
                    }
                }
                return Some(index);
            }
        }
        None
    } else {
        let mut index: usize = 0;
        while index < clocks.len()
            invariant
                !back,
                index <= clocks.len(),
                forall|j: int| 0 <= j < index ==> !(#[trigger] clocks@[j] > now + REPLAY_JUMP_EPSILON_MS),
            decreases clocks.len() - index,
        {
            if now <= u64::MAX - REPLAY_JUMP_EPSILON_MS && clocks[index] > now + REPLAY_JUMP_EPSILON_MS {
                proof {
                    assert(clocks@[index as int] > now + REPLAY_JUMP_EPSILON_MS
                        && forall|j: int| 0 <= j < index ==> !(#[trigger] clocks@[j] > now + REPLAY_JUMP_EPSILON_MS));
                    let chosen = choose|i: int| 0 <= i < clocks@.len() && #[trigger] clocks@[i] > now + REPLAY_JUMP_EPSILON_MS
                        && forall|j: int| 0 <= j < i ==> !(#[trigger] clocks@[j] > now + REPLAY_JUMP_EPSILON_MS);
                    if chosen < index {
                        assert(!(clocks@[chosen] > now + REPLAY_JUMP_EPSILON_MS));
                    } else if chosen > index {
                        assert(!(clocks@[index as int] > now + REPLAY_JUMP_EPSILON_MS));
                    }
                }
                return Some(index);
            }
            index = index + 1;
        }
        None
    }
}

/// The in-memory replay: keyframes `(clock, frame)` and the clock at which
/// the next one is due (`u64::MAX` while a jump is being restored).
pub struct ReplayTimeline<F> {
    pub frames: Vec<(u64, F)>,
    pub next_record_at: u64,
}

/// The keyframes are in strictly increasing clock order.
pub open spec fn clocks_increasing<F>(frames: Seq<(u64, F)>) -> bool {
    forall|i: int, j: int| 0 <= i < j < frames.len() ==> #[trigger] frames[i].0 < #[trigger] frames[j].0
}

/// The keyframes kept when one is recorded at `clock`: those more than the
/// jump epsilon before it, in order. Later ones belong to a future that the
/// player rewound away from.
pub open spec fn frames_before<F>(frames: Seq<(u64, F)>, clock: u64) -> Seq<(u64, F)>
    decreases frames.len(),
{
    if frames.len() == 0 {
        frames
    } else {
        let earlier = frames_before(frames.drop_last(), clock);
        if frames.last().0 + REPLAY_JUMP_EPSILON_MS < clock {
            earlier.push(frames.last())
        } else {
            earlier
        }
    }
}

proof fn lemma_frames_before<F>(frames: Seq<(u64, F)>, clock: u64)
    ensures
        forall|i: int| 0 <= i < frames_before(frames, clock).len() ==>
            #[trigger] frames_before(frames, clock)[i].0 + REPLAY_JUMP_EPSILON_MS < clock,
        forall|i: int| 0 <= i < frames_before(frames, clock).len() ==>
            exists|k: int| 0 <= k < frames.len() && frames[k] == #[trigger] frames_before(frames, clock)[i],
        clocks_increasing(frames) ==> clocks_increasing(frames_before(frames, clock)),
    decreases frames.len(),
{
    if frames.len() > 0 {
        let earlier = frames_before(frames.drop_last(), clock);
        lemma_frames_before(frames.drop_last(), clock);
        assert forall|i: int| 0 <= i < frames_before(frames, clock).len() implies
            exists|k: int| 0 <= k < frames.len() && frames[k] == #[trigger] frames_before(frames, clock)[i] by {
            if i < earlier.len() {
                let k = choose|k: int| 0 <= k < frames.drop_last().len() && frames.drop_last()[k] == #[trigger] earlier[i];
                assert(frames[k] == frames_before(frames, clock)[i]);
            } else {
                assert(frames[frames.len() - 1] == frames_before(frames, clock)[i]);
            }
        }
        if clocks_increasing(frames) {
            assert(clocks_increasing(frames.drop_last()));
            assert forall|i: int, j: int| 0 <= i < j < frames_before(frames, clock).len() implies
                #[trigger] frames_before(frames, clock)[i].0 < #[trigger] frames_before(frames, clock)[j].0 by {
                if j == earlier.len() {
                    let k = choose|k: int| 0 <= k < frames.drop_last().len() && frames.drop_last()[k] == #[trigger] earlier[i];
                    assert(frames[k].0 < frames[frames.len() - 1].0);
                } else {
                    assert(earlier[i].0 < earlier[j].0);
                }
            }
        }
    }
}

impl<F> ReplayTimeline<F> {
    /// An empty timeline whose first keyframe is due at once.
    pub fn new() -> (timeline: ReplayTimeline<F>)
        ensures
            timeline.frames@.len() == 0,
            timeline.next_record_at == 0,
    {
        ReplayTimeline { frames: Vec::new(), next_record_at: 0 }
    }

    /// Whether a keyframe is due at `clock`.
    pub fn keyframe_due(&self, clock: u64) -> (due: bool)
        ensures
            due == (clock >= self.next_record_at),
    {
        clock >= self.next_record_at
    }

    /// Whether to record a keyframe at `clock`: only while the match runs,
    /// once the clock reached the next keyframe time.
    pub fn should_record_keyframe(&self, match_running: bool, clock: u64) -> (record: bool)
        ensures
            record == (match_running && clock >= self.next_record_at),
    {
        match_running && self.keyframe_due(clock)
    }

    /// Record `frame` at `clock`: keyframes not safely before it are dropped
    /// (the timeline diverged), then it is appended and the next one falls an
    /// interval later.
    pub fn record_keyframe(&mut self, clock: u64, frame: F)
        requires
            clock <= u64::MAX - REPLAY_KEYFRAME_INTERVAL_MS,
        ensures
            final(self).frames@ == frames_before(old(self).frames@, clock).push((clock, frame)),
            final(self).next_record_at == clock + REPLAY_KEYFRAME_INTERVAL_MS,
            clocks_increasing(old(self).frames@) ==> clocks_increasing(final(self).frames@),
    {
        let ghost initial_frames = self.frames@;
        let mut rest: Vec<(u64, F)> = Vec::new();
        std::mem::swap(&mut rest, &mut self.frames);
        let ghost total = rest@.len();
        while rest.len() > 0
            invariant
                total == initial_frames.len(),
                rest@.len() <= total,
                rest@ == initial_frames.skip(total - rest@.len()),
                self.frames@ == frames_before(initial_frames.take(total - rest@.len()), clock),
            decreases rest.len(),
        {
            let ghost done = total - rest@.len();
            proof {
                assert(initial_frames.take(done + 1).drop_last() =~= initial_frames.take(done));
                assert(initial_frames.take(done + 1).last() == initial_frames[done]);
                assert(rest@[0] == initial_frames[done]);
            }
            let keyframe = rest.remove(0);
            if clock >= REPLAY_JUMP_EPSILON_MS && keyframe.0 < clock - REPLAY_JUMP_EPSILON_MS {
                self.frames.push(keyframe);
            }
            proof {
                assert(rest@ =~= initial_frames.skip(total - rest@.len()));
            }
        }
        proof {
            assert(initial_frames.take(total as int) =~= initial_frames);
            lemma_frames_before(initial_frames, clock);
        }
        self.frames.push((clock, frame));
        self.next_record_at = clock + REPLAY_KEYFRAME_INTERVAL_MS;
        proof {
            let kept = frames_before(initial_frames, clock);
            if clocks_increasing(initial_frames) {
                assert forall|i: int, j: int| 0 <= i < j < self.frames@.len() implies
                    #[trigger] self.frames@[i].0 < #[trigger] self.frames@[j].0 by {
                    if j == kept.len() {
                        assert(kept[i].0 + REPLAY_JUMP_EPSILON_MS < clock);
                    } else {
                        assert(kept[i].0 < kept[j].0);
                    }
                }
            }
        }
    }

    /// A fresh match starts a fresh timeline; a load keeps it so that later
    /// keyframes can still be reached.
    pub fn reset_for_new_match(&mut self, loading_save: bool)
        ensures
            loading_save ==> final(self).frames@ == old(self).frames@ && final(self).next_record_at == old(self).next_record_at,
            !loading_save ==> final(self).frames@.len() == 0 && final(self).next_record_at == 0,
    {
        if !loading_save {
            self.frames.clear();
            self.next_record_at = 0;
        }
    }

    /// Stop recording while a jump is being restored.
    pub fn pause_recording(&mut self)
        ensures
            final(self).frames@ == old(self).frames@,
            final(self).next_record_at == u64::MAX,
    {
        self.next_record_at = u64::MAX;
    }

    /// After a jump or a load lands at `clock`, the next keyframe falls an
    /// interval later when recording was paused or is overdue.
    pub fn resume_after_load(&mut self, clock: u64)
        requires
            clock <= u64::MAX - REPLAY_KEYFRAME_INTERVAL_MS,
        ensures
            final(self).frames@ == old(self).frames@,
            final(self).next_record_at == (if old(self).next_record_at == u64::MAX || old(self).next_record_at < clock {
                clock + REPLAY_KEYFRAME_INTERVAL_MS
            } else {
                old(self).next_record_at as int
            }),
    {
        if self.next_record_at == u64::MAX || self.next_record_at < clock {
            self.next_record_at = clock + REPLAY_KEYFRAME_INTERVAL_MS;
        }
    }

    /// The clocks of the keyframes, in order.
    pub fn clocks(&self) -> (clocks: Vec<u64>)
        ensures
            clocks@.len() == self.frames@.len(),
            forall|i: int| 0 <= i < clocks@.len() ==> #[trigger] clocks@[i] == self.frames@[i].0,
    {
        let mut clocks: Vec<u64> = Vec::new();
        let mut index: usize = 0;
        while index < self.frames.len()
            invariant
                index <= self.frames.len(),
                clocks@.len() == index,
                forall|i: int| 0 <= i < index ==> #[trigger] clocks@[i] == self.frames@[i].0,
            decreases self.frames.len() - index,
        {
            clocks.push(self.frames[index].0);
            index = index + 1;
        }
        clocks
    }
}

/// A timeline built only by recording keeps its keyframes in strictly
/// increasing clock order, and every keyframe kept by a recording lies more
/// than the jump epsilon before the new one.
pub proof fn law_recording_keeps_timeline_ordered<F>(frames: Seq<(u64, F)>, clock: u64, frame: F)
    requires
        clocks_increasing(frames),
    ensures
        clocks_increasing(frames_before(frames, clock).push((clock, frame))),
        forall|i: int| 0 <= i < frames_before(frames, clock).len() ==>
            #[trigger] frames_before(frames, clock)[i].0 + REPLAY_JUMP_EPSILON_MS < clock,
{
    lemma_frames_before(frames, clock);
    let kept = frames_before(frames, clock);
    assert forall|i: int, j: int| 0 <= i < j < kept.push((clock, frame)).len() implies
        #[trigger] kept.push((clock, frame))[i].0 < #[trigger] kept.push((clock, frame))[j].0 by {
        if j == kept.len() {
            assert(kept[i].0 + REPLAY_JUMP_EPSILON_MS < clock);
        } else {
            assert(kept[i].0 < kept[j].0);
        }
    }
}

/// A match clock shown as minutes and seconds (`m:ss`): whole minutes, and
/// the seconds past the minute.
pub fn clock_parts(clock: u64) -> (parts: (u64, u64))
    ensures
        parts.0 == clock / 60_000,
        parts.1 == (clock / 1000) % 60,
        parts.1 < 60,
{
    (clock / 60_000, (clock / 1000) % 60)
}

} // verus!
