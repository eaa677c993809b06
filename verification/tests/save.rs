use open_rts::lobby::{AiDifficulty, Faction, PlayerController};
use open_rts::save::{
    clock_parts, controller_from_repr, controller_to_repr, difficulty_from_ordinal, match_settings_from_save,
    replay_jump_target, save_version_supported, startup_loadout_from_ordinal, startup_loadout_to_ordinal, ReplayTimeline,
    SavedSettings, StartupLoadoutMode, REPLAY_KEYFRAME_INTERVAL_MS, SAVE_VERSION,
};
use open_rts::team::Team;

const MAP: &str = "res://source/match/maps/PlainAndSimple.tscn";

fn sample_settings() -> SavedSettings {
    SavedSettings {
        map_path: MAP.to_string(),
        starting_ore: 32,
        starting_crystal: 16,
        active_teams: vec![true, true],
        player_factions: vec![0, 1],
        player_color_slots: vec![0, 1],
        player_controllers: vec![1, 2 + 2],
        player_spawn_slots: vec![0, 1],
        ai_difficulties: vec![2, 2],
        allied: vec![vec![true, false], vec![false, true]],
        startup_loadout: startup_loadout_to_ordinal(StartupLoadoutMode::GodotSkirmish),
        visible_team: 0,
    }
}

#[test]
fn replay_jump_picks_neighbouring_keyframes() {
    let clocks = vec![0, 30_000, 60_000];
    assert_eq!(replay_jump_target(&clocks, 45_000, true), Some(1));
    assert_eq!(replay_jump_target(&clocks, 45_000, false), Some(2));
    assert_eq!(replay_jump_target(&clocks, 30_500, true), Some(0));
    assert_eq!(replay_jump_target(&clocks, 500, true), None);
    assert_eq!(replay_jump_target(&clocks, 61_000, false), None);
    assert_eq!(replay_jump_target(&Vec::new(), 10_000, true), None);
}

#[test]
fn saved_settings_rebuild_match_setup() {
    let save = sample_settings();
    let settings = match_settings_from_save(&save, &vec![MAP.to_string()]).expect("known map must resolve");
    assert_eq!(settings.starting_ore, 32);
    assert_eq!(settings.player_controllers[1], PlayerController::Ai(AiDifficulty::Normal));
    assert_eq!(settings.visible_team, Team::Player(0));
    assert!(settings.allied[0][0]);
    assert_eq!(settings.player_factions, vec![Faction::Alliance, Faction::Demon]);
    assert_eq!(settings.startup_loadout, StartupLoadoutMode::GodotSkirmish);
}

#[test]
fn saved_settings_with_unknown_map_do_not_load() {
    assert!(match_settings_from_save(&sample_settings(), &vec!["other".to_string()]).is_none());
}

#[test]
fn controllers_roundtrip_through_their_save_numbers() {
    for controller in [
        PlayerController::Nobody,
        PlayerController::Human,
        PlayerController::Ai(AiDifficulty::Beginner),
        PlayerController::Ai(AiDifficulty::Hard),
    ] {
        assert_eq!(controller_from_repr(controller_to_repr(controller)), controller);
    }
    assert_eq!(controller_to_repr(PlayerController::Ai(AiDifficulty::Easy)), 3);
    assert_eq!(controller_from_repr(200), PlayerController::Ai(AiDifficulty::Hard));
    assert_eq!(difficulty_from_ordinal(9), AiDifficulty::Hard);
    assert_eq!(startup_loadout_from_ordinal(1), StartupLoadoutMode::PlaytestExpanded);
    assert_eq!(startup_loadout_from_ordinal(7), StartupLoadoutMode::GodotSkirmish);
}

#[test]
fn only_the_current_save_version_loads() {
    assert!(save_version_supported(SAVE_VERSION));
    assert!(!save_version_supported(SAVE_VERSION + 1));
}

#[test]
fn recording_after_a_rewind_drops_the_diverged_future() {
    let mut timeline: ReplayTimeline<&str> = ReplayTimeline::new();
    assert!(timeline.keyframe_due(0));
    timeline.record_keyframe(0, "start");
    assert_eq!(timeline.next_record_at, REPLAY_KEYFRAME_INTERVAL_MS);
    timeline.record_keyframe(30_000, "a");
    timeline.record_keyframe(60_000, "b");
    timeline.record_keyframe(31_000, "rewound");
    assert_eq!(timeline.clocks(), vec![0, 31_000]);
    assert_eq!(timeline.frames[1].1, "rewound");
}

#[test]
fn jumps_pause_recording_until_the_load_lands() {
    let mut timeline: ReplayTimeline<u8> = ReplayTimeline::new();
    timeline.record_keyframe(0, 0);
    timeline.pause_recording();
    assert!(!timeline.keyframe_due(90_000));
    timeline.resume_after_load(45_000);
    assert_eq!(timeline.next_record_at, 75_000);
    timeline.reset_for_new_match(true);
    assert_eq!(timeline.frames.len(), 1);
    timeline.reset_for_new_match(false);
    assert!(timeline.frames.is_empty());
    assert_eq!(timeline.next_record_at, 0);
}

#[test]
fn clock_reads_minutes_and_seconds() {
    assert_eq!(clock_parts(0), (0, 0));
    assert_eq!(clock_parts(123_500), (2, 3));
    assert_eq!(clock_parts(59_999), (0, 59));
}

#[test]
fn keyframes_are_recorded_only_while_the_match_runs() {
    let timeline: ReplayTimeline<u8> = ReplayTimeline::new();
    assert!(timeline.should_record_keyframe(true, 0));
    assert!(!timeline.should_record_keyframe(false, 0));
}
