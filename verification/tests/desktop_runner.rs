use dreadstep_bevy::cli::DesktopOptions;
use dreadstep_bevy::input::Command;
use dreadstep_bevy::runner::{
    JournalFrames,
    asset_load_path, asset_step, audio_playback, covers_all, enemy_turn, exit_status, fault_exit,
    finalization_error, journal_file_name, journal_line, reach_fixture_valid,
    replay_file_name, showcase_command_kind_list, showcase_event_kind_list, smoke_attack,
    smoke_enemy_command, smoke_shutdown_reason, smoke_terminal_kind, startup_asset, startup_plan,
    target_alive, AssetEntryState, AssetLoad, AssetStep, AudioPlayback, FinalizationReport,
    JournalSequence, StartupAsset,
};
use dreadstep_bevy::session::DesktopStatus;
use dreadstep_bevy::world::Actor;
use dreadstep_bevy::{ActorId, ActorKind, Position};
use serde_json::Value;

fn actor(id: u32, x: i32, y: i32, melee_reach: u8, alive: bool) -> Actor {
    Actor {
        id: ActorId::new(id),
        kind: if id == 1 { ActorKind::Player } else { ActorKind::Enemy },
        position: Position::new(x, y),
        hit_points: 4,
        melee_reach,
        ranged_ammo: 0,
        ready_at: 0,
        equipped_item: None,
        alive,
        inventory: Vec::new(),
    }
}

#[test]
fn smoke_runs_always_use_the_item_fixture() {
    let mut options = DesktopOptions::default();
    options.procedural = true;
    options.depth = 3;
    let visible = startup_plan(&options);
    assert!(visible.procedural_floor);
    assert_eq!(visible.depth, Some(3));
    assert_eq!(visible.scenario_name(), "procedural_floor");
    assert_eq!(visible.mode_name(), "desktop");
    options.smoke = true;
    let smoke = startup_plan(&options);
    assert!(!smoke.procedural_floor);
    assert_eq!(smoke.depth, None);
    assert_eq!(smoke.scenario_name(), "starter_item_floor");
    assert_eq!(smoke.mode_name(), "smoke");
}

#[test]
fn journal_and_replay_names_never_overwrite_earlier_attempts() {
    assert_eq!(journal_file_name(1700000000123, 42, 0), "run-1700000000123-42.jsonl");
    assert_eq!(journal_file_name(5, 42, 3), "run-5-42-3.jsonl");
    assert_eq!(replay_file_name("run-5-42", 0), "run-5-42.replay.json");
    assert_eq!(replay_file_name("run-5-42", 12), "run-5-42.replay-12.json");
}

#[test]
fn journal_lines_are_json_objects_with_sorted_members() {
    let line = journal_line(7, 15, "input_request", "{\"key\":\"Escape\"}");
    assert_eq!(
        line,
        "{\"elapsed_ms\":15,\"kind\":\"input_request\",\"payload\":{\"key\":\"Escape\"},\"schema_version\":1,\"sequence\":7}\n"
    );
    let value: Value = serde_json::from_str(line.trim_end()).expect("a journal line is JSON");
    assert_eq!(value["sequence"], 7);
    assert_eq!(value["schema_version"], 1);
    let odd = journal_line(1, 0, "a\"b\\c\n\u{1}", "null");
    let value: Value = serde_json::from_str(odd.trim_end()).expect("escaped kinds stay JSON");
    assert_eq!(value["kind"], "a\"b\\c\n\u{1}");
    assert!(odd.contains("\\u0001"));
}

#[test]
fn journal_sequence_starts_at_one_and_reports_overflow() {
    let mut sequence = JournalSequence::new();
    assert_eq!(sequence.next(), Ok(1));
    assert_eq!(sequence.next(), Ok(2));
    let mut full = JournalSequence { last: u64::MAX };
    let error = full.next().expect_err("the sequence is exhausted");
    assert_eq!(error.message(), "journal sequence overflow");
    assert_eq!(full.last, u64::MAX);
}

#[test]
fn optional_assets_load_from_the_asset_root_or_warn() {
    assert_eq!(asset_load_path("assets/dreadstep/player.png"), "dreadstep/player.png");
    assert_eq!(asset_load_path("art/player.png"), "art/player.png");
    assert_eq!(
        startup_asset("assets/dreadstep/enemy.png", true),
        StartupAsset::Load { asset_path: "dreadstep/enemy.png".to_string() }
    );
    assert_eq!(startup_asset("assets/dreadstep/enemy.png", false), StartupAsset::Missing);

    let mut state = AssetEntryState { warned: false, outcome_recorded: false };
    assert_eq!(asset_step(false, AssetLoad::Failed, &mut state), AssetStep::Nothing);
    assert_eq!(asset_step(true, AssetLoad::Pending, &mut state), AssetStep::Apply { record_loaded: false });
    assert_eq!(asset_step(true, AssetLoad::Loaded, &mut state), AssetStep::Apply { record_loaded: true });
    assert_eq!(asset_step(true, AssetLoad::Loaded, &mut state), AssetStep::Apply { record_loaded: false });
    let mut failing = AssetEntryState { warned: false, outcome_recorded: false };
    assert_eq!(asset_step(true, AssetLoad::Failed, &mut failing), AssetStep::Fallback);
    assert!(failing.warned);
    assert_eq!(asset_step(true, AssetLoad::Failed, &mut failing), AssetStep::Apply { record_loaded: false });
}

#[test]
fn audio_files_play_only_from_the_asset_root() {
    let missing = audio_playback("assets/audio/dreadstep/moved.ogg", false);
    assert_eq!(missing, AudioPlayback::Missing);
    assert_eq!(missing.outcome_name(), "missing_optional_audio");
    let local = audio_playback("audio/root.ogg", true);
    assert_eq!(local, AudioPlayback::UnsupportedRoot);
    assert_eq!(local.outcome_name(), "unsupported_asset_root");
    let played = audio_playback("assets/audio/dreadstep/moved.ogg", true);
    assert_eq!(played, AudioPlayback::Play { asset_path: "audio/dreadstep/moved.ogg".to_string() });
    assert_eq!(played.outcome_name(), "requested");
}

#[test]
fn faults_exit_once_and_finalization_reports_the_first_error() {
    let faulted = DesktopStatus::Faulted("boom".to_string());
    assert_eq!(fault_exit(&faulted, false), Some(true));
    assert_eq!(fault_exit(&faulted, true), Some(false));
    assert_eq!(fault_exit(&DesktopStatus::Running, false), None);
    assert_eq!(
        finalization_error(Some("export".to_string()), Some("journal".to_string()), &faulted),
        Some("export".to_string())
    );
    assert_eq!(finalization_error(None, Some("journal".to_string()), &faulted), Some("journal".to_string()));
    assert_eq!(finalization_error(None, None, &faulted), Some("boom".to_string()));
    assert_eq!(finalization_error(None, None, &DesktopStatus::Victory), None);

    let mut report = FinalizationReport::new();
    assert_eq!(report.outcome(), Err("desktop exited before finalization".to_string()));
    report.finish(None);
    assert_eq!(report.outcome(), Ok(()));
    report.finish(Some("export failed".to_string()));
    assert_eq!(report.outcome(), Err("export failed".to_string()));
}

#[test]
fn smoke_reach_fixture_needs_reach_two_at_distance_two() {
    let ready = vec![actor(1, 2, 1, 2, true), actor(2, 4, 1, 1, true)];
    assert!(reach_fixture_valid(&ready));
    assert!(target_alive(&ready));
    let short = vec![actor(1, 2, 1, 1, true), actor(2, 4, 1, 1, true)];
    assert!(!reach_fixture_valid(&short));
    let far = vec![actor(1, 2, 1, 2, true), actor(2, 4, 2, 1, false)];
    assert!(!reach_fixture_valid(&far));
    assert!(!target_alive(&far));
    assert!(!reach_fixture_valid(&vec![actor(1, 0, 0, 2, true)]));
}

#[test]
fn smoke_enemies_hold_their_attacks_against_a_weak_player() {
    let enemy = ActorId::new(2);
    let attack = Command::Attack { actor: enemy, target: ActorId::new(1) };
    let legal = vec![attack, Command::Wait { actor: enemy }];
    assert_eq!(smoke_enemy_command(Some(attack), &legal, enemy, Some(10)), Some(attack));
    assert_eq!(smoke_enemy_command(Some(attack), &legal, enemy, Some(3)), Some(Command::Wait { actor: enemy }));
    assert_eq!(smoke_enemy_command(Some(attack), &legal[..1], enemy, Some(3)), None);
    let chase = Command::Chase { actor: enemy, target: ActorId::new(1) };
    assert_eq!(smoke_enemy_command(Some(chase), &legal, enemy, Some(1)), Some(chase));
    assert_eq!(smoke_enemy_command(None, &legal, enemy, Some(1)), None);
    assert_eq!(enemy_turn(Some(ActorId::new(1))), None);
    assert_eq!(enemy_turn(Some(enemy)), Some(enemy));
    assert_eq!(enemy_turn(None), None);
    let melee = Command::Attack { actor: ActorId::new(1), target: ActorId::new(2) };
    assert_eq!(smoke_attack(&[Command::Wait { actor: ActorId::new(1) }, melee]), Some(melee));
    assert_eq!(smoke_attack(&[Command::Wait { actor: ActorId::new(1) }]), None);
}

#[test]
fn smoke_coverage_and_final_records() {
    let expected = showcase_command_kind_list();
    assert_eq!(expected.len(), 19);
    assert_eq!(showcase_event_kind_list().len(), 20);
    let mut observed: Vec<String> = expected.iter().map(|k| k.to_string()).collect();
    assert!(covers_all(&observed, &expected));
    observed.retain(|k| k != "throw");
    assert!(!covers_all(&observed, &expected));
    assert_eq!(smoke_terminal_kind(true), "terminal_fault");
    assert_eq!(smoke_terminal_kind(false), "smoke_complete");
    assert_eq!(smoke_shutdown_reason(true), "smoke_fault");
    assert_eq!(exit_status(true), 1);
    assert_eq!(exit_status(false), 0);
}

#[test]
fn framed_journal_lines_are_numbered_from_one() {
    let mut frames = JournalFrames::new();
    let first = frames.frame(5, "run_started", "{}").expect("first line frames");
    let second = frames.frame(9, "command_requested", "{\"seed\":7}").expect("second line frames");
    assert_eq!(
        first,
        "{\"elapsed_ms\":5,\"kind\":\"run_started\",\"payload\":{},\"schema_version\":1,\"sequence\":1}\n"
    );
    assert!(second.ends_with(",\"schema_version\":1,\"sequence\":2}\n"));
    let value: serde_json::Value = serde_json::from_str(second.trim_end()).expect("line parses");
    assert_eq!(value["kind"], "command_requested");
    assert_eq!(value["payload"]["seed"], 7);
}
