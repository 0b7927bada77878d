use dreadstep_bevy::events::{Event, HealingResult};
use dreadstep_bevy::evidence::{enemy_behavior_name, enemy_behavior_value};
use dreadstep_bevy::input::{
    dispatch_keyboard_command, key_name, key_outcome, unavailable_message, Command, Key,
    KeyOutcome, KeyboardState, PresentationInput, PresentationKeyboardMode,
};
use dreadstep_bevy::panels::{enemies_defeated, hud_panels, journal_panel};
use dreadstep_bevy::render::{mirror_pixel_position, SceneMirrorComponents};
use dreadstep_bevy::runner::{
    attack_step, depth_overflow_fault, enemy_driver_step, no_enemy_command_fault,
    reach_target_cell, showcase_config, smoke_closing, smoke_driver_exhausted, smoke_enemy_fault,
    smoke_opening, start_failure, AttackStep, EnemyDriverStep, RestartKind, SmokeFixture,
};
use dreadstep_bevy::scene::{PresentationCamera, PresentationFocus, SceneTile};
use dreadstep_bevy::input::{input_request, InputRequest};
use dreadstep_bevy::session::{
    accepts_commands, cycle_selection, next_floor, shutdown_reason, status_after_close,
    status_after_escape, DesktopSession, DesktopStatus,
};
use dreadstep_bevy::text::text_before;
use dreadstep_bevy::world::{Actor, PresentationSnapshot};
use dreadstep_bevy::{
    ActorId, ActorKind, Direction, EnemyBehavior, ItemId, Position, PresentationTileSize,
    RunOutcome, Tile, TileMap,
};

const PLAYER: ActorId = ActorId { id: 1 };

fn actor(id: u32, kind: ActorKind, alive: bool) -> Actor {
    Actor {
        id: ActorId::new(id),
        kind,
        position: Position::new(id as i32, 0),
        hit_points: if alive { 6 } else { 0 },
        melee_reach: 1,
        ranged_ammo: 0,
        ready_at: 0,
        equipped_item: None,
        alive,
        inventory: Vec::new(),
    }
}

#[test]
fn accepted_events_show_messages_kinds_and_the_terminal_outcome() {
    let mut session = DesktopSession::new(7);
    session.note_command(Command::Move { actor: PLAYER, direction: Direction::East });
    assert_eq!(session.command_kinds, vec!["move".to_string()]);
    let events = [
        Event::Moved { actor: PLAYER, from: Position::new(0, 0), to: Position::new(1, 0) },
        Event::Died { actor: ActorId::new(2) },
    ];
    let kind = session.accept(&events, RunOutcome::Victory);
    assert_eq!(kind, Some("terminal_victory".to_string()));
    assert_eq!(session.status, DesktopStatus::Victory);
    assert_eq!(
        session.messages,
        vec![
            "Actor 1 moved to (1, 0).".to_string(),
            "Actor 2 died.".to_string(),
            "Showcase complete — every enemy is dead.".to_string(),
        ]
    );
    assert_eq!(session.event_kinds, vec!["died".to_string(), "moved".to_string()]);
}

#[test]
fn the_message_log_keeps_only_the_eight_most_recent_lines() {
    let mut session = DesktopSession::new(7);
    let events: Vec<Event> = (0..10).map(|t| Event::Waited { actor: PLAYER, at: t }).collect();
    assert_eq!(session.accept(&events, RunOutcome::InProgress), None);
    assert_eq!(session.messages.len(), 8);
    assert_eq!(session.messages[0], "Actor 1 waited at t2.");
    assert_eq!(session.messages[7], "Actor 1 waited at t9.");
    assert_eq!(session.event_kinds, vec!["waited".to_string()]);
    session.reject("blocked");
    assert_eq!(session.messages[7], "Rejected: blocked");
    assert_eq!(session.status, DesktopStatus::Running);
}

#[test]
fn a_lost_run_ends_in_defeat_with_its_message() {
    let mut session = DesktopSession::new(7);
    let events = [Event::Attacked {
        attacker: ActorId::new(2),
        target: PLAYER,
        damage: 4,
        remaining_hit_points: 0,
    }];
    assert_eq!(session.accept(&events, RunOutcome::Defeat), Some("terminal_defeat".to_string()));
    assert_eq!(session.status, DesktopStatus::Defeat);
    assert_eq!(session.messages.last().map(String::as_str), Some("Showcase failed — the player is dead."));
    let healing = [Event::ItemConsumed {
        actor: PLAYER,
        item: ItemId::new(101),
        healing: Some(HealingResult { amount: 2, remaining_hit_points: 10 }),
        ammunition: None,
    }];
    let mut other = DesktopSession::new(7);
    other.accept(&healing, RunOutcome::InProgress);
    assert_eq!(other.messages, vec!["Actor 1 consumed item 101 and restored 2 HP (10 HP).".to_string()]);
}

#[test]
fn session_transitions_follow_the_run() {
    let mut session = DesktopSession::new_with_scenario(7, true, 2);
    assert_eq!(next_floor(true, &DesktopStatus::Victory, 2), Some(Some(3)));
    assert_eq!(next_floor(true, &DesktopStatus::Victory, u32::MAX), Some(None));
    assert_eq!(next_floor(false, &DesktopStatus::Victory, 2), None);
    assert_eq!(next_floor(true, &DesktopStatus::Defeat, 2), None);
    session.status = DesktopStatus::Victory;
    session.enter_floor(3);
    assert_eq!(session.depth, 3);
    assert_eq!(session.status, DesktopStatus::Running);
    assert_eq!(session.selected_item, None);
    session.status = DesktopStatus::Defeat;
    session.push_message("x".to_string());
    session.restart();
    assert_eq!(session.status, DesktopStatus::Running);
    assert!(session.messages.is_empty());
    assert_eq!(session.selected_item, Some(ItemId::new(103)));
    assert_eq!(
        status_after_close(DesktopStatus::Defeat),
        DesktopStatus::Shutdown("window_close".to_string())
    );
    assert_eq!(status_after_close(DesktopStatus::Victory), DesktopStatus::Victory);
    assert_eq!(shutdown_reason(&DesktopStatus::Shutdown("escape".to_string()), false), "escape");
    assert_eq!(shutdown_reason(&DesktopStatus::Victory, true), "runtime_fault");
    assert_eq!(shutdown_reason(&DesktopStatus::Running, false), "window_closed_or_ctrl_c");
}

#[test]
fn inventory_selection_cycles_forward_and_back() {
    let items = [ItemId::new(101), ItemId::new(102), ItemId::new(103)];
    assert_eq!(cycle_selection(&items, Some(ItemId::new(103)), false), Some(ItemId::new(101)));
    assert_eq!(cycle_selection(&items, Some(ItemId::new(101)), true), Some(ItemId::new(103)));
    assert_eq!(cycle_selection(&items, Some(ItemId::new(9)), true), Some(ItemId::new(101)));
    assert_eq!(cycle_selection(&[], Some(ItemId::new(9)), false), None);
    let forward = cycle_selection(&items, Some(ItemId::new(102)), false);
    assert_eq!(cycle_selection(&items, forward, true), Some(ItemId::new(102)));
}

#[test]
fn keys_are_refused_while_an_enemy_is_scheduled() {
    let legal = [Command::Wait { actor: PLAYER }];
    assert_eq!(key_outcome(Key::Space, Some(ActorId::new(2)), PLAYER, &legal, None), KeyOutcome::EnemyScheduled);
    assert_eq!(key_outcome(Key::KeyF, Some(PLAYER), PLAYER, &legal, None), KeyOutcome::Unavailable);
    assert_eq!(
        key_outcome(Key::Enter, Some(PLAYER), PLAYER, &legal, None),
        KeyOutcome::Submit(Command::Wait { actor: PLAYER })
    );
    assert_eq!(key_name(Key::ArrowLeft), "ArrowLeft");
    assert_eq!(unavailable_message(Key::KeyF, true), "Unavailable input: KeyF (enemy scheduled).");
    assert_eq!(unavailable_message(Key::KeyG, false), "Unavailable input: KeyG");
}

#[test]
fn the_built_in_dispatcher_yields_to_an_external_client() {
    let keys = KeyboardState { pressed: vec![Key::KeyW], just_pressed: vec![Key::KeyW] };
    let input = Some(PresentationInput::new(PLAYER));
    assert_eq!(
        dispatch_keyboard_command(PresentationKeyboardMode::BuiltIn, input, &keys),
        Some(Command::Move { actor: PLAYER, direction: Direction::North })
    );
    assert_eq!(dispatch_keyboard_command(PresentationKeyboardMode::External, input, &keys), None);
    assert_eq!(dispatch_keyboard_command(PresentationKeyboardMode::BuiltIn, None, &keys), None);
    assert_eq!(PresentationKeyboardMode::default(), PresentationKeyboardMode::BuiltIn);
}

#[test]
fn hud_panels_compose_every_panel() {
    let snapshot = PresentationSnapshot {
        map: TileMap { width: 4, height: 1, tiles: vec![Tile::Floor; 4] },
        actors: vec![actor(1, ActorKind::Player, true), actor(2, ActorKind::Enemy, false)],
        ground_items: Vec::new(),
        outcome: RunOutcome::Victory,
        current_time: 4,
        next_actor: Some(PLAYER),
    };
    assert!(enemies_defeated(&snapshot.actors));
    let mut session = DesktopSession::new(9);
    session.status = DesktopStatus::Victory;
    let panels = hud_panels(&snapshot, &session, "logs/run-1-2.jsonl", PLAYER, None, None);
    assert_eq!(
        panels.stats,
        "Starter item floor\nHP [######----] 6/10  pos (1,0)\nTurn t=4 next=1  enemies 0\nFOV full map\nIntent unavailable\nShowcase complete — press Shift+R to restart\nStatus: Victory"
    );
    assert_eq!(panels.inventory, "(empty)");
    assert_eq!(panels.messages, "(no events yet)");
    assert!(panels.controls.ends_with("Esc/close quit"));
    assert_eq!(panels.journal, "logs/run-1-2.jsonl\nseed 9");
    assert_eq!(journal_panel("j", 0), "j\nseed 0");
    assert!(!enemies_defeated(&vec![actor(3, ActorKind::Enemy, true)]));
}

#[test]
fn the_showcase_configuration_and_smoke_script_are_fixed() {
    let config = showcase_config().expect("the showcase configuration is valid");
    assert_eq!((config.tile_size.width(), config.tile_size.height()), (32, 32));
    assert_eq!((config.viewport.width(), config.viewport.height()), (7, 5));
    assert_eq!(config.window.physical_width(), 1280);
    assert_eq!(config.visibility_radius, 3);
    let opening = smoke_opening();
    assert_eq!(opening.len(), 9);
    assert_eq!(opening[0].fixture, Some(SmokeFixture::Trap(Position::new(4, 1))));
    assert_eq!(opening[3].fixture.map(|f| f.fault_reason()), Some("interact_door_fixture_setup"));
    assert_eq!(opening[8].command, Command::Equip { actor: PLAYER, item: ItemId::new(103) });
    let closing = smoke_closing();
    assert_eq!(closing.last().map(|s| s.command), Some(Command::Wait { actor: PLAYER }));
    assert_eq!(reach_target_cell(), Position::new(4, 1));
}

#[test]
fn melee_phase_and_enemy_driver_steps() {
    let attack = Command::Attack { actor: PLAYER, target: ActorId::new(2) };
    assert_eq!(attack_step(true, 0, Some(attack)), AttackStep::Attack { command: attack, first: true });
    assert_eq!(attack_step(true, 3, None), AttackStep::WaitInstead { report_not_legal: false });
    assert_eq!(attack_step(true, 0, None), AttackStep::WaitInstead { report_not_legal: true });
    assert_eq!(attack_step(false, 0, Some(attack)), AttackStep::Stop);
    assert_eq!(attack_step(true, 32, Some(attack)), AttackStep::Stop);
    let running = DesktopStatus::Running;
    assert_eq!(enemy_driver_step(&DesktopStatus::Victory, Some(ActorId::new(2)), true), EnemyDriverStep::Idle);
    assert_eq!(enemy_driver_step(&running, Some(PLAYER), true), EnemyDriverStep::PlayerTurn);
    assert_eq!(enemy_driver_step(&running, Some(ActorId::new(2)), false), EnemyDriverStep::Waiting);
    assert_eq!(enemy_driver_step(&running, Some(ActorId::new(2)), true), EnemyDriverStep::Act(ActorId::new(2)));
    assert_eq!(enemy_driver_step(&running, None, true), EnemyDriverStep::Idle);
    assert_eq!(no_enemy_command_fault(ActorId::new(4)), "no legal enemy command for actor 4");
    assert_eq!(smoke_enemy_fault(ActorId::new(4)), "smoke enemy actor 4 has no legal command");
    assert_eq!(smoke_driver_exhausted(), "smoke enemy driver exceeded 64 actions");
    assert_eq!(start_failure(RestartKind::Restart, "bad seed"), "restart failed: bad seed");
    assert_eq!(
        start_failure(RestartKind::NextFloor, "bad depth"),
        "procedural floor advance failed: bad depth"
    );
    assert_eq!(depth_overflow_fault(), "procedural floor depth overflow");
}

#[test]
fn behavior_names_camera_focus_and_pixel_placement() {
    assert_eq!(enemy_behavior_name(EnemyBehavior::Frostcaster), "Frostcaster");
    assert_eq!(enemy_behavior_value(EnemyBehavior::Zombie), "zombie");
    let actors = vec![actor(1, ActorKind::Player, true)];
    let mut camera = PresentationCamera::new(PLAYER);
    camera.sync(PLAYER, &actors);
    assert_eq!(camera.center(), Some(Position::new(1, 0)));
    let mut focus = PresentationFocus::new(ActorId::new(5));
    focus.sync(ActorId::new(5), &actors);
    assert_eq!(focus.position(), None);
    let size = PresentationTileSize::new(16, 8).expect("non-empty tile size");
    let mirror = SceneMirrorComponents {
        entity: 1,
        tile: Some(SceneTile::new(Position::new(3, 2), Tile::Floor)),
        actor: None,
        ground_item: None,
        inventory_item: None,
        pixel_position: None,
    };
    let placed = mirror_pixel_position(&mirror, size).expect("in-map cells are placed");
    assert_eq!((placed.x(), placed.y()), (48, 16));
    let unplaced = SceneMirrorComponents { tile: None, ..mirror };
    assert!(mirror_pixel_position(&unplaced, size).is_none());
}

fn defeated_session() -> DesktopSession {
    let mut session = DesktopSession::new(7);
    session.status = DesktopStatus::Defeat;
    session
}

fn pressed(keys: &[Key]) -> KeyboardState {
    KeyboardState { pressed: keys.to_vec(), just_pressed: keys.to_vec() }
}

#[test]
fn defeated_shift_restart_returns_to_running_same_seed() {
    let mut session = defeated_session();
    session.push_message("Actor 1 died.".to_string());
    let keys = pressed(&[Key::KeyR, Key::ShiftLeft]);
    assert_eq!(input_request(&session.status, session.procedural, &keys), InputRequest::Restart);
    session.restart();
    assert_eq!(session.status, DesktopStatus::Running);
    assert_eq!(session.seed, 7);
    assert!(session.messages.is_empty());
}

#[test]
fn defeated_escape_and_window_close_preserve_terminal_shutdown() {
    let session = defeated_session();
    let keys = pressed(&[Key::Escape]);
    assert_eq!(input_request(&session.status, session.procedural, &keys), InputRequest::Shutdown);
    let escaped = status_after_escape(session.status.clone());
    assert_eq!(escaped, DesktopStatus::Shutdown("escape".to_string()));
    assert_eq!(shutdown_reason(&escaped, false), "escape");

    let closed = status_after_close(defeated_session().status);
    assert_eq!(closed, DesktopStatus::Shutdown("window_close".to_string()));
    assert_eq!(shutdown_reason(&closed, false), "window_close");
}

#[test]
fn escape_shuts_down_only_sessions_that_take_input() {
    for status in [DesktopStatus::Running, DesktopStatus::Victory, DesktopStatus::Defeat] {
        assert_eq!(status_after_escape(status), DesktopStatus::Shutdown("escape".to_string()));
    }
    let faulted = DesktopStatus::Faulted("journal".to_string());
    assert_eq!(status_after_escape(faulted.clone()), faulted);
    let closed = DesktopStatus::Shutdown("window_close".to_string());
    assert_eq!(status_after_escape(closed.clone()), closed);
}

#[test]
fn commands_are_submitted_only_while_running() {
    assert!(accepts_commands(&DesktopStatus::Running));
    assert!(!accepts_commands(&DesktopStatus::Victory));
    assert!(!accepts_commands(&DesktopStatus::Defeat));
    assert!(!accepts_commands(&DesktopStatus::Faulted("x".to_string())));
    assert!(!accepts_commands(&DesktopStatus::Shutdown("escape".to_string())));
}

#[test]
fn observed_kinds_are_kept_once_in_string_order() {
    let mut kinds: Vec<String> = Vec::new();
    for kind in ["wait", "move", "attack", "move", "use_item", "attack"] {
        DesktopSession::note_kind(&mut kinds, kind);
    }
    assert_eq!(kinds, vec!["attack", "move", "use_item", "wait"]);
    let mut session = DesktopSession::new(3);
    session.note_command(Command::Wait { actor: PLAYER });
    session.note_command(Command::Reload { actor: PLAYER });
    session.note_command(Command::Wait { actor: PLAYER });
    assert_eq!(session.command_kinds, vec!["reload", "wait"]);
}

#[test]
fn text_order_is_the_order_of_strings() {
    for (a, b) in [("a", "b"), ("ab", "b"), ("a", "ab"), ("", "a"), ("b", "a"), ("ab", "ab"), ("é", "z")] {
        assert_eq!(text_before(a, b), a < b, "{a} < {b}");
    }
}
