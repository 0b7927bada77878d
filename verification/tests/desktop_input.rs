use dreadstep_bevy::input::{
    command_for_key, input_request, keyboard_command, restart_requested, Command, InputRequest,
    Key, KeyboardIntent, KeyboardState,
};
use dreadstep_bevy::session::DesktopStatus;
use dreadstep_bevy::{ActorId, Direction, ItemId, Position};

const PLAYER: ActorId = ActorId { id: 1 };

/// Pressing a key holds it and marks it as just pressed, as a keyboard device does.
fn press(keys: &mut KeyboardState, key: Key) {
    keys.pressed.push(key);
    keys.just_pressed.push(key);
}

fn no_keys() -> KeyboardState {
    KeyboardState { pressed: Vec::new(), just_pressed: Vec::new() }
}

fn restart_cases() {
    let mut keys = no_keys();
    press(&mut keys, Key::KeyR);
    assert!(!restart_requested(&keys));
    press(&mut keys, Key::ShiftLeft);
    assert!(restart_requested(&keys));
}

#[test]
fn desktop_reload_only_restarts_when_shift_is_held() {
    restart_cases();
}

#[test]
fn tests_reload_only_restarts_when_shift_is_held() {
    restart_cases();
}

#[test]
fn restart_needs_r_to_go_down_this_frame() {
    let keys = KeyboardState {
        pressed: vec![Key::KeyR, Key::ShiftRight],
        just_pressed: vec![Key::ShiftRight],
    };
    assert!(!restart_requested(&keys));
}

#[test]
fn pickup_key_takes_the_lowest_item_id() {
    let legal = vec![
        Command::Wait { actor: PLAYER },
        Command::Pickup { actor: PLAYER, item: ItemId::new(105) },
        Command::Pickup { actor: PLAYER, item: ItemId::new(103) },
        Command::Pickup { actor: PLAYER, item: ItemId::new(104) },
    ];
    assert_eq!(
        command_for_key(Key::KeyP, &legal, None, PLAYER),
        Some(Command::Pickup { actor: PLAYER, item: ItemId::new(103) })
    );
}

#[test]
fn ranged_key_takes_the_lowest_target_id() {
    let legal = vec![
        Command::RangedAttack { actor: PLAYER, target: ActorId::new(5) },
        Command::RangedAttack { actor: PLAYER, target: ActorId::new(3) },
        Command::Attack { actor: PLAYER, target: ActorId::new(2) },
    ];
    assert_eq!(
        command_for_key(Key::KeyG, &legal, None, PLAYER),
        Some(Command::RangedAttack { actor: PLAYER, target: ActorId::new(3) })
    );
    assert_eq!(
        command_for_key(Key::KeyF, &legal, None, PLAYER),
        Some(Command::Attack { actor: PLAYER, target: ActorId::new(2) })
    );
}

#[test]
fn throw_key_needs_a_selected_item_and_takes_the_lowest_target() {
    let legal = vec![
        Command::Throw { actor: PLAYER, item: ItemId::new(104), target: ActorId::new(4) },
        Command::Throw { actor: PLAYER, item: ItemId::new(101), target: ActorId::new(2) },
        Command::Throw { actor: PLAYER, item: ItemId::new(104), target: ActorId::new(3) },
    ];
    assert_eq!(command_for_key(Key::KeyT, &legal, None, PLAYER), None);
    assert_eq!(
        command_for_key(Key::KeyT, &legal, Some(ItemId::new(104)), PLAYER),
        Some(Command::Throw { actor: PLAYER, item: ItemId::new(104), target: ActorId::new(3) })
    );
}

#[test]
fn reload_key_selects_the_legal_player_reload() {
    let legal = vec![Command::Wait { actor: PLAYER }, Command::Reload { actor: PLAYER }];
    assert_eq!(
        command_for_key(Key::KeyR, &legal, None, PLAYER),
        Some(Command::Reload { actor: PLAYER })
    );
    assert_eq!(command_for_key(Key::KeyR, &legal[..1], None, PLAYER), None);
}

#[test]
fn interact_kick_and_break_keys_take_the_first_player_command() {
    let door = Position::new(1, 0);
    let legal = vec![
        Command::Interact { actor: ActorId::new(2), position: Position::new(5, 5) },
        Command::Interact { actor: PLAYER, position: door },
        Command::Kick { actor: PLAYER, position: door },
        Command::Break { actor: PLAYER, position: Position::new(0, 1) },
        Command::Interact { actor: PLAYER, position: Position::new(0, 1) },
    ];
    assert_eq!(
        command_for_key(Key::KeyI, &legal, None, PLAYER),
        Some(Command::Interact { actor: PLAYER, position: door })
    );
    assert_eq!(
        command_for_key(Key::KeyK, &legal, None, PLAYER),
        Some(Command::Kick { actor: PLAYER, position: door })
    );
    assert_eq!(
        command_for_key(Key::KeyB, &legal, None, PLAYER),
        Some(Command::Break { actor: PLAYER, position: Position::new(0, 1) })
    );
}

#[test]
fn drop_equip_and_use_keys_act_on_the_selected_item_when_legal() {
    let legal = vec![
        Command::Drop { actor: PLAYER, item: ItemId::new(101) },
        Command::Drop { actor: PLAYER, item: ItemId::new(102) },
        Command::UseItem { actor: PLAYER, item: ItemId::new(102) },
    ];
    let selected = Some(ItemId::new(102));
    assert_eq!(
        command_for_key(Key::KeyX, &legal, selected, PLAYER),
        Some(Command::Drop { actor: PLAYER, item: ItemId::new(102) })
    );
    assert_eq!(
        command_for_key(Key::KeyU, &legal, selected, PLAYER),
        Some(Command::UseItem { actor: PLAYER, item: ItemId::new(102) })
    );
    assert_eq!(command_for_key(Key::KeyE, &legal, selected, PLAYER), None);
    assert_eq!(command_for_key(Key::KeyX, &legal, None, PLAYER), None);
    assert_eq!(command_for_key(Key::KeyQ, &legal, selected, PLAYER), None);
}

#[test]
fn movement_keys_submit_only_legal_moves() {
    let legal = vec![
        Command::Move { actor: PLAYER, direction: Direction::East },
        Command::Wait { actor: PLAYER },
    ];
    assert_eq!(
        command_for_key(Key::KeyD, &legal, None, PLAYER),
        Some(Command::Move { actor: PLAYER, direction: Direction::East })
    );
    assert_eq!(command_for_key(Key::ArrowUp, &legal, None, PLAYER), None);
    assert_eq!(command_for_key(Key::Space, &legal, None, PLAYER), Some(Command::Wait { actor: PLAYER }));
    assert_eq!(command_for_key(Key::Other, &legal, None, PLAYER), None);
}

#[test]
fn keyboard_intents_map_arrows_wasd_and_wait_keys() {
    assert_eq!(KeyboardIntent::from_key(Key::KeyW), Some(KeyboardIntent::Move(Direction::North)));
    assert_eq!(KeyboardIntent::from_key(Key::ArrowLeft), Some(KeyboardIntent::Move(Direction::West)));
    assert_eq!(KeyboardIntent::from_key(Key::Enter), Some(KeyboardIntent::Wait));
    assert_eq!(KeyboardIntent::from_key(Key::KeyF), None);
    assert_eq!(
        KeyboardIntent::Move(Direction::South).command(ActorId::new(9)),
        Command::Move { actor: ActorId::new(9), direction: Direction::South }
    );
}

#[test]
fn headless_dispatch_honours_arrow_keys_before_wait_keys() {
    let keys = KeyboardState {
        pressed: vec![Key::Space, Key::ArrowDown],
        just_pressed: vec![Key::Space, Key::ArrowDown],
    };
    assert_eq!(
        keyboard_command(&keys, PLAYER),
        Some(Command::Move { actor: PLAYER, direction: Direction::South })
    );
    assert_eq!(keyboard_command(&no_keys(), PLAYER), None);
}

#[test]
fn escape_takes_precedence_and_terminal_sessions_only_take_session_keys() {
    let mut keys = no_keys();
    press(&mut keys, Key::KeyF);
    press(&mut keys, Key::Escape);
    assert_eq!(input_request(&DesktopStatus::Running, false, &keys), InputRequest::Shutdown);
    assert_eq!(
        input_request(&DesktopStatus::Faulted("boom".to_string()), false, &keys),
        InputRequest::Ignore
    );

    let mut keys = no_keys();
    press(&mut keys, Key::KeyF);
    assert_eq!(input_request(&DesktopStatus::Running, false, &keys), InputRequest::Act { key: Key::KeyF });
    assert_eq!(input_request(&DesktopStatus::Defeat, false, &keys), InputRequest::Ignore);
}

#[test]
fn next_floor_is_only_offered_after_a_procedural_victory() {
    let mut keys = no_keys();
    press(&mut keys, Key::KeyN);
    assert_eq!(input_request(&DesktopStatus::Victory, true, &keys), InputRequest::NextFloor);
    assert_eq!(
        input_request(&DesktopStatus::Victory, false, &keys),
        InputRequest::NextFloorUnavailable
    );
    assert_eq!(
        input_request(&DesktopStatus::Running, true, &keys),
        InputRequest::NextFloorUnavailable
    );
}

#[test]
fn tab_cycles_the_inventory_backward_with_shift() {
    let mut keys = no_keys();
    press(&mut keys, Key::Tab);
    assert_eq!(
        input_request(&DesktopStatus::Defeat, false, &keys),
        InputRequest::SelectInventory { reverse: false }
    );
    press(&mut keys, Key::ShiftLeft);
    assert_eq!(
        input_request(&DesktopStatus::Running, false, &keys),
        InputRequest::SelectInventory { reverse: true }
    );
}

#[test]
fn shift_r_restarts_before_reload_is_considered() {
    let mut keys = no_keys();
    press(&mut keys, Key::ShiftRight);
    press(&mut keys, Key::KeyR);
    assert_eq!(input_request(&DesktopStatus::Running, false, &keys), InputRequest::Restart);
    let mut keys = no_keys();
    press(&mut keys, Key::KeyR);
    press(&mut keys, Key::ArrowUp);
    assert_eq!(input_request(&DesktopStatus::Running, false, &keys), InputRequest::Act { key: Key::KeyR });
}
