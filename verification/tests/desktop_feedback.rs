use dreadstep_bevy::audio::{DesktopAudioState, PresentationAudioCue};
use dreadstep_bevy::events::Event;
use dreadstep_bevy::feedback::{
    scheduled_enemy, DesktopAnimationBatch, PresentationAnimationCue, PresentationAnimationCues, PresentationEnemyIntent,
    PresentationHud, PresentationMessage, PresentationMessages,
};
use dreadstep_bevy::hud::scenario_label;
use dreadstep_bevy::input::Command;
use dreadstep_bevy::session::{status_label, DesktopStatus};
use dreadstep_bevy::panels::{
    command_debug_text, enemy_intent_summary, format_hud_stats, inventory_panel, messages_panel,
    visibility_summary,
};
use dreadstep_bevy::world::{
    Actor, EquipmentEffect, GroundItemStack, Item, PresentationSnapshot,
};
use dreadstep_bevy::{
    ActorId, ActorKind, Direction, ItemDefinitionId, ItemId, Position, PresentationVisibility,
    RunOutcome, Tile, TileMap,
};

const PLAYER: ActorId = ActorId { id: 1 };

fn actor(id: u32, kind: ActorKind, x: i32, y: i32, hit_points: i16) -> Actor {
    Actor {
        id: ActorId::new(id),
        kind,
        position: Position::new(x, y),
        hit_points,
        melee_reach: 1,
        ranged_ammo: 0,
        ready_at: 0,
        equipped_item: None,
        alive: hit_points > 0,
        inventory: Vec::new(),
    }
}

/// A starter-floor shaped snapshot: the player at full health and three living enemies.
fn starter_snapshot() -> PresentationSnapshot {
    PresentationSnapshot {
        map: TileMap { width: 7, height: 5, tiles: vec![Tile::Floor; 35] },
        actors: vec![
            actor(1, ActorKind::Player, 1, 1, 10),
            actor(2, ActorKind::Enemy, 4, 1, 3),
            actor(3, ActorKind::Enemy, 5, 3, 3),
            actor(4, ActorKind::Enemy, 2, 3, 4),
        ],
        ground_items: Vec::<GroundItemStack>::new(),
        outcome: RunOutcome::InProgress,
        current_time: 0,
        next_actor: Some(PLAYER),
    }
}

fn chase_case() {
    let mut intent = PresentationEnemyIntent::new();
    intent.actor = Some(ActorId::new(2));
    intent.command = Some(Command::Chase { actor: ActorId::new(2), target: PLAYER });
    assert_eq!(enemy_intent_summary(Some(&intent)), "Intent: enemy 2 chases actor 1");
}

#[test]
fn desktop_hud_intent_summary_reports_the_exact_chase_target() {
    chase_case();
}

#[test]
fn tests_hud_intent_summary_reports_the_exact_chase_target() {
    chase_case();
}

fn fallback_case() {
    assert_eq!(enemy_intent_summary(None), "Intent unavailable");
    let intent = PresentationEnemyIntent {
        actor: Some(ActorId::new(2)),
        behavior: None,
        command: Some(Command::Wait { actor: ActorId::new(2) }),
    };
    assert!(enemy_intent_summary(Some(&intent)).contains("Intent: enemy 2 Wait"));
}

#[test]
fn desktop_hud_intent_summary_has_missing_and_generic_command_fallbacks() {
    fallback_case();
}

#[test]
fn tests_hud_intent_summary_has_missing_and_generic_command_fallbacks() {
    fallback_case();
}

#[test]
fn intent_summary_names_investigations_and_the_empty_intent() {
    let intent = PresentationEnemyIntent {
        actor: Some(ActorId::new(3)),
        behavior: None,
        command: Some(Command::Investigate { actor: ActorId::new(3), position: Position::new(4, -1) }),
    };
    assert_eq!(
        enemy_intent_summary(Some(&intent)),
        "Intent: enemy 3 investigates noise at (4, -1)"
    );
    assert_eq!(enemy_intent_summary(Some(&PresentationEnemyIntent::new())), "Intent: none");
    let generic = PresentationEnemyIntent {
        actor: Some(ActorId::new(2)),
        behavior: None,
        command: Some(Command::Move { actor: ActorId::new(2), direction: Direction::West }),
    };
    assert_eq!(
        enemy_intent_summary(Some(&generic)),
        "Intent: enemy 2 Move { actor: ActorId(2), direction: West }"
    );
}

#[test]
fn commands_render_with_their_named_fields() {
    assert_eq!(command_debug_text(Command::Wait { actor: ActorId::new(2) }), "Wait { actor: ActorId(2) }");
    assert_eq!(
        command_debug_text(Command::Throw {
            actor: PLAYER,
            item: ItemId::new(104),
            target: ActorId::new(3),
        }),
        "Throw { actor: ActorId(1), item: ItemId(104), target: ActorId(3) }"
    );
    assert_eq!(
        command_debug_text(Command::Kick { actor: PLAYER, position: Position::new(2, 1) }),
        "Kick { actor: ActorId(1), position: Position { x: 2, y: 1 } }"
    );
}

fn hud_stats_case() {
    let snapshot = starter_snapshot();
    let empty_intent = PresentationEnemyIntent::new();
    let text = format_hud_stats(
        None,
        &snapshot,
        &DesktopStatus::Running,
        &scenario_label(false, 1),
        "",
        None,
        Some(&empty_intent),
    );
    assert!(text.contains("Player unavailable"));
    assert!(text.contains("Enemies remaining: 3"));
    assert!(text.contains("FOV full map"));
    assert!(text.contains("Intent: none"));
    assert!(!text.contains("press N"));

    let player = snapshot.actors.iter().find(|a| a.id == PLAYER).expect("player exists");
    let text = format_hud_stats(
        Some(player),
        &snapshot,
        &DesktopStatus::Running,
        &scenario_label(false, 1),
        "",
        None,
        Some(&empty_intent),
    );
    assert!(text.contains("HP [##########] 10/10"));
    assert!(text.contains("enemies 3"));
    assert!(text.contains("Intent: none"));
}

#[test]
fn desktop_hud_stats_report_enemy_pressure_and_missing_player() {
    hud_stats_case();
}

#[test]
fn tests_hud_stats_report_enemy_pressure_and_missing_player() {
    hud_stats_case();
}

#[test]
fn hud_stats_block_is_exact() {
    let mut snapshot = starter_snapshot();
    snapshot.actors[2].alive = false;
    snapshot.current_time = 12;
    snapshot.next_actor = None;
    let player = snapshot.actors[0].clone();
    let mut visibility = PresentationVisibility::new(PLAYER, 3);
    visibility.refresh(PLAYER, Some(player.position), &snapshot.map);
    let count = visibility.visible_positions().len();
    let text = format_hud_stats(
        Some(&player),
        &snapshot,
        &DesktopStatus::Victory,
        "Starter item floor",
        "Showcase complete — press Shift+R to restart",
        Some(&visibility),
        None,
    );
    assert_eq!(
        text,
        format!(
            "Starter item floor\nHP [##########] 10/10  pos (1,1)\nTurn t=12 next=-  enemies 2\nFOV {count} tiles (radius 3)\nIntent unavailable\nShowcase complete — press Shift+R to restart\nStatus: Victory"
        )
    );
    assert_eq!(visibility_summary(None), "FOV full map");
}

#[test]
fn inventory_panel_marks_selection_reach_and_equipment() {
    let mut player = actor(1, ActorKind::Player, 0, 0, 10);
    assert_eq!(inventory_panel(Some(&player), None), "(empty)");
    assert_eq!(inventory_panel(None, None), "Inventory unavailable");
    player.inventory = vec![
        Item { id: ItemId::new(101), definition: ItemDefinitionId { id: 1 }, equipment_effect: None },
        Item {
            id: ItemId::new(103),
            definition: ItemDefinitionId { id: 3 },
            equipment_effect: Some(EquipmentEffect::MinimumMeleeReach { reach: 2 }),
        },
    ];
    player.equipped_item = Some(ItemId::new(103));
    assert_eq!(
        inventory_panel(Some(&player), Some(ItemId::new(101))),
        "> item 101 (def 1)\n  item 103 (def 3) [reach 2] [equipped]"
    );
}

#[test]
fn messages_panel_lists_recent_messages() {
    assert_eq!(messages_panel(&Vec::new()), "(no events yet)");
    assert_eq!(
        messages_panel(&vec!["Actor 1 died.".to_string(), "Actor 2 waited at t3.".to_string()]),
        "Actor 1 died.\nActor 2 waited at t3."
    );
}

fn audio_batch_case() {
    let first_token = 0x51_u64;
    let second_token = 0x52_u64;
    let cue = [PresentationAudioCue::Moved { actor: PLAYER }];
    let mut state = DesktopAudioState::new();
    assert!(state.observe(Some(first_token), &cue));
    assert!(!state.observe(Some(first_token), &cue));
    assert_ne!(first_token, second_token);
    assert!(state.observe(Some(second_token), &cue));
    assert!(!state.observe(Some(second_token), &[]));
}

#[test]
fn desktop_audio_batch_identity_retriggers_only_for_a_new_replay_token() {
    audio_batch_case();
}

#[test]
fn tests_audio_batch_identity_retriggers_only_for_a_new_replay_token() {
    audio_batch_case();
}

#[test]
fn messages_and_cues_follow_the_accepted_events() {
    let events = [
        Event::Moved { actor: PLAYER, from: Position::new(0, 0), to: Position::new(1, 0) },
        Event::NoiseCreated { actor: PLAYER, position: Position::new(1, 0), radius: 2 },
        Event::Died { actor: ActorId::new(2) },
    ];
    let messages = PresentationMessages::from_events(Some(&events));
    assert_eq!(messages.messages().len(), 3);
    assert_eq!(
        messages.messages()[1],
        PresentationMessage::NoiseCreated { actor: PLAYER, position: Position::new(1, 0), radius: 2 }
    );
    let cues = PresentationAnimationCues::from_events(Some(&events));
    assert_eq!(
        cues.cues(),
        &[
            PresentationAnimationCue::Moved {
                actor: PLAYER,
                from: Position::new(0, 0),
                to: Position::new(1, 0),
            },
            PresentationAnimationCue::Died { actor: ActorId::new(2) },
        ]
    );
    assert!(PresentationAnimationCues::from_events(None).cues().is_empty());
    assert!(PresentationMessages::from_events(None).messages().is_empty());
}

#[test]
fn hud_record_and_scheduled_enemy_follow_the_snapshot() {
    let mut snapshot = starter_snapshot();
    let hud = PresentationHud::from_snapshot(&snapshot, PLAYER);
    assert_eq!(hud.kind(), Some(ActorKind::Player));
    assert_eq!(hud.hit_points(), Some(10));
    assert_eq!(hud.position(), Some(Position::new(1, 1)));
    assert_eq!(PresentationHud::from_snapshot(&snapshot, ActorId::new(9)), PresentationHud::new(ActorId::new(9)));
    assert_eq!(scheduled_enemy(&snapshot), None);
    snapshot.next_actor = Some(ActorId::new(3));
    assert_eq!(scheduled_enemy(&snapshot), Some(ActorId::new(3)));
    snapshot.actors[2].alive = false;
    assert_eq!(scheduled_enemy(&snapshot), None);

    let mut intent = PresentationEnemyIntent::new();
    intent.update(Some(ActorId::new(2)), Some(Command::Wait { actor: ActorId::new(2) }));
    assert_eq!(intent.command(), Some(Command::Wait { actor: ActorId::new(2) }));
    intent.update(None, Some(Command::Wait { actor: ActorId::new(2) }));
    assert_eq!(intent.actor(), None);
    assert_eq!(intent.command(), None);
}

#[test]
fn animation_batches_start_a_pulse_only_when_new_and_not_empty() {
    let cue = [PresentationAnimationCue::Died { actor: PLAYER }];
    let mut batch = DesktopAnimationBatch::new();
    assert_eq!(batch.observe(Some(1), &cue), Some(true));
    assert_eq!(batch.observe(Some(1), &cue), None);
    assert_eq!(batch.observe(Some(2), &cue), Some(true));
    assert_eq!(batch.observe(Some(2), &[]), Some(false));
    assert_eq!(batch.observe(Some(2), &[]), None);
}

#[test]
fn status_label_is_the_debug_text_of_the_status() {
    assert_eq!(status_label(&DesktopStatus::Running), "Running");
    assert_eq!(status_label(&DesktopStatus::Defeat), "Defeat");
    assert_eq!(
        status_label(&DesktopStatus::Shutdown("escape".to_string())),
        "Shutdown(\"escape\")"
    );
    let fault = DesktopStatus::Faulted("write \"journal\" failed".to_string());
    assert_eq!(status_label(&fault), format!("{:?}", fault));
    assert_eq!(status_label(&fault), "Faulted(\"write \\\"journal\\\" failed\")");
}
