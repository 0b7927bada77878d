use dreadstep_bevy::events::{event_kind, event_message, AmmunitionResult, Event, HealingResult};
use dreadstep_bevy::evidence::{
    actor_kind_name, block_reason_value, command_name, command_value, direction_name,
    event_value, outcome_name, position_value, tile_name,
};
use dreadstep_bevy::input::Command;
use dreadstep_bevy::{
    ActorId, ActorKind, BlockReason, Direction, ItemId, Position, RunOutcome, Tile,
};
use serde_json::Value;

const PLAYER: ActorId = ActorId { id: 1 };

fn object(members: Vec<(&str, Value)>) -> Value {
    let mut map = serde_json::Map::new();
    for (name, value) in members {
        map.insert(name.to_string(), value);
    }
    Value::Object(map)
}

fn parsed(text: &str) -> Value {
    serde_json::from_str(text).expect("evidence is valid JSON")
}

fn position(x: i64, y: i64) -> Value {
    object(vec![("x", Value::from(x)), ("y", Value::from(y))])
}

#[test]
fn healing_consumption_is_visible_in_desktop_event_evidence() {
    let event = Event::ItemConsumed {
        actor: PLAYER,
        item: ItemId::new(101),
        healing: Some(HealingResult { amount: 2, remaining_hit_points: 10 }),
        ammunition: None,
    };
    assert_eq!(
        parsed(&event_value(event)),
        object(vec![
            ("kind", Value::from("item_consumed")),
            ("actor", Value::from(1)),
            ("item", Value::from(101)),
            (
                "healing",
                object(vec![("amount", Value::from(2)), ("remaining_hit_points", Value::from(10))]),
            ),
            ("ammunition", Value::Null),
        ])
    );
    assert_eq!(event_message(event), "Actor 1 consumed item 101 and restored 2 HP (10 HP).");
}

#[test]
fn ammunition_consumption_is_visible_in_desktop_event_evidence() {
    let event = Event::ItemConsumed {
        actor: PLAYER,
        item: ItemId::new(102),
        healing: None,
        ammunition: Some(AmmunitionResult { amount: 2, remaining_ammunition: 3 }),
    };
    assert_eq!(
        parsed(&event_value(event)),
        object(vec![
            ("kind", Value::from("item_consumed")),
            ("actor", Value::from(1)),
            ("item", Value::from(102)),
            ("healing", Value::Null),
            (
                "ammunition",
                object(vec![("amount", Value::from(2)), ("remaining_ammunition", Value::from(3))]),
            ),
        ])
    );
    assert_eq!(
        event_message(event),
        "Actor 1 consumed item 102 and restored 2 ammunition (3 shots)."
    );
}

#[test]
fn event_evidence_is_compact_json_in_field_order() {
    let event = Event::Moved { actor: PLAYER, from: Position::new(0, 0), to: Position::new(1, -2) };
    assert_eq!(
        event_value(event),
        "{\"kind\":\"moved\",\"actor\":1,\"from\":{\"x\":0,\"y\":0},\"to\":{\"x\":1,\"y\":-2}}"
    );
    assert_eq!(event_message(event), "Actor 1 moved to (1, -2).");
    assert_eq!(event_kind(event), "moved");
}

#[test]
fn blocked_movement_evidence_names_the_blocking_actor() {
    let event = Event::MovementBlocked {
        actor: PLAYER,
        from: Position::new(2, 3),
        to: Position::new(2, 2),
        reason: BlockReason::Actor(ActorId::new(4)),
    };
    assert_eq!(
        parsed(&event_value(event)),
        object(vec![
            ("kind", Value::from("movement_blocked")),
            ("actor", Value::from(1)),
            ("from", position(2, 3)),
            ("to", position(2, 2)),
            ("reason", object(vec![("kind", Value::from("actor")), ("actor", Value::from(4))])),
        ])
    );
    assert_eq!(event_message(event), "Actor 1 blocked by Actor(ActorId(4)).");
    assert_eq!(block_reason_value(BlockReason::Terrain), "{\"kind\":\"terrain\"}");
}

#[test]
fn attack_and_trap_evidence_carry_damage_and_remaining_hit_points() {
    let attacked = Event::Attacked {
        attacker: ActorId::new(2),
        target: PLAYER,
        damage: 3,
        remaining_hit_points: -1,
    };
    assert_eq!(
        parsed(&event_value(attacked)),
        object(vec![
            ("kind", Value::from("attacked")),
            ("attacker", Value::from(2)),
            ("target", Value::from(1)),
            ("damage", Value::from(3)),
            ("remaining_hit_points", Value::from(-1)),
        ])
    );
    assert_eq!(event_message(attacked), "Actor 2 hit 1 (-1 HP left).");
    let trap = Event::TrapTriggered {
        actor: PLAYER,
        position: Position::new(4, 0),
        damage: 2,
        remaining_hit_points: 8,
    };
    assert_eq!(
        event_value(trap),
        "{\"kind\":\"trap_triggered\",\"actor\":1,\"position\":{\"x\":4,\"y\":0},\"damage\":2,\"remaining_hit_points\":8}"
    );
    assert_eq!(
        event_message(trap),
        "Actor 1 triggered a trap at (4, 0) for 2 damage (8 HP left)."
    );
}

#[test]
fn command_evidence_names_kind_actor_and_operands() {
    assert_eq!(
        command_value(Command::Move { actor: PLAYER, direction: Direction::East }),
        "{\"kind\":\"move\",\"actor\":1,\"direction\":\"east\"}"
    );
    assert_eq!(command_value(Command::Reload { actor: PLAYER }), "{\"kind\":\"reload\",\"actor\":1}");
    assert_eq!(
        parsed(&command_value(Command::Throw {
            actor: PLAYER,
            item: ItemId::new(104),
            target: ActorId::new(3),
        })),
        object(vec![
            ("kind", Value::from("throw")),
            ("actor", Value::from(1)),
            ("item", Value::from(104)),
            ("target", Value::from(3)),
        ])
    );
    assert_eq!(
        parsed(&command_value(Command::Kick { actor: PLAYER, position: Position::new(1, 0) })),
        object(vec![
            ("kind", Value::from("kick")),
            ("actor", Value::from(1)),
            ("position", position(1, 0)),
        ])
    );
    assert_eq!(command_name(Command::UseItem { actor: PLAYER, item: ItemId::new(1) }), "use_item");
    assert_eq!(command_name(Command::RangedAttack { actor: PLAYER, target: PLAYER }), "ranged_attack");
}

#[test]
fn stable_names_cover_tiles_kinds_outcomes_and_directions() {
    assert_eq!(tile_name(Tile::Floor), "floor");
    assert_eq!(tile_name(Tile::OpenDoor), "open_door");
    assert_eq!(tile_name(Tile::ChillTrap), "chill_trap");
    assert_eq!(actor_kind_name(ActorKind::Enemy), "enemy");
    assert_eq!(outcome_name(RunOutcome::InProgress), "in_progress");
    assert_eq!(direction_name(Direction::West), "west");
    assert_eq!(position_value(Position::new(-3, 7)), "{\"x\":-3,\"y\":7}");
}
