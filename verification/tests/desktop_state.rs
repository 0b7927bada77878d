use dreadstep_bevy::state::{actor_value, item_value, snapshot_value, state_payload};
use dreadstep_bevy::world::{Actor, EquipmentEffect, GroundItemStack, Item, PresentationSnapshot};
use dreadstep_bevy::{
    ActorId, ActorKind, ItemDefinitionId, ItemId, Position, RunOutcome, Tile, TileMap,
};

fn sword() -> Item {
    Item {
        id: ItemId::new(7),
        definition: ItemDefinitionId { id: 2 },
        equipment_effect: Some(EquipmentEffect::MinimumMeleeReach { reach: 2 }),
    }
}

fn potion() -> Item {
    Item { id: ItemId::new(8), definition: ItemDefinitionId { id: 3 }, equipment_effect: None }
}

fn player() -> Actor {
    Actor {
        id: ActorId::new(1),
        kind: ActorKind::Player,
        position: Position::new(1, 0),
        hit_points: -2,
        melee_reach: 2,
        ranged_ammo: 4,
        ready_at: 12,
        equipped_item: Some(ItemId::new(7)),
        alive: false,
        inventory: vec![sword(), potion()],
    }
}

fn snapshot() -> PresentationSnapshot {
    PresentationSnapshot {
        map: TileMap { width: 2, height: 1, tiles: vec![Tile::Floor, Tile::Wall] },
        actors: vec![player()],
        ground_items: vec![GroundItemStack { position: Position::new(0, 0), items: vec![potion()] }],
        outcome: RunOutcome::Defeat,
        current_time: 12,
        next_actor: None,
    }
}

#[test]
fn item_json_carries_identity_definition_and_effect() {
    assert_eq!(
        item_value(sword()),
        r#"{"id":7,"definition":2,"equipment_effect":{"minimum_melee_reach":2}}"#
    );
    assert_eq!(item_value(potion()), r#"{"id":8,"definition":3,"equipment_effect":null}"#);
}

#[test]
fn actor_json_lists_every_field_and_the_inventory_in_order() {
    let expected = [
        r#"{"id":1,"kind":"player","position":{"x":1,"y":0},"hit_points":-2,"#,
        r#""melee_reach":2,"ranged_ammo":4,"alive":false,"ready_at":12,"equipped":7,"#,
        r#""inventory":[{"id":7,"definition":2,"equipment_effect":{"minimum_melee_reach":2}},"#,
        r#"{"id":8,"definition":3,"equipment_effect":null}]}"#,
    ]
    .concat();
    assert_eq!(actor_value(&player()), expected);
    let mut bare = player();
    bare.inventory.clear();
    bare.equipped_item = None;
    assert!(actor_value(&bare).ends_with(r#""equipped":null,"inventory":[]}"#));
}

#[test]
fn snapshot_json_is_valid_json_with_map_actors_items_and_scheduler() {
    let text = snapshot_value(&snapshot());
    assert!(text.starts_with(
        r#"{"map":{"width":2,"height":1,"tiles":["floor","wall"]},"outcome":"defeat","actors":[{"id":1,"#
    ));
    let tail = [
        r#""ground_items":[{"position":{"x":0,"y":0},"items":[{"id":8,"definition":3,"#,
        r#""equipment_effect":null}]}],"scheduler":{"current_time":12,"next_actor":null}}"#,
    ]
    .concat();
    assert!(text.ends_with(&tail));
    let value: serde_json::Value = serde_json::from_str(&text).expect("the snapshot JSON parses");
    assert_eq!(value["actors"][0]["inventory"][1]["id"], 8);
    assert_eq!(value["map"]["tiles"][1], "wall");

    let mut later = snapshot();
    later.next_actor = Some(ActorId::new(1));
    later.actors.clear();
    later.ground_items.clear();
    assert!(snapshot_value(&later)
        .contains(r#""actors":[],"ground_items":[],"scheduler":{"current_time":12,"next_actor":1}"#));
}

#[test]
fn state_payload_frames_state_digests_and_extra() {
    let payload = state_payload(&snapshot(), 5, 6, r#"{"command":"wait"}"#);
    let value: serde_json::Value = serde_json::from_str(&payload).expect("the payload parses");
    assert_eq!(value["state_digest"], 5);
    assert_eq!(value["replay_digest"], 6);
    assert_eq!(value["extra"]["command"], "wait");
    assert_eq!(value["state"]["outcome"], "defeat");
}
