use dreadstep_bevy::render::SceneSpriteRole;
use dreadstep_bevy::scene::{
    actor_position, focus_target, id_key, plan_scene, plan_singleton, plan_window,
    reconcile_family, scene_position, tile_key, tile_mirrors, ExistingMirrors, MirrorKey,
    MirrorPlan,
    SceneGroundItem, SceneInventoryItem, SceneTile,
};
use dreadstep_bevy::world::{Actor, GroundItemStack, Item, PresentationSnapshot};
use dreadstep_bevy::{
    visible_positions, ActorId, ActorKind, ItemDefinitionId, ItemId, Position, RunOutcome, Tile, TileMap,
};

fn item(id: u32, definition: u32) -> Item {
    Item { id: ItemId::new(id), definition: ItemDefinitionId { id: definition }, equipment_effect: None }
}

fn actor(id: u32, kind: ActorKind, x: i32, y: i32, alive: bool, inventory: Vec<Item>) -> Actor {
    Actor {
        id: ActorId::new(id),
        kind,
        position: Position::new(x, y),
        hit_points: if alive { 5 } else { 0 },
        melee_reach: 1,
        ranged_ammo: 0,
        ready_at: 0,
        equipped_item: None,
        alive,
        inventory,
    }
}

#[test]
fn scene_positions_are_row_major() {
    assert_eq!(scene_position(0, 3), Some(Position::new(0, 0)));
    assert_eq!(scene_position(7, 3), Some(Position::new(1, 2)));
    assert_eq!(scene_position(4, 0), None);
    let map = TileMap { width: 2, height: 2, tiles: vec![Tile::Floor, Tile::Wall, Tile::Door, Tile::Trap] };
    let mirrors = tile_mirrors(&map).expect("every tile has a cell");
    assert_eq!(mirrors[2], SceneTile::new(Position::new(0, 1), Tile::Door));
    let flat = TileMap { width: 0, height: 1, tiles: vec![Tile::Floor] };
    assert_eq!(tile_mirrors(&flat), None);
}

#[test]
fn reconciliation_keeps_the_least_entity_and_despawns_the_rest() {
    let a = id_key(1);
    let b = id_key(2);
    let gone = id_key(9);
    let existing = vec![(a, 40), (a, 12), (gone, 5), (b, 30)];
    let plan = reconcile_family(&existing, &[b, a, id_key(3)]);
    assert_eq!(plan.targets, vec![Some(30), Some(12), None]);
    assert_eq!(plan.despawn, vec![40, 5]);
}

#[test]
fn scene_plan_mirrors_every_family_in_snapshot_order() {
    let snapshot = PresentationSnapshot {
        map: TileMap { width: 2, height: 1, tiles: vec![Tile::Floor, Tile::Wall] },
        actors: vec![
            actor(1, ActorKind::Player, 0, 0, true, vec![item(101, 1), item(103, 3)]),
            actor(2, ActorKind::Enemy, 1, 0, false, vec![]),
        ],
        ground_items: vec![GroundItemStack { position: Position::new(1, 0), items: vec![item(102, 2)] }],
        outcome: RunOutcome::InProgress,
        current_time: 0,
        next_actor: None,
    };
    let existing = ExistingMirrors {
        tiles: vec![(tile_key(Position::new(1, 0)), 7), (tile_key(Position::new(5, 5)), 8)],
        actors: vec![(id_key(2), 11), (id_key(2), 10)],
        ground_items: vec![],
        inventory_items: vec![(id_key(103), 20)],
    };
    let plan = plan_scene(&existing, &snapshot).expect("the map has cells");
    assert_eq!(plan.tiles.len(), 2);
    assert_eq!(plan.tile_plan.targets, vec![None, Some(7)]);
    assert_eq!(plan.tile_plan.despawn, vec![8]);
    assert_eq!(plan.actors[0].1, SceneSpriteRole::Player);
    assert_eq!(plan.actors[1].1, SceneSpriteRole::DeadActor);
    assert_eq!(plan.actor_plan.targets, vec![None, Some(10)]);
    assert_eq!(plan.actor_plan.despawn, vec![11]);
    assert_eq!(
        plan.ground_items,
        vec![SceneGroundItem {
            id: ItemId::new(102),
            definition: ItemDefinitionId { id: 2 },
            position: Position::new(1, 0),
            stack_index: 0,
        }]
    );
    assert_eq!(
        plan.inventory_items[1],
        SceneInventoryItem {
            id: ItemId::new(103),
            owner: ActorId::new(1),
            definition: ItemDefinitionId { id: 3 },
            inventory_index: 1,
        }
    );
    assert_eq!(plan.inventory_plan.targets, vec![None, Some(20)]);
    assert!(plan.inventory_plan.despawn.is_empty());
}

#[test]
fn singletons_keep_the_remembered_entity_while_it_exists() {
    let plan = plan_singleton(Some(9), &[4, 9, 6]);
    assert_eq!(plan.keep, Some(9));
    assert_eq!(plan.despawn, vec![4, 6]);
    let plan = plan_singleton(Some(1), &[4, 9, 6]);
    assert_eq!(plan.keep, Some(4));
    assert_eq!(plan.despawn, vec![9, 6]);
    let plan = plan_singleton(None, &[]);
    assert_eq!(plan.keep, None);
    let window = plan_window(&[15, 13], Some(4), &[4, 5]);
    assert_eq!(window.keep, Some(13));
    assert_eq!(window.despawn, vec![4, 5]);
}

#[test]
fn focus_and_camera_follow_the_controlled_actor() {
    let actors = vec![
        actor(1, ActorKind::Player, 2, 3, true, vec![]),
        actor(2, ActorKind::Enemy, 4, 4, true, vec![]),
    ];
    assert_eq!(actor_position(&actors, ActorId::new(1)), Some(Position::new(2, 3)));
    assert_eq!(actor_position(&actors, ActorId::new(5)), None);
    let mirrors = [(ActorId::new(2), 30), (ActorId::new(1), 31), (ActorId::new(1), 32)];
    assert_eq!(focus_target(&actors, &mirrors, ActorId::new(1)), Some(31));
    assert_eq!(focus_target(&actors, &mirrors, ActorId::new(5)), None);
    let _unused: MirrorKey = tile_key(Position::new(0, 0));
}

/// The mirrors a family holds after its plan ran: each key on its kept entity, or on a fresh
/// entity drawn from `fresh`.
fn applied(keys: &[MirrorKey], plan: &MirrorPlan, fresh: &mut u64) -> Vec<(MirrorKey, u64)> {
    keys.iter()
        .zip(plan.targets.iter())
        .map(|(key, target)| {
            let entity = target.unwrap_or_else(|| {
                *fresh += 1;
                *fresh
            });
            (*key, entity)
        })
        .collect()
}

#[test]
fn a_second_scene_sync_with_the_same_snapshot_changes_nothing() {
    let snapshot = PresentationSnapshot {
        map: TileMap { width: 2, height: 1, tiles: vec![Tile::Floor, Tile::Wall] },
        actors: vec![
            actor(1, ActorKind::Player, 0, 0, true, vec![item(101, 1)]),
            actor(2, ActorKind::Enemy, 1, 0, true, vec![]),
        ],
        ground_items: vec![GroundItemStack { position: Position::new(1, 0), items: vec![item(102, 2)] }],
        outcome: RunOutcome::InProgress,
        current_time: 0,
        next_actor: None,
    };
    let existing = ExistingMirrors {
        tiles: vec![(tile_key(Position::new(1, 0)), 7)],
        actors: vec![(id_key(2), 11), (id_key(2), 10), (id_key(9), 12)],
        ground_items: vec![],
        inventory_items: vec![],
    };
    let first = plan_scene(&existing, &snapshot).expect("the map has cells");
    let mut fresh = 100;
    let tile_keys: Vec<MirrorKey> = first.tiles.iter().map(|t| tile_key(t.position)).collect();
    let actor_keys: Vec<MirrorKey> = first.actors.iter().map(|(a, _)| id_key(a.id.value())).collect();
    let ground_keys: Vec<MirrorKey> = first.ground_items.iter().map(|g| id_key(g.id.value())).collect();
    let inventory_keys: Vec<MirrorKey> =
        first.inventory_items.iter().map(|i| id_key(i.id.value())).collect();
    let after = ExistingMirrors {
        tiles: applied(&tile_keys, &first.tile_plan, &mut fresh),
        actors: applied(&actor_keys, &first.actor_plan, &mut fresh),
        ground_items: applied(&ground_keys, &first.ground_plan, &mut fresh),
        inventory_items: applied(&inventory_keys, &first.inventory_plan, &mut fresh),
    };
    assert_eq!(after.actors, vec![(id_key(1), 102), (id_key(2), 10)]);
    let again = plan_scene(&after, &snapshot).expect("the map has cells");
    assert_eq!(again.tiles, first.tiles);
    assert_eq!(again.actors, first.actors);
    assert_eq!(again.ground_items, first.ground_items);
    assert_eq!(again.inventory_items, first.inventory_items);
    for (plan, mirrors) in [
        (&again.tile_plan, &after.tiles),
        (&again.actor_plan, &after.actors),
        (&again.ground_plan, &after.ground_items),
        (&again.inventory_plan, &after.inventory_items),
    ] {
        let kept: Vec<Option<u64>> = mirrors.iter().map(|(_, e)| Some(*e)).collect();
        assert_eq!(plan.targets, kept);
        assert!(plan.despawn.is_empty());
    }
}

#[test]
fn the_field_of_view_grows_with_the_radius_and_starts_at_a_walkable_origin() {
    let map = TileMap {
        width: 5,
        height: 1,
        tiles: vec![Tile::Floor, Tile::Floor, Tile::Floor, Tile::Wall, Tile::Floor],
    };
    let near = visible_positions(&map, Position::new(0, 0), 1);
    let far = visible_positions(&map, Position::new(0, 0), 3);
    assert_eq!(near, vec![Position::new(0, 0), Position::new(1, 0)]);
    assert_eq!(
        far,
        vec![Position::new(0, 0), Position::new(1, 0), Position::new(2, 0), Position::new(3, 0)]
    );
    assert!(near.iter().all(|p| far.contains(p)));
    assert!(visible_positions(&map, Position::new(3, 0), 3).is_empty());
    assert!(visible_positions(&map, Position::new(9, 0), 3).is_empty());
}
