use dreadstep_bevy::assets::{build_manifest, SceneRenderPlaceholder};
use dreadstep_bevy::render::{
    entry_visible, keyed_render_projection, placeholder_name, plan_render_nodes,
    render_asset_entries, render_entries, render_entry_position, sprite_hidden, sprite_projection,
    ExistingNode, PresentationRenderAssetProjection, PresentationRenderCommandPlan,
    PresentationRenderNodeProjection, PresentationRenderProjection, PresentationSpriteProjection,
    RenderKey,
    SceneMirrorComponents, SceneRenderEntry, SceneRenderLayer, SceneRenderNodeEntry,
    SceneSpriteKey, SceneSpriteRole,
};
use dreadstep_bevy::scene::{SceneActor, SceneGroundItem, SceneInventoryItem, SceneTile};
use dreadstep_bevy::{
    ActorId, ActorKind, ItemDefinitionId, ItemId, Position, PresentationTileSize,
    PresentationVisibility, Tile, TileMap,
};

fn scene_actor(id: u32, kind: ActorKind, x: i32, y: i32, alive: bool) -> SceneActor {
    SceneActor {
        id: ActorId::new(id),
        kind,
        position: Position::new(x, y),
        hit_points: 5,
        melee_reach: 1,
        ready_at: 0,
        equipped_item: None,
        alive,
    }
}

fn bare(entity: u64) -> SceneMirrorComponents {
    SceneMirrorComponents {
        entity,
        tile: None,
        actor: None,
        ground_item: None,
        inventory_item: None,
        pixel_position: None,
    }
}

fn mirrors() -> Vec<SceneMirrorComponents> {
    let mut enemy = bare(9);
    enemy.actor = Some(scene_actor(2, ActorKind::Enemy, 2, 0, true));
    let mut duplicate_enemy = bare(4);
    duplicate_enemy.actor = Some(scene_actor(2, ActorKind::Enemy, 2, 0, false));
    let mut tile_b = bare(3);
    tile_b.tile = Some(SceneTile::new(Position::new(1, 0), Tile::Wall));
    let mut tile_a = bare(5);
    tile_a.tile = Some(SceneTile::new(Position::new(0, 0), Tile::Floor));
    let mut ground = bare(6);
    ground.ground_item = Some(SceneGroundItem {
        id: ItemId::new(102),
        definition: ItemDefinitionId { id: 2 },
        position: Position::new(0, 0),
        stack_index: 0,
    });
    let mut pack = bare(7);
    pack.inventory_item = Some(SceneInventoryItem {
        id: ItemId::new(103),
        owner: ActorId::new(1),
        definition: ItemDefinitionId { id: 3 },
        inventory_index: 0,
    });
    let mut player = bare(8);
    player.actor = Some(scene_actor(1, ActorKind::Player, 0, 0, true));
    vec![enemy, pack, tile_b, player, duplicate_enemy, ground, tile_a]
}

#[test]
fn render_entries_follow_the_components_of_one_entity() {
    let size = PresentationTileSize::new(32, 16);
    let mut both = bare(1);
    both.tile = Some(SceneTile::new(Position::new(2, 3), Tile::Door));
    both.actor = Some(scene_actor(4, ActorKind::Player, 2, 3, true));
    let entries = render_entries(&both, size);
    assert_eq!(entries.len(), 2);
    assert_eq!(entries[0].0, RenderKey { family: 0, x: 2, y: 3, id: 0 });
    assert_eq!(entries[1].0, RenderKey { family: 1, x: 0, y: 0, id: 4 });
    let placed = entries[0].1.pixel_position().expect("the cell has a pixel origin");
    assert_eq!((placed.x(), placed.y()), (64, 48));
    assert_eq!(entries[1].1.sprite_key(), SceneSpriteKey::Player);
    assert!(render_entries(&bare(2), None).is_empty());
}

#[test]
fn render_projection_orders_by_key_and_keeps_the_least_entity() {
    let keyed = keyed_render_projection(&mirrors(), None);
    let keys: Vec<RenderKey> = keyed.iter().map(|(k, _)| *k).collect();
    assert_eq!(
        keys,
        vec![
            RenderKey { family: 0, x: 0, y: 0, id: 0 },
            RenderKey { family: 0, x: 1, y: 0, id: 0 },
            RenderKey { family: 1, x: 0, y: 0, id: 1 },
            RenderKey { family: 1, x: 0, y: 0, id: 2 },
            RenderKey { family: 2, x: 0, y: 0, id: 102 },
            RenderKey { family: 3, x: 0, y: 0, id: 103 },
        ]
    );
    assert_eq!(keyed[3].1.entity(), 4);
    assert_eq!(keyed[3].1.sprite_key(), SceneSpriteKey::DeadActor);
    let projection = PresentationRenderProjection::from_mirrors(&mirrors(), None);
    assert_eq!(projection.entries().len(), 6);
    assert_eq!(render_entry_position(projection.entries()[5]), None);
}

#[test]
fn render_plan_draws_terrain_items_actors_then_inventory() {
    let projection = PresentationRenderProjection::from_mirrors(&mirrors(), None);
    let sprites = sprite_projection(projection.entries());
    let plan = PresentationRenderCommandPlan::from_sprites(&sprites);
    let layers: Vec<(SceneRenderLayer, usize)> =
        plan.commands().iter().map(|c| (c.layer(), c.order())).collect();
    for command in plan.commands() {
        assert_eq!(command.sprite_entry(), sprites[command.order()]);
    }
    assert_eq!(
        layers,
        vec![
            (SceneRenderLayer::Terrain, 0),
            (SceneRenderLayer::Terrain, 1),
            (SceneRenderLayer::GroundItem, 4),
            (SceneRenderLayer::Actor, 2),
            (SceneRenderLayer::Actor, 3),
            (SceneRenderLayer::InventoryItem, 5),
        ]
    );
}

#[test]
fn render_nodes_reuse_existing_nodes_and_follow_the_field_of_view() {
    let projection = PresentationRenderProjection::from_mirrors(&mirrors(), None);
    let sprites = sprite_projection(projection.entries());
    let plan = PresentationRenderCommandPlan::from_sprites(&sprites);
    let map = TileMap { width: 3, height: 1, tiles: vec![Tile::Floor, Tile::Wall, Tile::Floor] };
    let mut visibility = PresentationVisibility::new(ActorId::new(1), 0);
    visibility.refresh(ActorId::new(1), Some(Position::new(0, 0)), &map);
    let existing = [
        ExistingNode { entity: 100, source_entity: 5, layer: SceneRenderLayer::Terrain },
        ExistingNode { entity: 101, source_entity: 99, layer: SceneRenderLayer::Actor },
        ExistingNode { entity: 102, source_entity: 7, layer: SceneRenderLayer::InventoryItem },
    ];
    let nodes = plan_render_nodes(plan.commands(), Some(&visibility), &existing);
    assert_eq!(nodes.nodes.len(), 6);
    assert_eq!(nodes.targets, vec![Some(100), None, None, None, None, Some(102)]);
    assert_eq!(nodes.despawn, vec![101]);
    assert!(nodes.nodes[0].visible);
    assert!(nodes.nodes[1].visible);
    assert!(!nodes.nodes[4].visible);
    assert!(nodes.nodes[5].visible);
    assert_eq!(nodes.nodes[5].placeholder, SceneRenderPlaceholder::InventoryItem);
    assert!(sprite_hidden(true, nodes.nodes[5]));
    assert!(!sprite_hidden(false, nodes.nodes[5]));
    assert!(sprite_hidden(false, nodes.nodes[4]));
    let all_visible = plan_render_nodes(plan.commands(), None, &[]);
    assert!(all_visible.nodes.iter().all(|n| n.visible));
    assert!(entry_visible(None, projection.entries()[4]));

    let manifest = build_manifest().expect("showcase manifest validates");
    let entries: Vec<SceneRenderNodeEntry> = nodes
        .nodes
        .iter()
        .enumerate()
        .map(|(i, node)| SceneRenderNodeEntry { node_entity: 200 + i as u64, node: *node })
        .collect();
    let assets = render_asset_entries(&entries, &manifest);
    assert_eq!(assets[0].reference.path(), "assets/dreadstep/terrain.png");
    assert_eq!(assets[5].reference.path(), "assets/dreadstep/inventory-item.png");
}

#[test]
fn placeholder_names_and_roles_are_stable() {
    assert_eq!(placeholder_name(SceneRenderPlaceholder::DeadActor), "dead");
    assert_eq!(placeholder_name(SceneRenderPlaceholder::GroundItem), "ground_item");
    assert_eq!(
        SceneSpriteRole::for_scene_actor(scene_actor(1, ActorKind::Enemy, 0, 0, false)),
        SceneSpriteRole::DeadActor
    );
    assert_eq!(
        SceneRenderPlaceholder::from_key(SceneSpriteKey::InventoryItem(ItemDefinitionId { id: 1 })),
        SceneRenderPlaceholder::InventoryItem
    );
    let entry = SceneRenderEntry::Terrain {
        entity: 1,
        tile: SceneTile::new(Position::new(0, 0), Tile::Stairs),
        role: SceneSpriteRole::Terrain,
        pixel_position: None,
    };
    assert_eq!(entry.sprite_key(), SceneSpriteKey::Terrain(Tile::Stairs));
}

#[test]
fn node_projection_gives_reused_and_spawned_entities_in_plan_order() {
    let projection = PresentationRenderProjection::from_mirrors(&mirrors(), None);
    let sprites = PresentationSpriteProjection::from_render(&projection);
    assert_eq!(sprites.entries().len(), projection.entries().len());
    assert_eq!(sprites.entries()[3].key(), SceneSpriteKey::DeadActor);
    let plan = PresentationRenderCommandPlan::from_sprites(sprites.entries());
    let existing = [
        ExistingNode { entity: 100, source_entity: 5, layer: SceneRenderLayer::Terrain },
        ExistingNode { entity: 102, source_entity: 7, layer: SceneRenderLayer::InventoryItem },
    ];
    let nodes = plan_render_nodes(plan.commands(), None, &existing);
    assert_eq!(nodes.spawn_count(), 4);
    let projected = PresentationRenderNodeProjection::from_plan(&nodes, &[300, 301, 302, 303]);
    let entities: Vec<u64> = projected.entries().iter().map(|e| e.node_entity).collect();
    assert_eq!(entities, vec![100, 300, 301, 302, 303, 102]);
    assert_eq!(projected.entries()[2].node, nodes.nodes[2]);
    let manifest = build_manifest().expect("showcase manifest validates");
    let assets = PresentationRenderAssetProjection::from_nodes(&projected, &manifest);
    assert_eq!(assets.entries().len(), 6);
    assert_eq!(assets.entries()[0].node.node_entity, 100);
    assert_eq!(assets.entries()[5].reference.path(), "assets/dreadstep/inventory-item.png");
    assert!(PresentationRenderNodeProjection::new().entries().is_empty());
}
