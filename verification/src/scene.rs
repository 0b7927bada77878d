//! Disposable scene mirrors of tiles, actors and items, and their keyed reconciliation.
//!
//! A scene holds at most one mirror entity per key of each family (a tile position, an actor
//! identity, an item identity). Reconciling a family against a snapshot keeps the least entity
//! of every expected key, despawns every other one, and spawns a mirror for each expected key
//! that has none. Entities are named by their 64-bit ECS identity.

use vstd::prelude::*;

use crate::geometry::Position;
use crate::render::{actor_role, SceneSpriteRole};
use crate::world::{
    Actor, ActorId, ActorKind, GroundItemStack, Item, ItemDefinitionId, ItemId,
    PresentationSnapshot, Tile, TileMap,
};

verus! {

/// One map-cell mirror.
#[derive(Clone, Copy, Debug, PartialEq, Eq, Structural, Hash)]
pub struct SceneTile {
    pub position: Position,
    pub terrain: Tile,
}

impl SceneTile {
    /// Creates a tile mirror.
    pub fn new(position: Position, terrain: Tile) -> (r: Self)
        ensures
            r.position == position,
            r.terrain == terrain,
    {
        SceneTile { position, terrain }
    }

    /// Returns the mirrored cell.
    pub fn position(self) -> (r: Position)
        ensures
            r == self.position,
    {
        self.position
    }

    /// Returns the mirrored terrain.
    pub fn terrain(self) -> (r: Tile)
        ensures
            r == self.terrain,
    {
        self.terrain
    }
}

/// One actor mirror: every field the presentation shows of an actor.
#[derive(Clone, Copy, Debug, PartialEq, Eq, Structural, Hash)]
pub struct SceneActor {
    pub id: ActorId,
    pub kind: ActorKind,
    pub position: Position,
    pub hit_points: i16,
    pub melee_reach: u8,
    pub ready_at: u64,
    pub equipped_item: Option<ItemId>,
    pub alive: bool,
}

/// The mirror of an actor of the authoritative world.
pub open spec fn actor_mirror(actor: Actor) -> SceneActor {
    SceneActor {
        id: actor.id,
        kind: actor.kind,
        position: actor.position,
        hit_points: actor.hit_points,
        melee_reach: actor.melee_reach,
        ready_at: actor.ready_at,
        equipped_item: actor.equipped_item,
        alive: actor.alive,
    }
}

impl SceneActor {
    /// Copies the mirrored fields of an actor.
    pub fn from_core(actor: &Actor) -> (r: Self)
        ensures
            r == actor_mirror(*actor),
    {
        SceneActor {
            id: actor.id,
            kind: actor.kind,
            position: actor.position,
            hit_points: actor.hit_points,
            melee_reach: actor.melee_reach,
            ready_at: actor.ready_at,
            equipped_item: actor.equipped_item,
            alive: actor.alive,
        }
    }

    /// Returns the actor identity.
    pub fn id(self) -> (r: ActorId)
        ensures
            r == self.id,
    {
        self.id
    }

    /// Returns the actor kind.
    pub fn kind(self) -> (r: ActorKind)
        ensures
            r == self.kind,
    {
        self.kind
    }

    /// Returns the actor's cell.
    pub fn position(self) -> (r: Position)
        ensures
            r == self.position,
    {
        self.position
    }

    /// Returns the actor's hit points.
    pub fn hit_points(self) -> (r: i16)
        ensures
            r == self.hit_points,
    {
        self.hit_points
    }

    /// Returns the actor's melee reach.
    pub fn melee_reach(self) -> (r: u8)
        ensures
            r == self.melee_reach,
    {
        self.melee_reach
    }

    /// Returns the time at which the actor acts next.
    pub fn ready_at(self) -> (r: u64)
        ensures
            r == self.ready_at,
    {
        self.ready_at
    }

    /// Returns the equipped item, if any.
    pub fn equipped_item(self) -> (r: Option<ItemId>)
        ensures
            r == self.equipped_item,
    {
        self.equipped_item
    }

    /// Returns whether the actor is alive.
    pub fn is_alive(self) -> (r: bool)
        ensures
            r == self.alive,
    {
        self.alive
    }
}

/// One ground-item mirror, with its place in the stack of its cell.
#[derive(Clone, Copy, Debug, PartialEq, Eq, Structural, Hash)]
pub struct SceneGroundItem {
    pub id: ItemId,
    pub definition: ItemDefinitionId,
    pub position: Position,
    pub stack_index: usize,
}

/// The mirror of item `item` at place `stack_index` of the stack on `position`.
pub open spec fn ground_mirror(position: Position, stack_index: int, item: Item) -> SceneGroundItem {
    SceneGroundItem {
        id: item.id,
        definition: item.definition,
        position,
        stack_index: stack_index as usize,
    }
}

impl SceneGroundItem {
    /// Mirrors one item of a ground stack.
    pub fn from_core(position: Position, stack_index: usize, item: Item) -> (r: Self)
        ensures
            r == ground_mirror(position, stack_index as int, item),
    {
        SceneGroundItem { id: item.id, definition: item.definition, position, stack_index }
    }

    /// Returns the item identity.
    pub fn id(self) -> (r: ItemId)
        ensures
            r == self.id,
    {
        self.id
    }

    /// Returns the item's content definition.
    pub fn definition(self) -> (r: ItemDefinitionId)
        ensures
            r == self.definition,
    {
        self.definition
    }

    /// Returns the item's cell.
    pub fn position(self) -> (r: Position)
        ensures
            r == self.position,
    {
        self.position
    }

    /// Returns the item's place in its stack.
    pub fn stack_index(self) -> (r: usize)
        ensures
            r == self.stack_index,
    {
        self.stack_index
    }
}

/// One inventory-item mirror, with its owner and its place in the owner's inventory.
#[derive(Clone, Copy, Debug, PartialEq, Eq, Structural, Hash)]
pub struct SceneInventoryItem {
    pub id: ItemId,
    pub owner: ActorId,
    pub definition: ItemDefinitionId,
    pub inventory_index: usize,
}

/// The mirror of item `item` at place `inventory_index` of the inventory of `owner`.
pub open spec fn inventory_mirror(owner: ActorId, inventory_index: int, item: Item) -> SceneInventoryItem {
    SceneInventoryItem {
        id: item.id,
        owner,
        definition: item.definition,
        inventory_index: inventory_index as usize,
    }
}

impl SceneInventoryItem {
    /// Mirrors one item of an inventory.
    pub fn from_core(owner: ActorId, inventory_index: usize, item: Item) -> (r: Self)
        ensures
            r == inventory_mirror(owner, inventory_index as int, item),
    {
        SceneInventoryItem { id: item.id, owner, definition: item.definition, inventory_index }
    }

    /// Returns the item identity.
    pub fn id(self) -> (r: ItemId)
        ensures
            r == self.id,
    {
        self.id
    }

    /// Returns the owning actor.
    pub fn owner(self) -> (r: ActorId)
        ensures
            r == self.owner,
    {
        self.owner
    }

    /// Returns the item's content definition.
    pub fn definition(self) -> (r: ItemDefinitionId)
        ensures
            r == self.definition,
    {
        self.definition
    }

    /// Returns the item's place in the inventory.
    pub fn inventory_index(self) -> (r: usize)
        ensures
            r == self.inventory_index,
    {
        self.inventory_index
    }
}

/// The marker carried by the mirror of the controlled actor.
#[derive(Clone, Copy, Debug, Default, PartialEq, Eq, Structural, Hash)]
pub struct SceneFocus;

/// The camera anchor mirror: the cell the camera centres on.
#[derive(Clone, Copy, Debug, PartialEq, Eq, Structural, Hash)]
pub struct SceneCamera {
    pub center: Position,
}

impl SceneCamera {
    /// Creates a camera anchor mirror.
    pub fn new(center: Position) -> (r: Self)
        ensures
            r.center == center,
    {
        SceneCamera { center }
    }

    /// Returns the cell the camera centres on.
    pub fn center(self) -> (r: Position)
        ensures
            r == self.center,
    {
        self.center
    }
}

/// The viewport mirror: the clamped origin and effective extent of the visible tiles.
#[derive(Clone, Copy, Debug, PartialEq, Eq, Structural, Hash)]
pub struct SceneViewport {
    pub origin: Position,
    pub width: u32,
    pub height: u32,
}

impl SceneViewport {
    /// Creates a viewport mirror.
    pub fn new(origin: Position, width: u32, height: u32) -> (r: Self)
        ensures
            r.origin == origin,
            r.width == width,
            r.height == height,
    {
        SceneViewport { origin, width, height }
    }

    /// Returns the top-left visible cell.
    pub fn origin(self) -> (r: Position)
        ensures
            r == self.origin,
    {
        self.origin
    }

    /// Returns the number of visible columns.
    pub fn width(self) -> (r: u32)
        ensures
            r == self.width,
    {
        self.width
    }

    /// Returns the number of visible rows.
    pub fn height(self) -> (r: u32)
        ensures
            r == self.height,
    {
        self.height
    }
}

/// The cell of storage index `index` in a row-major map `width` cells wide, when both
/// coordinates fit in `i32`.
pub open spec fn spec_scene_position(index: int, width: int) -> Option<Position> {
    if width <= 0 {
        None
    } else if index % width <= i32::MAX && index / width <= i32::MAX {
        Some(Position { x: (index % width) as i32, y: (index / width) as i32 })
    } else {
        None
    }
}

/// Returns the cell of storage index `index` in a row-major map `width` cells wide.
pub fn scene_position(index: usize, width: usize) -> (r: Option<Position>)
    ensures
        r == spec_scene_position(index as int, width as int),
{
    if width == 0 {
        return None;
    }
    let x = index % width;
    let y = index / width;
    if x > 2147483647usize || y > 2147483647usize {
        return None;
    }
    Some(Position { x: x as i32, y: y as i32 })
}

/// Whether every stored tile of `map` has a cell.
pub open spec fn tiles_placeable(map: TileMap) -> bool {
    forall|i: int| 0 <= i < map.tiles@.len() ==> spec_scene_position(i, map.width as int) is Some
}

/// The tile mirrors of `map`, in storage order.
pub open spec fn spec_tile_mirrors(map: TileMap) -> Seq<SceneTile> {
    Seq::new(
        map.tiles@.len(),
        |i: int| SceneTile { position: spec_scene_position(i, map.width as int)->0, terrain: map.tiles@[i] },
    )
}

/// Returns the tile mirrors of `map` in storage order, or `None` when a stored tile has no cell.
pub fn tile_mirrors(map: &TileMap) -> (r: Option<Vec<SceneTile>>)
    ensures
        r is Some <==> tiles_placeable(*map),
        r matches Some(v) ==> v@ == spec_tile_mirrors(*map),
{
    let width = map.width as usize;
    let mut out: Vec<SceneTile> = Vec::new();
    let mut i: usize = 0;
    while i < map.tiles.len()
        invariant
            i <= map.tiles@.len(),
            width == map.width,
            forall|k: int| 0 <= k < i ==> spec_scene_position(k, map.width as int) is Some,
            out@ =~= spec_tile_mirrors(*map).subrange(0, i as int),
        decreases map.tiles@.len() - i,
    {
        match scene_position(i, width) {
            Some(position) => {
                out.push(SceneTile { position, terrain: map.tiles[i] });
            },
            None => {
                return None;
            },
        }
        i += 1;
    }
    assert(out@ =~= spec_tile_mirrors(*map));
    Some(out)
}

/// The key of a mirror within its family: a cell's two coordinates, or an identity and zero.
#[derive(Clone, Copy, Debug, PartialEq, Eq, Structural, Hash)]
pub struct MirrorKey {
    pub first: i64,
    pub second: i64,
}

/// The key of a tile mirror.
pub open spec fn spec_tile_key(position: Position) -> MirrorKey {
    MirrorKey { first: position.x as i64, second: position.y as i64 }
}

/// The key of an actor or item mirror.
pub open spec fn spec_id_key(id: u32) -> MirrorKey {
    MirrorKey { first: id as i64, second: 0 }
}

/// Returns the key of a tile mirror.
pub fn tile_key(position: Position) -> (r: MirrorKey)
    ensures
        r == spec_tile_key(position),
{
    MirrorKey { first: position.x as i64, second: position.y as i64 }
}

/// Returns the key of an actor or item mirror.
pub fn id_key(id: u32) -> (r: MirrorKey)
    ensures
        r == spec_id_key(id),
{
    MirrorKey { first: id as i64, second: 0 }
}

/// The least entity mirroring `key`, if any does.
pub open spec fn least_entity(existing: Seq<(MirrorKey, u64)>, key: MirrorKey) -> Option<u64>
    decreases existing.len(),
{
    if existing.len() == 0 {
        None
    } else {
        let rest = least_entity(existing.drop_last(), key);
        let last = existing.last();
        if last.0 == key {
            match rest {
                None => Some(last.1),
                Some(best) => Some(if last.1 < best { last.1 } else { best }),
            }
        } else {
            rest
        }
    }
}

/// Whether the mirror `entry` survives: its key is expected and it is that key's least entity.
pub open spec fn survives(
    existing: Seq<(MirrorKey, u64)>,
    expected: Seq<MirrorKey>,
    entry: (MirrorKey, u64),
) -> bool {
    expected.contains(entry.0) && least_entity(existing, entry.0) == Some(entry.1)
}

/// The entities among the first `n` existing mirrors that do not survive, in order.
pub open spec fn stale_entities(
    existing: Seq<(MirrorKey, u64)>,
    expected: Seq<MirrorKey>,
    n: int,
) -> Seq<u64>
    decreases n,
{
    if n <= 0 {
        Seq::empty()
    } else {
        let before = stale_entities(existing, expected, n - 1);
        if survives(existing, expected, existing[n - 1]) {
            before
        } else {
            before.push(existing[n - 1].1)
        }
    }
}

/// What reconciling one mirror family does: the entity that receives each expected mirror
/// (`None`: a new entity is spawned for it), and the entities to despawn.
#[derive(Clone, Debug, PartialEq, Eq)]
pub struct MirrorPlan {
    pub targets: Vec<Option<u64>>,
    pub despawn: Vec<u64>,
}

/// The plan for one family: each expected key goes to its least existing entity, and every
/// existing entity that does not survive is despawned.
pub open spec fn plans_family(
    plan: MirrorPlan,
    existing: Seq<(MirrorKey, u64)>,
    expected: Seq<MirrorKey>,
) -> bool {
    &&& plan.targets@.len() == expected.len()
    &&& forall|i: int|
        0 <= i < expected.len() ==> #[trigger] plan.targets@[i] == least_entity(existing, expected[i])
    &&& plan.despawn@ == stale_entities(existing, expected, existing.len() as int)
}

fn least_entity_of(existing: &[(MirrorKey, u64)], key: MirrorKey) -> (r: Option<u64>)
    ensures
        r == least_entity(existing@, key),
{
    let mut best: Option<u64> = None;
    let mut i: usize = 0;
    while i < existing.len()
        invariant
            i <= existing@.len(),
            best == least_entity(existing@.subrange(0, i as int), key),
        decreases existing@.len() - i,
    {
        proof {
            let next = existing@.subrange(0, i + 1);
            assert(next.drop_last() =~= existing@.subrange(0, i as int));
        }
        let (k, e) = existing[i];
        if k == key {
            best = match best {
                None => Some(e),
                Some(b) => Some(if e < b { e } else { b }),
            };
        }
        i += 1;
    }
    assert(existing@.subrange(0, existing@.len() as int) =~= existing@);
    best
}

fn expects(expected: &[MirrorKey], key: MirrorKey) -> (r: bool)
    ensures
        r == expected@.contains(key),
{
    let mut i: usize = 0;
    while i < expected.len()
        invariant
            i <= expected@.len(),
            forall|k: int| 0 <= k < i ==> expected@[k] != key,
        decreases expected@.len() - i,
    {
        if expected[i] == key {
            return true;
        }
        i += 1;
    }
    false
}

/// Plans the reconciliation of one mirror family against the keys a snapshot expects.
pub fn reconcile_family(existing: &[(MirrorKey, u64)], expected: &[MirrorKey]) -> (r: MirrorPlan)
    ensures
        plans_family(r, existing@, expected@),
{
    let mut targets: Vec<Option<u64>> = Vec::new();
    let mut i: usize = 0;
    while i < expected.len()
        invariant
            i <= expected@.len(),
            targets@.len() == i,
            forall|k: int| 0 <= k < i ==> #[trigger] targets@[k] == least_entity(existing@, expected@[k]),
        decreases expected@.len() - i,
    {
        targets.push(least_entity_of(existing, expected[i]));
        i += 1;
    }
    let mut despawn: Vec<u64> = Vec::new();
    let mut j: usize = 0;
    while j < existing.len()
        invariant
            j <= existing@.len(),
            despawn@ == stale_entities(existing@, expected@, j as int),
        decreases existing@.len() - j,
    {
        let (k, e) = existing[j];
        let keep = expects(expected, k) && least_entity_of(existing, k) == Some(e);
        if !keep {
            despawn.push(e);
        }
        j += 1;
    }
    MirrorPlan { targets, despawn }
}

/// The least entity of a key is an entity that mirrors that key.
pub proof fn lemma_least_entity_mirrors(existing: Seq<(MirrorKey, u64)>, key: MirrorKey)
    ensures
        least_entity(existing, key) matches Some(e) ==> existing.contains((key, e)),
        least_entity(existing, key) is None ==> forall|i: int|
            0 <= i < existing.len() ==> #[trigger] existing[i].0 != key,
    decreases existing.len(),
{
    if existing.len() > 0 {
        let rest = existing.drop_last();
        lemma_least_entity_mirrors(rest, key);
        if let Some(e) = least_entity(rest, key) {
            let j = choose|j: int| 0 <= j < rest.len() && rest[j] == (key, e);
            assert(existing[j] == (key, e));
        }
        assert(existing[existing.len() - 1] == existing.last());
        assert forall|i: int| 0 <= i < existing.len() - 1 implies existing[i] == rest[i] by {}
    }
}

/// The least entity of a key is no greater than any entity mirroring that key.
pub proof fn lemma_least_entity_is_least(existing: Seq<(MirrorKey, u64)>, key: MirrorKey, i: int)
    requires
        0 <= i < existing.len(),
        existing[i].0 == key,
    ensures
        least_entity(existing, key) matches Some(e) && e <= existing[i].1,
    decreases existing.len(),
{
    let rest = existing.drop_last();
    if i < existing.len() - 1 {
        assert(rest[i] == existing[i]);
        lemma_least_entity_is_least(rest, key, i);
    } else {
        lemma_least_entity_mirrors(rest, key);
    }
}

/// Membership in the stale prefix: an entity is listed exactly when some mirror among the first
/// `n` carries it and does not survive.
proof fn lemma_stale_membership(
    existing: Seq<(MirrorKey, u64)>,
    expected: Seq<MirrorKey>,
    n: int,
    e: u64,
)
    requires
        0 <= n <= existing.len(),
    ensures
        stale_entities(existing, expected, n).contains(e) <==> exists|j: int|
            0 <= j < n && #[trigger] existing[j].1 == e && !survives(existing, expected, existing[j]),
    decreases n,
{
    if n > 0 {
        lemma_stale_membership(existing, expected, n - 1, e);
        let before = stale_entities(existing, expected, n - 1);
        if stale_entities(existing, expected, n).contains(e) {
            if !before.contains(e) {
                let k = choose|k: int|
                    0 <= k < stale_entities(existing, expected, n).len() && stale_entities(
                        existing,
                        expected,
                        n,
                    )[k] == e;
                assert(k == before.len());
                assert(existing[n - 1].1 == e);
            }
        }
        if exists|j: int|
            0 <= j < n && #[trigger] existing[j].1 == e && !survives(existing, expected, existing[j])
        {
            let j = choose|j: int|
                0 <= j < n && #[trigger] existing[j].1 == e && !survives(
                    existing,
                    expected,
                    existing[j],
                );
            if j == n - 1 {
                let after = stale_entities(existing, expected, n);
                assert(after[after.len() - 1] == e);
            } else {
                let k = choose|k: int| 0 <= k < before.len() && before[k] == e;
                assert(stale_entities(existing, expected, n)[k] == e);
            }
        }
    }
}

/// After reconciling a family whose entities are distinct, every expected key is mirrored by
/// exactly its least existing entity, that entity is kept, and every other existing entity is
/// despawned.
pub proof fn lemma_reconcile_keeps_one_per_key(
    plan: MirrorPlan,
    existing: Seq<(MirrorKey, u64)>,
    expected: Seq<MirrorKey>,
)
    requires
        plans_family(plan, existing, expected),
        forall|a: int, b: int|
            0 <= a < existing.len() && 0 <= b < existing.len() && a != b ==> #[trigger] existing[a].1
                != #[trigger] existing[b].1,
    ensures
        forall|i: int|
            0 <= i < expected.len() && plan.targets@[i] is Some ==> existing.contains(
                (expected[i], plan.targets@[i]->0),
            ) && !plan.despawn@.contains(plan.targets@[i]->0),
        forall|j: int|
            0 <= j < existing.len() ==> (plan.despawn@.contains(#[trigger] existing[j].1) <==> !(
            expected.contains(existing[j].0) && least_entity(existing, existing[j].0) == Some(
                existing[j].1,
            ))),
{
    assert forall|i: int|
        0 <= i < expected.len() && plan.targets@[i] is Some implies existing.contains(
        (expected[i], plan.targets@[i]->0),
    ) && !plan.despawn@.contains(plan.targets@[i]->0) by {
        let e = plan.targets@[i]->0;
        lemma_least_entity_mirrors(existing, expected[i]);
        lemma_stale_membership(existing, expected, existing.len() as int, e);
        let m = choose|m: int| 0 <= m < existing.len() && existing[m] == (expected[i], e);
        if plan.despawn@.contains(e) {
            let j = choose|j: int|
                0 <= j < existing.len() && #[trigger] existing[j].1 == e && !survives(
                    existing,
                    expected,
                    existing[j],
                );
            if j != m {
                assert(existing[j].1 != existing[m].1);
            }
            assert(expected.contains(expected[i]));
        }
    }
    assert forall|j: int| 0 <= j < existing.len() implies (plan.despawn@.contains(
        #[trigger] existing[j].1,
    ) <==> !(expected.contains(existing[j].0) && least_entity(existing, existing[j].0) == Some(
        existing[j].1,
    ))) by {
        lemma_stale_membership(existing, expected, existing.len() as int, existing[j].1);
        if plan.despawn@.contains(existing[j].1) {
            let m = choose|m: int|
                0 <= m < existing.len() && #[trigger] existing[m].1 == existing[j].1 && !survives(
                    existing,
                    expected,
                    existing[m],
                );
            assert(m == j);
        }
    }
}

/// `after` mirrors each expected key once, in order, each by its own entity.
pub open spec fn mirrors_exactly(after: Seq<(MirrorKey, u64)>, expected: Seq<MirrorKey>) -> bool {
    &&& after.len() == expected.len()
    &&& forall|i: int| 0 <= i < after.len() ==> #[trigger] after[i].0 == expected[i]
    &&& forall|i: int, j: int| 0 <= i < j < after.len() ==> #[trigger] after[i].1 != #[trigger] after[j].1
}

/// `after` puts every mirror a plan keeps on the entity the plan chose for it.
pub open spec fn applies(plan: MirrorPlan, after: Seq<(MirrorKey, u64)>) -> bool {
    forall|i: int| 0 <= i < after.len() && #[trigger] plan.targets@[i] is Some ==> after[i].1 == plan.targets@[i]->0
}

proof fn lemma_single_key(after: Seq<(MirrorKey, u64)>, expected: Seq<MirrorKey>, i: int)
    requires
        mirrors_exactly(after, expected),
        expected.no_duplicates(),
        0 <= i < after.len(),
    ensures
        least_entity(after, expected[i]) == Some(after[i].1),
{
    lemma_least_entity_mirrors(after, expected[i]);
    assert(after[i].0 == expected[i]);
    if let Some(e) = least_entity(after, expected[i]) {
        let k = choose|k: int| 0 <= k < after.len() && after[k] == (expected[i], e);
        assert(after[k].0 == expected[k]);
        if k != i {
            assert(expected[k] == expected[i]);
        }
    }
}

proof fn lemma_none_stale(after: Seq<(MirrorKey, u64)>, expected: Seq<MirrorKey>, n: int)
    requires
        mirrors_exactly(after, expected),
        expected.no_duplicates(),
        0 <= n <= after.len(),
    ensures
        stale_entities(after, expected, n).len() == 0,
    decreases n,
{
    if n > 0 {
        lemma_none_stale(after, expected, n - 1);
        lemma_single_key(after, expected, n - 1);
        assert(after[n - 1].0 == expected[n - 1]);
        assert(expected.contains(after[n - 1].0));
    }
}

/// After a family's plan is applied, the least existing entity of every key still expected is
/// the one entity carrying that key. Reconciling the family a second time, against the mirrors
/// the first reconciliation left and with the same expected keys, keeps every mirror on its
/// entity and despawns nothing.
pub proof fn lemma_reconcile_settles(
    plan: MirrorPlan,
    existing: Seq<(MirrorKey, u64)>,
    expected: Seq<MirrorKey>,
    after: Seq<(MirrorKey, u64)>,
    again: MirrorPlan,
)
    requires
        plans_family(plan, existing, expected),
        expected.no_duplicates(),
        mirrors_exactly(after, expected),
        applies(plan, after),
        plans_family(again, after, expected),
    ensures
        forall|i: int|
            0 <= i < expected.len() && #[trigger] least_entity(existing, expected[i]) is Some ==> after[i].1
                == least_entity(existing, expected[i])->0,
        forall|i: int, j: int|
            0 <= i < expected.len() && 0 <= j < after.len() && #[trigger] after[j].0 == #[trigger] expected[i]
                ==> j == i,
        forall|i: int| 0 <= i < expected.len() ==> #[trigger] again.targets@[i] == Some(after[i].1),
        again.despawn@.len() == 0,
{
    assert forall|i: int|
        0 <= i < expected.len() && #[trigger] least_entity(existing, expected[i]) is Some implies after[i].1
            == least_entity(existing, expected[i])->0 by {
        assert(plan.targets@[i] == least_entity(existing, expected[i]));
    }
    assert forall|i: int, j: int|
        0 <= i < expected.len() && 0 <= j < after.len() && #[trigger] after[j].0 == #[trigger] expected[i]
            implies j == i by {
        assert(after[j].0 == expected[j]);
    }
    assert forall|i: int| 0 <= i < expected.len() implies #[trigger] again.targets@[i] == Some(after[i].1) by {
        lemma_single_key(after, expected, i);
    }
    lemma_none_stale(after, expected, after.len() as int);
}

/// The actor mirrors of a snapshot with their roles, in actor order.
pub open spec fn spec_actor_mirrors(actors: Seq<Actor>) -> Seq<(SceneActor, SceneSpriteRole)> {
    Seq::new(actors.len(), |i: int| (actor_mirror(actors[i]), actor_role(actors[i].kind, actors[i].alive)))
}

/// The ground-item mirrors of a snapshot: every stack in order, each item in stack order.
pub open spec fn spec_ground_mirrors(stacks: Seq<GroundItemStack>) -> Seq<SceneGroundItem>
    decreases stacks.len(),
{
    if stacks.len() == 0 {
        Seq::empty()
    } else {
        let last = stacks.last();
        spec_ground_mirrors(stacks.drop_last()) + Seq::new(
            last.items@.len(),
            |i: int| ground_mirror(last.position, i, last.items@[i]),
        )
    }
}

/// The inventory-item mirrors of a snapshot: every actor in order, each item in inventory order.
pub open spec fn spec_inventory_mirrors(actors: Seq<Actor>) -> Seq<SceneInventoryItem>
    decreases actors.len(),
{
    if actors.len() == 0 {
        Seq::empty()
    } else {
        let last = actors.last();
        spec_inventory_mirrors(actors.drop_last()) + Seq::new(
            last.inventory@.len(),
            |i: int| inventory_mirror(last.id, i, last.inventory@[i]),
        )
    }
}

/// The keys of tile mirrors.
pub open spec fn tile_keys(tiles: Seq<SceneTile>) -> Seq<MirrorKey> {
    Seq::new(tiles.len(), |i: int| spec_tile_key(tiles[i].position))
}

/// The keys of actor mirrors.
pub open spec fn actor_keys(actors: Seq<(SceneActor, SceneSpriteRole)>) -> Seq<MirrorKey> {
    Seq::new(actors.len(), |i: int| spec_id_key(actors[i].0.id.id))
}

/// The keys of ground-item mirrors.
pub open spec fn ground_keys(items: Seq<SceneGroundItem>) -> Seq<MirrorKey> {
    Seq::new(items.len(), |i: int| spec_id_key(items[i].id.id))
}

/// The keys of inventory-item mirrors.
pub open spec fn inventory_keys(items: Seq<SceneInventoryItem>) -> Seq<MirrorKey> {
    Seq::new(items.len(), |i: int| spec_id_key(items[i].id.id))
}

/// The mirrors a scene holds before reconciliation, per family, as (key, entity) pairs.
#[derive(Clone, Debug, PartialEq, Eq)]
pub struct ExistingMirrors {
    pub tiles: Vec<(MirrorKey, u64)>,
    pub actors: Vec<(MirrorKey, u64)>,
    pub ground_items: Vec<(MirrorKey, u64)>,
    pub inventory_items: Vec<(MirrorKey, u64)>,
}

/// Everything one scene reconciliation writes: the mirrors of each family in snapshot order,
/// and the plan that places them.
#[derive(Clone, Debug, PartialEq, Eq)]
pub struct ScenePlan {
    pub tiles: Vec<SceneTile>,
    pub tile_plan: MirrorPlan,
    pub actors: Vec<(SceneActor, SceneSpriteRole)>,
    pub actor_plan: MirrorPlan,
    pub ground_items: Vec<SceneGroundItem>,
    pub ground_plan: MirrorPlan,
    pub inventory_items: Vec<SceneInventoryItem>,
    pub inventory_plan: MirrorPlan,
}

/// `plan` reconciles `existing` with `snapshot`, family by family.
pub open spec fn plans_scene(plan: ScenePlan, existing: ExistingMirrors, snapshot: PresentationSnapshot) -> bool {
    &&& plan.tiles@ == spec_tile_mirrors(snapshot.map)
    &&& plans_family(plan.tile_plan, existing.tiles@, tile_keys(plan.tiles@))
    &&& plan.actors@ == spec_actor_mirrors(snapshot.actors@)
    &&& plans_family(plan.actor_plan, existing.actors@, actor_keys(plan.actors@))
    &&& plan.ground_items@ == spec_ground_mirrors(snapshot.ground_items@)
    &&& plans_family(plan.ground_plan, existing.ground_items@, ground_keys(plan.ground_items@))
    &&& plan.inventory_items@ == spec_inventory_mirrors(snapshot.actors@)
    &&& plans_family(
        plan.inventory_plan,
        existing.inventory_items@,
        inventory_keys(plan.inventory_items@),
    )
}

fn actor_mirrors(actors: &Vec<Actor>) -> (r: Vec<(SceneActor, SceneSpriteRole)>)
    ensures
        r@ == spec_actor_mirrors(actors@),
{
    let mut out: Vec<(SceneActor, SceneSpriteRole)> = Vec::new();
    let mut i: usize = 0;
    while i < actors.len()
        invariant
            i <= actors@.len(),
            out@ =~= spec_actor_mirrors(actors@).subrange(0, i as int),
        decreases actors@.len() - i,
    {
        let actor = &actors[i];
        out.push((SceneActor::from_core(actor), SceneSpriteRole::for_actor(actor)));
        i += 1;
    }
    assert(out@ =~= spec_actor_mirrors(actors@));
    out
}

fn ground_mirrors(stacks: &Vec<GroundItemStack>) -> (r: Vec<SceneGroundItem>)
    ensures
        r@ == spec_ground_mirrors(stacks@),
{
    let mut out: Vec<SceneGroundItem> = Vec::new();
    let mut s: usize = 0;
    while s < stacks.len()
        invariant
            s <= stacks@.len(),
            out@ == spec_ground_mirrors(stacks@.subrange(0, s as int)),
        decreases stacks@.len() - s,
    {
        let stack = &stacks[s];
        let ghost before = out@;
        let mut k: usize = 0;
        while k < stack.items.len()
            invariant
                k <= stack.items@.len(),
                stack == stacks@[s as int],
                out@ =~= before + Seq::new(
                    k as nat,
                    |i: int| ground_mirror(stack.position, i, stack.items@[i]),
                ),
            decreases stack.items@.len() - k,
        {
            out.push(SceneGroundItem::from_core(stack.position, k, stack.items[k]));
            k += 1;
        }
        proof {
            let next = stacks@.subrange(0, s + 1);
            assert(next.drop_last() =~= stacks@.subrange(0, s as int));
            assert(next.last() == stacks@[s as int]);
        }
        s += 1;
    }
    assert(stacks@.subrange(0, stacks@.len() as int) =~= stacks@);
    out
}

fn inventory_mirrors(actors: &Vec<Actor>) -> (r: Vec<SceneInventoryItem>)
    ensures
        r@ == spec_inventory_mirrors(actors@),
{
    let mut out: Vec<SceneInventoryItem> = Vec::new();
    let mut a: usize = 0;
    while a < actors.len()
        invariant
            a <= actors@.len(),
            out@ == spec_inventory_mirrors(actors@.subrange(0, a as int)),
        decreases actors@.len() - a,
    {
        let actor = &actors[a];
        let ghost before = out@;
        let mut k: usize = 0;
        while k < actor.inventory.len()
            invariant
                k <= actor.inventory@.len(),
                actor == actors@[a as int],
                out@ =~= before + Seq::new(
                    k as nat,
                    |i: int| inventory_mirror(actor.id, i, actor.inventory@[i]),
                ),
            decreases actor.inventory@.len() - k,
        {
            out.push(SceneInventoryItem::from_core(actor.id, k, actor.inventory[k]));
            k += 1;
        }
        proof {
            let next = actors@.subrange(0, a + 1);
            assert(next.drop_last() =~= actors@.subrange(0, a as int));
            assert(next.last() == actors@[a as int]);
        }
        a += 1;
    }
    assert(actors@.subrange(0, actors@.len() as int) =~= actors@);
    out
}

fn keys_of_tiles(tiles: &Vec<SceneTile>) -> (r: Vec<MirrorKey>)
    ensures
        r@ == tile_keys(tiles@),
{
    let mut out: Vec<MirrorKey> = Vec::new();
    let mut i: usize = 0;
    while i < tiles.len()
        invariant
            i <= tiles@.len(),
            out@ =~= tile_keys(tiles@).subrange(0, i as int),
        decreases tiles@.len() - i,
    {
        out.push(tile_key(tiles[i].position));
        i += 1;
    }
    assert(out@ =~= tile_keys(tiles@));
    out
}

fn keys_of_actors(actors: &Vec<(SceneActor, SceneSpriteRole)>) -> (r: Vec<MirrorKey>)
    ensures
        r@ == actor_keys(actors@),
{
    let mut out: Vec<MirrorKey> = Vec::new();
    let mut i: usize = 0;
    while i < actors.len()
        invariant
            i <= actors@.len(),
            out@ =~= actor_keys(actors@).subrange(0, i as int),
        decreases actors@.len() - i,
    {
        out.push(id_key(actors[i].0.id.id));
        i += 1;
    }
    assert(out@ =~= actor_keys(actors@));
    out
}

fn keys_of_ground_items(items: &Vec<SceneGroundItem>) -> (r: Vec<MirrorKey>)
    ensures
        r@ == ground_keys(items@),
{
    let mut out: Vec<MirrorKey> = Vec::new();
    let mut i: usize = 0;
    while i < items.len()
        invariant
            i <= items@.len(),
            out@ =~= ground_keys(items@).subrange(0, i as int),
        decreases items@.len() - i,
    {
        out.push(id_key(items[i].id.id));
        i += 1;
    }
    assert(out@ =~= ground_keys(items@));
    out
}

fn keys_of_inventory_items(items: &Vec<SceneInventoryItem>) -> (r: Vec<MirrorKey>)
    ensures
        r@ == inventory_keys(items@),
{
    let mut out: Vec<MirrorKey> = Vec::new();
    let mut i: usize = 0;
    while i < items.len()
        invariant
            i <= items@.len(),
            out@ =~= inventory_keys(items@).subrange(0, i as int),
        decreases items@.len() - i,
    {
        out.push(id_key(items[i].id.id));
        i += 1;
    }
    assert(out@ =~= inventory_keys(items@));
    out
}

/// Plans the reconciliation of every mirror family of a scene with a snapshot.
///
/// Returns `None`, and the scene stays as it is, when a stored tile has no cell (a zero-width
/// map with tiles, or a coordinate beyond `i32`).
pub fn plan_scene(existing: &ExistingMirrors, snapshot: &PresentationSnapshot) -> (r: Option<ScenePlan>)
    ensures
        r is Some <==> tiles_placeable(snapshot.map),
        r matches Some(plan) ==> plans_scene(plan, *existing, *snapshot),
{
    let tiles = match tile_mirrors(&snapshot.map) {
        Some(tiles) => tiles,
        None => {
            return None;
        },
    };
    let tile_plan = reconcile_family(existing.tiles.as_slice(), keys_of_tiles(&tiles).as_slice());
    let actors = actor_mirrors(&snapshot.actors);
    let actor_plan = reconcile_family(existing.actors.as_slice(), keys_of_actors(&actors).as_slice());
    let ground_items = ground_mirrors(&snapshot.ground_items);
    let ground_plan = reconcile_family(
        existing.ground_items.as_slice(),
        keys_of_ground_items(&ground_items).as_slice(),
    );
    let inventory_items = inventory_mirrors(&snapshot.actors);
    let inventory_plan = reconcile_family(
        existing.inventory_items.as_slice(),
        keys_of_inventory_items(&inventory_items).as_slice(),
    );
    Some(
        ScenePlan {
            tiles,
            tile_plan,
            actors,
            actor_plan,
            ground_items,
            ground_plan,
            inventory_items,
            inventory_plan,
        },
    )
}

/// The least of `entities`, if there is one.
pub open spec fn least_of(entities: Seq<u64>) -> Option<u64>
    decreases entities.len(),
{
    if entities.len() == 0 {
        None
    } else {
        match least_of(entities.drop_last()) {
            None => Some(entities.last()),
            Some(best) => Some(if entities.last() < best { entities.last() } else { best }),
        }
    }
}

/// Returns the least of `entities`, if there is one.
pub fn least(entities: &[u64]) -> (r: Option<u64>)
    ensures
        r == least_of(entities@),
{
    let mut best: Option<u64> = None;
    let mut i: usize = 0;
    while i < entities.len()
        invariant
            i <= entities@.len(),
            best == least_of(entities@.subrange(0, i as int)),
        decreases entities@.len() - i,
    {
        proof {
            let next = entities@.subrange(0, i + 1);
            assert(next.drop_last() =~= entities@.subrange(0, i as int));
        }
        let e = entities[i];
        best = match best {
            None => Some(e),
            Some(b) => Some(if e < b { e } else { b }),
        };
        i += 1;
    }
    assert(entities@.subrange(0, entities@.len() as int) =~= entities@);
    best
}

/// The entity that keeps a singleton mirror: the remembered one while it still exists, else the
/// least existing one; `None` when there is none and a new one must be spawned.
pub open spec fn spec_retained_singleton(remembered: Option<u64>, existing: Seq<u64>) -> Option<u64> {
    match remembered {
        Some(e) if existing.contains(e) => Some(e),
        _ => least_of(existing),
    }
}

/// How a singleton mirror (the camera anchor, the viewport, the window) is reconciled.
#[derive(Clone, Debug, PartialEq, Eq)]
pub struct SingletonPlan {
    /// The entity that receives the mirror; `None`: a new one is spawned.
    pub keep: Option<u64>,
    /// Every other existing entity of the family, in the order given.
    pub despawn: Vec<u64>,
}

/// `plan` keeps `keep` and despawns every other existing entity.
pub open spec fn plans_singleton(plan: SingletonPlan, keep: Option<u64>, existing: Seq<u64>) -> bool {
    &&& plan.keep == keep
    &&& plan.despawn@ == existing.filter(|e: u64| Some(e) != keep)
}

fn singleton_plan(keep: Option<u64>, existing: &[u64]) -> (r: SingletonPlan)
    ensures
        plans_singleton(r, keep, existing@),
{
    let mut despawn: Vec<u64> = Vec::new();
    let mut i: usize = 0;
    while i < existing.len()
        invariant
            i <= existing@.len(),
            despawn@ == existing@.subrange(0, i as int).filter(|e: u64| Some(e) != keep),
        decreases existing@.len() - i,
    {
        proof {
            let next = existing@.subrange(0, i + 1);
            assert(next.drop_last() =~= existing@.subrange(0, i as int));
            reveal(Seq::filter);
        }
        let e = existing[i];
        let kept = match keep {
            Some(k) => k == e,
            None => false,
        };
        if !kept {
            despawn.push(e);
        }
        i += 1;
    }
    assert(existing@.subrange(0, existing@.len() as int) =~= existing@);
    SingletonPlan { keep, despawn }
}

fn contains_entity(entities: &[u64], e: u64) -> (r: bool)
    ensures
        r == entities@.contains(e),
{
    let mut i: usize = 0;
    while i < entities.len()
        invariant
            i <= entities@.len(),
            forall|k: int| 0 <= k < i ==> entities@[k] != e,
        decreases entities@.len() - i,
    {
        if entities[i] == e {
            return true;
        }
        i += 1;
    }
    false
}

/// Plans the camera-anchor or viewport singleton: the remembered entity while it exists, else the
/// least existing one; every other one is despawned.
pub fn plan_singleton(remembered: Option<u64>, existing: &[u64]) -> (r: SingletonPlan)
    ensures
        plans_singleton(r, spec_retained_singleton(remembered, existing@), existing@),
{
    let remembered_exists = match remembered {
        Some(e) => contains_entity(existing, e),
        None => false,
    };
    let keep = if remembered_exists {
        remembered
    } else {
        least(existing)
    };
    singleton_plan(keep, existing)
}

/// The entity that keeps the window mirror: the least primary window, else the remembered
/// window mirror while it exists, else the least existing window mirror.
pub open spec fn spec_retained_window(primary: Seq<u64>, remembered: Option<u64>, existing: Seq<u64>) -> Option<u64> {
    match least_of(primary) {
        Some(p) => Some(p),
        None => spec_retained_singleton(remembered, existing),
    }
}

/// Plans the window singleton; every window mirror other than the kept entity is despawned.
pub fn plan_window(primary: &[u64], remembered: Option<u64>, existing: &[u64]) -> (r: SingletonPlan)
    ensures
        plans_singleton(r, spec_retained_window(primary@, remembered, existing@), existing@),
{
    match least(primary) {
        Some(p) => singleton_plan(Some(p), existing),
        None => plan_singleton(remembered, existing),
    }
}

/// The first actor of `actors` with identity `id`.
pub open spec fn find_actor(actors: Seq<Actor>, id: ActorId) -> Option<Actor>
    decreases actors.len(),
{
    if actors.len() == 0 {
        None
    } else if actors[0].id == id {
        Some(actors[0])
    } else {
        find_actor(actors.drop_first(), id)
    }
}

/// Returns the index of the first actor with identity `id`.
pub fn find_actor_index(actors: &Vec<Actor>, id: ActorId) -> (r: Option<usize>)
    ensures
        r is None ==> find_actor(actors@, id) is None,
        r matches Some(i) ==> i < actors@.len() && find_actor(actors@, id) == Some(actors@[i as int]),
{
    let mut i: usize = 0;
    assert(actors@.subrange(0, actors@.len() as int) =~= actors@);
    while i < actors.len()
        invariant
            i <= actors@.len(),
            find_actor(actors@, id) == find_actor(actors@.subrange(i as int, actors@.len() as int), id),
        decreases actors@.len() - i,
    {
        let ghost rest = actors@.subrange(i as int, actors@.len() as int);
        assert(rest.drop_first() =~= actors@.subrange(i + 1, actors@.len() as int));
        assert(rest[0] == actors@[i as int]);
        if actors[i].id == id {
            return Some(i);
        }
        i += 1;
    }
    None
}

/// The cell of the first actor with identity `id`: what the focus and the camera follow.
pub open spec fn spec_actor_position(actors: Seq<Actor>, id: ActorId) -> Option<Position> {
    match find_actor(actors, id) {
        Some(actor) => Some(actor.position),
        None => None,
    }
}

/// Returns the cell of the first actor with identity `id`.
pub fn actor_position(actors: &Vec<Actor>, id: ActorId) -> (r: Option<Position>)
    ensures
        r == spec_actor_position(actors@, id),
{
    match find_actor_index(actors, id) {
        Some(i) => Some(actors[i].position),
        None => None,
    }
}

/// The actor mirror entity that carries the focus marker: the first mirror of the controlled
/// actor, when the snapshot knows that actor.
pub open spec fn spec_focus_target(actor_known: bool, mirrors: Seq<(ActorId, u64)>, actor: ActorId) -> Option<u64>
    decreases mirrors.len(),
{
    if !actor_known || mirrors.len() == 0 {
        None
    } else if mirrors[0].0 == actor {
        Some(mirrors[0].1)
    } else {
        spec_focus_target(actor_known, mirrors.drop_first(), actor)
    }
}

/// Returns the actor mirror entity that carries the focus marker.
pub fn focus_target(actors: &Vec<Actor>, mirrors: &[(ActorId, u64)], actor: ActorId) -> (r: Option<u64>)
    ensures
        r == spec_focus_target(find_actor(actors@, actor) is Some, mirrors@, actor),
{
    let known = find_actor_index(actors, actor).is_some();
    if !known {
        return None;
    }
    let mut i: usize = 0;
    assert(mirrors@.subrange(0, mirrors@.len() as int) =~= mirrors@);
    while i < mirrors.len()
        invariant
            i <= mirrors@.len(),
            known,
            find_actor(actors@, actor) is Some,
            spec_focus_target(known, mirrors@, actor) == spec_focus_target(
                known,
                mirrors@.subrange(i as int, mirrors@.len() as int),
                actor,
            ),
        decreases mirrors@.len() - i,
    {
        let ghost rest = mirrors@.subrange(i as int, mirrors@.len() as int);
        assert(rest.drop_first() =~= mirrors@.subrange(i + 1, mirrors@.len() as int));
        assert(rest[0] == mirrors@[i as int]);
        if mirrors[i].0 == actor {
            return Some(mirrors[i].1);
        }
        i += 1;
    }
    None
}

/// The camera anchor: the actor it follows and that actor's cell, while the snapshot holds it.
#[derive(Clone, Copy, Debug, PartialEq, Eq, Structural, Hash)]
pub struct PresentationCamera {
    pub actor: ActorId,
    pub center: Option<Position>,
}

impl PresentationCamera {
    /// Follows `actor`, with no cell until the first sync.
    pub fn new(actor: ActorId) -> (r: Self)
        ensures
            r.actor == actor,
            r.center is None,
    {
        PresentationCamera { actor, center: None }
    }

    /// Returns the followed actor.
    pub fn actor(self) -> (r: ActorId)
        ensures
            r == self.actor,
    {
        self.actor
    }

    /// Returns the cell the camera centres on.
    pub fn center(self) -> (r: Option<Position>)
        ensures
            r == self.center,
    {
        self.center
    }

    /// Follows the controlled actor of a snapshot.
    pub fn sync(&mut self, actor: ActorId, actors: &Vec<Actor>)
        ensures
            final(self).actor == actor,
            final(self).center == spec_actor_position(actors@, actor),
    {
        self.actor = actor;
        self.center = actor_position(actors, actor);
    }
}

/// The focus: the controlled actor and its cell, while the snapshot holds it.
#[derive(Clone, Copy, Debug, PartialEq, Eq, Structural, Hash)]
pub struct PresentationFocus {
    pub actor: ActorId,
    pub position: Option<Position>,
}

impl PresentationFocus {
    /// Focuses `actor`, with no cell until the first sync.
    pub fn new(actor: ActorId) -> (r: Self)
        ensures
            r.actor == actor,
            r.position is None,
    {
        PresentationFocus { actor, position: None }
    }

    /// Returns the focused actor.
    pub fn actor(self) -> (r: ActorId)
        ensures
            r == self.actor,
    {
        self.actor
    }

    /// Returns the focused actor's cell.
    pub fn position(self) -> (r: Option<Position>)
        ensures
            r == self.position,
    {
        self.position
    }

    /// Focuses the controlled actor of a snapshot.
    pub fn sync(&mut self, actor: ActorId, actors: &Vec<Actor>)
        ensures
            final(self).actor == actor,
            final(self).position == spec_actor_position(actors@, actor),
    {
        self.actor = actor;
        self.position = actor_position(actors, actor);
    }
}


/// Once a scene plan is applied (each expected key on one entity: the one the plan kept, else a
/// fresh one), the least existing entity of every key still in the snapshot carries it, alone.
/// A second scene reconciliation with the same snapshot against those mirrors changes nothing: every family writes the same mirror values, keeps each mirror on its entity and
/// despawns nothing. Keys are distinct in a valid snapshot (one tile per cell, one actor or
/// item per identity).
pub proof fn lemma_scene_settles(
    existing: ExistingMirrors,
    snapshot: PresentationSnapshot,
    plan: ScenePlan,
    after: ExistingMirrors,
    again: ScenePlan,
)
    requires
        plans_scene(plan, existing, snapshot),
        plans_scene(again, after, snapshot),
        tile_keys(plan.tiles@).no_duplicates(),
        actor_keys(plan.actors@).no_duplicates(),
        ground_keys(plan.ground_items@).no_duplicates(),
        inventory_keys(plan.inventory_items@).no_duplicates(),
        mirrors_exactly(after.tiles@, tile_keys(plan.tiles@)),
        mirrors_exactly(after.actors@, actor_keys(plan.actors@)),
        mirrors_exactly(after.ground_items@, ground_keys(plan.ground_items@)),
        mirrors_exactly(after.inventory_items@, inventory_keys(plan.inventory_items@)),
        applies(plan.tile_plan, after.tiles@),
        applies(plan.actor_plan, after.actors@),
        applies(plan.ground_plan, after.ground_items@),
        applies(plan.inventory_plan, after.inventory_items@),
    ensures
        forall|i: int|
            0 <= i < after.tiles@.len() && #[trigger] least_entity(existing.tiles@, tile_keys(plan.tiles@)[i]) is Some
                ==> after.tiles@[i].1 == least_entity(existing.tiles@, tile_keys(plan.tiles@)[i])->0,
        forall|i: int|
            0 <= i < after.actors@.len() && #[trigger] least_entity(existing.actors@, actor_keys(plan.actors@)[i])
                is Some ==> after.actors@[i].1 == least_entity(existing.actors@, actor_keys(plan.actors@)[i])->0,
        forall|i: int|
            0 <= i < after.ground_items@.len() && #[trigger] least_entity(
                existing.ground_items@,
                ground_keys(plan.ground_items@)[i],
            ) is Some ==> after.ground_items@[i].1 == least_entity(
                existing.ground_items@,
                ground_keys(plan.ground_items@)[i],
            )->0,
        forall|i: int|
            0 <= i < after.inventory_items@.len() && #[trigger] least_entity(
                existing.inventory_items@,
                inventory_keys(plan.inventory_items@)[i],
            ) is Some ==> after.inventory_items@[i].1 == least_entity(
                existing.inventory_items@,
                inventory_keys(plan.inventory_items@)[i],
            )->0,
        again.tiles@ == plan.tiles@,
        again.actors@ == plan.actors@,
        again.ground_items@ == plan.ground_items@,
        again.inventory_items@ == plan.inventory_items@,
        forall|i: int| 0 <= i < after.tiles@.len() ==> #[trigger] again.tile_plan.targets@[i] == Some(after.tiles@[i].1),
        forall|i: int| 0 <= i < after.actors@.len() ==> #[trigger] again.actor_plan.targets@[i] == Some(after.actors@[i].1),
        forall|i: int|
            0 <= i < after.ground_items@.len() ==> #[trigger] again.ground_plan.targets@[i] == Some(
                after.ground_items@[i].1,
            ),
        forall|i: int|
            0 <= i < after.inventory_items@.len() ==> #[trigger] again.inventory_plan.targets@[i] == Some(
                after.inventory_items@[i].1,
            ),
        again.tile_plan.despawn@.len() == 0,
        again.actor_plan.despawn@.len() == 0,
        again.ground_plan.despawn@.len() == 0,
        again.inventory_plan.despawn@.len() == 0,
{
    lemma_reconcile_settles(plan.tile_plan, existing.tiles@, tile_keys(plan.tiles@), after.tiles@, again.tile_plan);
    lemma_reconcile_settles(plan.actor_plan, existing.actors@, actor_keys(plan.actors@), after.actors@, again.actor_plan);
    lemma_reconcile_settles(
        plan.ground_plan,
        existing.ground_items@,
        ground_keys(plan.ground_items@),
        after.ground_items@,
        again.ground_plan,
    );
    lemma_reconcile_settles(
        plan.inventory_plan,
        existing.inventory_items@,
        inventory_keys(plan.inventory_items@),
        after.inventory_items@,
        again.inventory_plan,
    );
}

} // verus!
