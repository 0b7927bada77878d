//! Sprite roles, sprite keys, draw layers, and the ordered render plan.

use vstd::prelude::*;

use crate::assets::{
    placeholder_bound_to, PresentationAssetManifest, PresentationAssetReference,
    SceneRenderPlaceholder,
};
use crate::geometry::{spec_pixel_at, Position, PresentationTileSize, ScenePixelPosition};
use crate::visibility::{coords, lists, PresentationVisibility};
use crate::scene::{SceneActor, SceneGroundItem, SceneInventoryItem, SceneTile};
use crate::world::{Actor, ActorKind, ItemDefinitionId, Tile};

verus! {

/// A typed role for a scene mirror, consumed by a sprite renderer.
#[derive(Clone, Copy, Debug, PartialEq, Eq, Structural, Hash)]
pub enum SceneSpriteRole {
    /// A projected map tile.
    Terrain,
    /// A living player actor.
    Player,
    /// A living enemy actor.
    Enemy,
    /// A retained dead actor record.
    DeadActor,
    /// A ground item.
    GroundItem,
    /// An inventory item.
    InventoryItem,
}

/// The role of an actor: dead actors keep a role of their own, living ones follow their kind.
pub open spec fn actor_role(kind: ActorKind, alive: bool) -> SceneSpriteRole {
    if !alive {
        SceneSpriteRole::DeadActor
    } else {
        match kind {
            ActorKind::Player => SceneSpriteRole::Player,
            ActorKind::Enemy => SceneSpriteRole::Enemy,
        }
    }
}

impl SceneSpriteRole {
    /// Returns the role of an actor of the authoritative world.
    pub fn for_actor(actor: &Actor) -> (r: Self)
        ensures
            r == actor_role(actor.kind, actor.alive),
    {
        if !actor.alive {
            return SceneSpriteRole::DeadActor;
        }
        match actor.kind {
            ActorKind::Player => SceneSpriteRole::Player,
            ActorKind::Enemy => SceneSpriteRole::Enemy,
        }
    }

    /// Returns the role of an actor mirror.
    pub fn for_scene_actor(actor: SceneActor) -> (r: Self)
        ensures
            r == actor_role(actor.kind, actor.alive),
    {
        if !actor.alive {
            return SceneSpriteRole::DeadActor;
        }
        match actor.kind {
            ActorKind::Player => SceneSpriteRole::Player,
            ActorKind::Enemy => SceneSpriteRole::Enemy,
        }
    }
}

/// A typed content selector for one sprite family; item families keep the definition identity.
#[derive(Clone, Copy, Debug, PartialEq, Eq, Structural, Hash)]
pub enum SceneSpriteKey {
    Terrain(Tile),
    Player,
    Enemy,
    DeadActor,
    GroundItem(ItemDefinitionId),
    InventoryItem(ItemDefinitionId),
}

/// One render-boundary entry: a complete copy of a scene mirror, the mirror's entity, its role,
/// and, for map-backed mirrors, its logical-pixel origin when one is known.
#[derive(Clone, Copy, Debug, PartialEq, Eq)]
pub enum SceneRenderEntry {
    Terrain {
        entity: u64,
        tile: SceneTile,
        role: SceneSpriteRole,
        pixel_position: Option<ScenePixelPosition>,
    },
    Actor {
        entity: u64,
        actor: SceneActor,
        role: SceneSpriteRole,
        pixel_position: Option<ScenePixelPosition>,
    },
    GroundItem {
        entity: u64,
        item: SceneGroundItem,
        role: SceneSpriteRole,
        pixel_position: Option<ScenePixelPosition>,
    },
    InventoryItem { entity: u64, item: SceneInventoryItem, role: SceneSpriteRole },
}

/// The sprite key of an entry: terrain by tile, actors by liveness and kind, items by definition.
pub open spec fn spec_sprite_key(entry: SceneRenderEntry) -> SceneSpriteKey {
    match entry {
        SceneRenderEntry::Terrain { tile, .. } => SceneSpriteKey::Terrain(tile.terrain),
        SceneRenderEntry::Actor { actor, .. } => if actor.alive {
            match actor.kind {
                ActorKind::Player => SceneSpriteKey::Player,
                ActorKind::Enemy => SceneSpriteKey::Enemy,
            }
        } else {
            SceneSpriteKey::DeadActor
        },
        SceneRenderEntry::GroundItem { item, .. } => SceneSpriteKey::GroundItem(item.definition),
        SceneRenderEntry::InventoryItem { item, .. } => SceneSpriteKey::InventoryItem(item.definition),
    }
}

/// The mirror entity of an entry.
pub open spec fn spec_entry_entity(entry: SceneRenderEntry) -> u64 {
    match entry {
        SceneRenderEntry::Terrain { entity, .. } => entity,
        SceneRenderEntry::Actor { entity, .. } => entity,
        SceneRenderEntry::GroundItem { entity, .. } => entity,
        SceneRenderEntry::InventoryItem { entity, .. } => entity,
    }
}

/// The logical-pixel origin of an entry; inventory entries are never placed.
pub open spec fn spec_entry_pixel_position(entry: SceneRenderEntry) -> Option<ScenePixelPosition> {
    match entry {
        SceneRenderEntry::Terrain { pixel_position, .. } => pixel_position,
        SceneRenderEntry::Actor { pixel_position, .. } => pixel_position,
        SceneRenderEntry::GroundItem { pixel_position, .. } => pixel_position,
        SceneRenderEntry::InventoryItem { .. } => None,
    }
}

/// The map cell of an entry; inventory entries have none.
pub open spec fn spec_entry_position(entry: SceneRenderEntry) -> Option<Position> {
    match entry {
        SceneRenderEntry::Terrain { tile, .. } => Some(tile.position),
        SceneRenderEntry::Actor { actor, .. } => Some(actor.position),
        SceneRenderEntry::GroundItem { item, .. } => Some(item.position),
        SceneRenderEntry::InventoryItem { .. } => None,
    }
}

impl SceneRenderEntry {
    /// Returns the typed content selector of this entry.
    pub fn sprite_key(self) -> (r: SceneSpriteKey)
        ensures
            r == spec_sprite_key(self),
    {
        match self {
            SceneRenderEntry::Terrain { tile, .. } => SceneSpriteKey::Terrain(tile.terrain),
            SceneRenderEntry::Actor { actor, .. } => if actor.alive {
                match actor.kind {
                    ActorKind::Player => SceneSpriteKey::Player,
                    ActorKind::Enemy => SceneSpriteKey::Enemy,
                }
            } else {
                SceneSpriteKey::DeadActor
            },
            SceneRenderEntry::GroundItem { item, .. } => SceneSpriteKey::GroundItem(item.definition),
            SceneRenderEntry::InventoryItem { item, .. } => SceneSpriteKey::InventoryItem(
                item.definition,
            ),
        }
    }

    /// Returns the mirror entity of this entry.
    pub fn entity(self) -> (r: u64)
        ensures
            r == spec_entry_entity(self),
    {
        match self {
            SceneRenderEntry::Terrain { entity, .. } => entity,
            SceneRenderEntry::Actor { entity, .. } => entity,
            SceneRenderEntry::GroundItem { entity, .. } => entity,
            SceneRenderEntry::InventoryItem { entity, .. } => entity,
        }
    }

    /// Returns the logical-pixel origin of this entry, absent for inventory entries.
    pub fn pixel_position(self) -> (r: Option<ScenePixelPosition>)
        ensures
            r == spec_entry_pixel_position(self),
    {
        match self {
            SceneRenderEntry::Terrain { pixel_position, .. } => pixel_position,
            SceneRenderEntry::Actor { pixel_position, .. } => pixel_position,
            SceneRenderEntry::GroundItem { pixel_position, .. } => pixel_position,
            SceneRenderEntry::InventoryItem { .. } => None,
        }
    }
}

/// Returns the map cell of an entry, absent for inventory entries.
pub fn render_entry_position(entry: SceneRenderEntry) -> (r: Option<Position>)
    ensures
        r == spec_entry_position(entry),
{
    match entry {
        SceneRenderEntry::Terrain { tile, .. } => Some(tile.position),
        SceneRenderEntry::Actor { actor, .. } => Some(actor.position),
        SceneRenderEntry::GroundItem { item, .. } => Some(item.position),
        SceneRenderEntry::InventoryItem { .. } => None,
    }
}

/// The order in which the render projection lists entries: family, then cell for terrain or
/// identity for actors and items.
#[derive(Clone, Copy, Debug, PartialEq, Eq, Structural, Hash)]
pub struct RenderKey {
    pub family: u8,
    pub x: i32,
    pub y: i32,
    pub id: u32,
}

/// The lexicographic order of render keys.
pub open spec fn key_less(a: RenderKey, b: RenderKey) -> bool {
    ||| a.family < b.family
    ||| a.family == b.family && a.x < b.x
    ||| a.family == b.family && a.x == b.x && a.y < b.y
    ||| a.family == b.family && a.x == b.x && a.y == b.y && a.id < b.id
}

/// Returns whether `a` comes before `b`.
pub fn render_key_less(a: RenderKey, b: RenderKey) -> (r: bool)
    ensures
        r == key_less(a, b),
{
    if a.family != b.family {
        a.family < b.family
    } else if a.x != b.x {
        a.x < b.x
    } else if a.y != b.y {
        a.y < b.y
    } else {
        a.id < b.id
    }
}

/// The components one scene entity carries, as the render projection reads them.
#[derive(Clone, Copy, Debug, PartialEq, Eq)]
pub struct SceneMirrorComponents {
    pub entity: u64,
    pub tile: Option<SceneTile>,
    pub actor: Option<SceneActor>,
    pub ground_item: Option<SceneGroundItem>,
    pub inventory_item: Option<SceneInventoryItem>,
    pub pixel_position: Option<ScenePixelPosition>,
}

/// Where a map-backed mirror is drawn: computed from the tile size when one is configured, else
/// the stored origin.
pub open spec fn placement(
    position: Position,
    tile_size: Option<PresentationTileSize>,
    stored: Option<ScenePixelPosition>,
) -> Option<ScenePixelPosition> {
    match tile_size {
        Some(size) => spec_pixel_at(size, position),
        None => stored,
    }
}

/// The keyed render entries of one scene entity, one per mirror it carries, in family order.
pub open spec fn spec_render_entries(m: SceneMirrorComponents, tile_size: Option<PresentationTileSize>) -> Seq<(RenderKey, SceneRenderEntry)> {
    let tile: Seq<(RenderKey, SceneRenderEntry)> = match m.tile {
        Some(t) => seq![
            (
                RenderKey { family: 0, x: t.position.x, y: t.position.y, id: 0 },
                SceneRenderEntry::Terrain {
                    entity: m.entity,
                    tile: t,
                    role: SceneSpriteRole::Terrain,
                    pixel_position: placement(t.position, tile_size, m.pixel_position),
                },
            ),
        ],
        None => seq![],
    };
    let actor: Seq<(RenderKey, SceneRenderEntry)> = match m.actor {
        Some(a) => seq![
            (
                RenderKey { family: 1, x: 0, y: 0, id: a.id.id },
                SceneRenderEntry::Actor {
                    entity: m.entity,
                    actor: a,
                    role: actor_role(a.kind, a.alive),
                    pixel_position: placement(a.position, tile_size, m.pixel_position),
                },
            ),
        ],
        None => seq![],
    };
    let ground: Seq<(RenderKey, SceneRenderEntry)> = match m.ground_item {
        Some(g) => seq![
            (
                RenderKey { family: 2, x: 0, y: 0, id: g.id.id },
                SceneRenderEntry::GroundItem {
                    entity: m.entity,
                    item: g,
                    role: SceneSpriteRole::GroundItem,
                    pixel_position: placement(g.position, tile_size, m.pixel_position),
                },
            ),
        ],
        None => seq![],
    };
    let inventory: Seq<(RenderKey, SceneRenderEntry)> = match m.inventory_item {
        Some(i) => seq![
            (
                RenderKey { family: 3, x: 0, y: 0, id: i.id.id },
                SceneRenderEntry::InventoryItem {
                    entity: m.entity,
                    item: i,
                    role: SceneSpriteRole::InventoryItem,
                },
            ),
        ],
        None => seq![],
    };
    tile + actor + ground + inventory
}

fn place(
    position: Position,
    tile_size: Option<PresentationTileSize>,
    stored: Option<ScenePixelPosition>,
) -> (r: Option<ScenePixelPosition>)
    ensures
        r == placement(position, tile_size, stored),
{
    match tile_size {
        Some(size) => size.pixel_position(position),
        None => stored,
    }
}

/// Returns the keyed render entries of one scene entity.
pub fn render_entries(m: &SceneMirrorComponents, tile_size: Option<PresentationTileSize>) -> (r: Vec<
    (RenderKey, SceneRenderEntry),
>)
    ensures
        r@ == spec_render_entries(*m, tile_size),
{
    let mut out: Vec<(RenderKey, SceneRenderEntry)> = Vec::new();
    if let Some(t) = m.tile {
        out.push(
            (
                RenderKey { family: 0, x: t.position.x, y: t.position.y, id: 0 },
                SceneRenderEntry::Terrain {
                    entity: m.entity,
                    tile: t,
                    role: SceneSpriteRole::Terrain,
                    pixel_position: place(t.position, tile_size, m.pixel_position),
                },
            ),
        );
    }
    if let Some(a) = m.actor {
        out.push(
            (
                RenderKey { family: 1, x: 0, y: 0, id: a.id.id },
                SceneRenderEntry::Actor {
                    entity: m.entity,
                    actor: a,
                    role: SceneSpriteRole::for_scene_actor(a),
                    pixel_position: place(a.position, tile_size, m.pixel_position),
                },
            ),
        );
    }
    if let Some(g) = m.ground_item {
        out.push(
            (
                RenderKey { family: 2, x: 0, y: 0, id: g.id.id },
                SceneRenderEntry::GroundItem {
                    entity: m.entity,
                    item: g,
                    role: SceneSpriteRole::GroundItem,
                    pixel_position: place(g.position, tile_size, m.pixel_position),
                },
            ),
        );
    }
    if let Some(i) = m.inventory_item {
        out.push(
            (
                RenderKey { family: 3, x: 0, y: 0, id: i.id.id },
                SceneRenderEntry::InventoryItem {
                    entity: m.entity,
                    item: i,
                    role: SceneSpriteRole::InventoryItem,
                },
            ),
        );
    }
    assert(out@ =~= spec_render_entries(*m, tile_size));
    out
}

/// Every keyed entry of the given scene entities, entity by entity.
pub open spec fn all_candidates(
    mirrors: Seq<SceneMirrorComponents>,
    tile_size: Option<PresentationTileSize>,
) -> Seq<(RenderKey, SceneRenderEntry)>
    decreases mirrors.len(),
{
    if mirrors.len() == 0 {
        Seq::empty()
    } else {
        all_candidates(mirrors.drop_last(), tile_size) + spec_render_entries(mirrors.last(), tile_size)
    }
}

/// The number of leading entries of `out` whose key comes before `key`.
pub open spec fn insertion_point(out: Seq<(RenderKey, SceneRenderEntry)>, key: RenderKey) -> int
    decreases out.len(),
{
    if out.len() == 0 {
        0
    } else if key_less(out[0].0, key) {
        1 + insertion_point(out.drop_first(), key)
    } else {
        0
    }
}

/// Adds one keyed entry to a key-ordered projection: a new key is inserted in order; an entry
/// for a key already present replaces it only when its entity is smaller.
pub open spec fn insert_keyed(
    out: Seq<(RenderKey, SceneRenderEntry)>,
    c: (RenderKey, SceneRenderEntry),
) -> Seq<(RenderKey, SceneRenderEntry)> {
    let p = insertion_point(out, c.0);
    if p < out.len() && out[p].0 == c.0 {
        if spec_entry_entity(c.1) < spec_entry_entity(out[p].1) {
            out.update(p, c)
        } else {
            out
        }
    } else {
        out.insert(p, c)
    }
}

/// The key-ordered projection of a sequence of keyed entries.
pub open spec fn keyed_projection(cands: Seq<(RenderKey, SceneRenderEntry)>) -> Seq<(RenderKey, SceneRenderEntry)>
    decreases cands.len(),
{
    if cands.len() == 0 {
        Seq::empty()
    } else {
        insert_keyed(keyed_projection(cands.drop_last()), cands.last())
    }
}

/// The entry that represents `key`: among the candidates with that key, the first one of least
/// entity.
pub open spec fn best_for(cands: Seq<(RenderKey, SceneRenderEntry)>, key: RenderKey) -> Option<SceneRenderEntry>
    decreases cands.len(),
{
    if cands.len() == 0 {
        None
    } else {
        let rest = best_for(cands.drop_last(), key);
        let c = cands.last();
        if c.0 == key {
            match rest {
                None => Some(c.1),
                Some(b) => if spec_entry_entity(c.1) < spec_entry_entity(b) {
                    Some(c.1)
                } else {
                    Some(b)
                },
            }
        } else {
            rest
        }
    }
}

/// `out` lists, in strictly increasing key order, exactly the keys of `cands`, each with the
/// entry that represents it.
pub open spec fn is_projection_of(
    out: Seq<(RenderKey, SceneRenderEntry)>,
    cands: Seq<(RenderKey, SceneRenderEntry)>,
) -> bool {
    &&& forall|i: int, j: int| 0 <= i < j < out.len() ==> key_less(#[trigger] out[i].0, #[trigger] out[j].0)
    &&& forall|i: int| 0 <= i < out.len() ==> best_for(cands, #[trigger] out[i].0) == Some(out[i].1)
    &&& forall|m: int| 0 <= m < cands.len() ==> exists|i: int| 0 <= i < out.len() && #[trigger] out[i].0 == #[trigger] cands[m].0
}

proof fn lemma_insertion_point(out: Seq<(RenderKey, SceneRenderEntry)>, key: RenderKey)
    ensures
        0 <= insertion_point(out, key) <= out.len(),
        forall|j: int| 0 <= j < insertion_point(out, key) ==> key_less(#[trigger] out[j].0, key),
        insertion_point(out, key) < out.len() ==> !key_less(out[insertion_point(out, key)].0, key),
    decreases out.len(),
{
    if out.len() > 0 && key_less(out[0].0, key) {
        let rest = out.drop_first();
        lemma_insertion_point(rest, key);
        assert forall|j: int| 0 <= j < insertion_point(out, key) implies key_less(#[trigger] out[j].0, key) by {
            if j > 0 {
                assert(out[j] == rest[j - 1]);
            }
        }
        if insertion_point(out, key) < out.len() {
            assert(out[insertion_point(out, key)] == rest[insertion_point(rest, key)]);
        }
    }
}

proof fn lemma_best_for_has_candidate(cands: Seq<(RenderKey, SceneRenderEntry)>, key: RenderKey)
    ensures
        best_for(cands, key) is Some ==> exists|m: int| 0 <= m < cands.len() && #[trigger] cands[m].0 == key,
    decreases cands.len(),
{
    if cands.len() > 0 {
        let rest = cands.drop_last();
        lemma_best_for_has_candidate(rest, key);
        if best_for(rest, key) is Some {
            let m = choose|m: int| 0 <= m < rest.len() && #[trigger] rest[m].0 == key;
            assert(cands[m] == rest[m]);
        } else if best_for(cands, key) is Some {
            assert(cands[cands.len() - 1] == cands.last());
        }
    }
}

/// Inserting one more candidate keeps a projection a projection of the longer sequence.
proof fn lemma_insert_keyed(
    out: Seq<(RenderKey, SceneRenderEntry)>,
    cands: Seq<(RenderKey, SceneRenderEntry)>,
    c: (RenderKey, SceneRenderEntry),
)
    requires
        is_projection_of(out, cands),
    ensures
        is_projection_of(insert_keyed(out, c), cands.push(c)),
{
    let p = insertion_point(out, c.0);
    let next = cands.push(c);
    lemma_insertion_point(out, c.0);
    assert(next.drop_last() =~= cands);
    assert(next.last() == c);
    let res = insert_keyed(out, c);
    if p < out.len() && out[p].0 == c.0 {
        // The key is present at `p`; the entry there is replaced when `c` has a smaller entity.
        assert forall|i: int| 0 <= i < res.len() implies best_for(next, #[trigger] res[i].0) == Some(
            res[i].1,
        ) by {
            if i != p {
                assert(res[i] == out[i]);
                if i < p {
                    assert(key_less(out[i].0, out[p].0));
                } else {
                    assert(key_less(out[p].0, out[i].0));
                }
            }
        }
        assert forall|m: int| 0 <= m < next.len() implies exists|i: int|
            0 <= i < res.len() && #[trigger] res[i].0 == #[trigger] next[m].0 by {
            if m < cands.len() {
                assert(next[m] == cands[m]);
                let i = choose|i: int| 0 <= i < out.len() && #[trigger] out[i].0 == cands[m].0;
                assert(res[i].0 == out[i].0);
            } else {
                assert(res[p].0 == next[m].0);
            }
        }
    } else {
        // A new key goes in at `p`, between the keys before it and those after it.
        assert forall|j: int| p <= j < out.len() implies key_less(c.0, #[trigger] out[j].0) by {
            if j > p {
                assert(key_less(out[p].0, out[j].0));
            }
        }
        assert(best_for(cands, c.0) is None) by {
            lemma_best_for_has_candidate(cands, c.0);
            if best_for(cands, c.0) is Some {
                let m = choose|m: int| 0 <= m < cands.len() && #[trigger] cands[m].0 == c.0;
                let i = choose|i: int| 0 <= i < out.len() && #[trigger] out[i].0 == cands[m].0;
                if i < p {
                    assert(key_less(out[i].0, c.0));
                } else {
                    assert(key_less(c.0, out[i].0));
                }
            }
        }
        assert forall|i: int, j: int| 0 <= i < j < res.len() implies key_less(
            #[trigger] res[i].0,
            #[trigger] res[j].0,
        ) by {
            if i < p && j < p {
                assert(res[i] == out[i] && res[j] == out[j]);
            } else if i < p && j == p {
                assert(res[i] == out[i]);
            } else if i < p && j > p {
                assert(res[i] == out[i] && res[j] == out[j - 1]);
                assert(key_less(out[i].0, c.0));
            } else if i == p {
                assert(res[j] == out[j - 1]);
            } else {
                assert(res[i] == out[i - 1] && res[j] == out[j - 1]);
            }
        }
        assert forall|i: int| 0 <= i < res.len() implies best_for(next, #[trigger] res[i].0) == Some(
            res[i].1,
        ) by {
            if i < p {
                assert(res[i] == out[i]);
                assert(key_less(out[i].0, c.0));
            } else if i > p {
                assert(res[i] == out[i - 1]);
                assert(key_less(c.0, out[i - 1].0));
            }
        }
        assert forall|m: int| 0 <= m < next.len() implies exists|i: int|
            0 <= i < res.len() && #[trigger] res[i].0 == #[trigger] next[m].0 by {
            if m < cands.len() {
                assert(next[m] == cands[m]);
                let i = choose|i: int| 0 <= i < out.len() && #[trigger] out[i].0 == cands[m].0;
                if i < p {
                    assert(res[i] == out[i]);
                } else {
                    assert(res[i + 1] == out[i]);
                }
            } else {
                assert(res[p] == c);
            }
        }
    }
}

/// The key-ordered projection of any candidate sequence lists each candidate key once, in
/// strictly increasing order, with the first entry of least entity for that key.
pub proof fn lemma_keyed_projection(cands: Seq<(RenderKey, SceneRenderEntry)>)
    ensures
        is_projection_of(keyed_projection(cands), cands),
    decreases cands.len(),
{
    if cands.len() > 0 {
        let rest = cands.drop_last();
        lemma_keyed_projection(rest);
        lemma_insert_keyed(keyed_projection(rest), rest, cands.last());
        assert(rest.push(cands.last()) =~= cands);
    }
}

fn insertion_index(out: &Vec<(RenderKey, SceneRenderEntry)>, key: RenderKey) -> (r: usize)
    ensures
        r == insertion_point(out@, key),
{
    let mut i: usize = 0;
    assert(out@.subrange(0, out@.len() as int) =~= out@);
    while i < out.len() && render_key_less(out[i].0, key)
        invariant
            i <= out@.len(),
            insertion_point(out@, key) == i + insertion_point(out@.subrange(i as int, out@.len() as int), key),
        decreases out@.len() - i,
    {
        let ghost rest = out@.subrange(i as int, out@.len() as int);
        assert(rest.drop_first() =~= out@.subrange(i + 1, out@.len() as int));
        assert(rest[0] == out@[i as int]);
        i += 1;
    }
    proof {
        let rest = out@.subrange(i as int, out@.len() as int);
        if i < out@.len() {
            assert(rest[0] == out@[i as int]);
        }
    }
    i
}

fn insert_entry(out: &mut Vec<(RenderKey, SceneRenderEntry)>, c: (RenderKey, SceneRenderEntry))
    ensures
        final(out)@ == insert_keyed(old(out)@, c),
{
    let p = insertion_index(out, c.0);
    proof {
        lemma_insertion_point(out@, c.0);
    }
    if p < out.len() && out[p].0 == c.0 {
        if c.1.entity() < out[p].1.entity() {
            out.set(p, c);
        }
    } else {
        out.insert(p, c);
    }
}

/// The key-ordered render projection of a scene, as keyed entries.
pub open spec fn spec_keyed_render_projection(
    mirrors: Seq<SceneMirrorComponents>,
    tile_size: Option<PresentationTileSize>,
) -> Seq<(RenderKey, SceneRenderEntry)> {
    keyed_projection(all_candidates(mirrors, tile_size))
}

/// Projects the scene entities into render entries ordered by key, one per key, choosing the
/// least entity where several mirror the same key.
pub fn keyed_render_projection(
    mirrors: &[SceneMirrorComponents],
    tile_size: Option<PresentationTileSize>,
) -> (r: Vec<(RenderKey, SceneRenderEntry)>)
    ensures
        r@ == spec_keyed_render_projection(mirrors@, tile_size),
{
    let mut out: Vec<(RenderKey, SceneRenderEntry)> = Vec::new();
    let mut m: usize = 0;
    while m < mirrors.len()
        invariant
            m <= mirrors@.len(),
            out@ == keyed_projection(all_candidates(mirrors@.subrange(0, m as int), tile_size)),
        decreases mirrors@.len() - m,
    {
        let entries = render_entries(&mirrors[m], tile_size);
        let ghost before = all_candidates(mirrors@.subrange(0, m as int), tile_size);
        let mut k: usize = 0;
        while k < entries.len()
            invariant
                k <= entries@.len(),
                out@ == keyed_projection(before + entries@.subrange(0, k as int)),
            decreases entries@.len() - k,
        {
            proof {
                let prefix = before + entries@.subrange(0, k + 1);
                assert(prefix.drop_last() =~= before + entries@.subrange(0, k as int));
                assert(prefix.last() == entries@[k as int]);
            }
            insert_entry(&mut out, entries[k]);
            k += 1;
        }
        proof {
            let next = mirrors@.subrange(0, m + 1);
            assert(next.drop_last() =~= mirrors@.subrange(0, m as int));
            assert(next.last() == mirrors@[m as int]);
            assert(entries@.subrange(0, entries@.len() as int) =~= entries@);
        }
        m += 1;
    }
    assert(mirrors@.subrange(0, mirrors@.len() as int) =~= mirrors@);
    out
}

/// The entries of a keyed projection, without their keys.
pub open spec fn entries_of(keyed: Seq<(RenderKey, SceneRenderEntry)>) -> Seq<SceneRenderEntry> {
    Seq::new(keyed.len(), |i: int| keyed[i].1)
}

/// The ordered render-boundary projection of a scene.
#[derive(Clone, Debug, PartialEq, Eq)]
pub struct PresentationRenderProjection {
    pub entries: Vec<SceneRenderEntry>,
}

impl PresentationRenderProjection {
    /// Creates an empty projection.
    pub fn new() -> (r: Self)
        ensures
            r.entries@.len() == 0,
    {
        PresentationRenderProjection { entries: Vec::new() }
    }

    /// Projects the scene entities into entries in terrain/actor/ground/inventory key order.
    pub fn from_mirrors(mirrors: &[SceneMirrorComponents], tile_size: Option<PresentationTileSize>) -> (r: Self)
        ensures
            r.entries@ == entries_of(spec_keyed_render_projection(mirrors@, tile_size)),
    {
        let keyed = keyed_render_projection(mirrors, tile_size);
        let mut entries: Vec<SceneRenderEntry> = Vec::new();
        let mut i: usize = 0;
        while i < keyed.len()
            invariant
                i <= keyed@.len(),
                entries@ =~= entries_of(keyed@).subrange(0, i as int),
            decreases keyed@.len() - i,
        {
            entries.push(keyed[i].1);
            i += 1;
        }
        assert(entries@ =~= entries_of(keyed@));
        PresentationRenderProjection { entries }
    }

    /// Returns the entries in key order.
    pub fn entries(&self) -> (r: &[SceneRenderEntry])
        ensures
            r@ == self.entries@,
    {
        self.entries.as_slice()
    }
}

/// One ordered sprite selector with the complete render entry it was derived from.
#[derive(Clone, Copy, Debug, PartialEq, Eq)]
pub struct SceneSpriteEntry {
    pub render_entry: SceneRenderEntry,
    pub key: SceneSpriteKey,
}

impl SceneSpriteEntry {
    /// Derives the selector of one render entry.
    pub fn from_render_entry(render_entry: SceneRenderEntry) -> (r: Self)
        ensures
            r.render_entry == render_entry,
            r.key == spec_sprite_key(render_entry),
    {
        SceneSpriteEntry { key: render_entry.sprite_key(), render_entry }
    }

    /// Returns the complete render entry.
    pub fn render_entry(self) -> (r: SceneRenderEntry)
        ensures
            r == self.render_entry,
    {
        self.render_entry
    }

    /// Returns the typed content selector.
    pub fn key(self) -> (r: SceneSpriteKey)
        ensures
            r == self.key,
    {
        self.key
    }

    /// Returns the mirror entity of the render entry.
    pub fn entity(self) -> (r: u64)
        ensures
            r == spec_entry_entity(self.render_entry),
    {
        self.render_entry.entity()
    }
}

/// Returns the sprite selectors of a render projection, in the same order.
pub fn sprite_projection(entries: &[SceneRenderEntry]) -> (r: Vec<SceneSpriteEntry>)
    ensures
        r@.len() == entries@.len(),
        forall|i: int|
            0 <= i < entries@.len() ==> #[trigger] r@[i] == (SceneSpriteEntry {
                render_entry: entries@[i],
                key: spec_sprite_key(entries@[i]),
            }),
{
    let mut out: Vec<SceneSpriteEntry> = Vec::new();
    let mut i: usize = 0;
    while i < entries.len()
        invariant
            i <= entries@.len(),
            out@.len() == i,
            forall|k: int|
                0 <= k < i ==> #[trigger] out@[k] == (SceneSpriteEntry {
                    render_entry: entries@[k],
                    key: spec_sprite_key(entries@[k]),
                }),
        decreases entries@.len() - i,
    {
        out.push(SceneSpriteEntry::from_render_entry(entries[i]));
        i += 1;
    }
    out
}

/// The sprite selectors of a render projection, in the same order.
pub struct PresentationSpriteProjection {
    pub entries: Vec<SceneSpriteEntry>,
}

impl PresentationSpriteProjection {
    /// Creates an empty projection.
    pub fn new() -> (r: Self)
        ensures
            r.entries@.len() == 0,
    {
        PresentationSpriteProjection { entries: Vec::new() }
    }

    /// Derives one selector per render entry, in render order.
    pub fn from_render(render: &PresentationRenderProjection) -> (r: Self)
        ensures
            r.entries@.len() == render.entries@.len(),
            forall|i: int|
                0 <= i < render.entries@.len() ==> #[trigger] r.entries@[i] == (SceneSpriteEntry {
                    render_entry: render.entries@[i],
                    key: spec_sprite_key(render.entries@[i]),
                }),
    {
        PresentationSpriteProjection { entries: sprite_projection(render.entries.as_slice()) }
    }

    /// Returns the selectors in render order.
    pub fn entries(&self) -> (r: &[SceneSpriteEntry])
        ensures
            r@ == self.entries@,
    {
        self.entries.as_slice()
    }
}

/// The draw layer of a command: terrain below ground items below actors; inventory entries last.
#[derive(Clone, Copy, Debug, PartialEq, Eq, Structural, Hash)]
pub enum SceneRenderLayer {
    Terrain,
    GroundItem,
    Actor,
    InventoryItem,
}

/// The drawing rank of a layer.
pub open spec fn layer_rank(layer: SceneRenderLayer) -> int {
    match layer {
        SceneRenderLayer::Terrain => 0,
        SceneRenderLayer::GroundItem => 1,
        SceneRenderLayer::Actor => 2,
        SceneRenderLayer::InventoryItem => 3,
    }
}

/// The layer of a sprite key.
pub open spec fn spec_layer_of(key: SceneSpriteKey) -> SceneRenderLayer {
    match key {
        SceneSpriteKey::Terrain(_) => SceneRenderLayer::Terrain,
        SceneSpriteKey::GroundItem(_) => SceneRenderLayer::GroundItem,
        SceneSpriteKey::Player | SceneSpriteKey::Enemy | SceneSpriteKey::DeadActor => SceneRenderLayer::Actor,
        SceneSpriteKey::InventoryItem(_) => SceneRenderLayer::InventoryItem,
    }
}

impl SceneRenderLayer {
    /// Returns the layer of a sprite key.
    pub fn from_key(key: SceneSpriteKey) -> (r: Self)
        ensures
            r == spec_layer_of(key),
    {
        match key {
            SceneSpriteKey::Terrain(_) => SceneRenderLayer::Terrain,
            SceneSpriteKey::GroundItem(_) => SceneRenderLayer::GroundItem,
            SceneSpriteKey::Player | SceneSpriteKey::Enemy | SceneSpriteKey::DeadActor => {
                SceneRenderLayer::Actor
            },
            SceneSpriteKey::InventoryItem(_) => SceneRenderLayer::InventoryItem,
        }
    }
}

/// The placeholder family of a sprite key.
pub open spec fn spec_placeholder_of(key: SceneSpriteKey) -> SceneRenderPlaceholder {
    match key {
        SceneSpriteKey::Terrain(_) => SceneRenderPlaceholder::Terrain,
        SceneSpriteKey::Player => SceneRenderPlaceholder::Player,
        SceneSpriteKey::Enemy => SceneRenderPlaceholder::Enemy,
        SceneSpriteKey::DeadActor => SceneRenderPlaceholder::DeadActor,
        SceneSpriteKey::GroundItem(_) => SceneRenderPlaceholder::GroundItem,
        SceneSpriteKey::InventoryItem(_) => SceneRenderPlaceholder::InventoryItem,
    }
}

impl SceneRenderPlaceholder {
    /// Returns the placeholder family of a sprite key.
    pub fn from_key(key: SceneSpriteKey) -> (r: Self)
        ensures
            r == spec_placeholder_of(key),
    {
        match key {
            SceneSpriteKey::Terrain(_) => SceneRenderPlaceholder::Terrain,
            SceneSpriteKey::Player => SceneRenderPlaceholder::Player,
            SceneSpriteKey::Enemy => SceneRenderPlaceholder::Enemy,
            SceneSpriteKey::DeadActor => SceneRenderPlaceholder::DeadActor,
            SceneSpriteKey::GroundItem(_) => SceneRenderPlaceholder::GroundItem,
            SceneSpriteKey::InventoryItem(_) => SceneRenderPlaceholder::InventoryItem,
        }
    }
}

/// The journal name of a placeholder family.
pub open spec fn spec_placeholder_name(placeholder: SceneRenderPlaceholder) -> Seq<char> {
    match placeholder {
        SceneRenderPlaceholder::Terrain => "terrain"@,
        SceneRenderPlaceholder::Player => "player"@,
        SceneRenderPlaceholder::Enemy => "enemy"@,
        SceneRenderPlaceholder::DeadActor => "dead"@,
        SceneRenderPlaceholder::GroundItem => "ground_item"@,
        SceneRenderPlaceholder::InventoryItem => "inventory_item"@,
    }
}

/// Returns the journal name of a placeholder family.
pub fn placeholder_name(placeholder: SceneRenderPlaceholder) -> (r: &'static str)
    ensures
        r@ == spec_placeholder_name(placeholder),
{
    match placeholder {
        SceneRenderPlaceholder::Terrain => "terrain",
        SceneRenderPlaceholder::Player => "player",
        SceneRenderPlaceholder::Enemy => "enemy",
        SceneRenderPlaceholder::DeadActor => "dead",
        SceneRenderPlaceholder::GroundItem => "ground_item",
        SceneRenderPlaceholder::InventoryItem => "inventory_item",
    }
}

/// One draw command: a sprite selector, its layer, and its place in the sprite projection.
#[derive(Clone, Copy, Debug, PartialEq, Eq)]
pub struct SceneRenderCommand {
    pub sprite: SceneSpriteEntry,
    pub layer: SceneRenderLayer,
    pub order: usize,
}

/// The command for selector `sprite` at place `order` of the sprite projection.
pub open spec fn command_for(sprite: SceneSpriteEntry, order: int) -> SceneRenderCommand {
    SceneRenderCommand { sprite, layer: spec_layer_of(sprite.key), order: order as usize }
}

impl SceneRenderCommand {
    /// Creates the command of one selector at its place in the sprite projection.
    pub fn from_sprite_entry(sprite: SceneSpriteEntry, order: usize) -> (r: Self)
        ensures
            r == command_for(sprite, order as int),
    {
        SceneRenderCommand { layer: SceneRenderLayer::from_key(sprite.key), sprite, order }
    }

    /// Returns the sprite selector.
    pub fn sprite_entry(self) -> (r: SceneSpriteEntry)
        ensures
            r == self.sprite,
    {
        self.sprite
    }

    /// Returns the draw layer.
    pub fn layer(self) -> (r: SceneRenderLayer)
        ensures
            r == self.layer,
    {
        self.layer
    }

    /// Returns the place in the sprite projection.
    pub fn order(self) -> (r: usize)
        ensures
            r == self.order,
    {
        self.order
    }

    /// Returns the logical-pixel origin, absent for inventory entries.
    pub fn pixel_position(self) -> (r: Option<ScenePixelPosition>)
        ensures
            r == spec_entry_pixel_position(self.sprite.render_entry),
    {
        self.sprite.render_entry.pixel_position()
    }
}

/// The commands of a sprite projection, in projection order.
pub open spec fn commands_of(sprites: Seq<SceneSpriteEntry>) -> Seq<SceneRenderCommand> {
    Seq::new(sprites.len(), |i: int| command_for(sprites[i], i))
}

/// The commands of `cmds` on `layer`, in their order.
pub open spec fn layer_commands(cmds: Seq<SceneRenderCommand>, layer: SceneRenderLayer) -> Seq<SceneRenderCommand>
    decreases cmds.len(),
{
    if cmds.len() == 0 {
        Seq::empty()
    } else {
        let rest = layer_commands(cmds.drop_last(), layer);
        if cmds.last().layer == layer {
            rest.push(cmds.last())
        } else {
            rest
        }
    }
}

/// The render plan: terrain commands, then ground items, then actors, then inventory entries,
/// each layer in projection order.
pub open spec fn spec_render_plan(sprites: Seq<SceneSpriteEntry>) -> Seq<SceneRenderCommand> {
    let cmds = commands_of(sprites);
    layer_commands(cmds, SceneRenderLayer::Terrain) + layer_commands(cmds, SceneRenderLayer::GroundItem)
        + layer_commands(cmds, SceneRenderLayer::Actor) + layer_commands(
        cmds,
        SceneRenderLayer::InventoryItem,
    )
}

/// Whether `a` is drawn before `b`: by layer rank, then by projection order.
pub open spec fn drawn_before(a: SceneRenderCommand, b: SceneRenderCommand) -> bool {
    layer_rank(a.layer) < layer_rank(b.layer) || (a.layer == b.layer && a.order < b.order)
}

proof fn lemma_layer_commands(cmds: Seq<SceneRenderCommand>, layer: SceneRenderLayer)
    requires
        forall|i: int| 0 <= i < cmds.len() ==> #[trigger] cmds[i].order == i,
    ensures
        forall|i: int|
            0 <= i < layer_commands(cmds, layer).len() ==> {
                let c = #[trigger] layer_commands(cmds, layer)[i];
                &&& c.layer == layer
                &&& c.order < cmds.len()
                &&& cmds[c.order as int] == c
            },
        forall|i: int, j: int|
            0 <= i < j < layer_commands(cmds, layer).len() ==> #[trigger] layer_commands(cmds, layer)[i].order
                < #[trigger] layer_commands(cmds, layer)[j].order,
        forall|k: int|
            0 <= k < cmds.len() && cmds[k].layer == layer ==> exists|i: int|
                0 <= i < layer_commands(cmds, layer).len() && #[trigger] layer_commands(cmds, layer)[i]
                    == #[trigger] cmds[k],
    decreases cmds.len(),
{
    if cmds.len() > 0 {
        let rest = cmds.drop_last();
        assert forall|i: int| 0 <= i < rest.len() implies #[trigger] rest[i].order == i by {
            assert(rest[i] == cmds[i]);
        }
        lemma_layer_commands(rest, layer);
        let r = layer_commands(rest, layer);
        let res = layer_commands(cmds, layer);
        assert(cmds.last() == cmds[cmds.len() - 1]);
        assert forall|i: int| 0 <= i < r.len() implies cmds[r[i].order as int] == r[i] by {
            assert(rest[r[i].order as int] == cmds[r[i].order as int]);
        }
        assert forall|k: int|
            0 <= k < cmds.len() && cmds[k].layer == layer implies exists|i: int|
                0 <= i < res.len() && #[trigger] res[i] == #[trigger] cmds[k] by {
            if k < cmds.len() - 1 {
                assert(rest[k] == cmds[k]);
                let i = choose|i: int| 0 <= i < r.len() && #[trigger] r[i] == #[trigger] rest[k];
                assert(res[i] == r[i]);
            } else {
                assert(res[res.len() - 1] == cmds[k]);
            }
        }
    }
}

proof fn lemma_layer_lengths(cmds: Seq<SceneRenderCommand>)
    ensures
        layer_commands(cmds, SceneRenderLayer::Terrain).len() + layer_commands(
            cmds,
            SceneRenderLayer::GroundItem,
        ).len() + layer_commands(cmds, SceneRenderLayer::Actor).len() + layer_commands(
            cmds,
            SceneRenderLayer::InventoryItem,
        ).len() == cmds.len(),
    decreases cmds.len(),
{
    if cmds.len() > 0 {
        lemma_layer_lengths(cmds.drop_last());
    }
}

proof fn lemma_render_plan_entries(sprites: Seq<SceneSpriteEntry>)
    requires
        sprites.len() <= usize::MAX,
    ensures
        forall|i: int|
            0 <= i < spec_render_plan(sprites).len() ==> {
                let c = #[trigger] spec_render_plan(sprites)[i];
                &&& c.order < sprites.len()
                &&& c.sprite == sprites[c.order as int]
                &&& c.layer == spec_layer_of(sprites[c.order as int].key)
            },
{
    let cmds = commands_of(sprites);
    assert forall|i: int| 0 <= i < cmds.len() implies #[trigger] cmds[i].order == i by {}
    let t = layer_commands(cmds, SceneRenderLayer::Terrain);
    let g = layer_commands(cmds, SceneRenderLayer::GroundItem);
    let a = layer_commands(cmds, SceneRenderLayer::Actor);
    let v = layer_commands(cmds, SceneRenderLayer::InventoryItem);
    lemma_layer_commands(cmds, SceneRenderLayer::Terrain);
    lemma_layer_commands(cmds, SceneRenderLayer::GroundItem);
    lemma_layer_commands(cmds, SceneRenderLayer::Actor);
    lemma_layer_commands(cmds, SceneRenderLayer::InventoryItem);
    let plan = spec_render_plan(sprites);
    assert(plan =~= t + g + a + v);
    assert forall|i: int| 0 <= i < plan.len() implies {
        let c = #[trigger] plan[i];
        &&& c.order < sprites.len()
        &&& c.sprite == sprites[c.order as int]
        &&& c.layer == spec_layer_of(sprites[c.order as int].key)
    } by {
        let tg = t.len() + g.len();
        let tga = tg + a.len();
        if i < t.len() {
            assert(plan[i] == t[i]);
        } else if i < tg {
            assert(plan[i] == g[i - t.len()]);
        } else if i < tga {
            assert(plan[i] == a[i - tg]);
        } else {
            assert(plan[i] == v[i - tga]);
        }
        assert(cmds[plan[i].order as int] == plan[i]);
    }
}

/// The render plan draws every command exactly once, in layer order, keeping projection order
/// within each layer; each command draws the projection entry at its order, on that entry's
/// layer.
#[verifier::rlimit(40)]
pub proof fn lemma_render_plan_order(sprites: Seq<SceneSpriteEntry>)
    requires
        sprites.len() <= usize::MAX,
    ensures
        spec_render_plan(sprites).len() == sprites.len(),
        forall|i: int|
            0 <= i < spec_render_plan(sprites).len() ==> {
                let c = #[trigger] spec_render_plan(sprites)[i];
                &&& c.order < sprites.len()
                &&& c.sprite == sprites[c.order as int]
                &&& c.layer == spec_layer_of(sprites[c.order as int].key)
            },
        forall|i: int, j: int|
            0 <= i < j < spec_render_plan(sprites).len() ==> drawn_before(
                #[trigger] spec_render_plan(sprites)[i],
                #[trigger] spec_render_plan(sprites)[j],
            ),
        forall|k: int|
            0 <= k < sprites.len() ==> exists|i: int|
                0 <= i < spec_render_plan(sprites).len() && #[trigger] spec_render_plan(sprites)[i]
                    == command_for(#[trigger] sprites[k], k),
{
    let cmds = commands_of(sprites);
    assert forall|i: int| 0 <= i < cmds.len() implies #[trigger] cmds[i].order == i by {}
    let t = layer_commands(cmds, SceneRenderLayer::Terrain);
    let g = layer_commands(cmds, SceneRenderLayer::GroundItem);
    let a = layer_commands(cmds, SceneRenderLayer::Actor);
    let v = layer_commands(cmds, SceneRenderLayer::InventoryItem);
    lemma_layer_commands(cmds, SceneRenderLayer::Terrain);
    lemma_layer_commands(cmds, SceneRenderLayer::GroundItem);
    lemma_layer_commands(cmds, SceneRenderLayer::Actor);
    lemma_layer_commands(cmds, SceneRenderLayer::InventoryItem);
    lemma_layer_lengths(cmds);
    let plan = spec_render_plan(sprites);
    assert(plan =~= t + g + a + v);
    assert forall|i: int, j: int| 0 <= i < j < plan.len() implies drawn_before(
        #[trigger] plan[i],
        #[trigger] plan[j],
    ) by {
        let tg = t.len() + g.len();
        let tga = tg + a.len();
        if j < t.len() {
            assert(plan[i] == t[i] && plan[j] == t[j]);
        } else if j < tg {
            assert(plan[j] == g[j - t.len()]);
            if i >= t.len() {
                assert(plan[i] == g[i - t.len()]);
            } else {
                assert(plan[i] == t[i]);
            }
        } else if j < tga {
            assert(plan[j] == a[j - tg]);
            if i >= tg {
                assert(plan[i] == a[i - tg]);
            } else if i >= t.len() {
                assert(plan[i] == g[i - t.len()]);
            } else {
                assert(plan[i] == t[i]);
            }
        } else {
            assert(plan[j] == v[j - tga]);
            if i >= tga {
                assert(plan[i] == v[i - tga]);
            } else if i >= tg {
                assert(plan[i] == a[i - tg]);
            } else if i >= t.len() {
                assert(plan[i] == g[i - t.len()]);
            } else {
                assert(plan[i] == t[i]);
            }
        }
    }
    assert forall|k: int| 0 <= k < sprites.len() implies exists|i: int|
        0 <= i < plan.len() && #[trigger] plan[i] == command_for(#[trigger] sprites[k], k) by {
        assert(cmds[k] == command_for(sprites[k], k));
        let tg = t.len() + g.len();
        let tga = tg + a.len();
        match cmds[k].layer {
            SceneRenderLayer::Terrain => {
                let i = choose|i: int| 0 <= i < t.len() && #[trigger] t[i] == #[trigger] cmds[k];
                assert(plan[i] == t[i]);
            },
            SceneRenderLayer::GroundItem => {
                let i = choose|i: int| 0 <= i < g.len() && #[trigger] g[i] == #[trigger] cmds[k];
                assert(plan[t.len() + i] == g[i]);
            },
            SceneRenderLayer::Actor => {
                let i = choose|i: int| 0 <= i < a.len() && #[trigger] a[i] == #[trigger] cmds[k];
                assert(plan[tg + i] == a[i]);
            },
            SceneRenderLayer::InventoryItem => {
                let i = choose|i: int| 0 <= i < v.len() && #[trigger] v[i] == #[trigger] cmds[k];
                assert(plan[tga + i] == v[i]);
            },
        }
    }
    assert(forall|i: int|
        0 <= i < spec_render_plan(sprites).len() ==> {
            let c = #[trigger] spec_render_plan(sprites)[i];
            &&& c.order < sprites.len()
            &&& c.sprite == sprites[c.order as int]
            &&& c.layer == spec_layer_of(sprites[c.order as int].key)
        }) by {
        lemma_render_plan_entries(sprites);
    }
}

fn push_layer(
    out: &mut Vec<SceneRenderCommand>,
    cmds: &Vec<SceneRenderCommand>,
    layer: SceneRenderLayer,
)
    ensures
        final(out)@ == old(out)@ + layer_commands(cmds@, layer),
{
    let ghost start = out@;
    let mut i: usize = 0;
    while i < cmds.len()
        invariant
            i <= cmds@.len(),
            out@ == start + layer_commands(cmds@.subrange(0, i as int), layer),
        decreases cmds@.len() - i,
    {
        proof {
            let next = cmds@.subrange(0, i + 1);
            assert(next.drop_last() =~= cmds@.subrange(0, i as int));
            assert(next.last() == cmds@[i as int]);
        }
        let c = cmds[i];
        if c.layer == layer {
            out.push(c);
            proof {
                assert(out@ =~= start + layer_commands(cmds@.subrange(0, i + 1), layer));
            }
        }
        i += 1;
    }
    assert(cmds@.subrange(0, cmds@.len() as int) =~= cmds@);
}

/// The ordered plan of draw commands for a future renderer.
#[derive(Clone, Debug, PartialEq, Eq)]
pub struct PresentationRenderCommandPlan {
    pub commands: Vec<SceneRenderCommand>,
}

impl PresentationRenderCommandPlan {
    /// Creates an empty plan.
    pub fn new() -> (r: Self)
        ensures
            r.commands@.len() == 0,
    {
        PresentationRenderCommandPlan { commands: Vec::new() }
    }

    /// Plans the draw commands of a sprite projection: by layer, then by projection order.
    pub fn from_sprites(sprites: &[SceneSpriteEntry]) -> (r: Self)
        ensures
            r.commands@ == spec_render_plan(sprites@),
    {
        let mut cmds: Vec<SceneRenderCommand> = Vec::new();
        let mut i: usize = 0;
        while i < sprites.len()
            invariant
                i <= sprites@.len(),
                cmds@ =~= commands_of(sprites@).subrange(0, i as int),
            decreases sprites@.len() - i,
        {
            cmds.push(SceneRenderCommand::from_sprite_entry(sprites[i], i));
            i += 1;
        }
        assert(cmds@ =~= commands_of(sprites@));
        let mut out: Vec<SceneRenderCommand> = Vec::new();
        push_layer(&mut out, &cmds, SceneRenderLayer::Terrain);
        push_layer(&mut out, &cmds, SceneRenderLayer::GroundItem);
        push_layer(&mut out, &cmds, SceneRenderLayer::Actor);
        push_layer(&mut out, &cmds, SceneRenderLayer::InventoryItem);
        assert(out@ =~= spec_render_plan(sprites@));
        PresentationRenderCommandPlan { commands: out }
    }

    /// Returns the commands in draw order.
    pub fn commands(&self) -> (r: &[SceneRenderCommand])
        ensures
            r@ == self.commands@,
    {
        self.commands.as_slice()
    }
}

/// A placeholder node reconciled from one draw command.
#[derive(Clone, Copy, Debug, PartialEq, Eq)]
pub struct SceneRenderNode {
    pub source_entity: u64,
    pub key: SceneSpriteKey,
    pub layer: SceneRenderLayer,
    pub order: usize,
    pub pixel_position: Option<ScenePixelPosition>,
    pub placeholder: SceneRenderPlaceholder,
    pub visible: bool,
}

/// The node of `command`, inside or outside the field of view.
pub open spec fn node_for(command: SceneRenderCommand, visible: bool) -> SceneRenderNode {
    SceneRenderNode {
        source_entity: spec_entry_entity(command.sprite.render_entry),
        key: command.sprite.key,
        layer: command.layer,
        order: command.order,
        pixel_position: spec_entry_pixel_position(command.sprite.render_entry),
        placeholder: spec_placeholder_of(command.sprite.key),
        visible,
    }
}

impl SceneRenderNode {
    /// Creates the node of one draw command.
    pub fn from_command(command: SceneRenderCommand, visible: bool) -> (r: Self)
        ensures
            r == node_for(command, visible),
    {
        let sprite = command.sprite;
        SceneRenderNode {
            source_entity: sprite.entity(),
            key: sprite.key,
            layer: command.layer,
            order: command.order,
            pixel_position: command.pixel_position(),
            placeholder: SceneRenderPlaceholder::from_key(sprite.key),
            visible,
        }
    }
}

/// Whether an entry is drawn: everything is without a field of view; with one, an entry with a
/// map cell is drawn when that cell is visible, and inventory entries always are.
pub open spec fn spec_entry_visible(visibility: Option<PresentationVisibility>, entry: SceneRenderEntry) -> bool {
    match visibility {
        None => true,
        Some(v) => match spec_entry_position(entry) {
            None => true,
            Some(p) => !v.active || lists(v.positions@, coords(p)),
        },
    }
}

/// Returns whether an entry is drawn under an optional field of view.
pub fn entry_visible(visibility: Option<&PresentationVisibility>, entry: SceneRenderEntry) -> (r: bool)
    ensures
        r == spec_entry_visible(
            match visibility {
                Some(v) => Some(*v),
                None => None,
            },
            entry,
        ),
{
    match visibility {
        None => true,
        Some(v) => match render_entry_position(entry) {
            None => true,
            Some(p) => v.is_visible(p),
        },
    }
}

proof fn lemma_lists_contains(positions: Seq<Position>, p: Position)
    ensures
        lists(positions, coords(p)) <==> positions.contains(p),
{
    if lists(positions, coords(p)) {
        let j = choose|j: int| 0 <= j < positions.len() && #[trigger] positions[j].x == coords(p).0
            && positions[j].y == coords(p).1;
        assert(positions[j] == p);
    }
    if positions.contains(p) {
        let j = choose|j: int| 0 <= j < positions.len() && positions[j] == p;
        assert(positions[j].x == coords(p).0 && positions[j].y == coords(p).1);
    }
}

/// The field of view decides what is drawn. Without one, or while it is inactive, every entry
/// is drawn. Under an active one, a terrain tile, an actor or a ground item is drawn exactly
/// when its own cell is among the visible cells, wherever it lies; an inventory entry, which
/// has no cell, is always drawn.
pub proof fn lemma_entry_visibility(v: PresentationVisibility, entry: SceneRenderEntry)
    ensures
        spec_entry_visible(None, entry),
        !v.active ==> spec_entry_visible(Some(v), entry),
        v.active ==> match entry {
            SceneRenderEntry::Terrain { tile, .. } => spec_entry_visible(Some(v), entry)
                == v.positions@.contains(tile.position),
            SceneRenderEntry::Actor { actor, .. } => spec_entry_visible(Some(v), entry)
                == v.positions@.contains(actor.position),
            SceneRenderEntry::GroundItem { item, .. } => spec_entry_visible(Some(v), entry)
                == v.positions@.contains(item.position),
            SceneRenderEntry::InventoryItem { .. } => spec_entry_visible(Some(v), entry),
        },
{
    match entry {
        SceneRenderEntry::Terrain { tile, .. } => lemma_lists_contains(v.positions@, tile.position),
        SceneRenderEntry::Actor { actor, .. } => lemma_lists_contains(v.positions@, actor.position),
        SceneRenderEntry::GroundItem { item, .. } => lemma_lists_contains(v.positions@, item.position),
        SceneRenderEntry::InventoryItem { .. } => {},
    }
}

/// Whether a node's sprite is hidden: inventory placeholders under the desktop client, and
/// anything outside the field of view.
pub open spec fn spec_sprite_hidden(external_desktop: bool, node: SceneRenderNode) -> bool {
    (external_desktop && node.placeholder == SceneRenderPlaceholder::InventoryItem) || !node.visible
}

/// Returns whether a node's sprite is hidden.
pub fn sprite_hidden(external_desktop: bool, node: SceneRenderNode) -> (r: bool)
    ensures
        r == spec_sprite_hidden(external_desktop, node),
{
    let inventory = match node.placeholder {
        SceneRenderPlaceholder::InventoryItem => true,
        _ => false,
    };
    (external_desktop && inventory) || !node.visible
}

/// A node entity that exists before reconciliation, with what identifies it.
#[derive(Clone, Copy, Debug, PartialEq, Eq, Structural, Hash)]
pub struct ExistingNode {
    pub entity: u64,
    pub source_entity: u64,
    pub layer: SceneRenderLayer,
}

/// The first existing node, not yet reused, for the same source entity and layer.
pub open spec fn first_reusable(
    existing: Seq<ExistingNode>,
    reused: Seq<u64>,
    source_entity: u64,
    layer: SceneRenderLayer,
) -> Option<u64>
    decreases existing.len(),
{
    if existing.len() == 0 {
        None
    } else if !reused.contains(existing[0].entity) && existing[0].source_entity == source_entity
        && existing[0].layer == layer {
        Some(existing[0].entity)
    } else {
        first_reusable(existing.drop_first(), reused, source_entity, layer)
    }
}

/// The entities named by the `Some` entries of `targets`, in order.
pub open spec fn reused_entities(targets: Seq<Option<u64>>) -> Seq<u64>
    decreases targets.len(),
{
    if targets.len() == 0 {
        Seq::empty()
    } else {
        let before = reused_entities(targets.drop_last());
        match targets.last() {
            Some(e) => before.push(e),
            None => before,
        }
    }
}

/// The existing node each new node reuses (`None`: a new one is spawned), in command order.
pub open spec fn node_targets(existing: Seq<ExistingNode>, nodes: Seq<SceneRenderNode>) -> Seq<Option<u64>>
    decreases nodes.len(),
{
    if nodes.len() == 0 {
        Seq::empty()
    } else {
        let before = node_targets(existing, nodes.drop_last());
        before.push(
            first_reusable(
                existing,
                reused_entities(before),
                nodes.last().source_entity,
                nodes.last().layer,
            ),
        )
    }
}

/// What reconciling the placeholder nodes with a plan does.
#[derive(Clone, Debug, PartialEq, Eq)]
pub struct NodePlan {
    /// The node of each command, in plan order.
    pub nodes: Vec<SceneRenderNode>,
    /// The existing node entity each node goes to; `None`: a new one is spawned.
    pub targets: Vec<Option<u64>>,
    /// The existing node entities no node reuses.
    pub despawn: Vec<u64>,
}

/// The nodes of a plan: each command's node, visible as its entry is under the field of view.
pub open spec fn plan_nodes(
    commands: Seq<SceneRenderCommand>,
    visibility: Option<PresentationVisibility>,
) -> Seq<SceneRenderNode> {
    Seq::new(
        commands.len(),
        |i: int| node_for(commands[i], spec_entry_visible(visibility, commands[i].sprite.render_entry)),
    )
}

/// `plan` reconciles `existing` nodes with the nodes of `commands`.
pub open spec fn plans_nodes(
    plan: NodePlan,
    commands: Seq<SceneRenderCommand>,
    visibility: Option<PresentationVisibility>,
    existing: Seq<ExistingNode>,
) -> bool {
    &&& plan.nodes@ == plan_nodes(commands, visibility)
    &&& plan.targets@ == node_targets(existing, plan.nodes@)
    &&& plan.despawn@ == Seq::new(existing.len(), |i: int| existing[i].entity).filter(
        |e: u64| !reused_entities(plan.targets@).contains(e),
    )
}

fn contains_u64(v: &Vec<u64>, e: u64) -> (r: bool)
    ensures
        r == v@.contains(e),
{
    let mut i: usize = 0;
    while i < v.len()
        invariant
            i <= v@.len(),
            forall|k: int| 0 <= k < i ==> v@[k] != e,
        decreases v@.len() - i,
    {
        if v[i] == e {
            return true;
        }
        i += 1;
    }
    false
}

fn find_reusable(existing: &[ExistingNode], reused: &Vec<u64>, source_entity: u64, layer: SceneRenderLayer) -> (r: Option<u64>)
    ensures
        r == first_reusable(existing@, reused@, source_entity, layer),
{
    let mut i: usize = 0;
    assert(existing@.subrange(0, existing@.len() as int) =~= existing@);
    while i < existing.len()
        invariant
            i <= existing@.len(),
            first_reusable(existing@, reused@, source_entity, layer) == first_reusable(
                existing@.subrange(i as int, existing@.len() as int),
                reused@,
                source_entity,
                layer,
            ),
        decreases existing@.len() - i,
    {
        let ghost rest = existing@.subrange(i as int, existing@.len() as int);
        assert(rest.drop_first() =~= existing@.subrange(i + 1, existing@.len() as int));
        assert(rest[0] == existing@[i as int]);
        let n = existing[i];
        if !contains_u64(reused, n.entity) && n.source_entity == source_entity && n.layer == layer {
            return Some(n.entity);
        }
        i += 1;
    }
    None
}

proof fn lemma_first_reusable(existing: Seq<ExistingNode>, reused: Seq<u64>, source_entity: u64, layer: SceneRenderLayer)
    ensures
        first_reusable(existing, reused, source_entity, layer) matches Some(e) ==> !reused.contains(e)
            && existing.contains(ExistingNode { entity: e, source_entity, layer }),
    decreases existing.len(),
{
    if existing.len() > 0 {
        let rest = existing.drop_first();
        lemma_first_reusable(rest, reused, source_entity, layer);
        if let Some(e) = first_reusable(rest, reused, source_entity, layer) {
            if !(!reused.contains(existing[0].entity) && existing[0].source_entity == source_entity
                && existing[0].layer == layer) {
                let k = choose|k: int| 0 <= k < rest.len() && rest[k] == ExistingNode { entity: e, source_entity, layer };
                assert(existing[k + 1] == rest[k]);
            }
        }
        if !reused.contains(existing[0].entity) && existing[0].source_entity == source_entity
            && existing[0].layer == layer {
            assert(existing[0] == ExistingNode { entity: existing[0].entity, source_entity, layer });
        }
    }
}

proof fn lemma_reused_entities_contains(targets: Seq<Option<u64>>, i: int)
    requires
        0 <= i < targets.len(),
    ensures
        targets[i] matches Some(e) ==> reused_entities(targets).contains(e),
    decreases targets.len(),
{
    let n = targets.len() - 1;
    let before = reused_entities(targets.drop_last());
    if i < n {
        lemma_reused_entities_contains(targets.drop_last(), i);
        assert(targets.drop_last()[i] == targets[i]);
        if let Some(e) = targets[i] {
            let k = choose|k: int| 0 <= k < before.len() && before[k] == e;
            if let Some(last) = targets.last() {
                assert(before.push(last)[k] == e);
            }
        }
    } else if let Some(e) = targets[i] {
        assert(targets.last() == targets[i]);
        assert(before.push(e)[before.len() as int] == e);
    }
}

proof fn lemma_node_targets_len(existing: Seq<ExistingNode>, nodes: Seq<SceneRenderNode>)
    ensures
        node_targets(existing, nodes).len() == nodes.len(),
    decreases nodes.len(),
{
    if nodes.len() > 0 {
        lemma_node_targets_len(existing, nodes.drop_last());
    }
}

/// Node reuse never takes one existing node twice, and a node only reuses an existing node of
/// its own source entity and layer.
pub proof fn lemma_node_reuse(existing: Seq<ExistingNode>, nodes: Seq<SceneRenderNode>)
    ensures
        node_targets(existing, nodes).len() == nodes.len(),
        forall|i: int|
            0 <= i < nodes.len() ==> (#[trigger] node_targets(existing, nodes)[i] matches Some(e) ==> existing.contains(
                ExistingNode { entity: e, source_entity: nodes[i].source_entity, layer: nodes[i].layer },
            )),
        forall|i: int, j: int|
            0 <= i < j < nodes.len() && (#[trigger] node_targets(existing, nodes)[i]) is Some ==> #[trigger] node_targets(
                existing,
                nodes,
            )[j] != node_targets(existing, nodes)[i],
    decreases nodes.len(),
{
    lemma_node_targets_len(existing, nodes);
    if nodes.len() > 0 {
        let n = nodes.len() - 1;
        let prefix = nodes.drop_last();
        let before = node_targets(existing, prefix);
        let t = node_targets(existing, nodes);
        let reused = reused_entities(before);
        lemma_node_reuse(existing, prefix);
        lemma_first_reusable(existing, reused, nodes.last().source_entity, nodes.last().layer);
        assert(t == before.push(first_reusable(existing, reused, nodes.last().source_entity, nodes.last().layer)));
        assert forall|i: int|
            0 <= i < nodes.len() implies (#[trigger] node_targets(existing, nodes)[i] matches Some(e) ==> existing.contains(
                ExistingNode { entity: e, source_entity: nodes[i].source_entity, layer: nodes[i].layer },
            )) by {
            if i < n {
                assert(t[i] == before[i]);
                assert(nodes[i] == prefix[i]);
            } else {
                assert(nodes[i] == nodes.last());
            }
        }
        assert forall|i: int, j: int|
            0 <= i < j < nodes.len() && (#[trigger] node_targets(existing, nodes)[i]) is Some implies #[trigger] node_targets(
                existing,
                nodes,
            )[j] != node_targets(existing, nodes)[i] by {
            assert(t[i] == before[i]);
            if j < n {
                assert(t[j] == before[j]);
            } else {
                lemma_reused_entities_contains(before, i);
            }
        }
    }
}

/// Reconciles the placeholder nodes with a render plan: every command gets a node, which reuses
/// the first unused existing node of the same source entity and layer; unused nodes are
/// despawned.
pub fn plan_render_nodes(
    commands: &[SceneRenderCommand],
    visibility: Option<&PresentationVisibility>,
    existing: &[ExistingNode],
) -> (r: NodePlan)
    ensures
        plans_nodes(
            r,
            commands@,
            match visibility {
                Some(v) => Some(*v),
                None => None,
            },
            existing@,
        ),
{
    let ghost vis = match visibility {
        Some(v) => Some(*v),
        None => None,
    };
    let mut nodes: Vec<SceneRenderNode> = Vec::new();
    let mut targets: Vec<Option<u64>> = Vec::new();
    let mut reused: Vec<u64> = Vec::new();
    let mut i: usize = 0;
    while i < commands.len()
        invariant
            i <= commands@.len(),
            vis == match visibility {
                Some(v) => Some(*v),
                None => None,
            },
            nodes@ =~= plan_nodes(commands@, vis).subrange(0, i as int),
            targets@ == node_targets(existing@, nodes@),
            reused@ == reused_entities(targets@),
        decreases commands@.len() - i,
    {
        let command = commands[i];
        let visible = entry_visible(visibility, command.sprite.render_entry);
        let node = SceneRenderNode::from_command(command, visible);
        let target = find_reusable(existing, &reused, node.source_entity, node.layer);
        let ghost before_nodes = nodes@;
        nodes.push(node);
        targets.push(target);
        proof {
            assert(nodes@.drop_last() =~= before_nodes);
            let t = targets@;
            assert(t.drop_last() =~= node_targets(existing@, before_nodes));
        }
        if let Some(e) = target {
            reused.push(e);
        }
        i += 1;
    }
    assert(nodes@ =~= plan_nodes(commands@, vis));
    let ghost all = reused_entities(targets@);
    let ghost entities = Seq::new(existing@.len(), |k: int| existing@[k].entity);
    let mut despawn: Vec<u64> = Vec::new();
    let mut j: usize = 0;
    while j < existing.len()
        invariant
            j <= existing@.len(),
            reused@ == all,
            entities == Seq::new(existing@.len(), |k: int| existing@[k].entity),
            despawn@ == entities.subrange(0, j as int).filter(|e: u64| !all.contains(e)),
        decreases existing@.len() - j,
    {
        proof {
            let next = entities.subrange(0, j + 1);
            assert(next.drop_last() =~= entities.subrange(0, j as int));
            reveal(Seq::filter);
        }
        let e = existing[j].entity;
        if !contains_u64(&reused, e) {
            despawn.push(e);
        }
        j += 1;
    }
    assert(entities.subrange(0, entities.len() as int) =~= entities);
    NodePlan { nodes, targets, despawn }
}

/// One placeholder node with its stable node entity.
#[derive(Clone, Copy, Debug, PartialEq, Eq)]
pub struct SceneRenderNodeEntry {
    pub node_entity: u64,
    pub node: SceneRenderNode,
}

/// How many nodes of a plan spawn a new entity.
pub open spec fn spawn_count(targets: Seq<Option<u64>>) -> nat
    decreases targets.len(),
{
    if targets.len() == 0 {
        0
    } else {
        spawn_count(targets.drop_last()) + if targets.last() is None {
            1nat
        } else {
            0nat
        }
    }
}

/// The entity of each node of a plan: the existing node it reuses, or else the next of the
/// entities spawned for the plan, in order.
pub open spec fn node_entities(targets: Seq<Option<u64>>, spawned: Seq<u64>) -> Seq<u64>
    decreases targets.len(),
{
    if targets.len() == 0 {
        Seq::empty()
    } else {
        let before = node_entities(targets.drop_last(), spawned);
        match targets.last() {
            Some(e) => before.push(e),
            None => before.push(spawned[spawn_count(targets.drop_last()) as int]),
        }
    }
}

proof fn lemma_node_entities_len(targets: Seq<Option<u64>>, spawned: Seq<u64>)
    ensures
        node_entities(targets, spawned).len() == targets.len(),
    decreases targets.len(),
{
    if targets.len() > 0 {
        lemma_node_entities_len(targets.drop_last(), spawned);
    }
}

proof fn lemma_spawn_count_prefix(targets: Seq<Option<u64>>, i: int)
    requires
        0 <= i <= targets.len(),
    ensures
        spawn_count(targets.subrange(0, i)) <= spawn_count(targets),
    decreases targets.len() - i,
{
    if i < targets.len() {
        lemma_spawn_count_prefix(targets, i + 1);
        assert(targets.subrange(0, i + 1).drop_last() =~= targets.subrange(0, i));
    } else {
        assert(targets.subrange(0, i) =~= targets);
    }
}

impl NodePlan {
    /// Returns how many of the plan's nodes spawn a new entity.
    pub fn spawn_count(&self) -> (r: usize)
        ensures
            r == spawn_count(self.targets@),
    {
        let mut n: usize = 0;
        let mut i: usize = 0;
        while i < self.targets.len()
            invariant
                i <= self.targets@.len(),
                n == spawn_count(self.targets@.subrange(0, i as int)),
                n <= i,
            decreases self.targets@.len() - i,
        {
            proof {
                assert(self.targets@.subrange(0, i + 1).drop_last() =~= self.targets@.subrange(0, i as int));
            }
            if self.targets[i].is_none() {
                n += 1;
            }
            i += 1;
        }
        assert(self.targets@.subrange(0, i as int) =~= self.targets@);
        n
    }
}

/// The placeholder nodes of a render plan with their node entities, in plan order.
pub struct PresentationRenderNodeProjection {
    pub entries: Vec<SceneRenderNodeEntry>,
}

impl PresentationRenderNodeProjection {
    /// Creates an empty projection.
    pub fn new() -> (r: Self)
        ensures
            r.entries@.len() == 0,
    {
        PresentationRenderNodeProjection { entries: Vec::new() }
    }

    /// Joins each node of `plan` with its entity: the existing node it reuses, or else the next
    /// entity of `spawned`, which holds one new entity per node that reuses none.
    pub fn from_plan(plan: &NodePlan, spawned: &[u64]) -> (r: Self)
        requires
            plan.nodes@.len() == plan.targets@.len(),
            spawned@.len() == spawn_count(plan.targets@),
        ensures
            r.entries@.len() == plan.nodes@.len(),
            forall|i: int|
                0 <= i < plan.nodes@.len() ==> #[trigger] r.entries@[i] == (SceneRenderNodeEntry {
                    node_entity: node_entities(plan.targets@, spawned@)[i],
                    node: plan.nodes@[i],
                }),
    {
        let ghost targets = plan.targets@;
        let mut entries: Vec<SceneRenderNodeEntry> = Vec::new();
        let mut k: usize = 0;
        let mut i: usize = 0;
        while i < plan.nodes.len()
            invariant
                i <= plan.nodes@.len(),
                plan.nodes@.len() == targets.len(),
                targets == plan.targets@,
                spawned@.len() == spawn_count(targets),
                k == spawn_count(targets.subrange(0, i as int)),
                entries@.len() == i,
                node_entities(targets.subrange(0, i as int), spawned@).len() == i,
                forall|j: int|
                    0 <= j < i ==> #[trigger] entries@[j] == (SceneRenderNodeEntry {
                        node_entity: node_entities(targets.subrange(0, i as int), spawned@)[j],
                        node: plan.nodes@[j],
                    }),
            decreases plan.nodes@.len() - i,
        {
            let ghost before = targets.subrange(0, i as int);
            let ghost next = targets.subrange(0, i + 1);
            proof {
                assert(next.drop_last() =~= before);
                assert(next.last() == targets[i as int]);
                lemma_spawn_count_prefix(targets, i + 1);
                lemma_node_entities_len(next, spawned@);
            }
            let node_entity = match plan.targets[i] {
                Some(e) => e,
                None => {
                    let e = spawned[k];
                    k += 1;
                    e
                },
            };
            entries.push(SceneRenderNodeEntry { node_entity, node: plan.nodes[i] });
            proof {
                assert forall|j: int| 0 <= j < i + 1 implies #[trigger] entries@[j] == (SceneRenderNodeEntry {
                    node_entity: node_entities(next, spawned@)[j],
                    node: plan.nodes@[j],
                }) by {
                    if j < i {
                        assert(node_entities(next, spawned@)[j] == node_entities(before, spawned@)[j]);
                    }
                }
            }
            i += 1;
        }
        assert(targets.subrange(0, i as int) =~= targets);
        PresentationRenderNodeProjection { entries }
    }

    /// Returns the nodes in plan order.
    pub fn entries(&self) -> (r: &[SceneRenderNodeEntry])
        ensures
            r@ == self.entries@,
    {
        self.entries.as_slice()
    }
}

/// One node joined with the local asset reference of its placeholder family.
#[derive(Clone, Debug)]
pub struct SceneRenderAssetEntry {
    pub node: SceneRenderNodeEntry,
    pub reference: PresentationAssetReference,
}

/// Joins each node with the reference its placeholder family is bound to in `manifest`.
pub fn render_asset_entries(nodes: &[SceneRenderNodeEntry], manifest: &PresentationAssetManifest) -> (r: Vec<SceneRenderAssetEntry>)
    ensures
        r@.len() == nodes@.len(),
        forall|i: int|
            0 <= i < nodes@.len() ==> #[trigger] r@[i].node == nodes@[i] && placeholder_bound_to(
                manifest@,
                nodes@[i].node.placeholder,
                r@[i].reference@,
            ),
{
    let mut out: Vec<SceneRenderAssetEntry> = Vec::new();
    let mut i: usize = 0;
    while i < nodes.len()
        invariant
            i <= nodes@.len(),
            out@.len() == i,
            forall|k: int|
                0 <= k < i ==> #[trigger] out@[k].node == nodes@[k] && placeholder_bound_to(
                    manifest@,
                    nodes@[k].node.placeholder,
                    out@[k].reference@,
                ),
        decreases nodes@.len() - i,
    {
        let node = nodes[i];
        let reference = manifest.reference(node.node.placeholder).clone();
        out.push(SceneRenderAssetEntry { node, reference });
        i += 1;
    }
    out
}

/// The placeholder nodes joined, in node order, with their local asset references.
pub struct PresentationRenderAssetProjection {
    pub entries: Vec<SceneRenderAssetEntry>,
}

impl PresentationRenderAssetProjection {
    /// Creates an empty projection.
    pub fn new() -> (r: Self)
        ensures
            r.entries@.len() == 0,
    {
        PresentationRenderAssetProjection { entries: Vec::new() }
    }

    /// Joins each node with the reference of its placeholder family, reading no file.
    pub fn from_nodes(nodes: &PresentationRenderNodeProjection, manifest: &PresentationAssetManifest) -> (r: Self)
        ensures
            r.entries@.len() == nodes.entries@.len(),
            forall|i: int|
                0 <= i < nodes.entries@.len() ==> #[trigger] r.entries@[i].node == nodes.entries@[i]
                    && placeholder_bound_to(manifest@, nodes.entries@[i].node.placeholder, r.entries@[i].reference@),
    {
        PresentationRenderAssetProjection { entries: render_asset_entries(nodes.entries.as_slice(), manifest) }
    }

    /// Returns the entries in node order.
    pub fn entries(&self) -> (r: &[SceneRenderAssetEntry])
        ensures
            r@ == self.entries@,
    {
        self.entries.as_slice()
    }
}

/// The cell of a map-backed scene entity: its tile's, else its actor's, else its ground item's.
pub open spec fn mirror_position(m: SceneMirrorComponents) -> Option<Position> {
    match m.tile {
        Some(t) => Some(t.position),
        None => match m.actor {
            Some(a) => Some(a.position),
            None => match m.ground_item {
                Some(g) => Some(g.position),
                None => None,
            },
        },
    }
}

/// Returns the pixel origin a map-backed scene entity carries for a tile size; `None` removes
/// it.
pub fn mirror_pixel_position(m: &SceneMirrorComponents, tile_size: PresentationTileSize) -> (r: Option<ScenePixelPosition>)
    ensures
        r == match mirror_position(*m) {
            Some(p) => spec_pixel_at(tile_size, p),
            None => None,
        },
{
    let position = match m.tile {
        Some(t) => Some(t.position),
        None => match m.actor {
            Some(a) => Some(a.position),
            None => match m.ground_item {
                Some(g) => Some(g.position),
                None => None,
            },
        },
    };
    match position {
        Some(p) => tile_size.pixel_position(p),
        None => None,
    }
}

/// No key of `cands` is listed twice for one entity.
pub open spec fn mirrors_each_key_once(cands: Seq<(RenderKey, SceneRenderEntry)>) -> bool {
    forall|i: int, j: int|
        0 <= i < j < cands.len() && #[trigger] cands[i].0 == #[trigger] cands[j].0 ==> spec_entry_entity(
            cands[i].1,
        ) != spec_entry_entity(cands[j].1)
}

proof fn lemma_best_for_is_least(cands: Seq<(RenderKey, SceneRenderEntry)>, key: RenderKey)
    ensures
        best_for(cands, key) matches Some(e) ==> cands.contains((key, e)) && forall|m: int|
            0 <= m < cands.len() && #[trigger] cands[m].0 == key ==> spec_entry_entity(e)
                <= spec_entry_entity(cands[m].1),
        best_for(cands, key) is None ==> forall|m: int| 0 <= m < cands.len() ==> #[trigger] cands[m].0 != key,
    decreases cands.len(),
{
    if cands.len() > 0 {
        let n = cands.len() - 1;
        let rest = cands.drop_last();
        let c = cands[n];
        lemma_best_for_is_least(rest, key);
        assert(cands.last() == c);
        assert forall|m: int| 0 <= m < rest.len() implies #[trigger] rest[m] == cands[m] by {}
        match best_for(rest, key) {
            None => {
                if c.0 == key {
                    assert(cands[n] == (key, c.1));
                    assert forall|m: int| 0 <= m < cands.len() && #[trigger] cands[m].0 == key implies spec_entry_entity(c.1)
                        <= spec_entry_entity(cands[m].1) by {
                        if m < n {
                            assert(rest[m].0 != key);
                        }
                    }
                } else {
                    assert forall|m: int| 0 <= m < cands.len() implies #[trigger] cands[m].0 != key by {
                        if m < n {
                            assert(rest[m].0 != key);
                        }
                    }
                }
            },
            Some(b) => {
                let j = choose|j: int| 0 <= j < rest.len() && rest[j] == (key, b);
                assert(cands[j] == (key, b));
                let e = best_for(cands, key)->0;
                if c.0 == key && spec_entry_entity(c.1) < spec_entry_entity(b) {
                    assert(e == c.1);
                    assert(cands[n] == (key, c.1));
                    assert forall|m: int| 0 <= m < cands.len() && #[trigger] cands[m].0 == key implies spec_entry_entity(e)
                        <= spec_entry_entity(cands[m].1) by {
                        if m < n {
                            assert(rest[m].0 == key);
                        }
                    }
                } else {
                    assert(e == b);
                    assert forall|m: int| 0 <= m < cands.len() && #[trigger] cands[m].0 == key implies spec_entry_entity(e)
                        <= spec_entry_entity(cands[m].1) by {
                        if m < n {
                            assert(rest[m].0 == key);
                        }
                    }
                }
            },
        }
    }
}

proof fn lemma_best_for_order_free(
    a: Seq<(RenderKey, SceneRenderEntry)>,
    b: Seq<(RenderKey, SceneRenderEntry)>,
    key: RenderKey,
)
    requires
        forall|c: (RenderKey, SceneRenderEntry)| a.contains(c) <==> b.contains(c),
        mirrors_each_key_once(a),
    ensures
        best_for(a, key) == best_for(b, key),
{
    lemma_best_for_is_least(a, key);
    lemma_best_for_is_least(b, key);
    match best_for(a, key) {
        None => {
            if let Some(e) = best_for(b, key) {
                assert(b.contains((key, e)));
                assert(a.contains((key, e)));
                let m = choose|m: int| 0 <= m < a.len() && a[m] == (key, e);
                assert(a[m].0 == key);
            }
        },
        Some(e) => {
            assert(a.contains((key, e)));
            assert(b.contains((key, e)));
            let mb = choose|m: int| 0 <= m < b.len() && b[m] == (key, e);
            assert(b[mb].0 == key);
            let f = best_for(b, key)->0;
            assert(b.contains((key, f)));
            assert(a.contains((key, f)));
            let i = choose|i: int| 0 <= i < a.len() && a[i] == (key, e);
            let j = choose|j: int| 0 <= j < a.len() && a[j] == (key, f);
            assert(a[j].0 == key);
            assert(spec_entry_entity(e) <= spec_entry_entity(a[j].1));
            assert(spec_entry_entity(f) <= spec_entry_entity(b[mb].1));
            if i < j {
                assert(spec_entry_entity(a[i].1) != spec_entry_entity(a[j].1));
            } else if j < i {
                assert(spec_entry_entity(a[j].1) != spec_entry_entity(a[i].1));
            }
        },
    }
}

/// `x` lists its keys in strictly increasing order.
#[verifier::opaque]
pub open spec fn keys_increase(x: Seq<(RenderKey, SceneRenderEntry)>) -> bool {
    forall|i: int, j: int| 0 <= i < j < x.len() ==> key_less(#[trigger] x[i].0, #[trigger] x[j].0)
}

/// Some entry of `y` has the key `k`.
pub open spec fn has_key(y: Seq<(RenderKey, SceneRenderEntry)>, k: RenderKey) -> bool {
    exists|j: int| 0 <= j < y.len() && #[trigger] y[j].0 == k
}

/// Every key of `x` is a key of `y`.
#[verifier::opaque]
pub open spec fn keys_within(x: Seq<(RenderKey, SceneRenderEntry)>, y: Seq<(RenderKey, SceneRenderEntry)>) -> bool {
    forall|i: int| 0 <= i < x.len() ==> #[trigger] has_key(y, x[i].0)
}

/// `x` and `y` hold the same entry wherever they hold the same key.
#[verifier::opaque]
pub open spec fn entries_agree(x: Seq<(RenderKey, SceneRenderEntry)>, y: Seq<(RenderKey, SceneRenderEntry)>) -> bool {
    forall|i: int, j: int|
        0 <= i < x.len() && 0 <= j < y.len() && #[trigger] x[i].0 == #[trigger] y[j].0 ==> x[i].1 == y[j].1
}

proof fn lemma_heads_equal(x: Seq<(RenderKey, SceneRenderEntry)>, y: Seq<(RenderKey, SceneRenderEntry)>)
    requires
        x.len() > 0,
        y.len() > 0,
        keys_increase(x),
        keys_increase(y),
        keys_within(x, y),
        keys_within(y, x),
        entries_agree(x, y),
    ensures
        x[0] == y[0],
{
    reveal(keys_within);
    let y0 = y[0].0;
    let x0 = x[0].0;
    assert(has_key(x, y0) && has_key(y, x0));
    let i = choose|i: int| 0 <= i < x.len() && #[trigger] x[i].0 == y0;
    let j = choose|j: int| 0 <= j < y.len() && #[trigger] y[j].0 == x0;
    if i > 0 && j > 0 {
        reveal(keys_increase);
        assert(key_less(x[0].0, x[i].0));
        assert(key_less(y[0].0, y[j].0));
    }
    assert(x0 == y0);
    reveal(entries_agree);
    assert(x[0].1 == y[0].1);
}

proof fn lemma_tail_increase(x: Seq<(RenderKey, SceneRenderEntry)>)
    requires
        x.len() > 0,
        keys_increase(x),
    ensures
        keys_increase(x.drop_first()),
{
    reveal(keys_increase);
    let xs = x.drop_first();
    assert forall|a: int, b: int| 0 <= a < b < xs.len() implies key_less(#[trigger] xs[a].0, #[trigger] xs[b].0) by {
        assert(xs[a] == x[a + 1] && xs[b] == x[b + 1]);
    }
}

proof fn lemma_tail_within(x: Seq<(RenderKey, SceneRenderEntry)>, y: Seq<(RenderKey, SceneRenderEntry)>)
    requires
        x.len() > 0,
        y.len() > 0,
        x[0].0 == y[0].0,
        keys_increase(x),
        keys_within(x, y),
    ensures
        keys_within(x.drop_first(), y.drop_first()),
{
    reveal(keys_within);
    let xs = x.drop_first();
    let ys = y.drop_first();
    assert forall|i: int| 0 <= i < xs.len() implies #[trigger] has_key(ys, xs[i].0) by {
        let k = i + 1;
        assert(xs[i] == x[k]);
        assert(key_less(x[0].0, x[k].0)) by {
            reveal(keys_increase);
        }
        assert(has_key(y, x[k].0));
        let m = choose|m: int| 0 <= m < y.len() && #[trigger] y[m].0 == x[k].0;
        assert(m != 0);
        assert(ys[m - 1] == y[m]);
    }
}

proof fn lemma_tail_agree(x: Seq<(RenderKey, SceneRenderEntry)>, y: Seq<(RenderKey, SceneRenderEntry)>)
    requires
        x.len() > 0,
        y.len() > 0,
        entries_agree(x, y),
    ensures
        entries_agree(x.drop_first(), y.drop_first()),
{
    reveal(entries_agree);
    let xs = x.drop_first();
    let ys = y.drop_first();
    assert forall|a: int, b: int|
        0 <= a < xs.len() && 0 <= b < ys.len() && #[trigger] xs[a].0 == #[trigger] ys[b].0 implies xs[a].1
            == ys[b].1 by {
        assert(xs[a] == x[a + 1] && ys[b] == y[b + 1]);
    }
}

/// Two key-ordered sequences with the same keys and the same entry for each key are equal.
proof fn lemma_sorted_unique(x: Seq<(RenderKey, SceneRenderEntry)>, y: Seq<(RenderKey, SceneRenderEntry)>)
    requires
        keys_increase(x),
        keys_increase(y),
        keys_within(x, y),
        keys_within(y, x),
        entries_agree(x, y),
    ensures
        x == y,
    decreases x.len() + y.len(),
{
    if x.len() == 0 || y.len() == 0 {
        reveal(keys_within);
        if y.len() > 0 {
            assert(has_key(x, y[0].0));
        }
        if x.len() > 0 {
            assert(has_key(y, x[0].0));
        }
        assert(x =~= y);
    } else {
        lemma_heads_equal(x, y);
        lemma_tail_increase(x);
        lemma_tail_increase(y);
        lemma_tail_within(x, y);
        lemma_tail_within(y, x);
        lemma_tail_agree(x, y);
        lemma_sorted_unique(x.drop_first(), y.drop_first());
        assert(x =~= seq![x[0]] + x.drop_first());
        assert(y =~= seq![y[0]] + y.drop_first());
    }
}

proof fn lemma_projection_keys_within(
    a: Seq<(RenderKey, SceneRenderEntry)>,
    b: Seq<(RenderKey, SceneRenderEntry)>,
)
    requires
        forall|k: RenderKey| #[trigger] best_for(a, k) == best_for(b, k),
        is_projection_of(keyed_projection(a), a),
        is_projection_of(keyed_projection(b), b),
    ensures
        keys_within(keyed_projection(a), keyed_projection(b)),
{
    reveal(keys_within);
    let x = keyed_projection(a);
    let y = keyed_projection(b);
    assert forall|i: int| 0 <= i < x.len() implies #[trigger] has_key(y, x[i].0) by {
        let k = x[i].0;
        assert(best_for(a, k) == Some(x[i].1));
        assert(best_for(b, k) is Some);
        lemma_best_for_has_candidate(b, k);
        let m = choose|m: int| 0 <= m < b.len() && #[trigger] b[m].0 == k;
        let j = choose|j: int| 0 <= j < y.len() && #[trigger] y[j].0 == #[trigger] b[m].0;
        assert(y[j].0 == x[i].0);
    }
}

/// The render projection does not depend on the order in which the scene lists its mirrors:
/// any two candidate sequences holding the same entries, where no entity mirrors one key
/// twice, project to the same entries.
pub proof fn lemma_projection_order_free(
    a: Seq<(RenderKey, SceneRenderEntry)>,
    b: Seq<(RenderKey, SceneRenderEntry)>,
)
    requires
        forall|c: (RenderKey, SceneRenderEntry)| a.contains(c) <==> b.contains(c),
        mirrors_each_key_once(a),
    ensures
        keyed_projection(a) == keyed_projection(b),
{
    let x = keyed_projection(a);
    let y = keyed_projection(b);
    lemma_keyed_projection(a);
    lemma_keyed_projection(b);
    assert forall|k: RenderKey| #[trigger] best_for(a, k) == best_for(b, k) by {
        lemma_best_for_order_free(a, b, k);
    }
    assert forall|k: RenderKey| #[trigger] best_for(b, k) == best_for(a, k) by {
        lemma_best_for_order_free(a, b, k);
    }
    lemma_projection_keys_within(a, b);
    lemma_projection_keys_within(b, a);
    assert(keys_increase(x) && keys_increase(y)) by {
        reveal(keys_increase);
    }
    assert(entries_agree(x, y)) by {
        reveal(entries_agree);
        assert forall|i: int, j: int|
            0 <= i < x.len() && 0 <= j < y.len() && #[trigger] x[i].0 == #[trigger] y[j].0 implies x[i].1
                == y[j].1 by {
            assert(best_for(a, x[i].0) == Some(x[i].1));
            assert(best_for(b, y[j].0) == Some(y[j].1));
        }
    }
    lemma_sorted_unique(x, y);
}

} // verus!
