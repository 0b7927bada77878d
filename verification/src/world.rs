//! Plain values that the presentation layer reads from the authoritative simulation.

use vstd::prelude::*;

verus! {

/// A stable actor identity.
#[derive(Clone, Copy, Debug, PartialEq, Eq, Structural, Hash)]
pub struct ActorId {
    pub id: u32,
}

impl ActorId {
    /// Creates an actor identity from its number.
    pub fn new(id: u32) -> (r: ActorId)
        ensures
            r.id == id,
    {
        ActorId { id }
    }

    /// Returns the identity number.
    pub fn value(self) -> (r: u32)
        ensures
            r == self.id,
    {
        self.id
    }
}

/// A globally unique item instance identity.
#[derive(Clone, Copy, Debug, PartialEq, Eq, Structural, Hash)]
pub struct ItemId {
    pub id: u32,
}

impl ItemId {
    /// Creates an item identity from its number.
    pub fn new(id: u32) -> (r: ItemId)
        ensures
            r.id == id,
    {
        ItemId { id }
    }

    /// Returns the identity number.
    pub fn value(self) -> (r: u32)
        ensures
            r == self.id,
    {
        self.id
    }
}

/// An opaque content reference carried by an item instance.
#[derive(Clone, Copy, Debug, PartialEq, Eq, Structural, Hash)]
pub struct ItemDefinitionId {
    pub id: u32,
}

/// Whether an actor is the player or an enemy.
#[derive(Clone, Copy, Debug, PartialEq, Eq, Structural, Hash)]
pub enum ActorKind {
    Player,
    Enemy,
}

/// The canonical outcome of a run.
#[derive(Clone, Copy, Debug, PartialEq, Eq, Structural, Hash)]
pub enum RunOutcome {
    InProgress,
    Defeat,
    Victory,
}

/// The authored behavior of an enemy.
#[derive(Clone, Copy, Debug, PartialEq, Eq, Structural, Hash)]
pub enum EnemyBehavior {
    Pursuer,
    Kiter,
    Brute,
    Frostcaster,
    Blocker,
    Scavenger,
    Zombie,
}

/// Why a movement attempt left the actor in place.
#[derive(Clone, Copy, Debug, PartialEq, Eq, Structural, Hash)]
pub enum BlockReason {
    Terrain,
    Actor(ActorId),
}

/// The terrain of one map cell.
#[derive(Clone, Copy, Debug, PartialEq, Eq, Structural, Hash)]
pub enum Tile {
    Floor,
    Cover,
    Wall,
    Door,
    OpenDoor,
    Breakable,
    Trap,
    ChillTrap,
    Stairs,
}

impl Tile {
    /// Cells an actor may stand on; sight spreads across them.
    pub open spec fn spec_is_walkable(self) -> bool {
        match self {
            Tile::Floor | Tile::Cover | Tile::OpenDoor | Tile::Trap | Tile::ChillTrap
            | Tile::Stairs => true,
            Tile::Wall | Tile::Door | Tile::Breakable => false,
        }
    }

    /// Cells that stop sight but are themselves seen when next to a seen walkable cell.
    pub open spec fn spec_blocks_sight(self) -> bool {
        match self {
            Tile::Wall | Tile::Door | Tile::Breakable => true,
            _ => false,
        }
    }

    /// Returns whether an actor may stand on this terrain.
    #[verifier::when_used_as_spec(spec_is_walkable)]
    pub fn is_walkable(self) -> (r: bool)
        ensures
            r == self.spec_is_walkable(),
    {
        match self {
            Tile::Floor | Tile::Cover | Tile::OpenDoor | Tile::Trap | Tile::ChillTrap
            | Tile::Stairs => true,
            Tile::Wall | Tile::Door | Tile::Breakable => false,
        }
    }

    /// Returns whether this terrain stops sight.
    #[verifier::when_used_as_spec(spec_blocks_sight)]
    pub fn blocks_sight(self) -> (r: bool)
        ensures
            r == self.spec_blocks_sight(),
    {
        match self {
            Tile::Wall | Tile::Door | Tile::Breakable => true,
            _ => false,
        }
    }
}

/// A row-major terrain map of `width` by `height` cells; cell `(x, y)` is `tiles[y * width + x]`
/// when that index exists.
#[derive(Clone, Debug, PartialEq, Eq)]
pub struct TileMap {
    pub width: u32,
    pub height: u32,
    pub tiles: Vec<Tile>,
}

/// The terrain at `(x, y)`, or `None` outside the map or past the stored tiles.
pub open spec fn spec_tile_at(map: TileMap, x: int, y: int) -> Option<Tile> {
    if 0 <= x < map.width && 0 <= y < map.height && y * map.width + x < map.tiles@.len() {
        Some(map.tiles@[y * map.width + x])
    } else {
        None
    }
}

/// Returns the terrain at `position`, or `None` outside the map or past the stored tiles.
pub fn snapshot_tile(map: &TileMap, position: crate::geometry::Position) -> (r: Option<Tile>)
    ensures
        r == spec_tile_at(*map, position.x as int, position.y as int),
{
    match tile_index(map, position.x, position.y) {
        Some(i) => Some(map.tiles[i]),
        None => None,
    }
}

/// Returns the storage index of cell `(x, y)` when that cell exists.
pub fn tile_index(map: &TileMap, x: i32, y: i32) -> (r: Option<usize>)
    ensures
        r is Some <==> spec_tile_at(*map, x as int, y as int) is Some,
        r matches Some(i) ==> i == y * map.width + x && i < map.tiles@.len(),
{
    let len = map.tiles.len();
    if x < 0 || y < 0 {
        return None;
    }
    let xu = x as usize;
    let yu = y as usize;
    let width = map.width as usize;
    let height = map.height as usize;
    if xu >= width || yu >= height {
        return None;
    }
    let row = match yu.checked_mul(width) {
        Some(v) => v,
        None => {
            proof {
                assert(y * map.width + x > usize::MAX) by (nonlinear_arith)
                    requires
                        yu * width > usize::MAX,
                        yu == y,
                        width == map.width,
                        x >= 0,
                ;
            }
            return None;
        },
    };
    let index = match row.checked_add(xu) {
        Some(v) => v,
        None => {
            proof {
                assert(y * map.width + x > usize::MAX) by (nonlinear_arith)
                    requires
                        row + xu > usize::MAX,
                        row == yu * width,
                        yu == y,
                        xu == x,
                        width == map.width,
                ;
            }
            return None;
        },
    };
    if index < len {
        Some(index)
    } else {
        None
    }
}

/// What equipping an item changes for its owner.
#[derive(Clone, Copy, Debug, PartialEq, Eq, Structural, Hash)]
pub enum EquipmentEffect {
    /// The owner's melee reach is raised to at least `reach`.
    MinimumMeleeReach { reach: u8 },
}

/// One item instance: its identity, its content definition, and its equipment effect.
#[derive(Clone, Copy, Debug, PartialEq, Eq, Structural, Hash)]
pub struct Item {
    pub id: ItemId,
    pub definition: ItemDefinitionId,
    pub equipment_effect: Option<EquipmentEffect>,
}

/// What the presentation reads of one actor of the authoritative world.
#[derive(Clone, Debug, PartialEq, Eq)]
pub struct Actor {
    pub id: ActorId,
    pub kind: ActorKind,
    pub position: crate::geometry::Position,
    pub hit_points: i16,
    pub melee_reach: u8,
    pub ranged_ammo: u16,
    pub ready_at: u64,
    pub equipped_item: Option<ItemId>,
    pub alive: bool,
    pub inventory: Vec<Item>,
}

/// The items lying on one map cell, in stack order.
#[derive(Clone, Debug, PartialEq, Eq)]
pub struct GroundItemStack {
    pub position: crate::geometry::Position,
    pub items: Vec<Item>,
}

/// An immutable copy of the authoritative world, as the presentation reads it.
#[derive(Clone, Debug, PartialEq, Eq)]
pub struct PresentationSnapshot {
    pub map: TileMap,
    pub actors: Vec<Actor>,
    pub ground_items: Vec<GroundItemStack>,
    pub outcome: RunOutcome,
    pub current_time: u64,
    pub next_actor: Option<ActorId>,
}

} // verus!
