//! The compact JSON of a presentation snapshot, as journal payloads carry it.
//!
//! Members stand in the order the journal documents them; every name is a fixed ASCII word.

use vstd::prelude::*;

use crate::events::{push_signed, signed_decimal};
use crate::evidence::{member, position_json, quoted, spec_actor_kind_name, spec_outcome_name, spec_tile_name};
use crate::evidence::{actor_kind_name, outcome_name, push_position, tile_name};
use crate::text::{decimal, push_decimal};
use crate::world::{Actor, ActorId, EquipmentEffect, GroundItemStack, Item, ItemId, PresentationSnapshot, Tile};

verus! {

/// The texts of `parts` joined by commas.
pub open spec fn joined(parts: Seq<Seq<char>>) -> Seq<char>
    decreases parts.len(),
{
    if parts.len() == 0 {
        Seq::empty()
    } else if parts.len() == 1 {
        parts[0]
    } else {
        joined(parts.drop_last()) + ","@ + parts.last()
    }
}

/// A JSON array of the given element texts.
pub open spec fn array_json(parts: Seq<Seq<char>>) -> Seq<char> {
    "["@ + joined(parts) + "]"@
}

/// `true` or `false`.
pub open spec fn bool_json(b: bool) -> Seq<char> {
    if b {
        "true"@
    } else {
        "false"@
    }
}

/// The journal object of an equipment effect, or `null` for an item without one.
pub open spec fn equipment_effect_json(effect: Option<EquipmentEffect>) -> Seq<char> {
    match effect {
        Some(EquipmentEffect::MinimumMeleeReach { reach }) => "{"@ + member(
            "minimum_melee_reach"@,
            decimal(reach as nat),
        ) + "}"@,
        None => "null"@,
    }
}

/// `{"id":N,"definition":D,"equipment_effect":E}` for an item.
#[verifier::opaque]
pub open spec fn item_json(item: Item) -> Seq<char> {
    "{"@ + member("id"@, decimal(item.id.id as nat)) + ","@ + member(
        "definition"@,
        decimal(item.definition.id as nat),
    ) + ","@ + member("equipment_effect"@, equipment_effect_json(item.equipment_effect)) + "}"@
}

/// The journal array of a list of items, in list order.
pub open spec fn items_json(items: Seq<Item>) -> Seq<char> {
    array_json(items.map_values(|i: Item| item_json(i)))
}

/// `null`, or the identity number of the item.
pub open spec fn equipped_json(item: Option<ItemId>) -> Seq<char> {
    match item {
        Some(i) => decimal(i.id as nat),
        None => "null"@,
    }
}

/// `null`, or the identity number of the actor.
pub open spec fn next_actor_json(actor: Option<ActorId>) -> Seq<char> {
    match actor {
        Some(a) => decimal(a.id as nat),
        None => "null"@,
    }
}

/// The identity, kind, cell and hit points members of an actor's object.
pub open spec fn actor_head_json(a: Actor) -> Seq<char> {
    member("id"@, decimal(a.id.id as nat)) + ","@ + member("kind"@, quoted(spec_actor_kind_name(a.kind)))
        + ","@ + member("position"@, position_json(a.position)) + ","@ + member(
        "hit_points"@,
        signed_decimal(a.hit_points as int),
    )
}

/// The reach, ammunition, life and schedule members of an actor's object.
pub open spec fn actor_stats_json(a: Actor) -> Seq<char> {
    member("melee_reach"@, decimal(a.melee_reach as nat)) + ","@ + member(
        "ranged_ammo"@,
        decimal(a.ranged_ammo as nat),
    ) + ","@ + member("alive"@, bool_json(a.alive)) + ","@ + member("ready_at"@, decimal(a.ready_at as nat))
}

/// The equipment and inventory members of an actor's object.
pub open spec fn actor_gear_json(a: Actor) -> Seq<char> {
    member("equipped"@, equipped_json(a.equipped_item)) + ","@ + member("inventory"@, items_json(a.inventory@))
}

/// The journal object of an actor.
#[verifier::opaque]
pub open spec fn actor_json(a: Actor) -> Seq<char> {
    "{"@ + actor_head_json(a) + ","@ + actor_stats_json(a) + ","@ + actor_gear_json(a) + "}"@
}

/// The journal array of a list of actors, in list order.
pub open spec fn actors_json(actors: Seq<Actor>) -> Seq<char> {
    array_json(actors.map_values(|a: Actor| actor_json(a)))
}

/// The journal array of the tile names of a map, in storage order.
pub open spec fn tiles_json(tiles: Seq<Tile>) -> Seq<char> {
    array_json(tiles.map_values(|t: Tile| quoted(spec_tile_name(t))))
}

/// The journal object of the items on one cell.
#[verifier::opaque]
pub open spec fn stack_json(stack: GroundItemStack) -> Seq<char> {
    "{"@ + member("position"@, position_json(stack.position)) + ","@ + member("items"@, items_json(stack.items@))
        + "}"@
}

/// The journal array of the item stacks on the ground, in list order.
pub open spec fn stacks_json(stacks: Seq<GroundItemStack>) -> Seq<char> {
    array_json(stacks.map_values(|g: GroundItemStack| stack_json(g)))
}

/// The journal object of a snapshot's map.
#[verifier::opaque]
pub open spec fn map_json(s: PresentationSnapshot) -> Seq<char> {
    "{"@ + member("width"@, decimal(s.map.width as nat)) + ","@ + member("height"@, decimal(s.map.height as nat))
        + ","@ + member("tiles"@, tiles_json(s.map.tiles@)) + "}"@
}

/// The journal object of a snapshot's scheduler.
#[verifier::opaque]
pub open spec fn scheduler_json(s: PresentationSnapshot) -> Seq<char> {
    "{"@ + member("current_time"@, decimal(s.current_time as nat)) + ","@ + member(
        "next_actor"@,
        next_actor_json(s.next_actor),
    ) + "}"@
}

/// The journal object of a snapshot: map, outcome, actors, ground items and scheduler.
#[verifier::opaque]
pub open spec fn snapshot_json(s: PresentationSnapshot) -> Seq<char> {
    "{"@ + member("map"@, map_json(s)) + ","@ + member("outcome"@, quoted(spec_outcome_name(s.outcome)))
        + ","@ + member("actors"@, actors_json(s.actors@)) + ","@ + member(
        "ground_items"@,
        stacks_json(s.ground_items@),
    ) + ","@ + member("scheduler"@, scheduler_json(s)) + "}"@
}

/// A journal payload: the state after an action, its digests, and the action's own JSON text,
/// carried verbatim.
#[verifier::opaque]
pub open spec fn state_payload_json(s: PresentationSnapshot, state_digest: u64, replay_digest: u64, extra: Seq<char>) -> Seq<
    char,
> {
    "{"@ + member("state"@, snapshot_json(s)) + ","@ + member("state_digest"@, decimal(state_digest as nat)) + ","@
        + member("replay_digest"@, decimal(replay_digest as nat)) + ","@ + member("extra"@, extra) + "}"@
}

proof fn lemma_joined_push(parts: Seq<Seq<char>>, x: Seq<char>)
    ensures
        joined(parts.push(x)) == if parts.len() == 0 {
            x
        } else {
            joined(parts) + ","@ + x
        },
{
    assert(parts.push(x).drop_last() =~= parts);
}

fn push_bool(out: &mut String, b: bool)
    ensures
        final(out)@ == old(out)@ + bool_json(b),
{
    if b {
        out.append("true");
    } else {
        out.append("false");
    }
}

fn push_member_name(out: &mut String, name: &str)
    ensures
        final(out)@ == old(out)@ + quoted(name@) + ":"@,
{
    out.append("\"");
    out.append(name);
    out.append("\"");
    out.append(":");
    assert(final(out)@ =~= old(out)@ + quoted(name@) + ":"@);
}

fn push_number_member(out: &mut String, name: &str, n: u64)
    ensures
        final(out)@ == old(out)@ + member(name@, decimal(n as nat)),
{
    push_member_name(out, name);
    push_decimal(out, n);
    assert(final(out)@ =~= old(out)@ + member(name@, decimal(n as nat)));
}

fn push_equipment_effect(out: &mut String, effect: Option<EquipmentEffect>)
    ensures
        final(out)@ == old(out)@ + equipment_effect_json(effect),
{
    match effect {
        Some(EquipmentEffect::MinimumMeleeReach { reach }) => {
            out.append("{");
            push_number_member(out, "minimum_melee_reach", reach as u64);
            out.append("}");
        },
        None => out.append("null"),
    }
    assert(final(out)@ =~= old(out)@ + equipment_effect_json(effect));
}

fn push_item(out: &mut String, item: Item)
    ensures
        final(out)@ == old(out)@ + item_json(item),
{
    reveal(item_json);
    let ghost start = out@;
    out.append("{");
    push_number_member(out, "id", item.id.id as u64);
    out.append(",");
    push_number_member(out, "definition", item.definition.id as u64);
    out.append(",");
    let ghost mid = out@;
    push_member_name(out, "equipment_effect");
    push_equipment_effect(out, item.equipment_effect);
    assert(out@ =~= mid + member("equipment_effect"@, equipment_effect_json(item.equipment_effect)));
    out.append("}");
    assert(final(out)@ =~= start + item_json(item));
}

fn push_items(out: &mut String, items: &[Item])
    ensures
        final(out)@ == old(out)@ + items_json(items@),
{
    let ghost start = out@;
    out.append("[");
    let mut i: usize = 0;
    while i < items.len()
        invariant
            i <= items@.len(),
            out@ == start + "["@ + joined(items@.subrange(0, i as int).map_values(|it: Item| item_json(it))),
        decreases items@.len() - i,
    {
        let ghost parts = items@.subrange(0, i as int).map_values(|it: Item| item_json(it));
        proof {
            lemma_joined_push(parts, item_json(items@[i as int]));
            assert(items@.subrange(0, i + 1).map_values(|it: Item| item_json(it)) =~= parts.push(
                item_json(items@[i as int]),
            ));
        }
        if i > 0 {
            out.append(",");
        }
        push_item(out, items[i]);
        i += 1;
    }
    out.append("]");
    assert(items@.subrange(0, items@.len() as int) =~= items@);
    assert(final(out)@ =~= old(out)@ + items_json(items@));
}

/// Returns the journal object of an item.
pub fn item_value(item: Item) -> (r: String)
    ensures
        r@ == item_json(item),
{
    let mut out = String::new();
    push_item(&mut out, item);
    assert(out@ =~= item_json(item));
    out
}

fn push_quoted_name(out: &mut String, s: &str)
    ensures
        final(out)@ == old(out)@ + quoted(s@),
{
    out.append("\"");
    out.append(s);
    out.append("\"");
    assert(final(out)@ =~= old(out)@ + quoted(s@));
}

fn push_actor_head(out: &mut String, a: &Actor)
    ensures
        final(out)@ == old(out)@ + actor_head_json(*a),
{
    let ghost start = out@;
    push_number_member(out, "id", a.id.id as u64);
    out.append(",");
    let ghost s1 = out@;
    push_member_name(out, "kind");
    push_quoted_name(out, actor_kind_name(a.kind));
    assert(out@ =~= s1 + member("kind"@, quoted(spec_actor_kind_name(a.kind))));
    out.append(",");
    let ghost s2 = out@;
    push_member_name(out, "position");
    push_position(out, a.position);
    assert(out@ =~= s2 + member("position"@, position_json(a.position)));
    out.append(",");
    let ghost s3 = out@;
    push_member_name(out, "hit_points");
    push_signed(out, a.hit_points as i64);
    assert(out@ =~= s3 + member("hit_points"@, signed_decimal(a.hit_points as int)));
    assert(out@ =~= start + actor_head_json(*a));
}

fn push_actor_stats(out: &mut String, a: &Actor)
    ensures
        final(out)@ == old(out)@ + actor_stats_json(*a),
{
    let ghost start = out@;
    push_number_member(out, "melee_reach", a.melee_reach as u64);
    out.append(",");
    push_number_member(out, "ranged_ammo", a.ranged_ammo as u64);
    out.append(",");
    let ghost s1 = out@;
    push_member_name(out, "alive");
    push_bool(out, a.alive);
    assert(out@ =~= s1 + member("alive"@, bool_json(a.alive)));
    out.append(",");
    push_number_member(out, "ready_at", a.ready_at);
    assert(out@ =~= start + actor_stats_json(*a));
}

fn push_actor_gear(out: &mut String, a: &Actor)
    ensures
        final(out)@ == old(out)@ + actor_gear_json(*a),
{
    let ghost start = out@;
    push_member_name(out, "equipped");
    match a.equipped_item {
        Some(i) => push_decimal(out, i.id as u64),
        None => out.append("null"),
    }
    assert(out@ =~= start + member("equipped"@, equipped_json(a.equipped_item)));
    out.append(",");
    let ghost s1 = out@;
    push_member_name(out, "inventory");
    push_items(out, a.inventory.as_slice());
    assert(out@ =~= s1 + member("inventory"@, items_json(a.inventory@)));
    assert(out@ =~= start + actor_gear_json(*a));
}

fn push_actor(out: &mut String, a: &Actor)
    ensures
        final(out)@ == old(out)@ + actor_json(*a),
{
    reveal(actor_json);
    let ghost start = out@;
    out.append("{");
    push_actor_head(out, a);
    out.append(",");
    push_actor_stats(out, a);
    out.append(",");
    push_actor_gear(out, a);
    out.append("}");
    assert(out@ =~= start + actor_json(*a));
}

/// Returns the journal object of an actor.
pub fn actor_value(actor: &Actor) -> (r: String)
    ensures
        r@ == actor_json(*actor),
{
    let mut out = String::new();
    push_actor(&mut out, actor);
    assert(out@ =~= actor_json(*actor));
    out
}

fn push_actors(out: &mut String, actors: &[Actor])
    ensures
        final(out)@ == old(out)@ + actors_json(actors@),
{
    let ghost start = out@;
    out.append("[");
    let mut i: usize = 0;
    while i < actors.len()
        invariant
            i <= actors@.len(),
            out@ == start + "["@ + joined(actors@.subrange(0, i as int).map_values(|a: Actor| actor_json(a))),
        decreases actors@.len() - i,
    {
        let ghost parts = actors@.subrange(0, i as int).map_values(|a: Actor| actor_json(a));
        proof {
            lemma_joined_push(parts, actor_json(actors@[i as int]));
            assert(actors@.subrange(0, i + 1).map_values(|a: Actor| actor_json(a)) =~= parts.push(
                actor_json(actors@[i as int]),
            ));
        }
        if i > 0 {
            out.append(",");
        }
        push_actor(out, &actors[i]);
        i += 1;
    }
    out.append("]");
    assert(actors@.subrange(0, actors@.len() as int) =~= actors@);
    assert(final(out)@ =~= old(out)@ + actors_json(actors@));
}

fn push_tiles(out: &mut String, tiles: &[Tile])
    ensures
        final(out)@ == old(out)@ + tiles_json(tiles@),
{
    let ghost start = out@;
    out.append("[");
    let mut i: usize = 0;
    while i < tiles.len()
        invariant
            i <= tiles@.len(),
            out@ == start + "["@ + joined(
                tiles@.subrange(0, i as int).map_values(|t: Tile| quoted(spec_tile_name(t))),
            ),
        decreases tiles@.len() - i,
    {
        let ghost parts = tiles@.subrange(0, i as int).map_values(|t: Tile| quoted(spec_tile_name(t)));
        proof {
            lemma_joined_push(parts, quoted(spec_tile_name(tiles@[i as int])));
            assert(tiles@.subrange(0, i + 1).map_values(|t: Tile| quoted(spec_tile_name(t))) =~= parts.push(
                quoted(spec_tile_name(tiles@[i as int])),
            ));
        }
        if i > 0 {
            out.append(",");
        }
        push_quoted_name(out, tile_name(tiles[i]));
        i += 1;
    }
    out.append("]");
    assert(tiles@.subrange(0, tiles@.len() as int) =~= tiles@);
    assert(final(out)@ =~= old(out)@ + tiles_json(tiles@));
}

fn push_stack(out: &mut String, stack: &GroundItemStack)
    ensures
        final(out)@ == old(out)@ + stack_json(*stack),
{
    reveal(stack_json);
    let ghost start = out@;
    out.append("{");
    let ghost s1 = out@;
    push_member_name(out, "position");
    push_position(out, stack.position);
    assert(out@ =~= s1 + member("position"@, position_json(stack.position)));
    out.append(",");
    let ghost s2 = out@;
    push_member_name(out, "items");
    push_items(out, stack.items.as_slice());
    assert(out@ =~= s2 + member("items"@, items_json(stack.items@)));
    out.append("}");
    assert(out@ =~= start + stack_json(*stack));
}

fn push_stacks(out: &mut String, stacks: &[GroundItemStack])
    ensures
        final(out)@ == old(out)@ + stacks_json(stacks@),
{
    let ghost start = out@;
    out.append("[");
    let mut i: usize = 0;
    while i < stacks.len()
        invariant
            i <= stacks@.len(),
            out@ == start + "["@ + joined(
                stacks@.subrange(0, i as int).map_values(|g: GroundItemStack| stack_json(g)),
            ),
        decreases stacks@.len() - i,
    {
        let ghost parts = stacks@.subrange(0, i as int).map_values(|g: GroundItemStack| stack_json(g));
        proof {
            lemma_joined_push(parts, stack_json(stacks@[i as int]));
            assert(stacks@.subrange(0, i + 1).map_values(|g: GroundItemStack| stack_json(g)) =~= parts.push(
                stack_json(stacks@[i as int]),
            ));
        }
        if i > 0 {
            out.append(",");
        }
        push_stack(out, &stacks[i]);
        i += 1;
    }
    out.append("]");
    assert(stacks@.subrange(0, stacks@.len() as int) =~= stacks@);
    assert(final(out)@ =~= old(out)@ + stacks_json(stacks@));
}

fn push_map(out: &mut String, s: &PresentationSnapshot)
    ensures
        final(out)@ == old(out)@ + map_json(*s),
{
    reveal(map_json);
    let ghost start = out@;
    out.append("{");
    push_number_member(out, "width", s.map.width as u64);
    out.append(",");
    push_number_member(out, "height", s.map.height as u64);
    out.append(",");
    let ghost s1 = out@;
    push_member_name(out, "tiles");
    push_tiles(out, s.map.tiles.as_slice());
    assert(out@ =~= s1 + member("tiles"@, tiles_json(s.map.tiles@)));
    out.append("}");
    assert(out@ =~= start + map_json(*s));
}

fn push_scheduler(out: &mut String, s: &PresentationSnapshot)
    ensures
        final(out)@ == old(out)@ + scheduler_json(*s),
{
    reveal(scheduler_json);
    let ghost start = out@;
    out.append("{");
    push_number_member(out, "current_time", s.current_time);
    out.append(",");
    let ghost s1 = out@;
    push_member_name(out, "next_actor");
    match s.next_actor {
        Some(a) => push_decimal(out, a.id as u64),
        None => out.append("null"),
    }
    assert(out@ =~= s1 + member("next_actor"@, next_actor_json(s.next_actor)));
    out.append("}");
    assert(out@ =~= start + scheduler_json(*s));
}

/// Returns the journal object of a snapshot: its map, outcome, actors, ground items and
/// scheduler.
pub fn snapshot_value(snapshot: &PresentationSnapshot) -> (r: String)
    ensures
        r@ == snapshot_json(*snapshot),
{
    reveal(snapshot_json);
    let mut out = String::new();
    out.append("{");
    let ghost s0 = out@;
    push_member_name(&mut out, "map");
    push_map(&mut out, snapshot);
    assert(out@ =~= s0 + member("map"@, map_json(*snapshot)));
    out.append(",");
    let ghost s1 = out@;
    push_member_name(&mut out, "outcome");
    push_quoted_name(&mut out, outcome_name(snapshot.outcome));
    assert(out@ =~= s1 + member("outcome"@, quoted(spec_outcome_name(snapshot.outcome))));
    out.append(",");
    let ghost s2 = out@;
    push_member_name(&mut out, "actors");
    push_actors(&mut out, snapshot.actors.as_slice());
    assert(out@ =~= s2 + member("actors"@, actors_json(snapshot.actors@)));
    out.append(",");
    let ghost s3 = out@;
    push_member_name(&mut out, "ground_items");
    push_stacks(&mut out, snapshot.ground_items.as_slice());
    assert(out@ =~= s3 + member("ground_items"@, stacks_json(snapshot.ground_items@)));
    out.append(",");
    let ghost s4 = out@;
    push_member_name(&mut out, "scheduler");
    push_scheduler(&mut out, snapshot);
    assert(out@ =~= s4 + member("scheduler"@, scheduler_json(*snapshot)));
    out.append("}");
    assert(out@ =~= snapshot_json(*snapshot));
    out
}

/// Returns a journal payload: the snapshot's state, the two digests, and `extra`, which must
/// already be JSON text, unchanged.
pub fn state_payload(snapshot: &PresentationSnapshot, state_digest: u64, replay_digest: u64, extra: &str) -> (r: String)
    ensures
        r@ == state_payload_json(*snapshot, state_digest, replay_digest, extra@),
{
    reveal(state_payload_json);
    let state = snapshot_value(snapshot);
    let mut out = String::new();
    out.append("{");
    let ghost s0 = out@;
    push_member_name(&mut out, "state");
    out.append(state.as_str());
    assert(out@ =~= s0 + member("state"@, snapshot_json(*snapshot)));
    out.append(",");
    push_number_member(&mut out, "state_digest", state_digest);
    out.append(",");
    push_number_member(&mut out, "replay_digest", replay_digest);
    out.append(",");
    let ghost s1 = out@;
    push_member_name(&mut out, "extra");
    out.append(extra);
    assert(out@ =~= s1 + member("extra"@, extra@));
    out.append("}");
    assert(out@ =~= state_payload_json(*snapshot, state_digest, replay_digest, extra@));
    out
}

} // verus!
