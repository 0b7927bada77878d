//! Stable names and the compact JSON evidence of commands and events for the run journal.
//!
//! Every name here is a fixed ASCII word that needs no escaping, so a JSON string is the name
//! between two quotes.

use vstd::prelude::*;

use crate::events::{
    push_signed, showcase_event_name, signed_decimal, spec_event_name, AmmunitionResult, Event,
    HealingResult,
};
use crate::geometry::{Direction, Position};
use crate::input::Command;
use crate::text::{decimal, is_digit, lemma_cancel_prefix, lemma_decimal_then, push_decimal};
use crate::world::{ActorId, ActorKind, BlockReason, EnemyBehavior, ItemId, RunOutcome, Tile};

verus! {

/// The journal name of a tile.
pub open spec fn spec_tile_name(tile: Tile) -> Seq<char> {
    match tile {
        Tile::Floor => "floor"@,
        Tile::Cover => "cover"@,
        Tile::Wall => "wall"@,
        Tile::Door => "door"@,
        Tile::OpenDoor => "open_door"@,
        Tile::Breakable => "breakable"@,
        Tile::Trap => "trap"@,
        Tile::ChillTrap => "chill_trap"@,
        Tile::Stairs => "stairs"@,
    }
}

/// Returns the journal name of a tile.
pub fn tile_name(tile: Tile) -> (r: &'static str)
    ensures
        r@ == spec_tile_name(tile),
{
    match tile {
        Tile::Floor => "floor",
        Tile::Cover => "cover",
        Tile::Wall => "wall",
        Tile::Door => "door",
        Tile::OpenDoor => "open_door",
        Tile::Breakable => "breakable",
        Tile::Trap => "trap",
        Tile::ChillTrap => "chill_trap",
        Tile::Stairs => "stairs",
    }
}

/// The journal name of an actor kind.
pub open spec fn spec_actor_kind_name(kind: ActorKind) -> Seq<char> {
    match kind {
        ActorKind::Player => "player"@,
        ActorKind::Enemy => "enemy"@,
    }
}

/// Returns the journal name of an actor kind.
pub fn actor_kind_name(kind: ActorKind) -> (r: &'static str)
    ensures
        r@ == spec_actor_kind_name(kind),
{
    match kind {
        ActorKind::Player => "player",
        ActorKind::Enemy => "enemy",
    }
}

/// The journal name of a run outcome.
pub open spec fn spec_outcome_name(outcome: RunOutcome) -> Seq<char> {
    match outcome {
        RunOutcome::InProgress => "in_progress"@,
        RunOutcome::Defeat => "defeat"@,
        RunOutcome::Victory => "victory"@,
    }
}

/// Returns the journal name of a run outcome.
pub fn outcome_name(outcome: RunOutcome) -> (r: &'static str)
    ensures
        r@ == spec_outcome_name(outcome),
{
    match outcome {
        RunOutcome::InProgress => "in_progress",
        RunOutcome::Defeat => "defeat",
        RunOutcome::Victory => "victory",
    }
}

/// The journal name of a direction.
pub open spec fn spec_direction_name(direction: Direction) -> Seq<char> {
    match direction {
        Direction::North => "north"@,
        Direction::South => "south"@,
        Direction::West => "west"@,
        Direction::East => "east"@,
    }
}

/// Returns the journal name of a direction.
pub fn direction_name(direction: Direction) -> (r: &'static str)
    ensures
        r@ == spec_direction_name(direction),
{
    match direction {
        Direction::North => "north",
        Direction::South => "south",
        Direction::West => "west",
        Direction::East => "east",
    }
}

/// The journal kind name of a command.
pub open spec fn spec_command_name(command: Command) -> Seq<char> {
    match command {
        Command::Move { .. } => "move"@,
        Command::Wait { .. } => "wait"@,
        Command::Interact { .. } => "interact"@,
        Command::Break { .. } => "break"@,
        Command::Kick { .. } => "kick"@,
        Command::Attack { .. } => "attack"@,
        Command::RangedAttack { .. } => "ranged_attack"@,
        Command::Throw { .. } => "throw"@,
        Command::Chase { .. } => "chase"@,
        Command::Investigate { .. } => "investigate"@,
        Command::Equip { .. } => "equip"@,
        Command::Unequip { .. } => "unequip"@,
        Command::UseItem { .. } => "use_item"@,
        Command::Pickup { .. } => "pickup"@,
        Command::Drop { .. } => "drop"@,
        Command::Reload { .. } => "reload"@,
    }
}

/// Returns the journal kind name of a command.
pub fn command_name(command: Command) -> (r: &'static str)
    ensures
        r@ == spec_command_name(command),
{
    match command {
        Command::Move { .. } => "move",
        Command::Wait { .. } => "wait",
        Command::Interact { .. } => "interact",
        Command::Break { .. } => "break",
        Command::Kick { .. } => "kick",
        Command::Attack { .. } => "attack",
        Command::RangedAttack { .. } => "ranged_attack",
        Command::Throw { .. } => "throw",
        Command::Chase { .. } => "chase",
        Command::Investigate { .. } => "investigate",
        Command::Equip { .. } => "equip",
        Command::Unequip { .. } => "unequip",
        Command::UseItem { .. } => "use_item",
        Command::Pickup { .. } => "pickup",
        Command::Drop { .. } => "drop",
        Command::Reload { .. } => "reload",
    }
}

/// A JSON string holding `s`.
pub open spec fn quoted(s: Seq<char>) -> Seq<char> {
    "\""@ + s + "\""@
}

/// One JSON object member: the quoted name, a colon, and the value text.
pub open spec fn member(name: Seq<char>, value: Seq<char>) -> Seq<char> {
    quoted(name) + ":"@ + value
}

/// The `"kind"` member naming what an object describes.
pub open spec fn kind_member(kind: Seq<char>) -> Seq<char> {
    member("kind"@, quoted(kind))
}

/// A member whose value is an identity number.
pub open spec fn id_member(name: Seq<char>, id: u32) -> Seq<char> {
    member(name, decimal(id as nat))
}

/// `{"x":X,"y":Y}` for a position.
pub open spec fn position_json(p: Position) -> Seq<char> {
    "{"@ + member("x"@, signed_decimal(p.x as int)) + ","@ + member("y"@, signed_decimal(p.y as int))
        + "}"@
}

/// `{"kind":"terrain"}`, or `{"kind":"actor","actor":N}` for the blocking actor.
pub open spec fn block_reason_json(reason: BlockReason) -> Seq<char> {
    match reason {
        BlockReason::Terrain => "{"@ + kind_member("terrain"@) + "}"@,
        BlockReason::Actor(actor) => "{"@ + kind_member("actor"@) + ","@ + id_member(
            "actor"@,
            actor.id,
        ) + "}"@,
    }
}

/// The object of a command that names only its actor.
pub open spec fn actor_object(kind: Seq<char>, actor: ActorId) -> Seq<char> {
    "{"@ + kind_member(kind) + ","@ + id_member("actor"@, actor.id) + "}"@
}

/// The object of a command or event with an actor and one more member.
pub open spec fn actor_object_with(kind: Seq<char>, actor: ActorId, extra: Seq<char>) -> Seq<
    char,
> {
    "{"@ + kind_member(kind) + ","@ + id_member("actor"@, actor.id) + ","@ + extra + "}"@
}

/// The journal object of a command: its kind, its actor, and what it acts on.
pub open spec fn spec_command_json(command: Command) -> Seq<char> {
    let kind = spec_command_name(command);
    match command {
        Command::Move { actor, direction } => actor_object_with(
            kind,
            actor,
            member("direction"@, quoted(spec_direction_name(direction))),
        ),
        Command::Wait { actor } => actor_object(kind, actor),
        Command::Interact { actor, position } => actor_object_with(
            kind,
            actor,
            member("position"@, position_json(position)),
        ),
        Command::Break { actor, position } => actor_object_with(
            kind,
            actor,
            member("position"@, position_json(position)),
        ),
        Command::Kick { actor, position } => actor_object_with(
            kind,
            actor,
            member("position"@, position_json(position)),
        ),
        Command::Attack { actor, target } => actor_object_with(
            kind,
            actor,
            id_member("target"@, target.id),
        ),
        Command::RangedAttack { actor, target } => actor_object_with(
            kind,
            actor,
            id_member("target"@, target.id),
        ),
        Command::Throw { actor, item, target } => actor_object_with(
            kind,
            actor,
            id_member("item"@, item.id) + ","@ + id_member("target"@, target.id),
        ),
        Command::Chase { actor, target } => actor_object_with(
            kind,
            actor,
            id_member("target"@, target.id),
        ),
        Command::Investigate { actor, position } => actor_object_with(
            kind,
            actor,
            member("position"@, position_json(position)),
        ),
        Command::Equip { actor, item } => actor_object_with(kind, actor, id_member("item"@, item.id)),
        Command::Unequip { actor } => actor_object(kind, actor),
        Command::UseItem { actor, item } => actor_object_with(
            kind,
            actor,
            id_member("item"@, item.id),
        ),
        Command::Pickup { actor, item } => actor_object_with(kind, actor, id_member("item"@, item.id)),
        Command::Drop { actor, item } => actor_object_with(kind, actor, id_member("item"@, item.id)),
        Command::Reload { actor } => actor_object(kind, actor),
    }
}

proof fn lemma_one_id(p: Seq<char>, a1: nat, a2: nat)
    requires
        p + decimal(a1) + "}"@ == p + decimal(a2) + "}"@,
    ensures
        a1 == a2,
{
    reveal_strlit("}");
    assert(p + decimal(a1) + "}"@ =~= p + (decimal(a1) + "}"@));
    assert(p + decimal(a2) + "}"@ =~= p + (decimal(a2) + "}"@));
    lemma_cancel_prefix(p, decimal(a1) + "}"@, decimal(a2) + "}"@);
    assert(!is_digit("}"@[0]));
    lemma_decimal_then(a1, "}"@, a2, "}"@);
}

#[verifier::rlimit(80)]
proof fn lemma_two_ids(p: Seq<char>, q: Seq<char>, a1: nat, b1: nat, a2: nat, b2: nat)
    requires
        p + decimal(a1) + ","@ + q + decimal(b1) + "}"@ == p + decimal(a2) + ","@ + q + decimal(b2) + "}"@,
    ensures
        a1 == a2,
        b1 == b2,
{
    reveal_strlit(",");
    let y1 = ","@ + q + decimal(b1) + "}"@;
    let y2 = ","@ + q + decimal(b2) + "}"@;
    assert(p + decimal(a1) + ","@ + q + decimal(b1) + "}"@ =~= p + (decimal(a1) + y1));
    assert(p + decimal(a2) + ","@ + q + decimal(b2) + "}"@ =~= p + (decimal(a2) + y2));
    lemma_cancel_prefix(p, decimal(a1) + y1, decimal(a2) + y2);
    assert(!is_digit(y1[0]) && !is_digit(y2[0]));
    lemma_decimal_then(a1, y1, a2, y2);
    assert(y1 =~= (","@ + q) + decimal(b1) + "}"@);
    assert(y2 =~= (","@ + q) + decimal(b2) + "}"@);
    lemma_one_id(","@ + q, b1, b2);
}

#[verifier::rlimit(80)]
proof fn lemma_three_ids(
    p: Seq<char>,
    q: Seq<char>,
    r: Seq<char>,
    a1: nat,
    b1: nat,
    c1: nat,
    a2: nat,
    b2: nat,
    c2: nat,
)
    requires
        p + decimal(a1) + ","@ + q + decimal(b1) + ","@ + r + decimal(c1) + "}"@ == p + decimal(a2) + ","@ + q
            + decimal(b2) + ","@ + r + decimal(c2) + "}"@,
    ensures
        a1 == a2,
        b1 == b2,
        c1 == c2,
{
    reveal_strlit(",");
    let y1 = ","@ + q + decimal(b1) + ","@ + r + decimal(c1) + "}"@;
    let y2 = ","@ + q + decimal(b2) + ","@ + r + decimal(c2) + "}"@;
    assert(p + decimal(a1) + ","@ + q + decimal(b1) + ","@ + r + decimal(c1) + "}"@ =~= p + (decimal(a1) + y1));
    assert(p + decimal(a2) + ","@ + q + decimal(b2) + ","@ + r + decimal(c2) + "}"@ =~= p + (decimal(a2) + y2));
    lemma_cancel_prefix(p, decimal(a1) + y1, decimal(a2) + y2);
    assert(!is_digit(y1[0]) && !is_digit(y2[0]));
    lemma_decimal_then(a1, y1, a2, y2);
    assert(y1 =~= (","@ + q) + decimal(b1) + ","@ + r + decimal(c1) + "}"@);
    assert(y2 =~= (","@ + q) + decimal(b2) + ","@ + r + decimal(c2) + "}"@);
    lemma_two_ids(","@ + q, r, b1, c1, b2, c2);
}

/// `"target":`.
spec fn target_label() -> Seq<char> {
    quoted("target"@) + ":"@
}

/// `"item":`.
spec fn item_label() -> Seq<char> {
    quoted("item"@) + ":"@
}

/// The prefix of a command's journal object up to its actor id.
spec fn head_of(c: Command) -> Seq<char> {
    "{"@ + kind_member(spec_command_name(c)) + ","@ + quoted("actor"@) + ":"@
}

#[verifier::rlimit(80)]
proof fn lemma_json_shape(c: Command)
    ensures
        match c {
            Command::Attack { actor, target } | Command::RangedAttack { actor, target }
            | Command::Chase { actor, target } => spec_command_json(c) == head_of(c) + decimal(actor.id as nat) + ","@
                + target_label() + decimal(target.id as nat) + "}"@,
            Command::Throw { actor, item, target } => spec_command_json(c) == head_of(c) + decimal(actor.id as nat)
                + ","@ + item_label() + decimal(item.id as nat) + ","@ + target_label()
                + decimal(target.id as nat) + "}"@,
            Command::Equip { actor, item } | Command::UseItem { actor, item } | Command::Pickup { actor, item }
            | Command::Drop { actor, item } => spec_command_json(c) == head_of(c) + decimal(actor.id as nat) + ","@
                + item_label() + decimal(item.id as nat) + "}"@,
            Command::Wait { actor } | Command::Unequip { actor } | Command::Reload { actor } => spec_command_json(c)
                == head_of(c) + decimal(actor.id as nat) + "}"@,
            _ => true,
        },
{
    match c {
        Command::Attack { actor, target } | Command::RangedAttack { actor, target }
        | Command::Chase { actor, target } => {
            assert(spec_command_json(c) =~= head_of(c) + decimal(actor.id as nat) + ","@ + target_label()
                + decimal(target.id as nat) + "}"@);
        },
        Command::Throw { actor, item, target } => {
            assert(spec_command_json(c) =~= head_of(c) + decimal(actor.id as nat) + ","@ + item_label()
                + decimal(item.id as nat) + ","@ + target_label() + decimal(target.id as nat) + "}"@);
        },
        Command::Equip { actor, item } | Command::UseItem { actor, item } | Command::Pickup { actor, item }
        | Command::Drop { actor, item } => {
            assert(spec_command_json(c) =~= head_of(c) + decimal(actor.id as nat) + ","@ + item_label()
                + decimal(item.id as nat) + "}"@);
        },
        Command::Wait { actor } | Command::Unequip { actor } | Command::Reload { actor } => {
            assert(spec_command_json(c) =~= head_of(c) + decimal(actor.id as nat) + "}"@);
        },
        _ => {},
    }
}

/// The journal object of a command gives back the ids it was written from: two commands of
/// one kind with the same journal object have the same actor, and the same target and item
/// wherever the kind carries them.
#[verifier::rlimit(80)]
pub proof fn lemma_command_json_ids(c1: Command, c2: Command)
    requires
        spec_command_json(c1) == spec_command_json(c2),
    ensures
        match (c1, c2) {
            (Command::Attack { actor: a1, target: t1 }, Command::Attack { actor: a2, target: t2 }) => a1 == a2
                && t1 == t2,
            (Command::RangedAttack { actor: a1, target: t1 }, Command::RangedAttack { actor: a2, target: t2 }) => a1
                == a2 && t1 == t2,
            (Command::Chase { actor: a1, target: t1 }, Command::Chase { actor: a2, target: t2 }) => a1 == a2 && t1
                == t2,
            (Command::Throw { actor: a1, item: i1, target: t1 }, Command::Throw { actor: a2, item: i2, target: t2 }) => a1
                == a2 && i1 == i2 && t1 == t2,
            (Command::Equip { actor: a1, item: i1 }, Command::Equip { actor: a2, item: i2 }) => a1 == a2 && i1 == i2,
            (Command::UseItem { actor: a1, item: i1 }, Command::UseItem { actor: a2, item: i2 }) => a1 == a2 && i1
                == i2,
            (Command::Pickup { actor: a1, item: i1 }, Command::Pickup { actor: a2, item: i2 }) => a1 == a2 && i1 == i2,
            (Command::Drop { actor: a1, item: i1 }, Command::Drop { actor: a2, item: i2 }) => a1 == a2 && i1 == i2,
            (Command::Wait { actor: a1 }, Command::Wait { actor: a2 }) => a1 == a2,
            (Command::Unequip { actor: a1 }, Command::Unequip { actor: a2 }) => a1 == a2,
            (Command::Reload { actor: a1 }, Command::Reload { actor: a2 }) => a1 == a2,
            _ => true,
        },
{
    lemma_json_shape(c1);
    lemma_json_shape(c2);
    match (c1, c2) {
        (Command::Attack { actor: a1, target: t1 }, Command::Attack { actor: a2, target: t2 })
        | (Command::RangedAttack { actor: a1, target: t1 }, Command::RangedAttack { actor: a2, target: t2 })
        | (Command::Chase { actor: a1, target: t1 }, Command::Chase { actor: a2, target: t2 }) => {
            lemma_two_ids(head_of(c1), target_label(), a1.id as nat, t1.id as nat, a2.id as nat, t2.id as nat);
        },
        (Command::Throw { actor: a1, item: i1, target: t1 }, Command::Throw { actor: a2, item: i2, target: t2 }) => {
            lemma_three_ids(
                head_of(c1),
                item_label(),
                target_label(),
                a1.id as nat,
                i1.id as nat,
                t1.id as nat,
                a2.id as nat,
                i2.id as nat,
                t2.id as nat,
            );
        },
        (Command::Equip { actor: a1, item: i1 }, Command::Equip { actor: a2, item: i2 })
        | (Command::UseItem { actor: a1, item: i1 }, Command::UseItem { actor: a2, item: i2 })
        | (Command::Pickup { actor: a1, item: i1 }, Command::Pickup { actor: a2, item: i2 })
        | (Command::Drop { actor: a1, item: i1 }, Command::Drop { actor: a2, item: i2 }) => {
            lemma_two_ids(head_of(c1), item_label(), a1.id as nat, i1.id as nat, a2.id as nat, i2.id as nat);
        },
        (Command::Wait { actor: a1 }, Command::Wait { actor: a2 })
        | (Command::Unequip { actor: a1 }, Command::Unequip { actor: a2 })
        | (Command::Reload { actor: a1 }, Command::Reload { actor: a2 }) => {
            lemma_one_id(head_of(c1), a1.id as nat, a2.id as nat);
        },
        _ => {},
    }
}

/// `,"from":{..},"to":{..}` for a step between two positions.
pub open spec fn step_members(from: Position, to: Position) -> Seq<char> {
    member("from"@, position_json(from)) + ","@ + member("to"@, position_json(to))
}

/// `null`, or the healing evidence of a consumed item.
pub open spec fn healing_json(healing: Option<HealingResult>) -> Seq<char> {
    match healing {
        Some(h) => "{"@ + member("amount"@, decimal(h.amount as nat)) + ","@ + member(
            "remaining_hit_points"@,
            signed_decimal(h.remaining_hit_points as int),
        ) + "}"@,
        None => "null"@,
    }
}

/// `null`, or the ammunition evidence of a consumed item.
pub open spec fn ammunition_json(ammunition: Option<AmmunitionResult>) -> Seq<char> {
    match ammunition {
        Some(a) => "{"@ + member("amount"@, decimal(a.amount as nat)) + ","@ + member(
            "remaining_ammunition"@,
            decimal(a.remaining_ammunition as nat),
        ) + "}"@,
        None => "null"@,
    }
}

/// The journal object of an event: its kind and every field it carries.
pub open spec fn spec_event_json(event: Event) -> Seq<char> {
    let kind = spec_event_name(event);
    match event {
        Event::Moved { actor, from, to } => actor_object_with(kind, actor, step_members(from, to)),
        Event::MovementBlocked { actor, from, to, reason } => actor_object_with(
            kind,
            actor,
            step_members(from, to) + ","@ + member("reason"@, block_reason_json(reason)),
        ),
        Event::Waited { actor, at } => actor_object_with(kind, actor, member("at"@, decimal(at as nat))),
        Event::DoorOpened { actor, position } => actor_object_with(
            kind,
            actor,
            member("position"@, position_json(position)),
        ),
        Event::NoiseCreated { actor, position, radius } => actor_object_with(
            kind,
            actor,
            member("position"@, position_json(position)) + ","@ + member(
                "radius"@,
                decimal(radius as nat),
            ),
        ),
        Event::BreakableBroken { actor, position } => actor_object_with(
            kind,
            actor,
            member("position"@, position_json(position)),
        ),
        Event::TrapTriggered { actor, position, damage, remaining_hit_points } => actor_object_with(
            kind,
            actor,
            member("position"@, position_json(position)) + ","@ + member(
                "damage"@,
                decimal(damage as nat),
            ) + ","@ + member("remaining_hit_points"@, signed_decimal(remaining_hit_points as int)),
        ),
        Event::Attacked { attacker, target, damage, remaining_hit_points } => "{"@ + kind_member(
            kind,
        ) + ","@ + id_member("attacker"@, attacker.id) + ","@ + id_member("target"@, target.id)
            + ","@ + member("damage"@, decimal(damage as nat)) + ","@ + member(
            "remaining_hit_points"@,
            signed_decimal(remaining_hit_points as int),
        ) + "}"@,
        Event::Died { actor } => actor_object(kind, actor),
        Event::ItemEquipped { actor, item } => actor_object_with(
            kind,
            actor,
            id_member("item"@, item.id),
        ),
        Event::ItemUnequipped { actor, item } => actor_object_with(
            kind,
            actor,
            id_member("item"@, item.id),
        ),
        Event::ItemConsumed { actor, item, healing, ammunition } => actor_object_with(
            kind,
            actor,
            id_member("item"@, item.id) + ","@ + member("healing"@, healing_json(healing)) + ","@
                + member("ammunition"@, ammunition_json(ammunition)),
        ),
        Event::ItemPickedUp { actor, item } => actor_object_with(
            kind,
            actor,
            id_member("item"@, item.id),
        ),
        Event::ItemDropped { actor, item } => actor_object_with(
            kind,
            actor,
            id_member("item"@, item.id),
        ),
        Event::Reloaded { actor, ammunition } => actor_object_with(
            kind,
            actor,
            member("ammunition"@, decimal(ammunition as nat)),
        ),
    }
}

/// `"name":`.
spec fn label(name: Seq<char>) -> Seq<char> {
    quoted(name) + ":"@
}

/// The prefix of an event's journal object up to its first id.
spec fn event_head(e: Event) -> Seq<char> {
    "{"@ + kind_member(spec_event_name(e)) + ","@ + match e {
        Event::Attacked { .. } => label("attacker"@),
        _ => label("actor"@),
    }
}

proof fn lemma_num_then(p: Seq<char>, a1: nat, y1: Seq<char>, a2: nat, y2: Seq<char>)
    requires
        p + decimal(a1) + y1 == p + decimal(a2) + y2,
        y1.len() > 0,
        y2.len() > 0,
        !is_digit(y1[0]),
        !is_digit(y2[0]),
    ensures
        a1 == a2,
        y1 == y2,
{
    assert(p + decimal(a1) + y1 =~= p + (decimal(a1) + y1));
    assert(p + decimal(a2) + y2 =~= p + (decimal(a2) + y2));
    lemma_cancel_prefix(p, decimal(a1) + y1, decimal(a2) + y2);
    lemma_decimal_then(a1, y1, a2, y2);
}

proof fn lemma_comma_first(rest: Seq<char>)
    ensures
        (","@ + rest).len() > 0,
        !is_digit((","@ + rest)[0]),
{
    reveal_strlit(",");
}

proof fn lemma_brace_first()
    ensures
        "}"@.len() > 0,
        !is_digit("}"@[0]),
{
    reveal_strlit("}");
}

proof fn lemma_event_json_shape_0(e: Event)
    requires
        e is Died,
    ensures
        match e {
            Event::Died { actor } => spec_event_json(e) == event_head(e) + decimal(actor.id as nat) + "}"@,
            _ => true,
        },
{
    match e {
        Event::Died { actor } => {
            assert(spec_event_json(e) =~= event_head(e) + decimal(actor.id as nat) + "}"@);
        },
        _ => {},
    }
}

proof fn lemma_event_json_shape_1(e: Event)
    requires
        e is ItemEquipped || e is ItemUnequipped || e is ItemPickedUp || e is ItemDropped,
    ensures
        match e {
            Event::ItemEquipped { actor, item } | Event::ItemUnequipped { actor, item }
            | Event::ItemPickedUp { actor, item } | Event::ItemDropped { actor, item } => spec_event_json(e)
                == event_head(e) + decimal(actor.id as nat) + (","@ + label("item"@) + decimal(item.id as nat)
                + "}"@),
            _ => true,
        },
{
    match e {
        Event::ItemEquipped { actor, item } | Event::ItemUnequipped { actor, item }
        | Event::ItemPickedUp { actor, item } | Event::ItemDropped { actor, item } => {
            assert(spec_event_json(e) =~= event_head(e) + decimal(actor.id as nat) + (","@ + label("item"@) + decimal(
                item.id as nat,
            ) + "}"@));
        },
        _ => {},
    }
}

proof fn lemma_event_json_shape_2(e: Event)
    requires
        e is Waited,
    ensures
        match e {
            Event::Waited { actor, at } => spec_event_json(e) == event_head(e) + decimal(actor.id as nat) + (","@
                + label("at"@) + decimal(at as nat) + "}"@),
            _ => true,
        },
{
    match e {
        Event::Waited { actor, at } => {
            assert(spec_event_json(e) =~= event_head(e) + decimal(actor.id as nat) + (","@ + label("at"@) + decimal(
                at as nat,
            ) + "}"@));
        },
        _ => {},
    }
}

proof fn lemma_event_json_shape_3(e: Event)
    requires
        e is Reloaded,
    ensures
        match e {
            Event::Reloaded { actor, ammunition } => spec_event_json(e) == event_head(e) + decimal(actor.id as nat)
                + (","@ + label("ammunition"@) + decimal(ammunition as nat) + "}"@),
            _ => true,
        },
{
    match e {
        Event::Reloaded { actor, ammunition } => {
            assert(spec_event_json(e) =~= event_head(e) + decimal(actor.id as nat) + (","@ + label("ammunition"@)
                + decimal(ammunition as nat) + "}"@));
        },
        _ => {},
    }
}

proof fn lemma_event_json_shape_4(e: Event)
    requires
        e is ItemConsumed,
    ensures
        match e {
            Event::ItemConsumed { actor, item, healing, ammunition } => spec_event_json(e) == event_head(e)
                + decimal(actor.id as nat) + (","@ + label("item"@) + decimal(item.id as nat) + (","@ + member(
                "healing"@,
                healing_json(healing),
            ) + ","@ + member("ammunition"@, ammunition_json(ammunition)) + "}"@)),
            _ => true,
        },
{
    match e {
        Event::ItemConsumed { actor, item, healing, ammunition } => {
            assert(spec_event_json(e) =~= event_head(e) + decimal(actor.id as nat) + (","@ + label("item"@) + decimal(
                item.id as nat,
            ) + (","@ + member("healing"@, healing_json(healing)) + ","@ + member(
                "ammunition"@,
                ammunition_json(ammunition),
            ) + "}"@)));
        },
        _ => {},
    }
}

proof fn lemma_event_json_shape_5(e: Event)
    requires
        e is Attacked,
    ensures
        match e {
            Event::Attacked { attacker, target, damage, remaining_hit_points } => spec_event_json(e) == event_head(e)
                + decimal(attacker.id as nat) + (","@ + label("target"@) + decimal(target.id as nat) + (","@ + label(
                "damage"@,
            ) + decimal(damage as nat) + (","@ + member(
                "remaining_hit_points"@,
                signed_decimal(remaining_hit_points as int),
            ) + "}"@))),
            _ => true,
        },
{
    match e {
        Event::Attacked { attacker, target, damage, remaining_hit_points } => {
            assert(spec_event_json(e) =~= event_head(e) + decimal(attacker.id as nat) + (","@ + label("target"@)
                + decimal(target.id as nat) + (","@ + label("damage"@) + decimal(damage as nat) + (","@ + member(
                "remaining_hit_points"@,
                signed_decimal(remaining_hit_points as int),
            ) + "}"@))));
        },
        _ => {},
    }
}

proof fn lemma_event_json_shape(e: Event)
    ensures
        match e {
            Event::Died { actor } => spec_event_json(e) == event_head(e) + decimal(actor.id as nat) + "}"@,
            Event::ItemEquipped { actor, item } | Event::ItemUnequipped { actor, item }
            | Event::ItemPickedUp { actor, item } | Event::ItemDropped { actor, item } => spec_event_json(e)
                == event_head(e) + decimal(actor.id as nat) + (","@ + label("item"@) + decimal(item.id as nat)
                + "}"@),
            Event::Waited { actor, at } => spec_event_json(e) == event_head(e) + decimal(actor.id as nat) + (","@
                + label("at"@) + decimal(at as nat) + "}"@),
            Event::Reloaded { actor, ammunition } => spec_event_json(e) == event_head(e) + decimal(actor.id as nat)
                + (","@ + label("ammunition"@) + decimal(ammunition as nat) + "}"@),
            Event::ItemConsumed { actor, item, healing, ammunition } => spec_event_json(e) == event_head(e)
                + decimal(actor.id as nat) + (","@ + label("item"@) + decimal(item.id as nat) + (","@ + member(
                "healing"@,
                healing_json(healing),
            ) + ","@ + member("ammunition"@, ammunition_json(ammunition)) + "}"@)),
            Event::Attacked { attacker, target, damage, remaining_hit_points } => spec_event_json(e) == event_head(e)
                + decimal(attacker.id as nat) + (","@ + label("target"@) + decimal(target.id as nat) + (","@ + label(
                "damage"@,
            ) + decimal(damage as nat) + (","@ + member(
                "remaining_hit_points"@,
                signed_decimal(remaining_hit_points as int),
            ) + "}"@))),
            _ => true,
        },
{
    if e is Died {
        lemma_event_json_shape_0(e);
    }
    if e is ItemEquipped || e is ItemUnequipped || e is ItemPickedUp || e is ItemDropped {
        lemma_event_json_shape_1(e);
    }
    if e is Waited {
        lemma_event_json_shape_2(e);
    }
    if e is Reloaded {
        lemma_event_json_shape_3(e);
    }
    if e is ItemConsumed {
        lemma_event_json_shape_4(e);
    }
    if e is Attacked {
        lemma_event_json_shape_5(e);
    }
}

/// The journal object of an event gives back the ids and counts it was written from: two
/// events of one kind with the same journal object have the same actor (or attacker and
/// target), item, time, ammunition and damage wherever the kind carries them.
pub proof fn lemma_event_json_ids(e1: Event, e2: Event)
    requires
        spec_event_json(e1) == spec_event_json(e2),
    ensures
        match (e1, e2) {
            (Event::Died { actor: a1 }, Event::Died { actor: a2 }) => a1 == a2,
            (Event::ItemEquipped { actor: a1, item: i1 }, Event::ItemEquipped { actor: a2, item: i2 }) => a1 == a2
                && i1 == i2,
            (Event::ItemUnequipped { actor: a1, item: i1 }, Event::ItemUnequipped { actor: a2, item: i2 }) => a1
                == a2 && i1 == i2,
            (Event::ItemPickedUp { actor: a1, item: i1 }, Event::ItemPickedUp { actor: a2, item: i2 }) => a1 == a2
                && i1 == i2,
            (Event::ItemDropped { actor: a1, item: i1 }, Event::ItemDropped { actor: a2, item: i2 }) => a1 == a2
                && i1 == i2,
            (Event::ItemConsumed { actor: a1, item: i1, .. }, Event::ItemConsumed { actor: a2, item: i2, .. }) => a1
                == a2 && i1 == i2,
            (Event::Waited { actor: a1, at: t1 }, Event::Waited { actor: a2, at: t2 }) => a1 == a2 && t1 == t2,
            (Event::Reloaded { actor: a1, ammunition: n1 }, Event::Reloaded { actor: a2, ammunition: n2 }) => a1 == a2
                && n1 == n2,
            (
                Event::Attacked { attacker: a1, target: t1, damage: d1, .. },
                Event::Attacked { attacker: a2, target: t2, damage: d2, .. },
            ) => a1 == a2 && t1 == t2 && d1 == d2,
            _ => true,
        },
{
    lemma_event_json_shape(e1);
    lemma_event_json_shape(e2);
    lemma_brace_first();
    match (e1, e2) {
        (Event::Died { actor: a1 }, Event::Died { actor: a2 }) => {
            lemma_num_then(event_head(e1), a1.id as nat, "}"@, a2.id as nat, "}"@);
        },
        (Event::ItemEquipped { actor: a1, item: i1 }, Event::ItemEquipped { actor: a2, item: i2 })
        | (Event::ItemUnequipped { actor: a1, item: i1 }, Event::ItemUnequipped { actor: a2, item: i2 })
        | (Event::ItemPickedUp { actor: a1, item: i1 }, Event::ItemPickedUp { actor: a2, item: i2 })
        | (Event::ItemDropped { actor: a1, item: i1 }, Event::ItemDropped { actor: a2, item: i2 }) => {
            let q = ","@ + label("item"@);
            lemma_comma_first(label("item"@) + decimal(i1.id as nat) + "}"@);
            lemma_comma_first(label("item"@) + decimal(i2.id as nat) + "}"@);
            assert(q + decimal(i1.id as nat) + "}"@ =~= ","@ + (label("item"@) + decimal(i1.id as nat) + "}"@));
            assert(q + decimal(i2.id as nat) + "}"@ =~= ","@ + (label("item"@) + decimal(i2.id as nat) + "}"@));
            lemma_num_then(
                event_head(e1),
                a1.id as nat,
                q + decimal(i1.id as nat) + "}"@,
                a2.id as nat,
                q + decimal(i2.id as nat) + "}"@,
            );
            lemma_num_then(q, i1.id as nat, "}"@, i2.id as nat, "}"@);
        },
        _ => {
            lemma_event_json_ids_rest(e1, e2);
        },
    }
}

proof fn lemma_event_ids_itemconsumed(e1: Event, e2: Event)
    requires
        spec_event_json(e1) == spec_event_json(e2),
        e1 is ItemConsumed,
        e2 is ItemConsumed,
    ensures
        match (e1, e2) {
            (Event::ItemConsumed { actor: a1, item: i1, .. }, Event::ItemConsumed { actor: a2, item: i2, .. }) => a1
                == a2 && i1 == i2,
            _ => true,
        },
{
    lemma_event_json_shape(e1);
    lemma_event_json_shape(e2);
    lemma_brace_first();
    match (e1, e2) {
        (
            Event::ItemConsumed { actor: a1, item: i1, healing: h1, ammunition: m1 },
            Event::ItemConsumed { actor: a2, item: i2, healing: h2, ammunition: m2 },
        ) => {
            let q = ","@ + label("item"@);
            let r1 = ","@ + member("healing"@, healing_json(h1)) + ","@ + member("ammunition"@, ammunition_json(m1)) + "}"@;
            let r2 = ","@ + member("healing"@, healing_json(h2)) + ","@ + member("ammunition"@, ammunition_json(m2)) + "}"@;
            lemma_comma_first(label("item"@) + decimal(i1.id as nat) + r1);
            lemma_comma_first(label("item"@) + decimal(i2.id as nat) + r2);
            assert(q + decimal(i1.id as nat) + r1 =~= ","@ + (label("item"@) + decimal(i1.id as nat) + r1));
            assert(q + decimal(i2.id as nat) + r2 =~= ","@ + (label("item"@) + decimal(i2.id as nat) + r2));
            lemma_num_then(event_head(e1), a1.id as nat, q + decimal(i1.id as nat) + r1, a2.id as nat, q + decimal(i2.id as nat) + r2);
            lemma_comma_first(member("healing"@, healing_json(h1)) + ","@ + member("ammunition"@, ammunition_json(m1)) + "}"@);
            lemma_comma_first(member("healing"@, healing_json(h2)) + ","@ + member("ammunition"@, ammunition_json(m2)) + "}"@);
            assert(r1 =~= ","@ + (member("healing"@, healing_json(h1)) + ","@ + member("ammunition"@, ammunition_json(m1)) + "}"@));
            assert(r2 =~= ","@ + (member("healing"@, healing_json(h2)) + ","@ + member("ammunition"@, ammunition_json(m2)) + "}"@));
            lemma_num_then(q, i1.id as nat, r1, i2.id as nat, r2);
        },
        _ => {},
    }
}

proof fn lemma_event_ids_waited(e1: Event, e2: Event)
    requires
        spec_event_json(e1) == spec_event_json(e2),
        e1 is Waited,
        e2 is Waited,
    ensures
        match (e1, e2) {
            (Event::Waited { actor: a1, at: t1 }, Event::Waited { actor: a2, at: t2 }) => a1 == a2 && t1 == t2,
            _ => true,
        },
{
    lemma_event_json_shape(e1);
    lemma_event_json_shape(e2);
    lemma_brace_first();
    match (e1, e2) {
        (Event::Waited { actor: a1, at: t1 }, Event::Waited { actor: a2, at: t2 }) => {
            let q = ","@ + label("at"@);
            lemma_comma_first(label("at"@) + decimal(t1 as nat) + "}"@);
            lemma_comma_first(label("at"@) + decimal(t2 as nat) + "}"@);
            assert(q + decimal(t1 as nat) + "}"@ =~= ","@ + (label("at"@) + decimal(t1 as nat) + "}"@));
            assert(q + decimal(t2 as nat) + "}"@ =~= ","@ + (label("at"@) + decimal(t2 as nat) + "}"@));
            lemma_num_then(event_head(e1), a1.id as nat, q + decimal(t1 as nat) + "}"@, a2.id as nat, q + decimal(t2 as nat) + "}"@);
            lemma_num_then(q, t1 as nat, "}"@, t2 as nat, "}"@);
        },
        _ => {},
    }
}

proof fn lemma_event_ids_reloaded(e1: Event, e2: Event)
    requires
        spec_event_json(e1) == spec_event_json(e2),
        e1 is Reloaded,
        e2 is Reloaded,
    ensures
        match (e1, e2) {
            (Event::Reloaded { actor: a1, ammunition: n1 }, Event::Reloaded { actor: a2, ammunition: n2 }) => a1 == a2
                && n1 == n2,
            _ => true,
        },
{
    lemma_event_json_shape(e1);
    lemma_event_json_shape(e2);
    lemma_brace_first();
    match (e1, e2) {
        (Event::Reloaded { actor: a1, ammunition: n1 }, Event::Reloaded { actor: a2, ammunition: n2 }) => {
            let q = ","@ + label("ammunition"@);
            lemma_comma_first(label("ammunition"@) + decimal(n1 as nat) + "}"@);
            lemma_comma_first(label("ammunition"@) + decimal(n2 as nat) + "}"@);
            assert(q + decimal(n1 as nat) + "}"@ =~= ","@ + (label("ammunition"@) + decimal(n1 as nat) + "}"@));
            assert(q + decimal(n2 as nat) + "}"@ =~= ","@ + (label("ammunition"@) + decimal(n2 as nat) + "}"@));
            lemma_num_then(event_head(e1), a1.id as nat, q + decimal(n1 as nat) + "}"@, a2.id as nat, q + decimal(n2 as nat) + "}"@);
            lemma_num_then(q, n1 as nat, "}"@, n2 as nat, "}"@);
        },
        _ => {},
    }
}

proof fn lemma_event_ids_attacked(e1: Event, e2: Event)
    requires
        spec_event_json(e1) == spec_event_json(e2),
        e1 is Attacked,
        e2 is Attacked,
    ensures
        match (e1, e2) {
            (
                Event::Attacked { attacker: a1, target: t1, damage: d1, .. },
                Event::Attacked { attacker: a2, target: t2, damage: d2, .. },
            ) => a1 == a2 && t1 == t2 && d1 == d2,
            _ => true,
        },
{
    lemma_event_json_shape(e1);
    lemma_event_json_shape(e2);
    lemma_brace_first();
    match (e1, e2) {
        (
            Event::Attacked { attacker: a1, target: t1, damage: d1, remaining_hit_points: h1 },
            Event::Attacked { attacker: a2, target: t2, damage: d2, remaining_hit_points: h2 },
        ) => {
            let q = ","@ + label("target"@);
            let g = ","@ + label("damage"@);
            let z1 = ","@ + member("remaining_hit_points"@, signed_decimal(h1 as int)) + "}"@;
            let z2 = ","@ + member("remaining_hit_points"@, signed_decimal(h2 as int)) + "}"@;
            let y1 = g + decimal(d1 as nat) + z1;
            let y2 = g + decimal(d2 as nat) + z2;
            lemma_comma_first(label("target"@) + decimal(t1.id as nat) + y1);
            lemma_comma_first(label("target"@) + decimal(t2.id as nat) + y2);
            assert(q + decimal(t1.id as nat) + y1 =~= ","@ + (label("target"@) + decimal(t1.id as nat) + y1));
            assert(q + decimal(t2.id as nat) + y2 =~= ","@ + (label("target"@) + decimal(t2.id as nat) + y2));
            lemma_num_then(event_head(e1), a1.id as nat, q + decimal(t1.id as nat) + y1, a2.id as nat, q + decimal(t2.id as nat) + y2);
            lemma_comma_first(label("damage"@) + decimal(d1 as nat) + z1);
            lemma_comma_first(label("damage"@) + decimal(d2 as nat) + z2);
            assert(y1 =~= ","@ + (label("damage"@) + decimal(d1 as nat) + z1));
            assert(y2 =~= ","@ + (label("damage"@) + decimal(d2 as nat) + z2));
            lemma_num_then(q, t1.id as nat, y1, t2.id as nat, y2);
            lemma_comma_first(member("remaining_hit_points"@, signed_decimal(h1 as int)) + "}"@);
            lemma_comma_first(member("remaining_hit_points"@, signed_decimal(h2 as int)) + "}"@);
            assert(z1 =~= ","@ + (member("remaining_hit_points"@, signed_decimal(h1 as int)) + "}"@));
            assert(z2 =~= ","@ + (member("remaining_hit_points"@, signed_decimal(h2 as int)) + "}"@));
            lemma_num_then(g, d1 as nat, z1, d2 as nat, z2);
        },
        _ => {},
    }
}

proof fn lemma_event_json_ids_rest(e1: Event, e2: Event)
    requires
        spec_event_json(e1) == spec_event_json(e2),
    ensures
        match (e1, e2) {
            (Event::ItemConsumed { actor: a1, item: i1, .. }, Event::ItemConsumed { actor: a2, item: i2, .. }) => a1
                == a2 && i1 == i2,
            (Event::Waited { actor: a1, at: t1 }, Event::Waited { actor: a2, at: t2 }) => a1 == a2 && t1 == t2,
            (Event::Reloaded { actor: a1, ammunition: n1 }, Event::Reloaded { actor: a2, ammunition: n2 }) => a1 == a2
                && n1 == n2,
            (
                Event::Attacked { attacker: a1, target: t1, damage: d1, .. },
                Event::Attacked { attacker: a2, target: t2, damage: d2, .. },
            ) => a1 == a2 && t1 == t2 && d1 == d2,
            _ => true,
        },
{
    if e1 is ItemConsumed && e2 is ItemConsumed {
        lemma_event_ids_itemconsumed(e1, e2);
    }
    if e1 is Waited && e2 is Waited {
        lemma_event_ids_waited(e1, e2);
    }
    if e1 is Reloaded && e2 is Reloaded {
        lemma_event_ids_reloaded(e1, e2);
    }
    if e1 is Attacked && e2 is Attacked {
        lemma_event_ids_attacked(e1, e2);
    }
}

fn push_quoted(out: &mut String, s: &str)
    ensures
        final(out)@ == old(out)@ + quoted(s@),
{
    out.append("\"");
    out.append(s);
    out.append("\"");
    assert(final(out)@ =~= old(out)@ + quoted(s@));
}

fn push_name(out: &mut String, name: &str)
    ensures
        final(out)@ == old(out)@ + quoted(name@) + ":"@,
{
    push_quoted(out, name);
    out.append(":");
}

fn push_id_member(out: &mut String, name: &str, id: u32)
    ensures
        final(out)@ == old(out)@ + id_member(name@, id),
{
    push_name(out, name);
    push_decimal(out, id as u64);
    assert(final(out)@ =~= old(out)@ + id_member(name@, id));
}

fn push_kind(out: &mut String, kind: &str)
    ensures
        final(out)@ == old(out)@ + kind_member(kind@),
{
    push_name(out, "kind");
    push_quoted(out, kind);
    assert(final(out)@ =~= old(out)@ + kind_member(kind@));
}

pub(crate) fn push_position(out: &mut String, p: Position)
    ensures
        final(out)@ == old(out)@ + position_json(p),
{
    out.append("{");
    push_name(out, "x");
    push_signed(out, p.x as i64);
    out.append(",");
    push_name(out, "y");
    push_signed(out, p.y as i64);
    out.append("}");
    assert(final(out)@ =~= old(out)@ + position_json(p));
}

fn push_position_member(out: &mut String, name: &str, p: Position)
    ensures
        final(out)@ == old(out)@ + member(name@, position_json(p)),
{
    push_name(out, name);
    push_position(out, p);
    assert(final(out)@ =~= old(out)@ + member(name@, position_json(p)));
}

fn push_decimal_member(out: &mut String, name: &str, n: u64)
    ensures
        final(out)@ == old(out)@ + member(name@, decimal(n as nat)),
{
    push_name(out, name);
    push_decimal(out, n);
    assert(final(out)@ =~= old(out)@ + member(name@, decimal(n as nat)));
}

fn push_signed_member(out: &mut String, name: &str, n: i64)
    ensures
        final(out)@ == old(out)@ + member(name@, signed_decimal(n as int)),
{
    push_name(out, name);
    push_signed(out, n);
    assert(final(out)@ =~= old(out)@ + member(name@, signed_decimal(n as int)));
}

fn push_healing(out: &mut String, healing: Option<HealingResult>)
    ensures
        final(out)@ == old(out)@ + healing_json(healing),
{
    match healing {
        Some(h) => {
            out.append("{");
            push_decimal_member(out, "amount", h.amount as u64);
            out.append(",");
            push_signed_member(out, "remaining_hit_points", h.remaining_hit_points as i64);
            out.append("}");
        },
        None => {
            out.append("null");
        },
    }
    assert(final(out)@ =~= old(out)@ + healing_json(healing));
}

fn push_ammunition(out: &mut String, ammunition: Option<AmmunitionResult>)
    ensures
        final(out)@ == old(out)@ + ammunition_json(ammunition),
{
    match ammunition {
        Some(a) => {
            out.append("{");
            push_decimal_member(out, "amount", a.amount as u64);
            out.append(",");
            push_decimal_member(out, "remaining_ammunition", a.remaining_ammunition as u64);
            out.append("}");
        },
        None => {
            out.append("null");
        },
    }
    assert(final(out)@ =~= old(out)@ + ammunition_json(ammunition));
}

/// Opens an object with its kind and actor members.
fn push_head(out: &mut String, kind: &str, actor: ActorId)
    ensures
        final(out)@ == old(out)@ + "{"@ + kind_member(kind@) + ","@ + id_member("actor"@, actor.id),
{
    out.append("{");
    push_kind(out, kind);
    out.append(",");
    push_id_member(out, "actor", actor.id);
    assert(final(out)@ =~= old(out)@ + "{"@ + kind_member(kind@) + ","@ + id_member(
        "actor"@,
        actor.id,
    ));
}

/// Returns `{"x":X,"y":Y}` for a position.
pub fn position_value(p: Position) -> (r: String)
    ensures
        r@ == position_json(p),
{
    let mut out = String::new();
    push_position(&mut out, p);
    assert(out@ =~= position_json(p));
    out
}

/// Returns the journal object of a blocked movement's reason.
pub fn block_reason_value(reason: BlockReason) -> (r: String)
    ensures
        r@ == block_reason_json(reason),
{
    let mut out = String::new();
    out.append("{");
    match reason {
        BlockReason::Terrain => {
            push_kind(&mut out, "terrain");
        },
        BlockReason::Actor(actor) => {
            push_kind(&mut out, "actor");
            out.append(",");
            push_id_member(&mut out, "actor", actor.id);
        },
    }
    out.append("}");
    assert(out@ =~= block_reason_json(reason));
    out
}

/// Returns the journal object of a command.
pub fn command_value(command: Command) -> (r: String)
    ensures
        r@ == spec_command_json(command),
{
    let kind = command_name(command);
    let mut out = String::new();
    match command {
        Command::Move { actor, direction } => {
            push_head(&mut out, kind, actor);
            out.append(",");
            push_name(&mut out, "direction");
            push_quoted(&mut out, direction_name(direction));
        },
        Command::Wait { actor } | Command::Unequip { actor } | Command::Reload { actor } => {
            push_head(&mut out, kind, actor);
        },
        Command::Interact { actor, position } | Command::Break { actor, position }
        | Command::Kick { actor, position } | Command::Investigate { actor, position } => {
            push_head(&mut out, kind, actor);
            out.append(",");
            push_position_member(&mut out, "position", position);
        },
        Command::Attack { actor, target } | Command::RangedAttack { actor, target }
        | Command::Chase { actor, target } => {
            push_head(&mut out, kind, actor);
            out.append(",");
            push_id_member(&mut out, "target", target.id);
        },
        Command::Throw { actor, item, target } => {
            push_head(&mut out, kind, actor);
            out.append(",");
            push_id_member(&mut out, "item", item.id);
            out.append(",");
            push_id_member(&mut out, "target", target.id);
        },
        Command::Equip { actor, item } | Command::UseItem { actor, item }
        | Command::Pickup { actor, item } | Command::Drop { actor, item } => {
            push_head(&mut out, kind, actor);
            out.append(",");
            push_id_member(&mut out, "item", item.id);
        },
    }
    out.append("}");
    assert(out@ =~= spec_command_json(command));
    out
}

fn actor_event(kind: &str, actor: ActorId) -> (r: String)
    ensures
        r@ == actor_object(kind@, actor),
{
    let mut out = String::new();
    push_head(&mut out, kind, actor);
    out.append("}");
    assert(out@ =~= actor_object(kind@, actor));
    out
}

fn item_event(kind: &str, actor: ActorId, item: ItemId) -> (r: String)
    ensures
        r@ == actor_object_with(kind@, actor, id_member("item"@, item.id)),
{
    let mut out = String::new();
    push_head(&mut out, kind, actor);
    out.append(",");
    push_id_member(&mut out, "item", item.id);
    out.append("}");
    assert(out@ =~= actor_object_with(kind@, actor, id_member("item"@, item.id)));
    out
}

fn position_event(kind: &str, actor: ActorId, position: Position) -> (r: String)
    ensures
        r@ == actor_object_with(kind@, actor, member("position"@, position_json(position))),
{
    let mut out = String::new();
    push_head(&mut out, kind, actor);
    out.append(",");
    push_position_member(&mut out, "position", position);
    out.append("}");
    assert(out@ =~= actor_object_with(kind@, actor, member("position"@, position_json(position))));
    out
}

fn count_event(kind: &str, actor: ActorId, name: &str, n: u64) -> (r: String)
    ensures
        r@ == actor_object_with(kind@, actor, member(name@, decimal(n as nat))),
{
    let mut out = String::new();
    push_head(&mut out, kind, actor);
    out.append(",");
    push_decimal_member(&mut out, name, n);
    out.append("}");
    assert(out@ =~= actor_object_with(kind@, actor, member(name@, decimal(n as nat))));
    out
}

fn step_event(kind: &str, actor: ActorId, from: Position, to: Position, reason: Option<BlockReason>) -> (r: String)
    ensures
        r@ == actor_object_with(
            kind@,
            actor,
            match reason {
                Some(reason) => step_members(from, to) + ","@ + member("reason"@, block_reason_json(reason)),
                None => step_members(from, to),
            },
        ),
{
    let mut out = String::new();
    push_head(&mut out, kind, actor);
    out.append(",");
    push_position_member(&mut out, "from", from);
    out.append(",");
    push_position_member(&mut out, "to", to);
    if let Some(reason) = reason {
        out.append(",");
        push_name(&mut out, "reason");
        let reason_text = block_reason_value(reason);
        out.append(reason_text.as_str());
    }
    out.append("}");
    assert(out@ =~= actor_object_with(
        kind@,
        actor,
        match reason {
            Some(reason) => step_members(from, to) + ","@ + member("reason"@, block_reason_json(reason)),
            None => step_members(from, to),
        },
    ));
    out
}

fn noise_event(kind: &str, actor: ActorId, position: Position, radius: u8) -> (r: String)
    ensures
        r@ == actor_object_with(
            kind@,
            actor,
            member("position"@, position_json(position)) + ","@ + member("radius"@, decimal(radius as nat)),
        ),
{
    let mut out = String::new();
    push_head(&mut out, kind, actor);
    out.append(",");
    push_position_member(&mut out, "position", position);
    out.append(",");
    push_decimal_member(&mut out, "radius", radius as u64);
    out.append("}");
    assert(out@ =~= actor_object_with(
        kind@,
        actor,
        member("position"@, position_json(position)) + ","@ + member("radius"@, decimal(radius as nat)),
    ));
    out
}

fn trap_event(kind: &str, actor: ActorId, position: Position, damage: u16, remaining: i16) -> (r: String)
    ensures
        r@ == actor_object_with(
            kind@,
            actor,
            member("position"@, position_json(position)) + ","@ + member("damage"@, decimal(damage as nat))
                + ","@ + member("remaining_hit_points"@, signed_decimal(remaining as int)),
        ),
{
    let mut out = String::new();
    push_head(&mut out, kind, actor);
    out.append(",");
    push_position_member(&mut out, "position", position);
    out.append(",");
    push_decimal_member(&mut out, "damage", damage as u64);
    out.append(",");
    push_signed_member(&mut out, "remaining_hit_points", remaining as i64);
    out.append("}");
    assert(out@ =~= actor_object_with(
        kind@,
        actor,
        member("position"@, position_json(position)) + ","@ + member("damage"@, decimal(damage as nat))
            + ","@ + member("remaining_hit_points"@, signed_decimal(remaining as int)),
    ));
    out
}

fn attack_event(kind: &str, attacker: ActorId, target: ActorId, damage: u16, remaining: i16) -> (r: String)
    ensures
        r@ == "{"@ + kind_member(kind@) + ","@ + id_member("attacker"@, attacker.id) + ","@ + id_member(
            "target"@,
            target.id,
        ) + ","@ + member("damage"@, decimal(damage as nat)) + ","@ + member(
            "remaining_hit_points"@,
            signed_decimal(remaining as int),
        ) + "}"@,
{
    let mut out = String::new();
    out.append("{");
    push_kind(&mut out, kind);
    out.append(",");
    push_id_member(&mut out, "attacker", attacker.id);
    out.append(",");
    push_id_member(&mut out, "target", target.id);
    out.append(",");
    push_decimal_member(&mut out, "damage", damage as u64);
    out.append(",");
    push_signed_member(&mut out, "remaining_hit_points", remaining as i64);
    out.append("}");
    assert(out@ =~= "{"@ + kind_member(kind@) + ","@ + id_member("attacker"@, attacker.id) + ","@
        + id_member("target"@, target.id) + ","@ + member("damage"@, decimal(damage as nat)) + ","@
        + member("remaining_hit_points"@, signed_decimal(remaining as int)) + "}"@);
    out
}

fn consumed_event(
    kind: &str,
    actor: ActorId,
    item: ItemId,
    healing: Option<HealingResult>,
    ammunition: Option<AmmunitionResult>,
) -> (r: String)
    ensures
        r@ == actor_object_with(
            kind@,
            actor,
            id_member("item"@, item.id) + ","@ + member("healing"@, healing_json(healing)) + ","@
                + member("ammunition"@, ammunition_json(ammunition)),
        ),
{
    let mut out = String::new();
    push_head(&mut out, kind, actor);
    out.append(",");
    push_id_member(&mut out, "item", item.id);
    out.append(",");
    push_name(&mut out, "healing");
    push_healing(&mut out, healing);
    out.append(",");
    push_name(&mut out, "ammunition");
    push_ammunition(&mut out, ammunition);
    out.append("}");
    assert(out@ =~= actor_object_with(
        kind@,
        actor,
        id_member("item"@, item.id) + ","@ + member("healing"@, healing_json(healing)) + ","@
            + member("ammunition"@, ammunition_json(ammunition)),
    ));
    out
}

/// Returns the journal object of an event.
pub fn event_value(event: Event) -> (r: String)
    ensures
        r@ == spec_event_json(event),
{
    let kind = showcase_event_name(event);
    match event {
        Event::Moved { actor, from, to } => step_event(kind, actor, from, to, None),
        Event::MovementBlocked { actor, from, to, reason } => step_event(
            kind,
            actor,
            from,
            to,
            Some(reason),
        ),
        Event::Waited { actor, at } => count_event(kind, actor, "at", at),
        Event::DoorOpened { actor, position } => position_event(kind, actor, position),
        Event::BreakableBroken { actor, position } => position_event(kind, actor, position),
        Event::NoiseCreated { actor, position, radius } => noise_event(kind, actor, position, radius),
        Event::TrapTriggered { actor, position, damage, remaining_hit_points } => trap_event(
            kind,
            actor,
            position,
            damage,
            remaining_hit_points,
        ),
        Event::Attacked { attacker, target, damage, remaining_hit_points } => attack_event(
            kind,
            attacker,
            target,
            damage,
            remaining_hit_points,
        ),
        Event::Died { actor } => actor_event(kind, actor),
        Event::ItemEquipped { actor, item } => item_event(kind, actor, item),
        Event::ItemUnequipped { actor, item } => item_event(kind, actor, item),
        Event::ItemConsumed { actor, item, healing, ammunition } => consumed_event(
            kind,
            actor,
            item,
            healing,
            ammunition,
        ),
        Event::ItemPickedUp { actor, item } => item_event(kind, actor, item),
        Event::ItemDropped { actor, item } => item_event(kind, actor, item),
        Event::Reloaded { actor, ammunition } => count_event(kind, actor, "ammunition", ammunition as u64),
    }
}

/// The HUD label of an authored enemy behavior.
pub open spec fn spec_enemy_behavior_name(behavior: EnemyBehavior) -> Seq<char> {
    match behavior {
        EnemyBehavior::Pursuer => "Pursuer"@,
        EnemyBehavior::Kiter => "Kiter"@,
        EnemyBehavior::Brute => "Brute"@,
        EnemyBehavior::Frostcaster => "Frostcaster"@,
        EnemyBehavior::Blocker => "Blocker"@,
        EnemyBehavior::Scavenger => "Scavenger"@,
        EnemyBehavior::Zombie => "Zombie"@,
    }
}

/// Returns the HUD label of an authored enemy behavior.
pub fn enemy_behavior_name(behavior: EnemyBehavior) -> (r: &'static str)
    ensures
        r@ == spec_enemy_behavior_name(behavior),
{
    match behavior {
        EnemyBehavior::Pursuer => "Pursuer",
        EnemyBehavior::Kiter => "Kiter",
        EnemyBehavior::Brute => "Brute",
        EnemyBehavior::Frostcaster => "Frostcaster",
        EnemyBehavior::Blocker => "Blocker",
        EnemyBehavior::Scavenger => "Scavenger",
        EnemyBehavior::Zombie => "Zombie",
    }
}

/// The journal value of an authored enemy behavior.
pub open spec fn spec_enemy_behavior_value(behavior: EnemyBehavior) -> Seq<char> {
    match behavior {
        EnemyBehavior::Pursuer => "pursuer"@,
        EnemyBehavior::Kiter => "kiter"@,
        EnemyBehavior::Brute => "brute"@,
        EnemyBehavior::Frostcaster => "frostcaster"@,
        EnemyBehavior::Blocker => "blocker"@,
        EnemyBehavior::Scavenger => "scavenger"@,
        EnemyBehavior::Zombie => "zombie"@,
    }
}

/// Returns the journal value of an authored enemy behavior.
pub fn enemy_behavior_value(behavior: EnemyBehavior) -> (r: &'static str)
    ensures
        r@ == spec_enemy_behavior_value(behavior),
{
    match behavior {
        EnemyBehavior::Pursuer => "pursuer",
        EnemyBehavior::Kiter => "kiter",
        EnemyBehavior::Brute => "brute",
        EnemyBehavior::Frostcaster => "frostcaster",
        EnemyBehavior::Blocker => "blocker",
        EnemyBehavior::Scavenger => "scavenger",
        EnemyBehavior::Zombie => "zombie",
    }
}

} // verus!
