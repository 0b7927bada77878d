//! Semantic simulation events, their stable names, and their HUD messages.

use vstd::prelude::*;

use crate::geometry::Position;
use crate::text::{decimal, is_digit, lemma_cancel_prefix, lemma_decimal_then, push_decimal};
use crate::world::{ActorId, BlockReason, ItemId};

verus! {

/// Healing evidence of a consumed item: the amount restored and the hit points after it.
#[derive(Clone, Copy, Debug, PartialEq, Eq, Structural, Hash)]
pub struct HealingResult {
    pub amount: u16,
    pub remaining_hit_points: i16,
}

/// Ammunition evidence of a consumed item: the amount restored and the shots after it.
#[derive(Clone, Copy, Debug, PartialEq, Eq, Structural, Hash)]
pub struct AmmunitionResult {
    pub amount: u16,
    pub remaining_ammunition: u16,
}

/// One semantic event reported by the simulation after an accepted command.
#[derive(Clone, Copy, Debug, PartialEq, Eq, Structural, Hash)]
pub enum Event {
    Moved { actor: ActorId, from: Position, to: Position },
    MovementBlocked { actor: ActorId, from: Position, to: Position, reason: BlockReason },
    Waited { actor: ActorId, at: u64 },
    DoorOpened { actor: ActorId, position: Position },
    NoiseCreated { actor: ActorId, position: Position, radius: u8 },
    BreakableBroken { actor: ActorId, position: Position },
    TrapTriggered { actor: ActorId, position: Position, damage: u16, remaining_hit_points: i16 },
    Attacked { attacker: ActorId, target: ActorId, damage: u16, remaining_hit_points: i16 },
    Died { actor: ActorId },
    ItemEquipped { actor: ActorId, item: ItemId },
    ItemUnequipped { actor: ActorId, item: ItemId },
    ItemConsumed {
        actor: ActorId,
        item: ItemId,
        healing: Option<HealingResult>,
        ammunition: Option<AmmunitionResult>,
    },
    ItemPickedUp { actor: ActorId, item: ItemId },
    ItemDropped { actor: ActorId, item: ItemId },
    Reloaded { actor: ActorId, ammunition: u16 },
}

/// The stable diagnostic kind name of each event.
pub open spec fn spec_event_name(event: Event) -> Seq<char> {
    match event {
        Event::Moved { .. } => "moved"@,
        Event::MovementBlocked { .. } => "movement_blocked"@,
        Event::Waited { .. } => "waited"@,
        Event::DoorOpened { .. } => "door_opened"@,
        Event::NoiseCreated { .. } => "noise_created"@,
        Event::BreakableBroken { .. } => "breakable_broken"@,
        Event::TrapTriggered { .. } => "trap_triggered"@,
        Event::Attacked { .. } => "attacked"@,
        Event::Died { .. } => "died"@,
        Event::ItemEquipped { .. } => "item_equipped"@,
        Event::ItemUnequipped { .. } => "item_unequipped"@,
        Event::ItemConsumed { .. } => "item_consumed"@,
        Event::ItemPickedUp { .. } => "item_picked_up"@,
        Event::ItemDropped { .. } => "item_dropped"@,
        Event::Reloaded { .. } => "reloaded"@,
    }
}

/// Returns the stable diagnostic kind name of one event.
pub fn showcase_event_name(event: Event) -> (r: &'static str)
    ensures
        r@ == spec_event_name(event),
{
    match event {
        Event::Moved { .. } => "moved",
        Event::MovementBlocked { .. } => "movement_blocked",
        Event::Waited { .. } => "waited",
        Event::DoorOpened { .. } => "door_opened",
        Event::NoiseCreated { .. } => "noise_created",
        Event::BreakableBroken { .. } => "breakable_broken",
        Event::TrapTriggered { .. } => "trap_triggered",
        Event::Attacked { .. } => "attacked",
        Event::Died { .. } => "died",
        Event::ItemEquipped { .. } => "item_equipped",
        Event::ItemUnequipped { .. } => "item_unequipped",
        Event::ItemConsumed { .. } => "item_consumed",
        Event::ItemPickedUp { .. } => "item_picked_up",
        Event::ItemDropped { .. } => "item_dropped",
        Event::Reloaded { .. } => "reloaded",
    }
}

/// Returns the stable kind name of one event, as the desktop journal writes it.
pub fn event_kind(event: Event) -> (r: &'static str)
    ensures
        r@ == spec_event_name(event),
{
    showcase_event_name(event)
}

/// The decimal rendering of a signed integer.
pub open spec fn signed_decimal(n: int) -> Seq<char> {
    if n < 0 {
        "-"@ + decimal((-n) as nat)
    } else {
        decimal(n as nat)
    }
}

/// Appends the decimal rendering of a signed integer.
pub fn push_signed(out: &mut String, n: i64)
    ensures
        final(out)@ == old(out)@ + signed_decimal(n as int),
{
    if n < 0 {
        out.append("-");
        let magnitude: u64 = if n == i64::MIN {
            9223372036854775808u64
        } else {
            (-n) as u64
        };
        push_decimal(out, magnitude);
        assert(final(out)@ =~= old(out)@ + signed_decimal(n as int));
    } else {
        push_decimal(out, n as u64);
    }
}

/// How a blocked movement explains its reason: the terrain, or the blocking actor.
pub open spec fn block_reason_text(reason: BlockReason) -> Seq<char> {
    match reason {
        BlockReason::Terrain => "Terrain"@,
        BlockReason::Actor(actor) => "Actor(ActorId("@ + decimal(actor.id as nat) + "))"@,
    }
}

/// `(x, y)` for a position.
pub open spec fn point_text(p: Position) -> Seq<char> {
    "("@ + signed_decimal(p.x as int) + ", "@ + signed_decimal(p.y as int) + ")"@
}

/// The HUD sentence describing one event.
pub open spec fn spec_event_message(event: Event) -> Seq<char> {
    match event {
        Event::Moved { actor, to, .. } => "Actor "@ + decimal(actor.id as nat) + " moved to "@
            + point_text(to) + "."@,
        Event::MovementBlocked { actor, reason, .. } => "Actor "@ + decimal(actor.id as nat)
            + " blocked by "@ + block_reason_text(reason) + "."@,
        Event::Waited { actor, at } => "Actor "@ + decimal(actor.id as nat) + " waited at t"@
            + decimal(at as nat) + "."@,
        Event::DoorOpened { actor, position } => "Actor "@ + decimal(actor.id as nat)
            + " opened the door at "@ + point_text(position) + "."@,
        Event::BreakableBroken { actor, position } => "Actor "@ + decimal(actor.id as nat)
            + " broke terrain at "@ + point_text(position) + "."@,
        Event::NoiseCreated { actor, position, radius } => "Actor "@ + decimal(actor.id as nat)
            + " created noise at "@ + point_text(position) + " with radius "@ + decimal(
            radius as nat,
        ) + "."@,
        Event::TrapTriggered { actor, position, damage, remaining_hit_points } => "Actor "@
            + decimal(actor.id as nat) + " triggered a trap at "@ + point_text(position)
            + " for "@ + decimal(damage as nat) + " damage ("@ + signed_decimal(
            remaining_hit_points as int,
        ) + " HP left)."@,
        Event::Attacked { attacker, target, remaining_hit_points, .. } => "Actor "@ + decimal(
            attacker.id as nat,
        ) + " hit "@ + decimal(target.id as nat) + " ("@ + signed_decimal(
            remaining_hit_points as int,
        ) + " HP left)."@,
        Event::Died { actor } => "Actor "@ + decimal(actor.id as nat) + " died."@,
        Event::ItemEquipped { actor, item } => "Actor "@ + decimal(actor.id as nat)
            + " equipped item "@ + decimal(item.id as nat) + "."@,
        Event::ItemUnequipped { actor, item } => "Actor "@ + decimal(actor.id as nat)
            + " unequipped item "@ + decimal(item.id as nat) + "."@,
        Event::ItemConsumed { actor, item, healing, ammunition } => match ammunition {
            Some(a) => "Actor "@ + decimal(actor.id as nat) + " consumed item "@ + decimal(
                item.id as nat,
            ) + " and restored "@ + decimal(a.amount as nat) + " ammunition ("@ + decimal(
                a.remaining_ammunition as nat,
            ) + " shots)."@,
            None => match healing {
                Some(h) => "Actor "@ + decimal(actor.id as nat) + " consumed item "@ + decimal(
                    item.id as nat,
                ) + " and restored "@ + decimal(h.amount as nat) + " HP ("@ + signed_decimal(
                    h.remaining_hit_points as int,
                ) + " HP)."@,
                None => "Actor "@ + decimal(actor.id as nat) + " consumed item "@ + decimal(
                    item.id as nat,
                ) + "."@,
            },
        },
        Event::ItemPickedUp { actor, item } => "Actor "@ + decimal(actor.id as nat)
            + " picked up item "@ + decimal(item.id as nat) + "."@,
        Event::ItemDropped { actor, item } => "Actor "@ + decimal(actor.id as nat)
            + " dropped item "@ + decimal(item.id as nat) + "."@,
        Event::Reloaded { actor, ammunition } => "Actor "@ + decimal(actor.id as nat)
            + " reloaded to "@ + decimal(ammunition as nat) + " shots."@,
    }
}

/// Which of the event kinds an event is, in declaration order.
pub open spec fn event_kind_index(event: Event) -> int {
    match event {
        Event::Moved { .. } => 0,
        Event::MovementBlocked { .. } => 1,
        Event::Waited { .. } => 2,
        Event::DoorOpened { .. } => 3,
        Event::NoiseCreated { .. } => 4,
        Event::BreakableBroken { .. } => 5,
        Event::TrapTriggered { .. } => 6,
        Event::Attacked { .. } => 7,
        Event::Died { .. } => 8,
        Event::ItemEquipped { .. } => 9,
        Event::ItemUnequipped { .. } => 10,
        Event::ItemConsumed { .. } => 11,
        Event::ItemPickedUp { .. } => 12,
        Event::ItemDropped { .. } => 13,
        Event::Reloaded { .. } => 14,
    }
}

/// The actor an event's sentence opens with: the attacker of an attack, else the event's actor.
pub open spec fn acting_actor(event: Event) -> nat {
    match event {
        Event::Moved { actor, .. } => actor.id as nat,
        Event::MovementBlocked { actor, .. } => actor.id as nat,
        Event::Waited { actor, .. } => actor.id as nat,
        Event::DoorOpened { actor, .. } => actor.id as nat,
        Event::NoiseCreated { actor, .. } => actor.id as nat,
        Event::BreakableBroken { actor, .. } => actor.id as nat,
        Event::TrapTriggered { actor, .. } => actor.id as nat,
        Event::Attacked { attacker, .. } => attacker.id as nat,
        Event::Died { actor, .. } => actor.id as nat,
        Event::ItemEquipped { actor, .. } => actor.id as nat,
        Event::ItemUnequipped { actor, .. } => actor.id as nat,
        Event::ItemConsumed { actor, .. } => actor.id as nat,
        Event::ItemPickedUp { actor, .. } => actor.id as nat,
        Event::ItemDropped { actor, .. } => actor.id as nat,
        Event::Reloaded { actor, .. } => actor.id as nat,
    }
}

/// The words that follow the actor in an event's sentence, up to its first variable part.
spec fn verb_text(event: Event) -> Seq<char> {
    match event {
        Event::Moved { .. } => " moved to "@,
        Event::MovementBlocked { .. } => " blocked by "@,
        Event::Waited { .. } => " waited at t"@,
        Event::DoorOpened { .. } => " opened the door at "@,
        Event::NoiseCreated { .. } => " created noise at "@,
        Event::BreakableBroken { .. } => " broke terrain at "@,
        Event::TrapTriggered { .. } => " triggered a trap at "@,
        Event::Attacked { .. } => " hit "@,
        Event::Died { .. } => " died."@,
        Event::ItemEquipped { .. } => " equipped item "@,
        Event::ItemUnequipped { .. } => " unequipped item "@,
        Event::ItemConsumed { .. } => " consumed item "@,
        Event::ItemPickedUp { .. } => " picked up item "@,
        Event::ItemDropped { .. } => " dropped item "@,
        Event::Reloaded { .. } => " reloaded to "@,
    }
}

/// The four characters after the space that follows the actor.
spec fn verb_code(event: Event) -> (char, char, char, char) {
    match event {
        Event::Moved { .. } => ('m', 'o', 'v', 'e'),
        Event::MovementBlocked { .. } => ('b', 'l', 'o', 'c'),
        Event::Waited { .. } => ('w', 'a', 'i', 't'),
        Event::DoorOpened { .. } => ('o', 'p', 'e', 'n'),
        Event::NoiseCreated { .. } => ('c', 'r', 'e', 'a'),
        Event::BreakableBroken { .. } => ('b', 'r', 'o', 'k'),
        Event::TrapTriggered { .. } => ('t', 'r', 'i', 'g'),
        Event::Attacked { .. } => ('h', 'i', 't', ' '),
        Event::Died { .. } => ('d', 'i', 'e', 'd'),
        Event::ItemEquipped { .. } => ('e', 'q', 'u', 'i'),
        Event::ItemUnequipped { .. } => ('u', 'n', 'e', 'q'),
        Event::ItemConsumed { .. } => ('c', 'o', 'n', 's'),
        Event::ItemPickedUp { .. } => ('p', 'i', 'c', 'k'),
        Event::ItemDropped { .. } => ('d', 'r', 'o', 'p'),
        Event::Reloaded { .. } => ('r', 'e', 'l', 'o'),
    }
}

proof fn lemma_verb_code(event: Event)
    ensures
        verb_text(event).len() >= 5,
        verb_text(event)[0] == ' ',
        (verb_text(event)[1], verb_text(event)[2], verb_text(event)[3], verb_text(event)[4]) == verb_code(event),
{
    match event {
        Event::Moved { .. } => {
            reveal_strlit(" moved to ");
        },
        Event::MovementBlocked { .. } => {
            reveal_strlit(" blocked by ");
        },
        Event::Waited { .. } => {
            reveal_strlit(" waited at t");
        },
        Event::DoorOpened { .. } => {
            reveal_strlit(" opened the door at ");
        },
        Event::NoiseCreated { .. } => {
            reveal_strlit(" created noise at ");
        },
        Event::BreakableBroken { .. } => {
            reveal_strlit(" broke terrain at ");
        },
        Event::TrapTriggered { .. } => {
            reveal_strlit(" triggered a trap at ");
        },
        Event::Attacked { .. } => {
            reveal_strlit(" hit ");
        },
        Event::Died { .. } => {
            reveal_strlit(" died.");
        },
        Event::ItemEquipped { .. } => {
            reveal_strlit(" equipped item ");
        },
        Event::ItemUnequipped { .. } => {
            reveal_strlit(" unequipped item ");
        },
        Event::ItemConsumed { .. } => {
            reveal_strlit(" consumed item ");
        },
        Event::ItemPickedUp { .. } => {
            reveal_strlit(" picked up item ");
        },
        Event::ItemDropped { .. } => {
            reveal_strlit(" dropped item ");
        },
        Event::Reloaded { .. } => {
            reveal_strlit(" reloaded to ");
        },
    }
}

proof fn lemma_shape_moved(event: Event) -> (rest: Seq<char>)
    requires
        event is Moved,
    ensures
        spec_event_message(event) == "Actor "@ + (decimal(acting_actor(event)) + (verb_text(event) + rest)),
{
    let m = spec_event_message(event);
    match event {
        Event::Moved { actor, to, .. } => {
            let rest = point_text(to) + "."@;
            assert(m =~= "Actor "@ + (decimal(actor.id as nat) + (verb_text(event) + rest)));
            rest
        },
        _ => Seq::<char>::empty(),
    }
}

proof fn lemma_shape_movement_blocked(event: Event) -> (rest: Seq<char>)
    requires
        event is MovementBlocked,
    ensures
        spec_event_message(event) == "Actor "@ + (decimal(acting_actor(event)) + (verb_text(event) + rest)),
{
    let m = spec_event_message(event);
    match event {
        Event::MovementBlocked { actor, reason, .. } => {
            let rest = block_reason_text(reason) + "."@;
            assert(m =~= "Actor "@ + (decimal(actor.id as nat) + (verb_text(event) + rest)));
            rest
        },
        _ => Seq::<char>::empty(),
    }
}

proof fn lemma_shape_waited(event: Event) -> (rest: Seq<char>)
    requires
        event is Waited,
    ensures
        spec_event_message(event) == "Actor "@ + (decimal(acting_actor(event)) + (verb_text(event) + rest)),
{
    let m = spec_event_message(event);
    match event {
        Event::Waited { actor, at } => {
            let rest = decimal(at as nat) + "."@;
            assert(m =~= "Actor "@ + (decimal(actor.id as nat) + (verb_text(event) + rest)));
            rest
        },
        _ => Seq::<char>::empty(),
    }
}

proof fn lemma_shape_door_opened(event: Event) -> (rest: Seq<char>)
    requires
        event is DoorOpened,
    ensures
        spec_event_message(event) == "Actor "@ + (decimal(acting_actor(event)) + (verb_text(event) + rest)),
{
    let m = spec_event_message(event);
    match event {
        Event::DoorOpened { actor, position } => {
            let rest = point_text(position) + "."@;
            assert(m =~= "Actor "@ + (decimal(actor.id as nat) + (verb_text(event) + rest)));
            rest
        },
        _ => Seq::<char>::empty(),
    }
}

proof fn lemma_shape_breakable_broken(event: Event) -> (rest: Seq<char>)
    requires
        event is BreakableBroken,
    ensures
        spec_event_message(event) == "Actor "@ + (decimal(acting_actor(event)) + (verb_text(event) + rest)),
{
    let m = spec_event_message(event);
    match event {
        Event::BreakableBroken { actor, position } => {
            let rest = point_text(position) + "."@;
            assert(m =~= "Actor "@ + (decimal(actor.id as nat) + (verb_text(event) + rest)));
            rest
        },
        _ => Seq::<char>::empty(),
    }
}

proof fn lemma_shape_noise_created(event: Event) -> (rest: Seq<char>)
    requires
        event is NoiseCreated,
    ensures
        spec_event_message(event) == "Actor "@ + (decimal(acting_actor(event)) + (verb_text(event) + rest)),
{
    let m = spec_event_message(event);
    match event {
        Event::NoiseCreated { actor, position, radius } => {
            let rest = point_text(position) + " with radius "@ + decimal(radius as nat) + "."@;
            assert(m =~= "Actor "@ + (decimal(actor.id as nat) + (verb_text(event) + rest)));
            rest
        },
        _ => Seq::<char>::empty(),
    }
}

proof fn lemma_shape_trap_triggered(event: Event) -> (rest: Seq<char>)
    requires
        event is TrapTriggered,
    ensures
        spec_event_message(event) == "Actor "@ + (decimal(acting_actor(event)) + (verb_text(event) + rest)),
{
    let m = spec_event_message(event);
    match event {
        Event::TrapTriggered { actor, position, damage, remaining_hit_points } => {
            let rest = point_text(position) + " for "@ + decimal(damage as nat) + " damage ("@ + signed_decimal(remaining_hit_points as int) + " HP left)."@;
            assert(m =~= "Actor "@ + (decimal(actor.id as nat) + (verb_text(event) + rest)));
            rest
        },
        _ => Seq::<char>::empty(),
    }
}

proof fn lemma_shape_attacked(event: Event) -> (rest: Seq<char>)
    requires
        event is Attacked,
    ensures
        spec_event_message(event) == "Actor "@ + (decimal(acting_actor(event)) + (verb_text(event) + rest)),
{
    let m = spec_event_message(event);
    match event {
        Event::Attacked { attacker, target, remaining_hit_points, .. } => {
            let rest = decimal(target.id as nat) + " ("@ + signed_decimal(remaining_hit_points as int) + " HP left)."@;
            assert(m =~= "Actor "@ + (decimal(attacker.id as nat) + (verb_text(event) + rest)));
            rest
        },
        _ => Seq::<char>::empty(),
    }
}

proof fn lemma_shape_died(event: Event) -> (rest: Seq<char>)
    requires
        event is Died,
    ensures
        spec_event_message(event) == "Actor "@ + (decimal(acting_actor(event)) + (verb_text(event) + rest)),
{
    let m = spec_event_message(event);
    match event {
        Event::Died { actor } => {
            let rest = Seq::<char>::empty();
            assert(m =~= "Actor "@ + (decimal(actor.id as nat) + (verb_text(event) + rest)));
            rest
        },
        _ => Seq::<char>::empty(),
    }
}

proof fn lemma_shape_item_equipped(event: Event) -> (rest: Seq<char>)
    requires
        event is ItemEquipped,
    ensures
        spec_event_message(event) == "Actor "@ + (decimal(acting_actor(event)) + (verb_text(event) + rest)),
{
    let m = spec_event_message(event);
    match event {
        Event::ItemEquipped { actor, item } => {
            let rest = decimal(item.id as nat) + "."@;
            assert(m =~= "Actor "@ + (decimal(actor.id as nat) + (verb_text(event) + rest)));
            rest
        },
        _ => Seq::<char>::empty(),
    }
}

proof fn lemma_shape_item_unequipped(event: Event) -> (rest: Seq<char>)
    requires
        event is ItemUnequipped,
    ensures
        spec_event_message(event) == "Actor "@ + (decimal(acting_actor(event)) + (verb_text(event) + rest)),
{
    let m = spec_event_message(event);
    match event {
        Event::ItemUnequipped { actor, item } => {
            let rest = decimal(item.id as nat) + "."@;
            assert(m =~= "Actor "@ + (decimal(actor.id as nat) + (verb_text(event) + rest)));
            rest
        },
        _ => Seq::<char>::empty(),
    }
}

proof fn lemma_shape_item_picked_up(event: Event) -> (rest: Seq<char>)
    requires
        event is ItemPickedUp,
    ensures
        spec_event_message(event) == "Actor "@ + (decimal(acting_actor(event)) + (verb_text(event) + rest)),
{
    let m = spec_event_message(event);
    match event {
        Event::ItemPickedUp { actor, item } => {
            let rest = decimal(item.id as nat) + "."@;
            assert(m =~= "Actor "@ + (decimal(actor.id as nat) + (verb_text(event) + rest)));
            rest
        },
        _ => Seq::<char>::empty(),
    }
}

proof fn lemma_shape_item_dropped(event: Event) -> (rest: Seq<char>)
    requires
        event is ItemDropped,
    ensures
        spec_event_message(event) == "Actor "@ + (decimal(acting_actor(event)) + (verb_text(event) + rest)),
{
    let m = spec_event_message(event);
    match event {
        Event::ItemDropped { actor, item } => {
            let rest = decimal(item.id as nat) + "."@;
            assert(m =~= "Actor "@ + (decimal(actor.id as nat) + (verb_text(event) + rest)));
            rest
        },
        _ => Seq::<char>::empty(),
    }
}

proof fn lemma_shape_reloaded(event: Event) -> (rest: Seq<char>)
    requires
        event is Reloaded,
    ensures
        spec_event_message(event) == "Actor "@ + (decimal(acting_actor(event)) + (verb_text(event) + rest)),
{
    let m = spec_event_message(event);
    match event {
        Event::Reloaded { actor, ammunition } => {
            let rest = decimal(ammunition as nat) + " shots."@;
            assert(m =~= "Actor "@ + (decimal(actor.id as nat) + (verb_text(event) + rest)));
            rest
        },
        _ => Seq::<char>::empty(),
    }
}

proof fn lemma_shape_item_consumed(event: Event) -> (rest: Seq<char>)
    requires
        event is ItemConsumed,
    ensures
        spec_event_message(event) == "Actor "@ + (decimal(acting_actor(event)) + (verb_text(event) + rest)),
{
    let m = spec_event_message(event);
    match event {
        Event::ItemConsumed { actor, item, healing, ammunition } => {
            let rest = match ammunition {
                Some(x) => decimal(item.id as nat) + " and restored "@ + decimal(x.amount as nat) + " ammunition ("@
                    + decimal(x.remaining_ammunition as nat) + " shots)."@,
                None => match healing {
                    Some(h) => decimal(item.id as nat) + " and restored "@ + decimal(h.amount as nat) + " HP ("@
                        + signed_decimal(h.remaining_hit_points as int) + " HP)."@,
                    None => decimal(item.id as nat) + "."@,
                },
            };
            assert(m =~= "Actor "@ + (decimal(actor.id as nat) + (verb_text(event) + rest)));
            rest
        },
        _ => Seq::<char>::empty(),
    }
}

proof fn lemma_message_shape(event: Event) -> (rest: Seq<char>)
    ensures
        spec_event_message(event) == "Actor "@ + (decimal(acting_actor(event)) + (verb_text(event) + rest)),
{
    match event {
        Event::Moved { .. } => lemma_shape_moved(event),
        Event::MovementBlocked { .. } => lemma_shape_movement_blocked(event),
        Event::Waited { .. } => lemma_shape_waited(event),
        Event::DoorOpened { .. } => lemma_shape_door_opened(event),
        Event::BreakableBroken { .. } => lemma_shape_breakable_broken(event),
        Event::NoiseCreated { .. } => lemma_shape_noise_created(event),
        Event::TrapTriggered { .. } => lemma_shape_trap_triggered(event),
        Event::Attacked { .. } => lemma_shape_attacked(event),
        Event::Died { .. } => lemma_shape_died(event),
        Event::ItemEquipped { .. } => lemma_shape_item_equipped(event),
        Event::ItemUnequipped { .. } => lemma_shape_item_unequipped(event),
        Event::ItemPickedUp { .. } => lemma_shape_item_picked_up(event),
        Event::ItemDropped { .. } => lemma_shape_item_dropped(event),
        Event::Reloaded { .. } => lemma_shape_reloaded(event),
        Event::ItemConsumed { .. } => lemma_shape_item_consumed(event),
    }
}

/// An event's sentence tells which event it reports: two events with the same HUD sentence are
/// of the same kind and have the same acting actor. So no two kinds share a sentence, such as
/// an item being equipped and the same item being unequipped by the same actor.
pub proof fn lemma_event_message_names_event(e1: Event, e2: Event)
    requires
        spec_event_message(e1) == spec_event_message(e2),
    ensures
        event_kind_index(e1) == event_kind_index(e2),
        acting_actor(e1) == acting_actor(e2),
{
    let r1 = lemma_message_shape(e1);
    let r2 = lemma_message_shape(e2);
    let t1 = verb_text(e1) + r1;
    let t2 = verb_text(e2) + r2;
    lemma_verb_code(e1);
    lemma_verb_code(e2);
    lemma_cancel_prefix("Actor "@, decimal(acting_actor(e1)) + t1, decimal(acting_actor(e2)) + t2);
    assert(t1[0] == ' ' && t2[0] == ' ');
    assert(!is_digit(t1[0]) && !is_digit(t2[0]));
    lemma_decimal_then(acting_actor(e1), t1, acting_actor(e2), t2);
    assert(t1[1] == t2[1] && t1[2] == t2[2] && t1[3] == t2[3] && t1[4] == t2[4]);
    assert(verb_code(e1) == verb_code(e2));
}

fn push_point(out: &mut String, p: Position)
    ensures
        final(out)@ == old(out)@ + point_text(p),
{
    out.append("(");
    push_signed(out, p.x as i64);
    out.append(", ");
    push_signed(out, p.y as i64);
    out.append(")");
    assert(final(out)@ =~= old(out)@ + point_text(p));
}

fn push_actor_prefix(out: &mut String, actor: ActorId)
    ensures
        final(out)@ == old(out)@ + "Actor "@ + decimal(actor.id as nat),
{
    out.append("Actor ");
    push_decimal(out, actor.id as u64);
}

/// Renders the HUD sentence describing one event.
pub fn event_message(event: Event) -> (r: String)
    ensures
        r@ == spec_event_message(event),
{
    let mut out = String::new();
    match event {
        Event::Moved { actor, to, .. } => {
            push_actor_prefix(&mut out, actor);
            out.append(" moved to ");
            push_point(&mut out, to);
            out.append(".");
        },
        Event::MovementBlocked { actor, reason, .. } => {
            push_actor_prefix(&mut out, actor);
            out.append(" blocked by ");
            match reason {
                BlockReason::Terrain => out.append("Terrain"),
                BlockReason::Actor(blocker) => {
                    out.append("Actor(ActorId(");
                    push_decimal(&mut out, blocker.id as u64);
                    out.append("))");
                },
            }
            out.append(".");
        },
        Event::Waited { actor, at } => {
            push_actor_prefix(&mut out, actor);
            out.append(" waited at t");
            push_decimal(&mut out, at);
            out.append(".");
        },
        Event::DoorOpened { actor, position } => {
            push_actor_prefix(&mut out, actor);
            out.append(" opened the door at ");
            push_point(&mut out, position);
            out.append(".");
        },
        Event::BreakableBroken { actor, position } => {
            push_actor_prefix(&mut out, actor);
            out.append(" broke terrain at ");
            push_point(&mut out, position);
            out.append(".");
        },
        Event::NoiseCreated { actor, position, radius } => {
            push_actor_prefix(&mut out, actor);
            out.append(" created noise at ");
            push_point(&mut out, position);
            out.append(" with radius ");
            push_decimal(&mut out, radius as u64);
            out.append(".");
        },
        Event::TrapTriggered { actor, position, damage, remaining_hit_points } => {
            push_actor_prefix(&mut out, actor);
            out.append(" triggered a trap at ");
            push_point(&mut out, position);
            out.append(" for ");
            push_decimal(&mut out, damage as u64);
            out.append(" damage (");
            push_signed(&mut out, remaining_hit_points as i64);
            out.append(" HP left).");
        },
        Event::Attacked { attacker, target, remaining_hit_points, .. } => {
            push_actor_prefix(&mut out, attacker);
            out.append(" hit ");
            push_decimal(&mut out, target.id as u64);
            out.append(" (");
            push_signed(&mut out, remaining_hit_points as i64);
            out.append(" HP left).");
        },
        Event::Died { actor } => {
            push_actor_prefix(&mut out, actor);
            out.append(" died.");
        },
        Event::ItemEquipped { actor, item } => {
            push_actor_prefix(&mut out, actor);
            out.append(" equipped item ");
            push_decimal(&mut out, item.id as u64);
            out.append(".");
        },
        Event::ItemUnequipped { actor, item } => {
            push_actor_prefix(&mut out, actor);
            out.append(" unequipped item ");
            push_decimal(&mut out, item.id as u64);
            out.append(".");
        },
        Event::ItemConsumed { actor, item, healing, ammunition } => {
            push_actor_prefix(&mut out, actor);
            out.append(" consumed item ");
            push_decimal(&mut out, item.id as u64);
            match ammunition {
                Some(a) => {
                    out.append(" and restored ");
                    push_decimal(&mut out, a.amount as u64);
                    out.append(" ammunition (");
                    push_decimal(&mut out, a.remaining_ammunition as u64);
                    out.append(" shots).");
                },
                None => match healing {
                    Some(h) => {
                        out.append(" and restored ");
                        push_decimal(&mut out, h.amount as u64);
                        out.append(" HP (");
                        push_signed(&mut out, h.remaining_hit_points as i64);
                        out.append(" HP).");
                    },
                    None => {
                        out.append(".");
                    },
                },
            }
        },
        Event::ItemPickedUp { actor, item } => {
            push_actor_prefix(&mut out, actor);
            out.append(" picked up item ");
            push_decimal(&mut out, item.id as u64);
            out.append(".");
        },
        Event::ItemDropped { actor, item } => {
            push_actor_prefix(&mut out, actor);
            out.append(" dropped item ");
            push_decimal(&mut out, item.id as u64);
            out.append(".");
        },
        Event::Reloaded { actor, ammunition } => {
            push_actor_prefix(&mut out, actor);
            out.append(" reloaded to ");
            push_decimal(&mut out, ammunition as u64);
            out.append(" shots.");
        },
    }
    proof {
        assert(out@ =~= spec_event_message(event));
    }
    out
}

} // verus!
