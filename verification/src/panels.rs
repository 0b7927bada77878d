//! HUD panels: the stats block with the enemy intent, the inventory list, and the event log.

use vstd::prelude::*;

use crate::events::{push_signed, signed_decimal};
use crate::feedback::PresentationEnemyIntent;
use crate::geometry::{Direction, Position};
use crate::hud::{
    clamped_hit_points, controls_text, procedural_controls, fixture_controls, scenario_label, spec_scenario_label, spec_terminal_hud_message, terminal_hud_message, health_bar_text, spec_health_bar, spec_visibility_summary,
    visibility_summary_values, SHOWCASE_MAX_HIT_POINTS,
};
use crate::input::Command;
use crate::text::{decimal, push_decimal};
use crate::visibility::PresentationVisibility;
use crate::scene::{find_actor, find_actor_index};
use crate::session::{spec_status_label, status_label, text_views, DesktopSession, DesktopStatus};
use crate::world::{Actor, ActorId, ActorKind, EquipmentEffect, Item, ItemId, PresentationSnapshot};

verus! {

/// `ActorId(N)`, as the simulation writes an actor identity.
pub open spec fn actor_debug(id: ActorId) -> Seq<char> {
    "ActorId("@ + decimal(id.id as nat) + ")"@
}

/// `ItemId(N)`, as the simulation writes an item identity.
pub open spec fn item_debug(id: ItemId) -> Seq<char> {
    "ItemId("@ + decimal(id.id as nat) + ")"@
}

/// `Position { x: X, y: Y }`, as the simulation writes a cell.
pub open spec fn position_debug(p: Position) -> Seq<char> {
    "Position { x: "@ + signed_decimal(p.x as int) + ", y: "@ + signed_decimal(p.y as int) + " }"@
}

/// The variant name of a direction.
pub open spec fn direction_debug(d: Direction) -> Seq<char> {
    match d {
        Direction::North => "North"@,
        Direction::South => "South"@,
        Direction::West => "West"@,
        Direction::East => "East"@,
    }
}

/// `Name { actor: ActorId(N) }`, and `Name { actor: ActorId(N), rest }` with more fields.
pub open spec fn with_actor(name: Seq<char>, actor: ActorId, rest: Seq<char>) -> Seq<char> {
    name + " { actor: "@ + actor_debug(actor) + rest + " }"@
}

/// The variant name of a command.
pub open spec fn command_variant(c: Command) -> Seq<char> {
    match c {
        Command::Move { .. } => "Move"@,
        Command::Wait { .. } => "Wait"@,
        Command::Interact { .. } => "Interact"@,
        Command::Break { .. } => "Break"@,
        Command::Kick { .. } => "Kick"@,
        Command::Attack { .. } => "Attack"@,
        Command::RangedAttack { .. } => "RangedAttack"@,
        Command::Throw { .. } => "Throw"@,
        Command::Chase { .. } => "Chase"@,
        Command::Investigate { .. } => "Investigate"@,
        Command::Equip { .. } => "Equip"@,
        Command::Unequip { .. } => "Unequip"@,
        Command::UseItem { .. } => "UseItem"@,
        Command::Pickup { .. } => "Pickup"@,
        Command::Drop { .. } => "Drop"@,
        Command::Reload { .. } => "Reload"@,
    }
}

/// The actor that issues a command.
pub open spec fn command_actor(c: Command) -> ActorId {
    match c {
        Command::Move { actor, .. } => actor,
        Command::Wait { actor } => actor,
        Command::Interact { actor, .. } => actor,
        Command::Break { actor, .. } => actor,
        Command::Kick { actor, .. } => actor,
        Command::Attack { actor, .. } => actor,
        Command::RangedAttack { actor, .. } => actor,
        Command::Throw { actor, .. } => actor,
        Command::Chase { actor, .. } => actor,
        Command::Investigate { actor, .. } => actor,
        Command::Equip { actor, .. } => actor,
        Command::Unequip { actor } => actor,
        Command::UseItem { actor, .. } => actor,
        Command::Pickup { actor, .. } => actor,
        Command::Drop { actor, .. } => actor,
        Command::Reload { actor } => actor,
    }
}

/// The fields of a command after its actor, each as `, name: value`.
pub open spec fn command_fields(c: Command) -> Seq<char> {
    match c {
        Command::Move { direction, .. } => ", direction: "@ + direction_debug(direction),
        Command::Interact { position, .. } => ", position: "@ + position_debug(position),
        Command::Break { position, .. } => ", position: "@ + position_debug(position),
        Command::Kick { position, .. } => ", position: "@ + position_debug(position),
        Command::Investigate { position, .. } => ", position: "@ + position_debug(position),
        Command::Attack { target, .. } => ", target: "@ + actor_debug(target),
        Command::RangedAttack { target, .. } => ", target: "@ + actor_debug(target),
        Command::Chase { target, .. } => ", target: "@ + actor_debug(target),
        Command::Throw { item, target, .. } => ", item: "@ + item_debug(item) + ", target: "@
            + actor_debug(target),
        Command::Equip { item, .. } => ", item: "@ + item_debug(item),
        Command::UseItem { item, .. } => ", item: "@ + item_debug(item),
        Command::Pickup { item, .. } => ", item: "@ + item_debug(item),
        Command::Drop { item, .. } => ", item: "@ + item_debug(item),
        Command::Wait { .. } | Command::Unequip { .. } | Command::Reload { .. } => Seq::empty(),
    }
}

/// A command as the simulation writes it: `Name { actor: ActorId(N), field: value, .. }`.
pub open spec fn command_debug(c: Command) -> Seq<char> {
    with_actor(command_variant(c), command_actor(c), command_fields(c))
}

fn push_actor_debug(out: &mut String, id: ActorId)
    ensures
        final(out)@ == old(out)@ + actor_debug(id),
{
    out.append("ActorId(");
    push_decimal(out, id.id as u64);
    out.append(")");
    assert(final(out)@ =~= old(out)@ + actor_debug(id));
}

fn push_item_debug(out: &mut String, id: ItemId)
    ensures
        final(out)@ == old(out)@ + item_debug(id),
{
    out.append("ItemId(");
    push_decimal(out, id.id as u64);
    out.append(")");
    assert(final(out)@ =~= old(out)@ + item_debug(id));
}

fn push_position_debug(out: &mut String, p: Position)
    ensures
        final(out)@ == old(out)@ + position_debug(p),
{
    out.append("Position { x: ");
    push_signed(out, p.x as i64);
    out.append(", y: ");
    push_signed(out, p.y as i64);
    out.append(" }");
    assert(final(out)@ =~= old(out)@ + position_debug(p));
}

fn variant_name(c: Command) -> (r: &'static str)
    ensures
        r@ == command_variant(c),
{
    match c {
        Command::Move { .. } => "Move",
        Command::Wait { .. } => "Wait",
        Command::Interact { .. } => "Interact",
        Command::Break { .. } => "Break",
        Command::Kick { .. } => "Kick",
        Command::Attack { .. } => "Attack",
        Command::RangedAttack { .. } => "RangedAttack",
        Command::Throw { .. } => "Throw",
        Command::Chase { .. } => "Chase",
        Command::Investigate { .. } => "Investigate",
        Command::Equip { .. } => "Equip",
        Command::Unequip { .. } => "Unequip",
        Command::UseItem { .. } => "UseItem",
        Command::Pickup { .. } => "Pickup",
        Command::Drop { .. } => "Drop",
        Command::Reload { .. } => "Reload",
    }
}

fn issuing_actor(c: Command) -> (r: ActorId)
    ensures
        r == command_actor(c),
{
    match c {
        Command::Move { actor, .. } => actor,
        Command::Wait { actor } => actor,
        Command::Interact { actor, .. } => actor,
        Command::Break { actor, .. } => actor,
        Command::Kick { actor, .. } => actor,
        Command::Attack { actor, .. } => actor,
        Command::RangedAttack { actor, .. } => actor,
        Command::Throw { actor, .. } => actor,
        Command::Chase { actor, .. } => actor,
        Command::Investigate { actor, .. } => actor,
        Command::Equip { actor, .. } => actor,
        Command::Unequip { actor } => actor,
        Command::UseItem { actor, .. } => actor,
        Command::Pickup { actor, .. } => actor,
        Command::Drop { actor, .. } => actor,
        Command::Reload { actor } => actor,
    }
}

fn push_command_fields(out: &mut String, c: Command)
    ensures
        final(out)@ == old(out)@ + command_fields(c),
{
    match c {
        Command::Move { direction, .. } => {
            out.append(", direction: ");
            out.append(
                match direction {
                    Direction::North => "North",
                    Direction::South => "South",
                    Direction::West => "West",
                    Direction::East => "East",
                },
            );
        },
        Command::Interact { position, .. } | Command::Break { position, .. }
        | Command::Kick { position, .. } | Command::Investigate { position, .. } => {
            out.append(", position: ");
            push_position_debug(out, position);
        },
        Command::Attack { target, .. } | Command::RangedAttack { target, .. }
        | Command::Chase { target, .. } => {
            out.append(", target: ");
            push_actor_debug(out, target);
        },
        Command::Throw { item, target, .. } => {
            out.append(", item: ");
            push_item_debug(out, item);
            out.append(", target: ");
            push_actor_debug(out, target);
        },
        Command::Equip { item, .. } | Command::UseItem { item, .. } | Command::Pickup { item, .. }
        | Command::Drop { item, .. } => {
            out.append(", item: ");
            push_item_debug(out, item);
        },
        Command::Wait { .. } | Command::Unequip { .. } | Command::Reload { .. } => {},
    }
    assert(final(out)@ =~= old(out)@ + command_fields(c));
}

fn push_command_debug(out: &mut String, c: Command)
    ensures
        final(out)@ == old(out)@ + command_debug(c),
{
    out.append(variant_name(c));
    out.append(" { actor: ");
    push_actor_debug(out, issuing_actor(c));
    push_command_fields(out, c);
    out.append(" }");
    assert(final(out)@ =~= old(out)@ + command_debug(c));
}

/// Renders a command as the simulation writes it.
pub fn command_debug_text(c: Command) -> (r: String)
    ensures
        r@ == command_debug(c),
{
    let mut out = String::new();
    push_command_debug(&mut out, c);
    assert(out@ =~= command_debug(c));
    out
}

/// The HUD line for the scheduled enemy's intent.
pub open spec fn spec_intent_summary(intent: Option<PresentationEnemyIntent>) -> Seq<char> {
    match intent {
        None => "Intent unavailable"@,
        Some(i) => match (i.actor, i.command) {
            (Some(actor), Some(Command::Chase { target, .. })) => "Intent: enemy "@ + decimal(
                actor.id as nat,
            ) + " chases actor "@ + decimal(target.id as nat),
            (Some(actor), Some(Command::Investigate { position, .. })) => "Intent: enemy "@ + decimal(
                actor.id as nat,
            ) + " investigates noise at ("@ + signed_decimal(position.x as int) + ", "@
                + signed_decimal(position.y as int) + ")"@,
            (Some(actor), Some(command)) => "Intent: enemy "@ + decimal(actor.id as nat) + " "@
                + command_debug(command),
            _ => "Intent: none"@,
        },
    }
}

/// Renders the HUD line for the scheduled enemy's intent.
pub fn enemy_intent_summary(intent: Option<&PresentationEnemyIntent>) -> (r: String)
    ensures
        r@ == spec_intent_summary(
            match intent {
                Some(i) => Some(*i),
                None => None,
            },
        ),
{
    let i = match intent {
        Some(i) => i,
        None => {
            return String::from_str("Intent unavailable");
        },
    };
    let actor = match i.actor {
        Some(actor) => actor,
        None => {
            return String::from_str("Intent: none");
        },
    };
    let command = match i.command {
        Some(command) => command,
        None => {
            return String::from_str("Intent: none");
        },
    };
    let mut out = String::from_str("Intent: enemy ");
    push_decimal(&mut out, actor.id as u64);
    match command {
        Command::Chase { target, .. } => {
            out.append(" chases actor ");
            push_decimal(&mut out, target.id as u64);
        },
        Command::Investigate { position, .. } => {
            out.append(" investigates noise at (");
            push_signed(&mut out, position.x as i64);
            out.append(", ");
            push_signed(&mut out, position.y as i64);
            out.append(")");
        },
        _ => {
            out.append(" ");
            push_command_debug(&mut out, command);
        },
    }
    out
}

/// The field-of-view summary of an optional visibility projection.
pub open spec fn spec_visibility_line(visibility: Option<PresentationVisibility>) -> Seq<char> {
    match visibility {
        None => spec_visibility_summary(false, 0, 0),
        Some(v) => spec_visibility_summary(v.active, v.radius, v.positions@.len() as usize),
    }
}

/// Renders the field-of-view summary of an optional visibility projection.
pub fn visibility_summary(visibility: Option<&PresentationVisibility>) -> (r: String)
    ensures
        r@ == spec_visibility_line(
            match visibility {
                Some(v) => Some(*v),
                None => None,
            },
        ),
{
    match visibility {
        None => visibility_summary_values(false, 0, 0),
        Some(v) => visibility_summary_values(v.active, v.radius, v.positions.len()),
    }
}

/// The number of living enemies among `actors`.
pub open spec fn living_enemies(actors: Seq<Actor>) -> nat
    decreases actors.len(),
{
    if actors.len() == 0 {
        0
    } else {
        living_enemies(actors.drop_last()) + if actors.last().kind == ActorKind::Enemy
            && actors.last().alive {
            1nat
        } else {
            0nat
        }
    }
}

/// Returns the number of living enemies among `actors`.
pub fn count_living_enemies(actors: &Vec<Actor>) -> (r: usize)
    ensures
        r == living_enemies(actors@),
{
    let mut count: usize = 0;
    let mut i: usize = 0;
    while i < actors.len()
        invariant
            i <= actors@.len(),
            count == living_enemies(actors@.subrange(0, i as int)),
            count <= i,
        decreases actors@.len() - i,
    {
        proof {
            let next = actors@.subrange(0, i + 1);
            assert(next.drop_last() =~= actors@.subrange(0, i as int));
            assert(next.last() == actors@[i as int]);
        }
        let enemy = match actors[i].kind {
            ActorKind::Enemy => true,
            ActorKind::Player => false,
        };
        if enemy && actors[i].alive {
            count += 1;
        }
        i += 1;
    }
    assert(actors@.subrange(0, actors@.len() as int) =~= actors@);
    count
}

/// `N` for the next scheduled actor, or `-` when none is scheduled.
pub open spec fn next_text(next: Option<ActorId>) -> Seq<char> {
    match next {
        Some(id) => decimal(id.id as nat),
        None => "-"@,
    }
}

/// The terminal hint followed by a line break, or nothing when there is no hint.
pub open spec fn terminal_line(terminal: Seq<char>) -> Seq<char> {
    if terminal.len() == 0 {
        Seq::empty()
    } else {
        terminal + "\n"@
    }
}

/// The player's line of the stats block: health bar, clamped hit points, and cell.
pub open spec fn player_line(p: Actor) -> Seq<char> {
    "\nHP "@ + spec_health_bar(p.hit_points as int) + " "@ + signed_decimal(
        clamped_hit_points(p.hit_points as int),
    ) + "/"@ + signed_decimal(SHOWCASE_MAX_HIT_POINTS as int) + "  pos ("@ + signed_decimal(
        p.position.x as int,
    ) + ","@ + signed_decimal(p.position.y as int) + ")\n"@
}

/// The player part of the stats block: health and cell, or that the player is unavailable,
/// with the turn, the scheduled actor and the living enemies.
pub open spec fn stats_head(player: Option<Actor>, snapshot: PresentationSnapshot) -> Seq<char> {
    let enemies = decimal(living_enemies(snapshot.actors@));
    let turn = "Turn t="@ + decimal(snapshot.current_time as nat) + " next="@ + next_text(
        snapshot.next_actor,
    );
    match player {
        None => "\nPlayer unavailable\n"@ + turn + "\nEnemies remaining: "@ + enemies + "\n"@,
        Some(p) => player_line(p) + turn + "  enemies "@ + enemies + "\n"@,
    }
}

/// The closing part of the stats block: field of view, enemy intent, terminal hint, status.
pub open spec fn stats_tail(
    visibility: Option<PresentationVisibility>,
    intent: Option<PresentationEnemyIntent>,
    terminal: Seq<char>,
    status_text: Seq<char>,
) -> Seq<char> {
    spec_visibility_line(visibility) + "\n"@ + spec_intent_summary(intent) + "\n"@ + terminal_line(
        terminal,
    ) + "Status: "@ + status_text
}

/// The HUD stats block: scenario, the player's health and cell (or that the player is
/// unavailable), the turn and scheduled actor, living enemies, the field of view, the enemy
/// intent, the terminal hint, and the session status as `status_text` writes it.
pub open spec fn spec_hud_stats(
    player: Option<Actor>,
    snapshot: PresentationSnapshot,
    status_text: Seq<char>,
    scenario: Seq<char>,
    terminal: Seq<char>,
    visibility: Option<PresentationVisibility>,
    intent: Option<PresentationEnemyIntent>,
) -> Seq<char> {
    scenario + stats_head(player, snapshot) + stats_tail(visibility, intent, terminal, status_text)
}

fn push_turn(out: &mut String, snapshot: &PresentationSnapshot)
    ensures
        final(out)@ == old(out)@ + "Turn t="@ + decimal(snapshot.current_time as nat) + " next="@
            + next_text(snapshot.next_actor),
{
    out.append("Turn t=");
    push_decimal(out, snapshot.current_time);
    out.append(" next=");
    match snapshot.next_actor {
        Some(id) => push_decimal(out, id.id as u64),
        None => out.append("-"),
    }
    assert(final(out)@ =~= old(out)@ + "Turn t="@ + decimal(snapshot.current_time as nat)
        + " next="@ + next_text(snapshot.next_actor));
}

fn push_player_line(out: &mut String, p: &Actor)
    ensures
        final(out)@ == old(out)@ + player_line(*p),
{
    out.append("\nHP ");
    let bar = health_bar_text(p.hit_points as i32);
    out.append(bar.as_str());
    out.append(" ");
    let hp: i64 = if p.hit_points < 0 {
        0
    } else if p.hit_points > 10 {
        10
    } else {
        p.hit_points as i64
    };
    push_signed(out, hp);
    out.append("/");
    push_signed(out, SHOWCASE_MAX_HIT_POINTS as i64);
    out.append("  pos (");
    push_signed(out, p.position.x as i64);
    out.append(",");
    push_signed(out, p.position.y as i64);
    out.append(")\n");
    assert(final(out)@ =~= old(out)@ + player_line(*p));
}

fn push_stats_head(out: &mut String, player: Option<&Actor>, snapshot: &PresentationSnapshot)
    ensures
        final(out)@ == old(out)@ + stats_head(
            match player {
                Some(p) => Some(*p),
                None => None,
            },
            *snapshot,
        ),
{
    let enemies = count_living_enemies(&snapshot.actors);
    match player {
        None => {
            out.append("\nPlayer unavailable\n");
            push_turn(out, snapshot);
            out.append("\nEnemies remaining: ");
            push_decimal(out, enemies as u64);
            out.append("\n");
            assert(final(out)@ =~= old(out)@ + stats_head(None, *snapshot));
        },
        Some(p) => {
            push_player_line(out, p);
            push_turn(out, snapshot);
            out.append("  enemies ");
            push_decimal(out, enemies as u64);
            out.append("\n");
            assert(final(out)@ =~= old(out)@ + stats_head(Some(*p), *snapshot));
        },
    }
}

fn push_stats_tail(
    out: &mut String,
    visibility: Option<&PresentationVisibility>,
    intent: Option<&PresentationEnemyIntent>,
    terminal: &str,
    status_text: &str,
)
    ensures
        final(out)@ == old(out)@ + stats_tail(
            match visibility {
                Some(v) => Some(*v),
                None => None,
            },
            match intent {
                Some(i) => Some(*i),
                None => None,
            },
            terminal@,
            status_text@,
        ),
{
    let vis = visibility_summary(visibility);
    out.append(vis.as_str());
    out.append("\n");
    let summary = enemy_intent_summary(intent);
    out.append(summary.as_str());
    out.append("\n");
    if terminal.unicode_len() != 0 {
        out.append(terminal);
        out.append("\n");
    }
    out.append("Status: ");
    out.append(status_text);
    assert(final(out)@ =~= old(out)@ + stats_tail(
        match visibility {
            Some(v) => Some(*v),
            None => None,
        },
        match intent {
            Some(i) => Some(*i),
            None => None,
        },
        terminal@,
        status_text@,
    ));
}

/// Renders the HUD stats block; its last line is the session status as `status_label` writes
/// it.
pub fn format_hud_stats(
    player: Option<&Actor>,
    snapshot: &PresentationSnapshot,
    status: &DesktopStatus,
    scenario: &str,
    terminal: &str,
    visibility: Option<&PresentationVisibility>,
    intent: Option<&PresentationEnemyIntent>,
) -> (r: String)
    ensures
        r@ == spec_hud_stats(
            match player {
                Some(p) => Some(*p),
                None => None,
            },
            *snapshot,
            spec_status_label(*status),
            scenario@,
            terminal@,
            match visibility {
                Some(v) => Some(*v),
                None => None,
            },
            match intent {
                Some(i) => Some(*i),
                None => None,
            },
        ),
{
    let label = status_label(status);
    let mut out = String::from_str(scenario);
    push_stats_head(&mut out, player, snapshot);
    push_stats_tail(&mut out, visibility, intent, terminal, label.as_str());
    out
}

/// One inventory line: the selection marker, the item and its definition, its reach effect,
/// and whether it is equipped.
pub open spec fn inventory_line(item: Item, selected: bool, equipped: bool) -> Seq<char> {
    (if selected {
        "> "@
    } else {
        "  "@
    }) + "item "@ + decimal(item.id.id as nat) + " (def "@ + decimal(item.definition.id as nat)
        + ")"@ + match item.equipment_effect {
        Some(EquipmentEffect::MinimumMeleeReach { reach }) => " [reach "@ + decimal(reach as nat)
            + "]"@,
        None => Seq::empty(),
    } + if equipped {
        " [equipped]"@
    } else {
        Seq::empty()
    }
}

/// `parts` joined with line breaks.
pub open spec fn lines(parts: Seq<Seq<char>>) -> Seq<char>
    decreases parts.len(),
{
    if parts.len() == 0 {
        Seq::empty()
    } else if parts.len() == 1 {
        parts[0]
    } else {
        lines(parts.drop_last()) + "\n"@ + parts.last()
    }
}

/// The inventory panel of the player: one line per item, `(empty)` without items, and
/// `Inventory unavailable` without a player.
pub open spec fn spec_inventory_panel(player: Option<Actor>, selected: Option<ItemId>) -> Seq<char> {
    match player {
        None => "Inventory unavailable"@,
        Some(p) => if p.inventory@.len() == 0 {
            "(empty)"@
        } else {
            lines(
                Seq::new(
                    p.inventory@.len(),
                    |i: int|
                        inventory_line(
                            p.inventory@[i],
                            selected == Some(p.inventory@[i].id),
                            p.equipped_item == Some(p.inventory@[i].id),
                        ),
                ),
            )
        },
    }
}

fn push_inventory_line(out: &mut String, item: Item, selected: bool, equipped: bool)
    ensures
        final(out)@ == old(out)@ + inventory_line(item, selected, equipped),
{
    out.append(if selected { "> " } else { "  " });
    out.append("item ");
    push_decimal(out, item.id.id as u64);
    out.append(" (def ");
    push_decimal(out, item.definition.id as u64);
    out.append(")");
    match item.equipment_effect {
        Some(EquipmentEffect::MinimumMeleeReach { reach }) => {
            out.append(" [reach ");
            push_decimal(out, reach as u64);
            out.append("]");
        },
        None => {},
    }
    if equipped {
        out.append(" [equipped]");
    }
    assert(final(out)@ =~= old(out)@ + inventory_line(item, selected, equipped));
}

/// Renders the inventory panel of the player.
pub fn inventory_panel(player: Option<&Actor>, selected: Option<ItemId>) -> (r: String)
    ensures
        r@ == spec_inventory_panel(
            match player {
                Some(p) => Some(*p),
                None => None,
            },
            selected,
        ),
{
    let p = match player {
        Some(p) => p,
        None => {
            return String::from_str("Inventory unavailable");
        },
    };
    if p.inventory.len() == 0 {
        return String::from_str("(empty)");
    }
    let ghost parts = Seq::new(
        p.inventory@.len(),
        |i: int|
            inventory_line(
                p.inventory@[i],
                selected == Some(p.inventory@[i].id),
                p.equipped_item == Some(p.inventory@[i].id),
            ),
    );
    let mut out = String::new();
    let mut i: usize = 0;
    while i < p.inventory.len()
        invariant
            i <= p.inventory@.len(),
            parts.len() == p.inventory@.len(),
            forall|k: int|
                0 <= k < parts.len() ==> #[trigger] parts[k] == inventory_line(
                    p.inventory@[k],
                    selected == Some(p.inventory@[k].id),
                    p.equipped_item == Some(p.inventory@[k].id),
                ),
            out@ == lines(parts.subrange(0, i as int)),
        decreases p.inventory@.len() - i,
    {
        let item = p.inventory[i];
        let is_selected = match selected {
            Some(s) => s == item.id,
            None => false,
        };
        let is_equipped = match p.equipped_item {
            Some(e) => e == item.id,
            None => false,
        };
        proof {
            let next = parts.subrange(0, i + 1);
            assert(next.drop_last() =~= parts.subrange(0, i as int));
            assert(next.last() == parts[i as int]);
        }
        if i > 0 {
            out.append("\n");
        }
        push_inventory_line(&mut out, item, is_selected, is_equipped);
        proof {
            let next = parts.subrange(0, i + 1);
            if i == 0 {
                assert(out@ =~= parts[0]);
            } else {
                assert(out@ =~= lines(next.drop_last()) + "\n"@ + next.last());
            }
        }
        i += 1;
    }
    assert(parts.subrange(0, parts.len() as int) =~= parts);
    out
}

/// The event log panel: the recent messages, one per line, or `(no events yet)`.
pub open spec fn spec_messages_panel(messages: Seq<Seq<char>>) -> Seq<char> {
    if messages.len() == 0 {
        "(no events yet)"@
    } else {
        lines(messages)
    }
}

/// Renders the event log panel.
pub fn messages_panel(messages: &Vec<String>) -> (r: String)
    ensures
        r@ == spec_messages_panel(Seq::new(messages@.len(), |i: int| messages@[i]@)),
{
    let ghost parts = Seq::new(messages@.len(), |i: int| messages@[i]@);
    if messages.len() == 0 {
        return String::from_str("(no events yet)");
    }
    let mut out = String::new();
    let mut i: usize = 0;
    while i < messages.len()
        invariant
            i <= messages@.len(),
            parts == Seq::new(messages@.len(), |k: int| messages@[k]@),
            out@ == lines(parts.subrange(0, i as int)),
        decreases messages@.len() - i,
    {
        proof {
            let next = parts.subrange(0, i + 1);
            assert(next.drop_last() =~= parts.subrange(0, i as int));
            assert(next.last() == parts[i as int]);
        }
        if i > 0 {
            out.append("\n");
        }
        out.append(messages[i].as_str());
        proof {
            let next = parts.subrange(0, i + 1);
            if i == 0 {
                assert(out@ =~= parts[0]);
            } else {
                assert(out@ =~= lines(next.drop_last()) + "\n"@ + next.last());
            }
        }
        i += 1;
    }
    assert(parts.subrange(0, parts.len() as int) =~= parts);
    out
}

/// Whether every enemy among `actors` is dead.
pub open spec fn all_enemies_dead(actors: Seq<Actor>) -> bool {
    forall|i: int| 0 <= i < actors.len() && #[trigger] actors[i].kind == ActorKind::Enemy ==> !actors[i].alive
}

proof fn lemma_living_enemies_zero(actors: Seq<Actor>)
    ensures
        (living_enemies(actors) == 0) == all_enemies_dead(actors),
    decreases actors.len(),
{
    if actors.len() > 0 {
        let rest = actors.drop_last();
        lemma_living_enemies_zero(rest);
        assert forall|i: int| 0 <= i < rest.len() implies rest[i] == actors[i] by {}
        if !all_enemies_dead(actors) {
            let i = choose|i: int| 0 <= i < actors.len() && #[trigger] actors[i].kind == ActorKind::Enemy && actors[i].alive;
            if i < rest.len() {
                assert(rest[i] == actors[i]);
            }
        }
    }
}

/// Returns whether every enemy among `actors` is dead.
pub fn enemies_defeated(actors: &Vec<Actor>) -> (r: bool)
    ensures
        r == all_enemies_dead(actors@),
{
    proof {
        lemma_living_enemies_zero(actors@);
    }
    count_living_enemies(actors) == 0
}

/// The journal panel: the journal file and the run's seed.
pub open spec fn spec_journal_panel(journal_path: Seq<char>, seed: u64) -> Seq<char> {
    journal_path + "\nseed "@ + decimal(seed as nat)
}

/// Renders the journal panel from the journal file's display text.
pub fn journal_panel(journal_path: &str, seed: u64) -> (r: String)
    ensures
        r@ == spec_journal_panel(journal_path@, seed),
{
    let mut out = String::from_str(journal_path);
    out.append("\nseed ");
    push_decimal(&mut out, seed);
    out
}

/// The five text panels of the desktop HUD.
#[derive(Clone, Debug, PartialEq, Eq)]
pub struct HudPanels {
    pub stats: String,
    pub inventory: String,
    pub messages: String,
    pub controls: String,
    pub journal: String,
}

/// Renders every HUD panel for the controlled player of a snapshot and the session.
///
/// `journal_path` is the display text of the journal file.
pub fn hud_panels(
    snapshot: &PresentationSnapshot,
    session: &DesktopSession,
    journal_path: &str,
    player: ActorId,
    visibility: Option<&PresentationVisibility>,
    intent: Option<&PresentationEnemyIntent>,
) -> (r: HudPanels)
    ensures
        r.stats@ == spec_hud_stats(
            find_actor(snapshot.actors@, player),
            *snapshot,
            spec_status_label(session.status),
            spec_scenario_label(session.procedural, session.depth),
            spec_terminal_hud_message(session.status, session.procedural, session.depth),
            match visibility {
                Some(v) => Some(*v),
                None => None,
            },
            match intent {
                Some(i) => Some(*i),
                None => None,
            },
        ),
        r.inventory@ == spec_inventory_panel(find_actor(snapshot.actors@, player), session.selected_item),
        r.messages@ == spec_messages_panel(Seq::new(session.messages@.len(), |i: int| session.messages@[i]@)),
        r.controls@ == (if session.procedural {
            procedural_controls()
        } else {
            fixture_controls()
        }),
        r.journal@ == spec_journal_panel(journal_path@, session.seed),
{
    let record = match find_actor_index(&snapshot.actors, player) {
        Some(i) => Some(&snapshot.actors[i]),
        None => None,
    };
    let scenario = scenario_label(session.procedural, session.depth);
    let terminal = terminal_hud_message(&session.status, session.procedural, session.depth);
    let stats = format_hud_stats(
        record,
        snapshot,
        &session.status,
        scenario.as_str(),
        terminal.as_str(),
        visibility,
        intent,
    );
    let inventory = inventory_panel(record, session.selected_item);
    let messages = messages_panel(&session.messages);
    let controls = String::from_str(controls_text(session.procedural));
    let journal = journal_panel(journal_path, session.seed);
    HudPanels { stats, inventory, messages, controls, journal }
}

} // verus!
