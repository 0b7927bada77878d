//! Typed projections of accepted-command events and of the scheduled enemy: messages,
//! animation cues, the HUD record of the controlled actor, and the enemy intent.

use vstd::prelude::*;

use crate::events::{AmmunitionResult, Event, HealingResult};
use crate::geometry::Position;
use crate::input::Command;
use crate::scene::{find_actor, find_actor_index};
use crate::world::{
    Actor, ActorId, ActorKind, BlockReason, EnemyBehavior, ItemId, PresentationSnapshot,
};

verus! {

/// A typed message projected from one event; it carries every field of the event.
#[derive(Clone, Copy, Debug, PartialEq, Eq, Structural, Hash)]
pub enum PresentationMessage {
    Moved { actor: ActorId, from: Position, to: Position },
    MovementBlocked { actor: ActorId, from: Position, to: Position, reason: BlockReason },
    Waited { actor: ActorId, at: u64 },
    DoorOpened { actor: ActorId, position: Position },
    NoiseCreated { actor: ActorId, position: Position, radius: u8 },
    BreakableBroken { actor: ActorId, position: Position },
    TrapTriggered { actor: ActorId, position: Position, damage: u16, remaining_hit_points: i16 },
    Attacked { attacker: ActorId, target: ActorId, damage: u16, remaining_hit_points: i16 },
    Died { actor: ActorId },
    ItemEquipped { actor: ActorId, item: ItemId },
    ItemUnequipped { actor: ActorId, item: ItemId },
    ItemConsumed {
        actor: ActorId,
        item: ItemId,
        healing: Option<HealingResult>,
        ammunition: Option<AmmunitionResult>,
    },
    ItemPickedUp { actor: ActorId, item: ItemId },
    ItemDropped { actor: ActorId, item: ItemId },
    Reloaded { actor: ActorId, ammunition: u16 },
}

/// The message of an event: the same variant with the same fields.
pub open spec fn spec_message(event: Event) -> PresentationMessage {
    match event {
        Event::Moved { actor, from, to } => PresentationMessage::Moved { actor, from, to },
        Event::MovementBlocked { actor, from, to, reason } => PresentationMessage::MovementBlocked {
            actor,
            from,
            to,
            reason,
        },
        Event::Waited { actor, at } => PresentationMessage::Waited { actor, at },
        Event::DoorOpened { actor, position } => PresentationMessage::DoorOpened { actor, position },
        Event::NoiseCreated { actor, position, radius } => PresentationMessage::NoiseCreated {
            actor,
            position,
            radius,
        },
        Event::BreakableBroken { actor, position } => PresentationMessage::BreakableBroken {
            actor,
            position,
        },
        Event::TrapTriggered { actor, position, damage, remaining_hit_points } =>
            PresentationMessage::TrapTriggered { actor, position, damage, remaining_hit_points },
        Event::Attacked { attacker, target, damage, remaining_hit_points } =>
            PresentationMessage::Attacked { attacker, target, damage, remaining_hit_points },
        Event::Died { actor } => PresentationMessage::Died { actor },
        Event::ItemEquipped { actor, item } => PresentationMessage::ItemEquipped { actor, item },
        Event::ItemUnequipped { actor, item } => PresentationMessage::ItemUnequipped { actor, item },
        Event::ItemConsumed { actor, item, healing, ammunition } => PresentationMessage::ItemConsumed {
            actor,
            item,
            healing,
            ammunition,
        },
        Event::ItemPickedUp { actor, item } => PresentationMessage::ItemPickedUp { actor, item },
        Event::ItemDropped { actor, item } => PresentationMessage::ItemDropped { actor, item },
        Event::Reloaded { actor, ammunition } => PresentationMessage::Reloaded { actor, ammunition },
    }
}

impl PresentationMessage {
    /// Projects one event into its message.
    pub fn from_event(event: Event) -> (r: Self)
        ensures
            r == spec_message(event),
    {
        match event {
            Event::Moved { actor, from, to } => PresentationMessage::Moved { actor, from, to },
            Event::MovementBlocked { actor, from, to, reason } =>
                PresentationMessage::MovementBlocked { actor, from, to, reason },
            Event::Waited { actor, at } => PresentationMessage::Waited { actor, at },
            Event::DoorOpened { actor, position } => PresentationMessage::DoorOpened {
                actor,
                position,
            },
            Event::NoiseCreated { actor, position, radius } => PresentationMessage::NoiseCreated {
                actor,
                position,
                radius,
            },
            Event::BreakableBroken { actor, position } => PresentationMessage::BreakableBroken {
                actor,
                position,
            },
            Event::TrapTriggered { actor, position, damage, remaining_hit_points } =>
                PresentationMessage::TrapTriggered { actor, position, damage, remaining_hit_points },
            Event::Attacked { attacker, target, damage, remaining_hit_points } =>
                PresentationMessage::Attacked { attacker, target, damage, remaining_hit_points },
            Event::Died { actor } => PresentationMessage::Died { actor },
            Event::ItemEquipped { actor, item } => PresentationMessage::ItemEquipped { actor, item },
            Event::ItemUnequipped { actor, item } => PresentationMessage::ItemUnequipped {
                actor,
                item,
            },
            Event::ItemConsumed { actor, item, healing, ammunition } =>
                PresentationMessage::ItemConsumed { actor, item, healing, ammunition },
            Event::ItemPickedUp { actor, item } => PresentationMessage::ItemPickedUp { actor, item },
            Event::ItemDropped { actor, item } => PresentationMessage::ItemDropped { actor, item },
            Event::Reloaded { actor, ammunition } => PresentationMessage::Reloaded {
                actor,
                ammunition,
            },
        }
    }
}

/// The messages of the last accepted command, one per event, in event order.
#[derive(Clone, Debug, PartialEq, Eq)]
pub struct PresentationMessages {
    pub messages: Vec<PresentationMessage>,
}

impl PresentationMessages {
    /// Creates an empty message projection.
    pub fn new() -> (r: Self)
        ensures
            r.messages@.len() == 0,
    {
        PresentationMessages { messages: Vec::new() }
    }

    /// Projects the events of the last accepted command; no output means no messages.
    pub fn from_events(events: Option<&[Event]>) -> (r: Self)
        ensures
            r.messages@ == match events {
                Some(events) => Seq::new(events@.len(), |i: int| spec_message(events@[i])),
                None => Seq::empty(),
            },
    {
        let mut messages: Vec<PresentationMessage> = Vec::new();
        if let Some(events) = events {
            let mut i: usize = 0;
            while i < events.len()
                invariant
                    i <= events@.len(),
                    messages@ =~= Seq::new(events@.len(), |k: int| spec_message(events@[k])).subrange(
                        0,
                        i as int,
                    ),
                decreases events@.len() - i,
            {
                messages.push(PresentationMessage::from_event(events[i]));
                i += 1;
            }
            assert(messages@ =~= Seq::new(events@.len(), |k: int| spec_message(events@[k])));
        }
        PresentationMessages { messages }
    }

    /// Returns the messages in event order.
    pub fn messages(&self) -> (r: &[PresentationMessage])
        ensures
            r@ == self.messages@,
    {
        self.messages.as_slice()
    }
}

/// An animation cue: the events that move, hurt, or change the equipment of an actor.
#[derive(Clone, Copy, Debug, PartialEq, Eq, Structural, Hash)]
pub enum PresentationAnimationCue {
    Moved { actor: ActorId, from: Position, to: Position },
    MovementBlocked { actor: ActorId, from: Position, to: Position, reason: BlockReason },
    Waited { actor: ActorId, at: u64 },
    Attacked { attacker: ActorId, target: ActorId, damage: u16, remaining_hit_points: i16 },
    Died { actor: ActorId },
    ItemEquipped { actor: ActorId, item: ItemId },
    ItemUnequipped { actor: ActorId, item: ItemId },
    ItemConsumed { actor: ActorId, item: ItemId },
    ItemPickedUp { actor: ActorId, item: ItemId },
}

/// The animation cue of an event, if it has one; doors, noise, terrain, traps, drops and
/// reloads have none.
pub open spec fn spec_animation_cue(event: Event) -> Option<PresentationAnimationCue> {
    match event {
        Event::Moved { actor, from, to } => Some(PresentationAnimationCue::Moved { actor, from, to }),
        Event::MovementBlocked { actor, from, to, reason } => Some(
            PresentationAnimationCue::MovementBlocked { actor, from, to, reason },
        ),
        Event::Waited { actor, at } => Some(PresentationAnimationCue::Waited { actor, at }),
        Event::Attacked { attacker, target, damage, remaining_hit_points } => Some(
            PresentationAnimationCue::Attacked { attacker, target, damage, remaining_hit_points },
        ),
        Event::Died { actor } => Some(PresentationAnimationCue::Died { actor }),
        Event::ItemEquipped { actor, item } => Some(
            PresentationAnimationCue::ItemEquipped { actor, item },
        ),
        Event::ItemUnequipped { actor, item } => Some(
            PresentationAnimationCue::ItemUnequipped { actor, item },
        ),
        Event::ItemConsumed { actor, item, .. } => Some(
            PresentationAnimationCue::ItemConsumed { actor, item },
        ),
        Event::ItemPickedUp { actor, item } => Some(
            PresentationAnimationCue::ItemPickedUp { actor, item },
        ),
        _ => None,
    }
}

impl PresentationAnimationCue {
    /// Projects one event into its animation cue, if it has one.
    pub fn from_event(event: Event) -> (r: Option<Self>)
        ensures
            r == spec_animation_cue(event),
    {
        match event {
            Event::Moved { actor, from, to } => Some(
                PresentationAnimationCue::Moved { actor, from, to },
            ),
            Event::MovementBlocked { actor, from, to, reason } => Some(
                PresentationAnimationCue::MovementBlocked { actor, from, to, reason },
            ),
            Event::Waited { actor, at } => Some(PresentationAnimationCue::Waited { actor, at }),
            Event::Attacked { attacker, target, damage, remaining_hit_points } => Some(
                PresentationAnimationCue::Attacked { attacker, target, damage, remaining_hit_points },
            ),
            Event::Died { actor } => Some(PresentationAnimationCue::Died { actor }),
            Event::ItemEquipped { actor, item } => Some(
                PresentationAnimationCue::ItemEquipped { actor, item },
            ),
            Event::ItemUnequipped { actor, item } => Some(
                PresentationAnimationCue::ItemUnequipped { actor, item },
            ),
            Event::ItemConsumed { actor, item, .. } => Some(
                PresentationAnimationCue::ItemConsumed { actor, item },
            ),
            Event::ItemPickedUp { actor, item } => Some(
                PresentationAnimationCue::ItemPickedUp { actor, item },
            ),
            _ => None,
        }
    }
}

/// The animation cues of a sequence of events, in event order.
pub open spec fn spec_animation_cues(events: Seq<Event>) -> Seq<PresentationAnimationCue>
    decreases events.len(),
{
    if events.len() == 0 {
        Seq::empty()
    } else {
        let before = spec_animation_cues(events.drop_last());
        match spec_animation_cue(events.last()) {
            Some(cue) => before.push(cue),
            None => before,
        }
    }
}

/// The animation cues of the last accepted command.
#[derive(Clone, Debug, PartialEq, Eq)]
pub struct PresentationAnimationCues {
    pub cues: Vec<PresentationAnimationCue>,
}

impl PresentationAnimationCues {
    /// Creates an empty cue projection.
    pub fn new() -> (r: Self)
        ensures
            r.cues@.len() == 0,
    {
        PresentationAnimationCues { cues: Vec::new() }
    }

    /// Projects the events of the last accepted command; no output means no cues.
    pub fn from_events(events: Option<&[Event]>) -> (r: Self)
        ensures
            r.cues@ == match events {
                Some(events) => spec_animation_cues(events@),
                None => Seq::empty(),
            },
    {
        let mut cues: Vec<PresentationAnimationCue> = Vec::new();
        if let Some(events) = events {
            let mut i: usize = 0;
            while i < events.len()
                invariant
                    i <= events@.len(),
                    cues@ == spec_animation_cues(events@.subrange(0, i as int)),
                decreases events@.len() - i,
            {
                proof {
                    let next = events@.subrange(0, i + 1);
                    assert(next.drop_last() =~= events@.subrange(0, i as int));
                    assert(next.last() == events@[i as int]);
                }
                if let Some(cue) = PresentationAnimationCue::from_event(events[i]) {
                    cues.push(cue);
                }
                i += 1;
            }
            assert(events@.subrange(0, events@.len() as int) =~= events@);
        }
        PresentationAnimationCues { cues }
    }

    /// Returns the cues in event order.
    pub fn cues(&self) -> (r: &[PresentationAnimationCue])
        ensures
            r@ == self.cues@,
    {
        self.cues.as_slice()
    }
}

/// The HUD record of the controlled actor; every field but the actor is absent while the
/// snapshot does not hold that actor.
#[derive(Clone, Copy, Debug, PartialEq, Eq, Structural, Hash)]
pub struct PresentationHud {
    pub actor: ActorId,
    pub kind: Option<ActorKind>,
    pub position: Option<Position>,
    pub hit_points: Option<i16>,
    pub ready_at: Option<u64>,
}

/// The HUD record of `actor` in a snapshot's actors.
pub open spec fn spec_hud(actors: Seq<Actor>, actor: ActorId) -> PresentationHud {
    match find_actor(actors, actor) {
        Some(record) => PresentationHud {
            actor,
            kind: Some(record.kind),
            position: Some(record.position),
            hit_points: Some(record.hit_points),
            ready_at: Some(record.ready_at),
        },
        None => PresentationHud { actor, kind: None, position: None, hit_points: None, ready_at: None },
    }
}

impl PresentationHud {
    /// Creates an empty HUD record for one actor.
    pub fn new(actor: ActorId) -> (r: Self)
        ensures
            r == (PresentationHud {
                actor,
                kind: None,
                position: None,
                hit_points: None,
                ready_at: None,
            }),
    {
        PresentationHud { actor, kind: None, position: None, hit_points: None, ready_at: None }
    }

    /// Projects the HUD record of `actor` from a snapshot.
    pub fn from_snapshot(snapshot: &PresentationSnapshot, actor: ActorId) -> (r: Self)
        ensures
            r == spec_hud(snapshot.actors@, actor),
    {
        match find_actor_index(&snapshot.actors, actor) {
            Some(i) => {
                let record = &snapshot.actors[i];
                PresentationHud {
                    actor,
                    kind: Some(record.kind),
                    position: Some(record.position),
                    hit_points: Some(record.hit_points),
                    ready_at: Some(record.ready_at),
                }
            },
            None => PresentationHud::new(actor),
        }
    }

    /// Returns the controlled actor.
    pub fn actor(self) -> (r: ActorId)
        ensures
            r == self.actor,
    {
        self.actor
    }

    /// Returns the actor's kind, when known.
    pub fn kind(self) -> (r: Option<ActorKind>)
        ensures
            r == self.kind,
    {
        self.kind
    }

    /// Returns the actor's cell, when known.
    pub fn position(self) -> (r: Option<Position>)
        ensures
            r == self.position,
    {
        self.position
    }

    /// Returns the actor's hit points, when known.
    pub fn hit_points(self) -> (r: Option<i16>)
        ensures
            r == self.hit_points,
    {
        self.hit_points
    }

    /// Returns when the actor acts next, when known.
    pub fn ready_at(self) -> (r: Option<u64>)
        ensures
            r == self.ready_at,
    {
        self.ready_at
    }
}

/// Whether some actor of `actors` is a living enemy with identity `id`.
pub open spec fn is_living_enemy(actors: Seq<Actor>, id: ActorId) -> bool {
    exists|i: int|
        0 <= i < actors.len() && #[trigger] actors[i].id == id && actors[i].kind == ActorKind::Enemy
            && actors[i].alive
}

/// The scheduled enemy: the next actor to act, when it is a living enemy.
pub open spec fn spec_scheduled_enemy(snapshot: PresentationSnapshot) -> Option<ActorId> {
    match snapshot.next_actor {
        Some(id) => if is_living_enemy(snapshot.actors@, id) {
            Some(id)
        } else {
            None
        },
        None => None,
    }
}

/// Returns the scheduled enemy of a snapshot.
pub fn scheduled_enemy(snapshot: &PresentationSnapshot) -> (r: Option<ActorId>)
    ensures
        r == spec_scheduled_enemy(*snapshot),
{
    let id = match snapshot.next_actor {
        Some(id) => id,
        None => {
            return None;
        },
    };
    let mut i: usize = 0;
    while i < snapshot.actors.len()
        invariant
            i <= snapshot.actors@.len(),
            snapshot.next_actor == Some(id),
            forall|k: int|
                0 <= k < i ==> !(#[trigger] snapshot.actors@[k].id == id && snapshot.actors@[k].kind
                    == ActorKind::Enemy && snapshot.actors@[k].alive),
        decreases snapshot.actors@.len() - i,
    {
        let record = &snapshot.actors[i];
        let enemy = match record.kind {
            ActorKind::Enemy => true,
            ActorKind::Player => false,
        };
        if record.id == id && enemy && record.alive {
            assert(snapshot.actors@[i as int].id == id);
            return Some(id);
        }
        i += 1;
    }
    None
}

/// What the scheduled enemy is about to do, as the HUD shows it.
#[derive(Clone, Copy, Debug, PartialEq, Eq, Structural, Hash)]
pub struct PresentationEnemyIntent {
    pub actor: Option<ActorId>,
    pub behavior: Option<EnemyBehavior>,
    pub command: Option<Command>,
}

impl PresentationEnemyIntent {
    /// Creates an empty intent.
    pub fn new() -> (r: Self)
        ensures
            r == (PresentationEnemyIntent { actor: None, behavior: None, command: None }),
    {
        PresentationEnemyIntent { actor: None, behavior: None, command: None }
    }

    /// Updates the intent with the scheduled enemy and the command the simulation prefers for
    /// it; the behavior is kept.
    pub fn update(&mut self, scheduled: Option<ActorId>, preferred: Option<Command>)
        ensures
            final(self).actor == scheduled,
            final(self).command == (match scheduled {
                Some(_) => preferred,
                None => None,
            }),
            final(self).behavior == old(self).behavior,
    {
        self.actor = scheduled;
        self.command = match scheduled {
            Some(_) => preferred,
            None => None,
        };
    }

    /// Clears the actor and command when there is no runtime or no controlled actor.
    pub fn clear(&mut self)
        ensures
            final(self).actor is None,
            final(self).command is None,
            final(self).behavior == old(self).behavior,
    {
        self.actor = None;
        self.command = None;
    }

    /// Returns the scheduled enemy, if any.
    pub fn actor(&self) -> (r: Option<ActorId>)
        ensures
            r == self.actor,
    {
        self.actor
    }

    /// Returns the enemy's behavior, if known.
    pub fn behavior(&self) -> (r: Option<EnemyBehavior>)
        ensures
            r == self.behavior,
    {
        self.behavior
    }

    /// Returns the command the enemy is about to issue, if any.
    pub fn command(&self) -> (r: Option<Command>)
        ensures
            r == self.command,
    {
        self.command
    }
}


/// The last animation cue batch the visible client observed, with its replay token.
pub struct DesktopAnimationBatch {
    pub previous_cues: Vec<PresentationAnimationCue>,
    pub previous_token: Option<u64>,
}

impl DesktopAnimationBatch {
    /// Starts with no batch observed.
    pub fn new() -> (r: Self)
        ensures
            r.previous_cues@.len() == 0,
            r.previous_token is None,
    {
        DesktopAnimationBatch { previous_cues: Vec::new(), previous_token: None }
    }

    /// Observes the current cue batch under a replay token.
    ///
    /// `None` when the batch and token are those last observed: the running pulse goes on.
    /// Otherwise the new batch is remembered and the answer is whether it starts a pulse: it
    /// does when it holds a cue, and an empty batch stops the pulse.
    pub fn observe(&mut self, token: Option<u64>, cues: &[PresentationAnimationCue]) -> (r: Option<bool>)
        ensures
            (old(self).previous_token == token && old(self).previous_cues@ == cues@) ==> r is None
                && *final(self) == *old(self),
            !(old(self).previous_token == token && old(self).previous_cues@ == cues@) ==> r == Some(
                cues@.len() > 0,
            ),
            final(self).previous_token == token,
            final(self).previous_cues@ == cues@,
    {
        let mut same = self.previous_token == token && self.previous_cues.len() == cues.len();
        let mut i: usize = 0;
        while same && i < cues.len()
            invariant
                *self == *old(self),
                i <= cues@.len(),
                same ==> self.previous_token == token,
                same ==> self.previous_cues@.len() == cues@.len(),
                same ==> forall|k: int| 0 <= k < i ==> self.previous_cues@[k] == cues@[k],
                !same ==> !(self.previous_token == token && self.previous_cues@ == cues@),
            decreases cues@.len() - i,
        {
            if self.previous_cues[i] != cues[i] {
                same = false;
            }
            i += 1;
        }
        proof {
            if same {
                assert(self.previous_cues@ =~= cues@);
            }
        }
        if same {
            return None;
        }
        self.previous_token = token;
        let mut copy: Vec<PresentationAnimationCue> = Vec::new();
        let mut j: usize = 0;
        while j < cues.len()
            invariant
                j <= cues@.len(),
                copy@ == cues@.subrange(0, j as int),
            decreases cues@.len() - j,
        {
            copy.push(cues[j]);
            j += 1;
        }
        assert(cues@.subrange(0, cues@.len() as int) =~= cues@);
        self.previous_cues = copy;
        Some(cues.len() > 0)
    }
}

} // verus!
