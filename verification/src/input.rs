//! Keys, keyboard intent, player commands, and the desktop input decisions.

use vstd::prelude::*;

use crate::geometry::{Direction, Position};
use crate::session::DesktopStatus;
use crate::world::{ActorId, ItemId};

verus! {

/// The keys the presentation reacts to; every other key is `Other`.
#[derive(Clone, Copy, Debug, PartialEq, Eq, Structural, Hash)]
pub enum Key {
    ArrowUp,
    ArrowDown,
    ArrowLeft,
    ArrowRight,
    KeyW,
    KeyS,
    KeyA,
    KeyD,
    Enter,
    Space,
    KeyF,
    KeyG,
    KeyT,
    KeyE,
    KeyQ,
    KeyU,
    KeyP,
    KeyX,
    KeyR,
    KeyI,
    KeyK,
    KeyB,
    KeyN,
    Tab,
    Escape,
    ShiftLeft,
    ShiftRight,
    Other,
}

/// The keys held this frame and the keys that went down this frame.
#[derive(Clone, Debug, PartialEq, Eq)]
pub struct KeyboardState {
    pub pressed: Vec<Key>,
    pub just_pressed: Vec<Key>,
}

impl KeyboardState {
    /// Returns whether `key` is held.
    pub fn pressed(&self, key: Key) -> (r: bool)
        ensures
            r == self.pressed@.contains(key),
    {
        contains_key(&self.pressed, key)
    }

    /// Returns whether `key` went down this frame.
    pub fn just_pressed(&self, key: Key) -> (r: bool)
        ensures
            r == self.just_pressed@.contains(key),
    {
        contains_key(&self.just_pressed, key)
    }
}

fn contains_key(keys: &Vec<Key>, key: Key) -> (r: bool)
    ensures
        r == keys@.contains(key),
{
    let mut i: usize = 0;
    while i < keys.len()
        invariant
            i <= keys@.len(),
            forall|k: int| 0 <= k < i ==> keys@[k] != key,
        decreases keys@.len() - i,
    {
        if keys[i] == key {
            return true;
        }
        i += 1;
    }
    false
}

/// One canonical simulation command.
#[derive(Clone, Copy, Debug, PartialEq, Eq, Structural, Hash)]
pub enum Command {
    Move { actor: ActorId, direction: Direction },
    Wait { actor: ActorId },
    Interact { actor: ActorId, position: Position },
    Break { actor: ActorId, position: Position },
    Kick { actor: ActorId, position: Position },
    Attack { actor: ActorId, target: ActorId },
    RangedAttack { actor: ActorId, target: ActorId },
    Throw { actor: ActorId, item: ItemId, target: ActorId },
    Chase { actor: ActorId, target: ActorId },
    Investigate { actor: ActorId, position: Position },
    Equip { actor: ActorId, item: ItemId },
    Unequip { actor: ActorId },
    UseItem { actor: ActorId, item: ItemId },
    Pickup { actor: ActorId, item: ItemId },
    Drop { actor: ActorId, item: ItemId },
    Reload { actor: ActorId },
}

/// A supported keyboard intent before it is addressed to an actor.
#[derive(Clone, Copy, Debug, PartialEq, Eq, Structural, Hash)]
pub enum KeyboardIntent {
    Move(Direction),
    Wait,
}

/// Arrows and WASD move; Enter and Space wait; other keys carry no intent.
pub open spec fn spec_intent(key: Key) -> Option<KeyboardIntent> {
    match key {
        Key::ArrowUp | Key::KeyW => Some(KeyboardIntent::Move(Direction::North)),
        Key::ArrowDown | Key::KeyS => Some(KeyboardIntent::Move(Direction::South)),
        Key::ArrowLeft | Key::KeyA => Some(KeyboardIntent::Move(Direction::West)),
        Key::ArrowRight | Key::KeyD => Some(KeyboardIntent::Move(Direction::East)),
        Key::Enter | Key::Space => Some(KeyboardIntent::Wait),
        _ => None,
    }
}

/// The command an intent asks of `actor`.
pub open spec fn spec_intent_command(intent: KeyboardIntent, actor: ActorId) -> Command {
    match intent {
        KeyboardIntent::Move(direction) => Command::Move { actor, direction },
        KeyboardIntent::Wait => Command::Wait { actor },
    }
}

impl KeyboardIntent {
    /// Converts a movement or wait key into an intent.
    pub fn from_key(key: Key) -> (r: Option<Self>)
        ensures
            r == spec_intent(key),
    {
        match key {
            Key::ArrowUp | Key::KeyW => Some(KeyboardIntent::Move(Direction::North)),
            Key::ArrowDown | Key::KeyS => Some(KeyboardIntent::Move(Direction::South)),
            Key::ArrowLeft | Key::KeyA => Some(KeyboardIntent::Move(Direction::West)),
            Key::ArrowRight | Key::KeyD => Some(KeyboardIntent::Move(Direction::East)),
            Key::Enter | Key::Space => Some(KeyboardIntent::Wait),
            _ => None,
        }
    }

    /// Addresses this intent to an explicit actor as a canonical command.
    pub fn command(self, actor: ActorId) -> (r: Command)
        ensures
            r == spec_intent_command(self, actor),
    {
        match self {
            KeyboardIntent::Move(direction) => Command::Move { actor, direction },
            KeyboardIntent::Wait => Command::Wait { actor },
        }
    }
}

/// The keys of the headless dispatcher, in the order in which a simultaneous press is honoured.
pub open spec fn key_priority() -> Seq<Key> {
    seq![
        Key::ArrowUp,
        Key::ArrowDown,
        Key::ArrowLeft,
        Key::ArrowRight,
        Key::KeyW,
        Key::KeyS,
        Key::KeyA,
        Key::KeyD,
        Key::Enter,
        Key::Space,
    ]
}

/// The keys of the desktop dispatcher, in the order in which a simultaneous press is honoured.
pub open spec fn desktop_key_priority() -> Seq<Key> {
    seq![
        Key::KeyF,
        Key::KeyG,
        Key::KeyT,
        Key::KeyE,
        Key::KeyQ,
        Key::KeyU,
        Key::KeyP,
        Key::KeyX,
        Key::KeyR,
        Key::ArrowUp,
        Key::ArrowDown,
        Key::ArrowLeft,
        Key::ArrowRight,
        Key::KeyW,
        Key::KeyS,
        Key::KeyA,
        Key::KeyD,
        Key::Enter,
        Key::Space,
    ]
}

/// The first key of `order` that is in `pressed`.
pub open spec fn first_pressed(order: Seq<Key>, pressed: Seq<Key>) -> Option<Key>
    decreases order.len(),
{
    if order.len() == 0 {
        None
    } else if pressed.contains(order[0]) {
        Some(order[0])
    } else {
        first_pressed(order.drop_first(), pressed)
    }
}

fn first_just_pressed(order: &Vec<Key>, keys: &KeyboardState) -> (r: Option<Key>)
    ensures
        r == first_pressed(order@, keys.just_pressed@),
{
    let mut i: usize = 0;
    assert(order@.subrange(0, order@.len() as int) =~= order@);
    while i < order.len()
        invariant
            i <= order@.len(),
            first_pressed(order@, keys.just_pressed@) == first_pressed(
                order@.subrange(i as int, order@.len() as int),
                keys.just_pressed@,
            ),
        decreases order@.len() - i,
    {
        let ghost rest = order@.subrange(i as int, order@.len() as int);
        assert(rest.drop_first() =~= order@.subrange(i + 1, order@.len() as int));
        if keys.just_pressed(order[i]) {
            return Some(order[i]);
        }
        i += 1;
    }
    None
}

/// Returns the command of the headless dispatcher for the keys that went down this frame.
pub fn keyboard_command(keys: &KeyboardState, actor: ActorId) -> (r: Option<Command>)
    ensures
        r == match first_pressed(key_priority(), keys.just_pressed@) {
            Some(key) => match spec_intent(key) {
                Some(intent) => Some(spec_intent_command(intent, actor)),
                None => None,
            },
            None => None,
        },
{
    let order = vec![
        Key::ArrowUp,
        Key::ArrowDown,
        Key::ArrowLeft,
        Key::ArrowRight,
        Key::KeyW,
        Key::KeyS,
        Key::KeyA,
        Key::KeyD,
        Key::Enter,
        Key::Space,
    ];
    assert(order@ =~= key_priority());
    match first_just_pressed(&order, keys) {
        Some(key) => match KeyboardIntent::from_key(key) {
            Some(intent) => Some(intent.command(actor)),
            None => None,
        },
        None => None,
    }
}

/// Returns whether Shift+R, the restart chord, went down this frame.
pub fn restart_requested(keys: &KeyboardState) -> (r: bool)
    ensures
        r == (keys.just_pressed@.contains(Key::KeyR) && (keys.pressed@.contains(Key::ShiftLeft)
            || keys.pressed@.contains(Key::ShiftRight))),
{
    keys.just_pressed(Key::KeyR) && (keys.pressed(Key::ShiftLeft) || keys.pressed(Key::ShiftRight))
}

/// What the desktop client does with one frame of keyboard input.
#[derive(Clone, Copy, Debug, PartialEq, Eq, Structural)]
pub enum InputRequest {
    /// Nothing to do.
    Ignore,
    /// Escape: shut the client down.
    Shutdown,
    /// Shift+R: restart the scenario with the same seed.
    Restart,
    /// N after a procedural victory: enter the next floor.
    NextFloor,
    /// N in any other situation: consumed without effect.
    NextFloorUnavailable,
    /// Tab: cycle the inventory selection, backward with Shift.
    SelectInventory { reverse: bool },
    /// A gameplay key while the run is going on.
    Act { key: Key },
}

/// The request of one frame of input: Escape, then Shift+R, then N, then Tab take precedence,
/// and gameplay keys act only while the run is going on. Faulted or shut-down sessions ignore
/// input.
pub open spec fn spec_input_request(status: DesktopStatus, procedural: bool, keys: KeyboardState) -> InputRequest {
    let just = keys.just_pressed@;
    let shift = keys.pressed@.contains(Key::ShiftLeft) || keys.pressed@.contains(Key::ShiftRight);
    if !(status is Running || status is Victory || status is Defeat) {
        InputRequest::Ignore
    } else if just.contains(Key::Escape) {
        InputRequest::Shutdown
    } else if just.contains(Key::KeyR) && shift {
        InputRequest::Restart
    } else if just.contains(Key::KeyN) {
        if status is Victory && procedural {
            InputRequest::NextFloor
        } else {
            InputRequest::NextFloorUnavailable
        }
    } else if just.contains(Key::Tab) {
        InputRequest::SelectInventory { reverse: shift }
    } else if !(status is Running) {
        InputRequest::Ignore
    } else {
        match first_pressed(desktop_key_priority(), just) {
            Some(key) => InputRequest::Act { key },
            None => InputRequest::Ignore,
        }
    }
}

/// Decides what one frame of keyboard input asks of the desktop client.
pub fn input_request(status: &DesktopStatus, procedural: bool, keys: &KeyboardState) -> (r: InputRequest)
    ensures
        r == spec_input_request(*status, procedural, *keys),
{
    let active = match status {
        DesktopStatus::Running | DesktopStatus::Victory | DesktopStatus::Defeat => true,
        _ => false,
    };
    if !active {
        return InputRequest::Ignore;
    }
    let shift = keys.pressed(Key::ShiftLeft) || keys.pressed(Key::ShiftRight);
    if keys.just_pressed(Key::Escape) {
        return InputRequest::Shutdown;
    }
    if restart_requested(keys) {
        return InputRequest::Restart;
    }
    if keys.just_pressed(Key::KeyN) {
        let victory = match status {
            DesktopStatus::Victory => true,
            _ => false,
        };
        if victory && procedural {
            return InputRequest::NextFloor;
        }
        return InputRequest::NextFloorUnavailable;
    }
    if keys.just_pressed(Key::Tab) {
        return InputRequest::SelectInventory { reverse: shift };
    }
    let running = match status {
        DesktopStatus::Running => true,
        _ => false,
    };
    if !running {
        return InputRequest::Ignore;
    }
    let order = vec![
        Key::KeyF,
        Key::KeyG,
        Key::KeyT,
        Key::KeyE,
        Key::KeyQ,
        Key::KeyU,
        Key::KeyP,
        Key::KeyX,
        Key::KeyR,
        Key::ArrowUp,
        Key::ArrowDown,
        Key::ArrowLeft,
        Key::ArrowRight,
        Key::KeyW,
        Key::KeyS,
        Key::KeyA,
        Key::KeyD,
        Key::Enter,
        Key::Space,
    ];
    assert(order@ =~= desktop_key_priority());
    match first_just_pressed(&order, keys) {
        Some(key) => InputRequest::Act { key },
        None => InputRequest::Ignore,
    }
}

/// The commands chosen by "least key" selection: the key of a command, when it is one.
#[derive(Clone, Copy, Debug, PartialEq, Eq, Structural)]
pub enum Ranking {
    /// Melee attacks, by target.
    Attack,
    /// Ranged attacks, by target.
    Ranged,
    /// Pickups, by item.
    Pickup,
    /// Throws of one item, by target.
    Throw(ItemId),
}

/// The ranking key of `c`, or `None` when `c` is not ranked.
pub open spec fn rank_of(ranking: Ranking, c: Command) -> Option<u32> {
    match ranking {
        Ranking::Attack => match c {
            Command::Attack { target, .. } => Some(target.id),
            _ => None,
        },
        Ranking::Ranged => match c {
            Command::RangedAttack { target, .. } => Some(target.id),
            _ => None,
        },
        Ranking::Pickup => match c {
            Command::Pickup { item, .. } => Some(item.id),
            _ => None,
        },
        Ranking::Throw(thrown) => match c {
            Command::Throw { item, target, .. } => if item == thrown {
                Some(target.id)
            } else {
                None
            },
            _ => None,
        },
    }
}

fn rank(ranking: Ranking, c: Command) -> (r: Option<u32>)
    ensures
        r == rank_of(ranking, c),
{
    match ranking {
        Ranking::Attack => match c {
            Command::Attack { target, .. } => Some(target.id),
            _ => None,
        },
        Ranking::Ranged => match c {
            Command::RangedAttack { target, .. } => Some(target.id),
            _ => None,
        },
        Ranking::Pickup => match c {
            Command::Pickup { item, .. } => Some(item.id),
            _ => None,
        },
        Ranking::Throw(thrown) => match c {
            Command::Throw { item, target, .. } => if item == thrown {
                Some(target.id)
            } else {
                None
            },
            _ => None,
        },
    }
}

/// The first ranked command of least key in `s`.
pub open spec fn least_ranked(s: Seq<Command>, ranking: Ranking) -> Option<Command>
    decreases s.len(),
{
    if s.len() == 0 {
        None
    } else {
        let rest = least_ranked(s.drop_last(), ranking);
        match rank_of(ranking, s.last()) {
            None => rest,
            Some(k) => match rest {
                None => Some(s.last()),
                Some(best) => if k < rank_of(ranking, best)->0 {
                    Some(s.last())
                } else {
                    Some(best)
                },
            },
        }
    }
}

/// Every ranked command in the result of `least_ranked` has a key.
proof fn lemma_least_ranked_is_ranked(s: Seq<Command>, ranking: Ranking)
    ensures
        least_ranked(s, ranking) matches Some(c) ==> rank_of(ranking, c) is Some,
    decreases s.len(),
{
    if s.len() > 0 {
        lemma_least_ranked_is_ranked(s.drop_last(), ranking);
    }
}

fn least_ranked_exec(legal: &[Command], ranking: Ranking) -> (r: Option<Command>)
    ensures
        r == least_ranked(legal@, ranking),
{
    let mut best: Option<Command> = None;
    let mut best_key: u32 = 0;
    let mut i: usize = 0;
    while i < legal.len()
        invariant
            i <= legal@.len(),
            best == least_ranked(legal@.subrange(0, i as int), ranking),
            best matches Some(b) ==> rank_of(ranking, b) == Some(best_key),
        decreases legal@.len() - i,
    {
        proof {
            let next = legal@.subrange(0, i + 1);
            assert(next.drop_last() =~= legal@.subrange(0, i as int));
            assert(next.last() == legal@[i as int]);
            lemma_least_ranked_is_ranked(legal@.subrange(0, i as int), ranking);
        }
        let c = legal[i];
        match rank(ranking, c) {
            Some(k) => {
                match best {
                    None => {
                        best = Some(c);
                        best_key = k;
                    },
                    Some(_) => {
                        if k < best_key {
                            best = Some(c);
                            best_key = k;
                        }
                    },
                }
            },
            None => {},
        }
        i += 1;
    }
    assert(legal@.subrange(0, legal@.len() as int) =~= legal@);
    best
}

/// Commands picked as "the first one of its kind" for one actor.
#[derive(Clone, Copy, Debug, PartialEq, Eq, Structural)]
pub enum Firsts {
    Interact,
    Kick,
    Break,
}

/// Whether `c` is of kind `kind` and issued by `actor`.
pub open spec fn of_kind(kind: Firsts, actor: ActorId, c: Command) -> bool {
    match kind {
        Firsts::Interact => c matches Command::Interact { actor: a, .. } && a == actor,
        Firsts::Kick => c matches Command::Kick { actor: a, .. } && a == actor,
        Firsts::Break => c matches Command::Break { actor: a, .. } && a == actor,
    }
}

/// The first command of kind `kind` by `actor` in `s`.
pub open spec fn first_of_kind(s: Seq<Command>, kind: Firsts, actor: ActorId) -> Option<Command>
    decreases s.len(),
{
    if s.len() == 0 {
        None
    } else {
        match first_of_kind(s.drop_last(), kind, actor) {
            Some(c) => Some(c),
            None => if of_kind(kind, actor, s.last()) {
                Some(s.last())
            } else {
                None
            },
        }
    }
}

fn first_of_kind_exec(legal: &[Command], kind: Firsts, actor: ActorId) -> (r: Option<Command>)
    ensures
        r == first_of_kind(legal@, kind, actor),
{
    let mut i: usize = 0;
    while i < legal.len()
        invariant
            i <= legal@.len(),
            first_of_kind(legal@.subrange(0, i as int), kind, actor) is None,
        decreases legal@.len() - i,
    {
        proof {
            let next = legal@.subrange(0, i + 1);
            assert(next.drop_last() =~= legal@.subrange(0, i as int));
            assert(next.last() == legal@[i as int]);
        }
        let c = legal[i];
        let hit = match kind {
            Firsts::Interact => match c {
                Command::Interact { actor: a, .. } => a == actor,
                _ => false,
            },
            Firsts::Kick => match c {
                Command::Kick { actor: a, .. } => a == actor,
                _ => false,
            },
            Firsts::Break => match c {
                Command::Break { actor: a, .. } => a == actor,
                _ => false,
            },
        };
        if hit {
            proof {
                lemma_first_of_kind_prefix(legal@, kind, actor, i as int);
            }
            return Some(c);
        }
        i += 1;
    }
    assert(legal@.subrange(0, legal@.len() as int) =~= legal@);
    None
}

/// Extending a prefix that holds no command of the kind by one that is of the kind makes it
/// the first one of the whole list.
proof fn lemma_first_of_kind_prefix(s: Seq<Command>, kind: Firsts, actor: ActorId, i: int)
    requires
        0 <= i < s.len(),
        first_of_kind(s.subrange(0, i), kind, actor) is None,
        of_kind(kind, actor, s[i]),
    ensures
        first_of_kind(s, kind, actor) == Some(s[i]),
    decreases s.len() - i,
{
    let next = s.subrange(0, i + 1);
    assert(next.drop_last() =~= s.subrange(0, i));
    assert(first_of_kind(next, kind, actor) == Some(s[i]));
    lemma_first_of_kind_extend(s, kind, actor, i + 1);
}

proof fn lemma_first_of_kind_extend(s: Seq<Command>, kind: Firsts, actor: ActorId, j: int)
    requires
        0 < j <= s.len(),
        first_of_kind(s.subrange(0, j), kind, actor) is Some,
    ensures
        first_of_kind(s, kind, actor) == first_of_kind(s.subrange(0, j), kind, actor),
    decreases s.len() - j,
{
    if j < s.len() {
        let next = s.subrange(0, j + 1);
        assert(next.drop_last() =~= s.subrange(0, j));
        lemma_first_of_kind_extend(s, kind, actor, j + 1);
    } else {
        assert(s.subrange(0, j) =~= s);
    }
}

/// The command a desktop key proposes before it is checked against the legal commands.
pub open spec fn spec_key_candidate(
    key: Key,
    legal: Seq<Command>,
    selected: Option<ItemId>,
    player: ActorId,
) -> Option<Command> {
    match key {
        Key::KeyF => least_ranked(legal, Ranking::Attack),
        Key::KeyG => least_ranked(legal, Ranking::Ranged),
        Key::KeyT => match selected {
            Some(item) => least_ranked(legal, Ranking::Throw(item)),
            None => None,
        },
        Key::KeyE => match selected {
            Some(item) => Some(Command::Equip { actor: player, item }),
            None => None,
        },
        Key::KeyQ => Some(Command::Unequip { actor: player }),
        Key::KeyU => match selected {
            Some(item) => Some(Command::UseItem { actor: player, item }),
            None => None,
        },
        Key::KeyP => least_ranked(legal, Ranking::Pickup),
        Key::KeyX => match selected {
            Some(item) => Some(Command::Drop { actor: player, item }),
            None => None,
        },
        Key::KeyR => Some(Command::Reload { actor: player }),
        Key::KeyI => first_of_kind(legal, Firsts::Interact, player),
        Key::KeyK => first_of_kind(legal, Firsts::Kick, player),
        Key::KeyB => first_of_kind(legal, Firsts::Break, player),
        _ => match spec_intent(key) {
            Some(intent) => Some(spec_intent_command(intent, player)),
            None => None,
        },
    }
}

/// The command a desktop key submits: its candidate, when that candidate is legal.
pub open spec fn spec_command_for_key(
    key: Key,
    legal: Seq<Command>,
    selected: Option<ItemId>,
    player: ActorId,
) -> Option<Command> {
    match spec_key_candidate(key, legal, selected, player) {
        Some(c) => if legal.contains(c) {
            Some(c)
        } else {
            None
        },
        None => None,
    }
}

fn legal_contains(legal: &[Command], c: Command) -> (r: bool)
    ensures
        r == legal@.contains(c),
{
    let mut i: usize = 0;
    while i < legal.len()
        invariant
            i <= legal@.len(),
            forall|k: int| 0 <= k < i ==> legal@[k] != c,
        decreases legal@.len() - i,
    {
        if legal[i] == c {
            return true;
        }
        i += 1;
    }
    false
}

/// Chooses the legal command that a desktop key asks of `player`.
///
/// Attack, ranged and throw keys take the lowest target id, pickup the lowest item id; equip,
/// use, and drop act on the selected item; interact, kick and break take the first such legal
/// command; movement and wait keys map through [`KeyboardIntent`].
pub fn command_for_key(key: Key, legal: &[Command], selected: Option<ItemId>, player: ActorId) -> (r:
    Option<Command>)
    ensures
        r == spec_command_for_key(key, legal@, selected, player),
{
    let candidate = match key {
        Key::KeyF => least_ranked_exec(legal, Ranking::Attack),
        Key::KeyG => least_ranked_exec(legal, Ranking::Ranged),
        Key::KeyT => match selected {
            Some(item) => least_ranked_exec(legal, Ranking::Throw(item)),
            None => None,
        },
        Key::KeyE => match selected {
            Some(item) => Some(Command::Equip { actor: player, item }),
            None => None,
        },
        Key::KeyQ => Some(Command::Unequip { actor: player }),
        Key::KeyU => match selected {
            Some(item) => Some(Command::UseItem { actor: player, item }),
            None => None,
        },
        Key::KeyP => least_ranked_exec(legal, Ranking::Pickup),
        Key::KeyX => match selected {
            Some(item) => Some(Command::Drop { actor: player, item }),
            None => None,
        },
        Key::KeyR => Some(Command::Reload { actor: player }),
        Key::KeyI => first_of_kind_exec(legal, Firsts::Interact, player),
        Key::KeyK => first_of_kind_exec(legal, Firsts::Kick, player),
        Key::KeyB => first_of_kind_exec(legal, Firsts::Break, player),
        other => match KeyboardIntent::from_key(other) {
            Some(intent) => Some(intent.command(player)),
            None => None,
        },
    };
    match candidate {
        Some(c) => if legal_contains(legal, c) {
            Some(c)
        } else {
            None
        },
        None => None,
    }
}

/// Whether the presentation dispatches movement keys itself or leaves input to a client.
#[derive(Clone, Copy, Debug, PartialEq, Eq, Structural, Hash)]
pub enum PresentationKeyboardMode {
    /// The presentation turns movement and wait keys into commands.
    BuiltIn,
    /// A client, such as the desktop showcase, owns keyboard input.
    External,
}

impl Default for PresentationKeyboardMode {
    /// Built-in dispatch.
    fn default() -> (r: Self)
        ensures
            r == PresentationKeyboardMode::BuiltIn,
    {
        PresentationKeyboardMode::BuiltIn
    }
}

/// The ordering label of the presentation's projection step.
#[derive(Clone, Copy, Debug, PartialEq, Eq, Structural, Hash)]
pub enum PresentationSet {
    /// The step that projects the runtime into the scene.
    Projection,
}

/// The actor whose commands the presentation issues.
#[derive(Clone, Copy, Debug, PartialEq, Eq, Structural, Hash)]
pub struct PresentationInput {
    pub actor: ActorId,
}

impl PresentationInput {
    /// Controls `actor`.
    pub fn new(actor: ActorId) -> (r: Self)
        ensures
            r.actor == actor,
    {
        PresentationInput { actor }
    }

    /// Returns the controlled actor.
    pub fn actor(self) -> (r: ActorId)
        ensures
            r == self.actor,
    {
        self.actor
    }
}

/// The command the built-in dispatcher issues this frame: none under an external client or
/// without a controlled actor, else the headless dispatcher's command for the keys.
pub open spec fn spec_dispatch(
    mode: PresentationKeyboardMode,
    input: Option<PresentationInput>,
    keys: KeyboardState,
) -> Option<Command> {
    match (mode, input) {
        (PresentationKeyboardMode::BuiltIn, Some(input)) => match first_pressed(
            key_priority(),
            keys.just_pressed@,
        ) {
            Some(key) => match spec_intent(key) {
                Some(intent) => Some(spec_intent_command(intent, input.actor)),
                None => None,
            },
            None => None,
        },
        _ => None,
    }
}

/// Decides the command of the built-in keyboard dispatcher.
pub fn dispatch_keyboard_command(
    mode: PresentationKeyboardMode,
    input: Option<PresentationInput>,
    keys: &KeyboardState,
) -> (r: Option<Command>)
    ensures
        r == spec_dispatch(mode, input, *keys),
{
    match (mode, input) {
        (PresentationKeyboardMode::BuiltIn, Some(input)) => keyboard_command(keys, input.actor),
        _ => None,
    }
}

/// A command chosen for a desktop key is always one of the legal commands.
pub proof fn lemma_key_command_is_legal(
    key: Key,
    legal: Seq<Command>,
    selected: Option<ItemId>,
    player: ActorId,
)
    ensures
        spec_command_for_key(key, legal, selected, player) matches Some(c) ==> legal.contains(c),
{
}

/// Only Shift+R restarts, Escape always shuts an active session down, only a procedural victory
/// offers the next floor, and only a running session acts on gameplay keys.
pub proof fn lemma_input_request_guards(status: DesktopStatus, procedural: bool, keys: KeyboardState)
    ensures
        spec_input_request(status, procedural, keys) == InputRequest::Restart ==> keys.just_pressed@.contains(
            Key::KeyR,
        ) && (keys.pressed@.contains(Key::ShiftLeft) || keys.pressed@.contains(Key::ShiftRight)),
        (status is Running || status is Victory || status is Defeat) && keys.just_pressed@.contains(
            Key::Escape,
        ) ==> spec_input_request(status, procedural, keys) == InputRequest::Shutdown,
        spec_input_request(status, procedural, keys) == InputRequest::NextFloor ==> status is Victory
            && procedural,
        spec_input_request(status, procedural, keys) is Act ==> status is Running,
        !(status is Running || status is Victory || status is Defeat) ==> spec_input_request(
            status,
            procedural,
            keys,
        ) == InputRequest::Ignore,
{
}

proof fn lemma_least_ranked_least(s: Seq<Command>, ranking: Ranking)
    ensures
        least_ranked(s, ranking) matches Some(c) ==> s.contains(c) && rank_of(ranking, c) is Some
            && forall|i: int|
            0 <= i < s.len() && #[trigger] rank_of(ranking, s[i]) is Some ==> rank_of(ranking, c)->0
                <= rank_of(ranking, s[i])->0,
        least_ranked(s, ranking) is None ==> forall|i: int| 0 <= i < s.len() ==> #[trigger] rank_of(ranking, s[i]) is None,
    decreases s.len(),
{
    if s.len() > 0 {
        let rest = s.drop_last();
        lemma_least_ranked_least(rest, ranking);
        assert forall|i: int| 0 <= i < rest.len() implies rest[i] == s[i] by {}
        assert(s[s.len() - 1] == s.last());
        if let Some(c) = least_ranked(rest, ranking) {
            let j = choose|j: int| 0 <= j < rest.len() && rest[j] == c;
            assert(s[j] == c);
        }
    }
}

/// The item keys act on the selected item, and only with one selected: E equips it, U uses
/// it, X drops it, each exactly when that command of the player is legal. Q unequips and R
/// reloads, when legal. None of these keys ever yields a command of another kind.
pub proof fn lemma_item_keys(legal: Seq<Command>, selected: Option<ItemId>, player: ActorId)
    ensures
        spec_command_for_key(Key::KeyE, legal, selected, player) == match selected {
            Some(item) => if legal.contains(Command::Equip { actor: player, item }) {
                Some(Command::Equip { actor: player, item })
            } else {
                None
            },
            None => None,
        },
        spec_command_for_key(Key::KeyU, legal, selected, player) == match selected {
            Some(item) => if legal.contains(Command::UseItem { actor: player, item }) {
                Some(Command::UseItem { actor: player, item })
            } else {
                None
            },
            None => None,
        },
        spec_command_for_key(Key::KeyX, legal, selected, player) == match selected {
            Some(item) => if legal.contains(Command::Drop { actor: player, item }) {
                Some(Command::Drop { actor: player, item })
            } else {
                None
            },
            None => None,
        },
        spec_command_for_key(Key::KeyQ, legal, selected, player) == if legal.contains(
            Command::Unequip { actor: player },
        ) {
            Some(Command::Unequip { actor: player })
        } else {
            None
        },
        spec_command_for_key(Key::KeyR, legal, selected, player) == if legal.contains(
            Command::Reload { actor: player },
        ) {
            Some(Command::Reload { actor: player })
        } else {
            None
        },
{
}

proof fn lemma_attack_key(legal: Seq<Command>, selected: Option<ItemId>, player: ActorId)
    ensures
        match spec_command_for_key(Key::KeyF, legal, selected, player) {
            Some(c) => legal.contains(c) && (c matches Command::Attack { target, .. } && forall|i: int|
                0 <= i < legal.len() ==> (#[trigger] legal[i] matches Command::Attack { target: t, .. }
                ==> target.id <= t.id)),
            None => forall|i: int| 0 <= i < legal.len() ==> !(#[trigger] legal[i] is Attack),
        },
{
    lemma_least_ranked_least(legal, Ranking::Attack);
    assert forall|i: int| 0 <= i < legal.len() implies (#[trigger] legal[i] is Attack <==> rank_of(
        Ranking::Attack,
        legal[i],
    ) is Some) by {}
}

proof fn lemma_ranged_key(legal: Seq<Command>, selected: Option<ItemId>, player: ActorId)
    ensures
        match spec_command_for_key(Key::KeyG, legal, selected, player) {
            Some(c) => legal.contains(c) && (c matches Command::RangedAttack { target, .. } && forall|i: int|
                0 <= i < legal.len() ==> (#[trigger] legal[i] matches Command::RangedAttack { target: t, .. }
                ==> target.id <= t.id)),
            None => forall|i: int| 0 <= i < legal.len() ==> !(#[trigger] legal[i] is RangedAttack),
        },
{
    lemma_least_ranked_least(legal, Ranking::Ranged);
    assert forall|i: int| 0 <= i < legal.len() implies (#[trigger] legal[i] is RangedAttack <==> rank_of(
        Ranking::Ranged,
        legal[i],
    ) is Some) by {}
}

proof fn lemma_pickup_key(legal: Seq<Command>, selected: Option<ItemId>, player: ActorId)
    ensures
        match spec_command_for_key(Key::KeyP, legal, selected, player) {
            Some(c) => legal.contains(c) && (c matches Command::Pickup { item, .. } && forall|i: int|
                0 <= i < legal.len() ==> (#[trigger] legal[i] matches Command::Pickup { item: it, .. }
                ==> item.id <= it.id)),
            None => forall|i: int| 0 <= i < legal.len() ==> !(#[trigger] legal[i] is Pickup),
        },
{
    lemma_least_ranked_least(legal, Ranking::Pickup);
    assert forall|i: int| 0 <= i < legal.len() implies (#[trigger] legal[i] is Pickup <==> rank_of(
        Ranking::Pickup,
        legal[i],
    ) is Some) by {}
}

proof fn lemma_throw_key(legal: Seq<Command>, selected: Option<ItemId>, player: ActorId)
    ensures
        match selected {
            None => spec_command_for_key(Key::KeyT, legal, selected, player) is None,
            Some(thrown) => match spec_command_for_key(Key::KeyT, legal, selected, player) {
                Some(c) => legal.contains(c) && (c matches Command::Throw { item, target, .. } && item
                    == thrown && forall|i: int|
                    0 <= i < legal.len() ==> (#[trigger] legal[i] matches Command::Throw { item: it, target: t, .. }
                    ==> (it == thrown ==> target.id <= t.id))),
                None => forall|i: int|
                    0 <= i < legal.len() ==> !(#[trigger] legal[i] matches Command::Throw { item: it, .. } && it
                        == thrown),
            },
        },
{
    if let Some(thrown) = selected {
        lemma_least_ranked_least(legal, Ranking::Throw(thrown));
        assert forall|i: int| 0 <= i < legal.len() implies ((#[trigger] legal[i] matches Command::Throw { item: it, .. }
            && it == thrown) <==> rank_of(Ranking::Throw(thrown), legal[i]) is Some) by {}
    }
}

/// The target keys pick among legal commands: F the melee attack, G the ranged attack and P
/// the pickup with the lowest target (or item) id, T the throw of the selected item at the
/// lowest target id. Each yields nothing when no such command is legal.
pub proof fn lemma_target_keys(legal: Seq<Command>, selected: Option<ItemId>, player: ActorId)
    ensures
        match spec_command_for_key(Key::KeyF, legal, selected, player) {
            Some(c) => legal.contains(c) && (c matches Command::Attack { target, .. } && forall|i: int|
                0 <= i < legal.len() ==> (#[trigger] legal[i] matches Command::Attack { target: t, .. }
                ==> target.id <= t.id)),
            None => forall|i: int| 0 <= i < legal.len() ==> !(#[trigger] legal[i] is Attack),
        },
        match spec_command_for_key(Key::KeyG, legal, selected, player) {
            Some(c) => legal.contains(c) && (c matches Command::RangedAttack { target, .. } && forall|i: int|
                0 <= i < legal.len() ==> (#[trigger] legal[i] matches Command::RangedAttack { target: t, .. }
                ==> target.id <= t.id)),
            None => forall|i: int| 0 <= i < legal.len() ==> !(#[trigger] legal[i] is RangedAttack),
        },
        match spec_command_for_key(Key::KeyP, legal, selected, player) {
            Some(c) => legal.contains(c) && (c matches Command::Pickup { item, .. } && forall|i: int|
                0 <= i < legal.len() ==> (#[trigger] legal[i] matches Command::Pickup { item: it, .. }
                ==> item.id <= it.id)),
            None => forall|i: int| 0 <= i < legal.len() ==> !(#[trigger] legal[i] is Pickup),
        },
        match selected {
            None => spec_command_for_key(Key::KeyT, legal, selected, player) is None,
            Some(thrown) => match spec_command_for_key(Key::KeyT, legal, selected, player) {
                Some(c) => legal.contains(c) && (c matches Command::Throw { item, target, .. } && item
                    == thrown && forall|i: int|
                    0 <= i < legal.len() ==> (#[trigger] legal[i] matches Command::Throw { item: it, target: t, .. }
                    ==> (it == thrown ==> target.id <= t.id))),
                None => forall|i: int|
                    0 <= i < legal.len() ==> !(#[trigger] legal[i] matches Command::Throw { item: it, .. } && it
                        == thrown),
            },
        },
{
    lemma_attack_key(legal, selected, player);
    lemma_ranged_key(legal, selected, player);
    lemma_pickup_key(legal, selected, player);
    lemma_throw_key(legal, selected, player);
}

proof fn lemma_first_of_kind_first(s: Seq<Command>, kind: Firsts, actor: ActorId)
    ensures
        first_of_kind(s, kind, actor) matches Some(c) ==> exists|j: int|
            0 <= j < s.len() && s[j] == c && of_kind(kind, actor, c) && forall|k: int|
                0 <= k < j ==> !of_kind(kind, actor, #[trigger] s[k]),
        first_of_kind(s, kind, actor) is None ==> forall|k: int| 0 <= k < s.len() ==> !of_kind(kind, actor, #[trigger] s[k]),
    decreases s.len(),
{
    if s.len() > 0 {
        let rest = s.drop_last();
        lemma_first_of_kind_first(rest, kind, actor);
        assert forall|k: int| 0 <= k < rest.len() implies rest[k] == s[k] by {}
        if let Some(c) = first_of_kind(rest, kind, actor) {
            let j = choose|j: int|
                0 <= j < rest.len() && rest[j] == c && of_kind(kind, actor, c) && forall|k: int|
                    0 <= k < j ==> !of_kind(kind, actor, #[trigger] rest[k]);
            assert(s[j] == c);
            assert forall|k: int| 0 <= k < j implies !of_kind(kind, actor, #[trigger] s[k]) by {
                assert(s[k] == rest[k]);
            }
        } else if of_kind(kind, actor, s.last()) {
            let j = s.len() - 1;
            assert(s[j] == s.last());
            assert forall|k: int| 0 <= k < j implies !of_kind(kind, actor, #[trigger] s[k]) by {
                assert(s[k] == rest[k]);
            }
        } else {
            assert forall|k: int| 0 <= k < s.len() implies !of_kind(kind, actor, #[trigger] s[k]) by {
                if k < rest.len() {
                    assert(s[k] == rest[k]);
                }
            }
        }
    }
}

proof fn lemma_first_interact(legal: Seq<Command>, selected: Option<ItemId>, player: ActorId)
    ensures
        match spec_command_for_key(Key::KeyI, legal, selected, player) {
            Some(c) => exists|j: int|
                0 <= j < legal.len() && legal[j] == c && (c matches Command::Interact { actor: a, .. } && a == player)
                    && forall|k: int|
                    0 <= k < j ==> !(#[trigger] legal[k] matches Command::Interact { actor: a2, .. } && a2 == player),
            None => forall|k: int| 0 <= k < legal.len() ==> !(#[trigger] legal[k] matches Command::Interact { actor: a2, .. } && a2 == player),
        },
{
    lemma_first_of_kind_first(legal, Firsts::Interact, player);
}

proof fn lemma_first_kick(legal: Seq<Command>, selected: Option<ItemId>, player: ActorId)
    ensures
        match spec_command_for_key(Key::KeyK, legal, selected, player) {
            Some(c) => exists|j: int|
                0 <= j < legal.len() && legal[j] == c && (c matches Command::Kick { actor: a, .. } && a == player)
                    && forall|k: int|
                    0 <= k < j ==> !(#[trigger] legal[k] matches Command::Kick { actor: a2, .. } && a2 == player),
            None => forall|k: int| 0 <= k < legal.len() ==> !(#[trigger] legal[k] matches Command::Kick { actor: a2, .. } && a2 == player),
        },
{
    lemma_first_of_kind_first(legal, Firsts::Kick, player);
}

proof fn lemma_first_break(legal: Seq<Command>, selected: Option<ItemId>, player: ActorId)
    ensures
        match spec_command_for_key(Key::KeyB, legal, selected, player) {
            Some(c) => exists|j: int|
                0 <= j < legal.len() && legal[j] == c && (c matches Command::Break { actor: a, .. } && a == player)
                    && forall|k: int|
                    0 <= k < j ==> !(#[trigger] legal[k] matches Command::Break { actor: a2, .. } && a2 == player),
            None => forall|k: int| 0 <= k < legal.len() ==> !(#[trigger] legal[k] matches Command::Break { actor: a2, .. } && a2 == player),
        },
{
    lemma_first_of_kind_first(legal, Firsts::Break, player);
}

/// The movement and wait keys: arrows and WASD move the player north, south, west or east,
/// Enter and Space wait; each exactly when that command of the player is legal. I, K and B take
/// the first legal interaction, kick or break of the player, in the order the commands come.
pub proof fn lemma_movement_and_terrain_keys(legal: Seq<Command>, selected: Option<ItemId>, player: ActorId)
    ensures
        spec_command_for_key(Key::ArrowUp, legal, selected, player) == if legal.contains(
            Command::Move { actor: player, direction: Direction::North },
        ) {
            Some(Command::Move { actor: player, direction: Direction::North })
        } else {
            None
        },
        spec_command_for_key(Key::KeyW, legal, selected, player) == if legal.contains(
            Command::Move { actor: player, direction: Direction::North },
        ) {
            Some(Command::Move { actor: player, direction: Direction::North })
        } else {
            None
        },
        spec_command_for_key(Key::ArrowDown, legal, selected, player) == if legal.contains(
            Command::Move { actor: player, direction: Direction::South },
        ) {
            Some(Command::Move { actor: player, direction: Direction::South })
        } else {
            None
        },
        spec_command_for_key(Key::KeyS, legal, selected, player) == if legal.contains(
            Command::Move { actor: player, direction: Direction::South },
        ) {
            Some(Command::Move { actor: player, direction: Direction::South })
        } else {
            None
        },
        spec_command_for_key(Key::ArrowLeft, legal, selected, player) == if legal.contains(
            Command::Move { actor: player, direction: Direction::West },
        ) {
            Some(Command::Move { actor: player, direction: Direction::West })
        } else {
            None
        },
        spec_command_for_key(Key::KeyA, legal, selected, player) == if legal.contains(
            Command::Move { actor: player, direction: Direction::West },
        ) {
            Some(Command::Move { actor: player, direction: Direction::West })
        } else {
            None
        },
        spec_command_for_key(Key::ArrowRight, legal, selected, player) == if legal.contains(
            Command::Move { actor: player, direction: Direction::East },
        ) {
            Some(Command::Move { actor: player, direction: Direction::East })
        } else {
            None
        },
        spec_command_for_key(Key::KeyD, legal, selected, player) == if legal.contains(
            Command::Move { actor: player, direction: Direction::East },
        ) {
            Some(Command::Move { actor: player, direction: Direction::East })
        } else {
            None
        },
        spec_command_for_key(Key::Enter, legal, selected, player) == if legal.contains(Command::Wait { actor: player }) {
            Some(Command::Wait { actor: player })
        } else {
            None
        },
        spec_command_for_key(Key::Space, legal, selected, player) == if legal.contains(Command::Wait { actor: player }) {
            Some(Command::Wait { actor: player })
        } else {
            None
        },
        match spec_command_for_key(Key::KeyI, legal, selected, player) {
            Some(c) => exists|j: int|
                0 <= j < legal.len() && legal[j] == c && (c matches Command::Interact { actor: a, .. } && a == player)
                    && forall|k: int|
                    0 <= k < j ==> !(#[trigger] legal[k] matches Command::Interact { actor: a2, .. } && a2 == player),
            None => forall|k: int| 0 <= k < legal.len() ==> !(#[trigger] legal[k] matches Command::Interact { actor: a2, .. } && a2 == player),
        },
        match spec_command_for_key(Key::KeyK, legal, selected, player) {
            Some(c) => exists|j: int|
                0 <= j < legal.len() && legal[j] == c && (c matches Command::Kick { actor: a, .. } && a == player)
                    && forall|k: int|
                    0 <= k < j ==> !(#[trigger] legal[k] matches Command::Kick { actor: a2, .. } && a2 == player),
            None => forall|k: int| 0 <= k < legal.len() ==> !(#[trigger] legal[k] matches Command::Kick { actor: a2, .. } && a2 == player),
        },
        match spec_command_for_key(Key::KeyB, legal, selected, player) {
            Some(c) => exists|j: int|
                0 <= j < legal.len() && legal[j] == c && (c matches Command::Break { actor: a, .. } && a == player)
                    && forall|k: int|
                    0 <= k < j ==> !(#[trigger] legal[k] matches Command::Break { actor: a2, .. } && a2 == player),
            None => forall|k: int| 0 <= k < legal.len() ==> !(#[trigger] legal[k] matches Command::Break { actor: a2, .. } && a2 == player),
        },
{
    lemma_first_interact(legal, selected, player);
    lemma_first_kick(legal, selected, player);
    lemma_first_break(legal, selected, player);
}

/// The name of a key, as the journal and the HUD write it.
pub open spec fn spec_key_name(key: Key) -> Seq<char> {
    match key {
        Key::ArrowUp => "ArrowUp"@,
        Key::ArrowDown => "ArrowDown"@,
        Key::ArrowLeft => "ArrowLeft"@,
        Key::ArrowRight => "ArrowRight"@,
        Key::KeyW => "KeyW"@,
        Key::KeyS => "KeyS"@,
        Key::KeyA => "KeyA"@,
        Key::KeyD => "KeyD"@,
        Key::Enter => "Enter"@,
        Key::Space => "Space"@,
        Key::KeyF => "KeyF"@,
        Key::KeyG => "KeyG"@,
        Key::KeyT => "KeyT"@,
        Key::KeyE => "KeyE"@,
        Key::KeyQ => "KeyQ"@,
        Key::KeyU => "KeyU"@,
        Key::KeyP => "KeyP"@,
        Key::KeyX => "KeyX"@,
        Key::KeyR => "KeyR"@,
        Key::KeyI => "KeyI"@,
        Key::KeyK => "KeyK"@,
        Key::KeyB => "KeyB"@,
        Key::KeyN => "KeyN"@,
        Key::Tab => "Tab"@,
        Key::Escape => "Escape"@,
        Key::ShiftLeft => "ShiftLeft"@,
        Key::ShiftRight => "ShiftRight"@,
        Key::Other => "Other"@,
    }
}

/// Returns the name of a key.
pub fn key_name(key: Key) -> (r: &'static str)
    ensures
        r@ == spec_key_name(key),
{
    match key {
        Key::ArrowUp => "ArrowUp",
        Key::ArrowDown => "ArrowDown",
        Key::ArrowLeft => "ArrowLeft",
        Key::ArrowRight => "ArrowRight",
        Key::KeyW => "KeyW",
        Key::KeyS => "KeyS",
        Key::KeyA => "KeyA",
        Key::KeyD => "KeyD",
        Key::Enter => "Enter",
        Key::Space => "Space",
        Key::KeyF => "KeyF",
        Key::KeyG => "KeyG",
        Key::KeyT => "KeyT",
        Key::KeyE => "KeyE",
        Key::KeyQ => "KeyQ",
        Key::KeyU => "KeyU",
        Key::KeyP => "KeyP",
        Key::KeyX => "KeyX",
        Key::KeyR => "KeyR",
        Key::KeyI => "KeyI",
        Key::KeyK => "KeyK",
        Key::KeyB => "KeyB",
        Key::KeyN => "KeyN",
        Key::Tab => "Tab",
        Key::Escape => "Escape",
        Key::ShiftLeft => "ShiftLeft",
        Key::ShiftRight => "ShiftRight",
        Key::Other => "Other",
    }
}

/// What a gameplay key leads to once the session acts on it.
#[derive(Clone, Copy, Debug, PartialEq, Eq, Structural)]
pub enum KeyOutcome {
    /// An enemy is scheduled: the key is refused.
    EnemyScheduled,
    /// No legal command answers the key.
    Unavailable,
    /// The command to submit.
    Submit(Command),
}

/// The outcome of a gameplay key: refused while another actor is scheduled, else the legal
/// command it selects, if any.
pub open spec fn spec_key_outcome(
    key: Key,
    next_actor: Option<ActorId>,
    player: ActorId,
    legal: Seq<Command>,
    selected: Option<ItemId>,
) -> KeyOutcome {
    if next_actor != Some(player) {
        KeyOutcome::EnemyScheduled
    } else {
        match spec_command_for_key(key, legal, selected, player) {
            Some(c) => KeyOutcome::Submit(c),
            None => KeyOutcome::Unavailable,
        }
    }
}

/// Decides what a gameplay key leads to.
pub fn key_outcome(
    key: Key,
    next_actor: Option<ActorId>,
    player: ActorId,
    legal: &[Command],
    selected: Option<ItemId>,
) -> (r: KeyOutcome)
    ensures
        r == spec_key_outcome(key, next_actor, player, legal@, selected),
{
    let scheduled = match next_actor {
        Some(actor) => actor == player,
        None => false,
    };
    if !scheduled {
        return KeyOutcome::EnemyScheduled;
    }
    match command_for_key(key, legal, selected, player) {
        Some(c) => KeyOutcome::Submit(c),
        None => KeyOutcome::Unavailable,
    }
}

/// The HUD message for a refused key.
pub open spec fn spec_unavailable_message(key: Key, enemy_scheduled: bool) -> Seq<char> {
    if enemy_scheduled {
        "Unavailable input: "@ + spec_key_name(key) + " (enemy scheduled)."@
    } else {
        "Unavailable input: "@ + spec_key_name(key)
    }
}

/// Renders the HUD message for a refused key.
pub fn unavailable_message(key: Key, enemy_scheduled: bool) -> (r: String)
    ensures
        r@ == spec_unavailable_message(key, enemy_scheduled),
{
    let mut out = String::from_str("Unavailable input: ");
    out.append(key_name(key));
    if enemy_scheduled {
        out.append(" (enemy scheduled).");
    }
    out
}

} // verus!
