//! Audio cue families, the audio asset manifest, and cue playback bookkeeping.

use vstd::prelude::*;

use crate::assets::{lemma_distinct_slots_cover, spec_is_audio_path, PresentationAssetReference};
use crate::events::Event;
use crate::text::{chars_of, has_prefix, has_prefix_chars};
use crate::world::{ActorId, BlockReason, ItemId};

verus! {

/// A typed audio cue derived from one semantic event.
#[derive(Clone, Copy, Debug, PartialEq, Eq, Structural, Hash)]
pub enum PresentationAudioCue {
    Moved { actor: ActorId },
    MovementBlocked { actor: ActorId, reason: BlockReason },
    Waited { actor: ActorId },
    Attacked { attacker: ActorId, target: ActorId },
    Died { actor: ActorId },
    ItemEquipped { actor: ActorId, item: ItemId },
    ItemUnequipped { actor: ActorId, item: ItemId },
    ItemConsumed { actor: ActorId, item: ItemId },
    ItemPickedUp { actor: ActorId, item: ItemId },
}

/// The cue of an event: movement, waiting, combat, death and item use sound; doors, noise,
/// terrain, traps, drops and reloads stay silent.
pub open spec fn spec_audio_cue(event: Event) -> Option<PresentationAudioCue> {
    match event {
        Event::Moved { actor, .. } => Some(PresentationAudioCue::Moved { actor }),
        Event::MovementBlocked { actor, reason, .. } => Some(
            PresentationAudioCue::MovementBlocked { actor, reason },
        ),
        Event::Waited { actor, .. } => Some(PresentationAudioCue::Waited { actor }),
        Event::Attacked { attacker, target, .. } => Some(
            PresentationAudioCue::Attacked { attacker, target },
        ),
        Event::Died { actor } => Some(PresentationAudioCue::Died { actor }),
        Event::ItemEquipped { actor, item } => Some(PresentationAudioCue::ItemEquipped { actor, item }),
        Event::ItemUnequipped { actor, item } => Some(
            PresentationAudioCue::ItemUnequipped { actor, item },
        ),
        Event::ItemConsumed { actor, item, .. } => Some(
            PresentationAudioCue::ItemConsumed { actor, item },
        ),
        Event::ItemPickedUp { actor, item } => Some(PresentationAudioCue::ItemPickedUp { actor, item }),
        _ => None,
    }
}

impl PresentationAudioCue {
    /// Derives the cue of one event, if it has one.
    pub fn from_event(event: Event) -> (r: Option<Self>)
        ensures
            r == spec_audio_cue(event),
    {
        match event {
            Event::Moved { actor, .. } => Some(PresentationAudioCue::Moved { actor }),
            Event::MovementBlocked { actor, reason, .. } => Some(
                PresentationAudioCue::MovementBlocked { actor, reason },
            ),
            Event::Waited { actor, .. } => Some(PresentationAudioCue::Waited { actor }),
            Event::Attacked { attacker, target, .. } => Some(
                PresentationAudioCue::Attacked { attacker, target },
            ),
            Event::Died { actor } => Some(PresentationAudioCue::Died { actor }),
            Event::ItemEquipped { actor, item } => Some(
                PresentationAudioCue::ItemEquipped { actor, item },
            ),
            Event::ItemUnequipped { actor, item } => Some(
                PresentationAudioCue::ItemUnequipped { actor, item },
            ),
            Event::ItemConsumed { actor, item, .. } => Some(
                PresentationAudioCue::ItemConsumed { actor, item },
            ),
            Event::ItemPickedUp { actor, item } => Some(
                PresentationAudioCue::ItemPickedUp { actor, item },
            ),
            Event::ItemDropped { .. } | Event::Reloaded { .. } | Event::DoorOpened { .. }
            | Event::NoiseCreated { .. } | Event::BreakableBroken { .. }
            | Event::TrapTriggered { .. } => None,
        }
    }
}

/// The cues of a sequence of events, in event order, skipping silent events.
pub open spec fn spec_audio_cues(events: Seq<Event>) -> Seq<PresentationAudioCue>
    decreases events.len(),
{
    if events.len() == 0 {
        Seq::empty()
    } else {
        let rest = spec_audio_cues(events.drop_last());
        match spec_audio_cue(events.last()) {
            Some(c) => rest.push(c),
            None => rest,
        }
    }
}

/// Returns the cues of the latest accepted command's events, in event order.
pub fn audio_cues_from_events(events: &[Event]) -> (r: Vec<PresentationAudioCue>)
    ensures
        r@ == spec_audio_cues(events@),
{
    let mut cues: Vec<PresentationAudioCue> = Vec::new();
    let mut i: usize = 0;
    while i < events.len()
        invariant
            i <= events@.len(),
            cues@ == spec_audio_cues(events@.subrange(0, i as int)),
        decreases events@.len() - i,
    {
        proof {
            let next = events@.subrange(0, i + 1);
            assert(next.drop_last() =~= events@.subrange(0, i as int));
            assert(next.last() == events@[i as int]);
        }
        if let Some(cue) = PresentationAudioCue::from_event(events[i]) {
            cues.push(cue);
        }
        i += 1;
    }
    assert(events@.subrange(0, events@.len() as int) =~= events@);
    cues
}

/// The audio cues of the latest accepted command, in event order.
pub struct PresentationAudioCues {
    pub cues: Vec<PresentationAudioCue>,
}

impl PresentationAudioCues {
    /// Creates an empty cue list.
    pub fn new() -> (r: Self)
        ensures
            r.cues@.len() == 0,
    {
        PresentationAudioCues { cues: Vec::new() }
    }

    /// Projects the cues of a command's events, in event order.
    pub fn from_events(events: &[Event]) -> (r: Self)
        ensures
            r.cues@ == spec_audio_cues(events@),
    {
        PresentationAudioCues { cues: audio_cues_from_events(events) }
    }

    /// Returns the cues in event order.
    pub fn cues(&self) -> (r: &[PresentationAudioCue])
        ensures
            r@ == self.cues@,
    {
        self.cues.as_slice()
    }
}

/// The family key that binds a cue to an audio asset.
#[derive(Clone, Copy, Debug, PartialEq, Eq, Structural, Hash)]
pub enum PresentationAudioCueKind {
    Moved,
    MovementBlocked,
    Waited,
    Attacked,
    Died,
    ItemEquipped,
    ItemUnequipped,
    ItemConsumed,
}

/// The family of each cue; a pickup reuses the item-consumption family.
pub open spec fn spec_cue_kind(cue: PresentationAudioCue) -> PresentationAudioCueKind {
    match cue {
        PresentationAudioCue::Moved { .. } => PresentationAudioCueKind::Moved,
        PresentationAudioCue::MovementBlocked { .. } => PresentationAudioCueKind::MovementBlocked,
        PresentationAudioCue::Waited { .. } => PresentationAudioCueKind::Waited,
        PresentationAudioCue::Attacked { .. } => PresentationAudioCueKind::Attacked,
        PresentationAudioCue::Died { .. } => PresentationAudioCueKind::Died,
        PresentationAudioCue::ItemEquipped { .. } => PresentationAudioCueKind::ItemEquipped,
        PresentationAudioCue::ItemUnequipped { .. } => PresentationAudioCueKind::ItemUnequipped,
        PresentationAudioCue::ItemConsumed { .. } | PresentationAudioCue::ItemPickedUp { .. } =>
            PresentationAudioCueKind::ItemConsumed,
    }
}

impl PresentationAudioCueKind {
    /// Derives the family key of a cue.
    pub fn from_cue(cue: PresentationAudioCue) -> (r: Self)
        ensures
            r == spec_cue_kind(cue),
    {
        match cue {
            PresentationAudioCue::Moved { .. } => PresentationAudioCueKind::Moved,
            PresentationAudioCue::MovementBlocked { .. } => PresentationAudioCueKind::MovementBlocked,
            PresentationAudioCue::Waited { .. } => PresentationAudioCueKind::Waited,
            PresentationAudioCue::Attacked { .. } => PresentationAudioCueKind::Attacked,
            PresentationAudioCue::Died { .. } => PresentationAudioCueKind::Died,
            PresentationAudioCue::ItemEquipped { .. } => PresentationAudioCueKind::ItemEquipped,
            PresentationAudioCue::ItemUnequipped { .. } => PresentationAudioCueKind::ItemUnequipped,
            PresentationAudioCue::ItemConsumed { .. } | PresentationAudioCue::ItemPickedUp {
                ..
            } => PresentationAudioCueKind::ItemConsumed,
        }
    }

    /// The slot of each family in `0..8`, in declaration order.
    pub open spec fn slot(self) -> int {
        match self {
            PresentationAudioCueKind::Moved => 0,
            PresentationAudioCueKind::MovementBlocked => 1,
            PresentationAudioCueKind::Waited => 2,
            PresentationAudioCueKind::Attacked => 3,
            PresentationAudioCueKind::Died => 4,
            PresentationAudioCueKind::ItemEquipped => 5,
            PresentationAudioCueKind::ItemUnequipped => 6,
            PresentationAudioCueKind::ItemConsumed => 7,
        }
    }

    /// Returns the slot of this family in `0..8`.
    pub fn index(self) -> (r: usize)
        ensures
            r == self.slot(),
            r < 8,
    {
        match self {
            PresentationAudioCueKind::Moved => 0,
            PresentationAudioCueKind::MovementBlocked => 1,
            PresentationAudioCueKind::Waited => 2,
            PresentationAudioCueKind::Attacked => 3,
            PresentationAudioCueKind::Died => 4,
            PresentationAudioCueKind::ItemEquipped => 5,
            PresentationAudioCueKind::ItemUnequipped => 6,
            PresentationAudioCueKind::ItemConsumed => 7,
        }
    }
}

/// The path of each binding, paired with its family.
pub open spec fn audio_binding_views(
    s: Seq<(PresentationAudioCueKind, PresentationAssetReference)>,
) -> Seq<(PresentationAudioCueKind, Seq<char>)> {
    s.map_values(|b: (PresentationAudioCueKind, PresentationAssetReference)| (b.0, b.1@))
}

/// No family is bound twice.
pub open spec fn distinct_audio_kinds(s: Seq<(PresentationAudioCueKind, Seq<char>)>) -> bool {
    forall|a: int, b: int| 0 <= a < b < s.len() ==> #[trigger] s[a].0 != #[trigger] s[b].0
}

/// Some binding has family `f`.
pub open spec fn audio_kind_is_bound(
    s: Seq<(PresentationAudioCueKind, Seq<char>)>,
    f: PresentationAudioCueKind,
) -> bool {
    exists|k: int| 0 <= k < s.len() && #[trigger] s[k].0 == f
}

/// Every family is bound.
pub open spec fn complete_audio_kinds(s: Seq<(PresentationAudioCueKind, Seq<char>)>) -> bool {
    forall|f: PresentationAudioCueKind| #[trigger] audio_kind_is_bound(s, f)
}

/// Every bound path is an audio path.
pub open spec fn all_audio_paths(s: Seq<(PresentationAudioCueKind, Seq<char>)>) -> bool {
    forall|k: int| 0 <= k < s.len() ==> spec_is_audio_path(#[trigger] s[k].1)
}

/// Some binding maps `family` to `path`.
pub open spec fn audio_bound_to(
    s: Seq<(PresentationAudioCueKind, Seq<char>)>,
    family: PresentationAudioCueKind,
    path: Seq<char>,
) -> bool {
    exists|k: int| 0 <= k < s.len() && #[trigger] s[k].0 == family && s[k].1 == path
}

/// A complete mapping from the eight cue families to local-only audio references.
#[derive(Debug, PartialEq, Eq)]
pub struct PresentationAudioAssetManifest {
    bindings: Vec<(PresentationAudioCueKind, PresentationAssetReference)>,
}

impl View for PresentationAudioAssetManifest {
    type V = Seq<(PresentationAudioCueKind, Seq<char>)>;

    closed spec fn view(&self) -> Seq<(PresentationAudioCueKind, Seq<char>)> {
        audio_binding_views(self.bindings@)
    }
}

impl PresentationAudioAssetManifest {
    #[verifier::type_invariant]
    closed spec fn complete(self) -> bool {
        &&& self@.len() == 8
        &&& distinct_audio_kinds(self@)
        &&& complete_audio_kinds(self@)
        &&& all_audio_paths(self@)
    }

    /// Creates a manifest from eight audio-path bindings of distinct families, or `None`.
    pub fn new(bindings: Vec<(PresentationAudioCueKind, PresentationAssetReference)>) -> (r: Option<Self>)
        ensures
            r is Some <==> (bindings@.len() == 8 && distinct_audio_kinds(
                audio_binding_views(bindings@),
            ) && all_audio_paths(audio_binding_views(bindings@))),
            r matches Some(m) ==> m@ == audio_binding_views(bindings@) && complete_audio_kinds(m@),
    {
        let ghost view = audio_binding_views(bindings@);
        if bindings.len() != 8 {
            return None;
        }
        let mut seen: Vec<bool> = Vec::new();
        let mut k: usize = 0;
        while k < 8
            invariant
                k <= 8,
                seen@.len() == k,
                forall|s: int| 0 <= s < k ==> !#[trigger] seen@[s],
            decreases 8 - k,
        {
            seen.push(false);
            k += 1;
        }
        let mut i: usize = 0;
        while i < 8
            invariant
                bindings@.len() == 8,
                view == audio_binding_views(bindings@),
                i <= 8,
                seen@.len() == 8,
                forall|s: int|
                    0 <= s < 8 ==> (#[trigger] seen@[s] <==> exists|m: int|
                        0 <= m < i && #[trigger] view[m].0.slot() == s),
                forall|a: int, b: int| 0 <= a < b < i ==> #[trigger] view[a].0 != #[trigger] view[b].0,
                forall|m: int| 0 <= m < i ==> spec_is_audio_path(#[trigger] view[m].1),
            decreases 8 - i,
        {
            assert(view[i as int].0 == bindings@[i as int].0);
            assert(view[i as int].1 == bindings@[i as int].1@);
            if !bindings[i].1.is_audio_path() {
                return None;
            }
            let slot = bindings[i].0.index();
            if seen[slot] {
                proof {
                    let m = choose|m: int| 0 <= m < i && #[trigger] view[m].0.slot() == slot;
                    assert(view[m].0 == view[i as int].0);
                }
                return None;
            }
            seen.set(slot, true);
            proof {
                assert forall|s: int|
                    0 <= s < 8 implies (#[trigger] seen@[s] <==> exists|m: int|
                    0 <= m < i + 1 && #[trigger] view[m].0.slot() == s) by {
                    if s == slot {
                        assert(view[i as int].0.slot() == s);
                    }
                }
            }
            i += 1;
        }
        proof {
            let slots = view.map_values(|b: (PresentationAudioCueKind, Seq<char>)| b.0.slot());
            assert(slots.no_duplicates());
            lemma_distinct_slots_cover(slots, 8);
            assert forall|f: PresentationAudioCueKind| #[trigger] audio_kind_is_bound(view, f) by {
                assert(slots.contains(f.slot()));
                let k = choose|k: int| 0 <= k < slots.len() && slots[k] == f.slot();
                assert(view[k].0 == f);
            }
        }
        Some(PresentationAudioAssetManifest { bindings })
    }

    /// Returns bindings in authored order; every family is bound exactly once, to an audio path.
    pub fn bindings(&self) -> (r: &[(PresentationAudioCueKind, PresentationAssetReference)])
        ensures
            audio_binding_views(r@) == self@,
            self@.len() == 8,
            distinct_audio_kinds(self@),
            complete_audio_kinds(self@),
            all_audio_paths(self@),
    {
        proof {
            use_type_invariant(self);
        }
        self.bindings.as_slice()
    }

    /// Returns the audio reference bound to one cue family.
    pub fn reference(&self, family: PresentationAudioCueKind) -> (r: &PresentationAssetReference)
        ensures
            audio_bound_to(self@, family, r@),
            distinct_audio_kinds(self@),
            spec_is_audio_path(r@),
    {
        proof {
            use_type_invariant(self);
        }
        let ghost view = self@;
        let mut k: usize = 0;
        while k < self.bindings.len()
            invariant
                view == self@,
                view.len() == 8,
                complete_audio_kinds(view),
                distinct_audio_kinds(view),
                all_audio_paths(view),
                view == audio_binding_views(self.bindings@),
                k <= self.bindings@.len(),
                forall|m: int| 0 <= m < k ==> #[trigger] view[m].0 != family,
            decreases self.bindings@.len() - k,
        {
            if self.bindings[k].0 == family {
                assert(view[k as int].0 == family);
                assert(view[k as int].1 == self.bindings@[k as int].1@);
                return &self.bindings[k].1;
            }
            assert(view[k as int].0 == self.bindings@[k as int].0);
            k += 1;
        }
        proof {
            assert(audio_kind_is_bound(view, family));
            let m = choose|m: int| 0 <= m < view.len() && #[trigger] view[m].0 == family;
            assert(view[m].0 != family);
        }
        &self.bindings[0].1
    }
}

/// One cue joined with its audio reference.
#[derive(Debug, PartialEq, Eq)]
pub struct PresentationAudioAssetEntry {
    pub cue: PresentationAudioCue,
    pub reference: PresentationAssetReference,
}

impl PresentationAudioAssetEntry {
    /// Returns the cue.
    pub fn cue(&self) -> (r: PresentationAudioCue)
        ensures
            r == self.cue,
    {
        self.cue
    }

    /// Returns the audio reference.
    pub fn reference(&self) -> (r: &PresentationAssetReference)
        ensures
            r == &self.reference,
    {
        &self.reference
    }
}

/// Joins each cue, in order, with the reference of its family in `manifest`.
pub fn audio_asset_entries(
    cues: &[PresentationAudioCue],
    manifest: &PresentationAudioAssetManifest,
) -> (r: Vec<PresentationAudioAssetEntry>)
    ensures
        r@.len() == cues@.len(),
        forall|k: int|
            0 <= k < cues@.len() ==> (#[trigger] r@[k]).cue == cues@[k] && audio_bound_to(
                manifest@,
                spec_cue_kind(cues@[k]),
                r@[k].reference@,
            ),
{
    let mut entries: Vec<PresentationAudioAssetEntry> = Vec::new();
    let mut i: usize = 0;
    while i < cues.len()
        invariant
            i <= cues@.len(),
            entries@.len() == i,
            forall|k: int|
                0 <= k < i ==> (#[trigger] entries@[k]).cue == cues@[k] && audio_bound_to(
                    manifest@,
                    spec_cue_kind(cues@[k]),
                    entries@[k].reference@,
                ),
        decreases cues@.len() - i,
    {
        let cue = cues[i];
        let reference = manifest.reference(PresentationAudioCueKind::from_cue(cue)).clone();
        entries.push(PresentationAudioAssetEntry { cue, reference });
        i += 1;
    }
    entries
}

/// The cues of a command joined, in cue order, with their audio references.
pub struct PresentationAudioAssetProjection {
    pub entries: Vec<PresentationAudioAssetEntry>,
}

impl PresentationAudioAssetProjection {
    /// Creates an empty projection.
    pub fn new() -> (r: Self)
        ensures
            r.entries@.len() == 0,
    {
        PresentationAudioAssetProjection { entries: Vec::new() }
    }

    /// Joins each cue, in order, with the reference of its family, reading no file.
    pub fn from_cues(cues: &[PresentationAudioCue], manifest: &PresentationAudioAssetManifest) -> (r: Self)
        ensures
            r.entries@.len() == cues@.len(),
            forall|k: int|
                0 <= k < cues@.len() ==> (#[trigger] r.entries@[k]).cue == cues@[k] && audio_bound_to(
                    manifest@,
                    spec_cue_kind(cues@[k]),
                    r.entries@[k].reference@,
                ),
    {
        PresentationAudioAssetProjection { entries: audio_asset_entries(cues, manifest) }
    }

    /// Returns the entries in cue order.
    pub fn entries(&self) -> (r: &[PresentationAudioAssetEntry])
        ensures
            r@ == self.entries@,
    {
        self.entries.as_slice()
    }
}

/// `path` with its leading `assets/` removed, when it has one.
pub open spec fn spec_audio_asset_path(path: Seq<char>) -> Option<Seq<char>> {
    if has_prefix(path, "assets/"@) {
        Some(path.subrange("assets/"@.len() as int, path.len() as int))
    } else {
        None
    }
}

/// Returns the asset-server path of a file under `assets/`, or `None` for any other root.
pub fn audio_asset_path(path: &str) -> (r: Option<&str>)
    ensures
        match r {
            Some(p) => spec_audio_asset_path(path@) == Some(p@),
            None => spec_audio_asset_path(path@) is None,
        },
{
    let v = chars_of(path);
    if has_prefix_chars(&v, "assets/") {
        let start = "assets/".unicode_len();
        Some(path.substring_char(start, v.len()))
    } else {
        None
    }
}

/// The journal name of each cue.
pub open spec fn spec_audio_cue_name(cue: PresentationAudioCue) -> Seq<char> {
    match cue {
        PresentationAudioCue::Moved { .. } => "moved"@,
        PresentationAudioCue::MovementBlocked { .. } => "movement_blocked"@,
        PresentationAudioCue::Waited { .. } => "waited"@,
        PresentationAudioCue::Attacked { .. } => "attacked"@,
        PresentationAudioCue::Died { .. } => "died"@,
        PresentationAudioCue::ItemEquipped { .. } => "item_equipped"@,
        PresentationAudioCue::ItemUnequipped { .. } => "item_unequipped"@,
        PresentationAudioCue::ItemConsumed { .. } => "item_consumed"@,
        PresentationAudioCue::ItemPickedUp { .. } => "item_picked_up"@,
    }
}

/// Returns the journal name of a cue.
pub fn audio_cue_name(cue: PresentationAudioCue) -> (r: &'static str)
    ensures
        r@ == spec_audio_cue_name(cue),
{
    match cue {
        PresentationAudioCue::Moved { .. } => "moved",
        PresentationAudioCue::MovementBlocked { .. } => "movement_blocked",
        PresentationAudioCue::Waited { .. } => "waited",
        PresentationAudioCue::Attacked { .. } => "attacked",
        PresentationAudioCue::Died { .. } => "died",
        PresentationAudioCue::ItemEquipped { .. } => "item_equipped",
        PresentationAudioCue::ItemUnequipped { .. } => "item_unequipped",
        PresentationAudioCue::ItemConsumed { .. } => "item_consumed",
        PresentationAudioCue::ItemPickedUp { .. } => "item_picked_up",
    }
}

/// The showcase binding of each cue family to its sound under `assets/audio/dreadstep/`.
pub open spec fn showcase_audio_paths() -> Seq<(PresentationAudioCueKind, Seq<char>)> {
    seq![
        (PresentationAudioCueKind::Moved, "assets/audio/dreadstep/moved.ogg"@),
        (PresentationAudioCueKind::MovementBlocked, "assets/audio/dreadstep/movement-blocked.ogg"@),
        (PresentationAudioCueKind::Waited, "assets/audio/dreadstep/waited.ogg"@),
        (PresentationAudioCueKind::Attacked, "assets/audio/dreadstep/attacked.ogg"@),
        (PresentationAudioCueKind::Died, "assets/audio/dreadstep/died.ogg"@),
        (PresentationAudioCueKind::ItemEquipped, "assets/audio/dreadstep/item-equipped.ogg"@),
        (PresentationAudioCueKind::ItemUnequipped, "assets/audio/dreadstep/item-unequipped.ogg"@),
        (PresentationAudioCueKind::ItemConsumed, "assets/audio/dreadstep/item-consumed.ogg"@),
    ]
}

/// The error reported for an invalid audio path.
pub open spec fn invalid_audio_message(path: Seq<char>) -> Seq<char> {
    "invalid presentation audio path "@ + path
}

/// The first `k` showcase audio paths are valid asset paths.
pub open spec fn showcase_audio_prefix_valid(k: int) -> bool {
    forall|m: int|
        0 <= m < k ==> crate::assets::valid_asset_path(#[trigger] showcase_audio_paths()[m].1)
}

fn bind_audio(
    bindings: &mut Vec<(PresentationAudioCueKind, PresentationAssetReference)>,
    family: PresentationAudioCueKind,
    path: &str,
) -> (r: Result<(), String>)
    ensures
        r is Ok <==> crate::assets::valid_asset_path(path@),
        r is Ok ==> audio_binding_views(final(bindings)@) == audio_binding_views(old(bindings)@).push(
            (family, path@),
        ),
        r matches Err(e) ==> e@ == invalid_audio_message(path@),
{
    match PresentationAssetReference::new(path) {
        Some(reference) => {
            bindings.push((family, reference));
            proof {
                assert(audio_binding_views(bindings@) =~= audio_binding_views(old(bindings)@).push(
                    (family, path@),
                ));
            }
            Ok(())
        },
        None => {
            let mut e = String::from_str("invalid presentation audio path ");
            e.append(path);
            Err(e)
        },
    }
}

/// Builds the showcase audio manifest.
///
/// It succeeds exactly when every showcase path is a valid audio path, with the bindings of
/// [`showcase_audio_paths`]; an invalid path is reported by name.
pub fn build_audio_manifest() -> (r: Result<PresentationAudioAssetManifest, String>)
    ensures
        r is Ok <==> (showcase_audio_prefix_valid(8) && all_audio_paths(showcase_audio_paths())),
        r matches Ok(m) ==> m@ == showcase_audio_paths(),
        r matches Err(e) ==> (exists|k: int|
            0 <= k < 8 && showcase_audio_prefix_valid(k) && !crate::assets::valid_asset_path(
                #[trigger] showcase_audio_paths()[k].1,
            ) && e@ == invalid_audio_message(showcase_audio_paths()[k].1)) || (showcase_audio_prefix_valid(8) && e@ == "audio manifest does not contain all eight cue families"@),
{
    let ghost list = showcase_audio_paths();
    let mut bindings: Vec<(PresentationAudioCueKind, PresentationAssetReference)> = Vec::new();
    if let Err(e) = bind_audio(
        &mut bindings,
        PresentationAudioCueKind::Moved,
        "assets/audio/dreadstep/moved.ogg",
    ) {
        assert(!crate::assets::valid_asset_path(list[0].1));
        return Err(e);
    }
    if let Err(e) = bind_audio(
        &mut bindings,
        PresentationAudioCueKind::MovementBlocked,
        "assets/audio/dreadstep/movement-blocked.ogg",
    ) {
        assert(!crate::assets::valid_asset_path(list[1].1) && showcase_audio_prefix_valid(1));
        return Err(e);
    }
    if let Err(e) = bind_audio(
        &mut bindings,
        PresentationAudioCueKind::Waited,
        "assets/audio/dreadstep/waited.ogg",
    ) {
        assert(!crate::assets::valid_asset_path(list[2].1) && showcase_audio_prefix_valid(2));
        return Err(e);
    }
    if let Err(e) = bind_audio(
        &mut bindings,
        PresentationAudioCueKind::Attacked,
        "assets/audio/dreadstep/attacked.ogg",
    ) {
        assert(!crate::assets::valid_asset_path(list[3].1) && showcase_audio_prefix_valid(3));
        return Err(e);
    }
    if let Err(e) = bind_audio(
        &mut bindings,
        PresentationAudioCueKind::Died,
        "assets/audio/dreadstep/died.ogg",
    ) {
        assert(!crate::assets::valid_asset_path(list[4].1) && showcase_audio_prefix_valid(4));
        return Err(e);
    }
    if let Err(e) = bind_audio(
        &mut bindings,
        PresentationAudioCueKind::ItemEquipped,
        "assets/audio/dreadstep/item-equipped.ogg",
    ) {
        assert(!crate::assets::valid_asset_path(list[5].1) && showcase_audio_prefix_valid(5));
        return Err(e);
    }
    if let Err(e) = bind_audio(
        &mut bindings,
        PresentationAudioCueKind::ItemUnequipped,
        "assets/audio/dreadstep/item-unequipped.ogg",
    ) {
        assert(!crate::assets::valid_asset_path(list[6].1) && showcase_audio_prefix_valid(6));
        return Err(e);
    }
    if let Err(e) = bind_audio(
        &mut bindings,
        PresentationAudioCueKind::ItemConsumed,
        "assets/audio/dreadstep/item-consumed.ogg",
    ) {
        assert(!crate::assets::valid_asset_path(list[7].1) && showcase_audio_prefix_valid(7));
        return Err(e);
    }
    proof {
        assert(audio_binding_views(bindings@) =~= list);
        assert(showcase_audio_prefix_valid(8));
        assert(distinct_audio_kinds(list));
    }
    match PresentationAudioAssetManifest::new(bindings) {
        Some(m) => Ok(m),
        None => Err(String::from_str("audio manifest does not contain all eight cue families")),
    }
}

/// Remembers the last cue batch played so that an identical batch plays again only for a new
/// replay token.
#[derive(Clone, Debug, PartialEq, Eq)]
pub struct DesktopAudioState {
    pub previous_cues: Vec<PresentationAudioCue>,
    pub previous_token: Option<u64>,
}

impl DesktopAudioState {
    /// Starts with no batch observed.
    pub fn new() -> (r: Self)
        ensures
            r.previous_cues@.len() == 0,
            r.previous_token is None,
    {
        DesktopAudioState { previous_cues: Vec::new(), previous_token: None }
    }

    /// Observes the current cue batch under a replay token.
    ///
    /// Returns whether the batch should play: it must differ from the last observed batch or
    /// token, and hold at least one cue. The observed batch and token are remembered.
    pub fn observe(&mut self, token: Option<u64>, cues: &[PresentationAudioCue]) -> (r: bool)
        ensures
            r == (!(old(self).previous_token == token && old(self).previous_cues@ == cues@)
                && cues@.len() > 0),
            final(self).previous_token == token,
            final(self).previous_cues@ == cues@,
    {
        let mut same = self.previous_token == token && self.previous_cues.len() == cues.len();
        let mut i: usize = 0;
        while same && i < cues.len()
            invariant
                *self == *old(self),
                i <= cues@.len(),
                same ==> self.previous_token == token,
                same ==> self.previous_cues@.len() == cues@.len(),
                same ==> forall|k: int| 0 <= k < i ==> self.previous_cues@[k] == cues@[k],
                !same ==> !(self.previous_token == token && self.previous_cues@ == cues@),
            decreases cues@.len() - i,
        {
            if self.previous_cues[i] != cues[i] {
                same = false;
            }
            i += 1;
        }
        proof {
            if same {
                assert(self.previous_cues@ =~= cues@);
            }
        }
        if same {
            return false;
        }
        self.previous_token = token;
        let mut copy: Vec<PresentationAudioCue> = Vec::new();
        let mut j: usize = 0;
        while j < cues.len()
            invariant
                j <= cues@.len(),
                copy@ == cues@.subrange(0, j as int),
            decreases cues@.len() - j,
        {
            copy.push(cues[j]);
            j += 1;
        }
        assert(cues@.subrange(0, cues@.len() as int) =~= cues@);
        self.previous_cues = copy;
        cues.len() > 0
    }
}

} // verus!
