//! Decisions of the desktop process around its outside work: which scenario starts, how run
//! journal and replay files are named, how a journal entry is framed, what happens to optional
//! assets and audio, how shutdown is reported, and the steps of the display-free smoke run.

use vstd::prelude::*;

use crate::cli::DesktopOptions;
use crate::input::Command;
use crate::assets::{
    build_manifest, showcase_asset_paths, showcase_prefix_valid, PresentationAssetManifest,
    SceneRenderPlaceholder,
};
use crate::geometry::{Direction, Position, PresentationTileSize, PresentationViewport, PresentationWindow};
use crate::world::ItemId;
use crate::audio::{audio_asset_path, spec_audio_asset_path};
use crate::scene::{find_actor, find_actor_index};
use crate::session::DesktopStatus;
use crate::text::{decimal, digit_char, lemma_decimal_injective, lemma_decimal_len, push_decimal};
use crate::world::{Actor, ActorId};

verus! {

/// The identity of the actor the desktop player controls.
pub const PLAYER_ID: u32 = 1;

/// The identity of the enemy the smoke run defeats with an extended-reach melee attack.
pub const ATTACK_TARGET_ID: u32 = 2;

/// The identity of the enemy the smoke run shoots.
pub const RANGED_TARGET_ID: u32 = 3;

/// The identity of the consumable the smoke run uses.
pub const CONSUME_ITEM_ID: u32 = 101;

/// The identity of the ground item the smoke run picks up and drops.
pub const PICKUP_ITEM_ID: u32 = 102;

/// The actor the desktop player controls.
pub open spec fn player_actor() -> ActorId {
    ActorId { id: PLAYER_ID }
}

/// The enemy the smoke run defeats in melee.
pub open spec fn attack_target_actor() -> ActorId {
    ActorId { id: ATTACK_TARGET_ID }
}

/// The player's melee attack on the smoke run's melee target.
pub open spec fn smoke_attack_command() -> Command {
    Command::Attack { actor: player_actor(), target: attack_target_actor() }
}

/// How many attacks the smoke run tries against its melee target.
pub const SMOKE_ENEMY_ATTACK_LIMIT: usize = 32;

/// How many enemy actions the smoke enemy driver performs before it gives up.
pub const SMOKE_ENEMY_ACTION_LIMIT: usize = 64;

/// The schema version written in journal entries and replay exports.
pub const REPLAY_EXPORT_SCHEMA_VERSION: u16 = 1;

/// How many file names are tried before a unique journal or replay file is given up.
pub const UNIQUE_NAME_ATTEMPTS: u32 = 10000;

/// What the process starts with, from its options.
#[derive(Clone, Copy, Debug, PartialEq, Eq, Structural)]
pub struct StartupPlan {
    /// Whether the seeded procedural floor starts; otherwise the starter item floor.
    pub procedural_floor: bool,
    /// Whether the display-free smoke run is performed.
    pub smoke: bool,
    /// The depth recorded for a procedural floor.
    pub depth: Option<u32>,
}

/// The start of a run: a procedural floor only for a visible procedural run; smoke runs always
/// use the starter item floor.
pub open spec fn spec_startup_plan(procedural: bool, smoke: bool, depth: u32) -> StartupPlan {
    let floor = procedural && !smoke;
    StartupPlan { procedural_floor: floor, smoke, depth: if floor { Some(depth) } else { None } }
}

/// Decides what the process starts with.
pub fn startup_plan(options: &DesktopOptions) -> (r: StartupPlan)
    ensures
        r == spec_startup_plan(options.procedural, options.smoke, options.depth),
{
    let floor = options.procedural && !options.smoke;
    StartupPlan {
        procedural_floor: floor,
        smoke: options.smoke,
        depth: if floor {
            Some(options.depth)
        } else {
            None
        },
    }
}

impl StartupPlan {
    /// The journal name of the run mode.
    pub fn mode_name(self) -> (r: &'static str)
        ensures
            r@ == (if self.smoke {
                "smoke"@
            } else {
                "desktop"@
            }),
    {
        if self.smoke {
            "smoke"
        } else {
            "desktop"
        }
    }

    /// The journal name of the scenario.
    pub fn scenario_name(self) -> (r: &'static str)
        ensures
            r@ == (if self.procedural_floor {
                "procedural_floor"@
            } else {
                "starter_item_floor"@
            }),
    {
        if self.procedural_floor {
            "procedural_floor"
        } else {
            "starter_item_floor"
        }
    }
}

/// `-N` for a retry counter, nothing for the first attempt.
pub open spec fn counter_suffix(counter: u32) -> Seq<char> {
    if counter == 0 {
        Seq::empty()
    } else {
        "-"@ + decimal(counter as nat)
    }
}

/// `run-<milliseconds>-<process id><suffix>.jsonl`.
pub open spec fn spec_journal_file_name(timestamp_ms: u64, pid: u32, counter: u32) -> Seq<char> {
    "run-"@ + decimal(timestamp_ms as nat) + "-"@ + decimal(pid as nat) + counter_suffix(counter)
        + ".jsonl"@
}

fn push_counter_suffix(out: &mut String, counter: u32)
    ensures
        final(out)@ == old(out)@ + counter_suffix(counter),
{
    if counter != 0 {
        out.append("-");
        push_decimal(out, counter as u64);
    }
    assert(final(out)@ =~= old(out)@ + counter_suffix(counter));
}

/// Returns the name of the run journal for one creation attempt.
pub fn journal_file_name(timestamp_ms: u64, pid: u32, counter: u32) -> (r: String)
    ensures
        r@ == spec_journal_file_name(timestamp_ms, pid, counter),
{
    let mut out = String::from_str("run-");
    push_decimal(&mut out, timestamp_ms);
    out.append("-");
    push_decimal(&mut out, pid as u64);
    push_counter_suffix(&mut out, counter);
    out.append(".jsonl");
    assert(out@ =~= spec_journal_file_name(timestamp_ms, pid, counter));
    out
}

/// `<journal stem>.replay<suffix>.json`.
pub open spec fn spec_replay_file_name(stem: Seq<char>, counter: u32) -> Seq<char> {
    stem + ".replay"@ + counter_suffix(counter) + ".json"@
}

/// Returns the name of the replay export for one creation attempt.
pub fn replay_file_name(stem: &str, counter: u32) -> (r: String)
    ensures
        r@ == spec_replay_file_name(stem@, counter),
{
    let mut out = String::from_str(stem);
    out.append(".replay");
    push_counter_suffix(&mut out, counter);
    out.append(".json");
    assert(out@ =~= spec_replay_file_name(stem@, counter));
    out
}

/// A journal failure, as its message.
#[derive(Clone, Debug, PartialEq, Eq)]
pub struct JournalError {
    pub message: String,
}

impl JournalError {
    /// Wraps the message of a failed write.
    pub fn io(message: String) -> (r: Self)
        ensures
            r.message@ == message@,
    {
        JournalError { message }
    }

    /// Returns the message.
    pub fn message(&self) -> (r: &str)
        ensures
            r@ == self.message@,
    {
        self.message.as_str()
    }
}

/// Numbers the entries of one run journal from 1.
#[derive(Clone, Copy, Debug, PartialEq, Eq, Structural)]
pub struct JournalSequence {
    pub last: u64,
}

impl JournalSequence {
    /// A journal with no entry yet.
    pub fn new() -> (r: Self)
        ensures
            r.last == 0,
    {
        JournalSequence { last: 0 }
    }

    /// Takes the number of the next entry; fails, unchanged, once the numbers are exhausted.
    pub fn next(&mut self) -> (r: Result<u64, JournalError>)
        ensures
            old(self).last < u64::MAX ==> r == Ok::<u64, JournalError>((old(self).last + 1) as u64)
                && final(self).last == old(self).last + 1,
            old(self).last == u64::MAX ==> (r matches Err(e) && e.message@
                == "journal sequence overflow"@) && final(self).last == old(self).last,
    {
        match self.last.checked_add(1) {
            Some(next) => {
                self.last = next;
                Ok(next)
            },
            None => Err(JournalError { message: String::from_str("journal sequence overflow") }),
        }
    }
}

/// The lower-case hexadecimal digit of `d` in `0..16`.
pub open spec fn hex_char(d: int) -> char {
    if d < 10 {
        digit_char(d)
    } else if d == 10 {
        'a'
    } else if d == 11 {
        'b'
    } else if d == 12 {
        'c'
    } else if d == 13 {
        'd'
    } else if d == 14 {
        'e'
    } else {
        'f'
    }
}

/// How one character is written inside a JSON string: quotes, backslashes and control
/// characters are escaped, with short escapes where JSON has them.
pub open spec fn escaped_char(c: char) -> Seq<char> {
    if c == '"' {
        seq!['\\', '"']
    } else if c == '\\' {
        seq!['\\', '\\']
    } else if c == '\n' {
        seq!['\\', 'n']
    } else if c == '\r' {
        seq!['\\', 'r']
    } else if c == '\t' {
        seq!['\\', 't']
    } else if (c as u32) == 8 {
        seq!['\\', 'b']
    } else if (c as u32) == 12 {
        seq!['\\', 'f']
    } else if (c as u32) < 32 {
        seq!['\\', 'u', '0', '0', hex_char((c as u32) as int / 16), hex_char((c as u32) as int % 16)]
    } else {
        seq![c]
    }
}

/// The contents of a JSON string holding `s`.
pub open spec fn escaped(s: Seq<char>) -> Seq<char>
    decreases s.len(),
{
    if s.len() == 0 {
        Seq::empty()
    } else {
        escaped(s.drop_last()) + escaped_char(s.last())
    }
}

/// A JSON string holding `s`.
pub open spec fn json_string(s: Seq<char>) -> Seq<char> {
    seq!['"'] + escaped(s) + seq!['"']
}

fn hex_digit(d: u32) -> (c: char)
    requires
        d < 16,
    ensures
        c == hex_char(d as int),
{
    if d < 10 {
        let v: [char; 10] = ['0', '1', '2', '3', '4', '5', '6', '7', '8', '9'];
        let c = v[d as usize];
        assert(c == digit_char(d as int)) by {
            assert(v@ =~= seq!['0', '1', '2', '3', '4', '5', '6', '7', '8', '9']);
        }
        c
    } else if d == 10 {
        'a'
    } else if d == 11 {
        'b'
    } else if d == 12 {
        'c'
    } else if d == 13 {
        'd'
    } else if d == 14 {
        'e'
    } else {
        'f'
    }
}

fn push_escaped_char(out: &mut String, c: char)
    ensures
        final(out)@ == old(out)@ + escaped_char(c),
{
    let code = c as u32;
    if c == '"' {
        out.push('\\');
        out.push('"');
    } else if c == '\\' {
        out.push('\\');
        out.push('\\');
    } else if c == '\n' {
        out.push('\\');
        out.push('n');
    } else if c == '\r' {
        out.push('\\');
        out.push('r');
    } else if c == '\t' {
        out.push('\\');
        out.push('t');
    } else if code == 8 {
        out.push('\\');
        out.push('b');
    } else if code == 12 {
        out.push('\\');
        out.push('f');
    } else if code < 32 {
        out.push('\\');
        out.push('u');
        out.push('0');
        out.push('0');
        out.push(hex_digit(code / 16));
        out.push(hex_digit(code % 16));
    } else {
        out.push(c);
    }
    assert(final(out)@ =~= old(out)@ + escaped_char(c));
}

/// Appends `s` as a JSON string.
pub fn push_json_string(out: &mut String, s: &str)
    ensures
        final(out)@ == old(out)@ + json_string(s@),
{
    let chars = crate::text::chars_of(s);
    out.push('"');
    let ghost start = out@;
    let mut i: usize = 0;
    while i < chars.len()
        invariant
            i <= chars@.len(),
            chars@ == s@,
            out@ == start + escaped(chars@.subrange(0, i as int)),
        decreases chars@.len() - i,
    {
        proof {
            let next = chars@.subrange(0, i + 1);
            assert(next.drop_last() =~= chars@.subrange(0, i as int));
            assert(next.last() == chars@[i as int]);
        }
        push_escaped_char(out, chars[i]);
        proof {
            assert(out@ =~= start + escaped(chars@.subrange(0, i + 1)));
        }
        i += 1;
    }
    assert(chars@.subrange(0, chars@.len() as int) =~= s@);
    out.push('"');
    assert(final(out)@ =~= old(out)@ + json_string(s@));
}

/// One journal line: the entry object with its members in name order, then a line break.
/// `payload` is the JSON text of the payload.
pub open spec fn spec_journal_line(
    sequence: u64,
    elapsed_ms: u64,
    kind: Seq<char>,
    payload: Seq<char>,
) -> Seq<char> {
    "{\"elapsed_ms\":"@ + decimal(elapsed_ms as nat) + ",\"kind\":"@ + json_string(kind)
        + ",\"payload\":"@ + payload + ",\"schema_version\":1,\"sequence\":"@ + decimal(
        sequence as nat,
    ) + "}\n"@
}

/// Frames one journal line around the JSON text of its payload.
pub fn journal_line(sequence: u64, elapsed_ms: u64, kind: &str, payload: &str) -> (r: String)
    ensures
        r@ == spec_journal_line(sequence, elapsed_ms, kind@, payload@),
{
    let mut out = String::from_str("{\"elapsed_ms\":");
    push_decimal(&mut out, elapsed_ms);
    out.append(",\"kind\":");
    push_json_string(&mut out, kind);
    out.append(",\"payload\":");
    out.append(payload);
    out.append(",\"schema_version\":1,\"sequence\":");
    push_decimal(&mut out, sequence);
    out.append("}\n");
    assert(out@ =~= spec_journal_line(sequence, elapsed_ms, kind@, payload@));
    out
}

/// The lines of a journal whose entries, in order, are `entries` (elapsed time, kind, payload):
/// the k-th line carries sequence number k.
pub open spec fn journal_text(entries: Seq<(u64, Seq<char>, Seq<char>)>) -> Seq<Seq<char>> {
    Seq::new(
        entries.len(),
        |i: int| spec_journal_line((i + 1) as u64, entries[i].0, entries[i].1, entries[i].2),
    )
}

/// Frames the lines of one journal, numbering them from one.
pub struct JournalFrames {
    sequence: JournalSequence,
    framed: Ghost<Seq<(u64, Seq<char>, Seq<char>)>>,
}

impl JournalFrames {
    #[verifier::type_invariant]
    closed spec fn numbered(self) -> bool {
        self.sequence.last == self.framed@.len()
    }

    /// The entries framed so far, in order.
    pub closed spec fn entries(self) -> Seq<(u64, Seq<char>, Seq<char>)> {
        self.framed@
    }

    /// A journal with no entry yet.
    pub fn new() -> (r: Self)
        ensures
            r.entries() == Seq::<(u64, Seq<char>, Seq<char>)>::empty(),
    {
        JournalFrames { sequence: JournalSequence::new(), framed: Ghost(Seq::empty()) }
    }

    /// Frames the next entry: its line carries the number of entries framed so far, this one
    /// included. Once the numbers are exhausted it fails and frames nothing.
    pub fn frame(&mut self, elapsed_ms: u64, kind: &str, payload: &str) -> (r: Result<String, JournalError>)
        ensures
            old(self).entries().len() < u64::MAX ==> (r matches Ok(line) && line@ == spec_journal_line(
                (old(self).entries().len() + 1) as u64,
                elapsed_ms,
                kind@,
                payload@,
            ) && journal_text(final(self).entries()) == journal_text(old(self).entries()).push(line@))
                && final(self).entries() == old(self).entries().push((elapsed_ms, kind@, payload@)),
            old(self).entries().len() >= u64::MAX ==> (r matches Err(e) && e.message@
                == "journal sequence overflow"@) && final(self).entries() == old(self).entries(),
    {
        proof {
            use_type_invariant(&*self);
        }
        let sequence = match self.sequence.last.checked_add(1) {
            Some(n) => n,
            None => {
                return Err(JournalError { message: String::from_str("journal sequence overflow") });
            },
        };
        let ghost framed = self.framed@.push((elapsed_ms, kind@, payload@));
        *self = JournalFrames { sequence: JournalSequence { last: sequence }, framed: Ghost(framed) };
        let line = journal_line(sequence, elapsed_ms, kind, payload);
        proof {
            lemma_journal_numbering(old(self).entries(), (elapsed_ms, kind@, payload@));
        }
        Ok(line)
    }
}

/// Framing one more entry extends the journal text by one line, numbered one past the
/// entries before it: from an empty journal, the k-th framed line carries sequence number k.
pub proof fn lemma_journal_numbering(entries: Seq<(u64, Seq<char>, Seq<char>)>, entry: (u64, Seq<char>, Seq<char>))
    ensures
        journal_text(entries.push(entry)) == journal_text(entries).push(
            spec_journal_line((entries.len() + 1) as u64, entry.0, entry.1, entry.2),
        ),
{
    assert(journal_text(entries.push(entry)) =~= journal_text(entries).push(
        spec_journal_line((entries.len() + 1) as u64, entry.0, entry.1, entry.2),
    ));
}

/// The path under which the asset server loads a local file: without its `assets/` root when
/// it has one.
pub open spec fn spec_asset_load_path(path: Seq<char>) -> Seq<char> {
    match spec_audio_asset_path(path) {
        Some(rest) => rest,
        None => path,
    }
}

/// Returns the path under which the asset server loads a local file.
pub fn asset_load_path(path: &str) -> (r: &str)
    ensures
        r@ == spec_asset_load_path(path@),
{
    match audio_asset_path(path) {
        Some(rest) => rest,
        None => path,
    }
}

/// What the visible client does with one optional image at startup.
#[derive(Clone, Debug, PartialEq, Eq)]
pub enum StartupAsset {
    /// The file exists: load it from `asset_path` and record it as requested.
    Load { asset_path: String },
    /// The file is absent: record a warning and keep the placeholder.
    Missing,
}

/// Decides what happens to one optional image at startup.
pub fn startup_asset(path: &str, file_exists: bool) -> (r: StartupAsset)
    ensures
        file_exists ==> (r matches StartupAsset::Load { asset_path } && asset_path@
            == spec_asset_load_path(path@)),
        !file_exists ==> r is Missing,
{
    if file_exists {
        StartupAsset::Load { asset_path: String::from_str(asset_load_path(path)) }
    } else {
        StartupAsset::Missing
    }
}

/// Where the asset server is with one requested image.
#[derive(Clone, Copy, Debug, PartialEq, Eq, Structural)]
pub enum AssetLoad {
    Failed,
    Loaded,
    Pending,
}

/// What is remembered of one requested image: whether its failure was reported, and whether
/// its loading was recorded.
#[derive(Clone, Copy, Debug, PartialEq, Eq, Structural)]
pub struct AssetEntryState {
    pub warned: bool,
    pub outcome_recorded: bool,
}

/// What to do with one requested image on one frame.
#[derive(Clone, Copy, Debug, PartialEq, Eq, Structural)]
pub enum AssetStep {
    /// Nothing was requested, or the failure was already handled.
    Nothing,
    /// The image failed: show the placeholder image and record the fallback, once.
    Fallback,
    /// Show the loaded image; record that it loaded when `record_loaded`.
    Apply { record_loaded: bool },
}

/// The step for one image and the state after it.
pub open spec fn spec_asset_step(requested: bool, load: AssetLoad, state: AssetEntryState) -> (AssetStep, AssetEntryState) {
    if !requested {
        (AssetStep::Nothing, state)
    } else if load == AssetLoad::Failed && !state.warned {
        (AssetStep::Fallback, AssetEntryState { warned: true, ..state })
    } else if load == AssetLoad::Loaded && !state.outcome_recorded {
        (AssetStep::Apply { record_loaded: true }, AssetEntryState { outcome_recorded: true, ..state })
    } else {
        (AssetStep::Apply { record_loaded: false }, state)
    }
}

/// Decides what happens to one requested image on one frame, and updates what is remembered.
pub fn asset_step(requested: bool, load: AssetLoad, state: &mut AssetEntryState) -> (r: AssetStep)
    ensures
        (r, *final(state)) == spec_asset_step(requested, load, *old(state)),
{
    if !requested {
        return AssetStep::Nothing;
    }
    let failed = match load {
        AssetLoad::Failed => true,
        _ => false,
    };
    let loaded = match load {
        AssetLoad::Loaded => true,
        _ => false,
    };
    if failed && !state.warned {
        state.warned = true;
        return AssetStep::Fallback;
    }
    if loaded && !state.outcome_recorded {
        state.outcome_recorded = true;
        return AssetStep::Apply { record_loaded: true };
    }
    AssetStep::Apply { record_loaded: false }
}

/// What happens to one audio cue's file.
#[derive(Clone, Debug, PartialEq, Eq)]
pub enum AudioPlayback {
    /// The optional file is absent.
    Missing,
    /// The file exists outside the `assets/` root the asset server reads.
    UnsupportedRoot,
    /// Play the file from `asset_path`.
    Play { asset_path: String },
}

/// Decides what happens to one audio cue's file.
pub fn audio_playback(path: &str, file_exists: bool) -> (r: AudioPlayback)
    ensures
        !file_exists ==> r is Missing,
        file_exists && spec_audio_asset_path(path@) is None ==> r is UnsupportedRoot,
        file_exists ==> (spec_audio_asset_path(path@) matches Some(rest) ==> (r matches AudioPlayback::Play {
            asset_path,
        } && asset_path@ == rest)),
{
    if !file_exists {
        return AudioPlayback::Missing;
    }
    match audio_asset_path(path) {
        Some(rest) => AudioPlayback::Play { asset_path: String::from_str(rest) },
        None => AudioPlayback::UnsupportedRoot,
    }
}

impl AudioPlayback {
    /// The journal name of this outcome.
    pub fn outcome_name(&self) -> (r: &'static str)
        ensures
            r@ == match self {
                AudioPlayback::Missing => "missing_optional_audio"@,
                AudioPlayback::UnsupportedRoot => "unsupported_asset_root"@,
                AudioPlayback::Play { .. } => "requested"@,
            },
    {
        match self {
            AudioPlayback::Missing => "missing_optional_audio",
            AudioPlayback::UnsupportedRoot => "unsupported_asset_root",
            AudioPlayback::Play { .. } => "requested",
        }
    }
}

/// Whether a faulted session exits, and whether it first records its terminal fault (only
/// once).
pub open spec fn spec_fault_exit(status: DesktopStatus, terminal_recorded: bool) -> Option<bool> {
    if status is Faulted {
        Some(!terminal_recorded)
    } else {
        None
    }
}

/// Decides the exit of a faulted session: `None` when the session has not faulted, else
/// whether the terminal fault is recorded now.
pub fn fault_exit(status: &DesktopStatus, terminal_recorded: bool) -> (r: Option<bool>)
    ensures
        r == spec_fault_exit(*status, terminal_recorded),
{
    match status {
        DesktopStatus::Faulted(_) => Some(!terminal_recorded),
        _ => None,
    }
}

/// What shutdown reports to the process: whether finalization ran, and its error.
#[derive(Clone, Debug, PartialEq, Eq)]
pub struct FinalizationReport {
    pub complete: bool,
    pub error: Option<String>,
}

impl FinalizationReport {
    /// A report before finalization.
    pub fn new() -> (r: Self)
        ensures
            !r.complete,
            r.error is None,
    {
        FinalizationReport { complete: false, error: None }
    }

    /// Marks finalization as done, with its error if any.
    pub fn finish(&mut self, error: Option<String>)
        ensures
            final(self).complete,
            final(self).error == error,
    {
        self.complete = true;
        self.error = error;
    }

    /// The result of the visible run: the finalization error, success once finalized, or an
    /// error when the client exited before finalization.
    pub fn outcome(&self) -> (r: Result<(), String>)
        ensures
            self.error matches Some(e) ==> (r matches Err(m) && m@ == e@),
            self.error is None && self.complete ==> r is Ok,
            self.error is None && !self.complete ==> (r matches Err(m) && m@
                == "desktop exited before finalization"@),
    {
        match &self.error {
            Some(e) => Err(e.clone()),
            None => if self.complete {
                Ok(())
            } else {
                Err(String::from_str("desktop exited before finalization"))
            },
        }
    }
}

/// The error finalization reports: the replay export's, else the shutdown record's, else the
/// fault that stopped the session.
pub fn finalization_error(
    export_error: Option<String>,
    journal_error: Option<String>,
    status: &DesktopStatus,
) -> (r: Option<String>)
    ensures
        export_error is Some ==> r == export_error,
        export_error is None && journal_error is Some ==> r == journal_error,
        export_error is None && journal_error is None ==> match status {
            DesktopStatus::Faulted(e) => (r matches Some(m) && m@ == e@),
            _ => r is None,
        },
{
    if export_error.is_some() {
        return export_error;
    }
    if journal_error.is_some() {
        return journal_error;
    }
    match status {
        DesktopStatus::Faulted(e) => Some(e.clone()),
        _ => None,
    }
}

/// Whether the melee fixture is ready: the player's reach is at least 2 and the target is
/// exactly two steps away.
pub open spec fn spec_reach_fixture_valid(player: Option<Actor>, target: Option<Actor>) -> bool {
    match (player, target) {
        (Some(p), Some(t)) => {
            let dx = p.position.x - t.position.x;
            let dy = p.position.y - t.position.y;
            &&& p.melee_reach >= 2
            &&& (if dx < 0 {
                -dx
            } else {
                dx
            }) + (if dy < 0 {
                -dy
            } else {
                dy
            }) == 2
        },
        _ => false,
    }
}

/// Checks the melee fixture of the smoke run among a snapshot's actors.
pub fn reach_fixture_valid(actors: &Vec<Actor>) -> (r: bool)
    ensures
        r == spec_reach_fixture_valid(find_actor(actors@, player_actor()), find_actor(actors@, attack_target_actor())),
{
    let p = match find_actor_index(actors, ActorId { id: PLAYER_ID }) {
        Some(i) => &actors[i],
        None => {
            return false;
        },
    };
    let t = match find_actor_index(actors, ActorId { id: ATTACK_TARGET_ID }) {
        Some(i) => &actors[i],
        None => {
            return false;
        },
    };
    let dx: i64 = p.position.x as i64 - t.position.x as i64;
    let dy: i64 = p.position.y as i64 - t.position.y as i64;
    let ax: i64 = if dx < 0 {
        -dx
    } else {
        dx
    };
    let ay: i64 = if dy < 0 {
        -dy
    } else {
        dy
    };
    p.melee_reach >= 2 && ax + ay == 2
}

/// Whether the smoke run's melee target is still alive.
pub open spec fn spec_target_alive(actors: Seq<Actor>) -> bool {
    match find_actor(actors, attack_target_actor()) {
        Some(t) => t.alive,
        None => false,
    }
}

/// Returns whether the smoke run's melee target is still alive.
pub fn target_alive(actors: &Vec<Actor>) -> (r: bool)
    ensures
        r == spec_target_alive(actors@),
{
    match find_actor_index(actors, ActorId { id: ATTACK_TARGET_ID }) {
        Some(i) => actors[i].alive,
        None => false,
    }
}

/// The player's melee attack on the smoke target, when it is legal.
pub fn smoke_attack(legal: &[Command]) -> (r: Option<Command>)
    ensures
        r is Some <==> legal@.contains(smoke_attack_command()),
        r matches Some(c) ==> c == smoke_attack_command(),
{
    let wanted = Command::Attack { actor: ActorId { id: PLAYER_ID }, target: ActorId { id: ATTACK_TARGET_ID } };
    let mut i: usize = 0;
    while i < legal.len()
        invariant
            i <= legal@.len(),
            wanted == smoke_attack_command(),
            forall|k: int| 0 <= k < i ==> legal@[k] != wanted,
        decreases legal@.len() - i,
    {
        if legal[i] == wanted {
            return Some(wanted);
        }
        i += 1;
    }
    None
}

/// What the smoke enemy driver does next: hand the turn back, or act for a scheduled enemy.
pub open spec fn spec_enemy_turn(next_actor: Option<ActorId>) -> Option<ActorId> {
    match next_actor {
        Some(actor) => if actor.id == PLAYER_ID {
            None
        } else {
            Some(actor)
        },
        None => None,
    }
}

/// Returns the actor the smoke enemy driver acts for, or `None` when the driver stops because
/// the player is scheduled or nobody is.
pub fn enemy_turn(next_actor: Option<ActorId>) -> (r: Option<ActorId>)
    ensures
        r == spec_enemy_turn(next_actor),
{
    match next_actor {
        Some(actor) => if actor.id == PLAYER_ID {
            None
        } else {
            Some(actor)
        },
        None => None,
    }
}

/// The first legal wait of `actor`.
pub open spec fn first_wait(legal: Seq<Command>, actor: ActorId) -> Option<Command>
    decreases legal.len(),
{
    if legal.len() == 0 {
        None
    } else if legal[0] == (Command::Wait { actor }) {
        Some(legal[0])
    } else {
        first_wait(legal.drop_first(), actor)
    }
}

/// The command the smoke driver submits for an enemy: the one the simulation selected, except
/// that an attack on a player down to 3 hit points or fewer becomes the enemy's legal wait.
pub open spec fn spec_smoke_enemy_command(
    selected: Option<Command>,
    legal: Seq<Command>,
    actor: ActorId,
    player_hit_points: Option<i16>,
) -> Option<Command> {
    match selected {
        None => None,
        Some(c) => {
            let low = match player_hit_points {
                Some(hp) => hp <= 3,
                None => false,
            };
            if low && (c is Attack || c is RangedAttack) {
                first_wait(legal, actor)
            } else {
                Some(c)
            }
        },
    }
}

/// Chooses the command the smoke driver submits for an enemy.
pub fn smoke_enemy_command(
    selected: Option<Command>,
    legal: &[Command],
    actor: ActorId,
    player_hit_points: Option<i16>,
) -> (r: Option<Command>)
    ensures
        r == spec_smoke_enemy_command(selected, legal@, actor, player_hit_points),
{
    let c = match selected {
        Some(c) => c,
        None => {
            return None;
        },
    };
    let low = match player_hit_points {
        Some(hp) => hp <= 3,
        None => false,
    };
    let attack = match c {
        Command::Attack { .. } | Command::RangedAttack { .. } => true,
        _ => false,
    };
    if !(low && attack) {
        return Some(c);
    }
    let wait = Command::Wait { actor };
    let mut i: usize = 0;
    assert(legal@.subrange(0, legal@.len() as int) =~= legal@);
    assert(spec_smoke_enemy_command(selected, legal@, actor, player_hit_points) == first_wait(legal@, actor));
    while i < legal.len()
        invariant
            i <= legal@.len(),
            wait == (Command::Wait { actor }),
            spec_smoke_enemy_command(selected, legal@, actor, player_hit_points) == first_wait(legal@, actor),
            first_wait(legal@, actor) == first_wait(legal@.subrange(i as int, legal@.len() as int), actor),
        decreases legal@.len() - i,
    {
        let ghost rest = legal@.subrange(i as int, legal@.len() as int);
        assert(rest.drop_first() =~= legal@.subrange(i + 1, legal@.len() as int));
        assert(rest[0] == legal@[i as int]);
        if legal[i] == wait {
            return Some(legal[i]);
        }
        i += 1;
    }
    None
}

/// The command kinds the smoke run must demonstrate.
pub open spec fn showcase_command_kinds() -> Seq<Seq<char>> {
    seq![
        "move"@,
        "wait"@,
        "interact"@,
        "kick"@,
        "close"@,
        "break"@,
        "attack"@,
        "ranged_attack"@,
        "cast_chill"@,
        "throw"@,
        "retreat"@,
        "chase"@,
        "investigate"@,
        "equip"@,
        "unequip"@,
        "use_item"@,
        "pickup"@,
        "drop"@,
        "reload"@,
    ]
}

/// The event kinds the smoke run must observe.
pub open spec fn showcase_event_kinds() -> Seq<Seq<char>> {
    seq![
        "moved"@,
        "movement_blocked"@,
        "waited"@,
        "door_opened"@,
        "door_closed"@,
        "noise_created"@,
        "breakable_broken"@,
        "trap_triggered"@,
        "status_applied"@,
        "status_expired"@,
        "attacked"@,
        "chill_cast"@,
        "item_thrown"@,
        "died"@,
        "item_equipped"@,
        "item_unequipped"@,
        "item_consumed"@,
        "item_picked_up"@,
        "item_dropped"@,
        "reloaded"@,
    ]
}

/// Returns the command kinds the smoke run must demonstrate.
pub fn showcase_command_kind_list() -> (r: Vec<&'static str>)
    ensures
        r@.len() == showcase_command_kinds().len(),
        forall|i: int| 0 <= i < r@.len() ==> #[trigger] r@[i]@ == showcase_command_kinds()[i],
{
    let v = vec![
        "move",
        "wait",
        "interact",
        "kick",
        "close",
        "break",
        "attack",
        "ranged_attack",
        "cast_chill",
        "throw",
        "retreat",
        "chase",
        "investigate",
        "equip",
        "unequip",
        "use_item",
        "pickup",
        "drop",
        "reload",
    ];
    assert forall|i: int| 0 <= i < v@.len() implies #[trigger] v@[i]@ == showcase_command_kinds()[i] by {
    }
    v
}

/// Returns the event kinds the smoke run must observe.
pub fn showcase_event_kind_list() -> (r: Vec<&'static str>)
    ensures
        r@.len() == showcase_event_kinds().len(),
        forall|i: int| 0 <= i < r@.len() ==> #[trigger] r@[i]@ == showcase_event_kinds()[i],
{
    let v = vec![
        "moved",
        "movement_blocked",
        "waited",
        "door_opened",
        "door_closed",
        "noise_created",
        "breakable_broken",
        "trap_triggered",
        "status_applied",
        "status_expired",
        "attacked",
        "chill_cast",
        "item_thrown",
        "died",
        "item_equipped",
        "item_unequipped",
        "item_consumed",
        "item_picked_up",
        "item_dropped",
        "reloaded",
    ];
    assert forall|i: int| 0 <= i < v@.len() implies #[trigger] v@[i]@ == showcase_event_kinds()[i] by {
    }
    v
}

/// Whether every expected kind was observed.
pub open spec fn covers(observed: Seq<Seq<char>>, expected: Seq<Seq<char>>) -> bool {
    forall|i: int| 0 <= i < expected.len() ==> observed.contains(#[trigger] expected[i])
}

fn observed_contains(observed: &Vec<String>, kind: &str) -> (r: bool)
    ensures
        r == Seq::new(observed@.len(), |i: int| observed@[i]@).contains(kind@),
{
    let ghost views = Seq::new(observed@.len(), |i: int| observed@[i]@);
    let mut i: usize = 0;
    while i < observed.len()
        invariant
            i <= observed@.len(),
            views == Seq::new(observed@.len(), |k: int| observed@[k]@),
            forall|k: int| 0 <= k < i ==> views[k] != kind@,
        decreases observed@.len() - i,
    {
        let chars = crate::text::chars_of(observed[i].as_str());
        assert(chars@.subrange(0, chars@.len() as int) =~= chars@);
        assert(views[i as int] == observed@[i as int]@);
        if crate::text::slice_equals(&chars, 0, chars.len(), kind) {
            assert(views[i as int] == observed@[i as int]@);
            return true;
        }
        i += 1;
    }
    false
}

/// Returns whether every kind of `expected` was observed.
pub fn covers_all(observed: &Vec<String>, expected: &Vec<&str>) -> (r: bool)
    ensures
        r == covers(
            Seq::new(observed@.len(), |i: int| observed@[i]@),
            Seq::new(expected@.len(), |i: int| expected@[i]@),
        ),
{
    let ghost views = Seq::new(observed@.len(), |i: int| observed@[i]@);
    let ghost wanted = Seq::new(expected@.len(), |i: int| expected@[i]@);
    let mut i: usize = 0;
    while i < expected.len()
        invariant
            i <= expected@.len(),
            views == Seq::new(observed@.len(), |k: int| observed@[k]@),
            wanted == Seq::new(expected@.len(), |k: int| expected@[k]@),
            forall|k: int| 0 <= k < i ==> views.contains(#[trigger] wanted[k]),
        decreases expected@.len() - i,
    {
        if !observed_contains(observed, expected[i]) {
            assert(!views.contains(wanted[i as int]));
            return false;
        }
        i += 1;
    }
    true
}

/// The journal kind of the smoke run's final state record.
pub fn smoke_terminal_kind(failed: bool) -> (r: &'static str)
    ensures
        r@ == (if failed {
            "terminal_fault"@
        } else {
            "smoke_complete"@
        }),
{
    if failed {
        "terminal_fault"
    } else {
        "smoke_complete"
    }
}

/// The shutdown reason of the smoke run.
pub fn smoke_shutdown_reason(failed: bool) -> (r: &'static str)
    ensures
        r@ == (if failed {
            "smoke_fault"@
        } else {
            "smoke_complete"@
        }),
{
    if failed {
        "smoke_fault"
    } else {
        "smoke_complete"
    }
}

/// The process exit status of a run: 1 after any failure, else 0.
pub fn exit_status(failed: bool) -> (r: u8)
    ensures
        r == (if failed {
            1u8
        } else {
            0u8
        }),
{
    if failed {
        1
    } else {
        0
    }
}

/// Whether a desktop sprite is hidden: inventory placeholders, and anything outside the field
/// of view.
pub fn desktop_sprite_hidden(placeholder: SceneRenderPlaceholder, visible: bool) -> (r: bool)
    ensures
        r == (placeholder == SceneRenderPlaceholder::InventoryItem || !visible),
{
    let inventory = match placeholder {
        SceneRenderPlaceholder::InventoryItem => true,
        _ => false,
    };
    inventory || !visible
}

/// The visible client's fixed configuration.
pub struct ShowcaseConfig {
    pub tile_size: PresentationTileSize,
    pub viewport: PresentationViewport,
    pub window: PresentationWindow,
    pub manifest: PresentationAssetManifest,
    pub visibility_radius: u32,
}

/// Builds the visible client's configuration: 32 by 32 pixel tiles, a 7 by 5 tile viewport, a
/// 640 by 360 window at scale 2, the showcase image manifest, and a field of view of radius 3.
pub fn showcase_config() -> (r: Result<ShowcaseConfig, String>)
    ensures
        r is Ok <==> showcase_prefix_valid(6),
        r matches Ok(c) ==> c.tile_size@ == (32u32, 32u32) && c.viewport@ == (
            7u32,
            5u32,
            None::<Position>,
            0u32,
            0u32,
        ) && c.window@ == (640u32, 360u32, 2u32) && c.manifest@ == showcase_asset_paths()
            && c.visibility_radius == 3,
{
    let tile_size = match PresentationTileSize::new(32, 32) {
        Some(size) => size,
        None => {
            return Err(String::from_str("invalid 32x32 tile size"));
        },
    };
    let viewport = match PresentationViewport::new(7, 5) {
        Some(viewport) => viewport,
        None => {
            return Err(String::from_str("invalid 7x5 viewport"));
        },
    };
    let window = match PresentationWindow::new(640, 360, 2) {
        Some(window) => window,
        None => {
            return Err(String::from_str("invalid 640x360 window"));
        },
    };
    let manifest = match build_manifest() {
        Ok(manifest) => manifest,
        Err(error) => {
            return Err(error);
        },
    };
    Ok(ShowcaseConfig { tile_size, viewport, window, manifest, visibility_radius: 3 })
}

/// A fixture the smoke run prepares before one of its commands.
#[derive(Clone, Copy, Debug, PartialEq, Eq, Structural)]
pub enum SmokeFixture {
    /// A trap on a cell.
    Trap(Position),
    /// Breakable terrain on a cell.
    Breakable(Position),
    /// A closed door to kick.
    KickDoor(Position),
    /// A closed door to open.
    InteractDoor(Position),
    /// An item dropped under the player.
    Pickup(ItemId),
}

/// The journal reason recorded when a fixture cannot be prepared.
pub open spec fn spec_fixture_fault(fixture: SmokeFixture) -> Seq<char> {
    match fixture {
        SmokeFixture::Trap(_) => "trap_fixture_setup"@,
        SmokeFixture::Breakable(_) => "breakable_fixture_setup"@,
        SmokeFixture::KickDoor(_) => "door_fixture_setup"@,
        SmokeFixture::InteractDoor(_) => "interact_door_fixture_setup"@,
        SmokeFixture::Pickup(_) => "pickup_fixture_setup"@,
    }
}

impl SmokeFixture {
    /// Returns the journal reason recorded when this fixture cannot be prepared.
    pub fn fault_reason(self) -> (r: &'static str)
        ensures
            r@ == spec_fixture_fault(self),
    {
        match self {
            SmokeFixture::Trap(_) => "trap_fixture_setup",
            SmokeFixture::Breakable(_) => "breakable_fixture_setup",
            SmokeFixture::KickDoor(_) => "door_fixture_setup",
            SmokeFixture::InteractDoor(_) => "interact_door_fixture_setup",
            SmokeFixture::Pickup(_) => "pickup_fixture_setup",
        }
    }
}

/// One scripted step of the smoke run: an optional fixture, then a player command; the enemies
/// act after it.
#[derive(Clone, Copy, Debug, PartialEq, Eq, Structural)]
pub struct SmokeStep {
    pub fixture: Option<SmokeFixture>,
    pub command: Command,
}

/// The smoke run before its melee phase: a ranged shot over a trap, breaking, kicking and
/// opening a door, reloading, picking up and dropping an item, a step east, and equipping the
/// reach weapon.
pub open spec fn spec_smoke_opening() -> Seq<SmokeStep> {
    let player = player_actor();
    let cell = Position { x: 2, y: 1 };
    seq![
        SmokeStep {
            fixture: Some(SmokeFixture::Trap(Position { x: 4, y: 1 })),
            command: Command::RangedAttack { actor: player, target: ActorId { id: RANGED_TARGET_ID } },
        },
        SmokeStep {
            fixture: Some(SmokeFixture::Breakable(cell)),
            command: Command::Break { actor: player, position: cell },
        },
        SmokeStep {
            fixture: Some(SmokeFixture::KickDoor(cell)),
            command: Command::Kick { actor: player, position: cell },
        },
        SmokeStep {
            fixture: Some(SmokeFixture::InteractDoor(cell)),
            command: Command::Interact { actor: player, position: cell },
        },
        SmokeStep { fixture: None, command: Command::Reload { actor: player } },
        SmokeStep {
            fixture: Some(SmokeFixture::Pickup(ItemId { id: PICKUP_ITEM_ID })),
            command: Command::Pickup { actor: player, item: ItemId { id: PICKUP_ITEM_ID } },
        },
        SmokeStep {
            fixture: None,
            command: Command::Drop { actor: player, item: ItemId { id: PICKUP_ITEM_ID } },
        },
        SmokeStep { fixture: None, command: Command::Move { actor: player, direction: Direction::East } },
        SmokeStep {
            fixture: None,
            command: Command::Equip { actor: player, item: ItemId { id: crate::session::EQUIP_ITEM_ID } },
        },
    ]
}

/// The smoke run after its melee phase: unequip, use the consumable, a step north, and a wait.
pub open spec fn spec_smoke_closing() -> Seq<SmokeStep> {
    let player = player_actor();
    seq![
        SmokeStep { fixture: None, command: Command::Unequip { actor: player } },
        SmokeStep {
            fixture: None,
            command: Command::UseItem { actor: player, item: ItemId { id: CONSUME_ITEM_ID } },
        },
        SmokeStep { fixture: None, command: Command::Move { actor: player, direction: Direction::North } },
        SmokeStep { fixture: None, command: Command::Wait { actor: player } },
    ]
}

/// Returns the smoke run's steps before its melee phase.
pub fn smoke_opening() -> (r: Vec<SmokeStep>)
    ensures
        r@ == spec_smoke_opening(),
{
    let player = ActorId { id: PLAYER_ID };
    let cell = Position { x: 2, y: 1 };
    let r = vec![
        SmokeStep {
            fixture: Some(SmokeFixture::Trap(Position { x: 4, y: 1 })),
            command: Command::RangedAttack { actor: player, target: ActorId { id: RANGED_TARGET_ID } },
        },
        SmokeStep {
            fixture: Some(SmokeFixture::Breakable(cell)),
            command: Command::Break { actor: player, position: cell },
        },
        SmokeStep {
            fixture: Some(SmokeFixture::KickDoor(cell)),
            command: Command::Kick { actor: player, position: cell },
        },
        SmokeStep {
            fixture: Some(SmokeFixture::InteractDoor(cell)),
            command: Command::Interact { actor: player, position: cell },
        },
        SmokeStep { fixture: None, command: Command::Reload { actor: player } },
        SmokeStep {
            fixture: Some(SmokeFixture::Pickup(ItemId { id: PICKUP_ITEM_ID })),
            command: Command::Pickup { actor: player, item: ItemId { id: PICKUP_ITEM_ID } },
        },
        SmokeStep {
            fixture: None,
            command: Command::Drop { actor: player, item: ItemId { id: PICKUP_ITEM_ID } },
        },
        SmokeStep { fixture: None, command: Command::Move { actor: player, direction: Direction::East } },
        SmokeStep {
            fixture: None,
            command: Command::Equip { actor: player, item: ItemId { id: crate::session::EQUIP_ITEM_ID } },
        },
    ];
    assert(r@ =~= spec_smoke_opening());
    r
}

/// Returns the smoke run's steps after its melee phase.
pub fn smoke_closing() -> (r: Vec<SmokeStep>)
    ensures
        r@ == spec_smoke_closing(),
{
    let player = ActorId { id: PLAYER_ID };
    let r = vec![
        SmokeStep { fixture: None, command: Command::Unequip { actor: player } },
        SmokeStep {
            fixture: None,
            command: Command::UseItem { actor: player, item: ItemId { id: CONSUME_ITEM_ID } },
        },
        SmokeStep { fixture: None, command: Command::Move { actor: player, direction: Direction::North } },
        SmokeStep { fixture: None, command: Command::Wait { actor: player } },
    ];
    assert(r@ =~= spec_smoke_closing());
    r
}

/// The cell the melee target is moved to before the melee phase: two steps from the player.
pub fn reach_target_cell() -> (r: Position)
    ensures
        r == (Position { x: 4, y: 1 }),
{
    Position { x: 4, y: 1 }
}

/// What the melee phase of the smoke run does next.
#[derive(Clone, Copy, Debug, PartialEq, Eq, Structural)]
pub enum AttackStep {
    /// The target is dead or the attempts are used up.
    Stop,
    /// Attack; `first` marks the extended-reach attack that the run must observe.
    Attack { command: Command, first: bool },
    /// No attack is legal: wait instead, reporting it when it happens on the first attempt.
    WaitInstead { report_not_legal: bool },
}

/// The next step of the melee phase.
pub open spec fn spec_attack_step(target_alive: bool, attacks: usize, attack: Option<Command>) -> AttackStep {
    if !target_alive || attacks >= SMOKE_ENEMY_ATTACK_LIMIT {
        AttackStep::Stop
    } else {
        match attack {
            Some(command) => AttackStep::Attack { command, first: attacks == 0 },
            None => AttackStep::WaitInstead { report_not_legal: attacks == 0 },
        }
    }
}

/// Decides the next step of the melee phase.
pub fn attack_step(target_alive: bool, attacks: usize, attack: Option<Command>) -> (r: AttackStep)
    ensures
        r == spec_attack_step(target_alive, attacks, attack),
{
    if !target_alive || attacks >= SMOKE_ENEMY_ATTACK_LIMIT {
        return AttackStep::Stop;
    }
    match attack {
        Some(command) => AttackStep::Attack { command, first: attacks == 0 },
        None => AttackStep::WaitInstead { report_not_legal: attacks == 0 },
    }
}

/// What the desktop enemy driver does on one frame.
#[derive(Clone, Copy, Debug, PartialEq, Eq, Structural)]
pub enum EnemyDriverStep {
    /// The session is not running, or no actor is scheduled.
    Idle,
    /// The player is scheduled: the enemy delay starts over.
    PlayerTurn,
    /// The enemy delay has not run out.
    Waiting,
    /// Act for the scheduled enemy.
    Act(ActorId),
}

/// The enemy driver's step, after the delay timer has been advanced by the frame.
pub open spec fn spec_enemy_driver_step(
    running: bool,
    next_actor: Option<ActorId>,
    timer_finished: bool,
) -> EnemyDriverStep {
    if !running {
        EnemyDriverStep::Idle
    } else if next_actor == Some(player_actor()) {
        EnemyDriverStep::PlayerTurn
    } else if !timer_finished {
        EnemyDriverStep::Waiting
    } else {
        match next_actor {
            Some(actor) => EnemyDriverStep::Act(actor),
            None => EnemyDriverStep::Idle,
        }
    }
}

/// Decides the enemy driver's step for a session status and scheduler state.
pub fn enemy_driver_step(status: &DesktopStatus, next_actor: Option<ActorId>, timer_finished: bool) -> (r: EnemyDriverStep)
    ensures
        r == spec_enemy_driver_step(status is Running, next_actor, timer_finished),
{
    let running = match status {
        DesktopStatus::Running => true,
        _ => false,
    };
    if !running {
        return EnemyDriverStep::Idle;
    }
    let player_next = match next_actor {
        Some(actor) => actor.id == PLAYER_ID,
        None => false,
    };
    if player_next {
        return EnemyDriverStep::PlayerTurn;
    }
    if !timer_finished {
        return EnemyDriverStep::Waiting;
    }
    match next_actor {
        Some(actor) => EnemyDriverStep::Act(actor),
        None => EnemyDriverStep::Idle,
    }
}

/// The fault raised when the scheduled enemy has no legal command.
pub fn no_enemy_command_fault(actor: ActorId) -> (r: String)
    ensures
        r@ == "no legal enemy command for actor "@ + decimal(actor.id as nat),
{
    let mut out = String::from_str("no legal enemy command for actor ");
    push_decimal(&mut out, actor.id as u64);
    out
}

/// The fault raised when a smoke enemy has no legal command.
pub fn smoke_enemy_fault(actor: ActorId) -> (r: String)
    ensures
        r@ == "smoke enemy actor "@ + decimal(actor.id as nat) + " has no legal command"@,
{
    let mut out = String::from_str("smoke enemy actor ");
    push_decimal(&mut out, actor.id as u64);
    out.append(" has no legal command");
    out
}

/// The fault raised when the smoke enemy driver uses up its actions.
pub fn smoke_driver_exhausted() -> (r: String)
    ensures
        r@ == "smoke enemy driver exceeded 64 actions"@,
{
    String::from_str("smoke enemy driver exceeded 64 actions")
}

/// The fault raised when a scenario cannot start again or the next floor cannot start.
pub fn start_failure(kind: RestartKind, error: &str) -> (r: String)
    ensures
        r@ == (match kind {
            RestartKind::Restart => "restart failed: "@,
            RestartKind::NextFloor => "procedural floor advance failed: "@,
        }) + error@,
{
    let mut out = match kind {
        RestartKind::Restart => String::from_str("restart failed: "),
        RestartKind::NextFloor => String::from_str("procedural floor advance failed: "),
    };
    out.append(error);
    out
}

/// Which start failed: a restart of the scenario or the next procedural floor.
#[derive(Clone, Copy, Debug, PartialEq, Eq, Structural)]
pub enum RestartKind {
    Restart,
    NextFloor,
}

/// The fault raised when the procedural depth cannot grow.
pub fn depth_overflow_fault() -> (r: String)
    ensures
        r@ == "procedural floor depth overflow"@,
{
    String::from_str("procedural floor depth overflow")
}

proof fn lemma_counter_suffix_injective(c1: u32, c2: u32)
    requires
        counter_suffix(c1) == counter_suffix(c2),
    ensures
        c1 == c2,
{
    lemma_decimal_len(c1 as nat);
    lemma_decimal_len(c2 as nat);
    reveal_strlit("-");
    if c1 == 0 || c2 == 0 {
        assert(counter_suffix(c1).len() == counter_suffix(c2).len());
    } else {
        assert(counter_suffix(c1).subrange(1, counter_suffix(c1).len() as int) =~= decimal(c1 as nat));
        assert(counter_suffix(c2).subrange(1, counter_suffix(c2).len() as int) =~= decimal(c2 as nat));
        lemma_decimal_injective(c1 as nat, c2 as nat);
    }
}

proof fn lemma_middle_equal(p: Seq<char>, a: Seq<char>, b: Seq<char>, q: Seq<char>)
    requires
        p + a + q == p + b + q,
    ensures
        a == b,
{
    let x = p + a + q;
    let y = p + b + q;
    assert(x.len() == p.len() + a.len() + q.len());
    assert(y.len() == p.len() + b.len() + q.len());
    assert(x.len() == y.len());
    assert(a.len() == b.len());
    assert(a =~= x.subrange(p.len() as int, (p.len() + a.len()) as int));
    assert(b =~= y.subrange(p.len() as int, (p.len() + b.len()) as int));
}

/// Different attempts name different journal files, so a retry never reuses an earlier name.
pub proof fn lemma_journal_names_differ(timestamp_ms: u64, pid: u32, c1: u32, c2: u32)
    requires
        c1 != c2,
    ensures
        spec_journal_file_name(timestamp_ms, pid, c1) != spec_journal_file_name(timestamp_ms, pid, c2),
{
    let head = "run-"@ + decimal(timestamp_ms as nat) + "-"@ + decimal(pid as nat);
    if spec_journal_file_name(timestamp_ms, pid, c1) == spec_journal_file_name(timestamp_ms, pid, c2) {
        assert(spec_journal_file_name(timestamp_ms, pid, c1) =~= head + counter_suffix(c1) + ".jsonl"@);
        assert(spec_journal_file_name(timestamp_ms, pid, c2) =~= head + counter_suffix(c2) + ".jsonl"@);
        lemma_middle_equal(head, counter_suffix(c1), counter_suffix(c2), ".jsonl"@);
        lemma_counter_suffix_injective(c1, c2);
    }
}

/// Different attempts name different replay exports beside one journal.
pub proof fn lemma_replay_names_differ(stem: Seq<char>, c1: u32, c2: u32)
    requires
        c1 != c2,
    ensures
        spec_replay_file_name(stem, c1) != spec_replay_file_name(stem, c2),
{
    let head = stem + ".replay"@;
    if spec_replay_file_name(stem, c1) == spec_replay_file_name(stem, c2) {
        assert(spec_replay_file_name(stem, c1) =~= head + counter_suffix(c1) + ".json"@);
        assert(spec_replay_file_name(stem, c2) =~= head + counter_suffix(c2) + ".json"@);
        lemma_middle_equal(head, counter_suffix(c1), counter_suffix(c2), ".json"@);
        lemma_counter_suffix_injective(c1, c2);
    }
}

} // verus!
