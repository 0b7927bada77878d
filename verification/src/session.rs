//! Desktop session status, the bounded message log, inventory selection and run transitions.

use vstd::prelude::*;

use crate::events::{event_message, showcase_event_name, spec_event_message, spec_event_name, Event};
use crate::evidence::{command_name, spec_command_name};
use crate::input::Command;
use crate::text::{lemma_text_less_total, lemma_text_less_transitive, lemma_text_less_irreflexive, text_before, text_less};
use crate::world::{ItemId, RunOutcome};

verus! {

/// The most messages the HUD keeps.
pub const MESSAGE_CAPACITY: usize = 8;

/// The number of the item selected when a run starts.
pub const EQUIP_ITEM_ID: u32 = 103;

/// The lifecycle of the visible desktop run.
#[derive(Clone, Debug, PartialEq, Eq)]
pub enum DesktopStatus {
    Running,
    Victory,
    Defeat,
    Faulted(String),
    Shutdown(String),
}

/// The last `MESSAGE_CAPACITY` entries of a history.
pub open spec fn recent(history: Seq<Seq<char>>) -> Seq<Seq<char>> {
    if history.len() <= MESSAGE_CAPACITY {
        history
    } else {
        history.subrange(history.len() - MESSAGE_CAPACITY, history.len() as int)
    }
}

/// The views of a list of strings.
pub open spec fn text_views(s: Seq<String>) -> Seq<Seq<char>> {
    s.map_values(|t: String| t@)
}

/// The session state that the desktop client's decisions read and change.
///
/// Journal writing, the enemy timer and the runtime stay with the client; this value holds the
/// run parameters, the status, the selection, the recent messages and the observed kinds.
#[derive(Clone, Debug, PartialEq, Eq)]
pub struct DesktopSession {
    pub seed: u64,
    pub procedural: bool,
    pub depth: u32,
    pub status: DesktopStatus,
    pub selected_item: Option<ItemId>,
    pub messages: Vec<String>,
    pub command_kinds: Vec<String>,
    pub event_kinds: Vec<String>,
    pub terminal_recorded: bool,
}

/// A fresh run: running, the item fixture's item selected, nothing recorded yet.
pub open spec fn fresh_session(s: DesktopSession, seed: u64, procedural: bool, depth: u32) -> bool {
    &&& s.seed == seed
    &&& s.procedural == procedural
    &&& s.depth == depth
    &&& s.status == DesktopStatus::Running
    &&& s.selected_item == Some(ItemId { id: EQUIP_ITEM_ID })
    &&& s.messages@.len() == 0
    &&& s.command_kinds@.len() == 0
    &&& s.event_kinds@.len() == 0
    &&& !s.terminal_recorded
}

impl DesktopSession {
    /// The session's own invariant: at most `MESSAGE_CAPACITY` recent messages, and the observed
    /// command and event kinds each listed once, in the order of strings.
    pub open spec fn well_formed(self) -> bool {
        &&& self.messages@.len() <= MESSAGE_CAPACITY
        &&& sorted_texts(text_views(self.command_kinds@))
        &&& sorted_texts(text_views(self.event_kinds@))
    }
}

/// `texts` lists each text once, in the order of strings.
pub open spec fn sorted_texts(texts: Seq<Seq<char>>) -> bool {
    forall|i: int, j: int| 0 <= i < j < texts.len() ==> text_less(#[trigger] texts[i], #[trigger] texts[j])
}

/// A list in the order of strings holds no text twice.
pub proof fn lemma_sorted_texts_distinct(texts: Seq<Seq<char>>)
    requires
        sorted_texts(texts),
    ensures
        texts.no_duplicates(),
{
    assert forall|i: int, j: int| 0 <= i < texts.len() && 0 <= j < texts.len() && i != j implies texts[i] != texts[j] by {
        if i < j {
            lemma_text_less_irreflexive(texts[i]);
        } else {
            lemma_text_less_irreflexive(texts[j]);
        }
    }
}

/// Whether `kinds` lists `kind` once and every other entry at most once.
pub open spec fn lists_kind(kinds: Seq<Seq<char>>, kind: Seq<char>) -> bool {
    kinds.contains(kind)
}

impl DesktopSession {
    /// Starts the session of the item fixture.
    pub fn new(seed: u64) -> (s: Self)
        ensures
            s.well_formed(),
            fresh_session(s, seed, false, 1),
    {
        Self::new_with_scenario(seed, false, 1)
    }

    /// Starts the session of one scenario.
    pub fn new_with_scenario(seed: u64, procedural: bool, depth: u32) -> (s: Self)
        ensures
            s.well_formed(),
            fresh_session(s, seed, procedural, depth),
    {
        DesktopSession {
            seed,
            procedural,
            depth,
            status: DesktopStatus::Running,
            selected_item: Some(ItemId { id: EQUIP_ITEM_ID }),
            messages: Vec::new(),
            command_kinds: Vec::new(),
            event_kinds: Vec::new(),
            terminal_recorded: false,
        }
    }

    /// Appends a message and drops the oldest ones beyond the capacity.
    pub fn push_message(&mut self, message: String)
        ensures
            old(self).well_formed() ==> final(self).well_formed(),
            text_views(final(self).messages@) == recent(
                text_views(old(self).messages@).push(message@),
            ),
            final(self).messages@.len() <= MESSAGE_CAPACITY,
            final(self).messages@.len() > 0,
            final(self).messages@.last()@ == message@,
            final(self).seed == old(self).seed,
            final(self).procedural == old(self).procedural,
            final(self).depth == old(self).depth,
            final(self).status == old(self).status,
            final(self).selected_item == old(self).selected_item,
            final(self).command_kinds == old(self).command_kinds,
            final(self).event_kinds == old(self).event_kinds,
            final(self).terminal_recorded == old(self).terminal_recorded,
    {
        let ghost before = text_views(self.messages@).push(message@);
        self.messages.push(message);
        proof {
            assert(text_views(self.messages@) =~= before);
        }
        while self.messages.len() > MESSAGE_CAPACITY
            invariant
                self.messages@.len() >= 1,
                self.messages@.len() <= before.len(),
                self.messages@.len() == before.len() || self.messages@.len() >= MESSAGE_CAPACITY,
                text_views(self.messages@) == before.subrange(
                    before.len() - self.messages@.len(),
                    before.len() as int,
                ),
                self.messages@.last()@ == message@,
                self.seed == old(self).seed,
                self.procedural == old(self).procedural,
                self.depth == old(self).depth,
                self.status == old(self).status,
                self.selected_item == old(self).selected_item,
                self.command_kinds == old(self).command_kinds,
                self.event_kinds == old(self).event_kinds,
                self.terminal_recorded == old(self).terminal_recorded,
            decreases self.messages@.len(),
        {
            let ghost prior = self.messages@;
            let _ = self.messages.remove(0);
            proof {
                assert(self.messages@ =~= prior.subrange(1, prior.len() as int));
                assert(text_views(self.messages@) =~= text_views(prior).subrange(1, prior.len() as int));
                assert(text_views(self.messages@) =~= before.subrange(
                    before.len() - self.messages@.len(),
                    before.len() as int,
                ));
                assert(self.messages@.last() == prior.last());
            }
        }
        proof {
            if before.len() <= MESSAGE_CAPACITY {
                assert(self.messages@.len() == before.len());
                assert(before.subrange(0, before.len() as int) =~= before);
            }
        }
    }

    /// Records a fault: the status becomes `Faulted(error)` and the HUD shows the error.
    pub fn fault(&mut self, error: String)
        ensures
            old(self).well_formed() ==> final(self).well_formed(),
            final(self).status == DesktopStatus::Faulted(error),
            final(self).messages@.len() > 0,
            final(self).messages@.last()@ == "Journal/runtime fault: "@ + error@,
            final(self).messages@.len() <= MESSAGE_CAPACITY,
            final(self).seed == old(self).seed,
            final(self).procedural == old(self).procedural,
            final(self).depth == old(self).depth,
            final(self).selected_item == old(self).selected_item,
            final(self).terminal_recorded == old(self).terminal_recorded,
    {
        let mut message = String::from_str("Journal/runtime fault: ");
        message.append(error.as_str());
        self.status = DesktopStatus::Faulted(error);
        self.push_message(message);
    }

    /// Returns to a fresh run of the same scenario, as a restart does.
    pub fn restart(&mut self)
        ensures
            old(self).well_formed() ==> final(self).well_formed(),
            fresh_session(*final(self), old(self).seed, old(self).procedural, old(self).depth),
    {
        self.status = DesktopStatus::Running;
        self.messages = Vec::new();
        self.selected_item = Some(ItemId { id: EQUIP_ITEM_ID });
        self.command_kinds = Vec::new();
        self.event_kinds = Vec::new();
        self.terminal_recorded = false;
    }

    /// Moves to the next procedural floor: running at `next_depth` with nothing selected.
    pub fn enter_floor(&mut self, next_depth: u32)
        ensures
            old(self).well_formed() ==> final(self).well_formed(),
            final(self).seed == old(self).seed,
            final(self).procedural == old(self).procedural,
            final(self).depth == next_depth,
            final(self).status == DesktopStatus::Running,
            final(self).selected_item is None,
            final(self).messages@.len() == 0,
            final(self).command_kinds@.len() == 0,
            final(self).event_kinds@.len() == 0,
            !final(self).terminal_recorded,
    {
        self.depth = next_depth;
        self.status = DesktopStatus::Running;
        self.messages = Vec::new();
        self.selected_item = None;
        self.command_kinds = Vec::new();
        self.event_kinds = Vec::new();
        self.terminal_recorded = false;
    }

    /// Records that a command or event kind was observed, keeping each kind once and the kinds
    /// in the order of strings.
    pub fn note_kind(kinds: &mut Vec<String>, kind: &str)
        ensures
            text_views(final(kinds)@).to_set() == text_views(old(kinds)@).to_set().insert(kind@),
            sorted_texts(text_views(old(kinds)@)) ==> sorted_texts(text_views(final(kinds)@)),
    {
        let ghost before = text_views(kinds@);
        let mut i: usize = 0;
        while i < kinds.len() && text_before(kinds[i].as_str(), kind)
            invariant
                kinds@ == old(kinds)@,
                before == text_views(kinds@),
                i <= kinds@.len(),
                forall|m: int| 0 <= m < i ==> text_less(#[trigger] before[m], kind@),
            decreases kinds@.len() - i,
        {
            i += 1;
        }
        if i < kinds.len() && !text_before(kind, kinds[i].as_str()) {
            proof {
                assert(before[i as int] == kinds@[i as int]@);
                if before[i as int] != kind@ {
                    lemma_text_less_total(before[i as int], kind@);
                }
                assert(before.to_set().insert(kind@) =~= before.to_set());
            }
            return;
        }
        proof {
            if i < before.len() {
                assert(before[i as int] == kinds@[i as int]@);
            }
            assert(i < before.len() ==> text_less(kind@, before[i as int]));
        }
        kinds.insert(i, String::from_str(kind));
        proof {
            let after = before.insert(i as int, kind@);
            assert(text_views(kinds@) =~= after);
            assert(after.to_set() =~= before.to_set().insert(kind@)) by {
                assert forall|x: Seq<char>| after.to_set().contains(x) implies before.to_set().insert(kind@).contains(x) by {
                    let j = choose|j: int| 0 <= j < after.len() && after[j] == x;
                    if j < i {
                        assert(before[j] == x);
                    } else if j > i {
                        assert(before[j - 1] == x);
                    }
                }
                assert forall|x: Seq<char>| before.to_set().insert(kind@).contains(x) implies after.to_set().contains(x) by {
                    if x == kind@ {
                        assert(after[i as int] == x);
                    } else {
                        let j = choose|j: int| 0 <= j < before.len() && before[j] == x;
                        if j < i {
                            assert(after[j] == x);
                        } else {
                            assert(after[j + 1] == x);
                        }
                    }
                }
            }
            if sorted_texts(before) {
                assert forall|x: int, y: int| 0 <= x < y < after.len() implies text_less(
                    #[trigger] after[x],
                    #[trigger] after[y],
                ) by {
                    if y < i {
                        assert(after[x] == before[x] && after[y] == before[y]);
                    } else if y == i {
                        assert(after[x] == before[x]);
                    } else if x < i {
                        assert(after[x] == before[x] && after[y] == before[y - 1]);
                        if y - 1 > i {
                            assert(text_less(before[i as int], before[y - 1]));
                            lemma_text_less_transitive(kind@, before[i as int], before[y - 1]);
                        }
                        lemma_text_less_transitive(before[x], kind@, before[y - 1]);
                    } else if x == i {
                        assert(after[y] == before[y - 1]);
                        if y - 1 > i {
                            assert(text_less(before[i as int], before[y - 1]));
                            lemma_text_less_transitive(kind@, before[i as int], before[y - 1]);
                        }
                    } else {
                        assert(after[x] == before[x - 1] && after[y] == before[y - 1]);
                    }
                }
            }
        }
    }
}

/// The status, HUD message and journal kind that an accepted command's outcome leads to.
pub open spec fn spec_terminal_transition(outcome: RunOutcome) -> Option<(DesktopStatus, Seq<char>, Seq<char>)> {
    match outcome {
        RunOutcome::Defeat => Some(
            (
                DesktopStatus::Defeat,
                "Showcase failed — the player is dead."@,
                "terminal_defeat"@,
            ),
        ),
        RunOutcome::Victory => Some(
            (
                DesktopStatus::Victory,
                "Showcase complete — every enemy is dead."@,
                "terminal_victory"@,
            ),
        ),
        RunOutcome::InProgress => None,
    }
}

/// A terminal transition: the new status, the HUD message and the journal record kind.
#[derive(Clone, Debug, PartialEq, Eq)]
pub struct TerminalTransition {
    pub status: DesktopStatus,
    pub message: String,
    pub record_kind: String,
}

/// Returns the terminal transition for the run outcome after an accepted command.
pub fn terminal_transition(outcome: RunOutcome) -> (r: Option<TerminalTransition>)
    ensures
        match spec_terminal_transition(outcome) {
            None => r is None,
            Some((status, message, kind)) => r matches Some(t) && t.status == status
                && t.message@ == message && t.record_kind@ == kind,
        },
{
    match outcome {
        RunOutcome::Defeat => Some(
            TerminalTransition {
                status: DesktopStatus::Defeat,
                message: String::from_str("Showcase failed — the player is dead."),
                record_kind: String::from_str("terminal_defeat"),
            },
        ),
        RunOutcome::Victory => Some(
            TerminalTransition {
                status: DesktopStatus::Victory,
                message: String::from_str("Showcase complete — every enemy is dead."),
                record_kind: String::from_str("terminal_victory"),
            },
        ),
        RunOutcome::InProgress => None,
    }
}

/// Whether the status still accepts input: running or after a win or loss.
pub open spec fn accepts_input(status: DesktopStatus) -> bool {
    status is Running || status is Victory || status is Defeat
}

/// The next procedural depth when a floor advance is allowed: only from a procedural victory,
/// and `None` inside the `Some` when the depth cannot grow.
pub open spec fn spec_next_floor(procedural: bool, status: DesktopStatus, depth: u32) -> Option<Option<u32>> {
    if !procedural || !(status is Victory) {
        None
    } else if depth == u32::MAX {
        Some(None)
    } else {
        Some(Some((depth + 1) as u32))
    }
}

/// Decides a procedural floor advance: `None` when not allowed, `Some(None)` on depth
/// overflow, `Some(Some(next))` otherwise.
pub fn next_floor(procedural: bool, status: &DesktopStatus, depth: u32) -> (r: Option<Option<u32>>)
    ensures
        r == spec_next_floor(procedural, *status, depth),
{
    let victory = match status {
        DesktopStatus::Victory => true,
        _ => false,
    };
    if !procedural || !victory {
        return None;
    }
    match depth.checked_add(1) {
        Some(next) => Some(Some(next)),
        None => Some(None),
    }
}

/// The status after the window starts closing: a running or lost run shuts down; any other
/// status is kept.
pub fn status_after_close(status: DesktopStatus) -> (r: DesktopStatus)
    ensures
        (status is Running || status is Defeat) ==> (r matches DesktopStatus::Shutdown(reason)
            && reason@ == "window_close"@),
        !(status is Running || status is Defeat) ==> r == status,
{
    match status {
        DesktopStatus::Running | DesktopStatus::Defeat => DesktopStatus::Shutdown(
            String::from_str("window_close"),
        ),
        other => other,
    }
}

/// The status after Escape: a session that still takes input (running, won or lost) shuts down
/// for "escape"; any other status is kept.
pub fn status_after_escape(status: DesktopStatus) -> (r: DesktopStatus)
    ensures
        (status is Running || status is Victory || status is Defeat) ==> (r matches DesktopStatus::Shutdown(
            reason,
        ) && reason@ == "escape"@),
        !(status is Running || status is Victory || status is Defeat) ==> r == status,
{
    match status {
        DesktopStatus::Running | DesktopStatus::Victory | DesktopStatus::Defeat => DesktopStatus::Shutdown(
            String::from_str("escape"),
        ),
        other => other,
    }
}

/// Whether a command may be submitted: only while the run is going on.
pub fn accepts_commands(status: &DesktopStatus) -> (r: bool)
    ensures
        r == (*status is Running),
{
    match status {
        DesktopStatus::Running => true,
        _ => false,
    }
}

/// Rust's `Debug` text of a string: the string quoted, with its special characters escaped.
pub uninterp spec fn debug_quoted(s: Seq<char>) -> Seq<char>;

/// Formats `s` with std's `Debug` implementation for `str` (`format!("{:?}", s)`). Its result
/// depends on `s` alone and is given the name `debug_quoted`; which characters std escapes, and
/// how, is left unsaid here.
#[verifier::external_body]
fn debug_quoted_text(s: &str) -> (r: String)
    ensures
        r@ == debug_quoted(s@),
{
    format!("{:?}", s)
}

/// The status as the HUD writes it, `quoted` being the `Debug` text of a fault's or a
/// shutdown's reason: `Running`, `Victory`, `Defeat`, `Faulted(..)` or `Shutdown(..)`.
pub open spec fn status_label_with(status: DesktopStatus, quoted: Seq<char>) -> Seq<char> {
    match status {
        DesktopStatus::Running => "Running"@,
        DesktopStatus::Victory => "Victory"@,
        DesktopStatus::Defeat => "Defeat"@,
        DesktopStatus::Faulted(_) => "Faulted("@ + quoted + ")"@,
        DesktopStatus::Shutdown(_) => "Shutdown("@ + quoted + ")"@,
    }
}

/// The `Debug` text of a status.
pub open spec fn spec_status_label(status: DesktopStatus) -> Seq<char> {
    match status {
        DesktopStatus::Faulted(e) => status_label_with(status, debug_quoted(e@)),
        DesktopStatus::Shutdown(reason) => status_label_with(status, debug_quoted(reason@)),
        _ => status_label_with(status, Seq::empty()),
    }
}

/// Writes a status around the already quoted text of its reason.
pub fn status_label_from(status: &DesktopStatus, quoted: &str) -> (r: String)
    ensures
        r@ == status_label_with(*status, quoted@),
{
    match status {
        DesktopStatus::Running => String::from_str("Running"),
        DesktopStatus::Victory => String::from_str("Victory"),
        DesktopStatus::Defeat => String::from_str("Defeat"),
        DesktopStatus::Faulted(_) => {
            let mut out = String::from_str("Faulted(");
            out.append(quoted);
            out.append(")");
            out
        },
        DesktopStatus::Shutdown(_) => {
            let mut out = String::from_str("Shutdown(");
            out.append(quoted);
            out.append(")");
            out
        },
    }
}

/// Returns the status as the HUD's status line writes it, the `Debug` text of the status.
pub fn status_label(status: &DesktopStatus) -> (r: String)
    ensures
        r@ == spec_status_label(*status),
{
    match status {
        DesktopStatus::Faulted(e) => {
            let quoted = debug_quoted_text(e.as_str());
            status_label_from(status, quoted.as_str())
        },
        DesktopStatus::Shutdown(reason) => {
            let quoted = debug_quoted_text(reason.as_str());
            status_label_from(status, quoted.as_str())
        },
        _ => status_label_from(status, ""),
    }
}

/// The reason recorded at shutdown: a fault (or a failed replay export) wins, then the
/// shutdown's own reason, then the run outcome.
pub open spec fn spec_shutdown_reason(status: DesktopStatus, export_failed: bool) -> Seq<char> {
    if export_failed || status is Faulted {
        "runtime_fault"@
    } else {
        match status {
            DesktopStatus::Shutdown(reason) => reason@,
            DesktopStatus::Victory => "showcase_complete"@,
            DesktopStatus::Defeat => "showcase_defeat"@,
            DesktopStatus::Running => "window_closed_or_ctrl_c"@,
            DesktopStatus::Faulted(_) => "runtime_fault"@,
        }
    }
}

/// Returns the reason recorded in the shutdown journal entry.
pub fn shutdown_reason(status: &DesktopStatus, export_failed: bool) -> (r: String)
    ensures
        r@ == spec_shutdown_reason(*status, export_failed),
{
    if export_failed {
        return String::from_str("runtime_fault");
    }
    match status {
        DesktopStatus::Faulted(_) => String::from_str("runtime_fault"),
        DesktopStatus::Shutdown(reason) => reason.clone(),
        DesktopStatus::Victory => String::from_str("showcase_complete"),
        DesktopStatus::Defeat => String::from_str("showcase_defeat"),
        DesktopStatus::Running => String::from_str("window_closed_or_ctrl_c"),
    }
}

/// The item selected after cycling through the inventory `items`: forward or backward from
/// the current selection, or the first item when the selection is not in the inventory.
pub open spec fn spec_cycle_selection(items: Seq<ItemId>, selected: Option<ItemId>, reverse: bool) -> Option<ItemId> {
    if items.len() == 0 {
        None
    } else {
        let current = match selected {
            Some(item) => items.index_of_first(item),
            None => None,
        };
        match current {
            Some(index) => if reverse {
                Some(items[(index + items.len() - 1) % (items.len() as int)])
            } else {
                Some(items[(index + 1) % (items.len() as int)])
            },
            None => Some(items[0]),
        }
    }
}

/// Returns the selection after one Tab (or Shift+Tab when `reverse`) in the inventory.
pub fn cycle_selection(items: &[ItemId], selected: Option<ItemId>, reverse: bool) -> (r: Option<ItemId>)
    ensures
        r == spec_cycle_selection(items@, selected, reverse),
{
    let n = items.len();
    if n == 0 {
        return None;
    }
    let current = match selected {
        Some(item) => {
            let mut found: Option<usize> = None;
            let mut k: usize = 0;
            while k < n
                invariant
                    n == items@.len(),
                    k <= n,
                    found is None ==> forall|m: int| 0 <= m < k ==> #[trigger] items@[m] != item,
                    found matches Some(f) ==> f < n && items@[f as int] == item && forall|m: int|
                        0 <= m < f ==> #[trigger] items@[m] != item,
                decreases n - k,
            {
                if found.is_none() && items[k] == item {
                    found = Some(k);
                }
                k += 1;
            }
            proof {
                items@.index_of_first_ensures(item);
                if let Some(f) = found {
                    assert(items@.contains(item));
                    let first = items@.index_of_first(item)->0;
                    if first < f {
                        assert(items@[first] != item);
                    }
                    if f < first {
                        assert(items@[f as int] != item);
                    }
                } else {
                    if items@.contains(item) {
                        let m = choose|m: int| 0 <= m < items@.len() && items@[m] == item;
                        assert(items@[m] != item);
                    }
                }
            }
            found
        },
        None => None,
    };
    let index = match current {
        Some(i) => {
            proof {
                vstd::arithmetic::div_mod::lemma_fundamental_div_mod_converse(
                    i + n - 1,
                    n as int,
                    if i == 0 { 0 } else { 1 },
                    if i == 0 { n - 1 } else { i - 1 },
                );
                vstd::arithmetic::div_mod::lemma_fundamental_div_mod_converse(
                    i + 1,
                    n as int,
                    if i + 1 == n { 1 } else { 0 },
                    if i + 1 == n { 0 } else { i + 1 },
                );
            }
            if reverse {
                if i == 0 {
                    n - 1
                } else {
                    i - 1
                }
            } else if i + 1 == n {
                0
            } else {
                i + 1
            }
        },
        None => 0,
    };
    Some(items[index])
}

/// With no item held twice, Tab then Shift+Tab returns to the selected item, and Tab always
/// selects an item of the inventory.
pub proof fn lemma_cycle_selection_round_trip(items: Seq<ItemId>, selected: ItemId)
    requires
        items.no_duplicates(),
        items.contains(selected),
    ensures
        spec_cycle_selection(items, Some(selected), false) matches Some(next) && items.contains(next),
        spec_cycle_selection(items, spec_cycle_selection(items, Some(selected), false), true) == Some(
            selected,
        ),
{
    let n = items.len() as int;
    items.index_of_first_ensures(selected);
    let i = items.index_of_first(selected)->0;
    let j = if i + 1 == n { 0 } else { i + 1 };
    vstd::arithmetic::div_mod::lemma_fundamental_div_mod_converse(
        i + 1,
        n,
        if i + 1 == n { 1 } else { 0 },
        j,
    );
    let next = items[j];
    assert(items.contains(next));
    items.index_of_first_ensures(next);
    let k = items.index_of_first(next)->0;
    assert(k == j) by {
        if k != j {
            assert(items[k] == items[j]);
        }
    }
    vstd::arithmetic::div_mod::lemma_fundamental_div_mod_converse(
        j + n - 1,
        n,
        if j == 0 { 0 } else { 1 },
        i,
    );
}

/// Keeping the recent part of a history and then adding a message keeps the same recent part
/// as adding the message to the whole history.
pub proof fn lemma_recent_push(history: Seq<Seq<char>>, message: Seq<char>)
    ensures
        recent(recent(history).push(message)) == recent(history.push(message)),
{
    if history.len() > MESSAGE_CAPACITY {
        let kept = recent(history);
        assert(kept.push(message).len() == MESSAGE_CAPACITY + 1);
        assert(recent(kept.push(message)) =~= recent(history.push(message)));
    }
}

/// The HUD messages of a sequence of events, in event order.
pub open spec fn event_messages(events: Seq<Event>) -> Seq<Seq<char>> {
    Seq::new(events.len(), |i: int| spec_event_message(events[i]))
}

/// The kind names of a sequence of events.
pub open spec fn event_names(events: Seq<Event>) -> Set<Seq<char>> {
    Set::new(|name: Seq<char>| exists|i: int| 0 <= i < events.len() && name == spec_event_name(#[trigger] events[i]))
}

/// The messages shown after `added` follow `history`: unchanged when nothing is added, else the
/// recent part of the whole.
pub open spec fn shown_after(history: Seq<Seq<char>>, added: Seq<Seq<char>>) -> Seq<Seq<char>> {
    if added.len() == 0 {
        history
    } else {
        recent(history + added)
    }
}

/// The messages an accepted command leaves: each event's message, then the terminal message
/// when the run ended.
pub open spec fn accepted_messages(events: Seq<Event>, outcome: RunOutcome) -> Seq<Seq<char>> {
    match spec_terminal_transition(outcome) {
        Some((_, message, _)) => event_messages(events).push(message),
        None => event_messages(events),
    }
}

impl DesktopSession {
    /// Records that a command was requested: its kind joins the observed command kinds.
    pub fn note_command(&mut self, command: Command)
        ensures
            old(self).well_formed() ==> final(self).well_formed(),
            text_views(final(self).command_kinds@).to_set() == text_views(
                old(self).command_kinds@,
            ).to_set().insert(spec_command_name(command)),
            final(self).messages == old(self).messages,
            final(self).status == old(self).status,
            final(self).event_kinds == old(self).event_kinds,
    {
        Self::note_kind(&mut self.command_kinds, command_name(command));
    }

    /// Applies the events of an accepted command and the run outcome after it: each event's
    /// kind is observed and its message shown, and a win or loss ends the run with its message.
    /// Returns the journal kind of the terminal record, when the run ended.
    pub fn accept(&mut self, events: &[Event], outcome: RunOutcome) -> (r: Option<String>)
        ensures
            old(self).well_formed() ==> final(self).well_formed(),
            text_views(final(self).messages@) == shown_after(
                text_views(old(self).messages@),
                accepted_messages(events@, outcome),
            ),
            text_views(final(self).event_kinds@).to_set() == text_views(
                old(self).event_kinds@,
            ).to_set().union(event_names(events@)),
            match spec_terminal_transition(outcome) {
                Some((status, _, kind)) => final(self).status == status && (r matches Some(k)
                    && k@ == kind),
                None => final(self).status == old(self).status && r is None,
            },
            final(self).seed == old(self).seed,
            final(self).procedural == old(self).procedural,
            final(self).depth == old(self).depth,
            final(self).selected_item == old(self).selected_item,
            final(self).command_kinds == old(self).command_kinds,
            final(self).terminal_recorded == old(self).terminal_recorded,
    {
        let ghost start = text_views(self.messages@);
        let ghost start_kinds = text_views(self.event_kinds@).to_set();
        let mut i: usize = 0;
        while i < events.len()
            invariant
                i <= events@.len(),
                text_views(self.messages@) == shown_after(start, event_messages(events@).subrange(0, i as int)),
                text_views(self.event_kinds@).to_set() == start_kinds.union(
                    event_names(events@.subrange(0, i as int)),
                ),
                old(self).well_formed() ==> self.well_formed(),
                self.seed == old(self).seed,
                self.procedural == old(self).procedural,
                self.depth == old(self).depth,
                self.status == old(self).status,
                self.selected_item == old(self).selected_item,
                self.command_kinds == old(self).command_kinds,
                self.terminal_recorded == old(self).terminal_recorded,
            decreases events@.len() - i,
        {
            let event = events[i];
            let ghost before = start + event_messages(events@).subrange(0, i as int);
            Self::note_kind(&mut self.event_kinds, showcase_event_name(event));
            self.push_message(event_message(event));
            proof {
                if i > 0 {
                    lemma_recent_push(before, spec_event_message(event));
                } else {
                    assert(before =~= start);
                }
                assert(before.push(spec_event_message(event)) =~= start + event_messages(
                    events@,
                ).subrange(0, i + 1));
                assert(event_names(events@.subrange(0, i + 1)) =~= event_names(
                    events@.subrange(0, i as int),
                ).insert(spec_event_name(event))) by {
                    let next = events@.subrange(0, i + 1);
                    assert(next[i as int] == event);
                    assert forall|name: Seq<char>| event_names(next).contains(name) implies event_names(
                        events@.subrange(0, i as int),
                    ).insert(spec_event_name(event)).contains(name) by {
                        let j = choose|j: int| 0 <= j < next.len() && name == spec_event_name(#[trigger] next[j]);
                        if j < i {
                            assert(events@.subrange(0, i as int)[j] == next[j]);
                        }
                    }
                    assert forall|name: Seq<char>| event_names(events@.subrange(0, i as int)).insert(
                        spec_event_name(event),
                    ).contains(name) implies event_names(next).contains(name) by {
                        if name != spec_event_name(event) {
                            let j = choose|j: int|
                                0 <= j < i && name == spec_event_name(
                                    #[trigger] events@.subrange(0, i as int)[j],
                                );
                            assert(next[j] == events@.subrange(0, i as int)[j]);
                        }
                    }
                }
                assert(text_views(self.event_kinds@).to_set() =~= start_kinds.union(
                    event_names(events@.subrange(0, i + 1)),
                ));
            }
            i += 1;
        }
        proof {
            assert(events@.subrange(0, events@.len() as int) =~= events@);
            assert(event_messages(events@).subrange(0, events@.len() as int) =~= event_messages(events@));
        }
        match terminal_transition(outcome) {
            Some(t) => {
                let ghost before = start + event_messages(events@);
                self.status = t.status;
                self.push_message(t.message);
                proof {
                    if events@.len() > 0 {
                        lemma_recent_push(before, t.message@);
                    } else {
                        assert(before =~= start);
                    }
                    assert(before.push(t.message@) =~= start + accepted_messages(events@, outcome));
                }
                Some(t.record_kind)
            },
            None => {
                proof {
                    assert(event_messages(events@) =~= accepted_messages(events@, outcome));
                }
                None
            },
        }
    }

    /// Shows why a command was rejected.
    pub fn reject(&mut self, error: &str)
        ensures
            old(self).well_formed() ==> final(self).well_formed(),
            text_views(final(self).messages@) == recent(
                text_views(old(self).messages@).push("Rejected: "@ + error@),
            ),
            final(self).status == old(self).status,
            final(self).event_kinds == old(self).event_kinds,
            final(self).command_kinds == old(self).command_kinds,
    {
        let mut message = String::from_str("Rejected: ");
        message.append(error);
        self.push_message(message);
    }
}

} // verus!
