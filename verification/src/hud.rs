//! HUD text: the health bar, field-of-view summary, scenario label, terminal hint and controls.

use vstd::prelude::*;

use crate::session::DesktopStatus;
use crate::text::{decimal, push_decimal};

verus! {

/// The hit points that fill the showcase health bar.
pub const SHOWCASE_MAX_HIT_POINTS: i32 = 10;

/// The number of cells in the health bar.
pub const HEALTH_BAR_WIDTH: usize = 10;

/// `n` copies of `c`.
pub open spec fn repeat(c: char, n: nat) -> Seq<char> {
    Seq::new(n, |_i: int| c)
}

/// Hit points clamped to `0..=SHOWCASE_MAX_HIT_POINTS`.
pub open spec fn clamped_hit_points(hit_points: int) -> int {
    if hit_points < 0 {
        0
    } else if hit_points > SHOWCASE_MAX_HIT_POINTS {
        SHOWCASE_MAX_HIT_POINTS as int
    } else {
        hit_points
    }
}

/// The filled cells of the bar: clamped hit points scaled to the bar width, rounded half up.
pub open spec fn filled_cells(hit_points: int) -> int {
    (clamped_hit_points(hit_points) * HEALTH_BAR_WIDTH + SHOWCASE_MAX_HIT_POINTS / 2)
        / SHOWCASE_MAX_HIT_POINTS as int
}

/// The fixed-width bar: `[`, the filled cells as `#`, the rest as `-`, `]`.
pub open spec fn spec_health_bar(hit_points: int) -> Seq<char> {
    let filled = filled_cells(hit_points);
    seq!['['] + repeat('#', filled as nat) + repeat('-', (HEALTH_BAR_WIDTH - filled) as nat) + seq![']']
}

fn push_repeated(out: &mut String, c: char, n: usize)
    ensures
        final(out)@ == old(out)@ + repeat(c, n as nat),
{
    let mut k: usize = 0;
    while k < n
        invariant
            k <= n,
            out@ == old(out)@ + repeat(c, k as nat),
        decreases n - k,
    {
        out.push(c);
        k += 1;
        assert(out@ =~= old(out)@ + repeat(c, k as nat));
    }
}

/// Renders the fixed-width, clamped health bar.
pub fn health_bar_text(hit_points: i32) -> (r: String)
    ensures
        r@ == spec_health_bar(hit_points as int),
        r@.len() == HEALTH_BAR_WIDTH + 2,
{
    let clamped: usize = if hit_points < 0 {
        0
    } else if hit_points > SHOWCASE_MAX_HIT_POINTS {
        SHOWCASE_MAX_HIT_POINTS as usize
    } else {
        hit_points as usize
    };
    let maximum = SHOWCASE_MAX_HIT_POINTS as usize;
    let filled = ((clamped * HEALTH_BAR_WIDTH) + (maximum / 2)) / maximum;
    assert(filled <= HEALTH_BAR_WIDTH) by (nonlinear_arith)
        requires
            filled == ((clamped * 10) + 5) / 10,
            clamped <= 10,
    ;
    let mut out = String::new();
    out.push('[');
    push_repeated(&mut out, '#', filled);
    push_repeated(&mut out, '-', HEALTH_BAR_WIDTH - filled);
    out.push(']');
    proof {
        assert(out@ =~= spec_health_bar(hit_points as int));
    }
    out
}

/// The field-of-view summary: the number of visible tiles and radius while active, else the
/// full map.
pub open spec fn spec_visibility_summary(active: bool, radius: u32, visible_tiles: usize) -> Seq<char> {
    if active {
        "FOV "@ + decimal(visible_tiles as nat) + " tiles (radius "@ + decimal(radius as nat) + ")"@
    } else {
        "FOV full map"@
    }
}

/// Renders the field-of-view summary line.
pub fn visibility_summary_values(active: bool, radius: u32, visible_tiles: usize) -> (r: String)
    ensures
        r@ == spec_visibility_summary(active, radius, visible_tiles),
{
    if active {
        let mut out = String::from_str("FOV ");
        push_decimal(&mut out, visible_tiles as u64);
        out.append(" tiles (radius ");
        push_decimal(&mut out, radius as u64);
        out.append(")");
        out
    } else {
        String::from_str("FOV full map")
    }
}

/// The scenario label: the procedural depth, or the starter item floor.
pub open spec fn spec_scenario_label(procedural: bool, depth: u32) -> Seq<char> {
    if procedural {
        "Procedural floor · depth "@ + decimal(depth as nat)
    } else {
        "Starter item floor"@
    }
}

/// Renders the scenario label.
pub fn scenario_label(procedural: bool, depth: u32) -> (r: String)
    ensures
        r@ == spec_scenario_label(procedural, depth),
{
    if procedural {
        let mut out = String::from_str("Procedural floor · depth ");
        push_decimal(&mut out, depth as u64);
        out
    } else {
        String::from_str("Starter item floor")
    }
}

/// The terminal hint: how to continue after a win or loss, and nothing while the run goes on.
pub open spec fn spec_terminal_hud_message(status: DesktopStatus, procedural: bool, depth: u32) -> Seq<char> {
    match status {
        DesktopStatus::Victory => if procedural {
            if depth < u32::MAX {
                "Floor cleared — press N for depth "@ + decimal((depth + 1) as nat)
                    + ", or Shift+R to restart"@
            } else {
                "Floor cleared — next depth unavailable; press Shift+R to restart"@
            }
        } else {
            "Showcase complete — press Shift+R to restart"@
        },
        DesktopStatus::Defeat => "Showcase failed — press Shift+R to restart"@,
        _ => Seq::empty(),
    }
}

/// Renders the terminal hint for the HUD.
pub fn terminal_hud_message(status: &DesktopStatus, procedural: bool, depth: u32) -> (r: String)
    ensures
        r@ == spec_terminal_hud_message(*status, procedural, depth),
{
    match status {
        DesktopStatus::Victory => {
            if procedural {
                match depth.checked_add(1) {
                    Some(next_depth) => {
                        let mut out = String::from_str("Floor cleared — press N for depth ");
                        push_decimal(&mut out, next_depth as u64);
                        out.append(", or Shift+R to restart");
                        out
                    },
                    None => String::from_str(
                        "Floor cleared — next depth unavailable; press Shift+R to restart",
                    ),
                }
            } else {
                String::from_str("Showcase complete — press Shift+R to restart")
            }
        },
        DesktopStatus::Defeat => String::from_str("Showcase failed — press Shift+R to restart"),
        _ => String::new(),
    }
}

/// The control help for procedural runs, which can advance to the next floor.
pub open spec fn procedural_controls() -> Seq<char> {
    "Arrows/WASD move  Space/Enter wait\nF attack  G ranged  Tab select  E equip  P pickup  X drop\nQ unequip  U consume  R reload  Shift+R restart  N next procedural floor after victory\nEsc/close quit"@
}

/// The control help for the item fixture.
pub open spec fn fixture_controls() -> Seq<char> {
    "Arrows/WASD move  Space/Enter wait\nF attack  G ranged  Tab select  E equip  P pickup  X drop\nQ unequip  U consume  R reload  Shift+R restart\nEsc/close quit"@
}

/// Returns the control help; only procedural runs advertise the next floor.
pub fn controls_text(procedural: bool) -> (r: &'static str)
    ensures
        r@ == if procedural { procedural_controls() } else { fixture_controls() },
{
    if procedural {
        "Arrows/WASD move  Space/Enter wait\nF attack  G ranged  Tab select  E equip  P pickup  X drop\nQ unequip  U consume  R reload  Shift+R restart  N next procedural floor after victory\nEsc/close quit"
    } else {
        "Arrows/WASD move  Space/Enter wait\nF attack  G ranged  Tab select  E equip  P pickup  X drop\nQ unequip  U consume  R reload  Shift+R restart\nEsc/close quit"
    }
}

} // verus!
