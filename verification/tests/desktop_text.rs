use dreadstep_bevy::hud::{
    controls_text, health_bar_text, scenario_label, terminal_hud_message,
    visibility_summary_values,
};
use dreadstep_bevy::session::DesktopStatus;

fn health_bar_cases() {
    assert_eq!(health_bar_text(-3), "[----------]");
    assert_eq!(health_bar_text(5), "[#####-----]");
    assert_eq!(health_bar_text(99), "[##########]");
}

#[test]
fn desktop_health_bar_is_fixed_width_and_clamped() {
    health_bar_cases();
}

#[test]
fn tests_health_bar_is_fixed_width_and_clamped() {
    health_bar_cases();
}

fn visibility_cases() {
    assert_eq!(visibility_summary_values(false, 0, 0), "FOV full map");
    assert_eq!(
        visibility_summary_values(true, 3, 2),
        "FOV 2 tiles (radius 3)"
    );
}

#[test]
fn desktop_visibility_summary_distinguishes_active_and_full_map() {
    visibility_cases();
}

#[test]
fn tests_visibility_summary_distinguishes_active_and_full_map() {
    visibility_cases();
}

#[test]
fn hud_scenario_label_distinguishes_procedural_depth_and_item_fixture() {
    assert_eq!(scenario_label(true, 4), "Procedural floor · depth 4");
    assert_eq!(scenario_label(false, 1), "Starter item floor");
}

#[test]
fn terminal_hud_message_matches_outcome_and_avoids_depth_overflow() {
    assert_eq!(
        terminal_hud_message(&DesktopStatus::Victory, true, 4),
        "Floor cleared — press N for depth 5, or Shift+R to restart"
    );
    assert_eq!(
        terminal_hud_message(&DesktopStatus::Victory, false, 4),
        "Showcase complete — press Shift+R to restart"
    );
    assert_eq!(
        terminal_hud_message(&DesktopStatus::Defeat, true, 4),
        "Showcase failed — press Shift+R to restart"
    );
    assert!(terminal_hud_message(&DesktopStatus::Running, true, 4).is_empty());
    assert_eq!(
        terminal_hud_message(&DesktopStatus::Victory, true, u32::MAX),
        "Floor cleared — next depth unavailable; press Shift+R to restart"
    );
}

#[test]
fn controls_only_advertise_next_floor_for_procedural_runs() {
    assert!(controls_text(true).contains("N next procedural floor"));
    assert!(!controls_text(false).contains("next procedural floor"));
}

#[test]
fn health_bar_rounds_each_hit_point_to_one_cell() {
    assert_eq!(health_bar_text(0), "[----------]");
    assert_eq!(health_bar_text(1), "[#---------]");
    assert_eq!(health_bar_text(10), "[##########]");
    assert_eq!(health_bar_text(i32::MIN), "[----------]");
    assert_eq!(health_bar_text(i32::MAX), "[##########]");
}

#[test]
fn visibility_summary_renders_large_counts() {
    assert_eq!(
        visibility_summary_values(true, 4_294_967_295, 1000),
        "FOV 1000 tiles (radius 4294967295)"
    );
}

#[test]
fn terminal_message_is_empty_for_faults_and_shutdowns() {
    assert!(terminal_hud_message(&DesktopStatus::Faulted("x".to_string()), true, 1).is_empty());
    assert!(terminal_hud_message(&DesktopStatus::Shutdown("escape".to_string()), false, 1).is_empty());
}
