use epaper_watch::buttons::{ButtonEvent, ButtonId};
use epaper_watch::status::{
    ButtonLevels, DisplayState, LoopAction, LoopEvent, INACTIVITY_TIMEOUT_SECS,
    PRESS_TIME_STEP_SECS, SLEEP_WAKEUP_SECS,
};

fn levels(a: bool, b: bool, c: bool, d: bool) -> ButtonLevels {
    ButtonLevels { button1: a, button2: b, button3: c, button4: d }
}

#[test]
fn timings() {
    assert_eq!(INACTIVITY_TIMEOUT_SECS, 60);
    assert_eq!(SLEEP_WAKEUP_SECS, 10);
    assert_eq!(PRESS_TIME_STEP_SECS, 60);
}

#[test]
fn new_state_is_empty() {
    let s = DisplayState::new();
    assert_eq!(s.time_since_boot_micros, 0);
    assert_eq!(s.debug_status.as_str(), "");
}

#[test]
fn inactivity_means_deep_sleep() {
    let mut s = DisplayState::new();
    s.show_levels(levels(true, false, false, true));
    let action = s.handle_event(LoopEvent::Inactive, levels(false, false, false, false));
    assert_eq!(action, LoopAction::DeepSleep);
    assert_eq!(s.time_since_boot_micros, 0);
    assert_eq!(s.debug_status.as_str(), "true\nfalse\nfalse\ntrue");
}

#[test]
fn press_adds_a_minute_and_shows_levels() {
    let mut s = DisplayState::new();
    let action = s.handle_event(
        LoopEvent::Button(ButtonId::Button3, ButtonEvent::Pressed),
        levels(false, false, true, false),
    );
    assert_eq!(action, LoopAction::Redraw);
    assert_eq!(s.time_since_boot_micros, 60_000_000);
    assert_eq!(s.debug_status.as_str(), "false\nfalse\ntrue\nfalse");
}

#[test]
fn release_keeps_time_and_updates_levels() {
    let mut s = DisplayState::new();
    s.time_since_boot_micros = 120_000_000;
    let action = s.handle_event(
        LoopEvent::Button(ButtonId::Button1, ButtonEvent::Released),
        levels(true, true, true, true),
    );
    assert_eq!(action, LoopAction::Redraw);
    assert_eq!(s.time_since_boot_micros, 120_000_000);
    assert_eq!(s.debug_status.as_str(), "true\ntrue\ntrue\ntrue");
    assert_eq!(s.debug_status.len(), 19);
}

#[test]
fn longest_status_text_fits() {
    let mut s = DisplayState::new();
    s.show_levels(levels(false, false, false, false));
    assert_eq!(s.debug_status.as_str(), "false\nfalse\nfalse\nfalse");
    assert_eq!(s.debug_status.len(), 23);
}
