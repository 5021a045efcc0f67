use epaper_watch::buttons::{ButtonEvent, ButtonId, SharedButtons};
use epaper_watch::menu::{DebugView, MenuMain, OneOfMenu, TimeSet, TimeShift};

fn is_main(m: &OneOfMenu) -> bool {
    matches!(m, OneOfMenu::MenuMain(_))
}

fn is_time_set(m: &OneOfMenu) -> bool {
    matches!(m, OneOfMenu::TimeSet(_))
}

#[test]
fn button1_opens_time_set() {
    let b = SharedButtons::new();
    let step = MenuMain.update((ButtonId::Button1, ButtonEvent::Pressed), &b);
    assert!(is_time_set(&step.next));
    assert_eq!(step.time_shift, None);
}

#[test]
fn main_menu_ignores_other_changes() {
    let b = SharedButtons::new();
    for change in [
        (ButtonId::Button1, ButtonEvent::Released),
        (ButtonId::Button2, ButtonEvent::Pressed),
        (ButtonId::Button3, ButtonEvent::Pressed),
        (ButtonId::Button4, ButtonEvent::Pressed),
    ] {
        let step = MenuMain.update(change, &b);
        assert!(is_main(&step.next));
        assert_eq!(step.time_shift, None);
    }
}

#[test]
fn time_set_button1_saves_and_returns() {
    let b = SharedButtons::new();
    let step = TimeSet.update((ButtonId::Button1, ButtonEvent::Pressed), &b);
    assert!(is_main(&step.next));
    assert_eq!(step.time_shift, None);
}

#[test]
fn time_set_adjusts_forward() {
    let b = SharedButtons::new();
    let step = TimeSet.update((ButtonId::Button2, ButtonEvent::Pressed), &b);
    assert!(is_time_set(&step.next));
    assert_eq!(step.time_shift, Some(TimeShift { secs: 3600, forward: true }));
    let step = TimeSet.update((ButtonId::Button3, ButtonEvent::Pressed), &b);
    assert_eq!(step.time_shift, Some(TimeShift { secs: 60, forward: true }));
}

#[test]
fn time_set_adjusts_backward_while_button4_held() {
    let mut b = SharedButtons::new();
    b.button4.pressed = true;
    let step = OneOfMenu::TimeSet(TimeSet).update((ButtonId::Button2, ButtonEvent::Pressed), &b);
    assert!(is_time_set(&step.next));
    assert_eq!(step.time_shift, Some(TimeShift { secs: 3600, forward: false }));
    let step = OneOfMenu::TimeSet(TimeSet).update((ButtonId::Button3, ButtonEvent::Pressed), &b);
    assert_eq!(step.time_shift, Some(TimeShift { secs: 60, forward: false }));
}

#[test]
fn time_set_ignores_releases_and_button4() {
    let b = SharedButtons::new();
    for change in [
        (ButtonId::Button1, ButtonEvent::Released),
        (ButtonId::Button2, ButtonEvent::Released),
        (ButtonId::Button3, ButtonEvent::Released),
        (ButtonId::Button4, ButtonEvent::Pressed),
    ] {
        let step = TimeSet.update(change, &b);
        assert!(is_time_set(&step.next));
        assert_eq!(step.time_shift, None);
    }
}

#[test]
fn button1_twice_returns_to_main() {
    let b = SharedButtons::new();
    let press = (ButtonId::Button1, ButtonEvent::Pressed);
    let first = OneOfMenu::MenuMain(MenuMain).update(press, &b).next;
    assert!(is_time_set(&first));
    let second = first.update(press, &b).next;
    assert!(is_main(&second));
}

#[test]
fn debug_view_ignores_everything() {
    let mut message: heapless::String<100> = heapless::String::new();
    message.push_str("hello").unwrap();
    let view = DebugView::new(message);
    assert_eq!(view.message_text().as_str(), "hello");
    let b = SharedButtons::new();
    let step = OneOfMenu::DebugView(view).update((ButtonId::Button1, ButtonEvent::Pressed), &b);
    assert_eq!(step.time_shift, None);
    match step.next {
        OneOfMenu::DebugView(v) => assert_eq!(v.message_text().as_str(), "hello"),
        _ => panic!("the debug view must stay on screen"),
    }
}

#[test]
fn shift_applies_and_saturates() {
    let hour_fwd = TimeShift { secs: 3600, forward: true };
    let hour_back = TimeShift { secs: 3600, forward: false };
    assert_eq!(hour_fwd.apply(5), 3_600_000_005);
    assert_eq!(hour_back.apply(3_600_000_005), 5);
    assert_eq!(hour_back.apply(1_000), 0);
    assert_eq!(hour_fwd.apply(u64::MAX - 10), u64::MAX);
    let minute_back = TimeShift { secs: 60, forward: false };
    assert_eq!(minute_back.apply(61_000_000), 1_000_000);
}

#[test]
fn shift_round_trip_without_saturation() {
    let fwd = TimeShift { secs: 60, forward: true };
    let back = TimeShift { secs: 60, forward: false };
    for t in [0u64, 1, 59_999_999, 60_000_000, 123_456_789_000] {
        assert_eq!(back.apply(fwd.apply(t)), t);
        if t >= 60_000_000 {
            assert_eq!(fwd.apply(back.apply(t)), t);
        }
    }
}

#[test]
fn menu_run_from_main_only_switches_on_button1_press() {
    let b = SharedButtons::new();
    let changes = [
        (ButtonId::Button2, ButtonEvent::Pressed),
        (ButtonId::Button1, ButtonEvent::Pressed),
        (ButtonId::Button1, ButtonEvent::Released),
        (ButtonId::Button3, ButtonEvent::Pressed),
        (ButtonId::Button1, ButtonEvent::Pressed),
        (ButtonId::Button4, ButtonEvent::Pressed),
        (ButtonId::Button1, ButtonEvent::Pressed),
    ];
    let mut menu = OneOfMenu::MenuMain(MenuMain);
    for change in changes {
        let next = menu.clone().update(change, &b).next;
        assert!(next == OneOfMenu::MenuMain(MenuMain) || next == OneOfMenu::TimeSet(TimeSet));
        assert_eq!(next != menu, change == (ButtonId::Button1, ButtonEvent::Pressed));
        menu = next;
    }
    assert_eq!(menu, OneOfMenu::TimeSet(TimeSet));
}
