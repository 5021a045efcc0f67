use epaper_watch::buttons::{
    ButtonEvent, ButtonId, ButtonSlot, ButtonState, Buttons, PinReading, SharedButtons,
};

fn reading(interrupt_set: bool, input_low: bool) -> PinReading {
    PinReading { interrupt_set, input_low }
}

#[test]
fn new_button_is_released() {
    let b = ButtonState::new(ButtonId::Button3);
    assert_eq!(b.id, ButtonId::Button3);
    assert!(!b.pressed);
}

#[test]
fn press_then_release_reports_both_events() {
    let mut b = ButtonState::new(ButtonId::Button2);
    assert_eq!(
        b.handle_interrupt(reading(true, true)),
        Some((ButtonId::Button2, ButtonEvent::Pressed))
    );
    assert!(b.pressed);
    assert_eq!(
        b.handle_interrupt(reading(true, false)),
        Some((ButtonId::Button2, ButtonEvent::Released))
    );
    assert!(!b.pressed);
}

#[test]
fn no_interrupt_means_no_event() {
    let mut b = ButtonState::new(ButtonId::Button1);
    assert_eq!(b.handle_interrupt(reading(false, true)), None);
    assert!(!b.pressed);
    b.pressed = true;
    assert_eq!(b.handle_interrupt(reading(false, false)), None);
    assert!(b.pressed);
}

#[test]
fn bounce_without_level_change_is_ignored() {
    // A released button whose pin reads high, and a held one whose pin reads low.
    let mut b = ButtonState::new(ButtonId::Button4);
    assert_eq!(b.handle_interrupt(reading(true, false)), None);
    assert!(!b.pressed);
    b.pressed = true;
    assert_eq!(b.handle_interrupt(reading(true, true)), None);
    assert!(b.pressed);
}

#[test]
fn events_alternate_over_a_noisy_run() {
    let run = [
        reading(true, true),
        reading(true, true),
        reading(false, false),
        reading(true, true),
        reading(true, false),
        reading(true, false),
        reading(true, true),
        reading(true, false),
    ];
    let mut b = ButtonState::new(ButtonId::Button1);
    let mut events = Vec::new();
    for r in run.iter() {
        if let Some((id, e)) = b.handle_interrupt(*r) {
            assert_eq!(id, ButtonId::Button1);
            events.push(e);
        }
    }
    assert_eq!(
        events,
        vec![
            ButtonEvent::Pressed,
            ButtonEvent::Released,
            ButtonEvent::Pressed,
            ButtonEvent::Released
        ]
    );
}

#[test]
fn shared_buttons_start_released_in_order() {
    let s = SharedButtons::new();
    assert_eq!(s.button1, ButtonState { id: ButtonId::Button1, pressed: false });
    assert_eq!(s.button2, ButtonState { id: ButtonId::Button2, pressed: false });
    assert_eq!(s.button3, ButtonState { id: ButtonId::Button3, pressed: false });
    assert_eq!(s.button4, ButtonState { id: ButtonId::Button4, pressed: false });
    assert!(!s.is_pressed(ButtonId::Button4));
}

#[test]
fn handler_pass_reports_in_button_order() {
    let mut s = SharedButtons::new();
    s.button2.pressed = true;
    let changes = s.handle_interrupts([
        reading(false, true),
        reading(true, false),
        reading(true, false),
        reading(true, true),
    ]);
    assert_eq!(
        changes,
        vec![
            (ButtonId::Button2, ButtonEvent::Released),
            (ButtonId::Button4, ButtonEvent::Pressed)
        ]
    );
    assert!(!s.is_pressed(ButtonId::Button1));
    assert!(!s.is_pressed(ButtonId::Button2));
    assert!(!s.is_pressed(ButtonId::Button3));
    assert!(s.is_pressed(ButtonId::Button4));
}

#[test]
fn slot_init_handle_reclaim() {
    let mut slot = ButtonSlot::empty();
    assert!(!slot.is_initialised());
    // Interrupts before init are ignored.
    let none = slot.handle_interrupts([reading(true, true); 4]);
    assert!(none.is_empty());
    assert!(!slot.is_initialised());

    let handle = Buttons::init(&mut slot);
    assert!(slot.is_initialised());
    assert_eq!(slot.shared, Some(SharedButtons::new()));
    let changes = slot.handle_interrupts([
        reading(true, true),
        reading(false, false),
        reading(false, false),
        reading(false, false),
    ]);
    assert_eq!(changes, vec![(ButtonId::Button1, ButtonEvent::Pressed)]);

    let shared = handle.reclaim(&mut slot);
    assert!(shared.button1.pressed);
    assert!(!slot.is_initialised());

    // The buttons can be configured again after reclaim, all released.
    let _again = Buttons::init(&mut slot);
    assert_eq!(slot.shared, Some(SharedButtons::new()));
}

#[test]
fn pressed_flag_matches_last_event() {
    let run = [
        reading(true, false),
        reading(true, true),
        reading(true, true),
        reading(false, false),
        reading(true, false),
        reading(true, true),
        reading(false, false),
    ];
    let mut b = ButtonState::new(ButtonId::Button2);
    let mut last = None;
    assert!(!b.pressed);
    for r in run.iter() {
        if let Some((_, e)) = b.handle_interrupt(*r) {
            last = Some(e);
        }
        assert_eq!(b.pressed, last == Some(ButtonEvent::Pressed));
    }
    assert!(b.pressed);
}
