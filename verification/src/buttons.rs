use vstd::prelude::*;

verus! {

/// The four push buttons of the watch, in the order in which the GPIO
/// interrupt handler services them.
#[derive(Debug, Clone, Copy, PartialEq, Eq, Structural)]
pub enum ButtonId {
    Button1,
    Button2,
    Button3,
    Button4,
}

/// What happened to a button: it went down, or it came back up.
#[derive(Debug, Clone, Copy, PartialEq, Eq, Structural)]
pub enum ButtonEvent {
    Pressed,
    Released,
}

/// A button together with what happened to it; this is what the interrupt
/// handler queues for the application.
pub type ButtonChange = (ButtonId, ButtonEvent);

/// What the interrupt handler reads from one button's pin: whether the pin
/// raised an edge interrupt, and whether its level is low (the buttons pull
/// up, so a held button reads low; a pin that is not low is high).
#[derive(Debug, Clone, Copy, PartialEq, Eq, Structural)]
pub struct PinReading {
    pub interrupt_set: bool,
    pub input_low: bool,
}

/// One debouncing step of a button: the new pressed flag and the event to
/// report, from the old pressed flag and the pin reading.
///
/// A button only changes state when its pin raised an interrupt; a released
/// button becomes pressed when its pin reads low, and a pressed button becomes
/// released when its pin reads high. Anything else leaves it as it was.
pub open spec fn button_step(pressed: bool, reading: PinReading) -> (bool, Option<ButtonEvent>) {
    if !reading.interrupt_set {
        (pressed, None)
    } else if !pressed && reading.input_low {
        (true, Some(ButtonEvent::Pressed))
    } else if pressed && !reading.input_low {
        (false, Some(ButtonEvent::Released))
    } else {
        (pressed, None)
    }
}

/// Law: a pin that raised no interrupt leaves its button alone: the pressed
/// flag stays and no event is reported, whatever the pin reads. A press is
/// only reported for a released button whose pin reads low, a release only
/// for a held button whose pin reads high, and an event always flips the
/// flag to match it; without an event the flag stays.
pub proof fn lemma_step_follows_the_pin(pressed: bool, interrupt_set: bool, input_low: bool)
    ensures
        ({
            let (next, event) = button_step(pressed, PinReading { interrupt_set, input_low });
            &&& !interrupt_set ==> next == pressed && event is None
            &&& event == Some(ButtonEvent::Pressed) <==> (interrupt_set && !pressed && input_low)
            &&& event == Some(ButtonEvent::Released) <==> (interrupt_set && pressed && !input_low)
            &&& event == Some(ButtonEvent::Pressed) ==> next
            &&& event == Some(ButtonEvent::Released) ==> !next
            &&& event is None ==> next == pressed
        }),
{
}

/// The events that one button reports over a run of pin readings, starting
/// from the given pressed flag.
pub open spec fn button_events(pressed: bool, readings: Seq<PinReading>) -> Seq<ButtonEvent>
    decreases readings.len(),
{
    if readings.len() == 0 {
        Seq::empty()
    } else {
        let (next, event) = button_step(pressed, readings[0]);
        let rest = button_events(next, readings.drop_first());
        match event {
            Some(e) => seq![e].add(rest),
            None => rest,
        }
    }
}

/// The event expected at position `i` of a strictly alternating run that starts
/// with the button pressed (`pressed`) or released (`!pressed`).
pub open spec fn alternating_event(pressed: bool, i: int) -> ButtonEvent {
    if (i % 2 == 0) != pressed {
        ButtonEvent::Pressed
    } else {
        ButtonEvent::Released
    }
}

/// `events` alternates between presses and releases, beginning with a press
/// when the button starts released and with a release when it starts pressed.
pub open spec fn alternates_from(pressed: bool, events: Seq<ButtonEvent>) -> bool {
    forall|i: int| 0 <= i < events.len() ==> #[trigger] events[i] == alternating_event(pressed, i)
}

/// Law: whatever the pins read, the events that one button reports alternate
/// strictly between `Pressed` and `Released`; a button that starts released
/// (as every button does after `Buttons::init`) reports a press first.
pub proof fn lemma_button_events_alternate(pressed: bool, readings: Seq<PinReading>)
    ensures
        alternates_from(pressed, button_events(pressed, readings)),
    decreases readings.len(),
{
    if readings.len() > 0 {
        let (next, event) = button_step(pressed, readings[0]);
        let rest = button_events(next, readings.drop_first());
        lemma_button_events_alternate(next, readings.drop_first());
        match event {
            Some(e) => {
                let all = seq![e].add(rest);
                assert(next == !pressed);
                assert forall|i: int| 0 <= i < all.len() implies #[trigger] all[i]
                    == alternating_event(pressed, i) by {
                    if i > 0 {
                        assert(all[i] == rest[i - 1]);
                        assert(rest[i - 1] == alternating_event(next, i - 1));
                        assert(((i - 1) % 2 == 0) == !(i % 2 == 0));
                    }
                }
            },
            None => {
                assert(next == pressed);
            },
        }
    }
}

/// The pressed flag of one button after a run of pin readings, starting from
/// the given flag.
pub open spec fn pressed_after(pressed: bool, readings: Seq<PinReading>) -> bool
    decreases readings.len(),
{
    if readings.len() == 0 {
        pressed
    } else {
        pressed_after(button_step(pressed, readings[0]).0, readings.drop_first())
    }
}

/// Law: after any run of pin readings a button is held down exactly when the
/// last event it reported was `Pressed`; when it reported nothing, its flag is
/// the one it started with (released, for a button fresh from
/// `ButtonState::new`).
pub proof fn lemma_pressed_matches_last_event(pressed: bool, readings: Seq<PinReading>)
    ensures
        ({
            let events = button_events(pressed, readings);
            pressed_after(pressed, readings) == if events.len() == 0 {
                pressed
            } else {
                events.last() == ButtonEvent::Pressed
            }
        }),
    decreases readings.len(),
{
    if readings.len() > 0 {
        let (next, event) = button_step(pressed, readings[0]);
        let rest = button_events(next, readings.drop_first());
        lemma_pressed_matches_last_event(next, readings.drop_first());
        match event {
            Some(e) => {
                let all = seq![e].add(rest);
                if rest.len() > 0 {
                    assert(all.last() == rest.last());
                } else {
                    assert(all.last() == e);
                }
            },
            None => {},
        }
    }
}

/// The debouncing state of one button: which button it is, and whether it is
/// currently held down.
#[derive(Debug, Clone, Copy, PartialEq, Eq, Structural)]
pub struct ButtonState {
    pub id: ButtonId,
    pub pressed: bool,
}

impl ButtonState {
    /// A freshly configured button, not held down.
    pub fn new(id: ButtonId) -> (state: Self)
        ensures
            state.id == id,
            !state.pressed,
    {
        ButtonState { id, pressed: false }
    }

    /// Services the button's GPIO interrupt: updates the pressed flag from the
    /// pin reading and returns the change to queue, if any. The caller clears
    /// the pin's interrupt flag when `reading.interrupt_set` holds.
    pub fn handle_interrupt(&mut self, reading: PinReading) -> (change: Option<ButtonChange>)
        ensures
            final(self).id == old(self).id,
            final(self).pressed == button_step(old(self).pressed, reading).0,
            change == (match button_step(old(self).pressed, reading).1 {
                Some(e) => Some((old(self).id, e)),
                None => None::<ButtonChange>,
            }),
            !reading.interrupt_set ==> final(self).pressed == old(self).pressed && change is None,
            change matches Some((_, ButtonEvent::Pressed)) ==> reading.interrupt_set
                && reading.input_low && !old(self).pressed && final(self).pressed,
            change matches Some((_, ButtonEvent::Released)) ==> reading.interrupt_set
                && !reading.input_low && old(self).pressed && !final(self).pressed,
            change is None ==> final(self).pressed == old(self).pressed,
    {
        if !reading.interrupt_set {
            return None;
        }
        if !self.pressed && reading.input_low {
            self.pressed = true;
            Some((self.id, ButtonEvent::Pressed))
        } else if self.pressed && !reading.input_low {
            self.pressed = false;
            Some((self.id, ButtonEvent::Released))
        } else {
            None
        }
    }
}

/// The change that one button's step reports, as a run of at most one change.
pub open spec fn step_change(state: ButtonState, reading: PinReading) -> Seq<ButtonChange> {
    match button_step(state.pressed, reading).1 {
        Some(e) => seq![(state.id, e)],
        None => Seq::empty(),
    }
}

/// The events of one interrupt pass over the four buttons, in button order.
pub open spec fn pass_events(
    states: Seq<ButtonState>,
    readings: Seq<PinReading>,
) -> Seq<ButtonChange>
    decreases states.len(),
{
    if states.len() == 0 || readings.len() == 0 {
        Seq::empty()
    } else {
        let rest = pass_events(states.drop_last(), readings.drop_last());
        match button_step(states.last().pressed, readings.last()).1 {
            Some(e) => rest.push((states.last().id, e)),
            None => rest,
        }
    }
}

/// A pass over four buttons reports, in button order, each button's own step
/// change.
proof fn lemma_pass_is_concatenation(states: Seq<ButtonState>, readings: Seq<PinReading>)
    requires
        states.len() == 4,
        readings.len() == 4,
    ensures
        pass_events(states, readings) == step_change(states[0], readings[0]) + step_change(
            states[1],
            readings[1],
        ) + step_change(states[2], readings[2]) + step_change(states[3], readings[3]),
{
    let s3 = states.drop_last();
    let r3 = readings.drop_last();
    let s2 = s3.drop_last();
    let r2 = r3.drop_last();
    let s1 = s2.drop_last();
    let r1 = r2.drop_last();
    let s0 = s1.drop_last();
    let r0 = r1.drop_last();
    assert(s0.len() == 0);
    assert(pass_events(s0, r0) =~= Seq::<ButtonChange>::empty());
    assert(pass_events(s1, r1) =~= step_change(states[0], readings[0]));
    assert(pass_events(s2, r2) =~= step_change(states[0], readings[0]) + step_change(
        states[1],
        readings[1],
    ));
    assert(pass_events(s3, r3) =~= step_change(states[0], readings[0]) + step_change(
        states[1],
        readings[1],
    ) + step_change(states[2], readings[2]));
    assert(pass_events(states, readings) =~= step_change(states[0], readings[0]) + step_change(
        states[1],
        readings[1],
    ) + step_change(states[2], readings[2]) + step_change(states[3], readings[3]));
}

/// Law: one interrupt pass over the four buttons queues exactly the events
/// that the buttons' own steps report: every button whose step reports an
/// event has its change queued, nothing else is queued, and the changes come
/// in button order (button `i`'s change before button `j`'s for `i < j`).
pub proof fn lemma_pass_reports_each_button(states: Seq<ButtonState>, readings: Seq<PinReading>)
    requires
        states.len() == 4,
        readings.len() == 4,
    ensures
        ({
            let changes = pass_events(states, readings);
            let has = |i: int| (button_step(states[i].pressed, readings[i]).1 is Some);
            let before = |i: int|
                (if 0 < i && has(0) { 1int } else { 0int }) + (if 1 < i && has(1) {
                    1int
                } else {
                    0int
                }) + (if 2 < i && has(2) { 1int } else { 0int });
            &&& changes.len() == (if has(0) { 1int } else { 0int }) + (if has(1) {
                1int
            } else {
                0int
            }) + (if has(2) { 1int } else { 0int }) + (if has(3) { 1int } else { 0int })
            &&& forall|i: int|
                #![trigger readings[i]]
                0 <= i < 4 && button_step(states[i].pressed, readings[i]).1 is Some ==> {
                    &&& 0 <= before(i) < changes.len()
                    &&& changes[before(i)] == (
                        states[i].id,
                        button_step(states[i].pressed, readings[i]).1->0,
                    )
                }
        }),
{
    lemma_pass_is_concatenation(states, readings);
}

/// Each button's step change is among the changes of a pass, and the pass
/// holds no more changes than the buttons' steps report.
proof fn lemma_pass_contains(states: Seq<ButtonState>, readings: Seq<PinReading>)
    requires
        states.len() == 4,
        readings.len() == 4,
    ensures
        pass_events(states, readings).len() == step_change(states[0], readings[0]).len()
            + step_change(states[1], readings[1]).len() + step_change(states[2], readings[2]).len()
            + step_change(states[3], readings[3]).len(),
        forall|i: int|
            #![trigger readings[i]]
            0 <= i < 4 ==> (button_step(states[i].pressed, readings[i]).1 matches Some(e)
                ==> pass_events(states, readings).contains((states[i].id, e))),
{
    lemma_pass_is_concatenation(states, readings);
    let c = pass_events(states, readings);
    let a = step_change(states[0], readings[0]);
    let b = step_change(states[1], readings[1]);
    let d = step_change(states[2], readings[2]);
    let f = step_change(states[3], readings[3]);
    assert forall|i: int|
        #![trigger readings[i]]
        0 <= i < 4 implies (button_step(states[i].pressed, readings[i]).1 matches Some(e)
            ==> c.contains((states[i].id, e))) by {
        if let Some(e) = button_step(states[i].pressed, readings[i]).1 {
            let k = if i == 0 {
                0
            } else if i == 1 {
                a.len() as int
            } else if i == 2 {
                (a.len() + b.len()) as int
            } else {
                (a.len() + b.len() + d.len()) as int
            };
            assert(c[k] == (states[i].id, e));
        }
    }
}

/// The button states that the interrupt handler shares with the application.
#[derive(Debug, Clone, Copy, PartialEq, Eq, Structural)]
pub struct SharedButtons {
    pub button1: ButtonState,
    pub button2: ButtonState,
    pub button3: ButtonState,
    pub button4: ButtonState,
}

impl SharedButtons {
    /// The four states in button order.
    pub open spec fn states(self) -> Seq<ButtonState> {
        seq![self.button1, self.button2, self.button3, self.button4]
    }

    /// Each field holds the button that its name says.
    pub open spec fn well_formed(self) -> bool {
        &&& self.button1.id == ButtonId::Button1
        &&& self.button2.id == ButtonId::Button2
        &&& self.button3.id == ButtonId::Button3
        &&& self.button4.id == ButtonId::Button4
    }

    /// The four buttons as they are after configuration: none held down.
    pub fn new() -> (buttons: Self)
        ensures
            buttons.well_formed(),
            !buttons.button1.pressed,
            !buttons.button2.pressed,
            !buttons.button3.pressed,
            !buttons.button4.pressed,
    {
        SharedButtons {
            button1: ButtonState::new(ButtonId::Button1),
            button2: ButtonState::new(ButtonId::Button2),
            button3: ButtonState::new(ButtonId::Button3),
            button4: ButtonState::new(ButtonId::Button4),
        }
    }

    /// The state of the given button.
    pub open spec fn state_of(self, id: ButtonId) -> ButtonState {
        match id {
            ButtonId::Button1 => self.button1,
            ButtonId::Button2 => self.button2,
            ButtonId::Button3 => self.button3,
            ButtonId::Button4 => self.button4,
        }
    }

    /// Whether the given button is currently held down.
    pub fn is_pressed(&self, id: ButtonId) -> (pressed: bool)
        ensures
            pressed == self.state_of(id).pressed,
            id == ButtonId::Button1 ==> pressed == self.button1.pressed,
            id == ButtonId::Button2 ==> pressed == self.button2.pressed,
            id == ButtonId::Button3 ==> pressed == self.button3.pressed,
            id == ButtonId::Button4 ==> pressed == self.button4.pressed,
    {
        match id {
            ButtonId::Button1 => self.button1.pressed,
            ButtonId::Button2 => self.button2.pressed,
            ButtonId::Button3 => self.button3.pressed,
            ButtonId::Button4 => self.button4.pressed,
        }
    }

    /// One pass of the GPIO interrupt handler: services buttons 1 to 4 in that
    /// order with their pin readings and returns the changes to queue, in the
    /// same order.
    pub fn handle_interrupts(&mut self, readings: [PinReading; 4]) -> (changes: Vec<ButtonChange>)
        ensures
            final(self).button1.id == old(self).button1.id,
            final(self).button2.id == old(self).button2.id,
            final(self).button3.id == old(self).button3.id,
            final(self).button4.id == old(self).button4.id,
            final(self).button1.pressed == button_step(old(self).button1.pressed, readings@[0]).0,
            final(self).button2.pressed == button_step(old(self).button2.pressed, readings@[1]).0,
            final(self).button3.pressed == button_step(old(self).button3.pressed, readings@[2]).0,
            final(self).button4.pressed == button_step(old(self).button4.pressed, readings@[3]).0,
            changes@ == pass_events(old(self).states(), readings@),
            changes@.len() == (if button_step(old(self).button1.pressed, readings@[0]).1 is Some {
                1int
            } else {
                0int
            }) + (if button_step(old(self).button2.pressed, readings@[1]).1 is Some {
                1int
            } else {
                0int
            }) + (if button_step(old(self).button3.pressed, readings@[2]).1 is Some {
                1int
            } else {
                0int
            }) + (if button_step(old(self).button4.pressed, readings@[3]).1 is Some {
                1int
            } else {
                0int
            }),
            button_step(old(self).button1.pressed, readings@[0]).1 matches Some(e)
                ==> changes@.contains((old(self).button1.id, e)),
            button_step(old(self).button2.pressed, readings@[1]).1 matches Some(e)
                ==> changes@.contains((old(self).button2.id, e)),
            button_step(old(self).button3.pressed, readings@[2]).1 matches Some(e)
                ==> changes@.contains((old(self).button3.id, e)),
            button_step(old(self).button4.pressed, readings@[3]).1 matches Some(e)
                ==> changes@.contains((old(self).button4.id, e)),
    {
        let ghost s0 = self.states();
        let ghost r = readings@;
        let mut changes: Vec<ButtonChange> = Vec::new();
        if let Some(c) = self.button1.handle_interrupt(readings[0]) {
            changes.push(c);
        }
        proof {
            reveal_with_fuel(pass_events, 2);
            assert(s0.take(1).drop_last() =~= Seq::<ButtonState>::empty());
            assert(r.take(1).drop_last() =~= Seq::<PinReading>::empty());
            assert(changes@ == pass_events(s0.take(1), r.take(1)));
        }
        if let Some(c) = self.button2.handle_interrupt(readings[1]) {
            changes.push(c);
        }
        proof {
            assert(s0.take(2).drop_last() =~= s0.take(1));
            assert(r.take(2).drop_last() =~= r.take(1));
            assert(changes@ == pass_events(s0.take(2), r.take(2)));
        }
        if let Some(c) = self.button3.handle_interrupt(readings[2]) {
            changes.push(c);
        }
        proof {
            assert(s0.take(3).drop_last() =~= s0.take(2));
            assert(r.take(3).drop_last() =~= r.take(2));
            assert(changes@ == pass_events(s0.take(3), r.take(3)));
        }
        if let Some(c) = self.button4.handle_interrupt(readings[3]) {
            changes.push(c);
        }
        proof {
            assert(s0.take(4).drop_last() =~= s0.take(3));
            assert(r.take(4).drop_last() =~= r.take(3));
            assert(s0.take(4) =~= s0);
            assert(r.take(4) =~= r);
            lemma_pass_contains(s0, r);
            assert(s0[0] == old(self).button1 && s0[1] == old(self).button2);
            assert(s0[2] == old(self).button3 && s0[3] == old(self).button4);
        }
        changes
    }
}

/// Law: whether a button counts as held depends on that button's own state
/// alone: the state of button `k` is the field of button `k`, whatever the
/// other buttons do.
pub proof fn lemma_state_of_own_button(buttons: SharedButtons)
    ensures
        buttons.state_of(ButtonId::Button1) == buttons.button1,
        buttons.state_of(ButtonId::Button2) == buttons.button2,
        buttons.state_of(ButtonId::Button3) == buttons.button3,
        buttons.state_of(ButtonId::Button4) == buttons.button4,
        forall|other: ButtonState|
            #![trigger (SharedButtons { button3: other, ..buttons }).state_of(ButtonId::Button4)]
            (SharedButtons { button3: other, ..buttons }).state_of(ButtonId::Button4)
                == buttons.button4,
{
}

/// The slot that holds the shared button states while the buttons are
/// configured, and nothing otherwise.
#[derive(Debug, Clone, Copy, PartialEq, Eq, Structural)]
pub struct ButtonSlot {
    pub shared: Option<SharedButtons>,
}

impl ButtonSlot {
    /// The slot before `Buttons::init` and after `Buttons::reclaim`.
    pub fn empty() -> (slot: Self)
        ensures
            slot.shared is None,
    {
        ButtonSlot { shared: None }
    }

    /// Whether the buttons are configured.
    pub fn is_initialised(&self) -> (b: bool)
        ensures
            b == self.shared is Some,
    {
        self.shared.is_some()
    }

    /// The GPIO interrupt handler: services the buttons when they are
    /// configured; when they are not (an interrupt racing with `reclaim`), it
    /// leaves the slot as it is and reports nothing.
    pub fn handle_interrupts(&mut self, readings: [PinReading; 4]) -> (changes: Vec<ButtonChange>)
        ensures
            old(self).shared is None ==> final(self).shared is None && changes@.len() == 0,
            old(self).shared is Some ==> {
                let before = old(self).shared->0;
                let after = final(self).shared->0;
                &&& final(self).shared is Some
                &&& after.states().len() == 4
                &&& (forall|i: int| 0 <= i < 4 ==> #[trigger] after.states()[i] == ButtonState {
                        id: before.states()[i].id,
                        pressed: button_step(before.states()[i].pressed, readings@[i]).0,
                    })
                &&& changes@ == pass_events(before.states(), readings@)
            },
    {
        match self.shared {
            Some(mut shared) => {
                let changes = shared.handle_interrupts(readings);
                self.shared = Some(shared);
                changes
            },
            None => Vec::new(),
        }
    }
}

/// The handle that the application holds while the buttons are configured.
#[derive(Debug)]
pub struct Buttons;

impl Buttons {
    /// Configures the buttons: fills the slot with four released buttons. It is
    /// only called while the slot is empty, that is before any `init` or after
    /// the `reclaim` of the previous handle.
    pub fn init(slot: &mut ButtonSlot) -> (buttons: Buttons)
        requires
            old(slot).shared is None,
        ensures
            final(slot).shared == Some(SharedButtons {
                button1: ButtonState { id: ButtonId::Button1, pressed: false },
                button2: ButtonState { id: ButtonId::Button2, pressed: false },
                button3: ButtonState { id: ButtonId::Button3, pressed: false },
                button4: ButtonState { id: ButtonId::Button4, pressed: false },
            }),
    {
        slot.shared = Some(SharedButtons::new());
        Buttons
    }

    /// Gives the buttons back: empties the slot and returns what it held. It is
    /// only called while the buttons are configured.
    pub fn reclaim(self, slot: &mut ButtonSlot) -> (shared: SharedButtons)
        requires
            old(slot).shared is Some,
        ensures
            shared == old(slot).shared->0,
            final(slot).shared is None,
    {
        let shared = match slot.shared {
            Some(s) => s,
            None => SharedButtons::new(),
        };
        slot.shared = None;
        shared
    }
}

} // verus!
