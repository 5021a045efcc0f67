use vstd::prelude::*;
use crate::buttons::{ButtonEvent, ButtonId};
use crate::clock::duration_add_secs;
use crate::text::{bool_text, long_text_bytes, long_text_clear, long_text_new, long_text_push, push_bool};

verus! {

/// Seconds without a button event after which the watch goes to deep sleep.
pub const INACTIVITY_TIMEOUT_SECS: u64 = 60;

/// Seconds after which the RTC timer wakes the watch from deep sleep.
pub const SLEEP_WAKEUP_SECS: u64 = 10;

/// Seconds that every button press adds to the time since boot shown on the
/// status screen.
pub const PRESS_TIME_STEP_SECS: u64 = 60;

/// What the main loop waited for: the inactivity timer ran out, or the
/// interrupt handler queued a button change.
#[derive(Debug, Clone, Copy, PartialEq, Eq, Structural)]
pub enum LoopEvent {
    Inactive,
    Button(ButtonId, ButtonEvent),
}

/// What the main loop does next: put the watch to deep sleep, or redraw the
/// status screen and wait again.
#[derive(Debug, Clone, Copy, PartialEq, Eq, Structural)]
pub enum LoopAction {
    DeepSleep,
    Redraw,
}

/// The levels of the four button pins, as `Buttons::get_states` reads them
/// (true where the pin is low, that is where the button is held).
#[derive(Debug, Clone, Copy, PartialEq, Eq, Structural)]
pub struct ButtonLevels {
    pub button1: bool,
    pub button2: bool,
    pub button3: bool,
    pub button4: bool,
}

/// The four levels, one per line: what `"{}\n{}\n{}\n{}"` writes for them.
pub open spec fn levels_text(levels: ButtonLevels) -> Seq<u8> {
    bool_text(levels.button1) + seq![10u8] + bool_text(levels.button2) + seq![10u8] + bool_text(
        levels.button3,
    ) + seq![10u8] + bool_text(levels.button4)
}

/// What the status screen shows.
#[derive(Debug)]
pub struct DisplayState {
    pub time_since_boot_micros: u64,
    pub debug_status: heapless::String<100>,
}

/// Appends a newline to a long text that has room for it.
fn push_newline(s: &mut heapless::String<100>)
    requires
        long_text_bytes(*old(s)).len() < 100,
    ensures
        long_text_bytes(*final(s)) == long_text_bytes(*old(s)).push(10u8),
{
    let _ = long_text_push(s, '\n');
}

impl DisplayState {
    /// The status screen at boot: no time counted, no status text.
    pub fn new() -> (state: Self)
        ensures
            state.time_since_boot_micros == 0,
            long_text_bytes(state.debug_status) == Seq::<u8>::empty(),
    {
        DisplayState { time_since_boot_micros: 0, debug_status: long_text_new() }
    }

    /// Replaces the status text with the four button levels, one per line.
    pub fn show_levels(&mut self, levels: ButtonLevels)
        ensures
            final(self).time_since_boot_micros == old(self).time_since_boot_micros,
            long_text_bytes(final(self).debug_status) == levels_text(levels),
            long_text_bytes(final(self).debug_status)[0] == (if levels.button1 {
                116u8
            } else {
                102u8
            }),
            long_text_bytes(final(self).debug_status).last() == 101u8,
            long_text_bytes(final(self).debug_status).subrange(
                long_text_bytes(final(self).debug_status).len() - (if levels.button4 {
                    5int
                } else {
                    6int
                }),
                long_text_bytes(final(self).debug_status).len() as int,
            ) == (if levels.button4 {
                seq![10u8, 116u8, 114u8, 117u8, 101u8]
            } else {
                seq![10u8, 102u8, 97u8, 108u8, 115u8, 101u8]
            }),
    {
        long_text_clear(&mut self.debug_status);
        push_bool(&mut self.debug_status, levels.button1);
        push_newline(&mut self.debug_status);
        push_bool(&mut self.debug_status, levels.button2);
        push_newline(&mut self.debug_status);
        push_bool(&mut self.debug_status, levels.button3);
        push_newline(&mut self.debug_status);
        push_bool(&mut self.debug_status, levels.button4);
        assert(long_text_bytes(self.debug_status) =~= levels_text(levels));
        proof {
            lemma_levels_text_ends(levels);
        }
    }

    /// One turn of the main loop: on inactivity the watch goes to sleep and the
    /// screen stays as it is; on a button change a press adds a minute to the
    /// time since boot, and the status text shows the button levels read after
    /// the change. The time since boot must have room for the minute, as
    /// adding durations panics on overflow.
    pub fn handle_event(&mut self, event: LoopEvent, levels: ButtonLevels) -> (action: LoopAction)
        requires
            event matches LoopEvent::Button(_, ButtonEvent::Pressed) ==> old(
                self,
            ).time_since_boot_micros + 60_000_000 <= u64::MAX,
        ensures
            event is Inactive ==> action == LoopAction::DeepSleep
                && final(self).time_since_boot_micros == old(self).time_since_boot_micros
                && long_text_bytes(final(self).debug_status) == long_text_bytes(old(self).debug_status),
            event matches LoopEvent::Button(_, button_event) ==> {
                &&& action == LoopAction::Redraw
                &&& final(self).time_since_boot_micros == old(self).time_since_boot_micros + (
                if button_event == ButtonEvent::Pressed {
                    60_000_000int
                } else {
                    0int
                })
                &&& long_text_bytes(final(self).debug_status) == levels_text(levels)
            },
    {
        match event {
            LoopEvent::Inactive => LoopAction::DeepSleep,
            LoopEvent::Button(_, button_event) => {
                if button_event == ButtonEvent::Pressed {
                    self.time_since_boot_micros =
                        duration_add_secs(self.time_since_boot_micros, PRESS_TIME_STEP_SECS);
                }
                self.show_levels(levels);
                LoopAction::Redraw
            },
        }
    }
}

/// Law: the status text has four lines separated by line breaks, and line
/// `i` reads `true` when button `i` is held and `false` otherwise (button 1 on
/// the first line, button 4 on the last).
pub proof fn lemma_levels_text_lines(levels: ButtonLevels)
    ensures
        ({
            let s = levels_text(levels);
            let yes = seq![116u8, 114u8, 117u8, 101u8];
            let no = seq![102u8, 97u8, 108u8, 115u8, 101u8];
            let n1: int = if levels.button1 { 4 } else { 5 };
            let n2: int = if levels.button2 { 4 } else { 5 };
            let n3: int = if levels.button3 { 4 } else { 5 };
            let n4: int = if levels.button4 { 4 } else { 5 };
            &&& s.len() == n1 + n2 + n3 + n4 + 3
            &&& s.subrange(0, n1) == (if levels.button1 { yes } else { no })
            &&& s[n1] == 10u8
            &&& s.subrange(n1 + 1, n1 + 1 + n2) == (if levels.button2 { yes } else { no })
            &&& s[n1 + 1 + n2] == 10u8
            &&& s.subrange(n1 + n2 + 2, n1 + n2 + 2 + n3) == (if levels.button3 { yes } else { no })
            &&& s[n1 + n2 + 2 + n3] == 10u8
            &&& s.subrange(n1 + n2 + n3 + 3, s.len() as int) == (if levels.button4 { yes } else { no })
        }),
{
    let s = levels_text(levels);
    let w1 = bool_text(levels.button1);
    let w2 = bool_text(levels.button2);
    let w3 = bool_text(levels.button3);
    let w4 = bool_text(levels.button4);
    let n1 = w1.len() as int;
    let n2 = w2.len() as int;
    let n3 = w3.len() as int;
    assert(s =~= w1 + seq![10u8] + w2 + seq![10u8] + w3 + seq![10u8] + w4);
    assert(s.subrange(0, n1) =~= w1);
    assert(s.subrange(n1 + 1, n1 + 1 + n2) =~= w2);
    assert(s.subrange(n1 + n2 + 2, n1 + n2 + 2 + n3) =~= w3);
    assert(s.subrange(n1 + n2 + n3 + 3, s.len() as int) =~= w4);
}

/// The first byte of the status text is that of button 1's word, and its last
/// line is button 4's word.
proof fn lemma_levels_text_ends(levels: ButtonLevels)
    ensures
        levels_text(levels)[0] == (if levels.button1 { 116u8 } else { 102u8 }),
        levels_text(levels).last() == 101u8,
        levels_text(levels).subrange(
            levels_text(levels).len() - (if levels.button4 { 5int } else { 6int }),
            levels_text(levels).len() as int,
        ) == (if levels.button4 {
            seq![10u8, 116u8, 114u8, 117u8, 101u8]
        } else {
            seq![10u8, 102u8, 97u8, 108u8, 115u8, 101u8]
        }),
{
    let s = levels_text(levels);
    let w1 = bool_text(levels.button1);
    let w4 = bool_text(levels.button4);
    let head = w1 + seq![10u8] + bool_text(levels.button2) + seq![10u8] + bool_text(levels.button3);
    assert(s =~= head + (seq![10u8] + w4));
    assert(s[0] == w1[0]);
    assert(s.subrange(head.len() as int, s.len() as int) =~= seq![10u8] + w4);
}

/// Law: the status text always fits the screen's 100-byte string, with room to
/// spare: it is at most 23 bytes, four values and three line breaks.
pub proof fn lemma_levels_text_fits(levels: ButtonLevels)
    ensures
        16 <= levels_text(levels).len() <= 23,
{
}

} // verus!
