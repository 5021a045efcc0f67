use vstd::prelude::*;
use crate::buttons::{ButtonChange, ButtonEvent, ButtonId, SharedButtons};
use crate::clock::{instant_saturating_add_secs, instant_saturating_sub_secs, max_duration_secs};

verus! {

/// Seconds that one press of button 2 moves the clock in the time set menu.
pub const HOUR_STEP_SECS: u64 = 3600;

/// Seconds that one press of button 3 moves the clock in the time set menu.
pub const MINUTE_STEP_SECS: u64 = 60;

/// The main menu: it shows the time of day.
#[derive(Debug, Clone, Copy, PartialEq, Eq, Structural)]
pub struct MenuMain;

/// The time set menu: buttons 2 and 3 move the clock by an hour or a minute,
/// forward, or backward while button 4 is held.
#[derive(Debug, Clone, Copy, PartialEq, Eq, Structural)]
pub struct TimeSet;

/// A screen that shows a fixed message.
#[derive(Debug, Clone, PartialEq, Eq)]
pub struct DebugView {
    message: heapless::String<100>,
}

/// The menu on screen.
#[derive(Debug, Clone, PartialEq, Eq)]
pub enum OneOfMenu {
    MenuMain(MenuMain),
    TimeSet(TimeSet),
    DebugView(DebugView),
}

/// A change of the RTC that a menu asks for: move it by `secs` seconds,
/// forward or backward, saturating at the ends of the clock's range.
#[derive(Debug, Clone, Copy, PartialEq, Eq, Structural)]
pub struct TimeShift {
    pub secs: u64,
    pub forward: bool,
}

/// What a menu does with a button change: the menu to show next and the
/// change of the RTC to make, if any.
#[derive(Debug, Clone)]
pub struct MenuStep {
    pub next: OneOfMenu,
    pub time_shift: Option<TimeShift>,
}

/// The RTC time, in microseconds, after applying `shift` to `now`.
pub open spec fn shifted_time(now: int, shift: TimeShift) -> int {
    if shift.forward {
        if now + shift.secs * 1_000_000 > u64::MAX {
            u64::MAX as int
        } else {
            now + shift.secs * 1_000_000
        }
    } else {
        if now < shift.secs * 1_000_000 {
            0
        } else {
            now - shift.secs * 1_000_000
        }
    }
}

impl TimeShift {
    /// The shift fits in a `Duration`.
    pub open spec fn valid(self) -> bool {
        self.secs <= max_duration_secs()
    }

    /// The RTC time after this shift, from the time `now_micros` read before it.
    pub fn apply(&self, now_micros: u64) -> (t: u64)
        requires
            self.valid(),
        ensures
            t == shifted_time(now_micros as int, *self),
    {
        if self.forward {
            instant_saturating_add_secs(now_micros, self.secs)
        } else {
            instant_saturating_sub_secs(now_micros, self.secs)
        }
    }
}

/// The shift that the time set menu makes for a button change, given whether
/// button 4 is held.
pub open spec fn time_set_shift(change: ButtonChange, backward: bool) -> Option<TimeShift> {
    match change {
        (ButtonId::Button2, ButtonEvent::Pressed) => Some(TimeShift { secs: 3600, forward: !backward }),
        (ButtonId::Button3, ButtonEvent::Pressed) => Some(TimeShift { secs: 60, forward: !backward }),
        _ => None,
    }
}

/// The menu that follows `menu` on a button change: a press of button 1 goes
/// from the main menu to the time set menu and back; everything else leaves
/// the menu as it is.
pub open spec fn next_menu(menu: OneOfMenu, change: ButtonChange) -> OneOfMenu {
    match menu {
        OneOfMenu::MenuMain(m) => if change == (ButtonId::Button1, ButtonEvent::Pressed) {
            OneOfMenu::TimeSet(TimeSet)
        } else {
            OneOfMenu::MenuMain(m)
        },
        OneOfMenu::TimeSet(t) => if change == (ButtonId::Button1, ButtonEvent::Pressed) {
            OneOfMenu::MenuMain(MenuMain)
        } else {
            OneOfMenu::TimeSet(t)
        },
        OneOfMenu::DebugView(d) => OneOfMenu::DebugView(d),
    }
}

/// The change of the RTC that `menu` makes on a button change, given whether
/// button 4 is held: only the time set menu makes one.
pub open spec fn menu_time_shift(menu: OneOfMenu, change: ButtonChange, backward: bool) -> Option<
    TimeShift,
> {
    match menu {
        OneOfMenu::TimeSet(_) => time_set_shift(change, backward),
        _ => None,
    }
}

impl MenuMain {
    /// A press of button 1 opens the time set menu; anything else stays here.
    pub fn update(self, change: ButtonChange, buttons: &SharedButtons) -> (step: MenuStep)
        ensures
            step.next == next_menu(OneOfMenu::MenuMain(self), change),
            step.time_shift is None,
    {
        let next = match change {
            (ButtonId::Button1, ButtonEvent::Pressed) => OneOfMenu::TimeSet(TimeSet),
            _ => OneOfMenu::MenuMain(self),
        };
        MenuStep { next, time_shift: None }
    }
}

impl TimeSet {
    /// A press of button 1 saves and returns to the main menu; a press of
    /// button 2 or 3 moves the clock by an hour or a minute (backward while
    /// button 4 is held) and stays here; anything else stays here.
    pub fn update(self, change: ButtonChange, buttons: &SharedButtons) -> (step: MenuStep)
        ensures
            step.next == next_menu(OneOfMenu::TimeSet(self), change),
            step.time_shift == time_set_shift(change, buttons.state_of(ButtonId::Button4).pressed),
            step.time_shift matches Some(s) ==> s.valid(),
            change == (ButtonId::Button2, ButtonEvent::Pressed) ==> step.time_shift == Some(
                TimeShift { secs: 3600, forward: !buttons.button4.pressed },
            ),
            change == (ButtonId::Button3, ButtonEvent::Pressed) ==> step.time_shift == Some(
                TimeShift { secs: 60, forward: !buttons.button4.pressed },
            ),
    {
        match change {
            (ButtonId::Button1, ButtonEvent::Pressed) => {
                return MenuStep { next: OneOfMenu::MenuMain(MenuMain), time_shift: None };
            },
            (b, ButtonEvent::Pressed) => {
                if b == ButtonId::Button2 || b == ButtonId::Button3 {
                    let secs = if b == ButtonId::Button2 {
                        HOUR_STEP_SECS
                    } else {
                        MINUTE_STEP_SECS
                    };
                    let backward = buttons.is_pressed(ButtonId::Button4);
                    return MenuStep {
                        next: OneOfMenu::TimeSet(self),
                        time_shift: Some(TimeShift { secs, forward: !backward }),
                    };
                }
            },
            _ => {},
        }
        MenuStep { next: OneOfMenu::TimeSet(self), time_shift: None }
    }
}

impl DebugView {
    /// A screen that shows `message`.
    pub fn new(message: heapless::String<100>) -> (view: Self)
        ensures
            view.message() == message,
    {
        DebugView { message }
    }

    /// The message on this screen.
    pub closed spec fn message(self) -> heapless::String<100> {
        self.message
    }

    /// The message that this screen shows.
    pub fn message_text(&self) -> (m: &heapless::String<100>)
        ensures
            *m == self.message(),
    {
        &self.message
    }

    /// The screen ignores the buttons.
    pub fn update(self, change: ButtonChange, buttons: &SharedButtons) -> (step: MenuStep)
        ensures
            step.next == next_menu(OneOfMenu::DebugView(self), change),
            step.next == OneOfMenu::DebugView(self),
            step.time_shift is None,
    {
        MenuStep { next: OneOfMenu::DebugView(self), time_shift: None }
    }
}

impl OneOfMenu {
    /// Hands the button change to the menu on screen.
    pub fn update(self, change: ButtonChange, buttons: &SharedButtons) -> (step: MenuStep)
        ensures
            step.next == next_menu(self, change),
            step.time_shift == menu_time_shift(
                self,
                change,
                buttons.state_of(ButtonId::Button4).pressed,
            ),
            step.time_shift matches Some(s) ==> s.valid(),
            self is TimeSet && change == (ButtonId::Button2, ButtonEvent::Pressed)
                ==> step.time_shift == Some(TimeShift { secs: 3600, forward: !buttons.button4.pressed }),
            self is TimeSet && change == (ButtonId::Button3, ButtonEvent::Pressed)
                ==> step.time_shift == Some(TimeShift { secs: 60, forward: !buttons.button4.pressed }),
    {
        match self {
            OneOfMenu::MenuMain(m) => m.update(change, buttons),
            OneOfMenu::TimeSet(m) => m.update(change, buttons),
            OneOfMenu::DebugView(m) => m.update(change, buttons),
        }
    }
}

/// Law: releasing a button never changes the menu or the clock.
pub proof fn lemma_release_changes_nothing(menu: OneOfMenu, id: ButtonId, backward: bool)
    ensures
        next_menu(menu, (id, ButtonEvent::Released)) == menu,
        menu_time_shift(menu, (id, ButtonEvent::Released), backward) is None,
{
}

/// Law: two presses of button 1 bring any menu back to itself (main menu to
/// time set menu and back, time set menu to main menu and back; other
/// screens ignore the button).
pub proof fn lemma_button1_twice_returns(menu: OneOfMenu)
    ensures
        next_menu(next_menu(menu, (ButtonId::Button1, ButtonEvent::Pressed)), (ButtonId::Button1, ButtonEvent::Pressed))
            == menu,
{
}

/// The menu after a run of button changes, starting from `menu`.
pub open spec fn menu_after(menu: OneOfMenu, changes: Seq<ButtonChange>) -> OneOfMenu
    decreases changes.len(),
{
    if changes.len() == 0 {
        menu
    } else {
        next_menu(menu_after(menu, changes.drop_last()), changes.last())
    }
}

/// The menu is the main menu or the time set menu.
pub open spec fn is_clock_menu(menu: OneOfMenu) -> bool {
    menu == OneOfMenu::MenuMain(MenuMain) || menu == OneOfMenu::TimeSet(TimeSet)
}

proof fn lemma_clock_menus_closed(changes: Seq<ButtonChange>)
    ensures
        is_clock_menu(menu_after(OneOfMenu::MenuMain(MenuMain), changes)),
    decreases changes.len(),
{
    if changes.len() > 0 {
        lemma_clock_menus_closed(changes.drop_last());
    }
}

/// Law: starting from the main menu, any run of button changes only ever
/// shows the main menu or the time set menu, and each change switches between
/// the two exactly when it is a press of button 1.
pub proof fn lemma_menu_run(changes: Seq<ButtonChange>)
    ensures
        forall|i: int|
            0 <= i <= changes.len() ==> is_clock_menu(
                #[trigger] menu_after(OneOfMenu::MenuMain(MenuMain), changes.take(i)),
            ),
        forall|i: int|
            #![trigger changes[i]]
            0 <= i < changes.len() ==> {
                let before = menu_after(OneOfMenu::MenuMain(MenuMain), changes.take(i));
                let after = menu_after(OneOfMenu::MenuMain(MenuMain), changes.take(i + 1));
                &&& after == next_menu(before, changes[i])
                &&& (after != before <==> changes[i] == (ButtonId::Button1, ButtonEvent::Pressed))
            },
{
    let start = OneOfMenu::MenuMain(MenuMain);
    assert forall|i: int| 0 <= i <= changes.len() implies is_clock_menu(
        #[trigger] menu_after(start, changes.take(i)),
    ) by {
        lemma_clock_menus_closed(changes.take(i));
    }
    assert forall|i: int|
        #![trigger changes[i]]
        0 <= i < changes.len() implies {
            let before = menu_after(start, changes.take(i));
            let after = menu_after(start, changes.take(i + 1));
            &&& after == next_menu(before, changes[i])
            &&& (after != before <==> changes[i] == (ButtonId::Button1, ButtonEvent::Pressed))
        } by {
        assert(changes.take(i + 1).drop_last() =~= changes.take(i));
        assert(changes.take(i + 1).last() == changes[i]);
        lemma_clock_menus_closed(changes.take(i));
    }
}

/// Law: in the time set menu a press of button 2 moves the clock by an hour
/// and a press of button 3 by a minute, backward exactly when button 4 itself
/// is held, whatever the other buttons' states.
pub proof fn lemma_time_set_direction(buttons: SharedButtons, id: ButtonId)
    requires
        id == ButtonId::Button2 || id == ButtonId::Button3,
    ensures
        ({
            let shift = menu_time_shift(
                OneOfMenu::TimeSet(TimeSet),
                (id, ButtonEvent::Pressed),
                buttons.state_of(ButtonId::Button4).pressed,
            );
            &&& shift is Some
            &&& shift->0.forward == !buttons.button4.pressed
            &&& shift->0.secs == (if id == ButtonId::Button2 { 3600u64 } else { 60u64 })
        }),
{
}

/// Law: only the time set menu changes the clock, and it does so only on a
/// press of button 2 or 3, staying in the time set menu.
pub proof fn lemma_only_time_set_shifts(menu: OneOfMenu, change: ButtonChange, backward: bool)
    ensures
        menu_time_shift(menu, change, backward) is Some ==> {
            &&& menu is TimeSet
            &&& change.1 == ButtonEvent::Pressed
            &&& (change.0 == ButtonId::Button2 || change.0 == ButtonId::Button3)
            &&& next_menu(menu, change) is TimeSet
        },
{
}

/// Law: moving the clock forward and then backward by the same step restores
/// it, and so does backward then forward, unless the first move saturated.
/// A forward move never sets the clock back and a backward move never sets it
/// forward.
pub proof fn lemma_shift_round_trip(now: u64, secs: u64)
    requires
        secs <= max_duration_secs(),
    ensures
        ({
            let fwd = TimeShift { secs, forward: true };
            let back = TimeShift { secs, forward: false };
            &&& now + secs * 1_000_000 <= u64::MAX ==> shifted_time(shifted_time(now as int, fwd), back) == now
            &&& now >= secs * 1_000_000 ==> shifted_time(shifted_time(now as int, back), fwd) == now
            &&& now <= shifted_time(now as int, fwd) <= u64::MAX
            &&& 0 <= shifted_time(now as int, back) <= now
        }),
{
}

} // verus!
