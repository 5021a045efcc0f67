use vstd::prelude::*;
use crate::text::{digit_byte, short_text_bytes, short_text_new, short_text_push, push_two_digits, two_digits};

verus! {

/// Microseconds in a second; times are kept in microseconds, as the RTC
/// counts them (embassy-time ticks at 1 MHz in this build).
pub const MICROS_PER_SEC: u64 = 1_000_000;

/// The largest number of seconds that a `Duration` can hold without its tick
/// count overflowing.
pub open spec fn max_duration_secs() -> int {
    (u64::MAX / 1_000_000) as int
}

/// `Instant::from_micros(micros).as_secs()`: the whole seconds of a time
/// given in microseconds.
#[verifier::external_body]
pub(crate) fn micros_as_secs(micros: u64) -> (secs: u64)
    ensures
        secs == micros / 1_000_000,
{
    embassy_time::Instant::from_micros(micros).as_secs()
}

/// `Instant::saturating_add(Duration::from_secs(secs))` on a time given in
/// microseconds: the sum, or `u64::MAX` microseconds where the sum would not
/// fit.
#[verifier::external_body]
pub(crate) fn instant_saturating_add_secs(micros: u64, secs: u64) -> (r: u64)
    requires
        secs <= max_duration_secs(),
    ensures
        r == (if micros + secs * 1_000_000 > u64::MAX {
            u64::MAX as int
        } else {
            micros + secs * 1_000_000
        }),
{
    let t = embassy_time::Instant::from_micros(micros);
    t.saturating_add(embassy_time::Duration::from_secs(secs)).as_micros()
}

/// `Instant::saturating_sub(Duration::from_secs(secs))` on a time given in
/// microseconds: the difference, or 0 where it would be negative.
#[verifier::external_body]
pub(crate) fn instant_saturating_sub_secs(micros: u64, secs: u64) -> (r: u64)
    requires
        secs <= max_duration_secs(),
    ensures
        r == (if micros < secs * 1_000_000 {
            0int
        } else {
            micros - secs * 1_000_000
        }),
{
    let t = embassy_time::Instant::from_micros(micros);
    t.saturating_sub(embassy_time::Duration::from_secs(secs)).as_micros()
}

/// `Duration::from_micros(micros) + Duration::from_secs(secs)`, in
/// microseconds; the sum must fit, as `+` panics otherwise.
#[verifier::external_body]
pub(crate) fn duration_add_secs(micros: u64, secs: u64) -> (r: u64)
    requires
        micros + secs * 1_000_000 <= u64::MAX,
    ensures
        r == micros + secs * 1_000_000,
{
    let d = embassy_time::Duration::from_micros(micros) + embassy_time::Duration::from_secs(secs);
    d.as_micros()
}

/// The hour of the day (0 to 23) of a time given in seconds.
pub open spec fn hour_of(secs: int) -> int {
    (secs / 3600) % 24
}

/// The minute of the hour (0 to 59) of a time given in seconds.
pub open spec fn minute_of(secs: int) -> int {
    (secs / 60) % 60
}

/// The second of the minute (0 to 59) of a time given in seconds.
pub open spec fn second_of(secs: int) -> int {
    secs % 60
}

/// `HH:MM`, the time of day that the main menu shows.
pub open spec fn hm_text(secs: int) -> Seq<u8> {
    two_digits(hour_of(secs)) + seq![58u8] + two_digits(minute_of(secs))
}

/// `HH:MM:SS`, the time since boot that the clock screen shows.
pub open spec fn hms_text(secs: int) -> Seq<u8> {
    hm_text(secs) + seq![58u8] + two_digits(second_of(secs))
}

/// The text of the main menu's clock for an RTC reading in microseconds:
/// hours (modulo 24) and minutes, each with two digits, separated by `:`.
pub fn time_of_day_text(rtc_micros: u64) -> (text: heapless::String<20>)
    ensures
        short_text_bytes(text) == hm_text((rtc_micros / 1_000_000) as int),
        short_text_bytes(text).len() == 5,
        short_text_bytes(text)[2] == 58u8,
        (short_text_bytes(text)[0] - 48) * 10 + (short_text_bytes(text)[1] - 48) == (rtc_micros
            / 1_000_000) / 3600 % 24,
        (short_text_bytes(text)[3] - 48) * 10 + (short_text_bytes(text)[4] - 48) == (rtc_micros
            / 1_000_000) / 60 % 60,
{
    let secs = micros_as_secs(rtc_micros);
    let mut text = short_text_new();
    push_two_digits(&mut text, secs / 3600 % 24);
    let _ = short_text_push(&mut text, ':');
    push_two_digits(&mut text, secs / 60 % 60);
    assert(short_text_bytes(text) =~= hm_text(secs as int));
    proof {
        lemma_clock_text_reads_back(secs as nat);
    }
    text
}

/// The text of the clock screen for a time since boot in seconds: hours
/// (modulo 24), minutes and seconds, each with two digits, separated by `:`.
pub fn uptime_text(now_secs: u64) -> (text: heapless::String<20>)
    ensures
        short_text_bytes(text) == hms_text(now_secs as int),
        short_text_bytes(text).len() == 8,
        (short_text_bytes(text)[0] - 48) * 10 + (short_text_bytes(text)[1] - 48) == now_secs / 3600
            % 24,
        (short_text_bytes(text)[3] - 48) * 10 + (short_text_bytes(text)[4] - 48) == now_secs / 60
            % 60,
        (short_text_bytes(text)[6] - 48) * 10 + (short_text_bytes(text)[7] - 48) == now_secs % 60,
{
    let mut text = short_text_new();
    push_two_digits(&mut text, now_secs / 3600 % 24);
    let _ = short_text_push(&mut text, ':');
    push_two_digits(&mut text, now_secs / 60 % 60);
    let _ = short_text_push(&mut text, ':');
    push_two_digits(&mut text, now_secs % 60);
    assert(short_text_bytes(text) =~= hms_text(now_secs as int));
    proof {
        lemma_clock_text_reads_back(now_secs as nat);
    }
    text
}

/// The value of two decimal digit bytes.
pub open spec fn digits_value(hi: u8, lo: u8) -> int {
    (hi - 48) * 10 + (lo - 48)
}

/// Law: the clock texts are well formed and read back to the time they show:
/// `HH:MM:SS` has eight bytes, every field is two decimal digits, and the
/// fields read back as the whole hours modulo 24, the whole minutes modulo 60
/// and the seconds modulo 60; `HH:MM` is its first five bytes.
pub proof fn lemma_clock_text_reads_back(secs: nat)
    ensures
        hms_text(secs as int).len() == 8,
        hm_text(secs as int) == hms_text(secs as int).take(5),
        hms_text(secs as int)[2] == 58u8,
        hms_text(secs as int)[5] == 58u8,
        forall|i: int| 0 <= i < 8 && i != 2 && i != 5 ==> 48 <= #[trigger] hms_text(secs as int)[i] <= 57,
        (hms_text(secs as int)[0] - 48) * 10 + (hms_text(secs as int)[1] - 48) == (secs / 3600) % 24,
        (hms_text(secs as int)[3] - 48) * 10 + (hms_text(secs as int)[4] - 48) == (secs / 60) % 60,
        (hms_text(secs as int)[6] - 48) * 10 + (hms_text(secs as int)[7] - 48) == secs % 60,
        digits_value(hms_text(secs as int)[0], hms_text(secs as int)[1]) == hour_of(secs as int),
        digits_value(hms_text(secs as int)[3], hms_text(secs as int)[4]) == minute_of(secs as int),
        digits_value(hms_text(secs as int)[6], hms_text(secs as int)[7]) == second_of(secs as int),
        hour_of(secs as int) < 24,
        minute_of(secs as int) < 60,
        second_of(secs as int) < 60,
        hms_text(secs as int)[0] <= 50,
        hms_text(secs as int)[3] <= 53,
        hms_text(secs as int)[6] <= 53,
{
    let t = hms_text(secs as int);
    let h = hour_of(secs as int);
    let m = minute_of(secs as int);
    let s = second_of(secs as int);
    assert(0 <= h < 24 && 0 <= m < 60 && 0 <= s < 60);
    assert(t =~= seq![
        digit_byte(h / 10), digit_byte(h % 10), 58u8,
        digit_byte(m / 10), digit_byte(m % 10), 58u8,
        digit_byte(s / 10), digit_byte(s % 10)
    ]);
    assert(hm_text(secs as int) =~= t.take(5));
}

} // verus!
