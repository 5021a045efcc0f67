use vstd::prelude::*;

verus! {

/// The fixed-capacity strings that the watch draws on its panel.
#[verifier::external_type_specification]
#[verifier::external_body]
pub struct ExHeaplessString<const N: usize>(heapless::String<N>);

/// `Clone` of `heapless::String`: nothing is stated of the copy (the menus
/// that hold a string derive `Clone`, and no proof relies on a clone).
pub assume_specification<const N: usize>[<heapless::String<N> as Clone>::clone](
    s: &heapless::String<N>,
) -> heapless::String<N>;

/// The UTF-8 bytes that a `heapless::String` of capacity 20 holds.
pub uninterp spec fn short_text_bytes(s: heapless::String<20>) -> Seq<u8>;

/// The UTF-8 bytes that a `heapless::String` of capacity 100 holds.
pub uninterp spec fn long_text_bytes(s: heapless::String<100>) -> Seq<u8>;

/// The byte of an ASCII character.
pub open spec fn ascii_byte(c: char) -> u8 {
    (c as u32) as u8
}

/// `heapless::String::<20>::new`: an empty string.
#[verifier::external_body]
pub(crate) fn short_text_new() -> (s: heapless::String<20>)
    ensures
        short_text_bytes(s) == Seq::<u8>::empty(),
{
    heapless::String::new()
}

/// `heapless::String::<20>::push` of an ASCII character: it appends the
/// character's byte when fewer than 20 bytes are held, and otherwise fails and
/// leaves the string as it was.
#[verifier::external_body]
pub(crate) fn short_text_push(s: &mut heapless::String<20>, c: char) -> (r: Result<(), ()>)
    requires
        (c as u32) < 128,
    ensures
        short_text_bytes(*old(s)).len() < 20 ==> r is Ok && short_text_bytes(*final(s))
            == short_text_bytes(*old(s)).push(ascii_byte(c)),
        short_text_bytes(*old(s)).len() >= 20 ==> r is Err && short_text_bytes(*final(s))
            == short_text_bytes(*old(s)),
{
    s.push(c)
}

/// `heapless::String::<100>::new`: an empty string.
#[verifier::external_body]
pub(crate) fn long_text_new() -> (s: heapless::String<100>)
    ensures
        long_text_bytes(s) == Seq::<u8>::empty(),
{
    heapless::String::new()
}

/// `heapless::String::<100>::push` of an ASCII character: it appends the
/// character's byte when fewer than 100 bytes are held, and otherwise fails
/// and leaves the string as it was.
#[verifier::external_body]
pub(crate) fn long_text_push(s: &mut heapless::String<100>, c: char) -> (r: Result<(), ()>)
    requires
        (c as u32) < 128,
    ensures
        long_text_bytes(*old(s)).len() < 100 ==> r is Ok && long_text_bytes(*final(s))
            == long_text_bytes(*old(s)).push(ascii_byte(c)),
        long_text_bytes(*old(s)).len() >= 100 ==> r is Err && long_text_bytes(*final(s))
            == long_text_bytes(*old(s)),
{
    s.push(c)
}

/// `heapless::String::<100>::clear`: the string becomes empty.
#[verifier::external_body]
pub(crate) fn long_text_clear(s: &mut heapless::String<100>)
    ensures
        long_text_bytes(*final(s)) == Seq::<u8>::empty(),
{
    s.clear()
}

/// The ASCII byte of the decimal digit `d`.
pub open spec fn digit_byte(d: int) -> u8 {
    (48 + d) as u8
}

/// A number below 100 written with two decimal digits, zero-padded
/// (what `{:02}` writes for it).
pub open spec fn two_digits(v: int) -> Seq<u8> {
    seq![digit_byte(v / 10), digit_byte(v % 10)]
}

/// The character of the decimal digit `d`.
fn digit_char(d: u64) -> (c: char)
    requires
        d < 10,
    ensures
        (c as u32) < 128,
        ascii_byte(c) == digit_byte(d as int),
{
    match d {
        0 => '0',
        1 => '1',
        2 => '2',
        3 => '3',
        4 => '4',
        5 => '5',
        6 => '6',
        7 => '7',
        8 => '8',
        _ => '9',
    }
}

/// Appends `v` with two digits to a short text that has room for them.
pub(crate) fn push_two_digits(s: &mut heapless::String<20>, v: u64)
    requires
        v < 100,
        short_text_bytes(*old(s)).len() + 2 <= 20,
    ensures
        short_text_bytes(*final(s)) == short_text_bytes(*old(s)) + two_digits(v as int),
{
    let _ = short_text_push(s, digit_char(v / 10));
    let _ = short_text_push(s, digit_char(v % 10));
}

/// The text of a boolean, as `{}` writes it.
pub open spec fn bool_text(b: bool) -> Seq<u8> {
    if b {
        seq![116u8, 114u8, 117u8, 101u8]
    } else {
        seq![102u8, 97u8, 108u8, 115u8, 101u8]
    }
}

/// Appends the text of `b` to a long text that has room for it.
pub(crate) fn push_bool(s: &mut heapless::String<100>, b: bool)
    requires
        long_text_bytes(*old(s)).len() + 5 <= 100,
    ensures
        long_text_bytes(*final(s)) == long_text_bytes(*old(s)) + bool_text(b),
{
    let ghost start = long_text_bytes(*s);
    if b {
        let _ = long_text_push(s, 't');
        let _ = long_text_push(s, 'r');
        let _ = long_text_push(s, 'u');
        let _ = long_text_push(s, 'e');
    } else {
        let _ = long_text_push(s, 'f');
        let _ = long_text_push(s, 'a');
        let _ = long_text_push(s, 'l');
        let _ = long_text_push(s, 's');
        let _ = long_text_push(s, 'e');
    }
    assert(long_text_bytes(*s) =~= start + bool_text(b));
}

} // verus!
