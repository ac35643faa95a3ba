//! The text that goes out on the serial line.

use vstd::prelude::*;
use vstd::string::StringExecFns;

verus! {

/// The character of a decimal digit.
pub open spec fn digit_char(d: int) -> char {
    seq!['0', '1', '2', '3', '4', '5', '6', '7', '8', '9'][d]
}

/// A number below 100000 in five decimal digits, zeros in front.
pub open spec fn five_digits(n: int) -> Seq<char> {
    seq![
        digit_char(n / 10000 % 10),
        digit_char(n / 1000 % 10),
        digit_char(n / 100 % 10),
        digit_char(n / 10 % 10),
        digit_char(n % 10),
    ]
}

/// A number below 1000 in at least two decimal digits, a zero in front of a
/// single one.
pub open spec fn two_digits(n: int) -> Seq<char> {
    if n < 100 {
        seq![digit_char(n / 10 % 10), digit_char(n % 10)]
    } else {
        seq![digit_char(n / 100 % 10), digit_char(n / 10 % 10), digit_char(n % 10)]
    }
}

/// What stands between the two samples of a line.
pub open spec fn separator() -> Seq<char> {
    seq![' ', '-', '-', ' ']
}

/// What ends a line: carriage return and line feed.
pub open spec fn line_end() -> Seq<char> {
    seq!['\r', '\n']
}

/// The text of one conversion: both samples in five digits.
pub open spec fn sample_chars(mic1: u16, mic2: u16) -> Seq<char> {
    five_digits(mic1 as int) + separator() + five_digits(mic2 as int)
}

/// The text that reports a press.
pub open spec fn press_chars(presses: u8) -> Seq<char> {
    "Button Press "@ + two_digits(presses as int) + " Woohoo!!"@
}

/// One decimal digit as text.
fn digit_text(d: u32) -> (s: &'static str)
    requires
        d < 10,
    ensures
        s@ == seq![digit_char(d as int)],
{
    proof {
        reveal_strlit("0");
        reveal_strlit("1");
        reveal_strlit("2");
        reveal_strlit("3");
        reveal_strlit("4");
        reveal_strlit("5");
        reveal_strlit("6");
        reveal_strlit("7");
        reveal_strlit("8");
        reveal_strlit("9");
    }
    let s = if d == 0 {
        "0"
    } else if d == 1 {
        "1"
    } else if d == 2 {
        "2"
    } else if d == 3 {
        "3"
    } else if d == 4 {
        "4"
    } else if d == 5 {
        "5"
    } else if d == 6 {
        "6"
    } else if d == 7 {
        "7"
    } else if d == 8 {
        "8"
    } else {
        "9"
    };
    assert(s@ =~= seq![digit_char(d as int)]);
    s
}

/// Appends the digit of `n` at the place of `unit` (1, 10, 100, ...).
fn push_digit(out: &mut String, n: u32, unit: u32)
    requires
        unit > 0,
    ensures
        final(out)@ == old(out)@.push(digit_char(n as int / unit as int % 10)),
{
    let d: u32 = n / unit % 10;
    out.append(digit_text(d));
    assert(final(out)@ =~= old(out)@.push(digit_char(n as int / unit as int % 10)));
}

/// The text of one conversion, without a line end: the two samples, each
/// in five digits with zeros in front, and `" -- "` between them.
pub fn sample_text(mic1: u16, mic2: u16) -> (text: String)
    ensures
        text@ == sample_chars(mic1, mic2),
{
    proof {
        reveal_strlit("");
        reveal_strlit(" -- ");
    }
    let mut text = String::from_str("");
    let a: u32 = mic1 as u32;
    let b: u32 = mic2 as u32;
    push_digit(&mut text, a, 10000);
    push_digit(&mut text, a, 1000);
    push_digit(&mut text, a, 100);
    push_digit(&mut text, a, 10);
    push_digit(&mut text, a, 1);
    text.append(" -- ");
    push_digit(&mut text, b, 10000);
    push_digit(&mut text, b, 1000);
    push_digit(&mut text, b, 100);
    push_digit(&mut text, b, 10);
    push_digit(&mut text, b, 1);
    assert(text@ =~= sample_chars(mic1, mic2));
    text
}

/// The line of one conversion as it goes out: the text, a carriage return
/// and a line feed.
pub fn sample_line(mic1: u16, mic2: u16) -> (line: String)
    ensures
        line@ == sample_chars(mic1, mic2) + line_end(),
{
    proof {
        reveal_strlit("\r\n");
    }
    let mut line = sample_text(mic1, mic2);
    line.append("\r\n");
    line
}

/// The text that reports the `presses`-th press, without a line end: the
/// count in two digits, or in three from 100 on.
pub fn press_text(presses: u8) -> (text: String)
    ensures
        text@ == press_chars(presses),
{
    let mut text = String::from_str("Button Press ");
    let n: u32 = presses as u32;
    if n >= 100 {
        push_digit(&mut text, n, 100);
    }
    push_digit(&mut text, n, 10);
    push_digit(&mut text, n, 1);
    text.append(" Woohoo!!");
    assert(text@ =~= press_chars(presses));
    text
}

/// The line that reports a press as it goes out.
pub fn press_line(presses: u8) -> (line: String)
    ensures
        line@ == press_chars(presses) + line_end(),
{
    proof {
        reveal_strlit("\r\n");
    }
    let mut line = press_text(presses);
    line.append("\r\n");
    line
}

/// The text that reports that presses are no longer counted.
pub fn deactivation_text() -> (text: String)
    ensures
        text@ == "Deactivating program..."@,
{
    String::from_str("Deactivating program...")
}

} // verus!
