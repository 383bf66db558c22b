//! The text of what a run writes: one line per message, and one line per
//! failure.

use vstd::prelude::*;

verus! {

/// `String::push` appends one character.
pub assume_specification[ String::push ](s: &mut String, ch: char)
    ensures
        final(s)@ == old(s)@.push(ch),
;

/// The character of a decimal digit: `'0'` for 0 up to `'9'` for 9.
pub open spec fn digit_char(d: nat) -> char {
    ('0' as nat + d) as char
}

/// A number in decimal, without sign or leading zeros.
pub open spec fn decimal(n: nat) -> Seq<char>
    decreases n,
{
    if n < 10 {
        seq![digit_char(n)]
    } else {
        decimal(n / 10).push(digit_char(n % 10))
    }
}

/// Appends a number in decimal to a text.
pub fn push_decimal(text: &mut String, n: usize)
    ensures
        final(text)@ == old(text)@ + decimal(n as nat),
    decreases n,
{
    if n >= 10 {
        push_decimal(text, n / 10);
    }
    let d: u8 = (n % 10) as u8;
    let ghost before = text@;
    text.push((48u8 + d) as char);
    assert(text@ =~= old(text)@ + decimal(n as nat)) by {
        assert(before.push(digit_char((n % 10) as nat)) == text@);
        if n >= 10 {
            assert(before == old(text)@ + decimal((n / 10) as nat));
        } else {
            assert(before == old(text)@);
        }
    }
}

/// The warning for a source that could not be read.
pub open spec fn open_failure_text(name: Seq<char>, cause: Seq<char>) -> Seq<char> {
    "Failed to open "@ + name + ": "@ + cause
}

/// The line written in place of JSON for a line that is no FIX message: it
/// gives the number of the line in its source, counted from 0, and the line.
pub open spec fn parse_failure_text(line_num: nat, line: Seq<char>) -> Seq<char> {
    "Could not parse FIX message from at line "@ + decimal(line_num) + ": "@ + line
}

/// The line written for one line of a source: the JSON it was decoded to, or
/// the notice that it could not be parsed.
pub open spec fn line_text(line_num: nat, line: Seq<char>, decoded: Option<Seq<char>>) -> Seq<
    char,
> {
    match decoded {
        Some(json) => json,
        None => parse_failure_text(line_num, line),
    }
}

/// The mathematical value of what decoding a line gave.
pub open spec fn decoded_view(decoded: Option<String>) -> Option<Seq<char>> {
    match decoded {
        Some(json) => Some(json@),
        None => None,
    }
}

/// Composes the warning for a source that could not be read.
pub fn open_failure(name: &str, cause: &str) -> (text: String)
    ensures
        text@ == open_failure_text(name@, cause@),
{
    let mut text = String::from_str("Failed to open ");
    text.append(name);
    text.append(": ");
    text.append(cause);
    text
}

/// Composes the notice for a line that could not be parsed.
pub fn parse_failure(line_num: usize, line: &str) -> (text: String)
    ensures
        text@ == parse_failure_text(line_num as nat, line@),
{
    let mut text = String::from_str("Could not parse FIX message from at line ");
    push_decimal(&mut text, line_num);
    text.append(": ");
    text.append(line);
    text
}

/// Chooses what is written for one line of a source, given what decoding it
/// gave.
pub fn line_output(line_num: usize, line: &str, decoded: Option<String>) -> (text: String)
    ensures
        text@ == line_text(line_num as nat, line@, decoded_view(decoded)),
{
    match decoded {
        Some(json) => json,
        None => parse_failure(line_num, line),
    }
}

} // verus!
