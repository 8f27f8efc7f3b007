//! The lines that the board sends over the serial link, and what the driver
//! reads in them.

use regex::Regex;
use vstd::prelude::*;

verus! {

/// The line by which the board says that it is idle.
pub const READY_LINE: &'static str = "CL STATUS=READY";

/// Every line of the board that matters starts with this.
pub const LINE_PREFIX: &'static str = "CL ";

/// The regular expression of the line by which the board acknowledges a
/// block. Its one group is the block number.
pub const ACK_PATTERN: &'static str = "^CL STATUS=ACK&NUM=(\\d+)$";

/// What the driver reads in a line of the board.
#[derive(Debug, Clone, Copy, PartialEq, Eq, Structural)]
pub enum Cue {
    /// The board is idle.
    Ready,
    /// The board acknowledges the block of this number.
    Ack(u32),
    /// The board acknowledges a block, but the number cannot be read.
    Unreadable,
    /// Any other line.
    Other,
}

/// The character has Unicode's property White_Space.
pub open spec fn is_white_space(c: char) -> bool {
    let code = c as u32;
    ||| 0x09 <= code <= 0x0d
    ||| code == 0x20
    ||| code == 0x85
    ||| code == 0xa0
    ||| code == 0x1680
    ||| 0x2000 <= code <= 0x200a
    ||| code == 0x2028
    ||| code == 0x2029
    ||| code == 0x202f
    ||| code == 0x205f
    ||| code == 0x3000
}

/// The text without the white space at its end.
pub open spec fn trimmed(text: Seq<char>) -> Seq<char>
    decreases text.len(),
{
    if text.len() > 0 && is_white_space(text.last()) {
        trimmed(text.drop_last())
    } else {
        text
    }
}

/// The value of a decimal digit: the characters from `0` to `9` have the
/// codes from 0x30 to 0x39.
pub open spec fn digit_value(c: char) -> Option<int> {
    let code = c as u32;
    if 0x30 <= code <= 0x39 {
        Some(code - 0x30)
    } else {
        None
    }
}

/// The number that a text of one or more decimal digits writes.
pub open spec fn decimal(text: Seq<char>) -> Option<int>
    decreases text.len(),
{
    if text.len() == 0 {
        None
    } else if text.len() == 1 {
        digit_value(text[0])
    } else {
        match (decimal(text.drop_last()), digit_value(text.last())) {
            (Some(front), Some(digit)) => Some(10 * front + digit),
            _ => None,
        }
    }
}

/// The number that a text writes in decimal digits, after a plus sign or
/// none, if it is at most `u32::MAX`.
pub open spec fn parse_u32(text: Seq<char>) -> Option<u32> {
    let digits = if text.len() > 0 && text[0] == '+' {
        text.skip(1)
    } else {
        text
    };
    match decimal(digits) {
        Some(number) => if number <= u32::MAX {
            Some(number as u32)
        } else {
            None
        },
        None => None,
    }
}

/// What a line says, given the digits that the pattern of an
/// acknowledgement captures in it.
pub open spec fn cue_of(line: Seq<char>, digits: Option<Seq<char>>) -> Cue {
    if !LINE_PREFIX@.is_prefix_of(line) {
        Cue::Other
    } else if line == READY_LINE@ {
        Cue::Ready
    } else {
        match digits {
            Some(text) => match parse_u32(text) {
                Some(number) => Cue::Ack(number),
                None => Cue::Unreadable,
            },
            None => Cue::Other,
        }
    }
}

/// What a regular expression's first group captures in the leftmost match in
/// a text; nothing where the text has no match, the group took no part in
/// it, or the pattern is not a regular expression.
pub uninterp spec fn regex_group(pattern: Seq<char>, haystack: Seq<char>) -> Option<Seq<char>>;

/// Compiles the pattern with `regex::Regex::new`, searches the text with
/// `Regex::captures` and hands back the text of group 1 (`Captures::get`,
/// `Match::as_str`). The result is a function of the pattern and the text
/// alone; the contract gives it its name and claims nothing more.
#[verifier::external_body]
fn first_capture(pattern: &str, haystack: &str) -> (found: Option<String>)
    ensures
        match found {
            Some(text) => regex_group(pattern@, haystack@) == Some(text@),
            None => regex_group(pattern@, haystack@).is_none(),
        },
{
    let regex = Regex::new(pattern).ok()?;
    let captures = regex.captures(haystack)?;
    let group = captures.get(1)?;
    Some(group.as_str().to_string())
}

/// The characters of a string, in order.
pub fn chars_of(text: &str) -> (chars: Vec<char>)
    ensures
        chars@ == text@,
{
    broadcast use vstd::string::group_string_axioms;

    let mut chars: Vec<char> = Vec::new();
    for c in it: text.chars()
        invariant
            it.seq() == text@,
            chars@ == text@.take(it.index() as int),
    {
        chars.push(c);
    }
    chars
}

/// Whether the character is white space.
pub fn white_space(c: char) -> (white: bool)
    ensures
        white == is_white_space(c),
{
    let code: u32 = c as u32;
    (0x09 <= code && code <= 0x0d) || code == 0x20 || code == 0x85 || code == 0xa0 || code
        == 0x1680 || (0x2000 <= code && code <= 0x200a) || code == 0x2028 || code == 0x2029 || code
        == 0x202f || code == 0x205f || code == 0x3000
}

/// The line without the white space at its end.
pub fn trim_end<'a>(text: &'a str) -> (line: &'a str)
    ensures
        line@ == trimmed(text@),
{
    let chars = chars_of(text);
    let mut end: usize = chars.len();
    assert(text@.take(end as int) =~= text@);
    while end > 0 && white_space(chars[end - 1])
        invariant
            end <= chars.len(),
            chars@ == text@,
            trimmed(text@) == trimmed(text@.take(end as int)),
        decreases end,
    {
        assert(text@.take(end as int).drop_last() =~= text@.take(end - 1));
        end -= 1;
    }
    text.substring_char(0, end)
}

/// A text that writes a number holds decimal digits only.
proof fn lemma_decimal_digits(text: Seq<char>, i: int)
    requires
        decimal(text).is_some(),
        0 <= i < text.len(),
    ensures
        digit_value(text[i]).is_some(),
    decreases text.len(),
{
    if text.len() > 1 && i < text.len() - 1 {
        lemma_decimal_digits(text.drop_last(), i);
    }
}

/// Reads a number in decimal digits, as `str::parse::<u32>` does: the digits
/// may follow a plus sign, and the number is at most `u32::MAX`.
pub fn parse_number(text: &str) -> (number: Option<u32>)
    ensures
        number == parse_u32(text@),
{
    let chars = chars_of(text);
    let start: usize = if chars.len() > 0 && chars[0] == '+' {
        1
    } else {
        0
    };
    let ghost digits = text@.skip(start as int);
    assert(text@.skip(0) =~= text@);
    let mut value: u64 = 0;
    let mut over = false;
    let mut i: usize = start;
    while i < chars.len()
        invariant
            start <= i <= chars.len(),
            chars@ == text@,
            digits == text@.skip(start as int),
            start == if text@.len() > 0 && text@[0] == '+' {
                1int
            } else {
                0int
            },
            !over ==> value <= u32::MAX,
            i > start ==> decimal(digits.take(i - start)).is_some(),
            i > start && !over ==> decimal(digits.take(i - start)) == Some(value as int),
            i > start && over ==> decimal(digits.take(i - start)).unwrap() > u32::MAX,
            i == start ==> value == 0 && !over,
        decreases chars.len() - i,
    {
        let c: char = chars[i];
        let code: u32 = c as u32;
        if code < 0x30 || code > 0x39 {
            proof {
                if decimal(digits).is_some() {
                    lemma_decimal_digits(digits, i - start);
                }
                assert(text@.skip(0) =~= text@);
            }
            return None;
        }
        let digit: u64 = (code - 0x30) as u64;
        proof {
            assert(digits.take(i - start + 1).drop_last() =~= digits.take(i - start));
        }
        if !over {
            value = value * 10 + digit;
            if value > 0xffff_ffff {
                over = true;
            }
        }
        i += 1;
    }
    proof {
        assert(digits.take(digits.len() as int) =~= digits);
    }
    if i == start || over {
        None
    } else {
        Some(value as u32)
    }
}

/// Whether the first text starts the second.
fn starts(prefix: &Vec<char>, text: &Vec<char>) -> (found: bool)
    ensures
        found == prefix@.is_prefix_of(text@),
{
    if prefix.len() > text.len() {
        return false;
    }
    let mut i: usize = 0;
    while i < prefix.len()
        invariant
            i <= prefix.len() <= text.len(),
            forall|k: int| 0 <= k < i ==> prefix@[k] == text@[k],
        decreases prefix.len() - i,
    {
        if prefix[i] != text[i] {
            return false;
        }
        i += 1;
    }
    true
}

/// What an acknowledgement says, given the digits captured in it.
fn ack_cue(digits: Option<String>) -> (cue: Cue)
    ensures
        cue == match digits {
            Some(text) => match parse_u32(text@) {
                Some(number) => Cue::Ack(number),
                None => Cue::Unreadable,
            },
            None => Cue::Other,
        },
{
    match digits {
        Some(text) => match parse_number(text.as_str()) {
            Some(number) => Cue::Ack(number),
            None => Cue::Unreadable,
        },
        None => Cue::Other,
    }
}

/// The view of the captured digits.
pub open spec fn captured(digits: Option<String>) -> Option<Seq<char>> {
    match digits {
        Some(text) => Some(text@),
        None => None,
    }
}

/// What a line without white space at its end says, given the digits that
/// the pattern of an acknowledgement captures in it.
pub fn classify(line: &str, digits: Option<String>) -> (cue: Cue)
    ensures
        cue == cue_of(line@, captured(digits)),
{
    let chars = chars_of(line);
    let prefix = chars_of(LINE_PREFIX);
    let ready = chars_of(READY_LINE);
    if !starts(&prefix, &chars) {
        Cue::Other
    } else if chars.len() == ready.len() && starts(&ready, &chars) {
        assert(chars@ =~= ready@);
        Cue::Ready
    } else {
        ack_cue(digits)
    }
}

/// What a line of the board says. White space at its end does not count.
pub fn read_cue(raw: &str) -> (cue: Cue)
    ensures
        cue == cue_of(trimmed(raw@), regex_group(ACK_PATTERN@, trimmed(raw@))),
{
    let line = trim_end(raw);
    let chars = chars_of(line);
    let prefix = chars_of(LINE_PREFIX);
    let ready = chars_of(READY_LINE);
    if !starts(&prefix, &chars) {
        Cue::Other
    } else if chars.len() == ready.len() && starts(&ready, &chars) {
        assert(chars@ =~= ready@);
        Cue::Ready
    } else {
        classify(line, first_capture(ACK_PATTERN, line))
    }
}

/// Trimming cuts white space from the end of a text and nothing else: what
/// is left starts the text and does not end in white space, and all that was
/// cut is white space.
pub proof fn lemma_trimmed(text: Seq<char>)
    ensures
        trimmed(text).is_prefix_of(text),
        trimmed(text).len() > 0 ==> !is_white_space(trimmed(text).last()),
        forall|i: int| trimmed(text).len() <= i < text.len() ==> is_white_space(text[i]),
    decreases text.len(),
{
    if text.len() > 0 && is_white_space(text.last()) {
        let front = text.drop_last();
        lemma_trimmed(front);
        assert forall|i: int| trimmed(text).len() <= i < text.len() implies is_white_space(
            text[i],
        ) by {
            if i < front.len() {
                assert(text[i] == front[i]);
            }
        }
    }
}

/// The line by which the board says that it is idle is read as that cue,
/// whatever the pattern of an acknowledgement finds in it.
pub proof fn lemma_ready_cue(digits: Option<Seq<char>>)
    ensures
        cue_of(READY_LINE@, digits) == Cue::Ready,
{
    reveal_strlit("CL STATUS=READY");
    reveal_strlit("CL ");
}

} // verus!
