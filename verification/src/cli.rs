//! The command line: an optional port to listen on.

use vstd::prelude::*;
use vstd::string::*;
use crate::text::chars_of;

verus! {

/// The port that is listened on when none is given.
pub const DEFAULT_PORT: u16 = 9000;

/// The ways in which a command line is refused.
#[derive(Clone, Copy, Debug, PartialEq, Eq, Structural)]
pub enum CliError {
    /// The argument is no port number.
    BadPort,
    /// There are more arguments than the one port.
    Usage,
}

/// Whether `c` is a decimal digit.
pub open spec fn is_digit(c: char) -> bool {
    '0' <= c <= '9'
}

/// The number that a decimal digit stands for.
pub open spec fn digit_value(c: char) -> nat {
    (c as u32 - '0' as u32) as nat
}

/// Every character of `s` is a decimal digit.
pub open spec fn all_digits(s: Seq<char>) -> bool {
    forall|i: int| 0 <= i < s.len() ==> is_digit(#[trigger] s[i])
}

/// The number that a run of decimal digits stands for.
pub open spec fn digits_value(s: Seq<char>) -> nat
    decreases s.len(),
{
    if s.len() == 0 {
        0
    } else {
        digits_value(s.drop_last()) * 10 + digit_value(s.last())
    }
}

/// The text without the plus sign that may stand at its front.
pub open spec fn unsigned_part(s: Seq<char>) -> Seq<char> {
    if s.len() > 0 && s[0] == '+' {
        s.drop_first()
    } else {
        s
    }
}

/// The port that a text names: an optional plus sign and then one or more
/// decimal digits, and nothing else, whose number is at most 65535.
pub open spec fn parse_port_spec(s: Seq<char>) -> Option<u16> {
    let digits = unsigned_part(s);
    if digits.len() > 0 && all_digits(digits) && digits_value(digits) <= u16::MAX {
        Some(digits_value(digits) as u16)
    } else {
        None
    }
}

/// The port that a command line selects. The first argument is the program's
/// own name; alone it selects the default port, and with one more argument
/// the port that this names.
pub open spec fn select_port_spec(args: Seq<Seq<char>>) -> Result<u16, CliError> {
    if args.len() == 1 {
        Ok(DEFAULT_PORT)
    } else if args.len() == 2 {
        match parse_port_spec(args[1]) {
            Some(port) => Ok(port),
            None => Err(CliError::BadPort),
        }
    } else {
        Err(CliError::Usage)
    }
}

/// The text shown for a refused command line.
pub open spec fn cli_message_spec(error: CliError) -> Seq<char> {
    match error {
        CliError::BadPort => "Could not parse port"@,
        CliError::Usage => "Not enough arguments"@,
    }
}

/// A run of digits is worth at least as much as any of its beginnings.
proof fn lemma_digits_value_grows(s: Seq<char>, k: int)
    requires
        0 <= k <= s.len(),
    ensures
        digits_value(s.take(k)) <= digits_value(s),
    decreases s.len() - k,
{
    if k == s.len() {
        assert(s.take(k) =~= s);
    } else {
        lemma_digits_value_grows(s, k + 1);
        assert(s.take(k + 1).drop_last() =~= s.take(k));
    }
}

/// The port that `text` names, if it names one.
pub fn parse_port(text: &str) -> (port: Option<u16>)
    ensures
        port == parse_port_spec(text@),
{
    let chars = chars_of(text);
    let start: usize = if chars.len() > 0 && chars[0] == '+' {
        1
    } else {
        0
    };
    let ghost digits = unsigned_part(text@);
    assert(digits =~= text@.subrange(start as int, text@.len() as int));
    if start == chars.len() {
        return None;
    }
    let mut value: u32 = 0;
    let mut i: usize = start;
    proof {
        assert(digits.take(0) =~= Seq::<char>::empty());
    }
    while i < chars.len()
        invariant
            start <= i <= chars.len(),
            chars@ == text@,
            digits == text@.subrange(start as int, text@.len() as int),
            digits == unsigned_part(text@),
            value <= u16::MAX,
            value == digits_value(digits.take(i - start)),
            all_digits(digits.take(i - start)),
        decreases chars.len() - i,
    {
        let c = chars[i];
        assert(digits[i - start] == c);
        if c < '0' || c > '9' {
            assert(!is_digit(digits[i - start]));
            return None;
        }
        let digit: u32 = c as u32 - '0' as u32;
        proof {
            let longer = digits.take(i - start + 1);
            assert(longer.drop_last() =~= digits.take(i - start));
            assert(longer.last() == c);
            assert forall|j: int| 0 <= j < longer.len() implies is_digit(#[trigger] longer[j]) by {
                if j < longer.len() - 1 {
                    assert(longer[j] == digits.take(i - start)[j]);
                }
            }
            lemma_digits_value_grows(digits, i - start + 1);
            assert(digit == digit_value(c));
            assert(digits_value(longer) == value * 10 + digit);
        }
        value = value * 10 + digit;
        if value > 65535 {
            return None;
        }
        i += 1;
    }
    proof {
        assert(digits.take(i - start) =~= digits);
    }
    Some(value as u16)
}

/// The port that a command line selects, or the reason why it is refused.
pub fn select_port(args: &Vec<String>) -> (port: Result<u16, CliError>)
    ensures
        port == select_port_spec(args.deep_view()),
{
    if args.len() == 1 {
        Ok(DEFAULT_PORT)
    } else if args.len() == 2 {
        assert(args.deep_view()[1] == args[1]@);
        match parse_port(args[1].as_str()) {
            Some(port) => Ok(port),
            None => Err(CliError::BadPort),
        }
    } else {
        Err(CliError::Usage)
    }
}

/// The text shown for a refused command line.
pub fn cli_message(error: CliError) -> (text: String)
    ensures
        text@ == cli_message_spec(error),
{
    match error {
        CliError::BadPort => String::from_str("Could not parse port"),
        CliError::Usage => String::from_str("Not enough arguments"),
    }
}

/// The help shown for a command line with too many arguments.
pub fn usage_text() -> (text: String)
    ensures
        text@ == "usage:\nlynx-runner <PORT>\n    Run lynx-runner at PORT"@,
{
    String::from_str("usage:\nlynx-runner <PORT>\n    Run lynx-runner at PORT")
}

} // verus!
