//! The lines that a scan prints: findings, warnings and the closing summary.

use vstd::prelude::*;
use vstd::string::*;

verus! {

/// The text of each line, in order.
pub open spec fn texts(lines: Seq<String>) -> Seq<Seq<char>> {
    lines.map_values(|line: String| line@)
}

/// The line that reports a repeated state `name` of the icon at `path`.
///
/// With `annotate` the line is an error annotation that carries the file and a
/// title before the message; without it, the message alone.
pub open spec fn duplicate_line(path: Seq<char>, name: Seq<char>, annotate: bool) -> Seq<char> {
    if annotate {
        "::error file="@ + path + ",title=Duplicate Icon State::Duplicate state in "@ + path
            + " : "@ + name
    } else {
        "Duplicate state in "@ + path + " : "@ + name
    }
}

/// The line that warns of a file at `path` that is no well-formed icon.
pub open spec fn unparsed_line(path: Seq<char>, cause: Seq<char>, annotate: bool) -> Seq<char> {
    if annotate {
        "::error file="@ + path + ",title=Weird DMI format::Couldn't read DMI at "@ + path
            + " : "@ + cause
    } else {
        "Couldn't read DMI at "@ + path + " : "@ + cause
    }
}

/// The line that warns of a file at `path` that could not be opened.
pub open spec fn unopened_line(path: Seq<char>, cause: Seq<char>) -> Seq<char> {
    "Couldn't read file at "@ + path + " : "@ + cause
}

/// The line that warns of a directory entry that could not be resolved.
pub open spec fn unresolved_line(cause: Seq<char>) -> Seq<char> {
    "Couldn't read path:"@ + cause
}

/// The decimal digit `d`, as a character.
pub open spec fn digit_char(d: nat) -> char
    recommends
        d < 10,
{
    if d == 0 {
        '0'
    } else if d == 1 {
        '1'
    } else if d == 2 {
        '2'
    } else if d == 3 {
        '3'
    } else if d == 4 {
        '4'
    } else if d == 5 {
        '5'
    } else if d == 6 {
        '6'
    } else if d == 7 {
        '7'
    } else if d == 8 {
        '8'
    } else {
        '9'
    }
}

/// The decimal digits of `n`, most significant first, without leading zeros.
pub open spec fn decimal(n: nat) -> Seq<char>
    decreases n,
{
    if n < 10 {
        seq![digit_char(n)]
    } else {
        decimal(n / 10).push(digit_char(n % 10))
    }
}

/// The decimal form of a whole number, with a minus sign where it is negative.
pub open spec fn signed_decimal(n: int) -> Seq<char> {
    if n < 0 {
        seq!['-'] + decimal((-n) as nat)
    } else {
        decimal(n as nat)
    }
}

/// The line that closes a scan which found `total` duplicates.
pub open spec fn summary_line(total: int) -> Seq<char> {
    "Complete, "@ + signed_decimal(total) + " duplicates found."@
}

/// Formats the report of a repeated state.
pub fn format_duplicate(path: &str, name: &str, annotate: bool) -> (line: String)
    ensures
        line@ == duplicate_line(path@, name@, annotate),
{
    if annotate {
        let mut line = String::from_str("::error file=");
        line.append(path);
        line.append(",title=Duplicate Icon State::Duplicate state in ");
        line.append(path);
        line.append(" : ");
        line.append(name);
        line
    } else {
        let mut line = String::from_str("Duplicate state in ");
        line.append(path);
        line.append(" : ");
        line.append(name);
        line
    }
}

/// Formats the warning for a file that is no well-formed icon.
pub fn format_unparsed(path: &str, cause: &str, annotate: bool) -> (line: String)
    ensures
        line@ == unparsed_line(path@, cause@, annotate),
{
    if annotate {
        let mut line = String::from_str("::error file=");
        line.append(path);
        line.append(",title=Weird DMI format::Couldn't read DMI at ");
        line.append(path);
        line.append(" : ");
        line.append(cause);
        line
    } else {
        let mut line = String::from_str("Couldn't read DMI at ");
        line.append(path);
        line.append(" : ");
        line.append(cause);
        line
    }
}

/// Formats the warning for a file that could not be opened.
pub fn format_unopened(path: &str, cause: &str) -> (line: String)
    ensures
        line@ == unopened_line(path@, cause@),
{
    let mut line = String::from_str("Couldn't read file at ");
    line.append(path);
    line.append(" : ");
    line.append(cause);
    line
}

/// Formats the warning for a directory entry that could not be resolved.
pub fn format_unresolved(cause: &str) -> (line: String)
    ensures
        line@ == unresolved_line(cause@),
{
    let mut line = String::from_str("Couldn't read path:");
    line.append(cause);
    line
}

/// The one-character text of a decimal digit.
fn digit_text(d: u64) -> (text: &'static str)
    requires
        d < 10,
    ensures
        text@ == seq![digit_char(d as nat)],
{
    proof {
        reveal_strlit("0");
        reveal_strlit("1");
        reveal_strlit("2");
        reveal_strlit("3");
        reveal_strlit("4");
        reveal_strlit("5");
        reveal_strlit("6");
        reveal_strlit("7");
        reveal_strlit("8");
        reveal_strlit("9");
    }
    let text = if d == 0 {
        "0"
    } else if d == 1 {
        "1"
    } else if d == 2 {
        "2"
    } else if d == 3 {
        "3"
    } else if d == 4 {
        "4"
    } else if d == 5 {
        "5"
    } else if d == 6 {
        "6"
    } else if d == 7 {
        "7"
    } else if d == 8 {
        "8"
    } else {
        "9"
    };
    assert(text@ =~= seq![digit_char(d as nat)]);
    text
}

/// Writes `n` in decimal.
pub fn format_decimal(n: u64) -> (digits: String)
    ensures
        digits@ == decimal(n as nat),
    decreases n,
{
    if n < 10 {
        String::from_str(digit_text(n))
    } else {
        let mut digits = format_decimal(n / 10);
        digits.append(digit_text(n % 10));
        assert(digits@ =~= decimal(n as nat));
        digits
    }
}

/// Formats the line that closes a scan.
pub fn format_summary(total: i32) -> (line: String)
    ensures
        line@ == summary_line(total as int),
{
    let mut line = String::from_str("Complete, ");
    let ghost head = line@;
    if total < 0 {
        let magnitude: u64 = (-(total as i64)) as u64;
        let digits = format_decimal(magnitude);
        proof {
            reveal_strlit("-");
        }
        line.append("-");
        line.append(digits.as_str());
        assert(line@ =~= head + signed_decimal(total as int));
    } else {
        let digits = format_decimal(total as u64);
        line.append(digits.as_str());
    }
    line.append(" duplicates found.");
    line
}

} // verus!
