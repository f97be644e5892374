//! What a sample turns into: the report it is classified as, and the exact
//! text of the line that carries a report over the serial link.

use crate::ops::{Event, Report, Variant};
use vstd::prelude::*;
use vstd::string::*;

verus! {

/// The decimal digit for `d`, which is below ten.
pub open spec fn digit_char(d: nat) -> char
    recommends
        d < 10,
{
    if d == 0 {
        '0'
    } else if d == 1 {
        '1'
    } else if d == 2 {
        '2'
    } else if d == 3 {
        '3'
    } else if d == 4 {
        '4'
    } else if d == 5 {
        '5'
    } else if d == 6 {
        '6'
    } else if d == 7 {
        '7'
    } else if d == 8 {
        '8'
    } else {
        '9'
    }
}

/// `n` written in base ten, most significant digit first, without padding.
pub open spec fn decimal(n: nat) -> Seq<char>
    decreases n,
{
    if n < 10 {
        seq![digit_char(n)]
    } else {
        decimal(n / 10).push(digit_char(n % 10))
    }
}

/// The line that carries `report`, terminator included.
pub open spec fn line_text(report: Report) -> Seq<char> {
    match report {
        Report::Starting => "starting\r\n"@,
        Report::Pass => "OK\r\n"@,
        Report::Fail => "BUG\r\n"@,
        Report::Reading(n) => "value: "@ + decimal(n as nat) + "\r\n"@,
    }
}

/// A well-formed line of the serial stream: plain ASCII, ended by a carriage
/// return and a line feed, with neither of the two anywhere before.
pub open spec fn is_framed_line(text: Seq<char>) -> bool {
    &&& text.len() >= 2
    &&& text[text.len() - 2] == '\r'
    &&& text[text.len() - 1] == '\n'
    &&& forall|i: int| 0 <= i < text.len() - 2 ==> (#[trigger] text[i]) != '\r' && text[i] != '\n'
    &&& forall|i: int| 0 <= i < text.len() ==> '\0' <= (#[trigger] text[i]) <= '\u{7f}'
}

/// The report that a sample gives rise to: pass or fail for a digital level,
/// the raw value for an analog reading. An event that is not the sample the
/// variant watches gives none.
pub open spec fn report_of(variant: Variant, event: Event) -> Option<Report> {
    match (variant, event) {
        (Variant::Digital, Event::Level(high)) => Some(
            if high {
                Report::Pass
            } else {
                Report::Fail
            },
        ),
        (Variant::Analog, Event::Reading(n)) => Some(Report::Reading(n)),
        _ => None,
    }
}

/// Classifies the outcome of a sampling operation.
///
/// The result depends on the variant and the event alone: the same sample
/// always yields the same report.
pub fn classify(variant: Variant, event: Event) -> (report: Option<Report>)
    ensures
        report == report_of(variant, event),
{
    match variant {
        Variant::Digital => match event {
            Event::Level(high) => if high {
                Some(Report::Pass)
            } else {
                Some(Report::Fail)
            },
            _ => None,
        },
        Variant::Analog => match event {
            Event::Reading(n) => Some(Report::Reading(n)),
            _ => None,
        },
    }
}

fn digit_str(d: u16) -> (s: &'static str)
    requires
        d < 10,
    ensures
        s@ == seq![digit_char(d as nat)],
{
    proof {
        reveal_strlit("0");
        reveal_strlit("1");
        reveal_strlit("2");
        reveal_strlit("3");
        reveal_strlit("4");
        reveal_strlit("5");
        reveal_strlit("6");
        reveal_strlit("7");
        reveal_strlit("8");
        reveal_strlit("9");
    }
    let s = if d == 0 {
        "0"
    } else if d == 1 {
        "1"
    } else if d == 2 {
        "2"
    } else if d == 3 {
        "3"
    } else if d == 4 {
        "4"
    } else if d == 5 {
        "5"
    } else if d == 6 {
        "6"
    } else if d == 7 {
        "7"
    } else if d == 8 {
        "8"
    } else {
        "9"
    };
    assert(s@ =~= seq![digit_char(d as nat)]);
    s
}

fn append_decimal(text: &mut String, n: u16)
    ensures
        final(text)@ == old(text)@ + decimal(n as nat),
    decreases n,
{
    if n >= 10 {
        append_decimal(text, n / 10);
    }
    text.append(digit_str(n % 10));
    assert(text@ =~= old(text)@ + decimal(n as nat));
}

/// Renders the line that carries `report`.
pub fn render(report: Report) -> (text: String)
    ensures
        text@ == line_text(report),
{
    match report {
        Report::Starting => String::from_str("starting\r\n"),
        Report::Pass => String::from_str("OK\r\n"),
        Report::Fail => String::from_str("BUG\r\n"),
        Report::Reading(n) => {
            let mut text = String::from_str("value: ");
            append_decimal(&mut text, n);
            text.append("\r\n");
            text
        },
    }
}

} // verus!
