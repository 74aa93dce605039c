//! The JSON that the gateway answers with: an array of date pairs on
//! success, a small object that names the failure otherwise.

use crate::failure::Failure;
use crate::reservations::{DatePair, ReservedDates};
use crate::text::{decimal, digit, digit_char, push_decimal};
use vstd::prelude::*;
use vstd::std_specs::iter::IteratorSpec;
use vstd::string::StringExecFns;

verus! {

/// The lower-case hexadecimal digit of `d`, for `0 <= d <= 15`.
pub open spec fn hex_char(d: int) -> char {
    if d < 10 {
        digit_char(d)
    } else {
        ((d + 87) as u8) as char
    }
}

/// How one character stands inside a JSON string: the quotation mark and the
/// backslash behind a backslash, the control characters by their short
/// escapes or as `\u00XX`, every other character as it is.
pub open spec fn escaped_char(c: char) -> Seq<char> {
    if c == '"' {
        seq!['\\', '"']
    } else if c == '\\' {
        seq!['\\', '\\']
    } else if c == '\u{8}' {
        seq!['\\', 'b']
    } else if c == '\t' {
        seq!['\\', 't']
    } else if c == '\n' {
        seq!['\\', 'n']
    } else if c == '\u{c}' {
        seq!['\\', 'f']
    } else if c == '\r' {
        seq!['\\', 'r']
    } else if (c as u32) < 0x20 {
        seq!['\\', 'u', '0', '0', hex_char((c as u32 / 16) as int), hex_char((c as u32 % 16) as int)]
    } else {
        seq![c]
    }
}

/// The characters of `s`, each as it stands inside a JSON string.
pub open spec fn escaped(s: Seq<char>) -> Seq<char>
    decreases s.len(),
{
    if s.len() == 0 {
        Seq::empty()
    } else {
        escaped(s.drop_last()) + escaped_char(s.last())
    }
}

/// `s` as a JSON string: escaped, between quotation marks.
pub open spec fn json_string(s: Seq<char>) -> Seq<char> {
    seq!['"'] + escaped(s) + seq!['"']
}

/// One pair of dates as a JSON object with the members `start_date` and
/// `end_date`, in that order.
pub open spec fn json_entry(pair: DatePair) -> Seq<char> {
    "{\"start_date\":"@ + json_string(pair.start_date) + ",\"end_date\":"@ + json_string(
        pair.end_date,
    ) + seq!['}']
}

/// The entries one after another, with a comma between each two.
pub open spec fn json_entries(list: Seq<DatePair>) -> Seq<char>
    decreases list.len(),
{
    if list.len() == 0 {
        Seq::empty()
    } else if list.len() == 1 {
        json_entry(list[0])
    } else {
        json_entries(list.drop_last()) + seq![','] + json_entry(list.last())
    }
}

/// The pairs of dates as a JSON array, `[]` for none.
pub open spec fn json_dates(list: Seq<DatePair>) -> Seq<char> {
    seq!['['] + json_entries(list) + seq![']']
}

/// A failure as a JSON object that gives its status and names it.
pub open spec fn json_error(failure: Failure) -> Seq<char> {
    "{\"status\":"@ + decimal(failure.status_code() as nat) + ",\"error\":"@ + json_string(
        failure.message_text(),
    ) + seq!['}']
}

/// Executable form of [`hex_char`].
fn hex_digit(d: u8) -> (c: char)
    requires
        d < 16,
    ensures
        c == hex_char(d as int),
{
    if d < 10 {
        digit(d)
    } else {
        (d + 87) as char
    }
}

/// Appends one character as it stands inside a JSON string.
fn push_escaped_char(out: &mut String, c: char)
    ensures
        final(out)@ == old(out)@ + escaped_char(c),
{
    if c == '"' {
        out.push('\\');
        out.push('"');
    } else if c == '\\' {
        out.push('\\');
        out.push('\\');
    } else if c == '\u{8}' {
        out.push('\\');
        out.push('b');
    } else if c == '\t' {
        out.push('\\');
        out.push('t');
    } else if c == '\n' {
        out.push('\\');
        out.push('n');
    } else if c == '\u{c}' {
        out.push('\\');
        out.push('f');
    } else if c == '\r' {
        out.push('\\');
        out.push('r');
    } else if (c as u32) < 0x20 {
        let code: u8 = c as u32 as u8;
        out.push('\\');
        out.push('u');
        out.push('0');
        out.push('0');
        out.push(hex_digit(code / 16));
        out.push(hex_digit(code % 16));
    } else {
        out.push(c);
    }
    assert(final(out)@ =~= old(out)@ + escaped_char(c));
}

/// Appends `s` as a JSON string.
pub fn push_json_string(out: &mut String, s: &str)
    ensures
        final(out)@ == old(out)@ + json_string(s@),
{
    out.push('"');
    let ghost mut seen: Seq<char> = Seq::empty();
    let mut rest = s.chars();
    loop
        invariant
            seen + rest.remaining() == s@,
            out@ == old(out)@ + seq!['"'] + escaped(seen),
        ensures
            out@ == old(out)@ + seq!['"'] + escaped(s@),
        decreases s@.len() - seen.len(),
    {
        match rest.next() {
            Some(c) => {
                proof {
                    assert(seen.push(c).drop_last() =~= seen);
                    seen = seen.push(c);
                }
                push_escaped_char(out, c);
                assert(out@ =~= old(out)@ + seq!['"'] + escaped(seen));
            },
            None => {
                assert(seen =~= s@);
                break;
            },
        }
    }
    out.push('"');
    assert(final(out)@ =~= old(out)@ + json_string(s@));
}

/// Appends one pair of dates as a JSON object.
fn push_json_entry(out: &mut String, entry: &ReservedDates)
    ensures
        final(out)@ == old(out)@ + json_entry(entry@),
{
    out.append("{\"start_date\":");
    push_json_string(out, entry.start_date.as_str());
    out.append(",\"end_date\":");
    push_json_string(out, entry.end_date.as_str());
    out.push('}');
    assert(final(out)@ =~= old(out)@ + json_entry(entry@));
}

/// Renders the reserved dates as a JSON array of objects.
pub fn render_dates(dates: &Vec<ReservedDates>) -> (body: String)
    ensures
        body@ == json_dates(dates.deep_view()),
{
    let ghost list = dates.deep_view();
    let mut body = String::new();
    body.push('[');
    let mut index: usize = 0;
    assert(list.take(0) =~= Seq::<DatePair>::empty());
    while index < dates.len()
        invariant
            index <= dates@.len(),
            list == dates.deep_view(),
            list.len() == dates@.len(),
            body@ == seq!['['] + json_entries(list.take(index as int)),
        decreases dates@.len() - index,
    {
        let ghost before = list.take(index as int);
        let ghost now = list.take(index + 1);
        assert(now.drop_last() =~= before);
        assert(now.last() == dates@[index as int]@);
        if index > 0 {
            body.push(',');
        }
        push_json_entry(&mut body, &dates[index]);
        assert(body@ =~= seq!['['] + json_entries(now)) by {
            if index == 0 {
                assert(json_entries(before) =~= Seq::<char>::empty());
                assert(now[0] == now.last());
            }
        }
        index = index + 1;
    }
    assert(list.take(index as int) =~= list);
    body.push(']');
    body
}

/// Renders a failure as a JSON object.
pub fn render_error(failure: Failure) -> (body: String)
    ensures
        body@ == json_error(failure),
{
    let mut body = "{\"status\":".to_owned();
    push_decimal(&mut body, failure.status() as u32);
    body.append(",\"error\":");
    push_json_string(&mut body, failure.message());
    body.push('}');
    assert(body@ =~= json_error(failure));
    body
}

} // verus!
