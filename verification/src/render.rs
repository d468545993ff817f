//! The line that is written to the log for each forwarded message.
//!
//! A payload that is JSON is shown in compact form, any other payload as it
//! is. None of this touches the bytes that are delivered.

use vstd::prelude::*;
use vstd::string::StringExecFns;
use vstd::std_specs::iter::IteratorSpec;
use crate::json::{json_parsed, json_written, parse_json, write_json};

verus! {

/// How a payload is shown: compact JSON where it parses and can be written
/// again, else the payload itself.
pub open spec fn shown(text: Seq<char>) -> Seq<char> {
    match json_parsed(text) {
        Some(value) => match json_written(value) {
            Some(s) => s,
            None => text,
        },
        None => text,
    }
}

/// The log line for a payload shown as `pretty`: identifier in brackets,
/// direction, a bar, and the payload on the same line, or on a line of its
/// own where it spans several.
pub open spec fn log_line(device_id: Seq<char>, direction: Seq<char>, pretty: Seq<char>) -> Seq<char> {
    "["@ + device_id + "] "@ + direction + (if pretty.contains('\n') {
        " |\n"@
    } else {
        " | "@
    }) + pretty
}

/// Whether `text` spans more than one line.
pub fn has_newline(text: &str) -> (r: bool)
    ensures
        r == text@.contains('\n'),
{
    let mut found = false;
    for c in it: text.chars()
        invariant
            it.seq() == text@,
            found == exists|j: int| 0 <= j < it.index() && text@[j] == '\n',
    {
        if c == '\n' {
            found = true;
        }
    }
    found
}

/// How `text` is shown in the log: see [`shown`].
pub fn render(text: &str) -> (pretty: String)
    ensures
        pretty@ == shown(text@),
{
    match parse_json(text) {
        Some(value) => match write_json(&value) {
            Some(s) => s,
            None => String::from_str(text),
        },
        None => String::from_str(text),
    }
}

/// The log line for a payload that is already rendered.
pub fn format_forward(device_id: &str, direction: &str, pretty: &str) -> (line: String)
    ensures
        line@ == log_line(device_id@, direction@, pretty@),
{
    let mut line = String::from_str("[");
    line.append(device_id);
    line.append("] ");
    line.append(direction);
    if has_newline(pretty) {
        line.append(" |\n");
    } else {
        line.append(" | ");
    }
    line.append(pretty);
    line
}

/// The log line for a message forwarded under `device_id` in `direction`.
pub fn log_forward(device_id: &str, direction: &str, text: &str) -> (line: String)
    ensures
        line@ == log_line(device_id@, direction@, shown(text@)),
{
    let pretty = render(text);
    format_forward(device_id, direction, pretty.as_str())
}

} // verus!
