//! Workers that count aloud: each prints one line per step and rests between
//! steps.

use vstd::prelude::*;

use crate::text::decimal;
use crate::text::decimal_text;
use crate::text::with_prefix;

verus! {

/// How many lines a counting worker prints.
pub const STEPS: i32 = 10;

/// How long a counting worker rests after each line, in milliseconds.
pub const STEP_PAUSE_MILLIS: u64 = 10;

/// Name of the first counting worker.
pub const FIRST: &'static str = "First";

/// Name of the second counting worker.
pub const SECOND: &'static str = "Second";

/// The text that is handed over to a worker of its own.
pub const MOVED_TEXT: &'static str = "moved string";

/// The line that the worker called `label` prints at step `step`.
pub open spec fn count_line_text(label: Seq<char>, step: int) -> Seq<char> {
    label + " thread i: "@ + decimal_text(step)
}

/// Builds the line that the worker called `label` prints at step `step`.
pub fn count_line(label: &str, step: i32) -> (line: String)
    ensures
        line@ == count_line_text(label@, step as int),
{
    let mut line = String::from_str(label);
    line.append(" thread i: ");
    let number = decimal(step);
    line.append(number.as_str());
    line
}

/// Builds every line that the worker called `label` prints, in the order in
/// which it prints them: one for each step from zero up to, not including,
/// [`STEPS`].
pub fn count_lines(label: &str) -> (lines: Vec<String>)
    ensures
        lines@.len() == STEPS,
        forall|step: int|
            0 <= step < STEPS ==> (#[trigger] lines@[step])@ == count_line_text(label@, step),
{
    let mut lines: Vec<String> = Vec::new();
    let mut step: i32 = 0;
    while step < STEPS
        invariant
            0 <= step <= STEPS,
            lines@.len() == step,
            forall|k: int|
                0 <= k < step ==> (#[trigger] lines@[k])@ == count_line_text(label@, k),
        decreases STEPS - step,
    {
        lines.push(count_line(label, step));
        step = step + 1;
    }
    lines
}

/// Builds the line that shows a text which was moved into a worker.
pub fn moved_line(value: &str) -> (line: String)
    ensures
        line@ == "my_str: "@ + value@,
{
    with_prefix("my_str: ", value)
}

} // verus!
