//! Formatting of one flushed batch into aligned lines.

use vstd::prelude::*;
use vstd::string::StringExecFns;
use colored::Colorize;
use crate::event::{Level, LoggingEvent};
use crate::filter::{passes, visible, retained, EventFilter};
use crate::text::{decimal, push_decimal, push_spaces, spaces};

verus! {

/// A duration above this many milliseconds is shown in the warning colour.
pub const SLOW_MILLIS: u128 = 100;

/// Columns that must stay free beside the two segments for the right one to be shown.
pub const MARGIN: usize = 5;

/// `text` between the escape sequence that selects colour `code` and the one
/// that resets all attributes.
pub open spec fn painted(code: Seq<char>, text: Seq<char>) -> Seq<char> {
    "\u{1b}["@ + code + "m"@ + text + "\u{1b}[0m"@
}

/// `text` with its terminal control sequences removed, as bytes.
pub uninterp spec fn stripped(text: Seq<char>) -> Seq<u8>;

/// `ansi_term::Colour::Red.paint`, written out: the text between the
/// sequence for foreground colour 31 and the reset sequence.
#[verifier::external_body]
fn paint_red(text: &str) -> (r: String)
    ensures
        r@ == painted("31"@, text@),
{
    ansi_term::Colour::Red.paint(text).to_string()
}

/// `ansi_term::Colour::Cyan.paint`, written out: the text between the
/// sequence for foreground colour 36 and the reset sequence.
#[verifier::external_body]
fn paint_cyan(text: &str) -> (r: String)
    ensures
        r@ == painted("36"@, text@),
{
    ansi_term::Colour::Cyan.paint(text).to_string()
}

/// `colored::Colorize::red`, written out. Whether the text comes back
/// coloured depends on the environment, so nothing is claimed of it.
#[verifier::external_body]
fn colored_red(text: &str) -> String {
    text.red().to_string()
}

/// `colored::Colorize::yellow`, written out; nothing is claimed of it.
#[verifier::external_body]
fn colored_yellow(text: &str) -> String {
    text.yellow().to_string()
}

/// `colored::Colorize::cyan`, written out; nothing is claimed of it.
#[verifier::external_body]
fn colored_cyan(text: &str) -> String {
    text.cyan().to_string()
}

/// `colored::Colorize::purple`, written out; nothing is claimed of it.
#[verifier::external_body]
fn colored_purple(text: &str) -> String {
    text.purple().to_string()
}

/// `strip_ansi_escapes::strip`: the bytes of the text without its terminal
/// control sequences.
#[verifier::external_body]
fn strip_escapes(text: &str) -> (bytes: Vec<u8>)
    ensures
        bytes@ == stripped(text@),
{
    strip_ansi_escapes::strip(text)
}

/// `termsize::get`: the number of columns of the terminal, where there is one.
#[verifier::external_body]
fn terminal_columns() -> Option<u16> {
    termsize::get().map(|size| size.cols)
}

/// The label of a severity, padded to five columns.
pub open spec fn level_label(level: Level) -> Seq<char> {
    match level {
        Level::Error => "ERROR"@,
        Level::Warn => "WARN "@,
        Level::Info => "INFO "@,
        Level::Debug => "DEBUG"@,
        Level::Trace => "TRACE"@,
    }
}

/// The colour code in which a duration is shown.
pub open spec fn duration_code(elapsed: u128) -> Seq<char> {
    if elapsed > SLOW_MILLIS {
        "31"@
    } else {
        "36"@
    }
}

/// The message of an event, followed by its duration when it has one.
pub open spec fn message_text(event: LoggingEvent) -> Seq<char> {
    match event.elapsed {
        Some(elapsed) => event.args@ + ": "@ + painted(
            duration_code(elapsed),
            decimal(elapsed as nat) + "ms"@,
        ),
        None => event.args@,
    }
}

/// Number of spaces by which an event at `depth` is indented: two for each
/// level below the first.
pub open spec fn indent_width(depth: usize) -> nat {
    if depth >= 1 {
        (2 * (depth - 1)) as nat
    } else {
        0
    }
}

/// The left segment of a line: label, separator, indentation and message.
pub open spec fn left_segment(label: Seq<char>, event: LoggingEvent) -> Seq<char> {
    label + " "@ + spaces(indent_width(event.indentation)) + message_text(event)
}

/// The right segment of a line: the target and the thread tag in brackets.
pub open spec fn right_segment(event: LoggingEvent) -> Seq<char> {
    "["@ + event.target@ + event.thread@ + "]"@
}

/// The line made of the two segments: the right one is pushed to the edge of
/// a terminal of `terminal` columns when both fit with the margin to spare,
/// and is left out otherwise. `width` is the visible width of both together.
pub open spec fn laid_out(left: Seq<char>, right: Seq<char>, width: nat, terminal: nat) -> Seq<
    char,
> {
    if terminal > 0 && width + MARGIN < terminal {
        left + spaces((terminal - width) as nat) + right
    } else {
        left
    }
}

/// The line of `event` under the label `label` on a terminal of `terminal` columns.
pub open spec fn rendered_line(label: Seq<char>, event: LoggingEvent, terminal: nat) -> Seq<char> {
    laid_out(
        left_segment(label, event),
        right_segment(event),
        stripped(left_segment(label, event) + right_segment(event)).len(),
        terminal,
    )
}

/// `line` is the line of `event` under some label, which is the plain label
/// of the event's severity unless colours are on.
pub open spec fn is_line_of(line: Seq<char>, event: LoggingEvent, colors: bool, terminal: nat) -> bool {
    exists|label: Seq<char>|
        (!colors || event.level == Level::Trace ==> label == level_label(event.level))
            && line == #[trigger] rendered_line(label, event, terminal)
}

/// `lines` holds one line for each event of `events`, in order.
pub open spec fn are_lines_of(
    lines: Seq<String>,
    events: Seq<LoggingEvent>,
    colors: bool,
    terminal: nat,
) -> bool {
    &&& lines.len() == events.len()
    &&& forall|i: int|
        0 <= i < lines.len() ==> is_line_of((#[trigger] lines[i])@, events[i], colors, terminal)
}

/// The message of an event with its duration appended, coloured by how long it took.
pub fn get_args(event: &LoggingEvent) -> (r: String)
    ensures
        r@ == message_text(*event),
{
    match event.elapsed {
        Some(elapsed) => {
            let mut time = String::new();
            push_decimal(&mut time, elapsed);
            time.append("ms");
            let shown = if elapsed > SLOW_MILLIS {
                paint_red(time.as_str())
            } else {
                paint_cyan(time.as_str())
            };
            let mut out = event.args.clone();
            out.append(": ");
            out.append(shown.as_str());
            out
        },
        None => event.args.clone(),
    }
}

/// The padded label of a severity, coloured by severity when `colors` is set.
pub fn get_level_string(colors: bool, level: Level) -> (r: String)
    ensures
        !colors || level == Level::Trace ==> r@ == level_label(level),
{
    let plain: &'static str = match level {
        Level::Error => "ERROR",
        Level::Warn => "WARN ",
        Level::Info => "INFO ",
        Level::Debug => "DEBUG",
        Level::Trace => "TRACE",
    };
    if colors {
        match level {
            Level::Error => colored_red(plain),
            Level::Warn => colored_yellow(plain),
            Level::Info => colored_cyan(plain),
            Level::Debug => colored_purple(plain),
            Level::Trace => String::from_str(plain),
        }
    } else {
        String::from_str(plain)
    }
}

/// Joins the two segments of a line for a terminal of `terminal` columns,
/// given the visible width of both together.
pub fn lay_out(left: String, right: &str, width: usize, terminal: usize) -> (r: String)
    ensures
        r@ == laid_out(left@, right@, width as nat, terminal as nat),
{
    if terminal > MARGIN && width < terminal - MARGIN {
        let mut out = left;
        push_spaces(&mut out, terminal - width);
        out.append(right);
        out
    } else {
        left
    }
}

/// Renders one event under the given label.
pub fn render_event(label: &str, event: &LoggingEvent, terminal: usize) -> (r: String)
    ensures
        r@ == rendered_line(label@, *event, terminal as nat),
{
    let mut left = String::from_str(label);
    left.append(" ");
    if event.indentation >= 1 {
        let steps: usize = event.indentation - 1;
        push_spaces(&mut left, steps);
        push_spaces(&mut left, steps);
        assert(spaces(steps as nat) + spaces(steps as nat) =~= spaces(
            indent_width(event.indentation),
        ));
        assert(left@ =~= label@ + " "@ + spaces(indent_width(event.indentation)));
    } else {
        assert(left@ =~= label@ + " "@ + spaces(indent_width(event.indentation)));
    }
    let text = get_args(event);
    left.append(text.as_str());

    let mut right = String::from_str("[");
    right.append(event.target.as_str());
    right.append(event.thread.as_str());
    right.append("]");

    let mut both = left.clone();
    both.append(right.as_str());
    let width: usize = strip_escapes(both.as_str()).len();
    lay_out(left, right.as_str(), width, terminal)
}

/// Renders a flushed batch for a terminal of `terminal` columns: one line for
/// each event that the filter lets through, in order, and nothing at all when
/// the batch is not shown.
pub fn render_batch<P: EventFilter>(
    batch: &Vec<LoggingEvent>,
    filter: &P,
    colors: bool,
    terminal: usize,
) -> (lines: Vec<String>)
    ensures
        are_lines_of(lines@, visible(batch@, *filter), colors, terminal as nat),
{
    let mut lines: Vec<String> = Vec::new();
    if !passes(batch, filter) {
        return lines;
    }
    let n: usize = batch.len();
    let mut i: usize = 0;
    assert(batch@.take(0) =~= Seq::<LoggingEvent>::empty());
    while i < n
        invariant
            i <= n,
            n == batch.len(),
            lines@.len() == retained(batch@.take(i as int), *filter).len(),
            forall|k: int|
                0 <= k < lines@.len() ==> is_line_of(
                    (#[trigger] lines@[k])@,
                    retained(batch@.take(i as int), *filter)[k],
                    colors,
                    terminal as nat,
                ),
        decreases n - i,
    {
        let event = &batch[i];
        proof {
            assert(batch@.take(i + 1).drop_last() =~= batch@.take(i as int));
            assert(batch@.take(i + 1).last() == batch@[i as int]);
        }
        if filter.keep(event) {
            let label = get_level_string(colors, event.level);
            let line = render_event(label.as_str(), event, terminal);
            lines.push(line);
        }
        i = i + 1;
    }
    assert(batch@.take(n as int) =~= batch@);
    lines
}

/// Renders a flushed batch for the terminal that the process writes to. Where
/// no terminal width can be had, every line consists of its left segment only.
pub fn print_data<P: EventFilter>(batch: &Vec<LoggingEvent>, filter: &P, colors: bool) -> (lines:
    Vec<String>)
    ensures
        lines@.len() == visible(batch@, *filter).len(),
        exists|terminal: nat| #[trigger]
            are_lines_of(lines@, visible(batch@, *filter), colors, terminal),
{
    let terminal: usize = match terminal_columns() {
        Some(cols) => cols as usize,
        None => 0,
    };
    let lines = render_batch(batch, filter, colors, terminal);
    assert(are_lines_of(lines@, visible(batch@, *filter), colors, terminal as nat));
    lines
}

} // verus!
