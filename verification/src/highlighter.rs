//! Source snippets for diagnostics: the lines that a span touches, with the span
//! itself marked by a colour.

use vstd::prelude::*;
use vstd::string::*;
use crate::text::{chars_of, decimal, decimal_text};

verus! {

/// The escape sequence that starts red, underlined text.
pub open spec fn spec_red_underscore() -> Seq<char> {
    "\x1b[4m\x1b[31m"@
}

/// The escape sequence that starts yellow, underlined text.
pub open spec fn spec_yellow_underscore() -> Seq<char> {
    "\x1b[4m\x1b[33m"@
}

/// The escape sequence that ends coloured text.
pub open spec fn spec_reset() -> Seq<char> {
    "\x1b[0m"@
}

/// The line that opens and closes a snippet.
pub open spec fn margin() -> Seq<char> {
    "    |\n"@
}

/// How many line breaks stand before `position`.
pub open spec fn newlines_before(text: Seq<char>, position: int) -> nat
    decreases position,
{
    if position <= 0 || position > text.len() {
        0
    } else {
        newlines_before(text, position - 1) + if text[position - 1] == '\n' {
            1nat
        } else {
            0nat
        }
    }
}

/// Where the line of `position` starts: after the last line break before `position`.
pub open spec fn line_start(text: Seq<char>, position: int) -> int
    decreases position,
{
    if position <= 0 || position > text.len() {
        0
    } else if text[position - 1] == '\n' {
        position
    } else {
        line_start(text, position - 1)
    }
}

/// Where the line of `position` stops: at the first line break at or after `position`,
/// or at the end of the text.
pub open spec fn line_stop(text: Seq<char>, position: int) -> int
    decreases text.len() - position,
{
    if position < 0 || position >= text.len() {
        text.len() as int
    } else if text[position] == '\n' {
        position
    } else {
        line_stop(text, position + 1)
    }
}

/// What opens the line with that number.
pub open spec fn line_prefix(number: nat) -> Seq<char> {
    "  "@ + decimal(number) + " | "@
}

/// What the character at `position` becomes in a snippet that marks the positions from
/// `start` to `end`: a line break also opens the next line, a marked character stands
/// between the colour and the reset, any other stands for itself.
pub open spec fn piece(
    text: Seq<char>,
    position: int,
    start: int,
    end: int,
    color: Seq<char>,
) -> Seq<char> {
    if text[position] == '\n' {
        seq!['\n'] + line_prefix(newlines_before(text, position) + 2)
    } else if start <= position <= end {
        color + seq![text[position]] + spec_reset()
    } else {
        seq![text[position]]
    }
}

/// What the characters from `from` up to `upto` become in a snippet.
pub open spec fn pieces(
    text: Seq<char>,
    from: int,
    upto: int,
    start: int,
    end: int,
    color: Seq<char>,
) -> Seq<char>
    decreases upto - from,
{
    if upto <= from {
        Seq::empty()
    } else {
        pieces(text, from, upto - 1, start, end, color) + piece(text, upto - 1, start, end, color)
    }
}

/// `bound`, or the length of the text where that is less.
pub open spec fn within(text: Seq<char>, bound: int) -> int {
    if text.len() > bound {
        bound
    } else {
        text.len() as int
    }
}

/// The snippet of `text` for the span from `start` to `end`: between two margin lines,
/// the lines from the one that holds `start` to the one that holds `end`, each behind
/// its number, with the characters of the span in `color`.
pub open spec fn snippet(text: Seq<char>, start: int, end: int, color: Seq<char>) -> Seq<char> {
    let last = within(text, end);
    let first = line_start(text, within(text, start));
    margin() + line_prefix(newlines_before(text, first) + 1) + pieces(
        text,
        first,
        line_stop(text, last),
        start,
        last,
        color,
    ) + seq!['\n'] + margin()
}

pub fn red_underscore() -> (color: &'static str)
    ensures
        color@ == spec_red_underscore(),
{
    "\x1b[4m\x1b[31m"
}

pub fn yellow_underscore() -> (color: &'static str)
    ensures
        color@ == spec_yellow_underscore(),
{
    "\x1b[4m\x1b[33m"
}

pub fn reset() -> (color: &'static str)
    ensures
        color@ == spec_reset(),
{
    "\x1b[0m"
}

/// The snippet for an error: the span is red.
pub fn highlight_error(haystack: &str, slice_start: usize, slice_end: usize) -> (out: String)
    ensures
        out@ == snippet(haystack@, slice_start as int, slice_end as int, spec_red_underscore()),
{
    highlight(haystack, slice_start, slice_end, red_underscore())
}

/// The snippet for a warning: the span is yellow.
pub fn highlight_warning(haystack: &str, slice_start: usize, slice_end: usize) -> (out: String)
    ensures
        out@ == snippet(
            haystack@,
            slice_start as int,
            slice_end as int,
            spec_yellow_underscore(),
        ),
{
    highlight(haystack, slice_start, slice_end, yellow_underscore())
}

fn push_prefix(out: &mut String, newlines: usize)
    ensures
        final(out)@ == old(out)@ + line_prefix(newlines as nat + 1),
{
    let number = decimal_text(newlines as u128 + 1);
    out.append("  ");
    out.append(number.as_str());
    out.append(" | ");
    assert(out@ =~= old(out)@ + line_prefix(newlines as nat + 1));
}

/// The snippet of `haystack` for the span from `slice_start` to `slice_end`, both
/// counted in characters, with the span in `color`.
pub fn highlight(haystack: &str, slice_start: usize, slice_end: usize, color: &str) -> (out:
    String)
    ensures
        out@ == snippet(haystack@, slice_start as int, slice_end as int, color@),
{
    let chars = chars_of(haystack);
    let ghost text = chars@;
    let len = chars.len();
    let last = if len > slice_end {
        slice_end
    } else {
        len
    };
    let from = if len > slice_start {
        slice_start
    } else {
        len
    };
    let mut cursor: usize = 0;
    let mut first: usize = 0;
    while cursor < from
        invariant
            cursor <= from <= len,
            len == text.len(),
            text == chars@,
            first == line_start(text, cursor as int),
            first <= cursor,
        decreases from - cursor,
    {
        if chars[cursor] == '\n' {
            first = cursor + 1;
        }
        cursor += 1;
    }
    let mut count: usize = 0;
    let mut walk: usize = 0;
    while walk < first
        invariant
            walk <= first <= len,
            len == text.len(),
            text == chars@,
            count == newlines_before(text, walk as int),
            count <= walk,
        decreases first - walk,
    {
        if chars[walk] == '\n' {
            count += 1;
        }
        walk += 1;
    }
    let mut stop: usize = last;
    while stop < len && chars[stop] != '\n'
        invariant
            last <= stop <= len,
            len == text.len(),
            text == chars@,
            line_stop(text, last as int) == line_stop(text, stop as int),
        decreases len - stop,
    {
        stop += 1;
    }
    let mut out = String::from_str("    |\n");
    push_prefix(&mut out, count);
    let ghost head = out@;
    let mut position: usize = first;
    while position < stop
        invariant
            first <= position,
            position <= stop || position == first,
            stop <= len,
            len == text.len(),
            text == chars@,
            count == newlines_before(text, position as int),
            count <= position,
            out@ == head + pieces(
                text,
                first as int,
                position as int,
                slice_start as int,
                last as int,
                color@,
            ),
        decreases stop - position,
    {
        let c = chars[position];
        let ghost before = out@;
        if c == '\n' {
            out.push('\n');
            count += 1;
            push_prefix(&mut out, count);
        } else if position >= slice_start && position <= last {
            out.append(color);
            out.push(c);
            out.append(reset());
        } else {
            out.push(c);
        }
        proof {
            assert(out@ =~= before + piece(
                text,
                position as int,
                slice_start as int,
                last as int,
                color@,
            ));
        }
        position += 1;
    }
    let ghost body = out@;
    out.push('\n');
    out.append("    |\n");
    proof {
        assert(from as int == within(text, slice_start as int));
        assert(last as int == within(text, slice_end as int));
        assert(line_stop(text, stop as int) == stop);
        assert(head == margin() + line_prefix(newlines_before(text, first as int) + 1));
        assert(pieces(text, first as int, position as int, slice_start as int, last as int, color@)
            == pieces(text, first as int, stop as int, slice_start as int, last as int, color@));
        assert(out@ =~= body + seq!['\n'] + margin());
        assert(out@ =~= snippet(haystack@, slice_start as int, slice_end as int, color@));
    }
    out
}

} // verus!
