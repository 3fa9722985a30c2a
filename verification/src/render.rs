//! The text that is shown: coloured cells, rows of cells, and the lines
//! and blocks made of them.

use crate::calendar::{offset_rendering, utc_rendering, ResolvedDateTime};
use crate::digits::{decimal_digits, decimal_string, decimal_text, digits_string};
use crate::error::ConvertError;
use crate::text::contains_text;
use colored::{Color, Colorize};
use vstd::prelude::*;

verus! {

/// The colours that the output uses.
#[derive(Clone, Copy, Debug, PartialEq, Eq, Structural)]
pub enum Tint {
    /// For labels.
    Cyan,
    /// For values.
    Blue,
    /// For column numbers.
    White,
}

/// The width to which a label is padded.
pub const LABEL_WIDTH: u16 = 20;

/// The width to which a value of a table is padded.
pub const VALUE_WIDTH: u16 = 30;

/// `text`, followed by as many spaces as it takes to reach `width`
/// characters; `text` itself if it is that long already.
pub open spec fn padded(text: Seq<char>, width: nat) -> Seq<char> {
    if text.len() >= width {
        text
    } else {
        text + Seq::new((width - text.len()) as nat, |i: int| ' ')
    }
}

/// The number by which an ANSI escape sequence selects `tint` as the
/// foreground colour.
pub open spec fn color_code(tint: Tint) -> Seq<char> {
    match tint {
        Tint::Cyan => "36"@,
        Tint::Blue => "34"@,
        Tint::White => "37"@,
    }
}

/// The ANSI escape sequence that switches the foreground colour to `tint`.
pub open spec fn color_on(tint: Tint) -> Seq<char> {
    "\x1B["@ + color_code(tint) + "m"@
}

/// The ANSI escape sequence that resets the colour.
pub open spec fn color_off() -> Seq<char> {
    "\x1B[0m"@
}

/// `text` with the colour `tint` switched on again behind every reset
/// sequence that `text` itself holds, so that the whole of it is shown in
/// that colour. The reset sequences are found from left to right and do
/// not overlap.
pub open spec fn recoloured(text: Seq<char>, tint: Tint) -> Seq<char>
    decreases text.len(),
{
    if text.len() < 4 {
        text
    } else if text.take(4) == color_off() {
        color_off() + color_on(tint) + recoloured(text.skip(4), tint)
    } else {
        seq![text[0]] + recoloured(text.skip(1), tint)
    }
}

/// `body` with the colour `tint` switched on before it and reset behind
/// it.
pub open spec fn framed(tint: Tint, body: Seq<char>) -> Seq<char> {
    color_on(tint) + body + color_off()
}

/// Whether `out` is `text` as a cell of `width` characters in the colour
/// `tint`. Whether colours are switched on is up to the terminal and the
/// environment, so a cell is either the padded text alone, or the text,
/// recoloured and padded, framed by the escape sequences of the colour.
pub open spec fn is_cell(out: Seq<char>, text: Seq<char>, tint: Tint, width: nat) -> bool {
    out == padded(text, width) || out == framed(tint, padded(recoloured(text, tint), width))
}

/// `Display` of a `colored::ColoredString`, made by `Colorize::color` on
/// `text` and written with a minimum width. With colours off the crate
/// writes the text and pads it; with colours on it writes the escape
/// sequence of the foreground colour, the text (with the colour restored
/// behind any reset inside it) padded to the width, and the reset sequence.
/// The width is a `u16` because the formatter of std takes no wider one.
#[verifier::external_body]
fn paint(text: &str, tint: Tint, width: u16) -> (r: String)
    ensures
        is_cell(r@, text@, tint, width as nat),
{
    let color = match tint {
        Tint::Cyan => Color::Cyan,
        Tint::Blue => Color::Blue,
        Tint::White => Color::White,
    };
    let width = usize::from(width);
    format!("{:width$}", text.color(color))
}

/// Text that holds no reset sequence is recoloured as it is, so a cell of
/// it is the padded text, alone or framed by the escape sequences of the
/// colour.
pub proof fn lemma_recoloured_without_reset(text: Seq<char>, tint: Tint)
    requires
        !contains_text(text, color_off()),
    ensures
        recoloured(text, tint) == text,
    decreases text.len(),
{
    reveal_strlit("\x1B[0m");
    if text.len() >= 4 {
        assert(text.take(4) =~= text.subrange(0int, 0int + color_off().len()));
        let rest = text.skip(1);
        assert forall|start: int|
            0 <= start && start + color_off().len() <= rest.len() implies #[trigger] rest.subrange(
            start,
            start + color_off().len(),
        ) != color_off() by {
            assert(rest.subrange(start, start + color_off().len()) =~= text.subrange(
                start + 1,
                start + 1 + color_off().len(),
            ));
        }
        lemma_recoloured_without_reset(rest, tint);
        assert(seq![text[0]] + rest =~= text);
    }
}

/// The texts of a sequence of strings.
pub open spec fn texts_of(values: Seq<String>) -> Seq<Seq<char>> {
    values.map_values(|value: String| value@)
}

/// Whether `cells` are the cells of a row: a cyan label, then the values
/// in the colour `tint`, each padded to its width.
pub open spec fn is_cells(
    cells: Seq<Seq<char>>,
    label: Seq<char>,
    values: Seq<Seq<char>>,
    tint: Tint,
) -> bool {
    &&& cells.len() == values.len() + 1
    &&& is_cell(cells[0], label, Tint::Cyan, LABEL_WIDTH as nat)
    &&& forall|i: int|
        0 <= i < values.len() ==> is_cell(
            cells[i + 1],
            #[trigger] values[i],
            tint,
            VALUE_WIDTH as nat,
        )
}

/// Whether `out` is a row of a table: the label cell and the value cells,
/// one after the other.
pub open spec fn is_row(out: Seq<char>, label: Seq<char>, values: Seq<Seq<char>>, tint: Tint) -> bool {
    exists|cells: Seq<Seq<char>>| #[trigger] is_cells(cells, label, values, tint) && out == cells.flatten()
}

/// Writes a row of a table: `label` in cyan, then each of `values` in the
/// colour `tint`.
pub fn form_row(label: &str, values: &[String], tint: Tint) -> (r: String)
    ensures
        is_row(r@, label@, texts_of(values@), tint),
{
    let mut r = paint(label, Tint::Cyan, LABEL_WIDTH);
    let ghost mut cells: Seq<Seq<char>> = seq![r@];
    proof {
        cells.lemma_flatten_singleton();
    }
    let mut i: usize = 0;
    while i < values.len()
        invariant
            i <= values@.len(),
            cells.len() == i + 1,
            r@ == cells.flatten(),
            is_cell(cells[0], label@, Tint::Cyan, LABEL_WIDTH as nat),
            forall|j: int|
                0 <= j < i ==> is_cell(
                    cells[j + 1],
                    #[trigger] texts_of(values@)[j],
                    tint,
                    VALUE_WIDTH as nat,
                ),
        decreases values@.len() - i,
    {
        let cell = paint(values[i].as_str(), tint, VALUE_WIDTH);
        r.append(cell.as_str());
        proof {
            cells.lemma_flatten_push(cell@);
            cells = cells.push(cell@);
        }
        i = i + 1;
    }
    proof {
        assert(is_cells(cells, label@, texts_of(values@), tint));
    }
    r
}

/// The column numbers of a table of `length` columns, from zero.
pub open spec fn index_texts(length: nat) -> Seq<Seq<char>> {
    Seq::new(length, |i: int| decimal_digits(i as nat))
}

/// What is shown for a result of the first half of the pipeline: the
/// timestamp in decimal, or the message of the error.
pub open spec fn timestamp_text(step: Result<i64, ConvertError>) -> Seq<char> {
    match step {
        Ok(timestamp) => decimal_text(timestamp as int),
        Err(error) => error.text(),
    }
}

/// What is shown in UTC for a result of the pipeline: the date-time as
/// chrono writes it, or the message of the error.
pub open spec fn utc_text_of(step: Result<ResolvedDateTime, ConvertError>) -> Seq<char> {
    match step {
        Ok(datetime) => utc_rendering(datetime.epoch_seconds()),
        Err(error) => error.text(),
    }
}

/// What is shown in local time for a result of the pipeline: the
/// date-time at its local offset as chrono writes it, or the message of
/// the error.
pub open spec fn local_text_of(step: Result<ResolvedDateTime, ConvertError>) -> Seq<char> {
    match step {
        Ok(datetime) => offset_rendering(datetime.epoch_seconds(), datetime.local_offset()),
        Err(error) => error.text(),
    }
}

/// Whether `out` is the row `first` of date-times in UTC, a line break,
/// and the row `second` of the same date-times in local time.
pub open spec fn is_rows_of(
    out: Seq<char>,
    first: Seq<char>,
    second: Seq<char>,
    datetimes: Seq<Result<ResolvedDateTime, ConvertError>>,
) -> bool {
    &&& is_row(first, "In UTC:"@, datetimes.map_values(|step| utc_text_of(step)), Tint::Blue)
    &&& is_row(
        second,
        "In Local Timezone:"@,
        datetimes.map_values(|step| local_text_of(step)),
        Tint::Blue,
    )
    &&& out == first + seq!['\n'] + second
}

/// Whether `out` is the two rows that show `datetimes`, in UTC and in
/// local time.
pub open spec fn is_datetime_rows(
    out: Seq<char>,
    datetimes: Seq<Result<ResolvedDateTime, ConvertError>>,
) -> bool {
    exists|first: Seq<char>, second: Seq<char>| #[trigger]
        is_rows_of(out, first, second, datetimes)
}

/// The header row: the label `Item:` and the column numbers in white.
pub fn form_first_line(length: usize) -> (r: String)
    ensures
        is_row(r@, "Item:"@, index_texts(length as nat), Tint::White),
{
    let mut numbers: Vec<String> = Vec::new();
    let mut i: usize = 0;
    while i < length
        invariant
            i <= length,
            numbers@.len() == i,
            forall|j: int| 0 <= j < i ==> (#[trigger] numbers@[j])@ == decimal_digits(j as nat),
        decreases length - i,
    {
        numbers.push(digits_string(i as u64));
        i = i + 1;
    }
    assert(texts_of(numbers@) =~= index_texts(length as nat));
    form_row("Item:", numbers.as_slice(), Tint::White)
}

/// The row of the inputs as they were read, in blue.
pub fn form_second_line(times: &[String]) -> (r: String)
    ensures
        is_row(r@, "Read:"@, texts_of(times@), Tint::Blue),
{
    form_row("Read:", times, Tint::Blue)
}

/// The row of the timestamps, in blue; where an input gave no timestamp,
/// the message of its error stands in its place.
pub fn form_third_line(timestamps: &[Result<i64, ConvertError>]) -> (r: String)
    ensures
        is_row(
            r@,
            "As timestamp:"@,
            timestamps@.map_values(|step| timestamp_text(step)),
            Tint::Blue,
        ),
{
    let mut texts: Vec<String> = Vec::new();
    let mut i: usize = 0;
    while i < timestamps.len()
        invariant
            i <= timestamps@.len(),
            texts@.len() == i,
            forall|j: int|
                0 <= j < i ==> (#[trigger] texts@[j])@ == timestamp_text(timestamps@[j]),
        decreases timestamps@.len() - i,
    {
        let text = match &timestamps[i] {
            Ok(timestamp) => decimal_string(*timestamp),
            Err(error) => error.message(),
        };
        texts.push(text);
        i = i + 1;
    }
    assert(texts_of(texts@) =~= timestamps@.map_values(|step| timestamp_text(step)));
    form_row("As timestamp:", texts.as_slice(), Tint::Blue)
}

/// The row of the date-times in UTC, a line break, and the row of the
/// same date-times in local time, all values in blue; where there is no
/// date-time, the message of the error stands in its place in both rows.
pub fn form_fourth_and_fifth_line(datetimes: &[Result<ResolvedDateTime, ConvertError>]) -> (r:
    String)
    ensures
        is_datetime_rows(r@, datetimes@),
{
    let mut utc: Vec<String> = Vec::new();
    let mut local: Vec<String> = Vec::new();
    let mut i: usize = 0;
    while i < datetimes.len()
        invariant
            i <= datetimes@.len(),
            utc@.len() == i,
            local@.len() == i,
            forall|j: int| 0 <= j < i ==> (#[trigger] utc@[j])@ == utc_text_of(datetimes@[j]),
            forall|j: int|
                0 <= j < i ==> (#[trigger] local@[j])@ == local_text_of(datetimes@[j]),
        decreases datetimes@.len() - i,
    {
        match &datetimes[i] {
            Ok(datetime) => {
                utc.push(datetime.utc_text());
                local.push(datetime.local_text());
            },
            Err(error) => {
                utc.push(error.message());
                local.push(error.message());
            },
        }
        i = i + 1;
    }
    assert(texts_of(utc@) =~= datetimes@.map_values(|step| utc_text_of(step)));
    assert(texts_of(local@) =~= datetimes@.map_values(|step| local_text_of(step)));
    let mut r = form_row("In UTC:", utc.as_slice(), Tint::Blue);
    let second = form_row("In Local Timezone:", local.as_slice(), Tint::Blue);
    let ghost first = r@;
    r.push('\n');
    r.append(second.as_str());
    assert(r@ =~= first + seq!['\n'] + second@);
    assert(is_rows_of(r@, first, second@, datetimes@));
    r
}

/// Whether `out` is the entry made of the cells `label_cell` and
/// `value_cell`: the label in cyan, padded, a space, and the value in
/// blue as it is.
pub open spec fn is_entry_of(
    out: Seq<char>,
    label_cell: Seq<char>,
    value_cell: Seq<char>,
    label: Seq<char>,
    value: Seq<char>,
) -> bool {
    &&& is_cell(label_cell, label, Tint::Cyan, LABEL_WIDTH as nat)
    &&& is_cell(value_cell, value, Tint::Blue, 0)
    &&& out == label_cell + seq![' '] + value_cell
}

/// Whether `out` is a labelled value on a line of its own.
pub open spec fn is_entry(out: Seq<char>, label: Seq<char>, value: Seq<char>) -> bool {
    exists|label_cell: Seq<char>, value_cell: Seq<char>| #[trigger]
        is_entry_of(out, label_cell, value_cell, label, value)
}

/// Writes a labelled value: `label` in cyan, padded, a space, and `value`
/// in blue.
pub fn form_entry(label: &str, value: &str) -> (r: String)
    ensures
        is_entry(r@, label@, value@),
{
    let mut r = paint(label, Tint::Cyan, LABEL_WIDTH);
    let value_cell = paint(value, Tint::Blue, 0);
    let ghost label_cell = r@;
    r.push(' ');
    r.append(value_cell.as_str());
    assert(r@ =~= label_cell + seq![' '] + value_cell@);
    assert(is_entry_of(r@, label_cell, value_cell@, label@, value@));
    r
}

/// Whether `out` is the four entries `entries` of the block that shows
/// one input, each on a line of its own: what was read, the timestamp,
/// the date-time in UTC and the date-time in local time.
pub open spec fn is_block_of(
    out: Seq<char>,
    entries: Seq<Seq<char>>,
    time: Seq<char>,
    timestamp: i64,
    datetime: ResolvedDateTime,
) -> bool {
    &&& entries.len() == 4
    &&& is_entry(entries[0], "Read:"@, time)
    &&& is_entry(entries[1], "As timestamp:"@, decimal_text(timestamp as int))
    &&& is_entry(entries[2], "In UTC:"@, utc_rendering(datetime.epoch_seconds()))
    &&& is_entry(
        entries[3],
        "In Local Timezone:"@,
        offset_rendering(datetime.epoch_seconds(), datetime.local_offset()),
    )
    &&& out == entries[0] + seq!['\n'] + entries[1] + seq!['\n'] + entries[2] + seq!['\n']
        + entries[3]
}

/// Whether `out` is the block that shows one input.
pub open spec fn is_block(
    out: Seq<char>,
    time: Seq<char>,
    timestamp: i64,
    datetime: ResolvedDateTime,
) -> bool {
    exists|entries: Seq<Seq<char>>| #[trigger] is_block_of(out, entries, time, timestamp, datetime)
}

/// The block of four labelled lines that shows one input: what was read,
/// its timestamp, and its date-time in UTC and in local time.
pub fn produce_output_string(time: &str, timestamp: i64, datetime: &ResolvedDateTime) -> (r:
    String)
    ensures
        is_block(r@, time@, timestamp, *datetime),
{
    let number = decimal_string(timestamp);
    let utc = datetime.utc_text();
    let local = datetime.local_text();
    let mut r = form_entry("Read:", time);
    let ghost first = r@;
    let second = form_entry("As timestamp:", number.as_str());
    let third = form_entry("In UTC:", utc.as_str());
    let fourth = form_entry("In Local Timezone:", local.as_str());
    r.push('\n');
    r.append(second.as_str());
    r.push('\n');
    r.append(third.as_str());
    r.push('\n');
    r.append(fourth.as_str());
    assert(r@ =~= first + seq!['\n'] + second@ + seq!['\n'] + third@ + seq!['\n'] + fourth@);
    assert(is_block_of(r@, seq![first, second@, third@, fourth@], time@, timestamp, *datetime));
    r
}

} // verus!
