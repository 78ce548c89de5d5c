//! The layout of the list screen: which texts go where. The result is a
//! list of lines with their coordinates and styles; putting them on the
//! terminal is left to the host.

use crate::tab_manager::{rows_left, window_of};
use crate::text::{chars_of, decimal, decimal_text, string_of};
use vstd::prelude::*;
use vstd::string::StrSliceExecFns;
use vstd::string::StringExecFns;
use vstd::utf8::encode_utf8;

verus! {

/// The colour of headings, as an index into the palette of the host.
pub const BASE_COLOR: usize = 2;

/// The rows that the list screen needs for other things than entries.
pub const RESERVE_ROW_COUNT: usize = 5;

/// The columns below which the list screen does not fit.
pub const RESERVE_COLUMN_COUNT: usize = 12;

/// How a line is drawn.
#[derive(PartialEq, Eq, Structural, Clone, Copy, Debug)]
pub enum Style {
    /// As it is.
    Plain,
    /// The first characters in the heading colour; the number says how many.
    Lead(usize),
    /// All of it in the heading colour.
    Heading,
    /// Yellow and bold, for the counters of hidden entries.
    Counter,
    /// Yellow and marked as selected, for the entry under the cursor.
    Selected,
}

/// A text with its place on the screen.
#[derive(Debug)]
pub struct Line {
    /// Column of the first character.
    pub x: usize,
    /// Row.
    pub y: usize,
    /// The text.
    pub text: String,
    /// How the text is drawn.
    pub style: Style,
}

/// A line, as mathematical values.
pub struct LineView {
    pub x: int,
    pub y: int,
    pub text: Seq<char>,
    pub style: Style,
}

impl View for Line {
    type V = LineView;

    open spec fn view(&self) -> LineView {
        LineView { x: self.x as int, y: self.y as int, text: self.text@, style: self.style }
    }
}

/// The views of a sequence of lines.
pub open spec fn line_views(lines: Seq<Line>) -> Seq<LineView> {
    Seq::new(lines.len(), |i: int| lines[i]@)
}

/// An entry of a list as the screen shows it: its number and its text.
pub open spec fn entry_views(entries: Seq<(usize, String)>) -> Seq<(nat, Seq<char>)> {
    Seq::new(entries.len(), |i: int| (entries[i].0 as nat, entries[i].1@))
}

/// Whether a panel of the given size is too small for the list screen.
pub open spec fn too_small(rows: nat, cols: nat) -> bool {
    rows < RESERVE_ROW_COUNT || cols < RESERVE_COLUMN_COUNT
}

/// The text of the tab line.
pub open spec fn mode_text(mode: Seq<char>) -> Seq<char> {
    "Mode: "@ + mode
}

/// The text of the search line.
pub open spec fn search_text(filter: Seq<char>, filter_by: Seq<char>) -> Seq<char> {
    "Search (by "@ + filter_by + ") "@ + filter + "_"@
}

/// The text of the counter of all entries.
pub open spec fn all_text(all: nat) -> Seq<char> {
    "All: "@ + decimal_text(all)
}

/// The text of a counter of hidden entries.
pub open spec fn more_text(count: nat) -> Seq<char> {
    "+ "@ + decimal_text(count) + " more  "@
}

/// The text of an entry: its number, a full stop and its text. Where that
/// takes more bytes than `max_length`, the first `max_length - 3` characters
/// are kept and three full stops follow.
pub open spec fn row_text(row: Seq<char>, id: nat, max_length: nat) -> Seq<char> {
    let formatted = decimal_text(id) + ". "@ + row;
    if encode_utf8(formatted).len() > max_length {
        let room: int = if max_length >= 3 {
            max_length - 3
        } else {
            0
        };
        let kept: int = if room < formatted.len() {
            room
        } else {
            formatted.len() as int
        };
        formatted.take(kept) + "..."@
    } else {
        formatted
    }
}

/// The counter of hidden entries at the right end of row `y`, if there are
/// hidden entries and the counter fits into the width.
pub open spec fn right_counter(count: nat, width: nat, y: nat) -> Option<LineView> {
    if count == 0 || more_text(count).len() > width {
        None
    } else {
        Some(
            LineView {
                x: width - more_text(count).len(),
                y: y as int,
                text: more_text(count),
                style: Style::Counter,
            },
        )
    }
}

/// The lines of the entries that the window shows.
pub open spec fn entry_lines(
    entries: Seq<(nat, Seq<char>)>,
    begin: int,
    end: int,
    selected: nat,
    width: nat,
) -> Seq<LineView> {
    let stop: int = if end + 1 < entries.len() {
        end + 1
    } else {
        entries.len() as int
    };
    let shown: int = if stop > begin {
        stop - begin
    } else {
        0
    };
    Seq::new(
        shown as nat,
        |k: int|
            LineView {
                x: 0,
                y: 3 + k,
                text: row_text(entries[begin + k].1, entries[begin + k].0, width),
                style: if begin + k == selected {
                    Style::Selected
                } else {
                    Style::Plain
                },
            },
    )
}

/// A sequence with the value of an option added, if there is one.
pub open spec fn with_optional(lines: Seq<LineView>, line: Option<LineView>) -> Seq<LineView> {
    match line {
        Some(l) => lines.push(l),
        None => lines,
    }
}

/// The lines of the list screen on a panel of `rows` rows and `cols`
/// columns: the tab line, the search line, the counter of the entries above
/// the window, the entries in the window, the counter of all entries, and
/// the counter of the entries below the window.
pub open spec fn menu_lines(
    rows: nat,
    cols: nat,
    selected: nat,
    count: nat,
    mode: Seq<char>,
    filter: Seq<char>,
    filter_by: Seq<char>,
    entries: Seq<(nat, Seq<char>)>,
) -> Seq<LineView> {
    let height = rows_left(rows, RESERVE_ROW_COUNT as nat);
    let window = window_of(height, count, selected);
    let head = seq![
        LineView { x: 2, y: 0, text: mode_text(mode), style: Style::Lead(4) },
        LineView { x: 2, y: 1, text: search_text(filter, filter_by), style: Style::Lead(6) },
    ];
    let top = with_optional(head, right_counter(window.hidden_above as nat, cols, 2));
    let body = top + entry_lines(entries, window.begin, window.end, selected, cols);
    let all = body.push(
        LineView { x: 2, y: rows as int, text: all_text(count), style: Style::Heading },
    );
    with_optional(all, right_counter(window.hidden_below as nat, cols, rows))
}

/// The place and size of the list: column, row, width and height.
pub fn main_menu_size(rows: usize, cols: usize) -> (size: (usize, usize, usize, usize))
    ensures
        size == (0usize, 0usize, cols, rows_left(rows as nat, RESERVE_ROW_COUNT as nat) as usize),
{
    let width: usize = cols;
    let x: usize = 0;
    let y: usize = 0;
    let height: usize = rows.saturating_sub(RESERVE_ROW_COUNT);
    (x, y, width, height)
}

/// Whether a panel of the given size is too small for the list screen.
pub fn panel_too_small(rows: usize, cols: usize) -> (small: bool)
    ensures
        small == too_small(rows as nat, cols as nat),
{
    rows < RESERVE_ROW_COUNT || cols < RESERVE_COLUMN_COUNT
}

/// The text of an entry, cut where it is too long for `max_length`.
pub fn prepare_row_text(row: &str, id: usize, max_length: usize) -> (text: String)
    ensures
        text@ == row_text(row@, id as nat, max_length as nat),
{
    let mut formatted = decimal(id);
    formatted.append(". ");
    formatted.append(row);
    if formatted.as_str().as_bytes().len() > max_length {
        let truncated_len: usize = max_length.saturating_sub(3);
        let chars = chars_of(formatted.as_str());
        let mut kept: Vec<char> = Vec::new();
        let mut i: usize = 0;
        while i < truncated_len && i < chars.len()
            invariant
                i <= truncated_len,
                i <= chars@.len(),
                kept@ == chars@.take(i as int),
            decreases chars@.len() - i,
        {
            kept.push(chars[i]);
            i += 1;
        }
        let mut truncated = string_of(&kept);
        truncated.append("...");
        truncated
    } else {
        formatted
    }
}

/// The tab line.
pub fn render_mode(x: usize, y: usize, mode: &str) -> (line: Line)
    ensures
        line@ == (LineView {
            x: x as int,
            y: y as int,
            text: mode_text(mode@),
            style: Style::Lead(4),
        }),
{
    let mut text = "Mode: ".to_string();
    text.append(mode);
    Line { x, y, text, style: Style::Lead(4) }
}

/// The search line.
pub fn render_search_block(x: usize, y: usize, filter: &str, filter_by: &str) -> (line: Line)
    ensures
        line@ == (LineView {
            x: x as int,
            y: y as int,
            text: search_text(filter@, filter_by@),
            style: Style::Lead(6),
        }),
{
    let mut text = "Search (by ".to_string();
    text.append(filter_by);
    text.append(") ");
    text.append(filter);
    text.append("_");
    Line { x, y, text, style: Style::Lead(6) }
}

/// The counter of all entries.
pub fn render_all_counter(x: usize, y: usize, all: usize) -> (line: Line)
    ensures
        line@ == (LineView {
            x: x as int,
            y: y as int,
            text: all_text(all as nat),
            style: Style::Heading,
        }),
{
    let mut text = "All: ".to_string();
    let number = decimal(all);
    text.append(number.as_str());
    Line { x, y, text, style: Style::Heading }
}

/// The counter of hidden entries at the right end of row `y`, if there are
/// hidden entries and the counter fits into the width.
pub fn render_right_counter(count: usize, width: usize, y: usize) -> (line: Option<Line>)
    ensures
        match line {
            Some(l) => right_counter(count as nat, width as nat, y as nat) == Some(l@),
            None => right_counter(count as nat, width as nat, y as nat) is None,
        },
{
    if count == 0 {
        return None;
    }
    let mut row = "+ ".to_string();
    let number = decimal(count);
    row.append(number.as_str());
    row.append(" more  ");
    let len: usize = row.as_str().unicode_len();
    if len > width {
        return None;
    }
    let x: usize = width - len;
    Some(Line { x, y, text: row, style: Style::Counter })
}

/// The counter of hidden entries, unless all entries are hidden.
pub fn render_right_counter_with_max(count: usize, max_count: usize, width: usize, y: usize) -> (line:
    Option<Line>)
    ensures
        match line {
            Some(l) => count != max_count && right_counter(count as nat, width as nat, y as nat)
                == Some(l@),
            None => count == max_count || right_counter(count as nat, width as nat, y as nat)
                is None,
        },
{
    if count == max_count {
        return None;
    }
    render_right_counter(count, width, y)
}

fn render_entries(
    entries: &Vec<(usize, String)>,
    begin: usize,
    end: usize,
    selected: usize,
    width: usize,
    lines: &mut Vec<Line>,
)
    requires
        end < usize::MAX,
        begin <= end + 1,
        end + 1 - begin + 3 <= usize::MAX,
    ensures
        line_views(final(lines)@) == line_views(old(lines)@) + entry_lines(
            entry_views(entries@),
            begin as int,
            end as int,
            selected as nat,
            width as nat,
        ),
{
    let ghost shown = entry_views(entries@);
    let ghost top = line_views(lines@);
    let ghost all = entry_lines(shown, begin as int, end as int, selected as nat, width as nat);
    let stop: usize = if end < entries.len() {
        end + 1
    } else {
        entries.len()
    };
    if stop <= begin {
        return ;
    }
    let mut i: usize = begin;
    while i < stop
        invariant
            begin <= i <= stop,
            stop <= entries@.len(),
            stop <= end + 1,
            end + 1 - begin + 3 <= usize::MAX,
            shown == entry_views(entries@),
            all == entry_lines(shown, begin as int, end as int, selected as nat, width as nat),
            all.len() == stop - begin,
            line_views(lines@) == top + all.take(i - begin),
        decreases stop - i,
    {
        let ghost before = line_views(lines@);
        let text = prepare_row_text(entries[i].1.as_str(), entries[i].0, width);
        let style = if selected == i {
            Style::Selected
        } else {
            Style::Plain
        };
        let number: usize = 3 + (i - begin);
        let line = Line { x: 0, y: number, text, style };
        lines.push(line);
        proof {
            assert(line_views(lines@) =~= before.push(line@));
        }
        i += 1;
    }
}

/// The lines of the list screen. `entries` holds the kept entries in order,
/// each with its number and its text; `selected` is the position of the
/// cursor and `count` the number of kept entries.
pub fn render_main_menu(
    rows: usize,
    cols: usize,
    selected: usize,
    count: usize,
    mode: &str,
    filter: &str,
    filter_by: &str,
    entries: &Vec<(usize, String)>,
) -> (lines: Vec<Line>)
    requires
        selected < usize::MAX,
    ensures
        line_views(lines@) == menu_lines(
            rows as nat,
            cols as nat,
            selected as nat,
            count as nat,
            mode@,
            filter@,
            filter_by@,
            entry_views(entries@),
        ),
{
    let (x, y, width, height) = main_menu_size(rows, cols);
    let mut lines: Vec<Line> = Vec::new();
    lines.push(render_mode(x + 2, y, mode));
    lines.push(render_search_block(x + 2, y + 1, filter, filter_by));
    let (begin, end): (usize, usize) = if selected >= height {
        (selected + 1 - height, selected)
    } else {
        (0, height - 1)
    };
    match render_right_counter(begin, width, y + 2) {
        Some(line) => {
            lines.push(line);
        },
        None => {},
    }
    render_entries(entries, begin, end, selected, width, &mut lines);
    let ghost body = line_views(lines@);
    lines.push(render_all_counter(x + 2, rows, count));
    let ghost all_lines = line_views(lines@);
    proof {
        assert(all_lines =~= body.push(
            LineView {
                x: 2,
                y: rows as int,
                text: all_text(count as nat),
                style: Style::Heading,
            },
        ));
    }
    if count > end {
        match render_right_counter_with_max(count - 1 - end, count, width, rows) {
            Some(line) => {
                lines.push(line);
                assert(line_views(lines@) =~= all_lines.push(line@));
            },
            None => {},
        }
    }
    lines
}

} // verus!
