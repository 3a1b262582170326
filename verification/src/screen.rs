//! How much room text takes on the terminal.
//!
//! A text is a list of lines, and a line a list of spans.
use crate::text::{chars_of, group_views, lines_in, split_lines, views};
use vstd::prelude::*;

verus! {

/// A line of text, in spans.
pub struct ScreenLine {
    pub spans: Vec<String>,
}

impl View for ScreenLine {
    type V = Seq<Seq<char>>;

    open spec fn view(&self) -> Seq<Seq<char>> {
        views(self.spans@)
    }
}

// ---------------------------------------------------------------------------
// Setting text
// ---------------------------------------------------------------------------

/// How many columns of marks the number of a list item may end behind.
pub const DEEPEST: usize = 32768;

/// Whether lists and quotes are opened and indented with a character.
pub open spec fn marks(c: char) -> bool {
    ||| c == ' ' || c == '>' || c == '-' || c == '+' || c == '*' || c == '.' || c == ')'
    ||| '0' <= c <= '9'
}

/// How many columns the unbroken run of marks and tabs right before a position takes, with
/// tabs as wide as they can be.
pub open spec fn marked(text: Seq<char>, i: int) -> nat
    decreases i,
{
    if i <= 0 {
        0
    } else if text[i - 1] == '\t' {
        marked(text, i - 1) + 4
    } else if marks(text[i - 1]) {
        marked(text, i - 1) + 1
    } else {
        0
    }
}

/// Whether the number of a list item may end at a position: with a full stop or a
/// bracket after a digit, before a space, a tab, or the end of the line.
pub open spec fn ends_number(text: Seq<char>, i: int) -> bool {
    &&& text[i] == '.' || text[i] == ')'
    &&& 0 < i && '0' <= text[i - 1] <= '9'
    &&& i + 1 == text.len() || text[i + 1] == ' ' || text[i + 1] == '\t' || text[i + 1] == '\n'
        || text[i + 1] == '\r'
}

/// Whether no numbered list item is nested too deep to be set. On the line on which an
/// item opens, each item around it takes at least two columns, and there is nothing but
/// marks and tabs before it. So a number that ends behind [`DEEPEST`] columns or fewer is
/// in at most half as many lists.
pub open spec fn shallow(text: Seq<char>) -> bool {
    forall|i: int| 0 <= i < text.len() && #[trigger] ends_number(text, i) ==> marked(text, i)
        <= DEEPEST
}

/// Whether a text can be set as Markdown.
#[verifier::loop_isolation(false)]
pub fn is_shallow(text: &str) -> (r: bool)
    ensures
        r == shallow(text@),
{
    let chars = chars_of(text);
    let n = chars.len();
    let mut run: usize = 0;
    let mut i: usize = 0;
    while i < n
        invariant
            i <= n,
            run <= DEEPEST ==> run == marked(text@, i as int),
            run > DEEPEST ==> run <= DEEPEST + 4 && marked(text@, i as int) > DEEPEST,
            forall|k: int|
                0 <= k < i && #[trigger] ends_number(text@, k) ==> marked(text@, k) <= DEEPEST,
        decreases n - i,
    {
        let c = chars[i];
        let closes = c == '.' || c == ')';
        let numbered = i > 0 && '0' <= chars[i - 1] && chars[i - 1] <= '9';
        let apart = i + 1 == n || chars[i + 1] == ' ' || chars[i + 1] == '\t' || chars[i + 1]
            == '\n' || chars[i + 1] == '\r';
        assert((closes && numbered && apart) == ends_number(text@, i as int));
        if closes && numbered && apart && run > DEEPEST {
            return false;
        }
        let mark = closes || c == ' ' || c == '>' || c == '-' || c == '+' || c == '*' || ('0' <= c
            && c <= '9');
        assert(mark == marks(c));
        if c != '\t' && !mark {
            run = 0;
        } else if run <= DEEPEST {
            run = run + if c == '\t' {
                4
            } else {
                1
            };
        }
        i += 1;
    }
    true
}

/// A text of no more characters than a quarter of [`DEEPEST`] can always be set.
pub proof fn law_short_texts_are_shallow(text: Seq<char>)
    requires
        4 * text.len() <= DEEPEST,
    ensures
        shallow(text),
{
    assert forall|i: int| 0 <= i < text.len() && #[trigger] ends_number(text, i) implies marked(
        text,
        i,
    ) <= DEEPEST by {
        lemma_marked(text, i);
    }
}

/// A run of marks takes at most four columns a character.
proof fn lemma_marked(text: Seq<char>, i: int)
    requires
        0 <= i <= text.len(),
    ensures
        marked(text, i) <= 4 * i,
    decreases i,
{
    if 0 < i {
        lemma_marked(text, i - 1);
    }
}

/// The lines that Markdown is set in.
pub uninterp spec fn markdown_lines(text: Seq<char>) -> Seq<Seq<Seq<char>>>;

/// `tui_markdown::from_str`. The lines that it makes of a text depend on the text
/// alone, and are named by [`markdown_lines`], as far as the texts of their spans go;
/// the styles of the spans are left out. It pads the number of an item to a width of four
/// for each list around it less three, which has to fit in 16 bits, so the text is
/// [`shallow`].
#[verifier::external_body]
fn set_markdown(text: &str) -> (r: Vec<ScreenLine>)
    requires
        shallow(text@),
    ensures
        views(r@) == markdown_lines(text@),
{
    tui_markdown::from_str(text)
        .lines
        .into_iter()
        .map(|l| ScreenLine {
            spans: l.spans.into_iter().map(|s| s.content.into_owned()).collect(),
        })
        .collect()
}

/// How a text is set.
#[derive(Debug, Clone, Copy, PartialEq, Eq, Structural)]
pub enum Setting {
    Markdown,
    /// Line by line.
    Lines,
    /// All of it on one line.
    Whole,
}

/// The lines that a text is set in. A line of plain text has a span for each line of
/// its text, and so none where it is empty.
pub open spec fn set_lines(setting: Setting, text: Seq<char>) -> Seq<Seq<Seq<char>>> {
    match setting {
        Setting::Markdown => markdown_lines(text),
        Setting::Lines => Seq::new(lines_in(text).len(), |i: int| lines_in(lines_in(text)[i])),
        Setting::Whole => seq![lines_in(text)],
    }
}

/// Whether a text can be set.
pub open spec fn can_set(setting: Setting, text: Seq<char>) -> bool {
    setting == Setting::Markdown ==> shallow(text)
}

/// Set a text.
#[verifier::loop_isolation(false)]
pub fn set_text(setting: Setting, text: &str) -> (r: Vec<ScreenLine>)
    requires
        can_set(setting, text@),
    ensures
        views(r@) == set_lines(setting, text@),
{
    broadcast use group_views;

    match setting {
        Setting::Markdown => set_markdown(text),
        Setting::Lines => {
            let lines = split_lines(text);
            let ghost all = lines_in(text@);
            let mut r: Vec<ScreenLine> = Vec::new();
            let mut i: usize = 0;
            while i < lines.len()
                invariant
                    i <= lines.len(),
                    views(lines@) == all,
                    views(r@) == Seq::new(i as nat, |k: int| lines_in(all[k])),
                decreases lines.len() - i,
            {
                assert(all[i as int] == lines@[i as int]@);
                r.push(ScreenLine { spans: split_lines(lines[i].as_str()) });
                assert(views(r@) =~= Seq::new((i + 1) as nat, |k: int| lines_in(all[k])));
                i += 1;
            }
            assert(views(r@) =~= set_lines(setting, text@));
            r
        },
        Setting::Whole => {
            let mut r: Vec<ScreenLine> = Vec::new();
            r.push(ScreenLine { spans: split_lines(text) });
            assert(views(r@) =~= set_lines(setting, text@));
            r
        },
    }
}

// ---------------------------------------------------------------------------
// Counting rows
// ---------------------------------------------------------------------------

/// The widest that lines of any length are wrapped at.
pub const WIDEST: u16 = 16384;

/// The most characters of a line that is wrapped at any width.
pub const SHORT: usize = 21845;

/// How many characters a line has.
pub open spec fn line_len(line: Seq<Seq<char>>) -> nat
    decreases line.len(),
{
    if line.len() == 0 {
        0
    } else {
        line_len(line.drop_last()) + line.last().len()
    }
}

/// Whether lines can be wrapped at a width.
pub open spec fn can_wrap(lines: Seq<Seq<Seq<char>>>, width: u16) -> bool {
    width <= WIDEST || forall|i: int|
        0 <= i < lines.len() ==> line_len(#[trigger] lines[i]) <= SHORT
}

/// Whether a line is no longer than [`SHORT`].
#[verifier::loop_isolation(false)]
fn is_short(line: &ScreenLine) -> (r: bool)
    ensures
        r == (line_len(line@) <= SHORT),
{
    broadcast use group_views;

    let ghost all = line@;
    let mut left: usize = SHORT;
    let mut i: usize = 0;
    while i < line.spans.len()
        invariant
            i <= line.spans.len(),
            left + line_len(all.take(i as int)) == SHORT,
        decreases line.spans.len() - i,
    {
        assert(all.take(i + 1).drop_last() =~= all.take(i as int));
        assert(all.take(i + 1).last() == line.spans@[i as int]@);
        let n = line.spans[i].as_str().unicode_len();
        if n > left {
            proof {
                lemma_line_len(all, i + 1);
            }
            return false;
        }
        left = left - n;
        i += 1;
    }
    assert(all.take(i as int) =~= all);
    true
}

/// The beginning of a line is no longer than the line.
proof fn lemma_line_len(line: Seq<Seq<char>>, n: int)
    requires
        0 <= n <= line.len(),
    ensures
        line_len(line.take(n)) <= line_len(line),
    decreases line.len() - n,
{
    if n < line.len() {
        assert(line.take(n + 1).drop_last() =~= line.take(n));
        lemma_line_len(line, n + 1);
    } else {
        assert(line.take(n) =~= line);
    }
}

/// Decide whether lines can be wrapped at a width.
#[verifier::loop_isolation(false)]
pub fn is_wrappable(lines: &Vec<ScreenLine>, width: u16) -> (r: bool)
    ensures
        r == can_wrap(views(lines@), width),
{
    broadcast use group_views;

    if width <= WIDEST {
        return true;
    }
    let mut i: usize = 0;
    while i < lines.len()
        invariant
            i <= lines.len(),
            forall|k: int| 0 <= k < i ==> line_len(#[trigger] views(lines@)[k]) <= SHORT,
        decreases lines.len() - i,
    {
        if !is_short(&lines[i]) {
            assert(line_len(views(lines@)[i as int]) > SHORT);
            return false;
        }
        i += 1;
    }
    true
}

/// How many rows lines take when they are wrapped at a width.
pub uninterp spec fn row_count(lines: Seq<Seq<Seq<char>>>, width: u16) -> usize;

/// `Paragraph::line_count` of ratatui, of a paragraph that wraps words and keeps
/// leading white space. The count depends on the texts of the spans and on the
/// width, and is named by [`row_count`]; nothing fits a width of zero. While it wraps,
/// ratatui adds up in 16 bits what is to go on a row: less than four times the width, and
/// no more than the whole line, of which a character takes three columns at most. So the
/// width is at most [`WIDEST`], or each line at most [`SHORT`].
#[verifier::external_body]
fn count_rows(lines: &Vec<ScreenLine>, width: u16) -> (r: usize)
    requires
        can_wrap(views(lines@), width),
    ensures
        r == row_count(views(lines@), width),
        width == 0 ==> r == 0,
{
    let lines: Vec<ratatui::text::Line> = lines
        .iter()
        .map(|l| ratatui::text::Line::from_iter(l.spans.iter().map(|s| s.as_str())))
        .collect();
    ratatui::widgets::Paragraph::new(ratatui::text::Text::from(lines))
        .wrap(ratatui::widgets::Wrap { trim: false })
        .line_count(width)
}

/// The rows that lines take at a width. Where they cannot be wrapped at it, they are
/// wrapped at [`WIDEST`].
pub open spec fn rows_at(lines: Seq<Seq<Seq<char>>>, width: u16) -> usize {
    row_count(
        lines,
        if can_wrap(lines, width) {
            width
        } else {
            WIDEST
        },
    )
}

pub fn rows_of(lines: &Vec<ScreenLine>, width: u16) -> (r: usize)
    ensures
        r == rows_at(views(lines@), width),
        width == 0 ==> r == 0,
{
    if is_wrappable(lines, width) {
        count_rows(lines, width)
    } else {
        count_rows(lines, WIDEST)
    }
}

/// The rows that lines take, or the most that can be told.
pub fn wrapped_height(lines: &Vec<ScreenLine>, width: u16) -> (r: u16)
    ensures
        r == clamped(rows_at(views(lines@), width) as nat),
{
    clamp_rows(rows_of(lines, width))
}

pub open spec fn clamped(rows: nat) -> u16 {
    if rows < u16::MAX {
        rows as u16
    } else {
        u16::MAX
    }
}

pub fn clamp_rows(rows: usize) -> (r: u16)
    ensures
        r == clamped(rows as nat),
{
    if rows < u16::MAX as usize {
        rows as u16
    } else {
        u16::MAX
    }
}

/// The room inside a frame, which takes a column on either side; at least one
/// column is left.
pub open spec fn inside(framed: bool, width: u16) -> u16 {
    if !framed {
        width
    } else if width > 3 {
        (width - 2) as u16
    } else {
        1
    }
}

/// The rows of a text and those of the frame around it, or the most that can be told.
pub open spec fn framed_height(framed: bool, rows: usize) -> u16 {
    clamped(
        if framed {
            rows as nat + 2
        } else {
            rows as nat
        },
    )
}

pub fn frame_rows(framed: bool, rows: usize) -> (r: u16)
    ensures
        r == framed_height(framed, rows),
{
    let low = clamp_rows(rows);
    if !framed {
        low
    } else if low < u16::MAX - 2 {
        low + 2
    } else {
        u16::MAX
    }
}

/// The height of a text at a width, with a frame around it if `framed`.
pub fn framed_text_height(framed: bool, width: u16, lines: &Vec<ScreenLine>) -> (r: u16)
    ensures
        r == framed_height(framed, rows_at(views(lines@), inside(framed, width))),
{
    let inner: u16 = if !framed {
        width
    } else if width > 3 {
        width - 2
    } else {
        1
    };
    frame_rows(framed, rows_of(lines, inner))
}

/// How far to scroll a text so that its end is seen, or as far as can be told.
pub open spec fn scroll_to_end(rows: usize, height: u16) -> u16 {
    if rows > height {
        clamped((rows - height) as nat)
    } else {
        0
    }
}

pub fn scroll_rows(rows: usize, height: u16) -> (r: u16)
    ensures
        r == scroll_to_end(rows, height),
{
    if rows > height as usize {
        clamp_rows(rows - height as usize)
    } else {
        0
    }
}

/// How far to scroll lines in an area so that their end is seen.
pub fn preview_scroll(lines: &Vec<ScreenLine>, width: u16, height: u16) -> (r: u16)
    ensures
        r == scroll_to_end(rows_at(views(lines@), width), height),
{
    scroll_rows(rows_of(lines, width), height)
}

/// Scrolled to its end, a text fills the area or is seen whole, unless it is longer
/// than can be scrolled.
pub proof fn law_end_is_seen(rows: usize, height: u16)
    requires
        rows - height <= u16::MAX,
    ensures
        rows - scroll_to_end(rows, height) <= height,
        rows <= height ==> scroll_to_end(rows, height) == 0,
        rows > height ==> rows - scroll_to_end(rows, height) == height,
{
}

/// The number of a list item behind too many marks is too deep to be set.
pub proof fn law_deep_numbers_are_refused(text: Seq<char>, n: int)
    requires
        32768 < n,
        text.len() == n + 2,
        forall|i: int| 0 <= i < n ==> #[trigger] text[i] == '>',
        '0' <= text[n] <= '9',
        text[n + 1] == '.' || text[n + 1] == ')',
    ensures
        !shallow(text),
{
    lemma_all_marks(text, n, n);
    assert(marks(text[n]));
    assert(marked(text, n + 1) == n + 1);
    assert(ends_number(text, n + 1));
}

proof fn lemma_all_marks(text: Seq<char>, n: int, i: int)
    requires
        0 <= i <= n <= text.len(),
        forall|k: int| 0 <= k < n ==> #[trigger] text[k] == '>',
    ensures
        marked(text, i) == i,
    decreases i,
{
    if i > 0 {
        lemma_all_marks(text, n, i - 1);
        assert(text[i - 1] == '>');
    }
}

/// Lines of any length are wrapped at half the width that can be counted to, and beyond that
/// only where none of them is long.
pub proof fn law_long_lines_are_not_wrapped_wide(
    lines: Seq<Seq<Seq<char>>>,
    width: u16,
    i: int,
)
    ensures
        width <= 16384 ==> can_wrap(lines, width),
        width > 16384 && 0 <= i < lines.len() && line_len(lines[i]) > 21845 ==> !can_wrap(
            lines,
            width,
        ),
        lines.len() == 0 ==> can_wrap(lines, width),
{
}

} // verus!
