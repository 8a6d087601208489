//! Which texts a table cell can take.
//!
//! Making a cell measures every line of its text: the columns it fills, less
//! the characters that a terminal escape sequence hides. A line in which more
//! is hidden than the line is wide stops the program, so every text is looked
//! at before a cell is made of it. The lines and the two measurements are
//! those of std and of `unicode-width`, which the table uses; what they give
//! is not proved here. The count of hidden characters is.

use crate::text::texts;
use unicode_width::{UnicodeWidthChar, UnicodeWidthStr};
use vstd::prelude::*;
use vstd::string::*;

verus! {

broadcast use vstd::string::group_string_axioms;

/// The lines of a text, as `str::lines` of std cuts it.
pub uninterp spec fn text_lines(text: Seq<char>) -> Seq<Seq<char>>;

/// The columns that `unicode-width` counts for a text.
pub uninterp spec fn text_width(text: Seq<char>) -> usize;

/// The columns that `unicode-width` counts for one character; `None` for a
/// control character.
pub uninterp spec fn char_width(c: char) -> Option<usize>;

/// `str::lines`: the lines of `text`, each as an owned string.
#[verifier::external_body]
fn lines_of(text: &str) -> (lines: Vec<String>)
    ensures
        texts(lines@) == text_lines(text@),
{
    text.lines().map(|line| line.to_string()).collect()
}

/// `UnicodeWidthStr::width`: the columns of `text`.
#[verifier::external_body]
fn measured_width(text: &str) -> (width: usize)
    ensures
        width == text_width(text@),
{
    UnicodeWidthStr::width(text)
}

/// `UnicodeWidthChar::width`: the columns of `c`.
#[verifier::external_body]
fn measured_char_width(c: char) -> (width: Option<usize>)
    ensures
        width == char_width(c),
{
    UnicodeWidthChar::width(c)
}

/// Where the reading of a line stands with respect to escape sequences.
#[derive(Debug, Clone, Copy, PartialEq, Eq, Structural)]
pub enum Escape {
    /// Outside any escape sequence.
    Normal,
    /// The escape character was just read.
    EscapeChar,
    /// Inside a sequence: `[` has followed the escape character.
    OpenBracket,
    /// The `m` that ends a sequence was just read.
    AfterEscape,
}

/// The state in which the character `c` is read, coming from `state`.
pub open spec fn turned(state: Escape, c: char) -> Escape {
    match state {
        Escape::Normal => if c == '\u{1b}' {
            Escape::EscapeChar
        } else {
            state
        },
        Escape::EscapeChar => if c == '[' {
            Escape::OpenBracket
        } else {
            Escape::Normal
        },
        Escape::OpenBracket => if c == 'm' {
            Escape::AfterEscape
        } else {
            state
        },
        Escape::AfterEscape => state,
    }
}

/// The state that is left behind once a character was read in `state`: the
/// end of a sequence leads back outside.
pub open spec fn rested(state: Escape) -> Escape {
    if state == Escape::AfterEscape {
        Escape::Normal
    } else {
        state
    }
}

/// The state after reading `line` from its start.
pub open spec fn state_after(line: Seq<char>) -> Escape
    decreases line.len(),
{
    if line.len() == 0 {
        Escape::Normal
    } else {
        rested(turned(state_after(line.drop_last()), line.last()))
    }
}

/// Whether a character of the given width, read in `state`, counts as
/// hidden: it stands inside an escape sequence, from the `[` to the closing
/// `m`, and fills a column.
pub open spec fn is_hidden(state: Escape, width: Option<usize>) -> bool {
    (state == Escape::OpenBracket || state == Escape::AfterEscape) && (width matches Some(columns)
        && columns > 0)
}

/// How many characters of `line` count as hidden.
pub open spec fn hidden_count(line: Seq<char>) -> nat
    decreases line.len(),
{
    if line.len() == 0 {
        0
    } else {
        hidden_count(line.drop_last()) + if is_hidden(
            turned(state_after(line.drop_last()), line.last()),
            char_width(line.last()),
        ) {
            1nat
        } else {
            0nat
        }
    }
}

/// Whether a line can be measured: no more of it is hidden than it is wide.
pub open spec fn line_fits(line: Seq<char>) -> bool {
    hidden_count(line) <= text_width(line)
}

/// Whether a text opens no escape sequence: nowhere in it does `[` come
/// directly after the escape character. In such a text nothing is hidden.
pub open spec fn opens_no_escape(text: Seq<char>) -> bool {
    forall|i: int|
        0 <= i < text.len() - 1 ==> !(#[trigger] text[i] == '\u{1b}' && text[i + 1] == '[')
}

/// Whether a cell can be made from `text`: it opens no escape sequence, or
/// each of its lines can be measured.
pub open spec fn cell_safe(text: Seq<char>) -> bool {
    opens_no_escape(text) || forall|k: int|
        0 <= k < text_lines(text).len() ==> line_fits(#[trigger] text_lines(text)[k])
}

/// Whether a cell can be made from each of `texts`.
pub open spec fn all_cell_safe(texts: Seq<Seq<char>>) -> bool {
    forall|j: int| 0 <= j < texts.len() ==> cell_safe(#[trigger] texts[j])
}

/// Decides whether a text opens no escape sequence.
pub fn has_no_escape_opening(text: &str) -> (none: bool)
    ensures
        none == opens_no_escape(text@),
{
    let mut none = true;
    let mut after_escape = false;
    let ghost mut at: int = 0;
    for c in it: text.chars()
        invariant
            it.seq() == text@,
            at == it.index(),
            0 <= at <= text@.len(),
            none == opens_no_escape(text@.take(at)),
            after_escape == (at > 0 && text@[at - 1] == '\u{1b}'),
    {
        let ghost seen = text@.take(at);
        let ghost next = text@.take(at + 1);
        proof {
            assert(c == text@[at]);
            if opens_no_escape(next) {
                assert forall|i: int| 0 <= i < seen.len() - 1 implies !(#[trigger] seen[i]
                    == '\u{1b}' && seen[i + 1] == '[') by {
                    assert(next[i] == seen[i] && next[i + 1] == seen[i + 1]);
                }
                if at > 0 {
                    assert(!(next[at - 1] == '\u{1b}' && next[at] == '['));
                }
            }
            if opens_no_escape(seen) && !(at > 0 && text@[at - 1] == '\u{1b}' && c == '[') {
                assert forall|i: int| 0 <= i < next.len() - 1 implies !(#[trigger] next[i]
                    == '\u{1b}' && next[i + 1] == '[') by {
                    if i < at - 1 {
                        assert(seen[i] == next[i] && seen[i + 1] == next[i + 1]);
                    }
                }
            }
            if at > 0 && text@[at - 1] == '\u{1b}' && c == '[' {
                assert(next[at - 1] == '\u{1b}' && next[at - 1 + 1] == '[');
            }
        }
        if after_escape && c == '[' {
            none = false;
        }
        after_escape = c == '\u{1b}';
        proof {
            at = at + 1;
        }
    }
    assert(text@.take(at) =~= text@);
    none
}

/// Computes the state in which `c` is read, coming from `state`.
pub fn turn(state: Escape, c: char) -> (next: Escape)
    ensures
        next == turned(state, c),
{
    match state {
        Escape::Normal => if c == '\u{1b}' {
            Escape::EscapeChar
        } else {
            state
        },
        Escape::EscapeChar => if c == '[' {
            Escape::OpenBracket
        } else {
            Escape::Normal
        },
        Escape::OpenBracket => if c == 'm' {
            Escape::AfterEscape
        } else {
            state
        },
        Escape::AfterEscape => state,
    }
}

/// Decides whether a character of the given width, read in `state`, counts
/// as hidden.
pub fn counts_as_hidden(state: Escape, width: Option<usize>) -> (hidden: bool)
    ensures
        hidden == is_hidden(state, width),
{
    let inside = match state {
        Escape::OpenBracket => true,
        Escape::AfterEscape => true,
        _ => false,
    };
    inside && match width {
        Some(columns) => columns > 0,
        None => false,
    }
}

/// Counts the characters of `line` that are hidden.
pub fn count_hidden(line: &str) -> (hidden: usize)
    ensures
        hidden == hidden_count(line@),
{
    let length: usize = line.unicode_len();
    let mut state = Escape::Normal;
    let mut hidden: usize = 0;
    let ghost mut at: int = 0;
    for c in it: line.chars()
        invariant
            it.seq() == line@,
            line@.len() == length,
            at == it.index(),
            0 <= at <= length,
            state == state_after(line@.take(at)),
            hidden == hidden_count(line@.take(at)),
            hidden <= at,
    {
        proof {
            assert(c == line@[at]);
            assert(line@.take(at + 1).drop_last() =~= line@.take(at));
            assert(line@.take(at + 1).last() == c);
        }
        let reading = turn(state, c);
        if counts_as_hidden(reading, measured_char_width(c)) {
            hidden = hidden + 1;
        }
        state = match reading {
            Escape::AfterEscape => Escape::Normal,
            _ => reading,
        };
        proof {
            at = at + 1;
        }
    }
    assert(line@.take(at) =~= line@);
    hidden
}

/// Decides whether a line can be measured.
pub fn does_line_fit(line: &str) -> (fits: bool)
    ensures
        fits == line_fits(line@),
{
    let width = measured_width(line);
    let hidden = count_hidden(line);
    hidden <= width
}

/// Decides whether a cell can be made from `text`.
pub fn is_cell_safe(text: &str) -> (safe: bool)
    ensures
        safe == cell_safe(text@),
{
    if has_no_escape_opening(text) {
        return true;
    }
    let lines = lines_of(text);
    let mut at: usize = 0;
    while at < lines.len()
        invariant
            at <= lines.len(),
            !opens_no_escape(text@),
            texts(lines@) == text_lines(text@),
            forall|k: int| 0 <= k < at ==> line_fits(#[trigger] text_lines(text@)[k]),
        decreases lines.len() - at,
    {
        assert(texts(lines@)[at as int] == lines[at as int]@);
        if !does_line_fit(lines[at].as_str()) {
            assert(!line_fits(text_lines(text@)[at as int]));
            return false;
        }
        at = at + 1;
    }
    assert(texts(lines@).len() == lines.len());
    true
}

/// Decides whether a cell can be made from each of `cells`.
pub fn are_cells_safe(cells: &Vec<String>) -> (safe: bool)
    ensures
        safe == all_cell_safe(texts(cells@)),
{
    let mut at: usize = 0;
    while at < cells.len()
        invariant
            at <= cells.len(),
            forall|j: int| 0 <= j < at ==> cell_safe(#[trigger] texts(cells@)[j]),
        decreases cells.len() - at,
    {
        assert(texts(cells@)[at as int] == cells[at as int]@);
        if !is_cell_safe(cells[at].as_str()) {
            return false;
        }
        at = at + 1;
    }
    true
}

} // verus!
