//! Tables of text cells, kept in a `prettytable::Table`.
//!
//! The table is the outside crate's. The first part of this file says what
//! the library relies on: what a table holds after each of the four
//! operations it uses. None of that is proved here. The second part is
//! verified against it: no text goes into a cell before it was found to be
//! one that a cell can take.

use crate::cells::{all_cell_safe, are_cells_safe};
use crate::text::{single_line, texts};
use crate::timestamp::TimeError;
use prettytable::format::consts::FORMAT_NO_BORDER_LINE_SEPARATOR;
use prettytable::{Cell, Row, Table};
use vstd::prelude::*;

verus! {

#[verifier::external_type_specification]
#[verifier::external_body]
pub struct ExTable(prettytable::Table);

/// The rows of a table, from the first added to the last: for each row the
/// content of its cells, from left to right.
pub uninterp spec fn table_rows(table: Table) -> Seq<Seq<Seq<char>>>;

/// The content of the cells of a table's title row, if it has one.
pub uninterp spec fn table_titles(table: Table) -> Option<Seq<Seq<char>>>;

/// Whether a table is drawn in the borderless format: no outer border, a bar
/// between columns, and a line under the titles only.
pub uninterp spec fn is_borderless(table: Table) -> bool;

/// The content of a cell made from `text`. The cell keeps the lines of the
/// text; a text without a line feed is kept as it is.
pub uninterp spec fn cell_content(text: Seq<char>) -> Seq<char>;

/// `Table::new`: a table without rows and without titles.
#[verifier::external_body]
fn empty_table() -> (table: Table)
    ensures
        table_rows(table) == Seq::<Seq<Seq<char>>>::empty(),
        table_titles(table) is None,
{
    Table::new()
}

/// `Table::set_format` with `FORMAT_NO_BORDER_LINE_SEPARATOR`, the format
/// that draws no border and separates the title line only. Rows and titles
/// stay as they are.
#[verifier::external_body]
fn use_borderless_format(table: &mut Table)
    ensures
        is_borderless(*final(table)),
        table_rows(*final(table)) == table_rows(*old(table)),
        table_titles(*final(table)) == table_titles(*old(table)),
{
    table.set_format(*FORMAT_NO_BORDER_LINE_SEPARATOR);
}

/// `Table::set_titles` with a row of one cell for each text, made by
/// `Cell::new`, which measures each line of the text and stops the program
/// where more is hidden than the line is wide: every text has to be one that
/// a cell can take. The rows and the format stay as they are; a single-line
/// text is the content of its cell.
#[verifier::external_body]
fn set_titles(table: &mut Table, titles: &Vec<String>)
    requires
        all_cell_safe(texts(titles@)),
    ensures
        is_borderless(*final(table)) == is_borderless(*old(table)),
        table_rows(*final(table)) == table_rows(*old(table)),
        table_titles(*final(table)) is Some,
        table_titles(*final(table))->Some_0.len() == titles.len(),
        forall|i: int|
            0 <= i < titles.len() ==> table_titles(*final(table))->Some_0[i] == cell_content(
                #[trigger] titles[i]@,
            ),
        forall|i: int|
            0 <= i < titles.len() && single_line(#[trigger] titles[i]@) ==> table_titles(
                *final(table),
            )->Some_0[i] == titles[i]@,
{
    table.set_titles(Row::new(titles.iter().map(|text| Cell::new(text)).collect()));
}

/// `Table::add_row` with a row of one cell for each text, made by
/// `Cell::new`, which measures each line of the text and stops the program
/// where more is hidden than the line is wide: every text has to be one that
/// a cell can take. The new row comes after the rows that were there; the
/// titles and the format stay as they are; a single-line text is the content
/// of its cell.
#[verifier::external_body]
fn push_row(table: &mut Table, cells: &Vec<String>)
    requires
        all_cell_safe(texts(cells@)),
    ensures
        is_borderless(*final(table)) == is_borderless(*old(table)),
        table_titles(*final(table)) == table_titles(*old(table)),
        table_rows(*final(table)).len() == table_rows(*old(table)).len() + 1,
        table_rows(*final(table)).drop_last() == table_rows(*old(table)),
        table_rows(*final(table)).last().len() == cells.len(),
        forall|i: int|
            0 <= i < cells.len() ==> table_rows(*final(table)).last()[i] == cell_content(
                #[trigger] cells[i]@,
            ),
        forall|i: int|
            0 <= i < cells.len() && single_line(#[trigger] cells[i]@) ==> table_rows(
                *final(table),
            ).last()[i] == cells[i]@,
{
    table.add_row(Row::new(cells.iter().map(|text| Cell::new(text)).collect()));
}

/// The contents of the cells made from `texts`, one cell for each.
pub open spec fn cell_contents(texts: Seq<Seq<char>>) -> Seq<Seq<char>> {
    texts.map_values(|text: Seq<char>| cell_content(text))
}

/// Why a row could not be made.
#[derive(Debug, Clone, Copy, PartialEq, Eq, Structural)]
pub enum RowFault {
    /// The timestamp of the row cannot be used.
    Time(TimeError),
    /// A text of the row holds a terminal escape sequence that hides more
    /// than a line of the text is wide; no cell can take it.
    EscapeSequence,
}

/// A row that could not be made: its place in the table, counted from 0, and
/// what stopped it.
#[derive(Debug, Clone, Copy, PartialEq, Eq, Structural)]
pub struct RowError {
    pub row: usize,
    pub cause: RowFault,
}

/// What becomes of the texts made for a row: a timestamp fault stays one;
/// texts that a cell cannot take are a fault of their own; other texts are
/// the row.
pub open spec fn table_row(cells: Result<Seq<Seq<char>>, TimeError>) -> Result<
    Seq<Seq<char>>,
    RowFault,
> {
    match cells {
        Err(error) => Err(RowFault::Time(error)),
        Ok(row) => if all_cell_safe(row) {
            Ok(row)
        } else {
            Err(RowFault::EscapeSequence)
        },
    }
}

/// Makes a borderless table with the given titles and no rows.
pub(crate) fn titled_table(titles: &Vec<String>) -> (table: Table)
    requires
        all_cell_safe(texts(titles@)),
        forall|i: int| 0 <= i < titles.len() ==> single_line(#[trigger] titles[i]@),
    ensures
        is_borderless(table),
        table_titles(table) == Some(texts(titles@)),
        table_rows(table).len() == 0,
{
    let mut table = empty_table();
    use_borderless_format(&mut table);
    set_titles(&mut table, titles);
    assert(table_titles(table)->Some_0 =~= texts(titles@));
    table
}

/// Adds a row of one cell for each text to `table`, unless a cell cannot
/// take its text: then the table stays as it is. A single-line text is the
/// content of its cell.
pub(crate) fn append_row(table: &mut Table, cells: &Vec<String>) -> (added: Result<(), RowFault>)
    ensures
        added is Ok <==> all_cell_safe(texts(cells@)),
        added is Err ==> added == Err::<(), RowFault>(RowFault::EscapeSequence) && *final(table)
            == *old(table),
        added is Ok ==> {
            &&& is_borderless(*final(table)) == is_borderless(*old(table))
            &&& table_titles(*final(table)) == table_titles(*old(table))
            &&& table_rows(*final(table)) == table_rows(*old(table)).push(
                cell_contents(texts(cells@)),
            )
            &&& forall|j: int|
                0 <= j < cells.len() && single_line(#[trigger] texts(cells@)[j]) ==> table_rows(
                    *final(table),
                ).last()[j] == texts(cells@)[j]
        },
{
    if !are_cells_safe(cells) {
        return Err(RowFault::EscapeSequence);
    }
    let ghost before = table_rows(*table);
    push_row(table, cells);
    proof {
        let after = table_rows(*table);
        assert(after.last() =~= cell_contents(texts(cells@)));
        assert(after =~= after.drop_last().push(after.last()));
        assert forall|j: int|
            0 <= j < cells.len() && single_line(#[trigger] texts(cells@)[j]) implies after.last()[j]
            == texts(cells@)[j] by {
            assert(single_line(cells[j]@));
        }
    }
    Ok(())
}

} // verus!
