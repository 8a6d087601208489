//! The table of the pings that a check has logged: the most recent ones, one
//! row for each.

use crate::decimal::{
    append_decimal, decimal, lemma_decimal_single_line, signed_decimal, signed_decimal_string,
};
use crate::cells::all_cell_safe;
use crate::table::{
    append_row, cell_contents, is_borderless, table_row, table_rows, table_titles,
    titled_table, RowError, RowFault,
};
use crate::text::{lemma_single_line_concat, single_line, texts};
use crate::timestamp::{read_timestamp, rfc3339_timestamp, TimeError, Timestamp};
use prettytable::Table;
use vstd::prelude::*;
use vstd::string::*;

verus! {

/// How many pings the table shows at most.
pub const SHOWN_PINGS: usize = 10;

/// A logged ping, as far as the table shows it.
#[derive(Debug, Clone)]
pub struct Ping {
    /// The sequence number of the ping.
    pub n: i64,
    /// The RFC 3339 timestamp of the ping.
    pub date: String,
    /// The kind of the ping, such as `success`, `fail` or `start`.
    pub kind: String,
    /// The run time in seconds, written with three decimals, where the ping
    /// carries one.
    pub duration: Option<String>,
}

/// The titles of the table of pings.
pub open spec fn ping_titles() -> Seq<Seq<char>> {
    seq!["Number"@, "Time"@, "Type"@, "Duration"@]
}

/// The text of the number cell: the sequence number after a `#`.
pub open spec fn number_text(n: int) -> Seq<char> {
    "#"@ + signed_decimal(n)
}

/// The text of the time cell: day and month, then hour and minute, in UTC,
/// each number without padding.
pub open spec fn time_text(stamp: Timestamp) -> Seq<char> {
    decimal(stamp.day as nat) + "/"@ + decimal(stamp.month as nat) + " "@ + decimal(
        stamp.hour as nat,
    ) + ":"@ + decimal(stamp.minute as nat)
}

/// The text of the duration cell: the seconds followed by ` sec`, or nothing
/// for a ping without a run time.
pub open spec fn duration_text(duration: Option<String>) -> Seq<char> {
    match duration {
        Some(seconds) => seconds@ + " sec"@,
        None => Seq::<char>::empty(),
    }
}

/// The cells of the row for `ping`, whose timestamp was read as `stamp`:
/// number, time, kind and duration.
pub open spec fn ping_row_at(ping: Ping, stamp: Timestamp) -> Seq<Seq<char>> {
    seq![number_text(ping.n as int), time_text(stamp), ping.kind@, duration_text(ping.duration)]
}

/// The cells of the row for `ping`.
pub open spec fn ping_row(ping: Ping) -> Result<Seq<Seq<char>>, TimeError> {
    match rfc3339_timestamp(ping.date@) {
        Some(stamp) => Ok(ping_row_at(ping, stamp)),
        None => Err(TimeError::Unparsable),
    }
}

/// The number cell and the time cell of a row are single lines, so the table
/// shows them as they are.
pub proof fn lemma_number_and_time_single_line(ping: Ping, stamp: Timestamp)
    ensures
        single_line(ping_row_at(ping, stamp)[0]),
        single_line(ping_row_at(ping, stamp)[1]),
{
    reveal_strlit("#");
    reveal_strlit("/");
    reveal_strlit(" ");
    reveal_strlit(":");
    let n = ping.n as int;
    if n < 0 {
        lemma_decimal_single_line((-n) as nat);
        lemma_single_line_concat(seq!['-'], decimal((-n) as nat));
    } else {
        lemma_decimal_single_line(n as nat);
    }
    lemma_single_line_concat("#"@, signed_decimal(n));
    let day = decimal(stamp.day as nat);
    let month = decimal(stamp.month as nat);
    let hour = decimal(stamp.hour as nat);
    let minute = decimal(stamp.minute as nat);
    lemma_decimal_single_line(stamp.day as nat);
    lemma_decimal_single_line(stamp.month as nat);
    lemma_decimal_single_line(stamp.hour as nat);
    lemma_decimal_single_line(stamp.minute as nat);
    lemma_single_line_concat(day, "/"@);
    lemma_single_line_concat(day + "/"@, month);
    lemma_single_line_concat(day + "/"@ + month, " "@);
    lemma_single_line_concat(day + "/"@ + month + " "@, hour);
    lemma_single_line_concat(day + "/"@ + month + " "@ + hour, ":"@);
    lemma_single_line_concat(day + "/"@ + month + " "@ + hour + ":"@, minute);
}

/// How many of `count` pings are shown: all of them, up to the limit.
pub open spec fn shown_count(count: nat) -> nat {
    if count <= SHOWN_PINGS {
        count
    } else {
        SHOWN_PINGS as nat
    }
}

/// Writes the time cell of a timestamp.
pub fn time_string(stamp: &Timestamp) -> (text: String)
    ensures
        text@ == time_text(*stamp),
{
    let mut text = String::new();
    append_decimal(&mut text, stamp.day as u64);
    text.append("/");
    append_decimal(&mut text, stamp.month as u64);
    text.append(" ");
    append_decimal(&mut text, stamp.hour as u64);
    text.append(":");
    append_decimal(&mut text, stamp.minute as u64);
    assert(text@ =~= time_text(*stamp));
    text
}

/// Writes the duration cell of a ping.
pub fn duration_string(duration: &Option<String>) -> (text: String)
    ensures
        text@ == duration_text(*duration),
{
    match duration {
        Some(seconds) => {
            let mut text = seconds.clone();
            text.append(" sec");
            text
        },
        None => String::new(),
    }
}

/// Makes the cells of the row for one ping, given what its timestamp was
/// read as.
pub fn ping_cells_at(ping: &Ping, stamp: &Timestamp) -> (row: Vec<String>)
    ensures
        texts(row@) == ping_row_at(*ping, *stamp),
{
    let mut number = String::from_str("#");
    let digits = signed_decimal_string(ping.n);
    number.append(digits.as_str());
    let mut row: Vec<String> = Vec::new();
    row.push(number);
    row.push(time_string(stamp));
    row.push(ping.kind.clone());
    row.push(duration_string(&ping.duration));
    assert(texts(row@) =~= ping_row_at(*ping, *stamp));
    row
}

/// Makes the cells of the row for one ping. Fails where the timestamp of the
/// ping cannot be read.
pub fn ping_cells(ping: &Ping) -> (cells: Result<Vec<String>, TimeError>)
    ensures
        match cells {
            Ok(row) => ping_row(*ping) == Ok::<Seq<Seq<char>>, TimeError>(texts(row@)),
            Err(error) => ping_row(*ping) == Err::<Seq<Seq<char>>, TimeError>(error),
        },
{
    match read_timestamp(ping.date.as_str()) {
        Ok(stamp) => Ok(ping_cells_at(ping, &stamp)),
        Err(error) => Err(error),
    }
}

/// The row of the table for `ping`: its cells, unless its timestamp cannot be
/// read or a cell cannot take its text.
pub open spec fn shown_row(ping: Ping) -> Result<Seq<Seq<char>>, RowFault> {
    table_row(ping_row(ping))
}

/// Whether `table` shows the first pings of `pings`, up to the limit:
/// borderless, with the fixed titles and one row for each shown ping, in the
/// order of the pings. Each cell holds what a table cell keeps of its text,
/// which for a single-line text is the text itself; the number cell and the
/// time cell always are.
pub open spec fn shows_pings(table: Table, pings: Seq<Ping>) -> bool {
    let shown = shown_count(pings.len());
    &&& forall|i: int| 0 <= i < shown ==> shown_row(#[trigger] pings[i]) is Ok
    &&& is_borderless(table)
    &&& table_titles(table) == Some(ping_titles())
    &&& table_rows(table).len() == shown
    &&& forall|i: int|
        0 <= i < shown ==> #[trigger] table_rows(table)[i] == cell_contents(
            shown_row(pings[i])->Ok_0,
        )
    &&& forall|i: int, j: int|
        0 <= i < shown && 0 <= j < 4 && single_line(shown_row(pings[i])->Ok_0[j])
            ==> #[trigger] table_rows(table)[i][j] == shown_row(pings[i])->Ok_0[j]
    &&& forall|i: int|
        0 <= i < shown ==> (#[trigger] table_rows(table)[i])[0] == shown_row(pings[i])->Ok_0[0]
            && table_rows(table)[i][1] == shown_row(pings[i])->Ok_0[1]
}

/// Whether `error` names the first shown ping whose row cannot be made, and
/// why.
pub open spec fn first_failing_ping(pings: Seq<Ping>, error: RowError) -> bool {
    &&& error.row < shown_count(pings.len())
    &&& shown_row(pings[error.row as int]) == Err::<Seq<Seq<char>>, RowFault>(error.cause)
    &&& forall|i: int| 0 <= i < error.row ==> shown_row(#[trigger] pings[i]) is Ok
}

/// The titles of the table of pings, as owned strings.
fn ping_title_strings() -> (titles: Vec<String>)
    ensures
        texts(titles@) == ping_titles(),
        all_cell_safe(texts(titles@)),
        forall|i: int| 0 <= i < titles.len() ==> single_line(#[trigger] titles[i]@),
{
    proof {
        reveal_strlit("Number");
        reveal_strlit("Time");
        reveal_strlit("Type");
        reveal_strlit("Duration");
    }
    let mut titles: Vec<String> = Vec::new();
    titles.push(String::from_str("Number"));
    titles.push(String::from_str("Time"));
    titles.push(String::from_str("Type"));
    titles.push(String::from_str("Duration"));
    assert(texts(titles@) =~= ping_titles());
    titles
}

/// Tabulates the pings of a check, given in the order in which they were
/// logged last: a borderless table with the titles `Number`, `Time`, `Type`
/// and `Duration` and one row for each of the first ten pings, in that order;
/// the others are left out and not looked at. One shown row that cannot be
/// made fails the whole table: a timestamp that cannot be read, or a text
/// that no cell can take. The error names the first such ping.
pub fn pings(fetched: &Vec<Ping>) -> (listing: Result<Table, RowError>)
    ensures
        match listing {
            Ok(table) => shows_pings(table, fetched@),
            Err(error) => first_failing_ping(fetched@, error),
        },
{
    let titles = ping_title_strings();
    let mut table = titled_table(&titles);
    let shown: usize = if fetched.len() <= SHOWN_PINGS {
        fetched.len()
    } else {
        SHOWN_PINGS
    };
    let mut at: usize = 0;
    while at < shown
        invariant
            at <= shown <= fetched.len(),
            shown == shown_count(fetched@.len()),
            is_borderless(table),
            table_titles(table) == Some(ping_titles()),
            table_rows(table).len() == at,
            forall|i: int| 0 <= i < at ==> shown_row(#[trigger] fetched[i]) is Ok,
            forall|i: int|
                0 <= i < at ==> #[trigger] table_rows(table)[i] == cell_contents(
                    shown_row(fetched[i])->Ok_0,
                ),
            forall|i: int, j: int|
                0 <= i < at && 0 <= j < 4 && single_line(shown_row(fetched[i])->Ok_0[j])
                    ==> #[trigger] table_rows(table)[i][j] == shown_row(fetched[i])->Ok_0[j],
            forall|i: int|
                0 <= i < at ==> (#[trigger] table_rows(table)[i])[0] == shown_row(
                    fetched[i],
                )->Ok_0[0] && table_rows(table)[i][1] == shown_row(fetched[i])->Ok_0[1],
        decreases shown - at,
    {
        let cells = match ping_cells(&fetched[at]) {
            Ok(cells) => cells,
            Err(cause) => {
                return Err(RowError { row: at, cause: RowFault::Time(cause) });
            },
        };
        let ghost before = table_rows(table);
        match append_row(&mut table, &cells) {
            Ok(()) => {},
            Err(cause) => {
                return Err(RowError { row: at, cause });
            },
        }
        proof {
            let after = table_rows(table);
            let row = shown_row(fetched[at as int])->Ok_0;
            assert(texts(cells@) == row);
            assert(after.last() == after[at as int]);
            assert forall|i: int| 0 <= i < at + 1 implies #[trigger] after[i] == cell_contents(
                shown_row(fetched[i])->Ok_0,
            ) by {
                if i < at {
                    assert(after[i] == before[i]);
                }
            }
            assert forall|i: int, j: int|
                0 <= i < at + 1 && 0 <= j < 4 && single_line(
                    shown_row(fetched[i])->Ok_0[j],
                ) implies #[trigger] after[i][j] == shown_row(fetched[i])->Ok_0[j] by {
                if i < at {
                    assert(after[i] == before[i]);
                }
            }
            assert forall|i: int| 0 <= i < at + 1 implies (#[trigger] after[i])[0] == shown_row(
                fetched[i],
            )->Ok_0[0] && after[i][1] == shown_row(fetched[i])->Ok_0[1] by {
                if i < at {
                    assert(after[i] == before[i]);
                } else {
                    lemma_number_and_time_single_line(
                        fetched[at as int],
                        rfc3339_timestamp(fetched[at as int].date@)->Some_0,
                    );
                }
            }
        }
        at = at + 1;
    }
    Ok(table)
}

} // verus!
