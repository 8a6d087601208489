//! The table of checks: one row for each check, with the time since its last
//! ping.

use crate::decimal::{append_decimal, decimal, lemma_decimal_single_line};
use crate::table::{
    append_row, cell_contents, is_borderless, table_row, table_rows, table_titles, titled_table,
    RowError, RowFault,
};
use crate::cells::all_cell_safe;
use crate::text::{lemma_single_line_concat, single_line, texts};
use crate::timestamp::{
    elapsed_seconds, read_timestamp, rfc3339_timestamp, seconds_since, Instant, TimeError,
    Timestamp,
};
use prettytable::Table;
use vstd::prelude::*;
use vstd::string::*;

verus! {

/// A check, as far as the table shows it.
#[derive(Debug, Clone)]
pub struct Check {
    /// The identifier of the check, where it exposes one.
    pub id: Option<String>,
    /// The name of the check.
    pub name: String,
    /// The RFC 3339 timestamp of the last ping, if there was one.
    pub last_ping: Option<String>,
}

/// The titles of the table of checks.
pub open spec fn check_titles() -> Seq<Seq<char>> {
    seq!["ID"@, "Name"@, "Last Ping"@]
}

/// The text for a last ping `seconds` ago: the whole hours, and the whole
/// minutes of the entire span (not those left over after the hours).
pub open spec fn age_text(seconds: int) -> Seq<char> {
    decimal((seconds / 3600) as nat) + " hour(s) and "@ + decimal((seconds / 60) as nat)
        + " minute(s) ago"@
}

/// The text of the identifier cell: the identifier, or a dash for none.
pub open spec fn id_text(id: Option<String>) -> Seq<char> {
    match id {
        Some(text) => text@,
        None => "-"@,
    }
}

/// The text of the last-ping cell at the moment `now`, for a last ping read
/// as `stamp`: a dash where the check was never pinged, else the age of the
/// ping.
pub open spec fn last_ping_text(stamp: Option<Timestamp>, now: Instant) -> Result<
    Seq<char>,
    TimeError,
> {
    match stamp {
        None => Ok("-"@),
        Some(stamp) => match elapsed_seconds(now, stamp.instant) {
            Ok(seconds) => Ok(age_text(seconds)),
            Err(error) => Err(error),
        },
    }
}

/// The cells of the row for `check` at the moment `now`, for a last ping read
/// as `stamp`: identifier, name and time since the last ping.
pub open spec fn check_row_at(check: Check, stamp: Option<Timestamp>, now: Instant) -> Result<
    Seq<Seq<char>>,
    TimeError,
> {
    match last_ping_text(stamp, now) {
        Ok(age) => Ok(seq![id_text(check.id), check.name@, age]),
        Err(error) => Err(error),
    }
}

/// What the timestamp of the last ping reads as: nothing where there was no
/// ping, and a fault where the text is no timestamp.
pub open spec fn last_ping_stamp(last_ping: Option<String>) -> Result<
    Option<Timestamp>,
    TimeError,
> {
    match last_ping {
        None => Ok(None),
        Some(text) => match rfc3339_timestamp(text@) {
            Some(stamp) => Ok(Some(stamp)),
            None => Err(TimeError::Unparsable),
        },
    }
}

/// The cells of the row for `check` at the moment `now`.
pub open spec fn check_row(check: Check, now: Instant) -> Result<Seq<Seq<char>>, TimeError> {
    match last_ping_stamp(check.last_ping) {
        Ok(stamp) => check_row_at(check, stamp, now),
        Err(error) => Err(error),
    }
}

/// The age text is a single line.
pub proof fn lemma_age_text_single_line(seconds: int)
    ensures
        single_line(age_text(seconds)),
{
    reveal_strlit(" hour(s) and ");
    reveal_strlit(" minute(s) ago");
    let hours = decimal((seconds / 3600) as nat);
    let minutes = decimal((seconds / 60) as nat);
    lemma_decimal_single_line((seconds / 3600) as nat);
    lemma_decimal_single_line((seconds / 60) as nat);
    assert(single_line(" hour(s) and "@));
    assert(single_line(" minute(s) ago"@));
    lemma_single_line_concat(hours, " hour(s) and "@);
    lemma_single_line_concat(hours + " hour(s) and "@, minutes);
    lemma_single_line_concat(hours + " hour(s) and "@ + minutes, " minute(s) ago"@);
}

/// The last-ping cell of a row is a single line, so the table shows it as it
/// is.
pub proof fn lemma_last_ping_cell_single_line(check: Check, now: Instant)
    requires
        check_row(check, now) is Ok,
    ensures
        single_line(check_row(check, now)->Ok_0[2]),
{
    reveal_strlit("-");
    let stamp = last_ping_stamp(check.last_ping)->Ok_0;
    if let Some(read) = stamp {
        lemma_age_text_single_line(elapsed_seconds(now, read.instant)->Ok_0);
    }
}

/// Writes the age of a ping that lies `seconds` back.
pub fn age_string(seconds: u64) -> (text: String)
    ensures
        text@ == age_text(seconds as int),
{
    let mut text = String::new();
    append_decimal(&mut text, seconds / 3600);
    text.append(" hour(s) and ");
    append_decimal(&mut text, seconds / 60);
    text.append(" minute(s) ago");
    assert(text@ =~= age_text(seconds as int));
    text
}

/// Makes the cells of the row for one check at the moment `now`, given what
/// the timestamp of its last ping was read as. Fails where the last ping
/// lies after `now`, or too far back.
pub fn check_cells_at(check: &Check, stamp: Option<Timestamp>, now: Instant) -> (cells: Result<
    Vec<String>,
    TimeError,
>)
    ensures
        match cells {
            Ok(row) => check_row_at(*check, stamp, now) == Ok::<Seq<Seq<char>>, TimeError>(
                texts(row@),
            ),
            Err(error) => check_row_at(*check, stamp, now) == Err::<Seq<Seq<char>>, TimeError>(
                error,
            ),
        },
{
    let age = match stamp {
        None => String::from_str("-"),
        Some(stamp) => match seconds_since(now, stamp.instant) {
            Ok(seconds) => age_string(seconds),
            Err(error) => {
                return Err(error);
            },
        },
    };
    let id = match &check.id {
        Some(text) => text.clone(),
        None => String::from_str("-"),
    };
    let mut row: Vec<String> = Vec::new();
    row.push(id);
    row.push(check.name.clone());
    row.push(age);
    assert(texts(row@) =~= check_row_at(*check, stamp, now)->Ok_0);
    Ok(row)
}

/// Makes the cells of the row for one check at the moment `now`. Fails where
/// the timestamp of the last ping cannot be read, lies after `now`, or lies
/// too far back.
pub fn check_cells(check: &Check, now: Instant) -> (cells: Result<Vec<String>, TimeError>)
    ensures
        match cells {
            Ok(row) => check_row(*check, now) == Ok::<Seq<Seq<char>>, TimeError>(texts(row@)),
            Err(error) => check_row(*check, now) == Err::<Seq<Seq<char>>, TimeError>(error),
        },
{
    let stamp = match &check.last_ping {
        None => None,
        Some(text) => match read_timestamp(text.as_str()) {
            Ok(stamp) => Some(stamp),
            Err(error) => {
                return Err(error);
            },
        },
    };
    check_cells_at(check, stamp, now)
}

/// The row of the listing for `check` at the moment `now`: its cells, unless
/// the timestamp of the last ping cannot be used or a cell cannot take its
/// text.
pub open spec fn listed_row(check: Check, now: Instant) -> Result<Seq<Seq<char>>, RowFault> {
    table_row(check_row(check, now))
}

/// Whether `table` is the listing of `checks` at the moment `now`: borderless,
/// with the fixed titles and one row for each check, in the order of the
/// checks. Each cell holds what a table cell keeps of its text, which for a
/// single-line text is the text itself; the last-ping cell always is one.
pub open spec fn shows_checks(table: Table, checks: Seq<Check>, now: Instant) -> bool {
    &&& forall|i: int| 0 <= i < checks.len() ==> listed_row(#[trigger] checks[i], now) is Ok
    &&& is_borderless(table)
    &&& table_titles(table) == Some(check_titles())
    &&& table_rows(table).len() == checks.len()
    &&& forall|i: int|
        0 <= i < checks.len() ==> #[trigger] table_rows(table)[i] == cell_contents(
            listed_row(checks[i], now)->Ok_0,
        )
    &&& forall|i: int, j: int|
        0 <= i < checks.len() && 0 <= j < 3 && single_line(listed_row(checks[i], now)->Ok_0[j])
            ==> #[trigger] table_rows(table)[i][j] == listed_row(checks[i], now)->Ok_0[j]
    &&& forall|i: int|
        0 <= i < checks.len() ==> (#[trigger] table_rows(table)[i])[2] == listed_row(
            checks[i],
            now,
        )->Ok_0[2]
}

/// Whether `error` names the first check whose row cannot be made, and why.
pub open spec fn first_failing_check(checks: Seq<Check>, now: Instant, error: RowError) -> bool {
    &&& error.row < checks.len()
    &&& listed_row(checks[error.row as int], now) == Err::<Seq<Seq<char>>, RowFault>(error.cause)
    &&& forall|i: int| 0 <= i < error.row ==> listed_row(#[trigger] checks[i], now) is Ok
}

/// In a listing, the last-ping cell of a check that was pinged holds the
/// whole hours, and the whole minutes of the entire span, between the ping
/// and `now`; that of a check that was never pinged holds a dash.
pub proof fn law_last_ping_cell(table: Table, checks: Seq<Check>, now: Instant, i: int)
    ensures
        shows_checks(table, checks, now) && 0 <= i < checks.len() ==> match last_ping_stamp(
            checks[i].last_ping,
        ) {
            Ok(Some(stamp)) => {
                let span = now.total_nanos() - stamp.instant.total_nanos();
                let seconds = span / 1_000_000_000;
                &&& span >= 0
                &&& table_rows(table)[i][2] == decimal((seconds / 3600) as nat)
                    + " hour(s) and "@ + decimal((seconds / 60) as nat) + " minute(s) ago"@
            },
            Ok(None) => table_rows(table)[i][2] == "-"@,
            Err(_) => false,
        },
{
    if shows_checks(table, checks, now) && 0 <= i < checks.len() {
        assert(listed_row(checks[i], now) is Ok);
        assert(table_rows(table)[i][2] == listed_row(checks[i], now)->Ok_0[2]);
    }
}

/// The titles of the table of checks, as owned strings.
fn check_title_strings() -> (titles: Vec<String>)
    ensures
        texts(titles@) == check_titles(),
        all_cell_safe(texts(titles@)),
        forall|i: int| 0 <= i < titles.len() ==> single_line(#[trigger] titles[i]@),
{
    proof {
        reveal_strlit("ID");
        reveal_strlit("Name");
        reveal_strlit("Last Ping");
    }
    let mut titles: Vec<String> = Vec::new();
    titles.push(String::from_str("ID"));
    titles.push(String::from_str("Name"));
    titles.push(String::from_str("Last Ping"));
    assert(texts(titles@) =~= check_titles());
    titles
}

/// Lists the checks at the moment `now`: a borderless table with the titles
/// `ID`, `Name` and `Last Ping` and one row for each check, in the order
/// given. One row that cannot be made fails the whole listing: a timestamp
/// that cannot be used, or a text that no cell can take. The error names the
/// first such check.
pub fn list(checks: &Vec<Check>, now: Instant) -> (listing: Result<Table, RowError>)
    ensures
        match listing {
            Ok(table) => shows_checks(table, checks@, now),
            Err(error) => first_failing_check(checks@, now, error),
        },
{
    let titles = check_title_strings();
    let mut table = titled_table(&titles);
    let mut at: usize = 0;
    while at < checks.len()
        invariant
            at <= checks.len(),
            is_borderless(table),
            table_titles(table) == Some(check_titles()),
            table_rows(table).len() == at,
            forall|i: int| 0 <= i < at ==> listed_row(#[trigger] checks[i], now) is Ok,
            forall|i: int|
                0 <= i < at ==> #[trigger] table_rows(table)[i] == cell_contents(
                    listed_row(checks[i], now)->Ok_0,
                ),
            forall|i: int, j: int|
                0 <= i < at && 0 <= j < 3 && single_line(listed_row(checks[i], now)->Ok_0[j])
                    ==> #[trigger] table_rows(table)[i][j] == listed_row(checks[i], now)->Ok_0[j],
            forall|i: int|
                0 <= i < at ==> (#[trigger] table_rows(table)[i])[2] == listed_row(
                    checks[i],
                    now,
                )->Ok_0[2],
        decreases checks.len() - at,
    {
        let cells = match check_cells(&checks[at], now) {
            Ok(cells) => cells,
            Err(cause) => {
                return Err(RowError { row: at, cause: RowFault::Time(cause) });
            },
        };
        let ghost before = table_rows(table);
        match append_row(&mut table, &cells) {
            Ok(()) => {},
            Err(cause) => {
                return Err(RowError { row: at, cause });
            },
        }
        proof {
            let after = table_rows(table);
            let row = listed_row(checks[at as int], now)->Ok_0;
            assert(texts(cells@) == row);
            assert(after.last() == after[at as int]);
            assert forall|i: int| 0 <= i < at + 1 implies #[trigger] after[i] == cell_contents(
                listed_row(checks[i], now)->Ok_0,
            ) by {
                if i < at {
                    assert(after[i] == before[i]);
                }
            }
            assert forall|i: int, j: int|
                0 <= i < at + 1 && 0 <= j < 3 && single_line(
                    listed_row(checks[i], now)->Ok_0[j],
                ) implies #[trigger] after[i][j] == listed_row(checks[i], now)->Ok_0[j] by {
                if i < at {
                    assert(after[i] == before[i]);
                }
            }
            assert forall|i: int| 0 <= i < at + 1 implies (#[trigger] after[i])[2] == listed_row(
                checks[i],
                now,
            )->Ok_0[2] by {
                if i < at {
                    assert(after[i] == before[i]);
                } else {
                    lemma_last_ping_cell_single_line(checks[at as int], now);
                }
            }
        }
        at = at + 1;
    }
    Ok(table)
}

} // verus!
