use hcwatch::pings::{duration_string, ping_cells, pings, time_string, Ping, SHOWN_PINGS};
use hcwatch::table::{RowError, RowFault};
use hcwatch::timestamp::{read_timestamp, TimeError};
use prettytable::format::consts::FORMAT_NO_BORDER_LINE_SEPARATOR;
use prettytable::{Cell, Row, Table};

fn ping(n: i64, date: &str, kind: &str, duration: Option<f64>) -> Ping {
    Ping {
        n,
        date: date.to_string(),
        kind: kind.to_string(),
        duration: duration.map(|seconds| format!("{:.3}", seconds)),
    }
}

fn row(cells: &[&str]) -> Row {
    Row::new(cells.iter().map(|c| Cell::new(c)).collect())
}

fn cell_text(table: &Table, row: usize, column: usize) -> String {
    table.get_row(row).unwrap().get_cell(column).unwrap().get_content()
}

#[test]
fn duration_cell_has_three_decimals_and_the_unit() {
    assert_eq!(duration_string(&Some(format!("{:.3}", 1.5f64))), "1.500 sec");
    assert_eq!(duration_string(&Some(format!("{:.3}", 0.0004f64))), "0.000 sec");
    assert_eq!(duration_string(&Some(format!("{:.3}", 12.3456f64))), "12.346 sec");
}

#[test]
fn duration_cell_is_empty_without_a_duration() {
    assert_eq!(duration_string(&None), "");
}

#[test]
fn time_cell_has_no_leading_zeros() {
    let stamp = read_timestamp("2021-03-04T05:06:07Z").unwrap();
    assert_eq!(time_string(&stamp), "4/3 5:6");
    let stamp = read_timestamp("2021-12-24T23:59:59Z").unwrap();
    assert_eq!(time_string(&stamp), "24/12 23:59");
    let stamp = read_timestamp("2021-01-01T00:00:00Z").unwrap();
    assert_eq!(time_string(&stamp), "1/1 0:0");
}

#[test]
fn time_cell_is_in_utc() {
    let stamp = read_timestamp("2021-03-04T01:30:00+02:00").unwrap();
    assert_eq!(time_string(&stamp), "3/3 23:30");
}

#[test]
fn ping_cells_of_a_timed_ping() {
    let cells = ping_cells(&ping(42, "2021-03-04T05:06:07Z", "success", Some(1.5)));
    assert_eq!(
        cells,
        Ok(vec!["#42".to_string(), "4/3 5:6".to_string(), "success".to_string(), "1.500 sec".to_string()])
    );
}

#[test]
fn ping_cells_of_an_untimed_ping() {
    let cells = ping_cells(&ping(-3, "2021-12-24T23:59:59Z", "start", None));
    assert_eq!(
        cells,
        Ok(vec!["#-3".to_string(), "24/12 23:59".to_string(), "start".to_string(), String::new()])
    );
}

#[test]
fn ping_cells_fails_on_a_bad_timestamp() {
    assert_eq!(ping_cells(&ping(1, "noon", "fail", None)), Err(TimeError::Unparsable));
}

#[test]
fn pings_shows_the_first_ten_of_twelve() {
    let fetched: Vec<Ping> = (0..12)
        .map(|i| ping(112 - i, "2021-03-04T05:06:07Z", if i % 2 == 0 { "success" } else { "fail" }, None))
        .collect();
    let table = pings(&fetched).unwrap();
    assert_eq!(SHOWN_PINGS, 10);
    assert_eq!(table.len(), 10);
    for i in 0..10 {
        assert_eq!(cell_text(&table, i, 0), format!("#{}", 112 - i as i64));
        assert_eq!(cell_text(&table, i, 2), if i % 2 == 0 { "success" } else { "fail" });
    }
}

#[test]
fn pings_shows_all_of_nine_and_of_ten() {
    for count in [0usize, 1, 9, 10, 11] {
        let fetched: Vec<Ping> =
            (0..count).map(|i| ping(i as i64, "2021-03-04T05:06:07Z", "success", None)).collect();
        let table = pings(&fetched).unwrap();
        assert_eq!(table.len(), count.min(10));
    }
}

#[test]
fn pings_builds_the_whole_table() {
    let fetched = vec![
        ping(7, "2021-03-04T05:06:07Z", "success", Some(1.5)),
        ping(6, "2021-03-04T04:00:00Z", "start", None),
    ];
    let table = pings(&fetched).unwrap();

    let mut expected = Table::new();
    expected.set_format(*FORMAT_NO_BORDER_LINE_SEPARATOR);
    expected.set_titles(row(&["Number", "Time", "Type", "Duration"]));
    expected.add_row(row(&["#7", "4/3 5:6", "success", "1.500 sec"]));
    expected.add_row(row(&["#6", "4/3 4:0", "start", ""]));
    assert_eq!(table, expected);

    let printed = table.to_string();
    let lines: Vec<&str> = printed.lines().collect();
    assert_eq!(lines.len(), 4);
    assert_eq!(lines[0].trim_end(), " Number | Time    | Type    | Duration");
    assert_eq!(lines[2].trim_end(), " #7     | 4/3 5:6 | success | 1.500 sec");
    assert_eq!(lines[3].trim_end(), " #6     | 4/3 4:0 | start   |");
}

#[test]
fn pings_fails_as_a_whole_on_a_bad_timestamp_among_the_shown() {
    let mut fetched: Vec<Ping> =
        (0..12).map(|i| ping(i, "2021-03-04T05:06:07Z", "success", None)).collect();
    fetched[4].date = "04.03.2021".to_string();
    fetched[8].date = "never".to_string();
    assert_eq!(pings(&fetched).err(), Some(RowError { row: 4, cause: RowFault::Time(TimeError::Unparsable) }));
}

#[test]
fn pings_does_not_read_what_it_does_not_show() {
    let mut fetched: Vec<Ping> =
        (0..12).map(|i| ping(i, "2021-03-04T05:06:07Z", "success", None)).collect();
    fetched[10].date = "never".to_string();
    fetched[11].date = String::new();
    assert_eq!(pings(&fetched).unwrap().len(), 10);
}

#[test]
fn a_cell_keeps_the_lines_of_its_text() {
    let fetched = vec![ping(1, "2021-03-04T05:06:07Z", "two\nlines", None)];
    let table = pings(&fetched).unwrap();
    assert_eq!(cell_text(&table, 0, 2), "two\nlines");
}

#[test]
fn pings_shows_texts_with_colour_sequences() {
    let mut fetched = vec![ping(5, "2021-03-04T05:06:07Z", "\u{1b}[32msuccess\u{1b}[0m", None)];
    fetched[0].duration = Some("\u{1b}[1m1.500".to_string());
    let table = pings(&fetched).unwrap();
    assert_eq!(cell_text(&table, 0, 0), "#5");
    assert_eq!(cell_text(&table, 0, 2), "\u{1b}[32msuccess\u{1b}[0m");
    assert_eq!(cell_text(&table, 0, 3), "\u{1b}[1m1.500 sec");
}

#[test]
fn pings_turns_down_a_kind_that_no_cell_can_take() {
    let mut fetched: Vec<Ping> =
        (0..3).map(|i| ping(i, "2021-03-04T05:06:07Z", "success", None)).collect();
    fetched[2].kind = "\u{1b}[\u{644}\u{627}\u{644}\u{627}".to_string();
    assert_eq!(pings(&fetched).err(), Some(RowError { row: 2, cause: RowFault::EscapeSequence }));
}

#[test]
fn pings_turns_down_a_duration_that_no_cell_can_take() {
    let mut fetched = vec![ping(1, "2021-03-04T05:06:07Z", "success", None)];
    fetched[0].duration = Some("\u{1b}[\u{644}\u{627}\u{644}\u{627}\u{644}\u{627}".to_string());
    assert_eq!(pings(&fetched).err(), Some(RowError { row: 0, cause: RowFault::EscapeSequence }));
}

#[test]
fn pings_shows_a_duration_whose_hidden_part_is_as_wide_as_the_line() {
    let mut fetched = vec![ping(1, "2021-03-04T05:06:07Z", "success", None)];
    fetched[0].duration = Some("\u{1b}[\u{644}\u{627}".to_string());
    let table = pings(&fetched).unwrap();
    assert_eq!(cell_text(&table, 0, 3), "\u{1b}[\u{644}\u{627} sec");
}

#[test]
fn pings_does_not_look_at_texts_it_does_not_show() {
    let mut fetched: Vec<Ping> =
        (0..11).map(|i| ping(i, "2021-03-04T05:06:07Z", "success", None)).collect();
    fetched[10].kind = "\u{1b}[\u{644}\u{627}\u{644}\u{627}".to_string();
    assert_eq!(pings(&fetched).unwrap().len(), 10);
}
