use query_gateway::decoder::{decode_lines, Decoder, Table, FIELD_SEPARATOR};

fn lines(text: &[&str]) -> Vec<String> {
    text.iter().map(|line| line.to_string()).collect()
}

fn numbered_rows(count: usize) -> Vec<String> {
    let mut all = vec!["n\tsquare".to_string()];
    for n in 0..count {
        all.push(format!("{}\t{}", n, n * n));
    }
    all
}

#[test]
fn separator_is_the_tab() {
    assert_eq!(FIELD_SEPARATOR, '\t');
}

#[test]
fn decodes_header_and_rows() {
    let table = decode_lines(&lines(&["id\tname", "1\tAlice", "2\tBob"]), 2000);
    assert_eq!(table.columns, vec!["id", "name"]);
    assert_eq!(table.rows, vec![vec!["1", "Alice"], vec!["2", "Bob"]]);
}

#[test]
fn empty_stream_gives_empty_table() {
    let table = decode_lines(&[], 2000);
    assert!(table.columns.is_empty());
    assert!(table.rows.is_empty());
}

#[test]
fn header_alone_gives_columns_and_no_rows() {
    let table = decode_lines(&lines(&["id\tname\tcreated"]), 2000);
    assert_eq!(table.columns, vec!["id", "name", "created"]);
    assert!(table.rows.is_empty());
}

#[test]
fn empty_header_line_is_one_unnamed_column() {
    let table = decode_lines(&lines(&[""]), 2000);
    assert_eq!(table.columns, vec![""]);
    assert!(table.rows.is_empty());
}

#[test]
fn rows_below_the_cap_are_all_kept() {
    let all = numbered_rows(1999);
    let table = decode_lines(&all, 2000);
    assert_eq!(table.rows.len(), 1999);
    for (i, row) in table.rows.iter().enumerate() {
        assert_eq!(row.join("\t"), all[i + 1]);
    }
}

#[test]
fn rows_at_the_cap_are_all_kept() {
    let all = numbered_rows(2000);
    let table = decode_lines(&all, 2000);
    assert_eq!(table.rows.len(), 2000);
    assert_eq!(table.rows[1999], vec!["1999", "3996001"]);
}

#[test]
fn rows_past_the_cap_are_dropped() {
    let all = numbered_rows(2500);
    let table = decode_lines(&all, 2000);
    assert_eq!(table.columns, vec!["n", "square"]);
    assert_eq!(table.rows.len(), 2000);
    assert_eq!(table.rows[0], vec!["0", "0"]);
    assert_eq!(table.rows[1999], vec!["1999", "3996001"]);
}

#[test]
fn capped_table_is_that_of_the_first_rows_alone() {
    let all = numbered_rows(30);
    let capped = decode_lines(&all, 10);
    let short = decode_lines(&all[..11], 10);
    assert_eq!(capped.columns, short.columns);
    assert_eq!(capped.rows, short.rows);
}

#[test]
fn small_caps_are_honoured() {
    let all = numbered_rows(5);
    assert_eq!(decode_lines(&all, 3).rows.len(), 3);
    assert_eq!(decode_lines(&all, 1).rows, vec![vec!["0", "0"]]);
    assert_eq!(decode_lines(&all, 5).rows.len(), 5);
    assert_eq!(decode_lines(&all, 6).rows.len(), 5);
}

#[test]
fn cap_of_zero_keeps_the_header_only() {
    let table = decode_lines(&numbered_rows(5), 0);
    assert_eq!(table.columns, vec!["n", "square"]);
    assert!(table.rows.is_empty());
}

#[test]
fn rows_of_other_widths_are_kept_as_they_come() {
    let table = decode_lines(&lines(&["a\tb", "1", "1\t2\t3", ""]), 2000);
    assert_eq!(table.columns, vec!["a", "b"]);
    assert_eq!(table.rows, vec![vec!["1"], vec!["1", "2", "3"], vec![""]]);
}

#[test]
fn repeated_column_names_are_kept() {
    let table = decode_lines(&lines(&["x\tx\tx", "1\t2\t3"]), 2000);
    assert_eq!(table.columns, vec!["x", "x", "x"]);
    assert_eq!(table.rows, vec![vec!["1", "2", "3"]]);
}

#[test]
fn cells_stay_text() {
    let table = decode_lines(&lines(&["n\twhen\tnote", "007\t2024-01-02\t\\N", "1e3\t \tNULL"]), 2000);
    assert_eq!(
        table.rows,
        vec![vec!["007", "2024-01-02", "\\N"], vec!["1e3", " ", "NULL"]]
    );
}

#[test]
fn fresh_decoder_wants_the_header() {
    assert!(Decoder::new(2000).wants_line());
    assert!(Decoder::new(0).wants_line());
    let Table { columns, rows } = Decoder::new(2000).finish();
    assert!(columns.is_empty());
    assert!(rows.is_empty());
}

#[test]
fn decoder_stops_wanting_lines_at_the_cap() {
    let mut decoder = Decoder::new(2);
    decoder = decoder.feed("a\tb");
    assert!(decoder.wants_line());
    decoder = decoder.feed("1\t2");
    assert!(decoder.wants_line());
    decoder = decoder.feed("3\t4");
    assert!(!decoder.wants_line());
    let table = decoder.finish();
    assert_eq!(table.columns, vec!["a", "b"]);
    assert_eq!(table.rows, vec![vec!["1", "2"], vec!["3", "4"]]);
}

#[test]
fn decoder_with_cap_of_zero_stops_after_the_header() {
    let decoder = Decoder::new(0).feed("a\tb");
    assert!(!decoder.wants_line());
    let table = decoder.finish();
    assert_eq!(table.columns, vec!["a", "b"]);
    assert!(table.rows.is_empty());
}

#[test]
fn full_decoder_drops_what_it_is_offered() {
    let mut decoder = Decoder::new(1);
    for line in ["h", "r1", "r2", "r3"] {
        decoder = decoder.feed(line);
    }
    assert!(!decoder.wants_line());
    let table = decoder.finish();
    assert_eq!(table.columns, vec!["h"]);
    assert_eq!(table.rows, vec![vec!["r1"]]);
}

#[test]
fn feeding_line_by_line_agrees_with_decoding_at_once() {
    for count in [0usize, 1, 2, 9, 10, 11, 40] {
        let all = numbered_rows(count);
        let mut decoder = Decoder::new(10);
        for line in &all {
            decoder = decoder.feed(line);
        }
        let fed = decoder.finish();
        let whole = decode_lines(&all, 10);
        assert_eq!(fed.columns, whole.columns);
        assert_eq!(fed.rows, whole.rows);
        assert_eq!(whole.rows.len(), count.min(10));
    }
}
