use verynicetable::Table;

const LABELS: [&str; 9] = ["0", "1", "2", "3", "4", "5", "6", "7", "8"];

/// `n` rows of two cells; the first cell of a row is its number.
fn numbered(n: usize) -> Vec<Vec<&'static str>> {
    (0..n).map(|r| vec![LABELS[r], "-"]).collect()
}

/// The first cell of each row.
fn first_cells<'a>(rows: &[Vec<&'a str>]) -> Vec<&'a str> {
    rows.iter().map(|row| row[0]).collect()
}

#[test]
fn max_rows_leaves_data_within_the_cap() {
    assert_eq!(Table::apply_max_rows(numbered(3), 3, 2), numbered(3));
    assert_eq!(Table::apply_max_rows(numbered(3), 4, 2), numbered(3));
    assert_eq!(Table::apply_max_rows(numbered(0), 0, 2), numbered(0));
    assert_eq!(Table::apply_max_rows(numbered(1), 1, 2), numbered(1));
}

#[test]
fn max_rows_of_zero_leaves_the_placeholder() {
    assert_eq!(
        Table::apply_max_rows(numbered(1), 0, 2),
        vec![vec!["...", "..."]]
    );
    assert_eq!(
        Table::apply_max_rows(numbered(5), 0, 3),
        vec![vec!["...", "...", "..."]]
    );
}

#[test]
fn max_rows_of_one_keeps_the_first_row() {
    assert_eq!(
        Table::apply_max_rows(numbered(2), 1, 2),
        vec![vec!["0", "-"], vec!["...", "..."]]
    );
    assert_eq!(
        Table::apply_max_rows(numbered(7), 1, 2),
        vec![vec!["0", "-"], vec!["...", "..."]]
    );
}

#[test]
fn max_rows_keeps_more_of_the_tail() {
    let shown = Table::apply_max_rows(numbered(3), 2, 2);
    assert_eq!(first_cells(&shown), ["0", "...", "2"]);

    let shown = Table::apply_max_rows(numbered(5), 3, 2);
    assert_eq!(first_cells(&shown), ["0", "...", "3", "4"]);

    let shown = Table::apply_max_rows(numbered(9), 4, 2);
    assert_eq!(first_cells(&shown), ["0", "1", "...", "7", "8"]);

    let shown = Table::apply_max_rows(numbered(7), 5, 2);
    assert_eq!(first_cells(&shown), ["0", "1", "...", "4", "5", "6"]);

    let shown = Table::apply_max_rows(numbered(9), 8, 2);
    assert_eq!(
        first_cells(&shown),
        ["0", "1", "2", "3", "...", "5", "6", "7", "8"]
    );
}

#[test]
fn max_rows_shows_one_row_more_than_the_cap() {
    for n in 1..=9 {
        assert_eq!(Table::apply_max_rows(numbered(n), 0, 2).len(), 1);
    }
    for n in 2..=9 {
        assert_eq!(Table::apply_max_rows(numbered(n), 1, 2).len(), 2);
    }
    for max_rows in 2..9 {
        for n in (max_rows + 1)..=9 {
            let shown = Table::apply_max_rows(numbered(n), max_rows, 2);
            assert_eq!(shown.len(), max_rows + 1);
            let placeholders = shown.iter().filter(|row| row[0] == "...").count();
            assert_eq!(placeholders, 1);
        }
    }
}

#[test]
fn placeholder_has_a_cell_for_each_column() {
    assert_eq!(
        Table::apply_max_rows(vec![vec![]], 0, 0),
        vec![Vec::<&str>::new()]
    );
    assert_eq!(Table::apply_max_rows(vec![vec!["a"]], 0, 1), vec![vec!["..."]]);
    assert_eq!(
        Table::apply_max_rows(vec![vec!["a"; 4]; 2], 1, 4),
        vec![vec!["a"; 4], vec!["..."; 4]]
    );
}

#[test]
fn width_is_that_of_the_longest_value() {
    assert_eq!(Table::width_of_longest_value_in_column("ab", &[]), 2);
    assert_eq!(Table::width_of_longest_value_in_column("ab", &["abc", "a"]), 3);
    assert_eq!(Table::width_of_longest_value_in_column("abcd", &["abc", "a"]), 4);
    assert_eq!(Table::width_of_longest_value_in_column("", &["", ""]), 0);
    assert_eq!(Table::width_of_longest_value_in_column("", &["a", "abcde", "ab"]), 5);
}

#[test]
fn width_counts_what_shows() {
    assert_eq!(
        Table::width_of_longest_value_in_column("", &["\x1b[92mfoo\x1b[0m", "ab"]),
        3
    );
    assert_eq!(
        Table::width_of_longest_value_in_column("\x1b[1mHEAD\x1b[0m", &["abc"]),
        4
    );
    assert_eq!(Table::width_of_longest_value_in_column("日本語", &["ab"]), 3);
    assert_eq!(Table::width_of_longest_value_in_column("é", &["éé"]), 2);
}

#[test]
fn columns_width_takes_each_column_by_itself() {
    let data = [vec!["1.", "---", ""], vec!["2.", "------------", "x"]];
    assert_eq!(
        Table::determine_columns_width(&["#", "COLUMN 1", ""], &data),
        [2, 12, 1]
    );
    assert_eq!(Table::determine_columns_width(&["#", "COLUMN 1"], &[]), [1, 8]);
    assert_eq!(
        Table::determine_columns_width(&[], &[vec![], vec![]]),
        Vec::<usize>::new()
    );
}

#[test]
fn columns_are_as_wide_as_what_they_hold() {
    let headers = ["a", "\x1b[1mheader\x1b[0m", "", "日本"];
    let data = [
        vec!["", "x", "\x1b[92mgreen\x1b[0m", "-"],
        vec!["wide cell", "", "é", "\x1b[3"],
        vec!["\x1b", "xy", "", "ab\x1b[0mcd"],
    ];
    let widths = Table::determine_columns_width(&headers, &data);
    assert_eq!(widths, [9, 6, 5, 4]);
    for (c, width) in widths.iter().enumerate() {
        assert!(*width >= Table::visible_len(headers[c]));
        for row in &data {
            assert!(*width >= Table::visible_len(row[c]));
        }
    }
}

#[test]
fn color_leaves_the_widths_alone() {
    let headers = ["name", "state"];
    let plain = [vec!["alpha", "up"], vec!["be", "degraded"]];
    let in_color = [
        vec!["\x1b[1malpha\x1b[0m", "\x1b[92mup\x1b[0m"],
        vec!["be", "\x1b[38;5;208mdegraded\x1b[0m"],
    ];
    assert_eq!(
        Table::determine_columns_width(&headers, &in_color),
        Table::determine_columns_width(&headers, &plain)
    );
    assert_eq!(
        Table::determine_columns_width(&["\x1b[4mname\x1b[0m", "state"], &plain),
        Table::determine_columns_width(&headers, &plain)
    );
}
