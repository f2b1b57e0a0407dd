use collete::engine::RankedRow;
use collete::render::{
    digit_to_char, fixed_point_string, push_decimal, push_line, push_padded, render_blank_row,
    render_frame, render_header, render_row, FIELD_WIDTH, FIRST_ROW_LINE, MAX_ROWS, NAME_WIDTH,
};

fn row(name: &str, user: &str, cpu: u64, memory: u64, average: u64) -> RankedRow {
    RankedRow {
        name: name.to_string(),
        user_name: user.to_string(),
        cpu_hundredths: cpu,
        memory_hundredths: memory,
        average_cpu_hundredths: average,
    }
}

#[test]
fn numbers_have_two_decimal_places() {
    assert_eq!(fixed_point_string(0), "0.00");
    assert_eq!(fixed_point_string(5), "0.05");
    assert_eq!(fixed_point_string(50), "0.50");
    assert_eq!(fixed_point_string(100), "1.00");
    assert_eq!(fixed_point_string(9000), "90.00");
    assert_eq!(fixed_point_string(123456), "1234.56");
    assert_eq!(fixed_point_string(u64::MAX), "184467440737095516.15");
}

#[test]
fn numbers_read_like_formatted_floats() {
    for (hundredths, value) in
        [(0u64, 0.0f64), (1, 0.01), (99, 0.99), (100, 1.0), (9000, 90.0), (12345, 123.45)]
    {
        assert_eq!(fixed_point_string(hundredths), format!("{:.2}", value));
    }
}

#[test]
fn decimal_numerals() {
    for n in [0u64, 1, 9, 10, 11, 99, 100, 101, 65535, 1_000_000, u64::MAX] {
        let mut out = String::from("n=");
        push_decimal(&mut out, n);
        assert_eq!(out, format!("n={}", n));
    }
    assert_eq!(digit_to_char(0), '0');
    assert_eq!(digit_to_char(9), '9');
}

#[test]
fn columns_are_filled_up_and_never_cut() {
    let mut out = String::from("|");
    push_padded(&mut out, "ab", 5);
    out.push('|');
    push_padded(&mut out, "abcde", 5);
    out.push('|');
    push_padded(&mut out, "abcdefg", 5);
    out.push('|');
    push_padded(&mut out, "", 3);
    out.push('|');
    push_padded(&mut out, "x", 0);
    out.push('|');
    assert_eq!(out, "|ab   |abcde|abcdefg|   |x|");
}

#[test]
fn columns_count_characters_not_bytes() {
    let mut out = String::new();
    push_padded(&mut out, "héllo", 7);
    assert_eq!(out, "héllo  ");
    assert_eq!(out, format!("{:<7}", "héllo"));
}

#[test]
fn a_line_has_five_columns() {
    let mut out = String::new();
    push_line(&mut out, "a", "b", "c", "d", "e");
    assert_eq!(out, format!("{:<20} {:<15} {:<15} {:<15} {:<15}", "a", "b", "c", "d", "e"));
    assert_eq!(out.chars().count(), NAME_WIDTH + 4 * FIELD_WIDTH + 4);
}

#[test]
fn a_row_shows_name_user_and_three_numbers() {
    let line = render_row(&row("two", "root", 9000, 200, 9000));
    assert_eq!(
        line,
        "two                  root            90.00           2.00            90.00          "
    );
    assert_eq!(
        line,
        format!("{:<20} {:<15} {:<15.2} {:<15.2} {:<15.2}", "two", "root", 90.0, 2.0, 90.0)
    );
}

#[test]
fn long_names_push_the_columns_right() {
    let line = render_row(&row("a-process-with-a-very-long-name", "somebody-long-named", 1, 2, 3));
    assert_eq!(
        line,
        format!(
            "{:<20} {:<15} {:<15} {:<15} {:<15}",
            "a-process-with-a-very-long-name", "somebody-long-named", "0.01", "0.02", "0.03"
        )
    );
}

#[test]
fn a_blank_row_is_all_spaces() {
    let line = render_blank_row();
    assert_eq!(line, " ".repeat(84));
    assert_eq!(line, format!("{:<20} {:<15} {:<15} {:<15} {:<15}", "", "", "", "", ""));
}

#[test]
fn the_header_clears_the_screen_and_names_the_columns() {
    let header = render_header("monitor 1.0");
    assert_eq!(
        header,
        format!(
            "\x1b[2J\x1b[1;1Hmonitor 1.0\n\n{:<20} {:<15} {:<15} {:<15} {:<15}\n",
            "Process Name", "User Name", "CPU Usage", "RAM Usage", "Avg CPU Usage"
        )
    );
    assert_eq!(
        header,
        format!(
            "{}{}monitor 1.0\n\n{:<20} {:<15} {:<15} {:<15} {:<15}\n",
            termion::clear::All,
            termion::cursor::Goto(1, 1),
            "Process Name",
            "User Name",
            "CPU Usage",
            "RAM Usage",
            "Avg CPU Usage"
        )
    );
}

#[test]
fn a_frame_addresses_every_row_of_the_table() {
    let rows = vec![row("two", "root", 9000, 200, 9000), row("one", "ann", 5000, 100, 5000)];
    let frame = render_frame(&rows, 3);
    let expected = format!(
        "\x1b[3;1H{}\x1b[4;1H{}\x1b[5;1H{}",
        render_row(&rows[0]),
        render_row(&rows[1]),
        " ".repeat(84)
    );
    assert_eq!(frame, expected);
}

#[test]
fn one_row_of_three_leaves_two_blank_rows() {
    let rows = vec![row("only", "Unknown", 10, 20, 10)];
    let frame = render_frame(&rows, 3);
    let blank = render_blank_row();
    assert_eq!(
        frame,
        format!("\x1b[3;1H{}\x1b[4;1H{}\x1b[5;1H{}", render_row(&rows[0]), blank, blank)
    );
}

#[test]
fn rows_beyond_the_limit_are_not_shown() {
    let rows = vec![row("a", "u", 3, 0, 3), row("b", "u", 2, 0, 2), row("c", "u", 1, 0, 1)];
    let frame = render_frame(&rows, 2);
    assert_eq!(
        frame,
        format!("\x1b[3;1H{}\x1b[4;1H{}", render_row(&rows[0]), render_row(&rows[1]))
    );
    assert_eq!(render_frame(&rows, 0), "");
}

#[test]
fn line_numbers_have_as_many_digits_as_they_need() {
    let frame = render_frame(&Vec::new(), 120);
    assert!(frame.starts_with("\x1b[3;1H "));
    assert!(frame.contains("\x1b[9;1H "));
    assert!(frame.contains("\x1b[10;1H "));
    assert!(frame.contains("\x1b[99;1H "));
    assert!(frame.contains("\x1b[100;1H "));
    assert!(frame.contains("\x1b[122;1H "));
    assert!(!frame.contains("\x1b[123;1H"));
    assert_eq!(FIRST_ROW_LINE, 3);
}

#[test]
fn the_largest_frame_ends_on_the_last_line() {
    let frame = render_frame(&Vec::new(), MAX_ROWS);
    assert!(frame.contains("\x1b[65535;1H "));
    assert!(!frame.contains("\x1b[65536;1H"));
}

#[test]
fn rendering_twice_gives_the_same_text() {
    let rows = vec![
        row("two", "root", 9000, 200, 9000),
        row("one", "Unknown", 5000, 100, 5000),
        row("", "", 0, 0, 0),
    ];
    let first = render_frame(&rows, 10);
    let second = render_frame(&rows, 10);
    assert_eq!(first, second);
    let copy = rows.clone();
    assert_eq!(render_frame(&copy, 10), first);
    for row in rows.iter() {
        assert_eq!(render_row(row), render_row(row));
    }
    assert_eq!(render_header("x"), render_header("x"));
}
