//! The text of the display: a header, and for each tick a frame that
//! overwrites the rows of the table in place.

use crate::engine::{row_views, RankedRow, RowView};
use vstd::prelude::*;
use vstd::string::StringExecFns;

verus! {

/// The least width of the column of process names.
pub const NAME_WIDTH: usize = 20;

/// The least width of every other column.
pub const FIELD_WIDTH: usize = 15;

/// The terminal line of the first row of the table; lines count from 1.
pub const FIRST_ROW_LINE: u16 = 3;

/// The largest number of rows that a frame can address.
pub const MAX_ROWS: usize = 65533;

/// The character of a decimal digit.
pub open spec fn digit_char(digit: nat) -> char {
    (0x30 + digit) as char
}

/// The decimal numeral of `n`, without leading zeros.
pub open spec fn decimal(n: nat) -> Seq<char>
    decreases n,
{
    if n < 10 {
        seq![digit_char(n)]
    } else {
        decimal(n / 10).push(digit_char(n % 10))
    }
}

/// The numeral, with two decimal places, of a number given in hundredths.
pub open spec fn fixed_point(hundredths: nat) -> Seq<char> {
    decimal(hundredths / 100) + seq!['.', digit_char(hundredths / 10 % 10), digit_char(
        hundredths % 10,
    )]
}

/// `count` spaces.
pub open spec fn spaces(count: nat) -> Seq<char> {
    Seq::new(count, |i: int| ' ')
}

/// `text` as a column of least width `width`: flush left, filled up with
/// spaces, and never cut.
pub open spec fn padded(text: Seq<char>, width: nat) -> Seq<char> {
    if text.len() < width {
        text + spaces((width - text.len()) as nat)
    } else {
        text
    }
}

/// One line of the table: five columns with one space between them.
pub open spec fn line_text(
    name: Seq<char>,
    user_name: Seq<char>,
    cpu: Seq<char>,
    memory: Seq<char>,
    average_cpu: Seq<char>,
) -> Seq<char> {
    padded(name, NAME_WIDTH as nat) + seq![' '] + padded(user_name, FIELD_WIDTH as nat) + seq![' ']
        + padded(cpu, FIELD_WIDTH as nat) + seq![' '] + padded(memory, FIELD_WIDTH as nat)
        + seq![' '] + padded(average_cpu, FIELD_WIDTH as nat)
}

/// The line that shows `row`.
pub open spec fn row_text(row: RowView) -> Seq<char> {
    line_text(
        row.name,
        row.user_name,
        fixed_point(row.cpu_hundredths as nat),
        fixed_point(row.memory_hundredths as nat),
        fixed_point(row.average_cpu_hundredths as nat),
    )
}

/// The line that wipes a row which has no process to show.
pub open spec fn blank_text() -> Seq<char> {
    line_text(Seq::empty(), Seq::empty(), Seq::empty(), Seq::empty(), Seq::empty())
}

/// The line of column titles.
pub open spec fn titles_text() -> Seq<char> {
    line_text("Process Name"@, "User Name"@, "CPU Usage"@, "RAM Usage"@, "Avg CPU Usage"@)
}

/// The escape sequence that moves the cursor to `column` of `line`, both
/// counted from 1.
pub open spec fn goto_text(column: u16, line: u16) -> Seq<char> {
    seq!['\x1b', '['] + decimal(line as nat) + seq![';'] + decimal(column as nat) + seq!['H']
}

/// The escape sequence that clears the whole screen.
pub open spec fn clear_text() -> Seq<char> {
    seq!['\x1b', '[', '2', 'J']
}

/// What is written once, at the start: the screen is cleared, and from the
/// top left corner follow the banner, an empty line and the column titles.
pub open spec fn header_text(banner: Seq<char>) -> Seq<char> {
    clear_text() + goto_text(1, 1) + banner + seq!['\n', '\n'] + titles_text() + seq!['\n']
}

/// What is written for table row `slot`: the cursor moves to the start of the
/// row's line, then comes the row's process, or a blank line where `rows` has
/// none for it.
pub open spec fn slot_text(rows: Seq<RowView>, slot: int) -> Seq<char> {
    goto_text(1, (FIRST_ROW_LINE + slot) as u16) + if slot < rows.len() {
        row_text(rows[slot])
    } else {
        blank_text()
    }
}

/// What is written at a tick: the first `slots` rows of the table, from the
/// top down.
pub open spec fn frame_text(rows: Seq<RowView>, slots: nat) -> Seq<char>
    decreases slots,
{
    if slots == 0 {
        Seq::empty()
    } else {
        frame_text(rows, (slots - 1) as nat) + slot_text(rows, slots - 1)
    }
}

/// Rendering has no state: rows of the same content give the same frame,
/// however often they are rendered.
pub proof fn lemma_rendering_repeats(first: Seq<RankedRow>, second: Seq<RankedRow>, slots: nat)
    requires
        row_views(first) == row_views(second),
    ensures
        frame_text(row_views(first), slots) == frame_text(row_views(second), slots),
{
}

/// The escape sequence that `termion::cursor::Goto` writes: the escape
/// character, `[`, the line in decimal, `;`, the column in decimal, `H`.
/// The position (0, 0) is left out, on which `Goto` may panic.
#[verifier::external_body]
fn goto_sequence(column: u16, line: u16) -> (sequence: String)
    requires
        column != 0 || line != 0,
    ensures
        sequence@ == goto_text(column, line),
{
    format!("{}", termion::cursor::Goto(column, line))
}

/// The escape sequence that `termion::clear::All` writes: the escape
/// character and `[2J`.
#[verifier::external_body]
fn clear_sequence() -> (sequence: String)
    ensures
        sequence@ == clear_text(),
{
    format!("{}", termion::clear::All)
}

/// The character of the decimal digit `digit`.
pub fn digit_to_char(digit: u8) -> (c: char)
    requires
        digit < 10,
    ensures
        c == digit_char(digit as nat),
{
    (0x30 + digit) as char
}

/// Appends the decimal numeral of `n` to `out`.
pub fn push_decimal(out: &mut String, n: u64)
    ensures
        final(out)@ == old(out)@ + decimal(n as nat),
    decreases n,
{
    if n >= 10 {
        push_decimal(out, n / 10);
    }
    out.push(digit_to_char((n % 10) as u8));
    proof {
        assert(out@ =~= old(out)@ + decimal(n as nat));
    }
}

/// The numeral, with two decimal places, of a number given in hundredths.
pub fn fixed_point_string(hundredths: u64) -> (numeral: String)
    ensures
        numeral@ == fixed_point(hundredths as nat),
{
    let mut numeral = String::new();
    push_decimal(&mut numeral, hundredths / 100);
    numeral.push('.');
    numeral.push(digit_to_char((hundredths / 10 % 10) as u8));
    numeral.push(digit_to_char((hundredths % 10) as u8));
    proof {
        assert(numeral@ =~= fixed_point(hundredths as nat));
    }
    numeral
}

/// Appends `text` to `out` as a column of least width `width`.
pub fn push_padded(out: &mut String, text: &str, width: usize)
    ensures
        final(out)@ == old(out)@ + padded(text@, width as nat),
{
    out.append(text);
    let length: usize = text.unicode_len();
    let mut filled: usize = length;
    while filled < width
        invariant
            length == text@.len(),
            length <= filled,
            filled <= width || filled == length,
            out@ == old(out)@ + text@ + spaces((filled - length) as nat),
        decreases width - filled,
    {
        out.push(' ');
        filled = filled + 1;
        proof {
            assert(out@ =~= old(out)@ + text@ + spaces((filled - length) as nat));
        }
    }
    proof {
        assert(out@ =~= old(out)@ + padded(text@, width as nat));
    }
}

/// Appends one line of the table to `out`.
pub fn push_line(
    out: &mut String,
    name: &str,
    user_name: &str,
    cpu: &str,
    memory: &str,
    average_cpu: &str,
)
    ensures
        final(out)@ == old(out)@ + line_text(name@, user_name@, cpu@, memory@, average_cpu@),
{
    push_padded(out, name, NAME_WIDTH);
    out.push(' ');
    push_padded(out, user_name, FIELD_WIDTH);
    out.push(' ');
    push_padded(out, cpu, FIELD_WIDTH);
    out.push(' ');
    push_padded(out, memory, FIELD_WIDTH);
    out.push(' ');
    push_padded(out, average_cpu, FIELD_WIDTH);
    proof {
        assert(out@ =~= old(out)@ + line_text(name@, user_name@, cpu@, memory@, average_cpu@));
    }
}

/// The line that shows `row`: name, user, CPU use, memory and average CPU
/// use, the numbers with two decimal places.
pub fn render_row(row: &RankedRow) -> (line: String)
    ensures
        line@ == row_text(row@),
{
    let cpu = fixed_point_string(row.cpu_hundredths);
    let memory = fixed_point_string(row.memory_hundredths);
    let average_cpu = fixed_point_string(row.average_cpu_hundredths);
    let mut line = String::new();
    push_line(
        &mut line,
        row.name.as_str(),
        row.user_name.as_str(),
        cpu.as_str(),
        memory.as_str(),
        average_cpu.as_str(),
    );
    proof {
        assert(line@ =~= row_text(row@));
    }
    line
}

/// The line that wipes a row of the table.
pub fn render_blank_row() -> (line: String)
    ensures
        line@ == blank_text(),
{
    let mut line = String::new();
    push_line(&mut line, "", "", "", "", "");
    proof {
        reveal_strlit("");
        assert(""@ =~= Seq::<char>::empty());
        assert(line@ =~= blank_text());
    }
    line
}

/// What is written once, at the start: clears the screen and writes, from
/// the top left corner, the banner, an empty line and the column titles.
pub fn render_header(banner: &str) -> (text: String)
    ensures
        text@ == header_text(banner@),
{
    let mut text = clear_sequence();
    let home = goto_sequence(1, 1);
    text.append(home.as_str());
    text.append(banner);
    text.push('\n');
    text.push('\n');
    push_line(&mut text, "Process Name", "User Name", "CPU Usage", "RAM Usage", "Avg CPU Usage");
    text.push('\n');
    proof {
        assert(text@ =~= header_text(banner@));
    }
    text
}

/// What is written at a tick: for each of the `limit` rows of the table, the
/// cursor moves to the row's line, and the line is overwritten with the row's
/// process, or with blanks where `rows` has no process for it. Rows beyond
/// `limit` are not shown.
pub fn render_frame(rows: &Vec<RankedRow>, limit: usize) -> (text: String)
    requires
        limit <= MAX_ROWS,
    ensures
        text@ == frame_text(row_views(rows@), limit as nat),
{
    let mut text = String::new();
    let mut slot: usize = 0;
    while slot < limit
        invariant
            slot <= limit <= MAX_ROWS,
            text@ == frame_text(row_views(rows@), slot as nat),
        decreases limit - slot,
    {
        let ghost before = text@;
        let line_number: u16 = FIRST_ROW_LINE + slot as u16;
        let position = goto_sequence(1, line_number);
        text.append(position.as_str());
        let line = if slot < rows.len() {
            render_row(&rows[slot])
        } else {
            render_blank_row()
        };
        text.append(line.as_str());
        proof {
            if slot < rows@.len() {
                assert(row_views(rows@)[slot as int] == rows@[slot as int]@);
            }
            assert(text@ =~= before + slot_text(row_views(rows@), slot as int));
        }
        slot = slot + 1;
    }
    text
}

} // verus!
