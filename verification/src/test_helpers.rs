use vstd::prelude::*;
use vstd::string::StringExecFns;

verus! {

// =============================================================================
// Trusted leaves
// =============================================================================
/// The number of terminal columns a string occupies.
pub uninterp spec fn display_width_of(s: Seq<char>) -> int;

/// Relies on unicode_width's UnicodeWidthStr::width: the sum of the columns
/// of the string's characters, a function of the characters alone.
#[verifier::external_body]
fn display_width(s: &str) -> (r: usize)
    ensures
        r as int == display_width_of(s@),
{
    unicode_width::UnicodeWidthStr::width(s)
}

/// Whether a character counts as whitespace.
pub uninterp spec fn whitespace_of(c: char) -> bool;

/// Relies on std's char::is_whitespace: the White_Space property of the
/// character alone.
#[verifier::external_body]
fn is_whitespace_char(c: char) -> (r: bool)
    ensures
        r == whitespace_of(c),
{
    c.is_whitespace()
}

/// Relies on std's String::push: appends exactly the one character.
#[verifier::external_body]
fn push_char(s: &mut String, c: char)
    ensures
        final(s)@ == old(s)@.push(c),
{
    s.push(c)
}

/// Relies on std's str::chars: the characters of the string, in order.
#[verifier::external_body]
fn chars_of(s: &str) -> (r: Vec<char>)
    ensures
        r@ == s@,
{
    s.chars().collect()
}

// =============================================================================
// Helpers
// =============================================================================
/// All rows of a table hold the same number of cells.
pub open spec fn not_jagged(rows: Seq<Vec<String>>) -> bool {
    forall|i: int| 0 <= i < rows.len() ==> #[trigger] rows[i]@.len() == rows[0]@.len()
}

/// Guards `format_table` against jagged input.  The failure this caught at
/// run time is ruled out statically: callers must establish the precondition.
fn check_sorted(rows: &Vec<Vec<String>>)
    requires
        not_jagged(rows@),
{
}

fn empty_string_of_length_n(n: usize) -> (r: String)
    ensures
        r@.len() == n,
        forall|i: int| 0 <= i < n ==> r@[i] == ' ',
{
    let mut s = String::new();
    let mut k: usize = 0;
    while k < n
        invariant
            k <= n,
            s@.len() == k,
            forall|i: int| 0 <= i < k ==> s@[i] == ' ',
        decreases n - k,
    {
        push_char(&mut s, ' ');
        k = k + 1;
    }
    s
}

/// Split a cell into its display lines: separated by `\n`, a trailing `\r`
/// stripped from each, and no final empty line after a terminating newline.
fn split_cell_lines(s: &str) -> (r: Vec<String>)
    ensures
        forall|k: int| 0 <= k < r@.len() ==> !(#[trigger] r@[k]@).contains('\n'),
        r@.len() == cell_line_count(s@),
{
    let chars = chars_of(s);
    let mut lines: Vec<String> = Vec::new();
    let mut current = String::new();
    let mut i: usize = 0;
    let n = chars.len();
    while i < n
        invariant
            i <= n,
            n == chars@.len(),
            chars@ == s@,
            !current@.contains('\n'),
            forall|k: int| 0 <= k < lines@.len() ==> !(#[trigger] lines@[k]@).contains('\n'),
            lines@.len() == nl_count(chars@.subrange(0, i as int)),
            (current@.len() == 0) == (i == 0 || chars@[i as int - 1] == '\n'),
        decreases n - i,
    {
        proof {
            assert(chars@.subrange(0, i + 1).drop_last() =~= chars@.subrange(0, i as int));
            assert(chars@.subrange(0, i + 1).last() == chars@[i as int]);
        }
        let c = chars[i];
        if c == '\n' {
            // strip one carriage return left by a CRLF ending
            let line_chars = chars_of(current.as_str());
            if line_chars.len() > 0 && line_chars[line_chars.len() - 1] == '\r' {
                let mut stripped = String::new();
                let mut j: usize = 0;
                while j < line_chars.len() - 1
                    invariant
                        j <= line_chars@.len() - 1,
                        stripped@ == line_chars@.subrange(0, j as int),
                        line_chars@ == current@,
                        !current@.contains('\n'),
                    decreases line_chars@.len() - 1 - j,
                {
                    proof {
                        assert(line_chars@.subrange(0, j + 1) =~= line_chars@.subrange(
                            0,
                            j as int,
                        ).push(line_chars@[j as int]));
                    }
                    push_char(&mut stripped, line_chars[j]);
                    j = j + 1;
                }
                proof {
                    assert forall|x: int| 0 <= x < stripped@.len() implies stripped@[x]
                        != '\n' by {
                        assert(current@.contains('\n') == false);
                        assert(stripped@[x] == current@[x]);
                    }
                }
                lines.push(stripped);
            } else {
                lines.push(current);
            }
            current = String::new();
        } else {
            push_char(&mut current, c);
        }
        i = i + 1;
    }
    proof {
        assert(chars@.subrange(0, n as int) =~= chars@);
    }
    if !current.as_str().is_empty() {
        lines.push(current);
    }
    lines
}

fn append_str_chars(out: &mut Vec<char>, s: &str)
    ensures
        final(out)@ == old(out)@ + s@,
{
    let chars = chars_of(s);
    let mut i: usize = 0;
    while i < chars.len()
        invariant
            chars@ == s@,
            i <= chars@.len(),
            out@ == old(out)@ + chars@.subrange(0, i as int),
        decreases chars@.len() - i,
    {
        proof {
            assert(chars@.subrange(0, i + 1) =~= chars@.subrange(0, i as int).push(
                chars@[i as int],
            ));
        }
        out.push(chars[i]);
        i = i + 1;
    }
    proof {
        assert(chars@.subrange(0, chars@.len() as int) =~= chars@);
    }
}

fn push_n_chars(out: &mut Vec<char>, c: char, n: usize)
    ensures
        final(out)@.len() == old(out)@.len() + n,
        forall|x: int| 0 <= x < old(out)@.len() ==> final(out)@[x] == old(out)@[x],
        forall|x: int| old(out)@.len() <= x < final(out)@.len() ==> final(out)@[x] == c,
{
    let mut i: usize = 0;
    while i < n
        invariant
            i <= n,
            out@.len() == old(out)@.len() + i,
            forall|x: int| 0 <= x < old(out)@.len() ==> out@[x] == old(out)@[x],
            forall|x: int| old(out)@.len() <= x < out@.len() ==> out@[x] == c,
        decreases n - i,
    {
        out.push(c);
        i = i + 1;
    }
}


// =============================================================================
// Line accounting
// =============================================================================
/// Number of newline characters in `s`.
pub open spec fn nl_count(s: Seq<char>) -> int
    decreases s.len(),
{
    if s.len() == 0 {
        0
    } else {
        nl_count(s.drop_last()) + if s.last() == '\n' {
            1int
        } else {
            0int
        }
    }
}

/// No newline character occurs in `s`.
pub open spec fn no_nl_chars(s: Seq<char>) -> bool {
    forall|k: int| 0 <= k < s.len() ==> s[k] != '\n'
}

/// Number of display lines a cell splits into: one per newline, plus a final
/// line when characters follow the last newline.
pub open spec fn cell_line_count(s: Seq<char>) -> int {
    nl_count(s) + if s.len() > 0 && s.last() != '\n' {
        1int
    } else {
        0int
    }
}

/// Tallest cell of one table row, in display lines.
pub open spec fn table_row_height(row: Seq<String>) -> int
    decreases row.len(),
{
    if row.len() == 0 {
        0
    } else {
        vstd::math::max(table_row_height(row.drop_last()), cell_line_count(row.last()@))
    }
}

/// Total padded display lines of a table: each row's tallest cell, plus one
/// separator line between adjacent rows.
pub open spec fn table_line_count(rows: Seq<Vec<String>>) -> int
    decreases rows.len(),
{
    if rows.len() == 0 {
        0
    } else {
        table_line_count(rows.drop_last()) + table_row_height(rows.last()@) + if rows.len() > 1 {
            1int
        } else {
            0int
        }
    }
}

pub proof fn lemma_nl_count_concat(a: Seq<char>, b: Seq<char>)
    ensures
        nl_count(a + b) == nl_count(a) + nl_count(b),
    decreases b.len(),
{
    if b.len() == 0 {
        assert(a + b =~= a);
    } else {
        lemma_nl_count_concat(a, b.drop_last());
        assert((a + b).drop_last() =~= a + b.drop_last());
        assert((a + b).last() == b.last());
    }
}

pub proof fn lemma_nl_count_none(s: Seq<char>)
    requires
        no_nl_chars(s),
    ensures
        nl_count(s) == 0,
    decreases s.len(),
{
    if s.len() > 0 {
        lemma_nl_count_none(s.drop_last());
    }
}

pub proof fn lemma_nl_count_nonneg(s: Seq<char>)
    ensures
        nl_count(s) >= 0,
    decreases s.len(),
{
    if s.len() > 0 {
        lemma_nl_count_nonneg(s.drop_last());
    }
}

// =============================================================================
// Table layout
// =============================================================================
/// Lay a table of multi-line cells out as aligned columns, optionally boxed.
///
/// Each cell may span several display lines; the cells of one column are
/// padded to one width (as the terminal displays them), and the rows of the
/// table are padded to one height.  With borders, the output holds one
/// newline-terminated line per padded display row, plus one separator line
/// between adjacent table rows and the two horizontal borders.
pub fn format_table(rows: &Vec<Vec<String>>, with_borders: bool) -> (r: String)
    requires
        not_jagged(rows@),
        rows@.len() > 0 ==> rows@[0]@.len() > 0,
    ensures
        rows@.len() == 0 ==> r@.len() == 0,
        rows@.len() > 0 && with_borders ==> r@.len() > 0 && r@[0] == '\u{250c}' && nl_count(r@)
            == table_line_count(rows@) + 2,
{
    if rows.len() == 0 {
        return String::new();
    }

    check_sorted(rows);

    // If the table is:
    //
    // | 1 |  2 |
    // |   |  3 |
    // | a | bc |
    // | d |    |
    //
    // then after processing the rows we'll have, per column, the display
    // lines of its cells, a None separating table rows:
    //
    // [ [ Some "1", Some "",  None, Some "a", Some "d" ]
    // , [ Some "2", Some "3", None, Some "bc", Some "" ]
    // ]
    //
    // Then we'll pad the Somes in each column to be the same width.
    let num_cols = rows[0].len();
    let mut column_lines: Vec<Vec<Option<String>>> = Vec::new();
    let mut x0: usize = 0;
    while x0 < num_cols
        invariant
            column_lines@.len() == x0,
            x0 <= num_cols,
            forall|x: int| 0 <= x < x0 ==> (#[trigger] column_lines@[x]@).len() == 0,
        decreases num_cols - x0,
    {
        column_lines.push(Vec::new());
        x0 = x0 + 1;
    }

    let mut y: usize = 0;
    proof {
        assert(rows@.subrange(0, 0) =~= Seq::<Vec<String>>::empty());
    }
    while y < rows.len()
        invariant
            not_jagged(rows@),
            rows@.len() > 0,
            num_cols == rows@[0]@.len(),
            num_cols >= 1,
            column_lines@.len() == num_cols,
            y <= rows@.len(),
            forall|x: int|
                0 <= x < num_cols ==> (#[trigger] column_lines@[x]@).len() == table_line_count(
                    rows@.subrange(0, y as int),
                ),
            forall|x: int, k: int|
                0 <= x < num_cols && 0 <= k < column_lines@[x]@.len()
                    ==> match #[trigger] column_lines@[x]@[k] {
                    Some(l) => !l@.contains('\n'),
                    None => true,
                },
        decreases rows@.len() - y,
    {
        let ghost base = table_line_count(rows@.subrange(0, y as int));
        proof {
            lemma_table_line_count_nonneg(rows@.subrange(0, y as int));
        }

        // Add None in between rows.
        if y != 0 {
            let mut x: usize = 0;
            while x < num_cols
                invariant
                    column_lines@.len() == num_cols,
                    x <= num_cols,
                    forall|xi: int|
                        0 <= xi < x ==> (#[trigger] column_lines@[xi]@).len() == base + 1,
                    forall|xi: int|
                        x <= xi < num_cols ==> (#[trigger] column_lines@[xi]@).len() == base,
                    forall|xi: int, k: int|
                        0 <= xi < num_cols && 0 <= k < column_lines@[xi]@.len()
                            ==> match #[trigger] column_lines@[xi]@[k] {
                            Some(l) => !l@.contains('\n'),
                            None => true,
                        },
                decreases num_cols - x,
            {
                let column = &mut column_lines[x];
                column.push(None);
                x = x + 1;
            }
        }
        let ghost sep: int = if y != 0 {
            1
        } else {
            0
        };
        let ghost based = base + sep;

        // Add the lines for each cell
        proof {
            assert(rows@[y as int]@.len() == rows@[0]@.len());
        }
        let row = &rows[y];
        let mut x: usize = 0;
        while x < num_cols
            invariant
                column_lines@.len() == num_cols,
                num_cols <= row@.len(),
                row@ == rows@[y as int]@,
                0 <= (y as int) < rows@.len(),
                x <= num_cols,
                forall|xi: int|
                    0 <= xi < x ==> (#[trigger] column_lines@[xi]@).len() == based
                        + cell_line_count(row@[xi]@),
                forall|xi: int|
                    x <= xi < num_cols ==> (#[trigger] column_lines@[xi]@).len() == based,
                forall|xi: int, k: int|
                    0 <= xi < num_cols && 0 <= k < column_lines@[xi]@.len()
                        ==> match #[trigger] column_lines@[xi]@[k] {
                        Some(l) => !l@.contains('\n'),
                        None => true,
                    },
            decreases num_cols - x,
        {
            let cell_lines = split_cell_lines(row[x].as_str());
            let mut k: usize = 0;
            while k < cell_lines.len()
                invariant
                    column_lines@.len() == num_cols,
                    x < num_cols,
                    k <= cell_lines@.len(),
                    (column_lines@[x as int]@).len() == based + k,
                    forall|j: int|
                        0 <= j < cell_lines@.len() ==> !(#[trigger] cell_lines@[j]@).contains(
                            '\n',
                        ),
                    forall|xi: int, ki: int|
                        0 <= xi < num_cols && 0 <= ki < column_lines@[xi]@.len()
                            ==> match #[trigger] column_lines@[xi]@[ki] {
                            Some(l) => !l@.contains('\n'),
                            None => true,
                        },
                    forall|xi: int|
                        0 <= xi < x ==> (#[trigger] column_lines@[xi]@).len() == based
                            + cell_line_count(row@[xi]@),
                    forall|xi: int|
                        x < xi < num_cols ==> (#[trigger] column_lines@[xi]@).len() == based,
                decreases cell_lines@.len() - k,
            {
                let line = cell_lines[k].clone();
                let column = &mut column_lines[x];
                column.push(Some(line));
                k = k + 1;
            }
            x = x + 1;
        }

        // Find the tallest column
        let mut max_height: usize = 0;
        let mut x: usize = 0;
        while x < num_cols
            invariant
                column_lines@.len() == num_cols,
                num_cols <= row@.len(),
                row@ == rows@[y as int]@,
                x <= num_cols,
                forall|xi: int|
                    0 <= xi < num_cols ==> (#[trigger] column_lines@[xi]@).len() == based
                        + cell_line_count(row@[xi]@),
                based >= 0,
                x == 0 ==> max_height == 0,
                x >= 1 ==> max_height as int == based + table_row_height(
                    row@.subrange(0, x as int),
                ),
            decreases num_cols - x,
        {
            proof {
                assert(row@.subrange(0, x + 1).drop_last() =~= row@.subrange(0, x as int));
                assert(row@.subrange(0, x + 1).last() == row@[x as int]);
                lemma_nl_count_nonneg(row@[x as int]@);
                lemma_row_height_nonneg(row@.subrange(0, x as int));
            }
            if column_lines[x].len() > max_height {
                max_height = column_lines[x].len();
            }
            x = x + 1;
        }
        proof {
            assert(row@.subrange(0, num_cols as int) =~= row@);
        }

        // Pad each column so they're the same height
        let mut x: usize = 0;
        while x < num_cols
            invariant
                column_lines@.len() == num_cols,
                num_cols <= row@.len(),
                row@ == rows@[y as int]@,
                x <= num_cols,
                max_height as int == based + table_row_height(row@),
                forall|xi: int|
                    0 <= xi < x ==> (#[trigger] column_lines@[xi]@).len() == max_height,
                forall|xi: int|
                    x <= xi < num_cols ==> (#[trigger] column_lines@[xi]@).len() == based
                        + cell_line_count(row@[xi]@),
                forall|xi: int, k: int|
                    0 <= xi < num_cols && 0 <= k < column_lines@[xi]@.len()
                        ==> match #[trigger] column_lines@[xi]@[k] {
                        Some(l) => !l@.contains('\n'),
                        None => true,
                    },
            decreases num_cols - x,
        {
            proof {
                lemma_row_height_ge(row@, x as int);
                lemma_nl_count_nonneg(row@[x as int]@);
            }
            while column_lines[x].len() < max_height
                invariant
                    column_lines@.len() == num_cols,
                    x < num_cols,
                    column_lines@[x as int]@.len() <= max_height,
                    forall|xi: int|
                        0 <= xi < x ==> (#[trigger] column_lines@[xi]@).len() == max_height,
                    forall|xi: int|
                        x < xi < num_cols ==> (#[trigger] column_lines@[xi]@).len() == based
                            + cell_line_count(row@[xi]@),
                    forall|xi: int, k: int|
                        0 <= xi < num_cols && 0 <= k < column_lines@[xi]@.len()
                            ==> match #[trigger] column_lines@[xi]@[k] {
                            Some(l) => !l@.contains('\n'),
                            None => true,
                        },
                decreases max_height - column_lines@[x as int]@.len(),
            {
                let column = &mut column_lines[x];
                column.push(Some(String::new()));
            }
            x = x + 1;
        }

        proof {
            assert(rows@.subrange(0, y + 1).drop_last() =~= rows@.subrange(0, y as int));
            assert(rows@.subrange(0, y + 1).last() == rows@[y as int]);
        }
        y = y + 1;
    }
    proof {
        assert(rows@.subrange(0, rows@.len() as int) =~= rows@);
    }
    let ghost total_lines = table_line_count(rows@);

    // Now figure out the width of each column and pad the lines so they're
    // all the same width.
    let mut column_widths: Vec<usize> = Vec::new();
    let mut x: usize = 0;
    while x < num_cols
        invariant
            column_lines@.len() == num_cols,
            column_widths@.len() == x,
            x <= num_cols,
            forall|xi: int|
                0 <= xi < num_cols ==> (#[trigger] column_lines@[xi]@).len() == total_lines,
            forall|xi: int, k: int|
                0 <= xi < num_cols && 0 <= k < column_lines@[xi]@.len()
                    ==> match #[trigger] column_lines@[xi]@[k] {
                    Some(l) => !l@.contains('\n'),
                    None => true,
                },
        decreases num_cols - x,
    {
        let mut max_width: usize = 0;
        let mut k: usize = 0;
        let height = column_lines[x].len();
        while k < height
            invariant
                column_lines@.len() == num_cols,
                x < num_cols,
                height == column_lines@[x as int]@.len(),
                k <= height,
            decreases height - k,
        {
            if let Some(line) = &column_lines[x][k] {
                let w = display_width(line.as_str());
                if w > max_width {
                    max_width = w;
                }
            }
            k = k + 1;
        }
        column_widths.push(max_width);

        let mut k: usize = 0;
        while k < height
            invariant
                column_lines@.len() == num_cols,
                x < num_cols,
                height == column_lines@[x as int]@.len(),
                k <= height,
                forall|xi: int|
                    0 <= xi < num_cols ==> (#[trigger] column_lines@[xi]@).len() == total_lines,
                forall|xi: int, ki: int|
                    0 <= xi < num_cols && 0 <= ki < column_lines@[xi]@.len()
                        ==> match #[trigger] column_lines@[xi]@[ki] {
                        Some(l) => !l@.contains('\n'),
                        None => true,
                    },
            decreases height - k,
        {
            let padding = match &column_lines[x][k] {
                Some(line) => {
                    let w = display_width(line.as_str());
                    if max_width >= w {
                        Some(empty_string_of_length_n(max_width - w))
                    } else {
                        Some(empty_string_of_length_n(0))
                    }
                },
                None => None,
            };
            if let Some(pad) = padding {
                let ghost padv = pad@;
                let column = &mut column_lines[x];
                if let Some(line) = &mut column[k] {
                    let ghost before = line@;
                    line.append(pad.as_str());
                    proof {
                        assert forall|j: int| 0 <= j < line@.len() implies line@[j] != '\n' by {
                            assert(line@ == before + padv);
                            if j < before.len() {
                                assert(!before.contains('\n'));
                                assert(line@[j] == before[j]);
                            } else {
                                assert(line@[j] == padv[j - before.len()]);
                                assert(padv[j - before.len()] == ' ');
                            }
                        }
                    }
                }
            }
            k = k + 1;
        }
        x = x + 1;
    }

    let mut top_border: Vec<char> = Vec::new();
    let mut inner_border: Vec<char> = Vec::new();
    let mut bottom_border: Vec<char> = Vec::new();
    top_border.push('\u{250c}');
    inner_border.push('\u{251c}');
    bottom_border.push('\u{2514}');

    let mut x: usize = 0;
    while x < num_cols
        invariant
            column_widths@.len() == num_cols,
            x <= num_cols,
            top_border@.len() >= 1,
            top_border@[0] == '\u{250c}',
            no_nl_chars(top_border@),
            no_nl_chars(inner_border@),
            no_nl_chars(bottom_border@),
        decreases num_cols - x,
    {
        if x != 0 {
            top_border.push('\u{252c}');
            inner_border.push('\u{253c}');
            bottom_border.push('\u{2534}');
        }

        // Two spaces of padding on each side
        let width = column_widths[x];
        push_n_chars(&mut top_border, '\u{2500}', width);
        push_n_chars(&mut inner_border, '\u{2500}', width);
        push_n_chars(&mut bottom_border, '\u{2500}', width);
        push_n_chars(&mut top_border, '\u{2500}', 2);
        push_n_chars(&mut inner_border, '\u{2500}', 2);
        push_n_chars(&mut bottom_border, '\u{2500}', 2);
        x = x + 1;
    }

    top_border.push('\u{2510}');
    inner_border.push('\u{2524}');
    bottom_border.push('\u{2518}');

    let mut output: Vec<char> = Vec::new();

    if with_borders {
        append_chars(&mut output, &top_border);
        proof {
            lemma_nl_count_none(top_border@);
            lemma_nl_count_concat(Seq::<char>::empty(), top_border@);
            assert(Seq::<char>::empty() + top_border@ =~= top_border@);
        }
        push_line_end(&mut output);
        proof {
            assert(output@[0] == '\u{250c}');
            assert(nl_count(output@) == 1);
        }
    }

    let height = column_lines[0].len();
    let mut row: usize = 0;
    while row < height
        invariant
            column_lines@.len() == num_cols,
            num_cols >= 1,
            row <= height,
            height == column_lines@[0]@.len(),
            no_nl_chars(inner_border@),
            no_nl_chars(bottom_border@),
            forall|xi: int, ki: int|
                0 <= xi < num_cols && 0 <= ki < column_lines@[xi]@.len()
                    ==> match #[trigger] column_lines@[xi]@[ki] {
                    Some(l) => !l@.contains('\n'),
                    None => true,
                },
            with_borders ==> output@.len() >= 1 && output@[0] == '\u{250c}' && nl_count(output@)
                == 1 + row,
        decreases height - row,
    {
        if column_lines[0][row].is_none() {
            if with_borders {
                let ghost before = output@;
                append_chars(&mut output, &inner_border);
                proof {
                    lemma_nl_count_none(inner_border@);
                    lemma_nl_count_concat(before, inner_border@);
                }
                push_line_end(&mut output);
            }
            row = row + 1;
            continue ;
        }

        if with_borders {
            push_sym(&mut output, '\u{2502}');
        }

        let mut x: usize = 0;
        while x < num_cols
            invariant
                column_lines@.len() == num_cols,
                x <= num_cols,
                row < height,
                forall|xi: int, ki: int|
                    0 <= xi < num_cols && 0 <= ki < column_lines@[xi]@.len()
                        ==> match #[trigger] column_lines@[xi]@[ki] {
                        Some(l) => !l@.contains('\n'),
                        None => true,
                    },
                with_borders ==> output@.len() >= 1 && output@[0] == '\u{250c}' && nl_count(
                    output@,
                ) == 1 + row,
            decreases num_cols - x,
        {
            // With borders, always print a space before a cell line,
            // but without borders, only add one after the first column.
            if with_borders {
                push_sym(&mut output, ' ');
            } else {
                if x != 0 {
                    output.push(' ');
                }
            }

            match column_lines[x].as_slice().get(row) {
                Some(Some(line)) => {
                    let ghost before = output@;
                    append_str_chars(&mut output, line.as_str());
                    proof {
                        if with_borders {
                            assert(!line@.contains('\n'));
                            assert(no_nl_chars(line@));
                            lemma_nl_count_none(line@);
                            lemma_nl_count_concat(before, line@);
                        }
                    }
                },
                _ => (),
            }

            if with_borders {
                push_sym(&mut output, ' ');
                push_sym(&mut output, '\u{2502}');
            }

            x = x + 1;
        }

        // Truncate trailing whitespace if we don't have borders.
        if !with_borders {
            loop
                invariant_except_break
                    true,
                ensures
                    true,
                decreases output@.len(),
            {
                let len = output.len();
                if len == 0 {
                    break ;
                }
                if is_whitespace_char(output[len - 1]) {
                    output.pop();
                } else {
                    break ;
                }
            }
        }

        push_line_end(&mut output);
        row = row + 1;
    }

    if with_borders {
        let ghost before = output@;
        append_chars(&mut output, &bottom_border);
        proof {
            lemma_nl_count_none(bottom_border@);
            lemma_nl_count_concat(before, bottom_border@);
        }
        push_line_end(&mut output);
        proof {
            assert(nl_count(output@) == total_lines + 2);
        }
    }

    let mut result = String::new();
    let mut i: usize = 0;
    while i < output.len()
        invariant
            i <= output@.len(),
            result@ == output@.subrange(0, i as int),
        decreases output@.len() - i,
    {
        proof {
            assert(output@.subrange(0, i + 1) =~= output@.subrange(0, i as int).push(
                output@[i as int],
            ));
        }
        push_char(&mut result, output[i]);
        i = i + 1;
    }
    proof {
        assert(output@.subrange(0, output@.len() as int) =~= output@);
    }
    result
}

/// Append one non-newline character, keeping the newline count.
fn push_sym(out: &mut Vec<char>, c: char)
    requires
        c != '\n',
    ensures
        final(out)@ == old(out)@.push(c),
        final(out)@.len() == old(out)@.len() + 1,
        nl_count(final(out)@) == nl_count(old(out)@),
{
    out.push(c);
    proof {
        assert(out@.drop_last() =~= old(out)@);
    }
}

/// Terminate the current output line.
fn push_line_end(out: &mut Vec<char>)
    ensures
        final(out)@ == old(out)@.push('\n'),
        final(out)@.len() == old(out)@.len() + 1,
        nl_count(final(out)@) == nl_count(old(out)@) + 1,
{
    out.push('\n');
    proof {
        assert(out@.drop_last() =~= old(out)@);
    }
}

/// Tables have a non-negative number of display lines.
proof fn lemma_table_line_count_nonneg(rows: Seq<Vec<String>>)
    ensures
        table_line_count(rows) >= 0,
    decreases rows.len(),
{
    if rows.len() > 0 {
        lemma_table_line_count_nonneg(rows.drop_last());
        lemma_row_height_nonneg(rows.last()@);
    }
}

/// Cell heights are non-negative.
proof fn lemma_row_height_nonneg(row: Seq<String>)
    ensures
        table_row_height(row) >= 0,
    decreases row.len(),
{
    if row.len() > 0 {
        lemma_row_height_nonneg(row.drop_last());
    }
}

/// A row is at least as tall as each of its cells.
proof fn lemma_row_height_ge(row: Seq<String>, x: int)
    requires
        0 <= x < row.len(),
    ensures
        table_row_height(row) >= cell_line_count(row[x]@),
    decreases row.len(),
{
    if x == row.len() - 1 {
    } else {
        lemma_row_height_ge(row.drop_last(), x);
        assert(row.drop_last()[x] == row[x]);
    }
}

fn append_chars(out: &mut Vec<char>, src: &Vec<char>)
    ensures
        final(out)@ == old(out)@ + src@,
{
    let mut i: usize = 0;
    while i < src.len()
        invariant
            i <= src@.len(),
            out@ == old(out)@ + src@.subrange(0, i as int),
        decreases src@.len() - i,
    {
        proof {
            assert(src@.subrange(0, i + 1) =~= src@.subrange(0, i as int).push(src@[i as int]));
        }
        out.push(src[i]);
        i = i + 1;
    }
    proof {
        assert(src@.subrange(0, src@.len() as int) =~= src@);
    }
}

} // verus!
