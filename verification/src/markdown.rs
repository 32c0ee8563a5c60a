//! Rendering a query result set as a Markdown table: a header row, a
//! separator row, and one row per entry, with cell text escaped so that it
//! cannot break the table apart.

use vstd::prelude::*;

verus! {

/// The fixed sentinel returned when there are no columns to render.
pub open spec fn no_rows_sentinel() -> Seq<char> {
    "[INF] - No definition rows returned."@
}

/// How a single character renders inside a cell: pipes are escaped, line
/// breaks become spaces, everything else is kept.
pub open spec fn spec_escaped_char(c: char) -> Seq<char> {
    if c == '|' {
        seq!['\\', '|']
    } else if c == '\n' || c == '\r' {
        seq![' ']
    } else {
        seq![c]
    }
}

/// Cell text with every character rendered by `spec_escaped_char`.
pub open spec fn spec_escape(s: Seq<char>) -> Seq<char>
    decreases s.len(),
{
    if s.len() == 0 {
        Seq::empty()
    } else {
        spec_escaped_char(s[0]) + spec_escape(s.drop_first())
    }
}

pub proof fn lemma_escape_push(s: Seq<char>, c: char)
    ensures
        spec_escape(s.push(c)) == spec_escape(s) + spec_escaped_char(c),
    decreases s.len(),
{
    if s.len() == 0 {
        reveal_with_fuel(spec_escape, 2);
        assert(s.push(c)[0] == c);
        assert(s.push(c).drop_first() =~= Seq::<char>::empty());
        assert(spec_escaped_char(c) + Seq::<char>::empty() =~= spec_escaped_char(c));
        assert(Seq::<char>::empty() + spec_escaped_char(c) =~= spec_escaped_char(c));
    } else {
        lemma_escape_push(s.drop_first(), c);
        assert(s.push(c).drop_first() =~= s.drop_first().push(c));
        assert(s.push(c)[0] == s[0]);
        assert(spec_escaped_char(s[0]) + (spec_escape(s.drop_first()) + spec_escaped_char(c)) =~= (
        spec_escaped_char(s[0]) + spec_escape(s.drop_first())) + spec_escaped_char(c));
    }
}

/// The value rendered under column `i`: the row's value there, or the
/// empty string when the row is shorter.
pub open spec fn spec_cell(row: Seq<Seq<char>>, i: int) -> Seq<char> {
    if 0 <= i < row.len() {
        row[i]
    } else {
        Seq::empty()
    }
}

/// The cell chunks of one row from column `k` on: each is a space, the
/// escaped value, a space and the closing pipe.
pub open spec fn spec_cells_from(row: Seq<Seq<char>>, ncols: int, k: int) -> Seq<char>
    decreases ncols - k,
{
    if k >= ncols {
        Seq::empty()
    } else {
        seq![' '] + spec_escape(spec_cell(row, k)) + seq![' ', '|'] + spec_cells_from(
            row,
            ncols,
            k + 1,
        )
    }
}

/// A full rendered row: leading pipe, the cell chunks, a line feed.
pub open spec fn spec_table_row(row: Seq<Seq<char>>, ncols: int) -> Seq<char> {
    seq!['|'] + spec_cells_from(row, ncols, 0) + seq!['\n']
}

/// The separator chunks for `n` columns.
pub open spec fn spec_sep_cells(n: int) -> Seq<char>
    decreases n,
{
    if n <= 0 {
        Seq::empty()
    } else {
        " --- |"@ + spec_sep_cells(n - 1)
    }
}

/// Appending one more separator chunk extends the repetition by one.
pub proof fn lemma_sep_cells_snoc(n: int)
    requires
        n >= 0,
    ensures
        spec_sep_cells(n) + " --- |"@ =~= spec_sep_cells(n + 1),
    decreases n,
{
    if n == 0 {
        assert(spec_sep_cells(0) + " --- |"@ =~= " --- |"@ + Seq::<char>::empty());
    } else {
        lemma_sep_cells_snoc(n - 1);
        assert(spec_sep_cells(n) + " --- |"@ =~= " --- |"@ + (spec_sep_cells(n - 1)
            + " --- |"@));
    }
}

/// The separator row for `n` columns.
pub open spec fn spec_sep_row(n: int) -> Seq<char> {
    seq!['|'] + spec_sep_cells(n) + seq!['\n']
}

/// The data rows from index `k` on, each rendered with `ncols` columns.
pub open spec fn spec_rows_from(rows: Seq<Seq<Seq<char>>>, ncols: int, k: int) -> Seq<char>
    decreases rows.len() - k,
{
    if k < 0 || k >= rows.len() {
        Seq::empty()
    } else {
        spec_table_row(rows[k], ncols) + spec_rows_from(rows, ncols, k + 1)
    }
}

/// The whole table: the sentinel when there are no columns, otherwise a
/// header row, a separator row, and one row per entry.
pub open spec fn spec_markdown_table(cols: Seq<Seq<char>>, rows: Seq<Seq<Seq<char>>>) -> Seq<
    char,
> {
    if cols.len() == 0 {
        no_rows_sentinel()
    } else {
        spec_table_row(cols, cols.len() as int) + spec_sep_row(cols.len() as int) + spec_rows_from(
            rows,
            cols.len() as int,
            0,
        )
    }
}

/// With no columns the table is the sentinel, whatever rows are handed
/// in.
pub proof fn lemma_empty_columns_render_sentinel(rows: Seq<Seq<Seq<char>>>)
    ensures
        spec_markdown_table(Seq::empty(), rows) == no_rows_sentinel(),
{
}

/// Escapes one cell value for table rendering.
pub fn escape_markdown_cell(s: &str) -> (r: String)
    ensures
        r@ == spec_escape(s@),
{
    let n = s.unicode_len();
    let mut out = String::new();
    let mut i: usize = 0;
    proof {
        assert(s@.take(0) =~= Seq::<char>::empty());
    }
    while i < n
        invariant
            i <= n,
            n == s@.len(),
            out@ == spec_escape(s@.take(i as int)),
        decreases n - i,
    {
        proof {
            assert(s@.take(i as int + 1) =~= s@.take(i as int).push(s@[i as int]));
            lemma_escape_push(s@.take(i as int), s@[i as int]);
        }
        let c = s.get_char(i);
        if c == '|' {
            out.append("\\|");
            proof {
                reveal_strlit("\\|");
                assert("\\|"@ =~= seq!['\\', '|']);
            }
        } else if c == '\n' || c == '\r' {
            out.append(" ");
            proof {
                reveal_strlit(" ");
                assert(" "@ =~= seq![' ']);
            }
        } else {
            let piece = s.substring_char(i, i + 1);
            out.append(piece);
            proof {
                assert(piece@ =~= seq![s@[i as int]]);
            }
        }
        i += 1;
    }
    proof {
        assert(s@.take(n as int) =~= s@);
    }
    out
}

/// Renders column names and rows as a Markdown table, exactly as
/// `spec_markdown_table` lays it out: the sentinel for an empty column
/// list; otherwise header, separator, and one line per row, where a short
/// row renders empty cells and values beyond the column count are dropped.
pub fn format_definitions_as_markdown_table(col_names: &[String], rows: &[Vec<String>]) -> (r:
    String)
    ensures
        r@ == spec_markdown_table(col_names.deep_view(), rows.deep_view()),
{
    let ghost cols = col_names.deep_view();
    let ghost rowsv = rows.deep_view();
    if col_names.len() == 0 {
        return String::from_str("[INF] - No definition rows returned.");
    }
    let ncols = col_names.len();
    let mut out = String::from_str("|");
    proof {
        reveal_strlit("|");
        assert("|"@ =~= seq!['|']);
        assert(out@ + spec_cells_from(cols, ncols as int, 0) =~= seq!['|'] + spec_cells_from(
            cols,
            ncols as int,
            0,
        ));
    }

    // Header row.
    let mut i: usize = 0;
    while i < ncols
        invariant
            i <= ncols,
            ncols == cols.len(),
            cols == col_names.deep_view(),
            ncols == col_names@.len(),
            seq!['|'] + spec_cells_from(cols, ncols as int, 0) =~= out@ + spec_cells_from(
                cols,
                ncols as int,
                i as int,
            ),
        decreases ncols - i,
    {
        let ghost out_before = out@;
        out.append(" ");
        let escaped = escape_markdown_cell(col_names[i].as_str());
        out.append(escaped.as_str());
        out.append(" |");
        proof {
            reveal_strlit(" ");
            reveal_strlit(" |");
            assert(" "@ =~= seq![' ']);
            assert(" |"@ =~= seq![' ', '|']);
            assert(cols[i as int] == col_names@[i as int]@);
            assert(spec_cell(cols, i as int) == cols[i as int]);
            assert(out@ + spec_cells_from(cols, ncols as int, i as int + 1) =~= out_before
                + spec_cells_from(cols, ncols as int, i as int));
        }
        i += 1;
    }
    out.append("\n");
    let ghost header = spec_table_row(cols, ncols as int);
    proof {
        reveal_strlit("\n");
        assert("\n"@ =~= seq!['\n']);
        assert(spec_cells_from(cols, ncols as int, ncols as int) =~= Seq::<char>::empty());
        assert(out@ =~= header);
    }

    // Separator row.
    out.append("|");
    let mut k: usize = 0;
    proof {
        assert(out@ =~= header + seq!['|'] + spec_sep_cells(0));
    }
    while k < ncols
        invariant
            k <= ncols,
            out@ =~= header + seq!['|'] + spec_sep_cells(k as int),
        decreases ncols - k,
    {
        out.append(" --- |");
        proof {
            lemma_sep_cells_snoc(k as int);
            assert((header + seq!['|'] + spec_sep_cells(k as int)) + " --- |"@ =~= header
                + seq!['|'] + spec_sep_cells(k as int + 1));
        }
        k += 1;
    }
    out.append("\n");
    let ghost head_and_sep = header + spec_sep_row(ncols as int);
    proof {
        assert(out@ =~= head_and_sep);
        assert(head_and_sep + spec_rows_from(rowsv, ncols as int, 0) =~= out@ + spec_rows_from(
            rowsv,
            ncols as int,
            0,
        ));
    }

    // Data rows.
    let mut rk: usize = 0;
    while rk < rows.len()
        invariant
            rk <= rows@.len(),
            ncols == cols.len(),
            rowsv == rows.deep_view(),
            rowsv.len() == rows@.len(),
            head_and_sep + spec_rows_from(rowsv, ncols as int, 0) =~= out@ + spec_rows_from(
                rowsv,
                ncols as int,
                rk as int,
            ),
        decreases rows@.len() - rk,
    {
        let ghost row_start = out@;
        let ghost rowdv = rowsv[rk as int];
        let row = &rows[rk];
        proof {
            assert(rowdv == rows@[rk as int].deep_view());
        }
        out.append("|");
        let mut ci: usize = 0;
        proof {
            reveal_strlit("|");
            assert("|"@ =~= seq!['|']);
            assert(out@ + spec_cells_from(rowdv, ncols as int, 0) =~= row_start + (seq!['|']
                + spec_cells_from(rowdv, ncols as int, 0)));
        }
        while ci < ncols
            invariant
                ci <= ncols,
                ncols == cols.len(),
                rowdv == row.deep_view(),
                row_start + (seq!['|'] + spec_cells_from(rowdv, ncols as int, 0)) =~= out@
                    + spec_cells_from(rowdv, ncols as int, ci as int),
            decreases ncols - ci,
        {
            let ghost out_before = out@;
            out.append(" ");
            if ci < row.len() {
                let escaped = escape_markdown_cell(row[ci].as_str());
                out.append(escaped.as_str());
                proof {
                    assert(rowdv[ci as int] == row@[ci as int]@);
                    assert(spec_cell(rowdv, ci as int) == rowdv[ci as int]);
                }
            } else {
                proof {
                    assert(spec_cell(rowdv, ci as int) =~= Seq::<char>::empty());
                    assert(spec_escape(spec_cell(rowdv, ci as int)) =~= Seq::<char>::empty());
                }
            }
            out.append(" |");
            proof {
                reveal_strlit(" ");
                reveal_strlit(" |");
                assert(" "@ =~= seq![' ']);
                assert(" |"@ =~= seq![' ', '|']);
                assert(out@ + spec_cells_from(rowdv, ncols as int, ci as int + 1) =~= out_before
                    + spec_cells_from(rowdv, ncols as int, ci as int));
            }
            ci += 1;
        }
        out.append("\n");
        proof {
            reveal_strlit("\n");
            assert("\n"@ =~= seq!['\n']);
            assert(spec_cells_from(rowdv, ncols as int, ncols as int) =~= Seq::<char>::empty());
            assert(out@ =~= row_start + spec_table_row(rowdv, ncols as int));
            assert(spec_rows_from(rowsv, ncols as int, rk as int) == spec_table_row(
                rowdv,
                ncols as int,
            ) + spec_rows_from(rowsv, ncols as int, rk as int + 1));
            assert(out@ + spec_rows_from(rowsv, ncols as int, rk as int + 1) =~= row_start
                + spec_rows_from(rowsv, ncols as int, rk as int));
        }
        rk += 1;
    }
    proof {
        assert(spec_rows_from(rowsv, ncols as int, rows@.len() as int) =~= Seq::<char>::empty());
        assert(out@ =~= head_and_sep + spec_rows_from(rowsv, ncols as int, 0));
        assert(out@ =~= spec_markdown_table(cols, rowsv));
    }
    out
}

} // verus!
