//! Column-aligned output for the command line.
//!
//! Hand-rolled because a table crate would be more dependency than the two
//! tables the CLI prints. Deciding the layout happens here; printing it is the
//! caller's job.

use vstd::prelude::*;

use crate::text::{append, chars_of, string_from};

verus! {

/// App names come from folder names, so they can contain anything. Counting
/// chars rather than bytes keeps non-ASCII names aligned.
pub fn display_width(s: &str) -> (w: usize)
    ensures
        w == s@.len(),
{
    chars_of(s).len()
}

/// `n` spaces.
pub open spec fn spaces(n: nat) -> Seq<char> {
    Seq::new(n, |i: int| ' ')
}

/// How far a cell is padded: up to its column's width, never below nothing.
pub open spec fn pad_for(cell: Seq<char>, width: usize) -> nat {
    if width > cell.len() {
        (width - cell.len()) as nat
    } else {
        0
    }
}

/// The first `k` cells of a row, laid out: two spaces between columns, each
/// cell padded to its column's width - except the last column of the row,
/// which never is, so output can be piped without trailing spaces.
pub open spec fn spec_line(cells: Seq<Seq<char>>, widths: Seq<usize>, k: int) -> Seq<char>
    decreases k,
{
    if k <= 0 {
        Seq::empty()
    } else {
        let i = k - 1;
        let sep = if i > 0 {
            seq![' ', ' ']
        } else {
            Seq::empty()
        };
        let pad = if i + 1 < cells.len() {
            spaces(pad_for(cells[i], widths[i]))
        } else {
            Seq::empty()
        };
        spec_line(cells, widths, i) + sep + cells[i] + pad
    }
}

pub open spec fn row_view<const N: usize>(cells: [String; N]) -> Seq<Seq<char>> {
    cells@.map_values(|s: String| s@)
}

/// One row of the table.
pub fn line<const N: usize>(cells: &[String; N], widths: &[usize; N]) -> (out: String)
    ensures
        out@ == spec_line(row_view(*cells), widths@, N as int),
{
    let mut out: Vec<char> = Vec::new();
    let mut i: usize = 0;
    while i < N
        invariant
            i <= N,
            cells@.len() == N,
            widths@.len() == N,
            out@ == spec_line(row_view(*cells), widths@, i as int),
        decreases N - i,
    {
        let ghost before = out@;
        if i > 0 {
            out.push(' ');
            out.push(' ');
        }
        let cell = chars_of(cells[i].as_str());
        append(&mut out, &cell);
        if i + 1 < N {
            let width = widths[i];
            let used = cell.len();
            let pad: usize = if width > used {
                width - used
            } else {
                0
            };
            let mut k: usize = 0;
            let ghost with_cell = out@;
            while k < pad
                invariant
                    k <= pad,
                    out@ == with_cell + spaces(k as nat),
                decreases pad - k,
            {
                out.push(' ');
                k = k + 1;
                assert(out@ =~= with_cell + spaces(k as nat));
            }
        }
        i = i + 1;
        assert(row_view(*cells)[(i - 1) as int] == cells@[(i - 1) as int]@);
        assert(out@ =~= spec_line(row_view(*cells), widths@, i as int));
    }
    string_from(&out)
}

/// The widest of the header and every cell in column `c`.
pub open spec fn column_width(header: Seq<char>, rows: Seq<Seq<Seq<char>>>, c: int) -> nat
    decreases rows.len(),
{
    if rows.len() == 0 {
        header.len()
    } else {
        let rest = column_width(header, rows.drop_last(), c);
        let cell = rows.last()[c].len();
        if cell > rest {
            cell
        } else {
            rest
        }
    }
}

pub open spec fn rows_view<const N: usize>(rows: Seq<[String; N]>) -> Seq<Seq<Seq<char>>> {
    rows.map_values(|r: [String; N]| row_view(r))
}

/// Each column sized to its widest cell, the header included.
pub fn column_widths<const N: usize>(headers: &[String; N], rows: &Vec<[String; N]>) -> (w: Vec<
    usize,
>)
    ensures
        w@.len() == N,
        forall|c: int|
            0 <= c < N ==> w@[c] == column_width(
                row_view(*headers)[c],
                rows_view(rows@),
                c,
            ),
{
    let mut w: Vec<usize> = Vec::new();
    let mut c: usize = 0;
    while c < N
        invariant
            c <= N,
            headers@.len() == N,
            w@.len() == c,
            forall|j: int|
                0 <= j < c ==> w@[j] == column_width(
                    row_view(*headers)[j],
                    rows_view(rows@),
                    j,
                ),
        decreases N - c,
    {
        let mut best = display_width(headers[c].as_str());
        let mut r: usize = 0;
        while r < rows.len()
            invariant
                c < N,
                r <= rows.len(),
                headers@.len() == N,
                best == column_width(
                    row_view(*headers)[c as int],
                    rows_view(rows@.take(r as int)),
                    c as int,
                ),
            decreases rows.len() - r,
        {
            let row = &rows[r];
            assert(row@.len() == N);
            let here = display_width(row[c].as_str());
            assert(rows_view(rows@.take((r + 1) as int)).drop_last() =~= rows_view(
                rows@.take(r as int),
            ));
            assert(rows_view(rows@.take((r + 1) as int)).last() == row_view(rows@[r as int]));
            if here > best {
                best = here;
            }
            r = r + 1;
        }
        assert(rows@.take(rows.len() as int) =~= rows@);
        w.push(best);
        c = c + 1;
    }
    w
}


/// How many characters a cell takes up before the two spaces that follow
/// it: its column's width, or its own length when it is longer.
pub open spec fn cell_span(cell: Seq<char>, width: usize) -> nat {
    if width > cell.len() {
        width as nat
    } else {
        cell.len()
    }
}

/// Where cell `k` of a row starts: every earlier cell's span, and two spaces
/// after each.
pub open spec fn column_start(cells: Seq<Seq<char>>, widths: Seq<usize>, k: int) -> nat
    decreases k,
{
    if k <= 0 {
        0
    } else {
        column_start(cells, widths, k - 1) + cell_span(cells[k - 1], widths[k - 1]) + 2
    }
}

proof fn lemma_line_len(cells: Seq<Seq<char>>, widths: Seq<usize>, j: int)
    requires
        cells.len() == widths.len(),
        0 <= j <= cells.len(),
    ensures
        spec_line(cells, widths, j).len() == (if j == 0 {
            0int
        } else if j < cells.len() {
            column_start(cells, widths, j) - 2
        } else {
            (column_start(cells, widths, j - 1) + cells[j - 1].len()) as int
        }),
    decreases j,
{
    if j > 0 {
        let c = j - 1;
        lemma_line_len(cells, widths, c);
        assert(spaces(pad_for(cells[c], widths[c])).len() == pad_for(cells[c], widths[c]));
        assert(cells[c].len() + pad_for(cells[c], widths[c]) == cell_span(cells[c], widths[c]));
        assert(column_start(cells, widths, j) == column_start(cells, widths, c) + cell_span(cells[c], widths[c]) + 2);
        if c == 0 {
            assert(column_start(cells, widths, 0) == 0);
        }
    }
}

proof fn lemma_line_prefix(cells: Seq<Seq<char>>, widths: Seq<usize>, j: int, n: int)
    requires
        0 <= j <= n,
    ensures
        spec_line(cells, widths, j).len() <= spec_line(cells, widths, n).len(),
        spec_line(cells, widths, n).subrange(0, spec_line(cells, widths, j).len() as int) == spec_line(
            cells,
            widths,
            j,
        ),
    decreases n,
{
    if j < n {
        lemma_line_prefix(cells, widths, j, n - 1);
        let a = spec_line(cells, widths, j);
        let b = spec_line(cells, widths, n - 1);
        let c = spec_line(cells, widths, n);
        assert(c.subrange(0, b.len() as int) =~= b);
        assert(c.subrange(0, a.len() as int) =~= b.subrange(0, a.len() as int));
    } else {
        assert(spec_line(cells, widths, n).subrange(0, spec_line(cells, widths, n).len() as int) =~= spec_line(
            cells,
            widths,
            n,
        ));
    }
}

/// The columns of a row line up: cell `k` starts where every earlier cell's
/// span (its own column's width, or the cell when longer) and two spaces
/// after each end, and only spaces fill the room between the end of a cell
/// and the start of the next; the last cell ends the line.
pub proof fn lemma_columns_line_up(cells: Seq<Seq<char>>, widths: Seq<usize>, k: int)
    requires
        cells.len() == widths.len(),
        0 <= k < cells.len(),
    ensures
        ({
            let line = spec_line(cells, widths, cells.len() as int);
            let start = column_start(cells, widths, k) as int;
            &&& start + cells[k].len() <= line.len()
            &&& line.subrange(start as int, start + cells[k].len()) == cells[k]
            &&& k + 1 < cells.len() ==> forall|p: int|
                start + cells[k].len() <= p < column_start(cells, widths, k + 1) ==> line[p] == ' '
            &&& k + 1 == cells.len() ==> line.len() == start + cells[k].len()
        }),
{
    let n = cells.len() as int;
    let line = spec_line(cells, widths, n);
    let start = column_start(cells, widths, k) as int;
    let before = spec_line(cells, widths, k);
    let upto = spec_line(cells, widths, k + 1);
    lemma_line_len(cells, widths, k);
    lemma_line_len(cells, widths, k + 1);
    lemma_line_prefix(cells, widths, k + 1, n);
    let sep: Seq<char> = if k > 0 {
        seq![' ', ' ']
    } else {
        Seq::empty()
    };
    let pad: Seq<char> = if k + 1 < n {
        spaces(pad_for(cells[k], widths[k]))
    } else {
        Seq::empty()
    };
    assert(upto == before + sep + cells[k] + pad);
    assert(before.len() + sep.len() == start);
    assert(upto.subrange(start as int, start + cells[k].len()) =~= cells[k]);
    assert(line.subrange(start as int, start + cells[k].len()) =~= upto.subrange(
        start as int,
        start + cells[k].len(),
    ));
    if k + 1 < n {
        let next = spec_line(cells, widths, k + 2);
        lemma_line_len(cells, widths, k + 2);
        lemma_line_prefix(cells, widths, k + 2, n);
        assert forall|p: int| start + cells[k].len() <= p < column_start(cells, widths, k + 1) implies line[p]
            == ' ' by {
            if p < upto.len() {
                assert(upto[p] == pad[p - start - cells[k].len()]);
                assert(line[p] == line.subrange(0, upto.len() as int)[p]);
            } else {
                assert(next == upto + seq![' ', ' '] + cells[k + 1] + (if k + 2 < n {
                    spaces(pad_for(cells[k + 1], widths[k + 1]))
                } else {
                    Seq::empty()
                }));
                assert(next[p] == ' ');
                assert(line[p] == line.subrange(0, next.len() as int)[p]);
            }
        }
    }
}

} // verus!
