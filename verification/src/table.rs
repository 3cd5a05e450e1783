//! Plain-text table rendering.
//!
//! A [`TableBuilder`] collects rows of already-rendered cells,
//! tracks the widest cell of every column, and renders the table as
//! one string: the title line, then each row indented by two spaces
//! with every cell left-padded to its column's width and followed by
//! a single space.

use vstd::math::max;
use vstd::prelude::*;

verus! {

/// The number of columns a row set spans: the length of its longest
/// row.
pub open spec fn spec_ncols(rows: Seq<Seq<Seq<char>>>) -> int
    decreases rows.len(),
{
    if rows.len() == 0 {
        0
    } else {
        max(spec_ncols(rows.drop_last()), rows.last().len() as int)
    }
}

/// The width of column `j`: the length of the longest cell any row
/// has there.
pub open spec fn spec_col_width(rows: Seq<Seq<Seq<char>>>, j: int) -> int
    decreases rows.len(),
{
    if rows.len() == 0 {
        0
    } else {
        max(
            spec_col_width(rows.drop_last(), j),
            if 0 <= j < rows.last().len() {
                rows.last()[j].len() as int
            } else {
                0
            },
        )
    }
}

proof fn lemma_col_width_push(rows: Seq<Seq<Seq<char>>>, v: Seq<Seq<char>>, j: int)
    ensures
        spec_col_width(rows.push(v), j) == max(
            spec_col_width(rows, j),
            if 0 <= j < v.len() {
                v[j].len() as int
            } else {
                0
            },
        ),
        spec_ncols(rows.push(v)) == max(spec_ncols(rows), v.len() as int),
{
    assert(rows.push(v).drop_last() =~= rows);
}

proof fn lemma_row_bounds(rows: Seq<Seq<Seq<char>>>, r: int)
    requires
        0 <= r < rows.len(),
    ensures
        rows[r].len() <= spec_ncols(rows),
        forall|j: int| 0 <= j < rows[r].len() ==> rows[r][j].len() <= spec_col_width(rows, j),
        forall|j: int| spec_col_width(rows, j) >= 0,
    decreases rows.len(),
{
    lemma_col_width_nonneg(rows);
    if r == rows.len() - 1 {
        assert forall|j: int| 0 <= j < rows[r].len() implies rows[r][j].len() <= spec_col_width(
            rows,
            j,
        ) by {
            lemma_col_width_nonneg(rows.drop_last());
            assert(rows.last() == rows[r]);
        }
    } else {
        lemma_row_bounds(rows.drop_last(), r);
        assert(rows.drop_last()[r] == rows[r]);
        assert forall|j: int| 0 <= j < rows[r].len() implies rows[r][j].len() <= spec_col_width(
            rows,
            j,
        ) by {
            assert(rows[r][j].len() <= spec_col_width(rows.drop_last(), j));
        }
    }
}

proof fn lemma_col_width_beyond(rows: Seq<Seq<Seq<char>>>, j: int)
    requires
        j >= spec_ncols(rows),
    ensures
        spec_col_width(rows, j) == 0,
    decreases rows.len(),
{
    if rows.len() > 0 {
        lemma_col_width_nonneg(rows.drop_last());
        lemma_col_width_beyond(rows.drop_last(), j);
    }
}

proof fn lemma_col_width_nonneg(rows: Seq<Seq<Seq<char>>>)
    ensures
        forall|j: int| spec_col_width(rows, j) >= 0,
        spec_ncols(rows) >= 0,
    decreases rows.len(),
{
    if rows.len() > 0 {
        lemma_col_width_nonneg(rows.drop_last());
    }
}

/// `n` spaces.
pub open spec fn spec_spaces(n: int) -> Seq<char>
    decreases n,
{
    if n <= 0 {
        Seq::empty()
    } else {
        spec_spaces(n - 1).push(' ')
    }
}

/// A cell padded on the right to width `w`.
pub open spec fn spec_pad(s: Seq<char>, w: int) -> Seq<char> {
    s + spec_spaces(w - s.len())
}

/// The rendering of the cells of one row from column `j` on: each
/// cell padded to its column's width and followed by one space.
pub open spec fn spec_cells(row: Seq<Seq<char>>, rows: Seq<Seq<Seq<char>>>, j: int) -> Seq<char>
    decreases row.len() - j,
{
    if j < 0 || j >= row.len() {
        Seq::empty()
    } else {
        spec_pad(row[j], spec_col_width(rows, j)) + seq![' '] + spec_cells(row, rows, j + 1)
    }
}

/// The rendering of the rows from `r` on: each non-empty row on its
/// own line, indented by two spaces.
pub open spec fn spec_lines(rows: Seq<Seq<Seq<char>>>, r: int) -> Seq<char>
    decreases rows.len() - r,
{
    if r < 0 || r >= rows.len() {
        Seq::empty()
    } else {
        (if rows[r].len() == 0 {
            Seq::empty()
        } else {
            seq!['\n', ' ', ' '] + spec_cells(rows[r], rows, 0)
        }) + spec_lines(rows, r + 1)
    }
}

/// The whole table: the title, the rows, a final line break.
pub open spec fn spec_table_render(title: Seq<char>, rows: Seq<Seq<Seq<char>>>) -> Seq<char> {
    title + spec_lines(rows, 0) + seq!['\n']
}

/// Collects rendered cells row by row and renders them as an
/// aligned plain-text table.
pub struct TableBuilder {
    pub title: String,
    pub rows: Vec<Vec<String>>,
    pub widths: Vec<usize>,
}

impl TableBuilder {
    /// The collected rows, as sequences of characters.
    pub open spec fn rows_view(self) -> Seq<Seq<Seq<char>>> {
        self.rows@.map_values(|row: Vec<String>| row@.map_values(|s: String| s@))
    }

    /// The width cache matches the collected rows: one entry per
    /// column, each the column's widest cell.
    pub open spec fn wf(self) -> bool {
        &&& self.widths@.len() == spec_ncols(self.rows_view())
        &&& forall|j: int|
            0 <= j < self.widths@.len() ==> self.widths@[j] == spec_col_width(self.rows_view(), j)
    }

    /// Starts a table with a title and no rows.
    pub fn new(title: &str) -> (r: Self)
        ensures
            r.wf(),
            r.title@ == title@,
            r.rows_view() =~= Seq::<Seq<Seq<char>>>::empty(),
    {
        let r = TableBuilder { title: String::from_str(title), rows: Vec::new(), widths: Vec::new() };
        proof {
            assert(r.rows_view() =~= Seq::<Seq<Seq<char>>>::empty());
        }
        r
    }

    /// Records that column `index` holds a cell `width` characters
    /// wide: the column's width becomes the larger of the two.
    fn set_width(&mut self, index: usize, width: usize)
        requires
            index <= old(self).widths@.len(),
        ensures
            final(self).widths@.len() == max(
                old(self).widths@.len() as int,
                index as int + 1,
            ),
            final(self).widths@[index as int] == max(
                if index < old(self).widths@.len() {
                    old(self).widths@[index as int] as int
                } else {
                    0
                },
                width as int,
            ),
            forall|j: int|
                0 <= j < old(self).widths@.len() && j != index ==> final(self).widths@[j] == old(
                    self,
                ).widths@[j],
            final(self).title == old(self).title,
            final(self).rows == old(self).rows,
    {
        if index < self.widths.len() {
            let current = self.widths[index];
            if width > current {
                self.widths.set(index, width);
            }
        } else {
            self.widths.push(width);
        }
    }

    /// The width recorded for column `index`, or zero where none
    /// is.
    fn get_width(&self, index: usize) -> (r: usize)
        ensures
            r as int == if index < self.widths@.len() {
                self.widths@[index as int] as int
            } else {
                0
            },
    {
        if index < self.widths.len() {
            self.widths[index]
        } else {
            0
        }
    }

    /// Appends one row of rendered cells and widens the columns it
    /// touches.  Cells should not contain line breaks.
    pub fn row(&mut self, values: Vec<String>)
        requires
            old(self).wf(),
        ensures
            final(self).wf(),
            final(self).title == old(self).title,
            final(self).rows_view() == old(self).rows_view().push(
                values@.map_values(|s: String| s@),
            ),
    {
        let ghost old_rows = self.rows_view();
        let ghost cells = values@.map_values(|s: String| s@);
        let mut index: usize = 0;
        while index < values.len()
            invariant
                index <= values@.len(),
                cells == values@.map_values(|s: String| s@),
                self.title == old(self).title,
                self.rows == old(self).rows,
                old_rows == self.rows_view(),
                old(self).wf(),
                self.widths@.len() == max(spec_ncols(old_rows), index as int),
                forall|j: int|
                    0 <= j < index ==> self.widths@[j] == max(
                        spec_col_width(old_rows, j),
                        cells[j].len() as int,
                    ),
                forall|j: int|
                    index <= j < self.widths@.len() ==> self.widths@[j] == spec_col_width(
                        old_rows,
                        j,
                    ),
            decreases values@.len() - index,
        {
            proof {
                lemma_col_width_nonneg(old_rows);
                if index as int >= spec_ncols(old_rows) {
                    lemma_col_width_beyond(old_rows, index as int);
                }
            }
            let width = values[index].as_str().unicode_len();
            self.set_width(index, width);
            index = index + 1;
        }
        self.rows.push(values);
        proof {
            lemma_col_width_nonneg(old_rows);
            assert(self.rows_view() =~= old_rows.push(cells));
            assert forall|j: int| 0 <= j < self.widths@.len() implies self.widths@[j]
                == spec_col_width(self.rows_view(), j) by {
                lemma_col_width_push(old_rows, cells, j);
            }
            lemma_col_width_push(old_rows, cells, 0);
        }
    }

    /// Renders the table: the title, each non-empty row on its own
    /// line indented by two spaces, every cell padded to its
    /// column's width and followed by one space, and a final line
    /// break.
    pub fn finish(&self) -> (r: String)
        requires
            self.wf(),
        ensures
            r@ == spec_table_render(self.title@, self.rows_view()),
    {
        proof {
            reveal_strlit("\n  ");
            reveal_strlit(" ");
            reveal_strlit("\n");
        }
        let ghost rows = self.rows_view();
        let mut out = String::from_str(self.title.as_str());
        let mut r: usize = 0;
        while r < self.rows.len()
            invariant
                self.wf(),
                rows == self.rows_view(),
                r <= self.rows@.len(),
                rows.len() == self.rows@.len(),
                self.title@ + spec_lines(rows, 0) == out@ + spec_lines(rows, r as int),
            decreases self.rows@.len() - r,
        {
            let ghost line_start = out@;
            let row = &self.rows[r];
            proof {
                reveal_strlit("\n  ");
                assert(rows[r as int] =~= row@.map_values(|s: String| s@));
                lemma_row_bounds(rows, r as int);
            }
            if row.len() > 0 {
                out.append("\n  ");
                assert(out@ =~= line_start + seq!['\n', ' ', ' ']);
                let ghost cells_target = out@ + spec_cells(rows[r as int], rows, 0);
                let mut j: usize = 0;
                while j < row.len()
                    invariant
                        self.wf(),
                        rows == self.rows_view(),
                        r < self.rows@.len(),
                        rows.len() == self.rows@.len(),
                        rows[r as int] == row@.map_values(|s: String| s@),
                        j <= row@.len(),
                        rows[r as int].len() == row@.len(),
                        rows[r as int].len() <= spec_ncols(rows),
                        forall|k: int|
                            0 <= k < rows[r as int].len() ==> rows[r as int][k].len()
                                <= spec_col_width(rows, k),
                        forall|k: int| spec_col_width(rows, k) >= 0,
                        cells_target == out@ + spec_cells(rows[r as int], rows, j as int),
                    decreases row@.len() - j,
                {
                    let ghost cell_start = out@;
                    proof {
                        reveal_strlit(" ");
                    }
                    out.append(row[j].as_str());
                    let target = self.get_width(j);
                    let have = row[j].as_str().unicode_len();
                    let mut k = have;
                    while k < target
                        invariant
                            have as int == rows[r as int][j as int].len(),
                            have <= k,
                            k as int <= max(target as int, have as int),
                            out@ == cell_start + rows[r as int][j as int] + spec_spaces(
                                k as int - have as int,
                            ),
                        decreases target as int - k as int,
                    {
                        out.append(" ");
                        k = k + 1;
                        proof {
                            reveal_strlit(" ");
                            assert(out@ =~= cell_start + rows[r as int][j as int] + spec_spaces(
                                k as int - have as int,
                            ));
                        }
                    }
                    out.append(" ");
                    j = j + 1;
                    proof {
                        assert(out@ =~= cell_start + spec_pad(
                            rows[r as int][j as int - 1],
                            spec_col_width(rows, j as int - 1),
                        ) + seq![' ']);
                        assert(cells_target == out@ + spec_cells(rows[r as int], rows, j as int));
                    }
                }
            }
            r = r + 1;
            proof {
                assert(self.title@ + spec_lines(rows, 0) == out@ + spec_lines(rows, r as int));
            }
        }
        out.append("\n");
        proof {
            reveal_strlit("\n");
            assert(out@ =~= spec_table_render(self.title@, rows));
        }
        out
    }
}

} // verus!
