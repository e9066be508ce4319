//! The table of cells and the operations on it.
use vstd::prelude::*;

use crate::text::{
    comma, join_strings, join_with, line_cells, pad, padded, quote, quoted, split_line,
};

verus! {

/// Why an edit was refused. A refused edit leaves the table as it was.
#[derive(Clone, Copy, Debug, PartialEq, Eq, Structural)]
pub enum EditError {
    /// The row index is 0 or beyond the last row.
    RowIndexOutOfBound,
    /// The column index is 0 or beyond the last cell of the row.
    ColumnIndexOutOfBound,
    /// A single-cell edit was given other than one value.
    ValueLengthMismatch,
    /// A whole-row edit was given a number of values other than the row's length.
    ReplacementLengthMismatch,
}

impl EditError {
    /// A sentence that names the kind of error.
    pub fn message(&self) -> (r: &'static str) {
        match self {
            EditError::RowIndexOutOfBound => "Row index out of bound",
            EditError::ColumnIndexOutOfBound => "Column index out of bound",
            EditError::ValueLengthMismatch => "Provided values length mismatch",
            EditError::ReplacementLengthMismatch => "Replacement values length mismatch",
        }
    }
}

/// A table of text cells. Rows may differ in length; the column count is the
/// length of the first row.
pub struct CSVData {
    data: Vec<Vec<String>>,
    rows: usize,
    cols: usize,
}

/// The rows that a sequence of lines holds, one per line.
pub open spec fn loaded(lines: Seq<Seq<char>>) -> Seq<Seq<Seq<char>>> {
    lines.map_values(|l: Seq<char>| line_cells(l))
}

/// The lines that a table is written as: each row's cells joined by commas.
pub open spec fn saved(t: Seq<Seq<Seq<char>>>) -> Seq<Seq<char>> {
    t.map_values(|row: Seq<Seq<char>>| join_with(row, comma()))
}

/// A row index, counted from 1, that names a row of `t`.
pub open spec fn valid_row(t: Seq<Seq<Seq<char>>>, row_index: int) -> bool {
    1 <= row_index <= t.len()
}

/// What `modify` makes of table `t`: the new table, or the error.
pub open spec fn modified(
    t: Seq<Seq<Seq<char>>>,
    row_index: int,
    col_index: Option<usize>,
    values: Seq<Seq<char>>,
) -> Result<Seq<Seq<Seq<char>>>, EditError> {
    if !valid_row(t, row_index) {
        Err(EditError::RowIndexOutOfBound)
    } else {
        let row = t[row_index - 1];
        match col_index {
            Some(c) => if values.len() != 1 {
                Err(EditError::ValueLengthMismatch)
            } else if c == 0 || c > row.len() {
                Err(EditError::ColumnIndexOutOfBound)
            } else {
                Ok(t.update(row_index - 1, row.update(c - 1, quote(values[0]))))
            },
            None => if values.len() != row.len() {
                Err(EditError::ReplacementLengthMismatch)
            } else {
                Ok(t.update(row_index - 1, values.map_values(|v: Seq<char>| quote(v))))
            },
        }
    }
}

/// What `delete` makes of table `t`: the new table, or the error.
pub open spec fn deleted(t: Seq<Seq<Seq<char>>>, row_index: int) -> Result<
    Seq<Seq<Seq<char>>>,
    EditError,
> {
    if !valid_row(t, row_index) {
        Err(EditError::RowIndexOutOfBound)
    } else {
        Ok(t.remove(row_index - 1))
    }
}

/// The widest cell at column `i` (counted from 0) over all rows of `t` that
/// reach it; 0 where none does.
pub open spec fn col_width(t: Seq<Seq<Seq<char>>>, i: int) -> nat
    decreases t.len(),
{
    if t.len() == 0 {
        0
    } else {
        let w = col_width(t.drop_last(), i);
        let row = t.last();
        if 0 <= i < row.len() && row[i].len() > w {
            row[i].len()
        } else {
            w
        }
    }
}

/// The width of each of the first `cols` columns of `t`.
pub open spec fn col_widths(t: Seq<Seq<Seq<char>>>, cols: nat) -> Seq<int> {
    Seq::new(cols, |i: int| col_width(t, i) as int)
}

/// No row of `t` has more than `cols` cells.
pub open spec fn rows_fit(t: Seq<Seq<Seq<char>>>, cols: nat) -> bool {
    forall|r: int| 0 <= r < t.len() ==> #[trigger] t[r].len() <= cols
}

/// The separator between two rendered cells.
pub open spec fn bar() -> Seq<char> {
    seq!['|', ' ']
}

/// `row` rendered: each cell padded with spaces to its column's width, the
/// cells joined by a bar and a space.
pub open spec fn format_line(row: Seq<Seq<char>>, widths: Seq<int>) -> Seq<char> {
    join_with(Seq::new(row.len(), |j: int| pad(row[j], widths[j])), bar())
}

/// Every row of `t` rendered, with the widths of the whole table.
pub open spec fn rendered(t: Seq<Seq<Seq<char>>>, cols: nat) -> Seq<Seq<char>> {
    t.map_values(|row: Seq<Seq<char>>| format_line(row, col_widths(t, cols)))
}

/// Rows `start` to `end` (counted from 1, both included) of `lines`: none where
/// `start` is 0, beyond the last row or beyond `end`; up to the last row where
/// `end` is beyond it.
pub open spec fn page(lines: Seq<Seq<char>>, start: int, end: int) -> Seq<Seq<char>> {
    if start == 0 || start > lines.len() || start > end {
        Seq::empty()
    } else {
        lines.subrange(start - 1, if end < lines.len() { end } else { lines.len() as int })
    }
}

/// No cell of `t` is wider than its column's width.
pub proof fn lemma_col_width_bounds(t: Seq<Seq<Seq<char>>>, r: int, i: int)
    requires
        0 <= r < t.len(),
        0 <= i < t[r].len(),
    ensures
        t[r][i].len() <= col_width(t, i),
    decreases t.len(),
{
    if r < t.len() - 1 {
        lemma_col_width_bounds(t.drop_last(), r, i);
    }
}

impl View for CSVData {
    type V = Seq<Seq<Seq<char>>>;

    closed spec fn view(&self) -> Seq<Seq<Seq<char>>> {
        self.data.deep_view()
    }
}

impl CSVData {
    /// The number of rows that the table records.
    pub closed spec fn spec_row_count(&self) -> nat {
        self.rows as nat
    }

    /// The number of columns: the length of the first row as loaded.
    pub closed spec fn spec_col_count(&self) -> nat {
        self.cols as nat
    }

    /// The recorded row count is the number of rows.
    pub open spec fn wf(&self) -> bool {
        self.spec_row_count() == self@.len()
    }

    /// Builds the table that `lines` hold: one row per line, its cells the
    /// comma-separated pieces of the line, trimmed.
    pub fn from_lines(lines: &Vec<String>) -> (r: CSVData)
        ensures
            r.wf(),
            r@ == loaded(lines.deep_view()),
            r.spec_col_count() == (if lines@.len() > 0 {
                line_cells(lines@[0]@).len()
            } else {
                0
            }),
    {
        let ghost ls = lines.deep_view();
        let mut data: Vec<Vec<String>> = Vec::new();
        let mut cols: usize = 0;
        let mut k: usize = 0;
        while k < lines.len()
            invariant
                k <= lines@.len(),
                ls == lines.deep_view(),
                data.deep_view() == loaded(ls.take(k as int)),
                cols == (if k > 0 {
                    line_cells(ls[0]).len()
                } else {
                    0
                }),
            decreases lines@.len() - k,
        {
            let row = split_line(lines[k].as_str());
            if k == 0 {
                cols = row.len();
            }
            let ghost prev = data.deep_view();
            let ghost new_row = row.deep_view();
            data.push(row);
            assert(data.deep_view() =~= prev.push(new_row));
            assert(loaded(ls.take(k + 1)) =~= loaded(ls.take(k as int)).push(line_cells(ls[k as int])));
            k = k + 1;
        }
        assert(ls.take(k as int) =~= ls);
        CSVData { data, rows: k, cols }
    }

    /// The table written as lines: each row's cells joined by commas, in row
    /// order.
    pub fn to_lines(&self) -> (r: Vec<String>)
        ensures
            r.deep_view() == saved(self@),
    {
        let mut out: Vec<String> = Vec::new();
        let mut k: usize = 0;
        while k < self.data.len()
            invariant
                k <= self.data@.len(),
                out.deep_view() == saved(self@.take(k as int)),
            decreases self.data@.len() - k,
        {
            let line = join_strings(self.data[k].as_slice(), ",");
            proof {
                reveal_strlit(",");
                assert(",".view() =~= comma());
                assert(self.data@[k as int]@.map_values(|c: String| c@) =~= self@[k as int]);
            }
            let ghost prev = out.deep_view();
            out.push(line);
            assert(out.deep_view() =~= prev.push(line@));
            assert(saved(self@.take(k + 1)) =~= saved(self@.take(k as int)).push(
                join_with(self@[k as int], comma()),
            ));
            k = k + 1;
        }
        assert(self@.take(k as int) =~= self@);
        out
    }

    /// The number of rows.
    pub fn row_count(&self) -> (r: usize)
        ensures
            r == self.spec_row_count(),
    {
        self.rows
    }

    /// The number of columns: the length of the first row as loaded.
    pub fn col_count(&self) -> (r: usize)
        ensures
            r == self.spec_col_count(),
    {
        self.cols
    }

    /// The cells of the table, row by row.
    pub fn rows(&self) -> (r: &Vec<Vec<String>>)
        ensures
            r.deep_view() == self@,
    {
        &self.data
    }

    /// Edits row `row_index` (counted from 1). With a column index (counted
    /// from 1) and one value, that cell becomes the value in double quotes;
    /// without one, the row becomes `values`, each in double quotes, provided
    /// they are as many as the row's cells. Anything else is refused, and the
    /// table left as it was.
    pub fn modify(&mut self, row_index: usize, col_index: Option<usize>, values: Vec<String>) -> (r:
        Result<(), EditError>)
        requires
            old(self).wf(),
        ensures
            final(self).wf(),
            final(self).spec_col_count() == old(self).spec_col_count(),
            modified(old(self)@, row_index as int, col_index, values.deep_view()) == (match r {
                Ok(_) => Ok(final(self)@),
                Err(e) => Err(e),
            }),
            r is Err ==> final(self)@ == old(self)@,
    {
        if row_index == 0 || row_index > self.data.len() {
            return Err(EditError::RowIndexOutOfBound);
        }
        let ri = row_index - 1;
        match col_index {
            Some(ci) => {
                if values.len() != 1 {
                    return Err(EditError::ValueLengthMismatch);
                }
                if ci == 0 || ci > self.data[ri].len() {
                    return Err(EditError::ColumnIndexOutOfBound);
                }
                let cell = quoted(values[0].as_str());
                let mut row = self.data[ri].clone();
                assert(row.deep_view() =~= self@[ri as int]);
                let ghost cell_view = cell@;
                row.set(ci - 1, cell);
                assert(row.deep_view() =~= old(self)@[ri as int].update(ci - 1, cell_view));
                self.data.set(ri, row);
                assert(self@ =~= old(self)@.update(
                    ri as int,
                    old(self)@[ri as int].update(ci - 1, quote(values.deep_view()[0])),
                ));
            },
            None => {
                if values.len() != self.data[ri].len() {
                    return Err(EditError::ReplacementLengthMismatch);
                }
                let mut row: Vec<String> = Vec::new();
                let mut k: usize = 0;
                while k < values.len()
                    invariant
                        k <= values@.len(),
                        row.deep_view() == values.deep_view().take(k as int).map_values(
                            |v: Seq<char>| quote(v),
                        ),
                    decreases values@.len() - k,
                {
                    let ghost prev = row.deep_view();
                    let q = quoted(values[k].as_str());
                    row.push(q);
                    assert(row.deep_view() =~= prev.push(q@));
                    assert(values.deep_view().take(k + 1).map_values(|v: Seq<char>| quote(v))
                        =~= values.deep_view().take(k as int).map_values(|v: Seq<char>| quote(v)).push(
                        quote(values@[k as int]@),
                    ));
                    k = k + 1;
                }
                assert(values.deep_view().take(k as int) =~= values.deep_view());
                let ghost new_row = row.deep_view();
                self.data.set(ri, row);
                assert(self@ =~= old(self)@.update(ri as int, new_row));
            },
        }
        Ok(())
    }

    /// Removes row `row_index` (counted from 1); the rows after it move up by
    /// one. An index that names no row is refused, and the table left as it
    /// was.
    pub fn delete(&mut self, row_index: usize) -> (r: Result<(), EditError>)
        requires
            old(self).wf(),
        ensures
            final(self).wf(),
            final(self).spec_col_count() == old(self).spec_col_count(),
            deleted(old(self)@, row_index as int) == (match r {
                Ok(_) => Ok(final(self)@),
                Err(e) => Err(e),
            }),
            r is Err ==> final(self)@ == old(self)@,
    {
        if row_index == 0 || row_index > self.data.len() {
            return Err(EditError::RowIndexOutOfBound);
        }
        self.data.remove(row_index - 1);
        self.rows = self.rows - 1;
        assert(self@ =~= old(self)@.remove(row_index - 1));
        Ok(())
    }

    /// The width of each column: the widest cell at that index over all rows.
    pub fn calculate_max_col_width(&self) -> (r: Vec<usize>)
        requires
            rows_fit(self@, self.spec_col_count()),
        ensures
            r@.len() == self.spec_col_count(),
            forall|i: int| 0 <= i < r@.len() ==> r@[i] == col_width(self@, i),
    {
        let mut widths: Vec<usize> = vec![0; self.cols];
        let mut k: usize = 0;
        while k < self.data.len()
            invariant
                k <= self.data@.len(),
                rows_fit(self@, self.spec_col_count()),
                widths@.len() == self.cols,
                forall|i: int| 0 <= i < widths@.len() ==> widths@[i] == col_width(self@.take(k as int), i),
            decreases self.data@.len() - k,
        {
            let row = &self.data[k];
            assert(self@.take(k + 1).drop_last() =~= self@.take(k as int));
            assert(row.deep_view() == self@[k as int]);
            assert(self@[k as int].len() <= self.cols);
            let mut j: usize = 0;
            while j < row.len()
                invariant
                    row.deep_view() == self@[k as int],
                    k < self.data@.len(),
                    j <= row@.len() <= self.cols,
                    widths@.len() == self.cols,
                    self@.take(k + 1).drop_last() == self@.take(k as int),
                    forall|i: int| 0 <= i < j ==> widths@[i] == col_width(self@.take(k + 1), i),
                    forall|i: int| j <= i < widths@.len() ==> widths@[i] == col_width(self@.take(k as int), i),
                decreases row@.len() - j,
            {
                let len = row[j].as_str().unicode_len();
                if len > widths[j] {
                    widths.set(j, len);
                }
                j = j + 1;
            }
            k = k + 1;
        }
        assert(self@.take(k as int) =~= self@);
        widths
    }

    /// `row` rendered: each cell padded with spaces to its column's width, the
    /// cells joined by a bar and a space.
    pub fn format_row(&self, row: &[String], columns_width: &[usize]) -> (r: String)
        requires
            row@.len() <= columns_width@.len(),
            forall|j: int| 0 <= j < row@.len() ==> (#[trigger] row@[j])@.len() <= columns_width@[j],
        ensures
            r@ == format_line(
                row@.map_values(|c: String| c@),
                columns_width@.map_values(|w: usize| w as int),
            ),
    {
        let mut cells: Vec<String> = Vec::new();
        let mut j: usize = 0;
        while j < row.len()
            invariant
                j <= row@.len() <= columns_width@.len(),
                forall|q: int| 0 <= q < row@.len() ==> (#[trigger] row@[q])@.len() <= columns_width@[q],
                cells@.len() == j,
                forall|q: int| 0 <= q < j ==> (#[trigger] cells@[q])@ == pad(row@[q]@, columns_width@[q] as int),
            decreases row@.len() - j,
        {
            cells.push(padded(row[j].as_str(), columns_width[j]));
            j = j + 1;
        }
        let r = join_strings(cells.as_slice(), "| ");
        proof {
            reveal_strlit("| ");
            assert("| ".view() =~= bar());
            assert(cells@.map_values(|c: String| c@) =~= Seq::new(
                row@.len(),
                |q: int| pad(row@.map_values(|c: String| c@)[q], columns_width@.map_values(|w: usize| w as int)[q]),
            ));
        }
        r
    }

    /// Whether every row has at most as many cells as there are columns.
    fn rows_fit_columns(&self) -> (r: bool)
        ensures
            r == rows_fit(self@, self.spec_col_count()),
    {
        let mut k: usize = 0;
        while k < self.data.len()
            invariant
                k <= self.data@.len(),
                forall|q: int| 0 <= q < k ==> #[trigger] self@[q].len() <= self.cols,
            decreases self.data@.len() - k,
        {
            if self.data[k].len() > self.cols {
                assert(self@[k as int].len() == self.data@[k as int]@.len());
                return false;
            }
            k = k + 1;
        }
        true
    }

    /// The lines of rows `first` up to `last` (counted from 0, `last` left
    /// out), rendered with the widths of the whole table.
    fn render_range(&self, first: usize, last: usize) -> (r: Vec<String>)
        requires
            rows_fit(self@, self.spec_col_count()),
            first <= last <= self@.len(),
        ensures
            r.deep_view() == rendered(self@, self.spec_col_count()).subrange(first as int, last as int),
    {
        let widths = self.calculate_max_col_width();
        let ghost ws = col_widths(self@, self.spec_col_count());
        assert(widths@.map_values(|w: usize| w as int) =~= ws);
        let mut out: Vec<String> = Vec::new();
        let mut k: usize = first;
        while k < last
            invariant
                first <= k <= last <= self@.len(),
                rows_fit(self@, self.spec_col_count()),
                widths@.map_values(|w: usize| w as int) == ws,
                ws == col_widths(self@, self.spec_col_count()),
                widths@.len() == self.cols,
                out.deep_view() == rendered(self@, self.spec_col_count()).subrange(first as int, k as int),
            decreases last - k,
        {
            let row = self.data[k].as_slice();
            proof {
                assert(row@.map_values(|c: String| c@) =~= self@[k as int]);
                assert forall|j: int| 0 <= j < row@.len() implies (#[trigger] row@[j])@.len() <= widths@[j] by {
                    assert(self@[k as int].len() <= self.spec_col_count());
                    assert(self@[k as int][j] == row@[j]@);
                    lemma_col_width_bounds(self@, k as int, j);
                    assert(widths@.map_values(|w: usize| w as int)[j] == widths@[j] as int);
                    assert(ws[j] == col_width(self@, j) as int);
                }
            }
            let line = self.format_row(row, widths.as_slice());
            let ghost prev = out.deep_view();
            out.push(line);
            assert(out.deep_view() =~= prev.push(line@));
            assert(rendered(self@, self.spec_col_count()).subrange(first as int, k + 1) =~= prev.push(
                format_line(self@[k as int], ws),
            ));
            k = k + 1;
        }
        out
    }

    /// Every row rendered with the widths of the whole table; `None` where a
    /// row has more cells than there are columns.
    pub fn display(&self) -> (r: Option<Vec<String>>)
        ensures
            r is None <==> !rows_fit(self@, self.spec_col_count()),
            r is Some ==> r->0.deep_view() == rendered(self@, self.spec_col_count()),
    {
        if !self.rows_fit_columns() {
            return None;
        }
        let out = self.render_range(0, self.data.len());
        assert(rendered(self@, self.spec_col_count()).subrange(0, self@.len() as int) =~= rendered(
            self@,
            self.spec_col_count(),
        ));
        Some(out)
    }

    /// Rows `start` to `end` (counted from 1, both included) rendered with the
    /// widths of the whole table; none where `start` is 0, beyond the last row
    /// or beyond `end`, and up to the last row where `end` is beyond it.
    /// `None` where a row has more cells than there are columns.
    pub fn paginate(&self, start: usize, end: usize) -> (r: Option<Vec<String>>)
        ensures
            r is None <==> !rows_fit(self@, self.spec_col_count()),
            r is Some ==> r->0.deep_view() == page(
                rendered(self@, self.spec_col_count()),
                start as int,
                end as int,
            ),
    {
        if !self.rows_fit_columns() {
            return None;
        }
        let n = self.data.len();
        if start == 0 || start > n || start > end {
            return Some(Vec::new());
        }
        let last = if end < n {
            end
        } else {
            n
        };
        Some(self.render_range(start - 1, last))
    }
}

} // verus!
