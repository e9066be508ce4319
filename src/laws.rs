//! Properties that hold across the table's operations.
use vstd::prelude::*;

use crate::table::{deleted, loaded, modified, saved, valid_row, EditError};
use crate::text::{comma, join_with, lemma_join_split, line_cells, quote, split_commas, trim};

verus! {

/// Loading lines and saving them again gives, for each line, its
/// comma-separated pieces trimmed and joined by commas again; a line whose
/// pieces carry no surrounding white space comes back unchanged.
pub proof fn lemma_round_trip(lines: Seq<Seq<char>>)
    ensures
        saved(loaded(lines)).len() == lines.len(),
        forall|i: int|
            0 <= i < lines.len() ==> #[trigger] saved(loaded(lines))[i] == join_with(
                split_commas(lines[i]).map_values(|p: Seq<char>| trim(p)),
                comma(),
            ),
        forall|i: int|
            0 <= i < lines.len() && (forall|k: int|
                0 <= k < split_commas(lines[i]).len() ==> trim(#[trigger] split_commas(lines[i])[k])
                    == split_commas(lines[i])[k]) ==> #[trigger] saved(loaded(lines))[i]
                == lines[i],
{
    assert forall|i: int|
        0 <= i < lines.len() && (forall|k: int|
            0 <= k < split_commas(lines[i]).len() ==> trim(#[trigger] split_commas(lines[i])[k])
                == split_commas(lines[i])[k]) implies #[trigger] saved(loaded(lines))[i]
        == lines[i] by {
        assert(line_cells(lines[i]) =~= split_commas(lines[i]));
        lemma_join_split(lines[i]);
    }
}

/// A successful edit stores each value it was given inside one pair of double
/// quotes, in the targeted cells only, and the saved line of that row holds
/// those cells; every other cell stays as it was.
pub proof fn lemma_modify_quotes(
    t: Seq<Seq<Seq<char>>>,
    row_index: int,
    col_index: Option<usize>,
    values: Seq<Seq<char>>,
)
    requires
        modified(t, row_index, col_index, values) is Ok,
    ensures
        ({
            let u = modified(t, row_index, col_index, values)->Ok_0;
            let ri = row_index - 1;
            &&& valid_row(t, row_index)
            &&& u.len() == t.len()
            &&& forall|r: int| 0 <= r < t.len() && r != ri ==> #[trigger] u[r] == t[r]
            &&& u[ri].len() == t[ri].len()
            &&& saved(u)[ri] == join_with(u[ri], comma())
            &&& match col_index {
                Some(c) => {
                    &&& u[ri][c - 1] == quote(values[0])
                    &&& forall|j: int| 0 <= j < t[ri].len() && j != c - 1 ==> #[trigger] u[ri][j] == t[ri][j]
                },
                None => forall|j: int| 0 <= j < t[ri].len() ==> #[trigger] u[ri][j] == quote(values[j]),
            }
        }),
{
}

/// Deleting a row that exists removes exactly that row: one row fewer, the
/// rows before it unmoved and the rows after it one place up.
pub proof fn lemma_delete_one(t: Seq<Seq<Seq<char>>>, row_index: int)
    requires
        valid_row(t, row_index),
    ensures
        deleted(t, row_index) is Ok,
        deleted(t, row_index)->Ok_0.len() == t.len() - 1,
        forall|r: int| 0 <= r < row_index - 1 ==> #[trigger] deleted(t, row_index)->Ok_0[r] == t[r],
        forall|r: int|
            row_index - 1 <= r < t.len() - 1 ==> #[trigger] deleted(t, row_index)->Ok_0[r] == t[r + 1],
{
}

/// A row index of 0 or beyond the last row makes both edit and delete fail with
/// `RowIndexOutOfBound`.
pub proof fn lemma_row_bounds(
    t: Seq<Seq<Seq<char>>>,
    row_index: int,
    col_index: Option<usize>,
    values: Seq<Seq<char>>,
)
    requires
        row_index == 0 || row_index > t.len(),
    ensures
        modified(t, row_index, col_index, values) == Err::<Seq<Seq<Seq<char>>>, EditError>(
            EditError::RowIndexOutOfBound,
        ),
        deleted(t, row_index) == Err::<Seq<Seq<Seq<char>>>, EditError>(
            EditError::RowIndexOutOfBound,
        ),
{
}

/// On an existing row, a whole-row edit with a number of values other than the
/// row's length fails with `ReplacementLengthMismatch`, and a single-cell edit
/// with more than one value fails with `ValueLengthMismatch`.
pub proof fn lemma_length_mismatch(
    t: Seq<Seq<Seq<char>>>,
    row_index: int,
    col: usize,
    values: Seq<Seq<char>>,
)
    requires
        valid_row(t, row_index),
    ensures
        values.len() != t[row_index - 1].len() ==> modified(t, row_index, None, values) == Err::<
            Seq<Seq<Seq<char>>>,
            EditError,
        >(EditError::ReplacementLengthMismatch),
        values.len() > 1 ==> modified(t, row_index, Some(col), values) == Err::<
            Seq<Seq<Seq<char>>>,
            EditError,
        >(EditError::ValueLengthMismatch),
{
}

} // verus!
