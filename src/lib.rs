//! An in-memory table of text cells read from comma-separated lines, with
//! column-aligned rendering, bounds-checked edits and serialisation back to
//! lines.
use vstd::prelude::*;

pub mod laws;
pub mod table;
pub mod text;

pub use table::{CSVData, EditError};

use table::{deleted, modified, page, rendered, rows_fit};

verus! {

/// Every row of `data` rendered; `None` where a row is longer than the column
/// count.
pub fn display_data(data: &CSVData) -> (r: Option<Vec<String>>)
    ensures
        r is None <==> !rows_fit(data@, data.spec_col_count()),
        r is Some ==> r->0.deep_view() == rendered(data@, data.spec_col_count()),
{
    data.display()
}

/// Rows `start` to `end` of `data` (counted from 1, both included) rendered;
/// `None` where a row is longer than the column count.
pub fn paginate_data(data: &CSVData, start: usize, end: usize) -> (r: Option<Vec<String>>)
    ensures
        r is None <==> !rows_fit(data@, data.spec_col_count()),
        r is Some ==> r->0.deep_view() == page(
            rendered(data@, data.spec_col_count()),
            start as int,
            end as int,
        ),
{
    data.paginate(start, end)
}

/// Removes row `row_index` (counted from 1) of `data`.
pub fn delete_row(data: &mut CSVData, row_index: usize) -> (r: Result<(), EditError>)
    requires
        old(data).wf(),
    ensures
        final(data).wf(),
        final(data).spec_col_count() == old(data).spec_col_count(),
        deleted(old(data)@, row_index as int) == (match r {
            Ok(_) => Ok(final(data)@),
            Err(e) => Err(e),
        }),
        r is Err ==> final(data)@ == old(data)@,
{
    data.delete(row_index)
}

/// Edits row `row_index` (counted from 1) of `data`: one cell where
/// `col_index` is given, the whole row where it is not.
pub fn modify_row(data: &mut CSVData, row_index: usize, col_index: Option<usize>, values: Vec<String>) -> (r:
    Result<(), EditError>)
    requires
        old(data).wf(),
    ensures
        final(data).wf(),
        final(data).spec_col_count() == old(data).spec_col_count(),
        modified(old(data)@, row_index as int, col_index, values.deep_view()) == (match r {
            Ok(_) => Ok(final(data)@),
            Err(e) => Err(e),
        }),
        r is Err ==> final(data)@ == old(data)@,
{
    data.modify(row_index, col_index, values)
}

} // verus!
