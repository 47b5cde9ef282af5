//! The row projector: the rows of a result set and the name and type of
//! each column in, one mapping from column name to value per row out.
//!
//! A cell belongs to the column at the same position. A column whose
//! cell is null is left out of the row's mapping, as a null field is left
//! out of a record. The first error ends the projection.

use vstd::prelude::*;
use crate::decoder::{after, decode, decode_spec};
use crate::descriptor::ColumnSpec;
use crate::error::DecodeError;
use crate::value::{row_model, ResultModel, ResultValue};

verus! {

/// One row of a result set: a cell per column, `None` for a null.
#[derive(Debug, PartialEq, Eq)]
pub struct Row {
    pub columns: Vec<Option<Vec<u8>>>,
}

/// What a statement gave back: its rows, `None` where it produced no
/// row set, and the name and type of each column.
#[derive(Debug, PartialEq, Eq)]
pub struct QueryResult {
    pub rows: Option<Vec<Row>>,
    pub col_specs: Vec<ColumnSpec>,
}

/// The bytes of a cell that is held as a vector.
pub open spec fn cell_model(cell: Option<Vec<u8>>) -> Option<Seq<u8>> {
    match cell {
        None => None,
        Some(b) => Some(b@),
    }
}

/// The named values of the cells, column by column, without the nulls.
pub open spec fn project_cells_spec(cells: Seq<Option<Vec<u8>>>, specs: Seq<ColumnSpec>) -> Result<
    Seq<(Seq<char>, ResultModel)>,
    DecodeError,
>
    decreases cells.len(),
{
    if cells.len() == 0 || specs.len() == 0 {
        Ok(Seq::empty())
    } else {
        match decode_spec(cell_model(cells[0]), specs[0].typ) {
            Err(e) => Err(e),
            Ok(None) => project_cells_spec(cells.drop_first(), specs.drop_first()),
            Ok(Some(m)) => after(
                seq![(specs[0].name@, m)],
                project_cells_spec(cells.drop_first(), specs.drop_first()),
            ),
        }
    }
}

/// The mapping of one row: `ShapeMismatch` where the row has not one
/// cell per column.
pub open spec fn project_row_spec(row: Row, specs: Seq<ColumnSpec>) -> Result<
    Seq<(Seq<char>, ResultModel)>,
    DecodeError,
> {
    if row.columns@.len() != specs.len() {
        Err(DecodeError::ShapeMismatch)
    } else {
        project_cells_spec(row.columns@, specs)
    }
}

/// The mappings of the rows, in their order, or the first error.
pub open spec fn project_spec(rows: Seq<Row>, specs: Seq<ColumnSpec>) -> Result<
    Seq<Seq<(Seq<char>, ResultModel)>>,
    DecodeError,
>
    decreases rows.len(),
{
    if rows.len() == 0 {
        Ok(Seq::empty())
    } else {
        match project_row_spec(rows[0], specs) {
            Err(e) => Err(e),
            Ok(m) => after(seq![m], project_spec(rows.drop_first(), specs)),
        }
    }
}

/// What `parser` gives for a result: no rows where there is no row set.
pub open spec fn parser_spec(result: QueryResult) -> Result<
    Seq<Seq<(Seq<char>, ResultModel)>>,
    DecodeError,
> {
    match result.rows {
        None => Ok(Seq::empty()),
        Some(rows) => project_spec(rows@, result.col_specs@),
    }
}

/// The models of projected rows.
pub open spec fn rows_model(rows: Seq<Vec<(String, ResultValue)>>) -> Seq<
    Seq<(Seq<char>, ResultModel)>,
> {
    Seq::new(rows.len(), |i: int| row_model(rows[i]@))
}

/// Whether the result `r` of the projector agrees with `s`: rows with
/// those models, or the same error.
pub open spec fn projected_as(
    r: Result<Vec<Vec<(String, ResultValue)>>, DecodeError>,
    s: Result<Seq<Seq<(Seq<char>, ResultModel)>>, DecodeError>,
) -> bool {
    match (r, s) {
        (Ok(rows), Ok(expected)) => rows_model(rows@) == expected,
        (Err(e), Err(expected)) => e == expected,
        _ => false,
    }
}

/// Decodes the cells of one row, each for the column at its position.
pub fn project_row(row: &Row, specs: &Vec<ColumnSpec>) -> (r: Result<
    Vec<(String, ResultValue)>,
    DecodeError,
>)
    ensures
        match (r, project_row_spec(*row, specs@)) {
            (Ok(entries), Ok(expected)) => row_model(entries@) == expected,
            (Err(e), Err(expected)) => e == expected,
            _ => false,
        },
{
    let n: usize = specs.len();
    if row.columns.len() != n {
        return Err(DecodeError::ShapeMismatch);
    }
    let ghost whole = project_cells_spec(row.columns@, specs@);
    let mut acc: Vec<(String, ResultValue)> = Vec::new();
    let mut i: usize = 0;
    proof {
        assert(row.columns@.skip(0) =~= row.columns@);
        assert(specs@.skip(0) =~= specs@);
        assert(row_model(acc@) =~= Seq::<(Seq<char>, ResultModel)>::empty());
        match whole {
            Ok(all) => {
                assert(Seq::<(Seq<char>, ResultModel)>::empty() + all =~= all);
            },
            Err(_) => {},
        }
    }
    while i < n
        invariant
            n == specs@.len(),
            n == row.columns@.len(),
            i <= n,
            whole == project_cells_spec(row.columns@, specs@),
            whole == after(
                row_model(acc@),
                project_cells_spec(row.columns@.skip(i as int), specs@.skip(i as int)),
            ),
        decreases n - i,
    {
        proof {
            assert(row.columns@.skip(i as int).drop_first() =~= row.columns@.skip(i + 1));
            assert(specs@.skip(i as int).drop_first() =~= specs@.skip(i + 1));
            assert(row.columns@.skip(i as int)[0] == row.columns@[i as int]);
            assert(specs@.skip(i as int)[0] == specs@[i as int]);
        }
        let cell: Option<&[u8]> = match &row.columns[i] {
            None => None,
            Some(b) => Some(b.as_slice()),
        };
        match decode(cell, &specs[i].typ) {
            Err(e) => {
                return Err(e);
            },
            Ok(None) => {},
            Ok(Some(value)) => {
                let name: String = specs[i].name.clone();
                proof {
                    let head = row_model(acc@);
                    let m = (name@, value@);
                    assert(row_model(acc@.push((name, value))) =~= head + seq![m]);
                    match project_cells_spec(row.columns@.skip(i + 1), specs@.skip(i + 1)) {
                        Ok(tail) => {
                            assert(head + (seq![m] + tail) =~= (head + seq![m]) + tail);
                        },
                        Err(_) => {},
                    }
                }
                acc.push((name, value));
            },
        }
        i = i + 1;
    }
    proof {
        assert(row_model(acc@) + Seq::<(Seq<char>, ResultModel)>::empty() =~= row_model(acc@));
    }
    Ok(acc)
}

/// Decodes every row, each cell for the column at its position.
pub fn project(rows: &Vec<Row>, specs: &Vec<ColumnSpec>) -> (r: Result<
    Vec<Vec<(String, ResultValue)>>,
    DecodeError,
>)
    ensures
        projected_as(r, project_spec(rows@, specs@)),
{
    let n: usize = rows.len();
    let ghost whole = project_spec(rows@, specs@);
    let mut acc: Vec<Vec<(String, ResultValue)>> = Vec::new();
    let mut i: usize = 0;
    proof {
        assert(rows@.skip(0) =~= rows@);
        assert(rows_model(acc@) =~= Seq::<Seq<(Seq<char>, ResultModel)>>::empty());
        match whole {
            Ok(all) => {
                assert(Seq::<Seq<(Seq<char>, ResultModel)>>::empty() + all =~= all);
            },
            Err(_) => {},
        }
    }
    while i < n
        invariant
            n == rows@.len(),
            i <= n,
            whole == project_spec(rows@, specs@),
            whole == after(rows_model(acc@), project_spec(rows@.skip(i as int), specs@)),
        decreases n - i,
    {
        proof {
            assert(rows@.skip(i as int).drop_first() =~= rows@.skip(i + 1));
            assert(rows@.skip(i as int)[0] == rows@[i as int]);
        }
        match project_row(&rows[i], specs) {
            Err(e) => {
                return Err(e);
            },
            Ok(entries) => {
                proof {
                    let head = rows_model(acc@);
                    let m = row_model(entries@);
                    assert(rows_model(acc@.push(entries)) =~= head + seq![m]);
                    match project_spec(rows@.skip(i + 1), specs@) {
                        Ok(tail) => {
                            assert(head + (seq![m] + tail) =~= (head + seq![m]) + tail);
                        },
                        Err(_) => {},
                    }
                }
                acc.push(entries);
            },
        }
        i = i + 1;
    }
    proof {
        assert(rows_model(acc@) + Seq::<Seq<(Seq<char>, ResultModel)>>::empty() =~= rows_model(
            acc@,
        ));
    }
    Ok(acc)
}

/// Decodes the rows of a result set: one mapping from column name to
/// value per row, in the order of the rows, and no mapping at all where
/// the statement produced no row set.
pub fn decode_result_rows(rows: Option<&Vec<Row>>, column_specs: &Vec<ColumnSpec>) -> (r: Result<
    Vec<Vec<(String, ResultValue)>>,
    DecodeError,
>)
    ensures
        match rows {
            None => r matches Ok(out) && out@.len() == 0,
            Some(rows) => projected_as(r, project_spec(rows@, column_specs@)),
        },
{
    match rows {
        None => Ok(Vec::new()),
        Some(rows) => project(rows, column_specs),
    }
}

impl QueryResult {
    /// The rows of a result as mappings from column name to value: an
    /// empty sequence where the statement produced no row set.
    pub fn parser(result: QueryResult) -> (r: Result<Vec<Vec<(String, ResultValue)>>, DecodeError>)
        ensures
            projected_as(r, parser_spec(result)),
    {
        match &result.rows {
            None => {
                let rows: Vec<Vec<(String, ResultValue)>> = Vec::new();
                assert(rows_model(rows@) =~= Seq::<Seq<(Seq<char>, ResultModel)>>::empty());
                Ok(rows)
            },
            Some(rows) => project(rows, &result.col_specs),
        }
    }
}

/// Where a projection fails: the row, the column where the failure is in
/// one cell, and the error.
#[derive(Debug, Clone, Copy, PartialEq, Eq, Structural)]
pub struct FailingCell {
    pub row: usize,
    /// `None` where the row has not one cell per column.
    pub column: Option<usize>,
    pub error: DecodeError,
}

/// Whether the cell at `c` is the first of the row that is not decoded,
/// and `e` the error.
pub open spec fn cell_fails_first_at(row: Row, specs: Seq<ColumnSpec>, c: int, e: DecodeError) -> bool {
    &&& row.columns@.len() == specs.len()
    &&& 0 <= c < specs.len()
    &&& decode_spec(cell_model(row.columns@[c]), specs[c].typ) == Err::<
        Option<ResultModel>,
        DecodeError,
    >(e)
    &&& forall|j: int|
        0 <= j < c ==> (#[trigger] decode_spec(cell_model(row.columns@[j]), specs[j].typ)) is Ok
}

/// Whether `f` is where the projection of `rows` fails: the rows before
/// it are projected, and its row is not, by its shape or by the first of
/// its cells that is not decoded.
pub open spec fn fails_at(rows: Seq<Row>, specs: Seq<ColumnSpec>, f: FailingCell) -> bool {
    &&& 0 <= f.row < rows.len()
    &&& forall|j: int| 0 <= j < f.row ==> project_row_spec(#[trigger] rows[j], specs) is Ok
    &&& project_row_spec(rows[f.row as int], specs) == Err::<
        Seq<(Seq<char>, ResultModel)>,
        DecodeError,
    >(f.error)
    &&& match f.column {
        None => rows[f.row as int].columns@.len() != specs.len() && f.error
            == DecodeError::ShapeMismatch,
        Some(c) => cell_fails_first_at(rows[f.row as int], specs, c as int, f.error),
    }
}

/// The cells from `c` on fail where one of them does, and with its error
/// where it is the first.
proof fn lemma_cells_first_error(
    cells: Seq<Option<Vec<u8>>>,
    specs: Seq<ColumnSpec>,
    from: int,
    c: int,
    e: DecodeError,
)
    requires
        cells.len() == specs.len(),
        0 <= from <= c < specs.len(),
        decode_spec(cell_model(cells[c]), specs[c].typ) == Err::<Option<ResultModel>, DecodeError>(e),
        forall|j: int|
            from <= j < c ==> (#[trigger] decode_spec(cell_model(cells[j]), specs[j].typ)) is Ok,
    ensures
        project_cells_spec(cells.skip(from), specs.skip(from)) == Err::<
            Seq<(Seq<char>, ResultModel)>,
            DecodeError,
        >(e),
    decreases c - from,
{
    assert(cells.skip(from)[0] == cells[from]);
    assert(specs.skip(from)[0] == specs[from]);
    assert(cells.skip(from).drop_first() =~= cells.skip(from + 1));
    assert(specs.skip(from).drop_first() =~= specs.skip(from + 1));
    if from < c {
        lemma_cells_first_error(cells, specs, from + 1, c, e);
    }
}

/// The rows from `from` on fail where one of them does, and with its
/// error where it is the first.
proof fn lemma_rows_first_error(rows: Seq<Row>, specs: Seq<ColumnSpec>, from: int, r: int, e: DecodeError)
    requires
        0 <= from <= r < rows.len(),
        project_row_spec(rows[r], specs) == Err::<Seq<(Seq<char>, ResultModel)>, DecodeError>(e),
        forall|j: int| from <= j < r ==> project_row_spec(#[trigger] rows[j], specs) is Ok,
    ensures
        project_spec(rows.skip(from), specs) == Err::<
            Seq<Seq<(Seq<char>, ResultModel)>>,
            DecodeError,
        >(e),
    decreases r - from,
{
    assert(rows.skip(from)[0] == rows[from]);
    assert(rows.skip(from).drop_first() =~= rows.skip(from + 1));
    if from < r {
        lemma_rows_first_error(rows, specs, from + 1, r, e);
    }
}

fn failing_column(row: &Row, specs: &Vec<ColumnSpec>) -> (r: Option<(usize, DecodeError)>)
    requires
        row.columns@.len() == specs@.len(),
    ensures
        match r {
            Some((c, e)) => cell_fails_first_at(*row, specs@, c as int, e) && project_row_spec(
                *row,
                specs@,
            ) == Err::<Seq<(Seq<char>, ResultModel)>, DecodeError>(e),
            None => forall|j: int|
                0 <= j < specs@.len() ==> (#[trigger] decode_spec(
                    cell_model(row.columns@[j]),
                    specs@[j].typ,
                )) is Ok,
        },
{
    let n: usize = specs.len();
    let mut i: usize = 0;
    while i < n
        invariant
            n == specs@.len(),
            n == row.columns@.len(),
            i <= n,
            forall|j: int|
                0 <= j < i ==> (#[trigger] decode_spec(
                    cell_model(row.columns@[j]),
                    specs@[j].typ,
                )) is Ok,
        decreases n - i,
    {
        let cell: Option<&[u8]> = match &row.columns[i] {
            None => None,
            Some(b) => Some(b.as_slice()),
        };
        match decode(cell, &specs[i].typ) {
            Err(e) => {
                proof {
                    lemma_cells_first_error(row.columns@, specs@, 0, i as int, e);
                    assert(row.columns@.skip(0) =~= row.columns@);
                    assert(specs@.skip(0) =~= specs@);
                }
                return Some((i, e));
            },
            Ok(_) => {},
        }
        i = i + 1;
    }
    None
}

/// Finds where the projection of a result set fails, for the message
/// that the host is shown: `None` where every row is projected.
pub fn failing_cell(rows: &Vec<Row>, specs: &Vec<ColumnSpec>) -> (r: Option<FailingCell>)
    ensures
        match r {
            Some(f) => fails_at(rows@, specs@, f) && project_spec(rows@, specs@) == Err::<
                Seq<Seq<(Seq<char>, ResultModel)>>,
                DecodeError,
            >(f.error),
            None => project_spec(rows@, specs@) is Ok,
        },
{
    let n: usize = rows.len();
    let mut i: usize = 0;
    while i < n
        invariant
            n == rows@.len(),
            i <= n,
            forall|j: int| 0 <= j < i ==> project_row_spec(#[trigger] rows@[j], specs@) is Ok,
        decreases n - i,
    {
        let found: Option<FailingCell> = if rows[i].columns.len() != specs.len() {
            Some(FailingCell { row: i, column: None, error: DecodeError::ShapeMismatch })
        } else {
            match failing_column(&rows[i], specs) {
                Some((c, e)) => Some(FailingCell { row: i, column: Some(c), error: e }),
                None => None,
            }
        };
        match found {
            Some(f) => {
                proof {
                    lemma_rows_first_error(rows@, specs@, 0, i as int, f.error);
                    assert(rows@.skip(0) =~= rows@);
                }
                return Some(f);
            },
            None => {
                proof {
                    lemma_cells_all_decoded(rows@[i as int].columns@, specs@, 0);
                    assert(rows@[i as int].columns@.skip(0) =~= rows@[i as int].columns@);
                    assert(specs@.skip(0) =~= specs@);
                }
            },
        }
        i = i + 1;
    }
    proof {
        lemma_rows_all_projected(rows@, specs@, 0);
        assert(rows@.skip(0) =~= rows@);
    }
    None
}

/// Cells that are all decoded make a row that is projected.
proof fn lemma_cells_all_decoded(cells: Seq<Option<Vec<u8>>>, specs: Seq<ColumnSpec>, from: int)
    requires
        cells.len() == specs.len(),
        0 <= from <= specs.len(),
        forall|j: int|
            0 <= j < specs.len() ==> (#[trigger] decode_spec(cell_model(cells[j]), specs[j].typ))
                is Ok,
    ensures
        project_cells_spec(cells.skip(from), specs.skip(from)) is Ok,
    decreases specs.len() - from,
{
    if from < specs.len() {
        assert(cells.skip(from)[0] == cells[from]);
        assert(specs.skip(from)[0] == specs[from]);
        assert(cells.skip(from).drop_first() =~= cells.skip(from + 1));
        assert(specs.skip(from).drop_first() =~= specs.skip(from + 1));
        assert(decode_spec(cell_model(cells[from]), specs[from].typ) is Ok);
        lemma_cells_all_decoded(cells, specs, from + 1);
    }
}

/// Rows that are all projected make a result set that is projected.
proof fn lemma_rows_all_projected(rows: Seq<Row>, specs: Seq<ColumnSpec>, from: int)
    requires
        0 <= from <= rows.len(),
        forall|j: int| 0 <= j < rows.len() ==> project_row_spec(#[trigger] rows[j], specs) is Ok,
    ensures
        project_spec(rows.skip(from), specs) is Ok,
    decreases rows.len() - from,
{
    if from < rows.len() {
        assert(rows.skip(from)[0] == rows[from]);
        assert(rows.skip(from).drop_first() =~= rows.skip(from + 1));
        lemma_rows_all_projected(rows, specs, from + 1);
    }
}

} // verus!
