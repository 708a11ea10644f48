//! Tabular data for the batch operations: a table is an ordered list of
//! named columns of nullable fixed-point cells, one cell per row. Required
//! columns are matched by exact, case-sensitive name; a missing required
//! column is a hard error for the whole call, naming the column.

use vstd::prelude::*;

verus! {

/// One named column of nullable cells.
#[derive(Debug)]
pub struct Column {
    pub name: String,
    pub cells: Vec<Option<i64>>,
}

/// An ordered list of named columns. All columns have the same number of
/// cells: row `i` of the table is cell `i` of every column.
#[derive(Debug)]
pub struct Table {
    pub columns: Vec<Column>,
}

/// The hard error of a batch call: a required column is missing.
#[derive(Debug)]
pub struct ColumnError {
    /// The exact name of the missing required column.
    pub column: String,
}

/// The cells of the first column named `name`, if any column is.
pub open spec fn first_match(cols: Seq<Column>, name: Seq<char>) -> Option<Seq<Option<i64>>>
    decreases cols.len(),
{
    if cols.len() == 0 {
        Option::None
    } else if cols[0].name@ == name {
        Option::Some(cols[0].cells@)
    } else {
        first_match(cols.drop_first(), name)
    }
}

impl Table {
    /// The table is rectangular: every column has the same number of cells.
    pub open spec fn wf(self) -> bool {
        forall|i: int, j: int|
            #![trigger self.columns@[i].cells, self.columns@[j].cells]
            0 <= i < self.columns@.len() && 0 <= j < self.columns@.len()
                ==> self.columns@[i].cells@.len() == self.columns@[j].cells@.len()
    }

    /// The number of rows.
    pub open spec fn height(self) -> int {
        if self.columns@.len() == 0 {
            0
        } else {
            self.columns@[0].cells@.len() as int
        }
    }
}

/// A found column is one of the table's columns, under its name.
pub proof fn lemma_first_match_is_column(cols: Seq<Column>, name: Seq<char>)
    requires
        first_match(cols, name).is_some(),
    ensures
        exists|i: int|
            0 <= i < cols.len() && #[trigger] cols[i].name@ == name && cols[i].cells@
                == first_match(cols, name).unwrap(),
    decreases cols.len(),
{
    if cols.len() == 0 {
    } else if cols[0].name@ == name {
        assert(0 <= 0 < cols.len() && cols[0].name@ == name && cols[0].cells@ == first_match(
            cols,
            name,
        ).unwrap());
    } else {
        lemma_first_match_is_column(cols.drop_first(), name);
        let i = choose|i: int|
            0 <= i < cols.drop_first().len() && #[trigger] cols.drop_first()[i].name@ == name
                && cols.drop_first()[i].cells@ == first_match(cols.drop_first(), name).unwrap();
        assert(cols[i + 1].name@ == name && cols[i + 1].cells@ == first_match(
            cols,
            name,
        ).unwrap());
    }
}

/// An exact copy of a column's cells.
fn copy_cells(cells: &Vec<Option<i64>>) -> (r: Vec<Option<i64>>)
    ensures
        r@ == cells@,
{
    let n = cells.len();
    let mut r: Vec<Option<i64>> = Vec::new();
    for i in 0..n
        invariant
            n == cells@.len(),
            r@ == cells@.take(i as int),
    {
        r.push(cells[i]);
        proof {
            assert(r@ =~= cells@.take(i + 1));
        }
    }
    proof {
        assert(cells@.take(n as int) =~= cells@);
    }
    r
}

/// The cells of the first column whose name equals `name` exactly
/// (case-sensitive); extra columns are ignored. A missing required column
/// is a hard error naming it.
pub fn extract_column(table: &Table, name: &String) -> (r: Result<Vec<Option<i64>>, ColumnError>)
    ensures
        match r {
            Ok(cells) => first_match(table.columns@, name@) == Option::Some(cells@),
            Err(e) => first_match(table.columns@, name@) is None && e.column@ == name@,
        },
{
    let n = table.columns.len();
    proof {
        assert(table.columns@.skip(0) =~= table.columns@);
    }
    for i in 0..n
        invariant
            n == table.columns@.len(),
            first_match(table.columns@, name@) == first_match(
                table.columns@.skip(i as int),
                name@,
            ),
    {
        proof {
            assert(table.columns@.skip(i as int)[0] == table.columns@[i as int]);
            assert(table.columns@.skip(i as int).drop_first() =~= table.columns@.skip(i + 1));
        }
        if table.columns[i].name == *name {
            return Ok(copy_cells(&table.columns[i].cells));
        }
    }
    proof {
        assert(table.columns@.skip(n as int) =~= Seq::<Column>::empty());
    }
    Err(ColumnError { column: name.clone() })
}

} // verus!
