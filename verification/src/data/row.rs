use crate::data::cell::{cells_view, type_of, Cell, CellView};
use crate::data::cell_type::{schema_view, ColumnType, ColumnTypeView};
use vstd::prelude::*;
use vstd::std_specs::cmp::PartialEqSpecImpl;

verus! {

/// The cells of one row, in the order of the columns.
#[derive(Debug)]
pub struct Row {
    pub cells: Vec<Cell>,
}

impl View for Row {
    type V = Seq<CellView>;

    open spec fn view(&self) -> Seq<CellView> {
        cells_view(self.cells@)
    }
}

/// The rows of a list, each as its view.
pub open spec fn rows_view(rows: Seq<Row>) -> Seq<Seq<CellView>> {
    rows.map_values(|r: Row| r@)
}

/// Whether a row fits a schema: it has one cell for each column, each of the
/// column's type.
pub open spec fn conforms(row: Seq<CellView>, schema: Seq<ColumnTypeView>) -> bool {
    &&& row.len() == schema.len()
    &&& forall|i: int| 0 <= i < row.len() ==> type_of(#[trigger] row[i]) == schema[i].cell_type
}

impl Clone for Row {
    fn clone(&self) -> (res: Row)
        ensures
            res@ == self@,
    {
        let mut cells: Vec<Cell> = Vec::new();
        let mut i: usize = 0;
        while i < self.cells.len()
            invariant
                i <= self.cells.len(),
                cells.len() == i,
                forall|k: int| 0 <= k < i ==> cells@[k]@ == self.cells@[k]@,
            decreases self.cells.len() - i,
        {
            cells.push(self.cells[i].clone());
            i += 1;
        }
        assert(cells_view(cells@) =~= cells_view(self.cells@));
        Row { cells }
    }
}

impl PartialEq for Row {
    /// Two rows are equal where they have equal cells in the same order.
    fn eq(&self, other: &Row) -> (equal: bool) {
        if self.cells.len() != other.cells.len() {
            assert(self@.len() != other@.len());
            return false;
        }
        let mut i: usize = 0;
        while i < self.cells.len()
            invariant
                i <= self.cells.len(),
                self.cells.len() == other.cells.len(),
                forall|k: int| 0 <= k < i ==> self.cells@[k]@ == other.cells@[k]@,
            decreases self.cells.len() - i,
        {
            if !(self.cells[i] == other.cells[i]) {
                assert(self@[i as int] != other@[i as int]);
                return false;
            }
            i += 1;
        }
        assert(self@ =~= other@);
        true
    }
}

impl PartialEqSpecImpl for Row {
    open spec fn obeys_eq_spec() -> bool {
        true
    }

    open spec fn eq_spec(&self, other: &Row) -> bool {
        self@ == other@
    }
}

impl Row {
    /// The row of the given cells.
    pub fn new(cells: Vec<Cell>) -> (row: Row)
        ensures
            row.cells == cells,
    {
        Row { cells }
    }

    /// Whether the row fits `schema`.
    pub fn conforms(&self, schema: &Vec<ColumnType>) -> (fits: bool)
        ensures
            fits == conforms(self@, schema_view(schema@)),
    {
        if self.cells.len() != schema.len() {
            return false;
        }
        let mut i: usize = 0;
        while i < self.cells.len()
            invariant
                i <= self.cells.len(),
                self.cells.len() == schema.len(),
                forall|k: int| 0 <= k < i ==> type_of(#[trigger] self@[k]) == schema_view(schema@)[k].cell_type,
            decreases self.cells.len() - i,
        {
            if self.cells[i].cell_type() != schema[i].cell_type {
                assert(type_of(self@[i as int]) != schema_view(schema@)[i as int].cell_type);
                return false;
            }
            i += 1;
        }
        true
    }
}

} // verus!
