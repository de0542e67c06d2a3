use crate::errors::{argument_error, ErrorKind, JobError, JobErrorView};
use vstd::prelude::*;

verus! {

/// The type tag of a cell.
#[derive(Clone, Copy, Debug, PartialEq, Eq, Structural, Hash)]
pub enum CellType {
    Text,
    Integer,
    File,
    Glob,
    Regex,
    Duration,
    Command,
    Field,
    Op,
    Output,
}

/// The name and the type of one column of a stream.
#[derive(Debug)]
pub struct ColumnType {
    pub name: String,
    pub cell_type: CellType,
}

/// A column's name as a sequence of characters, and its type.
pub struct ColumnTypeView {
    pub name: Seq<char>,
    pub cell_type: CellType,
}

impl View for ColumnType {
    type V = ColumnTypeView;

    open spec fn view(&self) -> ColumnTypeView {
        ColumnTypeView { name: self.name@, cell_type: self.cell_type }
    }
}

impl Clone for ColumnType {
    fn clone(&self) -> (res: ColumnType)
        ensures
            res@ == self@,
    {
        ColumnType { name: self.name.clone(), cell_type: self.cell_type }
    }
}

impl ColumnType {
    /// The column called `name` that holds cells of type `cell_type`.
    pub fn named(name: &str, cell_type: CellType) -> (c: ColumnType)
        ensures
            c@ == (ColumnTypeView { name: name@, cell_type }),
    {
        ColumnType { name: name.to_owned(), cell_type }
    }
}

/// A schema as the sequence of its columns' views.
pub open spec fn schema_view(columns: Seq<ColumnType>) -> Seq<ColumnTypeView> {
    columns.map_values(|c: ColumnType| c@)
}

/// The position of the first column called `name`, if there is one.
pub open spec fn field_index(schema: Seq<ColumnTypeView>, name: Seq<char>) -> Option<int>
    decreases schema.len(),
{
    if schema.len() == 0 {
        None
    } else if schema[0].name == name {
        Some(0)
    } else {
        match field_index(schema.drop_first(), name) {
            Some(i) => Some(i + 1),
            None => None,
        }
    }
}

/// A copy of a schema.
pub fn clone_schema(schema: &Vec<ColumnType>) -> (res: Vec<ColumnType>)
    ensures
        schema_view(res@) == schema_view(schema@),
{
    let mut res: Vec<ColumnType> = Vec::new();
    let mut i: usize = 0;
    while i < schema.len()
        invariant
            i <= schema.len(),
            res.len() == i,
            forall|k: int| 0 <= k < i ==> res@[k]@ == schema@[k]@,
        decreases schema.len() - i,
    {
        res.push(schema[i].clone());
        i += 1;
    }
    assert(schema_view(res@) =~= schema_view(schema@));
    res
}

/// Whether two schemas have the same columns in the same order.
pub fn same_schema(a: &Vec<ColumnType>, b: &Vec<ColumnType>) -> (same: bool)
    ensures
        same == (schema_view(a@) == schema_view(b@)),
{
    if a.len() != b.len() {
        assert(schema_view(a@).len() != schema_view(b@).len());
        return false;
    }
    let mut i: usize = 0;
    while i < a.len()
        invariant
            i <= a.len(),
            a.len() == b.len(),
            forall|k: int| 0 <= k < i ==> a@[k]@ == b@[k]@,
        decreases a.len() - i,
    {
        if !(a[i].name == b[i].name && a[i].cell_type == b[i].cell_type) {
            assert(schema_view(a@)[i as int] != schema_view(b@)[i as int]);
            return false;
        }
        i += 1;
    }
    assert(schema_view(a@) =~= schema_view(b@));
    true
}

/// Looks a column up by its name: the position of the first column called `name`, or
/// an argument error where the schema has no such column.
pub fn find_field(name: &String, schema: &Vec<ColumnType>) -> (r: Result<usize, JobError>)
    ensures
        match r {
            Ok(i) => field_index(schema_view(schema@), name@) == Some(i as int) && i < schema.len(),
            Err(e) => field_index(schema_view(schema@), name@) is None && e@ == (JobErrorView {
                kind: ErrorKind::Argument,
                message: "Unknown field"@,
            }),
        },
{
    let ghost all = schema_view(schema@);
    let mut i: usize = 0;
    assert(all.skip(0) =~= all);
    while i < schema.len()
        invariant
            i <= schema.len(),
            all == schema_view(schema@),
            field_index(all, name@) == match field_index(all.skip(i as int), name@) {
                Some(k) => Some(k + i),
                None => None,
            },
        decreases schema.len() - i,
    {
        let ghost rest = all.skip(i as int);
        assert(rest[0] == schema@[i as int]@);
        assert(rest.drop_first() =~= all.skip(i + 1));
        if schema[i].name == *name {
            return Ok(i);
        }
        i += 1;
    }
    assert(all.skip(i as int).len() == 0);
    Err(argument_error("Unknown field"))
}

} // verus!
