use crate::data::cell_type::CellType;
use crate::data::command::{Command, CommandView};
use crate::data::duration::Duration;
use crate::data::regex::Regex;
use crate::glob::Glob;
use vstd::prelude::*;
use vstd::std_specs::cmp::PartialEqSpecImpl;

verus! {

/// One typed value of a row.
#[derive(Debug)]
pub enum Cell {
    Text(String),
    Integer(i128),
    /// A path, as the bytes that the operating system knows it by.
    File(Vec<u8>),
    Glob(Glob),
    Regex(Regex),
    Duration(Duration),
    Command(Command),
    /// The name of a column or of a variable, not yet resolved.
    Field(String),
    /// An operator, as written.
    Op(String),
    /// The output of a nested pipeline: the position of its job among the dependencies.
    Output(usize),
}

/// What a cell holds, as mathematical values.
pub enum CellView {
    Text(Seq<char>),
    Integer(int),
    File(Seq<u8>),
    Glob(Seq<char>),
    Regex(Seq<char>),
    Duration(int),
    Command(CommandView),
    Field(Seq<char>),
    Op(Seq<char>),
    Output(int),
}

impl View for Cell {
    type V = CellView;

    open spec fn view(&self) -> CellView {
        match self {
            Cell::Text(s) => CellView::Text(s@),
            Cell::Integer(i) => CellView::Integer(*i as int),
            Cell::File(p) => CellView::File(p@),
            Cell::Glob(g) => CellView::Glob(g@),
            Cell::Regex(r) => CellView::Regex(r@),
            Cell::Duration(d) => CellView::Duration(d.nanos as int),
            Cell::Command(c) => CellView::Command(c@),
            Cell::Field(s) => CellView::Field(s@),
            Cell::Op(s) => CellView::Op(s@),
            Cell::Output(i) => CellView::Output(*i as int),
        }
    }
}

/// The type tag of a cell.
pub open spec fn type_of(cell: CellView) -> CellType {
    match cell {
        CellView::Text(_) => CellType::Text,
        CellView::Integer(_) => CellType::Integer,
        CellView::File(_) => CellType::File,
        CellView::Glob(_) => CellType::Glob,
        CellView::Regex(_) => CellType::Regex,
        CellView::Duration(_) => CellType::Duration,
        CellView::Command(_) => CellType::Command,
        CellView::Field(_) => CellType::Field,
        CellView::Op(_) => CellType::Op,
        CellView::Output(_) => CellType::Output,
    }
}

/// The cells of a list, each as its view.
pub open spec fn cells_view(cells: Seq<Cell>) -> Seq<CellView> {
    cells.map_values(|c: Cell| c@)
}

fn clone_bytes(bytes: &Vec<u8>) -> (res: Vec<u8>)
    ensures
        res@ == bytes@,
{
    let mut res: Vec<u8> = Vec::new();
    let mut i: usize = 0;
    while i < bytes.len()
        invariant
            i <= bytes.len(),
            res@ == bytes@.take(i as int),
        decreases bytes.len() - i,
    {
        res.push(bytes[i]);
        assert(bytes@.take(i + 1) =~= bytes@.take(i as int).push(bytes@[i as int]));
        i += 1;
    }
    assert(bytes@.take(bytes.len() as int) =~= bytes@);
    res
}

fn same_bytes(a: &Vec<u8>, b: &Vec<u8>) -> (same: bool)
    ensures
        same == (a@ == b@),
{
    if a.len() != b.len() {
        return false;
    }
    let mut i: usize = 0;
    while i < a.len()
        invariant
            i <= a.len(),
            a.len() == b.len(),
            forall|k: int| 0 <= k < i ==> a@[k] == b@[k],
        decreases a.len() - i,
    {
        if a[i] != b[i] {
            return false;
        }
        i += 1;
    }
    assert(a@ =~= b@);
    true
}

impl Clone for Cell {
    fn clone(&self) -> (res: Cell)
        ensures
            res@ == self@,
    {
        match self {
            Cell::Text(s) => Cell::Text(s.clone()),
            Cell::Integer(i) => Cell::Integer(*i),
            Cell::File(p) => Cell::File(clone_bytes(p)),
            Cell::Glob(g) => Cell::Glob(g.clone()),
            Cell::Regex(r) => Cell::Regex(r.clone()),
            Cell::Duration(d) => Cell::Duration(*d),
            Cell::Command(c) => Cell::Command(c.clone()),
            Cell::Field(s) => Cell::Field(s.clone()),
            Cell::Op(s) => Cell::Op(s.clone()),
            Cell::Output(i) => Cell::Output(*i),
        }
    }
}

impl PartialEq for Cell {
    /// Two cells are equal where they are of the same variant and hold the same value.
    fn eq(&self, other: &Cell) -> (equal: bool) {
        match (self, other) {
            (Cell::Text(a), Cell::Text(b)) => *a == *b,
            (Cell::Integer(a), Cell::Integer(b)) => *a == *b,
            (Cell::File(a), Cell::File(b)) => same_bytes(a, b),
            (Cell::Glob(a), Cell::Glob(b)) => a.same(b),
            (Cell::Regex(a), Cell::Regex(b)) => {
                let x = a.as_str().to_owned();
                let y = b.as_str().to_owned();
                x == y
            },
            (Cell::Duration(a), Cell::Duration(b)) => a.nanos == b.nanos,
            (Cell::Command(a), Cell::Command(b)) => a.same(b),
            (Cell::Field(a), Cell::Field(b)) => *a == *b,
            (Cell::Op(a), Cell::Op(b)) => *a == *b,
            (Cell::Output(a), Cell::Output(b)) => *a == *b,
            _ => false,
        }
    }
}

impl PartialEqSpecImpl for Cell {
    open spec fn obeys_eq_spec() -> bool {
        true
    }

    open spec fn eq_spec(&self, other: &Cell) -> bool {
        self@ == other@
    }
}

impl Cell {
    /// The text cell that holds `s`.
    pub fn text(s: &str) -> (c: Cell)
        ensures
            c@ == CellView::Text(s@),
    {
        Cell::Text(s.to_owned())
    }

    /// The type tag of the cell.
    pub fn cell_type(&self) -> (t: CellType)
        ensures
            t == type_of(self@),
    {
        match self {
            Cell::Text(_) => CellType::Text,
            Cell::Integer(_) => CellType::Integer,
            Cell::File(_) => CellType::File,
            Cell::Glob(_) => CellType::Glob,
            Cell::Regex(_) => CellType::Regex,
            Cell::Duration(_) => CellType::Duration,
            Cell::Command(_) => CellType::Command,
            Cell::Field(_) => CellType::Field,
            Cell::Op(_) => CellType::Op,
            Cell::Output(_) => CellType::Output,
        }
    }
}

} // verus!
