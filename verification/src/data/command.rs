use crate::commands::Exec;
use crate::data::cell_type::{clone_schema, same_schema, schema_view, CellType, ColumnType, ColumnTypeView};
use vstd::prelude::*;

verus! {

/// What the registry knows of a command: its name, how it is executed, the shape of
/// the arguments that it takes and the columns that it produces.
#[derive(Debug)]
pub struct Command {
    pub name: String,
    pub execution: Exec,
    /// The types of the arguments, in order; `None` for a command that binds its
    /// arguments itself when it runs.
    pub parameters: Option<Vec<CellType>>,
    /// The columns of the output; `None` for a command whose output has the columns
    /// of its input.
    pub output: Option<Vec<ColumnType>>,
}

/// A `Command` with texts and lists as sequences.
pub struct CommandView {
    pub name: Seq<char>,
    pub execution: Exec,
    pub parameters: Option<Seq<CellType>>,
    pub output: Option<Seq<ColumnTypeView>>,
}

impl View for Command {
    type V = CommandView;

    open spec fn view(&self) -> CommandView {
        CommandView {
            name: self.name@,
            execution: self.execution,
            parameters: match self.parameters {
                Some(p) => Some(p@),
                None => None,
            },
            output: match self.output {
                Some(o) => Some(schema_view(o@)),
                None => None,
            },
        }
    }
}

/// The cell of the command called `name` that is executed as `execution` says, as it
/// is registered: it binds its arguments itself and has the columns of its input.
pub open spec fn registered(name: Seq<char>, execution: Exec) -> crate::data::cell::CellView {
    crate::data::cell::CellView::Command(
        CommandView { name, execution, parameters: None, output: None },
    )
}

fn clone_types(types: &Vec<CellType>) -> (res: Vec<CellType>)
    ensures
        res@ == types@,
{
    let mut res: Vec<CellType> = Vec::new();
    let mut i: usize = 0;
    while i < types.len()
        invariant
            i <= types.len(),
            res@ == types@.take(i as int),
        decreases types.len() - i,
    {
        res.push(types[i]);
        assert(types@.take(i + 1) =~= types@.take(i as int).push(types@[i as int]));
        i += 1;
    }
    assert(types@.take(types.len() as int) =~= types@);
    res
}

fn same_types(a: &Vec<CellType>, b: &Vec<CellType>) -> (same: bool)
    ensures
        same == (a@ == b@),
{
    if a.len() != b.len() {
        return false;
    }
    let mut i: usize = 0;
    while i < a.len()
        invariant
            i <= a.len(),
            a.len() == b.len(),
            forall|k: int| 0 <= k < i ==> a@[k] == b@[k],
        decreases a.len() - i,
    {
        if a[i] != b[i] {
            return false;
        }
        i += 1;
    }
    assert(a@ =~= b@);
    true
}

impl Clone for Command {
    fn clone(&self) -> (res: Command)
        ensures
            res@ == self@,
    {
        Command {
            name: self.name.clone(),
            execution: self.execution,
            parameters: match &self.parameters {
                Some(p) => Some(clone_types(p)),
                None => None,
            },
            output: match &self.output {
                Some(o) => Some(clone_schema(o)),
                None => None,
            },
        }
    }
}

impl Command {
    /// The command called `name` that is executed as `execution` says, binds its arguments
    /// itself and produces the columns of its input.
    pub fn new(name: &str, execution: Exec) -> (c: Command)
        ensures
            c@ == (CommandView { name: name@, execution, parameters: None, output: None }),
    {
        Command { name: name.to_owned(), execution, parameters: None, output: None }
    }

    /// Whether two commands are described alike.
    pub fn same(&self, other: &Command) -> (same: bool)
        ensures
            same == (self@ == other@),
    {
        if !(self.name == other.name && self.execution == other.execution) {
            return false;
        }
        let parameters = match (&self.parameters, &other.parameters) {
            (Some(a), Some(b)) => same_types(a, b),
            (None, None) => true,
            _ => false,
        };
        if !parameters {
            return false;
        }
        match (&self.output, &other.output) {
            (Some(a), Some(b)) => same_schema(a, b),
            (None, None) => true,
            _ => false,
        }
    }
}

} // verus!
