use crate::data::cell::{Cell, CellView};
use vstd::prelude::*;

verus! {

/// One argument of a call: a value, with the name that it was given, if any.
#[derive(Debug)]
pub struct BaseArgument<C> {
    pub name: Option<String>,
    pub cell: C,
}

/// An argument whose value is known.
pub type Argument = BaseArgument<Cell>;

/// An `Argument` with its name and its cell as mathematical values.
pub struct ArgumentView {
    pub name: Option<Seq<char>>,
    pub cell: CellView,
}

/// The name of an argument as a sequence of characters.
pub open spec fn name_view(name: Option<String>) -> Option<Seq<char>> {
    match name {
        Some(n) => Some(n@),
        None => None,
    }
}

impl View for BaseArgument<Cell> {
    type V = ArgumentView;

    open spec fn view(&self) -> ArgumentView {
        ArgumentView { name: name_view(self.name), cell: self.cell@ }
    }
}

/// The arguments of a list, each as its view.
pub open spec fn arguments_view(arguments: Seq<Argument>) -> Seq<ArgumentView> {
    arguments.map_values(|a: Argument| a@)
}

impl BaseArgument<Cell> {
    /// The argument called `name` that holds `cell`.
    pub fn named(name: &str, cell: Cell) -> (a: Argument)
        ensures
            a@ == (ArgumentView { name: Some(name@), cell: cell@ }),
    {
        BaseArgument { name: Some(name.to_owned()), cell }
    }

    /// The argument without a name that holds `cell`.
    pub fn unnamed(cell: Cell) -> (a: Argument)
        ensures
            a@ == (ArgumentView { name: None, cell: cell@ }),
    {
        BaseArgument { name: None, cell }
    }

    /// A copy of the argument.
    pub fn duplicate(&self) -> (a: Argument)
        ensures
            a@ == self@,
    {
        BaseArgument {
            name: match &self.name {
                Some(n) => Some(n.clone()),
                None => None,
            },
            cell: self.cell.clone(),
        }
    }
}

} // verus!
