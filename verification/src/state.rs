use crate::data::cell::{Cell, CellView};
use crate::errors::JobError;
use crate::namespace::read_only;
use crate::scope::Scope;
use vstd::prelude::*;

verus! {

/// The state of the interpreter that calls share: the names that are declared, and the
/// working directory.
pub struct State {
    pub scope: Scope,
    pub directory: Vec<u8>,
}

impl State {
    /// A state that declares nothing, in the directory without a name.
    pub fn new() -> (s: State)
        ensures
            s.scope.own@ == Map::<Seq<char>, CellView>::empty(),
            !s.scope.own.is_readonly(),
            s.scope.namespaces@.len() == 0,
            s.scope.used@.len() == 0,
            s.directory@.len() == 0,
    {
        State { scope: Scope::new(), directory: Vec::new() }
    }

    /// Declares `name` in the scope of the state. See `Namespace::declare`.
    pub fn declare(&mut self, name: &str, cell: Cell) -> (r: Result<(), JobError>)
        ensures
            final(self).scope.own.is_readonly() == old(self).scope.own.is_readonly(),
            final(self).scope.namespaces == old(self).scope.namespaces,
            final(self).scope.used == old(self).scope.used,
            final(self).directory == old(self).directory,
            match r {
                Ok(_) => !old(self).scope.own.is_readonly() && final(self).scope.own@ == old(
                    self,
                ).scope.own@.insert(name@, cell@),
                Err(e) => old(self).scope.own.is_readonly() && final(self).scope.own@ == old(
                    self,
                ).scope.own@ && e@ == read_only(),
            },
    {
        self.scope.declare(name, cell)
    }
}

} // verus!
