use crate::data::cell::{Cell, CellView};
use crate::errors::{error, ErrorKind, JobError, JobErrorView};
use crate::namespace::{read_only, Namespace};
use vstd::prelude::*;

verus! {

/// A namespace of its own name inside a scope.
pub struct Child {
    pub name: String,
    pub namespace: Namespace,
}

/// The names that are declared at one place: those of the scope itself, and the
/// namespaces that were created in it. The names of a namespace are seen from the
/// scope once the scope uses it.
pub struct Scope {
    pub own: Namespace,
    pub namespaces: Vec<Child>,
    pub used: Vec<usize>,
}

/// The error for a namespace whose name is taken.
pub open spec fn name_taken() -> JobErrorView {
    JobErrorView { kind: ErrorKind::Generic, message: "Name already in use"@ }
}

/// Whether one of the namespaces is called `name`.
pub open spec fn has_namespace(namespaces: Seq<Child>, name: Seq<char>) -> bool {
    exists|i: int| 0 <= i < namespaces.len() && (#[trigger] namespaces[i]).name@ == name
}

/// What `name` stands for in the first of the namespaces at the positions `used` that
/// declares it. A position without a namespace is passed over.
pub open spec fn found_in(namespaces: Seq<Child>, used: Seq<usize>, name: Seq<char>) -> Option<
    CellView,
>
    decreases used.len(),
{
    if used.len() == 0 {
        None
    } else if used[0] < namespaces.len() && namespaces[used[0] as int].namespace@.dom().contains(
        name,
    ) {
        Some(namespaces[used[0] as int].namespace@[name])
    } else {
        found_in(namespaces, used.drop_first(), name)
    }
}

impl Scope {
    /// What `name` stands for, seen from this scope: what the scope itself declares
    /// comes first, then the namespaces that it uses, in the order in which it took
    /// them into use.
    pub open spec fn visible(&self, name: Seq<char>) -> Option<CellView> {
        if self.own@.dom().contains(name) {
            Some(self.own@[name])
        } else {
            found_in(self.namespaces@, self.used@, name)
        }
    }

    /// A scope that declares nothing and has no namespaces.
    pub fn new() -> (s: Scope)
        ensures
            s.own@ == Map::<Seq<char>, CellView>::empty(),
            !s.own.is_readonly(),
            s.namespaces@.len() == 0,
            s.used@.len() == 0,
    {
        Scope { own: Namespace::new(), namespaces: Vec::new(), used: Vec::new() }
    }

    /// Declares `name` in the scope itself. See `Namespace::declare`.
    pub fn declare(&mut self, name: &str, cell: Cell) -> (r: Result<(), JobError>)
        ensures
            final(self).own.is_readonly() == old(self).own.is_readonly(),
            final(self).namespaces == old(self).namespaces,
            final(self).used == old(self).used,
            match r {
                Ok(_) => !old(self).own.is_readonly() && final(self).own@ == old(self).own@.insert(
                    name@,
                    cell@,
                ),
                Err(e) => old(self).own.is_readonly() && final(self).own@ == old(self).own@ && e@
                    == read_only(),
            },
    {
        self.own.declare(name, cell)
    }

    /// Whether one of the namespaces is called `name`.
    pub fn namespace_exists(&self, name: &str) -> (b: bool)
        ensures
            b == has_namespace(self.namespaces@, name@),
    {
        let key = name.to_owned();
        let mut i: usize = 0;
        while i < self.namespaces.len()
            invariant
                i <= self.namespaces.len(),
                key@ == name@,
                forall|k: int| 0 <= k < i ==> (#[trigger] self.namespaces@[k]).name@ != name@,
            decreases self.namespaces.len() - i,
        {
            if self.namespaces[i].name == key {
                return true;
            }
            i += 1;
        }
        false
    }

    /// Adds `namespace` to the scope under `name` and returns its position. A
    /// read-only scope refuses, and so does one that has a namespace of that name.
    pub fn create_namespace(&mut self, name: &str, namespace: Namespace) -> (r: Result<
        usize,
        JobError,
    >)
        ensures
            final(self).own == old(self).own,
            final(self).used == old(self).used,
            match r {
                Ok(i) => {
                    &&& !old(self).own.is_readonly()
                    &&& !has_namespace(old(self).namespaces@, name@)
                    &&& i == old(self).namespaces@.len()
                    &&& final(self).namespaces@.len() == i + 1
                    &&& final(self).namespaces@.drop_last() == old(self).namespaces@
                    &&& final(self).namespaces@[i as int].name@ == name@
                    &&& final(self).namespaces@[i as int].namespace == namespace
                },
                Err(e) => final(self).namespaces == old(self).namespaces && if old(
                    self,
                ).own.is_readonly() {
                    e@ == read_only()
                } else {
                    has_namespace(old(self).namespaces@, name@) && e@ == name_taken()
                },
            },
    {
        if self.own.readonly_set() {
            return Err(error("Namespace is read only"));
        }
        if self.namespace_exists(name) {
            return Err(error("Name already in use"));
        }
        let i = self.namespaces.len();
        self.namespaces.push(Child { name: name.to_owned(), namespace });
        assert(self.namespaces@.drop_last() =~= old(self).namespaces@);
        Ok(i)
    }

    /// Takes the namespace at position `index` into use: its names are seen from the
    /// scope, after those of the scope and of the namespaces used before.
    pub fn uses(&mut self, index: usize)
        ensures
            final(self).own == old(self).own,
            final(self).namespaces == old(self).namespaces,
            final(self).used@ == old(self).used@.push(index),
    {
        self.used.push(index);
    }

    /// The cell that `name` stands for, seen from this scope.
    pub fn get(&self, name: &str) -> (r: Option<Cell>)
        ensures
            match r {
                Some(cell) => self.visible(name@) == Some(cell@),
                None => self.visible(name@) is None,
            },
    {
        match self.own.get(name) {
            Some(cell) => {
                return Some(cell);
            },
            None => {},
        }
        let mut i: usize = 0;
        assert(self.used@.skip(0) =~= self.used@);
        while i < self.used.len()
            invariant
                i <= self.used.len(),
                !self.own@.dom().contains(name@),
                found_in(self.namespaces@, self.used@, name@) == found_in(
                    self.namespaces@,
                    self.used@.skip(i as int),
                    name@,
                ),
            decreases self.used.len() - i,
        {
            let at = self.used[i];
            proof {
                let rest = self.used@.skip(i as int);
                assert(rest[0] == at);
                assert(rest.drop_first() =~= self.used@.skip(i + 1));
            }
            if at < self.namespaces.len() {
                match self.namespaces[at].namespace.get(name) {
                    Some(cell) => {
                        return Some(cell);
                    },
                    None => {},
                }
            }
            i += 1;
        }
        None
    }
}

} // verus!
