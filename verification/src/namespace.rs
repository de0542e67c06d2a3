use crate::data::cell::{Cell, CellView};
use crate::errors::{error, ErrorKind, JobError, JobErrorView};
use vstd::prelude::*;

verus! {

struct Entry {
    name: String,
    cell: Cell,
}

spec fn bindings(entries: Seq<Entry>) -> Map<Seq<char>, CellView>
    decreases entries.len(),
{
    if entries.len() == 0 {
        Map::empty()
    } else {
        bindings(entries.drop_last()).insert(entries.last().name@, entries.last().cell@)
    }
}

spec fn distinct(entries: Seq<Entry>) -> bool {
    forall|i: int, j: int|
        0 <= i < j < entries.len() ==> (#[trigger] entries[i]).name@ != (#[trigger] entries[j]).name@
}

spec fn position(entries: Seq<Entry>, name: Seq<char>, i: int) -> bool {
    0 <= i < entries.len() && entries[i].name@ == name
}

proof fn lemma_domain(entries: Seq<Entry>, name: Seq<char>)
    ensures
        bindings(entries).dom().contains(name) <==> exists|i: int| position(entries, name, i),
    decreases entries.len(),
{
    if entries.len() > 0 {
        let shorter = entries.drop_last();
        lemma_domain(shorter, name);
        if bindings(entries).dom().contains(name) {
            if entries.last().name@ == name {
                assert(position(entries, name, entries.len() - 1));
            } else {
                let i = choose|i: int| position(shorter, name, i);
                assert(position(entries, name, i));
            }
        }
        if exists|i: int| position(entries, name, i) {
            let i = choose|i: int| position(entries, name, i);
            if i < entries.len() - 1 {
                assert(position(shorter, name, i));
            }
        }
    }
}

proof fn lemma_bound(entries: Seq<Entry>, i: int)
    requires
        distinct(entries),
        0 <= i < entries.len(),
    ensures
        bindings(entries).dom().contains(entries[i].name@),
        bindings(entries)[entries[i].name@] == entries[i].cell@,
    decreases entries.len(),
{
    if i < entries.len() - 1 {
        let shorter = entries.drop_last();
        assert(distinct(shorter)) by {
            assert forall|a: int, b: int| 0 <= a < b < shorter.len() implies (#[trigger] shorter[a]).name@
                != (#[trigger] shorter[b]).name@ by {
                assert(shorter[a] == entries[a]);
                assert(shorter[b] == entries[b]);
            }
        }
        lemma_bound(shorter, i);
        assert(entries[i].name@ != entries[entries.len() - 1].name@);
    }
}

proof fn lemma_shorter_distinct(entries: Seq<Entry>)
    requires
        distinct(entries),
        entries.len() > 0,
    ensures
        distinct(entries.drop_last()),
{
    let shorter = entries.drop_last();
    assert forall|a: int, b: int| 0 <= a < b < shorter.len() implies (#[trigger] shorter[a]).name@
        != (#[trigger] shorter[b]).name@ by {
        assert(shorter[a] == entries[a]);
        assert(shorter[b] == entries[b]);
    }
}

proof fn lemma_replaced(entries: Seq<Entry>, i: int, entry: Entry)
    requires
        distinct(entries),
        0 <= i < entries.len(),
        entry.name@ == entries[i].name@,
    ensures
        distinct(entries.update(i, entry)),
        bindings(entries.update(i, entry)) == bindings(entries).insert(entry.name@, entry.cell@),
    decreases entries.len(),
{
    let updated = entries.update(i, entry);
    assert forall|a: int, b: int| 0 <= a < b < updated.len() implies (#[trigger] updated[a]).name@
        != (#[trigger] updated[b]).name@ by {
        assert(updated[a].name@ == entries[a].name@);
        assert(updated[b].name@ == entries[b].name@);
    }
    if i == entries.len() - 1 {
        assert(updated.drop_last() =~= entries.drop_last());
        assert(bindings(updated) =~= bindings(entries).insert(entry.name@, entry.cell@));
    } else {
        lemma_shorter_distinct(entries);
        lemma_replaced(entries.drop_last(), i, entry);
        assert(updated.drop_last() =~= entries.drop_last().update(i, entry));
        assert(updated.last() == entries.last());
        assert(entries[i].name@ != entries[entries.len() - 1].name@);
        assert(bindings(updated) =~= bindings(entries).insert(entry.name@, entry.cell@));
    }
}

proof fn lemma_removed(entries: Seq<Entry>, i: int)
    requires
        distinct(entries),
        0 <= i < entries.len(),
    ensures
        distinct(entries.remove(i)),
        bindings(entries.remove(i)) == bindings(entries).remove(entries[i].name@),
    decreases entries.len(),
{
    let removed = entries.remove(i);
    let name = entries[i].name@;
    assert forall|a: int, b: int| 0 <= a < b < removed.len() implies (#[trigger] removed[a]).name@
        != (#[trigger] removed[b]).name@ by {
        let x = if a < i { a } else { a + 1 };
        let y = if b < i { b } else { b + 1 };
        assert(removed[a] == entries[x]);
        assert(removed[b] == entries[y]);
    }
    if i == entries.len() - 1 {
        assert(removed =~= entries.drop_last());
        lemma_domain(removed, name);
        if exists|k: int| position(removed, name, k) {
            let k = choose|k: int| position(removed, name, k);
            assert(entries[k].name@ != entries[i].name@);
        }
        assert(bindings(removed) =~= bindings(entries).remove(name));
    } else {
        lemma_shorter_distinct(entries);
        lemma_removed(entries.drop_last(), i);
        assert(removed.drop_last() =~= entries.drop_last().remove(i));
        assert(removed.last() == entries.last());
        assert(entries[i].name@ != entries[entries.len() - 1].name@);
        assert(bindings(removed) =~= bindings(entries).remove(name));
    }
}

/// The error for a change of a namespace that was made read-only.
pub open spec fn read_only() -> JobErrorView {
    JobErrorView { kind: ErrorKind::Generic, message: "Namespace is read only"@ }
}

/// The error for a name that nothing was declared under.
pub open spec fn unknown_name() -> JobErrorView {
    JobErrorView { kind: ErrorKind::Generic, message: "Unknown variable"@ }
}

/// A mapping from names to cells that can be made read-only. Commands are registered
/// in it as cells, and variables are kept in it.
pub struct Namespace {
    entries: Vec<Entry>,
    readonly: bool,
}

impl View for Namespace {
    type V = Map<Seq<char>, CellView>;

    closed spec fn view(&self) -> Map<Seq<char>, CellView> {
        bindings(self.entries@)
    }
}

impl Namespace {
    #[verifier::type_invariant]
    spec fn names_are_distinct(self) -> bool {
        distinct(self.entries@)
    }

    /// Whether the namespace takes no more changes.
    pub closed spec fn is_readonly(&self) -> bool {
        self.readonly
    }

    /// An empty namespace that takes changes.
    pub fn new() -> (n: Namespace)
        ensures
            n@ == Map::<Seq<char>, CellView>::empty(),
            !n.is_readonly(),
    {
        Namespace { entries: Vec::new(), readonly: false }
    }

    fn take_entries(&mut self) -> (entries: Vec<Entry>)
        ensures
            entries@ == old(self).entries@,
            distinct(entries@),
            final(self).readonly == old(self).readonly,
    {
        proof {
            use_type_invariant(&*self);
        }
        let mut entries: Vec<Entry> = Vec::new();
        std::mem::swap(&mut self.entries, &mut entries);
        entries
    }

    fn put_entries(&mut self, entries: Vec<Entry>)
        requires
            distinct(entries@),
        ensures
            final(self).entries@ == entries@,
            final(self).readonly == old(self).readonly,
    {
        let mut entries = entries;
        std::mem::swap(&mut self.entries, &mut entries);
    }

    fn find(&self, name: &String) -> (r: Option<usize>)
        ensures
            match r {
                Some(i) => i < self.entries.len() && self.entries@[i as int].name@ == name@
                    && self@.dom().contains(name@) && self@[name@] == self.entries@[i as int].cell@,
                None => !self@.dom().contains(name@),
            },
    {
        proof {
            use_type_invariant(self);
        }
        let mut i: usize = 0;
        while i < self.entries.len()
            invariant
                i <= self.entries.len(),
                distinct(self.entries@),
                forall|k: int| 0 <= k < i ==> self.entries@[k].name@ != name@,
            decreases self.entries.len() - i,
        {
            if self.entries[i].name == *name {
                proof {
                    lemma_bound(self.entries@, i as int);
                }
                return Some(i);
            }
            i += 1;
        }
        proof {
            lemma_domain(self.entries@, name@);
            if exists|k: int| position(self.entries@, name@, k) {
                let k = choose|k: int| position(self.entries@, name@, k);
                assert(self.entries@[k].name@ != name@);
            }
        }
        None
    }

    /// Whether the namespace takes no more changes.
    pub fn readonly_set(&self) -> (b: bool)
        ensures
            b == self.is_readonly(),
    {
        self.readonly
    }

    /// Declares `name` to stand for `cell`, in place of what it stood for before. A
    /// read-only namespace refuses.
    pub fn declare(&mut self, name: &str, cell: Cell) -> (r: Result<(), JobError>)
        ensures
            final(self).is_readonly() == old(self).is_readonly(),
            match r {
                Ok(_) => !old(self).is_readonly() && final(self)@ == old(self)@.insert(name@, cell@),
                Err(e) => old(self).is_readonly() && final(self)@ == old(self)@ && e@ == read_only(),
            },
    {
        if self.readonly {
            return Err(error("Namespace is read only"));
        }
        let key = name.to_owned();
        let entry = Entry { name: name.to_owned(), cell };
        match self.find(&key) {
            Some(i) => {
                let mut entries = self.take_entries();
                proof {
                    lemma_replaced(entries@, i as int, entry);
                }
                entries.set(i, entry);
                self.put_entries(entries);
            },
            None => {
                let mut entries = self.take_entries();
                proof {
                    lemma_domain(entries@, name@);
                    let longer = entries@.push(entry);
                    assert(longer.drop_last() =~= entries@);
                    assert forall|a: int, b: int| 0 <= a < b < longer.len() implies (
                    #[trigger] longer[a]).name@ != (#[trigger] longer[b]).name@ by {
                        if b == longer.len() - 1 {
                            assert(!position(entries@, name@, a));
                        }
                    }
                }
                entries.push(entry);
                self.put_entries(entries);
            },
        }
        Ok(())
    }

    /// Gives `name`, which has to be declared, a new cell to stand for. A read-only
    /// namespace refuses.
    pub fn set(&mut self, name: &str, cell: Cell) -> (r: Result<(), JobError>)
        ensures
            final(self).is_readonly() == old(self).is_readonly(),
            match r {
                Ok(_) => !old(self).is_readonly() && old(self)@.dom().contains(name@) && final(self)@
                    == old(self)@.insert(name@, cell@),
                Err(e) => final(self)@ == old(self)@ && if old(self).is_readonly() {
                    e@ == read_only()
                } else {
                    !old(self)@.dom().contains(name@) && e@ == unknown_name()
                },
            },
    {
        if self.readonly {
            return Err(error("Namespace is read only"));
        }
        let key = name.to_owned();
        match self.find(&key) {
            Some(_) => self.declare(name, cell),
            None => Err(error("Unknown variable")),
        }
    }

    /// Takes the declaration of `name`, which has to be declared, away. A read-only
    /// namespace refuses.
    pub fn remove(&mut self, name: &str) -> (r: Result<(), JobError>)
        ensures
            final(self).is_readonly() == old(self).is_readonly(),
            match r {
                Ok(_) => !old(self).is_readonly() && old(self)@.dom().contains(name@) && final(self)@
                    == old(self)@.remove(name@),
                Err(e) => final(self)@ == old(self)@ && if old(self).is_readonly() {
                    e@ == read_only()
                } else {
                    !old(self)@.dom().contains(name@) && e@ == unknown_name()
                },
            },
    {
        if self.readonly {
            return Err(error("Namespace is read only"));
        }
        let key = name.to_owned();
        match self.find(&key) {
            Some(i) => {
                let mut entries = self.take_entries();
                proof {
                    lemma_removed(entries@, i as int);
                }
                let _ = entries.remove(i);
                self.put_entries(entries);
                Ok(())
            },
            None => Err(error("Unknown variable")),
        }
    }

    /// The cell that `name` stands for, if it is declared.
    pub fn get(&self, name: &str) -> (r: Option<Cell>)
        ensures
            match r {
                Some(cell) => self@.dom().contains(name@) && cell@ == self@[name@],
                None => !self@.dom().contains(name@),
            },
    {
        let key = name.to_owned();
        match self.find(&key) {
            Some(i) => Some(self.entries[i].cell.clone()),
            None => None,
        }
    }

    /// Makes the namespace read-only, for good.
    pub fn readonly(&mut self)
        ensures
            final(self).is_readonly(),
            final(self)@ == old(self)@,
    {
        proof {
            use_type_invariant(&*self);
        }
        self.readonly = true;
    }
}

} // verus!
