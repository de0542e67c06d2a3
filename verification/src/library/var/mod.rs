use crate::commands::{Exec, Mutation, Transform};
use crate::data::cell::{Cell, CellView};
use crate::data::command::{registered, Command};
use crate::errors::{error, JobError};
use crate::namespace::{read_only, Namespace};
use crate::scope::{has_namespace, name_taken, Scope};
use vstd::prelude::*;

verus! {

/// The commands on variables, by their names.
pub open spec fn variable_commands() -> Map<Seq<char>, CellView> {
    Map::<Seq<char>, CellView>::empty().insert(
        "let"@,
        registered("let"@, Exec::Mutate(Mutation::LetVariable)),
    ).insert("set"@, registered("set"@, Exec::Mutate(Mutation::SetVariable))).insert(
        "unset"@,
        registered("unset"@, Exec::Mutate(Mutation::UnsetVariable)),
    ).insert("env"@, registered("env"@, Exec::Run(Transform::Env)))
}

/// Declares the commands on variables in a namespace `var` of the scope `root`, makes
/// that namespace read-only and takes it into use. A read-only scope refuses, and so
/// does one that has a namespace `var`; in both cases nothing changes.
pub fn declare(root: &mut Scope) -> (r: Result<(), JobError>)
    ensures
        final(root).own == old(root).own,
        match r {
            Ok(_) => {
                let at = old(root).namespaces@.len() as int;
                &&& !old(root).own.is_readonly()
                &&& !has_namespace(old(root).namespaces@, "var"@)
                &&& final(root).namespaces@.len() == at + 1
                &&& final(root).namespaces@.drop_last() == old(root).namespaces@
                &&& final(root).namespaces@[at].name@ == "var"@
                &&& final(root).namespaces@[at].namespace@ == variable_commands()
                &&& final(root).namespaces@[at].namespace.is_readonly()
                &&& final(root).used@ == old(root).used@.push(at as usize)
            },
            Err(e) => {
                &&& final(root).namespaces == old(root).namespaces
                &&& final(root).used == old(root).used
                &&& if old(root).own.is_readonly() {
                    e@ == read_only()
                } else {
                    has_namespace(old(root).namespaces@, "var"@) && e@ == name_taken()
                }
            },
        },
{
    if root.own.readonly_set() {
        return Err(error("Namespace is read only"));
    }
    if root.namespace_exists("var") {
        return Err(error("Name already in use"));
    }
    let mut env = Namespace::new();
    env.declare("let", Cell::Command(Command::new("let", Exec::Mutate(Mutation::LetVariable))))?;
    env.declare("set", Cell::Command(Command::new("set", Exec::Mutate(Mutation::SetVariable))))?;
    env.declare(
        "unset",
        Cell::Command(Command::new("unset", Exec::Mutate(Mutation::UnsetVariable))),
    )?;
    env.declare("env", Cell::Command(Command::new("env", Exec::Run(Transform::Env))))?;
    env.readonly();
    let at = root.create_namespace("var", env)?;
    root.uses(at);
    Ok(())
}

} // verus!
