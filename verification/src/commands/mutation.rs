use crate::commands::Mutation;
use crate::data::argument::{arguments_view, Argument, ArgumentView};
use crate::data::cell::{Cell, CellView};
use crate::errors::{argument_error, ErrorKind, JobError, JobErrorView};
use crate::namespace::{read_only, unknown_name};
use crate::state::State;
use vstd::prelude::*;
use vstd::string::StrSliceExecFns;
use vstd::utf8::encode_utf8;

verus! {

/// What the calls see of a `State`: the names that its scope itself declares, whether
/// they can still change, and the working directory.
pub struct Variables {
    pub bindings: Map<Seq<char>, CellView>,
    pub readonly: bool,
    pub directory: Seq<u8>,
}

/// The variables of a state.
pub open spec fn variables(state: State) -> Variables {
    Variables {
        bindings: state.scope.own@,
        readonly: state.scope.own.is_readonly(),
        directory: state.directory@,
    }
}

/// The argument error with the given message.
pub open spec fn refused(message: Seq<char>) -> JobErrorView {
    JobErrorView { kind: ErrorKind::Argument, message }
}

/// What one argument of a mutation does to the variables, and whether it succeeds.
/// `let` declares the name of the argument to stand for its cell; `set` does so for a
/// name that is declared; `unset` takes the name away that the argument holds as a
/// name or as a text; `cd` makes the path, or the text, that the argument holds the
/// working directory. Names that cannot change refuse `let`, `set` and `unset`.
pub open spec fn step(mutation: Mutation, before: Variables, argument: ArgumentView) -> (
    Variables,
    Result<(), JobErrorView>,
) {
    match mutation {
        Mutation::LetVariable => match argument.name {
            None => (before, Err(refused("Missing variable name"@))),
            Some(name) => if before.readonly {
                (before, Err(read_only()))
            } else {
                (
                    Variables {
                        bindings: before.bindings.insert(name, argument.cell),
                        ..before
                    },
                    Ok(()),
                )
            },
        },
        Mutation::SetVariable => match argument.name {
            None => (before, Err(refused("Missing variable name"@))),
            Some(name) => if before.readonly {
                (before, Err(read_only()))
            } else if !before.bindings.dom().contains(name) {
                (before, Err(unknown_name()))
            } else {
                (
                    Variables {
                        bindings: before.bindings.insert(name, argument.cell),
                        ..before
                    },
                    Ok(()),
                )
            },
        },
        Mutation::UnsetVariable => match argument.cell {
            CellView::Field(name) => unset(before, name),
            CellView::Text(name) => unset(before, name),
            _ => (before, Err(refused("Expected a variable name"@))),
        },
        Mutation::Cd => match argument.cell {
            CellView::File(path) => (Variables { directory: path, ..before }, Ok(())),
            CellView::Text(text) => (Variables { directory: encode_utf8(text), ..before }, Ok(())),
            _ => (before, Err(refused("Expected a directory"@))),
        },
    }
}

/// What taking the name `name` away does to the variables.
pub open spec fn unset(before: Variables, name: Seq<char>) -> (Variables, Result<(), JobErrorView>) {
    if before.readonly {
        (before, Err(read_only()))
    } else if !before.bindings.dom().contains(name) {
        (before, Err(unknown_name()))
    } else {
        (Variables { bindings: before.bindings.remove(name), ..before }, Ok(()))
    }
}

/// What the arguments from position `i` on do to the variables, one after the other,
/// up to the first that fails: what the arguments before it did stays done.
pub open spec fn steps(mutation: Mutation, before: Variables, arguments: Seq<ArgumentView>, i: int) -> (
    Variables,
    Result<(), JobErrorView>,
)
    decreases arguments.len() - i,
{
    if i < 0 || i >= arguments.len() {
        (before, Ok(()))
    } else {
        let (after, result) = step(mutation, before, arguments[i]);
        if result is Err {
            (after, result)
        } else {
            steps(mutation, after, arguments, i + 1)
        }
    }
}

/// What a mutation does to the variables, and whether it succeeds. `cd` takes exactly
/// one argument; the others take any number of them.
pub open spec fn mutated(mutation: Mutation, before: Variables, arguments: Seq<ArgumentView>) -> (
    Variables,
    Result<(), JobErrorView>,
) {
    if mutation == Mutation::Cd && arguments.len() != 1 {
        (before, Err(refused("Wrong number of arguments"@)))
    } else {
        steps(mutation, before, arguments, 0)
    }
}

/// Whether a result says the same as its view.
pub open spec fn same_outcome(r: Result<(), JobError>, v: Result<(), JobErrorView>) -> bool {
    match r {
        Ok(_) => v is Ok,
        Err(e) => v == Err::<(), JobErrorView>(e@),
    }
}

fn unset_name(state: &mut State, name: &String) -> (r: Result<(), JobError>)
    ensures
        final(state).scope.namespaces == old(state).scope.namespaces,
        final(state).scope.used == old(state).scope.used,
        variables(*final(state)) == unset(variables(*old(state)), name@).0,
        same_outcome(r, unset(variables(*old(state)), name@).1),
{
    let r = state.scope.own.remove(name.as_str());
    proof {
        assert(variables(*state).bindings =~= unset(variables(*old(state)), name@).0.bindings);
    }
    r
}

fn apply(mutation: Mutation, state: &mut State, argument: &Argument) -> (r: Result<(), JobError>)
    ensures
        final(state).scope.namespaces == old(state).scope.namespaces,
        final(state).scope.used == old(state).scope.used,
        variables(*final(state)) == step(mutation, variables(*old(state)), argument@).0,
        same_outcome(r, step(mutation, variables(*old(state)), argument@).1),
{
    match mutation {
        Mutation::LetVariable => match &argument.name {
            None => Err(argument_error("Missing variable name")),
            Some(name) => state.scope.own.declare(name.as_str(), argument.cell.clone()),
        },
        Mutation::SetVariable => match &argument.name {
            None => Err(argument_error("Missing variable name")),
            Some(name) => state.scope.own.set(name.as_str(), argument.cell.clone()),
        },
        Mutation::UnsetVariable => match &argument.cell {
            Cell::Field(name) => unset_name(state, name),
            Cell::Text(name) => unset_name(state, name),
            _ => Err(argument_error("Expected a variable name")),
        },
        Mutation::Cd => match &argument.cell {
            Cell::File(path) => {
                let mut directory: Vec<u8> = Vec::new();
                let mut i: usize = 0;
                while i < path.len()
                    invariant
                        i <= path.len(),
                        directory@ == path@.take(i as int),
                    decreases path.len() - i,
                {
                    directory.push(path[i]);
                    assert(path@.take(i + 1) =~= path@.take(i as int).push(path@[i as int]));
                    i += 1;
                }
                assert(path@.take(path.len() as int) =~= path@);
                state.directory = directory;
                Ok(())
            },
            Cell::Text(text) => {
                state.directory = text.as_str().as_bytes_vec();
                Ok(())
            },
            _ => Err(argument_error("Expected a directory")),
        },
    }
}

/// Carries out a mutation on the state, argument by argument, and stops at the first
/// argument that fails.
#[verifier::loop_isolation(false)]
pub fn mutate(mutation: Mutation, state: &mut State, arguments: &Vec<Argument>) -> (r: Result<
    (),
    JobError,
>)
    ensures
        final(state).scope.namespaces == old(state).scope.namespaces,
        final(state).scope.used == old(state).scope.used,
        variables(*final(state)) == mutated(
            mutation,
            variables(*old(state)),
            arguments_view(arguments@),
        ).0,
        same_outcome(r, mutated(mutation, variables(*old(state)), arguments_view(arguments@)).1),
{
    if matches!(mutation, Mutation::Cd) && arguments.len() != 1 {
        return Err(argument_error("Wrong number of arguments"));
    }
    let ghost all = arguments_view(arguments@);
    let ghost start = variables(*state);
    let mut i: usize = 0;
    while i < arguments.len()
        invariant
            i <= arguments.len(),
            all == arguments_view(arguments@),
            state.scope.namespaces == old(state).scope.namespaces,
            state.scope.used == old(state).scope.used,
            steps(mutation, start, all, 0) == steps(mutation, variables(*state), all, i as int),
        decreases arguments.len() - i,
    {
        let ghost before = variables(*state);
        assert(all[i as int] == arguments@[i as int]@);
        match apply(mutation, state, &arguments[i]) {
            Ok(_) => {},
            Err(e) => {
                return Err(e);
            },
        }
        i += 1;
    }
    Ok(())
}

} // verus!
