pub mod filter;
pub mod mutation;

pub use crate::job::{CallDefinition, Job, JobDefinition};

use crate::commands::mutation::{mutate, mutated, same_outcome, variables};
use crate::data::argument::{arguments_view, Argument, ArgumentView, BaseArgument};
use crate::data::cell::{type_of, Cell, CellView};
use crate::data::cell_type::{schema_view, CellType, ColumnType, ColumnTypeView};
use crate::data::command::{registered, Command, CommandView};
use crate::errors::{argument_error, execution_error, ErrorKind, JobError, JobErrorView};
use crate::namespace::read_only;
use crate::printer::Printer;
use crate::state::State;
use crate::stream::{UninitializedInputStream, UninitializedOutputStream};
use vstd::prelude::*;

verus! {

/// What a transform is given when it runs: the two ends of its streams, not yet
/// initialized, its arguments, and where it reports the errors of single rows.
pub struct ExecutionContext {
    pub input: UninitializedInputStream,
    pub output: UninitializedOutputStream,
    pub arguments: Vec<Argument>,
    pub printer: Printer,
}

/// The context of a transform that reads its arguments against the columns of its
/// input before the first row.
pub type CompileContext = ExecutionContext;

/// The stream transforms that a call can name. Each runs as a unit of its own, on
/// streams alone.
#[derive(Clone, Copy, Debug, PartialEq, Eq, Structural)]
pub enum Transform {
    Ls,
    Find,
    Echo,
    Pwd,
    Filter,
    Sort,
    Group,
    Join,
    Count,
    Cat,
    Select,
    Enumerate,
    Cast,
    Head,
    Tail,
    Lines,
    Csv,
    Env,
    Ps,
    Reverse,
}

/// The changes of interpreter state that a call can name. Each runs where it is called.
#[derive(Clone, Copy, Debug, PartialEq, Eq, Structural)]
pub enum Mutation {
    Cd,
    SetVariable,
    LetVariable,
    UnsetVariable,
}

/// How a call is executed.
#[derive(Clone, Copy, Debug, PartialEq, Eq, Structural)]
pub enum Exec {
    /// A transform over streams, free to run beside others.
    Run(Transform),
    /// A change of the shared state, made by one caller at a time.
    Mutate(Mutation),
}

/// How a unit that was spawned for a call has ended.
pub enum Completion {
    /// The transform returned, with this result.
    Returned(Result<(), JobError>),
    /// The unit ended without a result.
    Faulted,
}

/// What becomes of an executed call: the end of the unit that ran it beside the
/// caller, or the result that the caller computed itself.
pub enum JobResult {
    Async(Completion),
    Sync(Result<(), JobError>),
}

/// The error of a unit that ended without a result.
pub open spec fn interrupted() -> JobErrorView {
    JobErrorView {
        kind: ErrorKind::Execution,
        message: "Error while waiting for command to finish"@,
    }
}

impl JobResult {
    /// The result of the call. That of a unit which returned, and that of a call
    /// which the caller ran itself, come back as they are; a unit that ended without
    /// a result gives an execution error.
    pub fn join(self) -> (r: Result<(), JobError>)
        ensures
            match self {
                JobResult::Async(Completion::Returned(returned)) => r == returned,
                JobResult::Async(Completion::Faulted) => r matches Err(e) && e@ == interrupted(),
                JobResult::Sync(s) => r == s,
            },
    {
        match self {
            JobResult::Async(a) => match a {
                Completion::Returned(r) => r,
                Completion::Faulted => Err(
                    execution_error("Error while waiting for command to finish"),
                ),
            },
            JobResult::Sync(s) => s,
        }
    }
}

/// A call that is ready to be executed, over arguments of type `C`.
pub struct BaseCall<C> {
    name: String,
    input_type: Vec<ColumnType>,
    arguments: Vec<BaseArgument<C>>,
    output_type: Vec<ColumnType>,
    execution: Exec,
}

/// A call whose arguments are known.
pub type Call = BaseCall<Cell>;

/// A `Call` with its texts and lists as sequences.
pub struct CallView {
    pub name: Seq<char>,
    pub input_type: Seq<ColumnTypeView>,
    pub arguments: Seq<ArgumentView>,
    pub output_type: Seq<ColumnTypeView>,
    pub execution: Exec,
}

impl View for BaseCall<Cell> {
    type V = CallView;

    closed spec fn view(&self) -> CallView {
        CallView {
            name: self.name@,
            input_type: schema_view(self.input_type@),
            arguments: arguments_view(self.arguments@),
            output_type: schema_view(self.output_type@),
            execution: self.execution,
        }
    }
}

/// The error for a call with more or fewer arguments than its command takes.
pub open spec fn wrong_arity() -> JobErrorView {
    JobErrorView { kind: ErrorKind::Argument, message: "Wrong number of arguments"@ }
}

/// The error for a call with an argument of another type than its command takes.
pub open spec fn wrong_type() -> JobErrorView {
    JobErrorView { kind: ErrorKind::Argument, message: "Wrong argument type"@ }
}

/// Whether each argument has the type that stands at its position in `parameters`.
pub open spec fn types_fit(arguments: Seq<ArgumentView>, parameters: Seq<CellType>) -> bool {
    forall|i: int|
        0 <= i < arguments.len() && i < parameters.len() ==> type_of((#[trigger] arguments[i]).cell)
            == parameters[i]
}

/// The call of `command` on an input of the columns `input_type` with `arguments`.
/// Where the command declares its parameters, the arguments have to be as many, and
/// each of the declared type. The output has the columns that the command declares,
/// or those of the input where it declares none.
pub open spec fn bound(
    command: CommandView,
    input_type: Seq<ColumnTypeView>,
    arguments: Seq<ArgumentView>,
) -> Result<CallView, JobErrorView> {
    if command.parameters is Some && command.parameters->0.len() != arguments.len() {
        Err(wrong_arity())
    } else if command.parameters is Some && !types_fit(arguments, command.parameters->0) {
        Err(wrong_type())
    } else {
        Ok(
            CallView {
                name: command.name,
                input_type,
                arguments,
                output_type: match command.output {
                    Some(columns) => columns,
                    None => input_type,
                },
                execution: command.execution,
            },
        )
    }
}

/// Whether a result of binding says the same as its view.
pub open spec fn same_call(r: Result<Call, JobError>, v: Result<CallView, JobErrorView>) -> bool {
    match r {
        Ok(call) => v == Ok::<CallView, JobErrorView>(call@),
        Err(e) => v == Err::<CallView, JobErrorView>(e@),
    }
}

fn fits(arguments: &Vec<Argument>, parameters: &Vec<CellType>) -> (b: bool)
    requires
        arguments.len() == parameters.len(),
    ensures
        b == types_fit(arguments_view(arguments@), parameters@),
{
    let mut i: usize = 0;
    while i < arguments.len()
        invariant
            i <= arguments.len(),
            arguments.len() == parameters.len(),
            forall|k: int|
                0 <= k < i ==> type_of((#[trigger] arguments_view(arguments@)[k]).cell)
                    == parameters@[k],
        decreases arguments.len() - i,
    {
        if arguments[i].cell.cell_type() != parameters[i] {
            assert(type_of(arguments_view(arguments@)[i as int].cell) != parameters@[i as int]);
            return false;
        }
        i += 1;
    }
    true
}

impl Command {
    /// Binds the arguments of a call to the command: the last step of compiling it.
    pub fn call(&self, input_type: Vec<ColumnType>, arguments: Vec<Argument>) -> (r: Result<
        Call,
        JobError,
    >)
        ensures
            same_call(r, bound(self@, schema_view(input_type@), arguments_view(arguments@))),
    {
        match &self.parameters {
            Some(parameters) => {
                if parameters.len() != arguments.len() {
                    return Err(argument_error("Wrong number of arguments"));
                }
                if !fits(&arguments, parameters) {
                    return Err(argument_error("Wrong argument type"));
                }
            },
            None => {},
        }
        let output_type = match &self.output {
            Some(columns) => crate::data::cell_type::clone_schema(columns),
            None => crate::data::cell_type::clone_schema(&input_type),
        };
        Ok(
            BaseCall {
                name: self.name.clone(),
                input_type,
                arguments,
                output_type,
                execution: self.execution,
            },
        )
    }
}

impl BaseCall<Cell> {
    /// The name of the command that is called.
    pub fn get_name(&self) -> (name: &String)
        ensures
            name@ == self@.name,
    {
        &self.name
    }

    /// The arguments of the call.
    pub fn get_arguments(&self) -> (arguments: &Vec<Argument>)
        ensures
            arguments_view(arguments@) == self@.arguments,
    {
        &self.arguments
    }

    /// The columns of the rows that the call reads.
    pub fn get_input_type(&self) -> (input_type: &Vec<ColumnType>)
        ensures
            schema_view(input_type@) == self@.input_type,
    {
        &self.input_type
    }

    /// The columns of the rows that the call writes.
    pub fn get_output_type(&self) -> (output_type: &Vec<ColumnType>)
        ensures
            schema_view(output_type@) == self@.output_type,
    {
        &self.output_type
    }

    /// How the call is executed.
    pub fn get_exec(&self) -> (execution: Exec)
        ensures
            execution == self@.execution,
    {
        self.execution
    }
}

/// What a unit that is spawned for a call is given: the transform to run, and all
/// that the transform works on.
pub struct Unit {
    pub name: String,
    pub transform: Transform,
    pub input_type: Vec<ColumnType>,
    pub context: ExecutionContext,
}

/// What became of a unit that was asked to run.
pub enum Ran {
    /// Its transform was run, with this result.
    Finished(Result<(), JobError>),
    /// Its transform works on more than streams: the unit comes back as it was, for
    /// the host to run.
    Foreign(Unit),
}

impl Unit {
    /// Runs the transform of the unit, where it works on streams alone: a filter, or
    /// a reversal, each from the context of the unit. Every other unit is handed back
    /// untouched.
    pub fn run(self) -> (r: Ran)
        ensures
            match self.transform {
                Transform::Filter => r matches Ran::Finished(result) && filter::filter_outcome(
                    self.context,
                    result,
                ),
                Transform::Reverse => r matches Ran::Finished(result)
                    && crate::library::stream::reverse::reversal_outcome(self.context, result),
                _ => r == Ran::Foreign(self),
            },
    {
        match self.transform {
            Transform::Filter => Ran::Finished(filter::compile_and_run(self.context)),
            Transform::Reverse => Ran::Finished(
                crate::library::stream::reverse::perform(self.context),
            ),
            _ => Ran::Foreign(self),
        }
    }
}

/// What executing a call asks of the caller.
pub enum Execution {
    /// To spawn a unit of its own for the transform, and to join it later.
    Spawn(Unit),
    /// Nothing: the call was carried out, with this result.
    Done(JobResult),
}

impl BaseCall<Cell> {
    /// Executes the call. A transform is not run here: it is handed back with both
    /// ends of its streams, to be run by a unit of its own, and the state is left as
    /// it is. A mutation is carried out on the state at once, and no unit is asked
    /// for.
    pub fn execute(
        self,
        state: &mut State,
        printer: &Printer,
        input: UninitializedInputStream,
        output: UninitializedOutputStream,
    ) -> (r: Execution)
        ensures
            final(state).scope.namespaces == old(state).scope.namespaces,
            final(state).scope.used == old(state).scope.used,
            match self@.execution {
                Exec::Run(transform) => {
                    &&& r matches Execution::Spawn(unit)
                    &&& unit.transform == transform
                    &&& unit.name@ == self@.name
                    &&& schema_view(unit.input_type@) == self@.input_type
                    &&& arguments_view(unit.context.arguments@) == self@.arguments
                    &&& unit.context.input == input
                    &&& unit.context.output == output
                    &&& unit.context.printer.reported() == printer.reported()
                    &&& *final(state) == *old(state)
                },
                Exec::Mutate(mutation) => {
                    &&& r matches Execution::Done(JobResult::Sync(result))
                    &&& variables(*final(state)) == mutated(
                        mutation,
                        variables(*old(state)),
                        self@.arguments,
                    ).0
                    &&& same_outcome(
                        result,
                        mutated(mutation, variables(*old(state)), self@.arguments).1,
                    )
                },
            },
    {
        match self.execution {
            Exec::Run(transform) => Execution::Spawn(
                Unit {
                    name: self.name,
                    transform,
                    input_type: self.input_type,
                    context: ExecutionContext {
                        input,
                        output,
                        arguments: self.arguments,
                        printer: printer.clone(),
                    },
                },
            ),
            Exec::Mutate(mutation) => Execution::Done(
                JobResult::Sync(mutate(mutation, state, &self.arguments)),
            ),
        }
    }
}

/// The names of `before`, and the commands that are built in under theirs.
pub open spec fn with_builtins(before: Map<Seq<char>, CellView>) -> Map<Seq<char>, CellView> {
    before.insert("ls"@, registered("ls"@, Exec::Run(Transform::Ls))).insert(
        "find"@,
        registered("find"@, Exec::Run(Transform::Find)),
    ).insert("echo"@, registered("echo"@, Exec::Run(Transform::Echo))).insert(
        "pwd"@,
        registered("pwd"@, Exec::Run(Transform::Pwd)),
    ).insert("cd"@, registered("cd"@, Exec::Mutate(Mutation::Cd))).insert(
        "filter"@,
        registered("filter"@, Exec::Run(Transform::Filter)),
    ).insert("sort"@, registered("sort"@, Exec::Run(Transform::Sort))).insert(
        "set"@,
        registered("set"@, Exec::Mutate(Mutation::SetVariable)),
    ).insert("let"@, registered("let"@, Exec::Mutate(Mutation::LetVariable))).insert(
        "unset"@,
        registered("unset"@, Exec::Mutate(Mutation::UnsetVariable)),
    ).insert("group"@, registered("group"@, Exec::Run(Transform::Group))).insert(
        "join"@,
        registered("join"@, Exec::Run(Transform::Join)),
    ).insert("count"@, registered("count"@, Exec::Run(Transform::Count))).insert(
        "cat"@,
        registered("cat"@, Exec::Run(Transform::Cat)),
    ).insert("select"@, registered("select"@, Exec::Run(Transform::Select))).insert(
        "enumerate"@,
        registered("enumerate"@, Exec::Run(Transform::Enumerate)),
    ).insert("cast"@, registered("cast"@, Exec::Run(Transform::Cast))).insert(
        "head"@,
        registered("head"@, Exec::Run(Transform::Head)),
    ).insert("tail"@, registered("tail"@, Exec::Run(Transform::Tail))).insert(
        "lines"@,
        registered("lines"@, Exec::Run(Transform::Lines)),
    ).insert("csv"@, registered("csv"@, Exec::Run(Transform::Csv)))
}

fn builtin(name: &str, execution: Exec) -> (cell: Cell)
    ensures
        cell@ == registered(name@, execution),
{
    Cell::Command(Command::new(name, execution))
}

/// Declares the commands that are built in. This is for the start of the
/// interpreter: a state whose names are read-only refuses, and nothing changes.
pub fn add_builtins(state: &mut State) -> (r: Result<(), JobError>)
    ensures
        final(state).scope.own.is_readonly() == old(state).scope.own.is_readonly(),
        final(state).scope.namespaces == old(state).scope.namespaces,
        final(state).scope.used == old(state).scope.used,
        final(state).directory == old(state).directory,
        match r {
            Ok(_) => !old(state).scope.own.is_readonly() && final(state).scope.own@
                == with_builtins(old(state).scope.own@),
            Err(e) => old(state).scope.own.is_readonly() && final(state).scope.own@ == old(
                state,
            ).scope.own@ && e@ == read_only(),
        },
{
    state.declare("ls", builtin("ls", Exec::Run(Transform::Ls)))?;
    state.declare("find", builtin("find", Exec::Run(Transform::Find)))?;
    state.declare("echo", builtin("echo", Exec::Run(Transform::Echo)))?;
    state.declare("pwd", builtin("pwd", Exec::Run(Transform::Pwd)))?;
    state.declare("cd", builtin("cd", Exec::Mutate(Mutation::Cd)))?;
    state.declare("filter", builtin("filter", Exec::Run(Transform::Filter)))?;
    state.declare("sort", builtin("sort", Exec::Run(Transform::Sort)))?;
    state.declare("set", builtin("set", Exec::Mutate(Mutation::SetVariable)))?;
    state.declare("let", builtin("let", Exec::Mutate(Mutation::LetVariable)))?;
    state.declare("unset", builtin("unset", Exec::Mutate(Mutation::UnsetVariable)))?;
    state.declare("group", builtin("group", Exec::Run(Transform::Group)))?;
    state.declare("join", builtin("join", Exec::Run(Transform::Join)))?;
    state.declare("count", builtin("count", Exec::Run(Transform::Count)))?;
    state.declare("cat", builtin("cat", Exec::Run(Transform::Cat)))?;
    state.declare("select", builtin("select", Exec::Run(Transform::Select)))?;
    state.declare("enumerate", builtin("enumerate", Exec::Run(Transform::Enumerate)))?;

    state.declare("cast", builtin("cast", Exec::Run(Transform::Cast)))?;

    state.declare("head", builtin("head", Exec::Run(Transform::Head)))?;
    state.declare("tail", builtin("tail", Exec::Run(Transform::Tail)))?;

    state.declare("lines", builtin("lines", Exec::Run(Transform::Lines)))?;
    state.declare("csv", builtin("csv", Exec::Run(Transform::Csv)))?;

    Ok(())
}

} // verus!
