use crate::commands::{bound, Call, CallView};
use crate::data::argument::{name_view, Argument, ArgumentView, BaseArgument};
use crate::data::cell::{Cell, CellView};
use crate::data::cell_type::{clone_schema, schema_view, ColumnType, ColumnTypeView};
use crate::data::command::Command;
use crate::errors::{JobError, JobErrorView};
use vstd::prelude::*;

verus! {

/// The value of an argument before the call is compiled.
pub enum CellDefinition {
    /// A value that is known.
    Literal(Cell),
    /// A nested pipeline, whose output is the value.
    Pipeline(JobDefinition),
}

/// An argument whose value may be a nested pipeline.
pub type ArgumentDefinition = BaseArgument<CellDefinition>;

/// A call as it was written: a command and the definitions of its arguments.
pub struct CallDefinition {
    pub arguments: Vec<ArgumentDefinition>,
    pub command: Command,
}

/// A pipeline as it was written: its calls, each reading what the one before it
/// writes.
pub struct JobDefinition {
    pub calls: Vec<CallDefinition>,
}

/// A pipeline that is ready to be executed.
pub struct Job {
    pub calls: Vec<Call>,
}

impl View for Job {
    type V = Seq<CallView>;

    open spec fn view(&self) -> Seq<CallView> {
        self.calls@.map_values(|c: Call| c@)
    }
}

/// The jobs of a list, each as its view.
pub open spec fn jobs_view(jobs: Seq<Job>) -> Seq<Seq<CallView>> {
    jobs.map_values(|j: Job| j@)
}

/// What compiling gives: a value, and the jobs that it depends on.
pub type Compiled<T> = Result<(T, Seq<Seq<CallView>>), JobErrorView>;

/// The call that a definition compiles to on an input of the columns `input_type`,
/// and the jobs that it adds to a list of `base` dependencies.
pub open spec fn compiled_call(
    definition: CallDefinition,
    input_type: Seq<ColumnTypeView>,
    base: nat,
) -> Compiled<CallView>
    decreases definition, 0nat,
{
    match compiled_arguments(definition.arguments@, base, definition.arguments@.len()) {
        Err(e) => Err(e),
        Ok((arguments, jobs)) => match bound(definition.command@, input_type, arguments) {
            Err(e) => Err(e),
            Ok(call) => Ok((call, jobs)),
        },
    }
}

/// The arguments that the first `n` definitions compile to, and the jobs that they
/// add to a list of `base` dependencies. The first definition that fails decides the
/// error.
pub open spec fn compiled_arguments(definitions: Seq<ArgumentDefinition>, base: nat, n: nat) -> Compiled<
    Seq<ArgumentView>,
>
    decreases definitions, n,
{
    if n == 0 || n > definitions.len() {
        Ok((Seq::empty(), Seq::empty()))
    } else {
        match compiled_arguments(definitions, base, (n - 1) as nat) {
            Err(e) => Err(e),
            Ok((arguments, jobs)) => match compiled_argument(
                definitions[n - 1],
                base + jobs.len(),
            ) {
                Err(e) => Err(e),
                Ok((argument, more)) => Ok((arguments.push(argument), jobs + more)),
            },
        }
    }
}

/// The argument that a definition compiles to, and the jobs that it adds to a list of
/// `base` dependencies. A nested pipeline is compiled with its own dependencies
/// before it; it becomes the last of the jobs, and the argument holds its position.
pub open spec fn compiled_argument(definition: ArgumentDefinition, base: nat) -> Compiled<
    ArgumentView,
>
    decreases definition, 0nat,
{
    match definition.cell {
        CellDefinition::Literal(cell) => Ok(
            (ArgumentView { name: name_view(definition.name), cell: cell@ }, Seq::empty()),
        ),
        CellDefinition::Pipeline(job) => match compiled_calls(
            job.calls@,
            Seq::empty(),
            base,
            job.calls@.len(),
        ) {
            Err(e) => Err(e),
            Ok((calls, jobs)) => Ok(
                (
                    ArgumentView {
                        name: name_view(definition.name),
                        cell: CellView::Output((base + jobs.len()) as int),
                    },
                    jobs.push(calls),
                ),
            ),
        },
    }
}

/// The calls that the first `n` definitions of a pipeline compile to, and the jobs
/// that they add to a list of `base` dependencies. The first call reads the columns
/// `input_type`, every other call those that the call before it writes.
pub open spec fn compiled_calls(
    definitions: Seq<CallDefinition>,
    input_type: Seq<ColumnTypeView>,
    base: nat,
    n: nat,
) -> Compiled<Seq<CallView>>
    decreases definitions, n,
{
    if n == 0 || n > definitions.len() {
        Ok((Seq::empty(), Seq::empty()))
    } else {
        match compiled_calls(definitions, input_type, base, (n - 1) as nat) {
            Err(e) => Err(e),
            Ok((calls, jobs)) => match compiled_call(
                definitions[n - 1],
                if calls.len() == 0 {
                    input_type
                } else {
                    calls.last().output_type
                },
                base + jobs.len(),
            ) {
                Err(e) => Err(e),
                Ok((call, more)) => Ok((calls.push(call), jobs + more)),
            },
        }
    }
}

proof fn lemma_arguments_fail(definitions: Seq<ArgumentDefinition>, base: nat, n: nat, m: nat)
    requires
        n <= m <= definitions.len(),
        compiled_arguments(definitions, base, n) is Err,
    ensures
        compiled_arguments(definitions, base, m) == compiled_arguments(definitions, base, n),
    decreases m,
{
    if n < m {
        lemma_arguments_fail(definitions, base, n, (m - 1) as nat);
    }
}

proof fn lemma_calls_fail(
    definitions: Seq<CallDefinition>,
    input_type: Seq<ColumnTypeView>,
    base: nat,
    n: nat,
    m: nat,
)
    requires
        n <= m <= definitions.len(),
        compiled_calls(definitions, input_type, base, n) is Err,
    ensures
        compiled_calls(definitions, input_type, base, m) == compiled_calls(
            definitions,
            input_type,
            base,
            n,
        ),
    decreases m,
{
    if n < m {
        lemma_calls_fail(definitions, input_type, base, n, (m - 1) as nat);
    }
}

/// Whether `after` is `before` with jobs added at its end.
pub open spec fn extends(after: Seq<Job>, before: Seq<Job>) -> bool {
    before.len() <= after.len() && jobs_view(after).take(before.len() as int) == jobs_view(before)
}

/// The jobs that `after` has after those of `before`.
pub open spec fn added(after: Seq<Job>, before: Seq<Job>) -> Seq<Seq<CallView>> {
    jobs_view(after).skip(before.len() as int)
}

fn clone_name(name: &Option<String>) -> (res: Option<String>)
    ensures
        name_view(res) == name_view(*name),
{
    match name {
        Some(n) => Some(n.clone()),
        None => None,
    }
}

fn compile_argument(definition: &ArgumentDefinition, dependencies: &mut Vec<Job>) -> (r: Result<
    Argument,
    JobError,
>)
    ensures
        extends(final(dependencies)@, old(dependencies)@),
        match r {
            Ok(argument) => compiled_argument(*definition, old(dependencies)@.len()) == Ok::<
                (ArgumentView, Seq<Seq<CallView>>),
                JobErrorView,
            >((argument@, added(final(dependencies)@, old(dependencies)@))),
            Err(e) => compiled_argument(*definition, old(dependencies)@.len()) == Err::<
                (ArgumentView, Seq<Seq<CallView>>),
                JobErrorView,
            >(e@),
        },
    decreases definition,
{
    match &definition.cell {
        CellDefinition::Literal(cell) => {
            proof {
                assert(jobs_view(dependencies@).take(dependencies@.len() as int) =~= jobs_view(
                    dependencies@,
                ));
                assert(added(dependencies@, dependencies@) =~= Seq::<Seq<CallView>>::empty());
            }
            Ok(BaseArgument { name: clone_name(&definition.name), cell: cell.clone() })
        },
        CellDefinition::Pipeline(job) => match job.compile(Vec::new(), dependencies) {
            Err(e) => Err(e),
            Ok(compiled) => {
                let at = dependencies.len();
                let ghost before = dependencies@;
                dependencies.push(compiled);
                proof {
                    let base = old(dependencies)@.len() as int;
                    assert(jobs_view(dependencies@) =~= jobs_view(before).push(compiled@));
                    assert(jobs_view(dependencies@).take(base) =~= jobs_view(before).take(base));
                    assert(added(dependencies@, old(dependencies)@) =~= added(
                        before,
                        old(dependencies)@,
                    ).push(compiled@));
                    assert(schema_view(Seq::<ColumnType>::empty()) =~= Seq::<
                        ColumnTypeView,
                    >::empty());
                }
                Ok(BaseArgument { name: clone_name(&definition.name), cell: Cell::Output(at) })
            },
        },
    }
}

impl JobDefinition {
    /// Compiles the pipeline: each call in turn, the first on an input of the columns
    /// `input_type`, every other on what the call before it writes. The jobs that the
    /// calls depend on are added to `dependencies`. The first call that fails decides
    /// the error.
    pub fn compile(&self, input_type: Vec<ColumnType>, dependencies: &mut Vec<Job>) -> (r: Result<
        Job,
        JobError,
    >)
        ensures
            extends(final(dependencies)@, old(dependencies)@),
            match r {
                Ok(job) => compiled_calls(
                    self.calls@,
                    schema_view(input_type@),
                    old(dependencies)@.len(),
                    self.calls@.len(),
                ) == Ok::<(Seq<CallView>, Seq<Seq<CallView>>), JobErrorView>(
                    (job@, added(final(dependencies)@, old(dependencies)@)),
                ),
                Err(e) => compiled_calls(
                    self.calls@,
                    schema_view(input_type@),
                    old(dependencies)@.len(),
                    self.calls@.len(),
                ) == Err::<(Seq<CallView>, Seq<Seq<CallView>>), JobErrorView>(e@),
            },
        decreases self,
    {
        let ghost first = schema_view(input_type@);
        let ghost base = dependencies@.len();
        let mut calls: Vec<Call> = Vec::new();
        let mut current = input_type;
        let mut i: usize = 0;
        proof {
            assert(jobs_view(dependencies@).take(base as int) =~= jobs_view(dependencies@));
            assert(added(dependencies@, old(dependencies)@) =~= Seq::<Seq<CallView>>::empty());
            assert(calls@.map_values(|c: Call| c@) =~= Seq::<CallView>::empty());
        }
        while i < self.calls.len()
            invariant
                i <= self.calls.len(),
                base == old(dependencies)@.len(),
                first == schema_view(input_type@),
                extends(dependencies@, old(dependencies)@),
                compiled_calls(self.calls@, first, base, i as nat) == Ok::<
                    (Seq<CallView>, Seq<Seq<CallView>>),
                    JobErrorView,
                >((calls@.map_values(|c: Call| c@), added(dependencies@, old(dependencies)@))),
                schema_view(current@) == if calls@.len() == 0 {
                    first
                } else {
                    calls@.last()@.output_type
                },
            decreases self.calls.len() - i,
        {
            let ghost before = dependencies@;
            let ghost so_far = calls@.map_values(|c: Call| c@);
            proof {
                if calls@.len() > 0 {
                    assert(so_far.last() == calls@.last()@);
                }
            }
            match self.calls[i].call(current, dependencies) {
                Err(e) => {
                    proof {
                        lemma_calls_fail(
                            self.calls@,
                            first,
                            base,
                            (i + 1) as nat,
                            self.calls@.len(),
                        );
                        lemma_extends(dependencies@, before, old(dependencies)@);
                    }
                    return Err(e);
                },
                Ok(call) => {
                    current = clone_schema(call.get_output_type());
                    proof {
                        lemma_extends(dependencies@, before, old(dependencies)@);
                        assert(calls@.push(call).map_values(|c: Call| c@) =~= so_far.push(call@));
                    }
                    calls.push(call);
                },
            }
            i += 1;
        }
        Ok(Job { calls })
    }
}

proof fn lemma_extends(after: Seq<Job>, middle: Seq<Job>, before: Seq<Job>)
    requires
        extends(after, middle),
        extends(middle, before),
    ensures
        extends(after, before),
        added(after, before) == added(middle, before) + added(after, middle),
{
    let n = before.len() as int;
    let m = middle.len() as int;
    assert(jobs_view(after).take(n) =~= jobs_view(after).take(m).take(n));
    assert(jobs_view(after).skip(n) =~= jobs_view(after).take(m).skip(n) + jobs_view(after).skip(m));
}

impl CallDefinition {
    /// Compiles the call on an input of the columns `input_type`: resolves each
    /// argument in turn, then binds the arguments to the command. A nested pipeline
    /// is not run: it is compiled to a job, which is added to `dependencies` after
    /// the jobs that it depends on itself, and the argument holds its position in
    /// that list. The first argument that fails decides the error; the jobs that
    /// were added before it stay in the list.
    pub fn call(&self, input_type: Vec<ColumnType>, dependencies: &mut Vec<Job>) -> (r: Result<
        Call,
        JobError,
    >)
        ensures
            extends(final(dependencies)@, old(dependencies)@),
            match r {
                Ok(call) => compiled_call(
                    *self,
                    schema_view(input_type@),
                    old(dependencies)@.len(),
                ) == Ok::<(CallView, Seq<Seq<CallView>>), JobErrorView>(
                    (call@, added(final(dependencies)@, old(dependencies)@)),
                ),
                Err(e) => compiled_call(*self, schema_view(input_type@), old(dependencies)@.len())
                    == Err::<(CallView, Seq<Seq<CallView>>), JobErrorView>(e@),
            },
        decreases self,
    {
        let ghost base = dependencies@.len();
        let mut args: Vec<Argument> = Vec::new();
        let mut i: usize = 0;
        proof {
            assert(jobs_view(dependencies@).take(base as int) =~= jobs_view(dependencies@));
            assert(added(dependencies@, old(dependencies)@) =~= Seq::<Seq<CallView>>::empty());
            assert(crate::data::argument::arguments_view(args@) =~= Seq::<ArgumentView>::empty());
        }
        while i < self.arguments.len()
            invariant
                i <= self.arguments.len(),
                base == old(dependencies)@.len(),
                extends(dependencies@, old(dependencies)@),
                compiled_arguments(self.arguments@, base, i as nat) == Ok::<
                    (Seq<ArgumentView>, Seq<Seq<CallView>>),
                    JobErrorView,
                >(
                    (
                        crate::data::argument::arguments_view(args@),
                        added(dependencies@, old(dependencies)@),
                    ),
                ),
            decreases self.arguments.len() - i,
        {
            let ghost before = dependencies@;
            let ghost so_far = crate::data::argument::arguments_view(args@);
            match compile_argument(&self.arguments[i], dependencies) {
                Err(e) => {
                    proof {
                        lemma_arguments_fail(
                            self.arguments@,
                            base,
                            (i + 1) as nat,
                            self.arguments@.len(),
                        );
                        lemma_extends(dependencies@, before, old(dependencies)@);
                    }
                    return Err(e);
                },
                Ok(argument) => {
                    proof {
                        lemma_extends(dependencies@, before, old(dependencies)@);
                        assert(crate::data::argument::arguments_view(args@.push(argument))
                            =~= so_far.push(argument@));
                    }
                    args.push(argument);
                },
            }
            i += 1;
        }
        self.command.call(input_type, args)
    }
}

} // verus!
