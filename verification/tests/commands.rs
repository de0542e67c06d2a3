use crush::commands::mutation::mutate;
use crush::commands::{
    Call, CallDefinition, Completion, Exec, Execution, Job, JobDefinition, JobResult, Mutation,
    Transform,
};
use crush::data::{Argument, BaseArgument, Cell, CellType, ColumnType, Command};
use crush::errors::{error, ErrorKind};
use crush::job::CellDefinition;
use crush::printer::Printer;
use crush::state::State;
use crush::stream::streams;

fn schema() -> Vec<ColumnType> {
    vec![ColumnType::named("name", CellType::Text)]
}

fn literal(cell: Cell) -> BaseArgument<CellDefinition> {
    BaseArgument { name: None, cell: CellDefinition::Literal(cell) }
}

fn named(name: &str, cell: Cell) -> BaseArgument<CellDefinition> {
    BaseArgument { name: Some(name.to_string()), cell: CellDefinition::Literal(cell) }
}

fn pipeline(calls: Vec<CallDefinition>) -> BaseArgument<CellDefinition> {
    BaseArgument { name: None, cell: CellDefinition::Pipeline(JobDefinition { calls }) }
}

fn definition(name: &str, arguments: Vec<BaseArgument<CellDefinition>>) -> CallDefinition {
    CallDefinition { arguments, command: Command::new(name, Exec::Run(Transform::Filter)) }
}

fn strict(name: &str, parameters: Vec<CellType>, output: Option<Vec<ColumnType>>) -> Command {
    Command {
        name: name.to_string(),
        execution: Exec::Run(Transform::Head),
        parameters: Some(parameters),
        output,
    }
}

#[test]
fn join_returns_the_result_of_the_unit_unchanged() {
    assert!(JobResult::Async(Completion::Returned(Ok(()))).join().is_ok());
    let e = JobResult::Async(Completion::Returned(Err(error("E"))))
        .join()
        .unwrap_err();
    assert_eq!(e.kind, ErrorKind::Generic);
    assert_eq!(e.message, "E");
    let e = JobResult::Async(Completion::Returned(Err(crush::errors::type_error("T"))))
        .join()
        .unwrap_err();
    assert_eq!(e.kind, ErrorKind::Type);
    assert_eq!(e.message, "T");
}

#[test]
fn join_returns_a_sync_result_unchanged() {
    assert!(JobResult::Sync(Ok(())).join().is_ok());
    let e = JobResult::Sync(Err(crush::errors::argument_error("A")))
        .join()
        .unwrap_err();
    assert_eq!(e.kind, ErrorKind::Argument);
    assert_eq!(e.message, "A");
}

#[test]
fn join_turns_a_fault_into_an_execution_error() {
    let e = JobResult::Async(Completion::Faulted).join().unwrap_err();
    assert_eq!(e.kind, ErrorKind::Execution);
    assert_eq!(e.message, "Error while waiting for command to finish");
}

#[test]
fn command_call_binds_any_arguments_where_none_are_declared() {
    let command = Command::new("filter", Exec::Run(Transform::Filter));
    let call: Call = command
        .call(schema(), vec![Argument::unnamed(Cell::Integer(1))])
        .unwrap();
    assert_eq!(call.get_name(), "filter");
    assert_eq!(call.get_arguments().len(), 1);
    assert_eq!(call.get_arguments()[0].cell, Cell::Integer(1));
    assert_eq!(call.get_input_type().len(), 1);
    assert_eq!(call.get_input_type()[0].name, "name");
    assert_eq!(call.get_output_type().len(), 1);
    assert_eq!(call.get_output_type()[0].name, "name");
    assert_eq!(call.get_output_type()[0].cell_type, CellType::Text);
    assert_eq!(call.get_exec(), Exec::Run(Transform::Filter));
}

#[test]
fn command_call_checks_arity_and_types() {
    let out = vec![ColumnType::named("n", CellType::Integer)];
    let command = strict("head", vec![CellType::Integer, CellType::Text], Some(out));
    let call = command
        .call(
            schema(),
            vec![Argument::unnamed(Cell::Integer(1)), Argument::named("t", Cell::text("x"))],
        )
        .unwrap();
    assert_eq!(call.get_output_type().len(), 1);
    assert_eq!(call.get_output_type()[0].name, "n");
    assert_eq!(call.get_arguments()[1].name, Some("t".to_string()));
    let e = command
        .call(schema(), vec![Argument::unnamed(Cell::Integer(1))])
        .err()
        .unwrap();
    assert_eq!(e.kind, ErrorKind::Argument);
    assert_eq!(e.message, "Wrong number of arguments");
    let e = command
        .call(
            schema(),
            vec![Argument::unnamed(Cell::Integer(1)), Argument::unnamed(Cell::Integer(2))],
        )
        .err()
        .unwrap();
    assert_eq!(e.kind, ErrorKind::Argument);
    assert_eq!(e.message, "Wrong argument type");
    let e = strict("pwd", vec![], None)
        .call(schema(), vec![Argument::unnamed(Cell::Integer(1))])
        .err()
        .unwrap();
    assert_eq!(e.message, "Wrong number of arguments");
}

#[test]
fn call_resolves_literal_arguments() {
    let def = definition("filter", vec![literal(Cell::Integer(1)), named("k", Cell::text("v"))]);
    let mut dependencies: Vec<Job> = Vec::new();
    let call = def.call(schema(), &mut dependencies).unwrap();
    assert!(dependencies.is_empty());
    assert_eq!(call.get_arguments().len(), 2);
    assert_eq!(call.get_arguments()[0].name, None);
    assert_eq!(call.get_arguments()[0].cell, Cell::Integer(1));
    assert_eq!(call.get_arguments()[1].name, Some("k".to_string()));
    assert_eq!(call.get_arguments()[1].cell, Cell::text("v"));
}

#[test]
fn call_schedules_a_nested_pipeline_as_a_dependency() {
    let inner = vec![definition("ls", vec![]), definition("sort", vec![literal(Cell::Integer(3))])];
    let def = definition("cat", vec![literal(Cell::Integer(1)), pipeline(inner)]);
    let mut dependencies: Vec<Job> = Vec::new();
    let call = def.call(schema(), &mut dependencies).unwrap();
    assert_eq!(call.get_arguments()[1].cell, Cell::Output(0));
    assert_eq!(dependencies.len(), 1);
    assert_eq!(dependencies[0].calls.len(), 2);
    assert_eq!(dependencies[0].calls[0].get_name(), "ls");
    assert_eq!(dependencies[0].calls[0].get_input_type().len(), 0);
    assert_eq!(dependencies[0].calls[1].get_name(), "sort");
    assert_eq!(dependencies[0].calls[1].get_arguments()[0].cell, Cell::Integer(3));
}

#[test]
fn call_appends_to_the_dependencies_that_are_there() {
    let mut dependencies: Vec<Job> = vec![Job { calls: vec![] }, Job { calls: vec![] }];
    let innermost = vec![definition("pwd", vec![])];
    let inner = vec![definition("cat", vec![pipeline(innermost)])];
    let def = definition(
        "join",
        vec![pipeline(inner), pipeline(vec![definition("ls", vec![])])],
    );
    let call = def.call(schema(), &mut dependencies).unwrap();
    assert_eq!(dependencies.len(), 5);
    assert_eq!(dependencies[2].calls[0].get_name(), "pwd");
    assert_eq!(dependencies[3].calls[0].get_name(), "cat");
    assert_eq!(dependencies[3].calls[0].get_arguments()[0].cell, Cell::Output(2));
    assert_eq!(dependencies[4].calls[0].get_name(), "ls");
    assert_eq!(call.get_arguments()[0].cell, Cell::Output(3));
    assert_eq!(call.get_arguments()[1].cell, Cell::Output(4));
}

#[test]
fn call_fails_where_a_nested_call_does_not_bind() {
    let bad = CallDefinition {
        arguments: vec![literal(Cell::Integer(1))],
        command: strict("pwd", vec![], None),
    };
    let def = definition("cat", vec![pipeline(vec![definition("ls", vec![])]), pipeline(vec![bad])]);
    let mut dependencies: Vec<Job> = Vec::new();
    let e = def.call(schema(), &mut dependencies).err().unwrap();
    assert_eq!(e.kind, ErrorKind::Argument);
    assert_eq!(e.message, "Wrong number of arguments");
    assert_eq!(dependencies.len(), 1);
}

#[test]
fn job_definition_feeds_each_call_the_output_of_the_one_before() {
    let wide = vec![
        ColumnType::named("a", CellType::Integer),
        ColumnType::named("b", CellType::Integer),
    ];
    let job = JobDefinition {
        calls: vec![
            CallDefinition { arguments: vec![], command: strict("first", vec![], Some(wide)) },
            definition("second", vec![]),
        ],
    };
    let mut dependencies: Vec<Job> = Vec::new();
    let compiled = job.compile(schema(), &mut dependencies).unwrap();
    assert_eq!(compiled.calls.len(), 2);
    assert_eq!(compiled.calls[0].get_input_type().len(), 1);
    assert_eq!(compiled.calls[0].get_output_type().len(), 2);
    assert_eq!(compiled.calls[1].get_input_type().len(), 2);
    assert_eq!(compiled.calls[1].get_input_type()[1].name, "b");
    assert_eq!(compiled.calls[1].get_output_type().len(), 2);
}

#[test]
fn executing_a_transform_asks_for_a_unit() {
    let mut state = State::new();
    let (printer, _receiver) = Printer::new();
    let (output, input) = streams();
    let call = Command::new("filter", Exec::Run(Transform::Filter))
        .call(schema(), vec![Argument::unnamed(Cell::Integer(1))])
        .unwrap();
    match call.execute(&mut state, &printer, input, output) {
        Execution::Spawn(unit) => {
            assert_eq!(unit.name, "filter");
            assert_eq!(unit.transform, Transform::Filter);
            assert_eq!(unit.input_type.len(), 1);
            assert_eq!(unit.context.arguments.len(), 1);
            assert_eq!(unit.context.arguments[0].cell, Cell::Integer(1));
        }
        Execution::Done(_) => panic!("a transform is not run by its caller"),
    }
    assert_eq!(state.scope.get("x"), None);
}

#[test]
fn executing_mutations_never_asks_for_a_unit() {
    let mut state = State::new();
    let (printer, _receiver) = Printer::new();
    let mut spawned = 0;
    for i in 0..20 {
        let (output, input) = streams();
        let call = Command::new("let", Exec::Mutate(Mutation::LetVariable))
            .call(schema(), vec![Argument::named("x", Cell::Integer(i))])
            .unwrap();
        match call.execute(&mut state, &printer, input, output) {
            Execution::Spawn(_) => spawned += 1,
            Execution::Done(JobResult::Sync(r)) => assert!(r.is_ok()),
            Execution::Done(JobResult::Async(_)) => spawned += 1,
        }
        assert_eq!(state.scope.get("x"), Some(Cell::Integer(i)));
    }
    assert_eq!(spawned, 0);
}

#[test]
fn a_failing_mutation_returns_its_error_at_once() {
    let mut state = State::new();
    let (printer, _receiver) = Printer::new();
    let (output, input) = streams();
    let call = Command::new("set", Exec::Mutate(Mutation::SetVariable))
        .call(schema(), vec![Argument::named("x", Cell::Integer(1))])
        .unwrap();
    match call.execute(&mut state, &printer, input, output) {
        Execution::Done(result) => {
            let e = result.join().unwrap_err();
            assert_eq!(e.message, "Unknown variable");
        }
        Execution::Spawn(_) => panic!("a mutation is run by its caller"),
    }
}

#[test]
fn let_set_and_unset_change_the_variables() {
    let mut state = State::new();
    let args = vec![Argument::named("a", Cell::Integer(1)), Argument::named("b", Cell::text("x"))];
    mutate(Mutation::LetVariable, &mut state, &args).unwrap();
    assert_eq!(state.scope.get("a"), Some(Cell::Integer(1)));
    assert_eq!(state.scope.get("b"), Some(Cell::text("x")));
    mutate(Mutation::SetVariable, &mut state, &vec![Argument::named("a", Cell::Integer(2))]).unwrap();
    assert_eq!(state.scope.get("a"), Some(Cell::Integer(2)));
    let names = vec![
        Argument::unnamed(Cell::Field("a".to_string())),
        Argument::unnamed(Cell::text("b")),
    ];
    mutate(Mutation::UnsetVariable, &mut state, &names).unwrap();
    assert_eq!(state.scope.get("a"), None);
    assert_eq!(state.scope.get("b"), None);
    mutate(Mutation::LetVariable, &mut state, &vec![]).unwrap();
}

#[test]
fn a_mutation_stops_at_its_first_failing_argument() {
    let mut state = State::new();
    let args = vec![
        Argument::named("a", Cell::Integer(1)),
        Argument::unnamed(Cell::Integer(2)),
        Argument::named("c", Cell::Integer(3)),
    ];
    let e = mutate(Mutation::LetVariable, &mut state, &args).unwrap_err();
    assert_eq!(e.kind, ErrorKind::Argument);
    assert_eq!(e.message, "Missing variable name");
    assert_eq!(state.scope.get("a"), Some(Cell::Integer(1)));
    assert_eq!(state.scope.get("c"), None);
    let e = mutate(
        Mutation::SetVariable,
        &mut state,
        &vec![Argument::unnamed(Cell::Integer(2))],
    )
    .unwrap_err();
    assert_eq!(e.message, "Missing variable name");
    let e = mutate(
        Mutation::UnsetVariable,
        &mut state,
        &vec![Argument::unnamed(Cell::Integer(2))],
    )
    .unwrap_err();
    assert_eq!(e.message, "Expected a variable name");
    let e = mutate(
        Mutation::UnsetVariable,
        &mut state,
        &vec![Argument::unnamed(Cell::text("zz"))],
    )
    .unwrap_err();
    assert_eq!(e.message, "Unknown variable");
    state.scope.own.readonly();
    let e = mutate(
        Mutation::LetVariable,
        &mut state,
        &vec![Argument::named("n", Cell::Integer(2))],
    )
    .unwrap_err();
    assert_eq!(e.message, "Namespace is read only");
}

#[test]
fn cd_takes_one_directory() {
    let mut state = State::new();
    mutate(Mutation::Cd, &mut state, &vec![Argument::unnamed(Cell::File(b"/tmp".to_vec()))])
        .unwrap();
    assert_eq!(state.directory, b"/tmp".to_vec());
    mutate(Mutation::Cd, &mut state, &vec![Argument::unnamed(Cell::text("/é"))]).unwrap();
    assert_eq!(state.directory, "/é".as_bytes().to_vec());
    let e = mutate(Mutation::Cd, &mut state, &vec![]).unwrap_err();
    assert_eq!(e.kind, ErrorKind::Argument);
    assert_eq!(e.message, "Wrong number of arguments");
    let e = mutate(Mutation::Cd, &mut state, &vec![Argument::unnamed(Cell::Integer(1))]).unwrap_err();
    assert_eq!(e.message, "Expected a directory");
    assert_eq!(state.directory, "/é".as_bytes().to_vec());
}

#[test]
fn command_same_compares_every_part() {
    let a = Command::new("ls", Exec::Run(Transform::Ls));
    assert!(a.same(&a.clone()));
    assert!(!a.same(&Command::new("ls", Exec::Run(Transform::Find))));
    assert!(!a.same(&Command::new("lt", Exec::Run(Transform::Ls))));
    assert!(!a.same(&strict("ls", vec![], None)));
    let b = strict("x", vec![CellType::Text], Some(schema()));
    assert!(b.same(&b.clone()));
    assert!(!b.same(&strict("x", vec![CellType::Integer], Some(schema()))));
    assert!(!b.same(&strict("x", vec![CellType::Text], Some(vec![]))));
}
