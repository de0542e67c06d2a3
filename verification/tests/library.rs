use crush::commands::ExecutionContext;
use crush::data::{Argument, Cell, CellType, ColumnType, Duration, Row};
use crush::errors::ErrorKind;
use crush::library::input::csv::{csv, parse_line, read_lines, Csv};
use crush::library::ps::{
    perform as ps_perform, process_row, run as ps_run, state_name, CommandLine, Process,
    ProcessState,
};
use crush::library::stream::reverse::{perform as reverse_perform, reverse, run as reverse_run};
use crush::printer::Printer;
use crush::stream::{streams, InputStream, OutputStream};

fn schema() -> Vec<ColumnType> {
    vec![
        ColumnType::named("name", CellType::Text),
        ColumnType::named("age", CellType::Integer),
    ]
}

fn pipe(columns: Vec<ColumnType>) -> (OutputStream, InputStream) {
    let (mut output, mut input) = streams();
    let writer = output.initialize(columns).unwrap();
    let reader = input.initialize().unwrap();
    (writer, reader)
}

fn drain(input: &mut InputStream) -> Vec<Row> {
    let mut rows = Vec::new();
    while let Ok(r) = input.recv() {
        rows.push(r);
    }
    rows
}

fn row(name: &str, age: i128) -> Row {
    Row::new(vec![Cell::text(name), Cell::Integer(age)])
}

#[test]
fn reverse_writes_the_rows_last_first() {
    let (mut source, mut input) = pipe(schema());
    for i in 0..10 {
        source.send(row("r", i)).unwrap();
    }
    drop(source);
    let (mut output, mut sink) = pipe(schema());
    reverse(&mut input, &mut output).unwrap();
    drop(output);
    let expected: Vec<Row> = (0..10).rev().map(|i| row("r", i)).collect();
    assert_eq!(drain(&mut sink), expected);
}

#[test]
fn reverse_of_nothing_is_nothing() {
    let (source, mut input) = pipe(schema());
    drop(source);
    let (mut output, mut sink) = pipe(schema());
    reverse(&mut input, &mut output).unwrap();
    drop(output);
    assert!(drain(&mut sink).is_empty());
}

#[test]
fn reverse_stops_without_an_error_when_the_output_is_gone() {
    let (mut source, mut input) = pipe(schema());
    source.send(row("a", 1)).unwrap();
    source.send(row("b", 2)).unwrap();
    drop(source);
    let (mut output, sink) = pipe(schema());
    drop(sink);
    assert!(reverse(&mut input, &mut output).is_ok());
    assert_eq!(input.recv().unwrap_err().message, "End of stream");
    assert_eq!(output.send(row("c", 3)).unwrap_err().message, "Broken pipe");
}

#[test]
fn reverse_run_commits_the_output_to_the_columns_of_the_input() {
    let (mut source, mut input) = pipe(schema());
    source.send(row("a", 1)).unwrap();
    source.send(row("b", 2)).unwrap();
    drop(source);
    let (mut sender, mut receiver) = streams();
    reverse_run(&mut input, &mut sender).unwrap();
    let mut sink = receiver.initialize().unwrap();
    assert_eq!(sink.get_type().len(), 2);
    assert_eq!(sink.get_type()[1].name, "age");
    drop(sender);
    assert_eq!(drain(&mut sink), vec![row("b", 2), row("a", 1)]);
    let (mut gone, reader) = streams();
    drop(reader);
    let e = reverse_run(&mut input, &mut gone).unwrap_err();
    assert_eq!(e.message, "Broken pipe");
    let e = reverse_run(&mut input, &mut gone).unwrap_err();
    assert_eq!(e.message, "Stream already initialized");
}

#[test]
fn reverse_perform_runs_from_a_context() {
    let (mut up_out, up_in) = streams();
    let mut source = up_out.initialize(schema()).unwrap();
    for i in 0..3 {
        source.send(row("r", i)).unwrap();
    }
    drop(source);
    let (down_out, mut down_in) = streams();
    let (printer, _reports) = Printer::new();
    let context = ExecutionContext { input: up_in, output: down_out, arguments: vec![], printer };
    reverse_perform(context).unwrap();
    let mut sink = down_in.initialize().unwrap();
    assert_eq!(drain(&mut sink), vec![row("r", 2), row("r", 1), row("r", 0)]);
}

fn process(pid: i32, command_line: CommandLine) -> Process {
    Process {
        pid,
        ppid: 1,
        state: ProcessState::Sleeping,
        user: "root".to_string(),
        cpu: 1_500_000,
        command_line,
        comm: "kthreadd".to_string(),
    }
}

#[test]
fn state_name_names_each_state() {
    assert_eq!(state_name(ProcessState::Running), "Running");
    assert_eq!(state_name(ProcessState::Sleeping), "Sleeping");
    assert_eq!(state_name(ProcessState::Waiting), "Waiting");
    assert_eq!(state_name(ProcessState::Stopped), "Stopped");
    assert_eq!(state_name(ProcessState::Traced), "Traced");
    assert_eq!(state_name(ProcessState::Paging), "Paging");
    assert_eq!(state_name(ProcessState::Dead), "Dead");
    assert_eq!(state_name(ProcessState::Zombie), "Zombie");
    assert_eq!(state_name(ProcessState::Idle), "Idle");
}

#[test]
fn process_row_lists_a_process() {
    let words = CommandLine::Words(vec!["/sbin/init".to_string(), "splash".to_string()]);
    let r = process_row(&process(7, words));
    assert_eq!(
        r,
        Row::new(vec![
            Cell::Integer(7),
            Cell::Integer(1),
            Cell::text("Sleeping"),
            Cell::text("root"),
            Cell::Duration(Duration { nanos: 1_500_000_000 }),
            Cell::text("/sbin/init"),
        ])
    );
}

#[test]
fn process_row_names_a_process_without_a_command_line() {
    assert_eq!(process_row(&process(2, CommandLine::Missing)).cells[5], Cell::text("[kthreadd]"));
    assert_eq!(
        process_row(&process(2, CommandLine::Words(vec![]))).cells[5],
        Cell::text("[kthreadd]")
    );
    assert_eq!(
        process_row(&process(2, CommandLine::Illegal)).cells[5],
        Cell::text("<Illegal name>")
    );
}

#[test]
fn ps_perform_writes_one_row_for_each_process() {
    let (output, mut input) = streams();
    let (_unused_out, unused_in) = streams();
    let (printer, _reports) = Printer::new();
    let context = ExecutionContext { input: unused_in, output, arguments: vec![], printer };
    let processes = vec![
        process(1, CommandLine::Words(vec!["init".to_string()])),
        process(2, CommandLine::Missing),
    ];
    ps_perform(context, &processes).unwrap();
    let mut sink = input.initialize().unwrap();
    let names: Vec<String> = sink.get_type().iter().map(|c| c.name.clone()).collect();
    assert_eq!(names, vec!["pid", "ppid", "status", "user", "cpu", "name"]);
    let types: Vec<CellType> = sink.get_type().iter().map(|c| c.cell_type).collect();
    assert_eq!(
        types,
        vec![
            CellType::Integer,
            CellType::Integer,
            CellType::Text,
            CellType::Text,
            CellType::Duration,
            CellType::Text
        ]
    );
    let rows = drain(&mut sink);
    assert_eq!(rows, vec![process_row(&processes[0]), process_row(&processes[1])]);
}

#[test]
fn ps_run_stops_without_an_error_when_the_output_is_gone() {
    let (mut output, sink) = pipe(crush::library::ps::process_types());
    drop(sink);
    let listed = vec![process(1, CommandLine::Missing), process(2, CommandLine::Missing)];
    assert!(ps_run(&mut output, &listed).is_ok());
    let (mut output, _sink) = pipe(crush::library::ps::process_types());
    assert!(ps_run(&mut output, &vec![]).is_ok());
}

#[test]
fn ps_perform_fails_only_where_the_output_cannot_be_committed() {
    let (mut output, input) = streams();
    let (_unused_out, unused_in) = streams();
    let (printer, _reports) = Printer::new();
    let _first = output.initialize(crush::library::ps::process_types()).unwrap();
    let context = ExecutionContext { input: unused_in, output, arguments: vec![], printer };
    let e = ps_perform(context, &vec![]).unwrap_err();
    assert_eq!(e.message, "Stream already initialized");
    drop(input);
    let (output, input) = streams();
    drop(input);
    let (_unused_out, unused_in) = streams();
    let (printer, _reports) = Printer::new();
    let context = ExecutionContext { input: unused_in, output, arguments: vec![], printer };
    let e = ps_perform(context, &vec![process(1, CommandLine::Missing)]).unwrap_err();
    assert_eq!(e.message, "Broken pipe");
}

fn config(head: i128, trim: Option<char>) -> Csv {
    Csv { files: vec![], columns: schema(), separator: ',', head, trim }
}

#[test]
fn parse_line_splits_trims_and_reads() {
    let r = parse_line(&schema(), ',', None, "bob,42\n").unwrap();
    assert_eq!(r, row("bob", 42));
    let r = parse_line(&schema(), ';', Some('"'), "\"bob\";\"42\"\n").unwrap();
    assert_eq!(r, row("bob", 42));
    let r = parse_line(&schema(), ',', Some(' '), "  a b  , 7 \n").unwrap();
    assert_eq!(r, row("a b", 7));
    let r = parse_line(&schema(), ',', Some('x'), "xxx,1\n").unwrap();
    assert_eq!(r, row("", 1));
    let r = parse_line(&schema(), ',', None, ",-1\n").unwrap();
    assert_eq!(r, row("", -1));
}

#[test]
fn parse_line_drops_the_last_character_whatever_it_is() {
    let r = parse_line(&schema(), ',', None, "bob,423").unwrap();
    assert_eq!(r, row("bob", 42));
    let one = vec![ColumnType::named("only", CellType::Text)];
    assert_eq!(parse_line(&one, ',', None, "").unwrap(), Row::new(vec![Cell::text("")]));
    assert_eq!(parse_line(&one, ',', None, "\n").unwrap(), Row::new(vec![Cell::text("")]));
}

#[test]
fn parse_line_fails_on_the_wrong_number_of_values() {
    for line in ["bob\n", "bob,1,2\n", "\n", ",,\n"] {
        let e = parse_line(&schema(), ',', None, line).unwrap_err();
        assert_eq!(e.kind, ErrorKind::Generic);
        assert_eq!(e.message, "csv: Wrong number of columns in CSV file");
    }
}

#[test]
fn parse_line_fails_on_a_value_of_the_wrong_type() {
    let e = parse_line(&schema(), ',', None, "bob,old\n").unwrap_err();
    assert_eq!(e.kind, ErrorKind::Type);
    assert_eq!(e.message, "Invalid integer");
    let e = parse_line(&schema(), ',', None, "bob, 4\n").unwrap_err();
    assert_eq!(e.message, "Invalid integer");
}

fn lines(text: &[&str]) -> Vec<String> {
    text.iter().map(|l| l.to_string()).collect()
}

#[test]
fn read_lines_writes_a_row_for_each_line() {
    let (mut output, mut sink) = pipe(schema());
    read_lines(&config(0, None), &lines(&["a,1\n", "b,2\n", "c,3\n"]), &mut output).unwrap();
    drop(output);
    assert_eq!(drain(&mut sink), vec![row("a", 1), row("b", 2), row("c", 3)]);
}

#[test]
fn read_lines_passes_over_the_head() {
    let text = lines(&["name,age\n", "a,1\n", "b,2\n"]);
    let (mut output, mut sink) = pipe(schema());
    read_lines(&config(1, None), &text, &mut output).unwrap();
    drop(output);
    assert_eq!(drain(&mut sink), vec![row("a", 1), row("b", 2)]);
    for head in [3, 4, 1000, -1] {
        let (mut output, mut sink) = pipe(schema());
        read_lines(&config(head, None), &text, &mut output).unwrap();
        drop(output);
        assert!(drain(&mut sink).is_empty());
    }
}

#[test]
fn read_lines_ends_at_an_empty_line() {
    let (mut output, mut sink) = pipe(schema());
    read_lines(&config(0, None), &lines(&["a,1\n", "", "oops\n"]), &mut output).unwrap();
    drop(output);
    assert_eq!(drain(&mut sink), vec![row("a", 1)]);
}

#[test]
fn read_lines_fails_at_the_first_bad_line_after_the_rows_before_it() {
    let (mut output, mut sink) = pipe(schema());
    let e = read_lines(
        &config(0, None),
        &lines(&["a,1\n", "b\n", "c,3\n"]),
        &mut output,
    )
    .unwrap_err();
    assert_eq!(e.message, "csv: Wrong number of columns in CSV file");
    drop(output);
    assert_eq!(drain(&mut sink), vec![row("a", 1)]);
    let (mut output, _sink) = pipe(schema());
    let e = read_lines(&config(0, None), &lines(&["a,x\n"]), &mut output).unwrap_err();
    assert_eq!(e.kind, ErrorKind::Type);
}

#[test]
fn read_lines_stops_without_an_error_when_the_output_is_gone() {
    let (mut output, sink) = pipe(schema());
    drop(sink);
    assert!(read_lines(&config(0, None), &lines(&["a,1\n", "b,2\n"]), &mut output).is_ok());
    assert!(read_lines(&config(0, None), &lines(&["a,1\n", "b\n"]), &mut output).is_ok());
    assert!(read_lines(&config(0, None), &lines(&["a,1\n", "b,x\n"]), &mut output).is_ok());
}

#[test]
fn read_lines_returns_the_error_of_a_line_that_comes_before_any_row() {
    let (mut output, sink) = pipe(schema());
    drop(sink);
    let e = read_lines(&config(0, None), &lines(&["b\n", "a,1\n"]), &mut output).unwrap_err();
    assert_eq!(e.message, "csv: Wrong number of columns in CSV file");
    let e = read_lines(&config(1, None), &lines(&["a,1\n", "b,x\n"]), &mut output).unwrap_err();
    assert_eq!(e.message, "Invalid integer");
}

#[test]
fn csv_fails_only_before_the_first_row_or_on_a_bad_line() {
    let (mut output, _input) = streams();
    let _first = output.initialize(schema()).unwrap();
    let (_unused_out, unused_in) = streams();
    let (printer, _reports) = Printer::new();
    let context = ExecutionContext { input: unused_in, output, arguments: vec![], printer };
    let e = csv(context, &config(0, None), &lines(&["a,1\n"])).unwrap_err();
    assert_eq!(e.message, "Stream already initialized");
    let (output, _input) = streams();
    let (_unused_out, unused_in) = streams();
    let (printer, _reports) = Printer::new();
    let context = ExecutionContext { input: unused_in, output, arguments: vec![], printer };
    let e = csv(context, &config(0, None), &lines(&["a\n"])).unwrap_err();
    assert_eq!(e.message, "csv: Wrong number of columns in CSV file");
}

#[test]
fn csv_commits_the_output_and_reads() {
    let (output, mut input) = streams();
    let (_unused_out, unused_in) = streams();
    let (printer, _reports) = Printer::new();
    let context = ExecutionContext { input: unused_in, output, arguments: vec![], printer };
    csv(context, &config(1, Some(' ')), &lines(&["n,a\n", " x , 5 \n"])).unwrap();
    let mut sink = input.initialize().unwrap();
    assert_eq!(sink.get_type().len(), 2);
    assert_eq!(sink.get_type()[0].name, "name");
    assert_eq!(drain(&mut sink), vec![row("x", 5)]);
}

#[test]
fn csv_settings_come_from_the_arguments() {
    let cfg = Csv::parse(&vec![
        Argument::unnamed(Cell::File(b"a.csv".to_vec())),
        Argument::named("separator", Cell::text(";")),
        Argument::named("head", Cell::Integer(1)),
        Argument::named("name", Cell::Field("string".to_string())),
        Argument::named("age", Cell::text("integer")),
        Argument::named("trim", Cell::text("\"")),
        Argument::unnamed(Cell::File(b"b.csv".to_vec())),
    ])
    .unwrap();
    assert_eq!(cfg.files, vec![b"a.csv".to_vec(), b"b.csv".to_vec()]);
    assert_eq!(cfg.separator, ';');
    assert_eq!(cfg.head, 1);
    assert_eq!(cfg.trim, Some('"'));
    assert_eq!(cfg.columns.len(), 2);
    assert_eq!(cfg.columns[0].name, "name");
    assert_eq!(cfg.columns[0].cell_type, CellType::Text);
    assert_eq!(cfg.columns[1].name, "age");
    assert_eq!(cfg.columns[1].cell_type, CellType::Integer);
    let plain = Csv::parse(&vec![]).unwrap();
    assert_eq!(plain.separator, ',');
    assert_eq!(plain.head, 0);
    assert_eq!(plain.trim, None);
    assert!(plain.files.is_empty());
    assert!(plain.columns.is_empty());
}

#[test]
fn csv_settings_name_every_type() {
    let words = [
        ("string", CellType::Text),
        ("integer", CellType::Integer),
        ("file", CellType::File),
        ("glob", CellType::Glob),
        ("regex", CellType::Regex),
        ("duration", CellType::Duration),
    ];
    for (word, cell_type) in words {
        let cfg = Csv::parse(&vec![Argument::named("c", Cell::text(word))]).unwrap();
        assert_eq!(cfg.columns[0].cell_type, cell_type);
    }
}

#[test]
fn csv_settings_refuse_what_does_not_fit() {
    let cases = vec![
        (Argument::unnamed(Cell::text("a.csv")), "Expected a file"),
        (Argument::named("separator", Cell::text("ab")), "Expected a single character"),
        (Argument::named("separator", Cell::text("")), "Expected a single character"),
        (Argument::named("separator", Cell::Integer(1)), "Expected a single character"),
        (Argument::named("trim", Cell::text("xx")), "Expected a single character"),
        (Argument::named("head", Cell::text("1")), "Expected an integer"),
        (Argument::named("age", Cell::text("number")), "Expected a type"),
        (Argument::named("age", Cell::Integer(1)), "Expected a type"),
    ];
    for (argument, message) in cases {
        let e = Csv::parse(&vec![Argument::named("head", Cell::Integer(2)), argument]).unwrap_err();
        assert_eq!(e.kind, ErrorKind::Argument);
        assert_eq!(e.message, message);
    }
}

#[test]
fn reverse_perform_fails_only_where_a_stream_cannot_be_committed() {
    let (mut up_out, mut up_in) = streams();
    let _source = up_out.initialize(schema()).unwrap();
    let _taken = up_in.initialize().unwrap();
    let (down_out, _down_in) = streams();
    let (printer, _reports) = Printer::new();
    let context = ExecutionContext { input: up_in, output: down_out, arguments: vec![], printer };
    let e = reverse_perform(context).unwrap_err();
    assert_eq!(e.message, "Stream already initialized");
    let (mut up_out, up_in) = streams();
    let _source = up_out.initialize(schema()).unwrap();
    let (mut down_out, _down_in) = streams();
    let _first = down_out.initialize(schema()).unwrap();
    let (printer, _reports) = Printer::new();
    let context = ExecutionContext { input: up_in, output: down_out, arguments: vec![], printer };
    let e = reverse_perform(context).unwrap_err();
    assert_eq!(e.message, "Stream already initialized");
    let (up_out, up_in) = streams();
    drop(up_out);
    let (down_out, _down_in) = streams();
    let (printer, _reports) = Printer::new();
    let context = ExecutionContext { input: up_in, output: down_out, arguments: vec![], printer };
    let e = reverse_perform(context).unwrap_err();
    assert_eq!(e.message, "Broken pipe");
}
