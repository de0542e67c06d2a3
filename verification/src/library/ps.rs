use crate::commands::ExecutionContext;
use crate::data::cell::{Cell, CellView};
use crate::data::cell_type::{schema_view, CellType, ColumnType, ColumnTypeView};
use crate::data::duration::Duration;
use crate::data::row::{conforms, Row};
use crate::errors::JobError;
use crate::stream::{already_initialized, broken_pipe, OutputStream};
use vstd::prelude::*;
use vstd::string::StringExecFns;

verus! {

/// What a process is doing, as the operating system tells it.
#[derive(Clone, Copy, Debug, PartialEq, Eq, Structural)]
pub enum ProcessState {
    Running,
    Sleeping,
    Waiting,
    Stopped,
    Traced,
    Paging,
    Dead,
    Zombie,
    Idle,
}

/// What is known of the command line of a process.
#[derive(Debug)]
pub enum CommandLine {
    /// It could not be read.
    Illegal,
    /// The process has none.
    Missing,
    /// Its words, the program first.
    Words(Vec<String>),
}

/// One process, as it was read from the operating system.
#[derive(Debug)]
pub struct Process {
    pub pid: i32,
    pub ppid: i32,
    pub state: ProcessState,
    /// The name of the user that the process runs as.
    pub user: String,
    /// The processor time that the process has used, in microseconds.
    pub cpu: i64,
    pub command_line: CommandLine,
    /// The short name of the program.
    pub comm: String,
}

/// The word for a state.
pub open spec fn state_word(s: ProcessState) -> Seq<char> {
    match s {
        ProcessState::Running => "Running"@,
        ProcessState::Sleeping => "Sleeping"@,
        ProcessState::Waiting => "Waiting"@,
        ProcessState::Stopped => "Stopped"@,
        ProcessState::Traced => "Traced"@,
        ProcessState::Paging => "Paging"@,
        ProcessState::Dead => "Dead"@,
        ProcessState::Zombie => "Zombie"@,
        ProcessState::Idle => "Idle"@,
    }
}

/// The word for a state.
pub fn state_name(s: ProcessState) -> (name: &'static str)
    ensures
        name@ == state_word(s),
{
    match s {
        ProcessState::Running => "Running",
        ProcessState::Sleeping => "Sleeping",
        ProcessState::Waiting => "Waiting",
        ProcessState::Stopped => "Stopped",
        ProcessState::Traced => "Traced",
        ProcessState::Paging => "Paging",
        ProcessState::Dead => "Dead",
        ProcessState::Zombie => "Zombie",
        ProcessState::Idle => "Idle",
    }
}

/// The name that a process is listed under: the first word of its command line; the
/// short name of the program in square brackets where it has no command line; a
/// fixed text where the command line could not be read.
pub open spec fn listed_name(process: Process) -> Seq<char> {
    match process.command_line {
        CommandLine::Illegal => "<Illegal name>"@,
        CommandLine::Missing => "["@ + process.comm@ + "]"@,
        CommandLine::Words(words) => if words@.len() > 0 {
            words@[0]@
        } else {
            "["@ + process.comm@ + "]"@
        },
    }
}

/// The row that lists a process.
pub open spec fn listed(process: Process) -> Seq<CellView> {
    seq![
        CellView::Integer(process.pid as int),
        CellView::Integer(process.ppid as int),
        CellView::Text(state_word(process.state)),
        CellView::Text(process.user@),
        CellView::Duration(process.cpu * 1_000),
        CellView::Text(listed_name(process)),
    ]
}

/// The rows that list the processes, in their order.
pub open spec fn listing(processes: Seq<Process>) -> Seq<Seq<CellView>> {
    processes.map_values(|p: Process| listed(p))
}

/// The columns of a listing of processes.
pub open spec fn process_columns() -> Seq<ColumnTypeView> {
    seq![
        ColumnTypeView { name: "pid"@, cell_type: CellType::Integer },
        ColumnTypeView { name: "ppid"@, cell_type: CellType::Integer },
        ColumnTypeView { name: "status"@, cell_type: CellType::Text },
        ColumnTypeView { name: "user"@, cell_type: CellType::Text },
        ColumnTypeView { name: "cpu"@, cell_type: CellType::Duration },
        ColumnTypeView { name: "name"@, cell_type: CellType::Text },
    ]
}

fn bracketed(comm: &String) -> (name: String)
    ensures
        name@ == "["@ + comm@ + "]"@,
{
    let mut name = String::from_str("[");
    name.append(comm.as_str());
    name.append("]");
    name
}

/// The row that lists a process.
pub fn process_row(process: &Process) -> (row: Row)
    ensures
        row@ == listed(*process),
        conforms(row@, process_columns()),
{
    let name = match &process.command_line {
        CommandLine::Illegal => String::from_str("<Illegal name>"),
        CommandLine::Missing => bracketed(&process.comm),
        CommandLine::Words(words) => if words.len() > 0 {
            words[0].clone()
        } else {
            bracketed(&process.comm)
        },
    };
    let mut cells: Vec<Cell> = Vec::new();
    cells.push(Cell::Integer(process.pid as i128));
    cells.push(Cell::Integer(process.ppid as i128));
    cells.push(Cell::text(state_name(process.state)));
    cells.push(Cell::Text(process.user.clone()));
    cells.push(Cell::Duration(Duration::microseconds(process.cpu)));
    cells.push(Cell::Text(name));
    let row = Row::new(cells);
    assert(row@ =~= listed(*process));
    row
}

/// Writes one row for each process to the output, in their order. It stops at the
/// first row that the output does not take: the reader is gone, which is no error.
#[verifier::loop_isolation(false)]
pub fn run(output: &mut OutputStream, processes: &Vec<Process>) -> (r: Result<(), JobError>)
    requires
        old(output).schema() == process_columns(),
    ensures
        final(output).schema() == old(output).schema(),
        r is Ok,
        ({
            ||| {
                &&& final(output).sent() == old(output).sent() + listing(processes@)
                &&& final(output).is_open() == old(output).is_open()
            }
            ||| {
                &&& !final(output).is_open()
                &&& exists|k: int|
                    0 <= k < processes@.len() && final(output).sent() == old(output).sent()
                        + #[trigger] listing(processes@).take(k)
            }
        }),
{
    let ghost sent = output.sent();
    let ghost rows = listing(processes@);
    let mut i: usize = 0;
    proof {
        assert(sent + rows.take(0) =~= sent);
    }
    while i < processes.len()
        invariant
            i <= processes.len(),
            rows == listing(processes@),
            output.schema() == process_columns(),
            output.sent() == sent + rows.take(i as int),
            output.is_open() == old(output).is_open(),
        decreases processes.len() - i,
    {
        let row = process_row(&processes[i]);
        proof {
            assert(rows[i as int] == row@);
            assert(sent + rows.take(i + 1) =~= (sent + rows.take(i as int)).push(row@));
        }
        match output.send(row) {
            Ok(_) => {},
            Err(_) => {
                proof {
                    assert(output.sent() == sent + listing(processes@).take(i as int));
                }
                return Ok(());
            },
        }
        i += 1;
    }
    proof {
        assert(rows.take(processes@.len() as int) =~= rows);
    }
    Ok(())
}

/// The columns of a listing of processes.
pub fn process_types() -> (columns: Vec<ColumnType>)
    ensures
        schema_view(columns@) == process_columns(),
{
    let mut columns: Vec<ColumnType> = Vec::new();
    columns.push(ColumnType::named("pid", CellType::Integer));
    columns.push(ColumnType::named("ppid", CellType::Integer));
    columns.push(ColumnType::named("status", CellType::Text));
    columns.push(ColumnType::named("user", CellType::Text));
    columns.push(ColumnType::named("cpu", CellType::Duration));
    columns.push(ColumnType::named("name", CellType::Text));
    assert(schema_view(columns@) =~= process_columns());
    columns
}

/// Lists the processes: commits the output to the columns of a listing, then writes
/// one row for each process. It fails only where the output cannot be committed: on a
/// second initialization, and on a reader that is gone before.
pub fn perform(context: ExecutionContext, processes: &Vec<Process>) -> (r: Result<(), JobError>)
    ensures
        context.output.is_initialized() <==> (r matches Err(e) && e@ == already_initialized()),
        r matches Err(e) ==> e@ == already_initialized() || e@ == broken_pipe(),
{
    let mut context = context;
    let mut output = match context.output.initialize(process_types()) {
        Ok(output) => output,
        Err(e) => {
            return Err(e);
        },
    };
    run(&mut output, processes)
}

} // verus!
