pub mod laws;
pub mod parser;
pub mod token;

use crate::commands::filter::parser::{
    condition_fits, parse, parsed_condition, value_fits, Condition, ConditionView, Operator, Value,
    ValueView,
};
use crate::commands::CompileContext;
use crate::data::argument::{arguments_view, ArgumentView};
use crate::data::cell_type::{clone_schema, ColumnTypeView};
use crate::printer::Printer;
use crate::stream::{already_initialized, broken_pipe, InputStream, OutputStream};
use crate::data::cell::{Cell, CellView};
use crate::data::order::order_of;
use crate::data::regex::regex_accepts;
use crate::data::row::Row;
use crate::data::text::path_text;
use crate::errors::{comparison_error, match_error, ErrorKind, JobError, JobErrorView};
use crate::glob::glob_matches;
use std::cmp::Ordering;
use vstd::prelude::*;
use vstd::utf8::{decode_utf8, valid_utf8};

verus! {

/// The error for a path that does not spell a text.
pub open spec fn invalid_filename() -> JobErrorView {
    JobErrorView { kind: ErrorKind::Match, message: "Invalid filename"@ }
}

/// The error for a needle and a pattern that do not go together.
pub open spec fn invalid_match() -> JobErrorView {
    JobErrorView { kind: ErrorKind::Match, message: "Invalid match"@ }
}

/// The error for two cells without an order.
pub open spec fn incomparable() -> JobErrorView {
    JobErrorView { kind: ErrorKind::Comparison, message: "Cell types can't be compared"@ }
}

/// Whether `needle` matches `pattern`. A needle is a text or a path, a pattern a glob
/// or a regular expression; a path is matched by the text that it spells. Every other
/// pair is an invalid match, and a path that spells no text an invalid filename.
pub open spec fn matched(needle: CellView, pattern: CellView) -> Result<bool, JobErrorView> {
    match (needle, pattern) {
        (CellView::Text(s), CellView::Glob(p)) => Ok(glob_matches(p, s)),
        (CellView::File(f), CellView::Glob(p)) => if valid_utf8(f) {
            Ok(glob_matches(p, decode_utf8(f)))
        } else {
            Err(invalid_filename())
        },
        (CellView::Text(s), CellView::Regex(p)) => Ok(regex_accepts(p, s)),
        (CellView::File(f), CellView::Regex(p)) => if valid_utf8(f) {
            Ok(regex_accepts(p, decode_utf8(f)))
        } else {
            Err(invalid_filename())
        },
        _ => Err(invalid_match()),
    }
}

/// The cell that a side of a condition stands for in a row.
pub open spec fn operand(value: ValueView, row: Seq<CellView>) -> CellView {
    match value {
        ValueView::Cell(c) => c,
        ValueView::Field(i) => row[i],
    }
}

/// What an ordering operator makes of the order of its two sides.
pub open spec fn holds(operator: Operator, order: Ordering) -> bool {
    match operator {
        Operator::GreaterThan => order == Ordering::Greater,
        Operator::GreaterThanOrEqual => order != Ordering::Less,
        Operator::LessThan => order == Ordering::Less,
        Operator::LessThanOrEqual => order != Ordering::Greater,
        _ => false,
    }
}

/// Whether a row passes a condition. Equality never fails: cells of different
/// variants are unequal. An ordering operator fails on two cells without an order, a
/// match on a pair that cannot be matched.
pub open spec fn evaluated(condition: ConditionView, row: Seq<CellView>) -> Result<
    bool,
    JobErrorView,
> {
    let l = operand(condition.left, row);
    let r = operand(condition.right, row);
    match condition.operator {
        Operator::Equal => Ok(l == r),
        Operator::NotEqual => Ok(l != r),
        Operator::Match => matched(l, r),
        Operator::NotMatch => match matched(l, r) {
            Ok(b) => Ok(!b),
            Err(e) => Err(e),
        },
        _ => match order_of(l, r) {
            Some(order) => Ok(holds(condition.operator, order)),
            None => Err(incomparable()),
        },
    }
}

/// Whether two results say the same.
pub open spec fn same_result(r: Result<bool, JobError>, v: Result<bool, JobErrorView>) -> bool {
    match r {
        Ok(b) => v == Ok::<bool, JobErrorView>(b),
        Err(e) => v == Err::<bool, JobErrorView>(e@),
    }
}

/// Matches a needle against a pattern.
pub fn do_match(needle: &Cell, haystack: &Cell) -> (r: Result<bool, JobError>)
    ensures
        same_result(r, matched(needle@, haystack@)),
{
    match (needle, haystack) {
        (Cell::Text(s), Cell::Glob(pattern)) => Ok(pattern.matches(s.as_str())),
        (Cell::File(f), Cell::Glob(pattern)) => match path_text(f) {
            Some(s) => Ok(pattern.matches(s)),
            None => Err(match_error("Invalid filename")),
        },
        (Cell::Text(s), Cell::Regex(pattern)) => Ok(pattern.is_match(s.as_str())),
        (Cell::File(f), Cell::Regex(pattern)) => match path_text(f) {
            Some(s) => Ok(pattern.is_match(s)),
            None => Err(match_error("Invalid filename")),
        },
        _ => Err(match_error("Invalid match")),
    }
}

/// The cell that a side of a condition stands for in a row.
pub fn to_cell<'a>(value: &'a Value, row: &'a Row) -> (cell: &'a Cell)
    requires
        value_fits(value@, row@.len()),
    ensures
        cell@ == operand(value@, row@),
{
    match value {
        Value::Cell(c) => c,
        Value::Field(idx) => &row.cells[*idx],
    }
}

fn ordered(operator: Operator, l: &Cell, r: &Cell) -> (res: Result<bool, JobError>)
    requires
        operator != Operator::Equal,
        operator != Operator::NotEqual,
        operator != Operator::Match,
        operator != Operator::NotMatch,
    ensures
        same_result(
            res,
            match order_of(l@, r@) {
                Some(order) => Ok(holds(operator, order)),
                None => Err(incomparable()),
            },
        ),
{
    match l.partial_cmp(r) {
        Some(ord) => Ok(
            match operator {
                Operator::GreaterThan => matches!(ord, Ordering::Greater),
                Operator::GreaterThanOrEqual => !matches!(ord, Ordering::Less),
                Operator::LessThan => matches!(ord, Ordering::Less),
                _ => !matches!(ord, Ordering::Greater),
            },
        ),
        None => Err(comparison_error("Cell types can't be compared")),
    }
}

/// Tells whether a row passes a condition.
pub fn evaluate(condition: &Condition, row: &Row) -> (r: Result<bool, JobError>)
    requires
        condition_fits(condition@, row@.len()),
    ensures
        same_result(r, evaluated(condition@, row@)),
{
    match condition {
        Condition::Equal(l, r) => Ok(*to_cell(l, row) == *to_cell(r, row)),
        Condition::GreaterThan(l, r) => ordered(
            Operator::GreaterThan,
            to_cell(l, row),
            to_cell(r, row),
        ),
        Condition::GreaterThanOrEqual(l, r) => ordered(
            Operator::GreaterThanOrEqual,
            to_cell(l, row),
            to_cell(r, row),
        ),
        Condition::LessThan(l, r) => ordered(Operator::LessThan, to_cell(l, row), to_cell(r, row)),
        Condition::LessThanOrEqual(l, r) => ordered(
            Operator::LessThanOrEqual,
            to_cell(l, row),
            to_cell(r, row),
        ),
        Condition::NotEqual(l, r) => Ok(!(*to_cell(l, row) == *to_cell(r, row))),
        Condition::Match(l, r) => do_match(to_cell(l, row), to_cell(r, row)),
        Condition::NotMatch(l, r) => match do_match(to_cell(l, row), to_cell(r, row)) {
            Ok(b) => Ok(!b),
            Err(e) => Err(e),
        },
    }
}

/// The rows among `rows` that pass the condition, in their order.
pub open spec fn passing(condition: ConditionView, rows: Seq<Seq<CellView>>) -> Seq<Seq<CellView>>
    decreases rows.len(),
{
    if rows.len() == 0 {
        Seq::empty()
    } else {
        let before = passing(condition, rows.drop_last());
        if evaluated(condition, rows.last()) == Ok::<bool, JobErrorView>(true) {
            before.push(rows.last())
        } else {
            before
        }
    }
}

/// The errors of the rows among `rows` on which the condition fails, in their order.
pub open spec fn failures(condition: ConditionView, rows: Seq<Seq<CellView>>) -> Seq<JobErrorView>
    decreases rows.len(),
{
    if rows.len() == 0 {
        Seq::empty()
    } else {
        let before = failures(condition, rows.drop_last());
        match evaluated(condition, rows.last()) {
            Err(e) => before.push(e),
            Ok(_) => before,
        }
    }
}

/// A filter that is ready to run: its condition and the two ends of its streams.
pub struct Config {
    pub condition: Condition,
    pub input: InputStream,
    pub output: OutputStream,
}

impl Config {
    /// Whether the condition reads only columns that the input has, and the output
    /// has the columns of the input.
    pub open spec fn wf(&self) -> bool {
        &&& condition_fits(self.condition@, self.input.schema().len())
        &&& self.output.schema() == self.input.schema()
    }
}

/// Copies the rows that pass the condition from the input to the output, in their
/// order, until a read of the input fails, which is its end. A row on which the
/// condition fails is reported and left out. The filter stops before that at the
/// first row that the output does not take: the reader is gone, which is no error.
pub fn run(config: &mut Config, printer: &mut Printer) -> (r: Result<(), JobError>)
    requires
        old(config).wf(),
    ensures
        r is Ok,
        final(config).wf(),
        final(config).condition@ == old(config).condition@,
        final(config).input.schema() == old(config).input.schema(),
        old(config).input.received().len() <= final(config).input.received().len(),
        old(config).output.sent().len() <= final(config).output.sent().len(),
        ({
            let condition = old(config).condition@;
            let read = final(config).input.received().skip(
                old(config).input.received().len() as int,
            );
            let written = final(config).output.sent().skip(old(config).output.sent().len() as int);
            &&& final(config).input.received() == old(config).input.received() + read
            &&& final(config).output.sent() == old(config).output.sent() + written
            &&& final(printer).reported() == old(printer).reported() + failures(condition, read)
            &&& {
                ||| {
                    &&& final(config).input.reads_failed() == old(config).input.reads_failed() + 1
                    &&& written == passing(condition, read)
                    &&& final(config).output.is_open() == old(config).output.is_open()
                }
                ||| {
                    &&& final(config).input.reads_failed() == old(config).input.reads_failed()
                    &&& !final(config).output.is_open()
                    &&& read.len() > 0
                    &&& evaluated(condition, read.last()) == Ok::<bool, JobErrorView>(true)
                    &&& written == passing(condition, read.drop_last())
                }
            }
        }),
{
    let ghost condition = config.condition@;
    let ghost received = config.input.received();
    let ghost sent = config.output.sent();
    let ghost reported = printer.reported();
    let ghost mut read: Seq<Seq<CellView>> = Seq::empty();
    proof {
        assert(received + read =~= received);
        assert(sent + passing(condition, read) =~= sent);
        assert(reported + failures(condition, read) =~= reported);
    }
    loop
        invariant
            config.wf(),
            config.condition@ == condition,
            condition == old(config).condition@,
            config.input.schema() == old(config).input.schema(),
            received == old(config).input.received(),
            sent == old(config).output.sent(),
            config.input.reads_failed() == old(config).input.reads_failed(),
            config.output.is_open() == old(config).output.is_open(),
            reported == old(printer).reported(),
            config.input.received() == received + read,
            config.output.sent() == sent + passing(condition, read),
            printer.reported() == reported + failures(condition, read),
        decreases config.input.remaining(),
    {
        match config.input.recv() {
            Ok(row) => {
                let ghost longer = read.push(row@);
                proof {
                    assert(longer.drop_last() =~= read);
                    assert(longer.last() == row@);
                    assert(received + longer =~= (received + read).push(row@));
                }
                match evaluate(&config.condition, &row) {
                    Ok(val) => {
                        if val {
                            let taken = config.output.send(row);
                            if taken.is_err() {
                                proof {
                                    assert((received + longer).skip(received.len() as int) =~= longer);
                                    assert((sent + passing(condition, read)).skip(sent.len() as int)
                                        =~= passing(condition, read));
                                }
                                return Ok(());
                            }
                            proof {
                                assert(sent + passing(condition, longer) =~= (sent + passing(
                                    condition,
                                    read,
                                )).push(row@));
                            }
                        }
                    },
                    Err(e) => {
                        proof {
                            assert(reported + failures(condition, longer) =~= (reported + failures(
                                condition,
                                read,
                            )).push(e@));
                        }
                        printer.job_error(e);
                    },
                }
                proof {
                    read = longer;
                }
            },
            Err(_) => {
                proof {
                    assert((received + read).skip(received.len() as int) =~= read);
                    assert((sent + passing(condition, read)).skip(sent.len() as int) =~= passing(
                        condition,
                        read,
                    ));
                }
                return Ok(());
            },
        }
    }
}

/// A condition that cannot be read is an argument error, and so no error of a stream.
pub proof fn condition_errors_differ(schema: Seq<ColumnTypeView>, arguments: Seq<ArgumentView>)
    ensures
        parsed_condition(schema, arguments) matches Err(e) ==> e.kind == ErrorKind::Argument && e
            != already_initialized() && e != broken_pipe(),
{
}

/// Commits the two streams of a filter and reads its condition: waits for the columns
/// of the input, commits the output to the same columns, and reads the arguments
/// against them. Nothing is read from the input, and nothing written, where this
/// fails. A second initialization of either stream is refused, and nothing else gives
/// that error.
pub fn compile(context: &mut CompileContext) -> (r: Result<Config, JobError>)
    ensures
        final(context).arguments == old(context).arguments,
        final(context).printer == old(context).printer,
        final(context).input.is_initialized(),
        old(context).input.is_initialized() ==> (r matches Err(e) && e@ == already_initialized()),
        (r matches Err(e) && e@ == already_initialized()) ==> old(context).input.is_initialized()
            || old(context).output.is_initialized(),
        (!old(context).input.is_initialized() && old(context).output.is_initialized()) ==> r is Err,
        match r {
            Ok(config) => {
                &&& config.wf()
                &&& parsed_condition(config.input.schema(), arguments_view(old(context).arguments@))
                    == Ok::<ConditionView, JobErrorView>(config.condition@)
                &&& config.input.received() == Seq::<Seq<CellView>>::empty()
                &&& config.input.reads_failed() == 0
                &&& config.output.sent() == Seq::<Seq<CellView>>::empty()
                &&& config.output.is_open()
            },
            Err(e) => {
                ||| e@ == already_initialized()
                ||| e@ == broken_pipe()
                ||| exists|schema: Seq<ColumnTypeView>| #[trigger]
                    parsed_condition(schema, arguments_view(old(context).arguments@)) == Err::<
                        ConditionView,
                        JobErrorView,
                    >(e@)
            },
        },
{
    let input = match context.input.initialize() {
        Ok(input) => input,
        Err(e) => {
            return Err(e);
        },
    };
    let output = match context.output.initialize(clone_schema(input.get_type())) {
        Ok(output) => output,
        Err(e) => {
            return Err(e);
        },
    };
    proof {
        condition_errors_differ(input.schema(), arguments_view(context.arguments@));
    }
    match parse(input.get_type(), &context.arguments) {
        Ok(condition) => Ok(Config { condition, input, output }),
        Err(e) => Err(e),
    }
}

/// What running a filter from a context comes to. It fails only before the first
/// row: where a stream cannot be committed, or the arguments write no condition
/// against the columns of the input. A second initialization of the input is refused,
/// and nothing else gives that error but a second initialization of the output. It
/// succeeds only on arguments that write a condition against some columns.
pub open spec fn filter_outcome(context: CompileContext, r: Result<(), JobError>) -> bool {
    &&& context.input.is_initialized() ==> (r matches Err(e) && e@ == already_initialized())
    &&& (r matches Err(e) && e@ == already_initialized()) ==> context.input.is_initialized()
        || context.output.is_initialized()
    &&& (!context.input.is_initialized() && context.output.is_initialized()) ==> r is Err
    &&& r matches Err(e) ==> {
        ||| e@ == already_initialized()
        ||| e@ == broken_pipe()
        ||| exists|schema: Seq<ColumnTypeView>| #[trigger]
            parsed_condition(schema, arguments_view(context.arguments@)) == Err::<
                ConditionView,
                JobErrorView,
            >(e@)
    }
    &&& r is Ok ==> exists|schema: Seq<ColumnTypeView>| #[trigger]
        parsed_condition(schema, arguments_view(context.arguments@)) is Ok
}

/// Runs a filter from its context: commits the streams, reads the condition, and
/// copies the rows that pass it. It fails only before the first row.
pub fn compile_and_run(context: CompileContext) -> (r: Result<(), JobError>)
    ensures
        filter_outcome(context, r),
{
    let mut context = context;
    match compile(&mut context) {
        Ok(config) => {
            let mut config = config;
            run(&mut config, &mut context.printer)
        },
        Err(e) => Err(e),
    }
}

} // verus!
