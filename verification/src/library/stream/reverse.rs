use crate::commands::ExecutionContext;
use crate::data::cell_type::clone_schema;
use crate::data::row::{conforms, rows_view, Row};
use crate::errors::JobError;
use crate::stream::{
    already_initialized, broken_pipe, OutputStream, Readable, UninitializedOutputStream,
};
use vstd::prelude::*;

verus! {

/// Reads the input until a read fails, which is its end, then writes the rows that
/// were read to the output, the last one first. It stops at the first row that the
/// output does not take: the reader is gone, which is no error.
#[verifier::loop_isolation(false)]
pub fn reverse<R: Readable>(input: &mut R, output: &mut OutputStream) -> (r: Result<(), JobError>)
    requires
        old(output).schema() == old(input).columns(),
    ensures
        final(input).columns() == old(input).columns(),
        final(output).schema() == old(output).schema(),
        old(input).rows_read().len() <= final(input).rows_read().len(),
        final(input).failed_reads() == old(input).failed_reads() + 1,
        ({
            let read = final(input).rows_read().skip(old(input).rows_read().len() as int);
            &&& final(input).rows_read() == old(input).rows_read() + read
            &&& r is Ok
            &&& {
                ||| {
                    &&& final(output).sent() == old(output).sent() + read.reverse()
                    &&& final(output).is_open() == old(output).is_open()
                }
                ||| {
                    &&& !final(output).is_open()
                    &&& exists|k: int|
                        0 <= k < read.len() && final(output).sent() == old(output).sent()
                            + #[trigger] read.reverse().take(k)
                }
            }
        }),
{
    let ghost before = input.rows_read();
    let ghost sent = output.sent();
    let ghost schema = input.columns();
    let mut q: Vec<Row> = Vec::new();
    proof {
        assert(before + rows_view(q@) =~= before);
    }
    let mut at_end = false;
    while !at_end
        invariant
            input.columns() == schema,
            input.rows_read() == before + rows_view(q@),
            forall|k: int| 0 <= k < q@.len() ==> conforms(#[trigger] q@[k]@, schema),
            input.failed_reads() == old(input).failed_reads() + if at_end {
                1nat
            } else {
                0nat
            },
        decreases
                if at_end {
                    0nat
                } else {
                    1nat
                },
                input.rows_left(),
    {
        match input.read() {
            Ok(row) => {
                proof {
                    assert(before + rows_view(q@.push(row)) =~= (before + rows_view(q@)).push(row@));
                }
                q.push(row);
            },
            Err(_) => {
                at_end = true;
            },
        }
    }
    let ghost read = rows_view(q@);
    proof {
        assert((before + read).skip(before.len() as int) =~= read);
        assert(sent + read.reverse().take(0) =~= sent);
    }
    while q.len() > 0
        invariant
            q@.len() <= read.len(),
            rows_view(q@) == read.take(q@.len() as int),
            output.schema() == schema,
            forall|k: int| 0 <= k < q@.len() ==> conforms(#[trigger] q@[k]@, schema),
            output.sent() == sent + read.reverse().take(read.len() - q@.len()),
            output.is_open() == old(output).is_open(),
        decreases q.len(),
    {
        let ghost n = q@.len() as int;
        let ghost done = read.len() - n;
        let ghost full = q@;
        let row = q.pop().unwrap();
        proof {
            assert(row == full[n - 1]);
            assert(rows_view(full)[n - 1] == row@);
            assert(read.take(n)[n - 1] == read[n - 1]);
            assert(rows_view(q@) =~= read.take(n - 1));
        }
        let ghost cells = row@;
        match output.send(row) {
            Ok(_) => {
                proof {
                    assert(read.reverse()[done] == read[n - 1]);
                    assert(sent + read.reverse().take(done + 1) =~= (sent + read.reverse().take(
                        done,
                    )).push(cells));
                }
            },
            Err(_) => {
                proof {
                    assert(0 <= done < read.len());
                    assert(output.sent() == sent + read.reverse().take(done));
                }
                return Ok(());
            },
        }
    }
    proof {
        assert(read.reverse().take(read.len() as int) =~= read.reverse());
    }
    Ok(())
}

/// Commits the output to the columns of the input, then writes the rows of the input
/// to it in reverse. It fails only where the output cannot be committed, and then
/// reads nothing.
pub fn run<R: Readable>(input: &mut R, sender: &mut UninitializedOutputStream) -> (r: Result<
    (),
    JobError,
>)
    ensures
        final(sender).is_initialized(),
        final(input).columns() == old(input).columns(),
        old(input).rows_read().len() <= final(input).rows_read().len(),
        final(input).rows_read().take(old(input).rows_read().len() as int) == old(
            input,
        ).rows_read(),
        old(sender).is_initialized() <==> (r matches Err(e) && e@ == already_initialized()),
        match r {
            Ok(_) => final(input).failed_reads() == old(input).failed_reads() + 1,
            Err(e) => {
                &&& e@ == already_initialized() || e@ == broken_pipe()
                &&& final(input).rows_read() == old(input).rows_read()
                &&& final(input).failed_reads() == old(input).failed_reads()
            },
        },
{
    proof {
        assert(input.rows_read().take(input.rows_read().len() as int) =~= input.rows_read());
    }
    let mut output = match sender.initialize(clone_schema(input.types())) {
        Ok(output) => output,
        Err(e) => {
            return Err(e);
        },
    };
    let r = reverse(input, &mut output);
    proof {
        let n = old(input).rows_read().len() as int;
        assert(input.rows_read().take(n) =~= old(input).rows_read());
    }
    r
}

/// What running a reversal from a context comes to. A second initialization of the
/// input is refused, and nothing else gives that error but a second initialization
/// of the output. Every other failure is a broken pipe: the writer of the input, or
/// the reader of the output, was gone before the stream was committed.
pub open spec fn reversal_outcome(context: ExecutionContext, r: Result<(), JobError>) -> bool {
    &&& context.input.is_initialized() ==> (r matches Err(e) && e@ == already_initialized())
    &&& (r matches Err(e) && e@ == already_initialized()) ==> context.input.is_initialized()
        || context.output.is_initialized()
    &&& r matches Err(e) ==> e@ == already_initialized() || e@ == broken_pipe()
    &&& (!context.input.is_initialized() && context.output.is_initialized()) ==> r is Err
}

/// Runs the transform from its context: waits for the columns of the input, commits
/// the output to them, and writes the rows of the input in reverse.
pub fn perform(context: ExecutionContext) -> (r: Result<(), JobError>)
    ensures
        reversal_outcome(context, r),
{
    let mut context = context;
    let mut input = match context.input.initialize() {
        Ok(input) => input,
        Err(e) => {
            return Err(e);
        },
    };
    run(&mut input, &mut context.output)
}

} // verus!
