use crate::data::cell::CellView;
use crate::data::cell_type::{clone_schema, schema_view, ColumnType, ColumnTypeView};
use crate::data::row::{conforms, Row};
use crate::errors::{error, type_error, ErrorKind, JobError, JobErrorView};
use std::sync::mpsc::{Receiver, SyncSender};
use vstd::prelude::*;

verus! {

/// The sending end of a bounded channel, `std::sync::mpsc::SyncSender`, as a type
/// whose values are only handed on.
#[verifier::external_type_specification]
#[verifier::external_body]
#[verifier::reject_recursive_types(T)]
pub struct ExSyncSender<T>(SyncSender<T>);

/// The receiving end of a channel, `std::sync::mpsc::Receiver`, as a type whose
/// values are only handed on.
#[verifier::external_type_specification]
#[verifier::external_body]
#[verifier::reject_recursive_types(T)]
pub struct ExReceiver<T>(Receiver<T>);

/// Makes a channel with `std::sync::mpsc::sync_channel`: the sending end blocks while
/// `bound` values wait to be received. Nothing is claimed of the two ends.
#[verifier::external_body]
pub(crate) fn channel<T>(bound: usize) -> (ends: (SyncSender<T>, Receiver<T>)) {
    std::sync::mpsc::sync_channel(bound)
}

/// Hands `value` to the channel with `SyncSender::send`, waiting while the channel is
/// full, and tells whether it was taken. It is not taken once the receiving end is
/// gone. Nothing is claimed of the answer: it depends on the other end.
#[verifier::external_body]
pub(crate) fn channel_send<T>(sender: &SyncSender<T>, value: T) -> (taken: bool) {
    sender.send(value).is_ok()
}

/// Takes the next value from the channel with `Receiver::recv`, waiting while the
/// channel is empty and the sending end lives. `None` once the sending end is gone and
/// nothing is left. Nothing is claimed of the answer: it depends on the other end.
#[verifier::external_body]
pub(crate) fn channel_recv<T>(receiver: &Receiver<T>) -> (value: Option<T>) {
    receiver.recv().ok()
}

/// How many rows may wait in a stream before its writer blocks.
pub const STREAM_CAPACITY: usize = 128;

/// How many rows a reader takes from one stream at most.
pub const STREAM_LENGTH: u64 = 0xffff_ffff_ffff_ffff;

/// The error of a writer whose reader is gone.
pub open spec fn broken_pipe() -> JobErrorView {
    JobErrorView { kind: ErrorKind::Generic, message: "Broken pipe"@ }
}

/// The error of an end that is initialized a second time.
pub open spec fn already_initialized() -> JobErrorView {
    JobErrorView { kind: ErrorKind::Generic, message: "Stream already initialized"@ }
}

/// A broken pipe is another error than a second initialization.
pub proof fn stream_errors_differ()
    ensures
        broken_pipe() != already_initialized(),
{
    reveal_strlit("Broken pipe");
    reveal_strlit("Stream already initialized");
    assert("Broken pipe"@.len() != "Stream already initialized"@.len());
}

/// The writing end of a stream whose columns are not yet known.
pub struct UninitializedOutputStream {
    types: Option<SyncSender<Vec<ColumnType>>>,
    rows: Option<SyncSender<Row>>,
}

/// The reading end of a stream whose columns are not yet known.
pub struct UninitializedInputStream {
    types: Option<Receiver<Vec<ColumnType>>>,
    rows: Option<Receiver<Row>>,
}

/// The writing end of a stream. It remembers, for proofs only, the rows that the
/// stream took from it.
pub struct OutputStream {
    rows: SyncSender<Row>,
    output_type: Vec<ColumnType>,
    open: bool,
    sent: Ghost<Seq<Seq<CellView>>>,
}

/// The reading end of a stream. It gives out at most `STREAM_LENGTH` rows, and
/// remembers, for proofs only, the rows that it gave out and how many reads failed.
pub struct InputStream {
    rows: Receiver<Row>,
    input_type: Vec<ColumnType>,
    left: u64,
    received: Ghost<Seq<Seq<CellView>>>,
    failed: Ghost<nat>,
}

/// A new stream: its writing end and its reading end.
pub fn streams() -> (ends: (UninitializedOutputStream, UninitializedInputStream))
    ensures
        !ends.0.is_initialized(),
        !ends.1.is_initialized(),
{
    let (type_sender, type_receiver) = channel::<Vec<ColumnType>>(1);
    let (row_sender, row_receiver) = channel::<Row>(STREAM_CAPACITY);
    (
        UninitializedOutputStream { types: Some(type_sender), rows: Some(row_sender) },
        UninitializedInputStream { types: Some(type_receiver), rows: Some(row_receiver) },
    )
}

/// What `UninitializedOutputStream::initialize` returns on an end that was not yet
/// initialized, for each answer of the channel: the stream where the columns were
/// taken, a broken pipe where the reader was gone.
fn committed(rows: SyncSender<Row>, output_type: Vec<ColumnType>, taken: bool) -> (r: Result<
    OutputStream,
    JobError,
>)
    ensures
        match r {
            Ok(output) => taken && output.schema() == schema_view(output_type@) && output.sent()
                == Seq::<Seq<CellView>>::empty() && output.is_open(),
            Err(e) => !taken && e@ == broken_pipe(),
        },
{
    if taken {
        Ok(OutputStream { rows, output_type, open: true, sent: Ghost(Seq::empty()) })
    } else {
        Err(error("Broken pipe"))
    }
}

impl UninitializedOutputStream {
    /// Whether `initialize` was called on this end.
    pub closed spec fn is_initialized(&self) -> bool {
        self.types is None || self.rows is None
    }

    /// Commits the stream to the columns `output_type` and returns the end that rows
    /// are written to. A second call fails; so does the first where the reader is gone.
    pub fn initialize(&mut self, output_type: Vec<ColumnType>) -> (r: Result<OutputStream, JobError>)
        ensures
            final(self).is_initialized(),
            old(self).is_initialized() <==> (r matches Err(e) && e@ == already_initialized()),
            !old(self).is_initialized() ==> match r {
                Ok(output) => output.schema() == schema_view(output_type@) && output.sent()
                    == Seq::<Seq<CellView>>::empty() && output.is_open(),
                Err(e) => e@ == broken_pipe(),
            },
    {
        proof {
            stream_errors_differ();
        }
        let types = self.types.take();
        let rows = self.rows.take();
        match (types, rows) {
            (Some(types), Some(rows)) => {
                let taken = channel_send(&types, clone_schema(&output_type));
                committed(rows, output_type, taken)
            },
            _ => Err(error("Stream already initialized")),
        }
    }
}

impl OutputStream {
    /// The columns that the stream was committed to.
    pub closed spec fn schema(&self) -> Seq<ColumnTypeView> {
        schema_view(self.output_type@)
    }

    /// The rows that the stream has taken from this end, oldest first.
    pub closed spec fn sent(&self) -> Seq<Seq<CellView>> {
        self.sent@
    }

    /// Whether no row was refused so far.
    pub closed spec fn is_open(&self) -> bool {
        self.open
    }

    /// The columns that the stream was committed to.
    pub fn get_type(&self) -> (t: &Vec<ColumnType>)
        ensures
            schema_view(t@) == self.schema(),
    {
        &self.output_type
    }

    /// What `send` makes of the channel's answer: the row joins the rows sent where it
    /// was taken; where it was not, the reader is gone and the end closes.
    fn record(&mut self, row: Ghost<Seq<CellView>>, taken: bool) -> (r: Result<(), JobError>)
        ensures
            final(self).schema() == old(self).schema(),
            match r {
                Ok(_) => taken && final(self).sent() == old(self).sent().push(row@) && final(self).is_open() == old(self).is_open(),
                Err(e) => !taken && final(self).sent() == old(self).sent() && !final(self).is_open() && e@ == broken_pipe(),
            },
    {
        if taken {
            proof {
                self.sent = Ghost(self.sent@.push(row@));
            }
            Ok(())
        } else {
            self.open = false;
            Err(error("Broken pipe"))
        }
    }

    /// Writes a row to the stream, waiting while the stream is full. It fails, and
    /// closes this end, once the reader is gone: the writer is to stop. A closed end
    /// takes no more rows.
    pub fn send(&mut self, row: Row) -> (r: Result<(), JobError>)
        requires
            conforms(row@, old(self).schema()),
        ensures
            final(self).schema() == old(self).schema(),
            !old(self).is_open() ==> r is Err,
            match r {
                Ok(_) => final(self).sent() == old(self).sent().push(row@) && final(self).is_open(),
                Err(e) => final(self).sent() == old(self).sent() && !final(self).is_open() && e@
                    == broken_pipe(),
            },
    {
        let ghost cells = row@;
        if !self.open {
            return Err(error("Broken pipe"));
        }
        let taken = channel_send(&self.rows, row);
        self.record(Ghost(cells), taken)
    }
}

/// The error of a reader whose writer is gone and that has read every row.
pub open spec fn end_of_stream() -> JobErrorView {
    JobErrorView { kind: ErrorKind::Generic, message: "End of stream"@ }
}

/// The error of a reader for a row that does not fit the columns of its stream.
pub open spec fn misfit() -> JobErrorView {
    JobErrorView { kind: ErrorKind::Type, message: "Row does not fit the stream"@ }
}

impl UninitializedInputStream {
    /// Whether `initialize` was called on this end.
    pub closed spec fn is_initialized(&self) -> bool {
        self.types is None || self.rows is None
    }

    /// Waits for the columns that the writer commits the stream to and returns the end
    /// that rows are read from. A second call fails; so does the first where the
    /// writer is gone without having committed.
    pub fn initialize(&mut self) -> (r: Result<InputStream, JobError>)
        ensures
            final(self).is_initialized(),
            old(self).is_initialized() <==> (r matches Err(e) && e@ == already_initialized()),
            !old(self).is_initialized() ==> match r {
                Ok(input) => input.received() == Seq::<Seq<CellView>>::empty() && input.remaining()
                    == STREAM_LENGTH && input.reads_failed() == 0,
                Err(e) => e@ == broken_pipe(),
            },
    {
        proof {
            stream_errors_differ();
        }
        let types = self.types.take();
        let rows = self.rows.take();
        match (types, rows) {
            (Some(types), Some(rows)) => match channel_recv(&types) {
                Some(input_type) => Ok(
                    InputStream {
                        rows,
                        input_type,
                        left: STREAM_LENGTH,
                        received: Ghost(Seq::empty()),
                        failed: Ghost(0),
                    },
                ),
                None => Err(error("Broken pipe")),
            },
            _ => Err(error("Stream already initialized")),
        }
    }
}

impl InputStream {
    /// The columns that the stream was committed to.
    pub closed spec fn schema(&self) -> Seq<ColumnTypeView> {
        schema_view(self.input_type@)
    }

    /// The rows that this end has given out, oldest first.
    pub closed spec fn received(&self) -> Seq<Seq<CellView>> {
        self.received@
    }

    /// How many rows this end may still give out.
    pub closed spec fn remaining(&self) -> nat {
        self.left as nat
    }

    /// How many reads on this end have failed.
    pub closed spec fn reads_failed(&self) -> nat {
        self.failed@
    }

    /// The columns that the stream was committed to.
    pub fn get_type(&self) -> (t: &Vec<ColumnType>)
        ensures
            schema_view(t@) == self.schema(),
    {
        &self.input_type
    }

    /// What `recv` makes of the channel's answer: a row that fits the columns is given
    /// out and joins the rows received; a row that does not fit is refused; no row is
    /// the end of the stream, and so is any row once `STREAM_LENGTH` rows were read.
    /// Every answer but a row that is given out counts as a failed read.
    pub fn accept(&mut self, arrived: Option<Row>) -> (r: Result<Row, JobError>)
        ensures
            final(self).schema() == old(self).schema(),
            match r {
                Ok(row) => {
                    &&& arrived == Some(row)
                    &&& old(self).remaining() > 0
                    &&& conforms(row@, old(self).schema())
                    &&& final(self).received() == old(self).received().push(row@)
                    &&& final(self).remaining() == old(self).remaining() - 1
                    &&& final(self).reads_failed() == old(self).reads_failed()
                },
                Err(e) => {
                    &&& final(self).received() == old(self).received()
                    &&& final(self).remaining() == old(self).remaining()
                    &&& final(self).reads_failed() == old(self).reads_failed() + 1
                    &&& match arrived {
                        Some(row) => if old(self).remaining() == 0 {
                            e@ == end_of_stream()
                        } else {
                            !conforms(row@, old(self).schema()) && e@ == misfit()
                        },
                        None => e@ == end_of_stream(),
                    }
                },
            },
    {
        match arrived {
            Some(row) => {
                if self.left == 0 {
                    proof {
                        self.failed = Ghost(self.failed@ + 1);
                    }
                    Err(error("End of stream"))
                } else if row.conforms(&self.input_type) {
                    self.left = self.left - 1;
                    proof {
                        self.received = Ghost(self.received@.push(row@));
                    }
                    Ok(row)
                } else {
                    proof {
                        self.failed = Ghost(self.failed@ + 1);
                    }
                    Err(type_error("Row does not fit the stream"))
                }
            },
            None => {
                proof {
                    self.failed = Ghost(self.failed@ + 1);
                }
                Err(error("End of stream"))
            },
        }
    }

    /// Reads the next row, waiting while the stream is empty and its writer lives. It
    /// fails at the end of the stream, on a row that does not fit the columns, and
    /// once `STREAM_LENGTH` rows were read. A read that fails is counted, and changes
    /// nothing else.
    pub fn recv(&mut self) -> (r: Result<Row, JobError>)
        ensures
            final(self).schema() == old(self).schema(),
            old(self).remaining() == 0 ==> r is Err,
            match r {
                Ok(row) => {
                    &&& conforms(row@, old(self).schema())
                    &&& final(self).received() == old(self).received().push(row@)
                    &&& final(self).remaining() == old(self).remaining() - 1
                    &&& final(self).reads_failed() == old(self).reads_failed()
                },
                Err(e) => {
                    &&& final(self).received() == old(self).received()
                    &&& final(self).remaining() == old(self).remaining()
                    &&& final(self).reads_failed() == old(self).reads_failed() + 1
                    &&& (e@ == end_of_stream() || e@ == misfit())
                },
            },
    {
        if self.left == 0 {
            proof {
                self.failed = Ghost(self.failed@ + 1);
            }
            return Err(error("End of stream"));
        }
        let arrived = channel_recv(&self.rows);
        self.accept(arrived)
    }
}

/// A source of rows that all fit the same columns: a stream, or a table in memory.
pub trait Readable {
    /// The columns of the rows.
    spec fn columns(&self) -> Seq<ColumnTypeView>;

    /// The rows that were read so far, oldest first.
    spec fn rows_read(&self) -> Seq<Seq<CellView>>;

    /// How many rows may still be read.
    spec fn rows_left(&self) -> nat;

    /// How many reads have failed.
    spec fn failed_reads(&self) -> nat;

    /// The columns of the rows.
    fn types(&self) -> (t: &Vec<ColumnType>)
        ensures
            schema_view(t@) == self.columns(),
    ;

    /// Reads the next row, or fails where there is none. A row that is read joins
    /// the rows read, and one row fewer is left. A read that fails is counted, and
    /// changes nothing else. No row is read where none is left.
    fn read(&mut self) -> (r: Result<Row, JobError>)
        ensures
            final(self).columns() == old(self).columns(),
            old(self).rows_left() == 0 ==> r is Err,
            match r {
                Ok(row) => {
                    &&& conforms(row@, old(self).columns())
                    &&& final(self).rows_read() == old(self).rows_read().push(row@)
                    &&& final(self).rows_left() < old(self).rows_left()
                    &&& final(self).failed_reads() == old(self).failed_reads()
                },
                Err(_) => {
                    &&& final(self).rows_read() == old(self).rows_read()
                    &&& final(self).rows_left() == old(self).rows_left()
                    &&& final(self).failed_reads() == old(self).failed_reads() + 1
                },
            },
    ;
}

impl Readable for InputStream {
    open spec fn columns(&self) -> Seq<ColumnTypeView> {
        self.schema()
    }

    open spec fn rows_read(&self) -> Seq<Seq<CellView>> {
        self.received()
    }

    open spec fn rows_left(&self) -> nat {
        self.remaining()
    }

    open spec fn failed_reads(&self) -> nat {
        self.reads_failed()
    }

    fn types(&self) -> (t: &Vec<ColumnType>) {
        self.get_type()
    }

    fn read(&mut self) -> (r: Result<Row, JobError>) {
        self.recv()
    }
}

} // verus!
