use vstd::prelude::*;

verus! {

/// The classes of failure that the pipeline engine tells apart.
#[derive(Clone, Copy, Debug, PartialEq, Eq, Structural)]
pub enum ErrorKind {
    /// An argument could not be resolved or bound while compiling a call.
    Argument,
    /// A text could not be coerced to the requested cell type.
    Type,
    /// Two cells have no defined order.
    Comparison,
    /// A needle and a pattern cannot be matched against each other.
    Match,
    /// A spawned unit ended without returning a result.
    Execution,
    /// Anything else.
    Generic,
}

/// A failure of a job, of one of its calls, or of a single row.
#[derive(Debug)]
pub struct JobError {
    pub kind: ErrorKind,
    pub message: String,
}

/// What a `JobError` says: its class and its message as a sequence of characters.
pub struct JobErrorView {
    pub kind: ErrorKind,
    pub message: Seq<char>,
}

impl View for JobError {
    type V = JobErrorView;

    open spec fn view(&self) -> JobErrorView {
        JobErrorView { kind: self.kind, message: self.message@ }
    }
}

impl Clone for JobError {
    fn clone(&self) -> (res: JobError)
        ensures
            res@ == self@,
    {
        JobError { kind: self.kind, message: self.message.clone() }
    }
}

impl JobError {
    /// An error of the given class with the given message.
    pub fn new(kind: ErrorKind, message: &str) -> (e: JobError)
        ensures
            e@ == (JobErrorView { kind, message: message@ }),
    {
        JobError { kind, message: message.to_owned() }
    }

    /// The message, as shown to the user.
    pub fn to_string(&self) -> (s: String)
        ensures
            s@ == self@.message,
    {
        self.message.clone()
    }
}

/// The error with the given message that belongs to no narrower class.
pub fn error(message: &str) -> (e: JobError)
    ensures
        e@ == (JobErrorView { kind: ErrorKind::Generic, message: message@ }),
{
    JobError::new(ErrorKind::Generic, message)
}

/// The error for an argument that cannot be resolved or bound.
pub fn argument_error(message: &str) -> (e: JobError)
    ensures
        e@ == (JobErrorView { kind: ErrorKind::Argument, message: message@ }),
{
    JobError::new(ErrorKind::Argument, message)
}

/// The error for a text that cannot be coerced to a cell type.
pub fn type_error(message: &str) -> (e: JobError)
    ensures
        e@ == (JobErrorView { kind: ErrorKind::Type, message: message@ }),
{
    JobError::new(ErrorKind::Type, message)
}

/// The error for a pair of cells without a defined order.
pub fn comparison_error(message: &str) -> (e: JobError)
    ensures
        e@ == (JobErrorView { kind: ErrorKind::Comparison, message: message@ }),
{
    JobError::new(ErrorKind::Comparison, message)
}

/// The error for a needle and a pattern that cannot be matched.
pub fn match_error(message: &str) -> (e: JobError)
    ensures
        e@ == (JobErrorView { kind: ErrorKind::Match, message: message@ }),
{
    JobError::new(ErrorKind::Match, message)
}

/// The error for a spawned unit that ended without a result.
pub fn execution_error(message: &str) -> (e: JobError)
    ensures
        e@ == (JobErrorView { kind: ErrorKind::Execution, message: message@ }),
{
    JobError::new(ErrorKind::Execution, message)
}

} // verus!
