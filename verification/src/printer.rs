use crate::errors::{JobError, JobErrorView};
use crate::stream::{channel, channel_send};
use std::sync::mpsc::{Receiver, SyncSender};
use vstd::prelude::*;

verus! {

/// Copies the sending end of a channel with `SyncSender::clone`. Nothing is claimed of
/// the copy.
#[verifier::external_body]
fn channel_clone<T>(sender: &SyncSender<T>) -> (copy: SyncSender<T>) {
    sender.clone()
}

/// How many reports may wait for the host before a reporter blocks.
pub const REPORT_CAPACITY: usize = 128;

/// Where the errors of single rows are reported. A report changes nothing in the
/// course of a job. The printer remembers, for proofs only, what was reported to it.
pub struct Printer {
    reports: SyncSender<JobError>,
    reported: Ghost<Seq<JobErrorView>>,
}

impl Printer {
    /// A printer, and the end of its channel from which the host takes the reports.
    pub fn new() -> (r: (Printer, Receiver<JobError>))
        ensures
            r.0.reported() == Seq::<JobErrorView>::empty(),
    {
        let (sender, receiver) = channel::<JobError>(REPORT_CAPACITY);
        (Printer { reports: sender, reported: Ghost(Seq::empty()) }, receiver)
    }

    /// The errors that were reported to this printer, oldest first.
    pub closed spec fn reported(&self) -> Seq<JobErrorView> {
        self.reported@
    }

    /// Reports an error. A host that no longer listens is no failure.
    pub fn job_error(&mut self, err: JobError)
        ensures
            final(self).reported() == old(self).reported().push(err@),
    {
        let ghost view = err@;
        let _ = channel_send(&self.reports, err);
        proof {
            self.reported = Ghost(self.reported@.push(view));
        }
    }
}

impl Clone for Printer {
    /// A printer that reports to the same host and has been told the same so far.
    fn clone(&self) -> (res: Printer)
        ensures
            res.reported() == self.reported(),
    {
        Printer { reports: channel_clone(&self.reports), reported: Ghost(self.reported@) }
    }
}

} // verus!
