//! The life of an import job: its states and the moves between them.

use vstd::prelude::*;
use vstd::string::StringExecFns;
use crate::error::AppError;
use crate::text::str_eq;

verus! {

/// The state of an import job.
#[derive(Debug, Clone, Copy, PartialEq, Eq, Structural)]
pub enum JobStatus {
    Pending,
    Extracting,
    Analyzing,
    Reviewing,
    Applying,
    Completed,
    Failed,
    Cancelled,
}

impl JobStatus {
    /// The place of the state on the way from submission to completion; the
    /// states in which a job ends otherwise stand after all of them.
    pub open spec fn spec_rank(self) -> int {
        match self {
            JobStatus::Pending => 0,
            JobStatus::Extracting => 1,
            JobStatus::Analyzing => 2,
            JobStatus::Reviewing => 3,
            JobStatus::Applying => 4,
            JobStatus::Completed => 5,
            JobStatus::Failed => 6,
            JobStatus::Cancelled => 6,
        }
    }

    /// A job in this state does not change any more.
    pub open spec fn spec_is_terminal(self) -> bool {
        self == JobStatus::Completed || self == JobStatus::Failed || self == JobStatus::Cancelled
    }

    /// The name under which the state is stored.
    pub open spec fn spec_name(self) -> Seq<char> {
        match self {
            JobStatus::Pending => "pending"@,
            JobStatus::Extracting => "extracting"@,
            JobStatus::Analyzing => "analyzing"@,
            JobStatus::Reviewing => "reviewing"@,
            JobStatus::Applying => "applying"@,
            JobStatus::Completed => "completed"@,
            JobStatus::Failed => "failed"@,
            JobStatus::Cancelled => "cancelled"@,
        }
    }

    /// A job may move from `self` to `to`: from a state that is not terminal
    /// it may be cancelled, may fail, or may move forward.
    pub open spec fn spec_can_move(self, to: JobStatus) -> bool {
        &&& !self.spec_is_terminal()
        &&& (to == JobStatus::Cancelled || to == JobStatus::Failed || to.spec_rank()
            > self.spec_rank())
    }

    /// The place of the state on the way from submission to completion.
    pub fn rank(self) -> (r: u8)
        ensures
            r == self.spec_rank(),
    {
        match self {
            JobStatus::Pending => 0,
            JobStatus::Extracting => 1,
            JobStatus::Analyzing => 2,
            JobStatus::Reviewing => 3,
            JobStatus::Applying => 4,
            JobStatus::Completed => 5,
            JobStatus::Failed => 6,
            JobStatus::Cancelled => 6,
        }
    }

    /// Whether a job in this state does not change any more.
    pub fn is_terminal(self) -> (r: bool)
        ensures
            r == self.spec_is_terminal(),
    {
        match self {
            JobStatus::Completed => true,
            JobStatus::Failed => true,
            JobStatus::Cancelled => true,
            _ => false,
        }
    }

    /// The name under which the state is stored.
    pub fn name(self) -> (r: &'static str)
        ensures
            r@ == self.spec_name(),
    {
        match self {
            JobStatus::Pending => "pending",
            JobStatus::Extracting => "extracting",
            JobStatus::Analyzing => "analyzing",
            JobStatus::Reviewing => "reviewing",
            JobStatus::Applying => "applying",
            JobStatus::Completed => "completed",
            JobStatus::Failed => "failed",
            JobStatus::Cancelled => "cancelled",
        }
    }

    /// The state stored under `name`, if it is the name of one.
    pub fn parse(name: &str) -> (r: Option<JobStatus>)
        ensures
            match r {
                Some(status) => status.spec_name() == name@,
                None => forall|s: JobStatus| s.spec_name() != name@,
            },
    {
        if str_eq(name, "pending") {
            Some(JobStatus::Pending)
        } else if str_eq(name, "extracting") {
            Some(JobStatus::Extracting)
        } else if str_eq(name, "analyzing") {
            Some(JobStatus::Analyzing)
        } else if str_eq(name, "reviewing") {
            Some(JobStatus::Reviewing)
        } else if str_eq(name, "applying") {
            Some(JobStatus::Applying)
        } else if str_eq(name, "completed") {
            Some(JobStatus::Completed)
        } else if str_eq(name, "failed") {
            Some(JobStatus::Failed)
        } else if str_eq(name, "cancelled") {
            Some(JobStatus::Cancelled)
        } else {
            None
        }
    }

    /// Moves a job from `self` to `to`. A move that is not allowed is a
    /// `Conflict` error, and the job stays as it is.
    pub fn move_to(self, to: JobStatus) -> (r: Result<JobStatus, AppError>)
        ensures
            match r {
                Ok(status) => self.spec_can_move(to) && status == to,
                Err(e) => !self.spec_can_move(to) && e is Conflict,
            },
    {
        if !self.is_terminal() && (to.rank() == 6 || to.rank() > self.rank()) {
            Ok(to)
        } else {
            let mut m = String::from_str("Job cannot move from ");
            m.append(self.name());
            m.append(" to ");
            m.append(to.name());
            Err(AppError::Conflict(m))
        }
    }
}

/// A job that has ended stays as it is: nothing moves out of a terminal state,
/// so that a completed job cannot be applied again.
pub proof fn lemma_terminal_is_final(from: JobStatus, to: JobStatus)
    requires
        from.spec_is_terminal(),
    ensures
        !from.spec_can_move(to),
{
}

/// Cancellation is open from every state that is not terminal.
pub proof fn lemma_cancel_from_any_live_state(from: JobStatus)
    ensures
        from.spec_can_move(JobStatus::Cancelled) <==> !from.spec_is_terminal(),
{
}

/// Moves go forward only: there is no way back, and a move that is neither a
/// cancellation nor a failure goes to a later stage.
pub proof fn lemma_moves_go_forward(from: JobStatus, to: JobStatus)
    requires
        from.spec_can_move(to),
    ensures
        !to.spec_can_move(from),
        to.spec_rank() > from.spec_rank(),
{
}

} // verus!
