use vstd::prelude::*;

verus! {

/// Where a partition's compaction job stands.
#[derive(Clone, Copy, Debug, PartialEq, Eq, Structural)]
pub enum JobState {
    Unclaimed,
    /// A worker holds the exclusive right to compact the partition.
    Claimed,
    /// A commit update has been submitted and is being applied.
    Committing,
    /// The job's success is recorded.
    Done,
    /// The job's failure is recorded.
    Failed,
}

/// What moves a job on.
#[derive(Clone, Copy, Debug, PartialEq, Eq, Structural)]
pub enum JobEvent {
    /// The partition was selected for compaction.
    Claim,
    /// A commit update was submitted.
    SubmitCommit,
    /// The submitted commit was applied.
    CommitApplied,
    /// The job could not complete.
    Fail,
}

/// The transitions of the job lifecycle.
pub open spec fn transition(state: JobState, event: JobEvent) -> Option<JobState> {
    match (state, event) {
        (JobState::Unclaimed, JobEvent::Claim) => Some(JobState::Claimed),
        (JobState::Claimed, JobEvent::SubmitCommit) => Some(JobState::Committing),
        (JobState::Committing, JobEvent::CommitApplied) => Some(JobState::Done),
        (JobState::Claimed, JobEvent::Fail) => Some(JobState::Failed),
        (JobState::Committing, JobEvent::Fail) => Some(JobState::Failed),
        _ => None,
    }
}

impl JobState {
    /// The state after `event`, or `None` where the lifecycle allows no such step.
    pub fn next(self, event: JobEvent) -> (r: Option<JobState>)
        ensures
            r == transition(self, event),
    {
        match (self, event) {
            (JobState::Unclaimed, JobEvent::Claim) => Some(JobState::Claimed),
            (JobState::Claimed, JobEvent::SubmitCommit) => Some(JobState::Committing),
            (JobState::Committing, JobEvent::CommitApplied) => Some(JobState::Done),
            (JobState::Claimed, JobEvent::Fail) => Some(JobState::Failed),
            (JobState::Committing, JobEvent::Fail) => Some(JobState::Failed),
            _ => None,
        }
    }

    /// The job has ended.
    pub fn is_terminal(self) -> (r: bool)
        ensures
            r == (self == JobState::Done || self == JobState::Failed),
    {
        match self {
            JobState::Done | JobState::Failed => true,
            _ => false,
        }
    }
}

/// Only a commit that was applied ends a job as done: the state before `Done`
/// is always `Committing`, so no job goes from unclaimed or claimed straight to
/// done.
pub proof fn lemma_done_only_after_commit(state: JobState, event: JobEvent)
    requires
        transition(state, event) == Some(JobState::Done),
    ensures
        state == JobState::Committing,
        event == JobEvent::CommitApplied,
{
}

/// A job that has ended takes no further step.
pub proof fn lemma_terminal_states_final(state: JobState, event: JobEvent)
    requires
        state == JobState::Done || state == JobState::Failed,
    ensures
        transition(state, event) is None,
{
}

} // verus!
