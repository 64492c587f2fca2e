use vstd::prelude::*;

verus! {

/// The status of a batch of jobs.
pub struct JobStatus {
    pub jobs_completed: u32,
}

} // verus!
