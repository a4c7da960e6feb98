use vstd::prelude::*;

use crate::errors::ProvingServerError;

verus! {

/// The bounded hand-off from registration to the worker: a single slot
/// holding at most one job id. A full slot rejects the caller with
/// `QueueFull` instead of blocking; the worker drains it one id at a time,
/// so it finishes a job before the next can be handed over.
pub struct JobQueue {
    slot: Option<i64>,
}

impl JobQueue {
    /// The job id waiting in the slot, if any.
    pub closed spec fn contents(self) -> Option<i64> {
        self.slot
    }

    /// An empty queue.
    pub fn new() -> (r: JobQueue)
        ensures
            r.contents() is None,
    {
        JobQueue { slot: None }
    }

    /// Places `job_id` in the slot. If the slot is occupied the call
    /// returns `QueueFull` at once — it neither blocks nor drops the id
    /// silently — and the queue is unchanged.
    pub fn enqueue(&mut self, job_id: i64) -> (r: Result<(), ProvingServerError>)
        ensures
            match r {
                Ok(_) => old(self).contents() is None && final(self).contents() == Some(job_id),
                Err(e) => e == ProvingServerError::QueueFull && old(self).contents() is Some
                    && final(self).contents() == old(self).contents(),
            },
    {
        match self.slot {
            Some(_) => Err(ProvingServerError::QueueFull),
            None => {
                self.slot = Some(job_id);
                Ok(())
            },
        }
    }

    /// Takes the waiting job id out of the slot, if one is there. The
    /// worker's surrounding loop decides how to wait for the next id.
    pub fn dequeue(&mut self) -> (r: Option<i64>)
        ensures
            final(self).contents() is None,
            r == old(self).contents(),
    {
        let out = self.slot;
        self.slot = None;
        out
    }
}

} // verus!
