//! The status record a background patching worker fills in and a caller
//! polls: accumulated log text, a completion flag and an error flag. The
//! worker updates the whole record before it exits; locking around it is
//! the caller's concern, not the record's.

use vstd::prelude::*;
use vstd::string::*;

verus! {

/// Progress and outcome of one patching run.
#[derive(Debug)]
pub struct ThreadContext {
    pub completed: bool,
    pub error: bool,
    pub log: String,
}

impl Default for ThreadContext {
    /// A fresh record: empty log, neither completed nor failed.
    fn default() -> (r: ThreadContext)
        ensures
            r.log@.len() == 0,
            !r.completed,
            !r.error,
    {
        ThreadContext { completed: false, error: false, log: String::new() }
    }
}

impl ThreadContext {
    pub fn log(&self) -> (r: &str)
        ensures
            r@ == self.log@,
    {
        self.log.as_str()
    }

    pub fn completed(&self) -> (r: bool)
        ensures
            r == self.completed,
    {
        self.completed
    }

    pub fn error(&self) -> (r: bool)
        ensures
            r == self.error,
    {
        self.error
    }

    /// Clears the record for a new run.
    pub fn reset(&mut self)
        ensures
            final(self).log@.len() == 0,
            !final(self).completed,
            !final(self).error,
    {
        self.log = String::new();
        self.completed = false;
        self.error = false;
    }

    /// Appends one message on a line of its own.
    pub fn append_log(&mut self, message: &str)
        ensures
            final(self).log@ == old(self).log@ + seq!['\n'] + message@,
            final(self).completed == old(self).completed,
            final(self).error == old(self).error,
    {
        proof {
            reveal_strlit("\n");
        }
        self.log.append("\n");
        self.log.append(message);
        proof {
            assert(self.log@ =~= old(self).log@ + seq!['\n'] + message@);
        }
    }

    /// Records that the run finished without error. Set only after the
    /// log holds everything the run has to say.
    pub fn mark_completed(&mut self)
        ensures
            final(self).completed,
            !final(self).error,
            final(self).log@ == old(self).log@,
    {
        self.completed = true;
        self.error = false;
    }

    /// Records that the run failed; a failed run is never completed.
    pub fn mark_failed(&mut self)
        ensures
            !final(self).completed,
            final(self).error,
            final(self).log@ == old(self).log@,
    {
        self.completed = false;
        self.error = true;
    }
}

} // verus!
