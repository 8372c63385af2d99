//! The structured runtime error: a message with a snapshot of the
//! machine at the point of failure.
use vstd::prelude::*;

use crate::calx::Calx;
use crate::frame::CalxFrame;

verus! {

/// A runtime failure: what went wrong, and the operand stack, top frame
/// and globals at that moment.
#[derive(Debug, PartialEq)]
pub struct CalxError {
    pub message: String,
    pub stack: Vec<Calx>,
    pub top_frame: CalxFrame,
    pub globals: Vec<Calx>,
}

impl CalxError {
    /// An error that carries no machine state, only a message.
    pub fn new_raw(s: String) -> (r: CalxError)
        ensures
            r.message@ == s@,
            r.stack@ == Seq::<Calx>::empty(),
            r.globals@ == Seq::<Calx>::empty(),
    {
        CalxError {
            message: s,
            stack: Vec::new(),
            top_frame: Default::default(),
            globals: Vec::new(),
        }
    }
}

} // verus!
