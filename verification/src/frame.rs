//! The call frame: locals, a pointer into the owning function's
//! instruction stream, and the operand-stack depth at entry.
use vstd::prelude::*;
use vstd::string::*;
use std::rc::Rc;

use crate::calx::{Calx, CalxType};
use crate::instr::CalxInstr;

verus! {

/// One call record. The operand stack is shared by all frames; a frame
/// only remembers the depth it started at, and how many values its
/// function returns.
#[derive(Debug, PartialEq)]
pub struct CalxFrame {
    pub name: Rc<String>,
    /// The parameters, then any locals added later.
    pub locals: Vec<Calx>,
    pub instrs: Rc<Vec<CalxInstr>>,
    pub pointer: usize,
    pub initial_stack_size: usize,
    pub ret_types: Rc<Vec<CalxType>>,
}

impl Default for CalxFrame {
    /// The placeholder frame: no locals, no instructions, depth zero.
    fn default() -> (r: CalxFrame)
        ensures
            r.name@ == "<zero>"@,
            r.locals@ == Seq::<Calx>::empty(),
            r.instrs@ == Seq::<CalxInstr>::empty(),
            r.pointer == 0,
            r.initial_stack_size == 0,
            r.ret_types@ == Seq::<CalxType>::empty(),
    {
        CalxFrame {
            name: Rc::new(String::from_str("<zero>")),
            locals: Vec::new(),
            instrs: Rc::new(Vec::new()),
            pointer: 0,
            initial_stack_size: 0,
            ret_types: Rc::new(Vec::new()),
        }
    }
}

} // verus!
