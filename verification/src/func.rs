//! The function record: immutable after assembly, its instruction stream
//! filled in by the preprocessor.
use vstd::prelude::*;
use std::rc::Rc;

use crate::calx::CalxType;
use crate::host::rc_dup;
use crate::instr::CalxInstr;
use crate::syntax::CalxSyntax;

verus! {

/// One named function: its signature, the local-name table the assembler
/// gathered (parameters first), its surface syntax, and — after
/// preprocessing — its flat instruction stream.
#[derive(Debug, PartialEq)]
pub struct CalxFunc {
    pub name: Rc<String>,
    pub params_types: Rc<Vec<CalxType>>,
    pub ret_types: Rc<Vec<CalxType>>,
    pub syntax: Rc<Vec<CalxSyntax>>,
    pub instrs: Rc<Vec<CalxInstr>>,
    pub local_names: Rc<Vec<String>>,
}

/// The record invariant: the local-name table begins with one name per
/// parameter.
pub open spec fn func_wf(f: CalxFunc) -> bool {
    f.local_names@.len() >= f.params_types@.len()
}

impl CalxFunc {
    /// A copy of the record; all parts are shared.
    pub fn dup(&self) -> (r: CalxFunc)
        ensures
            r == *self,
    {
        CalxFunc {
            name: rc_dup(&self.name),
            params_types: rc_dup(&self.params_types),
            ret_types: rc_dup(&self.ret_types),
            syntax: rc_dup(&self.syntax),
            instrs: rc_dup(&self.instrs),
            local_names: rc_dup(&self.local_names),
        }
    }
}

} // verus!
