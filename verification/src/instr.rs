//! The flat executable instruction set: absolute jumps, resolved call
//! targets, and the static stack arity that drives the preprocessor.
use vstd::prelude::*;
use vstd::string::*;

use crate::calx::Calx;
use crate::syntax::CalxSyntax;

verus! {

/// An executable instruction. No structured control form remains: jumps
/// are absolute indices within the same function, calls carry the index
/// of the callee in the function table.
#[derive(Debug, PartialEq)]
pub enum CalxInstr {
    /// Pop from the stack, store at the local position.
    LocalSet(usize),
    /// Pop, store at the local position, and push back.
    LocalTee(usize),
    /// Load the local at the position onto the stack.
    LocalGet(usize),
    /// Grow the frame's locals by one `nil` slot.
    LocalNew,
    /// Pop and store at the global position.
    GlobalSet(usize),
    /// Load the global at the position onto the stack.
    GlobalGet(usize),
    /// Grow the globals by one `nil` slot.
    GlobalNew,
    /// Push a copy of the value.
    Const(Calx),
    /// Duplicate the top of the stack.
    Dup,
    /// Discard the top of the stack.
    Drop,
    /// Add two integers, wrapping on overflow.
    IntAdd,
    /// Multiply two integers, wrapping on overflow.
    IntMul,
    /// Divide two integers, truncating toward zero.
    IntDiv,
    /// Remainder of two integers, sign following the numerator.
    IntRem,
    /// Negate an integer, wrapping on the smallest value.
    IntNeg,
    /// Shift an integer right by a count in `0..=63`.
    IntShr,
    /// Shift an integer left by a count in `0..=63`.
    IntShl,
    /// Whether two integers are equal.
    IntEq,
    /// Whether two integers differ.
    IntNe,
    /// Whether the first integer is below the second.
    IntLt,
    /// Whether the first integer is at most the second.
    IntLe,
    /// Whether the first integer is above the second.
    IntGt,
    /// Whether the first integer is at least the second.
    IntGe,
    /// Add two floats, or two integers, by operand kind.
    Add,
    /// Multiply two floats, or two integers, by operand kind.
    Mul,
    /// Divide two floats.
    Div,
    /// Negate a float.
    Neg,
    /// Declared, not implemented.
    NewList,
    /// Declared, not implemented.
    ListGet,
    /// Declared, not implemented.
    ListSet,
    /// Declared, not implemented.
    NewLink,
    /// Declared, not implemented.
    And,
    /// Declared, not implemented.
    Or,
    /// Declared, not implemented.
    Not,
    /// Jump to the instruction index.
    Jmp(usize),
    /// Pop one value; jump to the index if it is a true flag.
    JmpIf(usize),
    /// Pop a value and print it as a line.
    Echo,
    /// Call the function at the index in the function table.
    Call(usize),
    /// Tail-call the function at the index, replacing the frame.
    ReturnCall(usize),
    /// Call the host import with the name.
    CallImport(String),
    /// Reaching this is a preprocessing bug.
    Unreachable,
    /// No effect.
    Nop,
    /// Stop the machine with a host exit status.
    Quit(usize),
    /// Return from the current function.
    Return,
    /// Pop a value and fail with the message unless it is a true flag.
    Assert(String),
    /// Print a dump of the machine state.
    Inspect,
}

/// The static stack arity of an instruction: how many operands it
/// consumes and how many it produces. The control instructions — jumps,
/// calls, `Return` — carry `(0, 0)` here and are checked by dedicated
/// preprocessor logic; `JmpIf` consumes its one predicate.
pub open spec fn spec_stack_arity(i: CalxInstr) -> (nat, nat) {
    match i {
        CalxInstr::LocalSet(_) => (1nat, 0nat),
        CalxInstr::LocalTee(_) => (1nat, 1nat),
        CalxInstr::LocalGet(_) => (0nat, 1nat),
        CalxInstr::LocalNew => (0nat, 0nat),
        CalxInstr::GlobalSet(_) => (1nat, 0nat),
        CalxInstr::GlobalGet(_) => (0nat, 1nat),
        CalxInstr::GlobalNew => (0nat, 0nat),
        CalxInstr::Const(_) => (0nat, 1nat),
        CalxInstr::Dup => (1nat, 2nat),
        CalxInstr::Drop => (1nat, 0nat),
        CalxInstr::IntAdd => (2nat, 1nat),
        CalxInstr::IntMul => (2nat, 1nat),
        CalxInstr::IntDiv => (2nat, 1nat),
        CalxInstr::IntRem => (2nat, 1nat),
        CalxInstr::IntNeg => (1nat, 1nat),
        CalxInstr::IntShr => (2nat, 1nat),
        CalxInstr::IntShl => (2nat, 1nat),
        CalxInstr::IntEq => (2nat, 1nat),
        CalxInstr::IntNe => (2nat, 1nat),
        CalxInstr::IntLt => (2nat, 1nat),
        CalxInstr::IntLe => (2nat, 1nat),
        CalxInstr::IntGt => (2nat, 1nat),
        CalxInstr::IntGe => (2nat, 1nat),
        CalxInstr::Add => (2nat, 1nat),
        CalxInstr::Mul => (2nat, 1nat),
        CalxInstr::Div => (2nat, 1nat),
        CalxInstr::Neg => (1nat, 1nat),
        CalxInstr::NewList => (0nat, 1nat),
        CalxInstr::ListGet => (2nat, 1nat),
        CalxInstr::ListSet => (3nat, 0nat),
        CalxInstr::NewLink => (0nat, 1nat),
        CalxInstr::And => (2nat, 1nat),
        CalxInstr::Or => (2nat, 1nat),
        CalxInstr::Not => (1nat, 1nat),
        CalxInstr::Jmp(_) => (0nat, 0nat),
        CalxInstr::JmpIf(_) => (1nat, 0nat),
        CalxInstr::Echo => (1nat, 0nat),
        CalxInstr::Call(_) => (0nat, 0nat),
        CalxInstr::ReturnCall(_) => (0nat, 0nat),
        CalxInstr::CallImport(_) => (0nat, 0nat),
        CalxInstr::Unreachable => (0nat, 0nat),
        CalxInstr::Nop => (0nat, 0nat),
        CalxInstr::Quit(_) => (0nat, 0nat),
        CalxInstr::Return => (0nat, 0nat),
        CalxInstr::Assert(_) => (1nat, 0nat),
        CalxInstr::Inspect => (0nat, 0nat),
    }
}

impl CalxInstr {
    /// The static stack arity: `(consumed, produced)`.
    pub fn stack_arity(&self) -> (r: (usize, usize))
        ensures
            r.0 == spec_stack_arity(*self).0,
            r.1 == spec_stack_arity(*self).1,
    {
        match self {
            CalxInstr::LocalSet(_) => (1, 0),
            CalxInstr::LocalTee(_) => (1, 1),
            CalxInstr::LocalGet(_) => (0, 1),
            CalxInstr::LocalNew => (0, 0),
            CalxInstr::GlobalSet(_) => (1, 0),
            CalxInstr::GlobalGet(_) => (0, 1),
            CalxInstr::GlobalNew => (0, 0),
            CalxInstr::Const(_) => (0, 1),
            CalxInstr::Dup => (1, 2),
            CalxInstr::Drop => (1, 0),
            CalxInstr::IntAdd => (2, 1),
            CalxInstr::IntMul => (2, 1),
            CalxInstr::IntDiv => (2, 1),
            CalxInstr::IntRem => (2, 1),
            CalxInstr::IntNeg => (1, 1),
            CalxInstr::IntShr => (2, 1),
            CalxInstr::IntShl => (2, 1),
            CalxInstr::IntEq => (2, 1),
            CalxInstr::IntNe => (2, 1),
            CalxInstr::IntLt => (2, 1),
            CalxInstr::IntLe => (2, 1),
            CalxInstr::IntGt => (2, 1),
            CalxInstr::IntGe => (2, 1),
            CalxInstr::Add => (2, 1),
            CalxInstr::Mul => (2, 1),
            CalxInstr::Div => (2, 1),
            CalxInstr::Neg => (1, 1),
            CalxInstr::NewList => (0, 1),
            CalxInstr::ListGet => (2, 1),
            CalxInstr::ListSet => (3, 0),
            CalxInstr::NewLink => (0, 1),
            CalxInstr::And => (2, 1),
            CalxInstr::Or => (2, 1),
            CalxInstr::Not => (1, 1),
            CalxInstr::Jmp(_) => (0, 0),
            CalxInstr::JmpIf(_) => (1, 0),
            CalxInstr::Echo => (1, 0),
            CalxInstr::Call(_) => (0, 0),
            CalxInstr::ReturnCall(_) => (0, 0),
            CalxInstr::CallImport(_) => (0, 0),
            CalxInstr::Unreachable => (0, 0),
            CalxInstr::Nop => (0, 0),
            CalxInstr::Quit(_) => (0, 0),
            CalxInstr::Return => (0, 0),
            CalxInstr::Assert(_) => (1, 0),
            CalxInstr::Inspect => (0, 0),
        }
    }
}

/// The one-to-one part of the lowering from surface to executable
/// instructions. The structured forms — regions, branches, conditionals,
/// calls by name, and nested `do` sequences — have no direct image: the
/// preprocessor resolves them itself.
pub open spec fn spec_syntax_instr(s: CalxSyntax) -> Option<CalxInstr> {
    match s {
        CalxSyntax::LocalSet(a) => Some(CalxInstr::LocalSet(a)),
        CalxSyntax::LocalTee(a) => Some(CalxInstr::LocalTee(a)),
        CalxSyntax::LocalGet(a) => Some(CalxInstr::LocalGet(a)),
        CalxSyntax::LocalNew => Some(CalxInstr::LocalNew),
        CalxSyntax::GlobalSet(a) => Some(CalxInstr::GlobalSet(a)),
        CalxSyntax::GlobalGet(a) => Some(CalxInstr::GlobalGet(a)),
        CalxSyntax::GlobalNew => Some(CalxInstr::GlobalNew),
        CalxSyntax::Const(a) => Some(CalxInstr::Const(a)),
        CalxSyntax::Dup => Some(CalxInstr::Dup),
        CalxSyntax::Drop => Some(CalxInstr::Drop),
        CalxSyntax::IntAdd => Some(CalxInstr::IntAdd),
        CalxSyntax::IntMul => Some(CalxInstr::IntMul),
        CalxSyntax::IntDiv => Some(CalxInstr::IntDiv),
        CalxSyntax::IntRem => Some(CalxInstr::IntRem),
        CalxSyntax::IntNeg => Some(CalxInstr::IntNeg),
        CalxSyntax::IntShr => Some(CalxInstr::IntShr),
        CalxSyntax::IntShl => Some(CalxInstr::IntShl),
        CalxSyntax::IntEq => Some(CalxInstr::IntEq),
        CalxSyntax::IntNe => Some(CalxInstr::IntNe),
        CalxSyntax::IntLt => Some(CalxInstr::IntLt),
        CalxSyntax::IntLe => Some(CalxInstr::IntLe),
        CalxSyntax::IntGt => Some(CalxInstr::IntGt),
        CalxSyntax::IntGe => Some(CalxInstr::IntGe),
        CalxSyntax::Add => Some(CalxInstr::Add),
        CalxSyntax::Mul => Some(CalxInstr::Mul),
        CalxSyntax::Div => Some(CalxInstr::Div),
        CalxSyntax::Neg => Some(CalxInstr::Neg),
        CalxSyntax::NewList => Some(CalxInstr::NewList),
        CalxSyntax::ListGet => Some(CalxInstr::ListGet),
        CalxSyntax::ListSet => Some(CalxInstr::ListSet),
        CalxSyntax::NewLink => Some(CalxInstr::NewLink),
        CalxSyntax::And => Some(CalxInstr::And),
        CalxSyntax::Or => Some(CalxInstr::Or),
        CalxSyntax::Not => Some(CalxInstr::Not),
        CalxSyntax::Echo => Some(CalxInstr::Echo),
        CalxSyntax::Unreachable => Some(CalxInstr::Unreachable),
        CalxSyntax::Nop => Some(CalxInstr::Nop),
        CalxSyntax::Quit(a) => Some(CalxInstr::Quit(a)),
        CalxSyntax::Return => Some(CalxInstr::Return),
        CalxSyntax::Assert(m) => Some(CalxInstr::Assert(m)),
        CalxSyntax::Inspect => Some(CalxInstr::Inspect),
        CalxSyntax::Block { .. } => None,
        CalxSyntax::BlockEnd(_) => None,
        CalxSyntax::Br(_) => None,
        CalxSyntax::BrIf(_) => None,
        CalxSyntax::If { .. } => None,
        CalxSyntax::ThenEnd => None,
        CalxSyntax::ElseEnd => None,
        CalxSyntax::Do(_) => None,
        CalxSyntax::Call(_) => None,
        CalxSyntax::ReturnCall(_) => None,
        CalxSyntax::CallImport(_) => None,
    }
}

impl CalxInstr {
    /// Lowers a surface instruction that has a direct executable image;
    /// the structured forms are refused, the preprocessor handles them.
    pub fn from_syntax(s: &CalxSyntax) -> (r: Result<CalxInstr, String>)
        ensures
            spec_syntax_instr(*s) matches Some(i) ==> r == Ok::<CalxInstr, String>(i),
            spec_syntax_instr(*s) is None ==> r is Err,
    {
        match s {
            CalxSyntax::LocalSet(a) => Ok(CalxInstr::LocalSet(*a)),
            CalxSyntax::LocalTee(a) => Ok(CalxInstr::LocalTee(*a)),
            CalxSyntax::LocalGet(a) => Ok(CalxInstr::LocalGet(*a)),
            CalxSyntax::LocalNew => Ok(CalxInstr::LocalNew),
            CalxSyntax::GlobalSet(a) => Ok(CalxInstr::GlobalSet(*a)),
            CalxSyntax::GlobalGet(a) => Ok(CalxInstr::GlobalGet(*a)),
            CalxSyntax::GlobalNew => Ok(CalxInstr::GlobalNew),
            CalxSyntax::Const(a) => Ok(CalxInstr::Const(a.dup())),
            CalxSyntax::Dup => Ok(CalxInstr::Dup),
            CalxSyntax::Drop => Ok(CalxInstr::Drop),
            CalxSyntax::IntAdd => Ok(CalxInstr::IntAdd),
            CalxSyntax::IntMul => Ok(CalxInstr::IntMul),
            CalxSyntax::IntDiv => Ok(CalxInstr::IntDiv),
            CalxSyntax::IntRem => Ok(CalxInstr::IntRem),
            CalxSyntax::IntNeg => Ok(CalxInstr::IntNeg),
            CalxSyntax::IntShr => Ok(CalxInstr::IntShr),
            CalxSyntax::IntShl => Ok(CalxInstr::IntShl),
            CalxSyntax::IntEq => Ok(CalxInstr::IntEq),
            CalxSyntax::IntNe => Ok(CalxInstr::IntNe),
            CalxSyntax::IntLt => Ok(CalxInstr::IntLt),
            CalxSyntax::IntLe => Ok(CalxInstr::IntLe),
            CalxSyntax::IntGt => Ok(CalxInstr::IntGt),
            CalxSyntax::IntGe => Ok(CalxInstr::IntGe),
            CalxSyntax::Add => Ok(CalxInstr::Add),
            CalxSyntax::Mul => Ok(CalxInstr::Mul),
            CalxSyntax::Div => Ok(CalxInstr::Div),
            CalxSyntax::Neg => Ok(CalxInstr::Neg),
            CalxSyntax::NewList => Ok(CalxInstr::NewList),
            CalxSyntax::ListGet => Ok(CalxInstr::ListGet),
            CalxSyntax::ListSet => Ok(CalxInstr::ListSet),
            CalxSyntax::NewLink => Ok(CalxInstr::NewLink),
            CalxSyntax::And => Ok(CalxInstr::And),
            CalxSyntax::Or => Ok(CalxInstr::Or),
            CalxSyntax::Not => Ok(CalxInstr::Not),
            CalxSyntax::Echo => Ok(CalxInstr::Echo),
            CalxSyntax::Unreachable => Ok(CalxInstr::Unreachable),
            CalxSyntax::Nop => Ok(CalxInstr::Nop),
            CalxSyntax::Quit(a) => Ok(CalxInstr::Quit(*a)),
            CalxSyntax::Return => Ok(CalxInstr::Return),
            CalxSyntax::Assert(m) => Ok(CalxInstr::Assert(m.clone())),
            CalxSyntax::Inspect => Ok(CalxInstr::Inspect),
            CalxSyntax::Block { .. } => Err(String::from_str("Block is handled by the preprocessor")),
            CalxSyntax::BlockEnd(_) => Err(
                String::from_str("BlockEnd is handled by the preprocessor"),
            ),
            CalxSyntax::Br(_) => Err(String::from_str("Br is handled by the preprocessor")),
            CalxSyntax::BrIf(_) => Err(String::from_str("BrIf is handled by the preprocessor")),
            CalxSyntax::If { .. } => Err(String::from_str("If is handled by the preprocessor")),
            CalxSyntax::ThenEnd => Err(String::from_str("ThenEnd is handled by the preprocessor")),
            CalxSyntax::ElseEnd => Err(String::from_str("ElseEnd is handled by the preprocessor")),
            CalxSyntax::Do(_) => Err(String::from_str("do is handled by the preprocessor")),
            CalxSyntax::Call(_) => Err(String::from_str("Call is handled by the preprocessor")),
            CalxSyntax::ReturnCall(_) => Err(
                String::from_str("ReturnCall is handled by the preprocessor"),
            ),
            CalxSyntax::CallImport(_) => Err(
                String::from_str("CallImport is handled by the preprocessor"),
            ),
        }
    }
}

} // verus!
