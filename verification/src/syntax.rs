//! The rich surface instruction set: everything the executable set has,
//! plus the structured control forms the preprocessor lowers away.
use vstd::prelude::*;
use std::rc::Rc;

use crate::calx::{Calx, CalxType};

verus! {

/// A surface instruction, as the assembler produces it. Structured
/// control flow — blocks, loops, conditionals, depth-indexed branches,
/// and calls by name — is still present; the preprocessor resolves it
/// into the flat executable set.
#[derive(Debug, PartialEq)]
pub enum CalxSyntax {
    /// `local.set`: pop from the stack, store at the local position.
    LocalSet(usize),
    /// `local.tee`: pop, store at the local position, and push back.
    LocalTee(usize),
    /// `local.get`: load the local at the position onto the stack.
    LocalGet(usize),
    /// `local.new`: grow the frame's locals by one `nil` slot.
    LocalNew,
    /// `global.set`: pop and store at the global position.
    GlobalSet(usize),
    /// `global.get`: load the global at the position onto the stack.
    GlobalGet(usize),
    /// `global.new`: grow the globals by one `nil` slot.
    GlobalNew,
    /// `const`: push a copy of the value.
    Const(Calx),
    /// `dup`: duplicate the top of the stack.
    Dup,
    /// `drop`: discard the top of the stack.
    Drop,
    /// `i.add`: add two integers.
    IntAdd,
    /// `i.mul`: multiply two integers.
    IntMul,
    /// `i.div`: divide two integers, truncating.
    IntDiv,
    /// `i.rem`: remainder of two integers, sign following the numerator.
    IntRem,
    /// `i.neg`: negate an integer.
    IntNeg,
    /// `i.shr`: shift an integer right.
    IntShr,
    /// `i.shl`: shift an integer left.
    IntShl,
    /// `i.eq`: whether two integers are equal.
    IntEq,
    /// `i.ne`: whether two integers differ.
    IntNe,
    /// `i.lt`: whether the first integer is below the second.
    IntLt,
    /// `i.le`: whether the first integer is at most the second.
    IntLe,
    /// `i.gt`: whether the first integer is above the second.
    IntGt,
    /// `i.ge`: whether the first integer is at least the second.
    IntGe,
    /// `add`: add two numbers of one numeric kind.
    Add,
    /// `mul`: multiply two numbers of one numeric kind.
    Mul,
    /// `div`: divide two floats.
    Div,
    /// `neg`: negate a float.
    Neg,
    /// `new-list`: declared, not implemented.
    NewList,
    /// `list.get`: declared, not implemented.
    ListGet,
    /// `list.set`: declared, not implemented.
    ListSet,
    /// `new-link`: declared, not implemented.
    NewLink,
    /// `and`: declared, not implemented.
    And,
    /// `or`: declared, not implemented.
    Or,
    /// `not`: declared, not implemented.
    Not,
    /// A structured region, for `block` and `loop`.
    Block {
        /// Marks a loop, whose branches continue rather than exit.
        looped: bool,
        params_types: Rc<Vec<CalxType>>,
        ret_types: Rc<Vec<CalxType>>,
        /// Index of the first instruction of the body.
        from: usize,
        /// Index of the end marker.
        to: usize,
    },
    /// `br`: branch out of (or back to) the enclosing region at this depth.
    Br(usize),
    /// `br-if`: pop one value and branch if it is truthy.
    BrIf(usize),
    /// End of a `block` or `loop` region; the flag marks a loop.
    BlockEnd(bool),
    /// `do`: a plain nested sequence, used inside `if` branches.
    Do(Rc<Vec<CalxSyntax>>),
    /// `echo`: pop a value and print it as a line.
    Echo,
    /// `call`: call a function by name.
    Call(String),
    /// `return-call`: tail-call a function by name.
    ReturnCall(String),
    /// `call-import`: call a host-supplied import by name.
    CallImport(String),
    /// `unreachable`: reaching this is a preprocessing bug.
    Unreachable,
    /// `nop`: no effect.
    Nop,
    /// `quit`: stop the machine with a host exit status.
    Quit(usize),
    /// `return`: return from the current function.
    Return,
    /// `assert`: pop a value and fail with the message unless it is truthy.
    Assert(String),
    /// `inspect`: print a dump of the machine state.
    Inspect,
    /// A conditional: pops the predicate; the else branch is laid out
    /// first, `else_at` marks where the then branch starts, `to` where
    /// the whole form ends.
    If { ret_types: Rc<Vec<CalxType>>, else_at: usize, to: usize },
    /// End of the then branch of an `if`.
    ThenEnd,
    /// End of the else branch of an `if`.
    ElseEnd,
}

} // verus!
