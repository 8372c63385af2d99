//! The mathematical model of the machine: its state as plain sequences,
//! and the transition that one interpreter step performs.
use vstd::prelude::*;

use crate::block_data::{
    block_index_at, is_block_or_loop, spec_expected_finish_size, BlockData,
};
use crate::calx::Calx;
use crate::calx::CalxType;
use crate::text::dec_digits;
use crate::instr::{spec_stack_arity, spec_syntax_instr, CalxInstr};
use crate::syntax::CalxSyntax;

verus! {

/// A call frame, mathematically.
#[verifier::ext_equal]
pub struct FrameModel {
    pub name: Seq<char>,
    pub locals: Seq<Calx>,
    pub instrs: Seq<CalxInstr>,
    pub pointer: int,
    pub initial_stack_size: int,
    pub ret_types: Seq<CalxType>,
}

/// A function record, mathematically.
#[verifier::ext_equal]
pub struct FuncModel {
    pub name: Seq<char>,
    pub params: Seq<CalxType>,
    pub rets: Seq<CalxType>,
    pub syntax: Seq<CalxSyntax>,
    pub instrs: Seq<CalxInstr>,
}

/// The whole machine state, mathematically: the operand stack, globals,
/// the function table, the pending frames with the top frame apart, the
/// import names with their arities, and the finish flags.
#[verifier::ext_equal]
pub struct VMModel {
    pub stack: Seq<Calx>,
    pub globals: Seq<Calx>,
    pub funcs: Seq<FuncModel>,
    pub frames: Seq<FrameModel>,
    pub top: FrameModel,
    pub imports: Seq<(Seq<char>, int)>,
    pub finished: bool,
    pub return_value: Calx,
    pub quit_code: Option<usize>,
}

/// What one step does: moves to a new state, fails with a message while
/// leaving the state as it stood, or asks the host to run the import at
/// an index of the table.
pub enum StepSpec {
    Next(VMModel, bool),
    Failure(Seq<char>),
    Import(int),
    FloatBin(FloatKind),
}

/// The kinds of float arithmetic the host performs.
pub enum FloatKind {
    Add,
    Mul,
    Div,
}

/// A value that takes a conditional jump or passes an assertion: the
/// boolean `true` or the integer `1`, and nothing else.
pub open spec fn is_true_flag(v: Calx) -> bool {
    v == Calx::Bool(true) || v == Calx::I64(1)
}

/// The first import with this name, if any.
pub open spec fn find_import_at(imports: Seq<(Seq<char>, int)>, name: Seq<char>, i: int) -> Option<
    int,
>
    decreases imports.len() - i,
{
    if !(0 <= i < imports.len()) {
        None
    } else if imports[i].0 == name {
        Some(i)
    } else {
        find_import_at(imports, name, i + 1)
    }
}

/// The first function with this name, if any.
pub open spec fn find_func_at(funcs: Seq<FuncModel>, name: Seq<char>, i: int) -> Option<int>
    decreases funcs.len() - i,
{
    if !(0 <= i < funcs.len()) {
        None
    } else if funcs[i].name == name {
        Some(i)
    } else {
        find_func_at(funcs, name, i + 1)
    }
}

/// Truncating division of two signed 64-bit words, `None` on a zero
/// divisor or on the one overflowing pair.
pub open spec fn i64_div(a: i64, b: i64) -> Option<i64> {
    i64::checked_div(a, b)
}

/// Truncating remainder, sign following the numerator, `None` on a zero
/// divisor or on the one overflowing pair.
pub open spec fn i64_rem(a: i64, b: i64) -> Option<i64> {
    i64::checked_rem(a, b)
}

/// The result of one integer instruction on two integers, `None` where
/// the instruction cannot produce one.
pub open spec fn int_binop_value(i: CalxInstr, a: i64, b: i64) -> Option<Calx> {
    match i {
        CalxInstr::IntAdd => Some(Calx::I64(i64::wrapping_add(a, b))),
        CalxInstr::IntMul => Some(Calx::I64(i64::wrapping_mul(a, b))),
        CalxInstr::IntDiv => match i64_div(a, b) {
            Some(q) => Some(Calx::I64(q)),
            None => None,
        },
        CalxInstr::IntRem => match i64_rem(a, b) {
            Some(q) => Some(Calx::I64(q)),
            None => None,
        },
        CalxInstr::IntShr => {
            let k = b as u32;
            if k > 63 {
                None
            } else {
                Some(Calx::I64(a >> (k as i64)))
            }
        },
        CalxInstr::IntShl => {
            let k = b as u32;
            if k > 63 {
                None
            } else {
                Some(Calx::I64(a << (k as i64)))
            }
        },
        CalxInstr::IntEq => Some(Calx::Bool(a == b)),
        CalxInstr::IntNe => Some(Calx::Bool(a != b)),
        CalxInstr::IntLt => Some(Calx::Bool(a < b)),
        CalxInstr::IntLe => Some(Calx::Bool(a <= b)),
        CalxInstr::IntGt => Some(Calx::Bool(a > b)),
        CalxInstr::IntGe => Some(Calx::Bool(a >= b)),
        CalxInstr::Add => Some(Calx::I64(i64::wrapping_add(a, b))),
        CalxInstr::Mul => Some(Calx::I64(i64::wrapping_mul(a, b))),
        _ => None,
    }
}

/// Whether the instruction is one of the two-operand integer forms.
pub open spec fn is_int_binop(i: CalxInstr) -> bool {
    ||| i == CalxInstr::IntAdd
    ||| i == CalxInstr::IntMul
    ||| i == CalxInstr::IntDiv
    ||| i == CalxInstr::IntRem
    ||| i == CalxInstr::IntShr
    ||| i == CalxInstr::IntShl
    ||| i == CalxInstr::IntEq
    ||| i == CalxInstr::IntNe
    ||| i == CalxInstr::IntLt
    ||| i == CalxInstr::IntLe
    ||| i == CalxInstr::IntGt
    ||| i == CalxInstr::IntGe
}

/// The sign-flipped copy of a float's bit pattern: IEEE-754 negation.
pub open spec fn f64_negated(bits: u64) -> u64 {
    bits ^ 0x8000_0000_0000_0000u64
}

/// The wrapping negation of a signed 64-bit word.
pub open spec fn i64_negated(x: i64) -> i64 {
    if x == i64::MIN {
        i64::MIN
    } else {
        (-x) as i64
    }
}

/// The state after a two-operand integer instruction replaces the two
/// top operands with its result.
pub open spec fn binop_next(m: VMModel, v: Calx) -> VMModel {
    let n = m.stack.len() as int;
    VMModel { stack: m.stack.drop_last().update(n - 2, v), ..m }
}

/// The failure a pop below the frame's floor gives.
pub open spec fn pop_guard(m: VMModel) -> Option<Seq<char>> {
    if m.stack.len() == 0 {
        Some("cannot pop from empty stack"@)
    } else if m.stack.len() <= m.top.initial_stack_size {
        Some("cannot pop from parent stack"@)
    } else {
        None
    }
}

/// The failure a removal of `k` operands below the frame's floor gives.
pub open spec fn pop_n_guard(m: VMModel, k: int) -> Option<Seq<char>> {
    if m.stack.len() < k {
        Some("cannot pop from empty stack"@)
    } else if m.stack.len() - k < m.top.initial_stack_size {
        Some("cannot pop from parent stack"@)
    } else {
        None
    }
}

/// Whether the operand stack holds exactly the frame's entry depth plus
/// its declared return count — the condition checked when a function
/// returns, explicitly or by falling off its end.
pub open spec fn ret_depth_ok(m: VMModel) -> bool {
    m.stack.len() == m.top.initial_stack_size + m.top.ret_types.len()
}

/// One step of the machine, from a state where the machine has not
/// finished. Past the last instruction the function returns implicitly;
/// otherwise the instruction under the pointer is dispatched.
#[verifier::opaque]
pub open spec fn step_model(m: VMModel) -> StepSpec {
    if m.top.pointer >= m.top.instrs.len() {
        if !ret_depth_ok(m) {
            StepSpec::Failure("stack size does not fit the frame"@)
        } else if m.frames.len() > 0 {
            StepSpec::Next(
                VMModel {
                    frames: m.frames.drop_last(),
                    top: FrameModel { pointer: m.frames.last().pointer + 1, ..m.frames.last() },
                    ..m
                },
                true,
            )
        } else {
            if m.stack.len() > 0 {
                StepSpec::Next(
                    VMModel {
                        stack: m.stack.drop_last(),
                        finished: true,
                        return_value: m.stack.last(),
                        ..m
                    },
                    false,
                )
            } else {
                StepSpec::Next(VMModel { finished: true, return_value: Calx::Nil, ..m }, false)
            }
        }
    } else {
        let instr = m.top.instrs[m.top.pointer];
        let n = m.stack.len() as int;
        match instr {
            CalxInstr::Jmp(l) => StepSpec::Next(
                VMModel { top: FrameModel { pointer: l as int, ..m.top }, ..m },
                true,
            ),
            CalxInstr::JmpIf(l) => {
                if n == 0 {
                    StepSpec::Failure("cannot pop from empty stack"@)
                } else {
                    let v = m.stack.last();
                    if is_true_flag(v) {
                        StepSpec::Next(
                            VMModel {
                                stack: m.stack.drop_last(),
                                top: FrameModel { pointer: l as int, ..m.top },
                                ..m
                            },
                            true,
                        )
                    } else {
                        StepSpec::Next(VMModel { stack: m.stack.drop_last(), ..m }, false)
                    }
                }
            },
            CalxInstr::LocalSet(idx) => match pop_guard(m) {
                Some(msg) => StepSpec::Failure(msg),
                None => {
                    if idx >= m.top.locals.len() {
                        StepSpec::Failure("out of bound in local.set"@)
                    } else {
                        StepSpec::Next(
                            VMModel {
                                stack: m.stack.drop_last(),
                                top: FrameModel {
                                    locals: m.top.locals.update(idx as int, m.stack.last()),
                                    ..m.top
                                },
                                ..m
                            },
                            false,
                        )
                    }
                },
            },
            CalxInstr::LocalTee(idx) => match pop_guard(m) {
                Some(msg) => StepSpec::Failure(msg),
                None => {
                    if idx >= m.top.locals.len() {
                        StepSpec::Failure("out of bound in local.tee"@)
                    } else {
                        StepSpec::Next(
                            VMModel {
                                top: FrameModel {
                                    locals: m.top.locals.update(idx as int, m.stack.last()),
                                    ..m.top
                                },
                                ..m
                            },
                            false,
                        )
                    }
                },
            },
            CalxInstr::LocalGet(idx) => {
                if idx < m.top.locals.len() {
                    StepSpec::Next(
                        VMModel { stack: m.stack.push(m.top.locals[idx as int]), ..m },
                        false,
                    )
                } else {
                    StepSpec::Failure("invalid index for local.get"@)
                }
            },
            CalxInstr::LocalNew => StepSpec::Next(
                VMModel {
                    top: FrameModel { locals: m.top.locals.push(Calx::Nil), ..m.top },
                    ..m
                },
                false,
            ),
            CalxInstr::GlobalSet(idx) => match pop_guard(m) {
                Some(msg) => StepSpec::Failure(msg),
                None => {
                    if idx >= m.globals.len() {
                        StepSpec::Failure("out of bound in global.set"@)
                    } else {
                        StepSpec::Next(
                            VMModel {
                                stack: m.stack.drop_last(),
                                globals: m.globals.update(idx as int, m.stack.last()),
                                ..m
                            },
                            false,
                        )
                    }
                },
            },
            CalxInstr::GlobalGet(idx) => {
                if idx < m.globals.len() {
                    StepSpec::Next(VMModel { stack: m.stack.push(m.globals[idx as int]), ..m }, false)
                } else {
                    StepSpec::Failure("invalid index for global.get"@)
                }
            },
            CalxInstr::GlobalNew => StepSpec::Next(
                VMModel { globals: m.globals.push(Calx::Nil), ..m },
                false,
            ),
            CalxInstr::Const(v) => StepSpec::Next(VMModel { stack: m.stack.push(v), ..m }, false),
            CalxInstr::Dup => {
                if n > 0 {
                    StepSpec::Next(VMModel { stack: m.stack.push(m.stack.last()), ..m }, false)
                } else {
                    StepSpec::Failure("cannot pop from empty stack"@)
                }
            },
            CalxInstr::Drop => {
                if n <= m.top.initial_stack_size {
                    StepSpec::Failure("cannot pop from parent stack"@)
                } else {
                    StepSpec::Next(VMModel { stack: m.stack.drop_last(), ..m }, false)
                }
            },
            CalxInstr::IntNeg => {
                if n == 0 {
                    StepSpec::Failure("expected an integer"@)
                } else {
                    match m.stack.last() {
                        Calx::I64(x) => StepSpec::Next(
                            VMModel {
                                stack: m.stack.update(n - 1, Calx::I64(i64_negated(x))),
                                ..m
                            },
                            false,
                        ),
                        _ => StepSpec::Failure("expected an integer"@),
                    }
                }
            },
            CalxInstr::Neg => {
                if n == 0 {
                    StepSpec::Failure("expected a float"@)
                } else {
                    match m.stack.last() {
                        Calx::F64(bits) => StepSpec::Next(
                            VMModel {
                                stack: m.stack.update(n - 1, Calx::F64(f64_negated(bits))),
                                ..m
                            },
                            false,
                        ),
                        _ => StepSpec::Failure("expected a float"@),
                    }
                }
            },
            CalxInstr::NewList => StepSpec::Failure("list.new is not implemented"@),
            CalxInstr::ListGet => StepSpec::Failure("list.get is not implemented"@),
            CalxInstr::ListSet => StepSpec::Failure("list.set is not implemented"@),
            CalxInstr::NewLink => StepSpec::Failure("new-link is not implemented"@),
            CalxInstr::And => StepSpec::Failure("and is not implemented"@),
            CalxInstr::Or => StepSpec::Failure("or is not implemented"@),
            CalxInstr::Not => StepSpec::Failure("not is not implemented"@),
            CalxInstr::Return => {
                if !ret_depth_ok(m) {
                    StepSpec::Failure("stack size does not fit the frame"@)
                } else if m.frames.len() == 0 {
                    if m.stack.len() > 0 {
                        StepSpec::Next(
                            VMModel { finished: true, return_value: m.stack.last(), ..m },
                            false,
                        )
                    } else {
                        StepSpec::Failure("return without value"@)
                    }
                } else {
                    StepSpec::Next(
                        VMModel { frames: m.frames.drop_last(), top: m.frames.last(), ..m },
                        false,
                    )
                }
            },
            CalxInstr::Call(fi) => {
                if fi >= m.funcs.len() {
                    StepSpec::Failure("invalid function index"@)
                } else {
                    let f = m.funcs[fi as int];
                    let pn = f.params.len() as int;
                    match pop_n_guard(m, pn) {
                        Some(msg) => StepSpec::Failure(msg),
                        None => StepSpec::Next(
                            VMModel {
                                stack: m.stack.take(n - pn),
                                frames: m.frames.push(m.top),
                                top: FrameModel {
                                    name: f.name,
                                    locals: m.stack.skip(n - pn),
                                    instrs: f.instrs,
                                    pointer: 0,
                                    initial_stack_size: n - pn,
                                    ret_types: f.rets,
                                },
                                ..m
                            },
                            true,
                        ),
                    }
                }
            },
            CalxInstr::ReturnCall(fi) => {
                if fi >= m.funcs.len() {
                    StepSpec::Failure("invalid function index"@)
                } else {
                    let f = m.funcs[fi as int];
                    let pn = f.params.len() as int;
                    match pop_n_guard(m, pn) {
                        Some(msg) => StepSpec::Failure(msg),
                        None => {
                            if m.top.initial_stack_size != n - pn {
                                StepSpec::Failure("expected a constant initial stack size"@)
                            } else {
                                StepSpec::Next(
                                    VMModel {
                                        stack: m.stack.take(n - pn),
                                        top: FrameModel {
                                            name: f.name,
                                            locals: m.stack.skip(n - pn),
                                            instrs: f.instrs,
                                            pointer: 0,
                                            initial_stack_size: n - pn,
                                            ret_types: f.rets,
                                        },
                                        ..m
                                    },
                                    true,
                                )
                            }
                        },
                    }
                }
            },
            CalxInstr::CallImport(name) => match find_import_at(m.imports, name@, 0) {
                None => StepSpec::Failure("missing imported function"@),
                Some(j) => {
                    let arity = m.imports[j].1;
                    match pop_n_guard(m, arity) {
                        Some(msg) => StepSpec::Failure(msg),
                        None => StepSpec::Import(j),
                    }
                },
            },
            CalxInstr::Unreachable => StepSpec::Failure("reached unreachable"@),
            CalxInstr::Nop => StepSpec::Next(m, false),
            CalxInstr::Quit(code) => StepSpec::Next(
                VMModel { finished: true, quit_code: Some(code), ..m },
                false,
            ),
            CalxInstr::Echo => {
                if n <= m.top.initial_stack_size {
                    StepSpec::Failure("cannot pop from parent stack"@)
                } else {
                    StepSpec::Next(VMModel { stack: m.stack.drop_last(), ..m }, false)
                }
            },
            CalxInstr::Assert(msg) => match pop_guard(m) {
                Some(g) => StepSpec::Failure(g),
                None => {
                    if is_true_flag(m.stack.last()) {
                        StepSpec::Next(VMModel { stack: m.stack.drop_last(), ..m }, false)
                    } else {
                        StepSpec::Failure("Failed assertion: "@ + msg@)
                    }
                },
            },
            CalxInstr::Inspect => StepSpec::Next(m, false),
            _ => {
                // the two-operand numeric instructions take both operands
                // from above the frame's floor
                if n < 2 {
                    StepSpec::Failure("cannot pop from empty stack"@)
                } else if n - 2 < m.top.initial_stack_size {
                    StepSpec::Failure("cannot pop from parent stack"@)
                } else {
                    let a = m.stack[n - 2];
                    let b = m.stack[n - 1];
                    match (a, b) {
                        (Calx::I64(x), Calx::I64(y)) => {
                            if is_int_binop(instr) || instr == CalxInstr::Add || instr
                                == CalxInstr::Mul {
                                match int_binop_value(instr, x, y) {
                                    Some(v) => StepSpec::Next(binop_next(m, v), false),
                                    None => StepSpec::Failure("invalid integer operands"@),
                                }
                            } else {
                                StepSpec::Failure("expected two floats"@)
                            }
                        },
                        (Calx::F64(x), Calx::F64(y)) => {
                            if instr == CalxInstr::Add {
                                StepSpec::FloatBin(FloatKind::Add)
                            } else if instr == CalxInstr::Mul {
                                StepSpec::FloatBin(FloatKind::Mul)
                            } else if instr == CalxInstr::Div {
                                StepSpec::FloatBin(FloatKind::Div)
                            } else {
                                StepSpec::Failure("expected two integers"@)
                            }
                        },
                        _ => StepSpec::Failure("mismatched numeric operands"@),
                    }
                }
            },
        }
    }
}

/// A found import sits in the table and bears the name.
pub proof fn lemma_find_import_at(imports: Seq<(Seq<char>, int)>, name: Seq<char>, i: int)
    ensures
        find_import_at(imports, name, i) matches Some(j) ==> i <= j < imports.len()
            && imports[j].0 == name,
    decreases imports.len() - i,
{
    if 0 <= i < imports.len() && !(imports[i].0 == name) {
        lemma_find_import_at(imports, name, i + 1);
    }
}

/// A found function sits in the table and bears the name.
pub proof fn lemma_find_func_at(funcs: Seq<FuncModel>, name: Seq<char>, i: int)
    ensures
        find_func_at(funcs, name, i) matches Some(j) ==> i <= j < funcs.len() && funcs[j].name
            == name,
    decreases funcs.len() - i,
{
    if 0 <= i < funcs.len() && !(funcs[i].name == name) {
        lemma_find_func_at(funcs, name, i + 1);
    }
}

/// The preprocessor's running state over one function: the simulated
/// operand depth, the open regions, and the instructions emitted so far.
#[verifier::ext_equal]
pub struct PPState {
    pub depth: int,
    pub blocks: Seq<BlockData>,
    pub ops: Seq<CalxInstr>,
}

/// What the preprocessor does with one surface instruction: checks the
/// simulated stack, resolves structured control flow and call names, and
/// emits one executable instruction; or refuses with a message. `limit`
/// is the length of the function's surface syntax — each item emits one
/// instruction, so it is also the length of the compiled stream — and
/// region targets are held inside it.
#[verifier::opaque]
pub open spec fn pp_step(
    funcs: Seq<FuncModel>,
    imports: Seq<(Seq<char>, int)>,
    fn_rets: Seq<CalxType>,
    limit: int,
    st: PPState,
    syn: CalxSyntax,
) -> Result<PPState, Seq<char>> {
    match syn {
        CalxSyntax::Block { looped, params_types, ret_types, from, to } => {
            if !(from <= to && to < limit) {
                Err("block target out of range"@)
            } else if st.depth < params_types@.len() {
                Err("insufficient params for a block"@)
            } else {
                let b = if looped {
                    BlockData::Loop {
                        params_types,
                        ret_types,
                        from,
                        to,
                        initial_stack_size: st.depth as usize,
                    }
                } else {
                    BlockData::Block {
                        params_types,
                        ret_types,
                        to,
                        initial_stack_size: st.depth as usize,
                    }
                };
                Ok(
                    PPState {
                        depth: st.depth,
                        blocks: st.blocks.push(b),
                        ops: st.ops.push(CalxInstr::Nop),
                    },
                )
            }
        },
        CalxSyntax::Br(level) => {
            if level > st.blocks.len() {
                Err("branch level too large"@)
            } else {
                match block_index_at(st.blocks, level as nat) {
                    None => Err("no block found on stack"@),
                    Some(bi) => {
                        let b = st.blocks[bi];
                        if st.depth != spec_expected_finish_size(b) {
                            Err("stack size mismatch for the branch"@)
                        } else {
                            let target = match b {
                                BlockData::Loop { from, .. } => from,
                                BlockData::Block { to, .. } => to,
                                BlockData::If { to, .. } => to,
                            };
                            Ok(PPState { ops: st.ops.push(CalxInstr::Jmp(target)), ..st })
                        }
                    },
                }
            }
        },
        CalxSyntax::BrIf(level) => {
            if st.blocks.len() == 0 {
                Err("no block to branch in"@)
            } else if level > st.blocks.len() {
                Err("branch level too large"@)
            } else {
                match block_index_at(st.blocks, level as nat) {
                    None => Err("no block found on stack"@),
                    Some(bi) => {
                        let b = st.blocks[bi];
                        if st.depth < 1 {
                            Err("insufficient stack for br-if"@)
                        } else if st.depth - 1 != spec_expected_finish_size(b) {
                            Err("stack size mismatch for the branch"@)
                        } else {
                            let target = match b {
                                BlockData::Loop { from, .. } => from,
                                BlockData::Block { to, .. } => to,
                                BlockData::If { to, .. } => to,
                            };
                            Ok(
                                PPState {
                                    depth: st.depth - 1,
                                    blocks: st.blocks,
                                    ops: st.ops.push(CalxInstr::JmpIf(target)),
                                },
                            )
                        }
                    },
                }
            }
        },
        CalxSyntax::BlockEnd(looped) => {
            if st.blocks.len() == 0 {
                Err("invalid block end"@)
            } else {
                match block_index_at(st.blocks, 0) {
                    None => Err("no block found on stack"@),
                    Some(bi) => {
                        let b = st.blocks[bi];
                        if !looped && st.depth != spec_expected_finish_size(b) {
                            Err("size mismatch for a block end"@)
                        } else {
                            Ok(
                                PPState {
                                    depth: st.depth,
                                    blocks: st.blocks.take(bi),
                                    ops: st.ops.push(CalxInstr::Nop),
                                },
                            )
                        }
                    },
                }
            }
        },
        CalxSyntax::Call(name) => {
            match find_func_at(funcs, name@, 0) {
                None => Err("cannot find the function to call"@),
                Some(fi) => {
                    let f = funcs[fi];
                    if st.depth < f.params.len() {
                        Err("insufficient stack to call"@)
                    } else if st.depth - f.params.len() + f.rets.len() > usize::MAX {
                        Err("stack depth too large"@)
                    } else {
                        Ok(
                            PPState {
                                depth: st.depth - f.params.len() + f.rets.len(),
                                blocks: st.blocks,
                                ops: st.ops.push(CalxInstr::Call(fi as usize)),
                            },
                        )
                    }
                },
            }
        },
        CalxSyntax::ReturnCall(name) => {
            match find_func_at(funcs, name@, 0) {
                None => Err("cannot find the function to call"@),
                Some(fi) => {
                    let f = funcs[fi];
                    if st.depth < f.params.len() {
                        Err("insufficient stack to call"@)
                    } else if st.depth - f.params.len() + f.rets.len() > usize::MAX {
                        Err("stack depth too large"@)
                    } else {
                        Ok(
                            PPState {
                                depth: st.depth - f.params.len() + f.rets.len(),
                                blocks: st.blocks,
                                ops: st.ops.push(CalxInstr::ReturnCall(fi as usize)),
                            },
                        )
                    }
                },
            }
        },
        CalxSyntax::CallImport(name) => {
            match find_import_at(imports, name@, 0) {
                None => Err("missing imported function"@),
                Some(ii) => {
                    let arity = imports[ii].1;
                    if st.depth < arity {
                        Err("insufficient stack to call an import"@)
                    } else if st.depth - arity + 1 > usize::MAX {
                        Err("stack depth too large"@)
                    } else {
                        Ok(
                            PPState {
                                depth: st.depth - arity + 1,
                                blocks: st.blocks,
                                ops: st.ops.push(CalxInstr::CallImport(name)),
                            },
                        )
                    }
                },
            }
        },
        CalxSyntax::Return => {
            if st.depth < fn_rets.len() {
                Err("insufficient stack to return"@)
            } else if st.depth - fn_rets.len() != 0 {
                Err("invalid return size"@)
            } else {
                Ok(
                    PPState {
                        depth: 0,
                        blocks: st.blocks,
                        ops: st.ops.push(CalxInstr::Return),
                    },
                )
            }
        },
        CalxSyntax::If { ret_types, else_at, to } => {
            if !(else_at < to && to <= limit) {
                Err("if target out of range"@)
            } else if st.depth < 1 {
                Err("insufficient stack to branch"@)
            } else {
                Ok(
                    PPState {
                        depth: st.depth - 1,
                        blocks: st.blocks.push(
                            BlockData::If {
                                ret_types,
                                else_to: else_at,
                                to,
                                initial_stack_size: st.depth as usize,
                            },
                        ),
                        ops: st.ops.push(CalxInstr::JmpIf(else_at)),
                    },
                )
            }
        },
        CalxSyntax::ElseEnd => {
            // the then branch simulates from the same depth the else
            // branch started at: the region's entry depth less the
            // predicate
            if st.blocks.len() == 0 {
                Err("no block found on stack"@)
            } else {
                match st.blocks.last() {
                    BlockData::If { to, initial_stack_size, .. } => {
                        if initial_stack_size < 1 {
                            Err("invalid if region"@)
                        } else if st.depth != spec_expected_finish_size(st.blocks.last()) {
                            Err("size mismatch for an else end"@)
                        } else {
                            Ok(
                                PPState {
                                    depth: initial_stack_size - 1,
                                    blocks: st.blocks,
                                    ops: st.ops.push(CalxInstr::Jmp(to)),
                                },
                            )
                        }
                    },
                    _ => Err("expected an if region"@),
                }
            }
        },
        CalxSyntax::ThenEnd => {
            if st.blocks.len() == 0 {
                Err("no block found on stack"@)
            } else {
                match st.blocks.last() {
                    BlockData::If { to, .. } => {
                        if st.depth != spec_expected_finish_size(st.blocks.last()) {
                            Err("size mismatch for a then end"@)
                        } else {
                            Ok(
                                PPState {
                                    depth: st.depth,
                                    blocks: st.blocks.drop_last(),
                                    ops: st.ops.push(CalxInstr::Jmp(to)),
                                },
                            )
                        }
                    },
                    _ => Err("expected an if region"@),
                }
            }
        },
        _ => {
            match spec_syntax_instr(syn) {
                None => Err("do is handled by the preprocessor"@),
                Some(instr) => {
                    let a = spec_stack_arity(instr);
                    if st.depth < a.0 {
                        Err("insufficient stack for the instruction"@)
                    } else if st.depth - a.0 + a.1 > usize::MAX {
                        Err("stack depth too large"@)
                    } else {
                        Ok(
                            PPState {
                                depth: st.depth - a.0 + a.1,
                                blocks: st.blocks,
                                ops: st.ops.push(instr),
                            },
                        )
                    }
                },
            }
        },
    }
}

/// The surface instructions of one function read in order, from position
/// `i` on.
pub open spec fn pp_fold(
    funcs: Seq<FuncModel>,
    imports: Seq<(Seq<char>, int)>,
    fn_rets: Seq<CalxType>,
    limit: int,
    syns: Seq<CalxSyntax>,
    i: int,
    st: PPState,
) -> Result<PPState, Seq<char>>
    decreases syns.len() - i,
{
    if !(0 <= i < syns.len()) {
        Ok(st)
    } else {
        match pp_step(funcs, imports, fn_rets, limit, st, syns[i]) {
            Err(m) => Err(m),
            Ok(st2) => pp_fold(funcs, imports, fn_rets, limit, syns, i + 1, st2),
        }
    }
}

/// What preprocessing one function produces: its flat instruction stream,
/// provided every check passes and the simulated stack ends either empty
/// (an explicit return consumed the values) or holding exactly the
/// declared return values (an implicit return will consume them).
pub open spec fn pp_run(
    funcs: Seq<FuncModel>,
    imports: Seq<(Seq<char>, int)>,
    f: FuncModel,
) -> Result<Seq<CalxInstr>, Seq<char>> {
    match pp_fold(
        funcs,
        imports,
        f.rets,
        f.syntax.len() as int,
        f.syntax,
        0,
        PPState { depth: 0, blocks: Seq::empty(), ops: Seq::empty() },
    ) {
        Err(m) => Err(m),
        Ok(st) => {
            if st.depth != 0 && st.depth != f.rets.len() {
                Err("invalid final stack size "@ + dec_digits(st.depth as nat))
            } else {
                Ok(st.ops)
            }
        },
    }
}

/// A tail call never grows the call stack: where the instruction under
/// the pointer is `ReturnCall` and the step moves on, the pending frames
/// after the step are exactly the pending frames before it. Together with
/// `Call` pushing one frame and returns popping one, a mutually recursive
/// pair using tail calls runs in constant frame depth.
pub proof fn lemma_return_call_keeps_frames(m: VMModel)
    requires
        0 <= m.top.pointer < m.top.instrs.len(),
        m.top.instrs[m.top.pointer] matches CalxInstr::ReturnCall(_),
    ensures
        step_model(m) matches StepSpec::Next(m2, q) ==> m2.frames == m.frames && q == true,
{
    reveal(step_model);
}

/// Whether every call in an instruction stream aims at a real function.
pub open spec fn call_targets_ok(ops: Seq<CalxInstr>, n_funcs: int) -> bool {
    forall|i: int|
        0 <= i < ops.len() ==> match #[trigger] ops[i] {
            CalxInstr::Call(fi) => fi < n_funcs,
            CalxInstr::ReturnCall(fi) => fi < n_funcs,
            _ => true,
        }
}

/// One preprocessor step keeps every call target valid: a `call` or
/// `return-call` is only emitted for a name found in the function table.
proof fn lemma_pp_step_call_targets(
    funcs: Seq<FuncModel>,
    imports: Seq<(Seq<char>, int)>,
    fn_rets: Seq<CalxType>,
    limit: int,
    st: PPState,
    syn: CalxSyntax,
)
    requires
        call_targets_ok(st.ops, funcs.len() as int),
        funcs.len() <= usize::MAX,
    ensures
        pp_step(funcs, imports, fn_rets, limit, st, syn) matches Ok(st2) ==> call_targets_ok(
            st2.ops,
            funcs.len() as int,
        ),
{
    reveal(pp_step);
    match pp_step(funcs, imports, fn_rets, limit, st, syn) {
        Ok(st2) => {
            match syn {
                CalxSyntax::Call(name) => {
                    lemma_find_func_at(funcs, name@, 0);
                },
                CalxSyntax::ReturnCall(name) => {
                    lemma_find_func_at(funcs, name@, 0);
                },
                _ => {},
            }
            assert forall|i: int|
                0 <= i < st2.ops.len() implies match #[trigger] st2.ops[i] {
                CalxInstr::Call(fi) => fi < funcs.len() as int,
                CalxInstr::ReturnCall(fi) => fi < funcs.len() as int,
                _ => true,
            } by {
                if i < st.ops.len() {
                    assert(st2.ops[i] == st.ops[i]);
                }
            }
        },
        Err(_) => {},
    }
}

/// The preprocessor folds keep every call target valid.
proof fn lemma_pp_fold_call_targets(
    funcs: Seq<FuncModel>,
    imports: Seq<(Seq<char>, int)>,
    fn_rets: Seq<CalxType>,
    limit: int,
    syns: Seq<CalxSyntax>,
    i: int,
    st: PPState,
)
    requires
        call_targets_ok(st.ops, funcs.len() as int),
        funcs.len() <= usize::MAX,
    ensures
        pp_fold(funcs, imports, fn_rets, limit, syns, i, st) matches Ok(st2) ==> call_targets_ok(
            st2.ops,
            funcs.len() as int,
        ),
    decreases syns.len() - i,
{
    if 0 <= i < syns.len() {
        lemma_pp_step_call_targets(funcs, imports, fn_rets, limit, st, syns[i]);
        match pp_step(funcs, imports, fn_rets, limit, st, syns[i]) {
            Ok(st2) => {
                lemma_pp_fold_call_targets(funcs, imports, fn_rets, limit, syns, i + 1, st2);
            },
            Err(_) => {},
        }
    }
}

/// Every instruction stream the preprocessor accepts aims its calls at
/// real functions: each `call` and `return-call` carries an index below
/// the function table's length, resolved from a name found there with the
/// arity of that very function.
pub proof fn lemma_preprocess_call_targets(
    funcs: Seq<FuncModel>,
    imports: Seq<(Seq<char>, int)>,
    f: FuncModel,
)
    requires
        funcs.len() <= usize::MAX,
    ensures
        pp_run(funcs, imports, f) matches Ok(ops) ==> call_targets_ok(ops, funcs.len() as int),
{
    let init = PPState { depth: 0, blocks: Seq::empty(), ops: Seq::empty() };
    assert(call_targets_ok(init.ops, funcs.len() as int));
    lemma_pp_fold_call_targets(funcs, imports, f.rets, f.syntax.len() as int, f.syntax, 0, init);
}

/// Whether every jump in an instruction stream stays within bounds: a
/// target below `limit` is a real index, a target equal to `limit` is the
/// point one past the end, where execution performs the implicit return.
pub open spec fn jump_targets_ok(ops: Seq<CalxInstr>, limit: int) -> bool {
    forall|i: int|
        0 <= i < ops.len() ==> match #[trigger] ops[i] {
            CalxInstr::Jmp(t) => t <= limit,
            CalxInstr::JmpIf(t) => t <= limit,
            _ => true,
        }
}

/// Whether every open region carries bounded targets.
pub open spec fn block_targets_ok(blocks: Seq<BlockData>, limit: int) -> bool {
    forall|i: int|
        0 <= i < blocks.len() ==> match #[trigger] blocks[i] {
            BlockData::Block { to, .. } => to < limit,
            BlockData::Loop { from, to, .. } => from <= to && to < limit,
            BlockData::If { else_to, to, .. } => else_to < to && to <= limit,
        }
}

/// One preprocessor step keeps regions and emitted jumps within bounds.
proof fn lemma_pp_step_jump_targets(
    funcs: Seq<FuncModel>,
    imports: Seq<(Seq<char>, int)>,
    fn_rets: Seq<CalxType>,
    limit: int,
    st: PPState,
    syn: CalxSyntax,
)
    requires
        jump_targets_ok(st.ops, limit),
        block_targets_ok(st.blocks, limit),
    ensures
        pp_step(funcs, imports, fn_rets, limit, st, syn) matches Ok(st2) ==> ({
            &&& jump_targets_ok(st2.ops, limit)
            &&& block_targets_ok(st2.blocks, limit)
            &&& st2.ops.len() == st.ops.len() + 1
        }),
{
    reveal(pp_step);
    match pp_step(funcs, imports, fn_rets, limit, st, syn) {
        Ok(st2) => {
            match syn {
                CalxSyntax::Br(level) => {
                    crate::block_data::lemma_block_index_at(st.blocks, level as nat);
                },
                CalxSyntax::BrIf(level) => {
                    crate::block_data::lemma_block_index_at(st.blocks, level as nat);
                },
                CalxSyntax::BlockEnd(_) => {
                    crate::block_data::lemma_block_index_at(st.blocks, 0);
                    let bi = block_index_at(st.blocks, 0)->Some_0;
                    assert forall|i: int|
                        0 <= i < st2.blocks.len() implies match #[trigger] st2.blocks[i] {
                        BlockData::Block { to, .. } => to < limit,
                        BlockData::Loop { from, to, .. } => from <= to && to < limit,
                        BlockData::If { else_to, to, .. } => else_to < to && to <= limit,
                    } by {
                        assert(st2.blocks[i] == st.blocks[i]);
                    }
                },
                _ => {},
            }
            assert forall|i: int|
                0 <= i < st2.ops.len() implies match #[trigger] st2.ops[i] {
                CalxInstr::Jmp(t) => t <= limit,
                CalxInstr::JmpIf(t) => t <= limit,
                _ => true,
            } by {
                if i < st.ops.len() {
                    assert(st2.ops[i] == st.ops[i]);
                }
            }
        },
        Err(_) => {},
    }
}

/// The preprocessor folds keep regions and emitted jumps within bounds,
/// each accepted item emitting exactly one instruction.
proof fn lemma_pp_fold_jump_targets(
    funcs: Seq<FuncModel>,
    imports: Seq<(Seq<char>, int)>,
    fn_rets: Seq<CalxType>,
    limit: int,
    syns: Seq<CalxSyntax>,
    i: int,
    st: PPState,
)
    requires
        jump_targets_ok(st.ops, limit),
        block_targets_ok(st.blocks, limit),
        0 <= i <= syns.len(),
    ensures
        pp_fold(funcs, imports, fn_rets, limit, syns, i, st) matches Ok(st2) ==> ({
            &&& jump_targets_ok(st2.ops, limit)
            &&& st2.ops.len() == st.ops.len() + (syns.len() - i)
        }),
    decreases syns.len() - i,
{
    if i < syns.len() {
        lemma_pp_step_jump_targets(funcs, imports, fn_rets, limit, st, syns[i]);
        match pp_step(funcs, imports, fn_rets, limit, st, syns[i]) {
            Ok(st2) => {
                lemma_pp_fold_jump_targets(funcs, imports, fn_rets, limit, syns, i + 1, st2);
            },
            Err(_) => {},
        }
    }
}

/// Every instruction stream the preprocessor accepts is as long as the
/// surface syntax it came from, and aims every jump within bounds: each
/// `Jmp` and `JmpIf` target is at most the stream length — below it, a
/// real instruction index; equal to it, the point one past the end, where
/// the machine performs the implicit return (the end of a conditional
/// laid out at the very end of a body jumps there).
pub proof fn lemma_preprocess_jump_targets(
    funcs: Seq<FuncModel>,
    imports: Seq<(Seq<char>, int)>,
    f: FuncModel,
)
    ensures
        pp_run(funcs, imports, f) matches Ok(ops) ==> ({
            &&& ops.len() == f.syntax.len()
            &&& jump_targets_ok(ops, ops.len() as int)
        }),
{
    let limit = f.syntax.len() as int;
    let init = PPState { depth: 0, blocks: Seq::empty(), ops: Seq::empty() };
    assert(jump_targets_ok(init.ops, limit));
    assert(block_targets_ok(init.blocks, limit));
    lemma_pp_fold_jump_targets(funcs, imports, f.rets, limit, f.syntax, 0, init);
}

/// What the driving loop does with the pointer after one step: a quick
/// step set it itself; otherwise it advances past the instruction, unless
/// the machine finished.
pub open spec fn advance_model(m: VMModel, quick: bool) -> VMModel {
    if !quick && !m.finished {
        VMModel { top: FrameModel { pointer: m.top.pointer + 1, ..m.top }, ..m }
    } else {
        m
    }
}

/// Where iterated stepping arrives: the machine finished with a value,
/// a step failed with a message (the state as it stood before that step),
/// the machine reached work only the host performs — an import call or
/// float arithmetic — or the fuel ran out first.
pub enum RunSpec {
    Finished(VMModel, Calx),
    Failed(VMModel, Seq<char>),
    Blocked(VMModel),
    OutOfFuel(VMModel),
}

/// At most `fuel` machine steps, each one `step_model` followed by the
/// pointer advance. Execution beyond an import call or float instruction
/// depends on the host, so the fold stops there.
pub open spec fn run_model(m: VMModel, fuel: nat) -> RunSpec
    decreases fuel,
{
    if m.finished {
        RunSpec::Finished(m, m.return_value)
    } else if fuel == 0 {
        RunSpec::OutOfFuel(m)
    } else {
        match step_model(m) {
            StepSpec::Next(m2, q) => run_model(advance_model(m2, q), (fuel - 1) as nat),
            StepSpec::Failure(msg) => RunSpec::Failed(m, msg),
            StepSpec::Import(_) => RunSpec::Blocked(m),
            StepSpec::FloatBin(_) => RunSpec::Blocked(m),
        }
    }
}

/// The state `run` starts from: the arguments in the top frame's locals,
/// the operand stack cleared.
pub open spec fn run_entry(m: VMModel, args: Seq<Calx>) -> VMModel {
    VMModel { stack: Seq::empty(), top: FrameModel { locals: args, ..m.top }, ..m }
}

} // verus!
