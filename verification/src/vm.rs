//! The machine: its state, the dispatch loop, and the proof that each
//! step performs the transition `step_model` describes.
use vstd::prelude::*;
use vstd::string::*;
use std::rc::Rc;

use crate::calx::{display_value, Calx};
use crate::err::CalxError;
use crate::frame::CalxFrame;
use crate::func::CalxFunc;
use crate::host::{emit_line, rc_dup, FloatHost};
use crate::instr::CalxInstr;
use crate::text::{str_eq, u64_to_string};
use crate::block_data::{spec_expected_finish_size, BlockData, BlockStack};
use crate::calx::CalxType;
use crate::syntax::CalxSyntax;
use crate::vm_model::{
    advance_model, find_func_at, find_import_at, is_true_flag, lemma_find_func_at,
    lemma_find_import_at, pp_fold, pp_run, pp_step, run_entry, run_model, step_model, FrameModel,
    FuncModel, PPState, RunSpec, StepSpec, VMModel,
};

verus! {

/// The host-supplied import table: each entry a name, a callable, and
/// the number of arguments it consumes. A callable takes the arguments
/// and produces one value or a structured error.
pub type CalxImportsDict<F> = Vec<(String, F, usize)>;

/// The machine: one operand stack shared by all frames, the globals, the
/// immutable function table, the pending frames below the top frame, the
/// imports, the float host, and the finish state.
pub struct CalxVM<F: Fn(Vec<Calx>) -> Result<Calx, CalxError>, H: FloatHost> {
    pub stack: Vec<Calx>,
    pub globals: Vec<Calx>,
    pub funcs: Vec<CalxFunc>,
    pub frames: Vec<CalxFrame>,
    pub top_frame: CalxFrame,
    pub imports: CalxImportsDict<F>,
    pub fhost: H,
    pub finished: bool,
    pub return_value: Calx,
    /// Set by the `quit` instruction: the host exit status asked for.
    /// The machine cannot end the host process itself; the caller reads
    /// this after `run` and exits.
    pub quit_code: Option<usize>,
}

/// The mathematical content of a frame.
pub open spec fn frame_model(f: CalxFrame) -> FrameModel {
    FrameModel {
        name: f.name@,
        locals: f.locals@,
        instrs: f.instrs@,
        pointer: f.pointer as int,
        initial_stack_size: f.initial_stack_size as int,
        ret_types: f.ret_types@,
    }
}

/// The mathematical content of a function record.
pub open spec fn func_model(f: CalxFunc) -> FuncModel {
    FuncModel {
        name: f.name@,
        params: f.params_types@,
        rets: f.ret_types@,
        syntax: f.syntax@,
        instrs: f.instrs@,
    }
}

/// The mathematical contents of a frame stack.
pub open spec fn frames_model(s: Seq<CalxFrame>) -> Seq<FrameModel> {
    Seq::new(s.len(), |i: int| frame_model(s[i]))
}

/// The mathematical contents of a function table.
pub open spec fn funcs_model(s: Seq<CalxFunc>) -> Seq<FuncModel> {
    Seq::new(s.len(), |i: int| func_model(s[i]))
}

/// The names and arities of an import table.
pub open spec fn imports_model<F>(s: Seq<(String, F, usize)>) -> Seq<(Seq<char>, int)> {
    Seq::new(s.len(), |i: int| (s[i].0@, s[i].2 as int))
}

/// Copies of the values of a sequence.
pub fn dup_values(xs: &Vec<Calx>) -> (r: Vec<Calx>)
    ensures
        r@ == xs@,
{
    let mut out: Vec<Calx> = Vec::new();
    let n = xs.len();
    let mut i: usize = 0;
    while i < n
        invariant
            0 <= i <= n,
            n == xs@.len(),
            out@ == xs@.take(i as int),
        decreases n - i,
    {
        out.push(xs[i].dup());
        proof {
            assert(out@ =~= xs@.take(i + 1));
        }
        i += 1;
    }
    proof {
        assert(xs@.take(n as int) =~= xs@);
    }
    out
}

/// A copy of a frame; the shared parts stay shared, the locals are copied.
pub fn dup_frame(f: &CalxFrame) -> (r: CalxFrame)
    ensures
        frame_model(r) == frame_model(*f),
{
    let r = CalxFrame {
        name: rc_dup(&f.name),
        locals: dup_values(&f.locals),
        instrs: rc_dup(&f.instrs),
        pointer: f.pointer,
        initial_stack_size: f.initial_stack_size,
        ret_types: rc_dup(&f.ret_types),
    };
    proof {
        assert(frame_model(r) =~= frame_model(*f));
    }
    r
}

/// The first function of the table with this name.
fn find_func_index(fns: &Vec<CalxFunc>, name: &str) -> (r: Option<usize>)
    ensures
        r matches Some(i) ==> find_func_at(funcs_model(fns@), name@, 0) == Some(i as int),
        r is None ==> find_func_at(funcs_model(fns@), name@, 0) is None,
{
    let ghost fm = funcs_model(fns@);
    let n = fns.len();
    let mut i: usize = 0;
    while i < n
        invariant
            0 <= i <= n,
            n == fns@.len(),
            fm == funcs_model(fns@),
            fm.len() == n,
            find_func_at(fm, name@, 0) == find_func_at(fm, name@, i as int),
        decreases n - i,
    {
        proof {
            assert(fm[i as int] == func_model(fns@[i as int]));
        }
        if str_eq(fns[i].name.as_str(), name) {
            return Some(i);
        }
        i += 1;
    }
    None
}

impl<F: Fn(Vec<Calx>) -> Result<Calx, CalxError>, H: FloatHost> CalxVM<F, H> {
    /// The machine state, mathematically.
    pub open spec fn model(&self) -> VMModel {
        VMModel {
            stack: self.stack@,
            globals: self.globals@,
            funcs: funcs_model(self.funcs@),
            frames: frames_model(self.frames@),
            top: frame_model(self.top_frame),
            imports: imports_model(self.imports@),
            finished: self.finished,
            return_value: self.return_value,
            quit_code: self.quit_code,
        }
    }

    /// What the machine maintains between steps: every pending frame's
    /// pointer sits on a real instruction, and every import accepts any
    /// arguments.
    pub open spec fn wf(&self) -> bool {
        &&& forall|i: int|
            0 <= i < self.frames@.len() ==> (#[trigger] self.frames@[i]).pointer
                < self.frames@[i].instrs@.len()
        &&& forall|i: int, args: Vec<Calx>|
            0 <= i < self.imports@.len() ==> #[trigger] call_requires(
                self.imports@[i].1,
                (args,),
            )
    }

    /// A structured error carrying the message and a snapshot of the
    /// machine at this moment.
    fn gen_err(&self, s: String) -> (e: CalxError)
        ensures
            e.message@ == s@,
            e.stack@ == self.stack@,
            e.globals@ == self.globals@,
            frame_model(e.top_frame) == frame_model(self.top_frame),
    {
        CalxError {
            message: s,
            stack: dup_values(&self.stack),
            top_frame: dup_frame(&self.top_frame),
            globals: dup_values(&self.globals),
        }
    }

    /// Removes the top operand; the stack is known to be nonempty.
    fn pop_value(&mut self) -> (v: Calx)
        requires
            old(self).stack@.len() > 0,
        ensures
            v == old(self).stack@.last(),
            final(self).stack@ == old(self).stack@.drop_last(),
            final(self).globals == old(self).globals,
            final(self).funcs == old(self).funcs,
            final(self).frames == old(self).frames,
            final(self).top_frame == old(self).top_frame,
            final(self).imports == old(self).imports,
            final(self).fhost == old(self).fhost,
            final(self).finished == old(self).finished,
            final(self).return_value == old(self).return_value,
            final(self).quit_code == old(self).quit_code,
    {
        match self.stack.pop() {
            Some(v) => v,
            None => {
                proof {
                    assert(false);
                }
                Calx::Nil
            },
        }
    }

    /// Sets the finish flag and publishes the returned value.
    pub fn make_return(&mut self, v: Calx)
        ensures
            final(self).finished,
            final(self).return_value == v,
            final(self).stack == old(self).stack,
            final(self).globals == old(self).globals,
            final(self).funcs == old(self).funcs,
            final(self).frames == old(self).frames,
            final(self).top_frame == old(self).top_frame,
            final(self).imports == old(self).imports,
            final(self).quit_code == old(self).quit_code,
    {
        self.return_value = v;
        self.finished = true;
    }

    /// The first function with this name.
    pub fn find_func(&self, name: &str) -> (r: Option<&CalxFunc>)
        ensures
            find_func_at(funcs_model(self.funcs@), name@, 0) matches Some(j) ==> ({
                &&& r matches Some(f)
                &&& func_model(*f) == funcs_model(self.funcs@)[j]
            }),
            find_func_at(funcs_model(self.funcs@), name@, 0) is None ==> r is None,
    {
        match find_func_index(&self.funcs, name) {
            Some(i) => {
                proof {
                    lemma_find_func_at(funcs_model(self.funcs@), name@, 0);
                    assert(funcs_model(self.funcs@)[i as int] == func_model(self.funcs@[i as int]));
                }
                Some(&self.funcs[i])
            },
            None => None,
        }
    }

    /// The first function with this name, with its index.
    pub fn find_func_idx(&self, name: &str) -> (r: Option<(usize, &CalxFunc)>)
        ensures
            find_func_at(funcs_model(self.funcs@), name@, 0) matches Some(j) ==> ({
                &&& r matches Some(p)
                &&& p.0 == j
                &&& func_model(*p.1) == funcs_model(self.funcs@)[j]
            }),
            find_func_at(funcs_model(self.funcs@), name@, 0) is None ==> r is None,
    {
        match find_func_index(&self.funcs, name) {
            Some(i) => {
                proof {
                    lemma_find_func_at(funcs_model(self.funcs@), name@, 0);
                    assert(funcs_model(self.funcs@)[i as int] == func_model(self.funcs@[i as int]));
                }
                Some((i, &self.funcs[i]))
            },
            None => None,
        }
    }

    /// The first import with this name, by table position.
    fn find_import_index(&self, name: &str) -> (r: Option<usize>)
        ensures
            r matches Some(i) ==> find_import_at(imports_model(self.imports@), name@, 0) == Some(
                i as int,
            ),
            r is None ==> find_import_at(imports_model(self.imports@), name@, 0) is None,
    {
        let ghost im = imports_model(self.imports@);
        let n = self.imports.len();
        let mut i: usize = 0;
        while i < n
            invariant
                0 <= i <= n,
                n == self.imports@.len(),
                im == imports_model(self.imports@),
                im.len() == n,
                find_import_at(im, name@, 0) == find_import_at(im, name@, i as int),
            decreases n - i,
        {
            proof {
                assert(im[i as int] == (self.imports@[i as int].0@, self.imports@[i as int].2 as int));
            }
            if str_eq(self.imports[i].0.as_str(), name) {
                return Some(i);
            }
            i += 1;
        }
        None
    }

    /// A new machine over these functions, globals and imports. A
    /// function named `main` must be present; the top frame is bound to
    /// it with an empty instruction stream, to be filled by
    /// `setup_top_frame` after preprocessing.
    pub fn new(
        fns: Vec<CalxFunc>,
        globals: Vec<Calx>,
        imports: CalxImportsDict<F>,
        fhost: H,
    ) -> (r: CalxVM<F, H>)
        requires
            find_func_at(funcs_model(fns@), "main"@, 0) is Some,
            forall|i: int, args: Vec<Calx>|
                0 <= i < imports@.len() ==> #[trigger] call_requires(imports@[i].1, (args,)),
        ensures
            r.wf(),
            r.stack@ == Seq::<Calx>::empty(),
            r.globals == globals,
            r.funcs == fns,
            r.frames@ == Seq::<CalxFrame>::empty(),
            r.imports == imports,
            !r.finished,
            r.return_value == Calx::Nil,
            r.quit_code is None,
            r.top_frame.instrs@ == Seq::<CalxInstr>::empty(),
            r.top_frame.pointer == 0,
            r.top_frame.initial_stack_size == 0,
            r.top_frame.locals@ == Seq::<Calx>::empty(),
            ({
                let j = find_func_at(funcs_model(fns@), "main"@, 0)->Some_0;
                &&& r.top_frame.name@ == funcs_model(fns@)[j].name
                &&& r.top_frame.ret_types@ == funcs_model(fns@)[j].rets
            }),
    {
        let mi = match find_func_index(&fns, "main") {
            Some(i) => i,
            None => {
                proof {
                    assert(false);
                }
                0
            },
        };
        proof {
            lemma_find_func_at(funcs_model(fns@), "main"@, 0);
            assert(funcs_model(fns@)[mi as int] == func_model(fns@[mi as int]));
        }
        let main_frame = CalxFrame {
            name: rc_dup(&fns[mi].name),
            locals: Vec::new(),
            instrs: Rc::new(Vec::new()),
            pointer: 0,
            initial_stack_size: 0,
            ret_types: rc_dup(&fns[mi].ret_types),
        };
        CalxVM {
            stack: Vec::new(),
            globals,
            funcs: fns,
            frames: Vec::new(),
            top_frame: main_frame,
            imports,
            fhost,
            finished: false,
            return_value: Calx::Nil,
            quit_code: None,
        }
    }

    /// Binds the top frame to `main`'s compiled instruction stream; to be
    /// called after preprocessing and before `run`. Nothing else of the
    /// machine moves.
    pub fn setup_top_frame(&mut self) -> (r: Result<(), String>)
        requires
            old(self).wf(),
        ensures
            final(self).wf(),
            find_func_at(funcs_model(old(self).funcs@), "main"@, 0) matches Some(j) ==> ({
                &&& r is Ok
                &&& final(self).top_frame.instrs@ == funcs_model(old(self).funcs@)[j].instrs
            }),
            find_func_at(funcs_model(old(self).funcs@), "main"@, 0) is None ==> ({
                &&& r matches Err(e) && e@ == "main function is required"@
                &&& *final(self) == *old(self)
            }),
            final(self).stack == old(self).stack,
            final(self).globals == old(self).globals,
            final(self).funcs == old(self).funcs,
            final(self).frames == old(self).frames,
            final(self).imports == old(self).imports,
            final(self).finished == old(self).finished,
            final(self).return_value == old(self).return_value,
            final(self).quit_code == old(self).quit_code,
            final(self).top_frame.name == old(self).top_frame.name,
            final(self).top_frame.locals == old(self).top_frame.locals,
            final(self).top_frame.pointer == old(self).top_frame.pointer,
            final(self).top_frame.initial_stack_size == old(self).top_frame.initial_stack_size,
            final(self).top_frame.ret_types == old(self).top_frame.ret_types,
    {
        match find_func_index(&self.funcs, "main") {
            Some(i) => {
                proof {
                    lemma_find_func_at(funcs_model(self.funcs@), "main"@, 0);
                    assert(funcs_model(self.funcs@)[i as int] == func_model(self.funcs@[i as int]));
                }
                self.top_frame.instrs = rc_dup(&self.funcs[i].instrs);
                Ok(())
            },
            None => Err(String::from_str("main function is required")),
        }
    }
}

/// Every function before position `i` compiled successfully to the
/// matching stream.
pub open spec fn compiled_ok(
    fm: Seq<FuncModel>,
    im: Seq<(Seq<char>, int)>,
    c: Seq<Vec<CalxInstr>>,
    lo: int,
    hi: int,
) -> bool {
    forall|k: int|
        lo <= k < hi ==> pp_run(fm, im, fm[k]) is Ok && pp_run(fm, im, fm[k])->Ok_0 == (
        #[trigger] c[k - lo])@
}

/// Pushing a frame pushes its model.
proof fn lemma_frames_model_push(s: Seq<CalxFrame>, f: CalxFrame)
    ensures
        frames_model(s.push(f)) == frames_model(s).push(frame_model(f)),
{
    assert(frames_model(s.push(f)) =~= frames_model(s).push(frame_model(f)));
}

/// Dropping the last frame drops its model.
proof fn lemma_frames_model_drop(s: Seq<CalxFrame>)
    requires
        s.len() > 0,
    ensures
        frames_model(s).drop_last() == frames_model(s.drop_last()),
        frames_model(s).last() == frame_model(s.last()),
        frames_model(s).len() == s.len(),
{
    assert(frames_model(s).drop_last() =~= frames_model(s.drop_last()));
}

impl<F: Fn(Vec<Calx>) -> Result<Calx, CalxError>, H: FloatHost> CalxVM<F, H> {
    /// Refuses a pop that would empty the stack or cross into a parent
    /// frame's operands.
    fn check_before_pop(&self) -> (r: Result<(), CalxError>)
        ensures
            match crate::vm_model::pop_guard(self.model()) {
                Some(msg) => ({
                    &&& r matches Err(e)
                    &&& e.message@ == msg
                    &&& e.stack@ == self.stack@
                    &&& e.globals@ == self.globals@
                    &&& frame_model(e.top_frame) == frame_model(self.top_frame)
                }),
                None => r is Ok,
            },
    {
        if self.stack.len() == 0 {
            {
                Err(self.gen_err(String::from_str("cannot pop from empty stack")))
            }
        } else if self.stack.len() <= self.top_frame.initial_stack_size {
            {
                Err(self.gen_err(String::from_str("cannot pop from parent stack")))
            }
        } else {
            Ok(())
        }
    }

    /// Refuses removing `k` operands where they would not all belong to
    /// the current frame.
    fn check_before_pop_n(&self, k: usize) -> (r: Result<(), CalxError>)
        ensures
            match crate::vm_model::pop_n_guard(self.model(), k as int) {
                Some(msg) => ({
                    &&& r matches Err(e)
                    &&& e.message@ == msg
                    &&& e.stack@ == self.stack@
                    &&& e.globals@ == self.globals@
                    &&& frame_model(e.top_frame) == frame_model(self.top_frame)
                }),
                None => r is Ok,
            },
    {
        if self.stack.len() < k {
            {
                Err(self.gen_err(String::from_str("cannot pop from empty stack")))
            }
        } else if self.stack.len() - k < self.top_frame.initial_stack_size {
            {
                Err(self.gen_err(String::from_str("cannot pop from parent stack")))
            }
        } else {
            Ok(())
        }
    }

    /// Pops the top operand, refusing to cross into a parent frame.
    fn stack_pop(&mut self) -> (r: Result<Calx, CalxError>)
        ensures
            old(self).stack@.len() <= old(self).top_frame.initial_stack_size ==> ({
                &&& r matches Err(e)
                &&& e.message@ == "cannot pop from parent stack"@
                &&& e.stack@ == old(self).stack@
                &&& e.globals@ == old(self).globals@
                &&& frame_model(e.top_frame) == frame_model(old(self).top_frame)
                &&& *final(self) == *old(self)
            }),
            old(self).stack@.len() > old(self).top_frame.initial_stack_size ==> ({
                &&& r == Ok::<Calx, CalxError>(old(self).stack@.last())
                &&& final(self).stack@ == old(self).stack@.drop_last()
                &&& final(self).globals == old(self).globals
                &&& final(self).funcs == old(self).funcs
                &&& final(self).frames == old(self).frames
                &&& final(self).top_frame == old(self).top_frame
                &&& final(self).imports == old(self).imports
                &&& final(self).fhost == old(self).fhost
                &&& final(self).finished == old(self).finished
                &&& final(self).return_value == old(self).return_value
                &&& final(self).quit_code == old(self).quit_code
            }),
    {
        if self.stack.len() <= self.top_frame.initial_stack_size {
            {
                Err(self.gen_err(String::from_str("cannot pop from parent stack")))
            }
        } else {
            Ok(self.pop_value())
        }
    }

    /// Pushes one operand.
    fn stack_push(&mut self, x: Calx)
        ensures
            final(self).stack@ == old(self).stack@.push(x),
            final(self).globals == old(self).globals,
            final(self).funcs == old(self).funcs,
            final(self).frames == old(self).frames,
            final(self).top_frame == old(self).top_frame,
            final(self).imports == old(self).imports,
            final(self).fhost == old(self).fhost,
            final(self).finished == old(self).finished,
            final(self).return_value == old(self).return_value,
            final(self).quit_code == old(self).quit_code,
    {
        self.stack.push(x);
    }

    /// Checks the end-of-function invariant: the operand stack holds the
    /// frame's entry depth plus its declared return count.
    fn check_func_return(&self, ret_size: usize) -> (r: Result<(), CalxError>)
        ensures
            r is Ok <==> self.stack@.len() == self.top_frame.initial_stack_size + ret_size,
            r matches Err(e) ==> ({
                &&& e.message@ == "stack size does not fit the frame"@
                &&& e.stack@ == self.stack@
                &&& e.globals@ == self.globals@
                &&& frame_model(e.top_frame) == frame_model(self.top_frame)
            }),
    {
        if self.stack.len() < ret_size || self.stack.len() - ret_size
            != self.top_frame.initial_stack_size {
            {
                Err(self.gen_err(String::from_str("stack size does not fit the frame")))
            }
        } else {
            Ok(())
        }
    }
}

/// Whether the value takes a conditional jump or passes an assertion.
fn is_true_like(v: &Calx) -> (r: bool)
    ensures
        r == is_true_flag(*v),
{
    match v {
        Calx::Bool(b) => *b,
        Calx::I64(n) => *n == 1,
        _ => false,
    }
}

impl<F: Fn(Vec<Calx>) -> Result<Calx, CalxError>, H: FloatHost> CalxVM<F, H> {
    /// Runs one step: an implicit return past the last instruction,
    /// otherwise the instruction under the pointer. `Ok(true)` asks the
    /// driving loop not to advance the pointer (it was set here). The
    /// step performs exactly the transition `step_model` describes; an
    /// import call returns whatever the host returned, with its one
    /// result pushed.
    #[verifier::rlimit(100)]
    #[verifier::spinoff_prover]
    pub fn step(&mut self) -> (r: Result<bool, CalxError>)
        requires
            old(self).wf(),
        ensures
            final(self).wf(),
            final(self).funcs == old(self).funcs,
            final(self).imports == old(self).imports,
            (r == Ok::<bool, CalxError>(false) && !final(self).finished)
                ==> final(self).top_frame.pointer < final(self).top_frame.instrs@.len(),
            step_model(old(self).model()) matches StepSpec::Next(m2, q) ==> r == Ok::<
                bool,
                CalxError,
            >(q) && final(self).model() == m2,
            step_model(old(self).model()) matches StepSpec::Failure(msg) ==> ({
                &&& r matches Err(e)
                &&& e.message@ == msg
                &&& e.stack@ == old(self).stack@
                &&& e.globals@ == old(self).globals@
                &&& frame_model(e.top_frame) == frame_model(old(self).top_frame)
                &&& final(self).model() == old(self).model()
            }),
            step_model(old(self).model()) matches StepSpec::Import(j) ==> ({
                let pre = old(self).model();
                let arity = pre.imports[j].1;
                let n = pre.stack.len() as int;
                exists|av: Vec<Calx>, res: Result<Calx, CalxError>|
                    {
                        &&& av@ == pre.stack.skip(n - arity)
                        &&& #[trigger] call_ensures(old(self).imports@[j].1, (av,), res)
                        &&& match res {
                            Ok(v) => r == Ok::<bool, CalxError>(false) && final(self).model()
                                == (VMModel { stack: pre.stack.take(n - arity).push(v), ..pre }),
                            Err(e) => r == Err::<bool, CalxError>(e) && final(self).model()
                                == (VMModel { stack: pre.stack.take(n - arity), ..pre }),
                        }
                    }
            }),
            step_model(old(self).model()) matches StepSpec::FloatBin(_) ==> ({
                let pre = old(self).model();
                exists|x: u64|
                    r == Ok::<bool, CalxError>(false) && final(self).model()
                        == #[trigger] crate::vm_model::binop_next(pre, Calx::F64(x))
            }),
    {
        let ghost pre = old(self).model();
        if self.top_frame.pointer >= self.top_frame.instrs.len() {
            let rs = self.top_frame.ret_types.len();
            match self.check_func_return(rs) {
                Err(e) => {
                    proof {
                        reveal(crate::vm_model::step_model);
                        assert(step_model(pre) matches StepSpec::Failure(_));
                        assert(step_model(pre)->Failure_0 == e.message@);
                    }
                    return Err(e);
                },
                Ok(()) => {},
            }
            match self.frames.pop() {
                Some(v) => {
                    proof {
                        lemma_frames_model_drop(old(self).frames@);
                        assert(old(self).frames@[old(self).frames@.len() - 1].pointer < old(
                            self,
                        ).frames@[old(self).frames@.len() - 1].instrs@.len());
                    }
                    self.top_frame = v;
                    let l = self.top_frame.instrs.len();
                    self.top_frame.pointer = self.top_frame.pointer + 1;
                    proof {
                        reveal(crate::vm_model::step_model);
                        assert(step_model(pre) matches StepSpec::Next(_, _));
                        assert(step_model(pre)->Next_1 == true);
                        assert(self.model() =~= step_model(pre)->Next_0);
                    }
                    return Ok(true);
                },
                None => {
                    if self.stack.len() > 0 {
                        let v = self.pop_value();
                        self.make_return(v);
                    } else {
                        self.make_return(Calx::Nil);
                    }
                    proof {
                        reveal(crate::vm_model::step_model);
                        assert(step_model(pre) matches StepSpec::Next(_, _));
                        assert(step_model(pre)->Next_1 == false);
                        assert(self.model() =~= step_model(pre)->Next_0);
                    }
                    return Ok(false);
                },
            }
        }
        self.step_instr()
    }

    /// Whether the instruction is handled by the plain stack group.
    pub open spec fn instr_is_group_a(i: CalxInstr) -> bool {
        ||| i matches CalxInstr::Jmp(_)
        ||| i matches CalxInstr::JmpIf(_)
        ||| i matches CalxInstr::LocalSet(_)
        ||| i matches CalxInstr::LocalTee(_)
        ||| i matches CalxInstr::LocalGet(_)
        ||| i matches CalxInstr::LocalNew
        ||| i matches CalxInstr::GlobalSet(_)
        ||| i matches CalxInstr::GlobalGet(_)
        ||| i matches CalxInstr::GlobalNew
        ||| i matches CalxInstr::Const(_)
        ||| i matches CalxInstr::Dup
        ||| i matches CalxInstr::Drop
    }

    /// Whether the instruction is handled by the one-operand and
    /// side-effect group.
    pub open spec fn instr_is_group_b(i: CalxInstr) -> bool {
        ||| i matches CalxInstr::IntNeg
        ||| i matches CalxInstr::Neg
        ||| i matches CalxInstr::NewList
        ||| i matches CalxInstr::ListGet
        ||| i matches CalxInstr::ListSet
        ||| i matches CalxInstr::NewLink
        ||| i matches CalxInstr::And
        ||| i matches CalxInstr::Or
        ||| i matches CalxInstr::Not
        ||| i matches CalxInstr::Unreachable
        ||| i matches CalxInstr::Nop
        ||| i matches CalxInstr::Quit(_)
        ||| i matches CalxInstr::Echo
        ||| i matches CalxInstr::Assert(_)
        ||| i matches CalxInstr::Inspect
    }

    /// Whether the instruction is handled by the call and return group.
    pub open spec fn instr_is_group_c(i: CalxInstr) -> bool {
        ||| i matches CalxInstr::Return
        ||| i matches CalxInstr::Call(_)
        ||| i matches CalxInstr::ReturnCall(_)
        ||| i matches CalxInstr::CallImport(_)
    }

    /// Dispatches the instruction under the pointer.
    fn step_instr(&mut self) -> (r: Result<bool, CalxError>)
        requires
            old(self).wf(),
            old(self).top_frame.pointer < old(self).top_frame.instrs@.len(),
        ensures
            final(self).wf(),
            final(self).funcs == old(self).funcs,
            final(self).imports == old(self).imports,
            (r == Ok::<bool, CalxError>(false) && !final(self).finished)
                ==> final(self).top_frame.pointer < final(self).top_frame.instrs@.len(),
            step_model(old(self).model()) matches StepSpec::Next(m2, q) ==> r == Ok::<
                bool,
                CalxError,
            >(q) && final(self).model() == m2,
            step_model(old(self).model()) matches StepSpec::Failure(msg) ==> ({
                &&& r matches Err(e)
                &&& e.message@ == msg
                &&& e.stack@ == old(self).stack@
                &&& e.globals@ == old(self).globals@
                &&& frame_model(e.top_frame) == frame_model(old(self).top_frame)
                &&& final(self).model() == old(self).model()
            }),
            step_model(old(self).model()) matches StepSpec::Import(j) ==> ({
                let pre = old(self).model();
                let arity = pre.imports[j].1;
                let n = pre.stack.len() as int;
                exists|av: Vec<Calx>, res: Result<Calx, CalxError>|
                    {
                        &&& av@ == pre.stack.skip(n - arity)
                        &&& #[trigger] call_ensures(old(self).imports@[j].1, (av,), res)
                        &&& match res {
                            Ok(v) => r == Ok::<bool, CalxError>(false) && final(self).model()
                                == (VMModel { stack: pre.stack.take(n - arity).push(v), ..pre }),
                            Err(e) => r == Err::<bool, CalxError>(e) && final(self).model()
                                == (VMModel { stack: pre.stack.take(n - arity), ..pre }),
                        }
                    }
            }),
            step_model(old(self).model()) matches StepSpec::FloatBin(_) ==> ({
                let pre = old(self).model();
                exists|x: u64|
                    r == Ok::<bool, CalxError>(false) && final(self).model()
                        == #[trigger] crate::vm_model::binop_next(pre, Calx::F64(x))
            }),
    {
        let pointer = self.top_frame.pointer;
        let instrs_rc = rc_dup(&self.top_frame.instrs);
        let instrs: &Vec<CalxInstr> = &*instrs_rc;
        match &instrs[pointer] {
            CalxInstr::Jmp(_) | CalxInstr::JmpIf(_) | CalxInstr::LocalSet(_)
                | CalxInstr::LocalTee(_) | CalxInstr::LocalGet(_) | CalxInstr::LocalNew
                | CalxInstr::GlobalSet(_) | CalxInstr::GlobalGet(_) | CalxInstr::GlobalNew
                | CalxInstr::Const(_) | CalxInstr::Dup | CalxInstr::Drop => self.step_group_a(),
            CalxInstr::IntNeg | CalxInstr::Neg | CalxInstr::NewList | CalxInstr::ListGet
                | CalxInstr::ListSet | CalxInstr::NewLink | CalxInstr::And | CalxInstr::Or
                | CalxInstr::Not | CalxInstr::Unreachable | CalxInstr::Nop | CalxInstr::Quit(_)
                | CalxInstr::Echo | CalxInstr::Assert(_) | CalxInstr::Inspect => self.step_group_b(),
            CalxInstr::Return | CalxInstr::Call(_) | CalxInstr::ReturnCall(_)
                | CalxInstr::CallImport(_) => self.step_group_c(),
            _ => self.step_binop(),
        }
    }

    /// Runs one plain stack instruction.
    fn step_group_a(&mut self) -> (r: Result<bool, CalxError>)
        requires
            old(self).wf(),
            old(self).top_frame.pointer < old(self).top_frame.instrs@.len(),
            Self::instr_is_group_a(old(self).top_frame.instrs@[old(self).top_frame.pointer as int]),
        ensures
            final(self).wf(),
            final(self).funcs == old(self).funcs,
            final(self).imports == old(self).imports,
            (r == Ok::<bool, CalxError>(false) && !final(self).finished)
                ==> final(self).top_frame.pointer < final(self).top_frame.instrs@.len(),
            step_model(old(self).model()) matches StepSpec::Next(m2, q) ==> r == Ok::<
                bool,
                CalxError,
            >(q) && final(self).model() == m2,
            step_model(old(self).model()) matches StepSpec::Failure(msg) ==> ({
                &&& r matches Err(e)
                &&& e.message@ == msg
                &&& e.stack@ == old(self).stack@
                &&& e.globals@ == old(self).globals@
                &&& frame_model(e.top_frame) == frame_model(old(self).top_frame)
                &&& final(self).model() == old(self).model()
            }),
            step_model(old(self).model()) matches StepSpec::Import(j) ==> ({
                let pre = old(self).model();
                let arity = pre.imports[j].1;
                let n = pre.stack.len() as int;
                exists|av: Vec<Calx>, res: Result<Calx, CalxError>|
                    {
                        &&& av@ == pre.stack.skip(n - arity)
                        &&& #[trigger] call_ensures(old(self).imports@[j].1, (av,), res)
                        &&& match res {
                            Ok(v) => r == Ok::<bool, CalxError>(false) && final(self).model()
                                == (VMModel { stack: pre.stack.take(n - arity).push(v), ..pre }),
                            Err(e) => r == Err::<bool, CalxError>(e) && final(self).model()
                                == (VMModel { stack: pre.stack.take(n - arity), ..pre }),
                        }
                    }
            }),
            step_model(old(self).model()) matches StepSpec::FloatBin(_) ==> ({
                let pre = old(self).model();
                exists|x: u64|
                    r == Ok::<bool, CalxError>(false) && final(self).model()
                        == #[trigger] crate::vm_model::binop_next(pre, Calx::F64(x))
            }),
    {
        let pointer = self.top_frame.pointer;
        let instrs_rc = rc_dup(&self.top_frame.instrs);
        let instrs: &Vec<CalxInstr> = &*instrs_rc;
        match &instrs[pointer] {
            CalxInstr::Jmp(_) | CalxInstr::JmpIf(_) => self.step_jump(),
            CalxInstr::LocalSet(_) | CalxInstr::LocalTee(_) | CalxInstr::LocalGet(_)
                | CalxInstr::LocalNew => self.step_local(),
            CalxInstr::GlobalSet(_) | CalxInstr::GlobalGet(_) | CalxInstr::GlobalNew => self
                .step_global(),
            CalxInstr::Const(_) | CalxInstr::Dup | CalxInstr::Drop => self.step_stack_op(),
            _ => {
                proof {
                    assert(false);
                }
                Err(self.gen_err(String::from_str("unreachable dispatch")))
            },
        }
    }

    /// Runs a jump.
    #[verifier::rlimit(100)]
    #[verifier::spinoff_prover]
    fn step_jump(&mut self) -> (r: Result<bool, CalxError>)
        requires
            old(self).wf(),
            old(self).top_frame.pointer < old(self).top_frame.instrs@.len(),
            ({
                let i = old(self).top_frame.instrs@[old(self).top_frame.pointer as int];
                i matches CalxInstr::Jmp(_) || i matches CalxInstr::JmpIf(_)
            }),
        ensures
            final(self).wf(),
            final(self).funcs == old(self).funcs,
            final(self).imports == old(self).imports,
            (r == Ok::<bool, CalxError>(false) && !final(self).finished)
                ==> final(self).top_frame.pointer < final(self).top_frame.instrs@.len(),
            step_model(old(self).model()) matches StepSpec::Next(m2, q) ==> r == Ok::<
                bool,
                CalxError,
            >(q) && final(self).model() == m2,
            step_model(old(self).model()) matches StepSpec::Failure(msg) ==> ({
                &&& r matches Err(e)
                &&& e.message@ == msg
                &&& e.stack@ == old(self).stack@
                &&& e.globals@ == old(self).globals@
                &&& frame_model(e.top_frame) == frame_model(old(self).top_frame)
                &&& final(self).model() == old(self).model()
            }),
            !(step_model(old(self).model()) matches StepSpec::Import(_)),
            !(step_model(old(self).model()) matches StepSpec::FloatBin(_)),
    {
        let ghost pre = old(self).model();
        let pointer = self.top_frame.pointer;
        let instrs_rc = rc_dup(&self.top_frame.instrs);
        let instrs: &Vec<CalxInstr> = &*instrs_rc;
        proof {
            assert(instrs@ == pre.top.instrs);
        }
        match &instrs[pointer] {
            CalxInstr::Jmp(l) => {
                self.top_frame.pointer = *l;
                proof {
                    reveal(crate::vm_model::step_model);
                    assert(step_model(pre) matches StepSpec::Next(_, _));
                    assert(step_model(pre)->Next_1 == true);
                    assert(self.model() =~= step_model(pre)->Next_0);
                }
                Ok(true)
            },
            CalxInstr::JmpIf(l) => {
                if self.stack.len() == 0 {
                    proof {
                        reveal(crate::vm_model::step_model);
                        assert(step_model(pre) matches StepSpec::Failure(_));
                        assert(step_model(pre)->Failure_0 == "cannot pop from empty stack"@);
                    }
                    return Err(self.gen_err(String::from_str("cannot pop from empty stack")));
                }
                let v = self.pop_value();
                if is_true_like(&v) {
                    self.top_frame.pointer = *l;
                    proof {
                        reveal(crate::vm_model::step_model);
                        assert(step_model(pre) matches StepSpec::Next(_, _));
                        assert(step_model(pre)->Next_1 == true);
                        assert(self.model() =~= step_model(pre)->Next_0);
                    }
                    Ok(true)
                } else {
                    proof {
                        reveal(crate::vm_model::step_model);
                        assert(step_model(pre) matches StepSpec::Next(_, _));
                        assert(step_model(pre)->Next_1 == false);
                        assert(self.model() =~= step_model(pre)->Next_0);
                    }
                    Ok(false)
                }
            },
            _ => {
                proof {
                    assert(false);
                }
                Err(self.gen_err(String::from_str("unreachable dispatch")))
            },
        }
    }

    /// Runs a local-slot instruction.
    #[verifier::rlimit(100)]
    #[verifier::spinoff_prover]
    fn step_local(&mut self) -> (r: Result<bool, CalxError>)
        requires
            old(self).wf(),
            old(self).top_frame.pointer < old(self).top_frame.instrs@.len(),
            ({
                let i = old(self).top_frame.instrs@[old(self).top_frame.pointer as int];
                i matches CalxInstr::LocalSet(_) || i matches CalxInstr::LocalTee(_)
                    || i matches CalxInstr::LocalGet(_) || i matches CalxInstr::LocalNew
            }),
        ensures
            final(self).wf(),
            final(self).funcs == old(self).funcs,
            final(self).imports == old(self).imports,
            (r == Ok::<bool, CalxError>(false) && !final(self).finished)
                ==> final(self).top_frame.pointer < final(self).top_frame.instrs@.len(),
            step_model(old(self).model()) matches StepSpec::Next(m2, q) ==> r == Ok::<
                bool,
                CalxError,
            >(q) && final(self).model() == m2,
            step_model(old(self).model()) matches StepSpec::Failure(msg) ==> ({
                &&& r matches Err(e)
                &&& e.message@ == msg
                &&& e.stack@ == old(self).stack@
                &&& e.globals@ == old(self).globals@
                &&& frame_model(e.top_frame) == frame_model(old(self).top_frame)
                &&& final(self).model() == old(self).model()
            }),
            !(step_model(old(self).model()) matches StepSpec::Import(_)),
            !(step_model(old(self).model()) matches StepSpec::FloatBin(_)),
    {
        let ghost pre = old(self).model();
        let pointer = self.top_frame.pointer;
        let instrs_rc = rc_dup(&self.top_frame.instrs);
        let instrs: &Vec<CalxInstr> = &*instrs_rc;
        proof {
            assert(instrs@ == pre.top.instrs);
        }
        match &instrs[pointer] {
            CalxInstr::LocalSet(idx) => {
                match self.check_before_pop() {
                    Err(e) => {
                        proof {
                            reveal(crate::vm_model::step_model);
                            assert(step_model(pre) matches StepSpec::Failure(_));
                            assert(step_model(pre)->Failure_0 == e.message@);
                        }
                        return Err(e);
                    },
                    Ok(()) => {},
                }
                if *idx >= self.top_frame.locals.len() {
                    proof {
                        reveal(crate::vm_model::step_model);
                        assert(step_model(pre) matches StepSpec::Failure(_));
                        assert(step_model(pre)->Failure_0 == "out of bound in local.set"@);
                    }
                    return Err(self.gen_err(String::from_str("out of bound in local.set")));
                }
                let i = *idx;
                let v = self.pop_value();
                self.top_frame.locals.set(i, v);
                proof {
                    reveal(crate::vm_model::step_model);
                    assert(step_model(pre) matches StepSpec::Next(_, _));
                    assert(step_model(pre)->Next_1 == false);
                    assert(self.model() =~= step_model(pre)->Next_0);
                }
                Ok(false)
            },
            CalxInstr::LocalTee(idx) => {
                match self.check_before_pop() {
                    Err(e) => {
                        proof {
                            reveal(crate::vm_model::step_model);
                            assert(step_model(pre) matches StepSpec::Failure(_));
                            assert(step_model(pre)->Failure_0 == e.message@);
                        }
                        return Err(e);
                    },
                    Ok(()) => {},
                }
                if *idx >= self.top_frame.locals.len() {
                    proof {
                        reveal(crate::vm_model::step_model);
                        assert(step_model(pre) matches StepSpec::Failure(_));
                        assert(step_model(pre)->Failure_0 == "out of bound in local.tee"@);
                    }
                    return Err(self.gen_err(String::from_str("out of bound in local.tee")));
                }
                let i = *idx;
                let v = self.stack[self.stack.len() - 1].dup();
                self.top_frame.locals.set(i, v);
                proof {
                    reveal(crate::vm_model::step_model);
                    assert(step_model(pre) matches StepSpec::Next(_, _));
                    assert(step_model(pre)->Next_1 == false);
                    assert(self.model() =~= step_model(pre)->Next_0);
                }
                Ok(false)
            },
            CalxInstr::LocalGet(idx) => {
                if *idx < self.top_frame.locals.len() {
                    let v = self.top_frame.locals[*idx].dup();
                    self.stack_push(v);
                    proof {
                        reveal(crate::vm_model::step_model);
                        assert(step_model(pre) matches StepSpec::Next(_, _));
                        assert(step_model(pre)->Next_1 == false);
                        assert(self.model() =~= step_model(pre)->Next_0);
                    }
                    Ok(false)
                } else {
                    {
                        proof {
                            reveal(crate::vm_model::step_model);
                            assert(step_model(pre) matches StepSpec::Failure(_));
                            assert(step_model(pre)->Failure_0 == "invalid index for local.get"@);
                        }
                        Err(self.gen_err(String::from_str("invalid index for local.get")))
                    }
                }
            },
            CalxInstr::LocalNew => {
                self.top_frame.locals.push(Calx::Nil);
                proof {
                    reveal(crate::vm_model::step_model);
                    assert(step_model(pre) matches StepSpec::Next(_, _));
                    assert(step_model(pre)->Next_1 == false);
                    assert(self.model() =~= step_model(pre)->Next_0);
                }
                Ok(false)
            },
            _ => {
                proof {
                    assert(false);
                }
                Err(self.gen_err(String::from_str("unreachable dispatch")))
            },
        }
    }

    /// Runs a global-slot instruction.
    #[verifier::rlimit(100)]
    #[verifier::spinoff_prover]
    fn step_global(&mut self) -> (r: Result<bool, CalxError>)
        requires
            old(self).wf(),
            old(self).top_frame.pointer < old(self).top_frame.instrs@.len(),
            ({
                let i = old(self).top_frame.instrs@[old(self).top_frame.pointer as int];
                i matches CalxInstr::GlobalSet(_) || i matches CalxInstr::GlobalGet(_)
                    || i matches CalxInstr::GlobalNew
            }),
        ensures
            final(self).wf(),
            final(self).funcs == old(self).funcs,
            final(self).imports == old(self).imports,
            (r == Ok::<bool, CalxError>(false) && !final(self).finished)
                ==> final(self).top_frame.pointer < final(self).top_frame.instrs@.len(),
            step_model(old(self).model()) matches StepSpec::Next(m2, q) ==> r == Ok::<
                bool,
                CalxError,
            >(q) && final(self).model() == m2,
            step_model(old(self).model()) matches StepSpec::Failure(msg) ==> ({
                &&& r matches Err(e)
                &&& e.message@ == msg
                &&& e.stack@ == old(self).stack@
                &&& e.globals@ == old(self).globals@
                &&& frame_model(e.top_frame) == frame_model(old(self).top_frame)
                &&& final(self).model() == old(self).model()
            }),
            !(step_model(old(self).model()) matches StepSpec::Import(_)),
            !(step_model(old(self).model()) matches StepSpec::FloatBin(_)),
    {
        let ghost pre = old(self).model();
        let pointer = self.top_frame.pointer;
        let instrs_rc = rc_dup(&self.top_frame.instrs);
        let instrs: &Vec<CalxInstr> = &*instrs_rc;
        proof {
            assert(instrs@ == pre.top.instrs);
        }
        match &instrs[pointer] {
            CalxInstr::GlobalSet(idx) => {
                match self.check_before_pop() {
                    Err(e) => {
                        proof {
                            reveal(crate::vm_model::step_model);
                            assert(step_model(pre) matches StepSpec::Failure(_));
                            assert(step_model(pre)->Failure_0 == e.message@);
                        }
                        return Err(e);
                    },
                    Ok(()) => {},
                }
                if *idx >= self.globals.len() {
                    proof {
                        reveal(crate::vm_model::step_model);
                        assert(step_model(pre) matches StepSpec::Failure(_));
                        assert(step_model(pre)->Failure_0 == "out of bound in global.set"@);
                    }
                    return Err(self.gen_err(String::from_str("out of bound in global.set")));
                }
                let i = *idx;
                let v = self.pop_value();
                self.globals.set(i, v);
                proof {
                    reveal(crate::vm_model::step_model);
                    assert(step_model(pre) matches StepSpec::Next(_, _));
                    assert(step_model(pre)->Next_1 == false);
                    assert(self.model() =~= step_model(pre)->Next_0);
                }
                Ok(false)
            },
            CalxInstr::GlobalGet(idx) => {
                if *idx < self.globals.len() {
                    let v = self.globals[*idx].dup();
                    self.stack_push(v);
                    proof {
                        reveal(crate::vm_model::step_model);
                        assert(step_model(pre) matches StepSpec::Next(_, _));
                        assert(step_model(pre)->Next_1 == false);
                        assert(self.model() =~= step_model(pre)->Next_0);
                    }
                    Ok(false)
                } else {
                    proof {
                        reveal(crate::vm_model::step_model);
                        assert(step_model(pre) matches StepSpec::Failure(_));
                        assert(step_model(pre)->Failure_0 == "invalid index for global.get"@);
                    }
                    Err(self.gen_err(String::from_str("invalid index for global.get")))
                }
            },
            CalxInstr::GlobalNew => {
                self.globals.push(Calx::Nil);
                proof {
                    reveal(crate::vm_model::step_model);
                    assert(step_model(pre) matches StepSpec::Next(_, _));
                    assert(step_model(pre)->Next_1 == false);
                    assert(self.model() =~= step_model(pre)->Next_0);
                }
                Ok(false)
            },
            _ => {
                proof {
                    assert(false);
                }
                Err(self.gen_err(String::from_str("unreachable dispatch")))
            },
        }
    }

    /// Runs a constant push, a duplicate, or a drop.
    #[verifier::rlimit(100)]
    #[verifier::spinoff_prover]
    fn step_stack_op(&mut self) -> (r: Result<bool, CalxError>)
        requires
            old(self).wf(),
            old(self).top_frame.pointer < old(self).top_frame.instrs@.len(),
            ({
                let i = old(self).top_frame.instrs@[old(self).top_frame.pointer as int];
                i matches CalxInstr::Const(_) || i matches CalxInstr::Dup
                    || i matches CalxInstr::Drop
            }),
        ensures
            final(self).wf(),
            final(self).funcs == old(self).funcs,
            final(self).imports == old(self).imports,
            (r == Ok::<bool, CalxError>(false) && !final(self).finished)
                ==> final(self).top_frame.pointer < final(self).top_frame.instrs@.len(),
            step_model(old(self).model()) matches StepSpec::Next(m2, q) ==> r == Ok::<
                bool,
                CalxError,
            >(q) && final(self).model() == m2,
            step_model(old(self).model()) matches StepSpec::Failure(msg) ==> ({
                &&& r matches Err(e)
                &&& e.message@ == msg
                &&& e.stack@ == old(self).stack@
                &&& e.globals@ == old(self).globals@
                &&& frame_model(e.top_frame) == frame_model(old(self).top_frame)
                &&& final(self).model() == old(self).model()
            }),
            !(step_model(old(self).model()) matches StepSpec::Import(_)),
            !(step_model(old(self).model()) matches StepSpec::FloatBin(_)),
    {
        let ghost pre = old(self).model();
        let pointer = self.top_frame.pointer;
        let instrs_rc = rc_dup(&self.top_frame.instrs);
        let instrs: &Vec<CalxInstr> = &*instrs_rc;
        proof {
            assert(instrs@ == pre.top.instrs);
        }
        match &instrs[pointer] {
            CalxInstr::Const(v) => {
                let c = v.dup();
                self.stack_push(c);
                proof {
                    reveal(crate::vm_model::step_model);
                    assert(step_model(pre) matches StepSpec::Next(_, _));
                    assert(step_model(pre)->Next_1 == false);
                    assert(self.model() =~= step_model(pre)->Next_0);
                }
                Ok(false)
            },
            CalxInstr::Dup => {
                if self.stack.len() > 0 {
                    let c = self.stack[self.stack.len() - 1].dup();
                    self.stack_push(c);
                    proof {
                        reveal(crate::vm_model::step_model);
                        assert(step_model(pre) matches StepSpec::Next(_, _));
                        assert(step_model(pre)->Next_1 == false);
                        assert(self.model() =~= step_model(pre)->Next_0);
                    }
                    Ok(false)
                } else {
                    proof {
                        reveal(crate::vm_model::step_model);
                        assert(step_model(pre) matches StepSpec::Failure(_));
                        assert(step_model(pre)->Failure_0 == "cannot pop from empty stack"@);
                    }
                    Err(self.gen_err(String::from_str("cannot pop from empty stack")))
                }
            },
            CalxInstr::Drop => {
                match self.stack_pop() {
                    Err(e) => {
                        proof {
                            reveal(crate::vm_model::step_model);
                            assert(step_model(pre) matches StepSpec::Failure(_));
                            assert(step_model(pre)->Failure_0 == e.message@);
                        }
                        Err(e)
                    },
                    Ok(_) => {
                        proof {
                            reveal(crate::vm_model::step_model);
                            assert(step_model(pre) matches StepSpec::Next(_, _));
                            assert(step_model(pre)->Next_1 == false);
                            assert(self.model() =~= step_model(pre)->Next_0);
                        }
                        Ok(false)
                    },
                }
            },
            _ => {
                proof {
                    assert(false);
                }
                Err(self.gen_err(String::from_str("unreachable dispatch")))
            },
        }
    }

    /// Runs one one-operand or side-effect instruction.
    fn step_group_b(&mut self) -> (r: Result<bool, CalxError>)
        requires
            old(self).wf(),
            old(self).top_frame.pointer < old(self).top_frame.instrs@.len(),
            Self::instr_is_group_b(old(self).top_frame.instrs@[old(self).top_frame.pointer as int]),
        ensures
            final(self).wf(),
            final(self).funcs == old(self).funcs,
            final(self).imports == old(self).imports,
            (r == Ok::<bool, CalxError>(false) && !final(self).finished)
                ==> final(self).top_frame.pointer < final(self).top_frame.instrs@.len(),
            step_model(old(self).model()) matches StepSpec::Next(m2, q) ==> r == Ok::<
                bool,
                CalxError,
            >(q) && final(self).model() == m2,
            step_model(old(self).model()) matches StepSpec::Failure(msg) ==> ({
                &&& r matches Err(e)
                &&& e.message@ == msg
                &&& e.stack@ == old(self).stack@
                &&& e.globals@ == old(self).globals@
                &&& frame_model(e.top_frame) == frame_model(old(self).top_frame)
                &&& final(self).model() == old(self).model()
            }),
            step_model(old(self).model()) matches StepSpec::Import(j) ==> ({
                let pre = old(self).model();
                let arity = pre.imports[j].1;
                let n = pre.stack.len() as int;
                exists|av: Vec<Calx>, res: Result<Calx, CalxError>|
                    {
                        &&& av@ == pre.stack.skip(n - arity)
                        &&& #[trigger] call_ensures(old(self).imports@[j].1, (av,), res)
                        &&& match res {
                            Ok(v) => r == Ok::<bool, CalxError>(false) && final(self).model()
                                == (VMModel { stack: pre.stack.take(n - arity).push(v), ..pre }),
                            Err(e) => r == Err::<bool, CalxError>(e) && final(self).model()
                                == (VMModel { stack: pre.stack.take(n - arity), ..pre }),
                        }
                    }
            }),
            step_model(old(self).model()) matches StepSpec::FloatBin(_) ==> ({
                let pre = old(self).model();
                exists|x: u64|
                    r == Ok::<bool, CalxError>(false) && final(self).model()
                        == #[trigger] crate::vm_model::binop_next(pre, Calx::F64(x))
            }),
    {
        let pointer = self.top_frame.pointer;
        let instrs_rc = rc_dup(&self.top_frame.instrs);
        let instrs: &Vec<CalxInstr> = &*instrs_rc;
        match &instrs[pointer] {
            CalxInstr::IntNeg | CalxInstr::Neg => self.step_negate(),
            CalxInstr::NewList | CalxInstr::ListGet | CalxInstr::ListSet | CalxInstr::NewLink
                | CalxInstr::And | CalxInstr::Or | CalxInstr::Not | CalxInstr::Unreachable
                | CalxInstr::Nop | CalxInstr::Quit(_) => self.step_misc(),
            CalxInstr::Echo | CalxInstr::Assert(_) | CalxInstr::Inspect => self.step_io(),
            _ => {
                proof {
                    assert(false);
                }
                Err(self.gen_err(String::from_str("unreachable dispatch")))
            },
        }
    }

    /// Runs a negation.
    #[verifier::rlimit(100)]
    #[verifier::spinoff_prover]
    fn step_negate(&mut self) -> (r: Result<bool, CalxError>)
        requires
            old(self).wf(),
            old(self).top_frame.pointer < old(self).top_frame.instrs@.len(),
            ({
                let i = old(self).top_frame.instrs@[old(self).top_frame.pointer as int];
                i matches CalxInstr::IntNeg || i matches CalxInstr::Neg
            }),
        ensures
            final(self).wf(),
            final(self).funcs == old(self).funcs,
            final(self).imports == old(self).imports,
            (r == Ok::<bool, CalxError>(false) && !final(self).finished)
                ==> final(self).top_frame.pointer < final(self).top_frame.instrs@.len(),
            step_model(old(self).model()) matches StepSpec::Next(m2, q) ==> r == Ok::<
                bool,
                CalxError,
            >(q) && final(self).model() == m2,
            step_model(old(self).model()) matches StepSpec::Failure(msg) ==> ({
                &&& r matches Err(e)
                &&& e.message@ == msg
                &&& e.stack@ == old(self).stack@
                &&& e.globals@ == old(self).globals@
                &&& frame_model(e.top_frame) == frame_model(old(self).top_frame)
                &&& final(self).model() == old(self).model()
            }),
            !(step_model(old(self).model()) matches StepSpec::Import(_)),
            !(step_model(old(self).model()) matches StepSpec::FloatBin(_)),
    {
        let ghost pre = old(self).model();
        let pointer = self.top_frame.pointer;
        let instrs_rc = rc_dup(&self.top_frame.instrs);
        let instrs: &Vec<CalxInstr> = &*instrs_rc;
        proof {
            assert(instrs@ == pre.top.instrs);
        }
        match &instrs[pointer] {
            CalxInstr::IntNeg => {
                if self.stack.len() == 0 {
                    proof {
                        reveal(crate::vm_model::step_model);
                        assert(step_model(pre) matches StepSpec::Failure(_));
                        assert(step_model(pre)->Failure_0 == "expected an integer"@);
                    }
                    return Err(self.gen_err(String::from_str("expected an integer")));
                }
                let last = self.stack.len() - 1;
                match &self.stack[last] {
                    Calx::I64(x) => {
                        let xv = *x;
                        let neg: i64 = if xv == i64::MIN {
                            i64::MIN
                        } else {
                            -xv
                        };
                        self.stack.set(last, Calx::I64(neg));
                        proof {
                            reveal(crate::vm_model::step_model);
                            assert(step_model(pre) matches StepSpec::Next(_, _));
                            assert(step_model(pre)->Next_1 == false);
                            assert(self.model() =~= step_model(pre)->Next_0);
                        }
                        Ok(false)
                    },
                    _ => {
                        proof {
                            reveal(crate::vm_model::step_model);
                            assert(step_model(pre) matches StepSpec::Failure(_));
                            assert(step_model(pre)->Failure_0 == "expected an integer"@);
                        }
                        Err(self.gen_err(String::from_str("expected an integer")))
                    },
                }
            },
            CalxInstr::Neg => {
                if self.stack.len() == 0 {
                    proof {
                        reveal(crate::vm_model::step_model);
                        assert(step_model(pre) matches StepSpec::Failure(_));
                        assert(step_model(pre)->Failure_0 == "expected a float"@);
                    }
                    return Err(self.gen_err(String::from_str("expected a float")));
                }
                let last = self.stack.len() - 1;
                match &self.stack[last] {
                    Calx::F64(bits) => {
                        let flipped: u64 = *bits ^ 0x8000_0000_0000_0000u64;
                        self.stack.set(last, Calx::F64(flipped));
                        proof {
                            reveal(crate::vm_model::step_model);
                            assert(step_model(pre) matches StepSpec::Next(_, _));
                            assert(step_model(pre)->Next_1 == false);
                            assert(self.model() =~= step_model(pre)->Next_0);
                        }
                        Ok(false)
                    },
                    _ => {
                        proof {
                            reveal(crate::vm_model::step_model);
                            assert(step_model(pre) matches StepSpec::Failure(_));
                            assert(step_model(pre)->Failure_0 == "expected a float"@);
                        }
                        Err(self.gen_err(String::from_str("expected a float")))
                    },
                }
            },
            _ => {
                proof {
                    assert(false);
                }
                Err(self.gen_err(String::from_str("unreachable dispatch")))
            },
        }
    }

    /// Runs a no-effect, unimplemented, or stopping instruction.
    #[verifier::rlimit(100)]
    #[verifier::spinoff_prover]
    fn step_misc(&mut self) -> (r: Result<bool, CalxError>)
        requires
            old(self).wf(),
            old(self).top_frame.pointer < old(self).top_frame.instrs@.len(),
            ({
                let i = old(self).top_frame.instrs@[old(self).top_frame.pointer as int];
                i matches CalxInstr::NewList || i matches CalxInstr::ListGet
                    || i matches CalxInstr::ListSet || i matches CalxInstr::NewLink
                    || i matches CalxInstr::And || i matches CalxInstr::Or
                    || i matches CalxInstr::Not || i matches CalxInstr::Unreachable
                    || i matches CalxInstr::Nop || i matches CalxInstr::Quit(_)
            }),
        ensures
            final(self).wf(),
            final(self).funcs == old(self).funcs,
            final(self).imports == old(self).imports,
            (r == Ok::<bool, CalxError>(false) && !final(self).finished)
                ==> final(self).top_frame.pointer < final(self).top_frame.instrs@.len(),
            step_model(old(self).model()) matches StepSpec::Next(m2, q) ==> r == Ok::<
                bool,
                CalxError,
            >(q) && final(self).model() == m2,
            step_model(old(self).model()) matches StepSpec::Failure(msg) ==> ({
                &&& r matches Err(e)
                &&& e.message@ == msg
                &&& e.stack@ == old(self).stack@
                &&& e.globals@ == old(self).globals@
                &&& frame_model(e.top_frame) == frame_model(old(self).top_frame)
                &&& final(self).model() == old(self).model()
            }),
            !(step_model(old(self).model()) matches StepSpec::Import(_)),
            !(step_model(old(self).model()) matches StepSpec::FloatBin(_)),
    {
        let ghost pre = old(self).model();
        let pointer = self.top_frame.pointer;
        let instrs_rc = rc_dup(&self.top_frame.instrs);
        let instrs: &Vec<CalxInstr> = &*instrs_rc;
        proof {
            assert(instrs@ == pre.top.instrs);
        }
        match &instrs[pointer] {
            CalxInstr::NewList => {
                proof {
                    reveal(crate::vm_model::step_model);
                    assert(step_model(pre) matches StepSpec::Failure(_));
                    assert(step_model(pre)->Failure_0 == "list.new is not implemented"@);
                }
                Err(self.gen_err(String::from_str("list.new is not implemented")))
            },
            CalxInstr::ListGet => {
                proof {
                    reveal(crate::vm_model::step_model);
                    assert(step_model(pre) matches StepSpec::Failure(_));
                    assert(step_model(pre)->Failure_0 == "list.get is not implemented"@);
                }
                Err(self.gen_err(String::from_str("list.get is not implemented")))
            },
            CalxInstr::ListSet => {
                proof {
                    reveal(crate::vm_model::step_model);
                    assert(step_model(pre) matches StepSpec::Failure(_));
                    assert(step_model(pre)->Failure_0 == "list.set is not implemented"@);
                }
                Err(self.gen_err(String::from_str("list.set is not implemented")))
            },
            CalxInstr::NewLink => {
                proof {
                    reveal(crate::vm_model::step_model);
                    assert(step_model(pre) matches StepSpec::Failure(_));
                    assert(step_model(pre)->Failure_0 == "new-link is not implemented"@);
                }
                Err(self.gen_err(String::from_str("new-link is not implemented")))
            },
            CalxInstr::And => {
                proof {
                    reveal(crate::vm_model::step_model);
                    assert(step_model(pre) matches StepSpec::Failure(_));
                    assert(step_model(pre)->Failure_0 == "and is not implemented"@);
                }
                Err(self.gen_err(String::from_str("and is not implemented")))
            },
            CalxInstr::Or => {
                proof {
                    reveal(crate::vm_model::step_model);
                    assert(step_model(pre) matches StepSpec::Failure(_));
                    assert(step_model(pre)->Failure_0 == "or is not implemented"@);
                }
                Err(self.gen_err(String::from_str("or is not implemented")))
            },
            CalxInstr::Not => {
                proof {
                    reveal(crate::vm_model::step_model);
                    assert(step_model(pre) matches StepSpec::Failure(_));
                    assert(step_model(pre)->Failure_0 == "not is not implemented"@);
                }
                Err(self.gen_err(String::from_str("not is not implemented")))
            },
            CalxInstr::Unreachable => {
                proof {
                    reveal(crate::vm_model::step_model);
                    assert(step_model(pre) matches StepSpec::Failure(_));
                    assert(step_model(pre)->Failure_0 == "reached unreachable"@);
                }
                Err(self.gen_err(String::from_str("reached unreachable")))
            },
            CalxInstr::Nop => {
                proof {
                    reveal(crate::vm_model::step_model);
                    assert(step_model(pre) matches StepSpec::Next(_, _));
                    assert(step_model(pre)->Next_1 == false);
                    assert(self.model() =~= step_model(pre)->Next_0);
                }
                Ok(false)
            },
            CalxInstr::Quit(code) => {
                self.quit_code = Some(*code);
                self.finished = true;
                proof {
                    reveal(crate::vm_model::step_model);
                    assert(step_model(pre) matches StepSpec::Next(_, _));
                    assert(step_model(pre)->Next_1 == false);
                    assert(self.model() =~= step_model(pre)->Next_0);
                }
                Ok(false)
            },
            _ => {
                proof {
                    assert(false);
                }
                Err(self.gen_err(String::from_str("unreachable dispatch")))
            },
        }
    }

    /// Runs an instruction that prints or asserts.
    #[verifier::rlimit(100)]
    #[verifier::spinoff_prover]
    fn step_io(&mut self) -> (r: Result<bool, CalxError>)
        requires
            old(self).wf(),
            old(self).top_frame.pointer < old(self).top_frame.instrs@.len(),
            ({
                let i = old(self).top_frame.instrs@[old(self).top_frame.pointer as int];
                i matches CalxInstr::Echo || i matches CalxInstr::Assert(_)
                    || i matches CalxInstr::Inspect
            }),
        ensures
            final(self).wf(),
            final(self).funcs == old(self).funcs,
            final(self).imports == old(self).imports,
            (r == Ok::<bool, CalxError>(false) && !final(self).finished)
                ==> final(self).top_frame.pointer < final(self).top_frame.instrs@.len(),
            step_model(old(self).model()) matches StepSpec::Next(m2, q) ==> r == Ok::<
                bool,
                CalxError,
            >(q) && final(self).model() == m2,
            step_model(old(self).model()) matches StepSpec::Failure(msg) ==> ({
                &&& r matches Err(e)
                &&& e.message@ == msg
                &&& e.stack@ == old(self).stack@
                &&& e.globals@ == old(self).globals@
                &&& frame_model(e.top_frame) == frame_model(old(self).top_frame)
                &&& final(self).model() == old(self).model()
            }),
            !(step_model(old(self).model()) matches StepSpec::Import(_)),
            !(step_model(old(self).model()) matches StepSpec::FloatBin(_)),
    {
        let ghost pre = old(self).model();
        let pointer = self.top_frame.pointer;
        let instrs_rc = rc_dup(&self.top_frame.instrs);
        let instrs: &Vec<CalxInstr> = &*instrs_rc;
        proof {
            assert(instrs@ == pre.top.instrs);
        }
        match &instrs[pointer] {
            CalxInstr::Echo => {
                let v = match self.stack_pop() {
                    Ok(v) => v,
                    Err(e) => {
                        proof {
                            reveal(crate::vm_model::step_model);
                            assert(step_model(pre) matches StepSpec::Failure(_));
                            assert(step_model(pre)->Failure_0 == e.message@);
                        }
                        return Err(e);
                    },
                };
                let txt = display_value(&v, &self.fhost);
                emit_line(txt.as_str());
                proof {
                    reveal(crate::vm_model::step_model);
                    assert(step_model(pre) matches StepSpec::Next(_, _));
                    assert(step_model(pre)->Next_1 == false);
                    assert(self.model() =~= step_model(pre)->Next_0);
                }
                Ok(false)
            },
            CalxInstr::Assert(msg) => {
                match self.check_before_pop() {
                    Err(e) => {
                        proof {
                            reveal(crate::vm_model::step_model);
                            assert(step_model(pre) matches StepSpec::Failure(_));
                            assert(step_model(pre)->Failure_0 == e.message@);
                        }
                        return Err(e);
                    },
                    Ok(()) => {},
                }
                if is_true_like(&self.stack[self.stack.len() - 1]) {
                    let _ = self.pop_value();
                    proof {
                        reveal(crate::vm_model::step_model);
                        assert(step_model(pre) matches StepSpec::Next(_, _));
                        assert(step_model(pre)->Next_1 == false);
                        assert(self.model() =~= step_model(pre)->Next_0);
                    }
                    Ok(false)
                } else {
                    let mut m = String::from_str("Failed assertion: ");
                    m.append(msg.as_str());
                    proof {
                        reveal(crate::vm_model::step_model);
                        assert(step_model(pre) matches StepSpec::Failure(_));
                        assert(step_model(pre)->Failure_0 == m@);
                    }
                    Err(self.gen_err(m))
                }
            },
            CalxInstr::Inspect => {
                let dump = self.inspect_display(2);
                emit_line(dump.as_str());
                proof {
                    reveal(crate::vm_model::step_model);
                    assert(step_model(pre) matches StepSpec::Next(_, _));
                    assert(step_model(pre)->Next_1 == false);
                    assert(self.model() =~= step_model(pre)->Next_0);
                }
                Ok(false)
            },
            _ => {
                proof {
                    assert(false);
                }
                Err(self.gen_err(String::from_str("unreachable dispatch")))
            },
        }
    }

    /// Runs one call or return instruction.
    fn step_group_c(&mut self) -> (r: Result<bool, CalxError>)
        requires
            old(self).wf(),
            old(self).top_frame.pointer < old(self).top_frame.instrs@.len(),
            Self::instr_is_group_c(old(self).top_frame.instrs@[old(self).top_frame.pointer as int]),
        ensures
            final(self).wf(),
            final(self).funcs == old(self).funcs,
            final(self).imports == old(self).imports,
            (r == Ok::<bool, CalxError>(false) && !final(self).finished)
                ==> final(self).top_frame.pointer < final(self).top_frame.instrs@.len(),
            step_model(old(self).model()) matches StepSpec::Next(m2, q) ==> r == Ok::<
                bool,
                CalxError,
            >(q) && final(self).model() == m2,
            step_model(old(self).model()) matches StepSpec::Failure(msg) ==> ({
                &&& r matches Err(e)
                &&& e.message@ == msg
                &&& e.stack@ == old(self).stack@
                &&& e.globals@ == old(self).globals@
                &&& frame_model(e.top_frame) == frame_model(old(self).top_frame)
                &&& final(self).model() == old(self).model()
            }),
            step_model(old(self).model()) matches StepSpec::Import(j) ==> ({
                let pre = old(self).model();
                let arity = pre.imports[j].1;
                let n = pre.stack.len() as int;
                exists|av: Vec<Calx>, res: Result<Calx, CalxError>|
                    {
                        &&& av@ == pre.stack.skip(n - arity)
                        &&& #[trigger] call_ensures(old(self).imports@[j].1, (av,), res)
                        &&& match res {
                            Ok(v) => r == Ok::<bool, CalxError>(false) && final(self).model()
                                == (VMModel { stack: pre.stack.take(n - arity).push(v), ..pre }),
                            Err(e) => r == Err::<bool, CalxError>(e) && final(self).model()
                                == (VMModel { stack: pre.stack.take(n - arity), ..pre }),
                        }
                    }
            }),
            step_model(old(self).model()) matches StepSpec::FloatBin(_) ==> ({
                let pre = old(self).model();
                exists|x: u64|
                    r == Ok::<bool, CalxError>(false) && final(self).model()
                        == #[trigger] crate::vm_model::binop_next(pre, Calx::F64(x))
            }),
    {
        let pointer = self.top_frame.pointer;
        let instrs_rc = rc_dup(&self.top_frame.instrs);
        let instrs: &Vec<CalxInstr> = &*instrs_rc;
        match &instrs[pointer] {
            CalxInstr::Return => self.step_return(),
            CalxInstr::Call(_) => self.step_call(),
            CalxInstr::ReturnCall(_) => self.step_return_call(),
            CalxInstr::CallImport(_) => self.step_call_import(),
            _ => {
                proof {
                    assert(false);
                }
                Err(self.gen_err(String::from_str("unreachable dispatch")))
            },
        }
    }

    /// Runs a `return`.
    #[verifier::rlimit(100)]
    #[verifier::spinoff_prover]
    fn step_return(&mut self) -> (r: Result<bool, CalxError>)
        requires
            old(self).wf(),
            old(self).top_frame.pointer < old(self).top_frame.instrs@.len(),
            old(self).top_frame.instrs@[old(self).top_frame.pointer as int] matches CalxInstr::Return,
        ensures
            final(self).wf(),
            final(self).funcs == old(self).funcs,
            final(self).imports == old(self).imports,
            (r == Ok::<bool, CalxError>(false) && !final(self).finished)
                ==> final(self).top_frame.pointer < final(self).top_frame.instrs@.len(),
            step_model(old(self).model()) matches StepSpec::Next(m2, q) ==> r == Ok::<
                bool,
                CalxError,
            >(q) && final(self).model() == m2,
            step_model(old(self).model()) matches StepSpec::Failure(msg) ==> ({
                &&& r matches Err(e)
                &&& e.message@ == msg
                &&& e.stack@ == old(self).stack@
                &&& e.globals@ == old(self).globals@
                &&& frame_model(e.top_frame) == frame_model(old(self).top_frame)
                &&& final(self).model() == old(self).model()
            }),
            !(step_model(old(self).model()) matches StepSpec::Import(_)),
            !(step_model(old(self).model()) matches StepSpec::FloatBin(_)),
    {
        let ghost pre = old(self).model();
        let pointer = self.top_frame.pointer;
        let instrs_rc = rc_dup(&self.top_frame.instrs);
        let instrs: &Vec<CalxInstr> = &*instrs_rc;
        proof {
            assert(instrs@ == pre.top.instrs);
        }
        match &instrs[pointer] {
            CalxInstr::Return => {
                let rs = self.top_frame.ret_types.len();
                match self.check_func_return(rs) {
                    Err(e) => {
                        proof {
                            reveal(crate::vm_model::step_model);
                            assert(step_model(pre) matches StepSpec::Failure(_));
                            assert(step_model(pre)->Failure_0 == e.message@);
                        }
                        return Err(e);
                    },
                    Ok(()) => {},
                }
                if self.frames.len() == 0 {
                    if self.stack.len() > 0 {
                        let v = self.stack[self.stack.len() - 1].dup();
                        self.make_return(v);
                        proof {
                            reveal(crate::vm_model::step_model);
                            assert(step_model(pre) matches StepSpec::Next(_, _));
                            assert(step_model(pre)->Next_1 == false);
                            assert(self.model() =~= step_model(pre)->Next_0);
                        }
                        Ok(false)
                    } else {
                        {
                            proof {
                                reveal(crate::vm_model::step_model);
                                assert(step_model(pre) matches StepSpec::Failure(_));
                                assert(step_model(pre)->Failure_0 == "return without value"@);
                            }
                            Err(self.gen_err(String::from_str("return without value")))
                        }
                    }
                } else {
                    proof {
                        lemma_frames_model_drop(self.frames@);
                        assert(old(self).frames@[old(self).frames@.len() - 1].pointer < old(
                            self,
                        ).frames@[old(self).frames@.len() - 1].instrs@.len());
                    }
                    match self.frames.pop() {
                        Some(f) => {
                            self.top_frame = f;
                            proof {
                                reveal(crate::vm_model::step_model);
                                assert(step_model(pre) matches StepSpec::Next(_, _));
                                assert(step_model(pre)->Next_1 == false);
                                assert(self.model() =~= step_model(pre)->Next_0);
                            }
                            Ok(false)
                        },
                        None => {
                            proof {
                                assert(false);
                            }
                            {
                                proof {
                                    reveal(crate::vm_model::step_model);
                                    assert(step_model(pre) matches StepSpec::Failure(_));
                                    assert(step_model(pre)->Failure_0 == "return without value"@);
                                }
                                Err(self.gen_err(String::from_str("return without value")))
                            }
                        },
                    }
                }
            },
            _ => {
                proof {
                    assert(false);
                }
                Err(self.gen_err(String::from_str("unreachable dispatch")))
            },
        }
    }

    /// Runs a `call`.
    #[verifier::rlimit(100)]
    #[verifier::spinoff_prover]
    fn step_call(&mut self) -> (r: Result<bool, CalxError>)
        requires
            old(self).wf(),
            old(self).top_frame.pointer < old(self).top_frame.instrs@.len(),
            old(self).top_frame.instrs@[old(self).top_frame.pointer as int] matches CalxInstr::Call(_),
        ensures
            final(self).wf(),
            final(self).funcs == old(self).funcs,
            final(self).imports == old(self).imports,
            (r == Ok::<bool, CalxError>(false) && !final(self).finished)
                ==> final(self).top_frame.pointer < final(self).top_frame.instrs@.len(),
            step_model(old(self).model()) matches StepSpec::Next(m2, q) ==> r == Ok::<
                bool,
                CalxError,
            >(q) && final(self).model() == m2,
            step_model(old(self).model()) matches StepSpec::Failure(msg) ==> ({
                &&& r matches Err(e)
                &&& e.message@ == msg
                &&& e.stack@ == old(self).stack@
                &&& e.globals@ == old(self).globals@
                &&& frame_model(e.top_frame) == frame_model(old(self).top_frame)
                &&& final(self).model() == old(self).model()
            }),
            !(step_model(old(self).model()) matches StepSpec::Import(_)),
            !(step_model(old(self).model()) matches StepSpec::FloatBin(_)),
    {
        let ghost pre = old(self).model();
        let pointer = self.top_frame.pointer;
        let instrs_rc = rc_dup(&self.top_frame.instrs);
        let instrs: &Vec<CalxInstr> = &*instrs_rc;
        proof {
            assert(instrs@ == pre.top.instrs);
        }
        match &instrs[pointer] {
            CalxInstr::Call(fi) => {
                if *fi >= self.funcs.len() {
                    proof {
                        reveal(crate::vm_model::step_model);
                        assert(step_model(pre) matches StepSpec::Failure(_));
                        assert(step_model(pre)->Failure_0 == "invalid function index"@);
                    }
                    return Err(self.gen_err(String::from_str("invalid function index")));
                }
                let fidx = *fi;
                let pn = self.funcs[fidx].params_types.len();
                match self.check_before_pop_n(pn) {
                    Err(e) => {
                        proof {
                            reveal(crate::vm_model::step_model);
                            assert(step_model(pre) matches StepSpec::Failure(_));
                            assert(step_model(pre)->Failure_0 == e.message@);
                        }
                        return Err(e);
                    },
                    Ok(()) => {},
                }
                let next_size = self.stack.len() - pn;
                let locals = self.stack.split_off(next_size);
                let mut prev = CalxFrame {
                    name: rc_dup(&self.funcs[fidx].name),
                    locals,
                    instrs: rc_dup(&self.funcs[fidx].instrs),
                    pointer: 0,
                    initial_stack_size: next_size,
                    ret_types: rc_dup(&self.funcs[fidx].ret_types),
                };
                core::mem::swap(&mut self.top_frame, &mut prev);
                proof {
                    lemma_frames_model_push(self.frames@, prev);
                    assert(funcs_model(old(self).funcs@)[fidx as int] == func_model(
                        old(self).funcs@[fidx as int],
                    ));
                }
                self.frames.push(prev);
                proof {
                    reveal(crate::vm_model::step_model);
                    assert(step_model(pre) matches StepSpec::Next(_, _));
                    assert(step_model(pre)->Next_1 == true);
                    assert(self.model() =~= step_model(pre)->Next_0);
                }
                Ok(true)
            },
            _ => {
                proof {
                    assert(false);
                }
                Err(self.gen_err(String::from_str("unreachable dispatch")))
            },
        }
    }

    /// Runs a tail call.
    #[verifier::rlimit(100)]
    #[verifier::spinoff_prover]
    fn step_return_call(&mut self) -> (r: Result<bool, CalxError>)
        requires
            old(self).wf(),
            old(self).top_frame.pointer < old(self).top_frame.instrs@.len(),
            old(self).top_frame.instrs@[old(self).top_frame.pointer as int] matches CalxInstr::ReturnCall(_),
        ensures
            final(self).wf(),
            final(self).funcs == old(self).funcs,
            final(self).imports == old(self).imports,
            (r == Ok::<bool, CalxError>(false) && !final(self).finished)
                ==> final(self).top_frame.pointer < final(self).top_frame.instrs@.len(),
            step_model(old(self).model()) matches StepSpec::Next(m2, q) ==> r == Ok::<
                bool,
                CalxError,
            >(q) && final(self).model() == m2,
            step_model(old(self).model()) matches StepSpec::Failure(msg) ==> ({
                &&& r matches Err(e)
                &&& e.message@ == msg
                &&& e.stack@ == old(self).stack@
                &&& e.globals@ == old(self).globals@
                &&& frame_model(e.top_frame) == frame_model(old(self).top_frame)
                &&& final(self).model() == old(self).model()
            }),
            !(step_model(old(self).model()) matches StepSpec::Import(_)),
            !(step_model(old(self).model()) matches StepSpec::FloatBin(_)),
    {
        let ghost pre = old(self).model();
        let pointer = self.top_frame.pointer;
        let instrs_rc = rc_dup(&self.top_frame.instrs);
        let instrs: &Vec<CalxInstr> = &*instrs_rc;
        proof {
            assert(instrs@ == pre.top.instrs);
        }
        match &instrs[pointer] {
            CalxInstr::ReturnCall(fi) => {
                if *fi >= self.funcs.len() {
                    proof {
                        reveal(crate::vm_model::step_model);
                        assert(step_model(pre) matches StepSpec::Failure(_));
                        assert(step_model(pre)->Failure_0 == "invalid function index"@);
                    }
                    return Err(self.gen_err(String::from_str("invalid function index")));
                }
                let fidx = *fi;
                let pn = self.funcs[fidx].params_types.len();
                match self.check_before_pop_n(pn) {
                    Err(e) => {
                        proof {
                            reveal(crate::vm_model::step_model);
                            assert(step_model(pre) matches StepSpec::Failure(_));
                            assert(step_model(pre)->Failure_0 == e.message@);
                        }
                        return Err(e);
                    },
                    Ok(()) => {},
                }
                let next_size = self.stack.len() - pn;
                if self.top_frame.initial_stack_size != next_size {
                    proof {
                        reveal(crate::vm_model::step_model);
                        assert(step_model(pre) matches StepSpec::Failure(_));
                        assert(step_model(pre)->Failure_0
                            == "expected a constant initial stack size"@);
                    }
                    return Err(
                        self.gen_err(String::from_str("expected a constant initial stack size")),
                    );
                }
                let locals = self.stack.split_off(next_size);
                let new_frame = CalxFrame {
                    name: rc_dup(&self.funcs[fidx].name),
                    locals,
                    instrs: rc_dup(&self.funcs[fidx].instrs),
                    pointer: 0,
                    initial_stack_size: next_size,
                    ret_types: rc_dup(&self.funcs[fidx].ret_types),
                };
                self.top_frame = new_frame;
                proof {
                    assert(funcs_model(old(self).funcs@)[fidx as int] == func_model(
                        old(self).funcs@[fidx as int],
                    ));
                    reveal(crate::vm_model::step_model);
                    assert(step_model(pre) matches StepSpec::Next(_, _));
                    assert(step_model(pre)->Next_1 == true);
                    assert(self.model() =~= step_model(pre)->Next_0);
                }
                Ok(true)
            },
            _ => {
                proof {
                    assert(false);
                }
                Err(self.gen_err(String::from_str("unreachable dispatch")))
            },
        }
    }

    /// Runs an import call.
    #[verifier::rlimit(100)]
    #[verifier::spinoff_prover]
    fn step_call_import(&mut self) -> (r: Result<bool, CalxError>)
        requires
            old(self).wf(),
            old(self).top_frame.pointer < old(self).top_frame.instrs@.len(),
            old(self).top_frame.instrs@[old(self).top_frame.pointer as int] matches CalxInstr::CallImport(_),
        ensures
            final(self).wf(),
            final(self).funcs == old(self).funcs,
            final(self).imports == old(self).imports,
            (r == Ok::<bool, CalxError>(false) && !final(self).finished)
                ==> final(self).top_frame.pointer < final(self).top_frame.instrs@.len(),
            step_model(old(self).model()) matches StepSpec::Next(m2, q) ==> r == Ok::<
                bool,
                CalxError,
            >(q) && final(self).model() == m2,
            step_model(old(self).model()) matches StepSpec::Failure(msg) ==> ({
                &&& r matches Err(e)
                &&& e.message@ == msg
                &&& e.stack@ == old(self).stack@
                &&& e.globals@ == old(self).globals@
                &&& frame_model(e.top_frame) == frame_model(old(self).top_frame)
                &&& final(self).model() == old(self).model()
            }),
            step_model(old(self).model()) matches StepSpec::Import(j) ==> ({
                let pre = old(self).model();
                let arity = pre.imports[j].1;
                let n = pre.stack.len() as int;
                exists|av: Vec<Calx>, res: Result<Calx, CalxError>|
                    {
                        &&& av@ == pre.stack.skip(n - arity)
                        &&& #[trigger] call_ensures(old(self).imports@[j].1, (av,), res)
                        &&& match res {
                            Ok(v) => r == Ok::<bool, CalxError>(false) && final(self).model()
                                == (VMModel { stack: pre.stack.take(n - arity).push(v), ..pre }),
                            Err(e) => r == Err::<bool, CalxError>(e) && final(self).model()
                                == (VMModel { stack: pre.stack.take(n - arity), ..pre }),
                        }
                    }
            }),
            !(step_model(old(self).model()) matches StepSpec::FloatBin(_)),
    {
        let ghost pre = old(self).model();
        let pointer = self.top_frame.pointer;
        let instrs_rc = rc_dup(&self.top_frame.instrs);
        let instrs: &Vec<CalxInstr> = &*instrs_rc;
        proof {
            assert(instrs@ == pre.top.instrs);
        }
        match &instrs[pointer] {
            CalxInstr::CallImport(name) => {
                let j = match self.find_import_index(name.as_str()) {
                    Some(j) => j,
                    None => {
                        proof {
                            reveal(crate::vm_model::step_model);
                            assert(step_model(pre) matches StepSpec::Failure(_));
                            assert(step_model(pre)->Failure_0 == "missing imported function"@);
                        }
                        return Err(self.gen_err(String::from_str("missing imported function")));
                    },
                };
                proof {
                    lemma_find_import_at(imports_model(self.imports@), name@, 0);
                }
                let arity = self.imports[j].2;
                match self.check_before_pop_n(arity) {
                    Err(e) => {
                        proof {
                            reveal(crate::vm_model::step_model);
                            assert(step_model(pre) matches StepSpec::Failure(_));
                            assert(step_model(pre)->Failure_0 == e.message@);
                        }
                        return Err(e);
                    },
                    Ok(()) => {},
                }
                proof {
                    reveal(crate::vm_model::step_model);
                    assert(step_model(pre) == StepSpec::Import(j as int));
                    assert(pre.imports[j as int].1 == arity as int);
                }
                let at = self.stack.len() - arity;
                let args = self.stack.split_off(at);
                let ghost gargs = args;
                let res = (self.imports[j].1)(args);
                match res {
                    Ok(v) => {
                        let ghost gres = res;
                        let ghost gv = v;
                        self.stack.push(v);
                        proof {
                            assert(call_ensures(old(self).imports@[j as int].1, (gargs,), gres));
                            assert(gargs@ == pre.stack.skip(pre.stack.len() - arity));
                            assert(self.model() =~= (VMModel {
                                stack: pre.stack.take(at as int).push(gv),
                                ..pre
                            }));
                            assert(step_model(pre) matches StepSpec::Import(jj) ==> ({
                                let arity2 = pre.imports[jj].1;
                                let n2 = pre.stack.len() as int;
                                exists|av: Vec<Calx>, res2: Result<Calx, CalxError>|
                                    {
                                        &&& av@ == pre.stack.skip(n2 - arity2)
                                        &&& #[trigger] call_ensures(
                                            old(self).imports@[jj].1,
                                            (av,),
                                            res2,
                                        )
                                        &&& match res2 {
                                            Ok(v2) => Ok::<bool, CalxError>(false) == Ok::<
                                                bool,
                                                CalxError,
                                            >(false) && self.model() == (VMModel {
                                                stack: pre.stack.take(n2 - arity2).push(v2),
                                                ..pre
                                            }),
                                            Err(e2) => Ok::<bool, CalxError>(false) == Err::<
                                                bool,
                                                CalxError,
                                            >(e2) && self.model() == (VMModel {
                                                stack: pre.stack.take(n2 - arity2),
                                                ..pre
                                            }),
                                        }
                                    }
                            })) by {
                                assert(step_model(pre) == StepSpec::Import(j as int));
                                assert(pre.imports[j as int].1 == arity as int);
                                assert(gres == Ok::<Calx, CalxError>(gv));
                            }
                        }
                        Ok(false)
                    },
                    Err(e) => {
                        proof {
                            assert(call_ensures(old(self).imports@[j as int].1, (gargs,), res));
                            assert(gargs@ == pre.stack.skip(pre.stack.len() - arity));
                            assert(self.model() =~= (VMModel {
                                stack: pre.stack.take(at as int),
                                ..pre
                            }));
                        }
                        Err(e)
                    },
                }
            },
            _ => {
                proof {
                    assert(false);
                }
                Err(self.gen_err(String::from_str("unreachable dispatch")))
            },
        }
    }

    /// Runs one two-operand numeric instruction.
    #[verifier::rlimit(100)]
    #[verifier::spinoff_prover]
    fn step_binop(&mut self) -> (r: Result<bool, CalxError>)
        requires
            old(self).wf(),
            old(self).top_frame.pointer < old(self).top_frame.instrs@.len(),
            !Self::instr_is_group_a(old(self).top_frame.instrs@[old(self).top_frame.pointer as int]),
            !Self::instr_is_group_b(old(self).top_frame.instrs@[old(self).top_frame.pointer as int]),
            !Self::instr_is_group_c(old(self).top_frame.instrs@[old(self).top_frame.pointer as int]),
        ensures
            final(self).wf(),
            final(self).funcs == old(self).funcs,
            final(self).imports == old(self).imports,
            (r == Ok::<bool, CalxError>(false) && !final(self).finished)
                ==> final(self).top_frame.pointer < final(self).top_frame.instrs@.len(),
            step_model(old(self).model()) matches StepSpec::Next(m2, q) ==> r == Ok::<
                bool,
                CalxError,
            >(q) && final(self).model() == m2,
            step_model(old(self).model()) matches StepSpec::Failure(msg) ==> ({
                &&& r matches Err(e)
                &&& e.message@ == msg
                &&& e.stack@ == old(self).stack@
                &&& e.globals@ == old(self).globals@
                &&& frame_model(e.top_frame) == frame_model(old(self).top_frame)
                &&& final(self).model() == old(self).model()
            }),
            !(step_model(old(self).model()) matches StepSpec::Import(_)),
            step_model(old(self).model()) matches StepSpec::FloatBin(_) ==> ({
                let pre = old(self).model();
                exists|x: u64|
                    r == Ok::<bool, CalxError>(false) && final(self).model()
                        == #[trigger] crate::vm_model::binop_next(pre, Calx::F64(x))
            }),
    {
        let ghost pre = old(self).model();
        let pointer = self.top_frame.pointer;
        let instrs_rc = rc_dup(&self.top_frame.instrs);
        let instrs: &Vec<CalxInstr> = &*instrs_rc;
        proof {
            assert(instrs@ == pre.top.instrs);
        }
        match &instrs[pointer] {
            _ => {
                // the two-operand numeric instructions
                let n = self.stack.len();
                if n < 2 {
                    proof {
                        reveal(crate::vm_model::step_model);
                        assert(step_model(pre) matches StepSpec::Failure(_));
                        assert(step_model(pre)->Failure_0 == "cannot pop from empty stack"@);
                    }
                    return Err(self.gen_err(String::from_str("cannot pop from empty stack")));
                }
                if n - 2 < self.top_frame.initial_stack_size {
                    proof {
                        reveal(crate::vm_model::step_model);
                        assert(step_model(pre) matches StepSpec::Failure(_));
                        assert(step_model(pre)->Failure_0 == "cannot pop from parent stack"@);
                    }
                    return Err(self.gen_err(String::from_str("cannot pop from parent stack")));
                }
                let kind = &instrs[pointer];
                match (&self.stack[n - 2], &self.stack[n - 1]) {
                    (Calx::I64(x), Calx::I64(y)) => {
                        let xv = *x;
                        let yv = *y;
                        let result: Calx = match kind {
                            CalxInstr::IntAdd => Calx::I64(xv.wrapping_add(yv)),
                            CalxInstr::Add => Calx::I64(xv.wrapping_add(yv)),
                            CalxInstr::IntMul => Calx::I64(xv.wrapping_mul(yv)),
                            CalxInstr::Mul => Calx::I64(xv.wrapping_mul(yv)),
                            CalxInstr::IntDiv => match xv.checked_div(yv) {
                                Some(q) => Calx::I64(q),
                                None => {
                                    proof {
                                        reveal(crate::vm_model::step_model);
                                        assert(step_model(pre) matches StepSpec::Failure(_));
                                        assert(step_model(pre)->Failure_0 == "invalid integer operands"@);
                                    }
                                    return Err(self.gen_err(String::from_str("invalid integer operands")));
                                },
                            },
                            CalxInstr::IntRem => match xv.checked_rem(yv) {
                                Some(q) => Calx::I64(q),
                                None => {
                                    proof {
                                        reveal(crate::vm_model::step_model);
                                        assert(step_model(pre) matches StepSpec::Failure(_));
                                        assert(step_model(pre)->Failure_0 == "invalid integer operands"@);
                                    }
                                    return Err(self.gen_err(String::from_str("invalid integer operands")));
                                },
                            },
                            CalxInstr::IntShr => {
                                let k = #[verifier::truncate] (yv as u32);
                                if k > 63 {
                                    proof {
                                        reveal(crate::vm_model::step_model);
                                        assert(step_model(pre) matches StepSpec::Failure(_));
                                        assert(step_model(pre)->Failure_0 == "invalid integer operands"@);
                                    }
                                    return Err(self.gen_err(String::from_str("invalid integer operands")));
                                }
                                Calx::I64(xv >> (k as i64))
                            },
                            CalxInstr::IntShl => {
                                let k = #[verifier::truncate] (yv as u32);
                                if k > 63 {
                                    proof {
                                        reveal(crate::vm_model::step_model);
                                        assert(step_model(pre) matches StepSpec::Failure(_));
                                        assert(step_model(pre)->Failure_0 == "invalid integer operands"@);
                                    }
                                    return Err(self.gen_err(String::from_str("invalid integer operands")));
                                }
                                Calx::I64(xv << (k as i64))
                            },
                            CalxInstr::IntEq => Calx::Bool(xv == yv),
                            CalxInstr::IntNe => Calx::Bool(xv != yv),
                            CalxInstr::IntLt => Calx::Bool(xv < yv),
                            CalxInstr::IntLe => Calx::Bool(xv <= yv),
                            CalxInstr::IntGt => Calx::Bool(xv > yv),
                            CalxInstr::IntGe => Calx::Bool(xv >= yv),
                            _ => {
                                proof {
                                    reveal(crate::vm_model::step_model);
                                    assert(step_model(pre) matches StepSpec::Failure(_));
                                    assert(step_model(pre)->Failure_0 == "expected two floats"@);
                                }
                                return Err(
                                    self.gen_err(String::from_str("expected two floats")),
                                );
                            },
                        };
                        let _ = self.pop_value();
                        self.stack.set(n - 2, result);
                        proof {
                            reveal(crate::vm_model::step_model);
                            assert(step_model(pre) matches StepSpec::Next(_, _));
                            assert(step_model(pre)->Next_1 == false);
                            assert(self.model() =~= step_model(pre)->Next_0);
                        }
                        Ok(false)
                    },
                    (Calx::F64(x), Calx::F64(y)) => {
                        let xb = *x;
                        let yb = *y;
                        let bits: u64 = match kind {
                            CalxInstr::Add => self.fhost.add(xb, yb),
                            CalxInstr::Mul => self.fhost.mul(xb, yb),
                            CalxInstr::Div => self.fhost.div(xb, yb),
                            _ => {
                                proof {
                                    reveal(crate::vm_model::step_model);
                                    assert(step_model(pre) matches StepSpec::Failure(_));
                                    assert(step_model(pre)->Failure_0 == "expected two integers"@);
                                }
                                return Err(
                                    self.gen_err(String::from_str("expected two integers")),
                                );
                            },
                        };
                        let _ = self.pop_value();
                        self.stack.set(n - 2, Calx::F64(bits));
                        proof {
                            reveal(crate::vm_model::step_model);
                            assert(step_model(pre) matches StepSpec::FloatBin(_));
                            assert(self.model() =~= crate::vm_model::binop_next(
                                pre,
                                Calx::F64(bits),
                            ));
                        }
                        Ok(false)
                    },
                    _ => {
                        proof {
                            reveal(crate::vm_model::step_model);
                            assert(step_model(pre) matches StepSpec::Failure(_));
                            assert(step_model(pre)->Failure_0 == "mismatched numeric operands"@);
                        }
                        Err(self.gen_err(String::from_str("mismatched numeric operands")))
                    },
                }
            },
        }
    }

    /// A human-readable dump of the machine: the pending frame count, the
    /// top frame's name, the operand stack, the frame's sizes and the
    /// pointer.
    pub fn inspect_display(&self, indent_size: u8) -> String {
        let mut pad = String::from_str("\n");
        let mut i: u8 = 0;
        while i < indent_size
            decreases indent_size - i,
        {
            pad.append(" ");
            i = i + 1;
        }
        let mut out = String::new();
        out.append(pad.as_str());
        out.append("Internal frames: ");
        let fc = u64_to_string(self.frames.len() as u64);
        out.append(fc.as_str());
        out.append(pad.as_str());
        out.append("Top frame: ");
        out.append(self.top_frame.name.as_str());
        out.append(pad.as_str());
        out.append("Stack(");
        let sc = u64_to_string(self.stack.len() as u64);
        out.append(sc.as_str());
        out.append("):");
        let n = self.stack.len();
        let mut k: usize = 0;
        while k < n
            invariant
                n == self.stack@.len(),
                0 <= k <= n,
            decreases n - k,
        {
            out.append(" ");
            let piece = display_value(&self.stack[k], &self.fhost);
            out.append(piece.as_str());
            k = k + 1;
        }
        out.append(pad.as_str());
        out.append("Sizes: ");
        let init = u64_to_string(self.top_frame.initial_stack_size as u64);
        out.append(init.as_str());
        out.append(" + ");
        let rc = u64_to_string(self.top_frame.ret_types.len() as u64);
        out.append(rc.as_str());
        out.append(pad.as_str());
        out.append("Pointer: ");
        let pc = u64_to_string(self.top_frame.pointer as u64);
        out.append(pc.as_str());
        out
    }

    /// Runs the machine to completion: assigns the arguments to the top
    /// frame's locals, clears the operand stack, and steps until the
    /// machine finishes or fails. The result is exactly what iterating
    /// `step_model` from `run_entry` gives: at whatever fuel the fold
    /// finishes or fails, the returned value, the error, and the final
    /// state agree with it. Programs that reach an import call or float
    /// arithmetic run on with the host's answers; the fold makes no claim
    /// past that point. Steps are counted in a 64-bit word; a computation
    /// that outlives the counter stops with an error.
    pub fn run(&mut self, args: Vec<Calx>) -> (r: Result<Calx, CalxError>)
        requires
            old(self).wf(),
        ensures
            final(self).wf(),
            final(self).funcs == old(self).funcs,
            final(self).imports == old(self).imports,
            r matches Ok(v) ==> final(self).finished && v == final(self).return_value,
            forall|fuel: nat|
                fuel <= u64::MAX ==> match #[trigger] run_model(
                    run_entry(old(self).model(), args@),
                    fuel,
                ) {
                    RunSpec::Finished(mf, v) => r == Ok::<Calx, CalxError>(v) && final(self).model()
                        == mf,
                    RunSpec::Failed(mf, msg) => ({
                        &&& r matches Err(e)
                        &&& e.message@ == msg
                        &&& e.stack@ == mf.stack
                        &&& e.globals@ == mf.globals
                        &&& frame_model(e.top_frame) == mf.top
                        &&& final(self).model() == mf
                    }),
                    RunSpec::Blocked(_) => true,
                    RunSpec::OutOfFuel(_) => true,
                },
    {
        let ghost entry = run_entry(old(self).model(), args@);
        self.top_frame.locals = args;
        self.stack.clear();
        proof {
            assert(self.model() =~= entry);
        }
        let mut steps: u64 = 0;
        while steps < u64::MAX
            invariant
                self.wf(),
                self.funcs == old(self).funcs,
                self.imports == old(self).imports,
                entry == run_entry(old(self).model(), args@),
                ({
                    ||| ((forall|f: nat|
                        steps as nat + f <= u64::MAX ==> #[trigger] run_model(
                            entry,
                            (steps as nat + f),
                        ) == run_model(self.model(), f)) && (forall|f: nat|
                        f < steps as nat ==> #[trigger] run_model(entry, f)
                            matches RunSpec::OutOfFuel(_)))
                    ||| (forall|f: nat|
                        f <= u64::MAX ==> (#[trigger] run_model(entry, f)
                            matches RunSpec::OutOfFuel(_) || run_model(entry, f)
                            matches RunSpec::Blocked(_)))
                }),
            decreases u64::MAX - steps,
        {
            if self.finished {
                let v = self.return_value.dup();
                proof {
                    if forall|f: nat|
                        steps as nat + f <= u64::MAX ==> #[trigger] run_model(
                            entry,
                            (steps as nat + f),
                        ) == run_model(self.model(), f) {
                        assert forall|fuel: nat| steps as nat <= fuel <= u64::MAX implies #[trigger] run_model(
                            entry,
                            fuel,
                        ) == RunSpec::Finished(self.model(), self.return_value) by {
                            let f = (fuel - steps as nat) as nat;
                            assert(run_model(entry, (steps as nat + f)) == run_model(
                                self.model(),
                                f,
                            ));
                        }
                    }
                }
                return Ok(v);
            }
            let ghost cur = self.model();
            let step_r = self.step();
            match step_r {
                Ok(quick) => {
                    let ghost m2 = self.model();
                    if !quick && !self.finished {
                        let l = self.top_frame.instrs.len();
                        proof {
                            assert(self.top_frame.pointer < l);
                        }
                        self.top_frame.pointer = self.top_frame.pointer + 1;
                    }
                    proof {
                        match step_model(cur) {
                            StepSpec::Next(nm, q) => {
                                assert(self.model() =~= advance_model(nm, q));
                                if (forall|f: nat|
                                    steps as nat + f <= u64::MAX ==> #[trigger] run_model(
                                        entry,
                                        (steps as nat + f),
                                    ) == run_model(cur, f)) && (forall|f: nat|
                                    f < steps as nat ==> #[trigger] run_model(entry, f)
                                        matches RunSpec::OutOfFuel(_)) {
                                    assert forall|f: nat|
                                        (steps + 1) as nat + f <= u64::MAX implies #[trigger] run_model(
                                        entry,
                                        ((steps + 1) as nat + f),
                                    ) == run_model(self.model(), f) by {
                                        assert(run_model(entry, (steps as nat + (f + 1)))
                                            == run_model(cur, f + 1));
                                        assert(run_model(cur, f + 1) == run_model(
                                            advance_model(nm, q),
                                            f,
                                        ));
                                    }
                                    assert forall|f: nat| f < (steps + 1) as nat implies #[trigger] run_model(
                                        entry,
                                        f,
                                    ) matches RunSpec::OutOfFuel(_) by {
                                        if f == steps as nat {
                                            assert(run_model(entry, (steps as nat + 0))
                                                == run_model(cur, 0));
                                        }
                                    }
                                }
                            },
                            StepSpec::Failure(_) => {
                                assert(false);
                            },
                            _ => {
                                // an import call or float arithmetic: past this
                                // point the fold makes no claim
                                if (forall|f: nat|
                                    steps as nat + f <= u64::MAX ==> #[trigger] run_model(
                                        entry,
                                        (steps as nat + f),
                                    ) == run_model(cur, f)) && (forall|f: nat|
                                    f < steps as nat ==> #[trigger] run_model(entry, f)
                                        matches RunSpec::OutOfFuel(_)) {
                                    assert forall|f: nat| f <= u64::MAX implies (
                                    #[trigger] run_model(entry, f) matches RunSpec::OutOfFuel(_)
                                        || run_model(entry, f) matches RunSpec::Blocked(_)) by {
                                        if f >= steps as nat {
                                            let g = (f - steps as nat) as nat;
                                            assert(run_model(entry, (steps as nat + g))
                                                == run_model(cur, g));
                                        }
                                    }
                                }
                            },
                        }
                    }
                },
                Err(e) => {
                    proof {
                        match step_model(cur) {
                            StepSpec::Failure(msg) => {
                                if (forall|f: nat|
                                    steps as nat + f <= u64::MAX ==> #[trigger] run_model(
                                        entry,
                                        (steps as nat + f),
                                    ) == run_model(cur, f)) && (forall|f: nat|
                                    f < steps as nat ==> #[trigger] run_model(entry, f)
                                        matches RunSpec::OutOfFuel(_)) {
                                    assert forall|fuel: nat| fuel <= u64::MAX implies match #[trigger] run_model(
                                        entry,
                                        fuel,
                                    ) {
                                        RunSpec::Finished(mf, v) => false,
                                        RunSpec::Failed(mf, m) => mf == cur && m == msg,
                                        RunSpec::Blocked(_) => true,
                                        RunSpec::OutOfFuel(_) => true,
                                    } by {
                                        if fuel >= steps as nat {
                                            let g = (fuel - steps as nat) as nat;
                                            assert(run_model(entry, (steps as nat + g))
                                                == run_model(cur, g));
                                        }
                                    }
                                }
                            },
                            StepSpec::Next(_, _) => {
                                assert(false);
                            },
                            _ => {
                                // the host import returned an error; the fold
                                // already stops at the import
                                if (forall|f: nat|
                                    steps as nat + f <= u64::MAX ==> #[trigger] run_model(
                                        entry,
                                        (steps as nat + f),
                                    ) == run_model(cur, f)) && (forall|f: nat|
                                    f < steps as nat ==> #[trigger] run_model(entry, f)
                                        matches RunSpec::OutOfFuel(_)) {
                                    assert forall|f: nat| f <= u64::MAX implies (
                                    #[trigger] run_model(entry, f) matches RunSpec::OutOfFuel(_)
                                        || run_model(entry, f) matches RunSpec::Blocked(_)) by {
                                        if f >= steps as nat {
                                            let g = (f - steps as nat) as nat;
                                            assert(run_model(entry, (steps as nat + g))
                                                == run_model(cur, g));
                                        }
                                    }
                                }
                            },
                        }
                    }
                    return Err(e);
                },
            }
            steps = steps + 1;
        }
        if self.finished {
            let v = self.return_value.dup();
            proof {
                if forall|f: nat|
                    steps as nat + f <= u64::MAX ==> #[trigger] run_model(
                        entry,
                        (steps as nat + f),
                    ) == run_model(self.model(), f) {
                    assert(run_model(entry, (steps as nat + 0)) == run_model(self.model(), 0));
                }
            }
            return Ok(v);
        }
        proof {
            if forall|f: nat|
                steps as nat + f <= u64::MAX ==> #[trigger] run_model(entry, (steps as nat + f))
                    == run_model(self.model(), f) {
                assert(run_model(entry, (steps as nat + 0)) == run_model(self.model(), 0));
            }
        }
        Err(CalxError::new_raw(String::from_str("step budget exhausted")))
    }
}

/// Whether the simulated depth equals the depth a region expects at its
/// end or at a branch to it; compared in a wide word, so nothing can
/// overflow.
fn block_finish_matches(b: &BlockData, depth: usize) -> (r: bool)
    ensures
        r == (depth as int == spec_expected_finish_size(*b)),
{
    match b {
        BlockData::Block { params_types, ret_types, initial_stack_size, .. } => {
            depth as u128 + params_types.len() as u128 == *initial_stack_size as u128
                + ret_types.len() as u128
        },
        BlockData::Loop { params_types, ret_types, initial_stack_size, .. } => {
            depth as u128 + params_types.len() as u128 == *initial_stack_size as u128
                + ret_types.len() as u128
        },
        BlockData::If { ret_types, initial_stack_size, .. } => {
            depth as u128 + 1 == *initial_stack_size as u128 + ret_types.len() as u128
        },
    }
}

impl<F: Fn(Vec<Calx>) -> Result<Calx, CalxError>, H: FloatHost> CalxVM<F, H> {
    /// Preprocesses one surface instruction: checks the simulated stack,
    /// resolves names and branch depths, and emits one flat instruction.
    #[verifier::rlimit(100)]
    #[verifier::spinoff_prover]
    fn pp_item(
        &self,
        syn: &CalxSyntax,
        rets: &Vec<CalxType>,
        limit: usize,
        depth: &mut usize,
        bs: &mut BlockStack,
        ops: &mut Vec<CalxInstr>,
    ) -> (r: Result<(), String>)
        ensures
            ({
                let st0 = PPState {
                    depth: *old(depth) as int,
                    blocks: old(bs)@,
                    ops: old(ops)@,
                };
                match pp_step(
                    funcs_model(self.funcs@),
                    imports_model(self.imports@),
                    rets@,
                    limit as int,
                    st0,
                    *syn,
                ) {
                    Ok(st2) => ({
                        &&& r is Ok
                        &&& *final(depth) as int == st2.depth
                        &&& final(bs)@ == st2.blocks
                        &&& final(ops)@ == st2.ops
                    }),
                    Err(m) => r matches Err(e) && e@ == m,
                }
            }),
    {
        let ghost fm = funcs_model(self.funcs@);
        let ghost im = imports_model(self.imports@);
        let ghost st0 = PPState { depth: *depth as int, blocks: bs@, ops: ops@ };
        let ghost res = pp_step(fm, im, rets@, limit as int, st0, *syn);
        match syn {
            CalxSyntax::Block { looped, params_types, ret_types, from, to } => {
                if !(*from <= *to && *to < limit) {
                    proof {
                        reveal(crate::vm_model::pp_step);
                        assert(res matches Err(m) && m == "block target out of range"@);
                    }
                    return Err(String::from_str("block target out of range"));
                }
                if *depth < params_types.len() {
                    proof {
                        reveal(crate::vm_model::pp_step);
                        assert(res matches Err(m) && m == "insufficient params for a block"@);
                    }
                    return Err(String::from_str("insufficient params for a block"));
                }
                let b = if *looped {
                    BlockData::Loop {
                        params_types: rc_dup(params_types),
                        ret_types: rc_dup(ret_types),
                        from: *from,
                        to: *to,
                        initial_stack_size: *depth,
                    }
                } else {
                    BlockData::Block {
                        params_types: rc_dup(params_types),
                        ret_types: rc_dup(ret_types),
                        to: *to,
                        initial_stack_size: *depth,
                    }
                };
                bs.push(b);
                ops.push(CalxInstr::Nop);
                proof {
                    reveal(crate::vm_model::pp_step);
                    assert(res matches Ok(st2) && *depth as int == st2.depth && bs@ == st2.blocks
                        && ops@ == st2.ops);
                }
                Ok(())
            },
            CalxSyntax::Br(level) => {
                if *level > bs.len() {
                    proof {
                        reveal(crate::vm_model::pp_step);
                        assert(res matches Err(m) && m == "branch level too large"@);
                    }
                    return Err(String::from_str("branch level too large"));
                }
                proof {
                    crate::block_data::lemma_block_index_at(bs@, *level as nat);
                }
                match bs.peek_block_level(*level) {
                    Err(_) => {
                        proof {
                            reveal(crate::vm_model::pp_step);
                            assert(res matches Err(m) && m == "no block found on stack"@);
                        }
                        Err(String::from_str("no block found on stack"))
                    },
                    Ok(b) => {
                        if !block_finish_matches(b, *depth) {
                            proof {
                                reveal(crate::vm_model::pp_step);
                                assert(res matches Err(m) && m
                                    == "stack size mismatch for the branch"@);
                            }
                            return Err(String::from_str("stack size mismatch for the branch"));
                        }
                        match b {
                            BlockData::Loop { from, .. } => ops.push(CalxInstr::Jmp(*from)),
                            BlockData::Block { to, .. } => ops.push(CalxInstr::Jmp(*to)),
                            BlockData::If { to, .. } => ops.push(CalxInstr::Jmp(*to)),
                        }
                        proof {
                            reveal(crate::vm_model::pp_step);
                            assert(res matches Ok(st2) && *depth as int == st2.depth && bs@
                                == st2.blocks && ops@ == st2.ops);
                        }
                        Ok(())
                    },
                }
            },
            CalxSyntax::BrIf(level) => {
                if bs.is_empty() {
                    proof {
                        reveal(crate::vm_model::pp_step);
                        assert(res matches Err(m) && m == "no block to branch in"@);
                    }
                    return Err(String::from_str("no block to branch in"));
                }
                if *level > bs.len() {
                    proof {
                        reveal(crate::vm_model::pp_step);
                        assert(res matches Err(m) && m == "branch level too large"@);
                    }
                    return Err(String::from_str("branch level too large"));
                }
                proof {
                    crate::block_data::lemma_block_index_at(bs@, *level as nat);
                }
                match bs.peek_block_level(*level) {
                    Err(_) => {
                        proof {
                            reveal(crate::vm_model::pp_step);
                            assert(res matches Err(m) && m == "no block found on stack"@);
                        }
                        Err(String::from_str("no block found on stack"))
                    },
                    Ok(b) => {
                        if *depth < 1 {
                            proof {
                                reveal(crate::vm_model::pp_step);
                                assert(res matches Err(m) && m == "insufficient stack for br-if"@);
                            }
                            return Err(String::from_str("insufficient stack for br-if"));
                        }
                        if !block_finish_matches(b, *depth - 1) {
                            proof {
                                reveal(crate::vm_model::pp_step);
                                assert(res matches Err(m) && m
                                    == "stack size mismatch for the branch"@);
                            }
                            return Err(String::from_str("stack size mismatch for the branch"));
                        }
                        match b {
                            BlockData::Loop { from, .. } => ops.push(CalxInstr::JmpIf(*from)),
                            BlockData::Block { to, .. } => ops.push(CalxInstr::JmpIf(*to)),
                            BlockData::If { to, .. } => ops.push(CalxInstr::JmpIf(*to)),
                        }
                        *depth = *depth - 1;
                        proof {
                            reveal(crate::vm_model::pp_step);
                            assert(res matches Ok(st2) && *depth as int == st2.depth && bs@
                                == st2.blocks && ops@ == st2.ops);
                        }
                        Ok(())
                    },
                }
            },
            CalxSyntax::BlockEnd(looped) => {
                if bs.is_empty() {
                    proof {
                        reveal(crate::vm_model::pp_step);
                        assert(res matches Err(m) && m == "invalid block end"@);
                    }
                    return Err(String::from_str("invalid block end"));
                }
                proof {
                    crate::block_data::lemma_block_index_at(bs@, 0);
                }
                match bs.pop_block() {
                    Err(_) => {
                        proof {
                            reveal(crate::vm_model::pp_step);
                            assert(res matches Err(m) && m == "no block found on stack"@);
                        }
                        Err(String::from_str("no block found on stack"))
                    },
                    Ok(b) => {
                        if !*looped && !block_finish_matches(&b, *depth) {
                            proof {
                                reveal(crate::vm_model::pp_step);
                                assert(res matches Err(m) && m == "size mismatch for a block end"@);
                            }
                            return Err(String::from_str("size mismatch for a block end"));
                        }
                        ops.push(CalxInstr::Nop);
                        proof {
                            reveal(crate::vm_model::pp_step);
                            assert(res matches Ok(st2) && *depth as int == st2.depth && bs@
                                == st2.blocks && ops@ == st2.ops);
                        }
                        Ok(())
                    },
                }
            },
            CalxSyntax::Call(name) => {
                proof {
                    lemma_find_func_at(funcs_model(self.funcs@), name@, 0);
                }
                match self.find_func_idx(name.as_str()) {
                    None => {
                        proof {
                            reveal(crate::vm_model::pp_step);
                            assert(res matches Err(m) && m == "cannot find the function to call"@);
                        }
                        Err(String::from_str("cannot find the function to call"))
                    },
                    Some((fi, f)) => {
                        let pn = f.params_types.len();
                        let qn = f.ret_types.len();
                        if *depth < pn {
                            proof {
                                reveal(crate::vm_model::pp_step);
                                assert(res matches Err(m) && m == "insufficient stack to call"@);
                            }
                            return Err(String::from_str("insufficient stack to call"));
                        }
                        match (*depth - pn).checked_add(qn) {
                            None => {
                                proof {
                                    reveal(crate::vm_model::pp_step);
                                    assert(res matches Err(m) && m == "stack depth too large"@);
                                }
                                Err(String::from_str("stack depth too large"))
                            },
                            Some(d2) => {
                                *depth = d2;
                                ops.push(CalxInstr::Call(fi));
                                proof {
                                    reveal(crate::vm_model::pp_step);
                                    assert(res matches Ok(st2) && *depth as int == st2.depth && bs@
                                        == st2.blocks && ops@ == st2.ops);
                                }
                                Ok(())
                            },
                        }
                    },
                }
            },
            CalxSyntax::ReturnCall(name) => {
                proof {
                    lemma_find_func_at(funcs_model(self.funcs@), name@, 0);
                }
                match self.find_func_idx(name.as_str()) {
                    None => {
                        proof {
                            reveal(crate::vm_model::pp_step);
                            assert(res matches Err(m) && m == "cannot find the function to call"@);
                        }
                        Err(String::from_str("cannot find the function to call"))
                    },
                    Some((fi, f)) => {
                        let pn = f.params_types.len();
                        let qn = f.ret_types.len();
                        if *depth < pn {
                            proof {
                                reveal(crate::vm_model::pp_step);
                                assert(res matches Err(m) && m == "insufficient stack to call"@);
                            }
                            return Err(String::from_str("insufficient stack to call"));
                        }
                        match (*depth - pn).checked_add(qn) {
                            None => {
                                proof {
                                    reveal(crate::vm_model::pp_step);
                                    assert(res matches Err(m) && m == "stack depth too large"@);
                                }
                                Err(String::from_str("stack depth too large"))
                            },
                            Some(d2) => {
                                *depth = d2;
                                ops.push(CalxInstr::ReturnCall(fi));
                                proof {
                                    reveal(crate::vm_model::pp_step);
                                    assert(res matches Ok(st2) && *depth as int == st2.depth && bs@
                                        == st2.blocks && ops@ == st2.ops);
                                }
                                Ok(())
                            },
                        }
                    },
                }
            },
            CalxSyntax::CallImport(name) => {
                proof {
                    lemma_find_import_at(imports_model(self.imports@), name@, 0);
                }
                match self.find_import_index(name.as_str()) {
                    None => {
                        proof {
                            reveal(crate::vm_model::pp_step);
                            assert(res matches Err(m) && m == "missing imported function"@);
                        }
                        Err(String::from_str("missing imported function"))
                    },
                    Some(j) => {
                        let arity = self.imports[j].2;
                        if *depth < arity {
                            proof {
                                reveal(crate::vm_model::pp_step);
                                assert(res matches Err(m) && m
                                    == "insufficient stack to call an import"@);
                            }
                            return Err(String::from_str("insufficient stack to call an import"));
                        }
                        match (*depth - arity).checked_add(1) {
                            None => {
                                proof {
                                    reveal(crate::vm_model::pp_step);
                                    assert(res matches Err(m) && m == "stack depth too large"@);
                                }
                                Err(String::from_str("stack depth too large"))
                            },
                            Some(d2) => {
                                *depth = d2;
                                ops.push(CalxInstr::CallImport(name.clone()));
                                proof {
                                    reveal(crate::vm_model::pp_step);
                                    assert(res matches Ok(st2) && *depth as int == st2.depth && bs@
                                        == st2.blocks && ops@ == st2.ops);
                                }
                                Ok(())
                            },
                        }
                    },
                }
            },
            CalxSyntax::Return => {
                let rs = rets.len();
                if *depth < rs {
                    proof {
                        reveal(crate::vm_model::pp_step);
                        assert(res matches Err(m) && m == "insufficient stack to return"@);
                    }
                    return Err(String::from_str("insufficient stack to return"));
                }
                if *depth - rs != 0 {
                    proof {
                        reveal(crate::vm_model::pp_step);
                        assert(res matches Err(m) && m == "invalid return size"@);
                    }
                    return Err(String::from_str("invalid return size"));
                }
                *depth = 0;
                ops.push(CalxInstr::Return);
                proof {
                    reveal(crate::vm_model::pp_step);
                    assert(res matches Ok(st2) && *depth as int == st2.depth && bs@ == st2.blocks
                        && ops@ == st2.ops);
                }
                Ok(())
            },
            CalxSyntax::If { ret_types, else_at, to } => {
                if !(*else_at < *to && *to <= limit) {
                    proof {
                        reveal(crate::vm_model::pp_step);
                        assert(res matches Err(m) && m == "if target out of range"@);
                    }
                    return Err(String::from_str("if target out of range"));
                }
                if *depth < 1 {
                    proof {
                        reveal(crate::vm_model::pp_step);
                        assert(res matches Err(m) && m == "insufficient stack to branch"@);
                    }
                    return Err(String::from_str("insufficient stack to branch"));
                }
                bs.push(
                    BlockData::If {
                        ret_types: rc_dup(ret_types),
                        else_to: *else_at,
                        to: *to,
                        initial_stack_size: *depth,
                    },
                );
                *depth = *depth - 1;
                ops.push(CalxInstr::JmpIf(*else_at));
                proof {
                    reveal(crate::vm_model::pp_step);
                    assert(res matches Ok(st2) && *depth as int == st2.depth && bs@ == st2.blocks
                        && ops@ == st2.ops);
                }
                Ok(())
            },
            CalxSyntax::ElseEnd => {
                if bs.is_empty() {
                    proof {
                        reveal(crate::vm_model::pp_step);
                        assert(res matches Err(m) && m == "no block found on stack"@);
                    }
                    return Err(String::from_str("no block found on stack"));
                }
                match bs.peek_if() {
                    Err(_) => {
                        proof {
                            reveal(crate::vm_model::pp_step);
                            assert(res matches Err(m) && m == "expected an if region"@);
                        }
                        Err(String::from_str("expected an if region"))
                    },
                    Ok(b) => {
                        match b {
                            BlockData::If { to, initial_stack_size, .. } => {
                                if *initial_stack_size < 1 {
                                    proof {
                                        reveal(crate::vm_model::pp_step);
                                        assert(res matches Err(m) && m == "invalid if region"@);
                                    }
                                    return Err(String::from_str("invalid if region"));
                                }
                                if !block_finish_matches(b, *depth) {
                                    proof {
                                        reveal(crate::vm_model::pp_step);
                                        assert(res matches Err(m) && m
                                            == "size mismatch for an else end"@);
                                    }
                                    return Err(
                                        String::from_str("size mismatch for an else end"),
                                    );
                                }
                                *depth = *initial_stack_size - 1;
                                ops.push(CalxInstr::Jmp(*to));
                            },
                            _ => {
                                proof {
                                    assert(false);
                                }
                                return Err(String::from_str("expected an if region"));
                            },
                        }
                        proof {
                            reveal(crate::vm_model::pp_step);
                            assert(res matches Ok(st2) && *depth as int == st2.depth && bs@
                                == st2.blocks && ops@ == st2.ops);
                        }
                        Ok(())
                    },
                }
            },
            CalxSyntax::ThenEnd => {
                if bs.is_empty() {
                    proof {
                        reveal(crate::vm_model::pp_step);
                        assert(res matches Err(m) && m == "no block found on stack"@);
                    }
                    return Err(String::from_str("no block found on stack"));
                }
                match bs.pop_if() {
                    Err(_) => {
                        proof {
                            reveal(crate::vm_model::pp_step);
                            assert(res matches Err(m) && m == "expected an if region"@);
                        }
                        Err(String::from_str("expected an if region"))
                    },
                    Ok(b) => {
                        if !block_finish_matches(&b, *depth) {
                            proof {
                                reveal(crate::vm_model::pp_step);
                                assert(res matches Err(m) && m == "size mismatch for a then end"@);
                            }
                            return Err(String::from_str("size mismatch for a then end"));
                        }
                        match &b {
                            BlockData::If { to, .. } => {
                                ops.push(CalxInstr::Jmp(*to));
                            },
                            _ => {
                                proof {
                                    assert(false);
                                }
                                return Err(String::from_str("expected an if region"));
                            },
                        }
                        proof {
                            reveal(crate::vm_model::pp_step);
                            assert(res matches Ok(st2) && *depth as int == st2.depth && bs@
                                == st2.blocks && ops@ == st2.ops);
                        }
                        Ok(())
                    },
                }
            },
            _ => {
                match CalxInstr::from_syntax(syn) {
                    Err(e) => {
                        proof {
                            reveal(crate::vm_model::pp_step);
                            assert(res matches Err(m) && m == "do is handled by the preprocessor"@);
                        }
                        Err(String::from_str("do is handled by the preprocessor"))
                    },
                    Ok(instr) => {
                        let a = instr.stack_arity();
                        if *depth < a.0 {
                            proof {
                                reveal(crate::vm_model::pp_step);
                                assert(res matches Err(m) && m
                                    == "insufficient stack for the instruction"@);
                            }
                            return Err(String::from_str("insufficient stack for the instruction"));
                        }
                        match (*depth - a.0).checked_add(a.1) {
                            None => {
                                proof {
                                    reveal(crate::vm_model::pp_step);
                                    assert(res matches Err(m) && m == "stack depth too large"@);
                                }
                                Err(String::from_str("stack depth too large"))
                            },
                            Some(d2) => {
                                *depth = d2;
                                ops.push(instr);
                                proof {
                                    reveal(crate::vm_model::pp_step);
                                    assert(res matches Ok(st2) && *depth as int == st2.depth && bs@
                                        == st2.blocks && ops@ == st2.ops);
                                }
                                Ok(())
                            },
                        }
                    },
                }
            },
        }
    }
}

impl<F: Fn(Vec<Calx>) -> Result<Calx, CalxError>, H: FloatHost> CalxVM<F, H> {
    /// Preprocesses one function: runs the arity checks over its whole
    /// surface syntax and produces its flat instruction stream.
    fn compile_func(&self, fi: usize, verbose: bool) -> (r: Result<Vec<CalxInstr>, String>)
        requires
            fi < self.funcs@.len(),
        ensures
            match pp_run(
                funcs_model(self.funcs@),
                imports_model(self.imports@),
                funcs_model(self.funcs@)[fi as int],
            ) {
                Ok(o) => r matches Ok(v) && v@ == o,
                Err(m) => r matches Err(e) && e@ == m,
            },
    {
        let ghost fm = funcs_model(self.funcs@);
        let ghost im = imports_model(self.imports@);
        let ghost target = fm[fi as int];
        proof {
            assert(target == func_model(self.funcs@[fi as int]));
        }
        if verbose {
            emit_line(self.funcs[fi].name.as_str());
        }
        let syn_rc = rc_dup(&self.funcs[fi].syntax);
        let syns: &Vec<CalxSyntax> = &*syn_rc;
        let rets_rc = rc_dup(&self.funcs[fi].ret_types);
        let rets: &Vec<CalxType> = &*rets_rc;
        let n = syns.len();
        let mut depth: usize = 0;
        let mut bs = BlockStack::new();
        let mut ops: Vec<CalxInstr> = Vec::new();
        let ghost init = PPState {
            depth: 0,
            blocks: Seq::<BlockData>::empty(),
            ops: Seq::<CalxInstr>::empty(),
        };
        proof {
            assert(bs@ =~= init.blocks);
            assert(ops@ =~= init.ops);
        }
        let mut j: usize = 0;
        while j < n
            invariant
                0 <= j <= n,
                n == syns@.len(),
                syns@ == target.syntax,
                rets@ == target.rets,
                fm == funcs_model(self.funcs@),
                im == imports_model(self.imports@),
                fi < self.funcs@.len(),
                target == fm[fi as int],
                init == (PPState {
                    depth: 0,
                    blocks: Seq::<BlockData>::empty(),
                    ops: Seq::<CalxInstr>::empty(),
                }),
                pp_fold(fm, im, target.rets, n as int, target.syntax, 0, init) == pp_fold(
                    fm,
                    im,
                    target.rets,
                    n as int,
                    target.syntax,
                    j as int,
                    PPState { depth: depth as int, blocks: bs@, ops: ops@ },
                ),
            decreases n - j,
        {
            match self.pp_item(&syns[j], rets, n, &mut depth, &mut bs, &mut ops) {
                Err(e) => {
                    return Err(e);
                },
                Ok(()) => {},
            }
            j += 1;
        }
        if depth != 0 && depth != rets.len() {
            let mut m = String::from_str("invalid final stack size ");
            crate::text::push_u64_digits(&mut m, depth as u64);
            return Err(m);
        }
        Ok(ops)
    }

    /// Preprocesses every function: validates stack arity and resolves
    /// structured control flow and call names into flat instructions.
    /// Succeeds exactly when every function passes its checks; only then
    /// are the compiled streams installed.
    #[verifier::loop_isolation(false)]
    #[verifier::rlimit(100)]
    #[verifier::spinoff_prover]
    pub fn preprocess(&mut self, verbose: bool) -> (r: Result<(), String>)
        requires
            old(self).wf(),
        ensures
            final(self).wf(),
            final(self).stack == old(self).stack,
            final(self).globals == old(self).globals,
            final(self).frames == old(self).frames,
            final(self).top_frame == old(self).top_frame,
            final(self).imports == old(self).imports,
            final(self).finished == old(self).finished,
            final(self).return_value == old(self).return_value,
            final(self).quit_code == old(self).quit_code,
            r is Ok <==> (forall|k: int|
                0 <= k < old(self).funcs@.len() ==> #[trigger] pp_run(
                    funcs_model(old(self).funcs@),
                    imports_model(old(self).imports@),
                    funcs_model(old(self).funcs@)[k],
                ) is Ok),
            r is Ok ==> ({
                &&& final(self).funcs@.len() == old(self).funcs@.len()
                &&& forall|k: int|
                    0 <= k < old(self).funcs@.len() ==> ({
                        let nf = #[trigger] funcs_model(final(self).funcs@)[k];
                        let of = funcs_model(old(self).funcs@)[k];
                        &&& nf.name == of.name
                        &&& nf.params == of.params
                        &&& nf.rets == of.rets
                        &&& nf.syntax == of.syntax
                        &&& nf.instrs == pp_run(
                            funcs_model(old(self).funcs@),
                            imports_model(old(self).imports@),
                            of,
                        )->Ok_0
                    })
            }),
            r matches Err(e) ==> ({
                &&& final(self).funcs == old(self).funcs
                &&& exists|k: int|
                    #![trigger funcs_model(old(self).funcs@)[k]]
                    ({
                        let fm = funcs_model(old(self).funcs@);
                        let im = imports_model(old(self).imports@);
                        &&& 0 <= k < fm.len()
                        &&& (forall|j: int| 0 <= j < k ==> #[trigger] pp_run(fm, im, fm[j]) is Ok)
                        &&& (pp_run(fm, im, fm[k]) matches Err(m) && e@ == fm[k].name + ": "@ + m)
                    })
            }),
    {
        let ghost fm = funcs_model(self.funcs@);
        let ghost im = imports_model(self.imports@);
        let n = self.funcs.len();
        let mut compiled: Vec<Vec<CalxInstr>> = Vec::new();
        let mut i: usize = 0;
        while i < n
            invariant
                self.wf(),
                self.funcs == old(self).funcs,
                self.stack == old(self).stack,
                self.globals == old(self).globals,
                self.frames == old(self).frames,
                self.top_frame == old(self).top_frame,
                self.imports == old(self).imports,
                self.finished == old(self).finished,
                self.return_value == old(self).return_value,
                self.quit_code == old(self).quit_code,
                0 <= i <= n,
                n == self.funcs@.len(),
                fm == funcs_model(self.funcs@),
                im == imports_model(self.imports@),
                compiled@.len() == i,
                compiled_ok(fm, im, compiled@, 0, i as int),
            decreases n - i,
        {
            let ghost c0 = compiled@;
            match self.compile_func(i, verbose) {
                Err(e) => {
                    proof {
                        assert(fm[i as int] == func_model(self.funcs@[i as int]));
                        assert forall|j: int| 0 <= j < i implies #[trigger] pp_run(
                            fm,
                            im,
                            fm[j],
                        ) is Ok by {
                            assert((compiled@[j - 0])@ == (compiled@[j - 0])@);
                        }
                    }
                    let mut named = String::new();
                    named.append(self.funcs[i].name.as_str());
                    named.append(": ");
                    named.append(e.as_str());
                    return Err(named);
                },
                Ok(v) => {
                    let ghost gv = v@;
                    compiled.push(v);
                },
            }
            let ghost gi = i as int;
            i += 1;
            proof {
                assert(compiled_ok(fm, im, compiled@, 0, i as int)) by {
                    assert forall|k: int|
                        0 <= k < i implies #[trigger] pp_run(fm, im, fm[k]) is Ok && pp_run(
                        fm,
                        im,
                        fm[k],
                    )->Ok_0 == (compiled@[k - 0])@ by {
                        if k < gi {
                            assert(compiled@[k] == c0[k - 0]);
                            assert(pp_run(fm, im, fm[k]) is Ok);
                            assert(pp_run(fm, im, fm[k])->Ok_0 == (c0[k - 0])@);
                        } else {
                            assert(k == gi);
                            assert(compiled@[k] == compiled@.last());
                            assert(pp_run(fm, im, fm[gi]) is Ok);
                        }
                    }
                }
            }
        }
        proof {
            assert forall|k: int| 0 <= k < n implies #[trigger] pp_run(fm, im, fm[k]) is Ok by {
                assert(pp_run(fm, im, fm[k])->Ok_0 == (compiled@[k - 0])@ || true);
                assert(compiled_ok(fm, im, compiled@, 0, n as int));
                assert((compiled@[k - 0])@ == (compiled@[k - 0])@);
            }
        }
        let mut newfuncs: Vec<CalxFunc> = Vec::new();
        let mut j: usize = 0;
        while j < n
            invariant
                self.wf(),
                self.funcs == old(self).funcs,
                self.stack == old(self).stack,
                self.globals == old(self).globals,
                self.frames == old(self).frames,
                self.top_frame == old(self).top_frame,
                self.imports == old(self).imports,
                self.finished == old(self).finished,
                self.return_value == old(self).return_value,
                self.quit_code == old(self).quit_code,
                0 <= j <= n,
                n == self.funcs@.len(),
                fm == funcs_model(self.funcs@),
                im == imports_model(self.imports@),
                compiled@.len() == n - j,
                compiled_ok(fm, im, compiled@, j as int, n as int),
                forall|k: int| 0 <= k < n ==> #[trigger] pp_run(fm, im, fm[k]) is Ok,
                newfuncs@.len() == j,
                forall|k: int|
                    0 <= k < j ==> ({
                        let nf = #[trigger] func_model(newfuncs@[k]);
                        let of = fm[k];
                        &&& nf.name == of.name
                        &&& nf.params == of.params
                        &&& nf.rets == of.rets
                        &&& nf.syntax == of.syntax
                        &&& nf.instrs == pp_run(fm, im, of)->Ok_0
                    }),
            decreases n - j,
        {
            let ghost c0 = compiled@;
            let ops = compiled.remove(0);
            let ghost gops = ops@;
            proof {
                assert(pp_run(fm, im, fm[j as int]) is Ok && pp_run(fm, im, fm[j as int])->Ok_0
                    == (c0[(j as int) - (j as int)])@);
                assert(gops == (c0[0])@);
                assert(compiled_ok(fm, im, compiled@, (j as int) + 1, n as int)) by {
                    assert forall|k: int|
                        (j as int) + 1 <= k < n implies #[trigger] pp_run(fm, im, fm[k]) is Ok
                        && pp_run(fm, im, fm[k])->Ok_0 == (compiled@[k - ((j as int) + 1)])@ by {
                        assert(compiled@[k - ((j as int) + 1)] == c0[k - (j as int)]);
                    }
                }
            }
            let nf = CalxFunc {
                name: rc_dup(&self.funcs[j].name),
                params_types: rc_dup(&self.funcs[j].params_types),
                ret_types: rc_dup(&self.funcs[j].ret_types),
                syntax: rc_dup(&self.funcs[j].syntax),
                instrs: Rc::new(ops),
                local_names: rc_dup(&self.funcs[j].local_names),
            };
            let ghost c1 = newfuncs@;
            newfuncs.push(nf);
            proof {
                assert(fm[j as int] == func_model(self.funcs@[j as int]));
                assert forall|k: int|
                    0 <= k < j + 1 implies ({
                        let nfm = #[trigger] func_model(newfuncs@[k]);
                        let of = fm[k];
                        &&& nfm.name == of.name
                        &&& nfm.params == of.params
                        &&& nfm.rets == of.rets
                        &&& nfm.syntax == of.syntax
                        &&& nfm.instrs == pp_run(fm, im, of)->Ok_0
                    }) by {
                    if k < j {
                        assert(newfuncs@[k] == c1[k]);
                    }
                }
            }
            j += 1;
        }
        self.funcs = newfuncs;
        proof {
            assert(funcs_model(self.funcs@).len() == fm.len());
            assert forall|k: int|
                0 <= k < n implies #[trigger] funcs_model(self.funcs@)[k] == func_model(
                self.funcs@[k],
            ) by {}
        }
        Ok(())
    }
}

} // verus!
