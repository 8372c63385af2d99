//! The function assembler: from a tree of leaves and lists to a function
//! record with its name, signature, local-name table and ordered surface
//! syntax.
use vstd::prelude::*;
use vstd::string::*;
use std::rc::Rc;

use crate::calx::{type_of_name, CalxType};
use crate::host::FloatHost;
use crate::locals::{first_name_at, track_spec, LocalsCollector};
use crate::text::{
    check_usize_text, dec_digits, is_usize_text, parse_usize_text, str_eq, usize_text_value,
};
use crate::tree::extract_spec;
use crate::func::CalxFunc;
use crate::instr::CalxInstr;
use crate::syntax::CalxSyntax;
use crate::tree::{Cirru, CirruVal};

verus! {

/// Reads a nonnegative index from literal text; refused when the text is
/// not an index literal or the value does not fit in a machine word.
pub fn parse_usize(s: &str) -> (r: Result<usize, String>)
    ensures
        r matches Ok(v) ==> is_usize_text(s@) && usize_text_value(s@) == v as int,
        r is Ok <==> is_usize_text(s@) && usize_text_value(s@) <= usize::MAX,
{
    if !check_usize_text(s) {
        return Err(String::from_str("failed to parse"));
    }
    match parse_usize_text(s) {
        Ok(v) => Ok(v),
        Err(_) => Err(String::from_str("failed to parse")),
    }
}

/// The local index a position token denotes: a `$name` token is tracked
/// in the table of locals, anything else must be an index literal.
pub open spec fn local_idx_spec(x: CirruVal, locals: Seq<Seq<char>>) -> Result<
    (int, Seq<Seq<char>>),
    (),
> {
    match x {
        CirruVal::List(_) => Err(()),
        CirruVal::Leaf(s) => {
            if s.len() == 0 {
                Err(())
            } else if s[0] == '$' {
                Ok(track_spec(locals, s))
            } else if is_usize_text(s) && usize_text_value(s) <= usize::MAX {
                Ok((usize_text_value(s), locals))
            } else {
                Err(())
            }
        },
    }
}

/// Reads a local position: a `$name` gets its first-seen index from the
/// collector, a bare token must be an index literal.
fn parse_local_idx(x: &Cirru, collector: &mut LocalsCollector) -> (r: Result<usize, String>)
    ensures
        local_idx_spec(x@, old(collector)@) matches Ok(p) ==> ({
            &&& r matches Ok(v)
            &&& v as int == p.0
            &&& final(collector)@ == p.1
        }),
        local_idx_spec(x@, old(collector)@) is Err ==> r is Err && final(collector)@ == old(
            collector,
        )@,
{
    match x {
        Cirru::List(_) => Err(String::from_str("expected a token for a local position")),
        Cirru::Leaf(s) => {
            if s.as_str().is_empty() {
                return Err(String::from_str("invalid empty name"));
            }
            if s.as_str().get_char(0) == '$' {
                Ok(collector.track(s.as_str()))
            } else {
                parse_usize(s.as_str())
            }
        },
    }
}

/// Whether the node is a leaf holding exactly this word.
pub fn leaf_is(x: &Cirru, name: &str) -> (r: bool)
    ensures
        r == match x@ {
            CirruVal::Leaf(t) => t == name@,
            CirruVal::List(_) => false,
        },
{
    match x {
        Cirru::Leaf(s) => str_eq(s.as_str(), name),
        Cirru::List(_) => false,
    }
}

/// The assembler's running state while it reads a signature list.
#[verifier::ext_equal]
pub struct FnTypesSt {
    pub params: Seq<CalxType>,
    pub rets: Seq<CalxType>,
    pub ret_mode: bool,
    pub locals: Seq<Seq<char>>,
}

/// The auto-assigned name of an anonymous parameter: `$` and its index.
pub open spec fn dollar_name(n: nat) -> Seq<char> {
    seq!['$'] + dec_digits(n)
}

/// One signature token: `->` switches to return types; a bare type name
/// adds a parameter (auto-named) or a return type; a `(name type)` pair
/// adds a named parameter. A parameter whose name was already taken is
/// refused, so the local-name table always starts with one name per
/// parameter.
pub open spec fn fn_types_step(st: FnTypesSt, x: CirruVal) -> Result<FnTypesSt, ()> {
    match x {
        CirruVal::Leaf(t) => {
            if t == "->"@ {
                Ok(FnTypesSt { params: st.params, rets: st.rets, ret_mode: true, locals: st.locals })
            } else {
                match type_of_name(t) {
                    None => Err(()),
                    Some(ty) => {
                        if st.ret_mode {
                            Ok(
                                FnTypesSt {
                                    params: st.params,
                                    rets: st.rets.push(ty),
                                    ret_mode: st.ret_mode,
                                    locals: st.locals,
                                },
                            )
                        } else {
                            match first_name_at(st.locals, dollar_name(st.params.len()), 0) {
                                Some(_) => Err(()),
                                None => Ok(
                                    FnTypesSt {
                                        params: st.params.push(ty),
                                        rets: st.rets,
                                        ret_mode: st.ret_mode,
                                        locals: st.locals.push(dollar_name(st.params.len())),
                                    },
                                ),
                            }
                        }
                    },
                }
            }
        },
        CirruVal::List(zs) => {
            if st.ret_mode {
                Err(())
            } else if zs.len() != 2 {
                Err(())
            } else {
                match zs[0] {
                    CirruVal::List(_) => Err(()),
                    CirruVal::Leaf(nm) => match zs[1] {
                        CirruVal::List(_) => Err(()),
                        CirruVal::Leaf(tn) => match type_of_name(tn) {
                            None => Err(()),
                            Some(ty) => match first_name_at(st.locals, nm, 0) {
                                Some(_) => Err(()),
                                None => Ok(
                                    FnTypesSt {
                                        params: st.params.push(ty),
                                        rets: st.rets,
                                        ret_mode: st.ret_mode,
                                        locals: st.locals.push(nm),
                                    },
                                ),
                            },
                        },
                    },
                }
            }
        },
    }
}

/// Every accepted signature records exactly one local name per parameter:
/// the gap between the table and the parameters never shrinks.
proof fn lemma_fn_types_fold_balance(xs: Seq<CirruVal>, i: int, st: FnTypesSt)
    ensures
        fn_types_fold(xs, i, st) matches Ok(st2) ==> st2.locals.len() - st2.params.len()
            >= st.locals.len() - st.params.len(),
    decreases xs.len() - i,
{
    if 0 <= i < xs.len() {
        match fn_types_step(st, xs[i]) {
            Err(()) => {},
            Ok(st2) => {
                lemma_fn_types_fold_balance(xs, i + 1, st2);
            },
        }
    }
}

/// The signature tokens read in order, from position `i` on.
pub open spec fn fn_types_fold(xs: Seq<CirruVal>, i: int, st: FnTypesSt) -> Result<FnTypesSt, ()>
    decreases xs.len() - i,
{
    if !(0 <= i < xs.len()) {
        Ok(st)
    } else {
        match fn_types_step(st, xs[i]) {
            Err(()) => Err(()),
            Ok(st2) => fn_types_fold(xs, i + 1, st2),
        }
    }
}

/// Reads a function signature list `(T* -> T*)`: parameters may be bare
/// type names or `(name type)` pairs and are recorded in the collector;
/// after `->` only bare type names are allowed.
pub fn parse_fn_types(xs: &Cirru, collector: &mut LocalsCollector) -> (r: Result<
    (Vec<CalxType>, Vec<CalxType>),
    String,
>)
    ensures
        xs@ matches CirruVal::Leaf(_) ==> r is Err && final(collector)@ == old(collector)@,
        xs@ matches CirruVal::List(ys) ==> ({
            let init = FnTypesSt {
                params: Seq::empty(),
                rets: Seq::empty(),
                ret_mode: false,
                locals: old(collector)@,
            };
            match fn_types_fold(ys, 0, init) {
                Ok(st) => ({
                    &&& r matches Ok(pr)
                    &&& pr.0@ == st.params
                    &&& pr.1@ == st.rets
                    &&& final(collector)@ == st.locals
                }),
                Err(()) => r is Err,
            }
        }),
{
    proof {
        reveal_strlit("$");
    }
    match xs {
        Cirru::Leaf(_) => Err(String::from_str("expected a list of types")),
        Cirru::List(ys) => {
            let ysv: &Vec<Cirru> = &**ys;
            let n = ysv.len();
            let ghost gys = crate::tree::view_seq(ysv@);
            proof {
                crate::tree::lemma_view_seq(ysv@);
                assert(xs@ == CirruVal::List(gys));
            }
            let ghost init = FnTypesSt {
                params: Seq::empty(),
                rets: Seq::empty(),
                ret_mode: false,
                locals: old(collector)@,
            };
            let mut params: Vec<CalxType> = Vec::new();
            let mut rets_out: Vec<CalxType> = Vec::new();
            let mut ret_mode = false;
            let mut i: usize = 0;
            while i < n
                invariant
                    0 <= i <= n,
                    n == ysv@.len(),
                    gys == crate::tree::view_seq(ysv@),
                    gys.len() == n,
                    xs@ == CirruVal::List(gys),
                    forall|j: int| 0 <= j < n ==> gys[j] == crate::tree::cirru_view(ysv@[j]),
                    init == (FnTypesSt {
                        params: Seq::<CalxType>::empty(),
                        rets: Seq::<CalxType>::empty(),
                        ret_mode: false,
                        locals: old(collector)@,
                    }),
                    fn_types_fold(gys, 0, init) == fn_types_fold(
                        gys,
                        i as int,
                        FnTypesSt {
                            params: params@,
                            rets: rets_out@,
                            ret_mode: ret_mode,
                            locals: collector@,
                        },
                    ),
                decreases n - i,
            {
                let ghost st = FnTypesSt {
                    params: params@,
                    rets: rets_out@,
                    ret_mode: ret_mode,
                    locals: collector@,
                };
                let x = &ysv[i];
                match x {
                    Cirru::Leaf(t) => {
                        if str_eq(t.as_str(), "->") {
                            ret_mode = true;
                        } else {
                            match crate::calx::CalxType::from_str(t.as_str()) {
                                Err(e) => {
                                    return Err(e);
                                },
                                Ok(ty) => {
                                    if ret_mode {
                                        rets_out.push(ty);
                                    } else {
                                        let mut auto = String::from_str("$");
                                        crate::text::push_u64_digits(
                                            &mut auto,
                                            params.len() as u64,
                                        );
                                        proof {
                                            reveal_strlit("$");
                                            assert(auto@ =~= dollar_name(params@.len()));
                                            crate::locals::lemma_first_name_at_bounds(
                                                collector@,
                                                auto@,
                                                0,
                                            );
                                        }
                                        let before = collector.locals.len();
                                        let got = collector.track(auto.as_str());
                                        if got != before {
                                            return Err(
                                                String::from_str("duplicate parameter name"),
                                            );
                                        }
                                        params.push(ty);
                                    }
                                },
                            }
                        }
                    },
                    Cirru::List(zs) => {
                        let zsv: &Vec<Cirru> = &**zs;
                        proof {
                            crate::tree::lemma_view_seq(zsv@);
                        }
                        if ret_mode {
                            return Err(
                                String::from_str("return values should not have names"),
                            );
                        }
                        if zsv.len() != 2 {
                            return Err(String::from_str("expected a name and a type"));
                        }
                        match (&zsv[0], &zsv[1]) {
                            (Cirru::Leaf(nm), Cirru::Leaf(tn)) => {
                                match crate::calx::CalxType::from_str(tn.as_str()) {
                                    Err(e) => {
                                        return Err(e);
                                    },
                                    Ok(ty) => {
                                        let before = collector.locals.len();
                                        proof {
                                            crate::locals::lemma_first_name_at_bounds(
                                                collector@,
                                                nm@,
                                                0,
                                            );
                                        }
                                        let got = collector.track(nm.as_str());
                                        if got != before {
                                            return Err(
                                                String::from_str("duplicate parameter name"),
                                            );
                                        }
                                        params.push(ty);
                                    },
                                }
                            },
                            _ => {
                                return Err(String::from_str("expected a name and a type"));
                            },
                        }
                    },
                }
                i += 1;
            }
            Ok((params, rets_out))
        },
    }
}

/// One block-signature token: `->` switches to return types, a type name
/// is added on the active side, list tokens are passed over.
pub open spec fn block_types_step(st: (Seq<CalxType>, Seq<CalxType>, bool), x: CirruVal) -> Result<
    (Seq<CalxType>, Seq<CalxType>, bool),
    (),
> {
    match x {
        CirruVal::Leaf(t) => {
            if t == "->"@ {
                Ok((st.0, st.1, true))
            } else {
                match type_of_name(t) {
                    None => Err(()),
                    Some(ty) => if st.2 {
                        Ok((st.0, st.1.push(ty), st.2))
                    } else {
                        Ok((st.0.push(ty), st.1, st.2))
                    },
                }
            }
        },
        CirruVal::List(_) => Ok(st),
    }
}

/// The block-signature tokens read in order, from position `i` on.
pub open spec fn block_types_fold(xs: Seq<CirruVal>, i: int, st: (Seq<CalxType>, Seq<CalxType>, bool)) -> Result<
    (Seq<CalxType>, Seq<CalxType>, bool),
    (),
>
    decreases xs.len() - i,
{
    if !(0 <= i < xs.len()) {
        Ok(st)
    } else {
        match block_types_step(st, xs[i]) {
            Err(()) => Err(()),
            Ok(st2) => block_types_fold(xs, i + 1, st2),
        }
    }
}

/// The parameter and return types a block signature list denotes, if it
/// is well formed.
pub open spec fn block_types_spec(x: CirruVal) -> Result<(Seq<CalxType>, Seq<CalxType>), ()> {
    match x {
        CirruVal::Leaf(_) => Err(()),
        CirruVal::List(ys) => match block_types_fold(
            ys,
            0,
            (Seq::empty(), Seq::empty(), false),
        ) {
            Ok(st) => Ok((st.0, st.1)),
            Err(()) => Err(()),
        },
    }
}

/// Reads a block signature list `(T* -> T*)`: no names are needed inside
/// a block, and non-leaf tokens are passed over.
pub fn parse_block_types(xs: &Cirru) -> (r: Result<(Vec<CalxType>, Vec<CalxType>), String>)
    ensures
        block_types_spec(xs@) matches Ok(st) ==> ({
            &&& r matches Ok(pr)
            &&& pr.0@ == st.0
            &&& pr.1@ == st.1
        }),
        block_types_spec(xs@) is Err ==> r is Err,
{
    match xs {
        Cirru::Leaf(_) => Err(String::from_str("expected a list of types")),
        Cirru::List(ys) => {
            let ysv: &Vec<Cirru> = &**ys;
            let n = ysv.len();
            let ghost gys = crate::tree::view_seq(ysv@);
            proof {
                crate::tree::lemma_view_seq(ysv@);
            }
            let mut params: Vec<CalxType> = Vec::new();
            let mut rets_out: Vec<CalxType> = Vec::new();
            let mut ret_mode = false;
            let mut i: usize = 0;
            while i < n
                invariant
                    0 <= i <= n,
                    n == ysv@.len(),
                    gys == crate::tree::view_seq(ysv@),
                    gys.len() == n,
                    xs@ == CirruVal::List(gys),
                    forall|j: int| 0 <= j < n ==> gys[j] == crate::tree::cirru_view(ysv@[j]),
                    block_types_fold(gys, 0, (Seq::empty(), Seq::empty(), false))
                        == block_types_fold(gys, i as int, (params@, rets_out@, ret_mode)),
                decreases n - i,
            {
                let x = &ysv[i];
                match x {
                    Cirru::Leaf(t) => {
                        if str_eq(t.as_str(), "->") {
                            ret_mode = true;
                        } else {
                            match crate::calx::CalxType::from_str(t.as_str()) {
                                Err(e) => {
                                    return Err(e);
                                },
                                Ok(ty) => {
                                    if ret_mode {
                                        rets_out.push(ty);
                                    } else {
                                        params.push(ty);
                                    }
                                },
                            }
                        }
                    },
                    Cirru::List(_) => {},
                }
                i += 1;
            }
            Ok((params, rets_out))
        },
    }
}

/// The surface instructions that take no argument, by keyword; extra
/// tokens after such a keyword are passed over.
pub open spec fn simple_syntax_of(h: Seq<char>) -> Option<CalxSyntax> {
    if h == "local.new"@ {
        Some(CalxSyntax::LocalNew)
    } else if h == "global.new"@ {
        Some(CalxSyntax::GlobalNew)
    } else if h == "dup"@ {
        Some(CalxSyntax::Dup)
    } else if h == "drop"@ {
        Some(CalxSyntax::Drop)
    } else if h == "i.add"@ {
        Some(CalxSyntax::IntAdd)
    } else if h == "i.mul"@ {
        Some(CalxSyntax::IntMul)
    } else if h == "i.div"@ {
        Some(CalxSyntax::IntDiv)
    } else if h == "i.neg"@ {
        Some(CalxSyntax::IntNeg)
    } else if h == "i.rem"@ {
        Some(CalxSyntax::IntRem)
    } else if h == "i.shr"@ {
        Some(CalxSyntax::IntShr)
    } else if h == "i.shl"@ {
        Some(CalxSyntax::IntShl)
    } else if h == "i.eq"@ {
        Some(CalxSyntax::IntEq)
    } else if h == "i.ne"@ {
        Some(CalxSyntax::IntNe)
    } else if h == "i.lt"@ {
        Some(CalxSyntax::IntLt)
    } else if h == "i.le"@ {
        Some(CalxSyntax::IntLe)
    } else if h == "i.gt"@ {
        Some(CalxSyntax::IntGt)
    } else if h == "i.ge"@ {
        Some(CalxSyntax::IntGe)
    } else if h == "add"@ {
        Some(CalxSyntax::Add)
    } else if h == "mul"@ {
        Some(CalxSyntax::Mul)
    } else if h == "div"@ {
        Some(CalxSyntax::Div)
    } else if h == "neg"@ {
        Some(CalxSyntax::Neg)
    } else if h == "new-list"@ {
        Some(CalxSyntax::NewList)
    } else if h == "list.get"@ {
        Some(CalxSyntax::ListGet)
    } else if h == "list.set"@ {
        Some(CalxSyntax::ListSet)
    } else if h == "new-link"@ {
        Some(CalxSyntax::NewLink)
    } else if h == "and"@ {
        Some(CalxSyntax::And)
    } else if h == "or"@ {
        Some(CalxSyntax::Or)
    } else if h == "echo"@ {
        Some(CalxSyntax::Echo)
    } else if h == "unreachable"@ {
        Some(CalxSyntax::Unreachable)
    } else if h == "nop"@ {
        Some(CalxSyntax::Nop)
    } else if h == "return"@ {
        Some(CalxSyntax::Return)
    } else if h == "inspect"@ {
        Some(CalxSyntax::Inspect)
    } else {
        None
    }
}

/// The surface instruction a keyword with one index argument denotes.
pub open spec fn idx_syntax_of(h: Seq<char>, n: usize) -> CalxSyntax {
    if h == "global.get"@ {
        CalxSyntax::GlobalGet(n)
    } else if h == "global.set"@ {
        CalxSyntax::GlobalSet(n)
    } else if h == "br"@ {
        CalxSyntax::Br(n)
    } else if h == "br-if"@ {
        CalxSyntax::BrIf(n)
    } else {
        CalxSyntax::Quit(n)
    }
}

/// The surface instruction a keyword with one local-position argument
/// denotes.
pub open spec fn local_syntax_of(h: Seq<char>, n: usize) -> CalxSyntax {
    if h == "local.get"@ {
        CalxSyntax::LocalGet(n)
    } else if h == "local.set"@ {
        CalxSyntax::LocalSet(n)
    } else {
        CalxSyntax::LocalTee(n)
    }
}

/// Whether the syntax item is the one a keyword with one name argument
/// denotes, carrying this name.
pub open spec fn name_syntax_denotes(h: Seq<char>, sy: CalxSyntax, t: Seq<char>) -> bool {
    if h == "call"@ {
        sy matches CalxSyntax::Call(nm) && nm@ == t
    } else if h == "return-call"@ {
        sy matches CalxSyntax::ReturnCall(nm) && nm@ == t
    } else if h == "call-import"@ {
        sy matches CalxSyntax::CallImport(nm) && nm@ == t
    } else {
        sy matches CalxSyntax::Assert(nm) && nm@ == t
    }
}

/// The shape of what `block` and `loop` forms produce: the region record
/// in front, carrying the declared types and the absolute span, and the
/// end marker last.
pub open spec fn block_shape_post(
    ptr_base: int,
    ys: Seq<CirruVal>,
    looped: bool,
    r: Result<Vec<CalxSyntax>, String>,
) -> bool {
    if ys.len() < 2 {
        r is Err
    } else {
        match block_types_spec(ys[1]) {
            Err(()) => r is Err,
            Ok(tp) => match r {
                Err(_) => true,
                Ok(v) => ({
                    &&& v@.len() >= 2
                    &&& (v@[0] matches CalxSyntax::Block {
                        looped: l2,
                        params_types: pt,
                        ret_types: rt,
                        from,
                        to,
                    } && l2 == looped && pt@ == tp.0 && rt@ == tp.1 && from == ptr_base + 1 && to
                        == ptr_base + v@.len() - 1)
                    &&& v@.last() == CalxSyntax::BlockEnd(looped)
                }),
            },
        }
    }
}

/// The shape of what an `if` form produces: the conditional record in
/// front, the else branch before the then branch, one `ElseEnd` between
/// them that `else_at` points just past, and `ThenEnd` last, `to`
/// pointing past the whole form.
pub open spec fn if_shape_post(
    ptr_base: int,
    ys: Seq<CirruVal>,
    r: Result<Vec<CalxSyntax>, String>,
) -> bool {
    if ys.len() != 3 && ys.len() != 4 {
        r is Err
    } else {
        match block_types_spec(ys[1]) {
            Err(()) => r is Err,
            Ok(tp) => match r {
                Err(_) => true,
                Ok(v) => ({
                    &&& v@.len() >= 3
                    &&& v@.last() == CalxSyntax::ThenEnd
                    &&& exists|m: int|
                        1 <= m < v@.len() - 1 && #[trigger] v@[m] == CalxSyntax::ElseEnd && (
                        v@[0] matches CalxSyntax::If { ret_types: rt, else_at, to } && rt@ == tp.1
                            && else_at == ptr_base + m + 1 && to == ptr_base + v@.len())
                }),
            },
        }
    }
}

/// What one surface expression parses to: the exact instruction for every
/// plain form, the produced layout for the structured forms, and how the
/// table of locals moves.
pub open spec fn parse_instr_post(
    ptr_base: int,
    x: CirruVal,
    loc0: Seq<Seq<char>>,
    r: Result<Vec<CalxSyntax>, String>,
    loc1: Seq<Seq<char>>,
) -> bool {
    match x {
        CirruVal::Leaf(_) => r is Err && loc1 == loc0,
        CirruVal::List(ys) => {
            if ys.len() == 0 {
                r is Err && loc1 == loc0
            } else {
                match ys[0] {
                    CirruVal::List(_) => r is Err && loc1 == loc0,
                    CirruVal::Leaf(h) => {
                        if h == ";;"@ {
                            &&& r matches Ok(v)
                            &&& v@ == Seq::<CalxSyntax>::empty()
                            &&& loc1 == loc0
                        } else if simple_syntax_of(h) is Some {
                            &&& r matches Ok(v)
                            &&& v@ == seq![simple_syntax_of(h)->Some_0]
                            &&& loc1 == loc0
                        } else if h == "local.get"@ || h == "local.set"@ || h == "local.tee"@ {
                            if ys.len() != 2 {
                                r is Err && loc1 == loc0
                            } else {
                                match local_idx_spec(ys[1], loc0) {
                                    Err(()) => r is Err && loc1 == loc0,
                                    Ok(p) => ({
                                        &&& loc1 == p.1
                                        &&& r matches Ok(v)
                                        &&& v@ == seq![local_syntax_of(h, p.0 as usize)]
                                    }),
                                }
                            }
                        } else if h == "global.get"@ || h == "global.set"@ || h == "br"@ || h
                            == "br-if"@ || h == "quit"@ {
                            if ys.len() != 2 {
                                r is Err && loc1 == loc0
                            } else {
                                loc1 == loc0 && match ys[1] {
                                    CirruVal::List(_) => r is Err,
                                    CirruVal::Leaf(t) => {
                                        if is_usize_text(t) && usize_text_value(t) <= usize::MAX {
                                            &&& r matches Ok(v)
                                            &&& v@ == seq![
                                                idx_syntax_of(h, usize_text_value(t) as usize),
                                            ]
                                        } else {
                                            r is Err
                                        }
                                    },
                                }
                            }
                        } else if h == "const"@ {
                            if ys.len() != 2 {
                                r is Err && loc1 == loc0
                            } else {
                                loc1 == loc0 && match ys[1] {
                                    CirruVal::List(_) => r is Err,
                                    CirruVal::Leaf(t) => {
                                        if crate::calx::is_value_text(t) {
                                            &&& r matches Ok(v)
                                            &&& v@.len() == 1
                                            &&& (v@[0] matches CalxSyntax::Const(c)
                                                && crate::calx::value_text_denotes(t, c))
                                        } else {
                                            r is Err
                                        }
                                    },
                                }
                            }
                        } else if h == "call"@ || h == "return-call"@ || h == "call-import"@ || h
                            == "assert"@ {
                            if ys.len() != 2 {
                                r is Err && loc1 == loc0
                            } else {
                                loc1 == loc0 && match ys[1] {
                                    CirruVal::List(_) => r is Err,
                                    CirruVal::Leaf(t) => ({
                                        &&& r matches Ok(v)
                                        &&& v@.len() == 1
                                        &&& name_syntax_denotes(h, v@[0], t)
                                    }),
                                }
                            }
                        } else if h == "block"@ || h == "loop"@ {
                            block_shape_post(ptr_base, ys, h == "loop"@, r)
                        } else if h == "if"@ {
                            if_shape_post(ptr_base, ys, r)
                        } else {
                            r is Err && loc1 == loc0
                        }
                    },
                }
            }
        },
    }
}

/// One node weighs at least one unit.
pub proof fn lemma_cv_size_pos(x: CirruVal)
    ensures
        crate::tree::cv_size(x) >= 1,
{
    match x {
        CirruVal::Leaf(_) => {},
        CirruVal::List(_) => {},
    }
}


/// Looks a keyword up among the no-argument instructions.
fn simple_syntax_exec(h: &str) -> (r: Option<CalxSyntax>)
    ensures
        r == simple_syntax_of(h@),
{
    if str_eq(h, "local.new") {
        Some(CalxSyntax::LocalNew)
    } else if str_eq(h, "global.new") {
        Some(CalxSyntax::GlobalNew)
    } else if str_eq(h, "dup") {
        Some(CalxSyntax::Dup)
    } else if str_eq(h, "drop") {
        Some(CalxSyntax::Drop)
    } else if str_eq(h, "i.add") {
        Some(CalxSyntax::IntAdd)
    } else if str_eq(h, "i.mul") {
        Some(CalxSyntax::IntMul)
    } else if str_eq(h, "i.div") {
        Some(CalxSyntax::IntDiv)
    } else if str_eq(h, "i.neg") {
        Some(CalxSyntax::IntNeg)
    } else if str_eq(h, "i.rem") {
        Some(CalxSyntax::IntRem)
    } else if str_eq(h, "i.shr") {
        Some(CalxSyntax::IntShr)
    } else if str_eq(h, "i.shl") {
        Some(CalxSyntax::IntShl)
    } else if str_eq(h, "i.eq") {
        Some(CalxSyntax::IntEq)
    } else if str_eq(h, "i.ne") {
        Some(CalxSyntax::IntNe)
    } else if str_eq(h, "i.lt") {
        Some(CalxSyntax::IntLt)
    } else if str_eq(h, "i.le") {
        Some(CalxSyntax::IntLe)
    } else if str_eq(h, "i.gt") {
        Some(CalxSyntax::IntGt)
    } else if str_eq(h, "i.ge") {
        Some(CalxSyntax::IntGe)
    } else if str_eq(h, "add") {
        Some(CalxSyntax::Add)
    } else if str_eq(h, "mul") {
        Some(CalxSyntax::Mul)
    } else if str_eq(h, "div") {
        Some(CalxSyntax::Div)
    } else if str_eq(h, "neg") {
        Some(CalxSyntax::Neg)
    } else if str_eq(h, "new-list") {
        Some(CalxSyntax::NewList)
    } else if str_eq(h, "list.get") {
        Some(CalxSyntax::ListGet)
    } else if str_eq(h, "list.set") {
        Some(CalxSyntax::ListSet)
    } else if str_eq(h, "new-link") {
        Some(CalxSyntax::NewLink)
    } else if str_eq(h, "and") {
        Some(CalxSyntax::And)
    } else if str_eq(h, "or") {
        Some(CalxSyntax::Or)
    } else if str_eq(h, "echo") {
        Some(CalxSyntax::Echo)
    } else if str_eq(h, "unreachable") {
        Some(CalxSyntax::Unreachable)
    } else if str_eq(h, "nop") {
        Some(CalxSyntax::Nop)
    } else if str_eq(h, "return") {
        Some(CalxSyntax::Return)
    } else if str_eq(h, "inspect") {
        Some(CalxSyntax::Inspect)
    } else {
        None
    }
}

/// Parses one flattened surface expression into surface instructions: a
/// list led by an instruction keyword, its arguments already lifted, or a
/// whole `block`, `loop` or `if` form.
pub fn parse_instr<H: FloatHost>(
    ptr_base: usize,
    node: &Cirru,
    collector: &mut LocalsCollector,
    fh: &H,
) -> (r: Result<Vec<CalxSyntax>, String>)
    ensures
        parse_instr_post(ptr_base as int, node@, old(collector)@, r, final(collector)@),
        old(collector)@.is_prefix_of(final(collector)@),
        (exists|d: nat| instr_parses(d, node@)) ==> (r is Ok || (r matches Err(e) && e@
            == "function too large"@)),
        r is Ok ==> exists|d: nat| instr_parses(d, node@),
    decreases crate::tree::cv_size(node@),
{
    match node {
        Cirru::Leaf(_) => {
            proof {
                assert(forall|d: nat| !instr_parses(d, node@));
            }
            Err(String::from_str("expected an expression, got a token"))
        },
        Cirru::List(ys) => {
            let ysv: &Vec<Cirru> = &**ys;
            let n = ysv.len();
            let ghost gys = crate::tree::view_seq(ysv@);
            proof {
                crate::tree::lemma_view_seq(ysv@);
                assert(node@ == CirruVal::List(gys));
            }
            if n == 0 {
                proof {
                    assert(forall|d: nat| !instr_parses(d, node@));
                }
                return Err(String::from_str("empty expression"));
            }
            match &ysv[0] {
                Cirru::List(_) => {
                    proof {
                        assert(forall|d: nat| !instr_parses(d, node@));
                    }
                    Err(String::from_str("expected an instruction name"))
                },
                Cirru::Leaf(head) => {
                    let h = head.as_str();
                    if str_eq(h, ";;") {
                        let out: Vec<CalxSyntax> = Vec::new();
                        proof {
                            assert(out@ =~= Seq::<CalxSyntax>::empty());
                            assert(instr_parses(0, node@));
                        }
                        return Ok(out);
                    }
                    match simple_syntax_exec(h) {
                        Some(sy) => {
                            let ghost gsy = sy;
                            let mut out: Vec<CalxSyntax> = Vec::new();
                            out.push(sy);
                            proof {
                                assert(out@ =~= seq![gsy]);
                                assert(instr_parses(0, node@));
                            }
                            return Ok(out);
                        },
                        None => {},
                    }
                    if str_eq(h, "local.get") || str_eq(h, "local.set") || str_eq(h, "local.tee") {
                        if n != 2 {
                            proof {
                                assert(forall|d: nat| !instr_parses(d, node@));
                            }
                            return Err(String::from_str("expected one local position"));
                        }
                        let idx = match parse_local_idx(&ysv[1], collector) {
                            Ok(v) => v,
                            Err(e) => {
                                proof {
                                    assert(!local_arg_ok(gys[1]));
                                    assert(forall|d: nat| !instr_parses(d, node@));
                                }
                                return Err(e);
                            },
                        };
                        let mut out: Vec<CalxSyntax> = Vec::new();
                        if str_eq(h, "local.get") {
                            out.push(CalxSyntax::LocalGet(idx));
                        } else if str_eq(h, "local.set") {
                            out.push(CalxSyntax::LocalSet(idx));
                        } else {
                            out.push(CalxSyntax::LocalTee(idx));
                        }
                        proof {
                            assert(out@ =~= seq![local_syntax_of(head@, idx)]);
                            assert(local_arg_ok(gys[1]));
                            assert(instr_parses(0, node@));
                        }
                        return Ok(out);
                    }
                    if str_eq(h, "global.get") || str_eq(h, "global.set") || str_eq(h, "br")
                        || str_eq(h, "br-if") || str_eq(h, "quit") {
                        if n != 2 {
                            proof {
                                assert(forall|d: nat| !instr_parses(d, node@));
                            }
                            return Err(String::from_str("expected one position"));
                        }
                        match &ysv[1] {
                            Cirru::List(_) => {
                                proof {
                                    assert(forall|d: nat| !instr_parses(d, node@));
                                }
                                return Err(String::from_str("expected a token"));
                            },
                            Cirru::Leaf(t) => {
                                let idx = match parse_usize(t.as_str()) {
                                    Ok(v) => v,
                                    Err(e) => {
                                        proof {
                                            assert(!idx_arg_ok(gys[1]));
                                            assert(forall|d: nat| !instr_parses(d, node@));
                                        }
                                        return Err(e);
                                    },
                                };
                                let mut out: Vec<CalxSyntax> = Vec::new();
                                if str_eq(h, "global.get") {
                                    out.push(CalxSyntax::GlobalGet(idx));
                                } else if str_eq(h, "global.set") {
                                    out.push(CalxSyntax::GlobalSet(idx));
                                } else if str_eq(h, "br") {
                                    out.push(CalxSyntax::Br(idx));
                                } else if str_eq(h, "br-if") {
                                    out.push(CalxSyntax::BrIf(idx));
                                } else {
                                    out.push(CalxSyntax::Quit(idx));
                                }
                                proof {
                                    assert(out@ =~= seq![idx_syntax_of(head@, idx)]);
                                    assert(idx_arg_ok(gys[1]));
                                    assert(instr_parses(0, node@));
                                }
                                return Ok(out);
                            },
                        }
                    }
                    if str_eq(h, "const") {
                        if n != 2 {
                            proof {
                                assert(forall|d: nat| !instr_parses(d, node@));
                            }
                            return Err(String::from_str("const takes exactly one argument"));
                        }
                        match &ysv[1] {
                            Cirru::List(_) => {
                                proof {
                                    assert(forall|d: nat| !instr_parses(d, node@));
                                }
                                return Err(String::from_str("const takes a token, not a list"));
                            },
                            Cirru::Leaf(t) => {
                                let v = match crate::calx::parse_value(t.as_str(), fh) {
                                    Ok(v) => v,
                                    Err(e) => {
                                        proof {
                                            assert(forall|d: nat| !instr_parses(d, node@));
                                        }
                                        return Err(e);
                                    },
                                };
                                let mut out: Vec<CalxSyntax> = Vec::new();
                                out.push(CalxSyntax::Const(v));
                                proof {
                                    assert(instr_parses(0, node@));
                                }
                                return Ok(out);
                            },
                        }
                    }
                    if str_eq(h, "call") || str_eq(h, "return-call") || str_eq(h, "call-import")
                        || str_eq(h, "assert") {
                        if n != 2 {
                            proof {
                                assert(forall|d: nat| !instr_parses(d, node@));
                            }
                            return Err(String::from_str("expected one name"));
                        }
                        match &ysv[1] {
                            Cirru::List(_) => {
                                proof {
                                    assert(forall|d: nat| !instr_parses(d, node@));
                                }
                                return Err(String::from_str("expected a name"));
                            },
                            Cirru::Leaf(t) => {
                                let nm = t.clone();
                                let mut out: Vec<CalxSyntax> = Vec::new();
                                if str_eq(h, "call") {
                                    out.push(CalxSyntax::Call(nm));
                                } else if str_eq(h, "return-call") {
                                    out.push(CalxSyntax::ReturnCall(nm));
                                } else if str_eq(h, "call-import") {
                                    out.push(CalxSyntax::CallImport(nm));
                                } else {
                                    out.push(CalxSyntax::Assert(nm));
                                }
                                proof {
                                    assert(instr_parses(0, node@));
                                }
                                return Ok(out);
                            },
                        }
                    }
                    if str_eq(h, "block") || str_eq(h, "loop") {
                        let looped = str_eq(h, "loop");
                        proof {
                            lemma_cv_size_pos(gys[0]);
                        }
                        let r = parse_block(ptr_base, ysv, looped, collector, fh);
                        proof {
                            if exists|d: nat| instr_parses(d, node@) {
                                let d0 = choose|d0: nat| instr_parses(d0, node@);
                                assert(block_parses(d0, gys));
                            }
                            if r is Ok {
                                let d1 = choose|d1: nat| block_parses(d1, gys);
                                assert(instr_parses(d1, node@));
                            }
                        }
                        return r;
                    }
                    if str_eq(h, "if") {
                        proof {
                            lemma_cv_size_pos(gys[0]);
                        }
                        let r = parse_if(ptr_base, ysv, collector, fh);
                        proof {
                            if exists|d: nat| instr_parses(d, node@) {
                                let d0 = choose|d0: nat| instr_parses(d0, node@);
                                assert(if_parses(d0, gys));
                            }
                            if r is Ok {
                                let d1 = choose|d1: nat| if_parses(d1, gys);
                                assert(instr_parses(d1, node@));
                            }
                        }
                        return r;
                    }
                    proof {
                        assert(forall|d: nat| !instr_parses(d, node@));
                    }
                    Err(String::from_str("unknown instruction"))
                },
            }
        },
    }
}

/// Parses a whole `block` or `loop` form: the children after the
/// signature are flattened and parsed as the body, a region record is
/// laid in front and an end marker behind, the span noted absolutely.
pub fn parse_block<H: FloatHost>(
    ptr_base: usize,
    xs: &Vec<Cirru>,
    looped: bool,
    collector: &mut LocalsCollector,
    fh: &H,
) -> (r: Result<Vec<CalxSyntax>, String>)
    ensures
        block_shape_post(ptr_base as int, crate::tree::view_seq(xs@), looped, r),
        old(collector)@.is_prefix_of(final(collector)@),
        (exists|d: nat| block_parses(d, crate::tree::view_seq(xs@))) ==> (r is Ok || (r
            matches Err(e) && e@ == "function too large"@)),
        r is Ok ==> exists|d: nat| block_parses(d, crate::tree::view_seq(xs@)),
        r matches Ok(v) ==> ({
            let ys = crate::tree::view_seq(xs@);
            lines_form(
                ptr_base + 1,
                ys,
                2,
                ys.len() as int,
                old(collector)@,
                v@.subrange(1, v@.len() - 1),
                final(collector)@,
            )
        }),
    decreases crate::tree::cv_list_size(crate::tree::view_seq(xs@), 0),
{
    let ghost gys = crate::tree::view_seq(xs@);
    proof {
        crate::tree::lemma_view_seq(xs@);
    }
    let n = xs.len();
    if n < 2 {
        proof {
            assert(forall|d: nat| !block_parses(d, gys));
        }
        return Err(String::from_str("block expects a signature"));
    }
    let (params, rets) = match parse_block_types(&xs[1]) {
        Ok(tp) => tp,
        Err(e) => {
            proof {
                assert(forall|d: nat| !block_parses(d, gys));
            }
            return Err(e);
        },
    };
    let from = match ptr_base.checked_add(1) {
        Some(v) => v,
        None => {
            return Err(String::from_str("function too large"));
        },
    };
    let mut p: usize = from;
    let mut chunk: Vec<CalxSyntax> = Vec::new();
    let mut idx: usize = 2;
    proof {
        assert(lines_parse_between(0, gys, 2, 2));
        assert(lines_form(ptr_base + 1, gys, 2, 2, old(collector)@, chunk@, collector@));
    }
    let ghost g_types_ok = block_types_spec(gys[1]) is Ok;
    while idx < n
        invariant
            2 <= idx <= n,
            n == xs@.len(),
            n >= 2,
            gys == crate::tree::view_seq(xs@),
            gys.len() == n,
            forall|j: int| 0 <= j < n ==> gys[j] == crate::tree::cirru_view(xs@[j]),
            ptr_base + 1 <= usize::MAX,
            p == ptr_base + 1 + chunk@.len(),
            old(collector)@.is_prefix_of(collector@),
            block_types_spec(gys[1]) is Ok,
            exists|dl: nat| #[trigger] lines_parse_between(dl, gys, 2, idx as int),
            lines_form(
                ptr_base + 1,
                gys,
                2,
                idx as int,
                old(collector)@,
                chunk@,
                collector@,
            ),
        decreases n - idx,
    {
        let line = &xs[idx];
        proof {
            crate::tree::lemma_cv_list_elem(gys, 1, idx as int);
            crate::tree::lemma_cv_list_mono(gys, 0, 1);
            lemma_cv_size_pos(gys[0]);
        }
        match crate::tree::extract_nested(line) {
            Err(e) => {
                proof {
                    assert forall|dd: nat| !block_parses(dd, gys) by {
                        reveal_with_fuel(block_parses, 5);
                        if block_parses(dd, gys) {
                            assert(lines_parse_between((dd - 1) as nat, gys, 2, n as int));
                            assert(extract_spec(gys[idx as int]) matches Ok(_));
                        }
                    }
                }
                return Err(e);
            },
            Ok(expanded) => {
                let ghost gexp = crate::tree::view_seq(expanded@);
                proof {
                    crate::tree::lemma_view_seq(expanded@);
                    crate::tree::lemma_extract_size(gys[idx as int]);
                    assert(crate::tree::extract_spec(gys[idx as int]) == Ok::<_, ()>(gexp));
                    assert forall|k: int| 0 <= k < gexp.len() implies #[trigger] crate::tree::cv_size(
                        gexp[k],
                    ) < crate::tree::cv_list_size(gys, 0) by {
                        let rr = crate::tree::extract_spec(gys[idx as int])->Ok_0;
                        assert(crate::tree::cv_size(rr[k]) <= crate::tree::cv_size(
                            gys[idx as int],
                        ));
                        assert(rr == gexp);
                        assert(crate::tree::cv_size(gys[idx as int]) <= crate::tree::cv_list_size(
                            gys,
                            1,
                        ));
                        assert(crate::tree::cv_list_size(gys, 0) == crate::tree::cv_size(gys[0])
                            + crate::tree::cv_list_size(gys, 1));
                    }
                }
                let m = expanded.len();
                let ghost line_base = p as int;
                let ghost chunk_line = chunk@;
                let ghost loc_line = collector@;
                proof {
                    assert(all_parse_at(0, gexp, 0, 0));
                    assert(chunk@.skip(chunk_line.len() as int) =~= Seq::<CalxSyntax>::empty());
                    assert(pieces_form(
                        line_base,
                        gexp,
                        0,
                        0,
                        loc_line,
                        chunk@.skip(chunk_line.len() as int),
                        collector@,
                    ));
                }
                let mut j: usize = 0;
                while j < m
                    invariant
                        0 <= j <= m,
                        2 <= idx < n,
                        n == xs@.len(),
                        gys == crate::tree::view_seq(xs@),
                        gys.len() == n,
                        m == expanded@.len(),
                        gexp == crate::tree::view_seq(expanded@),
                        gexp.len() == m,
                        extract_spec(gys[idx as int]) == Ok::<_, ()>(gexp),
                        forall|k: int|
                            0 <= k < m ==> gexp[k] == crate::tree::cirru_view(expanded@[k]),
                        forall|k: int|
                            0 <= k < m ==> #[trigger] crate::tree::cv_size(gexp[k])
                                < crate::tree::cv_list_size(gys, 0),
                        ptr_base + 1 <= usize::MAX,
                        p == ptr_base + 1 + chunk@.len(),
                        old(collector)@.is_prefix_of(collector@),
                        exists|dl: nat| #[trigger] lines_parse_between(dl, gys, 2, idx as int),
                        exists|dj: nat| #[trigger] all_parse_at(dj, gexp, 0, j as int),
                        chunk_line.len() <= chunk@.len(),
                        chunk@.take(chunk_line.len() as int) == chunk_line,
                        line_base == ptr_base + 1 + chunk_line.len(),
                        lines_form(
                            ptr_base + 1,
                            gys,
                            2,
                            idx as int,
                            old(collector)@,
                            chunk_line,
                            loc_line,
                        ),
                        pieces_form(
                            line_base,
                            gexp,
                            0,
                            j as int,
                            loc_line,
                            chunk@.skip(chunk_line.len() as int),
                            collector@,
                        ),
                    decreases m - j,
                {
                    proof {
                        assert(gexp[j as int] == crate::tree::cirru_view(expanded@[j as int]));
                        assert(crate::tree::cv_size(crate::tree::cirru_view(expanded@[j as int]))
                            < crate::tree::cv_list_size(crate::tree::view_seq(xs@), 0));
                    }
                    let ghost loc_before = collector@;
                    match parse_instr(p, &expanded[j], collector, fh) {
                        Err(e) => {
                            proof {
                                if e@ != "function too large"@ {
                                    assert forall|dd: nat| !block_parses(dd, gys) by {
                                        reveal_with_fuel(block_parses, 5);
                                        if block_parses(dd, gys) {
                                            assert(lines_parse_between(
                                                (dd - 1) as nat,
                                                gys,
                                                2,
                                                n as int,
                                            ));
                                            assert(all_parse_at(
                                                (dd - 1) as nat,
                                                gexp,
                                                0,
                                                gexp.len() as int,
                                            ));
                                            assert(instr_parses((dd - 1) as nat, gexp[j as int]));
                                        }
                                    }
                                }
                            }
                            return Err(e);
                        },
                        Ok(mut instrs) => {
                            let ghost ginstrs = instrs;
                            proof {
                                let dj = choose|dj: nat|
                                    #[trigger] all_parse_at(dj, gexp, 0, j as int);
                                let dp = choose|dp: nat| #[trigger] instr_parses(
                                    dp,
                                    gexp[j as int],
                                );
                                let dm = if dj < dp {
                                    dp
                                } else {
                                    dj
                                };
                                lemma_all_parse_mono(dj, dm, gexp, 0, j as int);
                                lemma_instr_parses_mono(dp, dm, gexp[j as int]);
                                assert(all_parse_at(dm, gexp, 0, j + 1));
                            }
                            let k = instrs.len();
                            match p.checked_add(k) {
                                None => {
                                    return Err(String::from_str("function too large"));
                                },
                                Some(p2) => {
                                    let ghost chunk0 = chunk@;
                                    p = p2;
                                    chunk.append(&mut instrs);
                                    proof {
                                        lemma_pieces_form_snoc(
                                            line_base,
                                            gexp,
                                            0,
                                            j as int,
                                            loc_line,
                                            chunk0.skip(chunk_line.len() as int),
                                            loc_before,
                                            ginstrs,
                                            collector@,
                                        );
                                        assert(chunk@.skip(chunk_line.len() as int) =~= chunk0.skip(
                                            chunk_line.len() as int,
                                        ) + ginstrs@);
                                        assert(chunk@.take(chunk_line.len() as int)
                                            =~= chunk_line);
                                    }
                                },
                            }
                        },
                    }
                    j += 1;
                }
                proof {
                    let dl = choose|dl: nat|
                        #[trigger] lines_parse_between(dl, gys, 2, idx as int);
                    let dj = choose|dj: nat| #[trigger] all_parse_at(dj, gexp, 0, m as int);
                    let dm = if dl < dj {
                        dj
                    } else {
                        dl
                    };
                    lemma_lines_parse_mono(dl, dm, gys, 2, idx as int);
                    lemma_all_parse_mono(dj, dm, gexp, 0, m as int);
                    assert(lines_parse_between(dm, gys, 2, idx + 1));
                    lemma_lines_form_snoc(
                        ptr_base + 1,
                        gys,
                        2,
                        idx as int,
                        old(collector)@,
                        chunk_line,
                        loc_line,
                        gexp,
                        chunk@.skip(chunk_line.len() as int),
                        collector@,
                    );
                    assert(chunk_line + chunk@.skip(chunk_line.len() as int) =~= chunk@);
                    assert(lines_form(
                        ptr_base + 1,
                        gys,
                        2,
                        idx + 1,
                        old(collector)@,
                        chunk@,
                        collector@,
                    ));
                }
            },
        }
        idx += 1;
    }
    let ghost body = chunk@;
    chunk.push(CalxSyntax::BlockEnd(looped));
    if looped && !rets.is_empty() {
        crate::host::emit_line("return types for a loop are not checked");
    }
    let to = p;
    let ghost gparams = params@;
    let ghost grets = rets@;
    chunk.insert(
        0,
        CalxSyntax::Block {
            looped,
            from,
            to,
            params_types: Rc::new(params),
            ret_types: Rc::new(rets),
        },
    );
    proof {
        assert(chunk@.len() == body.len() + 2);
        assert(chunk@[0] matches CalxSyntax::Block { .. });
        assert(chunk@.last() == CalxSyntax::BlockEnd(looped));
        reveal_with_fuel(block_parses, 5);
        let dl = choose|dl: nat| #[trigger] lines_parse_between(dl, gys, 2, n as int);
        assert(lines_parse_at(dl, gys, 2));
        assert(block_parses(dl + 1, gys));
        assert(chunk@.subrange(1, chunk@.len() - 1) =~= body);
    }
    Ok(chunk)
}

/// Parses an `if` form `(if (-> T*) (do …) (do …)?)`: the else branch is
/// laid out first so one conditional jump takes the falsy fall-through,
/// then the then branch, with markers between and after.
pub fn parse_if<H: FloatHost>(
    ptr_base: usize,
    xs: &Vec<Cirru>,
    collector: &mut LocalsCollector,
    fh: &H,
) -> (r: Result<Vec<CalxSyntax>, String>)
    ensures
        if_shape_post(ptr_base as int, crate::tree::view_seq(xs@), r),
        old(collector)@.is_prefix_of(final(collector)@),
        (exists|d: nat| if_parses(d, crate::tree::view_seq(xs@))) ==> (r is Ok || (r
            matches Err(e) && e@ == "function too large"@)),
        r is Ok ==> exists|d: nat| if_parses(d, crate::tree::view_seq(xs@)),
        r matches Ok(v) ==> ({
            let ys = crate::tree::view_seq(xs@);
            exists|e_out: Seq<CalxSyntax>, t_out: Seq<CalxSyntax>, locm: Seq<Seq<char>>|
                #![trigger if_form_parts(e_out, t_out, locm)]
                {
                    &&& if_form_parts(e_out, t_out, locm)
                    &&& v@ == seq![v@[0]] + e_out + seq![CalxSyntax::ElseEnd] + t_out + seq![
                        CalxSyntax::ThenEnd,
                    ]
                    &&& (ys.len() == 4 ==> (ys[3] matches CirruVal::List(eys) && lines_form(
                        ptr_base + 1,
                        eys,
                        1,
                        eys.len() as int,
                        old(collector)@,
                        e_out,
                        locm,
                    )))
                    &&& (ys.len() == 3 ==> e_out.len() == 0 && locm == old(collector)@)
                    &&& (ys[2] matches CirruVal::List(tys) && lines_form(
                        ptr_base + 2 + e_out.len(),
                        tys,
                        1,
                        tys.len() as int,
                        locm,
                        t_out,
                        final(collector)@,
                    ))
                }
        }),
    decreases crate::tree::cv_list_size(crate::tree::view_seq(xs@), 0),
{
    let ghost gys = crate::tree::view_seq(xs@);
    proof {
        crate::tree::lemma_view_seq(xs@);
    }
    let n = xs.len();
    if n != 3 && n != 4 {
        proof {
            assert(forall|d: nat| !if_parses(d, gys));
        }
        return Err(String::from_str("if expects two or three arguments"));
    }
    let (_params, rets) = match parse_block_types(&xs[1]) {
        Ok(tp) => tp,
        Err(e) => {
            proof {
                assert(forall|d: nat| !if_parses(d, gys));
            }
            return Err(e);
        },
    };
    // the else branch is laid out first, right after the conditional jump
    let else_base = match ptr_base.checked_add(1) {
        Some(v) => v,
        None => {
            return Err(String::from_str("function too large"));
        },
    };
    let mut else_syntax: Vec<CalxSyntax> = Vec::new();
    let ghost loc_else_start = collector@;
    if n == 4 {
        proof {
            crate::tree::lemma_cv_list_elem(gys, 1, 3);
            crate::tree::lemma_cv_list_mono(gys, 0, 1);
            lemma_cv_size_pos(gys[0]);
        }
        else_syntax = match parse_do(else_base, &xs[3], collector, fh) {
            Ok(v) => v,
            Err(e) => {
                proof {
                    if e@ != "function too large"@ {
                        assert forall|dd: nat| !if_parses(dd, gys) by {
                            if if_parses(dd, gys) {
                                assert(do_parses(dd, gys[3]));
                            }
                        }
                    }
                }
                return Err(e);
            },
        };
    }
    let ghost g_eout = else_syntax@;
    let ghost locm_g = collector@;
    let e_len = else_syntax.len();
    // the then branch starts one past the else end marker
    let else_at = match ptr_base.checked_add(2) {
        Some(a) => match a.checked_add(e_len) {
            Some(b) => b,
            None => {
                return Err(String::from_str("function too large"));
            },
        },
        None => {
            return Err(String::from_str("function too large"));
        },
    };
    proof {
        crate::tree::lemma_cv_list_elem(gys, 1, 2);
        crate::tree::lemma_cv_list_mono(gys, 0, 1);
        lemma_cv_size_pos(gys[0]);
    }
    let mut then_syntax = match parse_do(else_at, &xs[2], collector, fh) {
        Ok(v) => v,
        Err(e) => {
            proof {
                if e@ != "function too large"@ {
                    assert forall|dd: nat| !if_parses(dd, gys) by {
                        if if_parses(dd, gys) {
                            assert(do_parses(dd, gys[2]));
                        }
                    }
                }
            }
            return Err(e);
        },
    };
    let ghost g_tout = then_syntax@;
    let t_len = then_syntax.len();
    let total = match else_at.checked_add(t_len) {
        Some(b) => match b.checked_add(1) {
            Some(c) => c,
            None => {
                return Err(String::from_str("function too large"));
            },
        },
        None => {
            return Err(String::from_str("function too large"));
        },
    };
    let to = total;
    let mut chunk: Vec<CalxSyntax> = Vec::new();
    chunk.append(&mut else_syntax);
    chunk.push(CalxSyntax::ElseEnd);
    chunk.append(&mut then_syntax);
    chunk.push(CalxSyntax::ThenEnd);
    let ghost grets = rets@;
    chunk.insert(0, CalxSyntax::If { ret_types: Rc::new(rets), else_at, to });
    proof {
        let m = 1 + e_len as int;
        assert(chunk@.len() == e_len + t_len + 3);
        assert(chunk@[m] == CalxSyntax::ElseEnd);
        assert(chunk@.last() == CalxSyntax::ThenEnd);
        assert(chunk@[0] matches CalxSyntax::If { .. });
        let dt = choose|dt: nat| #[trigger] do_parses(dt, gys[2]);
        if n == 4 {
            let de = choose|de: nat| #[trigger] do_parses(de, gys[3]);
            let dm = if dt < de {
                de
            } else {
                dt
            };
            lemma_do_parses_mono(dt, dm, gys[2]);
            lemma_do_parses_mono(de, dm, gys[3]);
            assert(if_parses(dm, gys));
        } else {
            assert(if_parses(dt, gys));
        }
        assert(chunk@ =~= seq![chunk@[0]] + g_eout + seq![CalxSyntax::ElseEnd] + g_tout + seq![
            CalxSyntax::ThenEnd,
        ]);
        if n == 4 {
            assert(gys[3] matches CirruVal::List(_));
        } else {
            assert(g_eout.len() == 0 && locm_g == old(collector)@);
        }
        assert(gys[2] matches CirruVal::List(_));
        assert(if_form_parts(g_eout, g_tout, locm_g));
        match gys[2] {
            CirruVal::List(tys) => {
                assert(lines_form(
                    ptr_base + 2 + g_eout.len(),
                    tys,
                    1,
                    tys.len() as int,
                    locm_g,
                    g_tout,
                    collector@,
                ));
            },
            CirruVal::Leaf(_) => {},
        }
    }
    Ok(chunk)
}

/// Parses a `do` form: a plain sequence of expressions, flattened and
/// parsed in order, used for the branches of an `if`.
pub fn parse_do<H: FloatHost>(
    ptr_base: usize,
    xs: &Cirru,
    collector: &mut LocalsCollector,
    fh: &H,
) -> (r: Result<Vec<CalxSyntax>, String>)
    ensures
        xs@ matches CirruVal::Leaf(_) ==> r is Err,
        xs@ matches CirruVal::List(ys) ==> ((ys.len() == 0 || !(ys[0]
            matches CirruVal::Leaf(d) && d == "do"@)) ==> r is Err),
        (exists|d: nat| do_parses(d, xs@)) ==> (r is Ok || (r matches Err(e) && e@
            == "function too large"@)),
        r is Ok ==> exists|d: nat| do_parses(d, xs@),
        xs@ matches CirruVal::List(ys) ==> (r matches Ok(v) ==> lines_form(
            ptr_base as int,
            ys,
            1,
            ys.len() as int,
            old(collector)@,
            v@,
            final(collector)@,
        )),
        old(collector)@.is_prefix_of(final(collector)@),
    decreases crate::tree::cv_size(xs@),
{
    match xs {
        Cirru::Leaf(_) => {
            proof {
                assert(forall|d: nat| !do_parses(d, xs@));
            }
            Err(String::from_str("expected a do expression"))
        },
        Cirru::List(ys) => {
            let ysv: &Vec<Cirru> = &**ys;
            let n = ysv.len();
            let ghost gys = crate::tree::view_seq(ysv@);
            proof {
                crate::tree::lemma_view_seq(ysv@);
                assert(xs@ == CirruVal::List(gys));
            }
            if n == 0 {
                proof {
                    assert(forall|d: nat| !do_parses(d, xs@));
                }
                return Err(String::from_str("empty expression"));
            }
            match &ysv[0] {
                Cirru::List(_) => {
                    proof {
                        assert(forall|d: nat| !do_parses(d, xs@));
                    }
                    Err(String::from_str("expected do"))
                },
                Cirru::Leaf(d) => {
                    if !str_eq(d.as_str(), "do") {
                        proof {
                            assert(forall|dd: nat| !do_parses(dd, xs@));
                        }
                        return Err(String::from_str("expected do"));
                    }
                    let mut p: usize = ptr_base;
                    let mut chunk: Vec<CalxSyntax> = Vec::new();
                    proof {
                        assert(lines_parse_between(0, gys, 1, 1));
                        assert(lines_form(
                            ptr_base as int,
                            gys,
                            1,
                            1,
                            old(collector)@,
                            chunk@,
                            collector@,
                        ));
                    }
                    let mut idx: usize = 1;
                    while idx < n
                        invariant
                            1 <= idx <= n,
                            n == ysv@.len(),
                            gys == crate::tree::view_seq(ysv@),
                            gys.len() == n,
                            forall|j: int|
                                0 <= j < n ==> gys[j] == crate::tree::cirru_view(ysv@[j]),
                            xs@ == CirruVal::List(gys),
                            gys[0] matches CirruVal::Leaf(h) && h == "do"@,
                            old(collector)@.is_prefix_of(collector@),
                            exists|dl: nat| #[trigger] lines_parse_between(dl, gys, 1, idx as int),
                            p as int == ptr_base + chunk@.len(),
                            lines_form(
                                ptr_base as int,
                                gys,
                                1,
                                idx as int,
                                old(collector)@,
                                chunk@,
                                collector@,
                            ),
                        decreases n - idx,
                    {
                        let line = &ysv[idx];
                        proof {
                            crate::tree::lemma_cv_list_elem(gys, 1, idx as int);
                            crate::tree::lemma_cv_list_mono(gys, 0, 1);
                            lemma_cv_size_pos(gys[0]);
                        }
                        match crate::tree::extract_nested(line) {
                            Err(e) => {
                                proof {
                                    assert forall|dd: nat| !do_parses(dd, xs@) by {
                                        reveal_with_fuel(do_parses, 5);
                                        if do_parses(dd, xs@) {
                                            assert(lines_parse_between(
                                                (dd - 1) as nat,
                                                gys,
                                                1,
                                                n as int,
                                            ));
                                            assert(extract_spec(gys[idx as int]) matches Ok(_));
                                        }
                                    }
                                }
                                return Err(e);
                            },
                            Ok(expanded) => {
                                let ghost gexp = crate::tree::view_seq(expanded@);
                                proof {
                                    crate::tree::lemma_view_seq(expanded@);
                                    crate::tree::lemma_extract_size(gys[idx as int]);
                                    assert(crate::tree::extract_spec(gys[idx as int]) == Ok::<
                                        _,
                                        (),
                                    >(gexp));
                                    assert forall|k: int|
                                        0 <= k < gexp.len() implies #[trigger] crate::tree::cv_size(
                                        gexp[k],
                                    ) < crate::tree::cv_size(xs@) by {
                                        let rr = crate::tree::extract_spec(
                                            gys[idx as int],
                                        )->Ok_0;
                                        assert(crate::tree::cv_size(rr[k])
                                            <= crate::tree::cv_size(gys[idx as int]));
                                        assert(rr == gexp);
                                        assert(crate::tree::cv_size(gys[idx as int])
                                            <= crate::tree::cv_list_size(gys, 1));
                                        assert(crate::tree::cv_list_size(gys, 0)
                                            == crate::tree::cv_size(gys[0])
                                            + crate::tree::cv_list_size(gys, 1));
                                        assert(crate::tree::cv_size(xs@) == 1
                                            + crate::tree::cv_list_size(gys, 0));
                                    }
                                }
                                let m = expanded.len();
                                let ghost line_base = p as int;
                                let ghost chunk_line = chunk@;
                                let ghost loc_line = collector@;
                                proof {
                                    assert(all_parse_at(0, gexp, 0, 0));
                                    assert(chunk@.skip(chunk_line.len() as int) =~= Seq::<
                                        CalxSyntax,
                                    >::empty());
                                    assert(pieces_form(
                                        line_base,
                                        gexp,
                                        0,
                                        0,
                                        loc_line,
                                        chunk@.skip(chunk_line.len() as int),
                                        collector@,
                                    ));
                                }
                                let mut j: usize = 0;
                                while j < m
                                    invariant
                                        0 <= j <= m,
                                        1 <= idx < n,
                                        n == ysv@.len(),
                                        gys == crate::tree::view_seq(ysv@),
                                        gys.len() == n,
                                        xs@ == CirruVal::List(gys),
                                        gys[0] matches CirruVal::Leaf(h) && h == "do"@,
                                        m == expanded@.len(),
                                        gexp == crate::tree::view_seq(expanded@),
                                        gexp.len() == m,
                                        extract_spec(gys[idx as int]) == Ok::<_, ()>(gexp),
                                        forall|k: int|
                                            0 <= k < m ==> gexp[k] == crate::tree::cirru_view(
                                                expanded@[k],
                                            ),
                                        forall|k: int|
                                            0 <= k < m ==> #[trigger] crate::tree::cv_size(gexp[k])
                                                < crate::tree::cv_size(xs@),
                                        old(collector)@.is_prefix_of(collector@),
                                        exists|dl: nat| #[trigger] lines_parse_between(
                                            dl,
                                            gys,
                                            1,
                                            idx as int,
                                        ),
                                        exists|dj: nat| #[trigger] all_parse_at(
                                            dj,
                                            gexp,
                                            0,
                                            j as int,
                                        ),
                                        chunk_line.len() <= chunk@.len(),
                                        chunk@.take(chunk_line.len() as int) == chunk_line,
                                        line_base == ptr_base + chunk_line.len(),
                                        p as int == line_base + (chunk@.len()
                                            - chunk_line.len()),
                                        lines_form(
                                            ptr_base as int,
                                            gys,
                                            1,
                                            idx as int,
                                            old(collector)@,
                                            chunk_line,
                                            loc_line,
                                        ),
                                        pieces_form(
                                            line_base,
                                            gexp,
                                            0,
                                            j as int,
                                            loc_line,
                                            chunk@.skip(chunk_line.len() as int),
                                            collector@,
                                        ),
                                    decreases m - j,
                                {
                                    proof {
                                        assert(gexp[j as int] == crate::tree::cirru_view(
                                            expanded@[j as int],
                                        ));
                                        assert(crate::tree::cv_size(
                                            crate::tree::cirru_view(expanded@[j as int]),
                                        ) < crate::tree::cv_size(xs@));
                                    }
                                    let ghost loc_before = collector@;
                                    match parse_instr(p, &expanded[j], collector, fh) {
                                        Err(e) => {
                                            proof {
                                                if e@ != "function too large"@ {
                                                    assert forall|dd: nat| !do_parses(
                                                        dd,
                                                        xs@,
                                                    ) by {
                                                        reveal_with_fuel(do_parses, 5);
                                                        if do_parses(dd, xs@) {
                                                            assert(lines_parse_between(
                                                                (dd - 1) as nat,
                                                                gys,
                                                                1,
                                                                n as int,
                                                            ));
                                                            assert(all_parse_at(
                                                                (dd - 1) as nat,
                                                                gexp,
                                                                0,
                                                                gexp.len() as int,
                                                            ));
                                                            assert(instr_parses(
                                                                (dd - 1) as nat,
                                                                gexp[j as int],
                                                            ));
                                                        }
                                                    }
                                                }
                                            }
                                            return Err(e);
                                        },
                                        Ok(mut instrs) => {
                                            let ghost ginstrs = instrs;
                                            proof {
                                                let dj = choose|dj: nat|
                                                    #[trigger] all_parse_at(
                                                        dj,
                                                        gexp,
                                                        0,
                                                        j as int,
                                                    );
                                                let dp = choose|dp: nat|
                                                    #[trigger] instr_parses(dp, gexp[j as int]);
                                                let dm = if dj < dp {
                                                    dp
                                                } else {
                                                    dj
                                                };
                                                lemma_all_parse_mono(dj, dm, gexp, 0, j as int);
                                                lemma_instr_parses_mono(dp, dm, gexp[j as int]);
                                                assert(all_parse_at(dm, gexp, 0, j + 1));
                                            }
                                            let k = instrs.len();
                                            match p.checked_add(k) {
                                                None => {
                                                    return Err(
                                                        String::from_str("function too large"),
                                                    );
                                                },
                                                Some(p2) => {
                                                    let ghost chunk0 = chunk@;
                                                    p = p2;
                                                    chunk.append(&mut instrs);
                                                    proof {
                                                        lemma_pieces_form_snoc(
                                                            line_base,
                                                            gexp,
                                                            0,
                                                            j as int,
                                                            loc_line,
                                                            chunk0.skip(chunk_line.len() as int),
                                                            loc_before,
                                                            ginstrs,
                                                            collector@,
                                                        );
                                                        assert(chunk@.skip(
                                                            chunk_line.len() as int,
                                                        ) =~= chunk0.skip(chunk_line.len() as int)
                                                            + ginstrs@);
                                                        assert(chunk@.take(
                                                            chunk_line.len() as int,
                                                        ) =~= chunk_line);
                                                    }
                                                },
                                            }
                                        },
                                    }
                                    j += 1;
                                }
                                proof {
                                    lemma_lines_form_snoc(
                                        ptr_base as int,
                                        gys,
                                        1,
                                        idx as int,
                                        old(collector)@,
                                        chunk_line,
                                        loc_line,
                                        gexp,
                                        chunk@.skip(chunk_line.len() as int),
                                        collector@,
                                    );
                                    assert(chunk_line + chunk@.skip(chunk_line.len() as int)
                                        =~= chunk@);
                                    assert(lines_form(
                                        ptr_base as int,
                                        gys,
                                        1,
                                        idx + 1,
                                        old(collector)@,
                                        chunk@,
                                        collector@,
                                    ));
                                }
                                proof {
                                    let dl = choose|dl: nat|
                                        #[trigger] lines_parse_between(dl, gys, 1, idx as int);
                                    let dj = choose|dj: nat|
                                        #[trigger] all_parse_at(dj, gexp, 0, m as int);
                                    let dm = if dl < dj {
                                        dj
                                    } else {
                                        dl
                                    };
                                    lemma_lines_parse_mono(dl, dm, gys, 1, idx as int);
                                    lemma_all_parse_mono(dj, dm, gexp, 0, m as int);
                                    assert(lines_parse_between(dm, gys, 1, idx + 1));
                                }
                            },
                        }
                        idx += 1;
                    }
                    proof {
                        reveal_with_fuel(do_parses, 5);
                        let dl = choose|dl: nat|
                            #[trigger] lines_parse_between(dl, gys, 1, idx as int);
                        assert(lines_parse_at(dl, gys, 1));
                        assert(do_parses(dl + 1, xs@));
                    }
                    Ok(chunk)
                },
            }
        },
    }
}

/// What a function expression must open with: `fn` or `defn`, a name
/// leaf, and a signature list.
pub open spec fn fn_head_ok(g: Seq<CirruVal>) -> bool {
    &&& (g[0] matches CirruVal::Leaf(h) && (h == "fn"@ || h == "defn"@))
    &&& g[1] matches CirruVal::Leaf(_)
}

/// Assembles one function record from a surface expression: `fn` (or
/// `defn`), a name, a signature `(T* -> T*)`, then the body forms, each
/// flattened and parsed in order. The instruction stream is left empty
/// for the preprocessor to fill.
pub fn parse_function<H: FloatHost>(nodes: &Vec<Cirru>, fh: &H) -> (r: Result<CalxFunc, String>)
    ensures
        nodes@.len() <= 3 ==> r is Err,
        nodes@.len() > 3 ==> ({
            let g = crate::tree::view_seq(nodes@);
            let init = FnTypesSt {
                params: Seq::empty(),
                rets: Seq::empty(),
                ret_mode: false,
                locals: Seq::empty(),
            };
            &&& (!fn_head_ok(g) ==> r is Err)
            &&& (fn_head_ok(g) ==> ({
                let tf = match g[2] {
                    CirruVal::Leaf(_) => Err(()),
                    CirruVal::List(tys) => fn_types_fold(tys, 0, init),
                };
                &&& (tf is Err ==> r is Err)
                &&& (r matches Ok(f) ==> ({
                    &&& g[1] matches CirruVal::Leaf(nm) && f.name@ == nm
                    &&& tf matches Ok(st)
                    &&& f.params_types@ == st.params
                    &&& f.ret_types@ == st.rets
                    &&& st.locals.is_prefix_of(crate::locals::names_view(f.local_names@))
                    &&& crate::func::func_wf(f)
                    &&& f.instrs@ == Seq::<CalxInstr>::empty()
                    &&& lines_form(
                        0,
                        g,
                        3,
                        g.len() as int,
                        st.locals,
                        f.syntax@,
                        crate::locals::names_view(f.local_names@),
                    )
                }))
            }))
        }),
        (exists|d: nat| function_parses(d, crate::tree::view_seq(nodes@))) ==> (r is Ok || (r
            matches Err(e) && e@ == "function too large"@)),
        r is Ok ==> exists|d: nat| function_parses(d, crate::tree::view_seq(nodes@)),
{
    let ghost g = crate::tree::view_seq(nodes@);
    proof {
        crate::tree::lemma_view_seq(nodes@);
    }
    let n = nodes.len();
    if n <= 3 {
        proof {
            assert(forall|d: nat| !function_parses(d, g));
        }
        return Err(String::from_str("function expects at least 3 lines"));
    }
    let head_ok = match &nodes[0] {
        Cirru::Leaf(x) => str_eq(x.as_str(), "fn") || str_eq(x.as_str(), "defn"),
        Cirru::List(_) => false,
    };
    if !head_ok {
        proof {
            assert(forall|d: nat| !function_parses(d, g));
        }
        return Err(String::from_str("not a function"));
    }
    let name: String = match &nodes[1] {
        Cirru::Leaf(x) => x.clone(),
        Cirru::List(_) => {
            proof {
                assert(forall|d: nat| !function_parses(d, g));
            }
            return Err(String::from_str("invalid name"));
        },
    };
    let mut collector = LocalsCollector::new();
    let (params, rets) = match parse_fn_types(&nodes[2], &mut collector) {
        Ok(tp) => tp,
        Err(e) => {
            proof {
                assert(forall|d: nat| !function_parses(d, g));
            }
            return Err(e);
        },
    };
    let ghost st_locals = collector@;
    let mut body: Vec<CalxSyntax> = Vec::new();
    let mut ptr_base: usize = 0;
    proof {
        assert(lines_parse_between(0, g, 3, 3));
        assert(lines_form(0, g, 3, 3, st_locals, body@, collector@));
    }
    let mut idx: usize = 3;
    while idx < n
        invariant
            3 <= idx <= n,
            n == nodes@.len(),
            g == crate::tree::view_seq(nodes@),
            g.len() == n,
            forall|j: int| 0 <= j < n ==> g[j] == crate::tree::cirru_view(nodes@[j]),
            ptr_base == body@.len(),
            st_locals.is_prefix_of(collector@),
            exists|dl: nat| #[trigger] lines_parse_between(dl, g, 3, idx as int),
            lines_form(0, g, 3, idx as int, st_locals, body@, collector@),
        decreases n - idx,
    {
        match crate::tree::extract_nested(&nodes[idx]) {
            Err(e) => {
                proof {
                    assert forall|dd: nat| !function_parses(dd, g) by {
                        if function_parses(dd, g) {
                            assert(lines_parse_between((dd - 1) as nat, g, 3, n as int));
                            assert(extract_spec(g[idx as int]) matches Ok(_));
                        }
                    }
                }
                return Err(e);
            },
            Ok(expanded) => {
                let ghost gexp = crate::tree::view_seq(expanded@);
                proof {
                    crate::tree::lemma_view_seq(expanded@);
                    assert(crate::tree::extract_spec(g[idx as int]) == Ok::<_, ()>(gexp));
                    assert(all_parse_at(0, gexp, 0, 0));
                }
                let m = expanded.len();
                let ghost line_base = ptr_base as int;
                let ghost body_line = body@;
                let ghost loc_line = collector@;
                proof {
                    assert(body@.skip(body_line.len() as int) =~= Seq::<CalxSyntax>::empty());
                    assert(pieces_form(
                        line_base,
                        gexp,
                        0,
                        0,
                        loc_line,
                        body@.skip(body_line.len() as int),
                        collector@,
                    ));
                }
                let mut j: usize = 0;
                while j < m
                    invariant
                        0 <= j <= m,
                        3 <= idx < n,
                        n == nodes@.len(),
                        g == crate::tree::view_seq(nodes@),
                        g.len() == n,
                        m == expanded@.len(),
                        gexp == crate::tree::view_seq(expanded@),
                        gexp.len() == m,
                        extract_spec(g[idx as int]) == Ok::<_, ()>(gexp),
                        forall|k: int|
                            0 <= k < m ==> gexp[k] == crate::tree::cirru_view(expanded@[k]),
                        ptr_base == body@.len(),
                        st_locals.is_prefix_of(collector@),
                        exists|dl: nat| #[trigger] lines_parse_between(dl, g, 3, idx as int),
                        exists|dj: nat| #[trigger] all_parse_at(dj, gexp, 0, j as int),
                        body_line.len() <= body@.len(),
                        body@.take(body_line.len() as int) == body_line,
                        line_base == body_line.len(),
                        lines_form(0, g, 3, idx as int, st_locals, body_line, loc_line),
                        pieces_form(
                            line_base,
                            gexp,
                            0,
                            j as int,
                            loc_line,
                            body@.skip(body_line.len() as int),
                            collector@,
                        ),
                    decreases m - j,
                {
                    proof {
                        assert(gexp[j as int] == crate::tree::cirru_view(expanded@[j as int]));
                    }
                    let ghost loc_before = collector@;
                    match parse_instr(ptr_base, &expanded[j], &mut collector, fh) {
                        Err(e) => {
                            proof {
                                if e@ != "function too large"@ {
                                    assert forall|dd: nat| !function_parses(dd, g) by {
                                        if function_parses(dd, g) {
                                            assert(lines_parse_between(
                                                (dd - 1) as nat,
                                                g,
                                                3,
                                                n as int,
                                            ));
                                            assert(all_parse_at(
                                                (dd - 1) as nat,
                                                gexp,
                                                0,
                                                gexp.len() as int,
                                            ));
                                            assert(instr_parses((dd - 1) as nat, gexp[j as int]));
                                        }
                                    }
                                }
                            }
                            return Err(e);
                        },
                        Ok(mut instrs) => {
                            let ghost ginstrs = instrs;
                            proof {
                                let dj = choose|dj: nat|
                                    #[trigger] all_parse_at(dj, gexp, 0, j as int);
                                let dp = choose|dp: nat| #[trigger] instr_parses(
                                    dp,
                                    gexp[j as int],
                                );
                                let dm = if dj < dp {
                                    dp
                                } else {
                                    dj
                                };
                                lemma_all_parse_mono(dj, dm, gexp, 0, j as int);
                                lemma_instr_parses_mono(dp, dm, gexp[j as int]);
                                assert(all_parse_at(dm, gexp, 0, j + 1));
                            }
                            let k = instrs.len();
                            match ptr_base.checked_add(k) {
                                None => {
                                    return Err(String::from_str("function too large"));
                                },
                                Some(p2) => {
                                    let ghost body0 = body@;
                                    ptr_base = p2;
                                    body.append(&mut instrs);
                                    proof {
                                        lemma_pieces_form_snoc(
                                            line_base,
                                            gexp,
                                            0,
                                            j as int,
                                            loc_line,
                                            body0.skip(body_line.len() as int),
                                            loc_before,
                                            ginstrs,
                                            collector@,
                                        );
                                        assert(body@.skip(body_line.len() as int) =~= body0.skip(
                                            body_line.len() as int,
                                        ) + ginstrs@);
                                        assert(body@.take(body_line.len() as int) =~= body_line);
                                    }
                                },
                            }
                        },
                    }
                    j += 1;
                }
                proof {
                    let dl = choose|dl: nat| #[trigger] lines_parse_between(dl, g, 3, idx as int);
                    let dj = choose|dj: nat| #[trigger] all_parse_at(dj, gexp, 0, m as int);
                    let dm = if dl < dj {
                        dj
                    } else {
                        dl
                    };
                    lemma_lines_parse_mono(dl, dm, g, 3, idx as int);
                    lemma_all_parse_mono(dj, dm, gexp, 0, m as int);
                    assert(lines_parse_between(dm, g, 3, idx + 1));
                    lemma_lines_form_snoc(
                        0,
                        g,
                        3,
                        idx as int,
                        st_locals,
                        body_line,
                        loc_line,
                        gexp,
                        body@.skip(body_line.len() as int),
                        collector@,
                    );
                    assert(body_line + body@.skip(body_line.len() as int) =~= body@);
                    assert(lines_form(0, g, 3, idx + 1, st_locals, body@, collector@));
                }
            },
        }
        idx += 1;
    }
    proof {
        let dl = choose|dl: nat| #[trigger] lines_parse_between(dl, g, 3, n as int);
        assert(lines_parse_at(dl, g, 3));
        assert(function_parses(dl + 1, g));
        match g[2] {
            CirruVal::List(tys) => {
                lemma_fn_types_fold_balance(
                    tys,
                    0,
                    FnTypesSt {
                        params: Seq::empty(),
                        rets: Seq::empty(),
                        ret_mode: false,
                        locals: Seq::empty(),
                    },
                );
            },
            CirruVal::Leaf(_) => {},
        }
    }
    Ok(
        CalxFunc {
            name: Rc::new(name),
            params_types: Rc::new(params),
            ret_types: Rc::new(rets),
            syntax: Rc::new(body),
            instrs: Rc::new(Vec::new()),
            local_names: Rc::new(collector.locals),
        },
    )
}

/// A token that names a local position: a `$name`, or an index literal
/// that fits a machine word.
pub open spec fn local_arg_ok(x: CirruVal) -> bool {
    match x {
        CirruVal::Leaf(s) => s.len() > 0 && (s[0] == '$' || (is_usize_text(s) && usize_text_value(
            s,
        ) <= usize::MAX)),
        CirruVal::List(_) => false,
    }
}

/// A token that is an index literal fitting a machine word.
pub open spec fn idx_arg_ok(x: CirruVal) -> bool {
    match x {
        CirruVal::Leaf(s) => is_usize_text(s) && usize_text_value(s) <= usize::MAX,
        CirruVal::List(_) => false,
    }
}

/// Whether every expression of the sequence between the positions parses
/// at depth `d`.
pub open spec fn all_parse_at(d: nat, s: Seq<CirruVal>, lo: int, hi: int) -> bool
    decreases d, 5int,
{
    forall|k: int| lo <= k < hi ==> instr_parses(d, #[trigger] s[k])
}

/// Whether every line of the sequence between the positions flattens, its
/// pieces all parsing at depth `d`.
pub open spec fn lines_parse_between(d: nat, s: Seq<CirruVal>, lo: int, hi: int) -> bool
    decreases d, 6int,
{
    forall|l: int|
        lo <= l < hi ==> (#[trigger] extract_spec(s[l]) matches Ok(pieces) && all_parse_at(
            d,
            pieces,
            0,
            pieces.len() as int,
        ))
}

/// Whether every line of the sequence from position `lo` on flattens, its
/// pieces all parsing at depth `d`.
pub open spec fn lines_parse_at(d: nat, s: Seq<CirruVal>, lo: int) -> bool
    decreases d, 7int,
{
    lines_parse_between(d, s, lo, s.len() as int)
}

/// Whether one flattened expression is well formed and parses, given
/// recursion depth `d`: nesting of structured forms costs one unit each,
/// so some depth suffices for every finite expression. Monotone in `d`.
pub open spec fn instr_parses(d: nat, x: CirruVal) -> bool
    decreases d, 4int,
{
    match x {
        CirruVal::Leaf(_) => false,
        CirruVal::List(ys) => ys.len() > 0 && match ys[0] {
            CirruVal::List(_) => false,
            CirruVal::Leaf(h) => {
                if h == ";;"@ {
                    true
                } else if simple_syntax_of(h) is Some {
                    true
                } else if h == "local.get"@ || h == "local.set"@ || h == "local.tee"@ {
                    ys.len() == 2 && local_arg_ok(ys[1])
                } else if h == "global.get"@ || h == "global.set"@ || h == "br"@ || h == "br-if"@
                    || h == "quit"@ {
                    ys.len() == 2 && idx_arg_ok(ys[1])
                } else if h == "const"@ {
                    ys.len() == 2 && (ys[1] matches CirruVal::Leaf(t)
                        && crate::calx::is_value_text(t))
                } else if h == "call"@ || h == "return-call"@ || h == "call-import"@ || h
                    == "assert"@ {
                    ys.len() == 2 && ys[1] matches CirruVal::Leaf(_)
                } else if h == "block"@ || h == "loop"@ {
                    block_parses(d, ys)
                } else if h == "if"@ {
                    if_parses(d, ys)
                } else {
                    false
                }
            },
        },
    }
}

/// Whether a `block` or `loop` form is well formed: a signature list and
/// body lines whose flattened pieces all parse one depth down.
pub open spec fn block_parses(d: nat, ys: Seq<CirruVal>) -> bool
    decreases d, 1int,
{
    &&& ys.len() >= 2
    &&& block_types_spec(ys[1]) is Ok
    &&& d > 0
    &&& lines_parse_at((d - 1) as nat, ys, 2)
}

/// Whether a `do` form is well formed: the `do` head, then lines whose
/// flattened pieces all parse one depth down.
pub open spec fn do_parses(d: nat, x: CirruVal) -> bool
    decreases d, 2int,
{
    match x {
        CirruVal::Leaf(_) => false,
        CirruVal::List(ys) => {
            &&& ys.len() > 0
            &&& ys[0] matches CirruVal::Leaf(h) && h == "do"@
            &&& d > 0
            &&& lines_parse_at((d - 1) as nat, ys, 1)
        },
    }
}

/// Whether an `if` form is well formed: a signature list and one or two
/// `do` branches.
pub open spec fn if_parses(d: nat, ys: Seq<CirruVal>) -> bool
    decreases d, 3int,
{
    &&& (ys.len() == 3 || ys.len() == 4)
    &&& block_types_spec(ys[1]) is Ok
    &&& do_parses(d, ys[2])
    &&& (ys.len() == 4 ==> do_parses(d, ys[3]))
}

/// Whether a whole function expression is well formed: the `fn` (or
/// `defn`) head, a name leaf, a signature that folds, and body lines
/// whose flattened pieces all parse.
pub open spec fn function_parses(d: nat, g: Seq<CirruVal>) -> bool {
    &&& g.len() > 3
    &&& fn_head_ok(g)
    &&& (match g[2] {
        CirruVal::Leaf(_) => false,
        CirruVal::List(tys) => fn_types_fold(
            tys,
            0,
            FnTypesSt {
                params: Seq::empty(),
                rets: Seq::empty(),
                ret_mode: false,
                locals: Seq::empty(),
            },
        ) is Ok,
    })
    &&& d > 0
    &&& lines_parse_at((d - 1) as nat, g, 3)
}

/// More depth never hurts: what parses at one depth parses at any
/// greater one.
pub proof fn lemma_instr_parses_mono(d1: nat, d2: nat, x: CirruVal)
    requires
        d1 <= d2,
        instr_parses(d1, x),
    ensures
        instr_parses(d2, x),
    decreases d1, 4int,
{
    match x {
        CirruVal::Leaf(_) => {},
        CirruVal::List(ys) => {
            match ys[0] {
                CirruVal::List(_) => {},
                CirruVal::Leaf(h) => {
                    if h == ";;"@ || simple_syntax_of(h) is Some {
                    } else if h == "local.get"@ || h == "local.set"@ || h == "local.tee"@ {
                    } else if h == "global.get"@ || h == "global.set"@ || h == "br"@ || h
                        == "br-if"@ || h == "quit"@ {
                    } else if h == "const"@ {
                    } else if h == "call"@ || h == "return-call"@ || h == "call-import"@ || h
                        == "assert"@ {
                    } else if h == "block"@ || h == "loop"@ {
                        lemma_block_parses_mono(d1, d2, ys);
                    } else if h == "if"@ {
                        lemma_if_parses_mono(d1, d2, ys);
                    }
                },
            }
        },
    }
}

/// More depth never hurts, for whole lines.
pub proof fn lemma_lines_parse_mono(d1: nat, d2: nat, s: Seq<CirruVal>, lo: int, hi: int)
    requires
        d1 <= d2,
        lines_parse_between(d1, s, lo, hi),
    ensures
        lines_parse_between(d2, s, lo, hi),
    decreases d1, 6int,
{
    assert forall|l: int|
        lo <= l < hi implies (#[trigger] extract_spec(s[l]) matches Ok(pieces)
        && all_parse_at(d2, pieces, 0, pieces.len() as int)) by {
        reveal_with_fuel(all_parse_at, 2);
        match extract_spec(s[l]) {
            Ok(pieces) => {
                assert(all_parse_at(d1, pieces, 0, pieces.len() as int));
                assert forall|k: int| 0 <= k < pieces.len() implies instr_parses(
                    d2,
                    #[trigger] pieces[k],
                ) by {
                    assert(instr_parses(d1, pieces[k]));
                    lemma_instr_parses_mono(d1, d2, pieces[k]);
                }
                assert(all_parse_at(d2, pieces, 0, pieces.len() as int));
            },
            Err(()) => {},
        }
    }
}

/// More depth never hurts, for a run of pieces.
pub proof fn lemma_all_parse_mono(d1: nat, d2: nat, s: Seq<CirruVal>, lo: int, hi: int)
    requires
        d1 <= d2,
        all_parse_at(d1, s, lo, hi),
    ensures
        all_parse_at(d2, s, lo, hi),
    decreases d1, 5int,
{
    assert forall|k: int| lo <= k < hi implies instr_parses(d2, #[trigger] s[k]) by {
        assert(instr_parses(d1, s[k]));
        lemma_instr_parses_mono(d1, d2, s[k]);
    }
}

proof fn lemma_block_parses_mono(d1: nat, d2: nat, ys: Seq<CirruVal>)
    requires
        d1 <= d2,
        block_parses(d1, ys),
    ensures
        block_parses(d2, ys),
    decreases d1, 1int,
{
    lemma_lines_parse_mono((d1 - 1) as nat, (d2 - 1) as nat, ys, 2, ys.len() as int);
}

proof fn lemma_do_parses_mono(d1: nat, d2: nat, x: CirruVal)
    requires
        d1 <= d2,
        do_parses(d1, x),
    ensures
        do_parses(d2, x),
    decreases d1, 2int,
{
    match x {
        CirruVal::Leaf(_) => {},
        CirruVal::List(ys) => {
            lemma_lines_parse_mono((d1 - 1) as nat, (d2 - 1) as nat, ys, 1, ys.len() as int);
        },
    }
}

proof fn lemma_if_parses_mono(d1: nat, d2: nat, ys: Seq<CirruVal>)
    requires
        d1 <= d2,
        if_parses(d1, ys),
    ensures
        if_parses(d2, ys),
    decreases d1, 3int,
{
    lemma_do_parses_mono(d1, d2, ys[2]);
    if ys.len() == 4 {
        lemma_do_parses_mono(d1, d2, ys[3]);
    }
}


/// Marks one decomposition of a conditional's produced syntax: the else
/// segment, the then segment, and the locals table between them.
pub open spec fn if_form_parts(
    e_out: Seq<CalxSyntax>,
    t_out: Seq<CalxSyntax>,
    locm: Seq<Seq<char>>,
) -> bool {
    true
}

/// The syntax a run of flattened pieces produces: `out` splits into one
/// segment per piece, each segment being an output `parse_instr`'s
/// contract allows for that piece, with the pointer base advancing by
/// each segment's length and the table of locals threading through.
pub open spec fn pieces_form(
    ptr_base: int,
    pieces: Seq<CirruVal>,
    i: int,
    hi: int,
    loc0: Seq<Seq<char>>,
    out: Seq<CalxSyntax>,
    loc1: Seq<Seq<char>>,
) -> bool
    decreases hi - i,
{
    if !(0 <= i < hi && hi <= pieces.len()) {
        out.len() == 0 && loc1 == loc0
    } else {
        exists|seg: Vec<CalxSyntax>, locm: Seq<Seq<char>>|
            {
                &&& #[trigger] parse_instr_post(ptr_base, pieces[i], loc0, Ok(seg), locm)
                &&& seg@.len() <= out.len()
                &&& out.take(seg@.len() as int) == seg@
                &&& pieces_form(
                    ptr_base + seg@.len(),
                    pieces,
                    i + 1,
                    hi,
                    locm,
                    out.skip(seg@.len() as int),
                    loc1,
                )
            }
    }
}

/// The syntax a run of body lines produces: each line flattens, its
/// pieces produce one segment of `out`, the segments concatenated in
/// order, the pointer base and the table of locals threading through.
pub open spec fn lines_form(
    ptr_base: int,
    lines: Seq<CirruVal>,
    i: int,
    hi: int,
    loc0: Seq<Seq<char>>,
    out: Seq<CalxSyntax>,
    loc1: Seq<Seq<char>>,
) -> bool
    decreases hi - i,
{
    if !(0 <= i < hi && hi <= lines.len()) {
        out.len() == 0 && loc1 == loc0
    } else {
        match extract_spec(lines[i]) {
            Err(()) => false,
            Ok(pieces) => exists|cut: int, locm: Seq<Seq<char>>|
                {
                    &&& 0 <= cut <= out.len()
                    &&& #[trigger] pieces_form(
                        ptr_base,
                        pieces,
                        0,
                        pieces.len() as int,
                        loc0,
                        out.take(cut),
                        locm,
                    )
                    &&& lines_form(ptr_base + cut, lines, i + 1, hi, locm, out.skip(cut), loc1)
                },
        }
    }
}

/// Growing a run of pieces by one more piece grows what it forms by that
/// piece's segment.
proof fn lemma_pieces_form_snoc(
    ptr_base: int,
    pieces: Seq<CirruVal>,
    i: int,
    hi: int,
    loc0: Seq<Seq<char>>,
    out1: Seq<CalxSyntax>,
    locm: Seq<Seq<char>>,
    seg: Vec<CalxSyntax>,
    loc1: Seq<Seq<char>>,
)
    requires
        0 <= i <= hi < pieces.len(),
        pieces_form(ptr_base, pieces, i, hi, loc0, out1, locm),
        parse_instr_post(ptr_base + out1.len(), pieces[hi], locm, Ok(seg), loc1),
    ensures
        pieces_form(ptr_base, pieces, i, hi + 1, loc0, out1 + seg@, loc1),
    decreases hi - i,
{
    let out = out1 + seg@;
    if i == hi {
        assert(out1.len() == 0 && locm == loc0);
        assert(out.take(seg@.len() as int) =~= seg@);
        assert(out.skip(seg@.len() as int) =~= Seq::<CalxSyntax>::empty());
        assert(pieces_form(
            ptr_base + seg@.len(),
            pieces,
            i + 1,
            hi + 1,
            loc1,
            out.skip(seg@.len() as int),
            loc1,
        ));
        assert(pieces_form(ptr_base, pieces, i, hi + 1, loc0, out, loc1));
    } else {
        let (seg0, locm0): (Vec<CalxSyntax>, Seq<Seq<char>>) = choose|
            seg0: Vec<CalxSyntax>,
            locm0: Seq<Seq<char>>,
        |
            {
                &&& #[trigger] parse_instr_post(ptr_base, pieces[i], loc0, Ok(seg0), locm0)
                &&& seg0@.len() <= out1.len()
                &&& out1.take(seg0@.len() as int) == seg0@
                &&& pieces_form(
                    ptr_base + seg0@.len(),
                    pieces,
                    i + 1,
                    hi,
                    locm0,
                    out1.skip(seg0@.len() as int),
                    locm,
                )
            };
        let c = seg0@.len() as int;
        assert(out1.skip(c).len() == out1.len() - c);
        lemma_pieces_form_snoc(
            ptr_base + c,
            pieces,
            i + 1,
            hi,
            locm0,
            out1.skip(c),
            locm,
            seg,
            loc1,
        );
        assert(out.take(c) =~= out1.take(c));
        assert(out.skip(c) =~= out1.skip(c) + seg@);
        assert(pieces_form(ptr_base, pieces, i, hi + 1, loc0, out, loc1));
    }
}

/// Growing a run of lines by one more line grows what it forms by that
/// line's segment.
proof fn lemma_lines_form_snoc(
    ptr_base: int,
    lines: Seq<CirruVal>,
    i: int,
    hi: int,
    loc0: Seq<Seq<char>>,
    out1: Seq<CalxSyntax>,
    locm: Seq<Seq<char>>,
    pieces: Seq<CirruVal>,
    out2: Seq<CalxSyntax>,
    loc1: Seq<Seq<char>>,
)
    requires
        0 <= i <= hi < lines.len(),
        lines_form(ptr_base, lines, i, hi, loc0, out1, locm),
        extract_spec(lines[hi]) == Ok::<_, ()>(pieces),
        pieces_form(
            ptr_base + out1.len(),
            pieces,
            0,
            pieces.len() as int,
            locm,
            out2,
            loc1,
        ),
    ensures
        lines_form(ptr_base, lines, i, hi + 1, loc0, out1 + out2, loc1),
    decreases hi - i,
{
    let out = out1 + out2;
    if i == hi {
        assert(out1.len() == 0 && locm == loc0);
        assert(out.take(out2.len() as int) =~= out2);
        assert(out.skip(out2.len() as int) =~= Seq::<CalxSyntax>::empty());
        assert(pieces_form(
            ptr_base,
            pieces,
            0,
            pieces.len() as int,
            loc0,
            out.take(out2.len() as int),
            loc1,
        ));
        assert(lines_form(
            ptr_base + (out2.len() as int),
            lines,
            i + 1,
            hi + 1,
            loc1,
            out.skip(out2.len() as int),
            loc1,
        ));
        assert(exists|cut: int, locm2: Seq<Seq<char>>|
            {
                &&& 0 <= cut <= out.len()
                &&& #[trigger] pieces_form(
                    ptr_base,
                    pieces,
                    0,
                    pieces.len() as int,
                    loc0,
                    out.take(cut),
                    locm2,
                )
                &&& lines_form(ptr_base + cut, lines, i + 1, hi + 1, locm2, out.skip(cut), loc1)
            });
        assert(lines_form(ptr_base, lines, i, hi + 1, loc0, out, loc1));
    } else {
        match extract_spec(lines[i]) {
            Err(()) => {},
            Ok(pieces0) => {
                let (cut0, locm0): (int, Seq<Seq<char>>) = choose|cut0: int, locm0: Seq<Seq<char>>|
                    {
                        &&& 0 <= cut0 <= out1.len()
                        &&& #[trigger] pieces_form(
                            ptr_base,
                            pieces0,
                            0,
                            pieces0.len() as int,
                            loc0,
                            out1.take(cut0),
                            locm0,
                        )
                        &&& lines_form(
                            ptr_base + cut0,
                            lines,
                            i + 1,
                            hi,
                            locm0,
                            out1.skip(cut0),
                            locm,
                        )
                    };
                assert(out1.skip(cut0).len() == out1.len() - cut0);
                lemma_lines_form_snoc(
                    ptr_base + cut0,
                    lines,
                    i + 1,
                    hi,
                    locm0,
                    out1.skip(cut0),
                    locm,
                    pieces,
                    out2,
                    loc1,
                );
                assert(out.take(cut0) =~= out1.take(cut0));
                assert(out.skip(cut0) =~= out1.skip(cut0) + out2);
                assert(lines_form(ptr_base, lines, i, hi + 1, loc0, out, loc1));
            },
        }
    }
}

} // verus!
