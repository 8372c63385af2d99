//! The surface tree the assembler consumes — leaves and lists — and the
//! expression flattener that lifts nested prefix calls into straight
//! postfix order.
use vstd::prelude::*;
use vstd::string::*;
use std::rc::Rc;

use crate::host::rc_dup;

verus! {

/// One node of the surface syntax: a word, or a parenthesized list.
#[derive(Debug, PartialEq)]
pub enum Cirru {
    Leaf(String),
    List(Rc<Vec<Cirru>>),
}

/// The mathematical shape of a surface node.
pub enum CirruVal {
    Leaf(Seq<char>),
    List(Seq<CirruVal>),
}

/// The shape of a node.
pub open spec fn cirru_view(x: Cirru) -> CirruVal
    decreases x, 1int,
{
    match x {
        Cirru::Leaf(s) => CirruVal::Leaf(s@),
        Cirru::List(ys) => CirruVal::List(cirru_views(ys@, 0)),
    }
}

/// The shapes of the nodes of a sequence, from position `i` on.
pub open spec fn cirru_views(s: Seq<Cirru>, i: int) -> Seq<CirruVal>
    decreases s, s.len() - i + 1int,
{
    if 0 <= i < s.len() {
        seq![cirru_view(s[i])] + cirru_views(s, i + 1)
    } else {
        Seq::empty()
    }
}

/// `cirru_views(s, i)` lists the views of `s[i..]`, in order.
pub proof fn lemma_cirru_views(s: Seq<Cirru>, i: int)
    requires
        0 <= i <= s.len(),
    ensures
        cirru_views(s, i).len() == s.len() - i,
        forall|j: int| i <= j < s.len() ==> cirru_views(s, i)[j - i] == cirru_view(s[j]),
    decreases s.len() - i,
{
    if i < s.len() {
        lemma_cirru_views(s, i + 1);
    }
}

impl View for Cirru {
    type V = CirruVal;

    open spec fn view(&self) -> CirruVal {
        cirru_view(*self)
    }
}

/// The views of a whole sequence of nodes.
pub open spec fn view_seq(s: Seq<Cirru>) -> Seq<CirruVal> {
    cirru_views(s, 0)
}

impl Cirru {
    /// A leaf holding this word.
    pub fn leaf(s: &str) -> (r: Cirru)
        ensures
            r@ == CirruVal::Leaf(s@),
    {
        Cirru::Leaf(String::from_str(s))
    }

    /// A list holding these nodes.
    pub fn list(xs: Vec<Cirru>) -> (r: Cirru)
        ensures
            r@ == CirruVal::List(view_seq(xs@)),
    {
        Cirru::List(Rc::new(xs))
    }

    /// A copy of the node: a leaf copies its text, a list is shared.
    pub fn dup(&self) -> (r: Cirru)
        ensures
            r == *self,
    {
        match self {
            Cirru::Leaf(s) => Cirru::Leaf(s.clone()),
            Cirru::List(ys) => Cirru::List(rc_dup(ys)),
        }
    }
}

/// The structured heads whose expressions the flattener keeps whole.
pub open spec fn is_struct_head(s: Seq<char>) -> bool {
    s == "block"@ || s == "loop"@ || s == "if"@ || s == "do"@
}

/// What the flattener gathers from the children of an expression, from
/// position `i` on: the expressions lifted out in front, and the leaves
/// kept inline.
pub open spec fn extract_kids(s: Seq<CirruVal>, i: int) -> Result<
    (Seq<CirruVal>, Seq<CirruVal>),
    (),
>
    decreases s, s.len() - i + 1int,
{
    if !(0 <= i < s.len()) {
        Ok((Seq::empty(), Seq::empty()))
    } else {
        match s[i] {
            CirruVal::Leaf(_) => match extract_kids(s, i + 1) {
                Ok((pre, kept)) => Ok((pre, seq![s[i]] + kept)),
                Err(()) => Err(()),
            },
            CirruVal::List(_) => match extract_spec(s[i]) {
                Ok(lifted) => match extract_kids(s, i + 1) {
                    Ok((pre, kept)) => Ok((lifted + pre, kept)),
                    Err(()) => Err(()),
                },
                Err(()) => Err(()),
            },
        }
    }
}

/// What the flattener produces for one expression: an ordered sequence of
/// top-level expressions whose evaluation is equivalent to the prefix
/// form. A leaf alone is refused; a list must be led by a leaf; an
/// expression led by a structured head is kept whole; otherwise the list
/// children are flattened and lifted in front, and the head with the kept
/// leaves comes last.
pub open spec fn extract_spec(x: CirruVal) -> Result<Seq<CirruVal>, ()>
    decreases x, 2int,
{
    match x {
        CirruVal::Leaf(_) => Err(()),
        CirruVal::List(ys) => {
            if ys.len() == 0 {
                Err(())
            } else {
                match ys[0] {
                    CirruVal::List(_) => Err(()),
                    CirruVal::Leaf(h) => if is_struct_head(h) {
                        Ok(seq![x])
                    } else {
                        match extract_kids(ys, 1) {
                            Ok((pre, kept)) => Ok(pre.push(CirruVal::List(seq![ys[0]] + kept))),
                            Err(()) => Err(()),
                        }
                    },
                }
            }
        },
    }
}

/// The views of a sequence of nodes, element by element.
pub proof fn lemma_view_seq(s: Seq<Cirru>)
    ensures
        view_seq(s).len() == s.len(),
        forall|j: int| 0 <= j < s.len() ==> view_seq(s)[j] == cirru_view(s[j]),
{
    lemma_cirru_views(s, 0);
    assert forall|j: int| 0 <= j < s.len() implies view_seq(s)[j] == cirru_view(s[j]) by {
        assert(cirru_views(s, 0)[j - 0] == cirru_view(s[j]));
    }
}

/// The views of a pushed sequence are the views, with the view pushed.
pub proof fn lemma_view_seq_push(s: Seq<Cirru>, c: Cirru)
    ensures
        view_seq(s.push(c)) == view_seq(s).push(cirru_view(c)),
{
    lemma_view_seq(s);
    lemma_view_seq(s.push(c));
    assert(view_seq(s.push(c)) =~= view_seq(s).push(cirru_view(c)));
}

/// The views of joined sequences are the joined views.
pub proof fn lemma_view_seq_add(a: Seq<Cirru>, b: Seq<Cirru>)
    ensures
        view_seq(a + b) == view_seq(a) + view_seq(b),
{
    lemma_view_seq(a);
    lemma_view_seq(b);
    lemma_view_seq(a + b);
    assert(view_seq(a + b) =~= view_seq(a) + view_seq(b));
}

/// The size of a node: the count of leaves and lists in it.
pub open spec fn cv_size(x: CirruVal) -> nat
    decreases x, 1int,
{
    match x {
        CirruVal::Leaf(_) => 1,
        CirruVal::List(ys) => 1 + cv_list_size(ys, 0),
    }
}

/// The joint size of the nodes of a sequence, from position `i` on.
pub open spec fn cv_list_size(s: Seq<CirruVal>, i: int) -> nat
    decreases s, s.len() - i + 1int,
{
    if 0 <= i < s.len() {
        cv_size(s[i]) + cv_list_size(s, i + 1)
    } else {
        0
    }
}

/// Each node of a sequence weighs no more than the whole tail it sits in.
pub proof fn lemma_cv_list_elem(s: Seq<CirruVal>, i: int, j: int)
    requires
        0 <= i <= j < s.len(),
    ensures
        cv_size(s[j]) <= cv_list_size(s, i),
    decreases j - i,
{
    if i < j {
        lemma_cv_list_elem(s, i + 1, j);
    }
}

/// The joint size from a later position is no more than from an earlier one.
pub proof fn lemma_cv_list_mono(s: Seq<CirruVal>, i: int, j: int)
    requires
        0 <= i <= j,
    ensures
        cv_list_size(s, j) <= cv_list_size(s, i),
    decreases j - i,
{
    if i < j {
        lemma_cv_list_mono(s, i + 1, j);
    }
}

/// Sizes of a tail agree with the tail taken on its own.
pub proof fn lemma_cv_list_shift(a: Seq<CirruVal>, b: Seq<CirruVal>, i: int)
    requires
        0 <= i <= b.len(),
    ensures
        cv_list_size(a + b, a.len() + i) == cv_list_size(b, i),
    decreases b.len() - i,
{
    if i < b.len() {
        assert((a + b)[a.len() + i] == b[i]);
        lemma_cv_list_shift(a, b, i + 1);
    }
}

/// The size of a sequence led by one node splits off that node's size.
pub proof fn lemma_cv_cons(x: CirruVal, k: Seq<CirruVal>)
    ensures
        cv_list_size(seq![x] + k, 0) == cv_size(x) + cv_list_size(k, 0),
{
    assert((seq![x] + k)[0] == x);
    lemma_cv_list_shift(seq![x], k, 0);
}

/// What the flattener gathers from children weighs no more than the
/// children: each lifted expression fits within the tail it came from,
/// and so does the joint weight of the kept leaves.
proof fn lemma_kids_size(s: Seq<CirruVal>, i: int)
    ensures
        extract_kids(s, i) matches Ok(r) ==> ({
            &&& forall|j: int|
                0 <= j < r.0.len() ==> #[trigger] cv_size(r.0[j]) <= cv_list_size(s, i)
            &&& cv_list_size(r.1, 0) <= cv_list_size(s, i)
        }),
    decreases s, s.len() - i + 1int,
{
    if 0 <= i < s.len() {
        lemma_kids_size(s, i + 1);
        match s[i] {
            CirruVal::Leaf(_) => {
                match extract_kids(s, i + 1) {
                    Ok((pre, kept)) => {
                        lemma_cv_cons(s[i], kept);
                    },
                    Err(()) => {},
                }
            },
            CirruVal::List(_) => {
                lemma_extract_size(s[i]);
                match extract_spec(s[i]) {
                    Ok(lifted) => {
                        match extract_kids(s, i + 1) {
                            Ok((pre, kept)) => {
                                assert forall|j: int| 0 <= j < (lifted + pre).len() implies #[trigger] cv_size(
                                    (lifted + pre)[j],
                                ) <= cv_list_size(s, i) by {
                                    if j < lifted.len() {
                                        assert((lifted + pre)[j] == lifted[j]);
                                    } else {
                                        assert((lifted + pre)[j] == pre[j - lifted.len()]);
                                    }
                                }
                            },
                            Err(()) => {},
                        }
                    },
                    Err(()) => {},
                }
            },
        }
    }
}

/// What the flattener produces weighs no more than what it was given:
/// each produced expression fits within the original.
pub proof fn lemma_extract_size(x: CirruVal)
    ensures
        extract_spec(x) matches Ok(r) ==> forall|j: int|
            0 <= j < r.len() ==> #[trigger] cv_size(r[j]) <= cv_size(x),
    decreases x, 2int,
{
    match x {
        CirruVal::Leaf(_) => {},
        CirruVal::List(ys) => {
            if ys.len() > 0 {
                match ys[0] {
                    CirruVal::List(_) => {},
                    CirruVal::Leaf(h) => {
                        if !is_struct_head(h) {
                            lemma_kids_size(ys, 1);
                            match extract_kids(ys, 1) {
                                Ok((pre, kept)) => {
                                    let chunk = CirruVal::List(seq![ys[0]] + kept);
                                    lemma_cv_cons(ys[0], kept);
                                    assert(cv_list_size(ys, 0) == cv_size(ys[0]) + cv_list_size(
                                        ys,
                                        1,
                                    ));
                                    assert(cv_size(chunk) <= cv_size(x));
                                    assert forall|j: int| 0 <= j < pre.push(chunk).len() implies #[trigger] cv_size(
                                        pre.push(chunk)[j],
                                    ) <= cv_size(x) by {
                                        if j < pre.len() {
                                            assert(pre.push(chunk)[j] == pre[j]);
                                            assert(cv_size(pre[j]) <= cv_list_size(ys, 1));
                                        } else {
                                            assert(pre.push(chunk)[j] == chunk);
                                        }
                                    }
                                },
                                Err(()) => {},
                            }
                        }
                    },
                }
            }
        },
    }
}

/// A list whose children from position `i` on are all leaves has nothing
/// to lift: the leaves are kept, in order.
proof fn lemma_kids_all_leaves(s: Seq<CirruVal>, i: int)
    requires
        0 <= i,
        forall|j: int| i <= j < s.len() ==> #[trigger] s[j] matches CirruVal::Leaf(_),
    ensures
        extract_kids(s, i) == Ok::<_, ()>(
            (Seq::<CirruVal>::empty(), s.skip(if i <= s.len() {
                i
            } else {
                s.len() as int
            })),
        ),
    decreases s.len() - i + 1int,
{
    if i < s.len() {
        lemma_kids_all_leaves(s, i + 1);
        assert(seq![s[i]] + s.skip(i + 1) =~= s.skip(i));
    } else {
        assert(s.skip(s.len() as int) =~= Seq::<CirruVal>::empty());
    }
}

/// A flat expression — a leaf head that is no structured head, with only
/// leaf children — flattens to itself alone: the flattener is idempotent
/// on what is already flat.
pub proof fn lemma_extract_flat_fixed(x: CirruVal)
    requires
        x matches CirruVal::List(_),
        x->List_0.len() > 0,
        x->List_0[0] matches CirruVal::Leaf(_),
        !is_struct_head(x->List_0[0]->Leaf_0),
        forall|j: int| 1 <= j < x->List_0.len() ==> #[trigger] x->List_0[j] matches CirruVal::Leaf(_),
    ensures
        extract_spec(x) == Ok::<_, ()>(seq![x]),
{
    let ys = x->List_0;
    lemma_kids_all_leaves(ys, 1);
    assert(seq![ys[0]] + ys.skip(1) =~= ys);
    assert(Seq::<CirruVal>::empty().push(CirruVal::List(seq![ys[0]] + ys.skip(1))) =~= seq![x]);
}

/// Everything the flattener lifts out of the children is itself flat:
/// each produced expression flattens to itself alone.
proof fn lemma_kids_flat(s: Seq<CirruVal>, i: int)
    ensures
        extract_kids(s, i) matches Ok(r) ==> ({
            &&& forall|j: int|
                0 <= j < r.0.len() ==> #[trigger] extract_spec(r.0[j]) == Ok::<_, ()>(
                    seq![r.0[j]],
                )
            &&& forall|j: int| 0 <= j < r.1.len() ==> #[trigger] r.1[j] matches CirruVal::Leaf(_)
        }),
    decreases s, s.len() - i + 1int,
{
    if 0 <= i < s.len() {
        lemma_kids_flat(s, i + 1);
        match s[i] {
            CirruVal::Leaf(_) => {},
            CirruVal::List(_) => {
                lemma_extract_flat(s[i]);
            },
        }
    }
}

/// Every expression the flattener produces is already flat: running the
/// flattener again on any produced expression returns it alone, so the
/// flattener is idempotent.
pub proof fn lemma_extract_flat(x: CirruVal)
    ensures
        extract_spec(x) matches Ok(r) ==> forall|j: int|
            0 <= j < r.len() ==> #[trigger] extract_spec(r[j]) == Ok::<_, ()>(seq![r[j]]),
    decreases x, 2int,
{
    match x {
        CirruVal::Leaf(_) => {},
        CirruVal::List(ys) => {
            if ys.len() > 0 {
                match ys[0] {
                    CirruVal::List(_) => {},
                    CirruVal::Leaf(h) => {
                        if is_struct_head(h) {
                            assert(extract_spec(x) == Ok::<_, ()>(seq![x]));
                        } else {
                            lemma_kids_flat(ys, 1);
                            match extract_kids(ys, 1) {
                                Ok((pre, kept)) => {
                                    let chunk = CirruVal::List(seq![ys[0]] + kept);
                                    assert forall|j: int|
                                        0 <= j < (seq![ys[0]] + kept).len() implies #[trigger] (
                                    seq![ys[0]] + kept)[j] matches CirruVal::Leaf(_) by {
                                        if j >= 1 {
                                            assert((seq![ys[0]] + kept)[j] == kept[j - 1]);
                                        }
                                    }
                                    lemma_extract_flat_fixed(chunk);
                                    assert forall|j: int|
                                        0 <= j < pre.push(chunk).len() implies #[trigger] extract_spec(
                                        pre.push(chunk)[j],
                                    ) == Ok::<_, ()>(seq![pre.push(chunk)[j]]) by {
                                        if j < pre.len() {
                                            assert(pre.push(chunk)[j] == pre[j]);
                                            assert(extract_spec(pre[j]) == Ok::<_, ()>(
                                                seq![pre[j]],
                                            ));
                                        } else {
                                            assert(pre.push(chunk)[j] == chunk);
                                        }
                                    }
                                },
                                Err(()) => {},
                            }
                        }
                    },
                }
            }
        },
    }
}

/// Flattens one surface expression: nested calls are lifted out in front,
/// in evaluation order, so their results sit on the stack for the outer
/// instruction; `block`, `loop`, `if` and `do` forms are kept whole.
pub fn extract_nested(xs: &Cirru) -> (r: Result<Vec<Cirru>, String>)
    ensures
        r matches Ok(v) ==> extract_spec(xs@) == Ok::<_, ()>(view_seq(v@)),
        r is Err <==> extract_spec(xs@) is Err,
    decreases xs@,
{
    match xs {
        Cirru::Leaf(_) => Err(String::from_str("not extracting leaf")),
        Cirru::List(ys) => {
            let ysv: &Vec<Cirru> = &**ys;
            let n = ysv.len();
            let ghost gys = view_seq(ysv@);
            proof {
                lemma_view_seq(ysv@);
                assert(xs@ == CirruVal::List(gys));
            }
            if n == 0 {
                return Err(String::from_str("unexpected empty expression"));
            }
            match &ysv[0] {
                Cirru::List(_) => Err(String::from_str("unexpected nested instruction name")),
                Cirru::Leaf(h) => {
                    if crate::text::str_eq(h.as_str(), "block") || crate::text::str_eq(
                        h.as_str(),
                        "loop",
                    ) || crate::text::str_eq(h.as_str(), "if") || crate::text::str_eq(
                        h.as_str(),
                        "do",
                    ) {
                        let mut out: Vec<Cirru> = Vec::new();
                        out.push(xs.dup());
                        proof {
                            lemma_view_seq(out@);
                            assert(view_seq(out@) =~= seq![xs@]);
                        }
                        return Ok(out);
                    }
                    let mut pre: Vec<Cirru> = Vec::new();
                    let mut kept: Vec<Cirru> = Vec::new();
                    kept.push(Cirru::Leaf(h.clone()));
                    proof {
                        lemma_view_seq(kept@);
                        assert(view_seq(kept@).skip(1) =~= Seq::<CirruVal>::empty());
                    }
                    let mut i: usize = 1;
                    while i < n
                        invariant
                            1 <= i <= n,
                            n == ysv@.len(),
                            gys == view_seq(ysv@),
                            gys.len() == n,
                            forall|j: int| 0 <= j < n ==> gys[j] == cirru_view(ysv@[j]),
                            kept@.len() >= 1,
                            kept@[0] == ysv@[0],
                            gys[0] == cirru_view(ysv@[0]),
                            ysv@[0] matches Cirru::Leaf(hh) && !is_struct_head(hh@),
                            xs@ == CirruVal::List(gys),
                            extract_kids(gys, i as int) matches Ok(rest) ==> ({
                                &&& extract_kids(gys, 1) matches Ok(whole)
                                &&& whole.0 == view_seq(pre@) + rest.0
                                &&& whole.1 == view_seq(kept@).skip(1) + rest.1
                            }),
                            extract_kids(gys, i as int) is Err ==> extract_kids(gys, 1) is Err,
                        decreases n - i,
                    {
                        let child = &ysv[i];
                        proof {
                            assert(decreases_to!(gys => gys[i as int]));
                            assert(decreases_to!(xs@ => gys));
                            assert(child@ == gys[i as int]);
                        }
                        match child {
                            Cirru::Leaf(_) => {
                                let ghost kept0 = kept@;
                                kept.push(child.dup());
                                proof {
                                    lemma_view_seq_push(kept0, ysv@[i as int]);
                                    match extract_kids(gys, i + 1) {
                                        Ok(rest) => {
                                            assert(extract_kids(gys, i as int) == Ok::<_, ()>(
                                                (rest.0, seq![gys[i as int]] + rest.1),
                                            ));
                                            assert(view_seq(kept@).skip(1) + rest.1 =~= view_seq(
                                                kept0,
                                            ).skip(1) + (seq![gys[i as int]] + rest.1));
                                        },
                                        Err(()) => {},
                                    }
                                }
                            },
                            Cirru::List(_) => {
                                match extract_nested(child) {
                                    Ok(mut sub) => {
                                        let ghost pre0 = pre@;
                                        let ghost subv = sub@;
                                        pre.append(&mut sub);
                                        proof {
                                            lemma_view_seq_add(pre0, subv);
                                            assert(pre@ == pre0 + subv);
                                            match extract_kids(gys, i + 1) {
                                                Ok(rest) => {
                                                    assert(extract_kids(gys, i as int) == Ok::<
                                                        _,
                                                        (),
                                                    >((view_seq(subv) + rest.0, rest.1)));
                                                    assert(view_seq(pre@) + rest.0 =~= view_seq(
                                                        pre0,
                                                    ) + (view_seq(subv) + rest.0));
                                                },
                                                Err(()) => {},
                                            }
                                        }
                                    },
                                    Err(e) => {
                                        proof {
                                            assert(extract_kids(gys, i as int) is Err);
                                        }
                                        return Err(e);
                                    },
                                }
                            },
                        }
                        i += 1;
                    }
                    proof {
                        assert(extract_kids(gys, i as int) == Ok::<_, ()>(
                            (Seq::<CirruVal>::empty(), Seq::<CirruVal>::empty()),
                        ));
                        match extract_kids(gys, 1) {
                            Ok(whole) => {
                                assert(whole.0 =~= view_seq(pre@));
                                assert(whole.1 =~= view_seq(kept@).skip(1));
                            },
                            Err(()) => {},
                        }
                    }
                    let ghost pre0 = pre@;
                    let ghost keptv = kept@;
                    let chunk = Cirru::List(Rc::new(kept));
                    let ghost gchunk = chunk;
                    pre.push(chunk);
                    proof {
                        lemma_view_seq(keptv);
                        lemma_view_seq_push(pre0, gchunk);
                        assert(cirru_view(gchunk) == CirruVal::List(view_seq(keptv)));
                        assert(seq![gys[0]] + view_seq(keptv).skip(1) =~= view_seq(keptv));
                        assert(extract_spec(xs@) == Ok::<_, ()>(view_seq(pre@)));
                    }
                    Ok(pre)
                },
            }
        },
    }
}

} // verus!
