//! The tagged value model: runtime values, their type tags, truthiness,
//! and reading a value from literal text.
use vstd::prelude::*;
use vstd::string::*;
use std::rc::Rc;

use crate::host::{match_float_text, match_int_text, rc_dup, FloatHost};
use crate::text::{is_float_text, is_int_text, int_text_value, lemma_float_not_int, lemma_text_not_numeric, parse_i64_text};

verus! {

/// The type tags of runtime values; `(i64 -> i64)` style signatures of
/// functions and blocks are sequences of these.
#[derive(Debug, Clone, Copy, PartialEq, Eq, Structural)]
pub enum CalxType {
    Nil,
    Bool,
    I64,
    F64,
    Str,
    List,
    /// Declared for linked structures; no value of this type is ever made.
    Link,
}

/// The type tag a type name denotes, if any.
pub open spec fn type_of_name(s: Seq<char>) -> Option<CalxType> {
    if s == "nil"@ {
        Some(CalxType::Nil)
    } else if s == "bool"@ {
        Some(CalxType::Bool)
    } else if s == "i64"@ {
        Some(CalxType::I64)
    } else if s == "f64"@ {
        Some(CalxType::F64)
    } else if s == "str"@ {
        Some(CalxType::Str)
    } else if s == "list"@ {
        Some(CalxType::List)
    } else if s == "link"@ {
        Some(CalxType::Link)
    } else {
        None
    }
}

impl CalxType {
    /// Reads a type tag from its name.
    pub fn from_str(s: &str) -> (r: Result<CalxType, String>)
        ensures
            type_of_name(s@) matches Some(t) ==> r == Ok::<CalxType, String>(t),
            type_of_name(s@) is None ==> r is Err,
    {
        if crate::text::str_eq(s, "nil") {
            Ok(CalxType::Nil)
        } else if crate::text::str_eq(s, "bool") {
            Ok(CalxType::Bool)
        } else if crate::text::str_eq(s, "i64") {
            Ok(CalxType::I64)
        } else if crate::text::str_eq(s, "f64") {
            Ok(CalxType::F64)
        } else if crate::text::str_eq(s, "str") {
            Ok(CalxType::Str)
        } else if crate::text::str_eq(s, "list") {
            Ok(CalxType::List)
        } else if crate::text::str_eq(s, "link") {
            Ok(CalxType::Link)
        } else {
            let mut m = String::from_str("unknown type: ");
            m.append(s);
            Err(m)
        }
    }
}

/// A runtime value: a tagged sum of the inline scalars and the owned
/// aggregates. A float is carried as the bit pattern of its IEEE-754
/// binary64 encoding; only the host computes with it.
#[derive(Debug, PartialEq)]
pub enum Calx {
    Nil,
    Bool(bool),
    I64(i64),
    F64(u64),
    Str(Rc<String>),
    List(Rc<Vec<Calx>>),
}

/// The type tag of a value.
pub open spec fn spec_type_of(v: Calx) -> CalxType {
    match v {
        Calx::Nil => CalxType::Nil,
        Calx::Bool(_) => CalxType::Bool,
        Calx::I64(_) => CalxType::I64,
        Calx::F64(_) => CalxType::F64,
        Calx::Str(_) => CalxType::Str,
        Calx::List(_) => CalxType::List,
    }
}

/// Truthiness: a true boolean, a nonzero integer, or a nonzero float.
/// The only two bit patterns whose float value equals zero are the two
/// zero encodings, so the float case is a plain test on the bits.
pub open spec fn spec_truthy(v: Calx) -> bool {
    match v {
        Calx::Nil => false,
        Calx::Bool(b) => b,
        Calx::I64(n) => n != 0,
        Calx::F64(bits) => !(bits == 0 || bits == 0x8000_0000_0000_0000u64),
        Calx::Str(_) => false,
        Calx::List(_) => false,
    }
}

impl Calx {
    /// Runtime type check: whether the value carries this type tag.
    pub fn typed_as(&self, t: CalxType) -> (r: bool)
        ensures
            r == (spec_type_of(*self) == t),
    {
        match self {
            Calx::Nil => t == CalxType::Nil,
            Calx::Bool(_) => t == CalxType::Bool,
            Calx::I64(_) => t == CalxType::I64,
            Calx::F64(_) => t == CalxType::F64,
            Calx::Str(_) => t == CalxType::Str,
            Calx::List(_) => t == CalxType::List,
        }
    }

    /// Whether the value counts as true where a condition is expected.
    pub fn truthy(&self) -> (r: bool)
        ensures
            r == spec_truthy(*self),
    {
        match self {
            Calx::Nil => false,
            Calx::Bool(b) => *b,
            Calx::I64(n) => *n != 0,
            Calx::F64(bits) => !(*bits == 0 || *bits == 0x8000_0000_0000_0000u64),
            Calx::Str(_) => false,
            Calx::List(_) => false,
        }
    }

    /// A copy of the value: scalars are copied, aggregates are shared.
    pub fn dup(&self) -> (r: Calx)
        ensures
            r == *self,
    {
        match self {
            Calx::Nil => Calx::Nil,
            Calx::Bool(b) => Calx::Bool(*b),
            Calx::I64(n) => Calx::I64(*n),
            Calx::F64(bits) => Calx::F64(*bits),
            Calx::Str(s) => Calx::Str(rc_dup(s)),
            Calx::List(xs) => Calx::List(rc_dup(xs)),
        }
    }
}

/// Whether literal text denotes a value: one of the named constants, a
/// string literal, a float literal, or an integer literal that fits.
pub open spec fn is_value_text(s: Seq<char>) -> bool {
    ||| s == "nil"@
    ||| s == "true"@
    ||| s == "false"@
    ||| (s.len() > 0 && (s[0] == '|' || s[0] == ':'))
    ||| is_float_text(s)
    ||| (is_int_text(s) && i64::MIN <= int_text_value(s) <= i64::MAX)
}

/// Whether literal text denotes exactly this value.
pub open spec fn value_text_denotes(s: Seq<char>, v: Calx) -> bool {
    ||| (s == "nil"@ && v == Calx::Nil)
    ||| (s == "true"@ && v == Calx::Bool(true))
    ||| (s == "false"@ && v == Calx::Bool(false))
    ||| (s.len() > 0 && (s[0] == '|' || s[0] == ':') && (v matches Calx::Str(t) && t@ == s.skip(
        1,
    )))
    ||| (is_float_text(s) && v matches Calx::F64(_))
    ||| (is_int_text(s) && i64::MIN <= int_text_value(s) <= i64::MAX && (v matches Calx::I64(x)
        && x as int == int_text_value(s)))
}

/// Reads a value from literal text: `nil`, `true`, `false`, a string
/// literal led by `|` or `:` (the lead stripped), a float literal, or an
/// integer literal. Anything else, and an integer that does not fit in a
/// signed 64-bit word, is refused.
pub fn parse_value<H: FloatHost>(s: &str, fh: &H) -> (r: Result<Calx, String>)
    ensures
        r is Ok <==> is_value_text(s@),
        r matches Ok(v) ==> value_text_denotes(s@, v),
        s@ == "nil"@ ==> r == Ok::<Calx, String>(Calx::Nil),
        s@ == "true"@ ==> r == Ok::<Calx, String>(Calx::Bool(true)),
        s@ == "false"@ ==> r == Ok::<Calx, String>(Calx::Bool(false)),
        s@.len() > 0 && (s@[0] == '|' || s@[0] == ':') ==> ({
            &&& r matches Ok(v)
            &&& v matches Calx::Str(t)
            &&& t@ == s@.skip(1)
        }),
        is_float_text(s@) ==> ({
            &&& r matches Ok(v)
            &&& v matches Calx::F64(_)
        }),
        is_int_text(s@) && i64::MIN <= int_text_value(s@) <= i64::MAX ==> ({
            &&& r matches Ok(v)
            &&& v matches Calx::I64(x)
            &&& x as int == int_text_value(s@)
        }),
{
    proof {
        reveal_strlit("nil");
        reveal_strlit("true");
        reveal_strlit("false");
    }
    if crate::text::str_eq(s, "nil") {
        proof {
            lemma_text_not_numeric(s@);
        }
        return Ok(Calx::Nil);
    }
    if crate::text::str_eq(s, "true") {
        proof {
            lemma_text_not_numeric(s@);
        }
        return Ok(Calx::Bool(true));
    }
    if crate::text::str_eq(s, "false") {
        proof {
            lemma_text_not_numeric(s@);
        }
        return Ok(Calx::Bool(false));
    }
    let n = s.unicode_len();
    if n == 0 {
        proof {
            lemma_text_not_numeric(s@);
        }
        return Err(String::from_str("unknown empty string"));
    }
    let c0 = s.get_char(0);
    if c0 == '|' || c0 == ':' {
        let tail = s.substring_char(1, n);
        proof {
            assert(s@.subrange(1, n as int) =~= s@.skip(1));
            lemma_text_not_numeric(s@);
        }
        return Ok(Calx::Str(Rc::new(String::from_str(tail))));
    }
    if match_float_text(s) {
        proof {
            lemma_float_not_int(s@);
        }
        return Ok(Calx::F64(fh.from_text(s)));
    }
    if match_int_text(s) {
        match parse_i64_text(s) {
            Ok(v) => {
                return Ok(Calx::I64(v));
            },
            Err(_) => {
                return Err(String::from_str("failed to parse"));
            },
        }
    }
    let mut m = String::from_str("unknown value: ");
    m.append(s);
    Err(m)
}

/// The weight of a value: the count of scalars and aggregates in it.
pub open spec fn calx_size(v: Calx) -> nat
    decreases v, 1int,
{
    match v {
        Calx::List(xs) => 1 + calx_list_size(xs@, 0),
        _ => 1,
    }
}

/// The joint weight of the values of a sequence, from position `i` on.
pub open spec fn calx_list_size(s: Seq<Calx>, i: int) -> nat
    decreases s, s.len() - i + 1int,
{
    if 0 <= i < s.len() {
        calx_size(s[i]) + calx_list_size(s, i + 1)
    } else {
        0
    }
}

/// Each value of a sequence weighs no more than the tail it sits in.
pub proof fn lemma_calx_list_elem(s: Seq<Calx>, i: int, j: int)
    requires
        0 <= i <= j < s.len(),
    ensures
        calx_size(s[j]) <= calx_list_size(s, i),
    decreases j - i,
{
    if i < j {
        lemma_calx_list_elem(s, i + 1, j);
    }
}

/// A sequence free of floats is free of them at each position.
pub proof fn lemma_calx_list_float_free_elem(s: Seq<Calx>, i: int, j: int)
    requires
        0 <= i <= j < s.len(),
        calx_list_float_free(s, i),
    ensures
        calx_float_free(s[j]),
    decreases j - i,
{
    if i < j {
        lemma_calx_list_float_free_elem(s, i + 1, j);
    }
}

/// Whether no float hides anywhere in the value.
pub open spec fn calx_float_free(v: Calx) -> bool
    decreases v, 1int,
{
    match v {
        Calx::F64(_) => false,
        Calx::List(xs) => calx_list_float_free(xs@, 0),
        _ => true,
    }
}

/// Whether no float hides in the values of a sequence, from position `i` on.
pub open spec fn calx_list_float_free(s: Seq<Calx>, i: int) -> bool
    decreases s, s.len() - i + 1int,
{
    if 0 <= i < s.len() {
        calx_float_free(s[i]) && calx_list_float_free(s, i + 1)
    } else {
        true
    }
}

/// The display text of a value: `nil`, the boolean words, decimal digits,
/// the raw text of a string, a space-separated parenthesized form for a
/// list. The text of a float is the host's and is not modeled: the empty
/// text stands in here, and nothing is claimed of values holding floats.
pub open spec fn disp_calx(v: Calx) -> Seq<char>
    decreases v, 1int,
{
    match v {
        Calx::Nil => "nil"@,
        Calx::Bool(b) => if b {
            "true"@
        } else {
            "false"@
        },
        Calx::I64(x) => crate::text::int_digits_text(x as int),
        Calx::F64(_) => Seq::empty(),
        Calx::Str(s) => s@,
        Calx::List(xs) => seq!['('] + disp_calx_list(xs@, 0) + seq![')'],
    }
}

/// The display texts of the values of a sequence, space-separated, from
/// position `i` on.
pub open spec fn disp_calx_list(s: Seq<Calx>, i: int) -> Seq<char>
    decreases s, s.len() - i + 1int,
{
    if !(0 <= i < s.len()) {
        Seq::empty()
    } else {
        (if i > 0 {
            seq![' ']
        } else {
            Seq::<char>::empty()
        }) + disp_calx(s[i]) + disp_calx_list(s, i + 1)
    }
}

/// Renders a value as display text; floats are rendered by the host, so
/// the text is pinned down only for values free of floats.
pub fn display_value<H: FloatHost>(v: &Calx, fh: &H) -> (r: String)
    ensures
        calx_float_free(*v) ==> r@ == disp_calx(*v),
    decreases calx_size(*v),
{
    match v {
        Calx::Nil => String::from_str("nil"),
        Calx::Bool(b) => {
            if *b {
                String::from_str("true")
            } else {
                String::from_str("false")
            }
        },
        Calx::I64(x) => crate::text::i64_to_string(*x),
        Calx::F64(bits) => fh.to_text(*bits),
        Calx::Str(s) => s.as_str().to_owned(),
        Calx::List(xs) => {
            let xsv: &Vec<Calx> = &**xs;
            let n = xsv.len();
            let mut out = String::from_str("(");
            proof {
                reveal_strlit("(");
                reveal_strlit(")");
                reveal_strlit(" ");
                assert(out@ =~= seq!['(']);
            }
            let ghost whole = disp_calx_list(xsv@, 0);
            let mut i: usize = 0;
            while i < n
                invariant
                    0 <= i <= n,
                    n == xsv@.len(),
                    *v matches Calx::List(ll) && ll@ == xsv@,
                    whole == disp_calx_list(xsv@, 0),
                    calx_float_free(*v) ==> out@ + disp_calx_list(xsv@, i as int) == seq!['(']
                        + whole,
                decreases n - i,
            {
                proof {
                    lemma_calx_list_elem(xsv@, 0, i as int);
                    if calx_float_free(*v) {
                        lemma_calx_list_float_free_elem(xsv@, 0, i as int);
                    }
                }
                let ghost out0 = out@;
                if i > 0 {
                    out.append(" ");
                }
                let piece = display_value(&xsv[i], fh);
                out.append(piece.as_str());
                proof {
                    reveal_strlit(" ");
                    if calx_float_free(*v) {
                        assert(out@ + disp_calx_list(xsv@, i + 1) =~= out0 + disp_calx_list(
                            xsv@,
                            i as int,
                        ));
                    }
                }
                i += 1;
            }
            out.append(")");
            proof {
                reveal_strlit(")");
                if calx_float_free(*v) {
                    assert(disp_calx_list(xsv@, n as int) =~= Seq::<char>::empty());
                    assert(out@ =~= seq!['('] + whole + seq![')']);
                    assert(disp_calx(*v) =~= seq!['('] + whole + seq![')']);
                }
            }
            out
        },
    }
}

/// A value's display text reads back as that value: for `nil`, the
/// booleans and the integers, the text `display_value` gives is value
/// text, and the one value it denotes is the value itself. Reading the
/// display of such a value — as `parse_value` does — gives it back.
pub proof fn lemma_display_parse_round_trip(v: Calx)
    requires
        v matches Calx::Nil || v matches Calx::Bool(_) || v matches Calx::I64(_),
    ensures
        is_value_text(disp_calx(v)),
        forall|w: Calx| value_text_denotes(disp_calx(v), w) ==> w == v,
{
    reveal_strlit("nil");
    reveal_strlit("true");
    reveal_strlit("false");
    let s = disp_calx(v);
    match v {
        Calx::Nil => {
            crate::text::lemma_text_not_numeric(s);
            assert forall|w: Calx| value_text_denotes(s, w) implies w == v by {}
        },
        Calx::Bool(b) => {
            crate::text::lemma_text_not_numeric(s);
            assert forall|w: Calx| value_text_denotes(s, w) implies w == v by {}
        },
        Calx::I64(n) => {
            if n >= 0 {
                crate::text::lemma_dec_digits_all_digits(n as nat);
                crate::text::lemma_dec_digits_value(n as nat);
                assert(s == crate::text::dec_digits(n as nat));
                assert(is_int_text(s));
                assert(int_text_value(s) == n);
                assert(crate::text::is_digit_char(s[0]));
            } else {
                crate::text::lemma_dec_digits_all_digits((-n) as nat);
                crate::text::lemma_dec_digits_value((-n) as nat);
                assert(s == seq!['-'] + crate::text::dec_digits((-n) as nat));
                assert(s[0] == '-');
                assert(s.skip(1) =~= crate::text::dec_digits((-n) as nat));
                assert(is_int_text(s));
                assert(int_text_value(s) == n);
            }
            crate::text::lemma_float_not_int_back(s);
            assert(is_value_text(s));
            assert forall|w: Calx| value_text_denotes(s, w) implies w == v by {
                assert(s[0] == '-' || crate::text::is_digit_char(s[0]));
                assert(s != "nil"@) by {
                    if s == "nil"@ {
                        assert(s[0] == 'n');
                    }
                }
                assert(s != "true"@) by {
                    if s == "true"@ {
                        assert(s[0] == 't');
                    }
                }
                assert(s != "false"@) by {
                    if s == "false"@ {
                        assert(s[0] == 'f');
                    }
                }
            }
        },
        _ => {},
    }
}

} // verus!
