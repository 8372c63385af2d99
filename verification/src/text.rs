//! Plain-text helpers: the shapes of numeric literals, decimal values, and
//! verified parsing of decimal integers.
use vstd::prelude::*;
use vstd::string::*;

verus! {

/// An ASCII decimal digit.
pub open spec fn is_digit_char(c: char) -> bool {
    48 <= (c as u32) && (c as u32) <= 57
}

/// The numeric value of an ASCII decimal digit.
pub open spec fn digit_val(c: char) -> int {
    (c as u32) - 48
}

/// Every character of the text is an ASCII decimal digit.
pub open spec fn all_digits(s: Seq<char>) -> bool {
    forall|i: int| 0 <= i < s.len() ==> is_digit_char(s[i])
}

/// The value of a text of decimal digits, most significant first.
pub open spec fn dec_value(s: Seq<char>) -> int
    decreases s.len(),
{
    if s.len() <= 0 {
        0
    } else {
        10 * dec_value(s.drop_last()) + digit_val(s.last())
    }
}

/// An optional minus sign followed by one or more ASCII digits.
pub open spec fn is_int_text(s: Seq<char>) -> bool {
    if s.len() == 0 {
        false
    } else if s[0] == '-' {
        s.len() >= 2 && all_digits(s.skip(1))
    } else {
        all_digits(s)
    }
}

/// The signed value of an integer literal.
pub open spec fn int_text_value(s: Seq<char>) -> int
    recommends
        is_int_text(s),
{
    if s.len() > 0 && s[0] == '-' {
        -dec_value(s.skip(1))
    } else {
        dec_value(s)
    }
}

/// An optional plus sign followed by one or more ASCII digits, the shape
/// a nonnegative index may be written in.
pub open spec fn is_usize_text(s: Seq<char>) -> bool {
    if s.len() == 0 {
        false
    } else if s[0] == '+' {
        s.len() >= 2 && all_digits(s.skip(1))
    } else {
        all_digits(s)
    }
}

/// The value of a nonnegative index literal.
pub open spec fn usize_text_value(s: Seq<char>) -> int
    recommends
        is_usize_text(s),
{
    if s.len() > 0 && s[0] == '+' {
        dec_value(s.skip(1))
    } else {
        dec_value(s)
    }
}

/// An optional minus sign, one or more ASCII digits, a dot, and zero or
/// more ASCII digits: the shape of a float literal.
pub open spec fn is_float_text(s: Seq<char>) -> bool {
    let b = if s.len() > 0 && s[0] == '-' {
        s.skip(1)
    } else {
        s
    };
    exists|k: int|
        1 <= k < b.len() && #[trigger] b[k] == '.' && all_digits(b.take(k)) && all_digits(
            b.skip(k + 1),
        )
}

/// A text whose first character past an optional minus sign is not a
/// digit is neither an integer literal nor a float literal.
pub proof fn lemma_text_not_numeric(s: Seq<char>)
    requires
        ({
            let b = if s.len() > 0 && s[0] == '-' {
                s.skip(1)
            } else {
                s
            };
            b.len() == 0 || !is_digit_char(b[0])
        }),
    ensures
        !is_int_text(s),
        !is_float_text(s),
{
    let b = if s.len() > 0 && s[0] == '-' {
        s.skip(1)
    } else {
        s
    };
    if is_int_text(s) {
        assert(b.len() > 0);
        assert(is_digit_char(b[0]));
    }
    if is_float_text(s) {
        let k = choose|k: int|
            1 <= k < b.len() && #[trigger] b[k] == '.' && all_digits(b.take(k)) && all_digits(
                b.skip(k + 1),
            );
        assert(b.take(k)[0] == b[0]);
        assert(is_digit_char(b[0]));
    }
}

/// A float literal is not an integer literal: it holds a dot.
pub proof fn lemma_float_not_int(s: Seq<char>)
    requires
        is_float_text(s),
    ensures
        !is_int_text(s),
{
    let b = if s.len() > 0 && s[0] == '-' {
        s.skip(1)
    } else {
        s
    };
    let k = choose|k: int|
        1 <= k < b.len() && #[trigger] b[k] == '.' && all_digits(b.take(k)) && all_digits(
            b.skip(k + 1),
        );
    if is_int_text(s) {
        if s.len() > 0 && s[0] == '-' {
            assert(is_digit_char(b[k]));
        } else {
            assert(is_digit_char(b[k]));
        }
    }
}

/// An integer literal is not a float literal: it has no dot.
pub proof fn lemma_float_not_int_back(s: Seq<char>)
    requires
        is_int_text(s),
    ensures
        !is_float_text(s),
{
    if is_float_text(s) {
        lemma_float_not_int(s);
    }
}

/// A text of digits has a nonnegative value.
pub proof fn lemma_dec_value_nonneg(s: Seq<char>)
    requires
        all_digits(s),
    ensures
        dec_value(s) >= 0,
    decreases s.len(),
{
    if s.len() > 0 {
        assert forall|i: int| 0 <= i < s.drop_last().len() implies is_digit_char(
            s.drop_last()[i],
        ) by {
            assert(s.drop_last()[i] == s[i]);
        }
        lemma_dec_value_nonneg(s.drop_last());
    }
}

/// Extending a text of digits never lowers its value.
pub proof fn lemma_dec_value_grows(s: Seq<char>, k: int)
    requires
        all_digits(s),
        0 <= k <= s.len(),
    ensures
        dec_value(s.take(k)) <= dec_value(s),
    decreases s.len() - k,
{
    assert forall|j: int, i: int|
        0 <= j <= s.len() && 0 <= i < s.take(j).len() implies is_digit_char(
        #[trigger] s.take(j)[i],
    ) by {
        assert(s.take(j)[i] == s[i]);
    }
    if k == s.len() {
        assert(s.take(k) =~= s);
    } else {
        assert(s.take(k + 1).drop_last() =~= s.take(k));
        assert(s.take(k + 1).last() == s[k]);
        assert(dec_value(s.take(k + 1)) == 10 * dec_value(s.take(k)) + digit_val(s[k]));
        lemma_dec_value_nonneg(s.take(k));
        lemma_dec_value_grows(s, k + 1);
    }
}

/// Whether two texts hold the same characters.
pub fn str_eq(a: &str, b: &str) -> (r: bool)
    ensures
        r == (a@ == b@),
{
    let an = a.unicode_len();
    let bn = b.unicode_len();
    if an != bn {
        return false;
    }
    let mut i: usize = 0;
    while i < an
        invariant
            an == a@.len(),
            bn == b@.len(),
            an == bn,
            0 <= i <= an,
            forall|j: int| 0 <= j < i ==> a@[j] == b@[j],
        decreases an - i,
    {
        if a.get_char(i) != b.get_char(i) {
            return false;
        }
        i += 1;
    }
    proof {
        assert(a@ =~= b@);
    }
    true
}

/// Reads a signed 64-bit integer from an integer literal; reports failure
/// exactly when the value does not fit.
pub(crate) fn parse_i64_text(s: &str) -> (r: Result<i64, ()>)
    requires
        is_int_text(s@),
    ensures
        r matches Ok(v) ==> int_text_value(s@) == v as int,
        r is Ok <==> i64::MIN <= int_text_value(s@) <= i64::MAX,
{
    let n = s.unicode_len();
    let neg = s.get_char(0) == '-';
    let start: usize = if neg {
        1
    } else {
        0
    };
    let ghost b: Seq<char> = if neg {
        s@.skip(1)
    } else {
        s@
    };
    let bound: u64 = if neg {
        9223372036854775808
    } else {
        9223372036854775807
    };
    proof {
        assert(b.take(0) =~= Seq::<char>::empty());
        lemma_dec_value_nonneg(b);
    }
    let mut acc: u64 = 0;
    let mut i: usize = start;
    while i < n
        invariant
            is_int_text(s@),
            n == s@.len(),
            neg == (s@[0] == '-'),
            start == (if neg {
                1int
            } else {
                0int
            }),
            b == (if neg {
                s@.skip(1)
            } else {
                s@
            }),
            all_digits(b),
            b.len() == n - start,
            start <= i <= n,
            acc == dec_value(b.take(i - start)),
            acc <= bound,
            bound == (if neg {
                9223372036854775808u64
            } else {
                9223372036854775807u64
            }),
        decreases n - i,
    {
        let c = s.get_char(i);
        proof {
            assert(b[i - start] == s@[i as int]);
            assert(is_digit_char(c));
        }
        let d = (c as u32 - 48) as u64;
        proof {
            assert(b.take(i - start + 1).drop_last() =~= b.take(i - start));
            assert(b.take(i - start + 1).last() == b[i - start]);
            assert(dec_value(b.take(i - start + 1)) == 10 * acc + d);
        }
        if acc > (bound - d) / 10 {
            proof {
                assert(10 * acc + d > bound) by (nonlinear_arith)
                    requires
                        acc > (bound - d) / 10,
                        d <= 9,
                        bound >= d,
                ;
                lemma_dec_value_grows(b, i - start + 1);
                assert(dec_value(b) > bound);
            }
            return Err(());
        }
        proof {
            assert(10 * acc + d <= bound) by (nonlinear_arith)
                requires
                    acc <= (bound - d) / 10,
                    d <= 9,
                    bound >= d,
            ;
        }
        acc = acc * 10 + d;
        i += 1;
    }
    proof {
        assert(b.take(i - start) =~= b);
    }
    if neg {
        if acc == 9223372036854775808 {
            Ok(i64::MIN)
        } else {
            Ok(-(acc as i64))
        }
    } else {
        Ok(acc as i64)
    }
}

/// Reads an unsigned machine-word index from an index literal; reports
/// failure exactly when the value does not fit.
pub(crate) fn parse_usize_text(s: &str) -> (r: Result<usize, ()>)
    requires
        is_usize_text(s@),
    ensures
        r matches Ok(v) ==> usize_text_value(s@) == v as int,
        r is Ok <==> usize_text_value(s@) <= usize::MAX,
{
    let n = s.unicode_len();
    let plus = s.get_char(0) == '+';
    let start: usize = if plus {
        1
    } else {
        0
    };
    let ghost b: Seq<char> = if plus {
        s@.skip(1)
    } else {
        s@
    };
    let bound: usize = usize::MAX;
    proof {
        assert(b.take(0) =~= Seq::<char>::empty());
        lemma_dec_value_nonneg(b);
    }
    let mut acc: usize = 0;
    let mut i: usize = start;
    while i < n
        invariant
            is_usize_text(s@),
            n == s@.len(),
            plus == (s@[0] == '+'),
            start == (if plus {
                1int
            } else {
                0int
            }),
            b == (if plus {
                s@.skip(1)
            } else {
                s@
            }),
            all_digits(b),
            b.len() == n - start,
            start <= i <= n,
            acc == dec_value(b.take(i - start)),
            acc <= bound,
            bound == usize::MAX,
        decreases n - i,
    {
        let c = s.get_char(i);
        proof {
            assert(b[i - start] == s@[i as int]);
            assert(is_digit_char(c));
        }
        let d = (c as u32 - 48) as usize;
        proof {
            assert(b.take(i - start + 1).drop_last() =~= b.take(i - start));
            assert(b.take(i - start + 1).last() == b[i - start]);
            assert(dec_value(b.take(i - start + 1)) == 10 * acc + d);
        }
        if acc > (bound - d) / 10 {
            proof {
                assert(10 * acc + d > bound) by (nonlinear_arith)
                    requires
                        acc > (bound - d) / 10,
                        d <= 9,
                        bound >= d,
                ;
                lemma_dec_value_grows(b, i - start + 1);
                assert(dec_value(b) > bound);
            }
            return Err(());
        }
        proof {
            assert(10 * acc + d <= bound) by (nonlinear_arith)
                requires
                    acc <= (bound - d) / 10,
                    d <= 9,
                    bound >= d,
            ;
        }
        acc = acc * 10 + d;
        i += 1;
    }
    proof {
        assert(b.take(i - start) =~= b);
    }
    Ok(acc)
}


/// The character of one decimal digit.
pub open spec fn digit_char(d: int) -> char {
    if d == 0 {
        '0'
    } else if d == 1 {
        '1'
    } else if d == 2 {
        '2'
    } else if d == 3 {
        '3'
    } else if d == 4 {
        '4'
    } else if d == 5 {
        '5'
    } else if d == 6 {
        '6'
    } else if d == 7 {
        '7'
    } else if d == 8 {
        '8'
    } else {
        '9'
    }
}

/// The decimal digits of a number, most significant first, no sign and
/// no leading zero.
pub open spec fn dec_digits(n: nat) -> Seq<char>
    decreases n,
{
    if n < 10 {
        seq![digit_char(n as int)]
    } else {
        dec_digits(n / 10) + seq![digit_char((n % 10) as int)]
    }
}

/// Appends the character of one decimal digit.
fn push_digit_char(out: &mut String, d: u64)
    requires
        d <= 9,
    ensures
        final(out)@ == old(out)@ + seq![digit_char(d as int)],
{
    proof {
        reveal_strlit("0");
        reveal_strlit("1");
        reveal_strlit("2");
        reveal_strlit("3");
        reveal_strlit("4");
        reveal_strlit("5");
        reveal_strlit("6");
        reveal_strlit("7");
        reveal_strlit("8");
        reveal_strlit("9");
    }
    if d == 0 {
        out.append("0");
    } else if d == 1 {
        out.append("1");
    } else if d == 2 {
        out.append("2");
    } else if d == 3 {
        out.append("3");
    } else if d == 4 {
        out.append("4");
    } else if d == 5 {
        out.append("5");
    } else if d == 6 {
        out.append("6");
    } else if d == 7 {
        out.append("7");
    } else if d == 8 {
        out.append("8");
    } else {
        out.append("9");
    }
}

/// Appends the decimal digits of a number.
pub(crate) fn push_u64_digits(out: &mut String, x: u64)
    ensures
        final(out)@ == old(out)@ + dec_digits(x as nat),
    decreases x,
{
    if x >= 10 {
        push_u64_digits(out, x / 10);
    }
    push_digit_char(out, x % 10);
    proof {
        if x >= 10 {
            assert(out@ =~= old(out)@ + dec_digits(x as nat));
        } else {
            assert(out@ =~= old(out)@ + dec_digits(x as nat));
        }
    }
}

/// The decimal text of a machine word.
pub fn u64_to_string(x: u64) -> (r: String)
    ensures
        r@ == dec_digits(x as nat),
{
    let mut out = String::new();
    push_u64_digits(&mut out, x);
    proof {
        assert(out@ =~= dec_digits(x as nat));
    }
    out
}

/// Whether the text has the shape of a nonnegative index literal.
pub(crate) fn check_usize_text(s: &str) -> (r: bool)
    ensures
        r == is_usize_text(s@),
{
    let n = s.unicode_len();
    if n == 0 {
        return false;
    }
    let plus = s.get_char(0) == '+';
    let start: usize = if plus {
        1
    } else {
        0
    };
    if plus && n == 1 {
        return false;
    }
    let ghost b: Seq<char> = if plus {
        s@.skip(1)
    } else {
        s@
    };
    let mut i: usize = start;
    while i < n
        invariant
            n == s@.len(),
            plus == (s@[0] == '+'),
            start == (if plus {
                1int
            } else {
                0int
            }),
            b == (if plus {
                s@.skip(1)
            } else {
                s@
            }),
            b.len() == n - start,
            start <= i <= n,
            forall|j: int| 0 <= j < i - start ==> is_digit_char(b[j]),
        decreases n - i,
    {
        let c = s.get_char(i);
        let code = c as u32;
        if code < 48 || code > 57 {
            proof {
                assert(b[i - start] == s@[i as int]);
                assert(!is_digit_char(b[i - start]));
            }
            return false;
        }
        i += 1;
    }
    proof {
        assert(all_digits(b));
    }
    true
}

/// The decimal text of a signed value: a minus sign where negative, then
/// the digits.
pub open spec fn int_digits_text(x: int) -> Seq<char> {
    if x >= 0 {
        dec_digits(x as nat)
    } else {
        seq!['-'] + dec_digits((-x) as nat)
    }
}

/// The decimal text of a signed 64-bit word.
pub fn i64_to_string(x: i64) -> (r: String)
    ensures
        r@ == int_digits_text(x as int),
{
    if x >= 0 {
        u64_to_string(x as u64)
    } else {
        let mut out = String::from_str("-");
        let mag: u64 = if x == i64::MIN {
            9223372036854775808
        } else {
            (-x) as u64
        };
        push_u64_digits(&mut out, mag);
        proof {
            reveal_strlit("-");
            assert(out@ =~= int_digits_text(x as int));
        }
        out
    }
}

/// The decimal digits of a number are digits, and there is at least one.
pub proof fn lemma_dec_digits_all_digits(n: nat)
    ensures
        all_digits(dec_digits(n)),
        dec_digits(n).len() >= 1,
    decreases n,
{
    if n < 10 {
        assert(is_digit_char(digit_char(n as int)));
    } else {
        lemma_dec_digits_all_digits(n / 10);
        let a = dec_digits(n / 10);
        let c = digit_char((n % 10) as int);
        assert(is_digit_char(c));
        assert forall|i: int| 0 <= i < (a + seq![c]).len() implies is_digit_char(
            (a + seq![c])[i],
        ) by {
            if i < a.len() {
                assert((a + seq![c])[i] == a[i]);
            } else {
                assert((a + seq![c])[i] == c);
            }
        }
    }
}

/// The decimal digits of a number read back as that number.
pub proof fn lemma_dec_digits_value(n: nat)
    ensures
        dec_value(dec_digits(n)) == n,
    decreases n,
{
    if n < 10 {
        let s = seq![digit_char(n as int)];
        assert(s.drop_last() =~= Seq::<char>::empty());
        assert(dec_value(s) == 10 * dec_value(Seq::<char>::empty()) + digit_val(s.last()));
        assert(digit_val(digit_char(n as int)) == n);
    } else {
        lemma_dec_digits_value(n / 10);
        let a = dec_digits(n / 10);
        let c = digit_char((n % 10) as int);
        let s = a + seq![c];
        assert(s.drop_last() =~= a);
        assert(s.last() == c);
        assert(digit_val(c) == n % 10);
        assert(dec_value(s) == 10 * dec_value(a) + digit_val(c));
        assert(10 * (n / 10) + n % 10 == n) by (nonlinear_arith);
    }
}

} // verus!
