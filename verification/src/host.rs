//! Trusted boundary: the few places where the library leans on outside code,
//! and the hook through which the host supplies floating-point arithmetic.
//!
//! Everything else in the crate is verified against the contracts stated here.
use vstd::prelude::*;
use crate::text::{is_float_text, is_int_text};

verus! {

/// Relies on `Rc::clone`: the result is another pointer to the same
/// allocation, so it carries the same value.
#[verifier::external_body]
pub(crate) fn rc_dup<T>(x: &std::rc::Rc<T>) -> (r: std::rc::Rc<T>)
    ensures
        r == *x,
{
    std::rc::Rc::clone(x)
}

/// Relies on `regex::Regex::is_match` with the anchored pattern
/// `^-?[0-9]+$`: it reports whether the whole text is an optional minus
/// sign followed by one or more ASCII digits, which is `is_int_text`.
/// `Regex::new` cannot fail here: the pattern is a constant that is valid.
#[verifier::external_body]
pub(crate) fn match_int_text(s: &str) -> (r: bool)
    ensures
        r == is_int_text(s@),
{
    match regex::Regex::new("^-?[0-9]+$") {
        Ok(p) => p.is_match(s),
        Err(_) => false,
    }
}

/// Relies on `regex::Regex::is_match` with the anchored pattern
/// `^-?[0-9]+\.([0-9]+)?$`: it reports whether the whole text is an
/// optional minus sign, one or more ASCII digits, a dot, and zero or
/// more ASCII digits, which is `is_float_text`.
/// `Regex::new` cannot fail here: the pattern is a constant that is valid.
#[verifier::external_body]
pub(crate) fn match_float_text(s: &str) -> (r: bool)
    ensures
        r == is_float_text(s@),
{
    match regex::Regex::new("^-?[0-9]+\\.([0-9]+)?$") {
        Ok(p) => p.is_match(s),
        Err(_) => false,
    }
}

/// Floating-point work the host performs for the machine.
///
/// Float values live in the machine as their IEEE-754 binary64 bit
/// patterns; this crate cannot compute with them, so the host that
/// embeds the machine provides the arithmetic, the literal reader and
/// the renderer. Nothing is assumed of the results beyond their type.
pub trait FloatHost {
    /// The bit pattern of the sum of the two values with these bit patterns.
    fn add(&self, a: u64, b: u64) -> u64;

    /// The bit pattern of the product of the two values with these bit patterns.
    fn mul(&self, a: u64, b: u64) -> u64;

    /// The bit pattern of the quotient of the two values with these bit patterns.
    fn div(&self, a: u64, b: u64) -> u64;

    /// The bit pattern of the value a float literal denotes.
    fn from_text(&self, s: &str) -> u64
        requires
            is_float_text(s@),
    ;

    /// A decimal rendering of the value with this bit pattern.
    fn to_text(&self, bits: u64) -> String;
}

/// Relies on `writeln!` to the standard output: prints the text and a
/// newline; the text itself is not changed.
#[verifier::external_body]
pub(crate) fn emit_line(s: &str) {
    let _ = writeln!(std::io::stdout(), "{}", s);
}

} // verus!

use std::io::Write;
