use std::rc::Rc;

use calx_vm::{
    display_value, i64_to_string, parse_value, str_eq, u64_to_string, BlockData, BlockStack, Calx,
    CalxInstr, CalxType, FloatHost,
};

struct RealFloats;

impl FloatHost for RealFloats {
    fn add(&self, a: u64, b: u64) -> u64 {
        (f64::from_bits(a) + f64::from_bits(b)).to_bits()
    }
    fn mul(&self, a: u64, b: u64) -> u64 {
        (f64::from_bits(a) * f64::from_bits(b)).to_bits()
    }
    fn div(&self, a: u64, b: u64) -> u64 {
        (f64::from_bits(a) / f64::from_bits(b)).to_bits()
    }
    fn from_text(&self, s: &str) -> u64 {
        s.parse::<f64>().map(|f| f.to_bits()).unwrap_or(0)
    }
    fn to_text(&self, bits: u64) -> String {
        f64::from_bits(bits).to_string()
    }
}

#[test]
fn test_parse_value_constants() {
    assert_eq!(parse_value("nil", &RealFloats), Ok(Calx::Nil));
    assert_eq!(parse_value("true", &RealFloats), Ok(Calx::Bool(true)));
    assert_eq!(parse_value("false", &RealFloats), Ok(Calx::Bool(false)));
}

#[test]
fn test_parse_value_integers() {
    assert_eq!(parse_value("42", &RealFloats), Ok(Calx::I64(42)));
    assert_eq!(parse_value("-7", &RealFloats), Ok(Calx::I64(-7)));
    assert_eq!(parse_value("0", &RealFloats), Ok(Calx::I64(0)));
    assert_eq!(
        parse_value("9223372036854775807", &RealFloats),
        Ok(Calx::I64(i64::MAX))
    );
    assert_eq!(
        parse_value("-9223372036854775808", &RealFloats),
        Ok(Calx::I64(i64::MIN))
    );
    // one past the greatest value does not fit
    assert!(parse_value("9223372036854775808", &RealFloats).is_err());
}

#[test]
fn test_parse_value_floats() {
    assert_eq!(
        parse_value("3.5", &RealFloats),
        Ok(Calx::F64((3.5f64).to_bits()))
    );
    assert_eq!(
        parse_value("-0.25", &RealFloats),
        Ok(Calx::F64((-0.25f64).to_bits()))
    );
    assert_eq!(
        parse_value("3.", &RealFloats),
        Ok(Calx::F64((3.0f64).to_bits()))
    );
}

#[test]
fn test_parse_value_strings() {
    assert_eq!(
        parse_value("|hello", &RealFloats),
        Ok(Calx::Str(Rc::new(String::from("hello"))))
    );
    assert_eq!(
        parse_value(":tag", &RealFloats),
        Ok(Calx::Str(Rc::new(String::from("tag"))))
    );
}

#[test]
fn test_parse_value_rejections() {
    assert!(parse_value("", &RealFloats).is_err());
    assert!(parse_value("what", &RealFloats).is_err());
    assert!(parse_value("1.2.3", &RealFloats).is_err());
    assert!(parse_value("--3", &RealFloats).is_err());
}

#[test]
fn test_typed_as() {
    assert!(Calx::Nil.typed_as(CalxType::Nil));
    assert!(Calx::Bool(false).typed_as(CalxType::Bool));
    assert!(Calx::I64(3).typed_as(CalxType::I64));
    assert!(Calx::F64(0).typed_as(CalxType::F64));
    assert!(!Calx::I64(3).typed_as(CalxType::F64));
    assert!(Calx::Str(Rc::new(String::from("x"))).typed_as(CalxType::Str));
    assert!(Calx::List(Rc::new(vec![])).typed_as(CalxType::List));
}

#[test]
fn test_truthy() {
    assert!(!Calx::Nil.truthy());
    assert!(Calx::Bool(true).truthy());
    assert!(!Calx::Bool(false).truthy());
    assert!(Calx::I64(2).truthy());
    assert!(!Calx::I64(0).truthy());
    assert!(Calx::F64((1.5f64).to_bits()).truthy());
    assert!(!Calx::F64((0.0f64).to_bits()).truthy());
    assert!(!Calx::F64((-0.0f64).to_bits()).truthy());
    assert!(!Calx::Str(Rc::new(String::from("x"))).truthy());
    assert!(!Calx::List(Rc::new(vec![])).truthy());
}

#[test]
fn test_display_and_reparse() {
    let h = RealFloats;
    // values whose display can be re-parsed read back as themselves
    for v in [Calx::Nil, Calx::Bool(true), Calx::Bool(false), Calx::I64(-35), Calx::I64(0)] {
        let text = display_value(&v, &h);
        assert_eq!(parse_value(text.as_str(), &h), Ok(v));
    }
}

#[test]
fn test_display_forms() {
    let h = RealFloats;
    assert_eq!(display_value(&Calx::Nil, &h), "nil");
    assert_eq!(display_value(&Calx::I64(-12), &h), "-12");
    assert_eq!(
        display_value(&Calx::Str(Rc::new(String::from("hey"))), &h),
        "hey"
    );
    let xs = Calx::List(Rc::new(vec![Calx::I64(1), Calx::I64(2), Calx::Nil]));
    assert_eq!(display_value(&xs, &h), "(1 2 nil)");
}

#[test]
fn test_number_rendering() {
    assert_eq!(u64_to_string(0), "0");
    assert_eq!(u64_to_string(90210), "90210");
    assert_eq!(i64_to_string(-1), "-1");
    assert_eq!(i64_to_string(i64::MIN), "-9223372036854775808");
}

#[test]
fn test_str_eq() {
    assert!(str_eq("abc", "abc"));
    assert!(!str_eq("abc", "abd"));
    assert!(!str_eq("abc", "ab"));
    assert!(str_eq("", ""));
}

#[test]
fn test_type_names() {
    assert_eq!(CalxType::from_str("i64"), Ok(CalxType::I64));
    assert_eq!(CalxType::from_str("f64"), Ok(CalxType::F64));
    assert_eq!(CalxType::from_str("nil"), Ok(CalxType::Nil));
    assert_eq!(CalxType::from_str("bool"), Ok(CalxType::Bool));
    assert_eq!(CalxType::from_str("str"), Ok(CalxType::Str));
    assert_eq!(CalxType::from_str("list"), Ok(CalxType::List));
    assert_eq!(CalxType::from_str("link"), Ok(CalxType::Link));
    assert!(CalxType::from_str("void").is_err());
}

#[test]
fn test_stack_arity() {
    assert_eq!(CalxInstr::Dup.stack_arity(), (1, 2));
    assert_eq!(CalxInstr::Drop.stack_arity(), (1, 0));
    assert_eq!(CalxInstr::Const(Calx::I64(1)).stack_arity(), (0, 1));
    assert_eq!(CalxInstr::IntAdd.stack_arity(), (2, 1));
    assert_eq!(CalxInstr::JmpIf(0).stack_arity(), (1, 0));
    assert_eq!(CalxInstr::Jmp(0).stack_arity(), (0, 0));
    assert_eq!(CalxInstr::Return.stack_arity(), (0, 0));
    assert_eq!(CalxInstr::IntNeg.stack_arity(), (1, 1));
}

fn sample_block(initial: usize) -> BlockData {
    BlockData::Block {
        params_types: Rc::new(vec![CalxType::I64]),
        ret_types: Rc::new(vec![CalxType::I64, CalxType::I64]),
        to: 9,
        initial_stack_size: initial,
    }
}

fn sample_if(initial: usize) -> BlockData {
    BlockData::If {
        ret_types: Rc::new(vec![CalxType::I64]),
        else_to: 4,
        to: 7,
        initial_stack_size: initial,
    }
}

#[test]
fn test_expected_finish_size() {
    assert_eq!(sample_block(3).expected_finish_size(), 4);
    assert_eq!(sample_if(2).expected_finish_size(), 2);
}

#[test]
fn test_block_stack_walk() {
    let mut bs = BlockStack::new();
    assert!(bs.is_empty());
    bs.push(sample_block(0));
    bs.push(sample_if(1));
    bs.push(sample_if(2));
    assert_eq!(bs.len(), 3);
    // a peek for a branch skips the two if regions
    let b = bs.peek_block_level(0).expect("a block is below the ifs");
    assert_eq!(*b, sample_block(0));
    // peeking the innermost if
    let top = bs.peek_if().expect("top is an if");
    assert_eq!(*top, sample_if(2));
    // popping the block discards the if regions above it
    let popped = bs.pop_block().expect("a block is present");
    assert_eq!(popped, sample_block(0));
    assert!(bs.is_empty());
    assert!(bs.pop_block().is_err());
    assert!(bs.pop_if().is_err());
    assert!(bs.peek_if().is_err());
    assert!(bs.peek_block_level(0).is_err());
}
