use std::rc::Rc;

use calx_vm::{
    parse_function, Calx, CalxError, CalxFunc, CalxInstr, CalxSyntax, CalxVM, Cirru, FloatHost,
};

struct RealFloats;

impl FloatHost for RealFloats {
    fn add(&self, a: u64, b: u64) -> u64 {
        (f64::from_bits(a) + f64::from_bits(b)).to_bits()
    }
    fn mul(&self, a: u64, b: u64) -> u64 {
        (f64::from_bits(a) * f64::from_bits(b)).to_bits()
    }
    fn div(&self, a: u64, b: u64) -> u64 {
        (f64::from_bits(a) / f64::from_bits(b)).to_bits()
    }
    fn from_text(&self, s: &str) -> u64 {
        s.parse::<f64>().map(|f| f.to_bits()).unwrap_or(0)
    }
    fn to_text(&self, bits: u64) -> String {
        f64::from_bits(bits).to_string()
    }
}

type Import = fn(Vec<Calx>) -> Result<Calx, CalxError>;

fn conv(c: &cirru_parser::Cirru) -> Cirru {
    match c {
        cirru_parser::Cirru::Leaf(s) => Cirru::leaf(s),
        cirru_parser::Cirru::List(xs) => Cirru::list(xs.iter().map(conv).collect()),
    }
}

fn parse_programs(code: &str) -> Vec<CalxFunc> {
    let tree = cirru_parser::parse(code).expect("cirru text should parse");
    let mut fns = Vec::new();
    for x in &tree {
        if let cirru_parser::Cirru::List(ys) = x {
            let nodes: Vec<Cirru> = ys.iter().map(conv).collect();
            fns.push(parse_function(&nodes, &RealFloats).expect("function should assemble"));
        }
    }
    fns
}

fn make_vm(fns: Vec<CalxFunc>) -> CalxVM<Import, RealFloats> {
    CalxVM::new(fns, Vec::new(), Vec::new(), RealFloats)
}

fn run_code(code: &str, args: Vec<Calx>) -> Result<Calx, String> {
    let mut vm = make_vm(parse_programs(code));
    vm.preprocess(false)?;
    vm.setup_top_frame()?;
    vm.run(args).map_err(|e| e.message)
}

#[test]
fn test_add_return() {
    let code = r#"
fn main (-> i64)
  const 3
  const 4
  i.add
  return
"#;
    assert_eq!(run_code(code, vec![]), Ok(Calx::I64(7)));
}

#[test]
fn test_assert_then_const() {
    // (const 2)(const 5)(i.lt)(assert |lt ok)(const 1) gives I64(1)
    let body: Vec<Cirru> = vec![
        Cirru::leaf("fn"),
        Cirru::leaf("main"),
        Cirru::list(vec![Cirru::leaf("->"), Cirru::leaf("i64")]),
        Cirru::list(vec![Cirru::leaf("const"), Cirru::leaf("2")]),
        Cirru::list(vec![Cirru::leaf("const"), Cirru::leaf("5")]),
        Cirru::list(vec![Cirru::leaf("i.lt")]),
        Cirru::list(vec![Cirru::leaf("assert"), Cirru::leaf("|lt ok")]),
        Cirru::list(vec![Cirru::leaf("const"), Cirru::leaf("1")]),
    ];
    let f = parse_function(&body, &RealFloats).expect("function should assemble");
    let mut vm = make_vm(vec![f]);
    vm.preprocess(false).expect("preprocess should pass");
    vm.setup_top_frame().expect("main is present");
    let ret = vm.run(vec![]).expect("run should pass");
    assert_eq!(ret, Calx::I64(1));
}

#[test]
fn test_fib_recursion() {
    let code = r#"
fn fib (($n i64) -> i64)
  i.le (local.get $n) (const 1)
  if (-> i64)
    do (local.get $n)
    do
      i.add
        call fib (i.add (local.get $n) (const -1))
        call fib (i.add (local.get $n) (const -2))

fn main (-> i64)
  call fib (const 10)
"#;
    assert_eq!(run_code(code, vec![]), Ok(Calx::I64(55)));
}

#[test]
fn test_sum_loop() {
    let code = r#"
fn sum (($n i64) -> i64)
  local.new
  local.new
  local.set $acc (const 0)
  local.set $i (const 1)
  block (->)
    loop (->)
      i.gt (local.get $i) (local.get $n)
      br-if 1
      local.set $acc (i.add (local.get $acc) (local.get $i))
      local.set $i (i.add (local.get $i) (const 1))
      br 0
  local.get $acc

fn main (-> i64)
  call sum (const 1000)
"#;
    assert_eq!(run_code(code, vec![]), Ok(Calx::I64(500500)));
}

#[test]
fn test_stack_discipline() {
    // a balanced body leaves the stack at its entry depth
    let code = r#"
fn main (->)
  const 1
  dup
  dup
  drop
  drop
  drop
"#;
    let mut vm = make_vm(parse_programs(code));
    vm.preprocess(false).expect("balanced body should preprocess");
    vm.setup_top_frame().expect("main is present");
    let ret = vm.run(vec![]).expect("run should pass");
    assert_eq!(ret, Calx::Nil);
    assert_eq!(vm.stack.len(), 0);
}

#[test]
fn test_unbalanced_body_fails_preprocess() {
    // a net depth change that does not match the return types is refused
    let code = r#"
fn main (-> i64)
  const 1
  const 2
"#;
    let mut vm = make_vm(parse_programs(code));
    assert!(vm.preprocess(false).is_err());
}

#[test]
fn test_tail_call_even_odd() {
    let code = r#"
fn even (($n i64) -> i64)
  i.eq (local.get $n) (const 0)
  if (-> i64)
    do (const 1)
    do
      return-call odd (i.add (local.get $n) (const -1))

fn odd (($n i64) -> i64)
  i.eq (local.get $n) (const 0)
  if (-> i64)
    do (const 0)
    do
      return-call even (i.add (local.get $n) (const -1))

fn main (-> i64)
  call even (const 1000000)
"#;
    let mut vm = make_vm(parse_programs(code));
    vm.preprocess(false).expect("preprocess should pass");
    vm.setup_top_frame().expect("main is present");
    let ret = vm.run(vec![]).expect("run should pass");
    assert_eq!(ret, Calx::I64(1));
    // tail calls replaced the frame in place: everything has returned
    assert_eq!(vm.frames.len(), 0);
}

#[test]
fn test_division_by_zero_is_an_error() {
    let code = r#"
fn main (-> i64)
  i.div (const 1) (const 0)
"#;
    let r = run_code(code, vec![]);
    assert_eq!(r, Err(String::from("invalid integer operands")));
}

#[test]
fn test_shift_count_out_of_range_is_an_error() {
    let code = r#"
fn main (-> i64)
  i.shl (const 1) (const 64)
"#;
    let r = run_code(code, vec![]);
    assert_eq!(r, Err(String::from("invalid integer operands")));
}

#[test]
fn test_failed_assertion_reports_message() {
    let code = r#"
fn main (->)
  const 0
  assert |must-be-one
"#;
    let r = run_code(code, vec![]);
    assert_eq!(r, Err(String::from("Failed assertion: |must-be-one")));
}

#[test]
fn test_quit_sets_exit_code() {
    let code = r#"
fn main (->)
  quit 3
"#;
    let mut vm = make_vm(parse_programs(code));
    vm.preprocess(false).expect("preprocess should pass");
    vm.setup_top_frame().expect("main is present");
    let _ = vm.run(vec![]).expect("run should stop via quit");
    assert_eq!(vm.quit_code, Some(3));
}

#[test]
fn test_unknown_call_fails_preprocess() {
    let code = r#"
fn main (-> i64)
  call absent (const 1)
"#;
    let mut vm = make_vm(parse_programs(code));
    let r = vm.preprocess(false);
    assert_eq!(r, Err(String::from("main: cannot find the function to call")));
}

#[test]
fn test_import_call() {
    let code = r#"
fn main (-> i64)
  call-import add2 (const 20) (const 22)
"#;
    fn add2(args: Vec<Calx>) -> Result<Calx, CalxError> {
        match (&args[0], &args[1]) {
            (Calx::I64(a), Calx::I64(b)) => Ok(Calx::I64(a + b)),
            _ => Err(CalxError::new_raw(String::from("expected integers"))),
        }
    }
    let imports: Vec<(String, Import, usize)> = vec![(String::from("add2"), add2, 2)];
    let mut vm = CalxVM::new(parse_programs(code), Vec::new(), imports, RealFloats);
    vm.preprocess(false).expect("preprocess should pass");
    vm.setup_top_frame().expect("main is present");
    let ret = vm.run(vec![]).expect("run should pass");
    assert_eq!(ret, Calx::I64(42));
}

#[test]
fn test_float_arithmetic_through_host() {
    let code = r#"
fn main (-> f64)
  add (const 1.5) (const 2.25)
"#;
    let ret = run_code(code, vec![]).expect("run should pass");
    assert_eq!(ret, Calx::F64((3.75f64).to_bits()));
}

#[test]
fn test_globals_and_locals() {
    let code = r#"
fn main (-> i64)
  global.new
  global.set 0 (const 5)
  local.new
  i.mul (local.tee $x (global.get 0)) (const 8)
"#;
    assert_eq!(run_code(code, vec![]), Ok(Calx::I64(40)));
}

#[test]
fn test_run_arguments_fill_locals() {
    let code = r#"
fn main (($a i64) ($b i64) -> i64)
  i.add (local.get $a) (local.get $b)
"#;
    assert_eq!(
        run_code(code, vec![Calx::I64(30), Calx::I64(12)]),
        Ok(Calx::I64(42))
    );
}

#[test]
fn test_echo_and_comment() {
    let code = r#"
fn main (->)
  ;; this line emits nothing
  echo (const 42)
  nop
"#;
    assert_eq!(run_code(code, vec![]), Ok(Calx::Nil));
}

#[test]
fn test_nested_blocks_branch_levels() {
    // br 1 from the inner loop exits the outer block at once
    let code = r#"
fn main (-> i64)
  local.new
  local.set $x (const 7)
  block (->)
    loop (->)
      br 1
  local.get $x
"#;
    assert_eq!(run_code(code, vec![]), Ok(Calx::I64(7)));
}

#[test]
fn test_string_constant_flows_through() {
    let code = r#"
fn pick (($s str) -> str)
  local.get $s

fn main (-> str)
  call pick (const |hey)
"#;
    assert_eq!(
        run_code(code, vec![]),
        Ok(Calx::Str(std::rc::Rc::new(String::from("hey"))))
    );
}

fn bare_func(name: &str, syntax: Vec<calx_vm::CalxSyntax>, instrs: Vec<calx_vm::CalxInstr>) -> CalxFunc {
    CalxFunc {
        name: Rc::new(String::from(name)),
        params_types: Rc::new(vec![]),
        ret_types: Rc::new(vec![]),
        syntax: Rc::new(syntax),
        instrs: Rc::new(instrs),
        local_names: Rc::new(vec![]),
    }
}

#[test]
fn test_preprocess_refuses_block_target_out_of_range() {
    let f = bare_func(
        "main",
        vec![
            CalxSyntax::Block {
                looped: false,
                params_types: Rc::new(vec![]),
                ret_types: Rc::new(vec![]),
                from: 1,
                to: 5,
            },
            CalxSyntax::BlockEnd(false),
        ],
        vec![],
    );
    let mut vm = make_vm(vec![f]);
    assert_eq!(
        vm.preprocess(false),
        Err(String::from("main: block target out of range"))
    );
}

#[test]
fn test_preprocess_refuses_if_target_out_of_range() {
    let f = bare_func(
        "main",
        vec![
            CalxSyntax::If { ret_types: Rc::new(vec![]), else_at: 1, to: 9 },
            CalxSyntax::ElseEnd,
            CalxSyntax::ThenEnd,
        ],
        vec![],
    );
    let mut vm = make_vm(vec![f]);
    assert_eq!(
        vm.preprocess(false),
        Err(String::from("main: if target out of range"))
    );
}

#[test]
fn test_dup_on_empty_stack_fails() {
    let f = bare_func("main", vec![], vec![CalxInstr::Dup]);
    let mut vm = make_vm(vec![f]);
    vm.setup_top_frame().expect("main is present");
    let e = vm.run(vec![]).expect_err("dup on an empty stack should fail");
    assert_eq!(e.message, "cannot pop from empty stack");
}

#[test]
fn test_binop_on_one_operand_fails() {
    let f = bare_func(
        "main",
        vec![],
        vec![CalxInstr::Const(Calx::I64(1)), CalxInstr::IntAdd],
    );
    let mut vm = make_vm(vec![f]);
    vm.setup_top_frame().expect("main is present");
    let e = vm.run(vec![]).expect_err("a two-operand instruction needs two values");
    assert_eq!(e.message, "cannot pop from empty stack");
}
