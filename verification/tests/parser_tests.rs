use calx_vm::{
    extract_nested, leaf_is, parse_block_types, parse_fn_types, parse_function, parse_usize,
    Cirru, FloatHost, LocalsCollector,
};
use calx_vm::{Calx, CalxSyntax, CalxType};

struct NoFloats;

impl FloatHost for NoFloats {
    fn add(&self, _a: u64, _b: u64) -> u64 {
        0
    }
    fn mul(&self, _a: u64, _b: u64) -> u64 {
        0
    }
    fn div(&self, _a: u64, _b: u64) -> u64 {
        0
    }
    fn from_text(&self, s: &str) -> u64 {
        s.parse::<f64>().map(|f| f.to_bits()).unwrap_or(0)
    }
    fn to_text(&self, bits: u64) -> String {
        f64::from_bits(bits).to_string()
    }
}

/// extracting nested expression inside
/// block and loop are special need to handle
#[test]
fn test_extracting() -> Result<(), String> {
    assert_eq!(
        extract_nested(&Cirru::list(vec![Cirru::leaf("a"), Cirru::leaf("b")]))?,
        vec![Cirru::list(vec![Cirru::leaf("a"), Cirru::leaf("b")])]
    );

    assert_eq!(
        extract_nested(&Cirru::list(vec![
            Cirru::leaf("a"),
            Cirru::leaf("b"),
            Cirru::list(vec![Cirru::leaf("c"), Cirru::leaf("d")])
        ]))?,
        vec![
            Cirru::list(vec![Cirru::leaf("c"), Cirru::leaf("d")]),
            Cirru::list(vec![Cirru::leaf("a"), Cirru::leaf("b")])
        ]
    );

    assert_eq!(
        extract_nested(&Cirru::list(vec![
            Cirru::leaf("a"),
            Cirru::leaf("b"),
            Cirru::list(vec![
                Cirru::leaf("c"),
                Cirru::leaf("d"),
                Cirru::list(vec![Cirru::leaf("e"), Cirru::leaf("f")])
            ])
        ]))?,
        vec![
            Cirru::list(vec![Cirru::leaf("e"), Cirru::leaf("f")]),
            Cirru::list(vec![Cirru::leaf("c"), Cirru::leaf("d")]),
            Cirru::list(vec![Cirru::leaf("a"), Cirru::leaf("b")])
        ]
    );

    Ok(())
}

#[test]
fn test_extracting_keeps_structured_forms_whole() {
    let form = Cirru::list(vec![
        Cirru::leaf("block"),
        Cirru::list(vec![Cirru::leaf("->")]),
        Cirru::list(vec![Cirru::leaf("nop")]),
    ]);
    let out = extract_nested(&form).expect("structured form should extract");
    assert_eq!(out, vec![form]);
}

#[test]
fn test_extracting_is_idempotent_on_flat_lists() {
    let nested = Cirru::list(vec![
        Cirru::leaf("i.add"),
        Cirru::list(vec![Cirru::leaf("const"), Cirru::leaf("1")]),
        Cirru::list(vec![Cirru::leaf("const"), Cirru::leaf("2")]),
    ]);
    let once = extract_nested(&nested).expect("should extract");
    for piece in &once {
        let again = extract_nested(piece).expect("flat piece should extract");
        assert_eq!(again, vec![piece.dup()]);
    }
}

#[test]
fn test_extracting_refuses_a_leaf() {
    assert!(extract_nested(&Cirru::leaf("a")).is_err());
}

#[test]
fn test_parse_usize() {
    assert_eq!(parse_usize("42"), Ok(42));
    assert_eq!(parse_usize("0"), Ok(0));
    assert_eq!(parse_usize("+7"), Ok(7));
    assert!(parse_usize("-1").is_err());
    assert!(parse_usize("").is_err());
    assert!(parse_usize("12a").is_err());
    assert!(parse_usize("99999999999999999999999999").is_err());
}

#[test]
fn test_leaf_is() {
    assert!(leaf_is(&Cirru::leaf("fn"), "fn"));
    assert!(!leaf_is(&Cirru::leaf("fx"), "fn"));
    assert!(!leaf_is(&Cirru::list(vec![Cirru::leaf("fn")]), "fn"));
}

#[test]
fn test_locals_collector_assigns_first_seen_indexes() {
    let mut c = LocalsCollector::new();
    assert_eq!(c.track("$a"), 0);
    assert_eq!(c.track("$b"), 1);
    assert_eq!(c.track("$a"), 0);
    assert_eq!(c.track("$c"), 2);
    assert_eq!(c.locals, vec!["$a", "$b", "$c"]);
}

#[test]
fn test_parse_fn_types_with_named_params() {
    let sig = Cirru::list(vec![
        Cirru::list(vec![Cirru::leaf("a"), Cirru::leaf("i64")]),
        Cirru::leaf("f64"),
        Cirru::leaf("->"),
        Cirru::leaf("bool"),
    ]);
    let mut c = LocalsCollector::new();
    let (params, rets) = parse_fn_types(&sig, &mut c).expect("signature should parse");
    assert_eq!(params, vec![CalxType::I64, CalxType::F64]);
    assert_eq!(rets, vec![CalxType::Bool]);
    assert_eq!(c.locals, vec!["a", "$1"]);
}

#[test]
fn test_parse_fn_types_refuses_named_rets() {
    let sig = Cirru::list(vec![
        Cirru::leaf("->"),
        Cirru::list(vec![Cirru::leaf("a"), Cirru::leaf("i64")]),
    ]);
    let mut c = LocalsCollector::new();
    assert!(parse_fn_types(&sig, &mut c).is_err());
}

#[test]
fn test_parse_block_types() {
    let sig = Cirru::list(vec![
        Cirru::leaf("i64"),
        Cirru::leaf("->"),
        Cirru::leaf("i64"),
        Cirru::leaf("str"),
    ]);
    let (params, rets) = parse_block_types(&sig).expect("signature should parse");
    assert_eq!(params, vec![CalxType::I64]);
    assert_eq!(rets, vec![CalxType::I64, CalxType::Str]);
}

#[test]
fn test_parse_function_shape() {
    let nodes = vec![
        Cirru::leaf("fn"),
        Cirru::leaf("double"),
        Cirru::list(vec![
            Cirru::list(vec![Cirru::leaf("$n"), Cirru::leaf("i64")]),
            Cirru::leaf("->"),
            Cirru::leaf("i64"),
        ]),
        Cirru::list(vec![
            Cirru::leaf("i.mul"),
            Cirru::list(vec![Cirru::leaf("local.get"), Cirru::leaf("$n")]),
            Cirru::list(vec![Cirru::leaf("const"), Cirru::leaf("2")]),
        ]),
    ];
    let f = parse_function(&nodes, &NoFloats).expect("function should assemble");
    assert_eq!(&**f.name, "double");
    assert_eq!(&*f.params_types, &vec![CalxType::I64]);
    assert_eq!(&*f.ret_types, &vec![CalxType::I64]);
    assert_eq!(&*f.local_names, &vec!["$n"]);
    assert!(f.instrs.is_empty());
    assert_eq!(
        &*f.syntax,
        &vec![
            CalxSyntax::LocalGet(0),
            CalxSyntax::Const(Calx::I64(2)),
            CalxSyntax::IntMul,
        ]
    );
}

#[test]
fn test_parse_function_refuses_short_input() {
    let nodes = vec![
        Cirru::leaf("fn"),
        Cirru::leaf("f"),
        Cirru::list(vec![Cirru::leaf("->")]),
    ];
    assert!(parse_function(&nodes, &NoFloats).is_err());
}

#[test]
fn test_parse_function_refuses_unknown_instruction() {
    let nodes = vec![
        Cirru::leaf("fn"),
        Cirru::leaf("f"),
        Cirru::list(vec![Cirru::leaf("->")]),
        Cirru::list(vec![Cirru::leaf("no-such-op")]),
    ];
    assert!(parse_function(&nodes, &NoFloats).is_err());
}

#[test]
fn test_parse_fn_types_refuses_duplicate_names() {
    let sig = Cirru::list(vec![
        Cirru::list(vec![Cirru::leaf("a"), Cirru::leaf("i64")]),
        Cirru::list(vec![Cirru::leaf("a"), Cirru::leaf("f64")]),
    ]);
    let mut c = LocalsCollector::new();
    match parse_fn_types(&sig, &mut c) {
        Err(e) => assert_eq!(e, "duplicate parameter name"),
        Ok(_) => panic!("a repeated parameter name should be refused"),
    }
}

#[test]
fn test_parse_fn_types_refuses_taken_auto_name() {
    // the bare second parameter would be auto-named $1, already taken
    let sig = Cirru::list(vec![
        Cirru::list(vec![Cirru::leaf("$1"), Cirru::leaf("i64")]),
        Cirru::leaf("i64"),
    ]);
    let mut c = LocalsCollector::new();
    match parse_fn_types(&sig, &mut c) {
        Err(e) => assert_eq!(e, "duplicate parameter name"),
        Ok(_) => panic!("a clash with an auto-assigned name should be refused"),
    }
}
