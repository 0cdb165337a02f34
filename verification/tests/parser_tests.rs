use zet::ast::{BinaryOp, Expr, InterpolPart, Literal, Purity, Statement, TypeRef, UnaryOp};
use zet::parser::parse_program;

fn body_of(src: &str) -> Vec<Statement> {
    let (_, mut fs) = parse_program(src).expect("program");
    fs.remove(0).body.statements
}

fn expr_stmt(src_expr: &str) -> Expr {
    let src = format!("det fn f() {{ {} }}", src_expr);
    let mut body = body_of(&src);
    assert_eq!(body.len(), 1, "one statement in {}", src_expr);
    match body.remove(0) {
        Statement::ExprStmt(e) => e,
        other => panic!("not an expression statement: {:?}", other),
    }
}

#[test]
fn parses_hello_program() {
    let src = "nondeterministic fn main() -> Void {\n    scope Main {\n        spawn DB.log(\"Hello from Zet!\")\n    }\n}\n";
    let (rest, fs) = parse_program(src).unwrap();
    assert_eq!(rest, "");
    assert_eq!(fs.len(), 1);
    let f = &fs[0];
    assert_eq!(f.name, "main");
    assert!(matches!(f.purity, Purity::Nondeterministic));
    assert!(matches!(f.return_type, TypeRef::Void));
    assert!(f.params.is_empty());
    assert!(f.attributes.is_empty());
    match &f.body.statements[0] {
        Statement::ScopeBlock { name, body } => {
            assert_eq!(name, "Main");
            match &body.statements[0] {
                Statement::ExprStmt(Expr::Spawn(inner)) => match &**inner {
                    Expr::Call(n, args, awaited) => {
                        assert_eq!(n, "DB.log");
                        assert!(!awaited);
                        assert!(matches!(&args[0], Expr::Literal(Literal::Str(s)) if s == "Hello from Zet!"));
                    },
                    other => panic!("{:?}", other),
                },
                other => panic!("{:?}", other),
            }
        },
        other => panic!("{:?}", other),
    }
}

#[test]
fn missing_return_type_is_void_and_det_is_deterministic() {
    let (_, fs) = parse_program("det fn topla(a: i64, b: i64) { return a + b }").unwrap();
    assert!(matches!(fs[0].purity, Purity::Deterministic));
    assert!(matches!(fs[0].return_type, TypeRef::Void));
    assert_eq!(fs[0].params.len(), 2);
    assert_eq!(fs[0].params[1].name, "b");
    assert!(matches!(fs[0].params[1].param_type, TypeRef::Integer));
}

#[test]
fn parameter_types() {
    let (_, fs) = parse_program(
        "nondet fn g(x: Untrusted, y: f64, z: Array<u8>, t: (i64, bool), c: char, s: String) -> (i64) { }",
    )
    .unwrap();
    let ps = &fs[0].params;
    assert!(matches!(ps[0].param_type, TypeRef::Untrusted));
    assert!(matches!(ps[1].param_type, TypeRef::Float));
    assert!(matches!(&ps[2].param_type, TypeRef::Array(inner) if matches!(**inner, TypeRef::Byte)));
    assert!(matches!(&ps[3].param_type, TypeRef::Tuple(ts) if ts.len() == 2));
    assert!(matches!(ps[4].param_type, TypeRef::Char));
    assert!(matches!(&ps[5].param_type, TypeRef::Custom(n) if n == "String"));
    assert!(matches!(fs[0].return_type, TypeRef::Integer));
}

#[test]
fn multiplication_binds_tighter_than_addition() {
    let e = expr_stmt("1 + 2 * 3");
    match e {
        Expr::Binary(l, BinaryOp::Add, r) => {
            assert!(matches!(*l, Expr::Literal(Literal::Int(1))));
            assert!(matches!(*r, Expr::Binary(_, BinaryOp::Mul, _)));
        },
        other => panic!("{:?}", other),
    }
}

#[test]
fn operators_are_left_associative() {
    let e = expr_stmt("10 - 4 - 3");
    match e {
        Expr::Binary(l, BinaryOp::Sub, r) => {
            assert!(matches!(*l, Expr::Binary(_, BinaryOp::Sub, _)));
            assert!(matches!(*r, Expr::Literal(Literal::Int(3))));
        },
        other => panic!("{:?}", other),
    }
}

#[test]
fn bitwise_and_logical_operators() {
    let e = expr_stmt("a & b && c | d || e ^ f");
    // || is the loosest
    match e {
        Expr::Binary(l, BinaryOp::Or, r) => {
            assert!(matches!(*l, Expr::Binary(_, BinaryOp::And, _)));
            assert!(matches!(*r, Expr::Binary(_, BinaryOp::BitXor, _)));
        },
        other => panic!("{:?}", other),
    }
    let e = expr_stmt("x << 2 >= y");
    assert!(matches!(e, Expr::Binary(_, BinaryOp::Gte, _)));
}

#[test]
fn unary_operators() {
    let e = expr_stmt("!-x");
    match e {
        Expr::Unary(UnaryOp::Not, inner) => assert!(matches!(*inner, Expr::Unary(UnaryOp::Neg, _))),
        other => panic!("{:?}", other),
    }
}

#[test]
fn literals() {
    assert!(matches!(expr_stmt("3.14"), Expr::Literal(Literal::Float(t)) if t == "3.14"));
    assert!(matches!(expr_stmt("42"), Expr::Literal(Literal::Int(42))));
    assert!(matches!(expr_stmt("'a'"), Expr::Literal(Literal::Char('a'))));
    assert!(matches!(expr_stmt("'\\n'"), Expr::Literal(Literal::Char('\n'))));
    assert!(matches!(expr_stmt("true"), Expr::Literal(Literal::Bool(true))));
    assert!(matches!(expr_stmt("false"), Expr::Literal(Literal::Bool(false))));
    assert!(matches!(expr_stmt("\"a\\tb\""), Expr::Literal(Literal::Str(s)) if s == "a\tb"));
}

#[test]
fn too_large_integer_is_not_a_number() {
    assert!(parse_program("det fn f() { 99999999999999999999 }").is_err());
    assert!(matches!(expr_stmt("9223372036854775807"), Expr::Literal(Literal::Int(i64::MAX))));
}

#[test]
fn interpolation() {
    let e = expr_stmt("\"Merhaba ${ad}!\"");
    match e {
        Expr::Interpolation(parts) => {
            assert_eq!(parts.len(), 3);
            assert!(matches!(&parts[0], InterpolPart::Lit(s) if s == "Merhaba "));
            assert!(matches!(&parts[1], InterpolPart::Expr(Expr::Identifier(n)) if n == "ad"));
            assert!(matches!(&parts[2], InterpolPart::Lit(s) if s == "!"));
        },
        other => panic!("{:?}", other),
    }
}

#[test]
fn arrays_indexing_and_tuples() {
    let e = expr_stmt("m[1][2]");
    match e {
        Expr::Index(a, i) => {
            assert!(matches!(*a, Expr::Index(_, _)));
            assert!(matches!(*i, Expr::Literal(Literal::Int(2))));
        },
        other => panic!("{:?}", other),
    }
    assert!(matches!(expr_stmt("[1, 2, 3]"), Expr::ArrayLiteral(xs) if xs.len() == 3));
    assert!(matches!(expr_stmt("(1, \"a\", true)"), Expr::TupleLiteral(xs) if xs.len() == 3));
    assert!(matches!(expr_stmt("(1, 2,)"), Expr::TupleLiteral(xs) if xs.len() == 2));
    assert!(matches!(expr_stmt("(7)"), Expr::Literal(Literal::Int(7))));
    match expr_stmt("t.0.1") {
        Expr::TupleIndex(inner, 1) => assert!(matches!(*inner, Expr::TupleIndex(_, 0))),
        other => panic!("{:?}", other),
    }
}

#[test]
fn calls() {
    assert!(matches!(expr_stmt("call Util.now()"), Expr::Call(n, args, true) if n == "Util.now" && args.is_empty()));
    assert!(matches!(expr_stmt("topla(1, 2)"), Expr::Call(n, args, false) if n == "topla" && args.len() == 2));
    assert!(matches!(expr_stmt("println(\"x\")"), Expr::Call(n, _, false) if n == "println"));
    assert!(matches!(expr_stmt("call input(\"Ad: \")"), Expr::Call(n, _, true) if n == "input"));
    assert!(matches!(expr_stmt("json(veri, \"anahtar\")"), Expr::JsonField(_, k) if k == "anahtar"));
    match expr_stmt("call Pay.charge(1) { timeout: 500 }") {
        Expr::Infra(c) => {
            assert_eq!(c.service, "Pay");
            assert_eq!(c.method, "charge");
            assert_eq!(c.args.len(), 1);
            assert_eq!(c.config.timeout_ms, 500);
        },
        other => panic!("{:?}", other),
    }
}

#[test]
fn statements() {
    let body = body_of(
        "nondet fn main() {\n let mut x = 1\n const Y = 2\n x = x + 1\n while x < 5 { x = x + 1 }\n for i in 0..10 by 2 { continue }\n if x == 1 { break } else if x == 2 { } else { return }\n validate v { success: { println(v) } }\n return x\n}",
    );
    assert_eq!(body.len(), 8);
    assert!(matches!(&body[0], Statement::Let(l) if l.name == "x"));
    assert!(matches!(&body[1], Statement::Const { name, .. } if name == "Y"));
    assert!(matches!(&body[2], Statement::Assign { name, .. } if name == "x"));
    assert!(matches!(&body[3], Statement::While { .. }));
    match &body[4] {
        Statement::For { var, step, body, .. } => {
            assert_eq!(var, "i");
            assert!(step.is_some());
            assert!(matches!(body.statements[0], Statement::Continue));
        },
        other => panic!("{:?}", other),
    }
    match &body[5] {
        Statement::If { else_block: Some(b), .. } => {
            assert_eq!(b.statements.len(), 1);
            assert!(matches!(&b.statements[0], Statement::If { else_block: Some(_), .. }));
        },
        other => panic!("{:?}", other),
    }
    match &body[6] {
        Statement::ValidateBlock { target, schema, on_fail, success_scope } => {
            assert_eq!(target, "v");
            assert_eq!(schema, "Schema");
            assert!(on_fail.statements.is_empty());
            assert_eq!(success_scope.statements.len(), 1);
        },
        other => panic!("{:?}", other),
    }
    assert!(matches!(&body[7], Statement::Return(Some(_))));
}

#[test]
fn comments_and_semicolons() {
    let body = body_of("det fn f() {\n // yorum\n println(1); println(2) // son\n}");
    assert_eq!(body.len(), 2);
}

#[test]
fn keyword_prefix_is_an_identifier() {
    let body = body_of("det fn f() { for_testi = 1 }");
    assert!(matches!(&body[0], Statement::Assign { name, .. } if name == "for_testi"));
}

#[test]
fn several_functions_and_trailing_text() {
    let (rest, fs) = parse_program("det fn a() {}\n nondet fn b() {}\n ???").unwrap();
    assert_eq!(fs.len(), 2);
    assert_eq!(fs[1].name, "b");
    assert_eq!(rest, "???");
}

#[test]
fn not_a_program() {
    let e = parse_program("  fn main() {}").unwrap_err();
    assert_eq!(e.position, 2);
    assert_eq!(parse_program("").unwrap_err().position, 0);
}
