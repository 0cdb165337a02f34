use zet::ast::{Block, Expr, FunctionDef, InterpolPart, Literal, Purity, Statement, TypeRef};
use zet::codegen::Codegen;
use zet::parser::parse_program;

fn generate(src: &str) -> Option<String> {
    let (_, fs) = parse_program(src).unwrap();
    let mut g = Codegen::new();
    g.generate(&fs)
}

#[test]
fn new_generator_starts_at_column_zero() {
    let g = Codegen::new();
    assert_eq!(g.indent(), "");
}

#[test]
fn runtime_preamble_comes_first() {
    let g = Codegen::new();
    let pre = g.get_runtime_preamble();
    assert!(pre.contains("struct Untrusted(String);"));
    assert!(pre.contains("Dogrulama basarisiz: bos girdi."));
    let code = generate("det fn main() { }").unwrap();
    assert!(code.starts_with(&pre));
}

#[test]
fn map_type_names() {
    let g = Codegen::new();
    assert_eq!(g.map_type(&TypeRef::Void), "()");
    assert_eq!(g.map_type(&TypeRef::Integer), "i64");
    assert_eq!(g.map_type(&TypeRef::Float), "f64");
    assert_eq!(g.map_type(&TypeRef::Byte), "u8");
    assert_eq!(g.map_type(&TypeRef::Untrusted), "Untrusted");
    assert_eq!(g.map_type(&TypeRef::Custom("Kisi".to_string())), "String");
    assert_eq!(g.map_type(&TypeRef::Array(Box::new(TypeRef::Bool))), "Vec<bool>");
    assert_eq!(g.map_type(&TypeRef::Result(Box::new(TypeRef::Char))), "Result<char, String>");
    assert_eq!(
        g.map_type(&TypeRef::Tuple(vec![TypeRef::Integer, TypeRef::String])),
        "(i64, String)"
    );
}

#[test]
fn deterministic_function_is_plain() {
    let code = generate("det fn fark(a: i64, b: i64) -> i64 { return a - b }\ndet fn main() { }").unwrap();
    assert!(code.contains("fn fark(a: i64, b: i64) -> i64 {\n    return (a - b);\n}\n\n"));
    assert!(code.contains("fn user_main() -> () {\n}\n\n"));
    assert!(code.ends_with("fn main() {\n    user_main();\n}"));
    assert!(!code.contains("async fn fark"));
}

#[test]
fn nondeterministic_function_is_async() {
    let code = generate("nondet fn main() { }").unwrap();
    assert!(code.contains("async fn user_main() -> () {\n}\n\n"));
    assert!(code.ends_with("#[tokio::main] async fn main() {\n    user_main().await;\n}"));
}

#[test]
fn main_with_parameter_gets_arguments() {
    let code = generate("nondet fn main(girdi: Untrusted) { }").unwrap();
    assert!(code.ends_with(
        "#[tokio::main] async fn main() {\n    let _zet_input = Untrusted(std::env::args().skip(1).collect::<Vec<_>>().join(\" \"));\n    user_main(_zet_input).await;\n}"
    ));
}

#[test]
fn no_main_no_program() {
    assert!(generate("det fn f() { }").is_none());
}

#[test]
fn scope_awaits_its_spawns() {
    let code = generate("nondet fn main() { scope A { spawn DB.log(\"x\") } }").unwrap();
    assert!(code.contains(
        "    // Scope: A\n    {\n        let mut _zet_handles: Vec<tokio::task::JoinHandle<()>> = Vec::new();\n"
    ));
    assert!(code.contains("_zet_handles.push(tokio::spawn(async move { "));
    assert!(code.contains("        for _h in _zet_handles { _h.await.ok(); }\n    }\n"));
}

fn generate_main(statements: Vec<Statement>) -> String {
    let main = FunctionDef {
        attributes: Vec::new(),
        name: "main".to_string(),
        purity: Purity::Deterministic,
        params: Vec::new(),
        return_type: TypeRef::Void,
        body: Block { statements },
    };
    let mut g = Codegen::new();
    g.generate(&vec![main]).unwrap()
}

#[test]
fn continue_in_while_inside_for_restarts_the_while() {
    let code = generate_main(vec![Statement::For {
        var: "i".to_string(),
        start: Expr::Literal(Literal::Int(0)),
        end: Expr::Literal(Literal::Int(3)),
        step: None,
        body: Block {
            statements: vec![Statement::While {
                condition: Expr::Literal(Literal::Bool(true)),
                body: Block { statements: vec![Statement::Continue, Statement::Break] },
            }],
        },
    }]);
    let (a, b) = (" ".repeat(16), " ".repeat(20));
    let expected = format!("{a}while true {{\n{b}continue;\n{b}break;\n{a}}}\n");
    assert!(code.contains(&expected));
    assert!(!code.contains("break '_zet_body_0;"));
    assert!(!code.contains("break '_zet_for_0;"));
}

#[test]
fn continue_directly_in_for_leaves_the_body_block() {
    let code = generate_main(vec![Statement::For {
        var: "i".to_string(),
        start: Expr::Literal(Literal::Int(0)),
        end: Expr::Literal(Literal::Int(3)),
        step: None,
        body: Block { statements: vec![Statement::Continue, Statement::Break] },
    }]);
    assert!(code.contains("break '_zet_body_0;\n"));
    assert!(code.contains("break '_zet_for_0;\n"));
}

#[test]
fn literal_only_interpolation_keeps_its_braces() {
    let code = generate_main(vec![Statement::ExprStmt(Expr::Interpolation(vec![InterpolPart::Lit(
        "{ok}".to_string(),
    )]))]);
    assert!(code.contains("    \"{ok}\".to_string();\n"));
}

#[test]
fn interpolation_with_value_doubles_literal_braces() {
    let code = generate_main(vec![Statement::ExprStmt(Expr::Interpolation(vec![
        InterpolPart::Lit("{a} ".to_string()),
        InterpolPart::Expr(Expr::Identifier("x".to_string())),
    ]))]);
    assert!(code.contains("    format!(\"{{a}} {}\", x);\n"));
}

#[test]
fn for_labels_count_up_through_nesting() {
    let code = generate(
        "det fn main() {\n for i in 0..2 { for j in 0..2 { } }\n for k in 0..2 { }\n}",
    )
    .unwrap();
    assert!(code.contains("'_zet_for_0: while"));
    assert!(code.contains("'_zet_for_1: while"));
    assert!(code.contains("'_zet_for_2: while"));
    assert!(!code.contains("'_zet_for_3"));
    assert_eq!(code.matches("'_zet_body_1: {").count(), 1);
}

#[test]
fn emitted_string_literal_is_escaped() {
    let code = generate_main(vec![Statement::ExprStmt(Expr::Literal(Literal::Str(
        "a\"b\\c\nd\te".to_string(),
    )))]);
    assert!(code.contains("    \"a\\\"b\\\\c\\nd\\te\".to_string();\n"));
}

#[test]
fn float_literal_written_as_rust_prints_it() {
    let code = generate("det fn main() {\n let a = 1.50\n let b = 007.000\n let c = 0.25\n}").unwrap();
    assert!(code.contains("let mut a = 1.5f64;\n"));
    assert!(code.contains("let mut b = 7.0f64;\n"));
    assert!(code.contains("let mut c = 0.25f64;\n"));
}
