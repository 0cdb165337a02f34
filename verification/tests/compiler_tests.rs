use zet::ast::TopLevel;
use zet::compiler::{
    check_program, compile, diagnostics, extract_functions, merge_toplevels, nest_module, strip_bom,
    CompileError,
};
use zet::parser::parse_program;

const NOT_PURE: &str =
    "' fonksiyonu `deterministic` olarak işaretlenmiş, ancak içinde I/O veya nondeterministic çağrı var!";

fn check(src: &str) -> Result<(), String> {
    let (_, fs) = parse_program(src).expect("program");
    check_program(&fs)
}

#[test]
fn hello_compiles() {
    let code = compile("nondeterministic fn main() -> Void {\n    scope Main {\n        spawn DB.log(\"Hello from Zet!\")\n    }\n}\n").unwrap();
    assert!(code.contains("async fn user_main() -> () {\n"));
    assert!(code.contains("    {\n        let mut _zet_handles"));
    assert!(code.contains("#[tokio::main] async fn main() {\n    user_main().await;\n}"));
}

#[test]
fn readme_unvalidated_input_refused() {
    let src = "nondeterministic fn main() -> Void {\n    let query = call Console.read(\"Enter query: \")\n    spawn DB.log(query)\n}";
    match compile(src) {
        Err(CompileError::Check(m)) => assert_eq!(
            m,
            "[ZET HATA] Taint (main): 'query' lekeli (Untrusted) bir değişken! Kullanmadan önce `validate query { success: { ... } }` bloğu ile doğrulamalısınız."
        ),
        other => panic!("{:?}", other),
    }
}

#[test]
fn readme_validated_input_accepted() {
    let src = "nondeterministic fn main() -> Void {\n    let query = call Console.read(\"Enter query: \")\n\n    validate query {\n        success: {\n            scope Logging {\n                spawn DB.log(\"User said: \" + query)\n            }\n        }\n    }\n}";
    assert!(check(src).is_ok());
    assert!(compile(src).is_ok());
}

#[test]
fn io_in_deterministic_refused() {
    let src = "deterministic fn f() -> Void { DB.log(\"x\") }";
    assert_eq!(check(src), Err(format!("[ZET HATA] Determinizm (f): 'f{}", NOT_PURE)));
}

#[test]
fn println_allowed_in_deterministic() {
    assert!(check("det fn topla(a: i64, b: i64) -> i64 {\n println(\"Toplaniyor...\")\n return a + b\n}").is_ok());
}

#[test]
fn call_on_pure_function_refused() {
    let src = "det fn kare(n: i64) -> i64 { return n * n }\nnondet fn main() { let x = call kare(3) }";
    assert_eq!(
        check(src),
        Err("[ZET HATA] Determinizm (main): `call kare(...)` hatalı: 'kare' saf (deterministic) bir fonksiyon. `call` yalnızca I/O fonksiyonları için kullanılır.".to_string())
    );
}

#[test]
fn spawn_outside_scope_refused() {
    assert_eq!(
        check("nondet fn main() { spawn DB.log(\"x\") }"),
        Err("[ZET HATA] Scope (main): `spawn` yalnızca bir `scope` bloğu içinde kullanılabilir! Zombi süreçleri engellemek için tüm arka plan işlemleri bir kapsam (scope) içinde yaşamalıdır.".to_string())
    );
}

#[test]
fn undefined_variable_refused() {
    assert_eq!(
        check("det fn f() { println(y) }"),
        Err("[ZET HATA] Scope (f): Tanımsız değişken: 'y'".to_string())
    );
}

#[test]
fn break_outside_loop_refused() {
    assert_eq!(
        check("det fn f() { break }"),
        Err("[ZET HATA] Scope (f): `break` yalnızca bir döngü (while/for) içinde kullanılabilir!".to_string())
    );
}

#[test]
fn validating_clean_value_refused() {
    assert_eq!(
        check("nondet fn f() { let x = 1\n validate x { success: { } } }"),
        Err("[ZET HATA] Taint (f): 'x' zaten temiz (trusted) bir değişken. `validate` bloğu yalnızca lekeli (Untrusted) veriler için kullanılabilir.".to_string())
    );
}

#[test]
fn untrusted_parameter_is_tainted() {
    assert!(check("nondet fn f(girdi: Untrusted) { println(girdi) }").is_err());
    assert!(check("nondet fn f(girdi: Untrusted) { validate girdi { success: { println(girdi) } } }").is_ok());
}

#[test]
fn taint_propagates_through_json() {
    let src = "nondet fn f() { let v = call HTTP.get(\"u\")\n let k = json(v, \"a\")\n println(k) }";
    match check(src) {
        Err(m) => assert!(m.starts_with("[ZET HATA] Taint (f): 'k' lekeli")),
        Ok(_) => panic!("accepted"),
    }
}

#[test]
fn first_failing_function_is_reported() {
    let src = "det fn a() { DB.log(1) }\nnondet fn b() { spawn DB.log(2) }";
    assert_eq!(check(src), Err(format!("[ZET HATA] Determinizm (a): 'a{}", NOT_PURE)));
}

#[test]
fn program_without_main() {
    assert!(matches!(compile("det fn f() { }"), Err(CompileError::NoMain)));
}

#[test]
fn syntax_error() {
    match compile("merhaba") {
        Err(CompileError::Syntax(e)) => assert_eq!(e.position, 0),
        other => panic!("{:?}", other),
    }
}

#[test]
fn byte_order_mark_ignored() {
    assert_eq!(strip_bom("\u{feff}\u{feff}abc"), "abc");
    assert_eq!(strip_bom("a\u{feff}"), "a\u{feff}");
    let a = compile("\u{feff}nondet fn main() { }").unwrap();
    let b = compile("nondet fn main() { }").unwrap();
    assert_eq!(a, b);
}

#[test]
fn diagnostics_of_text() {
    let d = diagnostics("nondet fn main() { let q = call input(\"?\")\n spawn DB.log(q) }");
    assert_eq!(d.len(), 2);
    assert!(d[0].starts_with("Scope/Tip Hatası: `spawn`"));
    assert!(d[1].starts_with("Zero Trust İhlali: 'q' lekeli"));
    let d = diagnostics("det fn f() { DB.log(1) }");
    assert_eq!(d, vec![format!("Determinism Hatası: 'f{}", NOT_PURE)]);
    assert!(diagnostics("nondet fn main() { }").is_empty());
    assert_eq!(diagnostics("x"), vec!["Syntax Hatası:\nParseError { position: 0 }".to_string()]);
}

#[test]
fn extract_names_functions_by_module_path() {
    let (_, fs) = parse_program("det fn a() {}\ndet fn b() {}").unwrap();
    let mut it = fs.into_iter();
    let fa = it.next().unwrap();
    let fb = it.next().unwrap();
    let items = vec![
        TopLevel::Function(fa),
        TopLevel::Module("m".to_string(), vec![TopLevel::Module("n".to_string(), vec![TopLevel::Function(fb)])]),
    ];
    let mut out = Vec::new();
    extract_functions(&items, &mut out, Vec::new());
    assert_eq!(out.len(), 2);
    assert_eq!(out[0].name, "a");
    assert_eq!(out[1].name, "m::n::b");
    let mut out2 = Vec::new();
    extract_functions(&items, &mut out2, vec!["root".to_string()]);
    assert_eq!(out2[0].name, "root::a");
}

#[test]
fn modules_of_the_same_name_are_merged() {
    let (_, fs) = parse_program("det fn f1() {}\ndet fn f2() {}\ndet fn f3() {}").unwrap();
    let mut it = fs.into_iter();
    let f1 = it.next().unwrap();
    let f2 = it.next().unwrap();
    let f3 = it.next().unwrap();
    let items = vec![
        TopLevel::Module("a".to_string(), vec![TopLevel::Function(f1)]),
        TopLevel::Function(f2),
        TopLevel::Module("a".to_string(), vec![TopLevel::Function(f3)]),
    ];
    let merged = merge_toplevels(items);
    assert_eq!(merged.len(), 2);
    match &merged[0] {
        TopLevel::Module(n, inner) => {
            assert_eq!(n, "a");
            assert_eq!(inner.len(), 2);
            assert!(matches!(&inner[1], TopLevel::Function(f) if f.name == "f3"));
        },
        other => panic!("{:?}", other),
    }
    assert!(matches!(&merged[1], TopLevel::Function(f) if f.name == "f2"));
}

#[test]
fn nested_module_path() {
    let t = nest_module(&vec!["std".to_string(), "http".to_string()], vec![]);
    match t {
        TopLevel::Module(a, inner) => {
            assert_eq!(a, "std");
            assert!(matches!(&inner[0], TopLevel::Module(b, x) if b == "http" && x.is_empty()));
        },
        other => panic!("{:?}", other),
    }
}

#[test]
fn validation_clears_only_its_target() {
    let src = "nondet fn f(a: Untrusted, b: Untrusted) { validate a { success: { println(a)\n println(b) } } }";
    match check(src) {
        Err(m) => assert!(m.starts_with("[ZET HATA] Taint (f): 'b' lekeli")),
        Ok(_) => panic!("accepted"),
    }
}

#[test]
fn tainted_argument_refused_even_without_spawn() {
    let src = "nondet fn f(a: Untrusted) { DB.log(a) }";
    assert!(check(src).is_err());
}

#[test]
fn every_check_must_pass() {
    // determinism and scope fine, taint fails
    assert!(check("nondet fn f(a: Untrusted) { return a }").is_err());
    // all pass
    assert!(check("nondet fn f(a: Untrusted) { validate a { success: { return a } } }").is_ok());
}

#[test]
fn docs_call_examples_accepted() {
    let src = "nondet fn main() {\n    let zaman = call Util.now()\n    let kullanici = call input(\"Adiniz: \")\n    let web_verisi = call HTTP.get(\"https://api.ornek.com\")\n}";
    assert!(check(src).is_ok());
}

#[test]
fn docs_validation_example_accepted() {
    let src = "nondet fn main() {\n    let kullanici_girdisi = call input(\"Adiniz: \")\n    validate kullanici_girdisi {\n        success: {\n            println(\"Giris yapan: \" + kullanici_girdisi)\n        }\n    }\n}";
    assert!(check(src).is_ok());
}

#[test]
fn input_in_deterministic_refused() {
    assert!(check("det fn f() { let x = input(\"?\") }").is_err());
}

#[test]
fn call_on_pure_function_refused_under_unary_minus() {
    let src = "det fn fib() -> i64 { return 1 }\nnondet fn main() { -(call fib()) }";
    assert_eq!(
        check(src),
        Err("[ZET HATA] Determinizm (main): `call fib(...)` hatalı: 'fib' saf (deterministic) bir fonksiyon. `call` yalnızca I/O fonksiyonları için kullanılır.".to_string())
    );
}

#[test]
fn call_on_pure_function_refused_inside_interpolation_and_tuple() {
    let src = "det fn kare(n: i64) -> i64 { return n * n }\nnondet fn main() { println(\"x = ${call kare(2)}\") }";
    assert!(check(src).is_err());
    let src = "det fn kare(n: i64) -> i64 { return n * n }\nnondet fn main() { let t = (1, call kare(2)) }";
    assert!(check(src).is_err());
}

#[test]
fn validated_name_stays_tainted_after_its_validate_block() {
    let src = "nondet fn main() {\n let q = call input(\"?\")\n validate q { success: { println(q) } }\n println(q)\n}";
    let e = check(src).unwrap_err();
    assert!(e.contains("'q' lekeli (Untrusted) bir değişken!"));
}

#[test]
fn taint_bound_in_nested_block_outlives_it() {
    let src = "nondet fn main() {\n if true { let q = call input(\"?\") }\n}";
    assert!(check(src).is_ok());
    let src = "nondet fn main() {\n let q = \"\"\n if true { q = call input(\"?\") }\n println(q)\n}";
    assert!(check(src).unwrap_err().contains("'q' lekeli"));
}

#[test]
fn name_bound_in_block_does_not_leak_out() {
    let src = "det fn main() {\n if true { let x = 1 }\n println(x)\n}";
    assert!(check(src).is_err());
}

#[test]
fn tainted_name_under_an_operator_refused() {
    let src = "nondet fn main(g: Untrusted) {\n let n = g * 2\n}";
    assert!(check(src).unwrap_err().contains("'g' lekeli"));
}

#[test]
fn taint_propagates_through_concatenation() {
    let src = "nondet fn main() {\n let data = call input(\"?\")\n let y = data + \"!\"\n}";
    assert!(check(src).is_ok());
    let src = "nondet fn main() {\n let data = call input(\"?\")\n let y = \"<\" + data\n println(y)\n}";
    assert!(check(src).unwrap_err().contains("'y' lekeli"));
    let src = "nondet fn main() {\n let data = call input(\"?\")\n println(data + \"!\")\n}";
    assert!(check(src).unwrap_err().contains("'data' lekeli"));
}
