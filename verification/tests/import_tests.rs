use zet::ast::TopLevel;
use zet::imports::{ImportRequest, ImportResolver};
use zet::parser::parse_program;

fn functions(src: &str) -> Vec<TopLevel> {
    let (_, fs) = parse_program(src).unwrap();
    fs.into_iter().map(TopLevel::Function).collect()
}

fn path(parts: &[&str]) -> Vec<String> {
    parts.iter().map(|s| s.to_string()).collect()
}

#[test]
fn without_imports_items_are_kept() {
    let mut r = ImportResolver::new(functions("det fn a() {}\nnondet fn main() {}"));
    match r.start() {
        ImportRequest::Done(items) => {
            assert_eq!(items.len(), 2);
            assert!(matches!(&items[1], TopLevel::Function(f) if f.name == "main"));
        },
        other => panic!("{:?}", other),
    }
}

#[test]
fn imported_file_becomes_a_module() {
    let mut items = vec![TopLevel::Import(path(&["util", "mat"]))];
    items.extend(functions("nondet fn main() {}"));
    let mut r = ImportResolver::new(items);
    match r.start() {
        ImportRequest::Locate { dir, path: p } => {
            assert_eq!(dir, 0);
            assert_eq!(p, path(&["util", "mat"]));
        },
        other => panic!("{:?}", other),
    }
    assert!(r.awaits_location());
    match r.located("/x/util/mat.zt".to_string(), "\"util/mat.zt\"".to_string()) {
        ImportRequest::Read { dir } => assert_eq!(dir, 1),
        other => panic!("{:?}", other),
    }
    assert!(r.awaits_text());
    match r.read(Ok("\u{feff}det fn kare(n: i64) -> i64 { return n * n }".to_string())) {
        ImportRequest::Done(items) => {
            assert_eq!(items.len(), 2);
            match &items[0] {
                TopLevel::Module(a, inner) => {
                    assert_eq!(a, "util");
                    match &inner[0] {
                        TopLevel::Module(b, fs) => {
                            assert_eq!(b, "mat");
                            assert!(matches!(&fs[0], TopLevel::Function(f) if f.name == "kare"));
                        },
                        other => panic!("{:?}", other),
                    }
                },
                other => panic!("{:?}", other),
            }
            assert!(matches!(&items[1], TopLevel::Function(f) if f.name == "main"));
        },
        other => panic!("{:?}", other),
    }
}

#[test]
fn a_file_is_loaded_once() {
    let items = vec![TopLevel::Import(path(&["a"])), TopLevel::Import(path(&["b"]))];
    let mut r = ImportResolver::new(items);
    assert!(matches!(r.start(), ImportRequest::Locate { .. }));
    assert!(matches!(r.located("k".to_string(), "a.zt".to_string()), ImportRequest::Read { dir: 1 }));
    // the first file is read; the second import names the same file
    assert!(matches!(r.read(Ok("det fn f() {}".to_string())), ImportRequest::Locate { dir: 0, .. }));
    match r.located("k".to_string(), "b.zt".to_string()) {
        ImportRequest::Done(items) => {
            assert_eq!(items.len(), 2);
            assert!(matches!(&items[0], TopLevel::Module(n, _) if n == "a"));
            assert!(matches!(&items[1], TopLevel::Import(p) if p == &path(&["b"])));
        },
        other => panic!("{:?}", other),
    }
}

#[test]
fn modules_of_one_name_are_merged() {
    let items = vec![TopLevel::Import(path(&["m", "x"])), TopLevel::Import(path(&["m", "y"]))];
    let mut r = ImportResolver::new(items);
    r.start();
    r.located("kx".to_string(), "x".to_string());
    r.read(Ok("det fn fx() {}".to_string()));
    r.located("ky".to_string(), "y".to_string());
    match r.read(Ok("det fn fy() {}".to_string())) {
        ImportRequest::Done(items) => {
            assert_eq!(items.len(), 1);
            assert!(matches!(&items[0], TopLevel::Module(n, inner) if n == "m" && inner.len() == 2));
        },
        other => panic!("{:?}", other),
    }
}

#[test]
fn unreadable_file_fails() {
    let mut r = ImportResolver::new(vec![TopLevel::Import(path(&["lib"]))]);
    r.start();
    r.located("k".to_string(), "\"lib.zt\"".to_string());
    match r.read(Err("bulunamadi".to_string())) {
        ImportRequest::Failed(m) => assert_eq!(m, "Modül okunamadı: \"lib.zt\" - bulunamadi"),
        other => panic!("{:?}", other),
    }
}

#[test]
fn file_with_syntax_error_fails() {
    let mut r = ImportResolver::new(vec![TopLevel::Import(path(&["lib"]))]);
    r.start();
    r.located("k".to_string(), "\"lib.zt\"".to_string());
    match r.read(Ok("  oops".to_string())) {
        ImportRequest::Failed(m) => assert_eq!(m, "Syntax Hatası (\"lib.zt\"):\nParseError { position: 2 }"),
        other => panic!("{:?}", other),
    }
}
