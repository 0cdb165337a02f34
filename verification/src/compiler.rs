//! The compiler's pipeline: reading a source text, collecting its functions,
//! checking every function for determinism, taint and scope, and writing the
//! Rust program; and the diagnostics that an editor shows for a text.
use vstd::prelude::*;
use crate::analysis::determinism::{determinism_function, DeterminismAnalyzer, SymbolTable};
use crate::analysis::scope::{scope_function, ScopeAnalyzer};
use crate::analysis::taint::{taint_function, TaintAnalyzer};
use crate::ast::{
    view_function,
    view_functions,
    view_strings,
    view_toplevel,
    view_toplevels,
    FunctionDef,
    SpecFunctionDef,
    SpecTopLevel,
    TopLevel,
};
use crate::codegen::{join, lemma_join_push, program_text, Codegen, GenCtx};
use crate::duplicate::dup_function;
use crate::grammar::program;
use crate::lexer::skip;
use crate::parser::{lemma_view_functions_push, parse_program, ParseError};
use crate::text::{dec, push_str, str_to_string, usize_to_string};

verus! {

// ───────────────────────── source text ─────────────────────────

/// Where the leading byte-order marks of a text end.
pub open spec fn bom_end(s: Seq<char>, i: int) -> int
    decreases s.len() - i,
{
    if 0 <= i < s.len() && s[i] == '\u{feff}' {
        bom_end(s, i + 1)
    } else {
        i
    }
}

/// The text without its leading byte-order marks.
pub open spec fn without_bom(s: Seq<char>) -> Seq<char> {
    s.subrange(bom_end(s, 0), s.len() as int)
}

pub proof fn lemma_bom_end(s: Seq<char>, i: int)
    requires
        0 <= i <= s.len(),
    ensures
        i <= bom_end(s, i) <= s.len(),
    decreases s.len() - i,
{
    if i < s.len() && s[i] == '\u{feff}' {
        lemma_bom_end(s, i + 1);
    }
}

/// The text without its leading byte-order marks (`U+FEFF`).
pub fn strip_bom(s: &str) -> (r: String)
    ensures
        r@ == without_bom(s@),
{
    let v = crate::text::chars_of(s);
    let mut i: usize = 0;
    while i < v.len() && v[i] == '\u{feff}'
        invariant
            i <= v.len(),
            v@ == s@,
            bom_end(s@, 0) == bom_end(s@, i as int),
        decreases v.len() - i,
    {
        i += 1;
    }
    crate::text::string_from_chars(&v, i, v.len())
}

// ───────────────────────── functions of a program ─────────────────────────

/// A copy of every function.
pub fn dup_functions(fs: &Vec<FunctionDef>) -> (r: Vec<FunctionDef>)
    ensures
        view_functions(r@) == view_functions(fs@),
{
    let mut r: Vec<FunctionDef> = Vec::new();
    let mut i: usize = 0;
    proof {
        assert(view_functions(r@) =~= view_functions(fs@.take(0)));
    }
    while i < fs.len()
        invariant
            i <= fs.len(),
            view_functions(r@) == view_functions(fs@.take(i as int)),
        decreases fs.len() - i,
    {
        let f = dup_function(&fs[i]);
        proof {
            lemma_view_functions_push(r@, f);
            assert(fs@.take(i + 1) =~= fs@.take(i as int).push(fs@[i as int]));
            lemma_view_functions_push(fs@.take(i as int), fs@[i as int]);
        }
        r.push(f);
        i += 1;
    }
    proof {
        assert(fs@.take(i as int) =~= fs@);
    }
    r
}

/// The function `f` under the module path `path`: its name becomes the path
/// and its own name joined with `::`.
pub open spec fn qualified(f: SpecFunctionDef, path: Seq<Seq<char>>) -> SpecFunctionDef {
    SpecFunctionDef { name: join(path.push(f.name), "::"@), ..f }
}

/// The functions of the items, modules included, each named by its path.
pub open spec fn extracted(items: Seq<SpecTopLevel>, path: Seq<Seq<char>>) -> Seq<SpecFunctionDef>
    decreases items, 1nat,
{
    if items.len() == 0 {
        Seq::empty()
    } else {
        extracted(items.drop_last(), path) + extracted_item(items.last(), path)
    }
}

/// The functions of one item.
pub open spec fn extracted_item(t: SpecTopLevel, path: Seq<Seq<char>>) -> Seq<SpecFunctionDef>
    decreases t, 0nat,
{
    match t {
        SpecTopLevel::Function(f) => seq![qualified(f, path)],
        SpecTopLevel::Module(n, inner) => extracted(inner, path.push(n)),
        _ => Seq::empty(),
    }
}

/// The names joined with `::`.
fn join_path(parts: &Vec<String>) -> (r: String)
    ensures
        r@ == join(view_strings(parts@), "::"@),
{
    let mut r = String::new();
    let mut i: usize = 0;
    while i < parts.len()
        invariant
            i <= parts.len(),
            r@ == join(view_strings(parts@.take(i as int)), "::"@),
        decreases parts.len() - i,
    {
        proof {
            assert(view_strings(parts@.take(i + 1)) =~= view_strings(parts@.take(i as int)).push(
                parts@[i as int]@,
            ));
            lemma_join_push(view_strings(parts@.take(i as int)), parts@[i as int]@, "::"@);
        }
        if i > 0 {
            push_str(&mut r, "::");
        }
        push_str(&mut r, parts[i].as_str());
        i += 1;
    }
    proof {
        assert(parts@.take(i as int) =~= parts@);
    }
    r
}

/// A copy of the names.
fn copy_path(path: &Vec<String>) -> (r: Vec<String>)
    ensures
        view_strings(r@) == view_strings(path@),
{
    crate::duplicate::dup_strings(path)
}

/// Adds to `funcs` every function of the items, in order, modules included;
/// each is named by its module path and its own name joined with `::`.
pub fn extract_functions(items: &Vec<TopLevel>, funcs: &mut Vec<FunctionDef>, current_path: Vec<String>)
    ensures
        view_functions(final(funcs)@) == view_functions(old(funcs)@) + extracted(
            view_toplevels(items@),
            view_strings(current_path@),
        ),
    decreases items, 0nat,
{
    let ghost path = view_strings(current_path@);
    let ghost ts = view_toplevels(items@);
    let ghost start = view_functions(funcs@);
    proof {
        crate::ast::lemma_view_toplevels(items@);
        assert(extracted(ts.take(0), path) =~= Seq::empty());
        assert(start + Seq::<SpecFunctionDef>::empty() =~= start);
    }
    let mut i: usize = 0;
    while i < items.len()
        invariant
            i <= items.len(),
            path == view_strings(current_path@),
            ts == view_toplevels(items@),
            ts.len() == items.len(),
            forall|j: int| 0 <= j < ts.len() ==> #[trigger] ts[j] == view_toplevel(items@[j]),
            view_functions(funcs@) == start + extracted(ts.take(i as int), path),
        decreases items.len() - i,
    {
        proof {
            assert(decreases_to!(*items => items[i as int]));
            assert(ts.take(i + 1).drop_last() =~= ts.take(i as int));
            assert(ts.take(i + 1).last() == ts[i as int]);
        }
        let ghost before = view_functions(funcs@);
        match &items[i] {
            TopLevel::Function(f) => {
                let mut f_clone = dup_function(f);
                let mut p = copy_path(&current_path);
                p.push(f.name.clone());
                proof {
                    assert(view_strings(p@) =~= path.push(f.name@));
                }
                f_clone.name = join_path(&p);
                proof {
                    lemma_view_functions_push(funcs@, f_clone);
                    assert(view_function(f_clone) == qualified(view_function(*f), path));
                    assert(ts[i as int] == SpecTopLevel::Function(view_function(*f)));
                    assert(extracted_item(ts[i as int], path) == seq![qualified(view_function(*f), path)]);
                    assert(extracted(ts.take(i + 1), path) == extracted(ts.take(i as int), path)
                        + extracted_item(ts[i as int], path));
                }
                funcs.push(f_clone);
                proof {
                    assert(view_functions(funcs@) =~= start + extracted(ts.take(i + 1), path));
                }
            },
            TopLevel::Module(name, inner) => {
                let mut new_path = copy_path(&current_path);
                new_path.push(name.clone());
                proof {
                    assert(view_strings(new_path@) =~= path.push(name@));
                    assert(decreases_to!(items[i as int] => items[i as int]->Module_1));
                }
                extract_functions(inner, funcs, new_path);
                proof {
                    assert(ts[i as int] == SpecTopLevel::Module(name@, view_toplevels(inner@)));
                    assert(extracted_item(ts[i as int], path) == extracted(
                        view_toplevels(inner@),
                        path.push(name@),
                    ));
                    assert(extracted(ts.take(i + 1), path) == extracted(ts.take(i as int), path)
                        + extracted_item(ts[i as int], path));
                    assert(view_functions(funcs@) =~= start + extracted(ts.take(i + 1), path));
                }
            },
            _ => {
                proof {
                    assert(extracted_item(ts[i as int], path) =~= Seq::empty());
                    assert(view_functions(funcs@) =~= start + extracted(ts.take(i + 1), path));
                }
            },
        }
        i += 1;
    }
    proof {
        assert(ts.take(i as int) =~= ts);
    }
}

// ───────────────────────── checks ─────────────────────────

/// The error that the compiler reports for one function of the program `fs`:
/// determinism first, then taint, then scope.
#[verifier::opaque]
pub open spec fn function_error(fs: Seq<SpecFunctionDef>, f: SpecFunctionDef) -> Option<Seq<char>> {
    match determinism_function(fs, f) {
        Some(e) => Some("[ZET HATA] Determinizm ("@ + f.name + "): "@ + e),
        None => match taint_function(fs, f) {
            Some(e) => Some("[ZET HATA] Taint ("@ + f.name + "): "@ + e),
            None => match scope_function(f) {
                Some(e) => Some("[ZET HATA] Scope ("@ + f.name + "): "@ + e),
                None => None,
            },
        },
    }
}

/// The first error among the first `k` functions of the program `fs`.
pub open spec fn first_error(fs: Seq<SpecFunctionDef>, k: int) -> Option<Seq<char>>
    decreases k,
{
    if k <= 0 {
        None
    } else {
        match first_error(fs, k - 1) {
            Some(e) => Some(e),
            None => function_error(fs, fs[k - 1]),
        }
    }
}

/// The first error that the compiler reports for the program `fs`, if any.
pub open spec fn program_error(fs: Seq<SpecFunctionDef>) -> Option<Seq<char>> {
    first_error(fs, fs.len() as int)
}

fn labelled(head: &str, name: &String, e: &String) -> (r: String)
    ensures
        r@ == head@ + name@ + "): "@ + e@,
{
    let mut m = str_to_string(head);
    push_str(&mut m, name.as_str());
    push_str(&mut m, "): ");
    push_str(&mut m, e.as_str());
    m
}

/// Checks one function of a program as the compiler does.
fn check_function(func: &FunctionDef, symbols: &SymbolTable) -> (r: Result<(), String>)
    ensures
        match r {
            Ok(_) => function_error(symbols.spec_functions(), view_function(*func)) is None,
            Err(m) => function_error(symbols.spec_functions(), view_function(*func)) == Some(m@),
        },
{
    reveal(function_error);
    if let Err(e) = DeterminismAnalyzer::check(func, symbols) {
        return Err(labelled("[ZET HATA] Determinizm (", &func.name, &e));
    }
    if let Err(e) = TaintAnalyzer::check(func, symbols) {
        return Err(labelled("[ZET HATA] Taint (", &func.name, &e));
    }
    let mut scope_pass = ScopeAnalyzer::new();
    if let Err(e) = scope_pass.analyze(func) {
        return Err(labelled("[ZET HATA] Scope (", &func.name, &e));
    }
    Ok(())
}

/// Checks every function of a program, in order, against all of them, and
/// stops at the first error.
pub fn check_program(functions: &Vec<FunctionDef>) -> (r: Result<(), String>)
    ensures
        match r {
            Ok(_) => program_error(view_functions(functions@)) is None,
            Err(m) => program_error(view_functions(functions@)) == Some(m@),
        },
{
    let symbols = SymbolTable::new(dup_functions(functions));
    let ghost fs = view_functions(functions@);
    let mut i: usize = 0;
    while i < functions.len()
        invariant
            i <= functions.len(),
            fs == view_functions(functions@),
            symbols.spec_functions() == fs,
            first_error(fs, i as int) is None,
        decreases functions.len() - i,
    {
        proof {
            assert(fs[i as int] == view_function(functions@[i as int]));
        }
        match check_function(&functions[i], &symbols) {
            Ok(_) => {},
            Err(m) => {
                proof {
                    lemma_first_error_prefix(fs, i as int + 1, fs.len() as int);
                }
                return Err(m);
            },
        }
        i += 1;
    }
    Ok(())
}

/// Once an error is found among the first `k` functions, it stays the first.
pub proof fn lemma_first_error_prefix(fs: Seq<SpecFunctionDef>, k: int, n: int)
    requires
        k <= n,
        first_error(fs, k) is Some,
    ensures
        first_error(fs, n) == first_error(fs, k),
    decreases n - k,
{
    if k < n {
        lemma_first_error_prefix(fs, k, n - 1);
    }
}

// ───────────────────────── compiling ─────────────────────────

/// Why a source text was not compiled.
#[derive(Debug)]
pub enum CompileError {
    /// The text is not a program.
    Syntax(ParseError),
    /// A check failed; the message is the compiler's report.
    Check(String),
    /// No function is named `main`.
    NoMain,
}

/// The generator's state when it starts.
pub open spec fn initial_ctx() -> GenCtx {
    GenCtx {
        indent: 0,
        pure: Seq::empty(),
        cur_pure: false,
        in_scope: false,
        in_for: false,
        labels: Seq::empty(),
    }
}

/// Compiles a source text to a Rust program: reads it, checks every function,
/// and writes the program. A program is only written when every check passes.
pub fn compile(source: &str) -> (r: Result<String, CompileError>)
    ensures
        ({
            let text = without_bom(source@);
            match r {
                Err(CompileError::Syntax(e)) => program(text) is None && e.position == skip(text, 0),
                Err(CompileError::Check(m)) => program(text) is Some && program_error(
                    (program(text)->0).1,
                ) == Some(m@),
                Err(CompileError::NoMain) => program(text) is Some && program_error(
                    (program(text)->0).1,
                ) is None && program_text(initial_ctx(), 0, (program(text)->0).1) is None,
                Ok(code) => program(text) is Some && program_error((program(text)->0).1) is None
                    && program_text(initial_ctx(), 0, (program(text)->0).1) == Some(code@),
            }
        }),
{
    let text = strip_bom(source);
    let (_, functions) = match parse_program(text.as_str()) {
        Ok(x) => x,
        Err(e) => {
            return Err(CompileError::Syntax(e));
        },
    };
    if let Err(m) = check_program(&functions) {
        return Err(CompileError::Check(m));
    }
    let mut generator = Codegen::new();
    match generator.generate(&functions) {
        Some(code) => Ok(code),
        None => Err(CompileError::NoMain),
    }
}

// ───────────────────────── diagnostics ─────────────────────────

/// The messages an editor shows for one function of the program `fs`:
/// determinism, then scope, then taint, each when it fails.
#[verifier::opaque]
pub open spec fn function_diagnostics(fs: Seq<SpecFunctionDef>, f: SpecFunctionDef) -> Seq<
    Seq<char>,
> {
    let d = match determinism_function(fs, f) {
        Some(e) => seq!["Determinism Hatası: "@ + e],
        None => Seq::empty(),
    };
    let s = match scope_function(f) {
        Some(e) => seq!["Scope/Tip Hatası: "@ + e],
        None => Seq::empty(),
    };
    let t = match taint_function(fs, f) {
        Some(e) => seq!["Zero Trust İhlali: "@ + e],
        None => Seq::empty(),
    };
    d + s + t
}

/// The messages for the first `k` functions of the program `fs`.
pub open spec fn program_diagnostics(fs: Seq<SpecFunctionDef>, k: int) -> Seq<Seq<char>>
    decreases k,
{
    if k <= 0 {
        Seq::empty()
    } else {
        program_diagnostics(fs, k - 1) + function_diagnostics(fs, fs[k - 1])
    }
}

/// How a syntax error is shown.
pub open spec fn syntax_message(position: usize) -> Seq<char> {
    "Syntax Hatası:\nParseError { position: "@ + dec(position as nat) + " }"@
}

/// The messages an editor shows for a text: one syntax error, or the errors
/// of every function.
pub open spec fn text_diagnostics(text: Seq<char>) -> Seq<Seq<char>> {
    let t = without_bom(text);
    match program(t) {
        Some((_, fs)) => program_diagnostics(fs, fs.len() as int),
        None => seq![syntax_message(skip(t, 0) as usize)],
    }
}

fn push_message(out: &mut Vec<String>, head: &str, e: &String)
    ensures
        view_strings(final(out)@) == view_strings(old(out)@).push(head@ + e@),
{
    let mut m = str_to_string(head);
    push_str(&mut m, e.as_str());
    let ghost before = view_strings(out@);
    out.push(m);
    proof {
        assert(view_strings(out@) =~= before.push(head@ + e@));
    }
}

/// Adds the messages for one function.
fn function_messages(out: &mut Vec<String>, f: &FunctionDef, symbols: &SymbolTable)
    ensures
        view_strings(final(out)@) == view_strings(old(out)@) + function_diagnostics(
            symbols.spec_functions(),
            view_function(*f),
        ),
{
    reveal(function_diagnostics);
    let ghost before = view_strings(out@);
    if let Err(e) = DeterminismAnalyzer::check(f, symbols) {
        push_message(out, "Determinism Hatası: ", &e);
    }
    let mut scope_pass = ScopeAnalyzer::new();
    if let Err(e) = scope_pass.analyze(f) {
        push_message(out, "Scope/Tip Hatası: ", &e);
    }
    if let Err(e) = TaintAnalyzer::check(f, symbols) {
        push_message(out, "Zero Trust İhlali: ", &e);
    }
    proof {
        assert(view_strings(out@) =~= before + function_diagnostics(
            symbols.spec_functions(),
            view_function(*f),
        ));
    }
}

/// The diagnostics for a text, as an editor shows them.
pub fn diagnostics(text: &str) -> (r: Vec<String>)
    ensures
        view_strings(r@) == text_diagnostics(text@),
{
    let content = strip_bom(text);
    let mut out: Vec<String> = Vec::new();
    match parse_program(content.as_str()) {
        Ok((_, functions)) => {
            let symbols = SymbolTable::new(dup_functions(&functions));
            let ghost fs = view_functions(functions@);
            proof {
                assert(view_strings(out@) =~= program_diagnostics(fs, 0));
            }
            let mut i: usize = 0;
            while i < functions.len()
                invariant
                    i <= functions.len(),
                    fs == view_functions(functions@),
                    symbols.spec_functions() == fs,
                    view_strings(out@) == program_diagnostics(fs, i as int),
                decreases functions.len() - i,
            {
                proof {
                    assert(fs[i as int] == view_function(functions@[i as int]));
                }
                function_messages(&mut out, &functions[i], &symbols);
                i += 1;
            }
        },
        Err(e) => {
            let mut m = str_to_string("Syntax Hatası:\nParseError { position: ");
            let n = usize_to_string(e.position);
            push_str(&mut m, n.as_str());
            push_str(&mut m, " }");
            out.push(m);
            proof {
                assert(view_strings(out@) =~= seq![syntax_message(e.position)]);
            }
        },
    }
    out
}


// ───────────────────────── modules ─────────────────────────

/// The number of items, counting those inside modules.
pub open spec fn tl_size(items: Seq<SpecTopLevel>) -> nat
    decreases items, 1nat,
{
    if items.len() == 0 {
        0
    } else {
        tl_size(items.drop_last()) + tl_item_size(items.last())
    }
}

pub open spec fn tl_item_size(t: SpecTopLevel) -> nat
    decreases t, 0nat,
{
    match t {
        SpecTopLevel::Module(_, inner) => 1 + tl_size(inner),
        _ => 1,
    }
}

/// The item is a module named `n`.
pub open spec fn is_module_named(t: SpecTopLevel, n: Seq<char>) -> bool {
    t matches SpecTopLevel::Module(m, _) && m == n
}

/// The contents of every module named `n` among the items, in order.
pub open spec fn module_contents(items: Seq<SpecTopLevel>, n: Seq<char>) -> Seq<SpecTopLevel>
    decreases items.len(),
{
    if items.len() == 0 {
        Seq::empty()
    } else {
        module_contents(items.drop_last(), n) + match items.last() {
            SpecTopLevel::Module(m, inner) => if m == n {
                inner
            } else {
                Seq::empty()
            },
            _ => Seq::empty(),
        }
    }
}

/// A module named `n` stands among the first `i` items.
pub open spec fn module_before(items: Seq<SpecTopLevel>, n: Seq<char>, i: int) -> bool {
    exists|j: int| 0 <= j < i && j < items.len() && is_module_named(#[trigger] items[j], n)
}

pub proof fn lemma_size_concat(a: Seq<SpecTopLevel>, b: Seq<SpecTopLevel>)
    ensures
        tl_size(a + b) == tl_size(a) + tl_size(b),
    decreases b.len(),
{
    if b.len() == 0 {
        assert(a + b =~= a);
    } else {
        lemma_size_concat(a, b.drop_last());
        assert((a + b).drop_last() =~= a + b.drop_last());
        assert((a + b).last() == b.last());
    }
}

proof fn lemma_contents_le(items: Seq<SpecTopLevel>, n: Seq<char>)
    ensures
        tl_size(module_contents(items, n)) <= tl_size(items),
    decreases items.len(),
{
    if items.len() > 0 {
        lemma_contents_le(items.drop_last(), n);
        let x = match items.last() {
            SpecTopLevel::Module(m, inner) => if m == n {
                inner
            } else {
                Seq::empty()
            },
            _ => Seq::empty(),
        };
        lemma_size_concat(module_contents(items.drop_last(), n), x);
        assert(tl_size(Seq::<SpecTopLevel>::empty()) == 0);
        assert(tl_size(x) <= tl_item_size(items.last()));
    }
}

/// The contents of the modules named `n` are smaller than the items, when
/// such a module is among them.
pub proof fn lemma_contents_lt(items: Seq<SpecTopLevel>, n: Seq<char>, i: int)
    requires
        0 <= i < items.len(),
        is_module_named(items[i], n),
    ensures
        tl_size(module_contents(items, n)) < tl_size(items),
    decreases items.len(),
{
    let x = match items.last() {
        SpecTopLevel::Module(m, inner) => if m == n {
            inner
        } else {
            Seq::empty()
        },
        _ => Seq::empty(),
    };
    lemma_size_concat(module_contents(items.drop_last(), n), x);
    assert(tl_size(Seq::<SpecTopLevel>::empty()) == 0);
    assert(tl_size(x) <= tl_item_size(items.last()));
    if i == items.len() - 1 {
        assert(tl_size(x) < tl_item_size(items.last()));
        lemma_contents_le(items.drop_last(), n);
    } else {
        assert(items.drop_last()[i] == items[i]);
        lemma_contents_lt(items.drop_last(), n, i);
    }
}

/// The items with modules of the same name merged into the first of them:
/// its contents are the contents of all of them, in order, merged in turn.
pub open spec fn merged(items: Seq<SpecTopLevel>) -> Seq<SpecTopLevel>
    decreases tl_size(items), 1int, 0int,
{
    merged_from(items, 0)
}

/// What `merged` gives for the items from position `i` on.
pub open spec fn merged_from(items: Seq<SpecTopLevel>, i: int) -> Seq<SpecTopLevel>
    decreases tl_size(items), 0int, items.len() - i,
{
    if i < 0 || i >= items.len() {
        Seq::empty()
    } else {
        match items[i] {
            SpecTopLevel::Module(n, _) => if module_before(items, n, i) {
                merged_from(items, i + 1)
            } else {
                proof {
                    lemma_contents_lt(items, n, i);
                }
                seq![SpecTopLevel::Module(n, merged(module_contents(items, n)))] + merged_from(
                    items,
                    i + 1,
                )
            },
            other => seq![other] + merged_from(items, i + 1),
        }
    }
}

pub proof fn lemma_view_toplevels_append(a: Seq<TopLevel>, b: Seq<TopLevel>)
    ensures
        view_toplevels(a + b) == view_toplevels(a) + view_toplevels(b),
    decreases b.len(),
{
    if b.len() == 0 {
        assert(a + b =~= a);
        assert(view_toplevels(a) + view_toplevels(b) =~= view_toplevels(a));
    } else {
        lemma_view_toplevels_append(a, b.drop_last());
        assert((a + b).drop_last() =~= a + b.drop_last());
        assert((a + b).last() == b.last());
        assert(view_toplevels(a) + view_toplevels(b) =~= (view_toplevels(a) + view_toplevels(
            b.drop_last(),
        )).push(view_toplevel(b.last())));
    }
}

fn module_contents_exec(items: &Vec<TopLevel>, n: &String) -> (r: Vec<TopLevel>)
    ensures
        view_toplevels(r@) == module_contents(view_toplevels(items@), n@),
{
    let ghost v = view_toplevels(items@);
    proof {
        crate::ast::lemma_view_toplevels(items@);
        assert(module_contents(v.take(0), n@) =~= Seq::empty());
        assert(view_toplevels(Seq::<TopLevel>::empty()) =~= Seq::empty());
    }
    let mut r: Vec<TopLevel> = Vec::new();
    let mut i: usize = 0;
    while i < items.len()
        invariant
            i <= items.len(),
            v == view_toplevels(items@),
            v.len() == items.len(),
            forall|j: int| 0 <= j < v.len() ==> #[trigger] v[j] == view_toplevel(items@[j]),
            view_toplevels(r@) == module_contents(v.take(i as int), n@),
        decreases items.len() - i,
    {
        proof {
            assert(v.take(i + 1).drop_last() =~= v.take(i as int));
            assert(v.take(i + 1).last() == v[i as int]);
        }
        match &items[i] {
            TopLevel::Module(m, inner) => {
                if m.as_str().unicode_len() == n.as_str().unicode_len() && crate::text::str_eq(
                    m.as_str(),
                    n.as_str(),
                ) {
                    let mut d = crate::duplicate::dup_toplevels(inner);
                    let ghost before = r@;
                    let ghost added = d@;
                    r.append(&mut d);
                    proof {
                        lemma_view_toplevels_append(before, added);
                    }
                } else {
                    proof {
                        assert(view_toplevels(r@) + Seq::<SpecTopLevel>::empty() =~= view_toplevels(
                            r@,
                        ));
                    }
                }
            },
            _ => {
                proof {
                    assert(view_toplevels(r@) + Seq::<SpecTopLevel>::empty() =~= view_toplevels(r@));
                }
            },
        }
        i += 1;
    }
    proof {
        assert(v.take(i as int) =~= v);
    }
    r
}

fn module_before_exec(items: &Vec<TopLevel>, n: &String, i: usize) -> (r: bool)
    requires
        i <= items.len(),
    ensures
        r == module_before(view_toplevels(items@), n@, i as int),
{
    let ghost v = view_toplevels(items@);
    proof {
        crate::ast::lemma_view_toplevels(items@);
    }
    let mut j: usize = 0;
    while j < i
        invariant
            j <= i <= items.len(),
            v == view_toplevels(items@),
            v.len() == items.len(),
            forall|k: int| 0 <= k < v.len() ==> #[trigger] v[k] == view_toplevel(items@[k]),
            forall|k: int| 0 <= k < j ==> !is_module_named(#[trigger] v[k], n@),
        decreases i - j,
    {
        if let TopLevel::Module(m, _) = &items[j] {
            if crate::text::str_eq(m.as_str(), n.as_str()) {
                assert(is_module_named(v[j as int], n@));
                return true;
            }
        }
        j += 1;
    }
    false
}

/// Merges modules of the same name into the first of them, as the compiler
/// does after reading imports; other items keep their places.
pub fn merge_toplevels(items: Vec<TopLevel>) -> (r: Vec<TopLevel>)
    ensures
        view_toplevels(r@) == merged(view_toplevels(items@)),
    decreases tl_size(view_toplevels(items@)),
{
    let ghost v = view_toplevels(items@);
    proof {
        crate::ast::lemma_view_toplevels(items@);
        assert(view_toplevels(Seq::<TopLevel>::empty()) + merged_from(v, 0) =~= merged(v));
    }
    let mut out: Vec<TopLevel> = Vec::new();
    let mut i: usize = 0;
    while i < items.len()
        invariant
            i <= items.len(),
            v == view_toplevels(items@),
            v.len() == items.len(),
            forall|j: int| 0 <= j < v.len() ==> #[trigger] v[j] == view_toplevel(items@[j]),
            merged(v) == view_toplevels(out@) + merged_from(v, i as int),
        decreases items.len() - i,
    {
        match &items[i] {
            TopLevel::Module(n, _) => {
                if !module_before_exec(&items, n, i) {
                    let contents = module_contents_exec(&items, n);
                    proof {
                        assert(is_module_named(v[i as int], n@));
                        lemma_contents_lt(v, n@, i as int);
                    }
                    let inner = merge_toplevels(contents);
                    let m = TopLevel::Module(n.clone(), inner);
                    proof {
                        crate::duplicate::lemma_view_toplevels_push(out@, m);
                        assert(merged_from(v, i as int) == seq![view_toplevel(m)] + merged_from(
                            v,
                            i + 1,
                        ));
                        assert(view_toplevels(out@.push(m)) + merged_from(v, i + 1) =~= view_toplevels(
                            out@,
                        ) + merged_from(v, i as int));
                    }
                    out.push(m);
                } else {
                    proof {
                        assert(merged_from(v, i as int) == merged_from(v, i + 1));
                    }
                }
            },
            other => {
                let x = crate::duplicate::dup_toplevel(other);
                proof {
                    crate::duplicate::lemma_view_toplevels_push(out@, x);
                    assert(merged_from(v, i as int) == seq![view_toplevel(x)] + merged_from(v, i + 1));
                    assert(view_toplevels(out@.push(x)) + merged_from(v, i + 1) =~= view_toplevels(
                        out@,
                    ) + merged_from(v, i as int));
                }
                out.push(x);
            },
        }
        i += 1;
    }
    proof {
        assert(merged_from(v, i as int) =~= Seq::empty());
        assert(view_toplevels(out@) + Seq::<SpecTopLevel>::empty() =~= view_toplevels(out@));
    }
    out
}


/// The items of an imported file placed under its module path: `a::b`
/// gives a module `a` holding a module `b` holding the items.
pub open spec fn nested(path: Seq<Seq<char>>, items: Seq<SpecTopLevel>) -> SpecTopLevel
    decreases path.len(),
{
    if path.len() <= 1 {
        SpecTopLevel::Module(path[0], items)
    } else {
        SpecTopLevel::Module(path[0], seq![nested(path.drop_first(), items)])
    }
}

/// Places the items of an imported file under its module path.
pub fn nest_module(path: &Vec<String>, items: Vec<TopLevel>) -> (r: TopLevel)
    requires
        path.len() > 0,
    ensures
        view_toplevel(r) == nested(view_strings(path@), view_toplevels(items@)),
{
    let ghost p = view_strings(path@);
    let ghost v = view_toplevels(items@);
    let last = path.len() - 1;
    let mut node = TopLevel::Module(path[last].clone(), items);
    proof {
        assert(p.subrange(last as int, p.len() as int) =~= seq![path@[last as int]@]);
    }
    let mut i = last;
    while i > 0
        invariant
            i <= last < path.len(),
            last == path.len() - 1,
            p == view_strings(path@),
            view_toplevel(node) == nested(p.subrange(i as int, p.len() as int), v),
        decreases i,
    {
        i -= 1;
        let mut wrap: Vec<TopLevel> = Vec::new();
        proof {
            crate::duplicate::lemma_view_toplevels_push(wrap@, node);
            assert(view_toplevels(Seq::<TopLevel>::empty()) =~= Seq::<SpecTopLevel>::empty());
        }
        wrap.push(node);
        node = TopLevel::Module(path[i].clone(), wrap);
        proof {
            let q = p.subrange(i as int, p.len() as int);
            assert(q.drop_first() =~= p.subrange(i + 1, p.len() as int));
            assert(q[0] == path@[i as int]@);
            assert(seq![view_toplevel(wrap@[0])] =~= view_toplevels(wrap@));
        }
    }
    proof {
        assert(p.subrange(0, p.len() as int) =~= p);
    }
    node
}

} // verus!
