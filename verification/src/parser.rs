//! The parser: executable functions that read Zet source text exactly as the
//! grammar in `grammar` describes it. Each one states that its answer is the
//! grammar's answer at the same position, and that it only moves forward.
use vstd::prelude::*;
use crate::ast::{
    view_function,
    view_functions,
    view_param,
    view_params,
    view_typeref,
    view_typerefs,
    FunctionDef,
    Param,
    Purity,
    SpecFunctionDef,
    SpecParam,
    SpecTypeRef,
    TypeRef,
    view_block,
    view_stmt,
    view_stmts,
    AssignOp,
    Block,
    LetStmt,
    SpecBlock,
    SpecStatement,
    Statement,
    view_expr,
    view_exprs,
    view_parts,
    Expr,
    InfraCall,
    InfraConfig,
    InterpolPart,
    Literal,
    SpecExpr,
    UnaryOp,
};
use crate::grammar::{
    array_type,
    tuple_type,
    function,
    functions,
    param,
    params,
    params_rest,
    program,
    purity,
    type_core,
    type_list,
    type_list_rest,
    type_ref,
    assign_stmt,
    block,
    block_rest,
    braced,
    const_stmt,
    expr_stmt,
    for_stmt,
    if_stmt,
    jump_stmt,
    let_stmt,
    return_stmt,
    scope_stmt,
    stmt,
    validate_stmt,
    while_stmt,
    array,
    atom,
    call,
    call_name,
    dot_rest,
    expr,
    expr_list,
    expr_list_rest,
    flush,
    index_rest,
    infra,
    input_call,
    json,
    level,
    level_rest,
    paren,
    paren_args,
    primary,
    print_call,
    spawn,
    string,
    string_body,
    token_expr,
    unary,
    word_expr,
};
use crate::lexer::{
    skip,
    tag_exec,
    at_exec,
    binop_exec,
    char_is_alphabetic,
    char_lit_exec,
    escape_exec,
    find_char_exec,
    float_exec,
    forward,
    ident_exec,
    index_number_exec,
    kw_exec,
    number_exec,
    plain_string_exec,
    skip_exec,
    ws_char_exec,
    ws_tag_exec,
    ws_kw_either_exec,
    ws_kw_exec,
};
use crate::text::{chars_of, str_to_string, string_from_chars};

verus! {

broadcast use {crate::lexer::group_lexer_bounds, crate::lexer::group_token_bounds};

/// `r` is the grammar's answer `g` for an expression read at `p`.
pub open spec fn expr_found(
    s: Seq<char>,
    p: int,
    r: Option<(usize, Expr)>,
    g: Option<(int, SpecExpr)>,
) -> bool {
    match r {
        Some((q, e)) => g == Some((q as int, view_expr(e))) && forward(s, p, q as int),
        None => g is None,
    }
}

/// `r` is the grammar's answer `g` for a list of expressions read at `p`.
pub open spec fn exprs_found(s: Seq<char>, p: int, r: (usize, Vec<Expr>), g: (int, Seq<SpecExpr>)) -> bool {
    r.0 as int == g.0 && view_exprs(r.1@) == g.1 && p <= r.0 <= s.len()
}

pub proof fn lemma_view_exprs_push(v: Seq<Expr>, e: Expr)
    ensures
        view_exprs(v.push(e)) == view_exprs(v).push(view_expr(e)),
{
    assert(v.push(e).drop_last() =~= v);
}

pub proof fn lemma_view_parts_push(v: Seq<InterpolPart>, x: InterpolPart)
    ensures
        view_parts(v.push(x)) == view_parts(v).push(
            match x {
                InterpolPart::Lit(t) => crate::ast::SpecInterpolPart::Lit(t@),
                InterpolPart::Expr(e) => crate::ast::SpecInterpolPart::Expr(view_expr(e)),
            },
        ),
{
    assert(v.push(x).drop_last() =~= v);
}

/// A copy of `s[a..b]`.
fn sub_chars(s: &Vec<char>, a: usize, b: usize) -> (r: Vec<char>)
    requires
        a <= b <= s.len(),
    ensures
        r@ == s@.subrange(a as int, b as int),
{
    let mut r: Vec<char> = Vec::new();
    let mut i = a;
    while i < b
        invariant
            a <= i <= b <= s.len(),
            r@ == s@.subrange(a as int, i as int),
        decreases b - i,
    {
        r.push(s[i]);
        proof {
            assert(s@.subrange(a as int, i + 1) =~= s@.subrange(a as int, i as int).push(s@[i as int]));
        }
        i += 1;
    }
    r
}

// ───────────────────────── small pieces ─────────────────────────

fn call_name_exec(s: &Vec<char>, p: usize) -> (r: Option<(usize, String)>)
    requires
        p <= s.len(),
    ensures
        match r {
            Some((q, n)) => call_name(s@, p as int) == Some((q as int, n@)) && forward(s@, p as int, q as int),
            None => call_name(s@, p as int) is None,
        },
{
    match ident_exec(s, p) {
        Some((b, n)) => {
            if b < s.len() && s[b] == '.' {
                match ident_exec(s, b + 1) {
                    Some((c, _)) => Some((c, string_from_chars(s, p, c))),
                    None => Some((b, n)),
                }
            } else {
                Some((b, n))
            }
        },
        None => None,
    }
}

fn dot_rest_exec(s: &Vec<char>, p: usize, e: Expr) -> (r: (usize, Expr))
    requires
        p <= s.len(),
    ensures
        dot_rest(s@, p as int, view_expr(e)) == (r.0 as int, view_expr(r.1)),
        p <= r.0 <= s.len(),
{
    let ghost g = dot_rest(s@, p as int, view_expr(e));
    let mut q = p;
    let mut e = e;
    loop
        invariant
            p <= q <= s.len(),
            dot_rest(s@, q as int, view_expr(e)) == g,
        ensures
            p <= q <= s.len(),
            g == (q as int, view_expr(e)),
        decreases s.len() - q,
    {
        if !(q < s.len() && s[q] == '.') {
            break;
        }
        match index_number_exec(s, q + 1) {
            Some((t, n)) => {
                if t < s.len() && (char_is_alphabetic(s[t]) || s[t] == '_') {
                    break;
                }
                e = Expr::TupleIndex(Box::new(e), n);
                q = t;
            },
            None => {
                break;
            },
        }
    }
    (q, e)
}

/// The character itself: a `char` taken out of a tuple comes back with the
/// knowledge that it is a valid `char`, which the verifier otherwise lacks.
fn same_char(c: char) -> (r: char)
    ensures
        r == c,
{
    c
}

fn token_expr_exec(s: &Vec<char>, p: usize) -> (r: Option<(usize, Expr)>)
    requires
        p <= s.len(),
    ensures
        expr_found(s@, p as int, r, token_expr(s@, p as int)),
{
    if let Some((q, t)) = float_exec(s, p) {
        return Some((q, Expr::Literal(Literal::Float(t))));
    }
    if let Some((q, n)) = number_exec(s, p) {
        return Some((q, Expr::Literal(Literal::Int(n))));
    }
    match char_lit_exec(s, p) {
        Some((q, c)) => Some((q, Expr::Literal(Literal::Char(same_char(c))))),
        None => None,
    }
}

fn word_expr_exec(s: &Vec<char>, p: usize) -> (r: Option<(usize, Expr)>)
    requires
        p <= s.len(),
    ensures
        expr_found(s@, p as int, r, word_expr(s@, p as int)),
{
    proof {
        reveal_strlit("true");
        reveal_strlit("false");
    }
    if let Some(q) = kw_exec(s, p, "true") {
        return Some((q, Expr::Literal(Literal::Bool(true))));
    }
    if let Some(q) = kw_exec(s, p, "false") {
        return Some((q, Expr::Literal(Literal::Bool(false))));
    }
    match ident_exec(s, p) {
        Some((q, n)) => Some((q, Expr::Identifier(n))),
        None => None,
    }
}

// ───────────────────────── expressions ─────────────────────────

/// Reads an expression at `p`.
pub fn expr_exec(s: &Vec<char>, p: usize) -> (r: Option<(usize, Expr)>)
    requires
        p <= s.len(),
    ensures
        expr_found(s@, p as int, r, expr(s@, p as int)),
    decreases s.len() - p, 40int,
{
    level_exec(s, p, 0)
}

fn level_exec(s: &Vec<char>, p: usize, lvl: usize) -> (r: Option<(usize, Expr)>)
    requires
        p <= s.len(),
    ensures
        expr_found(s@, p as int, r, level(s@, p as int, lvl as nat)),
    decreases s.len() - p, 30 - (if lvl < 9 {
        lvl as int
    } else {
        9int
    }),
{
    if lvl >= 9 {
        return unary_exec(s, p);
    }
    let (q0, l0) = match level_exec(s, p, lvl + 1) {
        Some(x) => x,
        None => {
            return None;
        },
    };
    let ghost g = level_rest(s@, q0 as int, view_expr(l0), lvl as nat);
    let mut q = q0;
    let mut l = l0;
    loop
        invariant
            p < q <= s.len(),
            lvl < 9,
            level_rest(s@, q as int, view_expr(l), lvl as nat) == g,
        ensures
            p < q <= s.len(),
            g == (q as int, view_expr(l)),
        decreases s.len() - q,
    {
        let (a, op) = match binop_exec(s, q, lvl) {
            Some(x) => x,
            None => {
                break;
            },
        };
        match level_exec(s, a, lvl + 1) {
            Some((q2, r)) => {
                l = Expr::Binary(Box::new(l), op, Box::new(r));
                q = q2;
            },
            None => {
                break;
            },
        }
    }
    Some((q, l))
}

fn unary_exec(s: &Vec<char>, p: usize) -> (r: Option<(usize, Expr)>)
    requires
        p <= s.len(),
    ensures
        expr_found(s@, p as int, r, unary(s@, p as int)),
    decreases s.len() - p, 20int,
{
    if let Some(a) = ws_char_exec(s, p, '!') {
        if let Some((q, e)) = unary_exec(s, a) {
            return Some((q, Expr::Unary(UnaryOp::Not, Box::new(e))));
        }
    }
    if let Some(a) = ws_char_exec(s, p, '-') {
        if let Some((q, e)) = unary_exec(s, a) {
            return Some((q, Expr::Unary(UnaryOp::Neg, Box::new(e))));
        }
    }
    atom_exec(s, p)
}

fn atom_exec(s: &Vec<char>, p: usize) -> (r: Option<(usize, Expr)>)
    requires
        p <= s.len(),
    ensures
        expr_found(s@, p as int, r, atom(s@, p as int)),
    decreases s.len() - p, 19int,
{
    let (q, e) = match primary_exec(s, p) {
        Some(x) => x,
        None => {
            return None;
        },
    };
    let (t, e2) = index_rest_exec(s, q, e);
    let (u, e3) = dot_rest_exec(s, t, e2);
    Some((u, e3))
}

fn index_rest_exec(s: &Vec<char>, p: usize, e: Expr) -> (r: (usize, Expr))
    requires
        p <= s.len(),
    ensures
        index_rest(s@, p as int, view_expr(e)) == (r.0 as int, view_expr(r.1)),
        p <= r.0 <= s.len(),
    decreases s.len() - p, 0int,
{
    let ghost g = index_rest(s@, p as int, view_expr(e));
    let mut q = p;
    let mut e = e;
    loop
        invariant
            p <= q <= s.len(),
            index_rest(s@, q as int, view_expr(e)) == g,
        ensures
            p <= q <= s.len(),
            g == (q as int, view_expr(e)),
        decreases s.len() - q,
    {
        let a = match ws_char_exec(s, q, '[') {
            Some(a) => a,
            None => {
                break;
            },
        };
        let (b, i) = match expr_exec(s, a) {
            Some(x) => x,
            None => {
                break;
            },
        };
        let c = match ws_char_exec(s, b, ']') {
            Some(c) => c,
            None => {
                break;
            },
        };
        e = Expr::Index(Box::new(e), Box::new(i));
        q = c;
    }
    (q, e)
}

fn primary_exec(s: &Vec<char>, p: usize) -> (r: Option<(usize, Expr)>)
    requires
        p <= s.len(),
    ensures
        expr_found(s@, p as int, r, primary(s@, p as int)),
    decreases s.len() - p, 18int,
{
    let r = spawn_exec(s, p);
    if r.is_some() {
        return r;
    }
    let r = infra_exec(s, p);
    if r.is_some() {
        return r;
    }
    let r = json_exec(s, p);
    if r.is_some() {
        return r;
    }
    let r = print_call_exec(s, p);
    if r.is_some() {
        return r;
    }
    let r = input_call_exec(s, p);
    if r.is_some() {
        return r;
    }
    let r = call_exec(s, p);
    if r.is_some() {
        return r;
    }
    let r = array_exec(s, p);
    if r.is_some() {
        return r;
    }
    let r = token_expr_exec(s, p);
    if r.is_some() {
        return r;
    }
    let r = string_exec(s, p);
    if r.is_some() {
        return r;
    }
    let r = word_expr_exec(s, p);
    if r.is_some() {
        return r;
    }
    paren_exec(s, p)
}

fn spawn_exec(s: &Vec<char>, p: usize) -> (r: Option<(usize, Expr)>)
    requires
        p <= s.len(),
    ensures
        expr_found(s@, p as int, r, spawn(s@, p as int)),
    decreases s.len() - p, 17int,
{
    proof {
        reveal_strlit("spawn");
    }
    let a = match ws_kw_exec(s, p, "spawn") {
        Some(a) => a,
        None => {
            return None;
        },
    };
    match expr_exec(s, a) {
        Some((q, e)) => Some((q, Expr::Spawn(Box::new(e)))),
        None => None,
    }
}

fn infra_exec(s: &Vec<char>, p: usize) -> (r: Option<(usize, Expr)>)
    requires
        p <= s.len(),
    ensures
        expr_found(s@, p as int, r, infra(s@, p as int)),
    decreases s.len() - p, 17int,
{
    proof {
        reveal_strlit("call");
    }
    let a = match ws_kw_exec(s, p, "call") {
        Some(x) => x,
        None => {
            return None;
        },
    };
    let (b, service) = match ident_exec(s, a) {
        Some(x) => x,
        None => {
            return None;
        },
    };
    let c = match ws_char_exec(s, b, '.') {
        Some(x) => x,
        None => {
            return None;
        },
    };
    let (d, method) = match ident_exec(s, c) {
        Some(x) => x,
        None => {
            return None;
        },
    };
    let (g, args) = match paren_args_exec(s, d) {
        Some(x) => x,
        None => {
            return None;
        },
    };
    let h = match ws_char_exec(s, g, '{') {
        Some(x) => x,
        None => {
            return None;
        },
    };
    let i = match ws_kw_exec(s, h, "timeout") {
        Some(x) => x,
        None => {
            return None;
        },
    };
    let j = match ws_char_exec(s, i, ':') {
        Some(x) => x,
        None => {
            return None;
        },
    };
    let (k, t) = match number_exec(s, j) {
        Some(x) => x,
        None => {
            return None;
        },
    };
    let l = match ws_char_exec(s, k, '}') {
        Some(x) => x,
        None => {
            return None;
        },
    };
    Some(
        (
            l,
            Expr::Infra(
                InfraCall { service, method, args, config: InfraConfig { timeout_ms: t as u64 } },
            ),
        ),
    )
}

fn json_exec(s: &Vec<char>, p: usize) -> (r: Option<(usize, Expr)>)
    requires
        p <= s.len(),
    ensures
        expr_found(s@, p as int, r, json(s@, p as int)),
    decreases s.len() - p, 17int,
{
    proof {
        reveal_strlit("json");
    }
    let a = match ws_kw_exec(s, p, "json") {
        Some(x) => x,
        None => {
            return None;
        },
    };
    let b = match ws_char_exec(s, a, '(') {
        Some(x) => x,
        None => {
            return None;
        },
    };
    let (c, src) = match expr_exec(s, b) {
        Some(x) => x,
        None => {
            return None;
        },
    };
    let d = match ws_char_exec(s, c, ',') {
        Some(x) => x,
        None => {
            return None;
        },
    };
    let d2 = skip_exec(s, d);
    let (e, key) = match plain_string_exec(s, d2) {
        Some(x) => x,
        None => {
            return None;
        },
    };
    let e2 = skip_exec(s, e);
    let f = match ws_char_exec(s, e2, ')') {
        Some(x) => x,
        None => {
            return None;
        },
    };
    Some((f, Expr::JsonField(Box::new(src), key)))
}

fn paren_args_exec(s: &Vec<char>, p: usize) -> (r: Option<(usize, Vec<Expr>)>)
    requires
        p <= s.len(),
    ensures
        match r {
            Some((q, v)) => paren_args(s@, p as int) == Some((q as int, view_exprs(v@))) && forward(
                s@,
                p as int,
                q as int,
            ),
            None => paren_args(s@, p as int) is None,
        },
    decreases s.len() - p, 17int,
{
    let a = match ws_char_exec(s, p, '(') {
        Some(x) => x,
        None => {
            return None;
        },
    };
    let (b, args) = expr_list_exec(s, a);
    match ws_char_exec(s, b, ')') {
        Some(c) => Some((c, args)),
        None => None,
    }
}

fn print_call_exec(s: &Vec<char>, p: usize) -> (r: Option<(usize, Expr)>)
    requires
        p <= s.len(),
    ensures
        expr_found(s@, p as int, r, print_call(s@, p as int)),
    decreases s.len() - p, 17int,
{
    proof {
        reveal_strlit("println");
        reveal_strlit("print");
    }
    let (b, name) = match ws_kw_either_exec(s, p, "println", "print") {
        Some(x) => x,
        None => {
            return None;
        },
    };
    match paren_args_exec(s, b) {
        Some((c, args)) => Some((c, Expr::Call(name, args, false))),
        None => None,
    }
}

fn input_call_exec(s: &Vec<char>, p: usize) -> (r: Option<(usize, Expr)>)
    requires
        p <= s.len(),
    ensures
        expr_found(s@, p as int, r, input_call(s@, p as int)),
    decreases s.len() - p, 17int,
{
    proof {
        reveal_strlit("inputln");
        reveal_strlit("input");
    }
    let called = ws_kw_exec(s, p, "call");
    let a = match called {
        Some(x) => x,
        None => p,
    };
    let (b, name) = match ws_kw_either_exec(s, a, "inputln", "input") {
        Some(x) => x,
        None => {
            return None;
        },
    };
    match paren_args_exec(s, b) {
        Some((c, args)) => Some((c, Expr::Call(name, args, called.is_some()))),
        None => None,
    }
}

fn call_exec(s: &Vec<char>, p: usize) -> (r: Option<(usize, Expr)>)
    requires
        p <= s.len(),
    ensures
        expr_found(s@, p as int, r, call(s@, p as int)),
    decreases s.len() - p, 17int,
{
    let called = ws_kw_exec(s, p, "call");
    let a = match called {
        Some(x) => x,
        None => p,
    };
    let (b, name) = match call_name_exec(s, a) {
        Some(x) => x,
        None => {
            return None;
        },
    };
    match paren_args_exec(s, b) {
        Some((c, args)) => Some((c, Expr::Call(name, args, called.is_some()))),
        None => None,
    }
}

fn array_exec(s: &Vec<char>, p: usize) -> (r: Option<(usize, Expr)>)
    requires
        p <= s.len(),
    ensures
        expr_found(s@, p as int, r, array(s@, p as int)),
    decreases s.len() - p, 17int,
{
    let a = match ws_char_exec(s, p, '[') {
        Some(x) => x,
        None => {
            return None;
        },
    };
    let (b, items) = expr_list_exec(s, a);
    match ws_char_exec(s, b, ']') {
        Some(c) => Some((c, Expr::ArrayLiteral(items))),
        None => None,
    }
}

/// The parts `parts` with the pending text `lit` added when there is any.
fn flush_exec(parts: &mut Vec<InterpolPart>, lit: &Vec<char>)
    ensures
        view_parts(final(parts)@) == flush(view_parts(old(parts)@), lit@),
{
    if lit.len() > 0 {
        let t = string_from_chars(lit, 0, lit.len());
        proof {
            assert(lit@.subrange(0, lit@.len() as int) =~= lit@);
            lemma_view_parts_push(parts@, InterpolPart::Lit(t));
        }
        parts.push(InterpolPart::Lit(t));
    }
}

fn string_exec(s: &Vec<char>, p: usize) -> (r: Option<(usize, Expr)>)
    requires
        p <= s.len(),
    ensures
        expr_found(s@, p as int, r, string(s@, p as int)),
    decreases s.len() - p, 17int,
{
    if !(p < s.len() && s[p] == '"') {
        return None;
    }
    proof {
        reveal_strlit("${");
    }
    let mut parts: Vec<InterpolPart> = Vec::new();
    let mut lit: Vec<char> = Vec::new();
    let mut interp = false;
    let mut q = p + 1;
    while q < s.len()
        invariant
            p < q <= s.len(),
            string(s@, p as int) == string_body(s@, q as int, view_parts(parts@), lit@, interp),
        decreases s.len() - q,
    {
        if s[q] == '"' {
            if interp {
                flush_exec(&mut parts, &lit);
                return Some((q + 1, Expr::Interpolation(parts)));
            } else {
                let t = string_from_chars(&lit, 0, lit.len());
                proof {
                    assert(lit@.subrange(0, lit@.len() as int) =~= lit@);
                }
                return Some((q + 1, Expr::Literal(Literal::Str(t))));
            }
        }
        proof {
            reveal_strlit("${");
        }
        if at_exec(s, q, "${") {
            let e = match find_char_exec(s, q + 2, '}') {
                Some(x) => x,
                None => {
                    return None;
                },
            };
            let sub = sub_chars(s, q + 2, e);
            let x = match expr_exec(&sub, 0) {
                Some((_, x)) => x,
                None => {
                    return None;
                },
            };
            flush_exec(&mut parts, &lit);
            proof {
                lemma_view_parts_push(parts@, InterpolPart::Expr(x));
            }
            parts.push(InterpolPart::Expr(x));
            lit = Vec::new();
            interp = true;
            q = e + 1;
            continue;
        }
        if s[q] == '\\' && q + 1 < s.len() {
            if let Some(c) = escape_exec(s[q + 1]) {
                lit.push(c);
                q = q + 2;
                continue;
            }
        }
        lit.push(s[q]);
        q = q + 1;
    }
    None
}

fn paren_exec(s: &Vec<char>, p: usize) -> (r: Option<(usize, Expr)>)
    requires
        p <= s.len(),
    ensures
        expr_found(s@, p as int, r, paren(s@, p as int)),
    decreases s.len() - p, 17int,
{
    let a = match ws_char_exec(s, p, '(') {
        Some(x) => x,
        None => {
            return None;
        },
    };
    let (b, first) = match expr_exec(s, a) {
        Some(x) => x,
        None => {
            return None;
        },
    };
    match ws_char_exec(s, b, ',') {
        Some(c) => {
            let (d, rest) = expr_list_exec(s, c);
            let e = match ws_char_exec(s, d, ',') {
                Some(x) => x,
                None => d,
            };
            match ws_char_exec(s, e, ')') {
                Some(f) => Some((f, Expr::TupleLiteral(cons_exprs(first, rest)))),
                None => None,
            }
        },
        None => match ws_char_exec(s, b, ')') {
            Some(f) => Some((f, first)),
            None => None,
        },
    }
}

/// `first` followed by `rest`.
fn cons_exprs(first: Expr, rest: Vec<Expr>) -> (r: Vec<Expr>)
    ensures
        view_exprs(r@) == seq![view_expr(first)] + view_exprs(rest@),
{
    let mut all: Vec<Expr> = Vec::new();
    proof {
        lemma_view_exprs_push(all@, first);
    }
    all.push(first);
    let ghost head = all@;
    let mut rest = rest;
    let ghost tail = rest@;
    all.append(&mut rest);
    proof {
        lemma_view_exprs_append(head, tail);
    }
    all
}

pub proof fn lemma_view_exprs_append(a: Seq<Expr>, b: Seq<Expr>)
    ensures
        view_exprs(a + b) == view_exprs(a) + view_exprs(b),
    decreases b.len(),
{
    if b.len() == 0 {
        assert(a + b =~= a);
        assert(view_exprs(a) + view_exprs(b) =~= view_exprs(a));
    } else {
        lemma_view_exprs_append(a, b.drop_last());
        assert((a + b).drop_last() =~= a + b.drop_last());
        assert((a + b).last() == b.last());
        assert(view_exprs(a) + view_exprs(b) =~= (view_exprs(a) + view_exprs(b.drop_last())).push(
            view_expr(b.last()),
        ));
    }
}

fn expr_list_exec(s: &Vec<char>, p: usize) -> (r: (usize, Vec<Expr>))
    requires
        p <= s.len(),
    ensures
        exprs_found(s@, p as int, r, expr_list(s@, p as int)),
    decreases s.len() - p, 41int,
{
    let (q0, e0) = match expr_exec(s, p) {
        Some(x) => x,
        None => {
            return (p, Vec::new());
        },
    };
    let mut v: Vec<Expr> = Vec::new();
    proof {
        lemma_view_exprs_push(v@, e0);
    }
    v.push(e0);
    let mut q = q0;
    loop
        invariant
            p < q <= s.len(),
            expr_list(s@, p as int) == expr_list_rest(s@, q as int, view_exprs(v@)),
        ensures
            p < q <= s.len(),
            expr_list(s@, p as int) == (q as int, view_exprs(v@)),
        decreases s.len() - q,
    {
        let a = match ws_char_exec(s, q, ',') {
            Some(x) => x,
            None => {
                break;
            },
        };
        match expr_exec(s, a) {
            Some((q2, e)) => {
                proof {
                    lemma_view_exprs_push(v@, e);
                }
                v.push(e);
                q = q2;
            },
            None => {
                break;
            },
        }
    }
    (q, v)
}


// ───────────────────────── statements ─────────────────────────

/// `r` is the grammar's answer `g` for a statement read at `p`.
pub open spec fn stmt_found(
    s: Seq<char>,
    p: int,
    r: Option<(usize, Statement)>,
    g: Option<(int, SpecStatement)>,
) -> bool {
    match r {
        Some((q, x)) => g == Some((q as int, view_stmt(x))) && forward(s, p, q as int),
        None => g is None,
    }
}

pub proof fn lemma_view_stmts_push(v: Seq<Statement>, x: Statement)
    ensures
        view_stmts(v.push(x)) == view_stmts(v).push(view_stmt(x)),
{
    assert(v.push(x).drop_last() =~= v);
}

/// A block holding the one statement `x`.
fn single_block(x: Statement) -> (b: Block)
    ensures
        view_block(b) == (SpecBlock { statements: seq![view_stmt(x)] }),
{
    let mut v: Vec<Statement> = Vec::new();
    proof {
        lemma_view_stmts_push(v@, x);
    }
    v.push(x);
    Block { statements: v }
}

/// Reads a statement at `p`.
pub fn stmt_exec(s: &Vec<char>, p: usize) -> (r: Option<(usize, Statement)>)
    requires
        p <= s.len(),
    ensures
        stmt_found(s@, p as int, r, stmt(s@, p as int)),
    decreases s.len() - p, 50int,
{
    let r = let_stmt_exec(s, p);
    if r.is_some() {
        return r;
    }
    let r = const_stmt_exec(s, p);
    if r.is_some() {
        return r;
    }
    let r = if_stmt_exec(s, p);
    if r.is_some() {
        return r;
    }
    let r = while_stmt_exec(s, p);
    if r.is_some() {
        return r;
    }
    let r = for_stmt_exec(s, p);
    if r.is_some() {
        return r;
    }
    let r = scope_stmt_exec(s, p);
    if r.is_some() {
        return r;
    }
    let r = validate_stmt_exec(s, p);
    if r.is_some() {
        return r;
    }
    let r = jump_stmt_exec(s, p);
    if r.is_some() {
        return r;
    }
    let r = assign_stmt_exec(s, p);
    if r.is_some() {
        return r;
    }
    let r = return_stmt_exec(s, p);
    if r.is_some() {
        return r;
    }
    expr_stmt_exec(s, p)
}

fn let_stmt_exec(s: &Vec<char>, p: usize) -> (r: Option<(usize, Statement)>)
    requires
        p <= s.len(),
    ensures
        stmt_found(s@, p as int, r, let_stmt(s@, p as int)),
{
    let a = match ws_kw_exec(s, p, "let") {
        Some(x) => x,
        None => {
            return None;
        },
    };
    let b = match ws_kw_exec(s, a, "mut") {
        Some(x) => x,
        None => a,
    };
    let (c, name) = match ident_exec(s, b) {
        Some(x) => x,
        None => {
            return None;
        },
    };
    let d = match ws_char_exec(s, c, '=') {
        Some(x) => x,
        None => {
            return None;
        },
    };
    match expr_exec(s, d) {
        Some((e, value)) => Some((e, Statement::Let(LetStmt { name, value }))),
        None => None,
    }
}

fn const_stmt_exec(s: &Vec<char>, p: usize) -> (r: Option<(usize, Statement)>)
    requires
        p <= s.len(),
    ensures
        stmt_found(s@, p as int, r, const_stmt(s@, p as int)),
{
    let a = match ws_kw_exec(s, p, "const") {
        Some(x) => x,
        None => {
            return None;
        },
    };
    let (b, name) = match ident_exec(s, a) {
        Some(x) => x,
        None => {
            return None;
        },
    };
    let c = match ws_char_exec(s, b, '=') {
        Some(x) => x,
        None => {
            return None;
        },
    };
    match expr_exec(s, c) {
        Some((d, value)) => Some((d, Statement::Const { name, value })),
        None => None,
    }
}

/// Reads `{ statements }` at `p`.
fn braced_exec(s: &Vec<char>, p: usize) -> (r: Option<(usize, Block)>)
    requires
        p <= s.len(),
    ensures
        match r {
            Some((q, b)) => braced(s@, p as int) == Some((q as int, view_block(b))) && forward(
                s@,
                p as int,
                q as int,
            ),
            None => braced(s@, p as int) is None,
        },
    decreases s.len() - p, 46int,
{
    let a = match ws_char_exec(s, p, '{') {
        Some(x) => x,
        None => {
            return None;
        },
    };
    let (b, body) = block_exec(s, a);
    match ws_char_exec(s, b, '}') {
        Some(c) => Some((c, Block { statements: body })),
        None => None,
    }
}

#[verifier::rlimit(60)]
fn if_stmt_exec(s: &Vec<char>, p: usize) -> (r: Option<(usize, Statement)>)
    requires
        p <= s.len(),
    ensures
        stmt_found(s@, p as int, r, if_stmt(s@, p as int)),
    decreases s.len() - p, 45int,
{
    proof {
        reveal_strlit("if");
        reveal_strlit("else");
    }
    let a = match ws_kw_exec(s, p, "if") {
        Some(x) => x,
        None => {
            return None;
        },
    };
    let (b, condition) = match expr_exec(s, a) {
        Some(x) => x,
        None => {
            return None;
        },
    };
    let (e, then_block) = match braced_exec(s, b) {
        Some(x) => x,
        None => {
            return None;
        },
    };
    let (g, else_block) = match ws_kw_exec(s, e, "else") {
        Some(f) => match if_stmt_exec(s, f) {
            Some((g, st)) => (g, Some(single_block(st))),
            None => match braced_exec(s, f) {
                Some((g, b2)) => (g, Some(b2)),
                None => (e, None),
            },
        },
        None => (e, None),
    };
    Some((g, Statement::If { condition, then_block, else_block }))
}

fn while_stmt_exec(s: &Vec<char>, p: usize) -> (r: Option<(usize, Statement)>)
    requires
        p <= s.len(),
    ensures
        stmt_found(s@, p as int, r, while_stmt(s@, p as int)),
    decreases s.len() - p, 45int,
{
    proof {
        reveal_strlit("while");
    }
    let a = match ws_kw_exec(s, p, "while") {
        Some(x) => x,
        None => {
            return None;
        },
    };
    let (b, condition) = match expr_exec(s, a) {
        Some(x) => x,
        None => {
            return None;
        },
    };
    match braced_exec(s, b) {
        Some((c, body)) => Some((c, Statement::While { condition, body })),
        None => None,
    }
}

#[verifier::rlimit(60)]
fn for_stmt_exec(s: &Vec<char>, p: usize) -> (r: Option<(usize, Statement)>)
    requires
        p <= s.len(),
    ensures
        stmt_found(s@, p as int, r, for_stmt(s@, p as int)),
    decreases s.len() - p, 45int,
{
    proof {
        reveal_strlit("for");
        reveal_strlit("..");
    }
    let a = match ws_kw_exec(s, p, "for") {
        Some(x) => x,
        None => {
            return None;
        },
    };
    let (b, var) = match ident_exec(s, a) {
        Some(x) => x,
        None => {
            return None;
        },
    };
    let c = match ws_kw_exec(s, b, "in") {
        Some(x) => x,
        None => {
            return None;
        },
    };
    let (d, start) = match expr_exec(s, c) {
        Some(x) => x,
        None => {
            return None;
        },
    };
    let e = match ws_tag_exec(s, d, "..") {
        Some(x) => x,
        None => {
            return None;
        },
    };
    let (f, end) = match expr_exec(s, e) {
        Some(x) => x,
        None => {
            return None;
        },
    };
    let (h, step) = match ws_kw_exec(s, f, "by") {
        Some(g) => match expr_exec(s, g) {
            Some((h, x)) => (h, Some(x)),
            None => (f, None),
        },
        None => (f, None),
    };
    match braced_exec(s, h) {
        Some((i, body)) => Some((i, Statement::For { var, start, end, step, body })),
        None => None,
    }
}

fn scope_stmt_exec(s: &Vec<char>, p: usize) -> (r: Option<(usize, Statement)>)
    requires
        p <= s.len(),
    ensures
        stmt_found(s@, p as int, r, scope_stmt(s@, p as int)),
    decreases s.len() - p, 45int,
{
    proof {
        reveal_strlit("scope");
    }
    let a = match ws_kw_exec(s, p, "scope") {
        Some(x) => x,
        None => {
            return None;
        },
    };
    let (b, name) = match ident_exec(s, a) {
        Some(x) => x,
        None => {
            return None;
        },
    };
    match braced_exec(s, b) {
        Some((c, body)) => Some((c, Statement::ScopeBlock { name, body })),
        None => None,
    }
}

fn validate_stmt_exec(s: &Vec<char>, p: usize) -> (r: Option<(usize, Statement)>)
    requires
        p <= s.len(),
    ensures
        stmt_found(s@, p as int, r, validate_stmt(s@, p as int)),
    decreases s.len() - p, 45int,
{
    proof {
        reveal_strlit("validate");
    }
    let a = match ws_kw_exec(s, p, "validate") {
        Some(x) => x,
        None => {
            return None;
        },
    };
    let (b, target) = match ident_exec(s, a) {
        Some(x) => x,
        None => {
            return None;
        },
    };
    let c = match ws_char_exec(s, b, '{') {
        Some(x) => x,
        None => {
            return None;
        },
    };
    let d = match ws_kw_exec(s, c, "success") {
        Some(x) => x,
        None => {
            return None;
        },
    };
    let e = match ws_char_exec(s, d, ':') {
        Some(x) => x,
        None => {
            return None;
        },
    };
    let (f, success) = match braced_exec(s, e) {
        Some(x) => x,
        None => {
            return None;
        },
    };
    let g = match ws_char_exec(s, f, '}') {
        Some(x) => x,
        None => {
            return None;
        },
    };
    let empty: Vec<Statement> = Vec::new();
    proof {
        assert(view_stmts(empty@) =~= Seq::empty());
    }
    Some(
        (
            g,
            Statement::ValidateBlock {
                target,
                schema: str_to_string("Schema"),
                on_fail: Box::new(Block { statements: empty }),
                success_scope: Box::new(success),
            },
        ),
    )
}

fn jump_stmt_exec(s: &Vec<char>, p: usize) -> (r: Option<(usize, Statement)>)
    requires
        p <= s.len(),
    ensures
        stmt_found(s@, p as int, r, jump_stmt(s@, p as int)),
{
    proof {
        reveal_strlit("break");
        reveal_strlit("continue");
    }
    if let Some(a) = ws_kw_exec(s, p, "break") {
        return Some((a, Statement::Break));
    }
    match ws_kw_exec(s, p, "continue") {
        Some(a) => Some((a, Statement::Continue)),
        None => None,
    }
}

fn assign_stmt_exec(s: &Vec<char>, p: usize) -> (r: Option<(usize, Statement)>)
    requires
        p <= s.len(),
    ensures
        stmt_found(s@, p as int, r, assign_stmt(s@, p as int)),
{
    let (a, name) = match ident_exec(s, p) {
        Some(x) => x,
        None => {
            return None;
        },
    };
    let b = match ws_char_exec(s, a, '=') {
        Some(x) => x,
        None => {
            return None;
        },
    };
    match expr_exec(s, b) {
        Some((c, value)) => Some((c, Statement::Assign { name, op: AssignOp::Assign, value })),
        None => None,
    }
}

fn return_stmt_exec(s: &Vec<char>, p: usize) -> (r: Option<(usize, Statement)>)
    requires
        p <= s.len(),
    ensures
        stmt_found(s@, p as int, r, return_stmt(s@, p as int)),
{
    proof {
        reveal_strlit("return");
    }
    let a = match ws_kw_exec(s, p, "return") {
        Some(x) => x,
        None => {
            return None;
        },
    };
    match expr_exec(s, a) {
        Some((b, e)) => Some((b, Statement::Return(Some(e)))),
        None => Some((a, Statement::Return(None))),
    }
}

fn expr_stmt_exec(s: &Vec<char>, p: usize) -> (r: Option<(usize, Statement)>)
    requires
        p <= s.len(),
    ensures
        stmt_found(s@, p as int, r, expr_stmt(s@, p as int)),
{
    let (a, e) = match expr_exec(s, p) {
        Some(x) => x,
        None => {
            return None;
        },
    };
    let b = match ws_char_exec(s, a, ';') {
        Some(x) => x,
        None => a,
    };
    Some((b, Statement::ExprStmt(e)))
}

/// Reads statements at `p` for as long as they match.
pub fn block_exec(s: &Vec<char>, p: usize) -> (r: (usize, Vec<Statement>))
    requires
        p <= s.len(),
    ensures
        block(s@, p as int) == (r.0 as int, view_stmts(r.1@)),
        p <= r.0 <= s.len(),
    decreases s.len() - p, 56int,
{
    let mut v: Vec<Statement> = Vec::new();
    let mut q = p;
    proof {
        assert(view_stmts(v@) =~= Seq::<SpecStatement>::empty());
    }
    loop
        invariant
            p <= q <= s.len(),
            block(s@, p as int) == block_rest(s@, q as int, view_stmts(v@)),
        ensures
            p <= q <= s.len(),
            block(s@, p as int) == (q as int, view_stmts(v@)),
        decreases s.len() - q,
    {
        let a = skip_exec(s, q);
        let (t, st) = match stmt_exec(s, a) {
            Some(x) => x,
            None => {
                break;
            },
        };
        let b = skip_exec(s, t);
        proof {
            lemma_view_stmts_push(v@, st);
        }
        v.push(st);
        q = b;
    }
    (q, v)
}


// ───────────────────────── types ─────────────────────────

/// `r` is the grammar's answer `g` for a type read at `p`.
pub open spec fn type_found(
    s: Seq<char>,
    p: int,
    r: Option<(usize, TypeRef)>,
    g: Option<(int, SpecTypeRef)>,
) -> bool {
    match r {
        Some((q, t)) => g == Some((q as int, view_typeref(t))) && forward(s, p, q as int),
        None => g is None,
    }
}

pub proof fn lemma_view_typerefs_push(v: Seq<TypeRef>, t: TypeRef)
    ensures
        view_typerefs(v.push(t)) == view_typerefs(v).push(view_typeref(t)),
{
    assert(v.push(t).drop_last() =~= v);
}

/// Reads a type at `p`.
pub fn type_ref_exec(s: &Vec<char>, p: usize) -> (r: Option<(usize, TypeRef)>)
    requires
        p <= s.len(),
    ensures
        type_found(s@, p as int, r, type_ref(s@, p as int)),
    decreases s.len() - p, 2int,
{
    let a = skip_exec(s, p);
    match type_core_exec(s, a) {
        Some((b, t)) => Some((skip_exec(s, b), t)),
        None => None,
    }
}

fn type_core_exec(s: &Vec<char>, a: usize) -> (r: Option<(usize, TypeRef)>)
    requires
        a <= s.len(),
    ensures
        type_found(s@, a as int, r, type_core(s@, a as int)),
    decreases s.len() - a, 1int,
{
    proof {
        reveal_strlit("Untrusted");
        reveal_strlit("i64");
        reveal_strlit("f64");
        reveal_strlit("bool");
        reveal_strlit("char");
        reveal_strlit("u8");
        reveal_strlit("Void");
        reveal_strlit("Array");
    }
    if let Some(b) = tag_exec(s, a, "Untrusted") {
        return Some((b, TypeRef::Untrusted));
    }
    if let Some(b) = tag_exec(s, a, "i64") {
        return Some((b, TypeRef::Integer));
    }
    if let Some(b) = tag_exec(s, a, "f64") {
        return Some((b, TypeRef::Float));
    }
    if let Some(b) = tag_exec(s, a, "bool") {
        return Some((b, TypeRef::Bool));
    }
    if let Some(b) = tag_exec(s, a, "char") {
        return Some((b, TypeRef::Char));
    }
    if let Some(b) = tag_exec(s, a, "u8") {
        return Some((b, TypeRef::Byte));
    }
    if let Some(b) = tag_exec(s, a, "Void") {
        return Some((b, TypeRef::Void));
    }
    proof {
        assert(crate::grammar::named_type(s@, a as int) is None);
    }
    let r = array_type_exec(s, a);
    if r.is_some() {
        return r;
    }
    let r = tuple_type_exec(s, a);
    if r.is_some() {
        return r;
    }
    match ident_exec(s, a) {
        Some((b, n)) => Some((b, TypeRef::Custom(n))),
        None => None,
    }
}

fn array_type_exec(s: &Vec<char>, a: usize) -> (r: Option<(usize, TypeRef)>)
    requires
        a <= s.len(),
    ensures
        type_found(s@, a as int, r, array_type(s@, a as int)),
    decreases s.len() - a, 0int,
{
    proof {
        reveal_strlit("Array");
    }
    let b = match ws_tag_exec(s, a, "Array") {
        Some(x) => x,
        None => {
            return None;
        },
    };
    let c = match ws_char_exec(s, b, '<') {
        Some(x) => x,
        None => {
            return None;
        },
    };
    let (d, t) = match type_ref_exec(s, c) {
        Some(x) => x,
        None => {
            return None;
        },
    };
    match ws_char_exec(s, d, '>') {
        Some(e) => Some((e, TypeRef::Array(Box::new(t)))),
        None => None,
    }
}

fn tuple_type_exec(s: &Vec<char>, a: usize) -> (r: Option<(usize, TypeRef)>)
    requires
        a <= s.len(),
    ensures
        type_found(s@, a as int, r, tuple_type(s@, a as int)),
    decreases s.len() - a, 0int,
{
    let b = match ws_char_exec(s, a, '(') {
        Some(x) => x,
        None => {
            return None;
        },
    };
    let (c, mut ts) = type_list_exec(s, b);
    let d = match ws_char_exec(s, c, ')') {
        Some(x) => x,
        None => {
            return None;
        },
    };
    proof {
        crate::ast::lemma_view_typerefs(ts@);
    }
    if ts.len() == 1 {
        let t = ts.pop().unwrap();
        Some((d, t))
    } else {
        Some((d, TypeRef::Tuple(ts)))
    }
}

fn type_list_exec(s: &Vec<char>, p: usize) -> (r: (usize, Vec<TypeRef>))
    requires
        p <= s.len(),
    ensures
        type_list(s@, p as int) == (r.0 as int, view_typerefs(r.1@)),
        p <= r.0 <= s.len(),
    decreases s.len() - p, 3int,
{
    let (q0, t0) = match type_ref_exec(s, p) {
        Some(x) => x,
        None => {
            return (p, Vec::new());
        },
    };
    let mut v: Vec<TypeRef> = Vec::new();
    proof {
        lemma_view_typerefs_push(v@, t0);
    }
    v.push(t0);
    let mut q = q0;
    loop
        invariant
            p < q <= s.len(),
            type_list(s@, p as int) == type_list_rest(s@, q as int, view_typerefs(v@)),
        ensures
            p < q <= s.len(),
            type_list(s@, p as int) == (q as int, view_typerefs(v@)),
        decreases s.len() - q,
    {
        let a = match ws_char_exec(s, q, ',') {
            Some(x) => x,
            None => {
                break;
            },
        };
        match type_ref_exec(s, a) {
            Some((q2, t)) => {
                proof {
                    lemma_view_typerefs_push(v@, t);
                }
                v.push(t);
                q = q2;
            },
            None => {
                break;
            },
        }
    }
    (q, v)
}


// ───────────────────────── functions and programs ─────────────────────────

fn param_exec(s: &Vec<char>, p: usize) -> (r: Option<(usize, Param)>)
    requires
        p <= s.len(),
    ensures
        match r {
            Some((q, x)) => param(s@, p as int) == Some((q as int, view_param(x))) && forward(
                s@,
                p as int,
                q as int,
            ),
            None => param(s@, p as int) is None,
        },
{
    let a0 = skip_exec(s, p);
    let (a, name) = match ident_exec(s, a0) {
        Some(x) => x,
        None => {
            return None;
        },
    };
    let a2 = skip_exec(s, a);
    let b = match ws_char_exec(s, a2, ':') {
        Some(x) => x,
        None => {
            return None;
        },
    };
    match type_ref_exec(s, b) {
        Some((c, param_type)) => Some((c, Param { name, param_type })),
        None => None,
    }
}

pub proof fn lemma_view_params_push(v: Seq<Param>, x: Param)
    ensures
        view_params(v.push(x)) == view_params(v).push(view_param(x)),
{
    assert(view_params(v.push(x)) =~= view_params(v).push(view_param(x)));
}

fn params_exec(s: &Vec<char>, p: usize) -> (r: (usize, Vec<Param>))
    requires
        p <= s.len(),
    ensures
        params(s@, p as int) == (r.0 as int, view_params(r.1@)),
        p <= r.0 <= s.len(),
{
    let (q0, x0) = match param_exec(s, p) {
        Some(x) => x,
        None => {
            let v: Vec<Param> = Vec::new();
            proof {
                assert(view_params(v@) =~= Seq::<SpecParam>::empty());
            }
            return (p, v);
        },
    };
    let mut v: Vec<Param> = Vec::new();
    proof {
        lemma_view_params_push(v@, x0);
        assert(v@.push(x0) =~= seq![x0]);
        assert(view_params(Seq::<Param>::empty()) =~= Seq::<SpecParam>::empty());
    }
    v.push(x0);
    let mut q = q0;
    loop
        invariant
            p < q <= s.len(),
            params(s@, p as int) == params_rest(s@, q as int, view_params(v@)),
        ensures
            p < q <= s.len(),
            params(s@, p as int) == (q as int, view_params(v@)),
        decreases s.len() - q,
    {
        let a = match ws_char_exec(s, q, ',') {
            Some(x) => x,
            None => {
                break;
            },
        };
        match param_exec(s, a) {
            Some((q2, x)) => {
                proof {
                    lemma_view_params_push(v@, x);
                }
                v.push(x);
                q = q2;
            },
            None => {
                break;
            },
        }
    }
    (q, v)
}

fn purity_exec(s: &Vec<char>, p: usize) -> (r: Option<(usize, Purity)>)
    requires
        p <= s.len(),
    ensures
        match r {
            Some((q, x)) => purity(s@, p as int) == Some((q as int, x)) && p <= q <= s.len(),
            None => purity(s@, p as int) is None,
        },
{
    let a = skip_exec(s, p);
    if let Some(b) = kw_exec(s, a, "deterministic") {
        return Some((skip_exec(s, b), Purity::Deterministic));
    }
    if let Some(b) = kw_exec(s, a, "det") {
        return Some((skip_exec(s, b), Purity::Deterministic));
    }
    if let Some(b) = kw_exec(s, a, "nondeterministic") {
        return Some((skip_exec(s, b), Purity::Nondeterministic));
    }
    if let Some(b) = kw_exec(s, a, "nondet") {
        return Some((skip_exec(s, b), Purity::Nondeterministic));
    }
    None
}

/// Reads a function definition at `p`.
pub fn function_exec(s: &Vec<char>, p: usize) -> (r: Option<(usize, FunctionDef)>)
    requires
        p <= s.len(),
    ensures
        match r {
            Some((q, f)) => function(s@, p as int) == Some((q as int, view_function(f))) && forward(
                s@,
                p as int,
                q as int,
            ),
            None => function(s@, p as int) is None,
        },
{
    let (a, pur) = match purity_exec(s, p) {
        Some(x) => x,
        None => {
            return None;
        },
    };
    let b = match ws_kw_exec(s, a, "fn") {
        Some(x) => x,
        None => {
            return None;
        },
    };
    let b2 = skip_exec(s, b);
    let (c, name) = match ident_exec(s, b2) {
        Some(x) => x,
        None => {
            return None;
        },
    };
    let c2 = skip_exec(s, c);
    let d = match ws_char_exec(s, c2, '(') {
        Some(x) => x,
        None => {
            return None;
        },
    };
    let (e, ps) = params_exec(s, d);
    let f = match ws_char_exec(s, e, ')') {
        Some(x) => x,
        None => {
            return None;
        },
    };
    let (g, ret) = match ws_tag_exec(s, f, "->") {
        Some(x) => match type_ref_exec(s, x) {
            Some((y, t)) => (y, Some(t)),
            None => (f, None),
        },
        None => (f, None),
    };
    let (h, body) = match braced_exec(s, g) {
        Some(x) => x,
        None => {
            return None;
        },
    };
    let return_type = match ret {
        Some(t) => t,
        None => TypeRef::Void,
    };
    let attributes: Vec<crate::ast::Attribute> = Vec::new();
    let fd = FunctionDef { attributes, name, purity: pur, params: ps, return_type, body };
    proof {
        assert(view_function(fd).attributes =~= Seq::empty());
    }
    Some((h, fd))
}

pub proof fn lemma_view_functions_push(v: Seq<FunctionDef>, f: FunctionDef)
    ensures
        view_functions(v.push(f)) == view_functions(v).push(view_function(f)),
{
    assert(view_functions(v.push(f)) =~= view_functions(v).push(view_function(f)));
}

fn functions_exec(s: &Vec<char>, p: usize) -> (r: (usize, Vec<FunctionDef>))
    requires
        p <= s.len(),
    ensures
        functions(s@, p as int, Seq::empty()) == (r.0 as int, view_functions(r.1@)),
        p <= r.0 <= s.len(),
{
    let mut v: Vec<FunctionDef> = Vec::new();
    let mut q = p;
    proof {
        assert(view_functions(v@) =~= Seq::<SpecFunctionDef>::empty());
    }
    loop
        invariant
            p <= q <= s.len(),
            functions(s@, p as int, Seq::empty()) == functions(s@, q as int, view_functions(v@)),
        ensures
            p <= q <= s.len(),
            functions(s@, p as int, Seq::empty()) == (q as int, view_functions(v@)),
        decreases s.len() - q,
    {
        let a = skip_exec(s, q);
        let (t, f) = match function_exec(s, a) {
            Some(x) => x,
            None => {
                break;
            },
        };
        let b = skip_exec(s, t);
        proof {
            lemma_view_functions_push(v@, f);
        }
        v.push(f);
        q = b;
    }
    (q, v)
}

/// Why a text is not a program: no function definition could be read at
/// `position`, the first character after the leading blanks.
#[derive(Debug)]
pub struct ParseError {
    pub position: usize,
}

/// Reads a program: one or more function definitions. On success it gives
/// what follows the last definition, unread, and the definitions in order.
pub fn parse_program(input: &str) -> (r: Result<(String, Vec<FunctionDef>), ParseError>)
    ensures
        match r {
            Ok((rest, fs)) => program(input@) is Some && view_functions(fs@) == (program(
                input@,
            )->0).1 && rest@ == input@.subrange((program(input@)->0).0, input@.len() as int),
            Err(e) => program(input@) is None && e.position == skip(input@, 0),
        },
{
    let s = chars_of(input);
    let (q, fs) = functions_exec(&s, 0);
    if fs.len() == 0 {
        return Err(ParseError { position: skip_exec(&s, 0) });
    }
    Ok((string_from_chars(&s, q, s.len()), fs))
}

} // verus!
