//! The grammar of Zet source text, as functions over the characters of the
//! source. Each takes the source and a position and gives the position after
//! what it read together with the syntax it built, or `None` where the text
//! does not match. Alternatives are tried in order and the first that matches
//! wins; a repetition stops at the first element that does not match and
//! leaves the position before it. "Blanks" are white space and `//` comments
//! (see `skip`).
//!
//! Positions only move forward. Where a definition goes on from a position
//! that one of its own recursive calls returned, it checks that the position
//! moved forward (`forward`); the parser's contracts show that this check
//! always holds, and it makes the recursion well founded.
use vstd::prelude::*;
use crate::ast::{
    AssignOp,
    InfraConfig,
    Purity,
    SpecBlock,
    SpecExpr,
    SpecFunctionDef,
    SpecInfraCall,
    SpecInterpolPart,
    SpecLiteral,
    SpecParam,
    SpecStatement,
    SpecTypeRef,
    UnaryOp,
};
use crate::lexer::{
    at,
    binop,
    either,
    find_char,
    forward,
    tag,
    ws_kw_either,
    char_lit,
    float_number,
    ident,
    index_number,
    kw,
    number,
    plain_string,
    skip,
    str_escape,
    unicode_alphabetic,
    ws_char,
    ws_kw,
    ws_tag,
};

verus! {

broadcast use {crate::lexer::group_lexer_bounds, crate::lexer::group_token_bounds};

/// A function name: `a.b` or `a`.
pub open spec fn call_name(s: Seq<char>, p: int) -> Option<(int, Seq<char>)> {
    match ident(s, p) {
        Some((b, _)) => if 0 <= b < s.len() && s[b] == '.' {
            match ident(s, b + 1) {
                Some((c, _)) => Some((c, s.subrange(p, c))),
                None => ident(s, p),
            }
        } else {
            ident(s, p)
        },
        None => None,
    }
}

/// `.N` tuple indices after an expression; an index that runs into a letter
/// or `_` is not one.
pub open spec fn dot_rest(s: Seq<char>, p: int, e: SpecExpr) -> (int, SpecExpr)
    decreases s.len() - p,
{
    if 0 <= p < s.len() && s[p] == '.' {
        match index_number(s, p + 1) {
            Some((q, n)) => if q < s.len() && (unicode_alphabetic(s[q]) || s[q] == '_') {
                (p, e)
            } else {
                dot_rest(s, q, SpecExpr::TupleIndex(Box::new(e), n))
            },
            None => (p, e),
        }
    } else {
        (p, e)
    }
}

/// A literal written as one token, or `true`, `false`, or a name.
pub open spec fn token_expr(s: Seq<char>, p: int) -> Option<(int, SpecExpr)> {
    match float_number(s, p) {
        Some((q, t)) => Some((q, SpecExpr::Literal(SpecLiteral::Float(t)))),
        None => match number(s, p) {
            Some((q, n)) => Some((q, SpecExpr::Literal(SpecLiteral::Int(n)))),
            None => match char_lit(s, p) {
                Some((q, c)) => Some((q, SpecExpr::Literal(SpecLiteral::Char(c)))),
                None => None,
            },
        },
    }
}

/// `true`, `false` or a name.
pub open spec fn word_expr(s: Seq<char>, p: int) -> Option<(int, SpecExpr)> {
    match kw(s, p, "true"@) {
        Some(q) => Some((q, SpecExpr::Literal(SpecLiteral::Bool(true)))),
        None => match kw(s, p, "false"@) {
            Some(q) => Some((q, SpecExpr::Literal(SpecLiteral::Bool(false)))),
            None => match ident(s, p) {
                Some((q, n)) => Some((q, SpecExpr::Identifier(n))),
                None => None,
            },
        },
    }
}

// ───────────────────────── expressions ─────────────────────────

/// An expression.
pub open spec fn expr(s: Seq<char>, p: int) -> Option<(int, SpecExpr)>
    decreases s.len() - p, 40int,
{
    level(s, p, 0)
}

/// Operands joined left-associatively by the operators of level `lvl`, each
/// operand being of the next level; from level 9 on, a unary expression.
pub open spec fn level(s: Seq<char>, p: int, lvl: nat) -> Option<(int, SpecExpr)>
    decreases s.len() - p, 30 - (if lvl < 9 {
        lvl as int
    } else {
        9int
    }),
{
    if lvl >= 9 {
        unary(s, p)
    } else {
        match level(s, p, lvl + 1) {
            Some((q, l)) => if forward(s, p, q) {
                Some(level_rest(s, q, l, lvl))
            } else {
                None
            },
            None => None,
        }
    }
}

/// Operator and operand of level `lvl`, again and again, after `l`.
pub open spec fn level_rest(s: Seq<char>, p: int, l: SpecExpr, lvl: nat) -> (int, SpecExpr)
    decreases s.len() - p, 0int,
{
    match binop(s, p, lvl) {
        Some((a, op)) => match level(s, a, lvl + 1) {
            Some((q, r)) => if forward(s, p, q) {
                level_rest(s, q, SpecExpr::Binary(Box::new(l), op, Box::new(r)), lvl)
            } else {
                (p, l)
            },
            None => (p, l),
        },
        None => (p, l),
    }
}

/// `!` or `-` before a unary expression, or an atom.
pub open spec fn unary(s: Seq<char>, p: int) -> Option<(int, SpecExpr)>
    decreases s.len() - p, 20int,
{
    let not = match ws_char(s, p, '!') {
        Some(a) => match unary(s, a) {
            Some((q, e)) => Some((q, SpecExpr::Unary(UnaryOp::Not, Box::new(e)))),
            None => None,
        },
        None => None,
    };
    let neg = match ws_char(s, p, '-') {
        Some(a) => match unary(s, a) {
            Some((q, e)) => Some((q, SpecExpr::Unary(UnaryOp::Neg, Box::new(e)))),
            None => None,
        },
        None => None,
    };
    either(not, either(neg, atom(s, p)))
}

/// A primary expression followed by `[index]`es, then by `.N` tuple indices.
pub open spec fn atom(s: Seq<char>, p: int) -> Option<(int, SpecExpr)>
    decreases s.len() - p, 19int,
{
    match primary(s, p) {
        Some((q, e)) => if forward(s, p, q) {
            let (r, e2) = index_rest(s, q, e);
            Some(dot_rest(s, r, e2))
        } else {
            None
        },
        None => None,
    }
}

/// `[index]`es after `e`.
pub open spec fn index_rest(s: Seq<char>, p: int, e: SpecExpr) -> (int, SpecExpr)
    decreases s.len() - p, 0int,
{
    match ws_char(s, p, '[') {
        Some(a) => match expr(s, a) {
            Some((b, i)) => if forward(s, p, b) {
                match ws_char(s, b, ']') {
                    Some(c) => index_rest(s, c, SpecExpr::Index(Box::new(e), Box::new(i))),
                    None => (p, e),
                }
            } else {
                (p, e)
            },
            None => (p, e),
        },
        None => (p, e),
    }
}

/// The primary expressions, in the order in which they are tried.
pub open spec fn primary(s: Seq<char>, p: int) -> Option<(int, SpecExpr)>
    decreases s.len() - p, 18int,
{
    either(
        spawn(s, p),
        either(
            infra(s, p),
            either(
                json(s, p),
                either(
                    print_call(s, p),
                    either(
                        input_call(s, p),
                        either(
                            call(s, p),
                            either(
                                array(s, p),
                                either(
                                    token_expr(s, p),
                                    either(string(s, p), either(word_expr(s, p), paren(s, p))),
                                ),
                            ),
                        ),
                    ),
                ),
            ),
        ),
    )
}

/// `spawn expr`.
pub open spec fn spawn(s: Seq<char>, p: int) -> Option<(int, SpecExpr)>
    decreases s.len() - p, 17int,
{
    proof {
        reveal_strlit("spawn");
    }
    match ws_kw(s, p, "spawn"@) {
        Some(a) => match expr(s, a) {
            Some((q, e)) => Some((q, SpecExpr::Spawn(Box::new(e)))),
            None => None,
        },
        None => None,
    }
}

/// `call Service.method(args) { timeout: N }`.
pub open spec fn infra(s: Seq<char>, p: int) -> Option<(int, SpecExpr)>
    decreases s.len() - p, 17int,
{
    proof {
        reveal_strlit("call");
    }
    match ws_kw(s, p, "call"@) {
        Some(a) => match ident(s, a) {
            Some((b, service)) => match ws_char(s, b, '.') {
                Some(c) => match ident(s, c) {
                    Some((d, method)) => match paren_args(s, d) {
                        Some((g, args)) => match ws_char(s, g, '{') {
                            Some(h) => match ws_kw(s, h, "timeout"@) {
                                Some(i) => match ws_char(s, i, ':') {
                                    Some(j) => match number(s, j) {
                                        Some((k, t)) => match ws_char(s, k, '}') {
                                            Some(l) => Some(
                                                (
                                                    l,
                                                    SpecExpr::Infra(
                                                        SpecInfraCall {
                                                            service,
                                                            method,
                                                            args,
                                                            config: InfraConfig { timeout_ms: t as u64 },
                                                        },
                                                    ),
                                                ),
                                            ),
                                            None => None,
                                        },
                                        None => None,
                                    },
                                    None => None,
                                },
                                None => None,
                            },
                            None => None,
                        },
                        None => None,
                    },
                    None => None,
                },
                None => None,
            },
            None => None,
        },
        None => None,
    }
}

/// `json(expr, "key")`.
pub open spec fn json(s: Seq<char>, p: int) -> Option<(int, SpecExpr)>
    decreases s.len() - p, 17int,
{
    proof {
        reveal_strlit("json");
    }
    match ws_kw(s, p, "json"@) {
        Some(a) => match ws_char(s, a, '(') {
            Some(b) => match expr(s, b) {
                Some((c, src)) => match ws_char(s, c, ',') {
                    Some(d) => match plain_string(s, skip(s, d)) {
                        Some((e, key)) => match ws_char(s, skip(s, e), ')') {
                            Some(f) => Some((f, SpecExpr::JsonField(Box::new(src), key))),
                            None => None,
                        },
                        None => None,
                    },
                    None => None,
                },
                None => None,
            },
            None => None,
        },
        None => None,
    }
}

/// `(expr, expr, ...)` after a callee.
pub open spec fn paren_args(s: Seq<char>, p: int) -> Option<(int, Seq<SpecExpr>)>
    decreases s.len() - p, 17int,
{
    match ws_char(s, p, '(') {
        Some(a) => {
            let (b, args) = expr_list(s, a);
            match ws_char(s, b, ')') {
                Some(c) => Some((c, args)),
                None => None,
            }
        },
        None => None,
    }
}

/// `print(args)` or `println(args)`.
pub open spec fn print_call(s: Seq<char>, p: int) -> Option<(int, SpecExpr)>
    decreases s.len() - p, 17int,
{
    proof {
        reveal_strlit("println");
        reveal_strlit("print");
    }
    match ws_kw_either(s, p, "println"@, "print"@) {
        Some((b, name)) => match paren_args(s, b) {
            Some((c, args)) => Some((c, SpecExpr::Call(name, args, false))),
            None => None,
        },
        None => None,
    }
}

/// `input(args)` or `inputln(args)`, after an optional `call`.
pub open spec fn input_call(s: Seq<char>, p: int) -> Option<(int, SpecExpr)>
    decreases s.len() - p, 17int,
{
    proof {
        reveal_strlit("inputln");
        reveal_strlit("input");
    }
    let called = ws_kw(s, p, "call"@);
    let a = match called {
        Some(x) => x,
        None => p,
    };
    match ws_kw_either(s, a, "inputln"@, "input"@) {
        Some((b, name)) => match paren_args(s, b) {
            Some((c, args)) => Some((c, SpecExpr::Call(name, args, called is Some))),
            None => None,
        },
        None => None,
    }
}

/// `name(args)` or `a.b(args)`, after an optional `call`.
pub open spec fn call(s: Seq<char>, p: int) -> Option<(int, SpecExpr)>
    decreases s.len() - p, 17int,
{
    let called = ws_kw(s, p, "call"@);
    let a = match called {
        Some(x) => x,
        None => p,
    };
    match call_name(s, a) {
        Some((b, name)) => match paren_args(s, b) {
            Some((c, args)) => Some((c, SpecExpr::Call(name, args, called is Some))),
            None => None,
        },
        None => None,
    }
}

/// `[expr, expr, ...]`.
pub open spec fn array(s: Seq<char>, p: int) -> Option<(int, SpecExpr)>
    decreases s.len() - p, 17int,
{
    match ws_char(s, p, '[') {
        Some(a) => {
            let (b, items) = expr_list(s, a);
            match ws_char(s, b, ']') {
                Some(c) => Some((c, SpecExpr::ArrayLiteral(items))),
                None => None,
            }
        },
        None => None,
    }
}

/// A string literal; with `${expr}` in it, an interpolation.
pub open spec fn string(s: Seq<char>, p: int) -> Option<(int, SpecExpr)>
    decreases s.len() - p, 17int,
{
    if 0 <= p < s.len() && s[p] == '"' {
        string_body(s, p + 1, Seq::empty(), Seq::empty(), false)
    } else {
        None
    }
}

/// The parts so far with the pending text `lit` added, if there is any.
pub open spec fn flush(parts: Seq<SpecInterpolPart>, lit: Seq<char>) -> Seq<SpecInterpolPart> {
    if lit.len() > 0 {
        parts.push(SpecInterpolPart::Lit(lit))
    } else {
        parts
    }
}

/// The rest of a string literal from `q`: the parts read so far, the pending
/// text, and whether an interpolation was met. The text between `${` and the
/// next `}` is read as an expression on its own; what follows the expression
/// there is ignored.
pub open spec fn string_body(
    s: Seq<char>,
    q: int,
    parts: Seq<SpecInterpolPart>,
    lit: Seq<char>,
    interp: bool,
) -> Option<(int, SpecExpr)>
    decreases s.len() - q, 0int,
{
    proof {
        reveal_strlit("${");
    }
    if q < 0 || q >= s.len() {
        None
    } else if s[q] == '"' {
        if interp {
            Some((q + 1, SpecExpr::Interpolation(flush(parts, lit))))
        } else {
            Some((q + 1, SpecExpr::Literal(SpecLiteral::Str(lit))))
        }
    } else if at(s, q, "${"@) {
        match find_char(s, q + 2, '}') {
            Some(e) => match expr(s.subrange(q + 2, e), 0) {
                Some((_, x)) => string_body(
                    s,
                    e + 1,
                    flush(parts, lit).push(SpecInterpolPart::Expr(x)),
                    Seq::empty(),
                    true,
                ),
                None => None,
            },
            None => None,
        }
    } else if s[q] == '\\' && q + 1 < s.len() && str_escape(s[q + 1]) is Some {
        string_body(s, q + 2, parts, lit.push(str_escape(s[q + 1])->0), interp)
    } else {
        string_body(s, q + 1, parts, lit.push(s[q]), interp)
    }
}

/// `(expr)`, or a tuple `(expr, expr, ...)` with an optional trailing comma.
pub open spec fn paren(s: Seq<char>, p: int) -> Option<(int, SpecExpr)>
    decreases s.len() - p, 17int,
{
    match ws_char(s, p, '(') {
        Some(a) => match expr(s, a) {
            Some((b, first)) => if forward(s, p, b) {
                match ws_char(s, b, ',') {
                    Some(c) => {
                        let (d, rest) = expr_list(s, c);
                        let e = match ws_char(s, d, ',') {
                            Some(x) => x,
                            None => d,
                        };
                        match ws_char(s, e, ')') {
                            Some(f) => Some((f, SpecExpr::TupleLiteral(seq![first] + rest))),
                            None => None,
                        }
                    },
                    None => match ws_char(s, b, ')') {
                        Some(f) => Some((f, first)),
                        None => None,
                    },
                }
            } else {
                None
            },
            None => None,
        },
        None => None,
    }
}

/// Expressions separated by commas, possibly none.
pub open spec fn expr_list(s: Seq<char>, p: int) -> (int, Seq<SpecExpr>)
    decreases s.len() - p, 41int,
{
    match expr(s, p) {
        Some((q, e)) => if forward(s, p, q) {
            expr_list_rest(s, q, seq![e])
        } else {
            (p, Seq::empty())
        },
        None => (p, Seq::empty()),
    }
}

/// `, expr` again and again after the expressions `acc`.
pub open spec fn expr_list_rest(s: Seq<char>, p: int, acc: Seq<SpecExpr>) -> (int, Seq<SpecExpr>)
    decreases s.len() - p, 0int,
{
    match ws_char(s, p, ',') {
        Some(a) => match expr(s, a) {
            Some((q, e)) => if forward(s, p, q) {
                expr_list_rest(s, q, acc.push(e))
            } else {
                (p, acc)
            },
            None => (p, acc),
        },
        None => (p, acc),
    }
}

// ───────────────────────── statements ─────────────────────────

/// The statements, in the order in which they are tried.
pub open spec fn stmt(s: Seq<char>, p: int) -> Option<(int, SpecStatement)>
    decreases s.len() - p, 50int,
{
    either(
        let_stmt(s, p),
        either(
            const_stmt(s, p),
            either(
                if_stmt(s, p),
                either(
                    while_stmt(s, p),
                    either(
                        for_stmt(s, p),
                        either(
                            scope_stmt(s, p),
                            either(
                                validate_stmt(s, p),
                                either(
                                    jump_stmt(s, p),
                                    either(
                                        assign_stmt(s, p),
                                        either(return_stmt(s, p), expr_stmt(s, p)),
                                    ),
                                ),
                            ),
                        ),
                    ),
                ),
            ),
        ),
    )
}

/// `let [mut] name = expr`.
pub open spec fn let_stmt(s: Seq<char>, p: int) -> Option<(int, SpecStatement)>
{
    match ws_kw(s, p, "let"@) {
        Some(a) => {
            let b = match ws_kw(s, a, "mut"@) {
                Some(x) => x,
                None => a,
            };
            match ident(s, b) {
                Some((c, name)) => match ws_char(s, c, '=') {
                    Some(d) => match expr(s, d) {
                        Some((e, value)) => Some((e, SpecStatement::Let { name, value })),
                        None => None,
                    },
                    None => None,
                },
                None => None,
            }
        },
        None => None,
    }
}

/// `const name = expr`.
pub open spec fn const_stmt(s: Seq<char>, p: int) -> Option<(int, SpecStatement)>
{
    match ws_kw(s, p, "const"@) {
        Some(a) => match ident(s, a) {
            Some((b, name)) => match ws_char(s, b, '=') {
                Some(c) => match expr(s, c) {
                    Some((d, value)) => Some((d, SpecStatement::Const { name, value })),
                    None => None,
                },
                None => None,
            },
            None => None,
        },
        None => None,
    }
}

/// `{ statements }`: where it ends and what it holds.
pub open spec fn braced(s: Seq<char>, p: int) -> Option<(int, SpecBlock)>
    decreases s.len() - p, 46int,
{
    match ws_char(s, p, '{') {
        Some(a) => {
            let (b, body) = block(s, a);
            match ws_char(s, b, '}') {
                Some(c) => Some((c, SpecBlock { statements: body })),
                None => None,
            }
        },
        None => None,
    }
}

/// `if expr { ... }`, then optionally `else if ...` or `else { ... }`.
pub open spec fn if_stmt(s: Seq<char>, p: int) -> Option<(int, SpecStatement)>
    decreases s.len() - p, 45int,
{
    proof {
        reveal_strlit("if");
        reveal_strlit("else");
    }
    match ws_kw(s, p, "if"@) {
        Some(a) => match expr(s, a) {
            Some((b, condition)) => if forward(s, p, b) {
                match braced(s, b) {
                    Some((e, then_block)) => if forward(s, p, e) {
                        let (g, else_block) = match ws_kw(s, e, "else"@) {
                            Some(f) => match if_stmt(s, f) {
                                Some((g, st)) => (g, Some(SpecBlock { statements: seq![st] })),
                                None => match braced(s, f) {
                                    Some((g, b2)) => (g, Some(b2)),
                                    None => (e, None),
                                },
                            },
                            None => (e, None),
                        };
                        Some((g, SpecStatement::If { condition, then_block, else_block }))
                    } else {
                        None
                    },
                    None => None,
                }
            } else {
                None
            },
            None => None,
        },
        None => None,
    }
}

/// `while expr { ... }`.
pub open spec fn while_stmt(s: Seq<char>, p: int) -> Option<(int, SpecStatement)>
    decreases s.len() - p, 45int,
{
    proof {
        reveal_strlit("while");
    }
    match ws_kw(s, p, "while"@) {
        Some(a) => match expr(s, a) {
            Some((b, condition)) => if forward(s, p, b) {
                match braced(s, b) {
                    Some((c, body)) => Some((c, SpecStatement::While { condition, body })),
                    None => None,
                }
            } else {
                None
            },
            None => None,
        },
        None => None,
    }
}

/// `for v in start..end [by step] { ... }`.
pub open spec fn for_stmt(s: Seq<char>, p: int) -> Option<(int, SpecStatement)>
    decreases s.len() - p, 45int,
{
    proof {
        reveal_strlit("for");
        reveal_strlit("..");
    }
    match ws_kw(s, p, "for"@) {
        Some(a) => match ident(s, a) {
            Some((b, var)) => match ws_kw(s, b, "in"@) {
                Some(c) => match expr(s, c) {
                    Some((d, start)) => if forward(s, p, d) {
                        match ws_tag(s, d, ".."@) {
                            Some(e) => match expr(s, e) {
                                Some((f, end)) => if forward(s, p, f) {
                                    let (h, step) = match ws_kw(s, f, "by"@) {
                                        Some(g) => match expr(s, g) {
                                            Some((h, x)) => (h, Some(x)),
                                            None => (f, None),
                                        },
                                        None => (f, None),
                                    };
                                    if forward(s, p, h) {
                                        match braced(s, h) {
                                            Some((i, body)) => Some(
                                                (i, SpecStatement::For { var, start, end, step, body }),
                                            ),
                                            None => None,
                                        }
                                    } else {
                                        None
                                    }
                                } else {
                                    None
                                },
                                None => None,
                            },
                            None => None,
                        }
                    } else {
                        None
                    },
                    None => None,
                },
                None => None,
            },
            None => None,
        },
        None => None,
    }
}

/// `scope name { ... }`.
pub open spec fn scope_stmt(s: Seq<char>, p: int) -> Option<(int, SpecStatement)>
    decreases s.len() - p, 45int,
{
    proof {
        reveal_strlit("scope");
    }
    match ws_kw(s, p, "scope"@) {
        Some(a) => match ident(s, a) {
            Some((b, name)) => match braced(s, b) {
                Some((c, body)) => Some((c, SpecStatement::ScopeBlock { name, body })),
                None => None,
            },
            None => None,
        },
        None => None,
    }
}

/// `validate name { success: { ... } }`. The schema is always `Schema` and
/// nothing runs on failure.
pub open spec fn validate_stmt(s: Seq<char>, p: int) -> Option<(int, SpecStatement)>
    decreases s.len() - p, 45int,
{
    proof {
        reveal_strlit("validate");
    }
    match ws_kw(s, p, "validate"@) {
        Some(a) => match ident(s, a) {
            Some((b, target)) => match ws_char(s, b, '{') {
                Some(c) => match ws_kw(s, c, "success"@) {
                    Some(d) => match ws_char(s, d, ':') {
                        Some(e) => match braced(s, e) {
                            Some((f, success_scope)) => match ws_char(s, f, '}') {
                                Some(g) => Some(
                                    (
                                        g,
                                        SpecStatement::ValidateBlock {
                                            target,
                                            schema: "Schema"@,
                                            on_fail: SpecBlock { statements: Seq::empty() },
                                            success_scope,
                                        },
                                    ),
                                ),
                                None => None,
                            },
                            None => None,
                        },
                        None => None,
                    },
                    None => None,
                },
                None => None,
            },
            None => None,
        },
        None => None,
    }
}

/// `break` or `continue`.
pub open spec fn jump_stmt(s: Seq<char>, p: int) -> Option<(int, SpecStatement)> {
    match ws_kw(s, p, "break"@) {
        Some(a) => Some((a, SpecStatement::Break)),
        None => match ws_kw(s, p, "continue"@) {
            Some(a) => Some((a, SpecStatement::Continue)),
            None => None,
        },
    }
}

/// `name = expr`.
pub open spec fn assign_stmt(s: Seq<char>, p: int) -> Option<(int, SpecStatement)>
{
    match ident(s, p) {
        Some((a, name)) => match ws_char(s, a, '=') {
            Some(b) => match expr(s, b) {
                Some((c, value)) => Some(
                    (c, SpecStatement::Assign { name, op: AssignOp::Assign, value }),
                ),
                None => None,
            },
            None => None,
        },
        None => None,
    }
}

/// `return [expr]`.
pub open spec fn return_stmt(s: Seq<char>, p: int) -> Option<(int, SpecStatement)>
{
    match ws_kw(s, p, "return"@) {
        Some(a) => match expr(s, a) {
            Some((b, e)) => Some((b, SpecStatement::Return(Some(e)))),
            None => Some((a, SpecStatement::Return(None))),
        },
        None => None,
    }
}

/// An expression, with an optional `;`.
pub open spec fn expr_stmt(s: Seq<char>, p: int) -> Option<(int, SpecStatement)>
{
    match expr(s, p) {
        Some((a, e)) => {
            let b = match ws_char(s, a, ';') {
                Some(x) => x,
                None => a,
            };
            Some((b, SpecStatement::ExprStmt(e)))
        },
        None => None,
    }
}

/// Statements, each with blanks around it, as long as they match.
pub open spec fn block(s: Seq<char>, p: int) -> (int, Seq<SpecStatement>)
    decreases s.len() - p, 56int,
{
    block_rest(s, p, Seq::empty())
}

/// Statements after the statements `acc`.
pub open spec fn block_rest(s: Seq<char>, p: int, acc: Seq<SpecStatement>) -> (
    int,
    Seq<SpecStatement>,
)
    decreases s.len() - p, 55int,
{
    match stmt(s, skip(s, p)) {
        Some((q, st)) => {
            let b = skip(s, q);
            if forward(s, p, b) {
                block_rest(s, b, acc.push(st))
            } else {
                (p, acc)
            }
        },
        None => (p, acc),
    }
}

// ───────────────────────── types ─────────────────────────

/// A type, with blanks around it.
pub open spec fn type_ref(s: Seq<char>, p: int) -> Option<(int, SpecTypeRef)>
    decreases s.len() - p, 2int,
{
    match type_core(s, skip(s, p)) {
        Some((b, t)) => Some((skip(s, b), t)),
        None => None,
    }
}

/// The named types, `Array<T>`, `(T, ...)`, or any other name.
pub open spec fn type_core(s: Seq<char>, a: int) -> Option<(int, SpecTypeRef)>
    decreases s.len() - a, 1int,
{
    let custom = match ident(s, a) {
        Some((b, n)) => Some((b, SpecTypeRef::Custom(n))),
        None => None,
    };
    either(named_type(s, a), either(array_type(s, a), either(tuple_type(s, a), custom)))
}

/// A type written as a fixed word.
pub open spec fn named_type(s: Seq<char>, a: int) -> Option<(int, SpecTypeRef)> {
    match tag(s, a, "Untrusted"@) {
        Some(b) => Some((b, SpecTypeRef::Untrusted)),
        None => match tag(s, a, "i64"@) {
            Some(b) => Some((b, SpecTypeRef::Integer)),
            None => match tag(s, a, "f64"@) {
                Some(b) => Some((b, SpecTypeRef::Float)),
                None => match tag(s, a, "bool"@) {
                    Some(b) => Some((b, SpecTypeRef::Bool)),
                    None => match tag(s, a, "char"@) {
                        Some(b) => Some((b, SpecTypeRef::Char)),
                        None => match tag(s, a, "u8"@) {
                            Some(b) => Some((b, SpecTypeRef::Byte)),
                            None => match tag(s, a, "Void"@) {
                                Some(b) => Some((b, SpecTypeRef::Void)),
                                None => None,
                            },
                        },
                    },
                },
            },
        },
    }
}

/// `Array<T>`.
pub open spec fn array_type(s: Seq<char>, a: int) -> Option<(int, SpecTypeRef)>
    decreases s.len() - a, 0int,
{
    proof {
        reveal_strlit("Array");
    }
    match ws_tag(s, a, "Array"@) {
        Some(b) => match ws_char(s, b, '<') {
            Some(c) => match type_ref(s, c) {
                Some((d, t)) => match ws_char(s, d, '>') {
                    Some(e) => Some((e, SpecTypeRef::Array(Box::new(t)))),
                    None => None,
                },
                None => None,
            },
            None => None,
        },
        None => None,
    }
}

/// `(T, ...)`; a single type in parentheses is that type.
pub open spec fn tuple_type(s: Seq<char>, a: int) -> Option<(int, SpecTypeRef)>
    decreases s.len() - a, 0int,
{
    match ws_char(s, a, '(') {
        Some(b) => {
            let (c, ts) = type_list(s, b);
            match ws_char(s, c, ')') {
                Some(d) => Some(
                    (
                        d,
                        if ts.len() == 1 {
                            ts[0]
                        } else {
                            SpecTypeRef::Tuple(ts)
                        },
                    ),
                ),
                None => None,
            }
        },
        None => None,
    }
}

/// Types separated by commas, possibly none.
pub open spec fn type_list(s: Seq<char>, p: int) -> (int, Seq<SpecTypeRef>)
    decreases s.len() - p, 3int,
{
    match type_ref(s, p) {
        Some((q, t)) => if forward(s, p, q) {
            type_list_rest(s, q, seq![t])
        } else {
            (p, Seq::empty())
        },
        None => (p, Seq::empty()),
    }
}

/// `, type` again and again after the types `acc`.
pub open spec fn type_list_rest(s: Seq<char>, p: int, acc: Seq<SpecTypeRef>) -> (
    int,
    Seq<SpecTypeRef>,
)
    decreases s.len() - p, 0int,
{
    match ws_char(s, p, ',') {
        Some(a) => match type_ref(s, a) {
            Some((q, t)) => if forward(s, p, q) {
                type_list_rest(s, q, acc.push(t))
            } else {
                (p, acc)
            },
            None => (p, acc),
        },
        None => (p, acc),
    }
}

// ───────────────────────── functions ─────────────────────────

/// `name: type`.
pub open spec fn param(s: Seq<char>, p: int) -> Option<(int, SpecParam)> {
    match ident(s, skip(s, p)) {
        Some((a, name)) => match ws_char(s, skip(s, a), ':') {
            Some(b) => match type_ref(s, b) {
                Some((c, param_type)) => Some((c, SpecParam { name, param_type })),
                None => None,
            },
            None => None,
        },
        None => None,
    }
}

/// Parameters separated by commas, possibly none.
pub open spec fn params(s: Seq<char>, p: int) -> (int, Seq<SpecParam>) {
    match param(s, p) {
        Some((q, x)) => params_rest(s, q, seq![x]),
        None => (p, Seq::empty()),
    }
}

/// `, param` again and again after the parameters `acc`.
pub open spec fn params_rest(s: Seq<char>, p: int, acc: Seq<SpecParam>) -> (int, Seq<SpecParam>)
    decreases s.len() - p,
{
    match ws_char(s, p, ',') {
        Some(a) => match param(s, a) {
            Some((q, x)) => if forward(s, p, q) {
                params_rest(s, q, acc.push(x))
            } else {
                (p, acc)
            },
            None => (p, acc),
        },
        None => (p, acc),
    }
}

/// `det`/`deterministic` or `nondet`/`nondeterministic`, with blanks around it.
pub open spec fn purity(s: Seq<char>, p: int) -> Option<(int, Purity)> {
    let a = skip(s, p);
    match either(kw(s, a, "deterministic"@), kw(s, a, "det"@)) {
        Some(b) => Some((skip(s, b), Purity::Deterministic)),
        None => match either(kw(s, a, "nondeterministic"@), kw(s, a, "nondet"@)) {
            Some(b) => Some((skip(s, b), Purity::Nondeterministic)),
            None => None,
        },
    }
}

/// `purity fn name(params) [-> type] { ... }`; without `->` the function
/// returns `Void`. Functions carry no attributes.
pub open spec fn function(s: Seq<char>, p: int) -> Option<(int, SpecFunctionDef)> {
    match purity(s, p) {
        Some((a, pur)) => match ws_kw(s, a, "fn"@) {
            Some(b) => match ident(s, skip(s, b)) {
                Some((c, name)) => match ws_char(s, skip(s, c), '(') {
                    Some(d) => {
                        let (e, ps) = params(s, d);
                        match ws_char(s, e, ')') {
                            Some(f) => {
                                let (g, ret) = match ws_tag(s, f, "->"@) {
                                    Some(x) => match type_ref(s, x) {
                                        Some((y, t)) => (y, Some(t)),
                                        None => (f, None),
                                    },
                                    None => (f, None),
                                };
                                match braced(s, g) {
                                    Some((h, body)) => Some(
                                        (
                                            h,
                                            SpecFunctionDef {
                                                attributes: Seq::empty(),
                                                name,
                                                purity: pur,
                                                params: ps,
                                                return_type: match ret {
                                                    Some(t) => t,
                                                    None => SpecTypeRef::Void,
                                                },
                                                body,
                                            },
                                        ),
                                    ),
                                    None => None,
                                }
                            },
                            None => None,
                        }
                    },
                    None => None,
                },
                None => None,
            },
            None => None,
        },
        None => None,
    }
}

/// Functions, each with blanks around it, after the functions `acc`.
pub open spec fn functions(s: Seq<char>, p: int, acc: Seq<SpecFunctionDef>) -> (
    int,
    Seq<SpecFunctionDef>,
)
    decreases s.len() - p,
{
    match function(s, skip(s, p)) {
        Some((q, f)) => {
            let b = skip(s, q);
            if forward(s, p, b) {
                functions(s, b, acc.push(f))
            } else {
                (p, acc)
            }
        },
        None => (p, acc),
    }
}

/// A program: one or more functions. What follows the last function that
/// matched is left unread; its position is returned.
pub open spec fn program(s: Seq<char>) -> Option<(int, Seq<SpecFunctionDef>)> {
    let (q, fs) = functions(s, 0, Seq::empty());
    if fs.len() > 0 {
        Some((q, fs))
    } else {
        None
    }
}

} // verus!
