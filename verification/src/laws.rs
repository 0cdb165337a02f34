//! What the compiler promises as a whole, proved from the contracts of its parts.
use vstd::prelude::*;
use crate::analysis::determinism::{
    call_arms,
    call_block,
    call_expr,
    call_exprs,
    call_fields,
    call_parts,
    call_stmt,
    call_stmts,
    determinism_function,
    is_nondet_call,
    msg_not_pure,
    stmt_pure,
    stmts_pure,
};
use crate::analysis::scope::{
    msg_spawn,
    scope_block,
    scope_expr,
    scope_function,
    scope_stmt,
    scope_stmts,
};
use crate::analysis::taint::{
    clean_expr,
    clean_exprs,
    msg_already_clean,
    remove_name,
    taint_block,
    taint_function,
    taint_stmt,
    untrusted_params,
    taint_stmts,
    tainted_prop,
};
use crate::ast::{
    Purity,
    SpecBlock,
    SpecExpr,
    SpecFunctionDef,
    SpecInterpolPart,
    SpecMatchArm,
    SpecStatement,
};
use crate::codegen::{
    arms_text,
    block_text,
    expr_text,
    function_text,
    ind,
    program_ctx,
    pure_names,
    stmt_text,
    stmts_text,
    wrap_inc,
    GenCtx,
};
use crate::compiler::{bom_end, first_error, function_error, program_error, without_bom};
use crate::lexer::{is_unicode_space, trim};
use crate::runtime::{trim_back, trimmed};

verus! {

// ───────────────────────── the compiler refuses what it does not trust ─────────────────────────

/// A function passes every check: determinism, taint and scope.
pub open spec fn passes_checks(fs: Seq<SpecFunctionDef>, f: SpecFunctionDef) -> bool {
    &&& determinism_function(fs, f) is None
    &&& taint_function(fs, f) is None
    &&& scope_function(f) is None
}

proof fn lemma_first_error_none(fs: Seq<SpecFunctionDef>, k: int)
    requires
        0 <= k <= fs.len(),
    ensures
        first_error(fs, k) is None <==> forall|i: int| 0 <= i < k ==> #[trigger] passes_checks(fs, fs[i]),
    decreases k,
{
    reveal(function_error);
    if k > 0 {
        lemma_first_error_none(fs, k - 1);
        if first_error(fs, k) is None {
            assert forall|i: int| 0 <= i < k implies #[trigger] passes_checks(fs, fs[i]) by {
                if i == k - 1 {
                } else {
                    assert(0 <= i < k - 1);
                }
            }
        } else {
            if forall|i: int| 0 <= i < k ==> #[trigger] passes_checks(fs, fs[i]) {
                assert(passes_checks(fs, fs[k - 1]));
                assert forall|i: int| 0 <= i < k - 1 implies #[trigger] passes_checks(fs, fs[i]) by {
                    assert(passes_checks(fs, fs[i]));
                }
            }
        }
    }
}

/// A program is accepted (and only then compiled) exactly when every one of
/// its functions passes the determinism, taint and scope checks.
pub proof fn law_accepted_iff_every_check_passes(fs: Seq<SpecFunctionDef>)
    ensures
        program_error(fs) is None <==> forall|i: int|
            0 <= i < fs.len() ==> #[trigger] passes_checks(fs, fs[i]),
{
    lemma_first_error_none(fs, fs.len() as int);
}

/// A leading byte-order mark is ignored: the text the compiler reads is the
/// same with or without it.
pub proof fn law_leading_bom_ignored(s: Seq<char>)
    ensures
        without_bom(seq!['\u{feff}'] + s) == without_bom(s),
{
    let t = seq!['\u{feff}'] + s;
    lemma_bom_end_shift(s, 0);
    crate::compiler::lemma_bom_end(s, 0);
    let b = bom_end(s, 0);
    assert(bom_end(t, 0) == b + 1);
    assert(t.subrange(b + 1, t.len() as int) =~= s.subrange(b, s.len() as int));
}

proof fn lemma_bom_end_shift(s: Seq<char>, i: int)
    requires
        0 <= i <= s.len(),
    ensures
        bom_end(seq!['\u{feff}'] + s, 0) == bom_end(seq!['\u{feff}'] + s, 1),
        bom_end(seq!['\u{feff}'] + s, i + 1) == bom_end(s, i) + 1,
    decreases s.len() - i,
{
    let t = seq!['\u{feff}'] + s;
    assert(t[0] == '\u{feff}');
    if i < s.len() {
        assert(t[i + 1] == s[i]);
        lemma_bom_end_shift(s, i + 1);
    }
}

// ───────────────────────── structured concurrency ─────────────────────────

proof fn lemma_scope_stmts_fail(
    defs: Seq<Seq<char>>,
    in_scope: bool,
    in_loop: bool,
    s: Seq<SpecStatement>,
    k: int,
)
    requires
        0 <= k < s.len(),
        forall|d: Seq<Seq<char>>| #[trigger] scope_stmt(d, in_scope, in_loop, s[k]) is Err,
    ensures
        scope_stmts(defs, in_scope, in_loop, s) is Err,
    decreases s.len(),
{
    if k == s.len() - 1 {
        match scope_stmts(defs, in_scope, in_loop, s.drop_last()) {
            Err(_) => {},
            Ok(d) => {
                assert(scope_stmt(d, in_scope, in_loop, s[k]) is Err);
            },
        }
    } else {
        assert(s.drop_last()[k] == s[k]);
        lemma_scope_stmts_fail(defs, in_scope, in_loop, s.drop_last(), k);
    }
}

/// `spawn` outside a `scope` block is refused: a function whose body has a
/// statement `spawn e` outside any `scope` fails the scope check.
pub proof fn law_spawn_outside_scope_refused(f: SpecFunctionDef, k: int, e: SpecExpr)
    requires
        0 <= k < f.body.statements.len(),
        f.body.statements[k] == SpecStatement::ExprStmt(SpecExpr::Spawn(Box::new(e))),
    ensures
        scope_function(f) is Some,
{
    let s = f.body.statements;
    assert forall|d: Seq<Seq<char>>| #[trigger] scope_stmt(d, false, false, s[k]) is Err by {
        assert(scope_expr(d, false, SpecExpr::Spawn(Box::new(e))) == Some(msg_spawn()));
    }
    lemma_scope_stmts_fail(crate::analysis::scope::param_names(f.params), false, false, s, k);
}

/// Inside a `scope` block, `spawn e` is checked as `e` itself would be.
pub proof fn law_spawn_inside_scope_checked_as_its_task(
    defs: Seq<Seq<char>>,
    in_loop: bool,
    e: SpecExpr,
)
    ensures
        scope_stmt(defs, true, in_loop, SpecStatement::ExprStmt(SpecExpr::Spawn(Box::new(e))))
            == scope_stmt(defs, true, in_loop, SpecStatement::ExprStmt(e)),
{
}

// ───────────────────────── purity ─────────────────────────

proof fn lemma_stmts_impure(fs: Seq<SpecFunctionDef>, s: Seq<SpecStatement>, k: int)
    requires
        0 <= k < s.len(),
        !stmt_pure(fs, s[k]),
    ensures
        !stmts_pure(fs, s),
    decreases s.len(),
{
    if k < s.len() - 1 {
        assert(s.drop_last()[k] == s[k]);
        lemma_stmts_impure(fs, s.drop_last(), k);
    }
}

proof fn lemma_call_stmts_fail(fs: Seq<SpecFunctionDef>, s: Seq<SpecStatement>, k: int)
    requires
        0 <= k < s.len(),
        call_stmt(fs, s[k]) is Some,
    ensures
        call_stmts(fs, s) is Some,
    decreases s.len(),
{
    if k < s.len() - 1 {
        assert(s.drop_last()[k] == s[k]);
        lemma_call_stmts_fail(fs, s.drop_last(), k);
    }
}

/// An I/O call of the standard library (`DB.log`, `Console.read`, `HTTP.get`,
/// `Util.now`, `Util.to_int`, `input`, `inputln`) in the body of a
/// `deterministic` function, as an expression statement, a returned value or
/// the value of a `let`, is refused with the purity error, whatever the
/// program's other functions.
pub proof fn law_io_in_deterministic_refused(
    fs: Seq<SpecFunctionDef>,
    f: SpecFunctionDef,
    k: int,
    x: Seq<char>,
    name: Seq<char>,
    args: Seq<SpecExpr>,
    awaited: bool,
)
    requires
        f.purity == Purity::Deterministic,
        0 <= k < f.body.statements.len(),
        ({
            let c = SpecExpr::Call(name, args, awaited);
            ||| f.body.statements[k] == SpecStatement::ExprStmt(c)
            ||| f.body.statements[k] == SpecStatement::Return(Some(c))
            ||| f.body.statements[k] == (SpecStatement::Let { name: x, value: c })
        }),
        name == "DB.log"@ || name == "Console.read"@ || name == "HTTP.get"@ || name == "Util.now"@
            || name == "Util.to_int"@ || name == "input"@ || name == "inputln"@,
    ensures
        determinism_function(fs, f) == Some(msg_not_pure(f.name)),
{
    lemma_stmts_impure(fs, f.body.statements, k);
}

/// `call` written before an I/O function of the standard library (`DB.log`,
/// `Console.read`, `HTTP.get`, `Util.now`, `Util.to_int`, `input`,
/// `inputln`) is not an error: only its arguments are looked into, whatever
/// the program's other functions. So a `nondeterministic` function whose
/// body binds such a call on arguments free of `call`s passes.
pub proof fn law_call_before_io_accepted(
    fs: Seq<SpecFunctionDef>,
    f: SpecFunctionDef,
    x: Seq<char>,
    name: Seq<char>,
    args: Seq<SpecExpr>,
)
    requires
        name == "DB.log"@ || name == "Console.read"@ || name == "HTTP.get"@ || name == "Util.now"@
            || name == "Util.to_int"@ || name == "input"@ || name == "inputln"@,
    ensures
        call_expr(fs, SpecExpr::Call(name, args, true)) == call_exprs(fs, args),
        f.purity == Purity::Nondeterministic && call_exprs(fs, args) is None
            && f.body.statements == seq![
            SpecStatement::Let { name: x, value: SpecExpr::Call(name, args, true) },
        ] ==> determinism_function(fs, f) is None,
{
    let st = SpecStatement::Let { name: x, value: SpecExpr::Call(name, args, true) };
    assert(seq![st].drop_last() =~= Seq::<SpecStatement>::empty());
    assert(seq![st].last() == st);
}

/// Whether `e` holds, anywhere inside it, a `call` written before a
/// function that does no I/O.
pub open spec fn pure_call_in(fs: Seq<SpecFunctionDef>, e: SpecExpr) -> bool
    decreases e, 0nat,
{
    match e {
        SpecExpr::Call(name, args, awaited) => (awaited && !is_nondet_call(fs, name))
            || pure_call_in_exprs(fs, args),
        SpecExpr::Binary(l, _, r) => pure_call_in(fs, *l) || pure_call_in(fs, *r),
        SpecExpr::Unary(_, x) => pure_call_in(fs, *x),
        SpecExpr::Spawn(x) => pure_call_in(fs, *x),
        SpecExpr::Await(x) => pure_call_in(fs, *x),
        SpecExpr::Infra(c) => pure_call_in_exprs(fs, c.args),
        SpecExpr::JsonField(x, _) => pure_call_in(fs, *x),
        SpecExpr::ArrayLiteral(xs) => pure_call_in_exprs(fs, xs),
        SpecExpr::Index(a, i) => pure_call_in(fs, *a) || pure_call_in(fs, *i),
        SpecExpr::TupleLiteral(xs) => pure_call_in_exprs(fs, xs),
        SpecExpr::TupleIndex(x, _) => pure_call_in(fs, *x),
        SpecExpr::Interpolation(ps) => pure_call_in_parts(fs, ps),
        SpecExpr::MethodCall(o, _, args) => pure_call_in(fs, *o) || pure_call_in_exprs(fs, args),
        SpecExpr::StructLiteral(_, flds) => pure_call_in_fields(fs, flds),
        SpecExpr::FieldAccess(o, _) => pure_call_in(fs, *o),
        SpecExpr::Try(x) => pure_call_in(fs, *x),
        SpecExpr::Catch(x, d) => pure_call_in(fs, *x) || pure_call_in(fs, *d),
        SpecExpr::Identifier(_) | SpecExpr::Literal(_) | SpecExpr::InlineRust(_) => false,
    }
}

/// Whether one of the expressions holds such a `call`.
pub open spec fn pure_call_in_exprs(fs: Seq<SpecFunctionDef>, s: Seq<SpecExpr>) -> bool
    decreases s, 1nat,
{
    s.len() > 0 && (pure_call_in_exprs(fs, s.drop_last()) || pure_call_in(fs, s.last()))
}

/// Whether one of the embedded expressions of an interpolation holds such a `call`.
pub open spec fn pure_call_in_parts(fs: Seq<SpecFunctionDef>, s: Seq<SpecInterpolPart>) -> bool
    decreases s, 1nat,
{
    s.len() > 0 && (pure_call_in_parts(fs, s.drop_last()) || match s.last() {
        SpecInterpolPart::Expr(x) => pure_call_in(fs, x),
        SpecInterpolPart::Lit(_) => false,
    })
}

/// Whether one of the field values of a struct literal holds such a `call`.
pub open spec fn pure_call_in_fields(fs: Seq<SpecFunctionDef>, s: Seq<(Seq<char>, SpecExpr)>) -> bool
    decreases s, 1nat,
{
    s.len() > 0 && (pure_call_in_fields(fs, s.drop_last()) || pure_call_in(fs, s.last().1))
}

/// Whether a statement holds, in any of its expressions or nested blocks, a
/// `call` written before a function that does no I/O.
pub open spec fn pure_call_in_stmt(fs: Seq<SpecFunctionDef>, s: SpecStatement) -> bool
    decreases s, 0nat,
{
    match s {
        SpecStatement::Let { value, .. } => pure_call_in(fs, value),
        SpecStatement::Const { value, .. } => pure_call_in(fs, value),
        SpecStatement::Assign { value, .. } => pure_call_in(fs, value),
        SpecStatement::IndexAssign { index, value, .. } => pure_call_in(fs, index) || pure_call_in(
            fs,
            value,
        ),
        SpecStatement::Match { expr, arms } => pure_call_in(fs, expr) || pure_call_in_arms(
            fs,
            arms,
        ),
        SpecStatement::If { condition, then_block, else_block } => pure_call_in(fs, condition)
            || pure_call_in_block(fs, then_block) || match else_block {
            Some(b) => pure_call_in_block(fs, b),
            None => false,
        },
        SpecStatement::While { condition, body } => pure_call_in(fs, condition)
            || pure_call_in_block(fs, body),
        SpecStatement::For { start, end, step, body, .. } => pure_call_in(fs, start)
            || pure_call_in(fs, end) || match step {
            Some(x) => pure_call_in(fs, x),
            None => false,
        } || pure_call_in_block(fs, body),
        SpecStatement::ScopeBlock { body, .. } => pure_call_in_block(fs, body),
        SpecStatement::ValidateBlock { success_scope, on_fail, .. } => pure_call_in_block(
            fs,
            success_scope,
        ) || pure_call_in_block(fs, on_fail),
        SpecStatement::ExprStmt(x) => pure_call_in(fs, x),
        SpecStatement::Return(x) => match x {
            Some(v) => pure_call_in(fs, v),
            None => false,
        },
        SpecStatement::Break | SpecStatement::Continue => false,
    }
}

/// Whether one of the statements holds such a `call`.
pub open spec fn pure_call_in_stmts(fs: Seq<SpecFunctionDef>, s: Seq<SpecStatement>) -> bool
    decreases s, 1nat,
{
    s.len() > 0 && (pure_call_in_stmts(fs, s.drop_last()) || pure_call_in_stmt(fs, s.last()))
}

/// Whether a block holds such a `call`, at any depth.
pub open spec fn pure_call_in_block(fs: Seq<SpecFunctionDef>, b: SpecBlock) -> bool
    decreases b, 0nat,
{
    pure_call_in_stmts(fs, b.statements)
}

/// Whether the body of one of the arms holds such a `call`.
pub open spec fn pure_call_in_arms(fs: Seq<SpecFunctionDef>, s: Seq<SpecMatchArm>) -> bool
    decreases s, 1nat,
{
    s.len() > 0 && (pure_call_in_arms(fs, s.drop_last()) || pure_call_in_block(fs, s.last().body))
}

proof fn lemma_pure_call_found(fs: Seq<SpecFunctionDef>, e: SpecExpr)
    requires
        pure_call_in(fs, e),
    ensures
        call_expr(fs, e) is Some,
    decreases e, 0nat,
{
    match e {
        SpecExpr::Call(name, args, awaited) => {
            if !(awaited && !is_nondet_call(fs, name)) {
                lemma_pure_call_found_exprs(fs, args);
            }
        },
        SpecExpr::Binary(l, _, r) => {
            if pure_call_in(fs, *l) {
                lemma_pure_call_found(fs, *l);
            } else {
                lemma_pure_call_found(fs, *r);
            }
        },
        SpecExpr::Unary(_, x) => lemma_pure_call_found(fs, *x),
        SpecExpr::Spawn(x) => lemma_pure_call_found(fs, *x),
        SpecExpr::Await(x) => lemma_pure_call_found(fs, *x),
        SpecExpr::Infra(c) => lemma_pure_call_found_exprs(fs, c.args),
        SpecExpr::JsonField(x, _) => lemma_pure_call_found(fs, *x),
        SpecExpr::ArrayLiteral(xs) => lemma_pure_call_found_exprs(fs, xs),
        SpecExpr::Index(a, i) => {
            if pure_call_in(fs, *a) {
                lemma_pure_call_found(fs, *a);
            } else {
                lemma_pure_call_found(fs, *i);
            }
        },
        SpecExpr::TupleLiteral(xs) => lemma_pure_call_found_exprs(fs, xs),
        SpecExpr::TupleIndex(x, _) => lemma_pure_call_found(fs, *x),
        SpecExpr::Interpolation(ps) => lemma_pure_call_found_parts(fs, ps),
        SpecExpr::MethodCall(o, _, args) => {
            if pure_call_in(fs, *o) {
                lemma_pure_call_found(fs, *o);
            } else {
                lemma_pure_call_found_exprs(fs, args);
            }
        },
        SpecExpr::StructLiteral(_, flds) => lemma_pure_call_found_fields(fs, flds),
        SpecExpr::FieldAccess(o, _) => lemma_pure_call_found(fs, *o),
        SpecExpr::Try(x) => lemma_pure_call_found(fs, *x),
        SpecExpr::Catch(x, d) => {
            if pure_call_in(fs, *x) {
                lemma_pure_call_found(fs, *x);
            } else {
                lemma_pure_call_found(fs, *d);
            }
        },
        _ => {},
    }
}

proof fn lemma_pure_call_found_exprs(fs: Seq<SpecFunctionDef>, s: Seq<SpecExpr>)
    requires
        pure_call_in_exprs(fs, s),
    ensures
        call_exprs(fs, s) is Some,
    decreases s, 1nat,
{
    if pure_call_in_exprs(fs, s.drop_last()) {
        lemma_pure_call_found_exprs(fs, s.drop_last());
    } else {
        lemma_pure_call_found(fs, s.last());
    }
}

proof fn lemma_pure_call_found_parts(fs: Seq<SpecFunctionDef>, s: Seq<SpecInterpolPart>)
    requires
        pure_call_in_parts(fs, s),
    ensures
        call_parts(fs, s) is Some,
    decreases s, 1nat,
{
    if pure_call_in_parts(fs, s.drop_last()) {
        lemma_pure_call_found_parts(fs, s.drop_last());
    } else {
        lemma_pure_call_found(fs, s.last()->Expr_0);
    }
}

proof fn lemma_pure_call_found_fields(fs: Seq<SpecFunctionDef>, s: Seq<(Seq<char>, SpecExpr)>)
    requires
        pure_call_in_fields(fs, s),
    ensures
        call_fields(fs, s) is Some,
    decreases s, 1nat,
{
    if pure_call_in_fields(fs, s.drop_last()) {
        lemma_pure_call_found_fields(fs, s.drop_last());
    } else {
        lemma_pure_call_found(fs, s.last().1);
    }
}

proof fn lemma_pure_call_found_stmt(fs: Seq<SpecFunctionDef>, s: SpecStatement)
    requires
        pure_call_in_stmt(fs, s),
    ensures
        call_stmt(fs, s) is Some,
    decreases s, 0nat,
{
    match s {
        SpecStatement::Let { value, .. } => lemma_pure_call_found(fs, value),
        SpecStatement::Const { value, .. } => lemma_pure_call_found(fs, value),
        SpecStatement::Assign { value, .. } => lemma_pure_call_found(fs, value),
        SpecStatement::IndexAssign { index, value, .. } => {
            if pure_call_in(fs, index) {
                lemma_pure_call_found(fs, index);
            } else {
                lemma_pure_call_found(fs, value);
            }
        },
        SpecStatement::Match { expr, arms } => {
            if pure_call_in(fs, expr) {
                lemma_pure_call_found(fs, expr);
            } else {
                lemma_pure_call_found_arms(fs, arms);
            }
        },
        SpecStatement::If { condition, then_block, else_block } => {
            if pure_call_in(fs, condition) {
                lemma_pure_call_found(fs, condition);
            } else if pure_call_in_block(fs, then_block) {
                lemma_pure_call_found_stmts(fs, then_block.statements);
            } else {
                lemma_pure_call_found_stmts(fs, else_block->Some_0.statements);
            }
        },
        SpecStatement::While { condition, body } => {
            if pure_call_in(fs, condition) {
                lemma_pure_call_found(fs, condition);
            } else {
                lemma_pure_call_found_stmts(fs, body.statements);
            }
        },
        SpecStatement::For { start, end, step, body, .. } => {
            if pure_call_in(fs, start) {
                lemma_pure_call_found(fs, start);
            } else if pure_call_in(fs, end) {
                lemma_pure_call_found(fs, end);
            } else if step is Some && pure_call_in(fs, step->Some_0) {
                lemma_pure_call_found(fs, step->Some_0);
            } else {
                lemma_pure_call_found_stmts(fs, body.statements);
            }
        },
        SpecStatement::ScopeBlock { body, .. } => lemma_pure_call_found_stmts(fs, body.statements),
        SpecStatement::ValidateBlock { success_scope, on_fail, .. } => {
            if pure_call_in_block(fs, success_scope) {
                lemma_pure_call_found_stmts(fs, success_scope.statements);
            } else {
                lemma_pure_call_found_stmts(fs, on_fail.statements);
            }
        },
        SpecStatement::ExprStmt(x) => lemma_pure_call_found(fs, x),
        SpecStatement::Return(x) => lemma_pure_call_found(fs, x->Some_0),
        SpecStatement::Break | SpecStatement::Continue => {},
    }
}

proof fn lemma_pure_call_found_stmts(fs: Seq<SpecFunctionDef>, s: Seq<SpecStatement>)
    requires
        pure_call_in_stmts(fs, s),
    ensures
        call_stmts(fs, s) is Some,
    decreases s, 1nat,
{
    if pure_call_in_stmts(fs, s.drop_last()) {
        lemma_pure_call_found_stmts(fs, s.drop_last());
    } else {
        lemma_pure_call_found_stmt(fs, s.last());
    }
}

proof fn lemma_pure_call_found_arms(fs: Seq<SpecFunctionDef>, s: Seq<SpecMatchArm>)
    requires
        pure_call_in_arms(fs, s),
    ensures
        call_arms(fs, s) is Some,
    decreases s, 1nat,
{
    if pure_call_in_arms(fs, s.drop_last()) {
        lemma_pure_call_found_arms(fs, s.drop_last());
    } else {
        let b = s.last().body;
        assert(pure_call_in_block(fs, b));
        lemma_pure_call_found_stmts(fs, b.statements);
        assert(call_block(fs, b) is Some);
    }
}

/// `call` written before a function that does no I/O is refused, wherever it
/// stands in the body (in any statement, nested block or subexpression) and
/// whatever the purity of the function in which it stands.
pub proof fn law_call_on_pure_refused(fs: Seq<SpecFunctionDef>, f: SpecFunctionDef)
    requires
        pure_call_in_block(fs, f.body),
    ensures
        determinism_function(fs, f) is Some,
{
    lemma_pure_call_found_stmts(fs, f.body.statements);
}

// ───────────────────────── zero trust ─────────────────────────

/// A name bound to the result of an input source (`Console.read`, `HTTP.get`,
/// `input`, `inputln`) is tainted for the statements that follow, whatever the
/// program's other functions and the names already tainted.
pub proof fn law_input_is_tainted(
    fs: Seq<SpecFunctionDef>,
    t: Seq<Seq<char>>,
    x: Seq<char>,
    source: Seq<char>,
    args: Seq<SpecExpr>,
    awaited: bool,
    next: SpecStatement,
)
    requires
        source == "Console.read"@ || source == "HTTP.get"@ || source == "input"@ || source
            == "inputln"@,
    ensures
        taint_stmt(fs, t, SpecStatement::Let { name: x, value: SpecExpr::Call(source, args, awaited) })
            == Ok::<Seq<Seq<char>>, Seq<char>>(t.push(x)),
        taint_stmts(
            fs,
            t,
            seq![SpecStatement::Let { name: x, value: SpecExpr::Call(source, args, awaited) }, next],
        ) == taint_stmt(fs, t.push(x), next),
{
    let first = SpecStatement::Let { name: x, value: SpecExpr::Call(source, args, awaited) };
    let s = seq![first, next];
    assert(s.drop_last() =~= seq![first]);
    assert(seq![first].drop_last() =~= Seq::<SpecStatement>::empty());
    assert(taint_stmt(fs, t, first) == Ok::<Seq<Seq<char>>, Seq<char>>(t.push(x)));
    assert(taint_stmts(fs, t, Seq::<SpecStatement>::empty()) == Ok::<Seq<Seq<char>>, Seq<char>>(t));
    assert(seq![first].last() == first);
    assert(taint_stmts(fs, t, seq![first]) == Ok::<Seq<Seq<char>>, Seq<char>>(t.push(x)));
}

/// Data read from an input source and passed on before `validate` makes the
/// function fail the taint check, whatever function it is passed to and
/// whether or not it is spawned.
pub proof fn law_unvalidated_input_refused(
    fs: Seq<SpecFunctionDef>,
    f: SpecFunctionDef,
    x: Seq<char>,
    source: Seq<char>,
    source_args: Seq<SpecExpr>,
    awaited: bool,
    callee: Seq<char>,
    args: Seq<SpecExpr>,
    called: bool,
    i: int,
    spawned: bool,
)
    requires
        source == "Console.read"@ || source == "HTTP.get"@ || source == "input"@ || source
            == "inputln"@,
        0 <= i < args.len(),
        args[i] == SpecExpr::Identifier(x),
        f.body.statements == seq![
            SpecStatement::Let { name: x, value: SpecExpr::Call(source, source_args, awaited) },
            SpecStatement::ExprStmt(
                if spawned {
                    SpecExpr::Spawn(Box::new(SpecExpr::Call(callee, args, called)))
                } else {
                    SpecExpr::Call(callee, args, called)
                },
            ),
        ],
    ensures
        taint_function(fs, f) is Some,
{
    let t = untrusted_params(f.params);
    let use_x = f.body.statements[1];
    law_input_is_tainted(fs, t, x, source, source_args, awaited, use_x);
    assert(t.push(x).contains(x)) by {
        assert(t.push(x)[t.len() as int] == x);
    }
    law_tainted_argument_refused(fs, t.push(x), x, callee, args, called, i, spawned);
    assert(taint_block(fs, t, f.body) is Err);
}

/// A value derived from tainted data is tainted in turn.
pub proof fn law_taint_propagates(
    fs: Seq<SpecFunctionDef>,
    t: Seq<Seq<char>>,
    y: Seq<char>,
    e: SpecExpr,
)
    requires
        tainted_prop(t, e),
    ensures
        taint_stmt(fs, t, SpecStatement::Let { name: y, value: e }) == Ok::<
            Seq<Seq<char>>,
            Seq<char>,
        >(t.push(y)),
{
}

proof fn lemma_clean_exprs_fail(t: Seq<Seq<char>>, s: Seq<SpecExpr>, i: int)
    requires
        0 <= i < s.len(),
        clean_expr(t, s[i]) is Some,
    ensures
        clean_exprs(t, s) is Some,
    decreases s.len(),
{
    if i < s.len() - 1 {
        assert(s.drop_last()[i] == s[i]);
        lemma_clean_exprs_fail(t, s.drop_last(), i);
    }
}

/// A tainted variable passed to any function, spawned or not, is refused.
pub proof fn law_tainted_argument_refused(
    fs: Seq<SpecFunctionDef>,
    t: Seq<Seq<char>>,
    x: Seq<char>,
    callee: Seq<char>,
    args: Seq<SpecExpr>,
    awaited: bool,
    i: int,
    spawned: bool,
)
    requires
        t.contains(x),
        0 <= i < args.len(),
        args[i] == SpecExpr::Identifier(x),
    ensures
        taint_stmt(
            fs,
            t,
            SpecStatement::ExprStmt(
                if spawned {
                    SpecExpr::Spawn(Box::new(SpecExpr::Call(callee, args, awaited)))
                } else {
                    SpecExpr::Call(callee, args, awaited)
                },
            ),
        ) is Err,
{
    lemma_clean_exprs_fail(t, args, i);
    let call = SpecExpr::Call(callee, args, awaited);
    assert(clean_expr(t, call) is Some);
    assert(clean_expr(t, SpecExpr::Spawn(Box::new(call))) is Some);
}

proof fn lemma_remove_name(t: Seq<Seq<char>>, x: Seq<char>, n: Seq<char>)
    ensures
        remove_name(t, x).contains(n) <==> (t.contains(n) && n != x),
    decreases t.len(),
{
    if t.len() > 0 {
        lemma_remove_name(t.drop_last(), x, n);
        let r = remove_name(t.drop_last(), x);
        if t.contains(n) && n != x {
            let j = choose|j: int| 0 <= j < t.len() && t[j] == n;
            if j < t.len() - 1 {
                assert(t.drop_last()[j] == n);
            }
            if t.last() != x {
                assert(r.push(t.last())[r.len() as int] == t.last());
                if j < t.len() - 1 {
                    let m = choose|m: int| 0 <= m < r.len() && r[m] == n;
                    assert(r.push(t.last())[m] == n);
                }
            }
        }
        if remove_name(t, x).contains(n) {
            if t.last() != x {
                let m = choose|m: int| 0 <= m < r.len() + 1 && r.push(t.last())[m] == n;
                if m < r.len() {
                    assert(r[m] == n);
                    let j = choose|j: int| 0 <= j < t.drop_last().len() && t.drop_last()[j] == n;
                    assert(t[j] == n);
                } else {
                    assert(t[t.len() - 1] == n);
                }
            } else {
                let j = choose|j: int| 0 <= j < t.drop_last().len() && t.drop_last()[j] == n;
                assert(t[j] == n);
            }
        }
    }
}

/// Validation clears the taint of exactly the validated name.
pub proof fn law_validation_clears_exactly_its_target(t: Seq<Seq<char>>, x: Seq<char>, n: Seq<char>)
    ensures
        !remove_name(t, x).contains(x),
        n != x ==> (remove_name(t, x).contains(n) <==> t.contains(n)),
{
    lemma_remove_name(t, x, x);
    lemma_remove_name(t, x, n);
}

/// Inside the `success` scope of `validate x`, `x` may be used.
pub proof fn law_validated_value_usable(
    fs: Seq<SpecFunctionDef>,
    t: Seq<Seq<char>>,
    x: Seq<char>,
    schema: Seq<char>,
)
    requires
        t.contains(x),
    ensures
        taint_stmt(
            fs,
            t,
            SpecStatement::ValidateBlock {
                target: x,
                schema,
                on_fail: SpecBlock { statements: Seq::empty() },
                success_scope: SpecBlock {
                    statements: seq![SpecStatement::ExprStmt(SpecExpr::Identifier(x))],
                },
            },
        ) == Ok::<Seq<Seq<char>>, Seq<char>>(t),
{
    lemma_remove_name(t, x, x);
    let r = remove_name(t, x);
    let use_x = SpecStatement::ExprStmt(SpecExpr::Identifier(x));
    let body = seq![use_x];
    assert(body.drop_last() =~= Seq::<SpecStatement>::empty());
    assert(clean_expr(r, SpecExpr::Identifier(x)) is None);
    assert(taint_stmt(fs, r, use_x) == Ok::<Seq<Seq<char>>, Seq<char>>(r));
    assert(taint_stmts(fs, r, Seq::<SpecStatement>::empty()) == Ok::<Seq<Seq<char>>, Seq<char>>(r));
    assert(body.last() == use_x);
    assert(taint_stmts(fs, r, body) == Ok::<Seq<Seq<char>>, Seq<char>>(r));
    assert(taint_stmts(fs, t, Seq::<SpecStatement>::empty()) == Ok::<Seq<Seq<char>>, Seq<char>>(t));
}

/// Only tainted data can be validated.
pub proof fn law_validating_clean_data_refused(
    fs: Seq<SpecFunctionDef>,
    t: Seq<Seq<char>>,
    x: Seq<char>,
    schema: Seq<char>,
    on_fail: SpecBlock,
    success_scope: SpecBlock,
)
    requires
        !t.contains(x),
    ensures
        taint_stmt(
            fs,
            t,
            SpecStatement::ValidateBlock { target: x, schema, on_fail, success_scope },
        ) == Err::<Seq<Seq<char>>, Seq<char>>(msg_already_clean(x)),
{
}

// ───────────────────────── code generation ─────────────────────────

proof fn lemma_pure_names(fs: Seq<SpecFunctionDef>, n: Seq<char>)
    ensures
        pure_names(fs).contains(n) <==> exists|i: int|
            0 <= i < fs.len() && #[trigger] fs[i].name == n && fs[i].purity == Purity::Deterministic,
    decreases fs.len(),
{
    if fs.len() > 0 {
        lemma_pure_names(fs.drop_last(), n);
        let p = pure_names(fs.drop_last());
        if pure_names(fs).contains(n) {
            if fs.last().purity == Purity::Deterministic && fs.last().name == n {
                assert(fs[fs.len() - 1].name == n);
            } else {
                let m = choose|m: int| 0 <= m < pure_names(fs).len() && pure_names(fs)[m] == n;
                if fs.last().purity == Purity::Deterministic {
                    assert(p.push(fs.last().name)[m] == n);
                    assert(m < p.len());
                    assert(p[m] == n);
                } else {
                    assert(p[m] == n);
                }
                let i = choose|i: int|
                    0 <= i < fs.drop_last().len() && #[trigger] fs.drop_last()[i].name == n
                        && fs.drop_last()[i].purity == Purity::Deterministic;
                assert(fs[i] == fs.drop_last()[i]);
            }
        }
        if exists|i: int|
            0 <= i < fs.len() && #[trigger] fs[i].name == n && fs[i].purity == Purity::Deterministic {
            let i = choose|i: int|
                0 <= i < fs.len() && #[trigger] fs[i].name == n && fs[i].purity
                    == Purity::Deterministic;
            if i == fs.len() - 1 {
                assert(pure_names(fs)[p.len() as int] == n);
            } else {
                assert(fs.drop_last()[i] == fs[i]);
                let m = choose|m: int| 0 <= m < p.len() && p[m] == n;
                if fs.last().purity == Purity::Deterministic {
                    assert(pure_names(fs)[m] == n);
                } else {
                    assert(pure_names(fs)[m] == n);
                }
            }
        }
    }
}

/// Deterministic functions are written as plain Rust functions; a
/// nondeterministic one is written `async`, unless a deterministic function
/// of the same name shares its name.
pub proof fn law_purity_decides_async(c: GenCtx, next: usize, fs: Seq<SpecFunctionDef>, i: int)
    requires
        0 <= i < fs.len(),
    ensures
        fs[i].purity == Purity::Deterministic ==> function_text(program_ctx(c, fs), next, fs[i]).0.take(3)
            == "fn "@,
        (forall|j: int|
            0 <= j < fs.len() && #[trigger] fs[j].name == fs[i].name ==> fs[j].purity
                == Purity::Nondeterministic) ==> function_text(program_ctx(c, fs), next, fs[i]).0.take(
            6,
        ) == "async "@,
{
    reveal_strlit("fn ");
    reveal_strlit("async ");
    lemma_pure_names(fs, fs[i].name);
    let t = function_text(program_ctx(c, fs), next, fs[i]).0;
    if fs[i].purity == Purity::Deterministic {
        assert(t.take(3) =~= "fn "@);
    }
    if forall|j: int|
        0 <= j < fs.len() && #[trigger] fs[j].name == fs[i].name ==> fs[j].purity
            == Purity::Nondeterministic {
        assert(!pure_names(fs).contains(fs[i].name));
        assert(t.take(6) =~= "async "@);
    }
}


/// Inside a `scope` block, a spawned task is pushed onto the block's handles.
pub proof fn law_spawn_in_scope_is_collected(pure: Seq<Seq<char>>, x: SpecExpr)
    ensures
        expr_text(pure, true, SpecExpr::Spawn(Box::new(x))) == "_zet_handles.push(tokio::spawn(async move { "@
            + expr_text(pure, true, x) + " }))"@,
{
}

/// A `scope` block is written with its body inside the scope, followed by a
/// loop that awaits every handle before the block is left.
pub proof fn law_scope_awaits_its_tasks(c: GenCtx, next: usize, name: Seq<char>, body: SpecBlock)
    ensures
        ({
            let inner = GenCtx { indent: wrap_inc(c.indent), in_scope: true, ..c };
            let tail = ind(wrap_inc(c.indent)) + "for _h in _zet_handles { _h.await.ok(); }\n"@ + ind(
                c.indent,
            ) + "}\n"@;
            let t = stmt_text(c, next, SpecStatement::ScopeBlock { name, body }).0;
            &&& t.len() >= tail.len()
            &&& t.subrange(t.len() - tail.len(), t.len() as int) == tail
            &&& t.subrange(0, t.len() - tail.len()) == ind(c.indent) + "// Scope: "@ + name + "\n"@
                + ind(c.indent) + "{\n"@ + ind(wrap_inc(c.indent))
                + "let mut _zet_handles: Vec<tokio::task::JoinHandle<()>> = Vec::new();\n"@
                + block_text(inner, next, body).0
        }),
{
    let inner = GenCtx { indent: wrap_inc(c.indent), in_scope: true, ..c };
    let tail = ind(wrap_inc(c.indent)) + "for _h in _zet_handles { _h.await.ok(); }\n"@ + ind(c.indent)
        + "}\n"@;
    let head = ind(c.indent) + "// Scope: "@ + name + "\n"@ + ind(c.indent) + "{\n"@ + ind(
        wrap_inc(c.indent),
    ) + "let mut _zet_handles: Vec<tokio::task::JoinHandle<()>> = Vec::new();\n"@ + block_text(
        inner,
        next,
        body,
    ).0;
    let t = stmt_text(c, next, SpecStatement::ScopeBlock { name, body }).0;
    assert(t =~= head + tail);
    assert(t.subrange(t.len() - tail.len(), t.len() as int) =~= tail);
    assert(t.subrange(0, t.len() - tail.len()) =~= head);
}

// ───────────────────────── validation at run time ─────────────────────────

proof fn lemma_trim_stops(s: Seq<char>, p: int)
    requires
        0 <= p <= s.len(),
    ensures
        p <= trim(s, p) <= s.len(),
        trim(s, p) < s.len() ==> !is_unicode_space(s[trim(s, p)]),
        forall|j: int| p <= j < trim(s, p) ==> is_unicode_space(#[trigger] s[j]),
    decreases s.len() - p,
{
    if p < s.len() && is_unicode_space(s[p]) {
        lemma_trim_stops(s, p + 1);
    }
}

proof fn lemma_trim_back_stops(s: Seq<char>, j: int)
    requires
        0 <= j <= s.len(),
    ensures
        0 <= trim_back(s, j) <= j,
        trim_back(s, j) > 0 ==> !is_unicode_space(s[trim_back(s, j) - 1]),
        forall|k: int| trim_back(s, j) <= k < j ==> is_unicode_space(#[trigger] s[k]),
    decreases j,
{
    if 0 < j && is_unicode_space(s[j - 1]) {
        lemma_trim_back_stops(s, j - 1);
    }
}

/// Validated text neither starts nor ends with white space.
pub proof fn law_validated_text_is_trimmed(s: Seq<char>)
    ensures
        trimmed(s).len() > 0 ==> !is_unicode_space(trimmed(s)[0]) && !is_unicode_space(
            trimmed(s)[trimmed(s).len() - 1],
        ),
{
    lemma_trim_stops(s, 0);
    lemma_trim_back_stops(s, s.len() as int);
}

/// Validating twice gives what validating once gives: trimming is idempotent.
pub proof fn law_trim_idempotent(s: Seq<char>)
    ensures
        trimmed(trimmed(s)) == trimmed(s),
{
    let t = trimmed(s);
    law_validated_text_is_trimmed(s);
    lemma_trim_stops(t, 0);
    lemma_trim_back_stops(t, t.len() as int);
    if t.len() > 0 {
        assert(trim(t, 0) == 0);
        assert(trim_back(t, t.len() as int) == t.len());
        assert(t.subrange(0, t.len() as int) =~= t);
    } else {
        assert(trimmed(t) =~= t);
    }
}

// ───────────────────────── loop labels ─────────────────────────

/// The number of `for` loops in a statement, nested ones included.
pub open spec fn for_count(s: SpecStatement) -> nat
    decreases s, 0nat,
{
    match s {
        SpecStatement::For { body, .. } => 1 + for_count_stmts(body.statements),
        SpecStatement::If { then_block, else_block, .. } => for_count_stmts(then_block.statements)
            + match else_block {
            Some(b) => for_count_stmts(b.statements),
            None => 0,
        },
        SpecStatement::While { body, .. } => for_count_stmts(body.statements),
        SpecStatement::ScopeBlock { body, .. } => for_count_stmts(body.statements),
        SpecStatement::ValidateBlock { on_fail, success_scope, .. } => for_count_stmts(
            success_scope.statements,
        ) + for_count_stmts(on_fail.statements),
        SpecStatement::Match { arms, .. } => for_count_arms(arms),
        _ => 0,
    }
}

pub open spec fn for_count_stmts(s: Seq<SpecStatement>) -> nat
    decreases s, 1nat,
{
    if s.len() == 0 {
        0
    } else {
        for_count_stmts(s.drop_last()) + for_count(s.last())
    }
}

pub open spec fn for_count_arms(s: Seq<SpecMatchArm>) -> nat
    decreases s, 1nat,
{
    if s.len() == 0 {
        0
    } else {
        for_count_arms(s.drop_last()) + for_count_stmts(s.last().body.statements)
    }
}

proof fn lemma_labels_stmt(c: GenCtx, next: usize, s: SpecStatement)
    requires
        next + for_count(s) <= usize::MAX,
    ensures
        stmt_text(c, next, s).1 == next + for_count(s),
    decreases s, 0nat,
{
    match s {
        SpecStatement::For { body, .. } => {
            let inner = GenCtx {
                indent: wrap_inc(wrap_inc(wrap_inc(c.indent))),
                in_for: true,
                labels: c.labels.push(next),
                ..c
            };
            lemma_labels_stmts(inner, wrap_inc(next), body.statements);
        },
        SpecStatement::If { then_block, else_block, .. } => {
            let d = GenCtx { indent: wrap_inc(c.indent), ..c };
            lemma_labels_stmts(d, next, then_block.statements);
            match else_block {
                Some(b) => {
                    let n1 = stmts_text(d, next, then_block.statements).1;
                    lemma_labels_stmts(d, n1, b.statements);
                },
                None => {},
            }
        },
        SpecStatement::While { body, .. } => {
            lemma_labels_stmts(
                GenCtx { indent: wrap_inc(c.indent), in_for: false, ..c },
                next,
                body.statements,
            );
        },
        SpecStatement::ScopeBlock { body, .. } => {
            lemma_labels_stmts(
                GenCtx { indent: wrap_inc(c.indent), in_scope: true, ..c },
                next,
                body.statements,
            );
        },
        SpecStatement::ValidateBlock { on_fail, success_scope, .. } => {
            let d = GenCtx { indent: wrap_inc(wrap_inc(c.indent)), ..c };
            lemma_labels_stmts(d, next, success_scope.statements);
            let n1 = stmts_text(d, next, success_scope.statements).1;
            lemma_labels_stmts(d, n1, on_fail.statements);
        },
        SpecStatement::Match { arms, .. } => lemma_labels_arms(c, next, arms),
        _ => {},
    }
}

proof fn lemma_labels_stmts(c: GenCtx, next: usize, s: Seq<SpecStatement>)
    requires
        next + for_count_stmts(s) <= usize::MAX,
    ensures
        stmts_text(c, next, s).1 == next + for_count_stmts(s),
    decreases s, 1nat,
{
    if s.len() > 0 {
        lemma_labels_stmts(c, next, s.drop_last());
        let n0 = stmts_text(c, next, s.drop_last()).1;
        lemma_labels_stmt(c, n0, s.last());
    }
}

proof fn lemma_labels_arms(c: GenCtx, next: usize, s: Seq<SpecMatchArm>)
    requires
        next + for_count_arms(s) <= usize::MAX,
    ensures
        arms_text(c, next, s).1 == next + for_count_arms(s),
    decreases s, 1nat,
{
    if s.len() > 0 {
        lemma_labels_arms(c, next, s.drop_last());
        let n0 = arms_text(c, next, s.drop_last()).1;
        let d = GenCtx { indent: wrap_inc(wrap_inc(c.indent)), ..c };
        assert(block_text(d, n0, s.last().body) == stmts_text(d, n0, s.last().body.statements));
        lemma_labels_stmts(d, n0, s.last().body.statements);
    }
}

/// Writing a statement advances the label counter by exactly the number of
/// `for` loops in it, nested ones included (as long as the counter does not
/// run past the largest `usize`).
pub proof fn law_for_labels_counted(c: GenCtx, next: usize, s: SpecStatement)
    requires
        next + for_count(s) <= usize::MAX,
    ensures
        stmt_text(c, next, s).1 == next + for_count(s),
{
    lemma_labels_stmt(c, next, s);
}

// ───────────────────────── scope steps ─────────────────────────

/// The names that a statement brings into scope for the statements after
/// it: the name of a `let` or `const`, or the variable of a `for` loop.
pub open spec fn bound_names(s: SpecStatement) -> Seq<Seq<char>> {
    match s {
        SpecStatement::Let { name, .. } => seq![name],
        SpecStatement::Const { name, .. } => seq![name],
        SpecStatement::For { var, .. } => seq![var],
        _ => Seq::empty(),
    }
}

/// The variable of a `for` loop is defined inside the loop's body, and the
/// body stands in a loop: when the bounds and the step check under the names
/// defined before the loop, and the body checks under those names and the
/// variable, the loop passes and the variable stays defined after it.
pub proof fn law_for_variable_defined_in_body(
    defs: Seq<Seq<char>>,
    in_scope: bool,
    in_loop: bool,
    var: Seq<char>,
    start: SpecExpr,
    end: SpecExpr,
    step: Option<SpecExpr>,
    body: SpecBlock,
)
    requires
        scope_expr(defs, in_scope, start) is None,
        scope_expr(defs, in_scope, end) is None,
        step matches Some(x) ==> scope_expr(defs, in_scope, x) is None,
        scope_block(defs.push(var), in_scope, true, body) is None,
    ensures
        scope_stmt(defs, in_scope, in_loop, SpecStatement::For { var, start, end, step, body })
            == Ok::<Seq<Seq<char>>, Seq<char>>(defs.push(var)),
{
}

/// A `for` loop whose body reads its own variable (and whose bounds read
/// only defined names) passes the scope check, wherever it stands.
pub proof fn law_for_body_reads_its_variable(
    defs: Seq<Seq<char>>,
    in_scope: bool,
    in_loop: bool,
    var: Seq<char>,
    start: Seq<char>,
    end: Seq<char>,
)
    requires
        defs.contains(start),
        defs.contains(end),
    ensures
        scope_stmt(
            defs,
            in_scope,
            in_loop,
            SpecStatement::For {
                var,
                start: SpecExpr::Identifier(start),
                end: SpecExpr::Identifier(end),
                step: None,
                body: SpecBlock { statements: seq![SpecStatement::ExprStmt(SpecExpr::Identifier(var))] },
            },
        ) is Ok,
{
    let d = defs.push(var);
    let st = SpecStatement::ExprStmt(SpecExpr::Identifier(var));
    assert(d[defs.len() as int] == var);
    assert(d.contains(var));
    assert(seq![st].drop_last() =~= Seq::<SpecStatement>::empty());
    assert(seq![st].last() == st);
    assert(scope_stmt(d, in_scope, true, st) == Ok::<Seq<Seq<char>>, Seq<char>>(d));
    assert(scope_stmts(d, in_scope, true, Seq::<SpecStatement>::empty()) == Ok::<
        Seq<Seq<char>>,
        Seq<char>,
    >(d));
    assert(scope_stmts(d, in_scope, true, seq![st]) == Ok::<Seq<Seq<char>>, Seq<char>>(d));
}

/// A statement that passes the scope check adds to the names in scope only
/// its own binding: names bound inside its nested blocks do not leak out.
pub proof fn law_scope_step_adds_only_its_own_name(
    defs: Seq<Seq<char>>,
    in_scope: bool,
    in_loop: bool,
    s: SpecStatement,
)
    requires
        scope_stmt(defs, in_scope, in_loop, s) is Ok,
    ensures
        scope_stmt(defs, in_scope, in_loop, s) == Ok::<Seq<Seq<char>>, Seq<char>>(
            defs + bound_names(s),
        ),
{
    match s {
        SpecStatement::Let { name, .. } => assert(defs + seq![name] =~= defs.push(name)),
        SpecStatement::Const { name, .. } => assert(defs + seq![name] =~= defs.push(name)),
        SpecStatement::For { var, .. } => assert(defs + seq![var] =~= defs.push(var)),
        _ => assert(defs + Seq::<Seq<char>>::empty() =~= defs),
    }
}

} // verus!
