//! Determinism analysis.
//!
//! Rules: a `deterministic` function may not contain `spawn`, `await`, an
//! infrastructure call, a `scope` block, a call of a known I/O function of the
//! standard library, nor a call of a `nondeterministic` function; and the
//! `call` keyword may only be written before a nondeterministic call.
use vstd::prelude::*;
use crate::ast::{
    Block, Expr, FunctionDef, InterpolPart, Purity, SpecBlock, SpecExpr, SpecFunctionDef,
    SpecInterpolPart, SpecMatchArm, SpecStatement, Statement, lemma_view_arms, lemma_view_exprs,
    lemma_view_fields, lemma_view_parts, lemma_view_stmts, view_arms, view_block, view_expr,
    view_exprs, view_fields, view_function, view_functions, view_parts, view_pattern, view_stmt,
    view_stmts,
};
use crate::text::{push_str, str_eq, str_to_string};
use crate::analysis::first_err;

verus! {

/// The functions of a program, looked up by name. Where two functions share
/// a name, the later one is the one found.
pub struct SymbolTable {
    pub functions: Vec<FunctionDef>,
}

/// The function that a name refers to: the last one of that name.
pub open spec fn lookup(fs: Seq<SpecFunctionDef>, name: Seq<char>) -> Option<SpecFunctionDef>
    decreases fs.len(),
{
    if fs.len() == 0 {
        None
    } else if fs.last().name == name {
        Some(fs.last())
    } else {
        lookup(fs.drop_last(), name)
    }
}

impl SymbolTable {
    pub open spec fn spec_functions(&self) -> Seq<SpecFunctionDef> {
        view_functions(self.functions@)
    }

    pub fn new(functions: Vec<FunctionDef>) -> (r: Self)
        ensures
            r.functions@ == functions@,
    {
        SymbolTable { functions }
    }

    /// The function of the given name (the last one, where several share it).
    pub fn get(&self, name: &String) -> (r: Option<&FunctionDef>)
        ensures
            match r {
                Some(f) => lookup(self.spec_functions(), name@) == Some(view_function(*f)),
                None => lookup(self.spec_functions(), name@) is None,
            },
    {
        let ghost fs = self.spec_functions();
        let mut i = self.functions.len();
        proof {
            assert(fs.take(i as int) == fs);
        }
        while i > 0
            invariant
                i <= self.functions.len(),
                fs == self.spec_functions(),
                fs.len() == self.functions.len(),
                lookup(fs, name@) == lookup(fs.take(i as int), name@),
            decreases i,
        {
            proof {
                assert(fs.take(i as int).drop_last() == fs.take(i - 1));
                assert(fs.take(i as int).last() == view_function(self.functions@[i - 1]));
            }
            if self.functions[i - 1].name == *name {
                return Some(&self.functions[i - 1]);
            }
            i -= 1;
        }
        None
    }

    /// Whether the name refers to a function marked `nondeterministic`.
    pub fn is_nondet_function(&self, name: &String) -> (r: bool)
        ensures
            r == (lookup(self.spec_functions(), name@) matches Some(f) && f.purity
                == Purity::Nondeterministic),
    {
        match self.get(name) {
            Some(f) => match f.purity {
                Purity::Nondeterministic => true,
                Purity::Deterministic => false,
            },
            None => false,
        }
    }
}

/// The I/O functions of the standard library, the console reads `input` and
/// `inputln` among them.
pub open spec fn nondet_stdlib(name: Seq<char>) -> bool {
    ||| name == "DB.log"@
    ||| name == "Console.read"@
    ||| name == "HTTP.get"@
    ||| name == "Util.now"@
    ||| name == "Util.to_int"@
    ||| name == "input"@
    ||| name == "inputln"@
}

fn is_nondet_stdlib(name: &String) -> (r: bool)
    ensures
        r == nondet_stdlib(name@),
{
    let n = name.as_str();
    str_eq(n, "DB.log") || str_eq(n, "Console.read") || str_eq(n, "HTTP.get") || str_eq(n, "Util.now")
        || str_eq(n, "Util.to_int") || str_eq(n, "input") || str_eq(n, "inputln")
}

/// A call of this name does I/O: it is a standard I/O function or a
/// function marked `nondeterministic`.
pub open spec fn is_nondet_call(fs: Seq<SpecFunctionDef>, name: Seq<char>) -> bool {
    nondet_stdlib(name) || (lookup(fs, name) matches Some(f) && f.purity
        == Purity::Nondeterministic)
}

// ───────────────────────── purity ─────────────────────────

/// Whether an expression uses only CPU and memory.
pub open spec fn expr_pure(fs: Seq<SpecFunctionDef>, e: SpecExpr) -> bool
    decreases e, 0nat,
{
    match e {
        SpecExpr::Literal(_) | SpecExpr::Identifier(_) | SpecExpr::InlineRust(_) => true,
        SpecExpr::Binary(l, _, r) => expr_pure(fs, *l) && expr_pure(fs, *r),
        SpecExpr::Unary(_, x) => expr_pure(fs, *x),
        SpecExpr::Call(name, args, _) => !is_nondet_call(fs, name) && exprs_pure(fs, args),
        SpecExpr::JsonField(x, _) => expr_pure(fs, *x),
        SpecExpr::ArrayLiteral(xs) => exprs_pure(fs, xs),
        SpecExpr::Index(a, i) => expr_pure(fs, *a) && expr_pure(fs, *i),
        SpecExpr::TupleLiteral(xs) => exprs_pure(fs, xs),
        SpecExpr::TupleIndex(x, _) => expr_pure(fs, *x),
        SpecExpr::Interpolation(ps) => parts_pure(fs, ps),
        SpecExpr::MethodCall(o, _, args) => expr_pure(fs, *o) && exprs_pure(fs, args),
        SpecExpr::StructLiteral(_, flds) => fields_pure(fs, flds),
        SpecExpr::FieldAccess(o, _) => expr_pure(fs, *o),
        SpecExpr::Try(x) => expr_pure(fs, *x),
        SpecExpr::Catch(x, d) => expr_pure(fs, *x) && expr_pure(fs, *d),
        SpecExpr::Spawn(_) | SpecExpr::Await(_) | SpecExpr::Infra(_) => false,
    }
}

pub open spec fn exprs_pure(fs: Seq<SpecFunctionDef>, s: Seq<SpecExpr>) -> bool
    decreases s, 1nat,
{
    if s.len() == 0 {
        true
    } else {
        exprs_pure(fs, s.drop_last()) && expr_pure(fs, s.last())
    }
}

pub open spec fn parts_pure(fs: Seq<SpecFunctionDef>, s: Seq<SpecInterpolPart>) -> bool
    decreases s, 1nat,
{
    if s.len() == 0 {
        true
    } else {
        parts_pure(fs, s.drop_last()) && match s.last() {
            SpecInterpolPart::Expr(x) => expr_pure(fs, x),
            SpecInterpolPart::Lit(_) => true,
        }
    }
}

pub open spec fn fields_pure(fs: Seq<SpecFunctionDef>, s: Seq<(Seq<char>, SpecExpr)>) -> bool
    decreases s, 1nat,
{
    if s.len() == 0 {
        true
    } else {
        fields_pure(fs, s.drop_last()) && expr_pure(fs, s.last().1)
    }
}

/// Whether a statement uses only CPU and memory; a `scope` block never does.
pub open spec fn stmt_pure(fs: Seq<SpecFunctionDef>, s: SpecStatement) -> bool
    decreases s, 0nat,
{
    match s {
        SpecStatement::Let { value, .. } => expr_pure(fs, value),
        SpecStatement::Const { value, .. } => expr_pure(fs, value),
        SpecStatement::Assign { value, .. } => expr_pure(fs, value),
        SpecStatement::IndexAssign { index, value, .. } => expr_pure(fs, index) && expr_pure(
            fs,
            value,
        ),
        SpecStatement::Match { expr, arms } => expr_pure(fs, expr) && arms_pure(fs, arms),
        SpecStatement::If { condition, then_block, else_block } => expr_pure(fs, condition)
            && block_pure(fs, then_block) && match else_block {
            Some(b) => block_pure(fs, b),
            None => true,
        },
        SpecStatement::While { condition, body } => expr_pure(fs, condition) && block_pure(fs, body),
        SpecStatement::For { start, end, step, body, .. } => expr_pure(fs, start) && expr_pure(
            fs,
            end,
        ) && match step {
            Some(x) => expr_pure(fs, x),
            None => true,
        } && block_pure(fs, body),
        SpecStatement::ScopeBlock { .. } => false,
        SpecStatement::ValidateBlock { success_scope, on_fail, .. } => block_pure(fs, success_scope)
            && block_pure(fs, on_fail),
        SpecStatement::ExprStmt(x) => expr_pure(fs, x),
        SpecStatement::Return(Some(x)) => expr_pure(fs, x),
        SpecStatement::Return(None) => true,
        SpecStatement::Break | SpecStatement::Continue => true,
    }
}

pub open spec fn stmts_pure(fs: Seq<SpecFunctionDef>, s: Seq<SpecStatement>) -> bool
    decreases s, 1nat,
{
    if s.len() == 0 {
        true
    } else {
        stmts_pure(fs, s.drop_last()) && stmt_pure(fs, s.last())
    }
}

pub open spec fn block_pure(fs: Seq<SpecFunctionDef>, b: SpecBlock) -> bool
    decreases b, 0nat,
{
    stmts_pure(fs, b.statements)
}

pub open spec fn arms_pure(fs: Seq<SpecFunctionDef>, s: Seq<SpecMatchArm>) -> bool
    decreases s, 1nat,
{
    if s.len() == 0 {
        true
    } else {
        arms_pure(fs, s.drop_last()) && block_pure(fs, s.last().body)
    }
}

// ───────────────────────── the `call` keyword ─────────────────────────

pub open spec fn msg_not_pure(name: Seq<char>) -> Seq<char> {
    "'"@ + name + "' fonksiyonu `deterministic` olarak işaretlenmiş, ancak içinde I/O veya nondeterministic çağrı var!"@
}

pub open spec fn msg_call_on_pure(name: Seq<char>) -> Seq<char> {
    "`call "@ + name + "(...)` hatalı: '"@ + name
        + "' saf (deterministic) bir fonksiyon. `call` yalnızca I/O fonksiyonları için kullanılır."@
}

/// The first `call` written before a pure call in an expression, reported
/// as an error. Every subexpression is looked into, left to right.
pub open spec fn call_expr(fs: Seq<SpecFunctionDef>, e: SpecExpr) -> Option<Seq<char>>
    decreases e, 0nat,
{
    match e {
        SpecExpr::Call(name, args, awaited) => if awaited && !is_nondet_call(fs, name) {
            Some(msg_call_on_pure(name))
        } else {
            call_exprs(fs, args)
        },
        SpecExpr::Binary(l, _, r) => first_err(call_expr(fs, *l), call_expr(fs, *r)),
        SpecExpr::Unary(_, x) => call_expr(fs, *x),
        SpecExpr::Spawn(x) => call_expr(fs, *x),
        SpecExpr::Await(x) => call_expr(fs, *x),
        SpecExpr::Infra(c) => call_exprs(fs, c.args),
        SpecExpr::JsonField(x, _) => call_expr(fs, *x),
        SpecExpr::ArrayLiteral(xs) => call_exprs(fs, xs),
        SpecExpr::Index(a, i) => first_err(call_expr(fs, *a), call_expr(fs, *i)),
        SpecExpr::TupleLiteral(xs) => call_exprs(fs, xs),
        SpecExpr::TupleIndex(x, _) => call_expr(fs, *x),
        SpecExpr::Interpolation(ps) => call_parts(fs, ps),
        SpecExpr::MethodCall(o, _, args) => first_err(call_expr(fs, *o), call_exprs(fs, args)),
        SpecExpr::StructLiteral(_, flds) => call_fields(fs, flds),
        SpecExpr::FieldAccess(o, _) => call_expr(fs, *o),
        SpecExpr::Try(x) => call_expr(fs, *x),
        SpecExpr::Catch(x, d) => first_err(call_expr(fs, *x), call_expr(fs, *d)),
        SpecExpr::Identifier(_) | SpecExpr::Literal(_) | SpecExpr::InlineRust(_) => None,
    }
}

pub open spec fn call_parts(fs: Seq<SpecFunctionDef>, s: Seq<SpecInterpolPart>) -> Option<
    Seq<char>,
>
    decreases s, 1nat,
{
    if s.len() == 0 {
        None
    } else {
        first_err(
            call_parts(fs, s.drop_last()),
            match s.last() {
                SpecInterpolPart::Expr(x) => call_expr(fs, x),
                SpecInterpolPart::Lit(_) => None,
            },
        )
    }
}

pub open spec fn call_fields(fs: Seq<SpecFunctionDef>, s: Seq<(Seq<char>, SpecExpr)>) -> Option<
    Seq<char>,
>
    decreases s, 1nat,
{
    if s.len() == 0 {
        None
    } else {
        first_err(call_fields(fs, s.drop_last()), call_expr(fs, s.last().1))
    }
}

pub open spec fn call_exprs(fs: Seq<SpecFunctionDef>, s: Seq<SpecExpr>) -> Option<Seq<char>>
    decreases s, 1nat,
{
    if s.len() == 0 {
        None
    } else {
        first_err(call_exprs(fs, s.drop_last()), call_expr(fs, s.last()))
    }
}

pub open spec fn call_opt(fs: Seq<SpecFunctionDef>, e: Option<SpecExpr>) -> Option<Seq<char>> {
    match e {
        Some(x) => call_expr(fs, x),
        None => None,
    }
}

pub open spec fn call_stmt(fs: Seq<SpecFunctionDef>, s: SpecStatement) -> Option<Seq<char>>
    decreases s, 0nat,
{
    match s {
        SpecStatement::Let { value, .. } => call_expr(fs, value),
        SpecStatement::Const { value, .. } => call_expr(fs, value),
        SpecStatement::Assign { value, .. } => call_expr(fs, value),
        SpecStatement::IndexAssign { index, value, .. } => first_err(
            call_expr(fs, index),
            call_expr(fs, value),
        ),
        SpecStatement::Match { expr, arms } => first_err(call_expr(fs, expr), call_arms(fs, arms)),
        SpecStatement::If { condition, then_block, else_block } => first_err(
            call_expr(fs, condition),
            first_err(
                call_block(fs, then_block),
                match else_block {
                    Some(b) => call_block(fs, b),
                    None => None,
                },
            ),
        ),
        SpecStatement::While { condition, body } => first_err(
            call_expr(fs, condition),
            call_block(fs, body),
        ),
        SpecStatement::For { start, end, step, body, .. } => first_err(
            call_expr(fs, start),
            first_err(call_expr(fs, end), first_err(call_opt(fs, step), call_block(fs, body))),
        ),
        SpecStatement::ScopeBlock { body, .. } => call_block(fs, body),
        SpecStatement::ValidateBlock { success_scope, on_fail, .. } => first_err(
            call_block(fs, success_scope),
            call_block(fs, on_fail),
        ),
        SpecStatement::ExprStmt(x) => call_expr(fs, x),
        SpecStatement::Return(x) => call_opt(fs, x),
        SpecStatement::Break | SpecStatement::Continue => None,
    }
}

pub open spec fn call_stmts(fs: Seq<SpecFunctionDef>, s: Seq<SpecStatement>) -> Option<Seq<char>>
    decreases s, 1nat,
{
    if s.len() == 0 {
        None
    } else {
        first_err(call_stmts(fs, s.drop_last()), call_stmt(fs, s.last()))
    }
}

pub open spec fn call_block(fs: Seq<SpecFunctionDef>, b: SpecBlock) -> Option<Seq<char>>
    decreases b, 0nat,
{
    call_stmts(fs, b.statements)
}

pub open spec fn call_arms(fs: Seq<SpecFunctionDef>, s: Seq<SpecMatchArm>) -> Option<Seq<char>>
    decreases s, 1nat,
{
    if s.len() == 0 {
        None
    } else {
        first_err(call_arms(fs, s.drop_last()), call_block(fs, s.last().body))
    }
}

/// The error that the determinism analysis reports for a function, if any:
/// first purity (for a `deterministic` function), then the `call` keyword.
pub open spec fn determinism_function(fs: Seq<SpecFunctionDef>, f: SpecFunctionDef) -> Option<
    Seq<char>,
> {
    if f.purity == Purity::Deterministic && !block_pure(fs, f.body) {
        Some(msg_not_pure(f.name))
    } else {
        call_block(fs, f.body)
    }
}

// ───────────────────────── analyzer ─────────────────────────

pub struct DeterminismAnalyzer;

impl DeterminismAnalyzer {
    /// Checks one function against the program's symbols. It succeeds
    /// exactly when `determinism_function` finds no error, and otherwise
    /// returns the error that it finds.
    pub fn check(func: &FunctionDef, symbols: &SymbolTable) -> (r: Result<(), String>)
        ensures
            match r {
                Ok(_) => determinism_function(symbols.spec_functions(), view_function(*func)) is None,
                Err(m) => determinism_function(symbols.spec_functions(), view_function(*func))
                    == Some(m@),
            },
    {
        if let Purity::Deterministic = func.purity {
            if !Self::is_block_pure(&func.body, symbols) {
                let mut s = str_to_string("'");
                push_str(&mut s, func.name.as_str());
                push_str(
                    &mut s,
                    "' fonksiyonu `deterministic` olarak işaretlenmiş, ancak içinde I/O veya nondeterministic çağrı var!",
                );
                return Err(s);
            }
        }
        Self::check_call_keyword(&func.body, symbols)
    }

    fn is_block_pure(block: &Block, symbols: &SymbolTable) -> (r: bool)
        ensures
            r == block_pure(symbols.spec_functions(), view_block(*block)),
        decreases block, 0nat,
    {
        let ghost fs = symbols.spec_functions();
        let ghost ss = view_stmts(block.statements@);
        proof {
            lemma_view_stmts(block.statements@);
        }
        let mut i: usize = 0;
        while i < block.statements.len()
            invariant
                i <= block.statements.len(),
                fs == symbols.spec_functions(),
                ss == view_stmts(block.statements@),
                ss.len() == block.statements.len(),
                forall|j: int| 0 <= j < ss.len() ==> #[trigger] ss[j] == view_stmt(block.statements@[j]),
                stmts_pure(fs, ss.take(i as int)),
            decreases block.statements.len() - i,
        {
            proof {
                assert(decreases_to!(*block => block.statements));
                assert(decreases_to!(block.statements => block.statements[i as int]));
                assert(ss.take(i + 1).drop_last() == ss.take(i as int));
                assert(ss.take(i + 1).last() == ss[i as int]);
            }
            if !Self::is_stmt_pure(&block.statements[i], symbols) {
                proof {
                    lemma_stmts_pure_prefix(fs, ss, i as int + 1);
                }
                return false;
            }
            i += 1;
        }
        proof {
            assert(ss.take(i as int) == ss);
        }
        true
    }

    fn is_stmt_pure(stmt: &Statement, symbols: &SymbolTable) -> (r: bool)
        ensures
            r == stmt_pure(symbols.spec_functions(), view_stmt(*stmt)),
        decreases stmt, 0nat,
    {
        match stmt {
            Statement::Let(l) => Self::is_expr_pure(&l.value, symbols),
            Statement::Const { value, .. } => Self::is_expr_pure(value, symbols),
            Statement::Assign { value, .. } => Self::is_expr_pure(value, symbols),
            Statement::IndexAssign { index, value, .. } => Self::is_expr_pure(index, symbols)
                && Self::is_expr_pure(value, symbols),
            Statement::Match { expr, arms } => {
                if !Self::is_expr_pure(expr, symbols) {
                    return false;
                }
                let ghost fs = symbols.spec_functions();
                let ghost va = view_arms(arms@);
                proof {
                    lemma_view_arms(arms@);
                }
                let mut i: usize = 0;
                while i < arms.len()
                    invariant
                        i <= arms.len(),
                        fs == symbols.spec_functions(),
                        va == view_arms(arms@),
                        va.len() == arms.len(),
                        forall|j: int|
                            0 <= j < va.len() ==> #[trigger] va[j] == (SpecMatchArm {
                                pattern: view_pattern(arms@[j].pattern),
                                body: view_block(arms@[j].body),
                            }),
                        *stmt == (Statement::Match { expr: *expr, arms: *arms }),
                        arms_pure(fs, va.take(i as int)),
                    decreases arms.len() - i,
                {
                    proof {
                        assert(decreases_to!(*stmt => (*stmt)->Match_arms));
                        assert(decreases_to!((*stmt)->Match_arms => (*stmt)->Match_arms[i as int]));
                        assert(decreases_to!((*stmt)->Match_arms[i as int] => (*stmt)->Match_arms[i as int].body));
                        assert(va.take(i + 1).drop_last() == va.take(i as int));
                        assert(va.take(i + 1).last() == va[i as int]);
                    }
                    if !Self::is_block_pure(&arms[i].body, symbols) {
                        proof {
                            lemma_arms_pure_prefix(fs, va, i as int + 1);
                        }
                        return false;
                    }
                    i += 1;
                }
                proof {
                    assert(va.take(i as int) == va);
                }
                true
            },
            Statement::If { condition, then_block, else_block } => {
                Self::is_expr_pure(condition, symbols) && Self::is_block_pure(then_block, symbols)
                    && match else_block {
                    Some(b) => Self::is_block_pure(b, symbols),
                    None => true,
                }
            },
            Statement::While { condition, body } => Self::is_expr_pure(condition, symbols)
                && Self::is_block_pure(body, symbols),
            Statement::For { start, end, step, body, .. } => {
                Self::is_expr_pure(start, symbols) && Self::is_expr_pure(end, symbols) && match step {
                    Some(s) => Self::is_expr_pure(s, symbols),
                    None => true,
                } && Self::is_block_pure(body, symbols)
            },
            Statement::ScopeBlock { .. } => false,
            Statement::ValidateBlock { success_scope, on_fail, .. } => {
                Self::is_block_pure(success_scope, symbols) && Self::is_block_pure(on_fail, symbols)
            },
            Statement::ExprStmt(e) => Self::is_expr_pure(e, symbols),
            Statement::Return(Some(e)) => Self::is_expr_pure(e, symbols),
            Statement::Return(None) => true,
            Statement::Break | Statement::Continue => true,
        }
    }

    fn are_exprs_pure(xs: &Vec<Expr>, symbols: &SymbolTable) -> (r: bool)
        ensures
            r == exprs_pure(symbols.spec_functions(), view_exprs(xs@)),
        decreases xs, 0nat,
    {
        let ghost fs = symbols.spec_functions();
        let ghost vs = view_exprs(xs@);
        proof {
            lemma_view_exprs(xs@);
        }
        let mut i: usize = 0;
        while i < xs.len()
            invariant
                i <= xs.len(),
                fs == symbols.spec_functions(),
                vs == view_exprs(xs@),
                vs.len() == xs.len(),
                forall|j: int| 0 <= j < vs.len() ==> #[trigger] vs[j] == view_expr(xs@[j]),
                exprs_pure(fs, vs.take(i as int)),
            decreases xs.len() - i,
        {
            proof {
                assert(decreases_to!(*xs => xs[i as int]));
                assert(vs.take(i + 1).drop_last() == vs.take(i as int));
                assert(vs.take(i + 1).last() == vs[i as int]);
            }
            if !Self::is_expr_pure(&xs[i], symbols) {
                proof {
                    lemma_exprs_pure_prefix(fs, vs, i as int + 1);
                }
                return false;
            }
            i += 1;
        }
        proof {
            assert(vs.take(i as int) == vs);
        }
        true
    }

    fn is_expr_pure(expr: &Expr, symbols: &SymbolTable) -> (r: bool)
        ensures
            r == expr_pure(symbols.spec_functions(), view_expr(*expr)),
        decreases expr, 0nat,
    {
        match expr {
            Expr::Literal(_) | Expr::Identifier(_) | Expr::InlineRust(_) => true,
            Expr::Binary(l, _, r) => Self::is_expr_pure(l, symbols) && Self::is_expr_pure(r, symbols),
            Expr::Unary(_, x) => Self::is_expr_pure(x, symbols),
            Expr::Call(name, args, _) => {
                if is_nondet_stdlib(name) {
                    return false;
                }
                if symbols.is_nondet_function(name) {
                    return false;
                }
                Self::are_exprs_pure(args, symbols)
            },
            Expr::JsonField(source, _) => Self::is_expr_pure(source, symbols),
            Expr::ArrayLiteral(elems) => Self::are_exprs_pure(elems, symbols),
            Expr::Index(arr, idx) => Self::is_expr_pure(arr, symbols) && Self::is_expr_pure(idx, symbols),
            Expr::TupleLiteral(elems) => Self::are_exprs_pure(elems, symbols),
            Expr::TupleIndex(x, _) => Self::is_expr_pure(x, symbols),
            Expr::Interpolation(parts) => {
                let ghost fs = symbols.spec_functions();
                let ghost vp = view_parts(parts@);
                proof {
                    lemma_view_parts(parts@);
                }
                let mut i: usize = 0;
                while i < parts.len()
                    invariant
                        i <= parts.len(),
                        fs == symbols.spec_functions(),
                        vp == view_parts(parts@),
                        vp.len() == parts.len(),
                        forall|j: int|
                            0 <= j < vp.len() ==> #[trigger] vp[j] == (match parts@[j] {
                                InterpolPart::Lit(t) => SpecInterpolPart::Lit(t@),
                                InterpolPart::Expr(x) => SpecInterpolPart::Expr(view_expr(x)),
                            }),
                        *expr == Expr::Interpolation(*parts),
                        parts_pure(fs, vp.take(i as int)),
                    decreases parts.len() - i,
                {
                    proof {
                        assert(vp.take(i + 1).drop_last() == vp.take(i as int));
                        assert(vp.take(i + 1).last() == vp[i as int]);
                    }
                    if let InterpolPart::Expr(e) = &parts[i] {
                        proof {
                            assert(decreases_to!(*expr => (*expr)->Interpolation_0));
                            assert(decreases_to!((*expr)->Interpolation_0 => (*expr)->Interpolation_0[i as int]));
                            assert(decreases_to!((*expr)->Interpolation_0[i as int] => (*expr)->Interpolation_0[i as int]->Expr_0));
                        }
                        if !Self::is_expr_pure(e, symbols) {
                            proof {
                                lemma_parts_pure_prefix(fs, vp, i as int + 1);
                            }
                            return false;
                        }
                    }
                    i += 1;
                }
                proof {
                    assert(vp.take(i as int) == vp);
                }
                true
            },
            Expr::MethodCall(o, _, args) => Self::is_expr_pure(o, symbols) && Self::are_exprs_pure(
                args,
                symbols,
            ),
            Expr::StructLiteral(_, fields) => {
                let ghost fs = symbols.spec_functions();
                let ghost vf = view_fields(fields@);
                proof {
                    lemma_view_fields(fields@);
                }
                let mut i: usize = 0;
                while i < fields.len()
                    invariant
                        i <= fields.len(),
                        fs == symbols.spec_functions(),
                        vf == view_fields(fields@),
                        vf.len() == fields.len(),
                        forall|j: int|
                            0 <= j < vf.len() ==> (#[trigger] vf[j]) == (
                                fields@[j].0@,
                                view_expr(fields@[j].1),
                            ),
                        *expr == Expr::StructLiteral(expr->StructLiteral_0, *fields),
                        fields_pure(fs, vf.take(i as int)),
                    decreases fields.len() - i,
                {
                    proof {
                        assert(decreases_to!(*expr => (*expr)->StructLiteral_1));
                        assert(decreases_to!((*expr)->StructLiteral_1 => (*expr)->StructLiteral_1[i as int]));
                        assert(decreases_to!((*expr)->StructLiteral_1[i as int] => (*expr)->StructLiteral_1[i as int].1));
                        assert(vf.take(i + 1).drop_last() == vf.take(i as int));
                        assert(vf.take(i + 1).last() == vf[i as int]);
                    }
                    if !Self::is_expr_pure(&fields[i].1, symbols) {
                        proof {
                            lemma_fields_pure_prefix(fs, vf, i as int + 1);
                        }
                        return false;
                    }
                    i += 1;
                }
                proof {
                    assert(vf.take(i as int) == vf);
                }
                true
            },
            Expr::FieldAccess(o, _) => Self::is_expr_pure(o, symbols),
            Expr::Try(x) => Self::is_expr_pure(x, symbols),
            Expr::Catch(x, d) => Self::is_expr_pure(x, symbols) && Self::is_expr_pure(d, symbols),
            Expr::Spawn(_) | Expr::Await(_) | Expr::Infra(_) => false,
        }
    }

    fn check_call_keyword(block: &Block, symbols: &SymbolTable) -> (r: Result<(), String>)
        ensures
            match r {
                Ok(_) => call_block(symbols.spec_functions(), view_block(*block)) is None,
                Err(m) => call_block(symbols.spec_functions(), view_block(*block)) == Some(m@),
            },
        decreases block, 0nat,
    {
        let ghost fs = symbols.spec_functions();
        let ghost ss = view_stmts(block.statements@);
        proof {
            lemma_view_stmts(block.statements@);
        }
        let mut i: usize = 0;
        while i < block.statements.len()
            invariant
                i <= block.statements.len(),
                fs == symbols.spec_functions(),
                ss == view_stmts(block.statements@),
                ss.len() == block.statements.len(),
                forall|j: int| 0 <= j < ss.len() ==> #[trigger] ss[j] == view_stmt(block.statements@[j]),
                call_stmts(fs, ss.take(i as int)) is None,
            decreases block.statements.len() - i,
        {
            proof {
                assert(decreases_to!(*block => block.statements));
                assert(decreases_to!(block.statements => block.statements[i as int]));
                assert(ss.take(i + 1).drop_last() == ss.take(i as int));
                assert(ss.take(i + 1).last() == ss[i as int]);
            }
            let res = Self::check_call_in_stmt(&block.statements[i], symbols);
            match res {
                Err(m) => {
                    proof {
                        lemma_call_stmts_err_prefix(fs, ss, i as int + 1);
                    }
                    return Err(m);
                },
                Ok(_) => {},
            }
            i += 1;
        }
        proof {
            assert(ss.take(i as int) == ss);
        }
        Ok(())
    }

    fn check_call_in_stmt(stmt: &Statement, symbols: &SymbolTable) -> (r: Result<(), String>)
        ensures
            match r {
                Ok(_) => call_stmt(symbols.spec_functions(), view_stmt(*stmt)) is None,
                Err(m) => call_stmt(symbols.spec_functions(), view_stmt(*stmt)) == Some(m@),
            },
        decreases stmt, 0nat,
    {
        match stmt {
            Statement::Let(l) => Self::check_call_in_expr(&l.value, symbols),
            Statement::Const { value, .. } => Self::check_call_in_expr(value, symbols),
            Statement::Assign { value, .. } => Self::check_call_in_expr(value, symbols),
            Statement::IndexAssign { index, value, .. } => {
                Self::check_call_in_expr(index, symbols)?;
                Self::check_call_in_expr(value, symbols)
            },
            Statement::Match { expr, arms } => {
                Self::check_call_in_expr(expr, symbols)?;
                let ghost fs = symbols.spec_functions();
                let ghost va = view_arms(arms@);
                proof {
                    lemma_view_arms(arms@);
                }
                let mut i: usize = 0;
                while i < arms.len()
                    invariant
                        i <= arms.len(),
                        fs == symbols.spec_functions(),
                        va == view_arms(arms@),
                        va.len() == arms.len(),
                        forall|j: int|
                            0 <= j < va.len() ==> #[trigger] va[j] == (SpecMatchArm {
                                pattern: view_pattern(arms@[j].pattern),
                                body: view_block(arms@[j].body),
                            }),
                        *stmt == (Statement::Match { expr: *expr, arms: *arms }),
                        call_expr(fs, view_expr(*expr)) is None,
                        call_arms(fs, va.take(i as int)) is None,
                    decreases arms.len() - i,
                {
                    proof {
                        assert(decreases_to!(*stmt => (*stmt)->Match_arms));
                        assert(decreases_to!((*stmt)->Match_arms => (*stmt)->Match_arms[i as int]));
                        assert(decreases_to!((*stmt)->Match_arms[i as int] => (*stmt)->Match_arms[i as int].body));
                        assert(va.take(i + 1).drop_last() == va.take(i as int));
                        assert(va.take(i + 1).last() == va[i as int]);
                    }
                    let res = Self::check_call_keyword(&arms[i].body, symbols);
                    match res {
                        Err(m) => {
                            proof {
                                lemma_call_arms_err_prefix(fs, va, i as int + 1);
                            }
                            return Err(m);
                        },
                        Ok(_) => {},
                    }
                    i += 1;
                }
                proof {
                    assert(va.take(i as int) == va);
                }
                Ok(())
            },
            Statement::If { condition, then_block, else_block } => {
                Self::check_call_in_expr(condition, symbols)?;
                Self::check_call_keyword(then_block, symbols)?;
                if let Some(b) = else_block {
                    Self::check_call_keyword(b, symbols)?;
                }
                Ok(())
            },
            Statement::While { condition, body } => {
                Self::check_call_in_expr(condition, symbols)?;
                Self::check_call_keyword(body, symbols)
            },
            Statement::For { start, end, step, body, .. } => {
                Self::check_call_in_expr(start, symbols)?;
                Self::check_call_in_expr(end, symbols)?;
                if let Some(s) = step {
                    Self::check_call_in_expr(s, symbols)?;
                }
                Self::check_call_keyword(body, symbols)
            },
            Statement::ScopeBlock { body, .. } => Self::check_call_keyword(body, symbols),
            Statement::ValidateBlock { success_scope, on_fail, .. } => {
                Self::check_call_keyword(success_scope, symbols)?;
                Self::check_call_keyword(on_fail, symbols)
            },
            Statement::ExprStmt(e) => Self::check_call_in_expr(e, symbols),
            Statement::Return(Some(e)) => Self::check_call_in_expr(e, symbols),
            Statement::Return(None) => Ok(()),
            Statement::Break | Statement::Continue => Ok(()),
        }
    }

    fn check_call_in_exprs(xs: &Vec<Expr>, symbols: &SymbolTable) -> (r: Result<(), String>)
        ensures
            match r {
                Ok(_) => call_exprs(symbols.spec_functions(), view_exprs(xs@)) is None,
                Err(m) => call_exprs(symbols.spec_functions(), view_exprs(xs@)) == Some(m@),
            },
        decreases xs, 0nat,
    {
        let ghost fs = symbols.spec_functions();
        let ghost vs = view_exprs(xs@);
        proof {
            lemma_view_exprs(xs@);
        }
        let mut i: usize = 0;
        while i < xs.len()
            invariant
                i <= xs.len(),
                fs == symbols.spec_functions(),
                vs == view_exprs(xs@),
                vs.len() == xs.len(),
                forall|j: int| 0 <= j < vs.len() ==> #[trigger] vs[j] == view_expr(xs@[j]),
                call_exprs(fs, vs.take(i as int)) is None,
            decreases xs.len() - i,
        {
            proof {
                assert(decreases_to!(*xs => xs[i as int]));
                assert(vs.take(i + 1).drop_last() == vs.take(i as int));
                assert(vs.take(i + 1).last() == vs[i as int]);
            }
            let res = Self::check_call_in_expr(&xs[i], symbols);
            match res {
                Err(m) => {
                    proof {
                        lemma_call_exprs_err_prefix(fs, vs, i as int + 1);
                    }
                    return Err(m);
                },
                Ok(_) => {},
            }
            i += 1;
        }
        proof {
            assert(vs.take(i as int) == vs);
        }
        Ok(())
    }

    fn check_call_in_expr(expr: &Expr, symbols: &SymbolTable) -> (r: Result<(), String>)
        ensures
            match r {
                Ok(_) => call_expr(symbols.spec_functions(), view_expr(*expr)) is None,
                Err(m) => call_expr(symbols.spec_functions(), view_expr(*expr)) == Some(m@),
            },
        decreases expr, 0nat,
    {
        match expr {
            Expr::Call(name, args, awaited) => {
                let is_nondet = is_nondet_stdlib(name) || symbols.is_nondet_function(name);
                if *awaited && !is_nondet {
                    let mut s = str_to_string("`call ");
                    push_str(&mut s, name.as_str());
                    push_str(&mut s, "(...)` hatalı: '");
                    push_str(&mut s, name.as_str());
                    push_str(
                        &mut s,
                        "' saf (deterministic) bir fonksiyon. `call` yalnızca I/O fonksiyonları için kullanılır.",
                    );
                    return Err(s);
                }
                Self::check_call_in_exprs(args, symbols)
            },
            Expr::Binary(l, _, r) => {
                Self::check_call_in_expr(l, symbols)?;
                Self::check_call_in_expr(r, symbols)
            },
            Expr::Spawn(inner) => Self::check_call_in_expr(inner, symbols),
            Expr::Await(inner) => Self::check_call_in_expr(inner, symbols),
            Expr::Infra(call) => Self::check_call_in_exprs(&call.args, symbols),
            Expr::JsonField(source, _) => Self::check_call_in_expr(source, symbols),
            Expr::ArrayLiteral(elems) => Self::check_call_in_exprs(elems, symbols),
            Expr::Index(arr, idx) => {
                Self::check_call_in_expr(arr, symbols)?;
                Self::check_call_in_expr(idx, symbols)
            },
            Expr::Unary(_, x) => Self::check_call_in_expr(x, symbols),
            Expr::TupleLiteral(elems) => Self::check_call_in_exprs(elems, symbols),
            Expr::TupleIndex(x, _) => Self::check_call_in_expr(x, symbols),
            Expr::Interpolation(parts) => {
                let ghost fs = symbols.spec_functions();
                let ghost vp = view_parts(parts@);
                proof {
                    lemma_view_parts(parts@);
                }
                let mut i: usize = 0;
                while i < parts.len()
                    invariant
                        i <= parts.len(),
                        fs == symbols.spec_functions(),
                        vp == view_parts(parts@),
                        vp.len() == parts.len(),
                        forall|j: int|
                            0 <= j < vp.len() ==> #[trigger] vp[j] == (match parts@[j] {
                                InterpolPart::Lit(t) => SpecInterpolPart::Lit(t@),
                                InterpolPart::Expr(x) => SpecInterpolPart::Expr(view_expr(x)),
                            }),
                        *expr == Expr::Interpolation(*parts),
                        call_parts(fs, vp.take(i as int)) is None,
                    decreases parts.len() - i,
                {
                    proof {
                        assert(vp.take(i + 1).drop_last() == vp.take(i as int));
                        assert(vp.take(i + 1).last() == vp[i as int]);
                    }
                    if let InterpolPart::Expr(e) = &parts[i] {
                        proof {
                            assert(decreases_to!(*expr => (*expr)->Interpolation_0));
                            assert(decreases_to!((*expr)->Interpolation_0 => (*expr)->Interpolation_0[i as int]));
                            assert(decreases_to!((*expr)->Interpolation_0[i as int] => (*expr)->Interpolation_0[i as int]->Expr_0));
                        }
                        match Self::check_call_in_expr(e, symbols) {
                            Err(m) => {
                                proof {
                                    lemma_call_parts_err_prefix(fs, vp, i as int + 1);
                                }
                                return Err(m);
                            },
                            Ok(_) => {},
                        }
                    }
                    i += 1;
                }
                proof {
                    assert(vp.take(i as int) == vp);
                }
                Ok(())
            },
            Expr::MethodCall(o, _, args) => {
                Self::check_call_in_expr(o, symbols)?;
                Self::check_call_in_exprs(args, symbols)
            },
            Expr::StructLiteral(_, fields) => {
                let ghost fs = symbols.spec_functions();
                let ghost vf = view_fields(fields@);
                proof {
                    lemma_view_fields(fields@);
                }
                let mut i: usize = 0;
                while i < fields.len()
                    invariant
                        i <= fields.len(),
                        fs == symbols.spec_functions(),
                        vf == view_fields(fields@),
                        vf.len() == fields.len(),
                        forall|j: int|
                            0 <= j < vf.len() ==> (#[trigger] vf[j]) == (
                                fields@[j].0@,
                                view_expr(fields@[j].1),
                            ),
                        *expr == Expr::StructLiteral(expr->StructLiteral_0, *fields),
                        call_fields(fs, vf.take(i as int)) is None,
                    decreases fields.len() - i,
                {
                    proof {
                        assert(decreases_to!(*expr => (*expr)->StructLiteral_1));
                        assert(decreases_to!((*expr)->StructLiteral_1 => (*expr)->StructLiteral_1[i as int]));
                        assert(decreases_to!((*expr)->StructLiteral_1[i as int] => (*expr)->StructLiteral_1[i as int].1));
                        assert(vf.take(i + 1).drop_last() == vf.take(i as int));
                        assert(vf.take(i + 1).last() == vf[i as int]);
                    }
                    match Self::check_call_in_expr(&fields[i].1, symbols) {
                        Err(m) => {
                            proof {
                                lemma_call_fields_err_prefix(fs, vf, i as int + 1);
                            }
                            return Err(m);
                        },
                        Ok(_) => {},
                    }
                    i += 1;
                }
                proof {
                    assert(vf.take(i as int) == vf);
                }
                Ok(())
            },
            Expr::FieldAccess(o, _) => Self::check_call_in_expr(o, symbols),
            Expr::Try(x) => Self::check_call_in_expr(x, symbols),
            Expr::Catch(x, d) => {
                Self::check_call_in_expr(x, symbols)?;
                Self::check_call_in_expr(d, symbols)
            },
            Expr::Identifier(_) | Expr::Literal(_) | Expr::InlineRust(_) => Ok(()),
        }
    }
}

// ───────────────────────── lemmas ─────────────────────────

proof fn lemma_stmts_pure_prefix(fs: Seq<SpecFunctionDef>, s: Seq<SpecStatement>, k: int)
    requires
        0 <= k <= s.len(),
        !stmts_pure(fs, s.take(k)),
    ensures
        !stmts_pure(fs, s),
    decreases s.len(),
{
    if k < s.len() {
        assert(s.drop_last().take(k) == s.take(k));
        lemma_stmts_pure_prefix(fs, s.drop_last(), k);
    } else {
        assert(s.take(k) == s);
    }
}

proof fn lemma_arms_pure_prefix(fs: Seq<SpecFunctionDef>, s: Seq<SpecMatchArm>, k: int)
    requires
        0 <= k <= s.len(),
        !arms_pure(fs, s.take(k)),
    ensures
        !arms_pure(fs, s),
    decreases s.len(),
{
    if k < s.len() {
        assert(s.drop_last().take(k) == s.take(k));
        lemma_arms_pure_prefix(fs, s.drop_last(), k);
    } else {
        assert(s.take(k) == s);
    }
}

proof fn lemma_exprs_pure_prefix(fs: Seq<SpecFunctionDef>, s: Seq<SpecExpr>, k: int)
    requires
        0 <= k <= s.len(),
        !exprs_pure(fs, s.take(k)),
    ensures
        !exprs_pure(fs, s),
    decreases s.len(),
{
    if k < s.len() {
        assert(s.drop_last().take(k) == s.take(k));
        lemma_exprs_pure_prefix(fs, s.drop_last(), k);
    } else {
        assert(s.take(k) == s);
    }
}

proof fn lemma_parts_pure_prefix(fs: Seq<SpecFunctionDef>, s: Seq<SpecInterpolPart>, k: int)
    requires
        0 <= k <= s.len(),
        !parts_pure(fs, s.take(k)),
    ensures
        !parts_pure(fs, s),
    decreases s.len(),
{
    if k < s.len() {
        assert(s.drop_last().take(k) == s.take(k));
        lemma_parts_pure_prefix(fs, s.drop_last(), k);
    } else {
        assert(s.take(k) == s);
    }
}

proof fn lemma_fields_pure_prefix(fs: Seq<SpecFunctionDef>, s: Seq<(Seq<char>, SpecExpr)>, k: int)
    requires
        0 <= k <= s.len(),
        !fields_pure(fs, s.take(k)),
    ensures
        !fields_pure(fs, s),
    decreases s.len(),
{
    if k < s.len() {
        assert(s.drop_last().take(k) == s.take(k));
        lemma_fields_pure_prefix(fs, s.drop_last(), k);
    } else {
        assert(s.take(k) == s);
    }
}

proof fn lemma_call_stmts_err_prefix(fs: Seq<SpecFunctionDef>, s: Seq<SpecStatement>, k: int)
    requires
        0 <= k <= s.len(),
        call_stmts(fs, s.take(k)) is Some,
    ensures
        call_stmts(fs, s) == call_stmts(fs, s.take(k)),
    decreases s.len(),
{
    if k < s.len() {
        assert(s.drop_last().take(k) == s.take(k));
        lemma_call_stmts_err_prefix(fs, s.drop_last(), k);
    } else {
        assert(s.take(k) == s);
    }
}

proof fn lemma_call_arms_err_prefix(fs: Seq<SpecFunctionDef>, s: Seq<SpecMatchArm>, k: int)
    requires
        0 <= k <= s.len(),
        call_arms(fs, s.take(k)) is Some,
    ensures
        call_arms(fs, s) == call_arms(fs, s.take(k)),
    decreases s.len(),
{
    if k < s.len() {
        assert(s.drop_last().take(k) == s.take(k));
        lemma_call_arms_err_prefix(fs, s.drop_last(), k);
    } else {
        assert(s.take(k) == s);
    }
}

proof fn lemma_call_exprs_err_prefix(fs: Seq<SpecFunctionDef>, s: Seq<SpecExpr>, k: int)
    requires
        0 <= k <= s.len(),
        call_exprs(fs, s.take(k)) is Some,
    ensures
        call_exprs(fs, s) == call_exprs(fs, s.take(k)),
    decreases s.len(),
{
    if k < s.len() {
        assert(s.drop_last().take(k) == s.take(k));
        lemma_call_exprs_err_prefix(fs, s.drop_last(), k);
    } else {
        assert(s.take(k) == s);
    }
}

proof fn lemma_call_parts_err_prefix(fs: Seq<SpecFunctionDef>, s: Seq<SpecInterpolPart>, k: int)
    requires
        0 <= k <= s.len(),
        call_parts(fs, s.take(k)) is Some,
    ensures
        call_parts(fs, s) == call_parts(fs, s.take(k)),
    decreases s.len(),
{
    if k < s.len() {
        assert(s.drop_last().take(k) == s.take(k));
        lemma_call_parts_err_prefix(fs, s.drop_last(), k);
    } else {
        assert(s.take(k) == s);
    }
}

proof fn lemma_call_fields_err_prefix(
    fs: Seq<SpecFunctionDef>,
    s: Seq<(Seq<char>, SpecExpr)>,
    k: int,
)
    requires
        0 <= k <= s.len(),
        call_fields(fs, s.take(k)) is Some,
    ensures
        call_fields(fs, s) == call_fields(fs, s.take(k)),
    decreases s.len(),
{
    if k < s.len() {
        assert(s.drop_last().take(k) == s.take(k));
        lemma_call_fields_err_prefix(fs, s.drop_last(), k);
    } else {
        assert(s.take(k) == s);
    }
}

} // verus!
