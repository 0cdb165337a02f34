//! Scope and structured-concurrency analysis.
//!
//! Rules: a variable must be defined before it is read or assigned; `spawn`
//! may only appear inside a `scope` block; `break` and `continue` may only
//! appear inside a loop.
use vstd::prelude::*;
use vstd::string::*;
use crate::ast::{
    Block, Expr, FunctionDef, InterpolPart, SpecExpr, SpecFunctionDef, SpecInterpolPart, SpecMatchArm,
    SpecParam, SpecStatement, SpecBlock, Statement, lemma_view_arms, lemma_view_exprs,
    lemma_view_parts, lemma_view_stmts, view_arms, view_block, view_expr, view_exprs,
    view_function, view_params, view_parts, view_pattern, view_stmt, view_stmts, view_strings,
};
use crate::text::{push_str, str_to_string};
use crate::analysis::first_err;

verus! {

// ───────────────────────── messages ─────────────────────────

pub open spec fn msg_undefined(name: Seq<char>) -> Seq<char> {
    "Tanımsız değişken: '"@ + name + "'"@
}

pub open spec fn msg_undefined_validate(name: Seq<char>) -> Seq<char> {
    "Tanımsız değişken (validate): '"@ + name + "'"@
}

pub open spec fn msg_break() -> Seq<char> {
    "`break` yalnızca bir döngü (while/for) içinde kullanılabilir!"@
}

pub open spec fn msg_continue() -> Seq<char> {
    "`continue` yalnızca bir döngü (while/for) içinde kullanılabilir!"@
}

pub open spec fn msg_spawn() -> Seq<char> {
    "`spawn` yalnızca bir `scope` bloğu içinde kullanılabilir! Zombi süreçleri engellemek için tüm arka plan işlemleri bir kapsam (scope) içinde yaşamalıdır."@
}

fn make_undefined(name: &String) -> (r: String)
    ensures
        r@ == msg_undefined(name@),
{
    let mut s = str_to_string("Tanımsız değişken: '");
    push_str(&mut s, name.as_str());
    push_str(&mut s, "'");
    s
}

fn make_undefined_validate(name: &String) -> (r: String)
    ensures
        r@ == msg_undefined_validate(name@),
{
    let mut s = str_to_string("Tanımsız değişken (validate): '");
    push_str(&mut s, name.as_str());
    push_str(&mut s, "'");
    s
}

// ───────────────────────── specification ─────────────────────────

/// The error that checking expression `e` reports, if any, given the names in
/// scope (`defs`) and whether the expression stands inside a `scope` block.
pub open spec fn scope_expr(defs: Seq<Seq<char>>, in_scope: bool, e: SpecExpr) -> Option<Seq<char>>
    decreases e, 0nat,
{
    match e {
        SpecExpr::Identifier(n) => if defs.contains(n) {
            None
        } else {
            Some(msg_undefined(n))
        },
        SpecExpr::Binary(l, _, r) => first_err(
            scope_expr(defs, in_scope, *l),
            scope_expr(defs, in_scope, *r),
        ),
        SpecExpr::Unary(_, x) => scope_expr(defs, in_scope, *x),
        SpecExpr::Interpolation(ps) => scope_parts(defs, in_scope, ps),
        SpecExpr::TupleLiteral(xs) => scope_exprs(defs, in_scope, xs),
        SpecExpr::TupleIndex(x, _) => scope_expr(defs, in_scope, *x),
        SpecExpr::Call(_, args, _) => scope_exprs(defs, in_scope, args),
        SpecExpr::Spawn(x) => if !in_scope {
            Some(msg_spawn())
        } else {
            scope_expr(defs, in_scope, *x)
        },
        SpecExpr::Await(x) => scope_expr(defs, in_scope, *x),
        SpecExpr::Infra(c) => scope_exprs(defs, in_scope, c.args),
        SpecExpr::JsonField(x, _) => scope_expr(defs, in_scope, *x),
        SpecExpr::ArrayLiteral(xs) => scope_exprs(defs, in_scope, xs),
        SpecExpr::Index(a, i) => first_err(
            scope_expr(defs, in_scope, *a),
            scope_expr(defs, in_scope, *i),
        ),
        _ => None,
    }
}

/// The first error among a list of expressions, checked from left to right.
pub open spec fn scope_exprs(defs: Seq<Seq<char>>, in_scope: bool, s: Seq<SpecExpr>) -> Option<
    Seq<char>,
>
    decreases s, 1nat,
{
    if s.len() == 0 {
        None
    } else {
        first_err(scope_exprs(defs, in_scope, s.drop_last()), scope_expr(defs, in_scope, s.last()))
    }
}

/// The first error among the expressions of an interpolated string.
pub open spec fn scope_parts(defs: Seq<Seq<char>>, in_scope: bool, s: Seq<SpecInterpolPart>) -> Option<
    Seq<char>,
>
    decreases s, 1nat,
{
    if s.len() == 0 {
        None
    } else {
        first_err(
            scope_parts(defs, in_scope, s.drop_last()),
            match s.last() {
                SpecInterpolPart::Expr(x) => scope_expr(defs, in_scope, x),
                SpecInterpolPart::Lit(_) => None,
            },
        )
    }
}

/// Checking one statement: either the error it reports, or the names in
/// scope after it (a `let`, a `const` and a `for` loop's variable stay
/// defined up to the end of the enclosing block).
pub open spec fn scope_stmt(
    defs: Seq<Seq<char>>,
    in_scope: bool,
    in_loop: bool,
    s: SpecStatement,
) -> Result<Seq<Seq<char>>, Seq<char>>
    decreases s, 0nat,
{
    match s {
        SpecStatement::Let { name, value } => match scope_expr(defs, in_scope, value) {
            Some(m) => Err(m),
            None => Ok(defs.push(name)),
        },
        SpecStatement::Const { name, value } => match scope_expr(defs, in_scope, value) {
            Some(m) => Err(m),
            None => Ok(defs.push(name)),
        },
        SpecStatement::Assign { name, value, .. } => if !defs.contains(name) {
            Err(msg_undefined(name))
        } else {
            match scope_expr(defs, in_scope, value) {
                Some(m) => Err(m),
                None => Ok(defs),
            }
        },
        SpecStatement::IndexAssign { name, index, value, .. } => if !defs.contains(name) {
            Err(msg_undefined(name))
        } else {
            match first_err(scope_expr(defs, in_scope, index), scope_expr(defs, in_scope, value)) {
                Some(m) => Err(m),
                None => Ok(defs),
            }
        },
        SpecStatement::Match { expr, arms } => match first_err(
            scope_expr(defs, in_scope, expr),
            scope_arms(defs, in_scope, in_loop, arms),
        ) {
            Some(m) => Err(m),
            None => Ok(defs),
        },
        SpecStatement::If { condition, then_block, else_block } => match first_err(
            scope_expr(defs, in_scope, condition),
            first_err(
                scope_block(defs, in_scope, in_loop, then_block),
                match else_block {
                    Some(b) => scope_block(defs, in_scope, in_loop, b),
                    None => None,
                },
            ),
        ) {
            Some(m) => Err(m),
            None => Ok(defs),
        },
        SpecStatement::While { condition, body } => match first_err(
            scope_expr(defs, in_scope, condition),
            scope_block(defs, in_scope, true, body),
        ) {
            Some(m) => Err(m),
            None => Ok(defs),
        },
        SpecStatement::For { var, start, end, step, body } => match first_err(
            scope_expr(defs, in_scope, start),
            first_err(
                scope_expr(defs, in_scope, end),
                first_err(
                    match step {
                        Some(x) => scope_expr(defs, in_scope, x),
                        None => None,
                    },
                    scope_block(defs.push(var), in_scope, true, body),
                ),
            ),
        ) {
            Some(m) => Err(m),
            None => Ok(defs.push(var)),
        },
        SpecStatement::ScopeBlock { body, .. } => match scope_block(defs, true, in_loop, body) {
            Some(m) => Err(m),
            None => Ok(defs),
        },
        SpecStatement::ValidateBlock { target, on_fail, success_scope, .. } => if !defs.contains(
            target,
        ) {
            Err(msg_undefined_validate(target))
        } else {
            match first_err(
                scope_block(defs, in_scope, in_loop, on_fail),
                scope_block(defs, in_scope, in_loop, success_scope),
            ) {
                Some(m) => Err(m),
                None => Ok(defs),
            }
        },
        SpecStatement::ExprStmt(x) => match scope_expr(defs, in_scope, x) {
            Some(m) => Err(m),
            None => Ok(defs),
        },
        SpecStatement::Return(Some(x)) => match scope_expr(defs, in_scope, x) {
            Some(m) => Err(m),
            None => Ok(defs),
        },
        SpecStatement::Return(None) => Ok(defs),
        SpecStatement::Break => if !in_loop {
            Err(msg_break())
        } else {
            Ok(defs)
        },
        SpecStatement::Continue => if !in_loop {
            Err(msg_continue())
        } else {
            Ok(defs)
        },
    }
}

/// Checking a list of statements in order, threading the names in scope.
pub open spec fn scope_stmts(
    defs: Seq<Seq<char>>,
    in_scope: bool,
    in_loop: bool,
    s: Seq<SpecStatement>,
) -> Result<Seq<Seq<char>>, Seq<char>>
    decreases s, 1nat,
{
    if s.len() == 0 {
        Ok(defs)
    } else {
        match scope_stmts(defs, in_scope, in_loop, s.drop_last()) {
            Err(m) => Err(m),
            Ok(d) => scope_stmt(d, in_scope, in_loop, s.last()),
        }
    }
}

/// Checking a block: the names it defines do not outlive it.
pub open spec fn scope_block(defs: Seq<Seq<char>>, in_scope: bool, in_loop: bool, b: SpecBlock) -> Option<
    Seq<char>,
>
    decreases b, 0nat,
{
    match scope_stmts(defs, in_scope, in_loop, b.statements) {
        Err(m) => Some(m),
        Ok(_) => None,
    }
}

/// Checking the bodies of the arms of a `match`, in order.
pub open spec fn scope_arms(
    defs: Seq<Seq<char>>,
    in_scope: bool,
    in_loop: bool,
    s: Seq<SpecMatchArm>,
) -> Option<Seq<char>>
    decreases s, 1nat,
{
    if s.len() == 0 {
        None
    } else {
        first_err(
            scope_arms(defs, in_scope, in_loop, s.drop_last()),
            scope_block(defs, in_scope, in_loop, s.last().body),
        )
    }
}

/// The names of a function's parameters, in order.
pub open spec fn param_names(ps: Seq<SpecParam>) -> Seq<Seq<char>> {
    ps.map_values(|p: SpecParam| p.name)
}

/// The error that the scope analysis reports for a function, if any: the body
/// is checked with the parameters defined, outside any `scope` block and loop.
pub open spec fn scope_function(f: SpecFunctionDef) -> Option<Seq<char>> {
    scope_block(param_names(f.params), false, false, f.body)
}

// ───────────────────────── analyzer ─────────────────────────

pub struct ScopeAnalyzer {
    defined_vars: Vec<String>,
    in_scope: bool,
    in_loop: bool,
}

impl ScopeAnalyzer {
    /// The names currently defined.
    pub closed spec fn defined(&self) -> Seq<Seq<char>> {
        view_strings(self.defined_vars@)
    }

    /// Whether the analyzer stands inside a `scope` block.
    pub closed spec fn inside_scope(&self) -> bool {
        self.in_scope
    }

    /// Whether the analyzer stands inside a loop.
    pub closed spec fn inside_loop(&self) -> bool {
        self.in_loop
    }

    pub fn new() -> (r: Self)
        ensures
            r.defined() == Seq::<Seq<char>>::empty(),
            !r.inside_scope(),
            !r.inside_loop(),
    {
        ScopeAnalyzer { defined_vars: Vec::new(), in_scope: false, in_loop: false }
    }

    /// Checks one function. It succeeds exactly when `scope_function` finds
    /// no error, and otherwise returns the error that it finds.
    pub fn analyze(&mut self, func: &FunctionDef) -> (r: Result<(), String>)
        ensures
            match r {
                Ok(_) => scope_function(view_function(*func)) is None,
                Err(m) => scope_function(view_function(*func)) == Some(m@),
            },
            r is Ok ==> final(self).defined() == param_names(view_params(func.params@)),
            r is Ok ==> !final(self).inside_scope() && !final(self).inside_loop(),
    {
        self.defined_vars = Vec::new();
        self.in_scope = false;
        self.in_loop = false;
        let mut i: usize = 0;
        while i < func.params.len()
            invariant
                i <= func.params.len(),
                self.defined() == param_names(view_params(func.params@)).take(i as int),
                self.defined_vars.len() == i,
                !self.in_scope,
                !self.in_loop,
            decreases func.params.len() - i,
        {
            let name = func.params[i].name.clone();
            let ghost prev = self.defined();
            self.defined_vars.push(name);
            proof {
                let pn = param_names(view_params(func.params@));
                assert(pn[i as int] == func.params@[i as int].name@);
                assert(self.defined().len() == i + 1);
                assert forall|j: int| 0 <= j < i + 1 implies self.defined()[j] == pn.take(i + 1)[j] by {
                    if j < i {
                        assert(prev[j] == pn.take(i as int)[j]);
                    }
                }
                assert(self.defined() =~= pn.take(i + 1));
            }
            i += 1;
        }
        proof {
            assert(param_names(view_params(func.params@)).take(i as int) == param_names(
                view_params(func.params@),
            ));
        }
        self.visit_block(&func.body)
    }

    fn contains(&self, name: &String) -> (r: bool)
        ensures
            r == self.defined().contains(name@),
    {
        let mut i: usize = 0;
        while i < self.defined_vars.len()
            invariant
                i <= self.defined_vars.len(),
                forall|j: int| 0 <= j < i ==> self.defined()[j] != name@,
            decreases self.defined_vars.len() - i,
        {
            if self.defined_vars[i] == *name {
                assert(self.defined()[i as int] == name@);
                return true;
            }
            i += 1;
        }
        false
    }

    fn visit_block(&mut self, block: &Block) -> (r: Result<(), String>)
        ensures
            match r {
                Ok(_) => scope_block(
                    old(self).defined(),
                    old(self).in_scope,
                    old(self).in_loop,
                    view_block(*block),
                ) is None,
                Err(m) => scope_block(
                    old(self).defined(),
                    old(self).in_scope,
                    old(self).in_loop,
                    view_block(*block),
                ) == Some(m@),
            },
            r is Ok ==> final(self).defined() == old(self).defined(),
            r is Ok ==> final(self).in_scope == old(self).in_scope,
            r is Ok ==> final(self).in_loop == old(self).in_loop,
        decreases block, 0nat,
    {
        let backup = self.defined_vars.len();
        let ghost d0 = self.defined();
        let ghost ss = view_stmts(block.statements@);
        proof {
            lemma_view_stmts(block.statements@);
        }
        let mut i: usize = 0;
        while i < block.statements.len()
            invariant
                i <= block.statements.len(),
                ss == view_stmts(block.statements@),
                ss.len() == block.statements.len(),
                forall|j: int| 0 <= j < ss.len() ==> #[trigger] ss[j] == view_stmt(block.statements@[j]),
                backup == d0.len(),
                d0 == old(self).defined(),
                self.defined_vars.len() >= backup,
                self.defined().take(backup as int) == d0,
                self.in_scope == old(self).in_scope,
                self.in_loop == old(self).in_loop,
                scope_stmts(d0, self.in_scope, self.in_loop, ss.take(i as int)) == Ok::<
                    Seq<Seq<char>>,
                    Seq<char>,
                >(self.defined()),
            decreases block.statements.len() - i,
        {
            proof {
                assert(decreases_to!(*block => block.statements));
                assert(decreases_to!(block.statements => block.statements[i as int]));
                assert(ss.take(i + 1).drop_last() == ss.take(i as int));
                assert(ss.take(i + 1).last() == ss[i as int]);
            }
            let ghost cur = self.defined();
            let res = self.visit_stmt(&block.statements[i]);
            match res {
                Err(m) => {
                    proof {
                        assert(scope_stmts(d0, old(self).in_scope, old(self).in_loop, ss.take(i + 1)) == Err::<Seq<Seq<char>>, Seq<char>>(m@));
                        lemma_scope_stmts_err_prefix(d0, old(self).in_scope, old(self).in_loop, ss, i as int + 1);
                        assert(view_block(*block).statements == ss);
                        assert(scope_stmts(d0, old(self).in_scope, old(self).in_loop, ss) == Err::<Seq<Seq<char>>, Seq<char>>(m@));
                        assert(d0 == old(self).defined());
                        assert(scope_block(d0, old(self).in_scope, old(self).in_loop, view_block(*block)) == Some(m@));
                    }
                    return Err(m);
                },
                Ok(_) => {},
            }
            proof {
                lemma_defined_take(self, backup);
            }
            i += 1;
        }
        proof {
            assert(ss.take(i as int) == ss);
        }
        self.defined_vars.truncate(backup);
        proof {
            assert(self.defined() == d0);
        }
        Ok(())
    }

    fn visit_stmt(&mut self, stmt: &Statement) -> (r: Result<(), String>)
        ensures
            match r {
                Ok(_) => scope_stmt(
                    old(self).defined(),
                    old(self).in_scope,
                    old(self).in_loop,
                    view_stmt(*stmt),
                ) == Ok::<Seq<Seq<char>>, Seq<char>>(final(self).defined()),
                Err(m) => scope_stmt(
                    old(self).defined(),
                    old(self).in_scope,
                    old(self).in_loop,
                    view_stmt(*stmt),
                ) == Err::<Seq<Seq<char>>, Seq<char>>(m@),
            },
            r is Ok ==> final(self).defined().len() >= old(self).defined().len(),
            r is Ok ==> final(self).defined().take(old(self).defined().len() as int) == old(
                self,
            ).defined(),
            r is Ok ==> final(self).in_scope == old(self).in_scope,
            r is Ok ==> final(self).in_loop == old(self).in_loop,
        decreases stmt, 0nat,
    {
        let ghost d0 = self.defined();
        match stmt {
            Statement::Let(l) => {
                self.visit_expr(&l.value)?;
                self.defined_vars.push(l.name.clone());
                proof {
                    assert(self.defined() == d0.push(l.name@));
                    assert(self.defined().take(d0.len() as int) == d0);
                }
                Ok(())
            },
            Statement::Const { name, value } => {
                self.visit_expr(value)?;
                self.defined_vars.push(name.clone());
                proof {
                    assert(self.defined() == d0.push(name@));
                    assert(self.defined().take(d0.len() as int) == d0);
                }
                Ok(())
            },
            Statement::Assign { name, value, .. } => {
                if !self.contains(name) {
                    return Err(make_undefined(name));
                }
                self.visit_expr(value)?;
                proof {
                    assert(self.defined().take(d0.len() as int) == d0);
                }
                Ok(())
            },
            Statement::IndexAssign { name, index, value, .. } => {
                if !self.contains(name) {
                    return Err(make_undefined(name));
                }
                self.visit_expr(index)?;
                self.visit_expr(value)?;
                proof {
                    assert(self.defined().take(d0.len() as int) == d0);
                }
                Ok(())
            },
            Statement::Match { expr, arms } => {
                self.visit_expr(expr)?;
                let ghost va = view_arms(arms@);
                proof {
                    lemma_view_arms(arms@);
                }
                let mut i: usize = 0;
                while i < arms.len()
                    invariant
                        i <= arms.len(),
                        va == view_arms(arms@),
                        va.len() == arms.len(),
                        forall|j: int|
                            0 <= j < va.len() ==> #[trigger] va[j] == (SpecMatchArm {
                                pattern: view_pattern(arms@[j].pattern),
                                body: view_block(arms@[j].body),
                            }),
                        self.defined() == d0,
                        self.in_scope == old(self).in_scope,
                        self.in_loop == old(self).in_loop,
                        *stmt == (Statement::Match { expr: *expr, arms: *arms }),
                        d0 == old(self).defined(),
                        scope_expr(d0, old(self).in_scope, view_expr(*expr)) is None,
                        scope_arms(d0, self.in_scope, self.in_loop, va.take(i as int)) is None,
                    decreases arms.len() - i,
                {
                    proof {
                        assert(decreases_to!(*stmt => (*stmt)->Match_arms));
                        assert(decreases_to!((*stmt)->Match_arms => (*stmt)->Match_arms[i as int]));
                        assert(decreases_to!((*stmt)->Match_arms[i as int] => (*stmt)->Match_arms[i as int].body));
                        assert(va.take(i + 1).drop_last() == va.take(i as int));
                        assert(va.take(i + 1).last() == va[i as int]);
                    }
                    let res = self.visit_block(&arms[i].body);
                    match res {
                        Err(m) => {
                            proof {
                                assert(scope_arms(d0, old(self).in_scope, old(self).in_loop, va.take(i + 1)) == Some(m@));
                                lemma_scope_arms_err_prefix(d0, old(self).in_scope, old(self).in_loop, va, i as int + 1);
                            }
                            return Err(m);
                        },
                        Ok(_) => {},
                    }
                    i += 1;
                }
                proof {
                    assert(va.take(i as int) == va);
                    assert(self.defined().take(d0.len() as int) == d0);
                }
                Ok(())
            },
            Statement::If { condition, then_block, else_block } => {
                self.visit_expr(condition)?;
                self.visit_block(then_block)?;
                if let Some(else_b) = else_block {
                    self.visit_block(else_b)?;
                }
                proof {
                    assert(self.defined().take(d0.len() as int) == d0);
                }
                Ok(())
            },
            Statement::Break => {
                if !self.in_loop {
                    return Err(str_to_string("`break` yalnızca bir döngü (while/for) içinde kullanılabilir!"));
                }
                proof {
                    assert(self.defined().take(d0.len() as int) == d0);
                }
                Ok(())
            },
            Statement::Continue => {
                if !self.in_loop {
                    return Err(str_to_string("`continue` yalnızca bir döngü (while/for) içinde kullanılabilir!"));
                }
                proof {
                    assert(self.defined().take(d0.len() as int) == d0);
                }
                Ok(())
            },
            Statement::While { condition, body } => {
                self.visit_expr(condition)?;
                let was_in_loop = self.in_loop;
                self.in_loop = true;
                self.visit_block(body)?;
                self.in_loop = was_in_loop;
                proof {
                    assert(self.defined().take(d0.len() as int) == d0);
                }
                Ok(())
            },
            Statement::For { var, start, end, step, body } => {
                self.visit_expr(start)?;
                self.visit_expr(end)?;
                if let Some(s) = step {
                    self.visit_expr(s)?;
                }
                self.defined_vars.push(var.clone());
                proof {
                    assert(self.defined() == d0.push(var@));
                }
                let was_in_loop = self.in_loop;
                self.in_loop = true;
                self.visit_block(body)?;
                self.in_loop = was_in_loop;
                proof {
                    assert(self.defined().take(d0.len() as int) == d0);
                }
                Ok(())
            },
            Statement::ScopeBlock { body, .. } => {
                let was_in_scope = self.in_scope;
                self.in_scope = true;
                self.visit_block(body)?;
                self.in_scope = was_in_scope;
                proof {
                    assert(self.defined().take(d0.len() as int) == d0);
                }
                Ok(())
            },
            Statement::ValidateBlock { target, success_scope, on_fail, .. } => {
                if !self.contains(target) {
                    return Err(make_undefined_validate(target));
                }
                self.visit_block(on_fail)?;
                self.visit_block(success_scope)?;
                proof {
                    assert(self.defined().take(d0.len() as int) == d0);
                }
                Ok(())
            },
            Statement::ExprStmt(e) => {
                self.visit_expr(e)?;
                proof {
                    assert(self.defined().take(d0.len() as int) == d0);
                }
                Ok(())
            },
            Statement::Return(Some(e)) => {
                self.visit_expr(e)?;
                proof {
                    assert(self.defined().take(d0.len() as int) == d0);
                }
                Ok(())
            },
            Statement::Return(None) => {
                proof {
                    assert(self.defined().take(d0.len() as int) == d0);
                }
                Ok(())
            },
        }
    }

    fn visit_exprs(&self, xs: &Vec<Expr>) -> (r: Result<(), String>)
        ensures
            match r {
                Ok(_) => scope_exprs(self.defined(), self.in_scope, view_exprs(xs@)) is None,
                Err(m) => scope_exprs(self.defined(), self.in_scope, view_exprs(xs@)) == Some(m@),
            },
        decreases xs, 0nat,
    {
        let ghost vs = view_exprs(xs@);
        proof {
            lemma_view_exprs(xs@);
        }
        let mut i: usize = 0;
        while i < xs.len()
            invariant
                i <= xs.len(),
                vs == view_exprs(xs@),
                vs.len() == xs.len(),
                forall|j: int| 0 <= j < vs.len() ==> #[trigger] vs[j] == view_expr(xs@[j]),
                scope_exprs(self.defined(), self.in_scope, vs.take(i as int)) is None,
            decreases xs.len() - i,
        {
            proof {
                assert(decreases_to!(*xs => xs[i as int]));
                assert(vs.take(i + 1).drop_last() == vs.take(i as int));
                assert(vs.take(i + 1).last() == vs[i as int]);
            }
            let res = self.visit_expr(&xs[i]);
            match res {
                Err(m) => {
                    proof {
                        assert(scope_expr(self.defined(), self.in_scope, view_expr(xs@[i as int])) == Some(m@));
                        assert(scope_expr(self.defined(), self.in_scope, vs[i as int]) == Some(m@));
                        assert(scope_exprs(self.defined(), self.in_scope, vs.take(i as int)) is None);
                        assert(scope_exprs(self.defined(), self.in_scope, vs.take(i + 1)) == Some(m@));
                        lemma_scope_exprs_err_prefix(self.defined(), self.in_scope, vs, i as int + 1);
                    }
                    return Err(m);
                },
                Ok(_) => {},
            }
            i += 1;
        }
        proof {
            assert(vs.take(i as int) == vs);
        }
        Ok(())
    }

    fn visit_expr(&self, expr: &Expr) -> (r: Result<(), String>)
        ensures
            match r {
                Ok(_) => scope_expr(self.defined(), self.in_scope, view_expr(*expr)) is None,
                Err(m) => scope_expr(self.defined(), self.in_scope, view_expr(*expr)) == Some(m@),
            },
        decreases expr, 0nat,
    {
        match expr {
            Expr::Identifier(name) => {
                if !self.contains(name) {
                    return Err(make_undefined(name));
                }
            },
            Expr::Binary(l, _, r) => {
                self.visit_expr(l)?;
                self.visit_expr(r)?;
            },
            Expr::Unary(_, inner) => {
                self.visit_expr(inner)?;
            },
            Expr::Interpolation(parts) => {
                let ghost vp = view_parts(parts@);
                proof {
                    lemma_view_parts(parts@);
                }
                let mut i: usize = 0;
                while i < parts.len()
                    invariant
                        i <= parts.len(),
                        vp == view_parts(parts@),
                        vp.len() == parts.len(),
                        forall|j: int|
                            0 <= j < vp.len() ==> #[trigger] vp[j] == (match parts@[j] {
                                InterpolPart::Lit(t) => SpecInterpolPart::Lit(t@),
                                InterpolPart::Expr(x) => SpecInterpolPart::Expr(view_expr(x)),
                            }),
                        *expr == Expr::Interpolation(*parts),
                        scope_parts(self.defined(), self.in_scope, vp.take(i as int)) is None,
                    decreases parts.len() - i,
                {
                    proof {
                        assert(vp.take(i + 1).drop_last() == vp.take(i as int));
                        assert(vp.take(i + 1).last() == vp[i as int]);
                    }
                    if let InterpolPart::Expr(e) = &parts[i] {
                        proof {
                            assert(decreases_to!(*expr => (*expr)->Interpolation_0));
                            assert(decreases_to!((*expr)->Interpolation_0 => (*expr)->Interpolation_0[i as int]));
                            assert(decreases_to!((*expr)->Interpolation_0[i as int] => (*expr)->Interpolation_0[i as int]->Expr_0));
                        }
                        let res = self.visit_expr(e);
                        match res {
                            Err(m) => {
                                proof {
                                    lemma_scope_parts_err_prefix(self.defined(), self.in_scope, vp, i as int + 1);
                                }
                                return Err(m);
                            },
                            Ok(_) => {},
                        }
                    }
                    i += 1;
                }
                proof {
                    assert(vp.take(i as int) == vp);
                }
            },
            Expr::TupleLiteral(elems) => {
                self.visit_exprs(elems)?;
            },
            Expr::TupleIndex(inner, _) => {
                self.visit_expr(inner)?;
            },
            Expr::Call(_, args, _) => {
                self.visit_exprs(args)?;
            },
            Expr::Spawn(e) => {
                if !self.in_scope {
                    return Err(
                        str_to_string(
                            "`spawn` yalnızca bir `scope` bloğu içinde kullanılabilir! Zombi süreçleri engellemek için tüm arka plan işlemleri bir kapsam (scope) içinde yaşamalıdır.",
                        ),
                    );
                }
                self.visit_expr(e)?;
            },
            Expr::Await(e) => {
                self.visit_expr(e)?;
            },
            Expr::Infra(call) => {
                self.visit_exprs(&call.args)?;
            },
            Expr::JsonField(source, _) => {
                self.visit_expr(source)?;
            },
            Expr::ArrayLiteral(elems) => {
                self.visit_exprs(elems)?;
            },
            Expr::Index(arr, idx) => {
                self.visit_expr(arr)?;
                self.visit_expr(idx)?;
            },
            _ => {},
        }
        Ok(())
    }
}

// ───────────────────────── lemmas ─────────────────────────

proof fn lemma_defined_take(a: &ScopeAnalyzer, k: usize)
    requires
        k <= a.defined_vars.len(),
    ensures
        a.defined().take(k as int) == view_strings(a.defined_vars@.take(k as int)),
{
    assert(a.defined().take(k as int) =~= view_strings(a.defined_vars@.take(k as int)));
}

proof fn lemma_scope_exprs_err_prefix(d: Seq<Seq<char>>, sc: bool, s: Seq<SpecExpr>, k: int)
    requires
        0 <= k <= s.len(),
        scope_exprs(d, sc, s.take(k)) is Some,
    ensures
        scope_exprs(d, sc, s) == scope_exprs(d, sc, s.take(k)),
    decreases s.len(),
{
    if k < s.len() {
        assert(s.drop_last().take(k) == s.take(k));
        lemma_scope_exprs_err_prefix(d, sc, s.drop_last(), k);
    } else {
        assert(s.take(k) == s);
    }
}

proof fn lemma_scope_parts_err_prefix(d: Seq<Seq<char>>, sc: bool, s: Seq<SpecInterpolPart>, k: int)
    requires
        0 <= k <= s.len(),
        scope_parts(d, sc, s.take(k)) is Some,
    ensures
        scope_parts(d, sc, s) == scope_parts(d, sc, s.take(k)),
    decreases s.len(),
{
    if k < s.len() {
        assert(s.drop_last().take(k) == s.take(k));
        lemma_scope_parts_err_prefix(d, sc, s.drop_last(), k);
    } else {
        assert(s.take(k) == s);
    }
}

proof fn lemma_scope_arms_err_prefix(
    d: Seq<Seq<char>>,
    sc: bool,
    lp: bool,
    s: Seq<SpecMatchArm>,
    k: int,
)
    requires
        0 <= k <= s.len(),
        scope_arms(d, sc, lp, s.take(k)) is Some,
    ensures
        scope_arms(d, sc, lp, s) == scope_arms(d, sc, lp, s.take(k)),
    decreases s.len(),
{
    if k < s.len() {
        assert(s.drop_last().take(k) == s.take(k));
        lemma_scope_arms_err_prefix(d, sc, lp, s.drop_last(), k);
    } else {
        assert(s.take(k) == s);
    }
}

proof fn lemma_scope_stmts_err_prefix(
    d: Seq<Seq<char>>,
    sc: bool,
    lp: bool,
    s: Seq<SpecStatement>,
    k: int,
)
    requires
        0 <= k <= s.len(),
        scope_stmts(d, sc, lp, s.take(k)) is Err,
    ensures
        scope_stmts(d, sc, lp, s) == scope_stmts(d, sc, lp, s.take(k)),
    decreases s.len(),
{
    if k < s.len() {
        assert(s.drop_last().take(k) == s.take(k));
        lemma_scope_stmts_err_prefix(d, sc, lp, s.drop_last(), k);
    } else {
        assert(s.take(k) == s);
    }
}

} // verus!
