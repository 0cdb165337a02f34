//! Taint analysis: data from the outside world may not be used before it has
//! gone through a `validate` block.
//!
//! Rules: a parameter of type `Untrusted` is tainted; so is a variable bound to
//! the result of a tainted source (`Console.read`, `HTTP.get`, `input`,
//! `inputln`, or a function returning `Untrusted`) or to a value derived from a
//! tainted variable; a tainted variable may not be used elsewhere; inside the
//! `success` scope of `validate x`, `x` is clean.
use vstd::prelude::*;
use crate::ast::{
    BinaryOp, Block, Expr, FunctionDef, InterpolPart, SpecBlock, SpecExpr, SpecFunctionDef,
    SpecInterpolPart, SpecMatchArm, SpecParam, SpecStatement, SpecTypeRef, Statement, TypeRef,
    lemma_view_arms, lemma_view_exprs, lemma_view_fields, lemma_view_parts, lemma_view_stmts,
    view_arms, view_block, view_expr, view_exprs, view_fields, view_function, view_params,
    view_parts, view_pattern, view_stmt, view_stmts, view_strings,
};
use crate::text::{push_str, str_eq, str_to_string};
use crate::analysis::first_err;
use crate::analysis::determinism::{SymbolTable, lookup};

verus! {

// ───────────────────────── sources and propagation ─────────────────────────

/// The standard functions whose result comes from the outside world.
pub open spec fn tainted_stdlib(name: Seq<char>) -> bool {
    ||| name == "Console.read"@
    ||| name == "HTTP.get"@
    ||| name == "input"@
    ||| name == "inputln"@
}

/// An expression is a tainted source when it calls a standard input function
/// or a function of the program whose return type is `Untrusted`.
pub open spec fn tainted_source(fs: Seq<SpecFunctionDef>, e: SpecExpr) -> bool {
    match e {
        SpecExpr::Call(name, _, _) => tainted_stdlib(name) || (lookup(fs, name) matches Some(f)
            && f.return_type == SpecTypeRef::Untrusted),
        _ => false,
    }
}

/// An expression derives from tainted data: it is a tainted variable, inline
/// Rust, a concatenation (`+`) with such an expression on either side, or a
/// JSON field, index, tuple index, unary operation, method call or field
/// access of such an expression, or a struct literal with such a field.
pub open spec fn tainted_prop(t: Seq<Seq<char>>, e: SpecExpr) -> bool
    decreases e, 0nat,
{
    match e {
        SpecExpr::Identifier(n) => t.contains(n),
        SpecExpr::InlineRust(_) => true,
        SpecExpr::Binary(l, BinaryOp::Add, r) => tainted_prop(t, *l) || tainted_prop(t, *r),
        SpecExpr::JsonField(x, _) => tainted_prop(t, *x),
        SpecExpr::Index(a, _) => tainted_prop(t, *a),
        SpecExpr::TupleIndex(x, _) => tainted_prop(t, *x),
        SpecExpr::Unary(_, x) => tainted_prop(t, *x),
        SpecExpr::MethodCall(o, _, _) => tainted_prop(t, *o),
        SpecExpr::StructLiteral(_, flds) => fields_prop(t, flds),
        SpecExpr::FieldAccess(o, _) => tainted_prop(t, *o),
        _ => false,
    }
}

pub open spec fn fields_prop(t: Seq<Seq<char>>, s: Seq<(Seq<char>, SpecExpr)>) -> bool
    decreases s, 1nat,
{
    if s.len() == 0 {
        false
    } else {
        fields_prop(t, s.drop_last()) || tainted_prop(t, s.last().1)
    }
}

// ───────────────────────── clean use ─────────────────────────

pub open spec fn msg_tainted(name: Seq<char>) -> Seq<char> {
    "'"@ + name + "' lekeli (Untrusted) bir değişken! Kullanmadan önce `validate "@ + name
        + " { success: { ... } }` bloğu ile doğrulamalısınız."@
}

pub open spec fn msg_already_clean(name: Seq<char>) -> Seq<char> {
    "'"@ + name
        + "' zaten temiz (trusted) bir değişken. `validate` bloğu yalnızca lekeli (Untrusted) veriler için kullanılabilir."@
}

/// The first use of a tainted variable in an expression, reported as an error.
/// Passing a tainted variable to any function, `spawn`ed or not, is such a
/// use.
pub open spec fn clean_expr(t: Seq<Seq<char>>, e: SpecExpr) -> Option<Seq<char>>
    decreases e, 0nat,
{
    match e {
        SpecExpr::Identifier(n) => if t.contains(n) {
            Some(msg_tainted(n))
        } else {
            None
        },
        SpecExpr::Literal(_) => None,
        SpecExpr::Binary(l, _, r) => first_err(clean_expr(t, *l), clean_expr(t, *r)),
        SpecExpr::Call(_, args, _) => clean_exprs(t, args),
        SpecExpr::Unary(_, x) => clean_expr(t, *x),
        SpecExpr::Interpolation(ps) => clean_parts(t, ps),
        SpecExpr::TupleLiteral(xs) => clean_exprs(t, xs),
        SpecExpr::TupleIndex(x, _) => clean_expr(t, *x),
        SpecExpr::Spawn(x) => clean_expr(t, *x),
        SpecExpr::InlineRust(_) => None,
        SpecExpr::Await(x) => clean_expr(t, *x),
        SpecExpr::Infra(c) => clean_exprs(t, c.args),
        SpecExpr::JsonField(x, _) => clean_expr(t, *x),
        SpecExpr::ArrayLiteral(xs) => clean_exprs(t, xs),
        SpecExpr::Index(a, i) => first_err(clean_expr(t, *a), clean_expr(t, *i)),
        SpecExpr::MethodCall(o, _, args) => first_err(clean_expr(t, *o), clean_exprs(t, args)),
        SpecExpr::StructLiteral(_, flds) => clean_fields(t, flds),
        SpecExpr::FieldAccess(o, _) => clean_expr(t, *o),
        SpecExpr::Try(x) => clean_expr(t, *x),
        SpecExpr::Catch(x, d) => first_err(clean_expr(t, *x), clean_expr(t, *d)),
    }
}

pub open spec fn clean_exprs(t: Seq<Seq<char>>, s: Seq<SpecExpr>) -> Option<Seq<char>>
    decreases s, 1nat,
{
    if s.len() == 0 {
        None
    } else {
        first_err(clean_exprs(t, s.drop_last()), clean_expr(t, s.last()))
    }
}

pub open spec fn clean_parts(t: Seq<Seq<char>>, s: Seq<SpecInterpolPart>) -> Option<Seq<char>>
    decreases s, 1nat,
{
    if s.len() == 0 {
        None
    } else {
        first_err(
            clean_parts(t, s.drop_last()),
            match s.last() {
                SpecInterpolPart::Expr(x) => clean_expr(t, x),
                SpecInterpolPart::Lit(_) => None,
            },
        )
    }
}

pub open spec fn clean_fields(t: Seq<Seq<char>>, s: Seq<(Seq<char>, SpecExpr)>) -> Option<Seq<char>>
    decreases s, 1nat,
{
    if s.len() == 0 {
        None
    } else {
        first_err(clean_fields(t, s.drop_last()), clean_expr(t, s.last().1))
    }
}

// ───────────────────────── statements ─────────────────────────

/// `t` without any occurrence of `n`.
pub open spec fn remove_name(t: Seq<Seq<char>>, n: Seq<char>) -> Seq<Seq<char>>
    decreases t.len(),
{
    if t.len() == 0 {
        t
    } else if t.last() == n {
        remove_name(t.drop_last(), n)
    } else {
        remove_name(t.drop_last(), n).push(t.last())
    }
}

/// Binding `name` to `value`: the name becomes tainted when the value is a
/// tainted source or derives from tainted data; otherwise the value must be clean.
pub open spec fn taint_bind(
    fs: Seq<SpecFunctionDef>,
    t: Seq<Seq<char>>,
    name: Seq<char>,
    value: SpecExpr,
) -> Result<Seq<Seq<char>>, Seq<char>> {
    if tainted_source(fs, value) || tainted_prop(t, value) {
        Ok(t.push(name))
    } else {
        match clean_expr(t, value) {
            Some(m) => Err(m),
            None => Ok(t),
        }
    }
}

/// The outcome of requiring an expression to be clean, as a step.
pub open spec fn require_clean(t: Seq<Seq<char>>, e: SpecExpr) -> Result<Seq<Seq<char>>, Seq<char>> {
    match clean_expr(t, e) {
        Some(m) => Err(m),
        None => Ok(t),
    }
}

/// Checking one statement: the error found, or the tainted names after it.
pub open spec fn taint_stmt(fs: Seq<SpecFunctionDef>, t: Seq<Seq<char>>, s: SpecStatement) -> Result<
    Seq<Seq<char>>,
    Seq<char>,
>
    decreases s, 0nat,
{
    match s {
        SpecStatement::Let { name, value } => taint_bind(fs, t, name, value),
        SpecStatement::Const { name, value } => taint_bind(fs, t, name, value),
        SpecStatement::Assign { name, value, .. } => taint_bind(fs, t, name, value),
        SpecStatement::IndexAssign { name, index, value, .. } => if tainted_source(fs, value)
            || tainted_prop(t, value) {
            Ok(t.push(name))
        } else {
            match first_err(clean_expr(t, index), clean_expr(t, value)) {
                Some(m) => Err(m),
                None => Ok(t),
            }
        },
        SpecStatement::Match { expr, arms } => match clean_expr(t, expr) {
            Some(m) => Err(m),
            None => taint_arms(fs, t, arms),
        },
        SpecStatement::If { condition, then_block, else_block } => match clean_expr(t, condition) {
            Some(m) => Err(m),
            None => match taint_block(fs, t, then_block) {
                Err(m) => Err(m),
                Ok(t1) => match else_block {
                    Some(b) => taint_block(fs, t1, b),
                    None => Ok(t1),
                },
            },
        },
        SpecStatement::While { condition, body } => match clean_expr(t, condition) {
            Some(m) => Err(m),
            None => taint_block(fs, t, body),
        },
        SpecStatement::For { start, end, step, body, .. } => match first_err(
            clean_expr(t, start),
            first_err(
                clean_expr(t, end),
                match step {
                    Some(x) => clean_expr(t, x),
                    None => None,
                },
            ),
        ) {
            Some(m) => Err(m),
            None => taint_block(fs, t, body),
        },
        SpecStatement::ScopeBlock { body, .. } => taint_block(fs, t, body),
        SpecStatement::ValidateBlock { target, on_fail, success_scope, .. } => if !t.contains(
            target,
        ) {
            Err(msg_already_clean(target))
        } else {
            match taint_block(fs, t, on_fail) {
                Err(m) => Err(m),
                Ok(_) => match taint_block(fs, remove_name(t, target), success_scope) {
                    Err(m) => Err(m),
                    Ok(_) => Ok(t),
                },
            }
        },
        SpecStatement::ExprStmt(x) => require_clean(t, x),
        SpecStatement::Return(Some(x)) => require_clean(t, x),
        SpecStatement::Return(None) | SpecStatement::Break | SpecStatement::Continue => Ok(t),
    }
}

pub open spec fn taint_stmts(fs: Seq<SpecFunctionDef>, t: Seq<Seq<char>>, s: Seq<SpecStatement>) -> Result<
    Seq<Seq<char>>,
    Seq<char>,
>
    decreases s, 1nat,
{
    if s.len() == 0 {
        Ok(t)
    } else {
        match taint_stmts(fs, t, s.drop_last()) {
            Err(m) => Err(m),
            Ok(t1) => taint_stmt(fs, t1, s.last()),
        }
    }
}

/// Checking a block. Names tainted inside a block stay tainted after it.
pub open spec fn taint_block(fs: Seq<SpecFunctionDef>, t: Seq<Seq<char>>, b: SpecBlock) -> Result<
    Seq<Seq<char>>,
    Seq<char>,
>
    decreases b, 0nat,
{
    taint_stmts(fs, t, b.statements)
}

pub open spec fn taint_arms(fs: Seq<SpecFunctionDef>, t: Seq<Seq<char>>, s: Seq<SpecMatchArm>) -> Result<
    Seq<Seq<char>>,
    Seq<char>,
>
    decreases s, 1nat,
{
    if s.len() == 0 {
        Ok(t)
    } else {
        match taint_arms(fs, t, s.drop_last()) {
            Err(m) => Err(m),
            Ok(t1) => taint_block(fs, t1, s.last().body),
        }
    }
}

/// The names of the parameters of type `Untrusted`, in order.
pub open spec fn untrusted_params(ps: Seq<SpecParam>) -> Seq<Seq<char>>
    decreases ps.len(),
{
    if ps.len() == 0 {
        Seq::empty()
    } else if ps.last().param_type == SpecTypeRef::Untrusted {
        untrusted_params(ps.drop_last()).push(ps.last().name)
    } else {
        untrusted_params(ps.drop_last())
    }
}

/// The error that the taint analysis reports for a function, if any.
pub open spec fn taint_function(fs: Seq<SpecFunctionDef>, f: SpecFunctionDef) -> Option<Seq<char>> {
    match taint_block(fs, untrusted_params(f.params), f.body) {
        Err(m) => Some(m),
        Ok(_) => None,
    }
}

// ───────────────────────── analyzer ─────────────────────────

pub struct TaintAnalyzer<'a> {
    tainted: Vec<String>,
    symbols: &'a SymbolTable,
}

fn tainted_msg(name: &String) -> (r: String)
    ensures
        r@ == msg_tainted(name@),
{
    let mut s = str_to_string("'");
    push_str(&mut s, name.as_str());
    push_str(&mut s, "' lekeli (Untrusted) bir değişken! Kullanmadan önce `validate ");
    push_str(&mut s, name.as_str());
    push_str(&mut s, " { success: { ... } }` bloğu ile doğrulamalısınız.");
    s
}

fn is_tainted_stdlib(name: &String) -> (r: bool)
    ensures
        r == tainted_stdlib(name@),
{
    let n = name.as_str();
    str_eq(n, "Console.read") || str_eq(n, "HTTP.get") || str_eq(n, "input") || str_eq(n, "inputln")
}

impl<'a> TaintAnalyzer<'a> {
    /// The names currently tainted.
    pub closed spec fn tainted_names(&self) -> Seq<Seq<char>> {
        view_strings(self.tainted@)
    }

    pub closed spec fn table(&self) -> &'a SymbolTable {
        self.symbols
    }

    pub fn new(symbols: &'a SymbolTable) -> (r: Self)
        ensures
            r.tainted_names() == Seq::<Seq<char>>::empty(),
            r.table() == symbols,
    {
        TaintAnalyzer { tainted: Vec::new(), symbols }
    }

    /// Checks one function against the program's symbols. It succeeds
    /// exactly when `taint_function` finds no error, and otherwise returns
    /// the error that it finds.
    pub fn check(func: &FunctionDef, symbols: &SymbolTable) -> (r: Result<(), String>)
        ensures
            match r {
                Ok(_) => taint_function(symbols.spec_functions(), view_function(*func)) is None,
                Err(m) => taint_function(symbols.spec_functions(), view_function(*func)) == Some(
                    m@,
                ),
            },
    {
        let mut analyzer = TaintAnalyzer::new(symbols);
        let ghost ps = view_params(func.params@);
        let mut i: usize = 0;
        while i < func.params.len()
            invariant
                i <= func.params.len(),
                ps == view_params(func.params@),
                analyzer.symbols == symbols,
                analyzer.tainted_names() == untrusted_params(ps.take(i as int)),
            decreases func.params.len() - i,
        {
            proof {
                assert(ps.take(i + 1).drop_last() == ps.take(i as int));
                assert(ps.take(i + 1).last() == ps[i as int]);
            }
            let is_untrusted = match func.params[i].param_type {
                TypeRef::Untrusted => true,
                _ => false,
            };
            if is_untrusted {
                let ghost prev = analyzer.tainted_names();
                analyzer.tainted.push(func.params[i].name.clone());
                proof {
                    assert(analyzer.tainted_names() =~= prev.push(func.params@[i as int].name@));
                }
            }
            i += 1;
        }
        proof {
            assert(ps.take(i as int) == ps);
        }
        match analyzer.visit_block(&func.body) {
            Ok(_) => Ok(()),
            Err(m) => Err(m),
        }
    }

    fn contains(&self, name: &String) -> (r: bool)
        ensures
            r == self.tainted_names().contains(name@),
    {
        let mut i: usize = 0;
        while i < self.tainted.len()
            invariant
                i <= self.tainted.len(),
                forall|j: int| 0 <= j < i ==> self.tainted_names()[j] != name@,
            decreases self.tainted.len() - i,
        {
            if self.tainted[i] == *name {
                assert(self.tainted_names()[i as int] == name@);
                return true;
            }
            i += 1;
        }
        false
    }

    /// A copy of the tainted names without `name`.
    fn without(&self, name: &String) -> (r: Vec<String>)
        ensures
            view_strings(r@) == remove_name(self.tainted_names(), name@),
    {
        let ghost t = self.tainted_names();
        let mut r: Vec<String> = Vec::new();
        let mut i: usize = 0;
        while i < self.tainted.len()
            invariant
                i <= self.tainted.len(),
                t == self.tainted_names(),
                t.len() == self.tainted.len(),
                view_strings(r@) == remove_name(t.take(i as int), name@),
            decreases self.tainted.len() - i,
        {
            proof {
                assert(t.take(i + 1).drop_last() == t.take(i as int));
                assert(t.take(i + 1).last() == t[i as int]);
            }
            if self.tainted[i] != *name {
                let ghost prev = r@;
                r.push(self.tainted[i].clone());
                proof {
                    assert(view_strings(r@) =~= view_strings(prev).push(t[i as int]));
                }
            }
            i += 1;
        }
        proof {
            assert(t.take(i as int) == t);
        }
        r
    }

    fn copy_tainted(&self) -> (r: Vec<String>)
        ensures
            view_strings(r@) == self.tainted_names(),
    {
        let mut r: Vec<String> = Vec::new();
        let mut i: usize = 0;
        while i < self.tainted.len()
            invariant
                i <= self.tainted.len(),
                r.len() == i,
                view_strings(r@) == self.tainted_names().take(i as int),
            decreases self.tainted.len() - i,
        {
            let ghost prev = view_strings(r@);
            r.push(self.tainted[i].clone());
            proof {
                let tn = self.tainted_names();
                assert forall|j: int| 0 <= j < i + 1 implies view_strings(r@)[j] == tn.take(i + 1)[j] by {
                    if j < i {
                        assert(prev[j] == tn.take(i as int)[j]);
                    }
                }
                assert(view_strings(r@) =~= tn.take(i + 1));
            }
            i += 1;
        }
        proof {
            assert(self.tainted_names().take(i as int) == self.tainted_names());
        }
        r
    }

    fn visit_block(&mut self, block: &Block) -> (r: Result<(), String>)
        ensures
            final(self).symbols == old(self).symbols,
            match r {
                Ok(_) => taint_block(
                    old(self).symbols.spec_functions(),
                    old(self).tainted_names(),
                    view_block(*block),
                ) == Ok::<Seq<Seq<char>>, Seq<char>>(final(self).tainted_names()),
                Err(m) => taint_block(
                    old(self).symbols.spec_functions(),
                    old(self).tainted_names(),
                    view_block(*block),
                ) == Err::<Seq<Seq<char>>, Seq<char>>(m@),
            },
        decreases block, 0nat,
    {
        let ghost fs = self.symbols.spec_functions();
        let ghost t0 = self.tainted_names();
        let ghost ss = view_stmts(block.statements@);
        proof {
            lemma_view_stmts(block.statements@);
        }
        let mut i: usize = 0;
        while i < block.statements.len()
            invariant
                i <= block.statements.len(),
                self.symbols == old(self).symbols,
                fs == self.symbols.spec_functions(),
                t0 == old(self).tainted_names(),
                ss == view_stmts(block.statements@),
                ss.len() == block.statements.len(),
                forall|j: int| 0 <= j < ss.len() ==> #[trigger] ss[j] == view_stmt(block.statements@[j]),
                taint_stmts(fs, t0, ss.take(i as int)) == Ok::<Seq<Seq<char>>, Seq<char>>(
                    self.tainted_names(),
                ),
            decreases block.statements.len() - i,
        {
            proof {
                assert(decreases_to!(*block => block.statements));
                assert(decreases_to!(block.statements => block.statements[i as int]));
                assert(ss.take(i + 1).drop_last() == ss.take(i as int));
                assert(ss.take(i + 1).last() == ss[i as int]);
            }
            let res = self.visit_stmt(&block.statements[i]);
            match res {
                Err(m) => {
                    proof {
                        lemma_taint_stmts_err_prefix(fs, t0, ss, i as int + 1);
                    }
                    return Err(m);
                },
                Ok(_) => {},
            }
            i += 1;
        }
        proof {
            assert(ss.take(i as int) == ss);
        }
        Ok(())
    }

    /// Binds `name` as `taint_bind` says.
    fn bind(&mut self, name: &String, value: &Expr) -> (r: Result<(), String>)
        ensures
            final(self).symbols == old(self).symbols,
            match r {
                Ok(_) => taint_bind(
                    old(self).symbols.spec_functions(),
                    old(self).tainted_names(),
                    name@,
                    view_expr(*value),
                ) == Ok::<Seq<Seq<char>>, Seq<char>>(final(self).tainted_names()),
                Err(m) => taint_bind(
                    old(self).symbols.spec_functions(),
                    old(self).tainted_names(),
                    name@,
                    view_expr(*value),
                ) == Err::<Seq<Seq<char>>, Seq<char>>(m@),
            },
    {
        if self.is_tainted_source(value) || self.is_tainted_propagation(value) {
            let ghost prev = self.tainted_names();
            self.tainted.push(name.clone());
            proof {
                assert(self.tainted_names() =~= prev.push(name@));
            }
            Ok(())
        } else {
            self.assert_expr_clean(value)
        }
    }

    fn visit_stmt(&mut self, stmt: &Statement) -> (r: Result<(), String>)
        ensures
            final(self).symbols == old(self).symbols,
            *stmt is ValidateBlock ==> final(self).tainted_names() == old(self).tainted_names(),
            match r {
                Ok(_) => taint_stmt(
                    old(self).symbols.spec_functions(),
                    old(self).tainted_names(),
                    view_stmt(*stmt),
                ) == Ok::<Seq<Seq<char>>, Seq<char>>(final(self).tainted_names()),
                Err(m) => taint_stmt(
                    old(self).symbols.spec_functions(),
                    old(self).tainted_names(),
                    view_stmt(*stmt),
                ) == Err::<Seq<Seq<char>>, Seq<char>>(m@),
            },
        decreases stmt, 0nat,
    {
        match stmt {
            Statement::Let(l) => self.bind(&l.name, &l.value),
            Statement::Assign { name, value, .. } => self.bind(name, value),
            Statement::Const { name, value } => self.bind(name, value),
            Statement::IndexAssign { name, index, value, .. } => {
                if self.is_tainted_source(value) || self.is_tainted_propagation(value) {
                    let ghost prev = self.tainted_names();
                    self.tainted.push(name.clone());
                    proof {
                        assert(self.tainted_names() =~= prev.push(name@));
                    }
                } else {
                    self.assert_expr_clean(index)?;
                    self.assert_expr_clean(value)?;
                }
                Ok(())
            },
            Statement::Match { expr, arms } => {
                self.assert_expr_clean(expr)?;
                let ghost fs = self.symbols.spec_functions();
                let ghost t0 = self.tainted_names();
                let ghost va = view_arms(arms@);
                proof {
                    lemma_view_arms(arms@);
                }
                let mut i: usize = 0;
                while i < arms.len()
                    invariant
                        i <= arms.len(),
                        self.symbols == old(self).symbols,
                        fs == self.symbols.spec_functions(),
                        t0 == old(self).tainted_names(),
                        va == view_arms(arms@),
                        va.len() == arms.len(),
                        forall|j: int|
                            0 <= j < va.len() ==> #[trigger] va[j] == (SpecMatchArm {
                                pattern: view_pattern(arms@[j].pattern),
                                body: view_block(arms@[j].body),
                            }),
                        *stmt == (Statement::Match { expr: *expr, arms: *arms }),
                        clean_expr(t0, view_expr(*expr)) is None,
                        taint_arms(fs, t0, va.take(i as int)) == Ok::<Seq<Seq<char>>, Seq<char>>(
                            self.tainted_names(),
                        ),
                    decreases arms.len() - i,
                {
                    proof {
                        assert(decreases_to!(*stmt => (*stmt)->Match_arms));
                        assert(decreases_to!((*stmt)->Match_arms => (*stmt)->Match_arms[i as int]));
                        assert(decreases_to!((*stmt)->Match_arms[i as int] => (*stmt)->Match_arms[i as int].body));
                        assert(va.take(i + 1).drop_last() == va.take(i as int));
                        assert(va.take(i + 1).last() == va[i as int]);
                    }
                    let res = self.visit_block(&arms[i].body);
                    match res {
                        Err(m) => {
                            proof {
                                lemma_taint_arms_err_prefix(fs, t0, va, i as int + 1);
                            }
                            return Err(m);
                        },
                        Ok(_) => {},
                    }
                    i += 1;
                }
                proof {
                    assert(va.take(i as int) == va);
                }
                Ok(())
            },
            Statement::If { condition, then_block, else_block } => {
                self.assert_expr_clean(condition)?;
                self.visit_block(then_block)?;
                if let Some(b) = else_block {
                    self.visit_block(b)?;
                }
                Ok(())
            },
            Statement::While { condition, body } => {
                self.assert_expr_clean(condition)?;
                self.visit_block(body)?;
                Ok(())
            },
            Statement::For { start, end, step, body, .. } => {
                self.assert_expr_clean(start)?;
                self.assert_expr_clean(end)?;
                if let Some(s) = step {
                    self.assert_expr_clean(s)?;
                }
                self.visit_block(body)?;
                Ok(())
            },
            Statement::ScopeBlock { body, .. } => self.visit_block(body),
            Statement::ValidateBlock { target, success_scope, on_fail, .. } => {
                if !self.contains(target) {
                    let mut s = str_to_string("'");
                    push_str(&mut s, target.as_str());
                    push_str(
                        &mut s,
                        "' zaten temiz (trusted) bir değişken. `validate` bloğu yalnızca lekeli (Untrusted) veriler için kullanılabilir.",
                    );
                    return Err(s);
                }
                {
                    let mut fail_analyzer = TaintAnalyzer {
                        tainted: self.copy_tainted(),
                        symbols: self.symbols,
                    };
                    fail_analyzer.visit_block(on_fail)?;
                }
                {
                    let mut success_analyzer = TaintAnalyzer {
                        tainted: self.without(target),
                        symbols: self.symbols,
                    };
                    success_analyzer.visit_block(success_scope)?;
                }
                Ok(())
            },
            Statement::ExprStmt(e) => self.assert_expr_clean(e),
            Statement::Return(Some(e)) => self.assert_expr_clean(e),
            Statement::Return(None) | Statement::Break | Statement::Continue => Ok(()),
        }
    }

    fn is_tainted_source(&self, expr: &Expr) -> (r: bool)
        ensures
            r == tainted_source(self.symbols.spec_functions(), view_expr(*expr)),
    {
        match expr {
            Expr::Call(name, _, _) => {
                if is_tainted_stdlib(name) {
                    return true;
                }
                if let Some(func) = self.symbols.get(name) {
                    if let TypeRef::Untrusted = func.return_type {
                        return true;
                    }
                }
                false
            },
            _ => false,
        }
    }

    fn is_tainted_propagation(&self, expr: &Expr) -> (r: bool)
        ensures
            r == tainted_prop(self.tainted_names(), view_expr(*expr)),
        decreases expr, 0nat,
    {
        match expr {
            Expr::Identifier(name) => self.contains(name),
            Expr::InlineRust(_) => true,
            Expr::Binary(l, BinaryOp::Add, r) => self.is_tainted_propagation(l)
                || self.is_tainted_propagation(r),
            Expr::JsonField(source, _) => self.is_tainted_propagation(source),
            Expr::Index(arr, _) => self.is_tainted_propagation(arr),
            Expr::TupleIndex(inner, _) => self.is_tainted_propagation(inner),
            Expr::Unary(_, inner) => self.is_tainted_propagation(inner),
            Expr::MethodCall(obj, _, _) => self.is_tainted_propagation(obj),
            Expr::StructLiteral(_, fields) => {
                let ghost t = self.tainted_names();
                let ghost vf = view_fields(fields@);
                proof {
                    lemma_view_fields(fields@);
                }
                let mut i: usize = 0;
                while i < fields.len()
                    invariant
                        i <= fields.len(),
                        t == self.tainted_names(),
                        vf == view_fields(fields@),
                        vf.len() == fields.len(),
                        forall|j: int|
                            0 <= j < vf.len() ==> (#[trigger] vf[j]) == (
                                fields@[j].0@,
                                view_expr(fields@[j].1),
                            ),
                        *expr == Expr::StructLiteral(expr->StructLiteral_0, *fields),
                        !fields_prop(t, vf.take(i as int)),
                    decreases fields.len() - i,
                {
                    proof {
                        assert(decreases_to!(*expr => (*expr)->StructLiteral_1));
                        assert(decreases_to!((*expr)->StructLiteral_1 => (*expr)->StructLiteral_1[i as int]));
                        assert(decreases_to!((*expr)->StructLiteral_1[i as int] => (*expr)->StructLiteral_1[i as int].1));
                        assert(vf.take(i + 1).drop_last() == vf.take(i as int));
                        assert(vf.take(i + 1).last() == vf[i as int]);
                    }
                    if self.is_tainted_propagation(&fields[i].1) {
                        proof {
                            lemma_fields_prop_prefix(t, vf, i as int + 1);
                        }
                        return true;
                    }
                    i += 1;
                }
                proof {
                    assert(vf.take(i as int) == vf);
                }
                false
            },
            Expr::FieldAccess(obj, _) => self.is_tainted_propagation(obj),
            _ => false,
        }
    }

    fn assert_exprs_clean(&self, xs: &Vec<Expr>) -> (r: Result<(), String>)
        ensures
            match r {
                Ok(_) => clean_exprs(self.tainted_names(), view_exprs(xs@)) is None,
                Err(m) => clean_exprs(self.tainted_names(), view_exprs(xs@)) == Some(m@),
            },
        decreases xs, 0nat,
    {
        let ghost t = self.tainted_names();
        let ghost vs = view_exprs(xs@);
        proof {
            lemma_view_exprs(xs@);
        }
        let mut i: usize = 0;
        while i < xs.len()
            invariant
                i <= xs.len(),
                t == self.tainted_names(),
                vs == view_exprs(xs@),
                vs.len() == xs.len(),
                forall|j: int| 0 <= j < vs.len() ==> #[trigger] vs[j] == view_expr(xs@[j]),
                clean_exprs(t, vs.take(i as int)) is None,
            decreases xs.len() - i,
        {
            proof {
                assert(decreases_to!(*xs => xs[i as int]));
                assert(vs.take(i + 1).drop_last() == vs.take(i as int));
                assert(vs.take(i + 1).last() == vs[i as int]);
            }
            let res = self.assert_expr_clean(&xs[i]);
            match res {
                Err(m) => {
                    proof {
                        lemma_clean_exprs_err_prefix(t, vs, i as int + 1);
                    }
                    return Err(m);
                },
                Ok(_) => {},
            }
            i += 1;
        }
        proof {
            assert(vs.take(i as int) == vs);
        }
        Ok(())
    }

    fn assert_expr_clean(&self, expr: &Expr) -> (r: Result<(), String>)
        ensures
            match r {
                Ok(_) => clean_expr(self.tainted_names(), view_expr(*expr)) is None,
                Err(m) => clean_expr(self.tainted_names(), view_expr(*expr)) == Some(m@),
            },
        decreases expr, 0nat,
    {
        match expr {
            Expr::Identifier(name) => {
                if self.contains(name) {
                    Err(tainted_msg(name))
                } else {
                    Ok(())
                }
            },
            Expr::Literal(_) => Ok(()),
            Expr::Binary(left, _, right) => {
                self.assert_expr_clean(left)?;
                self.assert_expr_clean(right)
            },
            Expr::Call(_, args, _) => self.assert_exprs_clean(args),
            Expr::Unary(_, inner) => self.assert_expr_clean(inner),
            Expr::Interpolation(parts) => {
                let ghost t = self.tainted_names();
                let ghost vp = view_parts(parts@);
                proof {
                    lemma_view_parts(parts@);
                }
                let mut i: usize = 0;
                while i < parts.len()
                    invariant
                        i <= parts.len(),
                        t == self.tainted_names(),
                        vp == view_parts(parts@),
                        vp.len() == parts.len(),
                        forall|j: int|
                            0 <= j < vp.len() ==> #[trigger] vp[j] == (match parts@[j] {
                                InterpolPart::Lit(x) => SpecInterpolPart::Lit(x@),
                                InterpolPart::Expr(x) => SpecInterpolPart::Expr(view_expr(x)),
                            }),
                        *expr == Expr::Interpolation(*parts),
                        clean_parts(t, vp.take(i as int)) is None,
                    decreases parts.len() - i,
                {
                    proof {
                        assert(vp.take(i + 1).drop_last() == vp.take(i as int));
                        assert(vp.take(i + 1).last() == vp[i as int]);
                    }
                    if let InterpolPart::Expr(e) = &parts[i] {
                        proof {
                            assert(decreases_to!(*expr => (*expr)->Interpolation_0));
                            assert(decreases_to!((*expr)->Interpolation_0 => (*expr)->Interpolation_0[i as int]));
                            assert(decreases_to!((*expr)->Interpolation_0[i as int] => (*expr)->Interpolation_0[i as int]->Expr_0));
                        }
                        let res = self.assert_expr_clean(e);
                        match res {
                            Err(m) => {
                                proof {
                                    lemma_clean_parts_err_prefix(t, vp, i as int + 1);
                                }
                                return Err(m);
                            },
                            Ok(_) => {},
                        }
                    }
                    i += 1;
                }
                proof {
                    assert(vp.take(i as int) == vp);
                }
                Ok(())
            },
            Expr::TupleLiteral(elems) => self.assert_exprs_clean(elems),
            Expr::TupleIndex(inner, _) => self.assert_expr_clean(inner),
            Expr::Spawn(inner) => self.assert_expr_clean(inner),
            Expr::InlineRust(_) => Ok(()),
            Expr::Await(inner) => self.assert_expr_clean(inner),
            Expr::Infra(call) => self.assert_exprs_clean(&call.args),
            Expr::JsonField(source, _) => self.assert_expr_clean(source),
            Expr::ArrayLiteral(elems) => self.assert_exprs_clean(elems),
            Expr::Index(arr, idx) => {
                self.assert_expr_clean(arr)?;
                self.assert_expr_clean(idx)
            },
            Expr::MethodCall(obj, _, args) => {
                self.assert_expr_clean(obj)?;
                self.assert_exprs_clean(args)
            },
            Expr::StructLiteral(_, fields) => {
                let ghost t = self.tainted_names();
                let ghost vf = view_fields(fields@);
                proof {
                    lemma_view_fields(fields@);
                }
                let mut i: usize = 0;
                while i < fields.len()
                    invariant
                        i <= fields.len(),
                        t == self.tainted_names(),
                        vf == view_fields(fields@),
                        vf.len() == fields.len(),
                        forall|j: int|
                            0 <= j < vf.len() ==> (#[trigger] vf[j]) == (
                                fields@[j].0@,
                                view_expr(fields@[j].1),
                            ),
                        *expr == Expr::StructLiteral(expr->StructLiteral_0, *fields),
                        clean_fields(t, vf.take(i as int)) is None,
                    decreases fields.len() - i,
                {
                    proof {
                        assert(decreases_to!(*expr => (*expr)->StructLiteral_1));
                        assert(decreases_to!((*expr)->StructLiteral_1 => (*expr)->StructLiteral_1[i as int]));
                        assert(decreases_to!((*expr)->StructLiteral_1[i as int] => (*expr)->StructLiteral_1[i as int].1));
                        assert(vf.take(i + 1).drop_last() == vf.take(i as int));
                        assert(vf.take(i + 1).last() == vf[i as int]);
                    }
                    let res = self.assert_expr_clean(&fields[i].1);
                    match res {
                        Err(m) => {
                            proof {
                                lemma_clean_fields_err_prefix(t, vf, i as int + 1);
                            }
                            return Err(m);
                        },
                        Ok(_) => {},
                    }
                    i += 1;
                }
                proof {
                    assert(vf.take(i as int) == vf);
                }
                Ok(())
            },
            Expr::FieldAccess(obj, _) => self.assert_expr_clean(obj),
            Expr::Try(e) => self.assert_expr_clean(e),
            Expr::Catch(e, fallback) => {
                self.assert_expr_clean(e)?;
                self.assert_expr_clean(fallback)
            },
        }
    }
}

// ───────────────────────── lemmas ─────────────────────────

proof fn lemma_taint_stmts_err_prefix(
    fs: Seq<SpecFunctionDef>,
    t: Seq<Seq<char>>,
    s: Seq<SpecStatement>,
    k: int,
)
    requires
        0 <= k <= s.len(),
        taint_stmts(fs, t, s.take(k)) is Err,
    ensures
        taint_stmts(fs, t, s) == taint_stmts(fs, t, s.take(k)),
    decreases s.len(),
{
    if k < s.len() {
        assert(s.drop_last().take(k) == s.take(k));
        lemma_taint_stmts_err_prefix(fs, t, s.drop_last(), k);
    } else {
        assert(s.take(k) == s);
    }
}

proof fn lemma_taint_arms_err_prefix(
    fs: Seq<SpecFunctionDef>,
    t: Seq<Seq<char>>,
    s: Seq<SpecMatchArm>,
    k: int,
)
    requires
        0 <= k <= s.len(),
        taint_arms(fs, t, s.take(k)) is Err,
    ensures
        taint_arms(fs, t, s) == taint_arms(fs, t, s.take(k)),
    decreases s.len(),
{
    if k < s.len() {
        assert(s.drop_last().take(k) == s.take(k));
        lemma_taint_arms_err_prefix(fs, t, s.drop_last(), k);
    } else {
        assert(s.take(k) == s);
    }
}

proof fn lemma_fields_prop_prefix(t: Seq<Seq<char>>, s: Seq<(Seq<char>, SpecExpr)>, k: int)
    requires
        0 <= k <= s.len(),
        fields_prop(t, s.take(k)),
    ensures
        fields_prop(t, s),
    decreases s.len(),
{
    if k < s.len() {
        assert(s.drop_last().take(k) == s.take(k));
        lemma_fields_prop_prefix(t, s.drop_last(), k);
    } else {
        assert(s.take(k) == s);
    }
}

proof fn lemma_clean_exprs_err_prefix(t: Seq<Seq<char>>, s: Seq<SpecExpr>, k: int)
    requires
        0 <= k <= s.len(),
        clean_exprs(t, s.take(k)) is Some,
    ensures
        clean_exprs(t, s) == clean_exprs(t, s.take(k)),
    decreases s.len(),
{
    if k < s.len() {
        assert(s.drop_last().take(k) == s.take(k));
        lemma_clean_exprs_err_prefix(t, s.drop_last(), k);
    } else {
        assert(s.take(k) == s);
    }
}

proof fn lemma_clean_parts_err_prefix(t: Seq<Seq<char>>, s: Seq<SpecInterpolPart>, k: int)
    requires
        0 <= k <= s.len(),
        clean_parts(t, s.take(k)) is Some,
    ensures
        clean_parts(t, s) == clean_parts(t, s.take(k)),
    decreases s.len(),
{
    if k < s.len() {
        assert(s.drop_last().take(k) == s.take(k));
        lemma_clean_parts_err_prefix(t, s.drop_last(), k);
    } else {
        assert(s.take(k) == s);
    }
}

proof fn lemma_clean_fields_err_prefix(t: Seq<Seq<char>>, s: Seq<(Seq<char>, SpecExpr)>, k: int)
    requires
        0 <= k <= s.len(),
        clean_fields(t, s.take(k)) is Some,
    ensures
        clean_fields(t, s) == clean_fields(t, s.take(k)),
    decreases s.len(),
{
    if k < s.len() {
        assert(s.drop_last().take(k) == s.take(k));
        lemma_clean_fields_err_prefix(t, s.drop_last(), k);
    } else {
        assert(s.take(k) == s);
    }
}

} // verus!
