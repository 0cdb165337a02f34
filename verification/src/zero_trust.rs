//! The zero-trust guarantee: a function that passes the taint check never
//! uses data from the outside world before validating it.
use vstd::prelude::*;
use crate::analysis::taint::{
    clean_expr,
    clean_exprs,
    clean_fields,
    clean_parts,
    remove_name,
    taint_arms,
    taint_block,
    taint_function,
    taint_stmt,
    taint_stmts,
    tainted_prop,
    tainted_source,
    untrusted_params,
};
use crate::ast::{SpecExpr, SpecFunctionDef, SpecInterpolPart, SpecMatchArm, SpecStatement};

verus! {

// ───────────────────────── where a name occurs ─────────────────────────

/// Whether a name of `t` occurs in `e`.
pub open spec fn mentions(t: Seq<Seq<char>>, e: SpecExpr) -> bool
    decreases e, 0nat,
{
    match e {
        SpecExpr::Identifier(n) => t.contains(n),
        SpecExpr::Literal(_) | SpecExpr::InlineRust(_) => false,
        SpecExpr::Binary(l, _, r) => mentions(t, *l) || mentions(t, *r),
        SpecExpr::Unary(_, x) => mentions(t, *x),
        SpecExpr::Call(_, args, _) => mentions_exprs(t, args),
        SpecExpr::Spawn(x) => mentions(t, *x),
        SpecExpr::Await(x) => mentions(t, *x),
        SpecExpr::Infra(c) => mentions_exprs(t, c.args),
        SpecExpr::JsonField(x, _) => mentions(t, *x),
        SpecExpr::ArrayLiteral(xs) => mentions_exprs(t, xs),
        SpecExpr::Index(a, i) => mentions(t, *a) || mentions(t, *i),
        SpecExpr::TupleLiteral(xs) => mentions_exprs(t, xs),
        SpecExpr::TupleIndex(x, _) => mentions(t, *x),
        SpecExpr::Interpolation(ps) => mentions_parts(t, ps),
        SpecExpr::MethodCall(o, _, args) => mentions(t, *o) || mentions_exprs(t, args),
        SpecExpr::StructLiteral(_, flds) => mentions_fields(t, flds),
        SpecExpr::FieldAccess(o, _) => mentions(t, *o),
        SpecExpr::Try(x) => mentions(t, *x),
        SpecExpr::Catch(x, d) => mentions(t, *x) || mentions(t, *d),
    }
}

pub open spec fn mentions_exprs(t: Seq<Seq<char>>, s: Seq<SpecExpr>) -> bool
    decreases s, 1nat,
{
    s.len() > 0 && (mentions_exprs(t, s.drop_last()) || mentions(t, s.last()))
}

pub open spec fn mentions_parts(t: Seq<Seq<char>>, s: Seq<SpecInterpolPart>) -> bool
    decreases s, 1nat,
{
    s.len() > 0 && (mentions_parts(t, s.drop_last()) || match s.last() {
        SpecInterpolPart::Expr(x) => mentions(t, x),
        SpecInterpolPart::Lit(_) => false,
    })
}

pub open spec fn mentions_fields(t: Seq<Seq<char>>, s: Seq<(Seq<char>, SpecExpr)>) -> bool
    decreases s, 1nat,
{
    s.len() > 0 && (mentions_fields(t, s.drop_last()) || mentions(t, s.last().1))
}

// ───────────────────────── which names are tainted ─────────────────────────

/// A binding of this value taints the bound name: the value is read from a
/// tainted source or derives from tainted data.
pub open spec fn taints(fs: Seq<SpecFunctionDef>, t: Seq<Seq<char>>, value: SpecExpr) -> bool {
    tainted_source(fs, value) || tainted_prop(t, value)
}

/// The tainted names after a statement, starting from `t`: a binding of a
/// tainting value adds its name; names bound in nested blocks stay; a
/// `validate` block leaves the names as they were.
pub open spec fn tainted_after(fs: Seq<SpecFunctionDef>, t: Seq<Seq<char>>, s: SpecStatement) -> Seq<
    Seq<char>,
>
    decreases s, 0nat,
{
    match s {
        SpecStatement::Let { name, value } => if taints(fs, t, value) {
            t.push(name)
        } else {
            t
        },
        SpecStatement::Const { name, value } => if taints(fs, t, value) {
            t.push(name)
        } else {
            t
        },
        SpecStatement::Assign { name, value, .. } => if taints(fs, t, value) {
            t.push(name)
        } else {
            t
        },
        SpecStatement::IndexAssign { name, value, .. } => if taints(fs, t, value) {
            t.push(name)
        } else {
            t
        },
        SpecStatement::Match { arms, .. } => tainted_after_arms(fs, t, arms),
        SpecStatement::If { then_block, else_block, .. } => match else_block {
            Some(b) => tainted_after_stmts(
                fs,
                tainted_after_stmts(fs, t, then_block.statements),
                b.statements,
            ),
            None => tainted_after_stmts(fs, t, then_block.statements),
        },
        SpecStatement::While { body, .. } => tainted_after_stmts(fs, t, body.statements),
        SpecStatement::For { body, .. } => tainted_after_stmts(fs, t, body.statements),
        SpecStatement::ScopeBlock { body, .. } => tainted_after_stmts(fs, t, body.statements),
        _ => t,
    }
}

pub open spec fn tainted_after_stmts(
    fs: Seq<SpecFunctionDef>,
    t: Seq<Seq<char>>,
    s: Seq<SpecStatement>,
) -> Seq<Seq<char>>
    decreases s, 1nat,
{
    if s.len() == 0 {
        t
    } else {
        tainted_after(fs, tainted_after_stmts(fs, t, s.drop_last()), s.last())
    }
}

pub open spec fn tainted_after_arms(fs: Seq<SpecFunctionDef>, t: Seq<Seq<char>>, s: Seq<SpecMatchArm>) -> Seq<
    Seq<char>,
>
    decreases s, 1nat,
{
    if s.len() == 0 {
        t
    } else {
        tainted_after_stmts(fs, tainted_after_arms(fs, t, s.drop_last()), s.last().body.statements)
    }
}

// ───────────────────────── where tainted data is used ─────────────────────────

/// Whether a statement uses a name of `t` (the names tainted where it
/// stands): in a call argument, an operand, the expression of an expression
/// statement, a `return`, a `match`, `if`, `while` or `for` header, an index,
/// or the value of a binding that does not itself taint its name; and inside
/// the `success` block of `validate x`, every tainted name but `x`.
pub open spec fn tainted_use_stmt(fs: Seq<SpecFunctionDef>, t: Seq<Seq<char>>, s: SpecStatement) -> bool
    decreases s, 0nat,
{
    match s {
        SpecStatement::Let { value, .. } => !taints(fs, t, value) && mentions(t, value),
        SpecStatement::Const { value, .. } => !taints(fs, t, value) && mentions(t, value),
        SpecStatement::Assign { value, .. } => !taints(fs, t, value) && mentions(t, value),
        SpecStatement::IndexAssign { index, value, .. } => !taints(fs, t, value) && (mentions(
            t,
            index,
        ) || mentions(t, value)),
        SpecStatement::Match { expr, arms } => mentions(t, expr) || tainted_use_arms(fs, t, arms),
        SpecStatement::If { condition, then_block, else_block } => mentions(t, condition)
            || tainted_use_stmts(fs, t, then_block.statements) || match else_block {
            Some(b) => tainted_use_stmts(
                fs,
                tainted_after_stmts(fs, t, then_block.statements),
                b.statements,
            ),
            None => false,
        },
        SpecStatement::While { condition, body } => mentions(t, condition) || tainted_use_stmts(
            fs,
            t,
            body.statements,
        ),
        SpecStatement::For { start, end, step, body, .. } => mentions(t, start) || mentions(t, end)
            || match step {
            Some(x) => mentions(t, x),
            None => false,
        } || tainted_use_stmts(fs, t, body.statements),
        SpecStatement::ScopeBlock { body, .. } => tainted_use_stmts(fs, t, body.statements),
        SpecStatement::ValidateBlock { target, on_fail, success_scope, .. } => tainted_use_stmts(
            fs,
            t,
            on_fail.statements,
        ) || tainted_use_stmts(fs, remove_name(t, target), success_scope.statements),
        SpecStatement::ExprStmt(x) => mentions(t, x),
        SpecStatement::Return(x) => match x {
            Some(v) => mentions(t, v),
            None => false,
        },
        SpecStatement::Break | SpecStatement::Continue => false,
    }
}

/// Whether one of the statements uses a name tainted where it stands.
pub open spec fn tainted_use_stmts(fs: Seq<SpecFunctionDef>, t: Seq<Seq<char>>, s: Seq<SpecStatement>) -> bool
    decreases s, 1nat,
{
    s.len() > 0 && (tainted_use_stmts(fs, t, s.drop_last()) || tainted_use_stmt(
        fs,
        tainted_after_stmts(fs, t, s.drop_last()),
        s.last(),
    ))
}

pub open spec fn tainted_use_arms(fs: Seq<SpecFunctionDef>, t: Seq<Seq<char>>, s: Seq<SpecMatchArm>) -> bool
    decreases s, 1nat,
{
    s.len() > 0 && (tainted_use_arms(fs, t, s.drop_last()) || tainted_use_stmts(
        fs,
        tainted_after_arms(fs, t, s.drop_last()),
        s.last().body.statements,
    ))
}

/// Whether a function uses tainted data, its `Untrusted` parameters being
/// tainted from the start.
pub open spec fn tainted_use(fs: Seq<SpecFunctionDef>, f: SpecFunctionDef) -> bool {
    tainted_use_stmts(fs, untrusted_params(f.params), f.body.statements)
}

// ───────────────────────── proofs ─────────────────────────

proof fn lemma_mention_found(t: Seq<Seq<char>>, e: SpecExpr)
    requires
        mentions(t, e),
    ensures
        clean_expr(t, e) is Some,
    decreases e, 0nat,
{
    match e {
        SpecExpr::Binary(l, _, r) => {
            if mentions(t, *l) {
                lemma_mention_found(t, *l);
            } else {
                lemma_mention_found(t, *r);
            }
        },
        SpecExpr::Unary(_, x) => lemma_mention_found(t, *x),
        SpecExpr::Call(_, args, _) => lemma_mention_found_exprs(t, args),
        SpecExpr::Spawn(x) => lemma_mention_found(t, *x),
        SpecExpr::Await(x) => lemma_mention_found(t, *x),
        SpecExpr::Infra(c) => lemma_mention_found_exprs(t, c.args),
        SpecExpr::JsonField(x, _) => lemma_mention_found(t, *x),
        SpecExpr::ArrayLiteral(xs) => lemma_mention_found_exprs(t, xs),
        SpecExpr::Index(a, i) => {
            if mentions(t, *a) {
                lemma_mention_found(t, *a);
            } else {
                lemma_mention_found(t, *i);
            }
        },
        SpecExpr::TupleLiteral(xs) => lemma_mention_found_exprs(t, xs),
        SpecExpr::TupleIndex(x, _) => lemma_mention_found(t, *x),
        SpecExpr::Interpolation(ps) => lemma_mention_found_parts(t, ps),
        SpecExpr::MethodCall(o, _, args) => {
            if mentions(t, *o) {
                lemma_mention_found(t, *o);
            } else {
                lemma_mention_found_exprs(t, args);
            }
        },
        SpecExpr::StructLiteral(_, flds) => lemma_mention_found_fields(t, flds),
        SpecExpr::FieldAccess(o, _) => lemma_mention_found(t, *o),
        SpecExpr::Try(x) => lemma_mention_found(t, *x),
        SpecExpr::Catch(x, d) => {
            if mentions(t, *x) {
                lemma_mention_found(t, *x);
            } else {
                lemma_mention_found(t, *d);
            }
        },
        _ => {},
    }
}

proof fn lemma_mention_found_exprs(t: Seq<Seq<char>>, s: Seq<SpecExpr>)
    requires
        mentions_exprs(t, s),
    ensures
        clean_exprs(t, s) is Some,
    decreases s, 1nat,
{
    if mentions_exprs(t, s.drop_last()) {
        lemma_mention_found_exprs(t, s.drop_last());
    } else {
        lemma_mention_found(t, s.last());
    }
}

proof fn lemma_mention_found_parts(t: Seq<Seq<char>>, s: Seq<SpecInterpolPart>)
    requires
        mentions_parts(t, s),
    ensures
        clean_parts(t, s) is Some,
    decreases s, 1nat,
{
    if mentions_parts(t, s.drop_last()) {
        lemma_mention_found_parts(t, s.drop_last());
    } else {
        lemma_mention_found(t, s.last()->Expr_0);
    }
}

proof fn lemma_mention_found_fields(t: Seq<Seq<char>>, s: Seq<(Seq<char>, SpecExpr)>)
    requires
        mentions_fields(t, s),
    ensures
        clean_fields(t, s) is Some,
    decreases s, 1nat,
{
    if mentions_fields(t, s.drop_last()) {
        lemma_mention_found_fields(t, s.drop_last());
    } else {
        lemma_mention_found(t, s.last().1);
    }
}

proof fn lemma_clean_no_mention(t: Seq<Seq<char>>, e: SpecExpr)
    requires
        clean_expr(t, e) is None,
    ensures
        !mentions(t, e),
{
    if mentions(t, e) {
        lemma_mention_found(t, e);
    }
}

proof fn lemma_checked_stmt(fs: Seq<SpecFunctionDef>, t: Seq<Seq<char>>, s: SpecStatement)
    requires
        taint_stmt(fs, t, s) is Ok,
    ensures
        !tainted_use_stmt(fs, t, s),
        taint_stmt(fs, t, s) == Ok::<Seq<Seq<char>>, Seq<char>>(tainted_after(fs, t, s)),
    decreases s, 0nat,
{
    match s {
        SpecStatement::Let { value, .. } => {
            if !taints(fs, t, value) {
                lemma_clean_no_mention(t, value);
            }
        },
        SpecStatement::Const { value, .. } => {
            if !taints(fs, t, value) {
                lemma_clean_no_mention(t, value);
            }
        },
        SpecStatement::Assign { value, .. } => {
            if !taints(fs, t, value) {
                lemma_clean_no_mention(t, value);
            }
        },
        SpecStatement::IndexAssign { index, value, .. } => {
            if !taints(fs, t, value) {
                lemma_clean_no_mention(t, index);
                lemma_clean_no_mention(t, value);
            }
        },
        SpecStatement::Match { expr, arms } => {
            lemma_clean_no_mention(t, expr);
            lemma_checked_arms(fs, t, arms);
        },
        SpecStatement::If { condition, then_block, else_block } => {
            lemma_clean_no_mention(t, condition);
            lemma_checked_stmts(fs, t, then_block.statements);
            match else_block {
                Some(b) => {
                    lemma_checked_stmts(fs, tainted_after_stmts(fs, t, then_block.statements), b.statements);
                },
                None => {},
            }
        },
        SpecStatement::While { condition, body } => {
            lemma_clean_no_mention(t, condition);
            lemma_checked_stmts(fs, t, body.statements);
        },
        SpecStatement::For { start, end, step, body, .. } => {
            lemma_clean_no_mention(t, start);
            lemma_clean_no_mention(t, end);
            match step {
                Some(x) => lemma_clean_no_mention(t, x),
                None => {},
            }
            lemma_checked_stmts(fs, t, body.statements);
        },
        SpecStatement::ScopeBlock { body, .. } => {
            lemma_checked_stmts(fs, t, body.statements);
        },
        SpecStatement::ValidateBlock { target, on_fail, success_scope, .. } => {
            lemma_checked_stmts(fs, t, on_fail.statements);
            lemma_checked_stmts(fs, remove_name(t, target), success_scope.statements);
        },
        SpecStatement::ExprStmt(x) => lemma_clean_no_mention(t, x),
        SpecStatement::Return(x) => match x {
            Some(v) => lemma_clean_no_mention(t, v),
            None => {},
        },
        SpecStatement::Break | SpecStatement::Continue => {},
    }
}

proof fn lemma_checked_stmts(fs: Seq<SpecFunctionDef>, t: Seq<Seq<char>>, s: Seq<SpecStatement>)
    requires
        taint_stmts(fs, t, s) is Ok,
    ensures
        !tainted_use_stmts(fs, t, s),
        taint_stmts(fs, t, s) == Ok::<Seq<Seq<char>>, Seq<char>>(tainted_after_stmts(fs, t, s)),
    decreases s, 1nat,
{
    if s.len() > 0 {
        lemma_checked_stmts(fs, t, s.drop_last());
        lemma_checked_stmt(fs, tainted_after_stmts(fs, t, s.drop_last()), s.last());
    }
}

proof fn lemma_checked_arms(fs: Seq<SpecFunctionDef>, t: Seq<Seq<char>>, s: Seq<SpecMatchArm>)
    requires
        taint_arms(fs, t, s) is Ok,
    ensures
        !tainted_use_arms(fs, t, s),
        taint_arms(fs, t, s) == Ok::<Seq<Seq<char>>, Seq<char>>(tainted_after_arms(fs, t, s)),
    decreases s, 1nat,
{
    if s.len() > 0 {
        lemma_checked_arms(fs, t, s.drop_last());
        let t1 = tainted_after_arms(fs, t, s.drop_last());
        assert(taint_block(fs, t1, s.last().body) == taint_stmts(fs, t1, s.last().body.statements));
        lemma_checked_stmts(fs, t1, s.last().body.statements);
    }
}

/// Zero trust: a function that passes the taint check never uses tainted
/// data (an `Untrusted` parameter, a name bound to what a tainted source
/// returns, or a name bound to a value derived from tainted data) before
/// validating it: no such name stands in a call argument, an operand, an
/// expression statement, a `return`, a `match`, `if`, `while` or `for`
/// header, an index, or the value of a binding that does not itself taint
/// its name, except the validated name inside the `success` block of its
/// own `validate`.
pub proof fn law_zero_trust(fs: Seq<SpecFunctionDef>, f: SpecFunctionDef)
    requires
        taint_function(fs, f) is None,
    ensures
        !tainted_use(fs, f),
{
    lemma_checked_stmts(fs, untrusted_params(f.params), f.body.statements);
}

proof fn lemma_prefix_trans(a: Seq<Seq<char>>, b: Seq<Seq<char>>, c: Seq<Seq<char>>)
    requires
        a.is_prefix_of(b),
        b.is_prefix_of(c),
    ensures
        a.is_prefix_of(c),
{
    assert(a =~= c.subrange(0, a.len() as int)) by {
        assert forall|i: int| 0 <= i < a.len() implies a[i] == c[i] by {
            assert(a[i] == b[i]);
            assert(b[i] == c[i]);
        }
    }
}

proof fn lemma_after_extends(fs: Seq<SpecFunctionDef>, t: Seq<Seq<char>>, s: SpecStatement)
    ensures
        t.is_prefix_of(tainted_after(fs, t, s)),
    decreases s, 0nat,
{
    assert(t =~= t.subrange(0, t.len() as int));
    match s {
        SpecStatement::Let { name, .. } => {
            assert(t =~= t.push(name).subrange(0, t.len() as int));
        },
        SpecStatement::Const { name, .. } => {
            assert(t =~= t.push(name).subrange(0, t.len() as int));
        },
        SpecStatement::Assign { name, .. } => {
            assert(t =~= t.push(name).subrange(0, t.len() as int));
        },
        SpecStatement::IndexAssign { name, .. } => {
            assert(t =~= t.push(name).subrange(0, t.len() as int));
        },
        SpecStatement::Match { arms, .. } => lemma_after_extends_arms(fs, t, arms),
        SpecStatement::If { then_block, else_block, .. } => {
            lemma_after_extends_stmts(fs, t, then_block.statements);
            match else_block {
                Some(b) => {
                    let t1 = tainted_after_stmts(fs, t, then_block.statements);
                    lemma_after_extends_stmts(fs, t1, b.statements);
                    lemma_prefix_trans(t, t1, tainted_after_stmts(fs, t1, b.statements));
                },
                None => {},
            }
        },
        SpecStatement::While { body, .. } => lemma_after_extends_stmts(fs, t, body.statements),
        SpecStatement::For { body, .. } => lemma_after_extends_stmts(fs, t, body.statements),
        SpecStatement::ScopeBlock { body, .. } => lemma_after_extends_stmts(fs, t, body.statements),
        _ => {},
    }
}

proof fn lemma_after_extends_stmts(fs: Seq<SpecFunctionDef>, t: Seq<Seq<char>>, s: Seq<SpecStatement>)
    ensures
        t.is_prefix_of(tainted_after_stmts(fs, t, s)),
    decreases s, 1nat,
{
    if s.len() == 0 {
        assert(t =~= t.subrange(0, t.len() as int));
    } else {
        lemma_after_extends_stmts(fs, t, s.drop_last());
        let t1 = tainted_after_stmts(fs, t, s.drop_last());
        lemma_after_extends(fs, t1, s.last());
        lemma_prefix_trans(t, t1, tainted_after(fs, t1, s.last()));
    }
}

proof fn lemma_after_extends_arms(fs: Seq<SpecFunctionDef>, t: Seq<Seq<char>>, s: Seq<SpecMatchArm>)
    ensures
        t.is_prefix_of(tainted_after_arms(fs, t, s)),
    decreases s, 1nat,
{
    if s.len() == 0 {
        assert(t =~= t.subrange(0, t.len() as int));
    } else {
        lemma_after_extends_arms(fs, t, s.drop_last());
        let t1 = tainted_after_arms(fs, t, s.drop_last());
        lemma_after_extends_stmts(fs, t1, s.last().body.statements);
        lemma_prefix_trans(t, t1, tainted_after_stmts(fs, t1, s.last().body.statements));
    }
}

/// No statement that passes the taint check removes a name from the tainted
/// names: neither `validate` nor assigning a clean value to a tainted name
/// makes it clean after the statement. The names it adds are those of the
/// bindings (outside `validate` blocks) whose value taints them.
pub proof fn law_taint_never_removed(fs: Seq<SpecFunctionDef>, t: Seq<Seq<char>>, s: SpecStatement)
    requires
        taint_stmt(fs, t, s) is Ok,
    ensures
        taint_stmt(fs, t, s) == Ok::<Seq<Seq<char>>, Seq<char>>(tainted_after(fs, t, s)),
        t.is_prefix_of(tainted_after(fs, t, s)),
{
    lemma_checked_stmt(fs, t, s);
    lemma_after_extends(fs, t, s);
}

} // verus!
