//! Deep copies of syntax trees: each copy has the same view as the tree it copies.
use vstd::prelude::*;
use crate::ast::{
    view_attribute,
    view_block,
    view_expr,
    view_exprs,
    view_fields,
    view_function,
    view_literal,
    view_opt_expr,
    view_param,
    view_params,
    view_parts,
    view_pattern,
    view_stmt,
    view_stmts,
    view_arms,
    view_strings,
    view_typeref,
    view_typerefs,
    view_toplevel,
    view_toplevels,
    StructDef,
    TopLevel,
    Attribute,
    Block,
    Expr,
    FunctionDef,
    InfraCall,
    InterpolPart,
    LetStmt,
    Literal,
    MatchArm,
    Param,
    Pattern,
    Statement,
    TypeRef,
};

verus! {

/// The same character; a `char` read through a reference comes back known to
/// be a valid `char`.
fn dup_char(c: char) -> (r: char)
    ensures
        r == c,
{
    c
}

pub fn dup_typeref(t: &TypeRef) -> (r: TypeRef)
    ensures
        view_typeref(r) == view_typeref(*t),
    decreases t, 0nat,
{
    match t {
        TypeRef::Void => TypeRef::Void,
        TypeRef::Integer => TypeRef::Integer,
        TypeRef::Float => TypeRef::Float,
        TypeRef::Bool => TypeRef::Bool,
        TypeRef::Char => TypeRef::Char,
        TypeRef::Byte => TypeRef::Byte,
        TypeRef::String => TypeRef::String,
        TypeRef::Untrusted => TypeRef::Untrusted,
        TypeRef::Result(inner) => TypeRef::Result(Box::new(dup_typeref(inner))),
        TypeRef::Array(inner) => TypeRef::Array(Box::new(dup_typeref(inner))),
        TypeRef::Tuple(ts) => TypeRef::Tuple(dup_typerefs(ts)),
        TypeRef::Custom(n) => TypeRef::Custom(n.clone()),
    }
}

pub fn dup_typerefs(ts: &Vec<TypeRef>) -> (r: Vec<TypeRef>)
    ensures
        view_typerefs(r@) == view_typerefs(ts@),
    decreases ts, 0nat,
{
    let mut r: Vec<TypeRef> = Vec::new();
    let mut i: usize = 0;
    proof {
        assert(view_typerefs(r@) =~= view_typerefs(ts@.take(0)));
    }
    while i < ts.len()
        invariant
            i <= ts.len(),
            view_typerefs(r@) == view_typerefs(ts@.take(i as int)),
        decreases ts.len() - i,
    {
        proof {
            assert(decreases_to!(*ts => ts[i as int]));
            assert(ts@.take(i + 1).drop_last() =~= ts@.take(i as int));
        }
        let t = dup_typeref(&ts[i]);
        proof {
            crate::parser::lemma_view_typerefs_push(r@, t);
        }
        r.push(t);
        i += 1;
    }
    proof {
        assert(ts@.take(i as int) =~= ts@);
    }
    r
}

pub fn dup_param(p: &Param) -> (r: Param)
    ensures
        view_param(r) == view_param(*p),
{
    Param { name: p.name.clone(), param_type: dup_typeref(&p.param_type) }
}

pub fn dup_params(ps: &Vec<Param>) -> (r: Vec<Param>)
    ensures
        view_params(r@) == view_params(ps@),
{
    let mut r: Vec<Param> = Vec::new();
    let mut i: usize = 0;
    while i < ps.len()
        invariant
            i <= ps.len(),
            view_params(r@) == view_params(ps@.take(i as int)),
        decreases ps.len() - i,
    {
        let x = dup_param(&ps[i]);
        proof {
            let a = view_params(r@.push(x));
            let b = view_params(ps@.take(i + 1));
            assert(view_params(r@).len() == i);
            assert forall|j: int| 0 <= j < i + 1 implies a[j] == b[j] by {
                if j < i {
                    assert(view_params(r@)[j] == view_params(ps@.take(i as int))[j]);
                }
            }
            assert(a =~= b);
        }
        r.push(x);
        i += 1;
    }
    proof {
        assert(ps@.take(i as int) =~= ps@);
    }
    r
}

pub fn dup_strings(v: &Vec<String>) -> (r: Vec<String>)
    ensures
        view_strings(r@) == view_strings(v@),
{
    let mut r: Vec<String> = Vec::new();
    let mut i: usize = 0;
    while i < v.len()
        invariant
            i <= v.len(),
            view_strings(r@) == view_strings(v@.take(i as int)),
        decreases v.len() - i,
    {
        let x = v[i].clone();
        proof {
            let a = view_strings(r@.push(x));
            let b = view_strings(v@.take(i + 1));
            assert(view_strings(r@).len() == i);
            assert forall|j: int| 0 <= j < i + 1 implies a[j] == b[j] by {
                if j < i {
                    assert(view_strings(r@)[j] == view_strings(v@.take(i as int))[j]);
                }
            }
            assert(a =~= b);
        }
        r.push(x);
        i += 1;
    }
    proof {
        assert(v@.take(i as int) =~= v@);
    }
    r
}

pub fn dup_literal(l: &Literal) -> (r: Literal)
    ensures
        view_literal(r) == view_literal(*l),
{
    match l {
        Literal::Int(i) => Literal::Int(*i),
        Literal::Float(t) => Literal::Float(t.clone()),
        Literal::Str(s) => Literal::Str(s.clone()),
        Literal::Bool(b) => Literal::Bool(*b),
        Literal::Char(c) => Literal::Char(dup_char(*c)),
    }
}

pub fn dup_expr(e: &Expr) -> (r: Expr)
    ensures
        view_expr(r) == view_expr(*e),
    decreases e, 0nat,
{
    match e {
        Expr::Identifier(n) => Expr::Identifier(n.clone()),
        Expr::Literal(l) => Expr::Literal(dup_literal(l)),
        Expr::Binary(l, op, r) => Expr::Binary(Box::new(dup_expr(l)), *op, Box::new(dup_expr(r))),
        Expr::Unary(op, x) => Expr::Unary(*op, Box::new(dup_expr(x))),
        Expr::Call(n, args, aw) => Expr::Call(n.clone(), dup_exprs(args), *aw),
        Expr::Spawn(x) => Expr::Spawn(Box::new(dup_expr(x))),
        Expr::Await(x) => Expr::Await(Box::new(dup_expr(x))),
        Expr::InlineRust(code) => Expr::InlineRust(code.clone()),
        Expr::Infra(c) => Expr::Infra(
            InfraCall {
                service: c.service.clone(),
                method: c.method.clone(),
                args: dup_exprs(&c.args),
                config: c.config,
            },
        ),
        Expr::JsonField(x, k) => Expr::JsonField(Box::new(dup_expr(x)), k.clone()),
        Expr::ArrayLiteral(xs) => Expr::ArrayLiteral(dup_exprs(xs)),
        Expr::Index(a, i) => Expr::Index(Box::new(dup_expr(a)), Box::new(dup_expr(i))),
        Expr::TupleLiteral(xs) => Expr::TupleLiteral(dup_exprs(xs)),
        Expr::TupleIndex(x, i) => Expr::TupleIndex(Box::new(dup_expr(x)), *i),
        Expr::Interpolation(ps) => Expr::Interpolation(dup_parts(ps)),
        Expr::MethodCall(o, m, args) => Expr::MethodCall(
            Box::new(dup_expr(o)),
            m.clone(),
            dup_exprs(args),
        ),
        Expr::StructLiteral(n, fs) => Expr::StructLiteral(n.clone(), dup_fields(fs)),
        Expr::FieldAccess(o, f) => Expr::FieldAccess(Box::new(dup_expr(o)), f.clone()),
        Expr::Try(x) => Expr::Try(Box::new(dup_expr(x))),
        Expr::Catch(x, d) => Expr::Catch(Box::new(dup_expr(x)), Box::new(dup_expr(d))),
    }
}

pub fn dup_exprs(xs: &Vec<Expr>) -> (r: Vec<Expr>)
    ensures
        view_exprs(r@) == view_exprs(xs@),
    decreases xs, 0nat,
{
    let mut r: Vec<Expr> = Vec::new();
    let mut i: usize = 0;
    proof {
        assert(view_exprs(r@) =~= view_exprs(xs@.take(0)));
    }
    while i < xs.len()
        invariant
            i <= xs.len(),
            view_exprs(r@) == view_exprs(xs@.take(i as int)),
        decreases xs.len() - i,
    {
        proof {
            assert(decreases_to!(*xs => xs[i as int]));
            assert(xs@.take(i + 1).drop_last() =~= xs@.take(i as int));
        }
        let x = dup_expr(&xs[i]);
        proof {
            crate::parser::lemma_view_exprs_push(r@, x);
        }
        r.push(x);
        i += 1;
    }
    proof {
        assert(xs@.take(i as int) =~= xs@);
    }
    r
}

pub fn dup_parts(ps: &Vec<InterpolPart>) -> (r: Vec<InterpolPart>)
    ensures
        view_parts(r@) == view_parts(ps@),
    decreases ps, 0nat,
{
    let mut r: Vec<InterpolPart> = Vec::new();
    let mut i: usize = 0;
    proof {
        assert(view_parts(r@) =~= view_parts(ps@.take(0)));
    }
    while i < ps.len()
        invariant
            i <= ps.len(),
            view_parts(r@) == view_parts(ps@.take(i as int)),
        decreases ps.len() - i,
    {
        proof {
            assert(decreases_to!(*ps => ps[i as int]));
            assert(ps@.take(i + 1).drop_last() =~= ps@.take(i as int));
        }
        let x = match &ps[i] {
            InterpolPart::Lit(t) => InterpolPart::Lit(t.clone()),
            InterpolPart::Expr(e) => {
                proof {
                    assert(decreases_to!(ps[i as int] => ps[i as int]->Expr_0));
                }
                InterpolPart::Expr(dup_expr(e))
            },
        };
        proof {
            crate::parser::lemma_view_parts_push(r@, x);
        }
        r.push(x);
        i += 1;
    }
    proof {
        assert(ps@.take(i as int) =~= ps@);
    }
    r
}

pub fn dup_fields(fs: &Vec<(String, Expr)>) -> (r: Vec<(String, Expr)>)
    ensures
        view_fields(r@) == view_fields(fs@),
    decreases fs, 0nat,
{
    let mut r: Vec<(String, Expr)> = Vec::new();
    let mut i: usize = 0;
    proof {
        assert(view_fields(r@) =~= view_fields(fs@.take(0)));
    }
    while i < fs.len()
        invariant
            i <= fs.len(),
            view_fields(r@) == view_fields(fs@.take(i as int)),
        decreases fs.len() - i,
    {
        proof {
            assert(decreases_to!(*fs => fs[i as int]));
            assert(decreases_to!(fs[i as int] => fs[i as int].1));
            assert(fs@.take(i + 1).drop_last() =~= fs@.take(i as int));
        }
        let x = (fs[i].0.clone(), dup_expr(&fs[i].1));
        proof {
            assert(r@.push(x).drop_last() =~= r@);
        }
        r.push(x);
        i += 1;
    }
    proof {
        assert(fs@.take(i as int) =~= fs@);
    }
    r
}

pub fn dup_opt_expr(e: &Option<Expr>) -> (r: Option<Expr>)
    ensures
        view_opt_expr(r) == view_opt_expr(*e),
{
    match e {
        Some(x) => Some(dup_expr(x)),
        None => None,
    }
}

pub fn dup_pattern(p: &Pattern) -> (r: Pattern)
    ensures
        view_pattern(r) == view_pattern(*p),
{
    match p {
        Pattern::Literal(l) => Pattern::Literal(dup_literal(l)),
        Pattern::Identifier(n) => Pattern::Identifier(n.clone()),
        Pattern::Wildcard => Pattern::Wildcard,
    }
}

pub fn dup_stmt(s: &Statement) -> (r: Statement)
    ensures
        view_stmt(r) == view_stmt(*s),
    decreases s, 0nat,
{
    match s {
        Statement::Let(l) => Statement::Let(LetStmt { name: l.name.clone(), value: dup_expr(&l.value) }),
        Statement::Const { name, value } => Statement::Const {
            name: name.clone(),
            value: dup_expr(value),
        },
        Statement::Assign { name, op, value } => Statement::Assign {
            name: name.clone(),
            op: *op,
            value: dup_expr(value),
        },
        Statement::IndexAssign { name, index, op, value } => Statement::IndexAssign {
            name: name.clone(),
            index: dup_expr(index),
            op: *op,
            value: dup_expr(value),
        },
        Statement::Match { expr, arms } => Statement::Match {
            expr: dup_expr(expr),
            arms: dup_arms(arms),
        },
        Statement::If { condition, then_block, else_block } => Statement::If {
            condition: dup_expr(condition),
            then_block: dup_block(then_block),
            else_block: match else_block {
                Some(b) => Some(dup_block(b)),
                None => None,
            },
        },
        Statement::While { condition, body } => Statement::While {
            condition: dup_expr(condition),
            body: dup_block(body),
        },
        Statement::For { var, start, end, step, body } => Statement::For {
            var: var.clone(),
            start: dup_expr(start),
            end: dup_expr(end),
            step: dup_opt_expr(step),
            body: dup_block(body),
        },
        Statement::ScopeBlock { name, body } => Statement::ScopeBlock {
            name: name.clone(),
            body: dup_block(body),
        },
        Statement::ValidateBlock { target, schema, on_fail, success_scope } =>
            Statement::ValidateBlock {
            target: target.clone(),
            schema: schema.clone(),
            on_fail: Box::new(dup_block(on_fail)),
            success_scope: Box::new(dup_block(success_scope)),
        },
        Statement::ExprStmt(e) => Statement::ExprStmt(dup_expr(e)),
        Statement::Return(e) => Statement::Return(dup_opt_expr(e)),
        Statement::Break => Statement::Break,
        Statement::Continue => Statement::Continue,
    }
}

pub fn dup_block(b: &Block) -> (r: Block)
    ensures
        view_block(r) == view_block(*b),
    decreases b, 0nat,
{
    let mut v: Vec<Statement> = Vec::new();
    let mut i: usize = 0;
    proof {
        assert(view_stmts(v@) =~= view_stmts(b.statements@.take(0)));
    }
    while i < b.statements.len()
        invariant
            i <= b.statements.len(),
            view_stmts(v@) == view_stmts(b.statements@.take(i as int)),
        decreases b.statements.len() - i,
    {
        proof {
            assert(decreases_to!(*b => b.statements));
            assert(decreases_to!(b.statements => b.statements[i as int]));
            assert(b.statements@.take(i + 1).drop_last() =~= b.statements@.take(i as int));
        }
        let x = dup_stmt(&b.statements[i]);
        proof {
            crate::parser::lemma_view_stmts_push(v@, x);
        }
        v.push(x);
        i += 1;
    }
    proof {
        assert(b.statements@.take(i as int) =~= b.statements@);
    }
    Block { statements: v }
}

pub fn dup_arms(arms: &Vec<MatchArm>) -> (r: Vec<MatchArm>)
    ensures
        view_arms(r@) == view_arms(arms@),
    decreases arms, 0nat,
{
    let mut v: Vec<MatchArm> = Vec::new();
    let mut i: usize = 0;
    proof {
        assert(view_arms(v@) =~= view_arms(arms@.take(0)));
    }
    while i < arms.len()
        invariant
            i <= arms.len(),
            view_arms(v@) == view_arms(arms@.take(i as int)),
        decreases arms.len() - i,
    {
        proof {
            assert(decreases_to!(*arms => arms[i as int]));
            assert(decreases_to!(arms[i as int] => arms[i as int].body));
            assert(arms@.take(i + 1).drop_last() =~= arms@.take(i as int));
        }
        let x = MatchArm { pattern: dup_pattern(&arms[i].pattern), body: dup_block(&arms[i].body) };
        proof {
            assert(v@.push(x).drop_last() =~= v@);
        }
        v.push(x);
        i += 1;
    }
    proof {
        assert(arms@.take(i as int) =~= arms@);
    }
    v
}

pub fn dup_attribute(a: &Attribute) -> (r: Attribute)
    ensures
        view_attribute(r) == view_attribute(*a),
{
    Attribute { name: a.name.clone(), args: dup_strings(&a.args) }
}

pub fn dup_function(f: &FunctionDef) -> (r: FunctionDef)
    ensures
        view_function(r) == view_function(*f),
{
    let mut attrs: Vec<Attribute> = Vec::new();
    let mut i: usize = 0;
    while i < f.attributes.len()
        invariant
            i <= f.attributes.len(),
            attrs@.map_values(|a: Attribute| view_attribute(a)) == f.attributes@.take(
                i as int,
            ).map_values(|a: Attribute| view_attribute(a)),
        decreases f.attributes.len() - i,
    {
        let x = dup_attribute(&f.attributes[i]);
        proof {
            let old_v = attrs@.map_values(|a: Attribute| view_attribute(a));
            let a = attrs@.push(x).map_values(|a: Attribute| view_attribute(a));
            let b = f.attributes@.take(i + 1).map_values(|a: Attribute| view_attribute(a));
            assert(old_v.len() == i);
            assert forall|j: int| 0 <= j < i + 1 implies a[j] == b[j] by {
                if j < i {
                    assert(old_v[j] == f.attributes@.take(i as int).map_values(
                        |a: Attribute| view_attribute(a),
                    )[j]);
                }
            }
            assert(a =~= b);
        }
        attrs.push(x);
        i += 1;
    }
    proof {
        assert(f.attributes@.take(i as int) =~= f.attributes@);
    }
    FunctionDef {
        attributes: attrs,
        name: f.name.clone(),
        purity: f.purity,
        params: dup_params(&f.params),
        return_type: dup_typeref(&f.return_type),
        body: dup_block(&f.body),
    }
}


pub fn dup_toplevel(t: &TopLevel) -> (r: TopLevel)
    ensures
        view_toplevel(r) == view_toplevel(*t),
    decreases t, 0nat,
{
    match t {
        TopLevel::Function(f) => TopLevel::Function(dup_function(f)),
        TopLevel::Struct(d) => TopLevel::Struct(
            StructDef { name: d.name.clone(), fields: dup_params(&d.fields) },
        ),
        TopLevel::Import(p) => TopLevel::Import(dup_strings(p)),
        TopLevel::Module(n, items) => TopLevel::Module(n.clone(), dup_toplevels(items)),
    }
}

pub proof fn lemma_view_toplevels_push(v: Seq<TopLevel>, x: TopLevel)
    ensures
        view_toplevels(v.push(x)) == view_toplevels(v).push(view_toplevel(x)),
{
    assert(v.push(x).drop_last() =~= v);
}

pub fn dup_toplevels(items: &Vec<TopLevel>) -> (r: Vec<TopLevel>)
    ensures
        view_toplevels(r@) == view_toplevels(items@),
    decreases items, 0nat,
{
    let mut r: Vec<TopLevel> = Vec::new();
    let mut i: usize = 0;
    proof {
        assert(view_toplevels(r@) =~= view_toplevels(items@.take(0)));
    }
    while i < items.len()
        invariant
            i <= items.len(),
            view_toplevels(r@) == view_toplevels(items@.take(i as int)),
        decreases items.len() - i,
    {
        proof {
            assert(decreases_to!(*items => items[i as int]));
            assert(items@.take(i + 1).drop_last() =~= items@.take(i as int));
        }
        let x = dup_toplevel(&items[i]);
        proof {
            lemma_view_toplevels_push(r@, x);
        }
        r.push(x);
        i += 1;
    }
    proof {
        assert(items@.take(i as int) =~= items@);
    }
    r
}

} // verus!
