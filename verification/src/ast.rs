//! The abstract syntax tree of Zet programs, together with its mathematical
//! model: every executable node has a view in which strings are `Seq<char>`
//! and child lists are `Seq`s.
use vstd::prelude::*;

verus! {

// ───────────────────────── executable syntax tree ─────────────────────────

#[derive(Debug)]
pub enum TypeRef {
    Void,
    Integer,
    Float,
    Bool,
    Char,
    Byte,
    String,
    Untrusted,
    Result(Box<TypeRef>),
    Array(Box<TypeRef>),
    Tuple(Vec<TypeRef>),
    Custom(String),
}

#[derive(Debug)]
pub struct Param {
    pub name: String,
    pub param_type: TypeRef,
}

#[derive(Debug, Clone, Copy, PartialEq, Eq, Structural)]
pub enum BinaryOp {
    Add,
    Sub,
    Mul,
    Div,
    Mod,
    Eq,
    Neq,
    Gt,
    Lt,
    Gte,
    Lte,
    And,
    Or,
    BitAnd,
    BitOr,
    BitXor,
    Shl,
    Shr,
}

#[derive(Debug, Clone, Copy, PartialEq, Eq, Structural)]
pub enum UnaryOp {
    Not,
    Neg,
}

/// A literal. A floating-point literal is kept as the decimal text it was
/// written with (`digits.digits`).
#[derive(Debug)]
pub enum Literal {
    Int(i64),
    Float(String),
    Str(String),
    Bool(bool),
    Char(char),
}

/// One part of an interpolated string: `"text ${expr} text"`.
#[derive(Debug)]
pub enum InterpolPart {
    Lit(String),
    Expr(Expr),
}

#[derive(Debug)]
pub enum Pattern {
    Literal(Literal),
    Identifier(String),
    Wildcard,
}

#[derive(Debug)]
pub struct MatchArm {
    pub pattern: Pattern,
    pub body: Block,
}

#[derive(Debug, Clone, Copy, PartialEq, Eq, Structural)]
pub struct InfraConfig {
    pub timeout_ms: u64,
}

#[derive(Debug)]
pub struct InfraCall {
    pub service: String,
    pub method: String,
    pub args: Vec<Expr>,
    pub config: InfraConfig,
}

#[derive(Debug)]
pub enum Expr {
    Identifier(String),
    Literal(Literal),
    Binary(Box<Expr>, BinaryOp, Box<Expr>),
    Unary(UnaryOp, Box<Expr>),
    /// `Call(name, args, awaited)`: `awaited` tells whether the `call` keyword was written.
    Call(String, Vec<Expr>, bool),
    Spawn(Box<Expr>),
    Await(Box<Expr>),
    InlineRust(String),
    Infra(InfraCall),
    JsonField(Box<Expr>, String),
    ArrayLiteral(Vec<Expr>),
    Index(Box<Expr>, Box<Expr>),
    TupleLiteral(Vec<Expr>),
    TupleIndex(Box<Expr>, usize),
    Interpolation(Vec<InterpolPart>),
    MethodCall(Box<Expr>, String, Vec<Expr>),
    StructLiteral(String, Vec<(String, Expr)>),
    FieldAccess(Box<Expr>, String),
    Try(Box<Expr>),
    Catch(Box<Expr>, Box<Expr>),
}

#[derive(Debug)]
pub struct LetStmt {
    pub name: String,
    pub value: Expr,
}

#[derive(Debug, Clone, Copy, PartialEq, Eq, Structural)]
pub enum AssignOp {
    Assign,
    AddAssign,
    SubAssign,
    MulAssign,
    DivAssign,
    ModAssign,
}

#[derive(Debug)]
pub enum Statement {
    Let(LetStmt),
    Const { name: String, value: Expr },
    Assign { name: String, op: AssignOp, value: Expr },
    IndexAssign { name: String, index: Expr, op: AssignOp, value: Expr },
    Match { expr: Expr, arms: Vec<MatchArm> },
    If { condition: Expr, then_block: Block, else_block: Option<Block> },
    While { condition: Expr, body: Block },
    For { var: String, start: Expr, end: Expr, step: Option<Expr>, body: Block },
    ScopeBlock { name: String, body: Block },
    ValidateBlock { target: String, schema: String, on_fail: Box<Block>, success_scope: Box<Block> },
    ExprStmt(Expr),
    Return(Option<Expr>),
    Break,
    Continue,
}

#[derive(Debug)]
pub struct Block {
    pub statements: Vec<Statement>,
}

#[derive(Debug, Clone, Copy, PartialEq, Eq, Structural)]
pub enum Purity {
    Deterministic,
    Nondeterministic,
}

#[derive(Debug)]
pub struct Attribute {
    pub name: String,
    pub args: Vec<String>,
}

#[derive(Debug)]
pub struct FunctionDef {
    pub attributes: Vec<Attribute>,
    pub name: String,
    pub purity: Purity,
    pub params: Vec<Param>,
    pub return_type: TypeRef,
    pub body: Block,
}

#[derive(Debug)]
pub struct StructDef {
    pub name: String,
    pub fields: Vec<Param>,
}

#[derive(Debug)]
pub enum TopLevel {
    Function(FunctionDef),
    Struct(StructDef),
    Import(Vec<String>),
    Module(String, Vec<TopLevel>),
}

// ───────────────────────── mathematical model ─────────────────────────

pub enum SpecTypeRef {
    Void,
    Integer,
    Float,
    Bool,
    Char,
    Byte,
    String,
    Untrusted,
    Result(Box<SpecTypeRef>),
    Array(Box<SpecTypeRef>),
    Tuple(Seq<SpecTypeRef>),
    Custom(Seq<char>),
}

pub struct SpecParam {
    pub name: Seq<char>,
    pub param_type: SpecTypeRef,
}

pub enum SpecLiteral {
    Int(i64),
    Float(Seq<char>),
    Str(Seq<char>),
    Bool(bool),
    Char(char),
}

pub enum SpecInterpolPart {
    Lit(Seq<char>),
    Expr(SpecExpr),
}

pub enum SpecPattern {
    Literal(SpecLiteral),
    Identifier(Seq<char>),
    Wildcard,
}

pub struct SpecInfraCall {
    pub service: Seq<char>,
    pub method: Seq<char>,
    pub args: Seq<SpecExpr>,
    pub config: InfraConfig,
}

pub enum SpecExpr {
    Identifier(Seq<char>),
    Literal(SpecLiteral),
    Binary(Box<SpecExpr>, BinaryOp, Box<SpecExpr>),
    Unary(UnaryOp, Box<SpecExpr>),
    Call(Seq<char>, Seq<SpecExpr>, bool),
    Spawn(Box<SpecExpr>),
    Await(Box<SpecExpr>),
    InlineRust(Seq<char>),
    Infra(SpecInfraCall),
    JsonField(Box<SpecExpr>, Seq<char>),
    ArrayLiteral(Seq<SpecExpr>),
    Index(Box<SpecExpr>, Box<SpecExpr>),
    TupleLiteral(Seq<SpecExpr>),
    TupleIndex(Box<SpecExpr>, usize),
    Interpolation(Seq<SpecInterpolPart>),
    MethodCall(Box<SpecExpr>, Seq<char>, Seq<SpecExpr>),
    StructLiteral(Seq<char>, Seq<(Seq<char>, SpecExpr)>),
    FieldAccess(Box<SpecExpr>, Seq<char>),
    Try(Box<SpecExpr>),
    Catch(Box<SpecExpr>, Box<SpecExpr>),
}

pub struct SpecMatchArm {
    pub pattern: SpecPattern,
    pub body: SpecBlock,
}

pub enum SpecStatement {
    Let { name: Seq<char>, value: SpecExpr },
    Const { name: Seq<char>, value: SpecExpr },
    Assign { name: Seq<char>, op: AssignOp, value: SpecExpr },
    IndexAssign { name: Seq<char>, index: SpecExpr, op: AssignOp, value: SpecExpr },
    Match { expr: SpecExpr, arms: Seq<SpecMatchArm> },
    If { condition: SpecExpr, then_block: SpecBlock, else_block: Option<SpecBlock> },
    While { condition: SpecExpr, body: SpecBlock },
    For {
        var: Seq<char>,
        start: SpecExpr,
        end: SpecExpr,
        step: Option<SpecExpr>,
        body: SpecBlock,
    },
    ScopeBlock { name: Seq<char>, body: SpecBlock },
    ValidateBlock {
        target: Seq<char>,
        schema: Seq<char>,
        on_fail: SpecBlock,
        success_scope: SpecBlock,
    },
    ExprStmt(SpecExpr),
    Return(Option<SpecExpr>),
    Break,
    Continue,
}

pub struct SpecBlock {
    pub statements: Seq<SpecStatement>,
}

pub struct SpecAttribute {
    pub name: Seq<char>,
    pub args: Seq<Seq<char>>,
}

pub struct SpecFunctionDef {
    pub attributes: Seq<SpecAttribute>,
    pub name: Seq<char>,
    pub purity: Purity,
    pub params: Seq<SpecParam>,
    pub return_type: SpecTypeRef,
    pub body: SpecBlock,
}

pub struct SpecStructDef {
    pub name: Seq<char>,
    pub fields: Seq<SpecParam>,
}

pub enum SpecTopLevel {
    Function(SpecFunctionDef),
    Struct(SpecStructDef),
    Import(Seq<Seq<char>>),
    Module(Seq<char>, Seq<SpecTopLevel>),
}

// ───────────────────────── views ─────────────────────────

pub open spec fn view_typeref(t: TypeRef) -> SpecTypeRef
    decreases t, 0nat,
{
    match t {
        TypeRef::Void => SpecTypeRef::Void,
        TypeRef::Integer => SpecTypeRef::Integer,
        TypeRef::Float => SpecTypeRef::Float,
        TypeRef::Bool => SpecTypeRef::Bool,
        TypeRef::Char => SpecTypeRef::Char,
        TypeRef::Byte => SpecTypeRef::Byte,
        TypeRef::String => SpecTypeRef::String,
        TypeRef::Untrusted => SpecTypeRef::Untrusted,
        TypeRef::Result(inner) => SpecTypeRef::Result(Box::new(view_typeref(*inner))),
        TypeRef::Array(inner) => SpecTypeRef::Array(Box::new(view_typeref(*inner))),
        TypeRef::Tuple(ts) => SpecTypeRef::Tuple(view_typerefs(ts@)),
        TypeRef::Custom(n) => SpecTypeRef::Custom(n@),
    }
}

pub open spec fn view_typerefs(s: Seq<TypeRef>) -> Seq<SpecTypeRef>
    decreases s, 1nat,
{
    if s.len() == 0 {
        Seq::empty()
    } else {
        view_typerefs(s.drop_last()).push(view_typeref(s.last()))
    }
}

pub open spec fn view_param(p: Param) -> SpecParam {
    SpecParam { name: p.name@, param_type: view_typeref(p.param_type) }
}

pub open spec fn view_params(s: Seq<Param>) -> Seq<SpecParam> {
    s.map_values(|p: Param| view_param(p))
}

pub open spec fn view_strings(s: Seq<String>) -> Seq<Seq<char>> {
    s.map_values(|x: String| x@)
}

pub open spec fn view_literal(l: Literal) -> SpecLiteral {
    match l {
        Literal::Int(i) => SpecLiteral::Int(i),
        Literal::Float(t) => SpecLiteral::Float(t@),
        Literal::Str(s) => SpecLiteral::Str(s@),
        Literal::Bool(b) => SpecLiteral::Bool(b),
        Literal::Char(c) => SpecLiteral::Char(c),
    }
}

pub open spec fn view_pattern(p: Pattern) -> SpecPattern {
    match p {
        Pattern::Literal(l) => SpecPattern::Literal(view_literal(l)),
        Pattern::Identifier(n) => SpecPattern::Identifier(n@),
        Pattern::Wildcard => SpecPattern::Wildcard,
    }
}

pub open spec fn view_expr(e: Expr) -> SpecExpr
    decreases e, 0nat,
{
    match e {
        Expr::Identifier(n) => SpecExpr::Identifier(n@),
        Expr::Literal(l) => SpecExpr::Literal(view_literal(l)),
        Expr::Binary(l, op, r) => SpecExpr::Binary(
            Box::new(view_expr(*l)),
            op,
            Box::new(view_expr(*r)),
        ),
        Expr::Unary(op, x) => SpecExpr::Unary(op, Box::new(view_expr(*x))),
        Expr::Call(n, args, aw) => SpecExpr::Call(n@, view_exprs(args@), aw),
        Expr::Spawn(x) => SpecExpr::Spawn(Box::new(view_expr(*x))),
        Expr::Await(x) => SpecExpr::Await(Box::new(view_expr(*x))),
        Expr::InlineRust(code) => SpecExpr::InlineRust(code@),
        Expr::Infra(c) => SpecExpr::Infra(
            SpecInfraCall {
                service: c.service@,
                method: c.method@,
                args: view_exprs(c.args@),
                config: c.config,
            },
        ),
        Expr::JsonField(x, k) => SpecExpr::JsonField(Box::new(view_expr(*x)), k@),
        Expr::ArrayLiteral(xs) => SpecExpr::ArrayLiteral(view_exprs(xs@)),
        Expr::Index(a, i) => SpecExpr::Index(Box::new(view_expr(*a)), Box::new(view_expr(*i))),
        Expr::TupleLiteral(xs) => SpecExpr::TupleLiteral(view_exprs(xs@)),
        Expr::TupleIndex(x, i) => SpecExpr::TupleIndex(Box::new(view_expr(*x)), i),
        Expr::Interpolation(ps) => SpecExpr::Interpolation(view_parts(ps@)),
        Expr::MethodCall(o, m, args) => SpecExpr::MethodCall(
            Box::new(view_expr(*o)),
            m@,
            view_exprs(args@),
        ),
        Expr::StructLiteral(n, fs) => SpecExpr::StructLiteral(n@, view_fields(fs@)),
        Expr::FieldAccess(o, f) => SpecExpr::FieldAccess(Box::new(view_expr(*o)), f@),
        Expr::Try(x) => SpecExpr::Try(Box::new(view_expr(*x))),
        Expr::Catch(x, d) => SpecExpr::Catch(Box::new(view_expr(*x)), Box::new(view_expr(*d))),
    }
}

pub open spec fn view_exprs(s: Seq<Expr>) -> Seq<SpecExpr>
    decreases s, 1nat,
{
    if s.len() == 0 {
        Seq::empty()
    } else {
        view_exprs(s.drop_last()).push(view_expr(s.last()))
    }
}

pub open spec fn view_parts(s: Seq<InterpolPart>) -> Seq<SpecInterpolPart>
    decreases s, 1nat,
{
    if s.len() == 0 {
        Seq::empty()
    } else {
        let p = match s.last() {
            InterpolPart::Lit(t) => SpecInterpolPart::Lit(t@),
            InterpolPart::Expr(x) => SpecInterpolPart::Expr(view_expr(x)),
        };
        view_parts(s.drop_last()).push(p)
    }
}

pub open spec fn view_fields(s: Seq<(String, Expr)>) -> Seq<(Seq<char>, SpecExpr)>
    decreases s, 1nat,
{
    if s.len() == 0 {
        Seq::empty()
    } else {
        view_fields(s.drop_last()).push((s.last().0@, view_expr(s.last().1)))
    }
}

pub open spec fn view_opt_expr(e: Option<Expr>) -> Option<SpecExpr> {
    match e {
        Some(x) => Some(view_expr(x)),
        None => None,
    }
}

pub open spec fn view_stmt(s: Statement) -> SpecStatement
    decreases s, 0nat,
{
    match s {
        Statement::Let(l) => SpecStatement::Let { name: l.name@, value: view_expr(l.value) },
        Statement::Const { name, value } => SpecStatement::Const {
            name: name@,
            value: view_expr(value),
        },
        Statement::Assign { name, op, value } => SpecStatement::Assign {
            name: name@,
            op,
            value: view_expr(value),
        },
        Statement::IndexAssign { name, index, op, value } => SpecStatement::IndexAssign {
            name: name@,
            index: view_expr(index),
            op,
            value: view_expr(value),
        },
        Statement::Match { expr, arms } => SpecStatement::Match {
            expr: view_expr(expr),
            arms: view_arms(arms@),
        },
        Statement::If { condition, then_block, else_block } => SpecStatement::If {
            condition: view_expr(condition),
            then_block: view_block(then_block),
            else_block: match else_block {
                Some(b) => Some(view_block(b)),
                None => None,
            },
        },
        Statement::While { condition, body } => SpecStatement::While {
            condition: view_expr(condition),
            body: view_block(body),
        },
        Statement::For { var, start, end, step, body } => SpecStatement::For {
            var: var@,
            start: view_expr(start),
            end: view_expr(end),
            step: view_opt_expr(step),
            body: view_block(body),
        },
        Statement::ScopeBlock { name, body } => SpecStatement::ScopeBlock {
            name: name@,
            body: view_block(body),
        },
        Statement::ValidateBlock { target, schema, on_fail, success_scope } =>
            SpecStatement::ValidateBlock {
                target: target@,
                schema: schema@,
                on_fail: view_block(*on_fail),
                success_scope: view_block(*success_scope),
            },
        Statement::ExprStmt(e) => SpecStatement::ExprStmt(view_expr(e)),
        Statement::Return(e) => SpecStatement::Return(view_opt_expr(e)),
        Statement::Break => SpecStatement::Break,
        Statement::Continue => SpecStatement::Continue,
    }
}

pub open spec fn view_block(b: Block) -> SpecBlock
    decreases b, 0nat,
{
    SpecBlock { statements: view_stmts(b.statements@) }
}

pub open spec fn view_stmts(s: Seq<Statement>) -> Seq<SpecStatement>
    decreases s, 1nat,
{
    if s.len() == 0 {
        Seq::empty()
    } else {
        view_stmts(s.drop_last()).push(view_stmt(s.last()))
    }
}

pub open spec fn view_arms(s: Seq<MatchArm>) -> Seq<SpecMatchArm>
    decreases s, 1nat,
{
    if s.len() == 0 {
        Seq::empty()
    } else {
        view_arms(s.drop_last()).push(
            SpecMatchArm {
                pattern: view_pattern(s.last().pattern),
                body: view_block(s.last().body),
            },
        )
    }
}

pub open spec fn view_attribute(a: Attribute) -> SpecAttribute {
    SpecAttribute { name: a.name@, args: view_strings(a.args@) }
}

pub open spec fn view_function(f: FunctionDef) -> SpecFunctionDef {
    SpecFunctionDef {
        attributes: f.attributes@.map_values(|a: Attribute| view_attribute(a)),
        name: f.name@,
        purity: f.purity,
        params: view_params(f.params@),
        return_type: view_typeref(f.return_type),
        body: view_block(f.body),
    }
}

pub open spec fn view_functions(s: Seq<FunctionDef>) -> Seq<SpecFunctionDef> {
    s.map_values(|f: FunctionDef| view_function(f))
}

pub open spec fn view_struct(d: StructDef) -> SpecStructDef {
    SpecStructDef { name: d.name@, fields: view_params(d.fields@) }
}

pub open spec fn view_toplevel(t: TopLevel) -> SpecTopLevel
    decreases t, 0nat,
{
    match t {
        TopLevel::Function(f) => SpecTopLevel::Function(view_function(f)),
        TopLevel::Struct(d) => SpecTopLevel::Struct(view_struct(d)),
        TopLevel::Import(p) => SpecTopLevel::Import(view_strings(p@)),
        TopLevel::Module(n, items) => SpecTopLevel::Module(n@, view_toplevels(items@)),
    }
}

pub open spec fn view_toplevels(s: Seq<TopLevel>) -> Seq<SpecTopLevel>
    decreases s, 1nat,
{
    if s.len() == 0 {
        Seq::empty()
    } else {
        view_toplevels(s.drop_last()).push(view_toplevel(s.last()))
    }
}

// ───────────────────────── lemmas on the sequence views ─────────────────────────

pub proof fn lemma_view_typerefs(s: Seq<TypeRef>)
    ensures
        view_typerefs(s).len() == s.len(),
        forall|i: int| 0 <= i < s.len() ==> #[trigger] view_typerefs(s)[i] == view_typeref(s[i]),
    decreases s.len(),
{
    if s.len() > 0 {
        lemma_view_typerefs(s.drop_last());
    }
}

pub proof fn lemma_view_exprs(s: Seq<Expr>)
    ensures
        view_exprs(s).len() == s.len(),
        forall|i: int| 0 <= i < s.len() ==> #[trigger] view_exprs(s)[i] == view_expr(s[i]),
    decreases s.len(),
{
    if s.len() > 0 {
        lemma_view_exprs(s.drop_last());
    }
}

pub proof fn lemma_view_parts(s: Seq<InterpolPart>)
    ensures
        view_parts(s).len() == s.len(),
        forall|i: int|
            0 <= i < s.len() ==> #[trigger] view_parts(s)[i] == (match s[i] {
                InterpolPart::Lit(t) => SpecInterpolPart::Lit(t@),
                InterpolPart::Expr(x) => SpecInterpolPart::Expr(view_expr(x)),
            }),
    decreases s.len(),
{
    if s.len() > 0 {
        lemma_view_parts(s.drop_last());
    }
}

pub proof fn lemma_view_fields(s: Seq<(String, Expr)>)
    ensures
        view_fields(s).len() == s.len(),
        forall|i: int|
            0 <= i < s.len() ==> (#[trigger] view_fields(s)[i]) == (s[i].0@, view_expr(s[i].1)),
    decreases s.len(),
{
    if s.len() > 0 {
        lemma_view_fields(s.drop_last());
    }
}

pub proof fn lemma_view_stmts(s: Seq<Statement>)
    ensures
        view_stmts(s).len() == s.len(),
        forall|i: int| 0 <= i < s.len() ==> #[trigger] view_stmts(s)[i] == view_stmt(s[i]),
    decreases s.len(),
{
    if s.len() > 0 {
        lemma_view_stmts(s.drop_last());
    }
}

pub proof fn lemma_view_arms(s: Seq<MatchArm>)
    ensures
        view_arms(s).len() == s.len(),
        forall|i: int|
            0 <= i < s.len() ==> #[trigger] view_arms(s)[i] == (SpecMatchArm {
                pattern: view_pattern(s[i].pattern),
                body: view_block(s[i].body),
            }),
    decreases s.len(),
{
    if s.len() > 0 {
        lemma_view_arms(s.drop_last());
    }
}

pub proof fn lemma_view_toplevels(s: Seq<TopLevel>)
    ensures
        view_toplevels(s).len() == s.len(),
        forall|i: int| 0 <= i < s.len() ==> #[trigger] view_toplevels(s)[i] == view_toplevel(s[i]),
    decreases s.len(),
{
    if s.len() > 0 {
        lemma_view_toplevels(s.drop_last());
    }
}

} // verus!
