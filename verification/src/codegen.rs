//! Code generation: a Zet program becomes the text of a Rust program.
use vstd::prelude::*;
use crate::ast::{
    BinaryOp, Block, Expr, FunctionDef, InterpolPart, Literal, Pattern, Purity, SpecBlock,
    SpecExpr, SpecFunctionDef, SpecInterpolPart, SpecLiteral, SpecMatchArm, SpecParam,
    SpecPattern, SpecStatement, SpecTypeRef, Statement, TypeRef, UnaryOp, lemma_view_arms,
    lemma_view_exprs, lemma_view_fields, lemma_view_parts, lemma_view_stmts,
    lemma_view_typerefs, view_arms, view_block, view_expr, view_exprs, view_fields,
    view_function, view_functions, view_literal, view_params, view_parts, view_pattern,
    view_stmt, view_stmts, view_typeref, view_typerefs,
};
use crate::text::{
    chars_of, dec, dec_int, i64_to_string, push_str, str_eq, str_to_string, string_from_chars,
    u64_to_string, usize_to_string,
};

verus! {

/// The runtime that every generated program starts with.
pub const RUNTIME_PREAMBLE: &'static str = r#"
#![allow(dead_code, unused_imports, unused_variables, unused_parens, unused_mut, non_snake_case)]
use std::time::Duration;
use std::io::{self, Write};
use serde_json::Value;

const RESET: &str = "\x1b[0m";
const CYAN: &str = "\x1b[36m";   
const GREEN: &str = "\x1b[32m";  
const MAGENTA: &str = "\x1b[35m";
const YELLOW: &str = "\x1b[33m"; 
const BLUE: &str = "\x1b[34m";
const RED: &str = "\x1b[31m";

/// Zet v0.3 — Untrusted: Dış dünyadan gelen lekeli veri sarmalayıcısı.
#[derive(Clone, Debug)]
struct Untrusted(String);

impl Untrusted {
    fn validate(self) -> Result<String, String> {
        let s = self.0.trim().to_string();
        if s.is_empty() {
            Err("Dogrulama basarisiz: bos girdi.".to_string())
        } else {
            Ok(s)
        }
    }
}

struct Console;
impl Console {
    async fn read(prompt: String) -> Untrusted {
        print!("  {}[Console] {}: {}", BLUE, prompt, RESET);
        io::stdout().flush().unwrap();
        let mut buffer = String::new();
        io::stdin().read_line(&mut buffer).unwrap();
        Untrusted(buffer.trim().to_string())
    }
}

struct DB;
impl DB {
    async fn log(msg: String) {
        println!("  {}[LOG] {}{}", GREEN, msg, RESET);
    }
}

struct Util;
impl Util {
    #[inline(always)]
    async fn to_int(s: String) -> i64 { s.trim().parse::<i64>().unwrap_or(0) }
    #[inline(always)]
    async fn to_float(s: String) -> f64 { s.trim().parse::<f64>().unwrap_or(0.0) }
    #[inline(always)]
    async fn now() -> i64 {
        std::time::SystemTime::now()
            .duration_since(std::time::UNIX_EPOCH)
            .unwrap()
            .as_millis() as i64
    }
}

struct HTTP;
impl HTTP {
    async fn get(url: String) -> Untrusted {
        let client = reqwest::Client::builder().user_agent("ZetLang/0.3").build().unwrap();
        match client.get(&url).send().await {
            Ok(res) => Untrusted(res.text().await.unwrap_or_else(|e| format!("Error: {}", e))),
            Err(e) => Untrusted(format!("Error: {}", e))
        }
    }
}

async fn input(prompt: String) -> Untrusted {
    print!("  {}[>] {}{}", CYAN, prompt, RESET);
    io::stdout().flush().unwrap();
    let mut buffer = String::new();
    let _ = io::stdin().read_line(&mut buffer);
    Untrusted(buffer.trim().to_string())
}

async fn inputln(prompt: String) -> Untrusted {
    println!("  {}[>] {}{}", CYAN, prompt, RESET);
    io::stdout().flush().unwrap();
    let mut buffer = String::new();
    let _ = io::stdin().read_line(&mut buffer);
    Untrusted(buffer.trim().to_string())
}

// ─── ZetAdd Trait (Polimorfik Toplama) ──────────────────────────
trait ZetAdd<Rhs> { type Output; fn z_add(self, rhs: Rhs) -> Self::Output; }
impl ZetAdd<i64> for i64 { type Output = i64; #[inline(always)] fn z_add(self, rhs: i64) -> i64 { self + rhs } }
impl ZetAdd<f64> for f64 { type Output = f64; #[inline(always)] fn z_add(self, rhs: f64) -> f64 { self + rhs } }
impl ZetAdd<String> for String { type Output = String; #[inline(always)] fn z_add(self, rhs: String) -> String { self + &rhs } }
impl<'a> ZetAdd<&'a str> for String { type Output = String; #[inline(always)] fn z_add(self, rhs: &'a str) -> String { self + rhs } }
impl ZetAdd<i64> for String { type Output = String; #[inline(always)] fn z_add(self, rhs: i64) -> String { format!("{}{}", self, rhs) } }
impl ZetAdd<f64> for String { type Output = String; #[inline(always)] fn z_add(self, rhs: f64) -> String { format!("{}{}", self, rhs) } }
impl ZetAdd<bool> for String { type Output = String; #[inline(always)] fn z_add(self, rhs: bool) -> String { format!("{}{}", self, rhs) } }
impl ZetAdd<char> for String { type Output = String; #[inline(always)] fn z_add(self, rhs: char) -> String { format!("{}{}", self, rhs) } }

// ─── ZetMul Trait (Polimorfik Çarpma) ───────────────────────────
trait ZetMul<Rhs> { type Output; fn z_mul(self, rhs: Rhs) -> Self::Output; }
impl ZetMul<i64> for i64 { type Output = i64; #[inline(always)] fn z_mul(self, rhs: i64) -> i64 { self * rhs } }
impl ZetMul<f64> for f64 { type Output = f64; #[inline(always)] fn z_mul(self, rhs: f64) -> f64 { self * rhs } }
impl ZetMul<i64> for String { type Output = String; fn z_mul(self, rhs: i64) -> String { self.repeat(rhs as usize) } }
impl<'a> ZetMul<i64> for &'a str { type Output = String; fn z_mul(self, rhs: i64) -> String { self.repeat(rhs as usize) } }
"#;

} // verus!

verus! {

// ───────────────────────── text helpers ─────────────────────────

/// `n` levels of indentation, four spaces each.
pub open spec fn indent_text(n: nat) -> Seq<char>
    decreases n,
{
    if n == 0 {
        Seq::empty()
    } else {
        indent_text((n - 1) as nat) + "    "@
    }
}

/// The pieces joined with the separator between them.
pub open spec fn join(s: Seq<Seq<char>>, sep: Seq<char>) -> Seq<char>
    decreases s.len(),
{
    if s.len() == 0 {
        Seq::empty()
    } else if s.len() == 1 {
        s[0]
    } else {
        join(s.drop_last(), sep) + sep + s.last()
    }
}

/// The escaped form of one character inside a Rust string literal.
pub open spec fn esc_str_char(c: char) -> Seq<char> {
    if c == '\\' {
        seq!['\\', '\\']
    } else if c == '"' {
        seq!['\\', '"']
    } else if c == '\n' {
        seq!['\\', 'n']
    } else if c == '\t' {
        seq!['\\', 't']
    } else {
        seq![c]
    }
}

/// A text escaped for a Rust string literal: backslash, double quote,
/// newline and tab get a backslash.
pub open spec fn esc_str(s: Seq<char>) -> Seq<char>
    decreases s.len(),
{
    if s.len() == 0 {
        Seq::empty()
    } else {
        esc_str(s.drop_last()) + esc_str_char(s.last())
    }
}

/// As `esc_str_char`, and braces are doubled for a `format!` string.
pub open spec fn esc_fmt_char(c: char) -> Seq<char> {
    if c == '{' {
        seq!['{', '{']
    } else if c == '}' {
        seq!['}', '}']
    } else {
        esc_str_char(c)
    }
}

pub open spec fn esc_fmt(s: Seq<char>) -> Seq<char>
    decreases s.len(),
{
    if s.len() == 0 {
        Seq::empty()
    } else {
        esc_fmt(s.drop_last()) + esc_fmt_char(s.last())
    }
}

/// The escaped form of a character inside a Rust character literal.
pub open spec fn esc_char(c: char) -> Seq<char> {
    if c == '\n' {
        seq!['\\', 'n']
    } else if c == '\t' {
        seq!['\\', 't']
    } else if c == '\\' {
        seq!['\\', '\\']
    } else if c == '\'' {
        seq!['\\', '\'']
    } else if c == '\0' {
        seq!['\\', '0']
    } else {
        seq![c]
    }
}

/// A name with every `.` replaced by `::`.
pub open spec fn path_of(s: Seq<char>) -> Seq<char>
    decreases s.len(),
{
    if s.len() == 0 {
        Seq::empty()
    } else {
        path_of(s.drop_last()) + if s.last() == '.' {
            seq![':', ':']
        } else {
            seq![s.last()]
        }
    }
}

// ───────────────────────── types ─────────────────────────

/// The Rust type that a Zet type maps to.
pub open spec fn type_text(t: SpecTypeRef) -> Seq<char>
    decreases t, 0nat,
{
    match t {
        SpecTypeRef::Void => "()"@,
        SpecTypeRef::Integer => "i64"@,
        SpecTypeRef::Float => "f64"@,
        SpecTypeRef::Bool => "bool"@,
        SpecTypeRef::Char => "char"@,
        SpecTypeRef::Byte => "u8"@,
        SpecTypeRef::String => "String"@,
        SpecTypeRef::Untrusted => "Untrusted"@,
        SpecTypeRef::Result(inner) => "Result<"@ + type_text(*inner) + ", String>"@,
        SpecTypeRef::Array(inner) => "Vec<"@ + type_text(*inner) + ">"@,
        SpecTypeRef::Tuple(ts) => "("@ + join(types_text(ts), ", "@) + ")"@,
        SpecTypeRef::Custom(_) => "String"@,
    }
}

pub open spec fn types_text(s: Seq<SpecTypeRef>) -> Seq<Seq<char>>
    decreases s, 1nat,
{
    if s.len() == 0 {
        Seq::empty()
    } else {
        types_text(s.drop_last()).push(type_text(s.last()))
    }
}

// ───────────────────────── float literals ─────────────────────────

/// The position of the first `.` in `t`, or its length when there is none.
pub open spec fn dot_pos(t: Seq<char>) -> int
    decreases t.len(),
{
    if t.len() == 0 || t[0] == '.' {
        0
    } else {
        1 + dot_pos(t.drop_first())
    }
}

/// `s` without its leading zeros.
pub open spec fn strip_leading_zeros(s: Seq<char>) -> Seq<char>
    decreases s.len(),
{
    if s.len() > 0 && s[0] == '0' {
        strip_leading_zeros(s.drop_first())
    } else {
        s
    }
}

/// `s` without its trailing zeros.
pub open spec fn strip_trailing_zeros(s: Seq<char>) -> Seq<char>
    decreases s.len(),
{
    if s.len() > 0 && s.last() == '0' {
        strip_trailing_zeros(s.drop_last())
    } else {
        s
    }
}

/// The Rust text of a float literal written as digits, `.`, digits: the
/// number as Rust prints an `f64`, with `f64` after it. The integer part
/// loses its leading zeros (`0` when none is left), the fraction its trailing
/// zeros, and `.0` stands where no fraction is left: `1.50` gives `1.5f64`,
/// `007.000` gives `7.0f64`. For a literal of at most 15 significant digits
/// this is exactly the printed `f64`; with more digits the printed `f64` is
/// rounded by floating point, which this text does not do.
pub open spec fn float_text(t: Seq<char>) -> Seq<char> {
    let d = dot_pos(t);
    let ip = strip_leading_zeros(t.take(d));
    let i = if ip.len() == 0 {
        "0"@
    } else {
        ip
    };
    let f = if d < t.len() {
        strip_trailing_zeros(t.skip(d + 1))
    } else {
        Seq::empty()
    };
    if f.len() == 0 {
        i + ".0f64"@
    } else {
        i + "."@ + f + "f64"@
    }
}

// ───────────────────────── expressions ─────────────────────────

/// The Rust text of a literal.
pub open spec fn literal_text(l: SpecLiteral) -> Seq<char> {
    match l {
        SpecLiteral::Int(i) => dec_int(i as int),
        SpecLiteral::Float(t) => float_text(t),
        SpecLiteral::Str(s) => "\""@ + esc_str(s) + "\".to_string()"@,
        SpecLiteral::Bool(b) => if b {
            "true"@
        } else {
            "false"@
        },
        SpecLiteral::Char(c) => "'"@ + esc_char(c) + "'"@,
    }
}

/// The Rust operator of a binary operation other than `+` and `*`.
pub open spec fn op_text(op: BinaryOp) -> Seq<char> {
    match op {
        BinaryOp::Sub => "-"@,
        BinaryOp::Div => "/"@,
        BinaryOp::Mod => "%"@,
        BinaryOp::Eq => "=="@,
        BinaryOp::Neq => "!="@,
        BinaryOp::Gt => ">"@,
        BinaryOp::Lt => "<"@,
        BinaryOp::Gte => ">="@,
        BinaryOp::Lte => "<="@,
        BinaryOp::And => "&&"@,
        BinaryOp::Or => "||"@,
        BinaryOp::BitAnd => "&"@,
        BinaryOp::BitOr => "|"@,
        BinaryOp::BitXor => "^"@,
        BinaryOp::Shl => "<<"@,
        BinaryOp::Shr => ">>"@,
        BinaryOp::Add => "+"@,
        BinaryOp::Mul => "*"@,
    }
}

/// The `format!` string of an interpolated string: literal parts escaped,
/// expression parts as `{}`.
pub open spec fn interp_fmt(s: Seq<SpecInterpolPart>) -> Seq<char>
    decreases s.len(),
{
    if s.len() == 0 {
        Seq::empty()
    } else {
        interp_fmt(s.drop_last()) + match s.last() {
            SpecInterpolPart::Lit(t) => esc_fmt(t),
            SpecInterpolPart::Expr(_) => "{}"@,
        }
    }
}

/// The literal text of an interpolation made of literal parts only, escaped
/// for a plain string literal (braces stay as they are).
pub open spec fn interp_lit(s: Seq<SpecInterpolPart>) -> Seq<char>
    decreases s.len(),
{
    if s.len() == 0 {
        Seq::empty()
    } else {
        interp_lit(s.drop_last()) + match s.last() {
            SpecInterpolPart::Lit(t) => esc_str(t),
            SpecInterpolPart::Expr(_) => Seq::empty(),
        }
    }
}

/// How an expression is rendered where it stands: as it is (0), taking
/// ownership of a variable with `.clone()` (1), or as a `String` (2).
pub open spec fn render(pure: Seq<Seq<char>>, in_scope: bool, e: SpecExpr, mode: nat) -> Seq<char>
    decreases e, 1nat,
{
    if mode == 1 {
        match e {
            SpecExpr::Identifier(s) => s + ".clone()"@,
            _ => expr_text(pure, in_scope, e),
        }
    } else if mode == 2 {
        match e {
            SpecExpr::Literal(SpecLiteral::Str(_)) => expr_text(pure, in_scope, e),
            SpecExpr::Interpolation(_) => expr_text(pure, in_scope, e),
            _ => "format!(\"{}\", "@ + expr_text(pure, in_scope, e) + ")"@,
        }
    } else {
        expr_text(pure, in_scope, e)
    }
}

/// The Rust text of an expression. `pure` lists the deterministic functions
/// (called without `.await`); `in_scope` tells whether a `spawn` stands in a
/// `scope` block (its task is then collected).
pub open spec fn expr_text(pure: Seq<Seq<char>>, in_scope: bool, e: SpecExpr) -> Seq<char>
    decreases e, 0nat,
{
    match e {
        SpecExpr::Identifier(s) => s,
        SpecExpr::Literal(l) => literal_text(l),
        SpecExpr::Interpolation(ps) => if interp_args(pure, in_scope, ps).len() == 0 {
            "\""@ + interp_lit(ps) + "\".to_string()"@
        } else {
            "format!(\""@ + interp_fmt(ps) + "\", "@ + join(interp_args(pure, in_scope, ps), ", "@)
                + ")"@
        },
        SpecExpr::Unary(op, x) => match op {
            UnaryOp::Not => "(!"@ + expr_text(pure, in_scope, *x) + ")"@,
            UnaryOp::Neg => "(-"@ + expr_text(pure, in_scope, *x) + ")"@,
        },
        SpecExpr::Infra(c) => "tokio::time::timeout(Duration::from_millis("@ + dec(
            c.config.timeout_ms as nat,
        ) + "), "@ + c.service + "::"@ + c.method + "("@ + join(
            exprs_text(pure, in_scope, c.args, 2),
            ", "@,
        ) + ")).await.unwrap()"@,
        SpecExpr::JsonField(x, key) => "serde_json::from_str::<serde_json::Value>(&"@ + expr_text(
            pure,
            in_scope,
            *x,
        ) + ").ok().and_then(|v| v.get(\""@ + key
            + "\").map(|x| if x.is_string() { x.as_str().unwrap().to_string() } else { x.to_string() })).unwrap_or(\"HATA\".to_string())"@,
        SpecExpr::ArrayLiteral(xs) => "vec!["@ + join(exprs_text(pure, in_scope, xs, 0), ", "@)
            + "]"@,
        SpecExpr::Index(a, i) => expr_text(pure, in_scope, *a) + "[("@ + expr_text(
            pure,
            in_scope,
            *i,
        ) + " as usize)]"@,
        SpecExpr::TupleLiteral(xs) => "("@ + join(exprs_text(pure, in_scope, xs, 0), ", "@) + ")"@,
        SpecExpr::TupleIndex(x, i) => expr_text(pure, in_scope, *x) + "."@ + dec(i as nat),
        SpecExpr::Binary(l, op, r) => if op == BinaryOp::Add {
            render(pure, in_scope, *l, 1) + ".z_add("@ + render(pure, in_scope, *r, 1) + ")"@
        } else if op == BinaryOp::Mul {
            render(pure, in_scope, *l, 1) + ".z_mul("@ + render(pure, in_scope, *r, 1) + ")"@
        } else {
            "("@ + expr_text(pure, in_scope, *l) + " "@ + op_text(op) + " "@ + expr_text(
                pure,
                in_scope,
                *r,
            ) + ")"@
        },
        SpecExpr::Call(n, args, _) => if n == "println"@ {
            if args.len() == 0 {
                "println!()"@
            } else {
                "println!(\"{}\", "@ + join(exprs_text(pure, in_scope, args, 0), ", "@) + ")"@
            }
        } else if n == "print"@ {
            if args.len() == 0 {
                "print!()"@
            } else {
                "print!(\"{}\", "@ + join(exprs_text(pure, in_scope, args, 0), ", "@) + ")"@
            }
        } else if n == "input"@ || n == "inputln"@ {
            n + "("@ + join(exprs_text(pure, in_scope, args, 2), ", "@) + ")"@ + ".await"@
        } else {
            path_of(n) + "("@ + join(exprs_text(pure, in_scope, args, 1), ", "@) + ")"@ + if pure.contains(
                n,
            ) {
                Seq::<char>::empty()
            } else {
                ".await"@
            }
        },
        SpecExpr::Spawn(x) => if in_scope {
            "_zet_handles.push(tokio::spawn(async move { "@ + expr_text(pure, in_scope, *x)
                + " }))"@
        } else {
            "tokio::spawn(async move { "@ + expr_text(pure, in_scope, *x) + " })"@
        },
        SpecExpr::Await(x) => expr_text(pure, in_scope, *x) + ".await"@,
        SpecExpr::InlineRust(code) => code,
        SpecExpr::MethodCall(o, m, args) => expr_text(pure, in_scope, *o) + "."@ + m + "("@ + join(
            exprs_text(pure, in_scope, args, 0),
            ", "@,
        ) + ")"@,
        SpecExpr::StructLiteral(n, flds) => n + " { "@ + join(fields_text(pure, in_scope, flds), ", "@)
            + " }"@,
        SpecExpr::FieldAccess(o, f) => expr_text(pure, in_scope, *o) + "."@ + f,
        SpecExpr::Try(x) => expr_text(pure, in_scope, *x) + "?"@,
        SpecExpr::Catch(x, d) => expr_text(pure, in_scope, *x) + ".unwrap_or_else(|_| { "@
            + expr_text(pure, in_scope, *d) + " })"@,
    }
}

/// The texts of a list of expressions, each rendered in the given mode.
pub open spec fn exprs_text(pure: Seq<Seq<char>>, in_scope: bool, s: Seq<SpecExpr>, mode: nat) -> Seq<
    Seq<char>,
>
    decreases s, 2nat,
{
    if s.len() == 0 {
        Seq::empty()
    } else {
        exprs_text(pure, in_scope, s.drop_last(), mode).push(render(pure, in_scope, s.last(), mode))
    }
}

/// The texts of the expression parts of an interpolated string.
pub open spec fn interp_args(pure: Seq<Seq<char>>, in_scope: bool, s: Seq<SpecInterpolPart>) -> Seq<
    Seq<char>,
>
    decreases s, 2nat,
{
    if s.len() == 0 {
        Seq::empty()
    } else {
        match s.last() {
            SpecInterpolPart::Expr(x) => interp_args(pure, in_scope, s.drop_last()).push(
                expr_text(pure, in_scope, x),
            ),
            SpecInterpolPart::Lit(_) => interp_args(pure, in_scope, s.drop_last()),
        }
    }
}

/// The texts `name: value` of the fields of a struct literal.
pub open spec fn fields_text(
    pure: Seq<Seq<char>>,
    in_scope: bool,
    s: Seq<(Seq<char>, SpecExpr)>,
) -> Seq<Seq<char>>
    decreases s, 2nat,
{
    if s.len() == 0 {
        Seq::empty()
    } else {
        fields_text(pure, in_scope, s.drop_last()).push(
            s.last().0 + ": "@ + expr_text(pure, in_scope, s.last().1),
        )
    }
}

} // verus!

verus! {

// ───────────────────────── executable text helpers ─────────────────────────

fn indent_string(n: usize) -> (r: String)
    ensures
        r@ == indent_text(n as nat),
{
    let mut s = String::new();
    let mut i: usize = 0;
    while i < n
        invariant
            i <= n,
            s@ == indent_text(i as nat),
        decreases n - i,
    {
        push_str(&mut s, "    ");
        i += 1;
    }
    s
}

fn float_string(t: &String) -> (r: String)
    ensures
        r@ == float_text(t@),
{
    let v = chars_of(t.as_str());
    let n = v.len();
    let mut d: usize = 0;
    proof {
        assert(v@.subrange(0, n as int) =~= v@);
    }
    while d < n && v[d] != '.'
        invariant
            d <= n,
            n == v@.len(),
            dot_pos(v@) == d + dot_pos(v@.subrange(d as int, n as int)),
        decreases n - d,
    {
        proof {
            let sub = v@.subrange(d as int, n as int);
            assert(sub.drop_first() =~= v@.subrange(d + 1, n as int));
        }
        d += 1;
    }
    proof {
        assert(dot_pos(v@.subrange(d as int, n as int)) == 0);
    }
    let mut a: usize = 0;
    while a < d && v[a] == '0'
        invariant
            a <= d <= n,
            n == v@.len(),
            strip_leading_zeros(v@.take(d as int)) == strip_leading_zeros(
                v@.subrange(a as int, d as int),
            ),
        decreases d - a,
    {
        proof {
            let sub = v@.subrange(a as int, d as int);
            assert(sub.drop_first() =~= v@.subrange(a + 1, d as int));
        }
        a += 1;
    }
    let ghost ip = v@.subrange(a as int, d as int);
    proof {
        assert(strip_leading_zeros(ip) == ip);
        if a == 0 {
            assert(ip =~= v@.take(d as int));
        }
    }
    let mut r = if a == d {
        str_to_string("0")
    } else {
        string_from_chars(&v, a, d)
    };
    if d < n {
        let mut b: usize = n;
        proof {
            assert(v@.skip(d + 1) =~= v@.subrange(d + 1, n as int));
        }
        while b > d + 1 && v[b - 1] == '0'
            invariant
                d + 1 <= b <= n,
                n == v@.len(),
                strip_trailing_zeros(v@.skip(d + 1)) == strip_trailing_zeros(
                    v@.subrange(d + 1, b as int),
                ),
            decreases b,
        {
            proof {
                let sub = v@.subrange(d + 1, b as int);
                assert(sub.drop_last() =~= v@.subrange(d + 1, b - 1));
            }
            b -= 1;
        }
        proof {
            assert(strip_trailing_zeros(v@.subrange(d + 1, b as int)) == v@.subrange(
                d + 1,
                b as int,
            ));
        }
        if b > d + 1 {
            push_str(&mut r, ".");
            let f = string_from_chars(&v, d + 1, b);
            push_str(&mut r, f.as_str());
            push_str(&mut r, "f64");
        } else {
            push_str(&mut r, ".0f64");
        }
    } else {
        push_str(&mut r, ".0f64");
    }
    r
}

fn push_esc_str(dst: &mut String, s: &String, braces: bool)
    ensures
        final(dst)@ == old(dst)@ + if braces {
            esc_fmt(s@)
        } else {
            esc_str(s@)
        },
{
    let v = chars_of(s.as_str());
    let ghost d0 = dst@;
    let mut i: usize = 0;
    while i < v.len()
        invariant
            i <= v.len(),
            v@ == s@,
            dst@ == d0 + if braces {
                esc_fmt(v@.take(i as int))
            } else {
                esc_str(v@.take(i as int))
            },
        decreases v.len() - i,
    {
        let c = v[i];
        proof {
            assert(v@.take(i + 1).drop_last() == v@.take(i as int));
            assert(v@.take(i + 1).last() == c);
        }
        let ghost before = dst@;
        if braces && c == '{' {
            push_str(dst, "{{");
        } else if braces && c == '}' {
            push_str(dst, "}}");
        } else if c == '\\' {
            push_str(dst, "\\\\");
        } else if c == '"' {
            push_str(dst, "\\\"");
        } else if c == '\n' {
            push_str(dst, "\\n");
        } else if c == '\t' {
            push_str(dst, "\\t");
        } else {
            dst.push(c);
        }
        proof {
            reveal_strlit("{{");
            reveal_strlit("}}");
            reveal_strlit("\\\\");
            reveal_strlit("\\\"");
            reveal_strlit("\\n");
            reveal_strlit("\\t");
            if braces {
                assert(dst@ =~= d0 + esc_fmt(v@.take(i + 1)));
            } else {
                assert(dst@ =~= d0 + esc_str(v@.take(i + 1)));
            }
        }
        i += 1;
    }
    proof {
        assert(v@.take(i as int) == v@);
    }
}

fn push_esc_char(dst: &mut String, c: char)
    ensures
        final(dst)@ == old(dst)@ + esc_char(c),
{
    let ghost d0 = dst@;
    if c == '\n' {
        push_str(dst, "\\n");
    } else if c == '\t' {
        push_str(dst, "\\t");
    } else if c == '\\' {
        push_str(dst, "\\\\");
    } else if c == '\'' {
        push_str(dst, "\\'");
    } else if c == '\0' {
        push_str(dst, "\\0");
    } else {
        dst.push(c);
    }
    proof {
        reveal_strlit("\\n");
        reveal_strlit("\\t");
        reveal_strlit("\\\\");
        reveal_strlit("\\'");
        reveal_strlit("\\0");
        assert(dst@ =~= d0 + esc_char(c));
    }
}

fn push_path(dst: &mut String, s: &String)
    ensures
        final(dst)@ == old(dst)@ + path_of(s@),
{
    let v = chars_of(s.as_str());
    let ghost d0 = dst@;
    let mut i: usize = 0;
    while i < v.len()
        invariant
            i <= v.len(),
            v@ == s@,
            dst@ == d0 + path_of(v@.take(i as int)),
        decreases v.len() - i,
    {
        let c = v[i];
        proof {
            assert(v@.take(i + 1).drop_last() == v@.take(i as int));
            assert(v@.take(i + 1).last() == c);
        }
        if c == '.' {
            push_str(dst, "::");
        } else {
            dst.push(c);
        }
        proof {
            reveal_strlit("::");
            assert(dst@ =~= d0 + path_of(v@.take(i + 1)));
        }
        i += 1;
    }
    proof {
        assert(v@.take(i as int) == v@);
    }
}

/// `join(s.push(x), sep)` adds `sep` and `x` to `join(s, sep)` unless `s` is empty.
pub proof fn lemma_join_push(s: Seq<Seq<char>>, x: Seq<char>, sep: Seq<char>)
    ensures
        join(s.push(x), sep) == if s.len() == 0 {
            x
        } else {
            join(s, sep) + sep + x
        },
{
    assert(s.push(x).drop_last() == s);
}

} // verus!

verus! {

// ───────────────────────── the generator ─────────────────────────

pub struct Codegen {
    indent_level: usize,
    pure_functions: Vec<String>,
    is_current_func_pure: bool,
    in_scope: bool,
    in_for_loop: bool,
    for_label_id: usize,
    for_label_stack: Vec<usize>,
}

/// What the generator knows while it writes a statement.
pub struct GenCtx {
    pub indent: usize,
    pub pure: Seq<Seq<char>>,
    pub cur_pure: bool,
    pub in_scope: bool,
    pub in_for: bool,
    pub labels: Seq<usize>,
}

impl Codegen {
    /// The generator's state, apart from its label counter.
    pub closed spec fn ctx(&self) -> GenCtx {
        GenCtx {
            indent: self.indent_level,
            pure: self.pure_functions@.map_values(|s: String| s@),
            cur_pure: self.is_current_func_pure,
            in_scope: self.in_scope,
            in_for: self.in_for_loop,
            labels: self.for_label_stack@,
        }
    }

    /// The number that the next `for` loop's labels will carry.
    pub closed spec fn next_label(&self) -> usize {
        self.for_label_id
    }

    /// The state is consistent: inside a `for` loop, a label is at hand.
    pub closed spec fn wf(&self) -> bool {
        self.in_for_loop ==> self.for_label_stack@.len() > 0
    }

    pub fn new() -> (r: Self)
        ensures
            r.wf(),
            r.ctx() == (GenCtx {
                indent: 0,
                pure: Seq::empty(),
                cur_pure: false,
                in_scope: false,
                in_for: false,
                labels: Seq::empty(),
            }),
            r.next_label() == 0,
    {
        let r = Codegen {
            indent_level: 0,
            pure_functions: Vec::new(),
            is_current_func_pure: false,
            in_scope: false,
            in_for_loop: false,
            for_label_id: 0,
            for_label_stack: Vec::new(),
        };
        assert(r.ctx().pure =~= Seq::<Seq<char>>::empty());
        r
    }

    pub fn indent(&self) -> (r: String)
        ensures
            r@ == indent_text(self.ctx().indent as nat),
    {
        indent_string(self.indent_level)
    }

    pub fn get_runtime_preamble(&self) -> (r: String)
        ensures
            r@ == RUNTIME_PREAMBLE@,
    {
        str_to_string(RUNTIME_PREAMBLE)
    }

    fn is_pure_name(&self, name: &String) -> (r: bool)
        ensures
            r == self.ctx().pure.contains(name@),
    {
        let ghost p = self.ctx().pure;
        let mut i: usize = 0;
        while i < self.pure_functions.len()
            invariant
                i <= self.pure_functions.len(),
                p == self.ctx().pure,
                p.len() == self.pure_functions.len(),
                forall|j: int| 0 <= j < i ==> p[j] != name@,
            decreases self.pure_functions.len() - i,
        {
            if self.pure_functions[i] == *name {
                assert(p[i as int] == name@);
                return true;
            }
            i += 1;
        }
        false
    }

    pub fn map_type(&self, t: &TypeRef) -> (r: String)
        ensures
            r@ == type_text(view_typeref(*t)),
        decreases t, 0nat,
    {
        match t {
            TypeRef::Void => str_to_string("()"),
            TypeRef::Integer => str_to_string("i64"),
            TypeRef::Float => str_to_string("f64"),
            TypeRef::Bool => str_to_string("bool"),
            TypeRef::Char => str_to_string("char"),
            TypeRef::Byte => str_to_string("u8"),
            TypeRef::String => str_to_string("String"),
            TypeRef::Untrusted => str_to_string("Untrusted"),
            TypeRef::Result(inner) => {
                let mut s = str_to_string("Result<");
                let x = self.map_type(inner);
                push_str(&mut s, x.as_str());
                push_str(&mut s, ", String>");
                s
            },
            TypeRef::Array(inner) => {
                let mut s = str_to_string("Vec<");
                let x = self.map_type(inner);
                push_str(&mut s, x.as_str());
                push_str(&mut s, ">");
                s
            },
            TypeRef::Tuple(types) => {
                let mut s = str_to_string("(");
                let ghost vt = view_typerefs(types@);
                proof {
                    lemma_view_typerefs(types@);
                }
                let mut joined = String::new();
                let mut i: usize = 0;
                while i < types.len()
                    invariant
                        i <= types.len(),
                        vt == view_typerefs(types@),
                        vt.len() == types.len(),
                        forall|j: int| 0 <= j < vt.len() ==> #[trigger] vt[j] == view_typeref(types@[j]),
                        *t == TypeRef::Tuple(*types),
                        joined@ == join(types_text(vt.take(i as int)), ", "@),
                    decreases types.len() - i,
                {
                    proof {
                        assert(decreases_to!(*t => (*t)->Tuple_0));
                        assert(decreases_to!((*t)->Tuple_0 => (*t)->Tuple_0[i as int]));
                        assert(vt.take(i + 1).drop_last() == vt.take(i as int));
                        assert(vt.take(i + 1).last() == vt[i as int]);
                        lemma_join_push(types_text(vt.take(i as int)), type_text(vt[i as int]), ", "@);
                        lemma_types_text_len(vt.take(i as int));
                    }
                    if i > 0 {
                        push_str(&mut joined, ", ");
                    }
                    let x = self.map_type(&types[i]);
                    push_str(&mut joined, x.as_str());
                    i += 1;
                }
                proof {
                    assert(vt.take(i as int) == vt);
                }
                push_str(&mut s, joined.as_str());
                push_str(&mut s, ")");
                s
            },
            TypeRef::Custom(_) => str_to_string("String"),
        }
    }
}

pub proof fn lemma_types_text_len(s: Seq<SpecTypeRef>)
    ensures
        types_text(s).len() == s.len(),
    decreases s.len(),
{
    if s.len() > 0 {
        lemma_types_text_len(s.drop_last());
    }
}

} // verus!

verus! {

pub proof fn lemma_exprs_text_len(pure: Seq<Seq<char>>, sc: bool, s: Seq<SpecExpr>, mode: nat)
    ensures
        exprs_text(pure, sc, s, mode).len() == s.len(),
    decreases s.len(),
{
    if s.len() > 0 {
        lemma_exprs_text_len(pure, sc, s.drop_last(), mode);
    }
}

pub proof fn lemma_fields_text_len(pure: Seq<Seq<char>>, sc: bool, s: Seq<(Seq<char>, SpecExpr)>)
    ensures
        fields_text(pure, sc, s).len() == s.len(),
    decreases s.len(),
{
    if s.len() > 0 {
        lemma_fields_text_len(pure, sc, s.drop_last());
    }
}

impl Codegen {
    fn literal(&self, l: &Literal) -> (r: String)
        ensures
            r@ == literal_text(view_literal(*l)),
    {
        match l {
            Literal::Int(i) => i64_to_string(*i),
            Literal::Float(t) => float_string(t),
            Literal::Str(t) => {
                let mut s = str_to_string("\"");
                push_esc_str(&mut s, t, false);
                push_str(&mut s, "\".to_string()");
                s
            },
            Literal::Bool(b) => if *b {
                str_to_string("true")
            } else {
                str_to_string("false")
            },
            Literal::Char(c) => {
                let mut s = str_to_string("'");
                push_esc_char(&mut s, *c);
                push_str(&mut s, "'");
                s
            },
        }
    }

    fn generate_expr_owned(&self, expr: &Expr) -> (r: String)
        ensures
            r@ == render(self.ctx().pure, self.in_scope, view_expr(*expr), 1),
        decreases expr, 1nat,
    {
        match expr {
            Expr::Identifier(s) => {
                let mut r = str_to_string(s.as_str());
                push_str(&mut r, ".clone()");
                r
            },
            _ => self.generate_expr(expr),
        }
    }

    fn generate_expr_as_string(&self, expr: &Expr) -> (r: String)
        ensures
            r@ == render(self.ctx().pure, self.in_scope, view_expr(*expr), 2),
        decreases expr, 1nat,
    {
        match expr {
            Expr::Literal(Literal::Str(_)) => self.generate_expr(expr),
            Expr::Interpolation(_) => self.generate_expr(expr),
            _ => {
                let mut r = str_to_string("format!(\"{}\", ");
                let x = self.generate_expr(expr);
                push_str(&mut r, x.as_str());
                push_str(&mut r, ")");
                r
            },
        }
    }

    fn generate_render(&self, expr: &Expr, mode: u8) -> (r: String)
        requires
            mode <= 2,
        ensures
            r@ == render(self.ctx().pure, self.in_scope, view_expr(*expr), mode as nat),
        decreases expr, 2nat,
    {
        if mode == 1 {
            self.generate_expr_owned(expr)
        } else if mode == 2 {
            self.generate_expr_as_string(expr)
        } else {
            self.generate_expr(expr)
        }
    }

    /// The expressions rendered in the given mode and joined with `, `.
    fn generate_list(&self, xs: &Vec<Expr>, mode: u8) -> (r: String)
        requires
            mode <= 2,
        ensures
            r@ == join(
                exprs_text(self.ctx().pure, self.in_scope, view_exprs(xs@), mode as nat),
                ", "@,
            ),
        decreases xs, 0nat,
    {
        let ghost pure = self.ctx().pure;
        let ghost vs = view_exprs(xs@);
        proof {
            lemma_view_exprs(xs@);
        }
        let mut out = String::new();
        let mut i: usize = 0;
        while i < xs.len()
            invariant
                i <= xs.len(),
                mode <= 2,
                pure == self.ctx().pure,
                vs == view_exprs(xs@),
                vs.len() == xs.len(),
                forall|j: int| 0 <= j < vs.len() ==> #[trigger] vs[j] == view_expr(xs@[j]),
                out@ == join(exprs_text(pure, self.in_scope, vs.take(i as int), mode as nat), ", "@),
            decreases xs.len() - i,
        {
            proof {
                assert(decreases_to!(*xs => xs[i as int]));
                assert(vs.take(i + 1).drop_last() == vs.take(i as int));
                assert(vs.take(i + 1).last() == vs[i as int]);
                lemma_exprs_text_len(pure, self.in_scope, vs.take(i as int), mode as nat);
                lemma_join_push(
                    exprs_text(pure, self.in_scope, vs.take(i as int), mode as nat),
                    render(pure, self.in_scope, vs[i as int], mode as nat),
                    ", "@,
                );
            }
            if i > 0 {
                push_str(&mut out, ", ");
            }
            let x = self.generate_render(&xs[i], mode);
            push_str(&mut out, x.as_str());
            i += 1;
        }
        proof {
            assert(vs.take(i as int) == vs);
        }
        out
    }

    fn generate_expr(&self, expr: &Expr) -> (r: String)
        ensures
            r@ == expr_text(self.ctx().pure, self.in_scope, view_expr(*expr)),
        decreases expr, 0nat,
    {
        let ghost pure = self.ctx().pure;
        match expr {
            Expr::Identifier(s) => str_to_string(s.as_str()),
            Expr::Literal(l) => self.literal(l),
            Expr::Interpolation(parts) => {
                let mut fmt_str = String::new();
                let mut lit_str = String::new();
                let mut args = String::new();
                let mut n_args: usize = 0;
                let ghost vp = view_parts(parts@);
                proof {
                    lemma_view_parts(parts@);
                }
                let mut i: usize = 0;
                while i < parts.len()
                    invariant
                        i <= parts.len(),
                        pure == self.ctx().pure,
                        vp == view_parts(parts@),
                        vp.len() == parts.len(),
                        forall|j: int|
                            0 <= j < vp.len() ==> #[trigger] vp[j] == (match parts@[j] {
                                InterpolPart::Lit(t) => SpecInterpolPart::Lit(t@),
                                InterpolPart::Expr(x) => SpecInterpolPart::Expr(view_expr(x)),
                            }),
                        *expr == Expr::Interpolation(*parts),
                        fmt_str@ == interp_fmt(vp.take(i as int)),
                        lit_str@ == interp_lit(vp.take(i as int)),
                        args@ == join(interp_args(pure, self.in_scope, vp.take(i as int)), ", "@),
                        n_args == interp_args(pure, self.in_scope, vp.take(i as int)).len(),
                        n_args <= i,
                    decreases parts.len() - i,
                {
                    proof {
                        assert(vp.take(i + 1).drop_last() == vp.take(i as int));
                        assert(vp.take(i + 1).last() == vp[i as int]);
                    }
                    match &parts[i] {
                        InterpolPart::Lit(s) => {
                            push_esc_str(&mut fmt_str, s, true);
                            push_esc_str(&mut lit_str, s, false);
                        },
                        InterpolPart::Expr(e) => {
                            proof {
                                assert(decreases_to!(*expr => (*expr)->Interpolation_0));
                                assert(decreases_to!((*expr)->Interpolation_0 => (*expr)->Interpolation_0[i as int]));
                                assert(decreases_to!((*expr)->Interpolation_0[i as int] => (*expr)->Interpolation_0[i as int]->Expr_0));
                                lemma_join_push(
                                    interp_args(pure, self.in_scope, vp.take(i as int)),
                                    expr_text(pure, self.in_scope, view_expr(*e)),
                                    ", "@,
                                );
                            }
                            push_str(&mut fmt_str, "{}");
                            if n_args > 0 {
                                push_str(&mut args, ", ");
                            }
                            let x = self.generate_expr(e);
                            push_str(&mut args, x.as_str());
                            n_args += 1;
                        },
                    }
                    i += 1;
                }
                proof {
                    assert(vp.take(i as int) == vp);
                }
                if n_args == 0 {
                    let mut r = str_to_string("\"");
                    push_str(&mut r, lit_str.as_str());
                    push_str(&mut r, "\".to_string()");
                    r
                } else {
                    let mut r = str_to_string("format!(\"");
                    push_str(&mut r, fmt_str.as_str());
                    push_str(&mut r, "\", ");
                    push_str(&mut r, args.as_str());
                    push_str(&mut r, ")");
                    r
                }
            },
            Expr::Unary(op, inner) => {
                let mut r = match op {
                    UnaryOp::Not => str_to_string("(!"),
                    UnaryOp::Neg => str_to_string("(-"),
                };
                let x = self.generate_expr(inner);
                push_str(&mut r, x.as_str());
                push_str(&mut r, ")");
                r
            },
            Expr::Infra(call) => {
                let mut r = str_to_string("tokio::time::timeout(Duration::from_millis(");
                let t = u64_to_string(call.config.timeout_ms);
                push_str(&mut r, t.as_str());
                push_str(&mut r, "), ");
                push_str(&mut r, call.service.as_str());
                push_str(&mut r, "::");
                push_str(&mut r, call.method.as_str());
                push_str(&mut r, "(");
                let a = self.generate_list(&call.args, 2);
                push_str(&mut r, a.as_str());
                push_str(&mut r, ")).await.unwrap()");
                r
            },
            Expr::JsonField(source, key) => {
                let mut r = str_to_string("serde_json::from_str::<serde_json::Value>(&");
                let x = self.generate_expr(source);
                push_str(&mut r, x.as_str());
                push_str(&mut r, ").ok().and_then(|v| v.get(\"");
                push_str(&mut r, key.as_str());
                push_str(
                    &mut r,
                    "\").map(|x| if x.is_string() { x.as_str().unwrap().to_string() } else { x.to_string() })).unwrap_or(\"HATA\".to_string())",
                );
                r
            },
            Expr::ArrayLiteral(elements) => {
                let mut r = str_to_string("vec![");
                let a = self.generate_list(elements, 0);
                push_str(&mut r, a.as_str());
                push_str(&mut r, "]");
                r
            },
            Expr::Index(arr, idx) => {
                let mut r = self.generate_expr(arr);
                push_str(&mut r, "[(");
                let x = self.generate_expr(idx);
                push_str(&mut r, x.as_str());
                push_str(&mut r, " as usize)]");
                r
            },
            Expr::TupleLiteral(elements) => {
                let mut r = str_to_string("(");
                let a = self.generate_list(elements, 0);
                push_str(&mut r, a.as_str());
                push_str(&mut r, ")");
                r
            },
            Expr::TupleIndex(inner, idx) => {
                let mut r = self.generate_expr(inner);
                push_str(&mut r, ".");
                let d = usize_to_string(*idx);
                push_str(&mut r, d.as_str());
                r
            },
            Expr::Binary(left, op, right) => {
                match op {
                    BinaryOp::Add => {
                        let mut r = self.generate_expr_owned(left);
                        push_str(&mut r, ".z_add(");
                        let x = self.generate_expr_owned(right);
                        push_str(&mut r, x.as_str());
                        push_str(&mut r, ")");
                        r
                    },
                    BinaryOp::Mul => {
                        let mut r = self.generate_expr_owned(left);
                        push_str(&mut r, ".z_mul(");
                        let x = self.generate_expr_owned(right);
                        push_str(&mut r, x.as_str());
                        push_str(&mut r, ")");
                        r
                    },
                    _ => {
                        let op_str = op_string(*op);
                        let mut r = str_to_string("(");
                        let l = self.generate_expr(left);
                        push_str(&mut r, l.as_str());
                        push_str(&mut r, " ");
                        push_str(&mut r, op_str.as_str());
                        push_str(&mut r, " ");
                        let x = self.generate_expr(right);
                        push_str(&mut r, x.as_str());
                        push_str(&mut r, ")");
                        r
                    },
                }
            },
            Expr::Call(n, a, _awaited) => {
                proof {
                    lemma_view_exprs(a@);
                }
                if str_eq(n.as_str(), "println") {
                    if a.len() == 0 {
                        return str_to_string("println!()");
                    }
                    let mut r = str_to_string("println!(\"{}\", ");
                    let x = self.generate_list(a, 0);
                    push_str(&mut r, x.as_str());
                    push_str(&mut r, ")");
                    return r;
                }
                if str_eq(n.as_str(), "print") {
                    if a.len() == 0 {
                        return str_to_string("print!()");
                    }
                    let mut r = str_to_string("print!(\"{}\", ");
                    let x = self.generate_list(a, 0);
                    push_str(&mut r, x.as_str());
                    push_str(&mut r, ")");
                    return r;
                }
                if str_eq(n.as_str(), "input") || str_eq(n.as_str(), "inputln") {
                    let mut r = str_to_string(n.as_str());
                    push_str(&mut r, "(");
                    let x = self.generate_list(a, 2);
                    push_str(&mut r, x.as_str());
                    push_str(&mut r, ")");
                    push_str(&mut r, ".await");
                    return r;
                }
                let pure_call = self.is_pure_name(n);
                let mut r = String::new();
                push_path(&mut r, n);
                push_str(&mut r, "(");
                let x = self.generate_list(a, 1);
                push_str(&mut r, x.as_str());
                push_str(&mut r, ")");
                if !pure_call {
                    push_str(&mut r, ".await");
                } else {
                    proof {
                        assert(r@ + Seq::<char>::empty() == r@);
                    }
                }
                r
            },
            Expr::Spawn(e) => {
                if self.in_scope {
                    let mut r = str_to_string("_zet_handles.push(tokio::spawn(async move { ");
                    let x = self.generate_expr(e);
                    push_str(&mut r, x.as_str());
                    push_str(&mut r, " }))");
                    r
                } else {
                    let mut r = str_to_string("tokio::spawn(async move { ");
                    let x = self.generate_expr(e);
                    push_str(&mut r, x.as_str());
                    push_str(&mut r, " })");
                    r
                }
            },
            Expr::Await(e) => {
                let mut r = self.generate_expr(e);
                push_str(&mut r, ".await");
                r
            },
            Expr::InlineRust(code) => str_to_string(code.as_str()),
            Expr::MethodCall(obj, m, args) => {
                let mut r = self.generate_expr(obj);
                push_str(&mut r, ".");
                push_str(&mut r, m.as_str());
                push_str(&mut r, "(");
                let x = self.generate_list(args, 0);
                push_str(&mut r, x.as_str());
                push_str(&mut r, ")");
                r
            },
            Expr::StructLiteral(name, fields) => {
                let mut joined = String::new();
                let ghost vf = view_fields(fields@);
                proof {
                    lemma_view_fields(fields@);
                }
                let mut i: usize = 0;
                while i < fields.len()
                    invariant
                        i <= fields.len(),
                        pure == self.ctx().pure,
                        vf == view_fields(fields@),
                        vf.len() == fields.len(),
                        forall|j: int|
                            0 <= j < vf.len() ==> (#[trigger] vf[j]) == (
                                fields@[j].0@,
                                view_expr(fields@[j].1),
                            ),
                        *expr == Expr::StructLiteral(*name, *fields),
                        joined@ == join(fields_text(pure, self.in_scope, vf.take(i as int)), ", "@),
                    decreases fields.len() - i,
                {
                    proof {
                        assert(decreases_to!(*expr => (*expr)->StructLiteral_1));
                        assert(decreases_to!((*expr)->StructLiteral_1 => (*expr)->StructLiteral_1[i as int]));
                        assert(decreases_to!((*expr)->StructLiteral_1[i as int] => (*expr)->StructLiteral_1[i as int].1));
                        assert(vf.take(i + 1).drop_last() == vf.take(i as int));
                        assert(vf.take(i + 1).last() == vf[i as int]);
                        lemma_fields_text_len(pure, self.in_scope, vf.take(i as int));
                        lemma_join_push(
                            fields_text(pure, self.in_scope, vf.take(i as int)),
                            vf[i as int].0 + ": "@ + expr_text(pure, self.in_scope, vf[i as int].1),
                            ", "@,
                        );
                    }
                    if i > 0 {
                        push_str(&mut joined, ", ");
                    }
                    push_str(&mut joined, fields[i].0.as_str());
                    push_str(&mut joined, ": ");
                    let x = self.generate_expr(&fields[i].1);
                    push_str(&mut joined, x.as_str());
                    proof {
                        assert(joined@ =~= join(fields_text(pure, self.in_scope, vf.take(i + 1)), ", "@));
                    }
                    i += 1;
                }
                proof {
                    assert(vf.take(i as int) == vf);
                }
                let mut r = str_to_string(name.as_str());
                push_str(&mut r, " { ");
                push_str(&mut r, joined.as_str());
                push_str(&mut r, " }");
                r
            },
            Expr::FieldAccess(obj, f) => {
                let mut r = self.generate_expr(obj);
                push_str(&mut r, ".");
                push_str(&mut r, f.as_str());
                r
            },
            Expr::Try(e) => {
                let mut r = self.generate_expr(e);
                push_str(&mut r, "?");
                r
            },
            Expr::Catch(e, fallback) => {
                let mut r = self.generate_expr(e);
                push_str(&mut r, ".unwrap_or_else(|_| { ");
                let x = self.generate_expr(fallback);
                push_str(&mut r, x.as_str());
                push_str(&mut r, " })");
                r
            },
        }
    }
}

fn op_string(op: BinaryOp) -> (r: String)
    ensures
        r@ == op_text(op),
{
    match op {
        BinaryOp::Sub => str_to_string("-"),
        BinaryOp::Div => str_to_string("/"),
        BinaryOp::Mod => str_to_string("%"),
        BinaryOp::Eq => str_to_string("=="),
        BinaryOp::Neq => str_to_string("!="),
        BinaryOp::Gt => str_to_string(">"),
        BinaryOp::Lt => str_to_string("<"),
        BinaryOp::Gte => str_to_string(">="),
        BinaryOp::Lte => str_to_string("<="),
        BinaryOp::And => str_to_string("&&"),
        BinaryOp::Or => str_to_string("||"),
        BinaryOp::BitAnd => str_to_string("&"),
        BinaryOp::BitOr => str_to_string("|"),
        BinaryOp::BitXor => str_to_string("^"),
        BinaryOp::Shl => str_to_string("<<"),
        BinaryOp::Shr => str_to_string(">>"),
        BinaryOp::Add => str_to_string("+"),
        BinaryOp::Mul => str_to_string("*"),
    }
}

} // verus!

verus! {

// ───────────────────────── statements: specification ─────────────────────────

/// The successor of a counter, wrapping around at the top.
pub open spec fn wrap_inc(n: usize) -> usize {
    if n == usize::MAX {
        0
    } else {
        (n + 1) as usize
    }
}

pub open spec fn ind(n: usize) -> Seq<char> {
    indent_text(n as nat)
}

/// One level of indentation deeper.
pub open spec fn deeper(c: GenCtx) -> GenCtx {
    GenCtx { indent: wrap_inc(c.indent), ..c }
}

/// The Rust text of a `match` pattern.
pub open spec fn pattern_text(p: SpecPattern) -> Seq<char> {
    match p {
        SpecPattern::Literal(SpecLiteral::Str(s)) => "\""@ + esc_str(s) + "\""@,
        SpecPattern::Literal(l) => literal_text(l),
        SpecPattern::Identifier(n) => n,
        SpecPattern::Wildcard => "_"@,
    }
}

/// The text of one statement and the label counter after it.
pub open spec fn stmt_text(c: GenCtx, next: usize, s: SpecStatement) -> (Seq<char>, usize)
    decreases s, 0nat,
{
    let i0 = ind(c.indent);
    let i1 = ind(wrap_inc(c.indent));
    let i2 = ind(wrap_inc(wrap_inc(c.indent)));
    match s {
        SpecStatement::Let { name, value } => (
            i0 + "let mut "@ + name + " = "@ + expr_text(c.pure, c.in_scope, value) + ";\n"@,
            next,
        ),
        SpecStatement::Const { name, value } => (
            i0 + "let "@ + name + " = "@ + expr_text(c.pure, c.in_scope, value) + ";\n"@,
            next,
        ),
        SpecStatement::Assign { name, value, .. } => (
            i0 + name + " = "@ + expr_text(c.pure, c.in_scope, value) + ";\n"@,
            next,
        ),
        SpecStatement::IndexAssign { name, index, value, .. } => (
            i0 + name + "[("@ + expr_text(c.pure, c.in_scope, index) + " as usize)] = "@
                + expr_text(c.pure, c.in_scope, value) + ";\n"@,
            next,
        ),
        SpecStatement::ExprStmt(x) => (i0 + expr_text(c.pure, c.in_scope, x) + ";\n"@, next),
        SpecStatement::Break => if c.in_for {
            (i0 + "break '_zet_for_"@ + dec(c.labels.last() as nat) + ";\n"@, next)
        } else {
            (i0 + "break;\n"@, next)
        },
        SpecStatement::Continue => if c.in_for {
            (i0 + "break '_zet_body_"@ + dec(c.labels.last() as nat) + ";\n"@, next)
        } else {
            (i0 + "continue;\n"@, next)
        },
        SpecStatement::While { condition, body } => {
            let (b, n) = block_text(GenCtx { indent: wrap_inc(c.indent), in_for: false, ..c }, next, body);
            (
                i0 + "while "@ + expr_text(c.pure, c.in_scope, condition) + " {\n"@ + b + i0
                    + "}\n"@,
                n,
            )
        },
        SpecStatement::For { var, start, end, step, body } => {
            let id = next;
            let inner = GenCtx {
                indent: wrap_inc(wrap_inc(wrap_inc(c.indent))),
                in_for: true,
                labels: c.labels.push(id),
                ..c
            };
            let (b, n) = block_text(inner, wrap_inc(next), body);
            let step_text = match step {
                Some(x) => expr_text(c.pure, c.in_scope, x),
                None => "1"@,
            };
            let incr = if c.cur_pure {
                i2 + var + " += _zet_step;\n"@
            } else {
                i2 + var + " = "@ + var + ".z_add(_zet_step);\n"@
            };
            (
                i0 + "{\n"@ + i1 + "let mut "@ + var + " = "@ + expr_text(c.pure, c.in_scope, start)
                    + ";\n"@ + i1 + "let _zet_end = "@ + expr_text(c.pure, c.in_scope, end) + ";\n"@
                    + i1 + "let _zet_step = "@ + step_text + ";\n"@ + i1 + "'_zet_for_"@ + dec(
                    id as nat,
                ) + ": while (_zet_step > 0 && "@ + var + " < _zet_end) || (_zet_step < 0 && "@
                    + var + " > _zet_end) {\n"@ + i2 + "'_zet_body_"@ + dec(id as nat) + ": {\n"@
                    + b + i2 + "}\n"@ + incr + i1 + "}\n"@ + i0 + "}\n"@,
                n,
            )
        },
        SpecStatement::If { condition, then_block, else_block } => {
            let (t, n1) = block_text(deeper(c), next, then_block);
            match else_block {
                Some(eb) => {
                    let (e, n2) = block_text(deeper(c), n1, eb);
                    (
                        i0 + "if "@ + expr_text(c.pure, c.in_scope, condition) + " {\n"@ + t + i0
                            + "}"@ + " else {\n"@ + e + i0 + "}"@ + "\n"@,
                        n2,
                    )
                },
                None => (
                    i0 + "if "@ + expr_text(c.pure, c.in_scope, condition) + " {\n"@ + t + i0
                        + "}"@ + "\n"@,
                    n1,
                ),
            }
        },
        SpecStatement::ScopeBlock { name, body } => {
            let (b, n) = block_text(GenCtx { indent: wrap_inc(c.indent), in_scope: true, ..c }, next, body);
            (
                i0 + "// Scope: "@ + name + "\n"@ + i0 + "{\n"@ + i1
                    + "let mut _zet_handles: Vec<tokio::task::JoinHandle<()>> = Vec::new();\n"@ + b
                    + i1 + "for _h in _zet_handles { _h.await.ok(); }\n"@ + i0 + "}\n"@,
                n,
            )
        },
        SpecStatement::ValidateBlock { target, on_fail, success_scope, .. } => {
            let (sb, n1) = block_text(deeper(deeper(c)), next, success_scope);
            let (fb, n2) = if on_fail.statements.len() == 0 {
                (i2 + "eprintln!(\"  {}[VALIDATE FAIL] {}{}\", RED, _zet_err, RESET);\n"@, n1)
            } else {
                block_text(deeper(deeper(c)), n1, on_fail)
            };
            (
                i0 + "match "@ + target + ".validate() {\n"@ + i1 + "Ok("@ + target + ") => {\n"@
                    + sb + i1 + "}\n"@ + i1 + "Err(_zet_err) => {\n"@ + fb + i1 + "}\n"@ + i0
                    + "}\n"@,
                n2,
            )
        },
        SpecStatement::Match { expr, arms } => {
            let (a, n) = arms_text(c, next, arms);
            (i0 + "match "@ + expr_text(c.pure, c.in_scope, expr) + " {\n"@ + a + i0 + "}\n"@, n)
        },
        SpecStatement::Return(Some(x)) => (
            i0 + "return "@ + expr_text(c.pure, c.in_scope, x) + ";\n"@,
            next,
        ),
        SpecStatement::Return(None) => (i0 + "return;\n"@, next),
    }
}

/// The text of a list of statements, one after the other, with the label counter threaded.
pub open spec fn stmts_text(c: GenCtx, next: usize, s: Seq<SpecStatement>) -> (Seq<char>, usize)
    decreases s, 1nat,
{
    if s.len() == 0 {
        (Seq::empty(), next)
    } else {
        let (t0, n0) = stmts_text(c, next, s.drop_last());
        let (t1, n1) = stmt_text(c, n0, s.last());
        (t0 + t1, n1)
    }
}

pub open spec fn block_text(c: GenCtx, next: usize, b: SpecBlock) -> (Seq<char>, usize)
    decreases b, 0nat,
{
    stmts_text(c, next, b.statements)
}

/// The arms of a `match`, each as `pattern => { body }` one level deeper.
pub open spec fn arms_text(c: GenCtx, next: usize, s: Seq<SpecMatchArm>) -> (Seq<char>, usize)
    decreases s, 1nat,
{
    if s.len() == 0 {
        (Seq::empty(), next)
    } else {
        let (t0, n0) = arms_text(c, next, s.drop_last());
        let (b, n1) = block_text(deeper(deeper(c)), n0, s.last().body);
        (
            t0 + ind(wrap_inc(c.indent)) + pattern_text(s.last().pattern) + " => {\n"@ + b + ind(
                wrap_inc(c.indent),
            ) + "}\n"@,
            n1,
        )
    }
}

} // verus!

verus! {

fn inc(n: usize) -> (r: usize)
    ensures
        r == wrap_inc(n),
{
    if n == usize::MAX {
        0
    } else {
        n + 1
    }
}

impl Codegen {
    fn generate_block(&mut self, block: &Block) -> (r: String)
        requires
            old(self).wf(),
        ensures
            final(self).wf(),
            final(self).ctx() == old(self).ctx(),
            (r@, final(self).next_label()) == block_text(
                old(self).ctx(),
                old(self).next_label(),
                view_block(*block),
            ),
        decreases block, 0nat,
    {
        let ghost c = self.ctx();
        let ghost n0 = self.next_label();
        let ghost ss = view_stmts(block.statements@);
        proof {
            lemma_view_stmts(block.statements@);
        }
        let mut code = String::new();
        let mut i: usize = 0;
        while i < block.statements.len()
            invariant
                i <= block.statements.len(),
                self.wf(),
                self.ctx() == c,
                c == old(self).ctx(),
                n0 == old(self).next_label(),
                ss == view_stmts(block.statements@),
                ss.len() == block.statements.len(),
                forall|j: int| 0 <= j < ss.len() ==> #[trigger] ss[j] == view_stmt(block.statements@[j]),
                (code@, self.next_label()) == stmts_text(c, n0, ss.take(i as int)),
            decreases block.statements.len() - i,
        {
            proof {
                assert(decreases_to!(*block => block.statements));
                assert(decreases_to!(block.statements => block.statements[i as int]));
                assert(ss.take(i + 1).drop_last() == ss.take(i as int));
                assert(ss.take(i + 1).last() == ss[i as int]);
            }
            let s = self.generate_stmt(&block.statements[i]);
            push_str(&mut code, s.as_str());
            i += 1;
        }
        proof {
            assert(ss.take(i as int) == ss);
        }
        code
    }

    fn generate_stmt(&mut self, stmt: &Statement) -> (r: String)
        requires
            old(self).wf(),
        ensures
            final(self).wf(),
            final(self).ctx() == old(self).ctx(),
            (r@, final(self).next_label()) == stmt_text(
                old(self).ctx(),
                old(self).next_label(),
                view_stmt(*stmt),
            ),
        decreases stmt, 1nat,
    {
        match stmt {
            Statement::While { .. } => self.gen_while(stmt),
            Statement::For { .. } => self.gen_for(stmt),
            Statement::If { .. } => self.gen_if(stmt),
            Statement::ScopeBlock { .. } => self.gen_scope(stmt),
            Statement::ValidateBlock { .. } => self.gen_validate(stmt),
            Statement::Match { .. } => self.gen_match(stmt),
            _ => self.gen_simple(stmt),
        }
    }

    fn gen_simple(&mut self, stmt: &Statement) -> (r: String)
        requires
            old(self).wf(),
            !(*stmt is While || *stmt is For || *stmt is If || *stmt is ScopeBlock || *stmt is ValidateBlock || *stmt is Match),
        ensures
            final(self).wf(),
            final(self).ctx() == old(self).ctx(),
            (r@, final(self).next_label()) == stmt_text(
                old(self).ctx(),
                old(self).next_label(),
                view_stmt(*stmt),
            ),
        decreases stmt, 0nat,
    {
        let indent = self.indent();
        let level = self.indent_level;
        match stmt {
            Statement::Let(l) => {
                let mut s = indent;
                push_str(&mut s, "let mut ");
                push_str(&mut s, l.name.as_str());
                push_str(&mut s, " = ");
                let x = self.generate_expr(&l.value);
                push_str(&mut s, x.as_str());
                push_str(&mut s, ";\n");
                s
            },
            Statement::Const { name, value } => {
                let mut s = indent;
                push_str(&mut s, "let ");
                push_str(&mut s, name.as_str());
                push_str(&mut s, " = ");
                let x = self.generate_expr(value);
                push_str(&mut s, x.as_str());
                push_str(&mut s, ";\n");
                s
            },
            Statement::Assign { name, value, .. } => {
                let mut s = indent;
                push_str(&mut s, name.as_str());
                push_str(&mut s, " = ");
                let x = self.generate_expr(value);
                push_str(&mut s, x.as_str());
                push_str(&mut s, ";\n");
                s
            },
            Statement::IndexAssign { name, index, value, .. } => {
                let mut s = indent;
                push_str(&mut s, name.as_str());
                push_str(&mut s, "[(");
                let x = self.generate_expr(index);
                push_str(&mut s, x.as_str());
                push_str(&mut s, " as usize)] = ");
                let y = self.generate_expr(value);
                push_str(&mut s, y.as_str());
                push_str(&mut s, ";\n");
                s
            },
            Statement::ExprStmt(e) => {
                let mut s = indent;
                let x = self.generate_expr(e);
                push_str(&mut s, x.as_str());
                push_str(&mut s, ";\n");
                s
            },
            Statement::Break => {
                let mut s = indent;
                if self.in_for_loop {
                    let id = self.for_label_stack[self.for_label_stack.len() - 1];
                    push_str(&mut s, "break '_zet_for_");
                    let d = usize_to_string(id);
                    push_str(&mut s, d.as_str());
                    push_str(&mut s, ";\n");
                } else {
                    push_str(&mut s, "break;\n");
                }
                s
            },
            Statement::Continue => {
                let mut s = indent;
                if self.in_for_loop {
                    let id = self.for_label_stack[self.for_label_stack.len() - 1];
                    push_str(&mut s, "break '_zet_body_");
                    let d = usize_to_string(id);
                    push_str(&mut s, d.as_str());
                    push_str(&mut s, ";\n");
                } else {
                    push_str(&mut s, "continue;\n");
                }
                s
            },
            Statement::Return(Some(e)) => {
                let mut s = indent;
                push_str(&mut s, "return ");
                let x = self.generate_expr(e);
                push_str(&mut s, x.as_str());
                push_str(&mut s, ";\n");
                s
            },
            Statement::Return(None) => {
                let mut s = indent;
                push_str(&mut s, "return;\n");
                s
            },
            _ => {
                proof {
                    assert(false);
                }
                String::new()
            },
        }
    }

    fn gen_while(&mut self, stmt: &Statement) -> (r: String)
        requires
            old(self).wf(),
            *stmt is While,
        ensures
            final(self).wf(),
            final(self).ctx() == old(self).ctx(),
            (r@, final(self).next_label()) == stmt_text(
                old(self).ctx(),
                old(self).next_label(),
                view_stmt(*stmt),
            ),
        decreases stmt, 0nat,
    {
        let indent = self.indent();
        let level = self.indent_level;
        match stmt {
            Statement::While { condition, body } => {
                let mut s = str_to_string(indent.as_str());
                push_str(&mut s, "while ");
                let x = self.generate_expr(condition);
                push_str(&mut s, x.as_str());
                push_str(&mut s, " {\n");
                let prev_in_for = self.in_for_loop;
                self.indent_level = inc(level);
                self.in_for_loop = false;
                let b = self.generate_block(body);
                self.in_for_loop = prev_in_for;
                self.indent_level = level;
                push_str(&mut s, b.as_str());
                push_str(&mut s, indent.as_str());
                push_str(&mut s, "}\n");
                s
            },
            _ => {
                proof {
                    assert(false);
                }
                String::new()
            },
        }
    }

    #[verifier::rlimit(100)]
    fn gen_for(&mut self, stmt: &Statement) -> (r: String)
        requires
            old(self).wf(),
            *stmt is For,
        ensures
            final(self).wf(),
            final(self).ctx() == old(self).ctx(),
            (r@, final(self).next_label()) == stmt_text(
                old(self).ctx(),
                old(self).next_label(),
                view_stmt(*stmt),
            ),
        decreases stmt, 0nat,
    {
        let indent = self.indent();
        let level = self.indent_level;
        match stmt {
            Statement::For { var, start, end, step, body } => {
                let step_expr = match step {
                    Some(x) => self.generate_expr(x),
                    None => str_to_string("1"),
                };
                let label_id = self.for_label_id;
                self.for_label_id = inc(label_id);
                let ind1 = indent_string(inc(level));
                let ind2 = indent_string(inc(inc(level)));
                let label = usize_to_string(label_id);
                let mut s = str_to_string(indent.as_str());
                push_str(&mut s, "{\n");
                push_str(&mut s, ind1.as_str());
                push_str(&mut s, "let mut ");
                push_str(&mut s, var.as_str());
                push_str(&mut s, " = ");
                let x = self.generate_expr(start);
                push_str(&mut s, x.as_str());
                push_str(&mut s, ";\n");
                push_str(&mut s, ind1.as_str());
                push_str(&mut s, "let _zet_end = ");
                let y = self.generate_expr(end);
                push_str(&mut s, y.as_str());
                push_str(&mut s, ";\n");
                push_str(&mut s, ind1.as_str());
                push_str(&mut s, "let _zet_step = ");
                push_str(&mut s, step_expr.as_str());
                push_str(&mut s, ";\n");
                push_str(&mut s, ind1.as_str());
                push_str(&mut s, "'_zet_for_");
                push_str(&mut s, label.as_str());
                push_str(&mut s, ": while (_zet_step > 0 && ");
                push_str(&mut s, var.as_str());
                push_str(&mut s, " < _zet_end) || (_zet_step < 0 && ");
                push_str(&mut s, var.as_str());
                push_str(&mut s, " > _zet_end) {\n");
                push_str(&mut s, ind2.as_str());
                push_str(&mut s, "'_zet_body_");
                push_str(&mut s, label.as_str());
                push_str(&mut s, ": {\n");
                let prev_in_for = self.in_for_loop;
                self.indent_level = inc(inc(inc(level)));
                self.in_for_loop = true;
                self.for_label_stack.push(label_id);
                let b = self.generate_block(body);
                self.for_label_stack.pop();
                self.in_for_loop = prev_in_for;
                self.indent_level = level;
                push_str(&mut s, b.as_str());
                push_str(&mut s, ind2.as_str());
                push_str(&mut s, "}\n");
                push_str(&mut s, ind2.as_str());
                push_str(&mut s, var.as_str());
                if self.is_current_func_pure {
                    push_str(&mut s, " += _zet_step;\n");
                } else {
                    push_str(&mut s, " = ");
                    push_str(&mut s, var.as_str());
                    push_str(&mut s, ".z_add(_zet_step);\n");
                }
                push_str(&mut s, ind1.as_str());
                push_str(&mut s, "}\n");
                push_str(&mut s, indent.as_str());
                push_str(&mut s, "}\n");
                proof {
                    assert(self.ctx().labels =~= old(self).ctx().labels);
                }
                s
            },
            _ => {
                proof {
                    assert(false);
                }
                String::new()
            },
        }
    }

    fn gen_if(&mut self, stmt: &Statement) -> (r: String)
        requires
            old(self).wf(),
            *stmt is If,
        ensures
            final(self).wf(),
            final(self).ctx() == old(self).ctx(),
            (r@, final(self).next_label()) == stmt_text(
                old(self).ctx(),
                old(self).next_label(),
                view_stmt(*stmt),
            ),
        decreases stmt, 0nat,
    {
        let indent = self.indent();
        let level = self.indent_level;
        match stmt {
            Statement::If { condition, then_block, else_block } => {
                let mut s = str_to_string(indent.as_str());
                push_str(&mut s, "if ");
                let x = self.generate_expr(condition);
                push_str(&mut s, x.as_str());
                push_str(&mut s, " {\n");
                self.indent_level = inc(level);
                let t = self.generate_block(then_block);
                self.indent_level = level;
                push_str(&mut s, t.as_str());
                push_str(&mut s, indent.as_str());
                push_str(&mut s, "}");
                if let Some(else_b) = else_block {
                    push_str(&mut s, " else {\n");
                    self.indent_level = inc(level);
                    let e = self.generate_block(else_b);
                    self.indent_level = level;
                    push_str(&mut s, e.as_str());
                    push_str(&mut s, indent.as_str());
                    push_str(&mut s, "}");
                }
                push_str(&mut s, "\n");
                s
            },
            _ => {
                proof {
                    assert(false);
                }
                String::new()
            },
        }
    }

    fn gen_scope(&mut self, stmt: &Statement) -> (r: String)
        requires
            old(self).wf(),
            *stmt is ScopeBlock,
        ensures
            final(self).wf(),
            final(self).ctx() == old(self).ctx(),
            (r@, final(self).next_label()) == stmt_text(
                old(self).ctx(),
                old(self).next_label(),
                view_stmt(*stmt),
            ),
        decreases stmt, 0nat,
    {
        let indent = self.indent();
        let level = self.indent_level;
        match stmt {
            Statement::ScopeBlock { name, body } => {
                let ind1 = indent_string(inc(level));
                let mut s = str_to_string(indent.as_str());
                push_str(&mut s, "// Scope: ");
                push_str(&mut s, name.as_str());
                push_str(&mut s, "\n");
                push_str(&mut s, indent.as_str());
                push_str(&mut s, "{\n");
                push_str(&mut s, ind1.as_str());
                push_str(&mut s, "let mut _zet_handles: Vec<tokio::task::JoinHandle<()>> = Vec::new();\n");
                let was_in_scope = self.in_scope;
                self.indent_level = inc(level);
                self.in_scope = true;
                let b = self.generate_block(body);
                self.in_scope = was_in_scope;
                self.indent_level = level;
                push_str(&mut s, b.as_str());
                push_str(&mut s, ind1.as_str());
                push_str(&mut s, "for _h in _zet_handles { _h.await.ok(); }\n");
                push_str(&mut s, indent.as_str());
                push_str(&mut s, "}\n");
                s
            },
            _ => {
                proof {
                    assert(false);
                }
                String::new()
            },
        }
    }

    #[verifier::rlimit(60)]
    fn gen_validate(&mut self, stmt: &Statement) -> (r: String)
        requires
            old(self).wf(),
            *stmt is ValidateBlock,
        ensures
            final(self).wf(),
            final(self).ctx() == old(self).ctx(),
            (r@, final(self).next_label()) == stmt_text(
                old(self).ctx(),
                old(self).next_label(),
                view_stmt(*stmt),
            ),
        decreases stmt, 0nat,
    {
        let indent = self.indent();
        let level = self.indent_level;
        match stmt {
            Statement::ValidateBlock { target, success_scope, on_fail, .. } => {
                let ind1 = indent_string(inc(level));
                let ind2 = indent_string(inc(inc(level)));
                let mut s = str_to_string(indent.as_str());
                push_str(&mut s, "match ");
                push_str(&mut s, target.as_str());
                push_str(&mut s, ".validate() {\n");
                push_str(&mut s, ind1.as_str());
                push_str(&mut s, "Ok(");
                push_str(&mut s, target.as_str());
                push_str(&mut s, ") => {\n");
                self.indent_level = inc(inc(level));
                let sb = self.generate_block(success_scope);
                self.indent_level = level;
                push_str(&mut s, sb.as_str());
                push_str(&mut s, ind1.as_str());
                push_str(&mut s, "}\n");
                push_str(&mut s, ind1.as_str());
                push_str(&mut s, "Err(_zet_err) => {\n");
                if on_fail.statements.len() == 0 {
                    push_str(&mut s, ind2.as_str());
                    push_str(&mut s, "eprintln!(\"  {}[VALIDATE FAIL] {}{}\", RED, _zet_err, RESET);\n");
                } else {
                    self.indent_level = inc(inc(level));
                    let fb = self.generate_block(on_fail);
                    self.indent_level = level;
                    push_str(&mut s, fb.as_str());
                }
                push_str(&mut s, ind1.as_str());
                push_str(&mut s, "}\n");
                push_str(&mut s, indent.as_str());
                push_str(&mut s, "}\n");
                s
            },
            _ => {
                proof {
                    assert(false);
                }
                String::new()
            },
        }
    }

    #[verifier::rlimit(60)]
    fn gen_match(&mut self, stmt: &Statement) -> (r: String)
        requires
            old(self).wf(),
            *stmt is Match,
        ensures
            final(self).wf(),
            final(self).ctx() == old(self).ctx(),
            (r@, final(self).next_label()) == stmt_text(
                old(self).ctx(),
                old(self).next_label(),
                view_stmt(*stmt),
            ),
        decreases stmt, 0nat,
    {
        let indent = self.indent();
        let level = self.indent_level;
        match stmt {
            Statement::Match { expr, arms } => {
                let ind1 = indent_string(inc(level));
                let mut s = str_to_string(indent.as_str());
                push_str(&mut s, "match ");
                let x = self.generate_expr(expr);
                push_str(&mut s, x.as_str());
                push_str(&mut s, " {\n");
                let ghost c = self.ctx();
                let ghost n0 = self.next_label();
                let ghost va = view_arms(arms@);
                let ghost head = s@;
                proof {
                    lemma_view_arms(arms@);
                }
                let mut i: usize = 0;
                while i < arms.len()
                    invariant
                        i <= arms.len(),
                        self.wf(),
                        self.ctx() == c,
                        c == old(self).ctx(),
                        n0 == old(self).next_label(),
                        level == c.indent,
                        ind1@ == ind(wrap_inc(level)),
                        va == view_arms(arms@),
                        va.len() == arms.len(),
                        forall|j: int|
                            0 <= j < va.len() ==> #[trigger] va[j] == (SpecMatchArm {
                                pattern: view_pattern(arms@[j].pattern),
                                body: view_block(arms@[j].body),
                            }),
                        *stmt == (Statement::Match { expr: *expr, arms: *arms }),
                        (s@, self.next_label()) == (
                            head + arms_text(c, n0, va.take(i as int)).0,
                            arms_text(c, n0, va.take(i as int)).1,
                        ),
                    decreases arms.len() - i,
                {
                    proof {
                        assert(decreases_to!(*stmt => (*stmt)->Match_arms));
                        assert(decreases_to!((*stmt)->Match_arms => (*stmt)->Match_arms[i as int]));
                        assert(decreases_to!((*stmt)->Match_arms[i as int] => (*stmt)->Match_arms[i as int].body));
                        assert(va.take(i + 1).drop_last() == va.take(i as int));
                        assert(va.take(i + 1).last() == va[i as int]);
                    }
                    push_str(&mut s, ind1.as_str());
                    let p = pattern_string(&arms[i].pattern, self);
                    push_str(&mut s, p.as_str());
                    push_str(&mut s, " => {\n");
                    self.indent_level = inc(inc(level));
                    let b = self.generate_block(&arms[i].body);
                    self.indent_level = level;
                    push_str(&mut s, b.as_str());
                    push_str(&mut s, ind1.as_str());
                    push_str(&mut s, "}\n");
                    proof {
                        assert(s@ =~= head + arms_text(c, n0, va.take(i + 1)).0);
                    }
                    i += 1;
                }
                proof {
                    assert(va.take(i as int) == va);
                }
                push_str(&mut s, indent.as_str());
                push_str(&mut s, "}\n");
                s
            },
            _ => {
                proof {
                    assert(false);
                }
                String::new()
            },
        }
    }

}

fn pattern_string(p: &Pattern, g: &Codegen) -> (r: String)
    ensures
        r@ == pattern_text(view_pattern(*p)),
{
    match p {
        Pattern::Literal(Literal::Str(t)) => {
            let mut s = str_to_string("\"");
            push_esc_str(&mut s, t, false);
            push_str(&mut s, "\"");
            s
        },
        Pattern::Literal(l) => g.literal(l),
        Pattern::Identifier(n) => str_to_string(n.as_str()),
        Pattern::Wildcard => str_to_string("_"),
    }
}

} // verus!

verus! {

// ───────────────────────── functions and programs ─────────────────────────

/// `name: Type` for each parameter.
pub open spec fn params_text(ps: Seq<SpecParam>) -> Seq<Seq<char>> {
    ps.map_values(|p: SpecParam| p.name + ": "@ + type_text(p.param_type))
}

/// The Rust name of a function: `main` becomes `user_main`.
pub open spec fn fn_name_text(n: Seq<char>) -> Seq<char> {
    if n == "main"@ {
        "user_main"@
    } else {
        n
    }
}

/// The text of a function: `async` unless it is deterministic.
pub open spec fn function_text(c: GenCtx, next: usize, f: SpecFunctionDef) -> (Seq<char>, usize) {
    let is_pure = c.pure.contains(f.name);
    let (b, n) = block_text(GenCtx { indent: wrap_inc(c.indent), cur_pure: is_pure, ..c }, next, f.body);
    (
        (if is_pure {
            Seq::<char>::empty()
        } else {
            "async "@
        }) + "fn "@ + fn_name_text(f.name) + "("@ + join(params_text(f.params), ", "@) + ") -> "@
            + type_text(f.return_type) + " {\n"@ + b + "}\n\n"@,
        n,
    )
}

pub open spec fn functions_text(c: GenCtx, next: usize, fs: Seq<SpecFunctionDef>) -> (Seq<char>, usize)
    decreases fs.len(),
{
    if fs.len() == 0 {
        (Seq::empty(), next)
    } else {
        let (t0, n0) = functions_text(c, next, fs.drop_last());
        let (t1, n1) = function_text(c, n0, fs.last());
        (t0 + t1, n1)
    }
}

/// The names of the deterministic functions, in order.
pub open spec fn pure_names(fs: Seq<SpecFunctionDef>) -> Seq<Seq<char>>
    decreases fs.len(),
{
    if fs.len() == 0 {
        Seq::empty()
    } else if fs.last().purity == Purity::Deterministic {
        pure_names(fs.drop_last()).push(fs.last().name)
    } else {
        pure_names(fs.drop_last())
    }
}

/// The first function named `main`.
pub open spec fn find_main(fs: Seq<SpecFunctionDef>) -> Option<SpecFunctionDef>
    decreases fs.len(),
{
    if fs.len() == 0 {
        None
    } else if fs[0].name == "main"@ {
        Some(fs[0])
    } else {
        find_main(fs.drop_first())
    }
}

/// The Rust `main` that starts the program's `main`.
pub open spec fn main_shim(pure: Seq<Seq<char>>, m: SpecFunctionDef) -> Seq<char> {
    if m.params.len() == 0 {
        if pure.contains(m.name) {
            "fn main() {\n    user_main();\n}"@
        } else {
            "#[tokio::main] async fn main() {\n    user_main().await;\n}"@
        }
    } else {
        "#[tokio::main] async fn main() {\n    let _zet_input = Untrusted(std::env::args().skip(1).collect::<Vec<_>>().join(\" \"));\n    user_main(_zet_input).await;\n}"@
    }
}

/// The context in which a program's functions are written.
pub open spec fn program_ctx(c: GenCtx, fs: Seq<SpecFunctionDef>) -> GenCtx {
    GenCtx { pure: pure_names(fs), ..c }
}

/// The whole Rust program, or nothing when no function is named `main`.
pub open spec fn program_text(c: GenCtx, next: usize, fs: Seq<SpecFunctionDef>) -> Option<Seq<char>> {
    match find_main(fs) {
        Some(m) => Some(
            RUNTIME_PREAMBLE@ + functions_text(program_ctx(c, fs), next, fs).0 + main_shim(
                pure_names(fs),
                m,
            ),
        ),
        None => None,
    }
}

impl Codegen {
    fn generate_function(&mut self, func: &FunctionDef) -> (r: String)
        requires
            old(self).wf(),
        ensures
            final(self).wf(),
            final(self).ctx() == (GenCtx {
                cur_pure: old(self).ctx().pure.contains(func.name@),
                ..old(self).ctx()
            }),
            (r@, final(self).next_label()) == function_text(
                old(self).ctx(),
                old(self).next_label(),
                view_function(*func),
            ),
    {
        let ghost vf = view_function(*func);
        let is_main = str_eq(func.name.as_str(), "main");
        let mut params = String::new();
        let ghost vps = view_params(func.params@);
        let mut i: usize = 0;
        while i < func.params.len()
            invariant
                i <= func.params.len(),
                vps == view_params(func.params@),
                vps.len() == func.params.len(),
                params@ == join(params_text(vps.take(i as int)), ", "@),
            decreases func.params.len() - i,
        {
            proof {
                assert(params_text(vps.take(i + 1)) == params_text(vps.take(i as int)).push(
                    vps[i as int].name + ": "@ + type_text(vps[i as int].param_type),
                ));
                lemma_join_push(
                    params_text(vps.take(i as int)),
                    vps[i as int].name + ": "@ + type_text(vps[i as int].param_type),
                    ", "@,
                );
            }
            if i > 0 {
                push_str(&mut params, ", ");
            }
            push_str(&mut params, func.params[i].name.as_str());
            push_str(&mut params, ": ");
            let t = self.map_type(&func.params[i].param_type);
            push_str(&mut params, t.as_str());
            i += 1;
        }
        proof {
            assert(vps.take(i as int) == vps);
        }
        let is_pure = self.is_pure_name(&func.name);
        self.is_current_func_pure = is_pure;
        let mut code = if is_pure {
            String::new()
        } else {
            str_to_string("async ")
        };
        push_str(&mut code, "fn ");
        if is_main {
            push_str(&mut code, "user_main");
        } else {
            push_str(&mut code, func.name.as_str());
        }
        push_str(&mut code, "(");
        push_str(&mut code, params.as_str());
        push_str(&mut code, ") -> ");
        let ret = self.map_type(&func.return_type);
        push_str(&mut code, ret.as_str());
        push_str(&mut code, " {\n");
        let level = self.indent_level;
        self.indent_level = inc(level);
        let b = self.generate_block(&func.body);
        self.indent_level = level;
        push_str(&mut code, b.as_str());
        push_str(&mut code, "}\n\n");
        proof {
            assert(code@ =~= function_text(old(self).ctx(), old(self).next_label(), vf).0);
        }
        code
    }

    fn generate_main_shim(&self, main_fn: &FunctionDef) -> (r: String)
        ensures
            r@ == main_shim(self.ctx().pure, view_function(*main_fn)),
    {
        let is_pure = self.is_pure_name(&main_fn.name);
        if main_fn.params.len() == 0 {
            if is_pure {
                str_to_string("fn main() {\n    user_main();\n}")
            } else {
                str_to_string("#[tokio::main] async fn main() {\n    user_main().await;\n}")
            }
        } else {
            str_to_string(
                "#[tokio::main] async fn main() {\n    let _zet_input = Untrusted(std::env::args().skip(1).collect::<Vec<_>>().join(\" \"));\n    user_main(_zet_input).await;\n}",
            )
        }
    }

    /// Writes the Rust program for the given functions: the runtime, every
    /// function, and a `main` that starts the program's `main`. Returns
    /// `None` when no function is named `main`.
    pub fn generate(&mut self, functions: &Vec<FunctionDef>) -> (r: Option<String>)
        requires
            old(self).wf(),
        ensures
            final(self).wf(),
            match r {
                Some(code) => program_text(
                    old(self).ctx(),
                    old(self).next_label(),
                    view_functions(functions@),
                ) == Some(code@),
                None => program_text(
                    old(self).ctx(),
                    old(self).next_label(),
                    view_functions(functions@),
                ) is None,
            },
            final(self).next_label() == functions_text(
                program_ctx(old(self).ctx(), view_functions(functions@)),
                old(self).next_label(),
                view_functions(functions@),
            ).1,
            final(self).ctx().pure == pure_names(view_functions(functions@)),
            final(self).ctx().indent == old(self).ctx().indent,
            final(self).ctx().in_scope == old(self).ctx().in_scope,
            final(self).ctx().in_for == old(self).ctx().in_for,
            final(self).ctx().labels == old(self).ctx().labels,
    {
        let ghost fs = view_functions(functions@);
        self.pure_functions = Vec::new();
        proof {
            assert(self.ctx().pure =~= Seq::<Seq<char>>::empty());
            assert(fs.take(0) =~= Seq::<crate::ast::SpecFunctionDef>::empty());
            assert(self.ctx() == (GenCtx { pure: pure_names(fs.take(0)), ..old(self).ctx() }));
        }
        let mut i: usize = 0;
        while i < functions.len()
            invariant
                i <= functions.len(),
                fs == view_functions(functions@),
                self.wf(),
                self.ctx() == (GenCtx { pure: pure_names(fs.take(i as int)), ..old(self).ctx() }),
                self.next_label() == old(self).next_label(),
            decreases functions.len() - i,
        {
            proof {
                assert(fs.take(i + 1).drop_last() == fs.take(i as int));
                assert(fs.take(i + 1).last() == view_function(functions@[i as int]));
            }
            if let Purity::Deterministic = functions[i].purity {
                let ghost prev = self.ctx().pure;
                self.pure_functions.push(functions[i].name.clone());
                proof {
                    assert(self.ctx().pure =~= prev.push(functions@[i as int].name@));
                }
            }
            i += 1;
        }
        proof {
            assert(fs.take(i as int) == fs);
        }
        let ghost c = self.ctx();
        let ghost n0 = self.next_label();
        let mut code = self.get_runtime_preamble();
        let mut j: usize = 0;
        while j < functions.len()
            invariant
                j <= functions.len(),
                fs == view_functions(functions@),
                c == program_ctx(old(self).ctx(), fs),
                n0 == old(self).next_label(),
                self.wf(),
                self.ctx() == (GenCtx { cur_pure: self.ctx().cur_pure, ..c }),
                code@ == RUNTIME_PREAMBLE@ + functions_text(c, n0, fs.take(j as int)).0,
                self.next_label() == functions_text(c, n0, fs.take(j as int)).1,
            decreases functions.len() - j,
        {
            proof {
                assert(fs.take(j + 1).drop_last() == fs.take(j as int));
                assert(fs.take(j + 1).last() == view_function(functions@[j as int]));
                lemma_function_text_cur_pure(self.ctx(), c, self.next_label(), fs[j as int]);
            }
            let f = self.generate_function(&functions[j]);
            push_str(&mut code, f.as_str());
            proof {
                assert(code@ =~= RUNTIME_PREAMBLE@ + functions_text(c, n0, fs.take(j + 1)).0);
            }
            j += 1;
        }
        proof {
            assert(fs.take(j as int) == fs);
        }
        let mut k: usize = 0;
        while k < functions.len()
            invariant
                k <= functions.len(),
                fs == view_functions(functions@),
                find_main(fs) == find_main(fs.skip(k as int)),
                c == program_ctx(old(self).ctx(), fs),
                n0 == old(self).next_label(),
                self.wf(),
                self.ctx() == (GenCtx { cur_pure: self.ctx().cur_pure, ..c }),
                code@ == RUNTIME_PREAMBLE@ + functions_text(c, n0, fs).0,
                self.next_label() == functions_text(c, n0, fs).1,
            decreases functions.len() - k,
        {
            proof {
                assert(fs.skip(k as int).drop_first() == fs.skip(k + 1));
                assert(fs.skip(k as int)[0] == view_function(functions@[k as int]));
            }
            if str_eq(functions[k].name.as_str(), "main") {
                let shim = self.generate_main_shim(&functions[k]);
                push_str(&mut code, shim.as_str());
                return Some(code);
            }
            k += 1;
        }
        proof {
            assert(fs.skip(k as int).len() == 0);
        }
        None
    }
}

/// The text of a function does not depend on the `cur_pure` flag it starts with.
pub proof fn lemma_function_text_cur_pure(c1: GenCtx, c2: GenCtx, next: usize, f: SpecFunctionDef)
    requires
        c1 == (GenCtx { cur_pure: c1.cur_pure, ..c2 }),
    ensures
        function_text(c1, next, f) == function_text(c2, next, f),
{
}

} // verus!
