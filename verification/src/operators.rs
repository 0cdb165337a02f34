//! Binary operators: which operator each spelling is read as, and that the
//! Rust program spells each operator as the source did.
use vstd::prelude::*;
use crate::ast::{BinaryOp, SpecExpr};
use crate::codegen::{expr_text, op_text};
use crate::lexer::{at, binop, lemma_skip_bounds, lemma_trim_bounds, skip, trim};

verus! {

/// The operator read at `p` for one precedence level is written into the
/// Rust program with the very characters it had in the source: they stand
/// between `p` and the start of the right operand. An operation other than
/// `+` and `*` is written as `(left op right)`.
pub proof fn law_operator_spelled_as_read(
    s: Seq<char>,
    p: int,
    lvl: nat,
    q: int,
    op: BinaryOp,
    pure: Seq<Seq<char>>,
    in_scope: bool,
    l: SpecExpr,
    r: SpecExpr,
)
    requires
        0 <= p <= s.len(),
        binop(s, p, lvl) == Some((q, op)),
    ensures
        exists|a: int|
            #![trigger s.subrange(a, a + op_text(op).len())]
            p <= a && a + op_text(op).len() <= q && s.subrange(a, a + op_text(op).len())
                == op_text(op),
        op != BinaryOp::Add && op != BinaryOp::Mul ==> expr_text(
            pure,
            in_scope,
            SpecExpr::Binary(Box::new(l), op, Box::new(r)),
        ) == "("@ + expr_text(pure, in_scope, l) + " "@ + op_text(op) + " "@ + expr_text(
            pure,
            in_scope,
            r,
        ) + ")"@,
{
    reveal_strlit("+");
    reveal_strlit("-");
    reveal_strlit("*");
    reveal_strlit("/");
    reveal_strlit("%");
    reveal_strlit("<");
    reveal_strlit(">");
    reveal_strlit("^");
    reveal_strlit("|");
    reveal_strlit("&");
    let a = skip(s, p);
    let b = trim(s, p);
    lemma_skip_bounds(s, p);
    lemma_trim_bounds(s, p);
    let n = op_text(op).len();
    if lvl == 3 || lvl == 5 {
        lemma_trim_bounds(s, b + 1);
        assert(s.subrange(b, b + 1) =~= seq![s[b]]);
        assert(s.subrange(b, b + n) == op_text(op));
    } else {
        if 0 <= a < s.len() {
            lemma_skip_bounds(s, a + 1);
            assert(s.subrange(a, a + 1) =~= seq![s[a]]);
        }
        lemma_skip_bounds(s, a + n);
        assert(s.subrange(a, a + n) == op_text(op));
    }
}

/// How the operators of `+ -` and `* / %` are read: each character is its
/// own operation.
pub proof fn law_arithmetic_operators(s: Seq<char>, p: int)
    requires
        0 <= p <= s.len(),
        0 <= skip(s, p) < s.len(),
    ensures
        ({
            let a = skip(s, p);
            &&& s[a] == '*' ==> binop(s, p, 8) == Some((skip(s, a + 1), BinaryOp::Mul))
            &&& s[a] == '/' ==> binop(s, p, 8) == Some((skip(s, a + 1), BinaryOp::Div))
            &&& s[a] == '%' ==> binop(s, p, 8) == Some((skip(s, a + 1), BinaryOp::Mod))
            &&& s[a] == '+' ==> binop(s, p, 7) == Some((skip(s, a + 1), BinaryOp::Add))
            &&& s[a] == '-' ==> binop(s, p, 7) == Some((skip(s, a + 1), BinaryOp::Sub))
            &&& s[a] == '^' ==> binop(s, p, 4) == Some((skip(s, a + 1), BinaryOp::BitXor))
        }),
{
}

/// How comparisons are read: `==`, `!=`, `>=`, `<=`, and `>` or `<` not
/// followed by `=`, each as its own operation.
pub proof fn law_comparison_operators(s: Seq<char>, p: int)
    requires
        0 <= p <= s.len(),
        0 <= skip(s, p) < s.len(),
    ensures
        s[skip(s, p)] == '=' && skip(s, p) + 1 < s.len() && s[skip(s, p) + 1] == '=' ==> binop(
            s,
            p,
            2,
        ) == Some((skip(s, skip(s, p) + 2), BinaryOp::Eq)),
        s[skip(s, p)] == '!' && skip(s, p) + 1 < s.len() && s[skip(s, p) + 1] == '=' ==> binop(
            s,
            p,
            2,
        ) == Some((skip(s, skip(s, p) + 2), BinaryOp::Neq)),
        s[skip(s, p)] == '>' && skip(s, p) + 1 < s.len() && s[skip(s, p) + 1] == '=' ==> binop(
            s,
            p,
            2,
        ) == Some((skip(s, skip(s, p) + 2), BinaryOp::Gte)),
        s[skip(s, p)] == '<' && skip(s, p) + 1 < s.len() && s[skip(s, p) + 1] == '=' ==> binop(
            s,
            p,
            2,
        ) == Some((skip(s, skip(s, p) + 2), BinaryOp::Lte)),
        s[skip(s, p)] == '>' && !(skip(s, p) + 1 < s.len() && s[skip(s, p) + 1] == '=') ==> binop(
            s,
            p,
            2,
        ) == Some((skip(s, skip(s, p) + 1), BinaryOp::Gt)),
        s[skip(s, p)] == '<' && !(skip(s, p) + 1 < s.len() && s[skip(s, p) + 1] == '=') ==> binop(
            s,
            p,
            2,
        ) == Some((skip(s, skip(s, p) + 1), BinaryOp::Lt)),
{
    reveal_strlit("==");
    reveal_strlit("!=");
    reveal_strlit(">=");
    reveal_strlit("<=");
    let a = skip(s, p);
    if a + 1 < s.len() {
        assert(s.subrange(a, a + 2) =~= seq![s[a], s[a + 1]]);
        assert(s.subrange(a, a + 2)[0] == s[a]);
        assert(s.subrange(a, a + 2)[1] == s[a + 1]);
    }
    assert("=="@ =~= seq!['=', '=']);
    assert("!="@ =~= seq!['!', '=']);
    assert(">="@ =~= seq!['>', '=']);
    assert("<="@ =~= seq!['<', '=']);
}

/// How the logical, shift and bitwise operators are read: `||`, `&&`, `<<`,
/// `>>`, and `|` or `&` not doubled, each as its own operation.
pub proof fn law_logic_and_bit_operators(s: Seq<char>, p: int)
    requires
        0 <= p <= s.len(),
    ensures
        0 <= skip(s, p) && skip(s, p) + 1 < s.len() && s[skip(s, p)] == '|' && s[skip(s, p) + 1]
            == '|' ==> binop(s, p, 0) == Some((skip(s, skip(s, p) + 2), BinaryOp::Or)),
        0 <= skip(s, p) && skip(s, p) + 1 < s.len() && s[skip(s, p)] == '&' && s[skip(s, p) + 1]
            == '&' ==> binop(s, p, 1) == Some((skip(s, skip(s, p) + 2), BinaryOp::And)),
        0 <= skip(s, p) && skip(s, p) + 1 < s.len() && s[skip(s, p)] == '<' && s[skip(s, p) + 1]
            == '<' ==> binop(s, p, 6) == Some((skip(s, skip(s, p) + 2), BinaryOp::Shl)),
        0 <= skip(s, p) && skip(s, p) + 1 < s.len() && s[skip(s, p)] == '>' && s[skip(s, p) + 1]
            == '>' ==> binop(s, p, 6) == Some((skip(s, skip(s, p) + 2), BinaryOp::Shr)),
        0 <= trim(s, p) < s.len() && s[trim(s, p)] == '|' && !(trim(s, p) + 1 < s.len() && s[trim(
            s,
            p,
        ) + 1] == '|') ==> binop(s, p, 3) == Some((trim(s, trim(s, p) + 1), BinaryOp::BitOr)),
        0 <= trim(s, p) < s.len() && s[trim(s, p)] == '&' && !(trim(s, p) + 1 < s.len() && s[trim(
            s,
            p,
        ) + 1] == '&') ==> binop(s, p, 5) == Some((trim(s, trim(s, p) + 1), BinaryOp::BitAnd)),
{
    reveal_strlit("||");
    reveal_strlit("&&");
    reveal_strlit("<<");
    reveal_strlit(">>");
    let a = skip(s, p);
    lemma_skip_bounds(s, p);
    if 0 <= a && a + 1 < s.len() {
        assert(s.subrange(a, a + 2) =~= seq![s[a], s[a + 1]]);
    }
    assert("||"@ =~= seq!['|', '|']);
    assert("&&"@ =~= seq!['&', '&']);
    assert("<<"@ =~= seq!['<', '<']);
    assert(">>"@ =~= seq!['>', '>']);
}

} // verus!
