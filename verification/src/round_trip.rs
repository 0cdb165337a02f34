//! A string literal that the generator writes reads back as the same string.
use vstd::prelude::*;
use crate::ast::{SpecExpr, SpecInterpolPart, SpecLiteral};
use crate::codegen::{esc_str, esc_str_char, expr_text};
use crate::grammar::{string, string_body};
use crate::lexer::{at, str_escape};

verus! {

/// `w` holds no `${`, the opening of an interpolation.
pub open spec fn no_interpolation_opener(w: Seq<char>) -> bool {
    forall|j: int| 0 <= j < w.len() - 1 ==> !(#[trigger] w[j] == '$' && w[j + 1] == '{')
}

proof fn lemma_esc_prepend(c: char, w: Seq<char>)
    ensures
        esc_str(seq![c] + w) == esc_str_char(c) + esc_str(w),
    decreases w.len(),
{
    if w.len() == 0 {
        assert(seq![c] + w =~= seq![c]);
        assert(seq![c].drop_last() =~= Seq::<char>::empty());
        assert(esc_str(seq![c]) == esc_str(Seq::<char>::empty()) + esc_str_char(c));
        assert(esc_str_char(c) + Seq::<char>::empty() =~= esc_str_char(c));
    } else {
        let v = seq![c] + w;
        assert(v.drop_last() =~= seq![c] + w.drop_last());
        assert(v.last() == w.last());
        lemma_esc_prepend(c, w.drop_last());
        assert(esc_str(v) == esc_str(v.drop_last()) + esc_str_char(v.last()));
        assert(esc_str(w) == esc_str(w.drop_last()) + esc_str_char(w.last()));
        assert(esc_str(v) =~= esc_str_char(c) + esc_str(w));
    }
}

proof fn lemma_string_body_plain(
    t: Seq<char>,
    k: int,
    parts: Seq<SpecInterpolPart>,
    lit: Seq<char>,
    w: Seq<char>,
)
    requires
        0 <= k,
        k + esc_str(w).len() + 1 <= t.len(),
        t.subrange(k, k + esc_str(w).len()) == esc_str(w),
        t[k + esc_str(w).len()] == '"',
        no_interpolation_opener(w),
    ensures
        string_body(t, k, parts, lit, false) == Some(
            (k + esc_str(w).len() + 1, SpecExpr::Literal(SpecLiteral::Str(lit + w))),
        ),
    decreases w.len(),
{
    reveal_strlit("${");
    if w.len() == 0 {
        assert(lit + w =~= lit);
        assert(esc_str(w).len() == 0);
    } else {
        let c = w[0];
        let w2 = w.drop_first();
        assert(w =~= seq![c] + w2);
        lemma_esc_prepend(c, w2);
        let e = esc_str_char(c);
        let n = esc_str(w).len() as int;
        assert(esc_str(w) == e + esc_str(w2));
        assert forall|j: int| 0 <= j < w2.len() - 1 implies !(#[trigger] w2[j] == '$' && w2[j + 1] == '{') by {
            assert(w2[j] == w[j + 1]);
            assert(w2[j + 1] == w[j + 2]);
        }
        assert(t.subrange(k + e.len(), k + n) =~= esc_str(w2)) by {
            assert forall|j: int| 0 <= j < esc_str(w2).len() implies t.subrange(k + e.len(), k + n)[j] == esc_str(w2)[j] by {
                assert(t.subrange(k, k + n)[e.len() + j] == esc_str(w)[e.len() + j]);
            }
        }
        assert(t[k] == e[0]) by {
            assert(t.subrange(k, k + n)[0] == esc_str(w)[0]);
        }
        if c == '\\' || c == '"' || c == '\n' || c == '\t' {
            assert(e.len() == 2);
            assert(t[k + 1] == e[1]) by {
                assert(t.subrange(k, k + n)[1] == esc_str(w)[1]);
            }
            assert(str_escape(t[k + 1]) == Some(c));
            assert(!at(t, k, "${"@)) by {
                assert(t.subrange(k, k + 2)[0] == t[k]);
            }
            lemma_string_body_plain(t, k + 2, parts, lit.push(c), w2);
            assert(lit.push(c) + w2 =~= lit + w);
        } else {
            assert(e == seq![c]);
            assert(t[k] == c);
            if c == '$' {
                if w2.len() == 0 {
                    assert(t[k + 1] == '"');
                } else {
                    assert(w[1] != '{');
                    assert(w2[0] == w[1]);
                    lemma_esc_prepend(w2[0], w2.drop_first());
                    assert(w2 =~= seq![w2[0]] + w2.drop_first());
                    assert(t[k + 1] == esc_str(w2)[0]) by {
                        assert(t.subrange(k + 1, k + n)[0] == esc_str(w2)[0]);
                    }
                    assert(esc_str(w2)[0] == esc_str_char(w2[0])[0]);
                }
                assert(!at(t, k, "${"@)) by {
                    assert(t.subrange(k, k + 2)[1] == t[k + 1]);
                }
            } else {
                assert(!at(t, k, "${"@)) by {
                    assert(t.subrange(k, k + 2)[0] == t[k]);
                }
            }
            lemma_string_body_plain(t, k + 1, parts, lit.push(c), w2);
            assert(lit.push(c) + w2 =~= lit + w);
        }
    }
}

/// The string literal that the generator writes for a string `w` (the text
/// before `.to_string()`) reads back as `w` itself, as long as `w` holds no
/// `${` (which would open an interpolation).
pub proof fn law_string_literal_reads_back(pure: Seq<Seq<char>>, in_scope: bool, w: Seq<char>)
    requires
        no_interpolation_opener(w),
    ensures
        expr_text(pure, in_scope, SpecExpr::Literal(SpecLiteral::Str(w))) == seq!['"'] + esc_str(w)
            + seq!['"'] + ".to_string()"@,
        string(seq!['"'] + esc_str(w) + seq!['"'], 0) == Some(
            (
                esc_str(w).len() + 2int,
                SpecExpr::Literal(SpecLiteral::Str(w)),
            ),
        ),
{
    reveal_strlit("\"");
    reveal_strlit("\".to_string()");
    reveal_strlit(".to_string()");
    let q = seq!['"'] + esc_str(w) + seq!['"'];
    let n = esc_str(w).len() as int;
    assert(q.subrange(1, 1 + n) =~= esc_str(w));
    assert(q[1 + n] == '"');
    lemma_string_body_plain(q, 1, Seq::empty(), Seq::empty(), w);
    assert(Seq::<char>::empty() + w =~= w);
    assert("\""@ + esc_str(w) + "\".to_string()"@ =~= q + ".to_string()"@);
}

} // verus!
