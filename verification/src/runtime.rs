//! The runtime of compiled Zet programs, where it computes: validating
//! untrusted text, reading integers from text, the polymorphic `+` and `*`
//! on integers and text, and the error-handling example functions that ship
//! with it.
use vstd::prelude::*;
use crate::lexer::{digits_value, is_digit, is_unicode_space, trim, trim_exec, unicode_space};
use crate::text::{chars_of, dec_int, i64_to_string, push_str, str_to_string, string_from_chars};

verus! {

// ───────────────────────── trimming ─────────────────────────

/// Where the text ends once trailing white space is removed, looking from `j`.
pub open spec fn trim_back(s: Seq<char>, j: int) -> int
    decreases j,
{
    if 0 < j <= s.len() && is_unicode_space(s[j - 1]) {
        trim_back(s, j - 1)
    } else {
        j
    }
}

/// The text without leading and trailing Unicode white space.
pub open spec fn trimmed(s: Seq<char>) -> Seq<char> {
    let a = trim(s, 0);
    let b = trim_back(s, s.len() as int);
    if a < b {
        s.subrange(a, b)
    } else {
        Seq::empty()
    }
}

proof fn lemma_trim_back(s: Seq<char>, j: int)
    requires
        0 <= j <= s.len(),
    ensures
        0 <= trim_back(s, j) <= j,
    decreases j,
{
    if 0 < j && is_unicode_space(s[j - 1]) {
        lemma_trim_back(s, j - 1);
    }
}

/// The text without leading and trailing white space, as `str::trim` gives it.
pub fn trim_text(s: &str) -> (r: String)
    ensures
        r@ == trimmed(s@),
{
    broadcast use crate::lexer::group_lexer_bounds;

    let v = chars_of(s);
    let a = trim_exec(&v, 0);
    let mut b = v.len();
    proof {
        lemma_trim_back(s@, s@.len() as int);
    }
    while b > 0 && unicode_space(v[b - 1])
        invariant
            b <= v.len(),
            v@ == s@,
            trim_back(s@, s@.len() as int) == trim_back(s@, b as int),
        decreases b,
    {
        b -= 1;
    }
    if a < b {
        string_from_chars(&v, a, b)
    } else {
        String::new()
    }
}

// ───────────────────────── untrusted text ─────────────────────────

/// Text from the outside world, not yet validated.
pub struct Untrusted(pub String);

/// The message of a failed validation.
pub open spec fn msg_empty_input() -> Seq<char> {
    "Dogrulama basarisiz: bos girdi."@
}

impl Untrusted {
    /// Validates the text: it is trusted once trimmed, unless nothing is left.
    pub fn validate(self) -> (r: Result<String, String>)
        ensures
            match r {
                Ok(v) => trimmed(self.0@).len() > 0 && v@ == trimmed(self.0@),
                Err(m) => trimmed(self.0@).len() == 0 && m@ == msg_empty_input(),
            },
    {
        let s = trim_text(self.0.as_str());
        if s.as_str().unicode_len() == 0 {
            Err(str_to_string("Dogrulama basarisiz: bos girdi."))
        } else {
            Ok(s)
        }
    }
}

// ───────────────────────── integers from text ─────────────────────────

/// Every character is an ASCII digit.
pub open spec fn all_digits(d: Seq<char>) -> bool {
    forall|i: int| 0 <= i < d.len() ==> is_digit(#[trigger] d[i])
}

/// What `i64::from_str` gives: an optional sign and one or more ASCII digits,
/// within the range of `i64`.
pub open spec fn parse_i64(t: Seq<char>) -> Option<i64> {
    let signed = t.len() > 0 && (t[0] == '-' || t[0] == '+');
    let d = if signed {
        t.drop_first()
    } else {
        t
    };
    let v: int = if t.len() > 0 && t[0] == '-' {
        -digits_value(d)
    } else {
        digits_value(d) as int
    };
    if d.len() > 0 && all_digits(d) && i64::MIN <= v && v <= i64::MAX {
        Some(v as i64)
    } else {
        None
    }
}

/// `Util.to_int`: the integer that the trimmed text denotes, or 0 when it
/// denotes none.
pub fn to_int(s: &str) -> (r: i64)
    ensures
        r == match parse_i64(trimmed(s@)) {
            Some(v) => v,
            None => 0,
        },
{
    let t = trim_text(s);
    let v = chars_of(t.as_str());
    let ghost tv = v@;
    assert(tv == trimmed(s@));
    if v.len() == 0 {
        return 0;
    }
    let neg = v[0] == '-';
    let start: usize = if v[0] == '-' || v[0] == '+' {
        1
    } else {
        0
    };
    let ghost d = if start == 1 {
        tv.drop_first()
    } else {
        tv
    };
    proof {
        assert(d =~= tv.subrange(start as int, tv.len() as int));
    }
    if start == v.len() {
        return 0;
    }
    let mut i = start;
    while i < v.len()
        invariant
            start <= i <= v.len(),
            v@ == tv,
            d == tv.subrange(start as int, tv.len() as int),
            d == (if tv.len() > 0 && (tv[0] == '-' || tv[0] == '+') {
                tv.drop_first()
            } else {
                tv
            }),
            tv == trimmed(s@),
            forall|j: int| start <= j < i ==> is_digit(#[trigger] tv[j]),
        decreases v.len() - i,
    {
        if !('0' <= v[i] && v[i] <= '9') {
            proof {
                assert(d[i - start] == tv[i as int]);
                assert(!is_digit(d[i - start]));
                assert(!all_digits(d));
            }
            return 0;
        }
        i += 1;
    }
    proof {
        assert forall|j: int| 0 <= j < d.len() implies is_digit(#[trigger] d[j]) by {
            assert(d[j] == tv[j + start]);
        }
    }
    let limit: u64 = if neg {
        9223372036854775808u64
    } else {
        9223372036854775807u64
    };
    proof {
        assert(v@.subrange(start as int, v.len() as int) == d);
        assert(neg == (tv.len() > 0 && tv[0] == '-'));
    }
    match crate::lexer::digits_value_exec(&v, start, v.len(), limit) {
        Some(m) => {
            if neg {
                if m == 9223372036854775808u64 {
                    i64::MIN
                } else {
                    -(m as i64)
                }
            } else {
                m as i64
            }
        },
        None => 0,
    }
}

// ───────────────────────── `+` and `*` ─────────────────────────

/// `+` on integers, wrapping around as compiled programs do.
pub fn z_add_int(a: i64, b: i64) -> (r: i64)
    ensures
        r == a.wrapping_add(b),
        i64::MIN <= a + b <= i64::MAX ==> r == a + b,
{
    a.wrapping_add(b)
}

/// `*` on integers, wrapping around as compiled programs do.
pub fn z_mul_int(a: i64, b: i64) -> (r: i64)
    ensures
        r == a.wrapping_mul(b),
{
    a.wrapping_mul(b)
}

/// `+` on texts: concatenation.
pub fn z_add_str(a: &str, b: &str) -> (r: String)
    ensures
        r@ == a@ + b@,
{
    let mut s = str_to_string(a);
    push_str(&mut s, b);
    s
}

/// `+` of a text and an integer: the text followed by the integer's decimal notation.
pub fn z_add_str_int(a: &str, b: i64) -> (r: String)
    ensures
        r@ == a@ + dec_int(b as int),
{
    let n = i64_to_string(b);
    z_add_str(a, n.as_str())
}

/// `+` of a text and a boolean: the text followed by `true` or `false`.
pub fn z_add_str_bool(a: &str, b: bool) -> (r: String)
    ensures
        r@ == a@ + (if b {
            "true"@
        } else {
            "false"@
        }),
{
    if b {
        z_add_str(a, "true")
    } else {
        z_add_str(a, "false")
    }
}

/// `+` of a text and a character.
pub fn z_add_str_char(a: &str, b: char) -> (r: String)
    ensures
        r@ == a@.push(b),
{
    let mut s = str_to_string(a);
    s.push(b);
    s
}

/// The text `s` repeated `n` times.
pub open spec fn repeated(s: Seq<char>, n: nat) -> Seq<char>
    decreases n,
{
    if n == 0 {
        Seq::empty()
    } else {
        repeated(s, (n - 1) as nat) + s
    }
}

/// `*` of a text and a count: the text repeated that many times. The empty
/// text gives the empty text whatever the count; a negative count with any
/// other text is refused.
pub fn z_mul_str(s: &str, n: i64) -> (r: String)
    requires
        n >= 0 || s@.len() == 0,
    ensures
        r@ == if n >= 0 {
            repeated(s@, n as nat)
        } else {
            Seq::<char>::empty()
        },
{
    if s.unicode_len() == 0 {
        proof {
            lemma_repeated_empty(s@, if n >= 0 { n as nat } else { 0 });
        }
        return String::new();
    }
    let mut r = String::new();
    let mut i: i64 = 0;
    while i < n
        invariant
            0 <= i <= n,
            r@ == repeated(s@, i as nat),
        decreases n - i,
    {
        push_str(&mut r, s);
        i += 1;
    }
    r
}

proof fn lemma_repeated_empty(s: Seq<char>, n: nat)
    requires
        s.len() == 0,
    ensures
        repeated(s, n) == Seq::<char>::empty(),
    decreases n,
{
    if n > 0 {
        lemma_repeated_empty(s, (n - 1) as nat);
        assert(repeated(s, (n - 1) as nat) + s =~= Seq::<char>::empty());
    }
}

// ───────────────────────── the error-handling examples ─────────────────────────

/// Division that truncates toward zero, as Rust's `/` on integers does.
pub open spec fn trunc_div(a: int, b: int) -> int {
    let q = (if a < 0 { -a } else { a }) / (if b < 0 { -b } else { b });
    if (a < 0) == (b < 0) {
        q
    } else {
        -q
    }
}

pub open spec fn msg_division_by_zero() -> Seq<char> {
    "Sifira bolme hatasi!"@
}

/// `bolme`: `a / b`, or an error when `b` is zero.
pub fn bolme(a: i64, b: i64) -> (r: Result<i64, String>)
    requires
        !(a == i64::MIN && b == -1),
    ensures
        b == 0 ==> (r matches Err(m) && m@ == msg_division_by_zero()),
        b != 0 ==> (r matches Ok(q) && q == trunc_div(a as int, b as int)),
{
    if b == 0 {
        return Err(str_to_string("Sifira bolme hatasi!"));
    }
    let aa: i128 = if a < 0 {
        -(a as i128)
    } else {
        a as i128
    };
    let bb: i128 = if b < 0 {
        -(b as i128)
    } else {
        b as i128
    };
    let q: i128 = aa / bb;
    proof {
        assert(q <= aa) by (nonlinear_arith)
            requires
                q == aa / bb,
                aa >= 0,
                bb >= 1,
        ;
        assert(q >= 0) by (nonlinear_arith)
            requires
                q == aa / bb,
                aa >= 0,
                bb >= 1,
        ;
        if aa == 9223372036854775808 && (a < 0) == (b < 0) {
            assert(bb >= 2);
            assert(q <= aa / 2) by (nonlinear_arith)
                requires
                    q == aa / bb,
                    aa >= 0,
                    bb >= 2,
            ;
        }
    }
    if (a < 0) == (b < 0) {
        Ok(q as i64)
    } else {
        Ok((-q) as i64)
    }
}

/// `islem_yap`: a failed division falls back to 999, a good one gives 10.
pub fn islem_yap() -> (r: String)
    ensures
        r@ == "Basarili Islem. Total: "@ + dec_int(1009),
{
    let sonuc1: i64 = match bolme(10, 0) {
        Ok(v) => v,
        Err(_) => 999,
    };
    let r2 = bolme(20, 2);
    assert(trunc_div(20, 2) == 10);
    let sonuc2: i64 = match r2 {
        Ok(v) => v,
        Err(_) => 0,
    };
    assert(sonuc2 == 10);
    let total = z_add_int(sonuc1, sonuc2);
    z_add_str_int("Basarili Islem. Total: ", total)
}

/// `hata_firlat`: the division error is passed on.
pub fn hata_firlat() -> (r: Result<String, String>)
    ensures
        r matches Err(m) && m@ == msg_division_by_zero(),
{
    let result = match bolme(10, 0) {
        Ok(v) => v,
        Err(e) => {
            return Err(e);
        },
    };
    Ok(z_add_str_int("Bu satir hic calismayacak: ", result))
}

/// `hata_yakala`: the division error is caught and reported.
pub fn hata_yakala() -> (r: String)
    ensures
        r@ == "Bolme isleminde hata oldu, catch calisti!"@,
{
    let sonuc: i64 = match bolme(5, 0) {
        Ok(v) => v,
        Err(_) => 404,
    };
    if sonuc == 404 {
        return str_to_string("Bolme isleminde hata oldu, catch calisti!");
    }
    z_add_str_int("Sonuc: ", sonuc)
}

} // verus!
