//! Small verified text utilities shared by the transforms: decimal rendering
//! of ordinals, and the facts about it that make generated export names
//! provably distinct (decimal digits are injective as strings and can never
//! be confused with the `_` separator that follows them).

use vstd::prelude::*;

verus! {

/// The decimal digit character for a value below 10.
pub open spec fn dec_digit(d: nat) -> char
    recommends
        d < 10,
{
    if d == 0 {
        '0'
    } else if d == 1 {
        '1'
    } else if d == 2 {
        '2'
    } else if d == 3 {
        '3'
    } else if d == 4 {
        '4'
    } else if d == 5 {
        '5'
    } else if d == 6 {
        '6'
    } else if d == 7 {
        '7'
    } else if d == 8 {
        '8'
    } else {
        '9'
    }
}

/// Minimal decimal rendering of `n` (a single `0` for zero).
pub open spec fn dec_rep(n: nat) -> Seq<char>
    decreases n,
{
    if n < 10 {
        seq![dec_digit(n)]
    } else {
        dec_rep(n / 10).push(dec_digit(n % 10))
    }
}

/// Whether a character is a decimal digit.
pub open spec fn is_dec_digit(c: char) -> bool {
    c == '0' || c == '1' || c == '2' || c == '3' || c == '4' || c == '5' || c == '6' || c == '7'
        || c == '8' || c == '9'
}

/// Every character of a decimal rendering is a digit, and the rendering is
/// never empty.
pub proof fn lemma_dec_rep_digits(n: nat)
    ensures
        dec_rep(n).len() >= 1,
        forall|i: int| 0 <= i < dec_rep(n).len() ==> is_dec_digit(#[trigger] dec_rep(n)[i]),
    decreases n,
{
    if n >= 10 {
        lemma_dec_rep_digits(n / 10);
    }
}

/// Decimal renderings are injective: distinct numbers never print alike.
pub proof fn lemma_dec_rep_injective(m: nat, n: nat)
    requires
        dec_rep(m) == dec_rep(n),
    ensures
        m == n,
    decreases m,
{
    lemma_dec_rep_digits(m);
    lemma_dec_rep_digits(n);
    if m < 10 && n < 10 {
        assert(dec_rep(m)[0] == dec_digit(m));
        assert(dec_rep(n)[0] == dec_digit(n));
        if m != n {
            assert(dec_digit(m) != dec_digit(n));
        }
    } else if m < 10 {
        lemma_dec_rep_digits(n / 10);
        assert(dec_rep(n).len() >= 2);
    } else if n < 10 {
        lemma_dec_rep_digits(m / 10);
        assert(dec_rep(m).len() >= 2);
    } else {
        assert(dec_rep(m).drop_last() =~= dec_rep(m / 10));
        assert(dec_rep(n).drop_last() =~= dec_rep(n / 10));
        lemma_dec_rep_injective(m / 10, n / 10);
        assert(dec_rep(m).last() == dec_digit(m % 10));
        assert(dec_rep(n).last() == dec_digit(n % 10));
        assert(m % 10 < 10 && n % 10 < 10);
        if m % 10 != n % 10 {
            assert(dec_digit(m % 10) != dec_digit(n % 10));
        }
        assert(m % 10 == n % 10);
        assert(m == (m / 10) * 10 + m % 10) by (nonlinear_arith);
        assert(n == (n / 10) * 10 + n % 10) by (nonlinear_arith);
    }
}

/// A decimal number followed by the `_` separator is unambiguous: two texts
/// of the shape `digits ++ '_' ++ rest` built from distinct numbers differ,
/// whatever follows the separator. The separator is not a digit, so neither
/// rendering can masquerade as a prefix of the other.
pub proof fn lemma_dec_sep_distinct(m: nat, n: nat, s1: Seq<char>, s2: Seq<char>)
    requires
        m != n,
    ensures
        dec_rep(m) + seq!['_'] + s1 != dec_rep(n) + seq!['_'] + s2,
{
    let a = dec_rep(m);
    let b = dec_rep(n);
    let x = a + seq!['_'] + s1;
    let y = b + seq!['_'] + s2;
    lemma_dec_rep_digits(m);
    lemma_dec_rep_digits(n);
    if x == y {
        if a.len() == b.len() {
            assert forall|i: int| 0 <= i < a.len() implies a[i] == b[i] by {
                assert(x[i] == a[i]);
                assert(y[i] == b[i]);
            }
            assert(a =~= b);
            lemma_dec_rep_injective(m, n);
        } else if a.len() < b.len() {
            assert(x[a.len() as int] == '_');
            assert(y[a.len() as int] == b[a.len() as int]);
            assert(is_dec_digit(b[a.len() as int]));
        } else {
            assert(y[b.len() as int] == '_');
            assert(x[b.len() as int] == a[b.len() as int]);
            assert(is_dec_digit(a[b.len() as int]));
        }
    }
}

/// The decimal digit characters for values below 10, as executable code.
fn dec_digit_str(d: u64) -> (r: &'static str)
    requires
        d < 10,
    ensures
        r@ == seq![dec_digit(d as nat)],
{
    let r = match d {
        0 => "0",
        1 => "1",
        2 => "2",
        3 => "3",
        4 => "4",
        5 => "5",
        6 => "6",
        7 => "7",
        8 => "8",
        _ => "9",
    };
    proof {
        reveal_strlit("0");
        reveal_strlit("1");
        reveal_strlit("2");
        reveal_strlit("3");
        reveal_strlit("4");
        reveal_strlit("5");
        reveal_strlit("6");
        reveal_strlit("7");
        reveal_strlit("8");
        reveal_strlit("9");
        assert(r@ =~= seq![dec_digit(d as nat)]);
    }
    r
}

/// Renders `n` in minimal decimal form.
pub fn dec_string(n: u64) -> (r: String)
    ensures
        r@ == dec_rep(n as nat),
    decreases n,
{
    if n < 10 {
        dec_digit_str(n).to_owned()
    } else {
        let mut r = dec_string(n / 10);
        r.append(dec_digit_str(n % 10));
        proof {
            assert(r@ =~= dec_rep(n as nat));
        }
        r
    }
}

} // verus!
