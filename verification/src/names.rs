//! Decimal rendering of numbers and the dotted names built from it.
//!
//! The resolver renames every source variable to `<source>.<k>` with a
//! dot-free source identifier, and the lowering pass names its temporaries
//! `<stem>.<k>` with a stem that itself ends in a dot; the names stay apart
//! because the decimal text of `k` is injective, a dot never occurs inside
//! a source identifier, and the position of the first dot tells the two
//! shapes apart.  This module defines the decimal text of a number as a
//! sequence of characters, provides verified executable builders for it,
//! and proves the injectivity facts the rest of the crate relies on.

use vstd::prelude::*;

verus! {

/// The character for a single decimal digit value.
pub open spec fn digit_char(d: nat) -> char {
    if d == 0 {
        '0'
    } else if d == 1 {
        '1'
    } else if d == 2 {
        '2'
    } else if d == 3 {
        '3'
    } else if d == 4 {
        '4'
    } else if d == 5 {
        '5'
    } else if d == 6 {
        '6'
    } else if d == 7 {
        '7'
    } else if d == 8 {
        '8'
    } else {
        '9'
    }
}

/// The decimal text of `n`, most significant digit first, no sign and no
/// leading zeros (except for `n == 0` itself).
pub open spec fn decimal_digits(n: nat) -> Seq<char>
    decreases n,
{
    if n < 10 {
        seq![digit_char(n)]
    } else {
        decimal_digits(n / 10) + seq![digit_char(n % 10)]
    }
}

/// Whether every character of `s` is a decimal digit.
pub open spec fn all_digits(s: Seq<char>) -> bool {
    forall|i: int| 0 <= i < s.len() ==> '0' <= #[trigger] s[i] <= '9'
}

pub proof fn lemma_decimal_digits_are_digits(n: nat)
    ensures
        decimal_digits(n).len() >= 1,
        all_digits(decimal_digits(n)),
        dot_free(decimal_digits(n)),
    decreases n,
{
    if n >= 10 {
        lemma_decimal_digits_are_digits(n / 10);
    }
}

/// The decimal text determines the number.
pub proof fn lemma_decimal_digits_injective(a: nat, b: nat)
    requires
        decimal_digits(a) == decimal_digits(b),
    ensures
        a == b,
    decreases a,
{
    lemma_decimal_digits_are_digits(a);
    lemma_decimal_digits_are_digits(b);
    if a < 10 && b < 10 {
        assert(decimal_digits(a)[0] == digit_char(a));
        assert(decimal_digits(b)[0] == digit_char(b));
    } else if a < 10 && b >= 10 {
        assert(decimal_digits(b).len() >= 2) by {
            lemma_decimal_digits_are_digits(b / 10);
        }
        assert(decimal_digits(a).len() == 1);
    } else if a >= 10 && b < 10 {
        assert(decimal_digits(a).len() >= 2) by {
            lemma_decimal_digits_are_digits(a / 10);
        }
        assert(decimal_digits(b).len() == 1);
    } else {
        let da = decimal_digits(a / 10);
        let db = decimal_digits(b / 10);
        assert(decimal_digits(a).last() == digit_char(a % 10));
        assert(decimal_digits(b).last() == digit_char(b % 10));
        assert(a % 10 == b % 10);
        assert(da =~= decimal_digits(a).drop_last());
        assert(db =~= decimal_digits(b).drop_last());
        lemma_decimal_digits_injective(a / 10, b / 10);
        assert(a == 10 * (a / 10) + a % 10);
        assert(b == 10 * (b / 10) + b % 10);
    }
}

/// Whether `s` contains no dot; true of every source-language identifier,
/// false of every name the compiler makes up.
pub open spec fn dot_free(s: Seq<char>) -> bool {
    forall|i: int| 0 <= i < s.len() ==> #[trigger] s[i] != '.'
}

/// The name `<stem>.<k>`: the compiler's only shape of generated name.
pub open spec fn dotted_name(stem: Seq<char>, k: nat) -> Seq<char> {
    stem + seq!['.'] + decimal_digits(k)
}

/// A generated name is never a source identifier: it contains a dot.
pub proof fn lemma_dotted_name_not_dot_free(stem: Seq<char>, k: nat)
    ensures
        !dot_free(dotted_name(stem, k)),
{
    assert(dotted_name(stem, k)[stem.len() as int] == '.');
}

/// Two generated names with dot-free stems agree only if both the stem and
/// the counter agree: the first dot splits the name unambiguously.
pub proof fn lemma_dotted_name_injective(s1: Seq<char>, k1: nat, s2: Seq<char>, k2: nat)
    requires
        dot_free(s1),
        dot_free(s2),
        dotted_name(s1, k1) == dotted_name(s2, k2),
    ensures
        s1 == s2,
        k1 == k2,
{
    let n1 = dotted_name(s1, k1);
    let n2 = dotted_name(s2, k2);
    lemma_decimal_digits_are_digits(k1);
    lemma_decimal_digits_are_digits(k2);
    assert(n1[s1.len() as int] == '.');
    assert(n2[s2.len() as int] == '.');
    if s1.len() < s2.len() {
        assert(n2[s1.len() as int] != '.') by {
            if s1.len() < s2.len() {
                assert(n2[s1.len() as int] == s2[s1.len() as int]);
            }
        }
        assert(false);
    } else if s2.len() < s1.len() {
        assert(n1[s2.len() as int] != '.') by {
            assert(n1[s2.len() as int] == s1[s2.len() as int]);
        }
        assert(false);
    }
    assert(s1 =~= n1.subrange(0, s1.len() as int));
    assert(s2 =~= n2.subrange(0, s2.len() as int));
    assert(decimal_digits(k1) =~= n1.subrange(s1.len() as int + 1, n1.len() as int));
    assert(decimal_digits(k2) =~= n2.subrange(s2.len() as int + 1, n2.len() as int));
    lemma_decimal_digits_injective(k1, k2);
}

/// `name` is a resolver-generated variable name: a dot-free identifier and
/// a counter.
pub open spec fn resolved_name(name: Seq<char>) -> bool {
    exists|s: Seq<char>, k: nat| dot_free(s) && name == #[trigger] dotted_name(s, k)
}

/// One stem's counters tell its names apart: with the stem fixed, the
/// decimal suffix determines the counter.
pub proof fn lemma_dotted_name_same_stem_injective(stem: Seq<char>, k1: nat, k2: nat)
    requires
        dotted_name(stem, k1) == dotted_name(stem, k2),
    ensures
        k1 == k2,
{
    let n1 = dotted_name(stem, k1);
    let n2 = dotted_name(stem, k2);
    assert(decimal_digits(k1) =~= n1.subrange(stem.len() as int + 1, n1.len() as int));
    assert(decimal_digits(k2) =~= n2.subrange(stem.len() as int + 1, n2.len() as int));
    lemma_decimal_digits_injective(k1, k2);
}

/// A name made from a stem that ends in a dot can never equal a name made
/// from a dot-free stem: after its first dot the former carries another
/// dot, the latter a digit.
pub proof fn lemma_dotted_stem_with_dot_differs(ident: Seq<char>, j: nat, base: Seq<char>, k: nat)
    ensures
        dot_free(ident) && dot_free(base) ==> dotted_name(ident, j) != dotted_name(
            base + seq!['.'],
            k,
        ),
{
    if dot_free(ident) && dot_free(base) {
        let n1 = dotted_name(ident, j);
        let n2 = dotted_name(base + seq!['.'], k);
        lemma_decimal_digits_are_digits(j);
        lemma_decimal_digits_are_digits(k);
        if n1 == n2 {
            assert(n1[ident.len() as int] == '.');
            assert(n2[base.len() as int] == '.');
            if ident.len() < base.len() {
                assert(n2[ident.len() as int] == base[ident.len() as int]);
                assert(false);
            } else if base.len() < ident.len() {
                assert(n1[base.len() as int] == ident[base.len() as int]);
                assert(false);
            } else {
                assert(n1[ident.len() as int + 1] == decimal_digits(j)[0]);
                assert(n2[base.len() as int + 1] == '.');
                assert(false);
            }
        }
    }
}

/// The literal text of one digit.
fn digit_str(d: u64) -> (r: &'static str)
    requires
        d < 10,
    ensures
        r@ =~= seq![digit_char(d as nat)],
{
    proof {
        reveal_strlit("0");
        reveal_strlit("1");
        reveal_strlit("2");
        reveal_strlit("3");
        reveal_strlit("4");
        reveal_strlit("5");
        reveal_strlit("6");
        reveal_strlit("7");
        reveal_strlit("8");
        reveal_strlit("9");
    }
    if d == 0 {
        "0"
    } else if d == 1 {
        "1"
    } else if d == 2 {
        "2"
    } else if d == 3 {
        "3"
    } else if d == 4 {
        "4"
    } else if d == 5 {
        "5"
    } else if d == 6 {
        "6"
    } else if d == 7 {
        "7"
    } else if d == 8 {
        "8"
    } else {
        "9"
    }
}

/// The decimal text of `n` as an owned string.
pub fn decimal_string(n: u64) -> (r: String)
    ensures
        r@ == decimal_digits(n as nat),
    decreases n,
{
    if n < 10 {
        String::from_str(digit_str(n))
    } else {
        let mut s = decimal_string(n / 10);
        s.append(digit_str(n % 10));
        s
    }
}

/// The decimal text of a signed value: a minus sign for negatives, then the
/// digits of the magnitude.
pub open spec fn signed_decimal_digits(v: int) -> Seq<char> {
    if v < 0 {
        seq!['-'] + decimal_digits((-v) as nat)
    } else {
        decimal_digits(v as nat)
    }
}

/// The decimal text of an `i32`, sign included.
pub fn signed_decimal_string(v: i32) -> (r: String)
    ensures
        r@ == signed_decimal_digits(v as int),
{
    proof {
        reveal_strlit("-");
    }
    if v < 0 {
        let magnitude: u64 = (-(v as i64)) as u64;
        let mut s = String::from_str("-");
        let digits = decimal_string(magnitude);
        s.append(digits.as_str());
        s
    } else {
        decimal_string(v as u64)
    }
}

/// Builds `<stem>.<k>`, the one shape of compiler-generated name.
pub fn make_dotted_name(stem: &str, k: u64) -> (r: String)
    ensures
        r@ == dotted_name(stem@, k as nat),
{
    proof {
        reveal_strlit(".");
    }
    let mut s = String::from_str(stem);
    s.append(".");
    let digits = decimal_string(k);
    s.append(digits.as_str());
    assert(s@ =~= dotted_name(stem@, k as nat));
    s
}

} // verus!
