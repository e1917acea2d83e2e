//! Decimal digit strings: their value as natural numbers, and the facts about
//! powers of ten that comparisons of such values rest on.
use vstd::prelude::*;

verus! {

pub open spec fn is_digit(c: char) -> bool {
    '0' <= c && c <= '9'
}

pub open spec fn digit_value(c: char) -> nat {
    (c as int - '0' as int) as nat
}

pub open spec fn all_digits(s: Seq<char>) -> bool {
    forall|i: int| 0 <= i < s.len() ==> is_digit(#[trigger] s[i])
}

/// The number that a string of decimal digits spells, most significant first.
pub open spec fn digits_value(s: Seq<char>) -> nat
    decreases s.len(),
{
    if s.len() == 0 {
        0
    } else {
        digits_value(s.drop_last()) * 10 + digit_value(s.last())
    }
}

pub open spec fn pow10(n: nat) -> nat
    decreases n,
{
    if n == 0 {
        1
    } else {
        10 * pow10((n - 1) as nat)
    }
}

pub proof fn lemma_pow10_positive(n: nat)
    ensures
        pow10(n) >= 1,
    decreases n,
{
    if n > 0 {
        lemma_pow10_positive((n - 1) as nat);
    }
}

pub proof fn lemma_pow10_add(a: nat, b: nat)
    ensures
        pow10(a + b) == pow10(a) * pow10(b),
    decreases a,
{
    if a > 0 {
        lemma_pow10_add((a - 1) as nat, b);
        assert(((a - 1) as nat + b) as nat == (a + b - 1) as nat);
        assert(pow10(a + b) == 10 * pow10((a + b - 1) as nat));
        assert(pow10(a) == 10 * pow10((a - 1) as nat));
        let p = pow10((a - 1) as nat);
        let q = pow10(b);
        assert(10 * (p * q) == (10 * p) * q) by (nonlinear_arith);
        assert(pow10((a + b - 1) as nat) == p * q);
        assert(pow10(a + b) == (10 * p) * q);
    } else {
        assert(a + b == b);
        assert(pow10(a) == 1);
    }
}

pub proof fn lemma_pow10_monotone(a: nat, b: nat)
    requires
        a <= b,
    ensures
        pow10(a) <= pow10(b),
    decreases b,
{
    if a < b {
        lemma_pow10_monotone(a, (b - 1) as nat);
        lemma_pow10_positive((b - 1) as nat);
    }
}

/// A digit string is worth less than ten to the power of its length.
pub proof fn lemma_digits_value_bound(s: Seq<char>)
    requires
        all_digits(s),
    ensures
        digits_value(s) < pow10(s.len()),
    decreases s.len(),
{
    if s.len() > 0 {
        let t = s.drop_last();
        assert(all_digits(t)) by {
            assert forall|i: int| 0 <= i < t.len() implies is_digit(#[trigger] t[i]) by {
                assert(t[i] == s[i]);
            }
        }
        lemma_digits_value_bound(t);
        assert(is_digit(s[s.len() - 1]));
        assert(digit_value(s.last()) <= 9);
        assert(pow10(s.len()) == 10 * pow10(t.len()));
    }
}

/// The value of a concatenation: the first part is shifted left by the
/// length of the second.
pub proof fn lemma_digits_value_concat(a: Seq<char>, b: Seq<char>)
    ensures
        digits_value(a + b) == digits_value(a) * pow10(b.len()) + digits_value(b),
    decreases b.len(),
{
    if b.len() == 0 {
        assert(a + b =~= a);
        assert(digits_value(b) == 0);
        assert(pow10(b.len()) == 1);
        assert(digits_value(a) * 1 == digits_value(a));
    } else {
        let b1 = b.drop_last();
        assert((a + b).drop_last() =~= a + b1);
        assert((a + b).last() == b.last());
        assert(digits_value(a + b) == digits_value(a + b1) * 10 + digit_value(b.last()));
        assert(digits_value(b) == digits_value(b1) * 10 + digit_value(b.last()));
        lemma_digits_value_concat(a, b1);
        let va = digits_value(a);
        let p = pow10(b1.len());
        let vb1 = digits_value(b1);
        assert(pow10(b.len()) == 10 * p);
        assert((va * p + vb1) * 10 == va * (10 * p) + vb1 * 10) by (nonlinear_arith);
        assert(digits_value(a + b1) == va * p + vb1);
        assert(digits_value(a + b) == (va * p + vb1) * 10 + digit_value(b.last()));
        assert(va * pow10(b.len()) == va * (10 * p));
    }
}

/// A digit string that does not start with `0` is worth at least ten to the
/// power of its length less one.
pub proof fn lemma_digits_value_lower_bound(s: Seq<char>)
    requires
        all_digits(s),
        s.len() >= 1,
        s[0] != '0',
    ensures
        digits_value(s) >= pow10((s.len() - 1) as nat),
{
    let a = s.take(1);
    let b = s.skip(1);
    assert(a + b =~= s);
    lemma_digits_value_concat(a, b);
    assert(a.drop_last() =~= Seq::<char>::empty());
    assert(digits_value(a.drop_last()) == 0);
    assert(a.last() == s[0]);
    assert(digits_value(a) == digits_value(a.drop_last()) * 10 + digit_value(a.last()));
    assert(digits_value(a) == digit_value(s[0]));
    assert(is_digit(s[0]));
    assert(digit_value(s[0]) >= 1);
    let p = pow10(b.len());
    assert(digit_value(s[0]) * p >= p) by (nonlinear_arith)
        requires
            digit_value(s[0]) >= 1,
    ;
}

/// A digit string is worth more than zero exactly when one of its digits is
/// not `0`.
pub proof fn lemma_digits_value_zero(s: Seq<char>)
    requires
        all_digits(s),
    ensures
        digits_value(s) > 0 <==> exists|i: int| 0 <= i < s.len() && s[i] != '0',
    decreases s.len(),
{
    if exists|i: int| 0 <= i < s.len() && s[i] != '0' {
        let i = choose|i: int| 0 <= i < s.len() && s[i] != '0';
        let a = s.take(i);
        let b = s.skip(i);
        assert(a + b =~= s);
        lemma_digits_value_concat(a, b);
        assert(all_digits(b)) by {
            assert forall|j: int| 0 <= j < b.len() implies is_digit(#[trigger] b[j]) by {
                assert(b[j] == s[i + j]);
            }
        }
        assert(b[0] == s[i]);
        lemma_digits_value_lower_bound(b);
        lemma_pow10_positive((b.len() - 1) as nat);
    } else if s.len() > 0 {
        let t = s.drop_last();
        assert(all_digits(t)) by {
            assert forall|j: int| 0 <= j < t.len() implies is_digit(#[trigger] t[j]) by {
                assert(t[j] == s[j]);
            }
        }
        assert(!exists|i: int| 0 <= i < t.len() && t[i] != '0') by {
            if exists|i: int| 0 <= i < t.len() && t[i] != '0' {
                let i = choose|i: int| 0 <= i < t.len() && t[i] != '0';
                assert(s[i] == t[i]);
            }
        }
        lemma_digits_value_zero(t);
        assert(s[s.len() - 1] == '0');
    }
}

} // verus!
