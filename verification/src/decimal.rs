//! Decimal number text, as a JSON library prints a number: an optional sign,
//! digits with an optional fractional part, and an optional exponent.
//! The text is read exactly (no rounding) and compared with a whole-number
//! threshold.
use crate::digits::{
    all_digits, digit_value, digits_value, is_digit, lemma_digits_value_bound,
    lemma_digits_value_concat, lemma_digits_value_lower_bound, lemma_digits_value_zero,
    lemma_pow10_add, lemma_pow10_monotone, lemma_pow10_positive, pow10,
};
use crate::text::chars_of;
use vstd::prelude::*;

verus! {

/// Exponents at or beyond this magnitude are held at it while reading; no
/// text that fits in memory has a mantissa long enough for the difference to
/// change a comparison with a two-digit threshold.
pub const EXPONENT_CAP: u128 = 1_000_000_000_000_000_000_000_000_000_000;

/// Index of the first `a` or `b` in `s`, or the length of `s` if there is none.
pub open spec fn first_index_of(s: Seq<char>, a: char, b: char) -> nat
    decreases s.len(),
{
    if s.len() == 0 {
        0
    } else if s[0] == a || s[0] == b {
        0
    } else {
        1 + first_index_of(s.drop_first(), a, b)
    }
}

/// Length of a leading `+` or `-`.
pub open spec fn sign_len(s: Seq<char>) -> int {
    if s.len() > 0 && (s[0] == '+' || s[0] == '-') {
        1
    } else {
        0
    }
}

/// Where the exponent marker (`e` or `E`) stands, or the length if there is none.
pub open spec fn exp_start(s: Seq<char>) -> int {
    sign_len(s) + first_index_of(s.subrange(sign_len(s), s.len() as int), 'e', 'E')
}

/// Where the decimal point stands in the mantissa, or the exponent's start
/// if there is none.
pub open spec fn dot_index(s: Seq<char>) -> int {
    sign_len(s) + first_index_of(s.subrange(sign_len(s), exp_start(s)), '.', '.')
}

pub open spec fn int_digits(s: Seq<char>) -> Seq<char> {
    s.subrange(sign_len(s), dot_index(s))
}

pub open spec fn frac_digits(s: Seq<char>) -> Seq<char> {
    if dot_index(s) < exp_start(s) {
        s.subrange(dot_index(s) + 1, exp_start(s))
    } else {
        Seq::empty()
    }
}

pub open spec fn has_exponent(s: Seq<char>) -> bool {
    exp_start(s) < s.len()
}

/// Length of the sign that may follow the exponent marker.
pub open spec fn exp_sign_len(s: Seq<char>) -> int {
    if exp_start(s) + 1 < s.len() && (s[exp_start(s) + 1] == '+' || s[exp_start(s) + 1] == '-') {
        1
    } else {
        0
    }
}

pub open spec fn exp_digits(s: Seq<char>) -> Seq<char> {
    s.subrange(exp_start(s) + 1 + exp_sign_len(s), s.len() as int)
}

pub open spec fn exp_negative(s: Seq<char>) -> bool {
    exp_sign_len(s) == 1 && s[exp_start(s) + 1] == '-'
}

/// `s` is a decimal number: `[+-]digits[.digits][(e|E)[+-]digits]`, where
/// either the whole or the fractional digits may be missing but not both.
pub open spec fn is_number_text(s: Seq<char>) -> bool {
    &&& all_digits(int_digits(s))
    &&& all_digits(frac_digits(s))
    &&& int_digits(s).len() + frac_digits(s).len() > 0
    &&& has_exponent(s) ==> exp_digits(s).len() > 0 && all_digits(exp_digits(s))
}

pub open spec fn exponent_value(s: Seq<char>) -> int {
    if !has_exponent(s) {
        0
    } else if exp_negative(s) {
        -digits_value(exp_digits(s))
    } else {
        digits_value(exp_digits(s)) as int
    }
}

/// All mantissa digits, whole part then fractional part.
pub open spec fn mantissa(s: Seq<char>) -> Seq<char> {
    int_digits(s) + frac_digits(s)
}

/// The number is `mantissa * 10^scale`, with the sign in front.
pub open spec fn scale(s: Seq<char>) -> int {
    exponent_value(s) - frac_digits(s).len()
}

pub open spec fn is_negative_text(s: Seq<char>) -> bool {
    sign_len(s) == 1 && s[0] == '-'
}

/// `m * 10^e > t`, for any whole `e`.
pub open spec fn scaled_exceeds(m: nat, e: int, t: nat) -> bool {
    if e >= 0 {
        m * pow10(e as nat) > t
    } else {
        m > t * pow10((-e) as nat)
    }
}

/// The number that `s` spells is greater than `t`.
pub open spec fn number_text_exceeds(s: Seq<char>, t: nat) -> bool {
    !is_negative_text(s) && scaled_exceeds(digits_value(mantissa(s)), scale(s), t)
}

proof fn lemma_first_index(s: Seq<char>, a: char, b: char, i: int)
    requires
        0 <= i <= s.len(),
        forall|j: int| 0 <= j < i ==> s[j] != a && s[j] != b,
        i < s.len() ==> (s[i] == a || s[i] == b),
    ensures
        first_index_of(s, a, b) == i,
    decreases i,
{
    if i > 0 {
        let t = s.drop_first();
        assert forall|j: int| 0 <= j < i - 1 implies t[j] != a && t[j] != b by {
            assert(t[j] == s[j + 1]);
        }
        if i - 1 < t.len() {
            assert(t[i - 1] == s[i]);
        }
        lemma_first_index(t, a, b, i - 1);
        assert(s[0] != a && s[0] != b);
    }
}

fn find_either(cs: &Vec<char>, from: usize, to: usize, a: char, b: char) -> (r: usize)
    requires
        from <= to <= cs.len(),
    ensures
        from <= r <= to,
        r == from + first_index_of(cs@.subrange(from as int, to as int), a, b),
{
    let mut i = from;
    while i < to && cs[i] != a && cs[i] != b
        invariant
            from <= i <= to <= cs.len(),
            forall|j: int| from <= j < i ==> cs@[j] != a && cs@[j] != b,
        decreases to - i,
    {
        i = i + 1;
    }
    proof {
        let sub = cs@.subrange(from as int, to as int);
        assert forall|j: int| 0 <= j < i - from implies sub[j] != a && sub[j] != b by {
            assert(sub[j] == cs@[from + j]);
        }
        if i < to {
            assert(sub[i - from] == cs@[i as int]);
        }
        lemma_first_index(sub, a, b, i - from);
    }
    i
}

fn digits_in(cs: &Vec<char>, from: usize, to: usize) -> (r: bool)
    requires
        from <= to <= cs.len(),
    ensures
        r == all_digits(cs@.subrange(from as int, to as int)),
{
    let mut i = from;
    while i < to
        invariant
            from <= i <= to <= cs.len(),
            forall|j: int| from <= j < i ==> is_digit(#[trigger] cs@[j]),
        decreases to - i,
    {
        if !(cs[i] >= '0' && cs[i] <= '9') {
            proof {
                let sub = cs@.subrange(from as int, to as int);
                assert(sub[i - from] == cs@[i as int]);
            }
            return false;
        }
        i = i + 1;
    }
    proof {
        let sub = cs@.subrange(from as int, to as int);
        assert forall|j: int| 0 <= j < sub.len() implies is_digit(#[trigger] sub[j]) by {
            assert(sub[j] == cs@[from + j]);
        }
    }
    true
}

fn digit_of(c: char) -> (d: u8)
    requires
        is_digit(c),
    ensures
        d as nat == digit_value(c),
        d <= 9,
{
    let d = (c as u32) - ('0' as u32);
    d as u8
}

/// The value of a digit range, held at `EXPONENT_CAP` once it reaches it.
fn capped_value(cs: &Vec<char>, from: usize, to: usize) -> (r: u128)
    requires
        from <= to <= cs.len(),
        all_digits(cs@.subrange(from as int, to as int)),
    ensures
        r == (if digits_value(cs@.subrange(from as int, to as int)) >= EXPONENT_CAP {
            EXPONENT_CAP as nat
        } else {
            digits_value(cs@.subrange(from as int, to as int))
        }),
{
    let mut acc: u128 = 0;
    let mut i = from;
    assert(cs@.subrange(from as int, from as int) =~= Seq::<char>::empty());
    while i < to
        invariant
            from <= i <= to <= cs.len(),
            all_digits(cs@.subrange(from as int, to as int)),
            acc == (if digits_value(cs@.subrange(from as int, i as int)) >= EXPONENT_CAP {
                EXPONENT_CAP as nat
            } else {
                digits_value(cs@.subrange(from as int, i as int))
            }),
        decreases to - i,
    {
        let ghost old_sub = cs@.subrange(from as int, i as int);
        let ghost new_sub = cs@.subrange(from as int, i + 1);
        assert(new_sub.drop_last() =~= old_sub);
        assert(new_sub.last() == cs@[i as int]);
        assert(cs@.subrange(from as int, to as int)[i - from] == cs@[i as int]);
        let d = digit_of(cs[i]);
        assert(digits_value(new_sub) == digits_value(old_sub) * 10 + digit_value(cs@[i as int]));
        if acc < EXPONENT_CAP {
            let next = acc * 10 + d as u128;
            if next >= EXPONENT_CAP {
                acc = EXPONENT_CAP;
            } else {
                acc = next;
            }
        }
        i = i + 1;
    }
    acc
}

/// Index of the first character at or after `from` that is not `0`, or the length.
fn skip_zeros(cs: &Vec<char>, from: usize) -> (r: usize)
    requires
        from <= cs.len(),
    ensures
        from <= r <= cs.len(),
        forall|j: int| from <= j < r ==> cs@[j] == '0',
        r < cs.len() ==> cs@[r as int] != '0',
{
    let mut i = from;
    while i < cs.len() && cs[i] == '0'
        invariant
            from <= i <= cs.len(),
            forall|j: int| from <= j < i ==> cs@[j] == '0',
        decreases cs.len() - i,
    {
        i = i + 1;
    }
    i
}

fn push_range(v: &mut Vec<char>, cs: &Vec<char>, from: usize, to: usize)
    requires
        from <= to <= cs.len(),
    ensures
        final(v)@ == old(v)@ + cs@.subrange(from as int, to as int),
{
    let ghost start = v@;
    let mut i = from;
    while i < to
        invariant
            from <= i <= to <= cs.len(),
            v@ == start + cs@.subrange(from as int, i as int),
        decreases to - i,
    {
        v.push(cs[i]);
        i = i + 1;
        assert(v@ =~= start + cs@.subrange(from as int, i as int));
    }
}

proof fn lemma_single_digit_value(s: Seq<char>)
    requires
        s.len() == 1,
    ensures
        digits_value(s) == digit_value(s[0]),
{
    assert(s.drop_last() =~= Seq::<char>::empty());
    assert(digits_value(s.drop_last()) == 0);
}

/// A mantissa of `n` significant digits scaled by `10^e` with `n + e >= 3`
/// is at least 100.
proof fn lemma_large(sig: Seq<char>, e: int, t: nat)
    requires
        all_digits(sig),
        sig.len() >= 1,
        sig[0] != '0',
        t <= 99,
        sig.len() + e >= 3,
    ensures
        scaled_exceeds(digits_value(sig), e, t),
{
    let n = sig.len();
    let m = digits_value(sig);
    lemma_digits_value_lower_bound(sig);
    let k1 = (n - 1 + e) as nat;
    lemma_pow10_monotone(2, k1);
    assert(pow10(2) == 100) by {
        assert(pow10(0) == 1);
        assert(pow10(1) == 10);
    }
    if e >= 0 {
        lemma_pow10_add((n - 1) as nat, e as nat);
        assert(((n - 1) as nat + e as nat) as nat == k1);
        let a = pow10((n - 1) as nat);
        let b = pow10(e as nat);
        assert(m * b >= a * b) by (nonlinear_arith)
            requires
                m >= a,
        ;
    } else {
        lemma_pow10_add(k1, (-e) as nat);
        assert((k1 + (-e) as nat) as nat == (n - 1) as nat);
        let p = pow10(k1);
        let q = pow10((-e) as nat);
        lemma_pow10_positive((-e) as nat);
        assert(p * q > t * q) by (nonlinear_arith)
            requires
                p >= 100,
                t <= 99,
                q >= 1,
        ;
    }
}

/// A mantissa of `n` digits scaled by `10^e` with `n + e <= 1` is below 10.
proof fn lemma_small(sig: Seq<char>, e: int, t: nat)
    requires
        all_digits(sig),
        sig.len() >= 1,
        t >= 10,
        sig.len() + e <= 1,
    ensures
        !scaled_exceeds(digits_value(sig), e, t),
{
    let n = sig.len();
    let m = digits_value(sig);
    lemma_digits_value_bound(sig);
    assert(pow10(1) == 10) by {
        assert(pow10(0) == 1);
    }
    if e >= 0 {
        assert(e == 0 && n == 1);
        assert(pow10(0) == 1);
        assert(m * 1 == m);
    } else {
        let f = (-e) as nat;
        lemma_pow10_monotone(n, 1 + f);
        lemma_pow10_add(1, f);
        let q = pow10(f);
        assert(10 * q <= t * q) by (nonlinear_arith)
            requires
                t >= 10,
        ;
    }
}

/// With exactly two digits before the point (`n + e == 2`) the comparison is
/// decided by the two leading digits, and when they equal the threshold, by
/// whether anything follows them.
proof fn lemma_two_leading(sig: Seq<char>, e: int, t: nat)
    requires
        all_digits(sig),
        sig.len() >= 2,
        sig.len() + e == 2,
    ensures
        ({
            let top = digit_value(sig[0]) * 10 + digit_value(sig[1]);
            let rest = sig.skip(2);
            scaled_exceeds(digits_value(sig), e, t) == (top > t || (top == t && digits_value(rest) > 0))
        }),
{
    let n = sig.len();
    let head = sig.take(2);
    let rest = sig.skip(2);
    assert(head + rest =~= sig);
    lemma_digits_value_concat(head, rest);
    assert(head.drop_last() =~= sig.take(1));
    lemma_single_digit_value(sig.take(1));
    assert(sig.take(1)[0] == sig[0]);
    assert(head.last() == sig[1]);
    let top = digit_value(sig[0]) * 10 + digit_value(sig[1]);
    assert(digits_value(head) == top);
    assert(all_digits(rest)) by {
        assert forall|j: int| 0 <= j < rest.len() implies is_digit(#[trigger] rest[j]) by {
            assert(rest[j] == sig[j + 2]);
        }
    }
    lemma_digits_value_bound(rest);
    let p = pow10(rest.len());
    let r = digits_value(rest);
    if e == 0 {
        assert(rest.len() == 0);
        assert(p == 1);
        assert(r == 0);
        assert(digits_value(sig) * pow10(0) == digits_value(sig));
    } else {
        assert((-e) as nat == rest.len());
        assert(top * p + r > t * p <==> (top > t || (top == t && r > 0))) by (nonlinear_arith)
            requires
                0 <= r < p,
        ;
    }
}

/// The comparison goes by the number's value alone: the same number written
/// with more trailing zeros and a smaller exponent (`m * 10^d` at scale `e - d`
/// for `m` at scale `e`) compares the same way.
pub proof fn lemma_scaled_exceeds_same_value(m: nat, e: int, d: nat, t: nat)
    ensures
        scaled_exceeds(m, e, t) == scaled_exceeds(m * pow10(d), e - d, t),
{
    let m2 = m * pow10(d);
    let e2 = e - d;
    lemma_pow10_positive(d);
    if e2 >= 0 {
        lemma_pow10_add(d, e2 as nat);
        assert((d + e2 as nat) as nat == e as nat);
        let p = pow10(d);
        let q = pow10(e2 as nat);
        assert(m * p * q == m * (p * q)) by (nonlinear_arith);
    } else if e < 0 {
        let f = (-e) as nat;
        lemma_pow10_add(f, d);
        assert((f + d) as nat == (-e2) as nat);
        let p = pow10(d);
        let q = pow10(f);
        assert(t * (q * p) == (t * q) * p) by (nonlinear_arith);
        assert(m * p > (t * q) * p <==> m > t * q) by (nonlinear_arith)
            requires
                p >= 1,
        ;
    } else {
        let f = (-e2) as nat;
        let g = e as nat;
        lemma_pow10_add(g, f);
        assert((g + f) as nat == d);
        let p = pow10(g);
        let q = pow10(f);
        lemma_pow10_positive(f);
        assert(m * (p * q) == (m * p) * q) by (nonlinear_arith);
        assert((m * p) * q > t * q <==> m * p > t) by (nonlinear_arith)
            requires
                q >= 1,
        ;
    }
}

/// Whether a digit range holds a digit other than `0`.
fn any_nonzero(cs: &Vec<char>, from: usize) -> (r: bool)
    requires
        from <= cs.len(),
    ensures
        r == exists|j: int| from <= j < cs.len() && cs@[j] != '0',
{
    let i = skip_zeros(cs, from);
    i < cs.len()
}

/// Whether `mantissa * 10^(±exponent - frac_len) > threshold`, for the true
/// exponent `exponent`, of which `exp_capped` is the value held at the cap.
fn mantissa_exceeds(
    mant: &Vec<char>,
    negative: bool,
    exp_neg: bool,
    exp_capped: u128,
    frac_len: usize,
    threshold: u8,
    Ghost(exponent): Ghost<nat>,
) -> (r: bool)
    requires
        all_digits(mant@),
        10 <= threshold <= 99,
        exp_capped == (if exponent >= EXPONENT_CAP { EXPONENT_CAP as nat } else { exponent }),
    ensures
        r == (!negative && scaled_exceeds(
            digits_value(mant@),
            (if exp_neg { -exponent } else { exponent as int }) - frac_len,
            threshold as nat,
        )),
{
    let ghost e: int = (if exp_neg { -exponent } else { exponent as int }) - frac_len;
    let ghost t = threshold as nat;
    let n_all = mant.len();
    let z = skip_zeros(mant, 0);
    let ghost zeros = mant@.take(z as int);
    let ghost sig = mant@.skip(z as int);
    proof {
        assert(zeros + sig =~= mant@);
        lemma_digits_value_concat(zeros, sig);
        assert(all_digits(zeros)) by {
            assert forall|j: int| 0 <= j < zeros.len() implies is_digit(#[trigger] zeros[j]) by {
                assert(zeros[j] == mant@[j]);
            }
        }
        lemma_digits_value_zero(zeros);
        assert(!exists|j: int| 0 <= j < zeros.len() && zeros[j] != '0') by {
            if exists|j: int| 0 <= j < zeros.len() && zeros[j] != '0' {
                let j = choose|j: int| 0 <= j < zeros.len() && zeros[j] != '0';
                assert(zeros[j] == mant@[j]);
            }
        }
        assert(digits_value(zeros) == 0);
        assert(0 * pow10(sig.len()) == 0);
        assert(all_digits(sig)) by {
            assert forall|j: int| 0 <= j < sig.len() implies is_digit(#[trigger] sig[j]) by {
                assert(sig[j] == mant@[z + j]);
            }
        }
        assert(digits_value(mant@) == digits_value(sig));
    }
    if z == n_all {
        proof {
            lemma_digits_value_zero(mant@);
            let m = digits_value(mant@);
            assert(m == 0);
            if e >= 0 {
                assert(m * pow10(e as nat) == 0);
            }
        }
        return false;
    }
    if negative {
        return false;
    }
    let n = n_all - z;
    proof {
        assert(sig.len() == n);
        assert(sig[0] == mant@[z as int]);
    }
    if exp_capped == EXPONENT_CAP {
        proof {
            assert(exponent >= EXPONENT_CAP);
            assert(n_all <= usize::MAX);
            assert(frac_len <= usize::MAX);
        }
        if exp_neg {
            proof {
                lemma_small(sig, e, t);
            }
            return false;
        } else {
            proof {
                lemma_large(sig, e, t);
            }
            return true;
        }
    }
    let signed_exp: i128 = if exp_neg { -(exp_capped as i128) } else { exp_capped as i128 };
    let k: i128 = (n as i128) + signed_exp - (frac_len as i128);
    assert(k == n + e);
    if k >= 3 {
        proof {
            lemma_large(sig, e, t);
        }
        return true;
    }
    if k <= 1 {
        proof {
            lemma_small(sig, e, t);
        }
        return false;
    }
    let d1 = digit_of(mant[z]);
    if n == 1 {
        proof {
            lemma_single_digit_value(sig);
            assert(e == 1);
            assert(pow10(1) == 10) by {
                assert(pow10(0) == 1);
            }
        }
        return d1 * 10 > threshold;
    }
    proof {
        assert(sig[1] == mant@[z + 1]);
        lemma_two_leading(sig, e, t);
    }
    let d2 = digit_of(mant[z + 1]);
    let top = d1 * 10 + d2;
    if top != threshold {
        return top > threshold;
    }
    let rest_nonzero = any_nonzero(mant, z + 2);
    proof {
        let rest = sig.skip(2);
        assert(all_digits(rest)) by {
            assert forall|j: int| 0 <= j < rest.len() implies is_digit(#[trigger] rest[j]) by {
                assert(rest[j] == sig[j + 2]);
            }
        }
        lemma_digits_value_zero(rest);
        if rest_nonzero {
            let j = choose|j: int| z + 2 <= j < mant@.len() && mant@[j] != '0';
            assert(rest[j - z - 2] == mant@[j]);
        }
        if exists|j: int| 0 <= j < rest.len() && rest[j] != '0' {
            let j = choose|j: int| 0 <= j < rest.len() && rest[j] != '0';
            assert(rest[j] == mant@[z + 2 + j]);
        }
    }
    rest_nonzero
}

/// Reads `text` as a decimal number and tells whether it is greater than
/// `threshold`; `None` when `text` is not a decimal number.
pub(crate) fn number_exceeds(text: &str, threshold: u8) -> (r: Option<bool>)
    requires
        10 <= threshold <= 99,
    ensures
        r == (if is_number_text(text@) {
            Some(number_text_exceeds(text@, threshold as nat))
        } else {
            None
        }),
{
    let cs = chars_of(text);
    let ghost s = text@;
    let len = cs.len();
    let sl: usize = if len > 0 && (cs[0] == '+' || cs[0] == '-') { 1 } else { 0 };
    let negative = sl == 1 && cs[0] == '-';
    let es = find_either(&cs, sl, len, 'e', 'E');
    let di = find_either(&cs, sl, es, '.', '.');
    assert(sl == sign_len(s));
    assert(es == exp_start(s));
    assert(di == dot_index(s));
    let frac_start = if di < es { di + 1 } else { es };
    proof {
        if di >= es {
            assert(cs@.subrange(frac_start as int, es as int) =~= frac_digits(s));
        }
    }
    if !digits_in(&cs, sl, di) {
        return None;
    }
    if !digits_in(&cs, frac_start, es) {
        return None;
    }
    if (di - sl) + (es - frac_start) == 0 {
        return None;
    }
    let mut exp_neg = false;
    let mut exp_capped: u128 = 0;
    if es < len {
        let mut ds = es + 1;
        if ds < len && (cs[ds] == '+' || cs[ds] == '-') {
            exp_neg = cs[ds] == '-';
            ds = ds + 1;
        }
        assert(ds == exp_start(s) + 1 + exp_sign_len(s));
        if ds >= len {
            return None;
        }
        if !digits_in(&cs, ds, len) {
            return None;
        }
        assert(exp_neg == exp_negative(s));
        exp_capped = capped_value(&cs, ds, len);
    }
    let mut mant: Vec<char> = Vec::new();
    push_range(&mut mant, &cs, sl, di);
    push_range(&mut mant, &cs, frac_start, es);
    proof {
        assert(mant@ =~= mantissa(s));
        assert(all_digits(mant@)) by {
            let a = int_digits(s);
            let b = frac_digits(s);
            assert forall|j: int| 0 <= j < mant@.len() implies is_digit(#[trigger] mant@[j]) by {
                if j < a.len() {
                    assert(mant@[j] == a[j]);
                } else {
                    assert(mant@[j] == b[j - a.len()]);
                }
            }
        }
    }
    let ghost exponent: nat = if has_exponent(s) { digits_value(exp_digits(s)) } else { 0 };
    let above = mantissa_exceeds(
        &mant,
        negative,
        exp_neg,
        exp_capped,
        es - frac_start,
        threshold,
        Ghost(exponent),
    );
    proof {
        assert(frac_digits(s).len() == es - frac_start);
        assert(negative == is_negative_text(s));
    }
    Some(above)
}

} // verus!
