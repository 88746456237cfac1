use vstd::math::abs;
use vstd::prelude::*;
use vstd::string::StrSliceExecFns;

use crate::errors::EvalError;
use crate::errors::Expected;

verus! {

/// The mathematical model of a numeric value: a pair of unbounded integers,
/// numerator `n` and denominator `d`.
pub struct Rat {
    pub n: int,
    pub d: int,
}

/// Greatest common divisor, the measure by which a rational is reduced.
pub open spec fn gcd_nat(a: nat, b: nat) -> nat
    decreases b,
{
    if b == 0 {
        a
    } else {
        gcd_nat(b, a % b)
    }
}

/// The canonical reduced form of the fraction `n / d`: magnitudes divided by
/// their greatest common divisor, the sign carried by the numerator, the
/// denominator positive.  The zero value is `0 / 1`.
pub open spec fn rat_reduce(n: int, d: int) -> Rat
    recommends
        d != 0,
{
    if n == 0 {
        Rat { n: 0, d: 1 }
    } else {
        let g = gcd_nat(abs(n), abs(d)) as int;
        let sgn: int = if (n < 0) == (d < 0) {
            1
        } else {
            -1
        };
        Rat { n: sgn * (abs(n) as int / g), d: abs(d) as int / g }
    }
}

/// A model value is well formed when it is in reduced form.
pub open spec fn rat_wf(r: Rat) -> bool {
    r.d >= 1 && gcd_nat(abs(r.n), r.d as nat) == 1
}

pub open spec fn rat_add_v(a: Rat, b: Rat) -> Rat {
    rat_reduce(a.n * b.d + b.n * a.d, a.d * b.d)
}

pub open spec fn rat_sub_v(a: Rat, b: Rat) -> Rat {
    rat_reduce(a.n * b.d - b.n * a.d, a.d * b.d)
}

pub open spec fn rat_mul_v(a: Rat, b: Rat) -> Rat {
    rat_reduce(a.n * b.n, a.d * b.d)
}

pub open spec fn rat_div_v(a: Rat, b: Rat) -> Rat
    recommends
        b.n != 0,
{
    rat_reduce(a.n * b.d, a.d * b.n)
}

pub open spec fn rat_neg_v(a: Rat) -> Rat {
    Rat { n: -a.n, d: a.d }
}

pub open spec fn is_digit_char(c: char) -> bool {
    '0' <= c && c <= '9'
}

pub open spec fn digit_val(c: char) -> int {
    c as u32 - 48
}

/// The value of a run of decimal digits, most significant first.
pub open spec fn digits_val(s: Seq<char>) -> int
    decreases s.len(),
{
    if s.len() == 0 {
        0
    } else {
        digits_val(s.drop_last()) * 10 + digit_val(s.last())
    }
}

pub open spec fn all_digits(s: Seq<char>) -> bool {
    forall|i: int| 0 <= i < s.len() ==> is_digit_char(s[i])
}

/// The first position at or after `i` that does not hold a digit.
pub open spec fn scan_digits(s: Seq<char>, i: int) -> int
    decreases s.len() - i,
{
    if 0 <= i < s.len() && is_digit_char(s[i]) {
        scan_digits(s, i + 1)
    } else {
        i
    }
}

pub proof fn lemma_scan_digits(s: Seq<char>, i: int)
    requires
        0 <= i <= s.len(),
    ensures
        i <= scan_digits(s, i) <= s.len(),
        forall|j: int| i <= j < scan_digits(s, i) ==> is_digit_char(s[j]),
        scan_digits(s, i) < s.len() ==> !is_digit_char(s[scan_digits(s, i)]),
    decreases s.len() - i,
{
    if i < s.len() && is_digit_char(s[i]) {
        lemma_scan_digits(s, i + 1);
    }
}

pub proof fn lemma_digits_val_zero(s: Seq<char>)
    requires
        all_digits(s),
    ensures
        digits_val(s) >= 0,
        (digits_val(s) == 0) <==> (forall|j: int| 0 <= j < s.len() ==> s[j] == '0'),
    decreases s.len(),
{
    if s.len() > 0 {
        assert(all_digits(s.drop_last()));
        lemma_digits_val_zero(s.drop_last());
        assert(is_digit_char(s.last()));
        if digits_val(s) == 0 {
            assert(forall|j: int| 0 <= j < s.len() - 1 ==> s[j] == s.drop_last()[j]);
            assert forall|j: int| 0 <= j < s.len() implies s[j] == '0' by {
                if j < s.len() - 1 {
                    assert(s.drop_last()[j] == '0');
                } else {
                    assert(digit_val(s.last()) == 0);
                }
            }
        }
        if forall|j: int| 0 <= j < s.len() ==> s[j] == '0' {
            assert(s.last() == '0');
            assert(forall|j: int| 0 <= j < s.drop_last().len() ==> s.drop_last()[j] == '0');
        }
    }
}

/// The literal grammar of a numeric value: an optional sign, one or more
/// digits, then optionally `/` and one or more denominator digits that do not
/// spell zero.  On success, the reduced value; on failure, the 0-based offset
/// of the offending character and what was expected there.
pub open spec fn spec_literal(t: Seq<char>) -> Result<Rat, (int, Expected)> {
    if t.len() == 0 {
        Err((0, Expected::Digit))
    } else {
        let sgn: int = if t[0] == '-' {
            -1
        } else {
            1
        };
        let off: int = if t[0] == '+' || t[0] == '-' {
            1
        } else {
            0
        };
        let dend = scan_digits(t, off);
        if dend == off {
            Err((off, Expected::Digit))
        } else if dend == t.len() {
            Ok(rat_reduce(sgn * digits_val(t.subrange(off, dend)), 1))
        } else if t[dend] != '/' {
            Err((dend, Expected::Digit))
        } else {
            let d2 = scan_digits(t, dend + 1);
            if d2 == dend + 1 {
                Err((dend + 1, Expected::Digit))
            } else if d2 != t.len() {
                Err((d2, Expected::Digit))
            } else {
                let den = digits_val(t.subrange(dend + 1, d2));
                if den == 0 {
                    Err((dend + 1, Expected::NonzeroDenominator))
                } else {
                    Ok(rat_reduce(sgn * digits_val(t.subrange(off, dend)), den))
                }
            }
        }
    }
}

#[verifier::external_type_specification]
#[verifier::external_body]
pub struct ExBigInt(num::bigint::BigInt);

#[verifier::external_type_specification]
#[verifier::external_body]
#[verifier::reject_recursive_types(T)]
pub struct ExRatio<T>(num::rational::Ratio<T>);

// The two components that a `Ratio<BigInt>` value stores; every trusted
// contract below speaks of the value through them.
pub uninterp spec fn ratio_numer(r: num::rational::Ratio<num::bigint::BigInt>) -> int;

pub uninterp spec fn ratio_denom(r: num::rational::Ratio<num::bigint::BigInt>) -> int;

/// An exact rational number, the leaf payload of an expression tree and the
/// result of evaluation.  Always held in reduced form: positive denominator,
/// numerator and denominator coprime, sign on the numerator.
#[derive(Debug)]
pub struct NumericValue {
    inner: num::rational::Ratio<num::bigint::BigInt>,
}

impl View for NumericValue {
    type V = Rat;

    closed spec fn view(&self) -> Rat {
        Rat { n: ratio_numer(self.inner), d: ratio_denom(self.inner) }
    }
}

/// Relies on `Ratio::<BigInt>::from_str`: it splits at `/`, reads the decimal
/// parts with `BigInt::from_str` (optional leading sign, then digits), rejects
/// a zero denominator, and reduces the result with `Ratio::new`.
#[verifier::external_body]
fn rat_from_literal(s: &str) -> (r: NumericValue)
    requires
        spec_literal(s@) is Ok,
    ensures
        ratio_numer(r.inner) == (spec_literal(s@)->Ok_0).n,
        ratio_denom(r.inner) == (spec_literal(s@)->Ok_0).d,
        r@ == spec_literal(s@)->Ok_0,
        r.wf(),
{
    let inner = <num::rational::Ratio<num::bigint::BigInt> as core::str::FromStr>::from_str(
        s,
    ).unwrap();
    NumericValue { inner }
}

/// Relies on `Add for &Ratio<BigInt>`: the exact sum, reduced.
#[verifier::external_body]
fn rat_add(a: &NumericValue, b: &NumericValue) -> (r: NumericValue)
    requires
        a.wf(),
        b.wf(),
    ensures
        r@ == rat_add_v(a@, b@),
        r.wf(),
{
    NumericValue { inner: &a.inner + &b.inner }
}

/// Relies on `Sub for &Ratio<BigInt>`: the exact difference, reduced.
#[verifier::external_body]
fn rat_sub(a: &NumericValue, b: &NumericValue) -> (r: NumericValue)
    requires
        a.wf(),
        b.wf(),
    ensures
        r@ == rat_sub_v(a@, b@),
        r.wf(),
{
    NumericValue { inner: &a.inner - &b.inner }
}

/// Relies on `Mul for &Ratio<BigInt>`: the exact product, reduced.
#[verifier::external_body]
fn rat_mul(a: &NumericValue, b: &NumericValue) -> (r: NumericValue)
    requires
        a.wf(),
        b.wf(),
    ensures
        r@ == rat_mul_v(a@, b@),
        r.wf(),
{
    NumericValue { inner: &a.inner * &b.inner }
}

/// Relies on `Div for &Ratio<BigInt>`: the exact quotient, reduced.  The
/// divisor must not be zero, since `Ratio` division panics on it.
#[verifier::external_body]
fn rat_div(a: &NumericValue, b: &NumericValue) -> (r: NumericValue)
    requires
        a.wf(),
        b.wf(),
        b@.n != 0,
    ensures
        r@ == rat_div_v(a@, b@),
        r.wf(),
{
    NumericValue { inner: &a.inner / &b.inner }
}

/// Relies on `Neg for &Ratio<BigInt>`: the numerator negated, the denominator
/// kept, which preserves the reduced form.
#[verifier::external_body]
fn rat_neg(a: &NumericValue) -> (r: NumericValue)
    requires
        a.wf(),
    ensures
        r@ == rat_neg_v(a@),
        r.wf(),
{
    NumericValue { inner: -&a.inner }
}

/// Relies on `PartialEq for Ratio<BigInt>`, which compares the numeric values;
/// on reduced operands that coincides with equality of the stored pairs.
#[verifier::external_body]
fn rat_eq(a: &NumericValue, b: &NumericValue) -> (r: bool)
    requires
        a.wf(),
        b.wf(),
    ensures
        r == (a@ == b@),
{
    a.inner == b.inner
}

/// Relies on `Zero::is_zero for Ratio<BigInt>`, which tests the numerator.
#[verifier::external_body]
fn rat_is_zero(a: &NumericValue) -> (r: bool)
    ensures
        r == (ratio_numer(a.inner) == 0),
{
    num::Zero::is_zero(&a.inner)
}

/// Relies on `Display for Ratio<BigInt>` and `Display for BigInt`: decimal
/// digits with a `-` sign for negative values, the denominator printed after
/// `/` only when it is not one.
#[verifier::external_body]
fn rat_to_string(a: &NumericValue) -> (r: String)
    requires
        a.wf(),
    ensures
        r@ == rat_str(a@),
{
    format!("{}", a.inner)
}

/// The decimal rendering of a reduced rational: the numerator alone when the
/// denominator is one, otherwise `numerator/denominator`.
pub open spec fn rat_str(r: Rat) -> Seq<char> {
    if r.d == 1 {
        int_str(r.n)
    } else {
        int_str(r.n) + seq!['/'] + int_str(r.d)
    }
}

pub open spec fn int_str(n: int) -> Seq<char> {
    if n < 0 {
        seq!['-'] + nat_str((-n) as nat)
    } else {
        nat_str(n as nat)
    }
}

pub open spec fn nat_str(n: nat) -> Seq<char>
    decreases n,
{
    if n < 10 {
        seq![digit_char(n % 10)]
    } else {
        nat_str(n / 10) + seq![digit_char(n % 10)]
    }
}

pub open spec fn digit_char(n: nat) -> char {
    if n == 0 {
        '0'
    } else if n == 1 {
        '1'
    } else if n == 2 {
        '2'
    } else if n == 3 {
        '3'
    } else if n == 4 {
        '4'
    } else if n == 5 {
        '5'
    } else if n == 6 {
        '6'
    } else if n == 7 {
        '7'
    } else if n == 8 {
        '8'
    } else {
        '9'
    }
}

impl NumericValue {
    /// Reduced form: positive denominator, numerator and denominator coprime.
    pub open spec fn wf(self) -> bool {
        rat_wf(self@)
    }

    /// The exact sum.
    pub fn add(&self, other: &NumericValue) -> (r: NumericValue)
        requires
            self.wf(),
            other.wf(),
        ensures
            r.wf(),
            r@ == rat_add_v(self@, other@),
    {
        rat_add(self, other)
    }

    /// The exact difference.
    pub fn sub(&self, other: &NumericValue) -> (r: NumericValue)
        requires
            self.wf(),
            other.wf(),
        ensures
            r.wf(),
            r@ == rat_sub_v(self@, other@),
    {
        rat_sub(self, other)
    }

    /// The exact product.
    pub fn mul(&self, other: &NumericValue) -> (r: NumericValue)
        requires
            self.wf(),
            other.wf(),
        ensures
            r.wf(),
            r@ == rat_mul_v(self@, other@),
    {
        rat_mul(self, other)
    }

    /// The exact quotient, or `DivisionByZero` exactly when the divisor is the
    /// zero value.
    pub fn div(&self, other: &NumericValue) -> (r: Result<NumericValue, EvalError>)
        requires
            self.wf(),
            other.wf(),
        ensures
            other@.n != 0 ==> r is Ok && r->Ok_0.wf() && r->Ok_0@ == rat_div_v(self@, other@),
            other@.n == 0 ==> r == Err::<NumericValue, EvalError>(EvalError::DivisionByZero),
    {
        if rat_is_zero(other) {
            Err(EvalError::DivisionByZero)
        } else {
            Ok(rat_div(self, other))
        }
    }

    /// The exact negation.
    pub fn neg(&self) -> (r: NumericValue)
        requires
            self.wf(),
        ensures
            r.wf(),
            r@ == rat_neg_v(self@),
    {
        rat_neg(self)
    }

    /// Structural equality of the reduced forms, so equality of the numbers,
    /// however each value was constructed.
    pub fn eq_value(&self, other: &NumericValue) -> (r: bool)
        requires
            self.wf(),
            other.wf(),
        ensures
            r == (self@ == other@),
    {
        rat_eq(self, other)
    }

    /// The canonical decimal rendering of the value.
    pub fn to_text(&self) -> (r: String)
        requires
            self.wf(),
        ensures
            r@ == rat_str(self@),
    {
        rat_to_string(self)
    }
}

/// The first position at or after `from` that does not hold a digit.
pub(crate) fn scan_digits_exec(s: &str, from: usize) -> (r: usize)
    requires
        from as int <= s@.len(),
    ensures
        r == scan_digits(s@, from as int),
        from <= r,
        r as int <= s@.len(),
{
    let n = s.unicode_len();
    let mut i = from;
    loop
        invariant
            from <= i <= n,
            n == s@.len(),
            scan_digits(s@, from as int) == scan_digits(s@, i as int),
        ensures
            i == scan_digits(s@, from as int),
            from <= i <= n,
        decreases n - i,
    {
        if i == n {
            break ;
        }
        let c = s.get_char(i);
        if !(c >= '0' && c <= '9') {
            break ;
        }
        i = i + 1;
    }
    i
}

/// Whether the digits in `s[from..to)` spell the zero value.
fn digits_all_zero(s: &str, from: usize, to: usize) -> (r: bool)
    requires
        from <= to,
        to as int <= s@.len(),
        forall|j: int| from <= j < to ==> is_digit_char(s@[j]),
    ensures
        r == (digits_val(s@.subrange(from as int, to as int)) == 0),
{
    let ghost t = s@.subrange(from as int, to as int);
    proof {
        assert(all_digits(t));
        lemma_digits_val_zero(t);
    }
    let mut i = from;
    loop
        invariant
            from <= i <= to,
            to as int <= s@.len(),
            t == s@.subrange(from as int, to as int),
            all_digits(t),
            forall|j: int| from <= j < i ==> s@[j] == '0',
        ensures
            (i == to && forall|j: int| from <= j < to ==> s@[j] == '0') || (i < to && s@[i as int]
                != '0'),
        decreases to - i,
    {
        if i == to {
            break ;
        }
        let c = s.get_char(i);
        if c != '0' {
            break ;
        }
        i = i + 1;
    }
    proof {
        assert(forall|j: int| 0 <= j < t.len() ==> t[j] == s@[from + j]);
    }
    if i == to {
        proof {
            assert(forall|j: int| 0 <= j < t.len() ==> t[j] == '0');
        }
        true
    } else {
        proof {
            assert(t[i - from] != '0');
        }
        false
    }
}

/// Reads a whole string as a numeric literal: optional sign, digits, then
/// optionally `/` and nonzero denominator digits.  On failure, the 0-based
/// offset of the offending character and what was expected there.
pub(crate) fn literal_of(s: &str) -> (r: Result<NumericValue, (usize, Expected)>)
    ensures
        r is Ok ==> spec_literal(s@) is Ok && r->Ok_0@ == spec_literal(s@)->Ok_0
            && r->Ok_0.wf(),
        r is Err ==> spec_literal(s@) == Err::<Rat, (int, Expected)>(
            ((r->Err_0).0 as int, (r->Err_0).1),
        ) && (r->Err_0).0 as int <= s@.len(),
{
    let n = s.unicode_len();
    if n == 0 {
        return Err((0, Expected::Digit));
    }
    let c0 = s.get_char(0);
    let off: usize = if c0 == '+' || c0 == '-' {
        1
    } else {
        0
    };
    let dend = scan_digits_exec(s, off);
    proof {
        lemma_scan_digits(s@, off as int);
    }
    if dend == off {
        return Err((off, Expected::Digit));
    }
    if dend == n {
        return Ok(rat_from_literal(s));
    }
    let cd = s.get_char(dend);
    if cd != '/' {
        return Err((dend, Expected::Digit));
    }
    let d2 = scan_digits_exec(s, dend + 1);
    proof {
        lemma_scan_digits(s@, dend + 1);
    }
    if d2 == dend + 1 {
        return Err((dend + 1, Expected::Digit));
    }
    if d2 != n {
        return Err((d2, Expected::Digit));
    }
    if digits_all_zero(s, dend + 1, d2) {
        return Err((dend + 1, Expected::NonzeroDenominator));
    }
    Ok(rat_from_literal(s))
}

} // verus!
