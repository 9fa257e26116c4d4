//! Exact rational scalars.
//!
//! Matrix elements and camera parameters are exact rationals `num / den`
//! with a positive denominator. The specification-level model of a rational
//! is a pair of unbounded integers; two pairs denote the same rational when
//! they cross-multiply equally ([`qeq`]). Executable operations compute the
//! exact numerator and denominator in 128-bit intermediates and fail
//! (return `None`) exactly when a component leaves the 64-bit range.

use vstd::prelude::*;

verus! {

/// An exact rational number `num / den`.
#[derive(Clone, Copy, Debug)]
pub struct Rat {
    pub num: i64,
    pub den: i64,
}

/// Specification-level rational: `(numerator, denominator)` over unbounded
/// integers.
pub open spec fn qwf(a: (int, int)) -> bool {
    a.1 != 0
}

/// The rationals `a` and `b` denote the same value (cross-multiplication).
pub open spec fn qeq(a: (int, int), b: (int, int)) -> bool {
    a.0 * b.1 == b.0 * a.1
}

pub open spec fn qzero() -> (int, int) {
    (0int, 1int)
}

pub open spec fn qone() -> (int, int) {
    (1int, 1int)
}

pub open spec fn qmul(a: (int, int), b: (int, int)) -> (int, int) {
    (a.0 * b.0, a.1 * b.1)
}

pub open spec fn qadd(a: (int, int), b: (int, int)) -> (int, int) {
    (a.0 * b.1 + b.0 * a.1, a.1 * b.1)
}

pub open spec fn qneg(a: (int, int)) -> (int, int) {
    (-a.0, a.1)
}

pub open spec fn qsub(a: (int, int), b: (int, int)) -> (int, int) {
    qadd(a, qneg(b))
}

/// Exact quotient `a / b`, as produced before sign normalization.
pub open spec fn qdiv(a: (int, int), b: (int, int)) -> (int, int) {
    (a.0 * b.1, a.1 * b.0)
}

/// Quotient with the denominator's sign normalized to positive when the
/// divisor is negative; this is the pair the executable division builds.
pub open spec fn qdiv_norm(a: (int, int), b: (int, int)) -> (int, int) {
    if b.0 < 0 {
        (-(a.0 * b.1), -(a.1 * b.0))
    } else {
        (a.0 * b.1, a.1 * b.0)
    }
}

/// Both components of the pair fit in an `i64`.
pub open spec fn pair_fits(a: (int, int)) -> bool {
    i64::MIN <= a.0 <= i64::MAX && i64::MIN <= a.1 <= i64::MAX
}

impl Rat {
    /// Well-formed: positive denominator.
    pub open spec fn wf(self) -> bool {
        self.den > 0
    }

    /// The specification-level pair this scalar denotes.
    pub open spec fn q(self) -> (int, int) {
        (self.num as int, self.den as int)
    }

    /// Builds `num / den` from a positive denominator.
    pub fn new(num: i64, den: i64) -> (r: Rat)
        requires
            den > 0,
        ensures
            r.wf(),
            r.q() == (num as int, den as int),
    {
        Rat { num, den }
    }

    /// The integer `n` as a rational.
    pub fn whole(n: i64) -> (r: Rat)
        ensures
            r.wf(),
            r.q() == (n as int, 1int),
    {
        Rat { num: n, den: 1 }
    }

    /// Zero.
    pub fn zero() -> (r: Rat)
        ensures
            r.wf(),
            r.q() == qzero(),
    {
        Rat { num: 0, den: 1 }
    }

    /// One.
    pub fn one() -> (r: Rat)
        ensures
            r.wf(),
            r.q() == qone(),
    {
        Rat { num: 1, den: 1 }
    }
}

proof fn lemma_i64_prod_in_i128(x: int, y: int)
    requires
        i64::MIN <= x <= i64::MAX,
        i64::MIN <= y <= i64::MAX,
    ensures
        i128::MIN < x * y < i128::MAX,
{
    assert(i128::MIN < x * y < i128::MAX) by (nonlinear_arith)
        requires
            i64::MIN <= x <= i64::MAX,
            i64::MIN <= y <= i64::MAX,
    ;
}

proof fn lemma_i64_prod_sum_in_i128(x: int, y: int, z: int, w: int)
    requires
        i64::MIN <= x <= i64::MAX,
        1 <= y <= i64::MAX,
        i64::MIN <= z <= i64::MAX,
        1 <= w <= i64::MAX,
    ensures
        i128::MIN <= x * y + z * w <= i128::MAX,
        i128::MIN <= x * y - z * w <= i128::MAX,
{
    assert(i128::MIN <= x * y + z * w <= i128::MAX && i128::MIN <= x * y - z * w
        <= i128::MAX) by (nonlinear_arith)
        requires
            i64::MIN <= x <= i64::MAX,
            1 <= y <= i64::MAX,
            i64::MIN <= z <= i64::MAX,
            1 <= w <= i64::MAX,
    ;
}

proof fn lemma_pos_prod(x: int, y: int)
    requires
        x > 0,
        y > 0,
    ensures
        x * y > 0,
{
    assert(x * y > 0) by (nonlinear_arith)
        requires
            x > 0,
            y > 0,
    ;
}

/// Denoted equality is transitive across a pair with nonzero denominator.
pub proof fn lemma_qeq_trans(a: (int, int), b: (int, int), c: (int, int))
    requires
        b.1 != 0,
        qeq(a, b),
        qeq(b, c),
    ensures
        qeq(a, c),
{
    assert(a.0 * c.1 == c.0 * a.1) by (nonlinear_arith)
        requires
            b.1 != 0,
            a.0 * b.1 == b.0 * a.1,
            b.0 * c.1 == c.0 * b.1,
    ;
}

/// Adding a zero with any denominator does not change the denoted value.
pub proof fn lemma_qadd_zero_right(a: (int, int), d: int)
    ensures
        qeq(qadd(a, (0int, d)), a),
{
    assert((a.0 * d) * a.1 == a.0 * (a.1 * d)) by (nonlinear_arith);
}

/// Adding to a zero with any denominator denotes the other operand.
pub proof fn lemma_qadd_zero_left(a: (int, int), d: int)
    ensures
        qeq(qadd((0int, d), a), a),
{
    assert((a.0 * d) * a.1 == a.0 * (d * a.1)) by (nonlinear_arith);
}

/// Multiplying by one on the left changes nothing.
pub proof fn lemma_qmul_one(a: (int, int))
    ensures
        qmul(qone(), a) == a,
{
    assert(1int * a.0 == a.0) by (nonlinear_arith);
    assert(1int * a.1 == a.1) by (nonlinear_arith);
    assert(qmul(qone(), a) == (1int * a.0, 1int * a.1));
}

/// Multiplying by one on the right changes nothing.
pub proof fn lemma_qmul_one_right(a: (int, int))
    ensures
        qmul(a, qone()) == a,
{
    assert(a.0 * 1int == a.0) by (nonlinear_arith);
    assert(a.1 * 1int == a.1) by (nonlinear_arith);
    assert(qmul(a, qone()) == (a.0 * 1int, a.1 * 1int));
}

/// Multiplying a zero on the left gives a zero over the other denominator.
pub proof fn lemma_qmul_zero(a: (int, int))
    ensures
        qmul(qzero(), a) == (0int, a.1),
{
    assert(0int * a.0 == 0int) by (nonlinear_arith);
    assert(1int * a.1 == a.1) by (nonlinear_arith);
    assert(qmul(qzero(), a) == (0int * a.0, 1int * a.1));
}

/// Two zeros add to a zero over the product denominator.
pub proof fn lemma_qadd_two_zeros(c: int, d: int)
    ensures
        qadd((0int, c), (0int, d)) == (0int, c * d),
{
    assert(0int * d == 0int) by (nonlinear_arith);
    assert(0int * c == 0int) by (nonlinear_arith);
    assert(qadd((0int, c), (0int, d)) == (0int * d + 0int * c, c * d));
}

/// Subtracting one combines the numerator and denominator directly.
pub proof fn lemma_qsub_one(a: (int, int))
    ensures
        qsub(a, qone()) == (a.0 - a.1, a.1),
{
    assert(a.0 * 1int == a.0) by (nonlinear_arith);
    assert((-1int) * a.1 == -a.1) by (nonlinear_arith);
    assert(a.1 * 1int == a.1) by (nonlinear_arith);
    assert(qsub(a, qone()) == (a.0 * 1int + (-1int) * a.1, a.1 * 1int));
}

/// Adding one combines the numerator and denominator directly.
pub proof fn lemma_qadd_one(a: (int, int))
    ensures
        qadd(a, qone()) == (a.0 + a.1, a.1),
{
    assert(a.0 * 1int == a.0) by (nonlinear_arith);
    assert(1int * a.1 == a.1) by (nonlinear_arith);
    assert(a.1 * 1int == a.1) by (nonlinear_arith);
    assert(qadd(a, qone()) == (a.0 * 1int + 1int * a.1, a.1 * 1int));
}

/// A product of nonzero integers is nonzero.
pub proof fn lemma_nonzero_mul(x: int, y: int)
    requires
        x != 0,
        y != 0,
    ensures
        x * y != 0,
{
    assert(x * y != 0) by (nonlinear_arith)
        requires
            x != 0,
            y != 0,
    ;
}

/// Exact product. Fails exactly when the exact pair leaves the 64-bit range.
pub fn rat_mul(a: Rat, b: Rat) -> (r: Option<Rat>)
    requires
        a.wf(),
        b.wf(),
    ensures
        r matches Some(c) ==> c.wf() && c.q() == qmul(a.q(), b.q()),
        r is Some <==> pair_fits(qmul(a.q(), b.q())),
{
    proof {
        lemma_i64_prod_in_i128(a.num as int, b.num as int);
        lemma_i64_prod_in_i128(a.den as int, b.den as int);
        lemma_pos_prod(a.den as int, b.den as int);
    }
    let num: i128 = (a.num as i128) * (b.num as i128);
    let den: i128 = (a.den as i128) * (b.den as i128);
    if i64::MIN as i128 <= num && num <= i64::MAX as i128 && den <= i64::MAX as i128 {
        Some(Rat { num: num as i64, den: den as i64 })
    } else {
        None
    }
}

/// Exact sum. Fails exactly when the exact pair leaves the 64-bit range.
pub fn rat_add(a: Rat, b: Rat) -> (r: Option<Rat>)
    requires
        a.wf(),
        b.wf(),
    ensures
        r matches Some(c) ==> c.wf() && c.q() == qadd(a.q(), b.q()),
        r is Some <==> pair_fits(qadd(a.q(), b.q())),
{
    proof {
        lemma_i64_prod_sum_in_i128(a.num as int, b.den as int, b.num as int, a.den as int);
        lemma_i64_prod_in_i128(a.num as int, b.den as int);
        lemma_i64_prod_in_i128(b.num as int, a.den as int);
        lemma_i64_prod_in_i128(a.den as int, b.den as int);
        lemma_pos_prod(a.den as int, b.den as int);
    }
    let num: i128 = (a.num as i128) * (b.den as i128) + (b.num as i128) * (a.den as i128);
    let den: i128 = (a.den as i128) * (b.den as i128);
    if i64::MIN as i128 <= num && num <= i64::MAX as i128 && den <= i64::MAX as i128 {
        Some(Rat { num: num as i64, den: den as i64 })
    } else {
        None
    }
}

/// Exact difference. Fails exactly when the exact pair leaves the 64-bit
/// range.
pub fn rat_sub(a: Rat, b: Rat) -> (r: Option<Rat>)
    requires
        a.wf(),
        b.wf(),
    ensures
        r matches Some(c) ==> c.wf() && c.q() == qsub(a.q(), b.q()),
        r is Some <==> pair_fits(qsub(a.q(), b.q())),
{
    proof {
        lemma_i64_prod_sum_in_i128(a.num as int, b.den as int, b.num as int, a.den as int);
        lemma_i64_prod_in_i128(a.num as int, b.den as int);
        lemma_i64_prod_in_i128(b.num as int, a.den as int);
        lemma_i64_prod_in_i128(a.den as int, b.den as int);
        lemma_pos_prod(a.den as int, b.den as int);
        assert((-(b.num as int)) * (a.den as int) == -((b.num as int) * (a.den as int)))
            by (nonlinear_arith);
    }
    let num: i128 = (a.num as i128) * (b.den as i128) - (b.num as i128) * (a.den as i128);
    let den: i128 = (a.den as i128) * (b.den as i128);
    if i64::MIN as i128 <= num && num <= i64::MAX as i128 && den <= i64::MAX as i128 {
        Some(Rat { num: num as i64, den: den as i64 })
    } else {
        None
    }
}

/// Exact negation. Fails only on the one numerator without a 64-bit
/// negation.
pub fn rat_neg(a: Rat) -> (r: Option<Rat>)
    requires
        a.wf(),
    ensures
        r matches Some(c) ==> c.wf() && c.q() == qneg(a.q()),
        r is Some <==> a.num != i64::MIN,
{
    if a.num == i64::MIN {
        None
    } else {
        Some(Rat { num: -a.num, den: a.den })
    }
}

/// Exact quotient by a nonzero rational, with the denominator sign
/// normalized to positive. Fails exactly when the normalized exact pair
/// leaves the 64-bit range.
pub fn rat_div(a: Rat, b: Rat) -> (r: Option<Rat>)
    requires
        a.wf(),
        b.wf(),
        b.num != 0,
    ensures
        r matches Some(c) ==> c.wf() && c.q() == qdiv_norm(a.q(), b.q()) && qeq(
            c.q(),
            qdiv(a.q(), b.q()),
        ),
        r is Some <==> pair_fits(qdiv_norm(a.q(), b.q())),
{
    proof {
        lemma_i64_prod_in_i128(a.num as int, b.den as int);
        lemma_i64_prod_in_i128(a.den as int, b.num as int);
        if b.num < 0 {
            lemma_pos_prod(a.den as int, -(b.num as int));
        } else {
            lemma_pos_prod(a.den as int, b.num as int);
        }
    }
    let raw_num: i128 = (a.num as i128) * (b.den as i128);
    let raw_den: i128 = (a.den as i128) * (b.num as i128);
    let num: i128 = if b.num < 0 {
        -raw_num
    } else {
        raw_num
    };
    let den: i128 = if b.num < 0 {
        -raw_den
    } else {
        raw_den
    };
    proof {
        assert((a.den as int) * (-(b.num as int)) == -((a.den as int) * (b.num as int)))
            by (nonlinear_arith);
        let p = (a.num as int) * (b.den as int);
        let q = (a.den as int) * (b.num as int);
        assert((-p) * q == p * (-q)) by (nonlinear_arith);
    }
    if i64::MIN as i128 <= num && num <= i64::MAX as i128 && den <= i64::MAX as i128 {
        Some(Rat { num: num as i64, den: den as i64 })
    } else {
        None
    }
}

/// Decides whether two scalars denote the same rational.
pub fn rat_eq(a: Rat, b: Rat) -> (r: bool)
    requires
        a.wf(),
        b.wf(),
    ensures
        r == qeq(a.q(), b.q()),
{
    proof {
        lemma_i64_prod_in_i128(a.num as int, b.den as int);
        lemma_i64_prod_in_i128(b.num as int, a.den as int);
    }
    (a.num as i128) * (b.den as i128) == (b.num as i128) * (a.den as i128)
}

} // verus!
