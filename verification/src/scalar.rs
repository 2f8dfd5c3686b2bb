//! Exact scalar arithmetic for plot coordinates.
//!
//! A coordinate is a [`PlotNum`]: either a finite rational number ([`Rat`],
//! a 64-bit numerator over a positive 64-bit denominator), one of the two
//! infinities, or a not-a-number value. Arithmetic follows the usual
//! conventions for extended numbers (infinities absorb, `NotANum`
//! propagates, `inf - inf` and `0 / 0` are `NotANum`). Finite results are
//! exact; when a finite result cannot be represented within 64 bits even
//! after reduction, the operation returns `NotANum`, and every contract
//! states exactness only of finite results.

use vstd::prelude::*;

verus! {

/// Absolute value of a mathematical integer.
pub open spec fn iabs(x: int) -> int {
    if x < 0 {
        -x
    } else {
        x
    }
}

/// A finite rational: `num / den`.
#[derive(Clone, Copy, Debug)]
pub struct Rat {
    pub num: i64,
    pub den: i64,
}

/// An extended rational coordinate value.
#[derive(Clone, Copy, Debug)]
pub enum PlotNum {
    /// Negative infinity.
    NegInf,
    /// A finite rational value.
    Fin(Rat),
    /// Positive infinity.
    PosInf,
    /// Not a number: the result of an undefined or unrepresentable
    /// operation.
    NotANum,
}

/// Well-formedness of a rational: positive denominator, and a numerator
/// whose negation is still a 64-bit value.
pub open spec fn rat_wf(r: Rat) -> bool {
    &&& 1 <= r.den
    &&& -(i64::MAX as int) <= r.num as int
}

/// The mathematical numerator/denominator pair of a finite value
/// (a placeholder pair for non-finite values).
pub open spec fn rep(a: PlotNum) -> (int, int) {
    match a {
        PlotNum::Fin(r) => (r.num as int, r.den as int),
        _ => (0, 1),
    }
}

/// Well-formedness of a pair standing for a rational.
pub open spec fn q_wf(p: (int, int)) -> bool {
    1 <= p.1
}

/// Two pairs stand for the same rational (cross multiplication).
pub open spec fn q_eq(a: (int, int), b: (int, int)) -> bool {
    a.0 * b.1 == b.0 * a.1
}

/// Exact rational addition on pairs.
pub open spec fn q_add(a: (int, int), b: (int, int)) -> (int, int) {
    (a.0 * b.1 + b.0 * a.1, a.1 * b.1)
}

/// Exact rational subtraction on pairs.
pub open spec fn q_sub(a: (int, int), b: (int, int)) -> (int, int) {
    (a.0 * b.1 - b.0 * a.1, a.1 * b.1)
}

/// Exact rational multiplication on pairs.
pub open spec fn q_mul(a: (int, int), b: (int, int)) -> (int, int) {
    (a.0 * b.0, a.1 * b.1)
}

/// Exact rational division on pairs, sign-normalized so the denominator
/// stays positive whenever `b` is nonzero.
pub open spec fn q_div(a: (int, int), b: (int, int)) -> (int, int) {
    if b.0 >= 0 {
        (a.0 * b.1, a.1 * b.0)
    } else {
        (-(a.0 * b.1), a.1 * -b.0)
    }
}

/// Strict order on pairs with positive denominators.
pub open spec fn q_lt(a: (int, int), b: (int, int)) -> bool {
    a.0 * b.1 < b.0 * a.1
}

/// Non-strict order on pairs with positive denominators.
pub open spec fn q_le(a: (int, int), b: (int, int)) -> bool {
    a.0 * b.1 <= b.0 * a.1
}

/// The pair of an integer.
pub open spec fn q_int(n: int) -> (int, int) {
    (n, 1)
}

/// The pair of a finite rational.
pub open spec fn ratv(r: Rat) -> (int, int) {
    (r.num as int, r.den as int)
}

/// The negation of a pair.
pub open spec fn q_neg(p: (int, int)) -> (int, int) {
    (-p.0, p.1)
}

/// The absolute value of a pair.
pub open spec fn q_abs(p: (int, int)) -> (int, int) {
    (iabs(p.0), p.1)
}

/// The larger absolute value of two pairs.
pub open spec fn q_absmax(a: (int, int), b: (int, int)) -> (int, int) {
    if q_le(q_abs(a), q_abs(b)) {
        q_abs(b)
    } else {
        q_abs(a)
    }
}

/// What a finite-by-finite operation with exact pair `p` returns: a finite
/// value standing for exactly `p` (with a no-larger representation), or
/// `NotANum` when `p` cannot be represented; representable pairs always
/// yield a finite value.
pub open spec fn fin_result(p: (int, int), r: PlotNum) -> bool {
    &&& (r is Fin || r is NotANum)
    &&& (r matches PlotNum::Fin(q) ==> {
        &&& (q.num as int) * p.1 == p.0 * (q.den as int)
        &&& iabs(q.num as int) <= iabs(p.0)
        &&& 1 <= q.den as int <= p.1
    })
    &&& ((iabs(p.0) <= i64::MAX as int && p.1 <= i64::MAX as int) ==> r is Fin)
}

proof fn lemma_mul_bound(x: int, y: int, b1: int, b2: int)
    by (nonlinear_arith)
    requires
        -b1 <= x <= b1,
        -b2 <= y <= b2,
        0 <= b1,
        0 <= b2,
    ensures
        -(b1 * b2) <= x * y <= b1 * b2,
{
}

proof fn lemma_neg_mul(x: int, y: int)
    by (nonlinear_arith)
    ensures
        (-x) * y == -(x * y),
{
}

proof fn lemma_mul_pos(x: int, y: int)
    by (nonlinear_arith)
    requires
        1 <= x,
        1 <= y,
    ensures
        1 <= x * y,
        y <= x * y,
        x <= x * y,
{
}

/// Greatest common divisor by Euclid's algorithm; only positivity is
/// relied on, divisibility is re-checked by the caller.
fn gcd_u128(a0: u128, b0: u128) -> (g: u128)
    requires
        1 <= a0 + b0,
    ensures
        1 <= g,
{
    let mut a = a0;
    let mut b = b0;
    while b != 0
        invariant
            1 <= a + b,
        decreases b,
    {
        let t = a % b;
        a = b;
        b = t;
    }
    a
}

/// Build a `PlotNum` from an exact numerator/denominator, reducing when the
/// direct representation does not fit.
pub(crate) fn make(n: i128, d: i128) -> (r: PlotNum)
    requires
        1 <= d,
        -i128::MAX <= n,
    ensures
        r.wf(),
        fin_result((n as int, d as int), r),
{
    let na: u128 = if n >= 0 {
        n as u128
    } else {
        (-n) as u128
    };
    let du: u128 = d as u128;
    if na <= i64::MAX as u128 && du <= i64::MAX as u128 {
        let num: i64 = if n >= 0 {
            na as i64
        } else {
            -(na as i64)
        };
        return PlotNum::Fin(Rat { num, den: du as i64 });
    }
    let g = gcd_u128(na, du);
    if na % g == 0 && du % g == 0 {
        let na2 = na / g;
        let d2 = du / g;
        proof {
            vstd::arithmetic::div_mod::lemma_fundamental_div_mod(na as int, g as int);
            vstd::arithmetic::div_mod::lemma_fundamental_div_mod(du as int, g as int);
        }
        if na2 <= i64::MAX as u128 && 1 <= d2 && d2 <= i64::MAX as u128 {
            let num: i64 = if n >= 0 {
                na2 as i64
            } else {
                -(na2 as i64)
            };
            let r = PlotNum::Fin(Rat { num, den: d2 as i64 });
            proof {
                let gi = g as int;
                let nai = na as int;
                let di = d as int;
                let na2i = na2 as int;
                let d2i = d2 as int;
                assert(nai == gi * na2i);
                assert(di == gi * d2i);
                assert(na2i * di == nai * d2i) by (nonlinear_arith)
                    requires
                        nai == gi * na2i,
                        di == gi * d2i,
                ;
                assert(na2i <= nai && d2i <= di) by (nonlinear_arith)
                    requires
                        nai == gi * na2i,
                        di == gi * d2i,
                        1 <= gi,
                        0 <= na2i,
                        0 <= d2i,
                ;
                if n >= 0 {
                    assert(nai == n as int);
                    assert(num as int == na2i);
                } else {
                    assert(nai == -(n as int));
                    assert(num as int == -na2i);
                    lemma_neg_mul(na2i, di);
                    lemma_neg_mul(nai, d2i);
                }
                assert((num as int) * di == (n as int) * d2i);
                assert(iabs(num as int) <= iabs(n as int));
            }
            return r;
        }
    }
    PlotNum::NotANum
}

/// What addition returns: infinities absorb, opposite infinities and
/// `NotANum` operands give `NotANum`, finite operands give their exact sum.
pub open spec fn add_rel(a: PlotNum, b: PlotNum, r: PlotNum) -> bool {
    match (a, b) {
        (PlotNum::NotANum, _) => r is NotANum,
        (_, PlotNum::NotANum) => r is NotANum,
        (PlotNum::PosInf, PlotNum::NegInf) => r is NotANum,
        (PlotNum::NegInf, PlotNum::PosInf) => r is NotANum,
        (PlotNum::PosInf, _) => r is PosInf,
        (_, PlotNum::PosInf) => r is PosInf,
        (PlotNum::NegInf, _) => r is NegInf,
        (_, PlotNum::NegInf) => r is NegInf,
        (PlotNum::Fin(x), PlotNum::Fin(y)) => fin_result(q_add(ratv(x), ratv(y)), r),
    }
}

/// What subtraction returns, by the same conventions as [`add_rel`].
pub open spec fn sub_rel(a: PlotNum, b: PlotNum, r: PlotNum) -> bool {
    match (a, b) {
        (PlotNum::NotANum, _) => r is NotANum,
        (_, PlotNum::NotANum) => r is NotANum,
        (PlotNum::PosInf, PlotNum::PosInf) => r is NotANum,
        (PlotNum::NegInf, PlotNum::NegInf) => r is NotANum,
        (PlotNum::PosInf, _) => r is PosInf,
        (_, PlotNum::PosInf) => r is NegInf,
        (PlotNum::NegInf, _) => r is NegInf,
        (_, PlotNum::NegInf) => r is PosInf,
        (PlotNum::Fin(x), PlotNum::Fin(y)) => fin_result(q_sub(ratv(x), ratv(y)), r),
    }
}

/// What multiplication returns: signed infinities absorb, an infinity times
/// zero and `NotANum` operands give `NotANum`, finite operands give their
/// exact product.
pub open spec fn mul_rel(a: PlotNum, b: PlotNum, r: PlotNum) -> bool {
    match (a, b) {
        (PlotNum::NotANum, _) => r is NotANum,
        (_, PlotNum::NotANum) => r is NotANum,
        (PlotNum::PosInf, PlotNum::PosInf) => r is PosInf,
        (PlotNum::PosInf, PlotNum::NegInf) => r is NegInf,
        (PlotNum::NegInf, PlotNum::PosInf) => r is NegInf,
        (PlotNum::NegInf, PlotNum::NegInf) => r is PosInf,
        (PlotNum::PosInf, PlotNum::Fin(y)) => inf_times(true, y, r),
        (PlotNum::Fin(x), PlotNum::PosInf) => inf_times(true, x, r),
        (PlotNum::NegInf, PlotNum::Fin(y)) => inf_times(false, y, r),
        (PlotNum::Fin(x), PlotNum::NegInf) => inf_times(false, x, r),
        (PlotNum::Fin(x), PlotNum::Fin(y)) => fin_result(q_mul(ratv(x), ratv(y)), r),
    }
}

/// An infinity of the given sign times the finite value `y`.
pub open spec fn inf_times(positive: bool, y: Rat, r: PlotNum) -> bool {
    if y.num == 0 {
        r is NotANum
    } else if (y.num > 0) == positive {
        r is PosInf
    } else {
        r is NegInf
    }
}

/// What division returns: division by zero gives a signed infinity (or
/// `NotANum` for zero over zero), a finite value over an infinity is zero,
/// an infinity over an infinity or a `NotANum` operand gives `NotANum`,
/// finite operands give their exact quotient.
pub open spec fn div_rel(a: PlotNum, b: PlotNum, r: PlotNum) -> bool {
    match (a, b) {
        (PlotNum::NotANum, _) => r is NotANum,
        (_, PlotNum::NotANum) => r is NotANum,
        (PlotNum::PosInf, PlotNum::PosInf) => r is NotANum,
        (PlotNum::PosInf, PlotNum::NegInf) => r is NotANum,
        (PlotNum::NegInf, PlotNum::PosInf) => r is NotANum,
        (PlotNum::NegInf, PlotNum::NegInf) => r is NotANum,
        (PlotNum::Fin(_), PlotNum::PosInf) => r == (PlotNum::Fin(Rat { num: 0i64, den: 1i64 })),
        (PlotNum::Fin(_), PlotNum::NegInf) => r == (PlotNum::Fin(Rat { num: 0i64, den: 1i64 })),
        (PlotNum::PosInf, PlotNum::Fin(y)) => r == (if y.num >= 0 {
            PlotNum::PosInf
        } else {
            PlotNum::NegInf
        }),
        (PlotNum::NegInf, PlotNum::Fin(y)) => r == (if y.num >= 0 {
            PlotNum::NegInf
        } else {
            PlotNum::PosInf
        }),
        (PlotNum::Fin(x), PlotNum::Fin(y)) => if y.num == 0 {
            if x.num == 0 {
                r is NotANum
            } else if x.num > 0 {
                r is PosInf
            } else {
                r is NegInf
            }
        } else {
            fin_result(q_div(ratv(x), ratv(y)), r)
        },
    }
}

/// Strict order: `NotANum` compares false, infinities bound everything,
/// finite values compare exactly.
pub open spec fn n_lt(a: PlotNum, b: PlotNum) -> bool {
    match (a, b) {
        (PlotNum::NotANum, _) => false,
        (_, PlotNum::NotANum) => false,
        (PlotNum::NegInf, PlotNum::NegInf) => false,
        (PlotNum::NegInf, _) => true,
        (_, PlotNum::NegInf) => false,
        (PlotNum::PosInf, _) => false,
        (_, PlotNum::PosInf) => true,
        (PlotNum::Fin(x), PlotNum::Fin(y)) => q_lt(ratv(x), ratv(y)),
    }
}

/// Non-strict order, by the same conventions as [`n_lt`].
pub open spec fn n_le(a: PlotNum, b: PlotNum) -> bool {
    match (a, b) {
        (PlotNum::NotANum, _) => false,
        (_, PlotNum::NotANum) => false,
        (PlotNum::NegInf, _) => true,
        (_, PlotNum::NegInf) => false,
        (_, PlotNum::PosInf) => true,
        (PlotNum::PosInf, _) => false,
        (PlotNum::Fin(x), PlotNum::Fin(y)) => q_le(ratv(x), ratv(y)),
    }
}

/// The smaller of two values, skipping a `NotANum` operand.
pub open spec fn n_min(a: PlotNum, b: PlotNum) -> PlotNum {
    if a is NotANum {
        b
    } else if b is NotANum {
        a
    } else if n_le(a, b) {
        a
    } else {
        b
    }
}

/// The larger of two values, skipping a `NotANum` operand.
pub open spec fn n_max(a: PlotNum, b: PlotNum) -> PlotNum {
    if a is NotANum {
        b
    } else if b is NotANum {
        a
    } else if n_le(a, b) {
        b
    } else {
        a
    }
}

/// The negation of a value.
pub open spec fn n_neg(a: PlotNum) -> PlotNum {
    match a {
        PlotNum::NegInf => PlotNum::PosInf,
        PlotNum::PosInf => PlotNum::NegInf,
        PlotNum::NotANum => PlotNum::NotANum,
        PlotNum::Fin(r) => PlotNum::Fin(Rat { num: (-(r.num as int)) as i64, den: r.den }),
    }
}

/// The absolute value of a value.
pub open spec fn n_abs(a: PlotNum) -> PlotNum {
    match a {
        PlotNum::NegInf => PlotNum::PosInf,
        PlotNum::PosInf => PlotNum::PosInf,
        PlotNum::NotANum => PlotNum::NotANum,
        PlotNum::Fin(r) => if r.num < 0 {
            PlotNum::Fin(Rat { num: (-(r.num as int)) as i64, den: r.den })
        } else {
            a
        },
    }
}

/// A value clamped into the finite representable range: infinities become
/// the largest representable integers, `NotANum` becomes zero.
pub open spec fn n_clamped(a: PlotNum) -> PlotNum {
    match a {
        PlotNum::NegInf => PlotNum::Fin(Rat { num: (-(i64::MAX as int)) as i64, den: 1i64 }),
        PlotNum::PosInf => PlotNum::Fin(Rat { num: i64::MAX, den: 1i64 }),
        PlotNum::NotANum => PlotNum::Fin(Rat { num: 0i64, den: 1i64 }),
        PlotNum::Fin(_) => a,
    }
}

/// Two values are the same: equal kinds, and finite payloads standing for
/// the same rational.
pub open spec fn n_same(a: PlotNum, b: PlotNum) -> bool {
    match (a, b) {
        (PlotNum::NegInf, PlotNum::NegInf) => true,
        (PlotNum::PosInf, PlotNum::PosInf) => true,
        (PlotNum::NotANum, PlotNum::NotANum) => true,
        (PlotNum::Fin(x), PlotNum::Fin(y)) => q_eq(ratv(x), ratv(y)),
        _ => false,
    }
}

/// Both entries of a pair are bounded by `m` in magnitude.
pub open spec fn q_bounded(p: (int, int), m: int) -> bool {
    iabs(p.0) <= m && p.1 <= m
}

/// Half of a rational.
pub open spec fn q_half(p: (int, int)) -> (int, int) {
    q_div(p, q_int(2))
}

/// Magnitude bounds of the pair operations.
pub proof fn lemma_q_op_bounds(a: (int, int), b: (int, int), m: int, n: int)
    by (nonlinear_arith)
    requires
        q_wf(a),
        q_wf(b),
        q_bounded(a, m),
        q_bounded(b, n),
        1 <= m,
        1 <= n,
    ensures
        q_bounded(q_add(a, b), 2 * m * n),
        q_bounded(q_sub(a, b), 2 * m * n),
        q_bounded(q_mul(a, b), m * n),
        q_bounded(q_div(a, b), m * n),
{
}

/// A value strictly below a half-span above the same center: the interval
/// `[x - h, x + h]` is in order for positive `h`.
pub proof fn lemma_q_span_order(x: (int, int), h: (int, int))
    by (nonlinear_arith)
    requires
        q_wf(x),
        q_wf(h),
        q_lt(q_int(0), h),
    ensures
        q_lt(q_sub(x, h), q_add(x, h)),
{
}

/// The linear remap of `v` from the range `[a, b]` to the range `[c, d]`:
/// `c + (v - a) / (b - a) * (d - c)`.
pub open spec fn q_remap(
    v: (int, int),
    a: (int, int),
    b: (int, int),
    c: (int, int),
    d: (int, int),
) -> (int, int) {
    q_add(q_mul(q_div(q_sub(v, a), q_sub(b, a)), q_sub(d, c)), c)
}

/// The pair operations keep denominators positive (division needs a nonzero
/// divisor).
pub proof fn lemma_q_ops_wf(a: (int, int), b: (int, int))
    requires
        q_wf(a),
        q_wf(b),
    ensures
        q_wf(q_add(a, b)),
        q_wf(q_sub(a, b)),
        q_wf(q_mul(a, b)),
        b.0 != 0 ==> q_wf(q_div(a, b)),
{
    lemma_mul_pos(a.1, b.1);
    if b.0 >= 1 {
        lemma_mul_pos(a.1, b.0);
    }
    if b.0 <= -1 {
        lemma_mul_pos(a.1, -b.0);
    }
}

/// Standing for the same rational is transitive.
pub proof fn lemma_q_eq_trans(a: (int, int), b: (int, int), c: (int, int))
    by (nonlinear_arith)
    requires
        q_wf(a),
        q_wf(b),
        q_wf(c),
        q_eq(a, b),
        q_eq(b, c),
    ensures
        q_eq(a, c),
{
}

/// Addition respects sameness in its left operand.
pub proof fn lemma_q_add_cong(a: (int, int), a2: (int, int), b: (int, int))
    by (nonlinear_arith)
    requires
        q_wf(a),
        q_wf(a2),
        q_wf(b),
        q_eq(a, a2),
    ensures
        q_eq(q_add(a, b), q_add(a2, b)),
{
}

/// Subtraction respects sameness in its left operand.
#[verifier::rlimit(50)]
pub proof fn lemma_q_sub_cong(a: (int, int), a2: (int, int), b: (int, int))
    by (nonlinear_arith)
    requires
        q_wf(a),
        q_wf(a2),
        q_wf(b),
        q_eq(a, a2),
    ensures
        q_eq(q_sub(a, b), q_sub(a2, b)),
{
}

/// Multiplication respects sameness in its left operand.
pub proof fn lemma_q_mul_cong(a: (int, int), a2: (int, int), b: (int, int))
    by (nonlinear_arith)
    requires
        q_wf(a),
        q_wf(a2),
        q_wf(b),
        q_eq(a, a2),
    ensures
        q_eq(q_mul(a, b), q_mul(a2, b)),
{
}

/// Division respects sameness in its dividend.
pub proof fn lemma_q_div_cong(a: (int, int), a2: (int, int), b: (int, int))
    by (nonlinear_arith)
    requires
        q_wf(a),
        q_wf(a2),
        q_wf(b),
        b.0 != 0,
        q_eq(a, a2),
    ensures
        q_eq(q_div(a, b), q_div(a2, b)),
{
}

/// Subtraction respects sameness in its right operand.
#[verifier::rlimit(50)]
pub proof fn lemma_q_sub_cong_r(a: (int, int), b: (int, int), b2: (int, int))
    by (nonlinear_arith)
    requires
        q_wf(a),
        q_wf(b),
        q_wf(b2),
        q_eq(b, b2),
    ensures
        q_eq(q_sub(a, b), q_sub(a, b2)),
{
}

/// Addition respects sameness in its right operand.
#[verifier::rlimit(50)]
pub proof fn lemma_q_add_cong_r(a: (int, int), b: (int, int), b2: (int, int))
    by (nonlinear_arith)
    requires
        q_wf(a),
        q_wf(b),
        q_wf(b2),
        q_eq(b, b2),
    ensures
        q_eq(q_add(a, b), q_add(a, b2)),
{
}

/// Multiplication respects sameness in its right operand.
pub proof fn lemma_q_mul_cong_r(a: (int, int), b: (int, int), b2: (int, int))
    by (nonlinear_arith)
    requires
        q_wf(a),
        q_wf(b),
        q_wf(b2),
        q_eq(b, b2),
    ensures
        q_eq(q_mul(a, b), q_mul(a, b2)),
{
}

/// Division respects sameness in its divisor.
#[verifier::rlimit(50)]
pub proof fn lemma_q_div_cong_divisor(a: (int, int), b: (int, int), b2: (int, int))
    by (nonlinear_arith)
    requires
        q_wf(a),
        q_wf(b),
        q_wf(b2),
        b.0 != 0,
        q_eq(b, b2),
    ensures
        b2.0 != 0,
        q_eq(q_div(a, b), q_div(a, b2)),
{
}

/// Same-valued pairs are zero together.
pub proof fn lemma_q_eq_zero(a: (int, int), b: (int, int))
    by (nonlinear_arith)
    requires
        q_wf(a),
        q_wf(b),
        q_eq(a, b),
    ensures
        (a.0 == 0) == (b.0 == 0),
        (a.0 > 0) == (b.0 > 0),
        (a.0 < 0) == (b.0 < 0),
{
}

/// The absolute value respects sameness.
pub proof fn lemma_q_abs_cong(a: (int, int), b: (int, int))
    by (nonlinear_arith)
    requires
        q_wf(a),
        q_wf(b),
        q_eq(a, b),
    ensures
        q_eq(q_abs(a), q_abs(b)),
{
}

/// The negation respects sameness.
pub proof fn lemma_q_neg_cong(a: (int, int), b: (int, int))
    by (nonlinear_arith)
    requires
        q_wf(a),
        q_wf(b),
        q_eq(a, b),
    ensures
        q_eq(q_neg(a), q_neg(b)),
{
}

/// A positive value is larger than its negation.
pub proof fn lemma_q_neg_lt(h: (int, int))
    by (nonlinear_arith)
    requires
        q_wf(h),
        q_lt(q_int(0), h),
    ensures
        q_lt(q_neg(h), h),
{
}

/// Of two values in strict order, the larger absolute value is positive.
pub proof fn lemma_q_absmax_pos(a: (int, int), b: (int, int))
    by (nonlinear_arith)
    requires
        q_wf(a),
        q_wf(b),
        q_lt(a, b),
    ensures
        q_lt(q_int(0), q_absmax(a, b)),
{
}

/// A division with a nonzero dividend has a nonzero numerator.
pub proof fn lemma_q_div_num_nonzero(a: (int, int), b: (int, int))
    by (nonlinear_arith)
    requires
        q_wf(a),
        q_wf(b),
        a.0 != 0,
    ensures
        q_div(a, b).0 != 0,
{
}

/// Adding and then subtracting the same value cancels.
pub proof fn lemma_q_add_sub_cancel(t: (int, int), c: (int, int))
    by (nonlinear_arith)
    requires
        q_wf(t),
        q_wf(c),
    ensures
        q_eq(q_sub(q_add(t, c), c), t),
{
}

/// Subtracting and then adding the same value cancels.
pub proof fn lemma_q_sub_add_cancel(v: (int, int), a: (int, int))
    by (nonlinear_arith)
    requires
        q_wf(v),
        q_wf(a),
    ensures
        q_eq(q_add(q_sub(v, a), a), v),
{
}

/// Multiplying and then dividing by the same nonzero value cancels.
pub proof fn lemma_q_mul_div_cancel(t: (int, int), w: (int, int))
    by (nonlinear_arith)
    requires
        q_wf(t),
        q_wf(w),
        w.0 != 0,
    ensures
        q_eq(q_div(q_mul(t, w), w), t),
{
}

/// Dividing and then multiplying by the same nonzero value cancels.
pub proof fn lemma_q_div_mul_cancel(t: (int, int), w: (int, int))
    by (nonlinear_arith)
    requires
        q_wf(t),
        q_wf(w),
        w.0 != 0,
    ensures
        q_eq(q_mul(q_div(t, w), w), t),
{
}

/// The order on pairs respects sameness.
pub proof fn lemma_q_lt_cong(a: (int, int), a2: (int, int), b: (int, int), b2: (int, int))
    by (nonlinear_arith)
    requires
        q_wf(a),
        q_wf(a2),
        q_wf(b),
        q_wf(b2),
        q_eq(a, a2),
        q_eq(b, b2),
    ensures
        q_lt(a, b) == q_lt(a2, b2),
        q_le(a, b) == q_le(a2, b2),
{
}

/// A strict inequality may be multiplied or divided by a positive factor.
proof fn lemma_mul_lt_iff(a: int, b: int, c: int)
    by (nonlinear_arith)
    requires
        0 < c,
    ensures
        (a < b) == (a * c < b * c),
{
}

/// Product of two products, regrouped: `(p q)(r s) == (p r)(q s)`.
proof fn lemma_mul_reorder(p: int, q: int, r: int, s: int)
    ensures
        (p * q) * (r * s) == (p * r) * (q * s),
{
    vstd::arithmetic::mul::lemma_mul_is_associative(p, q, r * s);
    vstd::arithmetic::mul::lemma_mul_is_associative(q, r, s);
    vstd::arithmetic::mul::lemma_mul_is_commutative(q, r);
    vstd::arithmetic::mul::lemma_mul_is_associative(r, q, s);
    vstd::arithmetic::mul::lemma_mul_is_associative(p, r, q * s);
}

/// One side of the shifted order comparison, expanded.
proof fn lemma_shift_expand(a: int, b: int, c: int, t0: int, t1: int)
    ensures
        (a * t1 + t0 * b) * (c * t1) == (a * c) * (t1 * t1) + (t0 * b) * (c * t1),
        (a * t1) * (c * t1) == (a * c) * (t1 * t1),
{
    vstd::arithmetic::mul::lemma_mul_is_distributive_add_other_way(c * t1, a * t1, t0 * b);
    lemma_mul_reorder(a, t1, c, t1);
}

/// Subtracting the same value keeps the strict order.
pub proof fn lemma_q_lt_sub(x: (int, int), y: (int, int), t: (int, int))
    requires
        q_wf(x),
        q_wf(y),
        q_wf(t),
    ensures
        q_lt(x, y) == q_lt(q_sub(x, t), q_sub(y, t)),
{
    lemma_q_lt_add(x, y, q_neg(t));
    vstd::arithmetic::mul::lemma_mul_is_commutative(-t.0, x.1);
    vstd::arithmetic::mul::lemma_mul_is_commutative(t.0, x.1);
    vstd::arithmetic::mul::lemma_mul_is_commutative(-t.0, y.1);
    vstd::arithmetic::mul::lemma_mul_is_commutative(t.0, y.1);
    lemma_neg_mul(t.0, x.1);
    lemma_neg_mul(t.0, y.1);
    assert(q_add(x, q_neg(t)) == q_sub(x, t));
    assert(q_add(y, q_neg(t)) == q_sub(y, t));
}

/// Adding the same value keeps the strict order.
pub proof fn lemma_q_lt_add(x: (int, int), y: (int, int), t: (int, int))
    requires
        q_wf(x),
        q_wf(y),
        q_wf(t),
    ensures
        q_lt(x, y) == q_lt(q_add(x, t), q_add(y, t)),
{
    lemma_shift_expand(x.0, x.1, y.1, t.0, t.1);
    lemma_shift_expand(y.0, y.1, x.1, t.0, t.1);
    lemma_mul_reorder(t.0, x.1, y.1, t.1);
    lemma_mul_pos(t.1, t.1);
    lemma_mul_lt_iff(x.0 * y.1, y.0 * x.1, t.1 * t.1);
}

/// Multiplying by a positive value keeps the strict order; by a negative
/// value reverses it.
pub proof fn lemma_q_lt_mul(x: (int, int), y: (int, int), w: (int, int))
    by (nonlinear_arith)
    requires
        q_wf(x),
        q_wf(y),
        q_wf(w),
    ensures
        w.0 > 0 ==> q_lt(x, y) == q_lt(q_mul(x, w), q_mul(y, w)),
        w.0 < 0 ==> q_lt(x, y) == q_lt(q_mul(y, w), q_mul(x, w)),
{
}

/// Dividing by a positive value keeps the strict order; by a negative value
/// reverses it.
pub proof fn lemma_q_lt_div(x: (int, int), y: (int, int), w: (int, int))
    by (nonlinear_arith)
    requires
        q_wf(x),
        q_wf(y),
        q_wf(w),
    ensures
        w.0 > 0 ==> q_lt(x, y) == q_lt(q_div(x, w), q_div(y, w)),
        w.0 < 0 ==> q_lt(x, y) == q_lt(q_div(y, w), q_div(x, w)),
{
}

/// The remap respects sameness of the remapped value.
pub proof fn lemma_q_remap_cong_v(
    v: (int, int),
    v2: (int, int),
    a: (int, int),
    b: (int, int),
    c: (int, int),
    d: (int, int),
)
    requires
        q_wf(v),
        q_wf(v2),
        q_wf(a),
        q_wf(b),
        q_wf(c),
        q_wf(d),
        q_sub(b, a).0 != 0,
        q_eq(v, v2),
    ensures
        q_eq(q_remap(v, a, b, c, d), q_remap(v2, a, b, c, d)),
{
    let w = q_sub(b, a);
    let s = q_sub(d, c);
    lemma_q_ops_wf(b, a);
    lemma_q_ops_wf(d, c);
    lemma_q_ops_wf(v, a);
    lemma_q_ops_wf(v2, a);
    lemma_q_sub_cong(v, v2, a);
    lemma_q_ops_wf(q_sub(v, a), w);
    lemma_q_ops_wf(q_sub(v2, a), w);
    lemma_q_div_cong(q_sub(v, a), q_sub(v2, a), w);
    lemma_q_ops_wf(q_div(q_sub(v, a), w), s);
    lemma_q_ops_wf(q_div(q_sub(v2, a), w), s);
    lemma_q_mul_cong(q_div(q_sub(v, a), w), q_div(q_sub(v2, a), w), s);
    lemma_q_ops_wf(q_mul(q_div(q_sub(v, a), w), s), c);
    lemma_q_ops_wf(q_mul(q_div(q_sub(v2, a), w), s), c);
    lemma_q_add_cong(q_mul(q_div(q_sub(v, a), w), s), q_mul(q_div(q_sub(v2, a), w), s), c);
}

/// The remap of well-formed pairs over a nonempty source range is a
/// well-formed pair.
pub proof fn lemma_q_remap_wf(v: (int, int), a: (int, int), b: (int, int), c: (int, int), d: (int, int))
    requires
        q_wf(v),
        q_wf(a),
        q_wf(b),
        q_wf(c),
        q_wf(d),
        q_sub(b, a).0 != 0,
    ensures
        q_wf(q_remap(v, a, b, c, d)),
{
    lemma_q_ops_wf(b, a);
    lemma_q_ops_wf(v, a);
    lemma_q_ops_wf(d, c);
    lemma_q_ops_wf(q_sub(v, a), q_sub(b, a));
    lemma_q_ops_wf(q_div(q_sub(v, a), q_sub(b, a)), q_sub(d, c));
    lemma_q_ops_wf(q_mul(q_div(q_sub(v, a), q_sub(b, a)), q_sub(d, c)), c);
}

/// The remap sends the endpoints of the source range to the endpoints of
/// the target range.
pub proof fn lemma_q_remap_endpoints(a: (int, int), b: (int, int), c: (int, int), d: (int, int))
    requires
        q_wf(a),
        q_wf(b),
        q_wf(c),
        q_wf(d),
        q_sub(b, a).0 != 0,
    ensures
        q_eq(q_remap(a, a, b, c, d), c),
        q_eq(q_remap(b, a, b, c, d), d),
{
    let w = q_sub(b, a);
    let s = q_sub(d, c);
    lemma_q_ops_wf(b, a);
    lemma_q_ops_wf(d, c);
    lemma_q_ops_wf(a, a);
    lemma_q_ops_wf(b, a);
    // the start: the offset is zero, so the whole ramp term is zero
    let t0 = q_div(q_sub(a, a), w);
    lemma_q_ops_wf(q_sub(a, a), w);
    assert(q_sub(a, a).0 == 0);
    assert(t0.0 == 0) by (nonlinear_arith)
        requires
            t0 == q_div(q_sub(a, a), w),
            q_sub(a, a).0 == 0,
    ;
    let m0 = q_mul(t0, s);
    lemma_q_ops_wf(t0, s);
    assert(m0.0 == 0) by (nonlinear_arith)
        requires
            m0 == q_mul(t0, s),
            t0.0 == 0,
    ;
    lemma_q_ops_wf(m0, c);
    assert(q_eq(q_add(m0, c), c)) by (nonlinear_arith)
        requires
            m0.0 == 0,
            q_wf(m0),
            q_wf(c),
    ;
    // the end: the ramp factor is one, so the target offset is added whole
    let t1 = q_div(q_sub(b, a), w);
    lemma_q_ops_wf(w, w);
    assert(q_eq(t1, (1int, 1int))) by (nonlinear_arith)
        requires
            t1 == q_div(w, w),
            w.0 != 0,
            q_wf(w),
    ;
    let m1 = q_mul(t1, s);
    lemma_q_ops_wf(t1, s);
    lemma_q_ops_wf((1int, 1int), s);
    lemma_q_mul_cong(t1, (1int, 1int), s);
    assert(q_mul((1int, 1int), s) == s) by (nonlinear_arith);
    lemma_q_ops_wf(m1, c);
    lemma_q_ops_wf(s, c);
    lemma_q_add_cong(m1, s, c);
    lemma_q_sub_add_cancel(d, c);
    lemma_q_eq_trans(q_add(m1, c), q_add(s, c), d);
}

/// Subtracting two values shifted by the same amount gives their plain
/// difference.
pub proof fn lemma_q_sub_of_adds(x: (int, int), y: (int, int), t: (int, int))
    requires
        q_wf(x),
        q_wf(y),
        q_wf(t),
    ensures
        q_eq(q_sub(q_add(x, t), q_add(y, t)), q_sub(x, y)),
{
    lemma_shift_expand(x.0, x.1, y.1, t.0, t.1);
    lemma_shift_expand(y.0, y.1, x.1, t.0, t.1);
    lemma_mul_reorder(t.0, x.1, y.1, t.1);
    lemma_mul_reorder(x.1, t.1, y.1, t.1);
    let big = t.1 * t.1;
    assert((x.0 * t.1 + t.0 * x.1) * (y.1 * t.1) - (y.0 * t.1 + t.0 * y.1) * (x.1 * t.1) == (x.0
        * y.1 - y.0 * x.1) * big) by (nonlinear_arith)
        requires
            (x.0 * t.1 + t.0 * x.1) * (y.1 * t.1) == (x.0 * y.1) * big + (t.0 * x.1) * (y.1 * t.1),
            (y.0 * t.1 + t.0 * y.1) * (x.1 * t.1) == (y.0 * x.1) * big + (t.0 * x.1) * (y.1 * t.1),
            big == t.1 * t.1,
    ;
    assert(((x.0 * y.1 - y.0 * x.1) * big) * (x.1 * y.1) == (x.0 * y.1 - y.0 * x.1) * ((x.1 * y.1)
        * big)) by (nonlinear_arith);
}

/// The core of dividing a difference: scaling two numerators by `q` and
/// denominators by `p` scales the cross difference by `q * p`.
proof fn lemma_sub_div_core(a: (int, int), b: (int, int), p: int, q: int)
    requires
        q_wf(a),
        q_wf(b),
        1 <= p,
    ensures
        (a.0 * q) * (b.1 * p) - (b.0 * q) * (a.1 * p) == (a.0 * b.1 - b.0 * a.1) * (q * p),
        ((a.0 * b.1 - b.0 * a.1) * (q * p)) * ((a.1 * b.1) * p) == ((a.0 * b.1 - b.0 * a.1) * q) * (
        (a.1 * p) * (b.1 * p)),
{
    lemma_mul_reorder(a.0, q, b.1, p);
    lemma_mul_reorder(b.0, q, a.1, p);
    vstd::arithmetic::mul::lemma_mul_is_distributive_sub_other_way(
        q * p,
        a.0 * b.1,
        b.0 * a.1,
    );
    let dd = a.0 * b.1 - b.0 * a.1;
    lemma_mul_reorder(a.1, p, b.1, p);
    lemma_mul_reorder(dd, q * p, a.1 * b.1, p);
    lemma_mul_reorder(dd, q, a.1 * b.1, p * p);
    vstd::arithmetic::mul::lemma_mul_is_associative(q, p, p);
}

/// A difference of two quotients over the same divisor is the quotient of
/// the difference.
pub proof fn lemma_q_sub_of_divs(a: (int, int), b: (int, int), f: (int, int))
    requires
        q_wf(a),
        q_wf(b),
        q_wf(f),
        f.0 != 0,
    ensures
        q_eq(q_sub(q_div(a, f), q_div(b, f)), q_div(q_sub(a, b), f)),
{
    if f.0 > 0 {
        lemma_sub_div_core(a, b, f.0, f.1);
    } else {
        lemma_sub_div_core(a, b, -f.0, -f.1);
        lemma_neg_mul(a.0, f.1);
        lemma_neg_mul(b.0, f.1);
        lemma_neg_mul(a.0 * b.1 - b.0 * a.1, f.1);
        assert(a.0 * -f.1 == -(a.0 * f.1) && b.0 * -f.1 == -(b.0 * f.1) && (a.0 * b.1 - b.0 * a.1)
            * -f.1 == -((a.0 * b.1 - b.0 * a.1) * f.1)) by (nonlinear_arith);
    }
}

/// Remapping from `[a, b]` to `[c, d]` and back returns the original value.
pub proof fn lemma_q_remap_round_trip(
    v: (int, int),
    a: (int, int),
    b: (int, int),
    c: (int, int),
    d: (int, int),
)
    requires
        q_wf(v),
        q_wf(a),
        q_wf(b),
        q_wf(c),
        q_wf(d),
        q_sub(b, a).0 != 0,
        q_sub(d, c).0 != 0,
    ensures
        q_eq(q_remap(q_remap(v, a, b, c, d), c, d, a, b), v),
{
    let w = q_sub(b, a);
    let s = q_sub(d, c);
    let va = q_sub(v, a);
    let t = q_div(va, w);
    let ts = q_mul(t, s);
    let p = q_add(ts, c);
    lemma_q_ops_wf(b, a);
    lemma_q_ops_wf(d, c);
    lemma_q_ops_wf(v, a);
    lemma_q_ops_wf(va, w);
    lemma_q_ops_wf(t, s);
    lemma_q_ops_wf(ts, c);
    let pc = q_sub(p, c);
    lemma_q_ops_wf(p, c);
    lemma_q_add_sub_cancel(ts, c);
    // pc ~ ts
    let u = q_div(pc, s);
    lemma_q_ops_wf(pc, s);
    lemma_q_div_cong(pc, ts, s);
    lemma_q_mul_div_cancel(t, s);
    lemma_q_ops_wf(ts, s);
    lemma_q_eq_trans(u, q_div(ts, s), t);
    // u ~ t
    let uw = q_mul(u, w);
    lemma_q_ops_wf(u, w);
    lemma_q_mul_cong(u, t, w);
    lemma_q_div_mul_cancel(va, w);
    lemma_q_ops_wf(t, w);
    lemma_q_eq_trans(uw, q_mul(t, w), va);
    // uw ~ va
    let res = q_add(uw, a);
    lemma_q_ops_wf(uw, a);
    lemma_q_add_cong(uw, va, a);
    lemma_q_sub_add_cancel(v, a);
    lemma_q_ops_wf(va, a);
    lemma_q_eq_trans(res, q_add(va, a), v);
}

/// Remapping from `[a, b]` to `[c, d]` is strictly monotone: increasing in
/// the value when the target range is increasing, decreasing when the
/// target range is reversed.
pub proof fn lemma_q_remap_mono(
    v1: (int, int),
    v2: (int, int),
    a: (int, int),
    b: (int, int),
    c: (int, int),
    d: (int, int),
)
    requires
        q_wf(v1),
        q_wf(v2),
        q_wf(a),
        q_wf(b),
        q_wf(c),
        q_wf(d),
        q_sub(b, a).0 > 0,
        q_lt(v1, v2),
    ensures
        q_sub(d, c).0 > 0 ==> q_lt(q_remap(v1, a, b, c, d), q_remap(v2, a, b, c, d)),
        q_sub(d, c).0 < 0 ==> q_lt(q_remap(v2, a, b, c, d), q_remap(v1, a, b, c, d)),
{
    let w = q_sub(b, a);
    let s = q_sub(d, c);
    let x1 = q_sub(v1, a);
    let x2 = q_sub(v2, a);
    let t1 = q_div(x1, w);
    let t2 = q_div(x2, w);
    lemma_q_ops_wf(b, a);
    lemma_q_ops_wf(d, c);
    lemma_q_ops_wf(v1, a);
    lemma_q_ops_wf(v2, a);
    lemma_q_ops_wf(x1, w);
    lemma_q_ops_wf(x2, w);
    lemma_q_ops_wf(t1, s);
    lemma_q_ops_wf(t2, s);
    lemma_q_lt_sub(v1, v2, a);
    lemma_q_lt_div(x1, x2, w);
    lemma_q_lt_mul(t1, t2, s);
    if s.0 > 0 {
        lemma_q_lt_add(q_mul(t1, s), q_mul(t2, s), c);
    }
    if s.0 < 0 {
        lemma_q_lt_add(q_mul(t2, s), q_mul(t1, s), c);
    }
}

/// Cross-multiplied strict comparison of two finite rationals.
fn cross_lt(x: Rat, y: Rat) -> (r: bool)
    requires
        rat_wf(x),
        rat_wf(y),
    ensures
        r == q_lt(ratv(x), ratv(y)),
{
    proof {
        lemma_mul_bound(x.num as int, y.den as int, i64::MAX as int, i64::MAX as int);
        lemma_mul_bound(y.num as int, x.den as int, i64::MAX as int, i64::MAX as int);
    }
    (x.num as i128) * (y.den as i128) < (y.num as i128) * (x.den as i128)
}

/// Cross-multiplied non-strict comparison of two finite rationals.
fn cross_le(x: Rat, y: Rat) -> (r: bool)
    requires
        rat_wf(x),
        rat_wf(y),
    ensures
        r == q_le(ratv(x), ratv(y)),
{
    proof {
        lemma_mul_bound(x.num as int, y.den as int, i64::MAX as int, i64::MAX as int);
        lemma_mul_bound(y.num as int, x.den as int, i64::MAX as int, i64::MAX as int);
    }
    (x.num as i128) * (y.den as i128) <= (y.num as i128) * (x.den as i128)
}

impl PlotNum {
    /// Well-formedness: any finite payload is a well-formed rational.
    pub open spec fn wf(self) -> bool {
        match self {
            PlotNum::Fin(r) => rat_wf(r),
            _ => true,
        }
    }

    /// The integer `n` as a coordinate value.
    pub fn from_int(n: i64) -> (r: PlotNum)
        requires
            -(i64::MAX as int) <= n as int,
        ensures
            r.wf(),
            r == (PlotNum::Fin(Rat { num: n, den: 1i64 })),
    {
        PlotNum::Fin(Rat { num: n, den: 1 })
    }

    /// The exact fraction `n / d` as a coordinate value.
    pub fn rat(n: i64, d: i64) -> (r: PlotNum)
        requires
            1 <= d as int,
            -(i64::MAX as int) <= n as int,
        ensures
            r.wf(),
            r == (PlotNum::Fin(Rat { num: n, den: d })),
    {
        PlotNum::Fin(Rat { num: n, den: d })
    }

    /// Zero.
    pub fn zero() -> (r: PlotNum)
        ensures
            r.wf(),
            r == (PlotNum::Fin(Rat { num: 0i64, den: 1i64 })),
    {
        PlotNum::Fin(Rat { num: 0, den: 1 })
    }

    /// Whether this value is finite (neither infinite nor `NotANum`).
    pub fn is_finite(&self) -> (r: bool)
        ensures
            r == (*self is Fin),
    {
        match self {
            PlotNum::Fin(_) => true,
            _ => false,
        }
    }

    /// Whether this value is `NotANum`.
    pub fn is_not_a_num(&self) -> (r: bool)
        ensures
            r == (*self is NotANum),
    {
        match self {
            PlotNum::NotANum => true,
            _ => false,
        }
    }

    /// The numerator and denominator of a finite value.
    pub fn parts(&self) -> (r: (i64, i64))
        requires
            *self is Fin,
        ensures
            r.0 as int == rep(*self).0,
            r.1 as int == rep(*self).1,
    {
        match self {
            PlotNum::Fin(r) => (r.num, r.den),
            _ => (0, 1),
        }
    }

    /// Exact addition.
    pub fn add_num(self, other: PlotNum) -> (r: PlotNum)
        requires
            self.wf(),
            other.wf(),
        ensures
            r.wf(),
            add_rel(self, other, r),
    {
        match (self, other) {
            (PlotNum::NotANum, _) => PlotNum::NotANum,
            (_, PlotNum::NotANum) => PlotNum::NotANum,
            (PlotNum::PosInf, PlotNum::NegInf) => PlotNum::NotANum,
            (PlotNum::NegInf, PlotNum::PosInf) => PlotNum::NotANum,
            (PlotNum::PosInf, _) => PlotNum::PosInf,
            (_, PlotNum::PosInf) => PlotNum::PosInf,
            (PlotNum::NegInf, _) => PlotNum::NegInf,
            (_, PlotNum::NegInf) => PlotNum::NegInf,
            (PlotNum::Fin(x), PlotNum::Fin(y)) => {
                proof {
                    lemma_mul_bound(x.num as int, y.den as int, i64::MAX as int, i64::MAX as int);
                    lemma_mul_bound(y.num as int, x.den as int, i64::MAX as int, i64::MAX as int);
                    lemma_mul_bound(x.den as int, y.den as int, i64::MAX as int, i64::MAX as int);
                    lemma_mul_pos(x.den as int, y.den as int);
                }
                let n = (x.num as i128) * (y.den as i128) + (y.num as i128) * (x.den as i128);
                let d = (x.den as i128) * (y.den as i128);
                make(n, d)
            },
        }
    }

    /// Exact subtraction.
    pub fn sub_num(self, other: PlotNum) -> (r: PlotNum)
        requires
            self.wf(),
            other.wf(),
        ensures
            r.wf(),
            sub_rel(self, other, r),
    {
        match (self, other) {
            (PlotNum::NotANum, _) => PlotNum::NotANum,
            (_, PlotNum::NotANum) => PlotNum::NotANum,
            (PlotNum::PosInf, PlotNum::PosInf) => PlotNum::NotANum,
            (PlotNum::NegInf, PlotNum::NegInf) => PlotNum::NotANum,
            (PlotNum::PosInf, _) => PlotNum::PosInf,
            (_, PlotNum::PosInf) => PlotNum::NegInf,
            (PlotNum::NegInf, _) => PlotNum::NegInf,
            (_, PlotNum::NegInf) => PlotNum::PosInf,
            (PlotNum::Fin(x), PlotNum::Fin(y)) => {
                proof {
                    lemma_mul_bound(x.num as int, y.den as int, i64::MAX as int, i64::MAX as int);
                    lemma_mul_bound(y.num as int, x.den as int, i64::MAX as int, i64::MAX as int);
                    lemma_mul_bound(x.den as int, y.den as int, i64::MAX as int, i64::MAX as int);
                    lemma_mul_pos(x.den as int, y.den as int);
                }
                let n = (x.num as i128) * (y.den as i128) - (y.num as i128) * (x.den as i128);
                let d = (x.den as i128) * (y.den as i128);
                make(n, d)
            },
        }
    }

    /// Exact multiplication.
    pub fn mul_num(self, other: PlotNum) -> (r: PlotNum)
        requires
            self.wf(),
            other.wf(),
        ensures
            r.wf(),
            mul_rel(self, other, r),
    {
        match (self, other) {
            (PlotNum::NotANum, _) => PlotNum::NotANum,
            (_, PlotNum::NotANum) => PlotNum::NotANum,
            (PlotNum::PosInf, PlotNum::PosInf) => PlotNum::PosInf,
            (PlotNum::PosInf, PlotNum::NegInf) => PlotNum::NegInf,
            (PlotNum::NegInf, PlotNum::PosInf) => PlotNum::NegInf,
            (PlotNum::NegInf, PlotNum::NegInf) => PlotNum::PosInf,
            (PlotNum::PosInf, PlotNum::Fin(y)) => PlotNum::inf_mul(true, y),
            (PlotNum::Fin(x), PlotNum::PosInf) => PlotNum::inf_mul(true, x),
            (PlotNum::NegInf, PlotNum::Fin(y)) => PlotNum::inf_mul(false, y),
            (PlotNum::Fin(x), PlotNum::NegInf) => PlotNum::inf_mul(false, x),
            (PlotNum::Fin(x), PlotNum::Fin(y)) => {
                proof {
                    lemma_mul_bound(x.num as int, y.num as int, i64::MAX as int, i64::MAX as int);
                    lemma_mul_bound(x.den as int, y.den as int, i64::MAX as int, i64::MAX as int);
                    lemma_mul_pos(x.den as int, y.den as int);
                }
                let n = (x.num as i128) * (y.num as i128);
                let d = (x.den as i128) * (y.den as i128);
                make(n, d)
            },
        }
    }

    /// An infinity of the given sign times a finite value.
    fn inf_mul(positive: bool, y: Rat) -> (r: PlotNum)
        ensures
            inf_times(positive, y, r),
    {
        if y.num == 0 {
            PlotNum::NotANum
        } else if (y.num > 0) == positive {
            PlotNum::PosInf
        } else {
            PlotNum::NegInf
        }
    }

    /// Exact division.
    pub fn div_num(self, other: PlotNum) -> (r: PlotNum)
        requires
            self.wf(),
            other.wf(),
        ensures
            r.wf(),
            div_rel(self, other, r),
    {
        match (self, other) {
            (PlotNum::NotANum, _) => PlotNum::NotANum,
            (_, PlotNum::NotANum) => PlotNum::NotANum,
            (PlotNum::PosInf, PlotNum::PosInf) => PlotNum::NotANum,
            (PlotNum::PosInf, PlotNum::NegInf) => PlotNum::NotANum,
            (PlotNum::NegInf, PlotNum::PosInf) => PlotNum::NotANum,
            (PlotNum::NegInf, PlotNum::NegInf) => PlotNum::NotANum,
            (PlotNum::Fin(_), PlotNum::PosInf) => PlotNum::Fin(Rat { num: 0, den: 1 }),
            (PlotNum::Fin(_), PlotNum::NegInf) => PlotNum::Fin(Rat { num: 0, den: 1 }),
            (PlotNum::PosInf, PlotNum::Fin(y)) => if y.num >= 0 {
                PlotNum::PosInf
            } else {
                PlotNum::NegInf
            },
            (PlotNum::NegInf, PlotNum::Fin(y)) => if y.num >= 0 {
                PlotNum::NegInf
            } else {
                PlotNum::PosInf
            },
            (PlotNum::Fin(x), PlotNum::Fin(y)) => {
                if y.num == 0 {
                    if x.num == 0 {
                        PlotNum::NotANum
                    } else if x.num > 0 {
                        PlotNum::PosInf
                    } else {
                        PlotNum::NegInf
                    }
                } else {
                    proof {
                        lemma_mul_bound(
                            x.num as int,
                            y.den as int,
                            i64::MAX as int,
                            i64::MAX as int,
                        );
                        lemma_mul_bound(
                            x.den as int,
                            y.num as int,
                            i64::MAX as int,
                            i64::MAX as int,
                        );
                    }
                    let n0 = (x.num as i128) * (y.den as i128);
                    if y.num >= 0 {
                        proof {
                            lemma_mul_pos(x.den as int, y.num as int);
                        }
                        make(n0, (x.den as i128) * (y.num as i128))
                    } else {
                        proof {
                            lemma_mul_pos(x.den as int, -(y.num as int));
                            lemma_mul_bound(
                                x.den as int,
                                -(y.num as int),
                                i64::MAX as int,
                                i64::MAX as int,
                            );
                        }
                        make(-n0, (x.den as i128) * (-(y.num as i128)))
                    }
                }
            },
        }
    }

    /// The negation of this value.
    pub fn neg_num(self) -> (r: PlotNum)
        requires
            self.wf(),
        ensures
            r.wf(),
            r == n_neg(self),
    {
        match self {
            PlotNum::NegInf => PlotNum::PosInf,
            PlotNum::PosInf => PlotNum::NegInf,
            PlotNum::NotANum => PlotNum::NotANum,
            PlotNum::Fin(x) => PlotNum::Fin(Rat { num: -x.num, den: x.den }),
        }
    }

    /// The absolute value of this value.
    pub fn abs_num(self) -> (r: PlotNum)
        requires
            self.wf(),
        ensures
            r.wf(),
            r == n_abs(self),
    {
        match self {
            PlotNum::NegInf => PlotNum::PosInf,
            PlotNum::PosInf => PlotNum::PosInf,
            PlotNum::NotANum => PlotNum::NotANum,
            PlotNum::Fin(x) => if x.num < 0 {
                PlotNum::Fin(Rat { num: -x.num, den: x.den })
            } else {
                PlotNum::Fin(x)
            },
        }
    }

    /// Strict comparison.
    pub fn lt(self, other: PlotNum) -> (r: bool)
        requires
            self.wf(),
            other.wf(),
        ensures
            r == n_lt(self, other),
    {
        match (self, other) {
            (PlotNum::NotANum, _) => false,
            (_, PlotNum::NotANum) => false,
            (PlotNum::NegInf, PlotNum::NegInf) => false,
            (PlotNum::NegInf, _) => true,
            (_, PlotNum::NegInf) => false,
            (PlotNum::PosInf, _) => false,
            (_, PlotNum::PosInf) => true,
            (PlotNum::Fin(x), PlotNum::Fin(y)) => cross_lt(x, y),
        }
    }

    /// Non-strict comparison.
    pub fn le(self, other: PlotNum) -> (r: bool)
        requires
            self.wf(),
            other.wf(),
        ensures
            r == n_le(self, other),
    {
        match (self, other) {
            (PlotNum::NotANum, _) => false,
            (_, PlotNum::NotANum) => false,
            (PlotNum::NegInf, _) => true,
            (_, PlotNum::NegInf) => false,
            (_, PlotNum::PosInf) => true,
            (PlotNum::PosInf, _) => false,
            (PlotNum::Fin(x), PlotNum::Fin(y)) => cross_le(x, y),
        }
    }

    /// The smaller of this value and `other`.
    pub fn min_num(self, other: PlotNum) -> (r: PlotNum)
        requires
            self.wf(),
            other.wf(),
        ensures
            r.wf(),
            r == n_min(self, other),
    {
        if self.is_not_a_num() {
            other
        } else if other.is_not_a_num() {
            self
        } else if self.le(other) {
            self
        } else {
            other
        }
    }

    /// The larger of this value and `other`.
    pub fn max_num(self, other: PlotNum) -> (r: PlotNum)
        requires
            self.wf(),
            other.wf(),
        ensures
            r.wf(),
            r == n_max(self, other),
    {
        if self.is_not_a_num() {
            other
        } else if other.is_not_a_num() {
            self
        } else if self.le(other) {
            other
        } else {
            self
        }
    }

    /// This value clamped into the finite representable range.
    pub fn clamp_to_finite(self) -> (r: PlotNum)
        requires
            self.wf(),
        ensures
            r.wf(),
            r == n_clamped(self),
    {
        match self {
            PlotNum::NegInf => PlotNum::Fin(Rat { num: -i64::MAX, den: 1 }),
            PlotNum::PosInf => PlotNum::Fin(Rat { num: i64::MAX, den: 1 }),
            PlotNum::NotANum => PlotNum::Fin(Rat { num: 0, den: 1 }),
            PlotNum::Fin(_) => self,
        }
    }

    /// Whether this value and `other` are the same value.
    pub fn same_value(self, other: PlotNum) -> (r: bool)
        requires
            self.wf(),
            other.wf(),
        ensures
            r == n_same(self, other),
    {
        match (self, other) {
            (PlotNum::NegInf, PlotNum::NegInf) => true,
            (PlotNum::PosInf, PlotNum::PosInf) => true,
            (PlotNum::NotANum, PlotNum::NotANum) => true,
            (PlotNum::Fin(x), PlotNum::Fin(y)) => {
                proof {
                    lemma_mul_bound(x.num as int, y.den as int, i64::MAX as int, i64::MAX as int);
                    lemma_mul_bound(y.num as int, x.den as int, i64::MAX as int, i64::MAX as int);
                }
                (x.num as i128) * (y.den as i128) == (y.num as i128) * (x.den as i128)
            },
            _ => false,
        }
    }
}

} // verus!
