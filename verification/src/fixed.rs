//! Fixed-point arithmetic: amounts in cents, unit prices in millionths of a
//! currency unit, quantities in thousandths of a unit, rounding half away
//! from zero as the engine's two-decimal rounding does.
use vstd::prelude::*;

verus! {

/// Thousandths of a unit in one unit of quantity.
pub const QTY_SCALE: i64 = 1000;

/// Millionths of a currency unit in one unit of price: unit prices are held
/// at this scale, finer than cents, so that only line totals are rounded.
pub const PRICE_SCALE: i64 = 1_000_000;

/// A quantity times a unit price is in thousandths times millionths of a
/// currency unit; this many of those make one cent.
pub const LINE_DIVISOR: i64 = 10_000_000;

/// The value-added tax rate applied to a purchase order, in percent.
pub const VAT_PERCENT: i64 = 16;

/// Whether `x` fits in an `i64`.
pub open spec fn fits_i64(x: int) -> bool {
    i64::MIN <= x <= i64::MAX
}

/// Whether `x` fits in an `i128`.
pub open spec fn fits_i128(x: int) -> bool {
    i128::MIN <= x <= i128::MAX
}

/// `n / d` rounded to the nearest integer, halves away from zero (`d > 0`).
pub open spec fn round_div(n: int, d: int) -> int
    recommends
        d > 0,
{
    if n >= 0 {
        n / d + (if 2 * (n % d) >= d { 1int } else { 0int })
    } else {
        -((-n) / d + (if 2 * ((-n) % d) >= d { 1int } else { 0int }))
    }
}

/// Rounds `n / d` half away from zero.
pub fn round_div_exec(n: i128, d: i128) -> (r: i128)
    requires
        0 < d,
        n > i128::MIN,
    ensures
        r == round_div(n as int, d as int),
{
    if n >= 0 {
        let q = n / d;
        let m = n % d;
        if m >= d - m {
            assert(q < i128::MAX) by (nonlinear_arith)
                requires q == n / d, m == n % d, 2 * m >= d, d > 0, n >= 0, n <= i128::MAX;
            q + 1
        } else {
            q
        }
    } else {
        let p = -n;
        let q = p / d;
        let m = p % d;
        if m >= d - m {
            assert(q < i128::MAX) by (nonlinear_arith)
                requires q == p / d, m == p % d, 2 * m >= d, d > 0, p >= 0, p <= i128::MAX;
            -(q + 1)
        } else {
            assert(q <= p) by (nonlinear_arith) requires q == p / d, d > 0, p >= 0;
            -q
        }
    }
}

/// The sum of a sequence of integers.
pub open spec fn sum(s: Seq<int>) -> int
    decreases s.len(),
{
    if s.len() == 0 {
        0
    } else {
        sum(s.drop_last()) + s.last()
    }
}

/// Summing the first `i + 1` terms adds term `i` to the sum of the first `i`.
pub proof fn lemma_sum_take_step(s: Seq<int>, i: int)
    requires
        0 <= i < s.len(),
    ensures
        sum(s.take(i + 1)) == sum(s.take(i)) + s[i],
{
    assert(s.take(i + 1).drop_last() =~= s.take(i));
}

/// Every running total of `s`, from the first term to the last, fits in an
/// `i128`: the sum can be taken term by term with checked `i128` additions.
pub open spec fn running_sums_fit(s: Seq<int>) -> bool {
    forall|k: int| 0 <= k <= s.len() ==> fits_i128(#[trigger] sum(s.take(k)))
}

/// Appending a term adds it to the sum.
pub proof fn lemma_sum_push(s: Seq<int>, x: int)
    ensures
        sum(s.push(x)) == sum(s) + x,
{
    assert(s.push(x).drop_last() =~= s);
}

/// Appending a term whose running total fits keeps every running total
/// fitting.
pub proof fn lemma_running_sums_push(s: Seq<int>, x: int)
    requires
        running_sums_fit(s),
        fits_i128(sum(s) + x),
    ensures
        running_sums_fit(s.push(x)),
{
    let t = s.push(x);
    lemma_sum_push(s, x);
    assert forall|k: int| 0 <= k <= t.len() implies fits_i128(#[trigger] sum(t.take(k))) by {
        if k <= s.len() {
            assert(t.take(k) =~= s.take(k));
        } else {
            assert(t.take(k) =~= t);
        }
    }
}

/// A prefix whose sum does not fit shows that the running sums of the whole
/// do not all fit.
pub proof fn lemma_prefix_overflow(s: Seq<int>, t: Seq<int>)
    requires
        t.len() <= s.len(),
        s.take(t.len() as int) == t,
        !fits_i128(sum(t)),
    ensures
        !running_sums_fit(s),
{
    assert(sum(s.take(t.len() as int)) == sum(t));
}

/// The total of a line of `quantity` thousandths of a unit at `unit_price`
/// millionths of a currency unit per unit, in cents rounded half away from
/// zero.
pub open spec fn line_total(quantity: int, unit_price: int) -> int {
    round_div(quantity * unit_price, LINE_DIVISOR as int)
}

/// The value-added tax on a subtotal, in cents rounded half away from zero.
pub open spec fn vat(subtotal: int) -> int {
    round_div(subtotal * VAT_PERCENT as int, 100)
}

/// The line total, or `None` when it does not fit in an `i64`.
pub fn line_total_exec(quantity: i64, unit_price: i64) -> (r: Option<i64>)
    ensures
        match r {
            Some(t) => t == line_total(quantity as int, unit_price as int),
            None => !fits_i64(line_total(quantity as int, unit_price as int)),
        },
{
    assert(-0x4000_0000_0000_0000_0000_0000_0000_0000 <= (quantity as int) * (unit_price as int)
        <= 0x4000_0000_0000_0000_0000_0000_0000_0000) by (nonlinear_arith)
        requires
            i64::MIN <= quantity <= i64::MAX,
            i64::MIN <= unit_price <= i64::MAX,
    ;
    let n = (quantity as i128) * (unit_price as i128);
    let t = round_div_exec(n, 10_000_000);
    if i64::MIN as i128 <= t && t <= i64::MAX as i128 {
        Some(t as i64)
    } else {
        None
    }
}

/// The value-added tax on an `i64` subtotal.
pub fn vat_exec(subtotal: i64) -> (r: i128)
    ensures
        r == vat(subtotal as int),
        -0x2000_0000_0000_0000 <= r <= 0x2000_0000_0000_0000,
{
    let n = (subtotal as i128) * 16;
    let t = round_div_exec(n, 100);
    proof {
        let a = if n >= 0 { n as int } else { -(n as int) };
        assert(a / 100 <= 0x1fff_ffff_ffff_ffff) by (nonlinear_arith)
            requires 0 <= a <= 16 * 0x8000_0000_0000_0000;
    }
    t
}

} // verus!
