//! Progress through the repositories, reported about once in a hundred of them.
//!
//! One percent of a count is the count times 0.01 in double precision, rounded up. It is
//! computed in integers: a double holds 53 binary digits, and the double nearest to 0.01
//! is an integer over a power of two.

use vstd::prelude::*;

use crate::paint::{Line, Style};

verus! {

/// The first number with more than 53 binary digits.
pub const PRECISION: u128 = 0x20_0000_0000_0000;

/// The numerator of the double nearest to 0.01.
pub const HUNDREDTH: u128 = 5764607523034235;

/// The denominator of the double nearest to 0.01: two to the power of 59.
pub const SCALE: u128 = 0x800_0000_0000_0000;

/// The unit in which a double holds a number as large as `n`: the least power of two of
/// which `n` holds less than `PRECISION`.
pub open spec fn unit(n: nat) -> nat
    decreases n,
{
    if n < PRECISION {
        1
    } else {
        2 * unit(n / 2)
    }
}

/// The double nearest to `n`: a multiple of the unit, of two as near the even one.
pub open spec fn nearest(n: nat) -> nat {
    let u = unit(n);
    if 2 * (n % u) > u || (2 * (n % u) == u && (n / u) % 2 == 1) {
        (n / u + 1) * u
    } else {
        n / u * u
    }
}

/// `total` times 0.01 in double precision, rounded up.
pub open spec fn one_percent_of(total: nat) -> nat {
    (nearest(nearest(total) * HUNDREDTH as nat) + (SCALE - 1) as nat) / SCALE as nat
}

proof fn unit_bounds(n: nat)
    ensures
        unit(n) >= 1,
        unit(n) == 1 || unit(n) * 0x10_0000_0000_0000 <= n,
        n < unit(n) * PRECISION,
    decreases n,
{
    if n >= PRECISION {
        unit_bounds(n / 2);
    }
}

proof fn nearest_bounds(n: nat)
    ensures
        nearest(n) <= n + unit(n),
        nearest(n) <= 2 * n,
        n > 0 ==> nearest(n) > 0,
{
    unit_bounds(n);
    let u = unit(n);
    let q = n / u;
    let r = n % u;
    assert(n == q * u + r && 0 <= r < u) by {
        vstd::arithmetic::div_mod::lemma_fundamental_div_mod(n as int, u as int);
    }
    assert((q + 1) * u == q * u + u) by (nonlinear_arith);
    if u == 1 {
        assert(q * u == n) by (nonlinear_arith)
            requires
                n == q * u + r,
                u == 1,
                0 <= r < u,
        ;
    } else {
        assert(q * u > 0) by (nonlinear_arith)
            requires
                n == q * u + r,
                0 <= r < u,
                u <= n,
        ;
    }
}

fn unit_of(n: u128) -> (u: u128)
    ensures
        u == unit(n as nat),
    decreases n,
{
    proof {
        unit_bounds(n as nat);
    }
    if n < PRECISION {
        1
    } else {
        2 * unit_of(n / 2)
    }
}

fn nearest_to(n: u128) -> (r: u128)
    requires
        n <= 0x1000_0000_0000_0000_0000_0000_0000_0000,
    ensures
        r == nearest(n as nat),
{
    let u = unit_of(n);
    proof {
        unit_bounds(n as nat);
        nearest_bounds(n as nat);
        vstd::arithmetic::div_mod::lemma_fundamental_div_mod(n as int, u as int);
        assert((n / u) * u <= n) by (nonlinear_arith)
            requires
                n == u * (n / u) + n % u,
                n % u >= 0,
        ;
        assert((n / u + 1) * u == (n / u) * u + u) by (nonlinear_arith);
    }
    let q: u128 = n / u;
    let rest: u128 = n % u;
    if 2 * rest > u || (2 * rest == u && q % 2 == 1) {
        (q + 1) * u
    } else {
        q * u
    }
}

/// How far an audit of repositories has come.
#[derive(Debug)]
pub struct ProgressTracker {
    pub one_percent: usize,
    pub progress: usize,
}

/// The line that says how many repositories are done.
pub open spec fn progress_line(progress: nat) -> Seq<(Style, Seq<char>)> {
    seq![
        (Style::Plain, "Processed "@),
        (Style::Blue, crate::text::decimal(progress)),
        (Style::Plain, " repositories"@),
    ]
}

impl ProgressTracker {
    /// No repository of `total` done yet.
    pub fn new(total: usize) -> (r: ProgressTracker)
        ensures
            r.one_percent == one_percent_of(total as nat),
            r.progress == 0,
            total > 0 ==> r.one_percent > 0,
    {
        proof {
            nearest_bounds(total as nat);
            nearest_bounds(nearest(total as nat) * HUNDREDTH as nat);
        }
        let rounded = nearest_to(total as u128);
        let product = nearest_to(rounded * HUNDREDTH);
        let one_percent = (product + (SCALE - 1)) / SCALE;
        ProgressTracker { one_percent: one_percent as usize, progress: 0 }
    }

    /// One more repository is done. Where it is one in a hundred, it is reported.
    pub fn tick(&mut self) -> (r: Option<Line>)
        requires
            old(self).one_percent > 0,
            old(self).progress < usize::MAX,
        ensures
            final(self).one_percent == old(self).one_percent,
            final(self).progress == old(self).progress + 1,
            match r {
                Some(line) => {
                    &&& (old(self).progress + 1) % old(self).one_percent as int == 0
                    &&& line@ == progress_line((old(self).progress + 1) as nat)
                },
                None => (old(self).progress + 1) % old(self).one_percent as int != 0,
            },
    {
        self.progress = self.progress + 1;
        if self.progress % self.one_percent == 0 {
            let line = Line::of(Style::Plain, "Processed ").then_text(
                Style::Blue,
                crate::text::decimal_text(self.progress as u64).as_str(),
            ).then_text(Style::Plain, " repositories");
            assert(line@ =~= progress_line(self.progress as nat));
            Some(line)
        } else {
            None
        }
    }
}

/// The unit of a number below `PRECISION` times a power of two divides that power.
proof fn unit_divides(n: nat, e: nat) -> (w: nat)
    requires
        n < PRECISION * vstd::arithmetic::power2::pow2(e),
    ensures
        unit(n) * w == vstd::arithmetic::power2::pow2(e),
    decreases n,
{
    vstd::arithmetic::power2::lemma2_to64();
    if n < PRECISION {
        let power = vstd::arithmetic::power2::pow2(e);
        assert(unit(n) * power == power) by (nonlinear_arith)
            requires
                unit(n) == 1,
        ;
        power
    } else {
        assert(e > 0);
        vstd::arithmetic::power2::lemma_pow2_unfold(e);
        let w = unit_divides(n / 2, (e - 1) as nat);
        assert((2 * unit(n / 2)) * w == 2 * (unit(n / 2) * w)) by (nonlinear_arith);
        w
    }
}

proof fn exact_below_precision(n: nat)
    requires
        n <= PRECISION,
    ensures
        nearest(n) == n,
{
    if n == PRECISION {
        assert(unit(n / 2) == 1);
        assert(unit(n) == 2);
        assert(n % 2 == 0 && n / 2 * 2 == n);
    } else {
        assert(n % 1 == 0 && n / 1 * 1 == n);
    }
}

/// Where a multiple of the unit lies at or below a number, the number is not taken below
/// it; where one lies at or above it, not above.
proof fn nearest_between(n: nat, low: nat, high: nat)
    requires
        low * unit(n) <= n <= high * unit(n),
    ensures
        low * unit(n) <= nearest(n) <= high * unit(n),
        2 * (n - low * unit(n)) < unit(n) ==> nearest(n) == low * unit(n),
        2 * (n - low * unit(n)) > unit(n) ==> nearest(n) > low * unit(n),
{
    unit_bounds(n);
    let u = unit(n);
    let q = n / u;
    let r = n % u;
    vstd::arithmetic::div_mod::lemma_fundamental_div_mod(n as int, u as int);
    assert(u * q == q * u) by (nonlinear_arith);
    assert(low <= q) by (nonlinear_arith)
        requires
            low * u <= n,
            n == q * u + r,
            0 <= r < u,
    ;
    assert(low * u <= q * u) by (nonlinear_arith)
        requires
            low <= q,
    ;
    assert((q + 1) * u == q * u + u) by (nonlinear_arith);
    if r > 0 {
        assert(q + 1 <= high) by (nonlinear_arith)
            requires
                n <= high * u,
                n == q * u + r,
                0 < r < u,
        ;
        assert((q + 1) * u <= high * u) by (nonlinear_arith)
            requires
                q + 1 <= high,
        ;
    } else {
        assert(nearest(n) == n);
    }
    if low < q {
        assert((low + 1) * u <= q * u) by (nonlinear_arith)
            requires
                low + 1 <= q,
        ;
        assert((low + 1) * u == low * u + u) by (nonlinear_arith);
    }
}

/// For every count that a double holds exactly, one percent is what it says: a hundredth
/// of the count, rounded up.
pub proof fn one_percent_is_a_hundredth_rounded_up(total: nat)
    requires
        total <= PRECISION,
    ensures
        one_percent_of(total) == (total + 99) / 100,
{
    exact_below_precision(total);
    let product = total * HUNDREDTH as nat;
    let k = total / 100;
    let j = total % 100;
    let u = unit(product);
    unit_bounds(product);
    vstd::arithmetic::power2::lemma2_to64_rest();
    let w53 = unit_divides(product, 53);
    let w = w53 * 64;
    assert(u * w == SCALE) by (nonlinear_arith)
        requires
            u * w53 == 0x20_0000_0000_0000,
            w == w53 * 64,
            SCALE == 0x20_0000_0000_0000 * 64,
    ;
    assert(u <= 0x20_0000_0000_0000) by (nonlinear_arith)
        requires
            u * w53 == 0x20_0000_0000_0000,
            u >= 1,
    ;
    let low = k * w;
    let high = (k + 1) * w;
    assert(low * u == k * SCALE) by (nonlinear_arith)
        requires
            u * w == SCALE,
            low == k * w,
    ;
    assert(high * u == (k + 1) * SCALE) by (nonlinear_arith)
        requires
            u * w == SCALE,
            high == (k + 1) * w,
    ;
    assert(product == k * SCALE + 12 * k + j * HUNDREDTH);
    nearest_between(product, low, high);
}

/// How many of the first `ticks` repositories are reported.
pub open spec fn reports(one_percent: nat, ticks: nat) -> nat
    decreases ticks,
{
    if ticks == 0 {
        0
    } else if ticks % one_percent == 0 {
        reports(one_percent, (ticks - 1) as nat) + 1
    } else {
        reports(one_percent, (ticks - 1) as nat)
    }
}

/// One repository in `one_percent` is reported.
pub proof fn one_in_a_percent_is_reported(one_percent: nat, ticks: nat)
    requires
        one_percent > 0,
    ensures
        reports(one_percent, ticks) == ticks / one_percent,
    decreases ticks,
{
    if ticks > 0 {
        let before = (ticks - 1) as nat;
        one_in_a_percent_is_reported(one_percent, before);
        let d = one_percent as int;
        vstd::arithmetic::div_mod::lemma_fundamental_div_mod(ticks as int, d);
        vstd::arithmetic::div_mod::lemma_fundamental_div_mod(before as int, d);
        let q = ticks as int / d;
        let r = ticks as int % d;
        if r == 0 {
            assert(d * (q - 1) == d * q - d) by (nonlinear_arith);
            vstd::arithmetic::div_mod::lemma_fundamental_div_mod_converse(
                before as int,
                d,
                q - 1,
                d - 1,
            );
        } else {
            vstd::arithmetic::div_mod::lemma_fundamental_div_mod_converse(
                before as int,
                d,
                q,
                r - 1,
            );
        }
    } else {
        assert(0nat / one_percent == 0) by (nonlinear_arith)
            requires
                one_percent > 0,
        ;
    }
}

/// However many repositories there are, an audit reports its progress a hundred times at
/// the most; with a hundred or fewer it reports each.
pub proof fn at_most_a_hundred_reports(total: nat)
    requires
        0 < total <= PRECISION,
    ensures
        reports(one_percent_of(total), total) <= 100,
        total <= 100 ==> reports(one_percent_of(total), total) == total,
{
    one_percent_is_a_hundredth_rounded_up(total);
    let d = one_percent_of(total);
    one_in_a_percent_is_reported(d, total);
    assert(total / d <= 100) by (nonlinear_arith)
        requires
            d > 0,
            total <= 100 * d,
    ;
    if total <= 100 {
        assert(d == 1 && total / 1 == total);
    }
}

} // verus!
