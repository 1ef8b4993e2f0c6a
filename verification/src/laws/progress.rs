//! Progress: what one percent is, and what is reported.

use vstd::prelude::*;

use crate::paint::{Line, Style};
use crate::progress::ProgressTracker;

verus! {

/// A tracker starts with nothing done. One percent of the total is a hundredth of it,
/// rounded up, for every total up to two to the power of 53.
pub proof fn one_percent_of_a_total_is_its_hundredth(total: usize, tracker: ProgressTracker)
    requires
        call_ensures(ProgressTracker::new, (total,), tracker),
    ensures
        tracker.progress == 0,
        total <= 9007199254740992 ==> tracker.one_percent as int == (total as int + 99) / 100,
{
    if total <= 9007199254740992 {
        crate::progress::one_percent_is_a_hundredth_rounded_up(total as nat);
    }
}

/// For any total, one percent is the total times a hundredth, each as the nearest double
/// and so is the product, rounded up: 5764607523034235 over two to the power of 59 is the
/// double nearest to a hundredth.
pub proof fn one_percent_is_a_product_of_doubles(total: usize, tracker: ProgressTracker)
    requires
        call_ensures(ProgressTracker::new, (total,), tracker),
    ensures
        ({
            let product = crate::progress::nearest(
                crate::progress::nearest(total as nat) * 5764607523034235nat,
            );
            &&& (tracker.one_percent - 1) * 576460752303423488 < product
            &&& product <= tracker.one_percent * 576460752303423488
        }),
{
    let product = crate::progress::nearest(
        crate::progress::nearest(total as nat) * 5764607523034235nat,
    );
    let n = (product + 576460752303423487) as int;
    vstd::arithmetic::div_mod::lemma_fundamental_div_mod(n, 576460752303423488);
}

proof fn unit_is_a_power(n: nat, e: nat)
    requires
        vstd::arithmetic::power2::pow2(52 + e) <= n < vstd::arithmetic::power2::pow2(53 + e),
    ensures
        crate::progress::unit(n) == vstd::arithmetic::power2::pow2(e),
    decreases e,
{
    vstd::arithmetic::power2::lemma2_to64_rest();
    vstd::arithmetic::power2::lemma2_to64();
    if e > 0 {
        vstd::arithmetic::power2::lemma_pow2_unfold(53 + e);
        vstd::arithmetic::power2::lemma_pow2_unfold(52 + e);
        vstd::arithmetic::power2::lemma_pow2_unfold(e);
        if e > 1 {
            vstd::arithmetic::power2::lemma_pow2_strictly_increases(53, 52 + e);
        }
        assert(n >= vstd::arithmetic::power2::pow2(53));
        unit_is_a_power(n / 2, (e - 1) as nat);
    }
}

/// The double nearest to a number is the number itself below two to the power of 53. Above,
/// where doubles lie two to the power of `e` apart, it is one of these, no other is nearer,
/// and of two that are as near it is the even one.
pub proof fn the_nearest_double_is_nearest(n: nat, e: nat)
    requires
        n < vstd::arithmetic::power2::pow2(53) || vstd::arithmetic::power2::pow2(52 + e) <= n
            < vstd::arithmetic::power2::pow2(53 + e),
    ensures
        n < vstd::arithmetic::power2::pow2(53) ==> crate::progress::nearest(n) == n,
        n >= vstd::arithmetic::power2::pow2(53) ==> {
            let double = crate::progress::nearest(n);
            &&& double % vstd::arithmetic::power2::pow2(e) == 0
            &&& 2 * (double - n) <= vstd::arithmetic::power2::pow2(e)
            &&& 2 * (n - double) <= vstd::arithmetic::power2::pow2(e)
            &&& 2 * (double - n) == vstd::arithmetic::power2::pow2(e) || 2 * (n - double)
                == vstd::arithmetic::power2::pow2(e) ==> (double
                / vstd::arithmetic::power2::pow2(e)) % 2 == 0
        },
{
    vstd::arithmetic::power2::lemma2_to64_rest();
    if n < vstd::arithmetic::power2::pow2(53) {
        assert(n % 1 == 0 && n / 1 * 1 == n);
    } else {
        unit_is_a_power(n, e);
        vstd::arithmetic::power2::lemma_pow2_pos(e);
        let u = vstd::arithmetic::power2::pow2(e) as int;
        let q = n as int / u;
        let r = n as int % u;
        vstd::arithmetic::div_mod::lemma_fundamental_div_mod(n as int, u);
        assert(u * q == q * u) by (nonlinear_arith);
        assert((q + 1) * u == q * u + u) by (nonlinear_arith);
        vstd::arithmetic::div_mod::lemma_mod_multiples_basic(q, u);
        vstd::arithmetic::div_mod::lemma_mod_multiples_basic(q + 1, u);
        vstd::arithmetic::div_mod::lemma_div_multiples_vanish(q, u);
        vstd::arithmetic::div_mod::lemma_div_multiples_vanish(q + 1, u);
        assert(u * (q + 1) == (q + 1) * u) by (nonlinear_arith);
    }
}

/// Each repository that is done counts once. It is reported exactly where the count is a
/// multiple of one percent, and then with the count.
pub proof fn a_tick_counts_once_and_reports_multiples(
    tracker: &mut ProgressTracker,
    r: Option<Line>,
)
    requires
        call_ensures(ProgressTracker::tick, (tracker,), r),
    ensures
        final(tracker).one_percent == old(tracker).one_percent,
        final(tracker).progress == old(tracker).progress + 1,
        match r {
            Some(line) => {
                &&& (old(tracker).progress + 1) % old(tracker).one_percent as int == 0
                &&& crate::laws::paint::reads(
                    line,
                    seq![
                        (Style::Plain, "Processed "@),
                        (
                            Style::Blue,
                            crate::text::decimal((old(tracker).progress + 1) as nat),
                        ),
                        (Style::Plain, " repositories"@),
                    ],
                )
            },
            None => (old(tracker).progress + 1) % old(tracker).one_percent as int != 0,
        },
{
    if let Some(line) = r {
        crate::laws::paint::a_line_is_its_pieces(line, line@);
    }
}

} // verus!
