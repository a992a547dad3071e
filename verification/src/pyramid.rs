use vstd::prelude::*;
use vstd::arithmetic::div_mod::{
    lemma_div_denominator, lemma_div_is_ordered, lemma_div_multiples_vanish_fancy,
    lemma_div_plus_one, lemma_div_pos_is_pos, lemma_basic_div,
};
use vstd::arithmetic::mul::{lemma_mul_inequality, lemma_mul_upper_bound};
use vstd::arithmetic::power2::{
    lemma2_to64, lemma2_to64_rest, lemma_pow2_adds, lemma_pow2_pos,
    lemma_pow2_strictly_increases, pow2,
};
use crate::ratio::Ratio;

verus! {

/// `ceil(a / b)` for integers with `b >= 1`, `a >= 0`.
pub open spec fn ceil_frac(a: int, b: int) -> int {
    (a + b - 1) / b
}

/// One step of the virtual-pyramid construction: `ceil(d / 2)`, floored at
/// one pixel.
pub open spec fn halve(d: int) -> int {
    if d <= 1 {
        1
    } else {
        (d + 1) / 2
    }
}

/// `d` halved `k` times.
pub open spec fn halve_k(d: int, k: nat) -> int
    decreases k,
{
    if k == 0 {
        d
    } else {
        halve(halve_k(d, (k - 1) as nat))
    }
}

/// Halving `k` times is a single ceiling division by `2^k`:
/// `halve_k(d, k) == ceil(d / 2^k)` for `d >= 1`.
pub proof fn lemma_halve_k_closed_form(d: int, k: nat)
    requires
        d >= 1,
    ensures
        halve_k(d, k) == (d - 1) / pow2(k) as int + 1,
    decreases k,
{
    if k == 0 {
        assert(pow2(0) == 1) by {
            lemma2_to64();
        }
    } else {
        let km1 = (k - 1) as nat;
        lemma_halve_k_closed_form(d, km1);
        let p = pow2(km1) as int;
        lemma_pow2_pos(km1);
        let q = (d - 1) / p;
        lemma_div_pos_is_pos(d - 1, p);
        assert(pow2(k) == 2 * pow2(km1)) by {
            lemma_pow2_adds(1, km1);
            lemma2_to64();
        }
        lemma_div_denominator(d - 1, p, 2);
        assert((d - 1) / pow2(k) as int == q / 2);
        if q == 0 {
            assert(halve(q + 1) == 1);
            assert(q / 2 == 0) by {
                lemma_basic_div(q, 2);
            }
        } else {
            assert(halve(q + 1) == (q + 2) / 2);
            assert((q + 2) / 2 == q / 2 + 1) by {
                lemma_div_plus_one(q, 2);
            }
        }
    }
}

/// A dimension of at most `2^k` pixels collapses to one pixel within `k`
/// halvings.
pub proof fn lemma_halve_k_one(d: int, k: nat)
    requires
        1 <= d <= pow2(k),
    ensures
        halve_k(d, k) == 1,
{
    lemma_halve_k_closed_form(d, k);
    lemma_pow2_pos(k);
    lemma_basic_div(d - 1, pow2(k) as int);
}

/// Conversely, a dimension still above one pixel after `k` halvings
/// exceeds `2^k`.
pub proof fn lemma_halve_k_still_large(d: int, k: nat)
    requires
        d >= 1,
        halve_k(d, k) > 1,
    ensures
        d > pow2(k),
{
    if d <= pow2(k) {
        lemma_halve_k_one(d, k);
    }
}

/// Once a dimension has collapsed to one pixel, it was at most `2^k`.
pub proof fn lemma_halve_k_collapsed(d: int, k: nat)
    requires
        d >= 1,
        halve_k(d, k) == 1,
    ensures
        d <= pow2(k),
{
    if d > pow2(k) {
        lemma_halve_k_closed_form(d, k);
        lemma_pow2_pos(k);
        let p = pow2(k) as int;
        assert(p / p == 1) by {
            vstd::arithmetic::div_mod::lemma_div_by_self(p);
        }
        lemma_div_is_ordered(p, d - 1, p);
    }
}

/// The native level chosen for a requested downsample `d`: the highest
/// level whose downsample factor does not exceed `d`. Level 0 (downsample
/// one) always qualifies, so for any `d >= 1` a level exists.
pub open spec fn best_level(dss: Seq<Ratio>, d: int) -> int
    decreases dss.len(),
{
    if dss.len() == 0 {
        0
    } else if dss.last().le_int(d) {
        dss.len() - 1
    } else {
        best_level(dss.drop_last(), d)
    }
}

pub proof fn lemma_best_level_bounds(dss: Seq<Ratio>, d: int)
    requires
        dss.len() >= 1,
    ensures
        0 <= best_level(dss, d) < dss.len(),
    decreases dss.len(),
{
    if !dss.last().le_int(d) {
        assert(best_level(dss, d) == best_level(dss.drop_last(), d));
        if dss.len() >= 2 {
            lemma_best_level_bounds(dss.drop_last(), d);
        } else {
            assert(dss.drop_last().len() == 0);
            assert(best_level(dss.drop_last(), d) == 0);
        }
    }
}

/// The chosen level's downsample does not exceed the request, and every
/// higher level's does.
pub proof fn lemma_best_level_charn(dss: Seq<Ratio>, d: int)
    requires
        dss.len() >= 1,
        dss[0].le_int(d),
    ensures
        0 <= best_level(dss, d) < dss.len(),
        dss[best_level(dss, d)].le_int(d),
        forall|l: int| best_level(dss, d) < l < dss.len() ==> !dss[l].le_int(d),
    decreases dss.len(),
{
    lemma_best_level_bounds(dss, d);
    if !dss.last().le_int(d) {
        let rest = dss.drop_last();
        assert(best_level(dss, d) == best_level(rest, d));
        assert(dss.len() >= 2);
        assert(rest[0] == dss[0]);
        lemma_best_level_charn(rest, d);
        let b = best_level(dss, d);
        assert(dss[b] == rest[b]);
        assert forall|l: int| b < l < dss.len() implies !dss[l].le_int(d) by {
            if l < dss.len() - 1 {
                assert(dss[l] == rest[l]);
            } else {
                assert(dss[l] == dss.last());
            }
        }
    }
}

/// Raising the requested downsample never moves the chosen level down.
pub proof fn lemma_best_level_monotonic(dss: Seq<Ratio>, d1: int, d2: int)
    requires
        d1 <= d2,
    ensures
        best_level(dss, d1) <= best_level(dss, d2),
    decreases dss.len(),
{
    if dss.len() == 0 {
    } else if dss.last().le_int(d1) {
        assert(dss.last().le_int(d2)) by {
            lemma_mul_inequality(d1, d2, dss.last().den as int);
        }
        assert(best_level(dss, d1) == dss.len() - 1);
        assert(best_level(dss, d2) == dss.len() - 1);
    } else if dss.last().le_int(d2) {
        assert(best_level(dss, d2) == dss.len() - 1);
        assert(best_level(dss, d1) == best_level(dss.drop_last(), d1));
        if dss.len() >= 2 {
            lemma_best_level_bounds(dss.drop_last(), d1);
        } else {
            assert(dss.drop_last().len() == 0);
            assert(best_level(dss.drop_last(), d1) == 0);
        }
    } else {
        assert(best_level(dss, d1) == best_level(dss.drop_last(), d1));
        assert(best_level(dss, d2) == best_level(dss.drop_last(), d2));
        lemma_best_level_monotonic(dss.drop_last(), d1, d2);
    }
}

/// Finds `best_level(dss@, d)` by scanning from the coarsest level down.
pub(crate) fn best_level_search(dss: &Vec<Ratio>, d: u64) -> (r: usize)
    requires
        dss@.len() >= 1,
        dss@[0].le_int(d as int),
    ensures
        r as int == best_level(dss@, d as int),
        r < dss@.len(),
{
    let mut l: usize = dss.len() - 1;
    proof {
        assert(dss@.take(dss@.len() as int) =~= dss@);
    }
    loop
        invariant
            0 <= l < dss@.len(),
            dss@[0].le_int(d as int),
            best_level(dss@, d as int) == best_level(dss@.take(l as int + 1), d as int),
        decreases l,
    {
        let sub = Ghost(dss@.take(l as int + 1));
        assert(sub@.last() == dss@[l as int]);
        if dss[l].le_int_exec(d) {
            proof {
                assert(best_level(sub@, d as int) == l);
            }
            return l;
        }
        proof {
            assert(l > 0);
            assert(sub@.drop_last() =~= dss@.take(l as int));
            assert(best_level(sub@, d as int) == best_level(dss@.take(l as int), d as int));
        }
        l = l - 1;
    }
}

/// `2^e` as a machine word.
pub(crate) fn pow2_u64(e: u64) -> (r: u64)
    requires
        e < 64,
    ensures
        r as nat == pow2(e as nat),
{
    let mut r: u64 = 1;
    let mut i: u64 = 0;
    proof {
        lemma2_to64();
    }
    while i < e
        invariant
            i <= e,
            e < 64,
            r as nat == pow2(i as nat),
        decreases e - i,
    {
        proof {
            lemma_pow2_adds(i as nat, 1);
            lemma2_to64();
            lemma_pow2_strictly_increases((i + 1) as nat, 64);
            lemma2_to64_rest();
        }
        r = r * 2;
        i = i + 1;
    }
    r
}

/// `ceil(a / b)` as a machine word.
pub(crate) fn ceil_div_u64(a: u64, b: u64) -> (r: u64)
    requires
        1 <= b,
    ensures
        r as int == ceil_frac(a as int, b as int),
{
    if a == 0 {
        proof {
            lemma_basic_div(b as int - 1, b as int);
        }
        0
    } else {
        proof {
            lemma_div_plus_one(a as int - 1, b as int);
        }
        (a - 1) / b + 1
    }
}

/// `ceil(a * r.den / r.num)`: divides `a` by the downsample factor `r`,
/// rounding up. Because `r >= 1` the result never exceeds `a`.
pub(crate) fn div_ratio_ceil(a: u64, r: &Ratio) -> (c: u64)
    requires
        r.valid(),
    ensures
        c as int == ceil_frac(a as int * r.den as int, r.num as int),
        c <= a,
{
    proof {
        lemma_mul_upper_bound(a as int, u64::MAX as int, r.den as int, u64::MAX as int);
        assert((u64::MAX as int) * (u64::MAX as int) + (u64::MAX as int) <= u128::MAX as int)
            by (nonlinear_arith);
    }
    let p: u128 = (a as u128) * (r.den as u128);
    let q: u128 = r.num as u128;
    let c: u128 = (p + q - 1) / q;
    proof {
        let ai = a as int;
        let den = r.den as int;
        let num = r.num as int;
        assert(ai * den <= ai * num) by (nonlinear_arith)
            requires
                den <= num,
                0 <= ai,
        ;
        assert((ai * den + num - 1) / num <= (ai * num + num - 1) / num) by {
            lemma_div_is_ordered(ai * den + num - 1, ai * num + num - 1, num);
        }
        assert((ai * num + num - 1) / num == ai) by {
            lemma_div_multiples_vanish_fancy(ai, num - 1, num);
        }
    }
    c as u64
}

} // verus!
