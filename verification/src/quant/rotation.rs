//! The rotation that spreads a vector's weight before it is quantised: a
//! Walsh-Hadamard transform between two rounds of sign flips.
//!
//! The transform goes through stages; each stage replaces pairs of numbers by
//! their sum and their difference.  This module says which pairs, in which
//! order, and which signs are flipped; the floating-point sums are left to the
//! caller.  That the rotation undoes itself and keeps a vector's length, each up
//! to a factor, is proved for integers.
use vstd::arithmetic::div_mod::{lemma_fundamental_div_mod, lemma_fundamental_div_mod_converse};
use vstd::arithmetic::power2::{lemma2_to64, lemma_pow2_unfold, pow2};
use vstd::prelude::*;

verus! {

/// A power of two.
pub open spec fn is_power_of_two(n: nat) -> bool
    decreases n,
{
    n == 1 || (n > 1 && n % 2 == 0 && is_power_of_two(n / 2))
}

/// Whether the sign of number `i` is flipped: bit 16 of the index times a
/// fixed odd number, in 64 bits.
pub open spec fn sign_flipped(i: nat) -> bool {
    ((i * 2654435761) % 0x1_0000_0000_0000_0000) / 0x1_0000 % 2 == 1
}

/// Whether the sign of number `i` is flipped.
pub fn flips_sign(i: u64) -> (r: bool)
    ensures
        r == sign_flipped(i as nat),
{
    let wide: u128 = (i as u128) * 2654435761u128;
    let low: u64 = (wide % 0x1_0000_0000_0000_0000) as u64;
    (low / 0x1_0000) % 2 == 1
}

/// The sign of number `i` is flipped where bit 16 of its product with
/// 2654435761 is set; the product keeps its low 64 bits.
pub proof fn sign_is_a_bit(i: u64, flipped: bool)
    requires
        call_ensures(flips_sign, (i,), flipped),
    ensures
        flipped == ((i.wrapping_mul(2654435761) >> 16) & 1 == 1),
{
    let m: u64 = i.wrapping_mul(2654435761);
    assert((m >> 16) & 1 == (m / 0x1_0000) % 2) by (bit_vector);
}

/// The first index of pair `k` of the stage that pairs numbers `half` apart.
pub open spec fn pair_start(k: int, half: int) -> int {
    (k / half) * 2 * half + k % half
}

/// The pairs of one stage over `d` numbers, in order.
pub open spec fn stage_pairs(d: nat, half: nat) -> Seq<(int, int)> {
    Seq::new(
        d / 2,
        |k: int| (pair_start(k, half as int), pair_start(k, half as int) + half),
    )
}

/// How far `h` is below `d`.
pub open spec fn left_to(d: nat, h: nat) -> nat {
    if h < d {
        (d - h) as nat
    } else {
        0
    }
}

/// The pairs of all stages from `half` on, in order.
pub open spec fn pairs_from(d: nat, half: nat) -> Seq<(int, int)>
    decreases left_to(d, half),
{
    if half == 0 || half >= d {
        Seq::empty()
    } else {
        stage_pairs(d, half) + pairs_from(d, 2 * half)
    }
}

/// The vector with the numbers at `p` replaced by their sum and difference.
pub open spec fn crossed(x: Seq<int>, p: (int, int)) -> Seq<int> {
    x.update(p.0, x[p.0] + x[p.1]).update(p.1, x[p.0] - x[p.1])
}

/// The vector after each of the pairs in turn.
pub open spec fn all_crossed(x: Seq<int>, pairs: Seq<(int, int)>) -> Seq<int>
    decreases pairs.len(),
{
    if pairs.len() == 0 {
        x
    } else {
        crossed(all_crossed(x, pairs.drop_last()), pairs.last())
    }
}

/// The vector after the stage that pairs numbers `half` apart: each number
/// whose block of `half` is even is replaced by the sum, each other by the
/// difference.
pub open spec fn butterfly(x: Seq<int>, half: nat) -> Seq<int> {
    Seq::new(
        x.len(),
        |i: int|
            if (i / half as int) % 2 == 0 {
                x[i] + x[i + half]
            } else {
                x[i - half] - x[i]
            },
    )
}

/// The vector after all stages from `half` on.
pub open spec fn staged(x: Seq<int>, half: nat) -> Seq<int>
    decreases left_to(x.len(), half),
{
    if half == 0 || half >= x.len() {
        x
    } else {
        staged(butterfly(x, half), 2 * half)
    }
}

/// The sum of two vectors.
pub open spec fn vector_sum(a: Seq<int>, b: Seq<int>) -> Seq<int> {
    Seq::new(a.len(), |i: int| a[i] + b[i])
}

/// The difference of two vectors.
pub open spec fn vector_difference(a: Seq<int>, b: Seq<int>) -> Seq<int> {
    Seq::new(a.len(), |i: int| a[i] - b[i])
}

/// A vector times a number.
pub open spec fn scaled(a: Seq<int>, f: int) -> Seq<int> {
    Seq::new(a.len(), |i: int| a[i] * f)
}

/// The Walsh-Hadamard transform: the sums of the transformed halves, then
/// their differences.
pub open spec fn hadamard(x: Seq<int>) -> Seq<int>
    decreases x.len(),
{
    if x.len() <= 1 {
        x
    } else {
        let m = x.len() / 2;
        let a = hadamard(x.take(m as int));
        let b = hadamard(x.skip(m as int));
        vector_sum(a, b) + vector_difference(a, b)
    }
}

/// The vector with its flipped signs.
pub open spec fn flipped(x: Seq<int>) -> Seq<int> {
    Seq::new(
        x.len(),
        |i: int|
            if sign_flipped(i as nat) {
                -x[i]
            } else {
                x[i]
            },
    )
}

/// The rotation, without its scaling.
pub open spec fn rotated(x: Seq<int>) -> Seq<int> {
    flipped(all_crossed(flipped(x), pairs_from(x.len(), 1)))
}

/// The index `q * h + r` has quotient `q` and remainder `r`.
proof fn index_parts(q: int, r: int, h: int)
    requires
        0 <= r < h,
    ensures
        (q * h + r) / h == q,
        (q * h + r) % h == r,
{
    lemma_fundamental_div_mod_converse(q * h + r, h, q, r);
}

/// The two indices of pair `k` lie in an even block and in the odd block
/// behind it, and both belong to pair `k` alone.
proof fn pair_indices(k: int, h: int)
    requires
        0 <= k,
        0 < h,
    ensures
        ({
            let j = pair_start(k, h);
            &&& 0 <= j
            &&& j / h == 2 * (k / h)
            &&& j % h == k % h
            &&& (j + h) / h == 2 * (k / h) + 1
            &&& (j + h) % h == k % h
            &&& pair_of(j, h) == k
            &&& pair_of(j + h, h) == k
        }),
{
    let q = k / h;
    let r = k % h;
    lemma_fundamental_div_mod(k, h);
    assert(q * h == h * q) by (nonlinear_arith);
    assert(q * 2 * h == (2 * q) * h) by (nonlinear_arith);
    assert((2 * q + 1) * h == (2 * q) * h + h) by (nonlinear_arith);
    assert(q >= 0) by (nonlinear_arith)
        requires
            k >= 0,
            h > 0,
            q == k / h,
    ;
    assert((2 * q) * h >= 0) by (nonlinear_arith)
        requires
            q >= 0,
            h > 0,
    ;
    index_parts(2 * q, r, h);
    index_parts(2 * q + 1, r, h);
}

/// The pair that index `i` belongs to.
pub open spec fn pair_of(i: int, h: int) -> int {
    ((i / h) / 2) * h + i % h
}

/// Each index is the first or the second of its pair.
proof fn index_in_pair(i: int, h: int)
    requires
        0 <= i,
        0 < h,
    ensures
        0 <= pair_of(i, h),
        (i / h) % 2 == 0 ==> pair_start(pair_of(i, h), h) == i,
        (i / h) % 2 != 0 ==> pair_start(pair_of(i, h), h) + h == i,
{
    let q = i / h;
    let r = i % h;
    lemma_fundamental_div_mod(i, h);
    let p = q / 2;
    assert(q >= 0) by (nonlinear_arith)
        requires
            i >= 0,
            h > 0,
            q == i / h,
    ;
    assert(p * h >= 0) by (nonlinear_arith)
        requires
            p >= 0,
            h > 0,
    ;
    index_parts(p, r, h);
    assert(p * 2 * h == (2 * p) * h) by (nonlinear_arith);
    assert((2 * p + 1) * h == (2 * p) * h + h) by (nonlinear_arith);
    assert(q * h == h * q) by (nonlinear_arith);
}

/// `d` is made of pairs of blocks of `h`.
pub open spec fn blocks_fit(d: int, h: int) -> bool {
    exists|n: int| 0 <= n && d == #[trigger] (n * (2 * h))
}

/// Below the number of pairs, both indices of a pair are below `d`; below `d`,
/// the pair of an index is below the number of pairs.
proof fn pairs_cover(d: int, h: int, k: int)
    requires
        0 < h,
        blocks_fit(d, h),
        0 <= k,
    ensures
        k < d / 2 ==> pair_start(k, h) + h < d,
        k < d ==> pair_of(k, h) < d / 2,
{
    let n = choose|n: int| 0 <= n && d == #[trigger] (n * (2 * h));
    assert(n * (2 * h) == 2 * (n * h)) by (nonlinear_arith);
    assert(d / 2 == n * h);
    lemma_fundamental_div_mod(k, h);
    let q = k / h;
    let r = k % h;
    assert(h * q == q * h) by (nonlinear_arith);
    if k < d / 2 {
        assert(q < n) by (nonlinear_arith)
            requires
                q * h + r < n * h,
                0 <= r,
                0 < h,
        ;
        assert(q * 2 * h + r + h < n * (2 * h)) by (nonlinear_arith)
            requires
                q + 1 <= n,
                0 <= r < h,
                0 < h,
        ;
    }
    if k < d {
        assert(q < 2 * n) by (nonlinear_arith)
            requires
                q * h + r < 2 * (n * h),
                0 <= r,
                0 < h,
        ;
        let p = q / 2;
        assert(p * h + r < n * h) by (nonlinear_arith)
            requires
                p + 1 <= n,
                0 <= r < h,
                0 < h,
        ;
    }
}

/// After the first `n` pairs of a stage, exactly the numbers of these pairs
/// have been replaced.
proof fn stage_so_far(x: Seq<int>, h: nat, n: nat)
    requires
        0 < h,
        blocks_fit(x.len() as int, h as int),
        n <= x.len() / 2,
    ensures
        ({
            let y = all_crossed(x, stage_pairs(x.len(), h).take(n as int));
            &&& y.len() == x.len()
            &&& forall|i: int|
                0 <= i < x.len() ==> #[trigger] y[i] == if pair_of(i, h as int) < n {
                    butterfly(x, h)[i]
                } else {
                    x[i]
                }
        }),
    decreases n,
{
    let d = x.len() as int;
    let hh = h as int;
    let pairs = stage_pairs(x.len(), h);
    if n == 0 {
        assert(pairs.take(0) =~= Seq::empty());
        assert forall|i: int| 0 <= i < x.len() implies !(#[trigger] pair_of(i, hh) < 0) by {
            index_in_pair(i, hh);
        }
    } else {
        let k = n - 1;
        stage_so_far(x, h, k as nat);
        let before = all_crossed(x, pairs.take(k));
        assert(pairs.take(n as int).drop_last() =~= pairs.take(k));
        assert(pairs.take(n as int).last() == pairs[k]);
        let j = pair_start(k, hh);
        pairs_cover(d, hh, k);
        pair_indices(k, hh);
        let y = all_crossed(x, pairs.take(n as int));
        assert(y == crossed(before, (j, j + hh)));
        assert(before[j] == x[j]);
        assert(before[j + hh] == x[j + hh]);
        assert forall|i: int| 0 <= i < x.len() implies #[trigger] y[i] == if pair_of(i, hh) < n {
            butterfly(x, h)[i]
        } else {
            x[i]
        } by {
            index_in_pair(i, hh);
            if i == j || i == j + hh {
                assert(pair_of(i, hh) == k);
            } else {
                if pair_of(i, hh) == k {
                    assert(false);
                }
                assert(y[i] == before[i]);
            }
        }
    }
}

/// Going through the pairs of a stage is the stage.
proof fn stage_is_butterfly(x: Seq<int>, h: nat)
    requires
        0 < h,
        blocks_fit(x.len() as int, h as int),
    ensures
        all_crossed(x, stage_pairs(x.len(), h)) == butterfly(x, h),
{
    let pairs = stage_pairs(x.len(), h);
    stage_so_far(x, h, x.len() / 2);
    assert(pairs.take((x.len() / 2) as int) =~= pairs);
    assert forall|i: int| 0 <= i < x.len() implies pair_of(i, h as int) < x.len() / 2 by {
        pairs_cover(x.len() as int, h as int, i);
    }
    assert(all_crossed(x, pairs) =~= butterfly(x, h));
}

/// Going through two rows of pairs is going through the first, then the
/// second.
proof fn crossed_in_turn(x: Seq<int>, p: Seq<(int, int)>, q: Seq<(int, int)>)
    ensures
        all_crossed(x, p + q) == all_crossed(all_crossed(x, p), q),
    decreases q.len(),
{
    if q.len() == 0 {
        assert(p + q =~= p);
    } else {
        crossed_in_turn(x, p, q.drop_last());
        assert((p + q).drop_last() =~= p + q.drop_last());
        assert((p + q).last() == q.last());
    }
}

/// A power of two that divides another and is less than it fits in pairs.
proof fn power_fits(d: nat, h: nat, rest: nat)
    requires
        h * rest == d,
        is_power_of_two(rest),
        h > 0,
        h < d,
    ensures
        blocks_fit(d as int, h as int),
        rest > 1,
        (2 * h) * (rest / 2) == d,
        is_power_of_two(rest / 2),
{
    assert(rest != 1) by {
        assert(h * 1 == h) by (nonlinear_arith);
    }
    let n = rest / 2;
    assert(rest == 2 * n);
    assert(n * (2 * h) == h * rest && (2 * h) * n == h * rest) by (nonlinear_arith)
        requires
            rest == 2 * n,
    ;
    assert(d as int == (n as int) * (2 * (h as int)));
}

/// Going through the pairs of all stages from `h` on is going through these
/// stages.
proof fn pairs_are_stages(x: Seq<int>, h: nat, rest: nat)
    requires
        h > 0,
        h * rest == x.len(),
        is_power_of_two(rest),
    ensures
        all_crossed(x, pairs_from(x.len(), h)) == staged(x, h),
    decreases left_to(x.len(), h),
{
    if h < x.len() {
        power_fits(x.len(), h, rest);
        stage_is_butterfly(x, h);
        crossed_in_turn(x, stage_pairs(x.len(), h), pairs_from(x.len(), 2 * h));
        pairs_are_stages(butterfly(x, h), 2 * h, rest / 2);
    }
}

/// A stage that stays within the halves of a vector is the stage on each half.
proof fn butterfly_of_halves(a: Seq<int>, b: Seq<int>, h: nat)
    requires
        0 < h,
        a.len() == b.len(),
        blocks_fit(a.len() as int, h as int),
    ensures
        butterfly(a + b, h) == butterfly(a, h) + butterfly(b, h),
{
    let m = a.len() as int;
    let hh = h as int;
    let n = choose|n: int| 0 <= n && m == #[trigger] (n * (2 * hh));
    let x = a + b;
    assert forall|i: int| 0 <= i < x.len() implies butterfly(x, h)[i] == (butterfly(a, h)
        + butterfly(b, h))[i] by {
        let c = if i < m {
            i
        } else {
            i - m
        };
        lemma_fundamental_div_mod(c, hh);
        let q = c / hh;
        let r = c % hh;
        assert(hh * q == q * hh) by (nonlinear_arith);
        assert(n * (2 * hh) == (2 * n) * hh) by (nonlinear_arith);
        if i >= m {
            assert((2 * n + q) * hh == (2 * n) * hh + q * hh) by (nonlinear_arith);
            index_parts(2 * n + q, r, hh);
            assert(i / hh == 2 * n + q);
        }
        assert((i / hh) % 2 == q % 2);
        assert(q < 2 * n) by (nonlinear_arith)
            requires
                q * hh + r < (2 * n) * hh,
                0 <= r,
                0 < hh,
        ;
        if q % 2 == 0 {
            assert(c + hh < m) by (nonlinear_arith)
                requires
                    c == q * hh + r,
                    q + 1 < 2 * n,
                    r < hh,
                    0 < hh,
                    m == (2 * n) * hh,
            ;
        } else {
            assert(c - hh >= 0) by (nonlinear_arith)
                requires
                    c == q * hh + r,
                    q >= 1,
                    0 <= r,
                    0 < hh,
            ;
        }
    }
    assert(butterfly(x, h) =~= butterfly(a, h) + butterfly(b, h));
}

/// The stages from `h` on of a vector of two halves: those on each half, then
/// the last one.
proof fn staged_of_halves(a: Seq<int>, b: Seq<int>, h: nat, rest: nat)
    requires
        h > 0,
        a.len() == b.len(),
        h * rest == a.len(),
        is_power_of_two(rest),
    ensures
        staged(a, h).len() == a.len(),
        staged(b, h).len() == a.len(),
        staged(a + b, h) == butterfly(staged(a, h) + staged(b, h), a.len()),
    decreases left_to(a.len(), h),
{
    let m = a.len();
    if h < m {
        power_fits(m, h, rest);
        butterfly_of_halves(a, b, h);
        staged_of_halves(butterfly(a, h), butterfly(b, h), 2 * h, rest / 2);
    } else {
        assert(h == m) by (nonlinear_arith)
            requires
                h * rest == m,
                h >= m,
                rest >= 1,
                h > 0,
        ;
        assert(staged(a + b, h) == staged(butterfly(a + b, h), 2 * h));
    }
}

/// The stages are the transform.
pub proof fn stages_are_hadamard(x: Seq<int>)
    requires
        is_power_of_two(x.len()),
    ensures
        staged(x, 1) == hadamard(x),
        hadamard(x).len() == x.len(),
    decreases x.len(),
{
    if x.len() > 1 {
        let m = x.len() / 2;
        let a = x.take(m as int);
        let b = x.skip(m as int);
        assert(x =~= a + b);
        stages_are_hadamard(a);
        stages_are_hadamard(b);
        staged_of_halves(a, b, 1, m);
        let ha = hadamard(a);
        let hb = hadamard(b);
        let y = ha + hb;
        assert forall|i: int| 0 <= i < x.len() implies butterfly(y, m)[i] == (vector_sum(ha, hb)
            + vector_difference(ha, hb))[i] by {
            if i < m {
                index_parts(0, i, m as int);
            } else {
                index_parts(1, i - m, m as int);
            }
        }
        assert(butterfly(y, m) =~= vector_sum(ha, hb) + vector_difference(ha, hb));
    }
}

/// The transform of a sum is the sum of the transforms, and the same for a
/// difference.
proof fn hadamard_linear(a: Seq<int>, b: Seq<int>)
    requires
        a.len() == b.len(),
        is_power_of_two(a.len()),
    ensures
        hadamard(vector_sum(a, b)) == vector_sum(hadamard(a), hadamard(b)),
        hadamard(vector_difference(a, b)) == vector_difference(hadamard(a), hadamard(b)),
        hadamard(a).len() == a.len(),
        hadamard(b).len() == a.len(),
    decreases a.len(),
{
    stages_are_hadamard(a);
    stages_are_hadamard(b);
    let s = vector_sum(a, b);
    let t = vector_difference(a, b);
    if a.len() > 1 {
        let m = (a.len() / 2) as int;
        hadamard_linear(a.take(m), b.take(m));
        hadamard_linear(a.skip(m), b.skip(m));
        assert(s.take(m) =~= vector_sum(a.take(m), b.take(m)));
        assert(s.skip(m) =~= vector_sum(a.skip(m), b.skip(m)));
        assert(t.take(m) =~= vector_difference(a.take(m), b.take(m)));
        assert(t.skip(m) =~= vector_difference(a.skip(m), b.skip(m)));
        assert(hadamard(s) =~= vector_sum(hadamard(a), hadamard(b)));
        assert(hadamard(t) =~= vector_difference(hadamard(a), hadamard(b)));
    } else {
        assert(hadamard(s) =~= vector_sum(hadamard(a), hadamard(b)));
        assert(hadamard(t) =~= vector_difference(hadamard(a), hadamard(b)));
    }
}

/// The transform, done twice, multiplies every number by the length of the
/// vector.
pub proof fn hadamard_twice(x: Seq<int>)
    requires
        is_power_of_two(x.len()),
    ensures
        hadamard(hadamard(x)) == scaled(x, x.len() as int),
    decreases x.len(),
{
    if x.len() == 1 {
        assert(scaled(x, 1) =~= x);
    } else {
        let m = (x.len() / 2) as int;
        let a = x.take(m);
        let b = x.skip(m);
        hadamard_twice(a);
        hadamard_twice(b);
        stages_are_hadamard(a);
        stages_are_hadamard(b);
        let ha = hadamard(a);
        let hb = hadamard(b);
        let s = vector_sum(ha, hb);
        let t = vector_difference(ha, hb);
        hadamard_linear(ha, hb);
        let y = hadamard(x);
        assert(y.take(m) =~= s);
        assert(y.skip(m) =~= t);
        let hs = hadamard(s);
        let ht = hadamard(t);
        assert forall|i: int| 0 <= i < x.len() implies hadamard(y)[i] == scaled(
            x,
            x.len() as int,
        )[i] by {
            let c = if i < m {
                i
            } else {
                i - m
            };
            assert(hs[c] == a[c] * m + b[c] * m);
            assert(ht[c] == a[c] * m - b[c] * m);
            assert(x[i] * (2 * m) == 2 * (x[i] * m)) by (nonlinear_arith);
        }
        assert(hadamard(y) =~= scaled(x, x.len() as int));
    }
}

/// The rotation, done twice, multiplies every number by the length of the
/// vector: with the scaling by the square root of the length it undoes itself.
pub proof fn rotated_twice(x: Seq<int>)
    requires
        is_power_of_two(x.len()),
    ensures
        rotated(rotated(x)) == scaled(x, x.len() as int),
{
    let d = x.len();
    let f = flipped(x);
    assert(1 * d == d) by (nonlinear_arith);
    pairs_are_stages(f, 1, d);
    stages_are_hadamard(f);
    let y = rotated(x);
    assert(flipped(y) =~= hadamard(f));
    pairs_are_stages(flipped(y), 1, d);
    stages_are_hadamard(flipped(y));
    hadamard_twice(f);
    assert(rotated(y) =~= scaled(x, d as int)) by {
        assert forall|i: int| 0 <= i < d implies rotated(y)[i] == x[i] * d by {
            assert((-x[i]) * d == -(x[i] * d)) by (nonlinear_arith);
        }
    }
}

/// The sum of the squares of a vector's numbers.
pub open spec fn sum_of_squares(x: Seq<int>) -> int
    decreases x.len(),
{
    if x.len() == 0 {
        0
    } else {
        sum_of_squares(x.drop_last()) + x.last() * x.last()
    }
}

/// The squares of two vectors, one behind the other, add up.
proof fn squares_join(a: Seq<int>, b: Seq<int>)
    ensures
        sum_of_squares(a + b) == sum_of_squares(a) + sum_of_squares(b),
    decreases b.len(),
{
    if b.len() == 0 {
        assert(a + b =~= a);
    } else {
        assert((a + b).drop_last() =~= a + b.drop_last());
        squares_join(a, b.drop_last());
    }
}

/// The squares of the sums and of the differences are twice the squares.
proof fn squares_cross(a: Seq<int>, b: Seq<int>)
    requires
        a.len() == b.len(),
    ensures
        sum_of_squares(vector_sum(a, b)) + sum_of_squares(vector_difference(a, b)) == 2 * (
        sum_of_squares(a) + sum_of_squares(b)),
    decreases a.len(),
{
    if a.len() > 0 {
        let s = vector_sum(a, b);
        let t = vector_difference(a, b);
        assert(s.drop_last() =~= vector_sum(a.drop_last(), b.drop_last()));
        assert(t.drop_last() =~= vector_difference(a.drop_last(), b.drop_last()));
        squares_cross(a.drop_last(), b.drop_last());
        let x = a.last();
        let y = b.last();
        assert((x + y) * (x + y) + (x - y) * (x - y) == 2 * (x * x + y * y)) by (nonlinear_arith);
    }
}

/// Flipping signs keeps the squares.
proof fn squares_flipped(x: Seq<int>)
    ensures
        sum_of_squares(flipped(x)) == sum_of_squares(x),
    decreases x.len(),
{
    if x.len() > 0 {
        assert(flipped(x).drop_last() =~= flipped(x.drop_last()));
        squares_flipped(x.drop_last());
        let v = x.last();
        assert((-v) * (-v) == v * v) by (nonlinear_arith);
    }
}

/// The transform multiplies the sum of the squares by the length of the
/// vector.
pub proof fn hadamard_keeps_norm(x: Seq<int>)
    requires
        is_power_of_two(x.len()),
    ensures
        sum_of_squares(hadamard(x)) == x.len() * sum_of_squares(x),
    decreases x.len(),
{
    if x.len() > 1 {
        let m = (x.len() / 2) as int;
        let a = x.take(m);
        let b = x.skip(m);
        hadamard_keeps_norm(a);
        hadamard_keeps_norm(b);
        stages_are_hadamard(a);
        stages_are_hadamard(b);
        let ha = hadamard(a);
        let hb = hadamard(b);
        squares_join(vector_sum(ha, hb), vector_difference(ha, hb));
        squares_cross(ha, hb);
        squares_join(a, b);
        assert(a + b =~= x);
        let p = sum_of_squares(a);
        let q = sum_of_squares(b);
        assert(2 * (m * p + m * q) == (2 * m) * (p + q)) by (nonlinear_arith);
    }
}

/// The rotation multiplies the sum of the squares by the length of the vector:
/// with the scaling by the square root of the length it keeps the Euclidean
/// norm.
pub proof fn rotation_keeps_norm(x: Seq<int>)
    requires
        is_power_of_two(x.len()),
    ensures
        sum_of_squares(rotated(x)) == x.len() * sum_of_squares(x),
{
    let d = x.len();
    let f = flipped(x);
    assert(1 * d == d) by (nonlinear_arith);
    pairs_are_stages(f, 1, d);
    stages_are_hadamard(f);
    squares_flipped(x);
    hadamard_keeps_norm(f);
    squares_flipped(hadamard(f));
    assert(rotated(x) =~= flipped(hadamard(f)));
}

/// Pairs of machine indices as mathematical ones.
pub open spec fn pair_views(v: Seq<(usize, usize)>) -> Seq<(int, int)> {
    v.map_values(|p: (usize, usize)| (p.0 as int, p.1 as int))
}

/// Adds the pairs of one stage.
fn push_stage(out: &mut Vec<(usize, usize)>, d: usize, half: usize)
    requires
        0 < half,
        blocks_fit(d as int, half as int),
    ensures
        pair_views(final(out)@) == pair_views(old(out)@) + stage_pairs(d as nat, half as nat),
{
    let ghost start = pair_views(out@);
    let ghost pairs = stage_pairs(d as nat, half as nat);
    let n: usize = d / 2;
    let mut k: usize = 0;
    assert(pair_views(out@) =~= start + pairs.take(0));
    while k < n
        invariant
            0 <= k <= n,
            n == d / 2,
            0 < half,
            blocks_fit(d as int, half as int),
            pairs == stage_pairs(d as nat, half as nat),
            pair_views(out@) == start + pairs.take(k as int),
        decreases n - k,
    {
        let ghost before = out@;
        proof {
            pairs_cover(d as int, half as int, k as int);
            pair_indices(k as int, half as int);
            let q = k as int / half as int;
            assert(0 <= q * 2 <= q * 2 * half) by (nonlinear_arith)
                requires
                    q >= 0,
                    half > 0,
            ;
        }
        let j: usize = (k / half) * 2 * half + k % half;
        out.push((j, j + half));
        k += 1;
        assert(pair_views(out@) =~= pair_views(before).push((j as int, j + half)));
        assert(pairs.take(k as int) =~= pairs.take(k - 1).push((j as int, j + half)));
        assert(pair_views(out@) =~= start + pairs.take(k as int));
    }
    assert(pairs.take(k as int) =~= pairs);
}

/// The pairs of all stages of the transform over `d` numbers, in order.
pub fn wht_pairs(d: usize) -> (r: Vec<(usize, usize)>)
    requires
        is_power_of_two(d as nat),
    ensures
        pair_views(r@) == pairs_from(d as nat, 1),
{
    let mut out: Vec<(usize, usize)> = Vec::new();
    let mut half: usize = 1;
    let mut rest: usize = d;
    assert(pair_views(out@) =~= Seq::empty());
    assert(Seq::<(int, int)>::empty() + pairs_from(d as nat, 1) =~= pairs_from(d as nat, 1));
    assert(1 * d == d) by (nonlinear_arith);
    while half < d
        invariant
            0 < half,
            half * rest == d,
            is_power_of_two(rest as nat),
            pairs_from(d as nat, 1) == pair_views(out@) + pairs_from(d as nat, half as nat),
        decreases d - half,
    {
        let ghost before = pair_views(out@);
        proof {
            power_fits(d as nat, half as nat, rest as nat);
        }
        push_stage(&mut out, d, half);
        assert(2 * half <= d) by (nonlinear_arith)
            requires
                (2 * half) * (rest / 2) == d,
                rest > 1,
                half > 0,
        ;
        half = 2 * half;
        rest = rest / 2;
        assert(pair_views(out@) + pairs_from(d as nat, half as nat) =~= before + (stage_pairs(
            d as nat,
            (half / 2) as nat,
        ) + pairs_from(d as nat, half as nat)));
    }
    assert(pair_views(out@) + Seq::<(int, int)>::empty() =~= pair_views(out@));
    out
}

/// Whether `n` is a power of two.
pub fn check_power_of_two(n: usize) -> (r: bool)
    ensures
        r == is_power_of_two(n as nat),
    decreases n,
{
    if n == 1 {
        true
    } else if n > 1 && n % 2 == 0 {
        check_power_of_two(n / 2)
    } else {
        false
    }
}

/// The powers of two are one and the doubles of powers of two.
proof fn doubled_is_power(n: nat)
    requires
        is_power_of_two(n),
    ensures
        is_power_of_two(2 * n),
{
    assert((2 * n) / 2 == n && (2 * n) % 2 == 0);
}

/// A size is accepted exactly if it is two to some power.
pub proof fn accepted_sizes(n: usize, accepted: bool, k: nat)
    requires
        call_ensures(check_power_of_two, (n,), accepted),
    ensures
        n == pow2(k) ==> accepted,
        accepted ==> exists|j: nat| n == #[trigger] pow2(j),
{
    power_is_accepted(k);
    if accepted {
        exponent_found(n as nat);
    }
}

/// Two to any power is a power of two.
proof fn power_is_accepted(k: nat)
    ensures
        is_power_of_two(pow2(k)),
    decreases k,
{
    if k == 0 {
        lemma2_to64();
    } else {
        power_is_accepted((k - 1) as nat);
        lemma_pow2_unfold(k);
        doubled_is_power(pow2((k - 1) as nat));
    }
}

/// A power of two has an exponent.
proof fn exponent_found(n: nat)
    requires
        is_power_of_two(n),
    ensures
        exists|j: nat| n == #[trigger] pow2(j),
    decreases n,
{
    if n == 1 {
        lemma2_to64();
        assert(n == pow2(0));
    } else {
        exponent_found(n / 2);
        let j = choose|j: nat| n / 2 == #[trigger] pow2(j);
        lemma_pow2_unfold(j + 1);
        assert(n == pow2(j + 1));
    }
}

} // verus!
