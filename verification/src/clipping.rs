//! Which part of a segment lies between two bounds along an axis, in exact
//! fractions.

use crate::collider::wide;
use vstd::prelude::*;

verus! {

/// The point `n / den` of the way from the coordinate `p` to the coordinate
/// `q` lies between `lo` and `hi`, the ends included.
pub open spec fn axis_ok(p: int, q: int, lo: int, hi: int, n: int, den: int) -> bool {
    den * lo <= den * p + n * (q - p) <= den * hi
}

/// A range of fractions, from `lo_n / lo_d` to `hi_n / hi_d`.
#[derive(Clone, Copy, Debug)]
pub struct Range {
    pub lo_n: i128,
    pub lo_d: i128,
    pub hi_n: i128,
    pub hi_d: i128,
}

/// The fraction `n / den` lies in the range, the ends included.
pub open spec fn in_range(n: int, den: int, r: Range) -> bool {
    r.lo_n * den <= n * r.lo_d && n * r.hi_d <= r.hi_n * den
}

/// The range has positive denominators, and its numbers are differences of
/// coordinates of points that were moved once.
pub open spec fn bounded(r: Range) -> bool {
    &&& 0 < r.lo_d <= 0x2_0000_0000
    &&& 0 < r.hi_d <= 0x2_0000_0000
    &&& -0x2_0000_0000 <= r.lo_n <= 0x2_0000_0000
    &&& -0x2_0000_0000 <= r.hi_n <= 0x2_0000_0000
}

#[verifier::rlimit(40)]
proof fn lemma_axis(p: int, q: int, lo: int, hi: int, n: int, den: int)
    requires
        den > 0,
    ensures
        q > p ==> (axis_ok(p, q, lo, hi, n, den) <==> (lo - p) * den <= n * (q - p) && n * (q - p)
            <= (hi - p) * den),
        q < p ==> (axis_ok(p, q, lo, hi, n, den) <==> (p - hi) * den <= n * (p - q) && n * (p - q)
            <= (p - lo) * den),
        q == p ==> (axis_ok(p, q, lo, hi, n, den) <==> lo <= p <= hi),
{
    assert((lo - p) * den == den * lo - den * p) by (nonlinear_arith);
    assert((hi - p) * den == den * hi - den * p) by (nonlinear_arith);
    assert((p - hi) * den == den * p - den * hi) by (nonlinear_arith);
    assert((p - lo) * den == den * p - den * lo) by (nonlinear_arith);
    assert(n * (p - q) == -(n * (q - p))) by (nonlinear_arith);
    if q == p {
        assert(n * (q - p) == 0) by (nonlinear_arith)
            requires
                q == p,
        ;
        assert((den * lo <= den * p) == (lo <= p)) by (nonlinear_arith)
            requires
                den > 0,
        ;
        assert((den * p <= den * hi) == (p <= hi)) by (nonlinear_arith)
            requires
                den > 0,
        ;
    }
}

/// Of two fractions, what is not below the greater is not below the lesser.
#[verifier::rlimit(40)]
proof fn lemma_lower(xn: int, xd: int, yn: int, yd: int, n: int, den: int)
    requires
        xd > 0,
        yd > 0,
        den > 0,
        xn * yd <= yn * xd,
        yn * den <= n * yd,
    ensures
        xn * den <= n * xd,
{
    assert(xn * den <= n * xd) by (nonlinear_arith)
        requires
            xd > 0,
            yd > 0,
            den > 0,
            xn * yd <= yn * xd,
            yn * den <= n * yd,
    {
        assert((xn * yd) * den <= (yn * xd) * den);
        assert((yn * den) * xd <= (n * yd) * xd);
        assert((yn * xd) * den == (yn * den) * xd);
        assert((xn * yd) * den == (xn * den) * yd);
        assert((n * yd) * xd == (n * xd) * yd);
        assert((xn * den) * yd <= (n * xd) * yd);
    }
}

/// Of two fractions, what is not above the lesser is not above the greater.
#[verifier::rlimit(40)]
proof fn lemma_upper(xn: int, xd: int, yn: int, yd: int, n: int, den: int)
    requires
        xd > 0,
        yd > 0,
        den > 0,
        xn * yd <= yn * xd,
        n * xd <= xn * den,
    ensures
        n * yd <= yn * den,
{
    assert(n * yd <= yn * den) by (nonlinear_arith)
        requires
            xd > 0,
            yd > 0,
            den > 0,
            xn * yd <= yn * xd,
            n * xd <= xn * den,
    {
        assert((n * xd) * yd <= (xn * den) * yd);
        assert((xn * yd) * den <= (yn * xd) * den);
        assert((xn * den) * yd == (xn * yd) * den);
        assert((n * xd) * yd == (n * yd) * xd);
        assert((yn * xd) * den == (yn * den) * xd);
        assert((n * yd) * xd <= (yn * den) * xd);
    }
}

/// A range that holds a fraction does not begin after its end.
#[verifier::rlimit(40)]
proof fn lemma_holds(xn: int, xd: int, yn: int, yd: int, n: int, den: int)
    requires
        xd > 0,
        yd > 0,
        den > 0,
        xn * den <= n * xd,
        n * yd <= yn * den,
    ensures
        xn * yd <= yn * xd,
{
    assert(xn * yd <= yn * xd) by (nonlinear_arith)
        requires
            xd > 0,
            yd > 0,
            den > 0,
            xn * den <= n * xd,
            n * yd <= yn * den,
    {
        assert((xn * den) * yd <= (n * xd) * yd);
        assert((n * yd) * xd <= (yn * den) * xd);
        assert((n * xd) * yd == (n * yd) * xd);
        assert((xn * den) * yd == (xn * yd) * den);
        assert((yn * den) * xd == (yn * xd) * den);
        assert((xn * yd) * den <= (yn * xd) * den);
    }
}

proof fn lemma_products(a: int, b: int)
    requires
        -0x2_0000_0000 <= a <= 0x2_0000_0000,
        -0x2_0000_0000 <= b <= 0x2_0000_0000,
    ensures
        -0x4_0000_0000_0000_0000 <= a * b <= 0x4_0000_0000_0000_0000,
{
    assert(-0x4_0000_0000_0000_0000 <= a * b <= 0x4_0000_0000_0000_0000) by (nonlinear_arith)
        requires
            -0x2_0000_0000 <= a <= 0x2_0000_0000,
            -0x2_0000_0000 <= b <= 0x2_0000_0000,
    ;
}

/// The range of all fractions from nought to one.
pub(crate) fn whole() -> (r: Range)
    ensures
        bounded(r),
        forall|n: int, den: int| den > 0 ==> (#[trigger] in_range(n, den, r) <==> 0 <= n <= den),
{
    Range { lo_n: 0, lo_d: 1, hi_n: 1, hi_d: 1 }
}

/// The part of the range `r` of which the points, taken as parts of the way
/// from `p` to `q`, lie between `lo` and `hi`; `None` where no point of the
/// way lies between them.
pub(crate) fn clip(p: i64, q: i64, lo: i64, hi: i64, r: Range) -> (out: Option<Range>)
    requires
        wide(p as int),
        wide(q as int),
        wide(lo as int),
        wide(hi as int),
        bounded(r),
    ensures
        match out {
            Some(o) => bounded(o) && forall|n: int, den: int|
                den > 0 ==> (#[trigger] in_range(n, den, o) <==> in_range(n, den, r) && axis_ok(
                    p as int,
                    q as int,
                    lo as int,
                    hi as int,
                    n,
                    den,
                )),
            None => forall|n: int, den: int|
                den > 0 ==> !#[trigger] axis_ok(p as int, q as int, lo as int, hi as int, n, den),
        },
{
    let d: i128 = q as i128 - p as i128;
    if d == 0 {
        if lo <= p && p <= hi {
            assert forall|n: int, den: int| den > 0 implies (#[trigger] in_range(n, den, r)
                <==> in_range(n, den, r) && axis_ok(
                p as int,
                q as int,
                lo as int,
                hi as int,
                n,
                den,
            )) by {
                lemma_axis(p as int, q as int, lo as int, hi as int, n, den);
            }
            Some(r)
        } else {
            assert forall|n: int, den: int| den > 0 implies !#[trigger] axis_ok(
                p as int,
                q as int,
                lo as int,
                hi as int,
                n,
                den,
            ) by {
                lemma_axis(p as int, q as int, lo as int, hi as int, n, den);
            }
            None
        }
    } else {
        let e: i128 = if d > 0 { d } else { -d };
        let low: i128 = if d > 0 { lo as i128 - p as i128 } else { p as i128 - hi as i128 };
        let high: i128 = if d > 0 { hi as i128 - p as i128 } else { p as i128 - lo as i128 };
        proof {
            lemma_products(low as int, r.lo_d as int);
            lemma_products(r.lo_n as int, e as int);
            lemma_products(r.hi_n as int, e as int);
            lemma_products(high as int, r.hi_d as int);
        }
        let keep_low: bool = low * r.lo_d <= r.lo_n * e;
        let keep_high: bool = r.hi_n * e <= high * r.hi_d;
        let o = Range {
            lo_n: if keep_low { r.lo_n } else { low },
            lo_d: if keep_low { r.lo_d } else { e },
            hi_n: if keep_high { r.hi_n } else { high },
            hi_d: if keep_high { r.hi_d } else { e },
        };
        assert forall|n: int, den: int| den > 0 implies (#[trigger] in_range(n, den, o)
            <==> in_range(n, den, r) && axis_ok(
            p as int,
            q as int,
            lo as int,
            hi as int,
            n,
            den,
        )) by {
            lemma_axis(p as int, q as int, lo as int, hi as int, n, den);
            let fits = low * den <= n * e && n * e <= high * den;
            assert(axis_ok(p as int, q as int, lo as int, hi as int, n, den) == fits);
            if keep_low {
                if r.lo_n * den <= n * r.lo_d {
                    lemma_lower(low as int, e as int, r.lo_n as int, r.lo_d as int, n, den);
                }
            } else {
                if low * den <= n * e {
                    lemma_lower(r.lo_n as int, r.lo_d as int, low as int, e as int, n, den);
                }
            }
            if keep_high {
                if n * r.hi_d <= r.hi_n * den {
                    lemma_upper(r.hi_n as int, r.hi_d as int, high as int, e as int, n, den);
                }
            } else {
                if n * e <= high * den {
                    lemma_upper(high as int, e as int, r.hi_n as int, r.hi_d as int, n, den);
                }
            }
        }
        Some(o)
    }
}

/// Whether the range holds a fraction.
pub(crate) fn nonempty(r: Range) -> (b: bool)
    requires
        bounded(r),
    ensures
        b == exists|n: int, den: int| den > 0 && #[trigger] in_range(n, den, r),
{
    proof {
        lemma_products(r.lo_n as int, r.hi_d as int);
        lemma_products(r.hi_n as int, r.lo_d as int);
    }
    let b: bool = r.lo_n * r.hi_d <= r.hi_n * r.lo_d;
    proof {
        if b {
            assert(r.lo_n * r.lo_d == r.lo_n * r.lo_d);
            assert(in_range(r.lo_n as int, r.lo_d as int, r));
        } else {
            assert forall|n: int, den: int| den > 0 implies !#[trigger] in_range(n, den, r) by {
                if in_range(n, den, r) {
                    lemma_holds(
                        r.lo_n as int,
                        r.lo_d as int,
                        r.hi_n as int,
                        r.hi_d as int,
                        n,
                        den,
                    );
                }
            }
        }
    }
    b
}

} // verus!
