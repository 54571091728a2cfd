//! Row-major grids: a cell at row `r` and column `c` of a grid `w` wide is at `r * w + c`.

use vstd::prelude::*;

verus! {

/// Where row `r`, column `c` of a grid `w` wide is kept.
pub open spec fn at(w: int, r: int, c: int) -> int {
    r * w + c
}

/// Every cell of a `w` by `h` grid is kept inside it.
pub proof fn lemma_at_inside(w: int, h: int, r: int, c: int)
    requires
        0 <= r < h,
        0 <= c < w,
    ensures
        0 <= at(w, r, c) < w * h,
        at(w, r, c) + 1 <= w * h,
        r * w <= at(w, r, c),
{
    assert(0 <= r * w + c < w * h) by (nonlinear_arith)
        requires
            0 <= r < h,
            0 <= c < w,
    ;
}

/// Two different cells of a grid are kept in two different places.
pub proof fn lemma_at_distinct(w: int, r1: int, c1: int, r2: int, c2: int)
    requires
        0 <= c1 < w,
        0 <= c2 < w,
        r1 != r2 || c1 != c2,
    ensures
        at(w, r1, c1) != at(w, r2, c2),
{
    if r1 == r2 {
    } else if r1 < r2 {
        assert(r1 * w + w <= r2 * w) by (nonlinear_arith)
            requires
                r1 < r2,
                w > 0,
        ;
    } else {
        assert(r2 * w + w <= r1 * w) by (nonlinear_arith)
            requires
                r2 < r1,
                w > 0,
        ;
    }
}

/// The product of two sizes that fit in `u32` fits in `u64`.
pub proof fn lemma_area_fits(w: u32, h: u32)
    ensures
        (w as int) * (h as int) <= u64::MAX,
        0 <= (w as int) * (h as int),
{
    assert((w as int) * (h as int) <= 0xffff_ffff * 0xffff_ffff) by (nonlinear_arith)
        requires
            w <= 0xffff_ffff,
            h <= 0xffff_ffff,
            w >= 0,
            h >= 0,
    ;
    assert(0 <= (w as int) * (h as int)) by (nonlinear_arith)
        requires
            w >= 0,
            h >= 0,
    ;
}

} // verus!
