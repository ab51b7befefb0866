use vstd::prelude::*;

verus! {

/// Bounds and distributivity facts for the bytes of one row span
/// `[left, left + cw)` of row `y` in a `w`-wide image of `ch` bytes per pixel.
pub proof fn lemma_row_span(w: int, h: int, ch: int, y: int, left: int, cw: int)
    requires
        0 <= y < h,
        0 <= left,
        0 <= cw,
        left + cw <= w,
        1 <= ch,
    ensures
        0 <= y * w,
        y * w + left + cw <= h * w,
        (y * w + left) * ch + cw * ch == (y * w + left + cw) * ch,
        (y * w + left + cw) * ch <= w * h * ch,
        y * w <= (y * w + left) * ch,
        0 <= cw * ch,
        h * w == w * h,
{
    assert(0 <= y * w) by (nonlinear_arith)
        requires
            0 <= y,
            0 <= w,
    ;
    assert(y * w + w <= h * w) by (nonlinear_arith)
        requires
            y < h,
            0 <= w,
            0 <= y,
    ;
    assert((y * w + left) * ch + cw * ch == (y * w + left + cw) * ch) by (nonlinear_arith);
    assert(h * w == w * h) by (nonlinear_arith);
    assert((y * w + left + cw) * ch <= (h * w) * ch) by (nonlinear_arith)
        requires
            y * w + left + cw <= h * w,
            1 <= ch,
    ;
    assert((h * w) * ch == w * h * ch) by (nonlinear_arith);
    assert(y * w <= (y * w + left) * ch) by (nonlinear_arith)
        requires
            0 <= y * w,
            0 <= left,
            1 <= ch,
    ;
    assert(0 <= cw * ch) by (nonlinear_arith)
        requires
            0 <= cw,
            1 <= ch,
    ;
}

/// The four bytes of pixel `(x, y)` of a `w` by `h` RGBA image lie inside it.
pub proof fn lemma_rgba_pixel(w: int, h: int, x: int, y: int)
    requires
        0 <= x < w,
        0 <= y < h,
    ensures
        0 <= y * w,
        0 <= (y * w + x) * 4,
        (y * w + x) * 4 + 3 < w * h * 4,
{
    lemma_row_span(w, h, 4, y, x, 1);
}

} // verus!
