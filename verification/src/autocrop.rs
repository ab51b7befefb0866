use vstd::prelude::*;
use crate::arith::lemma_rgba_pixel;
use crate::raster::{CropBox, box_fits, crop_rows, lemma_crop_rows_index, lemma_crop_rows_len};
use crate::arith::lemma_row_span;

verus! {

/// A pixel counts as ink when its red, green or blue value is under this level.
pub const INK_LEVEL: u8 = 245;

/// Pixel `(x, y)` of a `w`-wide RGBA image (four bytes per pixel) is ink: not
/// near-white.
pub open spec fn is_ink(rgba: Seq<u8>, w: int, x: int, y: int) -> bool {
    let i = (y * w + x) * 4;
    rgba[i] < INK_LEVEL || rgba[i + 1] < INK_LEVEL || rgba[i + 2] < INK_LEVEL
}

/// Row `y` holds an ink pixel.
pub open spec fn row_has_ink(rgba: Seq<u8>, w: int, y: int) -> bool {
    exists|x: int| 0 <= x < w && #[trigger] is_ink(rgba, w, x, y)
}

/// Column `x` holds an ink pixel in rows `top ..= bottom`.
pub open spec fn col_has_ink(rgba: Seq<u8>, w: int, x: int, top: int, bottom: int) -> bool {
    exists|y: int| top <= y <= bottom && #[trigger] is_ink(rgba, w, x, y)
}

/// The first row from `y` on, below `h`, that holds ink.
pub open spec fn first_ink_row(rgba: Seq<u8>, w: int, h: int, y: int) -> Option<int>
    decreases h - y,
{
    if y >= h || y < 0 {
        None
    } else if row_has_ink(rgba, w, y) {
        Some(y)
    } else {
        first_ink_row(rgba, w, h, y + 1)
    }
}

/// The last row before `y_end` that holds ink.
pub open spec fn last_ink_row(rgba: Seq<u8>, w: int, y_end: int) -> Option<int>
    decreases y_end,
{
    if y_end <= 0 {
        None
    } else if row_has_ink(rgba, w, y_end - 1) {
        Some(y_end - 1)
    } else {
        last_ink_row(rgba, w, y_end - 1)
    }
}

/// The first column from `x` on, below `w`, with ink in rows `top ..= bottom`.
pub open spec fn first_ink_col(rgba: Seq<u8>, w: int, top: int, bottom: int, x: int) -> Option<int>
    decreases w - x,
{
    if x >= w || x < 0 {
        None
    } else if col_has_ink(rgba, w, x, top, bottom) {
        Some(x)
    } else {
        first_ink_col(rgba, w, top, bottom, x + 1)
    }
}

/// The last column before `x_end` with ink in rows `top ..= bottom`.
pub open spec fn last_ink_col(rgba: Seq<u8>, w: int, top: int, bottom: int, x_end: int) -> Option<int>
    decreases x_end,
{
    if x_end <= 0 {
        None
    } else if col_has_ink(rgba, w, x_end - 1, top, bottom) {
        Some(x_end - 1)
    } else {
        last_ink_col(rgba, w, top, bottom, x_end - 1)
    }
}

/// Top edge of the ink: the first ink row, or 0.
pub open spec fn scan_top(rgba: Seq<u8>, w: int, h: int) -> int {
    match first_ink_row(rgba, w, h, 0) {
        Some(y) => y,
        None => 0,
    }
}

/// Bottom edge of the ink: the last ink row, or the last row (0 for an empty image).
pub open spec fn scan_bottom(rgba: Seq<u8>, w: int, h: int) -> int {
    match last_ink_row(rgba, w, h) {
        Some(y) => y,
        None => if h > 0 { h - 1 } else { 0 },
    }
}

/// Left edge of the ink within the rows between top and bottom edge, or 0.
pub open spec fn scan_left(rgba: Seq<u8>, w: int, h: int) -> int {
    match first_ink_col(rgba, w, scan_top(rgba, w, h), scan_bottom(rgba, w, h), 0) {
        Some(x) => x,
        None => 0,
    }
}

/// Right edge of the ink within the rows between top and bottom edge, or
/// the last column (0 for an empty image).
pub open spec fn scan_right(rgba: Seq<u8>, w: int, h: int) -> int {
    match last_ink_col(rgba, w, scan_top(rgba, w, h), scan_bottom(rgba, w, h), w) {
        Some(x) => x,
        None => if w > 0 { w - 1 } else { 0 },
    }
}

/// The rectangle that the white-border crop keeps, or `None` where the image
/// stays as it is: where the edges found do not enclose at least one pixel,
/// which happens for an image without pixels.
pub open spec fn ink_box(rgba: Seq<u8>, w: int, h: int) -> Option<CropBox> {
    let top = scan_top(rgba, w, h);
    let bottom = scan_bottom(rgba, w, h);
    let left = scan_left(rgba, w, h);
    let right = scan_right(rgba, w, h);
    if w == 0 || h == 0 || right < left || bottom < top {
        None
    } else {
        Some(
            CropBox {
                left: left as u32,
                top: top as u32,
                width: (right - left + 1) as u32,
                height: (bottom - top + 1) as u32,
            },
        )
    }
}

fn pixel_is_ink(rgba: &Vec<u8>, w: u32, h: u32, x: u32, y: u32) -> (b: bool)
    requires
        rgba@.len() == w * h * 4,
        x < w,
        y < h,
    ensures
        b == is_ink(rgba@, w as int, x as int, y as int),
{
    proof {
        lemma_rgba_pixel(w as int, h as int, x as int, y as int);
    }
    let len = rgba.len();
    let i: usize = ((y as usize) * (w as usize) + (x as usize)) * 4;
    rgba[i] < INK_LEVEL || rgba[i + 1] < INK_LEVEL || rgba[i + 2] < INK_LEVEL
}

fn row_ink(rgba: &Vec<u8>, w: u32, h: u32, y: u32) -> (b: bool)
    requires
        rgba@.len() == w * h * 4,
        y < h,
    ensures
        b == row_has_ink(rgba@, w as int, y as int),
{
    let mut x: u32 = 0;
    while x < w
        invariant
            rgba@.len() == w * h * 4,
            y < h,
            x <= w,
            forall|x2: int| 0 <= x2 < x ==> !#[trigger] is_ink(rgba@, w as int, x2, y as int),
        decreases w - x,
    {
        if pixel_is_ink(rgba, w, h, x, y) {
            return true;
        }
        x = x + 1;
    }
    false
}

fn col_ink(rgba: &Vec<u8>, w: u32, h: u32, x: u32, top: u32, bottom: u32) -> (b: bool)
    requires
        rgba@.len() == w * h * 4,
        x < w,
        bottom < h,
    ensures
        b == col_has_ink(rgba@, w as int, x as int, top as int, bottom as int),
{
    let mut y: u32 = top;
    while y <= bottom
        invariant
            rgba@.len() == w * h * 4,
            x < w,
            bottom < h,
            top <= y,
            forall|y2: int| top <= y2 < y ==> !#[trigger] is_ink(rgba@, w as int, x as int, y2),
        decreases bottom + 1 - y,
    {
        if pixel_is_ink(rgba, w, h, x, y) {
            return true;
        }
        y = y + 1;
    }
    false
}

fn first_row(rgba: &Vec<u8>, w: u32, h: u32) -> (r: Option<u32>)
    requires
        rgba@.len() == w * h * 4,
    ensures
        match r {
            Some(y) => first_ink_row(rgba@, w as int, h as int, 0) == Some(y as int),
            None => first_ink_row(rgba@, w as int, h as int, 0) is None,
        },
{
    let mut y: u32 = 0;
    while y < h
        invariant
            y <= h,
            rgba@.len() == w * h * 4,
            first_ink_row(rgba@, w as int, h as int, 0) == first_ink_row(rgba@, w as int, h as int, y as int),
        decreases h - y,
    {
        if row_ink(rgba, w, h, y) {
            return Some(y);
        }
        y = y + 1;
    }
    None
}

fn last_row(rgba: &Vec<u8>, w: u32, h: u32) -> (r: Option<u32>)
    requires
        rgba@.len() == w * h * 4,
    ensures
        match r {
            Some(y) => last_ink_row(rgba@, w as int, h as int) == Some(y as int),
            None => last_ink_row(rgba@, w as int, h as int) is None,
        },
{
    let mut y_end: u32 = h;
    while y_end > 0
        invariant
            y_end <= h,
            rgba@.len() == w * h * 4,
            last_ink_row(rgba@, w as int, h as int) == last_ink_row(rgba@, w as int, y_end as int),
        decreases y_end,
    {
        if row_ink(rgba, w, h, y_end - 1) {
            return Some(y_end - 1);
        }
        y_end = y_end - 1;
    }
    None
}

fn first_col(rgba: &Vec<u8>, w: u32, h: u32, top: u32, bottom: u32) -> (r: Option<u32>)
    requires
        rgba@.len() == w * h * 4,
        bottom < h,
    ensures
        match r {
            Some(x) => first_ink_col(rgba@, w as int, top as int, bottom as int, 0) == Some(x as int),
            None => first_ink_col(rgba@, w as int, top as int, bottom as int, 0) is None,
        },
{
    let mut x: u32 = 0;
    while x < w
        invariant
            x <= w,
            rgba@.len() == w * h * 4,
            bottom < h,
            first_ink_col(rgba@, w as int, top as int, bottom as int, 0) == first_ink_col(
                rgba@,
                w as int,
                top as int,
                bottom as int,
                x as int,
            ),
        decreases w - x,
    {
        if col_ink(rgba, w, h, x, top, bottom) {
            return Some(x);
        }
        x = x + 1;
    }
    None
}

fn last_col(rgba: &Vec<u8>, w: u32, h: u32, top: u32, bottom: u32) -> (r: Option<u32>)
    requires
        rgba@.len() == w * h * 4,
        bottom < h,
    ensures
        match r {
            Some(x) => last_ink_col(rgba@, w as int, top as int, bottom as int, w as int) == Some(x as int),
            None => last_ink_col(rgba@, w as int, top as int, bottom as int, w as int) is None,
        },
{
    let mut x_end: u32 = w;
    while x_end > 0
        invariant
            x_end <= w,
            rgba@.len() == w * h * 4,
            bottom < h,
            last_ink_col(rgba@, w as int, top as int, bottom as int, w as int) == last_ink_col(
                rgba@,
                w as int,
                top as int,
                bottom as int,
                x_end as int,
            ),
        decreases x_end,
    {
        if col_ink(rgba, w, h, x_end - 1, top, bottom) {
            return Some(x_end - 1);
        }
        x_end = x_end - 1;
    }
    None
}

/// What the search for the first ink row finds.
pub proof fn lemma_first_ink_row(rgba: Seq<u8>, w: int, h: int, y0: int)
    requires
        0 <= y0,
    ensures
        match first_ink_row(rgba, w, h, y0) {
            Some(t) => y0 <= t < h && row_has_ink(rgba, w, t) && forall|y: int|
                y0 <= y < t ==> !#[trigger] row_has_ink(rgba, w, y),
            None => forall|y: int| y0 <= y < h ==> !#[trigger] row_has_ink(rgba, w, y),
        },
    decreases h - y0,
{
    if y0 < h && !row_has_ink(rgba, w, y0) {
        lemma_first_ink_row(rgba, w, h, y0 + 1);
    }
}

/// What the search for the last ink row finds.
pub proof fn lemma_last_ink_row(rgba: Seq<u8>, w: int, y_end: int)
    ensures
        match last_ink_row(rgba, w, y_end) {
            Some(t) => 0 <= t < y_end && row_has_ink(rgba, w, t) && forall|y: int|
                t < y < y_end ==> !#[trigger] row_has_ink(rgba, w, y),
            None => forall|y: int| 0 <= y < y_end ==> !#[trigger] row_has_ink(rgba, w, y),
        },
    decreases y_end,
{
    if y_end > 0 && !row_has_ink(rgba, w, y_end - 1) {
        lemma_last_ink_row(rgba, w, y_end - 1);
    }
}

/// What the search for the first ink column finds.
pub proof fn lemma_first_ink_col(rgba: Seq<u8>, w: int, top: int, bottom: int, x0: int)
    requires
        0 <= x0,
    ensures
        match first_ink_col(rgba, w, top, bottom, x0) {
            Some(t) => x0 <= t < w && col_has_ink(rgba, w, t, top, bottom) && forall|x: int|
                x0 <= x < t ==> !#[trigger] col_has_ink(rgba, w, x, top, bottom),
            None => forall|x: int| x0 <= x < w ==> !#[trigger] col_has_ink(rgba, w, x, top, bottom),
        },
    decreases w - x0,
{
    if x0 < w && !col_has_ink(rgba, w, x0, top, bottom) {
        lemma_first_ink_col(rgba, w, top, bottom, x0 + 1);
    }
}

/// What the search for the last ink column finds.
pub proof fn lemma_last_ink_col(rgba: Seq<u8>, w: int, top: int, bottom: int, x_end: int)
    ensures
        match last_ink_col(rgba, w, top, bottom, x_end) {
            Some(t) => 0 <= t < x_end && col_has_ink(rgba, w, t, top, bottom) && forall|x: int|
                t < x < x_end ==> !#[trigger] col_has_ink(rgba, w, x, top, bottom),
            None => forall|x: int| 0 <= x < x_end ==> !#[trigger] col_has_ink(rgba, w, x, top, bottom),
        },
    decreases x_end,
{
    if x_end > 0 && !col_has_ink(rgba, w, x_end - 1, top, bottom) {
        lemma_last_ink_col(rgba, w, top, bottom, x_end - 1);
    }
}

/// The edges found lie inside the image and the top edge is not below the
/// bottom one.
pub proof fn lemma_edges_in_range(rgba: Seq<u8>, w: int, h: int)
    requires
        0 <= w,
        0 <= h,
    ensures
        0 <= scan_top(rgba, w, h) <= scan_bottom(rgba, w, h),
        h > 0 ==> scan_bottom(rgba, w, h) < h,
        0 <= scan_left(rgba, w, h),
        0 <= scan_right(rgba, w, h),
        w > 0 ==> scan_left(rgba, w, h) < w && scan_right(rgba, w, h) < w,
{
    lemma_first_ink_row(rgba, w, h, 0);
    lemma_last_ink_row(rgba, w, h);
    lemma_first_ink_col(rgba, w, scan_top(rgba, w, h), scan_bottom(rgba, w, h), 0);
    lemma_last_ink_col(rgba, w, scan_top(rgba, w, h), scan_bottom(rgba, w, h), w);
    match first_ink_row(rgba, w, h, 0) {
        Some(t) => {
            match last_ink_row(rgba, w, h) {
                Some(b) => {
                    if b < t {
                        assert(!row_has_ink(rgba, w, t));
                    }
                },
                None => {
                    assert(!row_has_ink(rgba, w, t));
                },
            }
        },
        None => {
            match last_ink_row(rgba, w, h) {
                Some(b) => {
                    assert(!row_has_ink(rgba, w, b));
                },
                None => {},
            }
        },
    }
}

/// Finds the rectangle that the white-border crop keeps, scanning from the
/// top, the bottom, the left and the right for the first ink.
pub fn find_ink_box(rgba: &Vec<u8>, w: u32, h: u32) -> (r: Option<CropBox>)
    requires
        rgba@.len() == w * h * 4,
        h > 0 || w == 0,
    ensures
        r == ink_box(rgba@, w as int, h as int),
        r matches Some(b) ==> box_fits(b, w as int, h as int),
        (exists|x: int, y: int| 0 <= x < w && 0 <= y < h && #[trigger] is_ink(rgba@, w as int, x, y))
            ==> r is Some,
{
    proof {
        lemma_edges_in_range(rgba@, w as int, h as int);
        if exists|x: int, y: int| 0 <= x < w && 0 <= y < h && #[trigger] is_ink(rgba@, w as int, x, y) {
            let (x0, y0) = choose|x: int, y: int| 0 <= x < w && 0 <= y < h && #[trigger] is_ink(rgba@, w as int, x, y);
            law_inked_page_is_cropped(rgba@, w as int, h as int, x0, y0);
        }
    }
    let top: u32 = match first_row(rgba, w, h) {
        Some(y) => y,
        None => 0,
    };
    let bottom: u32 = match last_row(rgba, w, h) {
        Some(y) => y,
        None => if h > 0 { h - 1 } else { 0 },
    };
    let left: u32 = if w == 0 { 0 } else {
        match first_col(rgba, w, h, top, bottom) {
            Some(x) => x,
            None => 0,
        }
    };
    let right: u32 = if w == 0 { 0 } else {
        match last_col(rgba, w, h, top, bottom) {
            Some(x) => x,
            None => w - 1,
        }
    };
    if w == 0 || h == 0 || right < left || bottom < top {
        None
    } else {
        Some(CropBox { left, top, width: right - left + 1, height: bottom - top + 1 })
    }
}


/// The pixels of an RGBA image inside a rectangle, as an RGBA image of the
/// rectangle's size.
pub open spec fn crop_rgba(rgba: Seq<u8>, w: int, b: CropBox) -> Seq<u8> {
    crop_rows(rgba, w, 4, b.left as int, b.top as int, b.width as int, b.height as nat)
}

/// The white-border crop of an RGBA image: its bytes, width and height.
pub open spec fn auto_crop_rgba(rgba: Seq<u8>, w: int, h: int) -> (Seq<u8>, int, int) {
    match ink_box(rgba, w, h) {
        Some(b) => (crop_rgba(rgba, w, b), b.width as int, b.height as int),
        None => (rgba, w, h),
    }
}

/// A pixel of a cropped RGBA image is ink exactly when the source pixel it
/// came from is.
pub proof fn lemma_cropped_ink(rgba: Seq<u8>, w: int, h: int, b: CropBox, xx: int, yy: int)
    requires
        rgba.len() == w * h * 4,
        box_fits(b, w, h),
        0 <= xx < b.width,
        0 <= yy < b.height,
    ensures
        is_ink(crop_rgba(rgba, w, b), b.width as int, xx, yy) == is_ink(
            rgba,
            w,
            b.left + xx,
            b.top + yy,
        ),
{
    let l = b.left as int;
    let t = b.top as int;
    let cw = b.width as int;
    let n = b.height as nat;
    lemma_crop_rows_index(rgba, w, h, 4, l, t, cw, n, xx, yy, 0);
    lemma_crop_rows_index(rgba, w, h, 4, l, t, cw, n, xx, yy, 1);
    lemma_crop_rows_index(rgba, w, h, 4, l, t, cw, n, xx, yy, 2);
    assert((t + yy) * w + l + xx == (t + yy) * w + (l + xx));
}

/// Every ink pixel lies inside the rectangle that the crop keeps.
pub proof fn law_ink_inside_box(rgba: Seq<u8>, w: int, h: int, x: int, y: int)
    requires
        w <= u32::MAX,
        h <= u32::MAX,
        0 <= x < w,
        0 <= y < h,
        is_ink(rgba, w, x, y),
        ink_box(rgba, w, h) is Some,
    ensures
        ({
            let b = ink_box(rgba, w, h)->0;
            b.left <= x < b.left + b.width && b.top <= y < b.top + b.height
        }),
{
    lemma_edges_in_range(rgba, w, h);
    lemma_first_ink_row(rgba, w, h, 0);
    lemma_last_ink_row(rgba, w, h);
    assert(row_has_ink(rgba, w, y));
    let top = scan_top(rgba, w, h);
    let bottom = scan_bottom(rgba, w, h);
    lemma_first_ink_col(rgba, w, top, bottom, 0);
    lemma_last_ink_col(rgba, w, top, bottom, w);
    assert(top <= y <= bottom);
    assert(col_has_ink(rgba, w, x, top, bottom));
}

/// Where the page holds ink and the crop keeps a rectangle, each of the
/// rectangle's four edges touches ink inside it.
pub proof fn law_box_edges_touch_ink(rgba: Seq<u8>, w: int, h: int)
    requires
        w <= u32::MAX,
        h <= u32::MAX,
        exists|x: int, y: int| 0 <= x < w && 0 <= y < h && #[trigger] is_ink(rgba, w, x, y),
        ink_box(rgba, w, h) is Some,
    ensures
        ({
            let b = ink_box(rgba, w, h)->0;
            let right = b.left + b.width - 1;
            let bottom = b.top + b.height - 1;
            &&& exists|x: int| b.left <= x <= right && #[trigger] is_ink(rgba, w, x, b.top as int)
            &&& exists|x: int| b.left <= x <= right && #[trigger] is_ink(rgba, w, x, bottom)
            &&& exists|y: int| b.top <= y <= bottom && #[trigger] is_ink(rgba, w, b.left as int, y)
            &&& exists|y: int| b.top <= y <= bottom && #[trigger] is_ink(rgba, w, right, y)
        }),
{
    let (x0, y0) = choose|x: int, y: int| 0 <= x < w && 0 <= y < h && #[trigger] is_ink(rgba, w, x, y);
    lemma_edges_in_range(rgba, w, h);
    lemma_first_ink_row(rgba, w, h, 0);
    lemma_last_ink_row(rgba, w, h);
    assert(row_has_ink(rgba, w, y0));
    let top = scan_top(rgba, w, h);
    let bottom = scan_bottom(rgba, w, h);
    lemma_first_ink_col(rgba, w, top, bottom, 0);
    lemma_last_ink_col(rgba, w, top, bottom, w);
    assert(col_has_ink(rgba, w, x0, top, bottom));
    let b = ink_box(rgba, w, h)->0;
    let xt = choose|x: int| 0 <= x < w && #[trigger] is_ink(rgba, w, x, top);
    law_ink_inside_box(rgba, w, h, xt, top);
    let xb = choose|x: int| 0 <= x < w && #[trigger] is_ink(rgba, w, x, bottom);
    law_ink_inside_box(rgba, w, h, xb, bottom);
    let left = scan_left(rgba, w, h);
    let right = scan_right(rgba, w, h);
    assert(col_has_ink(rgba, w, left, top, bottom));
    assert(col_has_ink(rgba, w, right, top, bottom));
    let yl = choose|y: int| top <= y <= bottom && #[trigger] is_ink(rgba, w, left, y);
    let yr = choose|y: int| top <= y <= bottom && #[trigger] is_ink(rgba, w, right, y);
    assert(b.left == left && b.top == top);
    assert(b.left + b.width - 1 == right);
    assert(b.top + b.height - 1 == bottom);
    assert(is_ink(rgba, w, xt, b.top as int));
    assert(is_ink(rgba, w, b.left as int, yl));
}

/// The rectangle found on a page without ink: the whole image, unless the
/// image has no pixels.
pub proof fn lemma_blank_box(rgba: Seq<u8>, w: int, h: int)
    requires
        0 <= w <= u32::MAX,
        0 <= h <= u32::MAX,
        h > 0 || w == 0,
        forall|x: int, y: int| 0 <= x < w && 0 <= y < h ==> !#[trigger] is_ink(rgba, w, x, y),
    ensures
        scan_top(rgba, w, h) == 0,
        scan_bottom(rgba, w, h) == if h > 0 { h - 1 } else { 0 },
        scan_left(rgba, w, h) == 0,
        scan_right(rgba, w, h) == if w > 0 { w - 1 } else { 0 },
        ink_box(rgba, w, h) == if w >= 1 && h >= 1 {
            Some(CropBox { left: 0, top: 0, width: w as u32, height: h as u32 })
        } else {
            None
        },
{
    lemma_first_ink_row(rgba, w, h, 0);
    lemma_last_ink_row(rgba, w, h);
    let top = scan_top(rgba, w, h);
    let bottom = scan_bottom(rgba, w, h);
    lemma_first_ink_col(rgba, w, top, bottom, 0);
    lemma_last_ink_col(rgba, w, top, bottom, w);
    if first_ink_row(rgba, w, h, 0) is Some {
        let t = first_ink_row(rgba, w, h, 0)->0;
        let x = choose|x: int| 0 <= x < w && #[trigger] is_ink(rgba, w, x, t);
    }
    if last_ink_row(rgba, w, h) is Some {
        let t = last_ink_row(rgba, w, h)->0;
        let x = choose|x: int| 0 <= x < w && #[trigger] is_ink(rgba, w, x, t);
    }
    if first_ink_col(rgba, w, top, bottom, 0) is Some {
        let t = first_ink_col(rgba, w, top, bottom, 0)->0;
        let y = choose|y: int| top <= y <= bottom && #[trigger] is_ink(rgba, w, t, y);
    }
    if last_ink_col(rgba, w, top, bottom, w) is Some {
        let t = last_ink_col(rgba, w, top, bottom, w)->0;
        let y = choose|y: int| top <= y <= bottom && #[trigger] is_ink(rgba, w, t, y);
    }
}

/// A page without ink is kept whole: the crop keeps nothing or the whole image.
pub proof fn law_blank_page_kept_whole(rgba: Seq<u8>, w: int, h: int)
    requires
        0 <= w <= u32::MAX,
        0 <= h <= u32::MAX,
        h > 0 || w == 0,
        forall|x: int, y: int| 0 <= x < w && 0 <= y < h ==> !#[trigger] is_ink(rgba, w, x, y),
    ensures
        ink_box(rgba, w, h) is None || ink_box(rgba, w, h) == Some(
            CropBox { left: 0, top: 0, width: w as u32, height: h as u32 },
        ),
{
    lemma_blank_box(rgba, w, h);
}

/// The rectangle that the crop keeps lies inside the image and is at least
/// one pixel wide and high.
pub proof fn lemma_box_fits(rgba: Seq<u8>, w: int, h: int)
    requires
        0 <= w <= u32::MAX,
        0 <= h <= u32::MAX,
        ink_box(rgba, w, h) is Some,
    ensures
        box_fits(ink_box(rgba, w, h)->0, w, h),
        ink_box(rgba, w, h)->0.width >= 1,
        ink_box(rgba, w, h)->0.height >= 1,
        ink_box(rgba, w, h)->0.left == scan_left(rgba, w, h),
        ink_box(rgba, w, h)->0.top == scan_top(rgba, w, h),
        ink_box(rgba, w, h)->0.left + ink_box(rgba, w, h)->0.width - 1 == scan_right(rgba, w, h),
        ink_box(rgba, w, h)->0.top + ink_box(rgba, w, h)->0.height - 1 == scan_bottom(rgba, w, h),
{
    lemma_edges_in_range(rgba, w, h);
}

/// Cropping a raster to its whole area gives back its bytes.
pub proof fn lemma_crop_whole(data: Seq<u8>, w: int, h: int, ch: int, n: nat)
    requires
        data.len() == w * h * ch,
        0 <= w,
        1 <= ch,
        n <= h,
    ensures
        crop_rows(data, w, ch, 0, 0, w, n) == data.subrange(0, n * w * ch),
    decreases n,
{
    if n == 0 {
        assert(n * w * ch == 0) by (nonlinear_arith)
            requires
                n == 0,
        ;
        assert(data.subrange(0, 0) =~= Seq::<u8>::empty());
    } else {
        lemma_crop_whole(data, w, h, ch, (n - 1) as nat);
        lemma_row_span(w, h, ch, n - 1, 0, w);
        assert(((n - 1) * w + 0) * ch == (n - 1) * w * ch) by (nonlinear_arith);
        assert(((n - 1) * w + 0 + w) * ch == n * w * ch) by (nonlinear_arith);
        assert(0 <= (n - 1) * w * ch) by (nonlinear_arith)
            requires
                n >= 1,
                0 <= w,
                1 <= ch,
        ;
        assert(data.subrange(0, (n - 1) * w * ch) + data.subrange((n - 1) * w * ch, n * w * ch)
            =~= data.subrange(0, n * w * ch));
    }
}

/// After the crop, the crop finds nothing more to remove: on the cropped
/// image it keeps the whole image.
pub proof fn law_crop_is_stable(rgba: Seq<u8>, w: int, h: int)
    requires
        rgba.len() == w * h * 4,
        0 <= w <= u32::MAX,
        0 <= h <= u32::MAX,
        ink_box(rgba, w, h) is Some,
    ensures
        ({
            let b = ink_box(rgba, w, h)->0;
            ink_box(crop_rgba(rgba, w, b), b.width as int, b.height as int) == Some(
                CropBox { left: 0, top: 0, width: b.width, height: b.height },
            )
        }),
{
    let b = ink_box(rgba, w, h)->0;
    lemma_box_fits(rgba, w, h);
    let c = crop_rgba(rgba, w, b);
    let cw = b.width as int;
    let chh = b.height as int;
    if exists|x: int, y: int| 0 <= x < w && 0 <= y < h && #[trigger] is_ink(rgba, w, x, y) {
        law_box_edges_touch_ink(rgba, w, h);
        let right = b.left + b.width - 1;
        let bottom = b.top + b.height - 1;
        let xt = choose|x: int| b.left <= x <= right && #[trigger] is_ink(rgba, w, x, b.top as int);
        let xb = choose|x: int| b.left <= x <= right && #[trigger] is_ink(rgba, w, x, bottom);
        let yl = choose|y: int| b.top <= y <= bottom && #[trigger] is_ink(rgba, w, b.left as int, y);
        let yr = choose|y: int| b.top <= y <= bottom && #[trigger] is_ink(rgba, w, right, y);
        lemma_cropped_ink(rgba, w, h, b, xt - b.left, 0);
        lemma_cropped_ink(rgba, w, h, b, xb - b.left, chh - 1);
        lemma_cropped_ink(rgba, w, h, b, 0, yl - b.top);
        lemma_cropped_ink(rgba, w, h, b, cw - 1, yr - b.top);
        assert(is_ink(c, cw, xt - b.left, 0));
        assert(row_has_ink(c, cw, 0));
        assert(is_ink(c, cw, xb - b.left, chh - 1));
        assert(row_has_ink(c, cw, chh - 1));
        assert(first_ink_row(c, cw, chh, 0) == Some(0int));
        assert(last_ink_row(c, cw, chh) == Some(chh - 1));
        assert(scan_top(c, cw, chh) == 0);
        assert(scan_bottom(c, cw, chh) == chh - 1);
        assert(is_ink(c, cw, 0, yl - b.top));
        assert(col_has_ink(c, cw, 0, 0, chh - 1));
        assert(is_ink(c, cw, cw - 1, yr - b.top));
        assert(col_has_ink(c, cw, cw - 1, 0, chh - 1));
        assert(first_ink_col(c, cw, 0, chh - 1, 0) == Some(0int));
        assert(last_ink_col(c, cw, 0, chh - 1, cw) == Some(cw - 1));
    } else {
        assert forall|x: int, y: int| 0 <= x < cw && 0 <= y < chh implies !#[trigger] is_ink(
            c,
            cw,
            x,
            y,
        ) by {
            lemma_cropped_ink(rgba, w, h, b, x, y);
            if is_ink(rgba, w, b.left + x, b.top + y) {
                assert(is_ink(rgba, w, b.left + x, b.top + y));
            }
        }
        lemma_blank_box(c, cw, chh);
    }
}

/// The white-border crop is idempotent: cropping an already cropped image
/// changes nothing.
pub proof fn law_auto_crop_rgba_idempotent(rgba: Seq<u8>, w: int, h: int)
    requires
        rgba.len() == w * h * 4,
        0 <= w <= u32::MAX,
        0 <= h <= u32::MAX,
    ensures
        ({
            let (r1, w1, h1) = auto_crop_rgba(rgba, w, h);
            auto_crop_rgba(r1, w1, h1) == (r1, w1, h1)
        }),
{
    if ink_box(rgba, w, h) is Some {
        let b = ink_box(rgba, w, h)->0;
        lemma_box_fits(rgba, w, h);
        law_crop_is_stable(rgba, w, h);
        let c = crop_rgba(rgba, w, b);
        let cw = b.width as int;
        let chh = b.height as int;
        lemma_crop_rows_len(rgba, w, h, 4, b.left as int, b.top as int, cw, chh as nat);
        assert(chh * cw * 4 == cw * chh * 4) by (nonlinear_arith);
        lemma_crop_whole(c, cw, chh, 4, chh as nat);
        assert(c.subrange(0, chh * cw * 4) =~= c);
    }
}

/// Two RGBA images of the same size with ink at the same pixels.
pub open spec fn same_ink(a: Seq<u8>, b: Seq<u8>, w: int, h: int) -> bool {
    forall|x: int, y: int|
        0 <= x < w && 0 <= y < h ==> #[trigger] is_ink(a, w, x, y) == #[trigger] is_ink(b, w, x, y)
}

proof fn lemma_first_row_same(a: Seq<u8>, b: Seq<u8>, w: int, h: int, y0: int)
    requires
        same_ink(a, b, w, h),
    ensures
        first_ink_row(a, w, h, y0) == first_ink_row(b, w, h, y0),
    decreases h - y0,
{
    if 0 <= y0 < h {
        if row_has_ink(a, w, y0) {
            let x = choose|x: int| 0 <= x < w && #[trigger] is_ink(a, w, x, y0);
            assert(is_ink(b, w, x, y0));
        }
        if row_has_ink(b, w, y0) {
            let x = choose|x: int| 0 <= x < w && #[trigger] is_ink(b, w, x, y0);
            assert(is_ink(a, w, x, y0));
        }
        lemma_first_row_same(a, b, w, h, y0 + 1);
    }
}

proof fn lemma_last_row_same(a: Seq<u8>, b: Seq<u8>, w: int, h: int, y_end: int)
    requires
        same_ink(a, b, w, h),
        y_end <= h,
    ensures
        last_ink_row(a, w, y_end) == last_ink_row(b, w, y_end),
    decreases y_end,
{
    if y_end > 0 {
        let y = y_end - 1;
        if row_has_ink(a, w, y) {
            let x = choose|x: int| 0 <= x < w && #[trigger] is_ink(a, w, x, y);
            assert(is_ink(b, w, x, y));
        }
        if row_has_ink(b, w, y) {
            let x = choose|x: int| 0 <= x < w && #[trigger] is_ink(b, w, x, y);
            assert(is_ink(a, w, x, y));
        }
        lemma_last_row_same(a, b, w, h, y_end - 1);
    }
}

proof fn lemma_col_same(a: Seq<u8>, b: Seq<u8>, w: int, h: int, x: int, top: int, bottom: int)
    requires
        same_ink(a, b, w, h),
        0 <= x < w,
        0 <= top,
        bottom < h,
    ensures
        col_has_ink(a, w, x, top, bottom) == col_has_ink(b, w, x, top, bottom),
{
    if col_has_ink(a, w, x, top, bottom) {
        let y = choose|y: int| top <= y <= bottom && #[trigger] is_ink(a, w, x, y);
        assert(is_ink(b, w, x, y));
    }
    if col_has_ink(b, w, x, top, bottom) {
        let y = choose|y: int| top <= y <= bottom && #[trigger] is_ink(b, w, x, y);
        assert(is_ink(a, w, x, y));
    }
}

proof fn lemma_first_col_same(a: Seq<u8>, b: Seq<u8>, w: int, h: int, top: int, bottom: int, x0: int)
    requires
        same_ink(a, b, w, h),
        0 <= top,
        bottom < h,
    ensures
        first_ink_col(a, w, top, bottom, x0) == first_ink_col(b, w, top, bottom, x0),
    decreases w - x0,
{
    if 0 <= x0 < w {
        lemma_col_same(a, b, w, h, x0, top, bottom);
        lemma_first_col_same(a, b, w, h, top, bottom, x0 + 1);
    }
}

proof fn lemma_last_col_same(a: Seq<u8>, b: Seq<u8>, w: int, h: int, top: int, bottom: int, x_end: int)
    requires
        same_ink(a, b, w, h),
        0 <= top,
        bottom < h,
        x_end <= w,
    ensures
        last_ink_col(a, w, top, bottom, x_end) == last_ink_col(b, w, top, bottom, x_end),
    decreases x_end,
{
    if x_end > 0 {
        lemma_col_same(a, b, w, h, x_end - 1, top, bottom);
        lemma_last_col_same(a, b, w, h, top, bottom, x_end - 1);
    }
}

/// The crop rectangle depends only on which pixels are ink.
pub proof fn lemma_ink_box_same(a: Seq<u8>, b: Seq<u8>, w: int, h: int)
    requires
        same_ink(a, b, w, h),
        0 <= w,
        0 <= h,
    ensures
        ink_box(a, w, h) == ink_box(b, w, h),
{
    lemma_first_row_same(a, b, w, h, 0);
    lemma_last_row_same(a, b, w, h, h);
    lemma_edges_in_range(a, w, h);
    if h > 0 {
        let top = scan_top(a, w, h);
        let bottom = scan_bottom(a, w, h);
        lemma_first_col_same(a, b, w, h, top, bottom, 0);
        lemma_last_col_same(a, b, w, h, top, bottom, w);
    } else {
        let top = scan_top(a, w, h);
        let bottom = scan_bottom(a, w, h);
        if w > 0 {
            lemma_first_ink_col(a, w, top, bottom, 0);
        }
    }
}

/// A page with ink is always cropped, to exactly the bounding box of its
/// ink: the rectangle exists, holds every ink pixel, and each of its four
/// edges touches ink.
pub proof fn law_inked_page_is_cropped(rgba: Seq<u8>, w: int, h: int, x0: int, y0: int)
    requires
        w <= u32::MAX,
        h <= u32::MAX,
        0 <= x0 < w,
        0 <= y0 < h,
        is_ink(rgba, w, x0, y0),
    ensures
        ink_box(rgba, w, h) is Some,
        ({
            let b = ink_box(rgba, w, h)->0;
            let right = b.left + b.width - 1;
            let bottom = b.top + b.height - 1;
            &&& forall|x: int, y: int|
                0 <= x < w && 0 <= y < h && #[trigger] is_ink(rgba, w, x, y) ==> b.left <= x <= right
                    && b.top <= y <= bottom
            &&& exists|x: int| b.left <= x <= right && #[trigger] is_ink(rgba, w, x, b.top as int)
            &&& exists|x: int| b.left <= x <= right && #[trigger] is_ink(rgba, w, x, bottom)
            &&& exists|y: int| b.top <= y <= bottom && #[trigger] is_ink(rgba, w, b.left as int, y)
            &&& exists|y: int| b.top <= y <= bottom && #[trigger] is_ink(rgba, w, right, y)
        }),
{
    lemma_edges_in_range(rgba, w, h);
    lemma_first_ink_row(rgba, w, h, 0);
    lemma_last_ink_row(rgba, w, h);
    assert(row_has_ink(rgba, w, y0));
    let top = scan_top(rgba, w, h);
    let bottom = scan_bottom(rgba, w, h);
    lemma_first_ink_col(rgba, w, top, bottom, 0);
    lemma_last_ink_col(rgba, w, top, bottom, w);
    assert(top <= y0 <= bottom);
    assert(col_has_ink(rgba, w, x0, top, bottom));
    assert(ink_box(rgba, w, h) is Some);
    assert forall|x: int, y: int|
        0 <= x < w && 0 <= y < h && #[trigger] is_ink(rgba, w, x, y) implies ink_box(
        rgba,
        w,
        h,
    )->0.left <= x <= ink_box(rgba, w, h)->0.left + ink_box(rgba, w, h)->0.width - 1 && ink_box(
        rgba,
        w,
        h,
    )->0.top <= y <= ink_box(rgba, w, h)->0.top + ink_box(rgba, w, h)->0.height - 1 by {
        law_ink_inside_box(rgba, w, h, x, y);
    }
    law_box_edges_touch_ink(rgba, w, h);
}

} // verus!
