use vstd::prelude::*;
use crate::arith::lemma_row_span;

verus! {

/// The pixel layouts that scanned pages come in, with eight bits per channel.
#[derive(Clone, Copy, PartialEq, Eq, Structural, Debug)]
pub enum ColorKind {
    L8,
    Rgb8,
    Rgba8,
}

/// Bytes per pixel of a layout.
pub open spec fn channels(c: ColorKind) -> int {
    match c {
        ColorKind::L8 => 1,
        ColorKind::Rgb8 => 3,
        ColorKind::Rgba8 => 4,
    }
}

/// Bytes per pixel of a layout.
pub fn channel_count(c: ColorKind) -> (n: u8)
    ensures
        n as int == channels(c),
        1 <= n <= 4,
{
    match c {
        ColorKind::L8 => 1,
        ColorKind::Rgb8 => 3,
        ColorKind::Rgba8 => 4,
    }
}

/// A page image: `height` rows of `width` pixels, row after row, each pixel
/// `channels(color)` bytes.
pub struct Raster {
    pub width: u32,
    pub height: u32,
    pub color: ColorKind,
    pub data: Vec<u8>,
}

/// A rectangle of an image: its top-left pixel and its size.
#[derive(Clone, Copy, PartialEq, Eq, Structural, Debug)]
pub struct CropBox {
    pub left: u32,
    pub top: u32,
    pub width: u32,
    pub height: u32,
}

impl Raster {
    /// The data holds exactly one pixel for each position.
    pub open spec fn wf(&self) -> bool {
        self.data@.len() == self.width * self.height * channels(self.color)
    }

    /// Builds a raster from its bytes; `None` where their number does not fit the size.
    pub fn new(width: u32, height: u32, color: ColorKind, data: Vec<u8>) -> (r: Option<Raster>)
        ensures
            r is Some <==> data@.len() == width * height * channels(color),
            r matches Some(x) ==> x.wf() && x.width == width && x.height == height
                && x.color == color && x.data@ == data@,
    {
        let ch = channel_count(color);
        assert((width as int) * (height as int) * (ch as int) < 0x1_0000_0000_0000_0000_0000_0000)
            by (nonlinear_arith)
            requires
                width < 0x1_0000_0000,
                height < 0x1_0000_0000,
                ch <= 4,
        ;
        let need: u128 = (width as u128) * (height as u128) * (ch as u128);
        if need == data.len() as u128 {
            Some(Raster { width, height, color, data })
        } else {
            None
        }
    }
}

/// A rectangle lies inside a `w` by `h` image.
pub open spec fn box_fits(b: CropBox, w: int, h: int) -> bool {
    b.left + b.width <= w && b.top + b.height <= h
}

/// The bytes of the span `[left, left + cw)` of row `y`.
pub open spec fn crop_row(data: Seq<u8>, w: int, ch: int, left: int, cw: int, y: int) -> Seq<u8> {
    data.subrange((y * w + left) * ch, (y * w + left + cw) * ch)
}

/// The spans `[left, left + cw)` of rows `top .. top + n`, one after another.
pub open spec fn crop_rows(
    data: Seq<u8>,
    w: int,
    ch: int,
    left: int,
    top: int,
    cw: int,
    n: nat,
) -> Seq<u8>
    decreases n,
{
    if n == 0 {
        Seq::empty()
    } else {
        crop_rows(data, w, ch, left, top, cw, (n - 1) as nat) + crop_row(
            data,
            w,
            ch,
            left,
            cw,
            top + n - 1,
        )
    }
}

/// The bytes of the part of a raster that a rectangle covers.
pub open spec fn cropped_data(r: Raster, b: CropBox) -> Seq<u8> {
    crop_rows(r.data@, r.width as int, channels(r.color), b.left as int, b.top as int, b.width as int, b.height as nat)
}

/// Length of the cropped bytes.
pub proof fn lemma_crop_rows_len(
    data: Seq<u8>,
    w: int,
    h: int,
    ch: int,
    left: int,
    top: int,
    cw: int,
    n: nat,
)
    requires
        data.len() == w * h * ch,
        1 <= ch,
        0 <= left,
        0 <= top,
        0 <= cw,
        left + cw <= w,
        top + n <= h,
    ensures
        crop_rows(data, w, ch, left, top, cw, n).len() == n * cw * ch,
    decreases n,
{
    if n == 0 {
        assert(n * cw * ch == 0) by (nonlinear_arith)
            requires
                n == 0,
        ;
    } else {
        lemma_crop_rows_len(data, w, h, ch, left, top, cw, (n - 1) as nat);
        let y = top + n - 1;
        lemma_row_span(w, h, ch, y, left, cw);
        assert((n - 1) * cw * ch + cw * ch == n * cw * ch) by (nonlinear_arith);
    }
}

/// Byte `c` of pixel `(xx, yy)` of the cropped bytes is byte `c` of pixel
/// `(left + xx, top + yy)` of the source.
pub proof fn lemma_crop_rows_index(
    data: Seq<u8>,
    w: int,
    h: int,
    ch: int,
    left: int,
    top: int,
    cw: int,
    n: nat,
    xx: int,
    yy: int,
    c: int,
)
    requires
        data.len() == w * h * ch,
        1 <= ch,
        0 <= left,
        0 <= top,
        0 <= cw,
        left + cw <= w,
        top + n <= h,
        0 <= xx < cw,
        0 <= yy < n,
        0 <= c < ch,
    ensures
        0 <= (yy * cw + xx) * ch + c < n * cw * ch,
        0 <= ((top + yy) * w + left + xx) * ch + c < data.len(),
        crop_rows(data, w, ch, left, top, cw, n)[(yy * cw + xx) * ch + c] == data[((top + yy) * w
            + left + xx) * ch + c],
    decreases n,
{
    let i = (yy * cw + xx) * ch + c;
    lemma_crop_rows_len(data, w, h, ch, left, top, cw, (n - 1) as nat);
    lemma_row_span(w, h, ch, top + yy, left + xx, 1);
    assert(0 <= yy * cw) by (nonlinear_arith)
        requires
            0 <= yy,
            0 <= cw,
    ;
    assert(0 <= (yy * cw + xx) * ch) by (nonlinear_arith)
        requires
            0 <= yy * cw + xx,
            1 <= ch,
    ;
    assert(i < (yy + 1) * cw * ch) by (nonlinear_arith)
        requires
            i == (yy * cw + xx) * ch + c,
            xx < cw,
            c < ch,
            1 <= ch,
    ;
    assert((yy + 1) * cw * ch <= n * cw * ch) by (nonlinear_arith)
        requires
            yy + 1 <= n,
            0 <= cw,
            1 <= ch,
    ;
    if yy < n - 1 {
        assert((yy + 1) * cw * ch <= (n - 1) * cw * ch) by (nonlinear_arith)
            requires
                yy + 1 <= n - 1,
                0 <= cw,
                1 <= ch,
        ;
        lemma_crop_rows_index(data, w, h, ch, left, top, cw, (n - 1) as nat, xx, yy, c);
    } else {
        let y = top + n - 1;
        lemma_row_span(w, h, ch, y, left, cw);
        assert(i - (n - 1) * cw * ch == xx * ch + c) by (nonlinear_arith)
            requires
                i == (yy * cw + xx) * ch + c,
                yy == n - 1,
        ;
        assert((y * w + left) * ch + xx * ch + c == (y * w + left + xx) * ch + c) by (nonlinear_arith);
        assert(xx * ch + c < cw * ch) by (nonlinear_arith)
            requires
                xx < cw,
                c < ch,
                0 <= c,
        ;
        assert(0 <= xx * ch) by (nonlinear_arith)
            requires
                0 <= xx,
                1 <= ch,
        ;
    }
}

/// The part of a raster that a rectangle inside it covers.
pub fn crop(r: &Raster, b: CropBox) -> (out: Raster)
    requires
        r.wf(),
        box_fits(b, r.width as int, r.height as int),
    ensures
        out.wf(),
        out.width == b.width,
        out.height == b.height,
        out.color == r.color,
        out.data@ == cropped_data(*r, b),
{
    let ch = channel_count(r.color) as usize;
    let ghost w = r.width as int;
    let ghost h = r.height as int;
    let dlen = r.data.len();
    let mut out: Vec<u8> = Vec::new();
    let mut n: u32 = 0;
    while n < b.height
        invariant
            r.wf(),
            box_fits(b, w, h),
            w == r.width,
            h == r.height,
            ch as int == channels(r.color),
            1 <= ch <= 4,
            dlen == r.data@.len(),
            n <= b.height,
            out@ == crop_rows(r.data@, w, ch as int, b.left as int, b.top as int, b.width as int, n as nat),
        decreases b.height - n,
    {
        let y = b.top + n;
        proof {
            lemma_row_span(w, h, ch as int, y as int, b.left as int, b.width as int);
        }
        let start: usize = ((y as usize) * (r.width as usize) + (b.left as usize)) * ch;
        let end: usize = start + (b.width as usize) * ch;
        let mut k: usize = start;
        let ghost prefix = out@;
        while k < end
            invariant
                start <= k <= end,
                end <= r.data@.len(),
                out@ == prefix + r.data@.subrange(start as int, k as int),
            decreases end - k,
        {
            out.push(r.data[k]);
            proof {
                assert(r.data@.subrange(start as int, k + 1) =~= r.data@.subrange(start as int, k as int).push(r.data@[k as int]));
            }
            k = k + 1;
        }
        n = n + 1;
    }
    proof {
        lemma_crop_rows_len(r.data@, w, h, ch as int, b.left as int, b.top as int, b.width as int, b.height as nat);
        assert(b.width * b.height * ch == b.height * b.width * ch) by (nonlinear_arith);
    }
    Raster { width: b.width, height: b.height, color: r.color, data: out }
}

} // verus!
