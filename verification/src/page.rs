use vstd::prelude::*;
use image::codecs::jpeg::JpegEncoder;
use image::{DynamicImage, ImageBuffer, ImageError, ImageFormat};
use crate::arith::lemma_row_span;
use crate::autocrop::{
    crop_rgba, find_ink_box, ink_box, is_ink, law_crop_is_stable, law_inked_page_is_cropped, lemma_box_fits, lemma_crop_whole,
    lemma_cropped_ink, lemma_ink_box_same, same_ink, INK_LEVEL,
};
use vstd::arithmetic::div_mod::lemma_fundamental_div_mod_converse;
use crate::error::ScanError;
use crate::raster::{
    ColorKind, Raster, channels, crop, crop_rows, lemma_crop_rows_index, lemma_crop_rows_len,
};

verus! {

#[verifier::external_type_specification]
#[verifier::external_body]
pub struct ExImageError(ImageError);

/// The bytes of the RGBA copy that the image crate makes of an image
/// (`DynamicImage::to_rgba8`), four bytes per pixel, row after row.
pub uninterp spec fn rgba_of(width: u32, height: u32, color: ColorKind, data: Seq<u8>) -> Seq<u8>;

/// The bytes of an RGB image as RGBA: each pixel keeps its three values and
/// gets alpha 255.
pub open spec fn rgb_to_rgba(data: Seq<u8>) -> Seq<u8> {
    Seq::new(
        (data.len() / 3 * 4) as nat,
        |i: int|
            if i % 4 == 3 {
                255u8
            } else {
                data[(i / 4) * 3 + i % 4]
            },
    )
}

/// The RGBA copy that the image crate makes of a one-pixel grey image of value `v`.
pub open spec fn grey_pixel_rgba(v: u8) -> Seq<u8> {
    rgba_of(1, 1, ColorKind::L8, seq![v])
}

/// The bytes of a grey image as RGBA, pixel by pixel: each grey value becomes
/// the RGBA copy of the one-pixel image of that value.
pub open spec fn grey_to_rgba(data: Seq<u8>) -> Seq<u8> {
    Seq::new((data.len() * 4) as nat, |i: int| grey_pixel_rgba(data[i / 4])[i % 4])
}

/// The RGBA copy of an image that the white-border crop judges: the image
/// itself for RGBA, the RGB values with alpha 255 for RGB, and the pixel by
/// pixel copy for grey.
pub open spec fn rgba_copy_of(width: u32, height: u32, color: ColorKind, data: Seq<u8>) -> Seq<u8> {
    match color {
        ColorKind::Rgba8 => data,
        ColorKind::Rgb8 => rgb_to_rgba(data),
        ColorKind::L8 => grey_to_rgba(data),
    }
}

/// The JPEG file of quality `quality` that the image crate writes for an
/// image (`DynamicImage::write_with_encoder` with
/// `JpegEncoder::new_with_quality`), or `None` where it fails.
pub uninterp spec fn jpeg_of(width: u32, height: u32, color: ColorKind, quality: u8, data: Seq<u8>) -> Option<
    Seq<u8>,
>;

/// Calls `DynamicImage::to_rgba8` of the image crate on the image that the
/// arguments describe and hands out the raw bytes. Claimed: the result is
/// `rgba_of` of the arguments; it has four bytes per pixel (`RgbaImage` has
/// the size of the source); for an image that already is RGBA it is the
/// image's own bytes (the crate clones the buffer then); for an RGB image each
/// pixel keeps its three values and gets alpha 255 (the crate's plain
/// RGB-to-RGBA cast, `subpixel_cast_rgb_to_rgba`); for a grey image each
/// pixel is converted on its own (`cast_pixels_by_fallback` expands, converts
/// and clamps pixel by pixel), so pixel `p` of the copy is the copy of the
/// one-pixel image of grey value `data[p]`. What that copy of one grey value
/// is goes through floating point and is not stated beyond the name.
#[verifier::external_body]
fn rgba_copy(width: u32, height: u32, color: ColorKind, data: &[u8]) -> (out: Vec<u8>)
    requires
        data@.len() == width * height * channels(color),
        width * height * 4 <= usize::MAX,
    ensures
        out@ == rgba_of(width, height, color, data@),
        out@.len() == width * height * 4,
        color == ColorKind::Rgba8 ==> out@ == data@,
        color == ColorKind::Rgb8 ==> out@ == rgb_to_rgba(data@),
        color == ColorKind::L8 ==> out@ == grey_to_rgba(data@),
{
    let b = data.to_vec();
    let img = match color {
        ColorKind::L8 => DynamicImage::ImageLuma8(ImageBuffer::from_raw(width, height, b).unwrap()),
        ColorKind::Rgb8 => DynamicImage::ImageRgb8(ImageBuffer::from_raw(width, height, b).unwrap()),
        ColorKind::Rgba8 => DynamicImage::ImageRgba8(ImageBuffer::from_raw(width, height, b).unwrap()),
    };
    img.to_rgba8().into_raw()
}

/// Calls `DynamicImage::write_with_encoder` of the image crate with a
/// `JpegEncoder::new_with_quality(_, quality)` writing into memory, on the
/// image that the arguments describe. Claimed: the bytes written, or the
/// failure, are `jpeg_of` of the arguments; it fails exactly where a side
/// of the image is 0 or above 65535 (`JpegEncoder::encode_image`; writing
/// into a `Vec` does not fail, and grey and RGB, the layouts it is handed
/// after the conversion of RGBA, are supported).
#[verifier::external_body]
fn jpeg_file(width: u32, height: u32, color: ColorKind, quality: u8, data: &[u8]) -> (r: Result<Vec<u8>, ImageError>)
    requires
        data@.len() == width * height * channels(color),
    ensures
        match r {
            Ok(v) => jpeg_of(width, height, color, quality, data@) == Some(v@),
            Err(_) => jpeg_of(width, height, color, quality, data@) is None,
        },
        r is Ok <==> (1 <= width <= 65535 && 1 <= height <= 65535),
{
    let b = data.to_vec();
    let img = match color {
        ColorKind::L8 => DynamicImage::ImageLuma8(ImageBuffer::from_raw(width, height, b).unwrap()),
        ColorKind::Rgb8 => DynamicImage::ImageRgb8(ImageBuffer::from_raw(width, height, b).unwrap()),
        ColorKind::Rgba8 => DynamicImage::ImageRgba8(ImageBuffer::from_raw(width, height, b).unwrap()),
    };
    let mut out: Vec<u8> = Vec::new();
    img.write_with_encoder(JpegEncoder::new_with_quality(&mut out, quality))?;
    Ok(out)
}

/// The size and bytes of an image after the white-border crop, where `rgba`
/// is its RGBA copy.
pub open spec fn auto_cropped_parts(
    width: u32,
    height: u32,
    color: ColorKind,
    data: Seq<u8>,
    rgba: Seq<u8>,
) -> (u32, u32, Seq<u8>) {
    match ink_box(rgba, width as int, height as int) {
        Some(b) => (
            b.width,
            b.height,
            crop_rows(data, width as int, channels(color), b.left as int, b.top as int, b.width as int, b.height as nat),
        ),
        None => (width, height, data),
    }
}

/// The size and bytes of an image after the white-border crop, where `rgba`
/// is its RGBA copy.
pub open spec fn auto_cropped(img: Raster, rgba: Seq<u8>) -> (u32, u32, Seq<u8>) {
    auto_cropped_parts(img.width, img.height, img.color, img.data@, rgba)
}

/// The size and bytes of an image after the white-border crop.
pub open spec fn auto_crop_of(width: u32, height: u32, color: ColorKind, data: Seq<u8>) -> (u32, u32, Seq<u8>) {
    auto_cropped_parts(width, height, color, data, rgba_copy_of(width, height, color, data))
}

fn copy_raster(img: &Raster) -> (out: Raster)
    requires
        img.wf(),
    ensures
        out.wf(),
        out.width == img.width,
        out.height == img.height,
        out.color == img.color,
        out.data@ == img.data@,
{
    let mut data: Vec<u8> = Vec::new();
    let mut i: usize = 0;
    while i < img.data.len()
        invariant
            i <= img.data@.len(),
            data@ == img.data@.subrange(0, i as int),
        decreases img.data@.len() - i,
    {
        data.push(img.data[i]);
        assert(img.data@.subrange(0, i + 1) =~= img.data@.subrange(0, i as int).push(img.data@[i as int]));
        i = i + 1;
    }
    assert(img.data@.subrange(0, img.data@.len() as int) =~= img.data@);
    Raster { width: img.width, height: img.height, color: img.color, data }
}

/// The white-border crop of an image, given its RGBA copy: the image cut to
/// the rectangle that `ink_box` finds on the copy, or the image unchanged
/// where it finds none.
pub fn crop_to_ink(img: &Raster, rgba: &Vec<u8>) -> (out: Raster)
    requires
        img.wf(),
        rgba@.len() == img.width * img.height * 4,
        img.height > 0 || img.width == 0,
    ensures
        out.wf(),
        out.color == img.color,
        (out.width, out.height, out.data@) == auto_cropped(*img, rgba@),
{
    match find_ink_box(rgba, img.width, img.height) {
        Some(b) => crop(img, b),
        None => copy_raster(img),
    }
}

/// The white-border crop of a scanned page: rows and columns of near-white
/// pixels around the content are cut away, judged on the page's RGBA copy.
pub fn auto_crop(img: &Raster) -> (out: Raster)
    requires
        img.wf(),
        img.height > 0 || img.width == 0,
        img.width * img.height * 4 <= usize::MAX,
    ensures
        out.wf(),
        out.color == img.color,
        (out.width, out.height, out.data@) == auto_crop_of(img.width, img.height, img.color, img.data@),
{
    let rgba = rgba_copy(img.width, img.height, img.color, img.data.as_slice());
    let out = crop_to_ink(img, &rgba);
    proof {
        if ink_box(rgba@, img.width as int, img.height as int) is Some {
            lemma_box_fits(rgba@, img.width as int, img.height as int);
        }
    }
    out
}

/// A scanned page encoded for the reply: the JPEG file and the image size.
pub struct EncodedPage {
    pub jpeg: Vec<u8>,
    pub width: u32,
    pub height: u32,
}

/// The size and bytes of a page image as it is encoded: cropped when the
/// crop is asked for, else as scanned.
pub open spec fn page_image(img: Raster, crop_borders: bool) -> (u32, u32, Seq<u8>) {
    if crop_borders {
        auto_crop_of(img.width, img.height, img.color, img.data@)
    } else {
        (img.width, img.height, img.data@)
    }
}

/// Turns page `page` of a scan into the JPEG file of the reply, of quality
/// `quality`, cropping its white border first when `crop_borders` is set.
pub fn encode_page(img: Raster, crop_borders: bool, quality: u8, page: u32) -> (r: Result<EncodedPage, ScanError>)
    requires
        img.wf(),
        crop_borders ==> img.height > 0 || img.width == 0,
        crop_borders ==> img.width * img.height * 4 <= usize::MAX,
    ensures
        ({
            let (w, h, d) = page_image(img, crop_borders);
            &&& match r {
                Ok(p) => p.width == w && p.height == h && jpeg_of(w, h, img.color, quality, d) == Some(p.jpeg@),
                Err(e) => jpeg_of(w, h, img.color, quality, d) is None && e == ScanError::EncodeFailed { page },
            }
            &&& (r is Ok <==> (1 <= w <= 65535 && 1 <= h <= 65535))
        }),
        r matches Ok(p) ==> if crop_borders {
            p.width == auto_crop_of(img.width, img.height, img.color, img.data@).0 && p.height
                == auto_crop_of(img.width, img.height, img.color, img.data@).1
        } else {
            p.width == img.width && p.height == img.height
        },
{
    let shown = if crop_borders {
        auto_crop(&img)
    } else {
        img
    };
    match jpeg_file(shown.width, shown.height, shown.color, quality, shown.data.as_slice()) {
        Ok(jpeg) => Ok(EncodedPage { jpeg, width: shown.width, height: shown.height }),
        Err(_) => Err(ScanError::EncodeFailed { page }),
    }
}

/// Pixel `(x, y)` of a `w`-wide RGB image is ink.
pub open spec fn rgb_ink(data: Seq<u8>, w: int, x: int, y: int) -> bool {
    let i = (y * w + x) * 3;
    data[i] < INK_LEVEL || data[i + 1] < INK_LEVEL || data[i + 2] < INK_LEVEL
}

/// The RGBA copy of an RGB image has four bytes per pixel, and a pixel of it
/// is ink exactly when the RGB pixel is.
pub proof fn lemma_rgb_ink(data: Seq<u8>, w: int, h: int, x: int, y: int)
    requires
        data.len() == w * h * 3,
        0 <= x < w,
        0 <= y < h,
    ensures
        rgb_to_rgba(data).len() == w * h * 4,
        is_ink(rgb_to_rgba(data), w, x, y) == rgb_ink(data, w, x, y),
{
    lemma_row_span(w, h, 3, y, x, 1);
    lemma_row_span(w, h, 4, y, x, 1);
    assert(0 <= w * h) by (nonlinear_arith)
        requires
            0 <= x < w,
            0 <= y < h,
    ;
    lemma_fundamental_div_mod_converse(data.len() as int, 3, w * h, 0);
    let p = y * w + x;
    let e = rgb_to_rgba(data);
    lemma_fundamental_div_mod_converse(p * 4 + 0, 4, p, 0);
    lemma_fundamental_div_mod_converse(p * 4 + 1, 4, p, 1);
    lemma_fundamental_div_mod_converse(p * 4 + 2, 4, p, 2);
    assert(e[p * 4 + 0] == data[p * 3 + 0]);
    assert(e[p * 4 + 1] == data[p * 3 + 1]);
    assert(e[p * 4 + 2] == data[p * 3 + 2]);
}

/// A grey pixel is ink in the RGBA copy by its grey value alone.
pub open spec fn grey_ink(v: u8) -> bool {
    let q = grey_pixel_rgba(v);
    q[0] < INK_LEVEL || q[1] < INK_LEVEL || q[2] < INK_LEVEL
}

/// The RGBA copy of a grey image has four bytes per pixel, and a pixel of it
/// is ink exactly when its grey value is.
pub proof fn lemma_grey_ink(data: Seq<u8>, w: int, h: int, x: int, y: int)
    requires
        data.len() == w * h,
        0 <= x < w,
        0 <= y < h,
    ensures
        grey_to_rgba(data).len() == w * h * 4,
        0 <= y * w + x < data.len(),
        is_ink(grey_to_rgba(data), w, x, y) == grey_ink(data[y * w + x]),
{
    lemma_row_span(w, h, 1, y, x, 1);
    lemma_row_span(w, h, 4, y, x, 1);
    let p = y * w + x;
    let e = grey_to_rgba(data);
    lemma_fundamental_div_mod_converse(p * 4 + 0, 4, p, 0);
    lemma_fundamental_div_mod_converse(p * 4 + 1, 4, p, 1);
    lemma_fundamental_div_mod_converse(p * 4 + 2, 4, p, 2);
    assert(e[p * 4 + 0] == grey_pixel_rgba(data[p])[0]);
    assert(e[p * 4 + 1] == grey_pixel_rgba(data[p])[1]);
    assert(e[p * 4 + 2] == grey_pixel_rgba(data[p])[2]);
}

/// The white-border crop of a page is idempotent: cropping the cropped page
/// changes nothing.
pub proof fn law_auto_crop_idempotent(width: u32, height: u32, color: ColorKind, data: Seq<u8>)
    requires
        data.len() == width * height * channels(color),
        height > 0 || width == 0,
    ensures
        ({
            let (w1, h1, d1) = auto_crop_of(width, height, color, data);
            auto_crop_of(w1, h1, color, d1) == (w1, h1, d1)
        }),
{
    let w = width as int;
    let h = height as int;
    let ch = channels(color);
    let e = rgba_copy_of(width, height, color, data);
    if color == ColorKind::Rgb8 || color == ColorKind::L8 {
        if w > 0 && h > 0 {
            if color == ColorKind::Rgb8 {
                lemma_rgb_ink(data, w, h, 0, 0);
            } else {
                lemma_grey_ink(data, w, h, 0, 0);
            }
        } else {
            assert(w * h == 0) by (nonlinear_arith)
                requires
                    w == 0 || h == 0,
            ;
        }
    }
    assert(e.len() == w * h * 4);
    if ink_box(e, w, h) is Some {
        let b = ink_box(e, w, h)->0;
        lemma_box_fits(e, w, h);
        law_crop_is_stable(e, w, h);
        let cw = b.width as int;
        let chh = b.height as int;
        let l = b.left as int;
        let t = b.top as int;
        let d1 = crop_rows(data, w, ch, l, t, cw, chh as nat);
        lemma_crop_rows_len(data, w, h, ch, l, t, cw, chh as nat);
        assert(chh * cw * ch == cw * chh * ch) by (nonlinear_arith);
        let e1 = rgba_copy_of(b.width, b.height, color, d1);
        let c = crop_rgba(e, w, b);
        if color == ColorKind::Rgba8 {
            assert(e1 == c);
        } else if color == ColorKind::L8 {
            assert forall|xx: int, yy: int| 0 <= xx < cw && 0 <= yy < chh implies #[trigger] is_ink(
                e1,
                cw,
                xx,
                yy,
            ) == #[trigger] is_ink(c, cw, xx, yy) by {
                lemma_grey_ink(d1, cw, chh, xx, yy);
                lemma_grey_ink(data, w, h, l + xx, t + yy);
                lemma_cropped_ink(e, w, h, b, xx, yy);
                lemma_crop_rows_index(data, w, h, 1, l, t, cw, chh as nat, xx, yy, 0);
                assert((yy * cw + xx) * 1 + 0 == yy * cw + xx);
                assert(((t + yy) * w + l + xx) * 1 + 0 == (t + yy) * w + (l + xx));
            }
        } else {
            assert forall|xx: int, yy: int| 0 <= xx < cw && 0 <= yy < chh implies #[trigger] is_ink(
                e1,
                cw,
                xx,
                yy,
            ) == #[trigger] is_ink(c, cw, xx, yy) by {
                lemma_rgb_ink(d1, cw, chh, xx, yy);
                lemma_rgb_ink(data, w, h, l + xx, t + yy);
                lemma_cropped_ink(e, w, h, b, xx, yy);
                lemma_crop_rows_index(data, w, h, 3, l, t, cw, chh as nat, xx, yy, 0);
                lemma_crop_rows_index(data, w, h, 3, l, t, cw, chh as nat, xx, yy, 1);
                lemma_crop_rows_index(data, w, h, 3, l, t, cw, chh as nat, xx, yy, 2);
                assert((t + yy) * w + l + xx == (t + yy) * w + (l + xx));
            }
        }
        assert(same_ink(e1, c, cw, chh));
        lemma_ink_box_same(e1, c, cw, chh);
        lemma_crop_whole(d1, cw, chh, ch, chh as nat);
        assert(d1.subrange(0, chh * cw * ch) =~= d1);
    }
}

/// The image that the image crate decodes from the bytes of a BMP file
/// (`load_from_memory_with_format` with `ImageFormat::Bmp`): its width,
/// height, layout and pixel bytes, or `None` where decoding fails.
pub uninterp spec fn bmp_image_of(bytes: Seq<u8>) -> Option<(u32, u32, ColorKind, Seq<u8>)>;

/// Calls `image::load_from_memory_with_format` with `ImageFormat::Bmp` (what
/// `image::open` does for a `.bmp` path, with the same default limits) and
/// hands out the decoded image's size, layout and raw bytes. Claimed: the
/// result is `bmp_image_of` the bytes; the bytes hold one pixel for each
/// position (the decoder allocates exactly `total_bytes`). The BMP decoder
/// yields only grey, RGB and RGBA images (`codecs/bmp/decoder.rs`), so the
/// last arm never runs.
#[verifier::external_body]
fn decode_bmp(bytes: &[u8]) -> (r: Option<(u32, u32, ColorKind, Vec<u8>)>)
    ensures
        match r {
            Some((w, h, c, d)) => bmp_image_of(bytes@) == Some((w, h, c, d@)) && d@.len() == w * h
                * channels(c),
            None => bmp_image_of(bytes@) is None,
        },
{
    let img = image::load_from_memory_with_format(bytes, ImageFormat::Bmp).ok()?;
    let (w, h) = (img.width(), img.height());
    match img {
        DynamicImage::ImageLuma8(b) => Some((w, h, ColorKind::L8, b.into_raw())),
        DynamicImage::ImageRgb8(b) => Some((w, h, ColorKind::Rgb8, b.into_raw())),
        DynamicImage::ImageRgba8(b) => Some((w, h, ColorKind::Rgba8, b.into_raw())),
        _ => None,
    }
}

/// Reads the scanned image of a page from the bytes of its BMP file; `None`
/// where they do not decode.
pub fn read_page(bytes: &[u8]) -> (r: Option<Raster>)
    ensures
        match bmp_image_of(bytes@) {
            Some((w, h, c, d)) => r matches Some(img) && img.wf() && img.width == w && img.height
                == h && img.color == c && img.data@ == d,
            None => r is None,
        },
{
    match decode_bmp(bytes) {
        Some((width, height, color, data)) => Some(Raster { width, height, color, data }),
        None => None,
    }
}

/// The image that a page is encoded from: with the crop asked for, the
/// white-border crop of the page, whatever its pixel layout; without it, the
/// page as scanned.
pub proof fn law_page_image(img: Raster)
    ensures
        page_image(img, true) == auto_crop_of(img.width, img.height, img.color, img.data@),
        page_image(img, false) == (img.width, img.height, img.data@),
{
}

/// With the crop asked for, a page with ink is encoded at the size of the
/// bounding box of the ink on its RGBA copy, for every pixel layout.
pub proof fn law_inked_page_encoded_at_ink_box(img: Raster, x0: int, y0: int)
    requires
        0 <= x0 < img.width,
        0 <= y0 < img.height,
        is_ink(rgba_copy_of(img.width, img.height, img.color, img.data@), img.width as int, x0, y0),
    ensures
        ({
            let e = rgba_copy_of(img.width, img.height, img.color, img.data@);
            let b = ink_box(e, img.width as int, img.height as int);
            &&& b is Some
            &&& page_image(img, true).0 == b->0.width
            &&& page_image(img, true).1 == b->0.height
            &&& forall|x: int, y: int|
                0 <= x < img.width && 0 <= y < img.height && #[trigger] is_ink(e, img.width as int, x, y)
                    ==> b->0.left <= x < b->0.left + b->0.width && b->0.top <= y < b->0.top
                    + b->0.height
        }),
{
    let e = rgba_copy_of(img.width, img.height, img.color, img.data@);
    law_inked_page_is_cropped(e, img.width as int, img.height as int, x0, y0);
}

} // verus!
