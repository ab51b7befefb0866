use tarama::autocrop::find_ink_box;
use tarama::page::{auto_crop, crop_to_ink, encode_page};
use tarama::raster::{crop, ColorKind, CropBox, Raster};

fn white_rgba(w: usize, h: usize) -> Vec<u8> {
    vec![255u8; w * h * 4]
}

fn ink(rgba: &mut Vec<u8>, w: usize, x: usize, y: usize) {
    let i = (y * w + x) * 4;
    rgba[i] = 10;
    rgba[i + 1] = 10;
    rgba[i + 2] = 10;
}

#[test]
fn box_encloses_all_ink() {
    let (w, h) = (10usize, 8usize);
    let mut px = white_rgba(w, h);
    ink(&mut px, w, 2, 3);
    ink(&mut px, w, 6, 5);
    ink(&mut px, w, 4, 1);
    let b = find_ink_box(&px, w as u32, h as u32).unwrap();
    assert_eq!(b, CropBox { left: 2, top: 1, width: 5, height: 5 });
}

#[test]
fn near_white_is_not_ink() {
    let (w, h) = (4usize, 4usize);
    let mut px = white_rgba(w, h);
    // 245 in every channel is still white; 244 in one channel is ink
    let i = (1 * w + 1) * 4;
    px[i] = 245;
    px[i + 1] = 245;
    px[i + 2] = 245;
    assert_eq!(find_ink_box(&px, 4, 4), Some(CropBox { left: 0, top: 0, width: 4, height: 4 }));
    let j = (2 * w + 2) * 4;
    px[j + 2] = 244;
    let k = (3 * w + 3) * 4;
    px[k + 1] = 0;
    assert_eq!(find_ink_box(&px, 4, 4), Some(CropBox { left: 2, top: 2, width: 2, height: 2 }));
}

#[test]
fn alpha_does_not_count() {
    let mut px = white_rgba(3, 3);
    px[(1 * 3 + 1) * 4 + 3] = 0;
    assert_eq!(find_ink_box(&px, 3, 3), Some(CropBox { left: 0, top: 0, width: 3, height: 3 }));
}

#[test]
fn blank_page_is_kept_whole() {
    let px = white_rgba(5, 4);
    assert_eq!(find_ink_box(&px, 5, 4), Some(CropBox { left: 0, top: 0, width: 5, height: 4 }));
    let px = white_rgba(1, 4);
    assert_eq!(find_ink_box(&px, 1, 4), Some(CropBox { left: 0, top: 0, width: 1, height: 4 }));
    assert_eq!(find_ink_box(&Vec::new(), 0, 0), None);
}

#[test]
fn single_line_of_ink_is_cropped_to_it() {
    let (w, h) = (6usize, 5usize);
    let mut px = white_rgba(w, h);
    ink(&mut px, w, 1, 2);
    ink(&mut px, w, 4, 2);
    assert_eq!(find_ink_box(&px, 6, 5), Some(CropBox { left: 1, top: 2, width: 4, height: 1 }));
    let mut px = white_rgba(w, h);
    ink(&mut px, w, 3, 0);
    ink(&mut px, w, 3, 4);
    assert_eq!(find_ink_box(&px, 6, 5), Some(CropBox { left: 3, top: 0, width: 1, height: 5 }));
    let mut px = white_rgba(w, h);
    ink(&mut px, w, 5, 4);
    assert_eq!(find_ink_box(&px, 6, 5), Some(CropBox { left: 5, top: 4, width: 1, height: 1 }));
}

#[test]
fn crop_takes_the_rectangle() {
    // a 4x3 grey image with pixel value 10*y + x
    let data: Vec<u8> = (0..3u8).flat_map(|y| (0..4u8).map(move |x| 10 * y + x)).collect();
    let r = Raster::new(4, 3, ColorKind::L8, data).unwrap();
    let c = crop(&r, CropBox { left: 1, top: 1, width: 2, height: 2 });
    assert_eq!((c.width, c.height, c.color), (2, 2, ColorKind::L8));
    assert_eq!(c.data, vec![11, 12, 21, 22]);
}

#[test]
fn raster_size_must_fit_its_bytes() {
    assert!(Raster::new(2, 2, ColorKind::Rgb8, vec![0; 12]).is_some());
    assert!(Raster::new(2, 2, ColorKind::Rgb8, vec![0; 11]).is_none());
    assert!(Raster::new(2, 2, ColorKind::Rgba8, vec![0; 12]).is_none());
    assert!(Raster::new(0, 0, ColorKind::L8, vec![]).is_some());
}

#[test]
fn auto_crop_grey_page() {
    // 8x6 white grey page with a dark block at x 2..=4, y 1..=3
    let mut data = vec![255u8; 8 * 6];
    for y in 1..=3 {
        for x in 2..=4 {
            data[y * 8 + x] = 0;
        }
    }
    let r = Raster::new(8, 6, ColorKind::L8, data).unwrap();
    let c = auto_crop(&r);
    assert_eq!((c.width, c.height, c.color), (3, 3, ColorKind::L8));
    assert_eq!(c.data, vec![0u8; 9]);
}

#[test]
fn auto_crop_rgb_page_keeps_layout() {
    let (w, h) = (5usize, 4usize);
    let mut data = vec![250u8; w * h * 3];
    // red pixel at (1,1) and blue pixel at (3,2)
    data[(1 * w + 1) * 3 + 1] = 0;
    data[(1 * w + 1) * 3 + 2] = 0;
    data[(2 * w + 3) * 3] = 0;
    let r = Raster::new(w as u32, h as u32, ColorKind::Rgb8, data).unwrap();
    let c = auto_crop(&r);
    assert_eq!((c.width, c.height, c.color), (3, 2, ColorKind::Rgb8));
    assert_eq!(
        c.data,
        vec![250, 0, 0, 250, 250, 250, 250, 250, 250, 250, 250, 250, 250, 250, 250, 0, 250, 250]
    );
}

#[test]
fn auto_crop_is_idempotent() {
    let (w, h) = (9usize, 7usize);
    let mut px = white_rgba(w, h);
    ink(&mut px, w, 2, 2);
    ink(&mut px, w, 6, 5);
    let r = Raster::new(w as u32, h as u32, ColorKind::Rgba8, px).unwrap();
    let once = auto_crop(&r);
    assert_eq!((once.width, once.height), (5, 4));
    let twice = auto_crop(&once);
    assert_eq!((twice.width, twice.height), (once.width, once.height));
    assert_eq!(twice.data, once.data);
}

#[test]
fn auto_crop_rgb_is_idempotent() {
    let (w, h) = (7usize, 6usize);
    let mut data = vec![255u8; w * h * 3];
    data[(1 * w + 2) * 3] = 0;
    data[(4 * w + 5) * 3 + 2] = 100;
    let r = Raster::new(w as u32, h as u32, ColorKind::Rgb8, data).unwrap();
    let once = auto_crop(&r);
    assert_eq!((once.width, once.height), (4, 4));
    let twice = auto_crop(&once);
    assert_eq!((twice.width, twice.height, twice.data.clone()), (once.width, once.height, once.data));
}

#[test]
fn auto_crop_grey_is_idempotent() {
    let (w, h) = (9usize, 8usize);
    let mut data = vec![250u8; w * h];
    data[2 * w + 3] = 30;
    data[6 * w + 7] = 200;
    let r = Raster::new(w as u32, h as u32, ColorKind::L8, data).unwrap();
    let once = auto_crop(&r);
    assert_eq!((once.width, once.height), (5, 5));
    let twice = auto_crop(&once);
    assert_eq!((twice.width, twice.height, twice.data.clone()), (once.width, once.height, once.data));
}

#[test]
fn one_row_grey_page_is_cropped_to_the_row() {
    let mut data = vec![255u8; 5 * 4];
    data[2 * 5 + 1] = 0;
    data[2 * 5 + 3] = 0;
    let r = Raster::new(5, 4, ColorKind::L8, data).unwrap();
    let c = auto_crop(&r);
    assert_eq!((c.width, c.height), (3, 1));
    assert_eq!(c.data, vec![0, 255, 0]);
}

#[test]
fn crop_to_ink_uses_the_given_copy() {
    let r = Raster::new(3, 3, ColorKind::L8, vec![255; 9]).unwrap();
    let mut rgba = white_rgba(3, 3);
    ink(&mut rgba, 3, 1, 1);
    ink(&mut rgba, 3, 2, 2);
    let c = crop_to_ink(&r, &rgba);
    assert_eq!((c.width, c.height), (2, 2));
}

#[test]
fn encoded_page_is_a_jpeg_of_the_cropped_size() {
    let mut data = vec![255u8; 16 * 16];
    for y in 4..12 {
        for x in 2..10 {
            data[y * 16 + x] = 0;
        }
    }
    let r = Raster::new(16, 16, ColorKind::L8, data.clone()).unwrap();
    let p = encode_page(r, true, 85, 1).ok().unwrap();
    assert_eq!((p.width, p.height), (8, 8));
    assert_eq!(&p.jpeg[..2], &[0xFF, 0xD8]);
    let r = Raster::new(16, 16, ColorKind::L8, data).unwrap();
    let q = encode_page(r, false, 85, 1).ok().unwrap();
    assert_eq!((q.width, q.height), (16, 16));
    assert_eq!(&q.jpeg[..2], &[0xFF, 0xD8]);
}

#[test]
fn rgba_page_encodes() {
    let r = Raster::new(4, 4, ColorKind::Rgba8, vec![128; 64]).unwrap();
    let p = encode_page(r, true, 50, 1).ok().unwrap();
    assert_eq!((p.width, p.height), (4, 4));
    assert_eq!(&p.jpeg[..2], &[0xFF, 0xD8]);
}

#[test]
fn too_wide_page_fails_to_encode() {
    let r = Raster::new(65_536, 1, ColorKind::L8, vec![0; 65_536]).unwrap();
    match encode_page(r, false, 85, 2) {
        Err(e) => assert_eq!(e.message(), "Sayfa 2 JPEG dönüşümü başarısız"),
        Ok(_) => panic!("a JPEG side is at most 65535 pixels"),
    }
    let r = Raster::new(65_535, 1, ColorKind::L8, vec![0; 65_535]).unwrap();
    assert!(encode_page(r, false, 85, 2).is_ok());
}

#[test]
fn empty_page_fails_to_encode() {
    let r = Raster::new(0, 0, ColorKind::Rgb8, vec![]).unwrap();
    match encode_page(r, false, 85, 3) {
        Err(e) => assert_eq!(e.message(), "Sayfa 3 JPEG dönüşümü başarısız"),
        Ok(_) => panic!("a JPEG file needs at least one pixel"),
    }
}

#[test]
fn bmp_file_is_read_into_a_raster() {
    let mut img = image::RgbImage::new(3, 2);
    img.put_pixel(1, 0, image::Rgb([10, 20, 30]));
    let mut bytes = std::io::Cursor::new(Vec::new());
    img.write_to(&mut bytes, image::ImageFormat::Bmp).unwrap();
    let r = tarama::page::read_page(bytes.get_ref()).unwrap();
    assert_eq!((r.width, r.height, r.color), (3, 2, ColorKind::Rgb8));
    assert_eq!(r.data.len(), 18);
    assert_eq!(&r.data[3..6], &[10, 20, 30]);
    assert!(tarama::page::read_page(b"not an image").is_none());
}
