use tarama::error::ScanError;
use tarama::page::EncodedPage;
use tarama::raster::{ColorKind, Raster};
use tarama::session::{DocumentScan, PageEvent, ScanStep};

fn page(shade: u8) -> Raster {
    let mut data = vec![255u8; 8 * 8];
    for y in 2..6 {
        for x in 2..6 {
            data[y * 8 + x] = shade;
        }
    }
    Raster::new(8, 8, ColorKind::L8, data).unwrap()
}

fn expect_scan(step: ScanStep, want_page: u32, want_pause: bool) -> DocumentScan {
    match step {
        ScanStep::Scan { session, page, pause_first } => {
            assert_eq!(page, want_page);
            assert_eq!(pause_first, want_pause);
            session
        }
        ScanStep::Done { .. } => panic!("scan ended early"),
    }
}

fn expect_pages(step: ScanStep) -> Vec<EncodedPage> {
    match step {
        ScanStep::Done { result: Ok(pages) } => pages,
        _ => panic!("expected the scanned pages"),
    }
}

fn expect_error(step: ScanStep) -> ScanError {
    match step {
        ScanStep::Done { result: Err(e) } => e,
        _ => panic!("expected an error"),
    }
}

#[test]
fn first_page_starts_without_pause() {
    expect_scan(DocumentScan::start(None, true, 85), 1, false);
    expect_scan(DocumentScan::start(Some(3), false, 85), 1, false);
}

#[test]
fn zero_pages_asked_scans_nothing() {
    let e = expect_error(DocumentScan::start(Some(0), true, 85));
    assert!(matches!(e, ScanError::NoPages));
}

#[test]
fn scan_stops_at_the_page_count() {
    let s = expect_scan(DocumentScan::start(Some(2), true, 85), 1, false);
    let s = expect_scan(s.step(PageEvent::Captured(page(0))), 2, true);
    let pages = expect_pages(s.step(PageEvent::Captured(page(50))));
    assert_eq!(pages.len(), 2);
    assert_eq!((pages[0].width, pages[0].height), (4, 4));
    assert_eq!(&pages[1].jpeg[..2], &[0xFF, 0xD8]);
}

#[test]
fn uncropped_pages_keep_their_size() {
    let s = expect_scan(DocumentScan::start(Some(1), false, 85), 1, false);
    let pages = expect_pages(s.step(PageEvent::Captured(page(0))));
    assert_eq!((pages[0].width, pages[0].height), (8, 8));
}

#[test]
fn empty_feeder_ends_the_scan_with_the_pages_so_far() {
    let s = expect_scan(DocumentScan::start(None, true, 85), 1, false);
    let s = expect_scan(s.step(PageEvent::Captured(page(0))), 2, true);
    let s = expect_scan(s.step(PageEvent::Captured(page(0))), 3, true);
    let pages = expect_pages(s.step(PageEvent::NoPage));
    assert_eq!(pages.len(), 2);
}

#[test]
fn empty_feeder_at_once_is_an_error() {
    let s = expect_scan(DocumentScan::start(None, true, 85), 1, false);
    assert!(matches!(expect_error(s.step(PageEvent::NoPage)), ScanError::NoPages));
}

#[test]
fn unreadable_image_fails_the_scan() {
    let s = expect_scan(DocumentScan::start(Some(5), true, 85), 1, false);
    let s = expect_scan(s.step(PageEvent::Captured(page(0))), 2, true);
    let e = expect_error(s.step(PageEvent::OpenFailed));
    assert!(matches!(e, ScanError::OpenFailed { page: 2 }));
    assert_eq!(e.message(), "Sayfa 2 açılamadı");
}

#[test]
fn unencodable_image_fails_the_scan() {
    let s = expect_scan(DocumentScan::start(Some(5), false, 85), 1, false);
    let empty = Raster::new(0, 0, ColorKind::L8, vec![]).unwrap();
    let e = expect_error(s.step(PageEvent::Captured(empty)));
    assert!(matches!(e, ScanError::EncodeFailed { page: 1 }));
}

#[test]
fn default_limit_is_one_hundred_pages() {
    let mut s = expect_scan(DocumentScan::start(None, false, 10), 1, false);
    for n in 2..=100u32 {
        s = expect_scan(s.step(PageEvent::Captured(Raster::new(1, 1, ColorKind::L8, vec![0]).unwrap())), n, true);
    }
    let pages = expect_pages(s.step(PageEvent::Captured(Raster::new(1, 1, ColorKind::L8, vec![0]).unwrap())));
    assert_eq!(pages.len(), 100);
}
