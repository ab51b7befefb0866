use tarama::error::ScanError;
use tarama::page::EncodedPage;
use tarama::profile::get_profile;
use tarama::reply::{default_quality, finish_scan, health_status, plan_scan, resolve_request, ScanRequest};

fn request(profile: &str) -> ScanRequest {
    ScanRequest { duplex: true, profile: profile.to_string(), auto_crop: false, pages: Some(3), quality: 95 }
}

#[test]
fn health_reports_the_scanner() {
    let h = health_status();
    assert_eq!(h.status, "ok");
    assert_eq!(h.scanner, "Fujitsu fi-8150U");
}

#[test]
fn missing_body_gets_defaults() {
    let r = resolve_request(None);
    assert!(!r.duplex);
    assert_eq!(r.profile, "renkli");
    assert!(r.auto_crop);
    assert_eq!(r.pages, None);
    assert_eq!(r.quality, 85);
    assert_eq!(default_quality(), 85);
}

#[test]
fn body_settings_are_kept() {
    let r = resolve_request(Some(request("yuksek")));
    assert!(r.duplex);
    assert_eq!(r.profile, "yuksek");
    assert!(!r.auto_crop);
    assert_eq!(r.pages, Some(3));
    assert_eq!(r.quality, 95);
}

#[test]
fn unknown_profile_is_a_bad_request() {
    match plan_scan(request("mavi")) {
        Err(reply) => {
            assert_eq!(reply.status, 400);
            let b = reply.body;
            assert!(!b.success);
            assert!(b.images.is_none() && b.format.is_none() && b.page_count.is_none());
            assert!(b.duplex);
            assert!(!b.auto_crop);
            assert_eq!(b.profile.as_deref(), Some("mavi"));
            assert_eq!(
                b.error.as_deref(),
                Some("Geçersiz profil: 'mavi'. Geçerli profiller: hizli, standart, renkli, yuksek, siyah-beyaz")
            );
        }
        Ok(_) => panic!("profile should be refused"),
    }
}

#[test]
fn known_profile_is_planned() {
    let (req, p) = plan_scan(request("standart")).ok().unwrap();
    assert_eq!(req.profile, "standart");
    assert_eq!((p.color_mode, p.dpi), (2, 300));
}

#[test]
fn scanned_pages_are_numbered_and_encoded() {
    let req = request("renkli");
    let p = get_profile("renkli").ok().unwrap();
    let pages = vec![
        EncodedPage { jpeg: b"abc".to_vec(), width: 100, height: 200 },
        EncodedPage { jpeg: b"hello".to_vec(), width: 7, height: 9 },
        EncodedPage { jpeg: vec![], width: 1, height: 1 },
        EncodedPage { jpeg: vec![0xFF, 0xD8, 0xFF, 0xE0, 0x00, 0x10, 0xFB], width: 2, height: 2 },
    ];
    let reply = finish_scan(&req, &p, &Ok(pages));
    assert_eq!(reply.status, 200);
    let b = reply.body;
    assert!(b.success);
    assert_eq!(b.format.as_deref(), Some("jpeg"));
    assert_eq!(b.page_count, Some(4));
    assert_eq!(b.profile.as_deref(), Some("Renkli Belge"));
    assert!(b.error.is_none());
    assert!(b.duplex && !b.auto_crop);
    let imgs = b.images.unwrap();
    assert_eq!(imgs.len(), 4);
    assert_eq!(imgs[0].image, "YWJj");
    assert_eq!(imgs[1].image, "aGVsbG8=");
    assert_eq!(imgs[2].image, "");
    assert_eq!(imgs[3].image, "/9j/4AAQ+w==");
    assert_eq!(imgs[3].page, 4);
    assert_eq!((imgs[0].width, imgs[0].height, imgs[0].dpi, imgs[0].page), (100, 200, 300, 1));
    assert_eq!((imgs[1].page, imgs[2].page), (2, 3));
}

#[test]
fn failed_scan_is_a_server_error() {
    let req = request("hizli");
    let p = get_profile("hizli").ok().unwrap();
    let reply = finish_scan(&req, &p, &Err(ScanError::NoPages));
    assert_eq!(reply.status, 500);
    let b = reply.body;
    assert!(!b.success);
    assert!(b.images.is_none() && b.format.is_none() && b.page_count.is_none());
    assert_eq!(b.profile.as_deref(), Some("Hızlı Tarama"));
    assert_eq!(b.error.as_deref(), Some("Hiç sayfa taranamadı!"));
}
