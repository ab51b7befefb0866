use tarama::error::ScanError;
use tarama::scan::{
    classify_run, page_file_name, scan_script, wait_step, PageRun, WaitStep, SCRIPT_CLOSE,
    SCRIPT_OPEN,
};
use tarama::profile::get_profile;
use tarama::text::{chars_equal, chars_of, decimal_string, trim_chars};

#[test]
fn decimal_writes_like_format() {
    for n in [0u32, 7, 10, 99, 100, 300, 4_294_967_295] {
        assert_eq!(decimal_string(n), format!("{}", n));
    }
}

#[test]
fn trim_removes_unicode_white_space() {
    let t = trim_chars(&chars_of(" \t\r\nOK\u{3000}\u{a0}\n"));
    assert_eq!(t.iter().collect::<String>(), "OK");
    let t = trim_chars(&chars_of("  \n "));
    assert!(t.is_empty());
    let t = trim_chars(&chars_of("a b"));
    assert_eq!(t.iter().collect::<String>(), "a b");
}

#[test]
fn equal_texts() {
    assert!(chars_equal(&chars_of("OK"), &chars_of("OK")));
    assert!(!chars_equal(&chars_of("OK"), &chars_of("Ok")));
    assert!(!chars_equal(&chars_of("OK"), &chars_of("OK ")));
    assert!(chars_equal(&chars_of(""), &chars_of("")));
}

#[test]
fn page_file_names() {
    assert_eq!(page_file_name(1), "scan_page_1.bmp");
    assert_eq!(page_file_name(42), "scan_page_42.bmp");
}

#[test]
fn script_carries_profile_and_path() {
    let p = get_profile("yuksek").ok().unwrap();
    let s = scan_script(&p, true, "C:\\Temp\\scan_page_3.bmp");
    assert!(s.starts_with(SCRIPT_OPEN));
    assert!(s.ends_with(SCRIPT_CLOSE));
    assert!(s.contains("$scanner.Properties(\"3088\").Value = 5 } catch {}"));
    assert!(s.contains("$item.Properties(\"6146\").Value = 1\n"));
    assert!(s.contains("$item.Properties(\"6147\").Value = 600\n"));
    assert!(s.contains("$item.Properties(\"6148\").Value = 600\n"));
    assert!(s.contains("$bmpFile = \"C:\\Temp\\scan_page_3.bmp\"\n"));
    let q = get_profile("hizli").ok().unwrap();
    let s = scan_script(&q, false, "x.bmp");
    assert!(s.contains("Value = 1 } catch {}"));
    assert!(s.contains("$item.Properties(\"6146\").Value = 2\n"));
    assert!(s.contains("$item.Properties(\"6147\").Value = 150\n"));
}

#[test]
fn waiting_gives_up_after_a_minute() {
    assert_eq!(wait_step(true, 90_000_000_000), WaitStep::Exited);
    assert_eq!(wait_step(false, 60_000_000_000), WaitStep::KeepWaiting);
    assert_eq!(wait_step(false, 60_000_000_001), WaitStep::GiveUp);
    assert_eq!(wait_step(false, 0), WaitStep::KeepWaiting);
}

#[test]
fn successful_run_with_ok_and_file_is_a_page() {
    assert_eq!(classify_run(true, "OK\r\n", true), PageRun::Captured);
    assert_eq!(classify_run(true, "  OK", true), PageRun::Captured);
    assert_eq!(classify_run(true, "OK", false), PageRun::NoPage);
    assert_eq!(classify_run(true, "OKAY", true), PageRun::NoPage);
    assert_eq!(classify_run(true, "", true), PageRun::NoPage);
}

#[test]
fn failed_run_gives_no_page() {
    // an empty feeder and any other failure alike end the scan without a page
    assert_eq!(classify_run(false, "", false), PageRun::NoPage);
    assert_eq!(classify_run(false, "OK", true), PageRun::NoPage);
}

#[test]
fn error_texts() {
    assert_eq!(ScanError::OpenFailed { page: 2 }.message(), "Sayfa 2 açılamadı");
    assert_eq!(ScanError::EncodeFailed { page: 12 }.message(), "Sayfa 12 JPEG dönüşümü başarısız");
    assert_eq!(ScanError::NoPages.message(), "Hiç sayfa taranamadı!");
}
