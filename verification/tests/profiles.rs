use tarama::profile::{default_profile, default_true, get_profile};

#[test]
fn profile_hizli_is_grey_150() {
    let p = get_profile("hizli").ok().unwrap();
    assert_eq!((p.color_mode, p.dpi, p.name.as_str()), (2, 150, "Hızlı Tarama"));
}

#[test]
fn profile_standart_is_grey_300() {
    let p = get_profile("standart").ok().unwrap();
    assert_eq!((p.color_mode, p.dpi, p.name.as_str()), (2, 300, "Standart Belge"));
}

#[test]
fn profile_renkli_is_colour_300() {
    let p = get_profile("renkli").ok().unwrap();
    assert_eq!((p.color_mode, p.dpi, p.name.as_str()), (1, 300, "Renkli Belge"));
}

#[test]
fn profile_yuksek_is_colour_600() {
    let p = get_profile("yuksek").ok().unwrap();
    assert_eq!((p.color_mode, p.dpi, p.name.as_str()), (1, 600, "Yüksek Kalite"));
}

#[test]
fn profile_siyah_beyaz_is_black_white_300() {
    let p = get_profile("siyah-beyaz").ok().unwrap();
    assert_eq!((p.color_mode, p.dpi, p.name.as_str()), (4, 300, "Siyah-Beyaz"));
}

#[test]
fn unknown_profile_is_refused_with_its_key() {
    let e = get_profile("RENKLI").err().unwrap();
    assert_eq!(e.key, "RENKLI");
    assert_eq!(
        e.message(),
        "Geçersiz profil: 'RENKLI'. Geçerli profiller: hizli, standart, renkli, yuksek, siyah-beyaz"
    );
    assert!(get_profile("").is_err());
    assert!(get_profile("renkli ").is_err());
}

#[test]
fn defaults_name_a_valid_profile() {
    let d = default_profile();
    assert_eq!(d, "renkli");
    assert!(get_profile(&d).is_ok());
    assert!(default_true());
}
