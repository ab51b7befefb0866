use vstd::prelude::*;

verus! {

/// Settings of one scan profile: the WIA colour mode (1 colour, 2 grey,
/// 4 black and white), the resolution and a display name.
pub struct ScanProfile {
    pub color_mode: u32,
    pub dpi: u32,
    pub name: String,
}

/// A profile key that names no profile.
pub struct ProfileError {
    pub key: String,
}

/// The profile table: key, colour mode, dpi and display name.
pub open spec fn profile_table(key: Seq<char>) -> Option<(u32, u32, Seq<char>)> {
    if key == "hizli"@ {
        Some((2u32, 150u32, "Hızlı Tarama"@))
    } else if key == "standart"@ {
        Some((2u32, 300u32, "Standart Belge"@))
    } else if key == "renkli"@ {
        Some((1u32, 300u32, "Renkli Belge"@))
    } else if key == "yuksek"@ {
        Some((1u32, 600u32, "Yüksek Kalite"@))
    } else if key == "siyah-beyaz"@ {
        Some((4u32, 300u32, "Siyah-Beyaz"@))
    } else {
        None
    }
}

/// Whether two string slices hold the same characters.
pub fn str_eq(a: &str, b: &str) -> (r: bool)
    ensures
        r == (a@ == b@),
{
    let x = String::from_str(a);
    let y = String::from_str(b);
    x == y
}

fn make_profile(color_mode: u32, dpi: u32, name: &str) -> (p: ScanProfile)
    ensures
        p.color_mode == color_mode,
        p.dpi == dpi,
        p.name@ == name@,
{
    ScanProfile { color_mode, dpi, name: String::from_str(name) }
}

/// The key of the profile used when a request names none.
pub fn default_profile() -> (s: String)
    ensures
        s@ == "renkli"@,
{
    String::from_str("renkli")
}

/// The default of a boolean request field that is on unless the request says otherwise.
pub fn default_true() -> (b: bool)
    ensures
        b,
{
    true
}

/// Looks up a scan profile by its key.
pub fn get_profile(profile: &str) -> (r: Result<ScanProfile, ProfileError>)
    ensures
        match r {
            Ok(p) => profile_table(profile@) == Some((p.color_mode, p.dpi, p.name@)),
            Err(e) => profile_table(profile@).is_none() && e.key@ == profile@,
        },
{
    if str_eq(profile, "hizli") {
        Ok(make_profile(2, 150, "Hızlı Tarama"))
    } else if str_eq(profile, "standart") {
        Ok(make_profile(2, 300, "Standart Belge"))
    } else if str_eq(profile, "renkli") {
        Ok(make_profile(1, 300, "Renkli Belge"))
    } else if str_eq(profile, "yuksek") {
        Ok(make_profile(1, 600, "Yüksek Kalite"))
    } else if str_eq(profile, "siyah-beyaz") {
        Ok(make_profile(4, 300, "Siyah-Beyaz"))
    } else {
        Err(ProfileError { key: String::from_str(profile) })
    }
}

impl ProfileError {
    /// The text of this error, as the service reports it.
    pub fn message(&self) -> (s: String)
        ensures
            s@ == "Geçersiz profil: '"@ + self.key@
                + "'. Geçerli profiller: hizli, standart, renkli, yuksek, siyah-beyaz"@,
    {
        let mut s = String::from_str("Geçersiz profil: '");
        s.append(self.key.as_str());
        s.append("'. Geçerli profiller: hizli, standart, renkli, yuksek, siyah-beyaz");
        s
    }
}

/// The profile that a request without a profile key gets exists: it is the
/// colour profile at 300 dpi.
pub proof fn law_default_profile_exists()
    ensures
        profile_table("renkli"@) == Some((1u32, 300u32, "Renkli Belge"@)),
{
    reveal_strlit("hizli");
    reveal_strlit("standart");
    reveal_strlit("renkli");
    assert("renkli"@.len() == 6);
    assert("renkli"@ != "hizli"@);
    assert("renkli"@ != "standart"@);
}

} // verus!
