use vstd::prelude::*;
use crate::text::{decimal, decimal_string};

verus! {

/// Why a scan produced no document.
pub enum ScanError {
    /// The scanned image of a page could not be read.
    OpenFailed { page: u32 },
    /// The image of a page could not be encoded as JPEG.
    EncodeFailed { page: u32 },
    /// Not a single page was scanned.
    NoPages,
}

/// The text that the service reports for an error.
pub open spec fn scan_error_text(e: ScanError) -> Seq<char> {
    match e {
        ScanError::OpenFailed { page } => "Sayfa "@ + decimal(page as nat) + " açılamadı"@,
        ScanError::EncodeFailed { page } => "Sayfa "@ + decimal(page as nat)
            + " JPEG dönüşümü başarısız"@,
        ScanError::NoPages => "Hiç sayfa taranamadı!"@,
    }
}

impl ScanError {
    /// The text that the service reports for this error.
    pub fn message(&self) -> (s: String)
        ensures
            s@ == scan_error_text(*self),
    {
        match self {
            ScanError::OpenFailed { page } => {
                let mut s = String::from_str("Sayfa ");
                let d = decimal_string(*page);
                s.append(d.as_str());
                s.append(" açılamadı");
                s
            },
            ScanError::EncodeFailed { page } => {
                let mut s = String::from_str("Sayfa ");
                let d = decimal_string(*page);
                s.append(d.as_str());
                s.append(" JPEG dönüşümü başarısız");
                s
            },
            ScanError::NoPages => String::from_str("Hiç sayfa taranamadı!"),
        }
    }
}

} // verus!
