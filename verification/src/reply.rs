use vstd::prelude::*;
use base64::engine::general_purpose::STANDARD;
use base64::Engine;
use crate::encoding::{base64_decode, base64_std, law_base64_round_trip};
use crate::error::{ScanError, scan_error_text};
use crate::page::EncodedPage;
use crate::profile::{ProfileError, ScanProfile, default_profile, get_profile, profile_table};

verus! {

/// A scan request: both sides or one, the profile key, whether to crop the
/// white border, how many sheets (`None`: until the feeder is empty, at most
/// 100) and the JPEG quality (1 to 100).
pub struct ScanRequest {
    pub duplex: bool,
    pub profile: String,
    pub auto_crop: bool,
    pub pages: Option<u32>,
    pub quality: u8,
}

/// The JPEG quality of a request that names none.
pub fn default_quality() -> (q: u8)
    ensures
        q == 85,
{
    85
}

/// The settings of a request without a body: one side, the colour profile,
/// white border cropped, sheets until the feeder is empty, quality 85.
pub open spec fn is_default_request(r: ScanRequest) -> bool {
    &&& !r.duplex
    &&& r.profile@ == "renkli"@
    &&& r.auto_crop
    &&& r.pages is None
    &&& r.quality == 85
}

/// The settings of a scan: those of the request body, or the defaults where
/// there is no body.
pub fn resolve_request(body: Option<ScanRequest>) -> (r: ScanRequest)
    ensures
        match body {
            Some(b) => r == b,
            None => is_default_request(r),
        },
{
    match body {
        Some(b) => b,
        None => ScanRequest {
            duplex: false,
            profile: default_profile(),
            auto_crop: true,
            pages: None,
            quality: default_quality(),
        },
    }
}

/// One page of a successful reply: the Base64 text of its JPEG file, its
/// size in pixels, the resolution and the page number.
pub struct ScannedPage {
    pub image: String,
    pub width: u32,
    pub height: u32,
    pub dpi: u32,
    pub page: u32,
}

/// The body of the reply to a scan request.
pub struct ScanResponse {
    pub success: bool,
    pub images: Option<Vec<ScannedPage>>,
    pub format: Option<String>,
    pub duplex: bool,
    pub profile: Option<String>,
    pub auto_crop: bool,
    pub page_count: Option<u32>,
    pub error: Option<String>,
}

/// A reply: HTTP status code and body.
pub struct ScanReply {
    pub status: u16,
    pub body: ScanResponse,
}

/// The body of the reply to a health check.
pub struct HealthResponse {
    pub status: String,
    pub scanner: String,
}

/// The reply to a health check.
pub fn health_status() -> (r: HealthResponse)
    ensures
        r.status@ == "ok"@,
        r.scanner@ == "Fujitsu fi-8150U"@,
{
    HealthResponse { status: String::from_str("ok"), scanner: String::from_str("Fujitsu fi-8150U") }
}

/// Calls `Engine::encode` of `base64::engine::general_purpose::STANDARD`.
/// Claimed: the text is the standard Base64 text of the bytes (the crate's
/// `STANDARD` engine is the RFC 4648 alphabet with `=` padding). The crate
/// panics where the text's length overflows `usize` (`encoded_len`);
/// `requires` leaves such inputs out.
#[verifier::external_body]
fn base64_text(data: &[u8]) -> (s: String)
    requires
        data@.len() <= usize::MAX / 2,
    ensures
        s@ == base64_std(data@),
{
    STANDARD.encode(data)
}

/// The reply to a request whose profile key names no profile: status 400.
pub open spec fn is_rejection(r: ScanReply, req: ScanRequest, err: ProfileError) -> bool {
    &&& r.status == 400
    &&& !r.body.success
    &&& r.body.images is None
    &&& r.body.format is None
    &&& r.body.duplex == req.duplex
    &&& r.body.profile matches Some(p) && p@ == req.profile@
    &&& r.body.auto_crop == req.auto_crop
    &&& r.body.page_count is None
    &&& r.body.error matches Some(e) && e@ == "Geçersiz profil: '"@ + err.key@
        + "'. Geçerli profiller: hizli, standart, renkli, yuksek, siyah-beyaz"@
}

/// Looks up the profile of a scan request; where the profile key names no
/// profile, gives the reply that rejects the request.
pub fn plan_scan(req: ScanRequest) -> (r: Result<(ScanRequest, ScanProfile), ScanReply>)
    ensures
        match r {
            Ok((req2, p)) => req2 == req && profile_table(req.profile@) == Some(
                (p.color_mode, p.dpi, p.name@),
            ),
            Err(reply) => profile_table(req.profile@) is None && is_rejection(
                reply,
                req,
                ProfileError { key: req.profile },
            ),
        },
{
    match get_profile(req.profile.as_str()) {
        Ok(p) => Ok((req, p)),
        Err(e) => {
            let msg = e.message();
            Err(
                ScanReply {
                    status: 400,
                    body: ScanResponse {
                        success: false,
                        images: None,
                        format: None,
                        duplex: req.duplex,
                        profile: Some(req.profile),
                        auto_crop: req.auto_crop,
                        page_count: None,
                        error: Some(msg),
                    },
                },
            )
        },
    }
}

/// Page `index` of a successful reply shows page `p` of the scan.
pub open spec fn shows_page(e: ScannedPage, p: EncodedPage, dpi: u32, index: int) -> bool {
    &&& e.image@ == base64_std(p.jpeg@)
    &&& e.width == p.width
    &&& e.height == p.height
    &&& e.dpi == dpi
    &&& e.page == index + 1
}

/// Builds the reply to a scan request from the scan's outcome: status 200
/// with every page, numbered from 1, or status 500 with the error's text.
pub fn finish_scan(
    req: &ScanRequest,
    profile: &ScanProfile,
    outcome: &Result<Vec<EncodedPage>, ScanError>,
) -> (r: ScanReply)
    requires
        outcome matches Ok(pages) ==> pages@.len() <= u32::MAX && forall|i: int|
            0 <= i < pages@.len() ==> #[trigger] pages@[i].jpeg@.len() <= usize::MAX / 2,
    ensures
        r.body.duplex == req.duplex,
        r.body.auto_crop == req.auto_crop,
        r.body.profile matches Some(p) && p@ == profile.name@,
        match outcome {
            Ok(pages) => {
                &&& r.status == 200
                &&& r.body.success
                &&& r.body.images matches Some(v) && v@.len() == pages@.len() && forall|i: int|
                    0 <= i < pages@.len() ==> shows_page(#[trigger] v@[i], pages@[i], profile.dpi, i)
                &&& r.body.images matches Some(v) && forall|i: int|
                    0 <= i < pages@.len() ==> base64_decode(#[trigger] v@[i].image@) == pages@[i].jpeg@
                &&& r.body.images matches Some(v) && forall|i: int|
                    0 <= i < pages@.len() ==> {
                        &&& (#[trigger] v@[i]).dpi == profile.dpi
                        &&& v@[i].width == pages@[i].width
                        &&& v@[i].height == pages@[i].height
                        &&& v@[i].page == i + 1
                    }
                &&& r.body.format matches Some(f) && f@ == "jpeg"@
                &&& r.body.page_count == Some(pages@.len() as u32)
                &&& r.body.error is None
            },
            Err(e) => {
                &&& r.status == 500
                &&& !r.body.success
                &&& r.body.images is None
                &&& r.body.format is None
                &&& r.body.page_count is None
                &&& r.body.error matches Some(m) && m@ == scan_error_text(*e)
            },
        },
{
    match outcome {
        Ok(pages) => {
            let mut images: Vec<ScannedPage> = Vec::new();
            let mut i: usize = 0;
            while i < pages.len()
                invariant
                    i <= pages@.len(),
                    pages@.len() <= u32::MAX,
                    forall|k: int| 0 <= k < pages@.len() ==> #[trigger] pages@[k].jpeg@.len() <= usize::MAX / 2,
                    images@.len() == i,
                    forall|k: int| 0 <= k < i ==> shows_page(#[trigger] images@[k], pages@[k], profile.dpi, k),
                decreases pages@.len() - i,
            {
                let p = &pages[i];
                let image = base64_text(p.jpeg.as_slice());
                images.push(ScannedPage {
                    image,
                    width: p.width,
                    height: p.height,
                    dpi: profile.dpi,
                    page: (i + 1) as u32,
                });
                i = i + 1;
            }
            let count = pages.len() as u32;
            assert forall|i: int| 0 <= i < pages@.len() implies {
                &&& (#[trigger] images@[i]).dpi == profile.dpi
                &&& images@[i].width == pages@[i].width
                &&& images@[i].height == pages@[i].height
                &&& images@[i].page == i + 1
            } by {
                assert(shows_page(images@[i], pages@[i], profile.dpi, i));
            }
            assert forall|i: int| 0 <= i < pages@.len() implies base64_decode(
                #[trigger] images@[i].image@,
            ) == pages@[i].jpeg@ by {
                law_base64_round_trip(pages@[i].jpeg@);
            }
            ScanReply {
                status: 200,
                body: ScanResponse {
                    success: true,
                    images: Some(images),
                    format: Some(String::from_str("jpeg")),
                    duplex: req.duplex,
                    profile: Some(profile.name.clone()),
                    auto_crop: req.auto_crop,
                    page_count: Some(count),
                    error: None,
                },
            }
        },
        Err(e) => ScanReply {
            status: 500,
            body: ScanResponse {
                success: false,
                images: None,
                format: None,
                duplex: req.duplex,
                profile: Some(profile.name.clone()),
                auto_crop: req.auto_crop,
                page_count: None,
                error: Some(e.message()),
            },
        },
    }
}

/// Every page of a successful reply carries the resolution of the profile
/// it was scanned with, its own size and its place in the scan, and its
/// image text decodes to its JPEG file.
pub proof fn law_reply_pages(v: Seq<ScannedPage>, pages: Seq<EncodedPage>, dpi: u32)
    requires
        v.len() == pages.len(),
        forall|i: int| 0 <= i < pages.len() ==> shows_page(#[trigger] v[i], pages[i], dpi, i),
    ensures
        forall|i: int|
            0 <= i < pages.len() ==> {
                &&& (#[trigger] v[i]).dpi == dpi
                &&& v[i].width == pages[i].width
                &&& v[i].height == pages[i].height
                &&& v[i].page == i + 1
                &&& base64_decode(v[i].image@) == pages[i].jpeg@
            },
{
    assert forall|i: int| 0 <= i < pages.len() implies {
        &&& (#[trigger] v[i]).dpi == dpi
        &&& v[i].width == pages[i].width
        &&& v[i].height == pages[i].height
        &&& v[i].page == i + 1
        &&& base64_decode(v[i].image@) == pages[i].jpeg@
    } by {
        assert(shows_page(v[i], pages[i], dpi, i));
        law_base64_round_trip(pages[i].jpeg@);
    }
}

} // verus!
