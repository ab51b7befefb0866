use vstd::prelude::*;
use crate::error::ScanError;
use crate::page::{EncodedPage, encode_page, jpeg_of, page_image};
use crate::raster::Raster;

verus! {

/// How many sheets a scan takes at most when the request names no number.
pub const DEFAULT_PAGE_LIMIT: u32 = 100;

/// Seconds to wait between two sheets, so that the scanner is free again.
pub const PAUSE_BETWEEN_PAGES_SECS: u64 = 2;

/// A document scan in progress: sheets are scanned one at a time, from page 1
/// up to the page limit, until the feeder runs empty.
pub struct DocumentScan {
    page_limit: u32,
    next_page: u32,
    crop_borders: bool,
    quality: u8,
    pages: Vec<EncodedPage>,
}

/// What happened to the page that the scan asked for.
pub enum PageEvent {
    /// The page was scanned and its image read.
    Captured(Raster),
    /// The page was scanned but its image could not be read.
    OpenFailed,
    /// No page came: the feeder is empty or scanning the page failed.
    NoPage,
}

/// What the scan does next.
pub enum ScanStep {
    /// Scan page `page`, after the pause between pages where `pause_first` is set.
    Scan { session: DocumentScan, page: u32, pause_first: bool },
    /// The scan is over, with the encoded pages or the reason it failed.
    Done { result: Result<Vec<EncodedPage>, ScanError> },
}

impl DocumentScan {
    /// The number of sheets the scan takes at most.
    pub closed spec fn page_limit(&self) -> u32 {
        self.page_limit
    }

    /// The number of the page being scanned.
    pub closed spec fn current_page(&self) -> u32 {
        self.next_page
    }

    /// Whether pages get their white border cropped.
    pub closed spec fn crops(&self) -> bool {
        self.crop_borders
    }

    /// The JPEG quality of the pages.
    pub closed spec fn jpeg_quality(&self) -> u8 {
        self.quality
    }

    /// The pages encoded so far.
    pub closed spec fn done_pages(&self) -> Seq<EncodedPage> {
        self.pages@
    }

    /// The state of a scan in progress: the page being scanned is within the
    /// limit and every page before it was scanned.
    pub closed spec fn wf(&self) -> bool {
        &&& 1 <= self.next_page <= self.page_limit
        &&& self.pages@.len() == self.next_page - 1
    }

    /// Starts a scan of at most `expected_pages` sheets (100 where none is
    /// named): its first step.
    pub fn start(expected_pages: Option<u32>, crop_borders: bool, quality: u8) -> (r: ScanStep)
        ensures
            ({
                let limit = match expected_pages {
                    Some(n) => n,
                    None => DEFAULT_PAGE_LIMIT,
                };
                if limit == 0 {
                    r matches ScanStep::Done { result: Err(ScanError::NoPages) }
                } else {
                    r matches ScanStep::Scan { session, page, pause_first } && session.wf()
                        && page == 1 && !pause_first && session.current_page() == 1
                        && session.page_limit() == limit && session.crops() == crop_borders
                        && session.jpeg_quality() == quality
                        && session.done_pages().len() == 0
                }
            }),
    {
        let limit = match expected_pages {
            Some(n) => n,
            None => DEFAULT_PAGE_LIMIT,
        };
        if limit == 0 {
            ScanStep::Done { result: Err(ScanError::NoPages) }
        } else {
            let session = DocumentScan {
                page_limit: limit,
                next_page: 1,
                crop_borders,
                quality,
                pages: Vec::new(),
            };
            ScanStep::Scan { session, page: 1, pause_first: false }
        }
    }

    /// Takes in what happened to the current page and decides the next step.
    pub fn step(self, event: PageEvent) -> (r: ScanStep)
        requires
            self.wf(),
            event matches PageEvent::Captured(img) ==> img.wf() && (self.crops() ==> (img.height
                > 0 || img.width == 0) && img.width * img.height * 4 <= usize::MAX),
        ensures
            r matches ScanStep::Scan { session, page, pause_first } ==> session.wf()
                && page == self.current_page() + 1 && pause_first && session.current_page()
                == page && session.page_limit() == self.page_limit() && session.crops()
                == self.crops() && session.jpeg_quality() == self.jpeg_quality()
                && session.done_pages().drop_last() == self.done_pages(),
            r matches ScanStep::Done { result: Ok(v) } ==> 1 <= v@.len() <= self.page_limit()
                && v@.take(self.done_pages().len() as int) == self.done_pages(),
            match event {
                PageEvent::Captured(img) => {
                    let (w, h, d) = page_image(img, self.crops());
                    &&& (jpeg_of(w, h, img.color, self.jpeg_quality(), d) is Some <==> (1 <= w <= 65535
                        && 1 <= h <= 65535))
                    &&& match jpeg_of(w, h, img.color, self.jpeg_quality(), d) {
                        None => r matches ScanStep::Done {
                            result: Err(ScanError::EncodeFailed { page }),
                        } && page == self.current_page(),
                        Some(jpeg) => {
                            let added = match r {
                                ScanStep::Scan { session, .. } => session.done_pages(),
                                ScanStep::Done { result: Ok(v) } => v@,
                                ScanStep::Done { result: Err(_) } => Seq::empty(),
                            };
                            &&& (self.current_page() < self.page_limit() <==> r is Scan)
                            &&& (r is Done ==> r->result is Ok)
                            &&& added.len() == self.done_pages().len() + 1
                            &&& added.drop_last() == self.done_pages()
                            &&& added.last().jpeg@ == jpeg
                            &&& added.last().width == w
                            &&& added.last().height == h
                        },
                    }
                },
                PageEvent::OpenFailed => r matches ScanStep::Done {
                    result: Err(ScanError::OpenFailed { page }),
                } && page == self.current_page(),
                PageEvent::NoPage => {
                    if self.done_pages().len() == 0 {
                        r matches ScanStep::Done { result: Err(ScanError::NoPages) }
                    } else {
                        r matches ScanStep::Done { result: Ok(v) } && v@ == self.done_pages()
                    }
                },
            },
    {
        let DocumentScan { page_limit, next_page, crop_borders, quality, mut pages } = self;
        match event {
            PageEvent::Captured(img) => {
                match encode_page(img, crop_borders, quality, next_page) {
                    Err(e) => ScanStep::Done { result: Err(e) },
                    Ok(p) => {
                        let ghost before = pages@;
                        pages.push(p);
                        assert(pages@.drop_last() =~= before);
                        assert(pages@.take(before.len() as int) =~= before);
                        if next_page < page_limit {
                            let session = DocumentScan {
                                page_limit,
                                next_page: next_page + 1,
                                crop_borders,
                                quality,
                                pages,
                            };
                            ScanStep::Scan { session, page: next_page + 1, pause_first: true }
                        } else {
                            ScanStep::Done { result: Ok(pages) }
                        }
                    },
                }
            },
            PageEvent::OpenFailed => ScanStep::Done {
                result: Err(ScanError::OpenFailed { page: next_page }),
            },
            PageEvent::NoPage => {
                if pages.len() == 0 {
                    ScanStep::Done { result: Err(ScanError::NoPages) }
                } else {
                    assert(pages@.take(pages@.len() as int) =~= pages@);
                    ScanStep::Done { result: Ok(pages) }
                }
            },
        }
    }
}

/// Every scan in progress keeps its state: the page being scanned is within
/// the page limit, and the pages encoded so far are exactly the pages before it.
pub proof fn law_scan_state(s: DocumentScan)
    requires
        s.wf(),
    ensures
        1 <= s.current_page() <= s.page_limit(),
        s.done_pages().len() == s.current_page() - 1,
{
}

} // verus!
