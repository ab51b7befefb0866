//! Scanning service core: scan profiles, the white-border crop of scanned
//! pages, the scanner script, the page-by-page scan session and the JSON
//! response model of the scan service.

pub mod arith;
pub mod autocrop;
pub mod encoding;
pub mod error;
pub mod page;
pub mod profile;
pub mod raster;
pub mod reply;
pub mod scan;
pub mod session;
pub mod text;
