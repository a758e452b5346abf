//! Verified core of a two-site listing scraper: listing extraction with
//! per-field fallback chains, a pagination state machine, a window-juggling
//! protocol that passes an anti-automation checkpoint, metadata parsing for
//! document records, and a streaming-download progress account.
//!
//! All browser-driver and HTTP traffic lives outside this crate; the library
//! holds the decisions, each pinned down by a contract.

use vstd::prelude::*;

pub mod download;
pub mod links;
pub mod listing;
pub mod meta;
pub mod pager;
pub mod session;
pub mod text;

verus! {

/// The field of a listing container that a failed extraction was missing.
#[derive(Clone, Copy, Debug, PartialEq, Eq, Structural)]
pub enum ListingField {
    Title,
    Description,
    Host,
    Availability,
    Price,
}

/// Every failure the pipeline surfaces, one variant per cause.
#[derive(Clone, Copy, Debug, PartialEq, Eq, Structural)]
pub enum ScrapeError {
    /// A required listing field was absent on the current container.
    MissingField(ListingField),
    /// The pager's "next" control promised another page that never arrived.
    PageUnavailable,
    /// Window enumeration came back empty where a window was required.
    WindowMissing,
    /// The checkpoint page exposed no embedded frame to descend into.
    FrameMissing,
    /// The checkpoint control never became interactive within the wait ceiling.
    ControlNotInteractive,
    /// A link attribute required for resolution was absent.
    LinkAttributeAbsent,
    /// The transfer response advertised no content length.
    MissingContentLength,
    /// A chunk read or write failed mid-stream.
    TransferInterrupted,
}

} // verus!
