//! The error taxonomy of the crawl engine.

use vstd::prelude::*;

verus! {

/// What can go wrong while creating or running a crawl task.
///
/// Only task-level setup failures (`InvalidInput`, `Storage`) propagate to
/// the caller of the failing operation; the per-URL failures (`Fetch`,
/// `Extract`, `LinkResolution`) are recorded and never abort a run.
#[derive(Clone, Copy, PartialEq, Eq, Structural, Debug)]
pub enum CrawlError {
    /// An empty seed list or an empty task name was given at creation.
    InvalidInput,
    /// The task namespace or a metadata file could not be created or
    /// written.
    Storage,
    /// A network or transport failure while fetching a single URL.
    Fetch,
    /// A content-parsing failure for a single fetched page.
    Extract,
    /// A discovered link could not be resolved to an absolute URL.
    LinkResolution,
}

impl CrawlError {
    /// The display name of the error.
    pub fn to_string(&self) -> (r: String)
        ensures
            *self == CrawlError::InvalidInput ==> r@ == "invalid input"@,
            *self == CrawlError::Storage ==> r@ == "storage failure"@,
            *self == CrawlError::Fetch ==> r@ == "fetch failure"@,
            *self == CrawlError::Extract ==> r@ == "extract failure"@,
            *self == CrawlError::LinkResolution ==> r@ == "link resolution failure"@,
    {
        match self {
            CrawlError::InvalidInput => String::from_str("invalid input"),
            CrawlError::Storage => String::from_str("storage failure"),
            CrawlError::Fetch => String::from_str("fetch failure"),
            CrawlError::Extract => String::from_str("extract failure"),
            CrawlError::LinkResolution => String::from_str("link resolution failure"),
        }
    }
}

} // verus!
