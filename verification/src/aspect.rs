//! Cross-cutting hooks around a crawl.

use vstd::prelude::*;

verus! {

/// A hook that observes a crawl: called once before it starts and once
/// after it finishes.
pub trait Aspect {
    /// Called before the crawl starts.
    fn before(&self);

    /// Called after the crawl finishes.
    fn after(&self);
}

} // verus!
