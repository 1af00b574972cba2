//! The error carried out of a failed worker attempt.

use vstd::prelude::*;

verus! {

/// A crawl error: fetch, extraction and delivery failures are all reported
/// through this one shape, since the scheduler treats them uniformly.
pub struct CrawlerError {
    pub message: String,
}

impl CrawlerError {
    /// Wraps a message.
    pub fn new(err: String) -> (r: CrawlerError)
        ensures
            r.message == err,
    {
        CrawlerError { message: err }
    }

    /// The message, for display by the embedding program.
    pub fn message(&self) -> (m: &String)
        ensures
            m == &self.message,
    {
        &self.message
    }
}

} // verus!
