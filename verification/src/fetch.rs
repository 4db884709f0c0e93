//! The range fetcher's one decision: how to retrieve a list of byte ranges
//! from a backend. The reads themselves are I/O and live in the shell
//! around the library, which performs them one at a time or concurrently as
//! selected here and returns one buffer per requested range, in request
//! order.
use vstd::prelude::*;

verus! {

/// How the byte ranges of one request are to be read.
#[derive(Debug, Clone, Copy, PartialEq, Eq, Structural)]
pub enum FetchStrategy {
    /// Read the ranges one at a time over the backend's synchronous access,
    /// offloaded to a blocking-capable execution context when one exists.
    Sequential,
    /// Issue all range reads as concurrently scheduled operations and wait
    /// for all of them.
    Concurrent,
}

/// Selects the retrieval strategy from the backend's capability: a backend
/// with synchronous ("blocking") access is read sequentially, any other
/// concurrently.
pub fn select_fetch_strategy(blocking_capable: bool) -> (r: FetchStrategy)
    ensures
        r == (if blocking_capable {
            FetchStrategy::Sequential
        } else {
            FetchStrategy::Concurrent
        }),
{
    if blocking_capable {
        FetchStrategy::Sequential
    } else {
        FetchStrategy::Concurrent
    }
}

} // verus!
