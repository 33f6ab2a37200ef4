//! Error types.

use std::sync::Arc;
use vstd::prelude::*;

verus! {

/// Error of a read.
#[derive(Debug)]
pub enum FetchError<E: ?Sized> {
    /// The fetcher failed; carries its error.
    Fetch(Arc<E>),
    /// The entry has no fetcher to run. Reads other than cache-only ones
    /// require one.
    NoFetcher,
    /// A cache-only read found no cached data.
    Miss,
}

impl<E: ?Sized> FetchError<E> {
    /// The error in words. `cause` is the text of the fetcher's own error and
    /// shows up when there is one.
    pub fn message(&self, cause: &str) -> (text: String)
        ensures
            text@ == (match self {
                FetchError::Fetch(_) => "fetcher failed: "@ + cause@,
                FetchError::NoFetcher => "no fetcher available for this key"@,
                FetchError::Miss => "cache-only read found no data"@,
            }),
    {
        match self {
            FetchError::Fetch(_) => {
                let mut text = "fetcher failed: ".to_owned();
                text.append(cause);
                text
            },
            FetchError::NoFetcher => "no fetcher available for this key".to_owned(),
            FetchError::Miss => "cache-only read found no data".to_owned(),
        }
    }

    /// The fetcher's own error, if that is what happened.
    pub fn source(&self) -> (source: Option<&Arc<E>>)
        ensures
            source == (match self {
                FetchError::Fetch(error) => Some(error),
                _ => None,
            }),
    {
        match self {
            FetchError::Fetch(error) => Some(error),
            _ => None,
        }
    }
}

/// The watched entry was garbage-collected and its channel closed; subscribe
/// again to keep observing the key.
#[derive(Clone, Copy, Debug, PartialEq, Eq, Structural)]
pub struct Closed;

impl Closed {
    /// The error in words.
    pub fn message(&self) -> (text: String)
        ensures
            text@ == "entry was garbage-collected; re-subscribe to continue"@,
    {
        "entry was garbage-collected; re-subscribe to continue".to_owned()
    }
}

} // verus!
