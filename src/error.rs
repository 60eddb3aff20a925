use vstd::prelude::*;

use crate::provider::Provider;

verus! {

/// Why a run stops.
#[derive(Debug, PartialEq, Eq)]
pub enum Error {
    /// An imported file is missing; it holds the path that was resolved.
    InputNotFound(String),
    /// A reply holds no `<COMPLETION>` span.
    MalformedReply,
    /// No API key is configured for the provider.
    MissingKey(Provider),
}

} // verus!
