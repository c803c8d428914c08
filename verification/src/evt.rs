use vstd::prelude::*;

verus! {

/// Unified failure type for every request handled by this crate.
///
/// Connection-establishment failures are raised only by adapter code that
/// opens a handle; every failure raised around the composed operations
/// themselves (query build failure, execution failure, conversion failure)
/// uses the unexpected kind.  Both carry a human-readable message.
#[derive(Debug)]
pub enum Event {
    ConnectionError(String),
    UnexpectedError(String),
}

} // verus!
