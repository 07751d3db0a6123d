use vstd::prelude::*;
use crate::codec::DecodeError;

verus! {

/// Why recording a mutation failed.
#[derive(Debug)]
pub enum WriteError {
    /// The store engine reported a failure.
    Storage(heed::Error),
    /// The delta compressor could not produce a patch for the key's prior
    /// value, or that value is too large to be indexed.
    Diff,
}

/// Why ending a session failed.
#[derive(Debug)]
pub enum CommitError {
    /// The bundle commit failed; neither store keeps the session's writes.
    Storage(heed::Error),
    /// The bundle committed but the primary store's commit failed, so the
    /// shipped bundle no longer matches the primary store's true state.
    /// Fatal: the session's bundle must be discarded.
    CommitOrdering(heed::Error),
}

/// Why replaying a bundle onto a target store failed. Any failure aborts the
/// whole replay: nothing is committed.
#[derive(Debug)]
pub enum ReplayError {
    /// The store engine reported a failure.
    Storage(heed::Error),
    /// A bundle entry is not a well-formed record.
    Decode(DecodeError),
    /// A patch record names a key the target store does not hold.
    MissingBaseline,
    /// The patch could not be applied to the target's current value.
    PatchApply,
}

} // verus!
