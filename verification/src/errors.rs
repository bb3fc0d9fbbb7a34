//! Error taxonomy of the restore pipeline. Every stage fails fast: an error
//! carries the identifying context (handle or version range) from the point
//! of detection and is propagated unchanged.

use vstd::prelude::*;

verus! {

/// Why a restore or verify run failed.
#[derive(Debug)]
pub enum RestoreError {
    /// A collaborator I/O failure while fetching the named handle.
    Fetch { handle: String },
    /// A manifest failed its internal consistency check; carries the version
    /// range the manifest declared.
    ManifestInvalid { first_version: u64, last_version: u64 },
    /// Two adjacent chunks are not contiguous: the next chunk was expected to
    /// start at `expected` but started at `actual`.
    ChunkGap { expected: u64, actual: u64 },
    /// The record blob of the chunk spanning the given versions is not a
    /// well-formed sequence of length-prefixed records.
    MalformedRecordBlob { first_version: u64, last_version: u64 },
    /// A chunk held `count` records where its declared span requires
    /// `last_version - first_version + 1`.
    ChunkCountMismatch { first_version: u64, last_version: u64, count: usize },
    /// The chunk's checkpoint failed signature verification against the
    /// supplied trust anchor.
    UntrustedCheckpoint { first_version: u64, last_version: u64 },
    /// The chunk's range proof did not authenticate its records against its
    /// checkpoint.
    ChunkAuthentication { first_version: u64, last_version: u64 },
    /// Manifests were supplied but produced no chunk at all.
    EmptyChunkStream,
    /// The execution engine failed while replaying the batch with the given
    /// index.
    Replay { batch_index: usize },
    /// The execution engine failed while committing the batch with the given
    /// index.
    Commit { batch_index: usize },
}

} // verus!
