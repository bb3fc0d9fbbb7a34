//! Manifests and chunk descriptors. A manifest declares a version range and
//! an ordered list of chunk descriptors; it must self-validate (the declared
//! range must match its chunks, which must be contiguous) before any of its
//! chunks is exposed to the rest of the pipeline.

use vstd::prelude::*;
use crate::errors::RestoreError;

verus! {

/// Describes one chunk of the backup: a contiguous version span together with
/// the storage handles of its transaction-record blob and its proof blob. It
/// identifies, but does not contain, the chunk's data.
pub struct TransactionChunk {
    pub first_version: u64,
    pub last_version: u64,
    /// Handle of the blob holding the chunk's length-prefixed records.
    pub transactions: String,
    /// Handle of the blob holding the chunk's range proof and checkpoint.
    pub proof: String,
}

impl TransactionChunk {
    /// A descriptor never declares an empty or inverted span.
    pub open spec fn wf(self) -> bool {
        self.first_version <= self.last_version
    }

    /// How many versions the declared span covers.
    pub open spec fn num_versions(self) -> int {
        self.last_version - self.first_version + 1
    }
}

/// A transaction backup manifest: a declared version range plus the ordered
/// chunk descriptors that are supposed to cover it.
pub struct TransactionBackup {
    pub first_version: u64,
    pub last_version: u64,
    pub chunks: Vec<TransactionChunk>,
}

impl TransactionBackup {
    /// Internal consistency: at least one chunk, every chunk well formed,
    /// adjacent chunks contiguous, and the chunks together covering exactly
    /// the declared range.
    pub open spec fn valid(self) -> bool {
        &&& self.chunks.len() > 0
        &&& self.chunks[0].first_version == self.first_version
        &&& self.chunks[self.chunks.len() - 1].last_version == self.last_version
        &&& forall|i: int| 0 <= i < self.chunks.len() ==> self.chunks[i].wf()
        &&& forall|i: int|
            0 <= i < self.chunks.len() - 1 ==> self.chunks[i + 1].first_version
                == self.chunks[i].last_version + 1
    }

    /// The error this manifest's failed self-validation reports.
    fn invalid_error(&self) -> (e: RestoreError)
        ensures
            (e matches RestoreError::ManifestInvalid { first_version, last_version }
                && first_version == self.first_version && last_version == self.last_version),
    {
        RestoreError::ManifestInvalid {
            first_version: self.first_version,
            last_version: self.last_version,
        }
    }

    /// Self-validation, run once per manifest before its chunks are used.
    /// Returns `Ok` exactly on a `valid` manifest; on failure the error names
    /// the manifest's declared version range.
    pub fn verify(&self) -> (r: Result<(), RestoreError>)
        ensures
            r is Ok <==> self.valid(),
            r is Err ==> (r matches Err(RestoreError::ManifestInvalid { first_version, last_version })
                && first_version == self.first_version && last_version == self.last_version),
    {
        if self.chunks.len() == 0 {
            return Err(self.invalid_error());
        }
        if self.chunks[0].first_version != self.first_version {
            return Err(self.invalid_error());
        }
        if self.chunks[self.chunks.len() - 1].last_version != self.last_version {
            return Err(self.invalid_error());
        }
        let mut i: usize = 0;
        while i < self.chunks.len()
            invariant
                i <= self.chunks.len(),
                forall|j: int| 0 <= j < i ==> self.chunks@[j].wf(),
                forall|j: int|
                    0 <= j < i && j < self.chunks.len() - 1 ==> self.chunks@[j + 1].first_version
                        == self.chunks@[j].last_version + 1,
            decreases self.chunks.len() - i,
        {
            let c = &self.chunks[i];
            if c.first_version > c.last_version {
                return Err(self.invalid_error());
            }
            if i + 1 < self.chunks.len() {
                let next_first = self.chunks[i + 1].first_version;
                if c.last_version == u64::MAX || next_first != c.last_version + 1 {
                    return Err(self.invalid_error());
                }
            }
            i = i + 1;
        }
        Ok(())
    }
}

} // verus!
