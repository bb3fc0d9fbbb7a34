//! Loading and authenticating one chunk. The collaborators fetch the blobs,
//! run the checkpoint signature check against the trust anchor, and replay
//! the range proof; `LoadedChunk::load` takes those outcomes as plain values
//! and decides, so a chunk that fails any check is never exposed downstream.

use vstd::prelude::*;
use crate::errors::RestoreError;
use crate::manifest::TransactionChunk;
use crate::records::{decode_records, split_records};

verus! {

/// The collaborator-produced material for one chunk: the raw record blob and
/// the outcomes of the two cryptographic checks run on the chunk's proof
/// blob. `checkpoint_sig_ok` is `None` when no trust anchor was supplied, so
/// no signature check was run.
pub struct ChunkPayload {
    pub record_blob: Vec<u8>,
    /// Whether the range proof authenticated the records against the
    /// chunk's checkpoint at the declared first version.
    pub proof_ok: bool,
    /// Whether the checkpoint's signatures verified against the trust
    /// anchor, where one was supplied.
    pub checkpoint_sig_ok: Option<bool>,
}

/// A materialized, authenticated chunk: its descriptor plus one serialized
/// record per version of the declared span.
pub struct LoadedChunk {
    pub manifest: TransactionChunk,
    pub records: Vec<Vec<u8>>,
}

/// Whether a chunk's payload passes every load-time check: well-framed
/// records, one per declared version, no failed signature check, and a
/// proof that authenticates.
pub open spec fn chunk_payload_accepted(chunk: TransactionChunk, payload: ChunkPayload) -> bool {
    &&& decode_records(payload.record_blob@) matches Option::Some(rs) && rs.len()
        == chunk.num_versions()
    &&& payload.checkpoint_sig_ok != Option::Some(false)
    &&& payload.proof_ok
}

/// Which error a failing load reports, mirroring the order the checks run
/// in: framing, then count, then checkpoint signatures, then the proof.
pub open spec fn spec_load_error(chunk: TransactionChunk, payload: ChunkPayload) -> RestoreError {
    match decode_records(payload.record_blob@) {
        Option::None => RestoreError::MalformedRecordBlob {
            first_version: chunk.first_version,
            last_version: chunk.last_version,
        },
        Option::Some(rs) => {
            if rs.len() != chunk.num_versions() {
                RestoreError::ChunkCountMismatch {
                    first_version: chunk.first_version,
                    last_version: chunk.last_version,
                    count: rs.len() as usize,
                }
            } else if payload.checkpoint_sig_ok == Option::Some(false) {
                RestoreError::UntrustedCheckpoint {
                    first_version: chunk.first_version,
                    last_version: chunk.last_version,
                }
            } else {
                RestoreError::ChunkAuthentication {
                    first_version: chunk.first_version,
                    last_version: chunk.last_version,
                }
            }
        },
    }
}

impl LoadedChunk {
    /// A loaded chunk covers a well-formed span with exactly one record per
    /// version.
    pub open spec fn wf(self) -> bool {
        &&& self.manifest.wf()
        &&& self.records.len() == self.manifest.num_versions()
    }

    /// Materializes and checks one chunk, in this order: the record blob
    /// must frame correctly, the record count must equal the declared span,
    /// the checkpoint must pass the signature check where one was run, and
    /// the range proof must authenticate the records. Each failure is the
    /// named error carrying the chunk's span; only a chunk that passed every
    /// check is returned.
    pub fn load(manifest: TransactionChunk, payload: ChunkPayload) -> (r: Result<
        LoadedChunk,
        RestoreError,
    >)
        requires
            manifest.wf(),
        ensures
            r is Ok <==> chunk_payload_accepted(manifest, payload),
            (r matches Result::Err(e) ==> e == spec_load_error(manifest, payload)),
            (match r {
                Result::Ok(chunk) => {
                    &&& chunk.wf()
                    &&& chunk.manifest == manifest
                    &&& decode_records(payload.record_blob@) == Option::Some(
                        chunk.records.deep_view(),
                    )
                    &&& payload.proof_ok
                    &&& payload.checkpoint_sig_ok != Option::Some(false)
                },
                Result::Err(e) => match e {
                    RestoreError::MalformedRecordBlob { first_version, last_version } => {
                        &&& decode_records(payload.record_blob@) is None
                        &&& first_version == manifest.first_version
                        &&& last_version == manifest.last_version
                    },
                    RestoreError::ChunkCountMismatch { first_version, last_version, count } => {
                        &&& decode_records(payload.record_blob@) matches Option::Some(rs)
                            && rs.len() == count && count != manifest.num_versions()
                        &&& first_version == manifest.first_version
                        &&& last_version == manifest.last_version
                    },
                    RestoreError::UntrustedCheckpoint { first_version, last_version } => {
                        &&& decode_records(payload.record_blob@) matches Option::Some(rs)
                            && rs.len() == manifest.num_versions()
                        &&& payload.checkpoint_sig_ok == Option::Some(false)
                        &&& first_version == manifest.first_version
                        &&& last_version == manifest.last_version
                    },
                    RestoreError::ChunkAuthentication { first_version, last_version } => {
                        &&& decode_records(payload.record_blob@) matches Option::Some(rs)
                            && rs.len() == manifest.num_versions()
                        &&& payload.checkpoint_sig_ok != Option::Some(false)
                        &&& !payload.proof_ok
                        &&& first_version == manifest.first_version
                        &&& last_version == manifest.last_version
                    },
                    _ => false,
                },
            }),
    {
        let first_version = manifest.first_version;
        let last_version = manifest.last_version;
        let records = match split_records(&payload.record_blob) {
            Option::Some(records) => records,
            Option::None => {
                return Err(RestoreError::MalformedRecordBlob { first_version, last_version });
            },
        };
        let span: u64 = last_version - first_version;
        let count = records.len();
        if !(count >= 1 && count as u64 - 1 == span) {
            return Err(RestoreError::ChunkCountMismatch { first_version, last_version, count });
        }
        if let Option::Some(sig_ok) = payload.checkpoint_sig_ok {
            if !sig_ok {
                return Err(RestoreError::UntrustedCheckpoint { first_version, last_version });
            }
        }
        if !payload.proof_ok {
            return Err(RestoreError::ChunkAuthentication { first_version, last_version });
        }
        Ok(LoadedChunk { manifest, records })
    }
}

} // verus!
