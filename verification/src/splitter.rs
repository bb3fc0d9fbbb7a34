//! The save/replay split. Each verified chunk is first clipped to the target
//! version, then split at the replay cutoff: the prefix below the cutoff is
//! persisted as-is, the remainder is forwarded to replay. The two parts
//! partition the chunk's clipped span with no overlap and no gap.

use vstd::prelude::*;
use crate::chunk::LoadedChunk;

verus! {

/// A run of records for consecutive versions starting at `first_version`.
pub struct VersionedRecords {
    pub first_version: u64,
    pub records: Vec<Vec<u8>>,
}

impl VersionedRecords {
    /// Non-empty, with every version of the run representable.
    pub open spec fn wf(self) -> bool {
        &&& self.records.len() >= 1
        &&& self.first_version + self.records.len() - 1 <= u64::MAX
    }

    /// The version of the last record of the run.
    pub open spec fn last_version(self) -> int {
        self.first_version + self.records.len() - 1
    }

    /// The set of versions the run covers.
    pub open spec fn versions(self) -> Set<int> {
        version_range(self.first_version as int, self.last_version())
    }
}

/// All versions from `first` through `last`, inclusive.
pub open spec fn version_range(first: int, last: int) -> Set<int> {
    Set::new(|v: int| first <= v <= last)
}

/// The versions an optional run covers: none where there is no run.
pub open spec fn opt_versions(o: Option<VersionedRecords>) -> Set<int> {
    match o {
        Option::Some(vr) => vr.versions(),
        Option::None => Set::empty(),
    }
}

/// The version at which raw saving ends and replay begins: the explicit
/// replay-from version (absent meaning "replay nothing by choice") or the
/// target store's next expected version, whichever is higher. The store
/// refuses replayed output below what it has already committed, so across
/// runs this value only ever moves forward.
pub open spec fn spec_replay_cutoff(
    replay_from_version: Option<u64>,
    next_expected_version: u64,
) -> u64 {
    let rf = match replay_from_version {
        Option::Some(v) => v,
        Option::None => u64::MAX,
    };
    if rf > next_expected_version {
        rf
    } else {
        next_expected_version
    }
}

/// Computes the replay cutoff of a run.
pub fn replay_cutoff(replay_from_version: Option<u64>, next_expected_version: u64) -> (r: u64)
    ensures
        r == spec_replay_cutoff(replay_from_version, next_expected_version),
{
    let rf = match replay_from_version {
        Some(v) => v,
        None => u64::MAX,
    };
    if rf > next_expected_version {
        rf
    } else {
        next_expected_version
    }
}

/// How many of a chunk's records fall below the cutoff.
pub open spec fn spec_num_to_save(chunk: LoadedChunk, cutoff: u64) -> int {
    if cutoff > chunk.manifest.last_version {
        chunk.manifest.num_versions()
    } else if cutoff <= chunk.manifest.first_version {
        0
    } else {
        cutoff - chunk.manifest.first_version
    }
}

/// Clips a chunk to the target version: records beyond the target are
/// dropped and the declared span end adjusted; a chunk already within the
/// target is returned unchanged.
pub fn clip_chunk(chunk: LoadedChunk, target_version: u64) -> (r: LoadedChunk)
    requires
        chunk.wf(),
        chunk.manifest.first_version <= target_version,
    ensures
        r.wf(),
        r.manifest.first_version == chunk.manifest.first_version,
        r.manifest.transactions == chunk.manifest.transactions,
        r.manifest.proof == chunk.manifest.proof,
        r.manifest.last_version == (if chunk.manifest.last_version <= target_version {
            chunk.manifest.last_version
        } else {
            target_version
        }),
        r.records@ == chunk.records@.subrange(0, r.manifest.num_versions()),
{
    let mut manifest = chunk.manifest;
    let mut records = chunk.records;
    if target_version < manifest.last_version {
        let num_to_keep_u64 = target_version - manifest.first_version + 1;
        assert(num_to_keep_u64 <= records.len());
        let num_to_keep = num_to_keep_u64 as usize;
        records.truncate(num_to_keep);
        manifest.last_version = target_version;
    } else {
        proof {
            assert(chunk.records@.subrange(0, chunk.manifest.num_versions()) =~= chunk.records@);
        }
    }
    LoadedChunk { manifest, records }
}

/// Splits a clipped chunk at the replay cutoff. The first component is the
/// prefix to persist as-is (present exactly when the chunk starts below the
/// cutoff), the second the remainder to replay (present exactly when the
/// chunk ends at or past the cutoff). Together they partition the chunk's
/// span: saved versions lie below the cutoff, replayed versions at or above
/// it, with no overlap and no gap.
#[verifier::loop_isolation(false)]
pub fn split_chunk(chunk: LoadedChunk, cutoff: u64) -> (r: (
    Option<VersionedRecords>,
    Option<VersionedRecords>,
))
    requires
        chunk.wf(),
    ensures
        r.0 is Some <==> chunk.manifest.first_version < cutoff,
        r.1 is Some <==> chunk.manifest.last_version >= cutoff,
        (r.0 matches Option::Some(s) ==> {
            &&& s.wf()
            &&& s.first_version == chunk.manifest.first_version
            &&& s.records@ == chunk.records@.subrange(0, spec_num_to_save(chunk, cutoff))
            &&& s.last_version() == (if chunk.manifest.last_version < cutoff {
                chunk.manifest.last_version as int
            } else {
                cutoff - 1
            })
        }),
        (r.1 matches Option::Some(p) ==> {
            &&& p.wf()
            &&& p.first_version == (if cutoff > chunk.manifest.first_version {
                cutoff
            } else {
                chunk.manifest.first_version
            })
            &&& p.records@ == chunk.records@.subrange(
                spec_num_to_save(chunk, cutoff),
                chunk.manifest.num_versions(),
            )
            &&& p.last_version() == chunk.manifest.last_version
        }),
        opt_versions(r.0).disjoint(opt_versions(r.1)),
        opt_versions(r.0).union(opt_versions(r.1)) == version_range(
            chunk.manifest.first_version as int,
            chunk.manifest.last_version as int,
        ),
        forall|v: int| opt_versions(r.0).contains(v) ==> v < cutoff,
        forall|v: int| opt_versions(r.1).contains(v) ==> v >= cutoff,
{
    let first_version = chunk.manifest.first_version;
    let last_version = chunk.manifest.last_version;
    let mut records = chunk.records;
    let ghost records0 = records@;
    let num_to_save: usize = if cutoff > last_version {
        records.len()
    } else if cutoff <= first_version {
        0
    } else {
        assert(cutoff - first_version <= records.len());
        (cutoff - first_version) as usize
    };
    let mut to_save: Vec<Vec<u8>> = Vec::new();
    while to_save.len() < num_to_save
        invariant
            to_save.len() <= num_to_save,
            to_save@ == records0.subrange(0, to_save.len() as int),
            records@ == records0.skip(to_save.len() as int),
        decreases num_to_save - to_save.len(),
    {
        let ghost t = to_save.len() as int;
        let rec = records.remove(0);
        to_save.push(rec);
        proof {
            assert(records@ =~= records0.skip(t + 1));
            assert(to_save@ =~= records0.subrange(0, t + 1));
        }
    }
    proof {
        assert(records@ =~= records0.subrange(num_to_save as int, records0.len() as int));
    }
    let save = if num_to_save > 0 {
        Some(VersionedRecords { first_version, records: to_save })
    } else {
        None
    };
    let replay = if records.len() > 0 {
        let replay_first = if cutoff > first_version {
            cutoff
        } else {
            first_version
        };
        Some(VersionedRecords { first_version: replay_first, records })
    } else {
        None
    };
    proof {
        assert forall|v: int|
            opt_versions(save).contains(v) implies v < cutoff && !opt_versions(replay).contains(
            v,
        ) by {}
        assert(opt_versions(save).union(opt_versions(replay)) =~= version_range(
            chunk.manifest.first_version as int,
            chunk.manifest.last_version as int,
        ));
    }
    (save, replay)
}

} // verus!
