//! The restore controllers: run configuration, and the run itself. The
//! collaborators fetch manifests and chunk payloads; the run takes those as
//! plain values, in manifest order, and computes the whole transcript of
//! mutating calls the pipeline issues — which record runs are raw-saved,
//! which batches are replayed and committed, and the final watermarks.

use vstd::prelude::*;
use crate::chunk::{chunk_payload_accepted, spec_load_error, ChunkPayload, LoadedChunk};
use crate::records::decode_records;
use crate::discovery::{
    chunks_contiguous, chunks_wf_bounded, collect_chunks, lemma_collected_chunks_contiguous,
    lemma_contiguous_chain, spec_collect_chunks,
};
use crate::errors::RestoreError;
use crate::manifest::{TransactionBackup, TransactionChunk};
use crate::replay::{
    batch_replay_stream, batches_model, batches_records, lemma_batches_chain, spec_batches,
    ReplayBatch, BATCH_SIZE,
};
use crate::splitter::{
    clip_chunk, opt_versions, replay_cutoff, spec_replay_cutoff, split_chunk, version_range,
    VersionedRecords,
};

verus! {

/// How a run treats the verified chunk stream: persist (and replay) into a
/// live store whose next expected version is known, or only validate the
/// chain of proofs, mutating nothing.
#[derive(Clone, Copy)]
pub enum RestoreRunMode {
    Restore { next_expected_version: u64 },
    Verify,
}

impl RestoreRunMode {
    /// The run mode's name, as reported in logs.
    pub fn name(&self) -> (r: &'static str)
        ensures
            r@ == (match self {
                RestoreRunMode::Restore { .. } => "restore"@,
                RestoreRunMode::Verify => "verify"@,
            }),
    {
        match self {
            RestoreRunMode::Restore { .. } => "restore",
            RestoreRunMode::Verify => "verify",
        }
    }
}

/// Immutable configuration shared by the whole run.
#[derive(Clone, Copy)]
pub struct GlobalRestoreOptions {
    pub target_version: u64,
    pub concurrent_downloads: usize,
    pub replay_concurrency_level: usize,
    pub run_mode: RestoreRunMode,
}

/// The command-line surface of a single-manifest restore: the manifest
/// handle and an optional version to replay from.
pub struct TransactionRestoreOpt {
    pub manifest_handle: String,
    pub replay_from_version: Option<u64>,
}

impl TransactionRestoreOpt {
    /// The version replay starts from: the explicit option, or the largest
    /// version (replay nothing by choice) where none was given.
    pub fn replay_from_version(&self) -> (r: u64)
        ensures
            r == (match self.replay_from_version {
                Option::Some(v) => v,
                Option::None => u64::MAX,
            }),
    {
        match self.replay_from_version {
            Some(v) => v,
            None => u64::MAX,
        }
    }
}

/// The transcript of a run: the raw-save calls in order, the replay batches
/// in submission order, and the final watermarks.
pub struct RunReport {
    /// The first version of the run, read from the first verified chunk
    /// before anything is persisted (the store confirms or saves its frozen
    /// subtrees at this version).
    pub global_first_version: Option<u64>,
    pub saves: Vec<VersionedRecords>,
    pub batches: Vec<ReplayBatch>,
    pub last_saved: Option<u64>,
    pub last_replayed: Option<u64>,
    pub last_verified: Option<u64>,
}

/// The versions covered by a sequence of raw-save runs.
pub open spec fn saves_versions(ss: Seq<VersionedRecords>) -> Set<int>
    decreases ss.len(),
{
    if ss.len() == 0 {
        Set::empty()
    } else {
        ss[0].versions().union(saves_versions(ss.drop_first()))
    }
}

proof fn lemma_saves_versions_push(ss: Seq<VersionedRecords>, s: VersionedRecords)
    ensures
        saves_versions(ss.push(s)) == saves_versions(ss).union(s.versions()),
    decreases ss.len(),
{
    if ss.len() == 0 {
        assert(ss.push(s)[0] == s);
        assert(ss.push(s).drop_first() =~= Seq::<VersionedRecords>::empty());
        assert(saves_versions(ss.push(s).drop_first()) =~= Set::<int>::empty());
        assert(saves_versions(ss) =~= Set::<int>::empty());
        assert(saves_versions(ss.push(s)) =~= saves_versions(ss).union(s.versions()));
    } else {
        lemma_saves_versions_push(ss.drop_first(), s);
        assert(ss.push(s)[0] == ss[0]);
        assert(ss.push(s).drop_first() =~= ss.drop_first().push(s));
        assert(saves_versions(ss.push(s)) == ss[0].versions().union(
            saves_versions(ss.drop_first().push(s)),
        ));
        assert(saves_versions(ss.push(s)) =~= saves_versions(ss).union(s.versions()));
    }
}

/// The records of a sequence of raw-save runs, in order.
pub open spec fn saves_records(ss: Seq<VersionedRecords>) -> Seq<Vec<u8>>
    decreases ss.len(),
{
    if ss.len() == 0 {
        Seq::empty()
    } else {
        saves_records(ss.drop_last()) + ss.last().records@
    }
}

/// The records an optional replay stream holds: none where there is none.
pub open spec fn opt_records(o: Option<VersionedRecords>) -> Seq<Vec<u8>> {
    match o {
        Option::Some(vr) => vr.records@,
        Option::None => Seq::empty(),
    }
}

/// The data of a sequence of records, element by element.
pub open spec fn records_data(rs: Seq<Vec<u8>>) -> Seq<Seq<u8>> {
    rs.map(|i: int, r: Vec<u8>| r@)
}

/// How many versions of chunk `c` a run bounded by the target processes.
pub open spec fn spec_clipped_count(c: TransactionChunk, target_version: u64) -> int {
    if c.last_version <= target_version {
        c.num_versions()
    } else {
        target_version - c.first_version + 1
    }
}

/// The records the run processes from the first `k` chunks, in order: each
/// chunk's decoded records, clipped to the target.
pub open spec fn spec_clipped_records(
    cs: Seq<TransactionChunk>,
    ps: Seq<ChunkPayload>,
    target_version: u64,
    k: int,
) -> Seq<Seq<u8>>
    decreases k,
{
    if k <= 0 {
        Seq::empty()
    } else {
        spec_clipped_records(cs, ps, target_version, k - 1) + decode_records(
            ps[k - 1].record_blob@,
        )->0.take(spec_clipped_count(cs[k - 1], target_version))
    }
}

/// The last version a run through `cs` touches: the last chunk's span end,
/// clipped to the target.
pub open spec fn effective_last(cs: Seq<TransactionChunk>, target_version: u64) -> int {
    if cs[cs.len() - 1].last_version <= target_version {
        cs[cs.len() - 1].last_version as int
    } else {
        target_version as int
    }
}

/// Whether chunk `i` is the first whose payload fails its load-time checks,
/// failing with error `e`.
pub open spec fn rejected_at(
    cs: Seq<TransactionChunk>,
    ps: Seq<ChunkPayload>,
    i: int,
    e: RestoreError,
) -> bool {
    &&& 0 <= i < cs.len()
    &&& !chunk_payload_accepted(cs[i], ps[i])
    &&& forall|j: int| 0 <= j < i ==> chunk_payload_accepted(cs[j], #[trigger] ps[j])
    &&& e == spec_load_error(cs[i], ps[i])
}

/// What a successful restore-mode run reports over the discovered chunks:
/// saved and replayed versions partition the covered span at the cutoff,
/// batches chain seamlessly from the replay start to the effective end, and
/// the watermarks name the last saved and last committed versions.
pub open spec fn restore_report_ok(
    report: RunReport,
    cs: Seq<TransactionChunk>,
    ps: Seq<ChunkPayload>,
    target_version: u64,
    cutoff: u64,
) -> bool {
    let global_first = cs[0].first_version as int;
    let eff_last = effective_last(cs, target_version);
    let replay_start = if cutoff > cs[0].first_version {
        cutoff as int
    } else {
        global_first
    };
    let replayed = if eff_last >= cutoff {
        version_range(replay_start, eff_last)
    } else {
        Set::<int>::empty()
    };
    &&& report.global_first_version == Option::Some(cs[0].first_version)
    &&& report.last_verified is None
    &&& forall|j: int| 0 <= j < report.saves@.len() ==> (#[trigger] report.saves@[j]).wf()
    &&& forall|v: int| saves_versions(report.saves@).contains(v) ==> v < cutoff
    &&& saves_versions(report.saves@).disjoint(replayed)
    &&& saves_versions(report.saves@).union(replayed) == version_range(global_first, eff_last)
    &&& records_data(saves_records(report.saves@)) + records_data(
        batches_records(batches_model(report.batches@)),
    ) == spec_clipped_records(cs, ps, target_version, cs.len() as int)
    &&& report.last_saved == (if global_first < cutoff {
        Option::Some((if cutoff - 1 <= eff_last {
            cutoff - 1
        } else {
            eff_last
        }) as u64)
    } else {
        Option::<u64>::None
    })
    &&& (eff_last < cutoff ==> report.batches@.len() == 0 && report.last_replayed is None)
    &&& (eff_last >= cutoff ==> {
        let bs = report.batches@;
        &&& bs.len() > 0
        &&& bs[0].first_version == replay_start
        &&& forall|i: int|
            0 <= i < bs.len() ==> (#[trigger] bs[i]).wf() && bs[i].records@.len() <= BATCH_SIZE
        &&& forall|i: int| 0 <= i < bs.len() - 1 ==> (#[trigger] bs[i]).records@.len() == BATCH_SIZE
        &&& forall|i: int|
            0 <= i < bs.len() - 1 ==> (#[trigger] bs[i + 1]).first_version == bs[i].first_version
                + bs[i].records@.len()
        &&& bs[bs.len() - 1].last_version() == eff_last
        &&& report.last_replayed == Option::Some(eff_last as u64)
    })
}

/// Drives the verify-only fold: every chunk is loaded and authenticated in
/// order, nothing is persisted, and the watermark follows the last chunk
/// seen.
#[verifier::loop_isolation(false)]
fn run_verify_only(chunks: Vec<TransactionChunk>, payloads: Vec<ChunkPayload>) -> (r: Result<
    RunReport,
    RestoreError,
>)
    requires
        chunks@.len() > 0,
        payloads@.len() == chunks@.len(),
        forall|i: int| 0 <= i < chunks@.len() ==> (#[trigger] chunks@[i]).wf(),
    ensures
        (r is Ok <==> (forall|i: int|
            0 <= i < chunks@.len() ==> chunk_payload_accepted(
                chunks@[i],
                #[trigger] payloads@[i],
            ))),
        (r matches Result::Err(e) ==> exists|i: int| rejected_at(chunks@, payloads@, i, e)),
        (r matches Result::Ok(report) ==> {
            &&& report.global_first_version == Option::Some(chunks@[0].first_version)
            &&& report.saves@.len() == 0
            &&& report.batches@.len() == 0
            &&& report.last_saved is None
            &&& report.last_replayed is None
            &&& report.last_verified == Option::Some(chunks@[chunks@.len() - 1].last_version)
        }),
{
    let ghost cs = chunks@;
    let ghost ps = payloads@;
    let global_first_version = chunks[0].first_version;
    let mut chunks = chunks;
    let mut payloads = payloads;
    let mut idx: usize = 0;
    let n = chunks.len();
    let mut last_verified: u64 = 0;
    while idx < n
        invariant
            idx <= n,
            chunks@ == cs.skip(idx as int),
            payloads@ == ps.skip(idx as int),
            forall|j: int| 0 <= j < idx ==> chunk_payload_accepted(cs[j], #[trigger] ps[j]),
            idx > 0 ==> last_verified == cs[idx - 1].last_version,
        decreases n - idx,
    {
        let chunk = chunks.remove(0);
        let payload = payloads.remove(0);
        proof {
            assert(chunks@ =~= cs.skip(idx as int + 1));
            assert(payloads@ =~= ps.skip(idx as int + 1));
            assert(chunk == cs[idx as int]);
            assert(payload == ps[idx as int]);
        }
        let loaded = match LoadedChunk::load(chunk, payload) {
            Ok(loaded) => loaded,
            Err(e) => {
                proof {
                    assert(rejected_at(cs, ps, idx as int, e));
                }
                return Err(e);
            },
        };
        last_verified = loaded.manifest.last_version;
        idx = idx + 1;
    }
    Ok(
        RunReport {
            global_first_version: Some(global_first_version),
            saves: Vec::new(),
            batches: Vec::new(),
            last_saved: None,
            last_replayed: None,
            last_verified: Some(last_verified),
        },
    )
}

/// Drives the restore-mode fold: every chunk is loaded, authenticated,
/// clipped to the target, and split at the cutoff; the prefixes become
/// raw-save calls in order, the remainders are merged into one contiguous
/// replay stream and batched.
#[verifier::loop_isolation(false)]
#[verifier::rlimit(60)]
fn run_restore(
    chunks: Vec<TransactionChunk>,
    payloads: Vec<ChunkPayload>,
    target_version: u64,
    cutoff: u64,
) -> (r: Result<RunReport, RestoreError>)
    requires
        chunks@.len() > 0,
        payloads@.len() == chunks@.len(),
        chunks_wf_bounded(chunks@, target_version),
        chunks_contiguous(chunks@),
    ensures
        (r is Ok <==> (forall|i: int|
            0 <= i < chunks@.len() ==> chunk_payload_accepted(
                chunks@[i],
                #[trigger] payloads@[i],
            ))),
        (r matches Result::Err(e) ==> exists|i: int| rejected_at(chunks@, payloads@, i, e)),
        (r matches Result::Ok(report) ==> restore_report_ok(
            report,
            chunks@,
            payloads@,
            target_version,
            cutoff,
        )),
{
    let ghost cs = chunks@;
    let ghost ps = payloads@;
    let global_first = chunks[0].first_version;
    let ghost replay_start: int = if cutoff > global_first {
        cutoff as int
    } else {
        global_first as int
    };
    let mut chunks = chunks;
    let mut payloads = payloads;
    let mut idx: usize = 0;
    let n = chunks.len();
    let mut saves: Vec<VersionedRecords> = Vec::new();
    let mut merged: Option<VersionedRecords> = None;
    let mut eff_last: u64 = 0;
    proof {
        assert(saves_records(saves@) =~= Seq::<Vec<u8>>::empty());
        assert(records_data(saves_records(saves@)) + records_data(opt_records(merged))
            =~= Seq::<Seq<u8>>::empty());
        assert(spec_clipped_records(cs, ps, target_version, 0) =~= Seq::<Seq<u8>>::empty());
    }
    while idx < n
        invariant
            idx <= n,
            chunks@ == cs.skip(idx as int),
            payloads@ == ps.skip(idx as int),
            forall|j: int| 0 <= j < idx ==> chunk_payload_accepted(cs[j], #[trigger] ps[j]),
            forall|j: int| 0 <= j < saves@.len() ==> (#[trigger] saves@[j]).wf(),
            forall|v: int| saves_versions(saves@).contains(v) ==> v < cutoff,
            idx == 0 ==> saves@.len() == 0 && merged is None,
            idx > 0 ==> eff_last == (if cs[idx - 1].last_version <= target_version {
                cs[idx - 1].last_version
            } else {
                target_version
            }),
            idx > 0 ==> saves_versions(saves@).union(opt_versions(merged)) == version_range(
                global_first as int,
                eff_last as int,
            ),
            records_data(saves_records(saves@)) + records_data(opt_records(merged))
                == spec_clipped_records(cs, ps, target_version, idx as int),
            (merged matches Option::Some(m) ==> {
                &&& idx > 0
                &&& m.wf()
                &&& m.first_version == replay_start
                &&& m.last_version() == eff_last
                &&& eff_last >= cutoff
            }),
            (merged is None && idx > 0 ==> eff_last < cutoff),
        decreases n - idx,
    {
        let chunk = chunks.remove(0);
        let payload = payloads.remove(0);
        let chunk_last_version = chunk.last_version;
        proof {
            assert(chunks@ =~= cs.skip(idx as int + 1));
            assert(payloads@ =~= ps.skip(idx as int + 1));
            assert(chunk == cs[idx as int]);
            assert(payload == ps[idx as int]);
        }
        let loaded = match LoadedChunk::load(chunk, payload) {
            Ok(loaded) => loaded,
            Err(e) => {
                proof {
                    assert(rejected_at(cs, ps, idx as int, e));
                }
                return Err(e);
            },
        };
        // Only the final chunk can cross the target: any earlier chunk's
        // successor starts past the target otherwise, which discovery
        // excluded.
        proof {
            if idx as int + 1 < cs.len() && cs[idx as int].last_version > target_version {
                assert(cs[idx as int + 1].first_version == cs[idx as int].last_version + 1);
                assert(false);
            }
        }
        let clipped = clip_chunk(loaded, target_version);
        let ghost clipped_first = clipped.manifest.first_version as int;
        let ghost clipped_last = clipped.manifest.last_version as int;
        let ghost eff_before: int = eff_last as int;
        proof {
            // The chunk continues right after everything processed so far.
            if idx > 0 {
                if cs[idx as int - 1].last_version > target_version {
                    assert(cs[idx as int].first_version == cs[idx as int - 1].last_version + 1);
                    assert(false);
                }
                assert(eff_before == cs[idx as int - 1].last_version);
                assert(clipped_first == eff_before + 1);
                lemma_contiguous_chain(cs, 0, idx as int);
                assert(global_first <= eff_before);
            }
        }
        let ghost loaded_records = loaded.records@;
        let ghost clipped_records = clipped.records@;
        let ghost chunk_clipped_data = decode_records(ps[idx as int].record_blob@)->0.take(
            spec_clipped_count(cs[idx as int], target_version),
        );
        proof {
            // The clipped records are exactly the decoded records of this
            // chunk's payload, cut at the target.
            assert(records_data(loaded_records) =~~= loaded.records.deep_view());
            assert(clipped_records == loaded_records.subrange(
                0,
                spec_clipped_count(cs[idx as int], target_version),
            ));
            assert(records_data(clipped_records) =~= records_data(loaded_records).subrange(
                0,
                spec_clipped_count(cs[idx as int], target_version),
            ));
            assert(records_data(clipped_records) =~= chunk_clipped_data);
        }
        let (save_part, replay_part) = split_chunk(clipped, cutoff);
        let ghost save_g = save_part;
        let ghost replay_g = replay_part;
        let ghost saves_before = saves@;
        let ghost merged_before = merged;
        proof {
            assert(opt_records(save_g) + opt_records(replay_g) =~= clipped_records);
        }
        if let Some(s) = save_part {
            saves.push(s);
            proof {
                lemma_saves_versions_push(saves_before, s);
                assert(saves@.drop_last() =~= saves_before);
                assert(saves@.last() == s);
            }
        }
        proof {
            assert(saves_versions(saves@) =~= saves_versions(saves_before).union(
                opt_versions(save_g),
            ));
            assert(saves_records(saves@) =~= saves_records(saves_before) + opt_records(save_g));
        }
        match replay_part {
            Some(p) => {
                match merged {
                    Some(mut m) => {
                        proof {
                            assert(eff_before >= cutoff);
                            assert(clipped_first > cutoff);
                            assert(p.first_version as int == clipped_first);
                            assert(p.first_version as int == m.last_version() + 1);
                        }
                        let ghost m_before = m;
                        let mut tail = p.records;
                        m.records.append(&mut tail);
                        proof {
                            assert(m.first_version == m_before.first_version);
                            assert(m.records@.len() == m_before.records@.len()
                                + p.records@.len());
                            assert(m.last_version() == clipped_last);
                            assert(m.versions() =~= m_before.versions().union(p.versions()));
                        }
                        merged = Some(m);
                    },
                    None => {
                        proof {
                            if idx == 0 {
                                assert(p.first_version as int == replay_start);
                            } else {
                                assert(eff_before < cutoff);
                                assert(clipped_first == eff_before + 1);
                                assert(clipped_first <= cutoff);
                                assert(p.first_version == cutoff);
                                assert(global_first <= eff_before);
                                assert(global_first < cutoff);
                                assert(p.first_version as int == replay_start);
                            }
                        }
                        merged = Some(p);
                    },
                }
            },
            None => {
                proof {
                    if merged_before is Some {
                        // A chunk after replay began always contributes to
                        // replay: its whole clipped span lies past the
                        // cutoff.
                        assert(eff_before >= cutoff);
                        assert(clipped_last >= clipped_first);
                        assert(clipped_first == eff_before + 1);
                        assert(clipped_last >= cutoff);
                        assert(false);
                    }
                }
            },
        }
        eff_last = if chunk_last_version <= target_version {
            chunk_last_version
        } else {
            target_version
        };
        idx = idx + 1;
        proof {
            assert(eff_last as int == clipped_last);
            assert(opt_versions(save_g).union(opt_versions(replay_g)) == version_range(
                clipped_first,
                clipped_last,
            ));
            assert(opt_versions(merged) =~= opt_versions(merged_before).union(
                opt_versions(replay_g),
            ));
            if idx as int - 1 > 0 {
                assert(saves_versions(saves_before).union(opt_versions(merged_before))
                    == version_range(global_first as int, eff_before));
                assert(clipped_first == eff_before + 1);
            } else {
                assert(saves_before =~= Seq::<VersionedRecords>::empty());
                assert(saves_versions(saves_before) =~= Set::<int>::empty());
                assert(merged_before is None);
                assert(clipped_first == global_first);
            }
            assert(saves_versions(saves@).union(opt_versions(merged)) =~= (saves_versions(
                saves_before,
            ).union(opt_versions(merged_before))).union(
                opt_versions(save_g).union(opt_versions(replay_g)),
            ));
            assert(saves_versions(saves@).union(opt_versions(merged)) =~= version_range(
                global_first as int,
                eff_last as int,
            ));
            // Content: the records processed so far grow by this chunk's
            // clipped records; saves always precede the replay stream, so
            // the concatenation order is preserved.
            assert(opt_records(merged) =~= opt_records(merged_before) + opt_records(replay_g));
            if merged_before is Some {
                assert(opt_records(save_g) =~= Seq::<Vec<u8>>::empty());
            }
            assert(records_data(saves_records(saves@)) + records_data(opt_records(merged)) =~= (
            records_data(saves_records(saves_before)) + records_data(opt_records(merged_before)))
                + records_data(clipped_records)) by {
                assert(records_data(saves_records(saves@)) =~= records_data(
                    saves_records(saves_before),
                ) + records_data(opt_records(save_g)));
                assert(records_data(opt_records(merged)) =~= records_data(
                    opt_records(merged_before),
                ) + records_data(opt_records(replay_g)));
                assert(records_data(clipped_records) =~= records_data(opt_records(save_g))
                    + records_data(opt_records(replay_g)));
                if merged_before is Some {
                    assert(records_data(opt_records(save_g)) =~= Seq::<Seq<u8>>::empty());
                } else {
                    assert(records_data(opt_records(merged_before)) =~= Seq::<Seq<u8>>::empty());
                }
            }
            assert(spec_clipped_records(cs, ps, target_version, idx as int)
                == spec_clipped_records(cs, ps, target_version, idx as int - 1)
                + chunk_clipped_data);
        }
    }
    let last_saved: Option<u64> = if global_first < cutoff {
        Some(
            if cutoff - 1 <= eff_last {
                cutoff - 1
            } else {
                eff_last
            },
        )
    } else {
        None
    };
    match merged {
        Some(m) => {
            let ghost m_spec = m;
            let last_replayed = eff_last;
            let batches = batch_replay_stream(m, BATCH_SIZE);
            proof {
                lemma_batches_chain(m_spec.first_version as int, m_spec.records@, BATCH_SIZE as int);
                let sb = spec_batches(m_spec.first_version as int, m_spec.records@, BATCH_SIZE as int);
                assert(batches_model(batches@) == sb);
                assert(batches@.len() == sb.len());
                assert forall|i: int| 0 <= i < batches@.len() implies (#[trigger] batches@[i]).records@.len()
                    == sb[i].1.len() && batches@[i].first_version == sb[i].0 by {
                    assert(batches_model(batches@)[i] == batches@[i].model());
                }
            }
            Ok(
                RunReport {
                    global_first_version: Some(global_first),
                    saves,
                    batches,
                    last_saved,
                    last_replayed: Some(last_replayed),
                    last_verified: None,
                },
            )
        },
        None => {
            Ok(
                RunReport {
                    global_first_version: Some(global_first),
                    saves,
                    batches: Vec::new(),
                    last_saved,
                    last_replayed: None,
                    last_verified: None,
                },
            )
        },
    }
}

/// Within a successful restore report, batch start versions never run
/// backwards: every batch starts at or after the first.
proof fn lemma_report_batches_ascend(
    report: RunReport,
    cs: Seq<TransactionChunk>,
    ps: Seq<ChunkPayload>,
    target_version: u64,
    cutoff: u64,
    i: int,
)
    requires
        cs.len() > 0,
        restore_report_ok(report, cs, ps, target_version, cutoff),
        effective_last(cs, target_version) >= cutoff,
        0 <= i < report.batches@.len(),
    ensures
        report.batches@[i].first_version >= report.batches@[0].first_version,
    decreases i,
{
    if i > 0 {
        lemma_report_batches_ascend(report, cs, ps, target_version, cutoff, i - 1);
        assert(report.batches@[i - 1 + 1].first_version == report.batches@[i - 1].first_version
            + report.batches@[i - 1].records@.len());
        assert(report.batches@[i - 1 + 1] == report.batches@[i]);
    }
}

/// The law of resumption over a whole run: when the cutoff is recomputed
/// from the target store's next expected version, no batch of the reported
/// replay transcript touches a version the store has already committed —
/// every batch lies wholly at or above that next expected version. (The
/// raw-save transcript may still cover versions an earlier run persisted;
/// the store ignores such duplicate saves.)
pub proof fn lemma_run_never_replays_committed(
    report: RunReport,
    cs: Seq<TransactionChunk>,
    ps: Seq<ChunkPayload>,
    target_version: u64,
    replay_from_version: Option<u64>,
    next_expected_version: u64,
)
    requires
        cs.len() > 0,
        restore_report_ok(
            report,
            cs,
            ps,
            target_version,
            spec_replay_cutoff(replay_from_version, next_expected_version),
        ),
    ensures
        forall|i: int|
            0 <= i < report.batches@.len() ==> (#[trigger] report.batches@[i]).first_version
                >= next_expected_version,
{
    let cutoff = spec_replay_cutoff(replay_from_version, next_expected_version);
    if report.batches@.len() > 0 {
        assert(effective_last(cs, target_version) >= cutoff) by {
            if effective_last(cs, target_version) < cutoff {
                assert(report.batches@.len() == 0);
            }
        }
        assert forall|i: int| 0 <= i < report.batches@.len() implies (
        #[trigger] report.batches@[i]).first_version >= next_expected_version by {
            lemma_report_batches_ascend(report, cs, ps, target_version, cutoff, i);
            assert(report.batches@[0].first_version >= cutoff);
        }
    }
}

/// Takes a series of transaction backup manifests and drives the whole
/// pipeline over them: discovery with contiguity checking, per-chunk load
/// and authentication, then the run mode's fold — raw saves and batched
/// replay, or verification only.
pub struct TransactionRestoreBatchController {
    pub global_opt: GlobalRestoreOptions,
    pub manifest_handles: Vec<String>,
    pub replay_from_version: Option<u64>,
    /// Whether an epoch-history trust anchor accompanies the run, so
    /// checkpoint signatures are checked at load time.
    pub has_epoch_history: bool,
}

impl TransactionRestoreBatchController {
    /// Bundles a run's configuration.
    pub fn new(
        global_opt: GlobalRestoreOptions,
        manifest_handles: Vec<String>,
        replay_from_version: Option<u64>,
        has_epoch_history: bool,
    ) -> (r: TransactionRestoreBatchController)
        ensures
            r.global_opt == global_opt,
            r.manifest_handles == manifest_handles,
            r.replay_from_version == replay_from_version,
            r.has_epoch_history == has_epoch_history,
    {
        TransactionRestoreBatchController {
            global_opt,
            manifest_handles,
            replay_from_version,
            has_epoch_history,
        }
    }

    /// The run's name, as reported on completion or failure.
    pub fn name(&self) -> (r: &'static str)
        ensures
            r@ == (match self.global_opt.run_mode {
                RestoreRunMode::Restore { .. } => "transaction restore"@,
                RestoreRunMode::Verify => "transaction verify"@,
            }),
    {
        match self.global_opt.run_mode {
            RestoreRunMode::Restore { .. } => "transaction restore",
            RestoreRunMode::Verify => "transaction verify",
        }
    }

    /// Runs the pipeline over the fetched manifests and, per discovered
    /// chunk, its fetched payload (aligned with the discovery order; the
    /// caller discovers via `collect_chunks` before fetching). No manifest
    /// handles means immediate success with no persistence and no replay;
    /// manifests that yield no chunk at all are an error; otherwise the
    /// chunks are loaded in order and folded according to the run mode.
    pub fn run(self, manifests: Vec<TransactionBackup>, payloads: Vec<ChunkPayload>) -> (r:
        Result<RunReport, RestoreError>)
        requires
            manifests@.len() == self.manifest_handles@.len(),
            (spec_collect_chunks(manifests@, self.global_opt.target_version) matches Result::Ok(cs)
                ==> payloads@.len() == cs.len()),
        ensures
            (self.manifest_handles@.len() == 0 ==> (r matches Result::Ok(report)
                && report.global_first_version is None && report.saves@.len() == 0
                && report.batches@.len() == 0 && report.last_saved is None
                && report.last_replayed is None && report.last_verified is None)),
            (spec_collect_chunks(manifests@, self.global_opt.target_version) matches Result::Err(e)
                ==> r == Result::<RunReport, RestoreError>::Err(e)),
            (self.manifest_handles@.len() > 0 ==> (spec_collect_chunks(
                manifests@,
                self.global_opt.target_version,
            ) matches Result::Ok(cs) ==> {
                &&& (cs.len() == 0 ==> r == Result::<RunReport, RestoreError>::Err(
                    RestoreError::EmptyChunkStream,
                ))
                &&& (cs.len() > 0 ==> {
                    &&& (r is Ok <==> (forall|i: int|
                        0 <= i < cs.len() ==> chunk_payload_accepted(
                            cs[i],
                            #[trigger] payloads@[i],
                        )))
                    &&& (r matches Result::Err(e) ==> e == RestoreError::EmptyChunkStream
                        || exists|i: int| rejected_at(cs, payloads@, i, e))
                    &&& (r matches Result::Ok(report) ==> (match self.global_opt.run_mode {
                        RestoreRunMode::Verify => {
                            &&& report.global_first_version == Option::Some(cs[0].first_version)
                            &&& report.saves@.len() == 0
                            &&& report.batches@.len() == 0
                            &&& report.last_saved is None
                            &&& report.last_replayed is None
                            &&& report.last_verified == Option::Some(
                                cs[cs.len() - 1].last_version,
                            )
                        },
                        RestoreRunMode::Restore { next_expected_version } => restore_report_ok(
                            report,
                            cs,
                            payloads@,
                            self.global_opt.target_version,
                            spec_replay_cutoff(self.replay_from_version, next_expected_version),
                        ),
                    }))
                })
            })),
    {
        if self.manifest_handles.len() == 0 {
            return Ok(
                RunReport {
                    global_first_version: None,
                    saves: Vec::new(),
                    batches: Vec::new(),
                    last_saved: None,
                    last_replayed: None,
                    last_verified: None,
                },
            );
        }
        let target_version = self.global_opt.target_version;
        proof {
            lemma_collected_chunks_contiguous(manifests@, target_version);
        }
        let chunks = match collect_chunks(manifests, target_version) {
            Ok(chunks) => chunks,
            Err(e) => {
                return Err(e);
            },
        };
        if chunks.len() == 0 {
            return Err(RestoreError::EmptyChunkStream);
        }
        match self.global_opt.run_mode {
            RestoreRunMode::Restore { next_expected_version } => {
                let cutoff = replay_cutoff(self.replay_from_version, next_expected_version);
                run_restore(chunks, payloads, target_version, cutoff)
            },
            RestoreRunMode::Verify => run_verify_only(chunks, payloads),
        }
    }
}

/// A restore run over a single manifest handle: the command-line surface's
/// controller, a thin shell over the batch controller.
pub struct TransactionRestoreController {
    inner: TransactionRestoreBatchController,
}

impl TransactionRestoreController {
    /// The wrapped batch controller's configuration.
    pub closed spec fn spec_inner(self) -> TransactionRestoreBatchController {
        self.inner
    }

    /// Wraps the single manifest handle of `opt` in a batch run.
    pub fn new(
        opt: TransactionRestoreOpt,
        global_opt: GlobalRestoreOptions,
        has_epoch_history: bool,
    ) -> (r: TransactionRestoreController)
        ensures
            r.spec_inner().global_opt == global_opt,
            r.spec_inner().manifest_handles@ == seq![opt.manifest_handle],
            r.spec_inner().replay_from_version == opt.replay_from_version,
            r.spec_inner().has_epoch_history == has_epoch_history,
    {
        let replay_from_version = opt.replay_from_version;
        let mut manifest_handles: Vec<String> = Vec::new();
        manifest_handles.push(opt.manifest_handle);
        proof {
            assert(manifest_handles@ =~= seq![manifest_handles@[0]]);
        }
        let inner = TransactionRestoreBatchController::new(
            global_opt,
            manifest_handles,
            replay_from_version,
            has_epoch_history,
        );
        TransactionRestoreController { inner }
    }

    /// Runs the wrapped batch restore; see
    /// `TransactionRestoreBatchController::run`.
    pub fn run(self, manifests: Vec<TransactionBackup>, payloads: Vec<ChunkPayload>) -> (r:
        Result<RunReport, RestoreError>)
        requires
            self.spec_inner().manifest_handles@.len() > 0,
            manifests@.len() == self.spec_inner().manifest_handles@.len(),
            (spec_collect_chunks(manifests@, self.spec_inner().global_opt.target_version)
                matches Result::Ok(cs) ==> payloads@.len() == cs.len()),
        ensures
            (spec_collect_chunks(manifests@, self.spec_inner().global_opt.target_version)
                matches Result::Err(e) ==> r == Result::<RunReport, RestoreError>::Err(e)),
            (spec_collect_chunks(manifests@, self.spec_inner().global_opt.target_version)
                matches Result::Ok(cs) ==> {
                &&& (cs.len() == 0 ==> r == Result::<RunReport, RestoreError>::Err(
                    RestoreError::EmptyChunkStream,
                ))
                &&& (cs.len() > 0 ==> {
                    &&& (r is Ok <==> (forall|i: int|
                        0 <= i < cs.len() ==> chunk_payload_accepted(
                            cs[i],
                            #[trigger] payloads@[i],
                        )))
                    &&& (r matches Result::Err(e) ==> e == RestoreError::EmptyChunkStream
                        || exists|i: int| rejected_at(cs, payloads@, i, e))
                    &&& (r matches Result::Ok(report) ==> (match self.spec_inner().global_opt.run_mode {
                        RestoreRunMode::Verify => {
                            &&& report.global_first_version == Option::Some(cs[0].first_version)
                            &&& report.saves@.len() == 0
                            &&& report.batches@.len() == 0
                            &&& report.last_saved is None
                            &&& report.last_replayed is None
                            &&& report.last_verified == Option::Some(
                                cs[cs.len() - 1].last_version,
                            )
                        },
                        RestoreRunMode::Restore { next_expected_version } => restore_report_ok(
                            report,
                            cs,
                            payloads@,
                            self.spec_inner().global_opt.target_version,
                            spec_replay_cutoff(
                                self.spec_inner().replay_from_version,
                                next_expected_version,
                            ),
                        ),
                    }))
                })
            }),
    {
        self.inner.run(manifests, payloads)
    }
}

} // verus!
