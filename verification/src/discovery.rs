//! Discovery: expand manifests, in order, into one ordered sequence of chunk
//! descriptors bounded by the target version. Each manifest self-validates
//! before its chunks are exposed; the walk stops at the first chunk starting
//! beyond the target (later chunks and manifests are never inspected); and
//! every consumed chunk must continue the previous one's span exactly.

use vstd::prelude::*;
use crate::errors::RestoreError;
use crate::manifest::{TransactionBackup, TransactionChunk};

verus! {

/// The version a chunk ending at `last` makes its successor start at,
/// saturating where no u64 successor exists (in that case no chunk can
/// continue the span, so the reported expectation is only diagnostic).
pub open spec fn succ_version(last: u64) -> u64 {
    if last == u64::MAX {
        u64::MAX
    } else {
        (last + 1) as u64
    }
}

/// Walks one manifest's chunks: consumes chunks in order while they start at
/// or below `target_version`, checking each against the span end `last` of
/// the previously consumed chunk (`None` before the first chunk of the run).
/// Returns the consumed chunks, the new span end, and whether the target
/// bound stopped the whole walk.
pub open spec fn scan_chunks(
    chunks: Seq<TransactionChunk>,
    target_version: u64,
    last: Option<u64>,
) -> Result<(Seq<TransactionChunk>, Option<u64>, bool), RestoreError>
    decreases chunks.len(),
{
    if chunks.len() == 0 {
        Result::Ok((Seq::empty(), last, false))
    } else {
        let c = chunks[0];
        if c.first_version > target_version {
            Result::Ok((Seq::empty(), last, true))
        } else if last is Some && c.first_version != last->0 + 1 {
            Result::Err(
                RestoreError::ChunkGap { expected: succ_version(last->0), actual: c.first_version },
            )
        } else {
            match scan_chunks(chunks.drop_first(), target_version, Option::Some(c.last_version)) {
                Result::Err(e) => Result::Err(e),
                Result::Ok((cs, l2, stopped)) => Result::Ok((seq![c] + cs, l2, stopped)),
            }
        }
    }
}

/// Walks the manifests in order: each self-validates, then its chunks are
/// consumed by `scan_chunks`; the walk ends at the first failure, at the
/// first chunk beyond the target, or when the manifests run out.
pub open spec fn scan_manifests(
    manifests: Seq<TransactionBackup>,
    target_version: u64,
    last: Option<u64>,
) -> Result<Seq<TransactionChunk>, RestoreError>
    decreases manifests.len(),
{
    if manifests.len() == 0 {
        Result::Ok(Seq::empty())
    } else {
        let m = manifests[0];
        if !m.valid() {
            Result::Err(
                RestoreError::ManifestInvalid {
                    first_version: m.first_version,
                    last_version: m.last_version,
                },
            )
        } else {
            match scan_chunks(m.chunks@, target_version, last) {
                Result::Err(e) => Result::Err(e),
                Result::Ok((cs, l2, stopped)) => {
                    if stopped {
                        Result::Ok(cs)
                    } else {
                        match scan_manifests(manifests.drop_first(), target_version, l2) {
                            Result::Err(e) => Result::Err(e),
                            Result::Ok(cs2) => Result::Ok(cs + cs2),
                        }
                    }
                },
            }
        }
    }
}

/// What discovery yields on the given manifests and target.
pub open spec fn spec_collect_chunks(
    manifests: Seq<TransactionBackup>,
    target_version: u64,
) -> Result<Seq<TransactionChunk>, RestoreError> {
    scan_manifests(manifests, target_version, Option::None)
}

/// Adjacent chunks leave no gap and no overlap.
pub open spec fn chunks_contiguous(cs: Seq<TransactionChunk>) -> bool {
    forall|i: int|
        0 <= i < cs.len() - 1 ==> cs[i + 1].first_version == cs[i].last_version + 1
}

/// Every chunk is well formed and starts at or below the target.
pub open spec fn chunks_wf_bounded(cs: Seq<TransactionChunk>, target_version: u64) -> bool {
    forall|i: int|
        0 <= i < cs.len() ==> cs[i].wf() && cs[i].first_version <= target_version
}

/// What a successful chunk walk guarantees: the consumed chunks are well
/// formed, start at or below the target, are contiguous, continue `last`
/// where one was given, and the returned span end is the last consumed
/// chunk's (or `last` where nothing was consumed).
proof fn lemma_scan_chunks_props(chunks: Seq<TransactionChunk>, target_version: u64, last: Option<u64>)
    requires
        forall|i: int| 0 <= i < chunks.len() ==> chunks[i].wf(),
    ensures
        (match scan_chunks(chunks, target_version, last) {
            Result::Ok((cs, l2, stopped)) => {
                &&& chunks_contiguous(cs)
                &&& chunks_wf_bounded(cs, target_version)
                &&& (last is Some && cs.len() > 0 ==> cs[0].first_version == last->0 + 1)
                &&& l2 == (if cs.len() > 0 {
                    Option::Some(cs[cs.len() - 1].last_version)
                } else {
                    last
                })
            },
            Result::Err(_) => true,
        }),
    decreases chunks.len(),
{
    if chunks.len() == 0 {
    } else {
        let c = chunks[0];
        if c.first_version > target_version {
        } else if last is Some && c.first_version != last->0 + 1 {
        } else {
            lemma_scan_chunks_props(chunks.drop_first(), target_version, Option::Some(c.last_version));
            if let Result::Ok((cs, l2, stopped)) = scan_chunks(
                chunks.drop_first(),
                target_version,
                Option::Some(c.last_version),
            ) {
                let combined = seq![c] + cs;
                assert forall|i: int| 0 <= i < combined.len() - 1 implies combined[i
                    + 1].first_version == combined[i].last_version + 1 by {
                    if i == 0 {
                        assert(combined[0] == c);
                        assert(combined[1] == cs[0]);
                    } else {
                        assert(combined[i] == cs[i - 1]);
                        assert(combined[i + 1] == cs[i]);
                    }
                }
                assert forall|i: int| 0 <= i < combined.len() implies combined[i].wf()
                    && combined[i].first_version <= target_version by {
                    if i > 0 {
                        assert(combined[i] == cs[i - 1]);
                    }
                }
            }
        }
    }
}

/// What a successful manifest walk guarantees: the discovered chunks are
/// well formed, bounded by the target, contiguous, and continue `last`
/// where one was given.
proof fn lemma_scan_manifests_props(
    manifests: Seq<TransactionBackup>,
    target_version: u64,
    last: Option<u64>,
)
    ensures
        (match scan_manifests(manifests, target_version, last) {
            Result::Ok(cs) => {
                &&& chunks_contiguous(cs)
                &&& chunks_wf_bounded(cs, target_version)
                &&& (last is Some && cs.len() > 0 ==> cs[0].first_version == last->0 + 1)
            },
            Result::Err(_) => true,
        }),
    decreases manifests.len(),
{
    if manifests.len() == 0 {
    } else {
        let m = manifests[0];
        if m.valid() {
            lemma_scan_chunks_props(m.chunks@, target_version, last);
            if let Result::Ok((cs, l2, stopped)) = scan_chunks(m.chunks@, target_version, last) {
                if !stopped {
                    lemma_scan_manifests_props(manifests.drop_first(), target_version, l2);
                    if let Result::Ok(cs2) = scan_manifests(
                        manifests.drop_first(),
                        target_version,
                        l2,
                    ) {
                        let combined = cs + cs2;
                        assert forall|i: int| 0 <= i < combined.len() - 1 implies combined[i
                            + 1].first_version == combined[i].last_version + 1 by {
                            if i + 1 < cs.len() {
                                assert(combined[i] == cs[i]);
                                assert(combined[i + 1] == cs[i + 1]);
                            } else if i + 1 == cs.len() {
                                assert(combined[i] == cs[i]);
                                assert(combined[i + 1] == cs2[0]);
                            } else {
                                assert(combined[i] == cs2[i - cs.len()]);
                                assert(combined[i + 1] == cs2[i + 1 - cs.len()]);
                            }
                        }
                        assert forall|i: int| 0 <= i < combined.len() implies combined[i].wf()
                            && combined[i].first_version <= target_version by {
                            if i < cs.len() {
                                assert(combined[i] == cs[i]);
                            } else {
                                assert(combined[i] == cs2[i - cs.len()]);
                            }
                        }
                    }
                }
            }
        }
    }
}

/// Whatever chunk sequence discovery yields is gap-free, well formed, and
/// starts at or below the target: the pipeline downstream may rely on
/// strictly increasing, contiguous version spans.
pub proof fn lemma_collected_chunks_contiguous(
    manifests: Seq<TransactionBackup>,
    target_version: u64,
)
    ensures
        (spec_collect_chunks(manifests, target_version) matches Result::Ok(cs) ==> chunks_contiguous(
            cs,
        ) && chunks_wf_bounded(cs, target_version)),
{
    lemma_scan_manifests_props(manifests, target_version, Option::None);
}

/// In a contiguous run of well-formed chunks, an earlier chunk ends before
/// a later one begins.
pub proof fn lemma_contiguous_chain(cs: Seq<TransactionChunk>, i: int, j: int)
    requires
        chunks_contiguous(cs),
        forall|k: int| 0 <= k < cs.len() ==> (#[trigger] cs[k]).wf(),
        0 <= i < j < cs.len(),
    ensures
        cs[i].last_version < cs[j].first_version,
    decreases j - i,
{
    if j == i + 1 {
        assert(cs[j].first_version == cs[i].last_version + 1);
    } else {
        lemma_contiguous_chain(cs, i, j - 1);
        assert(cs[j].first_version == cs[j - 1].last_version + 1);
        assert(cs[j - 1].wf());
    }
}

/// Expands the manifests into the ordered chunk sequence the rest of the
/// pipeline consumes, exactly as `spec_collect_chunks` reads them.
#[verifier::loop_isolation(false)]
pub fn collect_chunks(manifests: Vec<TransactionBackup>, target_version: u64) -> (r: Result<
    Vec<TransactionChunk>,
    RestoreError,
>)
    ensures
        (match r {
            Result::Ok(cs) => spec_collect_chunks(manifests@, target_version) == Result::<
                Seq<TransactionChunk>,
                RestoreError,
            >::Ok(cs@),
            Result::Err(e) => spec_collect_chunks(manifests@, target_version) == Result::<
                Seq<TransactionChunk>,
                RestoreError,
            >::Err(e),
        }),
{
    let ghost ms0 = manifests@;
    let mut manifests = manifests;
    let mut out: Vec<TransactionChunk> = Vec::new();
    let mut last: Option<u64> = None;
    proof {
        assert(out@ =~= Seq::<TransactionChunk>::empty());
        if let Result::Ok(cs2) = scan_manifests(manifests@, target_version, last) {
            assert(out@ + cs2 =~= cs2);
        }
    }
    while manifests.len() > 0
        invariant
            (match scan_manifests(manifests@, target_version, last) {
                Result::Ok(cs2) => scan_manifests(ms0, target_version, Option::None)
                    == Result::<Seq<TransactionChunk>, RestoreError>::Ok(out@ + cs2),
                Result::Err(e) => scan_manifests(ms0, target_version, Option::None)
                    == Result::<Seq<TransactionChunk>, RestoreError>::Err(e),
            }),
        decreases manifests.len(),
    {
        let ghost rem_before = manifests@;
        let m = manifests.remove(0);
        proof {
            assert(rem_before.drop_first() =~= manifests@);
        }
        if let Err(e) = m.verify() {
            proof {
                assert(scan_manifests(rem_before, target_version, last) == Result::<
                    Seq<TransactionChunk>,
                    RestoreError,
                >::Err(
                    RestoreError::ManifestInvalid {
                        first_version: m.first_version,
                        last_version: m.last_version,
                    },
                ));
            }
            return Err(e);
        }
        let ghost chunks0 = m.chunks@;
        let ghost last0 = last;
        let ghost out0 = out@;
        let mut chunks = m.chunks;
        while chunks.len() > 0
            invariant
                (match scan_chunks(chunks@, target_version, last) {
                    Result::Ok((cs2, l2, stopped)) => {
                        &&& out0.len() <= out@.len()
                        &&& out@.subrange(0, out0.len() as int) == out0
                        &&& scan_chunks(chunks0, target_version, last0) == Result::<
                            (Seq<TransactionChunk>, Option<u64>, bool),
                            RestoreError,
                        >::Ok((out@.skip(out0.len() as int) + cs2, l2, stopped))
                    },
                    Result::Err(e) => scan_chunks(chunks0, target_version, last0) == Result::<
                        (Seq<TransactionChunk>, Option<u64>, bool),
                        RestoreError,
                    >::Err(e),
                }),
            decreases chunks.len(),
        {
            let ghost chs_before = chunks@;
            let c = chunks.remove(0);
            proof {
                assert(chs_before.drop_first() =~= chunks@);
            }
            if c.first_version > target_version {
                // The target bound stops the whole walk; later chunks and
                // manifests are never inspected.
                proof {
                    assert(scan_chunks(chs_before, target_version, last) == Result::<
                        (Seq<TransactionChunk>, Option<u64>, bool),
                        RestoreError,
                    >::Ok((Seq::empty(), last, true)));
                    assert(out@.skip(out0.len() as int) + Seq::<TransactionChunk>::empty()
                        =~= out@.skip(out0.len() as int));
                    assert(out0 + out@.skip(out0.len() as int) =~= out@);
                    assert(scan_manifests(rem_before, target_version, last0) == Result::<
                        Seq<TransactionChunk>,
                        RestoreError,
                    >::Ok(out@.skip(out0.len() as int)));
                }
                return Ok(out);
            }
            if let Some(ll) = last {
                if ll == u64::MAX || c.first_version != ll + 1 {
                    let expected = if ll == u64::MAX {
                        u64::MAX
                    } else {
                        ll + 1
                    };
                    proof {
                        let e = RestoreError::ChunkGap { expected, actual: c.first_version };
                        assert(scan_chunks(chs_before, target_version, last) == Result::<
                            (Seq<TransactionChunk>, Option<u64>, bool),
                            RestoreError,
                        >::Err(e));
                        assert(scan_manifests(rem_before, target_version, last0) == Result::<
                            Seq<TransactionChunk>,
                            RestoreError,
                        >::Err(e));
                    }
                    return Err(RestoreError::ChunkGap { expected, actual: c.first_version });
                }
            }
            let ghost out_before = out@;
            last = Some(c.last_version);
            out.push(c);
            proof {
                if let Result::Ok((cs2, l2, stopped)) = scan_chunks(chunks@, target_version, last) {
                    assert(out@.skip(out0.len() as int) =~= out_before.skip(out0.len() as int)
                        + seq![c]);
                    assert((out_before.skip(out0.len() as int) + seq![c]) + cs2
                        =~= out_before.skip(out0.len() as int) + (seq![c] + cs2));
                    assert(out@.subrange(0, out0.len() as int) =~= out0);
                }
            }
        }
        proof {
            assert(chunks@ =~= Seq::<TransactionChunk>::empty());
            assert(scan_chunks(chunks@, target_version, last) == Result::<
                (Seq<TransactionChunk>, Option<u64>, bool),
                RestoreError,
            >::Ok((Seq::empty(), last, false)));
            let consumed = out@.skip(out0.len() as int);
            assert(consumed + Seq::<TransactionChunk>::empty() =~= consumed);
            assert(scan_chunks(chunks0, target_version, last0) == Result::<
                (Seq<TransactionChunk>, Option<u64>, bool),
                RestoreError,
            >::Ok((consumed, last, false)));
            if let Result::Ok(cs2) = scan_manifests(manifests@, target_version, last) {
                assert(out0 + (consumed + cs2) =~= out@ + cs2);
            }
        }
    }
    proof {
        assert(manifests@ =~= Seq::<TransactionBackup>::empty());
        assert(out@ + Seq::<TransactionChunk>::empty() =~= out@);
    }
    Ok(out)
}

} // verus!
