//! Batched replay. The flattened replay stream is grouped into fixed-size
//! batches of consecutive transactions (the last may be shorter); batches
//! are handed to the execution engine and committed strictly in submission
//! order, and a progress watermark accounts for what has been committed.

use vstd::prelude::*;
use crate::splitter::VersionedRecords;

verus! {

/// How many transactions one replay batch holds.
pub const BATCH_SIZE: usize = 10000;

/// One batch of consecutive transactions handed to the execution engine,
/// starting at `first_version`.
pub struct ReplayBatch {
    pub first_version: u64,
    pub records: Vec<Vec<u8>>,
}

impl ReplayBatch {
    /// Non-empty, with every version of the batch representable.
    pub open spec fn wf(self) -> bool {
        &&& self.records.len() >= 1
        &&& self.first_version + self.records.len() - 1 <= u64::MAX
    }

    /// The version of the batch's last transaction.
    pub open spec fn last_version(self) -> int {
        self.first_version + self.records.len() - 1
    }

    /// The batch as its mathematical content: start version and records.
    pub open spec fn model(self) -> (int, Seq<Vec<u8>>) {
        (self.first_version as int, self.records@)
    }
}

/// The models of a sequence of batches.
pub open spec fn batches_model(bs: Seq<ReplayBatch>) -> Seq<(int, Seq<Vec<u8>>)> {
    bs.map(|i: int, b: ReplayBatch| b.model())
}

/// Groups records starting at `first_version` into batches of `batch_size`
/// consecutive transactions, the last batch possibly shorter.
pub open spec fn spec_batches(first_version: int, records: Seq<Vec<u8>>, batch_size: int) -> Seq<
    (int, Seq<Vec<u8>>),
>
    decreases records.len(),
{
    if records.len() == 0 || batch_size < 1 {
        Seq::empty()
    } else if records.len() <= batch_size {
        seq![(first_version, records)]
    } else {
        seq![(first_version, records.take(batch_size))] + spec_batches(
            first_version + batch_size,
            records.skip(batch_size),
            batch_size,
        )
    }
}

/// The records of a batch sequence, in order.
pub open spec fn batches_records(bs: Seq<(int, Seq<Vec<u8>>)>) -> Seq<Vec<u8>>
    decreases bs.len(),
{
    if bs.len() == 0 {
        Seq::empty()
    } else {
        bs[0].1 + batches_records(bs.drop_first())
    }
}

/// What the grouping guarantees: batches carry exactly the input records in
/// order; every batch is non-empty and at most `batch_size` long, and all
/// but the last are exactly `batch_size` long; each batch starts right
/// after its predecessor ends; the first starts at `first_version` and the
/// last ends at the last input record's version.
pub proof fn lemma_batches_chain(first_version: int, records: Seq<Vec<u8>>, batch_size: int)
    requires
        batch_size >= 1,
    ensures
        ({
            let bs = spec_batches(first_version, records, batch_size);
            &&& batches_records(bs) == records
            &&& bs.len() == 0 <==> records.len() == 0
            &&& bs.len() > 0 ==> bs[0].0 == first_version
            &&& bs.len() > 0 ==> bs[bs.len() - 1].0 + bs[bs.len() - 1].1.len() == first_version
                + records.len()
            &&& forall|i: int|
                0 <= i < bs.len() ==> 1 <= #[trigger] bs[i].1.len() <= batch_size
            &&& forall|i: int|
                0 <= i < bs.len() - 1 ==> #[trigger] bs[i].1.len() == batch_size
            &&& forall|i: int|
                0 <= i < bs.len() - 1 ==> #[trigger] bs[i + 1].0 == bs[i].0 + bs[i].1.len()
        }),
    decreases records.len(),
{
    let bs = spec_batches(first_version, records, batch_size);
    if records.len() == 0 {
        assert(batches_records(bs) =~= records);
    } else if records.len() <= batch_size {
        assert(bs.drop_first() =~= Seq::<(int, Seq<Vec<u8>>)>::empty());
        assert(batches_records(bs.drop_first()) =~= Seq::<Vec<u8>>::empty());
        assert(batches_records(bs) =~= records);
    } else {
        lemma_batches_chain(first_version + batch_size, records.skip(batch_size), batch_size);
        let rest = spec_batches(first_version + batch_size, records.skip(batch_size), batch_size);
        assert(bs.drop_first() =~= rest);
        assert(batches_records(bs) =~= records.take(batch_size) + batches_records(rest));
        assert(records.take(batch_size) + records.skip(batch_size) =~= records);
        assert forall|i: int| 0 <= i < bs.len() - 1 implies #[trigger] bs[i + 1].0 == bs[i].0
            + bs[i].1.len() by {
            if i > 0 {
                assert(bs[i] == rest[i - 1]);
                assert(bs[i + 1] == rest[i]);
            } else {
                assert(bs[0].1.len() == batch_size);
                assert(bs[1] == rest[0]);
            }
        }
    }
}

/// Moves the first `n` elements out of `v`, leaving the rest in place.
fn take_prefix(v: &mut Vec<Vec<u8>>, n: usize) -> (r: Vec<Vec<u8>>)
    requires
        n <= old(v).len(),
    ensures
        r@ == old(v)@.subrange(0, n as int),
        final(v)@ == old(v)@.skip(n as int),
{
    let ghost v0 = v@;
    let mut r: Vec<Vec<u8>> = Vec::new();
    while r.len() < n
        invariant
            r.len() <= n <= v0.len(),
            r@ == v0.subrange(0, r.len() as int),
            v@ == v0.skip(r.len() as int),
        decreases n - r.len(),
    {
        let ghost t = r.len() as int;
        let rec = v.remove(0);
        r.push(rec);
        proof {
            assert(v@ =~= v0.skip(t + 1));
            assert(r@ =~= v0.subrange(0, t + 1));
        }
    }
    r
}

/// Groups the replay stream into batches of `batch_size` consecutive
/// transactions, exactly as `spec_batches` reads it.
#[verifier::loop_isolation(false)]
pub fn batch_replay_stream(txns: VersionedRecords, batch_size: usize) -> (r: Vec<ReplayBatch>)
    requires
        txns.wf(),
        batch_size >= 1,
    ensures
        batches_model(r@) == spec_batches(txns.first_version as int, txns.records@, batch_size as int),
        forall|i: int| 0 <= i < r@.len() ==> (#[trigger] r@[i]).wf(),
{
    let mut rest = txns.records;
    let ghost first0 = txns.first_version as int;
    let ghost records0 = rest@;
    let mut next_first: u64 = txns.first_version;
    let mut out: Vec<ReplayBatch> = Vec::new();
    proof {
        assert(batches_model(out@) =~= Seq::<(int, Seq<Vec<u8>>)>::empty());
        assert(batches_model(out@) + spec_batches(next_first as int, rest@, batch_size as int)
            =~= spec_batches(first0, records0, batch_size as int));
    }
    while rest.len() > 0
        invariant
            next_first as int + rest@.len() - 1 <= u64::MAX || rest@.len() == 0,
            spec_batches(first0, records0, batch_size as int) == batches_model(out@)
                + spec_batches(next_first as int, rest@, batch_size as int),
            forall|i: int| 0 <= i < out@.len() ==> (#[trigger] out@[i]).wf(),
        decreases rest.len(),
    {
        let ghost rest0 = rest@;
        let n = if batch_size < rest.len() {
            batch_size
        } else {
            rest.len()
        };
        let batch_records = take_prefix(&mut rest, n);
        let batch = ReplayBatch { first_version: next_first, records: batch_records };
        let ghost out_before = batches_model(out@);
        out.push(batch);
        proof {
            assert(batches_model(out@) =~= out_before.push(batch.model()));
            if rest0.len() <= batch_size as int {
                assert(batch.records@ =~= rest0);
                assert(spec_batches(next_first as int, rest0, batch_size as int) =~= seq![
                    batch.model(),
                ]);
                assert(rest@.len() == 0);
                assert(spec_batches(next_first as int + n as int, rest@, batch_size as int)
                    =~= Seq::<(int, Seq<Vec<u8>>)>::empty());
                assert(out_before + seq![batch.model()] =~= batches_model(out@));
                assert(batches_model(out@) + Seq::<(int, Seq<Vec<u8>>)>::empty() =~= batches_model(
                    out@,
                ));
            } else {
                assert(batch.records@ =~= rest0.take(batch_size as int));
                assert(rest@ =~= rest0.skip(batch_size as int));
                assert(spec_batches(next_first as int, rest0, batch_size as int) == seq![
                    batch.model(),
                ] + spec_batches(next_first as int + batch_size, rest@, batch_size as int));
                assert((out_before + (seq![batch.model()] + spec_batches(
                    next_first as int + batch_size,
                    rest@,
                    batch_size as int,
                ))) =~= (batches_model(out@) + spec_batches(
                    next_first as int + batch_size,
                    rest@,
                    batch_size as int,
                )));
            }
        }
        if rest.len() > 0 {
            next_first = next_first + n as u64;
        }
    }
    proof {
        assert(spec_batches(next_first as int, rest@, batch_size as int) =~= Seq::<
            (int, Seq<Vec<u8>>),
        >::empty());
        assert(batches_model(out@) + Seq::<(int, Seq<Vec<u8>>)>::empty() =~= batches_model(out@));
    }
    out
}

/// The replay watermark: how far, starting at the cutoff, replay has been
/// committed. Batches must be accounted strictly in order.
pub struct ReplayProgress {
    pub replay_first_version: u64,
    pub last_committed: Option<u64>,
}

impl ReplayProgress {
    /// The watermark never runs backwards past where replay began.
    pub open spec fn wf(self) -> bool {
        match self.last_committed {
            Option::Some(l) => l >= self.replay_first_version,
            Option::None => true,
        }
    }

    /// The version the next batch in submission order starts at.
    pub open spec fn next_version(self) -> int {
        match self.last_committed {
            Option::Some(l) => l + 1,
            Option::None => self.replay_first_version as int,
        }
    }

    /// How many transactions have been replayed and committed.
    pub open spec fn total_replayed(self) -> int {
        self.next_version() - self.replay_first_version
    }

    /// Fresh progress: replay begins at `replay_first_version` and nothing
    /// is committed yet.
    pub fn new(replay_first_version: u64) -> (r: ReplayProgress)
        ensures
            r.wf(),
            r.replay_first_version == replay_first_version,
            r.last_committed is None,
    {
        ReplayProgress { replay_first_version, last_committed: None }
    }

    /// Accounts one batch the engine replayed and committed. The batch must
    /// be the next in submission order: it starts exactly at the watermark.
    pub fn advance(&mut self, batch: &ReplayBatch)
        requires
            old(self).wf(),
            batch.wf(),
            batch.first_version == old(self).next_version(),
        ensures
            final(self).wf(),
            final(self).replay_first_version == old(self).replay_first_version,
            final(self).last_committed == Option::Some((batch.last_version()) as u64),
            final(self).total_replayed() == old(self).total_replayed() + batch.records@.len(),
    {
        let last = batch.first_version + (batch.records.len() - 1) as u64;
        self.last_committed = Some(last);
    }
}

} // verus!
