use txn_restore::chunk::{ChunkPayload, LoadedChunk};
use txn_restore::errors::RestoreError;
use txn_restore::manifest::{TransactionBackup, TransactionChunk};
use txn_restore::records::split_records;
use txn_restore::reorder::ReorderBuffer;
use txn_restore::replay::{batch_replay_stream, ReplayProgress};
use txn_restore::splitter::{clip_chunk, replay_cutoff, split_chunk, VersionedRecords};

fn record(v: u64) -> Vec<u8> {
    vec![v as u8, (v >> 8) as u8, 0xab]
}

fn blob_for(first: u64, last: u64) -> Vec<u8> {
    let mut blob = Vec::new();
    for v in first..=last {
        let rec = record(v);
        blob.extend_from_slice(&(rec.len() as u32).to_be_bytes());
        blob.extend_from_slice(&rec);
    }
    blob
}

fn chunk_desc(first: u64, last: u64) -> TransactionChunk {
    TransactionChunk {
        first_version: first,
        last_version: last,
        transactions: format!("transactions-{}", first),
        proof: format!("proof-{}", first),
    }
}

fn good_payload(first: u64, last: u64) -> ChunkPayload {
    ChunkPayload { record_blob: blob_for(first, last), proof_ok: true, checkpoint_sig_ok: None }
}

fn records_for(first: u64, last: u64) -> Vec<Vec<u8>> {
    (first..=last).map(record).collect()
}

#[test]
fn split_records_reads_framed_blob() {
    let blob = blob_for(7, 9);
    let records = split_records(&blob).unwrap();
    assert_eq!(records, records_for(7, 9));
}

#[test]
fn split_records_empty_blob_is_no_records() {
    let records = split_records(&Vec::new()).unwrap();
    assert!(records.is_empty());
}

#[test]
fn split_records_rejects_truncated_blob() {
    let mut blob = blob_for(7, 9);
    blob.pop();
    assert!(split_records(&blob).is_none());
    let short = vec![0u8, 0, 0];
    assert!(split_records(&short).is_none());
}

#[test]
fn manifest_verify_accepts_consistent_manifest() {
    let m = TransactionBackup {
        first_version: 1,
        last_version: 20,
        chunks: vec![chunk_desc(1, 10), chunk_desc(11, 20)],
    };
    assert!(m.verify().is_ok());
}

#[test]
fn manifest_verify_rejects_gap_and_wrong_range() {
    let gap = TransactionBackup {
        first_version: 1,
        last_version: 20,
        chunks: vec![chunk_desc(1, 10), chunk_desc(12, 20)],
    };
    assert!(matches!(
        gap.verify(),
        Err(RestoreError::ManifestInvalid { first_version: 1, last_version: 20 })
    ));
    let wrong_end = TransactionBackup {
        first_version: 1,
        last_version: 25,
        chunks: vec![chunk_desc(1, 10), chunk_desc(11, 20)],
    };
    assert!(wrong_end.verify().is_err());
    let empty = TransactionBackup { first_version: 1, last_version: 20, chunks: vec![] };
    assert!(empty.verify().is_err());
}

#[test]
fn load_accepts_chunk_with_matching_count() {
    let loaded = LoadedChunk::load(chunk_desc(100, 104), good_payload(100, 104)).unwrap();
    assert_eq!(loaded.records, records_for(100, 104));
    assert_eq!(loaded.manifest.first_version, 100);
    assert_eq!(loaded.manifest.last_version, 104);
}

#[test]
fn load_rejects_count_mismatch() {
    let four = ChunkPayload {
        record_blob: blob_for(100, 103),
        proof_ok: true,
        checkpoint_sig_ok: None,
    };
    assert!(matches!(
        LoadedChunk::load(chunk_desc(100, 104), four),
        Err(RestoreError::ChunkCountMismatch { first_version: 100, last_version: 104, count: 4 })
    ));
    let six = ChunkPayload {
        record_blob: blob_for(100, 105),
        proof_ok: true,
        checkpoint_sig_ok: None,
    };
    assert!(matches!(
        LoadedChunk::load(chunk_desc(100, 104), six),
        Err(RestoreError::ChunkCountMismatch { first_version: 100, last_version: 104, count: 6 })
    ));
}

#[test]
fn load_rejects_failed_proof() {
    let payload = ChunkPayload {
        record_blob: blob_for(100, 104),
        proof_ok: false,
        checkpoint_sig_ok: None,
    };
    assert!(matches!(
        LoadedChunk::load(chunk_desc(100, 104), payload),
        Err(RestoreError::ChunkAuthentication { first_version: 100, last_version: 104 })
    ));
}

#[test]
fn load_rejects_untrusted_checkpoint() {
    let payload = ChunkPayload {
        record_blob: blob_for(100, 104),
        proof_ok: true,
        checkpoint_sig_ok: Some(false),
    };
    assert!(matches!(
        LoadedChunk::load(chunk_desc(100, 104), payload),
        Err(RestoreError::UntrustedCheckpoint { first_version: 100, last_version: 104 })
    ));
}

#[test]
fn load_accepts_trusted_checkpoint() {
    let payload = ChunkPayload {
        record_blob: blob_for(100, 104),
        proof_ok: true,
        checkpoint_sig_ok: Some(true),
    };
    assert!(LoadedChunk::load(chunk_desc(100, 104), payload).is_ok());
}

#[test]
fn load_rejects_malformed_blob() {
    let mut blob = blob_for(100, 104);
    blob.pop();
    let payload = ChunkPayload { record_blob: blob, proof_ok: true, checkpoint_sig_ok: None };
    assert!(matches!(
        LoadedChunk::load(chunk_desc(100, 104), payload),
        Err(RestoreError::MalformedRecordBlob { first_version: 100, last_version: 104 })
    ));
}

#[test]
fn reorder_buffer_delivers_in_submission_order() {
    let mut buf: ReorderBuffer<u64> = ReorderBuffer::new(2);
    let s0 = buf.submit();
    let s1 = buf.submit();
    // The later submission completes first; nothing may come out yet.
    buf.complete(s1, 111);
    assert_eq!(buf.pop(), None);
    buf.complete(s0, 100);
    assert_eq!(buf.pop(), Some(100));
    assert_eq!(buf.pop(), Some(111));
    assert_eq!(buf.pop(), None);
}

#[test]
fn reorder_buffer_peek_does_not_consume() {
    let mut buf: ReorderBuffer<u64> = ReorderBuffer::new(2);
    let s0 = buf.submit();
    assert!(buf.peek().is_none());
    buf.complete(s0, 42);
    assert_eq!(buf.peek(), Some(&42));
    assert_eq!(buf.peek(), Some(&42));
    assert_eq!(buf.pop(), Some(42));
    assert!(buf.peek().is_none());
}

#[test]
fn reorder_buffer_interleaves_submissions() {
    let mut buf: ReorderBuffer<u64> = ReorderBuffer::new(2);
    let s0 = buf.submit();
    let s1 = buf.submit();
    buf.complete(s1, 1);
    buf.complete(s0, 0);
    assert_eq!(buf.pop(), Some(0));
    let s2 = buf.submit();
    buf.complete(s2, 2);
    assert_eq!(buf.pop(), Some(1));
    assert_eq!(buf.pop(), Some(2));
}

#[test]
fn clip_chunk_drops_versions_beyond_target() {
    let chunk = LoadedChunk { manifest: chunk_desc(100, 199), records: records_for(100, 199) };
    let clipped = clip_chunk(chunk, 150);
    assert_eq!(clipped.manifest.first_version, 100);
    assert_eq!(clipped.manifest.last_version, 150);
    assert_eq!(clipped.records.len(), 51);
    assert_eq!(clipped.records, records_for(100, 150));
}

#[test]
fn clip_chunk_keeps_chunk_within_target() {
    let chunk = LoadedChunk { manifest: chunk_desc(100, 149), records: records_for(100, 149) };
    let clipped = clip_chunk(chunk, 150);
    assert_eq!(clipped.manifest.last_version, 149);
    assert_eq!(clipped.records.len(), 50);
}

#[test]
fn split_chunk_partitions_at_cutoff() {
    let chunk = LoadedChunk { manifest: chunk_desc(1, 10), records: records_for(1, 10) };
    let (save, replay) = split_chunk(chunk, 5);
    let save = save.unwrap();
    let replay = replay.unwrap();
    assert_eq!(save.first_version, 1);
    assert_eq!(save.records, records_for(1, 4));
    assert_eq!(replay.first_version, 5);
    assert_eq!(replay.records, records_for(5, 10));
}

#[test]
fn split_chunk_all_replay_below_cutoff_zero() {
    let chunk = LoadedChunk { manifest: chunk_desc(1, 10), records: records_for(1, 10) };
    let (save, replay) = split_chunk(chunk, 0);
    assert!(save.is_none());
    let replay = replay.unwrap();
    assert_eq!(replay.first_version, 1);
    assert_eq!(replay.records.len(), 10);
}

#[test]
fn split_chunk_all_saved_above_cutoff() {
    let chunk = LoadedChunk { manifest: chunk_desc(1, 10), records: records_for(1, 10) };
    let (save, replay) = split_chunk(chunk, 11);
    let save = save.unwrap();
    assert!(replay.is_none());
    assert_eq!(save.first_version, 1);
    assert_eq!(save.records.len(), 10);
}

#[test]
fn replay_cutoff_is_max_of_sources() {
    assert_eq!(replay_cutoff(Some(15), 0), 15);
    assert_eq!(replay_cutoff(Some(15), 40), 40);
    assert_eq!(replay_cutoff(None, 40), u64::MAX);
}

#[test]
fn batching_groups_consecutive_transactions() {
    let stream = VersionedRecords { first_version: 15, records: records_for(15, 25) };
    let batches = batch_replay_stream(stream, 4);
    assert_eq!(batches.len(), 3);
    assert_eq!(batches[0].first_version, 15);
    assert_eq!(batches[0].records, records_for(15, 18));
    assert_eq!(batches[1].first_version, 19);
    assert_eq!(batches[1].records, records_for(19, 22));
    assert_eq!(batches[2].first_version, 23);
    assert_eq!(batches[2].records, records_for(23, 25));
}

#[test]
fn replay_progress_accounts_batches_in_order() {
    let stream = VersionedRecords { first_version: 15, records: records_for(15, 25) };
    let batches = batch_replay_stream(stream, 4);
    let mut progress = ReplayProgress::new(15);
    assert_eq!(progress.last_committed, None);
    for batch in &batches {
        progress.advance(batch);
    }
    assert_eq!(progress.last_committed, Some(25));
}
