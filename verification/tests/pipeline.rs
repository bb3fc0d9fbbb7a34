use txn_restore::chunk::ChunkPayload;
use txn_restore::controller::{
    GlobalRestoreOptions, RestoreRunMode, TransactionRestoreBatchController,
    TransactionRestoreController, TransactionRestoreOpt,
};
use txn_restore::discovery::collect_chunks;
use txn_restore::errors::RestoreError;
use txn_restore::manifest::{TransactionBackup, TransactionChunk};

fn record(v: u64) -> Vec<u8> {
    vec![v as u8, (v >> 8) as u8, 0xab]
}

fn blob_for(first: u64, last: u64) -> Vec<u8> {
    let mut blob = Vec::new();
    for v in first..=last {
        let rec = record(v);
        blob.extend_from_slice(&(rec.len() as u32).to_be_bytes());
        blob.extend_from_slice(&rec);
    }
    blob
}

fn records_for(first: u64, last: u64) -> Vec<Vec<u8>> {
    (first..=last).map(record).collect()
}

fn chunk_desc(first: u64, last: u64) -> TransactionChunk {
    TransactionChunk {
        first_version: first,
        last_version: last,
        transactions: format!("transactions-{}", first),
        proof: format!("proof-{}", first),
    }
}

fn manifest_of(spans: &[(u64, u64)]) -> TransactionBackup {
    TransactionBackup {
        first_version: spans[0].0,
        last_version: spans[spans.len() - 1].1,
        chunks: spans.iter().map(|&(f, l)| chunk_desc(f, l)).collect(),
    }
}

fn good_payload(first: u64, last: u64) -> ChunkPayload {
    ChunkPayload { record_blob: blob_for(first, last), proof_ok: true, checkpoint_sig_ok: None }
}

fn restore_controller(
    handles: usize,
    target_version: u64,
    replay_from_version: Option<u64>,
    next_expected_version: u64,
) -> TransactionRestoreBatchController {
    let global_opt = GlobalRestoreOptions {
        target_version,
        concurrent_downloads: 2,
        replay_concurrency_level: 1,
        run_mode: RestoreRunMode::Restore { next_expected_version },
    };
    let manifest_handles = (0..handles).map(|i| format!("manifest-{}", i)).collect();
    TransactionRestoreBatchController::new(global_opt, manifest_handles, replay_from_version, false)
}

#[test]
fn discovery_expands_manifests_in_order() {
    let manifests = vec![manifest_of(&[(1, 10), (11, 20)]), manifest_of(&[(21, 30)])];
    let chunks = collect_chunks(manifests, 100).unwrap();
    let spans: Vec<(u64, u64)> =
        chunks.iter().map(|c| (c.first_version, c.last_version)).collect();
    assert_eq!(spans, vec![(1, 10), (11, 20), (21, 30)]);
}

#[test]
fn discovery_rejects_gap_with_expected_and_actual() {
    let manifests = vec![manifest_of(&[(1, 10), (11, 20)]), manifest_of(&[(22, 30)])];
    assert!(matches!(
        collect_chunks(manifests, 100),
        Err(RestoreError::ChunkGap { expected: 21, actual: 22 })
    ));
}

#[test]
fn discovery_rejects_invalid_manifest() {
    let mut bad = manifest_of(&[(11, 20)]);
    bad.last_version = 25;
    let manifests = vec![manifest_of(&[(1, 10)]), bad];
    assert!(matches!(
        collect_chunks(manifests, 100),
        Err(RestoreError::ManifestInvalid { first_version: 11, last_version: 25 })
    ));
}

#[test]
fn discovery_stops_at_target_before_later_manifests() {
    // The first chunk past the target ends the walk; the garbage manifest
    // after it is never inspected.
    let mut garbage = manifest_of(&[(11, 20)]);
    garbage.first_version = 99;
    let manifests = vec![manifest_of(&[(1, 10), (11, 20)]), garbage];
    let chunks = collect_chunks(manifests, 5).unwrap();
    assert_eq!(chunks.len(), 1);
    assert_eq!(chunks[0].first_version, 1);
    assert_eq!(chunks[0].last_version, 10);
}

#[test]
fn end_to_end_restore_splits_saves_and_replays() {
    // Three chunks, target 25, cutoff 15: versions 1..=14 raw-saved,
    // 15..=25 replayed in one batch, 26..=30 never touched.
    let controller = restore_controller(3, 25, Some(15), 0);
    let manifests = vec![
        manifest_of(&[(1, 10)]),
        manifest_of(&[(11, 20)]),
        manifest_of(&[(21, 30)]),
    ];
    let payloads = vec![good_payload(1, 10), good_payload(11, 20), good_payload(21, 30)];
    let report = controller.run(manifests, payloads).unwrap();

    assert_eq!(report.saves.len(), 2);
    assert_eq!(report.saves[0].first_version, 1);
    assert_eq!(report.saves[0].records, records_for(1, 10));
    assert_eq!(report.saves[1].first_version, 11);
    assert_eq!(report.saves[1].records, records_for(11, 14));

    assert_eq!(report.batches.len(), 1);
    assert_eq!(report.batches[0].first_version, 15);
    assert_eq!(report.batches[0].records, records_for(15, 25));

    assert_eq!(report.global_first_version, Some(1));
    assert_eq!(report.last_saved, Some(14));
    assert_eq!(report.last_replayed, Some(25));
    assert_eq!(report.last_verified, None);
}

#[test]
fn restore_without_replay_option_saves_everything() {
    let controller = restore_controller(1, 30, None, 0);
    let manifests = vec![manifest_of(&[(1, 10), (11, 20)])];
    let payloads = vec![good_payload(1, 10), good_payload(11, 20)];
    let report = controller.run(manifests, payloads).unwrap();
    assert_eq!(report.saves.len(), 2);
    assert_eq!(report.batches.len(), 0);
    assert_eq!(report.last_saved, Some(20));
    assert_eq!(report.last_replayed, None);
}

#[test]
fn empty_input_is_immediate_success() {
    let controller = restore_controller(0, 25, Some(15), 0);
    let report = controller.run(vec![], vec![]).unwrap();
    assert_eq!(report.global_first_version, None);
    assert!(report.saves.is_empty());
    assert!(report.batches.is_empty());
    assert_eq!(report.last_saved, None);
    assert_eq!(report.last_replayed, None);
    assert_eq!(report.last_verified, None);
}

#[test]
fn manifests_without_chunks_in_range_are_an_error() {
    let controller = restore_controller(1, 50, None, 0);
    let manifests = vec![manifest_of(&[(100, 109)])];
    assert!(matches!(
        controller.run(manifests, vec![]),
        Err(RestoreError::EmptyChunkStream)
    ));
}

#[test]
fn resume_with_recomputed_cutoff_never_replays_committed() {
    // A prior run committed through version 25; the store now expects 26.
    // Rerunning the same backup with the cutoff recomputed from that next
    // expected version replays nothing at or below 25.
    let controller = restore_controller(3, 25, Some(15), 26);
    let manifests = vec![
        manifest_of(&[(1, 10)]),
        manifest_of(&[(11, 20)]),
        manifest_of(&[(21, 30)]),
    ];
    let payloads = vec![good_payload(1, 10), good_payload(11, 20), good_payload(21, 30)];
    let report = controller.run(manifests, payloads).unwrap();
    assert_eq!(report.batches.len(), 0);
    assert_eq!(report.last_replayed, None);
    for batch in &report.batches {
        assert!(batch.first_version >= 26);
    }
}

#[test]
fn run_propagates_first_failing_chunk_error() {
    let controller = restore_controller(1, 100, None, 0);
    let manifests = vec![manifest_of(&[(1, 10), (11, 20)])];
    let bad = ChunkPayload {
        record_blob: blob_for(11, 20),
        proof_ok: false,
        checkpoint_sig_ok: None,
    };
    let payloads = vec![good_payload(1, 10), bad];
    assert!(matches!(
        controller.run(manifests, payloads),
        Err(RestoreError::ChunkAuthentication { first_version: 11, last_version: 20 })
    ));
}

#[test]
fn verify_only_run_advances_watermark_without_persisting() {
    let global_opt = GlobalRestoreOptions {
        target_version: 100,
        concurrent_downloads: 2,
        replay_concurrency_level: 1,
        run_mode: RestoreRunMode::Verify,
    };
    let controller = TransactionRestoreBatchController::new(
        global_opt,
        vec!["manifest-0".to_string()],
        None,
        false,
    );
    let manifests = vec![manifest_of(&[(1, 10), (11, 20)])];
    let payloads = vec![good_payload(1, 10), good_payload(11, 20)];
    let report = controller.run(manifests, payloads).unwrap();
    assert_eq!(report.global_first_version, Some(1));
    assert!(report.saves.is_empty());
    assert!(report.batches.is_empty());
    assert_eq!(report.last_verified, Some(20));
}

#[test]
fn controller_names_follow_run_mode() {
    let verify = GlobalRestoreOptions {
        target_version: 10,
        concurrent_downloads: 1,
        replay_concurrency_level: 1,
        run_mode: RestoreRunMode::Verify,
    };
    let restore = GlobalRestoreOptions {
        run_mode: RestoreRunMode::Restore { next_expected_version: 0 },
        ..verify
    };
    assert_eq!(verify.run_mode.name(), "verify");
    assert_eq!(restore.run_mode.name(), "restore");
    let c = TransactionRestoreBatchController::new(verify, vec![], None, false);
    assert_eq!(c.name(), "transaction verify");
    let c = TransactionRestoreBatchController::new(restore, vec![], None, false);
    assert_eq!(c.name(), "transaction restore");
}

#[test]
fn opt_defaults_replay_from_version_to_max() {
    let opt = TransactionRestoreOpt {
        manifest_handle: "manifest-0".to_string(),
        replay_from_version: None,
    };
    assert_eq!(opt.replay_from_version(), u64::MAX);
    let opt = TransactionRestoreOpt {
        manifest_handle: "manifest-0".to_string(),
        replay_from_version: Some(7),
    };
    assert_eq!(opt.replay_from_version(), 7);
}

#[test]
fn single_manifest_controller_restores_its_manifest() {
    let opt = TransactionRestoreOpt {
        manifest_handle: "manifest-0".to_string(),
        replay_from_version: Some(5),
    };
    let global_opt = GlobalRestoreOptions {
        target_version: 10,
        concurrent_downloads: 2,
        replay_concurrency_level: 1,
        run_mode: RestoreRunMode::Restore { next_expected_version: 0 },
    };
    let controller = TransactionRestoreController::new(opt, global_opt, false);
    let manifests = vec![manifest_of(&[(1, 10)])];
    let payloads = vec![good_payload(1, 10)];
    let report = controller.run(manifests, payloads).unwrap();
    assert_eq!(report.saves.len(), 1);
    assert_eq!(report.saves[0].records, records_for(1, 4));
    assert_eq!(report.batches.len(), 1);
    assert_eq!(report.batches[0].first_version, 5);
    assert_eq!(report.batches[0].records, records_for(5, 10));
    assert_eq!(report.last_replayed, Some(10));
}
