use mediacore::api::page_bounds;
use mediacore::jobs::{parse_status, status_str, JobPayload, JobStatus, JobStore};
use mediacore::catalog::{Catalog, FileRecord, FileStatus};
use mediacore::worker::{decode_payload, project_job_indices, PayloadWire};

fn payload() -> JobPayload {
    JobPayload::ProcessImage { variants: Vec::new() }
}

#[test]
fn claim_takes_oldest_pending_first() {
    let mut jobs = JobStore::new();
    jobs.enqueue("j1".to_string(), "f1".to_string(), payload(), 10);
    jobs.enqueue("j2".to_string(), "f2".to_string(), payload(), 5);
    let i = jobs.claim_next(20).unwrap();
    assert_eq!(i, 1);
    assert!(matches!(jobs.get(1).status, JobStatus::Processing));
    assert_eq!(jobs.get(1).updated_at, 20);
    assert!(matches!(jobs.get(0).status, JobStatus::Pending));
}

#[test]
fn claim_breaks_ties_by_position() {
    let mut jobs = JobStore::new();
    jobs.enqueue("j1".to_string(), "f1".to_string(), payload(), 5);
    jobs.enqueue("j2".to_string(), "f2".to_string(), payload(), 5);
    assert_eq!(jobs.claim_next(20), Some(0));
}

#[test]
fn one_pending_job_two_workers() {
    let mut jobs = JobStore::new();
    jobs.enqueue("j1".to_string(), "f1".to_string(), payload(), 1);
    let first = jobs.claim_next(2);
    let second = jobs.claim_next(3);
    assert_eq!(first, Some(0));
    assert_eq!(second, None);
}

#[test]
fn n_workers_claim_exactly_m_jobs() {
    let mut jobs = JobStore::new();
    for k in 0..3u8 {
        jobs.enqueue(format!("j{}", k), format!("f{}", k), payload(), k as i64);
    }
    let claimed = jobs.claim_up_to(5, 100);
    assert_eq!(claimed.len(), 3);
    let mut seen = claimed.clone();
    seen.sort();
    seen.dedup();
    assert_eq!(seen.len(), 3);
    for i in 0..3 {
        assert!(matches!(jobs.get(i).status, JobStatus::Processing));
    }
    assert_eq!(jobs.claim_next(101), None);
}

#[test]
fn completion_is_terminal_update() {
    let mut jobs = JobStore::new();
    jobs.enqueue("j1".to_string(), "f1".to_string(), payload(), 1);
    let i = jobs.claim_next(2).unwrap();
    jobs.mark_completed(i, 9);
    assert!(matches!(jobs.get(i).status, JobStatus::Completed));
    assert_eq!(jobs.get(i).updated_at, 9);
}

#[test]
fn failure_wraps_payload_in_envelope() {
    let mut jobs = JobStore::new();
    jobs.enqueue(
        "j1".to_string(),
        "f1".to_string(),
        JobPayload::SyncProjectVariants { project_id: "p1".to_string() },
        1,
    );
    let i = jobs.claim_next(2).unwrap();
    jobs.mark_failed(i, "boom".to_string(), 3);
    assert!(matches!(jobs.get(i).status, JobStatus::Failed));
    match &jobs.get(i).payload {
        JobPayload::FailureEnvelope { error, original } => {
            assert_eq!(error, "boom");
            match original.as_ref() {
                JobPayload::SyncProjectVariants { project_id } => assert_eq!(project_id, "p1"),
                _ => panic!("original payload lost"),
            }
        },
        _ => panic!("payload not rewritten"),
    }
}

#[test]
fn crash_recovery_resets_processing_jobs() {
    let mut jobs = JobStore::new();
    jobs.enqueue("j1".to_string(), "f1".to_string(), payload(), 1);
    jobs.enqueue("j2".to_string(), "f2".to_string(), payload(), 2);
    let i = jobs.claim_next(5).unwrap();
    jobs.mark_completed(i, 6);
    let j = jobs.claim_next(7).unwrap();
    assert!(matches!(jobs.get(j).status, JobStatus::Processing));
    jobs.recover_stuck();
    assert!(matches!(jobs.get(j).status, JobStatus::Pending));
    assert!(matches!(jobs.get(i).status, JobStatus::Completed));
    assert_eq!(jobs.claim_next(8), Some(j));
}

#[test]
fn status_words_round_trip() {
    for st in [
        JobStatus::Pending,
        JobStatus::Processing,
        JobStatus::Completed,
        JobStatus::Failed,
    ] {
        assert_eq!(parse_status(status_str(st)), Some(st));
    }
    assert_eq!(status_str(JobStatus::Pending), "pending");
    assert_eq!(parse_status("archived"), None);
}

#[test]
fn page_bounds_slice_in_memory_listings() {
    assert_eq!(page_bounds(25, 1, 10), (0, 10));
    assert_eq!(page_bounds(25, 3, 10), (20, 25));
    assert_eq!(page_bounds(25, 4, 10), (25, 25));
    assert_eq!(page_bounds(25, 0, 10), (0, 10));
    assert_eq!(page_bounds(5, u64::MAX, u64::MAX), (5, 5));
}

#[test]
fn per_project_job_listing_filters_by_file_and_status() {
    let mut catalog = Catalog::new();
    for (fid, pid) in [("f1", "p1"), ("f2", "p1"), ("f3", "p2")] {
        catalog.insert_file(FileRecord {
            id: fid.to_string(),
            project_id: pid.to_string(),
            s3_key: format!("k/{fid}"),
            filename: "x.png".to_string(),
            mime_type: "image/png".to_string(),
            size: 1,
            status: FileStatus::Ready,
            variants: Vec::new(),
            created_at: 0,
            updated_at: 0,
        });
    }
    let mut jobs = JobStore::new();
    jobs.enqueue("j1".to_string(), "f1".to_string(), payload(), 1);
    jobs.enqueue("j2".to_string(), "f3".to_string(), payload(), 2);
    jobs.enqueue("j3".to_string(), "f2".to_string(), payload(), 3);
    let i = jobs.claim_next(4).unwrap();
    jobs.mark_completed(i, 5);

    let all_p1 = project_job_indices(&jobs, &catalog, "p1", None);
    assert_eq!(all_p1, vec![0, 2]);
    let pending_p1 = project_job_indices(&jobs, &catalog, "p1", Some(JobStatus::Pending));
    assert_eq!(pending_p1, vec![2]);
    let all_p2 = project_job_indices(&jobs, &catalog, "p2", None);
    assert_eq!(all_p2, vec![1]);
}

fn wire() -> PayloadWire {
    PayloadWire {
        type_tag: None,
        has_variants: false,
        variants: None,
        variants_config: None,
        project_id: None,
    }
}

#[test]
fn dispatch_by_explicit_type() {
    let mut w = wire();
    w.type_tag = Some("sync_project_variants".to_string());
    w.project_id = Some("p9".to_string());
    match decode_payload(w) {
        Ok(JobPayload::SyncProjectVariants { project_id }) => assert_eq!(project_id, "p9"),
        _ => panic!("wrong dispatch"),
    }

    let mut w = wire();
    w.type_tag = Some("sync_file_variants".to_string());
    w.variants_config = Some(Vec::new());
    assert!(matches!(
        decode_payload(w),
        Ok(JobPayload::SyncFileVariants { .. })
    ));
}

#[test]
fn dispatch_missing_fields() {
    let mut w = wire();
    w.type_tag = Some("sync_project_variants".to_string());
    assert_eq!(decode_payload(w).unwrap_err(), "Missing project_id");

    let mut w = wire();
    w.type_tag = Some("sync_file_variants".to_string());
    assert_eq!(decode_payload(w).unwrap_err(), "Missing variants_config");
}

#[test]
fn dispatch_unknown_type() {
    let mut w = wire();
    w.type_tag = Some("compact".to_string());
    assert_eq!(decode_payload(w).unwrap_err(), "Unknown job type: compact");
}

#[test]
fn dispatch_legacy_variants_sniff() {
    let mut w = wire();
    w.has_variants = true;
    w.variants = Some(Vec::new());
    assert!(matches!(decode_payload(w), Ok(JobPayload::ProcessImage { .. })));

    let w = wire();
    assert_eq!(decode_payload(w).unwrap_err(), "Unknown job payload structure");
}
