use mediacore::catalog::{Catalog, FileStatus, ProjectRecord};
use mediacore::jobs::{JobPayload, JobStatus, JobStore};
use mediacore::reconcile::{purge_retention, RETENTION_SECONDS};
use mediacore::settings::{ProjectSettings, VariantConfig};
use mediacore::store::ObjectStore;
use mediacore::upload::{plan_file_upload, plan_image_upload};
use mediacore::api::{file_access_allowed, Role};
use mediacore::catalog::{resolve_content_key, FileRecord};
use mediacore::reconcile::{delete_file_cascade, hard_delete_project_cascade};
use mediacore::worker::{worker_turn, WorkerTurn};

fn png_bytes(w: u32, h: u32) -> Vec<u8> {
    let img = image::RgbImage::from_fn(w, h, |x, y| {
        image::Rgb([(x % 200) as u8, (y % 200) as u8, 99])
    });
    let dynimg = image::DynamicImage::ImageRgb8(img);
    let mut cur = std::io::Cursor::new(Vec::new());
    dynimg.write_to(&mut cur, image::ImageFormat::Png).unwrap();
    cur.into_inner()
}

fn thumb_webp_cover() -> VariantConfig {
    VariantConfig {
        format: Some("webp".to_string()),
        quality: None,
        width: Some(64),
        height: Some(64),
        max_width: None,
        max_height: None,
        fit: Some("cover".to_string()),
    }
}

fn large_png() -> VariantConfig {
    VariantConfig {
        format: Some("png".to_string()),
        quality: None,
        width: Some(128),
        height: None,
        max_width: None,
        max_height: None,
        fit: None,
    }
}

fn project(id: &str, name: &str, variants: Vec<(String, VariantConfig)>) -> ProjectRecord {
    ProjectRecord {
        id: id.to_string(),
        owner_id: "u1".to_string(),
        name: name.to_string(),
        description: None,
        settings: ProjectSettings { variants: Some(variants) },
        created_at: 0,
        updated_at: 0,
        deleted_at: None,
    }
}

/// Performs an image upload end to end against the models: plan, store the
/// original, insert the row, enqueue the job.
fn upload_image(
    catalog: &mut Catalog,
    store: &mut ObjectStore,
    jobs: &mut JobStore,
    pidx: usize,
    file_id: &str,
    job_id: &str,
    filename: &str,
    mime: &str,
    bytes: Vec<u8>,
    now: i64,
) {
    let (name, pid, settings_variants) = {
        let p = catalog.get_project(pidx);
        (
            p.name.clone(),
            p.id.clone(),
            ProjectSettings {
                variants: p.settings.variants.as_ref().map(|v| {
                    v.iter()
                        .map(|(n, c)| (n.clone(), mediacore::worker::clone_cfg(c)))
                        .collect::<Vec<_>>()
                }),
            },
        )
    };
    store.ensure_bucket();
    let plan = plan_image_upload(
        &name,
        &pid,
        file_id,
        filename,
        mime,
        bytes.len() as i64,
        &settings_variants,
        "https://media.s3.us-east-1.amazonaws.com",
        now,
    )
    .unwrap();
    store.put(plan.s3_key.clone(), bytes, mime.to_string());
    catalog.insert_file(plan.file_row);
    jobs.enqueue(
        job_id.to_string(),
        file_id.to_string(),
        plan.job_payload.unwrap(),
        now,
    );
}

#[test]
fn happy_upload_to_ready() {
    let mut catalog = Catalog::new();
    let mut store = ObjectStore::new();
    let mut jobs = JobStore::new();
    catalog.insert_project(project(
        "p1",
        "My Shop",
        vec![("thumb".to_string(), thumb_webp_cover())],
    ));
    upload_image(
        &mut catalog,
        &mut store,
        &mut jobs,
        0,
        "f1",
        "j1",
        "photo.png",
        "image/png",
        png_bytes(200, 100),
        10,
    );
    assert!(matches!(catalog.get_file(0).status, FileStatus::Processing));
    assert!(matches!(jobs.get(0).status, JobStatus::Pending));

    match worker_turn(&mut catalog, &mut store, &mut jobs, 20) {
        WorkerTurn::Ran { job, completed } => {
            assert_eq!(job, 0);
            assert!(completed);
        },
        _ => panic!("expected a processed job"),
    }
    assert!(matches!(jobs.get(0).status, JobStatus::Completed));
    let f = catalog.get_file(0);
    assert!(matches!(f.status, FileStatus::Ready));
    assert_eq!(f.variants.len(), 1);
    assert_eq!(f.variants[0].0, "thumb");
    assert_eq!(f.variants[0].1, "my-shop-p1/images/thumb/f1.webp");
    let obj = store.get("my-shop-p1/images/thumb/f1.webp").unwrap();
    assert_eq!(obj.mime, "image/webp");
    let out = image::load_from_memory(&obj.bytes).unwrap();
    assert_eq!((out.width(), out.height()), (64, 64));
}

#[test]
fn bad_image_fails_job_and_leaves_file_processing() {
    let mut catalog = Catalog::new();
    let mut store = ObjectStore::new();
    let mut jobs = JobStore::new();
    catalog.insert_project(project(
        "p1",
        "Shop",
        vec![("thumb".to_string(), thumb_webp_cover())],
    ));
    upload_image(
        &mut catalog,
        &mut store,
        &mut jobs,
        0,
        "f1",
        "j1",
        "garbage.jpg",
        "image/jpeg",
        vec![7; 16],
        10,
    );
    match worker_turn(&mut catalog, &mut store, &mut jobs, 20) {
        WorkerTurn::Ran { job, completed } => {
            assert_eq!(job, 0);
            assert!(!completed);
        },
        _ => panic!("expected a failed job"),
    }
    assert!(matches!(jobs.get(0).status, JobStatus::Failed));
    match &jobs.get(0).payload {
        JobPayload::FailureEnvelope { error, original } => {
            assert!(error.starts_with("decode"), "error was {error}");
            assert!(matches!(original.as_ref(), JobPayload::ProcessImage { .. }));
        },
        _ => panic!("payload not rewritten"),
    }
    assert!(matches!(catalog.get_file(0).status, FileStatus::Processing));
}

#[test]
fn empty_configuration_gives_ready_file_with_empty_map() {
    let mut catalog = Catalog::new();
    let mut store = ObjectStore::new();
    let mut jobs = JobStore::new();
    catalog.insert_project(project("p1", "Shop", Vec::new()));
    upload_image(
        &mut catalog,
        &mut store,
        &mut jobs,
        0,
        "f1",
        "j1",
        "a.png",
        "image/png",
        png_bytes(10, 10),
        1,
    );
    match worker_turn(&mut catalog, &mut store, &mut jobs, 2) {
        WorkerTurn::Ran { completed, .. } => assert!(completed),
        _ => panic!("expected a processed job"),
    }
    let f = catalog.get_file(0);
    assert!(matches!(f.status, FileStatus::Ready));
    assert!(f.variants.is_empty());
}

#[test]
fn upload_rejects_non_image_mime() {
    let settings = ProjectSettings { variants: None };
    let r = plan_image_upload(
        "Shop", "p1", "f1", "doc.pdf", "application/pdf", 3, &settings, "https://base", 1,
    );
    match r {
        Err(mediacore::errors::AppError::BadRequest(m)) => {
            assert_eq!(m, "File is not an image");
        },
        _ => panic!("non-image accepted"),
    }
}

#[test]
fn plain_file_upload_is_ready_without_job() {
    let plan = plan_file_upload(
        "My Shop", "p1", "f9", "notes.txt", "text/plain", 5, "https://base", 4,
    );
    assert_eq!(plan.s3_key, "my-shop-p1/files/f9.txt");
    assert!(matches!(plan.file_row.status, FileStatus::Ready));
    assert!(plan.job_payload.is_none());
    assert_eq!(plan.url, "https://base/my-shop-p1/files/f9.txt");
}

#[test]
fn sync_after_config_change_adds_new_variant() {
    let mut catalog = Catalog::new();
    let mut store = ObjectStore::new();
    let mut jobs = JobStore::new();
    catalog.insert_project(project(
        "p1",
        "Shop",
        vec![("thumb".to_string(), thumb_webp_cover())],
    ));
    upload_image(
        &mut catalog,
        &mut store,
        &mut jobs,
        0,
        "f1",
        "j1",
        "pic.png",
        "image/png",
        png_bytes(200, 100),
        1,
    );
    match worker_turn(&mut catalog, &mut store, &mut jobs, 2) {
        WorkerTurn::Ran { completed, .. } => assert!(completed),
        _ => panic!("expected a processed job"),
    }
    assert_eq!(catalog.get_file(0).variants.len(), 1);

    catalog.update_project_settings(
        0,
        ProjectSettings {
            variants: Some(vec![
                ("thumb".to_string(), thumb_webp_cover()),
                ("large".to_string(), large_png()),
            ]),
        },
        3,
    );
    jobs.enqueue(
        "j2".to_string(),
        "f1".to_string(),
        JobPayload::SyncProjectVariants { project_id: "p1".to_string() },
        3,
    );
    let children = match worker_turn(&mut catalog, &mut store, &mut jobs, 4) {
        WorkerTurn::FanOut { job, children } => {
            assert_eq!(job, 1);
            children
        },
        _ => panic!("expected fan-out"),
    };
    assert!(matches!(jobs.get(1).status, JobStatus::Completed));
    assert_eq!(children.len(), 1);
    for (k, (fid, payload)) in children.into_iter().enumerate() {
        jobs.enqueue(format!("jc{k}"), fid, payload, 5);
    }
    match worker_turn(&mut catalog, &mut store, &mut jobs, 6) {
        WorkerTurn::Ran { completed, .. } => assert!(completed),
        _ => panic!("expected a processed child"),
    }
    let f = catalog.get_file(0);
    assert!(matches!(f.status, FileStatus::Ready));
    let names: Vec<&str> = f.variants.iter().map(|(n, _)| n.as_str()).collect();
    assert_eq!(names, vec!["thumb", "large"]);
    assert!(store.get("shop-p1/images/thumb/f1.webp").is_some());
    assert!(store.get("shop-p1/images/large/f1.png").is_some());
}

#[test]
fn idle_worker_when_no_pending_jobs() {
    let mut catalog = Catalog::new();
    let mut store = ObjectStore::new();
    let mut jobs = JobStore::new();
    assert!(matches!(
        worker_turn(&mut catalog, &mut store, &mut jobs, 1),
        WorkerTurn::Idle
    ));
}

#[test]
fn sync_of_missing_project_fails_job() {
    let mut catalog = Catalog::new();
    let mut store = ObjectStore::new();
    let mut jobs = JobStore::new();
    jobs.enqueue(
        "j1".to_string(),
        "f1".to_string(),
        JobPayload::SyncProjectVariants { project_id: "nope".to_string() },
        1,
    );
    match worker_turn(&mut catalog, &mut store, &mut jobs, 2) {
        WorkerTurn::Ran { completed, .. } => assert!(!completed),
        _ => panic!("expected failure"),
    }
    match &jobs.get(0).payload {
        JobPayload::FailureEnvelope { error, .. } => assert_eq!(error, "Project not found"),
        _ => panic!("payload not rewritten"),
    }
}

#[test]
fn soft_then_hard_delete_with_retention() {
    let mut catalog = Catalog::new();
    let mut store = ObjectStore::new();
    let mut jobs = JobStore::new();
    catalog.insert_project(project(
        "p1",
        "Shop",
        vec![("thumb".to_string(), thumb_webp_cover())],
    ));
    catalog.insert_project(project("p2", "Keep", Vec::new()));
    // A legacy row of the doomed project: its variant value is the absolute
    // URL written at upload time, which the resolver maps back to a key.
    store.ensure_bucket();
    store.put(
        "shop-p1/images/original/f1.png".to_string(),
        png_bytes(100, 100),
        "image/png".to_string(),
    );
    store.put(
        "shop-p1/images/thumb/f1.webp".to_string(),
        vec![1, 2, 3],
        "image/webp".to_string(),
    );
    catalog.insert_file(FileRecord {
        id: "f1".to_string(),
        project_id: "p1".to_string(),
        s3_key: "shop-p1/images/original/f1.png".to_string(),
        filename: "pic.png".to_string(),
        mime_type: "image/png".to_string(),
        size: 3,
        status: FileStatus::Ready,
        variants: vec![(
            "thumb".to_string(),
            "https://media.s3.us-east-1.amazonaws.com/shop-p1/images/thumb/f1.webp".to_string(),
        )],
        created_at: 1,
        updated_at: 1,
    });
    jobs.enqueue(
        "j1".to_string(),
        "f1".to_string(),
        JobPayload::ProcessImage { variants: Vec::new() },
        1,
    );
    upload_image(
        &mut catalog,
        &mut store,
        &mut jobs,
        1,
        "f2",
        "j2",
        "other.png",
        "image/png",
        png_bytes(10, 10),
        3,
    );

    catalog.soft_delete_project(0, 100);
    assert!(catalog.get_project(0).deleted_at.is_some());

    // Well within retention: nothing happens.
    purge_retention(&mut catalog, &mut jobs, &mut store, "media", 200);
    assert_eq!(catalog.project_count(), 2);
    assert_eq!(catalog.file_count(), 2);

    // Synthetic clock advanced past the retention window.
    let later = 100 + RETENTION_SECONDS + 86_400;
    purge_retention(&mut catalog, &mut jobs, &mut store, "media", later);
    assert_eq!(catalog.project_count(), 1);
    assert_eq!(catalog.get_project(0).id, "p2");
    assert_eq!(catalog.file_count(), 1);
    assert_eq!(catalog.get_file(0).id, "f2");
    assert!(store.get("shop-p1/images/original/f1.png").is_none());
    assert!(store.get("shop-p1/images/thumb/f1.webp").is_none());
    assert!(store.get("keep-p2/images/original/f2.png").is_some());
    assert_eq!(jobs.len(), 1);
    assert_eq!(jobs.get(0).id, "j2");

    // Running the purge again right away changes nothing.
    let projects_before = catalog.project_count();
    let files_before = catalog.file_count();
    let jobs_before = jobs.len();
    purge_retention(&mut catalog, &mut jobs, &mut store, "media", later);
    assert_eq!(catalog.project_count(), projects_before);
    assert_eq!(catalog.file_count(), files_before);
    assert_eq!(jobs.len(), jobs_before);
    assert!(store.get("keep-p2/images/original/f2.png").is_some());
}

#[test]
fn purge_deletes_only_what_the_resolver_can_name() {
    // A variant value that is neither a `/<bucket>/` fragment nor a URL
    // resolves to nothing, so its object is left behind; the original's key
    // is always deleted directly.
    let mut catalog = Catalog::new();
    let mut store = ObjectStore::new();
    let mut jobs = JobStore::new();
    catalog.insert_project(project("p1", "Shop", Vec::new()));
    store.put("shop-p1/images/original/f1.png".to_string(), vec![1], "image/png".to_string());
    store.put("shop-p1/images/thumb/f1.webp".to_string(), vec![2], "image/webp".to_string());
    catalog.insert_file(FileRecord {
        id: "f1".to_string(),
        project_id: "p1".to_string(),
        s3_key: "shop-p1/images/original/f1.png".to_string(),
        filename: "pic.png".to_string(),
        mime_type: "image/png".to_string(),
        size: 1,
        status: FileStatus::Ready,
        variants: vec![("thumb".to_string(), "shop-p1/images/thumb/f1.webp".to_string())],
        created_at: 1,
        updated_at: 1,
    });
    catalog.soft_delete_project(0, 0);
    purge_retention(&mut catalog, &mut jobs, &mut store, "media", RETENTION_SECONDS * 2);
    assert_eq!(catalog.project_count(), 0);
    assert!(store.get("shop-p1/images/original/f1.png").is_none());
    assert!(store.get("shop-p1/images/thumb/f1.webp").is_some());
}

#[test]
fn content_key_resolution() {
    let f = FileRecord {
        id: "f1".to_string(),
        project_id: "p1".to_string(),
        s3_key: "shop-p1/images/original/f1.png".to_string(),
        filename: "pic.png".to_string(),
        mime_type: "image/png".to_string(),
        size: 1,
        status: FileStatus::Ready,
        variants: vec![(
            "thumb".to_string(),
            "https://media.s3.us-east-1.amazonaws.com/shop-p1/images/thumb/f1.webp".to_string(),
        )],
        created_at: 1,
        updated_at: 1,
    };
    assert_eq!(
        resolve_content_key(&f, None, "media").unwrap(),
        "shop-p1/images/original/f1.png"
    );
    let v = "thumb".to_string();
    assert_eq!(
        resolve_content_key(&f, Some(&v), "media").unwrap(),
        "shop-p1/images/thumb/f1.webp"
    );
    let missing = "large".to_string();
    match resolve_content_key(&f, Some(&missing), "media") {
        Err(mediacore::errors::AppError::NotFound(m)) => {
            assert_eq!(m, "Variant 'large' not found");
        },
        _ => panic!("missing variant resolved"),
    }
}

#[test]
fn file_access_rules() {
    assert!(file_access_allowed(Role::Su, "owner-a", "user-b"));
    assert!(file_access_allowed(Role::Admin, "owner-a", "owner-a"));
    assert!(!file_access_allowed(Role::Admin, "owner-a", "user-b"));
    assert!(!file_access_allowed(Role::User, "owner-a", "user-b"));
}

#[test]
fn delete_file_cascades_objects_and_jobs() {
    let mut catalog = Catalog::new();
    let mut store = ObjectStore::new();
    let mut jobs = JobStore::new();
    catalog.insert_project(project(
        "p1",
        "Shop",
        vec![("thumb".to_string(), thumb_webp_cover())],
    ));
    upload_image(
        &mut catalog,
        &mut store,
        &mut jobs,
        0,
        "f1",
        "j1",
        "pic.png",
        "image/png",
        png_bytes(64, 64),
        1,
    );
    upload_image(
        &mut catalog,
        &mut store,
        &mut jobs,
        0,
        "f2",
        "j2",
        "other.png",
        "image/png",
        png_bytes(8, 8),
        2,
    );
    delete_file_cascade(&mut catalog, &mut jobs, &mut store, 0, "media");
    assert_eq!(catalog.file_count(), 1);
    assert_eq!(catalog.get_file(0).id, "f2");
    assert!(store.get("shop-p1/images/original/f1.png").is_none());
    assert!(store.get("shop-p1/images/original/f2.png").is_some());
    assert_eq!(jobs.len(), 1);
    assert_eq!(jobs.get(0).id, "j2");
}

#[test]
fn permanent_project_delete_cascades() {
    let mut catalog = Catalog::new();
    let mut store = ObjectStore::new();
    let mut jobs = JobStore::new();
    catalog.insert_project(project("p1", "Gone", Vec::new()));
    catalog.insert_project(project("p2", "Stays", Vec::new()));
    upload_image(
        &mut catalog,
        &mut store,
        &mut jobs,
        0,
        "f1",
        "j1",
        "a.png",
        "image/png",
        png_bytes(8, 8),
        1,
    );
    upload_image(
        &mut catalog,
        &mut store,
        &mut jobs,
        1,
        "f2",
        "j2",
        "b.png",
        "image/png",
        png_bytes(8, 8),
        2,
    );
    hard_delete_project_cascade(&mut catalog, &mut jobs, &mut store, 0, "media");
    assert_eq!(catalog.project_count(), 1);
    assert_eq!(catalog.get_project(0).id, "p2");
    assert_eq!(catalog.file_count(), 1);
    assert_eq!(catalog.get_file(0).id, "f2");
    assert_eq!(jobs.len(), 1);
    assert_eq!(jobs.get(0).id, "j2");
    assert!(store.get("gone-p1/images/original/f1.png").is_none());
    assert!(store.get("stays-p2/images/original/f2.png").is_some());
}

#[test]
fn purge_never_touches_live_projects() {
    let mut catalog = Catalog::new();
    let mut store = ObjectStore::new();
    let mut jobs = JobStore::new();
    catalog.insert_project(project("p1", "Live", Vec::new()));
    upload_image(
        &mut catalog,
        &mut store,
        &mut jobs,
        0,
        "f1",
        "j1",
        "pic.png",
        "image/png",
        png_bytes(10, 10),
        1,
    );
    purge_retention(&mut catalog, &mut jobs, &mut store, "media", 10_000_000_000);
    assert_eq!(catalog.project_count(), 1);
    assert_eq!(catalog.file_count(), 1);
    assert_eq!(jobs.len(), 1);
    assert!(store.get("live-p1/images/original/f1.png").is_some());
}
