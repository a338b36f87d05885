//! The upload pipeline's decisions: given the multipart field the edge
//! extracted — filename, content type, bytes — and a fresh file identifier,
//! compute the object key, the file row, the predicted variant URLs, and
//! the processing job to enqueue.  The edge performs the store put and the
//! row inserts with exactly these values.

use vstd::prelude::*;

use crate::catalog::{FileRecord, FileStatus};
use crate::errors::AppError;
use crate::jobs::JobPayload;
use crate::keys::{
    extension_spec, get_extension, object_url, object_url_spec, original_image_key,
    original_image_key_spec, plain_file_key, plain_file_key_spec,
};
use crate::settings::{ProjectSettings, VariantConfig};
use crate::worker::{cfgs_eq, clone_variant_list};
use vstd::string::StrSliceExecFns;

verus! {

/// A mime type the image endpoint accepts: one under `image/`.
pub open spec fn is_image_mime(m: Seq<char>) -> bool {
    m.len() >= 6 && m.subrange(0, 6) == "image/"@
}

/// Decides [`is_image_mime`].
pub fn image_mime(m: &str) -> (r: bool)
    ensures
        r == is_image_mime(m@),
{
    let len = m.unicode_len();
    if len < 6 {
        return false;
    }
    let prefix = m.substring_char(0, 6);
    let r = crate::keys::str_eq(prefix, "image/");
    proof {
        if r {
            assert(m@.subrange(0, 6) == "image/"@);
        }
    }
    r
}

/// Everything the edge must persist for one accepted upload: the object to
/// put, the file row to insert, and — for images — the job to enqueue.
pub struct UploadPlan {
    /// Key under which the original bytes are stored.
    pub s3_key: String,
    /// The file row, keyed by the caller-minted file identifier.
    pub file_row: FileRecord,
    /// The processing job's payload; absent for plain file uploads.
    pub job_payload: Option<JobPayload>,
    /// The public URL reported back to the uploader.
    pub url: String,
}

/// Plans a plain file upload: the original is stored under the `files`
/// class key, the row is `ready` at once, and no job is enqueued.
pub fn plan_file_upload(
    project_name: &str,
    project_id: &str,
    file_id: &str,
    filename: &str,
    mime: &str,
    size: i64,
    base_url: &str,
    now: i64,
) -> (r: UploadPlan)
    ensures
        r.s3_key@ == plain_file_key_spec(
            project_name@,
            project_id@,
            file_id@,
            extension_spec(filename@),
        ),
        r.file_row.id@ == file_id@,
        r.file_row.project_id@ == project_id@,
        r.file_row.s3_key@ == r.s3_key@,
        r.file_row.filename@ == filename@,
        r.file_row.mime_type@ == mime@,
        r.file_row.size == size,
        r.file_row.status is Ready,
        r.file_row.variants@.len() == 0,
        r.file_row.created_at == now,
        r.file_row.updated_at == now,
        r.job_payload is None,
        r.url@ == object_url_spec(base_url@, r.s3_key@),
{
    let ext = get_extension(filename);
    let s3_key = plain_file_key(project_name, project_id, file_id, ext.as_str());
    let url = object_url(base_url, s3_key.as_str());
    let file_row = FileRecord {
        id: file_id.to_owned(),
        project_id: project_id.to_owned(),
        s3_key: s3_key.clone(),
        filename: filename.to_owned(),
        mime_type: mime.to_owned(),
        size,
        status: FileStatus::Ready,
        variants: Vec::new(),
        created_at: now,
        updated_at: now,
    };
    UploadPlan { s3_key, file_row, job_payload: None, url }
}

/// Plans an image upload: a non-image content type is rejected with the
/// client error; otherwise the original is stored under the image-original
/// key, the row starts `processing` with the predicted variant URLs, and a
/// processing job carrying the project's current variant configuration as a
/// snapshot is enqueued.
pub fn plan_image_upload(
    project_name: &str,
    project_id: &str,
    file_id: &str,
    filename: &str,
    mime: &str,
    size: i64,
    settings: &ProjectSettings,
    base_url: &str,
    now: i64,
) -> (r: Result<UploadPlan, AppError>)
    ensures
        r is Err <==> !is_image_mime(mime@),
        r matches Err(e) ==> e matches AppError::BadRequest(m) && m@ == "File is not an image"@,
        r matches Ok(p) ==> {
            &&& p.s3_key@ == original_image_key_spec(
                project_name@,
                project_id@,
                file_id@,
                extension_spec(filename@),
            )
            &&& p.file_row.id@ == file_id@
            &&& p.file_row.project_id@ == project_id@
            &&& p.file_row.s3_key@ == p.s3_key@
            &&& p.file_row.filename@ == filename@
            &&& p.file_row.mime_type@ == mime@
            &&& p.file_row.size == size
            &&& p.file_row.status is Processing
            &&& p.file_row.variants@.len() == settings.spec_variant_list().len()
            &&& (forall|i: int|
                0 <= i < settings.spec_variant_list().len() ==> p.file_row.variants@[i].0@
                    == settings.spec_variant_list()[i].0@)
            &&& p.file_row.created_at == now
            &&& p.file_row.updated_at == now
            &&& (p.job_payload matches Some(JobPayload::ProcessImage { variants }) && cfgs_eq(
                variants@,
                settings.spec_variant_list(),
            ))
            &&& p.url@ == object_url_spec(base_url@, p.s3_key@)
        },
{
    if !image_mime(mime) {
        return Err(AppError::BadRequest("File is not an image".to_owned()));
    }
    let ext = get_extension(filename);
    let s3_key = original_image_key(project_name, project_id, file_id, ext.as_str());
    let url = object_url(base_url, s3_key.as_str());
    let snapshot: Vec<(String, VariantConfig)> = match &settings.variants {
        Some(v) => clone_variant_list(v),
        None => Vec::new(),
    };
    let n = snapshot.len();
    let mut predicted: Vec<(String, String)> = Vec::new();
    let mut i: usize = 0;
    while i < n
        invariant
            n == snapshot@.len(),
            cfgs_eq(snapshot@, settings.spec_variant_list()),
            i <= n,
            predicted@.len() == i,
            forall|k: int| 0 <= k < i ==> predicted@[k].0@ == snapshot@[k].0@,
        decreases n - i,
    {
        let name = snapshot[i].0.clone();
        let variant_ext: &str = match &snapshot[i].1.format {
            Some(f) => {
                if crate::keys::str_eq(f.as_str(), "original") {
                    ext.as_str()
                } else {
                    f.as_str()
                }
            },
            None => ext.as_str(),
        };
        let variant_key = crate::keys::variant_key(
            project_name,
            project_id,
            snapshot[i].0.as_str(),
            file_id,
            variant_ext,
        );
        let variant_url = object_url(base_url, variant_key.as_str());
        predicted.push((name, variant_url));
        i = i + 1;
    }
    let file_row = FileRecord {
        id: file_id.to_owned(),
        project_id: project_id.to_owned(),
        s3_key: s3_key.clone(),
        filename: filename.to_owned(),
        mime_type: mime.to_owned(),
        size,
        status: FileStatus::Processing,
        variants: predicted,
        created_at: now,
        updated_at: now,
    };
    Ok(
        UploadPlan {
            s3_key,
            file_row,
            job_payload: Some(JobPayload::ProcessImage { variants: snapshot }),
            url,
        },
    )
}

} // verus!
