//! The worker: payload dispatch, the process-file-with-variants routine
//! shared by image and sync jobs, the project-wide fan-out, and one full
//! worker turn over the modelled tables and store.  The I/O edge runs the
//! permit-bounded loop and hands each turn to this module.

use vstd::prelude::*;
use vstd::string::StringExecFns;

use crate::catalog::{file_by_id, project_by_id, Catalog, FileRecord, ProjectRecord};
use crate::imaging::decoded_dims;
use crate::jobs::{status_rank, JobPayload, JobRecord, JobStatus, JobStore};
use crate::keys::{contains_seq, str_contains, str_eq, variant_key, variant_key_spec};
use crate::settings::VariantConfig;
use crate::store::{distinct_keys, value_of, ObjectStore, StoredObject};
use crate::transform::{spec_output_mime, spec_transform_ok, spec_transform_result, transform_image};

verus! {

/// The extension under which a variant is stored, derived from the mime
/// type the transformer reports.
pub open spec fn ext_of_mime(m: Seq<char>) -> Seq<char> {
    if m == "image/avif"@ {
        "avif"@
    } else if m == "image/webp"@ {
        "webp"@
    } else if m == "image/png"@ {
        "png"@
    } else if m == "image/jpeg"@ {
        "jpg"@
    } else {
        "bin"@
    }
}

pub fn ext_for_mime(m: &str) -> (r: String)
    ensures
        r@ == ext_of_mime(m@),
{
    if str_eq(m, "image/avif") {
        "avif".to_owned()
    } else if str_eq(m, "image/webp") {
        "webp".to_owned()
    } else if str_eq(m, "image/png") {
        "png".to_owned()
    } else if str_eq(m, "image/jpeg") {
        "jpg".to_owned()
    } else {
        "bin".to_owned()
    }
}

/// The fields the I/O edge reads off a stored payload document before the
/// verified dispatch decides what the job is.
pub struct PayloadWire {
    /// The `type` field, when the document has one.
    pub type_tag: Option<String>,
    /// Whether the document has a `variants` key at its root.
    pub has_variants: bool,
    /// The parsed `variants` map, when present and well-formed.
    pub variants: Option<Vec<(String, VariantConfig)>>,
    /// The parsed `variants_config` map, when present and well-formed.
    pub variants_config: Option<Vec<(String, VariantConfig)>>,
    /// The `project_id` field, when present.
    pub project_id: Option<String>,
}

/// Dispatch: an explicit `type` field decides the kind; without one, a
/// payload with a `variants` key is the legacy process-image shape; anything
/// else is unknown.  This compatibility rule keeps in-flight jobs of older
/// writers working.
pub fn decode_payload(w: PayloadWire) -> (r: Result<JobPayload, String>)
    ensures
        (w.type_tag matches Some(t) && t@ == "sync_project_variants"@ && w.project_id is Some) ==> (
        r matches Ok(JobPayload::SyncProjectVariants { project_id }) && project_id == w.project_id->0),
        (w.type_tag matches Some(t) && t@ == "sync_project_variants"@ && w.project_id is None) ==> (
        r matches Err(m) && m@ == "Missing project_id"@),
        (w.type_tag matches Some(t) && t@ == "sync_file_variants"@ && w.variants_config is Some)
            ==> (r matches Ok(JobPayload::SyncFileVariants { variants_config }) && variants_config
            == w.variants_config->0),
        (w.type_tag matches Some(t) && t@ == "sync_file_variants"@ && w.variants_config is None)
            ==> (r matches Err(m) && m@ == "Missing variants_config"@),
        (w.type_tag matches Some(t) && t@ != "sync_project_variants"@ && t@
            != "sync_file_variants"@) ==> (r matches Err(m) && m@ == "Unknown job type: "@
            + w.type_tag->0@),
        (w.type_tag is None && w.has_variants && w.variants is Some) ==> (r matches Ok(
            JobPayload::ProcessImage { variants },
        ) && variants == w.variants->0),
        (w.type_tag is None && w.has_variants && w.variants is None) ==> (r matches Err(m) && m@
            == "Invalid variants"@),
        (w.type_tag is None && !w.has_variants) ==> (r matches Err(m) && m@
            == "Unknown job payload structure"@),
{
    proof {
        reveal_strlit("sync_project_variants");
        reveal_strlit("sync_file_variants");
        assert("sync_project_variants"@.len() == 21);
        assert("sync_file_variants"@.len() == 18);
        assert("sync_project_variants"@ != "sync_file_variants"@);
    }
    match w.type_tag {
        Some(t) => {
            if str_eq(t.as_str(), "sync_project_variants") {
                match w.project_id {
                    Some(p) => Ok(JobPayload::SyncProjectVariants { project_id: p }),
                    None => Err("Missing project_id".to_owned()),
                }
            } else if str_eq(t.as_str(), "sync_file_variants") {
                match w.variants_config {
                    Some(v) => Ok(JobPayload::SyncFileVariants { variants_config: v }),
                    None => Err("Missing variants_config".to_owned()),
                }
            } else {
                let mut m = "Unknown job type: ".to_owned();
                m.append(t.as_str());
                Err(m)
            }
        },
        None => {
            if w.has_variants {
                match w.variants {
                    Some(v) => Ok(JobPayload::ProcessImage { variants: v }),
                    None => Err("Invalid variants".to_owned()),
                }
            } else {
                Err("Unknown job payload structure".to_owned())
            }
        },
    }
}

/// The view of an optional string.
pub open spec fn opt_view(o: Option<String>) -> Option<Seq<char>> {
    match o {
        Option::Some(s) => Option::Some(s@),
        Option::None => Option::None,
    }
}

/// Two variant configurations that agree field by field, up to string
/// identity.
pub open spec fn cfg_eq(a: VariantConfig, b: VariantConfig) -> bool {
    &&& opt_view(a.format) == opt_view(b.format)
    &&& a.quality == b.quality
    &&& a.width == b.width
    &&& a.height == b.height
    &&& a.max_width == b.max_width
    &&& a.max_height == b.max_height
    &&& opt_view(a.fit) == opt_view(b.fit)
}

/// Two variant lists that agree name by name and configuration by
/// configuration.
pub open spec fn cfgs_eq(a: Seq<(String, VariantConfig)>, b: Seq<(String, VariantConfig)>) -> bool {
    &&& a.len() == b.len()
    &&& forall|i: int| 0 <= i < a.len() ==> a[i].0@ == b[i].0@ && cfg_eq(a[i].1, b[i].1)
}

fn clone_opt_string(o: &Option<String>) -> (r: Option<String>)
    ensures
        opt_view(r) == opt_view(*o),
{
    match o {
        Some(s) => Some(s.clone()),
        None => None,
    }
}

/// Copies one variant configuration.
pub fn clone_cfg(c: &VariantConfig) -> (r: VariantConfig)
    ensures
        cfg_eq(r, *c),
{
    VariantConfig {
        format: clone_opt_string(&c.format),
        quality: c.quality,
        width: c.width,
        height: c.height,
        max_width: c.max_width,
        max_height: c.max_height,
        fit: clone_opt_string(&c.fit),
    }
}

/// Copies a variant list, as the fan-out embeds the configuration snapshot
/// into each child job.
pub fn clone_variant_list(v: &Vec<(String, VariantConfig)>) -> (r: Vec<(String, VariantConfig)>)
    ensures
        cfgs_eq(r@, v@),
{
    let n = v.len();
    let mut r: Vec<(String, VariantConfig)> = Vec::new();
    let mut i: usize = 0;
    while i < n
        invariant
            n == v@.len(),
            i <= n,
            r@.len() == i,
            forall|k: int| 0 <= k < i ==> r@[k].0@ == v@[k].0@ && cfg_eq(r@[k].1, v@[k].1),
        decreases n - i,
    {
        r.push((v[i].0.clone(), clone_cfg(&v[i].1)));
        i = i + 1;
    }
    r
}

/// Copies a byte vector.
pub fn clone_bytes(v: &Vec<u8>) -> (r: Vec<u8>)
    ensures
        r@ == v@,
{
    let n = v.len();
    let mut r: Vec<u8> = Vec::new();
    let mut i: usize = 0;
    while i < n
        invariant
            n == v@.len(),
            i <= n,
            r@ == v@.subrange(0, i as int),
        decreases n - i,
    {
        r.push(v[i]);
        proof {
            assert(r@ =~= v@.subrange(0, i + 1));
        }
        i = i + 1;
    }
    proof {
        assert(v@.subrange(0, n as int) =~= v@);
    }
    r
}

/// Configurations that agree field by field transform identically: same
/// resize plan, same output mime, the same pipeline result, and success on
/// exactly the same bytes.
pub proof fn lemma_cfg_eq_same_policy(a: VariantConfig, b: VariantConfig, data: Seq<u8>)
    requires
        cfg_eq(a, b),
    ensures
        crate::transform::spec_resize_plan(a) == crate::transform::spec_resize_plan(b),
        spec_output_mime(a, data) == spec_output_mime(b, data),
        spec_transform_result(data, a) == spec_transform_result(data, b),
        spec_transform_ok(data, a) == spec_transform_ok(data, b),
{
}

/// One object to be written to the store for a processed variant.
pub struct VariantUpload {
    pub key: String,
    pub bytes: Vec<u8>,
    pub mime: String,
}

/// The process-file-with-variants routine shared by the image and
/// sync-file jobs: transforms the original once per configured variant and
/// composes each variant's object key.  All variants are transformed before
/// anything is written, so a failure leaves no partial result.
///
/// The call succeeds exactly when every configured variant's
/// transformation succeeds; an empty configuration succeeds at once.  On
/// success there is exactly one upload per configured variant, in
/// configuration order: its name is the variant's, its bytes are exactly
/// the pipeline's ([`spec_transform_result`]), its mime follows the format
/// policy, and its key follows the variant key grammar with the extension
/// derived from that mime.  A failure message is tagged with the failing
/// stage, so undecodable bytes give a message starting `decode`.
pub fn process_file_variants(
    project_name: &str,
    project_id: &str,
    file_id: &str,
    original: &Vec<u8>,
    variants: &Vec<(String, VariantConfig)>,
) -> (r: Result<Vec<(String, VariantUpload)>, String>)
    ensures
        r is Ok <==> (forall|i: int|
            #![trigger variants@[i]]
            0 <= i < variants@.len() ==> spec_transform_ok(original@, variants@[i].1)),
        r matches Ok(ups) ==> {
            &&& ups@.len() == variants@.len()
            &&& forall|i: int| 0 <= i < ups@.len() ==> ups@[i].0@ == variants@[i].0@
            &&& forall|i: int|
                #![trigger ups@[i]]
                0 <= i < ups@.len() ==> (spec_transform_result(original@, variants@[i].1) matches
                Some(t) && ups@[i].1.bytes@ == t.0)
            &&& forall|i: int|
                0 <= i < ups@.len() ==> ups@[i].1.mime@ == spec_output_mime(
                    variants@[i].1,
                    original@,
                )
            &&& forall|i: int|
                0 <= i < ups@.len() ==> ups@[i].1.key@ == variant_key_spec(
                    project_name@,
                    project_id@,
                    variants@[i].0@,
                    file_id@,
                    ext_of_mime(ups@[i].1.mime@),
                )
        },
        (r is Err && decoded_dims(original@) is None) ==> r->Err_0@.len() >= 6
            && r->Err_0@.subrange(0, 6) == "decode"@,
{
    let n = variants.len();
    let mut ups: Vec<(String, VariantUpload)> = Vec::new();
    let mut i: usize = 0;
    while i < n
        invariant
            n == variants@.len(),
            i <= n,
            ups@.len() == i,
            forall|k: int|
                #![trigger variants@[k]]
                0 <= k < i ==> spec_transform_ok(original@, variants@[k].1),
            forall|k: int| 0 <= k < i ==> ups@[k].0@ == variants@[k].0@,
            forall|k: int|
                #![trigger ups@[k]]
                0 <= k < i ==> (spec_transform_result(original@, variants@[k].1) matches Some(t)
                    && ups@[k].1.bytes@ == t.0),
            forall|k: int|
                0 <= k < i ==> ups@[k].1.mime@ == spec_output_mime(variants@[k].1, original@),
            forall|k: int|
                0 <= k < i ==> ups@[k].1.key@ == variant_key_spec(
                    project_name@,
                    project_id@,
                    variants@[k].0@,
                    file_id@,
                    ext_of_mime(ups@[k].1.mime@),
                ),
        decreases n - i,
    {
        match transform_image(original, &variants[i].1) {
            Ok(out) => {
                let ext = ext_for_mime(out.mime.as_str());
                let key = variant_key(
                    project_name,
                    project_id,
                    variants[i].0.as_str(),
                    file_id,
                    ext.as_str(),
                );
                let name = variants[i].0.clone();
                ups.push((name, VariantUpload { key, bytes: out.bytes, mime: out.mime }));
            },
            Err(e) => {
                let mut m = e.stage().to_owned();
                m.append(": ");
                m.append(e.message().as_str());
                proof {
                    assert(!spec_transform_ok(original@, variants@[i as int].1));
                    if decoded_dims(original@) is None {
                        reveal_strlit("decode");
                        reveal_strlit(": ");
                        assert(m@.subrange(0, 6) =~= "decode"@);
                    }
                }
                return Err(m);
            },
        }
        i = i + 1;
    }
    Ok(ups)
}

/// Writes the processed variants to the store, in order, and returns the
/// variant map to record on the file row: one `(name, key)` entry per
/// upload.  When two uploads share a key the later write wins, as the store
/// itself behaves.
pub fn apply_uploads(store: &mut ObjectStore, uploads: Vec<(String, VariantUpload)>) -> (map: Vec<
    (String, String),
>)
    requires
        distinct_keys(old(store).objects@),
    ensures
        distinct_keys(final(store).objects@),
        final(store).bucket_exists == old(store).bucket_exists,
        final(store).public_read_policy == old(store).public_read_policy,
        map@.len() == uploads@.len(),
        forall|i: int| 0 <= i < map@.len() ==> map@[i].0@ == uploads@[i].0@,
        forall|i: int| 0 <= i < map@.len() ==> map@[i].1@ == uploads@[i].1.key@,
        forall|k: Seq<char>|
            (forall|i: int| 0 <= i < uploads@.len() ==> uploads@[i].1.key@ != k) ==> value_of(
                final(store).objects@,
                k,
            ) == value_of(old(store).objects@, k),
        forall|i: int|
            #![trigger uploads@[i]]
            0 <= i < uploads@.len() && (forall|j: int|
                #![trigger uploads@[j]]
                i < j < uploads@.len() ==> uploads@[j].1.key@ != uploads@[i].1.key@) ==> (value_of(
                final(store).objects@,
                uploads@[i].1.key@,
            ) matches Some(o) && o.bytes@ == uploads@[i].1.bytes@ && o.mime@
                == uploads@[i].1.mime@),
{
    let ghost orig = uploads@;
    let mut rest = uploads;
    let total = rest.len();
    proof {
        assert(orig.len() == total as int);
    }
    let mut map: Vec<(String, String)> = Vec::new();
    let mut done: usize = 0;
    while rest.len() > 0
        invariant
            distinct_keys(store.objects@),
            store.bucket_exists == old(store).bucket_exists,
            store.public_read_policy == old(store).public_read_policy,
            orig.len() <= usize::MAX,
            done + rest@.len() == orig.len(),
            rest@ == orig.subrange(done as int, orig.len() as int),
            map@.len() == done,
            forall|i: int| 0 <= i < done ==> map@[i].0@ == orig[i].0@,
            forall|i: int| 0 <= i < done ==> map@[i].1@ == orig[i].1.key@,
            forall|k: Seq<char>|
                (forall|i: int| 0 <= i < done ==> orig[i].1.key@ != k) ==> value_of(
                    store.objects@,
                    k,
                ) == value_of(old(store).objects@, k),
            forall|i: int|
                #![trigger orig[i]]
                0 <= i < done && (forall|j: int|
                    #![trigger orig[j]]
                    i < j < done ==> orig[j].1.key@ != orig[i].1.key@) ==> (value_of(
                    store.objects@,
                    orig[i].1.key@,
                ) matches Some(o) && o.bytes@ == orig[i].1.bytes@ && o.mime@ == orig[i].1.mime@),
        decreases rest@.len(),
    {
        let (name, up) = rest.remove(0);
        proof {
            assert(orig[done as int] == (name, up));
            assert(rest@ =~= orig.subrange(done + 1, orig.len() as int));
        }
        let key_copy = up.key.clone();
        store.put(up.key, up.bytes, up.mime);
        map.push((name, key_copy));
        done = done + 1;
    }
    proof {
        assert(orig.subrange(done as int, orig.len() as int).len() == 0);
        assert(done == orig.len());
    }
    map
}

/// The variant snapshot carried by an image-kind payload.
pub open spec fn payload_variants(p: JobPayload) -> Seq<(String, VariantConfig)> {
    match p {
        JobPayload::ProcessImage { variants } => variants@,
        JobPayload::SyncFileVariants { variants_config } => variants_config@,
        _ => Seq::empty(),
    }
}

/// An image-kind payload: the legacy process-image shape or a per-file
/// sync, which converge on the same routine.
pub open spec fn is_image_kind(p: JobPayload) -> bool {
    p is ProcessImage || p is SyncFileVariants
}

/// The job's file row, its project row, and its original object all
/// exist.
pub open spec fn image_job_rows_present(
    files: Seq<FileRecord>,
    projects: Seq<ProjectRecord>,
    objects: Seq<(String, StoredObject)>,
    job_file_id: Seq<char>,
) -> bool {
    &&& file_by_id(files, job_file_id) is Some
    &&& project_by_id(projects, file_by_id(files, job_file_id)->0.project_id@) is Some
    &&& value_of(objects, file_by_id(files, job_file_id)->0.s3_key@) is Some
}

/// Everything an image job needs in order to complete: its rows and
/// original object exist, and every variant of the snapshot transforms
/// successfully on the original's bytes.  An image job completes exactly
/// when this holds.
pub open spec fn image_job_ready(
    files: Seq<FileRecord>,
    projects: Seq<ProjectRecord>,
    objects: Seq<(String, StoredObject)>,
    job_file_id: Seq<char>,
    snap: Seq<(String, VariantConfig)>,
) -> bool {
    &&& image_job_rows_present(files, projects, objects, job_file_id)
    &&& (forall|vi: int|
        #![trigger snap[vi]]
        0 <= vi < snap.len() ==> spec_transform_ok(
            value_of(objects, file_by_id(files, job_file_id)->0.s3_key@)->0.bytes@,
            snap[vi].1,
        ))
}

/// What a successfully completed image job leaves behind: the file row of
/// the job's file is ready with one variant entry per snapshot entry, each
/// entry's key follows the variant key grammar of the file's project, and
/// the store maps each (finally written) key to an object of the policy's
/// mime type, every other key untouched.
pub open spec fn image_job_success(
    pre_files: Seq<FileRecord>,
    post_files: Seq<FileRecord>,
    pre_projects: Seq<ProjectRecord>,
    pre_objects: Seq<(String, StoredObject)>,
    post_objects: Seq<(String, StoredObject)>,
    job_file_id: Seq<char>,
    snap: Seq<(String, VariantConfig)>,
    now: int,
) -> bool {
    exists|fi: int, pi: int|
        #![trigger pre_files[fi], pre_projects[pi]]
        {
            &&& 0 <= fi < pre_files.len()
            &&& pre_files[fi].id@ == job_file_id
            &&& 0 <= pi < pre_projects.len()
            &&& pre_projects[pi].id@ == pre_files[fi].project_id@
            &&& value_of(pre_objects, pre_files[fi].s3_key@) is Some
            &&& post_files.len() == pre_files.len()
            &&& (forall|k: int| 0 <= k < pre_files.len() && k != fi ==> post_files[k] == pre_files[k])
            &&& post_files[fi].status is Ready
            &&& post_files[fi].updated_at == now
            &&& post_files[fi].id == pre_files[fi].id
            &&& post_files[fi].project_id == pre_files[fi].project_id
            &&& post_files[fi].s3_key == pre_files[fi].s3_key
            &&& post_files[fi].variants@.len() == snap.len()
            &&& (forall|vi: int|
                0 <= vi < snap.len() ==> post_files[fi].variants@[vi].0@ == snap[vi].0@)
            &&& (forall|vi: int|
                #![trigger snap[vi]]
                0 <= vi < snap.len() ==> post_files[fi].variants@[vi].1@ == variant_key_spec(
                    pre_projects[pi].name@,
                    pre_projects[pi].id@,
                    snap[vi].0@,
                    pre_files[fi].id@,
                    ext_of_mime(
                        spec_output_mime(
                            snap[vi].1,
                            value_of(pre_objects, pre_files[fi].s3_key@)->0.bytes@,
                        ),
                    ),
                ))
            &&& (forall|k: Seq<char>|
                (forall|vi: int|
                    0 <= vi < snap.len() ==> post_files[fi].variants@[vi].1@ != k) ==> value_of(
                    post_objects,
                    k,
                ) == value_of(pre_objects, k))
        }
}

/// Glue: the facts the lookup, transform, upload and completion steps
/// establish, taken together, are exactly a successful image job's
/// footprint.
proof fn lemma_image_job_success(
    pre_files: Seq<FileRecord>,
    post_files: Seq<FileRecord>,
    pre_projects: Seq<ProjectRecord>,
    pre_objects: Seq<(String, StoredObject)>,
    post_objects: Seq<(String, StoredObject)>,
    job_file_id: Seq<char>,
    snap: Seq<(String, VariantConfig)>,
    now: int,
    fi: int,
    pi: int,
    map: Seq<(String, String)>,
    ups: Seq<(String, VariantUpload)>,
    orig_bytes: Seq<u8>,
)
    requires
        0 <= fi < pre_files.len(),
        pre_files[fi].id@ == job_file_id,
        0 <= pi < pre_projects.len(),
        pre_projects[pi].id@ == pre_files[fi].project_id@,
        value_of(pre_objects, pre_files[fi].s3_key@) matches Some(ob) && ob.bytes@ == orig_bytes,
        ups.len() == snap.len(),
        forall|vi: int| 0 <= vi < ups.len() ==> ups[vi].0@ == snap[vi].0@,
        forall|vi: int|
            0 <= vi < ups.len() ==> ups[vi].1.mime@ == spec_output_mime(snap[vi].1, orig_bytes),
        forall|vi: int|
            #![trigger ups[vi]]
            0 <= vi < ups.len() ==> ups[vi].1.key@ == variant_key_spec(
                pre_projects[pi].name@,
                pre_projects[pi].id@,
                snap[vi].0@,
                pre_files[fi].id@,
                ext_of_mime(ups[vi].1.mime@),
            ),
        map.len() == ups.len(),
        forall|i: int| 0 <= i < map.len() ==> map[i].0@ == ups[i].0@,
        forall|i: int| 0 <= i < map.len() ==> map[i].1@ == ups[i].1.key@,
        forall|k: Seq<char>|
            (forall|i: int| 0 <= i < ups.len() ==> ups[i].1.key@ != k) ==> value_of(post_objects, k)
                == value_of(pre_objects, k),
        post_files.len() == pre_files.len(),
        forall|k: int| 0 <= k < pre_files.len() && k != fi ==> post_files[k] == pre_files[k],
        post_files[fi].status is Ready,
        post_files[fi].updated_at == now,
        post_files[fi].id == pre_files[fi].id,
        post_files[fi].project_id == pre_files[fi].project_id,
        post_files[fi].s3_key == pre_files[fi].s3_key,
        post_files[fi].variants@ == map,
    ensures
        image_job_success(
            pre_files,
            post_files,
            pre_projects,
            pre_objects,
            post_objects,
            job_file_id,
            snap,
            now,
        ),
{
    let ob = value_of(pre_objects, pre_files[fi].s3_key@)->0;
    assert forall|vi: int| #![trigger snap[vi]] 0 <= vi < snap.len() implies post_files[
        fi
    ].variants@[vi].1@ == variant_key_spec(
        pre_projects[pi].name@,
        pre_projects[pi].id@,
        snap[vi].0@,
        pre_files[fi].id@,
        ext_of_mime(spec_output_mime(snap[vi].1, ob.bytes@)),
    ) by {
        assert(map[vi].1@ == ups[vi].1.key@);
        assert(ups[vi].1.mime@ == spec_output_mime(snap[vi].1, orig_bytes));
    }
    assert forall|k: Seq<char>|
        (forall|vi: int| 0 <= vi < snap.len() ==> post_files[fi].variants@[vi].1@ != k) implies value_of(
        post_objects,
        k,
    ) == value_of(pre_objects, k) by {
        assert forall|i: int| 0 <= i < ups.len() implies ups[i].1.key@ != k by {
            assert(map[i].1@ == ups[i].1.key@);
            assert(post_files[fi].variants@[i].1@ != k);
        }
    }
}

/// Runs one claimed image-kind job to its terminal state: loads the file
/// row, its project, and the original object, derives every configured
/// variant, writes the variant objects, records the variant map on the
/// file row, and completes the job.  Any failure — a missing row, a
/// missing original, or a transformer error — fails the job and leaves the
/// catalog and the store exactly as they were; the file row then keeps its
/// prior status.
#[verifier::rlimit(100)]
pub fn run_image_job(
    catalog: &mut Catalog,
    store: &mut ObjectStore,
    jobs: &mut JobStore,
    ji: usize,
    now: i64,
) -> (ok: bool)
    requires
        ji < old(jobs).jobs@.len(),
        old(jobs).jobs@[ji as int].status is Processing,
        is_image_kind(old(jobs).jobs@[ji as int].payload),
        distinct_keys(old(store).objects@),
    ensures
        distinct_keys(final(store).objects@),
        final(jobs).jobs@.len() == old(jobs).jobs@.len(),
        forall|k: int|
            0 <= k < old(jobs).jobs@.len() && k != ji ==> final(jobs).jobs@[k] == old(
                jobs,
            ).jobs@[k],
        ok ==> final(jobs).jobs@[ji as int] == (JobRecord {
            status: JobStatus::Completed,
            updated_at: now,
            ..old(jobs).jobs@[ji as int]
        }),
        !ok ==> final(jobs).jobs@[ji as int].status is Failed,
        !ok ==> final(jobs).jobs@[ji as int].updated_at == now,
        !ok ==> (final(jobs).jobs@[ji as int].payload matches JobPayload::FailureEnvelope {
            error: _,
            original: o,
        } && o == old(jobs).jobs@[ji as int].payload),
        !ok ==> *final(catalog) == *old(catalog) && final(store).objects == old(store).objects,
        ok <==> image_job_ready(
            old(catalog).files@,
            old(catalog).projects@,
            old(store).objects@,
            old(jobs).jobs@[ji as int].file_id@,
            payload_variants(old(jobs).jobs@[ji as int].payload),
        ),
        (!ok && file_by_id(old(catalog).files@, old(jobs).jobs@[ji as int].file_id@) is None) ==> (
        final(jobs).jobs@[ji as int].payload matches JobPayload::FailureEnvelope {
            error: e,
            original: _,
        } && e@ == "File not found"@),
        (!ok && file_by_id(old(catalog).files@, old(jobs).jobs@[ji as int].file_id@) is Some
            && project_by_id(
            old(catalog).projects@,
            file_by_id(old(catalog).files@, old(jobs).jobs@[ji as int].file_id@)->0.project_id@,
        ) is None) ==> (final(jobs).jobs@[ji as int].payload matches JobPayload::FailureEnvelope {
            error: e,
            original: _,
        } && e@ == "Project not found"@),
        (!ok && file_by_id(old(catalog).files@, old(jobs).jobs@[ji as int].file_id@) is Some
            && project_by_id(
            old(catalog).projects@,
            file_by_id(old(catalog).files@, old(jobs).jobs@[ji as int].file_id@)->0.project_id@,
        ) is Some && value_of(
            old(store).objects@,
            file_by_id(old(catalog).files@, old(jobs).jobs@[ji as int].file_id@)->0.s3_key@,
        ) is None) ==> (final(jobs).jobs@[ji as int].payload matches JobPayload::FailureEnvelope {
            error: e,
            original: _,
        } && e@ == "Original object not found"@),
        (!ok && image_job_rows_present(
            old(catalog).files@,
            old(catalog).projects@,
            old(store).objects@,
            old(jobs).jobs@[ji as int].file_id@,
        ) && decoded_dims(
            value_of(
                old(store).objects@,
                file_by_id(old(catalog).files@, old(jobs).jobs@[ji as int].file_id@)->0.s3_key@,
            )->0.bytes@,
        ) is None && payload_variants(old(jobs).jobs@[ji as int].payload).len() > 0) ==> (
        final(jobs).jobs@[ji as int].payload matches JobPayload::FailureEnvelope {
            error: e,
            original: _,
        } && e@.len() >= 6 && e@.subrange(0, 6) == "decode"@),
        ok ==> image_job_success(
            old(catalog).files@,
            final(catalog).files@,
            old(catalog).projects@,
            old(store).objects@,
            final(store).objects@,
            old(jobs).jobs@[ji as int].file_id@,
            payload_variants(old(jobs).jobs@[ji as int].payload),
            now as int,
        ),
        ok ==> final(catalog).projects == old(catalog).projects,
        forall|k: int|
            0 <= k < old(jobs).jobs@.len() ==> status_rank(old(jobs).jobs@[k].status) <= status_rank(
                final(jobs).jobs@[k].status,
            ),
{
    let file_id = jobs.get(ji).file_id.clone();
    let fi = match catalog.find_file(file_id.as_str()) {
        Some(fi) => fi,
        None => {
            jobs.mark_failed(ji, "File not found".to_owned(), now);
            return false;
        },
    };
    let project_id = catalog.get_file(fi).project_id.clone();
    let pi = match catalog.find_project(project_id.as_str()) {
        Some(pi) => pi,
        None => {
            jobs.mark_failed(ji, "Project not found".to_owned(), now);
            return false;
        },
    };
    let original: Vec<u8> = match store.get(catalog.get_file(fi).s3_key.as_str()) {
        Some(o) => clone_bytes(&o.bytes),
        None => {
            jobs.mark_failed(ji, "Original object not found".to_owned(), now);
            return false;
        },
    };
    let outcome = {
        let project = catalog.get_project(pi);
        let snapshot: &Vec<(String, VariantConfig)> = match &jobs.get(ji).payload {
            JobPayload::ProcessImage { variants } => variants,
            JobPayload::SyncFileVariants { variants_config } => variants_config,
            _ => {
                return false;
            },
        };
        process_file_variants(
            project.name.as_str(),
            project.id.as_str(),
            file_id.as_str(),
            &original,
            snapshot,
        )
    };
    match outcome {
        Err(m) => {
            jobs.mark_failed(ji, m, now);
            false
        },
        Ok(uploads) => {
            let ghost gups = uploads@;
            let map = apply_uploads(store, uploads);
            let ghost gmap = map@;
            catalog.set_file_ready(fi, map, now);
            jobs.mark_completed(ji, now);
            proof {
                lemma_image_job_success(
                    old(catalog).files@,
                    catalog.files@,
                    old(catalog).projects@,
                    old(store).objects@,
                    store.objects@,
                    old(jobs).jobs@[ji as int].file_id@,
                    payload_variants(old(jobs).jobs@[ji as int].payload),
                    now as int,
                    fi as int,
                    pi as int,
                    gmap,
                    gups,
                    original@,
                );
            }
            true
        },
    }
}

/// A file of the project that the substring filter counts as an image.
pub open spec fn is_image_file(f: FileRecord, pid: Seq<char>) -> bool {
    f.project_id@ == pid && contains_seq(f.mime_type@, "image"@)
}

/// The project's image files, in table order.
pub open spec fn image_files(s: Seq<FileRecord>, pid: Seq<char>) -> Seq<FileRecord>
    decreases s.len(),
{
    if s.len() == 0 {
        Seq::empty()
    } else if is_image_file(s.last(), pid) {
        image_files(s.drop_last(), pid) + seq![s.last()]
    } else {
        image_files(s.drop_last(), pid)
    }
}

/// The fan-out of a project-wide sync: one per-file sync payload for every
/// image file of the project, each embedding the project's current variant
/// configuration as a snapshot, so that later configuration changes do not
/// retroactively mutate the children.  Fails exactly when the project row
/// is missing.
pub fn sync_project_payloads(catalog: &Catalog, project_id: &str) -> (r: Result<
    Vec<(String, JobPayload)>,
    String,
>)
    ensures
        r is Err <==> (forall|j: int|
            0 <= j < catalog.projects@.len() ==> catalog.projects@[j].id@ != project_id@),
        r matches Err(m) ==> m@ == "Project not found"@,
        r matches Ok(list) ==> exists|pi: int|
            #![trigger catalog.projects@[pi]]
            {
                &&& 0 <= pi < catalog.projects@.len()
                &&& catalog.projects@[pi].id@ == project_id@
                &&& {
                    let imgs = image_files(catalog.files@, project_id@);
                    let snap = catalog.projects@[pi].settings.spec_variant_list();
                    &&& list@.len() == imgs.len()
                    &&& (forall|i: int| 0 <= i < imgs.len() ==> list@[i].0@ == imgs[i].id@)
                    &&& (forall|i: int|
                        #![trigger list@[i]]
                        0 <= i < imgs.len() ==> (list@[i].1 matches
                        JobPayload::SyncFileVariants { variants_config: v } && cfgs_eq(v@, snap)))
                }
            },
{
    let pi = match catalog.find_project(project_id) {
        Some(pi) => pi,
        None => {
            return Err("Project not found".to_owned());
        },
    };
    let mut list: Vec<(String, JobPayload)> = Vec::new();
    let n = catalog.file_count();
    let mut i: usize = 0;
    while i < n
        invariant
            n == catalog.files@.len(),
            i <= n,
            pi < catalog.projects@.len(),
            catalog.projects@[pi as int].id@ == project_id@,
            list@.len() == image_files(catalog.files@.subrange(0, i as int), project_id@).len(),
            ({
                let imgs = image_files(catalog.files@.subrange(0, i as int), project_id@);
                let snap = catalog.projects@[pi as int].settings.spec_variant_list();
                &&& (forall|k: int| 0 <= k < imgs.len() ==> list@[k].0@ == imgs[k].id@)
                &&& (forall|k: int|
                    #![trigger list@[k]]
                    0 <= k < imgs.len() ==> (list@[k].1 matches JobPayload::SyncFileVariants {
                        variants_config: v,
                    } && cfgs_eq(v@, snap)))
            }),
        decreases n - i,
    {
        let f = catalog.get_file(i);
        let is_image = str_contains(f.mime_type.as_str(), "image");
        let belongs = str_eq(f.project_id.as_str(), catalog.get_project(pi).id.as_str());
        proof {
            assert(catalog.files@.subrange(0, i + 1).drop_last() =~= catalog.files@.subrange(
                0,
                i as int,
            ));
            assert(catalog.files@.subrange(0, i + 1).last() == catalog.files@[i as int]);
        }
        if is_image && belongs {
            let snapshot: Vec<(String, VariantConfig)> = match &catalog.get_project(
                pi,
            ).settings.variants {
                Some(v) => clone_variant_list(v),
                None => Vec::new(),
            };
            let payload = JobPayload::SyncFileVariants { variants_config: snapshot };
            list.push((f.id.clone(), payload));
        }
        i = i + 1;
    }
    proof {
        assert(catalog.files@.subrange(0, n as int) =~= catalog.files@);
    }
    Ok(list)
}

/// The outcome of one worker turn.
pub enum WorkerTurn {
    /// No pending job: the worker releases its permit and sleeps.
    Idle,
    /// A job was claimed and ran to a terminal state.
    Ran { job: usize, completed: bool },
    /// A project-wide sync was claimed and completed; the caller enqueues
    /// one child job per listed file, minting fresh identifiers.
    FanOut { job: usize, children: Vec<(String, JobPayload)> },
}

/// One turn of the worker loop over the modelled state: claim the oldest
/// pending job, dispatch by payload kind, and close the job.  Image-kind
/// jobs run the process-file routine; a project-wide sync computes its
/// fan-out and completes; a failure envelope claimed by mistake fails
/// again.  Job statuses only ever move forward.
pub fn worker_turn(catalog: &mut Catalog, store: &mut ObjectStore, jobs: &mut JobStore, now: i64) -> (r:
    WorkerTurn)
    requires
        distinct_keys(old(store).objects@),
    ensures
        distinct_keys(final(store).objects@),
        final(jobs).jobs@.len() == old(jobs).jobs@.len(),
        forall|k: int|
            0 <= k < old(jobs).jobs@.len() ==> status_rank(old(jobs).jobs@[k].status)
                <= status_rank(final(jobs).jobs@[k].status),
        r is Idle ==> *final(catalog) == *old(catalog) && *final(store) == *old(store)
            && *final(jobs) == *old(jobs) && (forall|k: int|
            0 <= k < old(jobs).jobs@.len() ==> !(old(jobs).jobs@[k].status is Pending)),
        r matches WorkerTurn::Ran { job, completed } ==> {
            &&& job < old(jobs).jobs@.len()
            &&& old(jobs).jobs@[job as int].status is Pending
            &&& final(jobs).jobs@[job as int].status == (if completed {
                JobStatus::Completed
            } else {
                JobStatus::Failed
            })
            &&& final(jobs).jobs@[job as int].updated_at == now
            &&& (forall|k: int|
                0 <= k < old(jobs).jobs@.len() && k != job ==> final(jobs).jobs@[k] == old(
                    jobs,
                ).jobs@[k])
            &&& (is_image_kind(old(jobs).jobs@[job as int].payload) && completed)
                ==> image_job_success(
                old(catalog).files@,
                final(catalog).files@,
                old(catalog).projects@,
                old(store).objects@,
                final(store).objects@,
                old(jobs).jobs@[job as int].file_id@,
                payload_variants(old(jobs).jobs@[job as int].payload),
                now as int,
            )
            &&& !completed ==> (*final(catalog) == *old(catalog) && final(store).objects == old(
                store,
            ).objects)
            &&& is_image_kind(old(jobs).jobs@[job as int].payload) ==> (completed
                <==> image_job_ready(
                old(catalog).files@,
                old(catalog).projects@,
                old(store).objects@,
                old(jobs).jobs@[job as int].file_id@,
                payload_variants(old(jobs).jobs@[job as int].payload),
            ))
            &&& (is_image_kind(old(jobs).jobs@[job as int].payload) && !completed
                && image_job_rows_present(
                old(catalog).files@,
                old(catalog).projects@,
                old(store).objects@,
                old(jobs).jobs@[job as int].file_id@,
            ) && decoded_dims(
                value_of(
                    old(store).objects@,
                    file_by_id(
                        old(catalog).files@,
                        old(jobs).jobs@[job as int].file_id@,
                    )->0.s3_key@,
                )->0.bytes@,
            ) is None && payload_variants(old(jobs).jobs@[job as int].payload).len() > 0) ==> (
            final(jobs).jobs@[job as int].payload matches JobPayload::FailureEnvelope {
                error: e,
                original: _,
            } && e@.len() >= 6 && e@.subrange(0, 6) == "decode"@)
            &&& old(jobs).jobs@[job as int].payload is SyncProjectVariants ==> (!completed
                && project_by_id(
                old(catalog).projects@,
                old(jobs).jobs@[job as int].payload->SyncProjectVariants_project_id@,
            ) is None && (final(jobs).jobs@[job as int].payload matches
            JobPayload::FailureEnvelope { error: e, original: _ } && e@ == "Project not found"@))
            &&& old(jobs).jobs@[job as int].payload is FailureEnvelope ==> (!completed && (
            final(jobs).jobs@[job as int].payload matches JobPayload::FailureEnvelope {
                error: e,
                original: _,
            } && e@ == "Unknown job payload structure"@))
        },
        r matches WorkerTurn::FanOut { job, children } ==> {
            &&& job < old(jobs).jobs@.len()
            &&& old(jobs).jobs@[job as int].status is Pending
            &&& old(jobs).jobs@[job as int].payload is SyncProjectVariants
            &&& final(jobs).jobs@[job as int].status is Completed
            &&& *final(catalog) == *old(catalog)
            &&& *final(store) == *old(store)
            &&& (forall|k: int|
                0 <= k < old(jobs).jobs@.len() && k != job ==> final(jobs).jobs@[k] == old(
                    jobs,
                ).jobs@[k])
            &&& {
                let pid = old(jobs).jobs@[job as int].payload->SyncProjectVariants_project_id@;
                let imgs = image_files(old(catalog).files@, pid);
                &&& project_by_id(old(catalog).projects@, pid) is Some
                &&& children@.len() == imgs.len()
                &&& (forall|i: int| 0 <= i < imgs.len() ==> children@[i].0@ == imgs[i].id@)
            }
        },
{
    let ji = match jobs.claim_next(now) {
        Some(ji) => ji,
        None => {
            return WorkerTurn::Idle;
        },
    };
    let kind_image = matches!(
        jobs.get(ji).payload,
        JobPayload::ProcessImage { .. } | JobPayload::SyncFileVariants { .. }
    );
    if kind_image {
        let completed = run_image_job(catalog, store, jobs, ji, now);
        return WorkerTurn::Ran { job: ji, completed };
    }
    let pid = match &jobs.get(ji).payload {
        JobPayload::SyncProjectVariants { project_id } => project_id.clone(),
        _ => {
            jobs.mark_failed(ji, "Unknown job payload structure".to_owned(), now);
            return WorkerTurn::Ran { job: ji, completed: false };
        },
    };
    match sync_project_payloads(catalog, pid.as_str()) {
        Ok(children) => {
            proof {
                crate::catalog::lemma_project_by_id_some_iff(catalog.projects@, pid@);
            }
            jobs.mark_completed(ji, now);
            WorkerTurn::FanOut { job: ji, children }
        },
        Err(m) => {
            proof {
                crate::catalog::lemma_project_by_id_some_iff(catalog.projects@, pid@);
            }
            jobs.mark_failed(ji, m, now);
            WorkerTurn::Ran { job: ji, completed: false }
        },
    }
}

/// A job row the per-project listing shows: its file belongs to the
/// project, and its status matches the filter when one is given.
pub open spec fn job_listed(
    j: JobRecord,
    files: Seq<FileRecord>,
    pid: Seq<char>,
    status: Option<JobStatus>,
) -> bool {
    &&& crate::reconcile::file_of_project(files, j.file_id@, pid)
    &&& (status matches Some(st) ==> j.status == st)
}

/// The indices of the jobs the per-project listing shows, in table order:
/// exactly the jobs of the project's files, optionally narrowed to one
/// status.  Ordering and paging are the caller's, as the database's.
pub fn project_job_indices(
    jobs: &JobStore,
    catalog: &Catalog,
    project_id: &str,
    status: Option<JobStatus>,
) -> (r: Vec<usize>)
    ensures
        forall|a: int, b: int| 0 <= a < b < r@.len() ==> r@[a] < r@[b],
        forall|a: int|
            0 <= a < r@.len() ==> r@[a] < jobs.jobs@.len() && job_listed(
                jobs.jobs@[r@[a] as int],
                catalog.files@,
                project_id@,
                status,
            ),
        forall|i: int|
            0 <= i < jobs.jobs@.len() && job_listed(
                jobs.jobs@[i],
                catalog.files@,
                project_id@,
                status,
            ) ==> exists|a: int| 0 <= a < r@.len() && r@[a] == i,
{
    let n = jobs.len();
    let mut r: Vec<usize> = Vec::new();
    let mut i: usize = 0;
    while i < n
        invariant
            n == jobs.jobs@.len(),
            i <= n,
            forall|a: int, b: int| 0 <= a < b < r@.len() ==> r@[a] < r@[b],
            forall|a: int| 0 <= a < r@.len() ==> r@[a] < i,
            forall|a: int|
                0 <= a < r@.len() ==> job_listed(
                    jobs.jobs@[r@[a] as int],
                    catalog.files@,
                    project_id@,
                    status,
                ),
            forall|k: int|
                0 <= k < i && job_listed(jobs.jobs@[k], catalog.files@, project_id@, status)
                    ==> exists|a: int| 0 <= a < r@.len() && r@[a] == k,
        decreases n - i,
    {
        let j = jobs.get(i);
        let belongs = crate::reconcile::file_of_project_exec(
            catalog,
            j.file_id.as_str(),
            project_id,
        );
        let wanted = match status {
            Some(st) => j.status == st,
            None => true,
        };
        if belongs && wanted {
            let ghost pre_r = r@;
            r.push(i);
            proof {
                assert forall|k: int|
                    0 <= k < i + 1 && job_listed(
                        jobs.jobs@[k],
                        catalog.files@,
                        project_id@,
                        status,
                    ) implies exists|a: int| 0 <= a < r@.len() && r@[a] == k by {
                    if k == i {
                        assert(r@[r@.len() - 1] == k);
                    } else {
                        let a = choose|a: int| 0 <= a < pre_r.len() && pre_r[a] == k;
                        assert(r@[a] == k);
                    }
                }
            }
        } else {
            proof {
                assert(!job_listed(jobs.jobs@[i as int], catalog.files@, project_id@, status));
            }
        }
        i = i + 1;
    }
    r
}

/// A file just made ready by an image job holds one variant entry per
/// entry of the job's configuration snapshot.  When that snapshot is the
/// project's active configuration — as it is from enqueue until the
/// configuration next changes — a ready file's variants map is non-empty
/// exactly when the active configuration defines at least one variant.
pub proof fn lemma_ready_variants_nonempty(
    pre_files: Seq<FileRecord>,
    post_files: Seq<FileRecord>,
    pre_projects: Seq<ProjectRecord>,
    pre_objects: Seq<(String, StoredObject)>,
    post_objects: Seq<(String, StoredObject)>,
    job_file_id: Seq<char>,
    snap: Seq<(String, VariantConfig)>,
    active: Seq<(String, VariantConfig)>,
    now: int,
    fi: int,
)
    requires
        image_job_success(
            pre_files,
            post_files,
            pre_projects,
            pre_objects,
            post_objects,
            job_file_id,
            snap,
            now,
        ),
        snap.len() == active.len(),
        0 <= fi < post_files.len(),
        post_files[fi].id@ == job_file_id,
        forall|k: int, l: int| 0 <= k < l < pre_files.len() ==> pre_files[k].id@ != pre_files[l].id@,
    ensures
        post_files[fi].status is Ready,
        post_files[fi].variants@.len() > 0 <==> active.len() > 0,
{
    let (wfi, wpi) = choose|wfi: int, wpi: int|
        #![trigger pre_files[wfi], pre_projects[wpi]]
        {
            &&& 0 <= wfi < pre_files.len()
            &&& pre_files[wfi].id@ == job_file_id
            &&& 0 <= wpi < pre_projects.len()
            &&& pre_projects[wpi].id@ == pre_files[wfi].project_id@
            &&& value_of(pre_objects, pre_files[wfi].s3_key@) is Some
            &&& post_files.len() == pre_files.len()
            &&& (forall|k: int|
                0 <= k < pre_files.len() && k != wfi ==> post_files[k] == pre_files[k])
            &&& post_files[wfi].status is Ready
            &&& post_files[wfi].updated_at == now
            &&& post_files[wfi].id == pre_files[wfi].id
            &&& post_files[wfi].project_id == pre_files[wfi].project_id
            &&& post_files[wfi].s3_key == pre_files[wfi].s3_key
            &&& post_files[wfi].variants@.len() == snap.len()
        };
    if wfi != fi {
        assert(post_files[fi] == pre_files[fi]);
        assert(pre_files[fi].id@ != pre_files[wfi].id@);
        assert(false);
    }
}

/// The decimal digits of `n`.
pub open spec fn spec_u64_dec(n: int) -> Seq<char>
    decreases n,
{
    if n < 0 {
        Seq::empty()
    } else if n < 10 {
        seq![((('0' as int) + n) as char)]
    } else {
        spec_u64_dec(n / 10) + seq![((('0' as int) + n % 10) as char)]
    }
}

/// Renders a count in decimal.
pub fn u64_to_dec(n: u64) -> (r: String)
    ensures
        r@ == spec_u64_dec(n as int),
    decreases n,
{
    if n < 10 {
        let d: u8 = 48 + (n as u8);
        let mut v: Vec<u8> = Vec::new();
        v.push(d);
        let r = crate::keys::string_from_ascii(v);
        proof {
            assert(r@ =~= spec_u64_dec(n as int));
        }
        r
    } else {
        let mut r = u64_to_dec(n / 10);
        let d: u8 = 48 + ((n % 10) as u8);
        let mut v: Vec<u8> = Vec::new();
        v.push(d);
        let tail = crate::keys::string_from_ascii(v);
        r.append(tail.as_str());
        proof {
            assert(r@ =~= spec_u64_dec(n as int));
        }
        r
    }
}

/// Hundredths of `n / d`, rounded half up.
pub open spec fn spec_hundredths(n: int, d: int) -> int {
    (n * 100 + d / 2) / d
}

/// A byte count rendered for logs: mebibytes with two decimals at a
/// mebibyte and above, kilobytes with two decimals at a kilobyte and above,
/// bare bytes below.
pub open spec fn spec_format_size(bytes: int) -> Seq<char> {
    if bytes >= 0x10_0000 {
        let h = spec_hundredths(bytes, 0x10_0000);
        spec_u64_dec(h / 100) + "."@ + spec_two_digits(h % 100) + "MiB"@
    } else if bytes >= 0x400 {
        let h = spec_hundredths(bytes, 0x400);
        spec_u64_dec(h / 100) + "."@ + spec_two_digits(h % 100) + "kb"@
    } else {
        spec_u64_dec(bytes) + "b"@
    }
}

/// Exactly two decimal digits.
pub open spec fn spec_two_digits(n: int) -> Seq<char> {
    seq![((('0' as int) + n / 10) as char), ((('0' as int) + n % 10) as char)]
}

fn two_digits(n: u64) -> (r: String)
    requires
        n < 100,
    ensures
        r@ == spec_two_digits(n as int),
{
    let mut v: Vec<u8> = Vec::new();
    v.push(48 + ((n / 10) as u8));
    v.push(48 + ((n % 10) as u8));
    let r = crate::keys::string_from_ascii(v);
    proof {
        assert(r@ =~= spec_two_digits(n as int));
    }
    r
}

/// Formats a byte count the way the worker logs sizes.
pub fn format_size(bytes: usize) -> (r: String)
    ensures
        r@ == spec_format_size(bytes as int),
{
    let b: u64 = bytes as u64;
    if b >= 0x10_0000 {
        let h = hundredths(b, 0x10_0000);
        let mut r = u64_to_dec(h / 100);
        r.append(".");
        let frac = two_digits(h % 100);
        r.append(frac.as_str());
        r.append("MiB");
        r
    } else if b >= 0x400 {
        let h = hundredths(b, 0x400);
        let mut r = u64_to_dec(h / 100);
        r.append(".");
        let frac = two_digits(h % 100);
        r.append(frac.as_str());
        r.append("kb");
        r
    } else {
        let mut r = u64_to_dec(b);
        r.append("b");
        r
    }
}

fn hundredths(n: u64, d: u64) -> (r: u64)
    requires
        0x400 <= d <= 0x10_0000,
    ensures
        r == spec_hundredths(n as int, d as int),
{
    proof {
        assert((n as int) * 100 + (d as int) / 2 <= 0xFFFF_FFFF_FFFF_FFFF * 100 + 0x8_0000)
            by (nonlinear_arith)
            requires
                n <= 0xFFFF_FFFF_FFFF_FFFF,
                0 < d <= 0x10_0000,
        ;
    }
    let wide: u128 = (n as u128) * 100 + ((d / 2) as u128);
    let q: u128 = wide / (d as u128);
    proof {
        assert(wide <= 0xFFFF_FFFF_FFFF_FFFFu128 * 100 + 0x8_0000) by (nonlinear_arith)
            requires
                wide == (n as u128) * 100 + ((d / 2) as u128),
                n <= 0xFFFF_FFFF_FFFF_FFFFu128,
                d <= 0x10_0000,
        ;
        assert(q <= 0xFFFF_FFFF_FFFF_FFFFu128) by (nonlinear_arith)
            requires
                q == wide / (d as u128),
                wide <= 0xFFFF_FFFF_FFFF_FFFFu128 * 100 + 0x8_0000,
                d >= 0x400,
        ;
    }
    q as u64
}

} // verus!
