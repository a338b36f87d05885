//! The reconciler's retention purge: projects soft-deleted longer ago than
//! the retention window are hard-deleted — their objects are removed from
//! the store (best-effort at the edge, unconditional in the model), and the
//! project, file and job rows are removed by cascade.  Live projects and
//! their data are never touched.

use vstd::prelude::*;

use crate::catalog::{distinct_project_ids, is_live, Catalog, FileRecord, ProjectRecord};
use crate::jobs::{JobRecord, JobStore};
use crate::keys::{resolve_key, resolve_key_spec, str_eq};
use crate::store::{distinct_keys, value_of, ObjectStore};

verus! {

/// Retention window before a soft-deleted project is hard-deleted.
pub const RETENTION_SECONDS: i64 = 2592000;

/// Interval at which the purge runs.
pub const PURGE_INTERVAL_SECONDS: i64 = 86400;

/// A project soft-deleted longer ago than the retention window.
pub open spec fn is_expired(p: ProjectRecord, now: int) -> bool {
    p.deleted_at matches Some(t) && (t as int) < now - RETENTION_SECONDS
}

/// The projects a purge leaves in place, in table order.
pub open spec fn surviving_projects(s: Seq<ProjectRecord>, now: int) -> Seq<ProjectRecord>
    decreases s.len(),
{
    if s.len() == 0 {
        Seq::empty()
    } else if is_expired(s.last(), now) {
        surviving_projects(s.drop_last(), now)
    } else {
        surviving_projects(s.drop_last(), now).push(s.last())
    }
}

/// Some project with this identifier is expired.
pub open spec fn project_doomed(s: Seq<ProjectRecord>, pid: Seq<char>, now: int) -> bool {
    exists|i: int| 0 <= i < s.len() && s[i].id@ == pid && is_expired(#[trigger] s[i], now)
}

/// The files a purge leaves in place: those whose project is not doomed.
pub open spec fn keep_files(
    files: Seq<FileRecord>,
    projects: Seq<ProjectRecord>,
    now: int,
) -> Seq<FileRecord>
    decreases files.len(),
{
    if files.len() == 0 {
        Seq::empty()
    } else if project_doomed(projects, files.last().project_id@, now) {
        keep_files(files.drop_last(), projects, now)
    } else {
        keep_files(files.drop_last(), projects, now).push(files.last())
    }
}

/// Some file with this identifier belongs to a doomed project.
pub open spec fn file_doomed(
    files: Seq<FileRecord>,
    projects: Seq<ProjectRecord>,
    fid: Seq<char>,
    now: int,
) -> bool {
    exists|i: int|
        0 <= i < files.len() && files[i].id@ == fid && project_doomed(
            projects,
            (#[trigger] files[i]).project_id@,
            now,
        )
}

/// The jobs a purge leaves in place: those whose file is not doomed.
pub open spec fn keep_jobs(
    jobs: Seq<JobRecord>,
    files: Seq<FileRecord>,
    projects: Seq<ProjectRecord>,
    now: int,
) -> Seq<JobRecord>
    decreases jobs.len(),
{
    if jobs.len() == 0 {
        Seq::empty()
    } else if file_doomed(files, projects, jobs.last().file_id@, now) {
        keep_jobs(jobs.drop_last(), files, projects, now)
    } else {
        keep_jobs(jobs.drop_last(), files, projects, now).push(jobs.last())
    }
}

/// The object keys one file accounts for: its original key and every
/// variant value that resolves to a key.
pub open spec fn file_keys(f: FileRecord, bucket: Seq<char>) -> Seq<Seq<char>> {
    seq![f.s3_key@] + resolved_variant_keys(f.variants@, bucket)
}

pub open spec fn resolved_variant_keys(v: Seq<(String, String)>, bucket: Seq<char>) -> Seq<
    Seq<char>,
>
    decreases v.len(),
{
    if v.len() == 0 {
        Seq::empty()
    } else {
        resolved_variant_keys(v.drop_last(), bucket) + (match resolve_key_spec(
            v.last().1@,
            bucket,
        ) {
            Some(k) => seq![k],
            None => Seq::empty(),
        })
    }
}

/// A key deleted by the purge: a key of some file of a doomed project.
pub open spec fn doomed_key(
    k: Seq<char>,
    files: Seq<FileRecord>,
    projects: Seq<ProjectRecord>,
    now: int,
    bucket: Seq<char>,
) -> bool {
    exists|i: int|
        0 <= i < files.len() && project_doomed(projects, (#[trigger] files[i]).project_id@, now)
            && file_keys(files[i], bucket).contains(k)
}

/// Whether some project with this identifier is expired, decided by a scan.
fn project_doomed_exec(projects: &Vec<ProjectRecord>, pid: &str, now: i64) -> (r: bool)
    ensures
        r == project_doomed(projects@, pid@, now as int),
{
    let n = projects.len();
    let mut i: usize = 0;
    while i < n
        invariant
            n == projects@.len(),
            i <= n,
            forall|j: int|
                0 <= j < i ==> !(projects@[j].id@ == pid@ && is_expired(
                    #[trigger] projects@[j],
                    now as int,
                )),
        decreases n - i,
    {
        let p = &projects[i];
        let expired = match p.deleted_at {
            Some(t) => (t as i128) < (now as i128) - (RETENTION_SECONDS as i128),
            None => false,
        };
        if expired && str_eq(p.id.as_str(), pid) {
            return true;
        }
        i = i + 1;
    }
    proof {
        if project_doomed(projects@, pid@, now as int) {
            let j = choose|j: int|
                0 <= j < projects@.len() && projects@[j].id@ == pid@ && is_expired(
                    #[trigger] projects@[j],
                    now as int,
                );
            assert(false);
        }
    }
    false
}

/// Runs one retention purge over the modelled state.  Exactly the expired
/// projects disappear, with their files and those files' jobs; exactly the
/// keys of their files' originals and resolvable variant values are removed
/// from the store.
pub fn purge_retention(
    catalog: &mut Catalog,
    jobs: &mut JobStore,
    store: &mut ObjectStore,
    bucket: &str,
    now: i64,
)
    requires
        distinct_keys(old(store).objects@),
    ensures
        distinct_keys(final(store).objects@),
        final(store).bucket_exists == old(store).bucket_exists,
        final(store).public_read_policy == old(store).public_read_policy,
        final(catalog).projects@ == surviving_projects(old(catalog).projects@, now as int),
        final(catalog).files@ == keep_files(
            old(catalog).files@,
            old(catalog).projects@,
            now as int,
        ),
        final(jobs).jobs@ == keep_jobs(
            old(jobs).jobs@,
            old(catalog).files@,
            old(catalog).projects@,
            now as int,
        ),
        forall|k: Seq<char>|
            value_of(final(store).objects@, k) == (if doomed_key(
                k,
                old(catalog).files@,
                old(catalog).projects@,
                now as int,
                bucket@,
            ) {
                None
            } else {
                value_of(old(store).objects@, k)
            }),
{
    delete_doomed_objects(catalog, store, bucket, now);
    purge_job_rows(catalog, jobs, now);
    purge_file_rows(catalog, now);
    purge_project_rows(catalog, now);
}

/// Deletes from the store every key accounted for by a file of a doomed
/// project.
fn delete_doomed_objects(catalog: &Catalog, store: &mut ObjectStore, bucket: &str, now: i64)
    requires
        distinct_keys(old(store).objects@),
    ensures
        distinct_keys(final(store).objects@),
        final(store).bucket_exists == old(store).bucket_exists,
        final(store).public_read_policy == old(store).public_read_policy,
        forall|k: Seq<char>|
            value_of(final(store).objects@, k) == (if doomed_key(
                k,
                catalog.files@,
                catalog.projects@,
                now as int,
                bucket@,
            ) {
                None
            } else {
                value_of(old(store).objects@, k)
            }),
{
    let n = catalog.file_count();
    let mut i: usize = 0;
    while i < n
        invariant
            distinct_keys(store.objects@),
            store.bucket_exists == old(store).bucket_exists,
            store.public_read_policy == old(store).public_read_policy,
            n == catalog.files@.len(),
            i <= n,
            forall|k: Seq<char>|
                value_of(store.objects@, k) == (if doomed_key(
                    k,
                    catalog.files@.subrange(0, i as int),
                    catalog.projects@,
                    now as int,
                    bucket@,
                ) {
                    None
                } else {
                    value_of(old(store).objects@, k)
                }),
        decreases n - i,
    {
        let ghost prefix = catalog.files@.subrange(0, i as int);
        let ghost prefix1 = catalog.files@.subrange(0, i + 1);
        proof {
            assert(prefix1.drop_last() =~= prefix);
            assert(prefix1.last() == catalog.files@[i as int]);
        }
        let f = catalog.get_file(i);
        let doomed = project_doomed_exec(&catalog.projects, f.project_id.as_str(), now);
        if doomed {
            store.delete(f.s3_key.as_str());
            proof {
                lemma_doomed_key_extend(
                    catalog.files@,
                    catalog.projects@,
                    i as int,
                    now as int,
                    bucket@,
                );
            }
            let vn = f.variants.len();
            let mut j: usize = 0;
            while j < vn
                invariant
                    distinct_keys(store.objects@),
                    store.bucket_exists == old(store).bucket_exists,
                    store.public_read_policy == old(store).public_read_policy,
                    n == catalog.files@.len(),
                    i < n,
                    vn == catalog.files@[i as int].variants@.len(),
                    j <= vn,
                    project_doomed(
                        catalog.projects@,
                        catalog.files@[i as int].project_id@,
                        now as int,
                    ),
                    forall|k: Seq<char>|
                        value_of(store.objects@, k) == (if doomed_key(
                            k,
                            catalog.files@.subrange(0, i as int),
                            catalog.projects@,
                            now as int,
                            bucket@,
                        ) || k == catalog.files@[i as int].s3_key@ || resolved_variant_keys(
                            catalog.files@[i as int].variants@.subrange(0, j as int),
                            bucket@,
                        ).contains(k) {
                            None
                        } else {
                            value_of(old(store).objects@, k)
                        }),
                decreases vn - j,
            {
                let ghost vprefix = catalog.files@[i as int].variants@.subrange(0, j as int);
                let ghost vprefix1 = catalog.files@[i as int].variants@.subrange(0, j + 1);
                proof {
                    assert(vprefix1.drop_last() =~= vprefix);
                    assert(vprefix1.last() == catalog.files@[i as int].variants@[j as int]);
                }
                let value = &catalog.get_file(i).variants[j].1;
                match resolve_key(value.as_str(), bucket) {
                    Some(key) => {
                        store.delete(key.as_str());
                        proof {
                            lemma_resolved_contains(vprefix1, bucket@, key@);
                        }
                    },
                    None => {
                        proof {
                            assert(resolved_variant_keys(vprefix1, bucket@) =~= resolved_variant_keys(
                                vprefix,
                                bucket@,
                            ));
                        }
                    },
                }
                j = j + 1;
            }
            proof {
                assert(catalog.files@[i as int].variants@.subrange(
                    0,
                    catalog.files@[i as int].variants@.len() as int,
                ) =~= catalog.files@[i as int].variants@);
                lemma_file_keys_cover(catalog.files@[i as int], bucket@);
            }
        } else {
            proof {
                lemma_doomed_key_skip(
                    catalog.files@,
                    catalog.projects@,
                    i as int,
                    now as int,
                    bucket@,
                );
            }
        }
        i = i + 1;
    }
    proof {
        assert(catalog.files@.subrange(0, n as int) =~= catalog.files@);
    }
}

/// Extending the file prefix by a doomed file adds exactly that file's keys
/// to the doomed set.
proof fn lemma_doomed_key_extend(
    files: Seq<FileRecord>,
    projects: Seq<ProjectRecord>,
    i: int,
    now: int,
    bucket: Seq<char>,
)
    requires
        0 <= i < files.len(),
        project_doomed(projects, files[i].project_id@, now),
    ensures
        forall|k: Seq<char>|
            doomed_key(k, files.subrange(0, i + 1), projects, now, bucket) == (doomed_key(
                k,
                files.subrange(0, i),
                projects,
                now,
                bucket,
            ) || file_keys(files[i], bucket).contains(k)),
{
    let p = files.subrange(0, i);
    let p1 = files.subrange(0, i + 1);
    assert forall|k: Seq<char>|
        doomed_key(k, p1, projects, now, bucket) == (doomed_key(k, p, projects, now, bucket)
            || file_keys(files[i], bucket).contains(k)) by {
        if doomed_key(k, p1, projects, now, bucket) {
            let w = choose|w: int|
                0 <= w < p1.len() && project_doomed(projects, (#[trigger] p1[w]).project_id@, now)
                    && file_keys(p1[w], bucket).contains(k);
            if w < i {
                assert(p[w] == p1[w]);
                assert(doomed_key(k, p, projects, now, bucket));
            } else {
                assert(p1[w] == files[i]);
            }
        }
        if doomed_key(k, p, projects, now, bucket) {
            let w = choose|w: int|
                0 <= w < p.len() && project_doomed(projects, (#[trigger] p[w]).project_id@, now)
                    && file_keys(p[w], bucket).contains(k);
            assert(p1[w] == p[w]);
            assert(doomed_key(k, p1, projects, now, bucket));
        }
        if file_keys(files[i], bucket).contains(k) && project_doomed(
            projects,
            files[i].project_id@,
            now,
        ) {
            assert(p1[i] == files[i]);
            assert(doomed_key(k, p1, projects, now, bucket));
        }
    }
}

/// Extending the file prefix by a file of a live project leaves the doomed
/// set unchanged.
proof fn lemma_doomed_key_skip(
    files: Seq<FileRecord>,
    projects: Seq<ProjectRecord>,
    i: int,
    now: int,
    bucket: Seq<char>,
)
    requires
        0 <= i < files.len(),
        !project_doomed(projects, files[i].project_id@, now),
    ensures
        forall|k: Seq<char>|
            doomed_key(k, files.subrange(0, i + 1), projects, now, bucket) == doomed_key(
                k,
                files.subrange(0, i),
                projects,
                now,
                bucket,
            ),
{
    let p = files.subrange(0, i);
    let p1 = files.subrange(0, i + 1);
    assert forall|k: Seq<char>|
        doomed_key(k, p1, projects, now, bucket) == doomed_key(k, p, projects, now, bucket) by {
        if doomed_key(k, p1, projects, now, bucket) {
            let w = choose|w: int|
                0 <= w < p1.len() && project_doomed(projects, (#[trigger] p1[w]).project_id@, now)
                    && file_keys(p1[w], bucket).contains(k);
            if w < i {
                assert(p[w] == p1[w]);
            } else {
                assert(p1[w] == files[i]);
                assert(false);
            }
        }
        if doomed_key(k, p, projects, now, bucket) {
            let w = choose|w: int|
                0 <= w < p.len() && project_doomed(projects, (#[trigger] p[w]).project_id@, now)
                    && file_keys(p[w], bucket).contains(k);
            assert(p1[w] == p[w]);
        }
    }
}

/// A resolved variant key is a member of the extended resolved-key list.
proof fn lemma_resolved_contains(v: Seq<(String, String)>, bucket: Seq<char>, k: Seq<char>)
    requires
        v.len() > 0,
        resolve_key_spec(v.last().1@, bucket) == Some(k),
    ensures
        forall|x: Seq<char>|
            resolved_variant_keys(v, bucket).contains(x) == (resolved_variant_keys(
                v.drop_last(),
                bucket,
            ).contains(x) || x == k),
{
    let r = resolved_variant_keys(v, bucket);
    let r0 = resolved_variant_keys(v.drop_last(), bucket);
    assert(r =~= r0 + seq![k]);
    assert forall|x: Seq<char>| r.contains(x) == (r0.contains(x) || x == k) by {
        if r.contains(x) {
            let w = choose|w: int| 0 <= w < r.len() && r[w] == x;
            if w < r0.len() {
                assert(r0[w] == x);
            }
        }
        if r0.contains(x) {
            let w = choose|w: int| 0 <= w < r0.len() && r0[w] == x;
            assert(r[w] == x);
        }
        if x == k {
            assert(r[r.len() - 1] == x);
        }
    }
}

/// A file's key set is its original key plus its resolved variant keys.
proof fn lemma_file_keys_cover(f: FileRecord, bucket: Seq<char>)
    ensures
        forall|k: Seq<char>|
            file_keys(f, bucket).contains(k) == (k == f.s3_key@ || resolved_variant_keys(
                f.variants@,
                bucket,
            ).contains(k)),
{
    let fk = file_keys(f, bucket);
    let rv = resolved_variant_keys(f.variants@, bucket);
    assert forall|k: Seq<char>| fk.contains(k) == (k == f.s3_key@ || rv.contains(k)) by {
        if fk.contains(k) {
            let w = choose|w: int| 0 <= w < fk.len() && fk[w] == k;
            if w == 0 {
                assert(fk[0] == f.s3_key@);
            } else {
                assert(fk[w] == rv[w - 1]);
                assert(rv.contains(k));
            }
        }
        if k == f.s3_key@ {
            assert(fk[0] == k);
        }
        if rv.contains(k) {
            let w = choose|w: int| 0 <= w < rv.len() && rv[w] == k;
            assert(fk[w + 1] == k);
        }
    }
}

/// Removes every job whose file belongs to a doomed project.
fn purge_job_rows(catalog: &Catalog, jobs: &mut JobStore, now: i64)
    ensures
        final(jobs).jobs@ == keep_jobs(
            old(jobs).jobs@,
            catalog.files@,
            catalog.projects@,
            now as int,
        ),
{
    let ghost orig = jobs.jobs@;
    let mut src: Vec<JobRecord> = Vec::new();
    core::mem::swap(&mut jobs.jobs, &mut src);
    let mut kept: Vec<JobRecord> = Vec::new();
    let ghost m: int = 0;
    let mut done: usize = 0;
    let total = src.len();
    while src.len() > 0
        invariant
            total == orig.len(),
            done <= total,
            src@ == orig.subrange(done as int, orig.len() as int),
            kept@ == keep_jobs(
                orig.subrange(0, done as int),
                catalog.files@,
                catalog.projects@,
                now as int,
            ),
        decreases src@.len(),
    {
        let ghost p1 = orig.subrange(0, done + 1);
        proof {
            assert(p1.drop_last() =~= orig.subrange(0, done as int));
            assert(p1.last() == orig[done as int]);
        }
        let j = src.remove(0);
        proof {
            assert(src@ =~= orig.subrange(done + 1, orig.len() as int));
        }
        let doomed = file_doomed_exec(catalog, j.file_id.as_str(), now);
        if !doomed {
            kept.push(j);
        }
        done = done + 1;
    }
    proof {
        assert(orig.subrange(0, done as int) =~= orig);
    }
    jobs.jobs = kept;
}

/// Whether the file with this identifier belongs to a doomed project.
fn file_doomed_exec(catalog: &Catalog, fid: &str, now: i64) -> (r: bool)
    ensures
        r == file_doomed(catalog.files@, catalog.projects@, fid@, now as int),
{
    let n = catalog.file_count();
    let mut i: usize = 0;
    while i < n
        invariant
            n == catalog.files@.len(),
            i <= n,
            forall|j: int|
                0 <= j < i ==> !(catalog.files@[j].id@ == fid@ && project_doomed(
                    catalog.projects@,
                    (#[trigger] catalog.files@[j]).project_id@,
                    now as int,
                )),
        decreases n - i,
    {
        let f = catalog.get_file(i);
        if str_eq(f.id.as_str(), fid) {
            if project_doomed_exec(&catalog.projects, f.project_id.as_str(), now) {
                return true;
            }
        }
        i = i + 1;
    }
    proof {
        if file_doomed(catalog.files@, catalog.projects@, fid@, now as int) {
            let w = choose|w: int|
                0 <= w < catalog.files@.len() && catalog.files@[w].id@ == fid@ && project_doomed(
                    catalog.projects@,
                    (#[trigger] catalog.files@[w]).project_id@,
                    now as int,
                );
            assert(false);
        }
    }
    false
}

/// Removes every file of a doomed project.
fn purge_file_rows(catalog: &mut Catalog, now: i64)
    ensures
        final(catalog).files@ == keep_files(
            old(catalog).files@,
            old(catalog).projects@,
            now as int,
        ),
        final(catalog).projects == old(catalog).projects,
{
    let ghost orig = catalog.files@;
    let mut src: Vec<FileRecord> = Vec::new();
    core::mem::swap(&mut catalog.files, &mut src);
    let mut kept: Vec<FileRecord> = Vec::new();
    let mut done: usize = 0;
    let total = src.len();
    while src.len() > 0
        invariant
            total == orig.len(),
            done <= total,
            catalog.projects == old(catalog).projects,
            src@ == orig.subrange(done as int, orig.len() as int),
            kept@ == keep_files(
                orig.subrange(0, done as int),
                old(catalog).projects@,
                now as int,
            ),
        decreases src@.len(),
    {
        let ghost p1 = orig.subrange(0, done + 1);
        proof {
            assert(p1.drop_last() =~= orig.subrange(0, done as int));
            assert(p1.last() == orig[done as int]);
        }
        let f = src.remove(0);
        proof {
            assert(src@ =~= orig.subrange(done + 1, orig.len() as int));
        }
        let doomed = project_doomed_exec(&catalog.projects, f.project_id.as_str(), now);
        if !doomed {
            kept.push(f);
        }
        done = done + 1;
    }
    proof {
        assert(orig.subrange(0, done as int) =~= orig);
    }
    catalog.files = kept;
}

/// Removes every expired project row.
fn purge_project_rows(catalog: &mut Catalog, now: i64)
    ensures
        final(catalog).projects@ == surviving_projects(old(catalog).projects@, now as int),
        final(catalog).files == old(catalog).files,
{
    let ghost orig = catalog.projects@;
    let mut src: Vec<ProjectRecord> = Vec::new();
    core::mem::swap(&mut catalog.projects, &mut src);
    let mut kept: Vec<ProjectRecord> = Vec::new();
    let mut done: usize = 0;
    let total = src.len();
    while src.len() > 0
        invariant
            total == orig.len(),
            done <= total,
            catalog.files == old(catalog).files,
            src@ == orig.subrange(done as int, orig.len() as int),
            kept@ == surviving_projects(orig.subrange(0, done as int), now as int),
        decreases src@.len(),
    {
        let ghost p1 = orig.subrange(0, done + 1);
        proof {
            assert(p1.drop_last() =~= orig.subrange(0, done as int));
            assert(p1.last() == orig[done as int]);
        }
        let p = src.remove(0);
        proof {
            assert(src@ =~= orig.subrange(done + 1, orig.len() as int));
        }
        let expired = match p.deleted_at {
            Some(t) => (t as i128) < (now as i128) - (RETENTION_SECONDS as i128),
            None => false,
        };
        if !expired {
            kept.push(p);
        }
        done = done + 1;
    }
    proof {
        assert(orig.subrange(0, done as int) =~= orig);
    }
    catalog.projects = kept;
}

/// The jobs that survive deleting one file: those of every other file.
pub open spec fn keep_jobs_not_of_file(jobs: Seq<JobRecord>, fid: Seq<char>) -> Seq<JobRecord>
    decreases jobs.len(),
{
    if jobs.len() == 0 {
        Seq::empty()
    } else if jobs.last().file_id@ == fid {
        keep_jobs_not_of_file(jobs.drop_last(), fid)
    } else {
        keep_jobs_not_of_file(jobs.drop_last(), fid).push(jobs.last())
    }
}

/// Deletes one file: best-effort removal of its original object and every
/// resolvable variant object, then the file row; its job rows go with it,
/// as the database cascade removes them.
pub fn delete_file_cascade(
    catalog: &mut Catalog,
    jobs: &mut JobStore,
    store: &mut ObjectStore,
    fi: usize,
    bucket: &str,
)
    requires
        fi < old(catalog).files@.len(),
        distinct_keys(old(store).objects@),
    ensures
        distinct_keys(final(store).objects@),
        final(store).bucket_exists == old(store).bucket_exists,
        final(store).public_read_policy == old(store).public_read_policy,
        final(catalog).files@ == old(catalog).files@.remove(fi as int),
        final(catalog).projects == old(catalog).projects,
        final(jobs).jobs@ == keep_jobs_not_of_file(
            old(jobs).jobs@,
            old(catalog).files@[fi as int].id@,
        ),
        forall|k: Seq<char>|
            value_of(final(store).objects@, k) == (if file_keys(
                old(catalog).files@[fi as int],
                bucket@,
            ).contains(k) {
                None
            } else {
                value_of(old(store).objects@, k)
            }),
{
    let fid = catalog.get_file(fi).id.clone();
    delete_file_objects(catalog, store, fi, bucket);
    let ghost orig = jobs.jobs@;
    let mut src: Vec<JobRecord> = Vec::new();
    core::mem::swap(&mut jobs.jobs, &mut src);
    let mut kept: Vec<JobRecord> = Vec::new();
    let mut done: usize = 0;
    let total = src.len();
    while src.len() > 0
        invariant
            total == orig.len(),
            done <= total,
            fid@ == old(catalog).files@[fi as int].id@,
            fi < catalog.files@.len(),
            catalog.files@ == old(catalog).files@,
            src@ == orig.subrange(done as int, orig.len() as int),
            kept@ == keep_jobs_not_of_file(orig.subrange(0, done as int), fid@),
        decreases src@.len(),
    {
        let ghost p1 = orig.subrange(0, done + 1);
        proof {
            assert(p1.drop_last() =~= orig.subrange(0, done as int));
            assert(p1.last() == orig[done as int]);
        }
        let j = src.remove(0);
        proof {
            assert(src@ =~= orig.subrange(done + 1, orig.len() as int));
        }
        if !str_eq(j.file_id.as_str(), fid.as_str()) {
            kept.push(j);
        }
        done = done + 1;
    }
    proof {
        assert(orig.subrange(0, done as int) =~= orig);
    }
    jobs.jobs = kept;
    catalog.files.remove(fi);
}

/// Deletes one file's objects from the store.
fn delete_file_objects(catalog: &Catalog, store: &mut ObjectStore, fi: usize, bucket: &str)
    requires
        fi < catalog.files@.len(),
        distinct_keys(old(store).objects@),
    ensures
        distinct_keys(final(store).objects@),
        final(store).bucket_exists == old(store).bucket_exists,
        final(store).public_read_policy == old(store).public_read_policy,
        forall|k: Seq<char>|
            value_of(final(store).objects@, k) == (if file_keys(
                catalog.files@[fi as int],
                bucket@,
            ).contains(k) {
                None
            } else {
                value_of(old(store).objects@, k)
            }),
{
    let f = catalog.get_file(fi);
    store.delete(f.s3_key.as_str());
    let vn = f.variants.len();
    let mut j: usize = 0;
    while j < vn
        invariant
            distinct_keys(store.objects@),
            store.bucket_exists == old(store).bucket_exists,
            store.public_read_policy == old(store).public_read_policy,
            fi < catalog.files@.len(),
            vn == catalog.files@[fi as int].variants@.len(),
            j <= vn,
            forall|k: Seq<char>|
                value_of(store.objects@, k) == (if k == catalog.files@[fi as int].s3_key@
                    || resolved_variant_keys(
                    catalog.files@[fi as int].variants@.subrange(0, j as int),
                    bucket@,
                ).contains(k) {
                    None
                } else {
                    value_of(old(store).objects@, k)
                }),
        decreases vn - j,
    {
        let ghost vprefix = catalog.files@[fi as int].variants@.subrange(0, j as int);
        let ghost vprefix1 = catalog.files@[fi as int].variants@.subrange(0, j + 1);
        proof {
            assert(vprefix1.drop_last() =~= vprefix);
            assert(vprefix1.last() == catalog.files@[fi as int].variants@[j as int]);
        }
        let value = &catalog.get_file(fi).variants[j].1;
        match resolve_key(value.as_str(), bucket) {
            Some(key) => {
                store.delete(key.as_str());
                proof {
                    lemma_resolved_contains(vprefix1, bucket@, key@);
                }
            },
            None => {
                proof {
                    assert(resolved_variant_keys(vprefix1, bucket@) =~= resolved_variant_keys(
                        vprefix,
                        bucket@,
                    ));
                }
            },
        }
        j = j + 1;
    }
    proof {
        assert(catalog.files@[fi as int].variants@.subrange(
            0,
            catalog.files@[fi as int].variants@.len() as int,
        ) =~= catalog.files@[fi as int].variants@);
        lemma_file_keys_cover(catalog.files@[fi as int], bucket@);
    }
}

/// The files that survive deleting one project: those of every other
/// project.
pub open spec fn keep_files_not_of_project(files: Seq<FileRecord>, pid: Seq<char>) -> Seq<
    FileRecord,
>
    decreases files.len(),
{
    if files.len() == 0 {
        Seq::empty()
    } else if files.last().project_id@ == pid {
        keep_files_not_of_project(files.drop_last(), pid)
    } else {
        keep_files_not_of_project(files.drop_last(), pid).push(files.last())
    }
}

/// Some file with this identifier belongs to this project.
pub open spec fn file_of_project(files: Seq<FileRecord>, fid: Seq<char>, pid: Seq<char>) -> bool {
    exists|i: int|
        0 <= i < files.len() && files[i].id@ == fid && (#[trigger] files[i]).project_id@ == pid
}

/// The jobs that survive deleting one project: those whose file is not the
/// project's.
pub open spec fn keep_jobs_not_of_project(
    jobs: Seq<JobRecord>,
    files: Seq<FileRecord>,
    pid: Seq<char>,
) -> Seq<JobRecord>
    decreases jobs.len(),
{
    if jobs.len() == 0 {
        Seq::empty()
    } else if file_of_project(files, jobs.last().file_id@, pid) {
        keep_jobs_not_of_project(jobs.drop_last(), files, pid)
    } else {
        keep_jobs_not_of_project(jobs.drop_last(), files, pid).push(jobs.last())
    }
}

/// A key of some file of this project.
pub open spec fn project_key(
    k: Seq<char>,
    files: Seq<FileRecord>,
    pid: Seq<char>,
    bucket: Seq<char>,
) -> bool {
    exists|i: int|
        0 <= i < files.len() && (#[trigger] files[i]).project_id@ == pid && file_keys(
            files[i],
            bucket,
        ).contains(k)
}

/// The inline hard delete of one project, as the permanent-deletion
/// endpoint performs it: best-effort deletion of every object of the
/// project's files, then the project row, with file and job rows removed by
/// cascade.
pub fn hard_delete_project_cascade(
    catalog: &mut Catalog,
    jobs: &mut JobStore,
    store: &mut ObjectStore,
    pi: usize,
    bucket: &str,
)
    requires
        pi < old(catalog).projects@.len(),
        distinct_keys(old(store).objects@),
    ensures
        distinct_keys(final(store).objects@),
        final(store).bucket_exists == old(store).bucket_exists,
        final(store).public_read_policy == old(store).public_read_policy,
        final(catalog).projects@ == old(catalog).projects@.remove(pi as int),
        final(catalog).files@ == keep_files_not_of_project(
            old(catalog).files@,
            old(catalog).projects@[pi as int].id@,
        ),
        final(jobs).jobs@ == keep_jobs_not_of_project(
            old(jobs).jobs@,
            old(catalog).files@,
            old(catalog).projects@[pi as int].id@,
        ),
        forall|k: Seq<char>|
            value_of(final(store).objects@, k) == (if project_key(
                k,
                old(catalog).files@,
                old(catalog).projects@[pi as int].id@,
                bucket@,
            ) {
                None
            } else {
                value_of(old(store).objects@, k)
            }),
{
    let pid = catalog.get_project(pi).id.clone();
    delete_project_objects(catalog, store, pid.as_str(), bucket);
    remove_project_jobs(catalog, jobs, pid.as_str());
    remove_project_files(catalog, pid.as_str());
    catalog.projects.remove(pi);
}

/// Deletes every object of the project's files.
fn delete_project_objects(catalog: &Catalog, store: &mut ObjectStore, pid: &str, bucket: &str)
    requires
        distinct_keys(old(store).objects@),
    ensures
        distinct_keys(final(store).objects@),
        final(store).bucket_exists == old(store).bucket_exists,
        final(store).public_read_policy == old(store).public_read_policy,
        forall|k: Seq<char>|
            value_of(final(store).objects@, k) == (if project_key(k, catalog.files@, pid@, bucket@) {
                None
            } else {
                value_of(old(store).objects@, k)
            }),
{
    let n = catalog.file_count();
    let mut i: usize = 0;
    while i < n
        invariant
            distinct_keys(store.objects@),
            store.bucket_exists == old(store).bucket_exists,
            store.public_read_policy == old(store).public_read_policy,
            n == catalog.files@.len(),
            i <= n,
            forall|k: Seq<char>|
                value_of(store.objects@, k) == (if project_key(
                    k,
                    catalog.files@.subrange(0, i as int),
                    pid@,
                    bucket@,
                ) {
                    None
                } else {
                    value_of(old(store).objects@, k)
                }),
        decreases n - i,
    {
        let ghost prefix = catalog.files@.subrange(0, i as int);
        let ghost prefix1 = catalog.files@.subrange(0, i + 1);
        proof {
            assert(prefix1.drop_last() =~= prefix);
            assert(prefix1.last() == catalog.files@[i as int]);
        }
        let belongs = str_eq(catalog.get_file(i).project_id.as_str(), pid);
        if belongs {
            let ghost pre = store.objects@;
            delete_file_objects(catalog, store, i, bucket);
            proof {
                lemma_project_key_extend(catalog.files@, pid@, i as int, bucket@);
                assert forall|k: Seq<char>|
                    value_of(store.objects@, k) == (if project_key(k, prefix1, pid@, bucket@) {
                        None
                    } else {
                        value_of(old(store).objects@, k)
                    }) by {
                    if file_keys(catalog.files@[i as int], bucket@).contains(k) {
                        assert(value_of(store.objects@, k) is None);
                    } else {
                        assert(value_of(store.objects@, k) == value_of(pre, k));
                    }
                }
            }
        } else {
            proof {
                lemma_project_key_skip(catalog.files@, pid@, i as int, bucket@);
            }
        }
        i = i + 1;
    }
    proof {
        assert(catalog.files@.subrange(0, n as int) =~= catalog.files@);
    }
}

/// Extending the file prefix by a file of the project adds exactly its keys.
proof fn lemma_project_key_extend(files: Seq<FileRecord>, pid: Seq<char>, i: int, bucket: Seq<char>)
    requires
        0 <= i < files.len(),
        files[i].project_id@ == pid,
    ensures
        forall|k: Seq<char>|
            project_key(k, files.subrange(0, i + 1), pid, bucket) == (project_key(
                k,
                files.subrange(0, i),
                pid,
                bucket,
            ) || file_keys(files[i], bucket).contains(k)),
{
    let p = files.subrange(0, i);
    let p1 = files.subrange(0, i + 1);
    assert forall|k: Seq<char>|
        project_key(k, p1, pid, bucket) == (project_key(k, p, pid, bucket) || file_keys(
            files[i],
            bucket,
        ).contains(k)) by {
        if project_key(k, p1, pid, bucket) {
            let w = choose|w: int|
                0 <= w < p1.len() && (#[trigger] p1[w]).project_id@ == pid && file_keys(
                    p1[w],
                    bucket,
                ).contains(k);
            if w < i {
                assert(p[w] == p1[w]);
            } else {
                assert(p1[w] == files[i]);
            }
        }
        if project_key(k, p, pid, bucket) {
            let w = choose|w: int|
                0 <= w < p.len() && (#[trigger] p[w]).project_id@ == pid && file_keys(
                    p[w],
                    bucket,
                ).contains(k);
            assert(p1[w] == p[w]);
        }
        if file_keys(files[i], bucket).contains(k) {
            assert(p1[i] == files[i]);
        }
    }
}

/// Extending the file prefix by another project's file changes nothing.
proof fn lemma_project_key_skip(files: Seq<FileRecord>, pid: Seq<char>, i: int, bucket: Seq<char>)
    requires
        0 <= i < files.len(),
        files[i].project_id@ != pid,
    ensures
        forall|k: Seq<char>|
            project_key(k, files.subrange(0, i + 1), pid, bucket) == project_key(
                k,
                files.subrange(0, i),
                pid,
                bucket,
            ),
{
    let p = files.subrange(0, i);
    let p1 = files.subrange(0, i + 1);
    assert forall|k: Seq<char>|
        project_key(k, p1, pid, bucket) == project_key(k, p, pid, bucket) by {
        if project_key(k, p1, pid, bucket) {
            let w = choose|w: int|
                0 <= w < p1.len() && (#[trigger] p1[w]).project_id@ == pid && file_keys(
                    p1[w],
                    bucket,
                ).contains(k);
            if w < i {
                assert(p[w] == p1[w]);
            } else {
                assert(p1[w] == files[i]);
                assert(false);
            }
        }
        if project_key(k, p, pid, bucket) {
            let w = choose|w: int|
                0 <= w < p.len() && (#[trigger] p[w]).project_id@ == pid && file_keys(
                    p[w],
                    bucket,
                ).contains(k);
            assert(p1[w] == p[w]);
        }
    }
}

/// Removes every job whose file belongs to the project.
fn remove_project_jobs(catalog: &Catalog, jobs: &mut JobStore, pid: &str)
    ensures
        final(jobs).jobs@ == keep_jobs_not_of_project(old(jobs).jobs@, catalog.files@, pid@),
{
    let ghost orig = jobs.jobs@;
    let mut src: Vec<JobRecord> = Vec::new();
    core::mem::swap(&mut jobs.jobs, &mut src);
    let mut kept: Vec<JobRecord> = Vec::new();
    let mut done: usize = 0;
    let total = src.len();
    while src.len() > 0
        invariant
            total == orig.len(),
            done <= total,
            src@ == orig.subrange(done as int, orig.len() as int),
            kept@ == keep_jobs_not_of_project(orig.subrange(0, done as int), catalog.files@, pid@),
        decreases src@.len(),
    {
        let ghost p1 = orig.subrange(0, done + 1);
        proof {
            assert(p1.drop_last() =~= orig.subrange(0, done as int));
            assert(p1.last() == orig[done as int]);
        }
        let j = src.remove(0);
        proof {
            assert(src@ =~= orig.subrange(done + 1, orig.len() as int));
        }
        if !file_of_project_exec(catalog, j.file_id.as_str(), pid) {
            kept.push(j);
        }
        done = done + 1;
    }
    proof {
        assert(orig.subrange(0, done as int) =~= orig);
    }
    jobs.jobs = kept;
}

/// Whether the file with this identifier belongs to the project.
pub(crate) fn file_of_project_exec(catalog: &Catalog, fid: &str, pid: &str) -> (r: bool)
    ensures
        r == file_of_project(catalog.files@, fid@, pid@),
{
    let n = catalog.file_count();
    let mut i: usize = 0;
    while i < n
        invariant
            n == catalog.files@.len(),
            i <= n,
            forall|j: int|
                0 <= j < i ==> !(catalog.files@[j].id@ == fid@ && (#[trigger] catalog.files@[j]).project_id@
                    == pid@),
        decreases n - i,
    {
        let f = catalog.get_file(i);
        if str_eq(f.id.as_str(), fid) && str_eq(f.project_id.as_str(), pid) {
            return true;
        }
        i = i + 1;
    }
    proof {
        if file_of_project(catalog.files@, fid@, pid@) {
            let w = choose|w: int|
                0 <= w < catalog.files@.len() && catalog.files@[w].id@ == fid@ && (
                #[trigger] catalog.files@[w]).project_id@ == pid@;
            assert(false);
        }
    }
    false
}

/// Removes every file of the project.
fn remove_project_files(catalog: &mut Catalog, pid: &str)
    ensures
        final(catalog).files@ == keep_files_not_of_project(old(catalog).files@, pid@),
        final(catalog).projects == old(catalog).projects,
{
    let ghost orig = catalog.files@;
    let mut src: Vec<FileRecord> = Vec::new();
    core::mem::swap(&mut catalog.files, &mut src);
    let mut kept: Vec<FileRecord> = Vec::new();
    let mut done: usize = 0;
    let total = src.len();
    while src.len() > 0
        invariant
            total == orig.len(),
            done <= total,
            catalog.projects == old(catalog).projects,
            src@ == orig.subrange(done as int, orig.len() as int),
            kept@ == keep_files_not_of_project(orig.subrange(0, done as int), pid@),
        decreases src@.len(),
    {
        let ghost p1 = orig.subrange(0, done + 1);
        proof {
            assert(p1.drop_last() =~= orig.subrange(0, done as int));
            assert(p1.last() == orig[done as int]);
        }
        let f = src.remove(0);
        proof {
            assert(src@ =~= orig.subrange(done + 1, orig.len() as int));
        }
        if !str_eq(f.project_id.as_str(), pid) {
            kept.push(f);
        }
        done = done + 1;
    }
    proof {
        assert(orig.subrange(0, done as int) =~= orig);
    }
    catalog.files = kept;
}

/// No surviving project is expired.
pub proof fn lemma_surviving_no_expired(s: Seq<ProjectRecord>, now: int)
    ensures
        forall|j: int|
            0 <= j < surviving_projects(s, now).len() ==> !is_expired(
                #[trigger] surviving_projects(s, now)[j],
                now,
            ),
    decreases s.len(),
{
    if s.len() > 0 {
        lemma_surviving_no_expired(s.drop_last(), now);
        let r = surviving_projects(s, now);
        let r0 = surviving_projects(s.drop_last(), now);
        assert forall|j: int| 0 <= j < r.len() implies !is_expired(#[trigger] r[j], now) by {
            if is_expired(s.last(), now) {
                assert(r[j] == r0[j]);
            } else {
                if j < r0.len() {
                    assert(r[j] == r0[j]);
                } else {
                    assert(r[j] == s.last());
                }
            }
        }
    }
}

/// Every surviving project was a project before the purge.
pub proof fn lemma_surviving_membership(s: Seq<ProjectRecord>, now: int, j: int)
    requires
        0 <= j < surviving_projects(s, now).len(),
    ensures
        exists|i: int| 0 <= i < s.len() && s[i] == surviving_projects(s, now)[j],
    decreases s.len(),
{
    if s.len() > 0 {
        let r = surviving_projects(s, now);
        let r0 = surviving_projects(s.drop_last(), now);
        if j < r0.len() {
            lemma_surviving_membership(s.drop_last(), now, j);
            let w = choose|w: int| 0 <= w < s.drop_last().len() && s.drop_last()[w] == r0[j];
            assert(s[w] == r[j]);
        } else {
            assert(s[s.len() - 1] == r[j]);
        }
    }
}

/// A live project survives the purge, and so do its files: the purge never
/// deletes the rows of a project whose `deleted_at` is absent.
pub proof fn lemma_purge_preserves_live(
    projects: Seq<ProjectRecord>,
    files: Seq<FileRecord>,
    now: int,
    pi: int,
)
    requires
        distinct_project_ids(projects),
        0 <= pi < projects.len(),
        is_live(projects[pi]),
    ensures
        exists|j: int|
            0 <= j < surviving_projects(projects, now).len() && surviving_projects(projects, now)[j]
                == projects[pi],
        !project_doomed(projects, projects[pi].id@, now),
        forall|fi: int|
            #![trigger files[fi]]
            0 <= fi < files.len() && files[fi].project_id@ == projects[pi].id@ ==> exists|j: int|
                0 <= j < keep_files(files, projects, now).len() && keep_files(files, projects, now)[j]
                    == files[fi],
    decreases projects.len(), files.len(),
{
    assert(!is_expired(projects[pi], now));
    if project_doomed(projects, projects[pi].id@, now) {
        let w = choose|w: int|
            0 <= w < projects.len() && projects[w].id@ == projects[pi].id@ && is_expired(
                #[trigger] projects[w],
                now,
            );
        if w != pi {
            if w < pi {
                assert(projects[w].id@ != projects[pi].id@);
            } else {
                assert(projects[pi].id@ != projects[w].id@);
            }
        }
        assert(false);
    }
    lemma_live_project_survives(projects, now, pi);
    assert forall|fi: int|
        #![trigger files[fi]]
        0 <= fi < files.len() && files[fi].project_id@ == projects[pi].id@ implies exists|j: int|
        0 <= j < keep_files(files, projects, now).len() && keep_files(files, projects, now)[j]
            == files[fi] by {
        lemma_live_file_survives(files, projects, now, fi);
    }
}

proof fn lemma_live_project_survives(projects: Seq<ProjectRecord>, now: int, pi: int)
    requires
        0 <= pi < projects.len(),
        !is_expired(projects[pi], now),
    ensures
        exists|j: int|
            0 <= j < surviving_projects(projects, now).len() && surviving_projects(projects, now)[j]
                == projects[pi],
    decreases projects.len(),
{
    let r = surviving_projects(projects, now);
    if pi == projects.len() - 1 {
        assert(r[r.len() - 1] == projects[pi]);
    } else {
        lemma_live_project_survives(projects.drop_last(), now, pi);
        let r0 = surviving_projects(projects.drop_last(), now);
        let w = choose|w: int| 0 <= w < r0.len() && r0[w] == projects.drop_last()[pi];
        assert(r0[w] == projects[pi]);
        if is_expired(projects.last(), now) {
            assert(r[w] == projects[pi]);
        } else {
            assert(r[w] == projects[pi]);
        }
    }
}

proof fn lemma_live_file_survives(
    files: Seq<FileRecord>,
    projects: Seq<ProjectRecord>,
    now: int,
    fi: int,
)
    requires
        0 <= fi < files.len(),
        !project_doomed(projects, files[fi].project_id@, now),
    ensures
        exists|j: int|
            0 <= j < keep_files(files, projects, now).len() && keep_files(files, projects, now)[j]
                == files[fi],
    decreases files.len(),
{
    let r = keep_files(files, projects, now);
    if fi == files.len() - 1 {
        assert(r[r.len() - 1] == files[fi]);
    } else {
        lemma_live_file_survives(files.drop_last(), projects, now, fi);
        let r0 = keep_files(files.drop_last(), projects, now);
        let w = choose|w: int| 0 <= w < r0.len() && r0[w] == files.drop_last()[fi];
        assert(r0[w] == files[fi]);
        if project_doomed(projects, files.last().project_id@, now) {
            assert(r[w] == files[fi]);
        } else {
            assert(r[w] == files[fi]);
        }
    }
}

/// Running the retention purge twice back-to-back has the same effect as
/// once: the second run finds nothing expired, removes no row, and deletes
/// no object.
pub proof fn lemma_purge_idempotent(
    projects: Seq<ProjectRecord>,
    files: Seq<FileRecord>,
    jobs: Seq<JobRecord>,
    now: int,
    bucket: Seq<char>,
)
    ensures
        surviving_projects(surviving_projects(projects, now), now) == surviving_projects(
            projects,
            now,
        ),
        keep_files(
            keep_files(files, projects, now),
            surviving_projects(projects, now),
            now,
        ) == keep_files(files, projects, now),
        keep_jobs(
            keep_jobs(jobs, files, projects, now),
            keep_files(files, projects, now),
            surviving_projects(projects, now),
            now,
        ) == keep_jobs(jobs, files, projects, now),
        forall|k: Seq<char>|
            !doomed_key(
                k,
                keep_files(files, projects, now),
                surviving_projects(projects, now),
                now,
                bucket,
            ),
{
    let sp = surviving_projects(projects, now);
    lemma_surviving_no_expired(projects, now);
    assert forall|pid: Seq<char>| !project_doomed(sp, pid, now) by {
        if project_doomed(sp, pid, now) {
            let w = choose|w: int|
                0 <= w < sp.len() && sp[w].id@ == pid && is_expired(#[trigger] sp[w], now);
            assert(false);
        }
    }
    lemma_surviving_identity(sp, now);
    lemma_keep_files_identity(keep_files(files, projects, now), sp, now);
    assert forall|fid: Seq<char>|
        !file_doomed(keep_files(files, projects, now), sp, fid, now) by {
        if file_doomed(keep_files(files, projects, now), sp, fid, now) {
            let w = choose|w: int|
                0 <= w < keep_files(files, projects, now).len() && keep_files(files, projects, now)[w].id@
                    == fid && project_doomed(
                    sp,
                    (#[trigger] keep_files(files, projects, now)[w]).project_id@,
                    now,
                );
            assert(false);
        }
    }
    lemma_keep_jobs_identity(keep_jobs(jobs, files, projects, now), keep_files(files, projects, now), sp, now);
    assert forall|k: Seq<char>|
        !doomed_key(k, keep_files(files, projects, now), sp, now, bucket) by {
        if doomed_key(k, keep_files(files, projects, now), sp, now, bucket) {
            let w = choose|w: int|
                0 <= w < keep_files(files, projects, now).len() && project_doomed(
                    sp,
                    (#[trigger] keep_files(files, projects, now)[w]).project_id@,
                    now,
                ) && file_keys(keep_files(files, projects, now)[w], bucket).contains(k);
            assert(false);
        }
    }
}

/// Filtering a sequence in which nothing is expired keeps everything.
proof fn lemma_surviving_identity(s: Seq<ProjectRecord>, now: int)
    requires
        forall|j: int| 0 <= j < s.len() ==> !is_expired(#[trigger] s[j], now),
    ensures
        surviving_projects(s, now) == s,
    decreases s.len(),
{
    if s.len() > 0 {
        assert(forall|j: int|
            0 <= j < s.drop_last().len() ==> !is_expired(#[trigger] s.drop_last()[j], now));
        lemma_surviving_identity(s.drop_last(), now);
        assert(surviving_projects(s, now) =~= s);
    } else {
        assert(surviving_projects(s, now) =~= s);
    }
}

/// Filtering files against projects none of which dooms anything keeps
/// everything.
proof fn lemma_keep_files_identity(files: Seq<FileRecord>, projects: Seq<ProjectRecord>, now: int)
    requires
        forall|pid: Seq<char>| !project_doomed(projects, pid, now),
    ensures
        keep_files(files, projects, now) == files,
    decreases files.len(),
{
    if files.len() > 0 {
        lemma_keep_files_identity(files.drop_last(), projects, now);
        assert(!project_doomed(projects, files.last().project_id@, now));
        assert(keep_files(files, projects, now) =~= files);
    } else {
        assert(keep_files(files, projects, now) =~= files);
    }
}

/// Filtering jobs when no file is doomed keeps everything.
proof fn lemma_keep_jobs_identity(
    jobs: Seq<JobRecord>,
    files: Seq<FileRecord>,
    projects: Seq<ProjectRecord>,
    now: int,
)
    requires
        forall|fid: Seq<char>| !file_doomed(files, projects, fid, now),
    ensures
        keep_jobs(jobs, files, projects, now) == jobs,
    decreases jobs.len(),
{
    if jobs.len() > 0 {
        lemma_keep_jobs_identity(jobs.drop_last(), files, projects, now);
        assert(!file_doomed(files, projects, jobs.last().file_id@, now));
        assert(keep_jobs(jobs, files, projects, now) =~= jobs);
    } else {
        assert(keep_jobs(jobs, files, projects, now) =~= jobs);
    }
}

} // verus!
