//! The entity model: projects and files as the relational store holds them.
//! A project is live while `deleted_at` is absent; a file belongs to its
//! project and carries the map from variant name to stored key or URL.

use vstd::prelude::*;
use vstd::string::StringExecFns;

use crate::keys::str_eq;
use crate::settings::ProjectSettings;

verus! {

/// Status of a file row.
#[derive(PartialEq, Eq, Structural, Clone, Copy, Debug)]
pub enum FileStatus {
    Uploaded,
    Processing,
    Ready,
    Error,
}

/// One project row: the tenancy boundary.
pub struct ProjectRecord {
    pub id: String,
    pub owner_id: String,
    pub name: String,
    pub description: Option<String>,
    pub settings: ProjectSettings,
    pub created_at: i64,
    pub updated_at: i64,
    pub deleted_at: Option<i64>,
}

/// One file row: an original asset and its derived variants.
pub struct FileRecord {
    pub id: String,
    pub project_id: String,
    pub s3_key: String,
    pub filename: String,
    pub mime_type: String,
    pub size: i64,
    pub status: FileStatus,
    /// Variant name to stored key or absolute URL.
    pub variants: Vec<(String, String)>,
    pub created_at: i64,
    pub updated_at: i64,
}

/// The projects and files tables.
pub struct Catalog {
    pub projects: Vec<ProjectRecord>,
    pub files: Vec<FileRecord>,
}

/// Project identifiers are pairwise distinct.
pub open spec fn distinct_project_ids(s: Seq<ProjectRecord>) -> bool {
    forall|i: int, j: int| 0 <= i < j < s.len() ==> s[i].id@ != s[j].id@
}

/// File identifiers are pairwise distinct.
pub open spec fn distinct_file_ids(s: Seq<FileRecord>) -> bool {
    forall|i: int, j: int| 0 <= i < j < s.len() ==> s[i].id@ != s[j].id@
}

/// A project is live while it has not been soft-deleted.
pub open spec fn is_live(p: ProjectRecord) -> bool {
    p.deleted_at is None
}

impl Catalog {
    /// An empty catalog.
    pub fn new() -> (r: Catalog)
        ensures
            r.projects@.len() == 0,
            r.files@.len() == 0,
    {
        Catalog { projects: Vec::new(), files: Vec::new() }
    }

    /// Inserts a project row.
    pub fn insert_project(&mut self, p: ProjectRecord)
        ensures
            final(self).projects@ == old(self).projects@.push(p),
            final(self).files == old(self).files,
    {
        self.projects.push(p);
    }

    /// Inserts a file row.
    pub fn insert_file(&mut self, f: FileRecord)
        ensures
            final(self).files@ == old(self).files@.push(f),
            final(self).projects == old(self).projects,
    {
        self.files.push(f);
    }

    /// Index of the first project row with this identifier.
    #[verifier::loop_isolation(false)]
    pub fn find_project(&self, id: &str) -> (r: Option<usize>)
        ensures
            r is Some <==> project_by_id(self.projects@, id@) is Some,
            r matches Some(i) ==> i < self.projects@.len() && self.projects@[i as int].id@ == id@
                && (forall|j: int| 0 <= j < i ==> self.projects@[j].id@ != id@) && project_by_id(
                self.projects@,
                id@,
            ) == Some(self.projects@[i as int]),
            r is None ==> forall|j: int| 0 <= j < self.projects@.len() ==> self.projects@[j].id@ != id@,
    {
        let n = self.projects.len();
        let mut i: usize = 0;
        while i < n
            invariant
                n == self.projects@.len(),
                i <= n,
                forall|j: int| 0 <= j < i ==> self.projects@[j].id@ != id@,
            decreases n - i,
        {
            if str_eq(self.projects[i].id.as_str(), id) {
                proof {
                    lemma_project_by_id_first_match(self.projects@, id@, i as int);
                }
                return Some(i);
            }
            i = i + 1;
        }
        proof {
            lemma_project_by_id_absent(self.projects@, id@);
        }
        None
    }

    /// Index of the first file row with this identifier.
    #[verifier::loop_isolation(false)]
    pub fn find_file(&self, id: &str) -> (r: Option<usize>)
        ensures
            r is Some <==> file_by_id(self.files@, id@) is Some,
            r matches Some(i) ==> i < self.files@.len() && self.files@[i as int].id@ == id@ && (
            forall|j: int| 0 <= j < i ==> self.files@[j].id@ != id@) && file_by_id(
                self.files@,
                id@,
            ) == Some(self.files@[i as int]),
            r is None ==> forall|j: int| 0 <= j < self.files@.len() ==> self.files@[j].id@ != id@,
    {
        let n = self.files.len();
        let mut i: usize = 0;
        while i < n
            invariant
                n == self.files@.len(),
                i <= n,
                forall|j: int| 0 <= j < i ==> self.files@[j].id@ != id@,
            decreases n - i,
        {
            if str_eq(self.files[i].id.as_str(), id) {
                proof {
                    lemma_file_by_id_first_match(self.files@, id@, i as int);
                }
                return Some(i);
            }
            i = i + 1;
        }
        proof {
            lemma_file_by_id_absent(self.files@, id@);
        }
        None
    }

    pub fn project_count(&self) -> (r: usize)
        ensures
            r == self.projects@.len(),
    {
        self.projects.len()
    }

    pub fn file_count(&self) -> (r: usize)
        ensures
            r == self.files@.len(),
    {
        self.files.len()
    }

    pub fn get_project(&self, i: usize) -> (r: &ProjectRecord)
        requires
            i < self.projects@.len(),
        ensures
            *r == self.projects@[i as int],
    {
        &self.projects[i]
    }

    pub fn get_file(&self, i: usize) -> (r: &FileRecord)
        requires
            i < self.files@.len(),
        ensures
            *r == self.files@[i as int],
    {
        &self.files[i]
    }

    /// Soft delete: records the deletion time and nothing else; the row and
    /// its files stay until the retention purge.
    pub fn soft_delete_project(&mut self, i: usize, now: i64)
        requires
            i < old(self).projects@.len(),
        ensures
            final(self).projects@ == old(self).projects@.update(
                i as int,
                (ProjectRecord { deleted_at: Some(now), ..old(self).projects@[i as int] }),
            ),
            final(self).files == old(self).files,
    {
        let row = project_at_mut(&mut self.projects, i);
        row.deleted_at = Some(now);
    }

    /// Replaces a project's settings document.
    pub fn update_project_settings(&mut self, i: usize, settings: ProjectSettings, now: i64)
        requires
            i < old(self).projects@.len(),
        ensures
            final(self).projects@.len() == old(self).projects@.len(),
            forall|k: int|
                0 <= k < old(self).projects@.len() && k != i ==> final(self).projects@[k] == old(
                    self,
                ).projects@[k],
            final(self).projects@[i as int] == (ProjectRecord {
                settings,
                updated_at: now,
                ..old(self).projects@[i as int]
            }),
            final(self).files == old(self).files,
    {
        let row = project_at_mut(&mut self.projects, i);
        row.settings = settings;
        row.updated_at = now;
    }

    /// The worker's completion write: the file becomes `ready` and its
    /// variants map is replaced wholesale by the accumulator — one entry per
    /// variant that was produced, so the map is non-empty exactly when the
    /// configuration snapshot held at least one variant.
    pub fn set_file_ready(&mut self, i: usize, variants: Vec<(String, String)>, now: i64)
        requires
            i < old(self).files@.len(),
        ensures
            final(self).files@.len() == old(self).files@.len(),
            forall|k: int|
                0 <= k < old(self).files@.len() && k != i ==> final(self).files@[k] == old(
                    self,
                ).files@[k],
            final(self).files@[i as int] == (FileRecord {
                status: FileStatus::Ready,
                variants,
                updated_at: now,
                ..old(self).files@[i as int]
            }),
            final(self).projects == old(self).projects,
    {
        let row = file_at_mut(&mut self.files, i);
        row.status = FileStatus::Ready;
        row.variants = variants;
        row.updated_at = now;
    }
}

/// The first project row with this identifier.
pub open spec fn project_by_id(s: Seq<ProjectRecord>, id: Seq<char>) -> Option<ProjectRecord>
    decreases s.len(),
{
    if s.len() == 0 {
        None
    } else if s[0].id@ == id {
        Some(s[0])
    } else {
        project_by_id(s.subrange(1, s.len() as int), id)
    }
}

/// The first file row with this identifier.
pub open spec fn file_by_id(s: Seq<FileRecord>, id: Seq<char>) -> Option<FileRecord>
    decreases s.len(),
{
    if s.len() == 0 {
        None
    } else if s[0].id@ == id {
        Some(s[0])
    } else {
        file_by_id(s.subrange(1, s.len() as int), id)
    }
}

proof fn lemma_project_by_id_first_match(s: Seq<ProjectRecord>, id: Seq<char>, i: int)
    requires
        0 <= i < s.len(),
        s[i].id@ == id,
        forall|j: int| 0 <= j < i ==> s[j].id@ != id,
    ensures
        project_by_id(s, id) == Some(s[i]),
    decreases i,
{
    if i > 0 {
        lemma_project_by_id_first_match(s.subrange(1, s.len() as int), id, i - 1);
    }
}

proof fn lemma_project_by_id_absent(s: Seq<ProjectRecord>, id: Seq<char>)
    requires
        forall|j: int| 0 <= j < s.len() ==> s[j].id@ != id,
    ensures
        project_by_id(s, id) is None,
    decreases s.len(),
{
    if s.len() > 0 {
        let t = s.subrange(1, s.len() as int);
        assert(forall|j: int| 0 <= j < t.len() ==> t[j] == s[j + 1]);
        lemma_project_by_id_absent(t, id);
    }
}

/// A project with the identifier exists exactly when the first-match
/// lookup finds one.
pub proof fn lemma_project_by_id_some_iff(s: Seq<ProjectRecord>, id: Seq<char>)
    ensures
        project_by_id(s, id) is Some <==> exists|j: int| 0 <= j < s.len() && (#[trigger] s[j]).id@ == id,
    decreases s.len(),
{
    if s.len() > 0 {
        let t = s.subrange(1, s.len() as int);
        assert(forall|j: int| 0 <= j < t.len() ==> t[j] == s[j + 1]);
        lemma_project_by_id_some_iff(t, id);
        if s[0].id@ != id && project_by_id(s, id) is Some {
            let j = choose|j: int| 0 <= j < t.len() && (#[trigger] t[j]).id@ == id;
            assert(s[j + 1].id@ == id);
        }
        if exists|j: int| 0 <= j < s.len() && (#[trigger] s[j]).id@ == id {
            let j = choose|j: int| 0 <= j < s.len() && (#[trigger] s[j]).id@ == id;
            if j > 0 && s[0].id@ != id {
                assert(t[j - 1].id@ == id);
            }
        }
    }
}

proof fn lemma_file_by_id_first_match(s: Seq<FileRecord>, id: Seq<char>, i: int)
    requires
        0 <= i < s.len(),
        s[i].id@ == id,
        forall|j: int| 0 <= j < i ==> s[j].id@ != id,
    ensures
        file_by_id(s, id) == Some(s[i]),
    decreases i,
{
    if i > 0 {
        lemma_file_by_id_first_match(s.subrange(1, s.len() as int), id, i - 1);
    }
}

proof fn lemma_file_by_id_absent(s: Seq<FileRecord>, id: Seq<char>)
    requires
        forall|j: int| 0 <= j < s.len() ==> s[j].id@ != id,
    ensures
        file_by_id(s, id) is None,
    decreases s.len(),
{
    if s.len() > 0 {
        let t = s.subrange(1, s.len() as int);
        assert(forall|j: int| 0 <= j < t.len() ==> t[j] == s[j + 1]);
        lemma_file_by_id_absent(t, id);
    }
}

/// The value stored for a variant name: the first entry with that name.
pub open spec fn variant_value(vs: Seq<(String, String)>, name: Seq<char>) -> Option<Seq<char>>
    decreases vs.len(),
{
    if vs.len() == 0 {
        None
    } else if vs[0].0@ == name {
        Some(vs[0].1@)
    } else {
        variant_value(vs.subrange(1, vs.len() as int), name)
    }
}

proof fn lemma_variant_value_first_match(vs: Seq<(String, String)>, name: Seq<char>, i: int)
    requires
        0 <= i < vs.len(),
        vs[i].0@ == name,
        forall|j: int| 0 <= j < i ==> vs[j].0@ != name,
    ensures
        variant_value(vs, name) == Some(vs[i].1@),
    decreases i,
{
    if i > 0 {
        lemma_variant_value_first_match(vs.subrange(1, vs.len() as int), name, i - 1);
    }
}

proof fn lemma_variant_value_absent(vs: Seq<(String, String)>, name: Seq<char>)
    requires
        forall|j: int| 0 <= j < vs.len() ==> vs[j].0@ != name,
    ensures
        variant_value(vs, name) is None,
    decreases vs.len(),
{
    if vs.len() > 0 {
        let t = vs.subrange(1, vs.len() as int);
        assert(forall|j: int| 0 <= j < t.len() ==> t[j] == vs[j + 1]);
        lemma_variant_value_absent(t, name);
    }
}

/// The object key served for a file's content: the original's own key when
/// no variant is named, else the named variant's stored value resolved to a
/// bare key.  An unrecorded variant is not found; a recorded value the
/// resolver cannot name is an internal failure, since the stored data is
/// then unreadable.
#[verifier::loop_isolation(false)]
pub fn resolve_content_key(f: &FileRecord, variant: Option<&String>, bucket: &str) -> (r: Result<
    String,
    crate::errors::AppError,
>)
    ensures
        variant is None ==> (r matches Ok(k) && k@ == f.s3_key@),
        variant matches Some(v) ==> match variant_value(f.variants@, v@) {
            Option::None => (r matches Err(e) && e matches crate::errors::AppError::NotFound(m)
                && m@ == "Variant '"@ + v@ + "' not found"@),
            Option::Some(value) => match crate::keys::resolve_key_spec(value, bucket@) {
                Option::Some(key) => (r matches Ok(k) && k@ == key),
                Option::None => (r matches Err(e) && e matches
                crate::errors::AppError::InternalServerError(m) && m@
                    == "Failed to parse variant URL"@),
            },
        },
{
    let name = match variant {
        None => {
            return Ok(f.s3_key.clone());
        },
        Some(v) => v,
    };
    let n = f.variants.len();
    let mut i: usize = 0;
    while i < n
        invariant
            n == f.variants@.len(),
            i <= n,
            forall|j: int| 0 <= j < i ==> f.variants@[j].0@ != name@,
        decreases n - i,
    {
        if str_eq(f.variants[i].0.as_str(), name.as_str()) {
            proof {
                lemma_variant_value_first_match(f.variants@, name@, i as int);
            }
            let value = &f.variants[i].1;
            return match crate::keys::resolve_key(value.as_str(), bucket) {
                Some(key) => Ok(key),
                None => Err(
                    crate::errors::AppError::InternalServerError(
                        "Failed to parse variant URL".to_owned(),
                    ),
                ),
            };
        }
        i = i + 1;
    }
    proof {
        lemma_variant_value_absent(f.variants@, name@);
    }
    let mut m = "Variant '".to_owned();
    m.append(name.as_str());
    m.append("' not found");
    Err(crate::errors::AppError::NotFound(m))
}

/// A mutable borrow of one project row.
fn project_at_mut(v: &mut Vec<ProjectRecord>, i: usize) -> (row: &mut ProjectRecord)
    requires
        i < old(v).len(),
    ensures
        *row == old(v)@[i as int],
        final(v)@ == old(v)@.update(i as int, *final(row)),
{
    &mut v[i]
}

/// A mutable borrow of one file row.
fn file_at_mut(v: &mut Vec<FileRecord>, i: usize) -> (row: &mut FileRecord)
    requires
        i < old(v).len(),
    ensures
        *row == old(v)@[i as int],
        final(v)@ == old(v)@.update(i as int, *final(row)),
{
    &mut v[i]
}

} // verus!
