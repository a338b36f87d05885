//! Model of the S3-compatible object store as the service relies on it:
//! a bucket that can be bootstrapped with a public-read policy, and a map
//! from key to stored object.  The I/O edge mirrors each operation onto the
//! real store; the model is what the rest of the library is verified
//! against.

use vstd::prelude::*;

use crate::keys::str_eq;

verus! {

/// One stored object: its bytes and the content type it was put with.
pub struct StoredObject {
    pub bytes: Vec<u8>,
    pub mime: String,
}

/// The store: bucket bootstrap state and the keyed objects.
pub struct ObjectStore {
    pub bucket_exists: bool,
    pub public_read_policy: bool,
    pub objects: Vec<(String, StoredObject)>,
}

/// The object stored under `k`: the first entry with that key.
pub open spec fn value_of(s: Seq<(String, StoredObject)>, k: Seq<char>) -> Option<StoredObject>
    decreases s.len(),
{
    if s.len() == 0 {
        None
    } else if s[0].0@ == k {
        Some(s[0].1)
    } else {
        value_of(s.subrange(1, s.len() as int), k)
    }
}

/// Keys are pairwise distinct.
pub open spec fn distinct_keys(s: Seq<(String, StoredObject)>) -> bool {
    forall|i: int, j: int| 0 <= i < j < s.len() ==> s[i].0@ != s[j].0@
}

/// The key stored under `k` is the one at the first matching index.
proof fn lemma_value_of_first_match(s: Seq<(String, StoredObject)>, k: Seq<char>, i: int)
    requires
        0 <= i < s.len(),
        s[i].0@ == k,
        forall|j: int| 0 <= j < i ==> s[j].0@ != k,
    ensures
        value_of(s, k) == Some(s[i].1),
    decreases i,
{
    if i > 0 {
        let t = s.subrange(1, s.len() as int);
        lemma_value_of_first_match(t, k, i - 1);
    }
}

/// A key matching no entry stores nothing.
proof fn lemma_value_of_absent(s: Seq<(String, StoredObject)>, k: Seq<char>)
    requires
        forall|j: int| 0 <= j < s.len() ==> s[j].0@ != k,
    ensures
        value_of(s, k) is None,
    decreases s.len(),
{
    if s.len() > 0 {
        let t = s.subrange(1, s.len() as int);
        assert(forall|j: int| 0 <= j < t.len() ==> t[j] == s[j + 1]);
        lemma_value_of_absent(t, k);
    }
}

/// A put over the first entry of the same key is that entry's replacement.
proof fn lemma_put_spec_update(s: Seq<(String, StoredObject)>, i: int, e: (String, StoredObject))
    requires
        0 <= i < s.len(),
        e.0@ == s[i].0@,
        forall|j: int| 0 <= j < i ==> s[j].0@ != s[i].0@,
    ensures
        put_spec(s, e) == s.update(i, e),
    decreases i,
{
    if i == 0 {
        assert(put_spec(s, e) =~= s.update(0, e));
    } else {
        let t = s.subrange(1, s.len() as int);
        lemma_put_spec_update(t, i - 1, e);
        assert(put_spec(s, e) =~= s.update(i, e));
    }
}

/// A put of a fresh key is an append.
proof fn lemma_put_spec_push(s: Seq<(String, StoredObject)>, e: (String, StoredObject))
    requires
        forall|j: int| 0 <= j < s.len() ==> s[j].0@ != e.0@,
    ensures
        put_spec(s, e) == s.push(e),
    decreases s.len(),
{
    if s.len() == 0 {
        assert(put_spec(s, e) =~= s.push(e));
    } else {
        let t = s.subrange(1, s.len() as int);
        assert(forall|j: int| 0 <= j < t.len() ==> t[j] == s[j + 1]);
        lemma_put_spec_push(t, e);
        assert(put_spec(s, e) =~= s.push(e));
    }
}

/// Removing the sole entry of key `k` empties `k` and leaves every other
/// key unchanged.
proof fn lemma_value_of_remove(s: Seq<(String, StoredObject)>, i: int, k: Seq<char>)
    requires
        0 <= i < s.len(),
        distinct_keys(s),
    ensures
        k == s[i].0@ ==> value_of(s.remove(i), k) is None,
        k != s[i].0@ ==> value_of(s.remove(i), k) == value_of(s, k),
    decreases i,
{
    let r = s.remove(i);
    if i == 0 {
        assert(r =~= s.subrange(1, s.len() as int));
        if k == s[0].0@ {
            assert(forall|j: int| 0 <= j < r.len() ==> r[j] == s[j + 1]);
            lemma_value_of_absent(r, k);
        }
    } else {
        let t = s.subrange(1, s.len() as int);
        assert(r.subrange(1, r.len() as int) =~= t.remove(i - 1));
        assert(forall|a: int, b: int| 0 <= a < b < t.len() ==> t[a].0@ != t[b].0@);
        lemma_value_of_remove(t, i - 1, k);
    }
}

impl ObjectStore {
    /// A store with no bucket yet.
    pub fn new() -> (r: ObjectStore)
        ensures
            !r.bucket_exists,
            !r.public_read_policy,
            r.objects@.len() == 0,
            distinct_keys(r.objects@),
    {
        ObjectStore { bucket_exists: false, public_read_policy: false, objects: Vec::new() }
    }

    /// Bucket bootstrap: probes the bucket, creates it when absent, and
    /// installs the public-read object policy either way.  Objects are
    /// untouched, so a second call changes nothing.
    pub fn ensure_bucket(&mut self)
        ensures
            *final(self) == ensure_bucket_spec(*old(self)),
            final(self).bucket_exists,
            final(self).public_read_policy,
            final(self).objects == old(self).objects,
    {
        self.bucket_exists = true;
        self.public_read_policy = true;
    }

    /// Whether the bucket answers a head probe.
    pub fn head_bucket(&self) -> (r: bool)
        ensures
            r == self.bucket_exists,
    {
        self.bucket_exists
    }

    /// Stores `bytes` under `key` with the given content type, replacing
    /// any previous object under that key and leaving every other key
    /// unchanged.
    pub fn put(&mut self, key: String, bytes: Vec<u8>, mime: String)
        requires
            distinct_keys(old(self).objects@),
        ensures
            distinct_keys(final(self).objects@),
            final(self).objects@ == put_spec(
                old(self).objects@,
                (key, (StoredObject { bytes, mime })),
            ),
            value_of(final(self).objects@, key@) matches Some(o) && o.bytes@ == bytes@ && o.mime@
                == mime@,
            forall|k: Seq<char>|
                k != key@ ==> value_of(final(self).objects@, k) == value_of(old(self).objects@, k),
            final(self).bucket_exists == old(self).bucket_exists,
            final(self).public_read_policy == old(self).public_read_policy,
    {
        let n = self.objects.len();
        let mut i: usize = 0;
        while i < n
            invariant
                self.objects@ == old(self).objects@,
                self.bucket_exists == old(self).bucket_exists,
                self.public_read_policy == old(self).public_read_policy,
                distinct_keys(old(self).objects@),
                n == self.objects@.len(),
                i <= n,
                forall|j: int| 0 <= j < i ==> self.objects@[j].0@ != key@,
            decreases n - i,
        {
            if str_eq(self.objects[i].0.as_str(), key.as_str()) {
                let ghost pre = self.objects@;
                let entry = object_at_mut(&mut self.objects, i);
                *entry = (key, StoredObject { bytes, mime });
                proof {
                    let e = self.objects@[i as int];
                    lemma_put_spec_update(pre, i as int, e);
                    assert(self.objects@ =~= put_spec(pre, e));
                    assert forall|a: int, b: int|
                        0 <= a < b < self.objects@.len() implies self.objects@[a].0@
                        != self.objects@[b].0@ by {
                        assert(pre[a].0@ != pre[b].0@);
                    }
                    assert forall|k: Seq<char>| k != e.0@ implies value_of(self.objects@, k)
                        == value_of(pre, k) by {
                        lemma_put_get(pre, e, k);
                    }
                    lemma_put_get(pre, e, e.0@);
                }
                return ;
            }
            i = i + 1;
        }
        let ghost pre = self.objects@;
        self.objects.push((key, StoredObject { bytes, mime }));
        proof {
            let e = self.objects@.last();
            lemma_put_spec_push(pre, e);
            assert(self.objects@ =~= put_spec(pre, e));
            assert forall|k: Seq<char>| k != e.0@ implies value_of(self.objects@, k) == value_of(
                pre,
                k,
            ) by {
                lemma_put_get(pre, e, k);
            }
            lemma_put_get(pre, e, e.0@);
            assert forall|a: int, b: int|
                0 <= a < b < self.objects@.len() implies self.objects@[a].0@
                != self.objects@[b].0@ by {
                if b < self.objects@.len() - 1 {
                    assert(pre[a].0@ != pre[b].0@);
                }
            }
        }
    }

    /// The object stored under `key`, if any.
    pub fn get(&self, key: &str) -> (r: Option<&StoredObject>)
        ensures
            match r {
                Some(o) => value_of(self.objects@, key@) == Some(*o),
                None => value_of(self.objects@, key@) is None,
            },
    {
        let n = self.objects.len();
        let mut i: usize = 0;
        while i < n
            invariant
                n == self.objects@.len(),
                i <= n,
                forall|j: int| 0 <= j < i ==> self.objects@[j].0@ != key@,
            decreases n - i,
        {
            if str_eq(self.objects[i].0.as_str(), key) {
                proof {
                    lemma_value_of_first_match(self.objects@, key@, i as int);
                }
                return Some(&self.objects[i].1);
            }
            i = i + 1;
        }
        proof {
            lemma_value_of_absent(self.objects@, key@);
        }
        None
    }

    /// Deletes the object under `key`; a key holding nothing is left as it
    /// is, and the call reports nothing either way, as cleanup deletion is
    /// best-effort.
    pub fn delete(&mut self, key: &str)
        requires
            distinct_keys(old(self).objects@),
        ensures
            distinct_keys(final(self).objects@),
            value_of(final(self).objects@, key@) is None,
            forall|k: Seq<char>|
                k != key@ ==> value_of(final(self).objects@, k) == value_of(old(self).objects@, k),
            final(self).bucket_exists == old(self).bucket_exists,
            final(self).public_read_policy == old(self).public_read_policy,
    {
        let n = self.objects.len();
        let mut i: usize = 0;
        while i < n
            invariant
                self.objects@ == old(self).objects@,
                self.bucket_exists == old(self).bucket_exists,
                self.public_read_policy == old(self).public_read_policy,
                distinct_keys(old(self).objects@),
                n == self.objects@.len(),
                i <= n,
                forall|j: int| 0 <= j < i ==> self.objects@[j].0@ != key@,
            decreases n - i,
        {
            if str_eq(self.objects[i].0.as_str(), key) {
                let ghost pre = self.objects@;
                self.objects.remove(i);
                proof {
                    assert forall|k: Seq<char>| k != pre[i as int].0@ implies value_of(
                        self.objects@,
                        k,
                    ) == value_of(pre, k) by {
                        lemma_value_of_remove(pre, i as int, k);
                    }
                    lemma_value_of_remove(pre, i as int, pre[i as int].0@);
                    assert forall|a: int, b: int|
                        0 <= a < b < self.objects@.len() implies self.objects@[a].0@
                        != self.objects@[b].0@ by {
                        let a0 = if a < i {
                            a
                        } else {
                            a + 1
                        };
                        let b0 = if b < i {
                            b
                        } else {
                            b + 1
                        };
                        assert(pre[a0].0@ != pre[b0].0@);
                    }
                }
                return ;
            }
            i = i + 1;
        }
        proof {
            lemma_value_of_absent(self.objects@, key@);
        }
    }
}

/// A mutable borrow of one entry.
fn object_at_mut(v: &mut Vec<(String, StoredObject)>, i: usize) -> (entry: &mut (
    String,
    StoredObject,
))
    requires
        i < old(v).len(),
    ensures
        *entry == old(v)@[i as int],
        final(v)@ == old(v)@.update(i as int, *final(entry)),
{
    &mut v[i]
}

/// What a put leaves behind: the first entry of the same key replaced, or
/// the entry appended when the key is fresh.
pub open spec fn put_spec(s: Seq<(String, StoredObject)>, e: (String, StoredObject)) -> Seq<
    (String, StoredObject),
>
    decreases s.len(),
{
    if s.len() == 0 {
        seq![e]
    } else if s[0].0@ == e.0@ {
        seq![e] + s.subrange(1, s.len() as int)
    } else {
        seq![s[0]] + put_spec(s.subrange(1, s.len() as int), e)
    }
}

/// `put(k, b, m); get(k)` yields `b`: after a put, the key holds exactly
/// the object that was put, and every other key holds what it held before.
pub proof fn lemma_put_get(s: Seq<(String, StoredObject)>, e: (String, StoredObject), k: Seq<char>)
    ensures
        value_of(put_spec(s, e), e.0@) == Some(e.1),
        k != e.0@ ==> value_of(put_spec(s, e), k) == value_of(s, k),
    decreases s.len(),
{
    let p = put_spec(s, e);
    if s.len() == 0 {
        assert(p[0] == e);
        assert(p.subrange(1, p.len() as int) =~= Seq::<(String, StoredObject)>::empty());
        if k != e.0@ {
            assert(value_of(p, k) == value_of(p.subrange(1, p.len() as int), k));
            assert(value_of(p, k) is None);
            assert(value_of(s, k) is None);
        }
    } else if s[0].0@ == e.0@ {
        assert(p[0] == e);
        assert(p.subrange(1, p.len() as int) =~= s.subrange(1, s.len() as int));
    } else {
        assert(p[0] == s[0]);
        assert(p.subrange(1, p.len() as int) =~= put_spec(s.subrange(1, s.len() as int), e));
        lemma_put_get(s.subrange(1, s.len() as int), e, k);
    }
}

/// The effect of the bucket bootstrap on the store state.
pub open spec fn ensure_bucket_spec(s: ObjectStore) -> ObjectStore {
    ObjectStore { bucket_exists: true, public_read_policy: true, ..s }
}

/// `ensure_bucket(); ensure_bucket()` is idempotent and leaves the
/// public-read policy installed.
pub proof fn lemma_ensure_bucket_idempotent(s: ObjectStore)
    ensures
        ensure_bucket_spec(ensure_bucket_spec(s)) == ensure_bucket_spec(s),
        ensure_bucket_spec(s).public_read_policy,
        ensure_bucket_spec(s).bucket_exists,
        ensure_bucket_spec(s).objects == s.objects,
{
}

} // verus!
