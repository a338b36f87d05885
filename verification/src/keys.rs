//! Object-store key grammar: project-name sanitization, file extensions,
//! key composition for originals, variants and plain files, public URLs,
//! and the URL-or-key resolver used when variant values hold absolute URLs.

use vstd::prelude::*;
use vstd::string::{StrSliceExecFns, StringExecFns};

verus! {

/// Character-for-character string equality, decided without allocating.
pub fn str_eq(a: &str, b: &str) -> (r: bool)
    ensures
        r == (a@ == b@),
{
    let alen = a.unicode_len();
    let blen = b.unicode_len();
    if alen != blen {
        proof {
            if a@ == b@ {
                assert(a@.len() == b@.len());
            }
        }
        return false;
    }
    let mut i: usize = 0;
    while i < alen
        invariant
            alen == a@.len(),
            blen == b@.len(),
            alen == blen,
            i <= alen,
            forall|k: int| 0 <= k < i ==> a@[k] == b@[k],
        decreases alen - i,
    {
        if a.get_char(i) != b.get_char(i) {
            proof {
                if a@ == b@ {
                    assert(a@[i as int] == b@[i as int]);
                }
            }
            return false;
        }
        i = i + 1;
    }
    proof {
        assert(a@ =~= b@);
    }
    true
}

/// The pattern occurs in `s` starting at index `i`.
pub open spec fn occurs_at(s: Seq<char>, pat: Seq<char>, i: int) -> bool {
    &&& 0 <= i
    &&& i + pat.len() <= s.len()
    &&& forall|j: int| 0 <= j < pat.len() ==> s[i + j] == pat[j]
}

/// The pattern occurs somewhere in `s`.
pub open spec fn contains_seq(s: Seq<char>, pat: Seq<char>) -> bool {
    exists|i: int| occurs_at(s, pat, i)
}

/// Whether `pat` occurs in `s`, as the database's substring filter decides
/// it.
pub fn str_contains(s: &str, pat: &str) -> (r: bool)
    ensures
        r == contains_seq(s@, pat@),
{
    let slen = s.unicode_len();
    let plen = pat.unicode_len();
    if plen > slen {
        proof {
            if contains_seq(s@, pat@) {
                let i = choose|i: int| occurs_at(s@, pat@, i);
                assert(false);
            }
        }
        return false;
    }
    let mut i: usize = 0;
    while i <= slen - plen
        invariant
            slen == s@.len(),
            plen == pat@.len(),
            plen <= slen,
            i <= slen - plen + 1,
            forall|k: int| 0 <= k < i ==> !occurs_at(s@, pat@, k),
        decreases slen - plen + 1 - i,
    {
        let mut ok: bool = true;
        let mut j: usize = 0;
        while ok && j < plen
            invariant
                slen == s@.len(),
                plen == pat@.len(),
                i + plen <= slen,
                j <= plen,
                ok ==> forall|t: int| 0 <= t < j ==> s@[i + t] == pat@[t],
                !ok ==> !occurs_at(s@, pat@, i as int),
            decreases plen - j,
        {
            if s.get_char(i + j) != pat.get_char(j) {
                ok = false;
                proof {
                    if occurs_at(s@, pat@, i as int) {
                        assert(s@[i + j] == pat@[j as int]);
                    }
                }
            }
            j = j + 1;
        }
        if ok {
            proof {
                assert(occurs_at(s@, pat@, i as int));
            }
            return true;
        }
        i = i + 1;
    }
    proof {
        if contains_seq(s@, pat@) {
            let k = choose|k: int| occurs_at(s@, pat@, k);
            assert(false);
        }
    }
    false
}

/// What `str::to_lowercase` returns: Unicode lower-casing is a function of
/// the characters alone.
pub uninterp spec fn lower_of(s: Seq<char>) -> Seq<char>;

/// Whether `char::is_alphanumeric` accepts the character: a property of the
/// character alone.
pub uninterp spec fn is_unicode_alphanumeric(c: char) -> bool;

/// Relies on `str::to_lowercase`: the result depends on the characters
/// alone.
#[verifier::external_body]
fn lowercase(s: &str) -> (r: String)
    ensures
        r@ == lower_of(s@),
        s@.len() == 0 ==> r@.len() == 0,
{
    s.to_lowercase()
}

/// Relies on `char::is_alphanumeric`: a property of the character alone.
#[verifier::external_body]
fn char_alphanumeric(c: char) -> (r: bool)
    ensures
        r == is_unicode_alphanumeric(c),
{
    c.is_alphanumeric()
}

/// Relies on `String::from_iter`: collecting characters yields the string
/// of exactly those characters.
#[verifier::external_body]
fn string_from_chars(chars: Vec<char>) -> (r: String)
    ensures
        r@ == chars@,
{
    chars.into_iter().collect()
}

/// How one character of the lower-cased name is rewritten: alphanumerics
/// stay, everything else becomes `'-'`.
pub open spec fn sanitize_char(c: char) -> char {
    if is_unicode_alphanumeric(c) {
        c
    } else {
        '-'
    }
}

/// The sanitized form of a name: the name lower-cased, then every
/// non-alphanumeric character replaced in place.
pub open spec fn sanitize_spec(s: Seq<char>) -> Seq<char> {
    lower_of(s).map_values(|c: char| sanitize_char(c))
}

/// Sanitizing is idempotent on every name whose sanitized form lower-cases
/// to itself — which is every name, since a lower-cased string lower-cases
/// to itself and `'-'` has no case; that last fact belongs to Unicode, not
/// to this crate, so it stands here as the stated hypothesis.
pub proof fn lemma_sanitize_idempotent(s: Seq<char>)
    ensures
        lower_of(sanitize_spec(s)) == sanitize_spec(s) ==> sanitize_spec(sanitize_spec(s))
            == sanitize_spec(s),
{
    if lower_of(sanitize_spec(s)) == sanitize_spec(s) {
        let once = sanitize_spec(s);
        let twice = sanitize_spec(once);
        assert forall|i: int| 0 <= i < once.len() implies twice[i] == once[i] by {
            assert(twice[i] == sanitize_char(once[i]));
            assert(once[i] == sanitize_char(lower_of(s)[i]));
        }
        assert(twice =~= once);
    }
}

/// Relies on `String::from_utf8`: ASCII bytes decode to the string whose
/// characters are those bytes, one character per byte.
#[verifier::external_body]
pub(crate) fn string_from_ascii(bytes: Vec<u8>) -> (r: String)
    requires
        forall|i: int| 0 <= i < bytes@.len() ==> bytes@[i] < 128,
    ensures
        r@ == bytes@.map_values(|b: u8| b as char),
{
    match String::from_utf8(bytes) {
        Ok(s) => s,
        Err(_) => String::new(),
    }
}

/// Lower-cases a project name and replaces every character that is not a
/// letter or digit with `'-'`, producing the prefix used in object keys.
pub fn sanitize_bucket_name(name: &str) -> (r: String)
    ensures
        r@ == sanitize_spec(name@),
{
    let low = lowercase(name);
    let len = low.as_str().unicode_len();
    let mut out: Vec<char> = Vec::new();
    let mut i: usize = 0;
    while i < len
        invariant
            low@ == lower_of(name@),
            len == low@.len(),
            i <= len,
            out@.len() == i,
            forall|k: int| 0 <= k < i ==> out@[k] == sanitize_char(low@[k]),
        decreases len - i,
    {
        let c = low.as_str().get_char(i);
        let kept: char = if char_alphanumeric(c) {
            c
        } else {
            '-'
        };
        out.push(kept);
        i = i + 1;
    }
    let r = string_from_chars(out);
    proof {
        assert(r@ =~= sanitize_spec(name@));
    }
    r
}

/// The extension of a file-name component: the characters after the last
/// `'.'`, or `"bin"` when there is no `'.'` or the only `'.'` starts the
/// component.
pub open spec fn component_ext_spec(s: Seq<char>) -> Seq<char> {
    if exists|i: int| 1 <= i < s.len() && s[i] == '.' {
        let i = last_dot(s);
        s.subrange(i + 1, s.len() as int)
    } else {
        seq!['b', 'i', 'n']
    }
}

/// The extension of `filename`: the extension of its file-name component,
/// the characters after the last `'/'`.
pub open spec fn extension_spec(s: Seq<char>) -> Seq<char> {
    component_ext_spec(s.subrange(component_start(s), s.len() as int))
}

/// Index at which the file-name component begins: just after the last
/// `'/'`, or the start when there is none.
pub open spec fn component_start(s: Seq<char>) -> int
    decreases s.len(),
{
    if s.len() == 0 {
        0
    } else if s.last() == '/' {
        s.len() as int
    } else {
        component_start(s.drop_last())
    }
}

proof fn lemma_component_start(s: Seq<char>)
    ensures
        0 <= component_start(s) <= s.len(),
        forall|k: int| component_start(s) <= k < s.len() ==> s[k] != '/',
        component_start(s) > 0 ==> s[component_start(s) - 1] == '/',
    decreases s.len(),
{
    if s.len() > 0 && s.last() != '/' {
        lemma_component_start(s.drop_last());
        let c = component_start(s);
        assert forall|k: int| c <= k < s.len() implies s[k] != '/' by {
            if k < s.len() - 1 {
                assert(s.drop_last()[k] != '/');
            }
        }
    }
}

/// The largest index of a `'.'` at position 1 or later.
pub open spec fn last_dot(s: Seq<char>) -> int
    recommends
        exists|i: int| 1 <= i < s.len() && s[i] == '.',
    decreases s.len(),
{
    if s.len() == 0 {
        0
    } else if s[s.len() - 1] == '.' && s.len() >= 2 {
        s.len() - 1
    } else {
        last_dot(s.drop_last())
    }
}

proof fn lemma_last_dot(s: Seq<char>)
    requires
        exists|i: int| 1 <= i < s.len() && s[i] == '.',
    ensures
        1 <= last_dot(s) < s.len(),
        s[last_dot(s)] == '.',
        forall|k: int| last_dot(s) < k < s.len() ==> s[k] != '.',
    decreases s.len(),
{
    if s.len() >= 2 && s[s.len() - 1] == '.' {
    } else {
        let i = choose|i: int| 1 <= i < s.len() && s[i] == '.';
        assert(s.drop_last()[i] == '.');
        lemma_last_dot(s.drop_last());
        let d = last_dot(s);
        assert forall|k: int| d < k < s.len() implies s[k] != '.' by {
            if k < s.len() - 1 {
                assert(s.drop_last()[k] != '.');
            }
        }
    }
}

/// Extracts the extension of a file-name component.
#[verifier::loop_isolation(false)]
fn component_extension(name: &str) -> (r: String)
    ensures
        r@ == component_ext_spec(name@),
{
    let len = name.unicode_len();
    let mut dot: usize = 0;
    let mut j: usize = 1;
    while j < len
        invariant
            1 <= j || len == 0,
            j <= len || (len == 0 && j == 1),
            dot < len || dot == 0,
            dot == 0 ==> forall|k: int| 1 <= k < j ==> name@[k] != '.',
            dot != 0 ==> 1 <= dot < j && name@[dot as int] == '.' && forall|k: int|
                dot < k < j ==> name@[k] != '.',
        decreases len - j,
    {
        if name.get_char(j) == '.' {
            dot = j;
        }
        j = j + 1;
    }
    if dot == 0 {
        proof {
            if exists|i: int| 1 <= i < name@.len() && name@[i] == '.' {
                let i = choose|i: int| 1 <= i < name@.len() && name@[i] == '.';
                assert(false);
            }
        }
        let r = "bin".to_owned();
        proof {
            reveal_strlit("bin");
            assert(r@ =~= component_ext_spec(name@));
        }
        r
    } else {
        proof {
            lemma_last_dot(name@);
            let d = last_dot(name@);
            if d < dot {
                assert(name@[dot as int] == '.');
                assert(false);
            }
            if d > dot {
                assert(name@[d] == '.');
                assert(false);
            }
        }
        name.substring_char(dot + 1, len).to_owned()
    }
}

/// Extracts the file extension used when composing object keys: the
/// extension of the name's final path component.
#[verifier::loop_isolation(false)]
pub fn get_extension(filename: &str) -> (r: String)
    ensures
        r@ == extension_spec(filename@),
{
    let len = filename.unicode_len();
    let mut start: usize = 0;
    let mut j: usize = 0;
    while j < len
        invariant
            j <= len,
            start <= j,
            forall|k: int| start <= k < j ==> filename@[k] != '/',
            start > 0 ==> filename@[start - 1] == '/',
        decreases len - j,
    {
        if filename.get_char(j) == '/' {
            start = j + 1;
        }
        j = j + 1;
    }
    proof {
        lemma_component_start(filename@);
        let c = component_start(filename@);
        if c < start {
            assert(filename@[start - 1] != '/');
            assert(false);
        }
        if c > start {
            assert(filename@[c - 1] == '/');
            assert(false);
        }
    }
    let comp = filename.substring_char(start, len);
    component_extension(comp)
}

/// Key of an uploaded original image:
/// `<sanitized-name>-<project-id>/images/original/<file-id>.<ext>`.
pub open spec fn original_image_key_spec(
    name: Seq<char>,
    project_id: Seq<char>,
    file_id: Seq<char>,
    ext: Seq<char>,
) -> Seq<char> {
    sanitize_spec(name) + "-"@ + project_id + "/images/original/"@ + file_id + "."@ + ext
}

/// Key of a derived variant:
/// `<sanitized-name>-<project-id>/images/<variant>/<file-id>.<ext>`.
pub open spec fn variant_key_spec(
    name: Seq<char>,
    project_id: Seq<char>,
    variant: Seq<char>,
    file_id: Seq<char>,
    ext: Seq<char>,
) -> Seq<char> {
    sanitize_spec(name) + "-"@ + project_id + "/images/"@ + variant + "/"@ + file_id + "."@ + ext
}

/// Key of an arbitrary (non-image) file:
/// `<sanitized-name>-<project-id>/files/<file-id>.<ext>`.
pub open spec fn plain_file_key_spec(
    name: Seq<char>,
    project_id: Seq<char>,
    file_id: Seq<char>,
    ext: Seq<char>,
) -> Seq<char> {
    sanitize_spec(name) + "-"@ + project_id + "/files/"@ + file_id + "."@ + ext
}

pub fn original_image_key(name: &str, project_id: &str, file_id: &str, ext: &str) -> (r: String)
    ensures
        r@ == original_image_key_spec(name@, project_id@, file_id@, ext@),
{
    let mut r = sanitize_bucket_name(name);
    r.append("-");
    r.append(project_id);
    r.append("/images/original/");
    r.append(file_id);
    r.append(".");
    r.append(ext);
    r
}

pub fn variant_key(name: &str, project_id: &str, variant: &str, file_id: &str, ext: &str) -> (r:
    String)
    ensures
        r@ == variant_key_spec(name@, project_id@, variant@, file_id@, ext@),
{
    let mut r = sanitize_bucket_name(name);
    r.append("-");
    r.append(project_id);
    r.append("/images/");
    r.append(variant);
    r.append("/");
    r.append(file_id);
    r.append(".");
    r.append(ext);
    r
}

pub fn plain_file_key(name: &str, project_id: &str, file_id: &str, ext: &str) -> (r: String)
    ensures
        r@ == plain_file_key_spec(name@, project_id@, file_id@, ext@),
{
    let mut r = sanitize_bucket_name(name);
    r.append("-");
    r.append(project_id);
    r.append("/files/");
    r.append(file_id);
    r.append(".");
    r.append(ext);
    r
}

/// Base URL under which objects are publicly reachable: the configured
/// endpoint with the bucket as a path segment when an endpoint override is
/// set, else the virtual-hosted Amazon form.
pub open spec fn public_base_url_spec(
    endpoint: Option<Seq<char>>,
    bucket: Seq<char>,
    region: Seq<char>,
) -> Seq<char> {
    match endpoint {
        Option::Some(e) => e + "/"@ + bucket,
        Option::None => "https://"@ + bucket + ".s3."@ + region + ".amazonaws.com"@,
    }
}

pub fn public_base_url(endpoint: &Option<String>, bucket: &str, region: &str) -> (r: String)
    ensures
        r@ == public_base_url_spec(
            match endpoint {
                Option::Some(e) => Option::Some(e@),
                Option::None => Option::None,
            },
            bucket@,
            region@,
        ),
{
    match endpoint {
        Option::Some(e) => {
            let mut r = (*e).clone();
            r.append("/");
            r.append(bucket);
            r
        },
        Option::None => {
            let mut r = "https://".to_owned();
            r.append(bucket);
            r.append(".s3.");
            r.append(region);
            r.append(".amazonaws.com");
            r
        },
    }
}

/// The public URL of one object: the base URL, a `'/'`, and the key.
pub open spec fn object_url_spec(base: Seq<char>, key: Seq<char>) -> Seq<char> {
    base + "/"@ + key
}

pub fn object_url(base: &str, key: &str) -> (r: String)
    ensures
        r@ == object_url_spec(base@, key@),
{
    let mut r = base.to_owned();
    r.append("/");
    r.append(key);
    r
}

/// The pattern `/<bucket>/` occurs in `s` at index `i`.
pub open spec fn bucket_segment_at(s: Seq<char>, bucket: Seq<char>, i: int) -> bool {
    &&& 0 <= i
    &&& i + bucket.len() + 2 <= s.len()
    &&& s[i] == '/'
    &&& s[i + bucket.len() + 1] == '/'
    &&& forall|j: int| 0 <= j < bucket.len() ==> s[i + 1 + j] == bucket[j]
}

/// What the result of `url::Url::parse` exposes as the URL's path, for the
/// strings it accepts; `None` for strings it rejects.
pub uninterp spec fn url_path_of(s: Seq<char>) -> Option<Seq<char>>;

/// Relies on `url::Url::parse` and `url::Url::path`: parsing either fails or
/// yields a URL whose path is a function of the input string alone.
#[verifier::external_body]
fn parse_url_path(value: &str) -> (r: Option<String>)
    ensures
        r is Some <==> url_path_of(value@) is Some,
        r matches Some(p) ==> url_path_of(value@) == Some(p@),
{
    match url::Url::parse(value) {
        Ok(u) => Some(u.path().to_string()),
        Err(_) => None,
    }
}

/// `s` without its leading `'/'` characters.
pub open spec fn strip_leading_slashes(s: Seq<char>) -> Seq<char>
    decreases s.len(),
{
    if s.len() > 0 && s[0] == '/' {
        strip_leading_slashes(s.subrange(1, s.len() as int))
    } else {
        s
    }
}

/// The bare object key denoted by a stored variant value, which may be a key
/// fragment addressed through `/<bucket>/` or an absolute URL: after the
/// first `/<bucket>/` segment when one occurs, else the parsed URL's path
/// with leading slashes stripped, else nothing.
pub open spec fn resolve_key_spec(s: Seq<char>, bucket: Seq<char>) -> Option<Seq<char>> {
    if exists|i: int| bucket_segment_at(s, bucket, i) {
        let i = first_bucket_segment(s, bucket);
        Some(s.subrange(i + bucket.len() + 2, s.len() as int))
    } else {
        match url_path_of(s) {
            Option::Some(p) => Some(strip_leading_slashes(p)),
            Option::None => None,
        }
    }
}

/// The least index at which `/<bucket>/` occurs.
pub open spec fn first_bucket_segment(s: Seq<char>, bucket: Seq<char>) -> int {
    choose|i: int|
        bucket_segment_at(s, bucket, i) && forall|k: int|
            0 <= k < i ==> !bucket_segment_at(s, bucket, k)
}

proof fn lemma_first_bucket_segment(s: Seq<char>, bucket: Seq<char>, i: int)
    requires
        bucket_segment_at(s, bucket, i),
        forall|k: int| 0 <= k < i ==> !bucket_segment_at(s, bucket, k),
    ensures
        first_bucket_segment(s, bucket) == i,
{
    let w = first_bucket_segment(s, bucket);
    assert(bucket_segment_at(s, bucket, i) && forall|k: int|
        0 <= k < i ==> !bucket_segment_at(s, bucket, k));
    if w < i {
        assert(!bucket_segment_at(s, bucket, w));
    }
    if w > i {
        assert(!bucket_segment_at(s, bucket, i));
    }
}

/// Resolves a stored variant value to a bare object key (see
/// [`resolve_key_spec`]).
pub fn resolve_key(value: &str, bucket: &str) -> (r: Option<String>)
    ensures
        r is Some <==> resolve_key_spec(value@, bucket@) is Some,
        r matches Some(k) ==> resolve_key_spec(value@, bucket@) == Some(k@),
{
    let vlen = value.unicode_len();
    let blen = bucket.unicode_len();
    if vlen >= 2 && blen <= vlen - 2 {
        let limit = vlen - blen - 2;
        let mut i: usize = 0;
        while i <= limit
            invariant
                vlen == value@.len(),
                blen == bucket@.len(),
                blen + 2 <= vlen,
                limit == vlen - blen - 2,
                i <= limit + 1,
                forall|k: int| 0 <= k < i ==> !bucket_segment_at(value@, bucket@, k),
            decreases limit + 1 - i,
        {
            let mut ok: bool = value.get_char(i) == '/' && value.get_char(i + blen + 1) == '/';
            proof {
                if !ok && bucket_segment_at(value@, bucket@, i as int) {
                    assert(false);
                }
            }
            let mut j: usize = 0;
            while ok && j < blen
                invariant
                    vlen == value@.len(),
                    blen == bucket@.len(),
                    i + blen + 2 <= vlen,
                    j <= blen,
                    ok ==> value@[i as int] == '/' && value@[i + blen + 1] == '/',
                    ok ==> forall|t: int| 0 <= t < j ==> value@[i + 1 + t] == bucket@[t],
                    !ok ==> !bucket_segment_at(value@, bucket@, i as int),
                decreases blen - j,
            {
                if value.get_char(i + 1 + j) != bucket.get_char(j) {
                    ok = false;
                    proof {
                        if bucket_segment_at(value@, bucket@, i as int) {
                            assert(false);
                        }
                    }
                }
                j = j + 1;
            }
            if ok {
                proof {
                    assert(bucket_segment_at(value@, bucket@, i as int));
                    lemma_first_bucket_segment(value@, bucket@, i as int);
                }
                let suffix = value.substring_char(i + blen + 2, vlen).to_owned();
                return Some(suffix);
            }
            i = i + 1;
        }
        proof {
            if exists|k: int| bucket_segment_at(value@, bucket@, k) {
                let k = choose|k: int| bucket_segment_at(value@, bucket@, k);
                assert(false);
            }
        }
    }
    proof {
        if exists|k: int| bucket_segment_at(value@, bucket@, k) {
            let k = choose|k: int| bucket_segment_at(value@, bucket@, k);
            assert(k + bucket@.len() + 2 <= value@.len());
            assert(false);
        }
    }
    match parse_url_path(value) {
        Some(path) => {
            let plen = path.as_str().unicode_len();
            let mut start: usize = 0;
            while start < plen && path.as_str().get_char(start) == '/'
                invariant
                    plen == path@.len(),
                    start <= plen,
                    forall|k: int| 0 <= k < start ==> path@[k] == '/',
                decreases plen - start,
            {
                start = start + 1;
            }
            proof {
                lemma_strip_leading(path@, start as int);
            }
            Some(path.as_str().substring_char(start, plen).to_owned())
        },
        None => None,
    }
}

proof fn lemma_strip_leading(s: Seq<char>, start: int)
    requires
        0 <= start <= s.len(),
        forall|k: int| 0 <= k < start ==> s[k] == '/',
        start < s.len() ==> s[start] != '/',
    ensures
        strip_leading_slashes(s) == s.subrange(start, s.len() as int),
    decreases start,
{
    if start == 0 {
        if s.len() > 0 && s[0] == '/' {
            assert(false);
        }
        assert(s.subrange(0, s.len() as int) =~= s);
    } else {
        let t = s.subrange(1, s.len() as int);
        lemma_strip_leading(t, start - 1);
        assert(t.subrange(start - 1, t.len() as int) =~= s.subrange(start, s.len() as int));
    }
}

} // verus!
