//! Request and response shapes of the HTTP surface, pagination arithmetic,
//! and the process configuration.  The I/O edge fills these from the wire
//! and reads plain values back.

use vstd::prelude::*;
use vstd::string::StrSliceExecFns;

verus! {

/// Process-wide configuration, loaded once at startup by the edge and
/// read-only thereafter.
pub struct Config {
    pub database_url: String,
    pub jwt_secret: String,
    pub aws_region: String,
    pub aws_access_key_id: String,
    pub aws_secret_access_key: String,
    pub s3_bucket_name: String,
    pub s3_endpoint: Option<String>,
    pub worker_concurrency: usize,
    pub su_username: Option<String>,
    pub su_password: Option<String>,
}

/// The numeric value of a sequence of ASCII decimal digits.
pub open spec fn decimal_value(s: Seq<char>) -> int
    decreases s.len(),
{
    if s.len() == 0 {
        0
    } else {
        decimal_value(s.drop_last()) * 10 + (s.last() as int - '0' as int)
    }
}

/// A non-empty string of ASCII decimal digits.
pub open spec fn all_digits(s: Seq<char>) -> bool {
    s.len() > 0 && forall|i: int| 0 <= i < s.len() ==> crate::spec_is_digit(s[i])
}

/// The digit part of the setting: an optional single leading `'+'` is
/// accepted, as the standard integer parser accepts it.
pub open spec fn spec_digits_part(s: Seq<char>) -> Seq<char> {
    if s.len() > 0 && s[0] == '+' {
        s.subrange(1, s.len() as int)
    } else {
        s
    }
}

/// The worker-pool width drawn from the raw `WORKER_CONCURRENCY` setting:
/// its decimal value when the string (after an optional leading `'+'`) is
/// all digits and fits in `usize`, else the default of 1.
pub open spec fn spec_worker_concurrency(raw: Option<Seq<char>>) -> int {
    match raw {
        Option::Some(s) => {
            if all_digits(spec_digits_part(s)) && decimal_value(spec_digits_part(s)) <= usize::MAX {
                decimal_value(spec_digits_part(s))
            } else {
                1
            }
        },
        Option::None => 1,
    }
}

/// Parses the worker-concurrency setting, defaulting to 1 when the value is
/// absent, malformed, or out of range.
#[verifier::loop_isolation(false)]
pub fn parse_worker_concurrency(raw: &Option<String>) -> (r: usize)
    ensures
        r == spec_worker_concurrency(
            match raw {
                Option::Some(s) => Option::Some(s@),
                Option::None => Option::None,
            },
        ),
{
    match raw {
        Option::Some(s) => {
            let len = s.as_str().unicode_len();
            if len == 0 {
                return 1;
            }
            let start: usize = if s.as_str().get_char(0) == '+' {
                1
            } else {
                0
            };
            let ghost digits = spec_digits_part(s@);
            proof {
                assert(digits =~= s@.subrange(start as int, len as int));
            }
            if start >= len {
                return 1;
            }
            let mut acc: usize = 0;
            let mut i: usize = start;
            while i < len
                invariant
                    len == s@.len(),
                    start < len,
                    start <= i <= len,
                    forall|k: int| start <= k < i ==> crate::spec_is_digit(s@[k]),
                    acc == decimal_value(s@.subrange(start as int, i as int)),
                decreases len - i,
            {
                let c = s.as_str().get_char(i);
                if c < '0' || c > '9' {
                    proof {
                        assert(digits[i - start] == s@[i as int]);
                        if all_digits(digits) {
                            assert(crate::spec_is_digit(digits[i - start]));
                        }
                    }
                    return 1;
                }
                let d = (c as u32 - 48) as usize;
                if acc > usize::MAX / 10 || (acc == usize::MAX / 10 && d > usize::MAX % 10) {
                    proof {
                        assert(acc * 10 + d > usize::MAX);
                        assert(s@.subrange(start as int, i as int) =~= digits.subrange(
                            0,
                            i - start,
                        ));
                        assert(digits[i - start] == s@[i as int]);
                        lemma_decimal_monotone(digits, i - start);
                    }
                    return 1;
                }
                acc = acc * 10 + d;
                proof {
                    assert(s@.subrange(start as int, i + 1).drop_last() =~= s@.subrange(
                        start as int,
                        i as int,
                    ));
                }
                i = i + 1;
            }
            proof {
                assert(s@.subrange(start as int, len as int) =~= digits);
            }
            acc
        },
        Option::None => 1,
    }
}

/// A longer digit string has at least the value of its prefix scaled past
/// `usize::MAX` whenever the next step would overflow.
proof fn lemma_decimal_monotone(s: Seq<char>, i: int)
    requires
        0 <= i < s.len(),
        forall|k: int| 0 <= k <= i ==> crate::spec_is_digit(s[k]),
        decimal_value(s.subrange(0, i)) * 10 + (s[i] as int - '0' as int) > usize::MAX,
    ensures
        all_digits(s) ==> decimal_value(s) > usize::MAX,
    decreases s.len() - i,
{
    if all_digits(s) {
        lemma_decimal_extend_ge(s, i + 1);
        assert(s.subrange(0, i + 1).drop_last() =~= s.subrange(0, i));
        assert(decimal_value(s.subrange(0, i + 1)) > usize::MAX);
    }
}

/// The value of a digit string is at least the value of any of its prefixes.
proof fn lemma_decimal_extend_ge(s: Seq<char>, n: int)
    requires
        0 <= n <= s.len(),
        forall|k: int| 0 <= k < s.len() ==> crate::spec_is_digit(s[k]),
    ensures
        decimal_value(s) >= decimal_value(s.subrange(0, n)),
        decimal_value(s.subrange(0, n)) >= 0,
    decreases s.len() - n,
{
    lemma_decimal_nonneg(s.subrange(0, n));
    if n < s.len() {
        lemma_decimal_extend_ge(s, n + 1);
        assert(s.subrange(0, n + 1).drop_last() =~= s.subrange(0, n));
        lemma_decimal_nonneg(s.subrange(0, n));
    } else {
        assert(s.subrange(0, n) =~= s);
    }
}

proof fn lemma_decimal_nonneg(s: Seq<char>)
    requires
        forall|k: int| 0 <= k < s.len() ==> crate::spec_is_digit(s[k]),
    ensures
        decimal_value(s) >= 0,
    decreases s.len(),
{
    if s.len() > 0 {
        assert(forall|k: int| 0 <= k < s.drop_last().len() ==> crate::spec_is_digit(
            s.drop_last()[k],
        ));
        lemma_decimal_nonneg(s.drop_last());
    }
}

/// Page selection of a listing request.
pub struct Pagination {
    pub page: Option<u64>,
    pub limit: Option<u64>,
}

/// One page of a listing response.
pub struct PaginatedResponse<T> {
    pub data: Vec<T>,
    pub total_items: u64,
    pub total_pages: u64,
    pub current_page: u64,
    pub page_size: u64,
}

/// Number of pages needed for `total_items` items at `page_size` per page;
/// zero when the page size is zero.
pub open spec fn spec_total_pages(total_items: int, page_size: int) -> int {
    if page_size == 0 {
        0
    } else if total_items % page_size == 0 {
        total_items / page_size
    } else {
        total_items / page_size + 1
    }
}

impl<T> PaginatedResponse<T> {
    pub fn new(data: Vec<T>, total_items: u64, page: u64, page_size: u64) -> (r:
        PaginatedResponse<T>)
        ensures
            r.data == data,
            r.total_items == total_items,
            r.current_page == page,
            r.page_size == page_size,
            r.total_pages == spec_total_pages(total_items as int, page_size as int),
    {
        let total_pages: u64 = if page_size == 0 {
            0
        } else {
            let q = total_items / page_size;
            let rem = total_items % page_size;
            if rem != 0 {
                proof {
                    assert(q < total_items) by (nonlinear_arith)
                        requires
                            page_size >= 1,
                            total_items % page_size != 0,
                            q == total_items / page_size,
                    ;
                }
                q + 1
            } else {
                q
            }
        };
        PaginatedResponse { data, total_items, total_pages, current_page: page, page_size }
    }
}

/// Role of an authenticated dashboard user.
#[derive(PartialEq, Eq, Structural, Clone, Copy, Debug)]
pub enum Role {
    Su,
    Admin,
    User,
}

/// The identity attached to a request after JWT validation.
pub struct AuthUser {
    pub username: String,
    pub role: Role,
}

/// Role names accepted when creating a user.
#[derive(PartialEq, Eq, Structural, Clone, Copy, Debug)]
pub enum UserRole {
    Admin,
    User,
}

impl UserRole {
    /// The stored role for a requested role: user creation can never mint a
    /// superuser.
    pub fn to_role(self) -> (r: Role)
        ensures
            self is Admin ==> r is Admin,
            self is User ==> r is User,
    {
        match self {
            UserRole::Admin => Role::Admin,
            UserRole::User => Role::User,
        }
    }
}

/// The slice of an in-memory listing served for one page: indices from
/// `(page - 1) * limit`, clipped to the listing's length.
pub open spec fn spec_page_bounds(len: int, page: int, limit: int) -> (int, int) {
    let start = if page <= 1 {
        0
    } else {
        (page - 1) * limit
    };
    let start = if start > len {
        len
    } else {
        start
    };
    let end = if start + limit > len {
        len
    } else {
        start + limit
    };
    (start, end)
}

/// Computes the page slice bounds for an in-memory listing.
pub fn page_bounds(len: usize, page: u64, limit: u64) -> (r: (usize, usize))
    ensures
        (r.0 as int, r.1 as int) == spec_page_bounds(len as int, page as int, limit as int),
        r.0 <= r.1 <= len,
{
    let start_wide: u128 = if page <= 1 {
        0
    } else {
        let pm1: u128 = (page - 1) as u128;
        let lw: u128 = limit as u128;
        proof {
            assert(pm1 * lw <= 0xFFFF_FFFF_FFFF_FFFFu128 * 0xFFFF_FFFF_FFFF_FFFFu128)
                by (nonlinear_arith)
                requires
                    pm1 <= 0xFFFF_FFFF_FFFF_FFFFu128,
                    lw <= 0xFFFF_FFFF_FFFF_FFFFu128,
            ;
        }
        pm1 * lw
    };
    let start: usize = if start_wide > (len as u128) {
        len
    } else {
        start_wide as usize
    };
    let end: usize = if (start as u128) + (limit as u128) > (len as u128) {
        len
    } else {
        start + (limit as usize)
    };
    (start, end)
}

/// Whether a user may read or delete a file: the superuser sees
/// everything, anyone else only files of projects they own.
pub open spec fn spec_file_access(role: Role, owner_id: Seq<char>, user_id: Seq<char>) -> bool {
    role is Su || owner_id == user_id
}

/// Decides [`spec_file_access`] for the file endpoints.
pub fn file_access_allowed(role: Role, project_owner_id: &str, user_id: &str) -> (r: bool)
    ensures
        r == spec_file_access(role, project_owner_id@, user_id@),
{
    match role {
        Role::Su => true,
        _ => crate::keys::str_eq(project_owner_id, user_id),
    }
}

pub struct LoginRequest {
    pub username: String,
    pub password: String,
}

pub struct LoginResponse {
    pub access_token: String,
    pub refresh_token: String,
    pub expires_in: usize,
}

pub struct RefreshRequest {
    pub refresh_token: String,
}

pub struct RefreshResponse {
    pub access_token: String,
}

pub struct LogoutRequest {
    pub refresh_token: String,
}

pub struct LogoutResponse {
    pub message: String,
}

pub struct ErrorResponse {
    pub error: String,
}

pub struct RootResponse {
    pub message: String,
    pub version: String,
    pub endpoints: Vec<String>,
}

/// Filter of the job-listing endpoints.
pub struct JobFilter {
    pub status: Option<String>,
    pub pagination: Pagination,
}

/// Query of the file-content endpoint: which variant to redirect to.
pub struct ContentQuery {
    pub variant: Option<String>,
}

/// Query of the project-deletion endpoint.
pub struct DeleteProjectQuery {
    pub permanent: Option<bool>,
}

pub struct CreateUserRequest {
    pub username: String,
    pub password: String,
    pub role: UserRole,
}

pub struct UpdateApiKeyRequest {
    pub is_active: bool,
}

} // verus!
