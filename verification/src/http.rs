//! Asset-host helpers: URL building, retry classification, cache path
//! hygiene and SHA-256 digests.
//!
//! The network and file transfers themselves happen outside; this module
//! holds the decisions around them.

use vstd::prelude::*;
use sha2::{Digest, Sha256};
use crate::text::{chars_of, eq_ignore_ascii_case, eq_ignore_ascii_case_spec, hex_lower, push_char, string_from_chars, to_hex_lower};

verus! {

/// Filename of the registry at the asset host's root.
pub const INDEX_NAME: &'static str = "index.json";

/// Retries after the initial attempt for a single GET (3 tries total).
pub const MAX_RETRIES: usize = 2;

/// Backoff before the first retry, in milliseconds; doubled on each attempt.
pub const RETRY_MIN_DELAY_MS: u64 = 200;

/// Bound on DNS + TCP + TLS connect, in seconds.
pub const CONNECT_TIMEOUT_SECS: u64 = 10;

/// Outcome of a cache-checked fetch.
#[derive(Clone, Copy, Debug, PartialEq, Eq, Structural)]
pub enum FetchOutcome {
    /// The on-disk file already matched the registry `sha256`; no download.
    CacheHit,
    /// The file was (re)downloaded; carries the byte count written.
    Fetched { bytes: usize },
}

/// A fresh download that does not hash to the registry `sha256`: the file
/// is removed and the fetch fails.
#[derive(Clone, Copy, Debug, PartialEq, Eq, Structural)]
pub enum EntryFetchError {
    ChecksumMismatch,
}

/// First step of a cache-checked fetch: a cached file that matches the
/// registry hash is a cache hit and nothing is downloaded; otherwise
/// (`None`) the file is downloaded.
pub fn outcome_before_download(cached_matches: bool) -> (r: Option<FetchOutcome>)
    ensures
        r == if cached_matches {
            Some(FetchOutcome::CacheHit)
        } else {
            None
        },
{
    if cached_matches {
        Some(FetchOutcome::CacheHit)
    } else {
        None
    }
}

/// Second step of a cache-checked fetch, once `bytes` bytes were written: the
/// written file is checked against the registry hash again, and a mismatch
/// fails the fetch (the caller removes the file).
pub fn outcome_after_download(bytes: usize, downloaded_matches: bool) -> (r: Result<
    FetchOutcome,
    EntryFetchError,
>)
    ensures
        r == if downloaded_matches {
            Ok::<FetchOutcome, EntryFetchError>(FetchOutcome::Fetched { bytes })
        } else {
            Err::<FetchOutcome, EntryFetchError>(EntryFetchError::ChecksumMismatch)
        },
{
    if downloaded_matches {
        Ok(FetchOutcome::Fetched { bytes })
    } else {
        Err(EntryFetchError::ChecksumMismatch)
    }
}

/// What went wrong with one GET, as far as retrying is concerned.
#[derive(Clone, Copy, Debug, PartialEq, Eq, Structural)]
pub enum FetchErrorKind {
    /// The server answered with this HTTP status.
    StatusCode(u16),
    Io,
    Timeout,
    ConnectionFailed,
    HostNotFound,
    Protocol,
    /// Anything else (malformed request, body too large, ...).
    Other,
}

/// Transient failures: transport hiccups, 5xx, and the two "back off and
/// retry" 4xx codes (408, 429).
pub open spec fn is_retryable_spec(e: FetchErrorKind) -> bool {
    match e {
        FetchErrorKind::StatusCode(code) => code >= 500 || code == 408 || code == 429,
        FetchErrorKind::Io | FetchErrorKind::Timeout | FetchErrorKind::ConnectionFailed
        | FetchErrorKind::HostNotFound | FetchErrorKind::Protocol => true,
        FetchErrorKind::Other => false,
    }
}

/// Whether a failed fetch is worth retrying.
pub fn is_retryable(error: &FetchErrorKind) -> (r: bool)
    ensures
        r == is_retryable_spec(*error),
{
    match error {
        FetchErrorKind::StatusCode(code) => *code >= 500 || *code == 408 || *code == 429,
        FetchErrorKind::Io | FetchErrorKind::Timeout | FetchErrorKind::ConnectionFailed
        | FetchErrorKind::HostNotFound | FetchErrorKind::Protocol => true,
        FetchErrorKind::Other => false,
    }
}

/// Why a registry-supplied name was refused as a path component.
#[derive(Clone, Copy, Debug, PartialEq, Eq, Structural)]
pub enum ComponentErrorKind {
    /// The name is empty.
    Empty,
    /// The name holds a `/` or `\` separator.
    Separator,
    /// The name is `.` or `..`.
    NotNormal,
}

/// A refused path component, with the caller's label for it.
#[derive(Debug)]
pub struct ComponentError {
    pub kind: ComponentErrorKind,
    pub label: String,
    pub component: String,
}

impl ComponentError {
    /// The error as a sentence, e.g. `"asset is empty"`.
    pub fn message(&self) -> (r: String)
        ensures
            r@ == component_error_message(self.kind, self.label@, self.component@),
    {
        let mut r = string_from_chars(&chars_of(self.label.as_str()));
        match self.kind {
            ComponentErrorKind::Empty => r.append(" is empty"),
            ComponentErrorKind::Separator => {
                r.append(" must be a single path component: ");
                r.append(self.component.as_str());
            },
            ComponentErrorKind::NotNormal => {
                r.append(" must be a safe relative path component: ");
                r.append(self.component.as_str());
            },
        }
        r
    }
}

/// The sentence describing a refused component.
pub open spec fn component_error_message(
    kind: ComponentErrorKind,
    label: Seq<char>,
    component: Seq<char>,
) -> Seq<char> {
    match kind {
        ComponentErrorKind::Empty => label + " is empty"@,
        ComponentErrorKind::Separator => label + " must be a single path component: "@ + component,
        ComponentErrorKind::NotNormal => label + " must be a safe relative path component: "@
            + component,
    }
}

/// `c` holds a `/` or `\`.
pub open spec fn has_separator(c: Seq<char>) -> bool {
    exists|i: int| 0 <= i < c.len() && (#[trigger] c[i] == '/' || c[i] == '\\')
}

/// `c` is `.` or `..`.
pub open spec fn is_dot_name(c: Seq<char>) -> bool {
    c =~= seq!['.'] || c =~= seq!['.', '.']
}

/// Why `c` is not a single normal path component, if it is not.
pub open spec fn component_error_kind(c: Seq<char>) -> Option<ComponentErrorKind> {
    if c.len() == 0 {
        Some(ComponentErrorKind::Empty)
    } else if has_separator(c) {
        Some(ComponentErrorKind::Separator)
    } else if is_dot_name(c) {
        Some(ComponentErrorKind::NotNormal)
    } else {
        None
    }
}

/// `base` joined with the relative component `c`: a `/` goes between them
/// unless `base` is empty or already ends with one.
pub open spec fn join_path(base: Seq<char>, c: Seq<char>) -> Seq<char> {
    if base.len() == 0 || base.last() == '/' {
        base + c
    } else {
        base + seq!['/'] + c
    }
}

/// Why `c` is refused as a path component, or `None` when it is a single
/// normal component.
pub fn component_error(component: &str) -> (r: Option<ComponentErrorKind>)
    ensures
        r == component_error_kind(component@),
{
    let c = chars_of(component);
    let n = c.len();
    if n == 0 {
        return Some(ComponentErrorKind::Empty);
    }
    let mut i: usize = 0;
    while i < n
        invariant
            n == c@.len(),
            c@ == component@,
            i <= n,
            forall|k: int| 0 <= k < i ==> !(c@[k] == '/' || c@[k] == '\\'),
        decreases n - i,
    {
        if c[i] == '/' || c[i] == '\\' {
            return Some(ComponentErrorKind::Separator);
        }
        i += 1;
    }
    if (n == 1 && c[0] == '.') || (n == 2 && c[0] == '.' && c[1] == '.') {
        return Some(ComponentErrorKind::NotNormal);
    }
    proof {
        assert(!(c@ =~= seq!['.']) && !(c@ =~= seq!['.', '.'])) by {
            if c@ =~= seq!['.'] {
                assert(c@[0] == '.');
            }
            if c@ =~= seq!['.', '.'] {
                assert(c@[0] == '.' && c@[1] == '.');
            }
        }
    }
    None
}

/// Joins one untrusted registry component onto a trusted directory.
///
/// Remote metadata carries depot and file *names*, not paths: an empty name,
/// a name with a separator, and `.` / `..` are refused, so every write stays
/// inside the directory the caller chose.
pub fn safe_component_path(base: &str, component: &str, label: &str) -> (r: Result<
    String,
    ComponentError,
>)
    ensures
        r is Ok <==> component_error_kind(component@) is None,
        r matches Ok(p) ==> p@ == join_path(base@, component@),
        r matches Err(e) ==> {
            &&& Some(e.kind) == component_error_kind(component@)
            &&& e.label@ == label@
            &&& e.component@ == component@
        },
{
    match component_error(component) {
        Some(kind) => Err(
            ComponentError {
                kind,
                label: string_from_chars(&chars_of(label)),
                component: string_from_chars(&chars_of(component)),
            },
        ),
        None => Ok(join(base, component)),
    }
}

/// `base` joined with the relative component `c`.
pub fn join(base: &str, c: &str) -> (r: String)
    ensures
        r@ == join_path(base@, c@),
{
    let b = chars_of(base);
    let mut r = string_from_chars(&b);
    if b.len() != 0 && b[b.len() - 1] != '/' {
        push_char(&mut r, '/');
    }
    r.append(c);
    r
}

/// `s` without its leading `/` characters.
pub open spec fn trim_start_slashes(s: Seq<char>) -> Seq<char>
    decreases s.len(),
{
    if s.len() > 0 && s[0] == '/' {
        trim_start_slashes(s.drop_first())
    } else {
        s
    }
}

/// `s` without its trailing `/` characters.
pub open spec fn trim_end_slashes(s: Seq<char>) -> Seq<char>
    decreases s.len(),
{
    if s.len() > 0 && s.last() == '/' {
        trim_end_slashes(s.drop_last())
    } else {
        s
    }
}

/// The host origin with its trailing slashes removed, as kept by the client.
pub fn normalize_base(base: &str) -> (r: String)
    ensures
        r@ == trim_end_slashes(base@),
{
    let c = chars_of(base);
    let mut end = c.len();
    proof {
        assert(c@.take(end as int) =~= base@);
    }
    while end > 0 && c[end - 1] == '/'
        invariant
            end <= c@.len(),
            c@ == base@,
            trim_end_slashes(c@.take(end as int)) == trim_end_slashes(base@),
        decreases end,
    {
        proof {
            assert(c@.take(end as int).drop_last() =~= c@.take(end - 1));
        }
        end -= 1;
    }
    let mut out: Vec<char> = Vec::new();
    let mut i: usize = 0;
    while i < end
        invariant
            end <= c@.len(),
            i <= end,
            out@ == c@.take(i as int),
        decreases end - i,
    {
        out.push(c[i]);
        proof {
            assert(c@.take(i + 1) =~= c@.take(i as int).push(c@[i as int]));
        }
        i += 1;
    }
    proof {
        let t = c@.take(end as int);
        assert(out@ == t);
        assert(trim_end_slashes(t) == t);
    }
    string_from_chars(&out)
}

/// URL of the registry on a host whose normalised origin is `base`.
pub fn index_url(base: &str) -> (r: String)
    ensures
        r@ == base@ + "/"@ + INDEX_NAME@,
{
    let mut r = string_from_chars(&chars_of(base));
    r.append("/");
    r.append(INDEX_NAME);
    r
}

/// URL of the per-depot file `name` under `asset_path` (leading slashes of
/// the asset path are dropped), e.g. `<base>/v1/devices/mx_master_4/front_core.png`.
pub fn file_url(base: &str, asset_path: &str, name: &str) -> (r: String)
    ensures
        r@ == base@ + "/"@ + trim_start_slashes(asset_path@) + name@,
{
    let c = chars_of(asset_path);
    let n = c.len();
    let mut start: usize = 0;
    proof {
        assert(c@.subrange(0, n as int) =~= asset_path@);
    }
    while start < n && c[start] == '/'
        invariant
            n == c@.len(),
            c@ == asset_path@,
            start <= n,
            trim_start_slashes(c@.subrange(start as int, n as int)) == trim_start_slashes(
                asset_path@,
            ),
        decreases n - start,
    {
        proof {
            assert(c@.subrange(start as int, n as int).drop_first() =~= c@.subrange(
                start + 1,
                n as int,
            ));
        }
        start += 1;
    }
    let mut r = string_from_chars(&chars_of(base));
    r.append("/");
    let mut i = start;
    while i < n
        invariant
            n == c@.len(),
            start <= i <= n,
            r@ == base@ + "/"@ + c@.subrange(start as int, i as int),
        decreases n - i,
    {
        push_char(&mut r, c[i]);
        proof {
            assert(c@.subrange(start as int, i + 1) =~= c@.subrange(start as int, i as int).push(
                c@[i as int],
            ));
        }
        i += 1;
    }
    proof {
        let t = c@.subrange(start as int, n as int);
        assert(t.len() == 0 || t[0] != '/');
        assert(trim_start_slashes(t) == t);
    }
    r.append(name);
    r
}

/// Path of the temporary file a download is written to before it replaces
/// `dst`.
pub fn part_path(dst: &str) -> (r: String)
    ensures
        r@ == dst@ + ".part"@,
{
    let mut r = string_from_chars(&chars_of(dst));
    r.append(".part");
    r
}

/// The SHA-256 digest of `data`.
pub uninterp spec fn sha256_spec(data: Seq<u8>) -> Seq<u8>;

/// Calls `sha2::Sha256::digest`; the digest is a function of the data and
/// 32 bytes long.
#[verifier::external_body]
fn sha256_digest(data: &[u8]) -> (r: Vec<u8>)
    ensures
        r@ == sha256_spec(data@),
        r@.len() == 32,
{
    Sha256::digest(data).to_vec()
}

/// Lower-case hex SHA-256 of an in-memory blob.
pub fn sha256_hex(bytes: &[u8]) -> (r: String)
    ensures
        r@ == hex_lower(sha256_spec(bytes@)),
        r@.len() == 64,
{
    let d = sha256_digest(bytes);
    proof {
        crate::text::lemma_hex_lower_len(d@);
    }
    to_hex_lower(d.as_slice())
}

/// Whether a cached file's contents (`None` when the file could not be
/// opened or read) hash to `expected_sha`, comparing the lower-case hex
/// SHA-256 without regard to ASCII case. A missing or unreadable file never
/// matches: the caller re-fetches.
pub fn cached_matches(contents: Option<&[u8]>, expected_sha: &str) -> (r: bool)
    ensures
        r == match contents {
            Some(b) => eq_ignore_ascii_case_spec(hex_lower(sha256_spec(b@)), expected_sha@),
            None => false,
        },
{
    match contents {
        Some(b) => {
            let digest = sha256_hex(b);
            eq_ignore_ascii_case(digest.as_str(), expected_sha)
        },
        None => false,
    }
}

/// An accepted component keeps the joined path inside `base`: the path is
/// `base`, possibly a `/`, then the component, which is non-empty, holds no
/// separator and is neither `.` nor `..`.
pub proof fn lemma_safe_path_stays_inside(base: Seq<char>, c: Seq<char>)
    requires
        component_error_kind(c) is None,
    ensures
        join_path(base, c).subrange(0, base.len() as int) == base,
        join_path(base, c).subrange(join_path(base, c).len() - c.len(), join_path(base, c).len() as int)
            == c,
        c.len() > 0,
        !has_separator(c),
        !is_dot_name(c),
{
    let p = join_path(base, c);
    assert(p.subrange(0, base.len() as int) =~= base);
    assert(p.subrange(p.len() - c.len(), p.len() as int) =~= c);
}

/// Transport failures (I/O, timeout, failed connection, unknown host,
/// protocol error) are transient and always retried, as are server errors
/// and the two "back off" client errors 408 and 429; other client errors,
/// other statuses below 400 and unclassified failures never are.
pub proof fn lemma_retry_classes(code: u16)
    ensures
        400 <= code < 500 && code != 408 && code != 429 ==> !is_retryable_spec(
            FetchErrorKind::StatusCode(code),
        ),
        code >= 500 ==> is_retryable_spec(FetchErrorKind::StatusCode(code)),
        code < 400 ==> !is_retryable_spec(FetchErrorKind::StatusCode(code)),
        is_retryable_spec(FetchErrorKind::StatusCode(408)),
        is_retryable_spec(FetchErrorKind::StatusCode(429)),
        is_retryable_spec(FetchErrorKind::Io),
        is_retryable_spec(FetchErrorKind::Timeout),
        is_retryable_spec(FetchErrorKind::ConnectionFailed),
        is_retryable_spec(FetchErrorKind::HostNotFound),
        is_retryable_spec(FetchErrorKind::Protocol),
        !is_retryable_spec(FetchErrorKind::Other),
{
}

/// Which components are refused, and why: the empty name; any name holding
/// a `/` or a `\`; the names `.` and `..`. Every other name is accepted.
pub proof fn lemma_component_classes(c: Seq<char>, i: int)
    ensures
        component_error_kind(Seq::empty()) == Some(ComponentErrorKind::Empty),
        component_error_kind(seq!['.']) == Some(ComponentErrorKind::NotNormal),
        component_error_kind(seq!['.', '.']) == Some(ComponentErrorKind::NotNormal),
        0 <= i < c.len() && (c[i] == '/' || c[i] == '\\') ==> component_error_kind(c) == Some(
            ComponentErrorKind::Separator,
        ),
        c.len() > 0 && (forall|j: int| 0 <= j < c.len() ==> #[trigger] c[j] != '/' && c[j] != '\\')
            && c != seq!['.'] && c != seq!['.', '.'] ==> component_error_kind(c) is None,
{
    if 0 <= i < c.len() && (c[i] == '/' || c[i] == '\\') {
        assert(has_separator(c));
    }
    let one = seq!['.'];
    let two = seq!['.', '.'];
    assert(!has_separator(one)) by {
        assert(one[0] == '.');
    }
    assert(!has_separator(two)) by {
        assert(one[0] == '.' && two[1] == '.');
    }
}

/// Joining puts exactly one `/` between a non-empty base that does not end
/// in `/` and the component, and nothing between them otherwise.
pub proof fn lemma_join_separator(base: Seq<char>, c: Seq<char>)
    ensures
        base.len() > 0 && base.last() != '/' ==> join_path(base, c).len() == base.len() + 1
            + c.len() && join_path(base, c)[base.len() as int] == '/',
        base.len() == 0 || base.last() == '/' ==> join_path(base, c) == base + c,
        join_path(base, c).subrange(0, base.len() as int) == base,
        join_path(base, c).subrange(join_path(base, c).len() - c.len(), join_path(base, c).len() as int)
            == c,
{
    let p = join_path(base, c);
    assert(p.subrange(0, base.len() as int) =~= base);
    assert(p.subrange(p.len() - c.len(), p.len() as int) =~= c);
}

/// Trimming leading slashes removes exactly the run of `/` at the start: the
/// result is what follows that run, and does not start with `/`.
pub proof fn lemma_trim_start_slashes(s: Seq<char>)
    ensures
        trim_start_slashes(s).len() <= s.len(),
        trim_start_slashes(s) == s.subrange(
            s.len() - trim_start_slashes(s).len(),
            s.len() as int,
        ),
        forall|j: int| 0 <= j < s.len() - trim_start_slashes(s).len() ==> #[trigger] s[j] == '/',
        trim_start_slashes(s).len() == 0 || trim_start_slashes(s)[0] != '/',
    decreases s.len(),
{
    if s.len() > 0 && s[0] == '/' {
        let t = s.drop_first();
        lemma_trim_start_slashes(t);
        let r = trim_start_slashes(t);
        assert(t.subrange(t.len() - r.len(), t.len() as int) =~= s.subrange(
            s.len() - r.len(),
            s.len() as int,
        ));
        assert forall|j: int| 0 <= j < s.len() - r.len() implies #[trigger] s[j] == '/' by {
            if j > 0 {
                assert(s[j] == t[j - 1]);
            }
        }
    } else {
        assert(s.subrange(0, s.len() as int) =~= s);
    }
}

/// Trimming trailing slashes removes exactly the run of `/` at the end: the
/// result is what comes before that run, and does not end with `/`.
pub proof fn lemma_trim_end_slashes(s: Seq<char>)
    ensures
        trim_end_slashes(s).len() <= s.len(),
        trim_end_slashes(s) == s.subrange(0, trim_end_slashes(s).len() as int),
        forall|j: int| trim_end_slashes(s).len() <= j < s.len() ==> #[trigger] s[j] == '/',
        trim_end_slashes(s).len() == 0 || trim_end_slashes(s).last() != '/',
    decreases s.len(),
{
    if s.len() > 0 && s.last() == '/' {
        let t = s.drop_last();
        lemma_trim_end_slashes(t);
        let r = trim_end_slashes(t);
        assert(t.subrange(0, r.len() as int) =~= s.subrange(0, r.len() as int));
        assert forall|j: int| r.len() <= j < s.len() implies #[trigger] s[j] == '/' by {
            if j < t.len() {
                assert(s[j] == t[j]);
            }
        }
    } else {
        assert(s.subrange(0, s.len() as int) =~= s);
    }
}

} // verus!
