//! The cache layer: a fingerprint of the compiled SQL as the cache key, and
//! the decisions of one request's lookup → execute → store sequence.
use vstd::prelude::*;
use vstd::utf8::encode_utf8;
use crate::config::CachingConfig;
use crate::error::PersistenceError;

verus! {

/// Whether a non-ASCII character is alphanumeric in Unicode's sense (it has
/// the Alphabetic or the Numeric property).
pub uninterp spec fn non_ascii_alphanumeric(c: char) -> bool;

/// ASCII letters and digits.
pub open spec fn ascii_alphanumeric(c: char) -> bool {
    ('a' <= c && c <= 'z') || ('A' <= c && c <= 'Z') || ('0' <= c && c <= '9')
}

/// Whether `c` is alphabetic or numeric: among ASCII characters exactly the
/// letters and digits.
pub open spec fn alphanumeric(c: char) -> bool {
    if (c as u32) < 128 {
        ascii_alphanumeric(c)
    } else {
        non_ascii_alphanumeric(c)
    }
}

/// Relies on `char::is_alphanumeric`: whether the character is alphabetic or
/// numeric, which among ASCII characters holds of letters and digits only.
pub assume_specification[ char::is_alphanumeric ](c: char) -> (r: bool)
    ensures
        r == if (c as u32) < 128 {
            ascii_alphanumeric(c)
        } else {
            non_ascii_alphanumeric(c)
        },
;

/// The SHA-256 digest of a byte sequence.
pub uninterp spec fn sha256_of(data: Seq<u8>) -> Seq<u8>;

/// Relies on sha2's `Sha256::digest`: the SHA-256 digest of `data`, whose
/// output size is 32 bytes.
#[verifier::external_body]
fn sha256_digest(data: &[u8]) -> (r: Vec<u8>)
    ensures
        r@ == sha256_of(data@),
        r@.len() == 32,
{
    <sha2::Sha256 as sha2::Digest>::digest(data).to_vec()
}

/// The lowercase hexadecimal digit of `n` (below 16).
pub open spec fn hex_digit(n: u8) -> char {
    if n < 10 {
        ((48 + n) as u8) as char
    } else {
        ((87 + n) as u8) as char
    }
}

/// Two lowercase hexadecimal digits per byte, the high nibble first.
pub open spec fn hex_text(bytes: Seq<u8>) -> Seq<char> {
    Seq::new(
        2 * bytes.len(),
        |i: int|
            if i % 2 == 0 {
                hex_digit(bytes[i / 2] / 16)
            } else {
                hex_digit(bytes[i / 2] % 16)
            },
    )
}

/// Relies on hex's `encode`: each byte as two lowercase hexadecimal digits,
/// the high nibble first.
#[verifier::external_body]
fn hex_encode(bytes: &[u8]) -> (r: String)
    ensures
        r@ == hex_text(bytes@),
{
    hex::encode(bytes)
}

/// The longest cache key the cache service accepts.
pub const MAX_KEY_LENGTH: usize = 249;

/// The alphanumeric characters of a query, in order.
pub open spec fn sanitized(q: Seq<char>) -> Seq<char> {
    q.filter(|c: char| alphanumeric(c))
}

/// At most the first `MAX_KEY_LENGTH` characters of `s`.
pub open spec fn key_prefix(s: Seq<char>) -> Seq<char> {
    if s.len() <= MAX_KEY_LENGTH {
        s
    } else {
        s.take(MAX_KEY_LENGTH as int)
    }
}

/// The cache key of a query: the hex SHA-256 digest of the UTF-8 bytes of its
/// alphanumeric characters, cut to the key length limit.
pub open spec fn fingerprint(q: Seq<char>) -> Seq<char> {
    key_prefix(hex_text(sha256_of(encode_utf8(sanitized(q)))))
}

/// The query reduced to its alphanumeric characters.
pub fn sanitize_query(query: &str) -> (r: String)
    ensures
        r@ == sanitized(query@),
{
    let n = query.unicode_len();
    let mut out = String::new();
    let mut i: usize = 0;
    while i < n
        invariant
            n == query@.len(),
            i <= n,
            out@ == query@.take(i as int).filter(|c: char| alphanumeric(c)),
        decreases n - i,
    {
        let c = query.get_char(i);
        if c.is_alphanumeric() {
            out.push(c);
        }
        proof {
            reveal(Seq::filter);
            assert(query@.take(i + 1).drop_last() =~= query@.take(i as int));
        }
        i = i + 1;
    }
    proof {
        assert(query@.take(n as int) =~= query@);
    }
    out
}

/// The cache key of `query`.
pub fn hash_query_to_unique_id(query: &str) -> (r: String)
    ensures
        r@ == fingerprint(query@),
{
    let sanitized_query = sanitize_query(query);
    let digest = sha256_digest(sanitized_query.as_str().as_bytes());
    let hex_hash = hex_encode(digest.as_slice());
    let len = hex_hash.as_str().unicode_len();
    if len <= MAX_KEY_LENGTH {
        hex_hash
    } else {
        String::from_str(hex_hash.as_str().substring_char(0, MAX_KEY_LENGTH))
    }
}

/// Whether `c` is a layout character: space, tab, line feed, carriage return.
pub open spec fn is_layout(c: char) -> bool {
    c == ' ' || c == '\t' || c == '\n' || c == '\r'
}

/// `q` without its layout characters.
pub open spec fn without_layout(q: Seq<char>) -> Seq<char> {
    q.filter(|c: char| !is_layout(c))
}

proof fn lemma_filter_within(s: Seq<char>, p: spec_fn(char) -> bool, q: spec_fn(char) -> bool)
    requires
        forall|c: char| #[trigger] p(c) ==> q(c),
    ensures
        s.filter(p) == s.filter(q).filter(p),
    decreases s.len(),
{
    reveal(Seq::filter);
    if s.len() > 0 {
        lemma_filter_within(s.drop_last(), p, q);
        let fq = s.drop_last().filter(q);
        if q(s.last()) {
            assert(fq.push(s.last()).drop_last() =~= fq);
        }
    }
}

/// Two queries that differ only in layout (spaces, tabs, line breaks) have
/// the same fingerprint, and so share one cache entry.
pub proof fn lemma_fingerprint_ignores_layout(a: Seq<char>, b: Seq<char>)
    requires
        without_layout(a) == without_layout(b),
    ensures
        fingerprint(a) == fingerprint(b),
{
    let p = |c: char| alphanumeric(c);
    let q = |c: char| !is_layout(c);
    assert forall|c: char| #[trigger] p(c) implies q(c) by {}
    lemma_filter_within(a, p, q);
    lemma_filter_within(b, p, q);
    assert(sanitized(a) == sanitized(b));
}

/// Where a request stands in its lookup → execute → store sequence.
#[derive(Debug, Clone, Copy, PartialEq, Eq)]
pub enum Phase {
    Idle,
    LookingUp,
    Executing,
    Storing,
    Done,
}

/// What the surrounding service reports to a session.
#[derive(Debug, Clone)]
pub enum CacheEvent {
    /// The request starts.
    Start,
    /// The cache held a payload for the key and it decoded.
    CacheHit,
    /// The cache held nothing usable: no entry, no service, or a payload that
    /// did not decode.
    CacheMiss,
    /// The backend returned the result set.
    QuerySucceeded,
    /// The backend failed, with the driver's message.
    QueryFailed(String),
    /// The store attempt ended, whatever its outcome.
    Stored,
}

/// What a session asks the surrounding service to do next.
#[derive(Debug, Clone)]
pub enum CacheAction {
    /// Read the cache entry under this key.
    Lookup(String),
    /// Run the statement on the backend.
    Execute,
    /// Store the fresh result under this key, expiring after this many seconds.
    Store(String, u32),
    /// Answer with the decoded cached result.
    ReplyCached,
    /// Answer with the fresh result.
    ReplyFresh,
    /// Answer with this failure.
    Fail(PersistenceError),
}

/// The decisions of one request: whether to consult and fill the cache, and
/// when to answer.
#[derive(Debug, Clone)]
pub struct CacheSession {
    /// Caching is enabled and a cache service is at hand.
    pub enabled: bool,
    /// The fingerprint of the request's statement.
    pub key: String,
    /// The expiry, in seconds, of what this request stores.
    pub expiry: u32,
    pub phase: Phase,
}

/// The kinds of [`CacheAction`].
#[derive(Debug, Clone, Copy, PartialEq, Eq)]
pub enum Step {
    Lookup,
    Execute,
    Store,
    ReplyCached,
    ReplyFresh,
    FailBackend,
    FailUnexpected,
}

/// The kind of an action.
pub open spec fn step_of(a: CacheAction) -> Step {
    match a {
        CacheAction::Lookup(_) => Step::Lookup,
        CacheAction::Execute => Step::Execute,
        CacheAction::Store(_, _) => Step::Store,
        CacheAction::ReplyCached => Step::ReplyCached,
        CacheAction::ReplyFresh => Step::ReplyFresh,
        CacheAction::Fail(PersistenceError::BackendExecutionError(_)) => Step::FailBackend,
        CacheAction::Fail(_) => Step::FailUnexpected,
    }
}

/// The next phase and step from `phase` on `event`. With the cache off
/// there is no lookup and no store; a hit answers without running the
/// backend; a miss runs it; a backend failure fails the request; any event
/// out of sequence ends the request as an unexpected failure.
pub open spec fn transition(phase: Phase, enabled: bool, event: CacheEvent) -> (Phase, Step) {
    match (phase, event) {
        (Phase::Idle, CacheEvent::Start) => if enabled {
            (Phase::LookingUp, Step::Lookup)
        } else {
            (Phase::Executing, Step::Execute)
        },
        (Phase::LookingUp, CacheEvent::CacheHit) => (Phase::Done, Step::ReplyCached),
        (Phase::LookingUp, CacheEvent::CacheMiss) => (Phase::Executing, Step::Execute),
        (Phase::Executing, CacheEvent::QuerySucceeded) => if enabled {
            (Phase::Storing, Step::Store)
        } else {
            (Phase::Done, Step::ReplyFresh)
        },
        (Phase::Executing, CacheEvent::QueryFailed(_)) => (Phase::Done, Step::FailBackend),
        (Phase::Storing, CacheEvent::Stored) => (Phase::Done, Step::ReplyFresh),
        _ => (Phase::Done, Step::FailUnexpected),
    }
}

impl CacheSession {
    /// A session for the statement `sql`: the cache takes part only when it is
    /// enabled and a cache service is at hand.
    pub fn new(caching: &CachingConfig, has_client: bool, sql: &str) -> (r: CacheSession)
        ensures
            r.enabled == (caching.cache_enabled && has_client),
            r.key@ == fingerprint(sql@),
            r.expiry == caching.cache_expiry,
            r.phase == Phase::Idle,
    {
        CacheSession {
            enabled: caching.cache_enabled && has_client,
            key: hash_query_to_unique_id(sql),
            expiry: caching.cache_expiry,
            phase: Phase::Idle,
        }
    }

    /// Takes in what happened and says what to do next.
    pub fn step(&mut self, event: CacheEvent) -> (r: CacheAction)
        ensures
            final(self).enabled == old(self).enabled,
            final(self).key == old(self).key,
            final(self).expiry == old(self).expiry,
            (final(self).phase, step_of(r)) == transition(old(self).phase, old(self).enabled, event),
            r matches CacheAction::Lookup(k) ==> k@ == old(self).key@,
            r matches CacheAction::Store(k, e) ==> k@ == old(self).key@ && e == old(self).expiry,
            step_of(r) == Step::FailUnexpected ==> r matches CacheAction::Fail(PersistenceError::Unknown),
            match event {
                CacheEvent::QueryFailed(m) => old(self).phase == Phase::Executing ==> (r matches CacheAction::Fail(
                    PersistenceError::BackendExecutionError(msg),
                ) && msg@ == m@),
                _ => true,
            },
    {
        match (self.phase, event) {
            (Phase::Idle, CacheEvent::Start) => {
                if self.enabled {
                    self.phase = Phase::LookingUp;
                    CacheAction::Lookup(self.key.clone())
                } else {
                    self.phase = Phase::Executing;
                    CacheAction::Execute
                }
            },
            (Phase::LookingUp, CacheEvent::CacheHit) => {
                self.phase = Phase::Done;
                CacheAction::ReplyCached
            },
            (Phase::LookingUp, CacheEvent::CacheMiss) => {
                self.phase = Phase::Executing;
                CacheAction::Execute
            },
            (Phase::Executing, CacheEvent::QuerySucceeded) => {
                if self.enabled {
                    self.phase = Phase::Storing;
                    CacheAction::Store(self.key.clone(), self.expiry)
                } else {
                    self.phase = Phase::Done;
                    CacheAction::ReplyFresh
                }
            },
            (Phase::Executing, CacheEvent::QueryFailed(message)) => {
                self.phase = Phase::Done;
                CacheAction::Fail(PersistenceError::BackendExecutionError(message))
            },
            (Phase::Storing, CacheEvent::Stored) => {
                self.phase = Phase::Done;
                CacheAction::ReplyFresh
            },
            _ => {
                self.phase = Phase::Done;
                CacheAction::Fail(PersistenceError::Unknown)
            },
        }
    }
}

/// A result stored by a request for `sql` is what a later request for the
/// same `sql` reads: both use the key `fingerprint(sql)`, so in any cache
/// contents, a store followed by a lookup of the same statement finds the
/// stored payload.
pub proof fn lemma_store_then_lookup(cache: Map<Seq<char>, Seq<u8>>, sql: Seq<char>, payload: Seq<u8>)
    ensures
        cache.insert(fingerprint(sql), payload).contains_key(fingerprint(sql)),
        cache.insert(fingerprint(sql), payload)[fingerprint(sql)] == payload,
{
}

} // verus!
