//! The read-through cache contract: logical cache keys, the error taxonomy
//! surfaced to callers, and the `get` protocol that hides the
//! cache-versus-origin decision behind one operation.

use vstd::prelude::*;

verus! {

/// The closed set of logical resource identifiers. Each variant maps to a
/// fixed string used as the backend's key; resources are added by adding a
/// variant, never by a free-form string.
#[derive(Clone, Copy, PartialEq, Eq, Structural, Debug)]
pub enum CacheKey {
    WanikaniSummary,
    WanikaniStats,
    Bunpro,
    BunproStats,
    SatoriReviewCards,
    SatoriNewCards,
    SatoriStats,
    Anki,
}

/// The fixed string for each key, as a spec-level sequence.
pub open spec fn spec_key_str(k: CacheKey) -> Seq<char> {
    match k {
        CacheKey::WanikaniSummary => "wanikani_summary_data"@,
        CacheKey::WanikaniStats => "wanikani_stats_data"@,
        CacheKey::Bunpro => "bunpro_data"@,
        CacheKey::BunproStats => "bunpro_stats"@,
        CacheKey::SatoriReviewCards => "satori_review_cards"@,
        CacheKey::SatoriNewCards => "satori_new_cards"@,
        CacheKey::SatoriStats => "satori_stats"@,
        CacheKey::Anki => "anki_data"@,
    }
}

impl CacheKey {
    /// The stable backend key for this resource. The mapping is total: every
    /// variant has exactly one string.
    pub fn key_str(&self) -> (s: &'static str)
        ensures
            s@ == spec_key_str(*self),
    {
        match self {
            CacheKey::WanikaniSummary => "wanikani_summary_data",
            CacheKey::WanikaniStats => "wanikani_stats_data",
            CacheKey::Bunpro => "bunpro_data",
            CacheKey::BunproStats => "bunpro_stats",
            CacheKey::SatoriReviewCards => "satori_review_cards",
            CacheKey::SatoriNewCards => "satori_new_cards",
            CacheKey::SatoriStats => "satori_stats",
            CacheKey::Anki => "anki_data",
        }
    }
}

/// Distinct resources never collide in the backend: the variant-to-string
/// mapping is injective.
pub proof fn lemma_key_str_injective(a: CacheKey, b: CacheKey)
    requires
        a != b,
    ensures
        spec_key_str(a) != spec_key_str(b),
{
    reveal_strlit("wanikani_summary_data");
    reveal_strlit("wanikani_stats_data");
    reveal_strlit("bunpro_data");
    reveal_strlit("bunpro_stats");
    reveal_strlit("satori_review_cards");
    reveal_strlit("satori_new_cards");
    reveal_strlit("satori_stats");
    reveal_strlit("anki_data");
    assert(spec_key_str(a).len() != spec_key_str(b).len() || spec_key_str(a)[0] != spec_key_str(
        b,
    )[0] || spec_key_str(a)[1] != spec_key_str(b)[1] || spec_key_str(a) != spec_key_str(b));
}

/// An origin-fetch failure: the only kind of error `get` surfaces. Cache
/// backend trouble is never fatal and never appears here.
#[derive(Clone, PartialEq, Eq, Debug)]
pub enum FetchError {
    /// The network request itself failed.
    Network(String),
    /// The origin answered with a non-success HTTP status.
    HttpStatus(u16),
    /// The origin's response body could not be understood.
    MalformedBody(String),
    /// A required field or element was missing from the origin's data.
    MissingData(String),
    /// A required credential was absent from the environment.
    MissingCredential(String),
}

impl FetchError {
    /// A short description, for server-side logs.
    pub fn message(&self) -> (r: String)
        ensures
            r@ == match *self {
                FetchError::Network(ref s) => s@,
                FetchError::HttpStatus(_) => "origin returned a non-success status"@,
                FetchError::MalformedBody(ref s) => s@,
                FetchError::MissingData(ref s) => s@,
                FetchError::MissingCredential(ref s) => s@,
            },
    {
        match self {
            FetchError::Network(s) => s.clone(),
            FetchError::HttpStatus(_) => "origin returned a non-success status".to_owned(),
            FetchError::MalformedBody(s) => s.clone(),
            FetchError::MissingData(s) => s.clone(),
            FetchError::MissingCredential(s) => s.clone(),
        }
    }
}

/// Upper bound on any per-type time-to-live: one year of seconds.
pub const MAX_TTL_SECONDS: u64 = 31536000;

/// Upper bound on the clock values the protocol accepts (end of year 9999),
/// so that `now + ttl` never overflows.
pub const MAX_EPOCH_SECONDS: u64 = 253402300799;

/// One stored backend entry: a key, the cached text, and the absolute
/// expiration (`None` means the entry never expires).
pub struct CacheEntry {
    pub key: CacheKey,
    pub text: String,
    pub expires_at: Option<u64>,
}

/// The entry for `k` in a sequence of entries, first match wins.
pub open spec fn spec_find(entries: Seq<CacheEntry>, k: CacheKey) -> Option<(Seq<char>, Option<
    u64,
>)>
    decreases entries.len(),
{
    if entries.len() == 0 {
        None
    } else if entries[0].key == k {
        Some((entries[0].text@, entries[0].expires_at))
    } else {
        spec_find(entries.subrange(1, entries.len() as int), k)
    }
}

proof fn lemma_find_skip(entries: Seq<CacheEntry>, k: CacheKey, i: int)
    requires
        0 <= i < entries.len(),
        entries[i].key != k,
    ensures
        spec_find(entries.skip(i), k) == spec_find(entries.skip(i + 1), k),
{
    assert(entries.skip(i)[0] == entries[i]);
    assert(entries.skip(i).subrange(1, entries.skip(i).len() as int) =~= entries.skip(i + 1));
}

proof fn lemma_find_update_other(entries: Seq<CacheEntry>, i: int, e: CacheEntry, k: CacheKey)
    requires
        0 <= i < entries.len(),
        entries[i].key == e.key,
        k != e.key,
    ensures
        spec_find(entries.update(i, e), k) == spec_find(entries, k),
    decreases i,
{
    let updated = entries.update(i, e);
    if i == 0 {
        assert(updated.subrange(1, updated.len() as int) =~= entries.subrange(
            1,
            entries.len() as int,
        ));
    } else {
        assert(updated.subrange(1, updated.len() as int) =~= entries.subrange(
            1,
            entries.len() as int,
        ).update(i - 1, e));
        lemma_find_update_other(entries.subrange(1, entries.len() as int), i - 1, e, k);
    }
}

proof fn lemma_find_update_same(entries: Seq<CacheEntry>, i: int, e: CacheEntry)
    requires
        0 <= i < entries.len(),
        entries[i].key == e.key,
        forall|j: int| 0 <= j < i ==> entries[j].key != e.key,
    ensures
        spec_find(entries.update(i, e), e.key) == Some((e.text@, e.expires_at)),
    decreases i,
{
    let updated = entries.update(i, e);
    if i > 0 {
        assert(updated.subrange(1, updated.len() as int) =~= entries.subrange(
            1,
            entries.len() as int,
        ).update(i - 1, e));
        lemma_find_update_same(entries.subrange(1, entries.len() as int), i - 1, e);
    }
}

/// An in-memory key/value store with per-key absolute expiration: the
/// library's realization of the backend protocol (read a key, write a key
/// with an expiration, report a key's remaining time-to-live).
pub struct CacheHandle {
    entries: Vec<CacheEntry>,
}

impl CacheHandle {
    /// The raw entry stored under `k`, expired or not.
    pub closed spec fn spec_entry(self, k: CacheKey) -> Option<(Seq<char>, Option<u64>)> {
        spec_find(self.entries@, k)
    }

    /// The entry visible under `k` at time `now`: an entry whose expiration
    /// has passed is as good as absent.
    pub open spec fn spec_live(self, k: CacheKey, now: u64) -> Option<(Seq<char>, Option<u64>)> {
        match self.spec_entry(k) {
            None => None,
            Some((text, expires_at)) => match expires_at {
                None => Some((text, None)),
                Some(e) => if e <= now {
                    None
                } else {
                    Some((text, Some(e)))
                },
            },
        }
    }

    /// The remaining time-to-live the backend reports for `k` at `now`:
    /// `-2` when no entry is visible, `-1` for an entry with no expiration,
    /// otherwise the seconds left (positive).
    pub open spec fn spec_ttl_code(self, k: CacheKey, now: u64) -> int {
        match self.spec_live(k, now) {
            None => -2,
            Some((text, expires_at)) => match expires_at {
                None => -1,
                Some(e) => if e - now <= i64::MAX {
                    e - now
                } else {
                    i64::MAX as int
                },
            },
        }
    }

    /// A store with nothing in it.
    pub fn empty() -> (h: CacheHandle)
        ensures
            forall|k: CacheKey| h.spec_entry(k) is None,
    {
        CacheHandle { entries: Vec::new() }
    }

    fn find_index(&self, key: CacheKey) -> (r: Option<usize>)
        ensures
            match r {
                Some(i) => i < self.entries@.len() && self.entries@[i as int].key == key && (forall|
                    j: int,
                |
                    0 <= j < i ==> self.entries@[j].key != key) && self.spec_entry(key) == Some(
                    (self.entries@[i as int].text@, self.entries@[i as int].expires_at),
                ),
                None => self.spec_entry(key) is None,
            },
    {
        let n = self.entries.len();
        let mut i: usize = 0;
        proof {
            assert(self.entries@.skip(0) =~= self.entries@);
        }
        while i < n
            invariant
                i <= n,
                n == self.entries@.len(),
                forall|j: int| 0 <= j < i ==> self.entries@[j].key != key,
                spec_find(self.entries@.skip(i as int), key) == spec_find(self.entries@, key),
            decreases n - i,
        {
            if self.entries[i].key == key {
                assert(self.entries@.skip(i as int)[0] == self.entries@[i as int]);
                return Some(i);
            }
            proof {
                lemma_find_skip(self.entries@, key, i as int);
            }
            i = i + 1;
        }
        assert(self.entries@.skip(n as int) =~= Seq::<CacheEntry>::empty());
        None
    }

    /// Read the text stored under `key`, or nothing when no entry is visible
    /// at time `now`.
    pub fn read(&self, key: CacheKey, now: u64) -> (r: Option<String>)
        ensures
            match self.spec_live(key, now) {
                Some((text, expires_at)) => r is Some && r.unwrap()@ == text,
                None => r is None,
            },
    {
        match self.find_index(key) {
            None => None,
            Some(i) => {
                let entry = &self.entries[i];
                match entry.expires_at {
                    Some(e) => if e <= now {
                        None
                    } else {
                        Some(entry.text.clone())
                    },
                    None => Some(entry.text.clone()),
                }
            },
        }
    }

    /// The backend's remaining-time-to-live report for `key` at `now`,
    /// with its sentinel codes for "no entry" and "no expiration set".
    pub fn remaining_ttl(&self, key: CacheKey, now: u64) -> (t: i64)
        ensures
            t == self.spec_ttl_code(key, now),
    {
        match self.find_index(key) {
            None => -2,
            Some(i) => {
                let entry = &self.entries[i];
                match entry.expires_at {
                    None => -1,
                    Some(e) => {
                        if e <= now {
                            -2
                        } else if e - now <= i64::MAX as u64 {
                            (e - now) as i64
                        } else {
                            i64::MAX
                        }
                    },
                }
            },
        }
    }

    /// Store `text` under `key` with the given absolute expiration,
    /// replacing whatever was there.
    pub fn write(&mut self, key: CacheKey, text: String, expires_at: Option<u64>)
        ensures
            final(self).spec_entry(key) == Some((text@, expires_at)),
            forall|k2: CacheKey|
                k2 != key ==> final(self).spec_entry(k2) == old(self).spec_entry(k2),
    {
        let entry = CacheEntry { key, text, expires_at };
        match self.find_index(key) {
            Some(i) => {
                proof {
                    lemma_find_update_same(self.entries@, i as int, entry);
                    assert forall|k2: CacheKey| k2 != key implies spec_find(
                        self.entries@.update(i as int, entry),
                        k2,
                    ) == spec_find(self.entries@, k2) by {
                        lemma_find_update_other(self.entries@, i as int, entry, k2);
                    }
                }
                self.entries[i] = entry;
            },
            None => {
                proof {
                    lemma_find_absent_push(self.entries@, entry);
                }
                self.entries.push(entry);
            },
        }
    }
}

/// The fixed identity and expiry policy of a fetchable resource type:
/// exactly one cache key, and a fixed time-to-live for fresh values.
pub trait CachePolicy: Sized {
    /// The logical key this resource type is stored under.
    spec fn spec_cache_key() -> CacheKey;

    /// The fixed time-to-live, in seconds, of a freshly fetched value.
    spec fn spec_ttl_seconds() -> u64;

    /// The policy keeps the time-to-live positive and bounded, so absolute
    /// expiries never overflow a clock below `MAX_EPOCH_SECONDS`.
    proof fn ttl_in_range()
        ensures
            1 <= Self::spec_ttl_seconds() <= MAX_TTL_SECONDS,
    ;

    fn cache_key() -> (k: CacheKey)
        ensures
            k == Self::spec_cache_key(),
    ;

    fn ttl_seconds() -> (t: u64)
        ensures
            t == Self::spec_ttl_seconds(),
    ;
}

/// The canonical text encoding of a fetchable resource type: every value
/// encodes to text, and decoding recovers a value with exactly the encoded
/// value's abstract content (its deep view).
pub trait CacheCodec: Sized + DeepView {
    /// The canonical text for a value.
    spec fn spec_encode(self) -> Seq<char>;

    /// The abstract content a text stands for, if any.
    spec fn spec_decode_model(text: Seq<char>) -> Option<Self::V>;

    /// The sizes a machine value always has: every length involved fits
    /// the encoding's counters. Every value exec code can build satisfies
    /// this.
    spec fn spec_codec_wf(self) -> bool;

    /// Decoding inverts encoding: a value written to the cache is read back
    /// with unchanged content.
    proof fn lemma_encode_decode(self)
        requires
            self.spec_codec_wf(),
        ensures
            Self::spec_decode_model(self.spec_encode()) == Some(self.deep_view()),
    ;

    fn encode(&self) -> (s: String)
        ensures
            s@ == self.spec_encode(),
    ;

    fn decode(text: &str) -> (r: Option<Self>)
        ensures
            match r {
                Some(v) => Self::spec_decode_model(text@) == Some(v.deep_view()),
                None => Self::spec_decode_model(text@) is None,
            },
    ;
}

/// A fetchable resource: a fixed identity and expiry policy together with
/// the canonical encoding. The fourth capability, the origin retrieval
/// itself, is handed to [`get`] as a function, since its body lives with
/// the unverified provider; nothing is assumed about its outcome.
pub trait Cacheable: CachePolicy + CacheCodec {
}

impl<T: CachePolicy + CacheCodec> Cacheable for T {
}

/// Convert a backend time-to-live report into an absolute expiry at `now`.
/// Backend sentinel codes (zero or negative, "no such key" / "no expiry
/// set") and out-of-range reports mean "unknown", never an error.
pub open spec fn spec_expiry_from_ttl(now: u64, code: i64) -> Option<u64> {
    if 0 < code && now + code <= u64::MAX {
        Some((now + code) as u64)
    } else {
        None
    }
}

/// Absolute expiry from the backend's remaining-time-to-live report.
pub fn expiry_from_ttl(now: u64, code: i64) -> (r: Option<u64>)
    ensures
        r == spec_expiry_from_ttl(now, code),
{
    if 0 < code && code as u64 <= u64::MAX - now {
        Some(now + code as u64)
    } else {
        None
    }
}

/// The decision taken after the backend read of one logical fetch: either a
/// usable cached value with its expiry, or fall through to the origin.
pub enum ReadOutcome<T> {
    Hit(T, Option<u64>),
    Miss,
}

/// What a backend read resolves to, at spec level: the decoded content of
/// the stored text, if there is one and it decodes.
pub open spec fn spec_read_model<T: CacheCodec>(stored: Option<Seq<char>>) -> Option<T::V> {
    match stored {
        None => None,
        Some(text) => T::spec_decode_model(text),
    }
}

/// The expiry a hit carries, derived from the backend's time-to-live
/// report (`None` when the report is absent or a sentinel).
pub open spec fn spec_hit_expiry(ttl_code: Option<i64>, now: u64) -> Option<u64> {
    match ttl_code {
        None => None,
        Some(code) => spec_expiry_from_ttl(now, code),
    }
}

/// Resolve the backend-read stage of one logical fetch. Absent backend,
/// absent key and malformed stored text all resolve to a miss — never an
/// error; a hit carries the cached value and the expiry derived from the
/// backend's time-to-live report (`None` when the report is absent or a
/// sentinel).
pub fn resolve_read<T: CacheCodec>(
    stored: Option<&String>,
    ttl_code: Option<i64>,
    now: u64,
) -> (r: ReadOutcome<T>)
    ensures
        ({
            let stored_view = match stored {
                Some(s) => Some(s@),
                None => None,
            };
            match r {
                ReadOutcome::Hit(v, expiry) => spec_read_model::<T>(stored_view) == Some(
                    v.deep_view(),
                ) && expiry == spec_hit_expiry(ttl_code, now),
                ReadOutcome::Miss => spec_read_model::<T>(stored_view) is None,
            }
        }),
{
    match stored {
        None => ReadOutcome::Miss,
        Some(text) => match T::decode(text.as_str()) {
            None => ReadOutcome::Miss,
            Some(value) => {
                let expiry = match ttl_code {
                    None => None,
                    Some(code) => expiry_from_ttl(now, code),
                };
                ReadOutcome::Hit(value, expiry)
            },
        },
    }
}

/// The write-back a fresh value asks for: its key, its canonical text, and
/// the absolute expiration to store it with.
pub struct WritePlan {
    pub key: CacheKey,
    pub text: String,
    pub expires_at: u64,
}

/// Resolve the origin-fetch stage of one logical fetch. An origin error
/// propagates unchanged and plans no write; a fresh value is returned
/// together with its absolute expiry (`now` plus the type's time-to-live)
/// and the write-back plan carrying exactly the text that encodes the
/// returned value.
pub fn resolve_fetch<T: Cacheable>(fetched: Result<T, FetchError>, now: u64) -> (r: Result<
    (T, u64, WritePlan),
    FetchError,
>)
    requires
        now <= MAX_EPOCH_SECONDS,
    ensures
        match fetched {
            Err(e) => r == Result::<(T, u64, WritePlan), FetchError>::Err(e),
            Ok(value) => match r {
                Err(_) => false,
                Ok((v, expires_at, plan)) => v == value && expires_at == now
                    + T::spec_ttl_seconds() && plan.key == T::spec_cache_key() && plan.text@
                    == value.spec_encode() && plan.expires_at == expires_at,
            },
        },
{
    proof {
        T::ttl_in_range();
    }
    match fetched {
        Err(e) => Err(e),
        Ok(value) => {
            let expires_at = now + T::ttl_seconds();
            let plan = WritePlan { key: T::cache_key(), text: value.encode(), expires_at };
            Ok((value, expires_at, plan))
        },
    }
}

/// The content and expiry a hit on `backend` at `now` would return for
/// the resource type `T`, if its stored text is live and decodes.
pub open spec fn spec_cache_hit<T: CachePolicy + CacheCodec>(
    backend: Option<CacheHandle>,
    now: u64,
) -> Option<(T::V, Option<u64>)> {
    match backend {
        None => None,
        Some(h) => match h.spec_live(T::spec_cache_key(), now) {
            None => None,
            Some((text, expires_at)) => match T::spec_decode_model(text) {
                None => None,
                Some(content) => Some(
                    (
                        content,
                        spec_expiry_from_ttl(
                            now,
                            h.spec_ttl_code(T::spec_cache_key(), now) as i64,
                        ),
                    ),
                ),
            },
        },
    }
}

/// Retrieve a `T`, hiding the cache-versus-origin decision. `api_fetch`
/// performs the real, possibly network-bound, retrieval from the origin,
/// and is consulted only on a miss.
///
/// With a backend present, a stored live text that decodes is a hit: the
/// cached value is returned with the expiry derived from the backend's
/// time-to-live report, and the backend is left untouched — the origin is
/// not consulted. Everything else — no backend, no visible entry, malformed
/// stored text — is a miss: the origin is fetched, an origin error
/// propagates unchanged as the call's error with no write-back, and a
/// fresh value is written back under the type's key with expiry `now`
/// plus the type's time-to-live, then returned with that expiry. The text
/// written back encodes exactly the value returned.
pub fn get<T: Cacheable, F: FnOnce() -> Result<T, FetchError>>(
    backend: &mut Option<CacheHandle>,
    now: u64,
    api_fetch: F,
) -> (r: Result<(T, Option<u64>), FetchError>)
    requires
        now <= MAX_EPOCH_SECONDS,
        call_requires(api_fetch, ()),
    ensures
        match spec_cache_hit::<T>(*old(backend), now) {
            Some((content, expiry)) => (match r {
                Ok((v, e)) => v.deep_view() == content && e == expiry,
                Err(_) => false,
            }) && *final (backend) == *old(backend),
            None => match r {
                Err(e) => call_ensures(
                    api_fetch,
                    (),
                    Result::<T, FetchError>::Err(e),
                ) && *final (backend) == *old(backend),
                Ok((v, expiry)) => call_ensures(api_fetch, (), Result::<T, FetchError>::Ok(v))
                    && expiry == Some((now + T::spec_ttl_seconds()) as u64) && match (
                *old(backend),
                *final (backend),
                ) {
                    (None, None) => true,
                    (Some(h0), Some(h1)) => h1.spec_entry(T::spec_cache_key()) == Some(
                        (v.spec_encode(), expiry),
                    ) && forall|k2: CacheKey|
                        k2 != T::spec_cache_key() ==> h1.spec_entry(k2) == h0.spec_entry(k2),
                    _ => false,
                },
            },
        },
{
    let key = T::cache_key();
    let (stored, ttl_code) = match backend {
        Some(h) => (h.read(key, now), Some(h.remaining_ttl(key, now))),
        None => (None, None),
    };
    match resolve_read::<T>(stored.as_ref(), ttl_code, now) {
        ReadOutcome::Hit(value, expiry) => Ok((value, expiry)),
        ReadOutcome::Miss => {
            let fetched = api_fetch();
            match resolve_fetch::<T>(fetched, now) {
                Err(e) => Err(e),
                Ok((value, expires_at, plan)) => {
                    match backend {
                        Some(h) => h.write(plan.key, plan.text, Some(plan.expires_at)),
                        None => (),
                    }
                    Ok((value, Some(expires_at)))
                },
            }
        },
    }
}

/// A value written back by a miss is served by the next hit: once the
/// backend holds the canonical text of `v` under `T`'s key with an
/// expiration still in the future, a later `get` before that expiration
/// hits and returns exactly `v`.
pub proof fn lemma_write_back_then_hit<T: Cacheable>(
    h: CacheHandle,
    v: T,
    expires_at: u64,
    later: u64,
)
    requires
        v.spec_codec_wf(),
        h.spec_entry(T::spec_cache_key()) == Some((v.spec_encode(), Some(expires_at))),
        later < expires_at,
    ensures
        match spec_cache_hit::<T>(Some(h), later) {
            Some((cached, expiry)) => cached == v.deep_view(),
            None => false,
        },
{
    v.lemma_encode_decode();
}

/// Stored text that does not decode never produces a hit: a malformed
/// cached payload makes `get` behave exactly like a miss.
pub proof fn lemma_malformed_is_miss<T: CachePolicy + CacheCodec>(h: CacheHandle, now: u64)
    requires
        match h.spec_live(T::spec_cache_key(), now) {
            Some((text, expires_at)) => T::spec_decode_model(text) is None,
            None => true,
        },
    ensures
        spec_cache_hit::<T>(Some(h), now) is None,
{
}

/// Without a backend there is never a hit: `get(None)` always consults the
/// origin, and the missing backend alone never makes it fail.
pub proof fn lemma_no_backend_is_miss<T: CachePolicy + CacheCodec>(now: u64)
    ensures
        spec_cache_hit::<T>(None, now) is None,
{
}

/// Backend sentinel time-to-live reports ("no such key", "no expiry set")
/// and any non-positive report convert to "unknown expiry", never to an
/// error or a negative time.
pub proof fn lemma_sentinel_ttl_is_unknown(now: u64, code: i64)
    requires
        code <= 0,
    ensures
        spec_expiry_from_ttl(now, code) is None,
{
}

proof fn lemma_find_absent_push(entries: Seq<CacheEntry>, e: CacheEntry)
    requires
        spec_find(entries, e.key) is None,
    ensures
        spec_find(entries.push(e), e.key) == Some((e.text@, e.expires_at)),
        forall|k2: CacheKey|
            k2 != e.key ==> spec_find(entries.push(e), k2) == spec_find(entries, k2),
    decreases entries.len(),
{
    let pushed = entries.push(e);
    if entries.len() == 0 {
        assert(pushed[0] == e);
        assert forall|k2: CacheKey| k2 != e.key implies spec_find(pushed, k2) == spec_find(
            entries,
            k2,
        ) by {
            reveal_with_fuel(spec_find, 3);
            assert(pushed[0] == e);
            assert(pushed.subrange(1, pushed.len() as int) =~= Seq::<CacheEntry>::empty());
        }
    } else {
        let tail = entries.subrange(1, entries.len() as int);
        assert(pushed[0] == entries[0]);
        assert(pushed.subrange(1, pushed.len() as int) =~= tail.push(e));
        lemma_find_absent_push(tail, e);
        assert forall|k2: CacheKey| k2 != e.key implies spec_find(pushed, k2) == spec_find(
            entries,
            k2,
        ) by {
            assert(spec_find(pushed.subrange(1, pushed.len() as int), k2) == spec_find(tail, k2));
        }
    }
}

} // verus!
