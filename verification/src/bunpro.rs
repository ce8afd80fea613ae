//! Bunpro study data: the study queue and review-activity statistics its
//! origin reports, the daily-goal decision, and their cache identity and
//! encoding. Review activity is kept as a list of day-string/count pairs,
//! searched first-match, in place of the origin's map.

use vstd::prelude::*;

use crate::cacheable::{CacheKey, CachePolicy, FetchError};
use crate::calendar::{spec_iso_date, Date};
use crate::codec::FieldCodec;

verus! {

/// The account information the study-queue endpoint reports.
#[derive(Clone, Debug, PartialEq)]
pub struct UserInformation {
    pub username: String,
    pub grammar_point_count: u32,
    pub ghost_review_count: u32,
    pub creation_date: u32,
}

/// The abstract content of a [`UserInformation`].
pub struct UserInformationModel {
    pub username: Seq<char>,
    pub grammar_point_count: u32,
    pub ghost_review_count: u32,
    pub creation_date: u32,
}

impl DeepView for UserInformation {
    type V = UserInformationModel;

    open spec fn deep_view(&self) -> UserInformationModel {
        UserInformationModel {
            username: self.username@,
            grammar_point_count: self.grammar_point_count,
            ghost_review_count: self.ghost_review_count,
            creation_date: self.creation_date,
        }
    }
}

impl FieldCodec for UserInformation {
    open spec fn spec_enc_field(self) -> Seq<char> {
        (
            self.username,
            (self.grammar_point_count, (self.ghost_review_count, self.creation_date)),
        ).spec_enc_field()
    }

    open spec fn spec_dec_field_at(s: Seq<char>, pos: int) -> Option<(UserInformationModel, int)> {
        match <(String, (u32, (u32, u32))) as FieldCodec>::spec_dec_field_at(s, pos) {
            Some(((username, (grammar_point_count, (ghost_review_count, creation_date))), j)) =>
                Some(
                (
                    UserInformationModel {
                        username,
                        grammar_point_count,
                        ghost_review_count,
                        creation_date,
                    },
                    j,
                ),
            ),
            None => None,
        }
    }

    open spec fn spec_field_wf(self) -> bool {
        self.username@.len() <= u64::MAX
    }

    proof fn lemma_field_round_trip(self, s: Seq<char>, pos: int) {
        (
            self.username,
            (self.grammar_point_count, (self.ghost_review_count, self.creation_date)),
        ).lemma_field_round_trip(s, pos);
    }

    fn push_field(&self, out: &mut String) {
        self.username.push_field(out);
        self.grammar_point_count.push_field(out);
        self.ghost_review_count.push_field(out);
        self.creation_date.push_field(out);
        proof {
            assert(final (out)@ =~= old(out)@ + self.spec_enc_field());
        }
    }

    fn read_field(s: &str, len: usize, pos: usize) -> (r: Option<(UserInformation, usize)>) {
        match <(String, (u32, (u32, u32))) as FieldCodec>::read_field(s, len, pos) {
            Some(((username, (grammar_point_count, (ghost_review_count, creation_date))), j)) =>
                Some(
                (
                    UserInformation {
                        username,
                        grammar_point_count,
                        ghost_review_count,
                        creation_date,
                    },
                    j,
                ),
            ),
            None => None,
        }
    }
}

/// The queue counts the study-queue endpoint reports.
#[derive(Clone, Copy, Debug, PartialEq, Eq, Structural)]
pub struct StudyQueueData {
    pub reviews_available: u32,
    pub next_review_date: u32,
    pub reviews_available_next_hour: u32,
    pub reviews_available_next_day: u32,
}

impl DeepView for StudyQueueData {
    type V = StudyQueueData;

    open spec fn deep_view(&self) -> StudyQueueData {
        *self
    }
}

impl FieldCodec for StudyQueueData {
    open spec fn spec_enc_field(self) -> Seq<char> {
        (
            self.reviews_available,
            (
                self.next_review_date,
                (self.reviews_available_next_hour, self.reviews_available_next_day),
            ),
        ).spec_enc_field()
    }

    open spec fn spec_dec_field_at(s: Seq<char>, pos: int) -> Option<(StudyQueueData, int)> {
        match <(u32, (u32, (u32, u32))) as FieldCodec>::spec_dec_field_at(s, pos) {
            Some(((a, (b, (c, d))), j)) => Some(
                (
                    StudyQueueData {
                        reviews_available: a,
                        next_review_date: b,
                        reviews_available_next_hour: c,
                        reviews_available_next_day: d,
                    },
                    j,
                ),
            ),
            None => None,
        }
    }

    open spec fn spec_field_wf(self) -> bool {
        true
    }

    proof fn lemma_field_round_trip(self, s: Seq<char>, pos: int) {
        (
            self.reviews_available,
            (
                self.next_review_date,
                (self.reviews_available_next_hour, self.reviews_available_next_day),
            ),
        ).lemma_field_round_trip(s, pos);
    }

    fn push_field(&self, out: &mut String) {
        self.reviews_available.push_field(out);
        self.next_review_date.push_field(out);
        self.reviews_available_next_hour.push_field(out);
        self.reviews_available_next_day.push_field(out);
        proof {
            assert(final (out)@ =~= old(out)@ + self.spec_enc_field());
        }
    }

    fn read_field(s: &str, len: usize, pos: usize) -> (r: Option<(StudyQueueData, usize)>) {
        match <(u32, (u32, (u32, u32))) as FieldCodec>::read_field(s, len, pos) {
            Some(((a, (b, (c, d))), j)) => Some(
                (
                    StudyQueueData {
                        reviews_available: a,
                        next_review_date: b,
                        reviews_available_next_hour: c,
                        reviews_available_next_day: d,
                    },
                    j,
                ),
            ),
            None => None,
        }
    }
}

/// The study-queue endpoint's whole answer, with the time it was fetched.
#[derive(Clone, Debug, PartialEq)]
pub struct StudyQueue {
    pub user_information: UserInformation,
    pub requested_information: StudyQueueData,
    pub fetched_at: Option<u64>,
}

/// The abstract content of a [`StudyQueue`].
pub struct StudyQueueModel {
    pub user_information: UserInformationModel,
    pub requested_information: StudyQueueData,
    pub fetched_at: Option<u64>,
}

impl DeepView for StudyQueue {
    type V = StudyQueueModel;

    open spec fn deep_view(&self) -> StudyQueueModel {
        StudyQueueModel {
            user_information: self.user_information.deep_view(),
            requested_information: self.requested_information,
            fetched_at: self.fetched_at,
        }
    }
}

impl StudyQueue {
    /// The same answer stamped as fetched at `now`.
    pub fn with_fetched_at(self, now: u64) -> (r: StudyQueue)
        ensures
            r.user_information == self.user_information,
            r.requested_information == self.requested_information,
            r.fetched_at == Some(now),
    {
        StudyQueue { fetched_at: Some(now), ..self }
    }
}

impl FieldCodec for StudyQueue {
    open spec fn spec_enc_field(self) -> Seq<char> {
        (self.user_information, (self.requested_information, self.fetched_at)).spec_enc_field()
    }

    open spec fn spec_dec_field_at(s: Seq<char>, pos: int) -> Option<(StudyQueueModel, int)> {
        match <(UserInformation, (StudyQueueData, Option<u64>)) as FieldCodec>::spec_dec_field_at(
            s,
            pos,
        ) {
            Some(((user_information, (requested_information, fetched_at)), j)) => Some(
                (StudyQueueModel { user_information, requested_information, fetched_at }, j),
            ),
            None => None,
        }
    }

    open spec fn spec_field_wf(self) -> bool {
        self.user_information.spec_field_wf()
    }

    proof fn lemma_field_round_trip(self, s: Seq<char>, pos: int) {
        (self.user_information, (self.requested_information, self.fetched_at)).lemma_field_round_trip(
            s,
            pos,
        );
    }

    fn push_field(&self, out: &mut String) {
        self.user_information.push_field(out);
        self.requested_information.push_field(out);
        self.fetched_at.push_field(out);
        proof {
            assert(final (out)@ =~= old(out)@ + self.spec_enc_field());
        }
    }

    fn read_field(s: &str, len: usize, pos: usize) -> (r: Option<(StudyQueue, usize)>) {
        match <(UserInformation, (StudyQueueData, Option<u64>)) as FieldCodec>::read_field(
            s,
            len,
            pos,
        ) {
            Some(((user_information, (requested_information, fetched_at)), j)) => Some(
                (StudyQueue { user_information, requested_information, fetched_at }, j),
            ),
            None => None,
        }
    }
}

impl CachePolicy for StudyQueue {
    open spec fn spec_cache_key() -> CacheKey {
        CacheKey::Bunpro
    }

    open spec fn spec_ttl_seconds() -> u64 {
        3600
    }

    proof fn ttl_in_range() {
    }

    fn cache_key() -> (k: CacheKey) {
        CacheKey::Bunpro
    }

    fn ttl_seconds() -> (t: u64) {
        3600
    }
}

/// Review activity per day: each entry pairs a `year-month-day` string
/// with the reviews done that day.
#[derive(Clone, Debug, PartialEq)]
pub struct BunproReviewStats {
    pub grammar: Vec<(String, u32)>,
    pub vocab: Vec<(String, u32)>,
}

/// The abstract content of a [`BunproReviewStats`].
pub struct BunproReviewStatsModel {
    pub grammar: Seq<(Seq<char>, u32)>,
    pub vocab: Seq<(Seq<char>, u32)>,
}

impl DeepView for BunproReviewStats {
    type V = BunproReviewStatsModel;

    open spec fn deep_view(&self) -> BunproReviewStatsModel {
        BunproReviewStatsModel { grammar: self.grammar.deep_view(), vocab: self.vocab.deep_view() }
    }
}

/// The count recorded under `key`, first match, zero when absent.
pub open spec fn spec_count_for(entries: Seq<(Seq<char>, u32)>, key: Seq<char>) -> u32
    decreases entries.len(),
{
    if entries.len() == 0 {
        0
    } else if entries[0].0 == key {
        entries[0].1
    } else {
        spec_count_for(entries.drop_first(), key)
    }
}

proof fn lemma_count_for_skip(entries: Seq<(Seq<char>, u32)>, key: Seq<char>, i: int)
    requires
        0 <= i < entries.len(),
        entries[i].0 != key,
    ensures
        spec_count_for(entries.skip(i), key) == spec_count_for(entries.skip(i + 1), key),
{
    assert(entries.skip(i)[0] == entries[i]);
    assert(entries.skip(i).drop_first() =~= entries.skip(i + 1));
}

impl BunproReviewStats {
    /// The grammar reviews done on `date`, zero when the history has no
    /// entry for that day.
    pub fn count_for(&self, date: &Date) -> (r: u32)
        requires
            date.year < 10000,
            date.month < 100,
            date.day < 100,
        ensures
            r == spec_count_for(self.grammar.deep_view(), spec_iso_date(*date)),
    {
        let key = date.iso_string();
        let n = self.grammar.len();
        let mut i: usize = 0;
        proof {
            assert(self.grammar.deep_view().skip(0) =~= self.grammar.deep_view());
            assert(self.grammar.deep_view().len() == n);
        }
        while i < n
            invariant
                i <= n,
                n == self.grammar@.len(),
                n == self.grammar.deep_view().len(),
                key@ == spec_iso_date(*date),
                spec_count_for(self.grammar.deep_view().skip(i as int), spec_iso_date(*date))
                    == spec_count_for(self.grammar.deep_view(), spec_iso_date(*date)),
            decreases n - i,
        {
            proof {
                assert(self.grammar.deep_view()[i as int] == self.grammar@[i as int].deep_view());
            }
            if self.grammar[i].0 == key {
                proof {
                    assert(self.grammar.deep_view().skip(i as int)[0] == self.grammar.deep_view()[
                        i as int
                    ]);
                }
                return self.grammar[i].1;
            }
            proof {
                lemma_count_for_skip(self.grammar.deep_view(), spec_iso_date(*date), i as int);
            }
            i = i + 1;
        }
        proof {
            assert(self.grammar.deep_view().skip(n as int) =~= Seq::<(Seq<char>, u32)>::empty());
        }
        0
    }
}

impl FieldCodec for BunproReviewStats {
    open spec fn spec_enc_field(self) -> Seq<char> {
        (self.grammar, self.vocab).spec_enc_field()
    }

    open spec fn spec_dec_field_at(s: Seq<char>, pos: int) -> Option<(BunproReviewStatsModel, int)> {
        match <(Vec<(String, u32)>, Vec<(String, u32)>) as FieldCodec>::spec_dec_field_at(s, pos) {
            Some(((grammar, vocab), j)) => Some((BunproReviewStatsModel { grammar, vocab }, j)),
            None => None,
        }
    }

    open spec fn spec_field_wf(self) -> bool {
        (self.grammar, self.vocab).spec_field_wf()
    }

    proof fn lemma_field_round_trip(self, s: Seq<char>, pos: int) {
        (self.grammar, self.vocab).lemma_field_round_trip(s, pos);
    }

    fn push_field(&self, out: &mut String) {
        self.grammar.push_field(out);
        self.vocab.push_field(out);
        proof {
            assert(final (out)@ =~= old(out)@ + self.spec_enc_field());
        }
    }

    fn read_field(s: &str, len: usize, pos: usize) -> (r: Option<(BunproReviewStats, usize)>) {
        match <(Vec<(String, u32)>, Vec<(String, u32)>) as FieldCodec>::read_field(s, len, pos) {
            Some(((grammar, vocab), j)) => Some((BunproReviewStats { grammar, vocab }, j)),
            None => None,
        }
    }
}

impl CachePolicy for BunproReviewStats {
    open spec fn spec_cache_key() -> CacheKey {
        CacheKey::BunproStats
    }

    open spec fn spec_ttl_seconds() -> u64 {
        3600
    }

    proof fn ttl_in_range() {
    }

    fn cache_key() -> (k: CacheKey) {
        CacheKey::BunproStats
    }

    fn ttl_seconds() -> (t: u64) {
        3600
    }
}

/// What the frontend is shown for Bunpro.
#[derive(Clone, Debug, PartialEq)]
pub struct BunproData {
    pub data_updated_at: u64,
    pub active_review_count: u32,
    pub daily_study_goal_met: bool,
}

impl BunproData {
    /// Combine the study queue and the review history into the frontend
    /// view: the daily goal is met once any grammar review was done on
    /// the current day in Japan.
    pub fn new(study_queue: StudyQueue, stats: BunproReviewStats, now: u64) -> (r: BunproData)
        requires
            now + crate::calendar::JST_OFFSET_SECONDS <= crate::calendar::MAX_FORMAT_EPOCH,
        ensures
            r.data_updated_at == study_queue.fetched_at.unwrap_or(now),
            r.active_review_count == study_queue.requested_information.reviews_available,
            ({
                let (y, m, d) = crate::calendar::spec_civil_from_epoch_days(
                    (now + crate::calendar::JST_OFFSET_SECONDS) as int / 86400,
                );
                r.daily_study_goal_met == (spec_count_for(
                    stats.grammar.deep_view(),
                    spec_iso_date(
                        Date { year: y as u32, month: m as u32, day: d as u32 },
                    ),
                ) > 0)
            }),
    {
        let today = crate::calendar::date_in_japan(now);
        let todays_stats = stats.count_for(&today);
        let data_updated_at = match study_queue.fetched_at {
            Some(t) => t,
            None => now,
        };
        BunproData {
            data_updated_at,
            active_review_count: study_queue.requested_information.reviews_available,
            daily_study_goal_met: todays_stats > 0,
        }
    }
}

/// The token a cookie search yields, first match by name.
pub open spec fn spec_find_cookie(cookies: Seq<(Seq<char>, Seq<char>)>, name: Seq<char>) -> Option<
    Seq<char>,
>
    decreases cookies.len(),
{
    if cookies.len() == 0 {
        None
    } else if cookies[0].0 == name {
        Some(cookies[0].1)
    } else {
        spec_find_cookie(cookies.drop_first(), name)
    }
}

proof fn lemma_find_cookie_skip(cookies: Seq<(Seq<char>, Seq<char>)>, name: Seq<char>, i: int)
    requires
        0 <= i < cookies.len(),
        cookies[i].0 != name,
    ensures
        spec_find_cookie(cookies.skip(i), name) == spec_find_cookie(cookies.skip(i + 1), name),
{
    assert(cookies.skip(i)[0] == cookies[i]);
    assert(cookies.skip(i).drop_first() =~= cookies.skip(i + 1));
}

/// The frontend session token among a response's cookies: the value of
/// the first cookie named `frontend_api_token`. A missing token is a
/// missing credential, fatal to the fetch.
pub fn frontend_token_from_cookies(cookies: &Vec<(String, String)>) -> (r: Result<
    String,
    FetchError,
>)
    ensures
        match spec_find_cookie(cookies.deep_view(), "frontend_api_token"@) {
            Some(value) => match r {
                Ok(token) => token@ == value,
                Err(_) => false,
            },
            None => match r {
                Ok(_) => false,
                Err(e) => e matches FetchError::MissingCredential(m) && m@
                    == "frontend_api_token cookie could not be found"@,
            },
        },
{
    let name: String = "frontend_api_token".to_owned();
    let n = cookies.len();
    let mut i: usize = 0;
    proof {
        assert(cookies.deep_view().skip(0) =~= cookies.deep_view());
        assert(cookies.deep_view().len() == n);
    }
    while i < n
        invariant
            i <= n,
            n == cookies@.len(),
            n == cookies.deep_view().len(),
            name@ == "frontend_api_token"@,
            spec_find_cookie(cookies.deep_view().skip(i as int), "frontend_api_token"@)
                == spec_find_cookie(cookies.deep_view(), "frontend_api_token"@),
        decreases n - i,
    {
        proof {
            assert(cookies.deep_view()[i as int] == cookies@[i as int].deep_view());
        }
        if cookies[i].0 == name {
            proof {
                assert(cookies.deep_view().skip(i as int)[0] == cookies.deep_view()[i as int]);
            }
            return Ok(cookies[i].1.clone());
        }
        proof {
            lemma_find_cookie_skip(cookies.deep_view(), "frontend_api_token"@, i as int);
        }
        i = i + 1;
    }
    proof {
        assert(cookies.deep_view().skip(n as int) =~= Seq::<(Seq<char>, Seq<char>)>::empty());
    }
    Err(FetchError::MissingCredential("frontend_api_token cookie could not be found".to_owned()))
}

} // verus!
