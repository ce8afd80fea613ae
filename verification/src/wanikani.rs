//! WaniKani study data: the shapes its origin reports, the counts derived
//! from them, and their cache identity and encoding.

use vstd::prelude::*;

use crate::cacheable::{CacheKey, CachePolicy};
use crate::calendar::{
    spec_rfc3339_millis_utc, today_jst_midnight_in_utc, rfc3339_millis_utc, JST_OFFSET_SECONDS,
    MAX_FORMAT_EPOCH,
};
use crate::codec::FieldCodec;

verus! {

/// One lesson or review queue entry: the subjects it covers.
#[derive(Clone, Debug, PartialEq)]
pub struct Lesson {
    pub subject_ids: Vec<u32>,
}

/// A review queue entry has the same shape as a lesson.
pub type Review = Lesson;

/// The abstract content of a [`Lesson`].
pub struct LessonModel {
    pub subject_ids: Seq<u32>,
}

impl DeepView for Lesson {
    type V = LessonModel;

    open spec fn deep_view(&self) -> LessonModel {
        LessonModel { subject_ids: self.subject_ids.deep_view() }
    }
}

impl Lesson {
    /// How many subjects this entry covers.
    pub fn total_count(&self) -> (r: u32)
        requires
            self.subject_ids@.len() <= u32::MAX,
        ensures
            r == self.subject_ids@.len(),
    {
        self.subject_ids.len() as u32
    }
}

impl FieldCodec for Lesson {
    open spec fn spec_enc_field(self) -> Seq<char> {
        self.subject_ids.spec_enc_field()
    }

    open spec fn spec_dec_field_at(s: Seq<char>, pos: int) -> Option<(LessonModel, int)> {
        match <Vec<u32> as FieldCodec>::spec_dec_field_at(s, pos) {
            Some((ids, j)) => Some((LessonModel { subject_ids: ids }, j)),
            None => None,
        }
    }

    open spec fn spec_field_wf(self) -> bool {
        self.subject_ids.spec_field_wf()
    }

    proof fn lemma_field_round_trip(self, s: Seq<char>, pos: int) {
        self.subject_ids.lemma_field_round_trip(s, pos);
    }

    fn push_field(&self, out: &mut String) {
        self.subject_ids.push_field(out);
    }

    fn read_field(s: &str, len: usize, pos: usize) -> (r: Option<(Lesson, usize)>) {
        match <Vec<u32> as FieldCodec>::read_field(s, len, pos) {
            Some((ids, j)) => Some((Lesson { subject_ids: ids }, j)),
            None => None,
        }
    }
}

/// The subject count of every entry, added up.
pub open spec fn spec_count_sum(entries: Seq<LessonModel>) -> int
    decreases entries.len(),
{
    if entries.len() == 0 {
        0
    } else {
        spec_count_sum(entries.drop_last()) + entries.last().subject_ids.len()
    }
}

/// A prefix of entries never counts more subjects than the whole.
proof fn lemma_count_sum_prefix(entries: Seq<LessonModel>, i: int)
    requires
        0 <= i <= entries.len(),
    ensures
        spec_count_sum(entries.take(i)) <= spec_count_sum(entries),
        spec_count_sum(entries) >= 0,
    decreases entries.len() - i,
{
    if i < entries.len() {
        assert(entries.take(i + 1).drop_last() =~= entries.take(i));
        assert(entries.take(i + 1).last() == entries[i]);
        lemma_count_sum_prefix(entries, i + 1);
    } else {
        assert(entries.take(i) =~= entries);
        lemma_count_sum_nonneg(entries);
    }
}

proof fn lemma_count_sum_nonneg(entries: Seq<LessonModel>)
    ensures
        spec_count_sum(entries) >= 0,
    decreases entries.len(),
{
    if entries.len() > 0 {
        lemma_count_sum_nonneg(entries.drop_last());
    }
}

/// Add up the subject counts of a list of entries.
fn sum_counts(entries: &Vec<Lesson>) -> (r: u32)
    requires
        spec_count_sum(entries.deep_view()) <= u32::MAX,
    ensures
        r == spec_count_sum(entries.deep_view()),
{
    let n = entries.len();
    let mut acc: u32 = 0;
    let mut i: usize = 0;
    proof {
        assert(entries.deep_view().take(0) =~= Seq::<LessonModel>::empty());
    }
    while i < n
        invariant
            i <= n,
            n == entries@.len(),
            entries.deep_view().len() == n,
            spec_count_sum(entries.deep_view()) <= u32::MAX,
            acc == spec_count_sum(entries.deep_view().take(i as int)),
        decreases n - i,
    {
        proof {
            assert(entries.deep_view().take(i + 1).drop_last() =~= entries.deep_view().take(
                i as int,
            ));
            assert(entries.deep_view().take(i + 1).last() == entries.deep_view()[i as int]);
            assert(entries.deep_view()[i as int] == entries@[i as int].deep_view());
            lemma_count_sum_prefix(entries.deep_view(), i + 1);
        }
        let count = entries[i].subject_ids.len();
        acc = acc + (count as u32);
        i = i + 1;
    }
    proof {
        assert(entries.deep_view().take(n as int) =~= entries.deep_view());
    }
    acc
}

/// The lesson and review queues of a WaniKani summary.
#[derive(Clone, Debug, PartialEq)]
pub struct SummaryDataStructure {
    pub lessons: Vec<Lesson>,
    pub reviews: Vec<Review>,
}

/// The abstract content of a [`SummaryDataStructure`].
pub struct SummaryDataModel {
    pub lessons: Seq<LessonModel>,
    pub reviews: Seq<LessonModel>,
}

impl DeepView for SummaryDataStructure {
    type V = SummaryDataModel;

    open spec fn deep_view(&self) -> SummaryDataModel {
        SummaryDataModel { lessons: self.lessons.deep_view(), reviews: self.reviews.deep_view() }
    }
}

impl SummaryDataStructure {
    /// Subjects waiting in all lessons together.
    pub fn total_lessons(&self) -> (r: u32)
        requires
            spec_count_sum(self.deep_view().lessons) <= u32::MAX,
        ensures
            r == spec_count_sum(self.deep_view().lessons),
    {
        sum_counts(&self.lessons)
    }

    /// Subjects in the current active review queue: the first entry of the
    /// review list, or none when no reviews are active.
    pub fn current_reviews(&self) -> (r: u32)
        requires
            self.deep_view().reviews.len() > 0 ==> self.deep_view().reviews[0].subject_ids.len()
                <= u32::MAX,
        ensures
            r == if self.deep_view().reviews.len() > 0 {
                self.deep_view().reviews[0].subject_ids.len() as int
            } else {
                0
            },
    {
        if self.reviews.len() > 0 {
            let first = &self.reviews[0];
            proof {
                assert(self.deep_view().reviews[0] == self.reviews@[0].deep_view());
            }
            first.subject_ids.len() as u32
        } else {
            0
        }
    }
}

impl FieldCodec for SummaryDataStructure {
    open spec fn spec_enc_field(self) -> Seq<char> {
        (self.lessons, self.reviews).spec_enc_field()
    }

    open spec fn spec_dec_field_at(s: Seq<char>, pos: int) -> Option<(SummaryDataModel, int)> {
        match <(Vec<Lesson>, Vec<Lesson>) as FieldCodec>::spec_dec_field_at(s, pos) {
            Some(((lessons, reviews), j)) => Some((SummaryDataModel { lessons, reviews }, j)),
            None => None,
        }
    }

    open spec fn spec_field_wf(self) -> bool {
        (self.lessons, self.reviews).spec_field_wf()
    }

    proof fn lemma_field_round_trip(self, s: Seq<char>, pos: int) {
        (self.lessons, self.reviews).lemma_field_round_trip(s, pos);
    }

    fn push_field(&self, out: &mut String) {
        self.lessons.push_field(out);
        self.reviews.push_field(out);
        proof {
            assert(final (out)@ =~= old(out)@ + self.spec_enc_field());
        }
    }

    fn read_field(s: &str, len: usize, pos: usize) -> (r: Option<(SummaryDataStructure, usize)>) {
        match <(Vec<Lesson>, Vec<Lesson>) as FieldCodec>::read_field(s, len, pos) {
            Some(((lessons, reviews), j)) => Some((SummaryDataStructure { lessons, reviews }, j)),
            None => None,
        }
    }
}

/// The WaniKani summary endpoint's answer: when the data was last updated
/// (epoch seconds), and the lesson and review queues.
#[derive(Clone, Debug, PartialEq)]
pub struct WanikaniSummaryResponse {
    pub data_updated_at: u64,
    pub data: SummaryDataStructure,
}

/// The abstract content of a [`WanikaniSummaryResponse`].
pub struct WanikaniSummaryModel {
    pub data_updated_at: u64,
    pub data: SummaryDataModel,
}

impl DeepView for WanikaniSummaryResponse {
    type V = WanikaniSummaryModel;

    open spec fn deep_view(&self) -> WanikaniSummaryModel {
        WanikaniSummaryModel {
            data_updated_at: self.data_updated_at,
            data: self.data.deep_view(),
        }
    }
}

impl FieldCodec for WanikaniSummaryResponse {
    open spec fn spec_enc_field(self) -> Seq<char> {
        (self.data_updated_at, self.data).spec_enc_field()
    }

    open spec fn spec_dec_field_at(s: Seq<char>, pos: int) -> Option<(WanikaniSummaryModel, int)> {
        match <(u64, SummaryDataStructure) as FieldCodec>::spec_dec_field_at(s, pos) {
            Some(((data_updated_at, data), j)) => Some(
                (WanikaniSummaryModel { data_updated_at, data }, j),
            ),
            None => None,
        }
    }

    open spec fn spec_field_wf(self) -> bool {
        (self.data_updated_at, self.data).spec_field_wf()
    }

    proof fn lemma_field_round_trip(self, s: Seq<char>, pos: int) {
        (self.data_updated_at, self.data).lemma_field_round_trip(s, pos);
    }

    fn push_field(&self, out: &mut String) {
        self.data_updated_at.push_field(out);
        self.data.push_field(out);
        proof {
            assert(final (out)@ =~= old(out)@ + self.spec_enc_field());
        }
    }

    fn read_field(s: &str, len: usize, pos: usize) -> (r: Option<(WanikaniSummaryResponse, usize)>) {
        match <(u64, SummaryDataStructure) as FieldCodec>::read_field(s, len, pos) {
            Some(((data_updated_at, data), j)) => Some(
                (WanikaniSummaryResponse { data_updated_at, data }, j),
            ),
            None => None,
        }
    }
}

impl CachePolicy for WanikaniSummaryResponse {
    open spec fn spec_cache_key() -> CacheKey {
        CacheKey::WanikaniSummary
    }

    open spec fn spec_ttl_seconds() -> u64 {
        3600
    }

    proof fn ttl_in_range() {
    }

    fn cache_key() -> (k: CacheKey) {
        CacheKey::WanikaniSummary
    }

    fn ttl_seconds() -> (t: u64) {
        3600
    }
}

/// Review statistics since the start of the day: how many reviews were
/// completed.
#[derive(Clone, Copy, Debug, PartialEq, Eq, Structural)]
pub struct WanikaniReviewStats {
    pub total_count: u32,
}

impl DeepView for WanikaniReviewStats {
    type V = WanikaniReviewStats;

    open spec fn deep_view(&self) -> WanikaniReviewStats {
        *self
    }
}

impl WanikaniReviewStats {
    /// The daily goal is met once at least one review was completed today.
    pub fn daily_study_goal_met(&self) -> (r: bool)
        ensures
            r == (self.total_count > 0),
    {
        self.total_count > 0
    }
}

impl FieldCodec for WanikaniReviewStats {
    open spec fn spec_enc_field(self) -> Seq<char> {
        self.total_count.spec_enc_field()
    }

    open spec fn spec_dec_field_at(s: Seq<char>, pos: int) -> Option<(WanikaniReviewStats, int)> {
        match <u32 as FieldCodec>::spec_dec_field_at(s, pos) {
            Some((total_count, j)) => Some((WanikaniReviewStats { total_count }, j)),
            None => None,
        }
    }

    open spec fn spec_field_wf(self) -> bool {
        true
    }

    proof fn lemma_field_round_trip(self, s: Seq<char>, pos: int) {
        self.total_count.lemma_field_round_trip(s, pos);
    }

    fn push_field(&self, out: &mut String) {
        self.total_count.push_field(out);
    }

    fn read_field(s: &str, len: usize, pos: usize) -> (r: Option<(WanikaniReviewStats, usize)>) {
        match <u32 as FieldCodec>::read_field(s, len, pos) {
            Some((total_count, j)) => Some((WanikaniReviewStats { total_count }, j)),
            None => None,
        }
    }
}

impl CachePolicy for WanikaniReviewStats {
    open spec fn spec_cache_key() -> CacheKey {
        CacheKey::WanikaniStats
    }

    open spec fn spec_ttl_seconds() -> u64 {
        3600
    }

    proof fn ttl_in_range() {
    }

    fn cache_key() -> (k: CacheKey) {
        CacheKey::WanikaniStats
    }

    fn ttl_seconds() -> (t: u64) {
        3600
    }
}

/// What the frontend is shown for WaniKani: the summary counts together
/// with whether today's study goal was met.
#[derive(Clone, Copy, Debug, PartialEq, Eq, Structural)]
pub struct WanikaniData {
    pub data_updated_at: u64,
    pub active_lesson_count: u32,
    pub active_review_count: u32,
    pub daily_study_goal_met: bool,
}

impl WanikaniData {
    /// Combine a summary and today's review statistics into the frontend
    /// view of this platform.
    pub fn new(summary: WanikaniSummaryResponse, review_stats: WanikaniReviewStats) -> (r:
        WanikaniData)
        requires
            spec_count_sum(summary.deep_view().data.lessons) <= u32::MAX,
            summary.deep_view().data.reviews.len() > 0
                ==> summary.deep_view().data.reviews[0].subject_ids.len() <= u32::MAX,
        ensures
            r.data_updated_at == summary.data_updated_at,
            r.active_lesson_count == spec_count_sum(summary.deep_view().data.lessons),
            r.active_review_count == if summary.deep_view().data.reviews.len() > 0 {
                summary.deep_view().data.reviews[0].subject_ids.len() as int
            } else {
                0
            },
            r.daily_study_goal_met == (review_stats.total_count > 0),
    {
        WanikaniData {
            data_updated_at: summary.data_updated_at,
            active_lesson_count: summary.data.total_lessons(),
            active_review_count: summary.data.current_reviews(),
            daily_study_goal_met: review_stats.daily_study_goal_met(),
        }
    }
}

/// The review-statistics URL for requests made at `now`: it asks only for
/// statistics updated since the current day in Japan began.
pub fn stats_api_url(now: u64) -> (r: String)
    requires
        86400 <= now,
        now + JST_OFFSET_SECONDS <= MAX_FORMAT_EPOCH,
    ensures
        r@ == "https://api.wanikani.com/v2/review_statistics?updated_after="@
            + spec_rfc3339_millis_utc(
            ((now + JST_OFFSET_SECONDS) as int / 86400) * 86400 - JST_OFFSET_SECONDS,
        ),
{
    let cutoff = today_jst_midnight_in_utc(now);
    let mut out: String = "https://api.wanikani.com/v2/review_statistics?updated_after=".to_owned();
    let stamp = rfc3339_millis_utc(cutoff);
    out.append(stamp.as_str());
    out
}

/// A summary answer in the origin's older, richer shape.
#[derive(Clone, Debug, PartialEq)]
pub struct WaniKaniResponse {
    pub object: String,
    pub url: String,
    pub data_updated_at: u64,
    pub data: DataStructure,
}

/// The lesson and review queues of the older summary shape, with the time
/// the next reviews unlock.
#[derive(Clone, Debug, PartialEq)]
pub struct DataStructure {
    pub lessons: Vec<Lesson>,
    pub next_reviews_at: u64,
    pub reviews: Vec<Review>,
}

impl DataStructure {
    /// Subjects in every upcoming review queue together.
    pub fn total_reviews(&self) -> (r: u32)
        requires
            spec_count_sum(self.reviews.deep_view()) <= u32::MAX,
        ensures
            r == spec_count_sum(self.reviews.deep_view()),
    {
        sum_counts(&self.reviews)
    }

    /// Subjects waiting in all lessons together.
    pub fn total_lessons(&self) -> (r: u32)
        requires
            spec_count_sum(self.lessons.deep_view()) <= u32::MAX,
        ensures
            r == spec_count_sum(self.lessons.deep_view()),
    {
        sum_counts(&self.lessons)
    }

    /// Subjects in the current active review queue: the first entry of the
    /// review list, or none when no reviews are active.
    pub fn current_reviews(&self) -> (r: u32)
        requires
            self.reviews.deep_view().len() > 0 ==> self.reviews.deep_view()[0].subject_ids.len()
                <= u32::MAX,
        ensures
            r == if self.reviews.deep_view().len() > 0 {
                self.reviews.deep_view()[0].subject_ids.len() as int
            } else {
                0
            },
    {
        if self.reviews.len() > 0 {
            let first = &self.reviews[0];
            proof {
                assert(self.reviews.deep_view()[0] == self.reviews@[0].deep_view());
            }
            first.subject_ids.len() as u32
        } else {
            0
        }
    }
}

/// The WaniKani counts handed to the frontend as they are.
#[derive(Clone, Copy, Debug, PartialEq, Eq, Structural)]
pub struct WaniKaniDataForFrontend {
    pub data_updated_at: u64,
    pub active_lesson_count: u32,
    pub active_review_count: u32,
}

impl WaniKaniDataForFrontend {
    /// The frontend counts of an older-shape summary answer.
    pub fn from_response(value: &WaniKaniResponse) -> (r: WaniKaniDataForFrontend)
        requires
            spec_count_sum(value.data.lessons.deep_view()) <= u32::MAX,
            value.data.reviews.deep_view().len() > 0 ==> value.data.reviews.deep_view()[0].subject_ids.len()
                <= u32::MAX,
        ensures
            r.data_updated_at == value.data_updated_at,
            r.active_lesson_count == spec_count_sum(value.data.lessons.deep_view()),
            r.active_review_count == if value.data.reviews.deep_view().len() > 0 {
                value.data.reviews.deep_view()[0].subject_ids.len() as int
            } else {
                0
            },
    {
        WaniKaniDataForFrontend {
            data_updated_at: value.data_updated_at,
            active_lesson_count: value.data.total_lessons(),
            active_review_count: value.data.current_reviews(),
        }
    }
}

} // verus!
