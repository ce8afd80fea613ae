//! Satori Reader study data: review and new-card counts, the dashboard
//! heat map, and their cache identity and encoding. Heat scores are held
//! in thousandths, so the level thresholds stay exact integers.

use vstd::prelude::*;

use crate::cacheable::{CacheKey, CachePolicy, FetchError};
use crate::codec::{push_decimal, spec_decimal, FieldCodec};

verus! {

/// A day's activity level on the dashboard heat map, coarsest first.
#[derive(Clone, Copy, Debug, PartialEq, Eq, Structural)]
pub enum SatoriHeatLevel {
    Zero,
    One,
    Two,
    Three,
    Four,
}

/// The error a heat-map class name that names no level converts to.
#[derive(Clone, Copy, Debug, PartialEq, Eq, Structural)]
pub struct InvalidHeatLevel {}

/// The numeric tag a heat level is encoded as.
pub open spec fn spec_heat_tag(level: SatoriHeatLevel) -> u32 {
    match level {
        SatoriHeatLevel::Zero => 0,
        SatoriHeatLevel::One => 1,
        SatoriHeatLevel::Two => 2,
        SatoriHeatLevel::Three => 3,
        SatoriHeatLevel::Four => 4,
    }
}

impl DeepView for SatoriHeatLevel {
    type V = SatoriHeatLevel;

    open spec fn deep_view(&self) -> SatoriHeatLevel {
        *self
    }
}

impl SatoriHeatLevel {
    /// The level a dashboard CSS class name stands for, from `"heat0"` up
    /// to `"heat4"`; any other name is invalid.
    pub fn from_class_name(value: &str) -> (r: Result<SatoriHeatLevel, InvalidHeatLevel>)
        ensures
            r == if value@ == "heat0"@ {
                Result::<SatoriHeatLevel, InvalidHeatLevel>::Ok(SatoriHeatLevel::Zero)
            } else if value@ == "heat1"@ {
                Result::<SatoriHeatLevel, InvalidHeatLevel>::Ok(SatoriHeatLevel::One)
            } else if value@ == "heat2"@ {
                Result::<SatoriHeatLevel, InvalidHeatLevel>::Ok(SatoriHeatLevel::Two)
            } else if value@ == "heat3"@ {
                Result::<SatoriHeatLevel, InvalidHeatLevel>::Ok(SatoriHeatLevel::Three)
            } else if value@ == "heat4"@ {
                Result::<SatoriHeatLevel, InvalidHeatLevel>::Ok(SatoriHeatLevel::Four)
            } else {
                Result::<SatoriHeatLevel, InvalidHeatLevel>::Err(InvalidHeatLevel {})
            },
    {
        let owned = value.to_owned();
        if owned == "heat0".to_owned() {
            Ok(SatoriHeatLevel::Zero)
        } else if owned == "heat1".to_owned() {
            Ok(SatoriHeatLevel::One)
        } else if owned == "heat2".to_owned() {
            Ok(SatoriHeatLevel::Two)
        } else if owned == "heat3".to_owned() {
            Ok(SatoriHeatLevel::Three)
        } else if owned == "heat4".to_owned() {
            Ok(SatoriHeatLevel::Four)
        } else {
            Err(InvalidHeatLevel {})
        }
    }
}

impl FieldCodec for SatoriHeatLevel {
    open spec fn spec_enc_field(self) -> Seq<char> {
        spec_heat_tag(self).spec_enc_field()
    }

    open spec fn spec_dec_field_at(s: Seq<char>, pos: int) -> Option<(SatoriHeatLevel, int)> {
        match <u32 as FieldCodec>::spec_dec_field_at(s, pos) {
            Some((tag, j)) => if tag == 0 {
                Some((SatoriHeatLevel::Zero, j))
            } else if tag == 1 {
                Some((SatoriHeatLevel::One, j))
            } else if tag == 2 {
                Some((SatoriHeatLevel::Two, j))
            } else if tag == 3 {
                Some((SatoriHeatLevel::Three, j))
            } else if tag == 4 {
                Some((SatoriHeatLevel::Four, j))
            } else {
                None
            },
            None => None,
        }
    }

    open spec fn spec_field_wf(self) -> bool {
        true
    }

    proof fn lemma_field_round_trip(self, s: Seq<char>, pos: int) {
        spec_heat_tag(self).lemma_field_round_trip(s, pos);
    }

    fn push_field(&self, out: &mut String) {
        let tag: u32 = match self {
            SatoriHeatLevel::Zero => 0,
            SatoriHeatLevel::One => 1,
            SatoriHeatLevel::Two => 2,
            SatoriHeatLevel::Three => 3,
            SatoriHeatLevel::Four => 4,
        };
        tag.push_field(out);
    }

    fn read_field(s: &str, len: usize, pos: usize) -> (r: Option<(SatoriHeatLevel, usize)>) {
        match <u32 as FieldCodec>::read_field(s, len, pos) {
            Some((tag, j)) => {
                if tag == 0 {
                    Some((SatoriHeatLevel::Zero, j))
                } else if tag == 1 {
                    Some((SatoriHeatLevel::One, j))
                } else if tag == 2 {
                    Some((SatoriHeatLevel::Two, j))
                } else if tag == 3 {
                    Some((SatoriHeatLevel::Three, j))
                } else if tag == 4 {
                    Some((SatoriHeatLevel::Four, j))
                } else {
                    None
                }
            },
            None => None,
        }
    }
}

/// One day of the dashboard heat map: the day, and its activity score in
/// thousandths.
#[derive(Clone, Debug, PartialEq)]
pub struct SatoriHeatData {
    pub date: String,
    pub score_milli: i64,
}

impl SatoriHeatData {
    /// The heat level the dashboard draws for this score: the thresholds
    /// are 9, 3, 1 and 0, here in thousandths.
    pub fn heat_level(&self) -> (r: SatoriHeatLevel)
        ensures
            r == spec_heat_level_of(self.score_milli),
    {
        if self.score_milli > 9000 {
            SatoriHeatLevel::Four
        } else if self.score_milli > 3000 {
            SatoriHeatLevel::Three
        } else if self.score_milli > 1000 {
            SatoriHeatLevel::Two
        } else if self.score_milli > 0 {
            SatoriHeatLevel::One
        } else {
            SatoriHeatLevel::Zero
        }
    }
}

/// The level a score in thousandths falls in.
pub open spec fn spec_heat_level_of(score_milli: i64) -> SatoriHeatLevel {
    if score_milli > 9000 {
        SatoriHeatLevel::Four
    } else if score_milli > 3000 {
        SatoriHeatLevel::Three
    } else if score_milli > 1000 {
        SatoriHeatLevel::Two
    } else if score_milli > 0 {
        SatoriHeatLevel::One
    } else {
        SatoriHeatLevel::Zero
    }
}

/// The score recorded for `today`, if any: the first heat-map entry of
/// that day.
pub open spec fn spec_score_for(entries: Seq<SatoriHeatData>, today: Seq<char>) -> Option<i64>
    decreases entries.len(),
{
    if entries.len() == 0 {
        None
    } else if entries[0].date@ == today {
        Some(entries[0].score_milli)
    } else {
        spec_score_for(entries.drop_first(), today)
    }
}

proof fn lemma_score_for_skip(entries: Seq<SatoriHeatData>, today: Seq<char>, i: int)
    requires
        0 <= i < entries.len(),
        entries[i].date@ != today,
    ensures
        spec_score_for(entries.skip(i), today) == spec_score_for(entries.skip(i + 1), today),
{
    assert(entries.skip(i)[0] == entries[i]);
    assert(entries.skip(i).drop_first() =~= entries.skip(i + 1));
}

/// Today's heat level: the level of the score recorded for `today`, or
/// the lowest level when the heat map has no entry for that day.
pub fn todays_heat_level(heat_data: &Vec<SatoriHeatData>, today: &str) -> (r: SatoriHeatLevel)
    ensures
        r == match spec_score_for(heat_data@, today@) {
            Some(score) => spec_heat_level_of(score),
            None => SatoriHeatLevel::Zero,
        },
{
    let today_owned: String = today.to_owned();
    let n = heat_data.len();
    let mut i: usize = 0;
    proof {
        assert(heat_data@.skip(0) =~= heat_data@);
    }
    while i < n
        invariant
            i <= n,
            n == heat_data@.len(),
            today_owned@ == today@,
            spec_score_for(heat_data@.skip(i as int), today@) == spec_score_for(
                heat_data@,
                today@,
            ),
        decreases n - i,
    {
        if heat_data[i].date == today_owned {
            proof {
                assert(heat_data@.skip(i as int)[0] == heat_data@[i as int]);
            }
            return heat_data[i].heat_level();
        }
        proof {
            lemma_score_for_skip(heat_data@, today@, i as int);
        }
        i = i + 1;
    }
    proof {
        assert(heat_data@.skip(n as int) =~= Seq::<SatoriHeatData>::empty());
    }
    SatoriHeatLevel::Zero
}

/// The line the dashboard embeds its heat-map scores behind.
pub open spec fn spec_heat_marker() -> Seq<char> {
    "var activityScores = "@
}

/// Whether the marker stands at position `i` of `s`.
pub open spec fn spec_marker_at(s: Seq<char>, i: int) -> bool {
    0 <= i && i + spec_heat_marker().len() <= s.len() && s.subrange(
        i,
        i + spec_heat_marker().len(),
    ) == spec_heat_marker()
}

/// The position of the line break at or after `j`, or the end of `s`.
pub open spec fn spec_line_end(s: Seq<char>, j: int) -> int
    decreases s.len() - j,
{
    if j < 0 || j >= s.len() {
        s.len() as int
    } else if s[j] == '\n' {
        j
    } else {
        spec_line_end(s, j + 1)
    }
}

/// The position of the last semicolon in `s[from..end]`, if any.
pub open spec fn spec_last_semi(s: Seq<char>, from: int, end: int) -> Option<int>
    decreases end - from,
{
    if from >= end {
        None
    } else if s[end - 1] == ';' {
        Some(end - 1)
    } else {
        spec_last_semi(s, from, end - 1)
    }
}

/// What the marker at `i` captures: the characters up to the last
/// semicolon on the marker's line, which must not be empty.
pub open spec fn spec_capture_at(s: Seq<char>, i: int) -> Option<Seq<char>> {
    let start = i + spec_heat_marker().len();
    let end = spec_line_end(s, start);
    match spec_last_semi(s, start, end) {
        Some(k) => if k > start {
            Some(s.subrange(start, k))
        } else {
            None
        },
        None => None,
    }
}

/// The first successful capture at or after position `i`.
pub open spec fn spec_heat_capture_from(s: Seq<char>, i: int) -> Option<Seq<char>>
    decreases s.len() + 1 - i,
{
    if i < 0 || i + spec_heat_marker().len() > s.len() {
        None
    } else if spec_marker_at(s, i) && spec_capture_at(s, i) is Some {
        spec_capture_at(s, i)
    } else {
        spec_heat_capture_from(s, i + 1)
    }
}

/// The heat-map JSON a script block embeds, if any: what follows the
/// first activity-scores marker whose line closes with a semicolon.
pub open spec fn spec_extract_heat_data(s: Seq<char>) -> Option<Seq<char>> {
    spec_heat_capture_from(s, 0)
}

proof fn lemma_line_end_at(s: Seq<char>, start: int, k: int)
    requires
        0 <= start <= k <= s.len(),
        forall|m: int| start <= m < k ==> s[m] != '\n',
        k == s.len() || s[k] == '\n',
    ensures
        spec_line_end(s, start) == k,
    decreases k - start,
{
    if start < k {
        lemma_line_end_at(s, start + 1, k);
    }
}

/// The JSON text holding the dashboard's activity scores, scanned out of
/// the page's script: the text between the first activity-scores marker
/// and the last semicolon on its line. A script without such a line is a
/// malformed origin response.
pub fn extract_heat_data_from_js(javascript: &str) -> (r: Result<String, FetchError>)
    ensures
        match spec_extract_heat_data(javascript@) {
            Some(t) => match r {
                Ok(captured) => captured@ == t,
                Err(_) => false,
            },
            None => match r {
                Ok(_) => false,
                Err(e) => e matches FetchError::MissingData(m) && m@
                    == "Unable to find heat data json"@,
            },
        },
{
    let marker = "var activityScores = ";
    proof {
        reveal_strlit("var activityScores = ");
    }
    let marker_len = marker.unicode_len();
    let n = javascript.unicode_len();
    if n < marker_len {
        return Err(FetchError::MissingData("Unable to find heat data json".to_owned()));
    }
    let mut i: usize = 0;
    while i <= n - marker_len
        invariant
            marker@ == spec_heat_marker(),
            marker_len == spec_heat_marker().len(),
            1 <= marker_len <= n,
            n == javascript@.len(),
            spec_heat_capture_from(javascript@, i as int) == spec_extract_heat_data(javascript@),
        decreases n - i,
    {
        let mut matches_here = true;
        let mut j: usize = 0;
        while j < marker_len
            invariant
                j <= marker_len,
                i + marker_len <= n,
                n == javascript@.len(),
                marker@ == spec_heat_marker(),
                marker_len == spec_heat_marker().len(),
                matches_here ==> (forall|m: int|
                    0 <= m < j ==> javascript@[i + m] == spec_heat_marker()[m]),
                !matches_here ==> !spec_marker_at(javascript@, i as int),
            decreases marker_len - j,
        {
            if javascript.get_char(i + j) != marker.get_char(j) {
                proof {
                    if spec_marker_at(javascript@, i as int) {
                        assert(javascript@.subrange(i as int, i + marker_len)[j as int]
                            == javascript@[i + j]);
                    }
                }
                matches_here = false;
                j = marker_len;
            } else {
                j = j + 1;
            }
        }
        if matches_here {
            proof {
                assert(javascript@.subrange(i as int, i + marker_len) =~= spec_heat_marker());
            }
            let start = i + marker_len;
            let mut k: usize = start;
            let mut last_semi: Option<usize> = None;
            proof {
                assert(spec_last_semi(javascript@, start as int, start as int) is None);
            }
            while k < n && javascript.get_char(k) != '\n'
                invariant
                    start <= k <= n,
                    n == javascript@.len(),
                    forall|m: int| start <= m < k ==> javascript@[m] != '\n',
                    match last_semi {
                        Some(ls) => spec_last_semi(javascript@, start as int, k as int) == Some(
                            ls as int,
                        ) && start <= ls < k,
                        None => spec_last_semi(javascript@, start as int, k as int) is None,
                    },
                decreases n - k,
            {
                if javascript.get_char(k) == ';' {
                    last_semi = Some(k);
                }
                k = k + 1;
            }
            proof {
                lemma_line_end_at(javascript@, start as int, k as int);
            }
            match last_semi {
                Some(ls) => {
                    if ls > start {
                        let captured = javascript.substring_char(start, ls);
                        proof {
                            assert(spec_heat_capture_from(javascript@, i as int) == spec_capture_at(
                                javascript@,
                                i as int,
                            ));
                        }
                        return Ok(captured.to_owned());
                    }
                    proof {
                        assert(spec_capture_at(javascript@, i as int) is None);
                    }
                },
                None => {
                    proof {
                        assert(spec_capture_at(javascript@, i as int) is None);
                    }
                },
            }
        }
        proof {
            assert(spec_heat_capture_from(javascript@, i as int) == spec_heat_capture_from(
                javascript@,
                i as int + 1,
            ));
        }
        i = i + 1;
    }
    proof {
        assert(spec_heat_capture_from(javascript@, i as int) is None);
    }
    Err(FetchError::MissingData("Unable to find heat data json".to_owned()))
}

/// The JavaScript blocks of an HTML document: the inner text of each
/// `script` element typed `text/javascript`, in document order. The
/// result depends on the document text alone.
pub uninterp spec fn script_blocks_of(html: Seq<char>) -> Seq<Seq<char>>;

/// Relies on scraper's `Html::parse_document`, `Selector::parse`,
/// `Html::select` and `ElementRef::inner_html`: the inner text of each
/// `script[type="text/javascript"]` element of the document, in document
/// order.
#[verifier::external_body]
fn script_texts(html: &str) -> (r: Vec<String>)
    ensures
        r.deep_view() == script_blocks_of(html@),
{
    let document = scraper::Html::parse_document(html);
    let selector = scraper::Selector::parse("script[type=\"text/javascript\"]").unwrap();
    document.select(&selector).map(|element| element.inner_html()).collect()
}

/// The heat-map JSON embedded in the dashboard page. The page must hold
/// exactly one JavaScript block, and that block must carry the
/// activity-scores line; anything else is a malformed origin response.
pub fn heat_json_from_dashboard(html: &str) -> (r: Result<String, FetchError>)
    ensures
        ({
            let blocks = script_blocks_of(html@);
            if blocks.len() != 1 {
                match r {
                    Ok(_) => false,
                    Err(e) => e matches FetchError::MalformedBody(m) && m@
                        == "Expected to find 1 element, found "@ + spec_decimal(
                        blocks.len() as u64,
                    ) + " elements"@,
                }
            } else {
                match spec_extract_heat_data(blocks[0]) {
                    Some(t) => match r {
                        Ok(captured) => captured@ == t,
                        Err(_) => false,
                    },
                    None => match r {
                        Ok(_) => false,
                        Err(e) => e matches FetchError::MissingData(m) && m@
                            == "Unable to find heat data json"@,
                    },
                }
            }
        }),
{
    let blocks = script_texts(html);
    if blocks.len() != 1 {
        let mut message: String = "Expected to find 1 element, found ".to_owned();
        proof {
            assert(blocks.deep_view().len() == blocks@.len());
        }
        push_decimal(&mut message, blocks.len() as u64);
        message.append(" elements");
        return Err(FetchError::MalformedBody(message));
    }
    proof {
        assert(blocks.deep_view()[0] == blocks@[0]@);
    }
    extract_heat_data_from_js(blocks[0].as_str())
}

/// The per-day study state shown for Satori Reader.
#[derive(Clone, Copy, Debug, PartialEq, Eq, Structural)]
pub struct SatoriStats {
    pub heat_level: SatoriHeatLevel,
}

impl DeepView for SatoriStats {
    type V = SatoriStats;

    open spec fn deep_view(&self) -> SatoriStats {
        *self
    }
}

impl FieldCodec for SatoriStats {
    open spec fn spec_enc_field(self) -> Seq<char> {
        self.heat_level.spec_enc_field()
    }

    open spec fn spec_dec_field_at(s: Seq<char>, pos: int) -> Option<(SatoriStats, int)> {
        match <SatoriHeatLevel as FieldCodec>::spec_dec_field_at(s, pos) {
            Some((heat_level, j)) => Some((SatoriStats { heat_level }, j)),
            None => None,
        }
    }

    open spec fn spec_field_wf(self) -> bool {
        true
    }

    proof fn lemma_field_round_trip(self, s: Seq<char>, pos: int) {
        self.heat_level.lemma_field_round_trip(s, pos);
    }

    fn push_field(&self, out: &mut String) {
        self.heat_level.push_field(out);
    }

    fn read_field(s: &str, len: usize, pos: usize) -> (r: Option<(SatoriStats, usize)>) {
        match <SatoriHeatLevel as FieldCodec>::read_field(s, len, pos) {
            Some((heat_level, j)) => Some((SatoriStats { heat_level }, j)),
            None => None,
        }
    }
}

impl CachePolicy for SatoriStats {
    open spec fn spec_cache_key() -> CacheKey {
        CacheKey::SatoriStats
    }

    open spec fn spec_ttl_seconds() -> u64 {
        3600
    }

    proof fn ttl_in_range() {
    }

    fn cache_key() -> (k: CacheKey) {
        CacheKey::SatoriStats
    }

    fn ttl_seconds() -> (t: u64) {
        3600
    }
}

/// The due-review count endpoint's answer, with the time it was fetched.
#[derive(Clone, Debug, PartialEq)]
pub struct SatoriCurrentCardsResponse {
    pub result: u32,
    pub success: bool,
    pub message: Option<String>,
    pub exception: Option<String>,
    pub fetched_at: Option<u64>,
}

/// The abstract content of a [`SatoriCurrentCardsResponse`].
pub struct SatoriCurrentCardsModel {
    pub result: u32,
    pub success: bool,
    pub message: Option<Seq<char>>,
    pub exception: Option<Seq<char>>,
    pub fetched_at: Option<u64>,
}

impl DeepView for SatoriCurrentCardsResponse {
    type V = SatoriCurrentCardsModel;

    open spec fn deep_view(&self) -> SatoriCurrentCardsModel {
        SatoriCurrentCardsModel {
            result: self.result,
            success: self.success,
            message: self.message.deep_view(),
            exception: self.exception.deep_view(),
            fetched_at: self.fetched_at,
        }
    }
}

impl SatoriCurrentCardsResponse {
    /// The same answer stamped as fetched at `now`.
    pub fn with_fetched_at(self, now: u64) -> (r: SatoriCurrentCardsResponse)
        ensures
            r.result == self.result,
            r.success == self.success,
            r.message == self.message,
            r.exception == self.exception,
            r.fetched_at == Some(now),
    {
        SatoriCurrentCardsResponse { fetched_at: Some(now), ..self }
    }
}

impl FieldCodec for SatoriCurrentCardsResponse {
    open spec fn spec_enc_field(self) -> Seq<char> {
        (
            self.result,
            (self.success, (self.message, (self.exception, self.fetched_at))),
        ).spec_enc_field()
    }

    open spec fn spec_dec_field_at(s: Seq<char>, pos: int) -> Option<
        (SatoriCurrentCardsModel, int),
    > {
        match <(u32, (bool, (Option<String>, (Option<String>, Option<u64>)))) as FieldCodec>::spec_dec_field_at(
            s,
            pos,
        ) {
            Some(((result, (success, (message, (exception, fetched_at)))), j)) => Some(
                (SatoriCurrentCardsModel { result, success, message, exception, fetched_at }, j),
            ),
            None => None,
        }
    }

    open spec fn spec_field_wf(self) -> bool {
        (self.result, (self.success, (self.message, (self.exception, self.fetched_at)))).spec_field_wf()
    }

    proof fn lemma_field_round_trip(self, s: Seq<char>, pos: int) {
        (
            self.result,
            (self.success, (self.message, (self.exception, self.fetched_at))),
        ).lemma_field_round_trip(s, pos);
    }

    fn push_field(&self, out: &mut String) {
        self.result.push_field(out);
        self.success.push_field(out);
        self.message.push_field(out);
        self.exception.push_field(out);
        self.fetched_at.push_field(out);
        proof {
            assert(final (out)@ =~= old(out)@ + self.spec_enc_field());
        }
    }

    fn read_field(s: &str, len: usize, pos: usize) -> (r: Option<
        (SatoriCurrentCardsResponse, usize),
    >) {
        match <(u32, (bool, (Option<String>, (Option<String>, Option<u64>)))) as FieldCodec>::read_field(
            s,
            len,
            pos,
        ) {
            Some(((result, (success, (message, (exception, fetched_at)))), j)) => Some(
                (
                    SatoriCurrentCardsResponse { result, success, message, exception, fetched_at },
                    j,
                ),
            ),
            None => None,
        }
    }
}

impl CachePolicy for SatoriCurrentCardsResponse {
    open spec fn spec_cache_key() -> CacheKey {
        CacheKey::SatoriReviewCards
    }

    open spec fn spec_ttl_seconds() -> u64 {
        3600
    }

    proof fn ttl_in_range() {
    }

    fn cache_key() -> (k: CacheKey) {
        CacheKey::SatoriReviewCards
    }

    fn ttl_seconds() -> (t: u64) {
        3600
    }
}

/// The pending new-card count endpoint's answer.
#[derive(Clone, Debug, PartialEq)]
pub struct SatoriNewCardsResponse {
    pub result: u32,
    pub success: bool,
    pub message: Option<String>,
    pub exception: Option<String>,
}

/// The abstract content of a [`SatoriNewCardsResponse`].
pub struct SatoriNewCardsModel {
    pub result: u32,
    pub success: bool,
    pub message: Option<Seq<char>>,
    pub exception: Option<Seq<char>>,
}

impl DeepView for SatoriNewCardsResponse {
    type V = SatoriNewCardsModel;

    open spec fn deep_view(&self) -> SatoriNewCardsModel {
        SatoriNewCardsModel {
            result: self.result,
            success: self.success,
            message: self.message.deep_view(),
            exception: self.exception.deep_view(),
        }
    }
}

impl FieldCodec for SatoriNewCardsResponse {
    open spec fn spec_enc_field(self) -> Seq<char> {
        (self.result, (self.success, (self.message, self.exception))).spec_enc_field()
    }

    open spec fn spec_dec_field_at(s: Seq<char>, pos: int) -> Option<(SatoriNewCardsModel, int)> {
        match <(u32, (bool, (Option<String>, Option<String>))) as FieldCodec>::spec_dec_field_at(
            s,
            pos,
        ) {
            Some(((result, (success, (message, exception))), j)) => Some(
                (SatoriNewCardsModel { result, success, message, exception }, j),
            ),
            None => None,
        }
    }

    open spec fn spec_field_wf(self) -> bool {
        (self.result, (self.success, (self.message, self.exception))).spec_field_wf()
    }

    proof fn lemma_field_round_trip(self, s: Seq<char>, pos: int) {
        (self.result, (self.success, (self.message, self.exception))).lemma_field_round_trip(
            s,
            pos,
        );
    }

    fn push_field(&self, out: &mut String) {
        self.result.push_field(out);
        self.success.push_field(out);
        self.message.push_field(out);
        self.exception.push_field(out);
        proof {
            assert(final (out)@ =~= old(out)@ + self.spec_enc_field());
        }
    }

    fn read_field(s: &str, len: usize, pos: usize) -> (r: Option<(SatoriNewCardsResponse, usize)>) {
        match <(u32, (bool, (Option<String>, Option<String>))) as FieldCodec>::read_field(
            s,
            len,
            pos,
        ) {
            Some(((result, (success, (message, exception))), j)) => Some(
                (SatoriNewCardsResponse { result, success, message, exception }, j),
            ),
            None => None,
        }
    }
}

impl CachePolicy for SatoriNewCardsResponse {
    open spec fn spec_cache_key() -> CacheKey {
        CacheKey::SatoriNewCards
    }

    open spec fn spec_ttl_seconds() -> u64 {
        3600
    }

    proof fn ttl_in_range() {
    }

    fn cache_key() -> (k: CacheKey) {
        CacheKey::SatoriNewCards
    }

    fn ttl_seconds() -> (t: u64) {
        3600
    }
}

/// What the frontend is shown for Satori Reader.
#[derive(Clone, Debug, PartialEq)]
pub struct SatoriData {
    pub data_updated_at: u64,
    pub active_review_count: u32,
    pub new_card_count: u32,
    pub daily_study_goal_met: bool,
}

impl SatoriData {
    /// Combine the three per-resource answers into the frontend view: the
    /// daily goal is met exactly when today's heat reached the top level.
    pub fn new(
        current_cards: SatoriCurrentCardsResponse,
        new_cards: SatoriNewCardsResponse,
        stats: SatoriStats,
        now: u64,
    ) -> (r: SatoriData)
        ensures
            r.data_updated_at == current_cards.fetched_at.unwrap_or(now),
            r.active_review_count == current_cards.result,
            r.new_card_count == new_cards.result,
            r.daily_study_goal_met == (stats.heat_level == SatoriHeatLevel::Four),
    {
        let data_updated_at = match current_cards.fetched_at {
            Some(t) => t,
            None => now,
        };
        SatoriData {
            data_updated_at,
            active_review_count: current_cards.result,
            new_card_count: new_cards.result,
            daily_study_goal_met: stats.heat_level == SatoriHeatLevel::Four,
        }
    }
}

} // verus!
