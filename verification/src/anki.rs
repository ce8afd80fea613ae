//! Anki study data: the deck-list shapes its origin reports, the selection
//! of the deck of interest, and the frontend counts derived from it.

use vstd::prelude::*;

use crate::cacheable::{CacheKey, CachePolicy, FetchError};
use crate::codec::FieldCodec;

verus! {

/// One deck as the deck-list endpoint reports it; absent counts mean zero.
#[derive(Clone, Debug, PartialEq)]
pub struct DeckInfo {
    pub deck_id: i64,
    pub deck_name: String,
    pub level: u32,
    pub review_card_count: Option<u32>,
    pub learn_count: Option<u32>,
    pub new_card_count: Option<u32>,
    pub uncapped_new_card_count: Option<u32>,
    pub uncapped_review_card_count: Option<u32>,
    pub total_card_count: u32,
}

/// Every deck the account has.
#[derive(Clone, Debug, PartialEq)]
pub struct AllDecksInfo {
    pub decks: Vec<DeckInfo>,
    pub all_decks_review_card_count: Option<u32>,
    pub all_decks_new_card_count: Option<u32>,
}

/// The deck-list endpoint's whole answer.
#[derive(Clone, Debug, PartialEq)]
pub struct DeckListInfo {
    pub all_decks_info: Option<AllDecksInfo>,
    pub some_date_probably: i32,
    pub user_id_maybe: i32,
}

impl DeckInfo {
    /// Reviews currently due, zero when the origin reported none.
    pub fn review_card_count(&self) -> (r: u32)
        ensures
            r == self.review_card_count.unwrap_or(0),
    {
        match self.review_card_count {
            Some(n) => n,
            None => 0,
        }
    }

    /// Cards in learning, zero when the origin reported none.
    pub fn learn_count(&self) -> (r: u32)
        ensures
            r == self.learn_count.unwrap_or(0),
    {
        match self.learn_count {
            Some(n) => n,
            None => 0,
        }
    }

    /// New cards available, zero when the origin reported none.
    pub fn new_card_count(&self) -> (r: u32)
        ensures
            r == self.new_card_count.unwrap_or(0),
    {
        match self.new_card_count {
            Some(n) => n,
            None => 0,
        }
    }

    /// New cards without the daily cap, zero when the origin reported none.
    pub fn uncapped_new_card_count(&self) -> (r: u32)
        ensures
            r == self.uncapped_new_card_count.unwrap_or(0),
    {
        match self.uncapped_new_card_count {
            Some(n) => n,
            None => 0,
        }
    }

    /// Reviews without the daily cap, zero when the origin reported none.
    pub fn uncapped_review_card_count(&self) -> (r: u32)
        ensures
            r == self.uncapped_review_card_count.unwrap_or(0),
    {
        match self.uncapped_review_card_count {
            Some(n) => n,
            None => 0,
        }
    }

    /// A field-for-field copy.
    fn duplicate(&self) -> (r: DeckInfo)
        ensures
            r == *self,
    {
        DeckInfo {
            deck_id: self.deck_id,
            deck_name: self.deck_name.clone(),
            level: self.level,
            review_card_count: self.review_card_count,
            learn_count: self.learn_count,
            new_card_count: self.new_card_count,
            uncapped_new_card_count: self.uncapped_new_card_count,
            uncapped_review_card_count: self.uncapped_review_card_count,
            total_card_count: self.total_card_count,
        }
    }
}

/// The first deck named "Japanese", if any.
pub open spec fn spec_find_japanese(decks: Seq<DeckInfo>) -> Option<DeckInfo>
    decreases decks.len(),
{
    if decks.len() == 0 {
        None
    } else if decks[0].deck_name@ == "Japanese"@ {
        Some(decks[0])
    } else {
        spec_find_japanese(decks.drop_first())
    }
}

/// The deck the tracker watches, out of the whole deck list.
pub open spec fn spec_japanese_deck(deck_list_info: DeckListInfo) -> Option<DeckInfo> {
    match deck_list_info.all_decks_info {
        None => None,
        Some(all) => spec_find_japanese(all.decks@),
    }
}

proof fn lemma_find_japanese_skip(decks: Seq<DeckInfo>, i: int)
    requires
        0 <= i < decks.len(),
        decks[i].deck_name@ != "Japanese"@,
    ensures
        spec_find_japanese(decks.skip(i)) == spec_find_japanese(decks.skip(i + 1)),
{
    assert(decks.skip(i)[0] == decks[i]);
    assert(decks.skip(i).drop_first() =~= decks.skip(i + 1));
}

/// The deck named "Japanese", searched in order, or nothing when the list
/// is absent or holds no such deck.
pub fn get_japanese_deck(deck_list_info: &DeckListInfo) -> (r: Option<DeckInfo>)
    ensures
        r == spec_japanese_deck(*deck_list_info),
{
    let all = match &deck_list_info.all_decks_info {
        None => {
            return None;
        },
        Some(all) => all,
    };
    let japanese: String = "Japanese".to_owned();
    let n = all.decks.len();
    let mut i: usize = 0;
    proof {
        assert(all.decks@.skip(0) =~= all.decks@);
    }
    while i < n
        invariant
            i <= n,
            n == all.decks@.len(),
            japanese@ == "Japanese"@,
            deck_list_info.all_decks_info == Some(*all),
            spec_find_japanese(all.decks@.skip(i as int)) == spec_find_japanese(all.decks@),
        decreases n - i,
    {
        if all.decks[i].deck_name == japanese {
            proof {
                assert(all.decks@.skip(i as int)[0] == all.decks@[i as int]);
            }
            return Some(all.decks[i].duplicate());
        }
        proof {
            lemma_find_japanese_skip(all.decks@, i as int);
        }
        i = i + 1;
    }
    proof {
        assert(all.decks@.skip(n as int) =~= Seq::<DeckInfo>::empty());
    }
    None
}

/// The watched deck, or the fetch error a missing deck surfaces as.
pub fn japanese_deck_or_error(deck_list_info: &DeckListInfo) -> (r: Result<DeckInfo, FetchError>)
    ensures
        match spec_japanese_deck(*deck_list_info) {
            Some(deck) => r == Result::<DeckInfo, FetchError>::Ok(deck),
            None => match r {
                Ok(_) => false,
                Err(e) => e matches FetchError::MissingData(m) && m@
                    == "Could not find Japanese deck"@,
            },
        },
{
    match get_japanese_deck(deck_list_info) {
        Some(deck) => Ok(deck),
        None => Err(FetchError::MissingData("Could not find Japanese deck".to_owned())),
    }
}

/// What the frontend is shown for Anki, derived from the watched deck.
#[derive(Clone, Copy, Debug, PartialEq, Eq, Structural)]
pub struct AnkiData {
    pub active_review_count: u32,
    pub total_active_review_count: u32,
    pub new_card_count: u32,
    pub total_new_card_count: u32,
    pub data_updated_at: u64,
    pub daily_study_goal_met: bool,
}

impl DeepView for AnkiData {
    type V = AnkiData;

    open spec fn deep_view(&self) -> AnkiData {
        *self
    }
}

impl AnkiData {
    /// Derive the frontend counts from a deck at time `now`: active reviews
    /// are due reviews plus cards in learning, and the daily goal is met
    /// once no capped review is left.
    pub fn from_deck(deck: &DeckInfo, now: u64) -> (r: AnkiData)
        requires
            deck.review_card_count.unwrap_or(0) + deck.learn_count.unwrap_or(0) <= u32::MAX,
        ensures
            r.active_review_count == deck.review_card_count.unwrap_or(0)
                + deck.learn_count.unwrap_or(0),
            r.total_active_review_count == deck.uncapped_review_card_count.unwrap_or(0),
            r.new_card_count == deck.new_card_count.unwrap_or(0),
            r.total_new_card_count == deck.uncapped_new_card_count.unwrap_or(0),
            r.data_updated_at == now,
            r.daily_study_goal_met == (deck.review_card_count.unwrap_or(0) == 0),
    {
        AnkiData {
            active_review_count: deck.review_card_count() + deck.learn_count(),
            total_active_review_count: deck.uncapped_review_card_count(),
            new_card_count: deck.new_card_count(),
            total_new_card_count: deck.uncapped_new_card_count(),
            data_updated_at: now,
            daily_study_goal_met: deck.review_card_count() == 0,
        }
    }
}

impl FieldCodec for AnkiData {
    open spec fn spec_enc_field(self) -> Seq<char> {
        (
            self.active_review_count,
            (
                self.total_active_review_count,
                (
                    self.new_card_count,
                    (self.total_new_card_count, (self.data_updated_at, self.daily_study_goal_met)),
                ),
            ),
        ).spec_enc_field()
    }

    open spec fn spec_dec_field_at(s: Seq<char>, pos: int) -> Option<(AnkiData, int)> {
        match <(u32, (u32, (u32, (u32, (u64, bool))))) as FieldCodec>::spec_dec_field_at(s, pos) {
            Some(((a, (t, (n, (tn, (d, g))))), j)) => Some(
                (
                    AnkiData {
                        active_review_count: a,
                        total_active_review_count: t,
                        new_card_count: n,
                        total_new_card_count: tn,
                        data_updated_at: d,
                        daily_study_goal_met: g,
                    },
                    j,
                ),
            ),
            None => None,
        }
    }

    open spec fn spec_field_wf(self) -> bool {
        true
    }

    proof fn lemma_field_round_trip(self, s: Seq<char>, pos: int) {
        (
            self.active_review_count,
            (
                self.total_active_review_count,
                (
                    self.new_card_count,
                    (self.total_new_card_count, (self.data_updated_at, self.daily_study_goal_met)),
                ),
            ),
        ).lemma_field_round_trip(s, pos);
    }

    fn push_field(&self, out: &mut String) {
        self.active_review_count.push_field(out);
        self.total_active_review_count.push_field(out);
        self.new_card_count.push_field(out);
        self.total_new_card_count.push_field(out);
        self.data_updated_at.push_field(out);
        self.daily_study_goal_met.push_field(out);
        proof {
            assert(final (out)@ =~= old(out)@ + self.spec_enc_field());
        }
    }

    fn read_field(s: &str, len: usize, pos: usize) -> (r: Option<(AnkiData, usize)>) {
        match <(u32, (u32, (u32, (u32, (u64, bool))))) as FieldCodec>::read_field(s, len, pos) {
            Some(((a, (t, (n, (tn, (d, g))))), j)) => Some(
                (
                    AnkiData {
                        active_review_count: a,
                        total_active_review_count: t,
                        new_card_count: n,
                        total_new_card_count: tn,
                        data_updated_at: d,
                        daily_study_goal_met: g,
                    },
                    j,
                ),
            ),
            None => None,
        }
    }
}

impl CachePolicy for AnkiData {
    open spec fn spec_cache_key() -> CacheKey {
        CacheKey::Anki
    }

    open spec fn spec_ttl_seconds() -> u64 {
        3600
    }

    proof fn ttl_in_range() {
    }

    fn cache_key() -> (k: CacheKey) {
        CacheKey::Anki
    }

    fn ttl_seconds() -> (t: u64) {
        3600
    }
}

} // verus!
