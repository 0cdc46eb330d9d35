//! Shapes of the remote leaderboard data that the logic consumes.
//!
//! Callers that talk to the remote service decode its JSON and hand the
//! library plain values in these types; the library never sees the wire
//! format itself.

use vstd::prelude::*;

verus! {

/// Pagination metadata attached to each page of remote results.
#[derive(Debug, Clone, Copy, PartialEq, Eq, Structural)]
pub struct Metadata {
    pub total: u32,
    pub page: u32,
    pub items_per_page: u32,
}

/// Remote description of one chart difficulty.
#[derive(Debug)]
pub struct Difficulty {
    pub leaderboard_id: i64,
    pub difficulty_int: isize,
    pub game_mode: String,
    pub difficulty_raw: DifficultyRaw,
}

/// The remote service's coded difficulty label; unknown codes carry their
/// raw text.
#[derive(Debug)]
pub enum DifficultyRaw {
    Easy,
    Normal,
    Hard,
    Expert,
    ExpertPlus,
    Other(String),
}

/// Mathematical value of one remote score record.
#[verifier::ext_equal]
pub ghost struct RecordModel {
    pub song_hash: Seq<char>,
    pub game_mode: Seq<char>,
    pub difficulty: int,
    pub modified_score: int,
    pub full_combo: bool,
}

/// One remote score record, reduced to the fields the merge reads: the
/// chart hash, the raw mode string, the declared difficulty, and the score
/// data that overwrites the local row.
#[derive(Debug)]
pub struct RemoteScoreRecord {
    pub song_hash: String,
    pub game_mode: String,
    pub difficulty: isize,
    pub modified_score: i64,
    pub full_combo: bool,
}

impl View for RemoteScoreRecord {
    type V = RecordModel;

    open spec fn view(&self) -> RecordModel {
        RecordModel {
            song_hash: self.song_hash@,
            game_mode: self.game_mode@,
            difficulty: self.difficulty as int,
            modified_score: self.modified_score as int,
            full_combo: self.full_combo,
        }
    }
}

impl DeepView for RemoteScoreRecord {
    type V = RecordModel;

    open spec fn deep_view(&self) -> RecordModel {
        self.view()
    }
}

impl Clone for RemoteScoreRecord {
    /// A clone carries every field over unchanged.
    fn clone(&self) -> (r: Self)
        ensures
            r@ == self@,
    {
        RemoteScoreRecord {
            song_hash: self.song_hash.clone(),
            game_mode: self.game_mode.clone(),
            difficulty: self.difficulty,
            modified_score: self.modified_score,
            full_combo: self.full_combo,
        }
    }
}

/// One page of remote results: the records in server order plus the
/// pagination metadata.
#[derive(Debug)]
pub struct ScoresPage {
    pub scores: Vec<RemoteScoreRecord>,
    pub metadata: Metadata,
}

/// The records of a sequence of pages, concatenated in page order and
/// within each page in server order.
pub open spec fn flatten_pages(pages: Seq<ScoresPage>) -> Seq<RecordModel>
    decreases pages.len(),
{
    if pages.len() == 0 {
        Seq::empty()
    } else {
        flatten_pages(pages.drop_last()) + pages.last().scores.deep_view()
    }
}

/// Concatenation of all pages' records, in page order and within each page
/// in server order. This is the full remote history when the pages were
/// fetched for 1 through the page count in increasing order.
pub fn collect_pages(pages: &Vec<ScoresPage>) -> (r: Vec<RemoteScoreRecord>)
    ensures
        r.deep_view() == flatten_pages(pages@),
{
    let mut r: Vec<RemoteScoreRecord> = Vec::new();
    let mut i: usize = 0;
    while i < pages.len()
        invariant
            i <= pages@.len(),
            r.deep_view() == flatten_pages(pages@.take(i as int)),
        decreases pages@.len() - i,
    {
        let ghost r_before = r.deep_view();
        let mut page_scores = pages[i].scores.clone();
        proof {
            assert(page_scores.deep_view() =~= pages@[i as int].scores.deep_view());
        }
        r.append(&mut page_scores);
        proof {
            assert(pages@.take(i + 1).drop_last() =~= pages@.take(i as int));
            assert(pages@.take(i + 1).last() == pages@[i as int]);
            assert(r.deep_view() =~= r_before + pages@[i as int].scores.deep_view());
            assert(r.deep_view() == flatten_pages(pages@.take(i + 1)));
        }
        i = i + 1;
    }
    proof {
        assert(pages@.take(pages@.len() as int) =~= pages@);
    }
    r
}

} // verus!
