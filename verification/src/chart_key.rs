//! The compound identity of one playable chart variant.
//!
//! A local statistics row carries its identity in its own fields; a remote
//! score record derives it from the fixed marker plus the uppercased song
//! hash, the parsed characteristic, and the declared difficulty.

use vstd::prelude::*;
use vstd::string::StrSliceExecFns;
use vstd::string::StringExecFns;

use crate::characteristic::parse;
use crate::characteristic::spec_parse;
use crate::data::BeatmapCharacteristic;
use crate::data::LevelsStatsDatum;
use crate::data::StatModel;
use crate::scoresaber::RecordModel;
use crate::scoresaber::RemoteScoreRecord;

verus! {

/// Mathematical value of a chart identity.
#[verifier::ext_equal]
pub ghost struct KeyModel {
    pub level_id: Seq<char>,
    pub characteristic: BeatmapCharacteristic,
    pub difficulty: int,
}

/// Compound identity `(chartId, characteristic, difficulty)` naming one
/// playable chart variant.
#[derive(Debug)]
pub struct ChartKey {
    pub level_id: String,
    pub characteristic: BeatmapCharacteristic,
    pub difficulty: isize,
}

impl View for ChartKey {
    type V = KeyModel;

    open spec fn view(&self) -> KeyModel {
        KeyModel {
            level_id: self.level_id@,
            characteristic: self.characteristic,
            difficulty: self.difficulty as int,
        }
    }
}

/// Whether two keys name the same chart variant: all three components
/// equal.
pub fn key_eq(a: &ChartKey, b: &ChartKey) -> (r: bool)
    ensures
        r == (a@ == b@),
{
    let r = a.level_id == b.level_id && a.characteristic == b.characteristic && a.difficulty
        == b.difficulty;
    proof {
        if r {
            assert(a@ =~= b@);
        }
    }
    r
}

/// The ASCII uppercase of one character: letters `'a'` through `'z'` map
/// to their uppercase counterpart, every other character stays itself.
pub open spec fn upper_char(c: char) -> char {
    if 'a' <= c && c <= 'z' {
        ((c as u32 - 32) as char)
    } else {
        c
    }
}

/// The ASCII uppercase of a whole string, character by character.
pub open spec fn spec_upper(s: Seq<char>) -> Seq<char> {
    s.map_values(|c: char| upper_char(c))
}

/// Relies on char::to_ascii_uppercase: 'a' through 'z' map to the
/// corresponding uppercase letter, every other character is returned
/// unchanged.
#[verifier::external_body]
fn char_to_upper(c: char) -> (r: char)
    ensures
        r == upper_char(c),
{
    c.to_ascii_uppercase()
}

/// Relies on String::push: appends exactly the given character at the end.
#[verifier::external_body]
fn push_char(s: &mut String, c: char)
    ensures
        final(s)@ == old(s)@.push(c),
{
    s.push(c);
}

/// ASCII-uppercases a string, character by character.
pub fn to_ascii_upper(s: &str) -> (r: String)
    ensures
        r@ == spec_upper(s@),
{
    let n = s.unicode_len();
    let mut r = String::new();
    let mut i: usize = 0;
    while i < n
        invariant
            i <= n,
            n == s@.len(),
            r@.len() == i,
            forall|j: int| 0 <= j < i ==> r@[j] == upper_char(s@[j]),
        decreases n - i,
    {
        let c = s.get_char(i);
        let u = char_to_upper(c);
        push_char(&mut r, u);
        i = i + 1;
    }
    proof {
        assert(r@ =~= spec_upper(s@));
    }
    r
}

/// The local chart identifier a remote song hash maps to: the fixed marker
/// followed by the uppercased hash.
pub open spec fn spec_level_id_of_hash(hash: Seq<char>) -> Seq<char> {
    "custom_level_"@ + spec_upper(hash)
}

/// Builds the local chart identifier for a remote song hash.
pub fn level_id_of_hash(hash: &str) -> (r: String)
    ensures
        r@ == spec_level_id_of_hash(hash@),
{
    let mut r = String::from_str("custom_level_");
    let upper = to_ascii_upper(hash);
    r.append(upper.as_str());
    r
}

/// The identity a local statistics row carries in its own fields.
pub open spec fn stat_key(s: StatModel) -> KeyModel {
    KeyModel { level_id: s.level_id, characteristic: s.characteristic, difficulty: s.difficulty }
}

/// The identity derived for a remote score record: marker plus uppercased
/// hash, parsed characteristic, declared difficulty.
pub open spec fn record_key(r: RecordModel) -> KeyModel {
    KeyModel {
        level_id: spec_level_id_of_hash(r.song_hash),
        characteristic: spec_parse(r.game_mode),
        difficulty: r.difficulty,
    }
}

/// Reads the identity out of a local statistics row.
pub fn key_of_stat(s: &LevelsStatsDatum) -> (k: ChartKey)
    ensures
        k@ == stat_key(s@),
{
    ChartKey {
        level_id: s.level_id.clone(),
        characteristic: s.beatmap_characteristic_name,
        difficulty: s.difficulty,
    }
}

/// Derives the identity of a remote score record.
pub fn key_of_record(r: &RemoteScoreRecord) -> (k: ChartKey)
    ensures
        k@ == record_key(r@),
{
    ChartKey {
        level_id: level_id_of_hash(r.song_hash.as_str()),
        characteristic: parse(r.game_mode.as_str()),
        difficulty: r.difficulty,
    }
}

} // verus!
