//! Translation of the remote mode string into the local characteristic
//! schema.
//!
//! The remote mode string is a fixed 4-character marker followed by the
//! literal characteristic name. The mapper strips the marker and matches
//! the rest, case-sensitively, against the closed set of canonical names;
//! anything else, including a string too short to carry the marker, falls
//! back to `Standard` without raising an error.

use vstd::prelude::*;
use vstd::string::StrSliceExecFns;

use crate::data::BeatmapCharacteristic;

verus! {

/// Length of the marker that precedes the characteristic name in a remote
/// mode string.
pub const MODE_PREFIX_LEN: usize = 4;

/// The canonical textual name of each characteristic variant, as it appears
/// in a remote mode string.
pub open spec fn canonical_name(c: BeatmapCharacteristic) -> Seq<char> {
    match c {
        BeatmapCharacteristic::Standard => "Standard"@,
        BeatmapCharacteristic::Lawless => "Lawless"@,
        BeatmapCharacteristic::Lightshow => "Lightshow"@,
        BeatmapCharacteristic::NoArrows => "NoArrows"@,
        BeatmapCharacteristic::OneSaber => "OneSaber"@,
        BeatmapCharacteristic::Degrees360 => "360Degree"@,
        BeatmapCharacteristic::Degrees90 => "90Degree"@,
        BeatmapCharacteristic::MissingCharacteristic => "MissingCharacteristic"@,
    }
}

/// How a remote mode string was understood: a genuine match of one of the
/// canonical names, or the silent fallback for anything unrecognized.
#[derive(Debug, Clone, Copy, PartialEq, Eq, Structural)]
pub enum ParseOutcome {
    Matched(BeatmapCharacteristic),
    Fallback,
}

/// The outcome of parsing a remote mode string: drop the 4-character
/// marker and match the rest against the canonical names, in a fixed
/// order; no match, or a string too short for the marker, is the fallback.
pub open spec fn spec_parse_outcome(mode: Seq<char>) -> ParseOutcome {
    if mode.len() < MODE_PREFIX_LEN {
        ParseOutcome::Fallback
    } else {
        let suffix = mode.skip(MODE_PREFIX_LEN as int);
        if suffix == canonical_name(BeatmapCharacteristic::Standard) {
            ParseOutcome::Matched(BeatmapCharacteristic::Standard)
        } else if suffix == canonical_name(BeatmapCharacteristic::Lawless) {
            ParseOutcome::Matched(BeatmapCharacteristic::Lawless)
        } else if suffix == canonical_name(BeatmapCharacteristic::Lightshow) {
            ParseOutcome::Matched(BeatmapCharacteristic::Lightshow)
        } else if suffix == canonical_name(BeatmapCharacteristic::NoArrows) {
            ParseOutcome::Matched(BeatmapCharacteristic::NoArrows)
        } else if suffix == canonical_name(BeatmapCharacteristic::OneSaber) {
            ParseOutcome::Matched(BeatmapCharacteristic::OneSaber)
        } else if suffix == canonical_name(BeatmapCharacteristic::Degrees360) {
            ParseOutcome::Matched(BeatmapCharacteristic::Degrees360)
        } else if suffix == canonical_name(BeatmapCharacteristic::Degrees90) {
            ParseOutcome::Matched(BeatmapCharacteristic::Degrees90)
        } else if suffix == canonical_name(BeatmapCharacteristic::MissingCharacteristic) {
            ParseOutcome::Matched(BeatmapCharacteristic::MissingCharacteristic)
        } else {
            ParseOutcome::Fallback
        }
    }
}

/// The characteristic a remote mode string denotes: the matched variant,
/// or `Standard` for anything unrecognized.
pub open spec fn spec_parse(mode: Seq<char>) -> BeatmapCharacteristic {
    match spec_parse_outcome(mode) {
        ParseOutcome::Matched(c) => c,
        ParseOutcome::Fallback => BeatmapCharacteristic::Standard,
    }
}

/// Whether `mode` is long enough to carry the marker and its remainder
/// after the marker equals `name` exactly.
fn suffix_matches(mode: &str, name: &str) -> (r: bool)
    ensures
        r == (mode@.len() >= MODE_PREFIX_LEN && mode@.skip(MODE_PREFIX_LEN as int) == name@),
{
    let mode_len = mode.unicode_len();
    if mode_len < MODE_PREFIX_LEN {
        return false;
    }
    let name_len = name.unicode_len();
    if mode_len - MODE_PREFIX_LEN != name_len {
        proof {
            assert(mode@.skip(MODE_PREFIX_LEN as int).len() != name@.len());
        }
        return false;
    }
    let mut i: usize = 0;
    while i < name_len
        invariant
            i <= name_len,
            mode_len == mode@.len(),
            name_len == name@.len(),
            mode_len - MODE_PREFIX_LEN == name_len,
            forall|j: int| 0 <= j < i ==> mode@[MODE_PREFIX_LEN + j] == name@[j],
        decreases name_len - i,
    {
        if mode.get_char(MODE_PREFIX_LEN + i) != name.get_char(i) {
            proof {
                assert(mode@.skip(MODE_PREFIX_LEN as int)[i as int] != name@[i as int]);
            }
            return false;
        }
        i = i + 1;
    }
    proof {
        assert(mode@.skip(MODE_PREFIX_LEN as int) =~= name@);
    }
    true
}

/// Parses a remote mode string, telling a genuine match apart from the
/// silent fallback.
pub fn parse_characteristic(raw_mode: &str) -> (r: ParseOutcome)
    ensures
        r == spec_parse_outcome(raw_mode@),
{
    if suffix_matches(raw_mode, "Standard") {
        ParseOutcome::Matched(BeatmapCharacteristic::Standard)
    } else if suffix_matches(raw_mode, "Lawless") {
        ParseOutcome::Matched(BeatmapCharacteristic::Lawless)
    } else if suffix_matches(raw_mode, "Lightshow") {
        ParseOutcome::Matched(BeatmapCharacteristic::Lightshow)
    } else if suffix_matches(raw_mode, "NoArrows") {
        ParseOutcome::Matched(BeatmapCharacteristic::NoArrows)
    } else if suffix_matches(raw_mode, "OneSaber") {
        ParseOutcome::Matched(BeatmapCharacteristic::OneSaber)
    } else if suffix_matches(raw_mode, "360Degree") {
        ParseOutcome::Matched(BeatmapCharacteristic::Degrees360)
    } else if suffix_matches(raw_mode, "90Degree") {
        ParseOutcome::Matched(BeatmapCharacteristic::Degrees90)
    } else if suffix_matches(raw_mode, "MissingCharacteristic") {
        ParseOutcome::Matched(BeatmapCharacteristic::MissingCharacteristic)
    } else {
        ParseOutcome::Fallback
    }
}

/// Parses a remote mode string into the characteristic the merge uses:
/// the matched variant, or `Standard` for anything unrecognized.
pub fn parse(raw_mode: &str) -> (r: BeatmapCharacteristic)
    ensures
        r == spec_parse(raw_mode@),
{
    match parse_characteristic(raw_mode) {
        ParseOutcome::Matched(c) => c,
        ParseOutcome::Fallback => BeatmapCharacteristic::Standard,
    }
}

/// Any 4-character marker followed by the canonical name of a variant
/// parses to exactly that variant: the match is genuine, never the
/// fallback.
pub proof fn lemma_parse_canonical(marker: Seq<char>, c: BeatmapCharacteristic)
    requires
        marker.len() == MODE_PREFIX_LEN,
    ensures
        spec_parse_outcome(marker + canonical_name(c)) == ParseOutcome::Matched(c),
        spec_parse(marker + canonical_name(c)) == c,
{
    reveal_strlit("Standard");
    reveal_strlit("Lawless");
    reveal_strlit("Lightshow");
    reveal_strlit("NoArrows");
    reveal_strlit("OneSaber");
    reveal_strlit("360Degree");
    reveal_strlit("90Degree");
    reveal_strlit("MissingCharacteristic");
    let mode = marker + canonical_name(c);
    assert(mode.skip(MODE_PREFIX_LEN as int) =~= canonical_name(c));
    let n_standard = canonical_name(BeatmapCharacteristic::Standard);
    let n_lawless = canonical_name(BeatmapCharacteristic::Lawless);
    let n_lightshow = canonical_name(BeatmapCharacteristic::Lightshow);
    let n_noarrows = canonical_name(BeatmapCharacteristic::NoArrows);
    let n_onesaber = canonical_name(BeatmapCharacteristic::OneSaber);
    let n_360 = canonical_name(BeatmapCharacteristic::Degrees360);
    let n_90 = canonical_name(BeatmapCharacteristic::Degrees90);
    let n_missing = canonical_name(BeatmapCharacteristic::MissingCharacteristic);
    assert(n_standard.len() == 8 && n_lawless.len() == 7 && n_lightshow.len() == 9
        && n_noarrows.len() == 8 && n_onesaber.len() == 8 && n_360.len() == 9 && n_90.len() == 8
        && n_missing.len() == 21);
    // Names of equal length are told apart by their first character.
    assert(n_standard[0] == 'S' && n_noarrows[0] == 'N' && n_onesaber[0] == 'O'
        && n_90[0] == '9' && n_lightshow[0] == 'L' && n_360[0] == '3');
    assert(n_noarrows != n_standard && n_onesaber != n_standard && n_90 != n_standard
        && n_onesaber != n_noarrows && n_90 != n_noarrows && n_90 != n_onesaber
        && n_360 != n_lightshow);
}

} // verus!
