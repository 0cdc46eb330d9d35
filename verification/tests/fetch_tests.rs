use score_sync::characteristic::ParseOutcome;
use score_sync::characteristic::parse;
use score_sync::characteristic::parse_characteristic;
use score_sync::data::BeatmapCharacteristic;
use score_sync::data::LevelsStatsDatum;
use score_sync::pagination::page_count;
use score_sync::pagination::pages_to_fetch;
use score_sync::scoresaber::Metadata;
use score_sync::scoresaber::RemoteScoreRecord;
use score_sync::scoresaber::ScoresPage;
use score_sync::scoresaber::collect_pages;

fn record(song_hash: &str, modified_score: i64) -> RemoteScoreRecord {
    RemoteScoreRecord {
        song_hash: song_hash.to_string(),
        game_mode: "SoloStandard".to_string(),
        difficulty: 1,
        modified_score,
        full_combo: false,
    }
}

fn page(n: u32, hashes: &[&str]) -> ScoresPage {
    ScoresPage {
        scores: hashes.iter().map(|h| record(h, 100)).collect(),
        metadata: Metadata { total: 125, page: n, items_per_page: 50 },
    }
}

#[test]
fn page_count_rounds_up() {
    assert_eq!(page_count(125, 50), 3);
    assert_eq!(page_count(100, 50), 2);
    assert_eq!(page_count(1, 50), 1);
    assert_eq!(page_count(0, 50), 0);
    assert_eq!(page_count(51, 50), 2);
}

#[test]
fn fetch_plan_covers_every_page_inclusive() {
    // total=125 at 50 per page means three pages; stopping at two would
    // silently drop the last page's worth of scores.
    assert_eq!(pages_to_fetch(125, 50), vec![1, 2, 3]);
    assert_eq!(pages_to_fetch(100, 50), vec![1, 2]);
    assert_eq!(pages_to_fetch(0, 50), Vec::<u32>::new());
}

#[test]
fn collected_pages_keep_all_records_in_order() {
    let pages = vec![
        page(1, &["a1", "a2"]),
        page(2, &["b1"]),
        page(3, &["c1", "c2"]),
    ];
    let all = collect_pages(&pages);
    let hashes: Vec<&str> = all.iter().map(|r| r.song_hash.as_str()).collect();
    assert_eq!(hashes, vec!["a1", "a2", "b1", "c1", "c2"]);
}

#[test]
fn parse_matches_known_suffixes() {
    assert_eq!(parse("SoloStandard"), BeatmapCharacteristic::Standard);
    assert_eq!(parse("SoloLawless"), BeatmapCharacteristic::Lawless);
    assert_eq!(parse("SoloLightshow"), BeatmapCharacteristic::Lightshow);
    assert_eq!(parse("SoloNoArrows"), BeatmapCharacteristic::NoArrows);
    assert_eq!(parse("SoloOneSaber"), BeatmapCharacteristic::OneSaber);
    assert_eq!(parse("Solo360Degree"), BeatmapCharacteristic::Degrees360);
    assert_eq!(parse("Solo90Degree"), BeatmapCharacteristic::Degrees90);
    assert_eq!(
        parse("SoloMissingCharacteristic"),
        BeatmapCharacteristic::MissingCharacteristic
    );
}

#[test]
fn parse_ignores_the_marker_content() {
    // Only the position of the marker matters, not what it holds.
    assert_eq!(parse("XXXXOneSaber"), BeatmapCharacteristic::OneSaber);
}

#[test]
fn parse_falls_back_to_standard_without_error() {
    assert_eq!(parse("SoloSomethingElse"), BeatmapCharacteristic::Standard);
    assert_eq!(parse("SolostandarD"), BeatmapCharacteristic::Standard);
    assert_eq!(parse(""), BeatmapCharacteristic::Standard);
    assert_eq!(parse("abc"), BeatmapCharacteristic::Standard);
}

#[test]
fn parse_outcome_tells_fallback_from_genuine_match() {
    assert_eq!(
        parse_characteristic("SoloStandard"),
        ParseOutcome::Matched(BeatmapCharacteristic::Standard)
    );
    assert_eq!(parse_characteristic("SoloSomethingElse"), ParseOutcome::Fallback);
    assert_eq!(parse_characteristic("ab"), ParseOutcome::Fallback);
}

#[test]
fn characteristic_default_is_standard() {
    assert_eq!(BeatmapCharacteristic::default(), BeatmapCharacteristic::Standard);
}

#[test]
fn stats_row_default_is_all_zero() {
    let d = LevelsStatsDatum::default();
    assert_eq!(d.level_id, "");
    assert_eq!(d.difficulty, 0);
    assert_eq!(d.beatmap_characteristic_name, BeatmapCharacteristic::Standard);
    assert_eq!(d.high_score, 0);
    assert_eq!(d.max_combo, 0);
    assert_eq!(d.full_combo, false);
    assert_eq!(d.max_rank, 0);
    assert_eq!(d.valid_score, false);
    assert_eq!(d.play_count, 0);
}

#[test]
fn page_count_handles_extremes() {
    assert_eq!(page_count(u32::MAX, 1), u32::MAX);
    assert_eq!(page_count(u32::MAX, u32::MAX), 1);
    assert_eq!(page_count(7, 3), 3);
}
