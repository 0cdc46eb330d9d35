use score_sync::chart_key::ChartKey;
use score_sync::chart_key::key_eq;
use score_sync::chart_key::key_of_record;
use score_sync::chart_key::key_of_stat;
use score_sync::chart_key::level_id_of_hash;
use score_sync::chart_key::to_ascii_upper;
use score_sync::data::BeatmapCharacteristic;
use score_sync::data::LevelsStatsDatum;
use score_sync::orchestrate::FatalPreconditionError;
use score_sync::orchestrate::apply_remote_scores;
use score_sync::orchestrate::reconcile_stats;
use score_sync::reconcile::ScoreIndex;
use score_sync::reconcile::index;
use score_sync::scoresaber::RemoteScoreRecord;

fn stat(
    level_id: &str,
    characteristic: BeatmapCharacteristic,
    difficulty: isize,
    high_score: i64,
    play_count: i64,
) -> LevelsStatsDatum {
    LevelsStatsDatum {
        level_id: level_id.to_string(),
        difficulty,
        beatmap_characteristic_name: characteristic,
        high_score,
        max_combo: 0,
        full_combo: false,
        max_rank: 0,
        valid_score: true,
        play_count,
    }
}

fn record(
    song_hash: &str,
    game_mode: &str,
    difficulty: isize,
    modified_score: i64,
    full_combo: bool,
) -> RemoteScoreRecord {
    RemoteScoreRecord {
        song_hash: song_hash.to_string(),
        game_mode: game_mode.to_string(),
        difficulty,
        modified_score,
        full_combo,
    }
}

#[test]
fn uppercase_maps_ascii_letters_only() {
    assert_eq!(to_ascii_upper("abc"), "ABC");
    assert_eq!(to_ascii_upper("aB9c_z"), "AB9C_Z");
    assert_eq!(to_ascii_upper(""), "");
}

#[test]
fn level_id_prefixes_and_uppercases_hash() {
    assert_eq!(level_id_of_hash("abc"), "custom_level_ABC");
    assert_eq!(level_id_of_hash("1f9A0e"), "custom_level_1F9A0E");
}

#[test]
fn record_key_components() {
    let r = record("abc", "SoloOneSaber", 7, 12345, false);
    let k = key_of_record(&r);
    assert_eq!(k.level_id, "custom_level_ABC");
    assert_eq!(k.characteristic, BeatmapCharacteristic::OneSaber);
    assert_eq!(k.difficulty, 7);
}

#[test]
fn key_equality_is_componentwise() {
    let a = ChartKey {
        level_id: "custom_level_ABC".to_string(),
        characteristic: BeatmapCharacteristic::Standard,
        difficulty: 5,
    };
    let b = key_of_stat(&stat("custom_level_ABC", BeatmapCharacteristic::Standard, 5, 0, 0));
    assert!(key_eq(&a, &b));
    let c = ChartKey {
        level_id: "custom_level_ABC".to_string(),
        characteristic: BeatmapCharacteristic::Standard,
        difficulty: 6,
    };
    assert!(!key_eq(&a, &c));
}

#[test]
fn empty_record_list_changes_nothing() {
    let stats = vec![
        stat("custom_level_AAA", BeatmapCharacteristic::Standard, 1, 10, 2),
        stat("custom_level_BBB", BeatmapCharacteristic::OneSaber, 9, 777, 4),
    ];
    let out = reconcile_stats(&stats, &Vec::new());
    assert_eq!(out.len(), 2);
    for (before, after) in stats.iter().zip(out.iter()) {
        assert_eq!(after.level_id, before.level_id);
        assert_eq!(after.difficulty, before.difficulty);
        assert_eq!(after.beatmap_characteristic_name, before.beatmap_characteristic_name);
        assert_eq!(after.high_score, before.high_score);
        assert_eq!(after.max_combo, before.max_combo);
        assert_eq!(after.full_combo, before.full_combo);
        assert_eq!(after.max_rank, before.max_rank);
        assert_eq!(after.valid_score, before.valid_score);
        assert_eq!(after.play_count, before.play_count);
    }
}

#[test]
fn unmatched_local_row_is_untouched() {
    let stats = vec![
        stat("custom_level_AAA", BeatmapCharacteristic::Standard, 1, 10, 2),
        stat("custom_level_BBB", BeatmapCharacteristic::OneSaber, 9, 777, 4),
    ];
    // Matches only the first row; the second must come through untouched.
    let records = vec![record("aaa", "SoloStandard", 1, 999, true)];
    let out = reconcile_stats(&stats, &records);
    assert_eq!(out.len(), 2);
    let untouched = out.iter().find(|s| s.level_id == "custom_level_BBB").unwrap();
    assert_eq!(untouched.difficulty, 9);
    assert_eq!(untouched.beatmap_characteristic_name, BeatmapCharacteristic::OneSaber);
    assert_eq!(untouched.high_score, 777);
    assert_eq!(untouched.max_combo, 0);
    assert_eq!(untouched.full_combo, false);
    assert_eq!(untouched.max_rank, 0);
    assert_eq!(untouched.valid_score, true);
    assert_eq!(untouched.play_count, 4);
}

#[test]
fn matched_row_gets_score_and_flag_only() {
    // Local stat for the chart that the remote record for hash "abc",
    // Standard, difficulty 5 resolves to.
    let mut existing = stat("custom_level_ABC", BeatmapCharacteristic::Standard, 5, 100, 3);
    existing.max_combo = 42;
    existing.max_rank = 8;
    let stats = vec![existing];
    let records = vec![record("abc", "SoloStandard", 5, 500, true)];
    let out = reconcile_stats(&stats, &records);
    assert_eq!(out.len(), 1);
    let merged = &out[0];
    assert_eq!(merged.high_score, 500);
    assert_eq!(merged.full_combo, true);
    assert_eq!(merged.level_id, "custom_level_ABC");
    assert_eq!(merged.difficulty, 5);
    assert_eq!(merged.beatmap_characteristic_name, BeatmapCharacteristic::Standard);
    assert_eq!(merged.max_combo, 42);
    assert_eq!(merged.max_rank, 8);
    assert_eq!(merged.valid_score, true);
    // An update never increments the play count.
    assert_eq!(merged.play_count, 3);
}

#[test]
fn unmatched_record_creates_fresh_row() {
    let stats = vec![stat("custom_level_AAA", BeatmapCharacteristic::Standard, 1, 10, 2)];
    let records = vec![record("beef", "Solo90Degree", 3, 4321, true)];
    let out = reconcile_stats(&stats, &records);
    assert_eq!(out.len(), 2);
    let fresh = out.iter().find(|s| s.level_id == "custom_level_BEEF").unwrap();
    assert_eq!(fresh.difficulty, 3);
    assert_eq!(fresh.beatmap_characteristic_name, BeatmapCharacteristic::Degrees90);
    assert_eq!(fresh.high_score, 4321);
    assert_eq!(fresh.full_combo, true);
    assert_eq!(fresh.valid_score, true);
    assert_eq!(fresh.play_count, 1);
    assert_eq!(fresh.max_combo, 0);
    assert_eq!(fresh.max_rank, 0);
}

#[test]
fn same_record_twice_is_idempotent() {
    let stats = vec![stat("custom_level_ABC", BeatmapCharacteristic::Standard, 5, 100, 3)];
    let r = record("abc", "SoloStandard", 5, 500, true);
    let once = reconcile_stats(&stats, &vec![r.clone()]);
    let twice = reconcile_stats(&stats, &vec![r.clone(), r]);
    assert_eq!(once.len(), twice.len());
    assert_eq!(once[0].high_score, twice[0].high_score);
    assert_eq!(once[0].full_combo, twice[0].full_combo);
    assert_eq!(once[0].play_count, twice[0].play_count);
}

#[test]
fn later_duplicate_key_wins_in_index() {
    let stats = vec![
        stat("custom_level_AAA", BeatmapCharacteristic::Standard, 1, 10, 2),
        stat("custom_level_AAA", BeatmapCharacteristic::Standard, 1, 999, 7),
    ];
    let idx = index(&stats);
    assert_eq!(idx.len(), 1);
    let out = idx.to_stats();
    assert_eq!(out[0].high_score, 999);
    assert_eq!(out[0].play_count, 7);
}

#[test]
fn index_of_distinct_keys_keeps_every_row() {
    let stats = vec![
        stat("custom_level_AAA", BeatmapCharacteristic::Standard, 1, 10, 2),
        stat("custom_level_AAA", BeatmapCharacteristic::Standard, 3, 20, 1),
        stat("custom_level_AAA", BeatmapCharacteristic::OneSaber, 1, 30, 1),
        stat("custom_level_BBB", BeatmapCharacteristic::Standard, 1, 40, 1),
    ];
    assert_eq!(index(&stats).len(), 4);
}

#[test]
fn empty_index_reconciles_records_in() {
    let mut idx = ScoreIndex::new();
    assert_eq!(idx.len(), 0);
    let records = vec![
        record("abc", "SoloStandard", 5, 500, true),
        record("abc", "SoloStandard", 7, 600, false),
    ];
    idx.reconcile(&records);
    assert_eq!(idx.len(), 2);
}

#[test]
fn no_local_players_is_fatal() {
    let out = apply_remote_scores(Vec::new(), &vec![record("abc", "SoloStandard", 5, 1, false)]);
    assert_eq!(out.unwrap_err(), FatalPreconditionError::NoLocalPlayers);
}

#[test]
fn only_first_player_is_reconciled() {
    let first = vec![stat("custom_level_ABC", BeatmapCharacteristic::Standard, 5, 100, 3)];
    let second = vec![stat("custom_level_ZZZ", BeatmapCharacteristic::Lawless, 2, 50, 1)];
    let records = vec![record("abc", "SoloStandard", 5, 500, true)];
    let out = apply_remote_scores(vec![first, second], &records).unwrap();
    assert_eq!(out.len(), 2);
    assert_eq!(out[0][0].high_score, 500);
    assert_eq!(out[0][0].full_combo, true);
    assert_eq!(out[0][0].play_count, 3);
    assert_eq!(out[1][0].level_id, "custom_level_ZZZ");
    assert_eq!(out[1][0].high_score, 50);
}

#[test]
fn later_record_for_same_key_wins() {
    let records = vec![
        record("cafe", "SoloStandard", 4, 100, false),
        record("cafe", "SoloStandard", 4, 50, true),
    ];
    let out = reconcile_stats(&Vec::new(), &records);
    assert_eq!(out.len(), 1);
    assert_eq!(out[0].level_id, "custom_level_CAFE");
    assert_eq!(out[0].high_score, 50);
    assert_eq!(out[0].full_combo, true);
    assert_eq!(out[0].play_count, 1);
}
