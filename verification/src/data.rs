//! The local profile's data schema: per-chart statistics and the settings
//! blocks that ride along in the profile document.
//!
//! The logic of the library reads and writes only the per-chart statistics
//! (`LevelsStatsDatum`) and the characteristic enum; the other declarations
//! are carried so that a profile round-trips through the library's callers.

use vstd::prelude::*;

verus! {

/// Gameplay-mode variant of a chart. The remote mode string is translated
/// into this closed set; `Standard` is the fallback for anything unknown.
#[derive(Debug, Clone, Copy, PartialEq, Eq, Hash, Structural)]
pub enum BeatmapCharacteristic {
    Standard,
    Lawless,
    Lightshow,
    NoArrows,
    OneSaber,
    Degrees360,
    Degrees90,
    MissingCharacteristic,
}

impl Default for BeatmapCharacteristic {
    /// The schema's default characteristic is `Standard`.
    fn default() -> (r: Self)
        ensures
            r == BeatmapCharacteristic::Standard,
    {
        BeatmapCharacteristic::Standard
    }
}

/// Mathematical value of one per-chart statistics row: strings as character
/// sequences, machine integers as unbounded integers.
#[verifier::ext_equal]
pub ghost struct StatModel {
    pub level_id: Seq<char>,
    pub difficulty: int,
    pub characteristic: BeatmapCharacteristic,
    pub high_score: int,
    pub max_combo: int,
    pub full_combo: bool,
    pub max_rank: int,
    pub valid_score: bool,
    pub play_count: int,
}

/// One row of per-chart statistics in the local profile.
#[derive(Debug)]
pub struct LevelsStatsDatum {
    pub level_id: String,
    pub difficulty: isize,
    pub beatmap_characteristic_name: BeatmapCharacteristic,
    pub high_score: i64,
    pub max_combo: i64,
    pub full_combo: bool,
    pub max_rank: i64,
    pub valid_score: bool,
    pub play_count: i64,
}

impl View for LevelsStatsDatum {
    type V = StatModel;

    open spec fn view(&self) -> StatModel {
        StatModel {
            level_id: self.level_id@,
            difficulty: self.difficulty as int,
            characteristic: self.beatmap_characteristic_name,
            high_score: self.high_score as int,
            max_combo: self.max_combo as int,
            full_combo: self.full_combo,
            max_rank: self.max_rank as int,
            valid_score: self.valid_score,
            play_count: self.play_count as int,
        }
    }
}

impl DeepView for LevelsStatsDatum {
    type V = StatModel;

    open spec fn deep_view(&self) -> StatModel {
        self.view()
    }
}

impl Clone for LevelsStatsDatum {
    /// A clone carries every field over unchanged.
    fn clone(&self) -> (r: Self)
        ensures
            r@ == self@,
    {
        LevelsStatsDatum {
            level_id: self.level_id.clone(),
            difficulty: self.difficulty,
            beatmap_characteristic_name: self.beatmap_characteristic_name,
            high_score: self.high_score,
            max_combo: self.max_combo,
            full_combo: self.full_combo,
            max_rank: self.max_rank,
            valid_score: self.valid_score,
            play_count: self.play_count,
        }
    }
}

impl Default for LevelsStatsDatum {
    /// The default row: empty identifier, `Standard`, every number zero,
    /// every flag false.
    fn default() -> (r: Self)
        ensures
            r@.level_id == Seq::<char>::empty(),
            r@.difficulty == 0,
            r@.characteristic == BeatmapCharacteristic::Standard,
            r@.high_score == 0,
            r@.max_combo == 0,
            r@.full_combo == false,
            r@.max_rank == 0,
            r@.valid_score == false,
            r@.play_count == 0,
    {
        LevelsStatsDatum {
            level_id: String::new(),
            difficulty: 0,
            beatmap_characteristic_name: BeatmapCharacteristic::Standard,
            high_score: 0,
            max_combo: 0,
            full_combo: false,
            max_rank: 0,
            valid_score: false,
            play_count: 0,
        }
    }
}

/// One campaign-mission row in the local profile. Carried through untouched.
#[derive(Debug)]
pub struct MissionsStatsDatum {
    pub mission_id: String,
    pub cleared: bool,
}

/// Gameplay-modifier settings block. Carried through untouched.
#[derive(Debug)]
pub struct GameplayModifiers {
    pub energy_type: i64,
    pub insta_fail: bool,
    pub fail_on_saber_clash: bool,
    pub enabled_obstacle_type: i64,
    pub fast_notes: bool,
    pub strict_angles: bool,
    pub disappearing_arrows: bool,
    pub ghost_notes: bool,
    pub no_bombs: bool,
    pub song_speed: i64,
    pub no_arrows: bool,
    pub no_fail_on0_energy: bool,
    pub pro_mode: bool,
    pub zen_mode: bool,
    pub small_cubes: bool,
}

/// Environment-override settings block. Carried through untouched.
#[derive(Debug)]
pub struct OverrideEnvironmentSettings {
    pub override_environments: bool,
    pub override_normal_environment_name: String,
    pub override360_environment_name: String,
}

/// Agreement-version settings block. Carried through untouched.
#[derive(Debug)]
pub struct PlayerAgreements {
    pub eula_version: i64,
    pub privacy_policy_version: i64,
    pub health_and_safety_version: i64,
}

} // verus!
