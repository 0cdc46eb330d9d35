//! The run's decision core: which player's statistics are replaced, and
//! by what.
//!
//! Loading, fetching and saving are I/O and live with the caller; this
//! module takes the loaded statistics and the fetched records as plain
//! values and computes the replacement list.

use vstd::pervasive::VecAdditionalExecFns;
use vstd::prelude::*;

use crate::data::LevelsStatsDatum;
use crate::reconcile::index;
use crate::reconcile::spec_index;
use crate::reconcile::spec_reconcile;
use crate::reconcile::unique_keys;
use crate::scoresaber::RemoteScoreRecord;

verus! {

/// The one error the pipeline raises before touching anything: the
/// profile holds no local player.
#[derive(Debug, Clone, Copy, PartialEq, Eq, Structural)]
pub enum FatalPreconditionError {
    NoLocalPlayers,
}

/// The reconciled statistics list for one player: index the local rows,
/// merge every remote record in input order, flatten.
pub fn reconcile_stats(
    stats: &Vec<LevelsStatsDatum>,
    records: &Vec<RemoteScoreRecord>,
) -> (r: Vec<LevelsStatsDatum>)
    ensures
        unique_keys(r.deep_view()),
        spec_index(r.deep_view()) == spec_reconcile(
            spec_index(stats.deep_view()),
            records.deep_view(),
        ),
{
    let mut idx = index(stats);
    idx.reconcile(records);
    idx.to_stats()
}

/// One full run's decision: refuse an empty local-player list; otherwise
/// replace the first player's statistics with the reconciled list and
/// leave every other player's untouched.
pub fn apply_remote_scores(
    players_stats: Vec<Vec<LevelsStatsDatum>>,
    records: &Vec<RemoteScoreRecord>,
) -> (r: Result<Vec<Vec<LevelsStatsDatum>>, FatalPreconditionError>)
    ensures
        players_stats@.len() == 0 <==> r is Err,
        r is Err ==> r->Err_0 == FatalPreconditionError::NoLocalPlayers,
        r is Ok ==> r->Ok_0@.len() == players_stats@.len(),
        r is Ok ==> unique_keys(r->Ok_0@[0].deep_view()),
        r is Ok ==> spec_index(r->Ok_0@[0].deep_view()) == spec_reconcile(
            spec_index(players_stats@[0].deep_view()),
            records.deep_view(),
        ),
        r is Ok ==> forall|i: int|
            1 <= i < players_stats@.len() ==> r->Ok_0@[i] == players_stats@[i],
{
    if players_stats.len() == 0 {
        return Err(FatalPreconditionError::NoLocalPlayers);
    }
    let mut players = players_stats;
    let new_first = reconcile_stats(&players[0], records);
    players.set(0, new_first);
    Ok(players)
}

} // verus!
