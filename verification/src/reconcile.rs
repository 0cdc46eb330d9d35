//! Identity-based indexing of chart statistics and the merge of remote
//! score records into them.
//!
//! The index holds at most one row per chart identity. Merging a remote
//! record overwrites exactly the high score and the full-combo flag of a
//! matching row, or creates a fresh row when no identity matches; rows no
//! record touches are carried through unchanged, and none is ever deleted.

use vstd::map::*;
use vstd::pervasive::VecAdditionalExecFns;
use vstd::prelude::*;

use crate::chart_key::ChartKey;
use crate::chart_key::KeyModel;
use crate::chart_key::key_eq;
use crate::chart_key::key_of_record;
use crate::chart_key::key_of_stat;
use crate::chart_key::record_key;
use crate::chart_key::stat_key;
use crate::data::LevelsStatsDatum;
use crate::data::StatModel;
use crate::scoresaber::RecordModel;
use crate::scoresaber::RemoteScoreRecord;

verus! {

/// Whether no two rows of `stats` carry the same identity.
pub open spec fn unique_keys(stats: Seq<StatModel>) -> bool {
    forall|i: int, j: int|
        0 <= i < j < stats.len() ==> stat_key(stats[i]) != stat_key(stats[j])
}

/// The identity-keyed map a sequence of rows denotes; of two rows with the
/// same identity the later one wins.
pub open spec fn spec_index(stats: Seq<StatModel>) -> Map<KeyModel, StatModel>
    decreases stats.len(),
{
    if stats.len() == 0 {
        Map::empty()
    } else {
        spec_index(stats.drop_last()).insert(stat_key(stats.last()), stats.last())
    }
}

/// A key is in the index of `stats` exactly when some row carries it.
pub proof fn lemma_spec_index_contains(stats: Seq<StatModel>, k: KeyModel)
    ensures
        spec_index(stats).dom().contains(k) <==> exists|i: int|
            0 <= i < stats.len() && stat_key(stats[i]) == k,
    decreases stats.len(),
{
    if stats.len() > 0 {
        lemma_spec_index_contains(stats.drop_last(), k);
        if stat_key(stats.last()) == k {
            assert(stat_key(stats[stats.len() - 1]) == k);
        } else {
            if exists|i: int| 0 <= i < stats.len() && stat_key(stats[i]) == k {
                let i = choose|i: int| 0 <= i < stats.len() && stat_key(stats[i]) == k;
                assert(stats.drop_last()[i] == stats[i]);
            }
            if spec_index(stats).dom().contains(k) {
                let i = choose|i: int|
                    0 <= i < stats.drop_last().len() && stat_key(stats.drop_last()[i]) == k;
                assert(stat_key(stats[i]) == k);
            }
        }
    }
}

/// Under unique identities, the index maps each row's key to that row.
pub proof fn lemma_spec_index_at(stats: Seq<StatModel>, i: int)
    requires
        unique_keys(stats),
        0 <= i < stats.len(),
    ensures
        spec_index(stats).dom().contains(stat_key(stats[i])),
        spec_index(stats)[stat_key(stats[i])] == stats[i],
    decreases stats.len(),
{
    if i < stats.len() - 1 {
        assert(unique_keys(stats.drop_last())) by {
            assert(forall|a: int, b: int|
                0 <= a < b < stats.drop_last().len() ==> stats.drop_last()[a] == stats[a]
                    && stats.drop_last()[b] == stats[b]);
        }
        lemma_spec_index_at(stats.drop_last(), i);
        assert(stats.drop_last()[i] == stats[i]);
        assert(stat_key(stats.last()) != stat_key(stats[i]));
    }
}

/// Replacing the row at `i` by one with the same identity turns the index
/// into the index with that key re-bound.
pub proof fn lemma_spec_index_update(stats: Seq<StatModel>, i: int, x: StatModel)
    requires
        unique_keys(stats),
        0 <= i < stats.len(),
        stat_key(x) == stat_key(stats[i]),
    ensures
        spec_index(stats.update(i, x)) == spec_index(stats).insert(stat_key(x), x),
    decreases stats.len(),
{
    let k = stat_key(x);
    if i == stats.len() - 1 {
        assert(stats.update(i, x).drop_last() =~= stats.drop_last());
        assert(stats.update(i, x).last() == x);
        assert(spec_index(stats.update(i, x)) =~= spec_index(stats).insert(k, x));
    } else {
        assert(unique_keys(stats.drop_last())) by {
            assert(forall|a: int, b: int|
                0 <= a < b < stats.drop_last().len() ==> stats.drop_last()[a] == stats[a]
                    && stats.drop_last()[b] == stats[b]);
        }
        assert(stats.drop_last()[i] == stats[i]);
        lemma_spec_index_update(stats.drop_last(), i, x);
        assert(stats.update(i, x).drop_last() =~= stats.drop_last().update(i, x));
        assert(stats.update(i, x).last() == stats.last());
        assert(stat_key(stats.last()) != k);
        assert(spec_index(stats.update(i, x)) =~= spec_index(stats).insert(k, x));
    }
}

/// Appending a row binds its key at the end of the index.
pub proof fn lemma_spec_index_push(stats: Seq<StatModel>, x: StatModel)
    ensures
        spec_index(stats.push(x)) == spec_index(stats).insert(stat_key(x), x),
{
    assert(stats.push(x).drop_last() =~= stats);
    assert(stats.push(x).last() == x);
}

/// A matched row after the merge: the remote high score and full-combo
/// flag, every other field as it was.
pub open spec fn merged_stat(s: StatModel, r: RecordModel) -> StatModel {
    StatModel { high_score: r.modified_score, full_combo: r.full_combo, ..s }
}

/// The row created for a remote record with no matching identity: identity
/// from the key, score data from the record, play count 1, valid-score
/// set, everything else zero.
pub open spec fn fresh_stat(k: KeyModel, r: RecordModel) -> StatModel {
    StatModel {
        level_id: k.level_id,
        difficulty: k.difficulty,
        characteristic: k.characteristic,
        high_score: r.modified_score,
        max_combo: 0,
        full_combo: r.full_combo,
        max_rank: 0,
        valid_score: true,
        play_count: 1,
    }
}

/// The effect of one remote record on the index: merge into the row its
/// derived key matches, or bind a fresh row under that key.
pub open spec fn apply_record(m: Map<KeyModel, StatModel>, r: RecordModel) -> Map<
    KeyModel,
    StatModel,
> {
    let k = record_key(r);
    if m.dom().contains(k) {
        m.insert(k, merged_stat(m[k], r))
    } else {
        m.insert(k, fresh_stat(k, r))
    }
}

/// The effect of a whole record sequence, applied in input order.
pub open spec fn spec_reconcile(
    m: Map<KeyModel, StatModel>,
    records: Seq<RecordModel>,
) -> Map<KeyModel, StatModel>
    decreases records.len(),
{
    if records.len() == 0 {
        m
    } else {
        apply_record(spec_reconcile(m, records.drop_last()), records.last())
    }
}

/// No remote records, no change: reconciling against the empty record
/// list leaves the index exactly as it was.
pub proof fn lemma_reconcile_empty(m: Map<KeyModel, StatModel>)
    ensures
        spec_reconcile(m, Seq::<RecordModel>::empty()) == m,
{
}

/// A chart identity that no remote record derives keeps exactly the row
/// it had: present or absent as before, and, if present, unchanged.
pub proof fn lemma_reconcile_untouched(
    m: Map<KeyModel, StatModel>,
    records: Seq<RecordModel>,
    k: KeyModel,
)
    requires
        forall|i: int| 0 <= i < records.len() ==> record_key(records[i]) != k,
    ensures
        spec_reconcile(m, records).dom().contains(k) <==> m.dom().contains(k),
        m.dom().contains(k) ==> spec_reconcile(m, records)[k] == m[k],
    decreases records.len(),
{
    if records.len() > 0 {
        assert(forall|i: int|
            0 <= i < records.drop_last().len() ==> records.drop_last()[i] == records[i]);
        lemma_reconcile_untouched(m, records.drop_last(), k);
        assert(record_key(records[records.len() - 1]) != k);
    }
}

/// Merging a record whose identity is already present overwrites exactly
/// the high score and the full-combo flag of that row; every other field
/// of it, and every other row, is untouched, and no identity appears or
/// disappears.
pub proof fn lemma_apply_record_matched(m: Map<KeyModel, StatModel>, r: RecordModel)
    requires
        m.dom().contains(record_key(r)),
    ensures
        apply_record(m, r).dom() == m.dom(),
        apply_record(m, r)[record_key(r)].high_score == r.modified_score,
        apply_record(m, r)[record_key(r)].full_combo == r.full_combo,
        apply_record(m, r)[record_key(r)].level_id == m[record_key(r)].level_id,
        apply_record(m, r)[record_key(r)].difficulty == m[record_key(r)].difficulty,
        apply_record(m, r)[record_key(r)].characteristic == m[record_key(r)].characteristic,
        apply_record(m, r)[record_key(r)].max_combo == m[record_key(r)].max_combo,
        apply_record(m, r)[record_key(r)].max_rank == m[record_key(r)].max_rank,
        apply_record(m, r)[record_key(r)].valid_score == m[record_key(r)].valid_score,
        apply_record(m, r)[record_key(r)].play_count == m[record_key(r)].play_count,
        forall|k: KeyModel|
            m.dom().contains(k) && k != record_key(r) ==> apply_record(m, r)[k] == m[k],
{
    assert(apply_record(m, r).dom() =~= m.dom());
}

/// Merging a record with no matching identity creates exactly one new
/// row: identity from the derived key, remote score data, play count 1,
/// the valid-score flag set; every existing row is untouched.
pub proof fn lemma_apply_record_new(m: Map<KeyModel, StatModel>, r: RecordModel)
    requires
        !m.dom().contains(record_key(r)),
    ensures
        apply_record(m, r).dom() == m.dom().insert(record_key(r)),
        apply_record(m, r)[record_key(r)] == fresh_stat(record_key(r), r),
        apply_record(m, r)[record_key(r)].play_count == 1,
        apply_record(m, r)[record_key(r)].valid_score == true,
        apply_record(m, r)[record_key(r)].level_id == record_key(r).level_id,
        apply_record(m, r)[record_key(r)].characteristic == record_key(r).characteristic,
        apply_record(m, r)[record_key(r)].difficulty == record_key(r).difficulty,
        forall|k: KeyModel| m.dom().contains(k) ==> apply_record(m, r)[k] == m[k],
{
    assert(apply_record(m, r).dom() =~= m.dom().insert(record_key(r)));
}

/// An identity is present after reconciliation exactly when it was
/// present before or some record derives it: reconciliation never deletes
/// a row.
pub proof fn lemma_reconcile_dom(
    m: Map<KeyModel, StatModel>,
    records: Seq<RecordModel>,
    k: KeyModel,
)
    ensures
        spec_reconcile(m, records).dom().contains(k) <==> (m.dom().contains(k) || exists|i: int|
            0 <= i < records.len() && record_key(records[i]) == k),
    decreases records.len(),
{
    if records.len() > 0 {
        lemma_reconcile_dom(m, records.drop_last(), k);
        if exists|i: int| 0 <= i < records.drop_last().len() && record_key(
            records.drop_last()[i],
        ) == k {
            let i = choose|i: int|
                0 <= i < records.drop_last().len() && record_key(records.drop_last()[i]) == k;
            assert(record_key(records[i]) == k);
        }
        if record_key(records.last()) == k {
            assert(record_key(records[records.len() - 1]) == k);
        } else {
            if exists|i: int| 0 <= i < records.len() && record_key(records[i]) == k {
                let i = choose|i: int| 0 <= i < records.len() && record_key(records[i]) == k;
                assert(records.drop_last()[i] == records[i]);
            }
        }
    }
}

/// Whatever the records, a row present at the start keeps its identity
/// fields and its locally-owned fields: only the high score and the
/// full-combo flag can change.
pub proof fn lemma_reconcile_keeps_local_fields(
    m: Map<KeyModel, StatModel>,
    records: Seq<RecordModel>,
    k: KeyModel,
)
    requires
        m.dom().contains(k),
    ensures
        spec_reconcile(m, records).dom().contains(k),
        spec_reconcile(m, records)[k].level_id == m[k].level_id,
        spec_reconcile(m, records)[k].difficulty == m[k].difficulty,
        spec_reconcile(m, records)[k].characteristic == m[k].characteristic,
        spec_reconcile(m, records)[k].max_combo == m[k].max_combo,
        spec_reconcile(m, records)[k].max_rank == m[k].max_rank,
        spec_reconcile(m, records)[k].valid_score == m[k].valid_score,
        spec_reconcile(m, records)[k].play_count == m[k].play_count,
    decreases records.len(),
{
    if records.len() > 0 {
        lemma_reconcile_keeps_local_fields(m, records.drop_last(), k);
    }
}

/// The full-reconciliation shape of a matched record: when a record's
/// derived identity was present at the start and no later record derives
/// the same identity, the final row carries that record's high score and
/// full-combo flag and every other field of the original row.
pub proof fn lemma_reconcile_matched(
    m: Map<KeyModel, StatModel>,
    records: Seq<RecordModel>,
    i: int,
)
    requires
        0 <= i < records.len(),
        m.dom().contains(record_key(records[i])),
        forall|j: int|
            i < j < records.len() ==> record_key(records[j]) != record_key(records[i]),
    ensures
        ({
            let k = record_key(records[i]);
            let out = spec_reconcile(m, records);
            &&& out.dom().contains(k)
            &&& out[k].high_score == records[i].modified_score
            &&& out[k].full_combo == records[i].full_combo
            &&& out[k].level_id == m[k].level_id
            &&& out[k].difficulty == m[k].difficulty
            &&& out[k].characteristic == m[k].characteristic
            &&& out[k].max_combo == m[k].max_combo
            &&& out[k].max_rank == m[k].max_rank
            &&& out[k].valid_score == m[k].valid_score
            &&& out[k].play_count == m[k].play_count
        }),
    decreases records.len(),
{
    let k = record_key(records[i]);
    if i == records.len() - 1 {
        lemma_reconcile_keeps_local_fields(m, records.drop_last(), k);
    } else {
        assert(forall|j: int|
            0 <= j < records.drop_last().len() ==> records.drop_last()[j] == records[j]);
        lemma_reconcile_matched(m, records.drop_last(), i);
        assert(record_key(records[records.len() - 1]) != k);
    }
}

/// The full-reconciliation shape of an unmatched record: an identity that
/// no local row carried but some record derives ends up bound to a row
/// created by reconciliation, with the identity's own components, play
/// count 1, the valid-score flag set, and zero combo and rank.
pub proof fn lemma_reconcile_created(
    m: Map<KeyModel, StatModel>,
    records: Seq<RecordModel>,
    k: KeyModel,
)
    requires
        !m.dom().contains(k),
        exists|i: int| 0 <= i < records.len() && record_key(records[i]) == k,
    ensures
        ({
            let out = spec_reconcile(m, records);
            &&& out.dom().contains(k)
            &&& out[k].level_id == k.level_id
            &&& out[k].difficulty == k.difficulty
            &&& out[k].characteristic == k.characteristic
            &&& out[k].play_count == 1
            &&& out[k].valid_score == true
            &&& out[k].max_combo == 0
            &&& out[k].max_rank == 0
        }),
    decreases records.len(),
{
    let out = spec_reconcile(m, records);
    let i = choose|i: int| 0 <= i < records.len() && record_key(records[i]) == k;
    if record_key(records.last()) == k {
        let inner = spec_reconcile(m, records.drop_last());
        if inner.dom().contains(k) {
            lemma_reconcile_dom(m, records.drop_last(), k);
            let j = choose|j: int|
                0 <= j < records.drop_last().len() && record_key(records.drop_last()[j]) == k;
            assert(record_key(records[j]) == k);
            lemma_reconcile_created(m, records.drop_last(), k);
        }
    } else {
        assert(records.drop_last()[i] == records[i]);
        lemma_reconcile_created(m, records.drop_last(), k);
    }
}

/// Merging the same record twice gives exactly the state of merging it
/// once.
pub proof fn lemma_apply_record_idempotent(m: Map<KeyModel, StatModel>, r: RecordModel)
    ensures
        apply_record(apply_record(m, r), r) == apply_record(m, r),
{
    let k = record_key(r);
    let once = apply_record(m, r);
    if m.dom().contains(k) {
        assert(merged_stat(merged_stat(m[k], r), r) =~= merged_stat(m[k], r));
    } else {
        assert(merged_stat(fresh_stat(k, r), r) =~= fresh_stat(k, r));
    }
    assert(apply_record(once, r) =~= once);
}

/// The identity-keyed index of a player's chart statistics: a row list in
/// which no two rows carry the same identity.
#[derive(Debug)]
pub struct ScoreIndex {
    entries: Vec<LevelsStatsDatum>,
}

impl View for ScoreIndex {
    type V = Map<KeyModel, StatModel>;

    open spec fn view(&self) -> Map<KeyModel, StatModel> {
        spec_index(self.stats())
    }
}

impl ScoreIndex {
    /// The rows in their current flattened order.
    pub closed spec fn stats(self) -> Seq<StatModel> {
        self.entries.deep_view()
    }

    /// No two rows carry the same identity.
    pub open spec fn wf(self) -> bool {
        unique_keys(self.stats())
    }

    /// The empty index.
    pub fn new() -> (r: Self)
        ensures
            r.wf(),
            r@ == Map::<KeyModel, StatModel>::empty(),
            r.stats() == Seq::<StatModel>::empty(),
    {
        let r = ScoreIndex { entries: Vec::new() };
        proof {
            assert(r.stats() =~= Seq::<StatModel>::empty());
        }
        r
    }

    /// Number of rows held.
    pub fn len(&self) -> (r: usize)
        ensures
            r == self.stats().len(),
    {
        self.entries.len()
    }

    /// Position of the row carrying `key`, if any.
    fn find(&self, key: &ChartKey) -> (r: Option<usize>)
        ensures
            match r {
                Some(i) => 0 <= i < self.stats().len() && stat_key(self.stats()[i as int])
                    == key@,
                None => forall|i: int|
                    0 <= i < self.stats().len() ==> stat_key(self.stats()[i]) != key@,
            },
    {
        let mut i: usize = 0;
        while i < self.entries.len()
            invariant
                i <= self.stats().len(),
                forall|j: int| 0 <= j < i ==> stat_key(self.stats()[j]) != key@,
            decreases self.stats().len() - i,
        {
            let k = key_of_stat(&self.entries[i]);
            if key_eq(&k, key) {
                return Some(i);
            }
            i = i + 1;
        }
        None
    }

    /// Puts a row in under its own identity; an existing row with the same
    /// identity is replaced, the newcomer winning.
    pub fn upsert(&mut self, stat: LevelsStatsDatum)
        requires
            old(self).wf(),
        ensures
            final(self).wf(),
            final(self)@ == old(self)@.insert(stat_key(stat@), stat@),
    {
        let ghost stats0 = self.stats();
        let key = key_of_stat(&stat);
        match self.find(&key) {
            Some(i) => {
                proof {
                    lemma_spec_index_update(stats0, i as int, stat@);
                }
                self.entries.set(i, stat);
                proof {
                    assert(self.stats() =~= stats0.update(i as int, stat@));
                    assert forall|a: int, b: int|
                        0 <= a < b < self.stats().len() implies stat_key(self.stats()[a])
                        != stat_key(self.stats()[b]) by {
                        assert(a != i as int ==> self.stats()[a] == stats0[a]);
                        assert(b != i as int ==> self.stats()[b] == stats0[b]);
                    }
                }
            },
            None => {
                self.entries.push(stat);
                proof {
                    assert(self.stats() =~= stats0.push(stat@));
                    lemma_spec_index_push(stats0, stat@);
                    assert forall|a: int, b: int|
                        0 <= a < b < self.stats().len() implies stat_key(self.stats()[a])
                        != stat_key(self.stats()[b]) by {
                        assert(a < stats0.len() ==> self.stats()[a] == stats0[a]);
                        assert(b < stats0.len() ==> self.stats()[b] == stats0[b]);
                    }
                }
            },
        }
    }

    /// Merges one remote record in: a row with the derived identity gets
    /// the remote high score and full-combo flag and keeps every other
    /// field; with no such row, a fresh one is created with play count 1
    /// and the valid-score flag set.
    pub fn apply(&mut self, record: &RemoteScoreRecord)
        requires
            old(self).wf(),
        ensures
            final(self).wf(),
            final(self)@ == apply_record(old(self)@, record@),
    {
        let ghost stats0 = self.stats();
        let key = key_of_record(record);
        match self.find(&key) {
            Some(i) => {
                proof {
                    lemma_spec_index_at(stats0, i as int);
                    lemma_spec_index_contains(stats0, key@);
                }
                let mut s = self.entries[i].clone();
                s.high_score = record.modified_score;
                s.full_combo = record.full_combo;
                proof {
                    assert(s@ =~= merged_stat(old(self)@[record_key(record@)], record@));
                    lemma_spec_index_update(stats0, i as int, s@);
                }
                let ghost sv = s@;
                self.entries.set(i, s);
                proof {
                    assert(self.stats() =~= stats0.update(i as int, sv));
                    assert forall|a: int, b: int|
                        0 <= a < b < self.stats().len() implies stat_key(self.stats()[a])
                        != stat_key(self.stats()[b]) by {
                        assert(a != i as int ==> self.stats()[a] == stats0[a]);
                        assert(b != i as int ==> self.stats()[b] == stats0[b]);
                    }
                }
            },
            None => {
                proof {
                    lemma_spec_index_contains(stats0, key@);
                }
                let ghost kv = key@;
                let s = LevelsStatsDatum {
                    level_id: key.level_id,
                    difficulty: key.difficulty,
                    beatmap_characteristic_name: key.characteristic,
                    high_score: record.modified_score,
                    max_combo: 0,
                    full_combo: record.full_combo,
                    max_rank: 0,
                    valid_score: true,
                    play_count: 1,
                };
                proof {
                    assert(s@ =~= fresh_stat(kv, record@));
                    assert(stat_key(s@) == kv);
                    lemma_spec_index_push(stats0, s@);
                }
                let ghost sv = s@;
                self.entries.push(s);
                proof {
                    assert(self.stats() =~= stats0.push(sv));
                    assert forall|a: int, b: int|
                        0 <= a < b < self.stats().len() implies stat_key(self.stats()[a])
                        != stat_key(self.stats()[b]) by {
                        assert(a < stats0.len() ==> self.stats()[a] == stats0[a]);
                        assert(b < stats0.len() ==> self.stats()[b] == stats0[b]);
                    }
                }
            },
        }
    }

    /// Merges a whole record list in, in input order.
    pub fn reconcile(&mut self, records: &Vec<RemoteScoreRecord>)
        requires
            old(self).wf(),
        ensures
            final(self).wf(),
            final(self)@ == spec_reconcile(old(self)@, records.deep_view()),
    {
        let mut i: usize = 0;
        while i < records.len()
            invariant
                i <= records@.len(),
                self.wf(),
                self@ == spec_reconcile(old(self)@, records.deep_view().take(i as int)),
            decreases records@.len() - i,
        {
            self.apply(&records[i]);
            proof {
                let rv = records.deep_view();
                assert(rv.take(i + 1).drop_last() =~= rv.take(i as int));
                assert(rv.take(i + 1).last() == rv[i as int]);
            }
            i = i + 1;
        }
        proof {
            assert(records.deep_view().take(records@.len() as int) =~= records.deep_view());
        }
    }

    /// Flattens the index back into a statistics list.
    pub fn to_stats(self) -> (r: Vec<LevelsStatsDatum>)
        ensures
            r.deep_view() == self.stats(),
    {
        self.entries
    }
}

/// Builds the identity index of a statistics list; of two rows with the
/// same identity the later one silently wins.
pub fn index(stats: &Vec<LevelsStatsDatum>) -> (r: ScoreIndex)
    ensures
        r.wf(),
        r@ == spec_index(stats.deep_view()),
{
    let mut r = ScoreIndex::new();
    let mut i: usize = 0;
    while i < stats.len()
        invariant
            i <= stats@.len(),
            r.wf(),
            r@ == spec_index(stats.deep_view().take(i as int)),
        decreases stats@.len() - i,
    {
        let s = stats[i].clone();
        r.upsert(s);
        proof {
            let sv = stats.deep_view();
            assert(sv.take(i + 1).drop_last() =~= sv.take(i as int));
            assert(sv.take(i + 1).last() == sv[i as int]);
        }
        i = i + 1;
    }
    proof {
        assert(stats.deep_view().take(stats@.len() as int) =~= stats.deep_view());
    }
    r
}

} // verus!
