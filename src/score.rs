//! Scores kept per player, and the win check.

use crate::player::PlayerId;
use ahash::AHashMap;
use vstd::prelude::*;

verus! {

#[verifier::external_type_specification]
#[verifier::external_body]
#[verifier::reject_recursive_types(K)]
#[verifier::reject_recursive_types(V)]
#[verifier::reject_recursive_types(S)]
pub struct ExAHashMap<K, V, S>(AHashMap<K, V, S>);

#[verifier::external_type_specification]
#[verifier::external_body]
pub struct ExAHashState(ahash::RandomState);

/// What a map from player numbers to points holds.
pub uninterp spec fn points_map(m: AHashMap<usize, usize>) -> Map<usize, usize>;

/// Relies on `AHashMap::new`: a map with no entries.
#[verifier::external_body]
fn empty_points() -> (r: AHashMap<usize, usize>)
    ensures
        points_map(r).dom().is_empty(),
{
    AHashMap::new()
}

/// Relies on `AHashMap::insert` (which is `HashMap::insert`): afterwards the
/// key maps to the value, and the other entries are kept.
#[verifier::external_body]
fn insert_points(m: &mut AHashMap<usize, usize>, key: usize, value: usize)
    ensures
        points_map(*final(m)) == points_map(*old(m)).insert(key, value),
{
    m.insert(key, value);
}

/// Relies on `AHashMap::get` (which is `HashMap::get`): the value the key
/// maps to, if any.
#[verifier::external_body]
fn get_points(m: &AHashMap<usize, usize>, key: usize) -> (r: Option<usize>)
    ensures
        points_map(*m).contains_key(key) ==> r == Some(points_map(*m)[key]),
        !points_map(*m).contains_key(key) ==> r is None,
{
    m.get(&key).copied()
}

/// A player's score.
#[derive(Debug, Default, PartialEq, Eq, PartialOrd, Ord, Copy, Clone, Structural)]
pub struct Score(pub usize);

/// Why a score could not be retrieved.
#[derive(Debug, Clone, Copy, PartialEq, Eq, Structural)]
pub enum ScoreError {
    PlayerNotFound { player_id: PlayerId },
}

/// Scores by player, as last recorded.
pub struct ScoreState {
    scores: AHashMap<usize, usize>,
}

impl ScoreState {
    /// The recorded scores, by player number.
    pub closed spec fn spec_scores(&self) -> Map<usize, Score> {
        points_map(self.scores).map_values(|v: usize| Score(v))
    }

    /// No scores recorded.
    pub fn new() -> (r: ScoreState)
        ensures
            r.spec_scores() == Map::<usize, Score>::empty(),
    {
        let r = ScoreState { scores: empty_points() };
        assert(r.spec_scores() =~= Map::<usize, Score>::empty());
        r
    }

    /// Records `score` as the player's score.
    pub fn update_score(&mut self, id: PlayerId, score: Score)
        ensures
            final(self).spec_scores() == old(self).spec_scores().insert(id.0, score),
    {
        insert_points(&mut self.scores, id.0, score.0);
        assert(self.spec_scores() =~= old(self).spec_scores().insert(id.0, score));
    }

    /// The player's recorded score.
    pub fn retrieve_score(&self, id: PlayerId) -> (r: Result<Score, ScoreError>)
        ensures
            self.spec_scores().contains_key(id.0) ==> r == Ok::<Score, ScoreError>(
                self.spec_scores()[id.0],
            ),
            !self.spec_scores().contains_key(id.0) ==> r == Err::<Score, ScoreError>(
                ScoreError::PlayerNotFound { player_id: id },
            ),
    {
        match get_points(&self.scores, id.0) {
            Some(v) => Ok(Score(v)),
            None => Err(ScoreError::PlayerNotFound { player_id: id }),
        }
    }
}

/// Whether an update made someone win.
#[derive(Debug, Clone, Copy, PartialEq, Eq, Hash, Structural)]
pub enum ScoreResult {
    Continue,
    Win,
}

/// Points by player number, and the points that win.
pub struct ManagerState {
    scores: AHashMap<usize, usize>,
    win_condition: usize,
}

/// A player's points: those recorded, or none.
pub open spec fn points_of(scores: Map<usize, usize>, id: usize) -> nat {
    if scores.contains_key(id) {
        scores[id] as nat
    } else {
        0
    }
}

impl ManagerState {
    /// Points recorded so far, by player number.
    pub closed spec fn spec_scores(&self) -> Map<usize, usize> {
        points_map(self.scores)
    }

    /// The points that win.
    pub closed spec fn spec_win_condition(&self) -> usize {
        self.win_condition
    }

    /// No points recorded; `win_condition` points win.
    pub fn new(win_condition: usize) -> (r: ManagerState)
        ensures
            r.spec_scores() == Map::<usize, usize>::empty(),
            r.spec_win_condition() == win_condition,
    {
        let r = ManagerState { scores: empty_points(), win_condition };
        assert(r.spec_scores() =~= Map::<usize, usize>::empty());
        r
    }

    /// The player's points, recording 0 for a player not seen before.
    pub fn get_score(&mut self, id: usize) -> (r: usize)
        ensures
            r == points_of(old(self).spec_scores(), id),
            final(self).spec_scores() == old(self).spec_scores().insert(id, r),
            final(self).spec_win_condition() == old(self).spec_win_condition(),
    {
        let score = match get_points(&self.scores, id) {
            Some(s) => s,
            None => 0,
        };
        insert_points(&mut self.scores, id, score);
        score
    }

    /// Adds `add` points to the player, and tells whether the player has now
    /// reached the winning points.
    pub fn add_score_check_winner(&mut self, id: usize, add: usize) -> (r: ScoreResult)
        requires
            points_of(old(self).spec_scores(), id) + add <= usize::MAX,
        ensures
            final(self).spec_scores() == old(self).spec_scores().insert(
                id,
                (points_of(old(self).spec_scores(), id) + add) as usize,
            ),
            final(self).spec_win_condition() == old(self).spec_win_condition(),
            r == (if points_of(old(self).spec_scores(), id) + add >= old(
                self,
            ).spec_win_condition() {
                ScoreResult::Win
            } else {
                ScoreResult::Continue
            }),
    {
        let current = match get_points(&self.scores, id) {
            Some(s) => s,
            None => 0,
        };
        let updated = current + add;
        insert_points(&mut self.scores, id, updated);
        if updated >= self.win_condition {
            ScoreResult::Win
        } else {
            ScoreResult::Continue
        }
    }
}

} // verus!
