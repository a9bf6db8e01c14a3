//! The plain rating ledger: an undecayed sum and count of 0..=5 ratings per
//! agent. An `(agent, job)` pair can be rated once: its marker prevents any
//! replay of the same rating.
use vstd::prelude::*;
use crate::codes;
use crate::ids::{Address, Bytes16, Key, Symbol};
use crate::shared::Score;
use crate::table::Table;

verus! {

/// Highest accepted rating.
pub const MAX_STARS: u32 = 5;

/// Why a ledger call was refused.
#[derive(Clone, Copy, Debug, PartialEq, Eq, PartialOrd, Ord, Structural)]
pub enum Error {
    Unauthorized,
    NotFound,
    Replay,
    OutOfRange,
}

/// The numeric code of each error.
pub open spec fn error_code(e: Error) -> u32 {
    match e {
        Error::Unauthorized => codes::UNAUTHORIZED,
        Error::NotFound => codes::NOT_FOUND,
        Error::Replay => codes::REPLAY,
        Error::OutOfRange => 100,
    }
}

impl Error {
    /// The numeric error code reported to callers.
    pub fn code(&self) -> (r: u32)
        ensures
            r == error_code(*self),
    {
        match self {
            Error::Unauthorized => codes::UNAUTHORIZED,
            Error::NotFound => codes::NOT_FOUND,
            Error::Replay => codes::REPLAY,
            Error::OutOfRange => 100,
        }
    }
}

/// Why a submission is refused, checked in this order: the caller is not the
/// scorer; the rating is above 5; the pair was rated before.
pub open spec fn submission_error(caller: Seq<char>, scorer: Seq<char>, rating: u32, marked: bool) -> Option<
    Error,
> {
    if caller != scorer {
        Some(Error::Unauthorized)
    } else if rating > MAX_STARS {
        Some(Error::OutOfRange)
    } else if marked {
        Some(Error::Replay)
    } else {
        None
    }
}

/// Checks a submission before anything is written.
pub fn check_submission(caller: &Address, scorer: &Address, rating_0_to_5: u32, marked: bool) -> (r:
    Result<(), Error>)
    ensures
        r is Ok <==> submission_error(caller@, scorer@, rating_0_to_5, marked) is None,
        r matches Err(e) ==> submission_error(caller@, scorer@, rating_0_to_5, marked) == Some(e),
{
    if !caller.same(scorer) {
        return Err(Error::Unauthorized);
    }
    if rating_0_to_5 > MAX_STARS {
        return Err(Error::OutOfRange);
    }
    if marked {
        return Err(Error::Replay);
    }
    Ok(())
}

/// The score of an agent with no ratings.
pub open spec fn empty_score() -> Score {
    Score { sum: 0, count: 0 }
}

/// A score after one more rating.
pub open spec fn with_rating(s: Score, rating: u32) -> Score {
    Score { sum: (s.sum + rating) as u64, count: (s.count + 1) as u32 }
}

/// Adds one rating to a score.
pub fn add_rating(s: Score, rating_0_to_5: u32) -> (r: Score)
    requires
        s.sum + rating_0_to_5 <= u64::MAX,
        s.count < u32::MAX,
    ensures
        r == with_rating(s, rating_0_to_5),
{
    Score { sum: s.sum + rating_0_to_5 as u64, count: s.count + 1 }
}

/// The mean rating times 10_000, narrowed to `u32`; 0 with no ratings.
pub open spec fn mean_bps(s: Score) -> u32 {
    if s.count == 0 {
        0
    } else {
        ((s.sum * 10_000) / (s.count as int)) as u32
    }
}

/// The mean rating of a score times 10_000.
pub fn score_mean_bps(s: &Score) -> (r: u32)
    requires
        s.sum * 10_000 <= u64::MAX,
    ensures
        r == mean_bps(*s),
{
    if s.count == 0 {
        0
    } else {
        ((s.sum * 10_000) / (s.count as u64)) as u32
    }
}

/// A stored score; empty when none is stored.
pub open spec fn stored_score(stored: Option<Score>) -> Score {
    match stored {
        Some(s) => s,
        None => empty_score(),
    }
}

/// One submission over the values it reads from storage: whether the pair
/// was rated and the agent's stored score. Returns the score to write back.
pub fn submit_step(
    caller: &Address,
    scorer: &Address,
    marked: bool,
    stored: Option<Score>,
    rating_0_to_5: u32,
) -> (r: Result<Score, Error>)
    requires
        submission_error(caller@, scorer@, rating_0_to_5, marked) is None ==> {
            &&& stored_score(stored).sum + rating_0_to_5 <= u64::MAX
            &&& stored_score(stored).count < u32::MAX
        },
    ensures
        r is Ok <==> submission_error(caller@, scorer@, rating_0_to_5, marked) is None,
        r matches Ok(x) ==> x == with_rating(stored_score(stored), rating_0_to_5),
        r matches Err(e) ==> submission_error(caller@, scorer@, rating_0_to_5, marked) == Some(e),
{
    match check_submission(caller, scorer, rating_0_to_5, marked) {
        Err(e) => Err(e),
        Ok(()) => {
            let s = match stored {
                Some(s) => s,
                None => Score { sum: 0, count: 0 },
            };
            Ok(add_rating(s, rating_0_to_5))
        },
    }
}

/// The ledger's storage, as mathematical values.
#[verifier::ext_equal]
pub struct ScoreLedgerView {
    pub admin: Seq<char>,
    pub scorer: Seq<char>,
    /// Agent → score.
    pub scores: Map<Seq<char>, Score>,
    /// The `(agent, job)` pairs already rated.
    pub marks: Set<(Seq<char>, Seq<u8>)>,
}

impl ScoreLedgerView {
    /// The agent's score; empty by default.
    pub open spec fn score(self, agent: Seq<char>) -> Score {
        if self.scores.contains_key(agent) {
            self.scores[agent]
        } else {
            empty_score()
        }
    }

    /// The ledger after a submission, or the error that refuses it.
    pub open spec fn after_submit(
        self,
        caller: Seq<char>,
        agent: Seq<char>,
        rating: u32,
        job: Seq<u8>,
    ) -> Result<ScoreLedgerView, Error> {
        match submission_error(caller, self.scorer, rating, self.marks.contains((agent, job))) {
            Some(e) => Err(e),
            None => Ok(
                ScoreLedgerView {
                    scores: self.scores.insert(agent, with_rating(self.score(agent), rating)),
                    marks: self.marks.insert((agent, job)),
                    ..self
                },
            ),
        }
    }
}

/// Every stored score is a sum of at most `count` ratings of at most 5.
pub open spec fn scores_bounded(scores: Map<Seq<char>, Score>) -> bool {
    forall|a: Seq<char>| #[trigger]
        scores.contains_key(a) ==> scores[a].sum <= scores[a].count * MAX_STARS
}

/// The plain rating ledger: its admin, its scorer, the scores and the
/// markers of rated pairs.
pub struct ReputationLedger {
    admin: Address,
    scorer: Address,
    scores: Table<Symbol, Score>,
    marks: Table<(Symbol, Bytes16), bool>,
}

impl View for ReputationLedger {
    type V = ScoreLedgerView;

    closed spec fn view(&self) -> ScoreLedgerView {
        ScoreLedgerView {
            admin: self.admin@,
            scorer: self.scorer@,
            scores: self.scores.contents(),
            marks: self.marks.contents().dom(),
        }
    }
}

impl ReputationLedger {
    /// The ledger's invariant: its tables are well formed and every score is
    /// bounded by its count.
    pub closed spec fn wf(&self) -> bool {
        &&& self.scores.wf()
        &&& self.marks.wf()
        &&& scores_bounded(self.scores.contents())
    }

    /// A well-formed ledger's scores are bounded by their counts.
    pub proof fn lemma_scores_bounded(&self)
        requires
            self.wf(),
        ensures
            scores_bounded(self@.scores),
    {
    }

    /// A ledger deployed with `admin` and `scorer` and no ratings.
    pub fn new(admin: Address, scorer: Address) -> (r: Self)
        ensures
            r.wf(),
            r@.admin == admin@,
            r@.scorer == scorer@,
            r@.scores == Map::<Seq<char>, Score>::empty(),
            r@.marks == Set::<(Seq<char>, Seq<u8>)>::empty(),
    {
        let r = ReputationLedger { admin, scorer, scores: Table::new(), marks: Table::new() };
        assert(r@.marks =~= Set::<(Seq<char>, Seq<u8>)>::empty());
        r
    }

    fn marked(&self, key: &(Symbol, Bytes16)) -> (r: bool)
        requires
            self.wf(),
        ensures
            r == self@.marks.contains(key@),
    {
        self.marks.contains(key)
    }

    /// Records a rating for a completed job; the caller must be the scorer.
    pub fn submit(&mut self, caller: &Address, agent_id: &Symbol, rating_0_to_5: u32, job_id: &Bytes16) -> (r:
        Result<(), Error>)
        requires
            old(self).wf(),
            submission_error(
                caller@,
                old(self)@.scorer,
                rating_0_to_5,
                old(self)@.marks.contains((agent_id@, job_id@)),
            ) is None ==> old(self)@.score(agent_id@).count < u32::MAX,
        ensures
            final(self).wf(),
            match r {
                Ok(()) => old(self)@.after_submit(caller@, agent_id@, rating_0_to_5, job_id@)
                    == Ok::<ScoreLedgerView, Error>(final(self)@),
                Err(e) => old(self)@.after_submit(caller@, agent_id@, rating_0_to_5, job_id@)
                    == Err::<ScoreLedgerView, Error>(e) && final(self)@ == old(self)@,
            },
    {
        let key = (agent_id.duplicate(), *job_id);
        let marked = self.marked(&key);
        let stored = match self.scores.get(agent_id) {
            Some(x) => Some(*x),
            None => None,
        };
        proof {
            if stored is Some {
                assert(self.scores.contents().contains_key(agent_id@));
            }
        }
        let updated = match submit_step(caller, &self.scorer, marked, stored, rating_0_to_5) {
            Err(e) => {
                return Err(e);
            },
            Ok(x) => x,
        };
        let ghost old_self = *self;
        self.scores.insert(agent_id.duplicate(), updated);
        let ghost kv = key@;
        self.marks.insert(key, true);
        proof {
            assert(self@.marks =~= old_self@.marks.insert(kv));
            assert(self@ =~= old_self@.after_submit(caller@, agent_id@, rating_0_to_5, job_id@)->Ok_0);
            assert forall|a: Seq<char>| #[trigger]
                self.scores.contents().contains_key(a) implies self.scores.contents()[a].sum
                <= self.scores.contents()[a].count * MAX_STARS by {
                if a != agent_id@ {
                    assert(old_self.scores.contents().contains_key(a));
                }
            }
        }
        Ok(())
    }

    /// The agent's raw sum and count; empty by default.
    pub fn score(&self, agent_id: &Symbol) -> (r: Score)
        requires
            self.wf(),
        ensures
            r == self@.score(agent_id@),
            r.sum <= r.count * MAX_STARS,
    {
        match self.scores.get(agent_id) {
            Some(s) => *s,
            None => Score { sum: 0, count: 0 },
        }
    }

    /// The agent's mean rating times 10_000; 0 with no ratings.
    pub fn avg_bps(&self, agent_id: &Symbol) -> (r: u32)
        requires
            self.wf(),
        ensures
            r == mean_bps(self@.score(agent_id@)),
    {
        let s = self.score(agent_id);
        score_mean_bps(&s)
    }

    /// Replaces the scorer. The admin's signature is checked by the host.
    pub fn set_scorer(&mut self, new_scorer: Address) -> (r: Result<(), Error>)
        requires
            old(self).wf(),
        ensures
            r is Ok,
            final(self).wf(),
            final(self)@ == (ScoreLedgerView { scorer: new_scorer@, ..old(self)@ }),
    {
        self.scorer = new_scorer;
        Ok(())
    }
}

} // verus!
