//! Properties of the plain rating ledger that hold across calls and states.
use vstd::prelude::*;
use crate::score_ledger::{mean_bps, Error, ScoreLedgerView, MAX_STARS};
use crate::shared::Score;

verus! {

/// A rated `(agent, job)` pair is refused with `Replay` by the scorer (and
/// refused in any case), whatever the rating.
pub proof fn law_rated_pair_is_refused(
    v: ScoreLedgerView,
    caller: Seq<char>,
    agent: Seq<char>,
    rating: u32,
    job: Seq<u8>,
)
    requires
        v.marks.contains((agent, job)),
    ensures
        v.after_submit(caller, agent, rating, job) is Err,
        caller == v.scorer && rating <= MAX_STARS ==> v.after_submit(caller, agent, rating, job)
            == Err::<ScoreLedgerView, Error>(Error::Replay),
{
}

/// The markers only grow: a successful submission marks its pair and keeps
/// every earlier marker, and a change of scorer keeps them all.
pub proof fn law_rated_marks_only_grow(
    v: ScoreLedgerView,
    caller: Seq<char>,
    agent: Seq<char>,
    rating: u32,
    job: Seq<u8>,
    new_scorer: Seq<char>,
)
    ensures
        v.after_submit(caller, agent, rating, job) matches Ok(w) ==> w.marks == v.marks.insert(
            (agent, job),
        ),
        (ScoreLedgerView { scorer: new_scorer, ..v }).marks == v.marks,
{
}

/// A successful submission adds exactly the rating to the sum and one to
/// the count, and touches no other agent's score.
pub proof fn law_submit_adds_one_rating(
    v: ScoreLedgerView,
    caller: Seq<char>,
    agent: Seq<char>,
    rating: u32,
    job: Seq<u8>,
    other: Seq<char>,
)
    requires
        v.after_submit(caller, agent, rating, job) is Ok,
        v.score(agent).count < u32::MAX,
        v.score(agent).sum + rating <= u64::MAX,
        other != agent,
    ensures
        v.after_submit(caller, agent, rating, job)->Ok_0.score(agent).sum == v.score(agent).sum
            + rating,
        v.after_submit(caller, agent, rating, job)->Ok_0.score(agent).count == v.score(agent).count
            + 1,
        v.after_submit(caller, agent, rating, job)->Ok_0.score(other) == v.score(other),
{
}

/// The reported mean of scores within bounds lies in `0..=50_000`
/// (5 stars times 10_000).
pub proof fn law_mean_in_range(s: Score)
    requires
        s.sum <= s.count * MAX_STARS,
    ensures
        mean_bps(s) <= MAX_STARS * 10_000,
{
    if s.count > 0 {
        assert((s.sum * 10_000) / (s.count as int) <= 50_000) by (nonlinear_arith)
            requires
                s.sum <= s.count * 5,
                s.count > 0,
        ;
    }
}


/// A submission is accepted exactly when the caller is the scorer, the
/// rating is at most `MAX_STARS` and the pair is new; a caller other than the
/// scorer is refused with `Unauthorized`, and the scorer with a rating above
/// `MAX_STARS` with `OutOfRange`.
pub proof fn law_submit_accepted_iff(
    v: ScoreLedgerView,
    caller: Seq<char>,
    agent: Seq<char>,
    rating: u32,
    job: Seq<u8>,
)
    ensures
        v.after_submit(caller, agent, rating, job) is Ok <==> (caller == v.scorer && rating
            <= MAX_STARS && !v.marks.contains((agent, job))),
        caller != v.scorer ==> v.after_submit(caller, agent, rating, job) == Err::<
            ScoreLedgerView,
            Error,
        >(Error::Unauthorized),
        caller == v.scorer && rating > MAX_STARS ==> v.after_submit(caller, agent, rating, job)
            == Err::<ScoreLedgerView, Error>(Error::OutOfRange),
{
}

/// The reported mean is the mean rating times 10_000, rounded down: 0 with
/// no ratings; otherwise the largest `m` with `m * count <= sum * 10_000`
/// (whenever that quotient fits in `u32`, as it does for ratings of at most
/// `MAX_STARS`). A single rating `r` gives exactly `r * 10_000`.
pub proof fn law_mean_is_average(s: Score)
    ensures
        s.count == 0 ==> mean_bps(s) == 0,
        s.count > 0 && s.sum * 10_000 < 0x1_0000_0000 * s.count ==> {
            let m = mean_bps(s) as int;
            &&& m * s.count <= s.sum * 10_000
            &&& s.sum * 10_000 < (m + 1) * s.count
        },
        s.count == 1 && s.sum <= MAX_STARS ==> mean_bps(s) == s.sum * 10_000,
{
    if s.count > 0 {
        let x = s.sum * 10_000;
        let c = s.count as int;
        assert(0 <= x / c && (x / c) * c <= x < (x / c + 1) * c) by (nonlinear_arith)
            requires
                x >= 0,
                c > 0,
        ;
        if x < 0x1_0000_0000 * c {
            assert(x / c < 0x1_0000_0000) by (nonlinear_arith)
                requires
                    x >= 0,
                    c > 0,
                    x < 0x1_0000_0000 * c,
            ;
        }
    }
}

/// A call to the ledger that can change its storage, by its arguments.
pub enum ScoreCall {
    Submit { caller: Seq<char>, agent: Seq<char>, rating: u32, job: Seq<u8> },
    SetScorer { scorer: Seq<char> },
}

/// The ledger after one call: a refused submission changes nothing.
pub open spec fn score_step(v: ScoreLedgerView, c: ScoreCall) -> ScoreLedgerView {
    match c {
        ScoreCall::Submit { caller, agent, rating, job } => match v.after_submit(
            caller,
            agent,
            rating,
            job,
        ) {
            Ok(w) => w,
            Err(_) => v,
        },
        ScoreCall::SetScorer { scorer } => ScoreLedgerView { scorer, ..v },
    }
}

/// The ledger after a sequence of calls, in order.
pub open spec fn score_run(v: ScoreLedgerView, calls: Seq<ScoreCall>) -> ScoreLedgerView
    decreases calls.len(),
{
    if calls.len() == 0 {
        v
    } else {
        score_step(score_run(v, calls.drop_last()), calls.last())
    }
}

/// Once a pair is rated it stays rated through any sequence of calls, and
/// every later submission of it is refused (with `Replay` when the scorer
/// submits a rating in range): a rating is never counted twice.
pub proof fn law_replay_refused_for_good(
    v: ScoreLedgerView,
    calls: Seq<ScoreCall>,
    caller: Seq<char>,
    agent: Seq<char>,
    rating: u32,
    job: Seq<u8>,
)
    requires
        v.marks.contains((agent, job)),
    ensures
        score_run(v, calls).marks.contains((agent, job)),
        score_run(v, calls).after_submit(caller, agent, rating, job) is Err,
        caller == score_run(v, calls).scorer && rating <= MAX_STARS ==> score_run(v, calls).after_submit(
            caller,
            agent,
            rating,
            job,
        ) == Err::<ScoreLedgerView, Error>(Error::Replay),
    decreases calls.len(),
{
    if calls.len() > 0 {
        law_replay_refused_for_good(v, calls.drop_last(), caller, agent, rating, job);
    }
}

} // verus!
