//! Properties of the reputation ledger that hold across calls and states.
use vstd::prelude::*;
use crate::reputation::{
    decay_step, decay_steps, decayed, dispute_kind, fits_decay, lemma_decay_steps, dispute_rate, epoch_of, lemma_decayed_wf, lemma_with_rating_wf, Error, mean_bps, smoothed_bps,
    trunc_div, with_rating, LedgerView, RepState, MAX_BPS, MAX_DECAY_EPOCHS, MAX_RATING, MAX_WEIGHT,
};

verus! {

/// Once an `(agent, job)` pair has been rated, every later submission of the
/// same pair is refused, whatever the time, caller, rating or weight.
pub proof fn law_rated_pair_is_refused(
    v: LedgerView,
    now: u64,
    caller: Seq<char>,
    agent: Seq<char>,
    job: Seq<u8>,
    rating: u32,
    weight: i128,
    payer: Seq<char>,
    kind: Seq<char>,
)
    requires
        v.rated.contains((agent, job)),
    ensures
        v.after_submit(now, caller, agent, job, rating, weight, payer, kind) is Err,
{
}

/// A successful submission marks its pair as rated and keeps every earlier
/// mark: the replay guard only grows.
pub proof fn law_rated_marks_only_grow(
    v: LedgerView,
    now: u64,
    caller: Seq<char>,
    agent: Seq<char>,
    job: Seq<u8>,
    rating: u32,
    weight: i128,
    payer: Seq<char>,
    kind: Seq<char>,
)
    requires
        v.after_submit(now, caller, agent, job, rating, weight, payer, kind) is Ok,
    ensures
        v.after_submit(now, caller, agent, job, rating, weight, payer, kind)->Ok_0.rated
            == v.rated.insert((agent, job)),
        v.rated.subset_of(
            v.after_submit(now, caller, agent, job, rating, weight, payer, kind)->Ok_0.rated,
        ),
{
}

/// A submission is accepted exactly when the caller is the scorer, the
/// rating is at most 100, the weight is in `1..=MAX_WEIGHT` and the pair is
/// new.
pub proof fn law_submit_accepted_iff(
    v: LedgerView,
    now: u64,
    caller: Seq<char>,
    agent: Seq<char>,
    job: Seq<u8>,
    rating: u32,
    weight: i128,
    payer: Seq<char>,
    kind: Seq<char>,
)
    ensures
        v.after_submit(now, caller, agent, job, rating, weight, payer, kind) is Ok <==> (caller
            == v.scorer && rating <= MAX_RATING && 0 < weight <= MAX_WEIGHT && !v.rated.contains(
            (agent, job),
        )),
{
}

/// Decay never touches the lifetime counters: `count` and `disputed` are
/// the same at every epoch.
pub proof fn law_decay_keeps_counters(s: RepState, current: u64)
    ensures
        decayed(s, current).count == s.count,
        decayed(s, current).disputed == s.disputed,
{
}

/// Decay only shrinks evidence: sum and weight stay between zero and their
/// value before.
pub proof fn law_decay_shrinks_evidence(s: RepState, current: u64)
    requires
        s.wf(),
    ensures
        0 <= decayed(s, current).sum_w <= s.sum_w,
        0 <= decayed(s, current).weight <= s.weight,
        decayed(s, current).wf(),
{
    lemma_decayed_wf(s, current);
}

/// After `MAX_DECAY_EPOCHS` or more idle epochs the evidence is forgotten
/// entirely, while the lifetime counters survive.
pub proof fn law_full_forgetting(s: RepState, current: u64)
    requires
        current >= s.last_epoch + MAX_DECAY_EPOCHS,
    ensures
        decayed(s, current).sum_w == 0,
        decayed(s, current).weight == 0,
        decayed(s, current).count == s.count,
        mean_bps(decayed(s, current)) == 0,
{
}

/// A successful submission adds exactly one rating to the agent's lifetime
/// count (and one dispute for a dispute kind), and the payer's cumulative
/// weight grows by exactly the rating's weight.
pub proof fn law_submit_counts_once(
    v: LedgerView,
    now: u64,
    caller: Seq<char>,
    agent: Seq<char>,
    job: Seq<u8>,
    rating: u32,
    weight: i128,
    payer: Seq<char>,
    kind: Seq<char>,
)
    requires
        v.after_submit(now, caller, agent, job, rating, weight, payer, kind) is Ok,
        v.count_of(agent) < u32::MAX,
        v.reps.contains_key(agent) ==> v.reps[agent].disputed <= v.reps[agent].count,
        0 <= v.payer_weight(agent, payer) <= i128::MAX - MAX_WEIGHT,
    ensures
        ({
            let w = v.after_submit(now, caller, agent, job, rating, weight, payer, kind)->Ok_0;
            &&& w.count_of(agent) == v.count_of(agent) + 1
            &&& w.rep_state(agent, now).disputed == v.rep_state(agent, now).disputed + (if kind
                == dispute_kind() {
                1int
            } else {
                0int
            })
            &&& w.payer_weight(agent, payer) == v.payer_weight(agent, payer) + weight
        }),
{
    let w = v.after_submit(now, caller, agent, job, rating, weight, payer, kind)->Ok_0;
    let s = v.rep_state(agent, now);
    assert(s.count == v.count_of(agent));
    let t = with_rating(s, rating, weight, kind == dispute_kind());
    assert(w.reps[agent] == t);
}

/// The state and payer weights of other agents, and the configuration, are
/// not touched by
/// a submission.
pub proof fn law_submit_is_local(
    v: LedgerView,
    now: u64,
    caller: Seq<char>,
    agent: Seq<char>,
    job: Seq<u8>,
    rating: u32,
    weight: i128,
    payer: Seq<char>,
    kind: Seq<char>,
    other: Seq<char>,
    other_payer: Seq<char>,
)
    requires
        v.after_submit(now, caller, agent, job, rating, weight, payer, kind) is Ok,
        other != agent,
    ensures
        ({
            let w = v.after_submit(now, caller, agent, job, rating, weight, payer, kind)->Ok_0;
            &&& w.stored(other) == v.stored(other)
            &&& w.payer_weight(other, other_payer) == v.payer_weight(other, other_payer)
            &&& w.scorer == v.scorer
            &&& w.admin == v.admin
        }),
{
}

/// Every mean the ledger reports lies in `0..=10_000` basis points.
pub proof fn law_means_in_range(s: RepState, prior_bps: u32, prior_weight: i128)
    ensures
        mean_bps(s) <= MAX_BPS,
        prior_bps <= MAX_BPS ==> smoothed_bps(s, prior_bps, prior_weight) <= MAX_BPS,
{
}

/// With no surviving evidence the smoothed estimate is exactly the prior,
/// whatever the prior's weight (for a prior in range).
pub proof fn law_prior_without_evidence(s: RepState, prior_bps: u32, prior_weight: i128)
    requires
        s.sum_w == 0,
        s.weight == 0,
        prior_bps <= MAX_BPS,
        i128::MIN <= prior_weight * prior_bps <= i128::MAX,
    ensures
        smoothed_bps(s, prior_bps, prior_weight) == prior_bps,
{
    if prior_weight > 0 {
        assert((prior_weight * prior_bps) / (prior_weight as int) == prior_bps) by (nonlinear_arith)
            requires
                prior_weight > 0,
        ;
    }
}

/// The lifetime dispute rate of a well-formed state is at most 10_000 basis
/// points.
pub proof fn law_dispute_rate_in_range(s: RepState)
    requires
        s.wf(),
    ensures
        dispute_rate(s) <= MAX_BPS,
{
    if s.count > 0 {
        assert((s.disputed * 10_000) / (s.count as int) <= 10_000) by (nonlinear_arith)
            requires
                s.disputed <= s.count,
                s.count > 0,
        ;
    }
}


proof fn lemma_decay_steps_nonneg(v: int, n: nat)
    requires
        v >= 0,
    ensures
        0 <= decay_steps(v, n) <= v,
    decreases n,
{
    if n > 0 {
        lemma_decay_steps_nonneg(v, (n - 1) as nat);
        let u = decay_steps(v, (n - 1) as nat);
        assert(0 <= (u * 925) / 1000 <= u) by (nonlinear_arith)
            requires
                u >= 0,
        ;
    }
}

proof fn lemma_step_bounds(sum: int, w: int, m: int, e: int)
    requires
        0 <= m,
        0 <= w,
        0 <= e,
        m * w <= sum <= m * w + e,
    ensures
        m * decay_step(w) <= decay_step(sum) <= m * decay_step(w) + m + e,
{
    let q = (w * 925) / 1000;
    let p = (sum * 925) / 1000;
    assert(sum >= 0) by (nonlinear_arith)
        requires
            0 <= m,
            0 <= w,
            m * w <= sum,
    ;
    assert(decay_step(w) == q);
    assert(decay_step(sum) == p);
    assert(q * 1000 <= w * 925 < q * 1000 + 1000);
    assert(p * 1000 <= sum * 925 < p * 1000 + 1000);
    assert(m * q * 1000 <= m * (w * 925)) by (nonlinear_arith)
        requires
            q * 1000 <= w * 925,
            0 <= m,
    ;
    assert(m * (w * 925) <= sum * 925) by (nonlinear_arith)
        requires
            m * w <= sum,
    ;
    assert(m * q <= p) by (nonlinear_arith)
        requires
            m * q * 1000 <= sum * 925,
            sum * 925 < p * 1000 + 1000,
    ;
    assert(m * (w * 925) <= m * q * 1000 + m * 999) by (nonlinear_arith)
        requires
            w * 925 <= q * 1000 + 999,
            0 <= m,
    ;
    assert(sum * 925 <= (m * w + e) * 925) by (nonlinear_arith)
        requires
            sum <= m * w + e,
    ;
    assert(p <= m * q + m + e) by (nonlinear_arith)
        requires
            p * 1000 <= sum * 925,
            sum * 925 <= (m * w + e) * 925,
            m * (w * 925) <= m * q * 1000 + m * 999,
            0 <= m,
            0 <= e,
    ;
}

proof fn lemma_steps_bounds(sum: int, w: int, m: int, n: nat)
    requires
        0 <= m,
        0 <= w,
        sum == m * w,
    ensures
        m * decay_steps(w, n) <= decay_steps(sum, n) <= m * decay_steps(w, n) + n * m,
        0 <= decay_steps(w, n),
    decreases n,
{
    if n > 0 {
        lemma_steps_bounds(sum, w, m, (n - 1) as nat);
        let w1 = decay_steps(w, (n - 1) as nat);
        let s1 = decay_steps(sum, (n - 1) as nat);
        lemma_step_bounds(s1, w1, m, (n - 1) * m);
        assert((n - 1) * m + m == n * m) by (nonlinear_arith);
        assert(0 <= decay_step(w1)) by (nonlinear_arith)
            requires
                0 <= w1,
        ;
    }
}

/// Pure decay keeps an exact mean: when `sum_w == m * weight` for a mean `m`
/// in range, the decayed mean is still `m`, as long as the decayed weight
/// exceeds `m` times the number of elapsed epochs (rounding each epoch can
/// shift the sum by less than `m`).
pub proof fn law_decay_keeps_exact_mean(s: RepState, current: u64, m: int)
    requires
        0 <= m <= MAX_BPS,
        s.weight >= 0,
        s.sum_w == m * s.weight,
        decayed(s, current).weight > (if current <= s.last_epoch {
            0
        } else {
            current - s.last_epoch
        }) * m,
    ensures
        mean_bps(decayed(s, current)) == m,
{
    let d = decayed(s, current);
    let n: nat = if current <= s.last_epoch {
        0
    } else {
        (current - s.last_epoch) as nat
    };
    if current <= s.last_epoch {
        assert(d == s);
    } else if current - s.last_epoch >= MAX_DECAY_EPOCHS {
        assert(d.weight == 0);
    } else {
        lemma_steps_bounds(s.sum_w as int, s.weight as int, m, n);
        assert(s.sum_w >= 0) by (nonlinear_arith)
            requires
                s.sum_w == m * s.weight,
                0 <= m,
                s.weight >= 0,
        ;
        lemma_decay_steps_nonneg(s.sum_w as int, n);
        lemma_decay_steps_nonneg(s.weight as int, n);
        assert(d.weight == decay_steps(s.weight as int, n));
        assert(d.sum_w == decay_steps(s.sum_w as int, n));
    }
    let w = d.weight as int;
    let sum = d.sum_w as int;
    assert(m * w <= sum <= m * w + n * m);
    assert(sum / w == m) by (nonlinear_arith)
        requires
            m * w <= sum,
            sum <= m * w + n * m,
            n * m < w,
            0 <= m,
    ;
}

/// Pure decay never lowers the reported mean: while any weight survives,
/// the decayed mean is at least the mean before decay.
pub proof fn law_decay_never_lowers_mean(s: RepState, current: u64)
    requires
        s.wf(),
        decayed(s, current).weight > 0,
    ensures
        mean_bps(decayed(s, current)) >= mean_bps(s),
{
    let d = decayed(s, current);
    lemma_decayed_wf(s, current);
    let w = s.weight as int;
    let sum = s.sum_w as int;
    assert(w > 0);
    let m = sum / w;
    assert(m * w <= sum && sum < m * w + w && m >= 0) by (nonlinear_arith)
        requires
            w > 0,
            sum >= 0,
            m == sum / w,
    ;
    if current > s.last_epoch && current - s.last_epoch < MAX_DECAY_EPOCHS {
        let n = (current - s.last_epoch) as nat;
        lemma_steps_floor(sum, w, m, n);
        lemma_decay_steps_nonneg(sum, n);
        lemma_decay_steps_nonneg(w, n);
        assert(d.weight == decay_steps(w, n));
        assert(d.sum_w == decay_steps(sum, n));
        let dw = d.weight as int;
        let ds = d.sum_w as int;
        assert(ds / dw >= m) by (nonlinear_arith)
            requires
                m * dw <= ds,
                dw > 0,
        ;
    }
}

proof fn lemma_steps_floor(sum: int, w: int, m: int, n: nat)
    requires
        0 <= m,
        0 <= w,
        m * w <= sum,
    ensures
        m * decay_steps(w, n) <= decay_steps(sum, n),
        0 <= decay_steps(w, n),
    decreases n,
{
    if n > 0 {
        lemma_steps_floor(sum, w, m, (n - 1) as nat);
        let w1 = decay_steps(w, (n - 1) as nat);
        let s1 = decay_steps(sum, (n - 1) as nat);
        lemma_step_bounds(s1, w1, m, s1 - m * w1);
        assert(0 <= decay_step(w1)) by (nonlinear_arith)
            requires
                0 <= w1,
        ;
    }
}


/// The smoothed estimate always lies between the prior and the evidence
/// mean: a positive prior weight anchors it, and it never leaves the range
/// spanned by the two.
pub proof fn law_smoothing_between_prior_and_mean(s: RepState, prior_bps: u32, prior_weight: i128)
    requires
        prior_bps <= MAX_BPS,
        prior_weight > 0,
        s.weight > 0,
        s.sum_w >= 0,
        prior_weight + s.weight <= i128::MAX,
    ensures
        ({
            let lo = if prior_bps <= mean_bps(s) {
                prior_bps
            } else {
                mean_bps(s)
            };
            let hi = if prior_bps <= mean_bps(s) {
                mean_bps(s)
            } else {
                prior_bps
            };
            lo <= smoothed_bps(s, prior_bps, prior_weight) <= hi
        }),
{
    let pw = prior_weight as int;
    let pb = prior_bps as int;
    let w = s.weight as int;
    let sum = s.sum_w as int;
    let m = sum / w;
    assert(m * w <= sum < m * w + w && m >= 0) by (nonlinear_arith)
        requires
            w > 0,
            sum >= 0,
            m == sum / w,
    ;
    assert(trunc_div(sum, w) == m);
    let b = (pw * pb + sum) / (pw + w);
    assert(pw * pb + sum >= 0) by (nonlinear_arith)
        requires
            pw > 0,
            pb >= 0,
            sum >= 0,
    ;
    assert(trunc_div(pw * pb + sum, pw + w) == b);
    if pb <= m {
        assert(pb <= b <= m) by (nonlinear_arith)
            requires
                pb <= m,
                pw > 0,
                w > 0,
                pb >= 0,
                m * w <= sum,
                sum < m * w + w,
                b == (pw * pb + sum) / (pw + w),
        ;
    } else {
        assert(m <= b <= pb) by (nonlinear_arith)
            requires
                m < pb,
                pw > 0,
                w > 0,
                m >= 0,
                m * w <= sum,
                sum < m * w + w,
                b == (pw * pb + sum) / (pw + w),
        ;
    }
}


/// With evidence of exact mean `m`, the smoothed estimate is `m` moved
/// toward the prior by the prior's share `prior_weight / (prior_weight +
/// weight)` of the gap, rounded down; so it converges to the evidence mean
/// as the evidence weight grows.
pub proof fn law_smoothing_shrinks_gap(s: RepState, prior_bps: u32, prior_weight: i128, m: int)
    requires
        0 <= m <= MAX_BPS,
        prior_bps <= MAX_BPS,
        prior_weight > 0,
        s.weight > 0,
        s.sum_w == m * s.weight,
        prior_weight + s.weight <= i128::MAX,
    ensures
        ({
            let b = smoothed_bps(s, prior_bps, prior_weight) as int;
            let total = prior_weight + s.weight;
            &&& total * (b - m) <= prior_weight * (prior_bps - m)
            &&& prior_weight * (prior_bps - m) < total * (b - m + 1)
        }),
{
    let pw = prior_weight as int;
    let pb = prior_bps as int;
    let w = s.weight as int;
    let sum = s.sum_w as int;
    assert(sum >= 0) by (nonlinear_arith)
        requires
            sum == m * w,
            m >= 0,
            w > 0,
    ;
    assert(sum / w == m) by (nonlinear_arith)
        requires
            sum == m * w,
            w > 0,
    ;
    assert(mean_bps(s) == m);
    law_smoothing_between_prior_and_mean(s, prior_bps, prior_weight);
    let n = pw * pb + sum;
    assert(0 <= n <= (pw + w) * MAX_BPS) by (nonlinear_arith)
        requires
            n == pw * pb + sum,
            pw > 0,
            0 <= pb <= MAX_BPS,
            sum == m * w,
            0 <= m <= MAX_BPS,
            w > 0,
    ;
    let b = n / (pw + w);
    assert(trunc_div(n, pw + w) == b);
    assert(0 <= b <= MAX_BPS) by (nonlinear_arith)
        requires
            b == n / (pw + w),
            n >= 0,
            pw + w > 0,
            n <= (pw + w) * MAX_BPS,
    ;
    assert(b * (pw + w) <= n < (b + 1) * (pw + w)) by (nonlinear_arith)
        requires
            b == n / (pw + w),
            pw + w > 0,
    ;
    assert((pw + w) * (b - m) <= pw * (pb - m) < (pw + w) * (b - m + 1)) by (nonlinear_arith)
        requires
            b * (pw + w) <= n,
            n < (b + 1) * (pw + w),
            n == pw * pb + sum,
            sum == m * w,
    ;
}


/// A call to the ledger that can change its storage, by its arguments.
pub enum LedgerCall {
    Submit {
        now: u64,
        caller: Seq<char>,
        agent: Seq<char>,
        job: Seq<u8>,
        rating: u32,
        weight: i128,
        payer: Seq<char>,
        kind: Seq<char>,
    },
    SetScorer { scorer: Seq<char> },
}

/// The ledger after one call: a refused submission changes nothing.
pub open spec fn ledger_step(v: LedgerView, c: LedgerCall) -> LedgerView {
    match c {
        LedgerCall::Submit { now, caller, agent, job, rating, weight, payer, kind } => match v.after_submit(
            now,
            caller,
            agent,
            job,
            rating,
            weight,
            payer,
            kind,
        ) {
            Ok(w) => w,
            Err(_) => v,
        },
        LedgerCall::SetScorer { scorer } => LedgerView { scorer, ..v },
    }
}

/// The ledger after a sequence of calls, in order.
pub open spec fn ledger_run(v: LedgerView, calls: Seq<LedgerCall>) -> LedgerView
    decreases calls.len(),
{
    if calls.len() == 0 {
        v
    } else {
        ledger_step(ledger_run(v, calls.drop_last()), calls.last())
    }
}

/// The weight of the last call if it is a submission for `(agent, payer)`
/// that the ledger accepts in state `v`; 0 otherwise.
pub open spec fn accepted_weight_of(v: LedgerView, c: LedgerCall, a: Seq<char>, p: Seq<char>) -> int {
    match c {
        LedgerCall::Submit { now, caller, agent, job, rating, weight, payer, kind } => if agent == a
            && payer == p && v.after_submit(now, caller, agent, job, rating, weight, payer, kind) is Ok {
            weight as int
        } else {
            0
        },
        LedgerCall::SetScorer { .. } => 0,
    }
}

/// The total weight of the accepted submissions for `(agent, payer)` in a
/// sequence of calls made from state `v`.
pub open spec fn accepted_weight(v: LedgerView, calls: Seq<LedgerCall>, a: Seq<char>, p: Seq<char>) -> int
    decreases calls.len(),
{
    if calls.len() == 0 {
        0
    } else {
        accepted_weight(v, calls.drop_last(), a, p) + accepted_weight_of(
            ledger_run(v, calls.drop_last()),
            calls.last(),
            a,
            p,
        )
    }
}

proof fn lemma_accepted_weight_nonneg(v: LedgerView, c: LedgerCall, a: Seq<char>, p: Seq<char>)
    ensures
        accepted_weight_of(v, c, a, p) >= 0,
{
}

/// A payer's weight for an agent is, in every state reached by any sequence
/// of calls, its weight before plus the weights of exactly the accepted
/// submissions for that agent and payer: never decayed, whatever the times
/// of the calls.
pub proof fn law_payer_weight_is_sum_of_accepted(
    v: LedgerView,
    calls: Seq<LedgerCall>,
    a: Seq<char>,
    p: Seq<char>,
)
    requires
        0 <= v.payer_weight(a, p),
        v.payer_weight(a, p) + accepted_weight(v, calls, a, p) <= i128::MAX,
    ensures
        ledger_run(v, calls).payer_weight(a, p) == v.payer_weight(a, p) + accepted_weight(
            v,
            calls,
            a,
            p,
        ),
    decreases calls.len(),
{
    if calls.len() > 0 {
        let init = calls.drop_last();
        let prev = ledger_run(v, init);
        lemma_accepted_weight_nonneg(prev, calls.last(), a, p);
        law_payer_weight_is_sum_of_accepted(v, init, a, p);
        lemma_accepted_weight_total_nonneg(v, init, a, p);
    }
}

proof fn lemma_accepted_weight_total_nonneg(
    v: LedgerView,
    calls: Seq<LedgerCall>,
    a: Seq<char>,
    p: Seq<char>,
)
    ensures
        accepted_weight(v, calls, a, p) >= 0,
    decreases calls.len(),
{
    if calls.len() > 0 {
        lemma_accepted_weight_total_nonneg(v, calls.drop_last(), a, p);
        lemma_accepted_weight_nonneg(ledger_run(v, calls.drop_last()), calls.last(), a, p);
    }
}

/// Rated pairs stay rated through any sequence of calls.
pub proof fn law_rated_pairs_persist(v: LedgerView, calls: Seq<LedgerCall>)
    ensures
        v.rated.subset_of(ledger_run(v, calls).rated),
    decreases calls.len(),
{
    if calls.len() > 0 {
        law_rated_pairs_persist(v, calls.drop_last());
    }
}

/// Once a pair is rated, a submission of it is refused in every later state,
/// after any sequence of calls and however many epochs have passed.
pub proof fn law_replay_refused_for_good(
    v: LedgerView,
    calls: Seq<LedgerCall>,
    now: u64,
    caller: Seq<char>,
    agent: Seq<char>,
    job: Seq<u8>,
    rating: u32,
    weight: i128,
    payer: Seq<char>,
    kind: Seq<char>,
)
    requires
        v.rated.contains((agent, job)),
    ensures
        ledger_run(v, calls).after_submit(now, caller, agent, job, rating, weight, payer, kind)
            is Err,
{
    law_rated_pairs_persist(v, calls);
}


/// The lifetime dispute rate is the share of disputed ratings in basis
/// points, rounded down: 0 with no ratings; otherwise the largest `r` with
/// `r * count <= disputed * 10_000` (whenever that quotient fits in `u32`,
/// as it does when the disputes are among the counted ratings). In
/// particular, when every rating was a dispute the rate is 10_000.
pub proof fn law_dispute_rate_is_share(s: RepState)
    ensures
        s.count == 0 ==> dispute_rate(s) == 0,
        s.count > 0 && s.disputed * 10_000 < 0x1_0000_0000 * s.count ==> {
            let r = dispute_rate(s) as int;
            &&& r * s.count <= s.disputed * 10_000
            &&& s.disputed * 10_000 < (r + 1) * s.count
        },
        s.count > 0 && s.disputed == s.count ==> dispute_rate(s) == MAX_BPS,
{
    if s.count > 0 {
        let x = s.disputed * 10_000;
        let c = s.count as int;
        assert(0 <= x / c && (x / c) * c <= x < (x / c + 1) * c) by (nonlinear_arith)
            requires
                x >= 0,
                c > 0,
        ;
        if x < 0x1_0000_0000 * c {
            assert(x / c < 0x1_0000_0000) by (nonlinear_arith)
                requires
                    x >= 0,
                    c > 0,
                    x < 0x1_0000_0000 * c,
            ;
        }
        if s.disputed == s.count {
            assert(x / c == 10_000) by (nonlinear_arith)
                requires
                    x == c * 10_000,
                    c > 0,
            ;
        }
    }
}

/// The smoothed estimate blends the prior with the evidence: with no
/// positive total weight it is the prior; otherwise, with
/// `n = prior_weight * prior_bps + sum_w` and `t = prior_weight + weight`,
/// it is 0 when `n` is negative, and else `n / t` rounded down, capped at
/// 10_000 basis points.
pub proof fn law_smoothing_is_blend(s: RepState, prior_bps: u32, prior_weight: i128)
    ensures
        prior_weight + s.weight <= 0 ==> smoothed_bps(s, prior_bps, prior_weight) == prior_bps,
        prior_weight + s.weight > 0 ==> {
            let t = prior_weight + s.weight;
            let n = prior_weight * prior_bps + s.sum_w;
            let b = smoothed_bps(s, prior_bps, prior_weight) as int;
            &&& n < 0 ==> b == 0
            &&& n >= 0 ==> {
                &&& b <= MAX_BPS
                &&& b * t <= n
                &&& (b == MAX_BPS || n < (b + 1) * t)
            }
        },
{
    let t = prior_weight + s.weight;
    let n = prior_weight * prior_bps + s.sum_w;
    if t > 0 {
        if n < 0 {
            assert(0 <= (-n) / t) by (nonlinear_arith)
                requires
                    n < 0,
                    t > 0,
            ;
        } else {
            assert(0 <= n / t && (n / t) * t <= n < (n / t + 1) * t) by (nonlinear_arith)
                requires
                    n >= 0,
                    t > 0,
            ;
            let q = n / t;
            if q > MAX_BPS {
                assert(10_000 * t <= n) by (nonlinear_arith)
                    requires
                        q * t <= n,
                        q > 10_000,
                        t > 0,
                ;
            }
        }
    }
}

/// With no prior weight and positive evidence weight, the smoothed estimate
/// is exactly the raw evidence mean, whatever the prior.
pub proof fn law_zero_prior_gives_raw_mean(s: RepState, prior_bps: u32)
    requires
        s.weight > 0,
    ensures
        smoothed_bps(s, prior_bps, 0) == mean_bps(s),
{
    assert(0 * prior_bps == 0);
}

/// `n` epochs of decay compose: decaying `m` epochs and then `k` more is
/// decaying `m + k` epochs.
proof fn lemma_decay_steps_add(v: int, m: nat, k: nat)
    ensures
        decay_steps(decay_steps(v, m), k) == decay_steps(v, m + k),
    decreases k,
{
    if k > 0 {
        lemma_decay_steps_add(v, m, (k - 1) as nat);
        assert(decay_steps(v, m + k) == decay_step(decay_steps(v, (m + k - 1) as nat)));
    }
}

/// Decay is additive in time: decaying a state to epoch `a` and then to a
/// later epoch `b` gives the same state as decaying it to `b` at once
/// (within the `MAX_DECAY_EPOCHS` window, for states whose decay fits).
pub proof fn law_decay_in_two_hops(s: RepState, a: u64, b: u64)
    requires
        s.last_epoch <= a <= b,
        b - s.last_epoch < MAX_DECAY_EPOCHS,
        fits_decay(s.sum_w as int),
        fits_decay(s.weight as int),
    ensures
        decayed(decayed(s, a), b) == decayed(s, b),
{
    if s.last_epoch < a && a < b {
        let m = (a - s.last_epoch) as nat;
        let k = (b - a) as nat;
        lemma_decay_steps(s.sum_w as int, m);
        lemma_decay_steps(s.weight as int, m);
        lemma_decay_steps_add(s.sum_w as int, m, k);
        lemma_decay_steps_add(s.weight as int, m, k);
        assert(m + k == (b - s.last_epoch) as nat);
    }
}

/// One idle epoch scales the evidence by 925/1000, rounded down, and scales
/// `sum_w` and `weight` alike: each decayed value `d` of a value `v` meets
/// `1000 * d <= 925 * v < 1000 * (d + 1)`, at every epoch inside the
/// `MAX_DECAY_EPOCHS` window (for non-negative evidence whose decay fits).
pub proof fn law_decay_one_epoch_at_a_time(s: RepState, c: u64)
    requires
        s.last_epoch <= c < u64::MAX,
        c + 1 - s.last_epoch < MAX_DECAY_EPOCHS,
        0 <= s.sum_w,
        0 <= s.weight,
        fits_decay(s.sum_w as int),
        fits_decay(s.weight as int),
    ensures
        ({
            let d = decayed(s, c);
            let e = decayed(s, (c + 1) as u64);
            &&& 1000 * e.sum_w <= 925 * d.sum_w < 1000 * (e.sum_w + 1)
            &&& 1000 * e.weight <= 925 * d.weight < 1000 * (e.weight + 1)
            &&& e.count == s.count
            &&& e.disputed == s.disputed
            &&& e.last_epoch == c + 1
        }),
{
    let d = decayed(s, c);
    let c1 = (c + 1) as u64;
    law_decay_in_two_hops(s, c, c1);
    let n = (c - s.last_epoch) as nat;
    lemma_decay_steps_nonneg(s.sum_w as int, n);
    lemma_decay_steps_nonneg(s.weight as int, n);
    lemma_decay_steps(s.sum_w as int, n);
    lemma_decay_steps(s.weight as int, n);
    assert(d.sum_w >= 0 && d.weight >= 0);
    assert(decayed(d, c1).sum_w == decay_step(d.sum_w as int));
    assert(decayed(d, c1).weight == decay_step(d.weight as int));
    let x = d.sum_w as int;
    let y = d.weight as int;
    assert(1000 * ((x * 925) / 1000) <= 925 * x < 1000 * ((x * 925) / 1000 + 1)) by (nonlinear_arith)
        requires
            x >= 0,
    ;
    assert(1000 * ((y * 925) / 1000) <= 925 * y < 1000 * ((y * 925) / 1000 + 1)) by (nonlinear_arith)
        requires
            y >= 0,
    ;
}


/// An accepted submission adds its evidence exactly: the agent's state at
/// that time gains `rating * 100 * weight` in `sum_w` and `weight` in
/// `weight`, one rating in `count`, and keeps its epoch.
pub proof fn law_submit_adds_evidence(
    v: LedgerView,
    now: u64,
    caller: Seq<char>,
    agent: Seq<char>,
    job: Seq<u8>,
    rating: u32,
    weight: i128,
    payer: Seq<char>,
    kind: Seq<char>,
)
    requires
        v.after_submit(now, caller, agent, job, rating, weight, payer, kind) is Ok,
        v.reps.contains_key(agent) ==> v.reps[agent].wf(),
        v.count_of(agent) < u32::MAX,
    ensures
        ({
            let w = v.after_submit(now, caller, agent, job, rating, weight, payer, kind)->Ok_0;
            let s = v.rep_state(agent, now);
            let t = w.rep_state(agent, now);
            &&& t.sum_w == s.sum_w + rating * 100 * weight
            &&& t.weight == s.weight + weight
            &&& t.count == s.count + 1
            &&& t.last_epoch == s.last_epoch
        }),
{
    let s = v.rep_state(agent, now);
    let e = epoch_of(now);
    if v.reps.contains_key(agent) {
        lemma_decayed_wf(v.reps[agent], e);
    }
    assert(s.wf());
    assert(s.count == v.count_of(agent));
    lemma_with_rating_wf(s, rating, weight, kind == dispute_kind());
    assert(s.last_epoch >= e);
}

/// A refused submission names the first check it fails: a caller other
/// than the scorer gets `Unauthorized`; the scorer with a rating above 100
/// or a weight outside `1..=MAX_WEIGHT` gets `OutOfRange`; the scorer with
/// good values on a rated pair gets `Replay`.
pub proof fn law_submit_refusal_reasons(
    v: LedgerView,
    now: u64,
    caller: Seq<char>,
    agent: Seq<char>,
    job: Seq<u8>,
    rating: u32,
    weight: i128,
    payer: Seq<char>,
    kind: Seq<char>,
)
    ensures
        caller != v.scorer ==> v.after_submit(now, caller, agent, job, rating, weight, payer, kind)
            == Err::<LedgerView, Error>(Error::Unauthorized),
        caller == v.scorer && (rating > MAX_RATING || weight <= 0 || weight > MAX_WEIGHT)
            ==> v.after_submit(now, caller, agent, job, rating, weight, payer, kind) == Err::<
            LedgerView,
            Error,
        >(Error::OutOfRange),
        caller == v.scorer && rating <= MAX_RATING && 0 < weight <= MAX_WEIGHT && v.rated.contains(
            (agent, job),
        ) ==> v.after_submit(now, caller, agent, job, rating, weight, payer, kind) == Err::<
            LedgerView,
            Error,
        >(Error::Replay),
{
}

/// The decay epoch of a timestamp is the number of whole weeks
/// (604_800 seconds) before it.
pub proof fn law_epoch_is_whole_weeks(t: u64)
    ensures
        epoch_of(t) * 604_800 <= t < (epoch_of(t) + 1) * 604_800,
{
    let e = t / 604_800;
    assert(e * 604_800 <= t < (e + 1) * 604_800) by (nonlinear_arith)
        requires
            e == t / 604_800,
            t >= 0,
    ;
}

/// The raw weighted mean is `sum_w / weight` rounded down and kept within
/// `0..=10_000` basis points: 0 with no weight or negative evidence;
/// otherwise the largest `m <= 10_000` with `m * weight <= sum_w`.
pub proof fn law_mean_is_weighted_average(s: RepState)
    requires
        s.weight >= 0,
    ensures
        s.weight == 0 ==> mean_bps(s) == 0,
        s.weight > 0 && s.sum_w < 0 ==> mean_bps(s) == 0,
        s.weight > 0 && s.sum_w >= 0 ==> {
            let m = mean_bps(s) as int;
            &&& m <= MAX_BPS
            &&& m * s.weight <= s.sum_w
            &&& (m == MAX_BPS || s.sum_w < (m + 1) * s.weight)
        },
{
    let x = s.sum_w as int;
    let t = s.weight as int;
    if t > 0 {
        if x < 0 {
            assert(0 <= (-x) / t) by (nonlinear_arith)
                requires
                    x < 0,
                    t > 0,
            ;
        } else {
            assert(0 <= x / t && (x / t) * t <= x < (x / t + 1) * t) by (nonlinear_arith)
                requires
                    x >= 0,
                    t > 0,
            ;
            let q = x / t;
            if q > MAX_BPS {
                assert(10_000 * t <= x) by (nonlinear_arith)
                    requires
                        q * t <= x,
                        q > 10_000,
                        t > 0,
                ;
            }
        }
    }
}

/// The rating kind that counts as a dispute is the text `dispute`.
pub proof fn law_dispute_kind_text()
    ensures
        dispute_kind() =~= seq!['d', 'i', 's', 'p', 'u', 't', 'e'],
{
    reveal_strlit("dispute");
}

} // verus!
