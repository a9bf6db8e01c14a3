//! The reputation ledger: decayed, value-weighted, dispute-aware rating
//! evidence per agent.
//!
//! Each rating carries the job's value as its weight (capped per rating).
//! Evidence decays by 925/1000 per weekly epoch, applied lazily on write and
//! on read; after `MAX_DECAY_EPOCHS` idle epochs it is forgotten outright.
//! The lifetime `count` and `disputed` counters never decay, and the
//! `(agent, job)` replay guard never lapses.
use vstd::prelude::*;
use crate::codes;
use crate::ids::{Address, Bytes16, Key, Symbol};
use crate::table::Table;

verus! {

/// Length of one decay epoch in seconds (one week).
pub const EPOCH_SECONDS: u64 = 604_800;

/// Numerator of the per-epoch forgetting factor.
pub const DECAY_NUM: i128 = 925;

/// Denominator of the per-epoch forgetting factor.
pub const DECAY_DEN: i128 = 1000;

/// Beyond this many idle epochs the evidence is zeroed instead of decayed.
pub const MAX_DECAY_EPOCHS: u64 = 96;

/// Per-rating weight cap: 100 USDC in stroops.
pub const MAX_WEIGHT: i128 = 1_000_000_000;

/// Highest accepted rating on the 0..=100 scale.
pub const MAX_RATING: u32 = 100;

/// Highest value of a mean in basis points.
pub const MAX_BPS: i128 = 10_000;

/// Per-agent reputation accumulator.
#[derive(Clone, Copy, Debug, PartialEq, Eq, Structural)]
pub struct RepState {
    /// Sum of `rating_bps * weight`, decayed (`rating_bps` is the rating times 100).
    pub sum_w: i128,
    /// Sum of weights, decayed.
    pub weight: i128,
    /// Lifetime rating count; never decayed.
    pub count: u32,
    /// Lifetime dispute count; never decayed.
    pub disputed: u32,
    /// Epoch of the last write.
    pub last_epoch: u64,
}

/// Why a ledger call was refused.
#[derive(Clone, Copy, Debug, PartialEq, Eq, PartialOrd, Ord, Structural)]
pub enum Error {
    Unauthorized,
    NotFound,
    Replay,
    OutOfRange,
}

impl Error {
    /// The numeric error code reported to callers.
    pub fn code(&self) -> (r: u32)
        ensures
            r == error_code(*self),
    {
        match self {
            Error::Unauthorized => codes::UNAUTHORIZED,
            Error::NotFound => codes::NOT_FOUND,
            Error::Replay => codes::REPLAY,
            Error::OutOfRange => 100,
        }
    }
}

/// The numeric code of each error.
pub open spec fn error_code(e: Error) -> u32 {
    match e {
        Error::Unauthorized => codes::UNAUTHORIZED,
        Error::NotFound => codes::NOT_FOUND,
        Error::Replay => codes::REPLAY,
        Error::OutOfRange => 100,
    }
}

/// Division rounding toward zero, as integer division does in Rust.
pub open spec fn trunc_div(a: int, d: int) -> int {
    if a >= 0 {
        a / d
    } else {
        -((-a) / d)
    }
}

/// `v * 925` fits in an `i128`.
pub open spec fn fits_decay(v: int) -> bool {
    i128::MIN <= v * DECAY_NUM <= i128::MAX
}

/// One epoch of decay applied to a value.
pub open spec fn decay_step(v: int) -> int {
    trunc_div(v * DECAY_NUM, DECAY_DEN as int)
}

/// `n` epochs of decay applied to a value, one epoch at a time.
pub open spec fn decay_steps(v: int, n: nat) -> int
    decreases n,
{
    if n == 0 {
        v
    } else {
        decay_step(decay_steps(v, (n - 1) as nat))
    }
}

/// A state decayed to epoch `current`: unchanged when `current` is not
/// later than its last epoch; evidence zeroed after `MAX_DECAY_EPOCHS` or more
/// idle epochs; otherwise each of `sum_w` and `weight` decayed once per
/// elapsed epoch. The lifetime counters are kept.
pub open spec fn decayed(s: RepState, current: u64) -> RepState {
    if current <= s.last_epoch {
        s
    } else if current - s.last_epoch >= MAX_DECAY_EPOCHS {
        RepState { sum_w: 0, weight: 0, count: s.count, disputed: s.disputed, last_epoch: current }
    } else {
        let n = (current - s.last_epoch) as nat;
        RepState {
            sum_w: decay_steps(s.sum_w as int, n) as i128,
            weight: decay_steps(s.weight as int, n) as i128,
            count: s.count,
            disputed: s.disputed,
            last_epoch: current,
        }
    }
}

/// `decay_to` can run on `s` without overflow.
pub open spec fn decay_fits(s: RepState, current: u64) -> bool {
    s.last_epoch < current && current - s.last_epoch < MAX_DECAY_EPOCHS ==> fits_decay(
        s.sum_w as int,
    ) && fits_decay(s.weight as int)
}

proof fn lemma_decay_step(v: int)
    requires
        fits_decay(v),
    ensures
        v >= 0 ==> 0 <= decay_step(v) <= v,
        v < 0 ==> v <= decay_step(v) <= 0,
        fits_decay(decay_step(v)),
{
    if v >= 0 {
        assert(0 <= (v * 925) / 1000 <= v) by (nonlinear_arith)
            requires
                v >= 0,
        ;
    } else {
        assert(0 <= ((-v) * 925) / 1000 <= -v) by (nonlinear_arith)
            requires
                v < 0,
        ;
        assert((-v) * 925 == -(v * 925)) by (nonlinear_arith);
    }
    let d = decay_step(v);
    if v >= 0 {
        assert(0 <= d * 925 <= v * 925) by (nonlinear_arith)
            requires
                0 <= d <= v,
        ;
    } else {
        assert(v * 925 <= d * 925 <= 0) by (nonlinear_arith)
            requires
                v <= d <= 0,
        ;
    }
}

/// Repeated decay keeps a value between zero and itself.
pub proof fn lemma_decay_steps(v: int, n: nat)
    requires
        fits_decay(v),
    ensures
        v >= 0 ==> 0 <= decay_steps(v, n) <= v,
        v < 0 ==> v <= decay_steps(v, n) <= 0,
        fits_decay(decay_steps(v, n)),
    decreases n,
{
    if n > 0 {
        lemma_decay_steps(v, (n - 1) as nat);
        lemma_decay_step(decay_steps(v, (n - 1) as nat));
    }
}

/// Lazily decays `state` to epoch `current`: scales `sum_w` and `weight` by
/// 925/1000 once per elapsed epoch; beyond `MAX_DECAY_EPOCHS` the evidence is
/// zeroed outright. The lifetime counters are never decayed.
pub fn decay_to(state: &mut RepState, current: u64)
    requires
        decay_fits(*old(state), current),
    ensures
        *final(state) == decayed(*old(state), current),
{
    if current <= state.last_epoch {
        return ;
    }
    let ghost s0 = *state;
    let delta = current - state.last_epoch;
    if delta >= MAX_DECAY_EPOCHS {
        state.sum_w = 0;
        state.weight = 0;
    } else {
        let mut i: u64 = 0;
        while i < delta
            invariant
                i <= delta,
                delta == current - s0.last_epoch,
                delta < MAX_DECAY_EPOCHS,
                fits_decay(s0.sum_w as int),
                fits_decay(s0.weight as int),
                state.sum_w == decay_steps(s0.sum_w as int, i as nat),
                state.weight == decay_steps(s0.weight as int, i as nat),
                state.count == s0.count,
                state.disputed == s0.disputed,
                state.last_epoch == s0.last_epoch,
            decreases delta - i,
        {
            proof {
                lemma_decay_steps(s0.sum_w as int, i as nat);
                lemma_decay_steps(s0.weight as int, i as nat);
            }
            state.sum_w = state.sum_w * DECAY_NUM / DECAY_DEN;
            state.weight = state.weight * DECAY_NUM / DECAY_DEN;
            i = i + 1;
        }
    }
    state.last_epoch = current;
}


impl RepState {
    /// The invariant of every state the ledger stores: evidence is
    /// non-negative and bounded by what `count` capped ratings can add, and
    /// disputes are among the counted ratings.
    pub open spec fn wf(self) -> bool {
        &&& 0 <= self.weight <= self.count * MAX_WEIGHT
        &&& 0 <= self.sum_w <= self.count * (MAX_BPS * MAX_WEIGHT)
        &&& self.disputed <= self.count
    }
}

/// The state of an agent with no evidence yet, stamped with `epoch`.
pub open spec fn fresh_state(epoch: u64) -> RepState {
    RepState { sum_w: 0, weight: 0, count: 0, disputed: 0, last_epoch: epoch }
}

/// Well-formed states decay without overflow and stay well-formed.
pub proof fn lemma_decayed_wf(s: RepState, current: u64)
    requires
        s.wf(),
    ensures
        decay_fits(s, current),
        decayed(s, current).wf(),
        0 <= decayed(s, current).sum_w <= s.sum_w,
        0 <= decayed(s, current).weight <= s.weight,
{
    assert(fits_decay(s.sum_w as int));
    assert(fits_decay(s.weight as int));
    if s.last_epoch < current && current - s.last_epoch < MAX_DECAY_EPOCHS {
        let n = (current - s.last_epoch) as nat;
        lemma_decay_steps(s.sum_w as int, n);
        lemma_decay_steps(s.weight as int, n);
    }
}

/// The decay epoch of a ledger timestamp.
pub open spec fn epoch_of(timestamp: u64) -> u64 {
    timestamp / EPOCH_SECONDS
}

/// The decay epoch of a ledger timestamp.
pub fn current_epoch(timestamp: u64) -> (r: u64)
    ensures
        r == epoch_of(timestamp),
{
    timestamp / EPOCH_SECONDS
}

/// Whether `v * 925` fits in an `i128`.
fn fits_decay_check(v: i128) -> (r: bool)
    ensures
        r == fits_decay(v as int),
{
    v.checked_mul(DECAY_NUM).is_some()
}

/// Whether `decay_to` can run on `s` without overflow.
pub fn can_decay(s: &RepState, current: u64) -> (r: bool)
    ensures
        r == decay_fits(*s, current),
{
    if s.last_epoch < current && current - s.last_epoch < MAX_DECAY_EPOCHS {
        fits_decay_check(s.sum_w) && fits_decay_check(s.weight)
    } else {
        true
    }
}

/// An agent's stored state (or a fresh one stamped `now_epoch`), decayed to
/// `now_epoch`. Nothing is written back.
pub open spec fn decayed_from(stored: Option<RepState>, now_epoch: u64) -> RepState {
    match stored {
        Some(s) => decayed(s, now_epoch),
        None => decayed(fresh_state(now_epoch), now_epoch),
    }
}

/// An agent's stored state (or a fresh one stamped `now_epoch`), decayed to
/// `now_epoch`, in memory only.
pub fn decayed_state(stored: Option<RepState>, now_epoch: u64) -> (r: RepState)
    requires
        stored matches Some(s) ==> decay_fits(s, now_epoch),
    ensures
        r == decayed_from(stored, now_epoch),
{
    let mut state = match stored {
        Some(s) => s,
        None => RepState { sum_w: 0, weight: 0, count: 0, disputed: 0, last_epoch: now_epoch },
    };
    decay_to(&mut state, now_epoch);
    state
}

/// A state after one more rating: `rating * 100 * weight` joins `sum_w`,
/// `weight` joins the weight, the count grows by one, and the dispute count
/// too when the rating is a dispute.
pub open spec fn with_rating(s: RepState, rating: u32, weight: i128, dispute: bool) -> RepState {
    RepState {
        sum_w: (s.sum_w + rating * 100 * weight) as i128,
        weight: (s.weight + weight) as i128,
        count: (s.count + 1) as u32,
        disputed: if dispute {
            (s.disputed + 1) as u32
        } else {
            s.disputed
        },
        last_epoch: s.last_epoch,
    }
}

/// `add_rating` can run on `s` without overflow.
pub open spec fn rating_fits(s: RepState, rating: u32, weight: i128, dispute: bool) -> bool {
    &&& i128::MIN <= rating * 100 * weight <= i128::MAX
    &&& i128::MIN <= s.sum_w + rating * 100 * weight <= i128::MAX
    &&& i128::MIN <= s.weight + weight <= i128::MAX
    &&& s.count < u32::MAX
    &&& dispute ==> s.disputed < u32::MAX
}

/// Whether `add_rating` can run on `s` without overflow.
pub fn can_add_rating(s: &RepState, rating_0_to_100: u32, weight: i128, dispute: bool) -> (r: bool)
    ensures
        r == rating_fits(*s, rating_0_to_100, weight, dispute),
{
    let scaled = (rating_0_to_100 as i128) * 100;
    match scaled.checked_mul(weight) {
        None => false,
        Some(p) => {
            s.sum_w.checked_add(p).is_some() && s.weight.checked_add(weight).is_some() && s.count
                < u32::MAX && (!dispute || s.disputed < u32::MAX)
        },
    }
}

/// Adds one rating to a state.
pub fn add_rating(state: RepState, rating_0_to_100: u32, weight: i128, dispute: bool) -> (r:
    RepState)
    requires
        rating_fits(state, rating_0_to_100, weight, dispute),
    ensures
        r == with_rating(state, rating_0_to_100, weight, dispute),
{
    let mut s = state;
    assert(i128::MIN <= rating_0_to_100 * 100 <= i128::MAX);
    s.sum_w = s.sum_w + (rating_0_to_100 as i128) * 100 * weight;
    s.weight = s.weight + weight;
    s.count = s.count + 1;
    if dispute {
        s.disputed = s.disputed + 1;
    }
    s
}

/// A capped rating keeps a well-formed state well-formed and fits.
pub proof fn lemma_with_rating_wf(s: RepState, rating: u32, weight: i128, dispute: bool)
    requires
        s.wf(),
        s.count < u32::MAX,
        rating <= MAX_RATING,
        0 < weight <= MAX_WEIGHT,
    ensures
        rating_fits(s, rating, weight, dispute),
        with_rating(s, rating, weight, dispute).wf(),
{
    assert(0 <= rating * 100 * weight <= MAX_BPS * MAX_WEIGHT) by (nonlinear_arith)
        requires
            rating <= 100,
            0 < weight <= 1_000_000_000,
    ;
}

/// Clamps a value to the basis-point range `0..=10_000`.
pub open spec fn clamp_bps(v: int) -> int {
    if v < 0 {
        0
    } else if v > MAX_BPS {
        MAX_BPS as int
    } else {
        v
    }
}

fn clamp_to_bps(v: i128) -> (r: u32)
    ensures
        r == clamp_bps(v as int),
{
    if v < 0 {
        0
    } else if v > MAX_BPS {
        10_000
    } else {
        v as u32
    }
}

/// Division rounding toward zero for any non-zero divisor.
pub open spec fn div_toward_zero(a: int, d: int) -> int {
    if d > 0 {
        trunc_div(a, d)
    } else {
        -trunc_div(a, -d)
    }
}

/// Integer division of `i128` values, rounding toward zero.
fn div_i128(a: i128, d: i128) -> (r: i128)
    requires
        d != 0,
        !(a == i128::MIN && d == -1),
    ensures
        r == div_toward_zero(a as int, d as int),
{
    if d > 0 {
        a / d
    } else if d == i128::MIN {
        if a == i128::MIN {
            1
        } else {
            0
        }
    } else if d == -1 {
        -a
    } else {
        let e = -d;
        let q = a / e;
        proof {
            let x = a as int;
            let y = e as int;
            if x >= 0 {
                assert(0 <= x / y <= x) by (nonlinear_arith)
                    requires
                        x >= 0,
                        y >= 2,
                ;
            } else {
                assert(0 <= (-x) / y <= (-x) / 2) by (nonlinear_arith)
                    requires
                        x < 0,
                        y >= 2,
                ;
            }
        }
        -q
    }
}

/// The weighted mean in basis points; 0 when there is no weight.
pub open spec fn mean_bps(s: RepState) -> u32 {
    if s.weight == 0 {
        0
    } else {
        clamp_bps(div_toward_zero(s.sum_w as int, s.weight as int)) as u32
    }
}

/// The weighted mean of a state in basis points, clamped to `0..=10_000`;
/// 0 when there is no weight.
pub fn weighted_mean_bps(s: &RepState) -> (r: u32)
    requires
        !(s.sum_w == i128::MIN && s.weight == -1),
    ensures
        r == mean_bps(*s),
{
    if s.weight == 0 {
        0
    } else {
        clamp_to_bps(div_i128(s.sum_w, s.weight))
    }
}

/// `smoothed_mean_bps` can run without overflow.
pub open spec fn smoothing_fits(s: RepState, prior_bps: u32, prior_weight: i128) -> bool {
    &&& i128::MIN <= prior_weight + s.weight <= i128::MAX
    &&& prior_weight + s.weight > 0 ==> i128::MIN <= prior_weight * prior_bps <= i128::MAX
        && i128::MIN <= prior_weight * prior_bps + s.sum_w <= i128::MAX
}

/// Whether `smoothed_mean_bps` can run without overflow.
pub fn can_smooth(s: &RepState, prior_bps: u32, prior_weight: i128) -> (r: bool)
    ensures
        r == smoothing_fits(*s, prior_bps, prior_weight),
{
    match prior_weight.checked_add(s.weight) {
        None => false,
        Some(total) => {
            if total <= 0 {
                true
            } else {
                match prior_weight.checked_mul(prior_bps as i128) {
                    None => false,
                    Some(p) => p.checked_add(s.sum_w).is_some(),
                }
            }
        },
    }
}

/// The mean smoothed toward a prior:
/// `(prior_weight * prior_bps + sum_w) / (prior_weight + weight)`, clamped to
/// `0..=10_000`; `prior_bps` itself when the total weight is not positive.
pub open spec fn smoothed_bps(s: RepState, prior_bps: u32, prior_weight: i128) -> u32 {
    let total = prior_weight + s.weight;
    if total <= 0 {
        prior_bps
    } else {
        clamp_bps(trunc_div(prior_weight * prior_bps + s.sum_w, total)) as u32
    }
}

/// The mean of a state smoothed toward a caller-supplied prior.
pub fn smoothed_mean_bps(s: &RepState, prior_bps: u32, prior_weight: i128) -> (r: u32)
    requires
        smoothing_fits(*s, prior_bps, prior_weight),
    ensures
        r == smoothed_bps(*s, prior_bps, prior_weight),
{
    let total_weight = prior_weight + s.weight;
    if total_weight <= 0 {
        return prior_bps;
    }
    let blended = (prior_weight * (prior_bps as i128) + s.sum_w) / total_weight;
    clamp_to_bps(blended)
}

/// The lifetime dispute rate in basis points: `disputed * 10_000 / count`,
/// narrowed to `u32`; 0 when nothing was rated.
pub open spec fn dispute_rate(s: RepState) -> u32 {
    if s.count == 0 {
        0
    } else {
        ((s.disputed * 10_000) / (s.count as int)) as u32
    }
}

/// The lifetime dispute rate of a state in basis points.
pub fn dispute_rate_of(s: &RepState) -> (r: u32)
    ensures
        r == dispute_rate(*s),
{
    if s.count == 0 {
        0
    } else {
        ((s.disputed as u64) * 10_000 / (s.count as u64)) as u32
    }
}


/// Why a submission is refused, checked in this order: the caller is not the
/// scorer; the rating is above 100; the weight is not in `1..=MAX_WEIGHT`;
/// the `(agent, job)` pair was rated before.
pub open spec fn submission_error(
    caller: Seq<char>,
    scorer: Seq<char>,
    rating: u32,
    weight: i128,
    seen: bool,
) -> Option<Error> {
    if caller != scorer {
        Some(Error::Unauthorized)
    } else if rating > MAX_RATING {
        Some(Error::OutOfRange)
    } else if weight <= 0 || weight > MAX_WEIGHT {
        Some(Error::OutOfRange)
    } else if seen {
        Some(Error::Replay)
    } else {
        None
    }
}

/// Checks a submission before anything is written.
pub fn check_submission(
    caller: &Address,
    scorer: &Address,
    rating_0_to_100: u32,
    weight: i128,
    seen: bool,
) -> (r: Result<(), Error>)
    ensures
        r is Ok <==> submission_error(caller@, scorer@, rating_0_to_100, weight, seen) is None,
        r matches Err(e) ==> submission_error(caller@, scorer@, rating_0_to_100, weight, seen)
            == Some(e),
{
    if !caller.same(scorer) {
        return Err(Error::Unauthorized);
    }
    if rating_0_to_100 > MAX_RATING {
        return Err(Error::OutOfRange);
    }
    if weight <= 0 || weight > MAX_WEIGHT {
        return Err(Error::OutOfRange);
    }
    if seen {
        return Err(Error::Replay);
    }
    Ok(())
}

/// The text of the rating kind that counts as a dispute.
pub open spec fn dispute_kind() -> Seq<char> {
    "dispute"@
}

/// Whether a rating kind marks a dispute.
pub fn is_dispute(kind: &Symbol) -> (r: bool)
    ensures
        r == (kind@ == dispute_kind()),
{
    let dispute = Symbol::new("dispute");
    kind.same(&dispute)
}

/// A stored cumulative weight; 0 when none is stored.
pub open spec fn stored_weight(paid: Option<i128>) -> int {
    match paid {
        Some(w) => w as int,
        None => 0,
    }
}

/// A payer's cumulative weight after one more accepted rating of `weight`.
pub fn accrue_weight(paid: Option<i128>, weight: i128) -> (r: i128)
    requires
        i128::MIN <= stored_weight(paid) + weight <= i128::MAX,
    ensures
        r == stored_weight(paid) + weight,
{
    match paid {
        Some(w) => w + weight,
        None => weight,
    }
}

/// What an accepted submission at timestamp `now` writes: the agent's
/// stored state (or a fresh one) decayed to now and then given the rating,
/// and the payer's cumulative weight grown by `weight`; or the error that
/// refuses it.
pub open spec fn submit_outcome(
    now: u64,
    caller: Seq<char>,
    scorer: Seq<char>,
    seen: bool,
    stored: Option<RepState>,
    paid: Option<i128>,
    rating: u32,
    weight: i128,
    kind: Seq<char>,
) -> Result<(RepState, i128), Error> {
    match submission_error(caller, scorer, rating, weight, seen) {
        Some(e) => Err(e),
        None => Ok(
            (
                with_rating(decayed_from(stored, epoch_of(now)), rating, weight, kind == dispute_kind()),
                (stored_weight(paid) + weight) as i128,
            ),
        ),
    }
}

/// An accepted submission can be computed without overflow.
pub open spec fn submit_fits(
    now: u64,
    caller: Seq<char>,
    scorer: Seq<char>,
    seen: bool,
    stored: Option<RepState>,
    paid: Option<i128>,
    rating: u32,
    weight: i128,
    kind: Seq<char>,
) -> bool {
    submission_error(caller, scorer, rating, weight, seen) is None ==> {
        &&& stored matches Some(s) ==> decay_fits(s, epoch_of(now))
        &&& rating_fits(decayed_from(stored, epoch_of(now)), rating, weight, kind == dispute_kind())
        &&& i128::MIN <= stored_weight(paid) + weight <= i128::MAX
    }
}

/// One submission over the values it reads from storage: whether the
/// `(agent, job)` pair was rated, the agent's stored state and the payer's
/// stored cumulative weight. Returns what to write back.
pub fn submit_step(
    now: u64,
    caller: &Address,
    scorer: &Address,
    seen: bool,
    stored: Option<RepState>,
    paid: Option<i128>,
    rating_0_to_100: u32,
    weight: i128,
    kind: &Symbol,
) -> (r: Result<(RepState, i128), Error>)
    requires
        submit_fits(now, caller@, scorer@, seen, stored, paid, rating_0_to_100, weight, kind@),
    ensures
        r == submit_outcome(now, caller@, scorer@, seen, stored, paid, rating_0_to_100, weight, kind@),
{
    match check_submission(caller, scorer, rating_0_to_100, weight, seen) {
        Err(e) => {
            return Err(e);
        },
        Ok(()) => {},
    }
    let state = decayed_state(stored, current_epoch(now));
    let dispute = is_dispute(kind);
    let new_state = add_rating(state, rating_0_to_100, weight, dispute);
    Ok((new_state, accrue_weight(paid, weight)))
}

/// Whether `submit_step` can run on these values without overflow.
pub fn can_submit_step(
    now: u64,
    caller: &Address,
    scorer: &Address,
    seen: bool,
    stored: Option<RepState>,
    paid: Option<i128>,
    rating_0_to_100: u32,
    weight: i128,
    kind: &Symbol,
) -> (r: bool)
    ensures
        r == submit_fits(now, caller@, scorer@, seen, stored, paid, rating_0_to_100, weight, kind@),
{
    if check_submission(caller, scorer, rating_0_to_100, weight, seen).is_err() {
        return true;
    }
    let epoch = current_epoch(now);
    match stored {
        Some(s) => {
            if !can_decay(&s, epoch) {
                return false;
            }
        },
        None => {},
    }
    let state = decayed_state(stored, epoch);
    let dispute = is_dispute(kind);
    if !can_add_rating(&state, rating_0_to_100, weight, dispute) {
        return false;
    }
    let base: i128 = match paid {
        Some(w) => w,
        None => 0,
    };
    base.checked_add(weight).is_some()
}

/// The ledger's storage, as mathematical values.
#[verifier::ext_equal]
pub struct LedgerView {
    pub admin: Seq<char>,
    pub scorer: Seq<char>,
    /// Agent → last written state.
    pub reps: Map<Seq<char>, RepState>,
    /// The `(agent, job)` pairs that were rated.
    pub rated: Set<(Seq<char>, Seq<u8>)>,
    /// `(agent, payer)` → cumulative weight that payer contributed.
    pub payer_weights: Map<(Seq<char>, Seq<char>), i128>,
}

impl LedgerView {
    /// The agent's lifetime rating count.
    pub open spec fn count_of(self, agent: Seq<char>) -> u32 {
        if self.reps.contains_key(agent) {
            self.reps[agent].count
        } else {
            0
        }
    }

    /// The agent's stored state, if any.
    pub open spec fn stored(self, agent: Seq<char>) -> Option<RepState> {
        if self.reps.contains_key(agent) {
            Some(self.reps[agent])
        } else {
            None
        }
    }

    /// The agent's state decayed to the epoch of `now`.
    pub open spec fn rep_state(self, agent: Seq<char>, now: u64) -> RepState {
        decayed_from(self.stored(agent), epoch_of(now))
    }

    /// The cumulative weight that `payer` contributed to `agent`; 0 by default.
    pub open spec fn payer_weight(self, agent: Seq<char>, payer: Seq<char>) -> i128 {
        if self.payer_weights.contains_key((agent, payer)) {
            self.payer_weights[(agent, payer)]
        } else {
            0
        }
    }

    /// The ledger after a submission at timestamp `now`, or the error that
    /// refuses it (nothing changes then). On success the agent's state is
    /// decayed to now and then gains the rating, the `(agent, job)` pair is
    /// marked as rated, and the payer's cumulative weight grows by `weight`.
    pub open spec fn after_submit(
        self,
        now: u64,
        caller: Seq<char>,
        agent: Seq<char>,
        job: Seq<u8>,
        rating: u32,
        weight: i128,
        payer: Seq<char>,
        kind: Seq<char>,
    ) -> Result<LedgerView, Error> {
        match submission_error(caller, self.scorer, rating, weight, self.rated.contains((agent, job))) {
            Some(e) => Err(e),
            None => Ok(
                LedgerView {
                    admin: self.admin,
                    scorer: self.scorer,
                    reps: self.reps.insert(
                        agent,
                        with_rating(self.rep_state(agent, now), rating, weight, kind == dispute_kind()),
                    ),
                    rated: self.rated.insert((agent, job)),
                    payer_weights: self.payer_weights.insert(
                        (agent, payer),
                        (self.payer_weight(agent, payer) + weight) as i128,
                    ),
                },
            ),
        }
    }
}

/// The reputation ledger: its configured admin and scorer and its storage.
pub struct ReputationLedger {
    admin: Address,
    scorer: Address,
    reps: Table<Symbol, RepState>,
    rated: Table<(Symbol, Bytes16), bool>,
    payer_weights: Table<(Symbol, Address), i128>,
}

impl View for ReputationLedger {
    type V = LedgerView;

    closed spec fn view(&self) -> LedgerView {
        LedgerView {
            admin: self.admin@,
            scorer: self.scorer@,
            reps: self.reps.contents(),
            rated: self.rated.contents().dom(),
            payer_weights: self.payer_weights.contents(),
        }
    }
}

impl ReputationLedger {
    /// The ledger's invariant: every stored state is well-formed, and each
    /// payer's cumulative weight is positive and at most what the agent's
    /// counted ratings could carry.
    pub closed spec fn wf(&self) -> bool {
        &&& self.reps.wf()
        &&& self.rated.wf()
        &&& self.payer_weights.wf()
        &&& forall|a: Seq<char>| #[trigger]
            self.reps.contents().contains_key(a) ==> self.reps.contents()[a].wf()
        &&& forall|k: (Seq<char>, Seq<char>)| #[trigger]
            self.payer_weights.contents().contains_key(k) ==> {
                &&& self.reps.contents().contains_key(k.0)
                &&& 0 < self.payer_weights.contents()[k] <= self.reps.contents()[k.0].count
                    * MAX_WEIGHT
            }
    }

    /// Every state reachable in a well-formed ledger is well-formed.
    pub proof fn lemma_states_wf(&self, agent: Seq<char>, now: u64)
        requires
            self.wf(),
        ensures
            self@.rep_state(agent, now).wf(),
            self@.reps.contains_key(agent) ==> self@.reps[agent].wf(),
    {
        if self@.reps.contains_key(agent) {
            lemma_decayed_wf(self@.reps[agent], epoch_of(now));
        } else {
            lemma_decayed_wf(fresh_state(epoch_of(now)), epoch_of(now));
        }
    }

    /// In a well-formed ledger each payer's cumulative weight for an agent
    /// is non-negative and at most the agent's lifetime count times the
    /// weight cap, and each agent's disputes are among its counted ratings.
    pub proof fn lemma_payer_weight_bounded(&self, agent: Seq<char>, payer: Seq<char>)
        requires
            self.wf(),
        ensures
            0 <= self@.payer_weight(agent, payer) <= self@.count_of(agent) * MAX_WEIGHT,
            self@.reps.contains_key(agent) ==> self@.reps[agent].disputed
                <= self@.reps[agent].count,
    {
        if self.payer_weights.contents().contains_key((agent, payer)) {
            assert(self.reps.contents().contains_key(agent));
        }
        if self.reps.contents().contains_key(agent) {
            assert(self.reps.contents()[agent].wf());
        }
    }

    /// A ledger deployed with `admin` and `scorer` and empty storage.
    pub fn new(admin: Address, scorer: Address) -> (r: Self)
        ensures
            r.wf(),
            r@.admin == admin@,
            r@.scorer == scorer@,
            r@.reps == Map::<Seq<char>, RepState>::empty(),
            r@.rated == Set::<(Seq<char>, Seq<u8>)>::empty(),
            r@.payer_weights == Map::<(Seq<char>, Seq<char>), i128>::empty(),
    {
        ReputationLedger {
            admin,
            scorer,
            reps: Table::new(),
            rated: Table::new(),
            payer_weights: Table::new(),
        }
    }

    fn stored(&self, agent_id: &Symbol) -> (r: Option<RepState>)
        requires
            self.wf(),
        ensures
            r == self@.stored(agent_id@),
    {
        match self.reps.get(agent_id) {
            Some(s) => Some(*s),
            None => None,
        }
    }

    /// Records a rating for a completed job at ledger timestamp `now`.
    ///
    /// The caller must be the scorer; the rating is on a 0..=100 scale and is
    /// stored as basis points; the weight is the job's value, at most
    /// `MAX_WEIGHT`; each `(agent, job)` pair can be rated once ever; the
    /// payer accrues cumulative weight; a `dispute` kind also counts a dispute.
    pub fn submit(
        &mut self,
        now: u64,
        caller: &Address,
        agent_id: &Symbol,
        job_id: &Bytes16,
        rating_0_to_100: u32,
        weight: i128,
        payer: &Address,
        kind: &Symbol,
    ) -> (r: Result<(), Error>)
        requires
            old(self).wf(),
            submission_error(
                caller@,
                old(self)@.scorer,
                rating_0_to_100,
                weight,
                old(self)@.rated.contains((agent_id@, job_id@)),
            ) is None ==> old(self)@.count_of(agent_id@) < u32::MAX,
        ensures
            final(self).wf(),
            match r {
                Ok(()) => old(self)@.after_submit(
                    now,
                    caller@,
                    agent_id@,
                    job_id@,
                    rating_0_to_100,
                    weight,
                    payer@,
                    kind@,
                ) == Ok::<LedgerView, Error>(final(self)@),
                Err(e) => old(self)@.after_submit(
                    now,
                    caller@,
                    agent_id@,
                    job_id@,
                    rating_0_to_100,
                    weight,
                    payer@,
                    kind@,
                ) == Err::<LedgerView, Error>(e) && final(self)@ == old(self)@,
            },
    {
        let seen_key = (agent_id.duplicate(), *job_id);
        let seen = self.rated.contains(&seen_key);
        let stored = self.stored(agent_id);
        let payer_key = (agent_id.duplicate(), payer.duplicate());
        let paid: Option<i128> = match self.payer_weights.get(&payer_key) {
            Some(w) => Some(*w),
            None => None,
        };
        let ghost old_self = *self;
        let ghost state = decayed_from(stored, epoch_of(now));
        proof {
            old_self.lemma_states_wf(agent_id@, now);
            if stored is Some {
                lemma_decayed_wf(stored->0, epoch_of(now));
            }
            if submission_error(caller@, old_self@.scorer, rating_0_to_100, weight, seen) is None {
                lemma_with_rating_wf(state, rating_0_to_100, weight, kind@ == dispute_kind());
                if old_self.payer_weights.contents().contains_key((agent_id@, payer@)) {
                    assert(old_self.reps.contents().contains_key(agent_id@));
                }
                assert(stored_weight(paid) <= (state.count as int) * MAX_WEIGHT);
            }
        }
        let (new_state, total) = match submit_step(
            now,
            caller,
            &self.scorer,
            seen,
            stored,
            paid,
            rating_0_to_100,
            weight,
            kind,
        ) {
            Err(e) => {
                return Err(e);
            },
            Ok(x) => x,
        };
        self.reps.insert(agent_id.duplicate(), new_state);
        self.rated.insert(seen_key, true);
        self.payer_weights.insert(payer_key, total);
        proof {
            assert(self@ =~= old_self@.after_submit(
                now,
                caller@,
                agent_id@,
                job_id@,
                rating_0_to_100,
                weight,
                payer@,
                kind@,
            )->Ok_0);
            assert forall|a: Seq<char>| #[trigger]
                self.reps.contents().contains_key(a) implies self.reps.contents()[a].wf() by {
                if a != agent_id@ {
                    assert(old_self.reps.contents().contains_key(a));
                }
            }
            assert forall|k: (Seq<char>, Seq<char>)| #[trigger]
                self.payer_weights.contents().contains_key(k) implies {
                &&& self.reps.contents().contains_key(k.0)
                &&& 0 < self.payer_weights.contents()[k] <= self.reps.contents()[k.0].count
                    * MAX_WEIGHT
            } by {
                if k != (agent_id@, payer@) {
                    assert(old_self.payer_weights.contents().contains_key(k));
                    if k.0 == agent_id@ {
                        assert(old_self.reps.contents().contains_key(k.0));
                        assert(state.count == old_self.reps.contents()[k.0].count);
                    }
                }
            }
        }
        Ok(())
    }

    /// The agent's state decayed to the epoch of `now`; nothing is written.
    pub fn rep_state(&self, now: u64, agent_id: &Symbol) -> (r: RepState)
        requires
            self.wf(),
        ensures
            r == self@.rep_state(agent_id@, now),
            r.wf(),
    {
        let stored = self.stored(agent_id);
        proof {
            self.lemma_states_wf(agent_id@, now);
            if stored is Some {
                lemma_decayed_wf(stored->0, epoch_of(now));
            }
        }
        decayed_state(stored, current_epoch(now))
    }

    /// The decayed weighted mean in basis points (0..=10_000); 0 when there
    /// is no weight.
    pub fn avg_bps(&self, now: u64, agent_id: &Symbol) -> (r: u32)
        requires
            self.wf(),
        ensures
            r == mean_bps(self@.rep_state(agent_id@, now)),
    {
        let s = self.rep_state(now, agent_id);
        weighted_mean_bps(&s)
    }

    /// The decayed mean smoothed toward a caller-supplied prior:
    /// `(prior_weight * prior_bps + sum_w) / (prior_weight + weight)`,
    /// clamped to 0..=10_000; `prior_bps` when the total weight is not
    /// positive.
    pub fn rep_bps(&self, now: u64, agent_id: &Symbol, prior_bps: u32, prior_weight: i128) -> (r:
        u32)
        requires
            self.wf(),
            smoothing_fits(self@.rep_state(agent_id@, now), prior_bps, prior_weight),
        ensures
            r == smoothed_bps(self@.rep_state(agent_id@, now), prior_bps, prior_weight),
    {
        let s = self.rep_state(now, agent_id);
        smoothed_mean_bps(&s, prior_bps, prior_weight)
    }

    /// The lifetime dispute rate in basis points: `disputed * 10_000 / count`;
    /// 0 when the agent was never rated.
    pub fn dispute_rate_bps(&self, now: u64, agent_id: &Symbol) -> (r: u32)
        requires
            self.wf(),
        ensures
            r == dispute_rate(self@.rep_state(agent_id@, now)),
    {
        let s = self.rep_state(now, agent_id);
        dispute_rate_of(&s)
    }

    /// The cumulative, never decayed, weight that `payer` contributed to the
    /// agent; 0 by default.
    pub fn payer_weight(&self, agent_id: &Symbol, payer: &Address) -> (r: i128)
        requires
            self.wf(),
        ensures
            r == self@.payer_weight(agent_id@, payer@),
    {
        let key = (agent_id.duplicate(), payer.duplicate());
        match self.payer_weights.get(&key) {
            Some(w) => *w,
            None => 0,
        }
    }

    /// Replaces the scorer. The admin's signature is checked by the host.
    pub fn set_scorer(&mut self, new_scorer: Address) -> (r: Result<(), Error>)
        requires
            old(self).wf(),
        ensures
            r is Ok,
            final(self).wf(),
            final(self)@ == (LedgerView { scorer: new_scorer@, ..old(self)@ }),
    {
        self.scorer = new_scorer;
        Ok(())
    }

    /// The admin configured at deployment.
    pub fn admin(&self) -> (r: &Address)
        ensures
            r@ == self@.admin,
    {
        &self.admin
    }

    /// The current scorer.
    pub fn scorer(&self) -> (r: &Address)
        ensures
            r@ == self@.scorer,
    {
        &self.scorer
    }
}

} // verus!
