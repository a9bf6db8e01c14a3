use orizon_contracts::ids::{Address, Bytes16, Symbol};
use orizon_contracts::reputation::{Error, ReputationLedger};

const EPOCH_SECONDS: u64 = 604_800;
const MAX_WEIGHT: i128 = 1_000_000_000;

/// The ledger time and a source of distinct addresses.
struct Env {
    now: u64,
    next: u32,
}

impl Env {
    fn new() -> Env {
        Env { now: 0, next: 0 }
    }

    fn generate(&mut self) -> Address {
        self.next += 1;
        Address::new(&format!("GACCOUNT{:048}", self.next))
    }
}

fn setup(env: &mut Env) -> (ReputationLedger, Address, Address) {
    let admin = env.generate();
    let scorer = env.generate();
    (ReputationLedger::new(admin.clone(), scorer.clone()), admin, scorer)
}

fn job(n: u8) -> Bytes16 {
    Bytes16 { bytes: [n; 16] }
}

fn advance_epochs(env: &mut Env, n: u64) {
    env.now += n * EPOCH_SECONDS;
}

/// The contract's integer decay loop, for exact expectations.
fn decay(mut v: i128, epochs: u64) -> i128 {
    for _ in 0..epochs {
        v = v * 925 / 1000;
    }
    v
}

#[test]
fn constructor_and_scorer_gating() {
    let mut env = Env::new();
    let (mut client, _admin, scorer) = setup(&mut env);
    let agent = Symbol::new("copy_v3");
    let payer = env.generate();

    let stranger = env.generate();
    let err = client.submit(env.now, &stranger, &agent, &job(1), 90, 1_000_000, &payer, &Symbol::new("rating"));
    assert_eq!(err.unwrap_err(), Error::Unauthorized);
    assert_eq!(client.rep_state(env.now, &agent).count, 0);

    // the scorer wired in by the constructor can submit
    client
        .submit(env.now, &scorer, &agent, &job(1), 90, 1_000_000, &payer, &Symbol::new("rating"))
        .unwrap();
    assert_eq!(client.rep_state(env.now, &agent).count, 1);
}

#[test]
fn set_scorer_swaps_authority() {
    let mut env = Env::new();
    let (mut client, _admin, old_scorer) = setup(&mut env);
    let agent = Symbol::new("copy_v3");
    let payer = env.generate();

    let new_scorer = env.generate();
    client.set_scorer(new_scorer.clone()).unwrap();

    let err = client.submit(env.now, &old_scorer, &agent, &job(1), 80, 1_000_000, &payer, &Symbol::new("rating"));
    assert_eq!(err.unwrap_err(), Error::Unauthorized);

    client
        .submit(env.now, &new_scorer, &agent, &job(1), 80, 1_000_000, &payer, &Symbol::new("rating"))
        .unwrap();
    assert_eq!(client.rep_state(env.now, &agent).count, 1);
}

#[test]
fn rejects_out_of_range_inputs() {
    let mut env = Env::new();
    let (mut client, _admin, scorer) = setup(&mut env);
    let agent = Symbol::new("copy_v3");
    let payer = env.generate();
    let kind = Symbol::new("rating");

    // rating above 100
    let err = client.submit(env.now, &scorer, &agent, &job(1), 101, 1_000_000, &payer, &kind);
    assert_eq!(err.unwrap_err(), Error::OutOfRange);

    // zero, negative, and above-cap weights
    let err = client.submit(env.now, &scorer, &agent, &job(1), 50, 0, &payer, &kind);
    assert_eq!(err.unwrap_err(), Error::OutOfRange);
    let err = client.submit(env.now, &scorer, &agent, &job(1), 50, -1, &payer, &kind);
    assert_eq!(err.unwrap_err(), Error::OutOfRange);
    let err = client.submit(env.now, &scorer, &agent, &job(1), 50, MAX_WEIGHT + 1, &payer, &kind);
    assert_eq!(err.unwrap_err(), Error::OutOfRange);

    // boundary values are accepted
    client.submit(env.now, &scorer, &agent, &job(1), 100, MAX_WEIGHT, &payer, &kind).unwrap();
    assert_eq!(client.rep_state(env.now, &agent).count, 1);
}

#[test]
fn replay_guard_is_persistent() {
    let mut env = Env::new();
    let (mut client, _admin, scorer) = setup(&mut env);
    let agent = Symbol::new("copy_v3");
    let payer = env.generate();
    let kind = Symbol::new("rating");

    client.submit(env.now, &scorer, &agent, &job(1), 90, 1_000_000, &payer, &kind).unwrap();

    // same (agent, job) again → Replay
    let err = client.submit(env.now, &scorer, &agent, &job(1), 10, 1_000_000, &payer, &kind);
    assert_eq!(err.unwrap_err(), Error::Replay);

    // a different job is fine
    client.submit(env.now, &scorer, &agent, &job(2), 90, 1_000_000, &payer, &kind).unwrap();

    // the guard survives long timestamp advances
    advance_epochs(&mut env, 12);
    let err = client.submit(env.now, &scorer, &agent, &job(1), 10, 1_000_000, &payer, &kind);
    assert_eq!(err.unwrap_err(), Error::Replay);
    let err = client.submit(env.now, &scorer, &agent, &job(2), 10, 1_000_000, &payer, &kind);
    assert_eq!(err.unwrap_err(), Error::Replay);
}

#[test]
fn weighted_average_accumulates() {
    let mut env = Env::new();
    let (mut client, _admin, scorer) = setup(&mut env);
    let agent = Symbol::new("copy_v3");
    let payer = env.generate();
    let kind = Symbol::new("rating");

    client.submit(env.now, &scorer, &agent, &job(1), 100, 1_000_000, &payer, &kind).unwrap();
    client.submit(env.now, &scorer, &agent, &job(2), 50, 3_000_000, &payer, &kind).unwrap();

    let s = client.rep_state(env.now, &agent);
    assert_eq!(s.sum_w, 25_000_000_000); // 10_000×1e6 + 5_000×3e6
    assert_eq!(s.weight, 4_000_000);
    assert_eq!(s.count, 2);
    assert_eq!(s.disputed, 0);

    // weight-weighted mean: (10_000×1 + 5_000×3) / 4 = 6_250 bps
    assert_eq!(client.avg_bps(env.now, &agent), 6_250);
}

#[test]
fn rep_bps_smooths_toward_evidence() {
    let mut env = Env::new();
    let (mut client, _admin, scorer) = setup(&mut env);
    let agent = Symbol::new("copy_v3");
    let payer = env.generate();
    let kind = Symbol::new("rating");

    // no evidence: prior wins regardless of prior weight
    assert_eq!(client.rep_bps(env.now, &agent, 7_000, 0), 7_000);
    assert_eq!(client.rep_bps(env.now, &agent, 7_000, 1_000_000), 7_000);

    // one perfect rating with weight equal to the prior → midpoint
    client.submit(env.now, &scorer, &agent, &job(1), 100, 1_000_000, &payer, &kind).unwrap();
    let mid = client.rep_bps(env.now, &agent, 5_000, 1_000_000);
    assert_eq!(mid, 7_500);

    // more evidence weight pulls the estimate toward the raw mean (10_000)
    for n in 2..=9u8 {
        client.submit(env.now, &scorer, &agent, &job(n), 100, 1_000_000, &payer, &kind).unwrap();
    }
    let strong = client.rep_bps(env.now, &agent, 5_000, 1_000_000);
    assert_eq!(strong, 9_500); // (5_000×1e6 + 9e10) / 1e7
    assert!(strong > mid);
    assert!(strong < client.avg_bps(env.now, &agent));
}

#[test]
fn decay_shrinks_weight_but_not_average() {
    let mut env = Env::new();
    let (mut client, _admin, scorer) = setup(&mut env);
    let agent = Symbol::new("copy_v3");
    let payer = env.generate();
    let kind = Symbol::new("rating");

    client.submit(env.now, &scorer, &agent, &job(1), 80, 100_000_000, &payer, &kind).unwrap();
    advance_epochs(&mut env, 4);

    let s = client.rep_state(env.now, &agent);
    let expected_weight = decay(100_000_000, 4);
    let expected_sum = decay(800_000_000_000, 4);
    assert_eq!(s.weight, expected_weight);
    assert_eq!(s.sum_w, expected_sum);
    assert_eq!(s.last_epoch, 4);
    assert_eq!(s.count, 1); // lifetime count is not decayed

    // ≈ 0.925^4 ≈ 0.732 of the starting weight
    assert!(s.weight > 73_000_000 && s.weight < 74_000_000);

    // pure decay scales sum and weight together — the mean is unchanged
    assert_eq!(client.avg_bps(env.now, &agent), 8_000);

    // a fresh, heavier rating dominates the decayed residue
    client.submit(env.now, &scorer, &agent, &job(2), 20, MAX_WEIGHT, &payer, &kind).unwrap();
    let expected_avg = ((expected_sum + 2_000 * MAX_WEIGHT) / (expected_weight + MAX_WEIGHT)) as u32;
    assert_eq!(client.avg_bps(env.now, &agent), expected_avg);
    assert!(expected_avg > 2_000 && expected_avg < 2_500); // near the new rating, far from 8_000
}

#[test]
fn full_forgetting_after_max_epochs() {
    let mut env = Env::new();
    let (mut client, _admin, scorer) = setup(&mut env);
    let agent = Symbol::new("copy_v3");
    let payer = env.generate();

    client
        .submit(env.now, &scorer, &agent, &job(1), 90, 500_000_000, &payer, &Symbol::new("rating"))
        .unwrap();
    advance_epochs(&mut env, 96);

    let s = client.rep_state(env.now, &agent);
    assert_eq!(s.weight, 0);
    assert_eq!(s.sum_w, 0);
    assert_eq!(s.count, 1); // lifetime counters survive full forgetting
    assert_eq!(client.avg_bps(env.now, &agent), 0);

    // with no surviving evidence the smoothed estimate is exactly the prior
    assert_eq!(client.rep_bps(env.now, &agent, 6_000, 5_000_000), 6_000);
    assert_eq!(client.rep_bps(env.now, &agent, 6_000, 0), 6_000);
}

#[test]
fn dispute_kind_tracks_dispute_rate() {
    let mut env = Env::new();
    let (mut client, _admin, scorer) = setup(&mut env);
    let agent = Symbol::new("copy_v3");
    let payer = env.generate();

    for n in 1..=3u8 {
        client
            .submit(env.now, &scorer, &agent, &job(n), 90, 1_000_000, &payer, &Symbol::new("rating"))
            .unwrap();
    }
    client
        .submit(env.now, &scorer, &agent, &job(4), 0, 1_000_000, &payer, &Symbol::new("dispute"))
        .unwrap();

    let s = client.rep_state(env.now, &agent);
    assert_eq!(s.count, 4);
    assert_eq!(s.disputed, 1);
    assert_eq!(client.dispute_rate_bps(env.now, &agent), 2_500); // 1 / 4

    // agent with no ratings → 0, not a division panic
    assert_eq!(client.dispute_rate_bps(env.now, &Symbol::new("nobody")), 0);
}

#[test]
fn payer_weight_accumulates_per_payer() {
    let mut env = Env::new();
    let (mut client, _admin, scorer) = setup(&mut env);
    let agent = Symbol::new("copy_v3");
    let kind = Symbol::new("rating");
    let payer_a = env.generate();
    let payer_b = env.generate();

    client.submit(env.now, &scorer, &agent, &job(1), 90, 1_000_000, &payer_a, &kind).unwrap();
    client.submit(env.now, &scorer, &agent, &job(2), 70, 2_000_000, &payer_a, &kind).unwrap();
    client.submit(env.now, &scorer, &agent, &job(3), 50, 5_000_000, &payer_b, &kind).unwrap();

    assert_eq!(client.payer_weight(&agent, &payer_a), 3_000_000);
    assert_eq!(client.payer_weight(&agent, &payer_b), 5_000_000);
    let stranger = env.generate();
    assert_eq!(client.payer_weight(&agent, &stranger), 0);

    // cumulative payer stake is never decayed
    advance_epochs(&mut env, 20);
    assert_eq!(client.payer_weight(&agent, &payer_a), 3_000_000);
}
