use orizon_contracts::ids::{Address, Bytes16, Symbol};
use orizon_contracts::reputation::{
    add_rating, current_epoch, decay_to, decayed_state, dispute_rate_of, is_dispute,
    smoothed_mean_bps, weighted_mean_bps, Error, RepState, ReputationLedger,
};

fn state(sum_w: i128, weight: i128, count: u32, disputed: u32, last_epoch: u64) -> RepState {
    RepState { sum_w, weight, count, disputed, last_epoch }
}

#[test]
fn decay_to_scales_once_per_epoch() {
    let mut s = state(1_000_000, 1_000, 3, 1, 10);
    decay_to(&mut s, 12);
    // 1_000_000 → 925_000 → 855_625; 1_000 → 925 → 855
    assert_eq!(s, state(855_625, 855, 3, 1, 12));
}

#[test]
fn decay_to_does_nothing_when_not_later() {
    let mut s = state(50, 5, 1, 0, 10);
    decay_to(&mut s, 10);
    assert_eq!(s, state(50, 5, 1, 0, 10));
    decay_to(&mut s, 3);
    assert_eq!(s, state(50, 5, 1, 0, 10));
}

#[test]
fn decay_to_forgets_after_max_epochs() {
    let mut s = state(i128::MAX, i128::MAX, 9, 2, 0);
    decay_to(&mut s, 96);
    assert_eq!(s, state(0, 0, 9, 2, 96));
    let mut t = state(1_000_000, 1_000, 1, 0, 0);
    decay_to(&mut t, 95);
    assert!(t.weight < 1_000 && t.sum_w > 0);
}

#[test]
fn decay_truncates_toward_zero_for_negative_values() {
    let mut s = state(-1_000, -1, 0, 0, 0);
    decay_to(&mut s, 1);
    assert_eq!(s.sum_w, -925);
    assert_eq!(s.weight, 0);
}

#[test]
fn decayed_state_of_unknown_agent_is_fresh() {
    assert_eq!(decayed_state(None, 7), state(0, 0, 0, 0, 7));
    assert_eq!(current_epoch(604_800 * 3 + 5), 3);
    assert_eq!(current_epoch(604_799), 0);
}

#[test]
fn add_rating_scales_to_basis_points() {
    let s = add_rating(state(0, 0, 0, 0, 2), 73, 10, false);
    assert_eq!(s, state(73_000, 10, 1, 0, 2));
    let t = add_rating(s, 0, 5, true);
    assert_eq!(t, state(73_000, 15, 2, 1, 2));
}

#[test]
fn means_are_clamped_and_guarded() {
    assert_eq!(weighted_mean_bps(&state(0, 0, 0, 0, 0)), 0);
    assert_eq!(weighted_mean_bps(&state(9_250, 1, 1, 0, 0)), 9_250);
    // rounding can leave more sum than the weight carries: still clamped
    assert_eq!(weighted_mean_bps(&state(25_000, 2, 1, 0, 0)), 10_000);
    assert_eq!(smoothed_mean_bps(&state(0, 0, 0, 0, 0), 12_345, 0), 12_345);
    assert_eq!(smoothed_mean_bps(&state(0, 0, 0, 0, 0), 12_345, 3), 10_000);
    // a negative prior weight that cancels the evidence returns the prior
    assert_eq!(smoothed_mean_bps(&state(10_000, 1, 1, 0, 0), 4_000, -1), 4_000);
    assert_eq!(dispute_rate_of(&state(0, 0, 3, 1, 0)), 3_333);
    assert_eq!(dispute_rate_of(&state(0, 0, 0, 0, 0)), 0);
}

#[test]
fn dispute_kind_is_exact_text() {
    assert!(is_dispute(&Symbol::new("dispute")));
    assert!(!is_dispute(&Symbol::new("disputes")));
    assert!(!is_dispute(&Symbol::new("rating")));
}

#[test]
fn exact_mean_survives_decay_with_enough_weight() {
    // sum = 6_000 × weight; after 10 epochs the weight still exceeds 10 × 6_000
    let mut s = state(6_000 * 10_000_000, 10_000_000, 1, 0, 0);
    decay_to(&mut s, 10);
    assert!(s.weight > 60_000);
    assert_eq!(weighted_mean_bps(&s), 6_000);
}

#[test]
fn rounding_can_raise_a_floor_mean_but_never_lower_it() {
    // 13 of weight 14 floors to mean 0; after one epoch both round to 12
    let mut s = state(13, 14, 1, 0, 0);
    assert_eq!(weighted_mean_bps(&s), 0);
    decay_to(&mut s, 1);
    assert_eq!((s.sum_w, s.weight), (12, 12));
    assert_eq!(weighted_mean_bps(&s), 1);
}

#[test]
fn submission_touches_only_its_agent() {
    let scorer = Address::new("GSCORER");
    let mut l = ReputationLedger::new(Address::new("GADMIN"), scorer.clone());
    let payer = Address::new("GPAYER");
    let a = Symbol::new("agent_a");
    let b = Symbol::new("agent_b");
    l.submit(0, &scorer, &a, &Bytes16 { bytes: [1; 16] }, 50, 10, &payer, &Symbol::new("rating")).unwrap();
    assert_eq!(l.rep_state(0, &b), state(0, 0, 0, 0, 0));
    assert_eq!(l.payer_weight(&b, &payer), 0);
    // the same job id for another agent is a different pair
    l.submit(0, &scorer, &b, &Bytes16 { bytes: [1; 16] }, 50, 10, &payer, &Symbol::new("rating")).unwrap();
    assert_eq!(l.rep_state(0, &a).count, 1);
    assert_eq!(l.rep_state(0, &b).count, 1);
    assert_eq!(l.admin(), &Address::new("GADMIN"));
    assert_eq!(l.scorer(), &scorer);
}

#[test]
fn reputation_error_codes() {
    assert_eq!(Error::Unauthorized.code(), 1);
    assert_eq!(Error::NotFound.code(), 2);
    assert_eq!(Error::Replay.code(), 7);
    assert_eq!(Error::OutOfRange.code(), 100);
}
