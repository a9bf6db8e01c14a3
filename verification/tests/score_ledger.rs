use orizon_contracts::ids::{Address, Bytes16, Symbol};
use orizon_contracts::score_ledger::{Error, ReputationLedger};
use orizon_contracts::shared::Score;

fn address(n: u32) -> Address {
    Address::new(&format!("GACCOUNT{:048}", n))
}

#[test]
fn score_ledger_sums_and_averages() {
    let scorer = address(2);
    let mut l = ReputationLedger::new(address(1), scorer.clone());
    let agent = Symbol::new("copy_v3");
    assert_eq!(l.score(&agent), Score { sum: 0, count: 0 });
    assert_eq!(l.avg_bps(&agent), 0);
    l.submit(&scorer, &agent, 5, &Bytes16 { bytes: [1; 16] }).unwrap();
    l.submit(&scorer, &agent, 2, &Bytes16 { bytes: [2; 16] }).unwrap();
    assert_eq!(l.score(&agent), Score { sum: 7, count: 2 });
    // mean × 10_000: 3.5 stars
    assert_eq!(l.avg_bps(&agent), 35_000);
}

#[test]
fn score_ledger_refusals() {
    let scorer = address(2);
    let mut l = ReputationLedger::new(address(1), scorer.clone());
    let agent = Symbol::new("copy_v3");
    let job = Bytes16 { bytes: [1; 16] };
    assert_eq!(l.submit(&address(3), &agent, 3, &job).unwrap_err(), Error::Unauthorized);
    assert_eq!(l.submit(&scorer, &agent, 6, &job).unwrap_err(), Error::OutOfRange);
    l.submit(&scorer, &agent, 4, &job).unwrap();
    assert_eq!(l.submit(&scorer, &agent, 4, &job).unwrap_err(), Error::Replay);
    assert_eq!(l.score(&agent).count, 1);
}

#[test]
fn score_ledger_rated_pair_stays_refused() {
    let scorer = address(2);
    let mut l = ReputationLedger::new(address(1), scorer.clone());
    let agent = Symbol::new("copy_v3");
    let job = Bytes16 { bytes: [1; 16] };
    l.submit(&scorer, &agent, 4, &job).unwrap();
    for _ in 0..3 {
        assert_eq!(l.submit(&scorer, &agent, 2, &job).unwrap_err(), Error::Replay);
    }
    l.set_scorer(address(3)).unwrap();
    assert_eq!(l.submit(&address(3), &agent, 2, &job).unwrap_err(), Error::Replay);
    assert_eq!(l.score(&agent), Score { sum: 4, count: 1 });
}

#[test]
fn score_ledger_set_scorer() {
    let old = address(2);
    let mut l = ReputationLedger::new(address(1), old.clone());
    let new = address(3);
    l.set_scorer(new.clone()).unwrap();
    let agent = Symbol::new("a");
    assert_eq!(l.submit(&old, &agent, 1, &Bytes16 { bytes: [0; 16] }).unwrap_err(), Error::Unauthorized);
    l.submit(&new, &agent, 1, &Bytes16 { bytes: [0; 16] }).unwrap();
    assert_eq!(Error::Replay.code(), 7);
    assert_eq!(Error::OutOfRange.code(), 100);
}
