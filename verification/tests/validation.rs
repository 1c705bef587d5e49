use charms_app::schedule::{Checkpoint, VestingSchedule};
use charms_app::validate::{
    validate, AuthProof, ChainState, ClaimWitness, RejectReason, TxInfo,
};

fn linear_schedule() -> VestingSchedule {
    VestingSchedule {
        checkpoints: vec![
            Checkpoint { time: 0, amount: 0 },
            Checkpoint { time: 100, amount: 1000 },
        ],
        total_amount: 1000,
        beneficiary: vec![0xAA, 0xBB],
    }
}

fn auth() -> Option<AuthProof> {
    Some(AuthProof { claimant: vec![0xAA, 0xBB] })
}

fn witness(claimed_amount: u64) -> ClaimWitness {
    ClaimWitness { claimed_amount, auth: auth() }
}

#[test]
fn test_accept_partial_vested() {
    let prior = ChainState { schedule: linear_schedule(), claimed_total: 0 };
    let tx = TxInfo { reference_time: 50, input_amount: 1000, output_amounts: vec![600] };
    let continuation = ChainState { schedule: linear_schedule(), claimed_total: 400 };
    let r = validate(&prior, &tx, &continuation, &witness(400));
    assert_eq!(r, Ok(()));
}

#[test]
fn test_reject_exceeds_vested() {
    let prior = ChainState { schedule: linear_schedule(), claimed_total: 0 };
    let tx = TxInfo { reference_time: 50, input_amount: 1000, output_amounts: vec![400] };
    let continuation = ChainState { schedule: linear_schedule(), claimed_total: 600 };
    let r = validate(&prior, &tx, &continuation, &witness(600));
    assert_eq!(r, Err(RejectReason::ClaimExceedsVested));
}

#[test]
fn test_accept_total_exactly() {
    let prior = ChainState { schedule: linear_schedule(), claimed_total: 900 };
    let tx = TxInfo { reference_time: 100, input_amount: 100, output_amounts: vec![0] };
    let continuation = ChainState { schedule: linear_schedule(), claimed_total: 1000 };
    let r = validate(&prior, &tx, &continuation, &witness(100));
    assert_eq!(r, Ok(()));
}

#[test]
fn test_reject_exceeds_total() {
    let prior = ChainState { schedule: linear_schedule(), claimed_total: 900 };
    let tx = TxInfo { reference_time: 100, input_amount: 100, output_amounts: vec![0] };
    let continuation = ChainState { schedule: linear_schedule(), claimed_total: 1000 };
    let r = validate(&prior, &tx, &continuation, &witness(101));
    assert_eq!(r, Err(RejectReason::ClaimExceedsTotal));
}

#[test]
fn test_reject_malformed_continuation() {
    let prior = ChainState { schedule: linear_schedule(), claimed_total: 0 };
    let tx = TxInfo { reference_time: 50, input_amount: 1000, output_amounts: vec![600] };
    let continuation = ChainState { schedule: linear_schedule(), claimed_total: 300 };
    let r = validate(&prior, &tx, &continuation, &witness(400));
    assert_eq!(r, Err(RejectReason::MalformedContinuation));
}

#[test]
fn test_reject_mutated_schedule() {
    let prior = ChainState { schedule: linear_schedule(), claimed_total: 0 };
    let tx = TxInfo { reference_time: 50, input_amount: 1000, output_amounts: vec![600] };
    let mut mutated = linear_schedule();
    mutated.checkpoints[1].time = 50;
    let continuation = ChainState { schedule: mutated, claimed_total: 400 };
    let r = validate(&prior, &tx, &continuation, &witness(400));
    assert_eq!(r, Err(RejectReason::MalformedContinuation));
}

#[test]
fn test_reject_balance_not_conserved() {
    let prior = ChainState { schedule: linear_schedule(), claimed_total: 0 };
    // 500 + 400 != 1000: tokens vanish outside the claim.
    let tx = TxInfo { reference_time: 50, input_amount: 1000, output_amounts: vec![500] };
    let continuation = ChainState { schedule: linear_schedule(), claimed_total: 400 };
    let r = validate(&prior, &tx, &continuation, &witness(400));
    assert_eq!(r, Err(RejectReason::BalanceNotConserved));
}

#[test]
fn test_reject_unauthorized_absent_proof() {
    let prior = ChainState { schedule: linear_schedule(), claimed_total: 0 };
    let tx = TxInfo { reference_time: 50, input_amount: 1000, output_amounts: vec![600] };
    let continuation = ChainState { schedule: linear_schedule(), claimed_total: 400 };
    let w = ClaimWitness { claimed_amount: 400, auth: None };
    let r = validate(&prior, &tx, &continuation, &w);
    assert_eq!(r, Err(RejectReason::UnauthorizedClaimant));
}

#[test]
fn test_reject_wrong_claimant() {
    let prior = ChainState { schedule: linear_schedule(), claimed_total: 0 };
    let tx = TxInfo { reference_time: 50, input_amount: 1000, output_amounts: vec![600] };
    let continuation = ChainState { schedule: linear_schedule(), claimed_total: 400 };
    let w = ClaimWitness {
        claimed_amount: 400,
        auth: Some(AuthProof { claimant: vec![0xAA, 0xCC] }),
    };
    let r = validate(&prior, &tx, &continuation, &w);
    assert_eq!(r, Err(RejectReason::UnauthorizedClaimant));
}

#[test]
fn test_zero_claim_accepts_and_keeps_total() {
    let prior = ChainState { schedule: linear_schedule(), claimed_total: 300 };
    let tx = TxInfo { reference_time: 50, input_amount: 700, output_amounts: vec![700] };
    let continuation = ChainState { schedule: linear_schedule(), claimed_total: 300 };
    let r = validate(&prior, &tx, &continuation, &witness(0));
    assert_eq!(r, Ok(()));
    assert_eq!(continuation.claimed_total, prior.claimed_total);
}

#[test]
fn test_determinism_repeated_calls() {
    let prior = ChainState { schedule: linear_schedule(), claimed_total: 0 };
    let tx = TxInfo { reference_time: 50, input_amount: 1000, output_amounts: vec![600] };
    let continuation = ChainState { schedule: linear_schedule(), claimed_total: 400 };
    let w = witness(400);
    let first = validate(&prior, &tx, &continuation, &w);
    let second = validate(&prior, &tx, &continuation, &w);
    assert_eq!(first, second);
}

#[test]
fn test_unlocked_interpolation_midpoint() {
    let s = linear_schedule();
    assert_eq!(s.unlocked_amount(50), 500);
}

#[test]
fn test_unlocked_monotone_samples() {
    let s = linear_schedule();
    let mut last: u64 = 0;
    for t in [0u64, 1, 10, 49, 50, 99, 100, 1000] {
        let u = s.unlocked_amount(t);
        assert!(u >= last);
        last = u;
    }
}

#[test]
fn test_unlocked_boundaries() {
    let s = VestingSchedule {
        checkpoints: vec![
            Checkpoint { time: 10, amount: 100 },
            Checkpoint { time: 20, amount: 400 },
        ],
        total_amount: 400,
        beneficiary: vec![1],
    };
    assert_eq!(s.unlocked_amount(9), 0); // nothing before start_time
    assert_eq!(s.unlocked_amount(10), 100); // first checkpoint unlocks at once
    assert_eq!(s.unlocked_amount(20), 400); // end_time unlocks the total
    assert_eq!(s.unlocked_amount(10_000), 400); // and it stays unlocked
}

#[test]
fn test_unlocked_rounds_down() {
    let s = VestingSchedule {
        checkpoints: vec![
            Checkpoint { time: 0, amount: 0 },
            Checkpoint { time: 3, amount: 10 },
        ],
        total_amount: 10,
        beneficiary: vec![1],
    };
    assert_eq!(s.unlocked_amount(1), 3); // 10 * 1 / 3 rounded down
    assert_eq!(s.unlocked_amount(2), 6); // 10 * 2 / 3 rounded down
}

#[test]
fn test_unlocked_multi_segment() {
    let s = VestingSchedule {
        checkpoints: vec![
            Checkpoint { time: 0, amount: 0 },
            Checkpoint { time: 10, amount: 100 },
            Checkpoint { time: 30, amount: 500 },
        ],
        total_amount: 500,
        beneficiary: vec![1],
    };
    assert_eq!(s.unlocked_amount(5), 50);
    assert_eq!(s.unlocked_amount(10), 100);
    assert_eq!(s.unlocked_amount(20), 300);
    assert_eq!(s.unlocked_amount(30), 500);
}

#[test]
fn test_check_well_formed() {
    assert!(linear_schedule().check_well_formed());

    let unsorted = VestingSchedule {
        checkpoints: vec![
            Checkpoint { time: 100, amount: 0 },
            Checkpoint { time: 50, amount: 1000 },
        ],
        total_amount: 1000,
        beneficiary: vec![1],
    };
    assert!(!unsorted.check_well_formed());

    let shrinking = VestingSchedule {
        checkpoints: vec![
            Checkpoint { time: 0, amount: 500 },
            Checkpoint { time: 100, amount: 400 },
        ],
        total_amount: 400,
        beneficiary: vec![1],
    };
    assert!(!shrinking.check_well_formed());

    let wrong_total = VestingSchedule {
        checkpoints: vec![
            Checkpoint { time: 0, amount: 0 },
            Checkpoint { time: 100, amount: 900 },
        ],
        total_amount: 1000,
        beneficiary: vec![1],
    };
    assert!(!wrong_total.check_well_formed());

    let empty = VestingSchedule {
        checkpoints: vec![],
        total_amount: 0,
        beneficiary: vec![1],
    };
    assert!(!empty.check_well_formed());
}

#[test]
fn test_chain_state_well_formed() {
    let ok = ChainState { schedule: linear_schedule(), claimed_total: 1000 };
    assert!(ok.check_well_formed());
    let over = ChainState { schedule: linear_schedule(), claimed_total: 1001 };
    assert!(!over.check_well_formed());
}
