//! The claim validator: a pure decision over a proposed vesting claim.
//!
//! [`validate`] is invoked once per spend of a vesting-bearing charm output.
//! It reads the committed prior state, the transaction's trusted facts, the
//! proposed continuation state and the claimant's witness, and returns
//! accept or exactly one rejection reason.  The result is a function of the
//! inputs alone, stated by the specification [`decision`], so identical
//! inputs always yield the identical outcome.

use vstd::prelude::*;
use crate::schedule::VestingSchedule;

verus! {

/// The committed charm state of a vesting contract: the immutable schedule
/// plus the running total of tokens already claimed under it.
#[derive(Clone, Debug)]
pub struct ChainState {
    pub schedule: VestingSchedule,
    /// Running sum of tokens already withdrawn; starts at zero and only
    /// grows by accepted claims.
    pub claimed_total: u64,
}

/// The facts the enclosing transaction declares, already verified by the
/// host protocol: the time the claim is evaluated at, the charm's token
/// amount on the spent input, and the token amounts of the outputs
/// attributable to this charm.
#[derive(Clone, Debug)]
pub struct TxInfo {
    pub reference_time: u64,
    pub input_amount: u64,
    pub output_amounts: Vec<u64>,
}

/// A reference to the claimant's authorization credential, as established
/// by an external authorization collaborator.
#[derive(Clone, Debug)]
pub struct AuthProof {
    pub claimant: Vec<u8>,
}

/// The claimant's untrusted witness: the amount asserted as withdrawable
/// now, and the authorization proof reference, if any.
#[derive(Clone, Debug)]
pub struct ClaimWitness {
    pub claimed_amount: u64,
    pub auth: Option<AuthProof>,
}

/// Why a claim is rejected.  A validation returns accept or exactly one of
/// these.
#[derive(Clone, Copy, Debug, PartialEq, Eq, Structural)]
pub enum RejectReason {
    /// The claim would withdraw more than is unlocked at the reference time.
    ClaimExceedsVested,
    /// Cumulative claims would exceed the schedule's total.
    ClaimExceedsTotal,
    /// The continuation output does not carry the updated claimed total and
    /// the unchanged schedule.
    MalformedContinuation,
    /// Token amounts across outputs plus the claimed payout do not equal
    /// the charm's input amount.
    BalanceNotConserved,
    /// The claimant's authorization cannot be established.
    UnauthorizedClaimant,
    /// A payload could not be parsed into the expected entity; reported by
    /// the embedding that decodes charm data.
    DecodeError,
}

impl ChainState {
    /// Well-formedness of a committed state: the schedule is well-formed
    /// and the claimed total has never passed the schedule's total.
    pub open spec fn wf(self) -> bool {
        &&& self.schedule.wf()
        &&& self.claimed_total <= self.schedule.total_amount
    }

    /// Decides well-formedness of an untrusted, freshly decoded state.
    pub fn check_well_formed(&self) -> (r: bool)
        ensures
            r == self.wf(),
    {
        self.schedule.check_well_formed() && self.claimed_total <= self.schedule.total_amount
    }
}

/// Two schedules carry the same parameters: same checkpoints, total and
/// beneficiary.
pub open spec fn schedules_match(a: VestingSchedule, b: VestingSchedule) -> bool {
    &&& a.checkpoints@ == b.checkpoints@
    &&& a.total_amount == b.total_amount
    &&& a.beneficiary@ == b.beneficiary@
}

/// The witness authorizes the claim: it carries a proof reference whose
/// claimant matches the schedule's beneficiary.
pub open spec fn authorized(witness: ClaimWitness, beneficiary: Seq<u8>) -> bool {
    match witness.auth {
        Option::Some(p) => p.claimant@ == beneficiary,
        Option::None => false,
    }
}

/// The sum of a sequence of token amounts.
pub open spec fn sum_amounts(s: Seq<u64>) -> int
    decreases s.len(),
{
    if s.len() == 0 {
        0
    } else {
        s[0] + sum_amounts(s.drop_first())
    }
}

/// What a validation returns, as a function of its inputs: the first
/// violated check decides the rejection reason, in a fixed order.  A claim
/// that would pass the schedule's total is rejected as exceeding the total
/// even when it also exceeds the amount vested so far.
pub open spec fn decision(
    prior: ChainState,
    tx: TxInfo,
    continuation: ChainState,
    witness: ClaimWitness,
) -> Result<(), RejectReason> {
    let requested = prior.claimed_total + witness.claimed_amount;
    if requested > prior.schedule.total_amount {
        Result::Err(RejectReason::ClaimExceedsTotal)
    } else if requested > prior.schedule.unlocked_at(tx.reference_time as int) {
        Result::Err(RejectReason::ClaimExceedsVested)
    } else if !(schedules_match(continuation.schedule, prior.schedule)
        && continuation.claimed_total == requested) {
        Result::Err(RejectReason::MalformedContinuation)
    } else if sum_amounts(tx.output_amounts@) + witness.claimed_amount != tx.input_amount {
        Result::Err(RejectReason::BalanceNotConserved)
    } else if !authorized(witness, prior.schedule.beneficiary@) {
        Result::Err(RejectReason::UnauthorizedClaimant)
    } else {
        Result::Ok(())
    }
}

/// Byte-wise equality of two credential references.
fn bytes_equal(a: &Vec<u8>, b: &Vec<u8>) -> (r: bool)
    ensures
        r == (a@ == b@),
{
    if a.len() != b.len() {
        return false;
    }
    let mut i: usize = 0;
    while i < a.len()
        invariant
            a@.len() == b@.len(),
            0 <= i <= a@.len(),
            forall|j: int| 0 <= j < i ==> a@[j] == b@[j],
        decreases a@.len() - i,
    {
        if a[i] != b[i] {
            return false;
        }
        i = i + 1;
    }
    proof {
        assert(a@ =~= b@);
    }
    true
}

/// Element-wise equality of two checkpoint lists.
fn checkpoints_equal(a: &Vec<crate::schedule::Checkpoint>, b: &Vec<crate::schedule::Checkpoint>) -> (r: bool)
    ensures
        r == (a@ == b@),
{
    if a.len() != b.len() {
        return false;
    }
    let mut i: usize = 0;
    while i < a.len()
        invariant
            a@.len() == b@.len(),
            0 <= i <= a@.len(),
            forall|j: int| 0 <= j < i ==> a@[j] == b@[j],
        decreases a@.len() - i,
    {
        if !(a[i] == b[i]) {
            return false;
        }
        i = i + 1;
    }
    proof {
        assert(a@ =~= b@);
    }
    true
}

/// Decides whether two schedules carry the same parameters.
fn schedules_equal(a: &VestingSchedule, b: &VestingSchedule) -> (r: bool)
    ensures
        r == schedules_match(*a, *b),
{
    checkpoints_equal(&a.checkpoints, &b.checkpoints) && a.total_amount == b.total_amount
        && bytes_equal(&a.beneficiary, &b.beneficiary)
}

/// Decides whether the witness authorizes a claim against the given
/// beneficiary credential.
fn check_authorized(witness: &ClaimWitness, beneficiary: &Vec<u8>) -> (r: bool)
    ensures
        r == authorized(*witness, beneficiary@),
{
    match &witness.auth {
        Option::Some(p) => bytes_equal(&p.claimant, beneficiary),
        Option::None => false,
    }
}

/// Sums the token amounts of the outputs attributable to the charm.
fn sum_outputs(amounts: &Vec<u64>) -> (r: u128)
    ensures
        r == sum_amounts(amounts@),
        r <= (u64::MAX as u128) * (u64::MAX as u128),
{
    let n = amounts.len();
    let mut acc: u128 = 0;
    let mut i: usize = 0;
    proof {
        assert(amounts@.skip(0) =~= amounts@);
    }
    while i < n
        invariant
            n == amounts@.len(),
            0 <= i <= n,
            acc <= i * 0xffff_ffff_ffff_ffff,
            acc + sum_amounts(amounts@.skip(i as int)) == sum_amounts(amounts@),
        decreases n - i,
    {
        proof {
            assert(amounts@.skip(i as int).drop_first() =~= amounts@.skip(i as int + 1));
            assert(sum_amounts(amounts@.skip(i as int)) == amounts@[i as int] + sum_amounts(
                amounts@.skip(i as int + 1),
            ));
        }
        acc = acc + amounts[i] as u128;
        i = i + 1;
    }
    proof {
        assert(amounts@.skip(n as int) =~= Seq::<u64>::empty());
        assert(acc <= n * 0xffff_ffff_ffff_ffff);
        assert(n * 0xffff_ffff_ffff_ffff <= (u64::MAX as int) * 0xffff_ffff_ffff_ffff);
    }
    acc
}

/// Validates a proposed claim against the committed vesting state.
///
/// Returns accept exactly when every check of [`decision`] passes, and
/// otherwise the first violated check's rejection reason.
pub fn validate(
    prior: &ChainState,
    tx: &TxInfo,
    continuation: &ChainState,
    witness: &ClaimWitness,
) -> (r: Result<(), RejectReason>)
    requires
        prior.wf(),
    ensures
        r == decision(*prior, *tx, *continuation, *witness),
{
    let requested: u128 = prior.claimed_total as u128 + witness.claimed_amount as u128;
    if requested > prior.schedule.total_amount as u128 {
        return Result::Err(RejectReason::ClaimExceedsTotal);
    }
    let requested64: u64 = requested as u64;
    let unlocked = prior.schedule.unlocked_amount(tx.reference_time);
    if requested64 > unlocked {
        return Result::Err(RejectReason::ClaimExceedsVested);
    }
    if !(schedules_equal(&continuation.schedule, &prior.schedule) && continuation.claimed_total
        == requested64) {
        return Result::Err(RejectReason::MalformedContinuation);
    }
    let outputs_total = sum_outputs(&tx.output_amounts);
    if outputs_total + witness.claimed_amount as u128 != tx.input_amount as u128 {
        return Result::Err(RejectReason::BalanceNotConserved);
    }
    if !check_authorized(witness, &prior.schedule.beneficiary) {
        return Result::Err(RejectReason::UnauthorizedClaimant);
    }
    Result::Ok(())
}

/// Zero-claim idempotence: a claim of amount `0` is accepted whenever the
/// claimed total is covered by the amount vested at the reference time, the
/// continuation carries the state forward unchanged, the token balance is
/// conserved and the claimant is authorized — and it leaves the claimed
/// total unchanged.
pub proof fn lemma_zero_claim(
    prior: ChainState,
    tx: TxInfo,
    continuation: ChainState,
    witness: ClaimWitness,
)
    requires
        prior.wf(),
        witness.claimed_amount == 0,
        prior.claimed_total <= prior.schedule.unlocked_at(tx.reference_time as int),
        schedules_match(continuation.schedule, prior.schedule),
        continuation.claimed_total == prior.claimed_total,
        sum_amounts(tx.output_amounts@) == tx.input_amount,
        authorized(witness, prior.schedule.beneficiary@),
    ensures
        decision(prior, tx, continuation, witness) == Result::<(), RejectReason>::Ok(()),
        continuation.claimed_total == prior.claimed_total,
{
}

/// Conservation: an accepted claim advances the claimed total by exactly
/// the claimed amount, and the token amounts across the outputs plus the
/// claimed payout equal the charm's input amount.
pub proof fn lemma_conservation(
    prior: ChainState,
    tx: TxInfo,
    continuation: ChainState,
    witness: ClaimWitness,
)
    requires
        decision(prior, tx, continuation, witness) == Result::<(), RejectReason>::Ok(()),
    ensures
        continuation.claimed_total == prior.claimed_total + witness.claimed_amount,
        sum_amounts(tx.output_amounts@) + witness.claimed_amount == tx.input_amount,
{
}

/// Determinism: a validation's outcome is a function of its inputs alone,
/// so two results obtained from identical inputs are identical.  `validate`
/// ensures its result equals [`decision`] of its inputs, which makes this
/// hold of any two of its invocations.
pub proof fn lemma_deterministic(
    prior: ChainState,
    tx: TxInfo,
    continuation: ChainState,
    witness: ClaimWitness,
    r1: Result<(), RejectReason>,
    r2: Result<(), RejectReason>,
)
    requires
        r1 == decision(prior, tx, continuation, witness),
        r2 == decision(prior, tx, continuation, witness),
    ensures
        r1 == r2,
{
}

/// No over-claim: a claim that stays within the schedule's total but asks
/// for more than is unlocked at the reference time is rejected as
/// exceeding the vested amount.  (One that also passes the total is
/// rejected as exceeding the total instead.)
pub proof fn lemma_no_over_claim(
    prior: ChainState,
    tx: TxInfo,
    continuation: ChainState,
    witness: ClaimWitness,
)
    requires
        prior.claimed_total + witness.claimed_amount <= prior.schedule.total_amount,
        prior.claimed_total + witness.claimed_amount > prior.schedule.unlocked_at(
            tx.reference_time as int,
        ),
    ensures
        decision(prior, tx, continuation, witness) == Result::<(), RejectReason>::Err(
            RejectReason::ClaimExceedsVested,
        ),
{
}

} // verus!

