//! Properties of the attestation registry that hold across calls and states.
use vstd::prelude::*;
use crate::attestation::{sealed_view, AttestationsView, Error};
use crate::shared::AttestationView;

verus! {

/// Attestations are write-once: sealing a job that is already sealed is
/// refused (with `AlreadyExists` when the sealer calls).
pub proof fn law_write_once(
    v: AttestationsView,
    now: u64,
    caller: Seq<char>,
    job: Seq<u8>,
    orchestrator: Seq<char>,
    intent_hash: Seq<u8>,
    agents: Seq<Seq<char>>,
    receipts: Seq<Seq<u8>>,
    total_spent: i128,
)
    requires
        v.jobs.contains_key(job),
    ensures
        v.after_seal(now, caller, job, orchestrator, intent_hash, agents, receipts, total_spent)
            is Err,
        caller == v.sealer ==> v.after_seal(
            now,
            caller,
            job,
            orchestrator,
            intent_hash,
            agents,
            receipts,
            total_spent,
        ) == Err::<AttestationsView, Error>(Error::AlreadyExists),
{
}

/// A sealed attestation never changes: sealing any job keeps every record
/// sealed before it.
pub proof fn law_sealed_records_never_change(
    v: AttestationsView,
    now: u64,
    caller: Seq<char>,
    job: Seq<u8>,
    orchestrator: Seq<char>,
    intent_hash: Seq<u8>,
    agents: Seq<Seq<char>>,
    receipts: Seq<Seq<u8>>,
    total_spent: i128,
    sealed: Seq<u8>,
)
    requires
        v.jobs.contains_key(sealed),
    ensures
        v.after_seal(now, caller, job, orchestrator, intent_hash, agents, receipts, total_spent) matches Ok(
            w,
        ) ==> w.jobs.contains_key(sealed) && w.jobs[sealed] == v.jobs[sealed],
{
}

/// Reading a job right after sealing it gives back what was sealed, stamped
/// with the sealing time.
pub proof fn law_seal_then_read(
    v: AttestationsView,
    now: u64,
    job: Seq<u8>,
    orchestrator: Seq<char>,
    intent_hash: Seq<u8>,
    agents: Seq<Seq<char>>,
    receipts: Seq<Seq<u8>>,
    total_spent: i128,
)
    requires
        !v.jobs.contains_key(job),
    ensures
        v.after_seal(now, v.sealer, job, orchestrator, intent_hash, agents, receipts, total_spent)
            is Ok,
        v.after_seal(
            now,
            v.sealer,
            job,
            orchestrator,
            intent_hash,
            agents,
            receipts,
            total_spent,
        )->Ok_0.jobs[job] == (AttestationView {
            orchestrator,
            intent_hash,
            agents,
            receipts,
            total_spent,
            sealed_at: now,
        }),
{
}

/// Only the sealer can seal.
pub proof fn law_only_sealer_seals(
    v: AttestationsView,
    now: u64,
    caller: Seq<char>,
    job: Seq<u8>,
    orchestrator: Seq<char>,
    intent_hash: Seq<u8>,
    agents: Seq<Seq<char>>,
    receipts: Seq<Seq<u8>>,
    total_spent: i128,
)
    requires
        caller != v.sealer,
    ensures
        v.after_seal(now, caller, job, orchestrator, intent_hash, agents, receipts, total_spent)
            == Err::<AttestationsView, Error>(Error::Unauthorized),
{
}


/// A call to the registry that can change its storage, by its arguments.
pub enum AttestCall {
    Seal {
        now: u64,
        caller: Seq<char>,
        job: Seq<u8>,
        orchestrator: Seq<char>,
        intent_hash: Seq<u8>,
        agents: Seq<Seq<char>>,
        receipts: Seq<Seq<u8>>,
        total_spent: i128,
    },
    SetSealer { sealer: Seq<char> },
}

/// The registry after one call: a refused seal changes nothing.
pub open spec fn attest_step(v: AttestationsView, c: AttestCall) -> AttestationsView {
    match c {
        AttestCall::Seal {
            now,
            caller,
            job,
            orchestrator,
            intent_hash,
            agents,
            receipts,
            total_spent,
        } => match v.after_seal(
            now,
            caller,
            job,
            orchestrator,
            intent_hash,
            agents,
            receipts,
            total_spent,
        ) {
            Ok(w) => w,
            Err(_) => v,
        },
        AttestCall::SetSealer { sealer } => AttestationsView { sealer, ..v },
    }
}

/// The registry after a sequence of calls, in order.
pub open spec fn attest_run(v: AttestationsView, calls: Seq<AttestCall>) -> AttestationsView
    decreases calls.len(),
{
    if calls.len() == 0 {
        v
    } else {
        attest_step(attest_run(v, calls.drop_last()), calls.last())
    }
}

/// A sealed attestation reads back the same in every later state, after any
/// sequence of calls (a change of sealer included), and every later seal of
/// its job is refused.
pub proof fn law_sealed_for_good(
    v: AttestationsView,
    calls: Seq<AttestCall>,
    job: Seq<u8>,
    now: u64,
    caller: Seq<char>,
    orchestrator: Seq<char>,
    intent_hash: Seq<u8>,
    agents: Seq<Seq<char>>,
    receipts: Seq<Seq<u8>>,
    total_spent: i128,
)
    requires
        v.jobs.contains_key(job),
    ensures
        attest_run(v, calls).jobs.contains_key(job),
        attest_run(v, calls).jobs[job] == v.jobs[job],
        attest_run(v, calls).after_seal(
            now,
            caller,
            job,
            orchestrator,
            intent_hash,
            agents,
            receipts,
            total_spent,
        ) is Err,
    decreases calls.len(),
{
    if calls.len() > 0 {
        law_sealed_for_good(
            v,
            calls.drop_last(),
            job,
            now,
            caller,
            orchestrator,
            intent_hash,
            agents,
            receipts,
            total_spent,
        );
    }
}


/// The record that sealing stores holds exactly what it was given, field by
/// field: orchestrator, intent hash, every agent and receipt in order, and
/// total spent, stamped with the sealing time.
pub proof fn law_sealed_record_keeps_fields(
    orchestrator: Seq<char>,
    intent_hash: Seq<u8>,
    agents: Seq<Seq<char>>,
    receipts: Seq<Seq<u8>>,
    total_spent: i128,
    now: u64,
)
    ensures
        ({
            let a = sealed_view(orchestrator, intent_hash, agents, receipts, total_spent, now);
            &&& a.orchestrator == orchestrator
            &&& a.intent_hash == intent_hash
            &&& a.agents.len() == agents.len()
            &&& forall|i: int| 0 <= i < agents.len() ==> #[trigger] a.agents[i] == agents[i]
            &&& a.receipts.len() == receipts.len()
            &&& forall|i: int| 0 <= i < receipts.len() ==> #[trigger] a.receipts[i] == receipts[i]
            &&& a.total_spent == total_spent
            &&& a.sealed_at == now
        }),
{
}

} // verus!
