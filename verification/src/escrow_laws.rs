//! Properties of the payment escrow that hold across calls and states.
use vstd::prelude::*;
use crate::escrow::{
    auths_within_limits, id_of_digest, reaches_funds_check, Error, EscrowView,
};

verus! {

/// No authorization is ever overdrawn: every call keeps each
/// authorization's spent total between zero and its maximum.
pub proof fn law_spent_never_exceeds_max(
    v: EscrowView,
    now: u64,
    caller: Seq<char>,
    payer: Seq<char>,
    agent_id: Seq<char>,
    max_amount: i128,
    expires_at: u64,
    auth_id: Seq<u8>,
    amount: i128,
    job_id: Seq<u8>,
    new_id: Seq<u8>,
)
    requires
        auths_within_limits(v.auths),
    ensures
        v.after_authorize(payer, agent_id, max_amount, expires_at, new_id) matches Ok(w)
            ==> auths_within_limits(w.auths),
        v.charge_error(caller, auth_id, amount, now) is None ==> auths_within_limits(
            v.after_charge(now, auth_id, amount, job_id, new_id).auths,
        ),
        v.after_revoke(payer, auth_id) matches Ok(w) ==> auths_within_limits(w.auths),
{
}

/// A charge is accepted only by the settler, for a positive amount, against
/// a stored authorization that is neither revoked nor expired and whose
/// remaining funds cover the amount.
pub proof fn law_charge_accepted_iff(
    v: EscrowView,
    now: u64,
    caller: Seq<char>,
    auth_id: Seq<u8>,
    amount: i128,
)
    ensures
        v.charge_error(caller, auth_id, amount, now) is None <==> {
            &&& caller == v.settler
            &&& amount > 0
            &&& v.auths.contains_key(auth_id)
            &&& !v.auths[auth_id].revoked
            &&& now <= v.auths[auth_id].expires_at
            &&& v.auths[auth_id].spent + amount <= v.auths[auth_id].max_amount
        },
{
}

/// A revoked authorization can never be charged again, and stays revoked
/// through every later charge or revocation of it.
pub proof fn law_revocation_is_final(
    v: EscrowView,
    now: u64,
    caller: Seq<char>,
    payer: Seq<char>,
    auth_id: Seq<u8>,
    amount: i128,
)
    requires
        v.auths.contains_key(auth_id),
        v.auths[auth_id].revoked,
    ensures
        v.charge_error(caller, auth_id, amount, now) is Some,
        caller == v.settler && amount > 0 ==> v.charge_error(caller, auth_id, amount, now)
            == Some(Error::Revoked),
        v.after_revoke(payer, auth_id) matches Ok(w) ==> w.auths[auth_id].revoked,
{
}

/// Only the payer of an authorization can revoke it.
pub proof fn law_only_payer_revokes(v: EscrowView, payer: Seq<char>, auth_id: Seq<u8>)
    requires
        v.auths.contains_key(auth_id),
        v.auths[auth_id].payer != payer,
    ensures
        v.after_revoke(payer, auth_id) == Err::<EscrowView, Error>(Error::Unauthorized),
{
}

/// A charge moves exactly its amount: the authorization's spent total grows
/// by the amount, the receipt records the same amount and agent, and
/// nothing else about the authorization changes.
pub proof fn law_charge_accounts_exactly(
    v: EscrowView,
    now: u64,
    caller: Seq<char>,
    auth_id: Seq<u8>,
    amount: i128,
    job_id: Seq<u8>,
    new_id: Seq<u8>,
)
    requires
        v.charge_error(caller, auth_id, amount, now) is None,
        v.nonce < u64::MAX,
    ensures
        ({
            let w = v.after_charge(now, auth_id, amount, job_id, new_id);
            let a = v.auths[auth_id];
            &&& w.auths[auth_id].spent == a.spent + amount
            &&& w.auths[auth_id].max_amount == a.max_amount
            &&& w.auths[auth_id].payer == a.payer
            &&& w.auths[auth_id].agent_id == a.agent_id
            &&& w.auths[auth_id].expires_at == a.expires_at
            &&& w.auths[auth_id].revoked == a.revoked
            &&& w.receipts.contains_key(new_id)
            &&& w.receipts[new_id].amount == amount
            &&& w.receipts[new_id].agent_id == a.agent_id
            &&& w.receipts[new_id].auth_id == auth_id
            &&& w.receipts[new_id].job_id == job_id
            &&& w.receipts[new_id].settled_at == now
            &&& w.nonce == v.nonce + 1
        }),
{
}

/// Reading an authorization right after creating it gives back the payer,
/// agent, maximum and expiry, with nothing spent and not revoked.
pub proof fn law_authorize_then_read(
    v: EscrowView,
    payer: Seq<char>,
    agent_id: Seq<char>,
    max_amount: i128,
    expires_at: u64,
    new_id: Seq<u8>,
)
    requires
        max_amount > 0,
        v.nonce < u64::MAX,
    ensures
        v.after_authorize(payer, agent_id, max_amount, expires_at, new_id) is Ok,
        ({
            let w = v.after_authorize(payer, agent_id, max_amount, expires_at, new_id)->Ok_0;
            &&& w.auths.contains_key(new_id)
            &&& w.auths[new_id].payer == payer
            &&& w.auths[new_id].agent_id == agent_id
            &&& w.auths[new_id].max_amount == max_amount
            &&& w.auths[new_id].spent == 0
            &&& w.auths[new_id].expires_at == expires_at
            &&& !w.auths[new_id].revoked
            &&& w.nonce == v.nonce + 1
            &&& w.receipts == v.receipts
            &&& forall|k: Seq<u8>| k != new_id ==> #[trigger] w.auths.contains_key(k)
                == v.auths.contains_key(k)
            &&& forall|k: Seq<u8>|
                k != new_id && v.auths.contains_key(k) ==> #[trigger] w.auths[k] == v.auths[k]
        }),
{
}

/// An authorization with a maximum that is not positive is refused with
/// `BadAmount`, whatever else it holds.
pub proof fn law_authorize_needs_positive_max(
    v: EscrowView,
    payer: Seq<char>,
    agent_id: Seq<char>,
    max_amount: i128,
    expires_at: u64,
    new_id: Seq<u8>,
)
    requires
        max_amount <= 0,
    ensures
        v.after_authorize(payer, agent_id, max_amount, expires_at, new_id) == Err::<
            EscrowView,
            Error,
        >(Error::BadAmount),
{
}

/// A revocation by the payer marks the authorization revoked and changes
/// nothing else: its payer, agent, maximum, spent total and expiry stay,
/// and so do the other authorizations, the receipts and the nonce.
pub proof fn law_revoke_marks_only(v: EscrowView, payer: Seq<char>, auth_id: Seq<u8>)
    requires
        v.auths.contains_key(auth_id),
        v.auths[auth_id].payer == payer,
    ensures
        v.after_revoke(payer, auth_id) is Ok,
        ({
            let w = v.after_revoke(payer, auth_id)->Ok_0;
            let a = v.auths[auth_id];
            &&& w.auths.contains_key(auth_id)
            &&& w.auths[auth_id].revoked
            &&& w.auths[auth_id].payer == a.payer
            &&& w.auths[auth_id].agent_id == a.agent_id
            &&& w.auths[auth_id].max_amount == a.max_amount
            &&& w.auths[auth_id].spent == a.spent
            &&& w.auths[auth_id].expires_at == a.expires_at
            &&& w.receipts == v.receipts
            &&& w.nonce == v.nonce
            &&& forall|k: Seq<u8>|
                k != auth_id && v.auths.contains_key(k) ==> #[trigger] w.auths[k] == v.auths[k]
        }),
{
}

/// A revocation of an id that holds no authorization is refused with
/// `NotFound`.
pub proof fn law_revoke_unknown_not_found(v: EscrowView, payer: Seq<char>, auth_id: Seq<u8>)
    requires
        !v.auths.contains_key(auth_id),
    ensures
        v.after_revoke(payer, auth_id) == Err::<EscrowView, Error>(Error::NotFound),
{
}

/// The nonce counts the records created: every successful authorize or
/// charge advances it by one (the host derives each record's id from it).
pub proof fn law_nonce_advances(
    v: EscrowView,
    now: u64,
    payer: Seq<char>,
    agent_id: Seq<char>,
    max_amount: i128,
    expires_at: u64,
    auth_id: Seq<u8>,
    amount: i128,
    job_id: Seq<u8>,
    new_id: Seq<u8>,
)
    requires
        v.nonce < u64::MAX,
    ensures
        v.after_authorize(payer, agent_id, max_amount, expires_at, new_id) matches Ok(w) ==> w.nonce
            == v.nonce + 1,
        v.after_charge(now, auth_id, amount, job_id, new_id).nonce == v.nonce + 1,
{
}


/// A call to the escrow that can change its storage, by its arguments.
pub enum EscrowCall {
    Authorize {
        payer: Seq<char>,
        agent_id: Seq<char>,
        max_amount: i128,
        expires_at: u64,
        new_id: Seq<u8>,
    },
    Charge {
        now: u64,
        caller: Seq<char>,
        auth_id: Seq<u8>,
        amount: i128,
        job_id: Seq<u8>,
        new_id: Seq<u8>,
    },
    Revoke { payer: Seq<char>, auth_id: Seq<u8> },
}

/// The escrow after one call: a refused call changes nothing.
pub open spec fn escrow_step(v: EscrowView, c: EscrowCall) -> EscrowView {
    match c {
        EscrowCall::Authorize { payer, agent_id, max_amount, expires_at, new_id } => match v.after_authorize(
            payer,
            agent_id,
            max_amount,
            expires_at,
            new_id,
        ) {
            Ok(w) => w,
            Err(_) => v,
        },
        EscrowCall::Charge { now, caller, auth_id, amount, job_id, new_id } => if v.charge_error(
            caller,
            auth_id,
            amount,
            now,
        ) is None {
            v.after_charge(now, auth_id, amount, job_id, new_id)
        } else {
            v
        },
        EscrowCall::Revoke { payer, auth_id } => match v.after_revoke(payer, auth_id) {
            Ok(w) => w,
            Err(_) => v,
        },
    }
}

/// The call meets the `requires` of the method that makes it in state `v`:
/// fresh record ids, a nonce below its maximum, and no overflow of the spent
/// total.
pub open spec fn admissible(v: EscrowView, c: EscrowCall) -> bool {
    match c {
        EscrowCall::Authorize { max_amount, new_id, .. } => max_amount > 0 ==> v.nonce < u64::MAX
            && !v.auths.contains_key(new_id),
        EscrowCall::Charge { now, caller, auth_id, amount, new_id, .. } => {
            &&& reaches_funds_check(caller, v.settler, amount, v.auth(auth_id), now) ==> v.auths[auth_id].spent
                + amount <= i128::MAX
            &&& v.charge_error(caller, auth_id, amount, now) is None ==> v.nonce < u64::MAX
                && !v.receipts.contains_key(new_id)
        },
        EscrowCall::Revoke { .. } => true,
    }
}

/// The escrow after a sequence of calls, in order.
pub open spec fn escrow_run(v: EscrowView, calls: Seq<EscrowCall>) -> EscrowView
    decreases calls.len(),
{
    if calls.len() == 0 {
        v
    } else {
        escrow_step(escrow_run(v, calls.drop_last()), calls.last())
    }
}

/// Every call of the sequence is admissible in the state it is made in.
pub open spec fn runs_admissibly(v: EscrowView, calls: Seq<EscrowCall>) -> bool
    decreases calls.len(),
{
    calls.len() == 0 || (runs_admissibly(v, calls.drop_last()) && admissible(
        escrow_run(v, calls.drop_last()),
        calls.last(),
    ))
}

/// Through any sequence of calls, no authorization is ever overdrawn: each
/// spent total stays between zero and its maximum.
pub proof fn law_never_overdrawn(v: EscrowView, calls: Seq<EscrowCall>)
    requires
        auths_within_limits(v.auths),
        runs_admissibly(v, calls),
    ensures
        auths_within_limits(escrow_run(v, calls).auths),
    decreases calls.len(),
{
    if calls.len() > 0 {
        law_never_overdrawn(v, calls.drop_last());
    }
}

/// Through any sequence of calls, a stored authorization stays stored with
/// the same payer, agent, maximum and expiry; its spent total never
/// decreases; once revoked it stays revoked and its spent total no longer
/// changes; and a stored receipt never changes.
pub proof fn law_records_are_stable(
    v: EscrowView,
    calls: Seq<EscrowCall>,
    auth_id: Seq<u8>,
    receipt_id: Seq<u8>,
)
    requires
        runs_admissibly(v, calls),
    ensures
        v.auths.contains_key(auth_id) ==> {
            let a = v.auths[auth_id];
            let b = escrow_run(v, calls).auths[auth_id];
            &&& escrow_run(v, calls).auths.contains_key(auth_id)
            &&& b.payer == a.payer
            &&& b.agent_id == a.agent_id
            &&& b.max_amount == a.max_amount
            &&& b.expires_at == a.expires_at
            &&& a.spent <= b.spent
            &&& a.revoked ==> b.revoked && b.spent == a.spent
        },
        v.receipts.contains_key(receipt_id) ==> escrow_run(v, calls).receipts.contains_key(
            receipt_id,
        ) && escrow_run(v, calls).receipts[receipt_id] == v.receipts[receipt_id],
    decreases calls.len(),
{
    if calls.len() > 0 {
        law_records_are_stable(v, calls.drop_last(), auth_id, receipt_id);
    }
}

/// After a revocation, every later charge of that authorization, after any
/// sequence of calls, is refused (with `Revoked` when the settler charges a
/// positive amount).
pub proof fn law_revoked_never_charged(
    v: EscrowView,
    calls: Seq<EscrowCall>,
    now: u64,
    caller: Seq<char>,
    auth_id: Seq<u8>,
    amount: i128,
)
    requires
        runs_admissibly(v, calls),
        v.auths.contains_key(auth_id),
        v.auths[auth_id].revoked,
    ensures
        escrow_run(v, calls).charge_error(caller, auth_id, amount, now) is Some,
        caller == escrow_run(v, calls).settler && amount > 0 ==> escrow_run(v, calls).charge_error(
            caller,
            auth_id,
            amount,
            now,
        ) == Some(Error::Revoked),
{
    law_records_are_stable(v, calls, auth_id, auth_id);
}


/// A record id is the first 16 bytes of the digest it is derived from, in
/// order.
pub proof fn law_id_is_digest_prefix(digest: Seq<u8>)
    requires
        digest.len() == 32,
    ensures
        id_of_digest(digest).len() == 16,
        forall|i: int| 0 <= i < 16 ==> #[trigger] id_of_digest(digest)[i] == digest[i],
{
}

/// A refused charge names the first check it fails: a caller other than
/// the settler gets `Unauthorized`; then a non-positive amount `BadAmount`;
/// an unknown id `NotFound`; a revoked authorization `Revoked`; one that
/// expired before `now` `Expired`; and an amount beyond the remaining funds
/// `Insufficient`.
pub proof fn law_charge_refusal_reasons(
    v: EscrowView,
    now: u64,
    caller: Seq<char>,
    auth_id: Seq<u8>,
    amount: i128,
)
    ensures
        caller != v.settler ==> v.charge_error(caller, auth_id, amount, now) == Some(
            Error::Unauthorized,
        ),
        caller == v.settler && amount <= 0 ==> v.charge_error(caller, auth_id, amount, now) == Some(
            Error::BadAmount,
        ),
        caller == v.settler && amount > 0 && !v.auths.contains_key(auth_id) ==> v.charge_error(
            caller,
            auth_id,
            amount,
            now,
        ) == Some(Error::NotFound),
        caller == v.settler && amount > 0 && v.auths.contains_key(auth_id) && !v.auths[auth_id].revoked
            && v.auths[auth_id].expires_at < now ==> v.charge_error(caller, auth_id, amount, now)
            == Some(Error::Expired),
        caller == v.settler && amount > 0 && v.auths.contains_key(auth_id) && !v.auths[auth_id].revoked
            && now <= v.auths[auth_id].expires_at && v.auths[auth_id].spent + amount
            > v.auths[auth_id].max_amount ==> v.charge_error(caller, auth_id, amount, now) == Some(
            Error::Insufficient,
        ),
{
}

} // verus!
