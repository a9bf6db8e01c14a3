//! The attestation registry: write-once receipts of finished jobs.
use vstd::prelude::*;
use crate::codes;
use crate::ids::{Address, Bytes16, Bytes32, Key, Symbol};
use crate::shared::{ids_view, symbols_view, Attestation, AttestationView};
use crate::table::Table;

verus! {

/// Why an attestation call was refused.
#[derive(Clone, Copy, Debug, PartialEq, Eq, PartialOrd, Ord, Structural)]
pub enum Error {
    Unauthorized,
    NotFound,
    AlreadyExists,
}

/// The numeric code of each error.
pub open spec fn error_code(e: Error) -> u32 {
    match e {
        Error::Unauthorized => codes::UNAUTHORIZED,
        Error::NotFound => codes::NOT_FOUND,
        Error::AlreadyExists => codes::ALREADY_EXISTS,
    }
}

impl Error {
    /// The numeric error code reported to callers.
    pub fn code(&self) -> (r: u32)
        ensures
            r == error_code(*self),
    {
        match self {
            Error::Unauthorized => codes::UNAUTHORIZED,
            Error::NotFound => codes::NOT_FOUND,
            Error::AlreadyExists => codes::ALREADY_EXISTS,
        }
    }
}

/// Why sealing is refused, checked in this order: the caller is not the
/// sealer; the job is already sealed.
pub open spec fn seal_error(caller: Seq<char>, sealer: Seq<char>, sealed: bool) -> Option<Error> {
    if caller != sealer {
        Some(Error::Unauthorized)
    } else if sealed {
        Some(Error::AlreadyExists)
    } else {
        None
    }
}

/// Checks a seal request before anything is written.
pub fn check_seal(caller: &Address, sealer: &Address, sealed: bool) -> (r: Result<(), Error>)
    ensures
        r is Ok <==> seal_error(caller@, sealer@, sealed) is None,
        r matches Err(e) ==> seal_error(caller@, sealer@, sealed) == Some(e),
{
    if !caller.same(sealer) {
        return Err(Error::Unauthorized);
    }
    if sealed {
        return Err(Error::AlreadyExists);
    }
    Ok(())
}

/// The record that sealing at `now` stores.
pub open spec fn sealed_view(
    orchestrator: Seq<char>,
    intent_hash: Seq<u8>,
    agents: Seq<Seq<char>>,
    receipts: Seq<Seq<u8>>,
    total_spent: i128,
    now: u64,
) -> AttestationView {
    AttestationView { orchestrator, intent_hash, agents, receipts, total_spent, sealed_at: now }
}

/// One seal over whether the job is already sealed: checks it and returns
/// the record to store.
pub fn seal_step(
    now: u64,
    caller: &Address,
    sealer: &Address,
    sealed: bool,
    orchestrator: &Address,
    intent_hash: &Bytes32,
    agents: Vec<Symbol>,
    receipts: Vec<Bytes16>,
    total_spent: i128,
) -> (r: Result<Attestation, Error>)
    ensures
        r is Ok <==> seal_error(caller@, sealer@, sealed) is None,
        r matches Ok(a) ==> a@ == sealed_view(
            orchestrator@,
            intent_hash@,
            symbols_view(agents@),
            ids_view(receipts@),
            total_spent,
            now,
        ),
        r matches Err(e) ==> seal_error(caller@, sealer@, sealed) == Some(e),
{
    match check_seal(caller, sealer, sealed) {
        Err(e) => Err(e),
        Ok(()) => Ok(
            Attestation {
                orchestrator: orchestrator.duplicate(),
                intent_hash: *intent_hash,
                agents,
                receipts,
                total_spent,
                sealed_at: now,
            },
        ),
    }
}

/// The registry's storage, as mathematical values.
#[verifier::ext_equal]
pub struct AttestationsView {
    pub admin: Seq<char>,
    pub sealer: Seq<char>,
    /// Job id → attestation.
    pub jobs: Map<Seq<u8>, AttestationView>,
}

impl AttestationsView {
    /// The registry after sealing `job` at ledger timestamp `now`, or the
    /// error that refuses it.
    pub open spec fn after_seal(
        self,
        now: u64,
        caller: Seq<char>,
        job: Seq<u8>,
        orchestrator: Seq<char>,
        intent_hash: Seq<u8>,
        agents: Seq<Seq<char>>,
        receipts: Seq<Seq<u8>>,
        total_spent: i128,
    ) -> Result<AttestationsView, Error> {
        match seal_error(caller, self.sealer, self.jobs.contains_key(job)) {
            Some(e) => Err(e),
            None => Ok(
                AttestationsView {
                    admin: self.admin,
                    sealer: self.sealer,
                    jobs: self.jobs.insert(
                        job,
                        AttestationView {
                            orchestrator,
                            intent_hash,
                            agents,
                            receipts,
                            total_spent,
                            sealed_at: now,
                        },
                    ),
                },
            ),
        }
    }
}

/// The attestation registry: its admin, its sealer and the sealed jobs.
pub struct AttestationRegistry {
    admin: Address,
    sealer: Address,
    jobs: Table<Bytes16, Attestation>,
}

impl View for AttestationRegistry {
    type V = AttestationsView;

    closed spec fn view(&self) -> AttestationsView {
        AttestationsView {
            admin: self.admin@,
            sealer: self.sealer@,
            jobs: self.jobs.contents().map_values(|a: Attestation| a@),
        }
    }
}

impl AttestationRegistry {
    /// The registry's invariant: its table is well formed.
    pub closed spec fn wf(&self) -> bool {
        self.jobs.wf()
    }

    /// A registry deployed with `admin` and `sealer` and no attestations.
    pub fn new(admin: Address, sealer: Address) -> (r: Self)
        ensures
            r.wf(),
            r@.admin == admin@,
            r@.sealer == sealer@,
            r@.jobs == Map::<Seq<u8>, AttestationView>::empty(),
    {
        let r = AttestationRegistry { admin, sealer, jobs: Table::new() };
        assert(r@.jobs =~= Map::<Seq<u8>, AttestationView>::empty());
        r
    }

    /// Seals the attestation of a job at ledger timestamp `now`. Write-once;
    /// the caller must be the sealer.
    pub fn seal(
        &mut self,
        now: u64,
        caller: &Address,
        job_id: &Bytes16,
        orchestrator: &Address,
        intent_hash: &Bytes32,
        agents: Vec<Symbol>,
        receipts: Vec<Bytes16>,
        total_spent: i128,
    ) -> (r: Result<(), Error>)
        requires
            old(self).wf(),
        ensures
            final(self).wf(),
            match r {
                Ok(()) => old(self)@.after_seal(
                    now,
                    caller@,
                    job_id@,
                    orchestrator@,
                    intent_hash@,
                    symbols_view(agents@),
                    ids_view(receipts@),
                    total_spent,
                ) == Ok::<AttestationsView, Error>(final(self)@),
                Err(e) => old(self)@.after_seal(
                    now,
                    caller@,
                    job_id@,
                    orchestrator@,
                    intent_hash@,
                    symbols_view(agents@),
                    ids_view(receipts@),
                    total_spent,
                ) == Err::<AttestationsView, Error>(e) && final(self)@ == old(self)@,
            },
    {
        let sealed = self.jobs.contains(job_id);
        assert(sealed == self@.jobs.contains_key(job_id@));
        let attestation = match seal_step(
            now,
            caller,
            &self.sealer,
            sealed,
            orchestrator,
            intent_hash,
            agents,
            receipts,
            total_spent,
        ) {
            Err(e) => {
                return Err(e);
            },
            Ok(a) => a,
        };
        let ghost old_self = *self;
        let ghost av = attestation@;
        self.jobs.insert(*job_id, attestation);
        proof {
            assert(self@.jobs =~= old_self@.jobs.insert(job_id@, av));
        }
        Ok(())
    }

    /// The attestation of a job.
    pub fn get(&self, job_id: &Bytes16) -> (r: Result<Attestation, Error>)
        requires
            self.wf(),
        ensures
            r is Ok <==> self@.jobs.contains_key(job_id@),
            r matches Ok(a) ==> a@ == self@.jobs[job_id@],
            r matches Err(e) ==> e == Error::NotFound,
    {
        match self.jobs.get(job_id) {
            Some(a) => Ok(a.duplicate()),
            None => Err(Error::NotFound),
        }
    }

    /// Whether a job has been sealed.
    pub fn job_exists(&self, job_id: &Bytes16) -> (r: bool)
        requires
            self.wf(),
        ensures
            r == self@.jobs.contains_key(job_id@),
    {
        self.jobs.contains(job_id)
    }

    /// Replaces the sealer. The admin's signature is checked by the host.
    pub fn set_sealer(&mut self, new_sealer: Address) -> (r: Result<(), Error>)
        requires
            old(self).wf(),
        ensures
            r is Ok,
            final(self).wf(),
            final(self)@ == (AttestationsView { sealer: new_sealer@, ..old(self)@ }),
    {
        self.sealer = new_sealer;
        Ok(())
    }

    /// The admin configured at deployment.
    pub fn admin(&self) -> (r: Address)
        ensures
            r@ == self@.admin,
    {
        self.admin.duplicate()
    }

    /// The current sealer.
    pub fn sealer(&self) -> (r: Address)
        ensures
            r@ == self@.sealer,
    {
        self.sealer.duplicate()
    }
}

} // verus!
