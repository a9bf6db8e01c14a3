//! The payment escrow: a payer pre-authorizes a maximum spend for an agent,
//! the settler draws charges from it (each paid to the agent's owner and
//! receipted), and the payer may revoke it.
use vstd::prelude::*;
use crate::codes;
use crate::ids::{Address, Bytes16, Bytes32, Key, Symbol};
use crate::registry::AgentRegistry;
use crate::shared::{Authorization, AuthorizationView, Receipt, ReceiptView};
use crate::table::Table;

verus! {

/// Why an escrow call was refused.
#[derive(Clone, Copy, Debug, PartialEq, Eq, Structural)]
pub enum Error {
    Unauthorized,
    NotFound,
    Expired,
    Insufficient,
    Revoked,
    BadAmount,
}

/// The numeric code of each error.
pub open spec fn error_code(e: Error) -> u32 {
    match e {
        Error::Unauthorized => codes::UNAUTHORIZED,
        Error::NotFound => codes::NOT_FOUND,
        Error::Expired => codes::EXPIRED,
        Error::Insufficient => codes::INSUFFICIENT_AUTH,
        Error::Revoked => codes::REVOKED,
        Error::BadAmount => 101,
    }
}

impl Error {
    /// The numeric error code reported to callers.
    pub fn code(&self) -> (r: u32)
        ensures
            r == error_code(*self),
    {
        match self {
            Error::Unauthorized => codes::UNAUTHORIZED,
            Error::NotFound => codes::NOT_FOUND,
            Error::Expired => codes::EXPIRED,
            Error::Insufficient => codes::INSUFFICIENT_AUTH,
            Error::Revoked => codes::REVOKED,
            Error::BadAmount => 101,
        }
    }
}

/// A movement of the payment token that a charge instructs: `amount` from
/// `from` to `to`.
#[derive(Clone, Debug, PartialEq, Eq)]
pub struct Transfer {
    pub from: Address,
    pub to: Address,
    pub amount: i128,
}

/// A transfer as mathematical values.
pub struct TransferView {
    pub from: Seq<char>,
    pub to: Seq<char>,
    pub amount: i128,
}

impl View for Transfer {
    type V = TransferView;

    open spec fn view(&self) -> TransferView {
        TransferView { from: self.from@, to: self.to@, amount: self.amount }
    }
}

/// The id the host derives for a new record: the first 16 bytes of the
/// digest it computed for this call.
pub open spec fn id_of_digest(digest: Seq<u8>) -> Seq<u8> {
    digest.subrange(0, 16)
}

/// Takes the first 16 bytes of a digest as a record id.
pub fn id_from_digest(digest: &Bytes32) -> (r: Bytes16)
    ensures
        r@ == id_of_digest(digest@),
{
    let mut bytes: [u8; 16] = [0u8; 16];
    let mut i: usize = 0;
    while i < 16
        invariant
            i <= 16,
            digest.bytes@.len() == 32,
            bytes@.len() == 16,
            forall|j: int| 0 <= j < i ==> bytes@[j] == digest.bytes@[j],
        decreases 16 - i,
    {
        bytes[i] = digest.bytes[i];
        i = i + 1;
    }
    let r = Bytes16 { bytes };
    assert(r@ =~= id_of_digest(digest@));
    r
}

/// The record of a new authorization: nothing spent, not revoked.
pub open spec fn new_authorization_view(
    payer: Seq<char>,
    agent_id: Seq<char>,
    max_amount: i128,
    expires_at: u64,
) -> AuthorizationView {
    AuthorizationView { payer, agent_id, max_amount, spent: 0, expires_at, revoked: false }
}

/// Builds the record of a new authorization.
pub fn new_authorization(payer: &Address, agent_id: &Symbol, max_amount: i128, expires_at: u64) -> (r:
    Authorization)
    ensures
        r@ == new_authorization_view(payer@, agent_id@, max_amount, expires_at),
{
    Authorization {
        payer: payer.duplicate(),
        agent_id: agent_id.duplicate(),
        max_amount,
        spent: 0,
        expires_at,
        revoked: false,
    }
}

/// An authorization after `amount` more is drawn from it.
pub open spec fn charged_view(a: AuthorizationView, amount: i128) -> AuthorizationView {
    AuthorizationView { spent: (a.spent + amount) as i128, ..a }
}

/// Draws `amount` more from an authorization.
pub fn charged(auth: &Authorization, amount: i128) -> (r: Authorization)
    requires
        i128::MIN <= auth.spent + amount <= i128::MAX,
    ensures
        r@ == charged_view(auth@, amount),
{
    let mut r = auth.duplicate();
    r.spent = r.spent + amount;
    r
}

/// An authorization once revoked.
pub open spec fn revoked_view(a: AuthorizationView) -> AuthorizationView {
    AuthorizationView { revoked: true, ..a }
}

/// Marks an authorization as revoked.
pub fn revoked(auth: &Authorization) -> (r: Authorization)
    ensures
        r@ == revoked_view(auth@),
{
    let mut r = auth.duplicate();
    r.revoked = true;
    r
}

/// Refuses an authorization whose maximum is not positive.
pub fn check_authorize(max_amount: i128) -> (r: Result<(), Error>)
    ensures
        r is Ok <==> max_amount > 0,
        r matches Err(e) ==> e == Error::BadAmount,
{
    if max_amount <= 0 {
        Err(Error::BadAmount)
    } else {
        Ok(())
    }
}

/// The charge passes every check before the one on the remaining funds.
pub open spec fn reaches_funds_check(
    caller: Seq<char>,
    settler: Seq<char>,
    amount: i128,
    auth: Option<AuthorizationView>,
    now: u64,
) -> bool {
    &&& caller == settler
    &&& amount > 0
    &&& auth is Some
    &&& !auth->0.revoked
    &&& auth->0.expires_at >= now
}

/// Whether a charge passes every check before the one on the remaining
/// funds (where the spent total and the amount are added).
pub fn passes_access_checks(
    caller: &Address,
    settler: &Address,
    amount: i128,
    auth: Option<&Authorization>,
    now: u64,
) -> (r: bool)
    ensures
        r == reaches_funds_check(
            caller@,
            settler@,
            amount,
            match auth {
                Some(a) => Some(a@),
                None => None,
            },
            now,
        ),
{
    match auth {
        Some(a) => caller.same(settler) && amount > 0 && !a.revoked && a.expires_at >= now,
        None => false,
    }
}

/// Why a charge is refused, checked in this order: the caller is not the
/// settler; the amount is not positive; there is no such authorization; it
/// was revoked; it expired before `now`; the amount would take the spent
/// total above the maximum.
pub open spec fn charge_error(
    caller: Seq<char>,
    settler: Seq<char>,
    amount: i128,
    auth: Option<AuthorizationView>,
    now: u64,
) -> Option<Error> {
    if caller != settler {
        Some(Error::Unauthorized)
    } else if amount <= 0 {
        Some(Error::BadAmount)
    } else if auth is None {
        Some(Error::NotFound)
    } else if auth->0.revoked {
        Some(Error::Revoked)
    } else if auth->0.expires_at < now {
        Some(Error::Expired)
    } else if auth->0.spent + amount > auth->0.max_amount {
        Some(Error::Insufficient)
    } else {
        None
    }
}

/// Checks a charge against the authorization it draws on.
pub fn check_charge(
    caller: &Address,
    settler: &Address,
    amount: i128,
    auth: Option<&Authorization>,
    now: u64,
) -> (r: Result<(), Error>)
    requires
        reaches_funds_check(
            caller@,
            settler@,
            amount,
            match auth {
                Some(a) => Some(a@),
                None => None,
            },
            now,
        ) ==> auth->0.spent + amount <= i128::MAX,
    ensures
        ({
            let e = charge_error(
                caller@,
                settler@,
                amount,
                match auth {
                    Some(a) => Some(a@),
                    None => None,
                },
                now,
            );
            &&& r is Ok <==> e is None
            &&& r matches Err(x) ==> e == Some(x)
        }),
{
    if !caller.same(settler) {
        return Err(Error::Unauthorized);
    }
    if amount <= 0 {
        return Err(Error::BadAmount);
    }
    let a = match auth {
        Some(a) => a,
        None => {
            return Err(Error::NotFound);
        },
    };
    if a.revoked {
        return Err(Error::Revoked);
    }
    if a.expires_at < now {
        return Err(Error::Expired);
    }
    if a.spent + amount > a.max_amount {
        return Err(Error::Insufficient);
    }
    Ok(())
}

/// The authorization a charge leaves behind, or the error that refuses it.
pub open spec fn charge_outcome(
    caller: Seq<char>,
    settler: Seq<char>,
    amount: i128,
    auth: Option<AuthorizationView>,
    now: u64,
) -> Result<AuthorizationView, Error> {
    match charge_error(caller, settler, amount, auth, now) {
        Some(e) => Err(e),
        None => Ok(charged_view(auth->0, amount)),
    }
}

/// One charge over the authorization it reads from storage: checks it and
/// returns the authorization to write back.
pub fn charge_step(
    caller: &Address,
    settler: &Address,
    amount: i128,
    auth: Option<&Authorization>,
    now: u64,
) -> (r: Result<Authorization, Error>)
    requires
        reaches_funds_check(
            caller@,
            settler@,
            amount,
            match auth {
                Some(a) => Some(a@),
                None => None,
            },
            now,
        ) ==> auth->0.spent + amount <= i128::MAX,
    ensures
        ({
            let o = charge_outcome(
                caller@,
                settler@,
                amount,
                match auth {
                    Some(a) => Some(a@),
                    None => None,
                },
                now,
            );
            match r {
                Ok(a) => o == Ok::<AuthorizationView, Error>(a@),
                Err(e) => o == Err::<AuthorizationView, Error>(e),
            }
        }),
{
    match check_charge(caller, settler, amount, auth, now) {
        Err(e) => Err(e),
        Ok(()) => match auth {
            Some(a) => Ok(charged(a, amount)),
            None => Err(Error::NotFound),
        },
    }
}

/// The receipt of a charge settled at `now`.
pub open spec fn receipt_view(
    auth_id: Seq<u8>,
    agent_id: Seq<char>,
    amount: i128,
    job_id: Seq<u8>,
    now: u64,
) -> ReceiptView {
    ReceiptView { auth_id, agent_id, amount, job_id, settled_at: now }
}

/// Builds the receipt of a charge settled at `now`.
pub fn new_receipt(auth_id: &Bytes16, agent_id: &Symbol, amount: i128, job_id: &Bytes16, now: u64) -> (r:
    Receipt)
    ensures
        r@ == receipt_view(auth_id@, agent_id@, amount, job_id@, now),
{
    Receipt { auth_id: *auth_id, agent_id: agent_id.duplicate(), amount, job_id: *job_id, settled_at: now }
}

/// Why a revocation is refused: there is no such authorization, or the
/// caller is not its payer.
pub open spec fn revoke_error(payer: Seq<char>, auth: Option<AuthorizationView>) -> Option<Error> {
    if auth is None {
        Some(Error::NotFound)
    } else if auth->0.payer != payer {
        Some(Error::Unauthorized)
    } else {
        None
    }
}

/// Checks a revocation against the authorization it cancels.
pub fn check_revoke(payer: &Address, auth: Option<&Authorization>) -> (r: Result<(), Error>)
    ensures
        ({
            let e = revoke_error(
                payer@,
                match auth {
                    Some(a) => Some(a@),
                    None => None,
                },
            );
            &&& r is Ok <==> e is None
            &&& r matches Err(x) ==> e == Some(x)
        }),
{
    match auth {
        None => Err(Error::NotFound),
        Some(a) => {
            if !a.payer.same(payer) {
                Err(Error::Unauthorized)
            } else {
                Ok(())
            }
        },
    }
}

/// The authorization a revocation leaves behind, or the error that refuses it.
pub open spec fn revoke_outcome(payer: Seq<char>, auth: Option<AuthorizationView>) -> Result<
    AuthorizationView,
    Error,
> {
    match revoke_error(payer, auth) {
        Some(e) => Err(e),
        None => Ok(revoked_view(auth->0)),
    }
}

/// One revocation over the authorization it reads from storage: checks it
/// and returns the authorization to write back.
pub fn revoke_step(payer: &Address, auth: Option<&Authorization>) -> (r: Result<
    Authorization,
    Error,
>)
    ensures
        ({
            let o = revoke_outcome(
                payer@,
                match auth {
                    Some(a) => Some(a@),
                    None => None,
                },
            );
            match r {
                Ok(a) => o == Ok::<AuthorizationView, Error>(a@),
                Err(e) => o == Err::<AuthorizationView, Error>(e),
            }
        }),
{
    match check_revoke(payer, auth) {
        Err(e) => Err(e),
        Ok(()) => match auth {
            Some(a) => Ok(revoked(a)),
            None => Err(Error::NotFound),
        },
    }
}

/// One authorization: checks the maximum and returns the record to store.
pub fn authorize_step(payer: &Address, agent_id: &Symbol, max_amount: i128, expires_at: u64) -> (r:
    Result<Authorization, Error>)
    ensures
        r is Ok <==> max_amount > 0,
        r matches Ok(a) ==> a@ == new_authorization_view(payer@, agent_id@, max_amount, expires_at),
        r matches Err(e) ==> e == Error::BadAmount,
{
    match check_authorize(max_amount) {
        Err(e) => Err(e),
        Ok(()) => Ok(new_authorization(payer, agent_id, max_amount, expires_at)),
    }
}

/// The nonce after one more record id is derived from it.
pub fn advance_nonce(nonce: u64) -> (r: u64)
    requires
        nonce < u64::MAX,
    ensures
        r == nonce + 1,
{
    nonce + 1
}

/// The escrow's storage, as mathematical values.
#[verifier::ext_equal]
pub struct EscrowView {
    pub admin: Seq<char>,
    pub usdc: Seq<char>,
    pub registry: Seq<char>,
    pub settler: Seq<char>,
    /// Counter from which record ids are derived.
    pub nonce: u64,
    /// Authorization id → authorization.
    pub auths: Map<Seq<u8>, AuthorizationView>,
    /// Receipt id → receipt.
    pub receipts: Map<Seq<u8>, ReceiptView>,
}

impl EscrowView {
    /// The stored authorization, if any.
    pub open spec fn auth(self, auth_id: Seq<u8>) -> Option<AuthorizationView> {
        if self.auths.contains_key(auth_id) {
            Some(self.auths[auth_id])
        } else {
            None
        }
    }

    /// The escrow after `authorize`, or the error that refuses it. The new
    /// authorization is stored under `new_id` and the nonce advances.
    pub open spec fn after_authorize(
        self,
        payer: Seq<char>,
        agent_id: Seq<char>,
        max_amount: i128,
        expires_at: u64,
        new_id: Seq<u8>,
    ) -> Result<EscrowView, Error> {
        if max_amount <= 0 {
            Err(Error::BadAmount)
        } else {
            Ok(
                EscrowView {
                    nonce: (self.nonce + 1) as u64,
                    auths: self.auths.insert(
                        new_id,
                        new_authorization_view(payer, agent_id, max_amount, expires_at),
                    ),
                    ..self
                },
            )
        }
    }

    /// Why a charge against this escrow is refused, if it is.
    pub open spec fn charge_error(self, caller: Seq<char>, auth_id: Seq<u8>, amount: i128, now: u64) -> Option<
        Error,
    > {
        charge_error(caller, self.settler, amount, self.auth(auth_id), now)
    }

    /// The escrow after a successful charge settled at `now`: the amount is
    /// added to the authorization's spent total, a receipt is stored under
    /// `new_id`, and the nonce advances.
    pub open spec fn after_charge(
        self,
        now: u64,
        auth_id: Seq<u8>,
        amount: i128,
        job_id: Seq<u8>,
        new_id: Seq<u8>,
    ) -> EscrowView {
        let a = self.auths[auth_id];
        EscrowView {
            nonce: (self.nonce + 1) as u64,
            auths: self.auths.insert(auth_id, charged_view(a, amount)),
            receipts: self.receipts.insert(
                new_id,
                receipt_view(auth_id, a.agent_id, amount, job_id, now),
            ),
            ..self
        }
    }

    /// The escrow after `revoke`, or the error that refuses it.
    pub open spec fn after_revoke(self, payer: Seq<char>, auth_id: Seq<u8>) -> Result<
        EscrowView,
        Error,
    > {
        match revoke_error(payer, self.auth(auth_id)) {
            Some(e) => Err(e),
            None => Ok(
                EscrowView {
                    auths: self.auths.insert(auth_id, revoked_view(self.auths[auth_id])),
                    ..self
                },
            ),
        }
    }
}

/// The payment escrow: its configuration, id nonce, authorizations and receipts.
pub struct PaymentEscrow {
    admin: Address,
    usdc: Address,
    registry: Address,
    settler: Address,
    nonce: u64,
    auths: Table<Bytes16, Authorization>,
    receipts: Table<Bytes16, Receipt>,
}

impl View for PaymentEscrow {
    type V = EscrowView;

    closed spec fn view(&self) -> EscrowView {
        EscrowView {
            admin: self.admin@,
            usdc: self.usdc@,
            registry: self.registry@,
            settler: self.settler@,
            nonce: self.nonce,
            auths: self.auths.contents().map_values(|a: Authorization| a@),
            receipts: self.receipts.contents().map_values(|r: Receipt| r@),
        }
    }
}

/// Every stored authorization has a positive maximum and a spent total
/// between zero and that maximum.
pub open spec fn auths_within_limits(auths: Map<Seq<u8>, AuthorizationView>) -> bool {
    forall|k: Seq<u8>| #[trigger]
        auths.contains_key(k) ==> {
            &&& auths[k].max_amount > 0
            &&& 0 <= auths[k].spent <= auths[k].max_amount
        }
}

impl PaymentEscrow {
    /// The escrow's invariant: its tables are well formed and every
    /// authorization is within its limits.
    pub closed spec fn wf(&self) -> bool {
        &&& self.auths.wf()
        &&& self.receipts.wf()
        &&& auths_within_limits(self@.auths)
    }

    /// A well-formed escrow keeps its authorizations within their limits.
    pub proof fn lemma_within_limits(&self)
        requires
            self.wf(),
        ensures
            auths_within_limits(self@.auths),
    {
    }

    /// An escrow deployed with its admin, payment token, agent registry and
    /// settler; the nonce starts at zero.
    pub fn new(admin: Address, usdc: Address, registry: Address, settler: Address) -> (r: Self)
        ensures
            r.wf(),
            r@.admin == admin@,
            r@.usdc == usdc@,
            r@.registry == registry@,
            r@.settler == settler@,
            r@.nonce == 0,
            r@.auths == Map::<Seq<u8>, AuthorizationView>::empty(),
            r@.receipts == Map::<Seq<u8>, ReceiptView>::empty(),
    {
        let r = PaymentEscrow {
            admin,
            usdc,
            registry,
            settler,
            nonce: 0,
            auths: Table::new(),
            receipts: Table::new(),
        };
        assert(r@.auths =~= Map::<Seq<u8>, AuthorizationView>::empty());
        assert(r@.receipts =~= Map::<Seq<u8>, ReceiptView>::empty());
        r
    }

    /// The nonce from which the host derives the id of the next record.
    pub fn nonce(&self) -> (r: u64)
        ensures
            r == self@.nonce,
    {
        self.nonce
    }

    fn lookup(&self, auth_id: &Bytes16) -> (r: Option<&Authorization>)
        requires
            self.wf(),
        ensures
            match r {
                Some(a) => self@.auth(auth_id@) == Some(a@),
                None => self@.auth(auth_id@) is None,
            },
    {
        self.auths.get(auth_id)
    }

    /// The payer pre-authorizes up to `max_amount` for an agent, valid until
    /// `expires_at`. The record is stored under `new_id`, the fresh id the
    /// host derived for this call (no authorization is stored under it yet),
    /// and the nonce advances.
    pub fn authorize(
        &mut self,
        payer: &Address,
        agent_id: &Symbol,
        max_amount: i128,
        expires_at: u64,
        new_id: Bytes16,
    ) -> (r: Result<Bytes16, Error>)
        requires
            old(self).wf(),
            max_amount > 0 ==> old(self)@.nonce < u64::MAX && !old(self)@.auths.contains_key(
                new_id@,
            ),
        ensures
            final(self).wf(),
            match r {
                Ok(id) => id == new_id && old(self)@.after_authorize(
                    payer@,
                    agent_id@,
                    max_amount,
                    expires_at,
                    new_id@,
                ) == Ok::<EscrowView, Error>(final(self)@),
                Err(e) => old(self)@.after_authorize(
                    payer@,
                    agent_id@,
                    max_amount,
                    expires_at,
                    new_id@,
                ) == Err::<EscrowView, Error>(e) && final(self)@ == old(self)@,
            },
    {
        let record = match authorize_step(payer, agent_id, max_amount, expires_at) {
            Err(e) => {
                return Err(e);
            },
            Ok(a) => a,
        };
        let ghost old_self = *self;
        self.nonce = advance_nonce(self.nonce);
        let ghost rv = record@;
        self.auths.insert(new_id, record);
        proof {
            assert(self@.auths =~= old_self@.auths.insert(new_id@, rv));
        }
        Ok(new_id)
    }

    /// The settler draws `amount` from an authorization at ledger timestamp
    /// `now`. On success the amount is paid from the payer to the agent's
    /// owner, as recorded by `agents`, the registry deployed at `registry_at`
    /// (which must be the escrow's configured registry); the
    /// authorization's spent total grows by it, a receipt is stored under
    /// `new_id` (the fresh id the host derived for this call), and the nonce
    /// advances. Returns the receipt id and the transfer to perform.
    pub fn charge(
        &mut self,
        now: u64,
        registry_at: &Address,
        agents: &AgentRegistry,
        caller: &Address,
        auth_id: &Bytes16,
        amount: i128,
        job_id: &Bytes16,
        new_id: Bytes16,
    ) -> (r: Result<(Bytes16, Transfer), Error>)
        requires
            old(self).wf(),
            agents.wf(),
            registry_at@ == old(self)@.registry,
            reaches_funds_check(
                caller@,
                old(self)@.settler,
                amount,
                old(self)@.auth(auth_id@),
                now,
            ) ==> old(self)@.auths[auth_id@].spent + amount <= i128::MAX,
            old(self)@.charge_error(caller@, auth_id@, amount, now) is None ==> {
                &&& agents@.agents.contains_key(old(self)@.auths[auth_id@].agent_id)
                &&& old(self)@.nonce < u64::MAX
                &&& !old(self)@.receipts.contains_key(new_id@)
            },
        ensures
            final(self).wf(),
            match r {
                Ok((rid, t)) => {
                    &&& old(self)@.charge_error(caller@, auth_id@, amount, now) is None
                    &&& rid == new_id
                    &&& t@ == (TransferView {
                        from: old(self)@.auths[auth_id@].payer,
                        to: agents@.agents[old(self)@.auths[auth_id@].agent_id].owner,
                        amount,
                    })
                    &&& final(self)@ == old(self)@.after_charge(
                        now,
                        auth_id@,
                        amount,
                        job_id@,
                        new_id@,
                    )
                },
                Err(e) => old(self)@.charge_error(caller@, auth_id@, amount, now) == Some(e)
                    && final(self)@ == old(self)@,
            },
    {
        let auth = match self.lookup(auth_id) {
            Some(a) => Some(a.duplicate()),
            None => None,
        };
        let updated = match charge_step(caller, &self.settler, amount, auth.as_ref(), now) {
            Err(e) => {
                return Err(e);
            },
            Ok(a) => a,
        };
        let auth = match auth {
            Some(a) => a,
            None => {
                return Err(Error::NotFound);
            },
        };
        let owner = match agents.owner_of(&auth.agent_id) {
            Ok(o) => o,
            Err(_) => {
                return Err(Error::NotFound);
            },
        };
        let transfer = Transfer { from: auth.payer.duplicate(), to: owner, amount };
        let ghost old_self = *self;
        let receipt = new_receipt(auth_id, &auth.agent_id, amount, job_id, now);
        let ghost av = updated@;
        let ghost rv = receipt@;
        self.auths.insert(*auth_id, updated);
        self.nonce = advance_nonce(self.nonce);
        self.receipts.insert(new_id, receipt);
        proof {
            assert(self@.auths =~= old_self@.auths.insert(auth_id@, av));
            assert(self@.receipts =~= old_self@.receipts.insert(new_id@, rv));
            assert(self@ =~= old_self@.after_charge(now, auth_id@, amount, job_id@, new_id@));
        }
        Ok((new_id, transfer))
    }

    /// The payer cancels an authorization; the payer's signature is checked
    /// by the host.
    pub fn revoke(&mut self, payer: &Address, auth_id: &Bytes16) -> (r: Result<(), Error>)
        requires
            old(self).wf(),
        ensures
            final(self).wf(),
            match r {
                Ok(()) => old(self)@.after_revoke(payer@, auth_id@) == Ok::<EscrowView, Error>(
                    final(self)@,
                ),
                Err(e) => old(self)@.after_revoke(payer@, auth_id@) == Err::<EscrowView, Error>(e)
                    && final(self)@ == old(self)@,
            },
    {
        let auth = match revoke_step(payer, self.lookup(auth_id)) {
            Err(e) => {
                return Err(e);
            },
            Ok(a) => a,
        };
        let ghost old_self = *self;
        let ghost av = auth@;
        self.auths.insert(*auth_id, auth);
        proof {
            assert(self@.auths =~= old_self@.auths.insert(auth_id@, av));
        }
        Ok(())
    }

    /// A stored authorization.
    pub fn authorization(&self, auth_id: &Bytes16) -> (r: Result<Authorization, Error>)
        requires
            self.wf(),
        ensures
            r is Ok <==> self@.auths.contains_key(auth_id@),
            r matches Ok(a) ==> a@ == self@.auths[auth_id@],
            r matches Err(e) ==> e == Error::NotFound,
    {
        match self.lookup(auth_id) {
            Some(a) => Ok(a.duplicate()),
            None => Err(Error::NotFound),
        }
    }

    /// A stored receipt.
    pub fn receipt(&self, receipt_id: &Bytes16) -> (r: Result<Receipt, Error>)
        requires
            self.wf(),
        ensures
            r is Ok <==> self@.receipts.contains_key(receipt_id@),
            r matches Ok(x) ==> x@ == self@.receipts[receipt_id@],
            r matches Err(e) ==> e == Error::NotFound,
    {
        match self.receipts.get(receipt_id) {
            Some(x) => Ok(x.duplicate()),
            None => Err(Error::NotFound),
        }
    }

    /// The agent registry configured at deployment.
    pub fn registry(&self) -> (r: Address)
        ensures
            r@ == self@.registry,
    {
        self.registry.duplicate()
    }

    /// The settler configured at deployment.
    pub fn settler(&self) -> (r: Address)
        ensures
            r@ == self@.settler,
    {
        self.settler.duplicate()
    }
}

} // verus!
