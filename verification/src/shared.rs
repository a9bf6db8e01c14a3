//! Records shared by the contracts, and the error codes they report.
use vstd::prelude::*;
use crate::ids::{Address, Bytes16, Bytes32, Key, Symbol};

verus! {

/// The texts of a sequence of symbols.
pub open spec fn symbols_view(v: Seq<Symbol>) -> Seq<Seq<char>> {
    v.map_values(|s: Symbol| s@)
}

/// The byte contents of a sequence of 16-byte identifiers.
pub open spec fn ids_view(v: Seq<Bytes16>) -> Seq<Seq<u8>> {
    v.map_values(|b: Bytes16| b@)
}

/// A copy of a list of symbols with the same texts.
pub fn copy_symbols(v: &Vec<Symbol>) -> (r: Vec<Symbol>)
    ensures
        symbols_view(r@) == symbols_view(v@),
{
    let mut r: Vec<Symbol> = Vec::new();
    let mut i: usize = 0;
    while i < v.len()
        invariant
            i <= v@.len(),
            r@.len() == i,
            forall|j: int| 0 <= j < i ==> #[trigger] r@[j]@ == v@[j]@,
        decreases v@.len() - i,
    {
        r.push(v[i].duplicate());
        i = i + 1;
    }
    assert(symbols_view(r@) =~= symbols_view(v@));
    r
}

/// A copy of a list of 16-byte identifiers.
pub fn copy_ids(v: &Vec<Bytes16>) -> (r: Vec<Bytes16>)
    ensures
        r@ == v@,
{
    let mut r: Vec<Bytes16> = Vec::new();
    let mut i: usize = 0;
    while i < v.len()
        invariant
            i <= v@.len(),
            r@ == v@.subrange(0, i as int),
        decreases v@.len() - i,
    {
        r.push(v[i]);
        i = i + 1;
        assert(r@ =~= v@.subrange(0, i as int));
    }
    assert(v@.subrange(0, v@.len() as int) =~= v@);
    r
}

/// A registered agent.
#[derive(Clone, Debug, PartialEq, Eq)]
pub struct Agent {
    pub id: Symbol,
    pub owner: Address,
    pub name: String,
    pub skills: Vec<Symbol>,
    /// Price per call in stroops (7 decimals).
    pub price: i128,
    pub active: bool,
    pub registered_at: u64,
}

/// An agent record as mathematical values.
pub struct AgentView {
    pub id: Seq<char>,
    pub owner: Seq<char>,
    pub name: Seq<char>,
    pub skills: Seq<Seq<char>>,
    pub price: i128,
    pub active: bool,
    pub registered_at: u64,
}

impl View for Agent {
    type V = AgentView;

    open spec fn view(&self) -> AgentView {
        AgentView {
            id: self.id@,
            owner: self.owner@,
            name: self.name@,
            skills: symbols_view(self.skills@),
            price: self.price,
            active: self.active,
            registered_at: self.registered_at,
        }
    }
}

impl Agent {
    /// A copy of the record with the same view.
    pub fn duplicate(&self) -> (r: Agent)
        ensures
            r@ == self@,
    {
        Agent {
            id: self.id.duplicate(),
            owner: self.owner.duplicate(),
            name: self.name.clone(),
            skills: copy_symbols(&self.skills),
            price: self.price,
            active: self.active,
            registered_at: self.registered_at,
        }
    }
}

/// A rating aggregate per agent: the sum of ratings and their count.
#[derive(Clone, Copy, Debug, PartialEq, Eq, Structural)]
pub struct Score {
    pub sum: u64,
    pub count: u32,
}

/// A pre-authorization created by a payer and drawn down by charges.
#[derive(Clone, Debug, PartialEq, Eq)]
pub struct Authorization {
    pub payer: Address,
    pub agent_id: Symbol,
    pub max_amount: i128,
    pub spent: i128,
    pub expires_at: u64,
    pub revoked: bool,
}

/// An authorization as mathematical values.
pub struct AuthorizationView {
    pub payer: Seq<char>,
    pub agent_id: Seq<char>,
    pub max_amount: i128,
    pub spent: i128,
    pub expires_at: u64,
    pub revoked: bool,
}

impl View for Authorization {
    type V = AuthorizationView;

    open spec fn view(&self) -> AuthorizationView {
        AuthorizationView {
            payer: self.payer@,
            agent_id: self.agent_id@,
            max_amount: self.max_amount,
            spent: self.spent,
            expires_at: self.expires_at,
            revoked: self.revoked,
        }
    }
}

impl Authorization {
    /// A copy of the record with the same view.
    pub fn duplicate(&self) -> (r: Authorization)
        ensures
            r@ == self@,
    {
        Authorization {
            payer: self.payer.duplicate(),
            agent_id: self.agent_id.duplicate(),
            max_amount: self.max_amount,
            spent: self.spent,
            expires_at: self.expires_at,
            revoked: self.revoked,
        }
    }
}

/// The receipt of a successful charge.
#[derive(Clone, Debug, PartialEq, Eq)]
pub struct Receipt {
    pub auth_id: Bytes16,
    pub agent_id: Symbol,
    pub amount: i128,
    pub job_id: Bytes16,
    pub settled_at: u64,
}

/// A receipt as mathematical values.
pub struct ReceiptView {
    pub auth_id: Seq<u8>,
    pub agent_id: Seq<char>,
    pub amount: i128,
    pub job_id: Seq<u8>,
    pub settled_at: u64,
}

impl View for Receipt {
    type V = ReceiptView;

    open spec fn view(&self) -> ReceiptView {
        ReceiptView {
            auth_id: self.auth_id@,
            agent_id: self.agent_id@,
            amount: self.amount,
            job_id: self.job_id@,
            settled_at: self.settled_at,
        }
    }
}

impl Receipt {
    /// A copy of the record with the same view.
    pub fn duplicate(&self) -> (r: Receipt)
        ensures
            r@ == self@,
    {
        Receipt {
            auth_id: self.auth_id,
            agent_id: self.agent_id.duplicate(),
            amount: self.amount,
            job_id: self.job_id,
            settled_at: self.settled_at,
        }
    }
}

/// The write-once record of a finished job.
#[derive(Clone, Debug, PartialEq, Eq)]
pub struct Attestation {
    pub orchestrator: Address,
    pub intent_hash: Bytes32,
    pub agents: Vec<Symbol>,
    pub receipts: Vec<Bytes16>,
    pub total_spent: i128,
    pub sealed_at: u64,
}

/// An attestation as mathematical values.
pub struct AttestationView {
    pub orchestrator: Seq<char>,
    pub intent_hash: Seq<u8>,
    pub agents: Seq<Seq<char>>,
    pub receipts: Seq<Seq<u8>>,
    pub total_spent: i128,
    pub sealed_at: u64,
}

impl View for Attestation {
    type V = AttestationView;

    open spec fn view(&self) -> AttestationView {
        AttestationView {
            orchestrator: self.orchestrator@,
            intent_hash: self.intent_hash@,
            agents: symbols_view(self.agents@),
            receipts: ids_view(self.receipts@),
            total_spent: self.total_spent,
            sealed_at: self.sealed_at,
        }
    }
}

impl Attestation {
    /// A copy of the record with the same view.
    pub fn duplicate(&self) -> (r: Attestation)
        ensures
            r@ == self@,
    {
        Attestation {
            orchestrator: self.orchestrator.duplicate(),
            intent_hash: self.intent_hash,
            agents: copy_symbols(&self.agents),
            receipts: copy_ids(&self.receipts),
            total_spent: self.total_spent,
            sealed_at: self.sealed_at,
        }
    }
}

} // verus!
