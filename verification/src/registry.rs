//! The agent registry: identities, skills and per-call prices of agents.
use vstd::prelude::*;
use crate::codes;
use crate::ids::{Address, Key, Symbol};
use crate::shared::{copy_symbols, symbols_view, Agent, AgentView};
use crate::table::Table;

verus! {

/// Why a registry call was refused.
#[derive(Clone, Copy, Debug, PartialEq, Eq, PartialOrd, Ord, Structural)]
pub enum Error {
    Unauthorized,
    NotFound,
    AlreadyExists,
    Inactive,
}

/// The numeric code of each error.
pub open spec fn error_code(e: Error) -> u32 {
    match e {
        Error::Unauthorized => codes::UNAUTHORIZED,
        Error::NotFound => codes::NOT_FOUND,
        Error::AlreadyExists => codes::ALREADY_EXISTS,
        Error::Inactive => codes::INACTIVE,
    }
}

impl Error {
    /// The numeric error code reported to callers.
    pub fn code(&self) -> (r: u32)
        ensures
            r == error_code(*self),
    {
        match self {
            Error::Unauthorized => codes::UNAUTHORIZED,
            Error::NotFound => codes::NOT_FOUND,
            Error::AlreadyExists => codes::ALREADY_EXISTS,
            Error::Inactive => codes::INACTIVE,
        }
    }
}

/// The record of a newly registered agent: active, stamped with `now`.
pub open spec fn new_agent_view(
    owner: Seq<char>,
    id: Seq<char>,
    name: Seq<char>,
    skills: Seq<Seq<char>>,
    price: i128,
    now: u64,
) -> AgentView {
    AgentView { id, owner, name, skills, price, active: true, registered_at: now }
}

/// Builds the record of a newly registered agent.
pub fn new_agent(
    owner: &Address,
    id: &Symbol,
    name: String,
    skills: Vec<Symbol>,
    price: i128,
    now: u64,
) -> (r: Agent)
    ensures
        r@ == new_agent_view(owner@, id@, name@, symbols_view(skills@), price, now),
{
    Agent {
        id: id.duplicate(),
        owner: owner.duplicate(),
        name,
        skills,
        price,
        active: true,
        registered_at: now,
    }
}

/// A record with its price replaced.
pub fn with_price(agent: &Agent, new_price: i128) -> (r: Agent)
    ensures
        r@ == (AgentView { price: new_price, ..agent@ }),
{
    let mut r = agent.duplicate();
    r.price = new_price;
    r
}

/// A record with its activity flag replaced.
pub fn with_active(agent: &Agent, active: bool) -> (r: Agent)
    ensures
        r@ == (AgentView { active, ..agent@ }),
{
    let mut r = agent.duplicate();
    r.active = active;
    r
}

/// Refuses the registration of an id that is already taken.
pub fn check_register(taken: bool) -> (r: Result<(), Error>)
    ensures
        r is Ok <==> !taken,
        r matches Err(e) ==> e == Error::AlreadyExists,
{
    if taken {
        Err(Error::AlreadyExists)
    } else {
        Ok(())
    }
}

/// One registration over whether its id is taken: returns the record to
/// store.
pub fn register_step(
    taken: bool,
    owner: &Address,
    id: &Symbol,
    name: String,
    skills: Vec<Symbol>,
    price: i128,
    now: u64,
) -> (r: Result<Agent, Error>)
    ensures
        r is Ok <==> !taken,
        r matches Ok(a) ==> a@ == new_agent_view(owner@, id@, name@, symbols_view(skills@), price, now),
        r matches Err(e) ==> e == Error::AlreadyExists,
{
    match check_register(taken) {
        Err(e) => Err(e),
        Ok(()) => Ok(new_agent(owner, id, name, skills, price, now)),
    }
}

/// Appends a newly registered id to the id list.
pub fn append_id(ids: &mut Vec<Symbol>, id: &Symbol)
    ensures
        symbols_view(final(ids)@) == symbols_view(old(ids)@).push(id@),
{
    ids.push(id.duplicate());
    assert(symbols_view(ids@) =~= symbols_view(old(ids)@).push(id@));
}

/// One price update over the stored record: returns the record to store.
pub fn update_price_step(stored: Option<&Agent>, new_price: i128) -> (r: Result<Agent, Error>)
    ensures
        r is Ok <==> stored is Some,
        r matches Ok(a) ==> a@ == (AgentView { price: new_price, ..stored->0@ }),
        r matches Err(e) ==> e == Error::NotFound,
{
    match stored {
        Some(a) => Ok(with_price(a, new_price)),
        None => Err(Error::NotFound),
    }
}

/// One activity update over the stored record: returns the record to store.
pub fn set_active_step(stored: Option<&Agent>, active: bool) -> (r: Result<Agent, Error>)
    ensures
        r is Ok <==> stored is Some,
        r matches Ok(a) ==> a@ == (AgentView { active, ..stored->0@ }),
        r matches Err(e) ==> e == Error::NotFound,
{
    match stored {
        Some(a) => Ok(with_active(a, active)),
        None => Err(Error::NotFound),
    }
}

/// The registry's storage, as mathematical values.
#[verifier::ext_equal]
pub struct RegistryView {
    pub admin: Seq<char>,
    /// Agent id → record.
    pub agents: Map<Seq<char>, AgentView>,
    /// Registered ids in registration order.
    pub ids: Seq<Seq<char>>,
}

impl RegistryView {
    /// The registry after `register`, or the error that refuses it.
    pub open spec fn after_register(
        self,
        now: u64,
        owner: Seq<char>,
        id: Seq<char>,
        name: Seq<char>,
        skills: Seq<Seq<char>>,
        price: i128,
    ) -> Result<RegistryView, Error> {
        if self.agents.contains_key(id) {
            Err(Error::AlreadyExists)
        } else {
            Ok(
                RegistryView {
                    admin: self.admin,
                    agents: self.agents.insert(id, new_agent_view(owner, id, name, skills, price, now)),
                    ids: self.ids.push(id),
                },
            )
        }
    }

    /// The registry with one agent's record replaced.
    pub open spec fn with_agent(self, id: Seq<char>, a: AgentView) -> RegistryView {
        RegistryView { admin: self.admin, agents: self.agents.insert(id, a), ids: self.ids }
    }

    /// The registry after `update_price`, or the error that refuses it.
    pub open spec fn after_update_price(self, id: Seq<char>, new_price: i128) -> Result<
        RegistryView,
        Error,
    > {
        if !self.agents.contains_key(id) {
            Err(Error::NotFound)
        } else {
            Ok(self.with_agent(id, AgentView { price: new_price, ..self.agents[id] }))
        }
    }

    /// The registry after `set_active`, or the error that refuses it.
    pub open spec fn after_set_active(self, id: Seq<char>, active: bool) -> Result<
        RegistryView,
        Error,
    > {
        if !self.agents.contains_key(id) {
            Err(Error::NotFound)
        } else {
            Ok(self.with_agent(id, AgentView { active, ..self.agents[id] }))
        }
    }
}

/// The agent registry: its admin and the registered agents.
pub struct AgentRegistry {
    admin: Address,
    agents: Table<Symbol, Agent>,
    ids: Vec<Symbol>,
}

impl View for AgentRegistry {
    type V = RegistryView;

    closed spec fn view(&self) -> RegistryView {
        RegistryView {
            admin: self.admin@,
            agents: self.agents.contents().map_values(|a: Agent| a@),
            ids: symbols_view(self.ids@),
        }
    }
}

impl AgentRegistry {
    /// The registry's invariant: its table is well formed and the id list
    /// holds its keys in registration order.
    pub closed spec fn wf(&self) -> bool {
        &&& self.agents.wf()
        &&& symbols_view(self.ids@) == self.agents.key_seq()
    }

    /// The ids list each registered agent exactly once.
    pub proof fn lemma_ids(&self)
        requires
            self.wf(),
        ensures
            self@.ids.no_duplicates(),
            forall|id: Seq<char>| #[trigger] self@.agents.contains_key(id) <==> self@.ids.contains(id),
            self@.ids.len() == self@.agents.dom().len(),
    {
        self.agents.lemma_key_seq();
        assert(self@.agents.dom() =~= self.agents.contents().dom());
    }

    /// A registry deployed with `admin` and no agents.
    pub fn new(admin: Address) -> (r: Self)
        ensures
            r.wf(),
            r@.admin == admin@,
            r@.agents == Map::<Seq<char>, AgentView>::empty(),
            r@.ids == Seq::<Seq<char>>::empty(),
    {
        let r = AgentRegistry { admin, agents: Table::new(), ids: Vec::new() };
        assert(r@.agents =~= Map::<Seq<char>, AgentView>::empty());
        assert(symbols_view(r.ids@) =~= Seq::<Seq<char>>::empty());
        r
    }

    /// Registers a new agent at ledger timestamp `now`, active, owned by
    /// `owner` (who signs). Fails if the id is already registered.
    pub fn register(
        &mut self,
        now: u64,
        owner: &Address,
        id: &Symbol,
        name: String,
        skills: Vec<Symbol>,
        price: i128,
    ) -> (r: Result<(), Error>)
        requires
            old(self).wf(),
        ensures
            final(self).wf(),
            match r {
                Ok(()) => old(self)@.after_register(
                    now,
                    owner@,
                    id@,
                    name@,
                    symbols_view(skills@),
                    price,
                ) == Ok::<RegistryView, Error>(final(self)@),
                Err(e) => old(self)@.after_register(
                    now,
                    owner@,
                    id@,
                    name@,
                    symbols_view(skills@),
                    price,
                ) == Err::<RegistryView, Error>(e) && final(self)@ == old(self)@,
            },
    {
        let taken = self.agents.contains(id);
        assert(taken == self@.agents.contains_key(id@));
        let ghost skills_view = symbols_view(skills@);
        let ghost name_view = name@;
        let agent = match register_step(taken, owner, id, name, skills, price, now) {
            Err(e) => {
                return Err(e);
            },
            Ok(a) => a,
        };
        let ghost old_self = *self;
        self.agents.insert(id.duplicate(), agent);
        append_id(&mut self.ids, id);
        proof {
            assert(self@.agents =~= old_self@.agents.insert(
                id@,
                new_agent_view(owner@, id@, name_view, skills_view, price, now),
            ));
        }
        Ok(())
    }

    fn agent(&self, id: &Symbol) -> (r: Result<&Agent, Error>)
        requires
            self.wf(),
        ensures
            r matches Ok(a) ==> self@.agents.contains_key(id@) && a@ == self@.agents[id@],
            r is Err ==> !self@.agents.contains_key(id@) && r == Err::<&Agent, Error>(
                Error::NotFound,
            ),
    {
        match self.agents.get(id) {
            Some(a) => Ok(a),
            None => Err(Error::NotFound),
        }
    }

    fn replace(&mut self, id: &Symbol, a: Agent)
        requires
            old(self).wf(),
            old(self)@.agents.contains_key(id@),
        ensures
            final(self).wf(),
            final(self)@ == old(self)@.with_agent(id@, a@),
    {
        let ghost old_self = *self;
        let ghost av = a@;
        self.agents.insert(id.duplicate(), a);
        proof {
            assert(self@.agents =~= old_self@.agents.insert(id@, av));
        }
    }

    /// Updates an agent's per-call price (the owner signs).
    pub fn update_price(&mut self, id: &Symbol, new_price: i128) -> (r: Result<(), Error>)
        requires
            old(self).wf(),
        ensures
            final(self).wf(),
            match r {
                Ok(()) => old(self)@.after_update_price(id@, new_price) == Ok::<
                    RegistryView,
                    Error,
                >(final(self)@),
                Err(e) => old(self)@.after_update_price(id@, new_price) == Err::<
                    RegistryView,
                    Error,
                >(e) && final(self)@ == old(self)@,
            },
    {
        let agent = match update_price_step(self.agents.get(id), new_price) {
            Ok(a) => a,
            Err(e) => {
                return Err(e);
            },
        };
        self.replace(id, agent);
        Ok(())
    }

    /// Activates or deactivates an agent (the owner signs).
    pub fn set_active(&mut self, id: &Symbol, active: bool) -> (r: Result<(), Error>)
        requires
            old(self).wf(),
        ensures
            final(self).wf(),
            match r {
                Ok(()) => old(self)@.after_set_active(id@, active) == Ok::<RegistryView, Error>(
                    final(self)@,
                ),
                Err(e) => old(self)@.after_set_active(id@, active) == Err::<RegistryView, Error>(
                    e,
                ) && final(self)@ == old(self)@,
            },
    {
        let agent = match set_active_step(self.agents.get(id), active) {
            Ok(a) => a,
            Err(e) => {
                return Err(e);
            },
        };
        self.replace(id, agent);
        Ok(())
    }

    /// The full record of an agent.
    pub fn get(&self, id: &Symbol) -> (r: Result<Agent, Error>)
        requires
            self.wf(),
        ensures
            r is Ok <==> self@.agents.contains_key(id@),
            r matches Ok(a) ==> a@ == self@.agents[id@],
            r matches Err(e) ==> e == Error::NotFound,
    {
        match self.agent(id) {
            Ok(a) => Ok(a.duplicate()),
            Err(e) => Err(e),
        }
    }

    /// The owner of an agent, to whom its payments go.
    pub fn owner_of(&self, id: &Symbol) -> (r: Result<Address, Error>)
        requires
            self.wf(),
        ensures
            r is Ok <==> self@.agents.contains_key(id@),
            r matches Ok(o) ==> o@ == self@.agents[id@].owner,
            r matches Err(e) ==> e == Error::NotFound,
    {
        match self.agent(id) {
            Ok(a) => Ok(a.owner.duplicate()),
            Err(e) => Err(e),
        }
    }

    /// All registered ids, in registration order.
    pub fn list_ids(&self) -> (r: Vec<Symbol>)
        requires
            self.wf(),
        ensures
            symbols_view(r@) == self@.ids,
    {
        copy_symbols(&self.ids)
    }

    /// The admin configured at deployment.
    pub fn admin(&self) -> (r: Address)
        ensures
            r@ == self@.admin,
    {
        self.admin.duplicate()
    }
}

} // verus!
