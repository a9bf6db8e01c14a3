//! Properties of the agent registry that hold across calls and states.
use vstd::prelude::*;
use crate::registry::{new_agent_view, Error, RegistryView};
use crate::shared::AgentView;

verus! {

/// An id can be registered only once: registering a taken id is refused
/// with `AlreadyExists`, whoever registers it and with whatever record.
pub proof fn law_register_once(
    v: RegistryView,
    now: u64,
    owner: Seq<char>,
    id: Seq<char>,
    name: Seq<char>,
    skills: Seq<Seq<char>>,
    price: i128,
)
    requires
        v.agents.contains_key(id),
    ensures
        v.after_register(now, owner, id, name, skills, price) == Err::<RegistryView, Error>(
            Error::AlreadyExists,
        ),
{
}

/// Reading an agent right after registering it gives back what was
/// registered: its owner, name, skills and price, active, stamped with the
/// registration time; its id joins the end of the id list.
pub proof fn law_register_then_read(
    v: RegistryView,
    now: u64,
    owner: Seq<char>,
    id: Seq<char>,
    name: Seq<char>,
    skills: Seq<Seq<char>>,
    price: i128,
)
    requires
        !v.agents.contains_key(id),
    ensures
        v.after_register(now, owner, id, name, skills, price) is Ok,
        ({
            let w = v.after_register(now, owner, id, name, skills, price)->Ok_0;
            &&& w.agents.contains_key(id)
            &&& w.agents[id].id == id
            &&& w.agents[id].owner == owner
            &&& w.agents[id].name == name
            &&& w.agents[id].skills == skills
            &&& w.agents[id].skills.len() == skills.len()
            &&& w.agents[id].price == price
            &&& w.agents[id].active
            &&& w.agents[id].registered_at == now
            &&& w.ids == v.ids.push(id)
            &&& forall|other: Seq<char>| other != id ==> #[trigger] w.agents.contains_key(other)
                == v.agents.contains_key(other)
            &&& forall|other: Seq<char>|
                other != id && v.agents.contains_key(other) ==> #[trigger] w.agents[other]
                    == v.agents[other]
        }),
{
}

/// A newly built record holds exactly what it was given, field by field: the
/// id, owner, name, every skill in order, and price; it starts active and
/// stamped with the given time.
pub proof fn law_new_record_keeps_fields(
    owner: Seq<char>,
    id: Seq<char>,
    name: Seq<char>,
    skills: Seq<Seq<char>>,
    price: i128,
    now: u64,
)
    ensures
        ({
            let a = new_agent_view(owner, id, name, skills, price, now);
            &&& a.id == id
            &&& a.owner == owner
            &&& a.name == name
            &&& a.skills.len() == skills.len()
            &&& forall|i: int| 0 <= i < skills.len() ==> #[trigger] a.skills[i] == skills[i]
            &&& a.price == price
            &&& a.active
            &&& a.registered_at == now
        }),
{
}

/// The id list only grows: every call keeps the earlier ids, in order, as a
/// prefix.
pub proof fn law_ids_only_grow(
    v: RegistryView,
    now: u64,
    owner: Seq<char>,
    id: Seq<char>,
    name: Seq<char>,
    skills: Seq<Seq<char>>,
    price: i128,
    active: bool,
)
    ensures
        v.after_register(now, owner, id, name, skills, price) matches Ok(w) ==> v.ids.is_prefix_of(
            w.ids,
        ),
        v.after_update_price(id, price) matches Ok(w) ==> w.ids == v.ids,
        v.after_set_active(id, active) matches Ok(w) ==> w.ids == v.ids,
{
    if let Ok(w) = v.after_register(now, owner, id, name, skills, price) {
        assert(v.ids.is_prefix_of(w.ids)) by {
            assert(w.ids.subrange(0, v.ids.len() as int) =~= v.ids);
        }
    }
}

/// Updating an agent's price or activity changes only that field of that
/// agent: its id, owner, name, skills and registration time stay, and other
/// agents are untouched.
pub proof fn law_updates_are_narrow(
    v: RegistryView,
    id: Seq<char>,
    other: Seq<char>,
    new_price: i128,
    active: bool,
)
    requires
        v.agents.contains_key(id),
        other != id,
    ensures
        ({
            let a = v.agents[id];
            let p = v.after_update_price(id, new_price)->Ok_0;
            let s = v.after_set_active(id, active)->Ok_0;
            &&& p.agents[id] == AgentView { price: new_price, ..a }
            &&& s.agents[id] == AgentView { active, ..a }
            &&& p.agents.contains_key(other) == v.agents.contains_key(other)
            &&& s.agents.contains_key(other) == v.agents.contains_key(other)
            &&& v.agents.contains_key(other) ==> p.agents[other] == v.agents[other]
                && s.agents[other] == v.agents[other]
        }),
{
}

/// Updating an unknown agent is refused with `NotFound`.
pub proof fn law_unknown_agent_not_found(v: RegistryView, id: Seq<char>, new_price: i128, active: bool)
    requires
        !v.agents.contains_key(id),
    ensures
        v.after_update_price(id, new_price) == Err::<RegistryView, Error>(Error::NotFound),
        v.after_set_active(id, active) == Err::<RegistryView, Error>(Error::NotFound),
{
}


/// A call to the registry that can change its storage, by its arguments.
pub enum RegistryCall {
    Register {
        now: u64,
        owner: Seq<char>,
        id: Seq<char>,
        name: Seq<char>,
        skills: Seq<Seq<char>>,
        price: i128,
    },
    UpdatePrice { id: Seq<char>, price: i128 },
    SetActive { id: Seq<char>, active: bool },
}

/// The registry after one call: a refused call changes nothing.
pub open spec fn registry_step(v: RegistryView, c: RegistryCall) -> RegistryView {
    match c {
        RegistryCall::Register { now, owner, id, name, skills, price } => match v.after_register(
            now,
            owner,
            id,
            name,
            skills,
            price,
        ) {
            Ok(w) => w,
            Err(_) => v,
        },
        RegistryCall::UpdatePrice { id, price } => match v.after_update_price(id, price) {
            Ok(w) => w,
            Err(_) => v,
        },
        RegistryCall::SetActive { id, active } => match v.after_set_active(id, active) {
            Ok(w) => w,
            Err(_) => v,
        },
    }
}

/// The registry after a sequence of calls, in order.
pub open spec fn registry_run(v: RegistryView, calls: Seq<RegistryCall>) -> RegistryView
    decreases calls.len(),
{
    if calls.len() == 0 {
        v
    } else {
        registry_step(registry_run(v, calls.drop_last()), calls.last())
    }
}

/// Through any sequence of calls a registered agent stays registered with
/// the same id, owner, name, skills and registration time (so `owner_of`
/// keeps answering its owner), and the id list only grows.
pub proof fn law_identity_is_kept(v: RegistryView, calls: Seq<RegistryCall>, id: Seq<char>)
    ensures
        v.ids.is_prefix_of(registry_run(v, calls).ids),
        v.agents.contains_key(id) ==> {
            let a = v.agents[id];
            let b = registry_run(v, calls).agents[id];
            &&& registry_run(v, calls).agents.contains_key(id)
            &&& b.id == a.id
            &&& b.owner == a.owner
            &&& b.name == a.name
            &&& b.skills == a.skills
            &&& b.registered_at == a.registered_at
        },
    decreases calls.len(),
{
    if calls.len() > 0 {
        let init = calls.drop_last();
        law_identity_is_kept(v, init, id);
        let prev = registry_run(v, init);
        let next = registry_run(v, calls);
        assert(prev.ids.is_prefix_of(next.ids)) by {
            if let RegistryCall::Register { now, owner, id: rid, name, skills, price } = calls.last() {
                if !prev.agents.contains_key(rid) {
                    assert(next.ids.subrange(0, prev.ids.len() as int) =~= prev.ids);
                }
            }
        }
        assert(v.ids.is_prefix_of(next.ids)) by {
            assert(next.ids.subrange(0, v.ids.len() as int) =~= v.ids) by {
                assert forall|i: int| 0 <= i < v.ids.len() implies next.ids[i] == v.ids[i] by {
                    assert(prev.ids[i] == v.ids[i]);
                    assert(next.ids[i] == prev.ids[i]);
                }
            }
        }
    }
}

} // verus!
