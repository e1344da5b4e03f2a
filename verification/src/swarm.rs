//! The registry (the swarm): it owns the registered agents and routes each
//! action to its target. Routing parses the agent part of the action id,
//! looks the agent up, invokes it with a reference to the registry itself —
//! so an agent can compose other agents by dispatching further actions — and
//! stamps the output with the responding agent's registered id. A missed
//! lookup is the only routing-level error; everything else comes from the
//! agent. Nested dispatch carries an explicit recursion budget, so routing
//! always terminates. Two bounds follow from ownership and termination,
//! where an unverified registry could instead recurse without limit: during
//! its own step an agent is absent from the registry, so dispatching to
//! one's own id misses the lookup; and nesting deeper than the default
//! budget answers the recursion-limit error.

use vstd::prelude::*;
use vstd::string::StringExecFns;

use crate::agent::{agent_of, error_val, operation_of, Action, ActionV, Output, OutputV};
use crate::basic_agents::{calc_output, echo_output, CalcAgent, EchoAgent, RelayAgent};
use crate::llm_agent::llm_agent::{llm_output, LLMAgent};
use crate::searx_agent::searx_agent::{searx_output, SearxAgent};
use crate::web::auth::auth_agent::{auth_handles, auth_output, AuthAgent};
use crate::json::{JsonCodec, JsonVal};
use crate::text::str_eq;

verus! {

/// The recursion budget that public routing entry points start from.
pub const DEFAULT_FUEL: u64 = 64;

/// A registered agent: a closed sum over the agent variants this library
/// ships, so that recovering a concrete agent from the registry is a safe
/// pattern match rather than a fallible downcast.
pub enum Agent {
    Echo(EchoAgent),
    Calc(CalcAgent),
    Relay(RelayAgent),
    Llm(LLMAgent),
    Searx(SearxAgent),
    Auth(AuthAgent),
}

/// The registry: a mapping from agent identifier to owned agent instance.
/// Registration appends; lookup takes the most recently registered entry, so
/// registering an id again replaces the agent observably. Routing borrows
/// the registry exclusively: the dispatched agent may step its own state —
/// the authentication agent updates its stored users — and the registry
/// re-files the stepped agent under its id afterwards.
pub struct Swarm {
    agents: Vec<(String, Agent)>,
}

impl View for Swarm {
    type V = Seq<(String, Agent)>;

    closed spec fn view(&self) -> Seq<(String, Agent)> {
        self.agents@
    }
}

/// Last-match lookup of a registered agent by identifier.
pub open spec fn lookup(agents: Seq<(String, Agent)>, id: Seq<char>) -> Option<Agent>
    decreases agents.len(),
{
    if agents.len() == 0 {
        None
    } else if agents[agents.len() - 1].0@ == id {
        Some(agents[agents.len() - 1].1)
    } else {
        lookup(agents.drop_last(), id)
    }
}

/// The registry contents without the entry that `lookup` would find.
pub open spec fn remove_entry(agents: Seq<(String, Agent)>, id: Seq<char>) -> Seq<
    (String, Agent),
>
    decreases agents.len(),
{
    if agents.len() == 0 {
        agents
    } else if agents[agents.len() - 1].0@ == id {
        agents.drop_last()
    } else {
        remove_entry(agents.drop_last(), id).push(agents[agents.len() - 1])
    }
}

/// The output as the registry hands it back: the agent's output with the
/// agent id overwritten by the registered identifier.
pub open spec fn stamped(out: OutputV, id: Seq<char>) -> OutputV {
    OutputV { agent_id: id, success: out.success, payload: out.payload }
}

/// What one dispatch through the registry guarantees. On a missed lookup the
/// registry is unchanged and the output is the `"Agent Not Found"` error with
/// an empty agent id; otherwise the target agent ran one step against the
/// registry-without-itself, its output was stamped with its registered id,
/// and the registry afterwards holds the stepped agent under that id and is
/// otherwise unchanged.
pub open spec fn route_post(
    pre: Seq<(String, Agent)>,
    post: Seq<(String, Agent)>,
    action: ActionV,
    fuel: u64,
    out: OutputV,
) -> bool {
    let aid = agent_of(action.id);
    match lookup(pre, aid) {
        None => out == error_val("Agent Not Found"@) && post == pre,
        Some(a) => routed_to(pre, post, action, fuel, out, a),
    }
}

/// The found agent `a` ran one step and the registry stamped and re-filed:
/// the witnesses are the stepped agent, the registry contents the step ended
/// in, and the agent's own output.
pub open spec fn routed_to(
    pre: Seq<(String, Agent)>,
    post: Seq<(String, Agent)>,
    action: ActionV,
    fuel: u64,
    out: OutputV,
    a: Agent,
) -> bool {
    exists|a2: Agent, mid: Seq<(String, Agent)>, inner: OutputV|
        #[trigger] dispatched(pre, post, action, fuel, out, a, a2, mid, inner)
}

/// One successful dispatch, in full: the found agent `a` stepped to `a2`
/// against the registry-without-it, ending in registry contents `mid` and
/// output `inner`; the routed output is `inner` stamped with the registered
/// id; and the registry afterwards holds `a2` under that id and is otherwise
/// `mid`.
pub open spec fn dispatched(
    pre: Seq<(String, Agent)>,
    post: Seq<(String, Agent)>,
    action: ActionV,
    fuel: u64,
    out: OutputV,
    a: Agent,
    a2: Agent,
    mid: Seq<(String, Agent)>,
    inner: OutputV,
) -> bool {
    let aid = agent_of(action.id);
    &&& agent_step(a, a2, remove_entry(pre, aid), mid, action, fuel, inner)
    &&& out == stamped(inner, aid)
    &&& forall|k: Seq<char>| #[trigger] lookup(post, k) == if k == aid {
        Some(a2)
    } else {
        lookup(mid, k)
    }
}

/// What executing one action against one agent guarantees, per variant. The
/// self-contained agents answer deterministically and leave the registry
/// alone. Of the workflow agent this per-variant summary keeps only what
/// holds of any nested dispatch — an exhausted budget answers the
/// recursion-limit error; its full behaviour is the contract of
/// `RelayAgent::execute`, which forwards one action through the registry
/// with one unit less budget. Restating that arm here as the nested
/// dispatch relation would make this summary and the routing relation
/// mutually recursive; the existential witnesses inside a relation that
/// recurses on the budget are then guarded by its unrolling and out of a
/// caller's reach, so the precise statement stays on the workflow agent
/// itself.
pub open spec fn agent_step(
    pre: Agent,
    post: Agent,
    swarm_pre: Seq<(String, Agent)>,
    swarm_post: Seq<(String, Agent)>,
    action: ActionV,
    fuel: u64,
    out: OutputV,
) -> bool {
    match pre {
        Agent::Echo(_) => post == pre && swarm_post == swarm_pre && out == echo_output(action),
        Agent::Calc(_) => post == pre && swarm_post == swarm_pre && out == calc_output(action),
        Agent::Relay(_) => post == pre && (fuel == 0 ==> out == error_val(
            "Recursion limit reached"@,
        ) && swarm_post == swarm_pre),
        Agent::Llm(_) => post == pre && swarm_post == swarm_pre && llm_output(action, out),
        Agent::Searx(_) => post == pre && swarm_post == swarm_pre && searx_output(action, out),
        Agent::Auth(a) => swarm_post == swarm_pre && (post matches Agent::Auth(a2)
            && auth_output(a@, a2@, action, out)),
    }
}

/// What the workflow agent guarantees: with budget left, its answer and its
/// effect on the registry are exactly those of dispatching the forwarded
/// action with one unit less; with none, the recursion-limit error.
pub open spec fn relay_step(
    r: RelayAgent,
    swarm_pre: Seq<(String, Agent)>,
    swarm_post: Seq<(String, Agent)>,
    action: ActionV,
    fuel: u64,
    out: OutputV,
) -> bool {
    if fuel == 0 {
        out == error_val("Recursion limit reached"@) && swarm_post == swarm_pre
    } else {
        route_post(
            swarm_pre,
            swarm_post,
            ActionV {
                id: r.target@ + seq!['.'] + operation_of(action.id),
                payload: action.payload,
            },
            (fuel - 1) as u64,
            out,
        )
    }
}

impl Agent {
    /// The dispatch table of the agent: the operation names it handles.
    pub open spec fn handles_op(&self, op: Seq<char>) -> bool {
        match self {
            Agent::Echo(_) => op == "ping"@,
            Agent::Calc(_) => op == "add"@,
            Agent::Relay(_) => true,
            Agent::Llm(_) => op == "execute"@,
            Agent::Searx(_) => op == "search"@,
            Agent::Auth(_) => auth_handles(op),
        }
    }

    /// One step of the agent against the registry it was found in.
    pub fn execute(&mut self, action: &Action, swarm: &mut Swarm, fuel: u64) -> (out: Output)
        ensures
            agent_step(*old(self), *final(self), old(swarm)@, final(swarm)@, action@, fuel, out@),
        decreases fuel, 1int,
    {
        match self {
            Agent::Echo(a) => a.execute(action),
            Agent::Calc(a) => a.execute(action),
            Agent::Relay(a) => a.execute(action, swarm, fuel),
            Agent::Llm(a) => a.handle(action),
            Agent::Searx(a) => a.handle(action),
            Agent::Auth(a) => a.handle(action),
        }
    }
}

/// Appending an entry changes exactly the lookup of its key.
proof fn lemma_lookup_push(agents: Seq<(String, Agent)>, entry: (String, Agent))
    ensures
        forall|k: Seq<char>| #[trigger] lookup(agents.push(entry), k) == if k == entry.0@ {
            Some(entry.1)
        } else {
            lookup(agents, k)
        },
{
    let s2 = agents.push(entry);
    assert(s2[s2.len() - 1] == entry);
    assert(s2.drop_last() =~= agents);
}

/// A matching index with no later match is what `lookup` finds.
proof fn lemma_lookup_at(agents: Seq<(String, Agent)>, id: Seq<char>, i: int)
    requires
        0 <= i < agents.len(),
        agents[i].0@ == id,
        forall|j: int| i < j < agents.len() ==> agents[j].0@ != id,
    ensures
        lookup(agents, id) == Some(agents[i].1),
    decreases agents.len(),
{
    if i < agents.len() - 1 {
        assert(agents.drop_last() =~= agents.subrange(0, agents.len() - 1));
        lemma_lookup_at(agents.drop_last(), id, i);
    }
}

/// No matching key anywhere means `lookup` misses.
proof fn lemma_lookup_none(agents: Seq<(String, Agent)>, id: Seq<char>)
    requires
        forall|j: int| 0 <= j < agents.len() ==> agents[j].0@ != id,
    ensures
        lookup(agents, id) is None,
    decreases agents.len(),
{
    if agents.len() > 0 {
        lemma_lookup_none(agents.drop_last(), id);
    }
}

/// Removing the last matching index is what `remove_entry` removes.
proof fn lemma_remove_at(agents: Seq<(String, Agent)>, id: Seq<char>, i: int)
    requires
        0 <= i < agents.len(),
        agents[i].0@ == id,
        forall|j: int| i < j < agents.len() ==> agents[j].0@ != id,
    ensures
        agents.remove(i) == remove_entry(agents, id),
    decreases agents.len(),
{
    if i == agents.len() - 1 {
        assert(agents.remove(i) =~= agents.drop_last());
    } else {
        lemma_remove_at(agents.drop_last(), id, i);
        assert(agents.remove(i) =~= agents.drop_last().remove(i).push(
            agents[agents.len() - 1],
        ));
    }
}

impl Swarm {
    /// An empty registry.
    pub fn default() -> (s: Swarm)
        ensures
            s@ == Seq::<(String, Agent)>::empty(),
    {
        Swarm { agents: Vec::new() }
    }

    /// An empty registry.
    pub fn new() -> (s: Swarm)
        ensures
            s@ == Seq::<(String, Agent)>::empty(),
    {
        Swarm { agents: Vec::new() }
    }

    /// The agent registered under `id`, if any.
    pub open spec fn agent_at(&self, id: Seq<char>) -> Option<Agent> {
        lookup(self@, id)
    }

    /// Inserts or replaces the entry for `agent_id`.
    pub fn register_agent(&mut self, agent_id: &str, agent: Agent)
        ensures
            final(self).agent_at(agent_id@) == Some(agent),
            forall|k: Seq<char>| k != agent_id@ ==> final(self).agent_at(k) == old(
                self,
            ).agent_at(k),
    {
        let key = agent_id.to_owned();
        proof {
            lemma_lookup_push(self@, (key, agent));
        }
        self.agents.push((key, agent));
    }

    /// The index of the entry `lookup` finds, scanning from the back.
    fn find_agent(&self, agent_id: &str) -> (r: Option<usize>)
        ensures
            match r {
                Some(i) => i < self@.len() && self@[i as int].0@ == agent_id@ && (forall|j: int|
                    i < j < self@.len() ==> self@[j].0@ != agent_id@) && self.agent_at(agent_id@)
                    == Some(self@[i as int].1),
                None => self.agent_at(agent_id@) is None,
            },
    {
        let mut i: usize = self.agents.len();
        while i > 0
            invariant
                i <= self@.len(),
                forall|j: int| i <= j < self@.len() ==> self@[j].0@ != agent_id@,
            decreases i,
        {
            i = i - 1;
            if str_eq(self.agents[i].0.as_str(), agent_id) {
                proof {
                    lemma_lookup_at(self@, agent_id@, i as int);
                }
                return Some(i);
            }
        }
        proof {
            lemma_lookup_none(self@, agent_id@);
        }
        None
    }

    /// Recovers the concrete agent registered under `agent_id`; absent both
    /// when the id is unregistered and for callers to pattern-match further.
    pub fn get_agent(&self, agent_id: &str) -> (r: Option<&Agent>)
        ensures
            match r {
                Some(a) => self.agent_at(agent_id@) == Some(*a),
                None => self.agent_at(agent_id@) is None,
            },
    {
        match self.find_agent(agent_id) {
            Some(i) => Some(&self.agents[i].1),
            None => None,
        }
    }

    /// Builds an action envelope and routes it.
    pub fn execute<T: JsonCodec>(&mut self, action_id: &str, payload: &T) -> (out: Output)
        ensures
            route_post(
                old(self)@,
                final(self)@,
                ActionV { id: action_id@, payload: T::encode_spec(payload@) },
                DEFAULT_FUEL,
                out@,
            ),
    {
        let action = Action::new(action_id, payload);
        self.execute_action(&action)
    }

    /// Routes an action to its target agent with the default budget.
    pub fn execute_action(&mut self, action: &Action) -> (out: Output)
        ensures
            route_post(old(self)@, final(self)@, action@, DEFAULT_FUEL, out@),
    {
        self.execute_action_fueled(action, DEFAULT_FUEL)
    }

    /// The core routing algorithm: parse the agent id, look the agent up —
    /// a miss is the only routing-level error — invoke it against the
    /// registry, and stamp the output with the registered id last.
    pub fn execute_action_fueled(&mut self, action: &Action, fuel: u64) -> (out: Output)
        ensures
            route_post(old(self)@, final(self)@, action@, fuel, out@),
        decreases fuel, 2int,
    {
        let ghost pre = self@;
        let aid = action.get_agent();
        match self.find_agent(aid) {
            None => Output::new_error("Agent Not Found"),
            Some(i) => {
                let ghost a_pre = self@[i as int].1;
                proof {
                    lemma_remove_at(pre, agent_of(action@.id), i as int);
                }
                let entry = self.agents.remove(i);
                let key = entry.0;
                let mut agent = entry.1;
                let mut out = agent.execute(action, self, fuel);
                let ghost mid = self@;
                let ghost inner = out@;
                let ghost a_post = agent;
                out.set_agent_id(key.as_str());
                proof {
                    lemma_lookup_push(mid, (key, a_post));
                }
                self.agents.push((key, agent));
                proof {
                    let aid_v = agent_of(action@.id);
                    assert(lookup(pre, aid_v) == Some(a_pre));
                    assert(out@ == stamped(inner, aid_v));
                    assert(dispatched(pre, self@, action@, fuel, out@, a_pre, a_post, mid, inner));
                    assert(routed_to(pre, self@, action@, fuel, out@, a_pre));
                }
                out
            },
        }
    }
}

/// Law: routing to an unregistered agent id yields the `"Agent Not Found"`
/// error with an empty agent id, for any payload, and leaves the registry
/// unchanged.
pub proof fn lemma_unregistered_agent(
    pre: Seq<(String, Agent)>,
    post: Seq<(String, Agent)>,
    action: ActionV,
    fuel: u64,
    out: OutputV,
)
    requires
        route_post(pre, post, action, fuel, out),
        lookup(pre, agent_of(action.id)) is None,
    ensures
        !out.success,
        out.payload == JsonVal::Str("Agent Not Found"@),
        out.agent_id == Seq::<char>::empty(),
        post == pre,
{
}

/// Law: routing to a registered agent whose dispatch table lacks the
/// operation name yields the `"Unknown action"` error.
pub proof fn lemma_unknown_operation(
    pre: Seq<(String, Agent)>,
    post: Seq<(String, Agent)>,
    action: ActionV,
    fuel: u64,
    out: OutputV,
)
    requires
        route_post(pre, post, action, fuel, out),
        lookup(pre, agent_of(action.id)) is Some,
        !lookup(pre, agent_of(action.id))->Some_0.handles_op(operation_of(action.id)),
    ensures
        !out.success,
        out.payload == JsonVal::Str("Unknown action"@),
{
    let aid = agent_of(action.id);
    let a = lookup(pre, aid)->Some_0;
    assert(routed_to(pre, post, action, fuel, out, a));
    let (a2, mid, inner) = choose|a2: Agent, mid: Seq<(String, Agent)>, inner: OutputV|
        #[trigger] dispatched(pre, post, action, fuel, out, a, a2, mid, inner);
    assert(inner == error_val("Unknown action"@));
}

/// Law: whenever the target agent is registered, the registry — not the
/// agent — fills in the agent id: the output of routing carries the
/// registered id, whatever the agent (a workflow agent included) reported.
pub proof fn lemma_output_stamped(
    pre: Seq<(String, Agent)>,
    post: Seq<(String, Agent)>,
    action: ActionV,
    fuel: u64,
    out: OutputV,
)
    requires
        route_post(pre, post, action, fuel, out),
        lookup(pre, agent_of(action.id)) is Some,
    ensures
        out.agent_id == agent_of(action.id),
{
    let aid = agent_of(action.id);
    let a = lookup(pre, aid)->Some_0;
    assert(routed_to(pre, post, action, fuel, out, a));
    let (a2, mid, inner) = choose|a2: Agent, mid: Seq<(String, Agent)>, inner: OutputV|
        #[trigger] dispatched(pre, post, action, fuel, out, a, a2, mid, inner);
    assert(out == stamped(inner, aid));
}

} // verus!
