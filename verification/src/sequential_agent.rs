//! The composite that runs its children one after the other.

use crate::base_agent::{callbacks_of, is_copy_of, single_callback, AgentPlan, BaseAgent};
use crate::common::{
    any_escalation, clone_handles, failure_of, handle_names, has_escalation, outcome_of,
    AgentError, AgentErrorView, AgentHandle, Event, Outcome,
};
use crate::composition::{events_of, is_calm};
use crate::invocation_context::{
    text_of,
    child_branch, derive_branch, InvocationContext, InvocationContextView,
};
use vstd::prelude::*;

verus! {

/// What a sequential run is, to contracts.
pub ghost struct SequentialRunView {
    pub context: InvocationContextView,
    pub children: Seq<Seq<char>>,
    pub next: nat,
    pub events: Seq<Event>,
    pub escalated: bool,
    pub failure: Option<AgentErrorView>,
}

impl SequentialRunView {
    /// The run that a composite over `children` opens with under `context`.
    pub open spec fn opening(context: InvocationContextView, children: Seq<Seq<char>>)
        -> SequentialRunView {
        SequentialRunView {
            context,
            children,
            next: 0,
            events: Seq::<Event>::empty(),
            escalated: false,
            failure: None,
        }
    }

    /// A run has not gone past its last child.
    pub open spec fn wf(self) -> bool {
        self.next <= self.children.len()
    }

    /// The position of the child to run next; none once a child has
    /// escalated or failed, or all have run.
    pub open spec fn next_child(self) -> Option<nat> {
        if !self.escalated && self.failure is None && self.next < self.children.len() {
            Some(self.next)
        } else {
            None
        }
    }

    /// The run after the child that it asked for has come to `outcome`. A
    /// report that was not asked for changes nothing.
    pub open spec fn child_done(self, outcome: Outcome) -> SequentialRunView {
        match self.next_child() {
            Some(at) => match outcome {
                Ok(events) => SequentialRunView {
                    events: self.events + events,
                    escalated: has_escalation(events),
                    next: at + 1,
                    ..self
                },
                Err(error) => SequentialRunView {
                    failure: Some(
                        AgentErrorView::ChildFailure(
                            child_branch(self.context.branch, self.children[at as int]),
                            Box::new(error),
                        ),
                    ),
                    next: at + 1,
                    ..self
                },
            },
            None => self,
        }
    }

    /// What the run came to, once it asks for no further child: the failure
    /// of the child that failed, or else the events of the children that
    /// ran, in their order.
    pub open spec fn outcome(self) -> Option<Outcome> {
        if self.next_child() is None {
            match self.failure {
                Some(error) => Some(Err(error)),
                None => Some(Ok(self.events)),
            }
        } else {
            None
        }
    }

    /// The run after the children have come to `outcomes`, one after the
    /// other.
    pub open spec fn after_children(self, outcomes: Seq<Outcome>) -> SequentialRunView
        decreases outcomes.len(),
    {
        if outcomes.len() == 0 {
            self
        } else {
            self.after_children(outcomes.drop_last()).child_done(outcomes.last())
        }
    }
}

/// One pass of a sequential composite over its children, as far as it has
/// come. The run names the child to invoke next, the caller invokes it with
/// the run's context and reports its result.
pub struct SequentialRun {
    context: InvocationContext,
    children: Vec<AgentHandle>,
    next: usize,
    events: Vec<Event>,
    escalated: bool,
    failure: Option<AgentError>,
}

impl View for SequentialRun {
    type V = SequentialRunView;

    closed spec fn view(&self) -> SequentialRunView {
        SequentialRunView {
            context: self.context@,
            children: handle_names(self.children@),
            next: self.next as nat,
            events: self.events@,
            escalated: self.escalated,
            failure: failure_of(self.failure),
        }
    }
}

impl SequentialRun {
    #[verifier::type_invariant]
    spec fn well_formed(self) -> bool {
        self@.wf()
    }

    /// Opens a pass over `children` under `context`.
    pub fn open(context: &InvocationContext, children: &Vec<AgentHandle>) -> (run: SequentialRun)
        ensures
            run@ == SequentialRunView::opening(context@, handle_names(children@)),
            run@.wf(),
    {
        SequentialRun {
            context: InvocationContext::copy_of(context),
            children: clone_handles(children),
            next: 0,
            events: Vec::new(),
            escalated: false,
            failure: None,
        }
    }

    /// The position, in the composite's list, of the child to invoke next.
    pub fn next_child(&self) -> (at: Option<usize>)
        ensures
            match at {
                Some(position) => self@.next_child() == Some(position as nat),
                None => self@.next_child() is None,
            },
            self@.wf(),
    {
        proof {
            use_type_invariant(self);
        }
        if !self.escalated && self.failure.is_none() && self.next < self.children.len() {
            Some(self.next)
        } else {
            None
        }
    }

    /// The context that each child is invoked with: the one that the
    /// composite holds. Each child derives its own from it.
    pub fn context(&self) -> (ctx: &InvocationContext)
        ensures
            ctx@ == self@.context,
    {
        &self.context
    }

    /// Takes the result of the child that the run asked for. Its events are
    /// appended to the run's; if one of them escalates, no further child is
    /// asked for. Its error ends the run as the failure of that child.
    pub fn child_done(self, result: Result<Vec<Event>, AgentError>) -> (next: SequentialRun)
        ensures
            next@ == self@.child_done(outcome_of(result)),
            next@.wf(),
    {
        proof {
            use_type_invariant(&self);
        }
        let at = match self.next_child() {
            Some(at) => at,
            None => {
                return self;
            },
        };
        assert(at < self.children.len());
        match result {
            Ok(mut produced) => {
                let escalated = any_escalation(&produced);
                let mut events = self.events;
                events.append(&mut produced);
                SequentialRun {
                    context: self.context,
                    children: self.children,
                    next: at + 1,
                    events,
                    escalated,
                    failure: self.failure,
                }
            },
            Err(error) => {
                let branch = derive_branch(self.context.branch(), self.children[at].name());
                SequentialRun {
                    context: self.context,
                    children: self.children,
                    next: at + 1,
                    events: self.events,
                    escalated: self.escalated,
                    failure: Some(AgentError::child_failure(branch, error)),
                }
            },
        }
    }

    /// The outcome of the pass, once no further child is asked for. Nothing
    /// while the run still asks for one.
    pub fn finish(self) -> (outcome: Option<Result<Vec<Event>, AgentError>>)
        ensures
            match outcome {
                Some(result) => self@.outcome() == Some(outcome_of(result)),
                None => self@.outcome() is None,
            },
    {
        if self.next_child().is_some() {
            return None;
        }
        match self.failure {
            Some(error) => Some(Err(error)),
            None => Some(Ok(self.events)),
        }
    }
}

/// A composite that runs its children strictly in the order of its list.
#[derive(Debug)]
pub struct SequentialAgent<C> {
    base: BaseAgent<C>,
}

/// Incremental configuration of a [`SequentialAgent`].
#[derive(Debug)]
pub struct SequentialAgentBuilder<C> {
    name: Option<String>,
    description: Option<String>,
    sub_agents: Vec<AgentHandle>,
    before_agent_callback: Option<Vec<C>>,
    after_agent_callback: Option<Vec<C>>,
}

impl<C> View for SequentialAgentBuilder<C> {
    type V = AgentPlan<C>;

    closed spec fn view(&self) -> AgentPlan<C> {
        AgentPlan {
            name: text_of(self.name),
            description: text_of(self.description),
            sub_agents: self.sub_agents@,
            before_agent_callback: callbacks_of(self.before_agent_callback),
            after_agent_callback: callbacks_of(self.after_agent_callback),
        }
    }
}

impl<C> SequentialAgent<C> {
    /// The agent that the composite builds on.
    pub closed spec fn spec_base(&self) -> &BaseAgent<C> {
        &self.base
    }

    /// The agent that the composite builds on: its name, its children and
    /// its callbacks, and the pipeline that each invocation of it runs.
    #[verifier::when_used_as_spec(spec_base)]
    pub fn base(&self) -> (base: &BaseAgent<C>)
        ensures
            base == self.spec_base(),
    {
        &self.base
    }

    pub fn builder() -> (b: SequentialAgentBuilder<C>)
        ensures
            b@ == AgentPlan::<C>::blank(),
    {
        SequentialAgentBuilder {
            name: None,
            description: None,
            sub_agents: Vec::new(),
            before_agent_callback: None,
            after_agent_callback: None,
        }
    }

    /// The composite's own step: opens a pass over its children, each of
    /// which is invoked with `context`.
    pub fn run_async_impl(&self, context: &InvocationContext) -> (run: SequentialRun)
        ensures
            run@ == SequentialRunView::opening(context@, handle_names(self.base().sub_agents@)),
            run@.wf(),
    {
        SequentialRun::open(context, &self.base.sub_agents)
    }

    /// The composite's own step in live mode, which is the same pass.
    pub fn run_live_impl(&self, context: &InvocationContext) -> (run: SequentialRun)
        ensures
            run@ == SequentialRunView::opening(context@, handle_names(self.base().sub_agents@)),
            run@.wf(),
    {
        SequentialRun::open(context, &self.base.sub_agents)
    }
}

impl<C: Clone> Clone for SequentialAgent<C> {
    fn clone(&self) -> (agent: Self)
        ensures
            agent.base().name == self.base().name,
            agent.base().description == self.base().description,
            agent.base().parent_agent == self.base().parent_agent,
            agent.base().sub_agents@ == self.base().sub_agents@,
            is_copy_of(agent.base().before_agent_callback, self.base().before_agent_callback),
            is_copy_of(agent.base().after_agent_callback, self.base().after_agent_callback),
    {
        SequentialAgent { base: self.base.clone() }
    }
}

impl<C> SequentialAgentBuilder<C> {
    pub fn name(self, name: String) -> (b: Self)
        ensures
            b@ == (AgentPlan { name: Some(name@), ..self@ }),
    {
        let mut b = self;
        b.name = Some(name);
        b
    }

    pub fn description(self, description: String) -> (b: Self)
        ensures
            b@ == (AgentPlan { description: Some(description@), ..self@ }),
    {
        let mut b = self;
        b.description = Some(description);
        b
    }

    pub fn sub_agents(self, sub_agents: Vec<AgentHandle>) -> (b: Self)
        ensures
            b@ == (AgentPlan { sub_agents: sub_agents@, ..self@ }),
    {
        let mut b = self;
        b.sub_agents = sub_agents;
        b
    }

    /// Sets the one callback that comes before the agent's own step, in
    /// place of any that was set.
    pub fn before_agent_callback(self, callback: C) -> (b: Self)
        ensures
            b@ == (AgentPlan { before_agent_callback: Some(seq![callback]), ..self@ }),
    {
        let mut b = self;
        b.before_agent_callback = Some(single_callback(callback));
        b
    }

    /// Sets the one callback that comes after the agent's own step, in place
    /// of any that was set.
    pub fn after_agent_callback(self, callback: C) -> (b: Self)
        ensures
            b@ == (AgentPlan { after_agent_callback: Some(seq![callback]), ..self@ }),
    {
        let mut b = self;
        b.after_agent_callback = Some(single_callback(callback));
        b
    }

    pub fn build(self) -> (agent: SequentialAgent<C>)
        ensures
            self@.describes(*agent.base()),
    {
        let name = match self.name {
            Some(name) => name,
            None => String::new(),
        };
        let description = match self.description {
            Some(description) => description,
            None => String::new(),
        };
        SequentialAgent {
            base: BaseAgent::new(
                name,
                description,
                self.sub_agents,
                self.before_agent_callback,
                self.after_agent_callback,
            ),
        }
    }
}

/// While the children succeed and none escalates, they are asked for in the
/// order of the list, and the events of each are appended in that order.
pub proof fn lemma_sequential_in_order(run: SequentialRunView, outcomes: Seq<Outcome>)
    requires
        run.wf(),
        !run.escalated,
        run.failure is None,
        run.next + outcomes.len() <= run.children.len(),
        forall|i: int| 0 <= i < outcomes.len() ==> is_calm(#[trigger] outcomes[i]),
    ensures
        run.after_children(outcomes) == (SequentialRunView {
            next: run.next + outcomes.len(),
            events: run.events + events_of(outcomes),
            ..run
        }),
    decreases outcomes.len(),
{
    if outcomes.len() == 0 {
        assert(run.events + events_of(outcomes) =~= run.events);
    } else {
        let earlier = outcomes.drop_last();
        lemma_sequential_in_order(run, earlier);
        assert(is_calm(outcomes.last()));
        let events = outcomes.last()->Ok_0;
        assert((run.events + events_of(earlier)) + events =~= run.events + events_of(outcomes));
    }
}

/// When every child has succeeded without escalating, the pass is done, and
/// its events are those of the children in the order of the list.
pub proof fn lemma_sequential_runs_all(
    context: InvocationContextView,
    children: Seq<Seq<char>>,
    outcomes: Seq<Outcome>,
)
    requires
        outcomes.len() == children.len(),
        forall|i: int| 0 <= i < outcomes.len() ==> is_calm(#[trigger] outcomes[i]),
    ensures
        SequentialRunView::opening(context, children).after_children(outcomes).outcome() == Some(
            Ok::<Seq<Event>, AgentErrorView>(events_of(outcomes)),
        ),
{
    let run = SequentialRunView::opening(context, children);
    lemma_sequential_in_order(run, outcomes);
    assert(run.events + events_of(outcomes) =~= events_of(outcomes));
}

/// A child whose events escalate is the last to run: the pass is done with
/// the events of the children up to and including that child, and whatever
/// is reported afterwards changes nothing, since no later child was asked
/// for.
pub proof fn lemma_escalation_stops_siblings(
    context: InvocationContextView,
    children: Seq<Seq<char>>,
    calm: Seq<Outcome>,
    escalating: Seq<Event>,
    later: Outcome,
)
    requires
        calm.len() < children.len(),
        forall|i: int| 0 <= i < calm.len() ==> is_calm(#[trigger] calm[i]),
        has_escalation(escalating),
    ensures
        ({
            let run = SequentialRunView::opening(context, children).after_children(
                calm.push(Ok(escalating)),
            );
            &&& run.next_child() is None
            &&& run.next == calm.len() + 1
            &&& run.outcome() == Some(
                Ok::<Seq<Event>, AgentErrorView>(events_of(calm) + escalating),
            )
            &&& run.child_done(later) == run
        }),
{
    let start = SequentialRunView::opening(context, children);
    lemma_sequential_in_order(start, calm);
    let all = calm.push(Ok(escalating));
    assert(all.drop_last() =~= calm);
    assert(start.events + events_of(calm) =~= events_of(calm));
}

/// A child that fails is the last to run: the pass is done and comes to the
/// failure of that child, which names the child's branch and holds the
/// child's error.
pub proof fn lemma_failure_stops_siblings(
    context: InvocationContextView,
    children: Seq<Seq<char>>,
    calm: Seq<Outcome>,
    error: AgentErrorView,
    later: Outcome,
)
    requires
        calm.len() < children.len(),
        forall|i: int| 0 <= i < calm.len() ==> is_calm(#[trigger] calm[i]),
    ensures
        ({
            let run = SequentialRunView::opening(context, children).after_children(
                calm.push(Err(error)),
            );
            &&& run.next_child() is None
            &&& run.outcome() == Some(
                Err::<Seq<Event>, AgentErrorView>(
                    AgentErrorView::ChildFailure(
                        child_branch(context.branch, children[calm.len() as int]),
                        Box::new(error),
                    ),
                ),
            )
            &&& run.child_done(later) == run
        }),
{
    let start = SequentialRunView::opening(context, children);
    lemma_sequential_in_order(start, calm);
    let all = calm.push(Err(error));
    assert(all.drop_last() =~= calm);
}

} // verus!
