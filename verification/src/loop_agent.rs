//! The composite that repeats a pass over its children until one of them
//! escalates or a bound on the passes is reached.

use crate::base_agent::{callbacks_of, is_copy_of, single_callback, AgentPlan, BaseAgent};
use crate::common::{
    any_escalation, clone_handles, failure_of, handle_names, has_escalation, outcome_of,
    AgentError, AgentErrorView, AgentHandle, Event, Outcome,
};
use crate::composition::{events_of, is_calm};
use crate::invocation_context::{
    child_branch, derive_branch, text_of, InvocationContext, InvocationContextView,
};
use vstd::prelude::*;
use vstd::string::StringExecFns;

verus! {

/// The passes that a bound of `max_iterations` allows: as many as it says,
/// none where it is negative, and any number where there is no bound.
pub open spec fn passes_allowed(max_iterations: Option<i32>) -> Option<nat> {
    match max_iterations {
        Some(bound) => Some(
            if bound > 0 {
                bound as nat
            } else {
                0
            },
        ),
        None => None,
    }
}

/// The passes left after one more is complete.
pub open spec fn one_pass_less(remaining: Option<nat>) -> Option<nat> {
    match remaining {
        Some(left) => Some((left - 1) as nat),
        None => None,
    }
}

/// What a loop run is, to contracts.
pub ghost struct LoopRunView {
    pub context: InvocationContextView,
    pub children: Seq<Seq<char>>,
    /// The passes that may still be completed; none where there is no bound.
    pub remaining: Option<nat>,
    pub next: nat,
    pub events: Seq<Event>,
    pub escalated: bool,
    pub failure: Option<AgentErrorView>,
}

impl LoopRunView {
    /// The run that a loop over `children` opens with under `context`.
    pub open spec fn opening(
        context: InvocationContextView,
        children: Seq<Seq<char>>,
        max_iterations: Option<i32>,
    ) -> LoopRunView {
        LoopRunView {
            context,
            children,
            remaining: passes_allowed(max_iterations),
            next: 0,
            events: Seq::<Event>::empty(),
            escalated: false,
            failure: None,
        }
    }

    /// The next child is one of the list, and a bound fits the machine.
    pub open spec fn wf(self) -> bool {
        &&& self.children.len() == 0 ==> self.next == 0
        &&& self.children.len() > 0 ==> self.next < self.children.len()
        &&& self.remaining matches Some(left) ==> left <= u32::MAX
    }

    /// The position of the child to run next; none where the loop has no
    /// children, once a child has escalated or failed, or when no pass is
    /// left.
    pub open spec fn next_child(self) -> Option<nat> {
        if self.children.len() > 0 && !self.escalated && self.failure is None && self.remaining
            != Some(0nat) {
            Some(self.next)
        } else {
            None
        }
    }

    /// The run after the child that it asked for has come to `outcome`. A
    /// report that was not asked for changes nothing.
    pub open spec fn child_done(self, outcome: Outcome) -> LoopRunView {
        match self.next_child() {
            Some(at) => match outcome {
                Ok(events) => if has_escalation(events) {
                    LoopRunView { events: self.events + events, escalated: true, ..self }
                } else if at + 1 < self.children.len() {
                    LoopRunView { events: self.events + events, next: at + 1, ..self }
                } else {
                    LoopRunView {
                        events: self.events + events,
                        next: 0,
                        remaining: one_pass_less(self.remaining),
                        ..self
                    }
                },
                Err(error) => LoopRunView {
                    failure: Some(
                        AgentErrorView::ChildFailure(
                            child_branch(self.context.branch, self.children[at as int]),
                            Box::new(error),
                        ),
                    ),
                    ..self
                },
            },
            None => self,
        }
    }

    /// What the run came to, once it asks for no further child: the failure
    /// of the child that failed, or else all events of all passes in the
    /// order in which the children ran.
    pub open spec fn outcome(self) -> Option<Outcome> {
        if self.next_child() is None {
            match self.failure {
                Some(error) => Some(Err(error)),
                None => Some(Ok(self.events)),
            }
        } else {
            None
        }
    }

    /// The run after the children that it asked for have come to `outcomes`,
    /// one after the other.
    pub open spec fn after_children(self, outcomes: Seq<Outcome>) -> LoopRunView
        decreases outcomes.len(),
    {
        if outcomes.len() == 0 {
            self
        } else {
            self.after_children(outcomes.drop_last()).child_done(outcomes.last())
        }
    }
}

/// The passes of a loop over its children, as far as they have come. The run
/// names the child to invoke next, the caller invokes it with the run's
/// context and reports its result.
pub struct LoopRun {
    context: InvocationContext,
    children: Vec<AgentHandle>,
    remaining: Option<u32>,
    next: usize,
    events: Vec<Event>,
    escalated: bool,
    failure: Option<AgentError>,
}

impl View for LoopRun {
    type V = LoopRunView;

    closed spec fn view(&self) -> LoopRunView {
        LoopRunView {
            context: self.context@,
            children: handle_names(self.children@),
            remaining: match self.remaining {
                Some(left) => Some(left as nat),
                None => None,
            },
            next: self.next as nat,
            events: self.events@,
            escalated: self.escalated,
            failure: failure_of(self.failure),
        }
    }
}

impl LoopRun {
    #[verifier::type_invariant]
    spec fn well_formed(self) -> bool {
        self@.wf()
    }

    /// Opens the passes over `children` under `context`, at most
    /// `max_iterations` of them where that is set.
    pub fn open(
        context: &InvocationContext,
        children: &Vec<AgentHandle>,
        max_iterations: Option<i32>,
    ) -> (run: LoopRun)
        ensures
            run@ == LoopRunView::opening(context@, handle_names(children@), max_iterations),
            run@.wf(),
    {
        let remaining = match max_iterations {
            Some(bound) => Some(
                if bound > 0 {
                    bound as u32
                } else {
                    0
                },
            ),
            None => None,
        };
        LoopRun {
            context: InvocationContext::copy_of(context),
            children: clone_handles(children),
            remaining,
            next: 0,
            events: Vec::new(),
            escalated: false,
            failure: None,
        }
    }

    /// The position, in the loop's list, of the child to invoke next.
    pub fn next_child(&self) -> (at: Option<usize>)
        ensures
            match at {
                Some(position) => self@.next_child() == Some(position as nat),
                None => self@.next_child() is None,
            },
            self@.wf(),
    {
        proof {
            use_type_invariant(self);
        }
        let exhausted = match self.remaining {
            Some(left) => left == 0,
            None => false,
        };
        if self.children.len() > 0 && !self.escalated && self.failure.is_none() && !exhausted {
            Some(self.next)
        } else {
            None
        }
    }

    /// The context that each child is invoked with: the one that the loop
    /// holds. Each child derives its own from it.
    pub fn context(&self) -> (ctx: &InvocationContext)
        ensures
            ctx@ == self@.context,
    {
        &self.context
    }

    /// Takes the result of the child that the run asked for. Its events are
    /// appended to the run's. If one of them escalates, the loop ends there.
    /// Otherwise the next child of the pass follows, or the first child of
    /// the next pass where one is left. Its error ends the run as the
    /// failure of that child.
    pub fn child_done(self, result: Result<Vec<Event>, AgentError>) -> (next: LoopRun)
        ensures
            next@ == self@.child_done(outcome_of(result)),
            next@.wf(),
    {
        proof {
            use_type_invariant(&self);
        }
        let at = match self.next_child() {
            Some(at) => at,
            None => {
                return self;
            },
        };
        assert(at < self.children.len());
        match result {
            Ok(mut produced) => {
                let escalated = any_escalation(&produced);
                let mut events = self.events;
                events.append(&mut produced);
                if escalated {
                    LoopRun {
                        context: self.context,
                        children: self.children,
                        remaining: self.remaining,
                        next: self.next,
                        events,
                        escalated: true,
                        failure: self.failure,
                    }
                } else if at + 1 < self.children.len() {
                    LoopRun {
                        context: self.context,
                        children: self.children,
                        remaining: self.remaining,
                        next: at + 1,
                        events,
                        escalated: self.escalated,
                        failure: self.failure,
                    }
                } else {
                    let remaining = match self.remaining {
                        Some(left) => Some(left - 1),
                        None => None,
                    };
                    LoopRun {
                        context: self.context,
                        children: self.children,
                        remaining,
                        next: 0,
                        events,
                        escalated: self.escalated,
                        failure: self.failure,
                    }
                }
            },
            Err(error) => {
                let branch = derive_branch(self.context.branch(), self.children[at].name());
                LoopRun {
                    context: self.context,
                    children: self.children,
                    remaining: self.remaining,
                    next: self.next,
                    events: self.events,
                    escalated: self.escalated,
                    failure: Some(AgentError::child_failure(branch, error)),
                }
            },
        }
    }

    /// The outcome of the loop, once no further child is asked for. Nothing
    /// while the run still asks for one.
    pub fn finish(self) -> (outcome: Option<Result<Vec<Event>, AgentError>>)
        ensures
            match outcome {
                Some(result) => self@.outcome() == Some(outcome_of(result)),
                None => self@.outcome() is None,
            },
    {
        if self.next_child().is_some() {
            return None;
        }
        match self.failure {
            Some(error) => Some(Err(error)),
            None => Some(Ok(self.events)),
        }
    }
}

/// A composite that repeats the pass over its children.
#[derive(Debug)]
pub struct LoopAgent<C> {
    base: BaseAgent<C>,
    max_iterations: Option<i32>,
}

/// Incremental configuration of a [`LoopAgent`].
#[derive(Debug)]
pub struct LoopAgentBuilder<C> {
    name: Option<String>,
    description: Option<String>,
    sub_agents: Vec<AgentHandle>,
    max_iterations: Option<i32>,
    before_agent_callback: Option<Vec<C>>,
    after_agent_callback: Option<Vec<C>>,
}

/// What the builder of a loop has been told so far.
pub ghost struct LoopPlan<C> {
    pub agent: AgentPlan<C>,
    pub max_iterations: Option<i32>,
}

impl<C> View for LoopAgentBuilder<C> {
    type V = LoopPlan<C>;

    closed spec fn view(&self) -> LoopPlan<C> {
        LoopPlan {
            agent: AgentPlan {
                name: text_of(self.name),
                description: text_of(self.description),
                sub_agents: self.sub_agents@,
                before_agent_callback: callbacks_of(self.before_agent_callback),
                after_agent_callback: callbacks_of(self.after_agent_callback),
            },
            max_iterations: self.max_iterations,
        }
    }
}

impl<C> LoopAgent<C> {
    /// The agent that the loop builds on.
    pub closed spec fn spec_base(&self) -> &BaseAgent<C> {
        &self.base
    }

    /// The bound on the passes, if there is one.
    pub closed spec fn spec_max_iterations(&self) -> Option<i32> {
        self.max_iterations
    }

    /// The agent that the loop builds on: its name, its children and its
    /// callbacks, and the pipeline that each invocation of it runs.
    #[verifier::when_used_as_spec(spec_base)]
    pub fn base(&self) -> (base: &BaseAgent<C>)
        ensures
            base == self.spec_base(),
    {
        &self.base
    }

    /// The bound on the passes, if there is one.
    #[verifier::when_used_as_spec(spec_max_iterations)]
    pub fn max_iterations(&self) -> (bound: Option<i32>)
        ensures
            bound == self.spec_max_iterations(),
    {
        self.max_iterations
    }

    pub fn builder() -> (b: LoopAgentBuilder<C>)
        ensures
            b@ == (LoopPlan { agent: AgentPlan::<C>::blank(), max_iterations: None }),
    {
        LoopAgentBuilder {
            name: None,
            description: None,
            sub_agents: Vec::new(),
            max_iterations: None,
            before_agent_callback: None,
            after_agent_callback: None,
        }
    }

    /// The loop's own step: opens the passes over its children, each of
    /// which is invoked with `context`.
    pub fn run_async_impl(&self, context: &InvocationContext) -> (run: LoopRun)
        ensures
            run@ == LoopRunView::opening(
                context@,
                handle_names(self.base().sub_agents@),
                self.max_iterations(),
            ),
            run@.wf(),
    {
        LoopRun::open(context, &self.base.sub_agents, self.max_iterations)
    }

    /// A loop has no live mode.
    pub fn run_live_impl(&self, _context: &InvocationContext) -> (r: Result<Vec<Event>, AgentError>)
        ensures
            r matches Err(error) && error@ == AgentErrorView::UnsupportedOperation(
                "run_live not implemented for LoopAgent"@,
            ),
    {
        Err(
            AgentError::UnsupportedOperation(
                String::from_str("run_live not implemented for LoopAgent"),
            ),
        )
    }
}

impl<C: Clone> Clone for LoopAgent<C> {
    fn clone(&self) -> (agent: Self)
        ensures
            agent.base().name == self.base().name,
            agent.base().description == self.base().description,
            agent.base().parent_agent == self.base().parent_agent,
            agent.base().sub_agents@ == self.base().sub_agents@,
            is_copy_of(agent.base().before_agent_callback, self.base().before_agent_callback),
            is_copy_of(agent.base().after_agent_callback, self.base().after_agent_callback),
            agent.max_iterations() == self.max_iterations(),
    {
        LoopAgent { base: self.base.clone(), max_iterations: self.max_iterations }
    }
}

impl<C> LoopAgentBuilder<C> {
    pub fn name(self, name: String) -> (b: Self)
        ensures
            b@ == (LoopPlan { agent: AgentPlan { name: Some(name@), ..self@.agent }, ..self@ }),
    {
        let mut b = self;
        b.name = Some(name);
        b
    }

    pub fn description(self, description: String) -> (b: Self)
        ensures
            b@ == (LoopPlan {
                agent: AgentPlan { description: Some(description@), ..self@.agent },
                ..self@
            }),
    {
        let mut b = self;
        b.description = Some(description);
        b
    }

    pub fn sub_agents(self, sub_agents: Vec<AgentHandle>) -> (b: Self)
        ensures
            b@ == (LoopPlan {
                agent: AgentPlan { sub_agents: sub_agents@, ..self@.agent },
                ..self@
            }),
    {
        let mut b = self;
        b.sub_agents = sub_agents;
        b
    }

    pub fn max_iterations(self, max_iterations: i32) -> (b: Self)
        ensures
            b@ == (LoopPlan { max_iterations: Some(max_iterations), ..self@ }),
    {
        let mut b = self;
        b.max_iterations = Some(max_iterations);
        b
    }

    /// Sets the one callback that comes before the agent's own step, in
    /// place of any that was set.
    pub fn before_agent_callback(self, callback: C) -> (b: Self)
        ensures
            b@ == (LoopPlan {
                agent: AgentPlan { before_agent_callback: Some(seq![callback]), ..self@.agent },
                ..self@
            }),
    {
        let mut b = self;
        b.before_agent_callback = Some(single_callback(callback));
        b
    }

    /// Sets the one callback that comes after the agent's own step, in place
    /// of any that was set.
    pub fn after_agent_callback(self, callback: C) -> (b: Self)
        ensures
            b@ == (LoopPlan {
                agent: AgentPlan { after_agent_callback: Some(seq![callback]), ..self@.agent },
                ..self@
            }),
    {
        let mut b = self;
        b.after_agent_callback = Some(single_callback(callback));
        b
    }

    pub fn build(self) -> (agent: LoopAgent<C>)
        ensures
            self@.agent.describes(*agent.base()),
            agent.max_iterations() == self@.max_iterations,
    {
        let name = match self.name {
            Some(name) => name,
            None => String::new(),
        };
        let description = match self.description {
            Some(description) => description,
            None => String::new(),
        };
        LoopAgent {
            base: BaseAgent::new(
                name,
                description,
                self.sub_agents,
                self.before_agent_callback,
                self.after_agent_callback,
            ),
            max_iterations: self.max_iterations,
        }
    }
}

/// A loop that still has `left` passes, or no bound, can complete `passes`.
pub open spec fn allows(remaining: Option<nat>, passes: nat) -> bool {
    remaining matches Some(left) ==> passes <= left
}

/// The passes left after `passes` more are complete.
pub open spec fn passes_less(remaining: Option<nat>, passes: nat) -> Option<nat> {
    match remaining {
        Some(left) => Some((left - passes) as nat),
        None => None,
    }
}

/// While the children succeed and none escalates, the loop asks for them in
/// the order of the list, pass after pass, and appends the events of each in
/// that order. After `passes` complete passes and `extra` children of the
/// next one it has used up `passes` of its bound and stands at child `extra`.
pub proof fn lemma_loop_in_order(
    run: LoopRunView,
    passes: nat,
    extra: nat,
    outcomes: Seq<Outcome>,
)
    requires
        run.wf(),
        run.next == 0,
        !run.escalated,
        run.failure is None,
        extra < run.children.len(),
        allows(run.remaining, passes),
        extra > 0 ==> run.remaining != Some(passes),
        outcomes.len() == passes * run.children.len() + extra,
        forall|i: int| 0 <= i < outcomes.len() ==> is_calm(#[trigger] outcomes[i]),
    ensures
        run.after_children(outcomes) == (LoopRunView {
            next: extra,
            remaining: passes_less(run.remaining, passes),
            events: run.events + events_of(outcomes),
            ..run
        }),
    decreases outcomes.len(),
{
    let n = run.children.len();
    if outcomes.len() == 0 {
        assert(passes == 0) by (nonlinear_arith)
            requires
                passes * n + extra == 0,
                n > 0,
        ;
        assert(run.events + events_of(outcomes) =~= run.events);
        assert(passes_less(run.remaining, 0) == run.remaining);
    } else {
        let earlier = outcomes.drop_last();
        assert(is_calm(outcomes.last()));
        let events = outcomes.last()->Ok_0;
        if extra > 0 {
            lemma_loop_in_order(run, passes, (extra - 1) as nat, earlier);
            let mid = run.after_children(earlier);
            assert(mid.next_child() == Some((extra - 1) as nat));
        } else {
            assert(passes > 0) by (nonlinear_arith)
                requires
                    passes * n + extra > 0,
                    extra == 0,
            ;
            assert((passes - 1) * n + (n - 1) == passes * n + extra - 1) by (nonlinear_arith)
                requires
                    extra == 0,
            ;
            lemma_loop_in_order(run, (passes - 1) as nat, (n - 1) as nat, earlier);
            let mid = run.after_children(earlier);
            assert(mid.next_child() == Some((n - 1) as nat));
        }
        assert((run.events + events_of(earlier)) + events =~= run.events + events_of(outcomes));
    }
}

/// A loop bounded by `max_iterations` whose children never escalate runs
/// exactly that many full passes: it is done when the last child of the last
/// pass has run, with the events of all of them in order, and not before.
pub proof fn lemma_loop_runs_bounded_passes(
    context: InvocationContextView,
    children: Seq<Seq<char>>,
    max_iterations: i32,
    outcomes: Seq<Outcome>,
    shorter: int,
)
    requires
        children.len() > 0,
        max_iterations >= 0,
        outcomes.len() == max_iterations * children.len(),
        forall|i: int| 0 <= i < outcomes.len() ==> is_calm(#[trigger] outcomes[i]),
        0 <= shorter < outcomes.len(),
    ensures
        LoopRunView::opening(context, children, Some(max_iterations)).after_children(
            outcomes,
        ).outcome() == Some(Ok::<Seq<Event>, AgentErrorView>(events_of(outcomes))),
        LoopRunView::opening(context, children, Some(max_iterations)).after_children(
            outcomes.take(shorter),
        ).next_child() == Some((shorter % (children.len() as int)) as nat),
{
    let run = LoopRunView::opening(context, children, Some(max_iterations));
    let n = children.len() as int;
    lemma_loop_in_order(run, max_iterations as nat, 0, outcomes);
    assert(run.events + events_of(outcomes) =~= events_of(outcomes));
    let passes = shorter / n;
    let extra = shorter % n;
    assert(shorter == passes * n + extra && 0 <= extra < n && 0 <= passes < max_iterations)
        by (nonlinear_arith)
        requires
            passes == shorter / n,
            extra == shorter % n,
            n > 0,
            0 <= shorter < max_iterations * n,
    ;
    lemma_loop_in_order(run, passes as nat, extra as nat, outcomes.take(shorter));
}

/// A loop without a bound goes on for as long as its children neither
/// escalate nor fail: after any number of such outcomes it asks for the next
/// child in turn.
pub proof fn lemma_unbounded_loop_goes_on(
    context: InvocationContextView,
    children: Seq<Seq<char>>,
    outcomes: Seq<Outcome>,
)
    requires
        children.len() > 0,
        forall|i: int| 0 <= i < outcomes.len() ==> is_calm(#[trigger] outcomes[i]),
    ensures
        LoopRunView::opening(context, children, None).after_children(outcomes).next_child()
            == Some((outcomes.len() % children.len()) as nat),
        LoopRunView::opening(context, children, None).after_children(outcomes).events
            == events_of(outcomes),
{
    let run = LoopRunView::opening(context, children, None);
    let n = children.len() as int;
    let k = outcomes.len() as int;
    let passes = k / n;
    let extra = k % n;
    assert(k == passes * n + extra && 0 <= extra < n && 0 <= passes) by (nonlinear_arith)
        requires
            passes == k / n,
            extra == k % n,
            n > 0,
            0 <= k,
    ;
    lemma_loop_in_order(run, passes as nat, extra as nat, outcomes);
    assert(run.events + events_of(outcomes) =~= events_of(outcomes));
}

/// A child whose events escalate ends the loop: the run is done with all
/// events up to and including those of that child, and whatever is reported
/// afterwards changes nothing, since neither a later child nor a later pass
/// was asked for.
pub proof fn lemma_escalation_ends_loop(run: LoopRunView, escalating: Seq<Event>, later: Outcome)
    requires
        run.next_child() is Some,
        has_escalation(escalating),
    ensures
        run.child_done(Ok(escalating)).next_child() is None,
        run.child_done(Ok(escalating)).outcome() == Some(
            Ok::<Seq<Event>, AgentErrorView>(run.events + escalating),
        ),
        run.child_done(Ok(escalating)).child_done(later) == run.child_done(Ok(escalating)),
{
}

/// A loop without a bound whose child escalates during a pass ends in that
/// pass: with `passes` passes complete and `extra` children of the next one
/// run, the escalation of the child then asked for ends the loop, with the
/// events of every child that ran, in order.
pub proof fn lemma_unbounded_loop_ends_on_escalation(
    context: InvocationContextView,
    children: Seq<Seq<char>>,
    calm: Seq<Outcome>,
    escalating: Seq<Event>,
)
    requires
        children.len() > 0,
        forall|i: int| 0 <= i < calm.len() ==> is_calm(#[trigger] calm[i]),
        has_escalation(escalating),
    ensures
        LoopRunView::opening(context, children, None).after_children(
            calm.push(Ok(escalating)),
        ).outcome() == Some(Ok::<Seq<Event>, AgentErrorView>(events_of(calm) + escalating)),
{
    let run = LoopRunView::opening(context, children, None);
    lemma_unbounded_loop_goes_on(context, children, calm);
    assert(calm.push(Ok(escalating)).drop_last() =~= calm);
    lemma_escalation_ends_loop(run.after_children(calm), escalating, Ok(escalating));
}

/// A child that fails ends the loop with the failure of that child, which
/// names the child's branch and holds the child's error.
pub proof fn lemma_failure_ends_loop(run: LoopRunView, error: AgentErrorView, later: Outcome)
    requires
        run.next_child() is Some,
    ensures
        run.child_done(Err(error)).outcome() == Some(
            Err::<Seq<Event>, AgentErrorView>(
                AgentErrorView::ChildFailure(
                    child_branch(run.context.branch, run.children[run.next as int]),
                    Box::new(error),
                ),
            ),
        ),
        run.child_done(Err(error)).child_done(later) == run.child_done(Err(error)),
{
}

/// A loop without children, or with a bound of zero or less, does nothing:
/// it asks for no child and comes to an empty list of events.
pub proof fn lemma_idle_loop(
    context: InvocationContextView,
    children: Seq<Seq<char>>,
    max_iterations: Option<i32>,
)
    requires
        children.len() == 0 || (max_iterations matches Some(bound) && bound <= 0),
    ensures
        LoopRunView::opening(context, children, max_iterations).next_child() is None,
        LoopRunView::opening(context, children, max_iterations).outcome() == Some(
            Ok::<Seq<Event>, AgentErrorView>(Seq::<Event>::empty()),
        ),
{
}

} // verus!
