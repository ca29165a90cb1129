//! The composite that runs its children side by side and puts their events
//! together in the order in which the children were declared.

use crate::base_agent::{callbacks_of, is_copy_of, single_callback, AgentPlan, BaseAgent};
use crate::common::{
    clone_handles, handle_names, outcome_of, AgentError, AgentErrorView, AgentHandle, Event,
    Outcome,
};
use crate::composition::events_of;
use crate::invocation_context::{
    child_branch, derive_branch, text_of, InvocationContext, InvocationContextView,
};
use vstd::prelude::*;
use vstd::string::StringExecFns;

verus! {

/// The position of the first outcome that is a failure, or the number of
/// outcomes where none is.
pub open spec fn first_failure(outcomes: Seq<Outcome>) -> int
    decreases outcomes.len(),
{
    if outcomes.len() == 0 {
        0
    } else if first_failure(outcomes.drop_last()) < outcomes.len() - 1 {
        first_failure(outcomes.drop_last())
    } else if outcomes.last() is Err {
        outcomes.len() - 1
    } else {
        outcomes.len() as int
    }
}

/// `first_failure` is the position of a failure before which there is none,
/// or the number of outcomes where all succeeded.
pub proof fn lemma_first_failure(outcomes: Seq<Outcome>)
    ensures
        0 <= first_failure(outcomes) <= outcomes.len(),
        first_failure(outcomes) < outcomes.len() ==> outcomes[first_failure(outcomes)] is Err,
        forall|i: int| 0 <= i < first_failure(outcomes) ==> (#[trigger] outcomes[i]) is Ok,
    decreases outcomes.len(),
{
    if outcomes.len() > 0 {
        lemma_first_failure(outcomes.drop_last());
        assert forall|i: int| 0 <= i < first_failure(outcomes) implies (
        #[trigger] outcomes[i]) is Ok by {
            if i < outcomes.len() - 1 {
                assert(outcomes[i] == outcomes.drop_last()[i]);
            }
        }
    }
}

/// What the outcomes of the children of a composite at `branch` come to,
/// once all are in: the failure of the first child, in the order of the
/// list, that failed, and then no events at all; or else the events of all
/// children in the order of the list.
pub open spec fn joined(
    branch: Option<Seq<char>>,
    children: Seq<Seq<char>>,
    outcomes: Seq<Outcome>,
) -> Outcome {
    let at = first_failure(outcomes);
    if at < outcomes.len() {
        Err(
            AgentErrorView::ChildFailure(
                child_branch(branch, children[at]),
                Box::new(outcomes[at]->Err_0),
            ),
        )
    } else {
        Ok(events_of(outcomes))
    }
}

/// What a parallel run is, to contracts.
pub ghost struct ParallelRunView {
    pub context: InvocationContextView,
    pub children: Seq<Seq<char>>,
    /// For each child, what it came to, once that is known.
    pub slots: Seq<Option<Outcome>>,
}

impl ParallelRunView {
    /// The run that a composite over `children` opens with under `context`.
    pub open spec fn opening(context: InvocationContextView, children: Seq<Seq<char>>)
        -> ParallelRunView {
        ParallelRunView {
            context,
            children,
            slots: Seq::new(children.len(), |i: int| None::<Outcome>),
        }
    }

    /// Every child has its slot.
    pub open spec fn wf(self) -> bool {
        self.slots.len() == self.children.len()
    }

    /// Whether the child at `at` has yet to report.
    pub open spec fn is_pending(self, at: int) -> bool {
        0 <= at < self.slots.len() && self.slots[at] is None
    }

    /// Whether every child has reported.
    pub open spec fn all_done(self) -> bool {
        forall|i: int| 0 <= i < self.slots.len() ==> (#[trigger] self.slots[i]) is Some
    }

    /// The run after the child at `at` has come to `outcome`. The report of a
    /// child that has reported before, or of a position without a child,
    /// changes nothing.
    pub open spec fn child_done(self, at: int, outcome: Outcome) -> ParallelRunView {
        if self.is_pending(at) {
            ParallelRunView { slots: self.slots.update(at, Some(outcome)), ..self }
        } else {
            self
        }
    }

    /// What the children came to, in the order of the list.
    pub open spec fn reported(self) -> Seq<Outcome> {
        Seq::new(self.slots.len(), |i: int| self.slots[i]->0)
    }

    /// What the run came to, once every child has reported.
    pub open spec fn outcome(self) -> Option<Outcome> {
        if self.all_done() {
            Some(joined(self.context.branch, self.children, self.reported()))
        } else {
            None
        }
    }

    /// The run after the reports in `reports` have come in, one after the
    /// other: each names a child's position and what the child came to.
    pub open spec fn after_reports(self, reports: Seq<(int, Outcome)>) -> ParallelRunView
        decreases reports.len(),
    {
        if reports.len() == 0 {
            self
        } else {
            self.after_reports(reports.drop_last()).child_done(
                reports.last().0,
                reports.last().1,
            )
        }
    }
}

/// What a slot holds, to contracts.
pub open spec fn slot_view(slot: Option<Result<Vec<Event>, AgentError>>) -> Option<Outcome> {
    match slot {
        Some(result) => Some(outcome_of(result)),
        None => None,
    }
}

/// The children of a parallel composite, each invoked on its own, and what
/// has come back from them so far. The caller invokes every child with a
/// context of its own, reports each result as it comes in, in whatever
/// order, and takes the outcome when all are in.
pub struct ParallelRun {
    context: InvocationContext,
    children: Vec<AgentHandle>,
    slots: Vec<Option<Result<Vec<Event>, AgentError>>>,
}

impl View for ParallelRun {
    type V = ParallelRunView;

    closed spec fn view(&self) -> ParallelRunView {
        ParallelRunView {
            context: self.context@,
            children: handle_names(self.children@),
            slots: Seq::new(self.slots@.len(), |i: int| slot_view(self.slots@[i])),
        }
    }
}

impl ParallelRun {
    #[verifier::type_invariant]
    spec fn well_formed(self) -> bool {
        self.slots@.len() == self.children@.len()
    }

    /// Opens a run over `children` under `context`: no child has reported.
    pub fn open(context: &InvocationContext, children: &Vec<AgentHandle>) -> (run: ParallelRun)
        ensures
            run@ == ParallelRunView::opening(context@, handle_names(children@)),
            run@.wf(),
    {
        let mut slots: Vec<Option<Result<Vec<Event>, AgentError>>> = Vec::new();
        let mut i: usize = 0;
        while i < children.len()
            invariant
                i <= children.len(),
                slots@.len() == i,
                forall|j: int| 0 <= j < i ==> (#[trigger] slots@[j]) is None,
            decreases children.len() - i,
        {
            slots.push(None);
            i = i + 1;
        }
        let run = ParallelRun {
            context: InvocationContext::copy_of(context),
            children: clone_handles(children),
            slots,
        };
        assert(run@.slots =~= ParallelRunView::opening(
            context@,
            handle_names(children@),
        ).slots);
        run
    }

    /// How many children the run waits for in all.
    pub fn len(&self) -> (n: usize)
        ensures
            n == self@.children.len(),
            self@.wf(),
    {
        proof {
            use_type_invariant(self);
        }
        self.children.len()
    }

    /// A context for one child of its own: a copy of the one that the
    /// composite holds, counting against the same quota counter. The child
    /// derives its own branch from it.
    pub fn context_for_child(&self) -> (ctx: InvocationContext)
        ensures
            ctx@ == self@.context,
    {
        InvocationContext::copy_of(&self.context)
    }

    /// Whether the child at `at` has yet to report.
    pub fn is_pending(&self, at: usize) -> (pending: bool)
        ensures
            pending == self@.is_pending(at as int),
    {
        if at < self.slots.len() {
            self.slots[at].is_none()
        } else {
            false
        }
    }

    /// Whether every child has reported.
    pub fn all_done(&self) -> (done: bool)
        ensures
            done == self@.all_done(),
    {
        let mut i: usize = 0;
        while i < self.slots.len()
            invariant
                i <= self.slots.len(),
                forall|j: int| 0 <= j < i ==> (#[trigger] self@.slots[j]) is Some,
            decreases self.slots.len() - i,
        {
            if self.slots[i].is_none() {
                assert(self@.slots[i as int] is None);
                return false;
            }
            assert(self@.slots[i as int] is Some);
            i = i + 1;
        }
        true
    }

    /// Takes the result of the child at `at`, whenever it comes in. A
    /// child's failure does not end the run: the others still report.
    pub fn child_done(self, at: usize, result: Result<Vec<Event>, AgentError>) -> (next:
        ParallelRun)
        ensures
            next@ == self@.child_done(at as int, outcome_of(result)),
            next@.wf(),
    {
        proof {
            use_type_invariant(&self);
        }
        if !self.is_pending(at) {
            return self;
        }
        let ghost before = self@;
        let mut slots = self.slots;
        slots[at] = Some(result);
        let next = ParallelRun { context: self.context, children: self.children, slots };
        assert(next@.slots =~= before.slots.update(at as int, Some(outcome_of(result))));
        next
    }
}

impl ParallelRun {
    /// The outcome of the run, once every child has reported: the failure of
    /// the first child, in the order of the list, that failed; or else the
    /// events of all children, child by child in the order of the list,
    /// whatever the order in which they reported. Nothing while a child has
    /// yet to report.
    pub fn finish(self) -> (outcome: Option<Result<Vec<Event>, AgentError>>)
        ensures
            match outcome {
                Some(result) => self@.outcome() == Some(outcome_of(result)),
                None => self@.outcome() is None,
            },
    {
        proof {
            use_type_invariant(&self);
        }
        if !self.all_done() {
            return None;
        }
        let ghost view = self@;
        let ghost reported = view.reported();
        let context = self.context;
        let children = self.children;
        let mut slots = self.slots;
        let mut events: Vec<Event> = Vec::new();
        let mut failure: Option<AgentError> = None;
        let mut at: usize = 0;
        assert(reported.take(0) =~= Seq::<Outcome>::empty());
        while at < slots.len()
            invariant
                at <= slots.len(),
                slots@.len() == view.slots.len(),
                children@.len() == slots@.len(),
                view.children == handle_names(children@),
                view.context == context@,
                view.all_done(),
                reported == view.reported(),
                forall|j: int| at <= j < slots@.len() ==> slot_view(#[trigger] slots@[j])
                    == view.slots[j],
                failure is None ==> first_failure(reported.take(at as int)) == at && events@
                    == events_of(reported.take(at as int)),
                failure matches Some(error) ==> first_failure(reported.take(at as int)) < at
                    && error@ == AgentErrorView::ChildFailure(
                    child_branch(
                        view.context.branch,
                        view.children[first_failure(reported.take(at as int))],
                    ),
                    Box::new(reported[first_failure(reported.take(at as int))]->Err_0),
                ),
            decreases slots.len() - at,
        {
            let ghost done = reported.take(at as int);
            let ghost more = reported.take(at + 1);
            proof {
                assert(more.drop_last() =~= done);
                assert(more.last() == reported[at as int]);
                assert(view.slots[at as int] is Some);
                assert(slot_view(slots@[at as int]) == view.slots[at as int]);
                lemma_first_failure(done);
            }
            let slot = slots[at].take();
            match slot {
                Some(Ok(mut produced)) => {
                    if failure.is_none() {
                        events.append(&mut produced);
                    }
                },
                Some(Err(error)) => {
                    if failure.is_none() {
                        let branch = derive_branch(context.branch(), children[at].name());
                        failure = Some(AgentError::child_failure(branch, error));
                    }
                },
                None => {},
            }
            at = at + 1;
        }
        assert(reported.take(at as int) =~= reported);
        match failure {
            Some(error) => Some(Err(error)),
            None => Some(Ok(events)),
        }
    }
}

/// A parallel composite waits for every child: while one has yet to report,
/// the run has no outcome, whatever the others came to, failures included.
pub proof fn lemma_parallel_waits_for_all(run: ParallelRunView, at: int)
    requires
        run.is_pending(at),
    ensures
        run.outcome() is None,
{
}

/// Whether one of `reports` is about the child at `at`.
pub open spec fn is_reported(reports: Seq<(int, Outcome)>, at: int) -> bool {
    exists|k: int| 0 <= k < reports.len() && (#[trigger] reports[k]).0 == at
}

/// Where every report names a child of the list and what that child came to,
/// the slot of a child holds what the child came to if a report of it is
/// among those taken, and nothing otherwise.
proof fn lemma_reports_fill_slots(
    context: InvocationContextView,
    children: Seq<Seq<char>>,
    outcomes: Seq<Outcome>,
    reports: Seq<(int, Outcome)>,
)
    requires
        outcomes.len() == children.len(),
        forall|k: int|
            0 <= k < reports.len() ==> 0 <= (#[trigger] reports[k]).0 < children.len()
                && reports[k].1 == outcomes[reports[k].0],
    ensures
        ({
            let run = ParallelRunView::opening(context, children).after_reports(reports);
            &&& run.wf()
            &&& run.context == context
            &&& run.children == children
            &&& forall|j: int|
                0 <= j < children.len() ==> (#[trigger] run.slots[j]) == (if is_reported(
                    reports,
                    j,
                ) {
                    Some(outcomes[j])
                } else {
                    None
                })
        }),
    decreases reports.len(),
{
    let start = ParallelRunView::opening(context, children);
    if reports.len() > 0 {
        let earlier = reports.drop_last();
        assert forall|k: int| 0 <= k < earlier.len() implies 0 <= (#[trigger] earlier[k]).0
            < children.len() && earlier[k].1 == outcomes[earlier[k].0] by {
            assert(earlier[k] == reports[k]);
        }
        lemma_reports_fill_slots(context, children, outcomes, earlier);
        let mid = start.after_reports(earlier);
        let run = start.after_reports(reports);
        let last = reports.last();
        assert(run == mid.child_done(last.0, last.1));
        assert forall|j: int| 0 <= j < children.len() implies (#[trigger] run.slots[j]) == (
        if is_reported(reports, j) {
            Some(outcomes[j])
        } else {
            None
        }) by {
            let seen_earlier = is_reported(earlier, j);
            let seen = is_reported(reports, j);
            assert(mid.slots[j] == (if seen_earlier {
                Some(outcomes[j])
            } else {
                None
            }));
            if seen_earlier {
                let k = choose|k: int| 0 <= k < earlier.len() && (#[trigger] earlier[k]).0 == j;
                assert(reports[k] == earlier[k]);
                assert(seen);
            }
            if last.0 == j {
                assert(reports[reports.len() - 1].0 == j);
                assert(seen);
            }
            if seen && !seen_earlier {
                let k = choose|k: int| 0 <= k < reports.len() && (#[trigger] reports[k]).0 == j;
                if k < earlier.len() {
                    assert(earlier[k] == reports[k]);
                    assert(false);
                }
                assert(last.0 == j);
            }
        }
    }
}

/// The outcome of a parallel composite does not depend on the order in which
/// its children report. Where the reports that come in name children of the
/// list, each with what that child came to, and every child is among them,
/// the run comes to what the children came to in the order of the list: the
/// events of the first declared child first, or the failure of the first
/// declared child that failed.
pub proof fn lemma_parallel_order_is_declared_order(
    context: InvocationContextView,
    children: Seq<Seq<char>>,
    outcomes: Seq<Outcome>,
    reports: Seq<(int, Outcome)>,
)
    requires
        outcomes.len() == children.len(),
        forall|k: int|
            0 <= k < reports.len() ==> 0 <= (#[trigger] reports[k]).0 < children.len()
                && reports[k].1 == outcomes[reports[k].0],
        forall|j: int| 0 <= j < children.len() ==> #[trigger] is_reported(reports, j),
    ensures
        ParallelRunView::opening(context, children).after_reports(reports).outcome() == Some(
            joined(context.branch, children, outcomes),
        ),
{
    lemma_reports_fill_slots(context, children, outcomes, reports);
    let run = ParallelRunView::opening(context, children).after_reports(reports);
    assert forall|j: int| 0 <= j < run.slots.len() implies (#[trigger] run.slots[j]) == Some(
        outcomes[j],
    ) by {
        assert(is_reported(reports, j));
    }
    assert(run.reported() =~= outcomes);
}

/// Where every child succeeds, the events of a parallel composite are those
/// of its children, child by child in the order of the list.
pub proof fn lemma_joined_success(
    branch: Option<Seq<char>>,
    children: Seq<Seq<char>>,
    outcomes: Seq<Outcome>,
)
    requires
        forall|i: int| 0 <= i < outcomes.len() ==> (#[trigger] outcomes[i]) is Ok,
    ensures
        joined(branch, children, outcomes) == Ok::<Seq<Event>, AgentErrorView>(
            events_of(outcomes),
        ),
{
    lemma_first_failure(outcomes);
}

/// Where a child fails, a parallel composite comes to the failure of the
/// first such child in the order of the list, and to no events.
pub proof fn lemma_joined_failure(
    branch: Option<Seq<char>>,
    children: Seq<Seq<char>>,
    outcomes: Seq<Outcome>,
    at: int,
)
    requires
        0 <= at < outcomes.len(),
        outcomes[at] is Err,
        forall|i: int| 0 <= i < at ==> (#[trigger] outcomes[i]) is Ok,
    ensures
        joined(branch, children, outcomes) == Err::<Seq<Event>, AgentErrorView>(
            AgentErrorView::ChildFailure(
                child_branch(branch, children[at]),
                Box::new(outcomes[at]->Err_0),
            ),
        ),
{
    lemma_first_failure(outcomes);
}

/// A composite that runs its children side by side.
#[derive(Debug)]
pub struct ParallelAgent<C> {
    base: BaseAgent<C>,
}

/// Incremental configuration of a [`ParallelAgent`].
#[derive(Debug)]
pub struct ParallelAgentBuilder<C> {
    name: Option<String>,
    description: Option<String>,
    sub_agents: Vec<AgentHandle>,
    before_agent_callback: Option<Vec<C>>,
    after_agent_callback: Option<Vec<C>>,
}

impl<C> View for ParallelAgentBuilder<C> {
    type V = AgentPlan<C>;

    closed spec fn view(&self) -> AgentPlan<C> {
        AgentPlan {
            name: text_of(self.name),
            description: text_of(self.description),
            sub_agents: self.sub_agents@,
            before_agent_callback: callbacks_of(self.before_agent_callback),
            after_agent_callback: callbacks_of(self.after_agent_callback),
        }
    }
}

impl<C> ParallelAgent<C> {
    /// The agent that the composite builds on.
    pub closed spec fn spec_base(&self) -> &BaseAgent<C> {
        &self.base
    }

    /// The agent that the composite builds on: its name, its children and
    /// its callbacks, and the pipeline that each invocation of it runs.
    #[verifier::when_used_as_spec(spec_base)]
    pub fn base(&self) -> (base: &BaseAgent<C>)
        ensures
            base == self.spec_base(),
    {
        &self.base
    }

    pub fn builder() -> (b: ParallelAgentBuilder<C>)
        ensures
            b@ == AgentPlan::<C>::blank(),
    {
        ParallelAgentBuilder {
            name: None,
            description: None,
            sub_agents: Vec::new(),
            before_agent_callback: None,
            after_agent_callback: None,
        }
    }

    /// The composite's own step: opens a run in which every child is to be
    /// invoked, each with a copy of `context` of its own.
    pub fn run_async_impl(&self, context: &InvocationContext) -> (run: ParallelRun)
        ensures
            run@ == ParallelRunView::opening(context@, handle_names(self.base().sub_agents@)),
            run@.wf(),
    {
        ParallelRun::open(context, &self.base.sub_agents)
    }

    /// A parallel composite has no live mode.
    pub fn run_live_impl(&self, _context: &InvocationContext) -> (r: Result<Vec<Event>, AgentError>)
        ensures
            r matches Err(error) && error@ == AgentErrorView::UnsupportedOperation(
                "run_live not implemented for ParallelAgent"@,
            ),
    {
        Err(
            AgentError::UnsupportedOperation(
                String::from_str("run_live not implemented for ParallelAgent"),
            ),
        )
    }
}

impl<C: Clone> Clone for ParallelAgent<C> {
    fn clone(&self) -> (agent: Self)
        ensures
            agent.base().name == self.base().name,
            agent.base().description == self.base().description,
            agent.base().parent_agent == self.base().parent_agent,
            agent.base().sub_agents@ == self.base().sub_agents@,
            is_copy_of(agent.base().before_agent_callback, self.base().before_agent_callback),
            is_copy_of(agent.base().after_agent_callback, self.base().after_agent_callback),
    {
        ParallelAgent { base: self.base.clone() }
    }
}

impl<C> ParallelAgentBuilder<C> {
    pub fn name(self, name: String) -> (b: Self)
        ensures
            b@ == (AgentPlan { name: Some(name@), ..self@ }),
    {
        let mut b = self;
        b.name = Some(name);
        b
    }

    pub fn description(self, description: String) -> (b: Self)
        ensures
            b@ == (AgentPlan { description: Some(description@), ..self@ }),
    {
        let mut b = self;
        b.description = Some(description);
        b
    }

    pub fn sub_agents(self, sub_agents: Vec<AgentHandle>) -> (b: Self)
        ensures
            b@ == (AgentPlan { sub_agents: sub_agents@, ..self@ }),
    {
        let mut b = self;
        b.sub_agents = sub_agents;
        b
    }

    /// Sets the one callback that comes before the agent's own step, in
    /// place of any that was set.
    pub fn before_agent_callback(self, callback: C) -> (b: Self)
        ensures
            b@ == (AgentPlan { before_agent_callback: Some(seq![callback]), ..self@ }),
    {
        let mut b = self;
        b.before_agent_callback = Some(single_callback(callback));
        b
    }

    /// Sets the one callback that comes after the agent's own step, in place
    /// of any that was set.
    pub fn after_agent_callback(self, callback: C) -> (b: Self)
        ensures
            b@ == (AgentPlan { after_agent_callback: Some(seq![callback]), ..self@ }),
    {
        let mut b = self;
        b.after_agent_callback = Some(single_callback(callback));
        b
    }

    pub fn build(self) -> (agent: ParallelAgent<C>)
        ensures
            self@.describes(*agent.base()),
    {
        let name = match self.name {
            Some(name) => name,
            None => String::new(),
        };
        let description = match self.description {
            Some(description) => description,
            None => String::new(),
        };
        ParallelAgent {
            base: BaseAgent::new(
                name,
                description,
                self.sub_agents,
                self.before_agent_callback,
                self.after_agent_callback,
            ),
        }
    }
}

} // verus!
