//! The agent that every variant builds on, and the pipeline that each
//! invocation of an agent runs: derive the context, run the callbacks that
//! come before, the agent's own step, then the callbacks that come after.

use crate::common::{
    clone_handles, failure_of, is_generated_id, no_actions, outcome_of, AgentError,
    AgentErrorView, AgentHandle, Content, Event, EventActions, Outcome,
};
use crate::callback_context::CallbackContext;
use crate::invocation_context::{
    child_branch, derive_branch, text_of, InvocationContext, InvocationContextView,
};
use vstd::prelude::*;
use vstd::string::StringExecFns;

verus! {

/// An agent: its name, which its siblings know it by and which names its
/// branch; the handles of its parent and of its children; and its callbacks,
/// which the kernel keeps in order and never calls itself. `C` is whatever
/// the caller represents a callback by.
#[derive(Debug)]
pub struct BaseAgent<C> {
    pub name: String,
    pub description: String,
    pub parent_agent: Option<AgentHandle>,
    pub sub_agents: Vec<AgentHandle>,
    pub before_agent_callback: Option<Vec<C>>,
    pub after_agent_callback: Option<Vec<C>>,
}

/// How many callbacks a list holds; none where there is no list.
pub open spec fn callback_count<C>(callbacks: Option<Vec<C>>) -> nat {
    match callbacks {
        Some(list) => list@.len(),
        None => 0,
    }
}

/// The first position in `handles` of an agent named `name`, or the length
/// of `handles` where none has that name.
pub open spec fn first_named(handles: Seq<AgentHandle>, name: Seq<char>) -> int
    decreases handles.len(),
{
    if handles.len() == 0 {
        0
    } else if handles[0].name@ == name {
        0
    } else {
        1 + first_named(handles.drop_first(), name)
    }
}

/// `first_named` is a position of that name before which no agent has it,
/// or the length where no agent has it.
pub proof fn lemma_first_named(handles: Seq<AgentHandle>, name: Seq<char>)
    ensures
        0 <= first_named(handles, name) <= handles.len(),
        first_named(handles, name) < handles.len() ==> handles[first_named(handles, name)].name@
            == name,
        forall|i: int|
            0 <= i < first_named(handles, name) ==> (#[trigger] handles[i]).name@ != name,
    decreases handles.len(),
{
    if handles.len() > 0 && handles[0].name@ != name {
        let rest = handles.drop_first();
        lemma_first_named(rest, name);
        assert forall|i: int| 0 <= i < first_named(handles, name) implies (
        #[trigger] handles[i]).name@ != name by {
            if i > 0 {
                assert(handles[i] == rest[i - 1]);
            }
        }
    }
}

impl<C> BaseAgent<C> {
    pub fn new(
        name: String,
        description: String,
        sub_agents: Vec<AgentHandle>,
        before_agent_callback: Option<Vec<C>>,
        after_agent_callback: Option<Vec<C>>,
    ) -> (agent: Self)
        ensures
            agent.name == name,
            agent.description == description,
            agent.parent_agent is None,
            agent.sub_agents == sub_agents,
            agent.before_agent_callback == before_agent_callback,
            agent.after_agent_callback == after_agent_callback,
    {
        BaseAgent {
            name,
            description,
            parent_agent: None,
            sub_agents,
            before_agent_callback,
            after_agent_callback,
        }
    }

    pub fn name(&self) -> (n: &str)
        ensures
            n@ == self.name@,
    {
        self.name.as_str()
    }

    pub fn description(&self) -> (d: &str)
        ensures
            d@ == self.description@,
    {
        self.description.as_str()
    }

    /// The agent's own handle.
    pub fn handle_of(&self) -> (h: AgentHandle)
        ensures
            h.name == self.name,
    {
        AgentHandle::new(self.name.clone())
    }

    pub fn parent_agent(&self) -> (p: Option<AgentHandle>)
        ensures
            p == self.parent_agent,
    {
        match &self.parent_agent {
            Some(parent) => Some(parent.clone()),
            None => None,
        }
    }

    pub fn set_parent_agent(&mut self, parent: AgentHandle)
        ensures
            *final(self) == (BaseAgent { parent_agent: Some(parent), ..*old(self) }),
    {
        self.parent_agent = Some(parent);
    }

    /// The agent above this one, or this one where none is above it.
    pub fn root_agent(&self) -> (root: AgentHandle)
        ensures
            root == (match self.parent_agent {
                Some(parent) => parent,
                None => AgentHandle { name: self.name },
            }),
    {
        match &self.parent_agent {
            Some(parent) => parent.clone(),
            None => self.handle_of(),
        }
    }

    /// The agent of that name among this agent and its children: this agent
    /// where the name is its own, else the first child of that name.
    pub fn find_agent(&self, name: &str) -> (found: Option<AgentHandle>)
        ensures
            self.name@ == name@ ==> found == Some(AgentHandle { name: self.name }),
            self.name@ != name@ ==> found == self.spec_find_sub_agent(name@),
    {
        let wanted = String::from_str(name);
        if self.name == wanted {
            return Some(self.handle_of());
        }
        self.find_sub_agent(name)
    }

    /// The first child named `name`, if there is one.
    pub open spec fn spec_find_sub_agent(&self, name: Seq<char>) -> Option<AgentHandle> {
        let at = first_named(self.sub_agents@, name);
        if at < self.sub_agents@.len() {
            Some(self.sub_agents@[at])
        } else {
            None
        }
    }

    /// The first child named `name`, if there is one.
    pub fn find_sub_agent(&self, name: &str) -> (found: Option<AgentHandle>)
        ensures
            found == self.spec_find_sub_agent(name@),
    {
        let wanted = String::from_str(name);
        let mut i: usize = 0;
        assert(self.sub_agents@.skip(0) =~= self.sub_agents@);
        while i < self.sub_agents.len()
            invariant
                i <= self.sub_agents.len(),
                wanted@ == name@,
                first_named(self.sub_agents@, name@) == i + first_named(
                    self.sub_agents@.skip(i as int),
                    name@,
                ),
            decreases self.sub_agents.len() - i,
        {
            let ghost rest = self.sub_agents@.skip(i as int);
            assert(rest[0] == self.sub_agents@[i as int]);
            assert(rest.drop_first() =~= self.sub_agents@.skip(i + 1));
            if self.sub_agents[i].name == wanted {
                return Some(self.sub_agents[i].clone());
            }
            i = i + 1;
        }
        None
    }

    pub fn sub_agents(&self) -> (children: &Vec<AgentHandle>)
        ensures
            *children == self.sub_agents,
    {
        &self.sub_agents
    }

    pub fn before_agent_callback(&self) -> (callbacks: Option<&Vec<C>>)
        ensures
            callbacks is Some == self.before_agent_callback is Some,
            callbacks matches Some(list) ==> self.before_agent_callback == Some(*list),
    {
        self.before_agent_callback.as_ref()
    }

    pub fn after_agent_callback(&self) -> (callbacks: Option<&Vec<C>>)
        ensures
            callbacks is Some == self.after_agent_callback is Some,
            callbacks matches Some(list) ==> self.after_agent_callback == Some(*list),
    {
        self.after_agent_callback.as_ref()
    }

    /// Derives the context in which this agent runs from the context of
    /// whoever invokes it: a copy that names this agent, extends the branch
    /// by this agent's name, is not ended, and counts against the same quota
    /// counter.
    pub fn create_invocation_context(&self, parent_context: &InvocationContext) -> (ctx:
        InvocationContext)
        ensures
            ctx@ == derived_context(parent_context@, self.name@),
            ctx.shares_quota_with(parent_context),
    {
        let mut context = InvocationContext::copy_of(parent_context);
        context.set_agent(self.handle_of());
        let branch = derive_branch(parent_context.branch(), self.name.as_str());
        context.set_branch(Some(branch));
        context.set_end_invocation(false);
        context
    }
}

/// The context of an agent named `name` that is invoked under `parent`.
pub open spec fn derived_context(parent: InvocationContextView, name: Seq<char>)
    -> InvocationContextView {
    InvocationContextView {
        agent: name,
        branch: Some(child_branch(parent.branch, name)),
        end_invocation: false,
        ..parent
    }
}

/// The callbacks of a list, in order; none where there is no list.
pub open spec fn callbacks_of<C>(callbacks: Option<Vec<C>>) -> Option<Seq<C>> {
    match callbacks {
        Some(list) => Some(list@),
        None => None,
    }
}

/// The list that holds `callback` and nothing else.
pub fn single_callback<C>(callback: C) -> (list: Vec<C>)
    ensures
        list@ == seq![callback],
{
    let mut list = Vec::new();
    list.push(callback);
    assert(list@ =~= seq![callback]);
    list
}

/// What the builder of an agent has been told so far.
pub ghost struct AgentPlan<C> {
    pub name: Option<Seq<char>>,
    pub description: Option<Seq<char>>,
    pub sub_agents: Seq<AgentHandle>,
    pub before_agent_callback: Option<Seq<C>>,
    pub after_agent_callback: Option<Seq<C>>,
}

impl<C> AgentPlan<C> {
    /// The plan of a builder that has been told nothing.
    pub open spec fn blank() -> AgentPlan<C> {
        AgentPlan {
            name: None,
            description: None,
            sub_agents: Seq::<AgentHandle>::empty(),
            before_agent_callback: None,
            after_agent_callback: None,
        }
    }

    /// Whether `agent` is the agent that this plan describes: the name and
    /// the description that were set, or empty ones; the children and the
    /// callbacks as they were set; and no parent.
    pub open spec fn describes(self, agent: BaseAgent<C>) -> bool {
        &&& agent.name@ == (match self.name {
            Some(name) => name,
            None => Seq::<char>::empty(),
        })
        &&& agent.description@ == (match self.description {
            Some(description) => description,
            None => Seq::<char>::empty(),
        })
        &&& agent.parent_agent is None
        &&& agent.sub_agents@ == self.sub_agents
        &&& callbacks_of(agent.before_agent_callback) == self.before_agent_callback
        &&& callbacks_of(agent.after_agent_callback) == self.after_agent_callback
    }
}

/// What a callback reports back: the content that overrides the agent's own,
/// if any, and whether the callback asked to end the invocation.
#[derive(Clone, Copy, Debug)]
pub struct HookReply {
    pub content: Option<Content>,
    pub end_invocation: bool,
}

/// What the caller of a run has to do next.
#[derive(Clone, Copy, Debug, PartialEq, Eq, Structural)]
pub enum RunStep {
    /// Call the callback at this position of the list that comes before the
    /// agent's own step, and report with `callback_done`.
    BeforeCallback(usize),
    /// Perform the agent's own step, and report with `core_done`.
    Core,
    /// Call the callback at this position of the list that comes after the
    /// agent's own step, and report with `callback_done`.
    AfterCallback(usize),
    /// Nothing: take the outcome with `finish`.
    Done,
}

/// What a run is, to contracts.
pub ghost struct AgentRunView {
    pub context: InvocationContextView,
    pub author: Seq<char>,
    pub before_callbacks: nat,
    pub after_callbacks: nat,
    pub step: RunStep,
    pub events: Seq<Event>,
    pub failure: Option<AgentErrorView>,
}

impl AgentRunView {
    /// The step that opens a run.
    pub open spec fn first_step(before_callbacks: nat) -> RunStep {
        if before_callbacks > 0 {
            RunStep::BeforeCallback(0)
        } else {
            RunStep::Core
        }
    }

    /// The step that follows the callback at `at` of those that come before.
    pub open spec fn step_after_before(self, at: usize) -> RunStep {
        if at + 1 < self.before_callbacks {
            RunStep::BeforeCallback((at + 1) as usize)
        } else {
            RunStep::Core
        }
    }

    /// The step that follows the agent's own.
    pub open spec fn step_after_core(self) -> RunStep {
        if self.after_callbacks > 0 {
            RunStep::AfterCallback(0)
        } else {
            RunStep::Done
        }
    }

    /// The step that follows the callback at `at` of those that come after.
    pub open spec fn step_after_after(self, at: usize) -> RunStep {
        if at + 1 < self.after_callbacks {
            RunStep::AfterCallback((at + 1) as usize)
        } else {
            RunStep::Done
        }
    }

    /// A run asks only for callbacks that exist, and a failed run is done.
    pub open spec fn wf(self) -> bool {
        &&& self.step matches RunStep::BeforeCallback(at) ==> at < self.before_callbacks
        &&& self.step matches RunStep::AfterCallback(at) ==> at < self.after_callbacks
        &&& self.failure is Some ==> self.step is Done
        &&& self.before_callbacks <= usize::MAX
        &&& self.after_callbacks <= usize::MAX
    }

    /// Whether `event` is the event that this run emits for `content`: a
    /// fresh identifier, the run's invocation, the agent as author, the
    /// run's branch, no side effects, the content, and not final.
    pub open spec fn emits(self, event: Event, content: Content) -> bool {
        &&& is_generated_id(event.id@)
        &&& event.invocation_id@ == self.context.invocation_id
        &&& event.author@ == self.author
        &&& text_of(event.branch) == self.context.branch
        &&& event.actions@ == no_actions()
        &&& event.content == Some(content)
        &&& !event.final_response
    }

    /// The run after a callback has reported `reply`, where `event` is the
    /// event emitted for the reply's content, if it has one. A report that
    /// was not asked for changes nothing.
    pub open spec fn callback_done(self, reply: Result<HookReply, String>, event: Event)
        -> AgentRunView {
        match self.step {
            RunStep::BeforeCallback(at) => match reply {
                Ok(heard) => {
                    let ended = self.context.end_invocation || heard.end_invocation;
                    let context = InvocationContextView { end_invocation: ended, ..self.context };
                    if heard.content is Some {
                        AgentRunView {
                            context,
                            events: self.events.push(event),
                            step: if ended {
                                RunStep::Done
                            } else {
                                self.step_after_before(at)
                            },
                            ..self
                        }
                    } else {
                        AgentRunView { context, step: self.step_after_before(at), ..self }
                    }
                },
                Err(text) => AgentRunView {
                    step: RunStep::Done,
                    failure: Some(AgentErrorView::HookFailure(text@)),
                    ..self
                },
            },
            RunStep::AfterCallback(at) => match reply {
                Ok(heard) => {
                    let ended = self.context.end_invocation || heard.end_invocation;
                    let context = InvocationContextView { end_invocation: ended, ..self.context };
                    if heard.content is Some {
                        AgentRunView {
                            context,
                            events: self.events.push(event),
                            step: self.step_after_after(at),
                            ..self
                        }
                    } else {
                        AgentRunView { context, step: self.step_after_after(at), ..self }
                    }
                },
                Err(text) => AgentRunView {
                    step: RunStep::Done,
                    failure: Some(AgentErrorView::HookFailure(text@)),
                    ..self
                },
            },
            _ => self,
        }
    }

    /// The run after the agent's own step has come to `outcome`. A report
    /// that was not asked for changes nothing.
    pub open spec fn core_done(self, outcome: Outcome) -> AgentRunView {
        match self.step {
            RunStep::Core => match outcome {
                Ok(events) => AgentRunView {
                    events: self.events + events,
                    step: self.step_after_core(),
                    ..self
                },
                Err(error) => AgentRunView { step: RunStep::Done, failure: Some(error), ..self },
            },
            _ => self,
        }
    }

    /// What the run came to, once it is done: its error, or else its events.
    pub open spec fn outcome(self) -> Option<Outcome> {
        if self.step is Done {
            match self.failure {
                Some(error) => Some(Err(error)),
                None => Some(Ok(self.events)),
            }
        } else {
            None
        }
    }
}

/// One invocation of an agent, as far as it has come. The run tells its
/// caller what to do next, the caller does it and reports back, until the run
/// is done.
pub struct AgentRun {
    context: InvocationContext,
    author: String,
    before_callbacks: usize,
    after_callbacks: usize,
    step: RunStep,
    events: Vec<Event>,
    failure: Option<AgentError>,
}

impl View for AgentRun {
    type V = AgentRunView;

    closed spec fn view(&self) -> AgentRunView {
        AgentRunView {
            context: self.context@,
            author: self.author@,
            before_callbacks: self.before_callbacks as nat,
            after_callbacks: self.after_callbacks as nat,
            step: self.step,
            events: self.events@,
            failure: failure_of(self.failure),
        }
    }
}

impl AgentRun {
    #[verifier::type_invariant]
    spec fn well_formed(self) -> bool {
        self@.wf()
    }

    /// What the caller has to do next.
    pub fn step(&self) -> (step: RunStep)
        ensures
            step == self@.step,
            self@.wf(),
    {
        proof {
            use_type_invariant(self);
        }
        self.step
    }

    /// The context of the invocation, for the callbacks and for the agent's
    /// own step.
    pub fn context(&self) -> (ctx: &InvocationContext)
        ensures
            ctx@ == self@.context,
    {
        &self.context
    }

    /// What the callback that the run asks for is to be handed: a copy of the
    /// invocation's context, without side effects so far.
    pub fn callback_context(&self) -> (ctx: CallbackContext)
        ensures
            ctx@.invocation_context == self@.context,
            ctx@.event_actions == no_actions(),
    {
        CallbackContext::new(InvocationContext::copy_of(&self.context), None)
    }

    /// Takes the report of the callback that the run asked for: its reply,
    /// or the text of its failure.
    ///
    /// A reply may ask to end the invocation. A reply with content adds one
    /// event to the run. Where a callback that comes before the agent's own
    /// step replies with content, and the invocation has been asked to end,
    /// the run is done at once: neither the agent's own step nor any further
    /// callback is asked for. A failure ends the run with `HookFailure`.
    pub fn callback_done(self, reply: Result<HookReply, String>) -> (next: AgentRun)
        ensures
            next@ == self@.callback_done(reply, next@.events.last()),
            (self@.step is BeforeCallback || self@.step is AfterCallback) ==> (reply matches Ok(
                heard,
            ) ==> (heard.content matches Some(content) ==> self@.emits(
                next@.events.last(),
                content,
            ))),
            next@.wf(),
    {
        proof {
            use_type_invariant(&self);
        }
        let run = self;
        let at = match run.step {
            RunStep::BeforeCallback(at) => at,
            RunStep::AfterCallback(at) => at,
            _ => {
                return run;
            },
        };
        let before = match run.step {
            RunStep::BeforeCallback(_) => true,
            _ => false,
        };
        let heard = match reply {
            Ok(heard) => heard,
            Err(text) => {
                return AgentRun {
                    context: run.context,
                    author: run.author,
                    before_callbacks: run.before_callbacks,
                    after_callbacks: run.after_callbacks,
                    step: RunStep::Done,
                    events: run.events,
                    failure: Some(AgentError::HookFailure(text)),
                };
            },
        };
        let ended = run.context.end_invocation() || heard.end_invocation;
        let mut context = run.context;
        context.set_end_invocation(ended);
        let mut events = run.events;
        let emitted = heard.content.is_some();
        if emitted {
            let branch = match context.branch() {
                Some(path) => Some(String::from_str(path)),
                None => None,
            };
            events.push(
                Event {
                    id: Event::generate_event_id(),
                    invocation_id: String::from_str(context.invocation_id()),
                    author: run.author.clone(),
                    branch,
                    actions: EventActions::builder().build(),
                    content: heard.content,
                    final_response: false,
                },
            );
        }
        let step = if before {
            if emitted && ended {
                RunStep::Done
            } else if at + 1 < run.before_callbacks {
                RunStep::BeforeCallback(at + 1)
            } else {
                RunStep::Core
            }
        } else {
            if at + 1 < run.after_callbacks {
                RunStep::AfterCallback(at + 1)
            } else {
                RunStep::Done
            }
        };
        AgentRun {
            context,
            author: run.author,
            before_callbacks: run.before_callbacks,
            after_callbacks: run.after_callbacks,
            step,
            events,
            failure: run.failure,
        }
    }

    /// Takes the report of the agent's own step: its events, which the run
    /// appends to its own, or its error, which ends the run.
    pub fn core_done(self, result: Result<Vec<Event>, AgentError>) -> (next: AgentRun)
        ensures
            next@ == self@.core_done(outcome_of(result)),
            next@.wf(),
    {
        proof {
            use_type_invariant(&self);
        }
        let run = self;
        match run.step {
            RunStep::Core => {},
            _ => {
                return run;
            },
        }
        match result {
            Ok(mut produced) => {
                let mut events = run.events;
                events.append(&mut produced);
                let step = if run.after_callbacks > 0 {
                    RunStep::AfterCallback(0)
                } else {
                    RunStep::Done
                };
                AgentRun {
                    context: run.context,
                    author: run.author,
                    before_callbacks: run.before_callbacks,
                    after_callbacks: run.after_callbacks,
                    step,
                    events,
                    failure: run.failure,
                }
            },
            Err(error) => AgentRun {
                context: run.context,
                author: run.author,
                before_callbacks: run.before_callbacks,
                after_callbacks: run.after_callbacks,
                step: RunStep::Done,
                events: run.events,
                failure: Some(error),
            },
        }
    }

    /// The outcome of the run, once it is done: the error that ended it, or
    /// else all its events in the order in which they came about. Nothing
    /// while the run still asks for a step.
    pub fn finish(self) -> (outcome: Option<Result<Vec<Event>, AgentError>>)
        ensures
            match outcome {
                Some(result) => self@.outcome() == Some(outcome_of(result)),
                None => self@.outcome() is None,
            },
    {
        match self.step {
            RunStep::Done => {},
            _ => {
                return None;
            },
        }
        match self.failure {
            Some(error) => Some(Err(error)),
            None => Some(Ok(self.events)),
        }
    }
}

impl<C> BaseAgent<C> {
    /// How many callbacks come before the agent's own step.
    pub open spec fn before_callbacks(&self) -> nat {
        callback_count(self.before_agent_callback)
    }

    /// How many callbacks come after the agent's own step.
    pub open spec fn after_callbacks(&self) -> nat {
        callback_count(self.after_agent_callback)
    }

    /// The run that an invocation of this agent under `parent` opens with.
    pub open spec fn opening(&self, parent: InvocationContextView) -> AgentRunView {
        AgentRunView {
            context: derived_context(parent, self.name@),
            author: self.name@,
            before_callbacks: self.before_callbacks(),
            after_callbacks: self.after_callbacks(),
            step: AgentRunView::first_step(self.before_callbacks()),
            events: Seq::<Event>::empty(),
            failure: None,
        }
    }

    /// Opens an invocation of this agent by whoever holds `parent_context`.
    /// The run derives the agent's own context and asks for the first
    /// callback, or for the agent's own step where no callback comes before.
    pub fn run_async(&self, parent_context: &InvocationContext) -> (run: AgentRun)
        ensures
            run@ == self.opening(parent_context@),
            run@.context.cost_manager == parent_context@.cost_manager,
            run@.wf(),
    {
        let context = self.create_invocation_context(parent_context);
        let before_callbacks = match &self.before_agent_callback {
            Some(list) => list.len(),
            None => 0,
        };
        let after_callbacks = match &self.after_agent_callback {
            Some(list) => list.len(),
            None => 0,
        };
        let step = if before_callbacks > 0 {
            RunStep::BeforeCallback(0)
        } else {
            RunStep::Core
        };
        AgentRun {
            context,
            author: self.name.clone(),
            before_callbacks,
            after_callbacks,
            step,
            events: Vec::new(),
            failure: None,
        }
    }

    /// The own step of an agent that is nothing but a base: no events.
    pub fn run_async_impl(&self, _context: &InvocationContext) -> (r: Result<
        Vec<Event>,
        AgentError,
    >)
        ensures
            outcome_of(r) == Ok::<Seq<Event>, AgentErrorView>(Seq::<Event>::empty()),
    {
        Ok(Vec::new())
    }

    /// A base agent has no live mode.
    pub fn run_live_impl(&self, _context: &InvocationContext) -> (r: Result<Vec<Event>, AgentError>)
        ensures
            r matches Err(error) && error@ == AgentErrorView::UnsupportedOperation(
                "run_live not implemented"@,
            ),
    {
        Err(AgentError::UnsupportedOperation(String::from_str("run_live not implemented")))
    }
}

/// The report of one callback: its reply or the text of its failure, and the
/// event that the run emitted where the reply had content.
pub ghost struct CallbackReport {
    pub reply: Result<HookReply, String>,
    pub event: Event,
}

impl CallbackReport {
    /// Whether the callback replied with content.
    pub open spec fn has_content(self) -> bool {
        self.reply matches Ok(heard) && heard.content is Some
    }

    /// Whether the callback replied and did not ask to end the invocation.
    pub open spec fn goes_on(self) -> bool {
        self.reply matches Ok(heard) && !heard.end_invocation
    }
}

/// The events of the reports that have content, in the order of the reports.
pub open spec fn emitted(reports: Seq<CallbackReport>) -> Seq<Event>
    decreases reports.len(),
{
    if reports.len() == 0 {
        Seq::<Event>::empty()
    } else if reports.last().has_content() {
        emitted(reports.drop_last()).push(reports.last().event)
    } else {
        emitted(reports.drop_last())
    }
}

/// The run after the callbacks have reported `reports`, one after the other.
pub open spec fn after_reports(run: AgentRunView, reports: Seq<CallbackReport>) -> AgentRunView
    decreases reports.len(),
{
    if reports.len() == 0 {
        run
    } else {
        after_reports(run, reports.drop_last()).callback_done(
            reports.last().reply,
            reports.last().event,
        )
    }
}

/// An agent without callbacks whose own step yields nothing comes to an empty
/// list of events, and the request to end the invocation stays unset.
pub proof fn lemma_plain_run_is_empty<C>(agent: BaseAgent<C>, parent: InvocationContextView)
    requires
        agent.before_callbacks() == 0,
        agent.after_callbacks() == 0,
    ensures
        agent.opening(parent).step is Core,
        agent.opening(parent).core_done(Ok(Seq::<Event>::empty())).outcome() == Some(
            Ok::<Seq<Event>, AgentErrorView>(Seq::<Event>::empty()),
        ),
        !agent.opening(parent).core_done(Ok(Seq::<Event>::empty())).context.end_invocation,
        agent.opening(parent).core_done(Ok(Seq::<Event>::empty())).context == agent.opening(
            parent,
        ).context,
{
    assert(agent.opening(parent).events + Seq::<Event>::empty() =~= Seq::<Event>::empty());
}

/// A callback before the agent's own step that replies with content, on an
/// invocation that it or an earlier callback asked to end, ends the run at
/// once: the run is done with its events so far and the one event more, so
/// neither the agent's own step nor a later callback is ever asked for.
pub proof fn lemma_override_ends_run(run: AgentRunView, heard: HookReply, event: Event)
    requires
        run.wf(),
        run.step is BeforeCallback,
        heard.content is Some,
        heard.end_invocation || run.context.end_invocation,
    ensures
        run.callback_done(Ok(heard), event).step is Done,
        run.callback_done(Ok(heard), event).context.end_invocation,
        run.callback_done(Ok(heard), event).outcome() == Some(
            Ok::<Seq<Event>, AgentErrorView>(run.events.push(event)),
        ),
{
}

/// A run that is done stays as it is, whatever is reported to it: its
/// outcome cannot change, and an error cannot get lost.
pub proof fn lemma_done_is_final(
    run: AgentRunView,
    reply: Result<HookReply, String>,
    event: Event,
    outcome: Outcome,
)
    requires
        run.step is Done,
    ensures
        run.callback_done(reply, event) == run,
        run.core_done(outcome) == run,
{
}

/// The events of a run are only ever added to: whatever is reported, the
/// events that the run held before are the first of those it holds after.
pub proof fn lemma_events_are_append_only(
    run: AgentRunView,
    reply: Result<HookReply, String>,
    event: Event,
    outcome: Outcome,
)
    ensures
        run.events.is_prefix_of(run.callback_done(reply, event).events),
        run.events.is_prefix_of(run.core_done(outcome).events),
{
}

/// A failure ends the run with that failure and nothing else: a callback's
/// as `HookFailure`, that of the agent's own step as it came.
pub proof fn lemma_failure_ends_run(
    run: AgentRunView,
    text: String,
    error: AgentErrorView,
    event: Event,
)
    requires
        run.wf(),
    ensures
        run.step is BeforeCallback || run.step is AfterCallback ==> run.callback_done(
            Err(text),
            event,
        ).outcome() == Some(Err::<Seq<Event>, AgentErrorView>(AgentErrorView::HookFailure(text@))),
        run.step is Core ==> run.core_done(Err(error)).outcome() == Some(
            Err::<Seq<Event>, AgentErrorView>(error),
        ),
{
}

/// While no callback asks to end the invocation and none fails, the
/// callbacks before the agent's own step are asked for in the order of their
/// list, each adds its event where it has content, and after the last of them
/// the agent's own step is asked for.
pub proof fn lemma_before_callbacks_in_order(
    run: AgentRunView,
    from: usize,
    reports: Seq<CallbackReport>,
)
    requires
        run.wf(),
        run.step == RunStep::BeforeCallback(from),
        !run.context.end_invocation,
        from + reports.len() <= run.before_callbacks,
        forall|i: int| 0 <= i < reports.len() ==> (#[trigger] reports[i]).goes_on(),
    ensures
        after_reports(run, reports).step == (if from + reports.len() < run.before_callbacks {
            RunStep::BeforeCallback((from + reports.len()) as usize)
        } else {
            RunStep::Core
        }),
        after_reports(run, reports).events == run.events + emitted(reports),
        after_reports(run, reports).context == run.context,
        after_reports(run, reports).failure == run.failure,
        after_reports(run, reports).before_callbacks == run.before_callbacks,
        after_reports(run, reports).after_callbacks == run.after_callbacks,
        after_reports(run, reports).author == run.author,
        after_reports(run, reports).wf(),
    decreases reports.len(),
{
    if reports.len() == 0 {
        assert(run.events + emitted(reports) =~= run.events);
    } else {
        let earlier = reports.drop_last();
        lemma_before_callbacks_in_order(run, from, earlier);
        let mid = after_reports(run, earlier);
        assert(reports.last().goes_on());
        assert(mid.step == RunStep::BeforeCallback((from + earlier.len()) as usize));
        let next = mid.callback_done(reports.last().reply, reports.last().event);
        assert(next.context =~= run.context);
        if reports.last().has_content() {
            assert(run.events + emitted(reports) =~= (run.events + emitted(earlier)).push(
                reports.last().event,
            ));
        }
    }
}

/// While none fails, the callbacks after the agent's own step are asked for
/// in the order of their list, whether or not the invocation was asked to
/// end; each adds its event where it has content, and after the last of them
/// the run is done.
pub proof fn lemma_after_callbacks_in_order(
    run: AgentRunView,
    from: usize,
    reports: Seq<CallbackReport>,
)
    requires
        run.wf(),
        run.step == RunStep::AfterCallback(from),
        from + reports.len() <= run.after_callbacks,
        forall|i: int| 0 <= i < reports.len() ==> (#[trigger] reports[i]).reply is Ok,
    ensures
        after_reports(run, reports).step == (if from + reports.len() < run.after_callbacks {
            RunStep::AfterCallback((from + reports.len()) as usize)
        } else {
            RunStep::Done
        }),
        after_reports(run, reports).events == run.events + emitted(reports),
        after_reports(run, reports).failure == run.failure,
        after_reports(run, reports).before_callbacks == run.before_callbacks,
        after_reports(run, reports).after_callbacks == run.after_callbacks,
        after_reports(run, reports).wf(),
    decreases reports.len(),
{
    if reports.len() == 0 {
        assert(run.events + emitted(reports) =~= run.events);
    } else {
        let earlier = reports.drop_last();
        lemma_after_callbacks_in_order(run, from, earlier);
        let mid = after_reports(run, earlier);
        assert(reports.last().reply is Ok);
        assert(mid.step == RunStep::AfterCallback((from + earlier.len()) as usize));
        if reports.last().has_content() {
            assert(run.events + emitted(reports) =~= (run.events + emitted(earlier)).push(
                reports.last().event,
            ));
        }
    }
}

/// The events of a whole invocation come in the order in which they came
/// about: those of the callbacks before the agent's own step, then those of
/// the step, then those of the callbacks after it. This holds of every agent
/// whose callbacks all reply, none of those that come before asking to end
/// the invocation, and whose own step succeeds.
pub proof fn lemma_run_concatenates<C>(
    agent: BaseAgent<C>,
    parent: InvocationContextView,
    before: Seq<CallbackReport>,
    core: Seq<Event>,
    after: Seq<CallbackReport>,
)
    requires
        agent.before_callbacks() <= usize::MAX,
        agent.after_callbacks() <= usize::MAX,
        before.len() == agent.before_callbacks(),
        after.len() == agent.after_callbacks(),
        forall|i: int| 0 <= i < before.len() ==> (#[trigger] before[i]).goes_on(),
        forall|i: int| 0 <= i < after.len() ==> (#[trigger] after[i]).reply is Ok,
    ensures
        after_reports(
            after_reports(agent.opening(parent), before).core_done(Ok(core)),
            after,
        ).outcome() == Some(
            Ok::<Seq<Event>, AgentErrorView>(emitted(before) + core + emitted(after)),
        ),
{
    let start = agent.opening(parent);
    if before.len() > 0 {
        lemma_before_callbacks_in_order(start, 0, before);
    }
    let ready = after_reports(start, before);
    assert(ready.step is Core);
    assert(ready.events =~= emitted(before)) by {
        if before.len() > 0 {
            assert(start.events + emitted(before) =~= emitted(before));
        }
    }
    let cored = ready.core_done(Ok(core));
    if after.len() > 0 {
        lemma_after_callbacks_in_order(cored, 0, after);
    }
    let last = after_reports(cored, after);
    assert(last.events =~= emitted(before) + core + emitted(after));
}

/// `tokio::sync::mpsc::Sender`, the sending half of a channel. The kernel
/// hands it through, from the message that asks for a run to whoever sends
/// the outcome back.
#[verifier::external_type_specification]
#[verifier::external_body]
#[verifier::reject_recursive_types(T)]
pub struct ExSender<T>(tokio::sync::mpsc::Sender<T>);

/// The channel on which an agent sends back what a run came to.
pub type ReplySender = tokio::sync::mpsc::Sender<Result<Vec<Event>, AgentError>>;

/// What an agent is asked to do, and where the outcome is to go.
pub enum BaseAgentMessage {
    RunAsync { context: InvocationContext, sender: ReplySender },
    RunLive { context: InvocationContext, sender: ReplySender },
}

/// What an agent keeps while it serves messages.
#[derive(Debug)]
pub struct BaseAgentState<C> {
    pub name: String,
    pub description: String,
    pub parent_agent: Option<AgentHandle>,
    pub sub_agents: Vec<AgentHandle>,
    pub before_agent_callback: Option<Vec<C>>,
    pub after_agent_callback: Option<Vec<C>>,
}

/// What an agent is started with.
#[derive(Debug)]
pub struct BaseAgentArguments<C> {
    pub name: String,
    pub description: String,
    pub sub_agents: Vec<AgentHandle>,
    pub before_agent_callback: Option<Vec<C>>,
    pub after_agent_callback: Option<Vec<C>>,
}

/// Whether `copy` is a list of copies of the callbacks of `list`, one for
/// one; or no list, where `list` is none.
pub open spec fn is_copy_of<C: Clone>(copy: Option<Vec<C>>, list: Option<Vec<C>>) -> bool {
    match (copy, list) {
        (Some(to), Some(from)) => to@.len() == from@.len() && forall|i: int|
            0 <= i < from@.len() ==> cloned::<C>(#[trigger] from@[i], to@[i]),
        (None, None) => true,
        _ => false,
    }
}

fn copy_callbacks<C: Clone>(list: &Option<Vec<C>>) -> (copy: Option<Vec<C>>)
    ensures
        is_copy_of(copy, *list),
{
    match list {
        Some(callbacks) => Some(callbacks.clone()),
        None => None,
    }
}

impl<C: Clone> Clone for BaseAgent<C> {
    /// A copy of the agent: the same name, description, parent and
    /// children, and copies of its callbacks, one for one.
    fn clone(&self) -> (agent: Self)
        ensures
            agent.name == self.name,
            agent.description == self.description,
            agent.parent_agent == self.parent_agent,
            agent.sub_agents@ == self.sub_agents@,
            is_copy_of(agent.before_agent_callback, self.before_agent_callback),
            is_copy_of(agent.after_agent_callback, self.after_agent_callback),
    {
        BaseAgent {
            name: self.name.clone(),
            description: self.description.clone(),
            parent_agent: self.parent_agent(),
            sub_agents: clone_handles(&self.sub_agents),
            before_agent_callback: copy_callbacks(&self.before_agent_callback),
            after_agent_callback: copy_callbacks(&self.after_agent_callback),
        }
    }
}

impl<C: Clone> BaseAgent<C> {
    /// The state that the agent starts with: what the agent itself holds,
    /// whatever the arguments say.
    pub fn pre_start(&self, _args: BaseAgentArguments<C>) -> (state: BaseAgentState<C>)
        ensures
            state.name == self.name,
            state.description == self.description,
            state.parent_agent == self.parent_agent,
            state.sub_agents@ == self.sub_agents@,
            is_copy_of(state.before_agent_callback, self.before_agent_callback),
            is_copy_of(state.after_agent_callback, self.after_agent_callback),
    {
        BaseAgentState {
            name: self.name.clone(),
            description: self.description.clone(),
            parent_agent: self.parent_agent(),
            sub_agents: clone_handles(&self.sub_agents),
            before_agent_callback: copy_callbacks(&self.before_agent_callback),
            after_agent_callback: copy_callbacks(&self.after_agent_callback),
        }
    }
}

impl<C> BaseAgent<C> {
    /// Serves one message: performs the agent's own step in the mode that
    /// the message asks for, and hands back what it came to together with
    /// the channel on which that is to be sent.
    pub fn handle(&self, message: BaseAgentMessage) -> (served: (
        Result<Vec<Event>, AgentError>,
        ReplySender,
    ))
        ensures
            match message {
                BaseAgentMessage::RunAsync { context, sender } => outcome_of(served.0) == Ok::<
                    Seq<Event>,
                    AgentErrorView,
                >(Seq::<Event>::empty()) && served.1 == sender,
                BaseAgentMessage::RunLive { context, sender } => served.0 matches Err(error)
                    && error@ == AgentErrorView::UnsupportedOperation("run_live not implemented"@)
                    && served.1 == sender,
            },
    {
        match message {
            BaseAgentMessage::RunAsync { context, sender } => (
                self.run_async_impl(&context),
                sender,
            ),
            BaseAgentMessage::RunLive { context, sender } => (self.run_live_impl(&context), sender),
        }
    }
}

/// A child's branch holds its parent's, and a grandchild's its child's: two
/// names below a root without a branch, the branch is the first name, a dot
/// and the second.
pub proof fn lemma_branches_nest(
    root: InvocationContextView,
    child: Seq<char>,
    grandchild: Seq<char>,
)
    requires
        root.branch is None || root.branch == Some(Seq::<char>::empty()),
        child.len() > 0,
    ensures
        derived_context(root, child).branch == Some(child),
        derived_context(derived_context(root, child), grandchild).branch == Some(
            child + seq!['.'] + grandchild,
        ),
        derived_context(derived_context(root, child), grandchild).cost_manager
            == root.cost_manager,
        derived_context(derived_context(root, child), grandchild).invocation_id
            == root.invocation_id,
{
}

} // verus!
