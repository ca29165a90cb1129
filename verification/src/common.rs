//! Events, their side-effect descriptors, sessions, agent handles and the
//! kernel's errors.

use std::collections::HashMap;
use vstd::prelude::*;
use vstd::string::StringExecFns;

verus! {

/// `serde_json::Value`, the type of the values of a state delta. The kernel
/// carries such values and never looks inside one.
#[verifier::external_type_specification]
#[verifier::external_body]
pub struct ExJsonValue(serde_json::Value);

/// Payload of an event or of a user's input. Its format belongs to the
/// collaborators that produce and consume it.
#[derive(Clone, Copy, Debug)]
pub struct Content;

/// Reference to an artifact.
#[derive(Clone, Copy, Debug)]
pub struct Part;

/// Handle of the service that persists sessions.
#[derive(Clone, Copy, Debug)]
pub struct BaseSessionService;

/// Handle of the service that persists artifacts.
#[derive(Clone, Copy, Debug)]
pub struct BaseArtifactService;

/// Queue of live requests of a streaming run.
#[derive(Clone, Copy, Debug)]
pub struct LiveRequestQueue;

/// A tool that an agent may use.
#[derive(Clone, Copy, Debug)]
pub struct BaseTool;

/// Non-owning handle of an agent: the name under which its siblings know it.
#[derive(Debug)]
pub struct AgentHandle {
    pub name: String,
}

impl AgentHandle {
    pub fn new(name: String) -> (h: AgentHandle)
        ensures
            h.name == name,
    {
        AgentHandle { name }
    }

    pub fn name(&self) -> (n: &str)
        ensures
            n@ == self.name@,
    {
        self.name.as_str()
    }
}

impl Clone for AgentHandle {
    fn clone(&self) -> (h: Self)
        ensures
            h == *self,
    {
        AgentHandle { name: self.name.clone() }
    }
}

/// The names of a list of handles, in order.
pub open spec fn handle_names(handles: Seq<AgentHandle>) -> Seq<Seq<char>> {
    Seq::new(handles.len(), |i: int| handles[i].name@)
}

/// Copies a list of handles.
pub fn clone_handles(handles: &Vec<AgentHandle>) -> (copy: Vec<AgentHandle>)
    ensures
        copy@ == handles@,
{
    let mut copy: Vec<AgentHandle> = Vec::new();
    let mut i: usize = 0;
    while i < handles.len()
        invariant
            i <= handles.len(),
            copy@ == handles@.take(i as int),
        decreases handles.len() - i,
    {
        copy.push(handles[i].clone());
        assert(handles@.take(i as int).push(handles@[i as int]) =~= handles@.take(i + 1));
        i = i + 1;
    }
    assert(handles@.take(handles.len() as int) =~= handles@);
    copy
}

/// Why a run, or a step of one, failed.
#[derive(Debug)]
pub enum AgentError {
    /// The quota of cost-incurring calls is used up.
    LlmCallsLimitExceeded(String),
    /// The agent was run in a mode that it does not implement.
    UnsupportedOperation(String),
    /// A child of a composite failed: the child's branch, and its error.
    ChildFailure(String, Box<AgentError>),
    /// A callback failed.
    HookFailure(String),
}

/// What an error is, to contracts.
pub ghost enum AgentErrorView {
    LlmCallsLimitExceeded(Seq<char>),
    UnsupportedOperation(Seq<char>),
    ChildFailure(Seq<char>, Box<AgentErrorView>),
    HookFailure(Seq<char>),
}

impl AgentErrorView {
    /// The text of the error. A child's failure reads as the child's branch,
    /// a colon and a space, and the text of the child's error.
    pub open spec fn message(self) -> Seq<char>
        decreases self,
    {
        match self {
            AgentErrorView::LlmCallsLimitExceeded(text) => text,
            AgentErrorView::UnsupportedOperation(text) => text,
            AgentErrorView::ChildFailure(branch, source) => branch + seq![':', ' ']
                + source.message(),
            AgentErrorView::HookFailure(text) => text,
        }
    }

    /// The error at the bottom of a chain of child failures.
    pub open spec fn root_cause(self) -> AgentErrorView
        decreases self,
    {
        match self {
            AgentErrorView::ChildFailure(_, source) => source.root_cause(),
            _ => self,
        }
    }

    /// How many composites the error has passed through.
    pub open spec fn depth(self) -> nat
        decreases self,
    {
        match self {
            AgentErrorView::ChildFailure(_, source) => 1 + source.depth(),
            _ => 0,
        }
    }
}

impl AgentError {
    /// The error with its texts as sequences of characters.
    pub open spec fn as_view(self) -> AgentErrorView
        decreases self,
    {
        match self {
            AgentError::LlmCallsLimitExceeded(text) => AgentErrorView::LlmCallsLimitExceeded(text@),
            AgentError::UnsupportedOperation(text) => AgentErrorView::UnsupportedOperation(text@),
            AgentError::ChildFailure(branch, source) => AgentErrorView::ChildFailure(
                branch@,
                Box::new(source.as_view()),
            ),
            AgentError::HookFailure(text) => AgentErrorView::HookFailure(text@),
        }
    }
}

impl View for AgentError {
    type V = AgentErrorView;

    open spec fn view(&self) -> AgentErrorView {
        self.as_view()
    }
}

impl AgentError {
    pub fn to_string(&self) -> (text: String)
        ensures
            text@ == self@.message(),
        decreases self,
    {
        match self {
            AgentError::LlmCallsLimitExceeded(text) => text.clone(),
            AgentError::UnsupportedOperation(text) => text.clone(),
            AgentError::ChildFailure(branch, source) => {
                let mut text = branch.clone();
                text.append(": ");
                let rest = source.to_string();
                text.append(rest.as_str());
                proof {
                    reveal_strlit(": ");
                    assert(": "@ =~= seq![':', ' ']);
                }
                text
            },
            AgentError::HookFailure(text) => text.clone(),
        }
    }

    /// The error that a leaf or a callback raised, under any number of
    /// composites that passed it on.
    pub fn root_cause(&self) -> (cause: &AgentError)
        ensures
            cause@ == self@.root_cause(),
            !(cause is ChildFailure),
        decreases self,
    {
        match self {
            AgentError::ChildFailure(_, source) => source.root_cause(),
            _ => self,
        }
    }

    /// The failure of the child at `branch` that failed with `source`.
    pub fn child_failure(branch: String, source: AgentError) -> (error: AgentError)
        ensures
            error@ == AgentErrorView::ChildFailure(branch@, Box::new(source@)),
    {
        AgentError::ChildFailure(branch, Box::new(source))
    }
}

/// An error that passes through a composite keeps its root cause, and is one
/// composite deeper.
pub proof fn lemma_child_failure_keeps_root_cause(branch: Seq<char>, source: AgentErrorView)
    ensures
        AgentErrorView::ChildFailure(branch, Box::new(source)).root_cause() == source.root_cause(),
        AgentErrorView::ChildFailure(branch, Box::new(source)).depth() == source.depth() + 1,
        !(source.root_cause() is ChildFailure),
    decreases source,
{
    match source {
        AgentErrorView::ChildFailure(inner_branch, inner) => {
            lemma_child_failure_keeps_root_cause(inner_branch, *inner);
        },
        _ => {},
    }
}

/// What a session is, to contracts.
pub ghost struct SessionView {
    pub state: Map<String, serde_json::Value>,
    pub app_name: Seq<char>,
    pub user_id: Seq<char>,
    pub id: Seq<char>,
}

/// Persisted state of a conversation or task. The session service owns it;
/// the kernel borrows it and hands it on.
#[derive(Debug)]
pub struct Session {
    state: HashMap<String, serde_json::Value>,
    app_name: String,
    user_id: String,
    id: String,
}

impl View for Session {
    type V = SessionView;

    closed spec fn view(&self) -> SessionView {
        SessionView {
            state: self.state@,
            app_name: self.app_name@,
            user_id: self.user_id@,
            id: self.id@,
        }
    }
}

impl Session {
    /// A session without state.
    pub fn new(app_name: String, user_id: String, id: String) -> (s: Session)
        ensures
            s@.state == Map::<String, serde_json::Value>::empty(),
            s@.app_name == app_name@,
            s@.user_id == user_id@,
            s@.id == id@,
    {
        Session { state: HashMap::new(), app_name, user_id, id }
    }

    pub fn state(&self) -> (m: &HashMap<String, serde_json::Value>)
        ensures
            m@ == self@.state,
    {
        &self.state
    }

    pub fn app_name(&self) -> (n: &str)
        ensures
            n@ == self@.app_name,
    {
        self.app_name.as_str()
    }

    pub fn user_id(&self) -> (u: &str)
        ensures
            u@ == self@.user_id,
    {
        self.user_id.as_str()
    }

    pub fn id(&self) -> (i: &str)
        ensures
            i@ == self@.id,
    {
        self.id.as_str()
    }
}

impl Clone for Session {
    fn clone(&self) -> (s: Self)
        ensures
            s@ == self@,
    {
        Session {
            state: self.state.clone(),
            app_name: self.app_name.clone(),
            user_id: self.user_id.clone(),
            id: self.id.clone(),
        }
    }
}

/// What the side effects of an event are, to contracts.
pub ghost struct EventActionsView {
    pub state_delta: Map<String, serde_json::Value>,
    pub escalate: bool,
    pub artifact_delta: Map<String, Part>,
}

/// The descriptor without side effects: empty deltas, no escalation.
pub open spec fn no_actions() -> EventActionsView {
    EventActionsView {
        state_delta: Map::<String, serde_json::Value>::empty(),
        escalate: false,
        artifact_delta: Map::<String, Part>::empty(),
    }
}

/// Side effects that an event asks for. The kernel carries the deltas to the
/// collaborator that applies them; it reads `escalate` only.
#[derive(Debug)]
pub struct EventActions {
    state_delta: HashMap<String, serde_json::Value>,
    escalate: bool,
    artifact_delta: HashMap<String, Part>,
}

/// Incremental configuration of an [`EventActions`].
#[derive(Debug)]
pub struct EventActionsBuilder {
    state_delta: HashMap<String, serde_json::Value>,
    escalate: bool,
    artifact_delta: HashMap<String, Part>,
}

impl View for EventActions {
    type V = EventActionsView;

    closed spec fn view(&self) -> EventActionsView {
        EventActionsView {
            state_delta: self.state_delta@,
            escalate: self.escalate,
            artifact_delta: self.artifact_delta@,
        }
    }
}

impl View for EventActionsBuilder {
    type V = EventActionsView;

    closed spec fn view(&self) -> EventActionsView {
        EventActionsView {
            state_delta: self.state_delta@,
            escalate: self.escalate,
            artifact_delta: self.artifact_delta@,
        }
    }
}

impl EventActions {
    pub fn builder() -> (b: EventActionsBuilder)
        ensures
            b@ == no_actions(),
    {
        EventActionsBuilder {
            state_delta: HashMap::new(),
            escalate: false,
            artifact_delta: HashMap::new(),
        }
    }

    /// The state delta, open to changes.
    pub fn state_delta(&mut self) -> (m: &mut HashMap<String, serde_json::Value>)
        ensures
            m@ == old(self)@.state_delta,
            final(self)@ == (EventActionsView { state_delta: final(m)@, ..old(self)@ }),
    {
        &mut self.state_delta
    }

    pub fn escalate(&self) -> (e: Option<bool>)
        ensures
            e == Some(self@.escalate),
    {
        Some(self.escalate)
    }

    /// The artifact delta, open to changes.
    pub fn artifact_delta(&mut self) -> (m: &mut HashMap<String, Part>)
        ensures
            m@ == old(self)@.artifact_delta,
            final(self)@ == (EventActionsView { artifact_delta: final(m)@, ..old(self)@ }),
    {
        &mut self.artifact_delta
    }
}

impl Clone for EventActions {
    fn clone(&self) -> (a: Self)
        ensures
            a@ == self@,
    {
        EventActions {
            state_delta: self.state_delta.clone(),
            escalate: self.escalate,
            artifact_delta: self.artifact_delta.clone(),
        }
    }
}

impl EventActionsBuilder {
    /// Sets whether the event asks the nearest enclosing composition to stop.
    pub fn escalate(self, escalate: bool) -> (b: Self)
        ensures
            b@ == (EventActionsView { escalate, ..self@ }),
    {
        EventActionsBuilder {
            state_delta: self.state_delta,
            escalate,
            artifact_delta: self.artifact_delta,
        }
    }

    pub fn build(self) -> (a: EventActions)
        ensures
            a@ == self@,
    {
        EventActions {
            state_delta: self.state_delta,
            escalate: self.escalate,
            artifact_delta: self.artifact_delta,
        }
    }
}

/// Whether `text` is a UUID in its hyphenated lower-case form: 36 characters,
/// hyphens after the 8th, 12th, 16th and 20th digit, hexadecimal digits
/// elsewhere.
pub open spec fn is_hyphenated_uuid(text: Seq<char>) -> bool {
    &&& text.len() == 36
    &&& forall|i: int|
        0 <= i < 36 ==> if i == 8 || i == 13 || i == 18 || i == 23 {
            #[trigger] text[i] == '-'
        } else {
            is_lower_hex(#[trigger] text[i])
        }
}

/// Whether `c` is one of `0` to `9` or `a` to `f`.
pub open spec fn is_lower_hex(c: char) -> bool {
    ('0' <= c && c <= '9') || ('a' <= c && c <= 'f')
}

/// Whether `text` has the form of an identifier that the kernel generates:
/// `e-` and a hyphenated UUID.
pub open spec fn is_generated_id(text: Seq<char>) -> bool {
    &&& text.len() == 38
    &&& text[0] == 'e'
    &&& text[1] == '-'
    &&& is_hyphenated_uuid(text.subrange(2, 38))
}

/// `uuid::Uuid::new_v4`, rendered by the `Display` of `Uuid`: a fresh random
/// UUID as text. The contract claims the form of the text alone, which the
/// formatter of the crate fixes for every UUID; nothing is claimed of the
/// digits. The crate stops the process where the system has no randomness to
/// give.
#[verifier::external_body]
fn fresh_uuid_text() -> (text: String)
    ensures
        is_hyphenated_uuid(text@),
{
    uuid::Uuid::new_v4().to_string()
}

/// A fresh identifier: `e-` and a random UUID.
pub fn generate_id() -> (id: String)
    ensures
        is_generated_id(id@),
{
    let uuid = fresh_uuid_text();
    let id = String::from_str("e-").concat(uuid.as_str());
    proof {
        reveal_strlit("e-");
        assert(id@.subrange(2, 38) =~= uuid@);
    }
    id
}

/// The unit of observable output of a run.
#[derive(Debug)]
pub struct Event {
    pub id: String,
    pub invocation_id: String,
    pub author: String,
    pub branch: Option<String>,
    pub actions: EventActions,
    pub content: Option<Content>,
    pub final_response: bool,
}

/// Incremental configuration of an [`Event`].
#[derive(Debug)]
pub struct EventBuilder {
    id: String,
    invocation_id: String,
    author: String,
    branch: Option<String>,
    actions: EventActions,
    content: Option<Content>,
    final_response: bool,
}

impl Event {
    /// A builder whose event has a fresh identifier and nothing else.
    pub fn builder() -> (b: EventBuilder)
        ensures
            is_generated_id(b.pending().id@),
            b.pending().invocation_id@ == Seq::<char>::empty(),
            b.pending().author@ == Seq::<char>::empty(),
            b.pending().branch is None,
            b.pending().actions@ == no_actions(),
            b.pending().content is None,
            !b.pending().final_response,
    {
        EventBuilder {
            id: Event::generate_event_id(),
            invocation_id: String::new(),
            author: String::new(),
            branch: None,
            actions: EventActions::builder().build(),
            content: None,
            final_response: false,
        }
    }

    pub fn generate_event_id() -> (id: String)
        ensures
            is_generated_id(id@),
    {
        generate_id()
    }

    pub fn actions(&self) -> (a: &EventActions)
        ensures
            *a == self.actions,
    {
        &self.actions
    }

    pub fn final_response(&self) -> (f: bool)
        ensures
            f == self.final_response,
    {
        self.final_response
    }

    pub fn content(&self) -> (c: Option<&Content>)
        ensures
            c is Some == self.content is Some,
            c matches Some(payload) ==> self.content == Some(*payload),
    {
        self.content.as_ref()
    }

    /// Whether the event asks the nearest enclosing composition to stop.
    pub open spec fn escalates(self) -> bool {
        self.actions@.escalate
    }
}

impl Clone for Event {
    /// A copy with the same identifier and the same content: the copy stands
    /// for the same event.
    fn clone(&self) -> (e: Self)
        ensures
            e.id == self.id,
            e.invocation_id == self.invocation_id,
            e.author == self.author,
            e.branch == self.branch,
            e.actions@ == self.actions@,
            e.content == self.content,
            e.final_response == self.final_response,
    {
        let branch = match &self.branch {
            Some(path) => Some(path.clone()),
            None => None,
        };
        Event {
            id: self.id.clone(),
            invocation_id: self.invocation_id.clone(),
            author: self.author.clone(),
            branch,
            actions: self.actions.clone(),
            content: self.content,
            final_response: self.final_response,
        }
    }
}

impl EventBuilder {
    /// The event that `build` would return now.
    pub closed spec fn pending(self) -> Event {
        Event {
            id: self.id,
            invocation_id: self.invocation_id,
            author: self.author,
            branch: self.branch,
            actions: self.actions,
            content: self.content,
            final_response: self.final_response,
        }
    }

    pub fn id(self, id: String) -> (b: Self)
        ensures
            b.pending() == (Event { id, ..self.pending() }),
    {
        let mut b = self;
        b.id = id;
        b
    }

    pub fn invocation_id(self, invocation_id: String) -> (b: Self)
        ensures
            b.pending() == (Event { invocation_id, ..self.pending() }),
    {
        let mut b = self;
        b.invocation_id = invocation_id;
        b
    }

    pub fn author(self, author: String) -> (b: Self)
        ensures
            b.pending() == (Event { author, ..self.pending() }),
    {
        let mut b = self;
        b.author = author;
        b
    }

    pub fn branch(self, branch: Option<String>) -> (b: Self)
        ensures
            b.pending() == (Event { branch, ..self.pending() }),
    {
        let mut b = self;
        b.branch = branch;
        b
    }

    pub fn actions(self, actions: EventActions) -> (b: Self)
        ensures
            b.pending() == (Event { actions, ..self.pending() }),
    {
        let mut b = self;
        b.actions = actions;
        b
    }

    pub fn content(self, content: Option<Content>) -> (b: Self)
        ensures
            b.pending() == (Event { content, ..self.pending() }),
    {
        let mut b = self;
        b.content = content;
        b
    }

    pub fn build(self) -> (e: Event)
        ensures
            e == self.pending(),
    {
        Event {
            id: self.id,
            invocation_id: self.invocation_id,
            author: self.author,
            branch: self.branch,
            actions: self.actions,
            content: self.content,
            final_response: self.final_response,
        }
    }
}

/// Whether one of `events` escalates.
pub open spec fn has_escalation(events: Seq<Event>) -> bool {
    exists|i: int| 0 <= i < events.len() && (#[trigger] events[i]).escalates()
}

/// Whether one of `events` asks the enclosing composition to stop.
pub fn any_escalation(events: &Vec<Event>) -> (found: bool)
    ensures
        found == has_escalation(events@),
{
    let mut i: usize = 0;
    while i < events.len()
        invariant
            i <= events.len(),
            forall|j: int| 0 <= j < i ==> !(#[trigger] events@[j]).escalates(),
        decreases events.len() - i,
    {
        match events[i].actions().escalate() {
            Some(true) => {
                return true;
            },
            _ => {},
        }
        i = i + 1;
    }
    false
}

/// What a step or a run came to: its events in order, or its error.
pub type Outcome = Result<Seq<Event>, AgentErrorView>;

/// The outcome that a result stands for.
pub open spec fn outcome_of(result: Result<Vec<Event>, AgentError>) -> Outcome {
    match result {
        Ok(events) => Ok(events@),
        Err(error) => Err(error@),
    }
}

/// What an optional error is, to contracts.
pub open spec fn failure_of(failure: Option<AgentError>) -> Option<AgentErrorView> {
    match failure {
        Some(error) => Some(error@),
        None => None,
    }
}

} // verus!
