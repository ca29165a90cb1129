//! The run context that travels down an agent tree, and the quota counter
//! that every context of one run shares.

use crate::common::{
    generate_id, is_generated_id, AgentError, AgentErrorView, AgentHandle,
    BaseArtifactService, BaseSessionService, Content, LiveRequestQueue, Session, SessionView,
};
use crate::run_config::RunConfig;
use crate::text::{decimal, decimal_string};
use std::sync::Arc;
use vstd::prelude::*;
use vstd::rwlock::{RwLock, RwLockPredicate};
use vstd::string::StringExecFns;

verus! {

/// The text of the error that reports a used-up quota of `max` calls.
pub open spec fn limit_message(max: int) -> Seq<char> {
    "Max number of LLM calls limit of "@ + decimal(max as nat) + " exceeded"@
}

/// Whether a count of `calls` is beyond the quota `max`; a quota of zero or
/// less bounds nothing.
pub open spec fn over_limit(calls: int, max: int) -> bool {
    max > 0 && calls > max
}

/// Counter of the cost-incurring calls of one top-level run.
#[derive(Debug)]
pub struct InvocationCostManager {
    number_of_llm_calls: i32,
}

impl InvocationCostManager {
    /// The calls counted so far.
    pub closed spec fn calls(&self) -> int {
        self.number_of_llm_calls as int
    }

    /// A counter that has counted nothing.
    pub fn new() -> (m: InvocationCostManager)
        ensures
            m.calls() == 0,
    {
        InvocationCostManager { number_of_llm_calls: 0 }
    }

    pub fn number_of_llm_calls(&self) -> (n: i32)
        ensures
            n == self.calls(),
    {
        self.number_of_llm_calls
    }

    /// Fails where the count is beyond the quota of `run_config`; counts
    /// nothing.
    pub fn enforce_llm_calls_limit(&self, run_config: &RunConfig) -> (r: Result<(), AgentError>)
        ensures
            r is Err <==> over_limit(self.calls(), run_config.max_llm_calls() as int),
            r matches Err(e) ==> e@ == AgentErrorView::LlmCallsLimitExceeded(
                limit_message(run_config.max_llm_calls() as int),
            ),
    {
        let max = run_config.max_llm_calls();
        if max > 0 && self.number_of_llm_calls > max {
            let mut text = String::from_str("Max number of LLM calls limit of ");
            let number = decimal_string(max as u32);
            text.append(number.as_str());
            text.append(" exceeded");
            Err(AgentError::LlmCallsLimitExceeded(text))
        } else {
            Ok(())
        }
    }

    /// Counts one call, then fails where the count is beyond the quota. The
    /// call is counted whether or not it is within the quota.
    pub fn increment_and_enforce_llm_calls_limit(&mut self, run_config: &RunConfig) -> (r: Result<
        (),
        AgentError,
    >)
        requires
            old(self).calls() < i32::MAX,
        ensures
            final(self).calls() == old(self).calls() + 1,
            r is Err <==> over_limit(old(self).calls() + 1, run_config.max_llm_calls() as int),
            r matches Err(e) ==> e@ == AgentErrorView::LlmCallsLimitExceeded(
                limit_message(run_config.max_llm_calls() as int),
            ),
    {
        self.number_of_llm_calls = self.number_of_llm_calls + 1;
        self.enforce_llm_calls_limit(run_config)
    }

    /// Counts one call where the count can still grow, then fails where the
    /// count is beyond the quota. A count that has reached the largest `i32`
    /// stays there, and is tested as it stands.
    pub fn count_and_enforce_llm_calls_limit(&mut self, run_config: &RunConfig) -> (r: Result<
        (),
        AgentError,
    >)
        ensures
            final(self).calls() == (if old(self).calls() < i32::MAX {
                old(self).calls() + 1
            } else {
                old(self).calls()
            }),
            r is Err <==> over_limit(final(self).calls(), run_config.max_llm_calls() as int),
            r matches Err(e) ==> e@ == AgentErrorView::LlmCallsLimitExceeded(
                limit_message(run_config.max_llm_calls() as int),
            ),
    {
        if self.number_of_llm_calls < i32::MAX {
            self.increment_and_enforce_llm_calls_limit(run_config)
        } else {
            self.enforce_llm_calls_limit(run_config)
        }
    }
}

/// Exhaustion is sticky: once an attempt has failed, or the count is beyond a
/// positive quota, every later attempt fails too, however many come between.
pub proof fn lemma_exhaustion_is_sticky(calls: int, max: int, later: nat)
    requires
        over_limit(calls, max),
    ensures
        over_limit(calls + later + 1, max),
{
}

/// Under a positive quota of `max`, counted from zero, the attempts that
/// succeed are the first `max`, and no other.
pub proof fn lemma_quota_admits_exactly_max(max: int, attempt: nat)
    requires
        max > 0,
        attempt >= 1,
    ensures
        over_limit(attempt as int, max) <==> attempt > max,
{
}

/// Without a positive quota no attempt ever fails.
pub proof fn lemma_unlimited_never_fails(calls: int, max: int)
    requires
        max <= 0,
    ensures
        !over_limit(calls, max),
{
}

/// What the lock around a shared counter keeps true of it.
pub struct CountIsNatural;

impl RwLockPredicate<InvocationCostManager> for CountIsNatural {
    open spec fn inv(self, v: InvocationCostManager) -> bool {
        v.calls() >= 0
    }
}

/// `Arc::clone` of std: a second handle of the same allocation. To contracts
/// the two handles are one value.
#[verifier::external_body]
fn share<T>(handle: &Arc<T>) -> (other: Arc<T>)
    ensures
        other == *handle,
{
    Arc::clone(handle)
}

/// The branch of a child named `name` under a parent at `parent`: the
/// parent's branch, a dot and the name, or the name alone where the parent
/// has no branch or an empty one.
pub open spec fn child_branch(parent: Option<Seq<char>>, name: Seq<char>) -> Seq<char> {
    match parent {
        Some(path) => if path.len() > 0 {
            path + seq!['.'] + name
        } else {
            name
        },
        None => name,
    }
}

/// The text of an optional string.
pub open spec fn text_of(s: Option<String>) -> Option<Seq<char>> {
    match s {
        Some(text) => Some(text@),
        None => None,
    }
}

/// The text of an optional string slice.
pub open spec fn slice_text_of(s: Option<&str>) -> Option<Seq<char>> {
    match s {
        Some(text) => Some(text@),
        None => None,
    }
}

/// Computes the branch of a child named `name` under a parent at `parent`.
pub fn derive_branch(parent: Option<&str>, name: &str) -> (branch: String)
    ensures
        branch@ == child_branch(slice_text_of(parent), name@),
{
    match parent {
        Some(path) => {
            if path.is_empty() {
                String::from_str(name)
            } else {
                let mut branch = String::from_str(path);
                branch.append(".");
                branch.append(name);
                proof {
                    reveal_strlit(".");
                    assert("."@ =~= seq!['.']);
                }
                branch
            }
        },
        None => String::from_str(name),
    }
}

/// The quota counter of a run, behind the lock that its contexts share.
pub type SharedCostManager = Arc<RwLock<InvocationCostManager, CountIsNatural>>;

/// What a context is, to contracts.
pub ghost struct InvocationContextView {
    pub live_request_queue: Option<LiveRequestQueue>,
    pub branch: Option<Seq<char>>,
    pub invocation_id: Seq<char>,
    pub agent: Seq<char>,
    pub session: SessionView,
    pub user_content: Option<Content>,
    pub run_config: RunConfig,
    pub end_invocation: bool,
    pub cost_manager: SharedCostManager,
}

/// Snapshot of one invocation: its identity, where in the agent tree it
/// stands, the session, the run's options and the run's quota counter. A new
/// value is derived each time control passes into a child; the counter is the
/// one thing that all of them share.
pub struct InvocationContext {
    session_service: BaseSessionService,
    artifact_service: BaseArtifactService,
    live_request_queue: Option<LiveRequestQueue>,
    branch: Option<String>,
    invocation_id: String,
    agent: AgentHandle,
    session: Session,
    user_content: Option<Content>,
    run_config: RunConfig,
    end_invocation: bool,
    invocation_cost_manager: SharedCostManager,
}

impl View for InvocationContext {
    type V = InvocationContextView;

    closed spec fn view(&self) -> InvocationContextView {
        InvocationContextView {
            live_request_queue: self.live_request_queue,
            branch: text_of(self.branch),
            invocation_id: self.invocation_id@,
            agent: self.agent.name@,
            session: self.session@,
            user_content: self.user_content,
            run_config: self.run_config,
            end_invocation: self.end_invocation,
            cost_manager: self.invocation_cost_manager,
        }
    }
}

impl InvocationContext {
    /// Whether the two contexts count against the same quota counter.
    pub open spec fn shares_quota_with(&self, other: &InvocationContext) -> bool {
        self@.cost_manager == other@.cost_manager
    }

    /// The context of a top-level run: no branch, not ended, and a counter
    /// of its own.
    pub fn create(
        session_service: BaseSessionService,
        artifact_service: BaseArtifactService,
        invocation_id: String,
        agent: AgentHandle,
        session: Session,
        user_content: Option<Content>,
        run_config: RunConfig,
    ) -> (ctx: InvocationContext)
        ensures
            ctx@.live_request_queue is None,
            ctx@.branch is None,
            ctx@.invocation_id == invocation_id@,
            ctx@.agent == agent.name@,
            ctx@.session == session@,
            ctx@.user_content == user_content,
            ctx@.run_config == run_config,
            !ctx@.end_invocation,
    {
        let counter = RwLock::<InvocationCostManager, CountIsNatural>::new(
            InvocationCostManager::new(),
            Ghost(CountIsNatural),
        );
        InvocationContext {
            session_service,
            artifact_service,
            live_request_queue: None,
            branch: None,
            invocation_id,
            agent,
            session,
            user_content,
            run_config,
            end_invocation: false,
            invocation_cost_manager: Arc::new(counter),
        }
    }

    /// A copy of `other` that counts against the same quota counter.
    pub fn copy_of(other: &Self) -> (ctx: Self)
        ensures
            ctx@ == other@,
    {
        let branch = match &other.branch {
            Some(path) => Some(path.clone()),
            None => None,
        };
        InvocationContext {
            session_service: other.session_service,
            artifact_service: other.artifact_service,
            live_request_queue: other.live_request_queue,
            branch,
            invocation_id: other.invocation_id.clone(),
            agent: other.agent.clone(),
            session: other.session.clone(),
            user_content: other.user_content,
            run_config: other.run_config.clone(),
            end_invocation: other.end_invocation,
            invocation_cost_manager: share(&other.invocation_cost_manager),
        }
    }

    pub fn session_service(&self) -> (service: &BaseSessionService)
        ensures
            *service == BaseSessionService,
    {
        &self.session_service
    }

    pub fn artifact_service(&self) -> (service: &BaseArtifactService)
        ensures
            *service == BaseArtifactService,
    {
        &self.artifact_service
    }

    pub fn live_request_queue(&self) -> (q: Option<&LiveRequestQueue>)
        ensures
            q is Some == self@.live_request_queue is Some,
    {
        self.live_request_queue.as_ref()
    }

    pub fn invocation_id(&self) -> (id: &str)
        ensures
            id@ == self@.invocation_id,
    {
        self.invocation_id.as_str()
    }

    pub fn branch(&self) -> (b: Option<&str>)
        ensures
            slice_text_of(b) == self@.branch,
    {
        match &self.branch {
            Some(path) => Some(path.as_str()),
            None => None,
        }
    }

    pub fn set_branch(&mut self, branch: Option<String>)
        ensures
            final(self)@ == (InvocationContextView { branch: text_of(branch), ..old(self)@ }),
    {
        self.branch = branch;
    }

    pub fn agent(&self) -> (a: AgentHandle)
        ensures
            a.name@ == self@.agent,
    {
        self.agent.clone()
    }

    pub fn set_agent(&mut self, agent: AgentHandle)
        ensures
            final(self)@ == (InvocationContextView { agent: agent.name@, ..old(self)@ }),
    {
        self.agent = agent;
    }

    pub fn session(&self) -> (s: &Session)
        ensures
            s@ == self@.session,
    {
        &self.session
    }

    pub fn user_content(&self) -> (c: Option<&Content>)
        ensures
            c is Some == self@.user_content is Some,
    {
        self.user_content.as_ref()
    }

    pub fn run_config(&self) -> (c: &RunConfig)
        ensures
            *c == self@.run_config,
    {
        &self.run_config
    }

    pub fn end_invocation(&self) -> (e: bool)
        ensures
            e == self@.end_invocation,
    {
        self.end_invocation
    }

    /// Sets or clears the request to end the invocation.
    pub fn set_end_invocation(&mut self, end_invocation: bool)
        ensures
            final(self)@ == (InvocationContextView { end_invocation, ..old(self)@ }),
    {
        self.end_invocation = end_invocation;
    }

    pub fn app_name(&self) -> (n: &str)
        ensures
            n@ == self@.session.app_name,
    {
        self.session.app_name()
    }

    pub fn user_id(&self) -> (u: &str)
        ensures
            u@ == self@.session.user_id,
    {
        self.session.user_id()
    }

    pub fn new_invocation_context_id() -> (id: String)
        ensures
            is_generated_id(id@),
    {
        generate_id()
    }

    /// The calls that the run has counted so far, in whichever context.
    /// Other holders of the counter may count at any time, so two readings
    /// may differ.
    pub fn number_of_llm_calls(&self) -> (n: i32)
        ensures
            n >= 0,
    {
        let reader = self.invocation_cost_manager.acquire_read();
        let n = reader.borrow().number_of_llm_calls();
        reader.release_read();
        n
    }

    /// Counts one call against the run's quota and fails where the quota is
    /// used up. The count and the test are one step under the counter's
    /// lock. A count that has reached the largest `i32` stays there.
    ///
    /// The counter is shared, so the contract speaks of every outcome: no
    /// failure without a positive quota, and the one error where it fails.
    /// What decides between them is stated on
    /// [`InvocationCostManager::count_and_enforce_llm_calls_limit`], which
    /// this function applies to the counter as it finds it.
    pub fn increment_llm_calls_count(&mut self) -> (r: Result<(), AgentError>)
        ensures
            final(self)@ == old(self)@,
            !old(self)@.run_config.is_limited() ==> r is Ok,
            r matches Err(e) ==> e@ == AgentErrorView::LlmCallsLimitExceeded(
                limit_message(old(self)@.run_config.max_llm_calls() as int),
            ),
    {
        let (mut counter, writer) = self.invocation_cost_manager.acquire_write();
        let r = counter.count_and_enforce_llm_calls_limit(&self.run_config);
        writer.release_write(counter);
        r
    }
}

impl Clone for InvocationContext {
    /// A copy that counts against the same quota counter.
    fn clone(&self) -> (ctx: Self)
        ensures
            ctx@ == self@,
    {
        InvocationContext::copy_of(self)
    }
}

} // verus!
