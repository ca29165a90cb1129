use agent_kernel::base_agent::BaseAgent;
use agent_kernel::callback_context::CallbackContext;
use agent_kernel::common::{
    AgentHandle, BaseArtifactService, BaseSessionService, Content, EventActions, Session,
};
use agent_kernel::invocation_context::{derive_branch, InvocationContext};
use agent_kernel::run_config::RunConfig;

fn root_context() -> InvocationContext {
    InvocationContext::create(
        BaseSessionService,
        BaseArtifactService,
        "inv-42".to_string(),
        AgentHandle::new("root".to_string()),
        Session::new("app".to_string(), "user".to_string(), "s-1".to_string()),
        Some(Content),
        RunConfig::builder().set_max_llm_calls(5).build(),
    )
}

fn agent(name: &str) -> BaseAgent<u8> {
    BaseAgent::new(name.to_string(), String::new(), Vec::new(), None, None)
}

#[test]
fn created_context_holds_what_it_was_made_with() {
    let ctx = root_context();
    assert_eq!(ctx.invocation_id(), "inv-42");
    assert_eq!(ctx.branch(), None);
    assert_eq!(ctx.agent().name(), "root");
    assert_eq!(ctx.session().id(), "s-1");
    assert_eq!(ctx.app_name(), "app");
    assert_eq!(ctx.user_id(), "user");
    assert!(ctx.user_content().is_some());
    assert!(ctx.live_request_queue().is_none());
    assert_eq!(ctx.run_config().max_llm_calls(), 5);
    assert!(!ctx.end_invocation());
    assert_eq!(ctx.number_of_llm_calls(), 0);
    let _: &BaseSessionService = ctx.session_service();
    let _: &BaseArtifactService = ctx.artifact_service();
}

#[test]
fn derive_branch_joins_with_a_dot() {
    assert_eq!(derive_branch(None, "planner"), "planner");
    assert_eq!(derive_branch(Some(""), "planner"), "planner");
    assert_eq!(derive_branch(Some("planner"), "critic"), "planner.critic");
    assert_eq!(derive_branch(Some("a.b"), "c"), "a.b.c");
    assert_eq!(derive_branch(Some("a"), ""), "a.");
    assert_eq!(derive_branch(None, ""), "");
}

#[test]
fn branch_of_child_and_grandchild() {
    let mut root = root_context();
    root.set_branch(Some(String::new()));
    let child = agent("planner").create_invocation_context(&root);
    assert_eq!(child.branch(), Some("planner"));
    let grandchild = agent("critic").create_invocation_context(&child);
    assert_eq!(grandchild.branch(), Some("planner.critic"));
    assert_eq!(root.branch(), Some(""));
}

#[test]
fn branch_under_a_root_without_branch() {
    let root = root_context();
    let child = agent("planner").create_invocation_context(&root);
    assert_eq!(child.branch(), Some("planner"));
    assert_eq!(agent("critic").create_invocation_context(&child).branch(), Some("planner.critic"));
}

#[test]
fn derived_context_names_the_agent_and_keeps_the_rest() {
    let root = root_context();
    let child = agent("planner").create_invocation_context(&root);
    assert_eq!(child.agent().name(), "planner");
    assert_eq!(child.invocation_id(), "inv-42");
    assert_eq!(child.session().id(), "s-1");
    assert_eq!(child.app_name(), "app");
    assert_eq!(child.user_id(), "user");
    assert!(child.user_content().is_some());
    assert_eq!(child.run_config().max_llm_calls(), 5);
    assert_eq!(root.agent().name(), "root");
    assert_eq!(root.branch(), None);
}

#[test]
fn derived_context_starts_not_ended() {
    let mut root = root_context();
    root.set_end_invocation(true);
    let child = agent("planner").create_invocation_context(&root);
    assert!(!child.end_invocation());
    assert!(root.end_invocation());
}

#[test]
fn copy_of_keeps_every_field() {
    let mut original = root_context();
    original.set_branch(Some("a.b".to_string()));
    original.set_end_invocation(true);
    let copy = InvocationContext::copy_of(&original);
    assert_eq!(copy.invocation_id(), "inv-42");
    assert_eq!(copy.branch(), Some("a.b"));
    assert_eq!(copy.agent().name(), "root");
    assert_eq!(copy.session().id(), "s-1");
    assert!(copy.user_content().is_some());
    assert_eq!(copy.run_config().max_llm_calls(), 5);
    assert!(copy.end_invocation());
}

#[test]
fn setters_change_one_field() {
    let mut ctx = root_context();
    ctx.set_agent(AgentHandle::new("other".to_string()));
    assert_eq!(ctx.agent().name(), "other");
    assert_eq!(ctx.branch(), None);
    ctx.set_branch(Some("x".to_string()));
    assert_eq!(ctx.branch(), Some("x"));
    assert_eq!(ctx.agent().name(), "other");
    ctx.set_branch(None);
    assert_eq!(ctx.branch(), None);
    ctx.set_end_invocation(true);
    assert!(ctx.end_invocation());
    ctx.set_end_invocation(false);
    assert!(!ctx.end_invocation());
    assert_eq!(ctx.invocation_id(), "inv-42");
}

#[test]
fn new_invocation_ids_are_generated() {
    let first = InvocationContext::new_invocation_context_id();
    let second = InvocationContext::new_invocation_context_id();
    assert_eq!(first.len(), 38);
    assert!(first.starts_with("e-"));
    assert!(uuid::Uuid::parse_str(&first[2..]).is_ok());
    assert_ne!(first, second);
}

#[test]
fn callback_context_reports_the_request_to_end() {
    let ctx = CallbackContext::new(root_context(), None);
    assert_eq!(ctx.invocation_context().invocation_id(), "inv-42");
    assert_eq!(ctx.event_actions().escalate(), Some(false));
    let quiet = ctx.into_reply(Some(Content));
    assert!(quiet.content.is_some());
    assert!(!quiet.end_invocation);

    let mut ending = CallbackContext::new(root_context(), None);
    ending.end_invocation();
    assert!(ending.invocation_context().end_invocation());
    let reply = ending.into_reply(None);
    assert!(reply.content.is_none());
    assert!(reply.end_invocation);
}

#[test]
fn callback_context_keeps_given_actions() {
    let actions = EventActions::builder().escalate(true).build();
    let ctx = CallbackContext::new(root_context(), Some(actions));
    assert_eq!(ctx.event_actions().escalate(), Some(true));
}

#[test]
fn cloned_context_is_a_copy_on_the_same_quota() {
    let mut original = root_context();
    original.set_branch(Some("a".to_string()));
    let mut copy = original.clone();
    assert_eq!(copy.branch(), Some("a"));
    assert_eq!(copy.invocation_id(), "inv-42");
    assert!(copy.increment_llm_calls_count().is_ok());
    assert_eq!(original.number_of_llm_calls(), 1);
}
