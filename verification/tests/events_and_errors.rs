use agent_kernel::common::{
    any_escalation, clone_handles, generate_id, AgentError, AgentHandle, Content, Event,
    EventActions, Part, Session,
};

fn is_generated(id: &str) -> bool {
    id.len() == 38 && id.starts_with("e-") && uuid::Uuid::parse_str(&id[2..]).is_ok()
}

fn event(author: &str, escalate: bool) -> Event {
    Event::builder()
        .author(author.to_string())
        .actions(EventActions::builder().escalate(escalate).build())
        .build()
}

#[test]
fn generated_ids_have_the_fixed_form() {
    let id = Event::generate_event_id();
    assert!(is_generated(&id), "{}", id);
    let bytes = id.as_bytes();
    for (at, byte) in bytes.iter().enumerate().skip(2) {
        if [10, 15, 20, 25].contains(&at) {
            assert_eq!(*byte, b'-');
        } else {
            assert!(byte.is_ascii_digit() || (b'a'..=b'f').contains(byte));
        }
    }
    let parsed = uuid::Uuid::parse_str(&id[2..]).unwrap();
    assert_eq!(parsed.get_version_num(), 4);
}

#[test]
fn generated_ids_differ() {
    let first = generate_id();
    let second = generate_id();
    let third = Event::generate_event_id();
    assert_ne!(first, second);
    assert_ne!(second, third);
    assert_ne!(first, third);
}

#[test]
fn event_builder_starts_blank_with_a_fresh_id() {
    let built = Event::builder().build();
    assert!(is_generated(&built.id));
    assert_eq!(built.invocation_id, "");
    assert_eq!(built.author, "");
    assert_eq!(built.branch, None);
    assert!(built.content().is_none());
    assert!(!built.final_response());
    assert_eq!(built.actions().escalate(), Some(false));
    let mut actions = built.actions;
    assert!(actions.state_delta().is_empty());
    assert!(actions.artifact_delta().is_empty());
}

#[test]
fn event_builder_sets_each_field() {
    let built = Event::builder()
        .id("e-fixed".to_string())
        .invocation_id("inv-9".to_string())
        .author("planner".to_string())
        .branch(Some("root.planner".to_string()))
        .actions(EventActions::builder().escalate(true).build())
        .content(Some(Content))
        .build();
    assert_eq!(built.id, "e-fixed");
    assert_eq!(built.invocation_id, "inv-9");
    assert_eq!(built.author, "planner");
    assert_eq!(built.branch.as_deref(), Some("root.planner"));
    assert_eq!(built.actions().escalate(), Some(true));
    assert!(built.content().is_some());
    assert!(!built.final_response());
}

#[test]
fn later_settings_replace_earlier_ones() {
    let built = Event::builder()
        .author("a".to_string())
        .author("b".to_string())
        .content(Some(Content))
        .content(None)
        .build();
    assert_eq!(built.author, "b");
    assert!(built.content().is_none());
}

#[test]
fn default_actions_are_empty_and_calm() {
    let mut actions = EventActions::builder().build();
    assert_eq!(actions.escalate(), Some(false));
    assert_eq!(actions.state_delta().len(), 0);
    assert_eq!(actions.artifact_delta().len(), 0);
}

#[test]
fn deltas_are_open_to_changes() {
    let mut actions = EventActions::builder().build();
    actions.state_delta().insert("count".to_string(), serde_json::Value::from(3));
    actions.state_delta().insert("done".to_string(), serde_json::Value::Bool(true));
    actions.artifact_delta().insert("report".to_string(), Part);
    assert_eq!(actions.state_delta().len(), 2);
    assert_eq!(actions.state_delta().get("count"), Some(&serde_json::Value::from(3)));
    assert_eq!(actions.state_delta().get("done"), Some(&serde_json::Value::Bool(true)));
    assert!(actions.artifact_delta().contains_key("report"));
    assert_eq!(actions.escalate(), Some(false));
    actions.state_delta().remove("count");
    assert_eq!(actions.state_delta().len(), 1);
}

#[test]
fn escalation_is_set_by_the_builder() {
    assert_eq!(EventActions::builder().escalate(true).build().escalate(), Some(true));
    assert_eq!(
        EventActions::builder().escalate(true).escalate(false).build().escalate(),
        Some(false)
    );
}

#[test]
fn any_escalation_finds_an_escalating_event() {
    assert!(!any_escalation(&Vec::new()));
    assert!(!any_escalation(&vec![event("a", false), event("b", false)]));
    assert!(any_escalation(&vec![event("a", true)]));
    assert!(any_escalation(&vec![event("a", false), event("b", false), event("c", true)]));
    assert!(any_escalation(&vec![event("a", true), event("b", false)]));
}

#[test]
fn error_texts_are_the_texts_they_hold() {
    assert_eq!(AgentError::LlmCallsLimitExceeded("quota".to_string()).to_string(), "quota");
    assert_eq!(AgentError::UnsupportedOperation("mode".to_string()).to_string(), "mode");
    assert_eq!(AgentError::HookFailure("hook".to_string()).to_string(), "hook");
}

#[test]
fn child_failure_names_the_branch_then_the_cause() {
    let inner = AgentError::HookFailure("boom".to_string());
    let wrapped = AgentError::child_failure("root.worker".to_string(), inner);
    assert_eq!(wrapped.to_string(), "root.worker: boom");
    let twice = AgentError::child_failure("root".to_string(), wrapped);
    assert_eq!(twice.to_string(), "root: root.worker: boom");
    match &twice {
        AgentError::ChildFailure(branch, source) => {
            assert_eq!(branch, "root");
            assert!(matches!(**source, AgentError::ChildFailure(_, _)));
        },
        other => panic!("unexpected {:?}", other),
    }
}

#[test]
fn root_cause_is_the_error_at_the_bottom() {
    let plain = AgentError::UnsupportedOperation("mode".to_string());
    assert!(matches!(plain.root_cause(), AgentError::UnsupportedOperation(text) if text == "mode"));
    let nested = AgentError::child_failure(
        "a".to_string(),
        AgentError::child_failure(
            "a.b".to_string(),
            AgentError::LlmCallsLimitExceeded("quota".to_string()),
        ),
    );
    assert!(
        matches!(nested.root_cause(), AgentError::LlmCallsLimitExceeded(text) if text == "quota")
    );
}

#[test]
fn session_holds_what_it_was_made_with() {
    let session = Session::new("app".to_string(), "user-7".to_string(), "s-3".to_string());
    assert_eq!(session.app_name(), "app");
    assert_eq!(session.user_id(), "user-7");
    assert_eq!(session.id(), "s-3");
    assert!(session.state().is_empty());
    let copy = session.clone();
    assert_eq!(copy.app_name(), "app");
    assert_eq!(copy.user_id(), "user-7");
    assert_eq!(copy.id(), "s-3");
    assert!(copy.state().is_empty());
}

#[test]
fn handles_are_known_by_name() {
    let handle = AgentHandle::new("critic".to_string());
    assert_eq!(handle.name(), "critic");
    assert_eq!(handle.clone().name, "critic");
    let copies = clone_handles(&vec![
        AgentHandle::new("a".to_string()),
        AgentHandle::new("b".to_string()),
    ]);
    assert_eq!(copies.len(), 2);
    assert_eq!(copies[0].name(), "a");
    assert_eq!(copies[1].name(), "b");
    assert!(clone_handles(&Vec::new()).is_empty());
}

#[test]
fn cloned_event_stands_for_the_same_event() {
    let mut actions = EventActions::builder().escalate(true).build();
    actions.state_delta().insert("k".to_string(), serde_json::Value::from("v"));
    let original = Event::builder()
        .invocation_id("inv".to_string())
        .author("a".to_string())
        .branch(Some("r.a".to_string()))
        .actions(actions)
        .content(Some(Content))
        .build();
    let mut copy = original.clone();
    assert_eq!(copy.id, original.id);
    assert_eq!(copy.invocation_id, "inv");
    assert_eq!(copy.author, "a");
    assert_eq!(copy.branch.as_deref(), Some("r.a"));
    assert!(copy.content().is_some());
    assert_eq!(copy.actions().escalate(), Some(true));
    assert_eq!(copy.actions.state_delta().get("k"), Some(&serde_json::Value::from("v")));
    assert_eq!(copy.final_response(), original.final_response());
}
