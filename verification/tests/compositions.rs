use agent_kernel::common::{
    AgentError, AgentHandle, BaseArtifactService, BaseSessionService, Event, EventActions,
    Session,
};
use agent_kernel::invocation_context::InvocationContext;
use agent_kernel::loop_agent::{LoopAgent, LoopRun};
use agent_kernel::parallel_agent::{ParallelAgent, ParallelRun};
use agent_kernel::run_config::RunConfig;
use agent_kernel::sequential_agent::{SequentialAgent, SequentialRun};

fn context() -> InvocationContext {
    let mut ctx = InvocationContext::create(
        BaseSessionService,
        BaseArtifactService,
        "inv-1".to_string(),
        AgentHandle::new("root".to_string()),
        Session::new("app".to_string(), "user".to_string(), "s-1".to_string()),
        None,
        RunConfig::builder().set_max_llm_calls(4).build(),
    );
    ctx.set_branch(Some("root".to_string()));
    ctx
}

fn handles(names: &[&str]) -> Vec<AgentHandle> {
    names.iter().map(|n| AgentHandle::new(n.to_string())).collect()
}

fn event(author: &str, escalate: bool) -> Event {
    Event::builder()
        .author(author.to_string())
        .actions(EventActions::builder().escalate(escalate).build())
        .build()
}

fn calm(author: &str, count: usize) -> Result<Vec<Event>, AgentError> {
    Ok((0..count).map(|_| event(author, false)).collect())
}

fn authors(events: &[Event]) -> Vec<String> {
    events.iter().map(|e| e.author.clone()).collect()
}

fn sequential(names: &[&str]) -> SequentialAgent<u8> {
    SequentialAgent::builder().name("seq".to_string()).sub_agents(handles(names)).build()
}

fn looping(names: &[&str], max: Option<i32>) -> LoopAgent<u8> {
    let builder = LoopAgent::builder().name("loop".to_string()).sub_agents(handles(names));
    match max {
        Some(bound) => builder.max_iterations(bound).build(),
        None => builder.build(),
    }
}

fn parallel(names: &[&str]) -> ParallelAgent<u8> {
    ParallelAgent::builder().name("par".to_string()).sub_agents(handles(names)).build()
}

#[test]
fn sequential_runs_children_in_order() {
    let agent = sequential(&["A", "B", "C"]);
    let mut run: SequentialRun = agent.run_async_impl(&context());
    let mut asked = Vec::new();
    while let Some(at) = run.next_child() {
        asked.push(at);
        let name = agent.base().sub_agents()[at].name().to_string();
        run = run.child_done(calm(&name, at + 1));
    }
    assert_eq!(asked, vec![0, 1, 2]);
    let events = run.finish().unwrap().unwrap();
    assert_eq!(authors(&events), vec!["A", "B", "B", "C", "C", "C"]);
}

#[test]
fn sequential_stops_after_an_escalating_child() {
    let agent = sequential(&["A", "B", "C"]);
    let run = agent.run_async_impl(&context());
    assert_eq!(run.next_child(), Some(0));
    let run = run.child_done(calm("A", 2));
    assert_eq!(run.next_child(), Some(1));
    let run = run.child_done(Ok(vec![event("B", false), event("B", true), event("B", false)]));
    assert_eq!(run.next_child(), None);
    let run = run.child_done(calm("C", 1));
    assert_eq!(run.next_child(), None);
    let events = run.finish().unwrap().unwrap();
    assert_eq!(authors(&events), vec!["A", "A", "B", "B", "B"]);
}

#[test]
fn sequential_escalation_of_the_first_child_stops_at_once() {
    let run = sequential(&["A", "B"]).run_async_impl(&context());
    let run = run.child_done(Ok(vec![event("A", true)]));
    assert_eq!(run.next_child(), None);
    assert_eq!(authors(&run.finish().unwrap().unwrap()), vec!["A"]);
}

#[test]
fn sequential_child_failure_aborts_the_run() {
    let run = sequential(&["A", "B", "C"]).run_async_impl(&context());
    let run = run.child_done(calm("A", 1));
    let run = run.child_done(Err(AgentError::HookFailure("boom".to_string())));
    assert_eq!(run.next_child(), None);
    let run = run.child_done(calm("C", 1));
    match run.finish().unwrap() {
        Err(error) => {
            assert_eq!(error.to_string(), "root.B: boom");
            assert!(matches!(error.root_cause(), AgentError::HookFailure(text) if text == "boom"));
            match error {
                AgentError::ChildFailure(branch, source) => {
                    assert_eq!(branch, "root.B");
                    assert!(matches!(*source, AgentError::HookFailure(_)));
                },
                other => panic!("unexpected {:?}", other),
            }
        },
        Ok(events) => panic!("unexpected success with {} events", events.len()),
    }
}

#[test]
fn sequential_without_children_is_done_at_once() {
    let run = sequential(&[]).run_async_impl(&context());
    assert_eq!(run.next_child(), None);
    assert!(run.finish().unwrap().unwrap().is_empty());
}

#[test]
fn sequential_has_no_outcome_while_children_remain() {
    let run = sequential(&["A", "B"]).run_async_impl(&context());
    assert!(run.finish().is_none());
    let run = sequential(&["A", "B"]).run_async_impl(&context()).child_done(calm("A", 1));
    assert!(run.finish().is_none());
}

#[test]
fn sequential_children_get_the_context_of_the_composite() {
    let ctx = context();
    let run = sequential(&["A"]).run_async_impl(&ctx);
    assert_eq!(run.context().branch(), Some("root"));
    assert_eq!(run.context().invocation_id(), "inv-1");
    let mut own = InvocationContext::copy_of(run.context());
    assert!(own.increment_llm_calls_count().is_ok());
    assert_eq!(ctx.number_of_llm_calls(), 1);
}

#[test]
fn sequential_live_mode_is_the_same_pass() {
    let agent = sequential(&["A", "B"]);
    let mut run = agent.run_live_impl(&context());
    let mut asked = Vec::new();
    while let Some(at) = run.next_child() {
        asked.push(at);
        run = run.child_done(calm("x", 1));
    }
    assert_eq!(asked, vec![0, 1]);
    assert_eq!(run.finish().unwrap().unwrap().len(), 2);
}

#[test]
fn open_sequential_run_directly() {
    let run = SequentialRun::open(&context(), &handles(&["only"]));
    assert_eq!(run.next_child(), Some(0));
    let run = run.child_done(Err(AgentError::UnsupportedOperation("no".to_string())));
    assert_eq!(run.finish().unwrap().unwrap_err().to_string(), "root.only: no");
}

#[test]
fn loop_runs_exactly_the_bounded_passes() {
    let agent = looping(&["A", "B"], Some(3));
    let mut run: LoopRun = agent.run_async_impl(&context());
    let mut asked = Vec::new();
    while let Some(at) = run.next_child() {
        asked.push(at);
        let name = agent.base().sub_agents()[at].name().to_string();
        run = run.child_done(calm(&name, 2));
    }
    assert_eq!(asked, vec![0, 1, 0, 1, 0, 1]);
    let events = run.finish().unwrap().unwrap();
    assert_eq!(events.len(), 3 * 4);
    assert_eq!(
        authors(&events),
        vec!["A", "A", "B", "B", "A", "A", "B", "B", "A", "A", "B", "B"]
    );
}

#[test]
fn loop_without_bound_ends_when_a_child_escalates() {
    let agent = looping(&["A", "B"], None);
    let mut run = agent.run_async_impl(&context());
    let mut asked = Vec::new();
    let mut dispatched = 0;
    while let Some(at) = run.next_child() {
        asked.push(at);
        dispatched += 1;
        let escalate = dispatched == 4;
        run = run.child_done(Ok(vec![event(if at == 0 { "A" } else { "B" }, escalate)]));
        assert!(dispatched < 100);
    }
    assert_eq!(asked, vec![0, 1, 0, 1]);
    let events = run.finish().unwrap().unwrap();
    assert_eq!(authors(&events), vec!["A", "B", "A", "B"]);
    assert_eq!(events[3].actions().escalate(), Some(true));
}

#[test]
fn loop_escalation_in_mid_pass_skips_the_rest_of_the_pass() {
    let agent = looping(&["A", "B", "C"], None);
    let run = agent.run_async_impl(&context());
    let run = run.child_done(calm("A", 1)).child_done(calm("B", 1)).child_done(calm("C", 1));
    assert_eq!(run.next_child(), Some(0));
    let run = run.child_done(calm("A", 1));
    assert_eq!(run.next_child(), Some(1));
    let run = run.child_done(Ok(vec![event("B", true), event("B", false)]));
    assert_eq!(run.next_child(), None);
    let run = run.child_done(calm("C", 1));
    assert_eq!(authors(&run.finish().unwrap().unwrap()), vec!["A", "B", "C", "A", "B", "B"]);
}

#[test]
fn bounded_loop_ends_early_on_escalation() {
    let agent = looping(&["A"], Some(5));
    let run = agent.run_async_impl(&context());
    let run = run.child_done(calm("A", 1)).child_done(Ok(vec![event("A", true)]));
    assert_eq!(run.next_child(), None);
    assert_eq!(run.finish().unwrap().unwrap().len(), 2);
}

#[test]
fn loop_of_one_pass() {
    let agent = looping(&["A", "B"], Some(1));
    let mut run = agent.run_async_impl(&context());
    let mut asked = Vec::new();
    while let Some(at) = run.next_child() {
        asked.push(at);
        run = run.child_done(calm("x", 1));
    }
    assert_eq!(asked, vec![0, 1]);
    assert_eq!(run.finish().unwrap().unwrap().len(), 2);
}

#[test]
fn loop_without_children_does_nothing() {
    for max in [None, Some(3), Some(0)] {
        let run = looping(&[], max).run_async_impl(&context());
        assert_eq!(run.next_child(), None);
        assert!(run.finish().unwrap().unwrap().is_empty());
    }
}

#[test]
fn loop_with_no_pass_allowed_does_nothing() {
    for max in [0, -1, i32::MIN] {
        let run = looping(&["A"], Some(max)).run_async_impl(&context());
        assert_eq!(run.next_child(), None);
        let run = run.child_done(calm("A", 1));
        assert!(run.finish().unwrap().unwrap().is_empty());
    }
}

#[test]
fn loop_child_failure_aborts_the_loop() {
    let agent = looping(&["A", "B"], None);
    let run = agent.run_async_impl(&context());
    let run = run.child_done(calm("A", 1)).child_done(calm("B", 1)).child_done(calm("A", 1));
    let run = run.child_done(Err(AgentError::LlmCallsLimitExceeded("quota".to_string())));
    assert_eq!(run.next_child(), None);
    let error = run.finish().unwrap().unwrap_err();
    assert_eq!(error.to_string(), "root.B: quota");
    assert!(matches!(error.root_cause(), AgentError::LlmCallsLimitExceeded(_)));
}

#[test]
fn loop_has_no_outcome_while_it_goes_on() {
    let run = looping(&["A"], None).run_async_impl(&context());
    assert!(run.finish().is_none());
    let run = looping(&["A"], Some(2)).run_async_impl(&context()).child_done(calm("A", 1));
    assert!(run.finish().is_none());
}

#[test]
fn loop_has_no_live_mode() {
    let error = looping(&["A"], None).run_live_impl(&context()).unwrap_err();
    assert!(matches!(error, AgentError::UnsupportedOperation(_)));
    assert_eq!(error.to_string(), "run_live not implemented for LoopAgent");
}

#[test]
fn loop_children_get_the_context_of_the_loop() {
    let ctx = context();
    let run = LoopRun::open(&ctx, &handles(&["A"]), Some(1));
    assert_eq!(run.context().branch(), Some("root"));
    let mut own = InvocationContext::copy_of(run.context());
    assert!(own.increment_llm_calls_count().is_ok());
    assert_eq!(ctx.number_of_llm_calls(), 1);
}

#[test]
fn parallel_groups_events_in_declared_order() {
    let agent = parallel(&["X", "Y", "Z"]);
    let run: ParallelRun = agent.run_async_impl(&context());
    assert_eq!(run.len(), 3);
    let run = run.child_done(2, calm("Z", 1));
    assert!(!run.all_done());
    let run = run.child_done(0, calm("X", 2));
    let run = run.child_done(1, calm("Y", 3));
    assert!(run.all_done());
    let events = run.finish().unwrap().unwrap();
    assert_eq!(authors(&events), vec!["X", "X", "Y", "Y", "Y", "Z"]);
}

#[test]
fn parallel_outcome_is_the_same_for_every_order() {
    let orders: [[usize; 3]; 6] =
        [[0, 1, 2], [0, 2, 1], [1, 0, 2], [1, 2, 0], [2, 0, 1], [2, 1, 0]];
    let names = ["X", "Y", "Z"];
    for order in orders {
        let mut run = parallel(&names).run_async_impl(&context());
        for at in order {
            assert!(run.is_pending(at));
            run = run.child_done(at, calm(names[at], at + 1));
            assert!(!run.is_pending(at));
        }
        let events = run.finish().unwrap().unwrap();
        assert_eq!(authors(&events), vec!["X", "Y", "Y", "Z", "Z", "Z"]);
    }
}

#[test]
fn parallel_waits_for_every_child() {
    let run = parallel(&["X", "Y"]).run_async_impl(&context());
    assert!(run.finish().is_none());
    let run = parallel(&["X", "Y"]).run_async_impl(&context());
    let run = run.child_done(1, Err(AgentError::HookFailure("boom".to_string())));
    assert!(!run.all_done());
    assert!(run.is_pending(0));
    assert!(run.finish().is_none());
}

#[test]
fn parallel_reports_the_first_declared_failure() {
    let run = parallel(&["X", "Y", "Z"]).run_async_impl(&context());
    let run = run.child_done(2, Err(AgentError::HookFailure("z broke".to_string())));
    let run = run.child_done(0, calm("X", 2));
    let run = run.child_done(1, Err(AgentError::UnsupportedOperation("y broke".to_string())));
    let error = run.finish().unwrap().unwrap_err();
    assert_eq!(error.to_string(), "root.Y: y broke");
    assert!(matches!(error.root_cause(), AgentError::UnsupportedOperation(_)));
}

#[test]
fn parallel_ignores_repeated_and_stray_reports() {
    let run = parallel(&["X", "Y"]).run_async_impl(&context());
    let run = run.child_done(0, calm("X", 1));
    let run = run.child_done(0, calm("again", 5));
    let run = run.child_done(2, calm("stray", 1));
    let run = run.child_done(usize::MAX, calm("stray", 1));
    assert!(!run.is_pending(2));
    assert!(!run.all_done());
    let run = run.child_done(1, calm("Y", 1));
    assert_eq!(authors(&run.finish().unwrap().unwrap()), vec!["X", "Y"]);
}

#[test]
fn parallel_without_children_is_done_at_once() {
    let run = parallel(&[]).run_async_impl(&context());
    assert_eq!(run.len(), 0);
    assert!(run.all_done());
    assert!(run.finish().unwrap().unwrap().is_empty());
}

#[test]
fn parallel_children_get_contexts_of_their_own_on_one_quota() {
    let ctx = context();
    let run = ParallelRun::open(&ctx, &handles(&["X", "Y"]));
    let mut for_x = run.context_for_child();
    let mut for_y = run.context_for_child();
    for_x.set_branch(Some("elsewhere".to_string()));
    assert_eq!(for_y.branch(), Some("root"));
    assert_eq!(for_y.invocation_id(), "inv-1");
    assert!(for_x.increment_llm_calls_count().is_ok());
    assert!(for_y.increment_llm_calls_count().is_ok());
    assert_eq!(ctx.number_of_llm_calls(), 2);
}

#[test]
fn parallel_has_no_live_mode() {
    let error = parallel(&["X"]).run_live_impl(&context()).unwrap_err();
    assert!(matches!(error, AgentError::UnsupportedOperation(_)));
    assert_eq!(error.to_string(), "run_live not implemented for ParallelAgent");
}

#[test]
fn failure_through_nested_composites_keeps_its_cause() {
    let inner = SequentialRun::open(&context(), &handles(&["leaf"]));
    let inner = inner.child_done(Err(AgentError::LlmCallsLimitExceeded("quota".to_string())));
    let inner_result = inner.finish().unwrap();
    let mut outer_ctx = context();
    outer_ctx.set_branch(None);
    let outer = ParallelRun::open(&outer_ctx, &handles(&["seq"]));
    let outer = outer.child_done(0, inner_result);
    let error = outer.finish().unwrap().unwrap_err();
    assert_eq!(error.to_string(), "seq: root.leaf: quota");
    assert!(
        matches!(error.root_cause(), AgentError::LlmCallsLimitExceeded(text) if text == "quota")
    );
}
