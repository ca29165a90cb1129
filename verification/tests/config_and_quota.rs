use agent_kernel::common::{
    AgentError, AgentHandle, BaseArtifactService, BaseSessionService, Session,
};
use agent_kernel::base_agent::BaseAgent;
use agent_kernel::invocation_context::{InvocationContext, InvocationCostManager};
use agent_kernel::run_config::{RunConfig, DEFAULT_MAX_LLM_CALLS};
use agent_kernel::text::decimal_string;

fn config(max: i32) -> RunConfig {
    RunConfig::builder().set_max_llm_calls(max).build()
}

fn context(max: i32) -> InvocationContext {
    InvocationContext::create(
        BaseSessionService,
        BaseArtifactService,
        "inv-1".to_string(),
        AgentHandle::new("root".to_string()),
        Session::new("app".to_string(), "user".to_string(), "s-1".to_string()),
        None,
        config(max),
    )
}

fn limit_text(result: Result<(), AgentError>) -> String {
    match result {
        Err(AgentError::LlmCallsLimitExceeded(text)) => text,
        other => panic!("expected a used-up quota, got {:?}", other),
    }
}

#[test]
fn default_quota_is_five_hundred() {
    assert_eq!(DEFAULT_MAX_LLM_CALLS, 500);
    assert_eq!(RunConfig::builder().build().max_llm_calls(), 500);
}

#[test]
fn builder_sets_the_quota() {
    assert_eq!(config(7).max_llm_calls(), 7);
    assert_eq!(config(0).max_llm_calls(), 0);
    assert_eq!(config(-3).max_llm_calls(), -3);
    assert_eq!(
        RunConfig::builder().set_max_llm_calls(1).set_max_llm_calls(9).build().max_llm_calls(),
        9
    );
}

#[test]
fn config_clone_keeps_the_quota() {
    let original = config(42);
    assert_eq!(original.clone().max_llm_calls(), 42);
    let builder = RunConfig::builder().set_max_llm_calls(11);
    assert_eq!(builder.clone().build().max_llm_calls(), 11);
}

#[test]
fn decimal_string_renders_numbers() {
    assert_eq!(decimal_string(0), "0");
    assert_eq!(decimal_string(7), "7");
    assert_eq!(decimal_string(10), "10");
    assert_eq!(decimal_string(500), "500");
    assert_eq!(decimal_string(1002003), "1002003");
    assert_eq!(decimal_string(u32::MAX), "4294967295");
}

#[test]
fn quota_of_two_admits_two_calls() {
    let cfg = config(2);
    let mut counter = InvocationCostManager::new();
    assert!(counter.increment_and_enforce_llm_calls_limit(&cfg).is_ok());
    assert!(counter.increment_and_enforce_llm_calls_limit(&cfg).is_ok());
    let third = counter.increment_and_enforce_llm_calls_limit(&cfg);
    assert_eq!(limit_text(third), "Max number of LLM calls limit of 2 exceeded");
    let fourth = counter.increment_and_enforce_llm_calls_limit(&cfg);
    assert_eq!(limit_text(fourth), "Max number of LLM calls limit of 2 exceeded");
}

#[test]
fn quota_of_one_succeeds_then_fails_twice() {
    let cfg = config(1);
    let mut counter = InvocationCostManager::new();
    assert!(counter.increment_and_enforce_llm_calls_limit(&cfg).is_ok());
    assert!(counter.increment_and_enforce_llm_calls_limit(&cfg).is_err());
    assert!(counter.increment_and_enforce_llm_calls_limit(&cfg).is_err());
}

#[test]
fn exhaustion_is_sticky() {
    let cfg = config(3);
    let mut counter = InvocationCostManager::new();
    for _ in 0..3 {
        assert!(counter.increment_and_enforce_llm_calls_limit(&cfg).is_ok());
    }
    for _ in 0..50 {
        assert!(counter.increment_and_enforce_llm_calls_limit(&cfg).is_err());
    }
}

#[test]
fn failed_attempts_are_counted_too() {
    let cfg = config(1);
    let mut counter = InvocationCostManager::new();
    assert_eq!(counter.number_of_llm_calls(), 0);
    let _ = counter.increment_and_enforce_llm_calls_limit(&cfg);
    let _ = counter.increment_and_enforce_llm_calls_limit(&cfg);
    let _ = counter.increment_and_enforce_llm_calls_limit(&cfg);
    assert_eq!(counter.number_of_llm_calls(), 3);
}

#[test]
fn zero_or_negative_quota_is_unlimited() {
    for max in [0, -1, i32::MIN] {
        let cfg = config(max);
        let mut counter = InvocationCostManager::new();
        for _ in 0..1000 {
            assert!(counter.increment_and_enforce_llm_calls_limit(&cfg).is_ok());
        }
        assert_eq!(counter.number_of_llm_calls(), 1000);
    }
}

#[test]
fn enforce_alone_counts_nothing() {
    let cfg = config(1);
    let mut counter = InvocationCostManager::new();
    assert!(counter.enforce_llm_calls_limit(&cfg).is_ok());
    assert_eq!(counter.number_of_llm_calls(), 0);
    let _ = counter.increment_and_enforce_llm_calls_limit(&cfg);
    assert!(counter.enforce_llm_calls_limit(&cfg).is_ok());
    let _ = counter.increment_and_enforce_llm_calls_limit(&cfg);
    assert!(counter.enforce_llm_calls_limit(&cfg).is_err());
    assert_eq!(counter.number_of_llm_calls(), 2);
}

#[test]
fn limit_message_names_the_largest_quota() {
    let cfg = config(i32::MAX - 1);
    let mut counter = InvocationCostManager::new();
    assert!(counter.increment_and_enforce_llm_calls_limit(&cfg).is_ok());
    let small = config(10);
    for _ in 0..9 {
        assert!(counter.increment_and_enforce_llm_calls_limit(&small).is_ok());
    }
    let over = counter.increment_and_enforce_llm_calls_limit(&small);
    assert_eq!(limit_text(over), "Max number of LLM calls limit of 10 exceeded");
    let huge = config(i32::MAX);
    assert!(counter.enforce_llm_calls_limit(&huge).is_ok());
}

#[test]
fn context_counts_against_its_quota() {
    let mut ctx = context(2);
    assert_eq!(ctx.number_of_llm_calls(), 0);
    assert!(ctx.increment_llm_calls_count().is_ok());
    assert!(ctx.increment_llm_calls_count().is_ok());
    let third = ctx.increment_llm_calls_count();
    assert_eq!(limit_text(third), "Max number of LLM calls limit of 2 exceeded");
    assert!(ctx.increment_llm_calls_count().is_err());
    assert_eq!(ctx.number_of_llm_calls(), 4);
}

#[test]
fn unlimited_context_never_fails() {
    let mut ctx = context(0);
    for _ in 0..600 {
        assert!(ctx.increment_llm_calls_count().is_ok());
    }
    assert_eq!(ctx.number_of_llm_calls(), 600);
}

#[test]
fn derived_contexts_share_one_counter() {
    let mut root = context(3);
    let planner: BaseAgent<u8> =
        BaseAgent::new("planner".to_string(), String::new(), Vec::new(), None, None);
    let critic: BaseAgent<u8> =
        BaseAgent::new("critic".to_string(), String::new(), Vec::new(), None, None);
    let mut child = planner.create_invocation_context(&root);
    let mut grandchild = critic.create_invocation_context(&child);
    assert!(grandchild.increment_llm_calls_count().is_ok());
    assert_eq!(root.number_of_llm_calls(), 1);
    assert!(child.increment_llm_calls_count().is_ok());
    assert!(root.increment_llm_calls_count().is_ok());
    assert_eq!(grandchild.number_of_llm_calls(), 3);
    assert!(grandchild.increment_llm_calls_count().is_err());
    assert!(child.increment_llm_calls_count().is_err());
    assert!(root.increment_llm_calls_count().is_err());
    assert_eq!(root.number_of_llm_calls(), 6);
    assert_eq!(child.number_of_llm_calls(), 6);
}

#[test]
fn copies_share_the_counter_of_the_original() {
    let mut original = context(1);
    let mut copy = InvocationContext::copy_of(&original);
    assert!(copy.increment_llm_calls_count().is_ok());
    assert_eq!(original.number_of_llm_calls(), 1);
    assert!(original.increment_llm_calls_count().is_err());
    assert_eq!(copy.number_of_llm_calls(), 2);
}

#[test]
fn separate_runs_have_separate_counters() {
    let mut first = context(1);
    let mut second = context(1);
    assert!(first.increment_llm_calls_count().is_ok());
    assert!(first.increment_llm_calls_count().is_err());
    assert_eq!(second.number_of_llm_calls(), 0);
    assert!(second.increment_llm_calls_count().is_ok());
}

#[test]
fn concurrent_siblings_lose_no_count() {
    let root = context(0);
    let runtime = tokio::runtime::Builder::new_multi_thread().worker_threads(4).build().unwrap();
    let mut workers = Vec::new();
    for _ in 0..4 {
        let mut own = InvocationContext::copy_of(&root);
        workers.push(runtime.spawn_blocking(move || {
            for _ in 0..250 {
                assert!(own.increment_llm_calls_count().is_ok());
            }
        }));
    }
    for worker in workers {
        runtime.block_on(worker).unwrap();
    }
    assert_eq!(root.number_of_llm_calls(), 1000);
}

#[test]
fn counting_with_a_ceiling_counts_like_counting_without() {
    let cfg = config(2);
    let mut counter = InvocationCostManager::new();
    assert!(counter.count_and_enforce_llm_calls_limit(&cfg).is_ok());
    assert_eq!(counter.number_of_llm_calls(), 1);
    assert!(counter.count_and_enforce_llm_calls_limit(&cfg).is_ok());
    let third = counter.count_and_enforce_llm_calls_limit(&cfg);
    assert_eq!(limit_text(third), "Max number of LLM calls limit of 2 exceeded");
    assert_eq!(counter.number_of_llm_calls(), 3);
    let unlimited = config(0);
    assert!(counter.count_and_enforce_llm_calls_limit(&unlimited).is_ok());
    assert_eq!(counter.number_of_llm_calls(), 4);
}
