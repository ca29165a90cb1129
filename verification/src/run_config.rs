//! Execution options of one top-level run.

use vstd::prelude::*;

verus! {

/// Quota that a configuration has when none was set.
pub const DEFAULT_MAX_LLM_CALLS: i32 = 500;

/// Options of a run. `max_llm_calls` bounds the cost-incurring calls of the
/// whole agent tree; zero or a negative value means no bound.
#[derive(Debug)]
pub struct RunConfig {
    max_llm_calls: i32,
}

/// Incremental configuration of a [`RunConfig`].
#[derive(Debug)]
pub struct RunConfigBuilder {
    max_llm_calls: i32,
}

impl RunConfig {
    /// The configured quota, as contracts see it.
    pub closed spec fn spec_max_llm_calls(&self) -> i32 {
        self.max_llm_calls
    }

    /// Whether the quota bounds anything.
    pub open spec fn is_limited(&self) -> bool {
        self.spec_max_llm_calls() > 0
    }

    pub fn builder() -> (b: RunConfigBuilder)
        ensures
            b.spec_max_llm_calls() == DEFAULT_MAX_LLM_CALLS,
    {
        RunConfigBuilder { max_llm_calls: DEFAULT_MAX_LLM_CALLS }
    }

    #[verifier::when_used_as_spec(spec_max_llm_calls)]
    pub fn max_llm_calls(&self) -> (m: i32)
        ensures
            m == self.spec_max_llm_calls(),
    {
        self.max_llm_calls
    }
}

impl Clone for RunConfig {
    fn clone(&self) -> (c: Self)
        ensures
            c == *self,
    {
        RunConfig { max_llm_calls: self.max_llm_calls }
    }
}

impl RunConfigBuilder {
    /// The quota that `build` will configure.
    pub closed spec fn spec_max_llm_calls(&self) -> i32 {
        self.max_llm_calls
    }

    pub fn set_max_llm_calls(self, max_llm_calls: i32) -> (b: Self)
        ensures
            b.spec_max_llm_calls() == max_llm_calls,
    {
        RunConfigBuilder { max_llm_calls }
    }

    pub fn build(self) -> (c: RunConfig)
        ensures
            c.max_llm_calls() == self.spec_max_llm_calls(),
    {
        RunConfig { max_llm_calls: self.max_llm_calls }
    }
}

impl Clone for RunConfigBuilder {
    fn clone(&self) -> (c: Self)
        ensures
            c == *self,
    {
        RunConfigBuilder { max_llm_calls: self.max_llm_calls }
    }
}

} // verus!
