use vstd::prelude::*;
use std::collections::HashMap;
use std::time::Instant;

verus! {

#[verifier::external_type_specification]
#[verifier::external_body]
pub struct ExInstant(Instant);

/// Relies on `Instant::now`: a reading of the monotonic clock.
#[verifier::external_body]
fn now() -> (r: Instant) {
    Instant::now()
}

/// How the line editor of an interactive session binds its keys.
#[derive(Debug, Clone, Copy, PartialEq, Eq, Structural)]
pub enum EditMode {
    Emacs,
    Vi,
}

/// Whether a session acts or only plans.
#[derive(Debug, Clone, Copy, PartialEq, Eq, Structural)]
pub enum RunMode {
    Normal,
    Plan,
}

/// What a session offers for completion: the prompts of each extension and
/// a description of each prompt, with the time they were last gathered.
pub struct CompletionCache {
    prompts: HashMap<String, Vec<String>>,
    prompt_info: HashMap<String, String>,
    last_updated: Instant,
}

impl CompletionCache {
    /// The prompts known per extension.
    pub closed spec fn prompts(&self) -> Map<String, Vec<String>> {
        self.prompts@
    }

    /// The descriptions known per prompt.
    pub closed spec fn prompt_info(&self) -> Map<String, String> {
        self.prompt_info@
    }

    /// An empty cache, gathered now.
    pub fn new() -> (r: CompletionCache)
        ensures
            r.prompts() == Map::<String, Vec<String>>::empty(),
            r.prompt_info() == Map::<String, String>::empty(),
    {
        CompletionCache { prompts: HashMap::new(), prompt_info: HashMap::new(), last_updated: now() }
    }

    /// Whether the cache knows no prompt and no description.
    pub fn is_empty(&self) -> (r: bool)
        ensures
            r == (self.prompts().is_empty() && self.prompt_info().is_empty()),
    {
        self.prompts.is_empty() && self.prompt_info.is_empty()
    }

    /// When the cache was last gathered.
    pub fn last_updated(&self) -> (r: &Instant) {
        &self.last_updated
    }
}

} // verus!
