use vstd::prelude::*;
use crate::error::{ErrorKind, RouterError};
use crate::history::{recorded, newest_first};
use crate::llm::LLMToolSelector;
use crate::text::texts;
use crate::vector::{EmbeddingSource, VectorToolSelector};

verus! {

/// The backends that a router can use.
#[derive(Debug, Clone, Copy, PartialEq, Eq, Structural)]
pub enum RouterToolSelectionStrategy {
    Vector,
    Llm,
}

/// A tool router: one backend, chosen when it is built.
pub enum RouterToolSelector {
    Vector(VectorToolSelector),
    Llm(LLMToolSelector),
}

impl RouterToolSelector {
    pub open spec fn wf(&self) -> bool {
        match self {
            RouterToolSelector::Vector(s) => s.wf(),
            RouterToolSelector::Llm(s) => s.wf(),
        }
    }

    /// The recorded tool calls, oldest first.
    pub open spec fn calls(&self) -> Seq<Seq<char>> {
        match self {
            RouterToolSelector::Vector(s) => s.calls(),
            RouterToolSelector::Llm(s) => s.calls(),
        }
    }

    /// The backend's strategy.
    pub open spec fn spec_selector_type(&self) -> RouterToolSelectionStrategy {
        match self {
            RouterToolSelector::Vector(_) => RouterToolSelectionStrategy::Vector,
            RouterToolSelector::Llm(_) => RouterToolSelectionStrategy::Llm,
        }
    }

    /// The backend's strategy.
    pub fn selector_type(&self) -> (r: RouterToolSelectionStrategy)
        ensures
            r == self.spec_selector_type(),
    {
        match self {
            RouterToolSelector::Vector(_) => RouterToolSelectionStrategy::Vector,
            RouterToolSelector::Llm(_) => RouterToolSelectionStrategy::Llm,
        }
    }

    /// Records a call of `tool_name` in the backend's history.
    pub fn record_tool_call(&mut self, tool_name: &str) -> (r: Result<(), RouterError>)
        requires
            old(self).wf(),
        ensures
            r is Ok,
            final(self).wf(),
            final(self).calls() == recorded(old(self).calls(), tool_name@),
            final(self).spec_selector_type() == old(self).spec_selector_type(),
    {
        match self {
            RouterToolSelector::Vector(s) => s.record_tool_call(tool_name),
            RouterToolSelector::Llm(s) => s.record_tool_call(tool_name),
        }
    }

    /// At most `limit` recorded calls, the most recent first.
    pub fn get_recent_tool_calls(&self, limit: usize) -> (r: Result<Vec<String>, RouterError>)
        ensures
            r is Ok,
            texts(r->Ok_0@) == newest_first(self.calls(), limit as nat),
    {
        match self {
            RouterToolSelector::Vector(s) => s.get_recent_tool_calls(limit),
            RouterToolSelector::Llm(s) => s.get_recent_tool_calls(limit),
        }
    }
}

/// Builds the router for `strategy`. The vector backend needs the vector
/// capability (`vector_enabled`) and a table name; no strategy means the
/// language-model backend.
pub fn create_tool_selector(
    strategy: Option<RouterToolSelectionStrategy>,
    vector_enabled: bool,
    table_name: Option<String>,
    embedding: EmbeddingSource,
) -> (r: Result<RouterToolSelector, RouterError>)
    ensures
        match strategy {
            Some(RouterToolSelectionStrategy::Vector) => if !vector_enabled {
                r is Err && r->Err_0.kind == ErrorKind::ConfigurationError
            } else if table_name is None {
                r is Err && r->Err_0.kind == ErrorKind::ConfigurationError
            } else {
                r is Ok && r->Ok_0.wf() && r->Ok_0.spec_selector_type()
                    == RouterToolSelectionStrategy::Vector && r->Ok_0.calls().len() == 0 && match r->Ok_0 {
                    RouterToolSelector::Vector(s) => s.table() == table_name->0@ && s.source()
                        == embedding && s.indexed_keys().is_empty(),
                    RouterToolSelector::Llm(_) => false,
                }
            },
            _ => r is Ok && r->Ok_0.wf() && r->Ok_0.spec_selector_type()
                == RouterToolSelectionStrategy::Llm && r->Ok_0.calls().len() == 0 && match r->Ok_0 {
                RouterToolSelector::Llm(s) => s.catalog().len() == 0,
                RouterToolSelector::Vector(_) => false,
            },
        },
{
    match strategy {
        Some(RouterToolSelectionStrategy::Vector) => {
            if !vector_enabled {
                return Err(
                    RouterError::new(
                        ErrorKind::ConfigurationError,
                        "Vector tool selection is not enabled",
                    ),
                );
            }
            match table_name {
                None => Err(
                    RouterError::new(
                        ErrorKind::ConfigurationError,
                        "Vector tool selection needs a table name",
                    ),
                ),
                Some(t) => Ok(RouterToolSelector::Vector(VectorToolSelector::new(t, embedding))),
            }
        },
        _ => Ok(RouterToolSelector::Llm(LLMToolSelector::new())),
    }
}

} // verus!
