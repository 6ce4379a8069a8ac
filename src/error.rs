use vstd::prelude::*;

verus! {

/// The kinds of failure that the router reports.
#[derive(Debug, Clone, Copy, PartialEq, Eq, Structural)]
pub enum ErrorKind {
    /// A selection request lacks its query.
    InvalidParams,
    /// A provider, the vector store or the prompt renderer failed.
    InternalError,
    /// The factory was asked for a backend that it cannot build.
    ConfigurationError,
}

/// A failure: its kind and a message for people.
#[derive(Debug)]
pub struct RouterError {
    pub kind: ErrorKind,
    pub message: String,
}

impl RouterError {
    /// An error of the given kind whose message is `message`.
    pub fn new(kind: ErrorKind, message: &str) -> (r: RouterError)
        ensures
            r.kind == kind,
            r.message@ == message@,
    {
        RouterError { kind, message: String::from_str(message) }
    }

    /// An error of the given kind whose message is `context` followed by `detail`.
    pub fn with_detail(kind: ErrorKind, context: &str, detail: &str) -> (r: RouterError)
        ensures
            r.kind == kind,
            r.message@ == context@ + detail@,
    {
        let mut message = String::from_str(context);
        message.append(detail);
        RouterError { kind, message }
    }
}

} // verus!
