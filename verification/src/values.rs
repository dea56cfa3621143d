//! Plain models of the host values and errors that flow through the engine.

use vstd::prelude::*;

verus! {

/// A host value as the engine observes it.  The engine never looks inside a
/// value; it only distinguishes the host's null object, the registry's
/// "undefined" sentinel, and whether a value is an asynchronous computation
/// that still has to be awaited.  Every other aspect of a value is carried
/// through opaquely as an identity.
#[derive(Clone, Copy, PartialEq, Eq, Structural, Debug)]
pub enum Value {
    /// The host's null object.
    Null,
    /// The sentinel returned by registry lookups that find nothing and were
    /// given no default.
    Undefined,
    /// Any other plain value, carried by identity.
    Plain(u64),
    /// An asynchronous computation (not yet awaited), carried by identity.
    Coroutine(u64),
}

impl Value {
    /// Whether this value is an unawaited asynchronous computation.
    pub open spec fn spec_is_coroutine(&self) -> bool {
        self matches Value::Coroutine(_)
    }

    #[verifier::when_used_as_spec(spec_is_coroutine)]
    pub fn is_coroutine(&self) -> (r: bool)
        ensures
            r == self.spec_is_coroutine(),
    {
        matches!(self, Value::Coroutine(_))
    }
}

/// A host exception carried across the runtime bridge by identity, so that a
/// failure is re-raised as the same error object and never reinterpreted.
#[derive(Clone, Copy, PartialEq, Eq, Structural, Debug)]
pub struct HostException {
    pub id: u64,
}

/// The errors the engine can surface to its caller.
#[derive(Debug)]
pub enum DiError {
    /// A type descriptor exhausted its key list and had no default; carries
    /// the human-readable representation of the requested type.
    MissingDependency { repr: String },
    /// Synchronous dispatch encountered an asynchronous result.
    AsyncOnly,
    /// Removal of a dependency or override that was not registered.
    KeyNotFound { key: i64 },
    /// A parameter was named that the callable's signature does not hold.
    ParameterNotFound { name: String },
    /// A parameter whose default is an injection descriptor with neither a
    /// callback nor a type carried no annotation to fall back on.
    UnresolvedParameter { name: String },
    /// A one-shot hand-off cell was set a second time.
    ChannelAlreadySet,
    /// The receiving half of a one-shot channel is gone.
    ChannelClosed,
    /// No foreign cooperative event loop could be detected for this call.
    NoRunningEventLoop,
}

/// The spec-level shape of a [`DiError`], with strings as character
/// sequences.
pub enum DiErrorView {
    MissingDependency { repr: Seq<char> },
    AsyncOnly,
    KeyNotFound { key: i64 },
    ParameterNotFound { name: Seq<char> },
    UnresolvedParameter { name: Seq<char> },
    ChannelAlreadySet,
    ChannelClosed,
    NoRunningEventLoop,
}

impl View for DiError {
    type V = DiErrorView;

    open spec fn view(&self) -> DiErrorView {
        match self {
            DiError::MissingDependency { repr } => DiErrorView::MissingDependency {
                repr: repr@,
            },
            DiError::AsyncOnly => DiErrorView::AsyncOnly,
            DiError::KeyNotFound { key } => DiErrorView::KeyNotFound { key: *key },
            DiError::ParameterNotFound { name } => DiErrorView::ParameterNotFound {
                name: name@,
            },
            DiError::UnresolvedParameter { name } => DiErrorView::UnresolvedParameter {
                name: name@,
            },
            DiError::ChannelAlreadySet => DiErrorView::ChannelAlreadySet,
            DiError::ChannelClosed => DiErrorView::ChannelClosed,
            DiError::NoRunningEventLoop => DiErrorView::NoRunningEventLoop,
        }
    }
}

} // verus!
