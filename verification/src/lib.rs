//! A dynamic dependency-injection resolution engine.
//!
//! A [`client::Client`] owns a registry of type dependencies, callback
//! overrides and cached parameter descriptors.  A callable registered with
//! the host is described by its identity key together with introspected
//! parameter metadata ([`visitor::SignatureInfo`]); the descriptor extractor
//! in [`visitor`] classifies every parameter as not injected, injected by
//! type lookup, or injected by a nested call.  Dispatch in [`client`] then
//! resolves the injected parameters against the registry and a per-call
//! [`client::BasicContext`], handing the actual invocation of host callables
//! and the awaiting of asynchronous results back to the embedding layer as
//! explicit steps.  [`bridge`] holds the one-shot hand-off cell used to move
//! results between the native executor and a foreign cooperative event loop.

pub mod bridge;
pub mod client;
pub mod keymap;
pub mod kwargs;
pub mod types;
pub mod values;
pub mod visitor;
