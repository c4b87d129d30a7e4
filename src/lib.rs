//! An in-process JSON-RPC method registry: method names bound to handlers,
//! admission control through resource claims, and the bookkeeping of
//! push subscriptions.

pub mod error;
pub mod resources;
pub mod methods;
pub mod registry;
pub mod json;
pub mod subscription;
pub mod module;
pub mod laws;
