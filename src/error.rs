use vstd::prelude::*;

verus! {

/// Why a subscription was closed; carried by the final notification.
#[derive(Debug, Clone, PartialEq, Eq)]
pub enum CloseReason {
    /// The subscriber asked for the subscription to end.
    Unsubscribed,
    /// The subscriber went away without unsubscribing.
    ConnectionReset,
    /// The server closed the subscription, with a message.
    Server(String),
}

/// Errors of registration, resource accounting and subscriptions.
#[derive(Debug, Clone, PartialEq, Eq)]
pub enum Error {
    /// A method of that name is registered already.
    MethodAlreadyRegistered(String),
    /// No method of that name is registered.
    MethodNotFound(String),
    /// The subscribe and unsubscribe methods were given the same name.
    SubscriptionNameConflict(String),
    /// Resources were claimed for a method before they were bound to a pool.
    UninitializedMethod(String),
    /// A method declared a resource (first) that the pool does not know; the method is second.
    ResourceNameNotFoundForMethod(String, String),
    /// A resource of that label is registered in the pool already.
    ResourceNameAlreadyTaken(String),
    /// The resource of that label has not enough units left.
    ResourceAtCapacity(String),
    /// More resources than the fixed maximum were declared.
    MaxResourcesReached,
    /// The subscription is closed.
    SubscriptionClosed(CloseReason),
    /// A request or its response could not be decoded; the raw text.
    Request(String),
}

} // verus!
