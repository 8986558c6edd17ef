//! Messages: the marker traits of events, commands and queries, the
//! shared event handle and the value a query answers with.

use vstd::prelude::*;
use std::sync::Arc;

verus! {

/// A type whose values can be published on an `EventBus`.
pub trait Event {
    /// A human-readable name of the event's type.
    fn event_type_name(&self) -> &'static str;
}

/// A type whose values can be dispatched on a `CommandBus`.
pub trait Command {
    /// A human-readable name of the command's type.
    fn command_type_name(&self) -> &'static str;
}

/// A type whose values can be executed on a `QueryBus`.
pub trait Query {
    /// A human-readable name of the query's type.
    fn query_type_name(&self) -> &'static str;
}

impl Event for String {
    fn event_type_name(&self) -> (r: &'static str)
        ensures
            r@ == "String"@,
    {
        "String"
    }
}

impl Event for i64 {
    fn event_type_name(&self) -> (r: &'static str)
        ensures
            r@ == "i64"@,
    {
        "i64"
    }
}

impl Event for u32 {
    fn event_type_name(&self) -> (r: &'static str)
        ensures
            r@ == "u32"@,
    {
        "u32"
    }
}

/// An event held behind a shared pointer, cheap to hand around.
pub struct BoxedEvent<E> {
    inner: Arc<E>,
}

impl<E> View for BoxedEvent<E> {
    type V = E;

    closed spec fn view(&self) -> E {
        *self.inner
    }
}

impl<E> BoxedEvent<E> {
    pub fn new(event: E) -> (r: Self)
        ensures
            r@ == event,
    {
        BoxedEvent { inner: Arc::new(event) }
    }

    /// The event itself.
    pub fn inner(&self) -> (r: &E)
        ensures
            *r == self@,
    {
        &*self.inner
    }
}

/// The answer of a query handler.
pub struct QueryResult<T> {
    data: Arc<T>,
}

impl<T> View for QueryResult<T> {
    type V = T;

    closed spec fn view(&self) -> T {
        *self.data
    }
}

impl<T> QueryResult<T> {
    pub fn new(value: T) -> (r: Self)
        ensures
            r@ == value,
    {
        QueryResult { data: Arc::new(value) }
    }

    /// A copy of the answer. The answer's type is fixed by the handler that
    /// gave it, so the copy is always there.
    pub fn downcast(&self) -> (r: Option<T>)
        where
            T: Clone,
        ensures
            r matches Some(v) && cloned(self@, v),
    {
        Some((*self.data).clone())
    }
}

impl<T> Clone for QueryResult<T> {
    fn clone(&self) -> (r: Self)
        ensures
            r@ == self@,
    {
        QueryResult { data: self.data.clone() }
    }
}

/// Adds `amount` to a counter.
#[derive(Debug)]
pub struct IncrementCommand {
    pub amount: i64,
}

impl Command for IncrementCommand {
    fn command_type_name(&self) -> (r: &'static str)
        ensures
            r@ == "IncrementCommand"@,
    {
        "IncrementCommand"
    }
}

/// Resets a counter.
#[derive(Debug)]
pub struct ResetCommand;

impl Command for ResetCommand {
    fn command_type_name(&self) -> (r: &'static str)
        ensures
            r@ == "ResetCommand"@,
    {
        "ResetCommand"
    }
}

/// Asks for a counter's value.
#[derive(Debug)]
pub struct GetValueQuery;

impl Query for GetValueQuery {
    fn query_type_name(&self) -> (r: &'static str)
        ensures
            r@ == "GetValueQuery"@,
    {
        "GetValueQuery"
    }
}

} // verus!
