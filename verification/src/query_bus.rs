//! The query bus: at most one handler per query type; a query is answered
//! by the handler of its type, or not at all.

use vstd::prelude::*;
use crate::handler_table::HandlerTable;
use crate::message::{Query, QueryResult};
use crate::type_key::type_key;

verus! {

/// What a query handler answers to a query of type `Q`.
pub trait QueryHandler<Q> {
    type Output;

    fn handle(&self, query: &Q) -> QueryResult<Self::Output>;
}

/// `r` is the answer to `query` by the key `topic`: `Some` of what a call of
/// the handler registered for `topic` returned, or `None` when no handler is
/// registered for it.
pub open spec fn answered<H: QueryHandler<Q>, Q>(
    handlers: Map<std::any::TypeId, H>,
    topic: std::any::TypeId,
    query: Q,
    r: Option<QueryResult<<H as QueryHandler<Q>>::Output>>,
) -> bool {
    match handlers.get(topic) {
        Some(h) => r matches Some(v) && call_ensures(
            <H as QueryHandler<Q>>::handle,
            (&h, &query),
            v,
        ),
        None => r is None,
    }
}

/// Query bus with typed handler registration returning `QueryResult`.
pub struct QueryBus<H> {
    handlers: HandlerTable<H>,
}

impl<H> View for QueryBus<H> {
    type V = Map<std::any::TypeId, H>;

    closed spec fn view(&self) -> Map<std::any::TypeId, H> {
        self.handlers@
    }
}

impl<H> QueryBus<H> {
    pub fn new() -> (r: Self)
        ensures
            r@ == Map::<std::any::TypeId, H>::empty(),
    {
        QueryBus { handlers: HandlerTable::new() }
    }

    /// Registers `handler` for the queries whose type has the key `topic`,
    /// replacing the handler registered for it before.
    pub fn register_topic(&mut self, topic: std::any::TypeId, handler: H)
        ensures
            final(self)@ == old(self)@.insert(topic, handler),
            final(self)@.dom().finite(),
            final(self)@.len() == old(self)@.len() + (if old(self)@.contains_key(topic) {
                0int
            } else {
                1int
            }),
    {
        self.handlers.insert(topic, handler);
    }

    /// Registers `handler` for the queries of type `Q`, replacing the
    /// handler registered for that type before.
    pub fn register<Q: Query + 'static>(&mut self, handler: H)
        ensures
            exists|t: std::any::TypeId| final(self)@ == old(self)@.insert(t, handler),
    {
        let topic = type_key::<Q>();
        self.register_topic(topic, handler);
    }

    /// Asks the handler registered for `topic`; `None` when there is none.
    pub fn execute_topic<Q>(&self, topic: &std::any::TypeId, query: &Q) -> (r: Option<
        QueryResult<<H as QueryHandler<Q>>::Output>,
    >)
        where
            H: QueryHandler<Q>,
        ensures
            r is Some <==> self@.contains_key(*topic),
            answered(self@, *topic, *query, r),
    {
        match self.handlers.get(topic) {
            Some(h) => Some(h.handle(query)),
            None => None,
        }
    }

    /// Executes a query. Returns `None` if no handler is registered for its
    /// type.
    pub fn execute<Q: Query + 'static>(&self, query: &Q) -> (r: Option<
        QueryResult<<H as QueryHandler<Q>>::Output>,
    >)
        where
            H: QueryHandler<Q>,
        ensures
            exists|t: std::any::TypeId| answered(self@, t, *query, r),
            self@ == Map::<std::any::TypeId, H>::empty() ==> r is None,
    {
        let topic = type_key::<Q>();
        self.execute_topic(&topic, query)
    }

    /// The number of query types with a handler.
    pub fn handler_count(&self) -> (r: usize)
        ensures
            r == self@.len(),
            self@.dom().finite(),
    {
        self.handlers.len()
    }
}

impl<H> Default for QueryBus<H> {
    fn default() -> (r: Self)
        ensures
            r@ == Map::<std::any::TypeId, H>::empty(),
    {
        Self::new()
    }
}

} // verus!
