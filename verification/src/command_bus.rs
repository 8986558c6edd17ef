//! The command bus: at most one handler per command type; a dispatched
//! command goes to the handler of its type, if there is one.

use vstd::prelude::*;
use crate::handler_table::HandlerTable;
use crate::message::Command;
use crate::type_key::type_key;

verus! {

/// What a command handler does with a command of type `C`; it answers
/// whether it processed the command.
pub trait CommandHandler<C> {
    fn handle(&self, command: &C) -> bool;
}

/// `r` is the answer of dispatching `command` by the key `topic`: what a
/// call of the handler registered for `topic` returned, or `false` when no
/// handler is registered for it.
pub open spec fn dispatched<H: CommandHandler<C>, C>(
    handlers: Map<std::any::TypeId, H>,
    topic: std::any::TypeId,
    command: C,
    r: bool,
) -> bool {
    match handlers.get(topic) {
        Some(h) => call_ensures(<H as CommandHandler<C>>::handle, (&h, &command), r),
        None => !r,
    }
}

/// Command bus with typed handler registration and dispatch.
pub struct CommandBus<H> {
    handlers: HandlerTable<H>,
}

impl<H> View for CommandBus<H> {
    type V = Map<std::any::TypeId, H>;

    closed spec fn view(&self) -> Map<std::any::TypeId, H> {
        self.handlers@
    }
}

impl<H> CommandBus<H> {
    pub fn new() -> (r: Self)
        ensures
            r@ == Map::<std::any::TypeId, H>::empty(),
    {
        CommandBus { handlers: HandlerTable::new() }
    }

    /// Registers `handler` for the commands whose type has the key `topic`,
    /// replacing the handler registered for it before.
    pub fn register_topic(&mut self, topic: std::any::TypeId, handler: H)
        ensures
            final(self)@ == old(self)@.insert(topic, handler),
            final(self)@.dom().finite(),
            final(self)@.len() == old(self)@.len() + (if old(self)@.contains_key(topic) {
                0int
            } else {
                1int
            }),
    {
        self.handlers.insert(topic, handler);
    }

    /// Registers `handler` for the commands of type `C`, replacing the
    /// handler registered for that type before.
    pub fn register<C: Command + 'static>(&mut self, handler: H)
        ensures
            exists|t: std::any::TypeId| final(self)@ == old(self)@.insert(t, handler),
    {
        let topic = type_key::<C>();
        self.register_topic(topic, handler);
    }

    /// Hands `command` to the handler registered for `topic` and answers
    /// what it answers; with no such handler the answer is `false`.
    pub fn dispatch_topic<C>(&self, topic: &std::any::TypeId, command: &C) -> (r: bool)
        where
            H: CommandHandler<C>,
        ensures
            dispatched(self@, *topic, *command, r),
    {
        match self.handlers.get(topic) {
            Some(h) => h.handle(command),
            None => false,
        }
    }

    /// Dispatches a command to the handler of its type. Returns true if a
    /// handler processed it.
    pub fn dispatch<C: Command + 'static>(&self, command: &C) -> (r: bool)
        where
            H: CommandHandler<C>,
        ensures
            exists|t: std::any::TypeId| dispatched(self@, t, *command, r),
            self@ == Map::<std::any::TypeId, H>::empty() ==> !r,
    {
        let topic = type_key::<C>();
        self.dispatch_topic(&topic, command)
    }

    /// The number of command types with a handler.
    pub fn handler_count(&self) -> (r: usize)
        ensures
            r == self@.len(),
            self@.dom().finite(),
    {
        self.handlers.len()
    }
}

impl<H> Default for CommandBus<H> {
    fn default() -> (r: Self)
        ensures
            r@ == Map::<std::any::TypeId, H>::empty(),
    {
        Self::new()
    }
}

} // verus!
