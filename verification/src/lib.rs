//! Event bus in the CQRS style: commands, queries and events travel on
//! separate buses, each routed by the Rust type of the message; an
//! append-only event store numbers and replays events, and a projection
//! folds them into a materialized view.
//!
//! Routing by an explicit type key, ordering, numbering and replay are
//! verified. The entry points that take the message type use the key that
//! `std::any::TypeId::of` gives, of which nothing is claimed but that two
//! keys compare equal exactly when they are the same. The handlers that
//! users plug in are called through small traits of this crate.

pub mod type_key;
pub mod message;
pub mod event_bus;
pub mod handler_table;
pub mod command_bus;
pub mod query_bus;
pub mod event_store;
pub mod projection;

pub use message::{
    BoxedEvent, Command, Event, GetValueQuery, IncrementCommand, Query, QueryResult,
    ResetCommand,
};
pub use event_bus::{EventBus, EventHandler, Priority, Subscriber};
pub use command_bus::{CommandBus, CommandHandler};
pub use query_bus::{QueryBus, QueryHandler};
pub use event_store::EventStore;
pub use projection::Projection;
pub use handler_table::HandlerTable;
