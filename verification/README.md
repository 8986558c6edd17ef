# cortex_bus

An event bus in the CQRS style, verified with Verus.

- `src/event_bus.rs`: subscribers kept in priority order (higher first,
  ties in subscription order); `publish_topic` hands an event to the
  subscribers of a given type key, and `publish` uses the key that
  `std::any::TypeId::of` gives for the event's type. The laws of the
  serving order are proof functions there.
- `src/handler_table.rs`: one handler per message type, viewed as a map.
- `src/command_bus.rs`, `src/query_bus.rs`: command dispatch and query
  execution over a handler table.
- `src/event_store.rs`: an append-only log that numbers its events from 1
  and replays them in order.
- `src/projection.rs`: a state folded from events.
- `src/message.rs`: the message traits, the shared event handle and the
  query answer.
- `src/type_key.rs`: the two trusted calls into `std::any::TypeId`.

Handlers are values of a type parameter that implements `EventHandler`,
`CommandHandler` or `QueryHandler`; the contracts of publishing, dispatch,
queries and replay say which handler calls were made and what they
returned. `app/` holds the thread-shared form of the buses, whose handlers
are closures erased to `dyn Any`.
