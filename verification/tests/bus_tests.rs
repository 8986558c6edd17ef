use cortex_bus::{
    BoxedEvent, CommandBus, CommandHandler, EventBus, EventHandler, EventStore, GetValueQuery,
    IncrementCommand, Priority, Projection, QueryBus, QueryHandler, QueryResult, ResetCommand,
};
use std::any::Any;
use std::sync::atomic::{AtomicI64, Ordering};
use std::sync::{Arc, Mutex};

/// A subscriber for events of any type: it acts on the events of the type
/// that its closure takes.
struct On(Box<dyn Fn(&dyn Any)>);

fn on<E: 'static>(f: impl Fn(&E) + 'static) -> On {
    On(Box::new(move |ev: &dyn Any| {
        if let Some(e) = ev.downcast_ref::<E>() {
            f(e);
        }
    }))
}

impl<E: 'static> EventHandler<E> for On {
    fn handle(&self, event: &E) {
        (self.0)(event)
    }
}

/// A command handler for commands of any type.
struct Cmd(Box<dyn Fn(&dyn Any) -> bool>);

fn cmd<C: 'static>(f: impl Fn(&C) -> bool + 'static) -> Cmd {
    Cmd(Box::new(move |c: &dyn Any| match c.downcast_ref::<C>() {
        Some(c) => f(c),
        None => false,
    }))
}

impl<C: 'static> CommandHandler<C> for Cmd {
    fn handle(&self, command: &C) -> bool {
        (self.0)(command)
    }
}

/// A query handler made of a closure.
struct Ask<F>(F);

impl<Q, R, F: Fn(&Q) -> QueryResult<R>> QueryHandler<Q> for Ask<F> {
    type Output = R;

    fn handle(&self, query: &Q) -> QueryResult<R> {
        (self.0)(query)
    }
}

fn len_of(s: &str) -> i64 {
    i64::try_from(s.len()).unwrap()
}

#[derive(Default, Clone)]
struct CounterState {
    value: i64,
}

// ── EventBus ──

#[test]
fn event_bus_subscribe_and_publish() {
    let mut bus: EventBus<On> = EventBus::new();
    let counter = Arc::new(AtomicI64::new(0));
    let c = counter.clone();
    bus.subscribe::<String>(
        Priority::normal(),
        on(move |ev: &String| {
            c.fetch_add(len_of(ev), Ordering::SeqCst);
        }),
    );
    bus.publish(String::from("hello"));
    assert_eq!(counter.load(Ordering::SeqCst), 5);
}

#[test]
fn event_bus_priority_ordering() {
    let mut bus: EventBus<On> = EventBus::new();
    let order: Arc<Mutex<Vec<i32>>> = Arc::new(Mutex::new(Vec::new()));
    let o1 = order.clone();
    bus.subscribe::<String>(
        Priority::low(),
        on(move |_: &String| {
            o1.lock().unwrap().push(1);
        }),
    );
    let o2 = order.clone();
    bus.subscribe::<String>(
        Priority::high(),
        on(move |_: &String| {
            o2.lock().unwrap().push(2);
        }),
    );
    let o3 = order.clone();
    bus.subscribe::<String>(
        Priority::normal(),
        on(move |_: &String| {
            o3.lock().unwrap().push(3);
        }),
    );
    bus.publish(String::from("test"));
    let o = order.lock().unwrap().clone();
    assert_eq!(o, vec![2, 3, 1]);
}

#[test]
fn event_bus_multiple_events() {
    let mut bus: EventBus<On> = EventBus::new();
    let counter = Arc::new(AtomicI64::new(0));
    let c = counter.clone();
    bus.subscribe::<i64>(
        Priority::normal(),
        on(move |ev: &i64| {
            c.fetch_add(*ev, Ordering::SeqCst);
        }),
    );
    bus.publish(10i64);
    bus.publish(20i64);
    bus.publish(30i64);
    assert_eq!(counter.load(Ordering::SeqCst), 60);
}

#[test]
fn event_bus_handler_count() {
    let mut bus: EventBus<On> = EventBus::new();
    assert_eq!(bus.handler_count(), 0);
    bus.subscribe::<String>(Priority::normal(), on(|_: &String| {}));
    bus.subscribe::<i64>(Priority::normal(), on(|_: &i64| {}));
    assert_eq!(bus.handler_count(), 2);
}

// ── CommandBus ──

#[test]
fn command_bus_dispatch() {
    let mut bus: CommandBus<Cmd> = CommandBus::new();
    let counter = Arc::new(AtomicI64::new(0));
    let c = counter.clone();
    bus.register::<IncrementCommand>(cmd(move |command: &IncrementCommand| {
        c.fetch_add(command.amount, Ordering::SeqCst);
        true
    }));
    assert!(bus.dispatch(&IncrementCommand { amount: 5 }));
    assert_eq!(counter.load(Ordering::SeqCst), 5);
}

#[test]
fn command_bus_no_handler_returns_false() {
    let bus: CommandBus<Cmd> = CommandBus::new();
    assert!(!bus.dispatch(&ResetCommand));
}

#[test]
fn command_bus_handler_count() {
    let mut bus: CommandBus<Cmd> = CommandBus::new();
    bus.register::<IncrementCommand>(cmd(|_: &IncrementCommand| true));
    bus.register::<ResetCommand>(cmd(|_: &ResetCommand| true));
    assert_eq!(bus.handler_count(), 2);
}

// ── QueryBus ──

#[test]
fn query_bus_execute() {
    let mut bus = QueryBus::new();
    bus.register::<GetValueQuery>(Ask(|_: &GetValueQuery| QueryResult::new(42i64)));
    let result = bus.execute(&GetValueQuery);
    assert!(result.is_some());
    assert_eq!(result.unwrap().downcast(), Some(42));
}

#[test]
fn query_bus_no_handler_returns_none() {
    let bus: QueryBus<Ask<fn(&GetValueQuery) -> QueryResult<i64>>> = QueryBus::new();
    assert!(bus.execute(&GetValueQuery).is_none());
}

// ── EventStore ──

#[test]
fn event_store_append_and_len() {
    let mut store = EventStore::new();
    assert!(store.is_empty());
    store.append(String::from("e1"));
    store.append(String::from("e2"));
    assert_eq!(store.len(), 2);
    assert!(!store.is_empty());
}

#[test]
fn event_store_replay_all() {
    let mut store = EventStore::new();
    store.append(String::from("a"));
    store.append(String::from("bb"));
    let total_len = Arc::new(AtomicI64::new(0));
    let t = total_len.clone();
    store.replay_all(|_, ev: &BoxedEvent<String>| {
        t.fetch_add(len_of(ev.inner()), Ordering::SeqCst);
    });
    assert_eq!(total_len.load(Ordering::SeqCst), 3);
}

#[test]
fn event_store_replay_from_offset() {
    let mut store = EventStore::new();
    store.append(String::from("first"));
    store.append(String::from("second"));
    store.append(String::from("third"));
    let count = Arc::new(AtomicI64::new(0));
    let c = count.clone();
    store.replay_from(1, |_, _| {
        c.fetch_add(1, Ordering::SeqCst);
    });
    assert_eq!(count.load(Ordering::SeqCst), 2);
}

#[test]
fn event_store_clear() {
    let mut store = EventStore::new();
    store.append(String::from("x"));
    store.clear();
    assert!(store.is_empty());
}

// ── Projection ──

#[test]
fn projection_apply_and_snapshot() {
    let mut proj: Projection<CounterState> = Projection::new();
    proj.apply(|mut s| {
        s.value += 10;
        s
    });
    proj.apply(|mut s| {
        s.value += 5;
        s
    });
    assert_eq!(proj.snapshot().value, 15);
}

#[test]
fn projection_from_initial() {
    let proj = Projection::from(CounterState { value: 100 });
    assert_eq!(proj.snapshot().value, 100);
}

// ── The whole flow ──

#[test]
fn full_cqrs_integration() {
    let mut event_bus: EventBus<On> = EventBus::new();
    let mut command_bus: CommandBus<Cmd> = CommandBus::new();
    let mut query_bus = QueryBus::new();
    let store: EventStore<String> = EventStore::new();
    let projection: Projection<CounterState> = Projection::new();

    let store_ref = Arc::new(Mutex::new(store));
    let store_clone = store_ref.clone();
    let proj = Arc::new(Mutex::new(projection));
    let proj_clone = proj.clone();

    // Event subscriber updates the projection.
    event_bus.subscribe::<String>(
        Priority::normal(),
        on(move |ev: &String| {
            let n = len_of(ev);
            proj_clone.lock().unwrap().apply(move |mut s| {
                s.value += n;
                s
            });
        }),
    );
    let eb = Arc::new(event_bus);
    let eb_ref = eb.clone();

    // The command handler publishes an event and records it.
    command_bus.register::<IncrementCommand>(cmd(move |command: &IncrementCommand| {
        let event_str = format!("inc:{}", command.amount);
        eb_ref.publish(event_str);
        store_clone.lock().unwrap().append(String::from("incremented"));
        true
    }));

    // The query handler reads the projection.
    let proj_q = proj.clone();
    query_bus.register::<GetValueQuery>(Ask(move |_: &GetValueQuery| {
        QueryResult::new(proj_q.lock().unwrap().snapshot().value)
    }));

    command_bus.dispatch(&IncrementCommand { amount: 7 });
    command_bus.dispatch(&IncrementCommand { amount: 3 });

    // "inc:7" has 5 chars, "inc:3" has 5 chars: 10 in all.
    let result = query_bus.execute(&GetValueQuery);
    assert_eq!(result.unwrap().downcast(), Some(10));
    assert_eq!(store_ref.lock().unwrap().len(), 2);
}
