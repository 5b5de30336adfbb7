use pubsub_hub::channel::Frame;
use pubsub_hub::lifecycle::{
    inbound_signal, pump_step, react, Action, Connection, ConnectionState, PumpStep, Reaction,
    Signal,
};
use pubsub_hub::registry::Registry;
use tokio::sync::mpsc::unbounded_channel;
use warp::Filter;

/// An error as the transport reports it: here, that of a server that is
/// bound to an address already in use.
fn transport_error() -> warp::Error {
    let runtime = tokio::runtime::Builder::new_current_thread()
        .enable_all()
        .build()
        .unwrap();
    runtime.block_on(async {
        let first = warp::serve(warp::any().map(|| "x")).try_bind_ephemeral(([127, 0, 0, 1], 0));
        match first {
            Err(error) => error,
            Ok((address, _server)) => {
                match warp::serve(warp::any().map(|| "x")).try_bind_ephemeral(address) {
                    Err(error) => error,
                    Ok(_) => panic!("one address was bound twice"),
                }
            }
        }
    })
}

fn registry_with(id: &str) -> Registry {
    let mut registry = Registry::new();
    registry.register(id.to_string(), 1, vec!["sports".to_string()]).unwrap();
    registry
}

#[test]
fn new_connection_is_pending() {
    let connection = Connection::new("c1".to_string());
    assert_eq!(connection.state(), ConnectionState::Pending);
    assert_eq!(connection.client_id(), "c1");
}

#[test]
fn open_attaches_a_registered_client() {
    let mut registry = registry_with("c1");
    let (tx, _rx) = unbounded_channel();
    let mut connection = Connection::new("c1".to_string());
    assert_eq!(connection.open(&mut registry, tx), Action::Serve);
    assert_eq!(connection.state(), ConnectionState::Attached);
    assert_eq!(connection.client_id(), "c1");
    assert!(registry.get("c1").unwrap().is_connected());
}

#[test]
fn open_refuses_an_unknown_client() {
    let mut registry = registry_with("c1");
    let (tx, _rx) = unbounded_channel();
    let mut connection = Connection::new("stranger".to_string());
    assert_eq!(connection.open(&mut registry, tx), Action::Refuse);
    assert_eq!(connection.state(), ConnectionState::Closed);
    assert!(!registry.contains("stranger"));
    assert_eq!(registry.len(), 1);
    assert!(!registry.get("c1").unwrap().is_connected());
}

#[test]
fn open_twice_is_refused_and_keeps_the_first_handle() {
    let mut registry = registry_with("c1");
    let (first, mut first_rx) = unbounded_channel();
    let (second, mut second_rx) = unbounded_channel();
    let mut connection = Connection::new("c1".to_string());
    assert_eq!(connection.open(&mut registry, first), Action::Serve);
    assert_eq!(connection.open(&mut registry, second), Action::Refuse);
    assert_eq!(connection.state(), ConnectionState::Attached);
    pubsub_hub::fanout::publish(&registry, "sports", "x");
    assert_eq!(first_rx.try_recv().unwrap().unwrap().to_str(), Ok("x"));
    assert!(second_rx.try_recv().is_err());
}

#[test]
fn closed_connection_is_not_reopened() {
    let mut registry = registry_with("c1");
    let (first, _first_rx) = unbounded_channel();
    let (second, _second_rx) = unbounded_channel();
    let mut connection = Connection::new("c1".to_string());
    connection.open(&mut registry, first);
    connection.on_signal(Signal::StreamEnded, &mut registry);
    registry.register("c1".to_string(), 1, Vec::new()).unwrap();
    assert_eq!(connection.open(&mut registry, second), Action::Refuse);
    assert_eq!(connection.state(), ConnectionState::Closed);
    assert!(!registry.get("c1").unwrap().is_connected());
}

#[test]
fn frames_keep_the_connection_attached() {
    let mut registry = registry_with("c1");
    let (tx, _rx) = unbounded_channel();
    let mut connection = Connection::new("c1".to_string());
    connection.open(&mut registry, tx);
    for _ in 0..3 {
        assert_eq!(connection.on_signal(Signal::FrameReceived, &mut registry), Action::Continue);
        assert_eq!(connection.state(), ConnectionState::Attached);
        assert!(registry.get("c1").unwrap().is_connected());
    }
}

#[test]
fn end_of_stream_removes_the_record() {
    let mut registry = registry_with("c1");
    let (tx, _rx) = unbounded_channel();
    let mut connection = Connection::new("c1".to_string());
    connection.open(&mut registry, tx);
    assert_eq!(connection.on_signal(Signal::StreamEnded, &mut registry), Action::Stop);
    assert_eq!(connection.state(), ConnectionState::Closed);
    assert!(!registry.contains("c1"));
}

#[test]
fn transport_error_removes_the_record() {
    let mut registry = registry_with("c1");
    let (tx, _rx) = unbounded_channel();
    let mut connection = Connection::new("c1".to_string());
    connection.open(&mut registry, tx);
    assert_eq!(connection.on_signal(Signal::TransportFailed, &mut registry), Action::Stop);
    assert_eq!(connection.state(), ConnectionState::Closed);
    assert!(!registry.contains("c1"));
}

#[test]
fn failed_write_removes_the_record() {
    let mut registry = registry_with("c1");
    registry.register("c2".to_string(), 2, Vec::new()).unwrap();
    let (tx, _rx) = unbounded_channel();
    let mut connection = Connection::new("c1".to_string());
    connection.open(&mut registry, tx);
    assert_eq!(connection.on_signal(Signal::WriteFailed, &mut registry), Action::Stop);
    assert_eq!(connection.state(), ConnectionState::Closed);
    assert!(!registry.contains("c1"));
    assert!(registry.contains("c2"));
}

#[test]
fn cleanup_happens_once() {
    let mut registry = registry_with("c1");
    let (tx, _rx) = unbounded_channel();
    let mut connection = Connection::new("c1".to_string());
    connection.open(&mut registry, tx);
    assert_eq!(connection.on_signal(Signal::WriteFailed, &mut registry), Action::Stop);
    registry.register("c1".to_string(), 9, Vec::new()).unwrap();
    assert_eq!(connection.on_signal(Signal::StreamEnded, &mut registry), Action::Stop);
    assert_eq!(connection.on_signal(Signal::TransportFailed, &mut registry), Action::Stop);
    assert_eq!(connection.on_signal(Signal::FrameReceived, &mut registry), Action::Stop);
    assert_eq!(connection.state(), ConnectionState::Closed);
    assert_eq!(registry.get("c1").unwrap().user_id, 9);
}

#[test]
fn close_after_unregistration_misses_nothing() {
    let mut registry = registry_with("c1");
    let (tx, _rx) = unbounded_channel();
    let mut connection = Connection::new("c1".to_string());
    connection.open(&mut registry, tx);
    registry.unregister("c1").unwrap();
    assert_eq!(connection.on_signal(Signal::StreamEnded, &mut registry), Action::Stop);
    assert_eq!(connection.state(), ConnectionState::Closed);
    assert!(registry.is_empty());
}

#[test]
fn pending_connection_closes_without_touching_the_record() {
    let mut registry = registry_with("c1");
    let mut connection = Connection::new("c1".to_string());
    assert_eq!(connection.on_signal(Signal::FrameReceived, &mut registry), Action::Continue);
    assert_eq!(connection.state(), ConnectionState::Pending);
    assert_eq!(connection.on_signal(Signal::StreamEnded, &mut registry), Action::Stop);
    assert_eq!(connection.state(), ConnectionState::Closed);
    assert!(registry.contains("c1"));
}

#[test]
fn react_follows_the_transition_table() {
    let closing = [Signal::StreamEnded, Signal::TransportFailed, Signal::WriteFailed];
    assert_eq!(
        react(ConnectionState::Pending, Signal::FrameReceived),
        Reaction { next: ConnectionState::Pending, action: Action::Continue, cleanup: false }
    );
    assert_eq!(
        react(ConnectionState::Attached, Signal::FrameReceived),
        Reaction { next: ConnectionState::Attached, action: Action::Continue, cleanup: false }
    );
    assert_eq!(
        react(ConnectionState::Closed, Signal::FrameReceived),
        Reaction { next: ConnectionState::Closed, action: Action::Stop, cleanup: false }
    );
    for signal in closing {
        assert_eq!(
            react(ConnectionState::Pending, signal),
            Reaction { next: ConnectionState::Closed, action: Action::Stop, cleanup: false }
        );
        assert_eq!(
            react(ConnectionState::Attached, signal),
            Reaction { next: ConnectionState::Closed, action: Action::Stop, cleanup: true }
        );
        assert_eq!(
            react(ConnectionState::Closed, signal),
            Reaction { next: ConnectionState::Closed, action: Action::Stop, cleanup: false }
        );
    }
}

#[test]
fn closing_signals_are_all_but_frames() {
    assert!(!Signal::FrameReceived.is_closing());
    assert!(Signal::StreamEnded.is_closing());
    assert!(Signal::TransportFailed.is_closing());
    assert!(Signal::WriteFailed.is_closing());
}

#[test]
fn inbound_items_are_read_as_signals() {
    let frame: Option<Frame> = Some(Ok(warp::ws::Message::text("ping")));
    assert_eq!(inbound_signal(&frame), Signal::FrameReceived);
    let close: Option<Frame> = Some(Ok(warp::ws::Message::close()));
    assert_eq!(inbound_signal(&close), Signal::FrameReceived);
    let end: Option<Frame> = None;
    assert_eq!(inbound_signal(&end), Signal::StreamEnded);
}

#[test]
fn inbound_error_is_read_as_a_failed_transport() {
    let failed: Option<Frame> = Some(Err(transport_error()));
    assert_eq!(inbound_signal(&failed), Signal::TransportFailed);
}

#[test]
fn pump_writes_messages_and_stops_on_the_rest() {
    match pump_step(Some(Ok(warp::ws::Message::text("goal!")))) {
        PumpStep::Write(message) => assert_eq!(message.to_str(), Ok("goal!")),
        other => panic!("a message is to be written, not {:?}", other),
    }
    assert!(matches!(pump_step(None), PumpStep::Finish));
    assert!(matches!(pump_step(Some(Err(transport_error()))), PumpStep::Fail));
}

#[test]
fn pump_takes_what_was_published_in_order() {
    let mut registry = registry_with("c1");
    let (tx, mut rx) = unbounded_channel();
    let mut connection = Connection::new("c1".to_string());
    assert_eq!(connection.open(&mut registry, tx), Action::Serve);
    let payloads = ["first", "second", "third"];
    for payload in payloads {
        pubsub_hub::fanout::publish(&registry, "sports", payload);
    }
    for payload in payloads {
        match pump_step(rx.try_recv().ok()) {
            PumpStep::Write(message) => assert_eq!(message.to_str(), Ok(payload)),
            other => panic!("a message is to be written, not {:?}", other),
        }
    }
    assert_eq!(connection.on_signal(Signal::StreamEnded, &mut registry), Action::Stop);
    assert!(matches!(pump_step(rx.try_recv().ok()), PumpStep::Finish));
}
