//! Connection lifecycle seen from the network side: handshakes become
//! registered connections, disconnections are observed as failed sends, and a
//! tick stays cheap.

use hyperspeed::connection::{ClientView, Connection, ConnectionCollection};
use hyperspeed::engine::{Engine, EngineInstruction};
use hyperspeed::server::{ServerConfig, StreamData};
use std::time::{Duration, Instant};

fn accept(engine: &mut Engine, key: &str) {
    let data = StreamData::do_connect_str(key);
    let conn = data.to_connection().expect("handshake accepted");
    engine.process_announcements(vec![conn]);
}

#[test]
fn can_connect_with_dummy_client() {
    let mut engine = Engine::new();
    let data = StreamData::do_connect_str("default_key");
    assert!(data.should_connect());
    let conn = data.to_connection().expect("handshake accepted");
    assert_eq!(conn.key, "default_key");
    engine.process_announcements(vec![conn]);
    assert_eq!(engine.connections.size(), 1);
    assert!(engine.has_channel(&"default_key".to_string()));
}

#[test]
fn can_send_message_and_get_response() {
    let mut engine = Engine::new();
    accept(&mut engine, "alice");

    // The client's message arrives as input; the simulation step answers it
    // with a view, which the worker picks up from its outbound channel.
    let mut mailbox = hyperspeed::mailbox::PlayerInputBuffer::new();
    mailbox.push_input("alice".to_string(), hyperspeed::input::Input::Key("w".to_string()));
    let mut drained = mailbox.drain_all();
    assert_eq!(
        drained.pop_input("alice".to_string()),
        Some(hyperspeed::input::Input::Key("w".to_string()))
    );

    let response = ClientView { sprites: vec![7], loc: vec![(1, 2)] };
    engine.fan_out(vec![("alice".to_string(), response.clone())]);
    let got = engine.poll_outbound(&"alice".to_string());
    assert_eq!(got, Some(response));
}

#[test]
fn server_handles_invalid_address() {
    // A handshake that cannot produce a usable identity rejects the socket:
    // nothing is registered and no channel appears.
    let mut engine = Engine::new();
    let data = StreamData::dont_connect();
    assert!(!data.should_connect());
    assert!(data.to_connection().is_none());
    assert_eq!(engine.connections.size(), 0);
    assert!(!engine.has_channel(&String::new()));
    engine.fan_out(vec![]);
    assert_eq!(engine.connections.size(), 0);
}

#[test]
fn server_handles_invalid_port() {
    // The configuration falls back to the default port and accepts any
    // explicitly chosen one.
    let config = ServerConfig::new();
    assert_eq!(config.port, hyperspeed::DEFAULT_PORT);
    assert_eq!(config.server_name, "default_name");
    let mut custom = ServerConfig::new();
    custom.port = 0;
    assert_eq!(custom.port, 0);
}

#[test]
fn can_connect_with_multiple_clients() {
    let mut engine = Engine::new();
    accept(&mut engine, "alice");
    accept(&mut engine, "bob");
    accept(&mut engine, "carol");
    assert_eq!(engine.connections.size(), 3);
    let new_keys = engine.connections.pop_new_keys();
    assert_eq!(new_keys, vec!["alice", "bob", "carol"]);
    assert!(engine.has_channel(&"alice".to_string()));
    assert!(engine.has_channel(&"bob".to_string()));
    assert!(engine.has_channel(&"carol".to_string()));
}

#[test]
fn can_disconnect_and_have_updated_client_list() {
    let mut engine = Engine::new();
    accept(&mut engine, "alice");
    accept(&mut engine, "bob");
    assert_eq!(engine.connections.size(), 2);

    // Alice's worker dies; the coordinator notices on the next fan-out.
    engine.close_channel(&"alice".to_string());
    engine.fan_out(vec![
        ("alice".to_string(), ClientView::new()),
        ("bob".to_string(), ClientView::new()),
    ]);
    assert_eq!(engine.connections.size(), 1);
    assert!(!engine.has_channel(&"alice".to_string()));
    assert!(engine.has_channel(&"bob".to_string()));
    let keys: Vec<String> = engine.connections.connections.iter().map(|c| c.key.clone()).collect();
    assert_eq!(keys, vec!["bob"]);
}

#[test]
fn server_latency_below_threshold() {
    let mut engine = Engine::new();
    accept(&mut engine, "alice");
    let started = Instant::now();
    let ticks: u64 = 1000;
    for i in 0..ticks {
        let step = |mut registry: ConnectionCollection| {
            let _new = registry.pop_new_keys();
            let views = vec![("alice".to_string(), ClientView { sprites: vec![i], loc: vec![] })];
            (registry, views)
        };
        let ran = engine.tick(EngineInstruction::Run { run_dispatcher: true }, vec![], step);
        assert!(ran);
    }
    // A generous bound: the coordinator itself must not be where time goes.
    assert!(started.elapsed() < Duration::from_secs(5));
    assert_eq!(
        engine.poll_outbound(&"alice".to_string()),
        Some(ClientView { sprites: vec![ticks - 1], loc: vec![] })
    );
}
