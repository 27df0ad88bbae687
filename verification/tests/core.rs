//! The registry, mailbox, outbound channels, framing, and the coordinator's
//! fan-out, on concrete values.

use hyperspeed::connection::{ClientView, Connection, ConnectionCollection};
use hyperspeed::engine::{Engine, EngineInstruction};
use hyperspeed::input::Input;
use hyperspeed::mailbox::{put_buffer, PlayerInputBuffer};
use hyperspeed::outbound::{latest_view, OutboundChannel};
use hyperspeed::protocol::{
    decode_buffer, find_stream_end_chars, input_events, InputMessage, StreamReadResult,
};
use hyperspeed::server::StreamData;
use hyperspeed::view_system::ViewSystem;

fn key(s: &str) -> String {
    s.to_string()
}

fn conn(s: &str) -> Connection {
    Connection { key: key(s) }
}

#[test]
fn mailbox_drain_delivers_every_push_exactly_once() {
    let mut mailbox = PlayerInputBuffer::new();
    mailbox.push_input(key("alice"), Input::Key(key("w")));
    mailbox.push_input(key("bob"), Input::Click { x: 3, y: 4 });
    mailbox.push_input(key("alice"), Input::Key(key("a")));

    let mut drained = mailbox.drain_all();
    assert_eq!(drained.pop_input(key("alice")), Some(Input::Key(key("w"))));
    assert_eq!(drained.pop_input(key("alice")), Some(Input::Key(key("a"))));
    assert_eq!(drained.pop_input(key("alice")), None);
    assert_eq!(drained.pop_input(key("bob")), Some(Input::Click { x: 3, y: 4 }));
    assert_eq!(drained.pop_input(key("bob")), None);

    // Nothing pushed before the drain shows up a second time.
    let mut second = mailbox.drain_all();
    assert_eq!(second.pop_input(key("alice")), None);
    assert_eq!(second.pop_input(key("bob")), None);
}

#[test]
fn mailbox_scenario_fifo_per_key() {
    let mut mailbox = PlayerInputBuffer::new();
    mailbox.push_input(key("alice"), Input::Key(key("w")));
    mailbox.push_input(key("alice"), Input::Key(key("a")));
    let mut drained = mailbox.drain_all();
    assert_eq!(drained.pop_input(key("alice")), Some(Input::Key(key("w"))));
    assert_eq!(drained.pop_input(key("alice")), Some(Input::Key(key("a"))));
    assert_eq!(drained.pop_input(key("alice")), None);
}

#[test]
fn put_buffer_appends_like_push_input() {
    let mut mailbox = PlayerInputBuffer::new();
    put_buffer(&mut mailbox, key("alice"), Input::Key(key("x")));
    put_buffer(&mut mailbox, key("alice"), Input::Key(key("y")));
    assert_eq!(mailbox.pop_input(key("alice")), Some(Input::Key(key("x"))));
    assert_eq!(mailbox.pop_input(key("alice")), Some(Input::Key(key("y"))));
    assert_eq!(mailbox.pop_input(key("alice")), None);
    assert_eq!(mailbox.pop_input(key("nobody")), None);
}

#[test]
fn pop_new_keys_delivers_once_in_arrival_order() {
    let mut registry = ConnectionCollection::new();
    registry.push(conn("alice"));
    registry.push(conn("bob"));
    registry.push(conn("carol"));
    let first = registry.pop_new_keys();
    assert_eq!(first, vec![key("alice"), key("bob"), key("carol")]);
    let second = registry.pop_new_keys();
    assert!(second.is_empty());
    // The live list is untouched by draining the arrival queue.
    assert_eq!(registry.size(), 3);
}

#[test]
fn pop_new_key_single() {
    let mut registry = ConnectionCollection::new();
    assert_eq!(registry.pop_new_key(), None);
    registry.push(conn("alice"));
    assert_eq!(registry.pop_new_key(), Some(key("alice")));
    assert_eq!(registry.pop_new_key(), None);
}

#[test]
fn remove_absent_key_is_noop() {
    let mut registry = ConnectionCollection::new();
    registry.push(conn("alice"));
    registry.push(conn("bob"));
    registry.remove(&key("carol"));
    assert_eq!(registry.size(), 2);

    let mut empty = ConnectionCollection::new();
    empty.remove(&key("anyone"));
    assert_eq!(empty.size(), 0);
}

#[test]
fn remove_present_key_deletes_it() {
    let mut registry = ConnectionCollection::new();
    registry.push(conn("alice"));
    registry.push(conn("bob"));
    registry.remove(&key("alice"));
    assert_eq!(registry.size(), 1);
    assert_eq!(registry.connections[0].key, "bob");
}

#[test]
fn outbound_latest_wins_three_snapshots() {
    let v1 = ClientView { sprites: vec![1], loc: vec![(0, 0)] };
    let v2 = ClientView { sprites: vec![2], loc: vec![(5, 5)] };
    let v3 = ClientView { sprites: vec![3], loc: vec![(9, 9)] };

    let mut channel = OutboundChannel::new();
    assert!(channel.send(v1.clone()));
    assert!(channel.send(v2.clone()));
    assert!(channel.send(v3.clone()));
    assert_eq!(channel.poll(), Some(v3.clone()));
    assert_eq!(channel.poll(), None);

    // The same policy through the coordinator's fan-out.
    let mut engine = Engine::new();
    engine.process_announcements(vec![conn("alice")]);
    engine.fan_out(vec![
        (key("alice"), v1),
        (key("alice"), v2),
        (key("alice"), v3.clone()),
    ]);
    assert_eq!(engine.poll_outbound(&key("alice")), Some(v3));
    assert_eq!(engine.poll_outbound(&key("alice")), None);
}

#[test]
fn outbound_send_after_close_fails() {
    let mut channel = OutboundChannel::new();
    assert!(channel.send(ClientView::new()));
    channel.close();
    assert!(channel.is_disconnected());
    // The pending snapshot went down with the receiver.
    assert!(!channel.send(ClientView::new()));
    assert_eq!(channel.poll(), None);
}

#[test]
fn acceptor_scenario_registers_within_one_tick() {
    // A handshake returning accept with login key "alice".
    let data = StreamData::do_connect(key("alice"));
    assert!(data.should_connect());
    assert_eq!(data.login_key(), "alice");

    let mut engine = Engine::new();
    let announced = data.to_connection().expect("accepted");
    let ran = engine.tick(
        EngineInstruction::Pause,
        vec![announced],
        |registry| (registry, Vec::new()),
    );
    assert!(!ran);
    assert_eq!(engine.connections.size(), 1);
    assert_eq!(engine.connections.pop_new_keys(), vec![key("alice")]);
}

#[test]
fn fan_out_failed_send_tears_connection_down() {
    let mut engine = Engine::new();
    engine.process_announcements(vec![conn("alice")]);
    assert!(engine.has_channel(&key("alice")));

    // The receiver is dropped before the coordinator's next fan-out.
    engine.close_channel(&key("alice"));
    engine.fan_out(vec![(key("alice"), ClientView::new())]);
    assert!(!engine.has_channel(&key("alice")));
    assert_eq!(engine.connections.size(), 0);
}

#[test]
fn fan_out_unknown_key_drops_snapshot_silently() {
    let mut engine = Engine::new();
    engine.process_announcements(vec![conn("alice")]);
    engine.fan_out(vec![(key("late_joiner"), ClientView::new())]);
    assert_eq!(engine.connections.size(), 1);
    assert!(engine.has_channel(&key("alice")));
    assert!(!engine.has_channel(&key("late_joiner")));
    assert_eq!(engine.poll_outbound(&key("late_joiner")), None);
}

#[test]
fn tick_runs_step_and_fans_out() {
    let mut engine = Engine::new();
    let ran = engine.tick(
        EngineInstruction::Run { run_dispatcher: true },
        vec![conn("alice"), conn("bob")],
        |mut registry: ConnectionCollection| {
            // The step sees this tick's arrivals exactly once.
            let new_keys = registry.pop_new_keys();
            assert_eq!(new_keys, vec![key("alice"), key("bob")]);
            let views = new_keys
                .into_iter()
                .map(|k| (k, ClientView { sprites: vec![1], loc: vec![(2, 3)] }))
                .collect();
            (registry, views)
        },
    );
    assert!(ran);
    assert_eq!(engine.connections.size(), 2);
    assert_eq!(
        engine.poll_outbound(&key("alice")),
        Some(ClientView { sprites: vec![1], loc: vec![(2, 3)] })
    );
    assert_eq!(
        engine.poll_outbound(&key("bob")),
        Some(ClientView { sprites: vec![1], loc: vec![(2, 3)] })
    );
}

#[test]
fn tick_pause_and_restart_skip_the_step() {
    let mut engine = Engine::new();
    let ran = engine.tick(EngineInstruction::Pause, vec![conn("alice")], |_registry| {
        panic!("the step must not run on a paused tick")
    });
    assert!(!ran);
    let ran = engine.tick(EngineInstruction::Restart, vec![], |_registry| {
        panic!("the step must not run on a restart tick")
    });
    assert!(!ran);
    let ran = engine.tick(EngineInstruction::Run { run_dispatcher: false }, vec![], |_registry| {
        panic!("the step must not run when the dispatcher flag is off")
    });
    assert!(!ran);
    // The bookkeeping still happened.
    assert_eq!(engine.connections.size(), 1);
    assert_eq!(engine.connections.pop_new_keys(), vec![key("alice")]);
}

#[test]
fn frame_scenario_move_with_trailing_garbage() {
    match decode_buffer("move!!!garbage") {
        StreamReadResult::ValidMessage(m) => assert_eq!(m, "move"),
        _ => panic!("expected a valid message"),
    }
}

#[test]
fn frame_end_positions() {
    assert_eq!(find_stream_end_chars("move!!!garbage"), 4);
    assert_eq!(find_stream_end_chars("abc"), 0);
    assert_eq!(find_stream_end_chars(""), 0);
    assert_eq!(find_stream_end_chars("!!!x"), 0);
    assert_eq!(find_stream_end_chars("a!!!b!!!c"), 1);
    assert_eq!(find_stream_end_chars("ab!!"), 0);
    assert_eq!(find_stream_end_chars("ab!!!"), 2);
}

#[test]
fn frame_decode_incomplete_or_empty_is_invalid() {
    assert!(matches!(decode_buffer("no terminator yet"), StreamReadResult::InvalidMessage));
    assert!(matches!(decode_buffer(""), StreamReadResult::InvalidMessage));
    assert!(matches!(decode_buffer("!!!payloadless"), StreamReadResult::InvalidMessage));
    match decode_buffer("a!!!b!!!c") {
        StreamReadResult::ValidMessage(m) => assert_eq!(m, "a"),
        _ => panic!("expected a valid message"),
    }
}

#[test]
fn input_events_decode_clicks_then_keys() {
    let msg = InputMessage { keys: vec!['w', 'a'], clicks: vec![(10, 20), (30, 40)] };
    let events = input_events(&msg);
    assert_eq!(
        events,
        vec![
            Input::Click { x: 10, y: 20 },
            Input::Click { x: 30, y: 40 },
            Input::Key(key("w")),
            Input::Key(key("a")),
        ]
    );

    let empty = InputMessage { keys: vec![], clicks: vec![] };
    assert!(input_events(&empty).is_empty());
}

#[test]
fn latest_view_picks_the_newest() {
    assert_eq!(latest_view(Vec::new()), None);
    let v1 = ClientView { sprites: vec![1], loc: vec![] };
    let v2 = ClientView { sprites: vec![2], loc: vec![] };
    assert_eq!(latest_view(vec![v1, v2.clone()]), Some(v2));
}

#[test]
fn view_system_assigns_to_all_without_filter() {
    let system = ViewSystem::new(false, None);
    let mut registry = ConnectionCollection::new();
    registry.push(conn("alice"));
    registry.push(conn("bob"));
    let view = ClientView { sprites: vec![9], loc: vec![(7, 8)] };
    let out = system.run_views(&registry, &view);
    assert_eq!(out.len(), 2);
    assert_eq!(out[0].0, "alice");
    assert_eq!(out[1].0, "bob");
    assert_eq!(out[0].1, view);
    assert_eq!(out[1].1, view);
}

#[test]
fn view_system_filter_restricts_recipients() {
    let system = ViewSystem::new(false, Some(vec![key("bob")]));
    let mut registry = ConnectionCollection::new();
    registry.push(conn("alice"));
    registry.push(conn("bob"));
    let view = ClientView::new();
    let out = system.run_views(&registry, &view);
    assert_eq!(out.len(), 1);
    assert_eq!(out[0].0, "bob");
}

#[test]
fn stream_data_carries_the_handshake_outcome() {
    let accepted = StreamData::do_connect(key("alice"));
    assert!(accepted.should_connect());
    assert_eq!(accepted.login_key(), "alice");

    let rejected = StreamData::dont_connect();
    assert!(!rejected.should_connect());
    assert_eq!(rejected.login_key(), "");
    assert!(rejected.to_connection().is_none());
}

#[test]
fn client_view_duplicate_copies_contents() {
    let view = ClientView { sprites: vec![1, 2, 3], loc: vec![(4, 5), (6, 7)] };
    let copy = view.duplicate();
    assert_eq!(copy, view);
    let fresh = ClientView::new();
    assert!(fresh.sprites.is_empty());
    assert!(fresh.loc.is_empty());
}
