//! Reader-step behavior and end-to-end session scenarios.

use tankers::action::KeyPress;
use tankers::config::{Bounds, Config};
use tankers::intake::ActionIntake;
use tankers::registry::ConnectionRegistry;
use tankers::session::{reader_step, InboundFrame, ReaderOutcome};
use tankers::sim::step_tick;
use tankers::world::World;

fn config() -> Config {
    let bounds = Bounds { min_x: 0, max_x: 10_000, min_y: 0, max_y: 10_000 };
    Config::new(100, 100, bounds, 1000, 9, 10).unwrap()
}

#[test]
fn test_listen() {
    // A session that only ever says hello and goodbye submits nothing:
    // text frames are diagnostic and a close frame stops the reader.
    let frames = vec![
        InboundFrame::Text("hi".to_string()),
        InboundFrame::Close,
        InboundFrame::Text("bye".to_string()),
    ];
    let mut intake = ActionIntake::new();
    for frame in frames {
        if reader_step(&mut intake, 1, frame) == ReaderOutcome::Closed {
            break;
        }
    }
    assert_eq!(intake.len(), 0);
}

#[test]
fn decode_error_neither_closes_nor_touches_other_slots() {
    let mut intake = ActionIntake::new();
    let r = reader_step(&mut intake, 2, InboundFrame::Binary(vec![1]));
    assert_eq!(r, ReaderOutcome::Submitted);

    // Player 1 sends garbage: the session stays open and player 2's
    // pending action is untouched.
    let r = reader_step(&mut intake, 1, InboundFrame::Binary(vec![1, 99]));
    assert_eq!(r, ReaderOutcome::Rejected);
    assert_eq!(intake.len(), 1);
    let batch = intake.drain_all();
    let (id, act) = batch.entry(0);
    assert_eq!(id, 2);
    assert_eq!(act.control, vec![KeyPress::Up]);
}

#[test]
fn pings_are_ignored() {
    let mut intake = ActionIntake::new();
    assert_eq!(reader_step(&mut intake, 1, InboundFrame::Other), ReaderOutcome::Ignored);
    assert_eq!(intake.len(), 0);
}

#[test]
fn client_action_then_disconnect_end_to_end() {
    // A client connects, sends one binary Up frame, then closes. After
    // the next tick its tank moves upward; once the disconnect drains
    // through the registry, snapshots no longer carry the player.
    let cfg = config();
    let mut world = World::new(cfg);
    let mut registry = ConnectionRegistry::new();
    let mut intake = ActionIntake::new();
    let player: u128 = 314;

    registry.register(player);
    let up_frame = InboundFrame::Binary(vec![1]);
    assert_eq!(reader_step(&mut intake, player, up_frame), ReaderOutcome::Submitted);

    let (joins, leaves) = registry.drain();
    let batch = intake.drain_all();
    let snap = step_tick(&mut world, &joins, &leaves, &batch);

    let tank = world.tank_for_player(player).expect("player just registered");
    assert!(tank.vel().y < 0, "one Up action must give upward velocity");
    assert!(snap.contains_player(player));

    // The close frame ends the session and the registry is told.
    assert_eq!(reader_step(&mut intake, player, InboundFrame::Close), ReaderOutcome::Closed);
    registry.unregister(player);

    let (joins, leaves) = registry.drain();
    let batch = intake.drain_all();
    let snap = step_tick(&mut world, &joins, &leaves, &batch);
    assert!(world.tank_for_player(player).is_none());
    assert!(!snap.contains_player(player));
}

#[test]
fn join_and_action_in_the_same_tick() {
    let cfg = config();
    let mut world = World::new(cfg);
    let mut registry = ConnectionRegistry::new();
    let mut intake = ActionIntake::new();

    registry.register(1);
    registry.register(2);
    assert_eq!(reader_step(&mut intake, 1, InboundFrame::Binary(vec![4])), ReaderOutcome::Submitted);

    let (joins, leaves) = registry.drain();
    let batch = intake.drain_all();
    let snap = step_tick(&mut world, &joins, &leaves, &batch);

    assert_eq!(world.tanks().len(), 2);
    assert!(snap.contains_player(1) && snap.contains_player(2));
    let mover = world.tank_for_player(1).unwrap();
    let idler = world.tank_for_player(2).unwrap();
    assert_eq!(mover.vel().x, 90);
    assert_eq!(idler.vel().x, 0);
}
