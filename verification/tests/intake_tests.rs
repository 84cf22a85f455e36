//! Action intake behavior: latest-wins accumulation and atomic drains.

use tankers::action::{KeyPress, PlayerAction};
use tankers::intake::ActionIntake;

fn action(keys: Vec<KeyPress>) -> PlayerAction {
    PlayerAction::new(keys)
}

fn drained_ids(batch: &ActionIntake) -> Vec<u128> {
    let mut ids = Vec::new();
    let n = batch.len();
    let mut i = 0;
    while i < n {
        let (id, _) = batch.entry(i);
        ids.push(id);
        i += 1;
    }
    ids
}

#[test]
fn drain_returns_latest_action_per_player() {
    let mut intake = ActionIntake::new();
    intake.submit(1, action(vec![KeyPress::Up]));
    intake.submit(2, action(vec![KeyPress::Left]));
    intake.submit(1, action(vec![KeyPress::Down, KeyPress::Down]));

    let batch = intake.drain_all();
    assert_eq!(batch.len(), 2);
    let mut found_one = false;
    let mut found_two = false;
    let mut i = 0;
    while i < batch.len() {
        let (id, act) = batch.entry(i);
        if id == 1 {
            found_one = true;
            assert_eq!(act.control, vec![KeyPress::Down, KeyPress::Down]);
        } else if id == 2 {
            found_two = true;
            assert_eq!(act.control, vec![KeyPress::Left]);
        } else {
            panic!("unexpected player id {}", id);
        }
        i += 1;
    }
    assert!(found_one && found_two);
}

#[test]
fn second_immediate_drain_is_empty() {
    let mut intake = ActionIntake::new();
    intake.submit(7, action(vec![KeyPress::Right]));
    let first = intake.drain_all();
    assert_eq!(first.len(), 1);
    let second = intake.drain_all();
    assert_eq!(second.len(), 0);
}

#[test]
fn submissions_around_a_drain_are_never_lost_or_duplicated() {
    // One hundred connections submit one action each while a drain
    // happens in the middle: the union of the two drains holds exactly
    // the hundred actions, none lost, none doubled.
    let mut intake = ActionIntake::new();
    for id in 0..50u128 {
        intake.submit(id, action(vec![KeyPress::Up]));
    }
    let pre = intake.drain_all();
    for id in 50..100u128 {
        intake.submit(id, action(vec![KeyPress::Down]));
    }
    let post = intake.drain_all();

    let mut all = drained_ids(&pre);
    all.extend(drained_ids(&post));
    assert_eq!(all.len(), 100);
    let mut seen = [false; 100];
    for id in all {
        let idx = id as usize;
        assert!(idx < 100);
        assert!(!seen[idx], "duplicate action for player {}", idx);
        seen[idx] = true;
    }
    assert!(seen.iter().all(|s| *s));
}

#[test]
fn submit_never_touches_other_slots() {
    let mut intake = ActionIntake::new();
    intake.submit(1, action(vec![KeyPress::Up]));
    intake.submit(2, action(vec![KeyPress::Down]));
    intake.submit(2, action(vec![KeyPress::Left]));
    let batch = intake.drain_all();
    assert_eq!(batch.len(), 2);
    let mut i = 0;
    while i < batch.len() {
        let (id, act) = batch.entry(i);
        if id == 1 {
            assert_eq!(act.control, vec![KeyPress::Up]);
        }
        i += 1;
    }
}
