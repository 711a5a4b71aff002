use shooter_core::commands::{Command, Commands};
use shooter_core::components::{Bullet, Enemy, Transform};
use shooter_core::events::{CursorMoved, Events, GameOverEvent, ReaderId};
use shooter_core::input::{Input, KeyCode, MouseButton};
use shooter_core::store::{Component, ComponentKind, Components, Entity, Store};

fn bullet_at(x: i32, y: i32) -> Components {
    let mut c = Components::empty();
    c.transform = Some(Transform::from_translation(x, y));
    c.bullet = Some(Bullet);
    c
}

#[test]
fn requests_do_not_touch_the_store_until_the_flush() {
    let mut store = Store::new();
    let a = store.spawn_bundle(bullet_at(0, 0));
    let mut commands = Commands::new();
    commands.despawn(a);
    commands.spawn(bullet_at(1, 1));
    assert!(store.contains(a));
    assert_eq!(store.len(), 1);
    assert_eq!(commands.len(), 2);
    assert!(!commands.is_empty());
    commands.flush(&mut store);
    assert!(!store.contains(a));
    assert_eq!(store.len(), 2);
    assert_eq!(store.get(Entity { index: 1 }), Some(bullet_at(1, 1)));
    assert!(commands.is_empty());
}

#[test]
fn requests_are_applied_in_the_order_they_were_made() {
    let mut store = Store::new();
    let a = store.spawn();
    let mut commands = Commands::new();
    commands.insert(a, Component::Enemy(Enemy { frames_to_appear: 1 }));
    commands.insert(a, Component::Enemy(Enemy { frames_to_appear: 2 }));
    commands.remove(a, ComponentKind::Enemy);
    commands.insert(a, Component::Enemy(Enemy { frames_to_appear: 3 }));
    assert_eq!(commands.get(1), Some(Command::Insert(a, Component::Enemy(Enemy { frames_to_appear: 2 }))));
    assert_eq!(commands.get(4), None);
    commands.flush(&mut store);
    assert_eq!(store.get(a).unwrap().enemy, Some(Enemy { frames_to_appear: 3 }));
}

#[test]
fn spawn_requests_get_the_next_identifiers() {
    let mut store = Store::new();
    store.spawn();
    let mut commands = Commands::new();
    commands.spawn(bullet_at(1, 0));
    commands.spawn(bullet_at(2, 0));
    commands.push(Command::Spawn(bullet_at(3, 0)));
    commands.flush(&mut store);
    assert_eq!(store.len(), 4);
    assert_eq!(store.get(Entity { index: 1 }), Some(bullet_at(1, 0)));
    assert_eq!(store.get(Entity { index: 2 }), Some(bullet_at(2, 0)));
    assert_eq!(store.get(Entity { index: 3 }), Some(bullet_at(3, 0)));
}

#[test]
fn a_despawn_request_wins_over_later_inserts() {
    let mut store = Store::new();
    let a = store.spawn_bundle(bullet_at(0, 0));
    let mut commands = Commands::new();
    commands.despawn(a);
    commands.insert(a, Component::Bullet(Bullet));
    commands.despawn(a);
    commands.flush(&mut store);
    assert!(!store.contains(a));
    assert_eq!(store.get(a), None);
}

#[test]
fn a_flush_of_nothing_changes_nothing() {
    let mut store = Store::new();
    let a = store.spawn_bundle(bullet_at(4, 4));
    let mut commands = Commands::new();
    commands.flush(&mut store);
    assert_eq!(store.len(), 1);
    assert_eq!(store.get(a), Some(bullet_at(4, 4)));
}

#[test]
fn a_reader_sees_each_event_once_in_order() {
    let mut events: Events<CursorMoved> = Events::new();
    let r = events.add_reader();
    events.send(CursorMoved { x: 1, y: 1 });
    events.send(CursorMoved { x: 2, y: 2 });
    assert_eq!(events.pending_count(r), 2);
    assert_eq!(events.drain(r), vec![CursorMoved { x: 1, y: 1 }, CursorMoved { x: 2, y: 2 }]);
    assert_eq!(events.drain(r), vec![]);
    events.send(CursorMoved { x: 3, y: 3 });
    assert_eq!(events.drain(r), vec![CursorMoved { x: 3, y: 3 }]);
    assert_eq!(events.pending_count(r), 0);
}

#[test]
fn readers_are_independent() {
    let mut events: Events<CursorMoved> = Events::new();
    let a = events.add_reader();
    let b = events.add_reader();
    assert_eq!(events.reader_count(), 2);
    events.send(CursorMoved { x: 1, y: 0 });
    assert_eq!(events.drain(a), vec![CursorMoved { x: 1, y: 0 }]);
    events.send(CursorMoved { x: 2, y: 0 });
    assert_eq!(events.drain(b), vec![CursorMoved { x: 1, y: 0 }, CursorMoved { x: 2, y: 0 }]);
    assert_eq!(events.drain(a), vec![CursorMoved { x: 2, y: 0 }]);
    assert_eq!(events.drain(b), vec![]);
}

#[test]
fn a_new_reader_starts_at_the_end_of_the_log() {
    let mut events: Events<GameOverEvent> = Events::new();
    events.send(GameOverEvent);
    let late = events.add_reader();
    assert_eq!(late, ReaderId { index: 0 });
    assert_eq!(events.drain(late), vec![]);
    events.send(GameOverEvent);
    assert_eq!(events.drain(late), vec![GameOverEvent]);
}

#[test]
fn an_unknown_reader_gets_nothing() {
    let mut events: Events<GameOverEvent> = Events::new();
    events.send(GameOverEvent);
    assert_eq!(events.drain(ReaderId { index: 3 }), vec![]);
    assert_eq!(events.pending_count(ReaderId { index: 3 }), 0);
    assert_eq!(events.reader_count(), 0);
}

#[test]
fn compaction_drops_what_every_reader_has_passed() {
    let mut events: Events<CursorMoved> = Events::new();
    let a = events.add_reader();
    let b = events.add_reader();
    for i in 0..5 {
        events.send(CursorMoved { x: i, y: 0 });
    }
    assert_eq!(events.drain(a).len(), 5);
    events.compact();
    assert_eq!(events.retained(), 5);
    assert_eq!(events.drain(b).len(), 5);
    events.send(CursorMoved { x: 5, y: 0 });
    assert_eq!(events.drain(a), vec![CursorMoved { x: 5, y: 0 }]);
    events.compact();
    assert_eq!(events.retained(), 1);
    assert_eq!(events.drain(b), vec![CursorMoved { x: 5, y: 0 }]);
    events.compact();
    assert_eq!(events.retained(), 0);
}

#[test]
fn compaction_does_not_change_what_readers_see() {
    let mut events: Events<CursorMoved> = Events::new();
    let a = events.add_reader();
    let b = events.add_reader();
    events.send(CursorMoved { x: 1, y: 0 });
    events.send(CursorMoved { x: 2, y: 0 });
    events.drain(a);
    events.send(CursorMoved { x: 3, y: 0 });
    events.compact();
    assert_eq!(events.pending_count(a), 1);
    assert_eq!(events.pending_count(b), 3);
    assert_eq!(
        events.drain(b),
        vec![CursorMoved { x: 1, y: 0 }, CursorMoved { x: 2, y: 0 }, CursorMoved { x: 3, y: 0 }]
    );
    assert_eq!(events.drain(a), vec![CursorMoved { x: 3, y: 0 }]);
}

#[test]
fn compaction_without_readers_drops_everything() {
    let mut events: Events<GameOverEvent> = Events::new();
    events.send(GameOverEvent);
    events.send(GameOverEvent);
    assert_eq!(events.retained(), 2);
    events.compact();
    assert_eq!(events.retained(), 0);
}

#[test]
fn input_tracks_what_is_down() {
    let mut input = Input::new();
    let left = MouseButton::Left.code();
    let right = MouseButton::Right.code();
    assert!(!input.pressed(left));
    input.press(left);
    assert!(input.pressed(left));
    assert!(input.just_pressed(left));
    assert!(!input.pressed(right));
    input.clear();
    assert!(input.pressed(left));
    assert!(!input.just_pressed(left));
    input.release(left);
    assert!(!input.pressed(left));
    assert!(input.just_released(left));
    input.clear();
    assert!(!input.just_released(left));
}

#[test]
fn pressing_a_held_button_is_not_a_new_press() {
    let mut input = Input::new();
    let left = MouseButton::Left.code();
    input.press(left);
    input.clear();
    input.press(left);
    assert!(input.pressed(left));
    assert!(!input.just_pressed(left));
    input.release(left);
    assert!(!input.pressed(left));
}

#[test]
fn button_and_key_codes_are_distinct() {
    let buttons = [
        MouseButton::Left,
        MouseButton::Right,
        MouseButton::Middle,
        MouseButton::Other(0),
        MouseButton::Other(1),
        MouseButton::Other(u16::MAX),
    ];
    for (i, a) in buttons.iter().enumerate() {
        for (j, b) in buttons.iter().enumerate() {
            assert_eq!(a.code() == b.code(), i == j);
        }
    }
    let keys = [
        KeyCode::Space,
        KeyCode::Up,
        KeyCode::Down,
        KeyCode::Left,
        KeyCode::Right,
        KeyCode::Other(0),
        KeyCode::Other(u32::MAX),
    ];
    for (i, a) in keys.iter().enumerate() {
        for (j, b) in keys.iter().enumerate() {
            assert_eq!(a.code() == b.code(), i == j);
        }
    }
    assert_eq!(MouseButton::Other(4).code(), 7);
    assert_eq!(KeyCode::Other(4).code(), 9);
}
