use shooter_core::blocks::{can_move, collision_system, move_block_system, print_system, setup};
use shooter_core::commands::{Command, Commands};
use shooter_core::components::{Block, Position, Wall};
use shooter_core::echo::{
    game_over_event_system, keyboard_event_system, keyboard_state_system, mouse_click_system,
    mouse_move_system, mouse_state_system, send_game_over_event_system, Message,
};
use shooter_core::events::{CursorMoved, Events, GameOverEvent};
use shooter_core::input::{Input, KeyCode, KeyboardInput, MouseButton, MouseButtonInput};
use shooter_core::store::{Components, Entity, Store};

fn block_at(at: i32) -> Components {
    let mut c = Components::empty();
    c.position = Some(Position(at));
    c.block = Some(Block);
    c
}

fn wall_at(at: i32) -> Components {
    let mut c = Components::empty();
    c.position = Some(Position(at));
    c.wall = Some(Wall);
    c
}

#[test]
fn line_setup_asks_for_two_blocks_and_two_walls() {
    let mut commands = Commands::new();
    setup(&mut commands);
    assert_eq!(commands.len(), 4);
    assert_eq!(commands.get(0), Some(Command::Spawn(block_at(1))));
    assert_eq!(commands.get(1), Some(Command::Spawn(block_at(10))));
    assert_eq!(commands.get(2), Some(Command::Spawn(wall_at(5))));
    assert_eq!(commands.get(3), Some(Command::Spawn(wall_at(20))));
}

#[test]
fn blocks_move_and_walls_stay() {
    let mut store = Store::new();
    let b = store.spawn_bundle(block_at(1));
    let w = store.spawn_bundle(wall_at(5));
    let c = store.spawn_bundle(block_at(-7));
    move_block_system(&mut store);
    assert_eq!(store.get(b), Some(block_at(2)));
    assert_eq!(store.get(w), Some(wall_at(5)));
    assert_eq!(store.get(c), Some(block_at(-6)));
}

#[test]
fn a_block_at_the_end_of_the_line_cannot_move() {
    let mut store = Store::new();
    assert!(can_move(&store));
    store.spawn_bundle(block_at(i32::MAX - 1));
    store.spawn_bundle(wall_at(i32::MAX));
    assert!(can_move(&store));
    move_block_system(&mut store);
    assert!(!can_move(&store));
}

#[test]
fn a_block_at_a_wall_is_asked_out() {
    let mut store = Store::new();
    let free = store.spawn_bundle(block_at(4));
    let hit = store.spawn_bundle(block_at(5));
    store.spawn_bundle(wall_at(5));
    store.spawn_bundle(wall_at(20));
    let mut commands = Commands::new();
    collision_system(&mut commands, &store);
    assert_eq!(commands.len(), 1);
    assert_eq!(commands.get(0), Some(Command::Despawn(hit)));
    commands.flush(&mut store);
    assert!(store.contains(free));
    assert!(!store.contains(hit));
}

#[test]
fn a_block_is_asked_out_once_for_each_wall_at_its_place() {
    let mut store = Store::new();
    store.spawn_bundle(wall_at(5));
    let a = store.spawn_bundle(block_at(5));
    store.spawn_bundle(wall_at(5));
    let b = store.spawn_bundle(block_at(20));
    store.spawn_bundle(wall_at(20));
    let mut commands = Commands::new();
    collision_system(&mut commands, &store);
    assert_eq!(commands.len(), 3);
    assert_eq!(commands.get(0), Some(Command::Despawn(a)));
    assert_eq!(commands.get(1), Some(Command::Despawn(a)));
    assert_eq!(commands.get(2), Some(Command::Despawn(b)));
    commands.flush(&mut store);
    assert!(!store.contains(a) && !store.contains(b));
    assert_eq!(store.len(), 5);
}

#[test]
fn the_report_lists_the_blocks_in_spawn_order() {
    let mut store = Store::new();
    store.spawn_bundle(block_at(10));
    store.spawn_bundle(wall_at(3));
    let gone = store.spawn_bundle(block_at(99));
    store.spawn_bundle(block_at(-1));
    store.despawn(gone);
    let mut console = vec![Message::GameOver];
    print_system(&store, &mut console);
    assert_eq!(
        console,
        vec![Message::GameOver, Message::PrintHeader, Message::Block(10), Message::Block(-1)]
    );
    let mut empty = Vec::new();
    print_system(&Store::new(), &mut empty);
    assert_eq!(empty, vec![Message::PrintHeader]);
    assert!(!store.contains(Entity { index: 2 }));
}

#[test]
fn pointer_moves_are_reported_in_order() {
    let mut events: Events<CursorMoved> = Events::new();
    let reader = events.add_reader();
    let mut console = Vec::new();
    mouse_move_system(&mut events, reader, &mut console);
    assert_eq!(console, vec![]);
    events.send(CursorMoved { x: 1, y: 2 });
    events.send(CursorMoved { x: -3, y: 4 });
    mouse_move_system(&mut events, reader, &mut console);
    mouse_move_system(&mut events, reader, &mut console);
    assert_eq!(console, vec![Message::CursorMoved(1, 2), Message::CursorMoved(-3, 4)]);
}

#[test]
fn clicks_are_reported_but_for_releases_of_other_buttons() {
    let mut events: Events<MouseButtonInput> = Events::new();
    let reader = events.add_reader();
    let all = [
        (MouseButton::Left, true),
        (MouseButton::Left, false),
        (MouseButton::Right, true),
        (MouseButton::Right, false),
        (MouseButton::Middle, true),
        (MouseButton::Middle, false),
        (MouseButton::Other(7), true),
        (MouseButton::Other(7), false),
    ];
    for (button, pressed) in all {
        events.send(MouseButtonInput { button, pressed });
    }
    let mut console = Vec::new();
    mouse_click_system(&mut events, reader, &mut console);
    assert_eq!(
        console,
        vec![
            Message::MouseClickLeft,
            Message::MouseClickLeftReleased,
            Message::MouseClickRight,
            Message::MouseClickMiddle,
            Message::MouseClickOther(7),
        ]
    );
    mouse_click_system(&mut events, reader, &mut console);
    assert_eq!(console.len(), 5);
}

#[test]
fn the_mouse_state_is_reported_by_level_and_by_edge() {
    let mut input = Input::new();
    let mut console = Vec::new();
    mouse_state_system(&input, &mut console);
    assert_eq!(console, vec![]);
    input.press(MouseButton::Left.code());
    input.press(MouseButton::Right.code());
    mouse_state_system(&input, &mut console);
    assert_eq!(console, vec![Message::MousePressedLeft, Message::MouseJustPressedRight]);
    input.clear();
    console.clear();
    mouse_state_system(&input, &mut console);
    assert_eq!(console, vec![Message::MousePressedLeft]);
    input.release(MouseButton::Left.code());
    console.clear();
    mouse_state_system(&input, &mut console);
    assert_eq!(console, vec![]);
}

#[test]
fn only_the_space_bar_is_reported_among_key_events() {
    let mut events: Events<KeyboardInput> = Events::new();
    let reader = events.add_reader();
    events.send(KeyboardInput { key_code: Some(KeyCode::Up), pressed: true });
    events.send(KeyboardInput { key_code: Some(KeyCode::Space), pressed: true });
    events.send(KeyboardInput { key_code: None, pressed: false });
    events.send(KeyboardInput { key_code: Some(KeyCode::Space), pressed: false });
    events.send(KeyboardInput { key_code: Some(KeyCode::Other(3)), pressed: false });
    let mut console = Vec::new();
    keyboard_event_system(&mut events, reader, &mut console);
    assert_eq!(console, vec![Message::SpacePressed, Message::SpaceReleased]);
}

#[test]
fn the_up_key_is_reported_while_it_is_down() {
    let mut keys = Input::new();
    let mut console = Vec::new();
    keys.press(KeyCode::Down.code());
    keyboard_state_system(&keys, &mut console);
    assert_eq!(console, vec![]);
    keys.press(KeyCode::Up.code());
    keys.clear();
    keyboard_state_system(&keys, &mut console);
    keyboard_state_system(&keys, &mut console);
    assert_eq!(console, vec![Message::KeyUp, Message::KeyUp]);
}

#[test]
fn a_left_click_sends_the_game_over_signal_once() {
    let mut input = Input::new();
    let mut events: Events<GameOverEvent> = Events::new();
    let reader = events.add_reader();
    let mut console = Vec::new();
    send_game_over_event_system(&input, &mut events);
    input.press(MouseButton::Right.code());
    send_game_over_event_system(&input, &mut events);
    assert_eq!(events.pending_count(reader), 0);
    input.press(MouseButton::Left.code());
    send_game_over_event_system(&input, &mut events);
    input.clear();
    send_game_over_event_system(&input, &mut events);
    assert_eq!(events.pending_count(reader), 1);
    game_over_event_system(&mut events, reader, &mut console);
    game_over_event_system(&mut events, reader, &mut console);
    assert_eq!(console, vec![Message::GameOver]);
}
