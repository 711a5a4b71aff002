use shooter_core::bullet_plugin::{fire_bullet_system, fly, move_bullet_system, BulletPlugin};
use shooter_core::collision_plugin::{
    bullet_enemy_collision_system, is_touching, player_enemy_collision_system, CollisionPlugin,
};
use shooter_core::commands::{Command, Commands};
use shooter_core::components::{Bullet, Enemy, GlobalEnemyState, GunState, PlayerShip, Transform};
use shooter_core::enemy_plugin::{
    age, chase, create_enemy_position, farthest_corner, move_enemy_system, place_enemy,
    sample_spot, spawn_enemy_at, spawn_enemy_system, EnemyPlugin,
};
use shooter_core::events::{CursorMoved, Events, GameOverEvent};
use shooter_core::input::{Input, MouseButton};
use shooter_core::player_ship_plugin::{
    follow_cursor_system, move_player_system, player_transform, setup, steer, PlayerShipPlugin,
};
use shooter_core::store::{Component, ComponentKind, Components, Entity, Filter, Store};
use shooter_core::window::{Config, Window};

fn window() -> Window {
    Window::from_units(480, 320).unwrap()
}

fn player_at(x: i32, y: i32) -> Components {
    let mut c = Components::empty();
    c.transform = Some(Transform::from_translation(x, y));
    c.player_ship = Some(PlayerShip { target_x: x, target_y: y });
    c
}

fn bullet(t: Transform) -> Components {
    let mut c = Components::empty();
    c.transform = Some(t);
    c.bullet = Some(Bullet);
    c
}

fn enemy_at(x: i32, y: i32, frames_to_appear: i32) -> Components {
    let mut c = Components::empty();
    c.transform = Some(Transform::from_translation(x, y));
    c.enemy = Some(Enemy { frames_to_appear });
    c
}

fn place_of(store: &Store, e: Entity) -> (i32, i32) {
    let t = store.get(e).unwrap().transform.unwrap();
    (t.x, t.y)
}

#[test]
fn component_defaults() {
    assert_eq!(PlayerShip::default(), PlayerShip { target_x: 0, target_y: 0 });
    assert_eq!(GunState::default(), GunState { frames_to_fire: 0 });
    assert_eq!(Enemy::default(), Enemy { frames_to_appear: 10 });
    assert_eq!(
        GlobalEnemyState::default(),
        GlobalEnemyState { frames_to_next_enemy: 20, spawn_interval: 90 }
    );
    assert_eq!(Transform::identity(), Transform { x: 0, y: 0, heading_x: 0, heading_y: 1_000_000 });
    assert_eq!(
        Transform::from_translation(7, -8),
        Transform { x: 7, y: -8, heading_x: 0, heading_y: 1_000_000 }
    );
    assert!(!Enemy::default().is_active());
    assert!(Enemy { frames_to_appear: 0 }.is_active());
}

#[test]
fn plugin_names() {
    assert_eq!(PlayerShipPlugin.name(), "PlayerShip");
    assert_eq!(BulletPlugin.name(), "BulletSystem");
    assert_eq!(EnemyPlugin.name(), "EnemyPlugin");
    assert_eq!(CollisionPlugin.name(), "Collision");
}

#[test]
fn window_from_units_and_config() {
    assert_eq!(window(), Window { width: 480_000_000, height: 320_000_000 });
    assert_eq!(
        Window::from_units(4294, 1),
        Some(Window { width: 4_294_000_000, height: 1_000_000 })
    );
    assert_eq!(Window::from_units(4295, 1), None);
    assert_eq!(Window::from_units(1, 4295), None);
    let config = Config {
        title: String::from("Game Title"),
        width: 480,
        height: 320,
        resizable: false,
        tick_interval: None,
    };
    assert_eq!(config.window(), Some(window()));
    assert_eq!(Window::new(3, 4), Window { width: 3, height: 4 });
}

#[test]
fn window_outside_is_beyond_the_half_extent() {
    let w = window();
    assert!(!w.is_outside(0, 0));
    assert!(!w.is_outside(240_000_000, 160_000_000));
    assert!(!w.is_outside(-240_000_000, -160_000_000));
    assert!(w.is_outside(240_000_001, 0));
    assert!(w.is_outside(-240_000_001, 0));
    assert!(w.is_outside(0, 160_000_001));
    assert!(w.is_outside(0, -160_000_001));
    assert!(w.is_outside(i32::MIN, 0));
    let odd = Window::new(5, 5);
    assert!(!odd.is_outside(2, -2));
    assert!(odd.is_outside(3, 0));
}

#[test]
fn window_roomy_when_a_corner_is_twenty_units_from_the_middle() {
    assert!(window().is_roomy());
    assert!(Window::new(40_000_000, 0).is_roomy());
    assert!(Window::new(0, 40_000_000).is_roomy());
    assert!(Window::new(40_000_000, 40_000_000).is_roomy());
    assert!(Window::new(28_284_272, 28_284_272).is_roomy());
    assert!(!Window::new(28_284_270, 28_284_270).is_roomy());
    assert!(!Window::new(39_999_999, 0).is_roomy());
    assert!(!Window::new(0, 0).is_roomy());
    assert!(Window::new(u32::MAX, u32::MAX).is_roomy());
}

#[test]
fn window_has_room_for_a_player_whose_far_corner_is_safe() {
    let small = Window::new(20_000_000, 20_000_000);
    assert!(!small.is_roomy());
    assert_eq!(small.far_spot(0, 0), (-10_000_000, -10_000_000));
    assert!(!small.has_room_for(0, 0));
    assert!(!small.has_room_for(4_000_000, 4_000_000));
    assert!(small.has_room_for(10_000_000, 0));
    assert!(small.has_room_for(4_200_000, 4_200_000));
    assert!(small.has_room_for(i32::MAX, i32::MIN));
    let square = Window::new(40_000_000, 40_000_000);
    for p in [-30_000_000, -20_000_000, -1, 0, 1, 19_999_999, 25_000_000] {
        assert!(square.has_room_for(p, 0));
        assert!(square.has_room_for(0, p));
        assert!(square.has_room_for(p, p));
    }
    assert!(!Window::new(0, 0).has_room_for(0, 0));
    assert!(Window::new(0, 0).has_room_for(20_000_000, 0));
}

#[test]
fn cursor_position_becomes_a_target_offset_by_half_the_window() {
    let w = window();
    assert_eq!(w.to_world(300_000_000, 200_000_000), (60_000_000, 40_000_000));
    assert_eq!(w.to_world(0, 0), (-240_000_000, -160_000_000));
    assert_eq!(w.to_world(240_000_000, 160_000_000), (0, 0));
    assert_eq!(w.to_world(i32::MIN, i32::MAX), (i32::MIN, i32::MAX - 160_000_000));
}

#[test]
fn scenario_cursor_event_sets_the_target() {
    let mut store = Store::new();
    let p = store.spawn_bundle(player_at(0, 0));
    let mut events: Events<CursorMoved> = Events::new();
    let reader = events.add_reader();
    events.send(CursorMoved { x: 300_000_000, y: 200_000_000 });
    follow_cursor_system(&mut store, &mut events, reader, &window());
    assert_eq!(
        store.get(p).unwrap().player_ship,
        Some(PlayerShip { target_x: 60_000_000, target_y: 40_000_000 })
    );
    assert_eq!(place_of(&store, p), (0, 0));
    assert_eq!(events.pending_count(reader), 0);
}

#[test]
fn only_the_last_cursor_event_of_a_tick_counts() {
    let mut store = Store::new();
    let p = store.spawn_bundle(player_at(0, 0));
    let mut events: Events<CursorMoved> = Events::new();
    let reader = events.add_reader();
    events.send(CursorMoved { x: 1, y: 1 });
    events.send(CursorMoved { x: 300_000_000, y: 200_000_000 });
    events.send(CursorMoved { x: 250_000_000, y: 170_000_000 });
    follow_cursor_system(&mut store, &mut events, reader, &window());
    assert_eq!(
        store.get(p).unwrap().player_ship,
        Some(PlayerShip { target_x: 10_000_000, target_y: 10_000_000 })
    );
}

#[test]
fn without_cursor_events_the_target_stays() {
    let mut store = Store::new();
    let mut c = player_at(5, 5);
    c.player_ship = Some(PlayerShip { target_x: 77, target_y: 88 });
    let p = store.spawn_bundle(c);
    let mut events: Events<CursorMoved> = Events::new();
    let reader = events.add_reader();
    follow_cursor_system(&mut store, &mut events, reader, &window());
    assert_eq!(store.get(p), Some(c));
    events.send(CursorMoved { x: 240_000_000, y: 160_000_000 });
    follow_cursor_system(&mut store, &mut events, reader, &window());
    follow_cursor_system(&mut store, &mut events, reader, &window());
    assert_eq!(store.get(p).unwrap().player_ship, Some(PlayerShip { target_x: 0, target_y: 0 }));
}

#[test]
fn every_ship_follows_the_cursor_and_nothing_else_does() {
    let mut store = Store::new();
    let a = store.spawn_bundle(player_at(0, 0));
    let other = store.spawn_bundle(enemy_at(9, 9, 0));
    let mut bare = Components::empty();
    bare.player_ship = Some(PlayerShip::default());
    let b = store.spawn_bundle(bare);
    let mut events: Events<CursorMoved> = Events::new();
    let reader = events.add_reader();
    events.send(CursorMoved { x: 240_100_000, y: 160_200_000 });
    follow_cursor_system(&mut store, &mut events, reader, &window());
    let want = Some(PlayerShip { target_x: 100_000, target_y: 200_000 });
    assert_eq!(store.get(a).unwrap().player_ship, want);
    assert_eq!(store.get(b).unwrap().player_ship, want);
    assert_eq!(store.get(b).unwrap().transform, None);
    assert_eq!(store.get(other), Some(enemy_at(9, 9, 0)));
}

#[test]
fn steer_moves_one_unit_and_turns_to_face_the_target() {
    let t = Transform::identity();
    let p = PlayerShip { target_x: 60_000_000, target_y: 40_000_000 };
    assert_eq!(
        steer(t, p),
        Transform { x: 832_050, y: 554_700, heading_x: 832_050, heading_y: 554_700 }
    );
    let left = PlayerShip { target_x: -5_000_000, target_y: 0 };
    assert_eq!(
        steer(t, left),
        Transform { x: -1_000_000, y: 0, heading_x: -1_000_000, heading_y: 0 }
    );
    let down = PlayerShip { target_x: 0, target_y: -5_000_000 };
    assert_eq!(
        steer(t, down),
        Transform { x: 0, y: -1_000_000, heading_x: 0, heading_y: -1_000_000 }
    );
}

#[test]
fn steer_rests_below_one_unit() {
    let t = Transform { x: 10, y: 20, heading_x: 600_000, heading_y: 800_000 };
    assert_eq!(steer(t, PlayerShip { target_x: 10, target_y: 20 }), t);
    assert_eq!(steer(t, PlayerShip { target_x: 10 + 999_999, target_y: 20 }), t);
    assert_eq!(steer(t, PlayerShip { target_x: 10 + 707_106, target_y: 20 + 707_106 }), t);
    let moved = steer(t, PlayerShip { target_x: 1_000_010, target_y: 20 });
    assert_eq!(moved, Transform { x: 1_000_010, y: 20, heading_x: 1_000_000, heading_y: 0 });
}

#[test]
fn steer_at_the_ends_of_the_coordinate_range() {
    let t = Transform::from_translation(i32::MIN, i32::MIN);
    let p = PlayerShip { target_x: i32::MAX, target_y: i32::MAX };
    let moved = steer(t, p);
    assert_eq!((moved.x, moved.y), (i32::MIN + 707_106, i32::MIN + 707_106));
    assert_eq!((moved.heading_x, moved.heading_y), (707_106, 707_106));
}

#[test]
fn scenario_player_walks_to_the_target_and_stops() {
    let mut store = Store::new();
    let p = store.spawn_bundle(player_at(0, 0));
    let mut events: Events<CursorMoved> = Events::new();
    let reader = events.add_reader();
    events.send(CursorMoved { x: 300_000_000, y: 200_000_000 });
    follow_cursor_system(&mut store, &mut events, reader, &window());
    let mut moves = 0;
    for tick in 0..200 {
        let before = store.get(p).unwrap().transform.unwrap();
        follow_cursor_system(&mut store, &mut events, reader, &window());
        move_player_system(&mut store);
        let after = store.get(p).unwrap().transform.unwrap();
        if tick == 0 {
            assert_eq!((after.x, after.y), (832_050, 554_700));
        }
        let (bx, by) = ((60_000_000 - before.x) as i64, (40_000_000 - before.y) as i64);
        let (ax, ay) = ((60_000_000 - after.x) as i64, (40_000_000 - after.y) as i64);
        if bx * bx + by * by >= 1_000_000_000_000 {
            moves += 1;
            assert!(after != before);
            let (sx, sy) = ((after.x - before.x) as i64, (after.y - before.y) as i64);
            assert!(sx * sx + sy * sy <= 1_000_000_000_000);
            assert!(sx * sx + sy * sy >= 999_997 * 999_997);
            assert!(ax.abs() <= bx.abs() && ay.abs() <= by.abs());
            assert!(ax >= 0 && ay >= 0);
            // One unit per tick along the line to the target, to a thousandth of a unit.
            let along = moves as f64 / 5200f64.sqrt();
            assert!((after.x as f64 / 1e6 - 60.0 * along).abs() < 1e-3);
            assert!((after.y as f64 / 1e6 - 40.0 * along).abs() < 1e-3);
        } else {
            assert_eq!(after, before);
        }
    }
    assert_eq!(moves, 72);
    let end = store.get(p).unwrap().transform.unwrap();
    assert_eq!(
        end,
        Transform { x: 59_907_600, y: 39_938_400, heading_x: 832_050, heading_y: 554_700 }
    );
}

#[test]
fn an_arrived_ship_rests_until_the_target_changes() {
    let mut store = Store::new();
    let mut c = player_at(0, 0);
    c.player_ship = Some(PlayerShip { target_x: 600_000, target_y: 700_000 });
    let p = store.spawn_bundle(c);
    for _ in 0..50 {
        move_player_system(&mut store);
        assert_eq!(store.get(p), Some(c));
    }
    store.insert(p, Component::PlayerShip(PlayerShip { target_x: 3_000_000, target_y: 0 }));
    move_player_system(&mut store);
    assert_eq!(place_of(&store, p), (1_000_000, 0));
}

#[test]
fn move_player_leaves_other_entities_alone() {
    let mut store = Store::new();
    let e = store.spawn_bundle(enemy_at(5, 5, 0));
    let b = store.spawn_bundle(bullet(Transform::from_translation(1, 1)));
    let mut bare = Components::empty();
    bare.player_ship = Some(PlayerShip { target_x: 9_000_000, target_y: 0 });
    let no_place = store.spawn_bundle(bare);
    move_player_system(&mut store);
    assert_eq!(store.get(e), Some(enemy_at(5, 5, 0)));
    assert_eq!(store.get(b), Some(bullet(Transform::from_translation(1, 1))));
    assert_eq!(store.get(no_place), Some(bare));
}

#[test]
fn setup_asks_for_a_player_at_the_origin() {
    let mut commands = Commands::new();
    setup(&mut commands);
    assert_eq!(commands.len(), 1);
    assert_eq!(commands.get(0), Some(Command::Spawn(player_at(0, 0))));
    let mut store = Store::new();
    commands.flush(&mut store);
    assert_eq!(player_transform(&store), Some(Transform::identity()));
}

#[test]
fn player_transform_is_that_of_the_first_ship() {
    let mut store = Store::new();
    assert_eq!(player_transform(&store), None);
    store.spawn_bundle(enemy_at(1, 1, 0));
    let mut bare = Components::empty();
    bare.player_ship = Some(PlayerShip::default());
    store.spawn_bundle(bare);
    assert_eq!(player_transform(&store), None);
    store.spawn_bundle(player_at(3, 4));
    store.spawn_bundle(player_at(5, 6));
    assert_eq!(player_transform(&store), Some(Transform::from_translation(3, 4)));
}

#[test]
fn a_ready_gun_fires_when_the_button_is_held() {
    let mut store = Store::new();
    let at = Transform { x: 100_000, y: 200_000, heading_x: 600_000, heading_y: 800_000 };
    let mut c = player_at(0, 0);
    c.transform = Some(at);
    store.spawn_bundle(c);
    let mut commands = Commands::new();
    let mut gun = GunState::default();
    let mut input = Input::new();
    input.press(MouseButton::Left.code());
    fire_bullet_system(&mut commands, &store, &mut gun, &input);
    assert_eq!(gun, GunState { frames_to_fire: 5 });
    assert_eq!(commands.len(), 1);
    assert_eq!(commands.get(0), Some(Command::Spawn(bullet(at))));
}

#[test]
fn a_ready_gun_restarts_its_cooldown_even_without_a_shot() {
    let mut store = Store::new();
    store.spawn_bundle(player_at(0, 0));
    let mut commands = Commands::new();
    let mut gun = GunState::default();
    let input = Input::new();
    fire_bullet_system(&mut commands, &store, &mut gun, &input);
    assert_eq!(gun, GunState { frames_to_fire: 5 });
    assert!(commands.is_empty());
}

#[test]
fn a_cooling_gun_counts_down_and_does_not_fire() {
    let mut store = Store::new();
    store.spawn_bundle(player_at(0, 0));
    let mut commands = Commands::new();
    let mut gun = GunState { frames_to_fire: 3 };
    let mut input = Input::new();
    input.press(MouseButton::Left.code());
    fire_bullet_system(&mut commands, &store, &mut gun, &input);
    assert_eq!(gun, GunState { frames_to_fire: 2 });
    fire_bullet_system(&mut commands, &store, &mut gun, &input);
    fire_bullet_system(&mut commands, &store, &mut gun, &input);
    assert_eq!(gun, GunState { frames_to_fire: 0 });
    assert!(commands.is_empty());
}

#[test]
fn only_the_left_button_fires() {
    let mut store = Store::new();
    store.spawn_bundle(player_at(0, 0));
    let mut commands = Commands::new();
    let mut gun = GunState::default();
    let mut input = Input::new();
    input.press(MouseButton::Right.code());
    input.press(MouseButton::Middle.code());
    fire_bullet_system(&mut commands, &store, &mut gun, &input);
    assert!(commands.is_empty());
}

#[test]
fn scenario_button_held_for_ten_ticks_fires_on_tick_zero_and_six() {
    let mut store = Store::new();
    store.spawn_bundle(player_at(0, 0));
    let mut gun = GunState::default();
    let mut input = Input::new();
    input.press(MouseButton::Left.code());
    let mut fired_on = Vec::new();
    for tick in 0..10 {
        let mut commands = Commands::new();
        fire_bullet_system(&mut commands, &store, &mut gun, &input);
        if !commands.is_empty() {
            assert_eq!(commands.len(), 1);
            fired_on.push(tick);
        }
    }
    assert_eq!(fired_on, vec![0, 6]);
}

#[test]
fn the_gun_fires_every_sixth_tick_for_as_long_as_the_button_is_held() {
    let mut store = Store::new();
    store.spawn_bundle(player_at(0, 0));
    let mut gun = GunState::default();
    let mut input = Input::new();
    input.press(MouseButton::Left.code());
    for tick in 0..120 {
        let mut commands = Commands::new();
        fire_bullet_system(&mut commands, &store, &mut gun, &input);
        assert_eq!(commands.len(), if tick % 6 == 0 { 1 } else { 0 });
        let left = if tick % 6 == 0 { 5 } else { 5 - tick % 6 };
        assert_eq!(gun.frames_to_fire, left);
    }
}

#[test]
fn a_bullet_flies_ten_units_along_its_heading() {
    assert_eq!(
        fly(Transform::identity()),
        Transform { x: 0, y: 10_000_000, heading_x: 0, heading_y: 1_000_000 }
    );
    let t = Transform { x: -5, y: 7, heading_x: 832_000, heading_y: -554_000 };
    assert_eq!(
        fly(t),
        Transform { x: 8_319_995, y: -5_539_993, heading_x: 832_000, heading_y: -554_000 }
    );
    let diagonal = Transform { x: 0, y: 0, heading_x: 832_050, heading_y: 554_700 };
    assert_eq!((fly(diagonal).x, fly(diagonal).y), (8_320_500, 5_547_000));
}

#[test]
fn a_bullet_stops_at_the_end_of_the_coordinate_range() {
    let t = Transform {
        x: i32::MAX - 5,
        y: i32::MIN + 5,
        heading_x: 1_000_000,
        heading_y: -1_000_000,
    };
    let moved = fly(t);
    assert_eq!((moved.x, moved.y), (i32::MAX, i32::MIN));
    let wild = Transform { x: 0, y: 0, heading_x: i32::MAX, heading_y: i32::MIN };
    assert_eq!((fly(wild).x, fly(wild).y), (i32::MAX, i32::MIN));
}

#[test]
fn a_bullet_that_leaves_the_window_is_absent_after_the_flush() {
    let mut store = Store::new();
    let up = store.spawn_bundle(bullet(Transform::from_translation(0, 150_000_000)));
    let stays = store.spawn_bundle(bullet(Transform::from_translation(0, 0)));
    let mut commands = Commands::new();
    move_bullet_system(&mut commands, &mut store, &window());
    assert_eq!(place_of(&store, up), (0, 160_000_000));
    assert!(commands.is_empty());
    move_bullet_system(&mut commands, &mut store, &window());
    assert_eq!(place_of(&store, up), (0, 170_000_000));
    assert_eq!(commands.len(), 1);
    assert_eq!(commands.get(0), Some(Command::Despawn(up)));
    assert!(store.contains(up));
    commands.flush(&mut store);
    assert!(!store.contains(up));
    assert_eq!(place_of(&store, stays), (0, 20_000_000));
    let bullets = Filter::any().with(ComponentKind::Bullet);
    assert_eq!(store.query(&bullets), vec![stays]);
}

#[test]
fn bullets_leave_on_every_side_and_are_asked_out_in_spawn_order() {
    let mut store = Store::new();
    let right = store.spawn_bundle(bullet(Transform {
        x: 235_000_000,
        y: 0,
        heading_x: 1_000_000,
        heading_y: 0,
    }));
    let inside = store.spawn_bundle(bullet(Transform::from_translation(0, 0)));
    let left = store.spawn_bundle(bullet(Transform {
        x: -235_000_000,
        y: 0,
        heading_x: -1_000_000,
        heading_y: 0,
    }));
    let down = store.spawn_bundle(bullet(Transform {
        x: 0,
        y: -155_000_000,
        heading_x: 0,
        heading_y: -1_000_000,
    }));
    let not_a_bullet = store.spawn_bundle(enemy_at(999_999_000, 0, 0));
    let mut commands = Commands::new();
    move_bullet_system(&mut commands, &mut store, &window());
    assert_eq!(commands.len(), 3);
    assert_eq!(commands.get(0), Some(Command::Despawn(right)));
    assert_eq!(commands.get(1), Some(Command::Despawn(left)));
    assert_eq!(commands.get(2), Some(Command::Despawn(down)));
    commands.flush(&mut store);
    assert!(store.contains(inside) && store.contains(not_a_bullet));
    assert_eq!(place_of(&store, not_a_bullet), (999_999_000, 0));
}

#[test]
fn the_spawner_counts_down_and_spawns_at_zero() {
    let mut store = Store::new();
    store.spawn_bundle(player_at(0, 0));
    let mut state = GlobalEnemyState::default();
    let mut commands = Commands::new();
    for tick in 0..20 {
        spawn_enemy_system(&mut commands, &mut state, &store, &window());
        assert_eq!(state.frames_to_next_enemy, 19 - tick);
        assert!(commands.is_empty());
    }
    spawn_enemy_system(&mut commands, &mut state, &store, &window());
    assert_eq!(state, GlobalEnemyState { frames_to_next_enemy: 90, spawn_interval: 90 });
    assert_eq!(commands.len(), 1);
    for _ in 0..90 {
        spawn_enemy_system(&mut commands, &mut state, &store, &window());
        assert_eq!(commands.len(), 1);
    }
    assert_eq!(state.frames_to_next_enemy, 0);
    spawn_enemy_system(&mut commands, &mut state, &store, &window());
    assert_eq!(commands.len(), 2);
}

#[test]
fn the_spawner_restarts_from_the_configured_interval() {
    let mut store = Store::new();
    store.spawn_bundle(player_at(0, 0));
    let mut state = GlobalEnemyState { frames_to_next_enemy: 0, spawn_interval: 3 };
    let mut commands = Commands::new();
    let mut spawned_on = Vec::new();
    for tick in 0..12 {
        let before = commands.len();
        spawn_enemy_system(&mut commands, &mut state, &store, &window());
        if commands.len() > before {
            spawned_on.push(tick);
        }
    }
    assert_eq!(spawned_on, vec![0, 4, 8]);
}

#[test]
fn a_spawned_enemy_is_inside_the_window_and_away_from_the_player() {
    let w = window();
    for round in 0..300 {
        let px = ((round * 1571) % 480_000 - 240_000) * 1000;
        let py = ((round * 977) % 320_000 - 160_000) * 1000;
        let mut store = Store::new();
        store.spawn_bundle(player_at(px, py));
        let mut state = GlobalEnemyState { frames_to_next_enemy: 0, spawn_interval: 90 };
        let mut commands = Commands::new();
        spawn_enemy_system(&mut commands, &mut state, &store, &w);
        let bundle = match commands.get(0) {
            Some(Command::Spawn(b)) => b,
            other => panic!("no spawn request: {:?}", other),
        };
        assert_eq!(bundle.enemy, Some(Enemy { frames_to_appear: 10 }));
        assert_eq!(bundle.bullet, None);
        assert_eq!(bundle.player_ship, None);
        let t = bundle.transform.unwrap();
        assert_eq!(t, Transform::from_translation(t.x, t.y));
        assert!(-240_000_000 <= t.x && t.x < 240_000_000);
        assert!(-160_000_000 <= t.y && t.y < 160_000_000);
        let (dx, dy) = ((px - t.x) as i64, (py - t.y) as i64);
        assert!(dx * dx + dy * dy >= 400_000_000_000_000);
    }
}

#[test]
fn create_enemy_position_spreads_over_the_window() {
    let player = Transform::identity();
    let mut seen_left = false;
    let mut seen_right = false;
    let mut seen_low = false;
    let mut seen_high = false;
    let mut places = Vec::new();
    for _ in 0..200 {
        let t = create_enemy_position(&player, 480_000_000, 320_000_000);
        seen_left |= t.x < -60_000_000;
        seen_right |= t.x > 60_000_000;
        seen_low |= t.y < -40_000_000;
        seen_high |= t.y > 40_000_000;
        places.push((t.x, t.y));
    }
    assert!(seen_left && seen_right && seen_low && seen_high);
    places.sort();
    places.dedup();
    assert!(places.len() > 150);
}

#[test]
fn create_enemy_position_where_only_the_ends_are_safe() {
    let player = Transform::identity();
    for _ in 0..20 {
        let t = create_enemy_position(&player, 40_000_001, 0);
        assert_eq!(t.y, 0);
        assert!(t.x == -20_000_000 || t.x == 20_000_000);
    }
    for _ in 0..20 {
        let t = create_enemy_position(&player, 40_000_000, 0);
        assert_eq!((t.x, t.y), (-20_000_000, 0));
    }
    let off_centre = Transform::from_translation(-20_000_000, 0);
    for _ in 0..20 {
        let t = create_enemy_position(&off_centre, 0, 40_000_001);
        assert_eq!(t.x, 0);
        assert!(t.y >= -20_000_000 && t.y <= 20_000_000);
    }
}

#[test]
fn create_enemy_position_in_a_window_of_forty_by_forty_units() {
    let w = Window::new(40_000_000, 40_000_000);
    for round in 0..200 {
        let px = (round * 1571 % 60_000 - 30_000) * 1000;
        let py = (round * 977 % 60_000 - 30_000) * 1000;
        let player = Transform::from_translation(px, py);
        assert!(w.has_room_for(px, py));
        let t = create_enemy_position(&player, w.width, w.height);
        assert_eq!(t, Transform::from_translation(t.x, t.y));
        assert!(-20_000_000 <= t.x && t.x < 20_000_000);
        assert!(-20_000_000 <= t.y && t.y < 20_000_000);
        let (dx, dy) = ((px - t.x) as i64, (py - t.y) as i64);
        assert!(dx * dx + dy * dy >= 400_000_000_000_000);
    }
}

#[test]
fn create_enemy_position_in_a_small_window_with_the_player_aside() {
    let player = Transform::from_translation(10_000_000, 0);
    for _ in 0..20 {
        let t = create_enemy_position(&player, 20_000_000, 20_000_000);
        assert!(-10_000_000 <= t.x && t.x < 10_000_000);
        assert!(-10_000_000 <= t.y && t.y < 10_000_000);
        let (dx, dy) = ((10_000_000 - t.x) as i64, t.y as i64);
        assert!(dx * dx + dy * dy >= 400_000_000_000_000);
    }
}

#[test]
fn sample_spot_maps_samples_evenly_onto_the_window() {
    let w = window();
    assert_eq!(sample_spot(&w, 0, 0), (-240_000_000, -160_000_000));
    assert_eq!(sample_spot(&w, 1 << 31, 1 << 31), (0, 0));
    assert_eq!(sample_spot(&w, u32::MAX, u32::MAX), (239_999_999, 159_999_999));
    assert_eq!(sample_spot(&w, 1 << 30, 3 << 30), (-120_000_000, 80_000_000));
    assert_eq!(sample_spot(&Window::new(0, 0), 12345, u32::MAX), (0, 0));
    assert_eq!(sample_spot(&Window::new(1, 3), u32::MAX, u32::MAX), (0, 1));
    let whole = Window::new(u32::MAX, u32::MAX);
    assert_eq!(sample_spot(&whole, 0, u32::MAX), (-i32::MAX, i32::MAX));
}

#[test]
fn place_enemy_takes_far_spots_and_rejects_near_ones() {
    let w = window();
    let origin = Transform::identity();
    assert_eq!(place_enemy(&origin, &w, 1 << 31, 1 << 31), None);
    assert_eq!(
        place_enemy(&origin, &w, 1 << 31, 0),
        Some(Transform::from_translation(0, -160_000_000))
    );
    let aside = Transform::from_translation(20_000_000, 0);
    assert_eq!(place_enemy(&aside, &w, 1 << 31, 1 << 31), Some(Transform::identity()));
    let nearly = Transform::from_translation(19_999_999, 0);
    assert_eq!(place_enemy(&nearly, &w, 1 << 31, 1 << 31), None);
    let diagonal = Transform::from_translation(12_000_000, 16_000_000);
    assert_eq!(place_enemy(&diagonal, &w, 1 << 31, 1 << 31), Some(Transform::identity()));
}

#[test]
fn farthest_corner_is_the_far_end_on_each_axis() {
    let w = window();
    assert_eq!(farthest_corner(&Transform::identity(), &w), (-240_000_000, -160_000_000));
    assert_eq!(
        farthest_corner(&Transform::from_translation(-100_000, 50), &w),
        (239_999_999, -160_000_000)
    );
    assert_eq!(
        farthest_corner(&Transform::from_translation(100_000, -50), &w),
        (-240_000_000, 159_999_999)
    );
    assert_eq!(
        farthest_corner(&Transform::from_translation(i32::MAX, i32::MIN), &w),
        (-240_000_000, 159_999_999)
    );
    assert_eq!(farthest_corner(&Transform::identity(), &Window::new(0, 0)), (0, 0));
}

#[test]
fn spawn_enemy_at_asks_for_the_enemy_and_restarts_the_countdown() {
    let mut commands = Commands::new();
    let mut state = GlobalEnemyState { frames_to_next_enemy: 0, spawn_interval: 7 };
    let place = Transform::from_translation(50_000_000, -60_000_000);
    spawn_enemy_at(&mut commands, &mut state, place);
    assert_eq!(state, GlobalEnemyState { frames_to_next_enemy: 7, spawn_interval: 7 });
    assert_eq!(commands.get(0), Some(Command::Spawn(enemy_at(50_000_000, -60_000_000, 10))));
    assert_eq!(commands.len(), 1);
}

#[test]
fn an_enemy_moves_half_a_unit_toward_the_player() {
    let player = Transform::identity();
    let t = Transform::from_translation(3_000_000, 4_000_000);
    assert_eq!(chase(t, player), Transform::from_translation(2_700_000, 3_600_000));
    let below = Transform::from_translation(0, -15_000_000);
    assert_eq!(chase(below, player), Transform::from_translation(0, -14_500_000));
    let turned = Transform { x: 0, y: 10_000_000, heading_x: 600_000, heading_y: -800_000 };
    assert_eq!(
        chase(turned, player),
        Transform { x: 0, y: 9_500_000, heading_x: 600_000, heading_y: -800_000 }
    );
    let aside = Transform::from_translation(60_000_000, 40_000_000);
    assert_eq!(chase(aside, player), Transform::from_translation(59_583_975, 39_722_650));
}

#[test]
fn an_enemy_ages_until_its_grace_period_is_over() {
    assert_eq!(age(Enemy { frames_to_appear: 3 }), Enemy { frames_to_appear: 2 });
    assert_eq!(age(Enemy { frames_to_appear: 1 }), Enemy { frames_to_appear: 0 });
    assert_eq!(age(Enemy { frames_to_appear: 0 }), Enemy { frames_to_appear: 0 });
    assert_eq!(age(Enemy { frames_to_appear: -4 }), Enemy { frames_to_appear: -4 });
}

#[test]
fn an_enemy_on_the_player_stays_and_one_nearby_steps_over() {
    let player = Transform::from_translation(100_000, 100_000);
    let on_top = Transform::from_translation(100_000, 100_000);
    assert_eq!(chase(on_top, player), on_top);
    let near = Transform::from_translation(101_000, 100_000);
    assert_eq!(chase(near, player), Transform::from_translation(-399_000, 100_000));
}

#[test]
fn enemies_move_during_their_grace_period_and_after_it() {
    let mut store = Store::new();
    let p = store.spawn_bundle(player_at(0, 0));
    let e = store.spawn_bundle(enemy_at(0, 10_000_000, 10));
    move_enemy_system(&mut store);
    assert_eq!(place_of(&store, e), (0, 9_500_000));
    assert_eq!(store.get(e).unwrap().enemy, Some(Enemy { frames_to_appear: 9 }));
    for tick in 1..10 {
        move_enemy_system(&mut store);
        assert_eq!(place_of(&store, e), (0, 9_500_000 - 500_000 * tick));
        assert_eq!(store.get(e).unwrap().enemy, Some(Enemy { frames_to_appear: 9 - tick }));
    }
    move_enemy_system(&mut store);
    assert_eq!(place_of(&store, e), (0, 4_500_000));
    move_enemy_system(&mut store);
    assert_eq!(place_of(&store, e), (0, 4_000_000));
    assert_eq!(store.get(e).unwrap().enemy, Some(Enemy { frames_to_appear: 0 }));
    assert_eq!(store.get(p), Some(player_at(0, 0)));
    assert_eq!(store.len(), 2);
}

#[test]
fn every_enemy_chases_the_first_ship() {
    let mut store = Store::new();
    let a = store.spawn_bundle(enemy_at(10_000_000, 0, 0));
    store.spawn_bundle(player_at(0, 0));
    let b = store.spawn_bundle(enemy_at(-10_000_000, 0, 0));
    store.spawn_bundle(player_at(50_000_000, 50_000_000));
    let bystander = store.spawn_bundle(bullet(Transform::from_translation(7, 7)));
    move_enemy_system(&mut store);
    assert_eq!(place_of(&store, a), (9_500_000, 0));
    assert_eq!(place_of(&store, b), (-9_500_000, 0));
    assert_eq!(place_of(&store, bystander), (7, 7));
}

#[test]
fn touching_is_strictly_inside_twenty_units() {
    let origin = Transform::identity();
    assert!(is_touching(&origin, &Transform::from_translation(0, 15_000_000)));
    assert!(is_touching(&origin, &Transform::from_translation(19_999_000, 0)));
    assert!(!is_touching(&origin, &Transform::from_translation(20_000_000, 0)));
    assert!(is_touching(&origin, &Transform::from_translation(12_000_000, 15_999_000)));
    assert!(!is_touching(&origin, &Transform::from_translation(12_000_000, 16_000_000)));
    assert!(!is_touching(
        &Transform::from_translation(i32::MIN, i32::MIN),
        &Transform::from_translation(i32::MAX, i32::MAX)
    ));
}

#[test]
fn scenario_bullet_and_enemy_collide_and_both_are_despawned() {
    let mut store = Store::new();
    let b = store.spawn_bundle(bullet(Transform::identity()));
    let e = store.spawn_bundle(enemy_at(0, 15_000_000, 0));
    let mut commands = Commands::new();
    bullet_enemy_collision_system(&mut commands, &store);
    assert_eq!(commands.len(), 2);
    assert_eq!(commands.get(0), Some(Command::Despawn(b)));
    assert_eq!(commands.get(1), Some(Command::Despawn(e)));
    commands.flush(&mut store);
    assert!(!store.contains(b));
    assert!(!store.contains(e));
}

#[test]
fn an_enemy_out_of_reach_is_not_hit() {
    let mut store = Store::new();
    store.spawn_bundle(bullet(Transform::identity()));
    store.spawn_bundle(enemy_at(0, 20_000_000, 0));
    let mut commands = Commands::new();
    bullet_enemy_collision_system(&mut commands, &store);
    assert!(commands.is_empty());
}

#[test]
fn an_inert_enemy_is_not_hit() {
    let mut store = Store::new();
    let b = store.spawn_bundle(bullet(Transform::identity()));
    let inert = store.spawn_bundle(enemy_at(0, 5_000_000, 1));
    let active = store.spawn_bundle(enemy_at(0, 15_000_000, 0));
    let mut commands = Commands::new();
    bullet_enemy_collision_system(&mut commands, &store);
    assert_eq!(commands.len(), 2);
    assert_eq!(commands.get(0), Some(Command::Despawn(b)));
    assert_eq!(commands.get(1), Some(Command::Despawn(active)));
    commands.flush(&mut store);
    assert!(store.contains(inert));
}

#[test]
fn no_enemy_is_hit_by_two_bullets_in_one_tick() {
    let mut store = Store::new();
    let b0 = store.spawn_bundle(bullet(Transform::from_translation(0, 0)));
    let e = store.spawn_bundle(enemy_at(0, 5_000_000, 0));
    let b1 = store.spawn_bundle(bullet(Transform::from_translation(0, 10_000_000)));
    let b2 = store.spawn_bundle(bullet(Transform::from_translation(5_000_000, 5_000_000)));
    let mut commands = Commands::new();
    bullet_enemy_collision_system(&mut commands, &store);
    assert_eq!(commands.len(), 2);
    assert_eq!(commands.get(0), Some(Command::Despawn(b0)));
    assert_eq!(commands.get(1), Some(Command::Despawn(e)));
    commands.flush(&mut store);
    assert!(!store.contains(b0) && !store.contains(e));
    assert!(store.contains(b1) && store.contains(b2));
}

#[test]
fn a_bullet_hits_the_first_enemy_in_reach_and_the_next_bullet_the_next() {
    let mut store = Store::new();
    let far = store.spawn_bundle(enemy_at(0, 19_000_000, 0));
    let near = store.spawn_bundle(enemy_at(0, 1_000_000, 0));
    let out = store.spawn_bundle(enemy_at(0, 90_000_000, 0));
    let b0 = store.spawn_bundle(bullet(Transform::from_translation(0, 0)));
    let b1 = store.spawn_bundle(bullet(Transform::from_translation(0, 500_000)));
    let b2 = store.spawn_bundle(bullet(Transform::from_translation(0, 700_000)));
    let mut commands = Commands::new();
    bullet_enemy_collision_system(&mut commands, &store);
    assert_eq!(commands.len(), 4);
    assert_eq!(commands.get(0), Some(Command::Despawn(b0)));
    assert_eq!(commands.get(1), Some(Command::Despawn(far)));
    assert_eq!(commands.get(2), Some(Command::Despawn(b1)));
    assert_eq!(commands.get(3), Some(Command::Despawn(near)));
    commands.flush(&mut store);
    assert!(store.contains(b2) && store.contains(out));
    let enemies = Filter::any().with(ComponentKind::Enemy);
    assert_eq!(store.query(&enemies), vec![out]);
}

#[test]
fn an_enemy_in_reach_of_the_player_ends_the_game_once() {
    let mut store = Store::new();
    store.spawn_bundle(player_at(0, 0));
    store.spawn_bundle(enemy_at(0, 15_000_000, 0));
    store.spawn_bundle(enemy_at(1_000_000, 0, 0));
    let mut game_over: Events<GameOverEvent> = Events::new();
    let reader = game_over.add_reader();
    player_enemy_collision_system(&store, &mut game_over);
    assert_eq!(game_over.drain(reader), vec![GameOverEvent]);
    player_enemy_collision_system(&store, &mut game_over);
    player_enemy_collision_system(&store, &mut game_over);
    assert_eq!(game_over.drain(reader).len(), 2);
}

#[test]
fn the_game_goes_on_without_an_active_enemy_in_reach() {
    let mut store = Store::new();
    let mut game_over: Events<GameOverEvent> = Events::new();
    let reader = game_over.add_reader();
    store.spawn_bundle(enemy_at(0, 0, 0));
    player_enemy_collision_system(&store, &mut game_over);
    assert_eq!(game_over.pending_count(reader), 0);
    store.spawn_bundle(player_at(50_000_000, 0));
    store.spawn_bundle(enemy_at(50_000_000, 100_000, 5));
    store.spawn_bundle(enemy_at(50_000_000, 20_000_000, 0));
    store.spawn_bundle(bullet(Transform::from_translation(50_000_000, 0)));
    player_enemy_collision_system(&store, &mut game_over);
    assert_eq!(game_over.pending_count(reader), 0);
}
