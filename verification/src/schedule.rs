//! The scheduler: it holds the world, runs the registered systems in the
//! order of their registration once per tick, and applies the command
//! buffer once the last system has run.

use crate::blocks::{
    block_report,
    blocks,
    blocks_can_move,
    blocks_moved,
    can_move,
    collision_system,
    crash_requests,
    lemma_blocks_moved_shape,
    lemma_crash_requests_name_blocks,
    line_setup,
    move_block_system,
    place,
    print_system,
};
use crate::bullet_plugin::{
    bullets_moved,
    fire_bullet_system,
    gun_fires,
    gun_next,
    lemma_bullets_moved_steady,
    lemma_stray_requests,
    move_bullet_system,
    projectiles,
    shots,
    stray_requests,
    strays,
};
use crate::collision_plugin::{
    bullet_enemy_collision_system,
    exposed,
    hit_requests,
    hits_of,
    lemma_hit_requests_name_hits,
    lemma_hits,
    player_enemy_collision_system,
    player_is_hit,
};
use crate::commands::{
    apply_all,
    lemma_apply_keeps_dead,
    lemma_apply_spawns,
    lemma_despawn_request_wins,
    Command,
    Commands,
};
use crate::components::{GlobalEnemyState, GunState};
use crate::echo::{
    click_lines,
    game_over_event_system,
    key_lines,
    keyboard_event_system,
    keyboard_state_system,
    mouse_click_system,
    mouse_move_system,
    mouse_state_lines,
    mouse_state_system,
    move_lines,
    send_game_over_event_system,
    Message,
};
use crate::enemy_plugin::{
    enemies_moved,
    foes,
    is_enemy_spawn,
    lemma_enemies_moved_steady,
    move_enemy_system,
    spawn_due,
    spawn_enemy_system,
    spawner_next,
};
use crate::events::{CursorMoved, EventLog, Events, GameOverEvent, ReaderId};
use crate::input::{InputState, KeyboardInput, KeyCode, MouseButton, MouseButtonInput};
use crate::player_ship_plugin::{
    arrived,
    cursor_followed,
    first_ship,
    follow_cursor_system,
    has_ship,
    lemma_arrived_ships_rest,
    lemma_player_systems_keep_steady,
    move_player_system,
    player_bundle,
    player_transform,
    players_moved,
    ships,
};
use crate::resources::Resources;
use crate::store::{
    accepted,
    entity_at,
    first_match,
    lemma_first_match,
    lemma_same_shape_accepted,
    lemma_same_shape_first_match,
    live,
    same_shape,
    shape,
    spawned,
    steady,
    Components,
    Entity,
    Slots,
    Store,
};
use crate::window::{lemma_roomy_has_safe_spots, Window};
use vstd::prelude::*;

verus! {

/// Names a system that runs on every tick.
#[derive(Clone, Copy, Debug, PartialEq, Eq, Structural)]
pub enum SystemId {
    /// Points the ships at the pointer.
    FollowCursor,
    /// Moves the ships toward their targets.
    MovePlayer,
    /// Runs the gun.
    FireBullet,
    /// Moves the bullets and asks those that left the window out.
    MoveBullet,
    /// Runs the enemy spawner.
    SpawnEnemy,
    /// Moves the enemies and ages them.
    MoveEnemy,
    /// Tests bullets against enemies.
    BulletEnemyCollision,
    /// Tests the player against enemies.
    PlayerEnemyCollision,
    /// Moves the blocks of the line.
    MoveBlocks,
    /// Tests the blocks of the line against its walls.
    BlockCollision,
    /// Reports the blocks of the line.
    PrintBlocks,
    /// Reports pointer moves.
    MouseMove,
    /// Reports mouse button events.
    MouseClick,
    /// Reports the state of the mouse.
    MouseState,
    /// Reports keyboard events.
    KeyboardEvent,
    /// Reports the state of the keyboard.
    KeyboardState,
    /// Sends the game-over signal on a left click.
    SendGameOver,
    /// Reports game-over signals.
    GameOverEcho,
}

/// Names a system that runs once, before the first tick.
#[derive(Clone, Copy, Debug, PartialEq, Eq, Structural)]
pub enum StartupId {
    /// Spawns the player.
    SpawnPlayer,
    /// Spawns the entity that stands for the camera.
    SpawnCamera,
    /// Spawns the blocks and walls of the line.
    SpawnLine,
}

/// The model of the scheduler's state.
pub struct World {
    pub store: Slots,
    pub commands: Seq<Command>,
    pub gun_state: GunState,
    pub enemy_state: GlobalEnemyState,
    pub window: Window,
    pub mouse: InputState,
    pub keys: InputState,
    pub cursor_moved: EventLog<CursorMoved>,
    pub mouse_buttons: EventLog<MouseButtonInput>,
    pub keyboard: EventLog<KeyboardInput>,
    pub game_over: EventLog<GameOverEvent>,
    pub console: Seq<Message>,
    pub systems: Seq<SystemId>,
    pub spawns_player: bool,
    pub spawns_camera: bool,
    pub spawns_line: bool,
    pub started: bool,
}

/// The reader through which the player controller gets pointer moves.
pub open spec fn steering_reader() -> ReaderId {
    ReaderId { index: 0 }
}

/// The reader through which the reporting systems get mouse button
/// events, keyboard events and game-over signals, each from its own log.
pub open spec fn echo_reader() -> ReaderId {
    ReaderId { index: 0 }
}

/// The reader through which the reporting system gets pointer moves.
pub open spec fn move_echo_reader() -> ReaderId {
    ReaderId { index: 1 }
}

/// The reader through which the host learns that the game is over.
pub open spec fn host_reader() -> ReaderId {
    ReaderId { index: 1 }
}

impl World {
    /// Whether the fire button is down.
    pub open spec fn fire_held(self) -> bool {
        self.mouse.pressed.contains(MouseButton::Left.code_of())
    }

    /// Whether the system `id` can run in this state: the player and the
    /// room that it counts on are there.
    pub open spec fn can_run(self, id: SystemId) -> bool {
        match id {
            SystemId::FireBullet => self.gun_state.frames_to_fire > i32::MIN && (gun_fires(
                self.gun_state,
                self.fire_held(),
            ) ==> has_ship(self.store)),
            SystemId::SpawnEnemy => spawn_due(self.enemy_state) ==> has_ship(self.store)
                && self.window.has_safe_spot(
                first_ship(self.store).x as int,
                first_ship(self.store).y as int,
            ),
            SystemId::MoveEnemy => has_ship(self.store),
            SystemId::MoveBlocks => blocks_can_move(self.store),
            _ => true,
        }
    }

    /// Whether `post` is a state that the system `id` can leave behind
    /// when it runs in this state. Every system but the enemy spawner
    /// leaves exactly one state behind; the spawner is free in the place
    /// of the enemy, within what `is_enemy_spawn` allows.
    #[verifier::opaque]
    pub open spec fn ran(self, id: SystemId, post: World) -> bool {
        match id {
            SystemId::FollowCursor => post == (World {
                store: cursor_followed(
                    self.store,
                    self.window,
                    self.cursor_moved.pending(steering_reader()),
                ),
                cursor_moved: self.cursor_moved.drained(steering_reader()),
                ..self
            }),
            SystemId::MovePlayer => post == (World { store: players_moved(self.store), ..self }),
            SystemId::FireBullet => post == (World {
                gun_state: gun_next(self.gun_state),
                commands: self.commands + shots(self.store, self.gun_state, self.fire_held()),
                ..self
            }),
            SystemId::MoveBullet => post == (World {
                store: bullets_moved(self.store),
                commands: self.commands + stray_requests(
                    self.store,
                    self.window,
                    self.store.len(),
                ),
                ..self
            }),
            SystemId::SpawnEnemy => {
                &&& post == (World {
                    enemy_state: spawner_next(self.enemy_state),
                    commands: post.commands,
                    ..self
                })
                &&& !spawn_due(self.enemy_state) ==> post.commands == self.commands
                &&& spawn_due(self.enemy_state) ==> {
                    &&& post.commands.len() == self.commands.len() + 1
                    &&& post.commands.drop_last() == self.commands
                    &&& is_enemy_spawn(post.commands.last(), first_ship(self.store), self.window)
                }
            },
            SystemId::MoveEnemy => post == (World {
                store: enemies_moved(self.store, first_ship(self.store)),
                ..self
            }),
            SystemId::BulletEnemyCollision => post == (World {
                commands: self.commands + hit_requests(hits_of(self.store)),
                ..self
            }),
            SystemId::PlayerEnemyCollision => post == (World {
                game_over: if player_is_hit(self.store) {
                    self.game_over.sent(GameOverEvent)
                } else {
                    self.game_over
                },
                ..self
            }),
            SystemId::MoveBlocks => post == (World { store: blocks_moved(self.store), ..self }),
            SystemId::BlockCollision => post == (World {
                commands: self.commands + crash_requests(self.store, self.store.len()),
                ..self
            }),
            SystemId::PrintBlocks => post == (World {
                console: self.console + block_report(self.store),
                ..self
            }),
            SystemId::MouseMove => post == (World {
                cursor_moved: self.cursor_moved.drained(move_echo_reader()),
                console: self.console + move_lines(self.cursor_moved.pending(move_echo_reader())),
                ..self
            }),
            SystemId::MouseClick => post == (World {
                mouse_buttons: self.mouse_buttons.drained(echo_reader()),
                console: self.console + click_lines(self.mouse_buttons.pending(echo_reader())),
                ..self
            }),
            SystemId::MouseState => post == (World {
                console: self.console + mouse_state_lines(
                    self.mouse.pressed.contains(MouseButton::Left.code_of()),
                    self.mouse.just_pressed.contains(MouseButton::Right.code_of()),
                ),
                ..self
            }),
            SystemId::KeyboardEvent => post == (World {
                keyboard: self.keyboard.drained(echo_reader()),
                console: self.console + key_lines(self.keyboard.pending(echo_reader())),
                ..self
            }),
            SystemId::KeyboardState => post == (World {
                console: if self.keys.pressed.contains(KeyCode::Up.code_of()) {
                    self.console.push(Message::KeyUp)
                } else {
                    self.console
                },
                ..self
            }),
            SystemId::SendGameOver => post == (World {
                game_over: if self.mouse.just_pressed.contains(MouseButton::Left.code_of()) {
                    self.game_over.sent(GameOverEvent)
                } else {
                    self.game_over
                },
                ..self
            }),
            SystemId::GameOverEcho => post == (World {
                game_over: self.game_over.drained(echo_reader()),
                console: self.console + Seq::new(
                    self.game_over.pending(echo_reader()).len(),
                    |i: int| Message::GameOver,
                ),
                ..self
            }),
        }
    }
}

/// Whether slot `i` holds a pilot: a live entity with a `PlayerShip`.
pub open spec fn is_pilot(s: Slots, i: int) -> bool {
    0 <= i < s.len() && s[i] is Some && (s[i]->0).player_ship is Some
}

/// Whether the store is tidy: there is at most one pilot, and a pilot is
/// neither a bullet nor an enemy nor a block.
pub open spec fn tidy(s: Slots) -> bool {
    &&& forall|i: int| #[trigger]
        is_pilot(s, i) ==> (s[i]->0).bullet is None && (s[i]->0).enemy is None && (
        s[i]->0).block is None
    &&& forall|i: int, j: int| #[trigger] is_pilot(s, i) && #[trigger] is_pilot(s, j) ==> i == j
}

/// Whether the request `c` leaves the pilots of `s` alone: it spawns an
/// entity that is no pilot, or despawns one.
pub open spec fn benign(c: Command, s: Slots) -> bool {
    match c {
        Command::Spawn(bundle) => bundle.player_ship is None,
        Command::Despawn(e) => e.index < s.len() && !is_pilot(s, e.index as int),
        _ => false,
    }
}

/// Whether all of `cmds` leave the pilots of `s` alone.
pub open spec fn all_benign(cmds: Seq<Command>, s: Slots) -> bool {
    forall|k: int| 0 <= k < cmds.len() ==> benign(#[trigger] cmds[k], s)
}

/// Whether no system occurs twice.
pub open spec fn no_repeats(ids: Seq<SystemId>) -> bool {
    forall|i: int, j: int| 0 <= i < j < ids.len() ==> ids[i] != ids[j]
}

/// Whether the system `id` counts on the player.
pub open spec fn needs_ship(id: SystemId) -> bool {
    id == SystemId::FireBullet || id == SystemId::SpawnEnemy || id == SystemId::MoveEnemy
}

/// The requests of the startup phase: the player first, the camera
/// second, the line third, each if it was asked for.
pub open spec fn startup_requests(w: World) -> Seq<Command> {
    (if w.spawns_player {
        seq![Command::Spawn(player_bundle())]
    } else {
        Seq::empty()
    }) + (if w.spawns_camera {
        seq![Command::Spawn(Components::none())]
    } else {
        Seq::empty()
    }) + (if w.spawns_line {
        line_setup()
    } else {
        Seq::empty()
    })
}

/// The state after the command buffer is applied and emptied.
pub open spec fn flushed(w: World) -> World {
    World { store: apply_all(w.store, w.commands), commands: Seq::empty(), ..w }
}

/// Whether `trace` records a tick that leads from `pre` to `post`: it
/// starts at `pre`, each registered system in turn leads from one state
/// to the next, and the flush of the last state gives `post`.
pub open spec fn ticked(pre: World, trace: Seq<World>, post: World) -> bool {
    &&& trace.len() == pre.systems.len() + 1
    &&& trace[0] == pre
    &&& forall|k: int|
        0 <= k < pre.systems.len() ==> (#[trigger] trace[k]).ran(pre.systems[k], trace[k + 1])
    &&& post == flushed(trace.last())
}

impl World {
    /// What holds of the world between ticks.
    pub open spec fn wf(self) -> bool {
        &&& self.commands.len() == 0
        &&& self.gun_state.frames_to_fire >= 0
        &&& tidy(self.store)
        &&& no_repeats(self.systems)
        &&& self.store.len() <= usize::MAX
        &&& !self.started ==> self.store.len() == 0
        &&& self.cursor_moved.positions.len() == 2
        &&& self.mouse_buttons.positions.len() == 1
        &&& self.keyboard.positions.len() == 1
        &&& self.game_over.positions.len() == 2
    }

    /// Whether a tick can run: the startup phase is over, and what the
    /// registered systems count on is there.
    pub open spec fn ready(self) -> bool {
        &&& self.started
        &&& forall|k: int|
            0 <= k < self.systems.len() && needs_ship(#[trigger] self.systems[k]) ==> has_ship(
                self.store,
            )
        &&& forall|k: int|
            0 <= k < self.systems.len() && #[trigger] self.systems[k] == SystemId::SpawnEnemy
                ==> self.window.roomy()
        &&& forall|k: int|
            0 <= k < self.systems.len() && #[trigger] self.systems[k] == SystemId::MoveBlocks
                ==> blocks_can_move(self.store)
    }

    /// What holds of the world within a tick that began in `start`, when
    /// the first `k` systems have run.
    pub open spec fn mid(self, start: World, k: int) -> bool {
        &&& self.systems == start.systems
        &&& self.window == start.window
        &&& self.started == start.started
        &&& self.spawns_player == start.spawns_player
        &&& self.spawns_camera == start.spawns_camera
        &&& self.spawns_line == start.spawns_line
        &&& self.mouse == start.mouse
        &&& self.keys == start.keys
        &&& self.gun_state.frames_to_fire >= 0
        &&& same_shape(start.store, self.store)
        &&& tidy(self.store)
        &&& all_benign(self.commands, self.store)
        &&& self.cursor_moved.positions.len() == 2
        &&& self.mouse_buttons.positions.len() == 1
        &&& self.keyboard.positions.len() == 1
        &&& self.game_over.positions.len() == 2
        &&& forall|j: int|
            k <= j < self.systems.len() && #[trigger] self.systems[j] == SystemId::MoveBlocks
                ==> steady(start.store, self.store)
    }
}

/// A store of the same shape is as tidy, and the same requests are benign
/// for it.
pub proof fn lemma_same_shape_tidy(a: Slots, b: Slots, cmds: Seq<Command>)
    requires
        same_shape(a, b),
        tidy(a),
        all_benign(cmds, a),
    ensures
        tidy(b),
        all_benign(cmds, b),
        has_ship(a) == has_ship(b),
{
    assert forall|i: int| is_pilot(b, i) == is_pilot(a, i) by {
        if 0 <= i < a.len() {
            assert(shape(a[i]) == shape(b[i]));
        }
    }
    assert forall|i: int| #[trigger] is_pilot(b, i) implies (b[i]->0).bullet is None && (
    b[i]->0).enemy is None && (b[i]->0).block is None by {
        assert(is_pilot(a, i));
        assert(shape(a[i]) == shape(b[i]));
    }
    assert forall|i: int, j: int| #[trigger] is_pilot(b, i) && #[trigger] is_pilot(b, j) implies i
        == j by {
        assert(is_pilot(a, i) && is_pilot(a, j));
    }
    assert forall|k: int| 0 <= k < cmds.len() implies benign(#[trigger] cmds[k], b) by {
        assert(benign(cmds[k], a));
    }
    lemma_same_shape_first_match(a, b, ships(), 0);
}

/// Benign requests leave every pilot as it is and add none: after the
/// flush the store is as tidy as before, and a ship that was there is
/// still there.
pub proof fn lemma_flush_benign(s: Slots, cmds: Seq<Command>)
    requires
        all_benign(cmds, s),
    ensures
        apply_all(s, cmds).len() >= s.len(),
        forall|i: int|
            0 <= i < s.len() ==> (#[trigger] apply_all(s, cmds)[i]) == s[i] || apply_all(
                s,
                cmds,
            )[i] is None,
        forall|i: int| is_pilot(s, i) ==> #[trigger] apply_all(s, cmds)[i] == s[i],
        forall|i: int| #[trigger] is_pilot(apply_all(s, cmds), i) ==> is_pilot(s, i),
        tidy(s) ==> tidy(apply_all(s, cmds)),
        has_ship(s) ==> has_ship(apply_all(s, cmds)) && first_match(
            apply_all(s, cmds),
            ships(),
            0,
        ) == first_match(s, ships(), 0),
    decreases cmds.len(),
{
    let r = apply_all(s, cmds);
    if cmds.len() > 0 {
        let head = cmds.drop_last();
        let mid = apply_all(s, head);
        assert forall|k: int| 0 <= k < head.len() implies benign(#[trigger] head[k], s) by {
            assert(head[k] == cmds[k]);
        }
        lemma_flush_benign(s, head);
        assert(benign(cmds[cmds.len() - 1], s));
        assert forall|i: int| is_pilot(s, i) implies #[trigger] r[i] == s[i] by {
            assert(mid[i] == s[i]);
        }
        assert forall|i: int| #[trigger] is_pilot(r, i) implies is_pilot(s, i) by {
            if i < mid.len() {
                assert(is_pilot(mid, i));
            }
        }
    }
    if tidy(s) {
        assert forall|i: int| #[trigger] is_pilot(r, i) implies (r[i]->0).bullet is None && (
        r[i]->0).enemy is None && (r[i]->0).block is None by {
            assert(is_pilot(s, i));
            assert(r[i] == s[i]);
        }
        assert forall|i: int, j: int| #[trigger] is_pilot(r, i) && #[trigger] is_pilot(
            r,
            j,
        ) implies i == j by {
            assert(is_pilot(s, i) && is_pilot(s, j));
        }
    }
    if has_ship(s) {
        lemma_first_match(s, ships(), 0);
        let k = first_match(s, ships(), 0);
        assert(is_pilot(s, k));
        assert(r[k] == s[k]);
        assert forall|i: int| 0 <= i < k implies !accepted(r, i, ships()) by {
            assert(!accepted(s, i, ships()));
            assert(r[i] == s[i] || r[i] is None);
        }
        lemma_first_match(r, ships(), 0);
        let m = first_match(r, ships(), 0);
        if m > k {
            assert(!accepted(r, k, ships()));
        }
        if m < k {
            assert(!accepted(r, m, ships()));
        }
    }
}

/// Being of the same shape, and being steady, carry over a chain.
pub proof fn lemma_steady_chain(a: Slots, b: Slots, c: Slots)
    requires
        same_shape(a, b),
        same_shape(b, c),
    ensures
        same_shape(a, c),
        steady(a, b) && steady(b, c) ==> steady(a, c),
{
    assert forall|i: int| 0 <= i < a.len() implies shape(#[trigger] a[i]) == shape(c[i]) by {
        assert(shape(a[i]) == shape(b[i]));
        assert(shape(b[i]) == shape(c[i]));
    }
    if steady(a, b) && steady(b, c) {
        assert forall|i: int| 0 <= i < a.len() && (#[trigger] a[i]) is Some implies (
        a[i]->0).position == (c[i]->0).position by {
            assert(shape(a[i]) == shape(b[i]));
            assert(b[i] is Some);
        }
    }
}

/// Requests that are benign apart are benign together.
pub proof fn lemma_benign_append(a: Seq<Command>, b: Seq<Command>, s: Slots)
    requires
        all_benign(a, s),
        all_benign(b, s),
    ensures
        all_benign(a + b, s),
{
    assert forall|k: int| 0 <= k < (a + b).len() implies benign(#[trigger] (a + b)[k], s) by {
        if k < a.len() {
            assert((a + b)[k] == a[k]);
        } else {
            assert((a + b)[k] == b[k - a.len()]);
        }
    }
}

/// In a tidy store, what the systems ask for is benign: the bullets that
/// left the window, the bullets and enemies that collided, and the blocks
/// that met a wall are no pilots.
pub proof fn lemma_requests_are_benign(s: Slots, window: Window)
    requires
        tidy(s),
        s.len() <= usize::MAX,
    ensures
        all_benign(stray_requests(s, window, s.len()), s),
        all_benign(hit_requests(hits_of(s)), s),
        all_benign(crash_requests(s, s.len()), s),
{
    let strayed = stray_requests(s, window, s.len());
    lemma_stray_requests(s, window, s.len());
    assert forall|k: int| 0 <= k < strayed.len() implies benign(#[trigger] strayed[k], s) by {
        let i = choose|i: int|
            0 <= i < s.len() && strays(s, window, i) && strayed[k] == Command::Despawn(
                entity_at(i),
            );
        assert(accepted(s, i, projectiles()));
        assert(!is_pilot(s, i));
    }
    let hits = hits_of(s);
    let asked = hit_requests(hits);
    lemma_hits(s, s.len());
    lemma_hit_requests_name_hits(hits);
    assert forall|k: int| 0 <= k < asked.len() implies benign(#[trigger] asked[k], s) by {
        let h = hits[k / 2];
        assert(accepted(s, h.0.index as int, projectiles()));
        assert(exposed(s, h.1.index as int));
        assert(!is_pilot(s, h.0.index as int));
        assert(!is_pilot(s, h.1.index as int));
    }
    let crashed = crash_requests(s, s.len());
    lemma_crash_requests_name_blocks(s, s.len());
    assert forall|k: int| 0 <= k < crashed.len() implies benign(#[trigger] crashed[k], s) by {
        let b = choose|b: int|
            0 <= b < s.len() && accepted(s, b, blocks()) && crashed[k] == Command::Despawn(
                entity_at(b),
            );
        assert(!is_pilot(s, b));
    }
}

/// Within a tick, the next system finds what it counts on.
pub proof fn lemma_next_can_run(start: World, now: World, k: int)
    requires
        start.wf(),
        start.ready(),
        now.mid(start, k),
        0 <= k < start.systems.len(),
    ensures
        now.can_run(start.systems[k]),
{
    let id = start.systems[k];
    lemma_same_shape_first_match(start.store, now.store, ships(), 0);
    if id == SystemId::MoveBlocks {
        assert(steady(start.store, now.store));
        assert forall|i: int| #[trigger] accepted(now.store, i, blocks()) implies place(
            now.store,
            i,
        ) < i32::MAX by {
            lemma_same_shape_accepted(start.store, now.store, blocks(), i);
            assert(accepted(start.store, i, blocks()));
            assert(start.store[i] is Some);
        }
    }
    if needs_ship(id) {
        assert(has_ship(start.store));
    }
    if id == SystemId::SpawnEnemy {
        lemma_roomy_has_safe_spots(
            now.window,
            first_ship(now.store).x as int,
            first_ship(now.store).y as int,
        );
    }
}

/// Within a tick, each system hands on to the next what holds of the
/// world.
pub proof fn lemma_step_keeps_mid(start: World, pre: World, post: World, k: int)
    requires
        start.wf(),
        pre.mid(start, k),
        0 <= k < start.systems.len(),
        pre.ran(start.systems[k], post),
        pre.store.len() <= usize::MAX,
    ensures
        post.mid(start, k + 1),
        post.store.len() == pre.store.len(),
{
    reveal(World::ran);
    let id = start.systems[k];
    lemma_requests_are_benign(pre.store, pre.window);
    lemma_player_systems_keep_steady(pre.store, 0, 0);
    lemma_bullets_moved_steady(pre.store);
    lemma_enemies_moved_steady(pre.store, first_ship(pre.store));
    lemma_blocks_moved_shape(pre.store);
    match id {
        SystemId::FollowCursor => {
            let moves = pre.cursor_moved.pending(steering_reader());
            if moves.len() > 0 {
                let at = pre.window.centred(moves.last().x as int, moves.last().y as int);
                lemma_player_systems_keep_steady(pre.store, at.0 as i32, at.1 as i32);
            }
        },
        SystemId::FireBullet => {
            let added = shots(pre.store, pre.gun_state, pre.fire_held());
            assert(all_benign(added, pre.store));
            lemma_benign_append(pre.commands, added, pre.store);
        },
        SystemId::MoveBullet => {
            let added = stray_requests(pre.store, pre.window, pre.store.len());
            lemma_benign_append(pre.commands, added, pre.store);
        },
        SystemId::SpawnEnemy => {
            if spawn_due(pre.enemy_state) {
                assert forall|j: int| 0 <= j < post.commands.len() implies benign(
                    #[trigger] post.commands[j],
                    pre.store,
                ) by {
                    if j < pre.commands.len() {
                        assert(post.commands.drop_last()[j] == post.commands[j]);
                        assert(benign(pre.commands[j], pre.store));
                    }
                }
            }
        },
        SystemId::BulletEnemyCollision => {
            lemma_benign_append(pre.commands, hit_requests(hits_of(pre.store)), pre.store);
        },
        SystemId::BlockCollision => {
            lemma_benign_append(
                pre.commands,
                crash_requests(pre.store, pre.store.len()),
                pre.store,
            );
        },
        _ => {},
    }
    assert(same_shape(pre.store, post.store));
    lemma_same_shape_tidy(pre.store, post.store, post.commands);
    lemma_steady_chain(start.store, pre.store, post.store);
    assert forall|j: int|
        k + 1 <= j < post.systems.len() && #[trigger] post.systems[j]
            == SystemId::MoveBlocks implies steady(start.store, post.store) by {
        assert(steady(start.store, pre.store));
        assert(id != SystemId::MoveBlocks);
        assert(steady(pre.store, post.store));
    }
}

/// The systems after `id` is registered: it goes last, unless it was
/// registered before.
pub open spec fn registered(ids: Seq<SystemId>, id: SystemId) -> Seq<SystemId> {
    if ids.contains(id) {
        ids
    } else {
        ids.push(id)
    }
}

/// The world in which nothing has happened yet.
pub open spec fn fresh(window: Window) -> World {
    World {
        store: Seq::empty(),
        commands: Seq::empty(),
        gun_state: GunState { frames_to_fire: 0 },
        enemy_state: GlobalEnemyState { frames_to_next_enemy: 20, spawn_interval: 90 },
        window: window,
        mouse: InputState::idle(),
        keys: InputState::idle(),
        cursor_moved: EventLog { history: Seq::empty(), positions: seq![0nat, 0nat] },
        mouse_buttons: EventLog { history: Seq::empty(), positions: seq![0nat] },
        keyboard: EventLog { history: Seq::empty(), positions: seq![0nat] },
        game_over: EventLog { history: Seq::empty(), positions: seq![0nat, 0nat] },
        console: Seq::empty(),
        systems: Seq::empty(),
        spawns_player: false,
        spawns_camera: false,
        spawns_line: false,
        started: false,
    }
}

/// The startup phase leaves a tidy store, with a ship in it if and only
/// if the player was asked for.
pub proof fn lemma_startup_store(w: World)
    requires
        w.store.len() == 0,
    ensures
        tidy(apply_all(w.store, startup_requests(w))),
        has_ship(apply_all(w.store, startup_requests(w))) == w.spawns_player,
        apply_all(w.store, startup_requests(w)).len() <= 6,
{
    let cmds = startup_requests(w);
    let r = apply_all(w.store, cmds);
    assert forall|k: int| 0 <= k < cmds.len() implies (#[trigger] cmds[k]) is Spawn && ((
    cmds[k]->Spawn_0).player_ship is Some ==> w.spawns_player && k == 0 && cmds[k]
        == Command::Spawn(player_bundle())) by {}
    lemma_apply_spawns(w.store, cmds);
    assert(r.len() == cmds.len());
    assert forall|i: int| 0 <= i < r.len() implies #[trigger] r[i] == Some(cmds[i]->Spawn_0) by {}
    assert forall|i: int| #[trigger] is_pilot(r, i) implies i == 0 && w.spawns_player && r[i]
        == Some(player_bundle()) by {
        assert(r[i] == Some(cmds[i]->Spawn_0));
    }
    lemma_first_match(r, ships(), 0);
    if w.spawns_player {
        assert(cmds[0] == Command::Spawn(player_bundle()));
        assert(r[0] == Some(player_bundle()));
        assert(accepted(r, 0, ships()));
    } else {
        let m = first_match(r, ships(), 0);
        if m < r.len() {
            assert(is_pilot(r, m));
        }
    }
}

/// A system adds requests to the buffer and takes none back.
pub proof fn lemma_ran_extends(pre: World, id: SystemId, post: World)
    requires
        pre.ran(id, post),
    ensures
        pre.commands.len() <= post.commands.len(),
        forall|m: int| 0 <= m < pre.commands.len() ==> post.commands[m] == pre.commands[m],
{
    reveal(World::ran);
    if id == SystemId::SpawnEnemy && spawn_due(pre.enemy_state) {
        assert forall|m: int| 0 <= m < pre.commands.len() implies post.commands[m]
            == pre.commands[m] by {
            assert(post.commands.drop_last()[m] == post.commands[m]);
        }
    }
}

/// In the record of a tick, the state after `j` systems is what a tick
/// allows.
pub proof fn lemma_trace(pre: World, trace: Seq<World>, post: World, j: int)
    requires
        pre.wf(),
        ticked(pre, trace, post),
        0 <= j <= pre.systems.len(),
    ensures
        trace[j].mid(pre, j),
        trace[j].store.len() == pre.store.len(),
    decreases j,
{
    if j == 0 {
        assert(all_benign(pre.commands, pre.store));
    } else {
        lemma_trace(pre, trace, post, j - 1);
        assert(trace[j - 1].ran(pre.systems[j - 1], trace[j]));
        lemma_step_keeps_mid(pre, trace[j - 1], trace[j], j - 1);
    }
}

/// In the record of a tick, a request stays where it was put in the
/// buffer.
pub proof fn lemma_trace_keeps_requests(
    pre: World,
    trace: Seq<World>,
    post: World,
    i: int,
    j: int,
    m: int,
)
    requires
        ticked(pre, trace, post),
        0 <= i <= j <= pre.systems.len(),
        0 <= m < trace[i].commands.len(),
    ensures
        m < trace[j].commands.len(),
        trace[j].commands[m] == trace[i].commands[m],
    decreases j - i,
{
    if i < j {
        lemma_trace_keeps_requests(pre, trace, post, i, j - 1, m);
        assert(trace[j - 1].ran(pre.systems[j - 1], trace[j]));
        lemma_ran_extends(trace[j - 1], pre.systems[j - 1], trace[j]);
    }
}

/// The requests that the bullet mover adds name every bullet that leaves
/// the window.
proof fn lemma_mover_names_strays(before: World, after: World, i: int) -> (m: int)
    requires
        before.ran(SystemId::MoveBullet, after),
        strays(before.store, before.window, i),
    ensures
        0 <= m < after.commands.len(),
        after.commands[m] == Command::Despawn(entity_at(i)),
        0 <= i < before.store.len(),
{
    reveal(World::ran);
    let added = stray_requests(before.store, before.window, before.store.len());
    lemma_stray_requests(before.store, before.window, before.store.len());
    let c = Command::Despawn(entity_at(i));
    assert(added.contains(c));
    let a = choose|a: int| 0 <= a < added.len() && added[a] == c;
    assert(after.commands[before.commands.len() + a] == c);
    before.commands.len() + a
}

/// A bullet that leaves the window on a tick is absent from the store
/// when the tick is over.
pub proof fn lemma_strayed_bullet_is_gone(
    pre: World,
    trace: Seq<World>,
    post: World,
    k: int,
    i: int,
)
    requires
        pre.wf(),
        ticked(pre, trace, post),
        0 <= k < pre.systems.len(),
        pre.systems[k] == SystemId::MoveBullet,
        strays(trace[k].store, trace[k].window, i),
    ensures
        !live(post.store, entity_at(i)),
{
    let n = pre.systems.len() as int;
    let last = trace[n];
    lemma_trace(pre, trace, post, k);
    lemma_trace(pre, trace, post, n);
    assert(trace[k].ran(SystemId::MoveBullet, trace[k + 1]));
    let m = lemma_mover_names_strays(trace[k], trace[k + 1], i);
    lemma_trace_keeps_requests(pre, trace, post, k + 1, n, m);
    lemma_despawn_request_wins(last.store, last.commands, m, entity_at(i));
}

/// Whether slot `k` holds a ship that has arrived at its target.
pub open spec fn resting(s: Slots, k: int) -> bool {
    accepted(s, k, ships()) && arrived((s[k]->0).transform->0, (s[k]->0).player_ship->0)
}

/// Whether no pointer move waits for the player controller.
pub open spec fn pointer_is_still(w: World) -> bool {
    w.cursor_moved.pending(steering_reader()).len() == 0
}

/// No system moves or turns a ship that has arrived while the pointer is
/// still.
pub proof fn lemma_step_keeps_resting_ship(start: World, pre: World, post: World, j: int, k: int)
    requires
        pre.mid(start, j),
        0 <= j < start.systems.len(),
        pre.ran(start.systems[j], post),
        resting(pre.store, k),
        pointer_is_still(pre),
    ensures
        post.store[k] == pre.store[k],
        pointer_is_still(post),
{
    reveal(World::ran);
    assert(is_pilot(pre.store, k));
    match start.systems[j] {
        SystemId::MovePlayer => {
            lemma_arrived_ships_rest(pre.store, k);
        },
        SystemId::MoveBullet => {
            assert(!accepted(pre.store, k, projectiles()));
        },
        SystemId::MoveEnemy => {
            assert(!accepted(pre.store, k, foes()));
        },
        SystemId::MoveBlocks => {
            assert(!accepted(pre.store, k, blocks()));
        },
        _ => {},
    }
}

/// Through the record of a tick, a ship that has arrived stays as it is
/// while the pointer is still.
pub proof fn lemma_trace_keeps_resting_ship(
    pre: World,
    trace: Seq<World>,
    post: World,
    j: int,
    k: int,
)
    requires
        pre.wf(),
        ticked(pre, trace, post),
        0 <= j <= pre.systems.len(),
        resting(pre.store, k),
        pointer_is_still(pre),
    ensures
        trace[j].store[k] == pre.store[k],
        pointer_is_still(trace[j]),
    decreases j,
{
    if j > 0 {
        lemma_trace_keeps_resting_ship(pre, trace, post, j - 1, k);
        lemma_trace(pre, trace, post, j - 1);
        assert(trace[j - 1].ran(pre.systems[j - 1], trace[j]));
        lemma_step_keeps_resting_ship(pre, trace[j - 1], trace[j], j - 1, k);
    }
}

/// The player never drifts: once the ship is less than a unit from its
/// target, a tick leaves its place and its heading as they are, until a
/// pointer move comes in.
pub proof fn lemma_arrived_player_rests(pre: World, trace: Seq<World>, post: World)
    requires
        pre.wf(),
        ticked(pre, trace, post),
        has_ship(pre.store),
        resting(pre.store, first_match(pre.store, ships(), 0)),
        pointer_is_still(pre),
    ensures
        has_ship(post.store),
        first_ship(post.store) == first_ship(pre.store),
        pointer_is_still(post),
{
    let n = pre.systems.len() as int;
    let k = first_match(pre.store, ships(), 0);
    let last = trace[n];
    lemma_trace(pre, trace, post, n);
    lemma_trace_keeps_resting_ship(pre, trace, post, n, k);
    lemma_same_shape_first_match(pre.store, last.store, ships(), 0);
    lemma_flush_benign(last.store, last.commands);
    assert(is_pilot(last.store, k));
}

/// Despawn is terminal: an entity that is gone before a tick is gone
/// after it.
pub proof fn lemma_gone_stays_gone(pre: World, trace: Seq<World>, post: World, e: Entity)
    requires
        pre.wf(),
        ticked(pre, trace, post),
        e.index < pre.store.len(),
        !live(pre.store, e),
    ensures
        !live(post.store, e),
{
    let n = pre.systems.len() as int;
    let last = trace[n];
    lemma_trace(pre, trace, post, n);
    assert(shape(pre.store[e.index as int]) == shape(last.store[e.index as int]));
    lemma_apply_keeps_dead(last.store, last.commands, e);
}

/// Asks for the entity that stands for the camera: one without
/// components, which the host dresses.
pub fn setup(commands: &mut Commands)
    ensures
        final(commands)@ == old(commands)@.push(Command::Spawn(Components::none())),
{
    commands.spawn(Components::empty());
}

/// The scheduler with the world that it runs.
pub struct App {
    store: Store,
    commands: Commands,
    resources: Resources,
    cursor_moved: Events<CursorMoved>,
    mouse_buttons: Events<MouseButtonInput>,
    keyboard: Events<KeyboardInput>,
    game_over: Events<GameOverEvent>,
    console: Vec<Message>,
    systems: Vec<SystemId>,
    spawns_player: bool,
    spawns_camera: bool,
    spawns_line: bool,
    started: bool,
}

impl View for App {
    type V = World;

    closed spec fn view(&self) -> World {
        World {
            store: self.store@,
            commands: self.commands@,
            gun_state: self.resources@.gun_state,
            enemy_state: self.resources@.enemy_state,
            window: self.resources@.window,
            mouse: self.resources@.mouse,
            keys: self.resources@.keys,
            cursor_moved: self.cursor_moved@,
            mouse_buttons: self.mouse_buttons@,
            keyboard: self.keyboard@,
            game_over: self.game_over@,
            console: self.console@,
            systems: self.systems@,
            spawns_player: self.spawns_player,
            spawns_camera: self.spawns_camera,
            spawns_line: self.spawns_line,
            started: self.started,
        }
    }
}

impl App {
    /// The invariant of the event logs.
    pub closed spec fn logs_wf(&self) -> bool {
        &&& self.cursor_moved.wf()
        &&& self.mouse_buttons.wf()
        &&& self.keyboard.wf()
        &&& self.game_over.wf()
    }

    /// What holds of the scheduler between ticks.
    pub open spec fn wf(&self) -> bool {
        self.logs_wf() && self@.wf()
    }

    /// The scheduler of a world in which nothing has happened yet, with
    /// the resources at their defaults.
    pub fn new(window: Window) -> (app: App)
        ensures
            app.wf(),
            app@ == fresh(window),
    {
        let mut cursor_moved: Events<CursorMoved> = Events::new();
        cursor_moved.add_reader();
        cursor_moved.add_reader();
        let mut mouse_buttons: Events<MouseButtonInput> = Events::new();
        mouse_buttons.add_reader();
        let mut keyboard: Events<KeyboardInput> = Events::new();
        keyboard.add_reader();
        let mut game_over: Events<GameOverEvent> = Events::new();
        game_over.add_reader();
        game_over.add_reader();
        let app = App {
            store: Store::new(),
            commands: Commands::new(),
            resources: Resources::new(window),
            cursor_moved,
            mouse_buttons,
            keyboard,
            game_over,
            console: Vec::new(),
            systems: Vec::new(),
            spawns_player: false,
            spawns_camera: false,
            spawns_line: false,
            started: false,
        };
        assert(app@.cursor_moved.positions =~= seq![0nat, 0nat]);
        assert(app@.mouse_buttons.positions =~= seq![0nat]);
        assert(app@.keyboard.positions =~= seq![0nat]);
        assert(app@.game_over.positions =~= seq![0nat, 0nat]);
        app
    }

    /// Registers `id` to run on every tick, after the systems registered
    /// so far. A system is registered once; asking again changes nothing.
    pub fn add_system(&mut self, id: SystemId)
        requires
            old(self).wf(),
        ensures
            final(self).wf(),
            final(self)@ == (World { systems: registered(old(self)@.systems, id), ..old(self)@ }),
    {
        let mut k: usize = 0;
        while k < self.systems.len()
            invariant
                k <= self.systems.len(),
                self.wf(),
                self@ == old(self)@,
                forall|j: int| 0 <= j < k ==> self.systems@[j] != id,
            decreases self.systems.len() - k,
        {
            if self.systems[k] == id {
                assert(self.systems@[k as int] == id);
                return ;
            }
            k += 1;
        }
        self.systems.push(id);
    }

    /// Registers `id` to run in the startup phase.
    pub fn add_startup_system(&mut self, id: StartupId)
        requires
            old(self).wf(),
        ensures
            final(self).wf(),
            final(self)@ == (match id {
                StartupId::SpawnPlayer => World { spawns_player: true, ..old(self)@ },
                StartupId::SpawnCamera => World { spawns_camera: true, ..old(self)@ },
                StartupId::SpawnLine => World { spawns_line: true, ..old(self)@ },
            }),
    {
        match id {
            StartupId::SpawnPlayer => {
                self.spawns_player = true;
            },
            StartupId::SpawnCamera => {
                self.spawns_camera = true;
            },
            StartupId::SpawnLine => {
                self.spawns_line = true;
            },
        }
    }

    /// Puts `g` in the place of the gun's state. A state with a negative
    /// count is refused, and `false` is returned.
    pub fn insert_gun_state(&mut self, g: GunState) -> (taken: bool)
        requires
            old(self).wf(),
        ensures
            final(self).wf(),
            taken == (g.frames_to_fire >= 0),
            final(self)@ == (if taken {
                World { gun_state: g, ..old(self)@ }
            } else {
                old(self)@
            }),
    {
        if g.frames_to_fire >= 0 {
            self.resources.gun_state = g;
            true
        } else {
            false
        }
    }

    /// Puts `g` in the place of the spawner's state.
    pub fn insert_enemy_state(&mut self, g: GlobalEnemyState)
        requires
            old(self).wf(),
        ensures
            final(self).wf(),
            final(self)@ == (World { enemy_state: g, ..old(self)@ }),
    {
        self.resources.enemy_state = g;
    }

    /// Runs the startup phase: the registered startup systems make their
    /// requests, and the requests are applied. The phase runs once; a
    /// second call changes nothing.
    pub fn startup(&mut self)
        requires
            old(self).wf(),
        ensures
            final(self).wf(),
            old(self)@.started ==> final(self)@ == old(self)@,
            !old(self)@.started ==> final(self)@ == (World {
                store: apply_all(old(self)@.store, startup_requests(old(self)@)),
                started: true,
                ..old(self)@
            }) && has_ship(final(self)@.store) == old(self)@.spawns_player,
    {
        if self.started {
            return ;
        }
        if self.spawns_player {
            crate::player_ship_plugin::setup(&mut self.commands);
        }
        if self.spawns_camera {
            setup(&mut self.commands);
        }
        if self.spawns_line {
            crate::blocks::setup(&mut self.commands);
        }
        assert(old(self)@.commands =~= Seq::empty());
        assert(self.commands@ =~= startup_requests(old(self)@));
        self.commands.flush(&mut self.store);
        self.started = true;
        proof {
            lemma_startup_store(old(self)@);
            self.store.lemma_len_fits();
        }
    }

    /// Whether a tick can run.
    pub fn is_ready(&self) -> (b: bool)
        ensures
            b == self@.ready(),
    {
        if !self.started {
            return false;
        }
        let ship: bool = player_transform(&self.store).is_some();
        let room: bool = self.resources.window.is_roomy();
        let free: bool = can_move(&self.store);
        let mut k: usize = 0;
        while k < self.systems.len()
            invariant
                k <= self.systems.len(),
                ship == has_ship(self@.store),
                room == self@.window.roomy(),
                free == blocks_can_move(self@.store),
                forall|j: int| 0 <= j < k && needs_ship(#[trigger] self@.systems[j]) ==> ship,
                forall|j: int|
                    0 <= j < k && #[trigger] self@.systems[j] == SystemId::SpawnEnemy ==> room,
                forall|j: int|
                    0 <= j < k && #[trigger] self@.systems[j] == SystemId::MoveBlocks ==> free,
            decreases self.systems.len() - k,
        {
            let id = self.systems[k];
            let wants_ship: bool = id == SystemId::FireBullet || id == SystemId::SpawnEnemy || id
                == SystemId::MoveEnemy;
            if (wants_ship && !ship) || (id == SystemId::SpawnEnemy && !room) || (id
                == SystemId::MoveBlocks && !free) {
                assert(self@.systems[k as int] == id);
                return false;
            }
            k += 1;
        }
        true
    }

    /// Runs one tick if a tick can run, and tells whether it did. This is
    /// the entry for a host that cannot show that the schedule is ready.
    pub fn tick_if_ready(&mut self) -> (ran: bool)
        requires
            old(self).wf(),
        ensures
            final(self).wf(),
            ran == old(self)@.ready(),
            ran ==> exists|trace: Seq<World>| ticked(old(self)@, trace, final(self)@),
            !ran ==> final(self)@ == old(self)@,
    {
        if self.is_ready() {
            self.tick();
            true
        } else {
            false
        }
    }

    /// Runs one tick: every registered system runs once, in the order of
    /// registration, and the requests they made are applied, first to
    /// last. Entries of the event logs that every reader has passed are
    /// let go.
    pub fn tick(&mut self)
        requires
            old(self).wf(),
            old(self)@.ready(),
        ensures
            final(self).wf(),
            exists|trace: Seq<World>| ticked(old(self)@, trace, final(self)@),
            final(self)@.systems == old(self)@.systems,
            final(self)@.window == old(self)@.window,
            final(self)@.store.len() >= old(self)@.store.len(),
            has_ship(old(self)@.store) ==> has_ship(final(self)@.store),
            !old(self)@.systems.contains(SystemId::MoveBlocks) ==> final(self)@.ready(),
    {
        let ghost start = self@;
        let ghost mut trace: Seq<World> = seq![self@];
        let n: usize = self.systems.len();
        let mut k: usize = 0;
        proof {
            self.store.lemma_len_fits();
            assert(all_benign(self@.commands, self@.store));
            assert(self@.mid(start, 0));
        }
        while k < n
            invariant
                k <= n,
                n == start.systems.len(),
                start == old(self)@,
                start.wf(),
                start.ready(),
                self.logs_wf(),
                self@.mid(start, k as int),
                self@.store.len() == start.store.len(),
                trace.len() == k + 1,
                trace[0] == start,
                trace[k as int] == self@,
                forall|j: int|
                    0 <= j < k ==> (#[trigger] trace[j]).ran(start.systems[j], trace[j + 1]),
            decreases n - k,
        {
            let id = self.systems[k];
            let ghost before = self@;
            proof {
                lemma_next_can_run(start, before, k as int);
            }
            self.run_system(id);
            proof {
                lemma_step_keeps_mid(start, before, self@, k as int);
                trace = trace.push(self@);
            }
            k += 1;
        }
        let ghost last = self@;
        self.commands.flush(&mut self.store);
        self.cursor_moved.compact();
        self.mouse_buttons.compact();
        self.keyboard.compact();
        self.game_over.compact();
        proof {
            self.store.lemma_len_fits();
            lemma_flush_benign(last.store, last.commands);
            lemma_same_shape_tidy(start.store, last.store, last.commands);
            assert(self@ == flushed(last));
            assert(trace.last() == last);
            assert(ticked(start, trace, self@));
            if !start.systems.contains(SystemId::MoveBlocks) {
                assert forall|j: int|
                    0 <= j < self@.systems.len() && needs_ship(
                        #[trigger] self@.systems[j],
                    ) implies has_ship(self@.store) by {
                    assert(needs_ship(start.systems[j]));
                }
                assert forall|j: int|
                    0 <= j < self@.systems.len() && #[trigger] self@.systems[j]
                        == SystemId::MoveBlocks implies blocks_can_move(self@.store) by {
                    assert(start.systems.contains(start.systems[j]));
                }
            }
        }
    }

    /// The resource store, to read.
    pub fn resources(&self) -> (r: &Resources)
        ensures
            r@.gun_state == self@.gun_state,
            r@.enemy_state == self@.enemy_state,
            r@.window == self@.window,
            r@.mouse == self@.mouse,
            r@.keys == self@.keys,
    {
        &self.resources
    }

    /// The entity store.
    pub fn store(&self) -> (s: &Store)
        ensures
            s@ == self@.store,
    {
        &self.store
    }

    /// The gun's state.
    pub fn gun_state(&self) -> (g: GunState)
        ensures
            g == self@.gun_state,
    {
        self.resources.gun_state
    }

    /// The spawner's state.
    pub fn enemy_state(&self) -> (g: GlobalEnemyState)
        ensures
            g == self@.enemy_state,
    {
        self.resources.enemy_state
    }

    /// The size of the window.
    pub fn window(&self) -> (w: Window)
        ensures
            w == self@.window,
    {
        self.resources.window
    }

    /// Whether the startup phase is over.
    pub fn is_started(&self) -> (b: bool)
        ensures
            b == self@.started,
    {
        self.started
    }

    /// Number of registered systems.
    pub fn system_count(&self) -> (n: usize)
        ensures
            n == self@.systems.len(),
    {
        self.systems.len()
    }

    /// The system that runs in place `k` of a tick.
    pub fn system_at(&self, k: usize) -> (r: Option<SystemId>)
        ensures
            r == (if k < self@.systems.len() {
                Some(self@.systems[k as int])
            } else {
                None
            }),
    {
        if k < self.systems.len() {
            Some(self.systems[k])
        } else {
            None
        }
    }

    /// The host reports that the pointer moved to `(x, y)`, in window
    /// coordinates.
    pub fn send_cursor_moved(&mut self, x: i32, y: i32)
        requires
            old(self).wf(),
        ensures
            final(self).wf(),
            final(self)@ == (World {
                cursor_moved: old(self)@.cursor_moved.sent(CursorMoved { x, y }),
                ..old(self)@
            }),
    {
        self.cursor_moved.send(CursorMoved { x, y });
    }

    /// The host reports that a mouse button went down or up: the table
    /// of the mouse takes note, and the event is sent.
    pub fn send_mouse_button(&mut self, button: MouseButton, pressed: bool)
        requires
            old(self).wf(),
        ensures
            final(self).wf(),
            final(self)@ == (World {
                mouse: if pressed {
                    old(self)@.mouse.press(button.code_of())
                } else {
                    old(self)@.mouse.release(button.code_of())
                },
                mouse_buttons: old(self)@.mouse_buttons.sent(MouseButtonInput { button, pressed }),
                ..old(self)@
            }),
    {
        if pressed {
            self.resources.mouse.press(button.code());
        } else {
            self.resources.mouse.release(button.code());
        }
        self.mouse_buttons.send(MouseButtonInput { button, pressed });
    }

    /// The host reports that a key went down or up: the table of the
    /// keyboard takes note if the key has a name, and the event is sent.
    pub fn send_key(&mut self, key_code: Option<KeyCode>, pressed: bool)
        requires
            old(self).wf(),
        ensures
            final(self).wf(),
            final(self)@ == (World {
                keys: match key_code {
                    Some(key) => if pressed {
                        old(self)@.keys.press(key.code_of())
                    } else {
                        old(self)@.keys.release(key.code_of())
                    },
                    None => old(self)@.keys,
                },
                keyboard: old(self)@.keyboard.sent(KeyboardInput { key_code, pressed }),
                ..old(self)@
            }),
    {
        if let Some(key) = key_code {
            if pressed {
                self.resources.keys.press(key.code());
            } else {
                self.resources.keys.release(key.code());
            }
        }
        self.keyboard.send(KeyboardInput { key_code, pressed });
    }

    /// The host closes a frame: the tables forget what went down or up.
    pub fn end_frame(&mut self)
        requires
            old(self).wf(),
        ensures
            final(self).wf(),
            final(self)@ == (World {
                mouse: old(self)@.mouse.settle(),
                keys: old(self)@.keys.settle(),
                ..old(self)@
            }),
    {
        self.resources.mouse.clear();
        self.resources.keys.clear();
    }

    /// The host reports the new size of the window, in sub-units.
    pub fn resize(&mut self, width: u32, height: u32)
        requires
            old(self).wf(),
        ensures
            final(self).wf(),
            final(self)@ == (World { window: Window { width, height }, ..old(self)@ }),
    {
        self.resources.window = Window::new(width, height);
    }

    /// Hands the lines that the reporting systems wrote to the host and
    /// empties the console.
    pub fn take_console(&mut self) -> (lines: Vec<Message>)
        requires
            old(self).wf(),
        ensures
            final(self).wf(),
            lines@ == old(self)@.console,
            final(self)@ == (World { console: Seq::empty(), ..old(self)@ }),
    {
        let mut lines: Vec<Message> = Vec::new();
        let mut i: usize = 0;
        while i < self.console.len()
            invariant
                i <= self.console.len(),
                self.wf(),
                self@ == old(self)@,
                lines@ == self.console@.take(i as int),
            decreases self.console.len() - i,
        {
            lines.push(self.console[i]);
            assert(self.console@.take(i + 1) =~= self.console@.take(i as int).push(
                self.console@[i as int],
            ));
            i += 1;
        }
        assert(self.console@.take(self.console@.len() as int) =~= self.console@);
        self.console.clear();
        lines
    }

    /// Tells the host how many game-over signals came since it last
    /// asked.
    pub fn take_game_over(&mut self) -> (n: usize)
        requires
            old(self).wf(),
        ensures
            final(self).wf(),
            n == old(self)@.game_over.pending(host_reader()).len(),
            final(self)@ == (World {
                game_over: old(self)@.game_over.drained(host_reader()),
                ..old(self)@
            }),
    {
        let signals = self.game_over.drain(ReaderId { index: 1 });
        signals.len()
    }

    /// The host puts an entity into the world between two ticks. A bundle
    /// with a `PlayerShip` is refused, as is any bundle before the startup
    /// phase: the player comes from the startup phase alone.
    pub fn spawn(&mut self, bundle: Components) -> (r: Option<Entity>)
        requires
            old(self).wf(),
        ensures
            final(self).wf(),
            r is Some <==> old(self)@.started && bundle.player_ship is None,
            r matches Some(e) ==> e.index == old(self)@.store.len() && final(self)@ == (World {
                store: spawned(old(self)@.store, bundle),
                ..old(self)@
            }),
            r is None ==> final(self)@ == old(self)@,
            has_ship(final(self)@.store) == has_ship(old(self)@.store),
    {
        if self.started && bundle.player_ship.is_none() {
            let ghost cmds = seq![Command::Spawn(bundle)];
            proof {
                reveal_with_fuel(apply_all, 2);
                assert(cmds.drop_last() =~= Seq::empty());
                assert(apply_all(self@.store, cmds) == spawned(self@.store, bundle));
                assert(all_benign(cmds, self@.store));
                lemma_flush_benign(self@.store, cmds);
                let was = self@.store;
                let now = spawned(was, bundle);
                lemma_first_match(was, ships(), 0);
                lemma_first_match(now, ships(), 0);
                let m = first_match(now, ships(), 0);
                if m < now.len() {
                    assert(is_pilot(now, m));
                    assert(is_pilot(was, m));
                    assert(now[m] == was[m]);
                    assert(accepted(was, m, ships()));
                }
            }
            let e = self.store.spawn_bundle(bundle);
            proof {
                self.store.lemma_len_fits();
            }
            Some(e)
        } else {
            None
        }
    }

    /// Runs the system `id` once.
    pub fn run_system(&mut self, id: SystemId)
        requires
            old(self).logs_wf(),
            old(self)@.can_run(id),
        ensures
            final(self).logs_wf(),
            old(self)@.ran(id, final(self)@),
    {
        reveal(World::ran);
        match id {
            SystemId::FollowCursor => {
                follow_cursor_system(
                    &mut self.store,
                    &mut self.cursor_moved,
                    ReaderId { index: 0 },
                    &self.resources.window,
                );
            },
            SystemId::MovePlayer => {
                move_player_system(&mut self.store);
            },
            SystemId::FireBullet => {
                fire_bullet_system(
                    &mut self.commands,
                    &self.store,
                    &mut self.resources.gun_state,
                    &self.resources.mouse,
                );
            },
            SystemId::MoveBullet => {
                move_bullet_system(&mut self.commands, &mut self.store, &self.resources.window);
            },
            SystemId::SpawnEnemy => {
                spawn_enemy_system(
                    &mut self.commands,
                    &mut self.resources.enemy_state,
                    &self.store,
                    &self.resources.window,
                );
            },
            SystemId::MoveEnemy => {
                move_enemy_system(&mut self.store);
            },
            SystemId::BulletEnemyCollision => {
                bullet_enemy_collision_system(&mut self.commands, &self.store);
            },
            SystemId::PlayerEnemyCollision => {
                player_enemy_collision_system(&self.store, &mut self.game_over);
            },
            SystemId::MoveBlocks => {
                move_block_system(&mut self.store);
            },
            SystemId::BlockCollision => {
                collision_system(&mut self.commands, &self.store);
            },
            SystemId::PrintBlocks => {
                print_system(&self.store, &mut self.console);
            },
            SystemId::MouseMove => {
                mouse_move_system(&mut self.cursor_moved, ReaderId { index: 1 }, &mut self.console);
            },
            SystemId::MouseClick => {
                mouse_click_system(
                    &mut self.mouse_buttons,
                    ReaderId { index: 0 },
                    &mut self.console,
                );
            },
            SystemId::MouseState => {
                mouse_state_system(&self.resources.mouse, &mut self.console);
            },
            SystemId::KeyboardEvent => {
                keyboard_event_system(&mut self.keyboard, ReaderId { index: 0 }, &mut self.console);
            },
            SystemId::KeyboardState => {
                keyboard_state_system(&self.resources.keys, &mut self.console);
            },
            SystemId::SendGameOver => {
                send_game_over_event_system(&self.resources.mouse, &mut self.game_over);
            },
            SystemId::GameOverEcho => {
                game_over_event_system(&mut self.game_over, ReaderId { index: 0 }, &mut self.console);
            },
        }
    }
}

} // verus!
