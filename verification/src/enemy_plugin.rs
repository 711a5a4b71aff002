//! Enemies: where and when they appear, and how they home in on the player.

use crate::commands::{Command, Commands};
use crate::components::{Enemy, GlobalEnemyState, Transform};
use crate::fixed::{
    advance,
    distance_squared,
    lemma_step_toward,
    length_sq,
    saturate,
    step_toward,
    step_vector,
};
use crate::player_ship_plugin::{first_ship, has_ship, player_transform};
use crate::schedule::{registered, App, SystemId, World};
use crate::store::{
    accepted,
    shape,
    steady,
    Component,
    ComponentKind,
    Components,
    Filter,
    KindSet,
    Slots,
    Store,
};
use crate::window::{
    far_corner,
    lemma_far_corner_is_farthest,
    max_extent,
    safe_from,
    SAFE_DISTANCE_SQ,
    Window,
};
use vstd::prelude::*;

verus! {

/// Distance an enemy covers in one tick: half a world unit.
pub const ENEMY_SPEED: u32 = 500_000;

/// Ticks a new enemy stays out of collisions.
pub const ENEMY_GRACE: i32 = 10;

/// Random spots tried for a new enemy before the far corner is taken.
pub const PLACEMENT_TRIES: u32 = 1024;

/// Whether the spawner places an enemy on a tick that it enters as `g`.
pub open spec fn spawn_due(g: GlobalEnemyState) -> bool {
    g.frames_to_next_enemy <= 0
}

/// The spawner one tick later: it counts down while the countdown is
/// positive and restarts from the interval when it places an enemy.
pub open spec fn spawner_next(g: GlobalEnemyState) -> GlobalEnemyState {
    if spawn_due(g) {
        GlobalEnemyState { frames_to_next_enemy: g.spawn_interval, spawn_interval: g.spawn_interval }
    } else {
        GlobalEnemyState {
            frames_to_next_enemy: (g.frames_to_next_enemy - 1) as i32,
            spawn_interval: g.spawn_interval,
        }
    }
}

/// The components of a new enemy: the given transform and a full grace
/// period.
pub open spec fn enemy_bundle(t: Transform) -> Components {
    Components {
        transform: Some(t),
        enemy: Some(Enemy { frames_to_appear: ENEMY_GRACE }),
        ..Components::none()
    }
}

/// The spot of the window that the samples `rx` and `ry` select. Samples
/// spread evenly over the `u32` range select spots spread evenly over the
/// window.
pub open spec fn spot(window: Window, rx: u32, ry: u32) -> (int, int) {
    (
        window.left() + (rx * window.width) / 0x1_0000_0000,
        window.bottom() + (ry * window.height) / 0x1_0000_0000,
    )
}

/// Whether `t` is a fit place for a new enemy: a spot of the window, at
/// the safe distance from the player, facing up.
pub open spec fn valid_spawn(t: Transform, player: Transform, window: Window) -> bool {
    &&& t == Transform::at(t.x, t.y)
    &&& window.covers(t.x as int, t.y as int)
    &&& safe_from(t.x as int, t.y as int, player.x as int, player.y as int)
}

/// Whether `c` asks for a new enemy at a fit place.
pub open spec fn is_enemy_spawn(c: Command, player: Transform, window: Window) -> bool {
    &&& c matches Command::Spawn(bundle)
    &&& bundle.transform is Some
    &&& bundle == enemy_bundle(bundle.transform->0)
    &&& valid_spawn(bundle.transform->0, player, window)
}

/// The filter of the enemies that have a place: those with a `Transform`.
pub open spec fn foes() -> Filter {
    Filter {
        with: KindSet::nothing().plus(ComponentKind::Transform).plus(ComponentKind::Enemy),
        without: KindSet::nothing(),
    }
}

/// An enemy's transform after one tick, with the player at `player`: the
/// enemy moves `ENEMY_SPEED` toward the player, whether or not its grace
/// period is over. One that stands on the player has no direction to go
/// and stays.
pub open spec fn enemy_step(t: Transform, player: Transform) -> Transform {
    let step = step_toward(player.x - t.x, player.y - t.y, ENEMY_SPEED as int);
    Transform {
        x: advance(t.x as int, step.0) as i32,
        y: advance(t.y as int, step.1) as i32,
        heading_x: t.heading_x,
        heading_y: t.heading_y,
    }
}

/// An enemy's grace period after one tick.
pub open spec fn enemy_aged(e: Enemy) -> Enemy {
    if e.active() {
        e
    } else {
        Enemy { frames_to_appear: (e.frames_to_appear - 1) as i32 }
    }
}

/// The store after every enemy has aged and moved, with the player at
/// `player`.
pub open spec fn enemies_moved(s: Slots, player: Transform) -> Slots {
    Seq::new(
        s.len(),
        |i: int|
            if accepted(s, i, foes()) {
                Some(
                    (s[i]->0).with(
                        Component::Transform(
                            enemy_step((s[i]->0).transform->0, player),
                        ),
                    ).with(Component::Enemy(enemy_aged((s[i]->0).enemy->0))),
                )
            } else {
                s[i]
            },
    )
}

/// Ageing and chasing change component values only.
pub proof fn lemma_enemies_moved_steady(s: Slots, player: Transform)
    ensures
        steady(s, enemies_moved(s, player)),
{
    assert forall|i: int| 0 <= i < s.len() implies shape(#[trigger] s[i]) == shape(
        enemies_moved(s, player)[i],
    ) by {}
}

/// A step of an enemy is never longer than `ENEMY_SPEED`, and it points
/// toward the player on each axis.
pub proof fn lemma_enemy_keeps_its_speed(t: Transform, player: Transform)
    ensures
        ({
            let step = step_toward(player.x - t.x, player.y - t.y, ENEMY_SPEED as int);
            &&& length_sq(step.0, step.1) <= ENEMY_SPEED * ENEMY_SPEED
            &&& player.x >= t.x ==> enemy_step(t, player).x >= t.x
            &&& player.x <= t.x ==> enemy_step(t, player).x <= t.x
            &&& player.y >= t.y ==> enemy_step(t, player).y >= t.y
            &&& player.y <= t.y ==> enemy_step(t, player).y <= t.y
        }),
{
    lemma_step_toward(player.x - t.x, player.y - t.y, ENEMY_SPEED as int);
}

/// Draws a number with `rand::random`, which takes it from the thread's
/// generator. Nothing is promised of the value. The call takes no input;
/// it can fail only where the operating system has no entropy to seed
/// the generator with, which like running out of memory ends the
/// program.
#[verifier::external_body]
fn random_u32() -> (r: u32) {
    rand::random::<u32>()
}

/// On one axis, the offset into an extent that a sample selects.
fn sample_offset(extent: u32, r: u32) -> (q: u32)
    ensures
        q as int == (r * extent) / 0x1_0000_0000,
        q < max_extent(extent),
{
    let wide: u64 = r as u64;
    let e: u64 = extent as u64;
    assert(wide * e <= 0xffff_fffe_0000_0001) by (nonlinear_arith)
        requires
            wide <= 0xffff_ffff,
            e <= 0xffff_ffff,
    ;
    let q: u64 = wide * e / 0x1_0000_0000;
    assert(q < e || e == 0 && q == 0) by (nonlinear_arith)
        requires
            q == (wide * e) / 0x1_0000_0000,
            wide < 0x1_0000_0000,
            0 <= e,
    ;
    q as u32
}

/// The spot of the window that the samples `rx` and `ry` select.
pub fn sample_spot(window: &Window, rx: u32, ry: u32) -> (r: (i32, i32))
    ensures
        (r.0 as int, r.1 as int) == spot(*window, rx, ry),
        window.covers(r.0 as int, r.1 as int),
{
    let qx: u32 = sample_offset(window.width, rx);
    let qy: u32 = sample_offset(window.height, ry);
    let x: i64 = qx as i64 - (window.width / 2) as i64;
    let y: i64 = qy as i64 - (window.height / 2) as i64;
    (x as i32, y as i32)
}

/// Decides on the spot that the samples `rx` and `ry` select: the spot is
/// taken if it is at the safe distance from the player, else rejected.
pub fn place_enemy(player_transform: &Transform, window: &Window, rx: u32, ry: u32) -> (r: Option<
    Transform,
>)
    ensures
        r == (if safe_from(
            spot(*window, rx, ry).0,
            spot(*window, rx, ry).1,
            player_transform.x as int,
            player_transform.y as int,
        ) {
            Some(Transform::at(spot(*window, rx, ry).0 as i32, spot(*window, rx, ry).1 as i32))
        } else {
            None
        }),
        r matches Some(t) ==> valid_spawn(t, *player_transform, *window),
{
    let at = sample_spot(window, rx, ry);
    // Avoid places near the player, where an enemy would collide at once.
    if distance_squared(at.0, at.1, player_transform.x, player_transform.y) >= SAFE_DISTANCE_SQ {
        Some(Transform::from_translation(at.0, at.1))
    } else {
        None
    }
}

/// The corner of the window that is farthest from the player.
pub fn farthest_corner(player_transform: &Transform, window: &Window) -> (r: (i32, i32))
    ensures
        (r.0 as int, r.1 as int) == far_corner(
            *window,
            player_transform.x as int,
            player_transform.y as int,
        ),
{
    window.far_spot(player_transform.x, player_transform.y)
}

/// Picks the place of a new enemy in a window of `win_w` by `win_h`
/// sub-units: random spots are tried until one is at the safe distance
/// from the player. Should `PLACEMENT_TRIES` spots in a row be too near,
/// the corner farthest from the player is taken. The window must have a
/// spot at the safe distance from the player; the far corner is then one.
pub fn create_enemy_position(player_transform: &Transform, win_w: u32, win_h: u32) -> (t: Transform)
    requires
        (Window { width: win_w, height: win_h }).has_safe_spot(
            player_transform.x as int,
            player_transform.y as int,
        ),
    ensures
        valid_spawn(t, *player_transform, Window { width: win_w, height: win_h }),
{
    let window = Window::new(win_w, win_h);
    let mut tries: u32 = 0;
    while tries < PLACEMENT_TRIES
        invariant
            window == (Window { width: win_w, height: win_h }),
        decreases PLACEMENT_TRIES - tries,
    {
        let rx: u32 = random_u32();
        let ry: u32 = random_u32();
        if let Some(t) = place_enemy(player_transform, &window, rx, ry) {
            return t;
        }
        tries += 1;
    }
    proof {
        lemma_far_corner_is_farthest(
            window,
            player_transform.x as int,
            player_transform.y as int,
            window.left(),
            window.bottom(),
        );
    }
    let corner = farthest_corner(player_transform, &window);
    Transform::from_translation(corner.0, corner.1)
}

/// Asks for a new enemy at `place` and restarts the countdown.
pub fn spawn_enemy_at(
    commands: &mut Commands,
    global_state: &mut GlobalEnemyState,
    place: Transform,
)
    ensures
        *final(global_state) == (GlobalEnemyState {
            frames_to_next_enemy: old(global_state).spawn_interval,
            spawn_interval: old(global_state).spawn_interval,
        }),
        final(commands)@ == old(commands)@.push(Command::Spawn(enemy_bundle(place))),
{
    global_state.frames_to_next_enemy = global_state.spawn_interval;
    let mut bundle = Components::empty();
    bundle.transform = Some(place);
    bundle.enemy = Some(Enemy::default());
    commands.spawn(bundle);
}

/// Runs the spawner for one tick: it counts down, and when the countdown
/// is over it asks for one enemy at a fit place and starts over.
pub fn spawn_enemy_system(
    commands: &mut Commands,
    global_state: &mut GlobalEnemyState,
    store: &Store,
    window: &Window,
)
    requires
        spawn_due(*old(global_state)) ==> has_ship(store@) && window.has_safe_spot(
            first_ship(store@).x as int,
            first_ship(store@).y as int,
        ),
    ensures
        *final(global_state) == spawner_next(*old(global_state)),
        !spawn_due(*old(global_state)) ==> final(commands)@ == old(commands)@,
        spawn_due(*old(global_state)) ==> {
            &&& final(commands)@.len() == old(commands)@.len() + 1
            &&& final(commands)@.drop_last() == old(commands)@
            &&& is_enemy_spawn(final(commands)@.last(), first_ship(store@), *window)
        },
{
    if global_state.frames_to_next_enemy > 0 {
        global_state.frames_to_next_enemy -= 1;
        return ;
    }
    if let Some(player_tr) = player_transform(store) {
        let place = create_enemy_position(&player_tr, window.width, window.height);
        spawn_enemy_at(commands, global_state, place);
        assert(commands@.drop_last() =~= old(commands)@);
    }
}

/// An enemy's transform after one tick.
pub fn chase(t: Transform, player: Transform) -> (r: Transform)
    ensures
        r == enemy_step(t, player),
{
    let dx: i64 = player.x as i64 - t.x as i64;
    let dy: i64 = player.y as i64 - t.y as i64;
    let step = step_vector(dx, dy, ENEMY_SPEED);
    Transform {
        x: saturate(t.x as i64 + step.0),
        y: saturate(t.y as i64 + step.1),
        heading_x: t.heading_x,
        heading_y: t.heading_y,
    }
}

/// An enemy's grace period after one tick.
pub fn age(e: Enemy) -> (r: Enemy)
    ensures
        r == enemy_aged(e),
{
    if e.is_active() {
        e
    } else {
        Enemy { frames_to_appear: e.frames_to_appear - 1 }
    }
}

/// Moves every enemy toward the player and ages it by one tick.
pub fn move_enemy_system(store: &mut Store)
    requires
        has_ship(old(store)@),
    ensures
        final(store)@ == enemies_moved(old(store)@, first_ship(old(store)@)),
{
    let player = match player_transform(store) {
        Some(t) => t,
        None => {
            return ;
        },
    };
    let filter = Filter::any().with(ComponentKind::Transform).with(ComponentKind::Enemy);
    let mut cur: usize = 0;
    loop
        invariant
            filter == foes(),
            player == first_ship(old(store)@),
            cur <= store@.len(),
            store@.len() == old(store)@.len(),
            forall|i: int| 0 <= i < cur ==> store@[i] == enemies_moved(old(store)@, player)[i],
            forall|i: int| cur <= i < store@.len() ==> store@[i] == old(store)@[i],
        ensures
            store@ == enemies_moved(old(store)@, player),
        decreases store@.len() - cur,
    {
        let ghost pre = store@;
        proof {
            store.lemma_len_fits();
        }
        match store.next_match(cur, &filter) {
            None => {
                assert forall|i: int| cur <= i < pre.len() implies pre[i] == enemies_moved(
                    old(store)@,
                    player,
                )[i] by {
                    assert(!accepted(pre, i, filter));
                }
                assert(store@ =~= enemies_moved(old(store)@, player));
                break ;
            },
            Some((e, c)) => {
                if let Some(t) = c.transform {
                    if let Some(enemy) = c.enemy {
                        store.insert(e, Component::Transform(chase(t, player)));
                        store.insert(e, Component::Enemy(age(enemy)));
                    }
                }
                assert forall|i: int| 0 <= i <= e.index implies store@[i] == enemies_moved(
                    old(store)@,
                    player,
                )[i] by {
                    if cur <= i < e.index {
                        assert(!accepted(pre, i, filter));
                    }
                }
                cur = e.index + 1;
            },
        }
    }
}

/// Registers the enemies: the spawner's state at its default, and on
/// every tick spawning first, moving second.
pub struct EnemyPlugin;

impl EnemyPlugin {
    /// Registers the spawner's state and the enemy systems with `app`.
    pub fn build(&self, app: &mut App)
        requires
            old(app).wf(),
        ensures
            final(app).wf(),
            final(app)@ == (World {
                enemy_state: GlobalEnemyState { frames_to_next_enemy: 20, spawn_interval: 90 },
                systems: registered(
                    registered(old(app)@.systems, SystemId::SpawnEnemy),
                    SystemId::MoveEnemy,
                ),
                ..old(app)@
            }),
    {
        app.insert_enemy_state(GlobalEnemyState::default());
        app.add_system(SystemId::SpawnEnemy);
        app.add_system(SystemId::MoveEnemy);
    }

    /// The plugin's name.
    pub fn name(&self) -> (s: &str)
        ensures
            s@ == "EnemyPlugin"@,
    {
        "EnemyPlugin"
    }
}

} // verus!
