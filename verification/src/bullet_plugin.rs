//! The gun and its bullets.

use crate::commands::{Command, Commands};
use crate::components::{Bullet, GunState, Transform};
use crate::fixed::{advance, saturate};
use crate::input::{Input, MouseButton};
use crate::player_ship_plugin::{first_ship, has_ship, player_transform};
use crate::schedule::{registered, App, SystemId, World};
use crate::store::{
    accepted,
    entity_at,
    shape,
    steady,
    Component,
    ComponentKind,
    Components,
    Filter,
    KindSet,
    Slots,
    Store,
};
use crate::window::Window;
use vstd::prelude::*;

verus! {

/// Ticks the gun rests after it became ready.
pub const GUN_COOLDOWN: i32 = 5;

/// World units a bullet covers in one tick.
pub const BULLET_SPEED: i32 = 10;

/// The gun one tick later. A ready gun restarts its cooldown whether or
/// not it fired; any other counts down by one.
pub open spec fn gun_next(g: GunState) -> GunState {
    if g.frames_to_fire == 0 {
        GunState { frames_to_fire: GUN_COOLDOWN }
    } else {
        GunState { frames_to_fire: (g.frames_to_fire - 1) as i32 }
    }
}

/// The gun `n` ticks after it was `g`.
pub open spec fn gun_after(g: GunState, n: nat) -> GunState
    decreases n,
{
    if n == 0 {
        g
    } else {
        gun_next(gun_after(g, (n - 1) as nat))
    }
}

/// Whether the gun fires on a tick that it enters as `g`, with the fire
/// button down or not: it fires when it is ready and the button is down.
pub open spec fn gun_fires(g: GunState, held: bool) -> bool {
    g.frames_to_fire == 0 && held
}

/// The components of a new bullet: the given transform and the marker.
pub open spec fn bullet_bundle(t: Transform) -> Components {
    Components { transform: Some(t), bullet: Some(Bullet), ..Components::none() }
}

/// The requests that the gun makes on one tick: a bullet at the player's
/// transform if it fires, else nothing.
pub open spec fn shots(s: Slots, g: GunState, held: bool) -> Seq<Command> {
    if gun_fires(g, held) {
        seq![Command::Spawn(bullet_bundle(first_ship(s)))]
    } else {
        Seq::empty()
    }
}

/// A gun that starts ready is ready again on every sixth tick and on no
/// other. With the fire button held all the time it therefore asks for
/// exactly one bullet on each of the ticks 0, 6, 12, ... and for none in
/// between.
pub proof fn lemma_gun_cycle(s: Slots, n: nat)
    ensures
        gun_after(GunState { frames_to_fire: 0 }, n).frames_to_fire == (if n % 6 == 0 {
            0int
        } else {
            6 - (n % 6)
        }),
        gun_fires(gun_after(GunState { frames_to_fire: 0 }, n), true) <==> n % 6 == 0,
        shots(s, gun_after(GunState { frames_to_fire: 0 }, n), true).len() == (if n % 6 == 0 {
            1nat
        } else {
            0nat
        }),
    decreases n,
{
    if n > 0 {
        lemma_gun_cycle(s, (n - 1) as nat);
    }
}

/// A gun whose button is not held asks for nothing.
pub proof fn lemma_idle_gun_is_silent(s: Slots, g: GunState)
    ensures
        shots(s, g, false) == Seq::<Command>::empty(),
{
}

/// The filter of the bullets that fly: those with a `Transform`.
pub open spec fn projectiles() -> Filter {
    Filter {
        with: KindSet::nothing().plus(ComponentKind::Transform).plus(ComponentKind::Bullet),
        without: KindSet::nothing(),
    }
}

/// A bullet's transform after one tick: `BULLET_SPEED` units along its
/// heading.
pub open spec fn bullet_step(t: Transform) -> Transform {
    Transform {
        x: advance(t.x as int, t.heading_x * BULLET_SPEED) as i32,
        y: advance(t.y as int, t.heading_y * BULLET_SPEED) as i32,
        heading_x: t.heading_x,
        heading_y: t.heading_y,
    }
}

/// The store after every bullet has flown one tick.
pub open spec fn bullets_moved(s: Slots) -> Slots {
    Seq::new(
        s.len(),
        |i: int|
            if accepted(s, i, projectiles()) {
                Some((s[i]->0).with(Component::Transform(bullet_step((s[i]->0).transform->0))))
            } else {
                s[i]
            },
    )
}

/// Whether slot `i` holds a bullet that leaves the window on this tick.
pub open spec fn strays(s: Slots, window: Window, i: int) -> bool {
    accepted(s, i, projectiles()) && window.outside(
        bullet_step((s[i]->0).transform->0).x as int,
        bullet_step((s[i]->0).transform->0).y as int,
    )
}

/// The despawn requests for the bullets among the first `n` slots that
/// leave the window on this tick, in spawn order.
pub open spec fn stray_requests(s: Slots, window: Window, n: nat) -> Seq<Command>
    decreases n,
{
    if n == 0 {
        Seq::empty()
    } else {
        let before = stray_requests(s, window, (n - 1) as nat);
        if strays(s, window, n - 1) {
            before.push(Command::Despawn(entity_at(n - 1)))
        } else {
            before
        }
    }
}

/// Flying changes component values only.
pub proof fn lemma_bullets_moved_steady(s: Slots)
    ensures
        steady(s, bullets_moved(s)),
{
    assert forall|i: int| 0 <= i < s.len() implies shape(#[trigger] s[i]) == shape(
        bullets_moved(s)[i],
    ) by {}
}

/// Slots without a bullet add no request.
pub proof fn lemma_stray_requests_skip(s: Slots, window: Window, a: nat, b: nat)
    requires
        a <= b,
        forall|i: int| a <= i < b ==> !accepted(s, i, projectiles()),
    ensures
        stray_requests(s, window, b) == stray_requests(s, window, a),
    decreases b - a,
{
    if a < b {
        lemma_stray_requests_skip(s, window, a, (b - 1) as nat);
    }
}

/// Every bullet that leaves the window is asked to be despawned, and
/// nothing else is asked for.
pub proof fn lemma_stray_requests(s: Slots, window: Window, n: nat)
    ensures
        forall|i: int|
            0 <= i < n && #[trigger] strays(s, window, i) ==> stray_requests(
                s,
                window,
                n,
            ).contains(Command::Despawn(entity_at(i))),
        forall|k: int|
            0 <= k < stray_requests(s, window, n).len() ==> exists|i: int|
                0 <= i < n && strays(s, window, i) && #[trigger] stray_requests(s, window, n)[k]
                    == Command::Despawn(entity_at(i)),
    decreases n,
{
    if n > 0 {
        let before = stray_requests(s, window, (n - 1) as nat);
        let now = stray_requests(s, window, n);
        lemma_stray_requests(s, window, (n - 1) as nat);
        assert forall|i: int| 0 <= i < n && #[trigger] strays(s, window, i) implies now.contains(
            Command::Despawn(entity_at(i)),
        ) by {
            if i < n - 1 {
                let c = Command::Despawn(entity_at(i));
                assert(before.contains(c));
                let k = choose|k: int| 0 <= k < before.len() && before[k] == c;
                assert(now[k] == c);
            } else {
                assert(now[now.len() - 1] == Command::Despawn(entity_at(i)));
            }
        }
        assert forall|k: int| 0 <= k < now.len() implies exists|i: int|
            0 <= i < n && strays(s, window, i) && #[trigger] now[k] == Command::Despawn(
                entity_at(i),
            ) by {
            if k < before.len() {
                assert(now[k] == before[k]);
                let i = choose|i: int|
                    0 <= i < n - 1 && strays(s, window, i) && before[k] == Command::Despawn(
                        entity_at(i),
                    );
                assert(0 <= i < n && strays(s, window, i) && now[k] == Command::Despawn(
                    entity_at(i),
                ));
            } else {
                assert(strays(s, window, n - 1) && now[k] == Command::Despawn(entity_at(n - 1)));
            }
        }
    }
}

/// Runs the gun for one tick: a ready gun fires if the left mouse button
/// is down, and restarts its cooldown either way.
pub fn fire_bullet_system(
    commands: &mut Commands,
    store: &Store,
    gun_state: &mut GunState,
    input: &Input,
)
    requires
        old(gun_state).frames_to_fire > i32::MIN,
        gun_fires(*old(gun_state), input@.pressed.contains(MouseButton::Left.code_of())) ==> has_ship(
            store@,
        ),
    ensures
        *final(gun_state) == gun_next(*old(gun_state)),
        final(commands)@ == old(commands)@ + shots(
            store@,
            *old(gun_state),
            input@.pressed.contains(MouseButton::Left.code_of()),
        ),
{
    if gun_state.frames_to_fire == 0 {
        if input.pressed(MouseButton::Left.code()) {
            if let Some(tr) = player_transform(store) {
                let mut bundle = Components::empty();
                bundle.transform = Some(tr);
                bundle.bullet = Some(Bullet);
                commands.spawn(bundle);
            }
        }
        gun_state.frames_to_fire = GUN_COOLDOWN;
    } else {
        gun_state.frames_to_fire -= 1;
    }
    assert(commands@ =~= old(commands)@ + shots(
        store@,
        *old(gun_state),
        input@.pressed.contains(MouseButton::Left.code_of()),
    ));
}

/// A bullet's transform after one tick.
pub fn fly(t: Transform) -> (r: Transform)
    ensures
        r == bullet_step(t),
{
    Transform {
        x: saturate(t.x as i64 + t.heading_x as i64 * 10),
        y: saturate(t.y as i64 + t.heading_y as i64 * 10),
        heading_x: t.heading_x,
        heading_y: t.heading_y,
    }
}

/// Moves every bullet along its heading and asks for those that left the
/// window to be despawned.
pub fn move_bullet_system(commands: &mut Commands, store: &mut Store, window: &Window)
    ensures
        final(store)@ == bullets_moved(old(store)@),
        final(commands)@ == old(commands)@ + stray_requests(
            old(store)@,
            *window,
            old(store)@.len(),
        ),
{
    let filter = Filter::any().with(ComponentKind::Transform).with(ComponentKind::Bullet);
    let mut cur: usize = 0;
    assert(commands@ =~= old(commands)@ + stray_requests(old(store)@, *window, 0));
    loop
        invariant
            filter == projectiles(),
            cur <= store@.len(),
            store@.len() == old(store)@.len(),
            forall|i: int| 0 <= i < cur ==> store@[i] == bullets_moved(old(store)@)[i],
            forall|i: int| cur <= i < store@.len() ==> store@[i] == old(store)@[i],
            commands@ == old(commands)@ + stray_requests(old(store)@, *window, cur as nat),
        ensures
            store@ == bullets_moved(old(store)@),
            commands@ == old(commands)@ + stray_requests(old(store)@, *window, old(store)@.len()),
        decreases store@.len() - cur,
    {
        let ghost pre = store@;
        proof {
            store.lemma_len_fits();
        }
        match store.next_match(cur, &filter) {
            None => {
                assert forall|i: int| cur <= i < pre.len() implies !accepted(
                    old(store)@,
                    i,
                    projectiles(),
                ) by {
                    assert(!accepted(pre, i, filter));
                }
                assert(store@ =~= bullets_moved(old(store)@));
                proof {
                    lemma_stray_requests_skip(old(store)@, *window, cur as nat, pre.len());
                }
                break ;
            },
            Some((e, c)) => {
                assert forall|i: int| cur <= i < e.index implies !accepted(
                    old(store)@,
                    i,
                    projectiles(),
                ) by {
                    assert(!accepted(pre, i, filter));
                }
                proof {
                    lemma_stray_requests_skip(old(store)@, *window, cur as nat, e.index as nat);
                }
                if let Some(t) = c.transform {
                    let moved = fly(t);
                    store.insert(e, Component::Transform(moved));
                    if window.is_outside(moved.x, moved.y) {
                        commands.despawn(e);
                    }
                }
                assert(commands@ =~= old(commands)@ + stray_requests(
                    old(store)@,
                    *window,
                    (e.index + 1) as nat,
                ));
                cur = e.index + 1;
            },
        }
    }
}

/// Registers the gun: its state at rest, and on every tick firing first,
/// flying second.
pub struct BulletPlugin;

impl BulletPlugin {
    /// Registers the gun's state and systems with `app`.
    pub fn build(&self, app: &mut App)
        requires
            old(app).wf(),
        ensures
            final(app).wf(),
            final(app)@ == (World {
                gun_state: GunState { frames_to_fire: 0 },
                systems: registered(
                    registered(old(app)@.systems, SystemId::FireBullet),
                    SystemId::MoveBullet,
                ),
                ..old(app)@
            }),
    {
        app.insert_gun_state(GunState::default());
        app.add_system(SystemId::FireBullet);
        app.add_system(SystemId::MoveBullet);
    }

    /// The plugin's name.
    pub fn name(&self) -> (s: &str)
        ensures
            s@ == "BulletSystem"@,
    {
        "BulletSystem"
    }
}

} // verus!
