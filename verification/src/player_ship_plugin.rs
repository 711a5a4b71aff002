//! The player controller: the ship steers toward the pointer.

use crate::commands::{Command, Commands};
use crate::components::{PlayerShip, Transform};
use crate::events::{CursorMoved, Events, ReaderId};
use crate::fixed::{
    advance,
    clamp_coord,
    distance_squared,
    lemma_step_is_nearly_full,
    lemma_step_toward,
    length_sq,
    magnitude,
    saturate,
    step_toward,
    step_vector,
    UNIT,
};
use crate::schedule::{registered, App, StartupId, SystemId, World};
use crate::store::{
    accepted,
    first_match,
    shape,
    steady,
    Component,
    ComponentKind,
    Components,
    Filter,
    KindSet,
    Slots,
    Store,
};
use crate::window::Window;
use vstd::prelude::*;

verus! {

/// Distance the ship covers in one tick: one world unit.
pub const PLAYER_SPEED: u32 = 1_000_000;

/// The components of a new player: at the origin, facing up, steering
/// toward the origin.
pub open spec fn player_bundle() -> Components {
    Components {
        transform: Some(Transform::origin()),
        player_ship: Some(PlayerShip { target_x: 0, target_y: 0 }),
        ..Components::none()
    }
}

/// The filter of the entities that steer: those with a `PlayerShip`.
pub open spec fn pilots() -> Filter {
    Filter { with: KindSet::nothing().plus(ComponentKind::PlayerShip), without: KindSet::nothing() }
}

/// The filter of the entities that move as a ship: those with a
/// `Transform` and a `PlayerShip`.
pub open spec fn ships() -> Filter {
    Filter {
        with: KindSet::nothing().plus(ComponentKind::Transform).plus(ComponentKind::PlayerShip),
        without: KindSet::nothing(),
    }
}

/// Whether the store holds a ship.
pub open spec fn has_ship(s: Slots) -> bool {
    first_match(s, ships(), 0) < s.len()
}

/// The transform of the first ship, which stands for the player wherever
/// a system needs the player's place.
pub open spec fn first_ship(s: Slots) -> Transform {
    (s[first_match(s, ships(), 0)]->0).transform->0
}

/// The store in which every ship steers toward `(tx, ty)`.
pub open spec fn retargeted(s: Slots, tx: i32, ty: i32) -> Slots {
    Seq::new(
        s.len(),
        |i: int|
            if accepted(s, i, pilots()) {
                Some((s[i]->0).with(Component::PlayerShip(PlayerShip { target_x: tx, target_y: ty })))
            } else {
                s[i]
            },
    )
}

/// The store after the pointer events `moves` arrived, oldest first: only
/// the last one counts, and without any the targets stay.
pub open spec fn cursor_followed(s: Slots, window: Window, moves: Seq<CursorMoved>) -> Slots {
    if moves.len() == 0 {
        s
    } else {
        let at = window.centred(moves.last().x as int, moves.last().y as int);
        retargeted(s, at.0 as i32, at.1 as i32)
    }
}

/// Whether a ship at `t` is less than one unit from its target.
pub open spec fn arrived(t: Transform, p: PlayerShip) -> bool {
    length_sq(p.target_x - t.x, p.target_y - t.y) < UNIT * UNIT
}

/// The ship's transform after one tick. A ship that has arrived rests.
/// Any other moves `PLAYER_SPEED` along the line to its target and turns
/// to face along it.
pub open spec fn player_step(t: Transform, p: PlayerShip) -> Transform {
    let dx = p.target_x - t.x;
    let dy = p.target_y - t.y;
    if arrived(t, p) {
        t
    } else {
        let step = step_toward(dx, dy, PLAYER_SPEED as int);
        let facing = step_toward(dx, dy, UNIT as int);
        Transform {
            x: advance(t.x as int, step.0) as i32,
            y: advance(t.y as int, step.1) as i32,
            heading_x: clamp_coord(facing.0) as i32,
            heading_y: clamp_coord(facing.1) as i32,
        }
    }
}

/// The store after every ship has taken its step.
pub open spec fn players_moved(s: Slots) -> Slots {
    Seq::new(
        s.len(),
        |i: int|
            if accepted(s, i, ships()) {
                Some(
                    (s[i]->0).with(
                        Component::Transform(
                            player_step((s[i]->0).transform->0, (s[i]->0).player_ship->0),
                        ),
                    ),
                )
            } else {
                s[i]
            },
    )
}

/// Steering and moving change component values only.
pub proof fn lemma_player_systems_keep_steady(s: Slots, tx: i32, ty: i32)
    ensures
        steady(s, retargeted(s, tx, ty)),
        steady(s, players_moved(s)),
{
    assert forall|i: int| 0 <= i < s.len() implies shape(#[trigger] s[i]) == shape(
        retargeted(s, tx, ty)[i],
    ) by {}
    assert forall|i: int| 0 <= i < s.len() implies shape(#[trigger] s[i]) == shape(
        players_moved(s)[i],
    ) by {}
}

/// A ship that has arrived stays where it is, tick after tick, for as long
/// as its target stays.
pub proof fn lemma_arrived_ship_rests(t: Transform, p: PlayerShip)
    requires
        arrived(t, p),
    ensures
        player_step(t, p) == t,
{
}

/// In a store, the ships that have arrived are left alone by the movement
/// step, and so is every entity that is no ship.
pub proof fn lemma_arrived_ships_rest(s: Slots, i: int)
    requires
        0 <= i < s.len(),
        accepted(s, i, ships()) ==> arrived((s[i]->0).transform->0, (s[i]->0).player_ship->0),
    ensures
        players_moved(s)[i] == s[i],
{
    if accepted(s, i, ships()) {
        let c = s[i]->0;
        assert(c.with(Component::Transform(c.transform->0)) == c);
    }
}

/// The ship never overshoots: on each axis a step brings it no farther
/// from the target and never past it. The saturation in `player_step` is
/// therefore never reached.
pub proof fn lemma_ship_never_overshoots(t: Transform, p: PlayerShip)
    ensures
        magnitude(p.target_x - player_step(t, p).x) <= magnitude(p.target_x - t.x),
        magnitude(p.target_y - player_step(t, p).y) <= magnitude(p.target_y - t.y),
        p.target_x >= t.x ==> t.x <= player_step(t, p).x <= p.target_x,
        p.target_x <= t.x ==> p.target_x <= player_step(t, p).x <= t.x,
        p.target_y >= t.y ==> t.y <= player_step(t, p).y <= p.target_y,
        p.target_y <= t.y ==> p.target_y <= player_step(t, p).y <= t.y,
{
    if !arrived(t, p) {
        lemma_step_toward(p.target_x - t.x, p.target_y - t.y, PLAYER_SPEED as int);
    }
}

/// A ship that has not arrived covers one unit per tick to within the
/// rounding: its step is no longer than `PLAYER_SPEED`, and with one
/// sub-unit more on each axis it would be longer than `PLAYER_SPEED - 1`.
pub proof fn lemma_ship_keeps_its_speed(t: Transform, p: PlayerShip)
    ensures
        length_sq(player_step(t, p).x - t.x, player_step(t, p).y - t.y) <= PLAYER_SPEED
            * PLAYER_SPEED,
        !arrived(t, p) ==> length_sq(
            magnitude(player_step(t, p).x - t.x) + 1,
            magnitude(player_step(t, p).y - t.y) + 1,
        ) > (PLAYER_SPEED - 1) * (PLAYER_SPEED - 1),
{
    if !arrived(t, p) {
        let dx = p.target_x - t.x;
        let dy = p.target_y - t.y;
        lemma_step_toward(dx, dy, PLAYER_SPEED as int);
        lemma_step_is_nearly_full(dx, dy, PLAYER_SPEED as int);
        let step = step_toward(dx, dy, PLAYER_SPEED as int);
        assert(player_step(t, p).x - t.x == step.0);
        assert(player_step(t, p).y - t.y == step.1);
    } else {
        assert(length_sq(0, 0) == 0) by (nonlinear_arith);
    }
}

/// The heading of a ship that moved is a unit long to within the
/// rounding: it is no longer than `UNIT`, and with one sub-unit more on
/// each axis it would be longer than `UNIT - 1`.
pub proof fn lemma_heading_is_a_unit_long(t: Transform, p: PlayerShip)
    requires
        !arrived(t, p),
    ensures
        length_sq(player_step(t, p).heading_x as int, player_step(t, p).heading_y as int) <= UNIT
            * UNIT,
        length_sq(
            magnitude(player_step(t, p).heading_x as int) + 1,
            magnitude(player_step(t, p).heading_y as int) + 1,
        ) > (UNIT - 1) * (UNIT - 1),
{
    lemma_step_toward(p.target_x - t.x, p.target_y - t.y, UNIT as int);
    lemma_step_is_nearly_full(p.target_x - t.x, p.target_y - t.y, UNIT as int);
}

/// Asks for the player entity: a ship at the origin.
pub fn setup(commands: &mut Commands)
    ensures
        final(commands)@ == old(commands)@.push(Command::Spawn(player_bundle())),
{
    let mut bundle = Components::empty();
    bundle.transform = Some(Transform::identity());
    bundle.player_ship = Some(PlayerShip::default());
    commands.spawn(bundle);
}

/// Reads the pointer events that arrived since the last tick and, if there
/// are any, points every ship at the place of the last one.
pub fn follow_cursor_system(
    store: &mut Store,
    events: &mut Events<CursorMoved>,
    reader: ReaderId,
    window: &Window,
)
    requires
        old(events).wf(),
    ensures
        final(events).wf(),
        final(events)@ == old(events)@.drained(reader),
        final(store)@ == cursor_followed(old(store)@, *window, old(events)@.pending(reader)),
{
    let moves = events.drain(reader);
    if moves.len() == 0 {
        return ;
    }
    let last = moves[moves.len() - 1];
    let at = window.to_world(last.x, last.y);
    let target = PlayerShip { target_x: at.0, target_y: at.1 };
    let filter = Filter::any().with(ComponentKind::PlayerShip);
    let mut cur: usize = 0;
    loop
        invariant
            filter == pilots(),
            cur <= store@.len(),
            store@.len() == old(store)@.len(),
            target == (PlayerShip { target_x: at.0, target_y: at.1 }),
            forall|i: int| 0 <= i < cur ==> store@[i] == retargeted(old(store)@, at.0, at.1)[i],
            forall|i: int| cur <= i < store@.len() ==> store@[i] == old(store)@[i],
        ensures
            store@ == retargeted(old(store)@, at.0, at.1),
        decreases store@.len() - cur,
    {
        let ghost pre = store@;
        proof {
            store.lemma_len_fits();
        }
        match store.next_match(cur, &filter) {
            None => {
                assert forall|i: int| cur <= i < pre.len() implies pre[i] == retargeted(
                    old(store)@,
                    at.0,
                    at.1,
                )[i] by {
                    assert(!accepted(pre, i, filter));
                }
                assert(store@ =~= retargeted(old(store)@, at.0, at.1));
                break ;
            },
            Some((e, _)) => {
                store.insert(e, Component::PlayerShip(target));
                assert forall|i: int| 0 <= i <= e.index implies store@[i] == retargeted(
                    old(store)@,
                    at.0,
                    at.1,
                )[i] by {
                    if cur <= i < e.index {
                        assert(!accepted(pre, i, filter));
                    }
                }
                cur = e.index + 1;
            },
        }
    }
}

/// The transform of the first ship, if there is a ship.
pub fn player_transform(store: &Store) -> (r: Option<Transform>)
    ensures
        r == (if has_ship(store@) {
            Some(first_ship(store@))
        } else {
            None
        }),
{
    let filter = Filter::any().with(ComponentKind::Transform).with(ComponentKind::PlayerShip);
    match store.next_match(0, &filter) {
        Some((_, c)) => c.transform,
        None => None,
    }
}

/// The ship's transform after one tick.
pub fn steer(t: Transform, p: PlayerShip) -> (r: Transform)
    ensures
        r == player_step(t, p),
{
    let far: u128 = distance_squared(t.x, t.y, p.target_x, p.target_y);
    if far < 1_000_000_000_000 {
        t
    } else {
        let dx: i64 = p.target_x as i64 - t.x as i64;
        let dy: i64 = p.target_y as i64 - t.y as i64;
        let step = step_vector(dx, dy, PLAYER_SPEED);
        let facing = step_vector(dx, dy, 1_000_000);
        Transform {
            x: saturate(t.x as i64 + step.0),
            y: saturate(t.y as i64 + step.1),
            heading_x: saturate(facing.0),
            heading_y: saturate(facing.1),
        }
    }
}

/// Moves every ship one step toward its target.
pub fn move_player_system(store: &mut Store)
    ensures
        final(store)@ == players_moved(old(store)@),
{
    let filter = Filter::any().with(ComponentKind::Transform).with(ComponentKind::PlayerShip);
    let mut cur: usize = 0;
    loop
        invariant
            filter == ships(),
            cur <= store@.len(),
            store@.len() == old(store)@.len(),
            forall|i: int| 0 <= i < cur ==> store@[i] == players_moved(old(store)@)[i],
            forall|i: int| cur <= i < store@.len() ==> store@[i] == old(store)@[i],
        ensures
            store@ == players_moved(old(store)@),
        decreases store@.len() - cur,
    {
        let ghost pre = store@;
        proof {
            store.lemma_len_fits();
        }
        match store.next_match(cur, &filter) {
            None => {
                assert forall|i: int| cur <= i < pre.len() implies pre[i] == players_moved(
                    old(store)@,
                )[i] by {
                    assert(!accepted(pre, i, filter));
                }
                assert(store@ =~= players_moved(old(store)@));
                break ;
            },
            Some((e, c)) => {
                if let Some(t) = c.transform {
                    if let Some(p) = c.player_ship {
                        store.insert(e, Component::Transform(steer(t, p)));
                    }
                }
                assert forall|i: int| 0 <= i <= e.index implies store@[i] == players_moved(
                    old(store)@,
                )[i] by {
                    if cur <= i < e.index {
                        assert(!accepted(pre, i, filter));
                    }
                }
                cur = e.index + 1;
            },
        }
    }
}

/// Registers the player: its spawn in the startup phase, and on every
/// tick steering first, moving second.
pub struct PlayerShipPlugin;

impl PlayerShipPlugin {
    /// Registers the player's spawn and systems with `app`.
    pub fn build(&self, app: &mut App)
        requires
            old(app).wf(),
        ensures
            final(app).wf(),
            final(app)@ == (World {
                spawns_player: true,
                systems: registered(
                    registered(old(app)@.systems, SystemId::FollowCursor),
                    SystemId::MovePlayer,
                ),
                ..old(app)@
            }),
    {
        app.add_startup_system(StartupId::SpawnPlayer);
        app.add_system(SystemId::FollowCursor);
        app.add_system(SystemId::MovePlayer);
    }

    /// The plugin's name.
    pub fn name(&self) -> (s: &str)
        ensures
            s@ == "PlayerShip"@,
    {
        "PlayerShip"
    }
}

} // verus!
