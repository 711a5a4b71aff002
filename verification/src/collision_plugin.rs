//! Collisions between circles: bullets against enemies, and the player
//! against enemies.

use crate::bullet_plugin::projectiles;
use crate::commands::{Command, Commands};
use crate::components::Transform;
use crate::enemy_plugin::foes;
use crate::events::{Events, GameOverEvent};
use crate::fixed::{distance_squared, length_sq};
use crate::player_ship_plugin::{first_ship, has_ship, player_transform};
use crate::schedule::{registered, App, SystemId, World};
use crate::store::{accepted, entity_at, ComponentKind, Entity, Filter, Slots, Store};
use vstd::prelude::*;

verus! {

/// Square of the distance, in sub-units, under which two entities touch:
/// the hit radius is 20 world units.
pub const HIT_RADIUS_SQ: u128 = 400_000_000_000_000;

/// One hit: the bullet and the enemy that it struck.
pub type Hit = (Entity, Entity);

/// Whether the centres of `a` and `b` are less than the hit radius apart.
pub open spec fn touching(a: Transform, b: Transform) -> bool {
    length_sq(b.x - a.x, b.y - a.y) < HIT_RADIUS_SQ
}

/// Whether slot `j` holds an enemy that can collide: one with a place
/// whose grace period is over.
pub open spec fn exposed(s: Slots, j: int) -> bool {
    accepted(s, j, foes()) && ((s[j]->0).enemy->0).active()
}

/// Whether the enemy `e` was struck by one of `hits`.
pub open spec fn struck(hits: Seq<Hit>, e: Entity) -> bool {
    exists|k: int| 0 <= k < hits.len() && (#[trigger] hits[k]).1 == e
}

/// Whether the enemy in slot `j` stops something at `at`: it can collide,
/// was not struck by one of `hits`, and touches.
pub open spec fn stops(s: Slots, at: Transform, hits: Seq<Hit>, j: int) -> bool {
    exposed(s, j) && !struck(hits, entity_at(j)) && touching(at, (s[j]->0).transform->0)
}

/// The first slot at or after `from` whose enemy stops something at `at`,
/// or `s.len()` if there is none.
pub open spec fn first_stop(s: Slots, at: Transform, hits: Seq<Hit>, from: int) -> int
    decreases s.len() - from,
{
    if from >= s.len() {
        s.len() as int
    } else if stops(s, at, hits, from) {
        from
    } else {
        first_stop(s, at, hits, from + 1)
    }
}

/// The hits of one tick among the bullets of the first `n` slots. Bullets
/// are taken in spawn order. Each strikes the first enemy in spawn order
/// that touches it and that no earlier bullet struck.
pub open spec fn hits_upto(s: Slots, n: nat) -> Seq<Hit>
    decreases n,
{
    if n == 0 {
        Seq::empty()
    } else {
        let before = hits_upto(s, (n - 1) as nat);
        if accepted(s, n - 1, projectiles()) {
            let j = first_stop(s, (s[n - 1]->0).transform->0, before, 0);
            if j < s.len() {
                before.push((entity_at(n - 1), entity_at(j)))
            } else {
                before
            }
        } else {
            before
        }
    }
}

/// The hits of one tick.
pub open spec fn hits_of(s: Slots) -> Seq<Hit> {
    hits_upto(s, s.len())
}

/// The requests that follow from `hits`: for each hit, the bullet and the
/// enemy are to be despawned.
pub open spec fn hit_requests(hits: Seq<Hit>) -> Seq<Command>
    decreases hits.len(),
{
    if hits.len() == 0 {
        Seq::empty()
    } else {
        hit_requests(hits.drop_last()).push(Command::Despawn(hits.last().0)).push(
            Command::Despawn(hits.last().1),
        )
    }
}

/// Whether an enemy touches the player.
pub open spec fn player_is_hit(s: Slots) -> bool {
    has_ship(s) && first_stop(s, first_ship(s), Seq::empty(), 0) < s.len()
}

/// `first_stop` names a stopping slot or the end, and skips no stopping
/// slot.
pub proof fn lemma_first_stop(s: Slots, at: Transform, hits: Seq<Hit>, from: int)
    requires
        0 <= from,
    ensures
        first_stop(s, at, hits, from) <= s.len(),
        from <= first_stop(s, at, hits, from) || first_stop(s, at, hits, from) == s.len(),
        first_stop(s, at, hits, from) < s.len() ==> stops(
            s,
            at,
            hits,
            first_stop(s, at, hits, from),
        ),
        forall|j: int| from <= j < first_stop(s, at, hits, from) ==> !stops(s, at, hits, j),
    decreases s.len() - from,
{
    if from < s.len() && !stops(s, at, hits, from) {
        lemma_first_stop(s, at, hits, from + 1);
    }
}

/// Slots that stop nothing do not change the first stop.
pub proof fn lemma_first_stop_skip(s: Slots, at: Transform, hits: Seq<Hit>, a: int, b: int)
    requires
        0 <= a <= b <= s.len(),
        forall|j: int| a <= j < b ==> !stops(s, at, hits, j),
    ensures
        first_stop(s, at, hits, a) == first_stop(s, at, hits, b),
    decreases b - a,
{
    if a < b {
        lemma_first_stop_skip(s, at, hits, a + 1, b);
    }
}

/// Slots without a bullet add no hit.
pub proof fn lemma_hits_skip(s: Slots, a: nat, b: nat)
    requires
        a <= b,
        forall|i: int| a <= i < b ==> !accepted(s, i, projectiles()),
    ensures
        hits_upto(s, b) == hits_upto(s, a),
    decreases b - a,
{
    if a < b {
        lemma_hits_skip(s, a, (b - 1) as nat);
    }
}

/// What holds of the hits of a tick. Each hit joins a bullet with an
/// enemy that can collide and touches it. No bullet strikes twice. And no
/// enemy is struck by more than one bullet.
pub proof fn lemma_hits(s: Slots, n: nat)
    requires
        n <= s.len() <= usize::MAX,
    ensures
        forall|k: int|
            0 <= k < hits_upto(s, n).len() ==> {
                &&& (#[trigger] hits_upto(s, n)[k]).0.index < n
                &&& accepted(s, hits_upto(s, n)[k].0.index as int, projectiles())
                &&& exposed(s, hits_upto(s, n)[k].1.index as int)
                &&& touching(
                    (s[hits_upto(s, n)[k].0.index as int]->0).transform->0,
                    (s[hits_upto(s, n)[k].1.index as int]->0).transform->0,
                )
            },
        forall|k: int, m: int|
            0 <= k < m < hits_upto(s, n).len() ==> {
                &&& (#[trigger] hits_upto(s, n)[k]).0 != (#[trigger] hits_upto(s, n)[m]).0
                &&& hits_upto(s, n)[k].1 != hits_upto(s, n)[m].1
            },
    decreases n,
{
    if n > 0 {
        let before = hits_upto(s, (n - 1) as nat);
        let now = hits_upto(s, n);
        lemma_hits(s, (n - 1) as nat);
        if accepted(s, n - 1, projectiles()) {
            let at = (s[n - 1]->0).transform->0;
            lemma_first_stop(s, at, before, 0);
        }
        assert forall|k: int| 0 <= k < now.len() implies {
            &&& (#[trigger] now[k]).0.index < n
            &&& accepted(s, now[k].0.index as int, projectiles())
            &&& exposed(s, now[k].1.index as int)
            &&& touching(
                (s[now[k].0.index as int]->0).transform->0,
                (s[now[k].1.index as int]->0).transform->0,
            )
        } by {
            if k < before.len() {
                assert(now[k] == before[k]);
            }
        }
        assert forall|k: int, m: int| 0 <= k < m < now.len() implies {
            &&& (#[trigger] now[k]).0 != (#[trigger] now[m]).0
            &&& now[k].1 != now[m].1
        } by {
            assert(now[k] == before[k]);
            if m < before.len() {
                assert(now[m] == before[m]);
            } else {
                assert(!struck(before, now[m].1));
            }
        }
    }
}

/// Every request that follows from hits names the bullet or the enemy of
/// one of them.
pub proof fn lemma_hit_requests_name_hits(hits: Seq<Hit>)
    ensures
        hit_requests(hits).len() == 2 * hits.len(),
        forall|k: int|
            0 <= k < hit_requests(hits).len() ==> {
                ||| #[trigger] hit_requests(hits)[k] == Command::Despawn(hits[k / 2].0)
                ||| hit_requests(hits)[k] == Command::Despawn(hits[k / 2].1)
            },
    decreases hits.len(),
{
    if hits.len() > 0 {
        lemma_hit_requests_name_hits(hits.drop_last());
        let before = hit_requests(hits.drop_last());
        let now = hit_requests(hits);
        assert forall|k: int| 0 <= k < now.len() implies {
            ||| #[trigger] now[k] == Command::Despawn(hits[k / 2].0)
            ||| now[k] == Command::Despawn(hits[k / 2].1)
        } by {
            if k < before.len() {
                assert(now[k] == before[k]);
                assert(hits.drop_last()[k / 2] == hits[k / 2]);
            }
        }
    }
}

/// Whether the enemy `e` was struck by one of `hits`.
fn was_struck(hits: &Vec<Hit>, e: Entity) -> (b: bool)
    ensures
        b == struck(hits@, e),
{
    let mut k: usize = 0;
    while k < hits.len()
        invariant
            k <= hits.len(),
            forall|m: int| 0 <= m < k ==> (#[trigger] hits@[m]).1 != e,
        decreases hits.len() - k,
    {
        if hits[k].1.index == e.index {
            return true;
        }
        k += 1;
    }
    false
}

/// Whether the centres of `a` and `b` are less than the hit radius apart.
pub fn is_touching(a: &Transform, b: &Transform) -> (r: bool)
    ensures
        r == touching(*a, *b),
{
    // Circles keep the test simple.
    distance_squared(a.x, a.y, b.x, b.y) < HIT_RADIUS_SQ
}

/// The first enemy in spawn order that stops something at `at`.
fn find_stop(store: &Store, at: &Transform, hits: &Vec<Hit>) -> (r: Option<Entity>)
    ensures
        match r {
            Some(e) => e.index == first_stop(store@, *at, hits@, 0) && e.index < store@.len(),
            None => first_stop(store@, *at, hits@, 0) == store@.len(),
        },
{
    let filter = Filter::any().with(ComponentKind::Transform).with(ComponentKind::Enemy);
    let mut cur: usize = 0;
    loop
        invariant
            filter == foes(),
            cur <= store@.len(),
            first_stop(store@, *at, hits@, 0) == first_stop(store@, *at, hits@, cur as int),
        decreases store@.len() - cur,
    {
        proof {
            store.lemma_len_fits();
        }
        match store.next_match(cur, &filter) {
            None => {
                proof {
                    assert forall|j: int| cur <= j < store@.len() implies !stops(
                        store@,
                        *at,
                        hits@,
                        j,
                    ) by {
                        assert(!accepted(store@, j, filter));
                    }
                    lemma_first_stop_skip(store@, *at, hits@, cur as int, store@.len() as int);
                }
                return None;
            },
            Some((e, c)) => {
                proof {
                    assert forall|j: int| cur <= j < e.index implies !stops(
                        store@,
                        *at,
                        hits@,
                        j,
                    ) by {
                        assert(!accepted(store@, j, filter));
                    }
                    lemma_first_stop_skip(store@, *at, hits@, cur as int, e.index as int);
                }
                if let Some(place) = c.transform {
                    if let Some(enemy) = c.enemy {
                        // An enemy that was struck is not tested again.
                        if enemy.is_active() && !was_struck(hits, e) && is_touching(
                            at,
                            &place,
                        ) {
                            assert(entity_at(e.index as int) == e);
                            return Some(e);
                        }
                    }
                }
                assert(entity_at(e.index as int) == e);
                cur = e.index + 1;
            },
        }
    }
}

/// Finds the hits of this tick and asks for each bullet that struck and
/// each enemy that was struck to be despawned.
pub fn bullet_enemy_collision_system(commands: &mut Commands, store: &Store)
    ensures
        final(commands)@ == old(commands)@ + hit_requests(hits_of(store@)),
{
    let mut hits: Vec<Hit> = Vec::new();
    let filter = Filter::any().with(ComponentKind::Transform).with(ComponentKind::Bullet);
    let mut cur: usize = 0;
    assert(commands@ =~= old(commands)@ + hit_requests(hits@));
    loop
        invariant
            filter == projectiles(),
            cur <= store@.len(),
            hits@ == hits_upto(store@, cur as nat),
            commands@ == old(commands)@ + hit_requests(hits@),
        ensures
            commands@ == old(commands)@ + hit_requests(hits_of(store@)),
        decreases store@.len() - cur,
    {
        proof {
            store.lemma_len_fits();
        }
        match store.next_match(cur, &filter) {
            None => {
                proof {
                    lemma_hits_skip(store@, cur as nat, store@.len());
                }
                break ;
            },
            Some((b, c)) => {
                proof {
                    lemma_hits_skip(store@, cur as nat, b.index as nat);
                }
                if let Some(at) = c.transform {
                    if let Some(e) = find_stop(store, &at, &hits) {
                        // Hit: the bullet and the enemy go.
                        let ghost before = hits@;
                        commands.despawn(b);
                        commands.despawn(e);
                        hits.push((b, e));
                        assert(hits@.drop_last() =~= before);
                        assert(commands@ =~= old(commands)@ + hit_requests(hits@));
                    }
                }
                assert(entity_at(b.index as int) == b);
                cur = b.index + 1;
            },
        }
    }
}

/// Tells whether an enemy touches the player and, if one does, sends the
/// game-over signal, once.
pub fn player_enemy_collision_system(store: &Store, game_over: &mut Events<GameOverEvent>)
    requires
        old(game_over).wf(),
    ensures
        final(game_over).wf(),
        final(game_over)@ == (if player_is_hit(store@) {
            old(game_over)@.sent(GameOverEvent)
        } else {
            old(game_over)@
        }),
{
    if let Some(player) = player_transform(store) {
        let none: Vec<Hit> = Vec::new();
        assert(none@ =~= Seq::<Hit>::empty());
        if find_stop(store, &player, &none).is_some() {
            game_over.send(GameOverEvent);
        }
    }
}

/// Registers the collision tests: bullets against enemies first, the
/// player against enemies second.
pub struct CollisionPlugin;

impl CollisionPlugin {
    /// Registers the collision systems with `app`.
    pub fn build(&self, app: &mut App)
        requires
            old(app).wf(),
        ensures
            final(app).wf(),
            final(app)@ == (World {
                systems: registered(
                    registered(old(app)@.systems, SystemId::BulletEnemyCollision),
                    SystemId::PlayerEnemyCollision,
                ),
                ..old(app)@
            }),
    {
        app.add_system(SystemId::BulletEnemyCollision);
        app.add_system(SystemId::PlayerEnemyCollision);
    }

    /// The plugin's name.
    pub fn name(&self) -> (s: &str)
        ensures
            s@ == "Collision"@,
    {
        "Collision"
    }
}

} // verus!
