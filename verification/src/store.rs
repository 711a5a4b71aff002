//! The entity store and its query engine.
//!
//! The store is a table indexed by entity identifier. Identifiers are handed
//! out in order and never reused, so a despawned entity stays absent for
//! good. A slot that is `None` belongs to a despawned entity.

use crate::components::{Block, Bullet, Enemy, PlayerShip, Position, Transform, Wall};
use vstd::prelude::*;

verus! {

/// An opaque entity identifier.
#[derive(Clone, Copy, Debug, PartialEq, Eq, Hash, Structural)]
pub struct Entity {
    pub index: usize,
}

impl Entity {
    /// The number that names this entity.
    pub fn id(&self) -> (r: usize)
        ensures
            r == self.index,
    {
        self.index
    }
}

/// The component types an entity can carry.
#[derive(Clone, Copy, Debug, PartialEq, Eq, Structural)]
pub enum ComponentKind {
    Transform,
    PlayerShip,
    Bullet,
    Enemy,
    Position,
    Block,
    Wall,
}

/// One component value.
#[derive(Clone, Copy, Debug, PartialEq, Eq)]
pub enum Component {
    Transform(Transform),
    PlayerShip(PlayerShip),
    Bullet(Bullet),
    Enemy(Enemy),
    Position(Position),
    Block(Block),
    Wall(Wall),
}

/// The component set of one entity. It also serves as the bundle that a
/// spawn request carries.
#[derive(Clone, Copy, Debug, PartialEq, Eq)]
pub struct Components {
    pub transform: Option<Transform>,
    pub player_ship: Option<PlayerShip>,
    pub bullet: Option<Bullet>,
    pub enemy: Option<Enemy>,
    pub position: Option<Position>,
    pub block: Option<Block>,
    pub wall: Option<Wall>,
}

impl Component {
    /// The type of this component.
    pub open spec fn kind(self) -> ComponentKind {
        match self {
            Component::Transform(_) => ComponentKind::Transform,
            Component::PlayerShip(_) => ComponentKind::PlayerShip,
            Component::Bullet(_) => ComponentKind::Bullet,
            Component::Enemy(_) => ComponentKind::Enemy,
            Component::Position(_) => ComponentKind::Position,
            Component::Block(_) => ComponentKind::Block,
            Component::Wall(_) => ComponentKind::Wall,
        }
    }
}

impl Components {
    /// The set without any component.
    pub open spec fn none() -> Components {
        Components {
            transform: None,
            player_ship: None,
            bullet: None,
            enemy: None,
            position: None,
            block: None,
            wall: None,
        }
    }

    /// Whether a component of type `kind` is present.
    pub open spec fn has(self, kind: ComponentKind) -> bool {
        match kind {
            ComponentKind::Transform => self.transform is Some,
            ComponentKind::PlayerShip => self.player_ship is Some,
            ComponentKind::Bullet => self.bullet is Some,
            ComponentKind::Enemy => self.enemy is Some,
            ComponentKind::Position => self.position is Some,
            ComponentKind::Block => self.block is Some,
            ComponentKind::Wall => self.wall is Some,
        }
    }

    /// This set with `c` added, in place of any component of the same type.
    pub open spec fn with(self, c: Component) -> Components {
        match c {
            Component::Transform(v) => Components { transform: Some(v), ..self },
            Component::PlayerShip(v) => Components { player_ship: Some(v), ..self },
            Component::Bullet(v) => Components { bullet: Some(v), ..self },
            Component::Enemy(v) => Components { enemy: Some(v), ..self },
            Component::Position(v) => Components { position: Some(v), ..self },
            Component::Block(v) => Components { block: Some(v), ..self },
            Component::Wall(v) => Components { wall: Some(v), ..self },
        }
    }

    /// This set with the component of type `kind` taken out.
    pub open spec fn without(self, kind: ComponentKind) -> Components {
        match kind {
            ComponentKind::Transform => Components { transform: None, ..self },
            ComponentKind::PlayerShip => Components { player_ship: None, ..self },
            ComponentKind::Bullet => Components { bullet: None, ..self },
            ComponentKind::Enemy => Components { enemy: None, ..self },
            ComponentKind::Position => Components { position: None, ..self },
            ComponentKind::Block => Components { block: None, ..self },
            ComponentKind::Wall => Components { wall: None, ..self },
        }
    }

    /// The set without any component.
    pub fn empty() -> (c: Components)
        ensures
            c == Components::none(),
    {
        Components {
            transform: None,
            player_ship: None,
            bullet: None,
            enemy: None,
            position: None,
            block: None,
            wall: None,
        }
    }

    /// Whether a component of type `kind` is present.
    pub fn contains(&self, kind: ComponentKind) -> (b: bool)
        ensures
            b == self.has(kind),
    {
        match kind {
            ComponentKind::Transform => self.transform.is_some(),
            ComponentKind::PlayerShip => self.player_ship.is_some(),
            ComponentKind::Bullet => self.bullet.is_some(),
            ComponentKind::Enemy => self.enemy.is_some(),
            ComponentKind::Position => self.position.is_some(),
            ComponentKind::Block => self.block.is_some(),
            ComponentKind::Wall => self.wall.is_some(),
        }
    }

    /// This set with `c` added, in place of any component of the same type.
    pub fn insert(self, c: Component) -> (r: Components)
        ensures
            r == self.with(c),
    {
        let mut r = self;
        match c {
            Component::Transform(v) => {
                r.transform = Some(v);
            },
            Component::PlayerShip(v) => {
                r.player_ship = Some(v);
            },
            Component::Bullet(v) => {
                r.bullet = Some(v);
            },
            Component::Enemy(v) => {
                r.enemy = Some(v);
            },
            Component::Position(v) => {
                r.position = Some(v);
            },
            Component::Block(v) => {
                r.block = Some(v);
            },
            Component::Wall(v) => {
                r.wall = Some(v);
            },
        }
        r
    }

    /// This set with the component of type `kind` taken out.
    pub fn remove(self, kind: ComponentKind) -> (r: Components)
        ensures
            r == self.without(kind),
    {
        let mut r = self;
        match kind {
            ComponentKind::Transform => {
                r.transform = None;
            },
            ComponentKind::PlayerShip => {
                r.player_ship = None;
            },
            ComponentKind::Bullet => {
                r.bullet = None;
            },
            ComponentKind::Enemy => {
                r.enemy = None;
            },
            ComponentKind::Position => {
                r.position = None;
            },
            ComponentKind::Block => {
                r.block = None;
            },
            ComponentKind::Wall => {
                r.wall = None;
            },
        }
        r
    }
}

/// A set of component types.
#[derive(Clone, Copy, Debug, PartialEq, Eq)]
pub struct KindSet {
    pub transform: bool,
    pub player_ship: bool,
    pub bullet: bool,
    pub enemy: bool,
    pub position: bool,
    pub block: bool,
    pub wall: bool,
}

impl KindSet {
    /// The empty set of types.
    pub open spec fn nothing() -> KindSet {
        KindSet {
            transform: false,
            player_ship: false,
            bullet: false,
            enemy: false,
            position: false,
            block: false,
            wall: false,
        }
    }

    /// Whether `kind` is in the set.
    pub open spec fn holds(self, kind: ComponentKind) -> bool {
        match kind {
            ComponentKind::Transform => self.transform,
            ComponentKind::PlayerShip => self.player_ship,
            ComponentKind::Bullet => self.bullet,
            ComponentKind::Enemy => self.enemy,
            ComponentKind::Position => self.position,
            ComponentKind::Block => self.block,
            ComponentKind::Wall => self.wall,
        }
    }

    /// This set with `kind` added.
    pub open spec fn plus(self, kind: ComponentKind) -> KindSet {
        match kind {
            ComponentKind::Transform => KindSet { transform: true, ..self },
            ComponentKind::PlayerShip => KindSet { player_ship: true, ..self },
            ComponentKind::Bullet => KindSet { bullet: true, ..self },
            ComponentKind::Enemy => KindSet { enemy: true, ..self },
            ComponentKind::Position => KindSet { position: true, ..self },
            ComponentKind::Block => KindSet { block: true, ..self },
            ComponentKind::Wall => KindSet { wall: true, ..self },
        }
    }

    /// Every type of this set is present in `c`.
    pub open spec fn all_in(self, c: Components) -> bool {
        &&& self.transform ==> c.transform is Some
        &&& self.player_ship ==> c.player_ship is Some
        &&& self.bullet ==> c.bullet is Some
        &&& self.enemy ==> c.enemy is Some
        &&& self.position ==> c.position is Some
        &&& self.block ==> c.block is Some
        &&& self.wall ==> c.wall is Some
    }

    /// No type of this set is present in `c`.
    pub open spec fn none_in(self, c: Components) -> bool {
        &&& self.transform ==> c.transform is None
        &&& self.player_ship ==> c.player_ship is None
        &&& self.bullet ==> c.bullet is None
        &&& self.enemy ==> c.enemy is None
        &&& self.position ==> c.position is None
        &&& self.block ==> c.block is None
        &&& self.wall ==> c.wall is None
    }

    /// The two sets share a type.
    pub open spec fn overlaps(self, other: KindSet) -> bool {
        ||| self.transform && other.transform
        ||| self.player_ship && other.player_ship
        ||| self.bullet && other.bullet
        ||| self.enemy && other.enemy
        ||| self.position && other.position
        ||| self.block && other.block
        ||| self.wall && other.wall
    }

    /// The empty set of types.
    pub fn new() -> (s: KindSet)
        ensures
            s == KindSet::nothing(),
    {
        KindSet {
            transform: false,
            player_ship: false,
            bullet: false,
            enemy: false,
            position: false,
            block: false,
            wall: false,
        }
    }

    /// This set with `kind` added.
    pub fn add(self, kind: ComponentKind) -> (s: KindSet)
        ensures
            s == self.plus(kind),
    {
        let mut s = self;
        match kind {
            ComponentKind::Transform => {
                s.transform = true;
            },
            ComponentKind::PlayerShip => {
                s.player_ship = true;
            },
            ComponentKind::Bullet => {
                s.bullet = true;
            },
            ComponentKind::Enemy => {
                s.enemy = true;
            },
            ComponentKind::Position => {
                s.position = true;
            },
            ComponentKind::Block => {
                s.block = true;
            },
            ComponentKind::Wall => {
                s.wall = true;
            },
        }
        s
    }

    /// Whether the two sets share a type.
    pub fn intersects(&self, other: &KindSet) -> (b: bool)
        ensures
            b == self.overlaps(*other),
    {
        (self.transform && other.transform) || (self.player_ship && other.player_ship) || (
        self.bullet && other.bullet) || (self.enemy && other.enemy) || (self.position
            && other.position) || (self.block && other.block) || (self.wall && other.wall)
    }
}

/// What a query asks of an entity: the component types it must carry and
/// those it must not. A marker is named like any other type; the filter
/// reads no component data.
#[derive(Clone, Copy, Debug, PartialEq, Eq)]
pub struct Filter {
    pub with: KindSet,
    pub without: KindSet,
}

impl Filter {
    /// Whether an entity with the component set `c` passes the filter.
    pub open spec fn accepts(self, c: Components) -> bool {
        self.with.all_in(c) && self.without.none_in(c)
    }

    /// Some type is demanded by one filter and forbidden by the other, so
    /// no entity passes both.
    pub open spec fn excludes(self, other: Filter) -> bool {
        self.with.overlaps(other.without) || self.without.overlaps(other.with)
    }

    /// The filter that every live entity passes.
    pub fn any() -> (f: Filter)
        ensures
            f == (Filter { with: KindSet::nothing(), without: KindSet::nothing() }),
    {
        Filter { with: KindSet::new(), without: KindSet::new() }
    }

    /// Also demands a component of type `kind`.
    pub fn with(self, kind: ComponentKind) -> (f: Filter)
        ensures
            f == (Filter { with: self.with.plus(kind), without: self.without }),
    {
        Filter { with: self.with.add(kind), without: self.without }
    }

    /// Also forbids a component of type `kind`.
    pub fn without(self, kind: ComponentKind) -> (f: Filter)
        ensures
            f == (Filter { with: self.with, without: self.without.plus(kind) }),
    {
        Filter { with: self.with, without: self.without.add(kind) }
    }

    /// Whether an entity with the component set `c` passes the filter.
    pub fn test(&self, c: &Components) -> (b: bool)
        ensures
            b == self.accepts(*c),
    {
        (!self.with.transform || c.transform.is_some()) && (!self.with.player_ship
            || c.player_ship.is_some()) && (!self.with.bullet || c.bullet.is_some()) && (
        !self.with.enemy || c.enemy.is_some()) && (!self.with.position || c.position.is_some())
            && (!self.with.block || c.block.is_some()) && (!self.with.wall || c.wall.is_some())
            && (!self.without.transform || c.transform.is_none()) && (!self.without.player_ship
            || c.player_ship.is_none()) && (!self.without.bullet || c.bullet.is_none()) && (
        !self.without.enemy || c.enemy.is_none()) && (!self.without.position
            || c.position.is_none()) && (!self.without.block || c.block.is_none()) && (
        !self.without.wall || c.wall.is_none())
    }

    /// Whether the two filters exclude one another.
    pub fn is_disjoint(&self, other: &Filter) -> (b: bool)
        ensures
            b == self.excludes(*other),
    {
        self.with.intersects(&other.without) || self.without.intersects(&other.with)
    }
}

/// The store's model: slot `i` holds the components of entity `i`, or `None`
/// once that entity is despawned.
pub type Slots = Seq<Option<Components>>;

/// The entity that occupies slot `i`.
pub open spec fn entity_at(i: int) -> Entity {
    Entity { index: i as usize }
}

/// Whether `e` is a live entity of `s`.
pub open spec fn live(s: Slots, e: Entity) -> bool {
    e.index < s.len() && s[e.index as int] is Some
}

/// Whether slot `i` holds a live entity that passes `f`.
pub open spec fn accepted(s: Slots, i: int, f: Filter) -> bool {
    0 <= i < s.len() && s[i] is Some && f.accepts(s[i]->0)
}

/// `s` after a new entity with the components `bundle` is spawned.
pub open spec fn spawned(s: Slots, bundle: Components) -> Slots {
    s.push(Some(bundle))
}

/// `s` after `c` is inserted on `e`; nothing changes if `e` is not live.
pub open spec fn inserted(s: Slots, e: Entity, c: Component) -> Slots {
    if live(s, e) {
        s.update(e.index as int, Some((s[e.index as int]->0).with(c)))
    } else {
        s
    }
}

/// `s` after the component of type `kind` is removed from `e`; nothing
/// changes if `e` is not live.
pub open spec fn removed(s: Slots, e: Entity, kind: ComponentKind) -> Slots {
    if live(s, e) {
        s.update(e.index as int, Some((s[e.index as int]->0).without(kind)))
    } else {
        s
    }
}

/// `s` after `e` is despawned; nothing changes if `e` was never spawned.
pub open spec fn despawned(s: Slots, e: Entity) -> Slots {
    if e.index < s.len() {
        s.update(e.index as int, None)
    } else {
        s
    }
}

/// The entities among the first `n` slots that pass `f`, in spawn order.
pub open spec fn matching_upto(s: Slots, f: Filter, n: nat) -> Seq<Entity>
    decreases n,
{
    if n == 0 {
        Seq::empty()
    } else {
        let before = matching_upto(s, f, (n - 1) as nat);
        if accepted(s, n - 1, f) {
            before.push(Entity { index: (n - 1) as usize })
        } else {
            before
        }
    }
}

/// The live entities that pass `f`, in spawn order.
pub open spec fn matching(s: Slots, f: Filter) -> Seq<Entity> {
    matching_upto(s, f, s.len())
}

/// The first slot at or after `from` that passes `f`, or `s.len()` if there
/// is none.
pub open spec fn first_match(s: Slots, f: Filter, from: int) -> int
    decreases s.len() - from,
{
    if from >= s.len() {
        s.len() as int
    } else if accepted(s, from, f) {
        from
    } else {
        first_match(s, f, from + 1)
    }
}

/// `first_match` names a passing slot or the end, and skips no passing slot.
pub proof fn lemma_first_match(s: Slots, f: Filter, from: int)
    requires
        0 <= from,
    ensures
        from <= first_match(s, f, from) || first_match(s, f, from) == s.len(),
        first_match(s, f, from) <= s.len(),
        first_match(s, f, from) < s.len() ==> accepted(s, first_match(s, f, from), f),
        forall|i: int| from <= i < first_match(s, f, from) ==> !accepted(s, i, f),
    decreases s.len() - from,
{
    if from < s.len() && !accepted(s, from, f) {
        lemma_first_match(s, f, from + 1);
    }
}

/// Every entity a query yields is live and passes the filter, the entities
/// come in strictly ascending order, and no passing entity is left out.
pub proof fn lemma_matching(s: Slots, f: Filter, n: nat)
    requires
        n <= s.len() <= usize::MAX,
    ensures
        forall|j: int|
            0 <= j < matching_upto(s, f, n).len() ==> {
                &&& (#[trigger] matching_upto(s, f, n)[j]).index < n
                &&& accepted(s, matching_upto(s, f, n)[j].index as int, f)
            },
        forall|i: int, j: int|
            0 <= i < j < matching_upto(s, f, n).len() ==> (#[trigger] matching_upto(s, f, n)[i]).index
                < (#[trigger] matching_upto(s, f, n)[j]).index,
        forall|k: int|
            0 <= k < n && #[trigger] accepted(s, k, f) ==> matching_upto(s, f, n).contains(
                entity_at(k),
            ),
    decreases n,
{
    if n > 0 {
        let before = matching_upto(s, f, (n - 1) as nat);
        let now = matching_upto(s, f, n);
        lemma_matching(s, f, (n - 1) as nat);
        assert forall|j: int| 0 <= j < now.len() implies (#[trigger] now[j]).index < n && accepted(
            s,
            now[j].index as int,
            f,
        ) by {
            if j < before.len() {
                assert(now[j] == before[j]);
            }
        }
        assert forall|i: int, j: int| 0 <= i < j < now.len() implies (#[trigger] now[i]).index < (
        #[trigger] now[j]).index by {
            assert(now[i] == before[i]);
            if j < before.len() {
                assert(now[j] == before[j]);
            }
        }
        assert forall|k: int| 0 <= k < n && #[trigger] accepted(s, k, f) implies now.contains(
            entity_at(k),
        ) by {
            if k < n - 1 {
                let e = entity_at(k);
                assert(before.contains(e));
                let j = choose|j: int| 0 <= j < before.len() && before[j] == e;
                assert(now[j] == e);
            } else {
                assert(now[now.len() - 1] == entity_at(k));
            }
        }
    }
}

/// Despawn is terminal and idempotent: the entity is gone, a second
/// despawn changes nothing, and neither does an insert or a remove on it.
pub proof fn lemma_despawn_is_final(s: Slots, e: Entity, c: Component, kind: ComponentKind)
    ensures
        !live(despawned(s, e), e),
        despawned(despawned(s, e), e) == despawned(s, e),
        inserted(despawned(s, e), e, c) == despawned(s, e),
        removed(despawned(s, e), e, kind) == despawned(s, e),
        forall|other: Entity| other != e ==> live(despawned(s, e), other) == live(s, other),
{
    assert(despawned(despawned(s, e), e) =~= despawned(s, e));
}

/// A spawned entity is new: its identifier named no live entity before,
/// and every other entity is as it was.
pub proof fn lemma_spawn_is_fresh(s: Slots, bundle: Components)
    requires
        s.len() < usize::MAX,
    ensures
        !live(s, entity_at(s.len() as int)),
        live(spawned(s, bundle), entity_at(s.len() as int)),
        spawned(s, bundle)[s.len() as int] == Some(bundle),
        forall|i: int| 0 <= i < s.len() ==> spawned(s, bundle)[i] == s[i],
{
}

/// The component types that `c` holds.
pub open spec fn kinds_of(c: Components) -> KindSet {
    KindSet {
        transform: c.transform is Some,
        player_ship: c.player_ship is Some,
        bullet: c.bullet is Some,
        enemy: c.enemy is Some,
        position: c.position is Some,
        block: c.block is Some,
        wall: c.wall is Some,
    }
}

/// What a slot holds, values aside: nothing, or components of which
/// types.
pub open spec fn shape(slot: Option<Components>) -> Option<KindSet> {
    match slot {
        Some(c) => Some(kinds_of(c)),
        None => None,
    }
}

/// Whether two stores hold the same entities with components of the same
/// types. Changing component values keeps the shape; spawning,
/// despawning, inserting and removing do not.
pub open spec fn same_shape(a: Slots, b: Slots) -> bool {
    &&& a.len() == b.len()
    &&& forall|i: int| 0 <= i < a.len() ==> shape(#[trigger] a[i]) == shape(b[i])
}

/// Whether `b` holds the same entities as `a`, with components of the
/// same types and at the same places of the line. Motion in the plane
/// keeps a store steady.
pub open spec fn steady(a: Slots, b: Slots) -> bool {
    &&& same_shape(a, b)
    &&& forall|i: int|
        0 <= i < a.len() && (#[trigger] a[i]) is Some ==> (a[i]->0).position == (b[i]->0).position
}

/// A filter cannot tell stores of the same shape apart.
pub proof fn lemma_same_shape_accepted(a: Slots, b: Slots, f: Filter, i: int)
    requires
        same_shape(a, b),
    ensures
        accepted(a, i, f) == accepted(b, i, f),
{
    if 0 <= i < a.len() {
        assert(shape(a[i]) == shape(b[i]));
    }
}

/// A query finds the same entities in stores of the same shape.
pub proof fn lemma_same_shape_first_match(a: Slots, b: Slots, f: Filter, from: int)
    requires
        same_shape(a, b),
        0 <= from,
    ensures
        first_match(a, f, from) == first_match(b, f, from),
    decreases a.len() - from,
{
    if from < a.len() {
        lemma_same_shape_accepted(a, b, f, from);
        lemma_same_shape_first_match(a, b, f, from + 1);
    }
}

/// Filters that exclude one another share no entity.
pub proof fn lemma_disjoint_filters(s: Slots, f: Filter, g: Filter, i: int)
    requires
        f.excludes(g),
    ensures
        !(accepted(s, i, f) && accepted(s, i, g)),
{
}

/// The component table.
pub struct Store {
    slots: Vec<Option<Components>>,
}

impl View for Store {
    type V = Slots;

    closed spec fn view(&self) -> Slots {
        self.slots@
    }
}

impl Store {
    /// The store without entities.
    pub fn new() -> (s: Store)
        ensures
            s@ == Seq::<Option<Components>>::empty(),
    {
        Store { slots: Vec::new() }
    }

    /// The table never outgrows the identifier type.
    pub proof fn lemma_len_fits(&self)
        ensures
            self@.len() <= usize::MAX,
    {
        assert(self.slots@.len() == self.slots.len());
    }

    /// Number of identifiers handed out so far.
    pub fn len(&self) -> (n: usize)
        ensures
            n == self@.len(),
    {
        self.slots.len()
    }

    /// Creates an entity without components.
    pub fn spawn(&mut self) -> (e: Entity)
        ensures
            e.index == old(self)@.len(),
            final(self)@ == spawned(old(self)@, Components::none()),
    {
        let e = Entity { index: self.slots.len() };
        self.slots.push(Some(Components::empty()));
        e
    }

    /// Creates an entity that carries `bundle`.
    pub fn spawn_bundle(&mut self, bundle: Components) -> (e: Entity)
        ensures
            e.index == old(self)@.len(),
            final(self)@ == spawned(old(self)@, bundle),
    {
        let e = Entity { index: self.slots.len() };
        self.slots.push(Some(bundle));
        e
    }

    /// Attaches `c` to `e`, in place of any component of the same type.
    pub fn insert(&mut self, e: Entity, c: Component)
        ensures
            final(self)@ == inserted(old(self)@, e, c),
    {
        if e.index < self.slots.len() {
            if let Some(held) = self.slots[e.index] {
                self.slots.set(e.index, Some(held.insert(c)));
            }
        }
    }

    /// Detaches the component of type `kind` from `e`.
    pub fn remove(&mut self, e: Entity, kind: ComponentKind)
        ensures
            final(self)@ == removed(old(self)@, e, kind),
    {
        if e.index < self.slots.len() {
            if let Some(held) = self.slots[e.index] {
                self.slots.set(e.index, Some(held.remove(kind)));
            }
        }
    }

    /// Destroys `e` with all its components. Despawning an entity that is
    /// already gone changes nothing.
    pub fn despawn(&mut self, e: Entity)
        ensures
            final(self)@ == despawned(old(self)@, e),
    {
        if e.index < self.slots.len() {
            self.slots.set(e.index, None);
        }
    }

    /// Whether `e` is live.
    pub fn contains(&self, e: Entity) -> (b: bool)
        ensures
            b == live(self@, e),
    {
        e.index < self.slots.len() && self.slots[e.index].is_some()
    }

    /// The components of `e`, or `None` if `e` is not live.
    pub fn get(&self, e: Entity) -> (r: Option<Components>)
        ensures
            r == (if live(self@, e) {
                self@[e.index as int]
            } else {
                None
            }),
    {
        if e.index < self.slots.len() {
            self.slots[e.index]
        } else {
            None
        }
    }

    /// Whether `e` is live and passes `filter`.
    pub fn matches(&self, e: Entity, filter: &Filter) -> (b: bool)
        ensures
            b == accepted(self@, e.index as int, *filter),
    {
        if e.index < self.slots.len() {
            match self.slots[e.index] {
                Some(c) => filter.test(&c),
                None => false,
            }
        } else {
            false
        }
    }

    /// The first entity at or after position `from` that passes `filter`,
    /// with its components. A system walks a query by calling this with
    /// `from` one past the entity it got last.
    pub fn next_match(&self, from: usize, filter: &Filter) -> (r: Option<(Entity, Components)>)
        ensures
            match r {
                Some((e, c)) => e.index == first_match(self@, *filter, from as int) && from
                    <= e.index < self@.len() && accepted(self@, e.index as int, *filter)
                    && self@[e.index as int] == Some(c),
                None => first_match(self@, *filter, from as int) == self@.len(),
            },
            forall|i: int| from <= i < first_match(self@, *filter, from as int) ==> !accepted(
                self@,
                i,
                *filter,
            ),
    {
        let mut i: usize = from;
        while i < self.slots.len()
            invariant
                from <= i,
                first_match(self@, *filter, from as int) == first_match(self@, *filter, i as int),
            decreases self.slots.len() - i,
        {
            if let Some(c) = self.slots[i] {
                if filter.test(&c) {
                    proof {
                        lemma_first_match(self@, *filter, from as int);
                    }
                    return Some((Entity { index: i }, c));
                }
            }
            i += 1;
        }
        proof {
            lemma_first_match(self@, *filter, from as int);
        }
        None
    }

    /// All live entities that pass `filter`, in spawn order.
    pub fn query(&self, filter: &Filter) -> (r: Vec<Entity>)
        ensures
            r@ == matching(self@, *filter),
    {
        let mut out: Vec<Entity> = Vec::new();
        let mut i: usize = 0;
        while i < self.slots.len()
            invariant
                i <= self.slots.len(),
                out@ == matching_upto(self@, *filter, i as nat),
            decreases self.slots.len() - i,
        {
            if self.matches(Entity { index: i }, filter) {
                out.push(Entity { index: i });
            }
            i += 1;
        }
        out
    }

    /// Two queries at once, for a system that compares two groups of
    /// entities. The pair is granted only if the filters exclude one
    /// another, which makes the two results disjoint.
    pub fn query_pair(&self, first: &Filter, second: &Filter) -> (r: Option<
        (Vec<Entity>, Vec<Entity>),
    >)
        ensures
            r is Some <==> first.excludes(*second),
            r matches Some(pair) ==> {
                &&& pair.0@ == matching(self@, *first)
                &&& pair.1@ == matching(self@, *second)
                &&& forall|i: int, j: int|
                    0 <= i < pair.0@.len() && 0 <= j < pair.1@.len() ==> pair.0@[i] != pair.1@[j]
            },
    {
        if first.is_disjoint(second) {
            let a = self.query(first);
            let b = self.query(second);
            proof {
                self.lemma_len_fits();
                lemma_matching(self@, *first, self@.len());
                lemma_matching(self@, *second, self@.len());
            }
            Some((a, b))
        } else {
            None
        }
    }
}

} // verus!
