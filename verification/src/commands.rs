//! Deferred structural changes.
//!
//! A system never spawns or despawns while it walks the store. It records a
//! request, and the scheduler applies all requests of a tick in the order
//! they were made once the last system has run.

use crate::store::{
    despawned,
    inserted,
    live,
    removed,
    spawned,
    Component,
    ComponentKind,
    Components,
    Entity,
    Slots,
    Store,
};
use vstd::prelude::*;

verus! {

/// One recorded request.
#[derive(Clone, Copy, Debug, PartialEq, Eq)]
pub enum Command {
    /// Create an entity that carries the bundle.
    Spawn(Components),
    /// Destroy the entity with all its components.
    Despawn(Entity),
    /// Attach the component to the entity.
    Insert(Entity, Component),
    /// Detach the component of the given type from the entity.
    Remove(Entity, ComponentKind),
}

impl Command {
    /// Whether the request is aimed at the existing entity `e`.
    pub open spec fn names(self, e: Entity) -> bool {
        match self {
            Command::Spawn(_) => false,
            Command::Despawn(target) => target == e,
            Command::Insert(target, _) => target == e,
            Command::Remove(target, _) => target == e,
        }
    }
}

/// The store after one request.
pub open spec fn apply_one(s: Slots, c: Command) -> Slots {
    match c {
        Command::Spawn(bundle) => spawned(s, bundle),
        Command::Despawn(e) => despawned(s, e),
        Command::Insert(e, component) => inserted(s, e, component),
        Command::Remove(e, kind) => removed(s, e, kind),
    }
}

/// The store after the requests `cmds`, applied first to last.
pub open spec fn apply_all(s: Slots, cmds: Seq<Command>) -> Slots
    decreases cmds.len(),
{
    if cmds.len() == 0 {
        s
    } else {
        apply_one(apply_all(s, cmds.drop_last()), cmds.last())
    }
}

/// Number of spawn requests among `cmds`.
pub open spec fn spawn_count(cmds: Seq<Command>) -> nat
    decreases cmds.len(),
{
    if cmds.len() == 0 {
        0
    } else if cmds.last() is Spawn {
        spawn_count(cmds.drop_last()) + 1
    } else {
        spawn_count(cmds.drop_last())
    }
}

/// Applying requests one after another is applying their concatenation.
pub proof fn lemma_apply_concat(s: Slots, a: Seq<Command>, b: Seq<Command>)
    ensures
        apply_all(s, a + b) == apply_all(apply_all(s, a), b),
    decreases b.len(),
{
    if b.len() == 0 {
        assert(a + b =~= a);
    } else {
        assert((a + b).drop_last() =~= a + b.drop_last());
        assert((a + b).last() == b.last());
        lemma_apply_concat(s, a, b.drop_last());
    }
}

/// A flush adds one slot per spawn request and takes none away.
pub proof fn lemma_apply_len(s: Slots, cmds: Seq<Command>)
    ensures
        apply_all(s, cmds).len() == s.len() + spawn_count(cmds),
    decreases cmds.len(),
{
    if cmds.len() > 0 {
        lemma_apply_len(s, cmds.drop_last());
    }
}

/// Spawn requests alone append their bundles, one slot each, in the order
/// of the requests.
pub proof fn lemma_apply_spawns(s: Slots, cmds: Seq<Command>)
    requires
        forall|k: int| 0 <= k < cmds.len() ==> (#[trigger] cmds[k]) is Spawn,
    ensures
        apply_all(s, cmds) == s + Seq::new(cmds.len(), |k: int| Some(cmds[k]->Spawn_0)),
    decreases cmds.len(),
{
    let bundles = Seq::new(cmds.len(), |k: int| Some(cmds[k]->Spawn_0));
    if cmds.len() == 0 {
        assert(s + bundles =~= s);
    } else {
        let head = cmds.drop_last();
        assert forall|k: int| 0 <= k < head.len() implies (#[trigger] head[k]) is Spawn by {
            assert(head[k] == cmds[k]);
        }
        lemma_apply_spawns(s, head);
        assert(cmds[cmds.len() - 1] is Spawn);
        assert(apply_all(s, cmds) =~= s + bundles);
    }
}

/// Despawn is terminal: a flush never brings an entity back.
pub proof fn lemma_apply_keeps_dead(s: Slots, cmds: Seq<Command>, e: Entity)
    requires
        e.index < s.len(),
        !live(s, e),
    ensures
        !live(apply_all(s, cmds), e),
    decreases cmds.len(),
{
    if cmds.len() > 0 {
        lemma_apply_keeps_dead(s, cmds.drop_last(), e);
        lemma_apply_len(s, cmds.drop_last());
    }
}

/// An entity that a despawn request names is absent after the flush,
/// whatever else was requested.
pub proof fn lemma_despawn_request_wins(s: Slots, cmds: Seq<Command>, k: int, e: Entity)
    requires
        0 <= k < cmds.len(),
        cmds[k] == Command::Despawn(e),
        e.index < s.len(),
    ensures
        !live(apply_all(s, cmds), e),
    decreases cmds.len(),
{
    lemma_apply_len(s, cmds.drop_last());
    if k == cmds.len() - 1 {
    } else {
        lemma_despawn_request_wins(s, cmds.drop_last(), k, e);
    }
}

/// An entity that no request names comes out of the flush as it went in.
pub proof fn lemma_unnamed_entity_untouched(s: Slots, cmds: Seq<Command>, e: Entity)
    requires
        e.index < s.len(),
        forall|k: int| 0 <= k < cmds.len() ==> !(#[trigger] cmds[k]).names(e),
    ensures
        apply_all(s, cmds).len() >= s.len(),
        apply_all(s, cmds)[e.index as int] == s[e.index as int],
    decreases cmds.len(),
{
    if cmds.len() > 0 {
        let head = cmds.drop_last();
        assert forall|k: int| 0 <= k < head.len() implies !(#[trigger] head[k]).names(e) by {
            assert(head[k] == cmds[k]);
        }
        lemma_unnamed_entity_untouched(s, head, e);
        assert(!cmds[cmds.len() - 1].names(e));
    }
}

/// The queue of requests of the current tick.
pub struct Commands {
    queue: Vec<Command>,
}

impl View for Commands {
    type V = Seq<Command>;

    closed spec fn view(&self) -> Seq<Command> {
        self.queue@
    }
}

impl Commands {
    /// The empty queue.
    pub fn new() -> (c: Commands)
        ensures
            c@ == Seq::<Command>::empty(),
    {
        Commands { queue: Vec::new() }
    }

    /// Number of pending requests.
    pub fn len(&self) -> (n: usize)
        ensures
            n == self@.len(),
    {
        self.queue.len()
    }

    /// Whether no request is pending.
    pub fn is_empty(&self) -> (b: bool)
        ensures
            b == (self@.len() == 0),
    {
        self.queue.len() == 0
    }

    /// The `i`-th pending request.
    pub fn get(&self, i: usize) -> (r: Option<Command>)
        ensures
            r == (if i < self@.len() {
                Some(self@[i as int])
            } else {
                None
            }),
    {
        if i < self.queue.len() {
            Some(self.queue[i])
        } else {
            None
        }
    }

    /// Records a request.
    pub fn push(&mut self, c: Command)
        ensures
            final(self)@ == old(self)@.push(c),
    {
        self.queue.push(c);
    }

    /// Asks for a new entity that carries `bundle`.
    pub fn spawn(&mut self, bundle: Components)
        ensures
            final(self)@ == old(self)@.push(Command::Spawn(bundle)),
    {
        self.queue.push(Command::Spawn(bundle));
    }

    /// Asks for `e` to be destroyed.
    pub fn despawn(&mut self, e: Entity)
        ensures
            final(self)@ == old(self)@.push(Command::Despawn(e)),
    {
        self.queue.push(Command::Despawn(e));
    }

    /// Asks for `c` to be attached to `e`.
    pub fn insert(&mut self, e: Entity, c: Component)
        ensures
            final(self)@ == old(self)@.push(Command::Insert(e, c)),
    {
        self.queue.push(Command::Insert(e, c));
    }

    /// Asks for the component of type `kind` to be detached from `e`.
    pub fn remove(&mut self, e: Entity, kind: ComponentKind)
        ensures
            final(self)@ == old(self)@.push(Command::Remove(e, kind)),
    {
        self.queue.push(Command::Remove(e, kind));
    }

    /// Applies every pending request to `store`, first to last, and
    /// empties the queue.
    pub fn flush(&mut self, store: &mut Store)
        ensures
            final(store)@ == apply_all(old(store)@, old(self)@),
            final(self)@ == Seq::<Command>::empty(),
    {
        let n: usize = self.queue.len();
        let mut i: usize = 0;
        while i < n
            invariant
                i <= n,
                n == self.queue@.len(),
                self.queue@ == old(self).queue@,
                store@ == apply_all(old(store)@, self.queue@.take(i as int)),
            decreases n - i,
        {
            proof {
                let next = self.queue@.take(i + 1);
                assert(next.drop_last() =~= self.queue@.take(i as int));
                assert(next.last() == self.queue@[i as int]);
            }
            match self.queue[i] {
                Command::Spawn(bundle) => {
                    store.spawn_bundle(bundle);
                },
                Command::Despawn(e) => {
                    store.despawn(e);
                },
                Command::Insert(e, c) => {
                    store.insert(e, c);
                },
                Command::Remove(e, kind) => {
                    store.remove(e, kind);
                },
            }
            i += 1;
        }
        proof {
            assert(self.queue@.take(n as int) =~= self.queue@);
        }
        self.queue.clear();
    }
}

} // verus!
