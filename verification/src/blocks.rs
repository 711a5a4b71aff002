//! A world on a line: blocks slide to the right, one step per tick, and a
//! block that reaches the place of a wall is taken out. It needs no
//! window and shows the store, the queries and the command buffer at work.

use crate::commands::{Command, Commands};
use crate::components::{Block, Position, Wall};
use crate::echo::Message;
use crate::store::{
    accepted,
    entity_at,
    same_shape,
    shape,
    Component,
    ComponentKind,
    Components,
    Entity,
    Filter,
    KindSet,
    Slots,
    Store,
};
use vstd::prelude::*;

verus! {

/// The filter of the blocks that have a place.
pub open spec fn blocks() -> Filter {
    Filter {
        with: KindSet::nothing().plus(ComponentKind::Position).plus(ComponentKind::Block),
        without: KindSet::nothing(),
    }
}

/// The filter of the walls that have a place.
pub open spec fn walls() -> Filter {
    Filter {
        with: KindSet::nothing().plus(ComponentKind::Position).plus(ComponentKind::Wall),
        without: KindSet::nothing(),
    }
}

/// The components of a block at `at`.
pub open spec fn block_bundle(at: i32) -> Components {
    Components { position: Some(Position(at)), block: Some(Block), ..Components::none() }
}

/// The components of a wall at `at`.
pub open spec fn wall_bundle(at: i32) -> Components {
    Components { position: Some(Position(at)), wall: Some(Wall), ..Components::none() }
}

/// The requests that set the line up: blocks at 1 and 10, walls at 5 and
/// 20.
pub open spec fn line_setup() -> Seq<Command> {
    seq![
        Command::Spawn(block_bundle(1)),
        Command::Spawn(block_bundle(10)),
        Command::Spawn(wall_bundle(5)),
        Command::Spawn(wall_bundle(20)),
    ]
}

/// The place of the entity in slot `i`.
pub open spec fn place(s: Slots, i: int) -> int {
    ((s[i]->0).position->0).0 as int
}

/// Whether every block can take a step: none stands at the end of the
/// line.
pub open spec fn blocks_can_move(s: Slots) -> bool {
    forall|i: int| #[trigger] accepted(s, i, blocks()) ==> place(s, i) < i32::MAX
}

/// The store after every block has moved one step to the right.
pub open spec fn blocks_moved(s: Slots) -> Slots {
    Seq::new(
        s.len(),
        |i: int|
            if accepted(s, i, blocks()) {
                Some((s[i]->0).with(Component::Position(Position((place(s, i) + 1) as i32))))
            } else {
                s[i]
            },
    )
}

/// The lines that report the blocks among the first `n` slots, in spawn
/// order.
pub open spec fn block_lines(s: Slots, n: nat) -> Seq<Message>
    decreases n,
{
    if n == 0 {
        Seq::empty()
    } else {
        let before = block_lines(s, (n - 1) as nat);
        if accepted(s, n - 1, blocks()) {
            before.push(Message::Block(place(s, n - 1) as i32))
        } else {
            before
        }
    }
}

/// The report of one tick: the header, then one line per block.
pub open spec fn block_report(s: Slots) -> Seq<Message> {
    seq![Message::PrintHeader] + block_lines(s, s.len())
}

/// The despawn requests for the block in slot `b` that the walls among
/// the first `m` slots give rise to: one for every wall at its place.
pub open spec fn wall_requests(s: Slots, b: int, m: nat) -> Seq<Command>
    decreases m,
{
    if m == 0 {
        Seq::empty()
    } else {
        let before = wall_requests(s, b, (m - 1) as nat);
        if accepted(s, m - 1, walls()) && place(s, m - 1) == place(s, b) {
            before.push(Command::Despawn(entity_at(b)))
        } else {
            before
        }
    }
}

/// The despawn requests of one tick for the blocks among the first `n`
/// slots, in spawn order.
pub open spec fn crash_requests(s: Slots, n: nat) -> Seq<Command>
    decreases n,
{
    if n == 0 {
        Seq::empty()
    } else {
        let before = crash_requests(s, (n - 1) as nat);
        if accepted(s, n - 1, blocks()) {
            before + wall_requests(s, n - 1, s.len())
        } else {
            before
        }
    }
}

/// Sliding changes component values only.
pub proof fn lemma_blocks_moved_shape(s: Slots)
    ensures
        same_shape(s, blocks_moved(s)),
{
    assert forall|i: int| 0 <= i < s.len() implies shape(#[trigger] s[i]) == shape(
        blocks_moved(s)[i],
    ) by {}
}

/// Every request of a tick names a block.
pub proof fn lemma_crash_requests_name_blocks(s: Slots, n: nat)
    ensures
        forall|k: int|
            0 <= k < crash_requests(s, n).len() ==> exists|b: int|
                0 <= b < n && accepted(s, b, blocks()) && #[trigger] crash_requests(s, n)[k]
                    == Command::Despawn(entity_at(b)),
    decreases n,
{
    if n > 0 {
        let before = crash_requests(s, (n - 1) as nat);
        let now = crash_requests(s, n);
        lemma_crash_requests_name_blocks(s, (n - 1) as nat);
        lemma_wall_requests(s, n - 1, s.len());
        assert forall|k: int| 0 <= k < now.len() implies exists|b: int|
            0 <= b < n && accepted(s, b, blocks()) && #[trigger] now[k] == Command::Despawn(
                entity_at(b),
            ) by {
            if k < before.len() {
                assert(now[k] == before[k]);
                let b = choose|b: int|
                    0 <= b < n - 1 && accepted(s, b, blocks()) && before[k] == Command::Despawn(
                        entity_at(b),
                    );
                assert(0 <= b < n && accepted(s, b, blocks()) && now[k] == Command::Despawn(
                    entity_at(b),
                ));
            } else {
                let w = wall_requests(s, n - 1, s.len());
                assert(now[k] == w[k - before.len()]);
                assert(accepted(s, n - 1, blocks()) && now[k] == Command::Despawn(
                    entity_at(n - 1),
                ));
            }
        }
    }
}

/// Slots without a block add no line.
pub proof fn lemma_block_lines_skip(s: Slots, a: nat, b: nat)
    requires
        a <= b,
        forall|i: int| a <= i < b ==> !accepted(s, i, blocks()),
    ensures
        block_lines(s, b) == block_lines(s, a),
    decreases b - a,
{
    if a < b {
        lemma_block_lines_skip(s, a, (b - 1) as nat);
    }
}

/// Slots without a wall add no request.
pub proof fn lemma_wall_requests_skip(s: Slots, block: int, a: nat, b: nat)
    requires
        a <= b,
        forall|i: int| a <= i < b ==> !accepted(s, i, walls()),
    ensures
        wall_requests(s, block, b) == wall_requests(s, block, a),
    decreases b - a,
{
    if a < b {
        lemma_wall_requests_skip(s, block, a, (b - 1) as nat);
    }
}

/// Slots without a block add no request.
pub proof fn lemma_crash_requests_skip(s: Slots, a: nat, b: nat)
    requires
        a <= b,
        forall|i: int| a <= i < b ==> !accepted(s, i, blocks()),
    ensures
        crash_requests(s, b) == crash_requests(s, a),
    decreases b - a,
{
    if a < b {
        lemma_crash_requests_skip(s, a, (b - 1) as nat);
    }
}

/// A block is only asked to go if a wall stands at its place, and it is
/// asked to go if one does.
pub proof fn lemma_wall_requests(s: Slots, b: int, m: nat)
    ensures
        forall|k: int|
            0 <= k < wall_requests(s, b, m).len() ==> #[trigger] wall_requests(s, b, m)[k]
                == Command::Despawn(entity_at(b)),
        wall_requests(s, b, m).len() > 0 <==> exists|w: int|
            0 <= w < m && #[trigger] accepted(s, w, walls()) && place(s, w) == place(s, b),
    decreases m,
{
    if m > 0 {
        lemma_wall_requests(s, b, (m - 1) as nat);
        let before = wall_requests(s, b, (m - 1) as nat);
        if accepted(s, m - 1, walls()) && place(s, m - 1) == place(s, b) {
        } else if before.len() > 0 {
            let w = choose|w: int|
                0 <= w < m - 1 && #[trigger] accepted(s, w, walls()) && place(s, w) == place(s, b);
            assert(0 <= w < m && accepted(s, w, walls()) && place(s, w) == place(s, b));
        }
    }
}

/// Whether every block can take a step.
pub fn can_move(store: &Store) -> (b: bool)
    ensures
        b == blocks_can_move(store@),
{
    let filter = Filter::any().with(ComponentKind::Position).with(ComponentKind::Block);
    let mut i: usize = 0;
    while i < store.len()
        invariant
            filter == blocks(),
            i <= store@.len(),
            forall|j: int| 0 <= j < i && #[trigger] accepted(store@, j, blocks()) ==> place(
                store@,
                j,
            ) < i32::MAX,
        decreases store@.len() - i,
    {
        if store.matches(Entity { index: i }, &filter) {
            if let Some(c) = store.get(Entity { index: i }) {
                if let Some(p) = c.position {
                    if p.0 == i32::MAX {
                        assert(accepted(store@, i as int, blocks()));
                        return false;
                    }
                }
            }
        }
        i += 1;
    }
    true
}

/// Asks for the entities of the line.
pub fn setup(commands: &mut Commands)
    ensures
        final(commands)@ == old(commands)@ + line_setup(),
{
    let mut block = Components::empty();
    block.block = Some(Block);
    let mut wall = Components::empty();
    wall.wall = Some(Wall);
    block.position = Some(Position(1));
    commands.spawn(block);
    block.position = Some(Position(10));
    commands.spawn(block);
    wall.position = Some(Position(5));
    commands.spawn(wall);
    wall.position = Some(Position(20));
    commands.spawn(wall);
    assert(commands@ =~= old(commands)@ + line_setup());
}

/// Reports the place of every block.
pub fn print_system(store: &Store, console: &mut Vec<Message>)
    ensures
        final(console)@ == old(console)@ + block_report(store@),
{
    console.push(Message::PrintHeader);
    let filter = Filter::any().with(ComponentKind::Position).with(ComponentKind::Block);
    let mut cur: usize = 0;
    assert(console@ =~= old(console)@ + (seq![Message::PrintHeader] + block_lines(store@, 0)));
    loop
        invariant
            filter == blocks(),
            cur <= store@.len(),
            console@ == old(console)@ + (seq![Message::PrintHeader] + block_lines(
                store@,
                cur as nat,
            )),
        ensures
            console@ == old(console)@ + block_report(store@),
        decreases store@.len() - cur,
    {
        proof {
            store.lemma_len_fits();
        }
        match store.next_match(cur, &filter) {
            None => {
                proof {
                    lemma_block_lines_skip(store@, cur as nat, store@.len());
                }
                break ;
            },
            Some((e, c)) => {
                proof {
                    lemma_block_lines_skip(store@, cur as nat, e.index as nat);
                }
                if let Some(p) = c.position {
                    console.push(Message::Block(p.0));
                }
                assert(console@ =~= old(console)@ + (seq![Message::PrintHeader] + block_lines(
                    store@,
                    (e.index + 1) as nat,
                )));
                cur = e.index + 1;
            },
        }
    }
}

/// Moves every block one step to the right.
pub fn move_block_system(store: &mut Store)
    requires
        blocks_can_move(old(store)@),
    ensures
        final(store)@ == blocks_moved(old(store)@),
{
    let filter = Filter::any().with(ComponentKind::Position).with(ComponentKind::Block);
    let mut cur: usize = 0;
    loop
        invariant
            filter == blocks(),
            blocks_can_move(old(store)@),
            cur <= store@.len(),
            store@.len() == old(store)@.len(),
            forall|i: int| 0 <= i < cur ==> store@[i] == blocks_moved(old(store)@)[i],
            forall|i: int| cur <= i < store@.len() ==> store@[i] == old(store)@[i],
        ensures
            store@ == blocks_moved(old(store)@),
        decreases store@.len() - cur,
    {
        let ghost pre = store@;
        proof {
            store.lemma_len_fits();
        }
        match store.next_match(cur, &filter) {
            None => {
                assert forall|i: int| cur <= i < pre.len() implies pre[i] == blocks_moved(
                    old(store)@,
                )[i] by {
                    assert(!accepted(pre, i, filter));
                }
                assert(store@ =~= blocks_moved(old(store)@));
                break ;
            },
            Some((e, c)) => {
                assert(accepted(old(store)@, e.index as int, blocks()));
                if let Some(p) = c.position {
                    store.insert(e, Component::Position(Position(p.0 + 1)));
                }
                assert forall|i: int| 0 <= i <= e.index implies store@[i] == blocks_moved(
                    old(store)@,
                )[i] by {
                    if cur <= i < e.index {
                        assert(!accepted(pre, i, filter));
                    }
                }
                cur = e.index + 1;
            },
        }
    }
}

/// The requests for one block: one for every wall at its place.
fn check_walls(commands: &mut Commands, store: &Store, block_entity: Entity, block_pos: Position)
    requires
        accepted(store@, block_entity.index as int, blocks()),
        block_pos.0 == place(store@, block_entity.index as int),
    ensures
        final(commands)@ == old(commands)@ + wall_requests(
            store@,
            block_entity.index as int,
            store@.len(),
        ),
{
    let filter = Filter::any().with(ComponentKind::Position).with(ComponentKind::Wall);
    let mut cur: usize = 0;
    let ghost b = block_entity.index as int;
    assert(commands@ =~= old(commands)@ + wall_requests(store@, b, 0));
    loop
        invariant
            filter == walls(),
            b == block_entity.index,
            block_pos.0 == place(store@, b),
            cur <= store@.len(),
            commands@ == old(commands)@ + wall_requests(store@, b, cur as nat),
        ensures
            commands@ == old(commands)@ + wall_requests(store@, b, store@.len()),
        decreases store@.len() - cur,
    {
        proof {
            store.lemma_len_fits();
        }
        match store.next_match(cur, &filter) {
            None => {
                proof {
                    lemma_wall_requests_skip(store@, b, cur as nat, store@.len());
                }
                break ;
            },
            Some((e, c)) => {
                proof {
                    lemma_wall_requests_skip(store@, b, cur as nat, e.index as nat);
                }
                if let Some(wall_pos) = c.position {
                    if block_pos.0 == wall_pos.0 {
                        commands.despawn(block_entity);
                    }
                }
                assert(entity_at(b) == block_entity);
                assert(commands@ =~= old(commands)@ + wall_requests(
                    store@,
                    b,
                    (e.index + 1) as nat,
                ));
                cur = e.index + 1;
            },
        }
    }
}

/// Asks for every block that stands at the place of a wall to be
/// despawned, once for each such wall.
pub fn collision_system(commands: &mut Commands, store: &Store)
    ensures
        final(commands)@ == old(commands)@ + crash_requests(store@, store@.len()),
{
    let filter = Filter::any().with(ComponentKind::Position).with(ComponentKind::Block);
    let mut cur: usize = 0;
    assert(commands@ =~= old(commands)@ + crash_requests(store@, 0));
    loop
        invariant
            filter == blocks(),
            cur <= store@.len(),
            commands@ == old(commands)@ + crash_requests(store@, cur as nat),
        ensures
            commands@ == old(commands)@ + crash_requests(store@, store@.len()),
        decreases store@.len() - cur,
    {
        proof {
            store.lemma_len_fits();
        }
        match store.next_match(cur, &filter) {
            None => {
                proof {
                    lemma_crash_requests_skip(store@, cur as nat, store@.len());
                }
                break ;
            },
            Some((e, c)) => {
                proof {
                    lemma_crash_requests_skip(store@, cur as nat, e.index as nat);
                }
                if let Some(block_pos) = c.position {
                    check_walls(commands, store, e, block_pos);
                }
                assert(commands@ =~= old(commands)@ + crash_requests(
                    store@,
                    (e.index + 1) as nat,
                ));
                cur = e.index + 1;
            },
        }
    }
}

} // verus!
