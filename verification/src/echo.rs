//! Systems that report what the input devices do. They show the event
//! readers and the pressed-state tables at work.
//!
//! A system does not print. It appends messages to a console buffer, and
//! the host writes them out.

use crate::events::{CursorMoved, Events, GameOverEvent, ReaderId};
use crate::input::{Input, KeyboardInput, KeyCode, MouseButton, MouseButtonInput};
use vstd::prelude::*;

verus! {

/// One line for the console.
#[derive(Clone, Copy, Debug, PartialEq, Eq)]
pub enum Message {
    /// Opens the report on the blocks.
    PrintHeader,
    /// A block stands at the given place.
    Block(i32),
    /// The pointer moved to the given window position.
    CursorMoved(i32, i32),
    /// The left mouse button went down.
    MouseClickLeft,
    /// The left mouse button went up.
    MouseClickLeftReleased,
    /// The right mouse button went down.
    MouseClickRight,
    /// The middle mouse button went down.
    MouseClickMiddle,
    /// Another mouse button, with the given number, went down.
    MouseClickOther(u16),
    /// The left mouse button is down.
    MousePressedLeft,
    /// The right mouse button went down since the last tick.
    MouseJustPressedRight,
    /// The space bar went down.
    SpacePressed,
    /// The space bar went up.
    SpaceReleased,
    /// The up key is down.
    KeyUp,
    /// The game is over.
    GameOver,
}

/// The line that reports a pointer move.
pub open spec fn move_line(ev: CursorMoved) -> Message {
    Message::CursorMoved(ev.x, ev.y)
}

/// The lines that report the pointer moves `moves`.
pub open spec fn move_lines(moves: Seq<CursorMoved>) -> Seq<Message> {
    Seq::new(moves.len(), |i: int| move_line(moves[i]))
}

/// The line that reports a mouse button event, if it is one to report:
/// the left button going down or up, and any other button going down.
pub open spec fn click_line(ev: MouseButtonInput) -> Option<Message> {
    match (ev.button, ev.pressed) {
        (MouseButton::Left, true) => Some(Message::MouseClickLeft),
        (MouseButton::Left, false) => Some(Message::MouseClickLeftReleased),
        (MouseButton::Right, true) => Some(Message::MouseClickRight),
        (MouseButton::Middle, true) => Some(Message::MouseClickMiddle),
        (MouseButton::Other(code), true) => Some(Message::MouseClickOther(code)),
        _ => None,
    }
}

/// The lines that report the mouse button events `clicks`.
pub open spec fn click_lines(clicks: Seq<MouseButtonInput>) -> Seq<Message>
    decreases clicks.len(),
{
    if clicks.len() == 0 {
        Seq::empty()
    } else {
        let before = click_lines(clicks.drop_last());
        match click_line(clicks.last()) {
            Some(line) => before.push(line),
            None => before,
        }
    }
}

/// The line that reports a keyboard event, if it is one to report: the
/// space bar going down or up.
pub open spec fn key_line(ev: KeyboardInput) -> Option<Message> {
    match (ev.key_code, ev.pressed) {
        (Some(KeyCode::Space), true) => Some(Message::SpacePressed),
        (Some(KeyCode::Space), false) => Some(Message::SpaceReleased),
        _ => None,
    }
}

/// The lines that report the keyboard events `keys`.
pub open spec fn key_lines(keys: Seq<KeyboardInput>) -> Seq<Message>
    decreases keys.len(),
{
    if keys.len() == 0 {
        Seq::empty()
    } else {
        let before = key_lines(keys.drop_last());
        match key_line(keys.last()) {
            Some(line) => before.push(line),
            None => before,
        }
    }
}

/// The lines that report the state of the mouse.
pub open spec fn mouse_state_lines(left_down: bool, right_went_down: bool) -> Seq<Message> {
    (if left_down {
        seq![Message::MousePressedLeft]
    } else {
        Seq::empty()
    }) + (if right_went_down {
        seq![Message::MouseJustPressedRight]
    } else {
        Seq::empty()
    })
}

/// Reports every pointer move since the last tick.
pub fn mouse_move_system(
    cursor_moved_events: &mut Events<CursorMoved>,
    reader: ReaderId,
    console: &mut Vec<Message>,
)
    requires
        old(cursor_moved_events).wf(),
    ensures
        final(cursor_moved_events).wf(),
        final(cursor_moved_events)@ == old(cursor_moved_events)@.drained(reader),
        final(console)@ == old(console)@ + move_lines(old(cursor_moved_events)@.pending(reader)),
{
    let moves = cursor_moved_events.drain(reader);
    let mut i: usize = 0;
    while i < moves.len()
        invariant
            i <= moves.len(),
            console@ == old(console)@ + move_lines(moves@.take(i as int)),
        decreases moves.len() - i,
    {
        console.push(Message::CursorMoved(moves[i].x, moves[i].y));
        assert(console@ =~= old(console)@ + move_lines(moves@.take(i + 1)));
        i += 1;
    }
    assert(moves@.take(moves.len() as int) =~= moves@);
}

/// Reports the mouse button events since the last tick.
pub fn mouse_click_system(
    events: &mut Events<MouseButtonInput>,
    reader: ReaderId,
    console: &mut Vec<Message>,
)
    requires
        old(events).wf(),
    ensures
        final(events).wf(),
        final(events)@ == old(events)@.drained(reader),
        final(console)@ == old(console)@ + click_lines(old(events)@.pending(reader)),
{
    let clicks = events.drain(reader);
    let mut i: usize = 0;
    assert(console@ =~= old(console)@ + click_lines(clicks@.take(0)));
    while i < clicks.len()
        invariant
            i <= clicks.len(),
            console@ == old(console)@ + click_lines(clicks@.take(i as int)),
        decreases clicks.len() - i,
    {
        let ev = clicks[i];
        proof {
            assert(clicks@.take(i + 1).drop_last() =~= clicks@.take(i as int));
            assert(clicks@.take(i + 1).last() == ev);
        }
        match (ev.button, ev.pressed) {
            (MouseButton::Left, true) => console.push(Message::MouseClickLeft),
            (MouseButton::Left, false) => console.push(Message::MouseClickLeftReleased),
            (MouseButton::Right, true) => console.push(Message::MouseClickRight),
            (MouseButton::Middle, true) => console.push(Message::MouseClickMiddle),
            (MouseButton::Other(code), true) => console.push(Message::MouseClickOther(code)),
            _ => (),
        }
        assert(console@ =~= old(console)@ + click_lines(clicks@.take(i + 1)));
        i += 1;
    }
    assert(clicks@.take(clicks.len() as int) =~= clicks@);
}

/// Reports the state of the mouse: a line on every tick on which the left
/// button is down, and a line on the tick on which the right button went
/// down.
pub fn mouse_state_system(input: &Input, console: &mut Vec<Message>)
    ensures
        final(console)@ == old(console)@ + mouse_state_lines(
            input@.pressed.contains(MouseButton::Left.code_of()),
            input@.just_pressed.contains(MouseButton::Right.code_of()),
        ),
{
    if input.pressed(MouseButton::Left.code()) {
        // Comes on every tick for as long as the button is held.
        console.push(Message::MousePressedLeft);
    }
    if input.just_pressed(MouseButton::Right.code()) {
        // Comes once, and not again until the button went up.
        console.push(Message::MouseJustPressedRight);
    }
    assert(console@ =~= old(console)@ + mouse_state_lines(
        input@.pressed.contains(MouseButton::Left.code_of()),
        input@.just_pressed.contains(MouseButton::Right.code_of()),
    ));
}

/// Reports the keyboard events since the last tick.
pub fn keyboard_event_system(
    events: &mut Events<KeyboardInput>,
    reader: ReaderId,
    console: &mut Vec<Message>,
)
    requires
        old(events).wf(),
    ensures
        final(events).wf(),
        final(events)@ == old(events)@.drained(reader),
        final(console)@ == old(console)@ + key_lines(old(events)@.pending(reader)),
{
    let keys = events.drain(reader);
    let mut i: usize = 0;
    assert(console@ =~= old(console)@ + key_lines(keys@.take(0)));
    while i < keys.len()
        invariant
            i <= keys.len(),
            console@ == old(console)@ + key_lines(keys@.take(i as int)),
        decreases keys.len() - i,
    {
        let ev = keys[i];
        proof {
            assert(keys@.take(i + 1).drop_last() =~= keys@.take(i as int));
            assert(keys@.take(i + 1).last() == ev);
        }
        match (ev.key_code, ev.pressed) {
            (Some(KeyCode::Space), true) => console.push(Message::SpacePressed),
            (Some(KeyCode::Space), false) => console.push(Message::SpaceReleased),
            _ => (),
        }
        assert(console@ =~= old(console)@ + key_lines(keys@.take(i + 1)));
        i += 1;
    }
    assert(keys@.take(keys.len() as int) =~= keys@);
}

/// Reports on every tick on which the up key is down.
pub fn keyboard_state_system(state: &Input, console: &mut Vec<Message>)
    ensures
        final(console)@ == (if state@.pressed.contains(KeyCode::Up.code_of()) {
            old(console)@.push(Message::KeyUp)
        } else {
            old(console)@
        }),
{
    if state.pressed(KeyCode::Up.code()) {
        console.push(Message::KeyUp);
    }
}

/// Sends the game-over signal on the tick on which the left mouse button
/// went down.
pub fn send_game_over_event_system(input: &Input, events: &mut Events<GameOverEvent>)
    requires
        old(events).wf(),
    ensures
        final(events).wf(),
        final(events)@ == (if input@.just_pressed.contains(MouseButton::Left.code_of()) {
            old(events)@.sent(GameOverEvent)
        } else {
            old(events)@
        }),
{
    if input.just_pressed(MouseButton::Left.code()) {
        events.send(GameOverEvent)
    }
}

/// Reports every game-over signal since the last tick.
pub fn game_over_event_system(
    events: &mut Events<GameOverEvent>,
    reader: ReaderId,
    console: &mut Vec<Message>,
)
    requires
        old(events).wf(),
    ensures
        final(events).wf(),
        final(events)@ == old(events)@.drained(reader),
        final(console)@ == old(console)@ + Seq::new(
            old(events)@.pending(reader).len(),
            |i: int| Message::GameOver,
        ),
{
    let signals = events.drain(reader);
    let mut i: usize = 0;
    while i < signals.len()
        invariant
            i <= signals.len(),
            console@ == old(console)@ + Seq::new(i as nat, |k: int| Message::GameOver),
        decreases signals.len() - i,
    {
        console.push(Message::GameOver);
        assert(console@ =~= old(console)@ + Seq::new((i + 1) as nat, |k: int| Message::GameOver));
        i += 1;
    }
}

} // verus!
