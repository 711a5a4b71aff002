//! Buttons and keys: the level-state table that the host fills and the
//! systems read, and the events that report changes.

use vstd::prelude::*;

verus! {

/// A mouse button.
#[derive(Clone, Copy, Debug, PartialEq, Eq)]
pub enum MouseButton {
    Left,
    Right,
    Middle,
    Other(u16),
}

/// A key of the keyboard.
#[derive(Clone, Copy, Debug, PartialEq, Eq)]
pub enum KeyCode {
    Space,
    Up,
    Down,
    Left,
    Right,
    Other(u32),
}

impl MouseButton {
    /// The number that stands for this button in an [`Input`] table.
    pub open spec fn code_of(self) -> u64 {
        match self {
            MouseButton::Left => 0,
            MouseButton::Right => 1,
            MouseButton::Middle => 2,
            MouseButton::Other(n) => (3 + n) as u64,
        }
    }

    /// The number that stands for this button in an [`Input`] table.
    pub fn code(&self) -> (c: u64)
        ensures
            c == self.code_of(),
    {
        match self {
            MouseButton::Left => 0,
            MouseButton::Right => 1,
            MouseButton::Middle => 2,
            MouseButton::Other(n) => 3 + *n as u64,
        }
    }

    /// Different buttons have different codes.
    pub proof fn lemma_code_injective(a: MouseButton, b: MouseButton)
        requires
            a.code_of() == b.code_of(),
        ensures
            a == b,
    {
    }
}

impl KeyCode {
    /// The number that stands for this key in an [`Input`] table.
    pub open spec fn code_of(self) -> u64 {
        match self {
            KeyCode::Space => 0,
            KeyCode::Up => 1,
            KeyCode::Down => 2,
            KeyCode::Left => 3,
            KeyCode::Right => 4,
            KeyCode::Other(n) => (5 + n) as u64,
        }
    }

    /// The number that stands for this key in an [`Input`] table.
    pub fn code(&self) -> (c: u64)
        ensures
            c == self.code_of(),
    {
        match self {
            KeyCode::Space => 0,
            KeyCode::Up => 1,
            KeyCode::Down => 2,
            KeyCode::Left => 3,
            KeyCode::Right => 4,
            KeyCode::Other(n) => 5 + *n as u64,
        }
    }

    /// Different keys have different codes.
    pub proof fn lemma_code_injective(a: KeyCode, b: KeyCode)
        requires
            a.code_of() == b.code_of(),
        ensures
            a == b,
    {
    }
}

/// A mouse button went down or up.
#[derive(Clone, Copy, Debug, PartialEq, Eq)]
pub struct MouseButtonInput {
    pub button: MouseButton,
    pub pressed: bool,
}

/// A key went down or up. The key is `None` where the host could not name
/// it.
#[derive(Clone, Copy, Debug, PartialEq, Eq)]
pub struct KeyboardInput {
    pub key_code: Option<KeyCode>,
    pub pressed: bool,
}

/// The model of an [`Input`] table: the codes that are down, and those
/// that went down or up since the table was last cleared.
pub struct InputState {
    pub pressed: Set<u64>,
    pub just_pressed: Set<u64>,
    pub just_released: Set<u64>,
}

impl InputState {
    /// The table in which nothing is down and nothing happened.
    pub open spec fn idle() -> InputState {
        InputState { pressed: Set::empty(), just_pressed: Set::empty(), just_released: Set::empty() }
    }

    /// The table after `code` goes down.
    pub open spec fn press(self, code: u64) -> InputState {
        InputState {
            pressed: self.pressed.insert(code),
            just_pressed: if self.pressed.contains(code) {
                self.just_pressed
            } else {
                self.just_pressed.insert(code)
            },
            just_released: self.just_released,
        }
    }

    /// The table after `code` goes up.
    pub open spec fn release(self, code: u64) -> InputState {
        InputState {
            pressed: self.pressed.remove(code),
            just_pressed: self.just_pressed,
            just_released: self.just_released.insert(code),
        }
    }

    /// The table at the start of the next tick.
    pub open spec fn settle(self) -> InputState {
        InputState { pressed: self.pressed, just_pressed: Set::empty(), just_released: Set::empty() }
    }
}

/// The codes that occur in `v`.
pub open spec fn members(v: Seq<u64>) -> Set<u64> {
    Set::new(|c: u64| v.contains(c))
}

/// Whether `code` occurs in `v`.
fn holds(v: &Vec<u64>, code: u64) -> (b: bool)
    ensures
        b == members(v@).contains(code),
{
    let mut i: usize = 0;
    while i < v.len()
        invariant
            i <= v.len(),
            forall|j: int| 0 <= j < i ==> v@[j] != code,
        decreases v.len() - i,
    {
        if v[i] == code {
            return true;
        }
        i += 1;
    }
    false
}

/// Adds `code` to `v` unless it is there.
fn put(v: &mut Vec<u64>, code: u64)
    ensures
        members(final(v)@) == members(old(v)@).insert(code),
{
    if !holds(v, code) {
        v.push(code);
        assert forall|c: u64| members(v@).contains(c) == members(old(v)@).insert(code).contains(
            c,
        ) by {
            if old(v)@.contains(c) {
                let j = choose|j: int| 0 <= j < old(v)@.len() && old(v)@[j] == c;
                assert(v@[j] == c);
            }
            if c == code {
                assert(v@[v@.len() - 1] == c);
            }
        }
    }
    assert(members(v@) =~= members(old(v)@).insert(code));
}

/// Takes every occurrence of `code` out of `v`.
fn take_out(v: &mut Vec<u64>, code: u64)
    ensures
        members(final(v)@) == members(old(v)@).remove(code),
{
    let mut kept: Vec<u64> = Vec::new();
    let mut i: usize = 0;
    while i < v.len()
        invariant
            i <= v.len(),
            v@ == old(v)@,
            forall|j: int| 0 <= j < kept@.len() ==> #[trigger] kept@[j] != code && v@.contains(kept@[j]),
            forall|j: int| 0 <= j < i && #[trigger] v@[j] != code ==> kept@.contains(v@[j]),
        decreases v.len() - i,
    {
        if v[i] != code {
            let ghost before = kept@;
            kept.push(v[i]);
            assert forall|j: int| 0 <= j <= i && #[trigger] v@[j] != code implies kept@.contains(
                v@[j],
            ) by {
                if j < i {
                    let k = choose|k: int| 0 <= k < before.len() && before[k] == v@[j];
                    assert(kept@[k] == v@[j]);
                } else {
                    assert(kept@[kept@.len() - 1] == v@[j]);
                }
            }
        }
        i += 1;
    }
    *v = kept;
    assert forall|c: u64| members(v@).contains(c) == members(old(v)@).remove(code).contains(c) by {
        if old(v)@.contains(c) && c != code {
            let j = choose|j: int| 0 <= j < old(v)@.len() && old(v)@[j] == c;
            assert(v@.contains(old(v)@[j]));
        }
    }
    assert(members(v@) =~= members(old(v)@).remove(code));
}

/// The pressed-state table of one device.
pub struct Input {
    pressed: Vec<u64>,
    just_pressed: Vec<u64>,
    just_released: Vec<u64>,
}

impl View for Input {
    type V = InputState;

    closed spec fn view(&self) -> InputState {
        InputState {
            pressed: members(self.pressed@),
            just_pressed: members(self.just_pressed@),
            just_released: members(self.just_released@),
        }
    }
}

impl Input {
    /// The table in which nothing is down and nothing happened.
    pub fn new() -> (t: Input)
        ensures
            t@ == InputState::idle(),
    {
        let t = Input { pressed: Vec::new(), just_pressed: Vec::new(), just_released: Vec::new() };
        assert(t@.pressed =~= Set::empty());
        assert(t@.just_pressed =~= Set::empty());
        assert(t@.just_released =~= Set::empty());
        t
    }

    /// Records that `code` went down.
    pub fn press(&mut self, code: u64)
        ensures
            final(self)@ == old(self)@.press(code),
    {
        if !holds(&self.pressed, code) {
            put(&mut self.just_pressed, code);
        }
        put(&mut self.pressed, code);
    }

    /// Records that `code` went up.
    pub fn release(&mut self, code: u64)
        ensures
            final(self)@ == old(self)@.release(code),
    {
        take_out(&mut self.pressed, code);
        put(&mut self.just_released, code);
    }

    /// Forgets what went down or up; what is down stays down. The host
    /// calls this between ticks.
    pub fn clear(&mut self)
        ensures
            final(self)@ == old(self)@.settle(),
    {
        self.just_pressed.clear();
        self.just_released.clear();
        assert(self@.just_pressed =~= Set::empty());
        assert(self@.just_released =~= Set::empty());
    }

    /// Whether `code` is down.
    pub fn pressed(&self, code: u64) -> (b: bool)
        ensures
            b == self@.pressed.contains(code),
    {
        holds(&self.pressed, code)
    }

    /// Whether `code` went down since the table was last cleared.
    pub fn just_pressed(&self, code: u64) -> (b: bool)
        ensures
            b == self@.just_pressed.contains(code),
    {
        holds(&self.just_pressed, code)
    }

    /// Whether `code` went up since the table was last cleared.
    pub fn just_released(&self, code: u64) -> (b: bool)
        ensures
            b == self@.just_released.contains(code),
    {
        holds(&self.just_released, code)
    }
}

} // verus!
