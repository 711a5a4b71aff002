//! The resource store: the state that belongs to the whole simulation and
//! to no entity. There is one slot for each type of resource. A slot is
//! filled when the store is made and lives as long as the store.

use crate::components::{GlobalEnemyState, GunState};
use crate::input::{Input, InputState};
use crate::window::Window;
use vstd::prelude::*;

verus! {

/// The resources of the game, one of each type.
pub struct Resources {
    pub gun_state: GunState,
    pub enemy_state: GlobalEnemyState,
    pub window: Window,
    pub mouse: Input,
    pub keys: Input,
}

/// The model of the resource store.
pub struct ResourceValues {
    pub gun_state: GunState,
    pub enemy_state: GlobalEnemyState,
    pub window: Window,
    pub mouse: InputState,
    pub keys: InputState,
}

impl View for Resources {
    type V = ResourceValues;

    open spec fn view(&self) -> ResourceValues {
        ResourceValues {
            gun_state: self.gun_state,
            enemy_state: self.enemy_state,
            window: self.window,
            mouse: self.mouse@,
            keys: self.keys@,
        }
    }
}

impl Resources {
    /// The store with every resource at its default, for the given
    /// window.
    pub fn new(window: Window) -> (r: Resources)
        ensures
            r@ == (ResourceValues {
                gun_state: GunState { frames_to_fire: 0 },
                enemy_state: GlobalEnemyState { frames_to_next_enemy: 20, spawn_interval: 90 },
                window: window,
                mouse: InputState::idle(),
                keys: InputState::idle(),
            }),
    {
        Resources {
            gun_state: GunState::default(),
            enemy_state: GlobalEnemyState::default(),
            window,
            mouse: Input::new(),
            keys: Input::new(),
        }
    }

    /// The read view of the gun's state.
    pub fn gun_state(&self) -> (g: &GunState)
        ensures
            *g == self@.gun_state,
    {
        &self.gun_state
    }

    /// The write view of the gun's state. While it is held, nobody else
    /// can look at the store.
    pub fn gun_state_mut(&mut self) -> (g: &mut GunState)
        ensures
            *g == old(self)@.gun_state,
            final(self)@ == (ResourceValues { gun_state: *final(g), ..old(self)@ }),
    {
        &mut self.gun_state
    }

    /// The read view of the spawner's state.
    pub fn enemy_state(&self) -> (g: &GlobalEnemyState)
        ensures
            *g == self@.enemy_state,
    {
        &self.enemy_state
    }

    /// The write view of the spawner's state.
    pub fn enemy_state_mut(&mut self) -> (g: &mut GlobalEnemyState)
        ensures
            *g == old(self)@.enemy_state,
            final(self)@ == (ResourceValues { enemy_state: *final(g), ..old(self)@ }),
    {
        &mut self.enemy_state
    }

    /// The read view of the window.
    pub fn window(&self) -> (w: &Window)
        ensures
            *w == self@.window,
    {
        &self.window
    }

    /// The write view of the window.
    pub fn window_mut(&mut self) -> (w: &mut Window)
        ensures
            *w == old(self)@.window,
            final(self)@ == (ResourceValues { window: *final(w), ..old(self)@ }),
    {
        &mut self.window
    }

    /// The read view of the mouse's table.
    pub fn mouse(&self) -> (m: &Input)
        ensures
            m@ == self@.mouse,
    {
        &self.mouse
    }

    /// The write view of the mouse's table.
    pub fn mouse_mut(&mut self) -> (m: &mut Input)
        ensures
            m@ == old(self)@.mouse,
            final(self)@ == (ResourceValues { mouse: final(m)@, ..old(self)@ }),
    {
        &mut self.mouse
    }

    /// The read view of the keyboard's table.
    pub fn keys(&self) -> (k: &Input)
        ensures
            k@ == self@.keys,
    {
        &self.keys
    }

    /// The write view of the keyboard's table.
    pub fn keys_mut(&mut self) -> (k: &mut Input)
        ensures
            k@ == old(self)@.keys,
            final(self)@ == (ResourceValues { keys: final(k)@, ..old(self)@ }),
    {
        &mut self.keys
    }
}

} // verus!
