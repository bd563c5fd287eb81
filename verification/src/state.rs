//! The application state machine: which screen is current, and transition
//! events published once per actual change.

use vstd::prelude::*;

verus! {

/// Sub-screen of the options menu. `Root` is the landing page shown when the
/// options menu is entered from outside.
#[derive(Clone, Copy, PartialEq, Eq, Structural, Debug, Hash)]
pub enum OptionsSubState {
    Root,
    KeyboardMouse,
    GameSettings,
    VideoSettings,
    AudioSettings,
    Credits,
}

impl Default for OptionsSubState {
    fn default() -> (s: Self)
        ensures
            s == OptionsSubState::Root,
    {
        OptionsSubState::Root
    }
}

/// Top-level application screen. `OptionsMenu(x)` and `OptionsMenu(y)` are
/// distinct states for `x != y`: both fire their own lifecycle hooks.
#[derive(Clone, Copy, PartialEq, Eq, Structural, Debug, Hash)]
pub enum AppState {
    Loading,
    MainMenu,
    PlayMenu,
    InventoryMenu,
    OptionsMenu(OptionsSubState),
    InGame,
}

impl Default for AppState {
    fn default() -> (s: Self)
        ensures
            s == AppState::Loading,
    {
        AppState::Loading
    }
}

/// Identifier of a selectable map.
#[derive(Clone, Copy, PartialEq, Eq, Structural, Debug, Hash)]
pub enum MapId {
    Tutorial,
    BoxArena,
}

/// Session state: the map the user has picked. Defaults to `Tutorial`;
/// mutated only by the map picker, read when the game starts.
#[derive(Clone, Copy, PartialEq, Eq, Structural, Debug)]
pub struct SelectedMap(pub MapId);

impl Default for SelectedMap {
    fn default() -> (s: Self)
        ensures
            s == SelectedMap(MapId::Tutorial),
    {
        SelectedMap(MapId::Tutorial)
    }
}

/// A published state change: the screen that was left and the one entered.
/// Only emitted when the two differ.
#[derive(Clone, Copy, PartialEq, Eq, Structural, Debug)]
pub struct StateChange {
    pub prev: AppState,
    pub next: AppState,
}

/// Holds the single current screen and accepts transition requests.
///
/// Every request is accepted unconditionally; no reachability is checked.
/// A change event is published once per actual change: re-requesting the
/// current screen records it again but publishes nothing, so lifecycle
/// hooks cannot re-fire for a screen that never left.
#[derive(Clone, Copy, PartialEq, Eq, Structural, Debug)]
pub struct StateMachine {
    pub current: AppState,
}

impl StateMachine {
    /// The machine starts on the loading screen.
    pub fn new() -> (m: Self)
        ensures
            m.current == AppState::Loading,
    {
        StateMachine { current: AppState::Loading }
    }

    /// Record `target` as the current screen. Returns the change event,
    /// or `None` when `target` was already current.
    pub fn request_transition(&mut self, target: AppState) -> (ev: Option<StateChange>)
        ensures
            final(self).current == target,
            old(self).current == target <==> ev is None,
            old(self).current != target ==> ev == Some(
                StateChange { prev: old(self).current, next: target },
            ),
    {
        let prev = self.current;
        self.current = target;
        if prev == target {
            None
        } else {
            Some(StateChange { prev, next: target })
        }
    }
}

} // verus!
