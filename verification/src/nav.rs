//! Navigation rules: the primary bar's buttons and their target screens, the
//! options sub-navigation, edge-triggered press handling, and the highlight
//! precedence (active over hovered over idle) recomputed every tick.

use vstd::prelude::*;
use crate::state::{AppState, MapId, OptionsSubState, SelectedMap};

verus! {

/// A button of the primary navigation bar.
#[derive(Clone, Copy, PartialEq, Eq, Structural, Debug)]
pub enum NavItem {
    Home,
    Play,
    Inventory,
    Options,
    Exit,
}

/// Interaction status of a button, sampled once per tick.
#[derive(Clone, Copy, PartialEq, Eq, Structural, Debug)]
pub enum Interaction {
    Pressed,
    Hovered,
    Idle,
}

/// Styling tier of a button. `Active` overrides `Hovered`, which overrides
/// `Idle`.
#[derive(Clone, Copy, PartialEq, Eq, Structural, Debug)]
pub enum ButtonStyle {
    Active,
    Hovered,
    Idle,
}

/// What a press on a primary-bar button asks for: a screen transition, or a
/// graceful process exit (the one button with no target screen).
#[derive(Clone, Copy, PartialEq, Eq, Structural, Debug)]
pub enum NavAction {
    Navigate(AppState),
    ExitRequested,
}

/// The primary bar's buttons, in display order.
pub fn nav_items() -> (items: [NavItem; 5])
    ensures
        items@ == seq![
            NavItem::Home,
            NavItem::Play,
            NavItem::Inventory,
            NavItem::Options,
            NavItem::Exit,
        ],
{
    [NavItem::Home, NavItem::Play, NavItem::Inventory, NavItem::Options, NavItem::Exit]
}

/// The label printed on a primary-bar button.
pub open spec fn nav_label_spec(item: NavItem) -> Seq<char> {
    match item {
        NavItem::Home => "HOME"@,
        NavItem::Play => "PLAY"@,
        NavItem::Inventory => "INVENTORY"@,
        NavItem::Options => "OPTIONS"@,
        NavItem::Exit => "EXIT"@,
    }
}

impl NavItem {
    pub fn label(self) -> (r: &'static str)
        ensures
            r@ == nav_label_spec(self),
    {
        match self {
            NavItem::Home => "HOME",
            NavItem::Play => "PLAY",
            NavItem::Inventory => "INVENTORY",
            NavItem::Options => "OPTIONS",
            NavItem::Exit => "EXIT",
        }
    }

    /// The screen a button navigates to; `Exit` maps to none and instead
    /// requests process termination.
    pub fn target_state(self) -> (r: Option<AppState>)
        ensures
            r == nav_target_spec(self),
    {
        match self {
            NavItem::Home => Some(AppState::MainMenu),
            NavItem::Play => Some(AppState::PlayMenu),
            NavItem::Inventory => Some(AppState::InventoryMenu),
            NavItem::Options => Some(AppState::OptionsMenu(OptionsSubState::Root)),
            NavItem::Exit => None,
        }
    }
}

pub open spec fn nav_target_spec(item: NavItem) -> Option<AppState> {
    match item {
        NavItem::Home => Some(AppState::MainMenu),
        NavItem::Play => Some(AppState::PlayMenu),
        NavItem::Inventory => Some(AppState::InventoryMenu),
        NavItem::Options => Some(AppState::OptionsMenu(OptionsSubState::Root)),
        NavItem::Exit => None,
    }
}

/// A press fires exactly once per change of interaction status: on the tick
/// the status becomes `Pressed`. A held press does not repeat-fire.
pub open spec fn pressed_edge_spec(before: Interaction, now: Interaction) -> bool {
    now == Interaction::Pressed && before != Interaction::Pressed
}

pub fn pressed_edge(before: Interaction, now: Interaction) -> (r: bool)
    ensures
        r == pressed_edge_spec(before, now),
{
    now == Interaction::Pressed && !(before == Interaction::Pressed)
}

/// The action issued by a primary-bar button, given the button's previous and
/// current interaction status: exactly one action per press edge, none
/// otherwise.
pub fn nav_button_event(item: NavItem, before: Interaction, now: Interaction) -> (r: Option<
    NavAction,
>)
    ensures
        !pressed_edge_spec(before, now) ==> r is None,
        pressed_edge_spec(before, now) ==> r == (match nav_target_spec(item) {
            Option::Some(target) => Some(NavAction::Navigate(target)),
            Option::None => Some(NavAction::ExitRequested),
        }),
{
    if pressed_edge(before, now) {
        match item.target_state() {
            Option::Some(target) => Some(NavAction::Navigate(target)),
            Option::None => Some(NavAction::ExitRequested),
        }
    } else {
        None
    }
}

/// Whether a primary-bar button counts as active for the current screen.
/// The options button counts as active for every options sub-screen; the
/// exit button never does.
pub open spec fn nav_is_active(item: NavItem, current: AppState) -> bool {
    match item {
        NavItem::Options => current is OptionsMenu,
        _ => match nav_target_spec(item) {
            Option::Some(target) => target == current,
            Option::None => false,
        },
    }
}

/// Styling of a primary-bar button this tick: active styling wins over
/// hovered styling, which wins over idle.
pub open spec fn nav_style_spec(item: NavItem, current: AppState, hovered: bool) -> ButtonStyle {
    if nav_is_active(item, current) {
        ButtonStyle::Active
    } else if hovered {
        ButtonStyle::Hovered
    } else {
        ButtonStyle::Idle
    }
}

pub fn nav_button_style(item: NavItem, current: AppState, hovered: bool) -> (r: ButtonStyle)
    ensures
        r == nav_style_spec(item, current, hovered),
        r == ButtonStyle::Active <==> nav_is_active(item, current),
        r == ButtonStyle::Hovered <==> !nav_is_active(item, current) && hovered,
{
    let active = match item {
        NavItem::Options => matches!(current, AppState::OptionsMenu(_)),
        _ => match item.target_state() {
            Option::Some(target) => target == current,
            Option::None => false,
        },
    };
    if active {
        ButtonStyle::Active
    } else if hovered {
        ButtonStyle::Hovered
    } else {
        ButtonStyle::Idle
    }
}

/// The secondary bar's buttons, in display order: every options sub-screen
/// except `Root`.
pub fn subnav_items() -> (items: [OptionsSubState; 5])
    ensures
        items@ == seq![
            OptionsSubState::KeyboardMouse,
            OptionsSubState::GameSettings,
            OptionsSubState::VideoSettings,
            OptionsSubState::AudioSettings,
            OptionsSubState::Credits,
        ],
        forall|i: int| 0 <= i < items@.len() ==> items@[i] != OptionsSubState::Root,
{
    let items = [
        OptionsSubState::KeyboardMouse,
        OptionsSubState::GameSettings,
        OptionsSubState::VideoSettings,
        OptionsSubState::AudioSettings,
        OptionsSubState::Credits,
    ];
    assert(forall|i: int| 0 <= i < items@.len() ==> items@[i] != OptionsSubState::Root);
    items
}

/// The screen a secondary-bar button navigates to.
pub fn subnav_target(sub: OptionsSubState) -> (r: AppState)
    ensures
        r == AppState::OptionsMenu(sub),
{
    AppState::OptionsMenu(sub)
}

/// The transition issued by a secondary-bar button: one per press edge.
pub fn subnav_button_event(sub: OptionsSubState, before: Interaction, now: Interaction) -> (r:
    Option<AppState>)
    ensures
        r is Some <==> pressed_edge_spec(before, now),
        pressed_edge_spec(before, now) ==> r == Some(AppState::OptionsMenu(sub)),
{
    if pressed_edge(before, now) {
        Some(AppState::OptionsMenu(sub))
    } else {
        None
    }
}

/// Whether a secondary-bar button is the active sub-screen. Unlike the
/// primary bar's options button, each sub-screen button is active only for
/// its own sub-screen.
pub open spec fn subnav_is_active(sub: OptionsSubState, current: AppState) -> bool {
    current == AppState::OptionsMenu(sub)
}

pub open spec fn subnav_style_spec(sub: OptionsSubState, current: AppState, hovered: bool)
    -> ButtonStyle {
    if subnav_is_active(sub, current) {
        ButtonStyle::Active
    } else if hovered {
        ButtonStyle::Hovered
    } else {
        ButtonStyle::Idle
    }
}

pub fn subnav_button_style(sub: OptionsSubState, current: AppState, hovered: bool) -> (r:
    ButtonStyle)
    ensures
        r == subnav_style_spec(sub, current, hovered),
        r == ButtonStyle::Active <==> subnav_is_active(sub, current),
        r == ButtonStyle::Hovered <==> !subnav_is_active(sub, current) && hovered,
{
    if current == AppState::OptionsMenu(sub) {
        ButtonStyle::Active
    } else if hovered {
        ButtonStyle::Hovered
    } else {
        ButtonStyle::Idle
    }
}

/// A press on a map button records that map as the session's selected map;
/// anything else leaves the selection alone.
pub fn map_button_event(map: MapId, before: Interaction, now: Interaction, selected: &mut
    SelectedMap)
    ensures
        pressed_edge_spec(before, now) ==> *final(selected) == SelectedMap(map),
        !pressed_edge_spec(before, now) ==> *final(selected) == *old(selected),
{
    if pressed_edge(before, now) {
        selected.0 = map;
    }
}

/// A press on the play button jumps straight to the loading screen,
/// bypassing the navigation bar.
pub fn play_button_event(before: Interaction, now: Interaction) -> (r: Option<AppState>)
    ensures
        r is Some <==> pressed_edge_spec(before, now),
        pressed_edge_spec(before, now) ==> r == Some(AppState::Loading),
{
    if pressed_edge(before, now) {
        Some(AppState::Loading)
    } else {
        None
    }
}

/// A button that is both active and hovered renders with active styling,
/// never hover styling: active takes precedence on both bars.
pub proof fn lemma_active_overrides_hover(
    item: NavItem,
    sub: OptionsSubState,
    current: AppState,
    hovered: bool,
)
    ensures
        nav_is_active(item, current) ==> nav_style_spec(item, current, hovered)
            == ButtonStyle::Active,
        subnav_is_active(sub, current) ==> subnav_style_spec(sub, current, hovered)
            == ButtonStyle::Active,
{
}

} // verus!
