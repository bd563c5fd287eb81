use rust_fps_net::nav::{
    map_button_event, nav_button_event, nav_button_style, nav_items, play_button_event,
    pressed_edge, subnav_button_event, subnav_button_style, subnav_items, subnav_target,
    ButtonStyle, Interaction, NavAction, NavItem,
};
use rust_fps_net::state::{AppState, MapId, OptionsSubState, SelectedMap};

#[test]
fn labels_and_targets() {
    assert_eq!(NavItem::Home.label(), "HOME");
    assert_eq!(NavItem::Play.label(), "PLAY");
    assert_eq!(NavItem::Inventory.label(), "INVENTORY");
    assert_eq!(NavItem::Options.label(), "OPTIONS");
    assert_eq!(NavItem::Exit.label(), "EXIT");
    assert_eq!(NavItem::Home.target_state(), Some(AppState::MainMenu));
    assert_eq!(NavItem::Play.target_state(), Some(AppState::PlayMenu));
    assert_eq!(NavItem::Inventory.target_state(), Some(AppState::InventoryMenu));
    assert_eq!(
        NavItem::Options.target_state(),
        Some(AppState::OptionsMenu(OptionsSubState::Root))
    );
    assert_eq!(NavItem::Exit.target_state(), None);
    assert_eq!(nav_items().len(), 5);
}

#[test]
fn press_fires_once_per_edge() {
    assert!(pressed_edge(Interaction::Idle, Interaction::Pressed));
    assert!(pressed_edge(Interaction::Hovered, Interaction::Pressed));
    // A held press must not repeat-fire.
    assert!(!pressed_edge(Interaction::Pressed, Interaction::Pressed));
    assert!(!pressed_edge(Interaction::Pressed, Interaction::Idle));
    assert!(!pressed_edge(Interaction::Idle, Interaction::Hovered));
}

#[test]
fn nav_press_issues_one_action() {
    assert_eq!(
        nav_button_event(NavItem::Play, Interaction::Hovered, Interaction::Pressed),
        Some(NavAction::Navigate(AppState::PlayMenu))
    );
    assert_eq!(
        nav_button_event(NavItem::Exit, Interaction::Idle, Interaction::Pressed),
        Some(NavAction::ExitRequested)
    );
    assert_eq!(
        nav_button_event(NavItem::Play, Interaction::Pressed, Interaction::Pressed),
        None
    );
}

#[test]
fn highlight_precedence_active_beats_hover() {
    // Active and hovered at once renders active, never hover styling.
    for hovered in [false, true] {
        assert_eq!(
            nav_button_style(NavItem::Home, AppState::MainMenu, hovered),
            ButtonStyle::Active
        );
        assert_eq!(
            subnav_button_style(
                OptionsSubState::Credits,
                AppState::OptionsMenu(OptionsSubState::Credits),
                hovered
            ),
            ButtonStyle::Active
        );
    }
    assert_eq!(
        nav_button_style(NavItem::Home, AppState::PlayMenu, true),
        ButtonStyle::Hovered
    );
    assert_eq!(
        nav_button_style(NavItem::Home, AppState::PlayMenu, false),
        ButtonStyle::Idle
    );
}

#[test]
fn options_button_active_for_every_subscreen() {
    for sub in [
        OptionsSubState::Root,
        OptionsSubState::KeyboardMouse,
        OptionsSubState::GameSettings,
        OptionsSubState::VideoSettings,
        OptionsSubState::AudioSettings,
        OptionsSubState::Credits,
    ] {
        assert_eq!(
            nav_button_style(NavItem::Options, AppState::OptionsMenu(sub), false),
            ButtonStyle::Active
        );
    }
    assert_eq!(
        nav_button_style(NavItem::Options, AppState::MainMenu, false),
        ButtonStyle::Idle
    );
}

#[test]
fn exit_button_is_never_active() {
    assert_eq!(
        nav_button_style(NavItem::Exit, AppState::MainMenu, false),
        ButtonStyle::Idle
    );
    assert_eq!(
        nav_button_style(NavItem::Exit, AppState::InGame, true),
        ButtonStyle::Hovered
    );
}

#[test]
fn subnav_bar_lists_all_but_root() {
    let items = subnav_items();
    assert_eq!(items.len(), 5);
    assert!(!items.contains(&OptionsSubState::Root));
    assert_eq!(
        subnav_target(OptionsSubState::VideoSettings),
        AppState::OptionsMenu(OptionsSubState::VideoSettings)
    );
}

#[test]
fn subnav_button_active_only_for_its_own_subscreen() {
    assert_eq!(
        subnav_button_style(
            OptionsSubState::KeyboardMouse,
            AppState::OptionsMenu(OptionsSubState::KeyboardMouse),
            true
        ),
        ButtonStyle::Active
    );
    assert_eq!(
        subnav_button_style(
            OptionsSubState::KeyboardMouse,
            AppState::OptionsMenu(OptionsSubState::Root),
            false
        ),
        ButtonStyle::Idle
    );
}

#[test]
fn subnav_press_targets_its_subscreen() {
    assert_eq!(
        subnav_button_event(
            OptionsSubState::GameSettings,
            Interaction::Idle,
            Interaction::Pressed
        ),
        Some(AppState::OptionsMenu(OptionsSubState::GameSettings))
    );
    assert_eq!(
        subnav_button_event(
            OptionsSubState::GameSettings,
            Interaction::Pressed,
            Interaction::Pressed
        ),
        None
    );
}

#[test]
fn map_press_records_selection() {
    let mut selected = SelectedMap(MapId::Tutorial);
    map_button_event(
        MapId::BoxArena,
        Interaction::Idle,
        Interaction::Pressed,
        &mut selected,
    );
    assert_eq!(selected, SelectedMap(MapId::BoxArena));
    map_button_event(
        MapId::Tutorial,
        Interaction::Idle,
        Interaction::Hovered,
        &mut selected,
    );
    assert_eq!(selected, SelectedMap(MapId::BoxArena));
}

#[test]
fn play_press_jumps_to_loading() {
    assert_eq!(
        play_button_event(Interaction::Hovered, Interaction::Pressed),
        Some(AppState::Loading)
    );
    assert_eq!(play_button_event(Interaction::Pressed, Interaction::Pressed), None);
}
