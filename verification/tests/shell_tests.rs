use rust_fps_net::nav::{Interaction, NavItem};
use rust_fps_net::scene::Widget;
use rust_fps_net::shell::GameShell;
use rust_fps_net::state::{AppState, MapId, OptionsSubState, SelectedMap, StateChange, StateMachine};

fn roots_of(shell: &GameShell) -> usize {
    shell
        .scene
        .entities
        .iter()
        .filter(|e| e.widget == Widget::ScreenRoot)
        .count()
}

#[test]
fn starts_on_loading_with_one_root() {
    let shell = GameShell::new();
    assert_eq!(shell.machine.current, AppState::Loading);
    assert_eq!(roots_of(&shell), 1);
    assert!(shell.scene.entities.iter().all(|e| e.screen == AppState::Loading));
}

#[test]
fn transition_swaps_subtree_completely() {
    let mut shell = GameShell::new();
    shell.request_transition(AppState::MainMenu);
    assert_eq!(shell.machine.current, AppState::MainMenu);
    assert_eq!(roots_of(&shell), 1);
    assert!(shell.scene.entities.iter().all(|e| e.screen == AppState::MainMenu));
    shell.request_transition(AppState::PlayMenu);
    assert_eq!(roots_of(&shell), 1);
    assert!(shell.scene.entities.iter().all(|e| e.screen == AppState::PlayMenu));
    assert!(!shell.scene.entities.is_empty());
}

#[test]
fn state_machine_publishes_change_once() {
    let mut machine = StateMachine::new();
    let ev = machine.request_transition(AppState::MainMenu);
    assert_eq!(
        ev,
        Some(StateChange { prev: AppState::Loading, next: AppState::MainMenu })
    );
    let ev2 = machine.request_transition(AppState::MainMenu);
    assert_eq!(ev2, None);
    assert_eq!(machine.current, AppState::MainMenu);
}

#[test]
fn renavigating_to_current_screen_is_a_no_op() {
    let mut shell = GameShell::new();
    shell.request_transition(AppState::InventoryMenu);
    let ids_before: Vec<u64> = shell.scene.entities.iter().map(|e| e.id).collect();
    shell.request_transition(AppState::InventoryMenu);
    let ids_after: Vec<u64> = shell.scene.entities.iter().map(|e| e.id).collect();
    assert_eq!(ids_before, ids_after);
    assert_eq!(shell.machine.current, AppState::InventoryMenu);
}

#[test]
fn direct_subscreen_entry_builds_that_content() {
    let mut shell = GameShell::new();
    shell.request_transition(AppState::MainMenu);
    shell.request_transition(AppState::OptionsMenu(OptionsSubState::KeyboardMouse));
    let widgets: Vec<Widget> = shell.scene.entities.iter().map(|e| e.widget).collect();
    assert!(widgets.contains(&Widget::OptionsContent(OptionsSubState::KeyboardMouse)));
    assert!(!widgets.contains(&Widget::OptionsContent(OptionsSubState::Root)));
    assert_eq!(roots_of(&shell), 1);
}

#[test]
fn sibling_subscreens_fire_their_own_hooks() {
    let mut shell = GameShell::new();
    shell.request_transition(AppState::OptionsMenu(OptionsSubState::Root));
    shell.request_transition(AppState::OptionsMenu(OptionsSubState::VideoSettings));
    let widgets: Vec<Widget> = shell.scene.entities.iter().map(|e| e.widget).collect();
    assert!(widgets.contains(&Widget::OptionsContent(OptionsSubState::VideoSettings)));
    assert!(!widgets.contains(&Widget::OptionsContent(OptionsSubState::Root)));
    assert!(widgets.contains(&Widget::ApplyButton));
    assert_eq!(roots_of(&shell), 1);
}

#[test]
fn only_video_settings_offers_apply() {
    let mut shell = GameShell::new();
    shell.request_transition(AppState::OptionsMenu(OptionsSubState::AudioSettings));
    let widgets: Vec<Widget> = shell.scene.entities.iter().map(|e| e.widget).collect();
    assert!(!widgets.contains(&Widget::ApplyButton));
}

#[test]
fn loading_tick_moves_into_game() {
    let mut shell = GameShell::new();
    shell.tick_loading();
    assert_eq!(shell.machine.current, AppState::InGame);
    assert!(shell.scene.entities.iter().all(|e| e.screen == AppState::InGame));
    let ids: Vec<u64> = shell.scene.entities.iter().map(|e| e.id).collect();
    shell.tick_loading();
    let ids2: Vec<u64> = shell.scene.entities.iter().map(|e| e.id).collect();
    assert_eq!(ids, ids2);
}

#[test]
fn selected_map_survives_transitions() {
    let mut shell = GameShell::new();
    assert_eq!(shell.selected, SelectedMap(MapId::Tutorial));
    shell.request_transition(AppState::PlayMenu);
    shell.select_map(MapId::BoxArena);
    shell.request_transition(AppState::Loading);
    shell.request_transition(AppState::InGame);
    assert_eq!(shell.selected, SelectedMap(MapId::BoxArena));
}

#[test]
fn play_menu_lists_both_maps() {
    let mut shell = GameShell::new();
    shell.request_transition(AppState::PlayMenu);
    let widgets: Vec<Widget> = shell.scene.entities.iter().map(|e| e.widget).collect();
    assert!(widgets.contains(&Widget::MapButton(MapId::Tutorial)));
    assert!(widgets.contains(&Widget::MapButton(MapId::BoxArena)));
    assert!(widgets.contains(&Widget::PlayButton));
}

#[test]
fn entity_ids_stay_unique_across_many_transitions() {
    let mut shell = GameShell::new();
    let screens = [
        AppState::MainMenu,
        AppState::PlayMenu,
        AppState::InventoryMenu,
        AppState::OptionsMenu(OptionsSubState::Root),
        AppState::OptionsMenu(OptionsSubState::VideoSettings),
        AppState::MainMenu,
        AppState::Loading,
        AppState::InGame,
    ];
    for s in screens {
        shell.request_transition(s);
        let mut ids: Vec<u64> = shell.scene.entities.iter().map(|e| e.id).collect();
        let n = ids.len();
        ids.sort();
        ids.dedup();
        assert_eq!(ids.len(), n);
        assert_eq!(roots_of(&shell), 1);
    }
}

#[test]
fn pressing_active_nav_button_is_a_no_op() {
    let mut shell = GameShell::new();
    shell.request_transition(AppState::MainMenu);
    let ids_before: Vec<u64> = shell.scene.entities.iter().map(|e| e.id).collect();
    let exit = shell.handle_nav_press(NavItem::Home, Interaction::Idle, Interaction::Pressed);
    assert!(!exit);
    assert_eq!(shell.machine.current, AppState::MainMenu);
    let ids_after: Vec<u64> = shell.scene.entities.iter().map(|e| e.id).collect();
    assert_eq!(ids_before, ids_after);
}

#[test]
fn held_nav_press_does_not_repeat_fire() {
    let mut shell = GameShell::new();
    shell.request_transition(AppState::MainMenu);
    shell.handle_nav_press(NavItem::Play, Interaction::Idle, Interaction::Pressed);
    assert_eq!(shell.machine.current, AppState::PlayMenu);
    let ids: Vec<u64> = shell.scene.entities.iter().map(|e| e.id).collect();
    shell.handle_nav_press(NavItem::Play, Interaction::Pressed, Interaction::Pressed);
    let ids2: Vec<u64> = shell.scene.entities.iter().map(|e| e.id).collect();
    assert_eq!(ids, ids2);
}

#[test]
fn exit_press_requests_termination_without_transition() {
    let mut shell = GameShell::new();
    shell.request_transition(AppState::MainMenu);
    let exit = shell.handle_nav_press(NavItem::Exit, Interaction::Hovered, Interaction::Pressed);
    assert!(exit);
    assert_eq!(shell.machine.current, AppState::MainMenu);
}

#[test]
fn subnav_press_switches_subscreen_content() {
    let mut shell = GameShell::new();
    shell.request_transition(AppState::OptionsMenu(OptionsSubState::Root));
    shell.handle_subnav_press(
        OptionsSubState::AudioSettings,
        Interaction::Idle,
        Interaction::Pressed,
    );
    assert_eq!(
        shell.machine.current,
        AppState::OptionsMenu(OptionsSubState::AudioSettings)
    );
    let widgets: Vec<Widget> = shell.scene.entities.iter().map(|e| e.widget).collect();
    assert!(widgets.contains(&Widget::OptionsContent(OptionsSubState::AudioSettings)));
}

#[test]
fn map_press_changes_selection_not_scene() {
    let mut shell = GameShell::new();
    shell.request_transition(AppState::PlayMenu);
    let ids: Vec<u64> = shell.scene.entities.iter().map(|e| e.id).collect();
    shell.handle_map_press(MapId::BoxArena, Interaction::Idle, Interaction::Pressed);
    assert_eq!(shell.selected, SelectedMap(MapId::BoxArena));
    let ids2: Vec<u64> = shell.scene.entities.iter().map(|e| e.id).collect();
    assert_eq!(ids, ids2);
    assert_eq!(shell.machine.current, AppState::PlayMenu);
}

#[test]
fn play_press_enters_loading_then_game() {
    let mut shell = GameShell::new();
    shell.request_transition(AppState::PlayMenu);
    shell.handle_play_press(Interaction::Hovered, Interaction::Pressed);
    assert_eq!(shell.machine.current, AppState::Loading);
    shell.tick_loading();
    assert_eq!(shell.machine.current, AppState::InGame);
}
