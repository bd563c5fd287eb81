//! The per-tick coordinator: feeds transition requests into the state
//! machine and runs the lifecycle hooks on each published change, so the
//! scene always shows exactly the current screen.

use vstd::prelude::*;
use crate::scene::{
    process_transition, on_enter, scene_matches, spawned_entities, lemma_spawn_matches,
    lemma_transition_preserves_match, next_id_after_exit, screen_widgets, Scene, Widget,
};
use crate::nav::{
    map_button_event, nav_button_event, play_button_event, pressed_edge_spec, subnav_button_event,
    nav_target_spec, Interaction, NavAction, NavItem,
};
use crate::state::{AppState, MapId, OptionsSubState, SelectedMap, StateMachine};

verus! {

/// The shell: the single current screen, the retained scene, and the
/// session's selected map.
pub struct GameShell {
    pub machine: StateMachine,
    pub scene: Scene,
    pub selected: SelectedMap,
}

impl GameShell {
    /// Shell invariant: the scene is well-formed and shows exactly the
    /// current screen's subtree. Holds at every tick boundary.
    pub open spec fn wf(self) -> bool {
        &&& self.scene.wf()
        &&& scene_matches(self.scene, self.machine.current)
        &&& self.scene.next_id <= u64::MAX - 16
    }

    /// Start on the loading screen with its subtree already built.
    pub fn new() -> (shell: Self)
        ensures
            shell.wf(),
            shell.machine.current == AppState::Loading,
            shell.selected == SelectedMap(MapId::Tutorial),
    {
        let machine = StateMachine::new();
        let mut scene = Scene::new();
        on_enter(&mut scene, AppState::Loading);
        proof {
            assert(scene.entities@ =~= spawned_entities(AppState::Loading, 0));
            lemma_spawn_matches(scene, AppState::Loading, 0);
        }
        GameShell { machine, scene, selected: SelectedMap(MapId::Tutorial) }
    }

    /// Ask for a transition to `target`. The request is always recorded as
    /// the current screen; the lifecycle hooks run only when the screen
    /// actually changed. Re-requesting the current screen is observably a
    /// no-op: no hook fires and the scene is untouched.
    pub fn request_transition(&mut self, target: AppState)
        requires
            old(self).wf(),
        ensures
            final(self).wf(),
            final(self).machine.current == target,
            final(self).selected == old(self).selected,
            old(self).machine.current == target ==> final(self).scene == old(self).scene,
    {
        let ghost pre = self.scene;
        let ev = self.machine.request_transition(target);
        match ev {
            Option::Some(change) => {
                process_transition(&mut self.scene, change);
                proof {
                    lemma_transition_preserves_match(
                        pre,
                        self.scene,
                        change,
                        next_id_after_exit(pre, change.prev),
                    );
                    crate::scene::lemma_screen_widgets_shape(change.next);
                }
            },
            Option::None => {},
        }
    }

    /// While the loading screen is up, the per-tick readiness check runs;
    /// once satisfied it self-initiates the move into the game. Any other
    /// screen leaves the shell untouched.
    pub fn tick_loading(&mut self)
        requires
            old(self).wf(),
        ensures
            final(self).wf(),
            old(self).machine.current == AppState::Loading ==> final(self).machine.current
                == AppState::InGame,
            old(self).machine.current != AppState::Loading ==> *final(self) == *old(self),
            final(self).selected == old(self).selected,
    {
        if self.machine.current == AppState::Loading {
            self.request_transition(AppState::InGame);
        }
    }

    /// One sampled press of a primary-bar button. On a press edge the
    /// button's target screen becomes current — or, for the one button
    /// without a target, a process exit is requested instead of any
    /// transition. Pressing the button of the screen already current
    /// re-records the state but is observably a no-op: no hook fires,
    /// nothing changes. Anything but a press edge does nothing.
    pub fn handle_nav_press(&mut self, item: NavItem, before: Interaction, now: Interaction)
        -> (exit_requested: bool)
        requires
            old(self).wf(),
        ensures
            final(self).wf(),
            final(self).selected == old(self).selected,
            exit_requested == (pressed_edge_spec(before, now) && nav_target_spec(item) is None),
            !pressed_edge_spec(before, now) ==> *final(self) == *old(self),
            pressed_edge_spec(before, now) && nav_target_spec(item) is None ==> *final(self)
                == *old(self),
            pressed_edge_spec(before, now) && nav_target_spec(item) is Some ==> nav_target_spec(
                item,
            ) == Some(final(self).machine.current),
            pressed_edge_spec(before, now) && nav_target_spec(item) == Some(
                old(self).machine.current,
            ) ==> *final(self) == *old(self),
    {
        match nav_button_event(item, before, now) {
            Option::Some(NavAction::Navigate(target)) => {
                self.request_transition(target);
                false
            },
            Option::Some(NavAction::ExitRequested) => true,
            Option::None => false,
        }
    }

    /// One sampled press of a secondary-bar button: on a press edge the
    /// pressed sub-screen becomes current, with the same no-op guarantee
    /// when it already is.
    pub fn handle_subnav_press(&mut self, sub: OptionsSubState, before: Interaction, now:
        Interaction)
        requires
            old(self).wf(),
        ensures
            final(self).wf(),
            final(self).selected == old(self).selected,
            !pressed_edge_spec(before, now) ==> *final(self) == *old(self),
            pressed_edge_spec(before, now) ==> final(self).machine.current
                == AppState::OptionsMenu(sub),
            pressed_edge_spec(before, now) && old(self).machine.current == AppState::OptionsMenu(
                sub,
            ) ==> *final(self) == *old(self),
    {
        match subnav_button_event(sub, before, now) {
            Option::Some(target) => self.request_transition(target),
            Option::None => {},
        }
    }

    /// One sampled press of a map button: on a press edge the pressed map
    /// becomes the selection; the screen and its subtree never change.
    pub fn handle_map_press(&mut self, map: MapId, before: Interaction, now: Interaction)
        requires
            old(self).wf(),
        ensures
            final(self).wf(),
            final(self).machine == old(self).machine,
            final(self).scene == old(self).scene,
            pressed_edge_spec(before, now) ==> final(self).selected == SelectedMap(map),
            !pressed_edge_spec(before, now) ==> final(self).selected == old(self).selected,
    {
        map_button_event(map, before, now, &mut self.selected);
    }

    /// One sampled press of the play button: on a press edge the shell
    /// jumps straight to the loading screen, bypassing the navigation bar.
    pub fn handle_play_press(&mut self, before: Interaction, now: Interaction)
        requires
            old(self).wf(),
        ensures
            final(self).wf(),
            final(self).selected == old(self).selected,
            !pressed_edge_spec(before, now) ==> *final(self) == *old(self),
            pressed_edge_spec(before, now) ==> final(self).machine.current == AppState::Loading,
    {
        match play_button_event(before, now) {
            Option::Some(target) => self.request_transition(target),
            Option::None => {},
        }
    }

    /// Record `map` as the session's selected map. The scene and the
    /// current screen are untouched: selection survives every transition.
    pub fn select_map(&mut self, map: MapId)
        requires
            old(self).wf(),
        ensures
            final(self).wf(),
            final(self).selected == SelectedMap(map),
            final(self).machine == old(self).machine,
            final(self).scene == old(self).scene,
    {
        self.selected = SelectedMap(map);
    }
}

/// At every tick boundary of a well-formed shell, exactly one `ScreenRoot`
/// subtree exists, and it is the current screen's: the root marker stands
/// once, and every live entity is tagged with the current screen.
pub proof fn lemma_one_root_matches_current(shell: GameShell)
    requires
        shell.wf(),
    ensures
        shell.scene.entities@.len() >= 1,
        shell.scene.entities@[0].widget == Widget::ScreenRoot,
        forall|i: int|
            1 <= i < shell.scene.entities@.len() ==> shell.scene.entities@[i].widget
                != Widget::ScreenRoot,
        forall|i: int|
            0 <= i < shell.scene.entities@.len() ==> shell.scene.entities@[i].screen
                == shell.machine.current,
{
    crate::scene::lemma_single_screen_root(shell.scene, shell.machine.current);
}

/// Entering an options sub-screen directly — `OptionsMenu(KeyboardMouse)`
/// straight from the main menu, skipping `OptionsMenu(Root)` — builds
/// exactly that sub-screen's content block, not the root page's, and the
/// secondary bar highlights that sub-screen's button, hovered or not.
pub proof fn lemma_direct_subscreen_entry(
    pre: GameShell,
    post: GameShell,
    sub: OptionsSubState,
    hovered: bool,
)
    requires
        pre.wf(),
        pre.machine.current == AppState::MainMenu,
        post.wf(),
        post.machine.current == AppState::OptionsMenu(sub),
    ensures
        crate::scene::widgets_of(post.scene.entities@).contains(Widget::OptionsContent(sub)),
        forall|other: OptionsSubState|
            other != sub ==> !crate::scene::widgets_of(post.scene.entities@).contains(
                Widget::OptionsContent(other),
            ),
        crate::nav::subnav_style_spec(sub, post.machine.current, hovered)
            == crate::nav::ButtonStyle::Active,
{
    let widgets = crate::scene::widgets_of(post.scene.entities@);
    assert(widgets == screen_widgets(AppState::OptionsMenu(sub)));
    assert(widgets[6] == Widget::OptionsContent(sub));
    assert(widgets.contains(Widget::OptionsContent(sub)));
    assert forall|other: OptionsSubState| other != sub implies !widgets.contains(
        Widget::OptionsContent(other),
    ) by {
        assert forall|i: int| 0 <= i < widgets.len() implies widgets[i] != Widget::OptionsContent(
            other,
        ) by {
            assert(widgets[i] == screen_widgets(AppState::OptionsMenu(sub))[i]);
        }
    }
}

} // verus!
