//! The retained UI scene and the per-screen lifecycle: entering a screen
//! spawns its whole subtree under a single fresh `ScreenRoot` marker, and
//! leaving it destroys every entity carrying that screen's marker.

use vstd::prelude::*;
use vstd::seq_lib::*;
use crate::state::{AppState, MapId, OptionsSubState, StateChange};

verus! {

/// What a UI entity is. `ScreenRoot` is the ownership marker of a spawned
/// screen: everything visually belonging to the screen sits under it.
#[derive(Clone, Copy, PartialEq, Eq, Structural, Debug)]
pub enum Widget {
    ScreenRoot,
    PlayerBox,
    FriendList,
    Panel,
    SubnavButton(OptionsSubState),
    OptionsContent(OptionsSubState),
    ApplyButton,
    MapButton(MapId),
    PlayButton,
}

/// One retained UI entity: a unique identifier, the screen that owns it,
/// and what it is.
#[derive(Clone, Copy, PartialEq, Eq, Structural, Debug)]
pub struct UiEntity {
    pub id: u64,
    pub screen: AppState,
    pub widget: Widget,
}

/// The subtree a screen spawns on entry, as widgets in spawn order. The
/// root marker always comes first; each options sub-screen gets its own
/// content block, and only the video-settings page carries an apply button.
pub open spec fn screen_widgets(s: AppState) -> Seq<Widget> {
    match s {
        AppState::Loading => seq![Widget::ScreenRoot, Widget::Panel],
        AppState::MainMenu => seq![
            Widget::ScreenRoot,
            Widget::PlayerBox,
            Widget::FriendList,
            Widget::Panel,
            Widget::Panel,
            Widget::Panel,
            Widget::Panel,
            Widget::Panel,
        ],
        AppState::PlayMenu => seq![
            Widget::ScreenRoot,
            Widget::PlayerBox,
            Widget::FriendList,
            Widget::PlayButton,
            Widget::Panel,
            Widget::Panel,
            Widget::MapButton(MapId::Tutorial),
            Widget::MapButton(MapId::BoxArena),
            Widget::Panel,
            Widget::Panel,
        ],
        AppState::InventoryMenu => seq![
            Widget::ScreenRoot,
            Widget::PlayerBox,
            Widget::FriendList,
            Widget::Panel,
        ],
        AppState::OptionsMenu(sub) => {
            let base = seq![
                Widget::ScreenRoot,
                Widget::SubnavButton(OptionsSubState::KeyboardMouse),
                Widget::SubnavButton(OptionsSubState::GameSettings),
                Widget::SubnavButton(OptionsSubState::VideoSettings),
                Widget::SubnavButton(OptionsSubState::AudioSettings),
                Widget::SubnavButton(OptionsSubState::Credits),
                Widget::OptionsContent(sub),
            ];
            if sub == OptionsSubState::VideoSettings {
                base.push(Widget::ApplyButton)
            } else {
                base
            }
        },
        AppState::InGame => seq![Widget::ScreenRoot, Widget::Panel],
    }
}

/// Every screen's subtree is non-empty, holds the root marker exactly once
/// (first), and is never longer than 16 entities.
pub proof fn lemma_screen_widgets_shape(s: AppState)
    ensures
        1 <= screen_widgets(s).len() <= 16,
        screen_widgets(s)[0] == Widget::ScreenRoot,
        forall|i: int| 1 <= i < screen_widgets(s).len() ==> screen_widgets(s)[i]
            != Widget::ScreenRoot,
{
    match s {
        AppState::Loading => {},
        AppState::MainMenu => {},
        AppState::PlayMenu => {},
        AppState::InventoryMenu => {},
        AppState::OptionsMenu(sub) => {},
        AppState::InGame => {},
    }
}

/// The widgets a screen spawns, as a vector.
pub fn build_screen_widgets(s: AppState) -> (v: Vec<Widget>)
    ensures
        v@ == screen_widgets(s),
{
    let mut v: Vec<Widget> = Vec::new();
    match s {
        AppState::Loading => {
            v.push(Widget::ScreenRoot);
            v.push(Widget::Panel);
        },
        AppState::MainMenu => {
            v.push(Widget::ScreenRoot);
            v.push(Widget::PlayerBox);
            v.push(Widget::FriendList);
            v.push(Widget::Panel);
            v.push(Widget::Panel);
            v.push(Widget::Panel);
            v.push(Widget::Panel);
            v.push(Widget::Panel);
        },
        AppState::PlayMenu => {
            v.push(Widget::ScreenRoot);
            v.push(Widget::PlayerBox);
            v.push(Widget::FriendList);
            v.push(Widget::PlayButton);
            v.push(Widget::Panel);
            v.push(Widget::Panel);
            v.push(Widget::MapButton(MapId::Tutorial));
            v.push(Widget::MapButton(MapId::BoxArena));
            v.push(Widget::Panel);
            v.push(Widget::Panel);
        },
        AppState::InventoryMenu => {
            v.push(Widget::ScreenRoot);
            v.push(Widget::PlayerBox);
            v.push(Widget::FriendList);
            v.push(Widget::Panel);
        },
        AppState::OptionsMenu(sub) => {
            v.push(Widget::ScreenRoot);
            v.push(Widget::SubnavButton(OptionsSubState::KeyboardMouse));
            v.push(Widget::SubnavButton(OptionsSubState::GameSettings));
            v.push(Widget::SubnavButton(OptionsSubState::VideoSettings));
            v.push(Widget::SubnavButton(OptionsSubState::AudioSettings));
            v.push(Widget::SubnavButton(OptionsSubState::Credits));
            v.push(Widget::OptionsContent(sub));
            if sub == OptionsSubState::VideoSettings {
                v.push(Widget::ApplyButton);
            }
        },
        AppState::InGame => {
            v.push(Widget::ScreenRoot);
            v.push(Widget::Panel);
        },
    }
    assert(v@ =~= screen_widgets(s));
    v
}

/// The entities a screen spawns on entry, tagged with that screen and given
/// consecutive fresh identifiers starting at `base`.
pub open spec fn spawned_entities(s: AppState, base: int) -> Seq<UiEntity> {
    Seq::new(
        screen_widgets(s).len(),
        |i: int| UiEntity { id: (base + i) as u64, screen: s, widget: screen_widgets(s)[i] },
    )
}

/// The retained scene: all live UI entities, plus the next fresh identifier.
pub struct Scene {
    pub entities: Vec<UiEntity>,
    pub next_id: u64,
}

impl Scene {
    /// Identifiers are strictly increasing in spawn order and all below the
    /// next fresh one, so no identifier is ever reused.
    pub open spec fn wf(self) -> bool {
        &&& forall|i: int, j: int|
            0 <= i < j < self.entities@.len() ==> self.entities@[i].id
                < self.entities@[j].id
        &&& forall|i: int| 0 <= i < self.entities@.len() ==> self.entities@[i].id
            < self.next_id
    }

    /// A scene with no entities.
    pub fn new() -> (scene: Self)
        ensures
            scene.wf(),
            scene.entities@ == Seq::<UiEntity>::empty(),
            scene.next_id == 0,
    {
        Scene { entities: Vec::new(), next_id: 0 }
    }
}

/// Holds of an entity that survives a teardown of screen `s`.
pub open spec fn not_on_screen(s: AppState) -> spec_fn(UiEntity) -> bool {
    |e: UiEntity| e.screen != s
}

/// Entities that do not belong to screen `s`: what a teardown of `s` leaves.
pub open spec fn without_screen(entities: Seq<UiEntity>, s: AppState) -> Seq<UiEntity> {
    entities.filter(not_on_screen(s))
}

/// Filtering an id-sorted sequence keeps it id-sorted and keeps only
/// elements of the original.
proof fn lemma_filter_keeps_order(entities: Seq<UiEntity>, pred: spec_fn(UiEntity) -> bool)
    requires
        forall|i: int, j: int| 0 <= i < j < entities.len() ==> entities[i].id < entities[j].id,
    ensures
        forall|i: int, j: int|
            0 <= i < j < entities.filter(pred).len() ==> entities.filter(pred)[i].id
                < entities.filter(pred)[j].id,
        forall|i: int|
            0 <= i < entities.filter(pred).len() ==> entities.contains(
                #[trigger] entities.filter(pred)[i],
            ),
    decreases entities.len(),
{
    reveal_with_fuel(Seq::filter, 2);
    if entities.len() > 0 {
        let prefix = entities.drop_last();
        lemma_filter_keeps_order(prefix, pred);
        let last = entities.last();
        let sub = prefix.filter(pred);
        assert forall|i: int| 0 <= i < sub.len() implies sub[i].id < last.id by {
            assert(prefix.contains(sub[i]));
            let k = prefix.index_of(sub[i]);
            assert(0 <= k < prefix.len() && prefix[k] == sub[i]);
            assert(entities[k].id < last.id);
        }
        if pred(last) {
            assert(entities.filter(pred) == sub.push(last));
        } else {
            assert(entities.filter(pred) == sub);
        }
        assert forall|i: int|
            0 <= i < entities.filter(pred).len() implies entities.contains(
            #[trigger] entities.filter(pred)[i],
        ) by {
            let x = entities.filter(pred)[i];
            if i < sub.len() {
                assert(prefix.contains(x));
                let k = prefix.index_of(x);
                assert(0 <= k < prefix.len() && prefix[k] == x);
                assert(entities[k] == x);
            } else {
                assert(x == last);
                assert(entities[entities.len() - 1] == x);
            }
        }
    }
}

/// In a sequence whose entities all belong to screen `s`, a teardown of `s`
/// leaves nothing.
proof fn lemma_filter_all_removed(entities: Seq<UiEntity>, s: AppState)
    requires
        forall|i: int| 0 <= i < entities.len() ==> entities[i].screen == s,
    ensures
        without_screen(entities, s) == Seq::<UiEntity>::empty(),
    decreases entities.len(),
{
    reveal_with_fuel(Seq::filter, 2);
    if entities.len() > 0 {
        lemma_filter_all_removed(entities.drop_last(), s);
        assert(!not_on_screen(s)(entities.last()));
    }
}

/// The fresh-identifier counter after a teardown of screen `s`: identifier
/// freshness only matters against live entities, so an emptied scene
/// rewinds its counter.
pub open spec fn next_id_after_exit(scene: Scene, s: AppState) -> int {
    if without_screen(scene.entities@, s).len() == 0 {
        0
    } else {
        scene.next_id as int
    }
}

/// Teardown of screen `s`: destroy every entity carrying `s`'s marker,
/// the whole subtree at once. A no-op when no such entity exists, so a
/// second teardown of the same screen cannot fail.
pub fn on_exit(scene: &mut Scene, s: AppState)
    requires
        old(scene).wf(),
    ensures
        final(scene).wf(),
        final(scene).entities@ == without_screen(old(scene).entities@, s),
        final(scene).next_id == next_id_after_exit(*old(scene), s),
        forall|i: int|
            0 <= i < final(scene).entities@.len() ==> final(scene).entities@[i].screen != s,
{
    let ghost all = scene.entities@;
    let mut kept: Vec<UiEntity> = Vec::new();
    let n = scene.entities.len();
    for i in 0..n
        invariant
            n == all.len(),
            scene.entities@ == all,
            kept@ == all.take(i as int).filter(not_on_screen(s)),
    {
        let e = scene.entities[i];
        if !(e.screen == s) {
            kept.push(e);
        }
        proof {
            reveal_with_fuel(Seq::filter, 2);
            assert(all.take(i + 1).drop_last() =~= all.take(i as int));
            assert(all.take(i + 1).last() == all[i as int]);
            assert(not_on_screen(s)(all[i as int]) == (all[i as int].screen != s));
            if not_on_screen(s)(all[i as int]) {
                assert(all.take(i + 1).filter(not_on_screen(s)) == all.take(i as int).filter(
                    not_on_screen(s),
                ).push(all[i as int]));
            } else {
                assert(all.take(i + 1).filter(not_on_screen(s)) == all.take(i as int).filter(
                    not_on_screen(s),
                ));
            }
        }
    }
    proof {
        assert(all.take(n as int) =~= all);
        lemma_filter_keeps_order(all, not_on_screen(s));
        assert forall|i: int|
            0 <= i < without_screen(all, s).len() implies without_screen(all, s)[i].id < old(
            scene,
        ).next_id by {
            let x = without_screen(all, s)[i];
            assert(all.contains(x));
            let k = all.index_of(x);
            assert(0 <= k < all.len() && all[k] == x);
        }
    }
    if kept.len() == 0 {
        scene.next_id = 0;
    }
    scene.entities = kept;
    proof {
        assert(forall|i: int|
            0 <= i < scene.entities@.len() ==> not_on_screen(s)(
                #[trigger] scene.entities@[i],
            ));
    }
}

/// Entry of screen `s`: construct its full subtree under one fresh root
/// marker, appending nothing but entities tagged with `s`.
pub fn on_enter(scene: &mut Scene, s: AppState)
    requires
        old(scene).wf(),
        old(scene).next_id <= u64::MAX - 16,
    ensures
        final(scene).wf(),
        final(scene).entities@ == old(scene).entities@ + spawned_entities(
            s,
            old(scene).next_id as int,
        ),
        final(scene).next_id == old(scene).next_id + screen_widgets(s).len(),
{
    proof {
        lemma_screen_widgets_shape(s);
    }
    let widgets = build_screen_widgets(s);
    let base = scene.next_id;
    let ghost before = scene.entities@;
    let ghost spawned = spawned_entities(s, base as int);
    let n = widgets.len();
    for i in 0..n
        invariant
            n == screen_widgets(s).len(),
            n <= 16,
            widgets@ == screen_widgets(s),
            base == old(scene).next_id,
            base <= u64::MAX - 16,
            before == old(scene).entities@,
            spawned == spawned_entities(s, base as int),
            scene.next_id == base,
            scene.entities@ == before + spawned.take(i as int),
            old(scene).wf(),
    {
        let e = UiEntity { id: base + (i as u64), screen: s, widget: widgets[i] };
        proof {
            assert(spawned.take(i + 1) =~= spawned.take(i as int).push(spawned[i as int]));
            assert(spawned[i as int] == e);
        }
        scene.entities.push(e);
    }
    proof {
        assert(spawned.take(n as int) =~= spawned);
    }
    scene.next_id = base + (n as u64);
    proof {
        let entities = scene.entities@;
        assert forall|i: int, j: int| 0 <= i < j < entities.len() implies entities[i].id
            < entities[j].id by {
            if j < before.len() {
            } else if i < before.len() {
                assert(before[i].id < base);
                assert(entities[j] == spawned[j - before.len()]);
            } else {
                assert(entities[i] == spawned[i - before.len()]);
                assert(entities[j] == spawned[j - before.len()]);
            }
        }
        assert forall|i: int| 0 <= i < entities.len() implies entities[i].id
            < scene.next_id by {
            if i < before.len() {
                assert(before[i].id < base);
            } else {
                assert(entities[i] == spawned[i - before.len()]);
            }
        }
    }
}

/// React to one published state change: tear the old screen down, then
/// build the new one. The teardown completes — not one entity of the old
/// screen is left — before the first entity of the new screen exists.
pub fn process_transition(scene: &mut Scene, change: StateChange)
    requires
        old(scene).wf(),
        old(scene).next_id <= u64::MAX - 16,
    ensures
        final(scene).wf(),
        final(scene).entities@ == without_screen(old(scene).entities@, change.prev)
            + spawned_entities(change.next, next_id_after_exit(*old(scene), change.prev)),
        final(scene).next_id == next_id_after_exit(*old(scene), change.prev)
            + screen_widgets(change.next).len(),
        forall|i: int|
            0 <= i < without_screen(old(scene).entities@, change.prev).len()
                ==> without_screen(old(scene).entities@, change.prev)[i].screen != change.prev,
{
    on_exit(scene, change.prev);
    on_enter(scene, change.next);
}

/// For any transition, teardown of the old screen is complete before the
/// new screen's construction begins: the scene that `process_transition`
/// passes through after the teardown holds not one entity of the old
/// screen, and the construction then adds entities of the new screen only.
pub proof fn lemma_teardown_precedes_spawn(
    entities: Seq<UiEntity>,
    change: StateChange,
    base: int,
)
    ensures
        forall|i: int|
            0 <= i < without_screen(entities, change.prev).len() ==> without_screen(
                entities,
                change.prev,
            )[i].screen != change.prev,
        forall|i: int|
            0 <= i < spawned_entities(change.next, base).len() ==> spawned_entities(
                change.next,
                base,
            )[i].screen == change.next,
{
    assert forall|i: int|
        0 <= i < without_screen(entities, change.prev).len() implies without_screen(
        entities,
        change.prev,
    )[i].screen != change.prev by {
        entities.lemma_filter_pred(not_on_screen(change.prev), i);
    }
}

/// The widgets of a scene's entities, in spawn order.
pub open spec fn widgets_of(entities: Seq<UiEntity>) -> Seq<Widget> {
    entities.map_values(|e: UiEntity| e.widget)
}

/// A scene shows exactly screen `current`: its entities are precisely that
/// screen's subtree, every one tagged with `current`.
pub open spec fn scene_matches(scene: Scene, current: AppState) -> bool {
    &&& widgets_of(scene.entities@) == screen_widgets(current)
    &&& forall|i: int| 0 <= i < scene.entities@.len() ==> scene.entities@[i].screen == current
}

/// Processing a change away from a fully-matching scene yields a scene that
/// fully matches the new screen: old entities are all gone, and the new
/// subtree stands alone.
pub proof fn lemma_transition_preserves_match(
    pre: Scene,
    post: Scene,
    change: StateChange,
    base: int,
)
    requires
        pre.wf(),
        scene_matches(pre, change.prev),
        post.entities@ == without_screen(pre.entities@, change.prev) + spawned_entities(
            change.next,
            base,
        ),
    ensures
        scene_matches(post, change.next),
{
    lemma_filter_all_removed(pre.entities@, change.prev);
    let spawned = spawned_entities(change.next, base);
    assert(post.entities@ =~= spawned);
    assert(widgets_of(post.entities@) =~= screen_widgets(change.next));
}

/// A freshly spawned subtree, standing alone, fully matches its screen.
pub proof fn lemma_spawn_matches(scene: Scene, s: AppState, base: int)
    requires
        scene.entities@ == spawned_entities(s, base),
    ensures
        scene_matches(scene, s),
{
    assert(widgets_of(scene.entities@) =~= screen_widgets(s));
}

/// At any tick boundary of a well-formed shell there is exactly one
/// `ScreenRoot` entity, it owns the subtree of the current screen, and every
/// live entity is tagged with the current screen.
pub proof fn lemma_single_screen_root(scene: Scene, current: AppState)
    requires
        scene_matches(scene, current),
    ensures
        scene.entities@.len() >= 1,
        scene.entities@[0].widget == Widget::ScreenRoot,
        forall|i: int|
            1 <= i < scene.entities@.len() ==> scene.entities@[i].widget != Widget::ScreenRoot,
        forall|i: int| 0 <= i < scene.entities@.len() ==> scene.entities@[i].screen == current,
{
    lemma_screen_widgets_shape(current);
    assert(scene.entities@.len() == screen_widgets(current).len());
    assert forall|i: int|
        1 <= i < scene.entities@.len() implies scene.entities@[i].widget
        != Widget::ScreenRoot by {
        assert(widgets_of(scene.entities@)[i] == scene.entities@[i].widget);
        assert(widgets_of(scene.entities@)[i] == screen_widgets(current)[i]);
    }
    assert(scene.entities@[0].widget == widgets_of(scene.entities@)[0]);
}

} // verus!
