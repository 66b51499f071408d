//! Common UI patterns: buttons that fire actions, icon buttons, and the previous value of a
//! component.
use crate::nine_slice::{rect_height, rect_width, URect};
use std::collections::HashMap;
use vstd::prelude::*;

verus! {

/// The interaction state of a UI button.
#[derive(Copy, Clone, Debug, PartialEq, Eq, Hash, Structural)]
pub enum Interaction {
    /// Not interacting.
    Idle,
    Hovered,
    Pressed,
}

impl Default for Interaction {
    fn default() -> (i: Interaction)
        ensures
            i == Interaction::Idle,
    {
        Interaction::Idle
    }
}

/// The current and the previous value of a component.
#[derive(Copy, Clone, Debug, PartialEq, Eq, Hash, Default)]
pub struct PreviousComponent<C> {
    current: C,
    last: C,
}

impl<C: Copy> PreviousComponent<C> {
    pub closed spec fn current_value(&self) -> C {
        self.current
    }

    pub closed spec fn last_value(&self) -> C {
        self.last
    }

    /// Starts tracking with `value` as both the current and the previous value.
    pub fn new(value: C) -> (p: PreviousComponent<C>)
        ensures
            p.current_value() == value,
            p.last_value() == value,
    {
        PreviousComponent { current: value, last: value }
    }

    /// The previous value of the tracked component.
    pub fn get(&self) -> (c: &C)
        ensures
            *c == self.last_value(),
    {
        &self.last
    }

    /// Records that the tracked component changed to `value`.
    pub fn track(&mut self, value: C)
        ensures
            final(self).last_value() == old(self).current_value(),
            final(self).current_value() == value,
    {
        self.last = self.current;
        self.current = value;
    }
}

/// A button fires its action when it is hovered right after being pressed (released on it).
pub open spec fn action_fires(interaction: Interaction, previous: Interaction) -> bool {
    interaction == Interaction::Hovered && previous == Interaction::Pressed
}

/// The action a UI button performs, and the event fired when it is pressed.
#[derive(Copy, Clone, Debug, PartialEq, Eq, Default)]
pub struct UiAction<T>(pub T);

/// A button with an action, its interaction, and its previous interaction.
#[derive(Copy, Clone, Debug, PartialEq, Eq)]
pub struct ActionButton<T> {
    pub action: UiAction<T>,
    pub interaction: Interaction,
    pub previous: PreviousComponent<Interaction>,
}

/// The actions of the buttons whose interaction changed this frame, in order, that were
/// released while hovered.
pub open spec fn fired_actions<T>(buttons: Seq<ActionButton<T>>) -> Seq<UiAction<T>>
    decreases buttons.len(),
{
    if buttons.len() == 0 {
        Seq::empty()
    } else {
        let b = buttons.last();
        fired_actions(buttons.drop_last()) + if action_fires(b.interaction, b.previous.last_value()) {
            seq![b.action]
        } else {
            Seq::empty()
        }
    }
}

/// Fires the action of every changed button that was released while hovered.
pub fn ui_action<T: Copy>(changed_buttons: &Vec<ActionButton<T>>) -> (fired: Vec<UiAction<T>>)
    ensures
        fired@ == fired_actions(changed_buttons@),
{
    let mut fired: Vec<UiAction<T>> = Vec::new();
    let mut i: usize = 0;
    while i < changed_buttons.len()
        invariant
            0 <= i <= changed_buttons.len(),
            fired@ == fired_actions(changed_buttons@.take(i as int)),
        decreases changed_buttons.len() - i,
    {
        let b = changed_buttons[i];
        assert(changed_buttons@.take(i + 1).drop_last() =~= changed_buttons@.take(i as int));
        if b.interaction == Interaction::Hovered && *b.previous.get() == Interaction::Pressed {
            fired.push(b.action);
        }
        i += 1;
    }
    assert(changed_buttons@.take(changed_buttons.len() as int) =~= changed_buttons@);
    fired
}

/// A drag (pressed, then released off the button) never fires, nor does a press alone.
pub proof fn lemma_only_release_on_button_fires(previous: Interaction, interaction: Interaction)
    ensures
        action_fires(interaction, previous) ==> previous == Interaction::Pressed,
        interaction != Interaction::Hovered ==> !action_fires(interaction, previous),
{
}

/// An image of a texture atlas, by handle ids and index.
#[derive(Copy, Clone, Debug, PartialEq, Eq, Hash, Default, Structural)]
pub struct UiAtlasImage {
    /// Source image.
    pub image: u64,
    /// Atlas that defines the texture and its partitions.
    pub texture_atlas: u64,
    /// Index of the texture partition to display.
    pub index: usize,
}

/// The blueprint of an icon button: which icon it shows.
#[derive(Copy, Clone, Debug, PartialEq, Eq, Hash, Structural)]
pub enum IconButton {
    /// Button with all other elements, but no icon.
    NoIcon,
    /// A plain image icon, by image handle id.
    ImageIcon(u64),
    /// A texture atlas image icon.
    AtlasImageIcon(UiAtlasImage),
}

/// The highlight of a button's radial.
#[derive(Copy, Clone, Debug, PartialEq, Eq, Hash, Structural)]
pub enum RadialColor {
    /// Transparent.
    Clear,
    White,
    Gray,
}

/// The radial highlight that shows a button's interaction.
pub fn highlight_button_radial(interaction: Interaction) -> (c: RadialColor)
    ensures
        c == (match interaction {
            Interaction::Idle => RadialColor::Clear,
            Interaction::Hovered => RadialColor::White,
            Interaction::Pressed => RadialColor::Gray,
        }),
{
    match interaction {
        Interaction::Idle => RadialColor::Clear,
        Interaction::Hovered => RadialColor::White,
        Interaction::Pressed => RadialColor::Gray,
    }
}

/// The images cut from each texture atlas, by atlas handle id: one image handle id per texture
/// of the atlas, in the atlas's order.
pub struct UiAtlasImageMap(pub HashMap<u64, Vec<u64>>);

/// The crops that cut the textures of an atlas out of its image: left, top, width and height of
/// each texture, in order.
pub fn crop_regions(textures: &Vec<URect>) -> (crops: Vec<(u32, u32, u32, u32)>)
    requires
        forall|i: int|
            0 <= i < textures.len() ==> #[trigger] textures[i].min.x <= textures[i].max.x
                && textures[i].min.y <= textures[i].max.y,
    ensures
        crops.len() == textures.len(),
        forall|i: int|
            0 <= i < textures.len() ==> #[trigger] crops[i] == (
                textures[i].min.x,
                textures[i].min.y,
                rect_width(textures[i]) as u32,
                rect_height(textures[i]) as u32,
            ),
{
    let mut crops: Vec<(u32, u32, u32, u32)> = Vec::new();
    let mut i: usize = 0;
    while i < textures.len()
        invariant
            0 <= i <= textures.len(),
            crops.len() == i,
            forall|i: int|
                0 <= i < textures.len() ==> #[trigger] textures[i].min.x <= textures[i].max.x
                    && textures[i].min.y <= textures[i].max.y,
            forall|j: int|
                0 <= j < i ==> #[trigger] crops[j] == (
                    textures[j].min.x,
                    textures[j].min.y,
                    rect_width(textures[j]) as u32,
                    rect_height(textures[j]) as u32,
                ),
        decreases textures.len() - i,
    {
        let rect = textures[i];
        crops.push((rect.min.x, rect.min.y, rect.width(), rect.height()));
        i = i + 1;
    }
    crops
}

/// The image a UI atlas image shows: the image cut for its index from its atlas. The atlas's
/// images are cut once and kept in `map`; `cropped` holds them, freshly cut, when the map does
/// not have them yet.
pub fn resolve_ui_atlas_image(
    map: &mut UiAtlasImageMap,
    ui_atlas_image: &UiAtlasImage,
    cropped: Option<Vec<u64>>,
) -> (image: u64)
    requires
        old(map).0@.contains_key(ui_atlas_image.texture_atlas) ==> ui_atlas_image.index < old(
            map,
        ).0@[ui_atlas_image.texture_atlas].len(),
        !old(map).0@.contains_key(ui_atlas_image.texture_atlas) ==> (cropped matches Some(c)
            && ui_atlas_image.index < c.len()),
    ensures
        old(map).0@.contains_key(ui_atlas_image.texture_atlas) ==> final(map).0@ == old(map).0@,
        !old(map).0@.contains_key(ui_atlas_image.texture_atlas) ==> final(map).0@ == old(
            map,
        ).0@.insert(ui_atlas_image.texture_atlas, cropped.unwrap()),
        image == final(map).0@[ui_atlas_image.texture_atlas]@[ui_atlas_image.index as int],
{
    broadcast use vstd::std_specs::hash::group_hash_axioms;

    let atlas = ui_atlas_image.texture_atlas;
    if !map.0.contains_key(&atlas) {
        match cropped {
            Some(images) => {
                map.0.insert(atlas, images);
            },
            None => {},
        }
    }
    match map.0.get(&atlas) {
        Some(images) => images[ui_atlas_image.index],
        None => 0,
    }
}

/// Handle ids of the images every icon button is drawn with.
#[derive(Copy, Clone, Debug, PartialEq, Eq, Hash, Default, Structural)]
pub struct IconButtonAssets {
    pub outline: u64,
    pub radial: u64,
}

/// A child element of an icon button.
#[derive(Copy, Clone, Debug, PartialEq, Eq, Hash, Structural)]
pub enum IconButtonElement {
    /// The radial highlight, behind, by image handle id.
    Radial(u64),
    /// The outline, by image handle id.
    Outline(u64),
    /// The icon, on top.
    Icon(IconButton),
}

/// How an icon button's children are rebuilt when its icon changes.
#[derive(Clone, Debug, PartialEq, Eq)]
pub struct IconButtonRebuild {
    /// The old elements, which go away.
    pub despawn: Vec<u64>,
    /// The new elements, back to front.
    pub spawn: Vec<IconButtonElement>,
}

/// The entities among `elements` (entity and parent) whose parent is `parent`, in order.
pub open spec fn children_of(elements: Seq<(u64, u64)>, parent: u64) -> Seq<u64>
    decreases elements.len(),
{
    if elements.len() == 0 {
        Seq::empty()
    } else {
        let rest = children_of(elements.drop_last(), parent);
        if elements.last().1 == parent {
            rest.push(elements.last().0)
        } else {
            rest
        }
    }
}

/// The entities among `elements` (entity and parent) whose parent is `parent`, in order.
fn children_among(elements: &Vec<(u64, u64)>, parent: u64) -> (children: Vec<u64>)
    ensures
        children@ == children_of(elements@, parent),
{
    let mut children: Vec<u64> = Vec::new();
    let mut i: usize = 0;
    while i < elements.len()
        invariant
            0 <= i <= elements.len(),
            children@ == children_of(elements@.subrange(0, i as int), parent),
        decreases elements.len() - i,
    {
        proof {
            let pre = elements@.subrange(0, i + 1);
            assert(pre.drop_last() =~= elements@.subrange(0, i as int));
            assert(pre.last() == elements@[i as int]);
        }
        let (entity, p) = elements[i];
        if p == parent {
            children.push(entity);
        }
        i = i + 1;
    }
    assert(elements@.subrange(0, i as int) =~= elements@);
    children
}

/// Rebuilds the elements of the icon button `button`: its old elements (among `elements`, by
/// entity and parent) go away, and a radial, an outline and the icon take their place; other
/// children of the button stay.
pub fn spawn_icon_button_elements(
    button: u64,
    icon_button: IconButton,
    elements: &Vec<(u64, u64)>,
    assets: &IconButtonAssets,
) -> (r: IconButtonRebuild)
    ensures
        r.despawn@ == children_of(elements@, button),
        r.spawn@ == seq![
            IconButtonElement::Radial(assets.radial),
            IconButtonElement::Outline(assets.outline),
            IconButtonElement::Icon(icon_button),
        ],
{
    let despawn = children_among(elements, button);
    let mut spawn: Vec<IconButtonElement> = Vec::new();
    spawn.push(IconButtonElement::Radial(assets.radial));
    spawn.push(IconButtonElement::Outline(assets.outline));
    spawn.push(IconButtonElement::Icon(icon_button));
    assert(spawn@ =~= seq![
        IconButtonElement::Radial(assets.radial),
        IconButtonElement::Outline(assets.outline),
        IconButtonElement::Icon(icon_button),
    ]);
    IconButtonRebuild { despawn, spawn }
}

/// An input bound to an action: a keyboard key, by its key code's variant index, or another
/// kind of input.
#[derive(Copy, Clone, Debug, PartialEq, Eq, Hash, Structural)]
pub enum InputBinding {
    Key(usize),
    Other,
}

/// Handle ids of the key code icons.
#[derive(Copy, Clone, Debug, PartialEq, Eq, Hash, Default, Structural)]
pub struct ButtonPromptAssets {
    pub key_code_icons_atlas: u64,
    pub key_code_icons_image: u64,
}

/// How a button's prompt is rebuilt.
#[derive(Clone, Debug, PartialEq, Eq)]
pub struct ButtonPromptRebuild {
    /// The button's old prompts, which go away.
    pub despawn: Vec<u64>,
    /// The new prompt: the icon of the first key bound to the button's action, if any.
    pub prompt: Option<UiAtlasImage>,
}

/// The first keyboard key among `bindings`.
pub open spec fn first_key(bindings: Seq<InputBinding>) -> Option<usize>
    decreases bindings.len(),
{
    if bindings.len() == 0 {
        None
    } else {
        match bindings[0] {
            InputBinding::Key(k) => Some(k),
            InputBinding::Other => first_key(bindings.subrange(1, bindings.len() as int)),
        }
    }
}

/// Rebuilds the prompt of the action button `button`: its old prompts (among `prompts`, by
/// entity and parent) go away, and it shows the icon of the first key bound to its action.
pub fn spawn_button_prompt(
    button: u64,
    prompts: &Vec<(u64, u64)>,
    bindings: &Vec<InputBinding>,
    assets: &ButtonPromptAssets,
) -> (r: ButtonPromptRebuild)
    ensures
        r.despawn@ == children_of(prompts@, button),
        r.prompt == (match first_key(bindings@) {
            Some(k) => Some(
                UiAtlasImage {
                    image: assets.key_code_icons_image,
                    texture_atlas: assets.key_code_icons_atlas,
                    index: k,
                },
            ),
            None => None,
        }),
{
    let despawn = children_among(prompts, button);
    let prompt = match find_first_key(bindings) {
        Some(k) => Some(
            UiAtlasImage {
                image: assets.key_code_icons_image,
                texture_atlas: assets.key_code_icons_atlas,
                index: k,
            },
        ),
        None => None,
    };
    ButtonPromptRebuild { despawn, prompt }
}

/// The first keyboard key among `bindings`.
pub(crate) fn find_first_key(bindings: &Vec<InputBinding>) -> (r: Option<usize>)
    ensures
        r == first_key(bindings@),
{
    let mut i: usize = 0;
    assert(bindings@.subrange(0, bindings.len() as int) =~= bindings@);
    while i < bindings.len()
        invariant
            0 <= i <= bindings.len(),
            first_key(bindings@) == first_key(bindings@.subrange(i as int, bindings.len() as int)),
        decreases bindings.len() - i,
    {
        let ghost rest = bindings@.subrange(i as int, bindings.len() as int);
        assert(rest.subrange(1, rest.len() as int) =~= bindings@.subrange(
            i + 1,
            bindings.len() as int,
        ));
        assert(rest[0] == bindings@[i as int]);
        if let InputBinding::Key(k) = bindings[i] {
            return Some(k);
        }
        i = i + 1;
    }
    assert(bindings@.subrange(i as int, bindings.len() as int) =~= Seq::<InputBinding>::empty());
    None
}

} // verus!
