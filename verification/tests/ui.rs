use willos_graveyard::nine_slice::{UVec2, URect};
use willos_graveyard::ui::{
    crop_regions, highlight_button_radial, resolve_ui_atlas_image, spawn_button_prompt,
    spawn_icon_button_elements, ui_action, ActionButton, ButtonPromptAssets, IconButton,
    IconButtonAssets, IconButtonElement, InputBinding, Interaction, PreviousComponent,
    RadialColor, UiAction, UiAtlasImage, UiAtlasImageMap,
};
use std::collections::HashMap;

#[derive(Copy, Clone, Debug, PartialEq, Eq)]
enum TestAction {
    First,
    Second,
}

/// One frame: every button whose interaction changed tracks it, then the released buttons fire.
fn frame(
    buttons: &mut Vec<ActionButton<TestAction>>,
    changes: &[(usize, Interaction)],
) -> Vec<UiAction<TestAction>> {
    let mut changed = Vec::new();
    for &(i, interaction) in changes {
        buttons[i].interaction = interaction;
        buttons[i].previous.track(interaction);
        changed.push(buttons[i]);
    }
    ui_action(&changed)
}

fn spawn_two_buttons() -> Vec<ActionButton<TestAction>> {
    vec![
        ActionButton {
            action: UiAction(TestAction::First),
            interaction: Interaction::default(),
            previous: PreviousComponent::default(),
        },
        ActionButton {
            action: UiAction(TestAction::Second),
            interaction: Interaction::default(),
            previous: PreviousComponent::default(),
        },
    ]
}

#[test]
fn action_fires_on_click() {
    let mut buttons = spawn_two_buttons();

    // Simulate the first button click
    let mut events = frame(&mut buttons, &[(0, Interaction::Pressed)]);
    events.extend(frame(&mut buttons, &[(0, Interaction::Hovered)]));

    // Test that the first button click fired an event
    assert_eq!(events.len(), 1);
    assert_eq!(events[0], UiAction(TestAction::First));

    // Simulate the second button click, reset the first button
    let mut events = frame(&mut buttons, &[(0, Interaction::Idle), (1, Interaction::Pressed)]);
    events.extend(frame(&mut buttons, &[(1, Interaction::Hovered)]));

    // Test that the second button click fired an event
    assert_eq!(events.len(), 1);
    assert_eq!(events[0], UiAction(TestAction::Second));
}

#[test]
fn action_doesnt_fire_on_drag() {
    let mut buttons = spawn_two_buttons();

    // Simulate the button being clicked, and the mouse dragging off before unclicking
    let mut events = frame(&mut buttons, &[(0, Interaction::Pressed)]);
    events.extend(frame(&mut buttons, &[(0, Interaction::Idle)]));

    // Test that the button drag did not fire an event
    assert_eq!(events.len(), 0);
}

#[test]
fn previous_component_tracks_last_value() {
    let mut previous = PreviousComponent::new(Interaction::Idle);
    assert_eq!(*previous.get(), Interaction::Idle);
    previous.track(Interaction::Pressed);
    assert_eq!(*previous.get(), Interaction::Idle);
    previous.track(Interaction::Hovered);
    assert_eq!(*previous.get(), Interaction::Pressed);
}

#[test]
fn radial_highlights_follow_interaction() {
    assert_ne!(
        highlight_button_radial(Interaction::Pressed),
        highlight_button_radial(Interaction::Idle)
    );
    assert_eq!(highlight_button_radial(Interaction::Idle), RadialColor::Clear);
}

/// Key code icon indices: the space bar, F and W.
const SPACE: usize = 76;
const KEY_F: usize = 15;
const KEY_W: usize = 32;

fn prompt_assets() -> ButtonPromptAssets {
    ButtonPromptAssets { key_code_icons_atlas: 7, key_code_icons_image: 8 }
}

#[test]
fn button_prompt_displays_correct_key() {
    let assets = prompt_assets();
    let jump_bindings = vec![InputBinding::Key(SPACE)];
    let shoot_bindings = vec![InputBinding::Key(KEY_F)];
    let (jump_entity, shoot_entity): (u64, u64) = (1, 2);

    let jump_button_prompt = spawn_button_prompt(jump_entity, &vec![], &jump_bindings, &assets);
    assert_eq!(
        jump_button_prompt.prompt,
        Some(UiAtlasImage {
            image: assets.key_code_icons_image,
            texture_atlas: assets.key_code_icons_atlas,
            index: 76
        })
    );

    let shoot_button_prompt = spawn_button_prompt(shoot_entity, &vec![], &shoot_bindings, &assets);
    assert_eq!(
        shoot_button_prompt.prompt,
        Some(UiAtlasImage {
            image: assets.key_code_icons_image,
            texture_atlas: assets.key_code_icons_atlas,
            index: 15
        })
    );
}

#[test]
fn button_prompt_changes_with_action() {
    let assets = prompt_assets();
    let button_entity: u64 = 1;
    let prompt_entity: u64 = 10;

    // check its first image selection
    let first = spawn_button_prompt(button_entity, &vec![], &vec![InputBinding::Key(SPACE)], &assets);
    assert_eq!(
        first.prompt,
        Some(UiAtlasImage {
            image: assets.key_code_icons_image,
            texture_atlas: assets.key_code_icons_atlas,
            index: 76
        })
    );

    // change its action and check its image again
    let prompts = vec![(prompt_entity, button_entity)];
    let second = spawn_button_prompt(button_entity, &prompts, &vec![InputBinding::Key(KEY_F)], &assets);
    assert_eq!(second.despawn, vec![prompt_entity]);
    assert_eq!(
        second.prompt,
        Some(UiAtlasImage {
            image: assets.key_code_icons_image,
            texture_atlas: assets.key_code_icons_atlas,
            index: 15
        })
    );
}

#[test]
fn button_prompt_changes_with_input_map() {
    let assets = prompt_assets();
    let button_entity: u64 = 1;
    let prompt_entity: u64 = 10;

    // check its first image selection
    let first = spawn_button_prompt(button_entity, &vec![], &vec![InputBinding::Key(SPACE)], &assets);
    assert_eq!(
        first.prompt,
        Some(UiAtlasImage {
            image: assets.key_code_icons_image,
            texture_atlas: assets.key_code_icons_atlas,
            index: 76
        })
    );

    // change the input map and check its image again
    let prompts = vec![(prompt_entity, button_entity)];
    let second = spawn_button_prompt(button_entity, &prompts, &vec![InputBinding::Key(KEY_W)], &assets);
    assert_eq!(
        second.prompt,
        Some(UiAtlasImage {
            image: assets.key_code_icons_image,
            texture_atlas: assets.key_code_icons_atlas,
            index: 32
        })
    );
}

#[test]
fn button_prompt_skips_other_inputs_and_needs_a_key() {
    let assets = prompt_assets();
    let bindings = vec![InputBinding::Other, InputBinding::Key(KEY_W), InputBinding::Key(KEY_F)];
    let r = spawn_button_prompt(1, &vec![(5, 2), (6, 1)], &bindings, &assets);
    assert_eq!(r.despawn, vec![6]);
    assert_eq!(r.prompt.map(|p| p.index), Some(KEY_W));

    let none = spawn_button_prompt(1, &vec![], &vec![InputBinding::Other], &assets);
    assert_eq!(none.prompt, None);
}

fn icon_assets() -> IconButtonAssets {
    IconButtonAssets { outline: 100, radial: 101 }
}

/// The children of `button` after rebuilding it: the ones kept, then the new elements.
fn rebuilt_children(
    button: u64,
    icon_button: IconButton,
    elements: &Vec<(u64, u64)>,
    other_children: usize,
) -> (usize, Vec<IconButtonElement>) {
    let r = spawn_icon_button_elements(button, icon_button, elements, &icon_assets());
    let old_elements = elements.iter().filter(|(_, p)| *p == button).count();
    assert_eq!(r.despawn.len(), old_elements);
    (other_children + r.spawn.len(), r.spawn)
}

#[test]
fn elements_spawned_with_ui_image() {
    let asset_collection = icon_assets();
    let icon: u64 = 42;
    let icon_button_entity: u64 = 1;

    let (count, children) =
        rebuilt_children(icon_button_entity, IconButton::ImageIcon(icon), &vec![], 0);

    assert_eq!(count, 3);
    assert_eq!(children[0], IconButtonElement::Radial(asset_collection.radial));
    assert_eq!(children[1], IconButtonElement::Outline(asset_collection.outline));
    assert_eq!(children[2], IconButtonElement::Icon(IconButton::ImageIcon(icon)));
}

#[test]
fn elements_spawned_with_ui_atlas_image() {
    let asset_collection = icon_assets();
    let icon: u64 = 43;
    let icon_button_entity: u64 = 1;
    let atlas_image = UiAtlasImage { image: 44, texture_atlas: icon, index: 2 };

    let (count, children) = rebuilt_children(
        icon_button_entity,
        IconButton::AtlasImageIcon(atlas_image),
        &vec![],
        0,
    );

    assert_eq!(count, 3);
    assert_eq!(children[0], IconButtonElement::Radial(asset_collection.radial));
    assert_eq!(children[1], IconButtonElement::Outline(asset_collection.outline));
    match children[2] {
        IconButtonElement::Icon(IconButton::AtlasImageIcon(a)) => assert_eq!(a.texture_atlas, icon),
        other => panic!("unexpected icon element {:?}", other),
    }
}

#[test]
fn elements_can_change() {
    let icon_button_entity: u64 = 1;
    let first_icon: u64 = 50;

    let (count, children) =
        rebuilt_children(icon_button_entity, IconButton::ImageIcon(first_icon), &vec![], 0);
    assert_eq!(count, 3);
    assert_eq!(children[2], IconButtonElement::Icon(IconButton::ImageIcon(first_icon)));

    // Change the component: the three elements spawned before are replaced
    let second_icon: u64 = 51;
    let elements = vec![(10, icon_button_entity), (11, icon_button_entity), (12, icon_button_entity)];
    let (count, children) =
        rebuilt_children(icon_button_entity, IconButton::ImageIcon(second_icon), &elements, 0);

    assert_eq!(count, 3);
    assert_eq!(children[2], IconButtonElement::Icon(IconButton::ImageIcon(second_icon)));
}

#[test]
fn update_does_not_despawn_greedily() {
    let icon_button_entity: u64 = 1;
    let first_icon: u64 = 50;
    let additional_child_entity: u64 = 20;

    // the additional child is no icon button element, so it stays
    let elements: Vec<(u64, u64)> = vec![];
    let r = spawn_icon_button_elements(
        icon_button_entity,
        IconButton::ImageIcon(first_icon),
        &elements,
        &icon_assets(),
    );
    let mut children: Vec<u64> = vec![additional_child_entity];
    children.retain(|c| !r.despawn.contains(c));
    children.extend([30, 31, 32].iter().take(r.spawn.len()));

    assert_eq!(children.len(), 4);
    assert!(children.contains(&additional_child_entity));
}

fn atlas_textures() -> Vec<URect> {
    // a 4 by 4 image cut in four 2 by 2 textures
    vec![
        URect { min: UVec2::new(0, 0), max: UVec2::new(2, 2) },
        URect { min: UVec2::new(2, 0), max: UVec2::new(4, 2) },
        URect { min: UVec2::new(0, 2), max: UVec2::new(2, 4) },
        URect { min: UVec2::new(2, 2), max: UVec2::new(4, 4) },
    ]
}

#[test]
fn map_and_image_resolve() {
    let texture_atlas: u64 = 3;
    let ui_atlas_image = UiAtlasImage { image: 2, texture_atlas, index: 1 };
    let mut map = UiAtlasImageMap(HashMap::new());

    // every texture of the atlas is cropped once
    let crops = crop_regions(&atlas_textures());
    assert_eq!(crops, vec![(0, 0, 2, 2), (2, 0, 2, 2), (0, 2, 2, 2), (2, 2, 2, 2)]);
    let cropped: Vec<u64> = vec![100, 101, 102, 103];

    let image = resolve_ui_atlas_image(&mut map, &ui_atlas_image, Some(cropped.clone()));

    let image_handles = map.0.get(&texture_atlas).unwrap();
    assert_eq!(*image_handles, cropped);
    assert_eq!(image, image_handles[1]);
}

#[test]
fn index_changes_dont_generate_more_images() {
    let texture_atlas: u64 = 3;
    let mut ui_atlas_image = UiAtlasImage { image: 2, texture_atlas, index: 1 };
    let mut map = UiAtlasImageMap(HashMap::new());

    let image = resolve_ui_atlas_image(&mut map, &ui_atlas_image, Some(vec![100, 101, 102, 103]));
    let image_handles = map.0.get(&texture_atlas).unwrap().clone();
    assert_eq!(image, image_handles[1]);

    ui_atlas_image.index += 1;

    let image = resolve_ui_atlas_image(&mut map, &ui_atlas_image, None);
    let new_image_handles = map.0.get(&texture_atlas).unwrap();

    // the entity's image changed appropriately
    assert_eq!(image, image_handles[2]);
    // the image handles have not changed
    assert_eq!(image_handles, *new_image_handles);
}
