//! The graveyard's control display: one button per grave action showing its current movement,
//! and buttons for undo, restart and pause.
use crate::gravestone::{movement_of, GraveId, GravestoneMovementQueries};
use crate::arrow_block::tileset_index_of;
use crate::graveyard::GraveyardAction;
use crate::ui::{IconButton, UiAtlasImage};
use vstd::prelude::*;

verus! {

/// Handle ids of the control display's textures.
#[derive(Copy, Clone, Debug, PartialEq, Eq, Default, Structural)]
pub struct ControlDisplayAssets {
    pub movement_table_actions_layout: u64,
    pub movement_table_actions: u64,
    pub graveyard_actions_layout: u64,
    pub graveyard_actions: u64,
}

/// The action of a control display button.
#[derive(Copy, Clone, Debug, PartialEq, Eq, Structural)]
pub enum ControlAction {
    Grave(GraveId),
    Graveyard(GraveyardAction),
}

/// A control display button.
#[derive(Copy, Clone, Debug, PartialEq, Eq, Structural)]
pub struct ControlButton {
    pub icon: IconButton,
    pub action: ControlAction,
}

/// The icon of a graveyard action button: its image in the graveyard action atlas.
pub open spec fn graveyard_action_icon(assets: ControlDisplayAssets, index: usize) -> IconButton {
    IconButton::AtlasImageIcon(
        UiAtlasImage {
            image: assets.graveyard_actions,
            texture_atlas: assets.graveyard_actions_layout,
            index,
        },
    )
}

/// The buttons of a freshly spawned control display: the six grave actions without icons, then
/// undo, restart and pause with their icons.
pub open spec fn fresh_control_buttons(assets: ControlDisplayAssets) -> Seq<ControlButton> {
    seq![
        ControlButton { icon: IconButton::NoIcon, action: ControlAction::Grave(GraveId::Northwest) },
        ControlButton { icon: IconButton::NoIcon, action: ControlAction::Grave(GraveId::North) },
        ControlButton { icon: IconButton::NoIcon, action: ControlAction::Grave(GraveId::Northeast) },
        ControlButton { icon: IconButton::NoIcon, action: ControlAction::Grave(GraveId::West) },
        ControlButton { icon: IconButton::NoIcon, action: ControlAction::Grave(GraveId::South) },
        ControlButton { icon: IconButton::NoIcon, action: ControlAction::Grave(GraveId::East) },
        ControlButton { icon: graveyard_action_icon(assets, 0), action: ControlAction::Graveyard(GraveyardAction::Undo) },
        ControlButton { icon: graveyard_action_icon(assets, 1), action: ControlAction::Graveyard(GraveyardAction::Restart) },
        ControlButton { icon: graveyard_action_icon(assets, 2), action: ControlAction::Graveyard(GraveyardAction::Pause) },
    ]
}

/// Spawns the control display once: the first call gives its buttons and marks it spawned; once
/// it is spawned, a call spawns nothing.
pub fn spawn_control_display(already_spawned: &mut bool, assets: &ControlDisplayAssets) -> (buttons:
    Vec<ControlButton>)
    ensures
        *final(already_spawned),
        buttons@ == (if *old(already_spawned) {
            Seq::<ControlButton>::empty()
        } else {
            fresh_control_buttons(*assets)
        }),
{
    if *already_spawned {
        return Vec::new();
    }
    *already_spawned = true;
    let mut buttons: Vec<ControlButton> = Vec::new();
    buttons.push(ControlButton { icon: IconButton::NoIcon, action: ControlAction::Grave(GraveId::Northwest) });
    buttons.push(ControlButton { icon: IconButton::NoIcon, action: ControlAction::Grave(GraveId::North) });
    buttons.push(ControlButton { icon: IconButton::NoIcon, action: ControlAction::Grave(GraveId::Northeast) });
    buttons.push(ControlButton { icon: IconButton::NoIcon, action: ControlAction::Grave(GraveId::West) });
    buttons.push(ControlButton { icon: IconButton::NoIcon, action: ControlAction::Grave(GraveId::South) });
    buttons.push(ControlButton { icon: IconButton::NoIcon, action: ControlAction::Grave(GraveId::East) });
    buttons.push(ControlButton {
        icon: IconButton::AtlasImageIcon(UiAtlasImage { image: assets.graveyard_actions, texture_atlas: assets.graveyard_actions_layout, index: 0 }),
        action: ControlAction::Graveyard(GraveyardAction::Undo),
    });
    buttons.push(ControlButton {
        icon: IconButton::AtlasImageIcon(UiAtlasImage { image: assets.graveyard_actions, texture_atlas: assets.graveyard_actions_layout, index: 1 }),
        action: ControlAction::Graveyard(GraveyardAction::Restart),
    });
    buttons.push(ControlButton {
        icon: IconButton::AtlasImageIcon(UiAtlasImage { image: assets.graveyard_actions, texture_atlas: assets.graveyard_actions_layout, index: 2 }),
        action: ControlAction::Graveyard(GraveyardAction::Pause),
    });
    assert(buttons@ =~= fresh_control_buttons(*assets));
    buttons
}

/// The icon a grave action button shows: its movement's tile, or no icon without a movement.
pub open spec fn grave_action_icon(
    queries: GravestoneMovementQueries,
    assets: ControlDisplayAssets,
    g: GraveId,
) -> IconButton {
    match movement_of(queries.gravestones@, queries.movement_tiles@, g) {
        Some(t) => IconButton::AtlasImageIcon(
            UiAtlasImage {
                image: assets.movement_table_actions,
                texture_atlas: assets.movement_table_actions_layout,
                index: tileset_index_of(t.row_move, t.column_move) as usize,
            },
        ),
        None => IconButton::NoIcon,
    }
}

/// Shows on every grave action button the movement its gravestone currently has.
pub fn update_grave_action_buttons(
    queries: &GravestoneMovementQueries,
    buttons: &mut Vec<ControlButton>,
    assets: &ControlDisplayAssets,
)
    ensures
        final(buttons).len() == old(buttons).len(),
        forall|i: int|
            0 <= i < old(buttons).len() ==> #[trigger] final(buttons)[i] == (match old(buttons)[i].action {
                ControlAction::Grave(g) => ControlButton {
                    icon: grave_action_icon(*queries, *assets, g),
                    ..old(buttons)[i]
                },
                ControlAction::Graveyard(_) => old(buttons)[i],
            }),
{
    let ghost start = buttons@;
    let mut i: usize = 0;
    while i < buttons.len()
        invariant
            0 <= i <= buttons.len(),
            buttons.len() == start.len(),
            forall|j: int| i <= j < buttons.len() ==> #[trigger] buttons[j] == start[j],
            forall|j: int|
                0 <= j < i ==> #[trigger] buttons[j] == (match start[j].action {
                    ControlAction::Grave(g) => ControlButton {
                        icon: grave_action_icon(*queries, *assets, g),
                        ..start[j]
                    },
                    ControlAction::Graveyard(_) => start[j],
                }),
        decreases buttons.len() - i,
    {
        let b = buttons[i];
        if let ControlAction::Grave(g) = b.action {
            let icon = match queries.find_movement(&g) {
                Some(movement_tile) => {
                    let index = movement_tile.tileset_index();
                    IconButton::AtlasImageIcon(
                        UiAtlasImage {
                            image: assets.movement_table_actions,
                            texture_atlas: assets.movement_table_actions_layout,
                            index,
                        },
                    )
                },
                None => IconButton::NoIcon,
            };
            buttons.set(i, ControlButton { icon, ..b });
        }
        i += 1;
    }
}

} // verus!
