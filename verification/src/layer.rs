//! The layers of a graveyard level and how to find a layer's entity.
use crate::text::str_eq;
use vstd::prelude::*;

verus! {

/// All layers of graveyard levels.
#[derive(Copy, Clone, Debug, PartialEq, Eq, Structural)]
pub enum GraveyardLayer {
    /// The background layer, usually for ground textures.
    Background,
    /// Border textures that appear behind Willo.
    BorderBackground,
    /// Entities that appear behind Willo.
    BackgroundEntities,
    /// Gameplay tiles, like walls and volatile textures.
    IntGrid,
    /// Sokoban entities, like Willo and pushable blocks.
    Entities,
    /// Things that appear in front of Willo, like parts of border textures.
    Foreground,
}

/// The layer's identifier in the level files.
pub open spec fn layer_identifier(layer: GraveyardLayer) -> Seq<char> {
    match layer {
        GraveyardLayer::Background => "Background"@,
        GraveyardLayer::BorderBackground => "BorderBG"@,
        GraveyardLayer::BackgroundEntities => "Background_Entities"@,
        GraveyardLayer::IntGrid => "IntGrid"@,
        GraveyardLayer::Entities => "Entities"@,
        GraveyardLayer::Foreground => "ForeGround"@,
    }
}

/// The layer entity does not exist.
#[derive(Copy, Clone, Debug, PartialEq, Eq, Structural)]
pub struct LayerEntityDoesNotExist(pub GraveyardLayer);

/// The index of the first layer whose identifier is `id`, if any.
pub open spec fn first_layer_with(layers: Seq<(u64, String)>, id: Seq<char>) -> Option<int>
    decreases layers.len(),
{
    if layers.len() == 0 {
        None
    } else if layers[0].1@ == id {
        Some(0)
    } else {
        match first_layer_with(layers.subrange(1, layers.len() as int), id) {
            Some(i) => Some(i + 1),
            None => None,
        }
    }
}

impl GraveyardLayer {
    /// The layer's identifier in the level files.
    pub fn as_identifier(&self) -> (id: &'static str)
        ensures
            id@ == layer_identifier(*self),
    {
        match self {
            GraveyardLayer::Background => {
                proof {
                    reveal_strlit("Background");
                }
                "Background"
            },
            GraveyardLayer::BorderBackground => {
                proof {
                    reveal_strlit("BorderBG");
                }
                "BorderBG"
            },
            GraveyardLayer::BackgroundEntities => {
                proof {
                    reveal_strlit("Background_Entities");
                }
                "Background_Entities"
            },
            GraveyardLayer::IntGrid => {
                proof {
                    reveal_strlit("IntGrid");
                }
                "IntGrid"
            },
            GraveyardLayer::Entities => {
                proof {
                    reveal_strlit("Entities");
                }
                "Entities"
            },
            GraveyardLayer::Foreground => {
                proof {
                    reveal_strlit("ForeGround");
                }
                "ForeGround"
            },
        }
    }

    /// The entity to spawn bundles on this layer under: the first layer entity, among `layers`
    /// (entity and layer identifier), whose identifier is this layer's.
    pub fn spawn_bundles_on(self, layers: &Vec<(u64, String)>) -> (r: Result<
        u64,
        LayerEntityDoesNotExist,
    >)
        ensures
            r == (match first_layer_with(layers@, layer_identifier(self)) {
                Some(i) => Ok(layers@[i].0),
                None => Err(LayerEntityDoesNotExist(self)),
            }),
    {
        let id = self.as_identifier();
        let mut i: usize = 0;
        assert(layers@.subrange(0, layers.len() as int) =~= layers@);
        while i < layers.len()
            invariant
                0 <= i <= layers.len(),
                id@ == layer_identifier(self),
                first_layer_with(layers@, id@) == (match first_layer_with(
                    layers@.subrange(i as int, layers.len() as int),
                    id@,
                ) {
                    Some(j) => Some(j + i),
                    None => None::<int>,
                }),
            decreases layers.len() - i,
        {
            let ghost rest = layers@.subrange(i as int, layers.len() as int);
            assert(rest.subrange(1, rest.len() as int) =~= layers@.subrange(
                i + 1,
                layers.len() as int,
            ));
            assert(rest[0] == layers@[i as int]);
            if str_eq(layers[i].1.as_str(), id) {
                return Ok(layers[i].0);
            }
            i = i + 1;
        }
        Err(LayerEntityDoesNotExist(self))
    }
}

} // verus!
