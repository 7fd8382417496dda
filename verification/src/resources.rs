//! Prepared block resources: the models, fluids and colours of block states.

use crate::direction::Direction;
use crate::grid::RuntimeBlockStateId;
use vstd::prelude::*;

verus! {

#[derive(Clone, Copy, Debug, PartialEq, Eq, Structural)]
pub enum RenderLayer {
    Opaque,
    Cutout,
    Translucent,
    /// Nested translucent shells that are blended without writing depth, so
    /// that no shell hides the ones behind it.
    LayeredTranslucent,
}

#[derive(Clone, Copy, Debug, PartialEq, Eq, Structural)]
pub enum TintKind {
    Untinted,
    Grass,
    Foliage,
    DryFoliage,
    Water,
    Fixed(u32),
}

#[derive(Clone, Copy, Debug, PartialEq, Eq, Structural)]
pub enum TextureMaterial {
    Terrain,
    BannerPattern,
}

#[derive(Clone, Copy, Debug, PartialEq, Eq, Structural)]
pub enum ModelOffset {
    Unmoved,
    Xz,
    Xyz,
}

#[derive(Clone, Copy, Debug, PartialEq, Eq, Structural)]
pub enum FluidKind {
    Water,
    Lava,
}

#[derive(Clone, Copy, Debug, PartialEq, Eq, Structural)]
pub struct FluidState {
    pub kind: FluidKind,
    pub level: u8,
    pub falling: bool,
}

/// Where a texture lies in an atlas, in pixels, and the layer that its alpha
/// asks for.
#[derive(Clone, Copy, Debug, PartialEq, Eq, Structural)]
pub struct AtlasRegion {
    pub x: u32,
    pub y: u32,
    pub width: u32,
    pub height: u32,
    pub layer: RenderLayer,
}

/// What is known of the corners of a face: for each corner and axis, whether it
/// lies in the upper half of the block; and whether the face lies on the boundary
/// that it is culled against and covers all of it.
#[derive(Clone, Copy, Debug)]
pub struct FaceShape {
    pub upper: [[bool; 3]; 4],
    pub covers_boundary: bool,
}

/// One face of a block model. Its corners and texture coordinates are held by
/// the presentation layer under `geometry`.
#[derive(Clone, Debug)]
pub struct ModelFace {
    pub geometry: usize,
    pub direction: Direction,
    pub shape: FaceShape,
    pub texture: String,
    pub atlas_region: AtlasRegion,
    pub material: TextureMaterial,
    pub cullface: Option<Direction>,
    pub tint_index: Option<u32>,
    pub tint_kind: TintKind,
    pub render_layer: RenderLayer,
    pub directional_shade: bool,
}

/// A model as one block state applies it. Its solid boxes are held by the
/// presentation layer under `boxes`.
#[derive(Clone, Debug)]
pub struct ModelApplication {
    pub faces: Vec<ModelFace>,
    pub boxes: usize,
    pub x_rotation: u16,
    pub y_rotation: u16,
    pub uvlock: bool,
    pub ambient_occlusion: bool,
}

/// Alternative models with their weights.
#[derive(Clone, Debug)]
pub struct WeightedApplications {
    pub entries: Vec<(u32, ModelApplication)>,
    pub total_weight: u32,
}

#[derive(Clone, Debug)]
pub struct StateModels {
    pub parts: Vec<WeightedApplications>,
    pub full_opaque_cube: bool,
    /// Whether the block is solid for fluid surface sampling. This is distinct
    /// from visual occlusion.
    pub fluid_surface_solid: bool,
    pub fluid: Option<FluidState>,
    pub emissive: bool,
    pub model_offset: ModelOffset,
}

impl StateModels {
    /// Nothing is drawn and nothing flows.
    pub open spec fn is_nothing(&self) -> bool {
        self.parts@.len() == 0 && self.fluid is None
    }

    /// The models of a block that is nothing and has no effect on its neighbours.
    pub open spec fn is_empty(self) -> bool {
        &&& self.is_nothing()
        &&& !self.full_opaque_cube
        &&& !self.fluid_surface_solid
        &&& !self.emissive
        &&& self.model_offset == ModelOffset::Unmoved
    }

    pub fn empty() -> (models: Self)
        ensures
            models.is_empty(),
    {
        StateModels {
            parts: Vec::new(),
            full_opaque_cube: false,
            fluid_surface_solid: false,
            fluid: None,
            emissive: false,
            model_offset: ModelOffset::Unmoved,
        }
    }
}

/// The models of block states by state id, with a fallback for the states that
/// have none.
#[derive(Clone, Debug)]
pub struct StateTable {
    pub states: Vec<Option<StateModels>>,
    pub fallback: StateModels,
}

impl StateTable {
    pub open spec fn models(&self, state: int) -> StateModels {
        if 0 <= state < self.states@.len() {
            match self.states@[state] {
                Some(models) => models,
                None => self.fallback,
            }
        } else {
            self.fallback
        }
    }

    pub fn state(&self, state: RuntimeBlockStateId) -> (models: &StateModels)
        ensures
            *models == self.models(state.0 as int),
    {
        let index: usize = state.0 as usize;
        if index < self.states.len() {
            match &self.states[index] {
                Some(models) => models,
                None => &self.fallback,
            }
        } else {
            &self.fallback
        }
    }
}

#[derive(Clone, Copy, Debug, PartialEq, Eq, Structural)]
pub enum GrassColorModifier {
    Unmodified,
    DarkForest,
    Swamp,
}

/// The colours of a biome. `climate` is the biome's place in the climate colour
/// maps, as a column and a row.
#[derive(Clone, Copy, Debug, PartialEq, Eq, Structural)]
pub struct RuntimeBiome {
    pub raw_id: u32,
    pub climate_column: u8,
    pub climate_row: u8,
    pub water_color: u32,
    pub foliage_color: Option<u32>,
    pub dry_foliage_color: Option<u32>,
    pub grass_color: Option<u32>,
    pub grass_color_modifier: GrassColorModifier,
}

/// The three climate colour maps, 256 columns wide.
#[derive(Clone, Debug)]
pub struct ClimateColors {
    pub grass: Vec<u32>,
    pub foliage: Vec<u32>,
    pub dry_foliage: Vec<u32>,
}

/// A block state has the models that stand under its number, and where none stand there
/// those for what is missing.
pub proof fn lemma_states_have_their_models(table: StateTable, state: int)
    ensures
        0 <= state < table.states@.len() && table.states@[state] is Some ==> Some(
            table.models(state),
        ) == table.states@[state],
        0 <= state < table.states@.len() && table.states@[state] is None ==> table.models(state)
            == table.fallback,
        state < 0 || state >= table.states@.len() ==> table.models(state) == table.fallback,
{
}

/// What shows nothing has neither parts nor a fluid.
pub proof fn lemma_nothing_has_no_parts(models: StateModels)
    ensures
        models.is_nothing() <==> models.parts@ == Seq::<WeightedApplications>::empty()
            && models.fluid is None,
        models.is_empty() ==> models.is_nothing() && !models.full_opaque_cube && !models.emissive
            && !models.fluid_surface_solid,
{
    if models.parts@.len() == 0 {
        assert(models.parts@ =~= Seq::<WeightedApplications>::empty());
    }
}

} // verus!
