//! Verified core of the Cubic renderer: block resources, chunk meshing and
//! mesh scheduling.
//!
//! The crate works on integers and text only. Floating-point geometry and the
//! GPU live in the application crate around it.

pub mod animation;
pub mod atlas;
pub mod baking;
pub mod banner;
pub mod blockstate;
pub mod clip;
pub mod creative;
pub mod direction;
pub mod drawing;
pub mod error;
pub mod fluid;
pub mod fluid_debug;
pub mod frame;
pub mod grid;
pub mod gui_models;
pub mod hud;
pub mod icons;
pub mod identifiers;
pub mod images;
pub mod inheritance;
pub mod items;
pub mod json;
pub mod loading;
pub mod look;
pub mod mesher;
pub mod mismatch;
pub mod model_part;
pub mod models;
pub mod names;
pub mod offset;
pub mod prepared;
pub mod properties;
pub mod resources;
pub mod scheduler;
pub mod selection;
pub mod semantics;
pub mod shading;
pub mod special;
pub mod special_parts;
pub mod special_world;
pub mod statistics;
pub mod text;
pub mod translations;
pub mod traversal;
pub mod variant_random;
