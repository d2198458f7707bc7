//! Flattening of signed-distance-function scene trees into the flat
//! arrays that the fragment shader walks, together with the small
//! decision procedures of the renderer's event loop.

pub mod gpu_structs;
pub mod object_tree;
pub mod flat_tree_laws;
pub mod scene;
pub mod gpu_buffers;
pub mod input;
pub mod surface;
