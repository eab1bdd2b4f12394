//! A draw-call state container: everything a renderer needs to configure
//! the pipeline for one draw (shader, index and vertex buffers, textures,
//! uniforms, depth and blend toggles), with verified bookkeeping.

pub mod bindings;
pub mod draw_env;
pub mod glsl;
pub mod handles;
