//! A Monte-Carlo path tracer's verified core: packed pixel values, the
//! render configuration with its row-major pixel order, and the closest-hit
//! selection over the objects of a scene.

pub mod pixel;
pub mod render;
pub mod scene;
pub mod trace;
