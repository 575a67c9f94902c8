//! What backends and layers are written against.

pub mod accessor;
pub mod buf;
pub mod layer;
pub mod oio;
pub mod path;
pub mod rps;
pub mod vecs;
