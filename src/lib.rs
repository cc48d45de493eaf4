//! A compiler from protocol-buffer descriptors to a resolved model of
//! pydantic classes and enums, with its Python rendering.

pub mod descriptor;
pub mod scalar;
pub mod names;
pub mod model;
pub mod render;
pub mod driver;
pub mod laws;
