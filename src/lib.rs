use vstd::prelude::*;

pub mod decimal;
pub mod mtl;
pub mod obj;
pub mod path;
pub mod ppm;
pub mod text;
pub mod texture;

verus! {

/// The scenes that the renderer knows how to build.
#[derive(Clone, Copy, Debug, PartialEq, Eq, Structural)]
pub enum Scene {
    /// A field of small random spheres around three large ones.
    Spheres,
    /// A textured triangle mesh standing on a metal floor.
    Link,
}

} // verus!
