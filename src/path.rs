use vstd::prelude::*;

verus! {

/// What a light path does with the bounces it has left.
#[derive(Clone, Copy, Debug, PartialEq, Eq, Structural)]
pub enum Bounce {
    /// No bounce is left: the path carries no light (black).
    Absorbed,
    /// The ray is traced, and a ray scattered from its hit has `remaining`
    /// bounces left.
    Trace { remaining: i32 },
}

/// The step of a path with `depth` bounces left: a path that has none left is
/// cut off, which is what ends every path.
pub fn bounce(depth: i32) -> (r: Bounce)
    ensures
        depth <= 0 ==> r == Bounce::Absorbed,
        depth > 0 ==> r == (Bounce::Trace { remaining: (depth - 1) as i32 }),
{
    if depth <= 0 {
        Bounce::Absorbed
    } else {
        Bounce::Trace { remaining: depth - 1 }
    }
}

} // verus!
